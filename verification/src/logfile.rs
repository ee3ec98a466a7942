//! Naming of the on-disk log sink.
//!
//! Logging is initialized once per process: a namespaced subdirectory of
//! the platform data directory holds one log file per process lifetime,
//! named by the local timestamp of initialization so that repeated runs
//! do not collide. The timestamp reaches this module as plain field
//! values; reading the clock and touching the disk belong to the
//! host-facing layer.

use vstd::prelude::*;
use vstd::string::StringExecFns;

verus! {

/// A local wall-clock timestamp, to second resolution, as plain values.
#[derive(Clone, Copy, Debug, PartialEq, Eq, Structural)]
pub struct Timestamp {
    pub year: u16,
    pub month: u8,
    pub day: u8,
    pub hour: u8,
    pub minute: u8,
    pub second: u8,
}

impl Timestamp {
    /// Calendar field ranges, the year bounded by its four digits.
    pub open spec fn valid(&self) -> bool {
        &&& self.year <= 9999
        &&& 1 <= self.month <= 12
        &&& 1 <= self.day <= 31
        &&& self.hour < 24
        &&& self.minute < 60
        &&& self.second < 60
    }

    /// Runtime check of `valid`.
    pub fn is_valid(&self) -> (r: bool)
        ensures
            r == self.valid(),
    {
        self.year <= 9999 && 1 <= self.month && self.month <= 12 && 1 <= self.day && self.day <= 31
            && self.hour < 24 && self.minute < 60 && self.second < 60
    }
}

/// The decimal digit character for `d`.
pub open spec fn digit_char(d: int) -> char {
    if d == 0 {
        '0'
    } else if d == 1 {
        '1'
    } else if d == 2 {
        '2'
    } else if d == 3 {
        '3'
    } else if d == 4 {
        '4'
    } else if d == 5 {
        '5'
    } else if d == 6 {
        '6'
    } else if d == 7 {
        '7'
    } else if d == 8 {
        '8'
    } else {
        '9'
    }
}

/// `n` in decimal, zero-padded to two digits.
pub open spec fn padded2(n: int) -> Seq<char> {
    seq![digit_char(n / 10), digit_char(n % 10)]
}

/// `n` in decimal, zero-padded to four digits.
pub open spec fn padded4(n: int) -> Seq<char> {
    seq![
        digit_char(n / 1000),
        digit_char((n / 100) % 10),
        digit_char((n / 10) % 10),
        digit_char(n % 10),
    ]
}

/// The log file is named by the timestamp of initialization:
/// `YYYY-MM-DD-HHMMSS.log`.
pub open spec fn log_file_name_spec(t: Timestamp) -> Seq<char> {
    padded4(t.year as int) + "-"@ + padded2(t.month as int) + "-"@ + padded2(t.day as int) + "-"@
        + padded2(t.hour as int) + padded2(t.minute as int) + padded2(t.second as int) + ".log"@
}

/// The decimal digit `d` as a string slice.
fn digit_str(d: u16) -> (s: &'static str)
    requires
        d < 10,
    ensures
        s@ == seq![digit_char(d as int)],
{
    let s: &'static str = match d {
        0 => "0",
        1 => "1",
        2 => "2",
        3 => "3",
        4 => "4",
        5 => "5",
        6 => "6",
        7 => "7",
        8 => "8",
        9 => "9",
        _ => unreached(),
    };
    proof {
        reveal_strlit("0");
        reveal_strlit("1");
        reveal_strlit("2");
        reveal_strlit("3");
        reveal_strlit("4");
        reveal_strlit("5");
        reveal_strlit("6");
        reveal_strlit("7");
        reveal_strlit("8");
        reveal_strlit("9");
        assert(s@ =~= seq![digit_char(d as int)]);
    }
    s
}

/// Append `n` as two zero-padded decimal digits.
fn append_padded2(line: &mut String, n: u16)
    requires
        n < 100,
    ensures
        final(line)@ == old(line)@ + padded2(n as int),
{
    let ghost start = line@;
    line.append(digit_str(n / 10));
    line.append(digit_str(n % 10));
    proof {
        assert(line@ =~= start + padded2(n as int));
    }
}

/// Append `n` as four zero-padded decimal digits.
fn append_padded4(line: &mut String, n: u16)
    requires
        n <= 9999,
    ensures
        final(line)@ == old(line)@ + padded4(n as int),
{
    let ghost start = line@;
    line.append(digit_str(n / 1000));
    line.append(digit_str((n / 100) % 10));
    line.append(digit_str((n / 10) % 10));
    line.append(digit_str(n % 10));
    proof {
        assert(line@ =~= start + padded4(n as int));
    }
}

/// Build the log file name for the timestamp, exactly as
/// `log_file_name_spec` states it.
pub fn log_file_name(t: &Timestamp) -> (r: String)
    requires
        t.valid(),
    ensures
        r@ == log_file_name_spec(*t),
{
    let mut name = String::new();
    append_padded4(&mut name, t.year);
    name.append("-");
    append_padded2(&mut name, t.month as u16);
    name.append("-");
    append_padded2(&mut name, t.day as u16);
    name.append("-");
    append_padded2(&mut name, t.hour as u16);
    append_padded2(&mut name, t.minute as u16);
    append_padded2(&mut name, t.second as u16);
    name.append(".log");
    proof {
        assert(name@ =~= log_file_name_spec(*t));
    }
    name
}

/// The namespaced subdirectory of the platform data directory that holds
/// the log files.
pub fn log_dir_name() -> (r: String)
    ensures
        r@ == "rdwm"@,
{
    let mut s = String::new();
    s.append("rdwm");
    proof {
        assert(s@ =~= "rdwm"@);
    }
    s
}

} // verus!
