//! The launch-side computation: the informational log line recording a
//! decoded invocation, written before any launch attempt is made.
//!
//! The launch itself is an operating-system effect performed by the
//! host-facing layer; everything it needs from the invocation — the
//! command and the argument list joined by a visible delimiter — is
//! computed here.

use vstd::prelude::*;
use vstd::string::StringExecFns;

use crate::invocation::{CommandInvocation, InvocationModel};

verus! {

/// The argument texts joined by the visible delimiter `", "`.
pub open spec fn joined_args(args: Seq<Seq<char>>) -> Seq<char>
    decreases args.len(),
{
    if args.len() == 0 {
        Seq::empty()
    } else if args.len() == 1 {
        args[0]
    } else {
        joined_args(args.drop_last()) + ", "@ + args.last()
    }
}

/// The log line recording an invocation: the command followed by the
/// joined argument list.
pub open spec fn log_line_spec(m: InvocationModel) -> Seq<char> {
    "spawn process: "@ + m.command + " "@ + joined_args(m.args)
}

/// Build the log line for an invocation, exactly as `log_line_spec`
/// states it.
pub fn spawn_log_line(inv: &CommandInvocation) -> (r: String)
    ensures
        r@ == log_line_spec(inv.model()),
{
    let ghost argsm = inv.args.deep_view();
    let mut line = String::new();
    line.append("spawn process: ");
    line.append(inv.command.as_str());
    line.append(" ");
    proof {
        assert(line@ =~= "spawn process: "@ + inv.command@ + " "@ + joined_args(argsm.take(0)));
    }
    let mut i: usize = 0;
    while i < inv.args.len()
        invariant
            i <= inv.args.len(),
            argsm == inv.args.deep_view(),
            argsm.len() == inv.args.len(),
            line@ == "spawn process: "@ + inv.command@ + " "@ + joined_args(
                argsm.take(i as int),
            ),
        decreases inv.args.len() - i,
    {
        if i > 0 {
            line.append(", ");
        }
        line.append(inv.args[i].as_str());
        proof {
            assert(argsm.take(i + 1).drop_last() =~= argsm.take(i as int));
            assert(argsm.take(i + 1).last() == argsm[i as int]);
            assert(argsm[i as int] == inv.args[i as int]@);
            assert(line@ =~= "spawn process: "@ + inv.command@ + " "@ + joined_args(
                argsm.take(i + 1),
            ));
        }
        i = i + 1;
    }
    proof {
        assert(argsm.take(argsm.len() as int) =~= argsm);
    }
    line
}

} // verus!
