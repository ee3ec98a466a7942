//! The foreign-argument decoding protocol.
//!
//! A raw argument vector is a null-terminated array of pointers to byte
//! strings: element 0 is the command, the following elements are the
//! arguments, and a null pointer is the sentinel that ends the vector.
//! Here an element is modelled as `Option<Seq<u8>>`: `None` stands for the
//! null pointer, `Some(bytes)` for the byte string a non-null pointer
//! refers to.
//!
//! The length of the vector is not known up front: it is discovered by
//! scanning forward for the sentinel, and nothing past the sentinel may be
//! read. The incremental [`Decoder`] drives that scan one element at a
//! time, so a caller holding only raw memory fetches exactly the elements
//! the decoder asks for; [`decode_elements`] runs the same protocol over a
//! vector that is already in memory.

use vstd::prelude::*;

use crate::invocation::{CommandInvocation, InvocationModel};
use crate::text::{bytes_to_text, utf8_decode};

verus! {

/// The model of one raw element: `None` for the null pointer, the bytes
/// of the referenced string otherwise.
pub open spec fn elem_model(e: Option<Vec<u8>>) -> Option<Seq<u8>> {
    match e {
        Option::None => None,
        Option::Some(v) => Some(v@),
    }
}

/// The model of a whole in-memory element vector.
pub open spec fn elems_model(elems: Seq<Option<Vec<u8>>>) -> Seq<Option<Seq<u8>>> {
    elems.map_values(|e: Option<Vec<u8>>| elem_model(e))
}

/// Why decoding a raw vector failed.
#[derive(Clone, Copy, Debug, PartialEq, Eq, Structural)]
pub enum DecodeError {
    /// The element that should hold the command is the null pointer (or
    /// the vector is empty).
    NullCommand,
    /// An element before the sentinel is not valid text.
    InvalidEncoding,
}

/// The index of the first sentinel (`None`) at or after `i`, or
/// `elems.len()` when there is none.
pub open spec fn first_sentinel_from(elems: Seq<Option<Seq<u8>>>, i: int) -> int
    recommends
        0 <= i <= elems.len(),
    decreases elems.len() - i when 0 <= i <= elems.len()
{
    if i >= elems.len() {
        elems.len() as int
    } else if elems[i] is None {
        i
    } else {
        first_sentinel_from(elems, i + 1)
    }
}

/// A raw vector is terminated when some element is the sentinel.
pub open spec fn has_sentinel(elems: Seq<Option<Seq<u8>>>) -> bool {
    first_sentinel_from(elems, 0) < elems.len()
}

/// Whether the command element and every argument element before the
/// first sentinel decode as valid text.
pub open spec fn all_elements_valid(elems: Seq<Option<Seq<u8>>>) -> bool {
    &&& utf8_decode(elems[0]->Some_0) is Some
    &&& forall|j: int|
        1 <= j < first_sentinel_from(elems, 1) ==> utf8_decode(#[trigger] elems[j]->Some_0) is Some
}

/// What decoding a raw vector yields: the command is element 0, the
/// arguments are the elements from index 1 up to (and not including) the
/// first sentinel, each decoded as text. Elements past the sentinel play
/// no part.
pub open spec fn decode_spec(elems: Seq<Option<Seq<u8>>>) -> Result<InvocationModel, DecodeError> {
    if elems.len() < 1 || elems[0] is None {
        Err(DecodeError::NullCommand)
    } else if !all_elements_valid(elems) {
        Err(DecodeError::InvalidEncoding)
    } else {
        Ok(
            InvocationModel {
                command: utf8_decode(elems[0]->Some_0)->Some_0,
                args: Seq::new(
                    (first_sentinel_from(elems, 1) - 1) as nat,
                    |j: int| utf8_decode(elems[j + 1]->Some_0)->Some_0,
                ),
            },
        )
    }
}

/// The sentinel scan lands between `i` and the end, on a sentinel if one
/// exists, and sees only non-sentinel elements on the way.
pub proof fn lemma_sentinel_bounds(elems: Seq<Option<Seq<u8>>>, i: int)
    requires
        0 <= i <= elems.len(),
    ensures
        i <= first_sentinel_from(elems, i) <= elems.len(),
        first_sentinel_from(elems, i) < elems.len() ==> elems[first_sentinel_from(elems, i)] is None,
        forall|j: int| i <= j < first_sentinel_from(elems, i) ==> elems[j] is Some,
    decreases elems.len() - i,
{
    if i < elems.len() && elems[i] is Some {
        lemma_sentinel_bounds(elems, i + 1);
    }
}

/// Scanning from `i` and scanning from `k` agree when no sentinel stands
/// in between.
pub proof fn lemma_sentinel_skip(elems: Seq<Option<Seq<u8>>>, i: int, k: int)
    requires
        0 <= i <= k <= elems.len(),
        forall|j: int| i <= j < k ==> elems[j] is Some,
    ensures
        first_sentinel_from(elems, i) == first_sentinel_from(elems, k),
    decreases k - i,
{
    if i < k {
        lemma_sentinel_skip(elems, i + 1, k);
    }
}

/// The scan finds exactly the first sentinel: if `elems[k]` is a sentinel
/// and nothing before it (from `i`) is, the scan from `i` answers `k`.
pub proof fn lemma_sentinel_value(elems: Seq<Option<Seq<u8>>>, i: int, k: int)
    requires
        0 <= i <= k < elems.len(),
        elems[k] is None,
        forall|j: int| i <= j < k ==> elems[j] is Some,
    ensures
        first_sentinel_from(elems, i) == k,
{
    lemma_sentinel_skip(elems, i, k);
}

/// Decoding scans exactly up to the sentinel and never past it: two raw
/// vectors that agree up to and including the first sentinel of the first
/// decode to the same result, whatever stands after that sentinel.
pub proof fn lemma_decode_reads_only_to_sentinel(
    elems1: Seq<Option<Seq<u8>>>,
    elems2: Seq<Option<Seq<u8>>>,
)
    requires
        has_sentinel(elems1),
        elems2.len() > first_sentinel_from(elems1, 0),
        forall|j: int| 0 <= j <= first_sentinel_from(elems1, 0) ==> elems2[j] == elems1[j],
    ensures
        decode_spec(elems2) == decode_spec(elems1),
{
    lemma_sentinel_bounds(elems1, 0);
    let s0 = first_sentinel_from(elems1, 0);
    if elems1[0] is None {
        assert(s0 == 0);
        assert(elems2[0] is None);
    } else {
        lemma_sentinel_skip(elems1, 0, 1);
        let s = first_sentinel_from(elems1, 1);
        assert(s == s0);
        lemma_sentinel_bounds(elems1, 1);
        assert(forall|j: int| 1 <= j < s ==> elems2[j] == elems1[j] && elems1[j] is Some);
        lemma_sentinel_value(elems2, 1, s);
        assert(all_elements_valid(elems2) <==> all_elements_valid(elems1)) by {
            assert(elems2[0] == elems1[0]);
            assert(forall|j: int|
                1 <= j < s ==> #[trigger] elems2[j]->Some_0 == elems1[j]->Some_0);
        }
        if all_elements_valid(elems1) {
            let m1 = decode_spec(elems1)->Ok_0;
            let m2 = decode_spec(elems2)->Ok_0;
            assert(m1.args =~= m2.args) by {
                assert(forall|k: int| 0 <= k < s - 1 ==> m1.args[k] == m2.args[k]) by {
                    assert(forall|k: int|
                        0 <= k < s - 1 ==> #[trigger] elems2[k + 1] == elems1[k + 1]);
                }
            }
            assert(m1 =~= m2);
            assert(decode_spec(elems2) == decode_spec(elems1));
        }
    }
}

/// What one [`Decoder::feed`] call answers.
#[derive(Debug, PartialEq, Eq, Structural)]
pub enum FeedOutcome {
    /// The element was consumed; fetch the element at the next index and
    /// feed it.
    NeedNext,
    /// The element was the sentinel: the scan is over and the invocation
    /// can be taken with [`Decoder::finish`].
    Done,
    /// Decoding failed; nothing may be launched.
    Failed(DecodeError),
}

enum DecoderStatus {
    Scanning,
    Done,
    Failed,
}

/// Incremental decoder for a raw argument vector of unknown length.
///
/// The caller fetches raw elements one at a time, in index order starting
/// at 0, and feeds each to the decoder; the decoder answers whether the
/// next element is needed, so the caller reads exactly up to the sentinel
/// and never past it. The elements fed so far are tracked by the ghost
/// history `fed()`, and every answer is fixed by `decode_spec` over it.
pub struct Decoder {
    status: DecoderStatus,
    command: Option<String>,
    args: Vec<String>,
    history: Ghost<Seq<Option<Seq<u8>>>>,
}

impl Decoder {
    /// The raw elements fed so far, in order.
    pub closed spec fn fed(&self) -> Seq<Option<Seq<u8>>> {
        self.history@
    }

    /// Still scanning: no sentinel and no failure yet.
    pub closed spec fn scanning(&self) -> bool {
        self.status is Scanning
    }

    /// The sentinel was reached and every element decoded.
    pub closed spec fn done(&self) -> bool {
        self.status is Done
    }

    /// Decoding failed.
    pub closed spec fn failed(&self) -> bool {
        self.status is Failed
    }

    pub closed spec fn wf(&self) -> bool {
        let fed = self.history@;
        match self.status {
            DecoderStatus::Scanning => {
                &&& forall|j: int| 0 <= j < fed.len() ==> (#[trigger] fed[j]) is Some
                &&& if fed.len() == 0 {
                    self.command is None && self.args.len() == 0
                } else {
                    &&& self.command is Some
                    &&& utf8_decode(fed[0]->Some_0) == Some(self.command->Some_0@)
                    &&& self.args.len() == fed.len() - 1
                    &&& forall|j: int|
                        1 <= j < fed.len() ==> utf8_decode(#[trigger] fed[j]->Some_0) == Some(
                            self.args@[j - 1]@,
                        )
                }
            },
            DecoderStatus::Done => {
                &&& self.command is Some
                &&& decode_spec(fed) == Ok::<InvocationModel, DecodeError>(
                    InvocationModel {
                        command: self.command->Some_0@,
                        args: self.args.deep_view(),
                    },
                )
            },
            DecoderStatus::Failed => decode_spec(fed) is Err,
        }
    }

    /// A fresh decoder that has seen no element yet.
    pub fn new() -> (d: Decoder)
        ensures
            d.wf(),
            d.scanning(),
            d.fed() == Seq::<Option<Seq<u8>>>::empty(),
    {
        Decoder {
            status: DecoderStatus::Scanning,
            command: None,
            args: Vec::new(),
            history: Ghost(Seq::empty()),
        }
    }

    /// Whether the decoder still asks for elements.
    pub fn is_scanning(&self) -> (r: bool)
        ensures
            r == self.scanning(),
    {
        match self.status {
            DecoderStatus::Scanning => true,
            _ => false,
        }
    }

    /// Whether the scan ended at the sentinel with every element decoded.
    pub fn is_done(&self) -> (r: bool)
        ensures
            r == self.done(),
    {
        match self.status {
            DecoderStatus::Done => true,
            _ => false,
        }
    }

    /// Consume the raw element at the next index of the vector.
    ///
    /// The first element fed is the command, later ones are arguments;
    /// the null pointer ends the scan. The answer says whether another
    /// element must be fetched, so a caller that stops on anything but
    /// `NeedNext` never reads past the sentinel.
    pub fn feed(&mut self, elem: &Option<Vec<u8>>) -> (r: FeedOutcome)
        requires
            old(self).wf(),
            old(self).scanning(),
        ensures
            final(self).wf(),
            final(self).fed() == old(self).fed().push(elem_model(*elem)),
            match r {
                FeedOutcome::NeedNext => final(self).scanning() && elem_model(*elem) is Some,
                FeedOutcome::Done => {
                    &&& final(self).done()
                    &&& elem_model(*elem) is None
                    &&& old(self).fed().len() >= 1
                },
                FeedOutcome::Failed(e) => {
                    &&& final(self).failed()
                    &&& decode_spec(final(self).fed()) == Err::<InvocationModel, DecodeError>(e)
                    &&& (e == DecodeError::NullCommand ==> old(self).fed().len() == 0
                        && elem_model(*elem) is None)
                    &&& (e == DecodeError::InvalidEncoding ==> (elem_model(*elem) matches Some(b)
                        && utf8_decode(b) is None))
                },
            },
    {
        let ghost prev = self.history@;
        self.history = Ghost(self.history@.push(elem_model(*elem)));
        match elem {
            Option::None => {
                if self.command.is_none() {
                    self.status = DecoderStatus::Failed;
                    FeedOutcome::Failed(DecodeError::NullCommand)
                } else {
                    self.status = DecoderStatus::Done;
                    proof {
                        let fed = self.history@;
                        lemma_sentinel_value(fed, 1, prev.len() as int);
                        assert(all_elements_valid(fed));
                        let m = InvocationModel {
                            command: self.command->Some_0@,
                            args: self.args.deep_view(),
                        };
                        assert(decode_spec(fed)->Ok_0.args =~= m.args);
                        assert(decode_spec(fed)->Ok_0 =~= m);
                    }
                    FeedOutcome::Done
                }
            },
            Option::Some(bytes) => {
                match bytes_to_text(bytes) {
                    Option::None => {
                        self.status = DecoderStatus::Failed;
                        proof {
                            let fed = self.history@;
                            if prev.len() > 0 {
                                lemma_sentinel_skip(fed, 1, fed.len() as int);
                                assert(utf8_decode(fed[prev.len() as int]->Some_0) is None);
                                assert(!all_elements_valid(fed));
                            }
                        }
                        FeedOutcome::Failed(DecodeError::InvalidEncoding)
                    },
                    Option::Some(text) => {
                        if self.command.is_none() {
                            self.command = Some(text);
                        } else {
                            self.args.push(text);
                        }
                        FeedOutcome::NeedNext
                    },
                }
            },
        }
    }

    /// Take the decoded invocation after the scan reached the sentinel.
    pub fn finish(self) -> (r: CommandInvocation)
        requires
            self.wf(),
            self.done(),
        ensures
            decode_spec(self.fed()) == Ok::<InvocationModel, DecodeError>(r.model()),
    {
        match self.command {
            Option::Some(command) => CommandInvocation { command, args: self.args },
            Option::None => unreached(),
        }
    }
}

/// Decode a raw vector whose elements are already in memory, by running
/// the incremental protocol over them. The caller guarantees that the
/// vector is terminated by a sentinel; elements past the sentinel are
/// never examined.
pub fn decode_elements(elems: &Vec<Option<Vec<u8>>>) -> (r: Result<
    CommandInvocation,
    DecodeError,
>)
    requires
        has_sentinel(elems_model(elems@)),
    ensures
        (r matches Ok(inv) ==> decode_spec(elems_model(elems@)) == Ok::<
            InvocationModel,
            DecodeError,
        >(inv.model())),
        (r matches Err(e) ==> decode_spec(elems_model(elems@)) == Err::<
            InvocationModel,
            DecodeError,
        >(e)),
{
    let ghost model = elems_model(elems@);
    proof {
        lemma_sentinel_bounds(model, 0);
    }
    let mut d = Decoder::new();
    let mut i: usize = 0;
    loop
        invariant
            d.wf(),
            d.scanning(),
            i <= first_sentinel_from(model, 0),
            model == elems_model(elems@),
            model.len() == elems.len(),
            d.fed() == model.take(i as int),
            has_sentinel(model),
        decreases elems.len() - i,
    {
        let ghost pre = d;
        proof {
            assert(i < elems.len());
        }
        let outcome = d.feed(&elems[i]);
        proof {
            assert(model[i as int] == elem_model(elems@[i as int]));
            assert(model.take(i as int).push(model[i as int]) =~= model.take(i + 1));
            assert forall|j: int| 0 <= j < i implies (#[trigger] model[j]) is Some by {
                assert(model[j] == pre.fed()[j]);
            }
        }
        match outcome {
            FeedOutcome::NeedNext => {
                proof {
                    lemma_sentinel_bounds(model, 0);
                    assert(first_sentinel_from(model, 0) != i);
                }
                i = i + 1;
            },
            FeedOutcome::Done => {
                let inv = d.finish();
                proof {
                    let fed = model.take(i + 1);
                    lemma_sentinel_bounds(fed, 0);
                    assert(first_sentinel_from(fed, 0) <= i) by {
                        assert(fed[i as int] is None);
                    }
                    lemma_decode_reads_only_to_sentinel(fed, model);
                }
                return Ok(inv);
            },
            FeedOutcome::Failed(e) => {
                proof {
                    if e == DecodeError::NullCommand {
                        assert(i == 0 && model[0] is None);
                    } else {
                        assert(model[i as int] matches Some(b) && utf8_decode(b) is None);
                        if i == 0 {
                            assert(utf8_decode(model[0]->Some_0) is None);
                        } else {
                            assert(model[0] is Some);
                            assert(utf8_decode(model[0]->Some_0) is Some) by {
                                assert(model[0] == pre.fed()[0]);
                            }
                            assert forall|j: int| 1 <= j < i + 1 implies (
                            #[trigger] model[j]) is Some by {
                                if j < i {
                                    assert(model[j] == pre.fed()[j]);
                                }
                            }
                            lemma_sentinel_skip(model, 1, i + 1);
                            lemma_sentinel_bounds(model, i + 1);
                            let s = first_sentinel_from(model, 1);
                            assert(!all_elements_valid(model)) by {
                                assert(1 <= i < s && utf8_decode(model[i as int]->Some_0) is None);
                            }
                        }
                        assert(decode_spec(model) == Err::<InvocationModel, DecodeError>(
                            DecodeError::InvalidEncoding,
                        ));
                    }
                }
                return Err(e);
            },
        }
    }
}

/// Decoding a well-formed raw vector — a command, `n` arguments, then the
/// sentinel — yields exactly that command and those arguments, in their
/// original order: none dropped, duplicated, or reordered.
pub proof fn lemma_decode_well_formed(elems: Seq<Option<Seq<u8>>>, n: int)
    requires
        0 <= n,
        n + 2 <= elems.len(),
        forall|j: int| 0 <= j <= n ==> (#[trigger] elems[j]) is Some,
        forall|j: int| 0 <= j <= n ==> utf8_decode(#[trigger] elems[j]->Some_0) is Some,
        elems[n + 1] is None,
    ensures
        decode_spec(elems) matches Ok(m) && {
            &&& m.command == utf8_decode(elems[0]->Some_0)->Some_0
            &&& m.args.len() == n
            &&& forall|j: int|
                0 <= j < n ==> m.args[j] == utf8_decode(#[trigger] elems[j + 1]->Some_0)->Some_0
        },
{
    lemma_sentinel_value(elems, 1, n + 1);
}

/// A raw vector holding only a command and the immediate sentinel decodes
/// to that command and an empty argument list.
pub proof fn lemma_decode_zero_args(elems: Seq<Option<Seq<u8>>>)
    requires
        elems.len() >= 2,
        elems[0] is Some,
        utf8_decode(elems[0]->Some_0) is Some,
        elems[1] is None,
    ensures
        decode_spec(elems) matches Ok(m) && m.command == utf8_decode(elems[0]->Some_0)->Some_0
            && m.args.len() == 0,
{
    lemma_decode_well_formed(elems, 0);
}

/// Decoding is a function of the raw elements alone: two results that
/// each meet the decoding contract for the same raw vector are the same —
/// on success the invocations are equal, on failure the errors are.
pub proof fn lemma_decode_deterministic(
    elems: Seq<Option<Seq<u8>>>,
    r1: Result<CommandInvocation, DecodeError>,
    r2: Result<CommandInvocation, DecodeError>,
)
    requires
        r1 matches Ok(inv) ==> decode_spec(elems) == Ok::<InvocationModel, DecodeError>(
            inv.model(),
        ),
        r1 matches Err(e) ==> decode_spec(elems) == Err::<InvocationModel, DecodeError>(e),
        r2 matches Ok(inv) ==> decode_spec(elems) == Ok::<InvocationModel, DecodeError>(
            inv.model(),
        ),
        r2 matches Err(e) ==> decode_spec(elems) == Err::<InvocationModel, DecodeError>(e),
    ensures
        r1 matches Ok(i1) ==> (r2 matches Ok(i2) && i1.model() == i2.model()),
        r1 matches Err(e1) ==> (r2 matches Err(e2) && e1 == e2),
{
}

} // verus!
