//! The owned outcome of decoding a raw argument vector: a command name and
//! an ordered list of argument strings, independent of the host memory the
//! raw vector lived in.

use vstd::prelude::*;

verus! {

/// Mathematical model of a decoded invocation: the command text and the
/// argument texts, in order.
#[verifier::ext_equal]
pub struct InvocationModel {
    pub command: Seq<char>,
    pub args: Seq<Seq<char>>,
}

/// A decoded command invocation: the command to run and its arguments, in
/// the order they stood in the raw vector.
#[derive(Debug, PartialEq, Eq)]
pub struct CommandInvocation {
    pub command: String,
    pub args: Vec<String>,
}

impl CommandInvocation {
    /// The model this invocation denotes.
    pub open spec fn model(&self) -> InvocationModel {
        InvocationModel { command: self.command@, args: self.args.deep_view() }
    }
}

} // verus!
