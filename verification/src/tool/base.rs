//! The capability that every tool offers.

use vstd::prelude::*;
use crate::util::error::OpenCodeError;

verus! {

/// A named capability that an agent may call.
pub trait Tool {
    /// The name by which allow and deny rules select the tool. A tool
    /// states it once; `name` returns it on every call.
    open spec fn spec_name(&self) -> Seq<char> {
        arbitrary()
    }

    /// What the tool promises of a run: whether `result` may come of
    /// running it on `args`. A tool that promises nothing admits every
    /// result.
    open spec fn runs_to(&self, args: Seq<String>, result: Result<String, OpenCodeError>) -> bool {
        true
    }

    /// The tool's name.
    fn name(&self) -> (r: &str)
        ensures
            r@ == self.spec_name(),
    ;

    /// A sentence on what the tool does.
    fn description(&self) -> &str;

    /// Runs the tool on its arguments.
    fn execute(&self, args: &[String]) -> (r: Result<String, OpenCodeError>)
        ensures
            self.runs_to(args@, r),
    ;
}

} // verus!
