//! A tool that hands its arguments back.

use vstd::prelude::*;
use crate::tool::base::Tool;
use crate::util::error::OpenCodeError;
use crate::util::text::{join, joined, texts};

verus! {

/// Answers with its arguments, a space between them.
#[derive(Debug, Clone, Copy, Default)]
pub struct EchoTool;

impl Tool for EchoTool {
    open spec fn spec_name(&self) -> Seq<char> {
        "echo"@
    }

    open spec fn runs_to(&self, args: Seq<String>, result: Result<String, OpenCodeError>) -> bool {
        result matches Ok(text) && text@ == joined(texts(args), " "@)
    }

    fn name(&self) -> (r: &str) {
        "echo"
    }

    fn description(&self) -> (r: &str)
        ensures
            r@ == "A simple tool that echoes the input back."@,
    {
        "A simple tool that echoes the input back."
    }

    fn execute(&self, args: &[String]) -> (r: Result<String, OpenCodeError>) {
        Ok(join(args, " "))
    }
}

} // verus!
