//! The shell tool: what it runs, and how it reports what was printed.

use vstd::prelude::*;
use crate::util::text::{clone_texts, from_chars, push_text, texts};

verus! {

/// Runs a command and reports its output.
#[derive(Debug, Clone, Copy, Default)]
pub struct BashTool;

/// What the shell tool does with its arguments.
#[derive(Debug)]
pub enum BashPlan {
    /// Nothing to run: answer with this text.
    Usage(String),
    /// Run `command` with `args`.
    Spawn { command: String, args: Vec<String> },
}

impl BashTool {
    /// The tool's name.
    pub fn name(&self) -> (r: &'static str)
        ensures
            r@ == "bash"@,
    {
        "bash"
    }

    /// A sentence on what the tool does.
    pub fn description(&self) -> (r: &'static str)
        ensures
            r@ == "Executes a shell command and returns its output. The first argument is the command to execute, and the following are its arguments."@,
    {
        "Executes a shell command and returns its output. The first argument is the command to execute, and the following are its arguments."
    }

    /// What to do with the arguments: without any, answer with the usage
    /// line; else run the first as a command with the others as its
    /// arguments.
    pub fn plan(&self, args: &[String]) -> (r: BashPlan)
        ensures
            match r {
                BashPlan::Usage(text) => args@.len() == 0 && text@
                    == "Usage: bash <command> [args...]"@,
                BashPlan::Spawn { command, args: rest } => args@.len() > 0 && command@
                    == args@[0]@ && texts(rest@) == texts(args@.subrange(1, args@.len() as int)),
            },
    {
        if args.len() == 0 {
            return BashPlan::Usage("Usage: bash <command> [args...]".to_owned());
        }
        let rest = vstd::slice::slice_subrange(args, 1, args.len());
        BashPlan::Spawn { command: args[0].clone(), args: clone_texts(rest) }
    }

    /// The report of what a command printed: the two streams under their
    /// headings, each only if it is not empty, with a line break between
    /// them; a fixed sentence where both are empty.
    pub open spec fn report(stdout: Seq<char>, stderr: Seq<char>) -> Seq<char> {
        let out = if stdout.len() > 0 {
            "---STDOUT---\n"@ + stdout
        } else {
            Seq::empty()
        };
        let both = if stderr.len() > 0 {
            (if out.len() > 0 {
                out + "\n"@
            } else {
                out
            }) + "---STDERR---\n"@ + stderr
        } else {
            out
        };
        if both.len() == 0 {
            "[Command executed successfully with no output]"@
        } else {
            both
        }
    }

    /// The report of what a command printed.
    pub fn render(&self, stdout: &str, stderr: &str) -> (r: String)
        ensures
            r@ == Self::report(stdout@, stderr@),
    {
        let mut result: Vec<char> = Vec::new();
        if stdout.unicode_len() > 0 {
            push_text(&mut result, "---STDOUT---\n");
            push_text(&mut result, stdout);
        }
        if stderr.unicode_len() > 0 {
            if result.len() > 0 {
                push_text(&mut result, "\n");
            }
            push_text(&mut result, "---STDERR---\n");
            push_text(&mut result, stderr);
        }
        if result.len() == 0 {
            push_text(&mut result, "[Command executed successfully with no output]");
        }
        assert(result@ =~= Self::report(stdout@, stderr@));
        from_chars(result.as_slice())
    }
}

} // verus!
