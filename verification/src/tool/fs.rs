//! The file tools: what they ask of the file system, and what they answer.

use vstd::prelude::*;
use crate::util::text::{from_chars, push_text};

verus! {

/// Reads a file.
#[derive(Debug, Clone, Copy, Default)]
pub struct ReadFileTool;

/// Writes a file.
#[derive(Debug, Clone, Copy, Default)]
pub struct WriteFileTool;

/// Lists a directory.
#[derive(Debug, Clone, Copy, Default)]
pub struct ListFilesTool;

/// What a file tool does with its arguments.
#[derive(Debug)]
pub enum FilePlan {
    /// Nothing to do: answer with this text.
    Usage(String),
    /// Read the file under this path.
    Read { path: String },
    /// Write the content to the file under this path.
    Write { path: String, content: String },
    /// List the directory under this path.
    List { path: String },
}

/// An entry of a directory: its name, and whether it is a directory.
#[derive(Debug)]
pub struct DirEntryInfo {
    pub name: String,
    pub is_dir: bool,
}

impl ReadFileTool {
    /// The tool's name.
    pub fn name(&self) -> (r: &'static str)
        ensures
            r@ == "read_file"@,
    {
        "read_file"
    }

    /// A sentence on what the tool does.
    pub fn description(&self) -> (r: &'static str)
        ensures
            r@ == "Reads the entire content of a file and returns it as a string."@,
    {
        "Reads the entire content of a file and returns it as a string."
    }

    /// What to do with the arguments: read the file that the one argument
    /// names; with any other number of arguments, answer with the usage
    /// line.
    pub fn plan(&self, args: &[String]) -> (r: FilePlan)
        ensures
            match r {
                FilePlan::Usage(text) => args@.len() != 1 && text@ == "Usage: read_file <path>"@,
                FilePlan::Read { path } => args@.len() == 1 && path@ == args@[0]@,
                _ => false,
            },
    {
        if args.len() != 1 {
            return FilePlan::Usage("Usage: read_file <path>".to_owned());
        }
        FilePlan::Read { path: args[0].clone() }
    }
}

impl WriteFileTool {
    /// The tool's name.
    pub fn name(&self) -> (r: &'static str)
        ensures
            r@ == "write_file"@,
    {
        "write_file"
    }

    /// A sentence on what the tool does.
    pub fn description(&self) -> (r: &'static str)
        ensures
            r@ == "Writes content to a file, overwriting it if it exists or creating it if it doesn't. The first argument is the file path, and the second is the content to write."@,
    {
        "Writes content to a file, overwriting it if it exists or creating it if it doesn't. The first argument is the file path, and the second is the content to write."
    }

    /// What to do with the arguments: write the second to the file that
    /// the first names; with any other number of arguments, answer with
    /// the usage line.
    pub fn plan(&self, args: &[String]) -> (r: FilePlan)
        ensures
            match r {
                FilePlan::Usage(text) => args@.len() != 2 && text@
                    == "Usage: write_file <path> <content>"@,
                FilePlan::Write { path, content } => args@.len() == 2 && path@ == args@[0]@
                    && content@ == args@[1]@,
                _ => false,
            },
    {
        if args.len() != 2 {
            return FilePlan::Usage("Usage: write_file <path> <content>".to_owned());
        }
        FilePlan::Write { path: args[0].clone(), content: args[1].clone() }
    }

    /// The answer once the file under `path` is written.
    pub fn render(&self, path: &str) -> (r: String)
        ensures
            r@ == "File "@ + path@ + " written successfully."@,
    {
        let mut out: Vec<char> = Vec::new();
        push_text(&mut out, "File ");
        push_text(&mut out, path);
        push_text(&mut out, " written successfully.");
        assert(out@ =~= "File "@ + path@ + " written successfully."@);
        from_chars(out.as_slice())
    }
}

/// The listing of entries: a line for each, a directory's name followed
/// by a slash.
pub open spec fn listing(entries: Seq<DirEntryInfo>) -> Seq<char>
    decreases entries.len(),
{
    if entries.len() == 0 {
        Seq::empty()
    } else {
        listing(entries.drop_last()) + entries.last().name@ + if entries.last().is_dir {
            "/\n"@
        } else {
            "\n"@
        }
    }
}

impl ListFilesTool {
    /// The tool's name.
    pub fn name(&self) -> (r: &'static str)
        ensures
            r@ == "list_files"@,
    {
        "list_files"
    }

    /// A sentence on what the tool does.
    pub fn description(&self) -> (r: &'static str)
        ensures
            r@ == "Lists all files and directories under the given directory (defaults to current directory). Directories in the output will have a trailing slash."@,
    {
        "Lists all files and directories under the given directory (defaults to current directory). Directories in the output will have a trailing slash."
    }

    /// What to do with the arguments: list the directory that the first
    /// names, or the current one without arguments.
    pub fn plan(&self, args: &[String]) -> (r: FilePlan)
        ensures
            r matches FilePlan::List { path } && path@ == if args@.len() > 0 {
                args@[0]@
            } else {
                "."@
            },
    {
        if args.len() > 0 {
            FilePlan::List { path: args[0].clone() }
        } else {
            FilePlan::List { path: ".".to_owned() }
        }
    }

    /// The listing of the entries found.
    pub fn render(&self, entries: &[DirEntryInfo]) -> (r: String)
        ensures
            r@ == listing(entries@),
    {
        let mut out: Vec<char> = Vec::new();
        let mut i: usize = 0;
        assert(entries@.subrange(0, 0) =~= Seq::empty());
        while i < entries.len()
            invariant
                i <= entries@.len(),
                out@ == listing(entries@.subrange(0, i as int)),
            decreases entries@.len() - i,
        {
            proof {
                assert(entries@.subrange(0, i + 1).drop_last() =~= entries@.subrange(0, i as int));
            }
            let ghost before = out@;
            push_text(&mut out, entries[i].name.as_str());
            if entries[i].is_dir {
                push_text(&mut out, "/\n");
            } else {
                push_text(&mut out, "\n");
            }
            i += 1;
            assert(out@ =~= listing(entries@.subrange(0, i as int)));
        }
        assert(entries@.subrange(0, entries@.len() as int) =~= entries@);
        from_chars(out.as_slice())
    }
}

} // verus!
