//! The command line: what a user may ask for, and where the task's JSON
//! comes from.  Reading the arguments, files and standard input is the
//! program's part; which source is read, and what an empty input is
//! answered, is decided here.
use crate::error::{ExitCode, RokError};
use crate::text::{trim_spec, trim_str};
use vstd::prelude::*;

verus! {

/// The arguments of the `rok` command.
#[derive(Debug, Clone)]
pub struct Cli {
    pub command: Option<Commands>,
    /// A JSON payload given inline (`-j`).
    pub json: Option<String>,
    /// A path to a JSON file (`-f`).
    pub file: Option<String>,
    /// How the report is written (`-o`, JSON when not given).
    pub output: OutputFormat,
    pub dry_run: bool,
    pub verbose: bool,
}

/// The subcommands.
#[derive(Debug, Clone, Copy, PartialEq, Eq, Structural)]
pub enum Commands {
    /// List the available templates.
    Templates,
}

/// How the report of a run is written.
#[derive(Debug, Clone, Copy, PartialEq, Eq, Structural)]
pub enum OutputFormat {
    Json,
    Pretty,
    Silent,
}

/// Where the payload is read from.
#[derive(Debug, Clone, PartialEq, Eq)]
pub enum PayloadSource {
    /// The text given inline.
    Inline(String),
    /// The file at this path.
    File(String),
    /// Standard input.
    Stdin,
}

pub open spec fn source_of(json: Option<String>, file: Option<String>) -> PayloadSource {
    match json {
        Some(j) => PayloadSource::Inline(j),
        None => match file {
            Some(f) => PayloadSource::File(f),
            None => PayloadSource::Stdin,
        },
    }
}

impl Cli {
    /// Where the payload comes from: the inline text if there is one, else
    /// the file if one is named, else standard input.
    pub fn payload_source(&self) -> (r: PayloadSource)
        ensures
            r == source_of(self.json, self.file),
    {
        match &self.json {
            Some(j) => PayloadSource::Inline(j.clone()),
            None => match &self.file {
                Some(f) => PayloadSource::File(f.clone()),
                None => PayloadSource::Stdin,
            },
        }
    }
}

/// What standard input gave is the payload text, unless it is blank:
/// then there is nothing to run and the user is told how to give a task.
pub fn stdin_payload(content: String) -> (r: Result<String, RokError>)
    ensures
        trim_spec(content@).len() == 0 <==> r is Err,
        r matches Ok(t) ==> t@ == content@,
        r matches Err(e) ==> e.code == ExitCode::SchemaError
            && e.message@ == "No input provided. Use --json, --file, or pipe JSON to stdin."@,
{
    let t = trim_str(content.as_str());
    if t.unicode_len() == 0 {
        Err(RokError::schema("No input provided. Use --json, --file, or pipe JSON to stdin."))
    } else {
        Ok(content)
    }
}

} // verus!
