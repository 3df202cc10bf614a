//! Process exit codes and the errors that carry them.
use crate::text::{dec, owned, push_dec, push_str};
use vstd::prelude::*;
use vstd::string::*;

verus! {

/// How a run ended, as reported to the calling process.
#[derive(Debug, Clone, Copy, PartialEq, Eq, Structural)]
pub enum ExitCode {
    Success,
    Partial,
    SchemaError,
    StartupError,
    Timeout,
    ConfigError,
    IoError,
}

/// The process status of each exit code.
pub open spec fn exit_status(code: ExitCode) -> i32 {
    match code {
        ExitCode::Success => 0,
        ExitCode::Partial => 1,
        ExitCode::SchemaError => 2,
        ExitCode::StartupError => 3,
        ExitCode::Timeout => 4,
        ExitCode::ConfigError => 5,
        ExitCode::IoError => 6,
    }
}

impl From<ExitCode> for i32 {
    fn from(code: ExitCode) -> (r: i32) {
        match code {
            ExitCode::Success => 0,
            ExitCode::Partial => 1,
            ExitCode::SchemaError => 2,
            ExitCode::StartupError => 3,
            ExitCode::Timeout => 4,
            ExitCode::ConfigError => 5,
            ExitCode::IoError => 6,
        }
    }
}

impl vstd::std_specs::convert::FromSpecImpl<ExitCode> for i32 {
    open spec fn obeys_from_spec() -> bool {
        true
    }

    open spec fn from_spec(code: ExitCode) -> i32 {
        exit_status(code)
    }
}

/// An error that ends a run, with the exit code it ends it with.
#[derive(Debug)]
pub struct RokError {
    pub code: ExitCode,
    pub message: String,
    pub context: Option<String>,
}

/// The text of an error: its message, then its context in brackets if any.
pub open spec fn rok_error_text(e: RokError) -> Seq<char> {
    match e.context {
        Some(ctx) => e.message@ + " (context: "@ + ctx@ + ")"@,
        None => e.message@,
    }
}

impl RokError {
    pub fn new(code: ExitCode, message: &str) -> (e: Self)
        ensures
            e.code == code,
            e.message@ == message@,
            e.context is None,
    {
        RokError { code, message: owned(message), context: None }
    }

    /// The same error with `context` attached (replacing any earlier one).
    pub fn with_context(self, context: &str) -> (e: Self)
        ensures
            e.code == self.code,
            e.message == self.message,
            e.context matches Some(c) && c@ == context@,
    {
        RokError { code: self.code, message: self.message, context: Some(owned(context)) }
    }

    pub fn schema(message: &str) -> (e: Self)
        ensures
            e.code == ExitCode::SchemaError,
            e.message@ == message@,
            e.context is None,
    {
        Self::new(ExitCode::SchemaError, message)
    }

    pub fn startup(message: &str) -> (e: Self)
        ensures
            e.code == ExitCode::StartupError,
            e.message@ == message@,
            e.context is None,
    {
        Self::new(ExitCode::StartupError, message)
    }

    pub fn config(message: &str) -> (e: Self)
        ensures
            e.code == ExitCode::ConfigError,
            e.message@ == message@,
            e.context is None,
    {
        Self::new(ExitCode::ConfigError, message)
    }

    pub fn io(message: &str) -> (e: Self)
        ensures
            e.code == ExitCode::IoError,
            e.message@ == message@,
            e.context is None,
    {
        Self::new(ExitCode::IoError, message)
    }

    pub fn timeout(message: &str) -> (e: Self)
        ensures
            e.code == ExitCode::Timeout,
            e.message@ == message@,
            e.context is None,
    {
        Self::new(ExitCode::Timeout, message)
    }

    /// The text shown for this error.
    pub fn to_string(&self) -> (r: String)
        ensures
            r@ == rok_error_text(*self),
    {
        let mut r = self.message.clone();
        match &self.context {
            Some(ctx) => {
                push_str(&mut r, " (context: ");
                push_str(&mut r, ctx.as_str());
                push_str(&mut r, ")");
            },
            None => {},
        }
        r
    }
}

/// An error raised while running one step of a pipeline.
#[derive(Debug)]
pub struct StepError {
    pub step_index: usize,
    pub step_id: Option<String>,
    pub message: String,
}

/// The text of a step error: with the step's id when it has one.
pub open spec fn step_error_text(e: StepError) -> Seq<char> {
    match e.step_id {
        Some(id) => "Step '"@ + id@ + "' (index "@ + dec(e.step_index as nat) + "): "@ + e.message@,
        None => "Step "@ + dec(e.step_index as nat) + ": "@ + e.message@,
    }
}

impl StepError {
    pub fn new(step_index: usize, message: &str) -> (e: Self)
        ensures
            e.step_index == step_index,
            e.step_id is None,
            e.message@ == message@,
    {
        StepError { step_index, step_id: None, message: owned(message) }
    }

    pub fn with_id(step_index: usize, step_id: String, message: &str) -> (e: Self)
        ensures
            e.step_index == step_index,
            e.step_id == Some(step_id),
            e.message@ == message@,
    {
        StepError { step_index, step_id: Some(step_id), message: owned(message) }
    }

    /// The text shown for this error.
    pub fn to_string(&self) -> (r: String)
        ensures
            r@ == step_error_text(*self),
    {
        match &self.step_id {
            Some(id) => {
                let mut r = owned("Step '");
                push_str(&mut r, id.as_str());
                push_str(&mut r, "' (index ");
                push_dec(&mut r, self.step_index as u64);
                push_str(&mut r, "): ");
                push_str(&mut r, self.message.as_str());
                r
            },
            None => {
                let mut r = owned("Step ");
                push_dec(&mut r, self.step_index as u64);
                push_str(&mut r, ": ");
                push_str(&mut r, self.message.as_str());
                r
            },
        }
    }
}

} // verus!
