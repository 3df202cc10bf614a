//! Turning a missing value into an error with a message.
use crate::text::owned;
use vstd::prelude::*;

verus! {

/// The error made from a missing value: just the message it was given.
#[derive(Debug)]
pub struct ContextError {
    pub message: String,
}

impl ContextError {
    /// The message, as the error is shown.
    pub fn to_string(&self) -> (r: String)
        ensures
            r@ == self.message@,
    {
        self.message.clone()
    }
}

/// Extension methods on `Option<T>`.
pub trait OptionExt<T>: Sized {
    /// The optional value this is.
    spec fn optional(&self) -> Option<T>;

    /// `Ok` with the value if there is one; otherwise an error with message `msg`.
    fn context(self, msg: &str) -> (r: Result<T, ContextError>)
        ensures
            r matches Ok(v) ==> self.optional() == Some(v),
            r matches Err(e) ==> self.optional() is None && e.message@ == msg@,
            self.optional() is Some <==> r is Ok;

    /// Like `context`, but the message is only built (by calling `f`) when
    /// the value is missing.
    fn with_context<F: FnOnce() -> String>(self, f: F) -> (r: Result<T, ContextError>)
        requires
            call_requires(f, ()),
        ensures
            r matches Ok(v) ==> self.optional() == Some(v),
            r matches Err(e) ==> self.optional() is None && call_ensures(f, (), e.message),
            self.optional() is Some <==> r is Ok;
}

impl<T> OptionExt<T> for Option<T> {
    open spec fn optional(&self) -> Option<T> {
        *self
    }

    fn context(self, msg: &str) -> (r: Result<T, ContextError>) {
        match self {
            Some(v) => Ok(v),
            None => Err(ContextError { message: owned(msg) }),
        }
    }

    fn with_context<F: FnOnce() -> String>(self, f: F) -> (r: Result<T, ContextError>) {
        match self {
            Some(v) => Ok(v),
            None => Err(ContextError { message: f() }),
        }
    }
}

} // verus!
