//! Result and error types used for evaluation functions.

use vstd::prelude::*;

verus! {

/// An error type for any custom error during evaluation.
#[derive(Debug)]
pub struct EvalError {
    message: String,
}

/// A Result type for the shell's eval functions.
pub type EvalResult = Result<(), EvalError>;

impl View for EvalError {
    type V = Seq<char>;

    /// The error's message.
    closed spec fn view(&self) -> Seq<char> {
        self.message@
    }
}

impl EvalError {
    /// An error that reports `message`.
    pub fn new(message: String) -> (error: EvalError)
        ensures
            error@ == message@,
    {
        EvalError { message }
    }

    /// An error that reports a copy of `message`.
    pub fn from_str(message: &str) -> (error: EvalError)
        ensures
            error@ == message@,
    {
        let message = String::from_str(message);
        EvalError { message }
    }

    /// The line of text that reports the error.
    pub fn message(&self) -> (message: &str)
        ensures
            message@ == self@,
    {
        self.message.as_str()
    }
}

/// Creates an `EvalResult` with a given `EvalError`.
pub fn eval_result(eval_error: EvalError) -> (result: EvalResult)
    ensures
        result == Err::<(), EvalError>(eval_error),
{
    Err(eval_error)
}

} // verus!
