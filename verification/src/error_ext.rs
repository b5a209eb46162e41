//! Extension methods for the errors of parsing: turning a failure into an
//! abort of the whole macro, and reporting an error without stopping.

use vstd::prelude::*;

use crate::parse::{Diagnostic, ParseError};

verus! {

pub trait ResultExt: Sized {
    type Ok;

    /// Behaves like `Result::unwrap`: if self is `Ok` yield the contained
    /// value, otherwise the error becomes an abort of the macro, which no
    /// parser catches.
    fn unwrap_or_abort(self) -> Result<Self::Ok, ParseError>;
}

impl<T> ResultExt for Result<T, ParseError> {
    type Ok = T;

    fn unwrap_or_abort(self) -> (r: Result<T, ParseError>)
        ensures
            self matches Ok(v) ==> r == Ok::<T, ParseError>(v),
            self matches Err(ParseError::Fail(d)) ==> r == Err::<T, ParseError>(ParseError::Abort(d)),
            self matches Err(ParseError::Abort(d)) ==> r == Err::<T, ParseError>(ParseError::Abort(d)),
    {
        match self {
            Ok(res) => Ok(res),
            Err(ParseError::Fail(d)) => Err(ParseError::Abort(d)),
            Err(ParseError::Abort(d)) => Err(ParseError::Abort(d)),
        }
    }
}

pub trait SynErrorExt: Sized {
    /// Reports the error and goes on.
    fn emit_as_error(self, diags: &mut Vec<Diagnostic>);
}

impl SynErrorExt for Diagnostic {
    fn emit_as_error(self, diags: &mut Vec<Diagnostic>)
        ensures
            final(diags)@ == old(diags)@.push(self),
    {
        diags.push(self);
    }
}

} // verus!
