//! The library's error type.

use vstd::prelude::*;

verus! {

/// `roxmltree::Error`, the error of parsing an XML document.
#[verifier::external_type_specification]
#[verifier::external_body]
pub struct ExXmlError(roxmltree::Error);

/// What went wrong.
#[derive(Debug)]
pub enum CustomErrorKind {
    /// An internal failure, described by a message.
    ErrorMessage(String),
    /// A mistake of the user (a wrong argument, a missing file); it is
    /// reported without a crash report.
    UserError(String),
    /// A document that is not well-formed XML.
    XmlError(roxmltree::Error),
}

/// The error of every fallible operation of the library.
#[derive(Debug)]
pub struct CustomError {
    pub kind: CustomErrorKind,
}

/// Shorthand for a result whose error is a [`CustomError`].
pub type Result<T> = core::result::Result<T, CustomError>;

/// `e` is an internal error with the message `m`.
pub open spec fn is_error_message(e: CustomError, m: Seq<char>) -> bool {
    e.kind matches CustomErrorKind::ErrorMessage(s) && s@ == m
}

/// `e` is a user error with the message `m`.
pub open spec fn is_user_error(e: CustomError, m: Seq<char>) -> bool {
    e.kind matches CustomErrorKind::UserError(s) && s@ == m
}

/// `r` failed with an internal error whose message is `m`.
pub open spec fn fails_with_message<T>(r: Result<T>, m: Seq<char>) -> bool {
    r matches Err(e) && is_error_message(e, m)
}

/// `r` failed with a user error whose message is `m`.
pub open spec fn fails_with_user_error<T>(r: Result<T>, m: Seq<char>) -> bool {
    r matches Err(e) && is_user_error(e, m)
}

impl CustomError {
    /// An internal error carrying `message`.
    pub fn from_message(message: &str) -> (res: CustomError)
        ensures
            is_error_message(res, message@),
    {
        CustomError { kind: CustomErrorKind::ErrorMessage(message.to_owned()) }
    }

    /// A user error carrying `message`.
    pub fn user_error(message: &str) -> (res: CustomError)
        ensures
            is_user_error(res, message@),
    {
        CustomError { kind: CustomErrorKind::UserError(message.to_owned()) }
    }
}

/// Replacing the error of a result.
pub trait ResultExtensions<R>: Sized {
    /// Keeps a success; turns any failure into the error that `err_func` makes.
    fn replace_error<ErrFunc: FnOnce() -> CustomError>(self, err_func: ErrFunc) -> (res: Result<R>)
        requires
            call_requires(err_func, ()),
    ;
}

impl<R, E> ResultExtensions<R> for core::result::Result<R, E> {
    fn replace_error<ErrFunc: FnOnce() -> CustomError>(self, err_func: ErrFunc) -> (res: Result<R>)
        ensures
            match self {
                Ok(v) => res == Ok::<R, CustomError>(v),
                Err(_) => res matches Err(e) && call_ensures(err_func, (), e),
            },
    {
        match self {
            Ok(res) => Ok(res),
            Err(_) => Err(err_func()),
        }
    }
}

} // verus!
