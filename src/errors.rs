//! The error type that every fallible operation of the crate returns.
use remotefs::{RemoteError, RemoteErrorType};
use vstd::prelude::*;

verus! {

#[verifier::external_type_specification]
pub struct ExRemoteErrorType(RemoteErrorType);

#[verifier::external_type_specification]
pub struct ExRemoteError(RemoteError);

/// An error of `kind` whose message is `msg`.
pub fn error_with_message(kind: RemoteErrorType, msg: String) -> (r: RemoteError)
    ensures
        r.kind == kind,
        r.msg == Some(msg),
{
    RemoteError { kind, msg: Some(msg) }
}

/// An error of `kind` whose message is the text `msg`.
pub fn error_with_text(kind: RemoteErrorType, msg: &str) -> (r: RemoteError)
    ensures
        r.kind == kind,
        r.msg is Some,
        r.msg->Some_0@ == msg@,
{
    RemoteError { kind, msg: Some(msg.to_owned()) }
}

} // verus!
