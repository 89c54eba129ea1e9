//! The decisions around spawning tasks on the host runtime (tokio): finding
//! the runtime, reporting a refused task, and settling what a task's join
//! handle resolves to.
use vstd::prelude::*;
use vstd::string::StringExecFns;

use crate::error::{error_message, io_error_message, Error, HostRuntimeError};

verus! {

/// `tokio::runtime::Handle`: a handle to the runtime that tasks run on.
#[verifier::external_type_specification]
#[verifier::external_body]
pub struct ExHandle(tokio::runtime::Handle);

/// Prepares the host runtime. With tokio as the host runtime there is
/// nothing to prepare, so this always succeeds.
pub fn initialize() -> (r: Result<(), Error>)
    ensures
        r is Ok,
{
    Ok(())
}

/// Text of tokio's error when the calling thread runs in no runtime.
pub open spec fn no_runtime_text() -> Seq<char> {
    "there is no reactor running, must be called from the context of a Tokio 1.x runtime"@
}

/// Text of tokio's error when the thread's runtime context is already gone.
pub open spec fn context_destroyed_text() -> Seq<char> {
    "The Tokio context thread-local variable has been destroyed."@
}

/// `tokio::runtime::Handle::try_current`, its error turned into its text.
/// Whether a runtime is current depends on the calling thread, so nothing is
/// claimed of which outcome comes; claimed, as tokio's source shows: the error's
/// text is one of its two fixed messages (no context, or context destroyed).
#[verifier::external_body]
fn try_current_handle() -> (r: Result<tokio::runtime::Handle, String>)
    ensures
        r matches Err(m) ==> (m@ == no_runtime_text() || m@ == context_destroyed_text()),
{
    match tokio::runtime::Handle::try_current() {
        Ok(h) => Ok(h),
        Err(e) => Err(e.to_string()),
    }
}

/// What looking for the current runtime gives: the handle, or, when there is
/// none, an initialization error that carries the reason.
pub fn runtime_from_probe(probe: Result<tokio::runtime::Handle, String>) -> (r: Result<tokio::runtime::Handle, Error>)
    ensures
        probe is Ok ==> r is Ok && r.unwrap() == probe.unwrap(),
        probe matches Err(m) ==> (r matches Err(Error::RuntimeError(HostRuntimeError::Initialization(m2))) && m2@ == m@),
{
    match probe {
        Ok(h) => Ok(h),
        Err(m) => Err(Error::RuntimeError(HostRuntimeError::Initialization(m))),
    }
}

/// The runtime that tasks are spawned on: the current tokio runtime, or an
/// initialization error, carrying tokio's reason, when the caller runs outside
/// of one.
pub fn current_runtime() -> (r: Result<tokio::runtime::Handle, Error>)
    ensures
        r is Err ==> (r matches Err(Error::RuntimeError(HostRuntimeError::Initialization(m)))
            && (m@ == no_runtime_text() || m@ == context_destroyed_text())),
{
    runtime_from_probe(try_current_handle())
}

/// The error a join handle resolves to when the runtime refused its task.
pub fn task_failure(e: &Error) -> (r: Error)
    ensures
        r matches Error::TaskError(m) && (!(e is IoError) ==> m@ == error_message(*e))
            && (e is IoError ==> exists|d: Seq<char>| m@ == #[trigger] io_error_message(d)),
{
    Error::TaskError(e.message())
}

/// What a join handle resolves to: the task's own outcome once it was sent,
/// or `TaskCanceled` when its sender went away first.
pub fn join_outcome<T>(received: Result<Result<T, Error>, futures::channel::oneshot::Canceled>) -> (r: Result<T, Error>)
    ensures
        received matches Ok(outcome) ==> r == outcome,
        received matches Err(c) ==> r == Err::<T, Error>(Error::TaskCanceled(c)),
{
    match received {
        Ok(outcome) => outcome,
        Err(c) => Err(Error::TaskCanceled(c)),
    }
}

/// What a runtime that cannot run blocking work answers a request for it.
pub fn blocking_unsupported() -> (e: Error)
    ensures
        e matches Error::TaskError(m) && m@ == "blocking not supported on this runtime"@,
{
    Error::TaskError(String::from_str("blocking not supported on this runtime"))
}

} // verus!
