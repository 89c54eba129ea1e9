use vstd::prelude::*;
use vstd::std_specs::convert::FromSpecImpl;
use vstd::string::StringExecFns;

verus! {

/// `std::io::Error`: carried through the library untouched.
#[verifier::external_type_specification]
#[verifier::external_body]
pub struct ExIoError(std::io::Error);

/// `futures::channel::oneshot::Canceled`: the sender of a task's result went away.
#[verifier::external_type_specification]
#[verifier::external_body]
pub struct ExCanceled(futures::channel::oneshot::Canceled);

/// Failures of the host runtime that executes spawned tasks.
#[derive(Debug)]
pub enum HostRuntimeError {
    Initialization(String),
    Execution(String),
}

/// Everything that can go wrong while building or driving a tube or a task.
#[derive(Debug)]
pub enum Error {
    IoError(std::io::Error),
    JsSysError(String),
    JsError(String),
    TaskError(String),
    TaskCanceled(futures::channel::oneshot::Canceled),
    RuntimeError(HostRuntimeError),
    RuntimeUnavailable,
}

/// Name of the quoted form that `{:?}` gives a string: its characters,
/// escaped, between double quotes.
pub uninterp spec fn str_debug(s: Seq<char>) -> Seq<char>;

/// `format!("{:?}", s)` for a `str` (std's `Debug` for `str`).
/// Claimed: the result is a function of the characters of `s` alone.
#[verifier::external_body]
fn debug_str(s: &str) -> (r: String)
    ensures
        r@ == str_debug(s@),
{
    format!("{:?}", s)
}

/// `format!("{:?}", e)` for an `std::io::Error`.
/// Nothing is claimed of the text: for an error of the operating system
/// it holds the system's description of the code.
#[verifier::external_body]
pub(crate) fn debug_io_error(e: &std::io::Error) -> String {
    format!("{:?}", e)
}

/// The text that `{:?}` gives a `HostRuntimeError`: the variant's name
/// and its message in the quoted form.
pub open spec fn host_runtime_error_debug(e: HostRuntimeError) -> Seq<char> {
    match e {
        HostRuntimeError::Initialization(m) => "Initialization("@ + str_debug(m@) + ")"@,
        HostRuntimeError::Execution(m) => "Execution("@ + str_debug(m@) + ")"@,
    }
}

/// The text that a `HostRuntimeError` displays.
pub open spec fn host_runtime_error_message(e: HostRuntimeError) -> Seq<char> {
    match e {
        HostRuntimeError::Initialization(m) => "Initialization: "@ + m@,
        HostRuntimeError::Execution(m) => "Execution: "@ + m@,
    }
}

impl HostRuntimeError {
    /// The text this error displays.
    pub fn message(&self) -> (r: String)
        ensures
            r@ == host_runtime_error_message(*self),
    {
        match self {
            HostRuntimeError::Initialization(m) => {
                let mut s = String::from_str("Initialization: ");
                s.append(m.as_str());
                s
            },
            HostRuntimeError::Execution(m) => {
                let mut s = String::from_str("Execution: ");
                s.append(m.as_str());
                s
            },
        }
    }

    fn debug_text(&self) -> (r: String)
        ensures
            r@ == host_runtime_error_debug(*self),
    {
        match self {
            HostRuntimeError::Initialization(m) => {
                let mut s = String::from_str("Initialization(");
                s.append(debug_str(m.as_str()).as_str());
                s.append(")");
                s
            },
            HostRuntimeError::Execution(m) => {
                let mut s = String::from_str("Execution(");
                s.append(debug_str(m.as_str()).as_str());
                s.append(")");
                s
            },
        }
    }
}

/// The text that an `Error` displays, for every variant but `IoError`,
/// whose text embeds the operating system's description of the error.
pub open spec fn error_message(e: Error) -> Seq<char>
    recommends
        !(e is IoError),
{
    match e {
        Error::IoError(_) => "IO error: "@,
        Error::JsSysError(m) => "JS sys error: "@ + m@,
        Error::JsError(m) => "JS error: "@ + m@,
        Error::TaskError(m) => "Task error: "@ + m@,
        Error::TaskCanceled(_) => "The task was canceled"@,
        Error::RuntimeError(h) => "Host runtime error: "@ + host_runtime_error_debug(h),
        Error::RuntimeUnavailable =>
            "Unable to access runtime: this operation must be called from within a runtime context."@,
    }
}

/// The text an `IoError` displays, given the `{:?}` text of its io error.
pub open spec fn io_error_message(debug: Seq<char>) -> Seq<char> {
    "IO error: "@ + debug
}

/// The text an `IoError` displays, given the `{:?}` text of its io error
/// (which embeds the operating system's description, so the caller formats it).
pub fn io_error_text(debug: &str) -> (r: String)
    ensures
        r@ == io_error_message(debug@),
{
    let mut s = String::from_str("IO error: ");
    s.append(debug);
    s
}

impl Error {
    /// The text this error displays: for an `IoError`, `io_error_text` of the
    /// io error's `{:?}` text.
    pub fn message(&self) -> (r: String)
        ensures
            self is IoError ==> exists|d: Seq<char>| r@ == #[trigger] io_error_message(d),
            !(self is IoError) ==> r@ == error_message(*self),
    {
        match self {
            Error::IoError(e) => io_error_text(debug_io_error(e).as_str()),
            Error::JsSysError(m) => {
                let mut s = String::from_str("JS sys error: ");
                s.append(m.as_str());
                s
            },
            Error::JsError(m) => {
                let mut s = String::from_str("JS error: ");
                s.append(m.as_str());
                s
            },
            Error::TaskError(m) => {
                let mut s = String::from_str("Task error: ");
                s.append(m.as_str());
                s
            },
            Error::TaskCanceled(_) => String::from_str("The task was canceled"),
            Error::RuntimeError(h) => {
                let mut s = String::from_str("Host runtime error: ");
                s.append(h.debug_text().as_str());
                s
            },
            Error::RuntimeUnavailable => String::from_str(
                "Unable to access runtime: this operation must be called from within a runtime context.",
            ),
        }
    }
}

/// `std::io::Error::other` on an owned copy of `message`. The error is opaque:
/// nothing is claimed of it.
#[verifier::external_body]
pub(crate) fn io_error_other(message: &str) -> std::io::Error {
    std::io::Error::other(message.to_string())
}

impl From<std::io::Error> for Error {
    fn from(e: std::io::Error) -> (r: Error) {
        Error::IoError(e)
    }
}

impl FromSpecImpl<std::io::Error> for Error {
    open spec fn obeys_from_spec() -> bool {
        true
    }

    open spec fn from_spec(e: std::io::Error) -> Error {
        Error::IoError(e)
    }
}

impl From<futures::channel::oneshot::Canceled> for Error {
    fn from(e: futures::channel::oneshot::Canceled) -> (r: Error) {
        Error::TaskCanceled(e)
    }
}

impl FromSpecImpl<futures::channel::oneshot::Canceled> for Error {
    open spec fn obeys_from_spec() -> bool {
        true
    }

    open spec fn from_spec(e: futures::channel::oneshot::Canceled) -> Error {
        Error::TaskCanceled(e)
    }
}

impl From<HostRuntimeError> for Error {
    fn from(e: HostRuntimeError) -> (r: Error) {
        Error::RuntimeError(e)
    }
}

impl FromSpecImpl<HostRuntimeError> for Error {
    open spec fn obeys_from_spec() -> bool {
        true
    }

    open spec fn from_spec(e: HostRuntimeError) -> Error {
        Error::RuntimeError(e)
    }
}

} // verus!
