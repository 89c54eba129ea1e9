use std::io;

use tuber::error::{Error, HostRuntimeError};

#[test]
fn error_messages_name_their_cause() {
    assert_eq!(Error::JsSysError("a".to_string()).message(), "JS sys error: a");
    assert_eq!(Error::JsError("b".to_string()).message(), "JS error: b");
    assert_eq!(Error::TaskError("c".to_string()).message(), "Task error: c");
    assert_eq!(
        Error::RuntimeUnavailable.message(),
        "Unable to access runtime: this operation must be called from within a runtime context."
    );
}

#[test]
fn canceled_task_message() {
    let (tx, rx) = futures::channel::oneshot::channel::<u8>();
    drop(tx);
    let canceled = futures::executor::block_on(rx).unwrap_err();
    let e: Error = canceled.into();
    assert!(matches!(e, Error::TaskCanceled(_)));
    assert_eq!(e.message(), "The task was canceled");
}

#[test]
fn runtime_error_message_quotes_its_text() {
    let e = Error::RuntimeError(HostRuntimeError::Initialization("say \"hi\"".to_string()));
    assert_eq!(e.message(), "Host runtime error: Initialization(\"say \\\"hi\\\"\")");
    let e = Error::from(HostRuntimeError::Execution("x".to_string()));
    assert_eq!(e.message(), "Host runtime error: Execution(\"x\")");
}

#[test]
fn io_error_message_starts_with_its_label() {
    let e: Error = io::Error::new(io::ErrorKind::InvalidData, "bad").into();
    assert!(matches!(e, Error::IoError(_)));
    let m = e.message();
    assert!(m.starts_with("IO error: "));
    assert!(m.contains("bad"));
}

#[test]
fn host_runtime_error_messages() {
    assert_eq!(HostRuntimeError::Initialization("i".to_string()).message(), "Initialization: i");
    assert_eq!(HostRuntimeError::Execution("e".to_string()).message(), "Execution: e");
}

#[test]
fn io_error_text_is_label_and_debug() {
    assert_eq!(tuber::error::io_error_text("Kind(NotFound)"), "IO error: Kind(NotFound)");
    let io_err = io::Error::from(io::ErrorKind::NotFound);
    let shown = format!("IO error: {:?}", io_err);
    assert_eq!(Error::IoError(io_err).message(), shown);
}
