use tuber::plugin::{request_bytes, write_failure_message, PluginState, RequestBody};
use tuber::util::js::{forwarding_outcome, string_or_unknown};
use tuber::util::reader_stream::ReaderStream;
use tuber::worker::Builder;
use tuber::Error;

#[test]
fn plugin_serves_one_connection_at_a_time() {
    let mut state = PluginState::new(ReaderStream::new(()).unbounded());
    let stream = state.open_channel().ok().unwrap();
    let refused = state.open_channel().err().unwrap();
    assert_eq!(refused, "Tuber already opened a connection for this tauri app.");
    assert_eq!(state.close_channel(stream), "Tuber channel dropped.");
    assert!(state.open_channel().is_ok());
}

#[test]
fn plugin_requests_carry_raw_bytes_only() {
    assert_eq!(request_bytes(RequestBody::Raw(vec![1, 2])).unwrap(), vec![1, 2]);
    assert_eq!(
        request_bytes(RequestBody::Json).unwrap_err(),
        "Invalid JSON message received over binary tuber channel."
    );
}

#[test]
fn plugin_write_failure_names_the_error() {
    let e = std::io::Error::new(std::io::ErrorKind::BrokenPipe, "gone");
    let m = write_failure_message(&e);
    assert!(m.starts_with("Error writing to async write: "));
    assert!(m.contains("gone"));
}

#[test]
fn worker_builder_finds_its_port_by_name() {
    let b = Builder::with_name("tuber_simple");
    assert_eq!(b.name(), "tuber_simple");
    assert_eq!(b.message_port_key(), "__tuber_message_port_tuber_simple");
}

#[test]
fn js_text_or_unknown() {
    assert_eq!(string_or_unknown(Some("x".to_string())), "x");
    assert_eq!(string_or_unknown(None), "unknown");
}

#[test]
fn forwarding_reports_the_first_failure() {
    assert!(forwarding_outcome(Ok(()), Ok(())).is_ok());
    let e = forwarding_outcome(Err(Some("a".to_string())), Err(Some("b".to_string()))).unwrap_err();
    assert!(matches!(e, Error::JsError(ref m) if m == "a"));
    let e = forwarding_outcome(Ok(()), Err(None)).unwrap_err();
    assert!(matches!(e, Error::JsError(ref m) if m == "unknown"));
}

#[test]
fn plugin_write_failure_text_is_prefix_and_debug() {
    assert_eq!(
        tuber::plugin::write_failure_text("Kind(BrokenPipe)"),
        "Error writing to async write: Kind(BrokenPipe)"
    );
    let e = std::io::Error::from(std::io::ErrorKind::BrokenPipe);
    assert_eq!(write_failure_message(&e), format!("Error writing to async write: {:?}", e));
}
