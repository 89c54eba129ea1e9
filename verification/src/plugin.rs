//! The decisions of the native (tauri) side of a tube: one connection at a
//! time reads the host's outgoing bytes, and only binary requests carry bytes in.
use vstd::prelude::*;
use vstd::string::StringExecFns;

use crate::error::debug_io_error;
use crate::util::reader_stream::{ReaderStream, ReaderStreamView};

verus! {

/// The plugin's configuration; it has no settings.
pub struct Config {}

/// The body of a request that the web side sends in.
pub enum RequestBody {
    Raw(Vec<u8>),
    Json,
}

/// The chunk stream of the host's outgoing bytes, while no connection holds it.
pub struct PluginState<R> {
    rx: Option<ReaderStream<R>>,
}

impl<R> View for PluginState<R> {
    type V = Option<ReaderStreamView>;

    closed spec fn view(&self) -> Option<ReaderStreamView> {
        match self.rx {
            Some(s) => Some(s@),
            None => None,
        }
    }
}

impl<R> PluginState<R> {
    pub fn new(rx: ReaderStream<R>) -> (s: Self)
        ensures
            s@ == Some(rx@),
    {
        PluginState { rx: Some(rx) }
    }

    /// Hands the chunk stream to a new connection; while one holds it, any
    /// other is refused.
    pub fn open_channel(&mut self) -> (r: Result<ReaderStream<R>, String>)
        ensures
            old(self)@ matches Some(v) ==> (r matches Ok(s) && s@ == v && final(self)@ is None),
            old(self)@ is None ==> (r matches Err(m)
                && m@ == "Tuber already opened a connection for this tauri app."@
                && final(self)@ is None),
    {
        match self.rx.take() {
            Some(s) => Ok(s),
            None => Err(String::from_str("Tuber already opened a connection for this tauri app.")),
        }
    }

    /// Takes the chunk stream back when its connection ends, and gives the
    /// error that the connection's command ends with.
    pub fn close_channel(&mut self, rx: ReaderStream<R>) -> (m: String)
        ensures
            final(self)@ == Some(rx@),
            m@ == "Tuber channel dropped."@,
    {
        self.rx = Some(rx);
        String::from_str("Tuber channel dropped.")
    }
}

/// The bytes a request carries in; a JSON body is refused.
pub fn request_bytes(body: RequestBody) -> (r: Result<Vec<u8>, String>)
    ensures
        body matches RequestBody::Raw(b) ==> (r matches Ok(v) && v@ == b@),
        body is Json ==> (r matches Err(m) && m@ == "Invalid JSON message received over binary tuber channel."@),
{
    match body {
        RequestBody::Raw(b) => Ok(b),
        RequestBody::Json => Err(String::from_str("Invalid JSON message received over binary tuber channel.")),
    }
}

pub open spec fn write_failure_prefix() -> Seq<char> {
    "Error writing to async write: "@
}

/// The error a request reports when its bytes could not be written, given
/// the write error's `{:?}` text.
pub fn write_failure_text(debug: &str) -> (m: String)
    ensures
        m@ == write_failure_prefix() + debug@,
{
    let mut m = String::from_str("Error writing to async write: ");
    m.append(debug);
    m
}

/// The error a request reports when the write error `e` stopped its bytes:
/// `write_failure_text` of `e`'s `{:?}` text, which embeds the operating
/// system's description and so is not stated.
pub fn write_failure_message(e: &std::io::Error) -> (m: String)
    ensures
        exists|d: Seq<char>| m@ == write_failure_prefix() + d,
{
    write_failure_text(debug_io_error(e).as_str())
}

} // verus!
