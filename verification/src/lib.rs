//! Typed, length-delimited message tubes between a host and its workers.
pub mod entry;
pub mod error;
pub mod serde;
pub mod task;
pub mod framing;
pub mod plugin;
pub mod tube;
pub mod util;
pub mod worker;

use vstd::prelude::*;

pub use error::{Error, HostRuntimeError};
pub use serde::{codec, Decode, Encode};
pub use tube::{Rx, Tube, Tx};

verus! {

/// Size of the in-memory pipes and of the chunks read from them.
pub const DEFAULT_BUFFER_SIZE: usize = 65_536;

} // verus!
