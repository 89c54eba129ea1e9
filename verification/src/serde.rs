pub mod codec;

use vstd::prelude::*;

verus! {

/// Types that can be turned into the bytes of one message.
pub trait Encode {
    fn encode(&self) -> Result<Vec<u8>, std::io::Error>;
}

/// Types that can be rebuilt from the bytes of one message.
pub trait Decode where Self: Sized {
    fn decode(bytes: &[u8]) -> Result<Self, std::io::Error>;
}

/// `outcome` is what encoding `item` gives (one of its outcomes, where its
/// `Encode` leaves more than one open).
pub open spec fn encodes_as<T: Encode>(item: &T, outcome: Result<Vec<u8>, std::io::Error>) -> bool {
    call_ensures(T::encode, (item,), outcome)
}

/// `outcome` is what decoding the bytes `bytes` gives (one of its outcomes).
pub open spec fn decodes_as<T: Decode>(bytes: Seq<u8>, outcome: Result<T, std::io::Error>) -> bool {
    exists|s: &[u8]| #[trigger] call_ensures(T::decode, (s,), outcome) && s@ == bytes
}

} // verus!
