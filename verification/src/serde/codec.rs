use vstd::prelude::*;
use std::marker::PhantomData;
use super::{Decode, Encode};

verus! {

/// Turns sent items into message bytes and received message bytes into items.
pub struct Tuber<Item, SinkItem> {
    marker: PhantomData<(Item, SinkItem)>,
}

/// A `Tuber` whose items go both ways.
pub type SymmetricalTuber<T> = Tuber<T, T>;

impl<Item, SinkItem> Tuber<Item, SinkItem> {
    pub fn default() -> Self {
        Tuber { marker: PhantomData }
    }
}

impl<Item: Decode, SinkItem> Tuber<Item, SinkItem> {
    /// The item that the bytes of one received message stand for.
    pub fn deserialize(&self, src: &[u8]) -> (r: Result<Item, std::io::Error>)
        ensures
            call_ensures(Item::decode, (src,), r),
    {
        Item::decode(src)
    }
}

impl<Item, SinkItem: Encode> Tuber<Item, SinkItem> {
    /// The bytes of the message that carries `item`.
    pub fn serialize(&self, item: &SinkItem) -> (r: Result<Vec<u8>, std::io::Error>)
        ensures
            call_ensures(SinkItem::encode, (item,), r),
    {
        item.encode()
    }
}

} // verus!
