//! The worker side of a tube: which global message port a named worker uses.
use vstd::prelude::*;
use vstd::string::StringExecFns;

verus! {

/// Builds the tube of the worker with a given name.
pub struct Builder {
    name: String,
}

impl View for Builder {
    type V = Seq<char>;

    closed spec fn view(&self) -> Seq<char> {
        self.name@
    }
}

/// The global under which a named worker finds its message port.
pub open spec fn message_port_key(name: Seq<char>) -> Seq<char> {
    "__tuber_message_port_"@ + name
}

impl Builder {
    pub fn with_name(name: &str) -> (b: Self)
        ensures
            b@ == name@,
    {
        Builder { name: String::from_str(name) }
    }

    /// The worker's name.
    pub fn name(&self) -> (r: &str)
        ensures
            r@ == self@,
    {
        self.name.as_str()
    }

    /// The global under which this worker finds its message port.
    pub fn message_port_key(&self) -> (r: String)
        ensures
            r@ == message_port_key(self@),
            r@ == "__tuber_message_port_"@ + self@,
    {
        let mut key = String::from_str("__tuber_message_port_");
        key.append(self.name.as_str());
        key
    }
}

/// A named worker's message-port key spells out the whole name: the fixed
/// 21-character prefix `__tuber_message_port_`, then every character of the
/// name, so the name is read back from the key and no two names share a key.
pub proof fn lemma_message_port_key_spells_name(name: Seq<char>, other: Seq<char>)
    ensures
        message_port_key(name) == "__tuber_message_port_"@ + name,
        message_port_key(name).len() == 21 + name.len(),
        message_port_key(name).skip(21) == name,
        message_port_key(name) == message_port_key(other) ==> name == other,
{
    reveal_strlit("__tuber_message_port_");
    assert(("__tuber_message_port_"@ + name).skip(21) =~= name);
    assert(("__tuber_message_port_"@ + other).skip(21) =~= other);
}

} // verus!
