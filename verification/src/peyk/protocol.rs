//! What peers ask each other, and what they answer.
use vstd::prelude::*;
use crate::table::Key;

verus! {

/// The identity of a peer, in its textual (base58) form.
#[derive(Debug, PartialEq, Eq)]
pub struct PeerId {
    text: String,
}

impl View for PeerId {
    type V = Seq<char>;

    closed spec fn view(&self) -> Seq<char> {
        self.text@
    }
}

impl PeerId {
    /// The peer with the given textual form.
    pub fn new(text: String) -> (peer: Self)
        ensures
            peer@ == text@,
    {
        PeerId { text }
    }

    /// The textual form of the peer.
    pub fn as_str(&self) -> (text: &str)
        ensures
            text@ == self@,
    {
        self.text.as_str()
    }
}

impl Clone for PeerId {
    fn clone(&self) -> (copy: Self)
        ensures
            copy == *self,
    {
        PeerId { text: self.text.clone() }
    }
}

impl Key for PeerId {
    fn same(&self, other: &Self) -> (equal: bool) {
        self.text == other.text
    }
}

/// What a peer may be asked.
#[derive(Debug, Clone, Copy, PartialEq, Eq, Structural)]
pub enum Request {
    /// May chunks be stored with you?
    RequestStoragePermit,
}

/// What a peer may answer.
#[derive(Debug, Clone, Copy, PartialEq, Eq, Structural)]
pub enum Response {
    /// Chunks may be stored here for `valid_for` seconds.
    ///
    /// By convention each acknowledgement is worth about twenty chunks of storage space.
    AckStoragePermit { valid_for: u8 },
}

} // verus!
