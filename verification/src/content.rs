//! What arrives: a Stream of bytes, and the Message made of Streams once the
//! transport gates have let it through.

use vstd::prelude::*;

verus! {

/// The bytes of an arrival.
pub struct Stream {
    bytes: Vec<u8>,
}

impl View for Stream {
    type V = Seq<u8>;

    closed spec fn view(&self) -> Seq<u8> {
        self.bytes@
    }
}

impl Stream {
    pub fn new(bytes: Vec<u8>) -> (s: Stream)
        ensures
            s@ == bytes@,
    {
        Stream { bytes }
    }

    pub fn bytes(&self) -> (b: &[u8])
        ensures
            b@ == self@,
    {
        self.bytes.as_slice()
    }
}

/// A Message: the sections it was made of, each a Stream.
pub struct Message {
    sections: Vec<Stream>,
}

impl View for Message {
    type V = Seq<Seq<u8>>;

    closed spec fn view(&self) -> Seq<Seq<u8>> {
        self.sections@.map_values(|s: Stream| s@)
    }
}

impl Message {
    pub fn new(sections: Vec<Stream>) -> (m: Message)
        ensures
            m@ == sections@.map_values(|s: Stream| s@),
    {
        Message { sections }
    }

    pub fn sections(&self) -> (s: &[Stream])
        ensures
            s@.map_values(|t: Stream| t@) == self@,
    {
        self.sections.as_slice()
    }
}

} // verus!
