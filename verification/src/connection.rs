//! A two-way connection: the reading and writing halves of the codec, side
//! by side.
//!
//! The transport layer feeds inbound bytes to `reader` and drains outbound
//! bytes from `writer`; a session that reads and writes concurrently splits
//! the connection and owns each half independently (the halves share no
//! state).

use vstd::prelude::*;

use crate::codec::{FrameReader, FrameWriter};

verus! {

/// Typed message I/O over one byte stream: a [`FrameReader`] for the inbound
/// direction and a [`FrameWriter`] for the outbound one.
pub struct Connection {
    /// The inbound half.
    pub reader: FrameReader,
    /// The outbound half.
    pub writer: FrameWriter,
}

impl Connection {
    /// Builds a connection out of its two halves.
    pub fn from_parts(reader: FrameReader, writer: FrameWriter) -> (c: Connection)
        ensures
            c.reader == reader,
            c.writer == writer,
    {
        Connection { reader, writer }
    }

    /// A connection with nothing buffered in either direction.
    pub fn new() -> (c: Connection)
        ensures
            c.reader@ == Seq::<u8>::empty(),
            c.writer@ == Seq::<u8>::empty(),
    {
        Connection { reader: FrameReader::new(), writer: FrameWriter::new() }
    }

    /// Takes the connection apart into independent reading and writing
    /// halves, for concurrent use.
    pub fn split(self) -> (halves: (FrameReader, FrameWriter))
        ensures
            halves.0 == self.reader,
            halves.1 == self.writer,
    {
        (self.reader, self.writer)
    }
}

} // verus!
