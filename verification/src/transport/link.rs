//! The link: the one place where raw chunks go to a device and come from it.

use vstd::prelude::*;
use super::error::Error;

verus! {

/// The size of every chunk that travels over a link.
pub const CHUNK_SIZE: usize = 64;

/// Raw chunk I/O over one physical connection.
pub trait Link {
    /// Hands one chunk to the device.
    fn write_chunk(&mut self, chunk: Vec<u8>) -> Result<(), Error>
        requires
            chunk@.len() == CHUNK_SIZE,
    ;

    /// Takes the next chunk from the device.
    fn read_chunk(&mut self) -> Result<Vec<u8>, Error>;
}

/// One call made on a link, with what it was given or what it gave.
pub enum LinkEvent {
    /// The chunk was written.
    Wrote(Seq<u8>),
    /// Writing the chunk failed with the error.
    WriteFailed(Seq<u8>, Error),
    /// The chunk was read.
    Read(Seq<u8>),
    /// Reading a chunk failed with the error.
    ReadFailed(Error),
}

impl LinkEvent {
    /// The record of a write of `chunk` that ended as `r`.
    pub open spec fn of_write(chunk: Seq<u8>, r: Result<(), Error>) -> LinkEvent {
        match r {
            Ok(_) => LinkEvent::Wrote(chunk),
            Err(e) => LinkEvent::WriteFailed(chunk, e),
        }
    }

    /// The record of a read that ended as `r`.
    pub open spec fn of_read(r: Result<Vec<u8>, Error>) -> LinkEvent {
        match r {
            Ok(chunk) => LinkEvent::Read(chunk@),
            Err(e) => LinkEvent::ReadFailed(e),
        }
    }
}

/// A link together with the record of every call made on it since it was
/// wrapped. The link is reached through this type's two methods only, so the
/// record is complete.
pub struct TracedLink<L: Link> {
    link: L,
    trace: Ghost<Seq<LinkEvent>>,
}

impl<L: Link> TracedLink<L> {
    /// The calls made on the link so far, oldest first.
    pub closed spec fn trace(&self) -> Seq<LinkEvent> {
        self.trace@
    }

    /// The link inside.
    pub closed spec fn link(&self) -> L {
        self.link
    }

    /// Wraps a link; nothing is on record yet.
    pub fn new(link: L) -> (traced: Self)
        ensures
            traced.trace() == Seq::<LinkEvent>::empty(),
            traced.link() == link,
    {
        TracedLink { link, trace: Ghost(Seq::empty()) }
    }

    /// Gives the link back.
    pub fn into_inner(self) -> (link: L)
        ensures
            link == self.link(),
    {
        self.link
    }

    /// Writes one chunk and records the call.
    pub fn write_chunk(&mut self, chunk: Vec<u8>) -> (r: Result<(), Error>)
        requires
            chunk@.len() == CHUNK_SIZE,
        ensures
            final(self).trace() == old(self).trace().push(LinkEvent::of_write(chunk@, r)),
    {
        let ghost bytes = chunk@;
        let r = self.link.write_chunk(chunk);
        proof {
            self.trace@ = self.trace@.push(LinkEvent::of_write(bytes, r));
        }
        r
    }

    /// Reads one chunk and records the call.
    pub fn read_chunk(&mut self) -> (r: Result<Vec<u8>, Error>)
        ensures
            final(self).trace() == old(self).trace().push(LinkEvent::of_read(r)),
    {
        let r = self.link.read_chunk();
        proof {
            self.trace@ = self.trace@.push(LinkEvent::of_read(r));
        }
        r
    }
}

} // verus!
