//! The serial link of a bus, and the record of everything exchanged over it.
//!
//! This module is the trust boundary of the library. Every contract of the
//! packet layer and of the buses is stated over the history a [`Channel`]
//! keeps, and the link is reached only through the operations here:
//!
//! - [`Channel::send`] writes and flushes a packet and records it;
//! - [`Channel::receive_frame`] lets the link feed a fresh frame reader and
//!   records the bytes the reader consumed;
//! - [`Channel::link_mut`] hands the link out for direct use and records that
//!   it did, as an opaque event that no operation's contract admits.
//!
//! The fields of a channel are private to this module, so verified code
//! elsewhere can neither write the history nor use the link unrecorded. That
//! the first two operations record exactly what they handed to the link and
//! what it reported is read from their few lines, not proved: the link is
//! the user's, and its trait carries no contract.

use vstd::prelude::*;

use crate::frame::FrameReader;

verus! {

/// The byte transport under a servo bus.
pub trait SerialLink {
    type Error;

    /// Writes all of `data`.
    fn write_all(&mut self, data: &[u8]) -> Result<(), Self::Error>;

    /// Waits until everything written has been transmitted.
    fn flush(&mut self) -> Result<(), Self::Error>;

    /// Hands incoming bytes to `reader`, one at a time and in order of
    /// arrival, until `reader.is_complete()` or the input ends. Returns
    /// `Ok(())` in both cases and `Err` when reading fails.
    fn receive(&mut self, reader: &mut FrameReader) -> Result<(), Self::Error>;
}

/// One exchange with the link, as the channel recorded it.
pub enum LinkEvent<E> {
    /// `packet` was written and flushed; `outcome` is what the link reported.
    Sent { packet: Seq<u8>, outcome: Result<(), E> },
    /// A frame reader consumed `bytes`; `outcome` is what the link reported.
    Received { bytes: Seq<u8>, outcome: Result<(), E> },
    /// The link was handed out for direct use; what was done with it is unknown.
    Direct,
}

/// A serial link together with the history of what was exchanged over it.
pub struct Channel<L: SerialLink> {
    link: L,
    history: Ghost<Seq<LinkEvent<L::Error>>>,
}

impl<L: SerialLink> Channel<L> {
    /// Every exchange with the link so far, oldest first.
    pub closed spec fn history(&self) -> Seq<LinkEvent<L::Error>> {
        self.history@
    }

    /// The link.
    pub closed spec fn link(&self) -> L {
        self.link
    }

    /// A channel over `link` with nothing exchanged yet.
    pub fn new(link: L) -> (c: Self)
        ensures
            c.link() == link,
            c.history() == Seq::<LinkEvent<L::Error>>::empty(),
    {
        Channel { link, history: Ghost(Seq::empty()) }
    }

    /// Writes and flushes `packet` (the flush only after a successful write),
    /// recording it with what the link reported.
    pub fn send(&mut self, packet: &[u8]) -> (r: Result<(), L::Error>)
        ensures
            final(self).history() == old(self).history().push(LinkEvent::Sent { packet: packet@, outcome: r }),
    {
        let r = match self.link.write_all(packet) {
            Ok(()) => self.link.flush(),
            Err(e) => Err(e),
        };
        proof {
            self.history@ = self.history@.push(LinkEvent::Sent { packet: packet@, outcome: r });
        }
        r
    }

    /// Lets the link feed a fresh frame reader, recording the bytes the reader
    /// consumed with what the link reported.
    pub fn receive_frame(&mut self) -> (res: (FrameReader, Result<(), L::Error>))
        ensures
            final(self).history() == old(self).history().push(
                LinkEvent::Received { bytes: res.0.fed(), outcome: res.1 },
            ),
    {
        let mut reader = FrameReader::new();
        let r = self.link.receive(&mut reader);
        proof {
            self.history@ = self.history@.push(LinkEvent::Received { bytes: reader.fed(), outcome: r });
        }
        (reader, r)
    }

    /// The link, to look at.
    pub fn link_ref(&self) -> (l: &L)
        ensures
            *l == self.link(),
    {
        &self.link
    }

    /// The link, for direct use; the use is recorded as [`LinkEvent::Direct`].
    pub fn link_mut(&mut self) -> (l: &mut L)
        ensures
            *l == old(self).link(),
            final(self).history() == old(self).history().push(LinkEvent::Direct),
    {
        proof {
            self.history@ = self.history@.push(LinkEvent::Direct);
        }
        &mut self.link
    }
}

} // verus!
