//! Incremental decoder for the frames a servo sends back.
//!
//! A response on the wire is `0xFF 0xFF id length body`, where `body` is
//! `length` bytes: an error byte, the parameters and a checksum. Bytes before
//! the two header bytes are skipped. The reader consumes bytes one at a time
//! and stops consuming as soon as it has either a whole frame or a length byte
//! too small to hold the error byte and the checksum.

use vstd::prelude::*;

verus! {

/// Byte that starts every packet, twice.
pub const HEADER_BYTE: u8 = 0xFF;

/// Where a reader stands after consuming some bytes.
pub enum ScanState {
    /// Looking for the first header byte.
    SeekFirst,
    /// One header byte seen; the next byte decides.
    SeekSecond,
    /// Header seen; the next byte is the ID.
    Id,
    /// ID seen; the next byte is the length.
    Length { id: u8 },
    /// Collecting the `length` bytes of the body.
    Body { id: u8, length: u8, body: Seq<u8> },
    /// A whole frame has been read.
    Complete { id: u8, length: u8, body: Seq<u8> },
    /// The length byte was below 2; nothing more is read.
    TooShort { id: u8, length: u8 },
}

impl ScanState {
    /// The reader has stopped consuming bytes.
    pub open spec fn is_terminal(self) -> bool {
        self is Complete || self is TooShort
    }
}

/// One transition of the reader on byte `b`.
pub open spec fn scan_step(s: ScanState, b: u8) -> ScanState {
    match s {
        ScanState::SeekFirst => if b == HEADER_BYTE {
            ScanState::SeekSecond
        } else {
            ScanState::SeekFirst
        },
        ScanState::SeekSecond => if b == HEADER_BYTE {
            ScanState::Id
        } else {
            ScanState::SeekFirst
        },
        ScanState::Id => ScanState::Length { id: b },
        ScanState::Length { id } => if b < 2 {
            ScanState::TooShort { id, length: b }
        } else {
            ScanState::Body { id, length: b, body: Seq::empty() }
        },
        ScanState::Body { id, length, body } => if body.len() + 1 == length {
            ScanState::Complete { id, length, body: body.push(b) }
        } else {
            ScanState::Body { id, length, body: body.push(b) }
        },
        ScanState::Complete { id, length, body } => s,
        ScanState::TooShort { id, length } => s,
    }
}

/// The state a fresh reader reaches after consuming `bytes`.
pub open spec fn scan(bytes: Seq<u8>) -> ScanState
    decreases bytes.len(),
{
    if bytes.len() == 0 {
        ScanState::SeekFirst
    } else {
        scan_step(scan(bytes.drop_last()), bytes.last())
    }
}

/// No proper prefix of `bytes` already brings the reader to a stop:
/// the reader never consumes a byte after its last one.
pub open spec fn consumed_minimally(bytes: Seq<u8>) -> bool {
    forall|k: int| 0 <= k < bytes.len() ==> !(#[trigger] scan(bytes.take(k))).is_terminal()
}

#[derive(Clone, Copy, PartialEq, Eq, Structural)]
pub enum ReadPhase {
    SeekFirst,
    SeekSecond,
    Id,
    Length,
    Body,
    Complete,
    TooShort,
}

/// Decoder for one response frame, fed one byte at a time.
pub struct FrameReader {
    phase: ReadPhase,
    id: u8,
    length: u8,
    body: Vec<u8>,
    fed: Ghost<Seq<u8>>,
}

impl FrameReader {
    /// The bytes this reader has consumed, in order.
    pub closed spec fn fed(&self) -> Seq<u8> {
        self.fed@
    }

    /// The exec fields agree with the state reached on the consumed bytes.
    pub closed spec fn matches(&self, s: ScanState) -> bool {
        match s {
            ScanState::SeekFirst => self.phase == ReadPhase::SeekFirst,
            ScanState::SeekSecond => self.phase == ReadPhase::SeekSecond,
            ScanState::Id => self.phase == ReadPhase::Id,
            ScanState::Length { id } => self.phase == ReadPhase::Length && self.id == id,
            ScanState::Body { id, length, body } => {
                &&& self.phase == ReadPhase::Body
                &&& self.id == id
                &&& self.length == length
                &&& self.body@ == body
                &&& body.len() < length
                &&& length >= 2
            },
            ScanState::Complete { id, length, body } => {
                &&& self.phase == ReadPhase::Complete
                &&& self.id == id
                &&& self.length == length
                &&& self.body@ == body
                &&& body.len() == length
                &&& length >= 2
            },
            ScanState::TooShort { id, length } => {
                &&& self.phase == ReadPhase::TooShort
                &&& self.id == id
                &&& self.length == length
                &&& length < 2
            },
        }
    }

    #[verifier::type_invariant]
    closed spec fn inv(&self) -> bool {
        &&& self.matches(scan(self.fed@))
        &&& consumed_minimally(self.fed@)
    }

    /// A reader that has consumed nothing.
    pub fn new() -> (r: FrameReader)
        ensures
            r.fed() == Seq::<u8>::empty(),
    {
        let r = FrameReader {
            phase: ReadPhase::SeekFirst,
            id: 0,
            length: 0,
            body: Vec::new(),
            fed: Ghost(Seq::empty()),
        };
        proof {
            assert(consumed_minimally(Seq::<u8>::empty()));
        }
        r
    }

    /// The reader has stopped consuming bytes (a whole frame, or a length below 2).
    pub fn is_complete(&self) -> (done: bool)
        ensures
            done == scan(self.fed()).is_terminal(),
    {
        proof {
            use_type_invariant(self);
        }
        self.phase == ReadPhase::Complete || self.phase == ReadPhase::TooShort
    }

    /// The reader holds a whole frame.
    pub fn has_frame(&self) -> (whole: bool)
        ensures
            whole == scan(self.fed()) is Complete,
            consumed_minimally(self.fed()),
    {
        proof {
            use_type_invariant(self);
        }
        self.phase == ReadPhase::Complete
    }

    /// Consumes `byte`; a reader that has stopped ignores it.
    pub fn feed(&mut self, byte: u8)
        ensures
            scan(old(self).fed()).is_terminal() ==> final(self).fed() == old(self).fed(),
            !scan(old(self).fed()).is_terminal() ==> final(self).fed() == old(self).fed().push(byte),
    {
        proof {
            use_type_invariant(&*self);
        }
        if self.phase == ReadPhase::Complete || self.phase == ReadPhase::TooShort {
            return;
        }
        let ghost old_fed = self.fed@;
        let ghost new_fed = old_fed.push(byte);
        proof {
            assert(new_fed.drop_last() =~= old_fed);
            assert(scan(new_fed) == scan_step(scan(old_fed), byte));
            assert forall|k: int| 0 <= k < new_fed.len() implies !(#[trigger] scan(
                new_fed.take(k),
            )).is_terminal() by {
                if k < old_fed.len() {
                    assert(new_fed.take(k) =~= old_fed.take(k));
                } else {
                    assert(new_fed.take(k) =~= old_fed);
                }
            }
        }
        let mut current = FrameReader::new();
        core::mem::swap(self, &mut current);
        proof {
            use_type_invariant(&current);
        }
        let FrameReader { phase, id, length, body, fed: _ } = current;
        let mut body = body;
        let mut phase = phase;
        let mut id = id;
        let mut length = length;
        match phase {
            ReadPhase::SeekFirst => {
                if byte == HEADER_BYTE {
                    phase = ReadPhase::SeekSecond;
                }
            },
            ReadPhase::SeekSecond => {
                if byte == HEADER_BYTE {
                    phase = ReadPhase::Id;
                } else {
                    phase = ReadPhase::SeekFirst;
                }
            },
            ReadPhase::Id => {
                id = byte;
                phase = ReadPhase::Length;
            },
            ReadPhase::Length => {
                length = byte;
                if byte < 2 {
                    phase = ReadPhase::TooShort;
                } else {
                    body = Vec::new();
                    phase = ReadPhase::Body;
                }
            },
            _ => {
                body.push(byte);
                if body.len() == length as usize {
                    phase = ReadPhase::Complete;
                }
            },
        }
        *self = FrameReader { phase, id, length, body, fed: Ghost(new_fed) };
    }

    /// ID byte of a whole frame.
    pub fn frame_id(&self) -> (id: u8)
        requires
            scan(self.fed()) is Complete,
        ensures
            id == scan(self.fed())->Complete_id,
    {
        proof {
            use_type_invariant(self);
        }
        self.id
    }

    /// Length byte of a whole frame.
    pub fn frame_length(&self) -> (length: u8)
        requires
            scan(self.fed()) is Complete,
        ensures
            length == scan(self.fed())->Complete_length,
            length >= 2,
    {
        proof {
            use_type_invariant(self);
        }
        self.length
    }

    /// Body (error byte, parameters, checksum) of a whole frame.
    pub fn frame_body(&self) -> (body: &Vec<u8>)
        requires
            scan(self.fed()) is Complete,
        ensures
            body@ == scan(self.fed())->Complete_body,
            body@.len() == scan(self.fed())->Complete_length,
    {
        proof {
            use_type_invariant(self);
        }
        &self.body
    }
}

} // verus!
