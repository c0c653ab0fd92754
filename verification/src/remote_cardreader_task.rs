//! The main unit's end of the serial link: frames are collected byte by
//! byte, decoded, and turned into card reads.

use vstd::prelude::*;
use crate::bytes::copy;
use crate::cobs::{lemma_stuff_len, stuff};
use crate::identity::{digest_uid, md5_digest};
use crate::main_task::CardReaderEvent;
use crate::uart_protocol::{
    decode_remote, frame_of, lemma_remote_round_trip, RemoteMessage, MAX_FRAME_LEN,
};

verus! {

/// Why no message came out of the link.
#[derive(Debug, PartialEq, Eq, Clone, Copy)]
pub enum RemoteError {
    /// Sixteen bytes arrived without a delimiter.
    RxBufferOverflow,
    /// The transport failed to read.
    UartError,
    /// The frame does not decode to a message.
    PostcardError,
}

/// What the transport handed over.
#[derive(Debug, PartialEq, Eq, Clone, Copy)]
pub enum LinkInput {
    /// The next byte.
    Byte(u8),
    /// A failed read.
    Fault,
}

/// Collects the bytes of the frame that is under way.
pub struct FrameReader {
    buf: Vec<u8>,
}

/// What one input does to the bytes collected so far: the bytes
/// afterwards, and the stuffed body of a completed frame or the error that
/// ended it. A delimiter completes the frame. The sixteenth byte without a
/// delimiter, and a failed read, discard it.
pub open spec fn collect(pending: Seq<u8>, input: LinkInput) -> (
    Seq<u8>,
    Option<Result<Seq<u8>, RemoteError>>,
) {
    match input {
        LinkInput::Fault => (Seq::empty(), Some(Err(RemoteError::UartError))),
        LinkInput::Byte(byte) => if byte == 0 {
            (Seq::empty(), Some(Ok(pending)))
        } else if pending.len() + 1 >= MAX_FRAME_LEN {
            (Seq::empty(), Some(Err(RemoteError::RxBufferOverflow)))
        } else {
            (pending.push(byte), None)
        },
    }
}

/// What one input yields on the main unit: nothing while the frame is
/// under way, then the message or the error.
pub open spec fn read_step(pending: Seq<u8>, input: LinkInput) -> (
    Seq<u8>,
    Option<Result<RemoteMessage, RemoteError>>,
) {
    match collect(pending, input) {
        (rest, None) => (rest, None),
        (rest, Some(Err(e))) => (rest, Some(Err(e))),
        (rest, Some(Ok(stuffed))) => (
            rest,
            Some(
                match decode_remote(stuffed) {
                    Some(message) => Ok(message),
                    None => Err(RemoteError::PostcardError),
                },
            ),
        ),
    }
}

/// The digest that a message of the remote reader yields: that of its UID,
/// where it carries one.
pub open spec fn routed(received: Result<RemoteMessage, RemoteError>) -> Option<Seq<u8>> {
    match received {
        Ok(RemoteMessage::SingleUid(uid)) => Some(md5_digest(uid@)),
        Ok(RemoteMessage::DoubleUid(uid)) => Some(md5_digest(uid@)),
        Ok(RemoteMessage::TripleUid(uid)) => Some(md5_digest(uid@)),
        _ => None,
    }
}

impl FrameReader {
    /// The bytes of the frame under way.
    pub closed spec fn pending(self) -> Seq<u8> {
        self.buf@
    }

    #[verifier::type_invariant]
    spec fn fits(self) -> bool {
        self.buf@.len() < MAX_FRAME_LEN
    }

    /// A reader between frames.
    pub fn new() -> (reader: FrameReader)
        ensures
            reader.pending().len() == 0,
    {
        FrameReader { buf: Vec::new() }
    }

    /// Number of bytes collected for the frame under way.
    pub fn pending_len(&self) -> (n: usize)
        ensures
            n == self.pending().len(),
            n < MAX_FRAME_LEN,
    {
        proof {
            use_type_invariant(self);
        }
        self.buf.len()
    }

    /// Takes one input from the transport. Returns the stuffed body of the
    /// frame that it completes, the error that discards the frame, or
    /// nothing while the frame is under way.
    pub fn accept(&mut self, input: LinkInput) -> (frame: Option<Result<Vec<u8>, RemoteError>>)
        ensures
            final(self).pending() == collect(old(self).pending(), input).0,
            match frame {
                None => collect(old(self).pending(), input).1 is None,
                Some(Err(e)) => collect(old(self).pending(), input).1 == Some(
                    Err::<Seq<u8>, RemoteError>(e),
                ),
                Some(Ok(stuffed)) => collect(old(self).pending(), input).1 == Some(
                    Ok::<Seq<u8>, RemoteError>(stuffed@),
                ),
            },
    {
        proof {
            use_type_invariant(&*self);
        }
        match input {
            LinkInput::Fault => {
                self.buf = Vec::new();
                Some(Err(RemoteError::UartError))
            },
            LinkInput::Byte(byte) => {
                if byte == 0 {
                    let stuffed = copy(self.buf.as_slice());
                    self.buf = Vec::new();
                    Some(Ok(stuffed))
                } else if self.buf.len() + 1 >= MAX_FRAME_LEN {
                    self.buf = Vec::new();
                    Some(Err(RemoteError::RxBufferOverflow))
                } else {
                    let mut longer = copy(self.buf.as_slice());
                    longer.push(byte);
                    self.buf = longer;
                    None
                }
            },
        }
    }
}

/// Reads on towards the next message of the remote reader: takes one input
/// from the transport and returns the message or the error that it
/// completes, or nothing while the frame is under way. After a message or
/// an error the reader stands between frames again.
pub fn read_message(reader: &mut FrameReader, input: LinkInput) -> (message: Option<
    Result<RemoteMessage, RemoteError>,
>)
    ensures
        (final(reader).pending(), message) == read_step(old(reader).pending(), input),
{
    match reader.accept(input) {
        None => None,
        Some(Err(e)) => Some(Err(e)),
        Some(Ok(stuffed)) => match RemoteMessage::from_stuffed(stuffed.as_slice()) {
            Some(message) => Some(Ok(message)),
            None => Some(Err(RemoteError::PostcardError)),
        },
    }
}

/// Routes what the link delivered: a message with a UID becomes a card
/// read that carries the digest of the UID; every other message, and every
/// error, is for the log alone.
pub fn remote_cardreader_task(received: &Result<RemoteMessage, RemoteError>) -> (event: Option<
    CardReaderEvent,
>)
    ensures
        match routed(*received) {
            Some(digest) => event matches Some(CardReaderEvent::CardMD5(d)) && d@ == digest,
            None => event is None,
        },
{
    match received {
        Ok(RemoteMessage::SingleUid(uid)) => Some(
            CardReaderEvent::CardMD5(digest_uid(uid.as_slice())),
        ),
        Ok(RemoteMessage::DoubleUid(uid)) => Some(
            CardReaderEvent::CardMD5(digest_uid(uid.as_slice())),
        ),
        Ok(RemoteMessage::TripleUid(uid)) => Some(
            CardReaderEvent::CardMD5(digest_uid(uid.as_slice())),
        ),
        _ => None,
    }
}

/// A frame is read back as the message it was made from: fed byte by byte
/// to a reader that stands between frames, every byte before the delimiter
/// is collected without a result, and the delimiter yields the message and
/// leaves the reader between frames.
pub proof fn lemma_frame_is_read_back(m: RemoteMessage)
    ensures
        ({
            let frame = frame_of(m.body());
            let n = frame.len() - 1;
            &&& 1 <= n < MAX_FRAME_LEN
            &&& forall|i: int|
                0 <= i < n ==> #[trigger] read_step(frame.take(i), LinkInput::Byte(frame[i])) == (
                    frame.take(i + 1),
                    None::<Result<RemoteMessage, RemoteError>>,
                )
            &&& read_step(frame.take(n), LinkInput::Byte(frame[n])) == (
                Seq::<u8>::empty(),
                Some(Ok::<RemoteMessage, RemoteError>(m)),
            )
        }),
{
    let frame = frame_of(m.body());
    let n = frame.len() - 1;
    lemma_remote_round_trip(m);
    lemma_stuff_len(m.body());
    assert(frame.take(n) =~= stuff(m.body()));
    assert forall|i: int| 0 <= i < n implies #[trigger] read_step(
        frame.take(i),
        LinkInput::Byte(frame[i]),
    ) == (frame.take(i + 1), None::<Result<RemoteMessage, RemoteError>>) by {
        assert(frame[i] == stuff(m.body())[i]);
        assert(frame.take(i).push(frame[i]) =~= frame.take(i + 1));
    }
}

} // verus!
