//! Messages of the serial link between the main unit and a remote reader,
//! and their wire form.
//!
//! A message is written as a tag (its position in the enum, as a variable
//! length integer) followed by the bytes of its UID, if it has one. The
//! tagged body is then byte-stuffed and closed with the delimiter.

use vstd::prelude::*;
use crate::bytes::{append, fill_from};
use crate::cobs::{
    lemma_stuff_len, lemma_stuff_zero_free, lemma_unstuff_stuff, stuff, stuff_bytes, unstuff,
    unstuff_bytes, zero_free, DELIMITER,
};

verus! {

/// Largest frame, delimiter included, that either side sends or accepts.
pub const MAX_FRAME_LEN: usize = 16;

/// Messages from the remote reader to the main unit.
#[derive(Debug, Eq, PartialEq, Clone, Copy)]
pub enum RemoteMessage {
    /// A card with a four byte UID was read.
    SingleUid([u8; 4]),
    /// A card with a seven byte UID was read.
    DoubleUid([u8; 7]),
    /// A card with a ten byte UID was read.
    TripleUid([u8; 10]),
    /// A card answered but could not be selected.
    ReadError,
    /// The reader chip failed to initialise.
    ReaderFault,
    /// The remote unit has just started, after power-up or a watchdog reset.
    JustReset,
    /// Nothing to report; the remote unit is alive.
    KeepAlive,
}

/// Messages from the main unit to the remote reader, which shows them on
/// its indicator.
#[derive(Debug, Eq, PartialEq, Clone, Copy)]
pub enum MainMessage {
    /// Show the "allowed" indicator.
    AccessGranted,
    /// Show the "denied" indicator.
    AccessDenied,
    /// Clear the indicators.
    AwaitingCard,
}

impl RemoteMessage {
    /// Position of the variant, which is its tag on the wire.
    pub open spec fn tag(self) -> u8 {
        match self {
            RemoteMessage::SingleUid(_) => 0,
            RemoteMessage::DoubleUid(_) => 1,
            RemoteMessage::TripleUid(_) => 2,
            RemoteMessage::ReadError => 3,
            RemoteMessage::ReaderFault => 4,
            RemoteMessage::JustReset => 5,
            RemoteMessage::KeepAlive => 6,
        }
    }

    /// The UID that the message carries; empty where it carries none.
    pub open spec fn payload(self) -> Seq<u8> {
        match self {
            RemoteMessage::SingleUid(uid) => uid@,
            RemoteMessage::DoubleUid(uid) => uid@,
            RemoteMessage::TripleUid(uid) => uid@,
            _ => Seq::empty(),
        }
    }

    /// The tagged body: one tag byte, then the UID.
    pub open spec fn body(self) -> Seq<u8> {
        seq![self.tag()] + self.payload()
    }
}

impl MainMessage {
    /// Position of the variant, which is its tag on the wire.
    pub open spec fn tag(self) -> u8 {
        match self {
            MainMessage::AccessGranted => 0,
            MainMessage::AccessDenied => 1,
            MainMessage::AwaitingCard => 2,
        }
    }

    /// The tagged body: the tag byte alone.
    pub open spec fn body(self) -> Seq<u8> {
        seq![self.tag()]
    }
}

/// The weight of the `i`-th byte of a variable length integer.
pub open spec fn varint_weight(i: int) -> int {
    if i == 0 {
        1
    } else if i == 1 {
        128
    } else if i == 2 {
        16384
    } else if i == 3 {
        2097152
    } else {
        268435456
    }
}

/// Reads a variable length 32-bit integer from position `i` on, `acc`
/// holding what the earlier bytes contributed. Each byte gives seven bits,
/// least significant group first; a set high bit announces another byte.
/// The result is the value and the number of bytes read; `None` where the
/// bytes run out, a fifth byte announces a sixth, or the fifth byte holds
/// more than the four bits that are left.
pub open spec fn varint_from(body: Seq<u8>, i: int, acc: int) -> Option<(int, int)>
    decreases 5 - i,
{
    if i < 0 || i >= 5 || i >= body.len() {
        None
    } else {
        let byte = body[i];
        let value = acc + (byte % 128) * varint_weight(i);
        if byte < 128 {
            if i == 4 && byte > 15 {
                None
            } else {
                Some((value, i + 1))
            }
        } else {
            varint_from(body, i + 1, value)
        }
    }
}

/// The tag at the head of `body`, with the number of bytes it occupies.
pub open spec fn read_tag(body: Seq<u8>) -> Option<(int, int)> {
    varint_from(body, 0, 0)
}

/// The array whose elements are those of `s`.
pub open spec fn uid_of<const N: usize>(s: Seq<u8>) -> [u8; N] {
    choose|a: [u8; N]| a@ == s
}

/// Parses a tagged body into a message of the remote reader. Bytes after
/// the message are ignored.
pub open spec fn parse_remote(body: Seq<u8>) -> Option<RemoteMessage> {
    match read_tag(body) {
        None => None,
        Some((tag, used)) => if tag == 0 {
            if body.len() >= used + 4 {
                Some(RemoteMessage::SingleUid(uid_of(body.subrange(used, used + 4))))
            } else {
                None
            }
        } else if tag == 1 {
            if body.len() >= used + 7 {
                Some(RemoteMessage::DoubleUid(uid_of(body.subrange(used, used + 7))))
            } else {
                None
            }
        } else if tag == 2 {
            if body.len() >= used + 10 {
                Some(RemoteMessage::TripleUid(uid_of(body.subrange(used, used + 10))))
            } else {
                None
            }
        } else if tag == 3 {
            Some(RemoteMessage::ReadError)
        } else if tag == 4 {
            Some(RemoteMessage::ReaderFault)
        } else if tag == 5 {
            Some(RemoteMessage::JustReset)
        } else if tag == 6 {
            Some(RemoteMessage::KeepAlive)
        } else {
            None
        },
    }
}

/// Parses a tagged body into a message of the main unit. Bytes after the
/// tag are ignored.
pub open spec fn parse_main(body: Seq<u8>) -> Option<MainMessage> {
    match read_tag(body) {
        None => None,
        Some((tag, used)) => if tag == 0 {
            Some(MainMessage::AccessGranted)
        } else if tag == 1 {
            Some(MainMessage::AccessDenied)
        } else if tag == 2 {
            Some(MainMessage::AwaitingCard)
        } else {
            None
        },
    }
}

/// The frame that carries `body`: its stuffed form, then the delimiter.
pub open spec fn frame_of(body: Seq<u8>) -> Seq<u8> {
    stuff(body).push(DELIMITER)
}

/// What the main unit reads out of the stuffed bytes of one frame.
pub open spec fn decode_remote(stuffed: Seq<u8>) -> Option<RemoteMessage> {
    match unstuff(stuffed) {
        None => None,
        Some(body) => parse_remote(body),
    }
}

/// What the remote unit reads out of the stuffed bytes of one frame.
pub open spec fn decode_main(stuffed: Seq<u8>) -> Option<MainMessage> {
    match unstuff(stuffed) {
        None => None,
        Some(body) => parse_main(body),
    }
}

/// An array is the one that `uid_of` picks for its own elements.
pub proof fn lemma_uid_of_view<const N: usize>(a: [u8; N])
    ensures
        uid_of::<N>(a@) == a,
{
    let b = uid_of::<N>(a@);
    assert(b@ == a@);
    assert(b =~= a);
}

/// Parsing the tagged body of a message gives the message back, whatever
/// bytes follow it.
pub proof fn lemma_parse_remote_body(m: RemoteMessage, after: Seq<u8>)
    ensures
        parse_remote(m.body() + after) == Some(m),
{
    let body = m.body() + after;
    assert(body[0] == m.tag());
    assert(read_tag(body) == Some((m.tag() as int, 1int)));
    match m {
        RemoteMessage::SingleUid(uid) => {
            assert(body.subrange(1, 5) =~= uid@);
            lemma_uid_of_view(uid);
        },
        RemoteMessage::DoubleUid(uid) => {
            assert(body.subrange(1, 8) =~= uid@);
            lemma_uid_of_view(uid);
        },
        RemoteMessage::TripleUid(uid) => {
            assert(body.subrange(1, 11) =~= uid@);
            lemma_uid_of_view(uid);
        },
        _ => {},
    }
}

/// Parsing the tagged body of a message gives the message back, whatever
/// bytes follow it.
pub proof fn lemma_parse_main_body(m: MainMessage, after: Seq<u8>)
    ensures
        parse_main(m.body() + after) == Some(m),
{
    let body = m.body() + after;
    assert(body[0] == m.tag());
    assert(read_tag(body) == Some((m.tag() as int, 1int)));
}

/// Round trip on the link, remote to main: the frame of a message holds no
/// delimiter before its last byte, fits the receive buffer, and decodes to
/// the message it was made from.
pub proof fn lemma_remote_round_trip(m: RemoteMessage)
    ensures
        zero_free(stuff(m.body())),
        frame_of(m.body()).last() == 0,
        frame_of(m.body()).len() <= MAX_FRAME_LEN,
        decode_remote(stuff(m.body())) == Some(m),
        decode_remote(frame_of(m.body())) == Some(m),
{
    let body = m.body();
    lemma_stuff_zero_free(body);
    lemma_stuff_len(body);
    lemma_unstuff_stuff(body, Seq::empty());
    assert(stuff(body) + seq![0u8] + Seq::<u8>::empty() =~= frame_of(body));
    lemma_parse_remote_body(m, Seq::empty());
    assert(body + Seq::<u8>::empty() =~= body);
}

/// Round trip on the link, main to remote: the frame of a message holds no
/// delimiter before its last byte, fits the receive buffer, and decodes to
/// the message it was made from.
pub proof fn lemma_main_round_trip(m: MainMessage)
    ensures
        zero_free(stuff(m.body())),
        frame_of(m.body()).last() == 0,
        frame_of(m.body()).len() <= MAX_FRAME_LEN,
        decode_main(stuff(m.body())) == Some(m),
        decode_main(frame_of(m.body())) == Some(m),
{
    let body = m.body();
    lemma_stuff_zero_free(body);
    lemma_stuff_len(body);
    lemma_unstuff_stuff(body, Seq::empty());
    assert(stuff(body) + seq![0u8] + Seq::<u8>::empty() =~= frame_of(body));
    lemma_parse_main_body(m, Seq::empty());
    assert(body + Seq::<u8>::empty() =~= body);
}

impl RemoteMessage {
    /// Writes the tagged body of the message.
    pub fn to_body(&self) -> (out: Vec<u8>)
        ensures
            out@ == self.body(),
            out@.len() <= 11,
    {
        let mut out: Vec<u8> = Vec::new();
        match self {
            RemoteMessage::SingleUid(uid) => {
                out.push(0);
                append(&mut out, uid.as_slice());
            },
            RemoteMessage::DoubleUid(uid) => {
                out.push(1);
                append(&mut out, uid.as_slice());
            },
            RemoteMessage::TripleUid(uid) => {
                out.push(2);
                append(&mut out, uid.as_slice());
            },
            RemoteMessage::ReadError => {
                out.push(3);
            },
            RemoteMessage::ReaderFault => {
                out.push(4);
            },
            RemoteMessage::JustReset => {
                out.push(5);
            },
            RemoteMessage::KeepAlive => {
                out.push(6);
            },
        }
        assert(out@ =~= self.body());
        out
    }

    /// Writes the message as one frame, delimiter included.
    pub fn to_frame(&self) -> (out: Vec<u8>)
        ensures
            out@ == frame_of(self.body()),
            out@.len() <= MAX_FRAME_LEN,
            decode_remote(out@) == Some(*self),
    {
        let body = self.to_body();
        let mut out = stuff_bytes(body.as_slice());
        out.push(DELIMITER);
        proof {
            lemma_remote_round_trip(*self);
        }
        out
    }

    /// Parses a tagged body; `None` where the tag is malformed or unknown,
    /// or the UID is cut short.
    pub fn from_body(body: &[u8]) -> (out: Option<RemoteMessage>)
        ensures
            out == parse_remote(body@),
    {
        let (tag, used) = match take_tag(body) {
            None => {
                return None;
            },
            Some(pair) => pair,
        };
        if tag == 0 {
            if body.len() - used < 4 {
                return None;
            }
            let mut uid = [0u8; 4];
            fill_from(&mut uid, body, used);
            proof {
                lemma_uid_of_view(uid);
            }
            Some(RemoteMessage::SingleUid(uid))
        } else if tag == 1 {
            if body.len() - used < 7 {
                return None;
            }
            let mut uid = [0u8; 7];
            fill_from(&mut uid, body, used);
            proof {
                lemma_uid_of_view(uid);
            }
            Some(RemoteMessage::DoubleUid(uid))
        } else if tag == 2 {
            if body.len() - used < 10 {
                return None;
            }
            let mut uid = [0u8; 10];
            fill_from(&mut uid, body, used);
            proof {
                lemma_uid_of_view(uid);
            }
            Some(RemoteMessage::TripleUid(uid))
        } else if tag == 3 {
            Some(RemoteMessage::ReadError)
        } else if tag == 4 {
            Some(RemoteMessage::ReaderFault)
        } else if tag == 5 {
            Some(RemoteMessage::JustReset)
        } else if tag == 6 {
            Some(RemoteMessage::KeepAlive)
        } else {
            None
        }
    }

    /// Decodes the stuffed bytes of one frame, up to its delimiter if it
    /// holds one.
    pub fn from_stuffed(stuffed: &[u8]) -> (out: Option<RemoteMessage>)
        ensures
            out == decode_remote(stuffed@),
    {
        match unstuff_bytes(stuffed) {
            None => None,
            Some(body) => RemoteMessage::from_body(body.as_slice()),
        }
    }
}

impl MainMessage {
    /// Writes the tagged body of the message.
    pub fn to_body(&self) -> (out: Vec<u8>)
        ensures
            out@ == self.body(),
            out@.len() == 1,
    {
        let mut out: Vec<u8> = Vec::new();
        match self {
            MainMessage::AccessGranted => {
                out.push(0);
            },
            MainMessage::AccessDenied => {
                out.push(1);
            },
            MainMessage::AwaitingCard => {
                out.push(2);
            },
        }
        assert(out@ =~= self.body());
        out
    }

    /// Writes the message as one frame, delimiter included.
    pub fn to_frame(&self) -> (out: Vec<u8>)
        ensures
            out@ == frame_of(self.body()),
            out@.len() <= MAX_FRAME_LEN,
            decode_main(out@) == Some(*self),
    {
        let body = self.to_body();
        let mut out = stuff_bytes(body.as_slice());
        out.push(DELIMITER);
        proof {
            lemma_main_round_trip(*self);
        }
        out
    }

    /// Parses a tagged body; `None` where the tag is malformed or unknown.
    pub fn from_body(body: &[u8]) -> (out: Option<MainMessage>)
        ensures
            out == parse_main(body@),
    {
        let (tag, _used) = match take_tag(body) {
            None => {
                return None;
            },
            Some(pair) => pair,
        };
        if tag == 0 {
            Some(MainMessage::AccessGranted)
        } else if tag == 1 {
            Some(MainMessage::AccessDenied)
        } else if tag == 2 {
            Some(MainMessage::AwaitingCard)
        } else {
            None
        }
    }

    /// Decodes the stuffed bytes of one frame, up to its delimiter if it
    /// holds one.
    pub fn from_stuffed(stuffed: &[u8]) -> (out: Option<MainMessage>)
        ensures
            out == decode_main(stuffed@),
    {
        match unstuff_bytes(stuffed) {
            None => None,
            Some(body) => MainMessage::from_body(body.as_slice()),
        }
    }
}

fn weight(i: usize) -> (w: u64)
    requires
        i < 5,
    ensures
        w == varint_weight(i as int),
{
    if i == 0 {
        1
    } else if i == 1 {
        128
    } else if i == 2 {
        16384
    } else if i == 3 {
        2097152
    } else {
        268435456
    }
}

/// Reads the tag at the head of `body`.
fn take_tag(body: &[u8]) -> (out: Option<(u64, usize)>)
    ensures
        match out {
            None => read_tag(body@) is None,
            Some((tag, used)) => read_tag(body@) == Some((tag as int, used as int)) && 1 <= used
                <= 5 && used <= body@.len(),
        },
{
    let mut acc: u64 = 0;
    let mut i: usize = 0;
    while i < 5 && i < body.len()
        invariant
            i <= 5,
            i <= body@.len(),
            acc <= i * 127 * 268435456,
            read_tag(body@) == varint_from(body@, i as int, acc as int),
        decreases 5 - i,
    {
        let byte = body[i];
        let w = weight(i);
        assert((byte % 128) * w <= 127 * 268435456) by (nonlinear_arith)
            requires
                byte % 128 <= 127,
                w <= 268435456,
        ;
        let value = acc + (byte % 128) as u64 * w;
        if byte < 128 {
            if i == 4 && byte > 15 {
                return None;
            }
            return Some((value, i + 1));
        }
        acc = value;
        i += 1;
    }
    None
}

} // verus!
