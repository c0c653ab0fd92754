//! The directly attached reader: what to do after each poll.

use vstd::prelude::*;
use crate::identity::{digest_uid, md5_digest};
use crate::main_task::CardReaderEvent;

verus! {

/// Time between two polls, in milliseconds.
pub const POLL_INTERVAL_MS: u64 = 100;

/// Time before a reader that failed to initialise is tried again, in
/// milliseconds.
pub const INIT_RETRY_MS: u64 = 10_000;

/// Time for which the reset line is held low, in milliseconds.
pub const RESET_PULSE_MS: u64 = 250;

/// The UID of a card, at one of the three cascade levels.
#[derive(Debug, PartialEq, Eq, Clone, Copy)]
pub enum CardUid {
    Single([u8; 4]),
    Double([u8; 7]),
    Triple([u8; 10]),
}

/// How one poll of the reader ended.
#[derive(Debug, PartialEq, Eq, Clone, Copy)]
pub enum ReaderPoll {
    /// The reader did not initialise after its reset.
    InitFailed,
    /// No card answered the wake-up.
    NoCard,
    /// A card answered but could not be selected.
    SelectFailed,
    /// A card was selected.
    Card(CardUid),
}

/// What follows a poll.
#[derive(Debug, PartialEq, Eq, Clone, Copy)]
pub struct ReaderPlan {
    /// The card read to publish, if any.
    pub publish: Option<CardReaderEvent>,
    /// How long to wait before the next step, in milliseconds.
    pub wait_ms: u64,
    /// Where the next step is a reset and initialisation rather than a
    /// poll: the time for which the reset line is held low, in
    /// milliseconds.
    pub reset_pulse_ms: Option<u64>,
}

impl CardUid {
    /// The bytes of the UID.
    pub open spec fn bytes(self) -> Seq<u8> {
        match self {
            CardUid::Single(uid) => uid@,
            CardUid::Double(uid) => uid@,
            CardUid::Triple(uid) => uid@,
        }
    }

    /// The digest of the UID.
    pub fn digest(&self) -> (digest: [u8; 16])
        ensures
            digest@ == md5_digest(self.bytes()),
    {
        match self {
            CardUid::Single(uid) => digest_uid(uid.as_slice()),
            CardUid::Double(uid) => digest_uid(uid.as_slice()),
            CardUid::Triple(uid) => digest_uid(uid.as_slice()),
        }
    }
}

/// Decides what follows one poll of the attached reader. A selected card
/// is published and the reader polled again after the poll interval; a
/// poll without a card, or with one that could not be selected, publishes
/// nothing. A reader that failed to initialise is left alone for ten
/// seconds and then reset, the reset line held low for a quarter of a
/// second.
pub fn local_cardreader_task(poll: &ReaderPoll) -> (plan: ReaderPlan)
    ensures
        plan.wait_ms == if *poll is InitFailed {
            INIT_RETRY_MS
        } else {
            POLL_INTERVAL_MS
        },
        plan.reset_pulse_ms == if *poll is InitFailed {
            Some(RESET_PULSE_MS)
        } else {
            None
        },
        match *poll {
            ReaderPoll::Card(uid) => plan.publish matches Some(CardReaderEvent::CardMD5(d)) && d@
                == md5_digest(uid.bytes()),
            _ => plan.publish is None,
        },
{
    match poll {
        ReaderPoll::InitFailed => ReaderPlan {
            publish: None,
            wait_ms: INIT_RETRY_MS,
            reset_pulse_ms: Some(RESET_PULSE_MS),
        },
        ReaderPoll::NoCard => ReaderPlan {
            publish: None,
            wait_ms: POLL_INTERVAL_MS,
            reset_pulse_ms: None,
        },
        ReaderPoll::SelectFailed => ReaderPlan {
            publish: None,
            wait_ms: POLL_INTERVAL_MS,
            reset_pulse_ms: None,
        },
        ReaderPoll::Card(uid) => ReaderPlan {
            publish: Some(CardReaderEvent::CardMD5(uid.digest())),
            wait_ms: POLL_INTERVAL_MS,
            reset_pulse_ms: None,
        },
    }
}

/// The polling loop of the attached reader, one poll at a time.
pub struct LocalCardreaderTaskRunner {}

impl LocalCardreaderTaskRunner {
    /// A polling loop.
    pub fn new() -> LocalCardreaderTaskRunner {
        LocalCardreaderTaskRunner {  }
    }

    /// Decides what follows one poll, as [`local_cardreader_task`] does.
    pub fn run(&mut self, poll: &ReaderPoll) -> (plan: ReaderPlan)
        ensures
            plan.wait_ms == if *poll is InitFailed {
                INIT_RETRY_MS
            } else {
                POLL_INTERVAL_MS
            },
            plan.reset_pulse_ms == if *poll is InitFailed {
            Some(RESET_PULSE_MS)
        } else {
            None
        },
            match *poll {
                ReaderPoll::Card(uid) => plan.publish matches Some(CardReaderEvent::CardMD5(d))
                    && d@ == md5_digest(uid.bytes()),
                _ => plan.publish is None,
            },
    {
        local_cardreader_task(poll)
    }
}

} // verus!
