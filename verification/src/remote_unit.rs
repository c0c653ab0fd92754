//! The remote reader unit: what it sends after each poll of its reader,
//! and what it shows when the main unit answers.

use vstd::prelude::*;
use crate::cobs::{lemma_stuff_len, stuff};
use crate::local_cardreader_task::{CardUid, ReaderPoll, RESET_PULSE_MS};
use crate::remote_cardreader_task::{collect, FrameReader, LinkInput, RemoteError};
use crate::uart_protocol::{
    decode_main, frame_of, lemma_main_round_trip, MainMessage, RemoteMessage, MAX_FRAME_LEN,
};

verus! {

/// Time between two polls that found no card, in milliseconds.
pub const IDLE_POLL_MS: u64 = 100;

/// Number of idle polls after which a keep-alive is sent.
pub const KEEPALIVE_POLLS: u8 = 10;

/// Time for which the "card read" indicator is on, and then off, after a
/// card, in milliseconds.
pub const CARD_FLASH_MS: u64 = 100;

/// Pause after a card before the reader is polled again, in milliseconds.
pub const DELAY_BETWEEN_READS_MS: u64 = 2000;

/// Time before a reader that failed to initialise is tried again, in
/// milliseconds.
pub const FAULT_RETRY_MS: u64 = 500;

/// One thing for the remote unit to do.
#[derive(Debug, PartialEq, Eq, Clone, Copy)]
pub enum RemoteAction {
    /// Send the message to the main unit.
    Send(RemoteMessage),
    /// Drive the "card read" indicator.
    CardLed(bool),
    /// Do nothing for this many milliseconds.
    Wait(u64),
    /// Reset the reader, holding its reset line low for this many
    /// milliseconds, and initialise it before the next poll.
    Reinitialise(u64),
}

/// What the two status indicators are to show; `None` leaves one as it is.
#[derive(Debug, PartialEq, Eq, Clone, Copy)]
pub struct StatusLeds {
    pub green: Option<bool>,
    pub red: Option<bool>,
}

/// The polling loop of the remote unit.
pub struct RemoteUnit {
    idle_polls: u8,
}

/// The message that reports a poll which met a card: its UID, or a read
/// error where it could not be selected.
pub open spec fn report(poll: ReaderPoll) -> RemoteMessage {
    match poll {
        ReaderPoll::Card(CardUid::Single(uid)) => RemoteMessage::SingleUid(uid),
        ReaderPoll::Card(CardUid::Double(uid)) => RemoteMessage::DoubleUid(uid),
        ReaderPoll::Card(CardUid::Triple(uid)) => RemoteMessage::TripleUid(uid),
        _ => RemoteMessage::ReadError,
    }
}

/// What follows a poll, and the count of idle polls afterwards. A card,
/// read or not, is reported at once, the indicator flashes, and the reader
/// rests for two seconds. Every tenth idle poll sends a keep-alive. A
/// reader that failed to initialise is reported and tried again.
pub open spec fn poll_plan(idle_polls: u8, poll: ReaderPoll) -> (u8, Seq<RemoteAction>) {
    match poll {
        ReaderPoll::InitFailed => (
            idle_polls,
            seq![
                RemoteAction::Send(RemoteMessage::ReaderFault),
                RemoteAction::Wait(FAULT_RETRY_MS),
                RemoteAction::Reinitialise(RESET_PULSE_MS),
            ],
        ),
        ReaderPoll::NoCard => if idle_polls + 1 == KEEPALIVE_POLLS {
            (
                0,
                seq![
                    RemoteAction::Wait(IDLE_POLL_MS),
                    RemoteAction::Send(RemoteMessage::KeepAlive),
                ],
            )
        } else {
            ((idle_polls + 1) as u8, seq![RemoteAction::Wait(IDLE_POLL_MS)])
        },
        _ => (
            idle_polls,
            seq![
                RemoteAction::Send(report(poll)),
                RemoteAction::CardLed(true),
                RemoteAction::Wait(CARD_FLASH_MS),
                RemoteAction::CardLed(false),
                RemoteAction::Wait(CARD_FLASH_MS),
                RemoteAction::Wait(DELAY_BETWEEN_READS_MS),
            ],
        ),
    }
}

/// What the status indicators show for what the link delivered: green for
/// a grant, red for a denial, both off while a card is awaited, and no
/// change on an error.
pub open spec fn shown(received: Result<MainMessage, RemoteError>) -> StatusLeds {
    match received {
        Ok(MainMessage::AccessGranted) => StatusLeds { green: Some(true), red: None },
        Ok(MainMessage::AccessDenied) => StatusLeds { green: None, red: Some(true) },
        Ok(MainMessage::AwaitingCard) => StatusLeds { green: Some(false), red: Some(false) },
        Err(_) => StatusLeds { green: None, red: None },
    }
}

/// What one input yields on the remote unit: nothing while the frame is
/// under way, then the message or the error.
pub open spec fn read_step(pending: Seq<u8>, input: LinkInput) -> (
    Seq<u8>,
    Option<Result<MainMessage, RemoteError>>,
) {
    match collect(pending, input) {
        (rest, None) => (rest, None),
        (rest, Some(Err(e))) => (rest, Some(Err(e))),
        (rest, Some(Ok(stuffed))) => (
            rest,
            Some(
                match decode_main(stuffed) {
                    Some(message) => Ok(message),
                    None => Err(RemoteError::PostcardError),
                },
            ),
        ),
    }
}

impl RemoteUnit {
    /// Number of idle polls since the last keep-alive.
    pub closed spec fn idle_polls(self) -> u8 {
        self.idle_polls
    }

    #[verifier::type_invariant]
    spec fn counts_below_keepalive(self) -> bool {
        self.idle_polls < KEEPALIVE_POLLS
    }

    /// A unit that has just started.
    pub fn new() -> (unit: RemoteUnit)
        ensures
            unit.idle_polls() == 0,
    {
        RemoteUnit { idle_polls: 0 }
    }

    /// The message that announces a start, after power-up or a reset.
    pub fn startup_message() -> (message: RemoteMessage)
        ensures
            message == RemoteMessage::JustReset,
    {
        RemoteMessage::JustReset
    }

    /// Decides what follows one poll of the reader.
    pub fn step(&mut self, poll: &ReaderPoll) -> (actions: Vec<RemoteAction>)
        ensures
            (final(self).idle_polls(), actions@) == poll_plan(old(self).idle_polls(), *poll),
    {
        proof {
            use_type_invariant(&*self);
        }
        let mut actions: Vec<RemoteAction> = Vec::new();
        match poll {
            ReaderPoll::InitFailed => {
                actions.push(RemoteAction::Send(RemoteMessage::ReaderFault));
                actions.push(RemoteAction::Wait(FAULT_RETRY_MS));
                actions.push(RemoteAction::Reinitialise(RESET_PULSE_MS));
            },
            ReaderPoll::NoCard => {
                actions.push(RemoteAction::Wait(IDLE_POLL_MS));
                if self.idle_polls + 1 == KEEPALIVE_POLLS {
                    actions.push(RemoteAction::Send(RemoteMessage::KeepAlive));
                    self.idle_polls = 0;
                } else {
                    self.idle_polls = self.idle_polls + 1;
                }
            },
            _ => {
                let message = match poll {
                    ReaderPoll::Card(CardUid::Single(uid)) => RemoteMessage::SingleUid(*uid),
                    ReaderPoll::Card(CardUid::Double(uid)) => RemoteMessage::DoubleUid(*uid),
                    ReaderPoll::Card(CardUid::Triple(uid)) => RemoteMessage::TripleUid(*uid),
                    _ => RemoteMessage::ReadError,
                };
                actions.push(RemoteAction::Send(message));
                actions.push(RemoteAction::CardLed(true));
                actions.push(RemoteAction::Wait(CARD_FLASH_MS));
                actions.push(RemoteAction::CardLed(false));
                actions.push(RemoteAction::Wait(CARD_FLASH_MS));
                actions.push(RemoteAction::Wait(DELAY_BETWEEN_READS_MS));
            },
        }
        assert(actions@ =~= poll_plan(old(self).idle_polls(), *poll).1);
        actions
    }
}

/// Reads on towards the next message of the main unit: takes one input
/// from the transport and returns the message or the error that it
/// completes, or nothing while the frame is under way.
pub fn read_message(reader: &mut FrameReader, input: LinkInput) -> (message: Option<
    Result<MainMessage, RemoteError>,
>)
    ensures
        (final(reader).pending(), message) == read_step(old(reader).pending(), input),
{
    match reader.accept(input) {
        None => None,
        Some(Err(e)) => Some(Err(e)),
        Some(Ok(stuffed)) => match MainMessage::from_stuffed(stuffed.as_slice()) {
            Some(message) => Some(Ok(message)),
            None => Some(Err(RemoteError::PostcardError)),
        },
    }
}

/// Decides what the status indicators show for what the link delivered.
pub fn led_task(received: &Result<MainMessage, RemoteError>) -> (leds: StatusLeds)
    ensures
        leds == shown(*received),
{
    match received {
        Ok(MainMessage::AccessGranted) => StatusLeds { green: Some(true), red: None },
        Ok(MainMessage::AccessDenied) => StatusLeds { green: None, red: Some(true) },
        Ok(MainMessage::AwaitingCard) => StatusLeds { green: Some(false), red: Some(false) },
        Err(_) => StatusLeds { green: None, red: None },
    }
}

/// A frame is read back as the message it was made from: fed byte by byte
/// to a reader that stands between frames, every byte before the delimiter
/// is collected without a result, and the delimiter yields the message and
/// leaves the reader between frames.
pub proof fn lemma_frame_is_read_back(m: MainMessage)
    ensures
        ({
            let frame = frame_of(m.body());
            let n = frame.len() - 1;
            &&& 1 <= n < MAX_FRAME_LEN
            &&& forall|i: int|
                0 <= i < n ==> #[trigger] read_step(frame.take(i), LinkInput::Byte(frame[i])) == (
                    frame.take(i + 1),
                    None::<Result<MainMessage, RemoteError>>,
                )
            &&& read_step(frame.take(n), LinkInput::Byte(frame[n])) == (
                Seq::<u8>::empty(),
                Some(Ok::<MainMessage, RemoteError>(m)),
            )
        }),
{
    let frame = frame_of(m.body());
    let n = frame.len() - 1;
    lemma_main_round_trip(m);
    lemma_stuff_len(m.body());
    assert(frame.take(n) =~= stuff(m.body()));
    assert forall|i: int| 0 <= i < n implies #[trigger] read_step(
        frame.take(i),
        LinkInput::Byte(frame[i]),
    ) == (frame.take(i + 1), None::<Result<MainMessage, RemoteError>>) by {
        assert(frame[i] == stuff(m.body())[i]);
        assert(frame.take(i).push(frame[i]) =~= frame.take(i + 1));
    }
}

} // verus!
