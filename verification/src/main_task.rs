//! The access decision engine: one card read in, a list of things to do
//! out.
//!
//! The engine owns the relay and the indicators. It never touches them
//! itself: it returns the actions, in order, and the firmware carries them
//! out one after another.

use vstd::prelude::*;
use crate::config::LatchMode;
use crate::database_task::{DatabaseTaskCommand, DatabaseTaskResponse};
use crate::identity::{format_digest, hex_lower};
use crate::log_task::{channel_try_send, queued, LogEvent, LogQueue, MAX_QUEUE_LEN};
use crate::uart_protocol::MainMessage;

verus! {

/// How long the "denied" indicator is shown, in milliseconds.
pub const DENIED_PULSE_MS: u64 = 2000;

/// A card was read; the event carries the MD5 digest of its UID.
#[derive(Debug, PartialEq, Eq, Clone, Copy)]
pub enum CardReaderEvent {
    CardMD5([u8; 16]),
}

/// Whether the relay is latched on, and by whom.
#[derive(Debug, PartialEq, Eq, Clone, Copy)]
pub enum LatchState {
    /// On; the identity is that of the card that switched it on.
    Enabled([u8; 32]),
    /// Off.
    Disabled,
}

/// One thing for the firmware to do.
#[derive(Debug, PartialEq, Eq, Clone, Copy)]
pub enum Action {
    /// Drive the relay.
    Relay(bool),
    /// Drive the "allowed" indicator.
    AllowedLed(bool),
    /// Drive the "denied" indicator.
    DeniedLed(bool),
    /// Tell the remote reader what to show.
    Notify(MainMessage),
    /// Do nothing for this many milliseconds.
    Wait(u64),
    /// Queue the event for the telemetry dispatcher.
    Log(LogEvent),
    /// Drop a card read that arrived meanwhile.
    DiscardPendingRead,
}

/// What a denied card causes, in either mode; `notify_last` says whether
/// the remote reader is told to clear its indicator after the event is
/// logged or before.
pub open spec fn denial(hash: [u8; 32], notify_last: bool) -> Seq<Action> {
    if notify_last {
        seq![
            Action::DeniedLed(true),
            Action::Notify(MainMessage::AccessDenied),
            Action::Wait(DENIED_PULSE_MS),
            Action::DeniedLed(false),
            Action::Log(LogEvent::LOGINFAIL(hash)),
            Action::Notify(MainMessage::AwaitingCard),
            Action::DiscardPendingRead,
        ]
    } else {
        seq![
            Action::DeniedLed(true),
            Action::Notify(MainMessage::AccessDenied),
            Action::Wait(DENIED_PULSE_MS),
            Action::DeniedLed(false),
            Action::Notify(MainMessage::AwaitingCard),
            Action::Log(LogEvent::LOGINFAIL(hash)),
            Action::DiscardPendingRead,
        ]
    }
}

/// The decision: the state after the card with identity `hash` has been
/// shown, and what is to be done, in order.
///
/// Latching: a valid card switches a relay that is off on, and any card
/// switches a relay that is on off; the sign-out is logged under the
/// identity that signed in. Timed: a valid card switches the relay on for
/// the configured time. An invalid card is shown the "denied" indicator for
/// two seconds. A read that arrived while all this went on is dropped.
pub open spec fn decide(state: LatchState, mode: LatchMode, hash: [u8; 32], valid: bool) -> (
    LatchState,
    Seq<Action>,
) {
    match mode {
        LatchMode::Latching => match state {
            LatchState::Disabled => if valid {
                (
                    LatchState::Enabled(hash),
                    seq![
                        Action::Relay(true),
                        Action::AllowedLed(true),
                        Action::Log(LogEvent::ACTIVATED(hash)),
                        Action::Notify(MainMessage::AccessGranted),
                        Action::DiscardPendingRead,
                    ],
                )
            } else {
                (LatchState::Disabled, denial(hash, true))
            },
            LatchState::Enabled(owner) => (
                LatchState::Disabled,
                seq![
                    Action::Relay(false),
                    Action::AllowedLed(false),
                    Action::Log(LogEvent::DEACTIVATED(owner)),
                    Action::Notify(MainMessage::AwaitingCard),
                    Action::DiscardPendingRead,
                ],
            ),
        },
        LatchMode::Timed(duration_ms) => if valid {
            (
                state,
                seq![
                    Action::Relay(true),
                    Action::AllowedLed(true),
                    Action::Notify(MainMessage::AccessGranted),
                    Action::Wait(duration_ms),
                    Action::Relay(false),
                    Action::AllowedLed(false),
                    Action::Notify(MainMessage::AwaitingCard),
                    Action::Log(LogEvent::ACTIVATED(hash)),
                    Action::DiscardPendingRead,
                ],
            )
        } else {
            (state, denial(hash, false))
        },
    }
}

/// Milliseconds that the first `i` actions wait.
pub open spec fn waited(actions: Seq<Action>, i: int) -> int
    decreases i,
{
    if i <= 0 {
        0
    } else {
        waited(actions, i - 1) + match actions[i - 1] {
            Action::Wait(ms) => ms as int,
            _ => 0,
        }
    }
}

/// The level of the relay `t` milliseconds after the firmware has begun
/// with `actions`, counting the first `i` of them; `level` is the level
/// before. Only waits take time.
pub open spec fn relay_upto(actions: Seq<Action>, level: bool, t: int, i: int) -> bool
    decreases i,
{
    if i <= 0 {
        level
    } else {
        match actions[i - 1] {
            Action::Relay(on) => if waited(actions, i - 1) <= t {
                on
            } else {
                relay_upto(actions, level, t, i - 1)
            },
            _ => relay_upto(actions, level, t, i - 1),
        }
    }
}

/// The level of the relay `t` milliseconds after the firmware has begun
/// with `actions`.
pub open spec fn relay_at(actions: Seq<Action>, level: bool, t: int) -> bool {
    relay_upto(actions, level, t, actions.len() as int)
}

/// The level of the relay once all of `actions` are done.
pub open spec fn relay_after(actions: Seq<Action>, level: bool) -> bool {
    relay_at(actions, level, waited(actions, actions.len() as int))
}

/// Latching mode: a valid card `a` switches the relay on and leaves the
/// latch enabled by `a`; the next card, valid or not, switches the relay
/// off, leaves the latch disabled, and the sign-out that is logged carries
/// `a`.
pub proof fn lemma_latching_sign_in_then_out(a: [u8; 32], b: [u8; 32], b_valid: bool)
    ensures
        ({
            let (enabled, first) = decide(LatchState::Disabled, LatchMode::Latching, a, true);
            let (disabled, second) = decide(enabled, LatchMode::Latching, b, b_valid);
            &&& enabled == LatchState::Enabled(a)
            &&& relay_after(first, false)
            &&& disabled == LatchState::Disabled
            &&& !relay_after(second, true)
            &&& second[2] == Action::Log(LogEvent::DEACTIVATED(a))
            &&& forall|i: int|
                0 <= i < second.len() && second[i] is Log ==> second[i] == Action::Log(
                    LogEvent::DEACTIVATED(a),
                )
        }),
{
    reveal_with_fuel(waited, 6);
    reveal_with_fuel(relay_upto, 6);
}

/// Timed mode: a valid card switches the relay on at once and off after
/// exactly the configured time, and the latch state is what it was.
pub proof fn lemma_timed_activation(state: LatchState, duration_ms: u64, hash: [u8; 32], t: int)
    requires
        0 <= t,
    ensures
        ({
            let (after, actions) = decide(state, LatchMode::Timed(duration_ms), hash, true);
            &&& after == state
            &&& relay_at(actions, false, t) == (t < duration_ms)
            &&& !relay_after(actions, false)
        }),
{
    reveal_with_fuel(waited, 10);
    reveal_with_fuel(relay_upto, 10);
}

/// Latching mode: after every decision the relay is on exactly if the latch
/// is enabled, given that this held before.
pub proof fn lemma_relay_follows_latch(state: LatchState, hash: [u8; 32], valid: bool)
    ensures
        ({
            let (after, actions) = decide(state, LatchMode::Latching, hash, valid);
            relay_after(actions, state is Enabled) == (after is Enabled)
        }),
{
    reveal_with_fuel(waited, 8);
    reveal_with_fuel(relay_upto, 8);
}

/// Every decision logs exactly one event and ends by dropping the read
/// that may have arrived meanwhile.
pub proof fn lemma_decision_shape(state: LatchState, mode: LatchMode, hash: [u8; 32], valid: bool)
    ensures
        ({
            let actions = decide(state, mode, hash, valid).1;
            &&& actions.len() > 0
            &&& actions.last() == Action::DiscardPendingRead
            &&& exists|i: int|
                0 <= i < actions.len() && actions[i] is Log && forall|j: int|
                    0 <= j < actions.len() && actions[j] is Log ==> j == i
        }),
{
    let actions = decide(state, mode, hash, valid).1;
    let i: int = match mode {
        LatchMode::Latching => match state {
            LatchState::Disabled => if valid {
                2
            } else {
                4
            },
            LatchState::Enabled(_) => 2,
        },
        LatchMode::Timed(_) => if valid {
            7
        } else {
            5
        },
    };
    assert(actions[i] is Log);
    assert(forall|j: int| 0 <= j < actions.len() && actions[j] is Log ==> j == i);
}

/// An invalid card never moves the relay or the latch while the latch is
/// off, in either mode.
pub proof fn lemma_denied_card_changes_nothing(mode: LatchMode, hash: [u8; 32], t: int)
    requires
        0 <= t,
    ensures
        ({
            let (after, actions) = decide(LatchState::Disabled, mode, hash, false);
            &&& after == LatchState::Disabled
            &&& !relay_at(actions, false, t)
            &&& forall|i: int| 0 <= i < actions.len() ==> !(actions[i] is Relay)
        }),
{
    reveal_with_fuel(waited, 8);
    reveal_with_fuel(relay_upto, 8);
}

/// The query that a card read puts to the store: is the identity that the
/// digest spells a key?
pub fn card_query(event: &CardReaderEvent) -> (command: DatabaseTaskCommand)
    ensures
        match *event {
            CardReaderEvent::CardMD5(digest) => command matches DatabaseTaskCommand::CheckMD5Hash(
                hash,
            ) && hash@ == hex_lower(digest@),
        },
{
    match event {
        CardReaderEvent::CardMD5(digest) => DatabaseTaskCommand::CheckMD5Hash(
            format_digest(digest),
        ),
    }
}

fn push_denial(actions: &mut Vec<Action>, hash: [u8; 32], notify_last: bool)
    requires
        old(actions)@.len() == 0,
    ensures
        final(actions)@ == denial(hash, notify_last),
{
    actions.push(Action::DeniedLed(true));
    actions.push(Action::Notify(MainMessage::AccessDenied));
    actions.push(Action::Wait(DENIED_PULSE_MS));
    actions.push(Action::DeniedLed(false));
    if notify_last {
        actions.push(Action::Log(LogEvent::LOGINFAIL(hash)));
        actions.push(Action::Notify(MainMessage::AwaitingCard));
    } else {
        actions.push(Action::Notify(MainMessage::AwaitingCard));
        actions.push(Action::Log(LogEvent::LOGINFAIL(hash)));
    }
    actions.push(Action::DiscardPendingRead);
    assert(actions@ =~= denial(hash, notify_last));
}

/// Decides on one card read. `hash` is the identity that was looked up and
/// `response` the store's answer; only `Found` makes the card valid.
pub fn main_task(
    latch_state: &mut LatchState,
    mode: LatchMode,
    hash: [u8; 32],
    response: DatabaseTaskResponse,
) -> (actions: Vec<Action>)
    ensures
        (*final(latch_state), actions@) == decide(
            *old(latch_state),
            mode,
            hash,
            response == DatabaseTaskResponse::Found,
        ),
{
    let card_valid = match response {
        DatabaseTaskResponse::Found => true,
        _ => false,
    };
    let mut actions: Vec<Action> = Vec::new();
    match mode {
        LatchMode::Latching => {
            match *latch_state {
                LatchState::Disabled => {
                    if card_valid {
                        actions.push(Action::Relay(true));
                        actions.push(Action::AllowedLed(true));
                        *latch_state = LatchState::Enabled(hash);
                        actions.push(Action::Log(LogEvent::ACTIVATED(hash)));
                        actions.push(Action::Notify(MainMessage::AccessGranted));
                        actions.push(Action::DiscardPendingRead);
                    } else {
                        push_denial(&mut actions, hash, true);
                    }
                },
                LatchState::Enabled(owner) => {
                    actions.push(Action::Relay(false));
                    actions.push(Action::AllowedLed(false));
                    *latch_state = LatchState::Disabled;
                    actions.push(Action::Log(LogEvent::DEACTIVATED(owner)));
                    actions.push(Action::Notify(MainMessage::AwaitingCard));
                    actions.push(Action::DiscardPendingRead);
                },
            }
        },
        LatchMode::Timed(duration_ms) => {
            if card_valid {
                actions.push(Action::Relay(true));
                actions.push(Action::AllowedLed(true));
                actions.push(Action::Notify(MainMessage::AccessGranted));
                actions.push(Action::Wait(duration_ms));
                actions.push(Action::Relay(false));
                actions.push(Action::AllowedLed(false));
                actions.push(Action::Notify(MainMessage::AwaitingCard));
                actions.push(Action::Log(LogEvent::ACTIVATED(hash)));
                actions.push(Action::DiscardPendingRead);
            } else {
                push_denial(&mut actions, hash, false);
            }
        },
    }
    assert(actions@ =~= decide(
        *old(latch_state),
        mode,
        hash,
        response == DatabaseTaskResponse::Found,
    ).1);
    actions
}

/// Hands an event to the telemetry queue. An event that finds the queue
/// full is lost; the result says whether it was taken.
pub fn queue_log_message(queue: &mut LogQueue, e: LogEvent) -> (queued_now: bool)
    ensures
        queued_now == (queued(*old(queue)).len() < MAX_QUEUE_LEN),
        queued_now ==> queued(*final(queue)) == queued(*old(queue)).push(e),
        !queued_now ==> queued(*final(queue)) == queued(*old(queue)),
{
    channel_try_send(queue, e)
}

} // verus!
