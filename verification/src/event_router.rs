//! The slot through which the readers hand a card read to the decision
//! engine.
//!
//! The slot holds at most one read. A read that is published while another
//! still waits replaces it: the engine acts on the latest card only. The
//! telemetry queue, the router's other channel, lives with the dispatcher
//! in [`crate::log_task`].

use vstd::prelude::*;
use embassy_sync::blocking_mutex::raw::NoopRawMutex;
use embassy_sync::signal::Signal;
use crate::main_task::CardReaderEvent;

verus! {

/// The single slot for card reads: an `embassy_sync::signal::Signal`.
/// [`waiting`] names what it holds.
#[verifier::external_body]
pub struct CardReaderSignal {
    signal: Signal<NoopRawMutex, CardReaderEvent>,
}

/// The read that waits in the slot: a sequence of at most one.
pub uninterp spec fn waiting(slot: CardReaderSignal) -> Seq<CardReaderEvent>;

/// `embassy_sync::signal::Signal::new`: an empty slot.
#[verifier::external_body]
fn signal_new() -> (slot: CardReaderSignal)
    ensures
        waiting(slot).len() == 0,
{
    CardReaderSignal { signal: Signal::new() }
}

/// `embassy_sync::signal::Signal::signal`: the value takes the slot,
/// whatever waited there.
#[verifier::external_body]
fn signal_put(slot: &mut CardReaderSignal, event: CardReaderEvent)
    ensures
        waiting(*final(slot)) == seq![event],
{
    slot.signal.signal(event)
}

/// `embassy_sync::signal::Signal::try_take`: empties the slot and returns
/// what waited there.
#[verifier::external_body]
fn signal_try_take(slot: &mut CardReaderSignal) -> (event: Option<CardReaderEvent>)
    ensures
        waiting(*final(slot)).len() == 0,
        match event {
            Some(e) => waiting(*old(slot)) == seq![e],
            None => waiting(*old(slot)).len() == 0,
        },
{
    slot.signal.try_take()
}

/// `embassy_sync::signal::Signal::reset`: empties the slot.
#[verifier::external_body]
fn signal_reset(slot: &mut CardReaderSignal)
    ensures
        waiting(*final(slot)).len() == 0,
{
    slot.signal.reset()
}

impl CardReaderSignal {
    /// An empty slot.
    pub fn new() -> (slot: CardReaderSignal)
        ensures
            waiting(slot).len() == 0,
    {
        signal_new()
    }

    /// Publishes a card read. A read that still waits is overwritten.
    pub fn publish(&mut self, event: CardReaderEvent)
        ensures
            waiting(*final(self)) == seq![event],
    {
        signal_put(self, event)
    }

    /// Takes the read that waits, if one does, and leaves the slot empty.
    pub fn take(&mut self) -> (event: Option<CardReaderEvent>)
        ensures
            waiting(*final(self)).len() == 0,
            match event {
                Some(e) => waiting(*old(self)) == seq![e],
                None => waiting(*old(self)).len() == 0,
            },
    {
        signal_try_take(self)
    }

    /// Drops the read that waits, if one does. The decision engine asks
    /// for this after every decision, so that a card shown while it was
    /// busy does not act twice.
    pub fn discard(&mut self)
        ensures
            waiting(*final(self)).len() == 0,
    {
        signal_reset(self)
    }
}

} // verus!
