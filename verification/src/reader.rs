//! The connection reader: one per connection, it turns what its socket yields
//! into messages for the relay loop until the connection fails.

use crate::frame::{decode, decode_spec};
use crate::poll::{ReadOutcome, POLL_INTERVAL_MS};
use crate::user::Message;
use vstd::prelude::*;
use vstd::utf8::*;

verus! {

/// Where a reader stands. `Closed` is final.
#[derive(Clone, Copy, Debug, PartialEq, Eq)]
pub enum ReaderState {
    Active,
    Closed,
}

/// What the reader's loop does after one read.
#[derive(Debug, PartialEq, Eq)]
pub enum ReaderAction {
    /// Hand the message to the relay loop, then rest. Should the hand-over
    /// fail, that is noted and the reader goes on.
    Forward(Message),
    /// The frame was not UTF-8: drop it and read again.
    Discard,
    /// Nothing arrived: rest, then read again.
    Wait,
    /// The connection is gone: end the loop.
    Stop,
}

/// The state after a reader in `state` has seen `outcome`: only a failed read
/// closes a reader, and a closed reader stays closed.
pub open spec fn reader_next(state: ReaderState, outcome: ReadOutcome) -> ReaderState {
    if state is Closed || outcome is Failed {
        ReaderState::Closed
    } else {
        ReaderState::Active
    }
}

/// How long the loop rests after `action`, in milliseconds.
pub open spec fn reader_delay(action: ReaderAction) -> u64 {
    match action {
        ReaderAction::Forward(_) | ReaderAction::Wait => POLL_INTERVAL_MS,
        ReaderAction::Discard | ReaderAction::Stop => 0,
    }
}

impl ReaderAction {
    /// How long the loop rests after this action, in milliseconds: one polling
    /// interval after a message or an idle read, nothing otherwise.
    pub fn delay_ms(&self) -> (ms: u64)
        ensures
            ms == reader_delay(*self),
    {
        match self {
            ReaderAction::Forward(_) | ReaderAction::Wait => POLL_INTERVAL_MS,
            ReaderAction::Discard | ReaderAction::Stop => 0,
        }
    }
}

/// One step of the reader of user `user_id`: from its state and the outcome of
/// a read to its next state and what to do.
///
/// An active reader forwards the text of a frame that decodes, under its user's
/// identifier (in UTF-8 the text is no longer than the frame); drops a frame that does not; waits when nothing is there; and
/// closes when the read has failed. A closed reader only ever stops.
pub fn read_to_transfer(state: ReaderState, user_id: u128, outcome: ReadOutcome) -> (step: (
    ReaderState,
    ReaderAction,
))
    ensures
        step.0 == reader_next(state, outcome),
        match (state, outcome) {
            (ReaderState::Closed, _) => step.1 is Stop,
            (ReaderState::Active, ReadOutcome::Failed) => step.1 is Stop,
            (ReaderState::Active, ReadOutcome::WouldBlock) => step.1 is Wait,
            (ReaderState::Active, ReadOutcome::Frame(bytes)) => match decode_spec(bytes@) {
                Ok(text) => step.1 matches ReaderAction::Forward(m) && m.id == user_id
                    && m.message@ == text && encode_utf8(m.message@).len() <= bytes@.len(),
                Err(_) => step.1 is Discard,
            },
        },
{
    match state {
        ReaderState::Closed => (ReaderState::Closed, ReaderAction::Stop),
        ReaderState::Active => match outcome {
            ReadOutcome::Frame(bytes) => match decode(bytes.as_slice()) {
                Ok(message) => (
                    ReaderState::Active,
                    ReaderAction::Forward(Message { id: user_id, message }),
                ),
                Err(_) => (ReaderState::Active, ReaderAction::Discard),
            },
            ReadOutcome::WouldBlock => (ReaderState::Active, ReaderAction::Wait),
            ReadOutcome::Failed => (ReaderState::Closed, ReaderAction::Stop),
        },
    }
}

} // verus!
