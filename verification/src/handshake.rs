//! The handshake: before a connection joins the chat, it is asked for a name.
//!
//! The server writes the prompt and then polls the connection, one read after
//! another, until a frame brings a name that can be used or the connection
//! fails. `get_username` decides what each read means.

use crate::frame::{decode, decode_spec};
use crate::poll::{ReadOutcome, POLL_INTERVAL_MS};
use crate::text::{blank, is_blank};
use vstd::prelude::*;

verus! {

/// What the server writes to a new connection before it reads the name. It is
/// written as it stands, not as a frame. It reads "user name", followed by a
/// full-width colon.
pub const USERNAME_PROMPT: &'static str = "\u{7528}\u{6237}\u{540d}\u{ff1a}";

/// What the handshake does after one read.
#[derive(Debug, PartialEq, Eq)]
pub enum HandshakeStep {
    /// The frame named the user: the handshake is over.
    Accepted(String),
    /// The frame was not UTF-8, or the name in it was blank: read again.
    Retry,
    /// Nothing arrived: rest, then read again.
    Wait,
    /// The connection failed before it gave a name: drop it.
    Rejected,
}

/// The name that a read offers: the text of a frame that decodes to something
/// other than a blank.
pub open spec fn offered_name(outcome: ReadOutcome) -> Option<Seq<char>> {
    match outcome {
        ReadOutcome::Frame(bytes) => match decode_spec(bytes@) {
            Ok(name) => if is_blank(name) {
                None
            } else {
                Some(name)
            },
            Err(_) => None,
        },
        _ => None,
    }
}

/// The name that a handshake ends with when its reads come to `outcomes`, in
/// this order: the first name offered, unless the connection fails before;
/// none while neither has happened.
pub open spec fn handshake_name(outcomes: Seq<ReadOutcome>) -> Option<Seq<char>>
    decreases outcomes.len(),
{
    if outcomes.len() == 0 || outcomes[0] is Failed {
        None
    } else if offered_name(outcomes[0]) is Some {
        offered_name(outcomes[0])
    } else {
        handshake_name(outcomes.drop_first())
    }
}

/// How long the handshake rests after `step`, in milliseconds.
pub open spec fn handshake_delay(step: HandshakeStep) -> u64 {
    if step is Wait {
        POLL_INTERVAL_MS
    } else {
        0
    }
}

impl HandshakeStep {
    /// How long the handshake rests after this step, in milliseconds: one
    /// polling interval after an idle read, nothing otherwise.
    pub fn delay_ms(&self) -> (ms: u64)
        ensures
            ms == handshake_delay(*self),
    {
        match self {
            HandshakeStep::Wait => POLL_INTERVAL_MS,
            _ => 0,
        }
    }
}

/// One step of the handshake: what the outcome of a read means for it.
///
/// A frame that decodes to a name that is not blank ends the handshake with
/// that name, unchanged. Any other frame is passed over. An idle read means
/// waiting, a failed one that the connection is dropped without a name.
pub fn get_username(outcome: ReadOutcome) -> (step: HandshakeStep)
    ensures
        match outcome {
            ReadOutcome::Failed => step is Rejected,
            ReadOutcome::WouldBlock => step is Wait,
            ReadOutcome::Frame(_) => match offered_name(outcome) {
                Some(name) => step matches HandshakeStep::Accepted(username) && username@ == name,
                None => step is Retry,
            },
        },
        step matches HandshakeStep::Accepted(username) ==> !is_blank(username@),
{
    match outcome {
        ReadOutcome::Frame(bytes) => match decode(bytes.as_slice()) {
            Ok(username) => {
                if blank(username.as_str()) {
                    HandshakeStep::Retry
                } else {
                    HandshakeStep::Accepted(username)
                }
            },
            Err(_) => HandshakeStep::Retry,
        },
        ReadOutcome::WouldBlock => HandshakeStep::Wait,
        ReadOutcome::Failed => HandshakeStep::Rejected,
    }
}

/// Handshake rejection: a connection that offers no name before it fails, or
/// never offers one, ends without a name. So it is never registered.
pub proof fn lemma_handshake_rejection(outcomes: Seq<ReadOutcome>, end: int)
    requires
        0 <= end <= outcomes.len(),
        forall|i: int| 0 <= i < end ==> offered_name(outcomes[i]) is None,
        end < outcomes.len() ==> outcomes[end] is Failed,
    ensures
        handshake_name(outcomes) is None,
    decreases end,
{
    if end > 0 && !(outcomes[0] is Failed) {
        let rest = outcomes.drop_first();
        assert(offered_name(outcomes[0]) is None);
        assert forall|i: int| 0 <= i < end - 1 implies offered_name(#[trigger] rest[i]) is None by {
            assert(rest[i] == outcomes[i + 1]);
        }
        lemma_handshake_rejection(rest, end - 1);
    }
}

/// The name a handshake ends with is never blank, and it is the name that one
/// of the reads offered, all reads before it having offered none.
pub proof fn lemma_handshake_name(outcomes: Seq<ReadOutcome>)
    ensures
        handshake_name(outcomes) matches Some(name) ==> !is_blank(name) && exists|k: int|
            0 <= k < outcomes.len() && offered_name(#[trigger] outcomes[k]) == Some(name),
    decreases outcomes.len(),
{
    if !(outcomes.len() == 0 || outcomes[0] is Failed) {
        if offered_name(outcomes[0]) is Some {
        } else {
            let rest = outcomes.drop_first();
            lemma_handshake_name(rest);
            if handshake_name(rest) is Some {
                let name = handshake_name(rest)->0;
                let k = choose|k: int|
                    0 <= k < rest.len() && offered_name(#[trigger] rest[k]) == Some(name);
                assert(outcomes[k + 1] == rest[k]);
            }
        }
    }
}

} // verus!
