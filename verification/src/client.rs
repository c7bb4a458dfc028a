//! The client's decisions: what a typed line means, what a read from the
//! server means, and what to do with the lines that wait to be sent.

use crate::frame::{decode, decode_spec, encode, frame_of};
use crate::poll::ReadOutcome;
use crate::text::{is_blank, lemma_trimmed_empty_iff_blank, trimmed};
use vstd::prelude::*;
use vstd::string::*;

verus! {

/// The word that ends the client.
pub open spec fn quit_word() -> Seq<char> {
    seq!['q', 'u', 'i', 't']
}

/// What the input loop does with one typed line.
#[derive(Debug, PartialEq, Eq)]
pub enum InputAction {
    /// A blank line: nothing is sent and the loop goes on.
    Ignore,
    /// The line was `quit`: the loop ends and nothing is sent.
    Quit,
    /// Hand this text to the sender. If that fails, the loop ends.
    Send(String),
}

/// What the socket loop does after one read from the server.
#[derive(Debug, PartialEq, Eq)]
pub enum Incoming {
    /// Show this text to the user.
    Show(String),
    /// The frame was not UTF-8: drop it and go on.
    Skip,
    /// Nothing arrived.
    Idle,
    /// The server is gone: the client ends.
    ServerClosed,
}

/// What came of looking for a line that waits to be sent.
#[derive(Debug, PartialEq, Eq)]
pub enum Pending {
    /// This line waits.
    Line(String),
    /// No line waits at the moment.
    Empty,
    /// No line will come any more: the input loop has ended.
    Disconnected,
}

/// What the socket loop does about the lines that wait to be sent.
#[derive(Debug, PartialEq, Eq)]
pub enum Outgoing {
    /// Write this frame to the server.
    Write(Vec<u8>),
    /// Nothing to write.
    Idle,
    /// End the loop.
    Stop,
}

/// Decides what a typed line means. The white space around it does not count:
/// a blank line is ignored, the word `quit` ends the client, and anything else
/// is sent without the white space around it.
pub fn read_input(line: &str) -> (action: InputAction)
    ensures
        is_blank(line@) ==> action is Ignore,
        !is_blank(line@) && trimmed(line@) == quit_word() ==> action is Quit,
        !is_blank(line@) && trimmed(line@) != quit_word() ==> (action matches InputAction::Send(
            text,
        ) && text@ == trimmed(line@)),
{
    proof {
        lemma_trimmed_empty_iff_blank(line@);
    }
    let message = line.trim();
    if message.is_empty() {
        return InputAction::Ignore;
    }
    proof {
        reveal_strlit("quit");
        assert("quit"@ =~= quit_word());
    }
    let text = message.to_owned();
    let quit = "quit".to_owned();
    if text == quit {
        InputAction::Quit
    } else {
        InputAction::Send(text)
    }
}

/// Whether the input loop goes on after `action`.
pub open spec fn input_goes_on(action: InputAction, handed_over: bool) -> bool {
    match action {
        InputAction::Ignore => true,
        InputAction::Quit => false,
        InputAction::Send(_) => handed_over,
    }
}

impl InputAction {
    /// Whether the input loop goes on after this action. `handed_over` says
    /// whether the text of a `Send` could be handed to the sender; it does not
    /// matter otherwise. The loop goes on after a blank line and after a text
    /// that was handed over, and ends on `quit` or when the hand-over failed.
    pub fn goes_on(&self, handed_over: bool) -> (on: bool)
        ensures
            on == input_goes_on(*self, handed_over),
    {
        match self {
            InputAction::Ignore => true,
            InputAction::Quit => false,
            InputAction::Send(_) => handed_over,
        }
    }
}

/// Decides what a read from the server means: the text of a frame is shown, a
/// frame that is not UTF-8 is passed over, and a failed read ends the client.
pub fn receive(outcome: ReadOutcome) -> (incoming: Incoming)
    ensures
        match outcome {
            ReadOutcome::Failed => incoming is ServerClosed,
            ReadOutcome::WouldBlock => incoming is Idle,
            ReadOutcome::Frame(bytes) => match decode_spec(bytes@) {
                Ok(text) => incoming matches Incoming::Show(shown) && shown@ == text,
                Err(_) => incoming is Skip,
            },
        },
{
    match outcome {
        ReadOutcome::Frame(bytes) => match decode(bytes.as_slice()) {
            Ok(text) => Incoming::Show(text),
            Err(_) => Incoming::Skip,
        },
        ReadOutcome::WouldBlock => Incoming::Idle,
        ReadOutcome::Failed => Incoming::ServerClosed,
    }
}

/// Decides what to write to the server: the frame of a line that waits,
/// nothing where none waits, and the end of the loop once no line will come.
pub fn transfer_message(pending: Pending) -> (outgoing: Outgoing)
    ensures
        match pending {
            Pending::Line(text) => outgoing matches Outgoing::Write(frame) && frame@ == frame_of(
                text@,
            ),
            Pending::Empty => outgoing is Idle,
            Pending::Disconnected => outgoing is Stop,
        },
{
    match pending {
        Pending::Line(text) => Outgoing::Write(encode(text.as_str())),
        Pending::Empty => Outgoing::Idle,
        Pending::Disconnected => Outgoing::Stop,
    }
}

} // verus!
