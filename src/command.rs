use vstd::prelude::*;
use crate::color::{Color, DecodeError};
use crate::decode::{decode, decode_spec};

verus! {

/// Where the command loop stands.
#[derive(Clone, Copy, Debug, PartialEq, Eq, Structural)]
pub enum LoopState {
    /// Waiting for the transport to deliver a command.
    WaitingForInput,
    /// A command was read and its action is under way.
    Processing,
}

/// What the transport or the LED driver reports to the loop.
#[derive(Clone, Debug)]
pub enum Event {
    /// One read from the transport, as received.
    Received(Vec<u8>),
    /// The transport was disconnected or failed.
    TransportLost,
    /// The LED driver sent the frame and latched it.
    Rendered,
    /// The LED driver could not keep the bit timing; the frame is corrupt.
    RenderFailed,
    /// The diagnostic was written back, or writing it failed.
    DiagnosticDone,
}

/// What the loop asks of the transport or the LED driver next.
#[derive(Clone, Copy, Debug, PartialEq, Eq, Structural)]
pub enum Action {
    /// Read the next command.
    ReadNext,
    /// Wait until the transport is connected again, then read.
    AwaitConnection,
    /// Send this color to the LED.
    Render(Color),
    /// Write a diagnostic for this decoding error back on the transport.
    Diagnose(DecodeError),
    /// Report that the last render failed, then read the next command.
    ReportRenderFailure,
}

/// What the loop does on a read: decode it, render on success, answer with
/// a diagnostic on failure; an empty read is no command. Each read is one
/// whole command: nothing is carried over from one read to the next.
pub open spec fn on_read(bytes: Seq<u8>) -> (LoopState, Action) {
    if bytes.len() == 0 {
        (LoopState::WaitingForInput, Action::ReadNext)
    } else {
        match decode_spec(bytes) {
            Ok(c) => (LoopState::Processing, Action::Render(c)),
            Err(e) => (LoopState::Processing, Action::Diagnose(e)),
        }
    }
}

/// The loop's transitions. A lost transport always leads back to waiting;
/// the end of an action always leads back to waiting; no event ends the loop.
pub open spec fn step_spec(state: LoopState, event: Event) -> (LoopState, Action) {
    match event {
        Event::TransportLost => (LoopState::WaitingForInput, Action::AwaitConnection),
        Event::Received(bytes) => on_read(bytes@),
        Event::RenderFailed => match state {
            LoopState::Processing => (LoopState::WaitingForInput, Action::ReportRenderFailure),
            LoopState::WaitingForInput => (LoopState::WaitingForInput, Action::ReadNext),
        },
        _ => (LoopState::WaitingForInput, Action::ReadNext),
    }
}

/// One transition of the command loop.
pub fn step(state: LoopState, event: &Event) -> (r: (LoopState, Action))
    ensures
        r == step_spec(state, *event),
{
    match event {
        Event::TransportLost => (LoopState::WaitingForInput, Action::AwaitConnection),
        Event::Received(bytes) => {
            if bytes.len() == 0 {
                (LoopState::WaitingForInput, Action::ReadNext)
            } else {
                match decode(bytes.as_slice()) {
                    Ok(c) => (LoopState::Processing, Action::Render(c)),
                    Err(e) => (LoopState::Processing, Action::Diagnose(e)),
                }
            }
        },
        Event::RenderFailed => match state {
            LoopState::Processing => (LoopState::WaitingForInput, Action::ReportRenderFailure),
            LoopState::WaitingForInput => (LoopState::WaitingForInput, Action::ReadNext),
        },
        _ => (LoopState::WaitingForInput, Action::ReadNext),
    }
}

} // verus!
