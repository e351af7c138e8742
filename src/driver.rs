use vstd::prelude::*;
use crate::waveform::BITS_PER_COLOR;

verus! {

/// Time the line is held low after a frame so that the LEDs latch it.
pub const RESET_NS: u64 = 50_000;

/// Duration of one symbol; a `0` and a `1` take equally long.
pub const BIT_PERIOD_NS: u64 = 1250;

/// Time taken on the line by the symbols of `n` colors.
pub open spec fn frame_ns(n: nat) -> nat {
    n * (BITS_PER_COLOR as nat) * (BIT_PERIOD_NS as nat)
}

/// When a frame may start: now, or once the previous frame has been
/// latched, whichever is later.
pub open spec fn next_start(last_end: Option<nat>, now: nat) -> nat {
    match last_end {
        Some(e) => if now >= e + RESET_NS { now } else { e + RESET_NS as nat },
        None => now,
    }
}

/// Where one render falls on the line.
#[derive(Clone, Copy, Debug, PartialEq, Eq, Structural)]
pub struct RenderSlot {
    /// The first symbol starts here.
    pub start_ns: u64,
    /// The last symbol ends here and the line goes low.
    pub end_ns: u64,
    /// The reset interval is over and the colors are latched.
    pub latched_ns: u64,
}

/// The output line, owned by one driver: when its last frame ended.
pub struct Line {
    pub last_end_ns: Option<u64>,
}

impl View for Line {
    type V = Option<nat>;

    open spec fn view(&self) -> Option<nat> {
        match self.last_end_ns {
            Some(e) => Some(e as nat),
            None => None,
        }
    }
}

impl Line {
    /// A line on which nothing has been sent yet.
    pub fn new() -> (line: Line)
        ensures
            line@ is None,
    {
        Line { last_end_ns: None }
    }

    /// Books the line for a frame of `n_colors` colors asked for at `now_ns`:
    /// the frame waits out what is left of the previous reset interval, runs
    /// for 24 symbols per color, and is latched one reset interval later.
    pub fn schedule(&mut self, now_ns: u64, n_colors: usize) -> (slot: RenderSlot)
        requires
            next_start(old(self)@, now_ns as nat) + frame_ns(n_colors as nat) + RESET_NS
                <= u64::MAX,
        ensures
            slot.start_ns == next_start(old(self)@, now_ns as nat),
            slot.end_ns == slot.start_ns + frame_ns(n_colors as nat),
            slot.latched_ns == slot.end_ns + RESET_NS,
            final(self)@ == Some(slot.end_ns as nat),
    {
        let start = match self.last_end_ns {
            Some(e) => if now_ns >= e + RESET_NS {
                now_ns
            } else {
                e + RESET_NS
            },
            None => now_ns,
        };
        assert(frame_ns(n_colors as nat) == n_colors * 30000) by (nonlinear_arith);
        let end = start + (n_colors as u64) * 30000;
        self.last_end_ns = Some(end);
        RenderSlot { start_ns: start, end_ns: end, latched_ns: end + RESET_NS }
    }
}

/// Two renders in a row never overlap on the line: the second starts no
/// earlier than it was asked for, and only after the first has been held
/// low for the full reset interval.
pub proof fn lemma_renders_in_sequence(last_end: Option<nat>, now1: nat, n1: nat, now2: nat)
    ensures
        ({
            let start1 = next_start(last_end, now1);
            let end1 = start1 + frame_ns(n1);
            let start2 = next_start(Some(end1), now2);
            &&& start1 >= now1
            &&& start2 >= now2
            &&& start2 >= end1 + RESET_NS
        }),
{
}

} // verus!
