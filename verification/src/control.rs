//! The pipeline's control surface: the run state machine, the effect of
//! each recognised key, frame pacing, and the fixed terminal sequences
//! emitted at startup and shutdown.  The surrounding program reads events
//! and writes bytes; every decision is made here.
use vstd::prelude::*;

verus! {

/// What a recognised input event asks for.
#[derive(Clone, Copy, PartialEq, Eq, Structural, Debug)]
pub enum KeyAction {
    /// Quit key (or a termination signal): stop the pipeline.
    Quit,
    /// Pause/resume key.
    TogglePause,
    /// Raise the target frame rate by one step.
    FasterFrames,
    /// Lower the target frame rate by one step.
    SlowerFrames,
    /// Anything else: ignored.
    Ignored,
}

/// The pipeline's run state.  `Running` and `Paused` alternate freely;
/// `Stopped` is terminal.
#[derive(Clone, Copy, PartialEq, Eq, Structural, Debug)]
pub enum PipelineState {
    Running,
    Paused,
    Stopped,
}

/// The state machine `Running <-> Paused -> Stopped`.
pub open spec fn spec_next_state(s: PipelineState, a: KeyAction) -> PipelineState {
    match s {
        PipelineState::Stopped => PipelineState::Stopped,
        _ => match a {
            KeyAction::Quit => PipelineState::Stopped,
            KeyAction::TogglePause => if s is Running {
                PipelineState::Paused
            } else {
                PipelineState::Running
            },
            _ => s,
        },
    }
}

/// Step the run state machine by one event.
pub fn next_state(s: PipelineState, a: KeyAction) -> (r: PipelineState)
    ensures
        r == spec_next_state(s, a),
{
    match s {
        PipelineState::Stopped => PipelineState::Stopped,
        _ => match a {
            KeyAction::Quit => PipelineState::Stopped,
            KeyAction::TogglePause => if matches!(s, PipelineState::Running) {
                PipelineState::Paused
            } else {
                PipelineState::Running
            },
            _ => s,
        },
    }
}

/// Once stopped, the pipeline stays stopped.
pub proof fn lemma_stopped_is_terminal(a: KeyAction)
    ensures
        spec_next_state(PipelineState::Stopped, a) == PipelineState::Stopped,
{
}

/// The target frame rate after one key: a faster-key adds one step,
/// saturating; a slower-key subtracts one step but never goes below one
/// frame per second; other keys leave it alone.
pub fn next_fps(fps: u16, a: KeyAction, step: u16) -> (r: u16)
    ensures
        a is FasterFrames ==> r == if fps + step <= u16::MAX {
            fps + step
        } else {
            u16::MAX as int
        },
        a is SlowerFrames ==> r == if fps > step {
            fps - step
        } else {
            1
        },
        !(a is FasterFrames) && !(a is SlowerFrames) ==> r == fps,
{
    match a {
        KeyAction::FasterFrames => if fps <= u16::MAX - step {
            fps + step
        } else {
            u16::MAX
        },
        KeyAction::SlowerFrames => if fps > step {
            fps - step
        } else {
            1
        },
        _ => fps,
    }
}

/// The target frame interval in nanoseconds: one second divided by the
/// rate, truncated; a rate of zero means "run as fast as possible" and
/// yields a zero interval.
pub fn get_target_td(fps: u16) -> (r: u64)
    ensures
        fps == 0 ==> r == 0,
        fps != 0 ==> r == 1_000_000_000int / fps as int,
{
    if fps == 0 {
        0
    } else {
        1_000_000_000u64 / (fps as u64)
    }
}

/// The bytes written once before the first frame: hide the cursor, set a
/// black background, clear the screen.
pub open spec fn spec_startup_sequence() -> Seq<char> {
    seq![
        '\x1b', '[', '?', '2', '5', 'l',
        '\x1b', '[', '4', '8', ';', '2', ';', '0', ';', '0', ';', '0', 'm',
        '\x1b', '[', '2', 'J',
    ]
}

/// The bytes written once after the pipeline stops: reset attributes,
/// clear the screen, home the cursor, show the cursor again.
pub open spec fn spec_shutdown_sequence() -> Seq<char> {
    seq![
        '\x1b', '[', '0', 'm',
        '\x1b', '[', '2', 'J',
        '\x1b', '[', '1', ';', '1', 'H',
        '\x1b', '[', '?', '2', '5', 'h',
    ]
}

pub fn startup_sequence() -> (r: Vec<char>)
    ensures
        r@ == spec_startup_sequence(),
{
    let mut out: Vec<char> = Vec::new();
    out.push('\x1b');
    out.push('[');
    out.push('?');
    out.push('2');
    out.push('5');
    out.push('l');
    out.push('\x1b');
    out.push('[');
    out.push('4');
    out.push('8');
    out.push(';');
    out.push('2');
    out.push(';');
    out.push('0');
    out.push(';');
    out.push('0');
    out.push(';');
    out.push('0');
    out.push('m');
    out.push('\x1b');
    out.push('[');
    out.push('2');
    out.push('J');
    proof {
        assert(out@ =~= spec_startup_sequence());
    }
    out
}

pub fn shutdown_sequence() -> (r: Vec<char>)
    ensures
        r@ == spec_shutdown_sequence(),
{
    let mut out: Vec<char> = Vec::new();
    out.push('\x1b');
    out.push('[');
    out.push('0');
    out.push('m');
    out.push('\x1b');
    out.push('[');
    out.push('2');
    out.push('J');
    out.push('\x1b');
    out.push('[');
    out.push('1');
    out.push(';');
    out.push('1');
    out.push('H');
    out.push('\x1b');
    out.push('[');
    out.push('?');
    out.push('2');
    out.push('5');
    out.push('h');
    proof {
        assert(out@ =~= spec_shutdown_sequence());
    }
    out
}

} // verus!
