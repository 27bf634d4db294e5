use digirain::control::{
    get_target_td, next_fps, next_state, shutdown_sequence, startup_sequence, KeyAction,
    PipelineState,
};

#[test]
fn quit_stops_from_any_live_state() {
    assert_eq!(next_state(PipelineState::Running, KeyAction::Quit), PipelineState::Stopped);
    assert_eq!(next_state(PipelineState::Paused, KeyAction::Quit), PipelineState::Stopped);
}

#[test]
fn pause_key_toggles_running_and_paused() {
    assert_eq!(
        next_state(PipelineState::Running, KeyAction::TogglePause),
        PipelineState::Paused
    );
    assert_eq!(
        next_state(PipelineState::Paused, KeyAction::TogglePause),
        PipelineState::Running
    );
}

#[test]
fn stopped_is_terminal() {
    assert_eq!(next_state(PipelineState::Stopped, KeyAction::Quit), PipelineState::Stopped);
    assert_eq!(
        next_state(PipelineState::Stopped, KeyAction::TogglePause),
        PipelineState::Stopped
    );
    assert_eq!(
        next_state(PipelineState::Stopped, KeyAction::FasterFrames),
        PipelineState::Stopped
    );
}

#[test]
fn other_keys_keep_the_state() {
    assert_eq!(next_state(PipelineState::Running, KeyAction::Ignored), PipelineState::Running);
    assert_eq!(
        next_state(PipelineState::Paused, KeyAction::SlowerFrames),
        PipelineState::Paused
    );
}

#[test]
fn frame_rate_steps_up_and_saturates() {
    assert_eq!(next_fps(60, KeyAction::FasterFrames, 10), 70);
    assert_eq!(next_fps(u16::MAX - 3, KeyAction::FasterFrames, 10), u16::MAX);
}

#[test]
fn frame_rate_steps_down_but_never_below_one() {
    assert_eq!(next_fps(60, KeyAction::SlowerFrames, 10), 50);
    assert_eq!(next_fps(10, KeyAction::SlowerFrames, 10), 1);
    assert_eq!(next_fps(3, KeyAction::SlowerFrames, 10), 1);
    assert_eq!(next_fps(60, KeyAction::Ignored, 10), 60);
}

#[test]
fn target_interval_from_frame_rate() {
    assert_eq!(get_target_td(0), 0);
    assert_eq!(get_target_td(1), 1_000_000_000);
    assert_eq!(get_target_td(60), 16_666_666);
}

#[test]
fn shutdown_tail_restores_the_terminal() {
    let s: String = shutdown_sequence().into_iter().collect();
    // Reset attributes, clear, home the cursor, show it again.
    assert_eq!(s, "\x1b[0m\x1b[2J\x1b[1;1H\x1b[?25h");
    assert!(s.ends_with("\x1b[?25h"));
}

#[test]
fn startup_hides_cursor_and_clears() {
    let s: String = startup_sequence().into_iter().collect();
    assert_eq!(s, "\x1b[?25l\x1b[48;2;0;0;0m\x1b[2J");
}
