use synth_rack::update_loop::{FrameState, UpdateLoop, UpdateLoopConfig};

fn sut() -> UpdateLoop {
    UpdateLoop::new(UpdateLoopConfig::default())
}

#[test]
fn default_config() {
    let config = UpdateLoopConfig::default();
    assert_eq!(config.step_in_nanos, 16_000_000);
    assert_eq!(config.accumulator_cap_in_nanos, 1_000_000_000);
    assert_eq!(config.fps_cap_in_ms, 16);
}

#[test]
fn frame_runs_one_update_per_full_step() {
    let sut = sut();
    let (state, actions) = sut.frame(sut.initial_state(), 50_000_000);

    assert_eq!(actions.updates, 3);
    assert_eq!(state.accumulator, 2_000_000);
    assert!(!actions.check_state);
    assert_eq!(state.elapsed_since_state_check, 50_000_000);
}

#[test]
fn frame_caps_the_accumulator() {
    let sut = sut();
    let (state, actions) = sut.frame(sut.initial_state(), 5_000_000_000);

    // capped at one second: 62 steps of 16 ms and 8 ms left over
    assert_eq!(actions.updates, 62);
    assert_eq!(state.accumulator, 8_000_000);
    assert!(actions.check_state);
    assert_eq!(state.elapsed_since_state_check, 0);
}

#[test]
fn frame_checks_state_once_a_second_has_passed() {
    let sut = sut();
    let start = FrameState { accumulator: 0, elapsed_since_state_check: 990_000_000 };

    let (state, actions) = sut.frame(start, 9_000_000);
    assert!(!actions.check_state);
    assert_eq!(state.elapsed_since_state_check, 999_000_000);

    let (state, actions) = sut.frame(state, 1_000_000);
    assert!(actions.check_state);
    assert_eq!(state.elapsed_since_state_check, 0);
}

#[test]
fn state_check_interval_is_at_least_a_second() {
    assert_eq!(sut().state_check_interval(), 1_000_000_000);
    let slow = UpdateLoop::new(UpdateLoopConfig {
        step_in_nanos: 2_000_000_000,
        accumulator_cap_in_nanos: 4_000_000_000,
        fps_cap_in_ms: 16,
    });
    assert_eq!(slow.state_check_interval(), 2_000_000_000);
}

#[test]
fn cap_fps_sleeps_until_the_next_frame() {
    let pacing = sut().cap_fps(5_000_000, 0);

    assert_eq!(pacing.expected_frame_time, 16_000_000);
    assert_eq!(pacing.sleep_nanos, 11_000_000);
}

#[test]
fn cap_fps_does_not_sleep_when_late() {
    let pacing = sut().cap_fps(40_000_000, 10_000_000);

    assert_eq!(pacing.expected_frame_time, 40_000_000);
    assert_eq!(pacing.sleep_nanos, 0);
}

#[test]
fn loop_keeps_its_config() {
    let sut = UpdateLoop::new(UpdateLoopConfig {
        step_in_nanos: 5,
        accumulator_cap_in_nanos: 7,
        fps_cap_in_ms: 9,
    });
    let config = sut.config();
    assert_eq!(config.step_in_nanos, 5);
    assert_eq!(config.accumulator_cap_in_nanos, 7);
    assert_eq!(config.fps_cap_in_ms, 9);
    assert_eq!(sut.state_check_interval(), 1_000_000_000);
}

#[test]
fn frames_within_the_cap_keep_the_time() {
    let sut = sut();
    let (s1, a1) = sut.frame(sut.initial_state(), 20_000_000);
    let (s2, a2) = sut.frame(s1, 30_000_000);
    assert_eq!((a1.updates + a2.updates) * 16_000_000 + s2.accumulator, 50_000_000);
    assert_eq!(a1.updates + a2.updates, 3);
    assert_eq!(s2.accumulator, 2_000_000);
}
