use vstd::prelude::*;

verus! {

/// How often the update loop asks the application whether it has finished, at least (1 s).
pub const DEFAULT_STATE_CHECK_INTERVAL: u128 = 1_000_000_000;

/// The timing of the update loop.
pub struct UpdateLoopConfig {
    /// The fixed simulated time of one update, in nanoseconds.
    pub step_in_nanos: u128,
    /// The most real time that is caught up with at once, in nanoseconds.
    pub accumulator_cap_in_nanos: u128,
    /// The shortest time between two frames, in milliseconds.
    pub fps_cap_in_ms: u64,
}

impl Default for UpdateLoopConfig {
    /// Steps of 16 ms, at most 1 s caught up with at once, at most one frame per 16 ms.
    fn default() -> (r: Self)
        ensures
            r.step_in_nanos == 16_000_000,
            r.accumulator_cap_in_nanos == 1_000_000_000,
            r.fps_cap_in_ms == 16,
    {
        UpdateLoopConfig {
            step_in_nanos: 16_000_000,
            accumulator_cap_in_nanos: 1000000000,
            fps_cap_in_ms: 16,
        }
    }
}

/// Whether the application wants the loop to go on.
#[derive(Debug, Clone, Copy, PartialEq, Eq)]
pub enum AppState {
    Running,
    Finished,
}

/// An application driven by the update loop.
pub trait App {
    /// Advances the application by `dt` nanoseconds of simulated time.
    fn update(&mut self, dt: u128);

    /// Presents the current state.
    fn render(&mut self);

    fn state(&self) -> AppState;
}

#[derive(Debug, Clone, Copy, PartialEq, Eq)]
pub enum UpdateLoopError {
    NotStarted,
}

/// What the update loop carries from one frame to the next.
#[derive(Debug, Clone, Copy, PartialEq, Eq)]
pub struct FrameState {
    /// Real time not yet simulated, in nanoseconds.
    pub accumulator: u128,
    /// Real time since the application's state was last asked for, in nanoseconds.
    pub elapsed_since_state_check: u128,
}

/// What the update loop does in one frame.
#[derive(Debug, Clone, Copy, PartialEq, Eq)]
pub struct FrameActions {
    /// How many fixed steps to simulate.
    pub updates: u128,
    /// Whether to ask the application whether it has finished.
    pub check_state: bool,
}

/// What the frame limiter decides: when the next frame is due, and how long to sleep first.
#[derive(Debug, Clone, Copy, PartialEq, Eq)]
pub struct FramePacing {
    /// When the next frame is due, in nanoseconds on the loop's clock.
    pub expected_frame_time: u128,
    /// How long to sleep before it, in nanoseconds.
    pub sleep_nanos: u128,
}

/// A fixed-timestep update loop: real time is added to an accumulator, and
/// the application is updated in steps of fixed length while the accumulator
/// holds a full step.
pub struct UpdateLoop {
    config: UpdateLoopConfig,
}

impl UpdateLoop {
    pub closed spec fn step(&self) -> u128 {
        self.config.step_in_nanos
    }

    pub closed spec fn cap(&self) -> u128 {
        self.config.accumulator_cap_in_nanos
    }

    pub closed spec fn fps_cap_in_ms(&self) -> u64 {
        self.config.fps_cap_in_ms
    }

    /// How much real time may pass between two checks of the application's state.
    pub open spec fn check_interval(&self) -> u128 {
        if self.step() >= DEFAULT_STATE_CHECK_INTERVAL {
            self.step()
        } else {
            DEFAULT_STATE_CHECK_INTERVAL
        }
    }

    /// The real time that a frame catches up with: what was accumulated plus
    /// the frame's time, at most the cap.
    pub open spec fn caught_up(&self, state: FrameState, frame_time: u128) -> int {
        if state.accumulator + frame_time > self.cap() {
            self.cap() as int
        } else {
            state.accumulator + frame_time
        }
    }

    /// What a frame after `frame_time` nanoseconds does from `state`: one
    /// update for each full step of the time caught up with, the rest kept
    /// for the next frame; the state is checked once the time since the last
    /// check reaches the check interval, which then starts again from zero.
    pub open spec fn frame_outcome(&self, state: FrameState, frame_time: u128, next: FrameState, actions: FrameActions) -> bool {
        let since = state.elapsed_since_state_check + frame_time;
        &&& actions.updates * self.step() + next.accumulator == self.caught_up(state, frame_time)
        &&& next.accumulator < self.step()
        &&& actions.check_state == (since >= self.check_interval())
        &&& next.elapsed_since_state_check == if actions.check_state {
            0
        } else {
            since
        }
    }

    /// Over two frames that stay within the cap, the simulated time (the
    /// updates times the step) and what is left in the accumulator add up to
    /// the real time: what was accumulated before plus both frame times.
    pub proof fn lemma_frames_keep_time(
        &self,
        s0: FrameState,
        t1: u128,
        s1: FrameState,
        a1: FrameActions,
        t2: u128,
        s2: FrameState,
        a2: FrameActions,
    )
        requires
            self.frame_outcome(s0, t1, s1, a1),
            self.frame_outcome(s1, t2, s2, a2),
            s0.accumulator + t1 <= self.cap(),
            s1.accumulator + t2 <= self.cap(),
        ensures
            (a1.updates + a2.updates) * self.step() + s2.accumulator == s0.accumulator + t1 + t2,
    {
        assert((a1.updates + a2.updates) * self.step() == a1.updates * self.step() + a2.updates * self.step())
            by (nonlinear_arith);
    }

    pub fn new(config: UpdateLoopConfig) -> (r: Self)
        ensures
            r.step() == config.step_in_nanos,
            r.cap() == config.accumulator_cap_in_nanos,
            r.fps_cap_in_ms() == config.fps_cap_in_ms,
    {
        UpdateLoop { config }
    }

    /// The timing the loop was made with.
    pub fn config(&self) -> (r: &UpdateLoopConfig)
        ensures
            r.step_in_nanos == self.step(),
            r.accumulator_cap_in_nanos == self.cap(),
            r.fps_cap_in_ms == self.fps_cap_in_ms(),
    {
        &self.config
    }

    /// The state before the first frame: nothing accumulated, nothing elapsed.
    pub fn initial_state(&self) -> (r: FrameState)
        ensures
            r.accumulator == 0,
            r.elapsed_since_state_check == 0,
    {
        FrameState { accumulator: 0, elapsed_since_state_check: 0 }
    }

    /// How much real time may pass between two checks of the application's
    /// state: one step, but at least one second.
    pub fn state_check_interval(&self) -> (r: u128)
        ensures
            r == self.check_interval(),
    {
        if self.config.step_in_nanos >= DEFAULT_STATE_CHECK_INTERVAL {
            self.config.step_in_nanos
        } else {
            DEFAULT_STATE_CHECK_INTERVAL
        }
    }

    /// One frame of the loop, after `frame_time` nanoseconds of real time.
    ///
    /// The frame time is added to the accumulator, which is capped; then one
    /// update is due for each full step in the accumulator, and what is left
    /// of it stays for the next frame. The state is checked once the real
    /// time since the last check reaches the check interval, and that time
    /// then starts again from zero.
    pub fn frame(&self, state: FrameState, frame_time: u128) -> (r: (FrameState, FrameActions))
        requires
            self.step() > 0,
            state.accumulator + frame_time <= u128::MAX,
            state.elapsed_since_state_check + frame_time <= u128::MAX,
        ensures
            self.frame_outcome(state, frame_time, r.0, r.1),
    {
        let step = self.config.step_in_nanos;
        let clamp = self.config.accumulator_cap_in_nanos;
        let mut accumulator = state.accumulator + frame_time;
        if accumulator > clamp {
            accumulator = clamp;
        }
        let ghost total = accumulator;
        let mut updates: u128 = 0;
        while accumulator >= step
            invariant
                step > 0,
                updates * step + accumulator == total,
            decreases accumulator,
        {
            proof {
                assert(updates * step + step == (updates + 1) * step) by (nonlinear_arith);
                assert(updates * step <= total) by (nonlinear_arith)
                    requires
                        updates * step + accumulator == total,
                        accumulator >= 0,
                ;
                assert((updates + 1) * step <= total);
                assert(step >= 1);
                assert(updates + 1 <= (updates + 1) * step) by (nonlinear_arith)
                    requires
                        step >= 1,
                        updates >= 0,
                ;
            }
            updates = updates + 1;
            accumulator = accumulator - step;
        }
        let since = state.elapsed_since_state_check + frame_time;
        let check_state = since >= self.state_check_interval();
        let next = FrameState {
            accumulator,
            elapsed_since_state_check: if check_state {
                0
            } else {
                since
            },
        };
        (next, FrameActions { updates, check_state })
    }

    /// The frame limiter: the next frame is due one frame cap after the
    /// expected time of this one. When that is still ahead of `now`, the loop
    /// sleeps until then; otherwise it is late, does not sleep, and expects
    /// the next frame from `now`.
    pub fn cap_fps(&self, now: u128, expected_frame_time: u128) -> (r: FramePacing)
        requires
            expected_frame_time + self.fps_cap_in_ms() * 1_000_000 <= u128::MAX,
        ensures
            ({
                let next = expected_frame_time + self.fps_cap_in_ms() * 1_000_000;
                if next > now {
                    r.expected_frame_time == next && r.sleep_nanos == next - now
                } else {
                    r.expected_frame_time == now && r.sleep_nanos == 0
                }
            }),
    {
        let fps_cap: u128 = (self.config.fps_cap_in_ms as u128) * 1_000_000;
        let next = expected_frame_time + fps_cap;
        if next > now {
            FramePacing { expected_frame_time: next, sleep_nanos: next - now }
        } else {
            FramePacing { expected_frame_time: now, sleep_nanos: 0 }
        }
    }
}

} // verus!
