//! The simulation clock: pause flag, speed multiplier and elapsed game time.
//!
//! Every tick-driven system takes the clock as an explicit parameter; while
//! the game is paused each of them no-ops entirely, so a paused tick applies
//! nothing at all.

use vstd::prelude::*;

verus! {

/// Speed multiplier scale: a multiplier of 1000 runs the game in real time.
pub const GAME_SPEED_ONE: u64 = 1000;

/// Upper bound on the speed multiplier (a thousand times real time).
pub const GAME_SPEED_LIMIT: u64 = 1_000_000;

/// Game time below which an advance is discarded, in milliseconds.
pub const MIN_TIME_STEP_MS: u64 = 10;

/// Stores the current game speed and the elapsed game time.
#[derive(Clone, Copy, Debug)]
pub struct GameSpeed {
    /// Speed multiplier in thousandths; `GAME_SPEED_ONE` is real time.
    pub game_speed: u64,
    /// Accumulated game time, in milliseconds.
    pub elapsed_time: u64,
    /// The last tick's scaled time step, in milliseconds.
    pub delta: u64,
    pub is_paused: bool,
}

impl Default for GameSpeed {
    fn default() -> (r: GameSpeed)
        ensures
            r == (GameSpeed { game_speed: 0, elapsed_time: 0, delta: 0, is_paused: false }),
    {
        GameSpeed { game_speed: 0, elapsed_time: 0, delta: 0, is_paused: false }
    }
}

/// A request to change the clock, handed in by the user interface.
#[derive(Clone, Copy, Debug)]
pub enum GameSpeedRequest {
    Pause,
    TogglePause,
    Unpause,
    /// New speed multiplier, in thousandths of real time.
    SetSpeed(u64),
}

impl GameSpeed {
    /// Returns true if the game is currently paused.
    pub fn is_paused(&self) -> (r: bool)
        ensures
            r == self.is_paused,
    {
        self.is_paused
    }

    pub fn toggle_pause(&mut self)
        ensures
            *final(self) == (GameSpeed { is_paused: !old(self).is_paused, ..*old(self) }),
    {
        self.is_paused = !self.is_paused;
    }

    pub fn pause(&mut self)
        ensures
            *final(self) == (GameSpeed { is_paused: true, ..*old(self) }),
    {
        self.is_paused = true;
    }

    pub fn unpause(&mut self)
        ensures
            *final(self) == (GameSpeed { is_paused: false, ..*old(self) }),
    {
        self.is_paused = false;
    }

    /// Applies one clock request.
    pub fn apply_request(&mut self, request: &GameSpeedRequest)
        requires
            (match *request {
                GameSpeedRequest::SetSpeed(s) => s <= GAME_SPEED_LIMIT,
                _ => true,
            }),
        ensures
            *final(self) == (match *request {
                GameSpeedRequest::Pause => GameSpeed { is_paused: true, ..*old(self) },
                GameSpeedRequest::TogglePause => GameSpeed {
                    is_paused: !old(self).is_paused,
                    ..*old(self)
                },
                GameSpeedRequest::Unpause => GameSpeed { is_paused: false, ..*old(self) },
                GameSpeedRequest::SetSpeed(s) => GameSpeed { game_speed: s, ..*old(self) },
            }),
    {
        match request {
            GameSpeedRequest::Pause => self.pause(),
            GameSpeedRequest::Unpause => self.unpause(),
            GameSpeedRequest::TogglePause => self.toggle_pause(),
            GameSpeedRequest::SetSpeed(s) => {
                self.game_speed = *s;
            }
        }
    }

    /// The wall-clock step scaled by the speed multiplier, in milliseconds.
    pub open spec fn spec_scaled_delta(self, wall_delta_ms: u64) -> u64 {
        ((wall_delta_ms * self.game_speed) / (GAME_SPEED_ONE as int)) as u64
    }

    /// Advances the clock by a wall-clock step.  The scaled step is always
    /// recorded in `delta`; it accumulates into `elapsed_time` only when it
    /// reaches `MIN_TIME_STEP_MS`, and the accumulator sticks at `u64::MAX`
    /// rather than wrap.
    pub fn advance(&mut self, wall_delta_ms: u64)
        requires
            wall_delta_ms <= crate::DT_LIMIT,
            old(self).game_speed <= GAME_SPEED_LIMIT,
        ensures
            final(self).game_speed == old(self).game_speed,
            final(self).is_paused == old(self).is_paused,
            final(self).delta == old(self).spec_scaled_delta(wall_delta_ms),
            final(self).elapsed_time == (if old(self).spec_scaled_delta(wall_delta_ms)
                < MIN_TIME_STEP_MS {
                old(self).elapsed_time
            } else if old(self).elapsed_time + old(self).spec_scaled_delta(wall_delta_ms)
                <= u64::MAX {
                (old(self).elapsed_time + old(self).spec_scaled_delta(wall_delta_ms)) as u64
            } else {
                u64::MAX
            }),
    {
        proof {
            assert(wall_delta_ms * self.game_speed <= crate::DT_LIMIT * GAME_SPEED_LIMIT)
                by (nonlinear_arith)
                requires
                    wall_delta_ms <= crate::DT_LIMIT,
                    self.game_speed <= GAME_SPEED_LIMIT,
            ;
        }
        let scaled = (wall_delta_ms * self.game_speed) / GAME_SPEED_ONE;
        self.delta = scaled;
        if scaled < MIN_TIME_STEP_MS {
            return ;
        }
        if self.elapsed_time <= u64::MAX - scaled {
            self.elapsed_time = self.elapsed_time + scaled;
        } else {
            self.elapsed_time = u64::MAX;
        }
    }
}

} // verus!
