//! The decisions about the player's jumps: jumping is allowed a little after leaving the
//! ground, so that a jump just too late at an edge still happens.

use vstd::prelude::*;

verus! {

/// How long after leaving the ground the player can still jump, in microseconds.
pub const JUMP_GRACE_PERIOD_MICROS: u64 = 150_000;

/// Manages the player's ability to jump. Times are in microseconds on a monotonic clock of the
/// caller's choosing.
pub struct PlayerJumpManager {
    last_time_on_ground_if_not_jumped: Option<u64>,
}

impl PlayerJumpManager {
    /// The last time the player was seen on the ground, if it did not jump since.
    pub closed spec fn last_time_on_ground(self) -> Option<u64> {
        self.last_time_on_ground_if_not_jumped
    }

    pub fn new() -> (r: PlayerJumpManager)
        ensures
            r.last_time_on_ground() is None,
    {
        PlayerJumpManager { last_time_on_ground_if_not_jumped: None }
    }

    /// To be called at every frame, with whether the player is on the ground at time `now`.
    pub fn manage(&mut self, on_ground: bool, now: u64)
        ensures
            final(self).last_time_on_ground() == if on_ground {
                Some(now)
            } else {
                old(self).last_time_on_ground()
            },
    {
        if on_ground {
            self.last_time_on_ground_if_not_jumped = Some(now);
        }
    }

    /// Whether the player jumps at time `now` when asking to: if it is on the ground, or was
    /// less than the grace period ago without jumping since. A jump forgets the time on ground.
    pub fn jump(&mut self, on_ground: bool, now: u64) -> (r: bool)
        ensures
            r == (on_ground || (old(self).last_time_on_ground() matches Some(t) && (if now >= t {
                now - t
            } else {
                0
            }) < JUMP_GRACE_PERIOD_MICROS)),
            final(self).last_time_on_ground() == if r {
                None
            } else {
                old(self).last_time_on_ground()
            },
    {
        let can_still_jump = match self.last_time_on_ground_if_not_jumped {
            Some(time) => {
                let elapsed = if now >= time {
                    now - time
                } else {
                    0
                };
                elapsed < JUMP_GRACE_PERIOD_MICROS
            },
            None => false,
        };
        if on_ground || can_still_jump {
            self.last_time_on_ground_if_not_jumped = None;
            true
        } else {
            false
        }
    }
}

} // verus!
