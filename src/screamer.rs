//! The antagonist: a warning cue, then the scare, on a schedule that tightens
//! as the player makes progress.
use vstd::prelude::*;

use crate::clock::{MAX_TIME, SECOND};
use crate::random::random_in;

verus! {

/// Delay, in milliseconds, from the first tick to the earliest first scare.
pub const FIRST_DELAY: u64 = 15000;

/// Bound, in milliseconds and excluded, of the random part of each delay.
pub const JITTER: u64 = 10000;

/// Least time, in milliseconds, by which the warning precedes the scare.
pub const WARNING_BASE: u64 = 1000;

/// Number of codes that completes the game; it also scales the delay
/// between two scares.
pub const MAX_CODE: u64 = 10;

/// How long, in milliseconds, the scare stays on screen.
pub const DISPLAY_TIME: u64 = 3000;

/// When the next scare comes (`at`, in milliseconds; `0` until the first tick
/// schedules it), whether its warning was played, and whether the scare is on
/// screen, shown at `last_displayed`.
#[derive(Clone, Copy, Debug, PartialEq, Eq, Structural)]
pub struct TimeToScreamer {
    pub at: u64,
    pub played: bool,
    pub last_displayed: u64,
    pub display: bool,
}

impl TimeToScreamer {
    /// Nothing scheduled, played or shown.
    pub fn new() -> (r: Self)
        ensures
            r.at == 0 && !r.played && r.last_displayed == 0 && !r.display,
    {
        TimeToScreamer { at: 0, played: false, last_displayed: 0, display: false }
    }
}

/// What a tick asks of the sound and the screen.
#[derive(Clone, Copy, Debug, PartialEq, Eq, Structural)]
pub struct ScreamerCues {
    /// Play the warning sound.
    pub warning: bool,
    /// Play the scare sound and show the scare full screen.
    pub scare: bool,
    /// Take the scare off the screen.
    pub dismiss: bool,
}

/// The antagonist's schedule, with its two tunings in milliseconds: the
/// warning comes `1000 + warning_scale / (found + 1)` before the scare, and
/// two scares are `interval_floor + 10000 / (found + 1)` apart, plus jitter,
/// where `found` counts the codes found.
#[derive(Clone, Copy, Debug, PartialEq, Eq, Structural)]
pub struct ScreamerSystem {
    pub warning_scale: u64,
    pub interval_floor: u64,
}

/// How long before the scare its warning comes.
pub open spec fn warning_lead(cfg: ScreamerSystem, found: int) -> int {
    WARNING_BASE + cfg.warning_scale as int / (found + 1)
}

/// Delay from a scare to the next, before jitter.
pub open spec fn scare_interval(cfg: ScreamerSystem, found: int) -> int {
    cfg.interval_floor + (MAX_CODE * SECOND) as int / (found + 1)
}

/// Time of the next scare once the tick at `now` has scheduled the first one.
pub open spec fn scheduled_at(s: TimeToScreamer, now: int, jitter: int) -> int {
    if s.at == 0 {
        now + FIRST_DELAY + jitter
    } else {
        s.at as int
    }
}

/// The cues of a tick at `now`, with `found` codes found, the player hidden
/// or not, and `jitter` drawn.
pub open spec fn cues(
    cfg: ScreamerSystem,
    s: TimeToScreamer,
    now: int,
    found: int,
    hidden: bool,
    jitter: int,
) -> ScreamerCues {
    let at = scheduled_at(s, now, jitter);
    ScreamerCues {
        warning: now + warning_lead(cfg, found) > at && !s.played,
        scare: now > at && !hidden,
        dismiss: s.display && now > s.last_displayed + DISPLAY_TIME,
    }
}

/// The schedule after that tick. A scare that is due is rescheduled whether or
/// not the player hides, and re-arms the warning.
pub open spec fn next_timer(
    cfg: ScreamerSystem,
    s: TimeToScreamer,
    now: int,
    found: int,
    hidden: bool,
    jitter: int,
) -> TimeToScreamer {
    let at = scheduled_at(s, now, jitter);
    let c = cues(cfg, s, now, found, hidden, jitter);
    TimeToScreamer {
        at: if now > at {
            (now + scare_interval(cfg, found) + jitter) as u64
        } else {
            at as u64
        },
        played: if now > at {
            false
        } else {
            s.played || c.warning
        },
        last_displayed: if c.scare {
            now as u64
        } else {
            s.last_displayed
        },
        display: if c.scare {
            true
        } else if c.dismiss {
            false
        } else {
            s.display
        },
    }
}

impl ScreamerSystem {
    /// The usual tuning: a warning three seconds ahead at most, on top of one
    /// second, and at least five seconds between scares.
    pub fn new() -> (r: Self)
        ensures
            r.wf(),
            r.warning_scale == 3000 && r.interval_floor == 5000,
    {
        ScreamerSystem { warning_scale: 3000, interval_floor: 5000 }
    }

    /// Tunings small enough for every deadline to fit.
    pub open spec fn wf(&self) -> bool {
        self.warning_scale <= MAX_TIME && self.interval_floor <= MAX_TIME
    }

    /// `scale / (found + 1)`, with no overflow on the largest `found`.
    fn scaled(scale: u64, found: u64) -> (r: u64)
        ensures
            r as int == scale as int / (found as int + 1),
    {
        if found == u64::MAX {
            0
        } else {
            scale / (found + 1)
        }
    }

    /// One tick at `now` with `jitter` drawn; does nothing while the player
    /// reads the opening text.
    pub fn step(
        &self,
        since: &mut TimeToScreamer,
        now: u64,
        found: u64,
        hidden: bool,
        reading: bool,
        jitter: u64,
    ) -> (r: ScreamerCues)
        requires
            self.wf(),
            now <= MAX_TIME,
            jitter < JITTER,
        ensures
            reading ==> *final(since) == *old(since) && r == (ScreamerCues {
                warning: false,
                scare: false,
                dismiss: false,
            }),
            !reading ==> r == cues(*self, *old(since), now as int, found as int, hidden, jitter as int)
                && *final(since) == next_timer(
                *self,
                *old(since),
                now as int,
                found as int,
                hidden,
                jitter as int,
            ),
    {
        if reading {
            return ScreamerCues { warning: false, scare: false, dismiss: false };
        }
        if since.at == 0 {
            since.at = now + FIRST_DELAY + jitter;
        }
        let lead = WARNING_BASE + Self::scaled(self.warning_scale, found);
        let mut cues = ScreamerCues { warning: false, scare: false, dismiss: false };
        if now + lead > since.at && !since.played {
            cues.warning = true;
            since.played = true;
        }
        if since.display && now > since.last_displayed && now - since.last_displayed
            > DISPLAY_TIME {
            cues.dismiss = true;
            since.display = false;
        }
        if now > since.at {
            if !hidden {
                cues.scare = true;
                since.last_displayed = now;
                since.display = true;
            }
            since.played = false;
            since.at = now + self.interval_floor + Self::scaled(MAX_CODE * SECOND, found) + jitter;
        }
        cues
    }

    /// One tick at `now`, drawing the jitter from `[0, 10)` seconds.
    pub fn run(
        &self,
        since: &mut TimeToScreamer,
        now: u64,
        found: u64,
        hidden: bool,
        reading: bool,
    ) -> (r: ScreamerCues)
        requires
            self.wf(),
            now <= MAX_TIME,
        ensures
            reading ==> *final(since) == *old(since) && !r.warning && !r.scare && !r.dismiss,
            !reading ==> exists|jitter: int|
                0 <= jitter < JITTER && r == cues(
                    *self,
                    *old(since),
                    now as int,
                    found as int,
                    hidden,
                    jitter,
                ) && #[trigger] next_timer(*self, *old(since), now as int, found as int, hidden, jitter)
                    == *final(since),
    {
        let jitter = random_in(0, JITTER);
        self.step(since, now, found, hidden, reading, jitter)
    }
}

/// The warning plays at most once between two scares: once played, later
/// ticks stay silent until a scare is due and re-arms it.
pub proof fn lemma_warning_once_per_cycle(
    cfg: ScreamerSystem,
    s: TimeToScreamer,
    now: int,
    later: int,
    found: int,
    found_later: int,
    hidden: bool,
    hidden_later: bool,
    jitter: int,
    jitter_later: int,
)
    requires
        0 <= now,
        0 <= jitter,
        now <= scheduled_at(s, now, jitter) <= u64::MAX,
        cues(cfg, s, now, found, hidden, jitter).warning,
    ensures
        !cues(
            cfg,
            next_timer(cfg, s, now, found, hidden, jitter),
            later,
            found_later,
            hidden_later,
            jitter_later,
        ).warning,
{
}

/// Once the warning has played, no tick plays it again before the next scare.
pub proof fn lemma_played_warning_stays_silent(
    cfg: ScreamerSystem,
    s: TimeToScreamer,
    now: int,
    found: int,
    hidden: bool,
    jitter: int,
)
    requires
        s.played,
        s.at != 0,
    ensures
        !cues(cfg, s, now, found, hidden, jitter).warning,
        now <= s.at ==> next_timer(cfg, s, now, found, hidden, jitter).played,
{
}

} // verus!
