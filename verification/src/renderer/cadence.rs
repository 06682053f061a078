//! When to draw the next frame. Times are nanoseconds on one clock; an
//! interval of `None` means no frame-rate cap.
use vstd::prelude::*;

verus! {

/// What a run does with frames: animate, draw one still, or export.
#[derive(Debug, Clone, Copy, PartialEq, Eq, Structural)]
pub enum PolicyKind {
    Animate,
    Still,
    Export,
}

/// Frame cadence of a render policy.
#[derive(Debug, Clone)]
pub struct FrameScheduler {
    kind: PolicyKind,
    target_interval: Option<u128>,
    next_frame_due: Option<u128>,
    rendered_once: bool,
}

impl FrameScheduler {
    pub closed spec fn kind(&self) -> PolicyKind {
        self.kind
    }

    pub closed spec fn interval(&self) -> Option<u128> {
        self.target_interval
    }

    /// When the next animated frame is due.
    pub closed spec fn due(&self) -> Option<u128> {
        self.next_frame_due
    }

    pub closed spec fn rendered(&self) -> bool {
        self.rendered_once
    }

    /// A scheduler for policy `kind`; only an animation keeps an interval,
    /// and a capped animation is due at once.
    pub fn new(kind: PolicyKind, interval: Option<u128>, now: u128) -> (r: Self)
        ensures
            r.kind() == kind,
            r.interval() == (if kind == PolicyKind::Animate { interval } else { None }),
            r.due() == (if r.interval() is Some { Some(now) } else { None }),
            !r.rendered(),
    {
        let target_interval = match kind {
            PolicyKind::Animate => interval,
            _ => None,
        };
        let next_frame_due = match target_interval {
            Some(_) => Some(now),
            None => None,
        };
        FrameScheduler { kind, target_interval, next_frame_due, rendered_once: false }
    }

    /// Switches to another policy and starts its cadence afresh.
    pub fn update_policy(&mut self, kind: PolicyKind, interval: Option<u128>, now: u128)
        ensures
            final(self).kind() == kind,
            final(self).interval() == (if kind == PolicyKind::Animate { interval } else { None }),
            final(self).due() == (if final(self).interval() is Some { Some(now) } else { None }),
            !final(self).rendered(),
    {
        *self = FrameScheduler::new(kind, interval, now);
    }

    /// Changes the frame-rate cap and starts the cadence afresh.
    pub fn set_target_interval(&mut self, interval: Option<u128>, now: u128)
        ensures
            final(self).kind() == old(self).kind(),
            final(self).interval() == interval,
            final(self).due() == (if interval is Some { Some(now) } else { None }),
            !final(self).rendered(),
    {
        self.target_interval = interval;
        self.next_frame_due = match interval {
            Some(_) => Some(now),
            None => None,
        };
        self.rendered_once = false;
    }

    /// Starts the cadence afresh (as after a shader swap).
    pub fn reset(&mut self, now: u128)
        ensures
            final(self).kind() == old(self).kind(),
            final(self).interval() == old(self).interval(),
            final(self).due() == (if old(self).interval() is Some { Some(now) } else { None }),
            !final(self).rendered(),
    {
        self.rendered_once = false;
        self.next_frame_due = match self.target_interval {
            Some(_) => Some(now),
            None => None,
        };
    }

    /// A frame was presented; a still policy draws no more after it.
    pub fn mark_rendered(&mut self)
        ensures
            final(self).kind() == old(self).kind(),
            final(self).interval() == old(self).interval(),
            final(self).due() == old(self).due(),
            final(self).rendered() == (old(self).rendered() || old(self).kind() == PolicyKind::Still),
    {
        if self.kind == PolicyKind::Still {
            self.rendered_once = true;
        }
    }

    /// Whether to draw at `now`: an uncapped animation always; a capped one
    /// once its frame is due (the next then falls an interval later); a
    /// still until its frame is drawn; an export never.
    pub fn ready_for_frame(&mut self, now: u128) -> (r: bool)
        requires
            old(self).interval() matches Some(iv) ==> now + iv <= u128::MAX,
        ensures
            final(self).kind() == old(self).kind(),
            final(self).interval() == old(self).interval(),
            final(self).rendered() == old(self).rendered(),
            match old(self).kind() {
                PolicyKind::Animate => match old(self).interval() {
                    Some(iv) => {
                        let due = match old(self).due() {
                            Some(d) => d,
                            None => now,
                        };
                        &&& r == (now >= due)
                        &&& final(self).due() == (if now >= due { Some((now + iv) as u128) } else { Some(due) })
                    },
                    None => r && final(self).due() == old(self).due(),
                },
                PolicyKind::Still => r == !old(self).rendered() && final(self).due() == old(self).due(),
                PolicyKind::Export => !r && final(self).due() == old(self).due(),
            },
    {
        match self.kind {
            PolicyKind::Animate => match self.target_interval {
                Some(interval) => {
                    let due = match self.next_frame_due {
                        Some(d) => d,
                        None => now,
                    };
                    if now >= due {
                        self.next_frame_due = Some(now + interval);
                        true
                    } else {
                        self.next_frame_due = Some(due);
                        false
                    }
                },
                None => true,
            },
            PolicyKind::Still => !self.rendered_once,
            PolicyKind::Export => false,
        }
    }

    /// The next deadline of an animation.
    pub fn next_deadline(&self) -> (r: Option<u128>)
        ensures
            r == (if self.kind() == PolicyKind::Animate { self.due() } else { None }),
    {
        match self.kind {
            PolicyKind::Animate => self.next_frame_due,
            _ => None,
        }
    }

    pub fn policy_kind(&self) -> (r: PolicyKind)
        ensures
            r == self.kind(),
    {
        self.kind
    }
}

/// The leeway a paced surface allows before its interval is up
/// (nanoseconds).
pub const PACING_SLACK_NANOS: u128 = 250_000;

/// One tick of the pacer at `now`: whether to draw, and the time then
/// accumulated. Without an interval, or at the first tick, it always
/// draws; otherwise it draws once the time accumulated since the last frame
/// (saturating) comes within the slack of the interval, which is then
/// taken off.
pub open spec fn pacer_tick(interval: Option<u128>, accumulated: u128, last: Option<u128>, now: u128) -> (bool, u128) {
    match (interval, last) {
        (Some(iv), Some(l)) => {
            let delta: u128 = if now >= l { (now - l) as u128 } else { 0 };
            let acc: u128 = if accumulated + delta <= u128::MAX {
                (accumulated + delta) as u128
            } else {
                u128::MAX
            };
            let draw = !(acc + PACING_SLACK_NANOS < iv);
            (draw, if draw {
                if acc >= iv { (acc - iv) as u128 } else { 0 }
            } else {
                acc
            })
        },
        _ => (true, accumulated),
    }
}

/// Paces a wallpaper surface to a frame interval by accumulating the time
/// between ticks.
#[derive(Debug, Clone)]
pub struct FramePacer {
    target_interval: Option<u128>,
    accumulator: u128,
    last_tick: Option<u128>,
    is_frame_scheduled: bool,
}

impl FramePacer {
    pub closed spec fn interval(&self) -> Option<u128> {
        self.target_interval
    }

    pub closed spec fn accumulated(&self) -> u128 {
        self.accumulator
    }

    pub closed spec fn last(&self) -> Option<u128> {
        self.last_tick
    }

    /// A frame callback is pending.
    pub closed spec fn scheduled(&self) -> bool {
        self.is_frame_scheduled
    }

    pub fn is_frame_scheduled(&self) -> (r: bool)
        ensures
            r == self.scheduled(),
    {
        self.is_frame_scheduled
    }

    /// Notes whether a frame callback is pending.
    pub fn set_frame_scheduled(&mut self, scheduled: bool)
        ensures
            final(self).scheduled() == scheduled,
            final(self).interval() == old(self).interval(),
            final(self).accumulated() == old(self).accumulated(),
            final(self).last() == old(self).last(),
    {
        self.is_frame_scheduled = scheduled;
    }

    pub fn new(interval: Option<u128>) -> (r: Self)
        ensures
            r.interval() == interval,
            r.accumulated() == 0,
            r.last() is None,
            !r.scheduled(),
    {
        FramePacer { target_interval: interval, accumulator: 0, last_tick: None, is_frame_scheduled: false }
    }

    /// Changes the interval and forgets the time accumulated.
    pub fn set_target_interval(&mut self, interval: Option<u128>)
        ensures
            final(self).interval() == interval,
            final(self).accumulated() == 0,
            final(self).last() is None,
            !final(self).scheduled(),
    {
        self.target_interval = interval;
        self.accumulator = 0;
        self.last_tick = None;
        self.is_frame_scheduled = false;
    }

    /// Forgets the time accumulated and counts from `now`.
    pub fn reset(&mut self, now: u128)
        ensures
            final(self).interval() == old(self).interval(),
            final(self).accumulated() == 0,
            final(self).last() == Some(now),
            !final(self).scheduled(),
    {
        self.accumulator = 0;
        self.last_tick = Some(now);
        self.is_frame_scheduled = false;
    }

    /// Whether to draw at `now`: without an interval, or at the first tick,
    /// always; otherwise once the time accumulated since the last frame
    /// (saturating) comes within the slack of the interval, which is then
    /// taken off.
    pub fn should_render(&mut self, now: u128) -> (r: bool)
        ensures
            final(self).interval() == old(self).interval(),
            final(self).last() == Some(now),
            !final(self).scheduled(),
            (r, final(self).accumulated()) == pacer_tick(old(self).interval(), old(self).accumulated(), old(self).last(), now),
    {
        match (self.target_interval, self.last_tick) {
            (Some(interval), Some(last)) => {
                let delta = now.saturating_sub(last);
                self.last_tick = Some(now);
                self.accumulator = self.accumulator.saturating_add(delta);
                if self.accumulator < interval && interval - self.accumulator > PACING_SLACK_NANOS {
                    self.is_frame_scheduled = false;
                    false
                } else {
                    self.accumulator = self.accumulator.saturating_sub(interval);
                    self.is_frame_scheduled = false;
                    true
                }
            },
            _ => {
                self.last_tick = Some(now);
                self.is_frame_scheduled = false;
                true
            },
        }
    }
}

} // verus!
