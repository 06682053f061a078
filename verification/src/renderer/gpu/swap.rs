//! The bookkeeping of a shader swap on the GPU side. A new shader is
//! prepared in the background; each preparation request gets an id, and
//! only the answer to the latest request is kept. A prepared shader waits
//! until its warm-up has passed, then replaces the live one, either at once
//! or through a crossfade over a number of frames.
//!
//! Times are nanoseconds on one clock.
use vstd::prelude::*;

verus! {

/// Crossfades shorter than this (16 ms, about one frame at 60 Hz) are
/// replaced by a hard cut.
pub const MIN_CROSSFADE_NANOS: u64 = 16_000_000;

/// The crossfade a swap gets: none (a hard cut) when the requested one is
/// shorter than `MIN_CROSSFADE_NANOS`, the requested one otherwise.
pub open spec fn effective_crossfade_spec(nanos: u64) -> u64 {
    if nanos < MIN_CROSSFADE_NANOS {
        0
    } else {
        nanos
    }
}

/// See `effective_crossfade_spec`.
pub fn effective_crossfade(nanos: u64) -> (r: u64)
    ensures
        r == effective_crossfade_spec(nanos),
{
    if nanos < MIN_CROSSFADE_NANOS {
        0
    } else {
        nanos
    }
}

/// A prepared shader waiting for its warm-up to pass.
#[derive(Debug, Clone, Copy, PartialEq, Eq, Structural)]
pub struct PendingSwap {
    /// The crossfade requested for it.
    pub crossfade_nanos: u64,
    /// When it may replace the live shader.
    pub warmup_end: u64,
}

/// The state of the swap bookkeeping, as plain values.
pub struct SwapView {
    pub next_id: u64,
    pub awaited: Option<u64>,
    pub pending: Option<PendingSwap>,
}

/// The id that follows `id`, wrapping to 0 after the largest one.
pub open spec fn following_id(id: u64) -> u64 {
    if id == u64::MAX {
        0
    } else {
        (id + 1) as u64
    }
}

/// A new preparation request: it gets the next id, is the one awaited from
/// now on, and drops any prepared shader still warming up.
pub open spec fn after_request(s: SwapView) -> SwapView {
    SwapView { next_id: following_id(s.next_id), awaited: Some(s.next_id), pending: None }
}

/// Whether a preparation result with this id is used: only the answer to
/// the awaited request is.
pub open spec fn answers_awaited(s: SwapView, id: u64) -> bool {
    s.awaited == Some(id)
}

/// A successful preparation arriving at `now`: the awaited one becomes the
/// pending shader, due once `warmup_nanos` have passed; any other is
/// discarded.
pub open spec fn after_ready(s: SwapView, id: u64, crossfade_nanos: u64, warmup_nanos: u64, now: u64) -> SwapView {
    if answers_awaited(s, id) {
        SwapView {
            next_id: s.next_id,
            awaited: None,
            pending: Some(PendingSwap { crossfade_nanos, warmup_end: (now + warmup_nanos) as u64 }),
        }
    } else {
        s
    }
}

/// A failed preparation: the awaited one is no longer awaited; any other is
/// ignored.
pub open spec fn after_failure(s: SwapView, id: u64) -> SwapView {
    if answers_awaited(s, id) {
        SwapView { next_id: s.next_id, awaited: None, pending: s.pending }
    } else {
        s
    }
}

/// Whether the pending shader is due at `now`.
pub open spec fn due(s: SwapView, now: u64) -> bool {
    s.pending matches Some(p) && now >= p.warmup_end
}

/// The bookkeeping of shader swaps of one GPU state.
#[derive(Debug)]
pub struct SwapTracker {
    next_id: u64,
    awaited: Option<u64>,
    pending: Option<PendingSwap>,
}

impl View for SwapTracker {
    type V = SwapView;

    closed spec fn view(&self) -> SwapView {
        SwapView { next_id: self.next_id, awaited: self.awaited, pending: self.pending }
    }
}

impl SwapTracker {
    /// No request made yet; the first one gets id 1.
    pub fn new() -> (r: Self)
        ensures
            r@ == (SwapView { next_id: 1, awaited: None, pending: None }),
    {
        SwapTracker { next_id: 1, awaited: None, pending: None }
    }

    /// Records a new preparation request and returns its id.
    pub fn request(&mut self) -> (id: u64)
        ensures
            id == old(self)@.next_id,
            final(self)@ == after_request(old(self)@),
    {
        let id = self.next_id;
        self.next_id = if id == u64::MAX {
            0
        } else {
            id + 1
        };
        self.awaited = Some(id);
        self.pending = None;
        id
    }

    /// Records a successful preparation; returns whether it was used.
    pub fn on_ready(&mut self, id: u64, crossfade_nanos: u64, warmup_nanos: u64, now: u64) -> (used: bool)
        requires
            now + warmup_nanos <= u64::MAX,
        ensures
            used == answers_awaited(old(self)@, id),
            final(self)@ == after_ready(old(self)@, id, crossfade_nanos, warmup_nanos, now),
    {
        if self.awaited == Some(id) {
            self.awaited = None;
            self.pending = Some(PendingSwap { crossfade_nanos, warmup_end: now + warmup_nanos });
            true
        } else {
            false
        }
    }

    /// Records a failed preparation.
    pub fn on_failed(&mut self, id: u64)
        ensures
            final(self)@ == after_failure(old(self)@, id),
    {
        if self.awaited == Some(id) {
            self.awaited = None;
        }
    }

    /// At a frame drawn at `now`: when the pending shader is due, hands out
    /// its crossfade and forgets it; otherwise it keeps warming up.
    pub fn take_due(&mut self, now: u64) -> (r: Option<u64>)
        ensures
            due(old(self)@, now) ==> r == Some(old(self)@.pending->Some_0.crossfade_nanos) && final(self)@ == (
            SwapView { next_id: old(self)@.next_id, awaited: old(self)@.awaited, pending: None }),
            !due(old(self)@, now) ==> r is None && final(self)@ == old(self)@,
    {
        match self.pending {
            Some(p) => {
                if now >= p.warmup_end {
                    self.pending = None;
                    Some(p.crossfade_nanos)
                } else {
                    None
                }
            },
            None => None,
        }
    }

    /// Whether a prepared shader is warming up.
    pub fn has_pending(&self) -> (r: bool)
        ensures
            r == self@.pending is Some,
    {
        self.pending.is_some()
    }
}

/// Only the answer to the latest request is used: once a new request has
/// been made, the answer to any earlier one (any other id) is discarded
/// and leaves the state as the request left it.
pub proof fn lemma_stale_answer_discarded(s: SwapView, id: u64, crossfade_nanos: u64, warmup_nanos: u64, now: u64)
    requires
        id != s.next_id,
    ensures
        !answers_awaited(after_request(s), id),
        after_ready(after_request(s), id, crossfade_nanos, warmup_nanos, now) == after_request(s),
        after_failure(after_request(s), id) == after_request(s),
{
}

/// An answer is used at most once: after it was used, the same answer
/// arriving again changes nothing.
pub proof fn lemma_answer_used_once(s: SwapView, id: u64, crossfade_nanos: u64, warmup_nanos: u64, now: u64)
    requires
        answers_awaited(s, id),
        now + warmup_nanos <= u64::MAX,
    ensures
        ({
            let t = after_ready(s, id, crossfade_nanos, warmup_nanos, now);
            &&& t.pending == Some(PendingSwap { crossfade_nanos, warmup_end: (now + warmup_nanos) as u64 })
            &&& !answers_awaited(t, id)
            &&& after_ready(t, id, crossfade_nanos, warmup_nanos, now) == t
        }),
{
}

/// How far a crossfade has got: `step` of `steps` frames. The previous
/// shader is drawn with weight `(steps - step) / steps`, the new one with
/// `step / steps`.
pub struct FadeView {
    pub steps: nat,
    pub step: nat,
}

/// One frame further, stopping at the last step.
pub open spec fn advanced(f: FadeView) -> FadeView {
    if f.step < f.steps {
        FadeView { steps: f.steps, step: f.step + 1 }
    } else {
        f
    }
}

/// `f` advanced `n` frames.
pub open spec fn advanced_by(f: FadeView, n: nat) -> FadeView
    decreases n,
{
    if n == 0 {
        f
    } else {
        advanced(advanced_by(f, (n - 1) as nat))
    }
}

/// A crossfade between the previous and the new shader.
#[derive(Debug, Clone, Copy)]
pub struct CrossfadeState {
    steps: u32,
    current_step: u32,
}

impl View for CrossfadeState {
    type V = FadeView;

    closed spec fn view(&self) -> FadeView {
        FadeView { steps: self.steps as nat, step: self.current_step as nat }
    }
}

impl CrossfadeState {
    #[verifier::type_invariant]
    spec fn well_formed(self) -> bool {
        1 <= self.steps && self.current_step <= self.steps
    }

    /// A crossfade over `steps` frames (at least one), at its start.
    pub fn new(steps: u32) -> (r: Self)
        ensures
            r@ == (FadeView { steps: if steps == 0 { 1 } else { steps as nat }, step: 0 }),
    {
        let steps = if steps == 0 {
            1
        } else {
            steps
        };
        CrossfadeState { steps, current_step: 0 }
    }

    /// The weights of the previous and the new shader, as numerators over
    /// the returned denominator; they always add up to it.
    pub fn mixes(&self) -> (r: (u32, u32, u32))
        ensures
            r.0 + r.1 == r.2,
            r.1 == self@.step,
            r.2 == self@.steps,
            r.2 >= 1,
    {
        proof {
            use_type_invariant(self);
        }
        (self.steps - self.current_step, self.current_step, self.steps)
    }

    /// Moves one frame on, stopping at the last step.
    pub fn advance(&mut self)
        ensures
            final(self)@ == advanced(old(self)@),
    {
        proof {
            use_type_invariant(&*self);
        }
        if self.current_step < self.steps {
            self.current_step = self.current_step + 1;
        }
    }

    /// Whether the new shader is fully shown.
    pub fn is_finished(&self) -> (r: bool)
        ensures
            r == (self@.step >= self@.steps),
    {
        self.current_step >= self.steps
    }
}

/// A crossfade over `steps` frames shows the new shader fully after exactly
/// `steps` frames: after `n` frames it is at step `min(n, steps)`.
pub proof fn lemma_fade_finishes_after_steps(steps: nat, n: nat)
    requires
        steps >= 1,
    ensures
        advanced_by(FadeView { steps, step: 0 }, n).steps == steps,
        advanced_by(FadeView { steps, step: 0 }, n).step == (if n < steps { n } else { steps }),
        (advanced_by(FadeView { steps, step: 0 }, n).step >= steps) <==> n >= steps,
    decreases n,
{
    if n > 0 {
        lemma_fade_finishes_after_steps(steps, (n - 1) as nat);
    }
}

} // verus!
