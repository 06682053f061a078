//! The crossfade envelope between two shaders: when it started, how long it
//! lasts and its curve.
use vstd::prelude::*;
use crate::renderer::types::CrossfadeCurve;

verus! {

/// A crossfade in progress. Its length is held in nanoseconds.
#[derive(Debug, Clone, Copy)]
pub struct FadeEnvelope {
    start: std::time::Instant,
    duration_nanos: u128,
    curve: CrossfadeCurve,
}

impl FadeEnvelope {
    pub closed spec fn start_view(&self) -> std::time::Instant {
        self.start
    }

    pub closed spec fn duration_view(&self) -> u128 {
        self.duration_nanos
    }

    pub closed spec fn curve_view(&self) -> CrossfadeCurve {
        self.curve
    }

    /// A crossfade of `duration_nanos` starting at `now`; a zero-length
    /// fade is no fade (a hard cut).
    pub fn new(duration_nanos: u128, curve: CrossfadeCurve, now: std::time::Instant) -> (r: Option<Self>)
        ensures
            duration_nanos == 0 <==> r is None,
            r matches Some(e) ==> e.duration_view() == duration_nanos && e.curve_view() == curve && e.start_view()
                == now,
    {
        if duration_nanos == 0 {
            None
        } else {
            Some(FadeEnvelope { start: now, duration_nanos, curve })
        }
    }

    pub fn start(&self) -> (r: std::time::Instant)
        ensures
            r == self.start_view(),
    {
        self.start
    }

    pub fn duration_nanos(&self) -> (r: u128)
        ensures
            r == self.duration_view(),
    {
        self.duration_nanos
    }

    pub fn curve(&self) -> (r: CrossfadeCurve)
        ensures
            r == self.curve_view(),
    {
        self.curve
    }
}

} // verus!
