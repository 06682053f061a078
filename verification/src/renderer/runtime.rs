//! Run-time policies of the renderer: export formats and time sources.
use vstd::prelude::*;

verus! {

/// File formats of the still/export pipeline.
#[derive(Debug, Clone, Copy, PartialEq, Eq)]
pub enum ExportFormat {
    Png,
    Exr,
}

#[verifier::external_type_specification]
#[verifier::external_body]
pub struct ExInstant(std::time::Instant);

/// `Instant::now`: the monotonic clock's reading; nothing is stated of it.
#[verifier::external_body]
pub(crate) fn instant_now() -> std::time::Instant {
    std::time::Instant::now()
}

/// A time source on the monotonic clock: the moment it started from and the
/// number of frames sampled since.
#[derive(Debug, Clone, Copy)]
pub struct SystemTimeSource {
    origin: std::time::Instant,
    frame: u64,
}

impl SystemTimeSource {
    pub closed spec fn origin_view(&self) -> std::time::Instant {
        self.origin
    }

    pub closed spec fn frame_view(&self) -> u64 {
        self.frame
    }

    /// A source starting now, at frame zero.
    pub fn new() -> (r: Self)
        ensures
            r.frame_view() == 0,
    {
        SystemTimeSource { origin: instant_now(), frame: 0 }
    }

    /// Starts over from now, at frame zero.
    pub fn reset(&mut self)
        ensures
            final(self).frame_view() == 0,
    {
        self.origin = instant_now();
        self.frame = 0;
    }

    /// The moment the source counts from.
    pub fn origin(&self) -> (r: std::time::Instant)
        ensures
            r == self.origin_view(),
    {
        self.origin
    }

    /// The index of the frame being sampled; the count then moves on by
    /// one, staying at its maximum once there.
    pub fn next_frame(&mut self) -> (r: u64)
        ensures
            r == old(self).frame_view(),
            final(self).origin_view() == old(self).origin_view(),
            final(self).frame_view() == (if old(self).frame_view() == u64::MAX {
                u64::MAX
            } else {
                (old(self).frame_view() + 1) as u64
            }),
    {
        let r = self.frame;
        self.frame = self.frame.saturating_add(1);
        r
    }
}

impl Default for SystemTimeSource {
    fn default() -> (r: Self)
        ensures
            r.frame_view() == 0,
    {
        SystemTimeSource::new()
    }
}

} // verus!
