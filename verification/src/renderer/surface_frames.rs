//! The frame bookkeeping of one wallpaper surface: whether it draws, when
//! it asks the compositor for the next frame callback, what a failed frame
//! leads to, and when a run that exports its frame ends.
//!
//! Times are nanoseconds on one clock.
use vstd::prelude::*;
use crate::renderer::cadence::{pacer_tick, FramePacer, PolicyKind};

verus! {

/// The policy draws one frame only (a still or an export).
pub open spec fn single_frame(kind: PolicyKind) -> bool {
    kind != PolicyKind::Animate
}

/// Whether a still or an export draws: until its frame has been drawn.
pub open spec fn single_draws(rendered: bool) -> bool {
    !rendered
}

/// Whether a surface asks the compositor for a frame callback: only with
/// GPU state, not once a still or an export has drawn its frame, and not
/// while one is pending.
pub open spec fn callback_wanted(has_gpu: bool, kind: PolicyKind, rendered: bool, scheduled: bool) -> bool {
    has_gpu && !(single_frame(kind) && rendered) && !scheduled
}

/// Why drawing into the surface failed.
#[derive(Debug, Clone, Copy, PartialEq, Eq, Structural)]
pub enum FrameErrorKind {
    /// The surface must be configured anew.
    Lost,
    /// The surface no longer matches the output.
    Outdated,
    OutOfMemory,
    Timeout,
    Other,
}

/// What a surface does after a failed frame.
#[derive(Debug, Clone, Copy, PartialEq, Eq, Structural)]
pub enum Recovery {
    /// Drop the GPU state and build it again at the last known size.
    RebuildGpu,
    /// Drop the GPU state.
    DropGpu,
    /// Keep everything and try again at the next frame.
    Retry,
}

/// The recovery from a failed frame: a lost or outdated surface gets fresh
/// GPU state (built again when its size is known), exhausted memory drops
/// the GPU state, and other failures are retried.
pub open spec fn recovery_spec(error: FrameErrorKind, size_known: bool) -> Recovery {
    match error {
        FrameErrorKind::Lost | FrameErrorKind::Outdated => if size_known {
            Recovery::RebuildGpu
        } else {
            Recovery::DropGpu
        },
        FrameErrorKind::OutOfMemory => Recovery::DropGpu,
        _ => Recovery::Retry,
    }
}

/// The frame state of a surface.
#[derive(Debug, Clone)]
pub struct SurfaceFrames {
    kind: PolicyKind,
    rendered_once: bool,
    pacer: FramePacer,
}

impl SurfaceFrames {
    pub closed spec fn kind(&self) -> PolicyKind {
        self.kind
    }

    /// The single frame of a still or an export has been drawn.
    pub closed spec fn rendered(&self) -> bool {
        self.rendered_once
    }

    pub closed spec fn pacer(&self) -> FramePacer {
        self.pacer
    }

    /// A surface that has drawn nothing yet, paced to `interval` when it
    /// animates.
    pub fn new(kind: PolicyKind, interval: Option<u128>) -> (r: Self)
        ensures
            r.kind() == kind,
            !r.rendered(),
            r.pacer().interval() == interval,
            r.pacer().accumulated() == 0,
            r.pacer().last() is None,
            !r.pacer().scheduled(),
    {
        SurfaceFrames { kind, rendered_once: false, pacer: FramePacer::new(interval) }
    }

    /// Whether the single frame has been drawn.
    pub fn is_rendered(&self) -> (r: bool)
        ensures
            r == self.rendered(),
    {
        self.rendered_once
    }

    /// A new policy: the frame is to be drawn again, and pacing starts
    /// afresh from `now`.
    pub fn set_policy(&mut self, kind: PolicyKind, now: u128)
        ensures
            final(self).kind() == kind,
            !final(self).rendered(),
            final(self).pacer().interval() == old(self).pacer().interval(),
            final(self).pacer().accumulated() == 0,
            final(self).pacer().last() == Some(now),
            !final(self).pacer().scheduled(),
    {
        self.kind = kind;
        self.rendered_once = false;
        self.pacer.reset(now);
    }

    /// A new frame interval (the renderer's preferences changed): pacing
    /// starts afresh and the frame is to be drawn again.
    pub fn set_interval(&mut self, interval: Option<u128>)
        ensures
            final(self).kind() == old(self).kind(),
            !final(self).rendered(),
            final(self).pacer().interval() == interval,
            final(self).pacer().accumulated() == 0,
            final(self).pacer().last() is None,
            !final(self).pacer().scheduled(),
    {
        self.rendered_once = false;
        self.pacer.set_target_interval(interval);
    }

    /// Whether to draw at `now`: a still or an export draws until its frame
    /// is drawn; an animation draws as its pacer says.
    pub fn should_render(&mut self, now: u128) -> (r: bool)
        ensures
            final(self).kind() == old(self).kind(),
            final(self).rendered() == old(self).rendered(),
            single_frame(old(self).kind()) ==> r == single_draws(old(self).rendered()) && final(self).pacer() == old(self).pacer(),
            !single_frame(old(self).kind()) ==> {
                &&& (r, final(self).pacer().accumulated()) == pacer_tick(
                    old(self).pacer().interval(),
                    old(self).pacer().accumulated(),
                    old(self).pacer().last(),
                    now,
                )
                &&& final(self).pacer().interval() == old(self).pacer().interval()
                &&& final(self).pacer().last() == Some(now)
                &&& !final(self).pacer().scheduled()
            },
    {
        if self.kind != PolicyKind::Animate {
            !self.rendered_once
        } else {
            self.pacer.should_render(now)
        }
    }

    /// Notes a drawn frame; returns whether it was the first frame of a
    /// still or an export.
    pub fn mark_rendered(&mut self) -> (first: bool)
        ensures
            final(self).kind() == old(self).kind(),
            final(self).pacer() == old(self).pacer(),
            single_frame(old(self).kind()) ==> first == !old(self).rendered() && final(self).rendered(),
            !single_frame(old(self).kind()) ==> !first && final(self).rendered() == old(self).rendered(),
    {
        if self.kind != PolicyKind::Animate {
            let first = !self.rendered_once;
            self.rendered_once = true;
            first
        } else {
            false
        }
    }

    /// Whether to ask the compositor for a frame callback now: not without
    /// GPU state, not once a still or an export has drawn its frame (no
    /// callback is then pending), not while one is pending; otherwise one
    /// is asked for and is pending from then on.
    pub fn schedule_next_frame(&mut self, has_gpu: bool) -> (request: bool)
        ensures
            final(self).kind() == old(self).kind(),
            final(self).rendered() == old(self).rendered(),
            final(self).pacer().interval() == old(self).pacer().interval(),
            final(self).pacer().accumulated() == old(self).pacer().accumulated(),
            final(self).pacer().last() == old(self).pacer().last(),
            request == callback_wanted(has_gpu, old(self).kind(), old(self).rendered(), old(self).pacer().scheduled()),
            final(self).pacer().scheduled() == (if !has_gpu {
                old(self).pacer().scheduled()
            } else if single_frame(old(self).kind()) && old(self).rendered() {
                false
            } else {
                true
            }),
    {
        if !has_gpu {
            return false;
        }
        if self.kind != PolicyKind::Animate && self.rendered_once {
            self.pacer.set_frame_scheduled(false);
            return false;
        }
        if self.pacer.is_frame_scheduled() {
            return false;
        }
        self.pacer.set_frame_scheduled(true);
        true
    }

    /// A frame callback arrived: none is pending any more.
    pub fn frame_callback_done(&mut self)
        ensures
            final(self).kind() == old(self).kind(),
            final(self).rendered() == old(self).rendered(),
            final(self).pacer().interval() == old(self).pacer().interval(),
            final(self).pacer().accumulated() == old(self).pacer().accumulated(),
            final(self).pacer().last() == old(self).pacer().last(),
            !final(self).pacer().scheduled(),
    {
        self.pacer.set_frame_scheduled(false);
    }

    /// A failed frame: no callback is pending any more, and the recovery to
    /// carry out is returned.
    pub fn on_render_error(&mut self, error: FrameErrorKind, size_known: bool) -> (r: Recovery)
        ensures
            r == recovery_spec(error, size_known),
            final(self).kind() == old(self).kind(),
            final(self).rendered() == old(self).rendered(),
            final(self).pacer().interval() == old(self).pacer().interval(),
            final(self).pacer().accumulated() == old(self).pacer().accumulated(),
            final(self).pacer().last() == old(self).pacer().last(),
            !final(self).pacer().scheduled(),
    {
        self.pacer.set_frame_scheduled(false);
        match error {
            FrameErrorKind::Lost | FrameErrorKind::Outdated => if size_known {
                Recovery::RebuildGpu
            } else {
                Recovery::DropGpu
            },
            FrameErrorKind::OutOfMemory => Recovery::DropGpu,
            FrameErrorKind::Timeout | FrameErrorKind::Other => Recovery::Retry,
        }
    }
}

/// Whether a finished export ends the run: only when the run exits after
/// exporting, the run's own policy is an export, and the frame just drawn
/// was an export.
pub open spec fn export_ends_run_spec(exit_after_export: bool, base: PolicyKind, drawn: PolicyKind) -> bool {
    exit_after_export && base == PolicyKind::Export && drawn == PolicyKind::Export
}

/// See `export_ends_run_spec`.
pub fn export_ends_run(exit_after_export: bool, base: PolicyKind, drawn: PolicyKind) -> (r: bool)
    ensures
        r == export_ends_run_spec(exit_after_export, base, drawn),
{
    exit_after_export && base == PolicyKind::Export && drawn == PolicyKind::Export
}

/// Whether an exporting run ends because every surface has drawn its frame.
pub open spec fn all_exported_spec(exit_after_export: bool, base: PolicyKind, rendered: Seq<bool>) -> bool {
    exit_after_export && base == PolicyKind::Export && forall|i: int| 0 <= i < rendered.len() ==> rendered[i]
}

/// See `all_exported_spec`.
pub fn all_exported(exit_after_export: bool, base: PolicyKind, rendered: &[bool]) -> (r: bool)
    ensures
        r == all_exported_spec(exit_after_export, base, rendered@),
{
    if !exit_after_export || base != PolicyKind::Export {
        return false;
    }
    let mut i: usize = 0;
    while i < rendered.len()
        invariant
            i <= rendered@.len(),
            forall|j: int| 0 <= j < i ==> rendered@[j],
        decreases rendered@.len() - i,
    {
        if !rendered[i] {
            return false;
        }
        i += 1;
    }
    true
}

/// A still or an export draws one frame: once its frame is marked drawn
/// (see `mark_rendered`), it neither draws again nor asks for a frame
/// callback, until its policy is set anew.
pub proof fn lemma_single_frame_draws_once(s: SurfaceFrames, has_gpu: bool)
    requires
        single_frame(s.kind()),
        s.rendered(),
    ensures
        !single_draws(s.rendered()),
        !callback_wanted(has_gpu, s.kind(), s.rendered(), s.pacer().scheduled()),
{
}

} // verus!
