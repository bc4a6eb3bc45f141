//! Installing a native target as the window that a session shows on.
use vstd::prelude::*;

use crate::default_framebuffer::default_framebuffer_of;
use crate::drawing_buffer::DrawingBuffer;
use crate::egl_device::EglCall;
use crate::egl_device::EglContextHandle;
use crate::egl_setup::EglError;
use crate::egl_setup::EGL_HEIGHT;
use crate::egl_setup::EGL_WIDTH;
use crate::gl::FRAMEBUFFER;
use crate::gl_device::GlCall;
use crate::manager::BoundContext;
use crate::manager::CanvasEntry;
use crate::manager::CanvasError;
use crate::manager::CanvasInfo;
use crate::manager::CanvasManager;
use crate::manager::Context2d;
use crate::manager::Extent;
use crate::manager::Flags;
use crate::manager::Mgr;
use crate::manager::PendingOnscreen;
use crate::manager::Preserved;
use crate::manager::SurfaceKind;
use crate::manager::Window;
use crate::manager::ONSCREEN;
use crate::onscreen::CandidateCleanup;
use crate::painters::PaintCall;
use crate::pixel_ratio::PixelRatio;

verus! {

/// How an install goes about a native target.
#[derive(Clone, Copy, Debug, PartialEq, Eq, Structural)]
pub enum InstallPolicy {
    /// The window is the same and has its size: nothing is done.
    Skip,
    /// The window is the same with another size: the surface stays.
    FastResize,
    /// A new surface is made.
    Recreate,
}

/// What an install goes by when it decides how to go about its target.
#[derive(Clone, Copy, Debug, PartialEq, Eq, Structural)]
pub struct InstallFacts {
    pub target: u64,
    pub installed: Option<u64>,
    pub installed_size: Option<Extent>,
    pub surface_size: Option<Extent>,
    /// The onscreen canvas has a 2D context.
    pub has_2d: bool,
    /// A 2D context is owed to it.
    pub owes_2d: bool,
    /// The window was taken away.
    pub forced: bool,
}

/// How far an install had come when it failed.
#[derive(Clone, Copy, Debug, PartialEq, Eq, Structural)]
pub enum InstallPhase {
    /// What was on the window before is untouched.
    BeforePreviousInvalidation,
    /// It is gone, and nothing of the candidate was made.
    PreviousInvalidated,
    /// A surface was made on the candidate.
    CandidateReferenced,
}

/// Why an install failed, and what is left.
#[derive(Clone, Copy, Debug, PartialEq, Eq, Structural)]
pub struct SurfaceInstallFailure {
    pub error: CanvasError,
    /// What was on the window before can still be presented.
    pub previous_usable: bool,
    pub phase: InstallPhase,
    pub cleanup: CandidateCleanup,
}

impl SurfaceInstallFailure {
    /// A failure. What was on the window before can be presented only where it could
    /// before, and the install had not touched it.
    pub fn from_phase(
        error: CanvasError,
        had_usable_previous: bool,
        phase: InstallPhase,
        cleanup: CandidateCleanup,
    ) -> (failure: Self)
        ensures
            failure.error == error,
            failure.phase == phase,
            failure.cleanup == cleanup,
            failure.previous_usable == (had_usable_previous && phase
                == InstallPhase::BeforePreviousInvalidation),
    {
        let untouched: bool = match phase {
            InstallPhase::BeforePreviousInvalidation => true,
            _ => false,
        };
        SurfaceInstallFailure {
            error,
            previous_usable: had_usable_previous && untouched,
            phase,
            cleanup,
        }
    }
}

/// The size of the onscreen canvas's surface.
pub open spec fn installed_size(m: Mgr) -> Option<Extent> {
    if m.canvases.dom().contains(ONSCREEN) {
        Some(
            Extent {
                width: m.canvases[ONSCREEN].physical_width,
                height: m.canvases[ONSCREEN].physical_height,
            },
        )
    } else {
        None
    }
}

/// What an install goes by in a session.
pub open spec fn facts_of(m: Mgr, target: u64, size: Option<Extent>) -> InstallFacts {
    InstallFacts {
        target,
        installed: m.window.installed,
        installed_size: installed_size(m),
        surface_size: size,
        has_2d: m.contexts.dom().contains(ONSCREEN),
        owes_2d: m.window.restore_2d is Some,
        forced: m.flags.force_onscreen_recreate,
    }
}

/// A side of a surface: at least one pixel.
pub open spec fn at_least_one(side: u32) -> u32 {
    if side < 1 {
        1
    } else {
        side
    }
}

/// The size that the onscreen canvas's buffer has on a surface: the one that content gave
/// it, else the engine's own.
pub open spec fn backing_for<B: Fn(Extent, PixelRatio) -> Extent>(
    m: Mgr,
    default_backing: B,
    ratio: PixelRatio,
    surface: Extent,
    backing: Extent,
) -> bool {
    match m.window.content_backing {
        Some(size) => backing == size,
        None => call_ensures(default_backing, (surface, ratio), backing),
    }
}

/// A 2D context is there or owed.
pub open spec fn has_or_owes_2d(m: Mgr) -> bool {
    m.contexts.dom().contains(ONSCREEN) || m.window.restore_2d is Some
}

/// What the onscreen canvas's content believes that it paints with.
pub open spec fn believed_state(m: Mgr) -> Option<u64> {
    if m.contexts.dom().contains(ONSCREEN) {
        Some(m.paint.alive[ONSCREEN].state)
    } else {
        m.window.restore_2d
    }
}

/// The 2D context on the books is alive.
pub open spec fn coherent(m: Mgr) -> bool {
    m.contexts.dom().contains(ONSCREEN) ==> m.paint.alive.dom().contains(ONSCREEN)
}

/// Nothing that the onscreen canvas's content believes was lost: a 2D context that was
/// there or owed still is, with the state that its content believes in.
pub open spec fn carries(before: Mgr, after: Mgr) -> bool {
    &&& has_or_owes_2d(before) ==> has_or_owes_2d(after)
    &&& coherent(before) ==> coherent(after)
    &&& after.paint.truthful ==> before.paint.truthful
    &&& after.paint.truthful && coherent(before) ==> believed_state(after) == believed_state(
        before,
    )
}

/// Everything is as it was but the window and what is on it.
#[verifier::opaque]
pub open spec fn only_window_moved(before: Mgr, after: Mgr) -> bool {
    &&& after.cfg == before.cfg
    &&& after.root == before.root
    &&& after.next_canvas_id == before.next_canvas_id
    &&& after.debt == before.debt
    &&& after.copy_fbos == before.copy_fbos
    &&& after.snapshots == before.snapshots
    &&& after.uploads == before.uploads
    &&& after.swap_damage_rejected == before.swap_damage_rejected
    &&& after.window.frame_rate == before.window.frame_rate
    &&& after.window.content_backing == before.window.content_backing
    &&& after.window.pixel_ratio == before.window.pixel_ratio
    &&& after.flags.needs_default_fbo_readback == before.flags.needs_default_fbo_readback
    &&& after.flags.simulated_reset == before.flags.simulated_reset
    &&& after.flags.teardown_complete == before.flags.teardown_complete
    &&& after.flags.native_release_confirmed == before.flags.native_release_confirmed
    &&& after.egl.root == before.egl.root
    &&& after.egl.up == before.egl.up
    &&& after.egl.terminated == before.egl.terminated
    &&& after.egl.uploads == before.egl.uploads
    &&& after.contexts.remove(ONSCREEN) == before.contexts.remove(ONSCREEN)
    &&& after.paint.alive.remove(ONSCREEN) == before.paint.alive.remove(ONSCREEN)
    &&& others_keep(before.canvases, after.canvases)
    &&& carries(before, after)
    &&& crate::manager::grew(before, after)
}

/// The offscreen canvases are the same, but for how they show on the window.
pub open spec fn others_keep(before: Map<u32, CanvasEntry>, after: Map<u32, CanvasEntry>) -> bool {
    forall|id: u32|
        id != ONSCREEN ==> #[trigger] after.dom().contains(id) == before.dom().contains(id) && (
        before.dom().contains(id) ==> crate::binding::same_canvas(before[id], after[id]))
}

/// Every native target that is held was held.
pub open spec fn no_new_target(
    before: crate::egl_device::EglModel,
    after: crate::egl_device::EglModel,
) -> bool {
    within(after.windows, before.windows)
}

/// Every window surface of `some` is in `all`, on the same target.
pub open spec fn within(some: Map<usize, u64>, all: Map<usize, u64>) -> bool {
    forall|s: usize| #[trigger]
        some.dom().contains(s) ==> all.dom().contains(s) && all[s] == some[s]
}

/// A window surface is made, on a target and not yet a canvas's; nothing else new is on a
/// target.
pub open spec fn candidate_made(before: Mgr, after: Mgr, target: u64) -> bool {
    after.pending matches Some(p) && p.target == target && after.egl.windows.dom().contains(
        p.surface,
    ) && after.egl.windows[p.surface] == target && within(
        after.egl.windows.remove(p.surface),
        before.egl.windows,
    )
}

impl<
    F: Fn(GlCall) -> u32,
    H: Fn(EglCall) -> Result<usize, EglError>,
    P: Fn(PaintCall) -> u64,
> CanvasManager<F, H, P> {
    /// The size that the onscreen canvas's buffer has to have on a surface. The one rule
    /// for every install: a size that content chose is content's and does not move with the
    /// window; the engine's own is derived from the surface.
    pub fn onscreen_backing_size<B: Fn(Extent, PixelRatio) -> Extent>(
        &self,
        surface: Extent,
        default_backing: &B,
        ratio: PixelRatio,
    ) -> (backing: Extent)
        requires
            forall|e: Extent, r: PixelRatio| #[trigger] call_requires(*default_backing, (e, r)),
        ensures
            backing_for(self@, *default_backing, ratio, surface, backing),
    {
        match self.window().content_backing {
            Some(size) => size,
            None => default_backing(surface, ratio),
        }
    }

    /// Take the onscreen canvas down, where there is one. The last failure that leaves what
    /// was on the window comes first.
    fn clear_window(&mut self, had_usable_previous: bool) -> (result: Result<
        (),
        SurfaceInstallFailure,
    >)
        requires
            old(self).wf(),
            old(self)@.pending is None,
        ensures
            final(self).wf(),
            only_window_moved(old(self)@, final(self)@),
            final(self)@.egl.rate_requests == old(self)@.egl.rate_requests,
            final(self)@.pending is None,
            no_new_target(old(self)@.egl, final(self)@.egl),
            crate::canvases::same_storage(old(self)@.gl, final(self)@.gl),
            result is Ok ==> final(self)@.preserved == put_by(old(self)@),
            result is Err ==> put_by(final(self)@) == put_by(old(self)@) && final(self)@.preserved
                == old(self)@.preserved && final(self)@.canvases.dom().contains(ONSCREEN) == old(
                self)@.canvases.dom().contains(ONSCREEN),
            final(self)@.flags.force_onscreen_recreate == old(
                self)@.flags.force_onscreen_recreate,
            match result {
                Ok(_) => {
                    &&& !final(self)@.canvases.dom().contains(ONSCREEN)
                    &&& !final(self)@.flags.context_lost
                },
                Err(f) => {
                    &&& crate::manager::refusals(final(self)@) > crate::manager::refusals(
                        old(self)@,
                    )
                    &&& f.cleanup == CandidateCleanup::NotRequired
                    &&& f.error is Egl
                    &&& match f.phase {
                        InstallPhase::BeforePreviousInvalidation => {
                            &&& f.previous_usable == had_usable_previous
                            &&& untouched(old(self)@, final(self)@)
                        },
                        InstallPhase::PreviousInvalidated => !f.previous_usable,
                        InstallPhase::CandidateReferenced => false,
                    }
                },
            },
    {
        proof {
            reveal(only_window_moved);
        }
        if let Err(e) = self.bind_api() {
            return Err(
                SurfaceInstallFailure::from_phase(
                    CanvasError::Egl(e),
                    had_usable_previous,
                    InstallPhase::BeforePreviousInvalidation,
                    CandidateCleanup::NotRequired,
                ),
            );
        }
        let flags = self.flags();
        self.set_flags(Flags { context_lost: false, ..flags });
        let ghost cleared = self@;
        if self.canvas(ONSCREEN).is_some() {
            let gone = self.destroy_onscreen_internal();
            proof {
                lemma_forgetting_carries(cleared, self@);
            }
            if let Err(e) = gone {
                return Err(
                    SurfaceInstallFailure::from_phase(
                        e,
                        had_usable_previous,
                        InstallPhase::PreviousInvalidated,
                        CandidateCleanup::NotRequired,
                    ),
                );
            }
        }
        Ok(())
    }

    /// Make a surface on the candidate and put it by.
    fn stage_surface(&mut self, target: u64) -> (result: Result<(), EglError>)
        requires
            old(self).wf(),
            old(self)@.pending is None,
        ensures
            final(self).wf(),
            only_window_moved(old(self)@, final(self)@),
            final(self)@.canvases == old(self)@.canvases,
            final(self)@.flags == old(self)@.flags,
            final(self)@.egl.rate_requests == old(self)@.egl.rate_requests,
            final(self)@.history.len() == 0,
            final(self)@.plan is None,
            final(self)@.swap_interval == -1,
            final(self)@.preserved == old(self)@.preserved,
            final(self)@.gl == old(self)@.gl,
            match result {
                Ok(_) => candidate_made(old(self)@, final(self)@, target) && (final(
                    self)@.pending->0).context is None,
                Err(_) => final(self)@.pending is None && final(self)@.egl.windows == old(
                    self)@.egl.windows && crate::manager::refusals(final(self)@)
                    > crate::manager::refusals(old(self)@),
            },
    {
        proof {
            reveal(only_window_moved);
        }
        self.reset_swap_interval();
        self.forget_frames();
        match self.create_window_surface(target) {
            Err(e) => Err(e),
            Ok(surface) => {
                self.set_pending(
                    Some(PendingOnscreen { target, surface, context: None, drawing_buffer: None }),
                );
                Ok(())
            },
        }
    }
}

/// What was on the window before is there as it was.
pub open spec fn untouched(before: Mgr, after: Mgr) -> bool {
    &&& after.canvases == before.canvases
    &&& after.contexts == before.contexts
    &&& after.window == before.window
    &&& after.preserved == before.preserved
    &&& after.egl.windows == before.egl.windows
}

proof fn lemma_window_moves(a: Mgr, b: Mgr, c: Mgr)
    requires
        only_window_moved(a, b),
        only_window_moved(b, c),
    ensures
        only_window_moved(a, c),
        crate::manager::refusals(a) <= crate::manager::refusals(b) <= crate::manager::refusals(c),
{
    reveal(only_window_moved);
}

proof fn lemma_forgetting_carries(before: Mgr, after: Mgr)
    requires
        crate::onscreen::only_onscreen_moved(before, after),
        crate::onscreen::onscreen_forgotten(before, after),
    ensures
        carries(before, after),
        after.contexts.remove(ONSCREEN) == before.contexts.remove(ONSCREEN),
        after.paint.alive.remove(ONSCREEN) == before.paint.alive.remove(ONSCREEN),
{
    assert(after.contexts.remove(ONSCREEN) =~= before.contexts.remove(ONSCREEN));
    assert(after.paint.alive.remove(ONSCREEN) =~= before.paint.alive.remove(ONSCREEN));
}

/// The entry of an onscreen canvas on a window surface.
pub open spec fn window_entry(pending: PendingOnscreen, size: Extent) -> CanvasEntry {
    CanvasEntry {
        info: CanvasInfo {
            id: ONSCREEN,
            width: size.width,
            height: size.height,
            is_onscreen: true,
        },
        kind: SurfaceKind::Window,
        physical_width: size.width,
        physical_height: size.height,
        ctx: EglContextHandle { ctx: pending.context->0, surf: Some(pending.surface) },
        drawing_buffer: pending.drawing_buffer,
        bypass_drawing_buffer: false,
        applied_default_framebuffer: None,
    }
}

proof fn lemma_candidate_moves(a: Mgr, b: Mgr)
    requires
        crate::onscreen::only_candidate_moved(a, b),
    ensures
        only_window_moved(a, b),
{
    reveal(only_window_moved);
}

impl<
    F: Fn(GlCall) -> u32,
    H: Fn(EglCall) -> Result<usize, EglError>,
    P: Fn(PaintCall) -> u64,
> CanvasManager<F, H, P> {
    /// Give the candidate a context: the one that was put by, with its drawing buffer, so
    /// that what was drawn is still there, or a new one.
    fn stage_context(&mut self) -> (result: Result<(), (CanvasError, CandidateCleanup)>)
        requires
            old(self).wf(),
            old(self)@.pending is Some,
            (old(self)@.pending->0).context is None,
        ensures
            final(self).wf(),
            only_window_moved(old(self)@, final(self)@),
            crate::onscreen::only_candidate_moved(old(self)@, final(self)@),
            match result {
                Ok(_) => {
                    let before = old(self)@.pending->0;
                    let after = final(self)@.pending->0;
                    &&& final(self)@.pending is Some
                    &&& after.target == before.target
                    &&& after.surface == before.surface
                    &&& after.context is Some
                    &&& after.drawing_buffer == (if old(self)@.preserved.ctx is Some {
                        old(self)@.preserved.db
                    } else {
                        None
                    })
                    &&& old(self)@.preserved.ctx is Some ==> after.context == old(
                        self)@.preserved.ctx && final(self)@.preserved == (Preserved {
                        ctx: None,
                        db: None,
                    })
                    &&& old(self)@.preserved.ctx is None ==> final(self)@.preserved == old(
                        self)@.preserved && crate::egl_device::stepped(
                        old(self)@.egl,
                        final(self)@.egl,
                        creation_step(old(self)@, after.context->0),
                    )
                    &&& final(self)@.egl.windows == old(self)@.egl.windows
                },
                Err((e, cleanup)) => {
                    &&& e is Egl
                    &&& crate::manager::refusals(final(self)@) > crate::manager::refusals(
                        old(self)@,
                    )
                    &&& old(self)@.preserved.ctx is None
                    &&& final(self)@.preserved == old(self)@.preserved
                    &&& match cleanup {
                        CandidateCleanup::NotRequired => false,
                        CandidateCleanup::Released => {
                            &&& final(self)@.pending is None
                            &&& final(self)@.egl.windows == old(self)@.egl.windows.remove(
                                (old(self)@.pending->0).surface,
                            )
                        },
                        CandidateCleanup::Failed => {
                            &&& final(self)@.pending == old(self)@.pending
                            &&& final(self)@.egl.windows == old(self)@.egl.windows
                        },
                    }
                },
            },
    {
        let preserved = self.preserved();
        let result = match self.pending() {
            None => Ok(()),
            Some(pending) => match preserved.ctx {
                Some(ctx) => {
                    self.set_preserved(Preserved { ctx: None, db: None });
                    self.set_pending(
                        Some(
                            PendingOnscreen {
                                context: Some(ctx),
                                drawing_buffer: preserved.db,
                                ..pending
                            },
                        ),
                    );
                    Ok(())
                },
                None => match self.create_context() {
                    Err(e) => {
                        let cleanup = self.cleanup_pending_onscreen();
                        Err((CanvasError::Egl(e), cleanup))
                    },
                    Ok(ctx) => {
                        assert(self@.egl.steps[old(self)@.egl.steps.len() as int]
                            == creation_step(old(self)@, ctx));
                        self.set_pending(
                            Some(
                                PendingOnscreen {
                                    context: Some(ctx),
                                    drawing_buffer: None,
                                    ..pending
                                },
                            ),
                        );
                        Ok(())
                    },
                },
            },
        };
        proof {
            lemma_candidate_moves(old(self)@, self@);
        }
        result
    }

    /// The size of a surface: the one that the platform expects, else what the driver
    /// tells. Some drivers report a surface's sides exchanged, so the platform's word wins.
    fn surface_extent(&mut self, surface: usize, size: Option<Extent>) -> (physical: Extent)
        requires
            old(self).wf(),
        ensures
            final(self).wf(),
            final(self)@ == (Mgr { egl: final(self)@.egl, ..old(self)@ }),
            final(self)@.egl == (crate::egl_device::EglModel {
                refused: final(self)@.egl.refused,
                ..old(self)@.egl
            }),
            crate::egl_device::remembers(old(self)@.egl, final(self)@.egl),
            physical.width >= 1,
            physical.height >= 1,
            size matches Some(s) ==> physical.width == at_least_one(s.width) && physical.height
                == at_least_one(s.height),
    {
        let width: u32 = self.query_side(surface, EGL_WIDTH);
        let height: u32 = self.query_side(surface, EGL_HEIGHT);
        match size {
            None => Extent { width, height },
            Some(s) => Extent {
                width: if s.width < 1 {
                    1
                } else {
                    s.width
                },
                height: if s.height < 1 {
                    1
                } else {
                    s.height
                },
            },
        }
    }

    /// Make the candidate the onscreen canvas's window. This is the one place where an
    /// install commits, so every one of them asks the display for the rate in force.
    fn commit_install(&mut self, size: Option<Extent>) -> (physical: Extent)
        requires
            old(self).wf(),
            old(self)@.pending is Some,
            (old(self)@.pending->0).context is Some,
        ensures
            final(self).wf(),
            only_window_moved(old(self)@, final(self)@),
            crate::manager::same_frames(old(self)@, final(self)@),
            final(self)@.flags == old(self)@.flags,
            final(self)@.pending is None,
            final(self)@.preserved == old(self)@.preserved,
            physical.width >= 1,
            physical.height >= 1,
            size matches Some(s) ==> physical.width == at_least_one(s.width) && physical.height
                == at_least_one(s.height),
            final(self)@.canvases == old(self)@.canvases.insert(
                ONSCREEN,
                window_entry(old(self)@.pending->0, physical),
            ),
            final(self)@.window == (Window {
                installed: Some((old(self)@.pending->0).target),
                ..old(self)@.window
            }),
            final(self)@.egl.rate_requests == old(self)@.egl.rate_requests.push(
                ((old(self)@.pending->0).target, old(self)@.window.frame_rate),
            ),
            final(self)@.egl.windows == old(self)@.egl.windows,
            final(self)@.bound == old(self)@.bound,
            final(self)@.gl == old(self)@.gl,
    {
        proof {
            reveal(only_window_moved);
        }
        let (target, surface, ctx, drawing_buffer) = match self.pending() {
            Some(p) => match p.context {
                Some(ctx) => (p.target, p.surface, ctx, p.drawing_buffer),
                None => (0u64, 0usize, 0usize, None),
            },
            None => (0u64, 0usize, 0usize, None),
        };
        let physical = self.surface_extent(surface, size);
        self.set_pending(None);
        self.put_canvas(
            CanvasEntry {
                info: CanvasInfo {
                    id: ONSCREEN,
                    width: physical.width,
                    height: physical.height,
                    is_onscreen: true,
                },
                kind: SurfaceKind::Window,
                physical_width: physical.width,
                physical_height: physical.height,
                ctx: EglContextHandle { ctx, surf: Some(surface) },
                drawing_buffer,
                bypass_drawing_buffer: false,
                applied_default_framebuffer: None,
            },
        );
        let window = self.window();
        self.set_window(Window { installed: Some(target), ..window });
        self.request_frame_rate(target, window.frame_rate);
        physical
    }

    /// The onscreen canvas could not be brought up on its new window: take it down again.
    fn cleanup_failed_onscreen_install(&mut self) -> (cleanup: CandidateCleanup)
        requires
            old(self).wf(),
            old(self)@.canvases.dom().contains(ONSCREEN),
        ensures
            final(self).wf(),
            only_window_moved(old(self)@, final(self)@),
            final(self)@.pending == old(self)@.pending,
            final(self)@.flags == old(self)@.flags,
            final(self)@.egl.rate_requests == old(self)@.egl.rate_requests,
            crate::canvases::same_storage(old(self)@.gl, final(self)@.gl),
            match cleanup {
                CandidateCleanup::NotRequired => false,
                CandidateCleanup::Released => crate::onscreen::detached(old(self)@, final(self)@),
                CandidateCleanup::Failed => crate::onscreen::retained(old(self)@, final(self)@),
            },
    {
        proof {
            reveal(only_window_moved);
        }
        let gone = self.destroy_onscreen_internal();
        proof {
            lemma_forgetting_carries(old(self)@, self@);
        }
        match gone {
            Ok(_) => CandidateCleanup::Released,
            Err(_) => CandidateCleanup::Failed,
        }
    }
}

/// A canvas with a drawing buffer, whose size content sees. Its context was pointed at
/// `default`, and that is on record.
pub open spec fn with_buffer(entry: CanvasEntry, db: DrawingBuffer, default: Option<u32>) -> CanvasEntry {
    CanvasEntry {
        info: CanvasInfo { width: db.width, height: db.height, ..entry.info },
        drawing_buffer: Some(db),
        applied_default_framebuffer: default,
        ..entry
    }
}

/// The onscreen context draws, without a framebuffer of content's own, into what is on record
/// for it.
pub open spec fn points_at_record(m: Mgr) -> bool {
    let applied = m.canvases[ONSCREEN].applied_default_framebuffer;
    m.canvases[ONSCREEN].drawing_buffer matches Some(db) ==> {
        &&& applied is None || applied == Some(db.fbo)
        &&& m.gl.truthful ==> m.gl.bindings.draw_framebuffer
            == crate::default_framebuffer::name_of(applied)
    }
}

/// What content draws without a framebuffer of its own lands where the onscreen canvas shows:
/// in its drawing buffer, or on the window where that is bypassed.
pub open spec fn points_at_default(m: Mgr) -> bool {
    m.gl.truthful && m.canvases[ONSCREEN].drawing_buffer is Some && m.bound
        == BoundContext::Canvas(ONSCREEN) ==> m.gl.bindings.draw_framebuffer
        == crate::default_framebuffer::name_of(crate::manager::default_fbo(m.canvases[ONSCREEN]))
}

/// Nothing moved but the library's state, what is known of it, and canvases.
pub open spec fn buffer_frame(before: Mgr, after: Mgr) -> bool {
    &&& crate::manager::same_frames(before, after)
    &&& crate::manager::same_session(before, after)
    &&& after.egl == before.egl
    &&& after.paint == before.paint
    &&& after.contexts == before.contexts
    &&& after.bound == before.bound
    &&& after.debt == before.debt
    &&& after.copy_fbos == before.copy_fbos
    &&& after.snapshots == before.snapshots
    &&& after.uploads == before.uploads
    &&& after.gl.viewports == before.gl.viewports
}

proof fn lemma_buffer_moves(a: Mgr, b: Mgr)
    requires
        buffer_frame(a, b),
        b.canvases == a.canvases.insert(ONSCREEN, b.canvases[ONSCREEN]),
    ensures
        only_window_moved(a, b),
{
    reveal(only_window_moved);
}

/// The onscreen canvas's drawing buffer is put together at its size; or it is the one that was
/// put by at that size, as it was. There is none only where none could be made.
pub open spec fn buffer_good(
    put_by: Option<DrawingBuffer>,
    before: crate::gl_device::GlModel,
    after: Mgr,
) -> bool {
    match after.canvases[ONSCREEN].drawing_buffer {
        Some(db) => {
            ||| crate::drawing_buffer::assembled(after.gl, db)
            ||| put_by == Some(db) && crate::canvases::same_storage(before, after.gl)
        },
        None => crate::drawing_buffer::buffer_unmade(before, after.gl),
    }
}

/// The onscreen canvas has a buffer of the size that it has to have, or none and draws
/// straight to its surface.
pub open spec fn buffer_attached(
    before: CanvasEntry,
    after: CanvasEntry,
    wanted: Extent,
    backing: Extent,
) -> bool {
    &&& after.kind == before.kind
    &&& after.ctx == before.ctx
    &&& after.physical_width == before.physical_width
    &&& after.physical_height == before.physical_height
    &&& after.info.id == before.info.id
    &&& after.info.is_onscreen == before.info.is_onscreen
    &&& after.info.width == backing.width
    &&& after.info.height == backing.height
    &&& match after.drawing_buffer {
        Some(db) => db.width == wanted.width && db.height == wanted.height && backing == wanted,
        None => backing.width == before.physical_width && backing.height == before.physical_height,
    }
}

impl<
    F: Fn(GlCall) -> u32,
    H: Fn(EglCall) -> Result<usize, EglError>,
    P: Fn(PaintCall) -> u64,
> CanvasManager<F, H, P> {
    /// Give a drawing buffer that was put by its size. One that cannot have it is deleted:
    /// its storage is not what its record says any more.
    fn fit_preserved(&mut self, staged: Option<DrawingBuffer>, wanted: Extent) -> (fitted: Option<
        DrawingBuffer,
    >)
        requires
            old(self).wf(),
        ensures
            final(self).wf(),
            final(self)@ == (Mgr {
                gl: final(self)@.gl,
                unbuffered: final(self)@.unbuffered,
                ..old(self)@
            }),
            staged is None ==> fitted is None && final(self)@ == old(self)@,
            fitted matches Some(db) ==> staged is Some && db == (DrawingBuffer {
                width: wanted.width,
                height: wanted.height,
                ..staged->0
            }),
            staged matches Some(db) ==> (db.width == wanted.width && db.height == wanted.height
                ==> fitted == staged && final(self)@ == old(self)@),
            fitted matches Some(db) ==> fitted == staged && final(self)@ == old(self)@
                || crate::drawing_buffer::assembled(final(self)@.gl, db),
            final(self)@.gl.refused.len() >= old(self)@.gl.refused.len(),
            final(self)@.gl.statuses.len() >= old(self)@.gl.statuses.len(),
            final(self)@.gl.errors.len() >= old(self)@.gl.errors.len(),
            final(self)@.gl.viewports == old(self)@.gl.viewports,
    {
        match staged {
            None => None,
            Some(db) => {
                if db.width == wanted.width && db.height == wanted.height {
                    return Some(db);
                }
                let mut resized = db;
                if self.resize_drawing_buffer(&mut resized, wanted.width, wanted.height) {
                    Some(resized)
                } else {
                    self.destroy_drawing_buffer(db);
                    None
                }
            },
        }
    }

    /// Point a current onscreen context at a drawing buffer that was put by.
    fn attach_preserved(&mut self, entry: CanvasEntry, db: DrawingBuffer)
        requires
            old(self).wf(),
            entry.info.id == ONSCREEN,
        ensures
            final(self).wf(),
            buffer_frame(old(self)@, final(self)@),
            ({
                let default = if entry.bypass_drawing_buffer {
                    None
                } else {
                    Some(db.fbo)
                };
                &&& final(self)@.canvases == old(self)@.canvases.insert(
                    ONSCREEN,
                    with_buffer(entry, db, default),
                )
                &&& final(self)@.gl.bindings.draw_framebuffer == (match default {
                    Some(fbo) => fbo,
                    None => 0u32,
                })
            }),
            final(self)@.shadows[ONSCREEN].draws_to_default_fbo,
            crate::canvases::same_storage(old(self)@.gl, final(self)@.gl),
    {
        let default = default_framebuffer_of(entry.bypass_drawing_buffer, Some(db.fbo));
        let name: u32 = match default {
            Some(fbo) => fbo,
            None => 0,
        };
        let _ = self.issue_gl(GlCall::BindFramebuffer { target: FRAMEBUFFER, name });
        self.note_default_bind(ONSCREEN);
        self.put_canvas(
            CanvasEntry {
                info: CanvasInfo { width: db.width, height: db.height, ..entry.info },
                drawing_buffer: Some(db),
                applied_default_framebuffer: default,
                ..entry
            },
        );
    }

    /// Make a drawing buffer for the onscreen canvas.
    fn attach_new(&mut self, entry: CanvasEntry, wanted: Extent) -> (made: bool)
        requires
            old(self).wf(),
            entry.info.id == ONSCREEN,
        ensures
            final(self).wf(),
            buffer_frame(old(self)@, final(self)@),
            made ==> exists|db: DrawingBuffer|
                {
                    &&& db.width == wanted.width && db.height == wanted.height
                    &&& crate::drawing_buffer::assembled(final(self)@.gl, db)
                    &&& final(self)@.canvases == old(self)@.canvases.insert(
                        ONSCREEN,
                        #[trigger] with_buffer(entry, db, Some(db.fbo)),
                    )
                    &&& final(self)@.gl.truthful ==> final(self)@.gl.bindings.draw_framebuffer
                        == db.fbo
                },
            !made ==> final(self)@.canvases == old(self)@.canvases.insert(
                ONSCREEN,
                CanvasEntry { drawing_buffer: None, ..entry },
            ) && crate::drawing_buffer::buffer_unmade(old(self)@.gl, final(self)@.gl),
    {
        match self.create_drawing_buffer(wanted.width, wanted.height) {
            Ok(db) => {
                let sized = CanvasEntry {
                    info: CanvasInfo { width: db.width, height: db.height, ..entry.info },
                    drawing_buffer: Some(db),
                    applied_default_framebuffer: Some(db.fbo),
                    ..entry
                };
                self.put_canvas(sized);
                assert(sized == with_buffer(entry, db, Some(db.fbo)));
                true
            },
            Err(_) => {
                self.put_canvas(CanvasEntry { drawing_buffer: None, ..entry });
                false
            },
        }
    }

    /// Attach a drawing buffer to the onscreen canvas, whose context is current: the one
    /// that was put by, with the last frame in it, or a new one. Without one the canvas
    /// draws straight to its surface. The answer is the size that content sees.
    fn attach_buffer(&mut self, wanted: Extent) -> (backing: Extent)
        requires
            old(self).wf(),
            old(self)@.canvases.dom().contains(ONSCREEN),
            old(self)@.canvases[ONSCREEN].info.width == old(self)@.canvases[ONSCREEN].physical_width,
            old(self)@.canvases[ONSCREEN].info.height == old(
                self)@.canvases[ONSCREEN].physical_height,
        ensures
            final(self).wf(),
            buffer_frame(old(self)@, final(self)@),
            only_window_moved(old(self)@, final(self)@),
            final(self)@.canvases == old(self)@.canvases.insert(
                ONSCREEN,
                final(self)@.canvases[ONSCREEN],
            ),
            buffer_attached(
                old(self)@.canvases[ONSCREEN],
                final(self)@.canvases[ONSCREEN],
                wanted,
                backing,
            ),
            points_at_record(final(self)@),
            old(self)@.canvases[ONSCREEN].drawing_buffer matches Some(db) ==> (db.width
                == wanted.width && db.height == wanted.height ==> final(
                self)@.canvases[ONSCREEN].drawing_buffer == Some(db)),
            buffer_good(
                old(self)@.canvases[ONSCREEN].drawing_buffer,
                old(self)@.gl,
                final(self)@,
            ),
    {
        let entry = match self.canvas(ONSCREEN) {
            None => {
                assert(false);
                return wanted;
            },
            Some(entry) => entry,
        };
        match self.fit_preserved(entry.drawing_buffer, wanted) {
            Some(db) => {
                self.attach_preserved(entry, db);
                proof {
                    lemma_buffer_moves(old(self)@, self@);
                }
                wanted
            },
            None => {
                let made: bool = self.attach_new(entry, wanted);
                proof {
                    lemma_buffer_moves(old(self)@, self@);
                }
                if made {
                    wanted
                } else {
                    Extent { width: entry.physical_width, height: entry.physical_height }
                }
            },
        }
    }

    /// A new onscreen context starts with a viewport over its buffer and with nothing known
    /// of its state.
    fn start_context(&mut self, backing: Extent)
        requires
            old(self).wf(),
        ensures
            final(self).wf(),
            only_window_moved(old(self)@, final(self)@),
            crate::manager::same_session(old(self)@, final(self)@),
            final(self)@.egl == old(self)@.egl,
            final(self)@.paint == old(self)@.paint,
            final(self)@.contexts == old(self)@.contexts,
            final(self)@.bound == old(self)@.bound,
            final(self)@.swap_interval == old(self)@.swap_interval,
            old(self)@.history.len() == 0 ==> final(self)@.history.len() == 0,
            old(self)@.plan is None ==> final(self)@.plan is None,
            crate::painting::canvases_stay(old(self)@.canvases, final(self)@.canvases),
            crate::manager::fresh_state(
                final(self)@.shadows[ONSCREEN],
                backing.width,
                backing.height,
            ),
            old(self)@.canvases.dom().contains(ONSCREEN) && points_at_record(old(self)@)
                ==> points_at_default(final(self)@),
            crate::canvases::same_storage(old(self)@.gl, final(self)@.gl),
            final(self)@.gl.viewports == old(self)@.gl.viewports.push(
                (backing.width as i32, backing.height as i32),
            ),
            crate::binding::mode_settled(final(self)@),
    {
        proof {
            reveal(only_window_moved);
            reveal(crate::binding::bypass_evaluated);
        }
        self.evaluate_bypass();
        let _ = self.issue_gl(
            GlCall::Viewport { width: backing.width as i32, height: backing.height as i32 },
        );
        self.fresh_shadow(ONSCREEN, backing.width, backing.height);
    }
}

/// Nothing moved but 2D contexts and what is owed of them.
pub open spec fn painter_frame(before: Mgr, after: Mgr) -> bool {
    &&& crate::manager::same_frames(before, after)
    &&& after.cfg == before.cfg
    &&& after.root == before.root
    &&& after.shared_2d == before.shared_2d
    &&& after.flags == before.flags
    &&& after.pending == before.pending
    &&& after.preserved == before.preserved
    &&& after.next_canvas_id == before.next_canvas_id
    &&& after.gl == before.gl
    &&& after.egl == before.egl
    &&& after.paint.refused.len() >= before.paint.refused.len()
    &&& after.bound == before.bound
    &&& after.canvases == before.canvases
    &&& after.dirty == before.dirty
    &&& after.shadows == before.shadows
    &&& after.debt == before.debt
    &&& after.copy_fbos == before.copy_fbos
    &&& after.snapshots == before.snapshots
    &&& after.uploads == before.uploads
    &&& after.tried == before.tried
    &&& after.paint.forgotten == before.paint.forgotten
}

proof fn lemma_painter_moves(a: Mgr, b: Mgr)
    requires
        painter_frame(a, b),
        carries(a, b),
        b.window.frame_rate == a.window.frame_rate,
        b.window.content_backing == a.window.content_backing,
        b.window.pixel_ratio == a.window.pixel_ratio,
        b.contexts.remove(ONSCREEN) == a.contexts.remove(ONSCREEN),
        b.paint.alive.remove(ONSCREEN) == a.paint.alive.remove(ONSCREEN),
    ensures
        only_window_moved(a, b),
{
    reveal(only_window_moved);
}

/// What the onscreen canvas paints into has that size.
pub open spec fn backs(m: Mgr, backing: Extent) -> bool {
    let (_, width, height) = crate::painting::paint_target(m.canvases[ONSCREEN]);
    backing.width == width && backing.height == height
}

/// Nothing of the window moved but the onscreen canvas's 2D context and what is owed of it.
pub open spec fn only_2d_moved(before: Mgr, after: Mgr) -> bool {
    &&& after.flags == before.flags
    &&& after.pending == before.pending
    &&& after.preserved == before.preserved
    &&& after.window == (Window { restore_2d: after.window.restore_2d, ..before.window })
    &&& after.shadows == before.shadows
    &&& after.swap_interval == before.swap_interval
    &&& crate::manager::same_targets(before.egl, after.egl)
    &&& crate::canvases::same_storage(before.gl, after.gl)
    &&& after.gl.viewports == before.gl.viewports
    &&& crate::painting::canvases_stay(before.canvases, after.canvases)
}

impl<
    F: Fn(GlCall) -> u32,
    H: Fn(EglCall) -> Result<usize, EglError>,
    P: Fn(PaintCall) -> u64,
> CanvasManager<F, H, P> {
    /// Give the onscreen canvas's 2D context the new surface. Where the context does not take
    /// it, the refusal is all that is new.
    fn resize_onscreen_context(&mut self, ctx: Context2d, fbo: u32, backing: Extent) -> (fitted:
        bool)
        requires
            old(self).wf(),
            old(self)@.contexts.dom().contains(ONSCREEN),
        ensures
            final(self).wf(),
            painter_frame(old(self)@, final(self)@),
            final(self)@.window == old(self)@.window,
            final(self)@.paint.alive.dom() == old(self)@.paint.alive.dom(),
            final(self)@.paint.alive[ONSCREEN].state == old(self)@.paint.alive[ONSCREEN].state,
            final(self)@.paint.alive.remove(ONSCREEN) == old(self)@.paint.alive.remove(ONSCREEN),
            final(self)@.paint.truthful == old(self)@.paint.truthful,
            final(self)@.contexts.dom() == old(self)@.contexts.dom(),
            final(self)@.contexts.remove(ONSCREEN) == old(self)@.contexts.remove(ONSCREEN),
            fitted ==> {
                let width = backing.width;
                let height = backing.height;
                &&& final(self)@.contexts == old(self)@.contexts.insert(
                    ONSCREEN,
                    Context2d { fbo, width, height, ..ctx },
                )
                &&& final(self)@.paint == (crate::painters::PaintModel {
                    retargets: old(self)@.paint.retargets.push(
                        crate::painters::Retarget { canvas: ONSCREEN, fbo, width, height },
                    ),
                    alive: crate::painters::retargeted(
                        old(self)@.paint.alive,
                        ONSCREEN,
                        fbo,
                        width,
                        height,
                    ),
                    ..old(self)@.paint
                })
            },
            !fitted ==> final(self)@ == (Mgr {
                paint: crate::painters::PaintModel {
                    refused: old(self)@.paint.refused.push(
                        PaintCall::Resize {
                            canvas: ONSCREEN,
                            fbo,
                            width: backing.width,
                            height: backing.height,
                        },
                    ),
                    ..old(self)@.paint
                },
                ..old(self)@
            }),
    {
        let width: u32 = backing.width;
        let height: u32 = backing.height;
        let reply: u64 = self.issue_paint(
            PaintCall::Resize { canvas: ONSCREEN, fbo, width, height },
        );
        if reply != 0 {
            self.put_context(ONSCREEN, Context2d { fbo, width, height, ..ctx });
            proof {
                assert(self@.contexts.dom() =~= old(self)@.contexts.dom());
                assert(self@.contexts.remove(ONSCREEN) =~= old(self)@.contexts.remove(ONSCREEN));
                assert(self@.paint.alive.dom() =~= old(self)@.paint.alive.dom());
                assert(self@.paint.alive.remove(ONSCREEN) =~= old(self)@.paint.alive.remove(
                    ONSCREEN,
                ));
            }
            true
        } else {
            false
        }
    }

    /// Drop the onscreen canvas's 2D context, and owe it from then on.
    fn owe_context(&mut self)
        requires
            old(self).wf(),
            old(self)@.contexts.dom().contains(ONSCREEN),
        ensures
            final(self).wf(),
            painter_frame(old(self)@, final(self)@),
            carries(old(self)@, final(self)@),
            final(self)@.window == (Window {
                restore_2d: final(self)@.window.restore_2d,
                ..old(self)@.window
            }),
            final(self)@.window.restore_2d is Some,
            final(self)@.contexts == old(self)@.contexts.remove(ONSCREEN),
            final(self)@.paint.alive == old(self)@.paint.alive.remove(ONSCREEN),
    {
        self.stash_onscreen_2d_restore();
        self.drop_2d_context_and_wrappers(ONSCREEN, true);
    }

    /// Give the onscreen canvas's 2D context the new surface, where it still has one. Where
    /// that fails the context is dropped, and owed from then on.
    fn refit_context(&mut self, backing: Extent) -> (fitted: bool)
        requires
            old(self).wf(),
            old(self)@.canvases.dom().contains(ONSCREEN),
            old(self)@.canvases[ONSCREEN].info.is_onscreen,
            backs(old(self)@, backing),
        ensures
            final(self).wf(),
            only_window_moved(old(self)@, final(self)@),
            painter_frame(old(self)@, final(self)@),
            fitted && final(self)@.contexts.dom().contains(ONSCREEN) ==> crate::painting::fits(
                final(self)@,
                ONSCREEN,
            ),
            final(self)@.window == (Window {
                restore_2d: final(self)@.window.restore_2d,
                ..old(self)@.window
            }),
            fitted ==> final(self)@.contexts.dom() == old(self)@.contexts.dom() && final(
                self)@.window == old(self)@.window,
            !fitted ==> !final(self)@.contexts.dom().contains(ONSCREEN) && final(
                self)@.window.restore_2d is Some,
            !old(self)@.contexts.dom().contains(ONSCREEN) ==> fitted,
    {
        let fbo: u32 = match self.canvas(ONSCREEN) {
            Some(entry) => match entry.drawing_buffer {
                Some(db) => db.fbo,
                None => 0,
            },
            None => 0,
        };
        match self.context_2d(ONSCREEN) {
            None => {
                proof {
                    lemma_painter_moves(old(self)@, self@);
                }
                true
            },
            Some(ctx) => {
                if self.resize_onscreen_context(ctx, fbo, backing) {
                    proof {
                        lemma_painter_moves(old(self)@, self@);
                    }
                    return true;
                }
                self.owe_context();
                proof {
                    assert(self@.contexts.remove(ONSCREEN) =~= old(self)@.contexts.remove(
                        ONSCREEN,
                    ));
                    assert(self@.paint.alive.remove(ONSCREEN) =~= old(self)@.paint.alive.remove(
                        ONSCREEN,
                    ));
                    lemma_painter_moves(old(self)@, self@);
                }
                false
            },
        }
    }

    /// Make the onscreen canvas's 2D context again, painting with a state.
    fn make_owed_context(&mut self, state: u64) -> (result: Result<(), CanvasError>)
        requires
            old(self).wf(),
            !old(self)@.contexts.dom().contains(ONSCREEN),
        ensures
            final(self).wf(),
            crate::painting::only_painting_moved(old(self)@, final(self)@),
            final(self)@.paint.truthful == old(self)@.paint.truthful,
            final(self)@.contexts.remove(ONSCREEN) == old(self)@.contexts.remove(ONSCREEN),
            final(self)@.paint.alive.remove(ONSCREEN) == old(self)@.paint.alive.remove(ONSCREEN),
            match result {
                Ok(_) => {
                    &&& final(self)@.contexts.dom().contains(ONSCREEN)
                    &&& final(self)@.paint.alive.dom().contains(ONSCREEN)
                    &&& final(self)@.paint.alive[ONSCREEN].state == state
                    &&& crate::painting::fits(final(self)@, ONSCREEN)
                    &&& crate::binding::mode_settled(final(self)@)
                    &&& crate::binding::serving(final(self)@.bound) == Some(ONSCREEN)
                },
                Err(e) => !final(self)@.contexts.dom().contains(ONSCREEN)
                    && crate::manager::caused(old(self)@, final(self)@, ONSCREEN, e),
            },
    {
        if let Err(e) = self.init_skia_for_canvas(ONSCREEN) {
            return Err(e);
        }
        let _ = self.issue_paint(PaintCall::Adopt { canvas: ONSCREEN, state });
        proof {
            assert(self@.contexts.remove(ONSCREEN) =~= old(self)@.contexts.remove(ONSCREEN));
            assert(self@.paint.alive.remove(ONSCREEN) =~= old(self)@.paint.alive.remove(ONSCREEN));
        }
        Ok(())
    }

    /// Give the onscreen canvas the 2D context that it is owed, painting with what its
    /// content believes that it paints with. The debt is settled only once that is done.
    fn settle_2d(&mut self, fitted: bool) -> (result: Result<(), CanvasError>)
        requires
            old(self).wf(),
            old(self)@.canvases.dom().contains(ONSCREEN),
            !fitted ==> !old(self)@.contexts.dom().contains(ONSCREEN),
            old(self)@.contexts.dom().contains(ONSCREEN) ==> crate::painting::fits(
                old(self)@,
                ONSCREEN,
            ),
            fitted ==> crate::binding::mode_settled(old(self)@),
            !fitted ==> old(self)@.window.restore_2d is Some,
        ensures
            final(self).wf(),
            only_window_moved(old(self)@, final(self)@),
            only_2d_moved(old(self)@, final(self)@),
            old(self)@.history.len() == 0 ==> final(self)@.history.len() == 0,
            old(self)@.plan is None ==> final(self)@.plan is None,
            old(self)@.window.restore_2d is None ==> final(self)@ == old(self)@,
            match result {
                Ok(_) => {
                    &&& final(self)@.window.restore_2d is None
                    &&& final(self)@.bound == old(self)@.bound || crate::binding::serving(
                        final(self)@.bound,
                    ) == Some(ONSCREEN)
                    &&& has_or_owes_2d(old(self)@) ==> final(self)@.contexts.dom().contains(
                        ONSCREEN,
                    )
                    &&& final(self)@.contexts.dom().contains(ONSCREEN) ==> crate::painting::fits(
                        final(self)@,
                        ONSCREEN,
                    )
                    &&& crate::binding::mode_settled(final(self)@)
                },
                Err(_) => final(self)@.window == old(self)@.window && crate::manager::refusals(
                    final(self)@,
                ) > crate::manager::refusals(old(self)@),
            },
    {
        let window = self.window();
        let state: u64 = match window.restore_2d {
            None => {
                proof {
                    lemma_painter_moves(old(self)@, self@);
                }
                return Ok(());
            },
            Some(state) => state,
        };
        if self.context_2d(ONSCREEN).is_none() || !fitted {
            let made = self.make_owed_context(state);
            proof {
                lemma_painting_moves(old(self)@, self@);
            }
            if let Err(e) = made {
                return Err(e);
            }
        } else {
            proof {
                lemma_painter_moves(old(self)@, self@);
            }
        }
        let ghost painted = self@;
        self.set_window(Window { restore_2d: None, ..window });
        proof {
            lemma_painter_moves(painted, self@);
            lemma_window_moves(old(self)@, painted, self@);
        }
        Ok(())
    }
}

/// No install moves the pixel ratio before it is done.
proof fn lemma_ratio_stays(a: Mgr, b: Mgr)
    requires
        only_window_moved(a, b) || only_surface_resized(a, b),
    ensures
        b.window.pixel_ratio == a.window.pixel_ratio,
{
    reveal(only_window_moved);
}

/// Painting moves leave the window alone.
proof fn lemma_painting_moves(a: Mgr, b: Mgr)
    requires
        crate::painting::only_painting_moved(a, b),
        carries(a, b),
        b.contexts.remove(ONSCREEN) == a.contexts.remove(ONSCREEN),
        b.paint.alive.remove(ONSCREEN) == a.paint.alive.remove(ONSCREEN),
    ensures
        only_window_moved(a, b),
{
    reveal(only_window_moved);
}

proof fn lemma_binding_moves(a: Mgr, b: Mgr)
    requires
        crate::binding::only_binding_moved(a, b),
    ensures
        only_window_moved(a, b),
{
    reveal(only_window_moved);
}

/// The viewport was set, last of all, to cover the onscreen canvas's buffer; its 2D context
/// paints into that buffer; and it shows as it may.
pub open spec fn viewed_at(before: Mgr, after: Mgr, backing: Extent) -> bool {
    &&& after.gl.viewports.len() > before.gl.viewports.len()
    &&& after.gl.viewports.last() == (backing.width as i32, backing.height as i32)
    &&& after.contexts.dom().contains(ONSCREEN) ==> crate::painting::fits(after, ONSCREEN)
    &&& crate::binding::mode_settled(after)
}

/// The onscreen canvas has what it needs on its surface: a buffer of its size, a 2D context
/// if one was there or owed, and nothing known of the state of its context.
pub open spec fn brought_up<B: Fn(Extent, PixelRatio) -> Extent>(
    before: Mgr,
    after: Mgr,
    default_backing: B,
    ratio: PixelRatio,
    backing: Extent,
) -> bool {
    let entry = before.canvases[ONSCREEN];
    let physical = Extent { width: entry.physical_width, height: entry.physical_height };
    &&& exists|wanted: Extent|
        {
            &&& #[trigger] backing_for(before, default_backing, ratio, physical, wanted)
            &&& buffer_attached(entry, after.canvases[ONSCREEN], wanted, backing)
        }
    &&& crate::manager::fresh_state(after.shadows[ONSCREEN], backing.width, backing.height)
    &&& buffer_good(entry.drawing_buffer, before.gl, after)
    &&& after.window.restore_2d is None
    &&& has_or_owes_2d(before) ==> after.contexts.dom().contains(ONSCREEN)
    &&& viewed_at(before, after, backing)
    &&& crate::binding::serving(after.bound) == Some(ONSCREEN)
    &&& !after.contexts.dom().contains(ONSCREEN) ==> points_at_default(after)
}

/// The onscreen canvas is on the same window.
pub open spec fn same_window(before: Mgr, after: Mgr) -> bool {
    &&& after.flags == before.flags
    &&& after.pending == before.pending
    &&& after.preserved == before.preserved
    &&& after.window.installed == before.window.installed
    &&& after.swap_interval == before.swap_interval
    &&& after.egl.windows == before.egl.windows
    &&& after.egl.rate_requests == before.egl.rate_requests
    &&& after.canvases.dom().contains(ONSCREEN) == before.canvases.dom().contains(ONSCREEN)
    &&& after.canvases[ONSCREEN].ctx == before.canvases[ONSCREEN].ctx
    &&& after.canvases[ONSCREEN].kind == before.canvases[ONSCREEN].kind
    &&& before.history.len() == 0 ==> after.history.len() == 0
    &&& before.plan is None ==> after.plan is None
}

impl<
    F: Fn(GlCall) -> u32,
    H: Fn(EglCall) -> Result<usize, EglError>,
    P: Fn(PaintCall) -> u64,
> CanvasManager<F, H, P> {
    /// Give the onscreen canvas its 2D context on a new surface.
    fn bring_2d_up(&mut self, backing: Extent) -> (result: Result<(), CanvasError>)
        requires
            old(self).wf(),
            old(self)@.canvases.dom().contains(ONSCREEN),
            old(self)@.canvases[ONSCREEN].info.is_onscreen,
            backs(old(self)@, backing),
            crate::binding::mode_settled(old(self)@),
        ensures
            final(self).wf(),
            only_window_moved(old(self)@, final(self)@),
            same_window(old(self)@, final(self)@),
            final(self)@.gl.viewports == old(self)@.gl.viewports,
            final(self)@.shadows == old(self)@.shadows,
            crate::canvases::same_storage(old(self)@.gl, final(self)@.gl),
            crate::painting::canvases_stay(old(self)@.canvases, final(self)@.canvases),
            !has_or_owes_2d(old(self)@) ==> {
                &&& final(self)@.gl == old(self)@.gl
                &&& final(self)@.canvases == old(self)@.canvases
                &&& final(self)@.bound == old(self)@.bound
            },
            result is Ok ==> {
                &&& final(self)@.window.restore_2d is None
                &&& has_or_owes_2d(old(self)@) ==> final(self)@.contexts.dom().contains(ONSCREEN)
                &&& final(self)@.contexts.dom().contains(ONSCREEN) ==> crate::painting::fits(
                    final(self)@,
                    ONSCREEN,
                )
                &&& crate::binding::mode_settled(final(self)@)
                &&& final(self)@.bound == old(self)@.bound || crate::binding::serving(
                    final(self)@.bound,
                ) == Some(ONSCREEN)
            },
            result is Err ==> crate::manager::refusals(final(self)@) > crate::manager::refusals(
                old(self)@,
            ),
    {
        let fitted: bool = self.refit_context(backing);
        let ghost refitted = self@;
        let result = self.settle_2d(fitted);
        proof {
            lemma_window_moves(old(self)@, refitted, self@);
        }
        result
    }

    /// Bring the onscreen canvas up on the window that it was put on. The answer is the
    /// size that content sees.
    fn bring_up<B: Fn(Extent, PixelRatio) -> Extent>(&mut self, default_backing: &B, ratio: PixelRatio) -> (result: Result<
        Extent,
        CanvasError,
    >)
        requires
            old(self).wf(),
            forall|e: Extent, r: PixelRatio| #[trigger] call_requires(*default_backing, (e, r)),
            old(self)@.canvases.dom().contains(ONSCREEN),
            old(self)@.canvases[ONSCREEN].info.width == old(self)@.canvases[ONSCREEN].physical_width,
            old(self)@.canvases[ONSCREEN].info.height == old(
                self)@.canvases[ONSCREEN].physical_height,
            old(self)@.canvases[ONSCREEN].info.is_onscreen,
        ensures
            final(self).wf(),
            only_window_moved(old(self)@, final(self)@),
            same_window(old(self)@, final(self)@),
            result matches Ok(backing) ==> brought_up(
                old(self)@,
                final(self)@,
                *default_backing,
                ratio,
                backing,
            ),
            result is Err ==> crate::manager::refusals(final(self)@) > crate::manager::refusals(
                old(self)@,
            ) && buffer_kept(
                old(self)@.canvases[ONSCREEN].drawing_buffer,
                final(self)@.canvases[ONSCREEN].drawing_buffer,
                old(self)@.gl,
                final(self)@.gl,
            ),
    {
        if let Err(e) = self.make_current_needed(ONSCREEN) {
            proof {
                lemma_binding_moves(old(self)@, self@);
            }
            return Err(e);
        }
        let ghost current = self@;
        proof {
            lemma_binding_moves(old(self)@, current);
        }
        let physical = match self.canvas(ONSCREEN) {
            None => {
                return Err(CanvasError::NotFound);
            },
            Some(entry) => Extent { width: entry.physical_width, height: entry.physical_height },
        };
        let wanted = self.onscreen_backing_size(physical, default_backing, ratio);
        assert(backing_for(old(self)@, *default_backing, ratio, physical, wanted));
        let backing = self.attach_buffer(wanted);
        let ghost attached = self@;
        self.start_context(backing);
        let ghost started = self@;
        assert(started.canvases.dom().contains(ONSCREEN));
        assert(crate::binding::same_canvas(
            attached.canvases[ONSCREEN],
            started.canvases[ONSCREEN],
        ));
        let result = self.bring_2d_up(backing);
        proof {
            lemma_window_moves(old(self)@, current, attached);
            lemma_window_moves(old(self)@, attached, started);
            lemma_window_moves(old(self)@, started, self@);
            lemma_carried_forward(old(self)@, started);
        }
        match result {
            Err(e) => Err(e),
            Ok(_) => Ok(backing),
        }
    }
}

proof fn lemma_carried_forward(a: Mgr, b: Mgr)
    requires
        only_window_moved(a, b),
    ensures
        carries(a, b),
{
    reveal(only_window_moved);
}

/// The onscreen canvas shows on a native target, on a surface of its own.
pub open spec fn shows_on(m: Mgr, target: u64) -> bool {
    &&& m.canvases.dom().contains(ONSCREEN)
    &&& m.canvases[ONSCREEN].kind == SurfaceKind::Window
    &&& m.window.installed == Some(target)
    &&& m.canvases[ONSCREEN].ctx.surf matches Some(s) && m.egl.windows.dom().contains(s)
        && m.egl.windows[s] == target
}

/// The onscreen canvas's context and drawing buffer, which outlast its surface.
pub open spec fn put_by(m: Mgr) -> Preserved {
    if m.canvases.dom().contains(ONSCREEN) {
        Preserved {
            ctx: Some(m.canvases[ONSCREEN].ctx.ctx),
            db: m.canvases[ONSCREEN].drawing_buffer,
        }
    } else {
        m.preserved
    }
}

/// The step by which a context of the session's was created.
pub open spec fn creation_step(m: Mgr, context: usize) -> crate::egl_device::Step {
    crate::egl_device::Step::ContextMade {
        call: crate::manager::context_call(m.cfg, m.root),
        context,
    }
}

/// A context is the one that the onscreen canvas had, or that was put by; where there was
/// none, it was created since, sharing the root's objects.
pub open spec fn window_context(before: Mgr, after: Mgr, context: usize) -> bool {
    match put_by(before).ctx {
        Some(ctx) => context == ctx,
        None => crate::egl_device::stepped(
            before.egl,
            after.egl,
            creation_step(before, context),
        ),
    }
}

/// A drawing buffer is the one that was there, or one that was put together since in its
/// place; there is none only where none could be made.
pub open spec fn buffer_kept(
    kept: Option<DrawingBuffer>,
    now: Option<DrawingBuffer>,
    before: crate::gl_device::GlModel,
    after: crate::gl_device::GlModel,
) -> bool {
    ||| now == kept
    ||| match now {
        Some(db) => crate::drawing_buffer::assembled(after, db),
        None => crate::drawing_buffer::buffer_unmade(before, after),
    }
}

/// A native target was installed on a new surface. The context that was there, or put by,
/// is there again with its drawing buffer, so that what was drawn is not lost.
pub open spec fn installed_anew<B: Fn(Extent, PixelRatio) -> Extent>(
    before: Mgr,
    after: Mgr,
    target: u64,
    size: Option<Extent>,
    default_backing: B,
    ratio: PixelRatio,
) -> bool {
    let kept = put_by(before);
    &&& shown_anew(before, after, target, size, default_backing, ratio)
    &&& window_context(before, after, after.canvases[ONSCREEN].ctx.ctx)
    &&& match kept.ctx {
        Some(_) => buffer_good(kept.db, before.gl, after),
        None => buffer_good(None, before.gl, after),
    }
}

/// The onscreen canvas shows on a native target, with everything that it needs there.
pub open spec fn shown_anew<B: Fn(Extent, PixelRatio) -> Extent>(
    before: Mgr,
    after: Mgr,
    target: u64,
    size: Option<Extent>,
    default_backing: B,
    ratio: PixelRatio,
) -> bool {
    let entry = after.canvases[ONSCREEN];
    let physical = Extent { width: entry.physical_width, height: entry.physical_height };
    let backing = Extent { width: entry.info.width, height: entry.info.height };
    &&& shows_on(after, target)
    &&& after.pending is None
    &&& entry.info.is_onscreen
    &&& physical.width >= 1
    &&& physical.height >= 1
    &&& size matches Some(s) ==> physical.width == at_least_one(s.width) && physical.height
        == at_least_one(s.height)
    &&& match entry.drawing_buffer {
        Some(db) => {
            &&& db.width == backing.width && db.height == backing.height
            &&& backing_for(before, default_backing, ratio, physical, backing)
        },
        None => backing == physical,
    }
    &&& crate::manager::fresh_state(after.shadows[ONSCREEN], backing.width, backing.height)
    &&& after.egl.rate_requests == before.egl.rate_requests.push(
        (target, before.window.frame_rate),
    )
    &&& after.window.restore_2d is None
    &&& has_or_owes_2d(before) ==> after.contexts.dom().contains(ONSCREEN)
    &&& viewed_at(before, after, backing)
    &&& crate::binding::serving(after.bound) == Some(ONSCREEN)
    &&& !after.contexts.dom().contains(ONSCREEN) ==> points_at_default(after)
    &&& !after.flags.context_lost
    &&& !after.flags.surface_unavailable
    &&& after.history.len() == 0
    &&& after.plan is None
    &&& after.swap_interval == -1
    &&& within(after.egl.windows.remove(entry.ctx.surf->0), before.egl.windows)
}

/// The requests for frame rates once a target was asked for the one in force.
pub open spec fn rate_requested(before: Mgr, target: u64) -> Seq<(u64, u32)> {
    before.egl.rate_requests.push((target, before.window.frame_rate))
}

/// An install failed, and what is left of the candidate is what the failure says. A target
/// that became the installed one was asked for the rate in force, once; where it was let go
/// again, the context that it was shown with is put by.
pub open spec fn install_failed(
    before: Mgr,
    after: Mgr,
    target: u64,
    had_usable_previous: bool,
    f: SurfaceInstallFailure,
) -> bool {
    &&& crate::manager::refusals(after) > crate::manager::refusals(before)
    &&& match f.phase {
        InstallPhase::BeforePreviousInvalidation => {
            &&& f.previous_usable == had_usable_previous
            &&& f.cleanup == CandidateCleanup::NotRequired
            &&& untouched(before, after)
            &&& after.pending == before.pending
            &&& after.egl.rate_requests == before.egl.rate_requests
        },
        InstallPhase::PreviousInvalidated => {
            &&& !f.previous_usable
            &&& f.cleanup == CandidateCleanup::NotRequired
            &&& after.pending is None
            &&& no_new_target(before.egl, after.egl)
            &&& after.egl.rate_requests == before.egl.rate_requests
            // The pair is put by for the next window, or the canvas is still there with it.
            &&& put_by(after) == put_by(before)
            &&& after.canvases.dom().contains(ONSCREEN) ==> before.canvases.dom().contains(
                ONSCREEN,
            ) && after.preserved == before.preserved
        },
        InstallPhase::CandidateReferenced => {
            &&& !f.previous_usable
            &&& match f.cleanup {
                CandidateCleanup::NotRequired => false,
                CandidateCleanup::Released => {
                    &&& after.pending is None
                    &&& !after.canvases.dom().contains(ONSCREEN)
                    &&& no_new_target(before.egl, after.egl)
                    &&& match after.preserved.ctx {
                        Some(ctx) => {
                            // The canvas was on the window: its pair is put by again.
                            &&& window_context(before, after, ctx)
                            &&& buffer_kept(
                                if put_by(before).ctx is Some {
                                    put_by(before).db
                                } else {
                                    None
                                },
                                after.preserved.db,
                                before.gl,
                                after.gl,
                            )
                            &&& after.egl.rate_requests == rate_requested(before, target)
                        },
                        None => {
                            // No context could be made for it.
                            &&& after.preserved == put_by(before)
                            &&& after.egl.rate_requests == before.egl.rate_requests
                        },
                    }
                },
                CandidateCleanup::Failed => {
                    ||| {
                        &&& candidate_made(before, after, target)
                        &&& after.egl.rate_requests == before.egl.rate_requests
                        &&& after.preserved == put_by(before)
                    }
                    ||| {
                        &&& shows_on(after, target)
                        &&& after.egl.rate_requests == rate_requested(before, target)
                        &&& window_context(before, after, after.canvases[ONSCREEN].ctx.ctx)
                    }
                },
            }
        },
    }
}

impl<
    F: Fn(GlCall) -> u32,
    H: Fn(EglCall) -> Result<usize, EglError>,
    P: Fn(PaintCall) -> u64,
> CanvasManager<F, H, P> {
    /// Put the onscreen canvas on the surface that was made for it, and bring it up there.
    fn show_candidate<B: Fn(Extent, PixelRatio) -> Extent>(
        &mut self,
        size: Option<Extent>,
        default_backing: &B,
        ratio: PixelRatio,
    ) -> (result: Result<(), (CanvasError, CandidateCleanup)>)
        requires
            old(self).wf(),
            forall|e: Extent, r: PixelRatio| #[trigger] call_requires(*default_backing, (e, r)),
            old(self)@.pending is Some,
            (old(self)@.pending->0).context is Some,
            old(self)@.egl.windows.dom().contains((old(self)@.pending->0).surface),
            old(self)@.egl.windows[(old(self)@.pending->0).surface] == (old(
                self)@.pending->0).target,
            !old(self)@.flags.context_lost,
            old(self)@.history.len() == 0,
            old(self)@.plan is None,
            old(self)@.swap_interval == -1,
        ensures
            final(self).wf(),
            only_window_moved(old(self)@, final(self)@),
            final(self)@.flags.force_onscreen_recreate == old(
                self)@.flags.force_onscreen_recreate,
            match result {
                Ok(_) => shown_anew(
                    old(self)@,
                    final(self)@,
                    (old(self)@.pending->0).target,
                    size,
                    *default_backing,
                    ratio,
                ) && buffer_good(
                    (old(self)@.pending->0).drawing_buffer,
                    old(self)@.gl,
                    final(self)@,
                ) && (final(self)@.canvases[ONSCREEN].ctx.surf == Some(
                    (old(self)@.pending->0).surface,
                )) && final(self)@.egl.windows == old(self)@.egl.windows && (old(
                    self)@.pending->0).context == Some(final(self)@.canvases[ONSCREEN].ctx.ctx),
                Err((_, cleanup)) => {
                    &&& final(self)@.pending is None
                    &&& final(self)@.egl.rate_requests == rate_requested(
                        old(self)@,
                        (old(self)@.pending->0).target,
                    )
                    &&& crate::manager::refusals(final(self)@) > crate::manager::refusals(
                        old(self)@,
                    )
                    &&& match cleanup {
                        CandidateCleanup::NotRequired => false,
                        CandidateCleanup::Released => {
                            &&& !final(self)@.canvases.dom().contains(ONSCREEN)
                            &&& final(self)@.preserved.ctx == (old(self)@.pending->0).context
                            &&& buffer_kept(
                                (old(self)@.pending->0).drawing_buffer,
                                final(self)@.preserved.db,
                                old(self)@.gl,
                                final(self)@.gl,
                            )
                            &&& final(self)@.egl.windows == old(self)@.egl.windows.remove(
                                (old(self)@.pending->0).surface,
                            )
                        },
                        CandidateCleanup::Failed => {
                            &&& shows_on(final(self)@, (old(self)@.pending->0).target)
                            &&& Some(final(self)@.canvases[ONSCREEN].ctx.ctx) == (old(
                                self)@.pending->0).context
                        },
                    }
                },
            },
    {
        let physical = self.commit_install(size);
        let ghost committed = self@;
        let up = self.bring_up(default_backing, ratio);
        let ghost tried = self@;
        proof {
            lemma_window_moves(old(self)@, committed, tried);
            lemma_carried_forward(old(self)@, committed);
        }
        match up {
            Err(e) => {
                let cleanup = self.cleanup_failed_onscreen_install();
                proof {
                    lemma_window_moves(old(self)@, tried, self@);
                }
                Err((e, cleanup))
            },
            Ok(backing) => {
                let flags = self.flags();
                self.set_flags(Flags { surface_unavailable: false, ..flags });
                proof {
                    assert(only_window_moved(tried, self@)) by {
                        reveal(only_window_moved);
                    }
                    lemma_window_moves(old(self)@, tried, self@);
                }
                Ok(())
            },
        }
    }
}

impl<
    F: Fn(GlCall) -> u32,
    H: Fn(EglCall) -> Result<usize, EglError>,
    P: Fn(PaintCall) -> u64,
> CanvasManager<F, H, P> {
    /// Put the onscreen canvas on a new surface on a native target.
    fn recreate_onscreen<B: Fn(Extent, PixelRatio) -> Extent>(
        &mut self,
        target: u64,
        size: Option<Extent>,
        had_usable_previous: bool,
        default_backing: &B,
        ratio: PixelRatio,
    ) -> (result: Result<(), SurfaceInstallFailure>)
        requires
            old(self).wf(),
            forall|e: Extent, r: PixelRatio| #[trigger] call_requires(*default_backing, (e, r)),
            old(self)@.pending is None,
        ensures
            final(self).wf(),
            only_window_moved(old(self)@, final(self)@),
            final(self)@.flags.force_onscreen_recreate == old(
                self)@.flags.force_onscreen_recreate,
            match result {
                Ok(_) => installed_anew(old(self)@, final(self)@, target, size, *default_backing, ratio),
                Err(f) => install_failed(
                    old(self)@,
                    final(self)@,
                    target,
                    had_usable_previous,
                    f,
                ),
            },
    {
        if let Err(f) = self.clear_window(had_usable_previous) {
            return Err(f);
        }
        let ghost cleared = self@;
        proof {
            lemma_carried_forward(old(self)@, cleared);
            lemma_window_named(old(self)@, cleared);
        }
        if let Err(e) = self.stage_surface(target) {
            proof {
                lemma_window_moves(old(self)@, cleared, self@);
            }
            return Err(
                SurfaceInstallFailure::from_phase(
                    CanvasError::Egl(e),
                    had_usable_previous,
                    InstallPhase::PreviousInvalidated,
                    CandidateCleanup::NotRequired,
                ),
            );
        }
        let ghost surfaced = self@;
        proof {
            lemma_window_moves(old(self)@, cleared, surfaced);
            lemma_carried_forward(old(self)@, surfaced);
            lemma_window_named(old(self)@, surfaced);
        }
        if let Err((e, cleanup)) = self.stage_context() {
            proof {
                lemma_window_moves(old(self)@, surfaced, self@);
            }
            return Err(
                SurfaceInstallFailure::from_phase(
                    e,
                    had_usable_previous,
                    InstallPhase::CandidateReferenced,
                    cleanup,
                ),
            );
        }
        let ghost staged = self@;
        proof {
            lemma_window_moves(old(self)@, surfaced, staged);
            lemma_carried_forward(old(self)@, staged);
            lemma_window_named(old(self)@, staged);
        }
        let shown = self.show_candidate(size, default_backing, ratio);
        proof {
            lemma_window_moves(old(self)@, staged, self@);
            lemma_window_named(staged, self@);
            crate::egl_device::lemma_step_within(
                old(self)@.egl,
                surfaced.egl,
                staged.egl,
                self@.egl,
                creation_step(surfaced, (staged.pending->0).context->0),
            );
        }
        match shown {
            Ok(_) => Ok(()),
            Err((e, cleanup)) => Err(
                SurfaceInstallFailure::from_phase(
                    e,
                    had_usable_previous,
                    InstallPhase::CandidateReferenced,
                    cleanup,
                ),
            ),
        }
    }
}

proof fn lemma_window_named(a: Mgr, b: Mgr)
    requires
        only_window_moved(a, b),
    ensures
        b.window.frame_rate == a.window.frame_rate,
        b.window.content_backing == a.window.content_backing,
        b.window.pixel_ratio == a.window.pixel_ratio,
        b.cfg == a.cfg,
        b.root == a.root,
        crate::manager::grew(a, b),
{
    reveal(only_window_moved);
}

/// Everything is as it was but the size of the onscreen canvas and what follows from it.
pub open spec fn only_surface_resized(before: Mgr, after: Mgr) -> bool {
    &&& after.cfg == before.cfg
    &&& after.root == before.root
    &&& after.window == before.window
    &&& after.pending == before.pending
    &&& after.preserved == before.preserved
    &&& after.next_canvas_id == before.next_canvas_id
    &&& after.debt == before.debt
    &&& after.copy_fbos == before.copy_fbos
    &&& after.snapshots == before.snapshots
    &&& after.uploads == before.uploads
    &&& after.swap_interval == before.swap_interval
    &&& after.swap_damage_rejected == before.swap_damage_rejected
    &&& after.egl.windows == before.egl.windows
    &&& crate::canvases::same_display(
        crate::egl_device::EglModel { reconfigured: after.egl.reconfigured, ..before.egl },
        after.egl,
    )
    &&& crate::canvases::others_stay(before.canvases, after.canvases, ONSCREEN)
    &&& after.canvases[ONSCREEN].ctx == before.canvases[ONSCREEN].ctx
    &&& after.canvases[ONSCREEN].kind == before.canvases[ONSCREEN].kind
}

/// A resize in place failed because there is no target, the buffer would be too large or
/// could not be had, or a device refused.
pub open spec fn fast_resize_caused<B: Fn(Extent, PixelRatio) -> Extent>(
    before: Mgr,
    after: Mgr,
    size: Extent,
    default_backing: B,
    ratio: PixelRatio,
    e: CanvasError,
) -> bool {
    let physical = Extent {
        width: at_least_one(size.width),
        height: at_least_one(size.height),
    };
    ||| e is Untargeted && before.window.installed is None
    ||| e is TooLarge && exists|backing: Extent| #[trigger]
        backing_for(before, default_backing, ratio, physical, backing) && !crate::canvases::fits_cap(
            before,
            backing.width,
            backing.height,
        )
    ||| e is DrawingBuffer && crate::canvases::buffer_refused(before, after)
    ||| crate::manager::refusals(after) > crate::manager::refusals(before)
}

/// A drawing buffer followed its window to another size, with the viewport and the 2D context;
/// one that has the size already stays as it is.
pub open spec fn buffer_followed(before: Mgr, after: Mgr, backing: Extent) -> bool {
    if backing == crate::canvases::base_size(before.canvases[ONSCREEN]) {
        after.contexts == before.contexts
    } else {
        &&& after.gl.viewports == before.gl.viewports.push(
            (backing.width as i32, backing.height as i32),
        )
        &&& crate::canvases::buffer_assembled(after, ONSCREEN)
        &&& crate::canvases::context_followed(
            before,
            after,
            ONSCREEN,
            crate::canvases::buffer_fbo(before.canvases[ONSCREEN]),
            backing,
        )
    }
}

/// The window has another size, and the onscreen canvas with it. The installed target was
/// given the configuration of the candidate.
pub open spec fn fast_resized<B: Fn(Extent, PixelRatio) -> Extent>(
    before: Mgr,
    after: Mgr,
    target: u64,
    size: Extent,
    default_backing: B,
    ratio: PixelRatio,
) -> bool {
    let physical = Extent {
        width: at_least_one(size.width),
        height: at_least_one(size.height),
    };
    let entry = after.canvases[ONSCREEN];
    &&& only_surface_resized(before, after)
    &&& after.flags == (Flags { surface_unavailable: false, ..before.flags })
    &&& entry.physical_width == physical.width
    &&& entry.physical_height == physical.height
    &&& entry.drawing_buffer matches Some(db) ==> backing_for(
        before,
        default_backing,
        ratio,
        physical,
        Extent { width: db.width, height: db.height },
    )
    &&& before.window.installed matches Some(installed) && after.egl.reconfigured
        == before.egl.reconfigured.push((installed, target))
    &&& entry.drawing_buffer matches Some(db) ==> buffer_followed(
        before,
        after,
        Extent { width: db.width, height: db.height },
    )
    &&& crate::binding::mode_settled(after)
    &&& after.contexts.dom() == before.contexts.dom()
    &&& after.paint.truthful ==> crate::canvases::state_kept(before, after, ONSCREEN)
    &&& after.damage.full
    &&& after.history.len() == 0
    &&& after.plan is None
}

/// The onscreen canvas can follow its window without a new surface.
pub open spec fn resizes_in_place(m: Mgr) -> bool {
    &&& m.canvases.dom().contains(ONSCREEN)
    &&& m.canvases[ONSCREEN].kind == SurfaceKind::Window
    &&& m.contexts.dom().contains(ONSCREEN)
}

impl<
    F: Fn(GlCall) -> u32,
    H: Fn(EglCall) -> Result<usize, EglError>,
    P: Fn(PaintCall) -> u64,
> CanvasManager<F, H, P> {
    /// The onscreen canvas's buffer has its size on a surface that has another one.
    fn follow_surface(&mut self, physical: Extent)
        requires
            old(self).wf(),
            old(self)@.canvases.dom().contains(ONSCREEN),
        ensures
            final(self).wf(),
            only_surface_resized(old(self)@, final(self)@),
            final(self)@.flags == (Flags { surface_unavailable: false, ..old(self)@.flags }),
            final(self)@.paint == old(self)@.paint,
            final(self)@.contexts == old(self)@.contexts,
            final(self)@.canvases[ONSCREEN].physical_width == physical.width,
            final(self)@.canvases[ONSCREEN].physical_height == physical.height,
            final(self)@.canvases[ONSCREEN].drawing_buffer == old(
                self)@.canvases[ONSCREEN].drawing_buffer,
            final(self)@.damage.full,
            final(self)@.history.len() == 0,
            final(self)@.plan is None,
            final(self)@.egl == old(self)@.egl,
            final(self)@.gl.viewports == old(self)@.gl.viewports,
            crate::canvases::same_storage(old(self)@.gl, final(self)@.gl),
            final(self)@.canvases[ONSCREEN].info == old(self)@.canvases[ONSCREEN].info,
            crate::binding::mode_settled(final(self)@),
    {
        if let Some(entry) = self.canvas(ONSCREEN) {
            self.put_canvas(
                CanvasEntry {
                    physical_width: physical.width,
                    physical_height: physical.height,
                    ..entry
                },
            );
        }
        assert(self@.canvases.dom() =~= old(self)@.canvases.dom());
        let flags = self.flags();
        self.set_flags(Flags { surface_unavailable: false, ..flags });
        self.restart_full();
        self.evaluate_bypass();
    }

    /// Give the onscreen canvas the size of its window, which stays the same: its context,
    /// its textures and its programs stay alive.
    fn fast_resize<B: Fn(Extent, PixelRatio) -> Extent>(
        &mut self,
        target: u64,
        size: Extent,
        had_usable_previous: bool,
        default_backing: &B,
        ratio: PixelRatio,
    ) -> (result: Result<(), SurfaceInstallFailure>)
        requires
            old(self).wf(),
            forall|e: Extent, r: PixelRatio| #[trigger] call_requires(*default_backing, (e, r)),
            resizes_in_place(old(self)@),
        ensures
            final(self).wf(),
            only_surface_resized(old(self)@, final(self)@),
            match result {
                Ok(_) => fast_resized(
                    old(self)@,
                    final(self)@,
                    target,
                    size,
                    *default_backing,
                    ratio,
                ),
                Err(f) => {
                    &&& f.cleanup == CandidateCleanup::NotRequired
                    &&& fast_resize_caused(old(self)@, final(self)@, size, *default_backing, ratio, f.error)
                    &&& final(self)@.flags == old(self)@.flags
                    &&& match f.phase {
                        InstallPhase::BeforePreviousInvalidation => {
                            &&& f.previous_usable == had_usable_previous
                            &&& untouched(old(self)@, final(self)@)
                            &&& (f.error == CanvasError::Untargeted) == (old(
                                self)@.window.installed is None)
                        },
                        InstallPhase::PreviousInvalidated => !f.previous_usable,
                        InstallPhase::CandidateReferenced => false,
                    }
                },
            },
    {
        let installed: u64 = match self.window().installed {
            None => {
                return Err(
                    SurfaceInstallFailure::from_phase(
                        CanvasError::Untargeted,
                        had_usable_previous,
                        InstallPhase::BeforePreviousInvalidation,
                        CandidateCleanup::NotRequired,
                    ),
                );
            },
            Some(installed) => installed,
        };
        if let Err(e) = self.reconfigure(installed, target) {
            return Err(
                SurfaceInstallFailure::from_phase(
                    CanvasError::Egl(e),
                    had_usable_previous,
                    InstallPhase::BeforePreviousInvalidation,
                    CandidateCleanup::NotRequired,
                ),
            );
        }
        let physical = Extent {
            width: if size.width < 1 {
                1
            } else {
                size.width
            },
            height: if size.height < 1 {
                1
            } else {
                size.height
            },
        };
        let backing = self.onscreen_backing_size(physical, default_backing, ratio);
        assert(backing_for(old(self)@, *default_backing, ratio, physical, backing));
        if let Err(e) = self.resize_canvas_for_surface_change(
            ONSCREEN,
            backing.width,
            backing.height,
        ) {
            proof {
                assert(physical == (Extent {
                    width: at_least_one(size.width),
                    height: at_least_one(size.height),
                }));
            }
            return Err(
                SurfaceInstallFailure::from_phase(
                    e,
                    had_usable_previous,
                    InstallPhase::PreviousInvalidated,
                    CandidateCleanup::NotRequired,
                ),
            );
        }
        self.follow_surface(physical);
        Ok(())
    }
}

/// A window surface that an earlier install left behind is gone, where there was one.
pub open spec fn tidied(before: Mgr, ready: Mgr) -> bool {
    &&& ready.pending is None
    &&& match before.pending {
        None => ready == before,
        Some(pending) => {
            &&& crate::onscreen::only_candidate_moved(before, ready)
            &&& ready.bound == BoundContext::Resource
            &&& ready.preserved == crate::onscreen::kept_pair(before.preserved, pending)
            &&& ready.egl.windows == before.egl.windows.remove(pending.surface)
        },
    }
}

/// The session whose force flag the install has taken.
pub open spec fn unforced(m: Mgr) -> Mgr {
    Mgr { flags: Flags { force_onscreen_recreate: false, ..m.flags }, ..m }
}

/// The window has the size that is expected of it already.
pub open spec fn already_fits(m: Mgr, size: Option<Extent>) -> bool {
    &&& size is Some
    &&& installed_size(m) == size
    &&& m.canvases[ONSCREEN].kind == SurfaceKind::Window
}

/// The pixel ratio that an install goes by.
pub open spec fn ratio_of(m: Mgr, pixel_ratio: Option<PixelRatio>) -> PixelRatio {
    match pixel_ratio {
        Some(ratio) => ratio,
        None => m.window.pixel_ratio,
    }
}

/// The session at another pixel ratio.
pub open spec fn with_ratio(m: Mgr, pixel_ratio: PixelRatio) -> Mgr {
    Mgr { window: Window { pixel_ratio, ..m.window }, ..m }
}

/// What becomes of an install that goes about its target in a way.
#[verifier::opaque]
pub open spec fn install_outcome<B: Fn(Extent, PixelRatio) -> Extent>(
    before: Mgr,
    after: Mgr,
    policy: InstallPolicy,
    target: u64,
    size: Option<Extent>,
    had_usable_previous: bool,
    default_backing: B,
    ratio: PixelRatio,
    result: Result<(), SurfaceInstallFailure>,
) -> bool {
    if policy == InstallPolicy::Skip && already_fits(before, size) {
        &&& result is Ok
        &&& after == (Mgr {
            flags: Flags { surface_unavailable: false, ..before.flags },
            ..before
        })
    } else if policy == InstallPolicy::FastResize && size is Some && resizes_in_place(before) {
        &&& only_surface_resized(before, after)
        &&& match result {
            Ok(_) => fast_resized(before, after, target, size->0, default_backing, ratio),
            Err(f) => {
                &&& f.cleanup == CandidateCleanup::NotRequired
                &&& f.phase != InstallPhase::CandidateReferenced
                &&& f.previous_usable ==> had_usable_previous && untouched(before, after)
                &&& fast_resize_caused(before, after, size->0, default_backing, ratio, f.error)
            },
        }
    } else {
        &&& only_window_moved(before, after)
        &&& match result {
            Ok(_) => installed_anew(before, after, target, size, default_backing, ratio),
            Err(f) => install_failed(before, after, target, had_usable_previous, f),
        }
    }
}

impl<
    F: Fn(GlCall) -> u32,
    H: Fn(EglCall) -> Result<usize, EglError>,
    P: Fn(PaintCall) -> u64,
> CanvasManager<F, H, P> {
    /// Install a native target as the window that the onscreen canvas shows on.
    ///
    /// `size` is the size that the platform expects of the surface, where it knows one, and
    /// `pixel_ratio` the ratio of the candidate; the one in force
    /// stands in for it, and stays in force where the install fails.
    /// `classify` says how to go about the target, and `default_backing` what size the
    /// engine's own buffer has on a surface. A window surface that an earlier install left
    /// behind is released first: while the driver keeps it nothing is installed.
    pub fn create_onscreen<C: Fn(InstallFacts) -> InstallPolicy, B: Fn(Extent, PixelRatio) -> Extent>(
        &mut self,
        target: u64,
        size: Option<Extent>,
        had_usable_previous: bool,
        pixel_ratio: Option<PixelRatio>,
        classify: &C,
        default_backing: &B,
    ) -> (result: Result<(), SurfaceInstallFailure>)
        requires
            old(self).wf(),
            forall|f: InstallFacts| #[trigger] call_requires(*classify, (f,)),
            forall|e: Extent, r: PixelRatio| #[trigger] call_requires(*default_backing, (e, r)),
        ensures
            final(self).wf(),
            (exists|ready: Mgr, policy: InstallPolicy| #[trigger]
                tidied(old(self)@, ready) && #[trigger] call_ensures(
                    *classify,
                    (facts_of(ready, target, size),),
                    policy,
                ) && install_outcome(
                    unforced(ready),
                    with_ratio(final(self)@, ready.window.pixel_ratio),
                    policy,
                    target,
                    size,
                    had_usable_previous,
                    *default_backing,
                    ratio_of(old(self)@, pixel_ratio),
                    result,
                )) || {
                &&& old(self)@.pending is Some
                &&& final(self)@.pending == old(self)@.pending
                &&& crate::onscreen::only_candidate_moved(old(self)@, final(self)@)
                &&& crate::manager::refusals(final(self)@) > crate::manager::refusals(old(self)@)
                &&& result matches Err(f) && f.error == CanvasError::Retained && !f.previous_usable
                    && f.phase == InstallPhase::PreviousInvalidated && f.cleanup
                    == CandidateCleanup::NotRequired
            },
            old(self)@.pending is None ==> exists|policy: InstallPolicy| #[trigger]
                call_ensures(*classify, (facts_of(old(self)@, target, size),), policy)
                    && install_outcome(
                    unforced(old(self)@),
                    with_ratio(final(self)@, old(self)@.window.pixel_ratio),
                    policy,
                    target,
                    size,
                    had_usable_previous,
                    *default_backing,
                    ratio_of(old(self)@, pixel_ratio),
                    result,
                ),
            final(self)@.window.pixel_ratio == (if result is Ok {
                ratio_of(old(self)@, pixel_ratio)
            } else {
                old(self)@.window.pixel_ratio
            }),
    {
        let ratio: PixelRatio = match pixel_ratio {
            Some(ratio) => ratio,
            None => self.window().pixel_ratio,
        };
        if self.pending().is_some() {
            if self.cleanup_pending_onscreen() != CandidateCleanup::Released {
                return Err(
                    SurfaceInstallFailure::from_phase(
                        CanvasError::Retained,
                        false,
                        InstallPhase::PreviousInvalidated,
                        CandidateCleanup::NotRequired,
                    ),
                );
            }
        }
        let ghost ready = self@;
        assert(tidied(old(self)@, ready));
        let facts = self.install_facts(target, size);
        let policy = classify(facts);
        let flags = self.flags();
        self.set_flags(Flags { force_onscreen_recreate: false, ..flags });
        assert(self@ == unforced(ready));
        self.install_at_ratio(policy, target, size, had_usable_previous, default_backing, ratio)
    }

    /// Go about a target in a way. The pixel ratio comes into force once that is done.
    fn install_at_ratio<B: Fn(Extent, PixelRatio) -> Extent>(
        &mut self,
        policy: InstallPolicy,
        target: u64,
        size: Option<Extent>,
        had_usable_previous: bool,
        default_backing: &B,
        ratio: PixelRatio,
    ) -> (result: Result<(), SurfaceInstallFailure>)
        requires
            old(self).wf(),
            forall|e: Extent, r: PixelRatio| #[trigger] call_requires(*default_backing, (e, r)),
            old(self)@.pending is None,
        ensures
            final(self).wf(),
            install_outcome(
                old(self)@,
                with_ratio(final(self)@, old(self)@.window.pixel_ratio),
                policy,
                target,
                size,
                had_usable_previous,
                *default_backing,
                ratio,
                result,
            ),
            final(self)@.window.pixel_ratio == (if result is Ok {
                ratio
            } else {
                old(self)@.window.pixel_ratio
            }),
    {
        let result = self.install_by(
            policy,
            target,
            size,
            had_usable_previous,
            default_backing,
            ratio,
        );
        let ghost installed = self@;
        proof {
            reveal(install_outcome);
            if !(policy == InstallPolicy::Skip && already_fits(old(self)@, size)) {
                lemma_ratio_stays(old(self)@, installed);
            }
        }
        if result.is_ok() {
            let window = self.window();
            self.set_window(Window { pixel_ratio: ratio, ..window });
        }
        assert(with_ratio(self@, old(self)@.window.pixel_ratio) == installed);
        result
    }

    /// What an install goes by.
    fn install_facts(&self, target: u64, size: Option<Extent>) -> (facts: InstallFacts)
        ensures
            facts == facts_of(self@, target, size),
    {
        InstallFacts {
            target,
            installed: self.window().installed,
            installed_size: match self.canvas(ONSCREEN) {
                Some(entry) => Some(
                    Extent { width: entry.physical_width, height: entry.physical_height },
                ),
                None => None,
            },
            surface_size: size,
            has_2d: self.context_2d(ONSCREEN).is_some(),
            owes_2d: self.window().restore_2d.is_some(),
            forced: self.flags().force_onscreen_recreate,
        }
    }

    /// Go about a target in a way, as far as the way can be gone.
    fn install_by<B: Fn(Extent, PixelRatio) -> Extent>(
        &mut self,
        policy: InstallPolicy,
        target: u64,
        size: Option<Extent>,
        had_usable_previous: bool,
        default_backing: &B,
        ratio: PixelRatio,
    ) -> (result: Result<(), SurfaceInstallFailure>)
        requires
            old(self).wf(),
            forall|e: Extent, r: PixelRatio| #[trigger] call_requires(*default_backing, (e, r)),
            old(self)@.pending is None,
        ensures
            final(self).wf(),
            install_outcome(
                old(self)@,
                final(self)@,
                policy,
                target,
                size,
                had_usable_previous,
                *default_backing,
                ratio,
                result,
            ),
    {
        proof {
            reveal(install_outcome);
        }
        if let (Some(s), Some(entry)) = (size, self.canvas(ONSCREEN)) {
            let on_window: bool = entry.kind == SurfaceKind::Window;
            if policy == InstallPolicy::Skip && on_window && entry.physical_width == s.width
                && entry.physical_height == s.height {
                let flags = self.flags();
                self.set_flags(Flags { surface_unavailable: false, ..flags });
                return Ok(());
            }
            if policy == InstallPolicy::FastResize && on_window && self.context_2d(
                ONSCREEN,
            ).is_some() {
                return self.fast_resize(target, s, had_usable_previous, default_backing, ratio);
            }
        }
        self.recreate_onscreen(target, size, had_usable_previous, default_backing, ratio)
    }
}

/// After an install, what content draws without a framebuffer of its own lands on the window
/// exactly where the drawing buffer is bypassed, and otherwise in the drawing buffer: the two
/// never come apart, so no frame is drawn into a buffer that is not shown.
pub proof fn law_content_draws_where_the_canvas_shows<B: Fn(Extent, PixelRatio) -> Extent>(
    before: Mgr,
    after: Mgr,
    target: u64,
    size: Option<Extent>,
    default_backing: B,
    ratio: PixelRatio,
    db: DrawingBuffer,
)
    requires
        installed_anew(before, after, target, size, default_backing, ratio),
        after.canvases[ONSCREEN].drawing_buffer == Some(db),
        !after.contexts.dom().contains(ONSCREEN),
        after.bound == BoundContext::Canvas(ONSCREEN),
        after.gl.truthful,
    ensures
        after.gl.bindings.draw_framebuffer == (if after.canvases[ONSCREEN].bypass_drawing_buffer {
            0u32
        } else {
            db.fbo
        }),
{
}

/// Every install that makes a surface asks the display for the rate in force: a native
/// target that is new carries no request.
pub proof fn law_every_install_asks_for_the_rate<B: Fn(Extent, PixelRatio) -> Extent>(
    before: Mgr,
    after: Mgr,
    target: u64,
    size: Option<Extent>,
    default_backing: B,
    ratio: PixelRatio,
)
    requires
        installed_anew(before, after, target, size, default_backing, ratio),
    ensures
        after.egl.rate_requests.last() == (target, before.window.frame_rate),
{
}

/// A size that content gave the onscreen canvas survives every install: its buffer, where
/// it has one, has that size whatever size the surface has.
pub proof fn law_content_owns_its_size<B: Fn(Extent, PixelRatio) -> Extent>(
    before: Mgr,
    after: Mgr,
    target: u64,
    size: Option<Extent>,
    default_backing: B,
    ratio: PixelRatio,
    chosen: Extent,
)
    requires
        installed_anew(before, after, target, size, default_backing, ratio),
        before.window.content_backing == Some(chosen),
    ensures
        after.canvases[ONSCREEN].drawing_buffer matches Some(db) ==> db.width == chosen.width
            && db.height == chosen.height && after.canvases[ONSCREEN].info.width == chosen.width
            && after.canvases[ONSCREEN].info.height == chosen.height,
{
}

/// What content believes that it paints with survives a new surface: the 2D context that
/// was there before, or owed, is there afterwards and paints with that state.
pub proof fn law_an_install_gives_the_painting_state_back<B: Fn(Extent, PixelRatio) -> Extent>(
    before: Mgr,
    after: Mgr,
    target: u64,
    size: Option<Extent>,
    default_backing: B,
    ratio: PixelRatio,
)
    requires
        only_window_moved(before, after),
        installed_anew(before, after, target, size, default_backing, ratio),
        has_or_owes_2d(before),
        coherent(before),
        after.paint.truthful,
    ensures
        after.contexts.dom().contains(ONSCREEN),
        Some(after.paint.alive[ONSCREEN].state) == believed_state(before),
        after.window.restore_2d is None,
{
    reveal(only_window_moved);
}

/// An install that fails keeps what content believes that it paints with: the context is
/// there, or the next install owes it.
pub proof fn law_a_failed_install_keeps_the_debt(before: Mgr, after: Mgr)
    requires
        only_window_moved(before, after),
        coherent(before),
        after.paint.truthful,
    ensures
        has_or_owes_2d(before) ==> has_or_owes_2d(after),
        believed_state(after) == believed_state(before),
{
    reveal(only_window_moved);
}

/// A failure that says that the candidate was released, or that nothing of it was made,
/// leaves no surface on it that was not there before.
pub proof fn law_a_released_candidate_is_free(
    before: Mgr,
    after: Mgr,
    target: u64,
    had_usable_previous: bool,
    f: SurfaceInstallFailure,
)
    requires
        install_failed(before, after, target, had_usable_previous, f),
        f.cleanup != CandidateCleanup::Failed,
        !crate::egl_device::holds_target(before.egl, target),
    ensures
        !crate::egl_device::holds_target(after.egl, target),
{
}

/// A side of a surface is as long as the driver says, and never shorter than one pixel.
pub proof fn law_a_surface_has_a_pixel(side: u32)
    ensures
        at_least_one(side) >= 1,
        side >= 1 ==> at_least_one(side) == side,
        side == 0 ==> at_least_one(side) == 1,
{
}

/// What was on the window can be presented after a failure only if it could before and the
/// install had not touched it.
pub proof fn law_what_a_failure_leaves_usable(
    error: CanvasError,
    had: bool,
    phase: InstallPhase,
    cleanup: CandidateCleanup,
    failure: SurfaceInstallFailure,
)
    requires
        call_ensures(SurfaceInstallFailure::from_phase, (error, had, phase, cleanup), failure),
    ensures
        failure.previous_usable == (had && phase is BeforePreviousInvalidation),
        failure.error == error,
        failure.phase == phase,
        failure.cleanup == cleanup,
{
}

/// The canvas that was installed is on the target and has its surface's size; its buffer has
/// the size that content chose or else the one that goes with that surface, the viewport
/// covers all of it, and it is current. The next swap sets its interval, and nothing of another
/// surface is repaired from.
pub proof fn law_an_installed_canvas_fits_its_window<B: Fn(Extent, PixelRatio) -> Extent>(
    before: Mgr,
    after: Mgr,
    target: u64,
    size: Option<Extent>,
    default_backing: B,
    ratio: PixelRatio,
)
    requires
        installed_anew(before, after, target, size, default_backing, ratio),
    ensures
        after.window.installed == Some(target),
        after.canvases.dom().contains(1u32),
        after.canvases[1].kind is Window,
        after.canvases[1].info.is_onscreen,
        after.canvases[1].ctx.surf is Some,
        after.egl.windows[after.canvases[1].ctx.surf->0] == target,
        size matches Some(s) ==> s.width >= 1 ==> after.canvases[1].physical_width == s.width,
        size matches Some(s) ==> s.height >= 1 ==> after.canvases[1].physical_height == s.height,
        after.canvases[1].physical_width >= 1,
        after.canvases[1].physical_height >= 1,
        after.canvases[1].drawing_buffer matches Some(db) ==> {
            &&& db.width == after.canvases[1].info.width
            &&& db.height == after.canvases[1].info.height
            &&& before.window.content_backing matches Some(chosen) ==> db.width == chosen.width
                && db.height == chosen.height
            &&& before.window.content_backing is None ==> call_ensures(
                default_backing,
                (
                    Extent {
                        width: after.canvases[1].physical_width,
                        height: after.canvases[1].physical_height,
                    },
                    ratio,
                ),
                Extent { width: db.width, height: db.height },
            )
        },
        after.canvases[1].drawing_buffer is None ==> after.canvases[1].info.width
            == after.canvases[1].physical_width && after.canvases[1].info.height
            == after.canvases[1].physical_height,
        after.gl.viewports.last() == (
            after.canvases[1].info.width as i32,
            after.canvases[1].info.height as i32,
        ),
        after.shadows[1].viewport == Some(
            (
                0i32,
                0i32,
                after.canvases[1].info.width as i32,
                after.canvases[1].info.height as i32,
            ),
        ),
        crate::binding::serving(after.bound) == Some(1u32),
        after.history.len() == 0,
        after.plan is None,
        after.swap_interval == -1,
        !after.flags.context_lost,
        !after.flags.surface_unavailable,
{
}

/// An install that is skipped, on a surface that has the size already, changes nothing but that
/// the surface is available.
pub proof fn law_a_skipped_install_changes_nothing<B: Fn(Extent, PixelRatio) -> Extent>(
    before: Mgr,
    after: Mgr,
    target: u64,
    size: Extent,
    had: bool,
    default_backing: B,
    ratio: PixelRatio,
    result: Result<(), SurfaceInstallFailure>,
)
    requires
        install_outcome(
            before,
            after,
            InstallPolicy::Skip,
            target,
            Some(size),
            had,
            default_backing,
            ratio,
            result,
        ),
        before.canvases.dom().contains(1u32),
        before.canvases[1].kind is Window,
        before.canvases[1].physical_width == size.width,
        before.canvases[1].physical_height == size.height,
    ensures
        result is Ok,
        after.canvases == before.canvases,
        after.egl == before.egl,
        after.gl == before.gl,
        after.window == before.window,
        !after.flags.surface_unavailable,
        after.flags.context_lost == before.flags.context_lost,
{
    assert(already_fits(before, Some(size)));
    reveal(install_outcome);
}

/// A surface that is resized in place keeps its context and its target, has the new size, and
/// everything is presented anew. A size that content chose stays its own.
pub proof fn law_a_surface_resized_in_place_has_its_size<B: Fn(Extent, PixelRatio) -> Extent>(
    before: Mgr,
    after: Mgr,
    target: u64,
    size: Extent,
    default_backing: B,
    ratio: PixelRatio,
)
    requires
        fast_resized(before, after, target, size, default_backing, ratio),
    ensures
        size.width >= 1 ==> after.canvases[1].physical_width == size.width,
        size.height >= 1 ==> after.canvases[1].physical_height == size.height,
        after.canvases[1].physical_width >= 1,
        after.canvases[1].physical_height >= 1,
        after.canvases[1].ctx == before.canvases[1].ctx,
        after.window == before.window,
        after.canvases[1].drawing_buffer matches Some(db) ==> (before.window.content_backing
            matches Some(chosen) ==> db.width == chosen.width && db.height == chosen.height),
        after.damage.full,
        after.history.len() == 0,
        after.plan is None,
        !after.flags.surface_unavailable,
{
}

/// The ratio in force is the one that is given, or else the window's.
pub proof fn law_which_ratio_is_in_force(m: Mgr, given: Option<PixelRatio>)
    ensures
        given matches Some(ratio) ==> ratio_of(m, given) == ratio,
        given is None ==> ratio_of(m, given) == m.window.pixel_ratio,
{
}

/// What is put by for the next window is the pair of the canvas that is on this one, and what
/// was put by before where there is none.
pub proof fn law_what_is_put_by(m: Mgr)
    ensures
        m.canvases.dom().contains(1u32) ==> put_by(m).ctx == Some(m.canvases[1].ctx.ctx) && put_by(
            m,
        ).db == m.canvases[1].drawing_buffer,
        !m.canvases.dom().contains(1u32) ==> put_by(m) == m.preserved,
{
}

/// What was on the window is usable after a failed install only if it was before and if nothing
/// of it was touched.
pub proof fn law_a_usable_window_was_not_touched(
    before: Mgr,
    after: Mgr,
    target: u64,
    had: bool,
    f: SurfaceInstallFailure,
)
    requires
        install_failed(before, after, target, had, f),
        f.previous_usable,
    ensures
        had,
        f.phase is BeforePreviousInvalidation,
        after.canvases == before.canvases,
        after.contexts == before.contexts,
        after.window == before.window,
        after.egl.windows == before.egl.windows,
{
}

/// The size of the buffer on a surface is content's own where content chose one, whatever the
/// surface; and otherwise the one that goes with that surface and that ratio.
pub proof fn law_which_size_a_buffer_has<
    F: Fn(GlCall) -> u32,
    H: Fn(EglCall) -> Result<usize, EglError>,
    P: Fn(PaintCall) -> u64,
    B: Fn(Extent, PixelRatio) -> Extent,
>(
    m: CanvasManager<F, H, P>,
    surface: Extent,
    default_backing: B,
    ratio: PixelRatio,
    backing: Extent,
)
    requires
        call_ensures(
            CanvasManager::<F, H, P>::onscreen_backing_size::<B>,
            (&m, surface, &default_backing, ratio),
            backing,
        ),
    ensures
        m@.window.content_backing matches Some(chosen) ==> backing.width == chosen.width
            && backing.height == chosen.height,
        m@.window.content_backing is None ==> call_ensures(
            default_backing,
            (surface, ratio),
            backing,
        ),
{
}

/// The last viewport of an install covers, from corner to corner, what the onscreen canvas
/// paints into, and a 2D context that is there paints at that size.
pub proof fn law_the_viewport_covers_the_buffer(before: Mgr, after: Mgr, backing: Extent)
    requires
        viewed_at(before, after, backing),
        backs(after, backing),
        backing.width <= i32::MAX,
        backing.height <= i32::MAX,
    ensures
        after.gl.viewports.len() > before.gl.viewports.len(),
        after.canvases[ONSCREEN].drawing_buffer matches Some(db) ==> after.gl.viewports.last().0
            == db.width && after.gl.viewports.last().1 == db.height,
        after.canvases[ONSCREEN].drawing_buffer is None ==> after.gl.viewports.last().0
            == after.canvases[ONSCREEN].physical_width && after.gl.viewports.last().1
            == after.canvases[ONSCREEN].physical_height,
        after.contexts.dom().contains(ONSCREEN) ==> after.contexts[ONSCREEN].width
            == after.gl.viewports.last().0 && after.contexts[ONSCREEN].height
            == after.gl.viewports.last().1,
{
}

/// What an install goes by is what the session holds: the window that is on it, the size of
/// its canvas, its 2D context, and whether the next install must begin anew.
pub proof fn law_what_an_install_goes_by(m: Mgr, target: u64, size: Option<Extent>)
    ensures
        ({
            let facts = facts_of(m, target, size);
            &&& facts.target == target && facts.surface_size == size
            &&& facts.installed == m.window.installed
            &&& facts.forced == m.flags.force_onscreen_recreate
            &&& facts.has_2d == m.contexts.dom().contains(ONSCREEN)
            &&& facts.owes_2d == (m.window.restore_2d is Some)
            &&& m.canvases.dom().contains(ONSCREEN) ==> facts.installed_size == Some(
                Extent {
                    width: m.canvases[ONSCREEN].physical_width,
                    height: m.canvases[ONSCREEN].physical_height,
                },
            )
            &&& !m.canvases.dom().contains(ONSCREEN) ==> facts.installed_size is None
        }),
{
}

} // verus!
