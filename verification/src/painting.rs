//! The 2D contexts of a session's canvases.
use vstd::prelude::*;

use crate::egl_device::EglCall;
use crate::egl_setup::EglError;
use crate::gl_device::GlCall;
use crate::manager::CanvasEntry;
use crate::manager::CanvasError;
use crate::manager::CanvasManager;
use crate::manager::Context2d;
use crate::manager::Mgr;
use crate::manager::ONSCREEN;
use crate::painters::PaintCall;
use crate::painters::PaintTrim;

verus! {

/// What a canvas's 2D context paints into: its drawing buffer, or its surface.
pub open spec fn paint_target(entry: CanvasEntry) -> (u32, u32, u32) {
    match entry.drawing_buffer {
        Some(db) => (db.fbo, db.width, db.height),
        None => (0u32, entry.physical_width, entry.physical_height),
    }
}

/// Everything is as it was but what is current, 2D contexts, how canvases show on the
/// window, and what follows from that for the next frame.
pub open spec fn only_painting_moved(before: Mgr, after: Mgr) -> bool {
    &&& after.cfg == before.cfg
    &&& after.root == before.root
    &&& after.flags == before.flags
    &&& after.window == before.window
    &&& after.pending == before.pending
    &&& after.preserved == before.preserved
    &&& after.next_canvas_id == before.next_canvas_id
    &&& after.dirty == before.dirty
    &&& after.shadows == before.shadows
    &&& after.debt == before.debt
    &&& after.copy_fbos == before.copy_fbos
    &&& after.snapshots == before.snapshots
    &&& after.uploads == before.uploads
    &&& after.swap_interval == before.swap_interval
    &&& after.swap_damage_rejected == before.swap_damage_rejected
    &&& before.damage.full ==> after.damage.full
    &&& before.history.len() == 0 ==> after.history.len() == 0
    &&& before.plan is None ==> after.plan is None
    &&& after.tried == before.tried
    &&& after.adrift == before.adrift
    &&& crate::manager::same_targets(before.egl, after.egl)
    &&& crate::manager::only_framebuffers_moved(before.gl, after.gl)
    &&& crate::manager::grew(before, after)
    &&& canvases_stay(before.canvases, after.canvases)
}

/// The same canvases, but for how they show on the window.
pub open spec fn canvases_stay(
    before: Map<u32, CanvasEntry>,
    after: Map<u32, CanvasEntry>,
) -> bool {
    &&& after.dom() == before.dom()
    &&& forall|id: u32| #[trigger]
        after.dom().contains(id) ==> crate::binding::same_canvas(before[id], after[id])
}

/// The 2D context that a canvas gets: of its own, or on the shared one.
pub open spec fn fresh_context(entry: CanvasEntry, tag: u64) -> Context2d {
    let (fbo, width, height) = paint_target(entry);
    Context2d { tag, fbo, width, height }
}

/// A canvas's surface on the shared context, as it starts.
pub open spec fn shared_painter(entry: CanvasEntry, tag: u64) -> crate::painters::Painter {
    let (_, width, height) = paint_target(entry);
    crate::painters::Painter { tag, state: 0, fbo: 0, width, height }
}

/// What a canvas paints on, as it starts: a surface on the shared context, or a context of
/// its own, with the size of what it paints into.
pub open spec fn fresh_painter(
    cfg: crate::manager::Config,
    entry: CanvasEntry,
    tag: u64,
) -> crate::painters::Painter {
    let (fbo, width, height) = paint_target(entry);
    if !entry.info.is_onscreen && cfg.share_2d {
        shared_painter(entry, tag)
    } else {
        crate::painters::Painter { tag, state: 0, fbo, width, height }
    }
}

/// A canvas's 2D context is on the books at what the canvas paints into; and so it paints,
/// where it is alive.
pub open spec fn fits(m: Mgr, id: u32) -> bool {
    let (fbo, width, height) = paint_target(m.canvases[id]);
    &&& m.contexts[id] == fresh_context(m.canvases[id], m.contexts[id].tag)
    &&& m.paint.alive.dom().contains(id) ==> {
        let painter = m.paint.alive[id];
        &&& painter.width == width
        &&& painter.height == height
        &&& m.canvases[id].info.is_onscreen || !m.cfg.share_2d ==> painter.fbo == fbo
    }
}

/// A canvas has a 2D context, which is alive and paints at what the canvas paints into.
pub open spec fn fitted(m: Mgr, id: u32) -> bool {
    &&& m.contexts.dom().contains(id)
    &&& m.paint.alive.dom().contains(id)
    &&& fits(m, id)
}

impl<
    F: Fn(GlCall) -> u32,
    H: Fn(EglCall) -> Result<usize, EglError>,
    P: Fn(PaintCall) -> u64,
> CanvasManager<F, H, P> {
    /// Drop a canvas's 2D context. One whose own context is not current is abandoned first:
    /// it must not delete objects in another context. The answer is its tag.
    pub fn drop_2d_context(&mut self, id: u32, context_is_current: bool) -> (tag: Option<u64>)
        requires
            old(self).wf(),
        ensures
            final(self).wf(),
            match tag {
                None => !old(self)@.contexts.dom().contains(id) && final(self)@ == old(self)@,
                Some(tag) => {
                    &&& old(self)@.contexts.dom().contains(id)
                    &&& tag == old(self)@.contexts[id].tag
                    &&& final(self)@ == (Mgr {
                        contexts: old(self)@.contexts.remove(id),
                        paint: crate::painters::after_paint_call(
                            old(self)@.paint,
                            PaintCall::Drop { canvas: id, abandon: !context_is_current },
                            0,
                            crate::gl_device::moment(old(self)@.gl),
                        ),
                        dropped: crate::manager::dropped_after(
                            old(self)@,
                            PaintCall::Drop { canvas: id, abandon: !context_is_current },
                        ),
                        ..old(self)@
                    })
                },
            },
    {
        match self.context_2d(id) {
            None => None,
            Some(ctx) => {
                let _ = self.take_context(id);
                let _ = self.issue_paint(
                    PaintCall::Drop { canvas: id, abandon: !context_is_current },
                );
                Some(ctx.tag)
            },
        }
    }

    /// Drop a canvas's 2D context and forget the images that it wrapped.
    pub fn drop_2d_context_and_wrappers(&mut self, id: u32, context_is_current: bool)
        requires
            old(self).wf(),
        ensures
            final(self).wf(),
            final(self)@ == dropped_2d(old(self)@, id, context_is_current),
    {
        if let Some(tag) = self.drop_2d_context(id, context_is_current) {
            let _ = self.issue_paint(PaintCall::PurgeWrappers { tag });
        }
    }

    /// What a canvas paints with, if it has a 2D context.
    pub fn drawing_state(&mut self, id: u32) -> (state: Option<u64>)
        requires
            old(self).wf(),
        ensures
            final(self).wf(),
            (state is Some) == old(self)@.contexts.dom().contains(id),
            state is None ==> final(self)@ == old(self)@,
            state matches Some(v) ==> final(self)@ == (Mgr {
                paint: crate::painters::after_paint_call(
                    old(self)@.paint,
                    PaintCall::DrawingState { canvas: id },
                    v,
                    crate::gl_device::moment(old(self)@.gl),
                ),
                ..old(self)@
            }),
    {
        if self.context_2d(id).is_some() {
            let v: u64 = self.issue_paint(PaintCall::DrawingState { canvas: id });
            Some(v)
        } else {
            None
        }
    }

    /// Make a 2D context of a canvas's own.
    fn create_own_context(&mut self, entry: CanvasEntry) -> (tag: u64)
        requires
            old(self).wf(),
        ensures
            final(self).wf(),
            final(self)@ == (Mgr {
                paint: crate::painters::after_paint_call(
                    old(self)@.paint,
                    own_call(entry),
                    tag,
                    crate::gl_device::moment(old(self)@.gl),
                ),
                ..old(self)@
            }),
    {
        let id: u32 = entry.info.id;
        match entry.drawing_buffer {
            Some(db) => self.issue_paint(
                PaintCall::Create {
                    canvas: id,
                    fbo: db.fbo,
                    width: db.width,
                    height: db.height,
                    drawing_buffer: true,
                },
            ),
            None => self.issue_paint(
                PaintCall::Create {
                    canvas: id,
                    fbo: 0,
                    width: entry.physical_width,
                    height: entry.physical_height,
                    drawing_buffer: false,
                },
            ),
        }
    }

    /// Make a canvas's surface on the shared 2D context.
    fn create_shared_surface(&mut self, entry: CanvasEntry) -> (result: Result<u64, CanvasError>)
        requires
            old(self).wf(),
        ensures
            final(self).wf(),
            only_painting_moved(old(self)@, final(self)@),
            crate::manager::same_frames(old(self)@, final(self)@),
            final(self)@.contexts == old(self)@.contexts,
            final(self)@.canvases == old(self)@.canvases,
            final(self)@.gl == old(self)@.gl,
            match result {
                Ok(tag) => {
                    &&& final(self)@.paint == (crate::painters::PaintModel {
                        alive: old(self)@.paint.alive.insert(
                            entry.info.id,
                            shared_painter(entry, tag),
                        ),
                        ..old(self)@.paint
                    })
                    &&& shared_served(old(self)@, final(self)@, tag)
                    &&& crate::binding::serving(final(self)@.bound) == Some(entry.info.id)
                },
                Err(e) => final(self)@.paint.alive == old(self)@.paint.alive
                    && final(self)@.paint.truthful == old(self)@.paint.truthful && (e is Egl
                    || e is Group || e is Paint) && crate::manager::refusals(final(self)@)
                    > crate::manager::refusals(old(self)@),
            },
    {
        let id: u32 = entry.info.id;
        let tag: u64 = match self.bind_shared_2d_context(id) {
            Err(e) => {
                return Err(e);
            },
            Ok(tag) => tag,
        };
        let (width, height) = match entry.drawing_buffer {
            Some(db) => (db.width, db.height),
            None => (entry.physical_width, entry.physical_height),
        };
        assert(old(self)@.shared_2d is None ==> self@.egl.steps[old(
            self)@.egl.steps.len() as int] == self@.egl.steps.last());
        let made: u64 = self.issue_paint(PaintCall::CreateShared { canvas: id, width, height, tag });
        if made == 0 {
            Err(CanvasError::Paint)
        } else {
            Ok(tag)
        }
    }

    /// Make what a canvas, whose context is current, paints on: an offscreen canvas's surface
    /// on the shared context where the session is set up so, else a context of its own.
    fn create_surface(&mut self, entry: CanvasEntry) -> (result: Result<u64, CanvasError>)
        requires
            old(self).wf(),
            crate::binding::serving(old(self)@.bound) == Some(entry.info.id),
        ensures
            final(self).wf(),
            only_painting_moved(old(self)@, final(self)@),
            final(self)@.contexts == old(self)@.contexts,
            match result {
                Ok(tag) => {
                    &&& final(self)@.paint == (crate::painters::PaintModel {
                        alive: old(self)@.paint.alive.insert(
                            entry.info.id,
                            fresh_painter(old(self)@.cfg, entry, tag),
                        ),
                        ..old(self)@.paint
                    })
                    &&& crate::binding::serving(final(self)@.bound) == Some(entry.info.id)
                    &&& shares_2d(old(self)@.cfg, entry) ==> shared_served(
                        old(self)@,
                        final(self)@,
                        tag,
                    )
                },
                Err(e) => final(self)@.paint.alive == old(self)@.paint.alive
                    && final(self)@.paint.truthful == old(self)@.paint.truthful && (e is Egl
                    || e is Group || e is Paint) && crate::manager::refusals(final(self)@)
                    > crate::manager::refusals(old(self)@),
            },
            !shares_2d(old(self)@.cfg, entry) ==> final(self)@.shared_2d == old(self)@.shared_2d,
    {
        if !entry.info.is_onscreen && self.cfg().share_2d {
            return self.create_shared_surface(entry);
        }
        let tag: u64 = self.create_own_context(entry);
        assert(self@.canvases.dom() =~= old(self)@.canvases.dom());
        if tag == 0 {
            Err(CanvasError::Paint)
        } else {
            Ok(tag)
        }
    }

    /// Give a canvas a 2D context, unless it has one. Offscreen canvases share one context
    /// where the session is set up so; the onscreen canvas always has its own, into its
    /// drawing buffer.
    pub fn init_skia_for_canvas(&mut self, id: u32) -> (result: Result<(), CanvasError>)
        requires
            old(self).wf(),
        ensures
            final(self).wf(),
            only_painting_moved(old(self)@, final(self)@),
            context_outcome(old(self)@, final(self)@, id, result),
    {
        if let Err(e) = self.make_current_needed(id) {
            proof {
                reveal(crate::binding::made_current);
            }
            return Err(e);
        }
        if self.context_2d(id).is_some() {
            return Ok(());
        }
        let entry = match self.canvas(id) {
            None => {
                return Err(CanvasError::NotFound);
            },
            Some(entry) => entry,
        };
        assert(fresh_context(entry, 0) == fresh_context(old(self)@.canvases[id], 0));
        match self.create_surface(entry) {
            Err(e) => Err(e),
            Ok(tag) => {
                self.finish_context(entry, tag);
                Ok(())
            },
        }
    }

    /// Put a new 2D context on the books, give every context its share of the cache, and
    /// decide again how the onscreen canvas shows.
    fn finish_context(&mut self, entry: CanvasEntry, tag: u64)
        requires
            old(self).wf(),
        ensures
            final(self).wf(),
            only_painting_moved(old(self)@, final(self)@),
            final(self)@.bound == old(self)@.bound,
            final(self)@.shared_2d == old(self)@.shared_2d,
            final(self)@.egl == old(self)@.egl,
            final(self)@.paint == (crate::painters::PaintModel {
                rebalanced: old(self)@.paint.rebalanced + 1,
                ..old(self)@.paint
            }),
            final(self)@.contexts == old(self)@.contexts.insert(
                entry.info.id,
                fresh_context(entry, tag),
            ),
            entry.info.id == ONSCREEN && old(self)@.canvases.dom().contains(ONSCREEN) ==> !final(
                self)@.canvases[ONSCREEN].bypass_drawing_buffer,
            entry.info.id == ONSCREEN ==> crate::binding::mode_settled(final(self)@),
    {
        let id: u32 = entry.info.id;
        let (fbo, width, height) = match entry.drawing_buffer {
            Some(db) => (db.fbo, db.width, db.height),
            None => (0u32, entry.physical_width, entry.physical_height),
        };
        self.put_context(id, Context2d { tag, fbo, width, height });
        let _ = self.issue_paint(PaintCall::Rebalance);
        if id == ONSCREEN {
            let ghost made = self@;
            self.evaluate_bypass();
            proof {
                if made.canvases.dom().contains(ONSCREEN) {
                    crate::binding::law_bypass_holds_only_while_safe(made, self@);
                }
            }
        }
    }

    /// Make a canvas's 2D context again, painting with what it painted with before.
    ///
    /// Content sends a value only when it differs from the one it believes is in force, so
    /// a context that came back with the values every context starts with would paint
    /// wrongly from then on.
    #[verifier::rlimit(40)]
    pub fn rebuild_2d_context_preserving_state(&mut self, id: u32) -> (result: Result<
        (),
        CanvasError,
    >)
        requires
            old(self).wf(),
        ensures
            final(self).wf(),
            only_painting_moved(old(self)@, final(self)@),
            result is Ok ==> final(self)@.contexts == old(self)@.contexts.insert(
                id,
                final(self)@.contexts[id],
            ) && crate::binding::serving(final(self)@.bound) == Some(id) && old(
                self)@.canvases.dom().contains(id) && final(self)@.contexts[id] == fresh_context(
                old(self)@.canvases[id],
                final(self)@.contexts[id].tag,
            ),
            result is Ok ==> old(self)@.contexts.dom().contains(id) ==> fitted(final(self)@, id),
            final(self)@.paint.truthful ==> old(self)@.paint.truthful,
            result is Ok && old(self)@.contexts.dom().contains(id) && final(self)@.paint.truthful
                ==> final(self)@.paint.alive.dom().contains(id) && final(self)@.paint.alive[id].state
                == old(self)@.paint.alive[id].state,
            result matches Err(e) ==> final(self)@.contexts == old(self)@.contexts.remove(id) && (
            e is Egl || e is Group || e is Paint || e is NotFound) && crate::manager::caused(
                old(self)@,
                final(self)@,
                id,
                e,
            ),
    {
        let state = self.drawing_state(id);
        self.drop_2d_context_and_wrappers(id, true);
        if let Err(e) = self.init_skia_for_canvas(id) {
            assert(self@.contexts =~= old(self)@.contexts.remove(id));
            return Err(e);
        }
        if let Some(state) = state {
            let _ = self.issue_paint(PaintCall::Adopt { canvas: id, state });
        }
        assert(self@.contexts =~= old(self)@.contexts.insert(id, self@.contexts[id]));
        Ok(())
    }
}

/// A canvas paints on the context that 2D canvases share: an offscreen one, where the session
/// is set up so.
pub open spec fn shares_2d(cfg: crate::manager::Config, entry: CanvasEntry) -> bool {
    cfg.share_2d && !entry.info.is_onscreen
}

/// The context that 2D canvases share serves with a tag. The one that was there stays; where
/// there was none, one was created that shares the root's objects.
pub open spec fn shared_served(before: Mgr, after: Mgr, tag: u64) -> bool {
    &&& after.shared_2d matches Some(shared)
    &&& shared.tag == tag
    &&& before.shared_2d is Some ==> after.shared_2d == before.shared_2d
    &&& before.shared_2d is None ==> crate::egl_device::stepped(
        before.egl,
        after.egl,
        crate::egl_device::Step::ContextMade {
            call: crate::manager::context_call(before.cfg, before.root),
            context: shared.egl.ctx,
        },
    )
}

/// A 2D context was asked for: a canvas that has one keeps it, and a new one starts with the
/// state that every context starts with.
pub open spec fn context_outcome(
    before: Mgr,
    after: Mgr,
    id: u32,
    result: Result<(), CanvasError>,
) -> bool {
    match result {
        Ok(_) => {
            let had = before.contexts.dom().contains(id);
            &&& crate::binding::serving(after.bound) == Some(id)
            &&& had ==> after.contexts == before.contexts && after.paint == before.paint
                && after.shared_2d == before.shared_2d
            &&& !had ==> {
                &&& before.canvases.dom().contains(id)
                &&& shares_2d(before.cfg, before.canvases[id]) ==> shared_served(
                    before,
                    after,
                    after.contexts[id].tag,
                )
                &&& !shares_2d(before.cfg, before.canvases[id]) ==> after.shared_2d
                    == before.shared_2d
                &&& after.contexts == before.contexts.insert(
                    id,
                    fresh_context(before.canvases[id], after.contexts[id].tag),
                )
                &&& after.paint == (crate::painters::PaintModel {
                    alive: before.paint.alive.insert(
                        id,
                        fresh_painter(before.cfg, before.canvases[id], after.contexts[id].tag),
                    ),
                    rebalanced: before.paint.rebalanced + 1,
                    ..before.paint
                })
                &&& id == ONSCREEN ==> !after.canvases[ONSCREEN].bypass_drawing_buffer
                    && crate::binding::mode_settled(after)
            }
        },
        Err(e) => {
            &&& after.contexts == before.contexts
            &&& after.paint.alive == before.paint.alive
            &&& after.paint.truthful == before.paint.truthful
            &&& e is NotFound || e is Egl || e is Group || e is Paint
            &&& crate::manager::caused(before, after, id, e)
        },
    }
}

/// The canvases of a list that paint on the shared context, in its order.
pub open spec fn sharing(m: Mgr, ids: Seq<u32>) -> Seq<u32>
    decreases ids.len(),
{
    if ids.len() == 0 {
        Seq::empty()
    } else {
        let rest = sharing(m, ids.drop_last());
        if crate::manager::uses_shared(m, ids.last()) {
            rest.push(ids.last())
        } else {
            rest
        }
    }
}

/// The canvases of a list that paint on a context of their own, in its order.
pub open spec fn owning(m: Mgr, ids: Seq<u32>) -> Seq<u32>
    decreases ids.len(),
{
    if ids.len() == 0 {
        Seq::empty()
    } else {
        let rest = owning(m, ids.drop_last());
        if !crate::manager::uses_shared(m, ids.last()) && m.contexts.dom().contains(ids.last()) {
            rest.push(ids.last())
        } else {
            rest
        }
    }
}

proof fn lemma_sharing_depends(a: Mgr, b: Mgr, ids: Seq<u32>)
    requires
        a.contexts == b.contexts,
        a.shared_2d == b.shared_2d,
    ensures
        sharing(a, ids) == sharing(b, ids),
        owning(a, ids) == owning(b, ids),
    decreases ids.len(),
{
    if ids.len() > 0 {
        lemma_sharing_depends(a, b, ids.drop_last());
    }
}

proof fn lemma_owning_grows(m: Mgr, ids: Seq<u32>, k: int)
    requires
        0 <= k < ids.len(),
        !crate::manager::uses_shared(m, ids[k]),
        m.contexts.dom().contains(ids[k]),
    ensures
        owning(m, ids).len() > 0,
    decreases ids.len(),
{
    if k < ids.len() - 1 {
        lemma_owning_grows(m, ids.drop_last(), k);
    }
}

proof fn lemma_sharing_shares(m: Mgr, ids: Seq<u32>)
    ensures
        forall|i: int|
            0 <= i < sharing(m, ids).len() ==> crate::manager::uses_shared(
                m,
                #[trigger] sharing(m, ids)[i],
            ),
    decreases ids.len(),
{
    if ids.len() > 0 {
        lemma_sharing_shares(m, ids.drop_last());
        let rest = sharing(m, ids.drop_last());
        assert forall|i: int| 0 <= i < sharing(m, ids).len() implies crate::manager::uses_shared(
            m,
            #[trigger] sharing(m, ids)[i],
        ) by {
            if i < rest.len() {
                assert(sharing(m, ids)[i] == rest[i]);
            }
        }
    }
}

/// Everything is as it was but what is current, what was submitted, and what is known of
/// the library's state.
pub open spec fn only_flush_moved(before: Mgr, after: Mgr) -> bool {
    &&& crate::manager::same_session(before, after)
    &&& crate::manager::same_frames(before, after)
    &&& after.contexts == before.contexts
    &&& after.dirty == before.dirty
    &&& after.debt == before.debt
    &&& after.copy_fbos == before.copy_fbos
    &&& after.snapshots == before.snapshots
    &&& after.uploads == before.uploads
    &&& after.paint.alive == before.paint.alive
    &&& after.paint.truthful == before.paint.truthful
    &&& crate::manager::same_objects(before.egl, after.egl)
    &&& crate::manager::grew(before, after)
    &&& canvases_stay(before.canvases, after.canvases)
    &&& content_back(before.gl, after.gl)
}

/// Everything that content had bound is bound again, but for framebuffers, which go with what
/// is current.
pub open spec fn content_back(
    before: crate::gl_device::GlModel,
    after: crate::gl_device::GlModel,
) -> bool {
    after.truthful ==> before.truthful && after.bindings == (crate::gl_device::Bindings {
        read_framebuffer: after.bindings.read_framebuffer,
        draw_framebuffer: after.bindings.draw_framebuffer,
        ..before.bindings
    })
}

/// What was current is current again; where its canvas is gone, the root is.
pub open spec fn back_to(m: Mgr, bound: crate::manager::BoundContext, after: Mgr) -> bool {
    match bound {
        crate::manager::BoundContext::Canvas(id) => if m.canvases.dom().contains(id) {
            crate::binding::serving(after.bound) == Some(id)
        } else {
            after.bound == crate::manager::BoundContext::Resource
        },
        _ => after.bound == bound,
    }
}

/// A flush failed because a device refused, or because a canvas that has something recorded
/// is not there.
pub open spec fn flush_caused(before: Mgr, after: Mgr, e: CanvasError) -> bool {
    ||| crate::manager::refusals(after) > crate::manager::refusals(before)
    ||| e is NotFound && exists|id: u32| #[trigger]
        before.dirty.contains(id) && before.contexts.dom().contains(id)
            && !before.canvases.dom().contains(id)
}

impl<
    F: Fn(GlCall) -> u32,
    H: Fn(EglCall) -> Result<usize, EglError>,
    P: Fn(PaintCall) -> u64,
> CanvasManager<F, H, P> {
    /// Submit what a canvas's own 2D context has recorded. Nothing is submitted only where
    /// the canvas cannot be made current.
    fn flush_own(&mut self, id: u32) -> (result: Result<(), CanvasError>)
        requires
            old(self).wf(),
        ensures
            final(self).wf(),
            only_flush_moved(old(self)@, final(self)@),
            match result {
                Ok(_) => {
                    &&& final(self)@.paint.flushed == old(self)@.paint.flushed.push(id)
                    &&& final(self)@.paint.reset == old(self)@.paint.reset.push(id)
                    &&& final(self)@.shadows == old(self)@.shadows.insert(
                        id,
                        final(self)@.shadows[id],
                    )
                    &&& final(self)@.shadows[id].pipeline_unknown()
                    &&& crate::binding::serving(final(self)@.bound) == Some(id)
                },
                Err(e) => final(self)@.paint == old(self)@.paint && final(self)@.shadows == old(
                    self)@.shadows && crate::binding::made_current(
                    old(self)@,
                    final(self)@,
                    id,
                    Err(e),
                ),
            },
    {
        if let Err(e) = self.make_current_needed(id) {
            return Err(e);
        }
        let ghost bound = self@;
        let state = self.begin_scope();
        let _ = self.issue_paint(PaintCall::Flush { canvas: id });
        let _ = self.issue_paint(PaintCall::ResetState { canvas: id });
        self.end_scope(state);
        assert(self@.gl.truthful ==> self@.gl.bindings.pixel_store
            =~= bound.gl.bindings.pixel_store);
        self.forget_after_painting(id, state.active_texture);
        Ok(())
    }

    /// Submit what the canvases on the shared context have recorded: each as it comes, so
    /// that the device starts early, with the context's view of the library's state
    /// discarded once.
    fn flush_group(&mut self, ids: &Vec<u32>) -> (result: Result<(), CanvasError>)
        requires
            old(self).wf(),
            ids@.len() > 0,
            forall|i: int|
                0 <= i < ids@.len() ==> crate::manager::uses_shared(old(self)@, #[trigger] ids@[i]),
        ensures
            final(self).wf(),
            only_flush_moved(old(self)@, final(self)@),
            final(self)@.shadows == old(self)@.shadows,
            match result {
                Ok(_) => {
                    &&& final(self)@.paint.flushed == old(self)@.paint.flushed + ids@
                    &&& final(self)@.paint.reset == old(self)@.paint.reset.push(ids@[0])
                    &&& final(self)@.bound == crate::manager::BoundContext::Shared2D(ids@[0])
                },
                Err(e) => final(self)@.paint == old(self)@.paint && crate::binding::shared_bound(
                    old(self)@,
                    final(self)@,
                    ids@[0],
                    Err::<u64, CanvasError>(e),
                ),
            },
    {
        let head: u32 = ids[0];
        if let Err(e) = self.bind_shared_2d_context(head) {
            assert(self@.canvases.dom() =~= old(self)@.canvases.dom());
            return Err(e);
        }
        assert(self@.canvases.dom() =~= old(self)@.canvases.dom());
        let ghost bound = self@;
        let state = self.begin_scope();
        let mut i: usize = 0;
        let ghost start = self@;
        assert(start.paint.flushed =~= start.paint.flushed + ids@.take(0));
        while i < ids.len()
            invariant
                i <= ids@.len(),
                self.wf(),
                only_flush_moved(start, self@),
                self@.shadows == start.shadows,
                self@.paint.flushed == start.paint.flushed + ids@.take(i as int),
                self@.paint.reset == start.paint.reset,
                self@.bound == start.bound,
                self@.gl == start.gl,
            decreases ids@.len() - i,
        {
            let _ = self.issue_paint(PaintCall::Flush { canvas: ids[i] });
            assert(start.paint.flushed + ids@.take(i + 1) =~= (start.paint.flushed + ids@.take(
                i as int,
            )).push(ids@[i as int]));
            i = i + 1;
        }
        assert(ids@.take(i as int) =~= ids@);
        let _ = self.issue_paint(PaintCall::ResetState { canvas: head });
        self.end_scope(state);
        assert(self@.gl.truthful ==> self@.gl.bindings.pixel_store
            =~= bound.gl.bindings.pixel_store);
        Ok(())
    }

    /// Submit what every 2D context has recorded since this was last done, and go back to
    /// what was current. The canvases on the shared context come first, as one group. The
    /// answer is the canvases in the order in which they were submitted.
    pub fn flush_dirty_2d_contexts(&mut self) -> (result: Result<Vec<u32>, CanvasError>)
        requires
            old(self).wf(),
        ensures
            final(self).wf(),
            final(self)@.dirty == Seq::<u32>::empty(),
            final(self)@.contexts == old(self)@.contexts,
            final(self)@.paint.alive == old(self)@.paint.alive,
            crate::manager::same_targets(old(self)@.egl, final(self)@.egl),
            content_back(old(self)@.gl, final(self)@.gl),
            result matches Ok(flushed) ==> {
                let shared = sharing(old(self)@, old(self)@.dirty);
                let own = owning(old(self)@, old(self)@.dirty);
                &&& flushed@ == shared + own
                &&& final(self)@.paint.flushed == old(self)@.paint.flushed + shared + own
                &&& final(self)@.paint.reset == old(self)@.paint.reset + (if shared.len() > 0 {
                    seq![shared[0]]
                } else {
                    Seq::empty()
                }) + own
                &&& back_to(old(self)@, old(self)@.bound, final(self)@)
            },
            result matches Err(e) ==> flush_caused(old(self)@, final(self)@, e),
            sharing(old(self)@, old(self)@.dirty).len() == 0 && owning(
                old(self)@,
                old(self)@.dirty,
            ).len() == 0 ==> crate::binding::bound_restored(
                Mgr { dirty: Seq::empty(), ..old(self)@ },
                final(self)@,
                old(self)@.bound,
                match result {
                    Ok(_) => Ok(()),
                    Err(e) => Err(e),
                },
            ),
    {
        let saved = self.bound();
        let dirty = self.take_dirty();
        let ghost taken = self@;
        let mut flushed: Vec<u32> = Vec::new();
        let mut i: usize = 0;
        assert(flushed@ =~= sharing(taken, dirty@.take(0)));
        while i < dirty.len()
            invariant
                i <= dirty@.len(),
                self.wf(),
                self@ == taken,
                flushed@ == sharing(taken, dirty@.take(i as int)),
            decreases dirty@.len() - i,
        {
            assert(dirty@.take(i + 1).drop_last() =~= dirty@.take(i as int));
            if self.canvas_uses_shared_2d(dirty[i]) {
                flushed.push(dirty[i]);
            }
            i = i + 1;
        }
        assert(dirty@.take(i as int) =~= dirty@);
        let ghost shared = flushed@;
        proof {
            lemma_sharing_shares(taken, dirty@);
            lemma_sharing_depends(taken, old(self)@, dirty@);
        }
        if flushed.len() > 0 {
            if let Err(e) = self.flush_group(&flushed) {
                assert(shared.len() > 0);
                return Err(e);
            }
        }
        let ghost grouped = self@;
        let ghost group_resets = if shared.len() > 0 {
            seq![shared[0]]
        } else {
            Seq::<u32>::empty()
        };
        assert(grouped.paint.flushed =~= taken.paint.flushed + shared);
        assert(grouped.paint.reset =~= taken.paint.reset + group_resets);
        let mut k: usize = 0;
        assert(owning(taken, dirty@.take(0)) =~= Seq::empty());
        assert(flushed@ =~= shared + owning(taken, dirty@.take(0)));
        assert(self@.paint.flushed =~= grouped.paint.flushed + owning(taken, dirty@.take(0)));
        assert(self@.paint.reset =~= grouped.paint.reset + owning(taken, dirty@.take(0)));
        while k < dirty.len()
            invariant
                k <= dirty@.len(),
                self.wf(),
                self@.contexts == taken.contexts,
                self@.shared_2d == taken.shared_2d,
                content_back(taken.gl, self@.gl),
                self@.dirty == Seq::<u32>::empty(),
                self@.paint.alive == taken.paint.alive,
                crate::manager::refusals(self@) >= crate::manager::refusals(taken),
                self@.canvases.dom() == taken.canvases.dom(),
                taken == (Mgr { dirty: Seq::empty(), ..old(self)@ }),
                dirty@ == old(self)@.dirty,
                shared == sharing(old(self)@, old(self)@.dirty),
                shared.len() == 0 && owning(taken, dirty@.take(k as int)).len() == 0 ==> self@
                    == taken,
                crate::manager::same_targets(taken.egl, self@.egl),
                flushed@ == shared + owning(taken, dirty@.take(k as int)),
                self@.paint.flushed == grouped.paint.flushed + owning(
                    taken,
                    dirty@.take(k as int),
                ),
                self@.paint.reset == grouped.paint.reset + owning(taken, dirty@.take(k as int)),
                taken.dirty == Seq::<u32>::empty(),
                old(self)@.contexts == taken.contexts,
                old(self)@.paint == taken.paint,
                old(self)@.egl == taken.egl,
            decreases dirty@.len() - k,
        {
            let id: u32 = dirty[k];
            proof {
                assert(dirty@.take(k + 1).drop_last() =~= dirty@.take(k as int));
                assert(dirty@.take(k + 1).last() == id);
            }
            if !self.canvas_uses_shared_2d(id) && self.context_2d(id).is_some() {
                let ghost reached = self@;
                if let Err(e) = self.flush_own(id) {
                    proof {
                        reveal(crate::binding::made_current);
                        assert(dirty@.contains(id));
                        lemma_owning_grows(taken, dirty@, k as int);
                        lemma_sharing_depends(taken, old(self)@, dirty@);
                    }
                    return Err(e);
                }
                flushed.push(id);
                proof {
                    let own = owning(taken, dirty@.take(k as int));
                    assert((shared + own).push(id) =~= shared + own.push(id));
                    assert((grouped.paint.flushed + own).push(id) =~= grouped.paint.flushed
                        + own.push(id));
                    assert((grouped.paint.reset + own).push(id) =~= grouped.paint.reset + own.push(
                        id,
                    ));
                }
            }
            k = k + 1;
        }
        assert(dirty@.take(k as int) =~= dirty@);
        let restored = self.restore_bound(saved);
        proof {
            lemma_sharing_depends(taken, old(self)@, dirty@);
            reveal(crate::binding::made_current);
        }
        match restored {
            Err(e) => Err(e),
            Ok(unit) => {
                assert(unit == ());
                Ok(flushed)
            },
        }
    }
}

/// The call that makes a 2D context of a canvas's own.
pub open spec fn own_call(entry: CanvasEntry) -> PaintCall {
    let (fbo, width, height) = paint_target(entry);
    PaintCall::Create {
        canvas: entry.info.id,
        fbo,
        width,
        height,
        drawing_buffer: entry.drawing_buffer is Some,
    }
}

/// The session without a canvas's 2D context.
pub open spec fn dropped_2d(m: Mgr, id: u32, context_is_current: bool) -> Mgr {
    if m.contexts.dom().contains(id) {
        Mgr {
            contexts: m.contexts.remove(id),
            paint: crate::painters::after_paint_call(
                crate::painters::after_paint_call(
                    m.paint,
                    PaintCall::Drop { canvas: id, abandon: !context_is_current },
                    0,
                    crate::gl_device::moment(m.gl),
                ),
                PaintCall::PurgeWrappers { tag: m.contexts[id].tag },
                0,
                crate::gl_device::moment(m.gl),
            ),
            dropped: crate::manager::dropped_after(
                m,
                PaintCall::Drop { canvas: id, abandon: !context_is_current },
            ),
            ..m
        }
    } else {
        m
    }
}

/// The age, in milliseconds, from which a 2D context gives up what it has not used when
/// memory is short.
pub const UNUSED_UNDER_PRESSURE: u64 = 200;

impl<
    F: Fn(GlCall) -> u32,
    H: Fn(EglCall) -> Result<usize, EglError>,
    P: Fn(PaintCall) -> u64,
> CanvasManager<F, H, P> {
    /// Make every 2D context give up what it has not used for so many milliseconds.
    pub fn perform_deferred_cleanup_all(&mut self, millis: u64)
        requires
            old(self).wf(),
        ensures
            final(self).wf(),
            final(self)@ == (Mgr {
                paint: crate::painters::PaintModel {
                    trims: old(self)@.paint.trims.push(PaintTrim::UnusedFor { millis }),
                    ..old(self)@.paint
                },
                ..old(self)@
            }),
    {
        let _ = self.issue_paint(PaintCall::Trim { what: PaintTrim::UnusedFor { millis } });
    }

    /// Memory is short: every 2D context gives up its cache, and what it has not used lately.
    /// Nothing is left behind: no limit of this or another session changes.
    pub fn on_trim_memory(&mut self)
        requires
            old(self).wf(),
        ensures
            final(self).wf(),
            final(self)@ == (Mgr {
                paint: crate::painters::PaintModel {
                    trims: old(self)@.paint.trims.push(PaintTrim::Cache).push(
                        PaintTrim::UnusedFor { millis: UNUSED_UNDER_PRESSURE },
                    ),
                    ..old(self)@.paint
                },
                ..old(self)@
            }),
    {
        let _ = self.issue_paint(PaintCall::Trim { what: PaintTrim::Cache });
        self.perform_deferred_cleanup_all(UNUSED_UNDER_PRESSURE);
    }
}

/// A canvas is painted in its drawing buffer, at that size, and on its surface where it has
/// none. A canvas that gets a 2D context gets one of that size, and the canvas of the window is
/// then not bypassed; one that has a context keeps it.
pub proof fn law_a_2d_context_covers_its_canvas(
    before: Mgr,
    after: Mgr,
    id: u32,
    result: Result<(), CanvasError>,
)
    requires
        context_outcome(before, after, id, result),
    ensures
        result is Ok ==> crate::binding::serving(after.bound) == Some(id),
        result is Ok && before.contexts.dom().contains(id) ==> after.contexts == before.contexts
            && after.paint == before.paint,
        result is Ok && !before.contexts.dom().contains(id) ==> {
            let entry = before.canvases[id];
            let context = after.contexts[id];
            let painter = after.paint.alive[id];
            &&& before.canvases.dom().contains(id)
            &&& after.contexts.dom().contains(id)
            &&& entry.drawing_buffer matches Some(db) ==> context.fbo == db.fbo && context.width
                == db.width && context.height == db.height
            &&& entry.drawing_buffer is None ==> context.fbo == 0 && context.width
                == entry.physical_width && context.height == entry.physical_height
            &&& after.paint.alive.dom().contains(id)
            &&& painter.width == context.width && painter.height == context.height
            &&& painter.tag == context.tag
            &&& entry.info.is_onscreen || !before.cfg.share_2d ==> painter.fbo == context.fbo
            &&& id == 1 ==> !after.canvases[1].bypass_drawing_buffer
        },
        result is Err ==> after.contexts == before.contexts && after.paint.alive
            == before.paint.alive,
{
}

/// A canvas shares its 2D context exactly if the session shares them and it is not the canvas
/// of the window.
pub proof fn law_which_canvases_may_share(cfg: crate::manager::Config, entry: CanvasEntry)
    ensures
        entry.info.is_onscreen ==> !shares_2d(cfg, entry),
        !cfg.share_2d ==> !shares_2d(cfg, entry),
        cfg.share_2d && !entry.info.is_onscreen ==> shares_2d(cfg, entry),
{
}

/// A 2D context of its own is asked for where its canvas is painted.
pub proof fn law_a_context_is_asked_for_its_canvas(entry: CanvasEntry)
    ensures
        entry.drawing_buffer matches Some(db) ==> own_call(entry) == (PaintCall::Create {
            canvas: entry.info.id,
            fbo: db.fbo,
            width: db.width,
            height: db.height,
            drawing_buffer: true,
        }),
        entry.drawing_buffer is None ==> own_call(entry) == (PaintCall::Create {
            canvas: entry.info.id,
            fbo: 0,
            width: entry.physical_width,
            height: entry.physical_height,
            drawing_buffer: false,
        }),
{
}

/// Every canvas of a list that has a 2D context is among those that share one or among those
/// that own theirs, never both, and no other canvas is.
pub proof fn law_contexts_are_shared_or_owned(m: Mgr, ids: Seq<u32>, id: u32)
    ensures
        sharing(m, ids).contains(id) == (ids.contains(id) && crate::manager::uses_shared(m, id)),
        owning(m, ids).contains(id) == (ids.contains(id) && !crate::manager::uses_shared(m, id)
            && m.contexts.dom().contains(id)),
    decreases ids.len(),
{
    broadcast use vstd::seq_lib::group_seq_properties;

    if ids.len() > 0 {
        let rest = ids.drop_last();
        law_contexts_are_shared_or_owned(m, rest, id);
        assert(ids =~= rest.push(ids.last()));
        assert(ids.contains(id) == (rest.contains(id) || id == ids.last())) by {
            if rest.contains(id) {
                let k = rest.index_of(id);
                assert(ids[k] == id);
            }
            if id == ids.last() {
                assert(ids[ids.len() - 1] == id);
            }
            if ids.contains(id) && id != ids.last() {
                let k = ids.index_of(id);
                assert(rest[k] == id);
            }
        }
        let some = sharing(m, rest);
        let others = owning(m, rest);
        lemma_pushed(some, ids.last(), id);
        lemma_pushed(others, ids.last(), id);
    }
}

proof fn lemma_pushed(s: Seq<u32>, last: u32, id: u32)
    ensures
        s.push(last).contains(id) == (s.contains(id) || id == last),
{
    let longer = s.push(last);
    if s.contains(id) {
        let k = s.index_of(id);
        assert(longer[k] == id);
    }
    if id == last {
        assert(longer[s.len() as int] == id);
    }
    if longer.contains(id) && id != last {
        let k = longer.index_of(id);
        assert(s[k] == id);
    }
}

/// A 2D context that is dropped is gone with its painter, and no other is.
pub proof fn law_a_dropped_context_is_gone(m: Mgr, id: u32, current: bool, other: u32)
    ensures
        !dropped_2d(m, id, current).contexts.dom().contains(id),
        m.contexts.dom().contains(id) ==> !dropped_2d(m, id, current).paint.alive.dom().contains(id),
        other != id ==> dropped_2d(m, id, current).contexts.dom().contains(other)
            == m.contexts.dom().contains(other),
        other != id && m.contexts.dom().contains(other) ==> dropped_2d(
            m,
            id,
            current,
        ).contexts[other] == m.contexts[other],
        dropped_2d(m, id, current).canvases == m.canvases,
{
}

/// A flush that succeeds submits every dirty canvas that has a 2D context, and leaves none
/// dirty.
pub proof fn law_a_flush_leaves_nothing_dirty<
    F: Fn(GlCall) -> u32,
    H: Fn(EglCall) -> Result<usize, EglError>,
    P: Fn(PaintCall) -> u64,
>(flushed: Vec<u32>, id: u32)
    ensures
        forall|m: &mut CanvasManager<F, H, P>|
            #[trigger] call_ensures(
                CanvasManager::<F, H, P>::flush_dirty_2d_contexts,
                (m,),
                Ok::<Vec<u32>, CanvasError>(flushed),
            ) ==> {
                let before = (*m)@;
                let after = (*final(m))@;
                &&& after.dirty.len() == 0
                &&& after.contexts == before.contexts
                &&& before.dirty.contains(id) && before.contexts.dom().contains(id)
                    ==> flushed@.contains(id)
                &&& flushed@.contains(id) ==> before.dirty.contains(id)
                &&& after.paint.flushed.len() == before.paint.flushed.len() + flushed@.len()
            },
{
    broadcast use vstd::seq_lib::group_seq_properties;

    assert forall|m: &mut CanvasManager<F, H, P>|
        #[trigger] call_ensures(
            CanvasManager::<F, H, P>::flush_dirty_2d_contexts,
            (m,),
            Ok::<Vec<u32>, CanvasError>(flushed),
        ) implies {
        let before = (*m)@;
        &&& before.dirty.contains(id) && before.contexts.dom().contains(id)
            ==> flushed@.contains(id)
        &&& flushed@.contains(id) ==> before.dirty.contains(id)
    } by {
        let before = (*m)@;
        law_contexts_are_shared_or_owned(before, before.dirty, id);
        let shared = sharing(before, before.dirty);
        let own = owning(before, before.dirty);
        assert(flushed@ == shared + own);
        if shared.contains(id) {
            let k = shared.index_of(id);
            assert(flushed@[k] == id);
        }
        if own.contains(id) {
            let k = own.index_of(id);
            assert(flushed@[shared.len() + k] == id);
        }
        if flushed@.contains(id) {
            let k = flushed@.index_of(id);
            if k < shared.len() {
                assert(shared[k] == id);
            } else {
                assert(own[k - shared.len()] == id);
            }
        }
    }
}

/// Under pressure the cache goes first, and then what was not used for a fifth of a second.
pub proof fn law_what_goes_under_pressure<
    F: Fn(GlCall) -> u32,
    H: Fn(EglCall) -> Result<usize, EglError>,
    P: Fn(PaintCall) -> u64,
>(millis: u64)
    ensures
        forall|m: &mut CanvasManager<F, H, P>|
            #[trigger] call_ensures(CanvasManager::<F, H, P>::on_trim_memory, (m,), ()) ==> {
                let before = (*m)@.paint.trims;
                let after = (*final(m))@.paint.trims;
                &&& after.len() == before.len() + 2
                &&& after[before.len() as int] == PaintTrim::Cache
                &&& after.last() == (PaintTrim::UnusedFor { millis: 200 })
            },
        forall|m: &mut CanvasManager<F, H, P>|
            #[trigger] call_ensures(
                CanvasManager::<F, H, P>::perform_deferred_cleanup_all,
                (m, millis),
                (),
            ) ==> {
                let before = (*m)@.paint.trims;
                let after = (*final(m))@.paint.trims;
                &&& after.len() == before.len() + 1
                &&& after.last() == (PaintTrim::UnusedFor { millis })
            },
{
}

} // verus!
