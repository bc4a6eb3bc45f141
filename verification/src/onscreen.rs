//! The window that a session shows on: how a native target is installed, let go, and kept
//! where the driver does not let it go.
use vstd::prelude::*;

use crate::drawing_buffer::DrawingBuffer;
use crate::egl_device::EglCall;
use crate::egl_device::EglContextHandle;
use crate::egl_setup::EglError;
use crate::gl_device::GlCall;
use crate::manager::BoundContext;
use crate::manager::CanvasEntry;
use crate::manager::CanvasError;
use crate::manager::CanvasManager;
use crate::manager::Flags;
use crate::manager::Mgr;
use crate::manager::PendingOnscreen;
use crate::manager::Preserved;
use crate::manager::Window;
use crate::manager::ONSCREEN;
use crate::painters::PaintCall;

verus! {

/// What became of a candidate for the window.
#[derive(Clone, Copy, Debug, PartialEq, Eq, Structural)]
pub enum CandidateCleanup {
    /// Nothing of it was made.
    NotRequired,
    /// The driver destroyed its surface: the native target is free.
    Released,
    /// Its surface is still there: the native target has to be kept.
    Failed,
}

/// The context and drawing buffer that are put by once a window surface that was not yet a
/// canvas's is gone. A pair that is put by already is never replaced.
pub open spec fn kept_pair(preserved: Preserved, pending: PendingOnscreen) -> Preserved {
    if pending.context is None {
        preserved
    } else if preserved.ctx is None {
        Preserved { ctx: pending.context, db: pending.drawing_buffer }
    } else if preserved.ctx == pending.context && preserved.db is None {
        Preserved { ctx: preserved.ctx, db: pending.drawing_buffer }
    } else {
        preserved
    }
}

/// A context that a window surface had and that is not put by was disposed of with its
/// drawing buffer, as far as the driver agreed.
pub open spec fn surplus_disposed(before: Mgr, after: Mgr, pending: PendingOnscreen) -> bool {
    pending.context is Some && after.preserved.ctx != pending.context ==> pair_disposed_of(
        before,
        after,
        Preserved { ctx: pending.context, db: pending.drawing_buffer },
    )
}

/// Everything is as it was but the display, objects of a drawing buffer, what is current,
/// and what is put by.
pub open spec fn only_candidate_moved(before: Mgr, after: Mgr) -> bool {
    &&& crate::manager::same_books(before, after)
    &&& crate::manager::same_frames(before, after)
    &&& after.cfg == before.cfg
    &&& after.root == before.root
    &&& after.shared_2d == before.shared_2d
    &&& after.flags == before.flags
    &&& after.window == before.window
    &&& after.next_canvas_id == before.next_canvas_id
    &&& after.canvases == before.canvases
    &&& after.gl.bindings == before.gl.bindings
    &&& after.gl.truthful == before.gl.truthful
    &&& only_deleted(before.gl, after.gl)
    &&& crate::canvases::same_storage(before.gl, after.gl)
    &&& crate::canvases::same_display(before.egl, after.egl)
    &&& crate::manager::grew(before, after)
}

/// No object is there that was not, and no viewport was set.
pub open spec fn only_deleted(
    before: crate::gl_device::GlModel,
    after: crate::gl_device::GlModel,
) -> bool {
    &&& after.textures.subset_of(before.textures)
    &&& after.framebuffers.subset_of(before.framebuffers)
    &&& after.renderbuffers.subset_of(before.renderbuffers)
    &&& after.buffers == before.buffers
    &&& after.code_gone == before.code_gone
    &&& after.viewports == before.viewports
}

/// What the next install owes the onscreen canvas's content: the state that it painted
/// with. A debt is never dropped, only replaced by the state of a context that is alive.
pub open spec fn restore_owed(before: Mgr, after: Mgr) -> bool {
    if before.contexts.dom().contains(ONSCREEN) {
        &&& after.window.restore_2d is Some
        &&& after.paint.truthful && before.paint.alive.dom().contains(ONSCREEN)
            ==> after.window.restore_2d == Some(before.paint.alive[ONSCREEN].state)
    } else {
        after.window.restore_2d == before.window.restore_2d
    }
}

/// Nothing of the session moved that does not follow from the onscreen canvas going.
pub open spec fn only_onscreen_moved(before: Mgr, after: Mgr) -> bool {
    &&& after.cfg == before.cfg
    &&& after.root == before.root
    &&& after.shared_2d == before.shared_2d
    &&& after.flags == before.flags
    &&& after.pending == before.pending
    &&& after.next_canvas_id == before.next_canvas_id
    &&& after.debt == before.debt
    &&& after.copy_fbos == before.copy_fbos
    &&& after.snapshots == before.snapshots
    &&& after.uploads == before.uploads
    &&& after.adrift == before.adrift
    &&& after.swap_damage_rejected == before.swap_damage_rejected
    &&& after.window.frame_rate == before.window.frame_rate
    &&& after.window.content_backing == before.window.content_backing
    &&& after.window.pixel_ratio == before.window.pixel_ratio
    &&& crate::canvases::same_storage(before.gl, after.gl)
    &&& crate::canvases::same_display(before.egl, after.egl)
    &&& crate::manager::grew(before, after)
    &&& after.paint.truthful ==> before.paint.truthful
    &&& restore_owed(before, after)
}

/// The drawing buffer of a pair was deleted under the pair's own context, since another
/// context does not know it; or the driver refused to make that current.
pub open spec fn deleted_in_place(before: Mgr, after: Mgr, ctx: usize, db: DrawingBuffer) -> bool {
    ||| exists|i: int|
        before.unbuffered.len() <= i < after.unbuffered.len() && #[trigger] after.unbuffered[i] == (
            db.fbo,
            Some(ctx),
        )
    ||| crate::egl_device::refused_since(
        before.egl,
        after.egl,
        crate::manager::current_call(EglContextHandle { ctx, surf: before.root.surf }),
    )
}

/// A context and its drawing buffer were disposed of, as far as the driver agreed.
pub open spec fn pair_disposed_of(before: Mgr, after: Mgr, pair: Preserved) -> bool {
    pair.ctx matches Some(ctx) ==> {
        &&& crate::egl_device::context_unmade(before.egl, after.egl, ctx)
        &&& pair.db matches Some(db) ==> deleted_in_place(before, after, ctx, db)
    }
}

/// What was disposed of within a stretch was so within a longer one.
proof fn lemma_disposed_within(first: Mgr, before: Mgr, after: Mgr, last: Mgr, pair: Preserved)
    requires
        crate::egl_device::remembers(first.egl, before.egl),
        crate::egl_device::remembers(after.egl, last.egl),
        first.unbuffered == before.unbuffered,
        after.unbuffered == last.unbuffered,
        first.root == before.root,
        pair_disposed_of(before, after, pair),
    ensures
        pair_disposed_of(first, last, pair),
{
    if pair.ctx is Some {
        let handle = EglContextHandle { ctx: pair.ctx->0, surf: None };
        crate::egl_device::lemma_unmade_within(
            first.egl,
            before.egl,
            after.egl,
            last.egl,
            handle,
        );
        crate::egl_device::lemma_refusal_within(
            first.egl,
            before.egl,
            after.egl,
            last.egl,
            crate::manager::current_call(
                EglContextHandle { ctx: pair.ctx->0, surf: before.root.surf },
            ),
        );
    }
}

/// The pair that was put by was disposed of, as far as the driver agreed.
pub open spec fn spare_disposed(before: Mgr, after: Mgr) -> bool {
    pair_disposed_of(before, after, before.preserved)
}

/// The onscreen canvas is off the books, with all that is kept of it but its context and
/// its drawing buffer, which are put by in place of those that were.
pub open spec fn detached(before: Mgr, after: Mgr) -> bool {
    let entry = before.canvases[ONSCREEN];
    &&& after.canvases == before.canvases.remove(ONSCREEN)
    &&& after.window.installed is None
    &&& after.preserved == (Preserved { ctx: Some(entry.ctx.ctx), db: entry.drawing_buffer })
    &&& spare_disposed(before, after)
    &&& after.bound == BoundContext::Resource
    &&& after.history.len() == 0
    &&& after.plan is None
    &&& after.swap_interval == -1
    &&& entry.ctx.surf matches Some(s) ==> !after.egl.windows.dom().contains(s)
        && after.egl.windows == before.egl.windows.remove(s)
    &&& entry.ctx.surf is None ==> after.egl.windows == before.egl.windows
}

/// The onscreen canvas is gone from the lists of what is painted and known.
pub open spec fn onscreen_forgotten(before: Mgr, after: Mgr) -> bool {
    &&& after.contexts == before.contexts.remove(ONSCREEN)
    &&& after.paint.alive == (if before.contexts.dom().contains(ONSCREEN) {
        before.paint.alive.remove(ONSCREEN)
    } else {
        before.paint.alive
    })
    &&& after.dirty.to_set() == before.dirty.to_set().remove(ONSCREEN)
    &&& after.shadows == before.shadows.remove(ONSCREEN)
    &&& crate::canvases::images_forgotten(before, after, ONSCREEN)
}

/// The driver kept the window: the canvas and its native target stay where they were.
pub open spec fn retained(before: Mgr, after: Mgr) -> bool {
    &&& crate::painting::canvases_stay(before.canvases, after.canvases)
    &&& after.window.installed == before.window.installed
    &&& after.preserved == before.preserved
    &&& after.egl.windows == before.egl.windows
    &&& crate::manager::refusals(after) > crate::manager::refusals(before)
}

impl<
    F: Fn(GlCall) -> u32,
    H: Fn(EglCall) -> Result<usize, EglError>,
    P: Fn(PaintCall) -> u64,
> CanvasManager<F, H, P> {
    /// Delete a drawing buffer under the context that it belongs to, and visit the root from
    /// there. With `strictly`, a drawing buffer whose context cannot be made current is left.
    pub(crate) fn delete_under(&mut self, ctx: usize, db: DrawingBuffer, strictly: bool)
        requires
            old(self).wf(),
        ensures
            final(self).wf(),
            crate::manager::same_books(old(self)@, final(self)@),
            crate::manager::same_frames(old(self)@, final(self)@),
            crate::manager::same_session(old(self)@, final(self)@),
            final(self)@.canvases == old(self)@.canvases,
            final(self)@.bound == old(self)@.bound,
            crate::canvases::same_display(old(self)@.egl, final(self)@.egl),
            final(self)@.egl.windows == old(self)@.egl.windows,
            final(self)@.egl.surfaces_gone == old(self)@.egl.surfaces_gone,
            final(self)@.gl == crate::manager::without_buffer(old(self)@, db).gl || strictly
                && final(self)@.gl == old(self)@.gl,
            crate::egl_device::remembers(old(self)@.egl, final(self)@.egl),
            deleted_in_place(old(self)@, final(self)@, ctx, db),
    {
        let root = self.root();
        let handle = EglContextHandle { ctx, surf: root.surf };
        let there: bool = self.visit(handle).is_ok();
        let ghost visited = self@;
        if there || !strictly {
            self.destroy_drawing_buffer(db);
        }
        let _ = self.visit(root);
        proof {
            let n = old(self)@.unbuffered.len() as int;
            let k = old(self)@.egl.refused.len() as int;
            if there {
                assert(self@.unbuffered[n] == (db.fbo, Some(ctx)));
            } else {
                assert(visited.egl.refused[k].0 == crate::manager::current_call(handle));
                assert(self@.egl.refused[k] == visited.egl.refused[k]);
            }
        }
    }

    /// Delete a drawing buffer under the context that it belongs to, and destroy that
    /// context. With `strictly`, a drawing buffer whose context cannot be made current is
    /// left.
    fn dispose_pair(&mut self, pair: Preserved, strictly: bool)
        requires
            old(self).wf(),
        ensures
            final(self).wf(),
            crate::egl_device::remembers(old(self)@.egl, final(self)@.egl),
            crate::manager::same_books(old(self)@, final(self)@),
            crate::manager::same_frames(old(self)@, final(self)@),
            crate::manager::same_session(old(self)@, final(self)@),
            final(self)@.canvases == old(self)@.canvases,
            final(self)@.bound == old(self)@.bound,
            final(self)@.gl.bindings == old(self)@.gl.bindings,
            final(self)@.gl.truthful == old(self)@.gl.truthful,
            only_deleted(old(self)@.gl, final(self)@.gl),
            crate::canvases::same_storage(old(self)@.gl, final(self)@.gl),
            pair.db is None ==> final(self)@.gl == old(self)@.gl,
            pair.db is Some && !strictly ==> final(self)@.gl == crate::manager::without_buffer(
                old(self)@,
                pair.db->0,
            ).gl,
            crate::canvases::same_display(old(self)@.egl, final(self)@.egl),
            final(self)@.egl.windows == old(self)@.egl.windows,
            final(self)@.egl.surfaces_gone == old(self)@.egl.surfaces_gone,
            pair_disposed_of(old(self)@, final(self)@, pair),
    {
        match pair.ctx {
            None => {
                if let Some(db) = pair.db {
                    self.destroy_drawing_buffer(db);
                }
            },
            Some(ctx) => {
                if let Some(db) = pair.db {
                    self.delete_under(ctx, db, strictly);
                }
                let ghost emptied = self@;
                let ghost away = self@.egl;
                let _ = self.destroy_context(ctx);
                proof {
                    crate::canvases::lemma_context_tried(away, self@.egl, ctx);
                    if pair.db is Some {
                        crate::egl_device::lemma_refusal_within(
                            old(self)@.egl,
                            old(self)@.egl,
                            away,
                            self@.egl,
                            crate::manager::current_call(
                                EglContextHandle { ctx, surf: old(self)@.root.surf },
                            ),
                        );
                        assert(deleted_in_place(old(self)@, emptied, ctx, pair.db->0));
                        assert(self@.unbuffered == emptied.unbuffered);
                        assert(deleted_in_place(old(self)@, self@, ctx, pair.db->0));
                    }
                    crate::egl_device::lemma_unmade_within(
                        old(self)@.egl,
                        away,
                        self@.egl,
                        self@.egl,
                        EglContextHandle { ctx, surf: None },
                    );
                }
            },
        }
    }

    /// Put by the context and the drawing buffer of a window surface that is gone, for the
    /// next one; where a pair is put by already, the new one is disposed of.
    fn keep_pair(&mut self, pending: PendingOnscreen)
        requires
            old(self).wf(),
        ensures
            final(self).wf(),
            only_candidate_moved(old(self)@, final(self)@),
            final(self)@.pending == old(self)@.pending,
            final(self)@.bound == old(self)@.bound,
            final(self)@.preserved == kept_pair(old(self)@.preserved, pending),
            final(self)@.egl.windows == old(self)@.egl.windows,
            final(self)@.egl.surfaces_gone == old(self)@.egl.surfaces_gone,
            surplus_disposed(old(self)@, final(self)@, pending),
    {
        let preserved = self.preserved();
        if let Some(context) = pending.context {
            match preserved.ctx {
                None => {
                    self.set_preserved(
                        Preserved { ctx: Some(context), db: pending.drawing_buffer },
                    );
                },
                Some(kept) => {
                    if kept == context {
                        if preserved.db.is_none() {
                            self.set_preserved(
                                Preserved { ctx: preserved.ctx, db: pending.drawing_buffer },
                            );
                        }
                    } else {
                        self.dispose_pair(
                            Preserved { ctx: Some(context), db: pending.drawing_buffer },
                            true,
                        );
                    }
                },
            }
        }
    }

    /// Release a window surface that was not yet a canvas's.
    ///
    /// `Released` only once the root is current and the driver has destroyed the surface;
    /// otherwise the surface and its target are kept as they were.
    pub fn cleanup_pending_onscreen(&mut self) -> (cleanup: CandidateCleanup)
        requires
            old(self).wf(),
        ensures
            final(self).wf(),
            only_candidate_moved(old(self)@, final(self)@),
            match old(self)@.pending {
                None => cleanup == CandidateCleanup::NotRequired && final(self)@ == old(self)@,
                Some(pending) => match cleanup {
                    CandidateCleanup::NotRequired => false,
                    CandidateCleanup::Released => {
                        &&& final(self)@.pending is None
                        &&& final(self)@.bound == BoundContext::Resource
                        &&& final(self)@.preserved == kept_pair(old(self)@.preserved, pending)
                        &&& surplus_disposed(old(self)@, final(self)@, pending)
                        &&& final(self)@.egl.surfaces_gone == old(self)@.egl.surfaces_gone.push(
                            pending.surface,
                        )
                        &&& final(self)@.egl.windows == old(self)@.egl.windows.remove(
                            pending.surface,
                        )
                    },
                    CandidateCleanup::Failed => {
                        &&& final(self)@.pending == old(self)@.pending
                        &&& final(self)@.preserved == old(self)@.preserved
                        &&& final(self)@.egl.windows == old(self)@.egl.windows
                        &&& final(self)@.gl == old(self)@.gl
                        &&& crate::egl_device::remembers(old(self)@.egl, final(self)@.egl)
                        &&& final(self)@.egl.refused.len() > old(self)@.egl.refused.len()
                        &&& {
                            ||| final(self)@.egl.refused.last().0
                                == crate::manager::current_call(old(self)@.root)
                            ||| final(self)@.egl.refused.last().0 == (EglCall::DestroySurface {
                                surface: pending.surface,
                            })
                        }
                    },
                },
            },
    {
        let pending = match self.pending() {
            None => {
                return CandidateCleanup::NotRequired;
            },
            Some(pending) => pending,
        };
        if self.bind_resource().is_err() {
            return CandidateCleanup::Failed;
        }
        if self.destroy_surface(pending.surface).is_err() {
            return CandidateCleanup::Failed;
        }
        self.set_pending(None);
        self.keep_pair(pending);
        CandidateCleanup::Released
    }

    /// Record what the next install owes the onscreen canvas. A debt is only ever recorded
    /// here, never cleared.
    pub(crate) fn stash_onscreen_2d_restore(&mut self)
        requires
            old(self).wf(),
        ensures
            final(self).wf(),
            final(self)@ == (Mgr {
                paint: final(self)@.paint,
                window: Window { restore_2d: final(self)@.window.restore_2d, ..old(self)@.window },
                ..old(self)@
            }),
            final(self)@.paint == (crate::painters::PaintModel {
                truthful: final(self)@.paint.truthful,
                ..old(self)@.paint
            }),
            final(self)@.paint.truthful ==> old(self)@.paint.truthful,
            restore_owed(old(self)@, final(self)@),
    {
        if let Some(state) = self.drawing_state(ONSCREEN) {
            let window = self.window();
            self.set_window(Window { restore_2d: Some(state), ..window });
        }
    }

    /// Drop what is painted and known of the onscreen canvas, whose entry is off the books.
    fn forget_onscreen(&mut self, entry: CanvasEntry)
        requires
            old(self).wf(),
        ensures
            final(self).wf(),
            onscreen_forgotten(old(self)@, final(self)@),
            final(self)@.adrift == old(self)@.adrift,
            final(self)@.unbuffered == old(self)@.unbuffered,
            final(self)@.dropped == old(self)@.dropped || final(self)@.dropped == old(
                self)@.dropped.push((ONSCREEN, Some(entry.ctx.ctx))),
            final(self)@.paint.truthful == old(self)@.paint.truthful,
            final(self)@.paint.refused == old(self)@.paint.refused,
            final(self)@.paint.forgotten == old(self)@.paint.forgotten,
            crate::manager::same_session(old(self)@, final(self)@),
            crate::manager::same_frames(old(self)@, final(self)@),
            crate::manager::same_targets(old(self)@.egl, final(self)@.egl),
            crate::egl_device::remembers(old(self)@.egl, final(self)@.egl),
            final(self)@.bound == old(self)@.bound,
            final(self)@.gl == old(self)@.gl,
            final(self)@.canvases == old(self)@.canvases,
            final(self)@.debt == old(self)@.debt,
            final(self)@.copy_fbos == old(self)@.copy_fbos,
            final(self)@.snapshots == old(self)@.snapshots,
            final(self)@.uploads == old(self)@.uploads,
    {
        let current: bool = self.visit(entry.ctx).is_ok();
        self.drop_2d_context_and_wrappers(ONSCREEN, current);
        assert(self@.contexts =~= old(self)@.contexts.remove(ONSCREEN));
        let _ = self.issue_paint(PaintCall::Rebalance);
        self.clear_2d_dirty(ONSCREEN);
        self.drop_shadow(ONSCREEN);
        let _ = self.issue_paint(PaintCall::RemoveImages { canvas: ONSCREEN });
    }

    /// Destroy the window surface, with the root current so that the native target is free
    /// of it.
    fn let_window_go(&mut self, surf: Option<usize>) -> (result: Result<(), EglError>)
        requires
            old(self).wf(),
        ensures
            final(self).wf(),
            crate::manager::same_books(old(self)@, final(self)@),
            crate::manager::same_frames(old(self)@, final(self)@),
            crate::manager::same_session(old(self)@, final(self)@),
            final(self)@.canvases == old(self)@.canvases,
            final(self)@.gl == old(self)@.gl,
            crate::canvases::same_display(old(self)@.egl, final(self)@.egl),
            crate::egl_device::remembers(old(self)@.egl, final(self)@.egl),
            final(self)@.unbuffered == old(self)@.unbuffered,
            match result {
                Ok(_) => {
                    &&& final(self)@.bound == BoundContext::Resource
                    &&& final(self)@.egl.windows == (match surf {
                        Some(s) => old(self)@.egl.windows.remove(s),
                        None => old(self)@.egl.windows,
                    })
                },
                Err(e) => {
                    &&& final(self)@.egl.windows == old(self)@.egl.windows
                    &&& final(self)@.egl.refused.len() == old(self)@.egl.refused.len() + 1
                    &&& final(self)@.egl.refused.last().1 == e
                },
            },
    {
        let root = self.root();
        if let Err(e) = self.activate(root, BoundContext::Resource) {
            return Err(e);
        }
        if let Some(s) = surf {
            if let Err(e) = self.destroy_surface(s) {
                return Err(e);
            }
        }
        Ok(())
    }

    /// The window is gone: put its context and its drawing buffer by, in place of those that
    /// were, and start with no frame to repair from.
    fn put_window_by(&mut self, entry: CanvasEntry)
        requires
            old(self).wf(),
        ensures
            final(self).wf(),
            crate::egl_device::remembers(old(self)@.egl, final(self)@.egl),
            crate::manager::same_books(old(self)@, final(self)@),
            final(self)@.cfg == old(self)@.cfg,
            final(self)@.root == old(self)@.root,
            final(self)@.shared_2d == old(self)@.shared_2d,
            final(self)@.flags == old(self)@.flags,
            final(self)@.pending == old(self)@.pending,
            final(self)@.next_canvas_id == old(self)@.next_canvas_id,
            final(self)@.canvases == old(self)@.canvases,
            final(self)@.bound == old(self)@.bound,
            final(self)@.damage == old(self)@.damage,
            final(self)@.swap_damage_rejected == old(self)@.swap_damage_rejected,
            final(self)@.window == (Window { installed: None, ..old(self)@.window }),
            final(self)@.preserved == (Preserved {
                ctx: Some(entry.ctx.ctx),
                db: entry.drawing_buffer,
            }),
            final(self)@.history.len() == 0,
            final(self)@.plan is None,
            final(self)@.swap_interval == -1,
            final(self)@.tried == old(self)@.tried,
            final(self)@.gl.viewports == old(self)@.gl.viewports,
            crate::canvases::same_storage(old(self)@.gl, final(self)@.gl),
            crate::canvases::same_display(old(self)@.egl, final(self)@.egl),
            final(self)@.egl.windows == old(self)@.egl.windows,
            spare_disposed(old(self)@, final(self)@),
    {
        let window = self.window();
        self.set_window(Window { installed: None, ..window });
        let before = self.preserved();
        let ghost start = self@;
        self.dispose_pair(before, false);
        let ghost disposed = self@;
        self.set_preserved(Preserved { ctx: Some(entry.ctx.ctx), db: entry.drawing_buffer });
        self.reset_swap_interval();
        self.forget_frames();
        proof {
            lemma_disposed_within(old(self)@, start, disposed, self@, before);
        }
    }

    /// Take the onscreen canvas down and let its window go. Its context and its drawing
    /// buffer are put by for the next window, and so is the state that its content painted
    /// with.
    ///
    /// The native target is let go only once the driver has destroyed the surface on it.
    /// Where the driver refuses, the canvas is put back with its target.
    pub fn destroy_onscreen_internal(&mut self) -> (result: Result<(), CanvasError>)
        requires
            old(self).wf(),
        ensures
            final(self).wf(),
            only_onscreen_moved(old(self)@, final(self)@),
            crate::manager::dropped_in_place(old(self)@, final(self)@),
            old(self)@.canvases.dom().contains(ONSCREEN) ==> {
                &&& onscreen_forgotten(old(self)@, final(self)@)
                &&& match result {
                    Ok(_) => detached(old(self)@, final(self)@),
                    Err(CanvasError::Egl(_)) => retained(old(self)@, final(self)@),
                    Err(_) => false,
                }
            },
            !old(self)@.canvases.dom().contains(ONSCREEN) ==> result is Ok && final(self)@.canvases
                == old(self)@.canvases && final(self)@.egl == old(self)@.egl && final(self)@.bound
                == old(self)@.bound && final(self)@.window.installed == old(self)@.window.installed
                && final(self)@.preserved == old(self)@.preserved,
    {
        self.stash_onscreen_2d_restore();
        if let Some(entry) = self.take_canvas(ONSCREEN) {
            self.forget_onscreen(entry);
            if let Err(e) = self.let_window_go(entry.ctx.surf) {
                self.put_canvas(entry);
                assert(self@.canvases =~= old(self)@.canvases);
                self.evaluate_bypass();
                return Err(CanvasError::Egl(e));
            }
            let ghost let_go = self@;
            self.put_window_by(entry);
            let ghost away = self@;
            proof {
                lemma_disposed_within(
                    old(self)@,
                    let_go,
                    away,
                    away,
                    old(self)@.preserved,
                );
            }
            self.evaluate_bypass();
            assert(self@.canvases =~= away.canvases);
            return Ok(());
        }
        assert(self@.canvases =~= old(self)@.canvases);
        let ghost none = self@;
        self.evaluate_bypass();
        assert(self@.canvases =~= none.canvases);
        Ok(())
    }

    /// Let the window go. Only success frees the native target.
    pub fn release_onscreen(&mut self) -> (result: Result<(), CanvasError>)
        requires
            old(self).wf(),
        ensures
            final(self).wf(),
            crate::manager::dropped_in_place(old(self)@, final(self)@),
            old(self)@.canvases.dom().contains(ONSCREEN) && (result is Ok || (result
                matches Err(e) && e is Egl)) ==> onscreen_forgotten(old(self)@, final(self)@),
            result is Ok ==> {
                &&& final(self)@.pending is None
                &&& final(self)@.window.installed is None
                &&& !final(self)@.canvases.dom().contains(ONSCREEN)
                &&& old(self)@.pending matches Some(pending)
                    ==> !final(self)@.egl.windows.dom().contains(pending.surface)
                &&& old(self)@.canvases.dom().contains(ONSCREEN) ==> (old(
                    self)@.canvases[ONSCREEN].ctx.surf matches Some(s)
                    ==> !final(self)@.egl.windows.dom().contains(s))
                &&& final(self)@.preserved == (if old(self)@.canvases.dom().contains(ONSCREEN) {
                    let entry = old(self)@.canvases[ONSCREEN];
                    Preserved { ctx: Some(entry.ctx.ctx), db: entry.drawing_buffer }
                } else {
                    match old(self)@.pending {
                        Some(pending) => kept_pair(old(self)@.preserved, pending),
                        None => old(self)@.preserved,
                    }
                })
                &&& old(self)@.canvases.dom().contains(ONSCREEN) ==> restore_owed(
                    old(self)@,
                    final(self)@,
                )
            },
            match result {
                Ok(_) => true,
                Err(CanvasError::Retained) => final(self)@.pending == old(self)@.pending && old(
                    self)@.pending is Some && only_candidate_moved(old(self)@, final(self)@)
                    && crate::manager::refusals(final(self)@) > crate::manager::refusals(
                    old(self)@,
                ),
                Err(CanvasError::Orphaned) => !old(self)@.canvases.dom().contains(ONSCREEN) && old(
                    self)@.window.installed is Some && only_candidate_moved(old(self)@, final(self)@),
                Err(CanvasError::Egl(_)) => final(self)@.canvases.dom().contains(ONSCREEN) && final(
                    self)@.window.installed == old(self)@.window.installed
                    && crate::manager::refusals(final(self)@) > crate::manager::refusals(
                    old(self)@,
                ),
                Err(_) => false,
            },
            old(self)@.pending is None && !old(self)@.canvases.dom().contains(ONSCREEN) && old(
                self)@.window.installed is None ==> result is Ok && final(self)@ == old(self)@,
    {
        if self.pending().is_some() {
            if self.cleanup_pending_onscreen() != CandidateCleanup::Released {
                return Err(CanvasError::Retained);
            }
        }
        if self.canvas(ONSCREEN).is_some() {
            return self.destroy_onscreen_internal();
        }
        if self.window().installed.is_some() {
            return Err(CanvasError::Orphaned);
        }
        Ok(())
    }

    /// The next install makes a new surface, whatever it finds: the window was taken away,
    /// and a surface on it is dead although its target compares equal.
    pub fn force_next_onscreen_recreate(&mut self)
        requires
            old(self).wf(),
        ensures
            final(self).wf(),
            final(self)@ == (Mgr {
                flags: Flags { force_onscreen_recreate: true, ..old(self)@.flags },
                ..old(self)@
            }),
    {
        let flags = self.flags();
        self.set_flags(Flags { force_onscreen_recreate: true, ..flags });
    }

    /// Record the rate at which content presents, and ask the display to serve it. The rate
    /// that is in force is not asked for again.
    pub fn set_frame_rate_request(&mut self, fps: u32)
        requires
            old(self).wf(),
        ensures
            final(self).wf(),
            fps == old(self)@.window.frame_rate ==> final(self)@ == old(self)@,
            fps != old(self)@.window.frame_rate ==> final(self)@ == (Mgr {
                window: Window { frame_rate: fps, ..old(self)@.window },
                egl: match old(self)@.window.installed {
                    Some(target) => crate::egl_device::EglModel {
                        rate_requests: old(self)@.egl.rate_requests.push((target, fps)),
                        ..old(self)@.egl
                    },
                    None => old(self)@.egl,
                },
                ..old(self)@
            }),
    {
        let window = self.window();
        if window.frame_rate == fps {
            return ;
        }
        self.set_window(Window { frame_rate: fps, ..window });
        if let Some(target) = window.installed {
            self.request_frame_rate(target, fps);
        }
    }
}

/// The pair that is kept for the next window never loses its context: a candidate's takes its
/// place only where there is none, and lends its buffer only where it is the same context.
pub proof fn law_which_pair_is_kept(preserved: Preserved, pending: PendingOnscreen)
    ensures
        preserved.ctx is Some ==> kept_pair(preserved, pending).ctx == preserved.ctx,
        preserved.ctx is None ==> pending.context is Some ==> kept_pair(preserved, pending).ctx
            == pending.context && kept_pair(preserved, pending).db == pending.drawing_buffer,
        pending.context is None ==> kept_pair(preserved, pending) == preserved,
        preserved.ctx is Some && preserved.db is Some ==> kept_pair(preserved, pending)
            == preserved,
        preserved.ctx is Some && preserved.db is None && preserved.ctx == pending.context
            ==> kept_pair(preserved, pending).db == pending.drawing_buffer,
        preserved.ctx is Some && preserved.ctx != pending.context ==> kept_pair(preserved, pending)
            == preserved,
{
}

/// A canvas that leaves the window leaves its context and its buffer for the next one. No
/// canvas is current then, no target is installed, its surface is gone, and the next swap sets
/// its interval anew.
pub proof fn law_a_canvas_that_leaves_is_put_by(before: Mgr, after: Mgr, other: u32)
    requires
        detached(before, after),
    ensures
        !after.canvases.dom().contains(1u32),
        other != 1 ==> after.canvases.dom().contains(other) == before.canvases.dom().contains(
            other,
        ),
        after.preserved.ctx == Some(before.canvases[1].ctx.ctx),
        after.preserved.db == before.canvases[1].drawing_buffer,
        after.window.installed is None,
        crate::binding::serving(after.bound) is None,
        before.canvases[1].ctx.surf matches Some(s) ==> !after.egl.windows.dom().contains(s),
        after.history.len() == 0,
        after.plan is None,
        after.swap_interval == -1,
{
}

/// A rate that is new is recorded and asked of the target that is installed; the rate in force
/// is not asked for again.
pub proof fn law_a_new_rate_is_asked_for_once<
    F: Fn(GlCall) -> u32,
    H: Fn(EglCall) -> Result<usize, EglError>,
    P: Fn(PaintCall) -> u64,
>(fps: u32)
    ensures
        forall|m: &mut CanvasManager<F, H, P>|
            #[trigger] call_ensures(
                CanvasManager::<F, H, P>::set_frame_rate_request,
                (m, fps),
                (),
            ) ==> {
                let before = (*m)@;
                let after = (*final(m))@;
                &&& after.window.frame_rate == fps
                &&& before.window.frame_rate == fps ==> after == before
                &&& before.window.frame_rate != fps ==> match before.window.installed {
                    Some(target) => after.egl.rate_requests.len() == before.egl.rate_requests.len()
                        + 1 && after.egl.rate_requests.last() == (target, fps),
                    None => after.egl == before.egl,
                }
                &&& after.canvases == before.canvases
            },
{
}

/// What content painted with on the window is owed to it once its 2D context goes with the
/// window; a debt that is there stays.
pub proof fn law_the_painting_state_is_owed(before: Mgr, after: Mgr)
    requires
        restore_owed(before, after),
    ensures
        before.contexts.dom().contains(1u32) ==> after.window.restore_2d is Some,
        before.contexts.dom().contains(1u32) && after.paint.truthful
            && before.paint.alive.dom().contains(1u32) ==> after.window.restore_2d == Some(
            before.paint.alive[1u32].state,
        ),
        !before.contexts.dom().contains(1u32) ==> after.window.restore_2d
            == before.window.restore_2d,
{
}

/// Whoever lets the window go finds nothing of it left: no canvas on it, no target, no
/// candidate. The pair of its canvas is put by, and one that goes while it is refused stays.
pub proof fn law_a_window_let_go_is_free<
    F: Fn(GlCall) -> u32,
    H: Fn(EglCall) -> Result<usize, EglError>,
    P: Fn(PaintCall) -> u64,
>(result: Result<(), CanvasError>)
    ensures
        forall|m: &mut CanvasManager<F, H, P>|
            #[trigger] call_ensures(CanvasManager::<F, H, P>::release_onscreen, (m,), result)
                ==> {
                let before = (*m)@;
                let after = (*final(m))@;
                &&& result is Ok ==> !after.canvases.dom().contains(1u32)
                    && after.window.installed is None && after.pending is None
                &&& result is Ok && before.canvases.dom().contains(1u32) ==> after.preserved.ctx
                    == Some(before.canvases[1u32].ctx.ctx) && after.preserved.db
                    == before.canvases[1u32].drawing_buffer
                &&& result is Ok && before.canvases.dom().contains(1u32) ==> (
                before.canvases[1u32].ctx.surf matches Some(s)
                    ==> !after.egl.windows.dom().contains(s))
                &&& before.pending is None && !before.canvases.dom().contains(1u32)
                    && before.window.installed is None ==> result is Ok && after == before
            },
        forall|m: &mut CanvasManager<F, H, P>|
            #[trigger] call_ensures(
                CanvasManager::<F, H, P>::force_next_onscreen_recreate,
                (m,),
                (),
            ) ==> (*final(m))@.flags.force_onscreen_recreate && (*final(m))@.canvases
                == (*m)@.canvases,
{
}

} // verus!
