//! Which context has to be current for what a session does next, and what its default
//! framebuffer is there.
use vstd::prelude::*;

use crate::default_framebuffer::can_bypass_drawing_buffer;
use crate::default_framebuffer::default_framebuffer_of;
use crate::egl_device::EglCall;
use crate::egl_device::EglContextHandle;
use crate::egl_setup::EglError;
use crate::gl::FRAMEBUFFER;
use crate::gl_device::GlCall;
use crate::manager::BoundContext;
use crate::manager::CanvasEntry;
use crate::manager::CanvasError;
use crate::manager::CanvasInfo;
use crate::manager::CanvasManager;
use crate::manager::Mgr;
use crate::manager::Flags;
use crate::manager::Shared2d;
use crate::manager::ONSCREEN;
use crate::painters::PaintCall;
use crate::uploads::should_latch_default_fbo_readback;

verus! {

/// Whether the onscreen canvas may draw straight to the window.
pub open spec fn may_bypass(m: Mgr) -> bool {
    crate::default_framebuffer::bypassable(
        m.canvases.len(),
        m.flags.needs_default_fbo_readback,
        m.contexts.dom().contains(ONSCREEN),
        m.canvases.dom().contains(ONSCREEN) && (m.canvases[ONSCREEN].drawing_buffer matches Some(db)
            && db.width == m.canvases[ONSCREEN].physical_width && db.height
            == m.canvases[ONSCREEN].physical_height),
    )
}

/// The session with the onscreen canvas's mode decided again. A change of mode starts at a
/// full frame: frames of the two modes are no repair source for each other.
pub open spec fn mode_decided(m: Mgr) -> Mgr {
    if m.canvases.dom().contains(ONSCREEN) && m.canvases[ONSCREEN].bypass_drawing_buffer
        != may_bypass(m) {
        crate::manager::restarted(
            Mgr {
                canvases: m.canvases.insert(
                    ONSCREEN,
                    CanvasEntry { bypass_drawing_buffer: may_bypass(m), ..m.canvases[ONSCREEN] },
                ),
                ..m
            },
        )
    } else {
        m
    }
}

/// The onscreen canvas's mode was decided again, and its default framebuffer installed
/// where its context is current.
#[verifier::opaque]
pub open spec fn bypass_evaluated(before: Mgr, after: Mgr) -> bool {
    crate::manager::mapping_applied(mode_decided(before), after, ONSCREEN)
}

/// A canvas's shadow knows its default framebuffer to be bound, for drawing and for reading.
pub open spec fn default_known(shadow: crate::gl_state::CanvasGLState) -> bool {
    &&& shadow.draws_to_default_fbo
    &&& crate::shadows::known_framebuffer(
        shadow.bound_framebuffer@,
        crate::gl::READ_FRAMEBUFFER,
    ) == Some(None::<u32>)
    &&& crate::shadows::known_framebuffer(
        shadow.bound_framebuffer@,
        crate::gl::DRAW_FRAMEBUFFER,
    ) == Some(None::<u32>)
}

/// The onscreen canvas draws straight to the window exactly where it may, and where its
/// context is current its default framebuffer is installed.
pub open spec fn mode_settled(m: Mgr) -> bool {
    m.canvases.dom().contains(ONSCREEN) ==> {
        let entry = m.canvases[ONSCREEN];
        &&& entry.bypass_drawing_buffer == may_bypass(m)
        &&& m.bound == BoundContext::Canvas(ONSCREEN) ==> entry.applied_default_framebuffer
            == crate::manager::default_fbo(entry)
    }
}

/// Nothing moved but the onscreen canvas's mode, what follows from it for the next frame,
/// and framebuffer bindings.
pub open spec fn only_mode_moved(before: Mgr, after: Mgr) -> bool {
    &&& after.unbuffered == before.unbuffered
    &&& crate::manager::same_books(before, after)
    &&& crate::manager::same_session(before, after)
    &&& after.bound == before.bound
    &&& after.egl == before.egl
    &&& after.swap_interval == before.swap_interval
    &&& after.swap_damage_rejected == before.swap_damage_rejected
    &&& crate::manager::only_framebuffers_moved(before.gl, after.gl)
    &&& canvases_keep(before.canvases, after.canvases)
    &&& before.damage.full ==> after.damage.full
    &&& before.history.len() == 0 ==> after.history.len() == 0
    &&& before.plan is None ==> after.plan is None
}

/// The canvases are the same, but for how the onscreen one shows on the window.
pub open spec fn canvases_keep(
    before: Map<u32, CanvasEntry>,
    after: Map<u32, CanvasEntry>,
) -> bool {
    &&& after.dom() == before.dom()
    &&& forall|id: u32| #[trigger]
        after.dom().contains(id) ==> same_canvas(before[id], after[id]) && (id != ONSCREEN
            ==> after[id] == before[id])
}

/// The canvases agree but for how they show on the window.
pub open spec fn same_canvas(a: CanvasEntry, b: CanvasEntry) -> bool {
    b == (CanvasEntry {
        bypass_drawing_buffer: b.bypass_drawing_buffer,
        applied_default_framebuffer: b.applied_default_framebuffer,
        ..a
    })
}

/// The canvas that a context serves.
pub open spec fn serving(bound: BoundContext) -> Option<u32> {
    match bound {
        BoundContext::Canvas(id) => Some(id),
        BoundContext::Shared2D(id) => Some(id),
        BoundContext::Resource => None,
    }
}

/// The session with a new shared context, serving a canvas.
pub open spec fn with_group(m: Mgr, handle: EglContextHandle, tag: u64, serving: u32) -> Mgr {
    Mgr {
        egl: crate::manager::current_with(
            crate::egl_device::with_pair(
                m.egl,
                handle,
                crate::manager::context_call(m.cfg, m.root),
                1,
                1,
            ),
            handle,
        ),
        bound: BoundContext::Shared2D(serving),
        shared_2d: Some(Shared2d { egl: handle, tag }),
        ..m
    }
}

/// The session with the shared context current, serving a canvas. Between two canvases
/// that share it the driver is not asked.
pub open spec fn shared_current(m: Mgr, serving: u32) -> Mgr {
    if m.bound is Shared2D {
        Mgr { bound: BoundContext::Shared2D(serving), ..m }
    } else {
        crate::manager::activated(
            m,
            (m.shared_2d->0).egl,
            BoundContext::Shared2D(serving),
        )
    }
}

/// The shared context was made current for a canvas, or was not.
pub open spec fn shared_bound(
    before: Mgr,
    after: Mgr,
    serving: u32,
    result: Result<u64, CanvasError>,
) -> bool {
    if before.shared_2d is Some {
        match result {
            Ok(tag) => tag == (before.shared_2d->0).tag && after == shared_current(
                before,
                serving,
            ),
            Err(CanvasError::Egl(e)) => !(before.bound is Shared2D) && after
                == crate::manager::refused(
                before,
                crate::manager::current_call((before.shared_2d->0).egl),
                e,
            ),
            Err(_) => false,
        }
    } else {
        match result {
            Ok(tag) => tag != 0 && exists|handle: EglContextHandle|
                after == #[trigger] with_group(before, handle, tag, serving),
            Err(CanvasError::Egl(e)) => after == (Mgr { egl: after.egl, ..before })
                && crate::manager::same_targets(before.egl, after.egl)
                && crate::egl_device::remembers(before.egl, after.egl) && after.egl.refused.len()
                > before.egl.refused.len() && after.egl.refused[before.egl.refused.len() as int].1
                == e,
            Err(CanvasError::Group) => {
                &&& after == (Mgr {
                    egl: after.egl,
                    paint: after.paint,
                    bound: BoundContext::Shared2D(serving),
                    ..before
                })
                &&& crate::manager::same_targets(before.egl, after.egl)
                &&& crate::egl_device::remembers(before.egl, after.egl)
                &&& after.paint == crate::painters::after_paint_call(
                    before.paint,
                    PaintCall::CreateGroup,
                    0,
                    crate::gl_device::moment(before.gl),
                )
            },
            Err(_) => false,
        }
    }
}

/// The session with a canvas's own context current.
pub open spec fn own_bound(m: Mgr, id: u32) -> Mgr {
    crate::manager::activated(m, m.canvases[id].ctx, BoundContext::Canvas(id))
}

/// A canvas's context was made current, or was not.
#[verifier::opaque]
pub open spec fn made_current(
    before: Mgr,
    after: Mgr,
    id: u32,
    result: Result<(), CanvasError>,
) -> bool {
    if crate::manager::uses_shared(before, id) {
        match result {
            Ok(_) => after == shared_current(before, id),
            Err(CanvasError::Egl(e)) => after == crate::manager::refused(
                before,
                crate::manager::current_call((before.shared_2d->0).egl),
                e,
            ),
            Err(_) => false,
        }
    } else if before.bound == BoundContext::Canvas(id) {
        result is Ok && after == before
    } else if !before.canvases.dom().contains(id) {
        result == Err::<(), CanvasError>(CanvasError::NotFound) && after == before
    } else {
        match result {
            Ok(_) => crate::manager::mapping_applied(own_bound(before, id), after, id),
            Err(CanvasError::Egl(e)) => after == crate::manager::refused(
                before,
                crate::manager::current_call(before.canvases[id].ctx),
                e,
            ),
            Err(_) => false,
        }
    }
}

/// Nothing moved but what is current, and framebuffer bindings with it.
pub open spec fn only_binding_moved(before: Mgr, after: Mgr) -> bool {
    &&& crate::manager::same_books(before, after)
    &&& crate::manager::same_frames(before, after)
    &&& crate::manager::same_session(before, after)
    &&& crate::manager::same_objects(before.egl, after.egl)
    &&& crate::manager::only_framebuffers_moved(before.gl, after.gl)
    &&& crate::manager::grew(before, after)
    &&& after.canvases.dom() == before.canvases.dom()
    &&& forall|id: u32| #[trigger]
        after.canvases.dom().contains(id) ==> same_canvas(before.canvases[id], after.canvases[id])
}

/// A context was restored: the one that was saved, or the root where its canvas is gone.
pub open spec fn bound_restored(
    before: Mgr,
    after: Mgr,
    saved: BoundContext,
    result: Result<(), CanvasError>,
) -> bool {
    match saved {
        BoundContext::Shared2D(id) => match result {
            Ok(_) => exists|tag: u64| #[trigger]
                shared_bound(before, after, id, Ok::<u64, CanvasError>(tag)),
            Err(e) => shared_bound(before, after, id, Err::<u64, CanvasError>(e)),
        },
        BoundContext::Canvas(id) => if before.canvases.dom().contains(id) {
            made_current(before, after, id, result)
        } else {
            root_bound(before, after, result)
        },
        BoundContext::Resource => root_bound(before, after, result),
    }
}

/// The root was made current, or was not.
pub open spec fn root_bound(before: Mgr, after: Mgr, result: Result<(), CanvasError>) -> bool {
    match result {
        Ok(_) => after == crate::manager::activated(
            before,
            before.root,
            BoundContext::Resource,
        ),
        Err(CanvasError::Egl(e)) => after == crate::manager::refused(
            before,
            crate::manager::current_call(before.root),
            e,
        ),
        Err(_) => false,
    }
}

/// A kind of object: whether the whole share group sees it, or one context only.
#[derive(Clone, Copy, Debug, PartialEq, Eq, Structural)]
pub enum ObjectOwner {
    /// Every context of the group sees it.
    Group,
    /// Only a canvas's context has it.
    Canvas(u32),
}

/// What becomes of a request to delete an object.
#[derive(Clone, Copy, Debug, PartialEq, Eq, Structural)]
pub enum Deletion {
    /// The right context is current: delete it.
    Delete,
    /// Its canvas is gone, and so is the object.
    AlreadyGone,
}

impl<
    F: Fn(GlCall) -> u32,
    H: Fn(EglCall) -> Result<usize, EglError>,
    P: Fn(PaintCall) -> u64,
> CanvasManager<F, H, P> {
    /// What content sees of a canvas.
    pub fn get_info(&self, id: u32) -> (info: Result<CanvasInfo, CanvasError>)
        ensures
            info == (if self@.canvases.dom().contains(id) {
                Ok::<CanvasInfo, CanvasError>(self@.canvases[id].info)
            } else {
                Err::<CanvasInfo, CanvasError>(CanvasError::NotFound)
            }),
    {
        match self.canvas(id) {
            Some(entry) => Ok(entry.info),
            None => Err(CanvasError::NotFound),
        }
    }

    /// The size of a canvas: its drawing buffer's, where it has one.
    pub fn get_canvas_size(&self, id: u32) -> (size: Result<(u32, u32), CanvasError>)
        ensures
            size == (if self@.canvases.dom().contains(id) {
                Ok::<(u32, u32), CanvasError>(crate::manager::buffer_size(self@.canvases[id]))
            } else {
                Err::<(u32, u32), CanvasError>(CanvasError::NotFound)
            }),
    {
        match self.canvas(id) {
            None => Err(CanvasError::NotFound),
            Some(entry) => match entry.drawing_buffer {
                Some(db) => Ok((db.width, db.height)),
                None => Ok((entry.physical_width, entry.physical_height)),
            },
        }
    }

    /// The canvas that is current, if one is.
    pub fn current_canvas_id(&self) -> (id: Option<u32>)
        ensures
            id == serving(self@.bound),
    {
        match self.bound() {
            BoundContext::Canvas(id) => Some(id),
            BoundContext::Shared2D(id) => Some(id),
            BoundContext::Resource => None,
        }
    }

    /// Whether the onscreen canvas is current.
    pub fn is_onscreen_bound(&self) -> (b: bool)
        ensures
            b == (self@.bound == BoundContext::Canvas(ONSCREEN)),
    {
        self.bound() == BoundContext::Canvas(ONSCREEN)
    }

    /// The drawing buffer that a canvas's content means by its default framebuffer; none
    /// where it means the window's own.
    pub fn get_drawing_buffer_fbo(&self, id: u32) -> (fbo: Option<u32>)
        ensures
            fbo == (if self@.canvases.dom().contains(id) {
                crate::manager::default_fbo(self@.canvases[id])
            } else {
                None
            }),
    {
        match self.canvas(id) {
            None => None,
            Some(entry) => default_framebuffer_of(
                entry.bypass_drawing_buffer,
                match entry.drawing_buffer {
                    Some(db) => Some(db.fbo),
                    None => None,
                },
            ),
        }
    }

    /// Whether a canvas's 2D surface is on the shared context.
    pub fn canvas_uses_shared_2d(&self, id: u32) -> (b: bool)
        ensures
            b == crate::manager::uses_shared(self@, id),
    {
        match self.shared_2d() {
            None => false,
            Some(shared) => match self.context_2d(id) {
                Some(ctx) => ctx.tag == shared.tag,
                None => false,
            },
        }
    }

    /// Decide again whether the onscreen canvas draws straight to the window.
    pub fn evaluate_bypass(&mut self)
        requires
            old(self).wf(),
        ensures
            final(self).wf(),
            bypass_evaluated(old(self)@, final(self)@),
            only_mode_moved(old(self)@, final(self)@),
            mode_settled(final(self)@),
    {
        proof {
            reveal(bypass_evaluated);
        }
        let count: usize = self.canvas_count();
        let has_2d: bool = self.context_2d(ONSCREEN).is_some();
        if let Some(entry) = self.canvas(ONSCREEN) {
            let matches: bool = match entry.drawing_buffer {
                Some(db) => db.width == entry.physical_width && db.height == entry.physical_height,
                None => false,
            };
            let can: bool = can_bypass_drawing_buffer(
                count,
                self.flags().needs_default_fbo_readback,
                has_2d,
                matches,
            );
            if entry.bypass_drawing_buffer != can {
                self.put_canvas(CanvasEntry { bypass_drawing_buffer: can, ..entry });
                self.restart_full();
            }
        }
        assert(self@ == mode_decided(old(self)@));
        let ghost decided = self@;
        assert(decided.canvases.dom() =~= old(self)@.canvases.dom());
        self.apply_default_framebuffer_mapping(ONSCREEN);
        assert(self@.canvases.dom() =~= decided.canvases.dom());
    }

    /// Make the root of the share group current. The driver is always asked: after a lost
    /// group was rebuilt, the record of what is current may name a root that is gone.
    pub fn bind_resource(&mut self) -> (result: Result<(), CanvasError>)
        requires
            old(self).wf(),
        ensures
            final(self).wf(),
            final(self).readback_framebuffer() == old(self).readback_framebuffer(),
            root_bound(old(self)@, final(self)@, result),
    {
        let root = self.root();
        match self.activate(root, BoundContext::Resource) {
            Ok(_) => Ok(()),
            Err(e) => Err(CanvasError::Egl(e)),
        }
    }

    /// Make the context that 2D canvases share current, creating it when it is first
    /// needed. The answer is its tag.
    pub fn bind_shared_2d_context(&mut self, serving: u32) -> (result: Result<u64, CanvasError>)
        requires
            old(self).wf(),
        ensures
            final(self).wf(),
            final(self).readback_framebuffer() == old(self).readback_framebuffer(),
            shared_bound(old(self)@, final(self)@, serving, result),
    {
        match self.shared_2d() {
            None => self.create_shared_2d_context(serving),
            Some(shared) => {
                let already: bool = match self.bound() {
                    BoundContext::Shared2D(_) => true,
                    _ => false,
                };
                if already {
                    self.set_bound(BoundContext::Shared2D(serving));
                    return Ok(shared.tag);
                }
                match self.activate(shared.egl, BoundContext::Shared2D(serving)) {
                    Err(e) => Err(CanvasError::Egl(e)),
                    Ok(_) => Ok(shared.tag),
                }
            },
        }
    }

    /// Create the context that 2D canvases share. Its pbuffer is one pixel: nothing is
    /// drawn into it.
    fn create_shared_2d_context(&mut self, serving: u32) -> (result: Result<u64, CanvasError>)
        requires
            old(self).wf(),
            old(self)@.shared_2d is None,
        ensures
            final(self).wf(),
            final(self).readback_framebuffer() == old(self).readback_framebuffer(),
            shared_bound(old(self)@, final(self)@, serving, result),
    {
        let root: usize = self.root().ctx;
        let handle = match self.create_offscreen_context(Some(root), 1, 1) {
            Err(e) => {
                return Err(CanvasError::Egl(e));
            },
            Ok(handle) => handle,
        };
        if let Err(e) = self.activate(handle, BoundContext::Shared2D(serving)) {
            return Err(CanvasError::Egl(e));
        }
        let tag: u64 = self.issue_paint(PaintCall::CreateGroup);
        if tag == 0 {
            return Err(CanvasError::Group);
        }
        self.set_shared_2d(Some(Shared2d { egl: handle, tag }));
        assert(with_group(old(self)@, handle, tag, serving) == self@);
        Ok(tag)
    }

    /// Make the context of a canvas current, unless it is: the shared one, where the
    /// canvas's 2D surface is on it, and otherwise its own.
    pub fn make_current_needed(&mut self, id: u32) -> (result: Result<(), CanvasError>)
        requires
            old(self).wf(),
        ensures
            final(self).wf(),
            final(self).readback_framebuffer() == old(self).readback_framebuffer(),
            made_current(old(self)@, final(self)@, id, result),
            only_binding_moved(old(self)@, final(self)@),
            result is Ok ==> serving(final(self)@.bound) == Some(id),
            result matches Err(e) ==> crate::manager::caused(old(self)@, final(self)@, id, e),
    {
        proof {
            reveal(made_current);
        }
        if self.canvas_uses_shared_2d(id) {
            return match self.bind_shared_2d_context(id) {
                Err(e) => Err(e),
                Ok(_) => Ok(()),
            };
        }
        if self.bound() == BoundContext::Canvas(id) {
            return Ok(());
        }
        let entry = match self.canvas(id) {
            None => {
                return Err(CanvasError::NotFound);
            },
            Some(entry) => entry,
        };
        match self.activate(entry.ctx, BoundContext::Canvas(id)) {
            Err(e) => Err(CanvasError::Egl(e)),
            Ok(_) => {
                self.apply_default_framebuffer_mapping(id);
                assert(self@.canvases.dom() =~= old(self)@.canvases.dom());
                Ok(())
            },
        }
    }

    /// Make some canvas current, unless one is: the onscreen one, if it is there, else
    /// any. Without canvases the root of the share group is made current, and the answer
    /// is zero.
    pub fn ensure_any_canvas_current(&mut self) -> (result: Result<u32, CanvasError>)
        requires
            old(self).wf(),
        ensures
            final(self).wf(),
            final(self).readback_framebuffer() == old(self).readback_framebuffer(),
            only_binding_moved(old(self)@, final(self)@),
            any_current(old(self)@, final(self)@, result),
            result is Ok ==> crate::manager::afloat(final(self)@),
            result is Err ==> crate::manager::refusals(final(self)@) > crate::manager::refusals(
                old(self)@,
            ),
    {
        proof {
            reveal(made_current);
        }
        match self.bound() {
            BoundContext::Canvas(id) => Ok(id),
            BoundContext::Shared2D(id) => Ok(id),
            BoundContext::Resource => {
                if self.canvas(ONSCREEN).is_some() {
                    return match self.make_current_needed(ONSCREEN) {
                        Ok(unit) => {
                            assert(unit == ());
                            Ok(ONSCREEN)
                        },
                        Err(e) => Err(e),
                    };
                }
                let ids = self.canvas_ids();
                if ids.len() > 0 {
                    let id: u32 = ids[0];
                    assert(ids@.to_set().contains(id)) by {
                        assert(ids@[0] == id);
                    }
                    assert(old(self)@.canvases.dom().contains(id));
                    match self.make_current_needed(id) {
                        Ok(unit) => {
                            assert(unit == ());
                            Ok(id)
                        },
                        Err(e) => Err(e),
                    }
                } else {
                    assert(ids@.to_set() =~= Set::<u32>::empty());
                    match self.bind_resource() {
                        Ok(_) => Ok(0),
                        Err(e) => Err(e),
                    }
                }
            },
        }
    }

    /// Go back to what was current before.
    pub fn restore_bound(&mut self, saved: BoundContext) -> (result: Result<(), CanvasError>)
        requires
            old(self).wf(),
        ensures
            final(self).wf(),
            bound_restored(old(self)@, final(self)@, saved, result),
    {
        match saved {
            BoundContext::Shared2D(id) => match self.bind_shared_2d_context(id) {
                Ok(tag) => {
                    assert(shared_bound(old(self)@, self@, id, Ok::<u64, CanvasError>(tag)));
                    Ok(())
                },
                Err(e) => Err(e),
            },
            BoundContext::Canvas(id) => {
                if self.canvas(id).is_some() {
                    self.make_current_needed(id)
                } else {
                    self.bind_resource()
                }
            },
            BoundContext::Resource => self.bind_resource(),
        }
    }

    /// Make the context current from which an object can be deleted. An object of a canvas
    /// that is gone went with it: it is never deleted from another context, where its name
    /// means another object or none.
    pub(crate) fn reach_owner(&mut self, owner: ObjectOwner) -> (result: Result<Deletion, CanvasError>)
        requires
            old(self).wf(),
        ensures
            final(self).wf(),
            only_binding_moved(old(self)@, final(self)@),
            match owner {
                ObjectOwner::Canvas(id) => if !old(self)@.canvases.dom().contains(id) {
                    result == Ok::<Deletion, CanvasError>(Deletion::AlreadyGone) && final(self)@
                        == old(self)@
                } else {
                    match result {
                        Ok(deletion) => deletion == Deletion::Delete && made_current(
                            old(self)@,
                            final(self)@,
                            id,
                            Ok(()),
                        ),
                        Err(e) => made_current(old(self)@, final(self)@, id, Err(e)),
                    }
                },
                ObjectOwner::Group => match result {
                    Ok(deletion) => deletion == Deletion::Delete && crate::manager::afloat(
                        final(self)@,
                    ) && exists|id: u32| #[trigger]
                        any_current(old(self)@, final(self)@, Ok::<u32, CanvasError>(id)),
                    Err(e) => any_current(old(self)@, final(self)@, Err::<u32, CanvasError>(e)),
                },
            },
    {
        match owner {
            ObjectOwner::Canvas(id) => {
                if self.canvas(id).is_none() {
                    assert(self@.canvases.dom() =~= old(self)@.canvases.dom());
                    return Ok(Deletion::AlreadyGone);
                }
                match self.make_current_needed(id) {
                    Ok(unit) => {
                        assert(unit == ());
                        Ok(Deletion::Delete)
                    },
                    Err(e) => Err(e),
                }
            },
            ObjectOwner::Group => match self.ensure_any_canvas_current() {
                Ok(id) => {
                    assert(any_current(old(self)@, self@, Ok::<u32, CanvasError>(id)));
                    Ok(Deletion::Delete)
                },
                Err(e) => Err(e),
            },
        }
    }

    /// Copy the window into the drawing buffer, where the onscreen canvas draws straight to
    /// the window. `false` where the copy failed.
    fn keep_window_pixels(&mut self) -> (kept: bool)
        requires
            old(self).wf(),
        ensures
            final(self).wf(),
            final(self)@ == (Mgr { gl: final(self)@.gl, ..old(self)@ }),
            final(self)@.gl.truthful ==> old(self)@.gl.truthful && final(self)@.gl.bindings == old(
                self)@.gl.bindings,
            ({
                let here = old(self)@.canvases.dom().contains(ONSCREEN);
                let entry = old(self)@.canvases[ONSCREEN];
                let bypassed = here && entry.bypass_drawing_buffer && entry.drawing_buffer is Some;
                &&& !bypassed ==> kept && final(self)@ == old(self)@
                &&& bypassed && kept && final(self)@.gl.truthful ==> final(self)@.gl.blits == old(
                    self)@.gl.blits.push(
                    crate::drawing_buffer::reverse_blit(
                        entry.drawing_buffer->0,
                        entry.physical_width,
                        entry.physical_height,
                    ),
                )
                &&& !kept ==> bypassed && crate::manager::copy_refused(
                    final(self)@,
                    entry.drawing_buffer->0,
                    entry.physical_width,
                    entry.physical_height,
                )
            }),
    {
        match self.canvas(ONSCREEN) {
            Some(entry) => match entry.drawing_buffer {
                Some(db) => {
                    if entry.bypass_drawing_buffer {
                        self.blit_from_window(db, entry.physical_width, entry.physical_height)
                    } else {
                        true
                    }
                },
                None => true,
            },
            None => true,
        }
    }

    /// Content is about to read the onscreen canvas, whose context is current. The first
    /// read of its default framebuffer ends the bypass for good, with what the window
    /// showed copied into the drawing buffer; where that copy fails, nothing changes.
    pub fn signal_default_fbo_readback(&mut self, gl_major: u32) -> (result: Result<(), CanvasError>)
        requires
            old(self).wf(),
        ensures
            final(self).wf(),
            old(self)@.flags.needs_default_fbo_readback ==> result is Ok && final(self)@ == old(self)@,
            !final(self)@.flags.needs_default_fbo_readback ==> final(self)@ == (Mgr {
                gl: final(self)@.gl,
                ..old(self)@
            }),
            result is Err ==> result == Err::<(), CanvasError>(CanvasError::Snapshot) && !final(
                self)@.flags.needs_default_fbo_readback && (final(self)@.gl.truthful ==> final(
                self)@.gl.bindings == old(self)@.gl.bindings && crate::manager::default_read(
                old(self)@,
                ONSCREEN,
                gl_major,
            )),
            result is Err ==> {
                let entry = old(self)@.canvases[ONSCREEN];
                &&& old(self)@.canvases.dom().contains(ONSCREEN)
                &&& entry.bypass_drawing_buffer && entry.drawing_buffer is Some
                &&& crate::manager::copy_refused(
                    final(self)@,
                    entry.drawing_buffer->0,
                    entry.physical_width,
                    entry.physical_height,
                )
            },
            result is Ok && !final(self)@.flags.needs_default_fbo_readback && final(self)@.gl.truthful
                ==> !crate::manager::default_read(old(self)@, ONSCREEN, gl_major),
            !old(self)@.flags.needs_default_fbo_readback && final(self)@.flags.needs_default_fbo_readback
                ==> exists|gl: crate::gl_device::GlModel| #[trigger]
                bypass_evaluated(latched(old(self)@, gl), final(self)@),
    {
        let flags = self.flags();
        if !should_latch_default_fbo_readback(flags.needs_default_fbo_readback) {
            return Ok(());
        }
        if !self.reads_default(ONSCREEN, gl_major) {
            return Ok(());
        }
        if !self.keep_window_pixels() {
            return Err(CanvasError::Snapshot);
        }
        self.set_flags(Flags { needs_default_fbo_readback: true, ..flags });
        assert(self@ == latched(old(self)@, self@.gl));
        self.evaluate_bypass();
        Ok(())
    }

    /// Bind a canvas's drawing buffer again after something else was bound, and tell the
    /// shadow. Nothing is done for a canvas whose default framebuffer is the window's own.
    pub fn bind_default_framebuffer(&mut self, id: u32)
        requires
            old(self).wf(),
        ensures
            final(self).wf(),
            ({
                let target = if old(self)@.canvases.dom().contains(id) {
                    crate::manager::default_fbo(old(self)@.canvases[id])
                } else {
                    None
                };
                &&& target is None ==> final(self)@ == old(self)@
                &&& target matches Some(fbo) ==> {
                    &&& final(self)@ == (Mgr {
                        gl: crate::gl_device::after_call(
                            old(self)@.gl,
                            GlCall::BindFramebuffer { target: FRAMEBUFFER, name: fbo },
                            0,
                        ),
                        shadows: final(self)@.shadows,
                        ..old(self)@
                    })
                    &&& final(self)@.shadows == old(self)@.shadows.insert(
                        id,
                        final(self)@.shadows[id],
                    )
                    &&& final(self)@.shadows[id].draws_to_default_fbo
                    &&& default_known(final(self)@.shadows[id])
                }
            }),
    {
        let fbo: u32 = match self.get_drawing_buffer_fbo(id) {
            None => {
                return ;
            },
            Some(fbo) => fbo,
        };
        let _ = self.issue_gl(GlCall::BindFramebuffer { target: FRAMEBUFFER, name: fbo });
        self.note_default_bind(id);
    }
}

/// Some canvas was made current, or was not.
pub open spec fn any_current(before: Mgr, after: Mgr, result: Result<u32, CanvasError>) -> bool {
    match before.bound {
        BoundContext::Canvas(id) => result == Ok::<u32, CanvasError>(id) && after == before,
        BoundContext::Shared2D(id) => result == Ok::<u32, CanvasError>(id) && after == before,
        BoundContext::Resource => if before.canvases.dom().contains(ONSCREEN) {
            match result {
                Ok(id) => id == ONSCREEN && made_current(before, after, ONSCREEN, Ok(())),
                Err(e) => made_current(before, after, ONSCREEN, Err(e)),
            }
        } else {
            match result {
                Ok(id) => {
                    ||| before.canvases.dom().contains(id) && made_current(
                        before,
                        after,
                        id,
                        Ok(()),
                    )
                    ||| id == 0 && before.canvases.dom() == Set::<u32>::empty() && root_bound(
                        before,
                        after,
                        Ok(()),
                    )
                },
                Err(e) => {
                    ||| exists|id: u32| #[trigger]
                        before.canvases.dom().contains(id) && made_current(
                            before,
                            after,
                            id,
                            Err(e),
                        )
                    ||| before.canvases.dom() == Set::<u32>::empty() && root_bound(
                        before,
                        after,
                        Err(e),
                    )
                },
            }
        },
    }
}

/// The session that knows that its content is read back.
pub open spec fn latched(m: Mgr, gl: crate::gl_device::GlModel) -> Mgr {
    Mgr { gl, flags: Flags { needs_default_fbo_readback: true, ..m.flags }, ..m }
}

/// The onscreen canvas draws straight to the window only while it is the only canvas, has
/// no 2D context, is not read back, and its buffer has the window's size: a decision about
/// any other session turns the bypass off.
pub proof fn law_bypass_holds_only_while_safe(before: Mgr, after: Mgr)
    requires
        bypass_evaluated(before, after),
        after.canvases.dom().contains(ONSCREEN),
    ensures
        after.canvases[ONSCREEN].bypass_drawing_buffer == may_bypass(before),
        after.canvases[ONSCREEN].bypass_drawing_buffer ==> !after.contexts.dom().contains(ONSCREEN)
            && !after.flags.needs_default_fbo_readback,
{
    reveal(bypass_evaluated);
}

/// A change of mode is a full boundary: nothing of the other mode's frames is repaired from,
/// and the next present is of the whole surface.
pub proof fn law_a_mode_change_repairs_everything(before: Mgr, after: Mgr)
    requires
        bypass_evaluated(before, after),
        before.canvases.dom().contains(ONSCREEN),
        after.canvases[ONSCREEN].bypass_drawing_buffer
            != before.canvases[ONSCREEN].bypass_drawing_buffer,
    ensures
        after.damage.full,
        after.history.len() == 0,
        after.plan is None,
{
    reveal(bypass_evaluated);
}

/// Once content has read its default framebuffer back, the onscreen canvas never draws
/// straight to the window again.
pub proof fn law_a_readback_ends_the_bypass(m: Mgr, gl: crate::gl_device::GlModel, after: Mgr)
    requires
        bypass_evaluated(latched(m, gl), after),
        after.canvases.dom().contains(ONSCREEN),
    ensures
        !after.canvases[ONSCREEN].bypass_drawing_buffer,
{
    reveal(bypass_evaluated);
}

/// The size that is told of a canvas is its drawing buffer's, or its surface's where it has
/// none; of a canvas that is not there none is told.
pub proof fn law_which_size_is_told<
    F: Fn(GlCall) -> u32,
    H: Fn(EglCall) -> Result<usize, EglError>,
    P: Fn(PaintCall) -> u64,
>(m: CanvasManager<F, H, P>, id: u32, size: Result<(u32, u32), CanvasError>)
    requires
        call_ensures(CanvasManager::<F, H, P>::get_canvas_size, (&m, id), size),
    ensures
        !m@.canvases.dom().contains(id) ==> size == Err::<(u32, u32), CanvasError>(
            CanvasError::NotFound,
        ),
        m@.canvases.dom().contains(id) ==> size is Ok && {
            let told = size->Ok_0;
            &&& m@.canvases[id].drawing_buffer matches Some(db) ==> told.0 == db.width && told.1
                == db.height
            &&& m@.canvases[id].drawing_buffer is None ==> told.0 == m@.canvases[id].physical_width
                && told.1 == m@.canvases[id].physical_height
        },
{
}

/// A canvas's content draws by default to its drawing buffer, and to the window itself exactly
/// where the buffer is bypassed or there is none.
pub proof fn law_where_content_draws_by_default<
    F: Fn(GlCall) -> u32,
    H: Fn(EglCall) -> Result<usize, EglError>,
    P: Fn(PaintCall) -> u64,
>(m: CanvasManager<F, H, P>, id: u32, fbo: Option<u32>)
    requires
        call_ensures(CanvasManager::<F, H, P>::get_drawing_buffer_fbo, (&m, id), fbo),
    ensures
        !m@.canvases.dom().contains(id) ==> fbo is None,
        m@.canvases.dom().contains(id) && m@.canvases[id].bypass_drawing_buffer ==> fbo is None,
        m@.canvases.dom().contains(id) && !m@.canvases[id].bypass_drawing_buffer ==> match
        m@.canvases[id].drawing_buffer {
            Some(db) => fbo == Some(db.fbo),
            None => fbo is None,
        },
{
}

/// The canvas that is told to be current is the one that is served, on a context of its own or
/// on the shared one; with the root current none is.
pub proof fn law_which_canvas_is_current<
    F: Fn(GlCall) -> u32,
    H: Fn(EglCall) -> Result<usize, EglError>,
    P: Fn(PaintCall) -> u64,
>(m: CanvasManager<F, H, P>, id: Option<u32>, onscreen: bool)
    requires
        call_ensures(CanvasManager::<F, H, P>::current_canvas_id, (&m,), id),
        call_ensures(CanvasManager::<F, H, P>::is_onscreen_bound, (&m,), onscreen),
    ensures
        m@.bound matches BoundContext::Canvas(c) ==> id == Some(c) && onscreen == (c == 1),
        m@.bound matches BoundContext::Shared2D(c) ==> id == Some(c) && !onscreen,
        m@.bound is Resource ==> id is None && !onscreen,
{
}

/// A canvas paints on the shared context exactly if its 2D context carries the shared one's
/// tag.
pub proof fn law_which_canvases_share<
    F: Fn(GlCall) -> u32,
    H: Fn(EglCall) -> Result<usize, EglError>,
    P: Fn(PaintCall) -> u64,
>(m: CanvasManager<F, H, P>, id: u32, shares: bool)
    requires
        call_ensures(CanvasManager::<F, H, P>::canvas_uses_shared_2d, (&m, id), shares),
    ensures
        m@.shared_2d is None ==> !shares,
        !m@.contexts.dom().contains(id) ==> !shares,
        m@.shared_2d is Some && m@.contexts.dom().contains(id) ==> shares == (m@.contexts[id].tag
            == (m@.shared_2d->0).tag),
{
}

/// The onscreen canvas may draw straight to the window only if there is no other canvas, if it
/// has no 2D context and is not read back, and if its buffer has the window's size.
pub proof fn law_what_a_bypass_needs(m: Mgr)
    ensures
        may_bypass(m) ==> m.canvases.dom().contains(1u32) && m.canvases.len() == 1,
        m.contexts.dom().contains(1u32) ==> !may_bypass(m),
        m.flags.needs_default_fbo_readback ==> !may_bypass(m),
        m.canvases[1].drawing_buffer is None ==> !may_bypass(m),
        m.canvases[1].drawing_buffer matches Some(db) ==> db.width != m.canvases[1].physical_width
            || db.height != m.canvases[1].physical_height ==> !may_bypass(m),
        m.canvases.len() == 1 && m.canvases.dom().contains(1u32) && !m.contexts.dom().contains(1u32)
            && !m.flags.needs_default_fbo_readback && (m.canvases[1].drawing_buffer matches Some(db)
            && db.width == m.canvases[1].physical_width && db.height
            == m.canvases[1].physical_height) ==> may_bypass(m),
{
}

/// A canvas that was made current is served, with its own context and surface current or with
/// the shared one's; one that is current already needs nothing. A refusal leaves what was
/// current.
pub proof fn law_a_canvas_made_current_is_current(
    before: Mgr,
    after: Mgr,
    id: u32,
    result: Result<(), CanvasError>,
)
    requires
        made_current(before, after, id, result),
    ensures
        result is Ok ==> serving(after.bound) == Some(id),
        result is Ok && before.bound != BoundContext::Canvas(id) && after.bound
            == BoundContext::Canvas(id) ==> {
            &&& before.canvases.dom().contains(id)
            &&& after.egl.ledger.current is Some
            &&& (after.egl.ledger.current->0).context == before.canvases[id].ctx.ctx
            &&& (after.egl.ledger.current->0).draw == before.canvases[id].ctx.surf
            &&& (after.egl.ledger.current->0).read == before.canvases[id].ctx.surf
        },
        result is Ok && !(before.bound is Shared2D) && after.bound == BoundContext::Shared2D(id)
            ==> {
            &&& before.shared_2d is Some
            &&& after.egl.ledger.current is Some
            &&& (after.egl.ledger.current->0).context == (before.shared_2d->0).egl.ctx
        },
        before.bound == BoundContext::Canvas(id) && !crate::manager::uses_shared(before, id)
            ==> result is Ok && after == before,
        result is Err ==> after.bound == before.bound && after.egl.ledger == before.egl.ledger
            && after.canvases == before.canvases,
        !before.canvases.dom().contains(id) && !before.contexts.dom().contains(id) && before.bound
            != BoundContext::Canvas(id) ==> result == Err::<(), CanvasError>(CanvasError::NotFound),
{
    reveal(made_current);
}

/// With the root current no canvas is served, and the root's context is the current one.
pub proof fn law_the_root_serves_no_canvas(before: Mgr, after: Mgr)
    requires
        root_bound(before, after, Ok(())),
    ensures
        after.bound is Resource,
        serving(after.bound) is None,
        crate::manager::current_context(after) == Some(before.root.ctx),
        after.canvases == before.canvases,
{
}

/// What is current stays so where any canvas will do; with the root current it is the canvas
/// of the window, where there is one.
pub proof fn law_any_canvas_is_the_current_one(
    before: Mgr,
    after: Mgr,
    result: Result<u32, CanvasError>,
)
    requires
        any_current(before, after, result),
    ensures
        before.bound matches BoundContext::Canvas(id) ==> result == Ok::<u32, CanvasError>(id)
            && after == before,
        before.bound matches BoundContext::Shared2D(id) ==> result == Ok::<u32, CanvasError>(id)
            && after == before,
        before.bound is Resource && before.canvases.dom().contains(1u32) && result is Ok
            ==> result->Ok_0 == 1,
        before.bound is Resource && result is Ok && before.canvases.dom().contains(result->Ok_0)
            ==> serving(after.bound) == Some(result->Ok_0),
{
    reveal(made_current);
}

/// What was current is current again: the canvas, where it is still there, or else the root; or
/// the shared context, for the canvas that it served.
pub proof fn law_what_was_current_is_current_again(
    before: Mgr,
    after: Mgr,
    saved: BoundContext,
)
    requires
        bound_restored(before, after, saved, Ok(())),
    ensures
        saved matches BoundContext::Canvas(id) ==> before.canvases.dom().contains(id) ==> serving(
            after.bound,
        ) == Some(id),
        saved matches BoundContext::Canvas(id) ==> !before.canvases.dom().contains(id)
            ==> after.bound is Resource,
        saved matches BoundContext::Shared2D(id) ==> after.bound == BoundContext::Shared2D(id),
        saved is Resource ==> after.bound is Resource,
{
    reveal(made_current);
}

/// The shared context serves the canvas that it was bound for, under its tag; one is made the
/// first time and kept from then on.
pub proof fn law_the_shared_context_serves(before: Mgr, after: Mgr, id: u32, tag: u64)
    requires
        shared_bound(before, after, id, Ok(tag)),
    ensures
        after.bound == BoundContext::Shared2D(id),
        after.shared_2d is Some,
        (after.shared_2d->0).tag == tag,
        before.shared_2d is Some ==> after.shared_2d == before.shared_2d,
        before.shared_2d is None ==> tag != 0,
        !(before.bound is Shared2D) ==> crate::manager::current_context(after) == Some(
            (after.shared_2d->0).egl.ctx,
        ),
        after.canvases == before.canvases,
{
}

/// Content reads its default framebuffer exactly if what it reads from is that: the binding that
/// it made answers, and otherwise the one that the driver has.
pub proof fn law_when_the_default_is_read(m: Mgr, id: u32, gl_major: u32)
    requires
        gl_major >= 3,
    ensures
        !m.shadows.dom().contains(id) && m.canvases.dom().contains(id)
            && crate::manager::default_fbo(m.canvases[id]) is None
            ==> crate::manager::default_read(m, id, gl_major) == (m.gl.bindings.read_framebuffer
            == 0),
        m.shadows.dom().contains(id) && m.shadows[id].bound_framebuffer@.dom().contains(0x8CA8u32)
            ==> crate::manager::default_read(m, id, gl_major) == (
        m.shadows[id].bound_framebuffer@[0x8CA8u32] is None),
{
    reveal(crate::manager::default_read);
}

/// A read of the default framebuffer is on record from then on, and the canvas of the window is
/// not bypassed after it; a read of anything else changes nothing that is on record.
pub proof fn law_a_read_of_the_default_is_on_record<
    F: Fn(GlCall) -> u32,
    H: Fn(EglCall) -> Result<usize, EglError>,
    P: Fn(PaintCall) -> u64,
>(gl_major: u32)
    ensures
        forall|m: &mut CanvasManager<F, H, P>|
            #[trigger] call_ensures(
                CanvasManager::<F, H, P>::signal_default_fbo_readback,
                (m, gl_major),
                Ok::<(), CanvasError>(()),
            ) ==> {
                let before = (*m)@;
                let after = (*final(m))@;
                &&& before.flags.needs_default_fbo_readback ==> after == before
                &&& !before.flags.needs_default_fbo_readback
                    && after.flags.needs_default_fbo_readback && after.canvases.dom().contains(1u32)
                    ==> !after.canvases[1u32].bypass_drawing_buffer
                &&& after.gl.truthful && crate::manager::default_read(before, 1, gl_major)
                    ==> after.flags.needs_default_fbo_readback
            },
{
    assert forall|m: &mut CanvasManager<F, H, P>|
        #[trigger] call_ensures(
            CanvasManager::<F, H, P>::signal_default_fbo_readback,
            (m, gl_major),
            Ok::<(), CanvasError>(()),
        ) implies {
        let before = (*m)@;
        let after = (*final(m))@;
        !before.flags.needs_default_fbo_readback && after.flags.needs_default_fbo_readback
            && after.canvases.dom().contains(1u32) ==> !after.canvases[1u32].bypass_drawing_buffer
    } by {
        let before = (*m)@;
        let after = (*final(m))@;
        if !before.flags.needs_default_fbo_readback && after.flags.needs_default_fbo_readback
            && after.canvases.dom().contains(1u32) {
            let gl = choose|gl: crate::gl_device::GlModel| #[trigger]
                bypass_evaluated(latched(before, gl), after);
            law_a_readback_ends_the_bypass(before, gl, after);
        }
    }
}

/// A canvas's drawing buffer is bound again for drawing and for reading, and the shadow knows
/// that content's default is; a canvas without one is left alone.
pub proof fn law_a_drawing_buffer_is_bound_again<
    F: Fn(GlCall) -> u32,
    H: Fn(EglCall) -> Result<usize, EglError>,
    P: Fn(PaintCall) -> u64,
>(id: u32)
    ensures
        forall|m: &mut CanvasManager<F, H, P>|
            #[trigger] call_ensures(
                CanvasManager::<F, H, P>::bind_default_framebuffer,
                (m, id),
                (),
            ) ==> {
                let before = (*m)@;
                let after = (*final(m))@;
                &&& !before.canvases.dom().contains(id) ==> after == before
                &&& before.canvases.dom().contains(id)
                    && !before.canvases[id].bypass_drawing_buffer ==> (
                before.canvases[id].drawing_buffer matches Some(db)
                    ==> after.gl.bindings.draw_framebuffer == db.fbo
                    && after.gl.bindings.read_framebuffer == db.fbo
                    && after.shadows[id].draws_to_default_fbo)
                &&& before.canvases.dom().contains(id) && before.canvases[id].bypass_drawing_buffer
                    ==> after == before
            },
{
}

} // verus!
