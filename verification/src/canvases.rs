//! Making, resizing and destroying canvases.
use vstd::prelude::*;

use crate::drawing_buffer::DrawingBuffer;
use crate::egl_device::EglCall;
use crate::egl_device::EglContextHandle;
use crate::egl_setup::EglError;
use crate::gl_device::GlCall;
use crate::manager::BoundContext;
use crate::manager::CanvasEntry;
use crate::manager::CanvasError;
use crate::manager::CanvasInfo;
use crate::manager::CanvasManager;
use crate::manager::Context2d;
use crate::manager::Extent;
use crate::manager::Mgr;
use crate::manager::SurfaceKind;
use crate::manager::Window;
use crate::manager::ONSCREEN;
use crate::painters::PaintCall;

verus! {

/// Who asks for a canvas's size.
#[derive(Clone, Copy, Debug, PartialEq, Eq, Structural)]
pub enum BackingSizeOwner {
    /// Content: the size is its own from then on.
    Content,
    /// The engine, because the surface changed.
    Engine,
}

/// A canvas may have that size.
pub open spec fn fits_cap(m: Mgr, width: u32, height: u32) -> bool {
    width as nat * height as nat <= m.cfg.max_canvas_pixels
}

/// The entry of a new offscreen canvas.
pub open spec fn offscreen_entry(
    id: u32,
    width: u32,
    height: u32,
    ctx: EglContextHandle,
) -> CanvasEntry {
    CanvasEntry {
        info: CanvasInfo { id, width, height, is_onscreen: false },
        kind: SurfaceKind::Pbuffer,
        physical_width: width,
        physical_height: height,
        ctx,
        drawing_buffer: None,
        bypass_drawing_buffer: false,
        applied_default_framebuffer: None,
    }
}

/// The session with a new offscreen canvas, before the onscreen one's mode is decided again.
pub open spec fn with_offscreen(
    m: Mgr,
    id: u32,
    width: u32,
    height: u32,
    ctx: EglContextHandle,
) -> Mgr {
    Mgr {
        egl: crate::egl_device::with_pair(
            m.egl,
            ctx,
            crate::manager::context_call(m.cfg, m.root),
            width,
            height,
        ),
        canvases: m.canvases.insert(id, offscreen_entry(id, width, height, ctx)),
        ..m
    }
}

/// The driver refused, and nothing is left of what was asked for.
pub open spec fn gave_up(before: Mgr, after: Mgr, e: EglError) -> bool {
    &&& crate::manager::same_books(before, after)
    &&& crate::manager::same_frames(before, after)
    &&& crate::manager::same_session(before, after)
    &&& after.bound == before.bound
    &&& after.canvases == before.canvases
    &&& after.gl == before.gl
    &&& crate::manager::creation_failed(before.egl, after.egl, e)
}

/// An offscreen canvas was asked for under an identifier: one that is there already stays as
/// it is, whatever size is asked for.
pub open spec fn registered(
    before: Mgr,
    after: Mgr,
    id: u32,
    width: u32,
    height: u32,
    result: Result<(), CanvasError>,
) -> bool {
    if before.canvases.dom().contains(id) {
        result is Ok && after == before
    } else if !fits_cap(before, width, height) {
        result == Err::<(), CanvasError>(CanvasError::TooLarge) && after == before
    } else {
        match result {
            Ok(_) => exists|ctx: EglContextHandle|
                {
                    let made = #[trigger] with_offscreen(before, id, width, height, ctx);
                    &&& crate::binding::bypass_evaluated(made, after)
                    &&& crate::binding::only_mode_moved(made, after)
                },
            Err(CanvasError::Egl(e)) => gave_up(before, after, e),
            Err(_) => false,
        }
    }
}

/// The session with its next identifier given out. They start over after the last.
pub open spec fn numbered(m: Mgr) -> Mgr {
    Mgr {
        next_canvas_id: if m.next_canvas_id < u32::MAX {
            (m.next_canvas_id + 1) as u32
        } else {
            0
        },
        ..m
    }
}

/// An offscreen canvas was asked for under the next identifier.
pub open spec fn created(
    before: Mgr,
    after: Mgr,
    width: u32,
    height: u32,
    result: Result<u32, CanvasError>,
) -> bool {
    match result {
        Ok(id) => id == before.next_canvas_id && registered(
            numbered(before),
            after,
            id,
            width,
            height,
            Ok(()),
        ),
        Err(e) => registered(
            numbered(before),
            after,
            before.next_canvas_id,
            width,
            height,
            Err(e),
        ),
    }
}

impl<
    F: Fn(GlCall) -> u32,
    H: Fn(EglCall) -> Result<usize, EglError>,
    P: Fn(PaintCall) -> u64,
> CanvasManager<F, H, P> {
    /// Whether a canvas may have that size.
    pub fn within_pixel_cap(&self, width: u32, height: u32) -> (b: bool)
        ensures
            b == fits_cap(self@, width, height),
    {
        assert(width * height <= 0xFFFF_FFFF * 0xFFFF_FFFF) by (nonlinear_arith)
            requires
                width <= 0xFFFF_FFFF,
                height <= 0xFFFF_FFFF,
        ;
        assert(width as nat * height as nat == width * height) by (nonlinear_arith);
        width as u64 * height as u64 <= self.cfg().max_canvas_pixels
    }

    /// Make an offscreen canvas under an identifier of the caller's. One that exists is left
    /// as it is.
    pub fn register_offscreen(&mut self, id: u32, width: u32, height: u32) -> (result: Result<
        (),
        CanvasError,
    >)
        requires
            old(self).wf(),
        ensures
            final(self).wf(),
            registered(old(self)@, final(self)@, id, width, height, result),
            result is Ok ==> final(self)@.canvases.dom().contains(id),
    {
        if self.canvas(id).is_some() {
            return Ok(());
        }
        if !self.within_pixel_cap(width, height) {
            return Err(CanvasError::TooLarge);
        }
        let root: usize = self.root().ctx;
        let ctx = match self.create_offscreen_context(Some(root), width, height) {
            Err(e) => {
                return Err(CanvasError::Egl(e));
            },
            Ok(ctx) => ctx,
        };
        self.put_canvas(
            CanvasEntry {
                info: CanvasInfo { id, width, height, is_onscreen: false },
                kind: SurfaceKind::Pbuffer,
                physical_width: width,
                physical_height: height,
                ctx,
                drawing_buffer: None,
                bypass_drawing_buffer: false,
                applied_default_framebuffer: None,
            },
        );
        assert(self@ == with_offscreen(old(self)@, id, width, height, ctx));
        self.evaluate_bypass();
        Ok(())
    }

    /// Make an offscreen canvas under a fresh identifier.
    pub fn create_offscreen(&mut self, width: u32, height: u32) -> (result: Result<
        u32,
        CanvasError,
    >)
        requires
            old(self).wf(),
        ensures
            final(self).wf(),
            created(old(self)@, final(self)@, width, height, result),
    {
        let id: u32 = self.new_canvas_id();
        assert(self@ == numbered(old(self)@));
        match self.register_offscreen(id, width, height) {
            Ok(unit) => {
                assert(unit == ());
                Ok(id)
            },
            Err(e) => Err(e),
        }
    }

    /// Give a canvas's 2D context another target. Where that fails, the context is made
    /// again. What it paints with stays.
    fn resize_context(&mut self, id: u32, fbo: u32, width: u32, height: u32) -> (result: Result<
        (),
        CanvasError,
    >)
        requires
            old(self).wf(),
        ensures
            final(self).wf(),
            crate::painting::only_painting_moved(old(self)@, final(self)@),
            !old(self)@.contexts.dom().contains(id) ==> result is Ok && final(self)@ == old(self)@,
            result is Ok ==> final(self)@.contexts.dom() == old(self)@.contexts.dom() && (final(
                self)@.bound == old(self)@.bound || crate::binding::serving(final(self)@.bound)
                == Some(id)),
            final(self)@.paint.truthful ==> old(self)@.paint.truthful,
            result is Ok && old(self)@.contexts.dom().contains(id) && final(self)@.paint.truthful
                ==> state_kept(old(self)@, final(self)@, id),
            result is Ok && old(self)@.contexts.dom().contains(id) ==> {
                ||| context_retargeted(old(self)@, final(self)@, id, fbo, width, height)
                ||| context_remade(old(self)@, final(self)@, id)
            },
            result matches Err(e) ==> final(self)@.contexts == old(self)@.contexts.remove(id)
                && !(e is DrawingBuffer) && crate::manager::refusals(final(self)@)
                > crate::manager::refusals(old(self)@),
    {
        let ctx = match self.context_2d(id) {
            None => {
                return Ok(());
            },
            Some(ctx) => ctx,
        };
        let resized: u64 = self.issue_paint(PaintCall::Resize { canvas: id, fbo, width, height });
        if resized != 0 {
            self.put_context(id, Context2d { fbo, width, height, ..ctx });
            assert(self@.contexts.dom() =~= old(self)@.contexts.dom());
            assert(self@.canvases.dom() =~= old(self)@.canvases.dom());
            return Ok(());
        }
        let ghost asked = self@;
        match self.rebuild_2d_context_preserving_state(id) {
            Err(e) => Err(e),
            Ok(_) => {
                assert(self@.contexts.dom() =~= asked.contexts.dom());
                Ok(())
            },
        }
    }
}

/// A canvas's 2D context was given another target.
pub open spec fn context_retargeted(
    before: Mgr,
    after: Mgr,
    id: u32,
    fbo: u32,
    width: u32,
    height: u32,
) -> bool {
    &&& after.contexts == before.contexts.insert(
        id,
        Context2d { fbo, width, height, ..before.contexts[id] },
    )
    &&& after.paint == (crate::painters::PaintModel {
        retargets: before.paint.retargets.push(
            crate::painters::Retarget { canvas: id, fbo, width, height },
        ),
        alive: crate::painters::retargeted(before.paint.alive, id, fbo, width, height),
        ..before.paint
    })
}

/// A canvas's 2D context has followed the canvas to another size: it was given another target,
/// or, where it would not take that, made again on what the canvas paints into.
pub open spec fn context_followed(
    before: Mgr,
    after: Mgr,
    id: u32,
    fbo: u32,
    size: Extent,
) -> bool {
    let Extent { width, height } = size;
    ||| {
        &&& after.contexts == before.contexts.insert(
            id,
            Context2d { fbo, width, height, ..before.contexts[id] },
        )
        &&& after.paint.retargets == before.paint.retargets.push(
            crate::painters::Retarget { canvas: id, fbo, width, height },
        )
        &&& before.paint.alive.dom().contains(id) ==> after.paint.alive.dom().contains(id)
            && after.paint.alive[id] == (crate::painters::Painter {
            state: after.paint.alive[id].state,
            fbo,
            width,
            height,
            ..before.paint.alive[id]
        })
    }
    ||| {
        &&& crate::manager::refusals(after) > crate::manager::refusals(before)
        &&& after.contexts == before.contexts.insert(id, after.contexts[id])
        &&& crate::painting::fitted(after, id)
    }
}

/// The framebuffer of a canvas's drawing buffer; zero where it has none.
pub open spec fn buffer_fbo(entry: CanvasEntry) -> u32 {
    match entry.drawing_buffer {
        Some(db) => db.fbo,
        None => 0,
    }
}

/// A canvas's 2D context would not take another target, and was made again on what the canvas
/// paints into.
pub open spec fn context_remade(before: Mgr, after: Mgr, id: u32) -> bool {
    &&& crate::manager::refusals(after) > crate::manager::refusals(before)
    &&& after.contexts == before.contexts.insert(
        id,
        crate::painting::fresh_context(before.canvases[id], after.contexts[id].tag),
    )
    &&& crate::painting::fitted(after, id)
    &&& crate::binding::serving(after.bound) == Some(id)
}

/// The size of a canvas that a resize starts from: its drawing buffer's where it has one on
/// the window, else its surface's.
pub open spec fn base_size(entry: CanvasEntry) -> Extent {
    match (entry.kind, entry.drawing_buffer) {
        (SurfaceKind::Window, Some(db)) => Extent { width: db.width, height: db.height },
        _ => Extent { width: entry.physical_width, height: entry.physical_height },
    }
}

/// The size that a canvas is asked to have: a side that is not named keeps its length.
pub open spec fn asked_size(entry: CanvasEntry, w: Option<u32>, h: Option<u32>) -> Extent {
    Extent {
        width: match w {
            Some(w) => w,
            None => base_size(entry).width,
        },
        height: match h {
            Some(h) => h,
            None => base_size(entry).height,
        },
    }
}

/// The onscreen canvas with a buffer of another size; its surface stays.
pub open spec fn resized_window(entry: CanvasEntry, size: Extent) -> CanvasEntry {
    CanvasEntry {
        info: CanvasInfo { width: size.width, height: size.height, ..entry.info },
        drawing_buffer: match entry.drawing_buffer {
            Some(db) => Some(DrawingBuffer { width: size.width, height: size.height, ..db }),
            None => None,
        },
        ..entry
    }
}

/// An offscreen canvas with a surface of another size.
pub open spec fn resized_pbuffer(
    entry: CanvasEntry,
    size: Extent,
    surf: Option<usize>,
) -> CanvasEntry {
    CanvasEntry {
        info: CanvasInfo { width: size.width, height: size.height, ..entry.info },
        physical_width: size.width,
        physical_height: size.height,
        ctx: EglContextHandle { ctx: entry.ctx.ctx, surf },
        ..entry
    }
}

/// Everything is as it was but the size of a canvas and what follows from it.
pub open spec fn only_size_moved(before: Mgr, after: Mgr, id: u32) -> bool {
    &&& after.cfg == before.cfg
    &&& after.root == before.root
    &&& after.flags == before.flags
    &&& after.window == before.window
    &&& after.pending == before.pending
    &&& after.preserved == before.preserved
    &&& after.next_canvas_id == before.next_canvas_id
    &&& after.dirty == before.dirty
    &&& after.debt == before.debt
    &&& after.copy_fbos == before.copy_fbos
    &&& after.snapshots == before.snapshots
    &&& after.uploads == before.uploads
    &&& after.swap_interval == before.swap_interval
    &&& after.swap_damage_rejected == before.swap_damage_rejected
    &&& windows_stay(before.egl, after.egl, offscreen_surface(before, id))
    &&& same_display(before.egl, after.egl)
    &&& others_stay(before.canvases, after.canvases, id)
    &&& before.canvases.dom().contains(id) ==> same_surface(
        before.canvases[id],
        after.canvases[id],
    )
    &&& crate::manager::grew(before, after)
    &&& after.paint.truthful ==> before.paint.truthful
}

/// The canvas has the same context, and one on the window its surface too.
pub open spec fn same_surface(before: CanvasEntry, after: CanvasEntry) -> bool {
    &&& after.kind == before.kind
    &&& after.ctx.ctx == before.ctx.ctx
    &&& before.kind == SurfaceKind::Window ==> after.ctx == before.ctx && after.physical_width
        == before.physical_width && after.physical_height == before.physical_height
}

/// The display is as far up, serves the same root, and was asked for the same rates and
/// configurations.
pub open spec fn same_display(
    a: crate::egl_device::EglModel,
    b: crate::egl_device::EglModel,
) -> bool {
    &&& a.rate_requests == b.rate_requests
    &&& a.reconfigured == b.reconfigured
    &&& a.root == b.root
    &&& a.up == b.up
    &&& a.terminated == b.terminated
    &&& a.uploads == b.uploads
}

/// The pbuffer that a resize of a canvas replaces.
pub open spec fn offscreen_surface(m: Mgr, id: u32) -> Option<usize> {
    if m.canvases.dom().contains(id) && m.canvases[id].kind == SurfaceKind::Pbuffer {
        m.canvases[id].ctx.surf
    } else {
        None
    }
}

/// No native target was let go, unless through the surface that was replaced.
pub open spec fn windows_stay(
    before: crate::egl_device::EglModel,
    after: crate::egl_device::EglModel,
    replaced: Option<usize>,
) -> bool {
    match replaced {
        None => after.windows == before.windows,
        Some(s) => after.windows == before.windows || after.windows == before.windows.remove(s),
    }
}

/// The other canvases are the same, but for how they show on the window.
pub open spec fn others_stay(
    before: Map<u32, CanvasEntry>,
    after: Map<u32, CanvasEntry>,
    id: u32,
) -> bool {
    &&& after.dom() == before.dom()
    &&& forall|other: u32| #[trigger]
        after.dom().contains(other) && other != id ==> crate::binding::same_canvas(
            before[other],
            after[other],
        )
}

/// The display answered the creation of a pbuffer of that size with `surface`.
pub open spec fn pbuffer_made<H: Fn(EglCall) -> Result<usize, EglError>>(
    display: H,
    surface: usize,
    size: Extent,
) -> bool {
    call_ensures(
        display,
        (EglCall::CreatePbufferSurface { width: size.width, height: size.height },),
        Ok::<usize, EglError>(surface),
    )
}

/// A canvas's drawing buffer, where it has one, is put together at the size it has.
pub open spec fn buffer_assembled(m: Mgr, id: u32) -> bool {
    m.canvases[id].drawing_buffer matches Some(db) ==> crate::drawing_buffer::assembled(m.gl, db)
}

/// Textures and renderbuffers have the storage they had, framebuffers hold what they held,
/// and the library has neither refused nor reported anything.
pub open spec fn same_storage(
    before: crate::gl_device::GlModel,
    after: crate::gl_device::GlModel,
) -> bool {
    &&& after.storage == before.storage
    &&& after.renderbuffer_storage == before.renderbuffer_storage
    &&& after.attached == before.attached
    &&& after.refused == before.refused
    &&& after.statuses == before.statuses
    &&& after.errors == before.errors
}

/// The library could not put a framebuffer together.
pub open spec fn buffer_refused(before: Mgr, after: Mgr) -> bool {
    &&& after.gl.statuses.len() > before.gl.statuses.len()
    &&& after.gl.statuses.last() != crate::gl::FRAMEBUFFER_COMPLETE
}

/// A canvas was asked to have another size. A size that is too large changes nothing; one
/// that it has already only makes it the content's own.
pub open spec fn resize_outcome(
    before: Mgr,
    after: Mgr,
    id: u32,
    w: Option<u32>,
    h: Option<u32>,
    owner: BackingSizeOwner,
    result: Result<(), CanvasError>,
) -> bool {
    if !before.canvases.dom().contains(id) {
        result == Err::<(), CanvasError>(CanvasError::NotFound) && after == before
    } else {
        let entry = before.canvases[id];
        let size = asked_size(entry, w, h);
        let asked = claimed(before, id, size, owner);
        if !fits_cap(before, size.width, size.height) {
            result == Err::<(), CanvasError>(CanvasError::TooLarge) && after == before
        } else if size == base_size(entry) {
            result is Ok && after == asked
        } else {
            &&& only_size_moved(asked, after, id)
            &&& result is Ok ==> resized(asked, after, id, size)
            &&& result matches Err(e) ==> e is DrawingBuffer || crate::manager::refusals(after)
                > crate::manager::refusals(before)
            &&& result == Err::<(), CanvasError>(CanvasError::DrawingBuffer) ==> buffer_refused(
                before,
                after,
            ) && crate::painting::canvases_stay(before.canvases, after.canvases)
                && after.contexts == before.contexts
        }
    }
}

/// A canvas was asked to go, with the objects that its content made. The onscreen one stays
/// and only gives up what its 2D context would have been restored to.
pub open spec fn destroyed(
    before: Mgr,
    after: Mgr,
    id: u32,
    textures: Seq<u32>,
    renderbuffers: Seq<u32>,
    result: Result<(), CanvasError>,
) -> bool {
    if id == ONSCREEN {
        &&& result == Err::<(), CanvasError>(CanvasError::Onscreen)
        &&& after == (Mgr { window: Window { restore_2d: None, ..before.window }, ..before })
    } else if !before.canvases.dom().contains(id) {
        &&& result is Ok
        &&& crate::binding::bypass_evaluated(before, after)
        &&& crate::binding::only_mode_moved(before, after)
    } else {
        &&& result is Ok
        &&& only_canvas_went(before, after, id)
        &&& windows_stay(before.egl, after.egl, before.canvases[id].ctx.surf)
        &&& crate::egl_device::pair_unmade(before.egl, after.egl, before.canvases[id].ctx)
        &&& crate::manager::dropped_in_place(before, after)
        &&& {
            // What was current is current again.
            let left = Mgr { canvases: before.canvases.remove(id), ..before };
            ||| crate::painting::back_to(left, before.bound, after)
            ||| crate::manager::refusals(after) > crate::manager::refusals(before)
        }
        &&& forall|name: u32|
            textures.contains(name) ==> !#[trigger] after.gl.textures.contains(name)
        &&& forall|name: u32|
            renderbuffers.contains(name) ==> !#[trigger] after.gl.renderbuffers.contains(name)
        &&& before.copy_fbos.dom().contains(id) ==> !after.gl.framebuffers.contains(
            before.copy_fbos[id],
        )
    }
}

impl<
    F: Fn(GlCall) -> u32,
    H: Fn(EglCall) -> Result<usize, EglError>,
    P: Fn(PaintCall) -> u64,
> CanvasManager<F, H, P> {
    /// Give the drawing buffer of a canvas on the window another size, with the canvas
    /// current. `false` where the driver could not.
    fn resize_buffer_of(&mut self, id: u32, size: Extent) -> (ok: bool)
        requires
            old(self).wf(),
            old(self)@.canvases.dom().contains(id),
        ensures
            final(self).wf(),
            !ok ==> final(self)@ == (Mgr { gl: final(self)@.gl, ..old(self)@ })
                && buffer_refused(old(self)@, final(self)@),
            ok ==> final(self)@ == (Mgr {
                gl: final(self)@.gl,
                canvases: old(self)@.canvases.insert(
                    id,
                    resized_window(old(self)@.canvases[id], size),
                ),
                ..old(self)@
            }),
            old(self)@.canvases[id].drawing_buffer is None ==> ok,
            final(self)@.gl.viewports == old(self)@.gl.viewports,
            ok && size != base_size(old(self)@.canvases[id]) && old(self)@.canvases[id].kind
                == SurfaceKind::Window ==> buffer_assembled(final(self)@, id),
    {
        let entry = match self.canvas(id) {
            Some(entry) => entry,
            None => {
                return false;
            },
        };
        let drawing_buffer = match entry.drawing_buffer {
            None => None,
            Some(db) => {
                let mut resized = db;
                if !self.resize_drawing_buffer(&mut resized, size.width, size.height) {
                    return false;
                }
                Some(resized)
            },
        };
        self.put_canvas(
            CanvasEntry {
                info: CanvasInfo { width: size.width, height: size.height, ..entry.info },
                drawing_buffer,
                ..entry
            },
        );
        true
    }

    /// A canvas's viewport covers its buffer again, and the next frame of the onscreen one
    /// is a whole one.
    fn restart_after_resize(&mut self, id: u32, size: Extent)
        requires
            old(self).wf(),
        ensures
            final(self).wf(),
            only_size_moved(old(self)@, final(self)@, id),
            crate::painting::canvases_stay(old(self)@.canvases, final(self)@.canvases),
            same_storage(old(self)@.gl, final(self)@.gl),
            final(self)@.egl == old(self)@.egl,
            final(self)@.bound == old(self)@.bound,
            final(self)@.paint == old(self)@.paint,
            final(self)@.contexts == old(self)@.contexts,
            final(self)@.shadows == old(self)@.shadows.insert(id, final(self)@.shadows[id]),
            final(self)@.shadows[id].viewport == Some(
                (0i32, 0i32, size.width as i32, size.height as i32),
            ),
            final(self)@.gl.viewports == old(self)@.gl.viewports.push(
                (size.width as i32, size.height as i32),
            ),
            id == ONSCREEN ==> crate::binding::mode_settled(final(self)@),
            id == ONSCREEN ==> final(self)@.damage.full && final(self)@.history.len() == 0
                && final(self)@.plan is None,
            id != ONSCREEN ==> crate::manager::same_frames(old(self)@, final(self)@),
    {
        let _ = self.issue_gl(
            GlCall::Viewport { width: size.width as i32, height: size.height as i32 },
        );
        self.set_viewport(id, size.width, size.height);
        if id == ONSCREEN {
            self.restart_full();
            self.evaluate_bypass();
        } else {
            assert(self@.canvases.dom() =~= old(self)@.canvases.dom());
        }
    }

    /// Resize a canvas on the window: its drawing buffer, since its surface follows the
    /// window.
    fn resize_window(&mut self, id: u32, size: Extent) -> (result: Result<(), CanvasError>)
        requires
            old(self).wf(),
            old(self)@.canvases.dom().contains(id),
        ensures
            final(self).wf(),
            only_size_moved(old(self)@, final(self)@, id),
            match result {
                Ok(_) => {
                    &&& crate::binding::same_canvas(
                        resized_window(old(self)@.canvases[id], size),
                        final(self)@.canvases[id],
                    )
                    &&& final(self)@.shadows[id].viewport == Some(
                        (0i32, 0i32, size.width as i32, size.height as i32),
                    )
                    &&& id == ONSCREEN ==> final(self)@.damage.full && final(
                        self)@.history.len() == 0 && final(self)@.plan is None
                    &&& final(self)@.gl.viewports == old(self)@.gl.viewports.push(
                        (size.width as i32, size.height as i32),
                    )
                    &&& id == ONSCREEN ==> crate::binding::mode_settled(final(self)@)
                    &&& crate::binding::serving(final(self)@.bound) == Some(id)
                    &&& old(self)@.contexts.dom().contains(id) ==> context_followed(
                        old(self)@,
                        final(self)@,
                        id,
                        buffer_fbo(old(self)@.canvases[id]),
                        size,
                    )
                    &&& final(self)@.contexts.dom() == old(self)@.contexts.dom()
                    &&& old(self)@.contexts.dom().contains(id) && final(self)@.paint.truthful
                        ==> state_kept(old(self)@, final(self)@, id)
                    &&& size != base_size(old(self)@.canvases[id]) && old(self)@.canvases[id].kind
                        == SurfaceKind::Window ==> buffer_assembled(final(self)@, id)
                },
                Err(CanvasError::DrawingBuffer) => buffer_refused(old(self)@, final(self)@)
                    && crate::painting::canvases_stay(
                    old(self)@.canvases,
                    final(self)@.canvases,
                ) && final(self)@.contexts == old(self)@.contexts && final(self)@.paint == old(
                    self)@.paint,
                Err(e) => !(e is DrawingBuffer) && crate::manager::refusals(final(self)@)
                    > crate::manager::refusals(old(self)@),
            },
    {
        if let Err(e) = self.make_current_needed(id) {
            proof {
                reveal(crate::binding::made_current);
            }
            return Err(e);
        }
        if !self.resize_buffer_of(id, size) {
            return Err(CanvasError::DrawingBuffer);
        }
        assert(self@.canvases.dom() =~= old(self)@.canvases.dom());
        let fbo: u32 = match self.canvas(id) {
            Some(entry) => match entry.drawing_buffer {
                Some(db) => db.fbo,
                None => 0,
            },
            None => 0,
        };
        if let Err(e) = self.resize_context(id, fbo, size.width, size.height) {
            return Err(e);
        }
        self.restart_after_resize(id, size);
        Ok(())
    }

    /// Exchange an offscreen canvas's pbuffer for one of another size. A surfaceless share
    /// group has none to exchange.
    fn exchange_pbuffer(&mut self, surf: Option<usize>, size: Extent) -> (result: Result<
        Option<usize>,
        CanvasError,
    >)
        requires
            old(self).wf(),
        ensures
            final(self).wf(),
            final(self)@ == (Mgr { egl: final(self)@.egl, ..old(self)@ }),
            windows_stay(old(self)@.egl, final(self)@.egl, surf),
            same_display(old(self)@.egl, final(self)@.egl),
            crate::egl_device::remembers(old(self)@.egl, final(self)@.egl),
            match result {
                Ok(made) => {
                    &&& (made is None) == old(self)@.cfg.surfaceless
                    &&& made matches Some(s) ==> final(self)@.egl.surfaces.contains(s)
                        && pbuffer_made(old(self).display(), s, size)
                    &&& final(self)@.egl.surfaces_gone == surface_let_go(old(self)@.egl, surf)
                    &&& final(self)@.egl.refused == old(self)@.egl.refused
                },
                Err(CanvasError::Egl(e)) => final(self)@.egl.refused.len() == old(
                    self)@.egl.refused.len() + 1 && final(self)@.egl.refused.last().1 == e,
                Err(_) => false,
            },
    {
        if let Some(s) = surf {
            if let Err(e) = self.destroy_surface(s) {
                return Err(CanvasError::Egl(e));
            }
        }
        if self.cfg().surfaceless {
            return Ok(None);
        }
        match self.create_pbuffer_surface(size.width, size.height) {
            Err(e) => Err(CanvasError::Egl(e)),
            Ok(s) => Ok(Some(s)),
        }
    }

    /// Resize an offscreen canvas: its surface is made anew, and what was current is
    /// current again.
    #[verifier::rlimit(40)]
    fn resize_pbuffer(&mut self, id: u32, size: Extent) -> (result: Result<(), CanvasError>)
        requires
            old(self).wf(),
            old(self)@.canvases.dom().contains(id),
            old(self)@.canvases[id].kind == SurfaceKind::Pbuffer,
        ensures
            final(self).wf(),
            only_size_moved(old(self)@, final(self)@, id),
            final(self)@.shadows == old(self)@.shadows,
            match result {
                Ok(_) => {
                    &&& crate::binding::same_canvas(
                        resized_pbuffer(
                            old(self)@.canvases[id],
                            size,
                            final(self)@.canvases[id].ctx.surf,
                        ),
                        final(self)@.canvases[id],
                    )
                    &&& (final(self)@.canvases[id].ctx.surf is None) == old(self)@.cfg.surfaceless
                    &&& final(self)@.canvases[id].ctx.surf matches Some(s) ==> pbuffer_made(
                        old(self).display(),
                        s,
                        size,
                    )
                    &&& final(self)@.egl.surfaces_gone == surface_let_go(
                        old(self)@.egl,
                        old(self)@.canvases[id].ctx.surf,
                    )
                    &&& crate::painting::back_to(old(self)@, old(self)@.bound, final(self)@)
                    &&& old(self)@.contexts.dom().contains(id) ==> context_followed(
                        old(self)@,
                        final(self)@,
                        id,
                        0,
                        size,
                    )
                    &&& final(self)@.contexts.dom() == old(self)@.contexts.dom()
                    &&& old(self)@.contexts.dom().contains(id) && final(self)@.paint.truthful
                        ==> state_kept(old(self)@, final(self)@, id)
                    &&& old(self)@.bound == BoundContext::Canvas(id) ==> crate::binding::serving(
                        final(self)@.bound,
                    ) == Some(id)
                },
                Err(e) => !(e is DrawingBuffer) && crate::manager::refusals(final(self)@)
                    > crate::manager::refusals(old(self)@),
            },
    {
        let saved = self.bound();
        let was_current: bool = saved == BoundContext::Canvas(id);
        let entry = match self.canvas(id) {
            None => {
                return Err(CanvasError::NotFound);
            },
            Some(entry) => entry,
        };
        if was_current {
            if let Err(e) = self.release_current() {
                return Err(CanvasError::Egl(e));
            }
        }
        let surf = match self.exchange_pbuffer(entry.ctx.surf, size) {
            Err(e) => {
                return Err(e);
            },
            Ok(surf) => surf,
        };
        let handle = EglContextHandle { ctx: entry.ctx.ctx, surf };
        if let Err(e) = self.activate(handle, BoundContext::Canvas(id)) {
            return Err(CanvasError::Egl(e));
        }
        self.put_canvas(
            CanvasEntry {
                info: CanvasInfo { width: size.width, height: size.height, ..entry.info },
                physical_width: size.width,
                physical_height: size.height,
                ctx: handle,
                ..entry
            },
        );
        assert(self@.canvases.dom() =~= old(self)@.canvases.dom());
        if let Err(e) = self.resize_context(id, 0, size.width, size.height) {
            return Err(e);
        }
        if !was_current {
            return self.go_back(saved);
        }
        Ok(())
    }

    /// Go back to what was current.
    fn go_back(&mut self, saved: BoundContext) -> (result: Result<(), CanvasError>)
        requires
            old(self).wf(),
        ensures
            final(self).wf(),
            crate::binding::bound_restored(old(self)@, final(self)@, saved, result),
            crate::painting::only_painting_moved(old(self)@, final(self)@),
            final(self)@.contexts == old(self)@.contexts,
            final(self)@.dropped == old(self)@.dropped,
            final(self)@.paint.alive == old(self)@.paint.alive,
            final(self)@.paint.retargets == old(self)@.paint.retargets,
            final(self)@.paint.rebalanced == old(self)@.paint.rebalanced,
            final(self)@.paint.purged == old(self)@.paint.purged,
            final(self)@.paint.removed == old(self)@.paint.removed,
            final(self)@.paint.truthful == old(self)@.paint.truthful,
            crate::manager::same_frames(old(self)@, final(self)@),
            final(self)@.egl.surfaces_gone == old(self)@.egl.surfaces_gone,
            result is Ok ==> crate::painting::back_to(old(self)@, saved, final(self)@),
            result matches Err(e) ==> (e is Egl || e is Group) && crate::manager::refusals(
                final(self)@,
            ) > crate::manager::refusals(old(self)@),
    {
        let result = self.restore_bound(saved);
        proof {
            reveal(crate::binding::made_current);
            assert(self@.canvases.dom() =~= old(self)@.canvases.dom());
        }
        result
    }
}

/// A 2D context paints with what it painted with before.
pub open spec fn state_kept(before: Mgr, after: Mgr, id: u32) -> bool {
    before.paint.alive.dom().contains(id) ==> after.paint.alive.dom().contains(id)
        && after.paint.alive[id].state == before.paint.alive[id].state
}

/// The window once content or the engine gave a canvas a size: one that content gave the
/// onscreen canvas is its own from then on.
pub open spec fn claimed(m: Mgr, id: u32, size: Extent, owner: BackingSizeOwner) -> Mgr {
    if owner == BackingSizeOwner::Content && m.canvases[id].kind == SurfaceKind::Window {
        Mgr { window: Window { content_backing: Some(size), ..m.window }, ..m }
    } else {
        m
    }
}

/// The canvas was given its size, and its 2D context has followed. On the window it is current,
/// the viewport covers the new size, and it is decided again how the onscreen canvas shows.
/// Offscreen the surface is another one, and what was current is current again.
pub open spec fn resized(before: Mgr, after: Mgr, id: u32, size: Extent) -> bool {
    &&& after.contexts.dom() == before.contexts.dom()
    &&& before.contexts.dom().contains(id) ==> context_followed(
        before,
        after,
        id,
        if before.canvases[id].kind == SurfaceKind::Window {
            buffer_fbo(before.canvases[id])
        } else {
            0
        },
        size,
    )
    &&& before.contexts.dom().contains(id) && after.paint.truthful ==> state_kept(
        before,
        after,
        id,
    )
    &&& if before.canvases[id].kind == SurfaceKind::Window {
        &&& crate::binding::same_canvas(
            resized_window(before.canvases[id], size),
            after.canvases[id],
        )
        &&& after.shadows[id].viewport == Some(
            (0i32, 0i32, size.width as i32, size.height as i32),
        )
        &&& after.gl.viewports == before.gl.viewports.push(
            (size.width as i32, size.height as i32),
        )
        &&& id == ONSCREEN ==> after.damage.full && after.history.len() == 0 && after.plan is None
        &&& id == ONSCREEN ==> crate::binding::mode_settled(after)
        &&& crate::binding::serving(after.bound) == Some(id)
        &&& size != base_size(before.canvases[id]) ==> buffer_assembled(after, id)
    } else {
        &&& crate::binding::same_canvas(
            resized_pbuffer(before.canvases[id], size, after.canvases[id].ctx.surf),
            after.canvases[id],
        )
        &&& (after.canvases[id].ctx.surf is None) == before.cfg.surfaceless
        &&& after.egl.surfaces_gone == surface_let_go(before.egl, before.canvases[id].ctx.surf)
        &&& crate::painting::back_to(before, before.bound, after)
    }
}

/// The surfaces that are gone once one more is, where there is one.
pub open spec fn surface_let_go(
    m: crate::egl_device::EglModel,
    surface: Option<usize>,
) -> Seq<usize> {
    match surface {
        Some(s) => m.surfaces_gone.push(s),
        None => m.surfaces_gone,
    }
}

impl<
    F: Fn(GlCall) -> u32,
    H: Fn(EglCall) -> Result<usize, EglError>,
    P: Fn(PaintCall) -> u64,
> CanvasManager<F, H, P> {
    /// Give a canvas another size, in pixels. A side that is not named keeps its length.
    ///
    /// Only the drawing buffer of a canvas on the window changes; its surface follows the
    /// window. A size that content gives the onscreen canvas is recorded as its own, also
    /// where the canvas has it already.
    pub fn resize_canvas(
        &mut self,
        id: u32,
        w: Option<u32>,
        h: Option<u32>,
        owner: BackingSizeOwner,
    ) -> (result: Result<(), CanvasError>)
        requires
            old(self).wf(),
        ensures
            final(self).wf(),
            resize_outcome(old(self)@, final(self)@, id, w, h, owner, result),
            result is Ok && final(self)@.canvases[id].kind == SurfaceKind::Pbuffer && asked_size(
                old(self)@.canvases[id],
                w,
                h,
            ) != base_size(old(self)@.canvases[id]) ==> (final(
                self)@.canvases[id].ctx.surf matches Some(s) ==> pbuffer_made(
                old(self).display(),
                s,
                asked_size(old(self)@.canvases[id], w, h),
            )),
    {
        let entry = match self.canvas(id) {
            None => {
                return Err(CanvasError::NotFound);
            },
            Some(entry) => entry,
        };
        let (old_w, old_h) = match (entry.kind, entry.drawing_buffer) {
            (SurfaceKind::Window, Some(db)) => (db.width, db.height),
            _ => (entry.physical_width, entry.physical_height),
        };
        let width: u32 = match w {
            Some(w) => w,
            None => old_w,
        };
        let height: u32 = match h {
            Some(h) => h,
            None => old_h,
        };
        let size = Extent { width, height };
        assert(size == asked_size(entry, w, h));
        if !self.within_pixel_cap(width, height) {
            return Err(CanvasError::TooLarge);
        }
        if owner == BackingSizeOwner::Content && entry.kind == SurfaceKind::Window {
            let window = self.window();
            self.set_window(Window { content_backing: Some(size), ..window });
        }
        if width == old_w && height == old_h {
            return Ok(());
        }
        match entry.kind {
            SurfaceKind::Window => self.resize_window(id, size),
            SurfaceKind::Pbuffer => self.resize_pbuffer(id, size),
        }
    }

    /// Give a canvas the size that follows from its surface. What its 2D context paints with
    /// is read before and adopted again behind it.
    pub fn resize_canvas_for_surface_change(&mut self, id: u32, width: u32, height: u32) -> (result:
        Result<(), CanvasError>)
        requires
            old(self).wf(),
        ensures
            final(self).wf(),
            !old(self)@.canvases.dom().contains(id) ==> result == Err::<(), CanvasError>(
                CanvasError::NotFound,
            ),
            old(self)@.canvases.dom().contains(id) ==> {
                let entry = old(self)@.canvases[id];
                let size = Extent { width, height };
                &&& only_size_moved(old(self)@, final(self)@, id)
                &&& !fits_cap(old(self)@, width, height) ==> result == Err::<(), CanvasError>(
                    CanvasError::TooLarge,
                )
                &&& fits_cap(old(self)@, width, height) && size == base_size(entry) ==> result is Ok
                    && crate::painting::canvases_stay(old(self)@.canvases, final(self)@.canvases)
                    && final(self)@.contexts == old(self)@.contexts
                &&& fits_cap(old(self)@, width, height) && size != base_size(entry) && result is Ok
                    ==> resized(old(self)@, final(self)@, id, size)
                &&& result is Ok && old(self)@.contexts.dom().contains(id) && final(
                    self)@.paint.truthful ==> state_kept(old(self)@, final(self)@, id)
                &&& result is Ok ==> final(self)@.contexts.dom() == old(self)@.contexts.dom()
                &&& result matches Err(e) ==> (e is DrawingBuffer && buffer_refused(
                    old(self)@,
                    final(self)@,
                )) || (e is TooLarge && !fits_cap(
                    old(self)@,
                    width,
                    height,
                )) || crate::manager::refusals(final(self)@) > crate::manager::refusals(old(self)@)
            },
    {
        let state = self.drawing_state(id);
        if let Err(e) = self.resize_canvas(
            id,
            Some(width),
            Some(height),
            BackingSizeOwner::Engine,
        ) {
            return Err(e);
        }
        if let Some(state) = state {
            let _ = self.issue_paint(PaintCall::Adopt { canvas: id, state });
        }
        Ok(())
    }
}

/// Everything is as it was but what is current and 2D contexts.
pub open spec fn only_2d_went(before: Mgr, after: Mgr) -> bool {
    &&& crate::manager::same_session(before, after)
    &&& crate::manager::same_frames(before, after)
    &&& after.gl == before.gl
    &&& after.canvases == before.canvases
    &&& after.dirty == before.dirty
    &&& after.shadows == before.shadows
    &&& after.debt == before.debt
    &&& after.copy_fbos == before.copy_fbos
    &&& after.snapshots == before.snapshots
    &&& after.uploads == before.uploads
}

/// Everything is as it was but one canvas, which is gone, and what follows from that.
pub open spec fn only_canvas_went(before: Mgr, after: Mgr, id: u32) -> bool {
    &&& after.cfg == before.cfg
    &&& after.root == before.root
    &&& after.flags == before.flags
    &&& after.window == before.window
    &&& after.pending == before.pending
    &&& after.preserved == before.preserved
    &&& after.next_canvas_id == before.next_canvas_id
    &&& after.debt == before.debt
    &&& after.snapshots == before.snapshots
    &&& after.uploads == before.uploads
    &&& after.swap_interval == before.swap_interval
    &&& after.swap_damage_rejected == before.swap_damage_rejected
    &&& after.adrift == before.adrift
    &&& same_display(before.egl, after.egl)
    &&& after.contexts == before.contexts.remove(id)
    &&& after.paint.truthful == before.paint.truthful
    &&& after.paint.alive == (if before.contexts.dom().contains(id) {
        before.paint.alive.remove(id)
    } else {
        before.paint.alive
    })
    &&& images_forgotten(before, after, id)
    &&& after.dirty.to_set() == before.dirty.to_set().remove(id)
    &&& after.shadows == before.shadows.remove(id)
    &&& after.copy_fbos == before.copy_fbos.remove(id)
    &&& crate::painting::canvases_stay(before.canvases.remove(id), after.canvases)
    &&& crate::manager::grew(before, after)
}

/// The images of a canvas were forgotten, and those that its 2D context wrapped; the contexts
/// that are left have their shares of the cache.
pub open spec fn images_forgotten(before: Mgr, after: Mgr, id: u32) -> bool {
    &&& after.paint.removed == before.paint.removed.push(id)
    &&& after.paint.rebalanced == before.paint.rebalanced + 1
    &&& after.paint.purged == (if before.contexts.dom().contains(id) {
        before.paint.purged.push(before.contexts[id].tag)
    } else {
        before.paint.purged
    })
}

/// A surface was destroyed, where there is one, or the driver refused.
pub open spec fn surface_tried(
    before: crate::egl_device::EglModel,
    after: crate::egl_device::EglModel,
    surf: Option<usize>,
) -> bool {
    match surf {
        None => after == before,
        Some(s) => {
            ||| after == crate::manager::surface_destroyed(before, s)
            ||| exists|e: EglError| after == #[trigger] crate::manager::surface_kept(before, s, e)
        },
    }
}

/// A context was destroyed, or the driver refused.
pub open spec fn context_tried(
    before: crate::egl_device::EglModel,
    after: crate::egl_device::EglModel,
    context: usize,
) -> bool {
    ||| after == crate::manager::context_destroyed(before, context)
    ||| exists|e: EglError|
        after == #[trigger] crate::egl_device::refusal(
            before,
            EglCall::DestroyContext { context },
            e,
        )
}

/// A surface was tried to be destroyed, and then its context.
pub open spec fn discarded(
    before: crate::egl_device::EglModel,
    after: crate::egl_device::EglModel,
    handle: EglContextHandle,
) -> bool {
    exists|mid: crate::egl_device::EglModel| #[trigger]
        surface_tried(before, mid, handle.surf) && context_tried(mid, after, handle.ctx)
}

/// A context that was tried to be destroyed was unmade, as far as the driver agreed.
pub proof fn lemma_context_tried(
    before: crate::egl_device::EglModel,
    after: crate::egl_device::EglModel,
    context: usize,
)
    requires
        context_tried(before, after, context),
    ensures
        crate::egl_device::remembers(before, after),
        crate::egl_device::context_unmade(before, after, context),
{
    if after == crate::manager::context_destroyed(before, context) {
        assert(after.steps[before.steps.len() as int] == after.steps.last());
    } else {
        assert(after.refused[before.refused.len() as int] == after.refused.last());
    }
}

/// A pair that was discarded was unmade, as far as the driver agreed.
proof fn lemma_discarded(
    before: crate::egl_device::EglModel,
    mid: crate::egl_device::EglModel,
    after: crate::egl_device::EglModel,
    handle: EglContextHandle,
)
    requires
        surface_tried(before, mid, handle.surf),
        context_tried(mid, after, handle.ctx),
    ensures
        crate::egl_device::remembers(before, mid),
        crate::egl_device::remembers(mid, after),
        crate::egl_device::pair_unmade(before, after, handle),
{
    if handle.surf is Some {
        let s = handle.surf->0;
        if mid == crate::manager::surface_destroyed(before, s) {
            assert(after.steps[before.steps.len() as int] == mid.steps.last());
        } else {
            assert(after.refused[before.refused.len() as int] == mid.refused.last());
        }
    }
    lemma_context_tried(mid, after, handle.ctx);
    crate::egl_device::lemma_unmade_within(
        before,
        mid,
        after,
        after,
        EglContextHandle { ctx: handle.ctx, surf: None },
    );
}

impl<
    F: Fn(GlCall) -> u32,
    H: Fn(EglCall) -> Result<usize, EglError>,
    P: Fn(PaintCall) -> u64,
> CanvasManager<F, H, P> {
    /// Delete textures and renderbuffers that nothing refers to any more.
    pub(crate) fn delete_objects(&mut self, textures: &Vec<u32>, renderbuffers: &Vec<u32>)
        requires
            old(self).wf(),
        ensures
            final(self).wf(),
            final(self)@ == (Mgr { gl: final(self)@.gl, ..old(self)@ }),
            final(self)@.gl == (crate::gl_device::GlModel {
                textures: old(self)@.gl.textures.difference(textures@.to_set()),
                renderbuffers: old(self)@.gl.renderbuffers.difference(renderbuffers@.to_set()),
                ..old(self)@.gl
            }),
    {
        let mut i: usize = 0;
        assert(self@.gl.textures =~= old(self)@.gl.textures.difference(
            textures@.take(0).to_set(),
        ));
        while i < textures.len()
            invariant
                i <= textures@.len(),
                self.wf(),
                self@ == (Mgr { gl: self@.gl, ..old(self)@ }),
                self@.gl == (crate::gl_device::GlModel {
                    textures: old(self)@.gl.textures.difference(
                        textures@.take(i as int).to_set(),
                    ),
                    ..old(self)@.gl
                }),
            decreases textures@.len() - i,
        {
            let _ = self.issue_gl(GlCall::DeleteTexture { name: textures[i] });
            proof {
                lemma_one_more(textures@, i as int);
                assert(self@.gl.textures =~= old(self)@.gl.textures.difference(
                    textures@.take(i + 1).to_set(),
                ));
            }
            i = i + 1;
        }
        assert(textures@.take(i as int) =~= textures@);
        let ghost cleared = self@;
        let mut k: usize = 0;
        assert(self@.gl.renderbuffers =~= cleared.gl.renderbuffers.difference(
            renderbuffers@.take(0).to_set(),
        ));
        while k < renderbuffers.len()
            invariant
                k <= renderbuffers@.len(),
                self.wf(),
                self@ == (Mgr { gl: self@.gl, ..cleared }),
                self@.gl == (crate::gl_device::GlModel {
                    renderbuffers: cleared.gl.renderbuffers.difference(
                        renderbuffers@.take(k as int).to_set(),
                    ),
                    ..cleared.gl
                }),
            decreases renderbuffers@.len() - k,
        {
            let _ = self.issue_gl(GlCall::DeleteRenderbuffer { name: renderbuffers[k] });
            proof {
                lemma_one_more(renderbuffers@, k as int);
                assert(self@.gl.renderbuffers =~= cleared.gl.renderbuffers.difference(
                    renderbuffers@.take(k + 1).to_set(),
                ));
            }
            k = k + 1;
        }
        assert(renderbuffers@.take(k as int) =~= renderbuffers@);
    }

    /// Destroy a context and its surface, as far as the driver agrees: both are tried,
    /// whatever becomes of the first.
    pub(crate) fn discard(&mut self, handle: EglContextHandle)
        requires
            old(self).wf(),
        ensures
            final(self).wf(),
            crate::egl_device::remembers(old(self)@.egl, final(self)@.egl),
            final(self)@ == (Mgr { egl: final(self)@.egl, ..old(self)@ }),
            same_display(old(self)@.egl, final(self)@.egl),
            windows_stay(old(self)@.egl, final(self)@.egl, handle.surf),
            discarded(old(self)@.egl, final(self)@.egl, handle),
            crate::egl_device::pair_unmade(old(self)@.egl, final(self)@.egl, handle),
    {
        if let Some(surf) = handle.surf {
            let _ = self.destroy_surface(surf);
        }
        let ghost mid = self@.egl;
        assert(surface_tried(old(self)@.egl, mid, handle.surf));
        let _ = self.destroy_context(handle.ctx);
        proof {
            lemma_discarded(old(self)@.egl, mid, self@.egl, handle);
        }
    }

    /// Drop a canvas's 2D context under its own context, where that can still be made
    /// current; the root is current then.
    fn leave_2d(&mut self, entry: CanvasEntry) -> (tag: Option<u64>)
        requires
            old(self).wf(),
        ensures
            final(self).wf(),
            only_2d_went(old(self)@, final(self)@),
            final(self)@.contexts == old(self)@.contexts.remove(entry.info.id),
            tag == (if old(self)@.contexts.dom().contains(entry.info.id) {
                Some(old(self)@.contexts[entry.info.id].tag)
            } else {
                None
            }),
            final(self)@.paint.purged == old(self)@.paint.purged,
            final(self)@.paint.removed == old(self)@.paint.removed,
            final(self)@.paint.rebalanced == old(self)@.paint.rebalanced,
            final(self)@.paint.truthful == old(self)@.paint.truthful,
            final(self)@.paint.alive == (if tag is Some {
                old(self)@.paint.alive.remove(entry.info.id)
            } else {
                old(self)@.paint.alive
            }),
            same_display(old(self)@.egl, final(self)@.egl),
            final(self)@.egl.windows == old(self)@.egl.windows,
            crate::manager::grew(old(self)@, final(self)@),
            final(self)@.adrift == old(self)@.adrift,
            final(self)@.dropped == old(self)@.dropped || final(self)@.dropped == old(
                self)@.dropped.push((entry.info.id, Some(entry.ctx.ctx))),
    {
        let id: u32 = entry.info.id;
        let current: bool = match self.activate(entry.ctx, BoundContext::Canvas(id)) {
            Ok(_) => true,
            Err(_) => false,
        };
        let tag = self.drop_2d_context(id, current);
        assert(self@.contexts =~= old(self)@.contexts.remove(id));
        if current {
            let _ = self.bind_resource();
        }
        tag
    }

    /// Destroy an offscreen canvas with all that it had: `textures` and `renderbuffers` are
    /// the names of the objects that its content made. The onscreen canvas is the engine's
    /// own to destroy; content that throws it away gives up what its 2D context would have
    /// been restored to.
    pub fn destroy_canvas(&mut self, id: u32, textures: &Vec<u32>, renderbuffers: &Vec<u32>) -> (result:
        Result<(), CanvasError>)
        requires
            old(self).wf(),
        ensures
            final(self).wf(),
            destroyed(old(self)@, final(self)@, id, textures@, renderbuffers@, result),
    {
        if id == ONSCREEN {
            let window = self.window();
            self.set_window(Window { restore_2d: None, ..window });
            return Err(CanvasError::Onscreen);
        }
        let saved = self.bound();
        if let Some(entry) = self.take_canvas(id) {
            let ghost taken = self@;
            self.retire_canvas(entry, textures, renderbuffers);
            assert(taken.canvases.remove(id) =~= taken.canvases);
            let ghost retired = self@;
            let _ = self.go_back(saved);
            proof {
                crate::egl_device::lemma_unmade_within(
                    old(self)@.egl,
                    taken.egl,
                    retired.egl,
                    self@.egl,
                    entry.ctx,
                );
            }
            self.evaluate_bypass();
            return Ok(());
        }
        assert(self@.canvases =~= old(self)@.canvases);
        self.evaluate_bypass();
        Ok(())
    }

    /// Take down what a canvas that is off the books has, and delete its objects.
    fn retire_canvas(
        &mut self,
        entry: CanvasEntry,
        textures: &Vec<u32>,
        renderbuffers: &Vec<u32>,
    )
        requires
            old(self).wf(),
            !old(self)@.canvases.dom().contains(entry.info.id),
        ensures
            final(self).wf(),
            only_canvas_went(old(self)@, final(self)@, entry.info.id),
            windows_stay(old(self)@.egl, final(self)@.egl, entry.ctx.surf),
            crate::egl_device::pair_unmade(old(self)@.egl, final(self)@.egl, entry.ctx),
            final(self)@.dropped == old(self)@.dropped || final(self)@.dropped == old(
                self)@.dropped.push((entry.info.id, Some(entry.ctx.ctx))),
            final(self)@.gl.textures == old(self)@.gl.textures.difference(textures@.to_set()),
            final(self)@.gl.renderbuffers == old(self)@.gl.renderbuffers.difference(
                renderbuffers@.to_set(),
            ),
            old(self)@.copy_fbos.dom().contains(entry.info.id) ==> !final(
                self)@.gl.framebuffers.contains(old(self)@.copy_fbos[entry.info.id]),
    {
        let tag = self.leave_2d(entry);
        let ghost left = self@;
        self.discard(entry.ctx);
        proof {
            crate::egl_device::lemma_unmade_within(
                old(self)@.egl,
                left.egl,
                self@.egl,
                self@.egl,
                entry.ctx,
            );
        }
        self.forget_canvas(entry.info.id, tag, textures, renderbuffers);
        assert(old(self)@.canvases.remove(entry.info.id) =~= old(self)@.canvases);
    }

    /// Forget what is kept of a canvas that is gone, and delete its objects.
    fn forget_canvas(
        &mut self,
        id: u32,
        tag: Option<u64>,
        textures: &Vec<u32>,
        renderbuffers: &Vec<u32>,
    )
        requires
            old(self).wf(),
        ensures
            final(self).wf(),
            crate::manager::same_session(old(self)@, final(self)@),
            crate::manager::same_frames(old(self)@, final(self)@),
            final(self)@.canvases == old(self)@.canvases,
            final(self)@.bound == old(self)@.bound,
            final(self)@.egl == old(self)@.egl,
            final(self)@.paint == (crate::painters::PaintModel {
                purged: match tag {
                    Some(tag) => old(self)@.paint.purged.push(tag),
                    None => old(self)@.paint.purged,
                },
                removed: old(self)@.paint.removed.push(id),
                rebalanced: old(self)@.paint.rebalanced + 1,
                ..old(self)@.paint
            }),
            final(self)@.dropped == old(self)@.dropped,
            final(self)@.adrift == old(self)@.adrift,
            final(self)@.contexts == old(self)@.contexts,
            final(self)@.debt == old(self)@.debt,
            final(self)@.snapshots == old(self)@.snapshots,
            final(self)@.uploads == old(self)@.uploads,
            final(self)@.shadows == old(self)@.shadows.remove(id),
            final(self)@.copy_fbos == old(self)@.copy_fbos.remove(id),
            final(self)@.dirty.to_set() == old(self)@.dirty.to_set().remove(id),
            final(self)@.gl.textures == old(self)@.gl.textures.difference(textures@.to_set()),
            final(self)@.gl.renderbuffers == old(self)@.gl.renderbuffers.difference(
                renderbuffers@.to_set(),
            ),
            final(self)@.gl.bindings == old(self)@.gl.bindings,
            final(self)@.gl.viewports == old(self)@.gl.viewports,
            old(self)@.copy_fbos.dom().contains(id) ==> !final(self)@.gl.framebuffers.contains(
                old(self)@.copy_fbos[id],
            ),
    {
        if let Some(tag) = tag {
            let _ = self.issue_paint(PaintCall::PurgeWrappers { tag });
        }
        let _ = self.issue_paint(PaintCall::Rebalance);
        self.clear_2d_dirty(id);
        self.drop_shadow(id);
        self.delete_objects(textures, renderbuffers);
        if let Some(fbo) = self.forget_copy_fbo(id) {
            let _ = self.issue_gl(GlCall::DeleteFramebuffer { name: fbo });
        }
        let _ = self.issue_paint(PaintCall::RemoveImages { canvas: id });
    }
}

proof fn lemma_one_more(names: Seq<u32>, i: int)
    requires
        0 <= i < names.len(),
    ensures
        names.take(i + 1).to_set() == names.take(i).to_set().insert(names[i]),
{
    let all = names.take(i + 1);
    let some = names.take(i);
    assert(all =~= some.push(names[i]));
    assert forall|x: u32| all.to_set().contains(x) == some.to_set().insert(names[i]).contains(
        x,
    ) by {
        if all.contains(x) && x != names[i] {
            let j = choose|j: int| 0 <= j < all.len() && all[j] == x;
            assert(some[j] == x);
        }
        if some.contains(x) {
            let j = choose|j: int| 0 <= j < some.len() && some[j] == x;
            assert(all[j] == x);
        }
        assert(all[i] == names[i]);
    }
    assert(all.to_set() =~= some.to_set().insert(names[i]));
}

/// A canvas that content gives another size than its window has is copied to the window, and
/// scaled to fill it; it never draws straight to the window, into a corner.
pub proof fn law_a_canvas_of_another_size_is_not_bypassed(
    before: Mgr,
    after: Mgr,
    w: Option<u32>,
    h: Option<u32>,
    owner: BackingSizeOwner,
)
    requires
        resize_outcome(before, after, ONSCREEN, w, h, owner, Ok(())),
        before.canvases.dom().contains(ONSCREEN),
        before.canvases[ONSCREEN].kind == SurfaceKind::Window,
        before.canvases[ONSCREEN].drawing_buffer is Some,
        asked_size(before.canvases[ONSCREEN], w, h) != base_size(before.canvases[ONSCREEN]),
        asked_size(before.canvases[ONSCREEN], w, h) != (Extent {
            width: before.canvases[ONSCREEN].physical_width,
            height: before.canvases[ONSCREEN].physical_height,
        }),
    ensures
        !after.canvases[ONSCREEN].bypass_drawing_buffer,
        after.gl.viewports.last() == (
            asked_size(before.canvases[ONSCREEN], w, h).width as i32,
            asked_size(before.canvases[ONSCREEN], w, h).height as i32,
        ),
{
    assert(after.canvases.dom().contains(ONSCREEN));
}

/// A 2D context that goes with its canvas and is not abandoned gives its objects back under
/// the canvas's own context. Under another it would delete objects that are not its own.
pub proof fn law_a_2d_context_goes_under_its_own_context(
    before: Mgr,
    after: Mgr,
    id: u32,
    textures: Seq<u32>,
    renderbuffers: Seq<u32>,
    i: int,
)
    requires
        destroyed(before, after, id, textures, renderbuffers, Ok(())),
        before.canvases.dom().contains(id),
        before.dropped.len() <= i < after.dropped.len(),
    ensures
        before.canvases.dom().contains(after.dropped[i].0),
        after.dropped[i].1 == Some(before.canvases[after.dropped[i].0].ctx.ctx),
{
}

/// A side that a resize does not name keeps its length, and one that it names gets that
/// length. On the window the canvas's drawing buffer has the size, offscreen its surface.
pub proof fn law_a_side_that_is_not_named_stays(
    before: Mgr,
    after: Mgr,
    id: u32,
    w: Option<u32>,
    h: Option<u32>,
    owner: BackingSizeOwner,
)
    requires
        resize_outcome(before, after, id, w, h, owner, Ok(())),
    ensures
        before.canvases[id].kind == SurfaceKind::Pbuffer ==> {
            &&& after.canvases[id].physical_width == match w {
                Some(asked) => asked,
                None => before.canvases[id].physical_width,
            }
            &&& after.canvases[id].physical_height == match h {
                Some(asked) => asked,
                None => before.canvases[id].physical_height,
            }
        },
        before.canvases[id].kind == SurfaceKind::Window ==> {
            &&& after.canvases[id].physical_width == before.canvases[id].physical_width
            &&& after.canvases[id].physical_height == before.canvases[id].physical_height
        },
        before.canvases[id].kind == SurfaceKind::Window
            && before.canvases[id].drawing_buffer is Some ==> {
            let from = before.canvases[id].drawing_buffer->0;
            let to = after.canvases[id].drawing_buffer->0;
            &&& after.canvases[id].drawing_buffer is Some
            &&& to.width == match w {
                Some(asked) => asked,
                None => from.width,
            }
            &&& to.height == match h {
                Some(asked) => asked,
                None => from.height,
            }
            &&& to.fbo == from.fbo && to.color_tex == from.color_tex && to.depth_stencil_rb
                == from.depth_stencil_rb
        },
        after.canvases[id].ctx.ctx == before.canvases[id].ctx.ctx,
        after.canvases[id].kind == before.canvases[id].kind,
{
}

/// A size that content gives the canvas on the window is content's own from then on; one that
/// the engine gives, or that an offscreen canvas gets, claims nothing.
pub proof fn law_content_claims_the_size_that_it_gives(
    before: Mgr,
    after: Mgr,
    id: u32,
    width: u32,
    height: u32,
    owner: BackingSizeOwner,
)
    requires
        resize_outcome(before, after, id, Some(width), Some(height), owner, Ok(())),
    ensures
        before.canvases[id].kind == SurfaceKind::Window && owner == BackingSizeOwner::Content
            ==> after.window.content_backing == Some(Extent { width, height }),
        before.canvases[id].kind == SurfaceKind::Pbuffer || owner == BackingSizeOwner::Engine
            ==> after.window.content_backing == before.window.content_backing,
{
}

/// A canvas never has more pixels than a surface may: one that would is refused, made or
/// resized, and nothing changes.
pub proof fn law_no_canvas_is_too_large(
    before: Mgr,
    after: Mgr,
    id: u32,
    width: u32,
    height: u32,
    owner: BackingSizeOwner,
    result: Result<(), CanvasError>,
)
    requires
        width as nat * height as nat > before.cfg.max_canvas_pixels,
    ensures
        resize_outcome(before, after, id, Some(width), Some(height), owner, result)
            ==> result is Err && after == before,
        registered(before, after, id, width, height, result) ==> after == before && (
        !before.canvases.dom().contains(id) ==> result == Err::<(), CanvasError>(
            CanvasError::TooLarge,
        )),
{
}

/// A canvas that is made has the size that was asked for, offscreen, under its identifier and
/// on a context that shares the root's objects; the canvases that were there stay.
pub proof fn law_a_new_canvas_has_its_size(
    before: Mgr,
    after: Mgr,
    id: u32,
    width: u32,
    height: u32,
    other: u32,
)
    requires
        registered(before, after, id, width, height, Ok(())),
        !before.canvases.dom().contains(id),
    ensures
        after.canvases.dom().contains(id),
        after.canvases[id].physical_width == width,
        after.canvases[id].physical_height == height,
        after.canvases[id].kind == SurfaceKind::Pbuffer,
        after.canvases[id].drawing_buffer is None,
        after.canvases[id].info.id == id,
        after.canvases[id].info.width == width,
        after.canvases[id].info.height == height,
        !after.canvases[id].info.is_onscreen,
        after.egl.steps.last() == (crate::egl_device::Step::ContextMade {
            call: EglCall::CreateContext {
                share: Some(before.root.ctx),
                gles_major: before.cfg.gles_major,
                robust: before.cfg.has_robust_context,
            },
            context: after.canvases[id].ctx.ctx,
        }),
        other != id ==> after.canvases.dom().contains(other) == before.canvases.dom().contains(
            other,
        ),
        before.canvases.dom().contains(other) ==> after.canvases[other].ctx
            == before.canvases[other].ctx,
{
    let ctx = choose|ctx: EglContextHandle|
        {
            let made = #[trigger] with_offscreen(before, id, width, height, ctx);
            &&& crate::binding::bypass_evaluated(made, after)
            &&& crate::binding::only_mode_moved(made, after)
        };
    let made = with_offscreen(before, id, width, height, ctx);
    assert(made.canvases.dom().contains(id));
    assert(after.canvases.dom().contains(id));
    if before.canvases.dom().contains(other) {
        assert(made.canvases.dom().contains(other));
        assert(after.canvases.dom().contains(other));
    }
}

/// Two canvases that are made one after the other have different identifiers.
pub proof fn law_identifiers_are_not_given_out_twice_in_a_row(
    before: Mgr,
    mid: Mgr,
    after: Mgr,
    a: u32,
    b: u32,
    size: Extent,
    next: Extent,
)
    requires
        created(before, mid, size.width, size.height, Ok(a)),
        created(mid, after, next.width, next.height, Ok(b)),
    ensures
        a == before.next_canvas_id,
        b != a,
        a < u32::MAX ==> b == a + 1,
{
}

/// Content sees a resize: a side that was named has the length asked for, and one that was
/// not named is seen as it was.
pub proof fn law_a_resize_is_seen<
    F: Fn(GlCall) -> u32,
    H: Fn(EglCall) -> Result<usize, EglError>,
    P: Fn(PaintCall) -> u64,
>(
    before: CanvasManager<F, H, P>,
    after: CanvasManager<F, H, P>,
    id: u32,
    w: Option<u32>,
    h: Option<u32>,
    owner: BackingSizeOwner,
    seen: Result<(u32, u32), CanvasError>,
    seen_after: Result<(u32, u32), CanvasError>,
)
    requires
        resize_outcome(before@, after@, id, w, h, owner, Ok(())),
        (before@.canvases[id].kind == SurfaceKind::Window) == (
        before@.canvases[id].drawing_buffer is Some),
        call_ensures(CanvasManager::<F, H, P>::get_canvas_size, (&before, id), seen),
        call_ensures(CanvasManager::<F, H, P>::get_canvas_size, (&after, id), seen_after),
    ensures
        seen is Ok,
        seen_after is Ok,
        seen_after->Ok_0.0 == match w {
            Some(asked) => asked,
            None => seen->Ok_0.0,
        },
        seen_after->Ok_0.1 == match h {
            Some(asked) => asked,
            None => seen->Ok_0.1,
        },
{
}

/// A resize that names no side, or the lengths that a canvas has, always succeeds and touches
/// no canvas.
pub proof fn law_a_canvas_that_has_its_size_is_left_alone(
    before: Mgr,
    after: Mgr,
    id: u32,
    owner: BackingSizeOwner,
    result: Result<(), CanvasError>,
)
    requires
        resize_outcome(before, after, id, None, None, owner, result),
        before.canvases.dom().contains(id),
        before.canvases[id].kind == SurfaceKind::Pbuffer,
        before.canvases[id].physical_width as nat * before.canvases[id].physical_height as nat
            <= before.cfg.max_canvas_pixels,
    ensures
        result is Ok,
        after == before,
{
}

/// On the window a resize leaves the viewport over the whole of the new size, and everything
/// to be presented anew.
pub proof fn law_a_resized_window_canvas_is_drawn_anew(
    before: Mgr,
    after: Mgr,
    width: u32,
    height: u32,
    owner: BackingSizeOwner,
)
    requires
        resize_outcome(before, after, ONSCREEN, Some(width), Some(height), owner, Ok(())),
        before.canvases[ONSCREEN].kind == SurfaceKind::Window,
        before.canvases[ONSCREEN].drawing_buffer matches Some(db) && (db.width != width || db.height
            != height),
    ensures
        after.shadows[ONSCREEN].viewport == Some((0i32, 0i32, width as i32, height as i32)),
        after.gl.viewports.last() == (width as i32, height as i32),
        after.damage.full,
        after.history.len() == 0,
        after.plan is None,
        (after.canvases[ONSCREEN].drawing_buffer->0).width == width,
        (after.canvases[ONSCREEN].drawing_buffer->0).height == height,
{
}

/// The canvas of the window is not destroyed on request, and no canvas goes for it. A canvas
/// that is destroyed is gone from the books, and no other is.
pub proof fn law_what_a_destroyed_canvas_takes_along(
    before: Mgr,
    after: Mgr,
    id: u32,
    other: u32,
    textures: Seq<u32>,
    renderbuffers: Seq<u32>,
    result: Result<(), CanvasError>,
)
    requires
        destroyed(before, after, id, textures, renderbuffers, result),
    ensures
        id == 1 ==> result == Err::<(), CanvasError>(CanvasError::Onscreen) && after.canvases
            == before.canvases && after.contexts == before.contexts,
        id != 1 ==> result is Ok,
        id != 1 ==> !after.canvases.dom().contains(id),
        other != id ==> after.canvases.dom().contains(other) == before.canvases.dom().contains(
            other,
        ),
{
    if id != ONSCREEN && !before.canvases.dom().contains(id) {
        assert(after.canvases.dom() == before.canvases.dom());
    }
}

/// What [`law_a_side_that_is_not_named_stays`] says holds of every successful resize.
pub proof fn law_every_resize_keeps_what_it_does_not_name<
    F: Fn(GlCall) -> u32,
    H: Fn(EglCall) -> Result<usize, EglError>,
    P: Fn(PaintCall) -> u64,
>(id: u32, w: Option<u32>, h: Option<u32>, owner: BackingSizeOwner)
    ensures
        forall|m: &mut CanvasManager<F, H, P>|
            #[trigger] call_ensures(
                CanvasManager::<F, H, P>::resize_canvas,
                (m, id, w, h, owner),
                Ok::<(), CanvasError>(()),
            ) && (*m)@.canvases[id].kind == SurfaceKind::Pbuffer ==> {
                let before = (*m)@.canvases[id];
                let after = (*final(m))@.canvases[id];
                &&& after.physical_width == match w {
                    Some(asked) => asked,
                    None => before.physical_width,
                }
                &&& after.physical_height == match h {
                    Some(asked) => asked,
                    None => before.physical_height,
                }
            },
        forall|m: &mut CanvasManager<F, H, P>|
            #[trigger] call_ensures(
                CanvasManager::<F, H, P>::resize_canvas,
                (m, id, w, h, owner),
                Ok::<(), CanvasError>(()),
            ) && (*m)@.canvases[id].kind == SurfaceKind::Window
                && (*m)@.canvases[id].drawing_buffer is Some ==> {
                let before = (*m)@.canvases[id].drawing_buffer->0;
                let after = (*final(m))@.canvases[id].drawing_buffer->0;
                &&& after.width == match w {
                    Some(asked) => asked,
                    None => before.width,
                }
                &&& after.height == match h {
                    Some(asked) => asked,
                    None => before.height,
                }
            },
{
}

/// A canvas may have a size exactly if it has no more pixels than a surface may.
pub proof fn law_how_large_a_canvas_may_be<
    F: Fn(GlCall) -> u32,
    H: Fn(EglCall) -> Result<usize, EglError>,
    P: Fn(PaintCall) -> u64,
>(m: CanvasManager<F, H, P>, width: u32, height: u32, within: bool)
    requires
        call_ensures(CanvasManager::<F, H, P>::within_pixel_cap, (&m, width, height), within),
    ensures
        within == (width as nat * height as nat <= m@.cfg.max_canvas_pixels),
{
}

/// A canvas's 2D context follows it to its new size, offscreen and on the window.
pub proof fn law_a_2d_context_follows_its_canvas(
    before: Mgr,
    after: Mgr,
    id: u32,
    width: u32,
    height: u32,
    owner: BackingSizeOwner,
)
    requires
        resize_outcome(before, after, id, Some(width), Some(height), owner, Ok(())),
        before.contexts.dom().contains(id),
        (before.canvases[id].kind == SurfaceKind::Window) == (
        before.canvases[id].drawing_buffer is Some),
        before.canvases[id].kind == SurfaceKind::Pbuffer ==> before.canvases[id].physical_width
            != width || before.canvases[id].physical_height != height,
        before.canvases[id].drawing_buffer matches Some(db) ==> db.width != width || db.height
            != height,
    ensures
        after.contexts.dom().contains(id),
        after.contexts[id].width == width,
        after.contexts[id].height == height,
        after.contexts[id].fbo == match before.canvases[id].drawing_buffer {
            Some(db) => db.fbo,
            None => 0u32,
        },
{
    assert(after.canvases.dom().contains(id));
}

/// A canvas that is destroyed takes its 2D context and the objects that its content made along,
/// and leaves those of others.
pub proof fn law_a_destroyed_canvas_leaves_no_objects(
    before: Mgr,
    after: Mgr,
    id: u32,
    textures: Seq<u32>,
    renderbuffers: Seq<u32>,
    name: u32,
    other: u32,
)
    requires
        destroyed(before, after, id, textures, renderbuffers, Ok(())),
        before.canvases.dom().contains(id),
    ensures
        !after.contexts.dom().contains(id),
        !after.shadows.dom().contains(id),
        !after.copy_fbos.dom().contains(id),
        textures.contains(name) ==> !after.gl.textures.contains(name),
        renderbuffers.contains(name) ==> !after.gl.renderbuffers.contains(name),
        other != id && before.contexts.dom().contains(other) ==> after.contexts[other]
            == before.contexts[other],
        after.snapshots == before.snapshots,
        after.uploads == before.uploads,
{
}

/// A canvas that is resized offscreen has a pbuffer of the new size.
pub proof fn law_a_resized_canvas_has_a_pbuffer_of_its_size<
    F: Fn(GlCall) -> u32,
    H: Fn(EglCall) -> Result<usize, EglError>,
    P: Fn(PaintCall) -> u64,
>(
    id: u32,
    width: u32,
    height: u32,
    owner: BackingSizeOwner,
)
    ensures
        forall|m: &mut CanvasManager<F, H, P>|
            #[trigger] call_ensures(
                CanvasManager::<F, H, P>::resize_canvas,
                (m, id, Some(width), Some(height), owner),
                Ok::<(), CanvasError>(()),
            ) && (*m)@.canvases[id].kind == SurfaceKind::Pbuffer
                && (*m)@.canvases[id].physical_width != width ==> {
                let after = (*final(m))@.canvases[id];
                after.ctx.surf matches Some(s) ==> call_ensures(
                    (*m).display(),
                    (EglCall::CreatePbufferSurface { width, height },),
                    Ok::<usize, EglError>(s),
                )
            },
{
}

/// A canvas that follows its surface has the size given, and claims nothing for content.
pub proof fn law_a_canvas_follows_its_surface<
    F: Fn(GlCall) -> u32,
    H: Fn(EglCall) -> Result<usize, EglError>,
    P: Fn(PaintCall) -> u64,
>(id: u32, width: u32, height: u32)
    ensures
        forall|m: &mut CanvasManager<F, H, P>|
            #[trigger] call_ensures(
                CanvasManager::<F, H, P>::resize_canvas_for_surface_change,
                (m, id, width, height),
                Ok::<(), CanvasError>(()),
            ) ==> {
                let before = (*m)@;
                let after = (*final(m))@;
                &&& before.canvases.dom().contains(id)
                &&& after.window == before.window
                &&& before.canvases[id].kind == SurfaceKind::Window ==> (
                before.canvases[id].drawing_buffer is Some ==> after.canvases[id].drawing_buffer is Some
                    && (after.canvases[id].drawing_buffer->0).width == width && (
                after.canvases[id].drawing_buffer->0).height == height)
                &&& before.canvases[id].kind == SurfaceKind::Pbuffer
                    ==> after.canvases[id].physical_width == width
                    && after.canvases[id].physical_height == height
            },
{
}

/// A canvas that is made has a pbuffer of its own size, unless the group goes without surfaces.
pub proof fn law_a_new_canvas_has_a_pbuffer_of_its_size(
    before: Mgr,
    after: Mgr,
    id: u32,
    width: u32,
    height: u32,
)
    requires
        registered(before, after, id, width, height, Ok(())),
        !before.canvases.dom().contains(id),
    ensures
        after.canvases[id].ctx.surf matches Some(s) ==> after.egl.surfaces.contains(s)
            && after.egl.sizes[s] == (width, height),
        after.egl.contexts.contains(after.canvases[id].ctx.ctx),
{
    let ctx = choose|ctx: EglContextHandle|
        {
            let made = #[trigger] with_offscreen(before, id, width, height, ctx);
            &&& crate::binding::bypass_evaluated(made, after)
            &&& crate::binding::only_mode_moved(made, after)
        };
    let made = with_offscreen(before, id, width, height, ctx);
    assert(made.canvases.dom().contains(id));
    assert(after.canvases.dom().contains(id));
}

/// A canvas that exists is left as it is by whoever would make it again, and one that does not
/// exist cannot be resized.
pub proof fn law_only_canvases_that_exist_are_resized(
    before: Mgr,
    after: Mgr,
    id: u32,
    w: Option<u32>,
    h: Option<u32>,
    size: Extent,
    owner: BackingSizeOwner,
    result: Result<(), CanvasError>,
)
    ensures
        before.canvases.dom().contains(id) && registered(
            before,
            after,
            id,
            size.width,
            size.height,
            result,
        ) ==> result is Ok && after == before,
        !before.canvases.dom().contains(id) && resize_outcome(before, after, id, w, h, owner, result)
            ==> result == Err::<(), CanvasError>(CanvasError::NotFound) && after == before,
        before.canvases.dom().contains(id) && resize_outcome(before, after, id, w, h, owner, result)
            ==> result != Err::<(), CanvasError>(CanvasError::NotFound) || crate::manager::refusals(
            after,
        ) > crate::manager::refusals(before),
{
}

/// A 2D context that is given another target paints there, at that size, and goes on with the
/// state that it had; no other context is touched.
pub proof fn law_a_retargeted_context_paints_elsewhere(
    before: Mgr,
    after: Mgr,
    id: u32,
    fbo: u32,
    width: u32,
    height: u32,
    other: u32,
)
    requires
        context_retargeted(before, after, id, fbo, width, height),
    ensures
        after.contexts[id].fbo == fbo,
        after.contexts[id].width == width,
        after.contexts[id].height == height,
        after.contexts[id].tag == before.contexts[id].tag,
        other != id ==> after.contexts.dom().contains(other) == before.contexts.dom().contains(
            other,
        ),
        other != id && before.contexts.dom().contains(other) ==> after.contexts[other]
            == before.contexts[other],
        before.paint.alive.dom().contains(id) ==> after.paint.alive.dom().contains(id)
            && after.paint.alive[id].state == before.paint.alive[id].state,
        other != id && before.paint.alive.dom().contains(other) ==> after.paint.alive[other]
            == before.paint.alive[other],
        after.paint.retargets.last().canvas == id,
        after.paint.retargets.last().fbo == fbo,
        after.paint.retargets.last().width == width,
        after.paint.retargets.last().height == height,
{
}

} // verus!
