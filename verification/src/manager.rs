//! What a session keeps: its canvases, the contexts they are drawn in, and the devices
//! that draw them.
use std::collections::HashMap;
use vstd::prelude::*;

use crate::damage::DamageEffect;
use crate::damage::RectList;
use crate::default_framebuffer::apply_default_framebuffer;
use crate::default_framebuffer::default_framebuffer_of;
use crate::default_framebuffer::reads_from_default_framebuffer;
use crate::drawing_buffer::DrawingBuffer;
use crate::drawing_buffer::DrawingBufferError;
use crate::egl_device::EglCall;
use crate::egl_device::EglContextHandle;
use crate::egl_device::EglRuntime;
use crate::egl_setup::EglError;
use crate::gl_device::Gl;
use crate::gl_device::GlCall;
use crate::gl_state::CanvasGLState;
use crate::paint_scope::begin_canvas2d_gl_scope;
use crate::paint_scope::end_canvas2d_gl_scope;
use crate::paint_scope::Canvas2DGlState;
use crate::painters::PaintCall;
use crate::painters::Painters;
use crate::pixel_ratio::PixelRatio;
use crate::present::BlitPlan;
use crate::present::PresentState;
use crate::snapshots::CopyFramebuffers;
use crate::snapshots::Admission;
use crate::snapshots::SnapshotDrain;
use crate::snapshots::SnapshotEntry;
use crate::snapshots::SnapshotError;
use crate::snapshots::SnapshotPool;
use crate::snapshots::SnapshotRequest;
use crate::snapshots::Source2d;
use crate::uploads::UploadLedger;
use crate::uploads::UploadServer;

verus! {

/// The canvas that shows on the window.
pub const ONSCREEN: u32 = 1;

/// What a canvas's surface is.
#[derive(Clone, Copy, Debug, PartialEq, Eq, Structural)]
pub enum SurfaceKind {
    Window,
    Pbuffer,
}

/// What content sees of a canvas.
#[derive(Clone, Copy, Debug, PartialEq, Eq, Structural)]
pub struct CanvasInfo {
    pub id: u32,
    pub width: u32,
    pub height: u32,
    pub is_onscreen: bool,
}

impl CanvasInfo {
    /// Width and height.
    pub fn size(&self) -> (size: (u32, u32))
        ensures
            size == (self.width, self.height),
    {
        (self.width, self.height)
    }
}

/// A canvas.
#[derive(Clone, Copy, Debug, PartialEq, Eq, Structural)]
pub struct CanvasEntry {
    pub info: CanvasInfo,
    pub kind: SurfaceKind,
    /// The size of its surface.
    pub physical_width: u32,
    pub physical_height: u32,
    pub ctx: EglContextHandle,
    pub drawing_buffer: Option<DrawingBuffer>,
    pub bypass_drawing_buffer: bool,
    /// The default framebuffer that its context has installed.
    pub applied_default_framebuffer: Option<u32>,
}

/// The framebuffer that is a canvas's default one.
pub open spec fn default_fbo(entry: CanvasEntry) -> Option<u32> {
    crate::default_framebuffer::default_of(
        entry.bypass_drawing_buffer,
        match entry.drawing_buffer {
            Some(db) => Some(db.fbo),
            None => None,
        },
    )
}

/// The size of a canvas, as content sees it.
pub open spec fn buffer_size(entry: CanvasEntry) -> (u32, u32) {
    match entry.drawing_buffer {
        Some(db) => (db.width, db.height),
        None => (entry.physical_width, entry.physical_height),
    }
}

/// The context that is current.
#[derive(Clone, Copy, Debug, PartialEq, Eq, Structural)]
pub enum BoundContext {
    /// The root of the share group.
    Resource,
    /// A canvas's own.
    Canvas(u32),
    /// The one that 2D canvases share, serving one of them.
    Shared2D(u32),
}

/// A 2D context.
#[derive(Clone, Copy, Debug, PartialEq, Eq, Structural)]
pub struct Context2d {
    pub tag: u64,
    pub fbo: u32,
    pub width: u32,
    pub height: u32,
}

/// The context that 2D canvases share.
#[derive(Clone, Copy, Debug, PartialEq, Eq, Structural)]
pub struct Shared2d {
    pub egl: EglContextHandle,
    pub tag: u64,
}

/// A window surface that is not yet a canvas's, with the context and the drawing buffer
/// that it will have.
#[derive(Clone, Copy, Debug, PartialEq, Eq, Structural)]
pub struct PendingOnscreen {
    pub target: u64,
    pub surface: usize,
    pub context: Option<usize>,
    pub drawing_buffer: Option<DrawingBuffer>,
}

/// A size in pixels.
#[derive(Clone, Copy, Debug, PartialEq, Eq, Structural)]
pub struct Extent {
    pub width: u32,
    pub height: u32,
}

/// What a session's device can do.
#[derive(Clone, Copy, Debug, PartialEq, Eq, Structural)]
pub struct Config {
    /// Offscreen contexts need no surface.
    pub surfaceless: bool,
    pub gles_major: u32,
    pub has_robust_context: bool,
    /// The driver tells whether a context was reset.
    pub reports_resets: bool,
    /// The age of a window's back buffer can be asked for.
    pub has_buffer_age: bool,
    /// An aged back buffer keeps its contents whether or not damage was declared.
    pub has_ext_buffer_age: bool,
    /// What is going to be drawn can be declared.
    pub declares_damage: bool,
    /// A swap can tell the compositor what has changed.
    pub submits_damage: bool,
    /// The window has one sample per pixel.
    pub single_sample: bool,
    /// Offscreen 2D canvases share one context.
    pub share_2d: bool,
    /// Textures are uploaded on a thread of their own.
    pub uploads_async: bool,
    /// The most pixels that a canvas may have.
    pub max_canvas_pixels: u64,
}

/// What has come to pass in a session.
#[derive(Clone, Copy, Debug, PartialEq, Eq, Structural)]
pub struct Flags {
    /// Content has read its default framebuffer back.
    pub needs_default_fbo_readback: bool,
    pub context_lost: bool,
    pub surface_unavailable: bool,
    /// The window was taken away: the next install starts over.
    pub force_onscreen_recreate: bool,
    /// A reset was asked for, to try what follows from one.
    pub simulated_reset: bool,
    pub teardown_complete: bool,
    pub native_release_confirmed: bool,
}

/// The window that a session shows on.
#[derive(Clone, Copy, Debug, PartialEq, Eq, Structural)]
pub struct Window {
    /// The native target that is installed.
    pub installed: Option<u64>,
    pub frame_rate: u32,
    /// The ratio of the surface's pixels to content's own.
    pub pixel_ratio: PixelRatio,
    /// What the onscreen canvas painted with when its 2D context was taken down.
    pub restore_2d: Option<u64>,
    /// The size that content gave the onscreen canvas.
    pub content_backing: Option<Extent>,
}

/// The onscreen context and drawing buffer of a window that went away.
#[derive(Clone, Copy, Debug, PartialEq, Eq, Structural)]
pub struct Preserved {
    pub ctx: Option<usize>,
    pub db: Option<DrawingBuffer>,
}

/// An offscreen canvas that has to be made again.
#[derive(Clone, Copy, Debug, PartialEq, Eq, Structural)]
pub struct OffscreenRestore {
    pub id: u32,
    pub width: u32,
    pub height: u32,
    /// What its 2D context painted with, where it had one.
    pub state_2d: Option<u64>,
}

/// The canvases that a lost share group took with it.
pub struct ShareGroupRestorePlan {
    pub onscreen_2d: Option<u64>,
    /// In the order of their identifiers.
    pub offscreen: Vec<OffscreenRestore>,
}

/// A restore plan.
pub struct Debt {
    pub onscreen_2d: Option<u64>,
    pub offscreen: Seq<OffscreenRestore>,
}

impl View for ShareGroupRestorePlan {
    type V = Debt;

    open spec fn view(&self) -> Debt {
        Debt { onscreen_2d: self.onscreen_2d, offscreen: self.offscreen@ }
    }
}

/// Offscreen canvases in the order of their identifiers, each once.
pub open spec fn in_order(specs: Seq<OffscreenRestore>) -> bool {
    &&& forall|i: int, j: int| 0 <= i < j < specs.len() ==> specs[i].id < specs[j].id
    &&& forall|i: int| 0 <= i < specs.len() ==> (#[trigger] specs[i]).id != ONSCREEN
}

/// Everything that a session keeps.
pub struct CanvasManager<F, H, P> {
    gl: Gl<F>,
    egl: EglRuntime<H>,
    paint: Painters<P>,
    cfg: Config,
    bound: BoundContext,
    root: EglContextHandle,
    shared_2d: Option<Shared2d>,
    flags: Flags,
    window: Window,
    pending: Option<PendingOnscreen>,
    preserved: Preserved,
    next_canvas_id: u32,
    canvases: HashMap<u32, CanvasEntry>,
    contexts_2d: HashMap<u32, Context2d>,
    /// Canvases whose 2D context has recorded something, each once.
    dirty_2d: Vec<u32>,
    gl_state: HashMap<u32, CanvasGLState>,
    present: PresentState,
    restore: Option<ShareGroupRestorePlan>,
    copy_fbos: CopyFramebuffers,
    snapshots: SnapshotPool,
    uploads: UploadLedger,
    tried: Ghost<Seq<Inventory>>,
    dropped: Ghost<Seq<(u32, Option<usize>)>>,
    adrift: Ghost<nat>,
    unbuffered: Ghost<Seq<(u32, Option<usize>)>>,
}

/// What a session keeps.
pub struct Mgr {
    pub gl: crate::gl_device::GlModel,
    pub egl: crate::egl_device::EglModel,
    pub paint: crate::painters::PaintModel,
    pub cfg: Config,
    /// What is current.
    pub bound: BoundContext,
    /// The root of the share group.
    pub root: EglContextHandle,
    pub shared_2d: Option<Shared2d>,
    pub flags: Flags,
    pub window: Window,
    pub pending: Option<PendingOnscreen>,
    pub preserved: Preserved,
    pub next_canvas_id: u32,
    pub canvases: Map<u32, CanvasEntry>,
    pub contexts: Map<u32, Context2d>,
    pub dirty: Seq<u32>,
    pub shadows: Map<u32, CanvasGLState>,
    pub damage: crate::damage::FrameDamage,
    pub history: Seq<crate::present::Region>,
    /// The plan that awaits its swap, with its canvas.
    pub plan: Option<(u32, crate::present::Plan)>,
    pub swap_interval: i32,
    pub swap_damage_rejected: bool,
    pub debt: Option<Debt>,
    pub copy_fbos: Map<u32, u32>,
    pub snapshots: crate::snapshots::Pool,
    pub uploads: crate::uploads::Ledger,
    /// What was there each time a context was tried by drawing.
    pub tried: Seq<Inventory>,
    /// The canvases whose 2D contexts were dropped without being abandoned, in order, each
    /// with the context that was current then.
    pub dropped: Seq<(u32, Option<usize>)>,
    /// How often a program, a shader or a buffer was deleted while neither a canvas was
    /// served nor the root current.
    pub adrift: nat,
    /// The framebuffers of the drawing buffers that were deleted, in order, each with the
    /// context that was current then.
    pub unbuffered: Seq<(u32, Option<usize>)>,
}

/// What is there of a session: its canvases, the contexts of the display and the 2D contexts.
pub struct Inventory {
    pub canvases: Set<u32>,
    pub contexts: Set<usize>,
    pub painters: Map<u32, crate::painters::Painter>,
}

/// What is there of a session.
pub open spec fn inventory(m: Mgr) -> Inventory {
    Inventory {
        canvases: m.canvases.dom(),
        contexts: m.egl.contexts,
        painters: m.paint.alive,
    }
}

/// The context that is current.
pub open spec fn current_context(m: Mgr) -> Option<usize> {
    match m.egl.ledger.current {
        Some(binding) => Some(binding.context),
        None => None,
    }
}

/// A context is there to delete objects with: a canvas is served, or the root is current.
pub open spec fn afloat(m: Mgr) -> bool {
    crate::binding::serving(m.bound) is Some || current_context(m) == Some(m.root.ctx)
}

/// The deletions without a context to delete with, once a call was made.
pub open spec fn adrift_after(m: Mgr, call: GlCall) -> nat {
    if (call is DeleteCode || call is DeleteBuffer) && !afloat(m) {
        m.adrift + 1
    } else {
        m.adrift
    }
}

/// The 2D contexts that were dropped without being abandoned, once a call was made.
pub open spec fn dropped_after(m: Mgr, call: PaintCall) -> Seq<(u32, Option<usize>)> {
    match call {
        PaintCall::Drop { canvas, abandon: false } => m.dropped.push((canvas, current_context(m))),
        _ => m.dropped,
    }
}

/// Every 2D context that was dropped since an earlier state without being abandoned was
/// dropped under its canvas's own context.
pub open spec fn dropped_in_place(before: Mgr, after: Mgr) -> bool {
    &&& before.dropped.len() <= after.dropped.len()
    &&& forall|i: int|
        0 <= i < before.dropped.len() ==> #[trigger] after.dropped[i] == before.dropped[i]
    &&& forall|i: int|
        before.dropped.len() <= i < after.dropped.len() ==> {
            let (id, context) = #[trigger] after.dropped[i];
            before.canvases.dom().contains(id) && context == Some(before.canvases[id].ctx.ctx)
        }
}

/// What was there each time a context was tried, once a call was made.
pub open spec fn tried_after(m: Mgr, call: GlCall) -> Seq<Inventory> {
    if call is ClearProbe {
        m.tried.push(inventory(m))
    } else {
        m.tried
    }
}

/// Why a canvas cannot be made current, made or changed.
#[derive(Clone, Copy, Debug, PartialEq, Eq, Structural)]
pub enum CanvasError {
    NotFound,
    /// The driver refused.
    Egl(EglError),
    /// The context that 2D canvases share could not be made.
    Group,
    /// A 2D context could not be made.
    Paint,
    /// The canvas would have more pixels than a surface may.
    TooLarge,
    /// The drawing buffer could not be given its new size.
    DrawingBuffer,
    /// The onscreen canvas cannot be destroyed by content.
    Onscreen,
    /// A native target is still referenced.
    Retained,
    /// The installed target has no canvas.
    Orphaned,
    /// The onscreen canvas has no native target.
    Untargeted,
    /// The default framebuffer could not be copied for reading.
    Snapshot,
}

/// The canvas's 2D surface is on the shared context.
pub open spec fn uses_shared(m: Mgr, id: u32) -> bool {
    m.shared_2d matches Some(shared) && m.contexts.dom().contains(id) && m.contexts[id].tag
        == shared.tag
}

/// The display after a handle was made current, with its surface in both places.
pub open spec fn current_with(
    m: crate::egl_device::EglModel,
    handle: EglContextHandle,
) -> crate::egl_device::EglModel {
    crate::egl_device::EglModel {
        ledger: crate::surface_ledger::after_make_current(
            handle.surf,
            handle.surf,
            Some(handle.ctx),
        ),
        ..m
    }
}

/// The session with a context current and recorded.
pub open spec fn activated(m: Mgr, handle: EglContextHandle, bound: BoundContext) -> Mgr {
    Mgr { egl: current_with(m.egl, handle), bound, ..m }
}

/// The call that makes a context current with its surface.
pub open spec fn current_call(handle: EglContextHandle) -> EglCall {
    EglCall::MakeCurrent { draw: handle.surf, read: handle.surf, context: Some(handle.ctx) }
}

/// The session after the driver refused a call.
pub open spec fn refused(m: Mgr, call: EglCall, e: EglError) -> Mgr {
    Mgr { egl: crate::egl_device::refusal(m.egl, call, e), ..m }
}

/// A creation failed with `e`: no surface is left of it, and a context at most where the
/// driver refused to destroy it.
pub open spec fn creation_failed(
    before: crate::egl_device::EglModel,
    after: crate::egl_device::EglModel,
    e: EglError,
) -> bool {
    &&& after.surfaces == before.surfaces
    &&& after.windows == before.windows
    &&& after.root == before.root
    &&& after.up == before.up
    &&& after.reported == before.reported
    &&& after.rate_requests == before.rate_requests
    &&& after.reconfigured == before.reconfigured
    &&& after.surfaces_gone == before.surfaces_gone
    &&& after.uploads == before.uploads
    &&& after.terminated == before.terminated
    &&& crate::egl_device::contexts_settled(before, after)
    &&& crate::egl_device::remembers(before, after)
    &&& after.refused.len() > before.refused.len()
    &&& after.refused[before.refused.len() as int].1 == e
}

/// Only framebuffer bindings moved.
pub open spec fn only_framebuffers_moved(
    before: crate::gl_device::GlModel,
    after: crate::gl_device::GlModel,
) -> bool {
    &&& after == (crate::gl_device::GlModel {
        bindings: crate::gl_device::Bindings {
            read_framebuffer: after.bindings.read_framebuffer,
            draw_framebuffer: after.bindings.draw_framebuffer,
            ..before.bindings
        },
        binds: after.binds,
        truthful: after.truthful,
        ..before
    })
    &&& after.truthful ==> before.truthful
}

/// The default framebuffer of a canvas was installed, where its context is current.
pub open spec fn mapping_applied(before: Mgr, after: Mgr, id: u32) -> bool {
    if !before.canvases.dom().contains(id) || before.bound != BoundContext::Canvas(id) {
        after == before
    } else {
        let entry = before.canvases[id];
        let desired = default_fbo(entry);
        &&& after == (Mgr {
            canvases: before.canvases.insert(
                id,
                CanvasEntry { applied_default_framebuffer: desired, ..entry },
            ),
            gl: after.gl,
            ..before
        })
        &&& only_framebuffers_moved(before.gl, after.gl)
        &&& entry.applied_default_framebuffer == desired ==> after.gl == before.gl
        &&& after.gl.truthful && entry.applied_default_framebuffer != desired ==> {
            &&& after.gl.bindings.read_framebuffer == crate::default_framebuffer::remapped(
                before.gl.bindings.read_framebuffer,
                entry.applied_default_framebuffer,
                desired,
            )
            &&& after.gl.bindings.draw_framebuffer == crate::default_framebuffer::remapped(
                before.gl.bindings.draw_framebuffer,
                entry.applied_default_framebuffer,
                desired,
            )
        }
    }
}

impl<
    F: Fn(GlCall) -> u32,
    H: Fn(EglCall) -> Result<usize, EglError>,
    P: Fn(PaintCall) -> u64,
> View for CanvasManager<F, H, P> {
    type V = Mgr;

    closed spec fn view(&self) -> Mgr {
        Mgr {
            gl: self.gl@,
            egl: self.egl@,
            paint: self.paint@,
            cfg: self.cfg,
            bound: self.bound,
            root: self.root,
            shared_2d: self.shared_2d,
            flags: self.flags,
            window: self.window,
            pending: self.pending,
            preserved: self.preserved,
            next_canvas_id: self.next_canvas_id,
            canvases: self.canvases@,
            contexts: self.contexts_2d@,
            dirty: self.dirty_2d@,
            shadows: self.gl_state@,
            damage: self.present.damage@,
            history: self.present.history@,
            plan: crate::present::pending_view(self.present.pending_plan),
            swap_interval: self.present.last_swap_interval,
            swap_damage_rejected: self.present.swap_with_damage_rejected,
            debt: match self.restore {
                Some(plan) => Some(plan@),
                None => None,
            },
            copy_fbos: self.copy_fbos@,
            snapshots: self.snapshots@,
            uploads: self.uploads@,
            tried: self.tried@,
            dropped: self.dropped@,
            adrift: self.adrift@,
            unbuffered: self.unbuffered@,
        }
    }
}

impl<
    F: Fn(GlCall) -> u32,
    H: Fn(EglCall) -> Result<usize, EglError>,
    P: Fn(PaintCall) -> u64,
> CanvasManager<F, H, P> {
    /// The devices can be called, and the parts are well formed.
    pub closed spec fn wf(&self) -> bool {
        &&& self.gl.ready()
        &&& self.egl.ready()
        &&& self.paint.ready()
        &&& self.present.wf()
        &&& self.snapshots.wf()
        &&& self.uploads.wf()
        &&& self.dirty_2d@.no_duplicates()
        &&& self.restore matches Some(plan) ==> in_order(plan.offscreen@)
        &&& forall|id: u32| #[trigger]
            self.canvases@.dom().contains(id) ==> self.canvases@[id].info.id == id
        &&& forall|id: u32| #[trigger]
            self.gl_state@.dom().contains(id) ==> self.gl_state@[id].wf()
    }

    /// How calls are made on the display.
    pub closed spec fn display(&self) -> H {
        self.egl.runner()
    }

    /// How calls are made on the graphics library.
    pub closed spec fn library(&self) -> F {
        self.gl.runner()
    }

    /// A session without canvases, on a display that has come up.
    pub fn new(
        gl: Gl<F>,
        egl: EglRuntime<H>,
        paint: Painters<P>,
        cfg: Config,
        root: EglContextHandle,
        frame_rate: u32,
        pixel_ratio: PixelRatio,
        uploads: UploadLedger,
    ) -> (m: Self)
        requires
            gl.ready(),
            egl.ready(),
            paint.ready(),
            uploads.wf(),
        ensures
            m.wf(),
            m@ == (Mgr {
                gl: gl@,
                egl: egl@,
                paint: paint@,
                cfg,
                bound: BoundContext::Resource,
                root,
                shared_2d: None,
                flags: no_flags(),
                window: Window {
                    installed: None,
                    frame_rate,
                    pixel_ratio,
                    restore_2d: None,
                    content_backing: None,
                },
                pending: None,
                preserved: Preserved { ctx: None, db: None },
                next_canvas_id: 2,
                canvases: Map::empty(),
                contexts: Map::empty(),
                dirty: Seq::empty(),
                shadows: Map::empty(),
                damage: crate::present::clean_frame(),
                history: Seq::empty(),
                plan: None,
                swap_interval: (-1) as i32,
                swap_damage_rejected: false,
                debt: None,
                copy_fbos: Map::empty(),
                snapshots: crate::snapshots::Pool {
                    entries: Map::empty(),
                    order: Seq::empty(),
                    waits: 0,
                },
                uploads: uploads@,
                tried: Seq::empty(),
                dropped: Seq::empty(),
                adrift: 0,
                unbuffered: Seq::empty(),
            }),
    {
        let m = CanvasManager {
            gl,
            egl,
            paint,
            cfg,
            bound: BoundContext::Resource,
            root,
            shared_2d: None,
            flags: Flags {
                needs_default_fbo_readback: false,
                context_lost: false,
                surface_unavailable: false,
                force_onscreen_recreate: false,
                simulated_reset: false,
                teardown_complete: false,
                native_release_confirmed: false,
            },
            window: Window {
                installed: None,
                frame_rate,
                pixel_ratio,
                restore_2d: None,
                content_backing: None,
            },
            pending: None,
            preserved: Preserved { ctx: None, db: None },
            next_canvas_id: 2,
            canvases: HashMap::new(),
            contexts_2d: HashMap::new(),
            dirty_2d: Vec::new(),
            gl_state: HashMap::new(),
            present: PresentState::new(),
            restore: None,
            copy_fbos: CopyFramebuffers::new(),
            snapshots: SnapshotPool::new(),
            uploads,
            tried: Ghost(Seq::empty()),
            dropped: Ghost(Seq::empty()),
            adrift: Ghost(0),
            unbuffered: Ghost(Seq::empty()),
        };
        assert(m.canvases@ =~= Map::empty());
        assert(m.contexts_2d@ =~= Map::empty());
        assert(m.gl_state@ =~= Map::empty());
        assert(m.dirty_2d@ =~= Seq::empty());
        m
    }

    // ---- what the session knows of itself ------------------------------------------

    /// What the device can do.
    pub fn cfg(&self) -> (v: Config)
        ensures
            v == self@.cfg,
    {
        self.cfg
    }

    /// What is current.
    pub fn bound(&self) -> (v: BoundContext)
        ensures
            v == self@.bound,
    {
        self.bound
    }

    /// Record what is current.
    pub(crate) fn set_bound(&mut self, bound: BoundContext)
        requires
            old(self).wf(),
        ensures
            final(self).wf(),
            final(self).readback_framebuffer() == old(self).readback_framebuffer(),
            final(self)@ == (Mgr { bound, ..old(self)@ }),
    {
        self.bound = bound;
    }

    /// The root of the share group.
    pub fn root(&self) -> (v: EglContextHandle)
        ensures
            v == self@.root,
    {
        self.root
    }

    /// Replace the root of the share group.
    pub(crate) fn set_root(&mut self, root: EglContextHandle)
        requires
            old(self).wf(),
        ensures
            final(self).wf(),
            final(self)@ == (Mgr { root, ..old(self)@ }),
    {
        self.root = root;
    }

    /// The context that 2D canvases share.
    pub fn shared_2d(&self) -> (v: Option<Shared2d>)
        ensures
            v == self@.shared_2d,
    {
        self.shared_2d
    }

    /// Replace the context that 2D canvases share.
    pub(crate) fn set_shared_2d(&mut self, shared_2d: Option<Shared2d>)
        requires
            old(self).wf(),
        ensures
            final(self).wf(),
            final(self).readback_framebuffer() == old(self).readback_framebuffer(),
            final(self)@ == (Mgr { shared_2d, ..old(self)@ }),
    {
        self.shared_2d = shared_2d;
    }

    /// What has come to pass.
    pub fn flags(&self) -> (v: Flags)
        ensures
            v == self@.flags,
    {
        self.flags
    }

    /// Record what has come to pass.
    pub(crate) fn set_flags(&mut self, flags: Flags)
        requires
            old(self).wf(),
        ensures
            final(self).wf(),
            final(self)@ == (Mgr { flags, ..old(self)@ }),
    {
        self.flags = flags;
    }

    /// The window.
    pub fn window(&self) -> (v: Window)
        ensures
            v == self@.window,
    {
        self.window
    }

    /// Replace what is known of the window.
    pub(crate) fn set_window(&mut self, window: Window)
        requires
            old(self).wf(),
        ensures
            final(self).wf(),
            final(self).display() == old(self).display(),
            final(self)@ == (Mgr { window, ..old(self)@ }),
    {
        self.window = window;
    }

    /// The window surface that is not yet a canvas's.
    pub fn pending(&self) -> (v: Option<PendingOnscreen>)
        ensures
            v == self@.pending,
    {
        self.pending
    }

    /// Put a window surface by, or take it.
    pub(crate) fn set_pending(&mut self, pending: Option<PendingOnscreen>)
        requires
            old(self).wf(),
        ensures
            final(self).wf(),
            final(self)@ == (Mgr { pending, ..old(self)@ }),
    {
        self.pending = pending;
    }

    /// What is left of a window that went away.
    pub fn preserved(&self) -> (v: Preserved)
        ensures
            v == self@.preserved,
    {
        self.preserved
    }

    /// Put by what is left of a window.
    pub(crate) fn set_preserved(&mut self, preserved: Preserved)
        requires
            old(self).wf(),
        ensures
            final(self).wf(),
            final(self)@ == (Mgr { preserved, ..old(self)@ }),
    {
        self.preserved = preserved;
    }

    /// A fresh identifier for a canvas; they start over when their type runs out.
    pub fn new_canvas_id(&mut self) -> (id: u32)
        requires
            old(self).wf(),
        ensures
            final(self).wf(),
            id == old(self)@.next_canvas_id,
            final(self)@ == (Mgr {
                next_canvas_id: if id < u32::MAX {
                    (id + 1) as u32
                } else {
                    0
                },
                ..old(self)@
            }),
    {
        let id: u32 = self.next_canvas_id;
        self.next_canvas_id = id.wrapping_add(1);
        id
    }

    /// A canvas.
    pub fn canvas(&self, id: u32) -> (entry: Option<CanvasEntry>)
        ensures
            entry == (if self@.canvases.dom().contains(id) {
                Some(self@.canvases[id])
            } else {
                None
            }),
            self.wf() ==> (entry matches Some(e) ==> e.info.id == id),
    {
        match self.canvases.get(&id) {
            Some(entry) => Some(*entry),
            None => None,
        }
    }

    /// Put a canvas on the books, in place of the one with its identifier.
    pub(crate) fn put_canvas(&mut self, entry: CanvasEntry)
        requires
            old(self).wf(),
        ensures
            final(self).wf(),
            final(self)@ == (Mgr {
                canvases: old(self)@.canvases.insert(entry.info.id, entry),
                ..old(self)@
            }),
    {
        let ghost before = self.canvases@;
        let _ = self.canvases.insert(entry.info.id, entry);
        assert(self.canvases@ =~= before.insert(entry.info.id, entry));
    }

    /// Take a canvas off the books.
    pub(crate) fn take_canvas(&mut self, id: u32) -> (entry: Option<CanvasEntry>)
        requires
            old(self).wf(),
        ensures
            final(self).wf(),
            entry == (if old(self)@.canvases.dom().contains(id) {
                Some(old(self)@.canvases[id])
            } else {
                None
            }),
            entry matches Some(e) ==> e.info.id == id,
            final(self)@ == (Mgr { canvases: old(self)@.canvases.remove(id), ..old(self)@ }),
    {
        let ghost before = self.canvases@;
        let entry = self.canvases.remove(&id);
        assert(self.canvases@ =~= before.remove(id));
        entry
    }

    /// How many canvases there are.
    pub fn canvas_count(&self) -> (n: usize)
        ensures
            n == self@.canvases.len(),
    {
        self.canvases.len()
    }

    /// The identifiers of the canvases, in no order.
    pub(crate) fn canvas_ids(&self) -> (ids: Vec<u32>)
        ensures
            ids@.no_duplicates(),
            ids@.to_set() == self@.canvases.dom(),
    {
        broadcast use vstd::std_specs::hash::group_hash_axioms;
        broadcast use vstd::seq_lib::group_seq_properties;

        let mut ids: Vec<u32> = Vec::new();
        for id in it: self.canvases.keys()
            invariant
                ids@ == it.seq().unref().take(it.index()),
        {
            ids.push(*id);
        }
        ids
    }

    /// The 2D context of a canvas.
    pub fn context_2d(&self, id: u32) -> (ctx: Option<Context2d>)
        ensures
            ctx == (if self@.contexts.dom().contains(id) {
                Some(self@.contexts[id])
            } else {
                None
            }),
    {
        match self.contexts_2d.get(&id) {
            Some(ctx) => Some(*ctx),
            None => None,
        }
    }

    /// Put a canvas's 2D context on the books.
    pub(crate) fn put_context(&mut self, id: u32, ctx: Context2d)
        requires
            old(self).wf(),
        ensures
            final(self).wf(),
            final(self)@ == (Mgr {
                contexts: old(self)@.contexts.insert(id, ctx),
                ..old(self)@
            }),
    {
        let ghost before = self.contexts_2d@;
        let _ = self.contexts_2d.insert(id, ctx);
        assert(self.contexts_2d@ =~= before.insert(id, ctx));
    }

    /// Take a canvas's 2D context off the books.
    pub(crate) fn take_context(&mut self, id: u32) -> (ctx: Option<Context2d>)
        requires
            old(self).wf(),
        ensures
            final(self).wf(),
            ctx == (if old(self)@.contexts.dom().contains(id) {
                Some(old(self)@.contexts[id])
            } else {
                None
            }),
            final(self)@ == (Mgr { contexts: old(self)@.contexts.remove(id), ..old(self)@ }),
    {
        let ghost before = self.contexts_2d@;
        let ctx = self.contexts_2d.remove(&id);
        assert(self.contexts_2d@ =~= before.remove(id));
        ctx
    }

    /// The canvases that have a 2D context, in no order.
    pub(crate) fn context_ids(&self) -> (ids: Vec<u32>)
        ensures
            ids@.no_duplicates(),
            ids@.to_set() == self@.contexts.dom(),
    {
        broadcast use vstd::std_specs::hash::group_hash_axioms;
        broadcast use vstd::seq_lib::group_seq_properties;

        let mut ids: Vec<u32> = Vec::new();
        for id in it: self.contexts_2d.keys()
            invariant
                ids@ == it.seq().unref().take(it.index()),
        {
            ids.push(*id);
        }
        ids
    }

    // ---- canvases whose 2D context has recorded something ---------------------------

    /// A canvas's 2D context has recorded something.
    pub fn mark_2d_dirty(&mut self, id: u32)
        requires
            old(self).wf(),
        ensures
            final(self).wf(),
            final(self)@ == (Mgr {
                dirty: if old(self)@.dirty.contains(id) {
                    old(self)@.dirty
                } else {
                    old(self)@.dirty.push(id)
                },
                ..old(self)@
            }),
    {
        let mut i: usize = 0;
        while i < self.dirty_2d.len()
            invariant
                self.wf(),
                self@ == old(self)@,
                i <= self.dirty_2d@.len(),
                forall|j: int| 0 <= j < i ==> self.dirty_2d@[j] != id,
            decreases self.dirty_2d@.len() - i,
        {
            if self.dirty_2d[i] == id {
                assert(self@.dirty[i as int] == id);
                return ;
            }
            i = i + 1;
        }
        assert(!self@.dirty.contains(id));
        self.dirty_2d.push(id);
    }

    /// What a canvas's 2D context had recorded is submitted or gone.
    pub(crate) fn clear_2d_dirty(&mut self, id: u32)
        requires
            old(self).wf(),
        ensures
            final(self).wf(),
            final(self)@ == (Mgr { dirty: final(self)@.dirty, ..old(self)@ }),
            final(self)@.dirty.to_set() == old(self)@.dirty.to_set().remove(id),
            !final(self)@.dirty.contains(id),
    {
        let mut i: usize = 0;
        while i < self.dirty_2d.len()
            invariant
                self.wf(),
                self@ == old(self)@,
                i <= self.dirty_2d@.len(),
                forall|j: int| 0 <= j < i ==> self.dirty_2d@[j] != id,
            decreases self.dirty_2d@.len() - i,
        {
            if self.dirty_2d[i] == id {
                let ghost before = self.dirty_2d@;
                let _ = self.dirty_2d.remove(i);
                proof {
                    assert(self.dirty_2d@ =~= before.remove(i as int));
                    assert forall|x: u32| self.dirty_2d@.contains(x) == (before.contains(x) && x
                        != id) by {
                        if before.contains(x) && x != id {
                            let j = choose|j: int| 0 <= j < before.len() && before[j] == x;
                            if j < i {
                                assert(self.dirty_2d@[j] == x);
                            } else {
                                assert(self.dirty_2d@[j - 1] == x);
                            }
                        }
                        if self.dirty_2d@.contains(x) {
                            let j = choose|j: int|
                                0 <= j < self.dirty_2d@.len() && self.dirty_2d@[j] == x;
                            if j < i {
                                assert(before[j] == x);
                            } else {
                                assert(before[j + 1] == x);
                            }
                        }
                    }
                    assert(self@.dirty.to_set() =~= old(self)@.dirty.to_set().remove(id));
                }
                return ;
            }
            i = i + 1;
        }
        assert(self@.dirty.to_set() =~= old(self)@.dirty.to_set().remove(id));
    }

    /// Take the list of canvases whose 2D context has recorded something.
    pub(crate) fn take_dirty(&mut self) -> (ids: Vec<u32>)
        requires
            old(self).wf(),
        ensures
            final(self).wf(),
            ids@ == old(self)@.dirty,
            ids@.no_duplicates(),
            final(self)@ == (Mgr { dirty: Seq::empty(), ..old(self)@ }),
    {
        let mut ids: Vec<u32> = Vec::new();
        std::mem::swap(&mut ids, &mut self.dirty_2d);
        assert(self.dirty_2d@ =~= Seq::empty());
        ids
    }

    // ---- the graphics library --------------------------------------------------------

    /// Make a call on the graphics library.
    pub fn issue_gl(&mut self, call: GlCall) -> (reply: u32)
        requires
            old(self).wf(),
        ensures
            final(self).wf(),
            final(self)@ == (Mgr {
                gl: crate::gl_device::after_call(old(self)@.gl, call, reply),
                tried: tried_after(old(self)@, call),
                adrift: adrift_after(old(self)@, call),
                ..old(self)@
            }),
    {
        self.tried = Ghost(tried_after(self@, call));
        self.adrift = Ghost(adrift_after(self@, call));
        self.gl.issue(call)
    }

    /// Make a drawing buffer.
    pub(crate) fn create_drawing_buffer(&mut self, width: u32, height: u32) -> (made: Result<
        DrawingBuffer,
        DrawingBufferError,
    >)
        requires
            old(self).wf(),
        ensures
            final(self).wf(),
            final(self)@ == (Mgr { gl: final(self)@.gl, ..old(self)@ }),
            match made {
                Ok(db) => {
                    &&& db.fbo != 0 && db.width == width && db.height == height
                    &&& crate::drawing_buffer::assembled(final(self)@.gl, db)
                    &&& final(self)@.gl.framebuffers == old(self)@.gl.framebuffers.insert(db.fbo)
                    &&& final(self)@.gl.truthful ==> final(self)@.gl.bindings.draw_framebuffer
                        == db.fbo
                },
                Err(_) => crate::drawing_buffer::nothing_new(old(self)@.gl, final(self)@.gl)
                    && crate::drawing_buffer::buffer_unmade(old(self)@.gl, final(self)@.gl),
            },
            final(self)@.gl.viewports == old(self)@.gl.viewports,
    {
        crate::drawing_buffer::create(&mut self.gl, width, height)
    }

    /// Give a drawing buffer another size. The answer is whether it has it.
    pub(crate) fn resize_drawing_buffer(&mut self, db: &mut DrawingBuffer, width: u32, height: u32) -> (ok:
        bool)
        requires
            old(self).wf(),
        ensures
            final(self).wf(),
            final(self)@ == (Mgr { gl: final(self)@.gl, ..old(self)@ }),
            *final(db) == (if ok {
                DrawingBuffer { width, height, ..*old(db) }
            } else {
                *old(db)
            }),
            old(db).width == width && old(db).height == height ==> ok && final(self)@ == old(self)@,
            ok && !(old(db).width == width && old(db).height == height)
                ==> crate::drawing_buffer::assembled(final(self)@.gl, *final(db)),
            final(self)@.gl.refused == old(self)@.gl.refused,
            final(self)@.gl.viewports == old(self)@.gl.viewports,
            final(self)@.gl.statuses.len() >= old(self)@.gl.statuses.len(),
            final(self)@.gl.errors == old(self)@.gl.errors,
            !ok ==> final(self)@.gl.statuses.len() > old(self)@.gl.statuses.len() && final(
                self)@.gl.statuses.last() != crate::gl::FRAMEBUFFER_COMPLETE,
    {
        crate::drawing_buffer::resize(&mut self.gl, db, width, height).is_ok()
    }

    /// Delete a drawing buffer's objects.
    pub(crate) fn destroy_drawing_buffer(&mut self, db: DrawingBuffer)
        requires
            old(self).wf(),
        ensures
            final(self).wf(),
            final(self)@ == without_buffer(old(self)@, db),
    {
        self.unbuffered = Ghost(self@.unbuffered.push((db.fbo, current_context(self@))));
        crate::drawing_buffer::destroy(&mut self.gl, db);
    }

    /// Copy the window into a drawing buffer.
    pub(crate) fn blit_from_window(&mut self, db: DrawingBuffer, width: u32, height: u32) -> (copied: bool)
        requires
            old(self).wf(),
        ensures
            final(self).wf(),
            final(self)@ == (Mgr { gl: final(self)@.gl, ..old(self)@ }),
            final(self)@.gl.truthful ==> old(self)@.gl.truthful && final(self)@.gl.bindings == old(
                self)@.gl.bindings,
            copied && final(self)@.gl.truthful ==> final(self)@.gl.blits == old(
                self)@.gl.blits.push(crate::drawing_buffer::reverse_blit(db, width, height)),
            !copied ==> crate::manager::copy_refused(final(self)@, db, width, height),
    {
        crate::drawing_buffer::blit_from_surface(&mut self.gl, &db, width, height)
    }

    /// Set aside the bindings that painting needs at its own values.
    pub(crate) fn begin_scope(&mut self) -> (state: Canvas2DGlState)
        requires
            old(self).wf(),
        ensures
            final(self).wf(),
            final(self)@ == (Mgr {
                gl: crate::gl_device::GlModel {
                    bindings: crate::paint_scope::with_values(
                        old(self)@.gl.bindings,
                        crate::paint_scope::painting_values(),
                    ),
                    truthful: final(self)@.gl.truthful,
                    ..old(self)@.gl
                },
                ..old(self)@
            }),
            final(self)@.gl.truthful ==> old(self)@.gl.truthful && crate::paint_scope::saved_from(
                state,
                old(self)@.gl.bindings,
            ),
    {
        begin_canvas2d_gl_scope(&mut self.gl)
    }

    /// Give content back what it had.
    pub(crate) fn end_scope(&mut self, state: Canvas2DGlState)
        requires
            old(self).wf(),
        ensures
            final(self).wf(),
            final(self)@ == (Mgr {
                gl: crate::gl_device::GlModel {
                    bindings: crate::paint_scope::with_values(old(self)@.gl.bindings, state),
                    ..old(self)@.gl
                },
                ..old(self)@
            }),
    {
        end_canvas2d_gl_scope(&mut self.gl, state);
    }

    /// Install a canvas's default framebuffer, where its context is current.
    pub(crate) fn apply_default_framebuffer_mapping(&mut self, id: u32)
        requires
            old(self).wf(),
        ensures
            final(self).wf(),
            final(self).readback_framebuffer() == old(self).readback_framebuffer(),
            mapping_applied(old(self)@, final(self)@, id),
    {
        if let Some(entry) = self.canvas(id) {
            let current: bool = self.bound == BoundContext::Canvas(id);
            let mut applied = entry.applied_default_framebuffer;
            let fbo = match entry.drawing_buffer {
                Some(db) => Some(db.fbo),
                None => None,
            };
            let desired = default_framebuffer_of(entry.bypass_drawing_buffer, fbo);
            apply_default_framebuffer(&mut self.gl, current, &mut applied, desired);
            if current {
                let ghost before = self.canvases@;
                let moved = CanvasEntry { applied_default_framebuffer: applied, ..entry };
                let _ = self.canvases.insert(id, moved);
                assert(self.canvases@ =~= before.insert(id, moved));
            }
        }
    }

    /// Whether the next read consumes a canvas's default framebuffer.
    pub(crate) fn reads_default(&mut self, id: u32, gl_major: u32) -> (reads: bool)
        requires
            old(self).wf(),
        ensures
            final(self).wf(),
            final(self)@ == (Mgr {
                gl: crate::gl_device::GlModel {
                    truthful: final(self)@.gl.truthful,
                    ..old(self)@.gl
                },
                ..old(self)@
            }),
            final(self)@.gl.truthful ==> old(self)@.gl.truthful && reads == default_read(
                old(self)@,
                id,
                gl_major,
            ),
    {
        proof {
            reveal(default_read);
        }
        let probed: bool = match self.canvas(id) {
            Some(entry) => entry.drawing_buffer.is_some(),
            None => false,
        };
        let default = match self.canvas(id) {
            None => None,
            Some(entry) => default_framebuffer_of(
                entry.bypass_drawing_buffer,
                match entry.drawing_buffer {
                    Some(db) => Some(db.fbo),
                    None => None,
                },
            ),
        };
        let state: Option<&CanvasGLState> = self.gl_state.get(&id);
        reads_from_default_framebuffer(&mut self.gl, gl_major, probed, state, default)
    }

    // ---- what content is known to have made of the library's state --------------------

    /// The engine bound a canvas's default framebuffer.
    pub(crate) fn note_default_bind(&mut self, id: u32)
        requires
            old(self).wf(),
        ensures
            final(self).wf(),
            final(self)@ == (Mgr { shadows: final(self)@.shadows, ..old(self)@ }),
            final(self)@.shadows == old(self)@.shadows.insert(id, final(self)@.shadows[id]),
            final(self)@.shadows[id].draws_to_default_fbo,
            crate::shadows::known_framebuffer(
                final(self)@.shadows[id].bound_framebuffer@,
                crate::gl::READ_FRAMEBUFFER,
            ) == Some(None::<u32>),
            crate::shadows::known_framebuffer(
                final(self)@.shadows[id].bound_framebuffer@,
                crate::gl::DRAW_FRAMEBUFFER,
            ) == Some(None::<u32>),
    {
        let ghost before = self.gl_state@;
        let mut state = match self.gl_state.remove(&id) {
            Some(state) => state,
            None => CanvasGLState::default(),
        };
        state.record_default_framebuffer_bind();
        let ghost noted = state;
        let _ = self.gl_state.insert(id, state);
        assert(self.gl_state@ =~= before.insert(id, noted));
    }

    /// A canvas has a fresh context whose viewport covers its buffer.
    pub(crate) fn fresh_shadow(&mut self, id: u32, width: u32, height: u32)
        requires
            old(self).wf(),
        ensures
            final(self).wf(),
            final(self)@ == (Mgr { shadows: final(self)@.shadows, ..old(self)@ }),
            final(self)@.shadows == old(self)@.shadows.insert(id, final(self)@.shadows[id]),
            fresh_state(final(self)@.shadows[id], width, height),
    {
        let ghost before = self.gl_state@;
        let mut state = CanvasGLState::default();
        state.viewport = Some((0, 0, width as i32, height as i32));
        let ghost fresh = state;
        let _ = self.gl_state.insert(id, state);
        assert(self.gl_state@ =~= before.insert(id, fresh));
    }

    /// A canvas's viewport covers its buffer.
    pub(crate) fn set_viewport(&mut self, id: u32, width: u32, height: u32)
        requires
            old(self).wf(),
        ensures
            final(self).wf(),
            final(self)@ == (Mgr { shadows: final(self)@.shadows, ..old(self)@ }),
            final(self)@.shadows == old(self)@.shadows.insert(id, final(self)@.shadows[id]),
            final(self)@.shadows[id].viewport == Some((0i32, 0i32, width as i32, height as i32)),
            old(self)@.shadows.dom().contains(id) ==> final(self)@.shadows[id] == (CanvasGLState {
                viewport: final(self)@.shadows[id].viewport,
                ..old(self)@.shadows[id]
            }),
    {
        let ghost before = self.gl_state@;
        let mut state = match self.gl_state.remove(&id) {
            Some(state) => state,
            None => CanvasGLState::default(),
        };
        state.viewport = Some((0, 0, width as i32, height as i32));
        let ghost sized = state;
        let _ = self.gl_state.insert(id, state);
        assert(self.gl_state@ =~= before.insert(id, sized));
    }

    /// Painting used a canvas's context: nothing is known of its state but the unit that
    /// is active.
    pub(crate) fn forget_after_painting(&mut self, id: u32, active_texture: u32)
        requires
            old(self).wf(),
        ensures
            final(self).wf(),
            final(self)@ == (Mgr { shadows: final(self)@.shadows, ..old(self)@ }),
            final(self)@.shadows == old(self)@.shadows.insert(id, final(self)@.shadows[id]),
            final(self)@.shadows[id].active_texture_unit == Some(active_texture),
            (CanvasGLState {
                active_texture_unit: None,
                ..final(self)@.shadows[id]
            }).bindings_unknown(),
            final(self)@.shadows[id].pipeline_unknown(),
    {
        let ghost before = self.gl_state@;
        let mut state = match self.gl_state.remove(&id) {
            Some(state) => state,
            None => CanvasGLState::default(),
        };
        state.invalidate_after_external_gl_use();
        state.active_texture_unit = Some(active_texture);
        let ghost forgot = state;
        let _ = self.gl_state.insert(id, state);
        assert(self.gl_state@ =~= before.insert(id, forgot));
    }

    /// A canvas's context is gone.
    pub(crate) fn drop_shadow(&mut self, id: u32)
        requires
            old(self).wf(),
        ensures
            final(self).wf(),
            final(self)@ == (Mgr { shadows: old(self)@.shadows.remove(id), ..old(self)@ }),
    {
        let ghost before = self.gl_state@;
        let _ = self.gl_state.remove(&id);
        assert(self.gl_state@ =~= before.remove(id));
    }

    /// Every context is gone.
    pub(crate) fn drop_shadows(&mut self)
        requires
            old(self).wf(),
        ensures
            final(self).wf(),
            final(self)@ == (Mgr { shadows: Map::empty(), ..old(self)@ }),
    {
        self.gl_state.clear();
        assert(self.gl_state@ =~= Map::empty());
    }

    // ---- the display -----------------------------------------------------------------

    /// Select the client API.
    pub(crate) fn bind_api(&mut self) -> (result: Result<(), EglError>)
        requires
            old(self).wf(),
        ensures
            final(self).wf(),
            match result {
                Ok(_) => final(self)@ == old(self)@,
                Err(e) => final(self)@ == refused(old(self)@, EglCall::BindApi, e),
            },
    {
        self.egl.bind_api()
    }

    /// Make a context current with its surface, and record it as what is bound.
    pub(crate) fn activate(&mut self, handle: EglContextHandle, bound: BoundContext) -> (result: Result<
        (),
        EglError,
    >)
        requires
            old(self).wf(),
        ensures
            final(self).wf(),
            final(self).readback_framebuffer() == old(self).readback_framebuffer(),
            match result {
                Ok(_) => final(self)@ == activated(old(self)@, handle, bound),
                Err(e) => final(self)@ == refused(old(self)@, current_call(handle), e),
            },
    {
        match self.egl.make_current(handle.surf, handle.surf, Some(handle.ctx)) {
            Err(e) => Err(e),
            Ok(_) => {
                self.bound = bound;
                Ok(())
            },
        }
    }

    /// Make a context current without recording it.
    pub(crate) fn visit(&mut self, handle: EglContextHandle) -> (result: Result<(), EglError>)
        requires
            old(self).wf(),
        ensures
            final(self).wf(),
            match result {
                Ok(_) => final(self)@ == (Mgr {
                    egl: current_with(old(self)@.egl, handle),
                    ..old(self)@
                }),
                Err(e) => final(self)@ == refused(old(self)@, current_call(handle), e),
            },
    {
        self.egl.make_current(handle.surf, handle.surf, Some(handle.ctx))
    }

    /// Make nothing current.
    pub(crate) fn release_current(&mut self) -> (result: Result<(), EglError>)
        requires
            old(self).wf(),
        ensures
            final(self).wf(),
            final(self).display() == old(self).display(),
            match result {
                Ok(_) => final(self)@ == (Mgr {
                    egl: nothing_current(old(self)@.egl),
                    ..old(self)@
                }),
                Err(e) => final(self)@ == refused(
                    old(self)@,
                    EglCall::MakeCurrent { draw: None, read: None, context: None },
                    e,
                ),
            },
    {
        self.egl.make_current(None, None, None)
    }

    /// Create an offscreen context, with a pbuffer of the given size unless the share
    /// group is surfaceless. It shares the objects of `share`.
    pub(crate) fn create_offscreen_context(&mut self, share: Option<usize>, width: u32, height: u32) -> (result:
        Result<EglContextHandle, EglError>)
        requires
            old(self).wf(),
        ensures
            final(self).wf(),
            final(self).readback_framebuffer() == old(self).readback_framebuffer(),
            match result {
                Ok(handle) => {
                    &&& final(self)@ == (Mgr {
                        egl: crate::egl_device::with_pair(
                            old(self)@.egl,
                            handle,
                            sharing_call(old(self)@.cfg, share),
                            width,
                            height,
                        ),
                        ..old(self)@
                    })
                    &&& (handle.surf is None) == old(self)@.cfg.surfaceless
                },
                Err(e) => {
                    &&& final(self)@ == (Mgr { egl: final(self)@.egl, ..old(self)@ })
                    &&& creation_failed(old(self)@.egl, final(self)@.egl, e)
                },
            },
    {
        crate::egl_device::create_pbuffer_context(
            &mut self.egl,
            share,
            width,
            height,
            self.cfg.gles_major,
            self.cfg.has_robust_context,
            self.cfg.surfaceless,
        )
    }

    /// Create a context that shares the objects of the root.
    pub(crate) fn create_context(&mut self) -> (result: Result<usize, EglError>)
        requires
            old(self).wf(),
        ensures
            final(self).wf(),
            final(self)@ == (Mgr {
                egl: crate::egl_device::after_egl_call(
                    old(self)@.egl,
                    context_call(old(self)@.cfg, old(self)@.root),
                    result,
                ),
                ..old(self)@
            }),
    {
        self.egl.create_context(
            Some(self.root.ctx),
            self.cfg.gles_major,
            self.cfg.has_robust_context,
        )
    }

    /// Create the window surface of a native target.
    pub(crate) fn create_window_surface(&mut self, target: u64) -> (result: Result<usize, EglError>)
        requires
            old(self).wf(),
        ensures
            final(self).wf(),
            final(self)@ == (Mgr {
                egl: crate::egl_device::after_egl_call(
                    old(self)@.egl,
                    EglCall::CreateWindowSurface { target },
                    result,
                ),
                ..old(self)@
            }),
    {
        self.egl.create_window_surface(target)
    }

    /// Create a pbuffer.
    pub(crate) fn create_pbuffer_surface(&mut self, width: u32, height: u32) -> (result: Result<
        usize,
        EglError,
    >)
        requires
            old(self).wf(),
        ensures
            final(self).wf(),
            final(self)@ == (Mgr {
                egl: crate::egl_device::after_egl_call(
                    old(self)@.egl,
                    EglCall::CreatePbufferSurface { width, height },
                    result,
                ),
                ..old(self)@
            }),
            call_ensures(
                old(self).display(),
                (EglCall::CreatePbufferSurface { width, height },),
                result,
            ),
    {
        self.egl.create_pbuffer_surface(width, height)
    }

    /// Destroy a surface.
    pub(crate) fn destroy_surface(&mut self, surface: usize) -> (result: Result<(), EglError>)
        requires
            old(self).wf(),
        ensures
            final(self).wf(),
            final(self).display() == old(self).display(),
            match result {
                Ok(_) => final(self)@ == (Mgr {
                    egl: surface_destroyed(old(self)@.egl, surface),
                    ..old(self)@
                }),
                Err(e) => final(self)@ == (Mgr {
                    egl: surface_kept(old(self)@.egl, surface, e),
                    ..old(self)@
                }),
            },
    {
        self.egl.destroy_surface(surface)
    }

    /// Destroy a context.
    pub(crate) fn destroy_context(&mut self, context: usize) -> (result: Result<(), EglError>)
        requires
            old(self).wf(),
        ensures
            final(self).wf(),
            match result {
                Ok(_) => final(self)@ == (Mgr {
                    egl: context_destroyed(old(self)@.egl, context),
                    ..old(self)@
                }),
                Err(e) => final(self)@ == refused(
                    old(self)@,
                    EglCall::DestroyContext { context },
                    e,
                ),
            },
    {
        self.egl.destroy_context(context)
    }

    /// A side of a surface, as far as the driver tells: at least one pixel.
    pub(crate) fn query_side(&mut self, surface: usize, attribute: i32) -> (side: u32)
        requires
            old(self).wf(),
        ensures
            final(self).wf(),
            side >= 1,
            exists|reply: Result<usize, EglError>|
                {
                    &&& side == crate::egl_device::side_of(reply)
                    &&& final(self)@ == (Mgr {
                        egl: #[trigger] crate::egl_device::after_egl_call(
                            old(self)@.egl,
                            EglCall::QuerySurface { surface, attribute },
                            reply,
                        ),
                        ..old(self)@
                    })
                },
    {
        let side: u32 = self.egl.query_side(surface, attribute);
        side
    }

    /// Give the installed native target the configuration of another one.
    pub(crate) fn reconfigure(&mut self, installed: u64, from: u64) -> (result: Result<usize, EglError>)
        requires
            old(self).wf(),
        ensures
            final(self).wf(),
            final(self)@ == (Mgr {
                egl: crate::egl_device::after_egl_call(
                    old(self)@.egl,
                    EglCall::Reconfigure { installed, from },
                    result,
                ),
                ..old(self)@
            }),
    {
        self.egl.reconfigure(installed, from)
    }

    /// Ask the display to serve a frame rate.
    pub(crate) fn request_frame_rate(&mut self, target: u64, fps: u32)
        requires
            old(self).wf(),
        ensures
            final(self).wf(),
            final(self)@ == (Mgr {
                egl: crate::egl_device::EglModel {
                    rate_requests: old(self)@.egl.rate_requests.push((target, fps)),
                    ..old(self)@.egl
                },
                ..old(self)@
            }),
    {
        self.egl.request_frame_rate(target, fps);
    }

    /// Start the upload thread on the root's objects. The answer is whether it runs.
    pub(crate) fn spawn_uploads(&mut self) -> (running: bool)
        requires
            old(self).wf(),
        ensures
            final(self).wf(),
            final(self)@ == (Mgr { egl: final(self)@.egl, ..old(self)@ }),
            final(self)@.egl == (crate::egl_device::EglModel {
                uploads: old(self)@.egl.uploads || running,
                refused: final(self)@.egl.refused,
                steps: if running {
                    old(self)@.egl.steps.push(crate::egl_device::Step::UploadsStarted)
                } else {
                    old(self)@.egl.steps
                },
                ..old(self)@.egl
            }),
            crate::egl_device::remembers(old(self)@.egl, final(self)@.egl),
            crate::egl_device::uploads_started(
                old(self)@.egl,
                final(self)@.egl,
                old(self)@.root.ctx,
                running,
            ),
    {
        let root: usize = self.root.ctx;
        self.egl.spawn_uploads(root)
    }

    /// Stop the upload thread.
    pub(crate) fn stop_uploads(&mut self)
        requires
            old(self).wf(),
        ensures
            final(self).wf(),
            final(self)@ == (Mgr {
                egl: crate::egl_device::EglModel {
                    uploads: false,
                    steps: old(self)@.egl.steps.push(crate::egl_device::Step::UploadsStopped),
                    ..old(self)@.egl
                },
                ..old(self)@
            }),
    {
        self.egl.stop_uploads();
    }

    /// Hand the root of the share group to the display.
    pub(crate) fn track_root(&mut self, root: EglContextHandle)
        requires
            old(self).wf(),
            old(self)@.egl.root is None,
        ensures
            final(self).wf(),
            final(self)@ == (Mgr {
                egl: crate::egl_device::EglModel { root: Some(root), ..old(self)@.egl },
                ..old(self)@
            }),
    {
        self.egl.track_resource(root);
    }

    /// Take the root of the share group back.
    pub(crate) fn untrack_root(&mut self) -> (root: Option<EglContextHandle>)
        requires
            old(self).wf(),
        ensures
            final(self).wf(),
            root == old(self)@.egl.root,
            final(self)@ == (Mgr {
                egl: crate::egl_device::EglModel { root: None, ..old(self)@.egl },
                ..old(self)@
            }),
    {
        self.egl.untrack_resource()
    }

    /// Take the display down. The answer is whether the driver confirmed it.
    pub(crate) fn shutdown_display(&mut self) -> (gone: bool)
        requires
            old(self).wf(),
        ensures
            final(self).wf(),
            final(self)@ == (Mgr { egl: final(self)@.egl, ..old(self)@ }),
            gone == final(self)@.egl.terminated,
            !final(self)@.egl.up,
            final(self)@.egl.uploads == old(self)@.egl.uploads,
            final(self)@.egl.contexts.subset_of(old(self)@.egl.contexts),
            crate::egl_device::remembers(old(self)@.egl, final(self)@.egl),
            forall|s: usize|
                old(self)@.egl.surfaces_gone.contains(s)
                    ==> #[trigger] final(self)@.egl.surfaces_gone.contains(s),
            old(self)@.egl.up && gone && !old(self)@.egl.terminated
                ==> crate::shutdown::nothing_left(final(self)@.egl),
            old(self)@.egl.up ==> final(self)@.egl.root is None && (old(
                self)@.egl.root matches Some(root) ==> crate::egl_device::pair_unmade(
                old(self)@.egl,
                final(self)@.egl,
                root,
            )),
            old(self)@.egl.up && gone && !old(self)@.egl.terminated
                ==> final(self)@.egl.steps.len() > 0 && final(self)@.egl.steps.last()
                == crate::egl_device::Step::Terminated,
            !old(self)@.egl.up ==> final(self)@ == old(self)@,
            old(self)@.egl.up && !gone ==> crate::egl_device::shutdown_refused(final(self)@.egl),
            old(self)@.egl.up && !gone ==> (forall|s: usize| #[trigger]
                final(self)@.egl.windows.dom().contains(s) ==> old(
                    self)@.egl.windows.dom().contains(s) && final(self)@.egl.windows[s] == old(
                    self)@.egl.windows[s]),
    {
        self.egl.shutdown()
    }

    /// Surfaces whose destruction was asked for while they were referenced.
    pub fn take_reported(&mut self) -> (reported: Vec<usize>)
        requires
            old(self).wf(),
        ensures
            final(self).wf(),
            reported@ == old(self)@.egl.reported,
            final(self)@ == (Mgr {
                egl: crate::egl_device::EglModel { reported: Seq::empty(), ..old(self)@.egl },
                ..old(self)@
            }),
    {
        self.egl.take_reported()
    }

    // ---- the 2D contexts ---------------------------------------------------------------

    /// Make a call on the 2D contexts.
    pub(crate) fn issue_paint(&mut self, call: PaintCall) -> (reply: u64)
        requires
            old(self).wf(),
        ensures
            final(self).wf(),
            final(self).readback_framebuffer() == old(self).readback_framebuffer(),
            final(self)@ == (Mgr {
                paint: crate::painters::after_paint_call(
                    old(self)@.paint,
                    call,
                    reply,
                    crate::gl_device::moment(old(self)@.gl),
                ),
                dropped: dropped_after(old(self)@, call),
                ..old(self)@
            }),
    {
        self.dropped = Ghost(dropped_after(self@, call));
        self.paint.issue(call, Ghost(crate::gl_device::moment(self.gl@)))
    }

    // ---- presenting ---------------------------------------------------------------------

    /// The surface or its storage changed, and the next present repairs everything.
    pub(crate) fn restart_full(&mut self)
        requires
            old(self).wf(),
        ensures
            final(self).wf(),
            final(self)@ == restarted(old(self)@),
    {
        self.present.restart_full();
    }

    /// The surface changed: no earlier frame can be repaired from, and no plan survives.
    pub(crate) fn forget_frames(&mut self)
        requires
            old(self).wf(),
        ensures
            final(self).wf(),
            final(self)@ == (Mgr { history: Seq::empty(), plan: None, ..old(self)@ }),
    {
        self.present.forget_frames();
    }

    /// The next swap sets its interval.
    pub(crate) fn reset_swap_interval(&mut self)
        requires
            old(self).wf(),
        ensures
            final(self).wf(),
            final(self)@ == (Mgr { swap_interval: (-1) as i32, ..old(self)@ }),
    {
        self.present.last_swap_interval = -1;
    }

    /// Add an operation's damage to the frame's.
    pub(crate) fn add_damage(&mut self, effect: DamageEffect)
        requires
            old(self).wf(),
        ensures
            final(self).wf(),
            final(self)@ == (Mgr {
                damage: crate::damage::after_effect(old(self)@.damage, effect),
                ..old(self)@
            }),
    {
        self.present.damage.add(effect);
    }

    /// The damage of the frame in flight and of the frames before it.
    pub(crate) fn present_mut(&mut self) -> (present: &mut PresentState)
        requires
            old(self).wf(),
        ensures
            present.wf(),
            present.damage@ == old(self)@.damage,
            present.history@ == old(self)@.history,
            present.last_swap_interval == old(self)@.swap_interval,
            present.swap_with_damage_rejected == old(self)@.swap_damage_rejected,
            crate::present::pending_view(present.pending_plan) == old(self)@.plan,
            final(present).wf() ==> final(self).wf(),
            final(self)@ == (Mgr {
                damage: final(present).damage@,
                history: final(present).history@,
                plan: crate::present::pending_view(final(present).pending_plan),
                swap_interval: final(present).last_swap_interval,
                swap_damage_rejected: final(present).swap_with_damage_rejected,
                ..old(self)@
            }),
    {
        &mut self.present
    }

    /// Copy a drawing buffer to the window, as a plan says.
    pub(crate) fn blit_to_window(
        &mut self,
        db: DrawingBuffer,
        width: u32,
        height: u32,
        blit: &BlitPlan,
    ) -> (copied: bool)
        requires
            old(self).wf(),
            blit matches BlitPlan::Rects(rects) ==> rects.wf(),
        ensures
            final(self).wf(),
            final(self)@ == (Mgr { gl: final(self)@.gl, ..old(self)@ }),
            copied && final(self)@.gl.truthful ==> final(self)@.gl.blits == old(self)@.gl.blits
                + crate::drawing_buffer::plan_blits(db, width, height, *blit, false),
            !copied ==> crate::drawing_buffer::copy_failed(old(self)@.gl, final(self)@.gl),
            crate::drawing_buffer::put_together(old(self)@.gl, final(self)@.gl, db),
            final(self)@.gl.offered == old(self)@.gl.offered,
    {
        crate::drawing_buffer::blit_to_surface(&mut self.gl, &db, width, height, blit)
    }

    /// How many frames ago a surface's back buffer was last drawn.
    pub(crate) fn buffer_age(&mut self, surface: usize) -> (age: i32)
        requires
            old(self).wf(),
        ensures
            final(self).wf(),
            final(self)@ == (Mgr { egl: final(self)@.egl, ..old(self)@ }),
            final(self)@.egl == (crate::egl_device::EglModel {
                ages: old(self)@.egl.ages.push((surface, age)),
                ..old(self)@.egl
            }),
    {
        self.egl.buffer_age(surface)
    }

    /// Declare what is going to be drawn on a surface.
    pub(crate) fn declare_damage(&mut self, surface: usize, rects: RectList) -> (declared: bool)
        requires
            old(self).wf(),
        ensures
            final(self).wf(),
            final(self)@ == (Mgr { egl: final(self)@.egl, ..old(self)@ }),
            final(self)@.egl == (crate::egl_device::EglModel {
                declared: final(self)@.egl.declared,
                refused: final(self)@.egl.refused,
                ..old(self)@.egl
            }),
            final(self)@.egl.declared == (if declared {
                old(self)@.egl.declared.push((surface, rects))
            } else {
                old(self)@.egl.declared
            }),
            declared ==> final(self)@.egl.refused == old(self)@.egl.refused,
            !declared ==> crate::egl_device::refused_once(
                old(self)@.egl,
                final(self)@.egl,
                EglCall::DeclareDamage { surface, rects },
            ),
    {
        self.egl.declare_damage(surface, rects)
    }

    /// Say how many refreshes a swap waits for, where that has changed.
    pub(crate) fn set_swap_interval(&mut self, interval: i32)
        requires
            old(self).wf(),
        ensures
            final(self).wf(),
            final(self)@ == (Mgr {
                egl: final(self)@.egl,
                swap_interval: interval,
                ..old(self)@
            }),
            final(self)@.egl == (crate::egl_device::EglModel {
                intervals: if interval == old(self)@.swap_interval {
                    old(self)@.egl.intervals
                } else {
                    old(self)@.egl.intervals.push(interval)
                },
                ..old(self)@.egl
            }),
    {
        if interval != self.present.last_swap_interval {
            self.egl.swap_interval(interval);
            self.present.last_swap_interval = interval;
        }
    }

    /// Swap a surface, and tell the compositor what has changed on it. A driver that refuses
    /// is not asked again.
    pub(crate) fn swap_with_damage(&mut self, surface: usize, rects: RectList) -> (swapped: bool)
        requires
            old(self).wf(),
        ensures
            final(self).wf(),
            final(self)@ == (Mgr {
                egl: final(self)@.egl,
                swap_damage_rejected: old(self)@.swap_damage_rejected || !swapped,
                ..old(self)@
            }),
            final(self)@.egl == (crate::egl_device::EglModel {
                swaps: final(self)@.egl.swaps,
                swapped_at: final(self)@.egl.swapped_at,
                refused: final(self)@.egl.refused,
                ..old(self)@.egl
            }),
            final(self)@.egl.swaps == (if swapped {
                old(self)@.egl.swaps.push((surface, Some(rects)))
            } else {
                old(self)@.egl.swaps
            }),
            final(self)@.egl.swapped_at == (if swapped {
                old(self)@.egl.swapped_at.push(swap_moment(old(self)@))
            } else {
                old(self)@.egl.swapped_at
            }),
            swapped ==> final(self)@.egl.refused == old(self)@.egl.refused,
            !swapped ==> crate::egl_device::refused_once(
                old(self)@.egl,
                final(self)@.egl,
                EglCall::SwapWithDamage { surface, rects },
            ),
    {
        let swapped: bool = self.egl.swap_with_damage(
            surface,
            rects,
            Ghost(crate::gl_device::moment(self.gl@)),
        );
        if !swapped {
            self.present.swap_with_damage_rejected = true;
        }
        swapped
    }

    /// Swap a surface.
    pub(crate) fn swap(&mut self, surface: usize) -> (result: Result<(), EglError>)
        requires
            old(self).wf(),
        ensures
            final(self).wf(),
            match result {
                Ok(_) => final(self)@ == (Mgr {
                    egl: crate::egl_device::EglModel {
                        swaps: old(self)@.egl.swaps.push((surface, None::<RectList>)),
                        swapped_at: old(self)@.egl.swapped_at.push(swap_moment(old(self)@)),
                        ..old(self)@.egl
                    },
                    ..old(self)@
                }),
                Err(e) => final(self)@ == refused(old(self)@, EglCall::SwapBuffers { surface }, e),
            },
    {
        self.egl.swap_buffers(surface, Ghost(crate::gl_device::moment(self.gl@)))
    }

    // ---- what a lost share group is owed --------------------------------------------------

    /// Put a restore plan by.
    pub(crate) fn put_debt(&mut self, plan: ShareGroupRestorePlan)
        requires
            old(self).wf(),
            in_order(plan.offscreen@),
        ensures
            final(self).wf(),
            final(self)@ == (Mgr { debt: Some(plan@), ..old(self)@ }),
    {
        self.restore = Some(plan);
    }

    /// Take the restore plan that was put by.
    pub(crate) fn take_debt(&mut self) -> (plan: Option<ShareGroupRestorePlan>)
        requires
            old(self).wf(),
        ensures
            final(self).wf(),
            (plan is Some) == (old(self)@.debt is Some),
            plan matches Some(p) ==> old(self)@.debt == Some(p@) && in_order(p.offscreen@),
            final(self)@ == (Mgr { debt: None, ..old(self)@ }),
    {
        self.restore.take()
    }

    /// Whether a restore plan is put by.
    pub(crate) fn has_debt(&self) -> (b: bool)
        ensures
            b == (self@.debt is Some),
    {
        self.restore.is_some()
    }

    // ---- copies, snapshots and uploads ------------------------------------------------------

    /// Forget the framebuffer through which textures were copied to a canvas.
    pub(crate) fn forget_copy_fbo(&mut self, id: u32) -> (fbo: Option<u32>)
        requires
            old(self).wf(),
        ensures
            final(self).wf(),
            fbo == (if old(self)@.copy_fbos.dom().contains(id) {
                Some(old(self)@.copy_fbos[id])
            } else {
                None
            }),
            final(self)@ == (Mgr { copy_fbos: old(self)@.copy_fbos.remove(id), ..old(self)@ }),
    {
        self.copy_fbos.forget(id)
    }

    /// Forget all of them.
    pub(crate) fn forget_copy_fbos(&mut self)
        requires
            old(self).wf(),
        ensures
            final(self).wf(),
            final(self)@ == (Mgr { copy_fbos: Map::empty(), ..old(self)@ }),
    {
        self.copy_fbos = CopyFramebuffers::new();
    }

    /// The framebuffer through which textures are copied to a canvas, made when it is first
    /// asked for. `None` where the driver has none to give.
    pub fn ensure_image_copy_fbo(&mut self, id: u32) -> (fbo: Option<u32>)
        requires
            old(self).wf(),
        ensures
            final(self).wf(),
            copy_fbo_ready(old(self)@, final(self)@, id, fbo),
    {
        self.copy_fbos.ensure_image_copy_fbo(&mut self.gl, id)
    }

    /// A snapshot of the pool.
    pub fn snapshot(&self, snapshot_id: u32) -> (entry: Option<SnapshotEntry>)
        requires
            self.wf(),
        ensures
            entry == (if self@.snapshots.entries.dom().contains(snapshot_id) {
                Some(self@.snapshots.entries[snapshot_id])
            } else {
                None
            }),
    {
        self.snapshots.get(snapshot_id)
    }

    /// What becomes of a request for a snapshot.
    pub(crate) fn decide_snapshot(&self, r: SnapshotRequest, source: Option<Source2d>) -> (a: Admission)
        requires
            self.wf(),
        ensures
            a == crate::snapshots::admission(self@.snapshots, r, source, self@.cfg.gles_major),
    {
        self.snapshots.decide(r, source, self.cfg.gles_major)
    }

    /// Capture a region of the canvas that is current.
    pub(crate) fn capture_snapshot(&mut self, r: SnapshotRequest, source: Source2d, bytes: usize) -> (result:
        Result<u32, SnapshotError>)
        requires
            old(self).wf(),
            crate::snapshots::admission(
                old(self)@.snapshots,
                r,
                Some(source),
                old(self)@.cfg.gles_major,
            ) == (Admission::Admitted { bytes }),
        ensures
            final(self).wf(),
            final(self)@ == (Mgr {
                gl: final(self)@.gl,
                snapshots: final(self)@.snapshots,
                ..old(self)@
            }),
            region_captured(old(self)@, final(self)@, r, source, bytes, result),
    {
        let result = self.snapshots.capture(
            &mut self.gl,
            r,
            source,
            self.cfg.gles_major,
            bytes,
        );
        proof {
            let fbo = self.snapshots.blit_framebuffer();
            assert(crate::snapshots::captured(
                r,
                source,
                bytes,
                old(self)@.gl,
                self@.gl,
                old(self)@.snapshots,
                self@.snapshots,
                fbo,
                result,
            ));
        }
        result
    }

    /// Mark a snapshot for the text cache. Nothing happens where there is none.
    pub fn mark_snapshot_for_text_cache(&mut self, snapshot_id: u32, key: u64)
        requires
            old(self).wf(),
        ensures
            final(self).wf(),
            final(self)@ == (Mgr {
                snapshots: crate::snapshots::marked(old(self)@.snapshots, snapshot_id, key),
                ..old(self)@
            }),
    {
        self.snapshots.mark_snapshot_for_text_cache(snapshot_id, key);
    }

    /// Take a snapshot out of the pool.
    pub(crate) fn take_snapshot(&mut self, snapshot_id: u32) -> (entry: Option<SnapshotEntry>)
        requires
            old(self).wf(),
        ensures
            final(self).wf(),
            entry == (if old(self)@.snapshots.entries.dom().contains(snapshot_id) {
                Some(old(self)@.snapshots.entries[snapshot_id])
            } else {
                None
            }),
            final(self)@ == (Mgr {
                snapshots: crate::snapshots::without_snapshot(old(self)@.snapshots, snapshot_id),
                ..old(self)@
            }),
    {
        self.snapshots.remove_canvas2d_snapshot(snapshot_id)
    }

    /// Read a snapshot's pixels back, with a context current.
    pub(crate) fn read_snapshot<ReadBack: Fn(u32, u32) -> Vec<u8>>(
        &mut self,
        entry: SnapshotEntry,
        read: &ReadBack,
    ) -> (result: Option<Vec<u8>>)
        requires
            old(self).wf(),
            call_requires(read, (entry.width, entry.height)),
        ensures
            final(self).wf(),
            final(self)@ == (Mgr { gl: final(self)@.gl, ..old(self)@ }),
            crate::snapshots::pixels_read(old(self)@.gl, final(self)@.gl, entry, *read, result),
            old(self).readback_framebuffer() != 0 ==> result is Some,
            result is Some ==> final(self).readback_framebuffer() != 0,
    {
        self.snapshots.read_pixels(&mut self.gl, entry, read)
    }

    /// Give up the framebuffers that captures and readbacks go through.
    pub(crate) fn take_snapshot_framebuffers(&mut self) -> (names: (u32, u32))
        requires
            old(self).wf(),
        ensures
            final(self).wf(),
            final(self)@ == old(self)@,
            names == old(self).snapshot_framebuffers(),
            final(self).snapshot_framebuffers() == (0u32, 0u32),
    {
        self.snapshots.take_framebuffers()
    }

    /// The framebuffers that captures and readbacks go through, each zero where there is none.
    pub closed spec fn snapshot_framebuffers(&self) -> (u32, u32) {
        (self.snapshots.blit_framebuffer(), self.snapshots.read_framebuffer())
    }

    /// How often a capture has waited for a fence since that was last asked.
    pub fn take_snapshot_fence_waits(&mut self) -> (n: u32)
        requires
            old(self).wf(),
        ensures
            final(self).wf(),
            n == old(self)@.snapshots.waits,
            final(self)@ == (Mgr {
                snapshots: crate::snapshots::Pool { waits: 0, ..old(self)@.snapshots },
                ..old(self)@
            }),
    {
        self.snapshots.take_snapshot_fence_waits()
    }

    /// The framebuffer that snapshots are read back through, or zero.
    pub closed spec fn readback_framebuffer(&self) -> u32 {
        self.snapshots.read_framebuffer()
    }

    /// Empty the snapshot pool, where a context is current to delete its textures.
    pub(crate) fn drain_snapshots(&mut self, context_is_current: bool) -> (drain: SnapshotDrain)
        requires
            old(self).wf(),
        ensures
            final(self).wf(),
            final(self)@ == (Mgr { snapshots: final(self)@.snapshots, ..old(self)@ }),
            context_is_current ==> {
                &&& final(self)@.snapshots.order.len() == 0
                &&& drain.to_delete@ == crate::snapshots::unkept(
                    old(self)@.snapshots.entries,
                    old(self)@.snapshots.order,
                )
                &&& drain.to_cache@ == crate::snapshots::kept(
                    old(self)@.snapshots.entries,
                    old(self)@.snapshots.order,
                )
            },
            !context_is_current ==> final(self)@ == old(self)@ && drain.to_delete@.len() == 0
                && drain.to_cache@.len() == 0,
    {
        self.snapshots.drain_now(context_is_current)
    }

    /// Forget the snapshot pool: what it named is gone.
    pub(crate) fn abandon_snapshots(&mut self)
        requires
            old(self).wf(),
        ensures
            final(self).wf(),
            final(self)@ == (Mgr {
                snapshots: crate::snapshots::Pool {
                    entries: Map::empty(),
                    order: Seq::empty(),
                    ..old(self)@.snapshots
                },
                ..old(self)@
            }),
    {
        self.snapshots.abandon();
    }

    /// The upload thread is gone with all that was in flight on it.
    pub(crate) fn lose_upload_thread(&mut self)
        requires
            old(self).wf(),
        ensures
            final(self).wf(),
            final(self)@ == (Mgr { uploads: final(self)@.uploads, ..old(self)@ }),
            final(self)@.uploads == (crate::uploads::Ledger {
                budget: None,
                pending: Seq::empty(),
                cancelled: Set::empty(),
                ..old(self)@.uploads
            }),
    {
        self.uploads.lose_thread();
    }

    /// The upload thread was stopped.
    pub(crate) fn ungate_uploads(&mut self)
        requires
            old(self).wf(),
        ensures
            final(self).wf(),
            final(self)@ == (Mgr { uploads: final(self)@.uploads, ..old(self)@ }),
            final(self)@.uploads == (crate::uploads::Ledger {
                budget: None,
                ..old(self)@.uploads
            }),
    {
        self.uploads.ungate();
    }

    /// An upload thread runs, gated by `server`.
    pub(crate) fn gate_uploads(&mut self, server: UploadServer)
        requires
            old(self).wf(),
        ensures
            final(self).wf(),
            final(self)@ == (Mgr { uploads: final(self)@.uploads, ..old(self)@ }),
            final(self)@.uploads == (crate::uploads::Ledger {
                budget: Some(server@),
                ..old(self)@.uploads
            }),
    {
        self.uploads.gate(server);
    }

    /// The books of the uploads.
    pub fn uploads_mut(&mut self) -> (uploads: &mut UploadLedger)
        requires
            old(self).wf(),
        ensures
            uploads.wf(),
            uploads@ == old(self)@.uploads,
            final(uploads).wf() ==> final(self).wf(),
            final(self)@ == (Mgr { uploads: final(uploads)@, ..old(self)@ }),
    {
        &mut self.uploads
    }
}

/// Why the window could not be copied into a drawing buffer: one of the two has no pixels,
/// or the driver reported an error or an incomplete framebuffer last.
pub open spec fn copy_refused(
    after: Mgr,
    db: crate::drawing_buffer::DrawingBuffer,
    width: u32,
    height: u32,
) -> bool {
    ||| width == 0 || height == 0 || db.width == 0 || db.height == 0
    ||| after.gl.errors.last() != crate::gl::NO_ERROR
    ||| after.gl.statuses.last() != crate::gl::FRAMEBUFFER_COMPLETE
}

/// How often the display and the 2D contexts have refused.
pub open spec fn refusals(m: Mgr) -> nat {
    m.egl.refused.len() + m.paint.refused.len()
}

/// How far the calls have come that a swap comes behind.
pub open spec fn swap_moment(m: Mgr) -> (crate::gl_device::Moment, nat) {
    (crate::gl_device::moment(m.gl), m.egl.intervals.len())
}

/// Refusals only add up, and what was answered wrongly stays so.
pub open spec fn grew(before: Mgr, after: Mgr) -> bool {
    &&& refusals(after) >= refusals(before)
    &&& crate::egl_device::remembers(before.egl, after.egl)
    &&& after.tried.len() >= before.tried.len()
    &&& after.gl.viewports.len() >= before.gl.viewports.len()
    &&& after.paint.forgotten >= before.paint.forgotten
    &&& after.paint.truthful ==> before.paint.truthful
}

/// An error has its cause: the canvas is not there, or a device has refused.
pub open spec fn caused(before: Mgr, after: Mgr, id: u32, e: CanvasError) -> bool {
    if e is NotFound {
        !before.canvases.dom().contains(id)
    } else {
        refusals(after) > refusals(before)
    }
}

/// A canvas's framebuffer for copies was there, was made or could not be made.
pub open spec fn copy_fbo_ready(before: Mgr, after: Mgr, id: u32, fbo: Option<u32>) -> bool {
    if before.copy_fbos.dom().contains(id) {
        fbo == Some(before.copy_fbos[id]) && after == before
    } else {
        match fbo {
            Some(name) => name != 0 && after == (Mgr {
                gl: crate::gl_device::GlModel {
                    framebuffers: before.gl.framebuffers.insert(name),
                    ..before.gl
                },
                copy_fbos: before.copy_fbos.insert(id, name),
                ..before
            }),
            None => after == (Mgr {
                gl: crate::gl_device::unmade(before.gl, GlCall::CreateFramebuffer),
                ..before
            }),
        }
    }
}

/// A region of the current canvas was captured, or was not.
pub open spec fn region_captured(
    before: Mgr,
    after: Mgr,
    r: SnapshotRequest,
    source: Source2d,
    bytes: usize,
    result: Result<u32, SnapshotError>,
) -> bool {
    &&& exists|fbo: u32| #[trigger]
        crate::snapshots::captured(
            r,
            source,
            bytes,
            before.gl,
            after.gl,
            before.snapshots,
            after.snapshots,
            fbo,
            result,
        )
    &&& after.gl.copies == before.gl.copies
    &&& result matches Err(e) ==> !(e is TooLarge) && !(e is MakeCurrent)
}

/// The same 2D contexts, shadows, debts, copies, snapshots and uploads.
pub open spec fn same_books(a: Mgr, b: Mgr) -> bool {
    &&& a.paint == b.paint
    &&& a.dropped == b.dropped
    &&& a.adrift == b.adrift
    &&& a.contexts == b.contexts
    &&& a.dirty == b.dirty
    &&& a.shadows == b.shadows
    &&& a.debt == b.debt
    &&& a.copy_fbos == b.copy_fbos
    &&& a.snapshots == b.snapshots
    &&& a.uploads == b.uploads
}

/// The same frames to repair from, and the same swaps.
pub open spec fn same_frames(a: Mgr, b: Mgr) -> bool {
    &&& a.damage == b.damage
    &&& a.history == b.history
    &&& a.plan == b.plan
    &&& a.swap_interval == b.swap_interval
    &&& a.swap_damage_rejected == b.swap_damage_rejected
}

/// The session has the same root, window and history of its own.
pub open spec fn same_session(a: Mgr, b: Mgr) -> bool {
    &&& a.cfg == b.cfg
    &&& a.root == b.root
    &&& a.shared_2d == b.shared_2d
    &&& a.flags == b.flags
    &&& a.window == b.window
    &&& a.pending == b.pending
    &&& a.preserved == b.preserved
    &&& a.next_canvas_id == b.next_canvas_id
    &&& a.tried == b.tried
}

/// The display has the same contexts, surfaces and targets.
pub open spec fn same_objects(
    a: crate::egl_device::EglModel,
    b: crate::egl_device::EglModel,
) -> bool {
    &&& a.contexts == b.contexts
    &&& a.surfaces == b.surfaces
    &&& same_targets(a, b)
}

/// The display holds the same native targets, and is as far up.
pub open spec fn same_targets(
    a: crate::egl_device::EglModel,
    b: crate::egl_device::EglModel,
) -> bool {
    &&& a.windows == b.windows
    &&& a.reported == b.reported
    &&& a.rate_requests == b.rate_requests
    &&& a.reconfigured == b.reconfigured
    &&& a.surfaces_gone == b.surfaces_gone
    &&& a.uploads == b.uploads
    &&& a.root == b.root
    &&& a.up == b.up
    &&& a.terminated == b.terminated
}

/// The session with a drawing buffer's objects deleted.
pub open spec fn without_buffer(m: Mgr, db: DrawingBuffer) -> Mgr {
    Mgr {
        gl: crate::gl_device::GlModel {
            textures: m.gl.textures.remove(db.color_tex),
            framebuffers: m.gl.framebuffers.remove(db.fbo),
            renderbuffers: m.gl.renderbuffers.remove(db.depth_stencil_rb),
            ..m.gl
        },
        unbuffered: m.unbuffered.push((db.fbo, current_context(m))),
        ..m
    }
}

/// The session whose next present repairs everything.
pub open spec fn restarted(m: Mgr) -> Mgr {
    Mgr {
        history: Seq::empty(),
        plan: None,
        damage: crate::damage::after_effect(m.damage, DamageEffect::FullSurface),
        ..m
    }
}

/// The display with nothing current.
pub open spec fn nothing_current(m: crate::egl_device::EglModel) -> crate::egl_device::EglModel {
    crate::egl_device::EglModel {
        ledger: crate::surface_ledger::after_make_current(None, None, None),
        ..m
    }
}

/// The call that creates a context which shares the objects of another.
pub open spec fn sharing_call(cfg: Config, share: Option<usize>) -> EglCall {
    EglCall::CreateContext { share, gles_major: cfg.gles_major, robust: cfg.has_robust_context }
}

/// The call that creates a session's contexts.
pub open spec fn context_call(cfg: Config, root: EglContextHandle) -> EglCall {
    sharing_call(cfg, Some(root.ctx))
}

/// Nothing has come to pass.
pub open spec fn no_flags() -> Flags {
    Flags {
        needs_default_fbo_readback: false,
        context_lost: false,
        surface_unavailable: false,
        force_onscreen_recreate: false,
        simulated_reset: false,
        teardown_complete: false,
        native_release_confirmed: false,
    }
}

/// The display after a surface was destroyed.
pub open spec fn surface_destroyed(
    m: crate::egl_device::EglModel,
    surface: usize,
) -> crate::egl_device::EglModel {
    crate::egl_device::after_egl_call(
        crate::egl_device::noted(m, surface),
        EglCall::DestroySurface { surface },
        Ok(0),
    )
}

/// The display after the driver refused to destroy a surface.
pub open spec fn surface_kept(
    m: crate::egl_device::EglModel,
    surface: usize,
    e: EglError,
) -> crate::egl_device::EglModel {
    crate::egl_device::refusal(
        crate::egl_device::noted(m, surface),
        EglCall::DestroySurface { surface },
        e,
    )
}

/// The display after a context was destroyed.
pub open spec fn context_destroyed(
    m: crate::egl_device::EglModel,
    context: usize,
) -> crate::egl_device::EglModel {
    crate::egl_device::after_egl_call(m, EglCall::DestroyContext { context }, Ok(0))
}

/// The shadow of a fresh context whose viewport covers a buffer.
pub open spec fn fresh_state(state: CanvasGLState, width: u32, height: u32) -> bool {
    &&& state.viewport == Some((0i32, 0i32, width as i32, height as i32))
    &&& (CanvasGLState { viewport: None, ..state }).bindings_unknown()
    &&& state.pipeline_unknown()
    &&& state.draws_to_default_fbo
}

/// A read of a canvas consumes its default framebuffer.
#[verifier::opaque]
pub open spec fn default_read(m: Mgr, id: u32, gl_major: u32) -> bool {
    let here = m.canvases.dom().contains(id);
    let probed = here && m.canvases[id].drawing_buffer is Some;
    let default = if here {
        default_fbo(m.canvases[id])
    } else {
        None
    };
    let (target, _) = crate::default_framebuffer::read_target(gl_major, probed);
    let known = if m.shadows.dom().contains(id) {
        crate::shadows::known_framebuffer(m.shadows[id].bound_framebuffer@, target)
    } else {
        None
    };
    match known {
        Some(bound) => bound is None,
        None => crate::default_framebuffer::named(
            if target == crate::gl::READ_FRAMEBUFFER {
                m.gl.bindings.read_framebuffer
            } else {
                m.gl.bindings.draw_framebuffer
            },
        ) == default,
    }
}

/// A canvas that has recorded something is dirty, once; the others keep their order.
pub proof fn law_a_canvas_is_dirty_once<
    F: Fn(GlCall) -> u32,
    H: Fn(EglCall) -> Result<usize, EglError>,
    P: Fn(PaintCall) -> u64,
>(id: u32)
    ensures
        forall|m: &mut CanvasManager<F, H, P>|
            #[trigger] call_ensures(CanvasManager::<F, H, P>::mark_2d_dirty, (m, id), ()) ==> {
                let before = (*m)@.dirty;
                let after = (*final(m))@.dirty;
                &&& before.contains(id) ==> after == before
                &&& !before.contains(id) ==> after.len() == before.len() + 1 && after.last() == id
                    && after.drop_last() =~= before
            },
{
}

/// An identifier that is given out is not the next one, and the next follows it.
pub proof fn law_identifiers_follow_each_other<
    F: Fn(GlCall) -> u32,
    H: Fn(EglCall) -> Result<usize, EglError>,
    P: Fn(PaintCall) -> u64,
>(id: u32)
    ensures
        forall|m: &mut CanvasManager<F, H, P>|
            #[trigger] call_ensures(CanvasManager::<F, H, P>::new_canvas_id, (m,), id) ==> {
                let next = (*final(m))@.next_canvas_id;
                &&& id == (*m)@.next_canvas_id
                &&& next != id
                &&& id < u32::MAX ==> next == id + 1
                &&& (*final(m))@.canvases == (*m)@.canvases
            },
{
}

/// A session starts with the root current, without canvases, and with nothing presented; the
/// first identifier that it gives out is the one behind the canvas of the window.
pub proof fn law_how_a_session_starts<
    F: Fn(GlCall) -> u32,
    H: Fn(EglCall) -> Result<usize, EglError>,
    P: Fn(PaintCall) -> u64,
>(
    gl: Gl<F>,
    egl: EglRuntime<H>,
    paint: Painters<P>,
    cfg: Config,
    root: EglContextHandle,
    frame_rate: u32,
    pixel_ratio: PixelRatio,
    uploads: UploadLedger,
    m: CanvasManager<F, H, P>,
)
    requires
        call_ensures(
            CanvasManager::<F, H, P>::new,
            (gl, egl, paint, cfg, root, frame_rate, pixel_ratio, uploads),
            m,
        ),
    ensures
        m@.next_canvas_id == 2,
        m@.bound is Resource,
        m@.canvases.dom() =~= Set::<u32>::empty(),
        m@.swap_interval == -1,
        m@.window.installed is None,
        m@.window.frame_rate == frame_rate,
        m@.window.content_backing is None,
        !m@.flags.context_lost,
        !m@.flags.needs_default_fbo_readback,
        !m@.damage.full && m@.damage.rects.len() == 0,
{
}

} // verus!
