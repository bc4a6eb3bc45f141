use std::cell::RefCell;
use std::collections::HashMap;
use std::rc::Rc;

use graphics::canvas2d::{Canvas2dCmd, Canvas2dStep, Renderer2d};
use graphics::canvases::BackingSizeOwner;
use graphics::default_framebuffer::can_bypass_drawing_buffer;
use graphics::egl_device::{EglCall, EglRuntime};
use graphics::egl_setup::EglError;
use graphics::gl_device::{Code, Container, Gl, GlCall, TextureCopy, TextureDestination};
use graphics::handler::{
    CanvasAnswer, CanvasCmd, CanvasHandler, DecodedImage, ImagePriority, LoadFacts, Misrouted,
};
use graphics::images::{CompressedImage, ImageCall, ImageError, StoredTexture};
use graphics::install::{InstallFacts, InstallPhase, InstallPolicy};
use graphics::manager::{BoundContext, CanvasError, CanvasManager, Config, Extent, ONSCREEN};
use graphics::objects::GlObject;
use graphics::onscreen::CandidateCleanup;
use graphics::painters::{PaintCall, PaintTrim, Painters, StaleState};
use graphics::pixel_ratio::PixelRatio;
use graphics::recovery::{plan_share_group_restore, RestoreSource};
use graphics::shutdown::LiveObjects;
use graphics::snapshots::{
    checked_canvas_rgba_byte_len, CachedText, CopyError, SnapshotError, SnapshotRequest,
    MAX_LIVE_CANVAS2D_SNAPSHOTS, MAX_LIVE_CANVAS2D_SNAPSHOT_BYTES,
};
use graphics::startup::create_root;
use graphics::uploads::{AsyncUploadRejectAction, UploadServer};

type Refusal = fn(&EglCall) -> Option<EglError>;

/// A blit as the driver saw it: what was read, what was written, and whether it was clipped.
#[derive(Clone, Copy, Debug, PartialEq)]
struct Blitted {
    read: u32,
    draw: u32,
    clipped: bool,
}

/// One call, on whichever device it was made.
#[derive(Clone, Copy, Debug, PartialEq)]
enum Step {
    Gl(GlCall),
    Egl(EglCall),
    Paint(PaintCall),
}

struct World {
    /// Every call on the three devices, in order.
    steps: Vec<Step>,
    next: u32,
    read: u32,
    draw: u32,
    renderbuffer: u32,
    unit: u32,
    textures: HashMap<u32, u32>,
    buffers: HashMap<u32, u32>,
    store: HashMap<u32, u32>,
    scissor: bool,
    errors: Vec<u32>,
    status: u32,
    wait: u32,
    reset: u32,
    gl_log: Vec<GlCall>,
    blits: Vec<Blitted>,
    egl_log: Vec<EglCall>,
    handle: usize,
    refuse: Option<Refusal>,
    age: usize,
    states: HashMap<u32, u64>,
    paint_log: Vec<PaintCall>,
    refuse_paint: bool,
    refuse_resize: bool,
    refuse_framebuffers: bool,
}

type Shared = Rc<RefCell<World>>;

fn world() -> Shared {
    Rc::new(RefCell::new(World {
        steps: Vec::new(),
        next: 100,
        read: 0,
        draw: 0,
        renderbuffer: 0,
        unit: glow::TEXTURE0,
        textures: HashMap::new(),
        buffers: HashMap::new(),
        store: HashMap::new(),
        scissor: false,
        errors: Vec::new(),
        status: glow::FRAMEBUFFER_COMPLETE,
        wait: glow::ALREADY_SIGNALED,
        reset: 0,
        gl_log: Vec::new(),
        blits: Vec::new(),
        egl_log: Vec::new(),
        handle: 1000,
        refuse: None,
        age: 0,
        states: HashMap::new(),
        paint_log: Vec::new(),
        refuse_paint: false,
        refuse_resize: false,
        refuse_framebuffers: false,
    }))
}

fn run_gl(w: &mut World, call: GlCall) -> u32 {
    w.gl_log.push(call);
    w.steps.push(Step::Gl(call));
    match call {
        GlCall::Enable { cap } => {
            if cap == glow::SCISSOR_TEST {
                w.scissor = true;
            }
            0
        }
        GlCall::Disable { cap } => {
            if cap == glow::SCISSOR_TEST {
                w.scissor = false;
            }
            0
        }
        GlCall::IsEnabled { cap } => u32::from(cap == glow::SCISSOR_TEST && w.scissor),
        GlCall::GetInteger { pname } => match pname {
            glow::ACTIVE_TEXTURE => w.unit,
            glow::TEXTURE_BINDING_2D => *w.textures.get(&w.unit).unwrap_or(&0),
            glow::READ_FRAMEBUFFER_BINDING => w.read,
            glow::DRAW_FRAMEBUFFER_BINDING => w.draw,
            glow::RENDERBUFFER_BINDING => w.renderbuffer,
            glow::PIXEL_UNPACK_BUFFER_BINDING => {
                *w.buffers.get(&glow::PIXEL_UNPACK_BUFFER).unwrap_or(&0)
            }
            glow::PIXEL_PACK_BUFFER_BINDING => {
                *w.buffers.get(&glow::PIXEL_PACK_BUFFER).unwrap_or(&0)
            }
            other => *w.store.get(&other).unwrap_or(&0),
        },
        GlCall::GetError => w.errors.pop().unwrap_or(0),
        GlCall::CreateFramebuffer if w.refuse_framebuffers => 0,
        GlCall::CreateTexture
        | GlCall::CreateFramebuffer
        | GlCall::CreateRenderbuffer
        | GlCall::CreateBuffer
        | GlCall::FenceSync => {
            w.next += 1;
            w.next
        }
        GlCall::ActiveTexture { unit } => {
            w.unit = unit;
            0
        }
        GlCall::BindTexture { name, .. } => {
            let unit = w.unit;
            w.textures.insert(unit, name);
            0
        }
        GlCall::BindFramebuffer { target, name } => {
            if target != glow::DRAW_FRAMEBUFFER {
                w.read = name;
            }
            if target != glow::READ_FRAMEBUFFER {
                w.draw = name;
            }
            0
        }
        GlCall::BindRenderbuffer { name } => {
            w.renderbuffer = name;
            0
        }
        GlCall::BindBuffer { target, name } => {
            w.buffers.insert(target, name);
            0
        }
        GlCall::PixelStore { pname, value } => {
            w.store.insert(pname, value);
            0
        }
        GlCall::CheckFramebufferStatus { .. } => w.status,
        GlCall::CopyTexture { .. } => glow::FRAMEBUFFER_COMPLETE,
        GlCall::Blit { .. } => {
            let seen = Blitted { read: w.read, draw: w.draw, clipped: w.scissor };
            w.blits.push(seen);
            0
        }
        GlCall::ClientWaitSync { .. } => w.wait,
        GlCall::GraphicsResetStatus => w.reset,
        _ => 0,
    }
}

fn run_egl(w: &mut World, call: EglCall) -> Result<usize, EglError> {
    w.egl_log.push(call);
    w.steps.push(Step::Egl(call));
    if let Some(refuse) = w.refuse {
        if let Some(e) = refuse(&call) {
            return Err(e);
        }
    }
    match call {
        EglCall::CreateContext { .. }
        | EglCall::CreatePbufferSurface { .. }
        | EglCall::CreateWindowSurface { .. } => {
            w.handle += 1;
            Ok(w.handle)
        }
        EglCall::QuerySurface { .. } => Ok(300),
        EglCall::BufferAge { .. } => Ok(w.age),
        _ => Ok(0),
    }
}

fn run_paint(w: &mut World, call: PaintCall) -> u64 {
    w.paint_log.push(call);
    w.steps.push(Step::Paint(call));
    match call {
        PaintCall::Create { canvas, .. } | PaintCall::CreateShared { canvas, .. } => {
            if w.refuse_paint {
                return 0;
            }
            w.states.insert(canvas, 0);
            7
        }
        PaintCall::CreateGroup => {
            if w.refuse_paint {
                0
            } else {
                9
            }
        }
        PaintCall::Resize { .. } => u64::from(!w.refuse_resize),
        PaintCall::DrawingState { canvas } => *w.states.get(&canvas).unwrap_or(&0),
        PaintCall::Adopt { canvas, state } => {
            w.states.insert(canvas, state);
            0
        }
        _ => 0,
    }
}

fn config() -> Config {
    Config {
        surfaceless: false,
        gles_major: 3,
        has_robust_context: false,
        reports_resets: false,
        has_buffer_age: false,
        has_ext_buffer_age: false,
        declares_damage: false,
        submits_damage: false,
        single_sample: true,
        share_2d: false,
        uploads_async: false,
        max_canvas_pixels: 1 << 24,
    }
}

fn session_with(
    w: &Shared,
    cfg: Config,
) -> CanvasManager<
    impl Fn(GlCall) -> u32,
    impl Fn(EglCall) -> Result<usize, EglError>,
    impl Fn(PaintCall) -> u64,
> {
    let (a, b, c) = (w.clone(), w.clone(), w.clone());
    let gl = Gl::new(move |call| run_gl(&mut a.borrow_mut(), call));
    let mut egl = EglRuntime::new(move |call| run_egl(&mut b.borrow_mut(), call));
    let paint = Painters::new(move |call| run_paint(&mut c.borrow_mut(), call));
    let root = create_root(&mut egl, cfg.gles_major, cfg.has_robust_context, cfg.surfaceless)
        .expect("a root");
    let mut server = UploadServer::new(4, 4096);
    server.set_frame_budget(2, 1024);
    CanvasManager::new_with_resource(gl, egl, paint, cfg, root, 60, ratio(1.0), server)
}

fn session(
    w: &Shared,
) -> CanvasManager<
    impl Fn(GlCall) -> u32,
    impl Fn(EglCall) -> Result<usize, EglError>,
    impl Fn(PaintCall) -> u64,
> {
    session_with(w, config())
}

fn recreate(_: InstallFacts) -> InstallPolicy {
    InstallPolicy::Recreate
}

fn ratio(value: f32) -> PixelRatio {
    PixelRatio::new(value.to_bits()).expect("a ratio")
}

/// Where a step stands that is the first to pass a test.
fn first(steps: &[Step], what: impl Fn(&Step) -> bool) -> usize {
    steps.iter().position(what).expect("a step")
}

fn same(surface: Extent, _: PixelRatio) -> Extent {
    surface
}

fn scaled(surface: Extent, ratio: PixelRatio) -> Extent {
    let ratio = f32::from_bits(ratio.bits());
    let side = |n: u32| (n as f32 / ratio) as u32;
    Extent { width: side(surface.width), height: side(surface.height) }
}

const SIZE: Option<Extent> = Some(Extent { width: 300, height: 200 });

fn rates(w: &Shared) -> Vec<(u64, u32)> {
    w.borrow()
        .egl_log
        .iter()
        .filter_map(|call| match call {
            EglCall::RequestFrameRate { target, fps } => Some((*target, *fps)),
            _ => None,
        })
        .collect()
}

fn adopted(w: &Shared, canvas: u32) -> Vec<u64> {
    w.borrow()
        .paint_log
        .iter()
        .filter_map(|call| match call {
            PaintCall::Adopt { canvas: c, state } if *c == canvas => Some(*state),
            _ => None,
        })
        .collect()
}

fn refuse_all_current(call: &EglCall) -> Option<EglError> {
    match call {
        EglCall::MakeCurrent { context: Some(_), .. } => Some(EglError::BadAccess),
        _ => None,
    }
}

fn refuse_pbuffers(call: &EglCall) -> Option<EglError> {
    match call {
        EglCall::CreatePbufferSurface { width: 64, .. } => Some(EglError::BadAlloc),
        _ => None,
    }
}

fn refuse_destroying(call: &EglCall) -> Option<EglError> {
    match call {
        EglCall::DestroySurface { .. } => Some(EglError::BadSurface),
        _ => None,
    }
}

fn refuse_swaps(call: &EglCall) -> Option<EglError> {
    match call {
        EglCall::SwapBuffers { .. } => Some(EglError::BadSurface),
        _ => None,
    }
}

fn refuse_windows(call: &EglCall) -> Option<EglError> {
    match call {
        EglCall::CreateWindowSurface { .. } => Some(EglError::BadNativeWindow),
        _ => None,
    }
}

fn request(id: u32, width: u32, height: u32) -> SnapshotRequest {
    SnapshotRequest { x: 0, y: 0, width, height, snapshot_id: id }
}

// ---- canvases ------------------------------------------------------------------------

#[test]
fn canvases_are_made_resized_and_destroyed() {
    let w = world();
    let mut cm = session(&w);
    let id = cm.create_offscreen(64, 32).expect("a canvas");
    assert_eq!(id, 2);
    assert_eq!(cm.get_canvas_size(id), Ok((64, 32)));
    assert_eq!(cm.resize_canvas(id, Some(10), None, BackingSizeOwner::Content), Ok(()));
    assert_eq!(cm.get_canvas_size(id), Ok((10, 32)));
    assert_eq!(cm.destroy_canvas(id, &vec![], &vec![]), Ok(()));
    assert_eq!(cm.get_canvas_size(id), Err(CanvasError::NotFound));
    assert_eq!(cm.get_info(id).err(), Some(CanvasError::NotFound));
}

#[test]
fn a_registered_canvas_is_left_as_it_is() {
    let w = world();
    let mut cm = session(&w);
    assert_eq!(cm.register_offscreen(5, 8, 8), Ok(()));
    assert_eq!(cm.register_offscreen(5, 100, 100), Ok(()));
    assert_eq!(cm.register_offscreen(5, 5000, 5000), Ok(()));
    assert_eq!(cm.get_canvas_size(5), Ok((8, 8)));
}

#[test]
fn a_canvas_with_too_many_pixels_is_refused() {
    let w = world();
    let mut cm = session(&w);
    assert_eq!(cm.create_offscreen(4097, 4096), Err(CanvasError::TooLarge));
    assert_eq!(cm.create_offscreen(4096, 4096), Ok(3));
    assert_eq!(
        cm.resize_canvas(3, Some(5000), None, BackingSizeOwner::Content),
        Err(CanvasError::TooLarge)
    );
}

#[test]
fn a_canvas_that_the_driver_refuses_is_not_there() {
    let w = world();
    let mut cm = session(&w);
    w.borrow_mut().refuse = Some(refuse_pbuffers);
    assert_eq!(cm.register_offscreen(5, 64, 32), Err(CanvasError::Egl(EglError::BadAlloc)));
    assert!(cm.canvas(5).is_none());
}

#[test]
fn content_cannot_destroy_the_onscreen_canvas() {
    let w = world();
    let mut cm = session(&w);
    cm.create_onscreen(7, SIZE, false, None, &recreate, &same).expect("installed");
    assert_eq!(cm.destroy_canvas(ONSCREEN, &vec![], &vec![]), Err(CanvasError::Onscreen));
    assert!(cm.canvas(ONSCREEN).is_some());
}

#[test]
fn the_objects_of_a_destroyed_canvas_are_deleted() {
    let w = world();
    let mut cm = session(&w);
    let id = cm.create_offscreen(4, 4).expect("a canvas");
    assert_eq!(cm.destroy_canvas(id, &vec![55], &vec![66]), Ok(()));
    let w = w.borrow();
    assert!(w.gl_log.contains(&GlCall::DeleteTexture { name: 55 }));
    assert!(w.gl_log.contains(&GlCall::DeleteRenderbuffer { name: 66 }));
}

#[test]
fn making_a_canvas_current_asks_the_driver_once() {
    let w = world();
    let mut cm = session(&w);
    let id = cm.create_offscreen(4, 4).expect("a canvas");
    assert_eq!(cm.make_current_needed(id), Ok(()));
    let calls = w.borrow().egl_log.len();
    assert_eq!(cm.make_current_needed(id), Ok(()));
    assert_eq!(w.borrow().egl_log.len(), calls);
    assert_eq!(cm.current_canvas_id(), Some(id));
    assert_eq!(cm.make_current_needed(99), Err(CanvasError::NotFound));
}

// ---- the window ------------------------------------------------------------------------

#[test]
fn every_onscreen_install_re_asserts_the_frame_rate_request() {
    let w = world();
    let mut cm = session(&w);
    cm.set_frame_rate_request(90);
    cm.create_onscreen(7, SIZE, false, None, &recreate, &same).expect("installed");
    assert_eq!(rates(&w), vec![(7, 90)]);
    cm.create_onscreen(8, SIZE, true, None, &recreate, &same).expect("installed");
    assert_eq!(rates(&w), vec![(7, 90), (8, 90)]);
    cm.request_simulated_reset();
    assert!(cm.check_graphics_reset_status());
    let server = UploadServer::new(4, 4096);
    assert_eq!(cm.try_recover_context(server, &recreate, &same), Ok(true));
    assert_eq!(
        rates(&w),
        vec![(7, 90), (8, 90), (8, 90)],
        "an install that bypasses the request leaves the display in whatever mode it was"
    );
}

#[test]
fn a_failed_install_says_what_is_left() {
    let w = world();
    let mut cm = session(&w);
    w.borrow_mut().refuse = Some(refuse_windows);
    let failure = cm.create_onscreen(7, SIZE, true, None, &recreate, &same).expect_err("refused");
    assert_eq!(failure.error, CanvasError::Egl(EglError::BadNativeWindow));
    assert_eq!(failure.phase, InstallPhase::PreviousInvalidated);
    assert_eq!(failure.cleanup, CandidateCleanup::NotRequired);
    assert!(!failure.previous_usable);
    assert!(cm.canvas(ONSCREEN).is_none());
}

#[test]
fn content_owns_the_size_that_it_gave() {
    let w = world();
    let mut cm = session(&w);
    cm.create_onscreen(7, SIZE, false, None, &recreate, &same).expect("installed");
    assert_eq!(
        cm.resize_canvas(ONSCREEN, Some(120), Some(80), BackingSizeOwner::Content),
        Ok(())
    );
    cm.create_onscreen(8, SIZE, true, None, &recreate, &same).expect("installed");
    assert_eq!(cm.get_canvas_size(ONSCREEN), Ok((120, 80)));
}

#[test]
fn a_resize_in_place_keeps_the_surface() {
    let w = world();
    let mut cm = session(&w);
    cm.create_onscreen(7, SIZE, false, None, &recreate, &same).expect("installed");
    assert_eq!(cm.init_skia_for_canvas(ONSCREEN), Ok(()));
    let surface = cm.canvas(ONSCREEN).expect("there").ctx.surf;
    let larger = Some(Extent { width: 400, height: 500 });
    cm.create_onscreen(7, larger, true, None, &|_: InstallFacts| InstallPolicy::FastResize, &same)
        .expect("resized");
    assert_eq!(cm.canvas(ONSCREEN).expect("there").ctx.surf, surface);
    assert_eq!(cm.get_canvas_size(ONSCREEN), Ok((400, 500)));
}

#[test]
fn a_window_that_the_driver_keeps_stays_installed() {
    let w = world();
    let mut cm = session(&w);
    cm.create_onscreen(7, SIZE, false, None, &recreate, &same).expect("installed");
    w.borrow_mut().refuse = Some(refuse_destroying);
    assert_eq!(cm.release_onscreen(), Err(CanvasError::Egl(EglError::BadSurface)));
    assert_eq!(cm.window().installed, Some(7));
    w.borrow_mut().refuse = None;
    assert_eq!(cm.release_onscreen(), Ok(()));
    assert_eq!(cm.window().installed, None);
    assert_eq!(cm.release_onscreen(), Ok(()));
}

// ---- recovery --------------------------------------------------------------------------

#[test]
fn teardown_captures_the_restore_plan_before_dropping_canvases() {
    let w = world();
    let mut cm = session(&w);
    cm.create_onscreen(7, SIZE, false, None, &recreate, &same).expect("installed");
    assert_eq!(cm.register_offscreen(16777217, 256, 128), Ok(()));
    cm.request_simulated_reset();
    assert!(cm.check_graphics_reset_status());
    let server = UploadServer::new(4, 4096);
    assert_eq!(cm.try_recover_context(server, &recreate, &same), Ok(true));
    assert_eq!(
        cm.get_canvas_size(16777217),
        Ok((256, 128)),
        "the restore plan must be captured while the canvases are still known"
    );
}

#[test]
fn recovery_restores_the_canvases_the_teardown_destroyed() {
    let w = world();
    let mut cm = session(&w);
    cm.create_onscreen(7, SIZE, false, None, &recreate, &same).expect("installed");
    assert_eq!(cm.register_offscreen(5, 64, 32), Ok(()));
    assert_eq!(cm.init_skia_for_canvas(5), Ok(()));
    cm.request_simulated_reset();
    assert!(cm.check_graphics_reset_status());
    w.borrow_mut().steps.clear();
    let server = UploadServer::new(4, 4096);
    assert_eq!(cm.try_recover_context(server, &recreate, &same), Ok(true));
    assert!(cm.canvas(5).is_some());
    assert!(cm.context_2d(5).is_some());
    let w = w.borrow();
    let teardown = first(&w.steps, |s| matches!(s, Step::Egl(EglCall::DestroyContext { .. })));
    let onscreen = first(&w.steps, |s| matches!(s, Step::Egl(EglCall::CreateWindowSurface { .. })));
    let restore = first(&w.steps, |s| {
        matches!(s, Step::Egl(EglCall::CreatePbufferSurface { width: 64, height: 32 }))
    });
    assert!(
        teardown < onscreen && onscreen < restore,
        "order must be teardown -> onscreen rebuild -> restore of the remaining canvases"
    );
    let painter = first(&w.steps, |s| {
        matches!(s, Step::Paint(PaintCall::Create { canvas: 5, .. }))
    });
    let probe = first(&w.steps, |s| *s == Step::Gl(GlCall::ClearProbe));
    assert!(
        restore < probe && painter < probe,
        "the probe must run against a fully restored share group"
    );
    assert_eq!(w.steps.get(probe + 1), Some(&Step::Gl(GlCall::GetError)));
}

#[test]
fn a_failed_recovery_hands_its_restore_debt_to_the_next_attempt() {
    let w = world();
    let mut cm = session(&w);
    cm.create_onscreen(7, SIZE, false, None, &recreate, &same).expect("installed");
    assert_eq!(cm.register_offscreen(5, 64, 32), Ok(()));
    assert_eq!(cm.register_offscreen(6, 16, 16), Ok(()));
    cm.request_simulated_reset();
    assert!(cm.check_graphics_reset_status());
    w.borrow_mut().refuse = Some(refuse_pbuffers);
    assert_eq!(
        cm.try_recover_context(UploadServer::new(4, 4096), &recreate, &same),
        Err(CanvasError::Egl(EglError::BadAlloc))
    );
    assert!(cm.is_context_lost());
    assert!(cm.canvas(5).is_none());
    w.borrow_mut().refuse = None;
    assert_eq!(
        cm.try_recover_context(UploadServer::new(4, 4096), &recreate, &same),
        Ok(true)
    );
    assert_eq!(cm.get_canvas_size(5), Ok((64, 32)));
    assert_eq!(cm.get_canvas_size(6), Ok((16, 16)));
    assert!(!cm.is_context_lost());
}

#[test]
fn recovery_gives_every_rebuilt_2d_context_its_drawing_state_back() {
    let w = world();
    let mut cm = session(&w);
    cm.create_onscreen(7, SIZE, false, None, &recreate, &same).expect("installed");
    assert_eq!(cm.register_offscreen(5, 64, 32), Ok(()));
    assert_eq!(cm.init_skia_for_canvas(ONSCREEN), Ok(()));
    assert_eq!(cm.init_skia_for_canvas(5), Ok(()));
    w.borrow_mut().states.insert(ONSCREEN, 41);
    w.borrow_mut().states.insert(5, 42);
    cm.request_simulated_reset();
    assert!(cm.check_graphics_reset_status());
    w.borrow_mut().paint_log.clear();
    assert_eq!(
        cm.try_recover_context(UploadServer::new(4, 4096), &recreate, &same),
        Ok(true)
    );
    assert_eq!(adopted(&w, ONSCREEN).last(), Some(&41));
    assert_eq!(adopted(&w, 5), vec![42]);
    let w = w.borrow();
    for canvas in [ONSCREEN, 5] {
        assert!(w
            .paint_log
            .iter()
            .any(|c| matches!(c, PaintCall::Create { canvas: made, .. } if *made == canvas)));
    }
}

#[test]
fn no_path_re_creates_a_2d_context_without_carrying_its_state() {
    let w = world();
    let mut cm = session(&w);
    cm.create_onscreen(7, SIZE, false, None, &recreate, &same).expect("installed");
    assert_eq!(cm.register_offscreen(5, 64, 32), Ok(()));
    assert_eq!(cm.init_skia_for_canvas(ONSCREEN), Ok(()));
    assert_eq!(cm.init_skia_for_canvas(5), Ok(()));
    w.borrow_mut().states.insert(ONSCREEN, 41);
    w.borrow_mut().states.insert(5, 42);

    w.borrow_mut().refuse_resize = true;
    assert_eq!(cm.resize_canvas(5, Some(20), Some(20), BackingSizeOwner::Content), Ok(()));
    assert_eq!(adopted(&w, 5), vec![42], "a rebuilt context must adopt what it had");

    assert_eq!(cm.rebuild_2d_context_preserving_state(5), Ok(()));
    assert_eq!(adopted(&w, 5), vec![42, 42]);

    assert_eq!(cm.release_onscreen(), Ok(()));
    cm.create_onscreen(8, SIZE, false, None, &recreate, &same).expect("installed");
    assert_eq!(adopted(&w, ONSCREEN).last(), Some(&41), "across a background round trip");
    assert_eq!(w.borrow().states[&ONSCREEN], 41);
}

#[test]
fn offscreen_restore_failure_keeps_the_context_lost() {
    let w = world();
    let mut cm = session(&w);
    cm.create_onscreen(7, SIZE, false, None, &recreate, &same).expect("installed");
    assert_eq!(cm.register_offscreen(5, 64, 32), Ok(()));
    cm.request_simulated_reset();
    assert!(cm.check_graphics_reset_status());
    w.borrow_mut().refuse = Some(refuse_pbuffers);
    assert!(cm
        .try_recover_context(UploadServer::new(4, 4096), &recreate, &same)
        .is_err());
    assert!(
        cm.is_context_lost(),
        "a half-restored share group must never report a recovered context"
    );
}

#[test]
fn a_session_that_lost_nothing_has_nothing_to_recover() {
    let w = world();
    let mut cm = session(&w);
    assert!(!cm.is_context_lost());
    assert_eq!(
        cm.try_recover_context(UploadServer::new(4, 4096), &recreate, &same),
        Ok(false)
    );
}

#[test]
fn a_reported_reset_loses_the_context() {
    let w = world();
    let mut cfg = config();
    cfg.reports_resets = true;
    let mut cm = session_with(&w, cfg);
    assert!(!cm.check_graphics_reset_status());
    w.borrow_mut().reset = 0x8253;
    assert!(cm.check_graphics_reset_status());
    assert!(cm.is_context_lost());
}

fn source(id: u32, is_pbuffer: bool, width: u32, height: u32, state: Option<u64>) -> RestoreSource {
    RestoreSource { id, is_pbuffer, width, height, state_2d: state }
}

#[test]
fn restore_plan_carries_offscreen_canvases_at_their_current_size() {
    let plan = plan_share_group_restore(
        &vec![source(1, false, 720, 1280, None), source(16777217, true, 256, 128, None)],
        None,
    );
    assert_eq!(plan.offscreen.len(), 1);
    let spec = plan.offscreen[0];
    assert_eq!((spec.id, spec.width, spec.height), (16777217, 256, 128));
    assert_eq!(spec.state_2d, None);
}

#[test]
fn restore_plan_excludes_the_onscreen_canvas() {
    let plan = plan_share_group_restore(&vec![source(1, false, 720, 1280, None)], None);
    assert!(plan.offscreen.is_empty());
    assert!(plan.onscreen_2d.is_none());
}

#[test]
fn restore_plan_records_which_canvases_had_2d_contexts() {
    let plan = plan_share_group_restore(
        &vec![
            source(1, false, 720, 1280, Some(25)),
            source(16777216, true, 1, 1, None),
            source(16777217, true, 1, 1, Some(25)),
        ],
        Some(25),
    );
    assert!(plan.onscreen_2d.is_some());
    assert_eq!(
        plan.offscreen.iter().map(|s| (s.id, s.state_2d.is_some())).collect::<Vec<_>>(),
        vec![(16777216, false), (16777217, true)]
    );
}

#[test]
fn restore_plan_carries_the_drawing_state_not_just_a_flag() {
    let plan = plan_share_group_restore(
        &vec![source(1, false, 720, 1280, Some(25)), source(16777217, true, 1, 1, Some(25))],
        Some(25),
    );
    assert_eq!(plan.onscreen_2d, Some(25), "the onscreen state must survive the teardown");
    assert_eq!(plan.offscreen[0].state_2d, Some(25), "offscreen canvases keep their state too");
}

#[test]
fn restore_plan_is_ordered_by_id() {
    let plan = plan_share_group_restore(
        &vec![
            source(16777219, true, 1, 1, None),
            source(1, false, 720, 1280, None),
            source(16777217, true, 1, 1, None),
            source(16777218, true, 1, 1, None),
        ],
        None,
    );
    assert_eq!(
        plan.offscreen.iter().map(|s| s.id).collect::<Vec<_>>(),
        vec![16777217, 16777218, 16777219]
    );
}

// ---- the bypass ------------------------------------------------------------------------

#[test]
fn bypass_ok_for_single_webgl_onscreen_canvas() {
    assert!(can_bypass_drawing_buffer(1, false, false, true));
}

#[test]
fn onscreen_canvas2d_context_disables_bypass() {
    assert!(!can_bypass_drawing_buffer(1, false, true, true));
}

#[test]
fn onscreen_db_smaller_than_surface_disables_bypass() {
    assert!(!can_bypass_drawing_buffer(1, false, false, false));
}

#[test]
fn a_second_canvas_keeps_the_onscreen_canvas_on_the_drawing_buffer() {
    assert!(!can_bypass_drawing_buffer(2, false, false, true));
}

#[test]
fn a_latched_default_fbo_readback_disables_bypass() {
    assert!(!can_bypass_drawing_buffer(1, true, false, true));
}

#[test]
fn the_bypass_ends_with_a_second_canvas_and_comes_back() {
    let w = world();
    let mut cm = session(&w);
    cm.create_onscreen(7, SIZE, false, None, &recreate, &same).expect("installed");
    assert!(cm.canvas(ONSCREEN).expect("there").bypass_drawing_buffer);
    assert_eq!(w.borrow().draw, 0, "content must draw where it is shown");
    let id = cm.create_offscreen(4, 4).expect("a canvas");
    assert!(!cm.canvas(ONSCREEN).expect("there").bypass_drawing_buffer);
    assert_eq!(cm.destroy_canvas(id, &vec![], &vec![]), Ok(()));
    assert!(cm.canvas(ONSCREEN).expect("there").bypass_drawing_buffer);
    assert_eq!(cm.init_skia_for_canvas(ONSCREEN), Ok(()));
    assert!(!cm.canvas(ONSCREEN).expect("there").bypass_drawing_buffer);
}

// ---- frames ------------------------------------------------------------------------------

#[test]
fn every_blit_neutralises_the_scissor_test() {
    let w = world();
    let mut cm = session(&w);
    cm.create_onscreen(7, SIZE, false, None, &recreate, &same).expect("installed");
    assert_eq!(cm.register_offscreen(5, 64, 32), Ok(()));
    assert_eq!(cm.init_skia_for_canvas(5), Ok(()));
    w.borrow_mut().blits.clear();
    w.borrow_mut().scissor = true;
    assert!(cm.swap_buffers_no_restore(ONSCREEN, false).is_ok());
    assert_eq!(cm.snapshot_canvas2d_region_with_id(5, request(1, 8, 8)), Ok(1));
    let w = w.borrow();
    assert!(w.blits.len() >= 2);
    for blit in &w.blits {
        assert!(!blit.clipped, "the copy is silently clipped by whatever box was left");
    }
    assert!(w.scissor, "the caller's scissor test must be enabled again");
}

#[test]
fn a_failed_swap_is_an_error_and_a_swap_is_counted() {
    let w = world();
    let mut cm = session(&w);
    cm.create_onscreen(7, SIZE, false, None, &recreate, &same).expect("installed");
    w.borrow_mut().refuse = Some(refuse_swaps);
    assert_eq!(
        cm.swap_buffers_no_restore(ONSCREEN, true).err(),
        Some(CanvasError::Egl(EglError::BadSurface))
    );
    w.borrow_mut().refuse = None;
    assert!(cm.swap_buffers_no_restore(ONSCREEN, true).is_ok());
    assert_eq!(cm.swap_buffers_no_restore(99, true).err(), Some(CanvasError::NotFound));
    let w = w.borrow();
    assert!(w.egl_log.contains(&EglCall::SwapInterval { interval: 1 }));
}

#[test]
fn dirty_contexts_are_flushed_once() {
    let w = world();
    let mut cm = session(&w);
    assert_eq!(cm.register_offscreen(5, 64, 32), Ok(()));
    assert_eq!(cm.init_skia_for_canvas(5), Ok(()));
    cm.mark_2d_dirty(5);
    cm.mark_2d_dirty(5);
    assert_eq!(cm.flush_dirty_2d_contexts(), Ok(vec![5]));
    assert_eq!(cm.flush_dirty_2d_contexts(), Ok(vec![]));
    let w = w.borrow();
    let flushes =
        w.paint_log.iter().filter(|c| matches!(c, PaintCall::Flush { canvas: 5 })).count();
    assert_eq!(flushes, 1);
}

// ---- snapshots and copies ----------------------------------------------------------------

#[test]
fn canvas_snapshot_creation_checks_an_aggregate_byte_budget() {
    let w = world();
    let mut cm = session(&w);
    assert_eq!(cm.register_offscreen(5, 2048, 2048), Ok(()));
    assert_eq!(cm.init_skia_for_canvas(5), Ok(()));
    for id in 1..=4 {
        assert_eq!(cm.snapshot_canvas2d_region_with_id(5, request(id, 2048, 2048)), Ok(id));
    }
    assert_eq!(
        cm.snapshot_canvas2d_region_with_id(5, request(5, 1, 1)),
        Ok(0),
        "snapshot creation must enforce an aggregate byte budget"
    );
    assert_eq!(checked_canvas_rgba_byte_len(u32::MAX, u32::MAX), None);
}

#[test]
fn canvas_snapshot_drain_defers_when_no_context_is_current() {
    let w = world();
    let mut cm = session(&w);
    assert_eq!(cm.register_offscreen(5, 64, 32), Ok(()));
    assert_eq!(cm.init_skia_for_canvas(5), Ok(()));
    assert_eq!(cm.snapshot_canvas2d_region_with_id(5, request(1, 8, 8)), Ok(1));
    let tex = cm.snapshot(1).expect("captured").tex;
    assert_eq!(cm.bind_resource(), Ok(()));
    w.borrow_mut().refuse = Some(refuse_all_current);
    assert!(cm.drain_canvas2d_snapshots().is_empty());
    assert!(
        cm.snapshot(1).is_some(),
        "drain must retain texture handles until a context can delete them"
    );
    w.borrow_mut().refuse = None;
    assert!(cm.drain_canvas2d_snapshots().is_empty());
    assert!(cm.snapshot(1).is_none());
    assert!(w.borrow().gl_log.contains(&GlCall::DeleteTexture { name: tex }));
}

#[test]
fn a_full_snapshot_pool_refuses_rather_than_evicting() {
    let w = world();
    let mut cm = session(&w);
    assert_eq!(cm.register_offscreen(5, 64, 32), Ok(()));
    assert_eq!(cm.init_skia_for_canvas(5), Ok(()));
    for id in 1..=MAX_LIVE_CANVAS2D_SNAPSHOTS as u32 {
        assert_eq!(cm.snapshot_canvas2d_region_with_id(5, request(id, 1, 1)), Ok(id));
    }
    assert_eq!(cm.snapshot_canvas2d_region_with_id(5, request(5000, 1, 1)), Ok(0));
    assert!(cm.snapshot(1).is_some(), "an older snapshot was traded for a new one");
    assert!(cm.snapshot(5000).is_none());
}

#[test]
fn the_limits_on_snapshots_work_as_a_pair() {
    let strip = checked_canvas_rgba_byte_len(200, 40).expect("fits");
    let large = checked_canvas_rgba_byte_len(1024, 1024).expect("fits");
    assert_eq!((strip, large), (32_000, 4_194_304));
    assert!(MAX_LIVE_CANVAS2D_SNAPSHOTS * strip < MAX_LIVE_CANVAS2D_SNAPSHOT_BYTES);
    assert!(MAX_LIVE_CANVAS2D_SNAPSHOTS * large > MAX_LIVE_CANVAS2D_SNAPSHOT_BYTES);
    assert!(MAX_LIVE_CANVAS2D_SNAPSHOTS >= 4 * 200);
}

#[test]
fn a_capture_that_would_be_stale_is_an_error() {
    let w = world();
    let mut cm = session(&w);
    assert_eq!(cm.register_offscreen(5, 64, 32), Ok(()));
    assert_eq!(cm.init_skia_for_canvas(5), Ok(()));
    w.borrow_mut().wait = glow::TIMEOUT_EXPIRED;
    assert_eq!(
        cm.snapshot_canvas2d_region_with_id(5, request(1, 8, 8)),
        Err(SnapshotError::FenceTimeout)
    );
    w.borrow_mut().wait = glow::WAIT_FAILED;
    assert_eq!(
        cm.snapshot_canvas2d_region_with_id(5, request(1, 8, 8)),
        Err(SnapshotError::FenceFailed)
    );
    assert_eq!(cm.take_snapshot_fence_waits(), 2);
    assert_eq!(cm.take_snapshot_fence_waits(), 0);
    assert_eq!(cm.snapshot_canvas2d_region_with_id(5, request(1, 65, 8)), Ok(0));
    assert_eq!(cm.snapshot_canvas2d_region_with_id(9, request(1, 8, 8)), Ok(0));
}

#[test]
fn a_snapshot_is_copied_whole_and_told_to_the_contexts() {
    let w = world();
    let mut cm = session(&w);
    assert_eq!(cm.register_offscreen(5, 64, 32), Ok(()));
    assert_eq!(cm.register_offscreen(6, 64, 32), Ok(()));
    assert_eq!(cm.init_skia_for_canvas(5), Ok(()));
    assert_eq!(cm.snapshot_canvas2d_region_with_id(5, request(1, 8, 4)), Ok(1));
    let tex = cm.snapshot(1).expect("captured").tex;
    let destination =
        TextureDestination::Image { target: glow::TEXTURE_2D, level: 0, internal_format: glow::RGBA };
    assert_eq!(cm.tex_image_2d_from_canvas2d_snapshot(6, destination, 1), Ok(true));
    assert_eq!(cm.tex_image_2d_from_canvas2d_snapshot(6, destination, 2), Ok(false));
    assert_eq!(
        cm.tex_sub_image_2d_from_canvas2d_snapshot(6, glow::TEXTURE_2D, 0, 3, 4, 1),
        Ok(true)
    );
    let w = w.borrow();
    let copies: Vec<TextureCopy> = w
        .gl_log
        .iter()
        .filter_map(|c| match c {
            GlCall::CopyTexture { copy } => Some(*copy),
            _ => None,
        })
        .collect();
    assert_eq!(copies.len(), 2);
    assert_eq!((copies[0].source, copies[0].width, copies[0].height), (tex, 8, 4));
    assert_eq!(copies[0].framebuffer, copies[1].framebuffer);
    assert_eq!(
        copies[1].destination,
        TextureDestination::SubImage { target: glow::TEXTURE_2D, level: 0, xoffset: 3, yoffset: 4 }
    );
    assert!(w.paint_log.contains(&PaintCall::MarkStale {
        stale: StaleState { render_target: false, texture_binding: true, pixel_store: false }
    }));
}

#[test]
fn a_direct_copy_leaves_no_snapshot_behind() {
    let w = world();
    let mut cm = session(&w);
    assert_eq!(cm.register_offscreen(5, 64, 32), Ok(()));
    assert_eq!(cm.register_offscreen(6, 64, 32), Ok(()));
    assert_eq!(cm.init_skia_for_canvas(5), Ok(()));
    let destination =
        TextureDestination::Image { target: glow::TEXTURE_2D, level: 0, internal_format: glow::RGBA };
    assert_eq!(
        cm.tex_image_2d_from_canvas2d_direct(6, destination, 5, request(1, 8, 4)),
        Ok(true)
    );
    assert!(cm.snapshot(0xFFFF_FFFF).is_none());
    assert!(cm.snapshot(1).is_none());
    assert_eq!(
        cm.tex_image_2d_from_canvas2d_direct(6, destination, 5, request(1, 0, 4)),
        Ok(false)
    );
}

#[test]
fn cached_text_is_copied_only_where_it_has_a_texture() {
    let w = world();
    let mut cm = session(&w);
    assert_eq!(cm.register_offscreen(6, 64, 32), Ok(()));
    let destination =
        TextureDestination::Image { target: glow::TEXTURE_2D, level: 0, internal_format: glow::RGBA };
    assert_eq!(cm.tex_image_2d_from_text_cache(6, destination, None), Ok(false));
    let empty = CachedText { texture: 0, width: 1, height: 1 };
    assert_eq!(cm.tex_image_2d_from_text_cache(6, destination, Some(empty)), Ok(false));
    let text = CachedText { texture: 3, width: 20, height: 10 };
    assert_eq!(cm.tex_image_2d_from_text_cache(6, destination, Some(text)), Ok(true));
}

#[test]
fn an_image_is_copied_out_of_its_atlas() {
    let w = world();
    let mut cm = session(&w);
    assert_eq!(cm.register_offscreen(6, 64, 32), Ok(()));
    let destination =
        TextureDestination::Image { target: glow::TEXTURE_2D, level: 0, internal_format: glow::RGBA };
    let stored = Some(StoredTexture { texture: 9, atlas_origin: Some((11, 12)) });
    assert_eq!(cm.tex_image_2d_from_shared(6, stored, 5, 4, destination), Ok(true));
    assert_eq!(cm.tex_image_2d_from_shared(6, None, 5, 4, destination), Ok(false));
    let w = w.borrow();
    let copy = w
        .gl_log
        .iter()
        .find_map(|c| match c {
            GlCall::CopyTexture { copy } => Some(*copy),
            _ => None,
        })
        .expect("copied");
    assert_eq!((copy.source, copy.source_x, copy.source_y), (9, 11, 12));
    assert_eq!((copy.width, copy.height), (5, 4));
}

#[test]
fn a_snapshot_is_read_back() {
    let w = world();
    let mut cm = session(&w);
    assert_eq!(cm.register_offscreen(5, 64, 32), Ok(()));
    assert_eq!(cm.init_skia_for_canvas(5), Ok(()));
    assert_eq!(cm.snapshot_canvas2d_region_with_id(5, request(1, 2, 3)), Ok(1));
    let read = |width: u32, height: u32| vec![9u8; (width * height * 4) as usize];
    assert_eq!(cm.read_canvas2d_snapshot_pixels(1, &read), Ok(vec![9u8; 24]));
    assert_eq!(cm.read_canvas2d_snapshot_pixels(2, &read), Ok(vec![]));
}

// ---- commands ------------------------------------------------------------------------------

const FACTS: LoadFacts = LoadFacts { upload_thread_healthy: true, max_image_pixels: 100 };

fn loads(call: ImageCall) -> Option<(u32, u32)> {
    match call {
        ImageCall::LoadShared { image_id: 13 } => None,
        _ => Some((4, 5)),
    }
}

fn good() -> CompressedImage {
    CompressedImage {
        width: 10,
        height: 10,
        format: Some(3),
        supported: true,
        levels_fit: true,
    }
}

#[test]
fn commands_on_canvases_are_answered() {
    let w = world();
    let mut cm = session(&w);
    let mut handler = CanvasHandler::new();
    let take = |_: u32| true;
    let made = handler.handle_command(
        &mut cm,
        &CanvasCmd::CreateOffscreen { width: 8, height: 8 },
        &FACTS,
        &loads,
        &take,
    );
    assert!(matches!(made, Ok(CanvasAnswer::Created(Ok(2)))));
    let size =
        handler.handle_command(&mut cm, &CanvasCmd::GetInfo { id: 2 }, &FACTS, &loads, &take);
    assert!(matches!(size, Ok(CanvasAnswer::Size(Ok((8, 8))))));
    let resized = handler.handle_command(
        &mut cm,
        &CanvasCmd::ResizeCanvas { id: 2, w: Some(9), h: None },
        &FACTS,
        &loads,
        &take,
    );
    assert!(matches!(resized, Ok(CanvasAnswer::Silent)));
    assert_eq!(cm.get_canvas_size(2), Ok((9, 8)));
    let current =
        handler.handle_command(&mut cm, &CanvasCmd::MakeCurrent { id: 77 }, &FACTS, &loads, &take);
    assert!(matches!(current, Ok(CanvasAnswer::Done(Err(CanvasError::NotFound)))));
    let registered = handler.handle_command(
        &mut cm,
        &CanvasCmd::RegisterOffscreen { id: 9, width: 1 << 20, height: 1 << 20 },
        &FACTS,
        &loads,
        &take,
    );
    assert!(matches!(registered, Ok(CanvasAnswer::Silent)));
    let swapped = handler.handle_command(
        &mut cm,
        &CanvasCmd::SwapBuffers { id: 2, wait_for_vsync: false },
        &FACTS,
        &loads,
        &take,
    );
    assert!(matches!(swapped, Ok(CanvasAnswer::Done(Ok(())))));
    let gone = handler.handle_command(
        &mut cm,
        &CanvasCmd::DestroyCanvas { id: 2, textures: vec![], renderbuffers: vec![] },
        &FACTS,
        &loads,
        &take,
    );
    assert!(matches!(gone, Ok(CanvasAnswer::Done(Ok(())))));
    let other = handler.handle_command(&mut cm, &CanvasCmd::Other, &FACTS, &loads, &take);
    assert!(matches!(other, Ok(CanvasAnswer::Silent)));
}

#[test]
fn an_install_is_refused_as_a_command() {
    let w = world();
    let mut cm = session(&w);
    let calls = w.borrow().egl_log.len();
    let mut handler = CanvasHandler::new();
    let refused = handler.handle_command(
        &mut cm,
        &CanvasCmd::RecreateOnscreen,
        &FACTS,
        &loads,
        &|_: u32| true,
    );
    assert_eq!(refused.err(), Some(Misrouted));
    assert_eq!(w.borrow().egl_log.len(), calls);
}

fn load(
    facts: &LoadFacts,
    image_id: u32,
    bytes: usize,
    priority: ImagePriority,
    takes: bool,
) -> CanvasAnswer {
    let w = world();
    let mut cfg = config();
    cfg.uploads_async = true;
    let mut cm = session_with(&w, cfg);
    CanvasHandler::new()
        .handle_command(
            &mut cm,
            &CanvasCmd::LoadImage { image_id, image: DecodedImage::Rgba { bytes }, priority },
            facts,
            &loads,
            &|_: u32| takes,
        )
        .expect("handled")
}

#[test]
fn images_go_to_the_upload_thread_wait_or_are_loaded_at_once() {
    let normal = ImagePriority::Normal;
    assert!(matches!(load(&FACTS, 1, 100, normal, true), CanvasAnswer::Pending));
    assert!(matches!(load(&FACTS, 1, 100, normal, false), CanvasAnswer::Pending));
    assert!(matches!(
        load(&FACTS, 1, 5000, normal, true),
        CanvasAnswer::Image(Ok((4, 5)))
    ));
    let degraded = LoadFacts { upload_thread_healthy: false, ..FACTS };
    assert!(matches!(
        load(&degraded, 1, 100, ImagePriority::Background, true),
        CanvasAnswer::Image(Ok((4, 5)))
    ));
    assert!(matches!(
        load(&FACTS, 1, 100, ImagePriority::Critical, true),
        CanvasAnswer::Image(Ok((4, 5)))
    ));
    assert!(matches!(
        load(&FACTS, 13, 100, ImagePriority::Critical, true),
        CanvasAnswer::Image(Err(ImageError::Refused))
    ));
}

#[test]
fn compressed_images_are_checked_in_order() {
    let w = world();
    let mut cm = session(&w);
    let check = |cm: &mut CanvasManager<_, _, _>, image: CompressedImage| {
        cm.load_compressed_image(1, &image, 100, &loads)
    };
    assert_eq!(check(&mut cm, good()), Ok((10, 10)));
    let bad = CompressedImage { format: None, supported: false, levels_fit: false, ..good() };
    assert_eq!(
        check(&mut cm, CompressedImage { width: 11, ..bad }),
        Err(ImageError::OutOfMemory)
    );
    assert_eq!(check(&mut cm, bad), Err(ImageError::UnknownFormat));
    let bad = CompressedImage { format: Some(3), ..bad };
    assert_eq!(
        check(&mut cm, bad),
        Ok((10, 10)),
        "levels that the device would not read are not looked at"
    );
    let bad = CompressedImage { supported: true, ..bad };
    assert_eq!(check(&mut cm, bad), Err(ImageError::MalformedLevels));
    w.borrow_mut().refuse = Some(refuse_all_current);
    assert_eq!(
        cm.load_shared_image(1, &loads),
        Err(ImageError::Canvas(CanvasError::Egl(EglError::BadAccess)))
    );
}

#[test]
fn a_compressed_image_that_the_device_cannot_read_is_loaded_decoded() {
    let w = world();
    let mut cm = session(&w);
    let asked = RefCell::new(Vec::new());
    let load = |call: ImageCall| {
        asked.borrow_mut().push(call);
        loads(call)
    };
    let unread = CompressedImage { supported: false, ..good() };
    assert_eq!(cm.load_compressed_image(6, &unread, 100, &load), Ok((10, 10)));
    assert_eq!(*asked.borrow(), vec![ImageCall::LoadShared { image_id: 6 }]);
}

#[test]
fn a_loaded_image_is_told_to_the_contexts() {
    let w = world();
    let mut cm = session(&w);
    assert_eq!(cm.load_ahb_image(1, &loads), Ok((4, 5)));
    assert!(w.borrow().paint_log.contains(&PaintCall::MarkStale {
        stale: StaleState { render_target: false, texture_binding: true, pixel_store: true }
    }));
}

#[test]
fn destroying_images_tells_those_who_wait() {
    let w = world();
    let mut cfg = config();
    cfg.uploads_async = true;
    let mut cm = session_with(&w, cfg);
    let mut handler = CanvasHandler::new();
    let take = |_: u32| true;
    for image_id in [4, 5] {
        let answer = handler.handle_command(
            &mut cm,
            &CanvasCmd::LoadImage {
                image_id,
                image: DecodedImage::Rgba { bytes: 16 },
                priority: ImagePriority::Normal,
            },
            &FACTS,
            &loads,
            &take,
        );
        assert!(matches!(answer, Ok(CanvasAnswer::Pending)));
    }
    let told = handler.handle_command(
        &mut cm,
        &CanvasCmd::DestroyImages { image_ids: vec![4, 6, 4] },
        &FACTS,
        &loads,
        &take,
    );
    assert!(matches!(told, Ok(CanvasAnswer::Cancelled(ids)) if ids == vec![4]));
    let told = handler.handle_command(
        &mut cm,
        &CanvasCmd::DestroyImage { image_id: 5 },
        &FACTS,
        &loads,
        &take,
    );
    assert!(matches!(told, Ok(CanvasAnswer::Cancelled(ids)) if ids == vec![5]));
}

#[test]
fn whoever_waits_for_pixels_hears_of_the_failure() {
    let w = world();
    let mut cm = session(&w);
    let mut renderer = Renderer2d::new();
    let read = |_: u32, _: u32| vec![1u8];
    assert_eq!(cm.register_offscreen(5, 64, 32), Ok(()));
    let failed = renderer.handle_command(&mut cm, 5, Canvas2dCmd::GetImageData, &read);
    assert!(matches!(failed, Ok(Canvas2dStep::Fail(CanvasError::NotFound))));
    let failed = renderer.handle_command(&mut cm, 5, Canvas2dCmd::MeasureText, &read);
    assert!(matches!(failed, Ok(Canvas2dStep::Fail(CanvasError::NotFound))));
    let apply = Canvas2dCmd::Apply { shapes_text: true };
    assert_eq!(
        renderer.handle_command(&mut cm, 5, apply, &read).err(),
        Some(CanvasError::NotFound)
    );
    let made = renderer.handle_command(&mut cm, 5, Canvas2dCmd::CreateContext2D, &read);
    assert!(matches!(made, Ok(Canvas2dStep::Done)));
    let ready = renderer.handle_command(&mut cm, 5, Canvas2dCmd::GetImageData, &read);
    assert!(matches!(ready, Ok(Canvas2dStep::ReadImageData)));
    let ready = renderer.handle_command(&mut cm, 5, apply, &read);
    assert!(matches!(ready, Ok(Canvas2dStep::Apply { locks_text: true })));
}

#[test]
fn a_capture_is_marked_for_the_text_cache_only_where_it_was_made() {
    let w = world();
    let mut cm = session(&w);
    let mut renderer = Renderer2d::new();
    let read = |_: u32, _: u32| vec![1u8];
    assert_eq!(cm.register_offscreen(5, 64, 32), Ok(()));
    let capture = Canvas2dCmd::CaptureSnapshot { request: request(1, 8, 8), cache_key: Some(77) };
    let none = renderer.handle_command(&mut cm, 5, capture, &read);
    assert!(matches!(none, Ok(Canvas2dStep::Captured(0))));
    assert_eq!(cm.init_skia_for_canvas(5), Ok(()));
    let made = renderer.handle_command(&mut cm, 5, capture, &read);
    assert!(matches!(made, Ok(Canvas2dStep::Captured(1))));
    let kept = cm.drain_canvas2d_snapshots();
    assert_eq!(kept.len(), 1);
    assert_eq!(kept[0].cache_key, Some(77));
    let resize = Canvas2dCmd::ResizeCanvas { w: Some(1 << 16), h: Some(1 << 16) };
    let resized = renderer.handle_command(&mut cm, 5, resize, &read);
    assert!(matches!(resized, Ok(Canvas2dStep::Done)));
    assert_eq!(cm.get_canvas_size(5), Ok((64, 32)));
    let pixels = Canvas2dCmd::ReadSnapshotPixels { snapshot_id: 3 };
    let read_back = renderer.handle_command(&mut cm, 5, pixels, &read);
    assert!(matches!(read_back, Ok(Canvas2dStep::Pixels(p)) if p.is_empty()));
}

#[test]
fn contexts_that_cannot_be_made_are_errors() {
    let w = world();
    let mut cm = session(&w);
    assert_eq!(cm.register_offscreen(5, 64, 32), Ok(()));
    w.borrow_mut().refuse_paint = true;
    assert_eq!(cm.init_skia_for_canvas(5), Err(CanvasError::Paint));
    let w = world();
    let mut cfg = config();
    cfg.share_2d = true;
    let mut cm = session_with(&w, cfg);
    assert_eq!(cm.register_offscreen(5, 64, 32), Ok(()));
    w.borrow_mut().refuse_paint = true;
    assert_eq!(cm.init_skia_for_canvas(5), Err(CanvasError::Group));
    w.borrow_mut().refuse_paint = false;
    assert_eq!(cm.init_skia_for_canvas(5), Ok(()));
    assert!(cm.canvas_uses_shared_2d(5));
}

// ---- shutdown ------------------------------------------------------------------------------

#[test]
fn shutting_down_twice_is_shutting_down_once() {
    let w = world();
    let mut cm = session(&w);
    cm.create_onscreen(7, SIZE, false, None, &recreate, &same).expect("installed");
    assert_eq!(cm.register_offscreen(5, 64, 32), Ok(()));
    let objects = LiveObjects {
        programs: vec![34],
        shaders: vec![35],
        buffers: vec![36],
        textures: vec![31],
        framebuffers: vec![32],
        renderbuffers: vec![33],
    };
    assert!(cm.destroy_all(&objects));
    assert!(cm.canvas(ONSCREEN).is_none());
    assert!(cm.canvas(5).is_none());
    let calls = w.borrow().egl_log.len();
    assert!(cm.destroy_all(&objects));
    let w = w.borrow();
    assert_eq!(w.egl_log.len(), calls);
    assert!(w.gl_log.contains(&GlCall::DeleteTexture { name: 31 }));
    assert!(w.gl_log.contains(&GlCall::DeleteFramebuffer { name: 32 }));
    assert!(w.gl_log.contains(&GlCall::DeleteRenderbuffer { name: 33 }));
    assert!(w.gl_log.contains(&GlCall::DeleteCode { code: Code::Program, name: 34 }));
    assert!(w.gl_log.contains(&GlCall::DeleteCode { code: Code::Shader, name: 35 }));
    assert!(w.gl_log.contains(&GlCall::DeleteBuffer { name: 36 }));
    assert_eq!(
        w.egl_log.iter().filter(|c| matches!(c, EglCall::Terminate)).count(),
        1
    );
}

#[test]
fn shutting_down_deletes_what_captures_went_through() {
    let w = world();
    let mut cm = session(&w);
    assert_eq!(cm.register_offscreen(5, 64, 32), Ok(()));
    assert_eq!(cm.init_skia_for_canvas(5), Ok(()));
    w.borrow_mut().gl_log.clear();
    assert_eq!(cm.snapshot_canvas2d_region_with_id(5, request(1, 8, 8)), Ok(1));
    let tex = cm.snapshot(1).expect("captured").tex;
    let fbo = w
        .borrow()
        .gl_log
        .iter()
        .find_map(|c| match c {
            GlCall::BindFramebuffer { target: glow::DRAW_FRAMEBUFFER, name } => Some(*name),
            _ => None,
        })
        .expect("copied through a framebuffer");
    assert_ne!(fbo, 0);
    let nothing = LiveObjects {
        programs: vec![],
        shaders: vec![],
        buffers: vec![],
        textures: vec![],
        framebuffers: vec![],
        renderbuffers: vec![],
    };
    assert!(cm.destroy_all(&nothing));
    assert!(cm.snapshot(1).is_none());
    let w = w.borrow();
    assert!(w.gl_log.contains(&GlCall::DeleteTexture { name: tex }));
    assert!(w.gl_log.contains(&GlCall::DeleteFramebuffer { name: fbo }));
}

#[test]
fn a_small_change_is_declared_repaired_and_submitted() {
    let w = world();
    let mut cfg = config();
    cfg.has_buffer_age = true;
    cfg.has_ext_buffer_age = true;
    cfg.declares_damage = true;
    cfg.submits_damage = true;
    let mut cm = session_with(&w, cfg);
    let square = Some(Extent { width: 300, height: 300 });
    cm.create_onscreen(7, square, false, None, &recreate, &same).expect("installed");
    assert_eq!(cm.register_offscreen(5, 4, 4), Ok(()));
    w.borrow_mut().age = 1;
    assert!(cm.swap_buffers_no_restore(ONSCREEN, false).is_ok());
    w.borrow_mut().egl_log.clear();
    w.borrow_mut().gl_log.clear();
    cm.stage_current_frame_partial_damage(20, 30, 10, 8, true);
    cm.stage_current_frame_partial_damage(0, 0, 100, 100, false);
    cm.declare_frame_damage(ONSCREEN);
    assert!(cm.swap_buffers_no_restore(ONSCREEN, false).is_ok());
    let w = w.borrow();
    let declared = w
        .egl_log
        .iter()
        .find_map(|c| match c {
            EglCall::DeclareDamage { rects, .. } => Some(*rects),
            _ => None,
        })
        .expect("declared");
    assert_eq!(declared.count, 1);
    assert_eq!((declared.first.x, declared.first.width, declared.first.height), (20, 10, 8));
    let submitted = w
        .egl_log
        .iter()
        .find_map(|c| match c {
            EglCall::SwapWithDamage { rects, .. } => Some(*rects),
            _ => None,
        })
        .expect("submitted");
    assert_eq!(submitted, declared);
    let blit = w
        .gl_log
        .iter()
        .find_map(|c| match c {
            GlCall::Blit { source, target, .. } => Some((*source, *target)),
            _ => None,
        })
        .expect("copied");
    assert_eq!(blit.0, blit.1);
    assert_eq!(blit.0.x1 - blit.0.x0, 10);
}

#[test]
fn a_frame_that_asks_for_it_is_presented_whole() {
    let w = world();
    let mut cfg = config();
    cfg.has_buffer_age = true;
    cfg.has_ext_buffer_age = true;
    cfg.submits_damage = true;
    let mut cm = session_with(&w, cfg);
    let square = Some(Extent { width: 300, height: 300 });
    cm.create_onscreen(7, square, false, None, &recreate, &same).expect("installed");
    assert_eq!(cm.register_offscreen(5, 4, 4), Ok(()));
    w.borrow_mut().age = 1;
    assert!(cm.swap_buffers_no_restore(ONSCREEN, false).is_ok());
    w.borrow_mut().egl_log.clear();
    cm.stage_current_frame_partial_damage(20, 30, 10, 8, true);
    cm.mark_current_frame_requires_full_redraw();
    assert!(cm.swap_buffers_no_restore(ONSCREEN, false).is_ok());
    let w = w.borrow();
    assert!(!w.egl_log.iter().any(|c| matches!(c, EglCall::SwapWithDamage { .. })));
    assert!(w.egl_log.iter().any(|c| matches!(c, EglCall::SwapBuffers { .. })));
}

#[test]
fn the_first_readback_ends_the_bypass_for_good() {
    let w = world();
    let mut cm = session(&w);
    cm.create_onscreen(7, SIZE, false, None, &recreate, &same).expect("installed");
    assert!(cm.is_onscreen_bound());
    assert!(cm.canvas(ONSCREEN).expect("there").bypass_drawing_buffer);
    w.borrow_mut().blits.clear();
    w.borrow_mut().status = 0x8CD6;
    assert_eq!(cm.signal_default_fbo_readback(3), Err(CanvasError::Snapshot));
    assert!(cm.canvas(ONSCREEN).expect("there").bypass_drawing_buffer);
    w.borrow_mut().status = glow::FRAMEBUFFER_COMPLETE;
    assert_eq!(cm.signal_default_fbo_readback(3), Ok(()));
    assert!(!cm.canvas(ONSCREEN).expect("there").bypass_drawing_buffer);
    let fbo = cm.canvas(ONSCREEN).expect("there").drawing_buffer.expect("made").fbo;
    let copied = *w.borrow().blits.last().expect("copied");
    assert_eq!(copied, Blitted { read: 0, draw: fbo, clipped: false });
    let calls = w.borrow().gl_log.len();
    assert_eq!(cm.signal_default_fbo_readback(3), Ok(()));
    assert_eq!(w.borrow().gl_log.len(), calls);
}

#[test]
fn a_forced_install_is_told_to_the_classification() {
    let w = world();
    let mut cm = session(&w);
    cm.create_onscreen(7, SIZE, false, None, &recreate, &same).expect("installed");
    cm.force_next_onscreen_recreate();
    let seen = RefCell::new(Vec::new());
    let classify = |facts: InstallFacts| {
        seen.borrow_mut().push((facts.forced, facts.installed));
        InstallPolicy::Recreate
    };
    cm.create_onscreen(7, SIZE, true, None, &classify, &same).expect("installed");
    cm.create_onscreen(7, SIZE, true, None, &classify, &same).expect("installed");
    assert_eq!(*seen.borrow(), vec![(true, Some(7)), (false, Some(7))]);
    assert!(!cm.is_surface_unavailable());
    assert!(cm.is_surface_recovery_ready());
}

#[test]
fn objects_are_deleted_in_the_context_that_has_them() {
    let w = world();
    let mut cm = session(&w);
    let first = cm.create_offscreen(4, 4).expect("a canvas");
    let second = cm.create_offscreen(4, 4).expect("a canvas");
    assert_eq!(cm.make_current_needed(second), Ok(()));
    let query = GlObject::Query { handle: 31, owner: first };
    assert_eq!(cm.delete_gl_object(query), Ok(()));
    assert_eq!(cm.current_canvas_id(), Some(first));
    assert_eq!(
        w.borrow().gl_log.last(),
        Some(&GlCall::DeleteContainer { container: Container::Query, name: 31 })
    );
    let calls = w.borrow().gl_log.len();
    let gone = GlObject::Framebuffer { handle: 32, owner: 99 };
    assert_eq!(cm.delete_gl_object(gone), Ok(()));
    assert_eq!(w.borrow().gl_log.len(), calls, "its context is gone, and it with it");
    assert_eq!(cm.delete_gl_object(GlObject::Texture { handle: 33 }), Ok(()));
    assert_eq!(w.borrow().gl_log.last(), Some(&GlCall::DeleteTexture { name: 33 }));
}

#[test]
fn every_context_hears_of_changes_behind_its_back() {
    let w = world();
    let mut cm = session(&w);
    cm.mark_all_2d_contexts_stale();
    cm.drain_pending_image_deletions(&vec![71, 72]);
    let w = w.borrow();
    assert_eq!(
        w.paint_log.last(),
        Some(&PaintCall::MarkStale {
            stale: StaleState { render_target: true, texture_binding: true, pixel_store: true }
        })
    );
    assert!(w.gl_log.contains(&GlCall::DeleteTexture { name: 71 }));
    assert!(w.gl_log.contains(&GlCall::DeleteTexture { name: 72 }));
}

#[test]
fn a_direct_copy_can_land_inside_a_level() {
    let w = world();
    let mut cm = session(&w);
    assert_eq!(cm.register_offscreen(5, 64, 32), Ok(()));
    assert_eq!(cm.register_offscreen(6, 64, 32), Ok(()));
    assert_eq!(cm.init_skia_for_canvas(5), Ok(()));
    assert_eq!(
        cm.tex_sub_image_2d_from_canvas2d_direct(
            6,
            glow::TEXTURE_2D,
            0,
            1,
            2,
            5,
            request(1, 8, 4)
        ),
        Ok(true)
    );
    let w = w.borrow();
    assert!(w.gl_log.iter().any(|c| matches!(
        c,
        GlCall::CopyTexture {
            copy: TextureCopy {
                destination: TextureDestination::SubImage { xoffset: 1, yoffset: 2, .. },
                ..
            }
        }
    )));
}

#[test]
fn short_memory_trims_every_context_and_leaves_nothing_behind() {
    let w = world();
    let mut cm = session(&w);
    w.borrow_mut().paint_log.clear();
    cm.on_trim_memory();
    assert_eq!(
        w.borrow().paint_log,
        vec![
            PaintCall::Trim { what: PaintTrim::Cache },
            PaintCall::Trim { what: PaintTrim::UnusedFor { millis: 200 } },
        ]
    );
}

// ---- the pixel ratio, and what an install leaves --------------------------------------------

#[test]
fn a_pixel_ratio_comes_into_force_with_its_surface() {
    let w = world();
    let mut cm = session(&w);
    let two = ratio(2.0);
    w.borrow_mut().refuse = Some(refuse_windows);
    assert!(cm.create_onscreen(7, SIZE, false, Some(two), &recreate, &scaled).is_err());
    assert_eq!(cm.window().pixel_ratio, ratio(1.0));
    w.borrow_mut().refuse = None;
    cm.create_onscreen(7, SIZE, false, Some(two), &recreate, &scaled).expect("installed");
    assert_eq!(cm.window().pixel_ratio, two);
    assert_eq!(cm.get_canvas_size(ONSCREEN), Ok((150, 100)));
    cm.create_onscreen(8, SIZE, true, None, &recreate, &scaled).expect("installed");
    assert_eq!(cm.window().pixel_ratio, two);
}

#[test]
fn a_target_that_was_installed_is_asked_for_its_rate_once() {
    let w = world();
    let mut cm = session(&w);
    w.borrow_mut().refuse = Some(refuse_windows);
    assert!(cm.create_onscreen(7, SIZE, false, None, &recreate, &same).is_err());
    assert_eq!(rates(&w), vec![]);
    w.borrow_mut().refuse = None;
    cm.create_onscreen(7, SIZE, false, None, &recreate, &same).expect("installed");
    assert_eq!(cm.init_skia_for_canvas(ONSCREEN), Ok(()));
    w.borrow_mut().refuse_paint = true;
    w.borrow_mut().refuse_resize = true;
    assert!(cm.create_onscreen(8, SIZE, true, None, &recreate, &same).is_err());
    assert_eq!(rates(&w), vec![(7, 60), (8, 60)]);
    assert_eq!(cm.window().installed, None);
    assert!(cm.preserved().ctx.is_some());
}

#[test]
fn a_window_without_a_buffer_is_drawn_to_directly() {
    let w = world();
    let mut cm = session(&w);
    w.borrow_mut().refuse_framebuffers = true;
    cm.create_onscreen(7, SIZE, false, None, &recreate, &same).expect("installed");
    assert!(cm.canvas(ONSCREEN).expect("there").drawing_buffer.is_none());
    assert_eq!(cm.get_canvas_size(ONSCREEN), Ok((300, 200)));
}

#[test]
fn a_released_window_leaves_its_context_for_the_next() {
    let w = world();
    let mut cm = session(&w);
    cm.create_onscreen(7, SIZE, false, None, &recreate, &same).expect("installed");
    let before = cm.canvas(ONSCREEN).expect("there");
    assert_eq!(cm.release_onscreen(), Ok(()));
    assert_eq!(cm.preserved().ctx, Some(before.ctx.ctx));
    assert_eq!(cm.preserved().db, before.drawing_buffer);
    cm.create_onscreen(8, SIZE, false, None, &recreate, &same).expect("installed");
    let after = cm.canvas(ONSCREEN).expect("there");
    assert_eq!(after.ctx.ctx, before.ctx.ctx);
    assert_eq!(after.drawing_buffer, before.drawing_buffer);
}

#[test]
fn offscreen_contexts_share_the_roots_objects() {
    let w = world();
    let mut cm = session(&w);
    let root = cm.root().ctx;
    w.borrow_mut().egl_log.clear();
    assert_eq!(cm.register_offscreen(5, 64, 32), Ok(()));
    let log = w.borrow().egl_log.clone();
    assert!(log.contains(&EglCall::CreateContext {
        share: Some(root),
        gles_major: 3,
        robust: false
    }));
    assert!(log.contains(&EglCall::CreatePbufferSurface { width: 64, height: 32 }));
    assert_eq!(cm.resize_canvas(5, Some(70), None, BackingSizeOwner::Content), Ok(()));
    assert!(w
        .borrow()
        .egl_log
        .contains(&EglCall::CreatePbufferSurface { width: 70, height: 32 }));
}

#[test]
fn a_copy_without_a_framebuffer_is_an_error() {
    let w = world();
    let mut cm = session(&w);
    assert_eq!(cm.register_offscreen(5, 64, 32), Ok(()));
    w.borrow_mut().refuse_framebuffers = true;
    let copy = TextureCopy {
        framebuffer: 0,
        source: 9,
        source_x: 0,
        source_y: 0,
        width: 4,
        height: 4,
        destination: TextureDestination::Image {
            target: glow::TEXTURE_2D,
            level: 0,
            internal_format: glow::RGBA,
        },
    };
    assert_eq!(cm.copy_texture_to_canvas(5, copy), Err(CopyError::CreateFramebuffer));
    w.borrow_mut().refuse_framebuffers = false;
    assert_eq!(cm.copy_texture_to_canvas(5, copy), Ok(()));
    w.borrow_mut().refuse_framebuffers = true;
    assert_eq!(cm.copy_texture_to_canvas(5, copy), Ok(()));
}

#[test]
fn a_flush_goes_back_to_what_was_current() {
    let w = world();
    let mut cm = session(&w);
    for id in [5, 6] {
        assert_eq!(cm.register_offscreen(id, 8, 8), Ok(()));
    }
    assert_eq!(cm.init_skia_for_canvas(6), Ok(()));
    assert_eq!(cm.make_current_needed(5), Ok(()));
    cm.mark_2d_dirty(6);
    assert_eq!(cm.flush_dirty_2d_contexts(), Ok(vec![6]));
    assert_eq!(cm.bound(), BoundContext::Canvas(5));
    assert_eq!(cm.flush_dirty_2d_contexts(), Ok(vec![]));
    cm.mark_2d_dirty(6);
    w.borrow_mut().refuse = Some(refuse_all_current);
    assert_eq!(
        cm.flush_dirty_2d_contexts(),
        Err(CanvasError::Egl(EglError::BadAccess))
    );
}

#[test]
fn uploads_that_cannot_start_are_not_gated() {
    let w = world();
    let mut cfg = config();
    cfg.uploads_async = true;
    let mut gated = session_with(&w, cfg);
    assert_eq!(
        gated.uploads_mut().async_upload_reject_action(true, 16),
        AsyncUploadRejectAction::DeferRetry
    );
    w.borrow_mut().refuse = Some(refuse_uploads);
    let mut ungated = session_with(&w, cfg);
    assert_eq!(
        ungated.uploads_mut().async_upload_reject_action(true, 16),
        AsyncUploadRejectAction::SyncFallback
    );
}

fn refuse_uploads(call: &EglCall) -> Option<EglError> {
    match call {
        EglCall::SpawnUploads { .. } => Some(EglError::BadAlloc),
        _ => None,
    }
}

// ---- the order of calls, and what follows a size -------------------------------------------

#[test]
fn a_ratio_is_a_finite_float_above_zero() {
    for bad in [0.0f32, -1.0, -0.0, f32::INFINITY, f32::NEG_INFINITY, f32::NAN] {
        assert!(PixelRatio::new(bad.to_bits()).is_none());
    }
    for good in [1.0f32, 2.5, f32::MIN_POSITIVE, f32::MAX] {
        assert_eq!(PixelRatio::new(good.to_bits()).map(|r| r.bits()), Some(good.to_bits()));
    }
}

#[test]
fn a_capture_is_submitted_before_it_is_fenced_and_copied() {
    let w = world();
    let mut cm = session(&w);
    assert_eq!(cm.register_offscreen(5, 64, 32), Ok(()));
    assert_eq!(cm.init_skia_for_canvas(5), Ok(()));
    w.borrow_mut().steps.clear();
    assert_eq!(cm.snapshot_canvas2d_region_with_id(5, request(1, 8, 8)), Ok(1));
    let w = w.borrow();
    let forget = first(&w.steps, |s| *s == Step::Paint(PaintCall::ResetIfStale { canvas: 5 }));
    let submit = first(&w.steps, |s| *s == Step::Paint(PaintCall::Flush { canvas: 5 }));
    let fence = first(&w.steps, |s| *s == Step::Gl(GlCall::FenceSync));
    let wait = first(&w.steps, |s| matches!(s, Step::Gl(GlCall::ClientWaitSync { .. })));
    let copy = first(&w.steps, |s| matches!(s, Step::Gl(GlCall::Blit { .. })));
    assert!(forget < submit && submit < fence && fence < wait && wait < copy);
    assert!(w.gl_log.contains(&GlCall::TexImage2D {
        target: glow::TEXTURE_2D,
        internal_format: glow::RGBA8,
        width: 8,
        height: 8,
    }));
}

#[test]
fn a_frame_is_copied_offered_and_swapped_in_that_order() {
    let w = world();
    let mut cm = session(&w);
    cm.create_onscreen(7, SIZE, false, None, &recreate, &same).expect("installed");
    assert_eq!(cm.register_offscreen(5, 4, 4), Ok(()));
    w.borrow_mut().steps.clear();
    assert!(cm.swap_buffers_no_restore(ONSCREEN, true).is_ok());
    let fbo = cm.canvas(ONSCREEN).and_then(|c| c.drawing_buffer).expect("a buffer").fbo;
    let w = w.borrow();
    let copy = first(&w.steps, |s| matches!(s, Step::Gl(GlCall::Blit { .. })));
    let offer = first(&w.steps, |s| {
        *s == Step::Gl(GlCall::CaptureFrame { width: 300, height: 200 })
    });
    let swap = first(&w.steps, |s| matches!(s, Step::Egl(EglCall::SwapBuffers { .. })));
    assert!(copy < offer && offer < swap);
    assert_eq!(
        w.steps.last(),
        Some(&Step::Gl(GlCall::BindFramebuffer { target: glow::FRAMEBUFFER, name: fbo }))
    );
    assert_eq!((w.read, w.draw), (fbo, fbo));
}

#[test]
fn a_canvas_that_shrinks_below_its_window_is_scaled_to_it() {
    let w = world();
    let mut cm = session(&w);
    cm.create_onscreen(7, SIZE, false, None, &recreate, &same).expect("installed");
    assert!(cm.canvas(ONSCREEN).expect("a canvas").bypass_drawing_buffer);
    w.borrow_mut().gl_log.clear();
    let content = BackingSizeOwner::Content;
    assert_eq!(cm.resize_canvas(ONSCREEN, Some(150), Some(100), content), Ok(()));
    assert!(!cm.canvas(ONSCREEN).expect("a canvas").bypass_drawing_buffer);
    assert!(w.borrow().gl_log.contains(&GlCall::Viewport { width: 150, height: 100 }));
    assert_eq!(cm.resize_canvas(ONSCREEN, Some(300), Some(200), content), Ok(()));
    assert!(cm.canvas(ONSCREEN).expect("a canvas").bypass_drawing_buffer);
}

#[test]
fn a_painter_follows_its_canvas_to_another_size() {
    let w = world();
    let mut cm = session(&w);
    cm.create_onscreen(7, SIZE, false, None, &recreate, &same).expect("installed");
    assert_eq!(cm.init_skia_for_canvas(ONSCREEN), Ok(()));
    assert_eq!(cm.register_offscreen(5, 64, 32), Ok(()));
    assert_eq!(cm.init_skia_for_canvas(5), Ok(()));
    let content = BackingSizeOwner::Content;
    assert_eq!(cm.resize_canvas(ONSCREEN, Some(150), Some(100), content), Ok(()));
    assert_eq!(cm.resize_canvas(5, Some(16), None, content), Ok(()));
    let fbo = cm.canvas(ONSCREEN).and_then(|c| c.drawing_buffer).expect("a buffer").fbo;
    let shown = cm.context_2d(ONSCREEN).expect("a context");
    assert_eq!((shown.fbo, shown.width, shown.height), (fbo, 150, 100));
    let hidden = cm.context_2d(5).expect("a context");
    assert_eq!((hidden.fbo, hidden.width, hidden.height), (0, 16, 32));
    let log = w.borrow().paint_log.clone();
    assert!(log.contains(&PaintCall::Resize {
        canvas: ONSCREEN,
        fbo,
        width: 150,
        height: 100,
    }));
    assert!(log.contains(&PaintCall::Resize { canvas: 5, fbo: 0, width: 16, height: 32 }));
}

#[test]
fn a_shared_surface_has_the_size_of_its_canvas() {
    let w = world();
    let mut cfg = config();
    cfg.share_2d = true;
    let mut cm = session_with(&w, cfg);
    assert_eq!(cm.register_offscreen(5, 64, 32), Ok(()));
    assert_eq!(cm.init_skia_for_canvas(5), Ok(()));
    assert!(w.borrow().paint_log.iter().any(|c| matches!(
        c,
        PaintCall::CreateShared { canvas: 5, width: 64, height: 32, .. }
    )));
}

#[test]
fn a_resize_in_place_reconfigures_the_installed_target() {
    let w = world();
    let mut cm = session(&w);
    cm.create_onscreen(7, SIZE, false, None, &recreate, &same).expect("installed");
    assert_eq!(cm.init_skia_for_canvas(ONSCREEN), Ok(()));
    w.borrow_mut().egl_log.clear();
    w.borrow_mut().gl_log.clear();
    let in_place = |_: InstallFacts| InstallPolicy::FastResize;
    let size = Some(Extent { width: 120, height: 90 });
    cm.create_onscreen(8, size, true, None, &in_place, &same).expect("resized");
    assert_eq!(cm.window().installed, Some(7));
    assert_eq!(cm.get_canvas_size(ONSCREEN), Ok((120, 90)));
    let shown = cm.context_2d(ONSCREEN).expect("a context");
    assert_eq!((shown.width, shown.height), (120, 90));
    let w = w.borrow();
    assert!(w.egl_log.contains(&EglCall::Reconfigure { installed: 7, from: 8 }));
    assert!(w.gl_log.contains(&GlCall::Viewport { width: 120, height: 90 }));
}

#[test]
fn a_context_that_cannot_be_cleared_is_not_recovered() {
    let w = world();
    let mut cfg = config();
    cfg.reports_resets = true;
    let mut cm = session_with(&w, cfg);
    cm.create_onscreen(7, SIZE, false, None, &recreate, &same).expect("installed");
    cm.request_simulated_reset();
    assert!(cm.check_graphics_reset_status());
    w.borrow_mut().reset = 0x8253;
    let server = UploadServer::new(4, 4096);
    assert_eq!(cm.try_recover_context(server, &recreate, &same), Ok(false));
    assert!(cm.is_context_lost());
    w.borrow_mut().reset = 0;
    let server = UploadServer::new(4, 4096);
    assert_eq!(cm.try_recover_context(server, &recreate, &same), Ok(true));
    assert!(!cm.is_context_lost());
}

#[test]
fn shutting_down_disposes_of_the_pair_that_was_put_by() {
    let w = world();
    let mut cm = session(&w);
    cm.create_onscreen(7, SIZE, false, None, &recreate, &same).expect("installed");
    let entry = cm.canvas(ONSCREEN).expect("a canvas");
    let db = entry.drawing_buffer.expect("a buffer");
    let nothing = LiveObjects {
        programs: vec![],
        shaders: vec![],
        buffers: vec![],
        textures: vec![],
        framebuffers: vec![],
        renderbuffers: vec![],
    };
    assert!(cm.destroy_all(&nothing));
    let w = w.borrow();
    assert!(w.egl_log.contains(&EglCall::DestroyContext { context: entry.ctx.ctx }));
    assert!(w.gl_log.contains(&GlCall::DeleteTexture { name: db.color_tex }));
    assert!(w.gl_log.contains(&GlCall::DeleteFramebuffer { name: db.fbo }));
    assert!(w.gl_log.contains(&GlCall::DeleteRenderbuffer { name: db.depth_stencil_rb }));
}

fn created(w: &Shared) -> Vec<Option<usize>> {
    w.borrow()
        .egl_log
        .iter()
        .filter_map(|call| match call {
            EglCall::CreateContext { share, .. } => Some(*share),
            _ => None,
        })
        .collect()
}

#[test]
fn a_window_gets_a_context_that_shares_the_roots_objects() {
    let w = world();
    let mut cm = session(&w);
    let root = cm.root();
    w.borrow_mut().egl_log.clear();
    cm.create_onscreen(7, SIZE, false, None, &recreate, &same).expect("installed");
    assert_eq!(created(&w), vec![Some(root.ctx)]);
    assert_ne!(cm.canvas(ONSCREEN).expect("a canvas").ctx.ctx, root.ctx);
}

#[test]
fn a_window_that_cannot_be_made_leaves_the_pair_put_by() {
    let w = world();
    let mut cm = session(&w);
    cm.create_onscreen(7, SIZE, false, None, &recreate, &same).expect("installed");
    let entry = cm.canvas(ONSCREEN).expect("a canvas");
    w.borrow_mut().refuse = Some(refuse_windows);
    let failure = cm.create_onscreen(8, SIZE, true, None, &recreate, &same).expect_err("refused");
    assert_eq!(failure.phase, InstallPhase::PreviousInvalidated);
    assert_eq!(cm.preserved().ctx, Some(entry.ctx.ctx));
    assert_eq!(cm.preserved().db, entry.drawing_buffer);
    w.borrow_mut().refuse = None;
    w.borrow_mut().egl_log.clear();
    cm.create_onscreen(8, SIZE, false, None, &recreate, &same).expect("installed");
    assert_eq!(created(&w), vec![]);
    let again = cm.canvas(ONSCREEN).expect("a canvas");
    assert_eq!(again.ctx.ctx, entry.ctx.ctx);
    assert_eq!(again.drawing_buffer, entry.drawing_buffer);
}

#[test]
fn a_canvas_that_cannot_be_brought_up_leaves_its_pair_put_by() {
    let w = world();
    let mut cm = session(&w);
    cm.create_onscreen(7, SIZE, false, None, &recreate, &same).expect("installed");
    assert_eq!(cm.init_skia_for_canvas(ONSCREEN), Ok(()));
    let entry = cm.canvas(ONSCREEN).expect("a canvas");
    w.borrow_mut().refuse_paint = true;
    let failure = cm.create_onscreen(8, SIZE, true, None, &recreate, &same).expect_err("refused");
    assert_eq!(failure.phase, InstallPhase::CandidateReferenced);
    assert_eq!(failure.cleanup, CandidateCleanup::Released);
    assert_eq!(cm.preserved().ctx, Some(entry.ctx.ctx));
    assert_eq!(cm.preserved().db, entry.drawing_buffer);
}

#[test]
fn a_destroyed_canvas_takes_its_surface_and_context_with_it() {
    let w = world();
    let mut cm = session(&w);
    assert_eq!(cm.register_offscreen(5, 64, 32), Ok(()));
    assert_eq!(cm.register_offscreen(6, 16, 16), Ok(()));
    assert_eq!(cm.make_current_needed(5), Ok(()));
    let gone = cm.canvas(6).expect("a canvas").ctx;
    assert_eq!(cm.destroy_canvas(6, &vec![], &vec![]), Ok(()));
    assert_eq!(cm.current_canvas_id(), Some(5));
    assert!(w
        .borrow()
        .egl_log
        .contains(&EglCall::DestroySurface { surface: gone.surf.expect("a surface") }));
    assert!(w.borrow().egl_log.contains(&EglCall::DestroyContext { context: gone.ctx }));
    assert_eq!(cm.destroy_canvas(5, &vec![], &vec![]), Ok(()));
    assert!(matches!(cm.bound(), BoundContext::Resource));
}

#[test]
fn a_2d_context_is_abandoned_where_its_own_context_is_not_current() {
    let w = world();
    let mut cm = session(&w);
    for id in [5, 6] {
        assert_eq!(cm.register_offscreen(id, 64, 32), Ok(()));
        assert_eq!(cm.init_skia_for_canvas(id), Ok(()));
    }
    let own = cm.canvas(5).expect("a canvas").ctx.ctx;
    w.borrow_mut().steps.clear();
    assert_eq!(cm.destroy_canvas(5, &vec![], &vec![]), Ok(()));
    {
        let w = w.borrow();
        let dropped = first(&w.steps, |s| {
            *s == Step::Paint(PaintCall::Drop { canvas: 5, abandon: false })
        });
        let current = w.steps[..dropped]
            .iter()
            .rev()
            .find_map(|s| match s {
                Step::Egl(EglCall::MakeCurrent { context, .. }) => Some(*context),
                _ => None,
            })
            .expect("made current");
        assert_eq!(current, Some(own));
    }
    w.borrow_mut().refuse = Some(refuse_all_current);
    assert_eq!(cm.destroy_canvas(6, &vec![], &vec![]), Ok(()));
    assert!(w.borrow().paint_log.contains(&PaintCall::Drop { canvas: 6, abandon: true }));
}

#[test]
fn the_onscreen_2d_context_is_abandoned_where_its_own_context_is_not_current() {
    let w = world();
    let mut cm = session(&w);
    cm.create_onscreen(7, SIZE, false, None, &recreate, &same).expect("installed");
    assert_eq!(cm.init_skia_for_canvas(ONSCREEN), Ok(()));
    w.borrow_mut().refuse = Some(refuse_all_current);
    assert_eq!(cm.release_onscreen(), Err(CanvasError::Egl(EglError::BadAccess)));
    assert!(w
        .borrow()
        .paint_log
        .contains(&PaintCall::Drop { canvas: ONSCREEN, abandon: true }));
}

#[test]
fn a_recovered_session_shares_nothing_with_the_lost_one() {
    let w = world();
    let mut cm = session(&w);
    cm.create_onscreen(7, SIZE, false, None, &recreate, &same).expect("installed");
    assert_eq!(cm.register_offscreen(5, 64, 32), Ok(()));
    let lost = [
        cm.root().ctx,
        cm.canvas(ONSCREEN).expect("a canvas").ctx.ctx,
        cm.canvas(5).expect("a canvas").ctx.ctx,
    ];
    cm.request_simulated_reset();
    assert!(cm.check_graphics_reset_status());
    w.borrow_mut().egl_log.clear();
    let server = UploadServer::new(4, 4096);
    assert_eq!(cm.try_recover_context(server, &recreate, &same), Ok(true));
    let root = cm.root().ctx;
    assert_eq!(created(&w), vec![None, Some(root), Some(root)]);
    for context in lost {
        assert!(w.borrow().egl_log.contains(&EglCall::DestroyContext { context }));
        assert_ne!(context, root);
        assert_ne!(cm.canvas(ONSCREEN).expect("a canvas").ctx.ctx, context);
        assert_ne!(cm.canvas(5).expect("a canvas").ctx.ctx, context);
    }
}

#[test]
fn only_offscreen_canvases_paint_on_the_shared_context() {
    let w = world();
    let mut cfg = config();
    cfg.share_2d = true;
    let mut cm = session_with(&w, cfg);
    cm.create_onscreen(7, SIZE, false, None, &recreate, &same).expect("installed");
    assert_eq!(cm.init_skia_for_canvas(ONSCREEN), Ok(()));
    assert!(cm.shared_2d().is_none());
    for id in [5, 6] {
        assert_eq!(cm.register_offscreen(id, 64, 32), Ok(()));
        assert_eq!(cm.init_skia_for_canvas(id), Ok(()));
        let shared = cm.shared_2d().expect("a shared context");
        assert_eq!(cm.context_2d(id).expect("a context").tag, shared.tag);
    }
    let groups = |c: &&PaintCall| matches!(c, PaintCall::CreateGroup);
    assert_eq!(w.borrow().paint_log.iter().filter(groups).count(), 1);
}

#[test]
fn a_session_is_taken_down_in_its_order() {
    let w = world();
    let mut cfg = config();
    cfg.uploads_async = true;
    let mut cm = session_with(&w, cfg);
    cm.create_onscreen(7, SIZE, false, None, &recreate, &same).expect("installed");
    assert_eq!(cm.register_offscreen(5, 64, 32), Ok(()));
    let root = cm.root();
    let offscreen = cm.canvas(5).expect("a canvas").ctx;
    w.borrow_mut().steps.clear();
    let objects = LiveObjects {
        programs: vec![34],
        shaders: vec![],
        buffers: vec![36],
        textures: vec![],
        framebuffers: vec![],
        renderbuffers: vec![],
    };
    assert!(cm.destroy_all(&objects));
    let w = w.borrow();
    let at = |call: EglCall| first(&w.steps, |s| *s == Step::Egl(call));
    let stopped = at(EglCall::StopUploads);
    let destroyed = first(&w.steps, |s| {
        matches!(
            s,
            Step::Egl(EglCall::DestroyContext { .. } | EglCall::DestroySurface { .. })
        )
    });
    assert!(stopped < destroyed, "the uploads still use the display");
    let canvas = at(EglCall::DestroyContext { context: offscreen.ctx });
    let last = at(EglCall::DestroyContext { context: root.ctx });
    assert!(canvas < last, "the root goes after the canvases that share its objects");
    assert!(last < at(EglCall::Terminate));
    let deleted = first(&w.steps, |s| {
        *s == Step::Gl(GlCall::DeleteCode { code: Code::Program, name: 34 })
    });
    let current = w.steps[..deleted]
        .iter()
        .rev()
        .find_map(|s| match s {
            Step::Egl(EglCall::MakeCurrent { context, .. }) => Some(*context),
            _ => None,
        })
        .expect("made current");
    assert_eq!(current, Some(root.ctx), "objects are deleted while a context is there");
    assert!(deleted < last);
}
