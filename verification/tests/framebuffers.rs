use std::cell::RefCell;
use std::rc::Rc;

use graphics::damage::{DamageRect, DamageRects};
use graphics::default_framebuffer::{
    apply_default_framebuffer, default_framebuffer_of, is_drawing_buffer_bound, reads_from_default_framebuffer,
};
use graphics::drawing_buffer::{
    blit_from_surface, blit_to_surface, create, destroy, resize, DrawingBuffer, DrawingBufferError,
};
use graphics::gl_device::{Gl, GlCall};
use graphics::gl_state::{CanvasGLState, ScissorState};
use graphics::paint_scope::{begin_canvas2d_gl_scope, end_canvas2d_gl_scope};
use graphics::present::BlitPlan;

#[derive(Clone, Copy, Debug, PartialEq)]
struct Bindings {
    read: u32,
    draw: u32,
    texture: u32,
    renderbuffer: u32,
    active_texture: u32,
    unpack_buffer: u32,
    unpack_alignment: u32,
    pack: [u32; 4],
    pack_buffer: u32,
    scissor: bool,
}

fn plain() -> Bindings {
    Bindings {
        read: 0,
        draw: 0,
        texture: 0,
        renderbuffer: 0,
        active_texture: glow::TEXTURE0,
        unpack_buffer: 0,
        unpack_alignment: 4,
        pack: [4, 0, 0, 0],
        pack_buffer: 0,
        scissor: false,
    }
}

struct Driver {
    b: Bindings,
    next: u32,
    status: u32,
    refuse: Option<GlCall>,
    binds: usize,
    masks: Vec<u32>,
    clipped: Vec<bool>,
    log: Vec<GlCall>,
}

type Shared = Rc<RefCell<Driver>>;

fn driver(b: Bindings) -> Shared {
    Rc::new(RefCell::new(Driver {
        b,
        next: 50,
        status: glow::FRAMEBUFFER_COMPLETE,
        refuse: None,
        binds: 0,
        masks: Vec::new(),
        clipped: Vec::new(),
        log: Vec::new(),
    }))
}

fn gl(driver: &Shared) -> Gl<impl Fn(GlCall) -> u32> {
    let driver = driver.clone();
    Gl::new(move |call| {
        let mut d = driver.borrow_mut();
        d.log.push(call);
        if d.refuse == Some(call) {
            return 0;
        }
        match call {
            GlCall::GetInteger { pname } => match pname {
                glow::READ_FRAMEBUFFER_BINDING => d.b.read,
                glow::DRAW_FRAMEBUFFER_BINDING => d.b.draw,
                glow::TEXTURE_BINDING_2D => d.b.texture,
                glow::RENDERBUFFER_BINDING => d.b.renderbuffer,
                glow::ACTIVE_TEXTURE => d.b.active_texture,
                glow::PIXEL_UNPACK_BUFFER_BINDING => d.b.unpack_buffer,
                glow::PIXEL_PACK_BUFFER_BINDING => d.b.pack_buffer,
                glow::UNPACK_ALIGNMENT => d.b.unpack_alignment,
                glow::PACK_ALIGNMENT => d.b.pack[0],
                glow::PACK_ROW_LENGTH => d.b.pack[1],
                glow::PACK_SKIP_PIXELS => d.b.pack[2],
                glow::PACK_SKIP_ROWS => d.b.pack[3],
                _ => 0,
            },
            GlCall::IsEnabled { .. } => u32::from(d.b.scissor),
            GlCall::Enable { .. } => {
                d.b.scissor = true;
                0
            }
            GlCall::Disable { .. } => {
                d.b.scissor = false;
                0
            }
            GlCall::CreateTexture | GlCall::CreateFramebuffer | GlCall::CreateRenderbuffer => {
                d.next += 1;
                d.next
            }
            GlCall::BindFramebuffer { target, name } => {
                d.binds += 1;
                if target != glow::DRAW_FRAMEBUFFER {
                    d.b.read = name;
                }
                if target != glow::READ_FRAMEBUFFER {
                    d.b.draw = name;
                }
                0
            }
            GlCall::BindTexture { name, .. } => {
                d.b.texture = name;
                0
            }
            GlCall::BindRenderbuffer { name } => {
                d.b.renderbuffer = name;
                0
            }
            GlCall::ActiveTexture { unit } => {
                d.b.active_texture = unit;
                0
            }
            GlCall::BindBuffer { target, name } => {
                if target == glow::PIXEL_PACK_BUFFER {
                    d.b.pack_buffer = name;
                } else {
                    d.b.unpack_buffer = name;
                }
                0
            }
            GlCall::PixelStore { pname, value } => {
                match pname {
                    glow::UNPACK_ALIGNMENT => d.b.unpack_alignment = value,
                    glow::PACK_ALIGNMENT => d.b.pack[0] = value,
                    glow::PACK_ROW_LENGTH => d.b.pack[1] = value,
                    glow::PACK_SKIP_PIXELS => d.b.pack[2] = value,
                    _ => d.b.pack[3] = value,
                }
                0
            }
            GlCall::CheckFramebufferStatus { .. } => d.status,
            GlCall::Blit { mask, .. } => {
                d.masks.push(mask);
                let clipped = d.b.scissor;
                d.clipped.push(clipped);
                0
            }
            _ => 0,
        }
    })
}

#[test]
fn bypass_resolves_the_default_framebuffer_to_the_window() {
    assert_eq!(default_framebuffer_of(true, Some(7)), None);
}

#[test]
fn without_bypass_the_default_framebuffer_is_the_drawing_buffer() {
    assert_eq!(default_framebuffer_of(false, Some(7)), Some(7));
}

#[test]
fn default_framebuffer_remaps_only_default_bindings_in_both_directions() {
    for installed_is_zero in [false, true] {
        let old = if installed_is_zero { 0 } else { 7 };
        let new = if installed_is_zero { 7 } else { 0 };
        let applied_fbo = if installed_is_zero { None } else { Some(7) };
        let desired = if installed_is_zero { Some(7) } else { None };
        for (read, draw) in [(old, old), (old, 9), (8, old), (8, 9)] {
            let d = driver(Bindings { read, draw, ..plain() });
            let mut applied = applied_fbo;
            apply_default_framebuffer(&mut gl(&d), true, &mut applied, desired);
            let d = d.borrow();
            assert_eq!(d.b.read, if read == old { new } else { read });
            assert_eq!(d.b.draw, if draw == old { new } else { draw });
            assert_eq!(applied, desired);
            assert_eq!(d.binds, usize::from(read == old || draw == old));
        }
    }
}

#[test]
fn a_rebuilt_drawing_buffer_remaps_even_though_the_mode_is_unchanged() {
    let d = driver(Bindings { read: 7, draw: 7, ..plain() });
    let mut applied = Some(7);
    apply_default_framebuffer(&mut gl(&d), true, &mut applied, Some(11));
    assert_eq!(applied, Some(11));
    assert_eq!(d.borrow().b.read, 11);
    assert_eq!(d.borrow().b.draw, 11);
    assert_eq!(d.borrow().binds, 1);
}

#[test]
fn default_framebuffer_change_waits_for_its_context_and_then_applies_once() {
    let d = driver(plain());
    let mut device = gl(&d);
    let mut applied = None;
    apply_default_framebuffer(&mut device, false, &mut applied, Some(7));
    assert_eq!(applied, None);
    assert_eq!(d.borrow().binds, 0);
    d.borrow_mut().b.draw = 0x8000_0009;
    apply_default_framebuffer(&mut device, true, &mut applied, Some(7));
    assert_eq!(applied, Some(7));
    assert_eq!(d.borrow().b.read, 7);
    assert_eq!(d.borrow().b.draw, 0x8000_0009);
    assert_eq!(d.borrow().binds, 1);
    apply_default_framebuffer(&mut device, true, &mut applied, Some(7));
    assert_eq!(d.borrow().binds, 1);
}

#[test]
fn default_framebuffer_changes_that_cancel_while_away_need_no_bind() {
    let d = driver(plain());
    let mut device = gl(&d);
    let mut applied = None;
    apply_default_framebuffer(&mut device, false, &mut applied, Some(7));
    apply_default_framebuffer(&mut device, false, &mut applied, None);
    apply_default_framebuffer(&mut device, true, &mut applied, None);
    assert_eq!(applied, None);
    assert_eq!(d.borrow().binds, 0);
}

#[test]
fn default_read_source_uses_read_binding_and_native_unknown_state() {
    for (major, probed) in [(3, false), (2, true)] {
        let d = driver(plain());
        let mut device = gl(&d);
        let mut state = CanvasGLState::default();
        state.bound_framebuffer.update(glow::READ_FRAMEBUFFER, None);
        state.bound_framebuffer.update(glow::DRAW_FRAMEBUFFER, Some(9001));
        assert!(reads_from_default_framebuffer(
            &mut device,
            major,
            probed,
            Some(&state),
            Some(7)
        ));
        state.bound_framebuffer.update(glow::FRAMEBUFFER, None);
        state.bound_framebuffer.update(glow::READ_FRAMEBUFFER, Some(9002));
        assert!(!reads_from_default_framebuffer(&mut device, major, probed, Some(&state), None));
        state.bound_framebuffer.forget_all();
        d.borrow_mut().b = Bindings { read: 7, draw: 9, ..plain() };
        assert!(reads_from_default_framebuffer(
            &mut device,
            major,
            probed,
            Some(&state),
            Some(7)
        ));
        assert!(!reads_from_default_framebuffer(&mut device, major, probed, None, None));
    }
}

#[test]
fn the_drawing_buffer_is_bound_where_its_framebuffer_is() {
    let d = driver(Bindings { read: 7, draw: 9, ..plain() });
    let mut device = gl(&d);
    assert!(is_drawing_buffer_bound(&mut device, Some(7), glow::READ_FRAMEBUFFER));
    assert!(!is_drawing_buffer_bound(&mut device, Some(7), glow::DRAW_FRAMEBUFFER));
    assert!(is_drawing_buffer_bound(&mut device, Some(9), glow::FRAMEBUFFER));
    assert!(!is_drawing_buffer_bound(&mut device, None, glow::READ_FRAMEBUFFER));
}

#[test]
fn default_mapping_without_a_drawing_buffer_needs_no_split_bindings() {
    let d = driver(plain());
    let mut device = gl(&d);
    let mut applied = None;
    apply_default_framebuffer(&mut device, true, &mut applied, None);
    assert!(reads_from_default_framebuffer(&mut device, 2, false, None, None));
    assert_eq!(d.borrow().binds, 0);
    assert!(!d
        .borrow()
        .log
        .contains(&GlCall::GetInteger { pname: glow::READ_FRAMEBUFFER_BINDING }));
}

#[test]
fn internal_readback_canvas2d_scope_isolates_and_restores_pack_layout() {
    for original in [
        Bindings {
            pack: [8, 9, 2, 3],
            pack_buffer: 17,
            active_texture: glow::TEXTURE0 + 3,
            unpack_buffer: 19,
            unpack_alignment: 8,
            ..plain()
        },
        plain(),
    ] {
        let d = driver(original);
        let mut device = gl(&d);
        let saved = begin_canvas2d_gl_scope(&mut device);
        {
            let actual = d.borrow().b;
            assert_eq!(actual.pack, [4, 0, 0, 0]);
            assert_eq!(actual.pack_buffer, 0);
            assert_eq!(actual.unpack_buffer, 0);
        }
        d.borrow_mut().b = Bindings { pack: [2, 5, 7, 1], pack_buffer: 29, ..plain() };
        end_canvas2d_gl_scope(&mut device, saved);
        assert_eq!(d.borrow().b, original);
    }
}

#[test]
fn gl_state_defaults_correctly() {
    let state = CanvasGLState::default();
    assert!(state.draws_to_default_fbo);
    assert_eq!(state.scissor, ScissorState::Disabled);
    assert_eq!(state.last_scissor_rect, None);
}

#[test]
fn gl_state_tracks_fbo_and_scissor() {
    let mut state = CanvasGLState::default();
    state.draws_to_default_fbo = false;
    assert!(!state.draws_to_default_fbo);
    state.last_scissor_rect = Some((10, 20, 100, 50));
    state.scissor = ScissorState::Enabled { x: 10, y: 20, width: 100, height: 50 };
    assert!(matches!(state.scissor, ScissorState::Enabled { .. }));
    state.scissor = ScissorState::Disabled;
    assert_eq!(state.scissor, ScissorState::Disabled);
    assert_eq!(state.last_scissor_rect, Some((10, 20, 100, 50)));
}

#[test]
fn mode_transition_explicitly_discards_depth_stencil() {
    let d = driver(Bindings { scissor: true, ..plain() });
    let mut device = gl(&d);
    let db = create(&mut device, 30, 20).expect("made");
    d.borrow_mut().masks.clear();
    d.borrow_mut().clipped.clear();
    assert!(blit_from_surface(&mut device, &db, 30, 20));
    assert_eq!(d.borrow().masks, vec![glow::COLOR_BUFFER_BIT]);
    assert_eq!(d.borrow().clipped, vec![false]);
}

#[test]
fn a_drawing_buffer_gives_content_its_bindings_back() {
    let d = driver(Bindings { texture: 3, renderbuffer: 4, ..plain() });
    let mut device = gl(&d);
    let mut db = create(&mut device, 30, 20).expect("made");
    assert_eq!((d.borrow().b.texture, d.borrow().b.renderbuffer), (3, 4));
    assert_eq!(d.borrow().b.draw, db.fbo);
    assert_eq!(resize(&mut device, &mut db, 31, 21), Ok(()));
    assert_eq!((db.width, db.height), (31, 21));
    assert_eq!((d.borrow().b.texture, d.borrow().b.renderbuffer), (3, 4));
    d.borrow_mut().status = 0x8CD6;
    assert_eq!(
        resize(&mut device, &mut db, 40, 40),
        Err(DrawingBufferError::Incomplete { status: 0x8CD6 })
    );
    assert_eq!((db.width, db.height), (31, 21));
    destroy(&mut device, db);
    assert!(d.borrow().log.contains(&GlCall::DeleteFramebuffer { name: db.fbo }));
}

#[test]
fn a_drawing_buffer_that_cannot_be_made_leaves_nothing() {
    for (call, error) in [
        (GlCall::CreateFramebuffer, DrawingBufferError::CreateFramebuffer),
        (GlCall::CreateTexture, DrawingBufferError::CreateTexture),
        (GlCall::CreateRenderbuffer, DrawingBufferError::CreateRenderbuffer),
    ] {
        let d = driver(plain());
        d.borrow_mut().refuse = Some(call);
        let made = create(&mut gl(&d), 30, 20);
        assert_eq!(made.err(), Some(error));
        let d = d.borrow();
        let created = d
            .log
            .iter()
            .filter(|c| {
                **c != call
                    && matches!(
                        c,
                        GlCall::CreateFramebuffer
                            | GlCall::CreateTexture
                            | GlCall::CreateRenderbuffer
                    )
            })
            .count();
        let deleted = d
            .log
            .iter()
            .filter(|c| {
                matches!(
                    c,
                    GlCall::DeleteFramebuffer { .. }
                        | GlCall::DeleteTexture { .. }
                        | GlCall::DeleteRenderbuffer { .. }
                )
            })
            .count();
        assert_eq!(created, deleted);
    }
}

#[test]
fn a_present_copies_each_rectangle_unclipped() {
    let d = driver(Bindings { scissor: true, ..plain() });
    let mut device = gl(&d);
    let db = DrawingBuffer { fbo: 9, color_tex: 10, depth_stencil_rb: 11, width: 30, height: 20 };
    let mut rects = DamageRects::new();
    assert!(rects.insert(DamageRect::new(0, 0, 4, 4).expect("a rect")));
    assert!(rects.insert(DamageRect::new(10, 10, 4, 4).expect("a rect")));
    assert!(blit_to_surface(&mut device, &db, 30, 20, &BlitPlan::Rects(rects)));
    assert_eq!(d.borrow().clipped, vec![false, false]);
    assert!(d.borrow().b.scissor);
}

#[test]
fn a_framebuffer_that_came_apart_is_put_together_before_it_is_asked_again() {
    let d = driver(plain());
    let mut gl = gl(&d);
    let db = create(&mut gl, 8, 8).expect("made");
    d.borrow_mut().status = glow::FRAMEBUFFER_INCOMPLETE_ATTACHMENT;
    d.borrow_mut().log.clear();
    assert!(!blit_to_surface(&mut gl, &db, 8, 8, &BlitPlan::Full { linear: false }));
    let log = d.borrow().log.clone();
    let attach = GlCall::FramebufferTexture {
        target: glow::FRAMEBUFFER,
        attachment: glow::COLOR_ATTACHMENT0,
        name: db.color_tex,
    };
    let again = GlCall::CheckFramebufferStatus { target: glow::FRAMEBUFFER };
    let at = |call: GlCall| log.iter().position(|c| *c == call).expect("called");
    assert!(at(attach) < at(again));
    assert!(log.contains(&GlCall::FramebufferRenderbuffer {
        target: glow::FRAMEBUFFER,
        attachment: glow::DEPTH_STENCIL_ATTACHMENT,
        name: db.depth_stencil_rb,
    }));
}

#[test]
fn a_buffer_has_storage_for_depth_at_its_size() {
    let d = driver(plain());
    let mut gl = gl(&d);
    let mut db = create(&mut gl, 8, 6).expect("made");
    resize(&mut gl, &mut db, 12, 9).expect("resized");
    for (width, height) in [(8, 6), (12, 9)] {
        assert!(d.borrow().log.contains(&GlCall::RenderbufferStorage {
            format: glow::DEPTH24_STENCIL8,
            width,
            height,
        }));
    }
}
