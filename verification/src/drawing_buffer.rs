//! The drawing buffer: an intermediate framebuffer that content renders to in place of
//! the window surface, and that is copied to the surface when a frame is presented.
use vstd::prelude::*;

use crate::gl::{
    CLAMP_TO_EDGE, COLOR_ATTACHMENT0, COLOR_BUFFER_BIT, DEPTH24_STENCIL8, DEPTH_STENCIL_ATTACHMENT,
    DRAW_FRAMEBUFFER, DRAW_FRAMEBUFFER_BINDING, FRAMEBUFFER, FRAMEBUFFER_COMPLETE, LINEAR, NEAREST,
    NO_ERROR, READ_FRAMEBUFFER, READ_FRAMEBUFFER_BINDING, RENDERBUFFER_BINDING, RGBA, SCISSOR_TEST,
    TEXTURE_2D, TEXTURE_BINDING_2D, TEXTURE_MAG_FILTER, TEXTURE_MIN_FILTER, TEXTURE_WRAP_S,
    TEXTURE_WRAP_T,
};
use crate::gl_device::Corners;
use crate::gl_device::Gl;
use crate::gl_device::GlCall;
use crate::present::BlitPlan;

verus! {

/// The objects of a drawing buffer and its size in pixels.
#[derive(Clone, Copy, Debug, PartialEq, Eq, Structural)]
pub struct DrawingBuffer {
    pub fbo: u32,
    pub color_tex: u32,
    pub depth_stencil_rb: u32,
    pub width: u32,
    pub height: u32,
}

/// Why a drawing buffer could not be made or resized.
#[derive(Clone, Copy, Debug, PartialEq, Eq, Structural)]
pub enum DrawingBufferError {
    CreateFramebuffer,
    CreateTexture,
    CreateRenderbuffer,
    /// The framebuffer is incomplete, with the driver's status.
    Incomplete { status: u32 },
    /// The driver has no framebuffer blit.
    BlitUnavailable,
    /// A trial blit raised an error.
    BlitProbe { error: u32 },
}

/// A whole buffer or surface.
pub open spec fn whole(width: u32, height: u32) -> Corners {
    Corners { x0: 0, y0: 0, x1: width as i32, y1: height as i32 }
}

/// What framebuffers hold once a buffer's texture and renderbuffer are attached to its own.
pub open spec fn attachments(
    attached: Map<(u32, u32), crate::gl_device::Attached>,
    db: DrawingBuffer,
) -> Map<(u32, u32), crate::gl_device::Attached> {
    attached.insert(
        (db.fbo, COLOR_ATTACHMENT0),
        crate::gl_device::Attached::Texture(db.color_tex),
    ).insert(
        (db.fbo, DEPTH_STENCIL_ATTACHMENT),
        crate::gl_device::Attached::Renderbuffer(db.depth_stencil_rb),
    )
}

/// A buffer is put together: its texture and its renderbuffer have its size, and both are
/// attached to its framebuffer.
pub open spec fn assembled(m: crate::gl_device::GlModel, db: DrawingBuffer) -> bool {
    let w = db.width as i32;
    let h = db.height as i32;
    &&& m.storage.dom().contains(db.color_tex) && m.storage[db.color_tex] == (RGBA, w, h)
    &&& m.renderbuffer_storage.dom().contains(db.depth_stencil_rb)
    &&& m.renderbuffer_storage[db.depth_stencil_rb] == (DEPTH24_STENCIL8, w, h)
    &&& holds_own(m.attached, db)
}

/// A buffer's framebuffer holds its texture and its renderbuffer.
pub open spec fn holds_own(
    attached: Map<(u32, u32), crate::gl_device::Attached>,
    db: DrawingBuffer,
) -> bool {
    let color = (db.fbo, COLOR_ATTACHMENT0);
    let depth = (db.fbo, DEPTH_STENCIL_ATTACHMENT);
    &&& attached.dom().contains(color) && attached[color] == crate::gl_device::Attached::Texture(
        db.color_tex,
    )
    &&& attached.dom().contains(depth) && attached[depth]
        == crate::gl_device::Attached::Renderbuffer(db.depth_stencil_rb)
}

/// Give a buffer's texture and renderbuffer storage, attach both through `target`, and
/// ask whether the framebuffer is complete.
fn assemble<F: Fn(GlCall) -> u32>(gl: &mut Gl<F>, db: DrawingBuffer, target: u32) -> (status: u32)
    requires
        old(gl).ready(),
        target == FRAMEBUFFER || target == DRAW_FRAMEBUFFER,
    ensures
        final(gl).ready(),
        final(gl).runner() == old(gl).runner(),
        ({
            let before = old(gl)@;
            let after = final(gl)@;
            let unit = before.bindings.active_texture;
            &&& after == (crate::gl_device::GlModel {
                bindings: crate::gl_device::Bindings {
                    textures: before.bindings.textures.insert(unit, db.color_tex),
                    renderbuffer: db.depth_stencil_rb,
                    read_framebuffer: if target == FRAMEBUFFER {
                        db.fbo
                    } else {
                        before.bindings.read_framebuffer
                    },
                    draw_framebuffer: db.fbo,
                    ..before.bindings
                },
                storage: before.storage.insert(
                    db.color_tex,
                    (RGBA, db.width as i32, db.height as i32),
                ),
                renderbuffer_storage: before.renderbuffer_storage.insert(
                    db.depth_stencil_rb,
                    (DEPTH24_STENCIL8, db.width as i32, db.height as i32),
                ),
                attached: attachments(before.attached, db),
                statuses: before.statuses.push(status),
                binds: before.binds.push((target, db.fbo)),
                ..before
            })
        }),
{
    let w: i32 = db.width as i32;
    let h: i32 = db.height as i32;
    let _ = gl.issue(GlCall::BindTexture { target: TEXTURE_2D, name: db.color_tex });
    let _ = gl.issue(
        GlCall::TexImage2D { target: TEXTURE_2D, internal_format: RGBA, width: w, height: h },
    );
    let _ = gl.issue(GlCall::BindRenderbuffer { name: db.depth_stencil_rb });
    let _ = gl.issue(
        GlCall::RenderbufferStorage { format: DEPTH24_STENCIL8, width: w, height: h },
    );
    let _ = gl.issue(GlCall::BindFramebuffer { target, name: db.fbo });
    let _ = gl.issue(
        GlCall::FramebufferTexture { target, attachment: COLOR_ATTACHMENT0, name: db.color_tex },
    );
    let _ = gl.issue(
        GlCall::FramebufferRenderbuffer {
            target,
            attachment: DEPTH_STENCIL_ATTACHMENT,
            name: db.depth_stencil_rb,
        },
    );
    gl.issue(GlCall::CheckFramebufferStatus { target })
}

/// Give the bound texture the filters and wrapping of one that is read texel for texel.
fn set_nearest<F: Fn(GlCall) -> u32>(gl: &mut Gl<F>)
    requires
        old(gl).ready(),
    ensures
        final(gl).ready(),
        final(gl).runner() == old(gl).runner(),
        final(gl)@ == (crate::gl_device::GlModel {
            sampling: if old(gl)@.bindings.textures.dom().contains(
                old(gl)@.bindings.active_texture,
            ) {
                crate::gl_device::sampled(
                    old(gl)@.sampling,
                    old(gl)@.bindings.textures[old(gl)@.bindings.active_texture],
                    NEAREST,
                )
            } else {
                old(gl)@.sampling
            },
            ..old(gl)@
        }),
{
    let _ = gl.issue(
        GlCall::TexParameter { target: TEXTURE_2D, pname: TEXTURE_MIN_FILTER, value: NEAREST },
    );
    let _ = gl.issue(
        GlCall::TexParameter { target: TEXTURE_2D, pname: TEXTURE_MAG_FILTER, value: NEAREST },
    );
    let _ = gl.issue(
        GlCall::TexParameter { target: TEXTURE_2D, pname: TEXTURE_WRAP_S, value: CLAMP_TO_EDGE },
    );
    let _ = gl.issue(
        GlCall::TexParameter { target: TEXTURE_2D, pname: TEXTURE_WRAP_T, value: CLAMP_TO_EDGE },
    );
}

/// Make the objects of a buffer, or none of them.
fn create_objects<F: Fn(GlCall) -> u32>(gl: &mut Gl<F>, width: u32, height: u32) -> (made: Result<
    DrawingBuffer,
    DrawingBufferError,
>)
    requires
        old(gl).ready(),
    ensures
        final(gl).ready(),
        final(gl).runner() == old(gl).runner(),
        final(gl)@.viewports == old(gl)@.viewports,
        match made {
            Ok(db) => {
                &&& db.fbo != 0 && db.color_tex != 0 && db.depth_stencil_rb != 0
                &&& db.width == width && db.height == height
                &&& call_ensures(old(gl).runner(), (GlCall::CreateFramebuffer,), db.fbo)
                &&& call_ensures(old(gl).runner(), (GlCall::CreateTexture,), db.color_tex)
                &&& call_ensures(
                    old(gl).runner(),
                    (GlCall::CreateRenderbuffer,),
                    db.depth_stencil_rb,
                )
                &&& final(gl)@ == (crate::gl_device::GlModel {
                    textures: old(gl)@.textures.insert(db.color_tex),
                    framebuffers: old(gl)@.framebuffers.insert(db.fbo),
                    renderbuffers: old(gl)@.renderbuffers.insert(db.depth_stencil_rb),
                    ..old(gl)@
                })
            },
            Err(e) => {
                &&& match e {
                    DrawingBufferError::CreateFramebuffer => call_ensures(
                        old(gl).runner(),
                        (GlCall::CreateFramebuffer,),
                        0u32,
                    ),
                    DrawingBufferError::CreateTexture => call_ensures(
                        old(gl).runner(),
                        (GlCall::CreateTexture,),
                        0u32,
                    ),
                    DrawingBufferError::CreateRenderbuffer => call_ensures(
                        old(gl).runner(),
                        (GlCall::CreateRenderbuffer,),
                        0u32,
                    ),
                    _ => false,
                }
                &&& final(gl)@.bindings == old(gl)@.bindings
                &&& final(gl)@.blits == old(gl)@.blits
                &&& final(gl)@.truthful == old(gl)@.truthful
                &&& crate::drawing_buffer::nothing_new(old(gl)@, final(gl)@)
                &&& final(gl)@.refused.len() > old(gl)@.refused.len()
            },
        },
{
    let fbo: u32 = gl.issue(GlCall::CreateFramebuffer);
    if fbo == 0 {
        return Err(DrawingBufferError::CreateFramebuffer);
    }
    let color_tex: u32 = gl.issue(GlCall::CreateTexture);
    if color_tex == 0 {
        let _ = gl.issue(GlCall::DeleteFramebuffer { name: fbo });
        return Err(DrawingBufferError::CreateTexture);
    }
    let depth_stencil_rb: u32 = gl.issue(GlCall::CreateRenderbuffer);
    if depth_stencil_rb == 0 {
        let _ = gl.issue(GlCall::DeleteFramebuffer { name: fbo });
        let _ = gl.issue(GlCall::DeleteTexture { name: color_tex });
        return Err(DrawingBufferError::CreateRenderbuffer);
    }
    Ok(DrawingBuffer { fbo, color_tex, depth_stencil_rb, width, height })
}

/// No object exists that did not before.
pub open spec fn nothing_new(
    before: crate::gl_device::GlModel,
    after: crate::gl_device::GlModel,
) -> bool {
    &&& after.textures.subset_of(before.textures)
    &&& after.framebuffers.subset_of(before.framebuffers)
    &&& after.renderbuffers.subset_of(before.renderbuffers)
}

/// A buffer could not be made: the library did not make one of its objects or has no blit, its
/// framebuffer is incomplete, or a trial blit raised an error.
pub open spec fn buffer_unmade(
    before: crate::gl_device::GlModel,
    after: crate::gl_device::GlModel,
) -> bool {
    ||| after.refused.len() > before.refused.len()
    ||| after.statuses.len() > before.statuses.len() && after.statuses.last()
        != FRAMEBUFFER_COMPLETE
    ||| after.errors.len() > before.errors.len() && after.errors.last() != NO_ERROR
}

/// Delete a buffer's objects.
pub fn destroy<F: Fn(GlCall) -> u32>(gl: &mut Gl<F>, db: DrawingBuffer)
    requires
        old(gl).ready(),
    ensures
        final(gl).ready(),
        final(gl).runner() == old(gl).runner(),
        final(gl)@ == (crate::gl_device::GlModel {
            textures: old(gl)@.textures.remove(db.color_tex),
            framebuffers: old(gl)@.framebuffers.remove(db.fbo),
            renderbuffers: old(gl)@.renderbuffers.remove(db.depth_stencil_rb),
            ..old(gl)@
        }),
{
    let _ = gl.issue(GlCall::DeleteFramebuffer { name: db.fbo });
    let _ = gl.issue(GlCall::DeleteTexture { name: db.color_tex });
    let _ = gl.issue(GlCall::DeleteRenderbuffer { name: db.depth_stencil_rb });
}

/// Try one blit out of the buffer. It must exist and raise no error.
fn probe_blit<F: Fn(GlCall) -> u32>(gl: &mut Gl<F>, fbo: u32) -> (result: Result<
    (),
    DrawingBufferError,
>)
    requires
        old(gl).ready(),
    ensures
        final(gl).ready(),
        final(gl).runner() == old(gl).runner(),
        final(gl)@.bindings == (crate::gl_device::Bindings {
            read_framebuffer: fbo,
            draw_framebuffer: 0,
            ..old(gl)@.bindings
        }),
        final(gl)@ == (crate::gl_device::GlModel {
            bindings: final(gl)@.bindings,
            blits: final(gl)@.blits,
            errors: final(gl)@.errors,
            binds: final(gl)@.binds,
            refused: final(gl)@.refused,
            ..old(gl)@
        }),
        final(gl)@.blits == old(gl)@.blits.push(trial(fbo, old(gl)@.bindings.scissor)),
        final(gl)@.errors.len() > old(gl)@.errors.len(),
        match result {
            Ok(_) => final(gl)@.errors.last() == NO_ERROR && final(gl)@.refused == old(gl)@.refused,
            Err(DrawingBufferError::BlitProbe { error }) => error == final(gl)@.errors.last()
                && error != NO_ERROR,
            Err(DrawingBufferError::BlitUnavailable) => final(gl)@.refused == old(
                gl,
            )@.refused.push(probe_call()) && exists|absent: u32|
                absent != 0 && #[trigger] call_ensures(
                    old(gl).runner(),
                    (probe_call(),),
                    absent,
                ),
            Err(_) => false,
        },
{
    gl.clear_errors();
    let _ = gl.issue(GlCall::BindFramebuffer { target: READ_FRAMEBUFFER, name: fbo });
    let _ = gl.issue(GlCall::BindFramebuffer { target: DRAW_FRAMEBUFFER, name: 0 });
    let pixel = Corners { x0: 0, y0: 0, x1: 1, y1: 1 };
    let absent: u32 = gl.issue(
        GlCall::Blit { source: pixel, target: pixel, mask: COLOR_BUFFER_BIT, filter: NEAREST },
    );
    assert(call_ensures(old(gl).runner(), (probe_call(),), absent));
    let error: u32 = gl.issue(GlCall::GetError);
    if absent != 0 {
        Err(DrawingBufferError::BlitUnavailable)
    } else if error != NO_ERROR {
        Err(DrawingBufferError::BlitProbe { error })
    } else {
        Ok(())
    }
}

/// The trial blit: one pixel onto itself.
pub open spec fn probe_call() -> GlCall {
    let pixel = Corners { x0: 0, y0: 0, x1: 1, y1: 1 };
    GlCall::Blit { source: pixel, target: pixel, mask: COLOR_BUFFER_BIT, filter: NEAREST }
}

/// The account of the trial blit out of a buffer onto the window.
pub open spec fn trial(fbo: u32, clipped: bool) -> crate::gl_device::BlitRecord {
    let pixel = Corners { x0: 0, y0: 0, x1: 1, y1: 1 };
    crate::gl_device::BlitRecord {
        read_framebuffer: fbo,
        draw_framebuffer: 0,
        source: pixel,
        target: pixel,
        mask: COLOR_BUFFER_BIT,
        filter: NEAREST,
        clipped,
    }
}

/// Make a drawing buffer of the given size.
///
/// The content's texture and renderbuffer bindings are restored on every path, and so
/// is its pixel-store state. A buffer that was made stays bound as the framebuffer; where
/// none was made, no object of it is left.
pub fn create<F: Fn(GlCall) -> u32>(gl: &mut Gl<F>, width: u32, height: u32) -> (made: Result<
    DrawingBuffer,
    DrawingBufferError,
>)
    requires
        old(gl).ready(),
    ensures
        final(gl).ready(),
        final(gl).runner() == old(gl).runner(),
        final(gl)@.viewports == old(gl)@.viewports,
        match made {
            Ok(db) => {
                &&& db.fbo != 0 && db.color_tex != 0 && db.depth_stencil_rb != 0
                &&& db.width == width && db.height == height
                &&& final(gl)@.textures == old(gl)@.textures.insert(db.color_tex)
                &&& final(gl)@.framebuffers == old(gl)@.framebuffers.insert(db.fbo)
                &&& final(gl)@.renderbuffers == old(gl)@.renderbuffers.insert(db.depth_stencil_rb)
                &&& assembled(final(gl)@, db)
                &&& final(gl)@.attached == attachments(old(gl)@.attached, db)
                &&& final(gl)@.sampling == crate::gl_device::sampled(
                    old(gl)@.sampling,
                    db.color_tex,
                    NEAREST,
                )
                &&& final(gl)@.statuses == old(gl)@.statuses.push(FRAMEBUFFER_COMPLETE)
                &&& final(gl)@.errors.last() == NO_ERROR
                &&& final(gl)@.blits == old(gl)@.blits.push(
                    trial(db.fbo, old(gl)@.bindings.scissor),
                )
                &&& final(gl)@.truthful ==> final(gl)@.bindings =~= (crate::gl_device::Bindings {
                    read_framebuffer: db.fbo,
                    draw_framebuffer: db.fbo,
                    compact_unpack: false,
                    ..old(gl)@.bindings
                })
            },
            Err(e) => {
                &&& nothing_new(old(gl)@, final(gl)@)
                &&& buffer_unmade(old(gl)@, final(gl)@)
                &&& e matches DrawingBufferError::CreateFramebuffer ==> call_ensures(
                    old(gl).runner(),
                    (GlCall::CreateFramebuffer,),
                    0u32,
                )
                &&& e matches DrawingBufferError::CreateTexture ==> call_ensures(
                    old(gl).runner(),
                    (GlCall::CreateTexture,),
                    0u32,
                )
                &&& e matches DrawingBufferError::CreateRenderbuffer ==> call_ensures(
                    old(gl).runner(),
                    (GlCall::CreateRenderbuffer,),
                    0u32,
                )
                &&& e matches DrawingBufferError::Incomplete { status } ==> status
                    != FRAMEBUFFER_COMPLETE && final(gl)@.statuses == old(gl)@.statuses.push(status)
                &&& e matches DrawingBufferError::BlitProbe { error } ==> error != NO_ERROR
                    && error == final(gl)@.errors.last()
                &&& e matches DrawingBufferError::BlitUnavailable ==> exists|absent: u32|
                    absent != 0 && #[trigger] call_ensures(
                        old(gl).runner(),
                        (probe_call(),),
                        absent,
                    )
                &&& final(gl)@.truthful ==> {
                    let unmade = e is CreateFramebuffer || e is CreateTexture
                        || e is CreateRenderbuffer;
                    final(gl)@.bindings =~= (crate::gl_device::Bindings {
                        read_framebuffer: if unmade {
                            old(gl)@.bindings.read_framebuffer
                        } else {
                            0
                        },
                        draw_framebuffer: if unmade {
                            old(gl)@.bindings.draw_framebuffer
                        } else {
                            0
                        },
                        compact_unpack: false,
                        ..old(gl)@.bindings
                    })
                }
            },
        },
{
    let _ = gl.issue(GlCall::CompactUnpack { alignment: 4 });
    let texture: u32 = gl.issue(GlCall::GetInteger { pname: TEXTURE_BINDING_2D });
    let renderbuffer: u32 = gl.issue(GlCall::GetInteger { pname: RENDERBUFFER_BINDING });
    let result = create_bound(gl, width, height);
    let ghost moved = gl@.bindings.textures;
    let _ = gl.issue(GlCall::BindTexture { target: TEXTURE_2D, name: texture });
    let _ = gl.issue(GlCall::BindRenderbuffer { name: renderbuffer });
    let _ = gl.issue(GlCall::RestoreUnpack);
    proof {
        let unit = old(gl)@.bindings.active_texture;
        let kept = old(gl)@.bindings.textures;
        if gl@.truthful {
            assert forall|u: u32| u != unit implies moved.dom().contains(u)
                == kept.dom().contains(u) && moved[u] == kept[u] by {
                assert(moved.remove(unit).dom().contains(u) == kept.remove(unit).dom().contains(u));
                assert(moved.remove(unit)[u] == kept.remove(unit)[u]);
            }
            assert(gl@.bindings.textures =~= kept);
        }
    }
    result
}

/// Make a buffer, leaving its texture and renderbuffer bound where it came that far.
fn create_bound<F: Fn(GlCall) -> u32>(gl: &mut Gl<F>, width: u32, height: u32) -> (made: Result<
    DrawingBuffer,
    DrawingBufferError,
>)
    requires
        old(gl).ready(),
    ensures
        final(gl).ready(),
        final(gl).runner() == old(gl).runner(),
        final(gl)@.viewports == old(gl)@.viewports,
        final(gl)@.truthful == old(gl)@.truthful,
        final(gl)@.bindings.scissor == old(gl)@.bindings.scissor,
        final(gl)@.bindings.active_texture == old(gl)@.bindings.active_texture,
        final(gl)@.bindings.compact_unpack == old(gl)@.bindings.compact_unpack,
        final(gl)@.bindings.unpack_buffer == old(gl)@.bindings.unpack_buffer,
        final(gl)@.bindings.pack_buffer == old(gl)@.bindings.pack_buffer,
        final(gl)@.bindings.pixel_store == old(gl)@.bindings.pixel_store,
        final(gl)@.bindings.textures.remove(old(gl)@.bindings.active_texture) =~= old(gl)@.bindings.textures.remove(old(gl)@.bindings.active_texture),
        match made {
            Ok(db) => {
                &&& db.fbo != 0 && db.color_tex != 0 && db.depth_stencil_rb != 0
                &&& db.width == width && db.height == height
                &&& final(gl)@.textures == old(gl)@.textures.insert(db.color_tex)
                &&& final(gl)@.framebuffers == old(gl)@.framebuffers.insert(db.fbo)
                &&& final(gl)@.renderbuffers == old(gl)@.renderbuffers.insert(db.depth_stencil_rb)
                &&& assembled(final(gl)@, db)
                &&& final(gl)@.attached == attachments(old(gl)@.attached, db)
                &&& final(gl)@.sampling == crate::gl_device::sampled(
                    old(gl)@.sampling,
                    db.color_tex,
                    NEAREST,
                )
                &&& final(gl)@.statuses == old(gl)@.statuses.push(FRAMEBUFFER_COMPLETE)
                &&& final(gl)@.errors.last() == NO_ERROR
                &&& final(gl)@.blits == old(gl)@.blits.push(
                    trial(db.fbo, old(gl)@.bindings.scissor),
                )
                &&& final(gl)@.bindings.read_framebuffer == db.fbo
                &&& final(gl)@.bindings.draw_framebuffer == db.fbo
            },
            Err(e) => {
                let unmade = e is CreateFramebuffer || e is CreateTexture || e is CreateRenderbuffer;
                &&& nothing_new(old(gl)@, final(gl)@)
                &&& buffer_unmade(old(gl)@, final(gl)@)
                &&& unmade ==> final(gl)@.bindings == old(gl)@.bindings
                &&& !unmade ==> final(gl)@.bindings.read_framebuffer == 0 && final(gl)@.bindings.draw_framebuffer == 0
                &&& e matches DrawingBufferError::CreateFramebuffer ==> call_ensures(
                    old(gl).runner(),
                    (GlCall::CreateFramebuffer,),
                    0u32,
                )
                &&& e matches DrawingBufferError::CreateTexture ==> call_ensures(
                    old(gl).runner(),
                    (GlCall::CreateTexture,),
                    0u32,
                )
                &&& e matches DrawingBufferError::CreateRenderbuffer ==> call_ensures(
                    old(gl).runner(),
                    (GlCall::CreateRenderbuffer,),
                    0u32,
                )
                &&& e matches DrawingBufferError::Incomplete { status } ==> status
                    != FRAMEBUFFER_COMPLETE && final(gl)@.statuses == old(gl)@.statuses.push(status)
                &&& e matches DrawingBufferError::BlitProbe { error } ==> error != NO_ERROR
                    && error == final(gl)@.errors.last()
                &&& e matches DrawingBufferError::BlitUnavailable ==> exists|absent: u32|
                    absent != 0 && #[trigger] call_ensures(
                        old(gl).runner(),
                        (probe_call(),),
                        absent,
                    )
            },
        },
{
    let db = match create_objects(gl, width, height) {
        Err(e) => {
            return Err(e);
        },
        Ok(db) => db,
    };
    let _ = gl.issue(GlCall::BindTexture { target: TEXTURE_2D, name: db.color_tex });
    set_nearest(gl);
    let status: u32 = assemble(gl, db, FRAMEBUFFER);
    if status != FRAMEBUFFER_COMPLETE {
        let _ = gl.issue(GlCall::BindFramebuffer { target: FRAMEBUFFER, name: 0 });
        destroy(gl, db);
        return Err(DrawingBufferError::Incomplete { status });
    }
    if let Err(e) = probe_blit(gl, db.fbo) {
        let _ = gl.issue(GlCall::BindFramebuffer { target: FRAMEBUFFER, name: 0 });
        destroy(gl, db);
        return Err(e);
    }
    let _ = gl.issue(GlCall::BindFramebuffer { target: FRAMEBUFFER, name: db.fbo });
    Ok(db)
}

/// Give a buffer another size, keeping its objects. All bindings are restored on every
/// path; a framebuffer that is incomplete at the new size leaves the recorded size as it
/// was. Nothing is done where the size stays.
pub fn resize<F: Fn(GlCall) -> u32>(
    gl: &mut Gl<F>,
    db: &mut DrawingBuffer,
    new_w: u32,
    new_h: u32,
) -> (result: Result<(), DrawingBufferError>)
    requires
        old(gl).ready(),
    ensures
        final(gl).ready(),
        final(gl).runner() == old(gl).runner(),
        old(db).width == new_w && old(db).height == new_h ==> result is Ok && *final(db) == *old(db) && final(gl)@ == old(gl)@,
        final(gl)@.viewports == old(gl)@.viewports,
        !(old(db).width == new_w && old(db).height == new_h) ==> {
            &&& final(gl)@.statuses.len() == old(gl)@.statuses.len() + 1
            &&& final(gl)@.storage == old(gl)@.storage.insert(
                old(db).color_tex,
                (RGBA, new_w as i32, new_h as i32),
            )
            &&& final(gl)@.renderbuffer_storage == old(gl)@.renderbuffer_storage.insert(
                old(db).depth_stencil_rb,
                (DEPTH24_STENCIL8, new_w as i32, new_h as i32),
            )
            &&& final(gl)@.attached == attachments(old(gl)@.attached, *old(db))
            &&& final(gl)@.refused == old(gl)@.refused
            &&& final(gl)@.errors == old(gl)@.errors
            &&& final(gl)@.blits == old(gl)@.blits
            &&& final(gl)@.truthful ==> final(gl)@.bindings =~= (crate::gl_device::Bindings {
                compact_unpack: false,
                ..old(gl)@.bindings
            })
            &&& final(gl)@.textures == old(gl)@.textures
            &&& final(gl)@.framebuffers == old(gl)@.framebuffers
            &&& final(gl)@.renderbuffers == old(gl)@.renderbuffers
            &&& match result {
                Ok(_) => final(gl)@.statuses.last() == FRAMEBUFFER_COMPLETE && *final(db) == (
                DrawingBuffer { width: new_w, height: new_h, ..*old(db) }) && assembled(
                    final(gl)@,
                    *final(db),
                ),
                Err(e) => final(gl)@.statuses.last() != FRAMEBUFFER_COMPLETE && e
                    == (DrawingBufferError::Incomplete { status: final(gl)@.statuses.last() })
                    && *final(db) == *old(db),
            }
        },
{
    if db.width == new_w && db.height == new_h {
        return Ok(());
    }
    let _ = gl.issue(GlCall::CompactUnpack { alignment: 4 });
    let texture: u32 = gl.issue(GlCall::GetInteger { pname: TEXTURE_BINDING_2D });
    let renderbuffer: u32 = gl.issue(GlCall::GetInteger { pname: RENDERBUFFER_BINDING });
    let draw: u32 = gl.issue(GlCall::GetInteger { pname: DRAW_FRAMEBUFFER_BINDING });
    let resized = DrawingBuffer { width: new_w, height: new_h, ..*db };
    let status: u32 = assemble(gl, resized, DRAW_FRAMEBUFFER);
    let _ = gl.issue(GlCall::BindTexture { target: TEXTURE_2D, name: texture });
    let _ = gl.issue(GlCall::BindRenderbuffer { name: renderbuffer });
    let _ = gl.issue(GlCall::BindFramebuffer { target: DRAW_FRAMEBUFFER, name: draw });
    let _ = gl.issue(GlCall::RestoreUnpack);
    if status != FRAMEBUFFER_COMPLETE {
        return Err(DrawingBufferError::Incomplete { status });
    }
    *db = resized;
    Ok(())
}

/// The copy of the whole surface into the buffer.
pub open spec fn reverse_blit(
    db: DrawingBuffer,
    surface_w: u32,
    surface_h: u32,
) -> crate::gl_device::BlitRecord {
    crate::gl_device::BlitRecord {
        read_framebuffer: 0,
        draw_framebuffer: db.fbo,
        source: whole(surface_w, surface_h),
        target: whole(db.width, db.height),
        mask: COLOR_BUFFER_BIT,
        filter: if db.width == surface_w && db.height == surface_h {
            NEAREST
        } else {
            LINEAR
        },
        clipped: false,
    }
}

/// Copy the window surface into the buffer.
///
/// Only colour is copied: depth and stencil are given up at this boundary, since the
/// surface's own formats are not known to match. The scissor test does not clip the copy,
/// and every binding is as it was afterwards.
pub fn blit_from_surface<F: Fn(GlCall) -> u32>(
    gl: &mut Gl<F>,
    db: &DrawingBuffer,
    surface_w: u32,
    surface_h: u32,
) -> (succeeded: bool)
    requires
        old(gl).ready(),
    ensures
        final(gl).ready(),
        final(gl).runner() == old(gl).runner(),
        surface_w == 0 || surface_h == 0 || db.width == 0 || db.height == 0 ==> !succeeded && final(gl)@ == old(gl)@,
        final(gl)@.textures == old(gl)@.textures && final(gl)@.framebuffers == old(gl)@.framebuffers && final(gl)@.renderbuffers == old(gl)@.renderbuffers,
        final(gl)@.truthful ==> old(gl)@.truthful,
        final(gl)@.truthful ==> final(gl)@.bindings == old(gl)@.bindings,
        final(gl)@.blits == old(gl)@.blits || (final(gl)@.truthful ==> final(gl)@.blits == old(gl)@.blits.push(reverse_blit(*db, surface_w, surface_h))),
        succeeded ==> {
            &&& final(gl)@.truthful ==> final(gl)@.blits == old(gl)@.blits.push(
                reverse_blit(*db, surface_w, surface_h),
            )
            &&& final(gl)@.errors.last() == NO_ERROR
            &&& final(gl)@.statuses == old(gl)@.statuses.push(FRAMEBUFFER_COMPLETE)
        },
        !succeeded && surface_w != 0 && surface_h != 0 && db.width != 0 && db.height != 0 ==> final(gl)@.errors.last() != NO_ERROR || (final(gl)@.statuses.len() == old(gl)@.statuses.len()
            + 1 && final(gl)@.statuses.last() != FRAMEBUFFER_COMPLETE),
{
    if surface_w == 0 || surface_h == 0 || db.width == 0 || db.height == 0 {
        return false;
    }
    let read: u32 = gl.issue(GlCall::GetInteger { pname: READ_FRAMEBUFFER_BINDING });
    let draw: u32 = gl.issue(GlCall::GetInteger { pname: DRAW_FRAMEBUFFER_BINDING });
    gl.clear_errors();
    let scissor: bool = gl.issue(GlCall::IsEnabled { cap: SCISSOR_TEST }) != 0;
    if scissor {
        let _ = gl.issue(GlCall::Disable { cap: SCISSOR_TEST });
    }
    let succeeded: bool = reverse_copy(gl, db, surface_w, surface_h);
    if read == draw {
        let _ = gl.issue(GlCall::BindFramebuffer { target: FRAMEBUFFER, name: read });
    } else {
        let _ = gl.issue(GlCall::BindFramebuffer { target: READ_FRAMEBUFFER, name: read });
        let _ = gl.issue(GlCall::BindFramebuffer { target: DRAW_FRAMEBUFFER, name: draw });
    }
    if scissor {
        let _ = gl.issue(GlCall::Enable { cap: SCISSOR_TEST });
    }
    succeeded
}

/// Bind the surface and the buffer and copy, where nothing stands against it.
fn reverse_copy<F: Fn(GlCall) -> u32>(
    gl: &mut Gl<F>,
    db: &DrawingBuffer,
    surface_w: u32,
    surface_h: u32,
) -> (succeeded: bool)
    requires
        old(gl).ready(),
    ensures
        final(gl).ready(),
        final(gl).runner() == old(gl).runner(),
        final(gl)@ == (crate::gl_device::GlModel {
            bindings: crate::gl_device::Bindings {
                read_framebuffer: 0,
                draw_framebuffer: db.fbo,
                ..old(gl)@.bindings
            },
            blits: final(gl)@.blits,
            errors: final(gl)@.errors,
            statuses: final(gl)@.statuses,
            binds: final(gl)@.binds,
            refused: final(gl)@.refused,
            ..old(gl)@
        }),
        final(gl)@.errors.len() > 0,
        ({
            let record = crate::gl_device::BlitRecord {
                clipped: old(gl)@.bindings.scissor,
                ..reverse_blit(*db, surface_w, surface_h)
            };
            &&& final(gl)@.blits == old(gl)@.blits || final(gl)@.blits == old(gl)@.blits.push(
                record,
            )
            &&& succeeded ==> final(gl)@.blits == old(gl)@.blits.push(record) && final(gl)@.errors.last() == NO_ERROR && final(gl)@.statuses == old(gl)@.statuses.push(
                FRAMEBUFFER_COMPLETE,
            )
            &&& !succeeded ==> final(gl)@.errors.last() != NO_ERROR || (final(gl)@.statuses.len()
                == old(gl)@.statuses.len() + 1 && final(gl)@.statuses.last()
                != FRAMEBUFFER_COMPLETE)
        }),
{
    let _ = gl.issue(GlCall::BindFramebuffer { target: READ_FRAMEBUFFER, name: 0 });
    let _ = gl.issue(GlCall::BindFramebuffer { target: DRAW_FRAMEBUFFER, name: db.fbo });
    if gl.issue(GlCall::GetError) != NO_ERROR {
        return false;
    }
    if gl.issue(GlCall::CheckFramebufferStatus { target: DRAW_FRAMEBUFFER })
        != FRAMEBUFFER_COMPLETE {
        return false;
    }
    let filter: u32 = if db.width == surface_w && db.height == surface_h {
        NEAREST
    } else {
        LINEAR
    };
    let _ = gl.issue(
        GlCall::Blit {
            source: Corners { x0: 0, y0: 0, x1: surface_w as i32, y1: surface_h as i32 },
            target: Corners { x0: 0, y0: 0, x1: db.width as i32, y1: db.height as i32 },
            mask: COLOR_BUFFER_BIT,
            filter,
        },
    );
    gl.issue(GlCall::GetError) == NO_ERROR
}

/// A blit out of the buffer onto the surface.
pub open spec fn forward_blit(
    db: DrawingBuffer,
    source: Corners,
    target: Corners,
    filter: u32,
    clipped: bool,
) -> crate::gl_device::BlitRecord {
    crate::gl_device::BlitRecord {
        read_framebuffer: db.fbo,
        draw_framebuffer: 0,
        source,
        target,
        mask: COLOR_BUFFER_BIT,
        filter,
        clipped,
    }
}

/// A rectangle's corners.
pub open spec fn corners_of(r: crate::damage::Rect) -> Corners {
    Corners {
        x0: r.x as i32,
        y0: r.y as i32,
        x1: (r.x + r.width) as i32,
        y1: (r.y + r.height) as i32,
    }
}

/// The blits of a list of rectangles: each onto itself.
pub open spec fn rect_blits(
    db: DrawingBuffer,
    rects: Seq<crate::damage::Rect>,
    clipped: bool,
) -> Seq<crate::gl_device::BlitRecord> {
    Seq::new(
        rects.len(),
        |i: int| forward_blit(db, corners_of(rects[i]), corners_of(rects[i]), NEAREST, clipped),
    )
}

/// The blits that a plan asks for.
pub open spec fn plan_blits(
    db: DrawingBuffer,
    surface_w: u32,
    surface_h: u32,
    plan: BlitPlan,
    clipped: bool,
) -> Seq<crate::gl_device::BlitRecord> {
    match plan {
        BlitPlan::Full { linear } => seq![
            forward_blit(
                db,
                whole(db.width, db.height),
                whole(surface_w, surface_h),
                if linear {
                    LINEAR
                } else {
                    NEAREST
                },
                clipped,
            ),
        ],
        BlitPlan::Rects(rects) => rect_blits(db, rects@, clipped),
    }
}

/// Issue the blits of a plan, in order.
fn run_plan<F: Fn(GlCall) -> u32>(
    gl: &mut Gl<F>,
    db: &DrawingBuffer,
    surface_w: u32,
    surface_h: u32,
    plan: &BlitPlan,
)
    requires
        old(gl).ready(),
        plan matches BlitPlan::Rects(rects) ==> rects.wf(),
        old(gl)@.bindings.read_framebuffer == db.fbo,
        old(gl)@.bindings.draw_framebuffer == 0,
    ensures
        final(gl).ready(),
        final(gl).runner() == old(gl).runner(),
        final(gl)@ == (crate::gl_device::GlModel {
            blits: old(gl)@.blits + plan_blits(
                *db,
                surface_w,
                surface_h,
                *plan,
                old(gl)@.bindings.scissor,
            ),
            refused: final(gl)@.refused,
            ..old(gl)@
        }),
{
    match plan {
        BlitPlan::Full { linear } => {
            let filter: u32 = if *linear {
                LINEAR
            } else {
                NEAREST
            };
            let _ = gl.issue(
                GlCall::Blit {
                    source: Corners { x0: 0, y0: 0, x1: db.width as i32, y1: db.height as i32 },
                    target: Corners { x0: 0, y0: 0, x1: surface_w as i32, y1: surface_h as i32 },
                    mask: COLOR_BUFFER_BIT,
                    filter,
                },
            );
            assert(gl@.blits =~= old(gl)@.blits + plan_blits(
                *db,
                surface_w,
                surface_h,
                *plan,
                old(gl)@.bindings.scissor,
            ));
        },
        BlitPlan::Rects(rects) => {
            let clipped: Ghost<bool> = Ghost(old(gl)@.bindings.scissor);
            let mut i: usize = 0;
            assert(gl@.blits =~= old(gl)@.blits + rect_blits(*db, rects@.take(0), clipped@));
            while i < rects.len()
                invariant
                    i <= rects@.len(),
                    rects.wf(),
                    gl.ready(),
                    gl.runner() == old(gl).runner(),
                    clipped@ == old(gl)@.bindings.scissor,
                    old(gl)@.bindings.read_framebuffer == db.fbo,
                    old(gl)@.bindings.draw_framebuffer == 0,
                    gl@ == (crate::gl_device::GlModel {
                        blits: old(gl)@.blits + rect_blits(
                            *db,
                            rects@.take(i as int),
                            clipped@,
                        ),
                        refused: gl@.refused,
                        ..old(gl)@
                    }),
                decreases rects@.len() - i,
            {
                let r = rects.get(i);
                let (x, y, w, h) = r.xywh();
                let corners = Corners { x0: x, y0: y, x1: x + w, y1: y + h };
                let _ = gl.issue(
                    GlCall::Blit {
                        source: corners,
                        target: corners,
                        mask: COLOR_BUFFER_BIT,
                        filter: NEAREST,
                    },
                );
                assert(gl@.blits =~= old(gl)@.blits + rect_blits(
                    *db,
                    rects@.take(i + 1),
                    clipped@,
                ));
                i = i + 1;
            }
            assert(rects@.take(i as int) =~= rects@);
        },
    }
}

/// A framebuffer that was found complete, or was not asked about, holds what it held. One
/// that was not complete was given its own attachments before it was asked about again.
pub open spec fn put_together(
    before: crate::gl_device::GlModel,
    after: crate::gl_device::GlModel,
    db: DrawingBuffer,
) -> bool {
    let asked = before.statuses.len() as int;
    &&& asked <= after.statuses.len() <= asked + 2
    &&& after.statuses.len() > asked ==> (after.statuses[asked] == FRAMEBUFFER_COMPLETE) == (
    after.statuses.len() == asked + 1)
    &&& after.attached == (if after.statuses.len() == asked + 2 {
        attachments(before.attached, db)
    } else {
        before.attached
    })
}

/// A copy to the surface did not come about: the library raised an error, or the buffer's
/// framebuffer could not be put together.
pub open spec fn copy_failed(
    before: crate::gl_device::GlModel,
    after: crate::gl_device::GlModel,
) -> bool {
    ||| after.errors.len() > before.errors.len() && after.errors.last() != NO_ERROR
    ||| after.statuses.len() == before.statuses.len() + 2 && after.statuses.last()
        != FRAMEBUFFER_COMPLETE
}

/// Copy the buffer to the surface, as `plan` says.
///
/// The scissor test does not clip the copy. A framebuffer that the content has made
/// incomplete is put together again first. Afterwards the buffer is bound for reading and
/// the surface for drawing; where the copy could not be made at all, neither is bound.
pub fn blit_to_surface<F: Fn(GlCall) -> u32>(
    gl: &mut Gl<F>,
    db: &DrawingBuffer,
    surface_w: u32,
    surface_h: u32,
    plan: &BlitPlan,
) -> (succeeded: bool)
    requires
        old(gl).ready(),
        plan matches BlitPlan::Rects(rects) ==> rects.wf(),
    ensures
        final(gl).ready(),
        final(gl).runner() == old(gl).runner(),
        final(gl)@.textures == old(gl)@.textures && final(gl)@.framebuffers == old(gl)@.framebuffers && final(gl)@.renderbuffers == old(gl)@.renderbuffers,
        ({
            let copied = old(gl)@.blits + plan_blits(*db, surface_w, surface_h, *plan, false);
            let before = old(gl)@.bindings;
            &&& put_together(old(gl)@, final(gl)@, *db)
            &&& final(gl)@.offered == old(gl)@.offered
            &&& final(gl)@.storage == old(gl)@.storage
            &&& final(gl)@.renderbuffer_storage == old(gl)@.renderbuffer_storage
            &&& succeeded ==> (final(gl)@.truthful ==> final(gl)@.blits == copied) && final(gl)@.errors.last() == NO_ERROR && final(gl)@.statuses.last() == FRAMEBUFFER_COMPLETE
            &&& !succeeded ==> copy_failed(old(gl)@, final(gl)@)
            &&& final(gl)@.truthful ==> {
                ||| final(gl)@.blits == copied && final(gl)@.bindings == (
                crate::gl_device::Bindings {
                    read_framebuffer: db.fbo,
                    draw_framebuffer: 0,
                    ..before
                })
                ||| !succeeded && final(gl)@.blits == old(gl)@.blits && final(gl)@.bindings == (
                crate::gl_device::Bindings { read_framebuffer: 0, draw_framebuffer: 0, ..before })
            }
        }),
{
    gl.clear_errors();
    let scissor: bool = gl.issue(GlCall::IsEnabled { cap: SCISSOR_TEST }) != 0;
    if scissor {
        let _ = gl.issue(GlCall::Disable { cap: SCISSOR_TEST });
    }
    let succeeded: bool = if bind_for_copy(gl, db) {
        run_plan(gl, db, surface_w, surface_h, plan);
        gl.issue(GlCall::GetError) == NO_ERROR
    } else {
        let _ = gl.issue(GlCall::BindFramebuffer { target: FRAMEBUFFER, name: 0 });
        false
    };
    if scissor {
        let _ = gl.issue(GlCall::Enable { cap: SCISSOR_TEST });
    }
    succeeded
}

/// Bind the buffer for reading and the surface for drawing. An incomplete framebuffer is
/// put together again, once.
fn bind_for_copy<F: Fn(GlCall) -> u32>(gl: &mut Gl<F>, db: &DrawingBuffer) -> (bound: bool)
    requires
        old(gl).ready(),
    ensures
        final(gl).ready(),
        final(gl).runner() == old(gl).runner(),
        final(gl)@ == (crate::gl_device::GlModel {
            bindings: crate::gl_device::Bindings {
                read_framebuffer: final(gl)@.bindings.read_framebuffer,
                draw_framebuffer: final(gl)@.bindings.draw_framebuffer,
                ..old(gl)@.bindings
            },
            errors: final(gl)@.errors,
            statuses: final(gl)@.statuses,
            attached: final(gl)@.attached,
            binds: final(gl)@.binds,
            ..old(gl)@
        }),
        put_together(old(gl)@, final(gl)@, *db),
        final(gl)@.offered == old(gl)@.offered,
        final(gl)@.errors.len() > old(gl)@.errors.len(),
        bound ==> final(gl)@.bindings.read_framebuffer == db.fbo && final(gl)@.bindings.draw_framebuffer == 0 && final(gl)@.errors == old(gl)@.errors.push(NO_ERROR)
            && final(gl)@.statuses.len() > old(gl)@.statuses.len() && final(gl)@.statuses.last()
            == FRAMEBUFFER_COMPLETE,
        !bound ==> (final(gl)@.errors.len() > 0 && final(gl)@.errors.last() != NO_ERROR) || (final(gl)@.statuses.len() == old(gl)@.statuses.len() + 2 && final(gl)@.statuses.last()
            != FRAMEBUFFER_COMPLETE),
{
    let _ = gl.issue(GlCall::BindFramebuffer { target: READ_FRAMEBUFFER, name: db.fbo });
    let _ = gl.issue(GlCall::BindFramebuffer { target: DRAW_FRAMEBUFFER, name: 0 });
    if gl.issue(GlCall::GetError) != NO_ERROR {
        return false;
    }
    let status: u32 = gl.issue(GlCall::CheckFramebufferStatus { target: READ_FRAMEBUFFER });
    if status == FRAMEBUFFER_COMPLETE {
        return true;
    }
    let _ = gl.issue(GlCall::BindFramebuffer { target: FRAMEBUFFER, name: db.fbo });
    let _ = gl.issue(
        GlCall::FramebufferTexture {
            target: FRAMEBUFFER,
            attachment: COLOR_ATTACHMENT0,
            name: db.color_tex,
        },
    );
    let _ = gl.issue(
        GlCall::FramebufferRenderbuffer {
            target: FRAMEBUFFER,
            attachment: DEPTH_STENCIL_ATTACHMENT,
            name: db.depth_stencil_rb,
        },
    );
    let healed: u32 = gl.issue(GlCall::CheckFramebufferStatus { target: FRAMEBUFFER });
    if healed != FRAMEBUFFER_COMPLETE {
        return false;
    }
    let _ = gl.issue(GlCall::BindFramebuffer { target: READ_FRAMEBUFFER, name: db.fbo });
    let _ = gl.issue(GlCall::BindFramebuffer { target: DRAW_FRAMEBUFFER, name: 0 });
    true
}

/// A buffer of the surface's size is copied to the surface and back texel for texel:
/// neither blit is scaled, clipped, or carries anything but colour.
pub proof fn law_matching_sizes_copy_texel_for_texel(db: DrawingBuffer)
    ensures
        ({
            let there = plan_blits(db, db.width, db.height, BlitPlan::Full { linear: false }, false);
            let back = reverse_blit(db, db.width, db.height);
            &&& there.len() == 1
            &&& there[0].source == there[0].target && there[0].filter == NEAREST
            &&& back.source == back.target && back.filter == NEAREST
            &&& there[0].read_framebuffer == back.draw_framebuffer
            &&& there[0].draw_framebuffer == back.read_framebuffer
            &&& !there[0].clipped && !back.clipped
            &&& there[0].mask == COLOR_BUFFER_BIT && back.mask == COLOR_BUFFER_BIT
        }),
{
}

/// A partial copy touches exactly the pixels of the plan's rectangles, each at its own
/// place.
pub proof fn law_partial_copies_stay_in_place(
    db: DrawingBuffer,
    rects: Seq<crate::damage::Rect>,
    clipped: bool,
)
    ensures
        rect_blits(db, rects, clipped).len() == rects.len(),
        forall|i: int|
            0 <= i < rects.len() ==> {
                let blit = #[trigger] rect_blits(db, rects, clipped)[i];
                blit.source == blit.target && blit.source == corners_of(rects[i]) && blit.filter
                    == NEAREST
            },
{
}

/// A full copy takes the whole buffer to the whole surface, whatever their sizes: it reads
/// every pixel of the buffer and writes every pixel of the surface, out of the buffer's
/// framebuffer into the window's, and carries colour alone. It is filtered where it is to be
/// scaled.
pub proof fn law_a_full_copy_fills_the_surface(
    db: DrawingBuffer,
    surface_w: u32,
    surface_h: u32,
    linear: bool,
    clipped: bool,
    px: int,
    py: int,
)
    requires
        db.width <= i32::MAX,
        db.height <= i32::MAX,
        surface_w <= i32::MAX,
        surface_h <= i32::MAX,
    ensures
        ({
            let blits = plan_blits(db, surface_w, surface_h, BlitPlan::Full { linear }, clipped);
            let blit = blits[0];
            &&& blits.len() == 1
            &&& blit.read_framebuffer == db.fbo && blit.draw_framebuffer == 0
            &&& blit.source.x0 == 0 && blit.source.y0 == 0
            &&& blit.source.x1 == db.width && blit.source.y1 == db.height
            &&& blit.target.x0 == 0 && blit.target.y0 == 0
            &&& blit.target.x1 == surface_w && blit.target.y1 == surface_h
            &&& 0 <= px < surface_w && 0 <= py < surface_h ==> blit.target.x0 <= px
                < blit.target.x1 && blit.target.y0 <= py < blit.target.y1
            &&& 0 <= px < db.width && 0 <= py < db.height ==> blit.source.x0 <= px < blit.source.x1
                && blit.source.y0 <= py < blit.source.y1
            &&& blit.mask == 0x4000
            &&& blit.filter == if linear { 0x2601u32 } else { 0x2600u32 }
            &&& blit.clipped == clipped
        }),
{
}

/// The copy back takes the whole surface to the whole buffer, and is filtered exactly where
/// the two differ in size.
pub proof fn law_a_copy_back_takes_the_whole_surface(
    db: DrawingBuffer,
    surface_w: u32,
    surface_h: u32,
)
    requires
        db.width <= i32::MAX,
        db.height <= i32::MAX,
        surface_w <= i32::MAX,
        surface_h <= i32::MAX,
    ensures
        ({
            let blit = reverse_blit(db, surface_w, surface_h);
            &&& blit.read_framebuffer == 0 && blit.draw_framebuffer == db.fbo
            &&& blit.source.x0 == 0 && blit.source.y0 == 0
            &&& blit.source.x1 == surface_w && blit.source.y1 == surface_h
            &&& blit.target.x0 == 0 && blit.target.y0 == 0
            &&& blit.target.x1 == db.width && blit.target.y1 == db.height
            &&& blit.mask == 0x4000 && !blit.clipped
            &&& (blit.filter == 0x2600) == (db.width == surface_w && db.height == surface_h)
            &&& blit.filter == 0x2600 || blit.filter == 0x2601
        }),
{
}

/// A partial copy has one blit for each of its rectangles, which takes each pixel of that
/// rectangle, and no other, from the buffer to its own place on the window.
pub proof fn law_a_partial_copy_takes_its_rectangles(
    db: DrawingBuffer,
    surface_w: u32,
    surface_h: u32,
    plan: BlitPlan,
    clipped: bool,
    i: int,
    px: int,
    py: int,
)
    requires
        plan is Rects,
        0 <= i < (plan->Rects_0)@.len(),
        ({
            let r = (plan->Rects_0)@[i];
            &&& i32::MIN <= r.x && r.x + r.width <= i32::MAX && r.width > 0
            &&& i32::MIN <= r.y && r.y + r.height <= i32::MAX && r.height > 0
        }),
    ensures
        ({
            let blits = plan_blits(db, surface_w, surface_h, plan, clipped);
            let blit = blits[i];
            let r = (plan->Rects_0)@[i];
            &&& blits.len() == (plan->Rects_0)@.len()
            &&& blit.read_framebuffer == db.fbo && blit.draw_framebuffer == 0
            &&& (blit.source.x0 <= px < blit.source.x1 && blit.source.y0 <= py < blit.source.y1)
                == (r.x <= px < r.x + r.width && r.y <= py < r.y + r.height)
            &&& blit.target == blit.source
            &&& blit.mask == 0x4000 && blit.filter == 0x2600 && blit.clipped == clipped
        }),
{
}

/// A buffer that is put together has colour storage and depth and stencil storage of its own
/// size, each attached to its framebuffer at its own point.
pub proof fn law_an_assembled_buffer_is_whole(m: crate::gl_device::GlModel, db: DrawingBuffer)
    requires
        assembled(m, db),
        db.width <= i32::MAX,
        db.height <= i32::MAX,
    ensures
        m.storage[db.color_tex].0 == 0x1908,
        m.storage[db.color_tex].1 == db.width,
        m.storage[db.color_tex].2 == db.height,
        m.renderbuffer_storage[db.depth_stencil_rb].0 == 0x88F0,
        m.renderbuffer_storage[db.depth_stencil_rb].1 == db.width,
        m.renderbuffer_storage[db.depth_stencil_rb].2 == db.height,
        m.attached[(db.fbo, 0x8CE0u32)] == crate::gl_device::Attached::Texture(db.color_tex),
        m.attached[(db.fbo, 0x821Au32)] == crate::gl_device::Attached::Renderbuffer(
            db.depth_stencil_rb,
        ),
{
}

/// Presenting a buffer whole copies all of it onto all of the surface, in one blit that no
/// scissor clips, whatever the two sizes are.
pub proof fn law_a_buffer_presented_whole_fills_the_surface<F: Fn(GlCall) -> u32>(
    db: DrawingBuffer,
    surface_w: u32,
    surface_h: u32,
    linear: bool,
)
    requires
        db.width <= i32::MAX,
        db.height <= i32::MAX,
        surface_w <= i32::MAX,
        surface_h <= i32::MAX,
    ensures
        forall|gl: &mut Gl<F>|
            #[trigger] call_ensures(
                blit_to_surface::<F>,
                (gl, &db, surface_w, surface_h, &(BlitPlan::Full { linear })),
                true,
            ) && (*final(gl))@.truthful ==> {
                let before = (*gl)@.blits;
                let after = (*final(gl))@.blits;
                &&& after.len() == before.len() + 1
                &&& after.last().read_framebuffer == db.fbo
                &&& after.last().draw_framebuffer == 0
                &&& after.last().source == (Corners {
                    x0: 0,
                    y0: 0,
                    x1: db.width as i32,
                    y1: db.height as i32,
                })
                &&& after.last().target == (Corners {
                    x0: 0,
                    y0: 0,
                    x1: surface_w as i32,
                    y1: surface_h as i32,
                })
                &&& after.last().filter == if linear { 0x2601u32 } else { 0x2600u32 }
                &&& !after.last().clipped
            },
{
    assert forall|gl: &mut Gl<F>|
        #[trigger] call_ensures(
            blit_to_surface::<F>,
            (gl, &db, surface_w, surface_h, &(BlitPlan::Full { linear })),
            true,
        ) && (*final(gl))@.truthful implies {
        let before = (*gl)@.blits;
        let after = (*final(gl))@.blits;
        &&& after.len() == before.len() + 1
        &&& after.last() == plan_blits(
            db,
            surface_w,
            surface_h,
            BlitPlan::Full { linear },
            false,
        )[0]
    } by {
        law_a_full_copy_fills_the_surface(db, surface_w, surface_h, linear, false, 0, 0);
    }
    law_a_full_copy_fills_the_surface(db, surface_w, surface_h, linear, false, 0, 0);
}

/// A buffer that is made has the size asked for, of colour, depth and stencil storage alike,
/// each attached to its framebuffer; it is sampled without filtering.
pub proof fn law_a_made_buffer_has_its_size<F: Fn(GlCall) -> u32>(
    width: u32,
    height: u32,
    db: DrawingBuffer,
)
    requires
        width <= i32::MAX,
        height <= i32::MAX,
    ensures
        forall|gl: &mut Gl<F>|
            #[trigger] call_ensures(
                create::<F>,
                (gl, width, height),
                Ok::<DrawingBuffer, DrawingBufferError>(db),
            ) ==> {
                let after = (*final(gl))@;
                &&& db.width == width && db.height == height
                &&& after.storage[db.color_tex].0 == 0x1908
                &&& after.storage[db.color_tex].1 == width
                &&& after.storage[db.color_tex].2 == height
                &&& after.renderbuffer_storage[db.depth_stencil_rb].0 == 0x88F0
                &&& after.renderbuffer_storage[db.depth_stencil_rb].1 == width
                &&& after.renderbuffer_storage[db.depth_stencil_rb].2 == height
                &&& after.attached[(db.fbo, 0x8CE0u32)] == crate::gl_device::Attached::Texture(
                    db.color_tex,
                )
                &&& after.attached[(db.fbo, 0x821Au32)]
                    == crate::gl_device::Attached::Renderbuffer(db.depth_stencil_rb)
                &&& after.truthful ==> after.bindings.draw_framebuffer == db.fbo
                    && after.bindings.read_framebuffer == db.fbo
                &&& after.sampling[(db.color_tex, 0x2801u32)] == 0x2600
                &&& after.sampling[(db.color_tex, 0x2800u32)] == 0x2600
                &&& after.sampling[(db.color_tex, 0x2802u32)] == 0x812F
                &&& after.sampling[(db.color_tex, 0x2803u32)] == 0x812F
            },
{
}

/// A buffer that is resized has the new size and its own objects still; where it cannot be it
/// keeps the size on record, and where it has the size nothing is done.
pub proof fn law_a_resized_buffer_keeps_its_objects<F: Fn(GlCall) -> u32>(
    width: u32,
    height: u32,
    result: Result<(), DrawingBufferError>,
)
    requires
        width <= i32::MAX,
        height <= i32::MAX,
    ensures
        forall|gl: &mut Gl<F>, db: &mut DrawingBuffer|
            #[trigger] call_ensures(resize::<F>, (gl, db, width, height), result) ==> {
                let before = *db;
                let after = *final(db);
                &&& after.fbo == before.fbo && after.color_tex == before.color_tex
                    && after.depth_stencil_rb == before.depth_stencil_rb
                &&& result is Ok ==> after.width == width && after.height == height
                &&& result is Err ==> after == before
                &&& before.width == width && before.height == height ==> result is Ok && {
                    (*final(gl))@ == (*gl)@
                }
                &&& result is Ok && (before.width != width || before.height != height) ==> {
                    &&& (*final(gl))@.storage[before.color_tex].1 == width
                    &&& (*final(gl))@.storage[before.color_tex].2 == height
                    &&& (*final(gl))@.renderbuffer_storage[before.depth_stencil_rb].1 == width
                    &&& (*final(gl))@.renderbuffer_storage[before.depth_stencil_rb].2 == height
                }
            },
{
}

/// The blit that tries a buffer out reads one pixel of it onto the same pixel of the window.
pub proof fn law_what_a_trial_copies(fbo: u32, clipped: bool)
    ensures
        trial(fbo, clipped).read_framebuffer == fbo,
        trial(fbo, clipped).draw_framebuffer == 0,
        trial(fbo, clipped).source == trial(fbo, clipped).target,
        trial(fbo, clipped).source == (Corners { x0: 0, y0: 0, x1: 1, y1: 1 }),
        trial(fbo, clipped).mask == 0x4000,
{
}

} // verus!
