//! The calls that the engine itself makes on the graphics library, and what they do to
//! the state that it shares with the content it hosts.
use vstd::prelude::*;

use crate::gl::{
    ACTIVE_TEXTURE, DRAW_FRAMEBUFFER, DRAW_FRAMEBUFFER_BINDING, FRAMEBUFFER, PIXEL_PACK_BUFFER,
    PIXEL_PACK_BUFFER_BINDING, PIXEL_UNPACK_BUFFER, PIXEL_UNPACK_BUFFER_BINDING, READ_FRAMEBUFFER,
    READ_FRAMEBUFFER_BINDING, RENDERBUFFER_BINDING, RGBA, SCISSOR_TEST, TEXTURE_2D,
    TEXTURE_BINDING_2D, UNPACK_ALIGNMENT,
};

verus! {

/// The corners of one side of a blit.
#[derive(Clone, Copy, Debug, PartialEq, Eq, Structural)]
pub struct Corners {
    pub x0: i32,
    pub y0: i32,
    pub x1: i32,
    pub y1: i32,
}

/// Where a copy lands in the texture that is bound to `target`.
#[derive(Clone, Copy, Debug, PartialEq, Eq, Structural)]
pub enum TextureDestination {
    /// It becomes a level of the texture.
    Image { target: u32, level: i32, internal_format: u32 },
    /// It is written into a level that exists.
    SubImage { target: u32, level: i32, xoffset: i32, yoffset: i32 },
}

/// A copy of a rectangle of a texture, which is read through a framebuffer.
#[derive(Clone, Copy, Debug, PartialEq, Eq, Structural)]
pub struct TextureCopy {
    pub framebuffer: u32,
    pub source: u32,
    pub source_x: i32,
    pub source_y: i32,
    pub width: i32,
    pub height: i32,
    pub destination: TextureDestination,
}

/// A kind of object, besides framebuffers, that the contexts of a group do not share.
#[derive(Clone, Copy, Debug, PartialEq, Eq, Structural)]
pub enum Container {
    VertexArray,
    Query,
    TransformFeedback,
}

/// A kind of object that holds a shader program, or a part of one.
#[derive(Clone, Copy, Debug, PartialEq, Eq, Structural)]
pub enum Code {
    Program,
    Shader,
}

/// How the pixels of the image at hand reach the bound texture.
#[derive(Clone, Copy, Debug, PartialEq, Eq, Structural)]
pub enum Transfer {
    /// They make a level anew.
    Image,
    /// They fill a level that exists.
    SubImage,
}

/// One call. Objects go by their name; zero is no object, and the reply to a creation
/// is zero where there is none.
#[derive(Clone, Copy, Debug, PartialEq, Eq, Structural)]
pub enum GlCall {
    Enable { cap: u32 },
    Disable { cap: u32 },
    /// Whether a capability is enabled.
    IsEnabled { cap: u32 },
    /// A parameter's value.
    GetInteger { pname: u32 },
    /// The oldest error that is pending.
    GetError,
    CreateTexture,
    CreateFramebuffer,
    CreateRenderbuffer,
    DeleteTexture { name: u32 },
    DeleteFramebuffer { name: u32 },
    DeleteRenderbuffer { name: u32 },
    ActiveTexture { unit: u32 },
    BindTexture { target: u32, name: u32 },
    BindFramebuffer { target: u32, name: u32 },
    BindRenderbuffer { name: u32 },
    TexParameter { target: u32, pname: u32, value: u32 },
    /// Storage for the bound texture, without contents.
    TexImage2D { target: u32, internal_format: u32, width: i32, height: i32 },
    RenderbufferStorage { format: u32, width: i32, height: i32 },
    FramebufferTexture { target: u32, attachment: u32, name: u32 },
    FramebufferRenderbuffer { target: u32, attachment: u32, name: u32 },
    CheckFramebufferStatus { target: u32 },
    /// Copy a rectangle between framebuffers. The reply is zero where the entry point
    /// exists.
    Blit { source: Corners, target: Corners, mask: u32, filter: u32 },
    CreateBuffer,
    DeleteBuffer { name: u32 },
    /// Delete an object that only the context that is current has.
    DeleteContainer { container: Container, name: u32 },
    /// Delete a program or a shader.
    DeleteCode { code: Code, name: u32 },
    /// Fill the bound unpack buffer with the bytes of the image at hand.
    FillUnpackBuffer { bytes: usize },
    /// Storage for one level of the bound texture, in a layout that stays.
    TexStorage2D { internal_format: u32, width: i32, height: i32 },
    /// Put pixels into the bound texture: those in the bound unpack buffer, if one is
    /// bound, else those of the image at hand.
    TransferPixels { how: Transfer, width: i32, height: i32 },
    /// Copy a texture into the one that is bound. The reply is the status of the framebuffer
    /// that it is read through; the bindings that the copy needs are put back.
    CopyTexture { copy: TextureCopy },
    /// A fence behind everything submitted so far.
    FenceSync,
    /// Wait for a fence, with the commands before it flushed.
    ClientWaitSync { fence: u32, timeout: i32 },
    DeleteSync { fence: u32 },
    /// Set the pixel-store state aside for an allocation of the engine's own.
    CompactUnpack { alignment: u32 },
    /// Take the pixel-store state back.
    RestoreUnpack,
    Viewport { width: i32, height: i32 },
    BindBuffer { target: u32, name: u32 },
    /// Set a pixel-store parameter.
    PixelStore { pname: u32, value: u32 },
    /// Clear the colour of what is bound, to try whether anything can be drawn.
    ClearProbe,
    /// The status of the context after a reset: zero where there was none.
    GraphicsResetStatus,
    /// Hand the frame that is on the window's back buffer to whoever has asked for one. Where
    /// nobody has, nothing is done.
    CaptureFrame { width: u32, height: u32 },
}

/// The bindings that content and engine share.
#[verifier::ext_equal]
pub struct Bindings {
    pub scissor: bool,
    pub active_texture: u32,
    /// The texture that is bound on each unit that has been asked about.
    pub textures: Map<u32, u32>,
    pub renderbuffer: u32,
    pub read_framebuffer: u32,
    pub draw_framebuffer: u32,
    /// The engine has set the pixel-store state aside.
    pub compact_unpack: bool,
    pub unpack_buffer: u32,
    pub pack_buffer: u32,
    /// The pixel-store parameters that have been asked about.
    pub pixel_store: Map<u32, u32>,
}

/// A blit, with what it read from, what it wrote to and whether a scissor box clipped it.
pub struct BlitRecord {
    pub read_framebuffer: u32,
    pub draw_framebuffer: u32,
    pub source: Corners,
    pub target: Corners,
    pub mask: u32,
    pub filter: u32,
    pub clipped: bool,
}

/// Pixels that were put into a texture: from a buffer, or from memory where that is zero.
pub struct TransferRecord {
    pub texture: u32,
    pub how: Transfer,
    pub width: i32,
    pub height: i32,
    pub buffer: u32,
    pub alignment: u32,
}

/// What is attached to a framebuffer; the name is zero where nothing is.
pub enum Attached {
    Texture(u32),
    Renderbuffer(u32),
}

/// How far the calls on the library had come when something else happened.
pub struct Moment {
    pub blits: nat,
    pub fences: nat,
    pub offered: nat,
}

/// How far the calls on the library have come.
pub open spec fn moment(m: GlModel) -> Moment {
    Moment { blits: m.blits.len(), fences: m.fenced.len(), offered: m.offered.len() }
}

/// What the calls so far have come to.
#[verifier::ext_equal]
pub struct GlModel {
    pub bindings: Bindings,
    /// Objects that were created and not deleted.
    pub textures: Set<u32>,
    pub framebuffers: Set<u32>,
    pub renderbuffers: Set<u32>,
    pub fences: Set<u32>,
    /// The framebuffers that were bound, in order, each with the target it was bound to.
    pub binds: Seq<(u32, u32)>,
    /// The creations that the library answered with no name, and the blits that it has no
    /// entry point for.
    pub refused: Seq<GlCall>,
    /// The fences that were asked for, zero where there was none to give, each with the number
    /// of blits before it.
    pub fenced: Seq<(u32, nat)>,
    /// The waits for fences that may have blocked, with the time allowed, the answer and the
    /// number of blits before it.
    pub waits: Seq<(u32, i32, u32, nat)>,
    /// The sizes of the viewports that were set, in order.
    pub viewports: Seq<(i32, i32)>,
    /// The clears by which contexts were tried, each with the number of error queries and of
    /// queries about a reset before it.
    pub probes: Seq<(nat, nat)>,
    /// The frames that were handed to whoever asks for them, by their size, each with the
    /// number of blits before it.
    pub offered: Seq<(u32, u32, nat)>,
    pub blits: Seq<BlitRecord>,
    pub copies: Seq<TextureCopy>,
    pub buffers: Set<u32>,
    /// The bytes that were last put into each buffer.
    pub filled: Map<u32, nat>,
    pub transfers: Seq<TransferRecord>,
    /// The containers that were deleted, in order.
    pub containers_gone: Seq<(Container, u32)>,
    /// The programs and shaders that were deleted, in order.
    pub code_gone: Seq<(Code, u32)>,
    /// The answers to error queries and to completeness checks, in order.
    pub errors: Seq<u32>,
    pub statuses: Seq<u32>,
    /// The answers to queries about a reset, in order.
    pub resets: Seq<u32>,
    /// The parameters of each texture, by which it is sampled, as last given.
    pub sampling: Map<(u32, u32), u32>,
    /// Format and size of each texture, as last given.
    pub storage: Map<u32, (u32, i32, i32)>,
    /// Format and size of each renderbuffer, as last given.
    pub renderbuffer_storage: Map<u32, (u32, i32, i32)>,
    /// What was last attached to each framebuffer, at each of its attachment points.
    pub attached: Map<(u32, u32), Attached>,
    /// Every query about a binding was answered by what the calls had made of it.
    pub truthful: bool,
}

/// A binding as a query reports it.
pub open spec fn reported(b: Bindings, pname: u32) -> Option<u32> {
    if pname == ACTIVE_TEXTURE {
        Some(b.active_texture)
    } else if pname == TEXTURE_BINDING_2D {
        if b.textures.dom().contains(b.active_texture) {
            Some(b.textures[b.active_texture])
        } else {
            None
        }
    } else if pname == READ_FRAMEBUFFER_BINDING {
        Some(b.read_framebuffer)
    } else if pname == DRAW_FRAMEBUFFER_BINDING {
        Some(b.draw_framebuffer)
    } else if pname == RENDERBUFFER_BINDING {
        Some(b.renderbuffer)
    } else if pname == PIXEL_UNPACK_BUFFER_BINDING {
        Some(b.unpack_buffer)
    } else if pname == PIXEL_PACK_BUFFER_BINDING {
        Some(b.pack_buffer)
    } else if b.pixel_store.dom().contains(pname) {
        Some(b.pixel_store[pname])
    } else {
        None
    }
}

/// The framebuffer that is bound to a target.
pub open spec fn framebuffer_at(b: Bindings, target: u32) -> u32 {
    if target == READ_FRAMEBUFFER {
        b.read_framebuffer
    } else {
        b.draw_framebuffer
    }
}

/// The account with one more object that the library did not make.
pub open spec fn unmade(m: GlModel, call: GlCall) -> GlModel {
    GlModel { refused: m.refused.push(call), ..m }
}

/// What the state is after a call that was answered `reply`.
pub open spec fn after_call(m: GlModel, call: GlCall, reply: u32) -> GlModel {
    match call {
        GlCall::Enable { cap } => if cap == SCISSOR_TEST {
            GlModel { bindings: Bindings { scissor: true, ..m.bindings }, ..m }
        } else {
            m
        },
        GlCall::Disable { cap } => if cap == SCISSOR_TEST {
            GlModel { bindings: Bindings { scissor: false, ..m.bindings }, ..m }
        } else {
            m
        },
        GlCall::IsEnabled { cap } => GlModel {
            truthful: m.truthful && (cap == SCISSOR_TEST ==> (reply != 0) == m.bindings.scissor),
            ..m
        },
        GlCall::GetInteger { pname } => GlModel {
            truthful: m.truthful && reported(m.bindings, pname) == Some(reply),
            ..m
        },
        GlCall::GetError => GlModel { errors: m.errors.push(reply), ..m },
        GlCall::GraphicsResetStatus => GlModel { resets: m.resets.push(reply), ..m },
        GlCall::CreateTexture => if reply != 0 {
            GlModel { textures: m.textures.insert(reply), ..m }
        } else {
            unmade(m, call)
        },
        GlCall::CreateFramebuffer => if reply != 0 {
            GlModel { framebuffers: m.framebuffers.insert(reply), ..m }
        } else {
            unmade(m, call)
        },
        GlCall::CreateRenderbuffer => if reply != 0 {
            GlModel { renderbuffers: m.renderbuffers.insert(reply), ..m }
        } else {
            unmade(m, call)
        },
        GlCall::DeleteTexture { name } => GlModel { textures: m.textures.remove(name), ..m },
        GlCall::DeleteFramebuffer { name } => GlModel {
            framebuffers: m.framebuffers.remove(name),
            ..m
        },
        GlCall::DeleteRenderbuffer { name } => GlModel {
            renderbuffers: m.renderbuffers.remove(name),
            ..m
        },
        GlCall::ActiveTexture { unit } => GlModel {
            bindings: Bindings { active_texture: unit, ..m.bindings },
            ..m
        },
        GlCall::BindTexture { target, name } => if target == TEXTURE_2D {
            GlModel {
                bindings: Bindings {
                    textures: m.bindings.textures.insert(m.bindings.active_texture, name),
                    ..m.bindings
                },
                ..m
            }
        } else {
            m
        },
        GlCall::BindFramebuffer { target, name } => GlModel {
            bindings: Bindings {
                read_framebuffer: if target == READ_FRAMEBUFFER || target == FRAMEBUFFER {
                    name
                } else {
                    m.bindings.read_framebuffer
                },
                draw_framebuffer: if target == DRAW_FRAMEBUFFER || target == FRAMEBUFFER {
                    name
                } else {
                    m.bindings.draw_framebuffer
                },
                ..m.bindings
            },
            binds: m.binds.push((target, name)),
            ..m
        },
        GlCall::BindRenderbuffer { name } => GlModel {
            bindings: Bindings { renderbuffer: name, ..m.bindings },
            ..m
        },
        GlCall::TexImage2D { target, internal_format, width, height } => if target == TEXTURE_2D
            && m.bindings.textures.dom().contains(m.bindings.active_texture) {
            GlModel {
                storage: m.storage.insert(
                    m.bindings.textures[m.bindings.active_texture],
                    (internal_format, width, height),
                ),
                ..m
            }
        } else {
            m
        },
        GlCall::CheckFramebufferStatus { target } => GlModel {
            statuses: m.statuses.push(reply),
            ..m
        },
        GlCall::Blit { source, target, mask, filter } => GlModel {
            blits: m.blits.push(
                BlitRecord {
                    read_framebuffer: m.bindings.read_framebuffer,
                    draw_framebuffer: m.bindings.draw_framebuffer,
                    source,
                    target,
                    mask,
                    filter,
                    clipped: m.bindings.scissor,
                },
            ),
            refused: if reply != 0 {
                m.refused.push(call)
            } else {
                m.refused
            },
            ..m
        },
        GlCall::CreateBuffer => if reply != 0 {
            GlModel { buffers: m.buffers.insert(reply), ..m }
        } else {
            unmade(m, call)
        },
        GlCall::DeleteBuffer { name } => GlModel { buffers: m.buffers.remove(name), ..m },
        GlCall::DeleteContainer { container, name } => GlModel {
            containers_gone: m.containers_gone.push((container, name)),
            ..m
        },
        GlCall::DeleteCode { code, name } => GlModel {
            code_gone: m.code_gone.push((code, name)),
            ..m
        },
        GlCall::FillUnpackBuffer { bytes } => GlModel {
            filled: m.filled.insert(m.bindings.unpack_buffer, bytes as nat),
            ..m
        },
        GlCall::TexStorage2D { internal_format, width, height } => GlModel {
            storage: m.storage.insert(
                m.bindings.textures[m.bindings.active_texture],
                (internal_format, width, height),
            ),
            ..m
        },
        GlCall::TransferPixels { how, width, height } => GlModel {
            transfers: m.transfers.push(
                TransferRecord {
                    texture: m.bindings.textures[m.bindings.active_texture],
                    how,
                    width,
                    height,
                    buffer: m.bindings.unpack_buffer,
                    alignment: m.bindings.pixel_store[UNPACK_ALIGNMENT],
                },
            ),
            storage: if how is Image {
                m.storage.insert(
                    m.bindings.textures[m.bindings.active_texture],
                    (RGBA, width, height),
                )
            } else {
                m.storage
            },
            ..m
        },
        GlCall::CopyTexture { copy } => GlModel { copies: m.copies.push(copy), ..m },
        GlCall::FenceSync => GlModel {
            fences: if reply != 0 {
                m.fences.insert(reply)
            } else {
                m.fences
            },
            fenced: m.fenced.push((reply, m.blits.len())),
            ..m
        },
        GlCall::DeleteSync { fence } => GlModel { fences: m.fences.remove(fence), ..m },
        GlCall::CompactUnpack { alignment } => GlModel {
            bindings: Bindings { compact_unpack: true, ..m.bindings },
            ..m
        },
        GlCall::RestoreUnpack => GlModel {
            bindings: Bindings { compact_unpack: false, ..m.bindings },
            ..m
        },
        GlCall::BindBuffer { target, name } => if target == PIXEL_UNPACK_BUFFER {
            GlModel { bindings: Bindings { unpack_buffer: name, ..m.bindings }, ..m }
        } else if target == PIXEL_PACK_BUFFER {
            GlModel { bindings: Bindings { pack_buffer: name, ..m.bindings }, ..m }
        } else {
            m
        },
        GlCall::PixelStore { pname, value } => GlModel {
            bindings: Bindings {
                pixel_store: m.bindings.pixel_store.insert(pname, value),
                ..m.bindings
            },
            ..m
        },
        GlCall::TexParameter { target, pname, value } => if target == TEXTURE_2D
            && m.bindings.textures.dom().contains(m.bindings.active_texture) {
            let texture = m.bindings.textures[m.bindings.active_texture];
            GlModel { sampling: m.sampling.insert((texture, pname), value), ..m }
        } else {
            m
        },
        GlCall::RenderbufferStorage { format, width, height } => GlModel {
            renderbuffer_storage: m.renderbuffer_storage.insert(
                m.bindings.renderbuffer,
                (format, width, height),
            ),
            ..m
        },
        GlCall::FramebufferTexture { target, attachment, name } => GlModel {
            attached: m.attached.insert(
                (framebuffer_at(m.bindings, target), attachment),
                Attached::Texture(name),
            ),
            ..m
        },
        GlCall::FramebufferRenderbuffer { target, attachment, name } => GlModel {
            attached: m.attached.insert(
                (framebuffer_at(m.bindings, target), attachment),
                Attached::Renderbuffer(name),
            ),
            ..m
        },
        GlCall::ClientWaitSync { fence, timeout } => if timeout != 0 {
            GlModel { waits: m.waits.push((fence, timeout, reply, m.blits.len())), ..m }
        } else {
            m
        },
        GlCall::Viewport { width, height } => GlModel {
            viewports: m.viewports.push((width, height)),
            ..m
        },
        GlCall::ClearProbe => GlModel {
            probes: m.probes.push((m.errors.len(), m.resets.len())),
            ..m
        },
        GlCall::CaptureFrame { width, height } => GlModel {
            offered: m.offered.push((width, height, m.blits.len())),
            ..m
        },
    }
}

/// The parameters with those of a texture that has one level, is read with a filter, and is
/// not repeated at its edges.
pub open spec fn sampled(
    sampling: Map<(u32, u32), u32>,
    texture: u32,
    filter: u32,
) -> Map<(u32, u32), u32> {
    sampling.insert((texture, crate::gl::TEXTURE_MIN_FILTER), filter).insert(
        (texture, crate::gl::TEXTURE_MAG_FILTER),
        filter,
    ).insert((texture, crate::gl::TEXTURE_WRAP_S), crate::gl::CLAMP_TO_EDGE).insert(
        (texture, crate::gl::TEXTURE_WRAP_T),
        crate::gl::CLAMP_TO_EDGE,
    )
}

/// Makes calls through `run` and keeps account of them.
pub struct Gl<F> {
    run: F,
    model: Ghost<GlModel>,
}

impl<F: Fn(GlCall) -> u32> View for Gl<F> {
    type V = GlModel;

    closed spec fn view(&self) -> GlModel {
        self.model@
    }
}

impl<F: Fn(GlCall) -> u32> Gl<F> {
    /// How calls are made.
    pub closed spec fn runner(&self) -> F {
        self.run
    }

    /// Every call can be made.
    pub open spec fn ready(&self) -> bool {
        forall|call: GlCall| #[trigger] call_requires(self.runner(), (call,))
    }

    /// A device whose state is whatever it is.
    pub fn new(run: F) -> (gl: Self)
        ensures
            gl.runner() == run,
            gl@.truthful,
    {
        Gl { run, model: Ghost(GlModel { truthful: true, ..arbitrary() }) }
    }

    /// Make a call.
    pub fn issue(&mut self, call: GlCall) -> (reply: u32)
        requires
            old(self).ready(),
        ensures
            final(self).ready(),
            final(self).runner() == old(self).runner(),
            call_ensures(old(self).runner(), (call,), reply),
            final(self)@ == after_call(old(self)@, call, reply),
    {
        let reply: u32 = (self.run)(call);
        self.model = Ghost(after_call(self.model@, call, reply));
        assert(self.runner() == old(self).runner());
        assert forall|c: GlCall| #[trigger] call_requires(self.runner(), (c,)) by {
            assert(call_requires(old(self).runner(), (c,)));
        }
        reply
    }

    /// Discard pending errors, but no more than a broken driver is worth.
    pub fn clear_errors(&mut self)
        requires
            old(self).ready(),
        ensures
            final(self).ready(),
            final(self).runner() == old(self).runner(),
            final(self)@ == (GlModel { errors: final(self)@.errors, ..old(self)@ }),
            old(self)@.errors.len() < final(self)@.errors.len() <= old(self)@.errors.len()
                + MAX_DISCARDED_ERRORS,
            final(self)@.errors.len() == old(self)@.errors.len() + MAX_DISCARDED_ERRORS || final(self)@.errors.last() == crate::gl::NO_ERROR,
            final(self)@.errors.take(old(self)@.errors.len() as int) == old(self)@.errors,
    {
        let mut i: u32 = 0;
        assert(self@.errors.take(old(self)@.errors.len() as int) =~= old(self)@.errors);
        while i < MAX_DISCARDED_ERRORS
            invariant
                i <= MAX_DISCARDED_ERRORS,
                self.ready(),
                self.runner() == old(self).runner(),
                self@ == (GlModel { errors: self@.errors, ..old(self)@ }),
                self@.errors.len() == old(self)@.errors.len() + i,
                self@.errors.take(old(self)@.errors.len() as int) == old(self)@.errors,
            decreases MAX_DISCARDED_ERRORS - i,
        {
            let error: u32 = self.issue(GlCall::GetError);
            assert(self@.errors.take(old(self)@.errors.len() as int) =~= old(self)@.errors);
            if error == crate::gl::NO_ERROR {
                return ;
            }
            i = i + 1;
        }
    }
}

/// How many pending errors are discarded at most.
pub const MAX_DISCARDED_ERRORS: u32 = 16;

} // verus!
