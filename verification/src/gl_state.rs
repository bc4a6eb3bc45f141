//! Everything known of one canvas's graphics state.
use std::collections::HashMap;
use vstd::prelude::*;

use crate::dedup::StencilFunc;
use crate::dedup::StencilOp;
use crate::shadows::CapabilityShadow;
use crate::shadows::FramebufferShadow;
use crate::shadows::IndexedUniformBufferShadow;
use crate::shadows::PerFace;
use crate::shadows::PixelStoreShadow;
use crate::shadows::TextureUnitShadow;
use crate::vertex_arrays::VertexArrayShadow;

verus! {

/// The most uniform values that a canvas remembers.
pub const MAX_UNIFORM_CACHE: usize = 256;

/// What is known of the scissor test.
#[derive(Clone, Copy, Debug, PartialEq, Eq, Structural)]
pub enum ScissorState {
    Disabled,
    Enabled { x: i32, y: i32, width: i32, height: i32 },
    /// The test may be enabled over any rectangle.
    EnabledUnknownRect,
}

/// Arguments of `glBlendFuncSeparate`.
#[derive(Clone, Copy, Debug, PartialEq, Eq, Structural)]
pub struct BlendFactors {
    pub src_rgb: u32,
    pub dst_rgb: u32,
    pub src_alpha: u32,
    pub dst_alpha: u32,
}

impl Default for BlendFactors {
    /// The initial factors: one for the source, zero for the destination.
    fn default() -> (b: Self)
        ensures
            b == (BlendFactors { src_rgb: 1, dst_rgb: 0, src_alpha: 1, dst_alpha: 0 }),
    {
        BlendFactors { src_rgb: 1, dst_rgb: 0, src_alpha: 1, dst_alpha: 0 }
    }
}

/// Arguments of `glBlendEquationSeparate`.
#[derive(Clone, Copy, Debug, PartialEq, Eq, Structural)]
pub struct BlendEquation {
    pub mode_rgb: u32,
    pub mode_alpha: u32,
}

impl Default for BlendEquation {
    /// The initial equation, `GL_FUNC_ADD`.
    fn default() -> (b: Self)
        ensures
            b == (BlendEquation { mode_rgb: 0x8006, mode_alpha: 0x8006 }),
    {
        BlendEquation { mode_rgb: 0x8006, mode_alpha: 0x8006 }
    }
}

/// The shadow of one canvas's state. `None` is "not known"; a binding of `Some(None)`
/// is known to be empty. Floating-point arguments are held as their bit patterns.
#[derive(Debug)]
pub struct CanvasGLState {
    pub current_program: Option<u32>,
    pub viewport: Option<(i32, i32, i32, i32)>,
    pub bound_texture_2d: TextureUnitShadow,
    pub bound_array_buffer: Option<Option<u32>>,
    pub bound_element_array_buffer: Option<Option<u32>>,
    pub bound_uniform_buffer: Option<Option<u32>>,
    pub bound_pixel_unpack_buffer: Option<Option<u32>>,
    pub bound_pixel_pack_buffer: Option<Option<u32>>,
    pub bound_copy_read_buffer: Option<Option<u32>>,
    pub bound_copy_write_buffer: Option<Option<u32>>,
    pub bound_transform_feedback_buffer: Option<Option<u32>>,
    pub bound_uniform_buffer_indexed: IndexedUniformBufferShadow,
    pub active_texture_unit: Option<u32>,
    /// Whether draws land in the canvas's default framebuffer.
    pub draws_to_default_fbo: bool,
    pub scissor: ScissorState,
    pub last_scissor_rect: Option<(i32, i32, i32, i32)>,
    pub color_mask: (bool, bool, bool, bool),
    pub capabilities: CapabilityShadow,
    pub blend_factors: Option<BlendFactors>,
    pub blend_equation: Option<BlendEquation>,
    pub blend_color: Option<(u32, u32, u32, u32)>,
    pub depth_func: Option<u32>,
    pub depth_mask: Option<bool>,
    pub depth_range: Option<(u32, u32)>,
    pub cull_face: Option<u32>,
    pub front_face: Option<u32>,
    pub line_width: Option<u32>,
    pub polygon_offset: Option<(u32, u32)>,
    pub bound_vao: Option<u32>,
    /// Uniform values by program (high half of the key) and location (low half). They
    /// belong to the program object, not to the context.
    pub uniform_cache: HashMap<u64, Vec<u8>>,
    pub bound_framebuffer: FramebufferShadow,
    pub bound_renderbuffer: Option<Option<u32>>,
    pub vertex_attribs: VertexArrayShadow,
    pub stencil_func: PerFace<StencilFunc>,
    pub stencil_op: PerFace<StencilOp>,
    pub stencil_mask: PerFace<u32>,
    pub pixel_store_i32: PixelStoreShadow,
}

impl CanvasGLState {
    /// The shadow is well formed.
    pub open spec fn wf(&self) -> bool {
        self.vertex_attribs.wf()
    }

    /// Nothing is known of bindings, buffers, programs and vertex state.
    pub open spec fn bindings_unknown(&self) -> bool {
        &&& self.current_program is None
        &&& self.viewport is None
        &&& self.bound_texture_2d@ == Map::<u32, Option<u32>>::empty()
        &&& self.bound_array_buffer is None
        &&& self.bound_element_array_buffer is None
        &&& self.bound_uniform_buffer is None
        &&& self.bound_pixel_unpack_buffer is None
        &&& self.bound_pixel_pack_buffer is None
        &&& self.bound_copy_read_buffer is None
        &&& self.bound_copy_write_buffer is None
        &&& self.bound_transform_feedback_buffer is None
        &&& self.bound_uniform_buffer_indexed@ == Map::<
            u32,
            crate::shadows::BufferRange,
        >::empty()
        &&& self.active_texture_unit is None
        &&& self.bound_vao is None
        &&& self.bound_framebuffer@ == Map::<u32, Option<u32>>::empty()
        &&& self.bound_renderbuffer is None
        &&& self.vertex_attribs@ == crate::vertex_arrays::no_vertex_arrays()
            || self.vertex_attribs@ == crate::vertex_arrays::fresh_vertex_arrays()
    }

    /// Nothing is known of the fixed-function state, and every colour channel is written.
    pub open spec fn pipeline_unknown(&self) -> bool {
        &&& self.last_scissor_rect is None
        &&& self.color_mask == (true, true, true, true)
        &&& self.capabilities@ == Map::<u32, bool>::empty()
        &&& self.blend_factors is None
        &&& self.blend_equation is None
        &&& self.blend_color is None
        &&& self.depth_func is None
        &&& self.depth_mask is None
        &&& self.depth_range is None
        &&& self.cull_face is None
        &&& self.front_face is None
        &&& self.line_width is None
        &&& self.polygon_offset is None
        &&& self.stencil_func@ == Map::<u32, StencilFunc>::empty()
        &&& self.stencil_op@ == Map::<u32, StencilOp>::empty()
        &&& self.stencil_mask@ == Map::<u32, u32>::empty()
        &&& self.pixel_store_i32@ == Map::<u32, i32>::empty()
    }

    fn invalidate_p11_shadow(&mut self)
        requires
            old(self).wf(),
        ensures
            final(self).bound_framebuffer@ == Map::<u32, Option<u32>>::empty(),
            final(self).bound_renderbuffer is None,
            final(self).vertex_attribs.wf(),
            final(self).vertex_attribs@ == crate::vertex_arrays::no_vertex_arrays(),
            final(self).stencil_func@ == Map::<u32, StencilFunc>::empty(),
            final(self).stencil_op@ == Map::<u32, StencilOp>::empty(),
            final(self).stencil_mask@ == Map::<u32, u32>::empty(),
            final(self).pixel_store_i32@ == Map::<u32, i32>::empty(),
            *final(self) == (CanvasGLState {
                bound_framebuffer: final(self).bound_framebuffer,
                bound_renderbuffer: final(self).bound_renderbuffer,
                vertex_attribs: final(self).vertex_attribs,
                stencil_func: final(self).stencil_func,
                stencil_op: final(self).stencil_op,
                stencil_mask: final(self).stencil_mask,
                pixel_store_i32: final(self).pixel_store_i32,
                ..*old(self)
            }),
    {
        self.bound_framebuffer.forget_all();
        self.bound_renderbuffer = None;
        self.vertex_attribs.forget_all();
        self.stencil_func.forget_all();
        self.stencil_op.forget_all();
        self.stencil_mask.forget_all();
        self.pixel_store_i32.forget_all();
    }

    /// Forget what another user of the context may have changed. The canvas still
    /// draws where it drew, and programs keep their uniforms; the scissor test may be
    /// on over any rectangle.
    pub fn invalidate_after_external_gl_use(&mut self)
        requires
            old(self).wf(),
        ensures
            final(self).wf(),
            final(self).bindings_unknown(),
            final(self).pipeline_unknown(),
            final(self).vertex_attribs@ == crate::vertex_arrays::no_vertex_arrays(),
            final(self).scissor == ScissorState::EnabledUnknownRect,
            final(self).draws_to_default_fbo == old(self).draws_to_default_fbo,
            final(self).uniform_cache == old(self).uniform_cache,
    {
        self.current_program = None;
        self.viewport = None;
        self.bound_texture_2d.forget_all();
        self.bound_array_buffer = None;
        self.bound_element_array_buffer = None;
        self.bound_uniform_buffer = None;
        self.bound_pixel_unpack_buffer = None;
        self.bound_pixel_pack_buffer = None;
        self.bound_copy_read_buffer = None;
        self.bound_copy_write_buffer = None;
        self.bound_transform_feedback_buffer = None;
        self.bound_uniform_buffer_indexed.forget_all();
        self.active_texture_unit = None;
        self.scissor = ScissorState::EnabledUnknownRect;
        self.last_scissor_rect = None;
        self.color_mask = (true, true, true, true);
        self.capabilities.forget_all();
        self.blend_factors = None;
        self.blend_equation = None;
        self.blend_color = None;
        self.depth_func = None;
        self.depth_mask = None;
        self.depth_range = None;
        self.cull_face = None;
        self.front_face = None;
        self.line_width = None;
        self.polygon_offset = None;
        self.bound_vao = None;
        self.invalidate_p11_shadow();
    }

    /// Record that an engine-owned operation bound the canvas's default framebuffer to
    /// both targets.
    pub fn record_default_framebuffer_bind(&mut self)
        requires
            old(self).wf(),
        ensures
            final(self).wf(),
            final(self).bound_framebuffer@ == crate::shadows::framebuffers_after(
                old(self).bound_framebuffer@,
                crate::gl::FRAMEBUFFER,
                None,
            ),
            *final(self) == (CanvasGLState {
                bound_framebuffer: final(self).bound_framebuffer,
                draws_to_default_fbo: true,
                ..*old(self)
            }),
    {
        self.bound_framebuffer.set_all(None);
        self.draws_to_default_fbo = true;
    }
}

impl Default for CanvasGLState {
    /// The shadow of a fresh context: nothing known, drawing to the default
    /// framebuffer, scissor test off.
    fn default() -> (s: Self)
        ensures
            s.wf(),
            s.bindings_unknown(),
            s.pipeline_unknown(),
            s.vertex_attribs@ == crate::vertex_arrays::fresh_vertex_arrays(),
            s.scissor == ScissorState::Disabled,
            s.draws_to_default_fbo,
            s.uniform_cache@ == Map::<u64, Vec<u8>>::empty(),
    {
        CanvasGLState {
            current_program: None,
            viewport: None,
            bound_texture_2d: TextureUnitShadow::default(),
            bound_array_buffer: None,
            bound_element_array_buffer: None,
            bound_uniform_buffer: None,
            bound_pixel_unpack_buffer: None,
            bound_pixel_pack_buffer: None,
            bound_copy_read_buffer: None,
            bound_copy_write_buffer: None,
            bound_transform_feedback_buffer: None,
            bound_uniform_buffer_indexed: IndexedUniformBufferShadow::default(),
            active_texture_unit: None,
            draws_to_default_fbo: true,
            scissor: ScissorState::Disabled,
            last_scissor_rect: None,
            color_mask: (true, true, true, true),
            capabilities: CapabilityShadow::default(),
            blend_factors: None,
            blend_equation: None,
            blend_color: None,
            depth_func: None,
            depth_mask: None,
            depth_range: None,
            cull_face: None,
            front_face: None,
            line_width: None,
            polygon_offset: None,
            bound_vao: None,
            uniform_cache: HashMap::new(),
            bound_framebuffer: FramebufferShadow::default(),
            bound_renderbuffer: None,
            vertex_attribs: VertexArrayShadow::new(),
            stencil_func: PerFace::default(),
            stencil_op: PerFace::default(),
            stencil_mask: PerFace::default(),
            pixel_store_i32: PixelStoreShadow::default(),
        }
    }
}

/// After another user of the context ran, no call of any deduplicated family is skipped.
pub proof fn law_external_use_makes_calls_again(
    state: CanvasGLState,
    cap: u32,
    on: bool,
    unit: u32,
    texture: Option<u32>,
    pname: u32,
    param: i32,
    target: u32,
    fb: Option<u32>,
    vao: u32,
    index: u32,
    divisor: u32,
)
    requires
        state.bindings_unknown(),
        state.pipeline_unknown(),
        state.vertex_attribs@ == crate::vertex_arrays::no_vertex_arrays(),
    ensures
        !crate::dedup::redundant(state.capabilities@, cap, on),
        !crate::dedup::redundant(state.bound_texture_2d@, unit, texture),
        !crate::dedup::redundant(state.pixel_store_i32@, pname, param),
        !crate::shadows::framebuffer_redundant(state.bound_framebuffer@, target, fb),
        crate::shadows::known_framebuffer(state.bound_framebuffer@, target) is None,
        !crate::dedup::redundant(state.vertex_attribs@.divisors, (vao, index), divisor),
        !crate::dedup::redundant(state.vertex_attribs@.arrays, (vao, index), on),
{
}

/// Once the default framebuffer was bound to both points it is known at both, and content draws
/// to it; nothing else is forgotten.
pub proof fn law_a_default_bind_is_known_at_both_points()
    ensures
        forall|state: &mut CanvasGLState|
            #[trigger] call_ensures(
                CanvasGLState::record_default_framebuffer_bind,
                (state,),
                (),
            ) ==> {
                let known = (*final(state)).bound_framebuffer@;
                &&& known.dom().contains(0x8CA9u32) && known[0x8CA9u32] is None
                &&& known.dom().contains(0x8CA8u32) && known[0x8CA8u32] is None
                &&& (*final(state)).draws_to_default_fbo
                &&& (*final(state)).viewport == (*state).viewport
                &&& (*final(state)).current_program == (*state).current_program
            },
{
}

} // verus!
