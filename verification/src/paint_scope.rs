//! The bindings that painting needs at its own values, and what content had there.
use vstd::prelude::*;

use crate::gl::{
    ACTIVE_TEXTURE, PACK_ALIGNMENT, PACK_ROW_LENGTH, PACK_SKIP_PIXELS, PACK_SKIP_ROWS,
    PIXEL_PACK_BUFFER, PIXEL_PACK_BUFFER_BINDING, PIXEL_UNPACK_BUFFER, PIXEL_UNPACK_BUFFER_BINDING,
    TEXTURE0, UNPACK_ALIGNMENT,
};
use crate::gl_device::Gl;
use crate::gl_device::GlCall;

verus! {

/// What content had.
#[derive(Clone, Copy, Debug, PartialEq, Eq, Structural)]
pub struct Canvas2DGlState {
    pub active_texture: u32,
    pub unpack_buffer: u32,
    pub unpack_alignment: u32,
    pub pack_alignment: u32,
    pub pack_row_length: u32,
    pub pack_skip_pixels: u32,
    pub pack_skip_rows: u32,
    pub pack_buffer: u32,
}

/// The saved values are what the bindings are.
pub open spec fn saved_from(state: Canvas2DGlState, b: crate::gl_device::Bindings) -> bool {
    &&& state.active_texture == b.active_texture
    &&& state.unpack_buffer == b.unpack_buffer
    &&& state.pack_buffer == b.pack_buffer
    &&& holds(b, UNPACK_ALIGNMENT, state.unpack_alignment)
    &&& holds(b, PACK_ALIGNMENT, state.pack_alignment)
    &&& holds(b, PACK_ROW_LENGTH, state.pack_row_length)
    &&& holds(b, PACK_SKIP_PIXELS, state.pack_skip_pixels)
    &&& holds(b, PACK_SKIP_ROWS, state.pack_skip_rows)
}

/// A pixel-store parameter has a value.
pub open spec fn holds(b: crate::gl_device::Bindings, pname: u32, value: u32) -> bool {
    b.pixel_store.dom().contains(pname) && b.pixel_store[pname] == value
}

/// The values that painting needs.
pub open spec fn painting_values() -> Canvas2DGlState {
    Canvas2DGlState {
        active_texture: TEXTURE0,
        unpack_buffer: 0,
        unpack_alignment: 4,
        pack_alignment: 4,
        pack_row_length: 0,
        pack_skip_pixels: 0,
        pack_skip_rows: 0,
        pack_buffer: 0,
    }
}

/// The bindings with those values.
pub open spec fn with_values(
    b: crate::gl_device::Bindings,
    v: Canvas2DGlState,
) -> crate::gl_device::Bindings {
    crate::gl_device::Bindings {
        active_texture: v.active_texture,
        unpack_buffer: v.unpack_buffer,
        pack_buffer: v.pack_buffer,
        pixel_store: b.pixel_store.insert(UNPACK_ALIGNMENT, v.unpack_alignment).insert(
            PACK_ALIGNMENT,
            v.pack_alignment,
        ).insert(PACK_ROW_LENGTH, v.pack_row_length).insert(
            PACK_SKIP_PIXELS,
            v.pack_skip_pixels,
        ).insert(PACK_SKIP_ROWS, v.pack_skip_rows),
        ..b
    }
}

/// Set the values.
fn install<F: Fn(GlCall) -> u32>(gl: &mut Gl<F>, v: Canvas2DGlState)
    requires
        old(gl).ready(),
    ensures
        final(gl).ready(),
        final(gl).runner() == old(gl).runner(),
        final(gl)@ == (crate::gl_device::GlModel {
            bindings: with_values(old(gl)@.bindings, v),
            ..old(gl)@
        }),
{
    let _ = gl.issue(GlCall::ActiveTexture { unit: v.active_texture });
    let _ = gl.issue(GlCall::BindBuffer { target: PIXEL_UNPACK_BUFFER, name: v.unpack_buffer });
    let _ = gl.issue(GlCall::PixelStore { pname: UNPACK_ALIGNMENT, value: v.unpack_alignment });
    let _ = gl.issue(GlCall::PixelStore { pname: PACK_ALIGNMENT, value: v.pack_alignment });
    let _ = gl.issue(GlCall::PixelStore { pname: PACK_ROW_LENGTH, value: v.pack_row_length });
    let _ = gl.issue(GlCall::PixelStore { pname: PACK_SKIP_PIXELS, value: v.pack_skip_pixels });
    let _ = gl.issue(GlCall::PixelStore { pname: PACK_SKIP_ROWS, value: v.pack_skip_rows });
    let _ = gl.issue(GlCall::BindBuffer { target: PIXEL_PACK_BUFFER, name: v.pack_buffer });
}

/// Save what content had, and install what painting needs.
pub fn begin_canvas2d_gl_scope<F: Fn(GlCall) -> u32>(gl: &mut Gl<F>) -> (state: Canvas2DGlState)
    requires
        old(gl).ready(),
    ensures
        final(gl).ready(),
        final(gl).runner() == old(gl).runner(),
        final(gl)@ == (crate::gl_device::GlModel {
            bindings: with_values(old(gl)@.bindings, painting_values()),
            truthful: final(gl)@.truthful,
            ..old(gl)@
        }),
        final(gl)@.truthful ==> old(gl)@.truthful && saved_from(state, old(gl)@.bindings),
{
    let active_texture: u32 = gl.issue(GlCall::GetInteger { pname: ACTIVE_TEXTURE });
    let unpack_buffer: u32 = gl.issue(GlCall::GetInteger { pname: PIXEL_UNPACK_BUFFER_BINDING });
    let unpack_alignment: u32 = gl.issue(GlCall::GetInteger { pname: UNPACK_ALIGNMENT });
    let pack_alignment: u32 = gl.issue(GlCall::GetInteger { pname: PACK_ALIGNMENT });
    let pack_row_length: u32 = gl.issue(GlCall::GetInteger { pname: PACK_ROW_LENGTH });
    let pack_skip_pixels: u32 = gl.issue(GlCall::GetInteger { pname: PACK_SKIP_PIXELS });
    let pack_skip_rows: u32 = gl.issue(GlCall::GetInteger { pname: PACK_SKIP_ROWS });
    let pack_buffer: u32 = gl.issue(GlCall::GetInteger { pname: PIXEL_PACK_BUFFER_BINDING });
    install(
        gl,
        Canvas2DGlState {
            active_texture: TEXTURE0,
            unpack_buffer: 0,
            unpack_alignment: 4,
            pack_alignment: 4,
            pack_row_length: 0,
            pack_skip_pixels: 0,
            pack_skip_rows: 0,
            pack_buffer: 0,
        },
    );
    Canvas2DGlState {
        active_texture,
        unpack_buffer,
        unpack_alignment,
        pack_alignment,
        pack_row_length,
        pack_skip_pixels,
        pack_skip_rows,
        pack_buffer,
    }
}

/// Give content back what it had.
pub fn end_canvas2d_gl_scope<F: Fn(GlCall) -> u32>(gl: &mut Gl<F>, state: Canvas2DGlState)
    requires
        old(gl).ready(),
    ensures
        final(gl).ready(),
        final(gl).runner() == old(gl).runner(),
        final(gl)@ == (crate::gl_device::GlModel {
            bindings: with_values(old(gl)@.bindings, state),
            ..old(gl)@
        }),
{
    install(gl, state);
}

/// Content gets back every value that a scope saved, whatever painting made of them in
/// between.
pub proof fn law_a_scope_gives_everything_back(
    state: Canvas2DGlState,
    before: crate::gl_device::Bindings,
    painted: crate::gl_device::Bindings,
)
    requires
        saved_from(state, before),
    ensures
        saved_from(state, with_values(painted, state)),
        ({
            let after = with_values(painted, state);
            &&& after.active_texture == before.active_texture
            &&& after.unpack_buffer == before.unpack_buffer
            &&& after.pack_buffer == before.pack_buffer
            &&& after.pixel_store[UNPACK_ALIGNMENT] == before.pixel_store[UNPACK_ALIGNMENT]
            &&& after.pixel_store[PACK_ALIGNMENT] == before.pixel_store[PACK_ALIGNMENT]
            &&& after.pixel_store[PACK_ROW_LENGTH] == before.pixel_store[PACK_ROW_LENGTH]
            &&& after.pixel_store[PACK_SKIP_PIXELS] == before.pixel_store[PACK_SKIP_PIXELS]
            &&& after.pixel_store[PACK_SKIP_ROWS] == before.pixel_store[PACK_SKIP_ROWS]
        }),
{
}

/// Painting starts from the values that it needs: the first texture unit, no pixel buffers,
/// rows aligned to four bytes and nothing skipped.
pub proof fn law_painting_starts_from_its_own_values<F: Fn(GlCall) -> u32>(state: Canvas2DGlState)
    ensures
        forall|gl: &mut Gl<F>|
            #[trigger] call_ensures(begin_canvas2d_gl_scope::<F>, (gl,), state) ==> {
                let b = (*final(gl))@.bindings;
                &&& b.active_texture == 0x84C0
                &&& b.unpack_buffer == 0
                &&& b.pack_buffer == 0
                &&& b.pixel_store[0x0CF5u32] == 4
                &&& b.pixel_store[0x0D05u32] == 4
                &&& b.pixel_store[0x0D02u32] == 0
                &&& b.pixel_store[0x0D04u32] == 0
                &&& b.pixel_store[0x0D03u32] == 0
                &&& (*final(gl))@.truthful ==> state.active_texture
                    == (*gl)@.bindings.active_texture && state.unpack_buffer
                    == (*gl)@.bindings.unpack_buffer && state.pack_buffer
                    == (*gl)@.bindings.pack_buffer && state.unpack_alignment
                    == (*gl)@.bindings.pixel_store[0x0CF5u32] && state.pack_alignment
                    == (*gl)@.bindings.pixel_store[0x0D05u32]
            },
{
}

} // verus!
