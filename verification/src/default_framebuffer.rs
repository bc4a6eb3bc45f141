//! Which framebuffer a canvas's content means when it binds none.
//!
//! It is the drawing buffer, or the window surface itself where the drawing buffer is
//! bypassed.
use vstd::prelude::*;

use crate::gl::{
    DRAW_FRAMEBUFFER, DRAW_FRAMEBUFFER_BINDING, FRAMEBUFFER, FRAMEBUFFER_BINDING, READ_FRAMEBUFFER,
    READ_FRAMEBUFFER_BINDING,
};
use crate::gl_device::Gl;
use crate::gl_device::GlCall;
use crate::gl_state::CanvasGLState;

verus! {

/// Whether the onscreen canvas may draw straight to the window: it is the only canvas, its
/// content is not read back, it has no 2D context, and its drawing buffer has the
/// surface's size.
pub fn can_bypass_drawing_buffer(
    canvas_count: usize,
    needs_default_fbo_readback: bool,
    onscreen_has_2d_context: bool,
    onscreen_db_matches_surface: bool,
) -> (b: bool)
    ensures
        b == bypassable(
            canvas_count as nat,
            needs_default_fbo_readback,
            onscreen_has_2d_context,
            onscreen_db_matches_surface,
        ),
{
    canvas_count == 1 && !needs_default_fbo_readback && !onscreen_has_2d_context
        && onscreen_db_matches_surface
}

/// The drawing buffer can be bypassed.
pub open spec fn bypassable(count: nat, readback: bool, has_2d: bool, matches: bool) -> bool {
    count == 1 && !readback && !has_2d && matches
}

/// The default framebuffer of a canvas; none is the window's own.
pub open spec fn default_of(bypass: bool, drawing_buffer_fbo: Option<u32>) -> Option<u32> {
    if bypass {
        None
    } else {
        drawing_buffer_fbo
    }
}

/// The framebuffer that is a canvas's default framebuffer.
pub fn default_framebuffer_of(bypass_drawing_buffer: bool, drawing_buffer_fbo: Option<u32>) -> (fbo:
    Option<u32>)
    ensures
        fbo == default_of(bypass_drawing_buffer, drawing_buffer_fbo),
{
    if bypass_drawing_buffer {
        None
    } else {
        drawing_buffer_fbo
    }
}

/// The name that a framebuffer is bound by.
pub open spec fn name_of(fbo: Option<u32>) -> u32 {
    match fbo {
        Some(name) => name,
        None => 0,
    }
}

/// The framebuffer that a name stands for.
pub open spec fn named(name: u32) -> Option<u32> {
    if name == 0 {
        None
    } else {
        Some(name)
    }
}

fn to_name(fbo: Option<u32>) -> (name: u32)
    ensures
        name == name_of(fbo),
{
    match fbo {
        Some(name) => name,
        None => 0,
    }
}

fn from_name(name: u32) -> (fbo: Option<u32>)
    ensures
        fbo == named(name),
{
    if name == 0 {
        None
    } else {
        Some(name)
    }
}

/// A binding after the default framebuffer changed: only the old default moves.
pub open spec fn remapped(bound: u32, applied: Option<u32>, desired: Option<u32>) -> u32 {
    if named(bound) == applied {
        name_of(desired)
    } else {
        bound
    }
}

/// The calls that remap the default framebuffer: one, or none where nothing is bound to it.
pub open spec fn remapping_binds(
    bound: crate::gl_device::Bindings,
    applied: Option<u32>,
    desired: Option<u32>,
) -> Seq<(u32, u32)> {
    let reads = named(bound.read_framebuffer) == applied;
    let draws = named(bound.draw_framebuffer) == applied;
    if reads && draws {
        seq![(FRAMEBUFFER, name_of(desired))]
    } else if reads {
        seq![(READ_FRAMEBUFFER, name_of(desired))]
    } else if draws {
        seq![(DRAW_FRAMEBUFFER, name_of(desired))]
    } else {
        Seq::empty()
    }
}

/// Install a default framebuffer in the context that owns it. Bindings that meant the old
/// default come to mean the new one; the content's own bindings stay.
///
/// Away from its context nothing is done, so that a change is applied once on return, and
/// two changes that cancel out are never applied.
pub fn apply_default_framebuffer<F: Fn(GlCall) -> u32>(
    gl: &mut Gl<F>,
    context_is_current: bool,
    applied: &mut Option<u32>,
    desired: Option<u32>,
)
    requires
        old(gl).ready(),
    ensures
        final(gl).ready(),
        final(gl).runner() == old(gl).runner(),
        !context_is_current || *old(applied) == desired ==> *final(applied) == *old(applied)
            && final(gl)@ == old(gl)@,
        context_is_current ==> *final(applied) == desired,
        final(gl)@ == (crate::gl_device::GlModel {
            bindings: crate::gl_device::Bindings {
                read_framebuffer: final(gl)@.bindings.read_framebuffer,
                draw_framebuffer: final(gl)@.bindings.draw_framebuffer,
                ..old(gl)@.bindings
            },
            truthful: final(gl)@.truthful,
            binds: final(gl)@.binds,
            ..old(gl)@
        }),
        final(gl)@.truthful ==> old(gl)@.truthful,
        context_is_current && *old(applied) != desired && final(gl)@.truthful ==> final(gl)@.binds
            == old(gl)@.binds + remapping_binds(old(gl)@.bindings, *old(applied), desired),
        context_is_current && final(gl)@.truthful ==> {
            &&& final(gl)@.bindings.read_framebuffer == remapped(
                old(gl)@.bindings.read_framebuffer,
                *old(applied),
                desired,
            ) || *old(applied) == desired
            &&& final(gl)@.bindings.draw_framebuffer == remapped(
                old(gl)@.bindings.draw_framebuffer,
                *old(applied),
                desired,
            ) || *old(applied) == desired
        },
{
    let same: bool = match (*applied, desired) {
        (None, None) => true,
        (Some(a), Some(b)) => a == b,
        _ => false,
    };
    if !context_is_current || same {
        return ;
    }
    let read = from_name(gl.issue(GlCall::GetInteger { pname: READ_FRAMEBUFFER_BINDING }));
    let draw = from_name(gl.issue(GlCall::GetInteger { pname: DRAW_FRAMEBUFFER_BINDING }));
    let reads_default: bool = same_framebuffer(read, *applied);
    let draws_default: bool = same_framebuffer(draw, *applied);
    let name: u32 = to_name(desired);
    if reads_default && draws_default {
        let _ = gl.issue(GlCall::BindFramebuffer { target: FRAMEBUFFER, name });
    } else if reads_default {
        let _ = gl.issue(GlCall::BindFramebuffer { target: READ_FRAMEBUFFER, name });
    } else if draws_default {
        let _ = gl.issue(GlCall::BindFramebuffer { target: DRAW_FRAMEBUFFER, name });
    }
    *applied = desired;
}

fn same_framebuffer(a: Option<u32>, b: Option<u32>) -> (same: bool)
    ensures
        same == (a == b),
{
    match (a, b) {
        (None, None) => true,
        (Some(x), Some(y)) => x == y,
        _ => false,
    }
}

/// The target that a read consults, and the parameter that reports its binding.
pub open spec fn read_target(version_major: u32, split_bindings_probed: bool) -> (u32, u32) {
    if version_major >= 3 || split_bindings_probed {
        (READ_FRAMEBUFFER, READ_FRAMEBUFFER_BINDING)
    } else {
        (FRAMEBUFFER, FRAMEBUFFER_BINDING)
    }
}

/// Whether a read consumes the default framebuffer. A binding that the content is known to
/// have made answers; otherwise the driver is asked.
pub fn reads_from_default_framebuffer<F: Fn(GlCall) -> u32>(
    gl: &mut Gl<F>,
    version_major: u32,
    split_bindings_probed: bool,
    state: Option<&CanvasGLState>,
    default: Option<u32>,
) -> (reads: bool)
    requires
        old(gl).ready(),
    ensures
        final(gl).ready(),
        final(gl).runner() == old(gl).runner(),
        ({
            let (target, binding) = read_target(version_major, split_bindings_probed);
            let known = match state {
                Some(s) => crate::shadows::known_framebuffer(s.bound_framebuffer@, target),
                None => None,
            };
            &&& known matches Some(bound) ==> final(gl)@ == old(gl)@ && reads == (bound is None)
            &&& known is None ==> final(gl)@ == (crate::gl_device::GlModel {
                truthful: final(gl)@.truthful,
                ..old(gl)@
            }) && (final(gl)@.truthful ==> old(gl)@.truthful && reads == (named(
                if target == READ_FRAMEBUFFER {
                    old(gl)@.bindings.read_framebuffer
                } else {
                    old(gl)@.bindings.draw_framebuffer
                },
            ) == default))
        }),
{
    let split: bool = version_major >= 3 || split_bindings_probed;
    let target: u32 = if split {
        READ_FRAMEBUFFER
    } else {
        FRAMEBUFFER
    };
    let binding: u32 = if split {
        READ_FRAMEBUFFER_BINDING
    } else {
        FRAMEBUFFER_BINDING
    };
    if let Some(s) = state {
        if let Some(bound) = s.bound_framebuffer.get(target) {
            return bound.is_none();
        }
    }
    let bound = from_name(gl.issue(GlCall::GetInteger { pname: binding }));
    same_framebuffer(bound, default)
}

/// Whether the framebuffer that is bound to `target` is the canvas's drawing buffer. Its
/// attachments are not the content's to change.
pub fn is_drawing_buffer_bound<F: Fn(GlCall) -> u32>(
    gl: &mut Gl<F>,
    drawing_buffer_fbo: Option<u32>,
    target: u32,
) -> (bound: bool)
    requires
        old(gl).ready(),
    ensures
        final(gl).ready(),
        final(gl).runner() == old(gl).runner(),
        drawing_buffer_fbo is None ==> !bound && final(gl)@ == old(gl)@,
        final(gl)@ == (crate::gl_device::GlModel { truthful: final(gl)@.truthful, ..old(gl)@ }),
        final(gl)@.truthful ==> old(gl)@.truthful && bound == (drawing_buffer_fbo == Some(
            if target == READ_FRAMEBUFFER {
                old(gl)@.bindings.read_framebuffer
            } else {
                old(gl)@.bindings.draw_framebuffer
            },
        )),
{
    match drawing_buffer_fbo {
        None => false,
        Some(fbo) => {
            let query: u32 = if target == READ_FRAMEBUFFER {
                READ_FRAMEBUFFER_BINDING
            } else {
                DRAW_FRAMEBUFFER_BINDING
            };
            gl.issue(GlCall::GetInteger { pname: query }) == fbo
        },
    }
}

/// Two changes of the default framebuffer, applied one after the other, move the same
/// bindings as the second one alone would have moved from the first default: what the
/// content bound itself is never touched, provided it never bound the default by name.
pub proof fn law_remapping_composes(
    bound: u32,
    first: Option<u32>,
    second: Option<u32>,
    third: Option<u32>,
)
    requires
        first != Some(0u32),
        second != Some(0u32),
        third != Some(0u32),
        named(bound) != second || second == first,
    ensures
        remapped(remapped(bound, first, second), second, third) == remapped(bound, first, third),
{
}

/// The drawing buffer is bypassed only for a single canvas whose content is not read back,
/// which has no 2D context and whose buffer has the surface's size: any one of these missing
/// keeps the buffer in use.
pub proof fn law_when_the_buffer_can_be_bypassed(
    count: usize,
    readback: bool,
    has_2d: bool,
    matches: bool,
    bypass: bool,
)
    requires
        call_ensures(can_bypass_drawing_buffer, (count, readback, has_2d, matches), bypass),
    ensures
        bypass ==> count == 1,
        readback || has_2d || !matches ==> !bypass,
        count == 1 && !readback && !has_2d && matches ==> bypass,
{
}

/// While the buffer is bypassed the default framebuffer is the window's own; otherwise it is
/// the drawing buffer, where there is one.
pub proof fn law_what_the_default_framebuffer_is(
    bypass: bool,
    buffer: Option<u32>,
    default: Option<u32>,
)
    requires
        call_ensures(default_framebuffer_of, (bypass, buffer), default),
    ensures
        bypass ==> default is None,
        !bypass ==> default == buffer,
{
}

/// A binding that means the old default comes to mean the new one, and any other stays. The
/// window's own framebuffer is bound by the name zero. Going back to the old default restores
/// every binding that the content did not make of the new one itself.
pub proof fn law_only_the_default_moves(bound: u32, applied: Option<u32>, desired: Option<u32>)
    ensures
        applied is None && bound == 0 && desired is Some ==> remapped(bound, applied, desired)
            == desired->0,
        applied is None && bound != 0 ==> remapped(bound, applied, desired) == bound,
        applied is Some && bound == applied->0 && bound != 0 && desired is None ==> remapped(
            bound,
            applied,
            desired,
        ) == 0,
        applied is Some && bound != applied->0 ==> remapped(bound, applied, desired) == bound,
        remapped(bound, applied, applied) == bound || applied == Some(0u32),
        applied != Some(0u32) && desired != Some(0u32) && named(bound) != desired ==> remapped(
            remapped(bound, applied, desired),
            desired,
            applied,
        ) == bound,
{
}

/// One call moves what is bound to the old default, at the points at which it is bound, and
/// no call is made where nothing is.
pub proof fn law_one_call_moves_the_default(
    bound: crate::gl_device::Bindings,
    applied: Option<u32>,
    desired: Option<u32>,
)
    ensures
        remapping_binds(bound, applied, desired).len() <= 1,
        remapping_binds(bound, applied, desired).len() == 0 <==> named(bound.read_framebuffer)
            != applied && named(bound.draw_framebuffer) != applied,
        remapping_binds(bound, applied, desired).len() == 1 ==> {
            let (target, name) = remapping_binds(bound, applied, desired)[0];
            &&& target == 0x8D40 || target == 0x8CA8 || target == 0x8CA9
            &&& (target == 0x8CA9) == (named(bound.read_framebuffer) != applied)
            &&& (target == 0x8CA8) == (named(bound.draw_framebuffer) != applied)
            &&& desired is None ==> name == 0
            &&& desired matches Some(fbo) ==> name == fbo
        },
{
}

/// A read consults the read binding where reading and drawing are bound apart: from version
/// three on, or where it was found to be so. Elsewhere it consults the one binding there is.
pub proof fn law_which_binding_a_read_consults(version_major: u32, split: bool)
    ensures
        version_major >= 3 || split ==> read_target(version_major, split) == (0x8CA8u32, 0x8CAAu32),
        version_major < 3 && !split ==> read_target(version_major, split) == (0x8D40u32, 0x8CA6u32),
{
}

/// Away from its context a default framebuffer is not installed. In its context it is, and then
/// what was bound to the old one is bound to the new one, and what content bound stays.
pub proof fn law_a_default_is_installed_in_its_context<F: Fn(GlCall) -> u32>(
    current: bool,
    desired: Option<u32>,
)
    ensures
        forall|gl: &mut Gl<F>, applied: &mut Option<u32>|
            #[trigger] call_ensures(
                apply_default_framebuffer::<F>,
                (gl, current, applied, desired),
                (),
            ) ==> {
                let before = (*gl)@.bindings;
                let after = (*final(gl))@.bindings;
                &&& !current ==> *final(applied) == *applied && (*final(gl))@ == (*gl)@
                &&& current ==> *final(applied) == desired
                &&& current && *applied is None && desired is Some && (*final(gl))@.truthful ==> {
                    &&& before.draw_framebuffer == 0 ==> after.draw_framebuffer == desired->0
                    &&& before.draw_framebuffer != 0 ==> after.draw_framebuffer
                        == before.draw_framebuffer
                    &&& before.read_framebuffer == 0 ==> after.read_framebuffer == desired->0
                    &&& before.read_framebuffer != 0 ==> after.read_framebuffer
                        == before.read_framebuffer
                }
                &&& current && *applied is Some && desired is None && (*final(gl))@.truthful ==> {
                    &&& before.draw_framebuffer == applied->0 && applied->0 != 0
                        ==> after.draw_framebuffer == 0
                    &&& before.draw_framebuffer != applied->0 ==> after.draw_framebuffer
                        == before.draw_framebuffer
                }
            },
{
}

/// The drawing buffer is bound exactly if the framebuffer at the point that is asked about is
/// its own; a canvas without one has none bound.
pub proof fn law_when_the_drawing_buffer_is_bound<F: Fn(GlCall) -> u32>(
    buffer: Option<u32>,
    target: u32,
    bound: bool,
)
    ensures
        forall|gl: &mut Gl<F>|
            #[trigger] call_ensures(is_drawing_buffer_bound::<F>, (gl, buffer, target), bound)
                ==> {
                &&& buffer is None ==> !bound
                &&& buffer is Some && (*final(gl))@.truthful && target == 0x8CA8 ==> bound == (
                (*gl)@.bindings.read_framebuffer == buffer->0)
                &&& buffer is Some && (*final(gl))@.truthful && target == 0x8D40 ==> bound == (
                (*gl)@.bindings.draw_framebuffer == buffer->0)
            },
{
}

} // verus!
