use graphics::binding::ObjectOwner;
use graphics::gl_state::CanvasGLState;
use graphics::objects::{
    check_owner, ForeignObject, FramebufferMeta, GlObject, LinkQueue, QueryMeta, SharedMeta,
    SharedObjects, TransformFeedbackMeta, VaoMeta,
};
use graphics::shadows::{
    BufferRange, CapabilityShadow, FramebufferShadow, IndexedUniformBufferShadow, PixelStoreShadow,
    TextureUnitShadow,
};
use graphics::vertex_arrays::{VertexArrayShadow, VertexAttribPointerFp};

#[test]
fn a_capability_is_sent_once() {
    let mut shadow = CapabilityShadow::default();
    assert!(shadow.enable(glow::BLEND));
    assert!(!shadow.enable(glow::BLEND));
    assert!(shadow.disable(glow::BLEND));
    assert!(!shadow.disable(glow::BLEND));
    shadow.forget_all();
    assert!(shadow.disable(glow::BLEND));
    assert!(shadow.enable(0x1234), "an unknown capability is always sent");
    assert!(shadow.enable(0x1234));
}

#[test]
fn a_deleted_texture_is_bound_nowhere() {
    let mut shadow = TextureUnitShadow::default();
    assert!(shadow.bind(glow::TEXTURE0, Some(4)));
    assert!(!shadow.bind(glow::TEXTURE0, Some(4)));
    shadow.forget_texture(4);
    assert!(shadow.bind(glow::TEXTURE0, Some(4)));
    assert!(shadow.bind(glow::TEXTURE0 + 1, Some(4)));
}

#[test]
fn pixel_store_and_ranges_are_sent_where_they_differ() {
    let mut store = PixelStoreShadow::default();
    assert!(store.update(glow::UNPACK_ALIGNMENT, 1));
    assert!(!store.update(glow::UNPACK_ALIGNMENT, 1));
    assert!(store.update(glow::UNPACK_ALIGNMENT, 4));
    let mut ranges = IndexedUniformBufferShadow::default();
    let range = BufferRange { buffer: Some(3), offset: 0, size: 16 };
    assert!(ranges.update(0, range));
    assert!(!ranges.update(0, range));
    ranges.forget_all();
    assert!(ranges.update(0, range));
}

#[test]
fn both_framebuffer_slots_follow_the_joint_target() {
    let mut shadow = FramebufferShadow::default();
    assert!(shadow.update(glow::FRAMEBUFFER, Some(8)));
    assert!(!shadow.update(glow::READ_FRAMEBUFFER, Some(8)));
    assert!(!shadow.update(glow::DRAW_FRAMEBUFFER, Some(8)));
    assert!(shadow.update(glow::READ_FRAMEBUFFER, None));
    assert_eq!(shadow.get(glow::READ_FRAMEBUFFER), Some(None));
    assert_eq!(shadow.get(glow::DRAW_FRAMEBUFFER), Some(Some(8)));
}

#[test]
fn a_vertex_array_has_its_own_attributes() {
    let mut shadow = VertexArrayShadow::new();
    assert!(shadow.enable(0, 3));
    assert!(!shadow.enable(0, 3));
    assert!(shadow.enable(1, 3));
    assert!(shadow.update_divisor(1, 3, 2));
    assert!(!shadow.update_divisor(1, 3, 2));
    shadow.forget_vao(1);
    assert!(shadow.enable(1, 3));
    shadow.forget_all();
    assert!(shadow.disable(0, 3));
    assert!(!shadow.disable(0, 3));
    assert!(shadow.enable(0, 3));
    assert!(shadow.disable(2, 1));
}

#[test]
fn attributes_start_disabled_until_someone_else_paints() {
    let mut state = CanvasGLState::default();
    assert!(!state.vertex_attribs.disable(0, 3));
    state.invalidate_after_external_gl_use();
    assert!(state.vertex_attribs.disable(0, 3));
    assert!(!state.vertex_attribs.disable(0, 3));
}

#[test]
fn a_name_that_is_not_kept_is_always_issued() {
    let mut state = CanvasGLState::default();
    for _ in 0..2 {
        assert!(state.capabilities.enable(0x1234));
        assert!(state.capabilities.disable(0x1234));
        assert!(state.pixel_store_i32.update(0x1234, 1));
        assert!(state.bound_framebuffer.update(0x1234, Some(1)));
    }
}

#[test]
fn a_pointer_into_another_buffer_is_another_pointer() {
    let mut shadow = VertexArrayShadow::new();
    let fp = VertexAttribPointerFp {
        size: 3,
        type_: glow::FLOAT,
        normalized: false,
        stride: 12,
        offset: 0,
        array_buffer: Some(1),
    };
    assert!(shadow.update_pointer(0, 2, fp));
    assert!(!shadow.update_pointer(0, 2, fp));
    assert!(shadow.update_pointer(0, 2, VertexAttribPointerFp { array_buffer: Some(2), ..fp }));
    assert!(shadow.update_pointer(0, 32, fp));
    assert!(shadow.update_pointer(0, 32, fp));
}

#[test]
fn painting_behind_content_makes_its_calls_count_again() {
    let mut state = CanvasGLState::default();
    assert!(state.capabilities.enable(glow::BLEND));
    state.current_program = Some(5);
    state.invalidate_after_external_gl_use();
    assert!(state.capabilities.enable(glow::BLEND));
    assert_eq!(state.current_program, None);
    state.record_default_framebuffer_bind();
    assert!(state.draws_to_default_fbo);
}

#[test]
fn an_object_is_taken_for_deletion_once_and_with_its_owner() {
    let mut framebuffer = FramebufferMeta { gl_handle: Some(4), owner: 9, deleted: false };
    let taken = framebuffer.take_for_delete();
    assert_eq!(taken, Some(GlObject::Framebuffer { handle: 4, owner: 9 }));
    assert_eq!(taken.map(|o| o.owner()), Some(ObjectOwner::Canvas(9)));
    assert!(framebuffer.deleted);
    assert_eq!(framebuffer.take_for_delete(), None);
    let mut vao = VaoMeta { gl_handle: Some(5), owner: 9, deleted: false };
    assert_eq!(vao.take_for_delete(), Some(GlObject::VertexArray { handle: 5, owner: 9 }));
    let mut query = QueryMeta { gl_handle: Some(6), owner: 9, deleted: false };
    assert_eq!(query.take_for_delete(), Some(GlObject::Query { handle: 6, owner: 9 }));
    let mut feedback = TransformFeedbackMeta { gl_handle: None, owner: 9, deleted: false };
    assert_eq!(feedback.take_for_delete(), None);
    assert!(!feedback.deleted);
}

#[test]
fn an_object_of_another_canvas_is_refused() {
    assert_eq!(check_owner(Some(3), 3), Ok(()));
    assert_eq!(
        check_owner(Some(3), 4),
        Err(ForeignObject { owner: Some(3), canvas: 4 })
    );
    assert_eq!(check_owner(None, 4), Err(ForeignObject { owner: None, canvas: 4 }));
}

#[test]
fn a_canvas_that_goes_takes_only_its_own_objects() {
    let mut objects = SharedObjects::new();
    objects.record(SharedMeta { id: 1, gl_handle: Some(11), owner_canvas: Some(5) });
    objects.record(SharedMeta { id: 2, gl_handle: None, owner_canvas: Some(5) });
    objects.record(SharedMeta { id: 3, gl_handle: Some(13), owner_canvas: Some(6) });
    objects.record(SharedMeta { id: 4, gl_handle: Some(14), owner_canvas: None });
    objects.record(SharedMeta { id: 5, gl_handle: Some(15), owner_canvas: Some(5) });
    assert_eq!(objects.take_owned(5), vec![11, 15]);
    assert!(objects.take_owned(5).is_empty());
    assert_eq!(objects.take_owned(6), vec![13]);
}

#[test]
fn a_link_waits_once() {
    let mut links = LinkQueue::new();
    links.mark_link_pending(4);
    links.record(4);
    links.mark_link_pending(4);
    links.mark_link_pending(4);
    links.record(5);
    links.mark_link_pending(5);
    assert_eq!(links.pending(), vec![4, 5]);
    links.forget_pending_link(4);
    assert_eq!(links.pending(), vec![5]);
    links.mark_link_pending(4);
    assert_eq!(links.pending(), vec![5, 4]);
}
