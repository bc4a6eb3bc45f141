use graphics::egl_setup;
use graphics::gl;

#[test]
fn names_of_the_graphics_library_are_the_drivers() {
    assert_eq!(gl::NO_ERROR, glow::NO_ERROR);
    assert_eq!(gl::BLEND, glow::BLEND);
    assert_eq!(gl::CULL_FACE, glow::CULL_FACE);
    assert_eq!(gl::DEPTH_TEST, glow::DEPTH_TEST);
    assert_eq!(gl::DITHER, glow::DITHER);
    assert_eq!(gl::POLYGON_OFFSET_FILL, glow::POLYGON_OFFSET_FILL);
    assert_eq!(gl::SAMPLE_ALPHA_TO_COVERAGE, glow::SAMPLE_ALPHA_TO_COVERAGE);
    assert_eq!(gl::SAMPLE_COVERAGE, glow::SAMPLE_COVERAGE);
    assert_eq!(gl::SCISSOR_TEST, glow::SCISSOR_TEST);
    assert_eq!(gl::STENCIL_TEST, glow::STENCIL_TEST);
    assert_eq!(gl::RASTERIZER_DISCARD, glow::RASTERIZER_DISCARD);
    assert_eq!(gl::TEXTURE0, glow::TEXTURE0);
    assert_eq!(gl::TEXTURE_2D, glow::TEXTURE_2D);
    assert_eq!(gl::ACTIVE_TEXTURE, glow::ACTIVE_TEXTURE);
    assert_eq!(gl::TEXTURE_BINDING_2D, glow::TEXTURE_BINDING_2D);
    assert_eq!(gl::RENDERBUFFER_BINDING, glow::RENDERBUFFER_BINDING);
    assert_eq!(gl::TEXTURE_MIN_FILTER, glow::TEXTURE_MIN_FILTER);
    assert_eq!(gl::TEXTURE_MAG_FILTER, glow::TEXTURE_MAG_FILTER);
    assert_eq!(gl::TEXTURE_WRAP_S, glow::TEXTURE_WRAP_S);
    assert_eq!(gl::TEXTURE_WRAP_T, glow::TEXTURE_WRAP_T);
    assert_eq!(gl::CLAMP_TO_EDGE, glow::CLAMP_TO_EDGE);
    assert_eq!(gl::RGBA, glow::RGBA);
    assert_eq!(gl::RGBA8, glow::RGBA8);
    assert_eq!(gl::DEPTH24_STENCIL8, glow::DEPTH24_STENCIL8);
    assert_eq!(gl::COLOR_ATTACHMENT0, glow::COLOR_ATTACHMENT0);
    assert_eq!(gl::DEPTH_STENCIL_ATTACHMENT, glow::DEPTH_STENCIL_ATTACHMENT);
    assert_eq!(gl::FRONT, glow::FRONT);
    assert_eq!(gl::BACK, glow::BACK);
    assert_eq!(gl::FRONT_AND_BACK, glow::FRONT_AND_BACK);
    assert_eq!(gl::PACK_ALIGNMENT, glow::PACK_ALIGNMENT);
    assert_eq!(gl::UNPACK_ALIGNMENT, glow::UNPACK_ALIGNMENT);
    assert_eq!(gl::UNPACK_ROW_LENGTH, glow::UNPACK_ROW_LENGTH);
    assert_eq!(gl::UNPACK_SKIP_PIXELS, glow::UNPACK_SKIP_PIXELS);
    assert_eq!(gl::UNPACK_SKIP_ROWS, glow::UNPACK_SKIP_ROWS);
    assert_eq!(gl::UNPACK_IMAGE_HEIGHT, glow::UNPACK_IMAGE_HEIGHT);
    assert_eq!(gl::UNPACK_SKIP_IMAGES, glow::UNPACK_SKIP_IMAGES);
    assert_eq!(gl::PACK_ROW_LENGTH, glow::PACK_ROW_LENGTH);
    assert_eq!(gl::PACK_SKIP_PIXELS, glow::PACK_SKIP_PIXELS);
    assert_eq!(gl::PACK_SKIP_ROWS, glow::PACK_SKIP_ROWS);
    assert_eq!(gl::PIXEL_PACK_BUFFER, glow::PIXEL_PACK_BUFFER);
    assert_eq!(gl::PIXEL_UNPACK_BUFFER, glow::PIXEL_UNPACK_BUFFER);
    assert_eq!(gl::PIXEL_PACK_BUFFER_BINDING, glow::PIXEL_PACK_BUFFER_BINDING);
    assert_eq!(gl::PIXEL_UNPACK_BUFFER_BINDING, glow::PIXEL_UNPACK_BUFFER_BINDING);
    assert_eq!(gl::FRAMEBUFFER, glow::FRAMEBUFFER);
    assert_eq!(gl::READ_FRAMEBUFFER, glow::READ_FRAMEBUFFER);
    assert_eq!(gl::DRAW_FRAMEBUFFER, glow::DRAW_FRAMEBUFFER);
    assert_eq!(gl::FRAMEBUFFER_BINDING, glow::FRAMEBUFFER_BINDING);
    assert_eq!(gl::DRAW_FRAMEBUFFER_BINDING, glow::DRAW_FRAMEBUFFER_BINDING);
    assert_eq!(gl::READ_FRAMEBUFFER_BINDING, glow::READ_FRAMEBUFFER_BINDING);
    assert_eq!(gl::FRAMEBUFFER_COMPLETE, glow::FRAMEBUFFER_COMPLETE);
    assert_eq!(gl::COLOR_BUFFER_BIT, glow::COLOR_BUFFER_BIT);
    assert_eq!(gl::NEAREST, glow::NEAREST);
    assert_eq!(gl::LINEAR, glow::LINEAR);
    assert_eq!(gl::ALREADY_SIGNALED, glow::ALREADY_SIGNALED);
    assert_eq!(gl::TIMEOUT_EXPIRED, glow::TIMEOUT_EXPIRED);
    assert_eq!(gl::CONDITION_SATISFIED, glow::CONDITION_SATISFIED);
    assert_eq!(gl::WAIT_FAILED, glow::WAIT_FAILED);
}

#[test]
fn names_of_the_display_are_the_drivers() {
    assert_eq!(egl_setup::EGL_ALPHA_SIZE, khronos_egl::ALPHA_SIZE);
    assert_eq!(egl_setup::EGL_BLUE_SIZE, khronos_egl::BLUE_SIZE);
    assert_eq!(egl_setup::EGL_GREEN_SIZE, khronos_egl::GREEN_SIZE);
    assert_eq!(egl_setup::EGL_RED_SIZE, khronos_egl::RED_SIZE);
    assert_eq!(egl_setup::EGL_DEPTH_SIZE, khronos_egl::DEPTH_SIZE);
    assert_eq!(egl_setup::EGL_STENCIL_SIZE, khronos_egl::STENCIL_SIZE);
    assert_eq!(egl_setup::EGL_SURFACE_TYPE, khronos_egl::SURFACE_TYPE);
    assert_eq!(egl_setup::EGL_NONE, khronos_egl::NONE);
    assert_eq!(egl_setup::EGL_RENDERABLE_TYPE, khronos_egl::RENDERABLE_TYPE);
    assert_eq!(egl_setup::EGL_PBUFFER_BIT, khronos_egl::PBUFFER_BIT);
    assert_eq!(egl_setup::EGL_WINDOW_BIT, khronos_egl::WINDOW_BIT);
    assert_eq!(egl_setup::EGL_OPENGL_ES2_BIT, khronos_egl::OPENGL_ES2_BIT);
    assert_eq!(egl_setup::EGL_HEIGHT, khronos_egl::HEIGHT);
    assert_eq!(egl_setup::EGL_WIDTH, khronos_egl::WIDTH);
    assert_eq!(
        egl_setup::EGL_CONTEXT_CLIENT_VERSION,
        khronos_egl::CONTEXT_CLIENT_VERSION
    );
}
