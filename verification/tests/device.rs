use graphics::device_caps::{
    ahb_api_supported, CompressedFormatSupport, DeviceCapabilities, DeviceTier, DriverStrings,
};
use graphics::device_profile::{DeviceProfileSource, DeviceRenderProfile};
use graphics::text::{api_level_from_property, contains_text, has_extension, parse_gles_version};

fn caps(major: u32, modern: bool) -> DeviceCapabilities {
    DeviceCapabilities {
        has_parallel_shader_compile: false,
        gles_version: (major, 0),
        has_pbo: modern,
        has_fence_sync: modern,
        has_compute: false,
        ahb_available: false,
        has_buffer_age: false,
        has_ext_buffer_age: false,
        has_partial_update: false,
        compressed_format_support: CompressedFormatSupport { etc2: modern, astc: false },
    }
}

#[test]
fn parse_gles_versions() {
    assert_eq!(parse_gles_version("OpenGL ES 3.1 v1.r28p0"), (3, 1));
    assert_eq!(parse_gles_version("OpenGL ES 3.0"), (3, 0));
    assert_eq!(parse_gles_version("OpenGL ES 2.0"), (2, 0));
    assert_eq!(parse_gles_version("4.6.0 NVIDIA 535"), (4, 6));
    assert_eq!(parse_gles_version("garbage"), (2, 0));
}

#[test]
fn extension_matching_is_token_exact() {
    assert!(has_extension(
        "GL_EXT_debug_marker GL_OES_EGL_image GL_EXT_texture",
        "GL_OES_EGL_image"
    ));
    assert!(!has_extension(
        "GL_OES_EGL_image_external GL_OES_EGL_image_external_essl3",
        "GL_OES_EGL_image"
    ));
}

#[test]
fn ahb_api_gate_preserves_non_android_and_api_26_boundary() {
    assert!(!ahb_api_supported(None));
    assert!(!ahb_api_supported(Some(25)));
    assert!(ahb_api_supported(Some(26)));
    assert!(ahb_api_supported(Some(35)));
}

#[test]
fn api23_tier_b_device_uses_conservative_profile() {
    let caps = caps(2, false);
    let profile = DeviceRenderProfile::from_caps(&caps, 23, DeviceTier::TierB);
    assert_eq!(profile.max_upload_jobs_per_frame, 1);
    assert!(!profile.enable_partial_damage);
}

#[test]
fn api24_tier_a_device_uses_aggressive_profile() {
    let caps = caps(3, true);
    let profile = DeviceRenderProfile::from_caps(&caps, 24, DeviceTier::TierA);
    assert_eq!(profile.max_upload_jobs_per_frame, 4);
    assert_eq!(profile.max_upload_bytes_per_frame, 4 * 1024 * 1024);
    assert!(profile.enable_partial_damage);
    assert!(profile.enable_layer_cache);
}

#[test]
fn from_caps_uses_detected_tier_when_caller_input_disagrees() {
    let caps = caps(2, false);
    assert_eq!(caps.tier(), DeviceTier::TierB);

    let render_profile = caps.render_profile(24);
    let detected_profile = DeviceRenderProfile::from_detected_device(&caps, 24);
    assert_eq!(render_profile, detected_profile);
    assert_eq!(render_profile.max_upload_jobs_per_frame, 1);
    assert!(!render_profile.enable_partial_damage);

    let mismatched = DeviceRenderProfile::from_caps(&caps, 24, DeviceTier::TierA);
    assert_eq!(mismatched, render_profile);
}

#[test]
fn non_android_tier_a_profile_is_explicit_and_not_api_zero() {
    let caps = caps(3, true);
    let profile = DeviceRenderProfile::from_detected_device_platform(&caps, None);
    assert_eq!(profile.source, DeviceProfileSource::NonAndroid);
    assert_eq!(profile.max_upload_jobs_per_frame, 4);
    assert_eq!(profile.max_upload_bytes_per_frame, 4 * 1024 * 1024);
}

#[test]
fn capabilities_follow_from_what_the_driver_says() {
    let strings = DriverStrings {
        gl_version: "OpenGL ES 3.1 v1.r28p0",
        gl_extensions: "GL_OES_EGL_image GL_KHR_parallel_shader_compile",
        egl_extensions: "EGL_ANDROID_get_native_client_buffer EGL_KHR_image_base EGL_EXT_buffer_age",
    };
    let found = DeviceCapabilities::detect(
        &strings,
        3,
        Some(26),
        CompressedFormatSupport { etc2: true, astc: true },
    );
    assert_eq!(found.gles_version, (3, 1));
    assert!(found.has_pbo);
    assert!(found.has_fence_sync);
    assert!(found.has_compute);
    assert!(found.has_buffer_age);
    assert!(found.has_ext_buffer_age);
    assert!(!found.has_partial_update);
    assert_eq!(found.tier(), DeviceTier::TierA);
}

#[test]
fn without_display_extensions_hardware_buffers_go_by_the_library() {
    let detect = |egl_extensions: &'static str, gl_extensions: &'static str, api| {
        let strings =
            DriverStrings { gl_version: "OpenGL ES 3.1", gl_extensions, egl_extensions };
        DeviceCapabilities::detect(
            &strings,
            3,
            Some(api),
            CompressedFormatSupport { etc2: true, astc: true },
        )
        .ahb_available
    };
    assert!(detect("", "GL_OES_EGL_image", 26));
    assert!(!detect("", "GL_OES_EGL_image", 25));
    assert!(!detect("", "GL_OES_mapbuffer", 26));
    assert!(!detect("EGL_KHR_image_base", "GL_OES_EGL_image", 26));
}

#[test]
fn an_extension_is_not_found_in_part_of_another() {
    assert!(!has_extension("", "GL_OES_EGL_image"));
    assert!(has_extension("GL_OES_EGL_image", "GL_OES_EGL_image"));
    assert!(contains_text("OpenGL ES 3.2", "ES 3"));
    assert!(!contains_text("OpenGL ES 2.0", "ES 3"));
}

#[test]
fn an_api_level_that_is_no_number_is_zero() {
    assert_eq!(api_level_from_property("26"), 26);
    assert_eq!(api_level_from_property("nonsense"), 0);
    assert_eq!(api_level_from_property(""), 0);
}
