//! Runtime device capability detection and tier classification.
//!
//! Probed once when the first context is created. The resulting [`DeviceTier`]
//! decides which optimisation paths a session may take.
use vstd::prelude::*;

use crate::device_profile::DeviceRenderProfile;
use crate::text::has_extension;
use crate::text::parse_gles_version;

verus! {

/// Compressed texture formats that the driver samples natively.
#[derive(Debug, Clone, Copy, PartialEq, Eq, Structural)]
pub struct CompressedFormatSupport {
    pub etc2: bool,
    pub astc: bool,
}

/// Runtime-detected device capabilities.
#[derive(Debug, Clone, Copy)]
pub struct DeviceCapabilities {
    pub gles_version: (u32, u32),
    /// `GL_NV_pixel_buffer_object` or ES 3.0+.
    pub has_pbo: bool,
    /// `glFenceSync` available (ES 3.0+).
    pub has_fence_sync: bool,
    /// Compute shaders available (ES 3.1+).
    pub has_compute: bool,
    /// `AHardwareBuffer` available (Android API 26+).
    pub ahb_available: bool,
    /// Buffer age can be queried: `EGL_EXT_buffer_age` or `EGL_KHR_partial_update`.
    pub has_buffer_age: bool,
    /// `EGL_EXT_buffer_age` itself is advertised. It guarantees the aged contents of
    /// the back buffer whether or not a damage region was declared.
    pub has_ext_buffer_age: bool,
    /// `EGL_KHR_partial_update`: a damage region can be declared before drawing.
    pub has_partial_update: bool,
    /// Compressed texture formats.
    pub compressed_format_support: CompressedFormatSupport,
    /// `GL_KHR_parallel_shader_compile`: a link can be polled without blocking.
    pub has_parallel_shader_compile: bool,
}

/// Coarse device classification that gates optimisation paths.
#[derive(Debug, Clone, Copy, PartialEq, Eq, Structural)]
pub enum DeviceTier {
    /// ES 3.0+, PBO and fence sync.
    TierA,
    /// ES 2.0 or a driver that lacks one of them.
    TierB,
}

/// Version `v` is at least `major.minor`.
pub open spec fn version_at_least(v: (u32, u32), major: u32, minor: u32) -> bool {
    v.0 > major || (v.0 == major && v.1 >= minor)
}

fn at_least(v: (u32, u32), major: u32, minor: u32) -> (b: bool)
    ensures
        b == version_at_least(v, major, minor),
{
    v.0 > major || (v.0 == major && v.1 >= minor)
}

/// Whether the platform can import hardware buffers: Android, API 26 or later.
/// `None` is a platform other than Android.
pub fn ahb_api_supported(android_api: Option<u32>) -> (b: bool)
    ensures
        b == (android_api matches Some(level) && level >= 26),
{
    match android_api {
        Some(level) => level >= 26,
        None => false,
    }
}

/// What the driver's version string is worth in a context of the given major version.
/// A context of ES 2 may lack ES 3 entry points whatever its version string says.
pub open spec fn clamped_version(detected: (u32, u32), negotiated_major: u32) -> (u32, u32) {
    if negotiated_major >= 3 || detected.0 <= negotiated_major {
        detected
    } else {
        (negotiated_major, detected.1)
    }
}

/// The driver strings from which capabilities are read.
pub struct DriverStrings<'a> {
    /// `glGetString(GL_VERSION)`.
    pub gl_version: &'a str,
    /// `glGetString(GL_EXTENSIONS)`.
    pub gl_extensions: &'a str,
    /// `eglQueryString(display, EGL_EXTENSIONS)`, empty where unavailable.
    pub egl_extensions: &'a str,
}

impl DeviceCapabilities {
    /// The tier of a device with these capabilities.
    pub open spec fn spec_tier(self) -> DeviceTier {
        if version_at_least(self.gles_version, 3, 0) && self.has_fence_sync && self.has_pbo {
            DeviceTier::TierA
        } else {
            DeviceTier::TierB
        }
    }

    /// Read the capabilities out of the driver's strings.
    ///
    /// `negotiated_gles_major` is the version that the context was created with.
    /// `android_api` is the platform's API level, `None` on other platforms. Where the display's
    /// extensions are not to be had, hardware buffers go by the library's alone.
    pub fn detect(
        strings: &DriverStrings,
        negotiated_gles_major: u32,
        android_api: Option<u32>,
        compressed_format_support: CompressedFormatSupport,
    ) -> (caps: Self)
        ensures
            forall|dot: int| #[trigger]
                crate::text::is_first_dot(strings.gl_version@, dot) ==> caps.gles_version
                    == clamped_version(
                    crate::text::version_around(strings.gl_version@, dot),
                    negotiated_gles_major,
                ),
            !strings.gl_version@.contains('.') ==> caps.gles_version == clamped_version(
                (2u32, 0u32),
                negotiated_gles_major,
            ),
            caps.has_pbo == (version_at_least(caps.gles_version, 3, 0)
                || crate::text::lists_token(
                strings.gl_extensions@,
                "GL_NV_pixel_buffer_object"@,
            )),
            caps.has_fence_sync == version_at_least(caps.gles_version, 3, 0),
            caps.has_compute == version_at_least(caps.gles_version, 3, 1),
            caps.ahb_available == ((android_api matches Some(level) && level >= 26)
                && crate::text::lists_token(strings.gl_extensions@, "GL_OES_EGL_image"@)
                && (strings.egl_extensions@.len() == 0 || crate::text::lists_token(
                strings.egl_extensions@,
                "EGL_ANDROID_image_native_buffer"@,
            ))),
            caps.has_ext_buffer_age == crate::text::lists_token(
                strings.egl_extensions@,
                "EGL_EXT_buffer_age"@,
            ),
            caps.has_partial_update == crate::text::lists_token(
                strings.egl_extensions@,
                "EGL_KHR_partial_update"@,
            ),
            caps.has_buffer_age == (caps.has_ext_buffer_age || caps.has_partial_update),
            caps.compressed_format_support == compressed_format_support,
            caps.has_parallel_shader_compile == crate::text::lists_token(
                strings.gl_extensions@,
                "GL_KHR_parallel_shader_compile"@,
            ),
    {
        let detected = parse_gles_version(strings.gl_version);
        let gles_version = if negotiated_gles_major >= 3 || detected.0 <= negotiated_gles_major {
            detected
        } else {
            (negotiated_gles_major, detected.1)
        };
        let has_pbo = at_least(gles_version, 3, 0) || has_extension(
            strings.gl_extensions,
            "GL_NV_pixel_buffer_object",
        );
        let has_fence_sync = at_least(gles_version, 3, 0);
        let has_compute = at_least(gles_version, 3, 1);
        let ahb_available = ahb_api_supported(android_api) && has_extension(
            strings.gl_extensions,
            "GL_OES_EGL_image",
        ) && (strings.egl_extensions.unicode_len() == 0 || has_extension(
            strings.egl_extensions,
            "EGL_ANDROID_image_native_buffer",
        ));
        let has_ext_buffer_age = has_extension(strings.egl_extensions, "EGL_EXT_buffer_age");
        let has_partial_update = has_extension(strings.egl_extensions, "EGL_KHR_partial_update");
        let has_parallel_shader_compile = has_extension(
            strings.gl_extensions,
            "GL_KHR_parallel_shader_compile",
        );
        DeviceCapabilities {
            gles_version,
            has_pbo,
            has_fence_sync,
            has_compute,
            ahb_available,
            has_buffer_age: has_ext_buffer_age || has_partial_update,
            has_ext_buffer_age,
            has_partial_update,
            compressed_format_support,
            has_parallel_shader_compile,
        }
    }

    /// The tier of this device.
    pub fn tier(&self) -> (tier: DeviceTier)
        ensures
            tier == self.spec_tier(),
    {
        if at_least(self.gles_version, 3, 0) && self.has_fence_sync && self.has_pbo {
            DeviceTier::TierA
        } else {
            DeviceTier::TierB
        }
    }

    /// The render profile of this device on Android.
    pub fn render_profile(&self, api_level: u32) -> (profile: DeviceRenderProfile)
        ensures
            profile == crate::device_profile::profile_for(*self, Some(api_level)),
    {
        DeviceRenderProfile::from_detected_device(self, api_level)
    }

    /// The render profile of this device with the platform's identity preserved.
    /// `None` is a platform other than Android; it is not API level 0.
    pub fn render_profile_for_platform(&self, android_api: Option<u32>) -> (profile:
        DeviceRenderProfile)
        ensures
            profile == crate::device_profile::profile_for(*self, android_api),
    {
        DeviceRenderProfile::from_detected_device_platform(self, android_api)
    }
}

/// On a context negotiated below ES 3 no capability of ES 3 is claimed from the
/// version string: the device is of the conservative tier.
pub proof fn law_negotiated_major_bounds_the_tier(
    caps: DeviceCapabilities,
    detected: (u32, u32),
    negotiated_major: u32,
)
    requires
        negotiated_major < 3,
        caps.gles_version == clamped_version(detected, negotiated_major),
    ensures
        caps.spec_tier() == DeviceTier::TierB,
{
}

/// Versions are ordered by their major part, and within it by their minor part: the order is
/// total, two versions that are each at least the other are the same, and what a version is at
/// least every later version is too.
pub proof fn law_versions_are_totally_ordered(v: (u32, u32), w: (u32, u32), x: (u32, u32))
    ensures
        version_at_least(v, w.0, w.1) || version_at_least(w, v.0, v.1),
        version_at_least(v, w.0, w.1) && version_at_least(w, v.0, v.1) ==> v == w,
        version_at_least(v, w.0, w.1) && version_at_least(w, x.0, x.1) ==> version_at_least(
            v,
            x.0,
            x.1,
        ),
        v.0 > w.0 ==> version_at_least(v, w.0, w.1),
        v.0 == w.0 && v.1 >= w.1 ==> version_at_least(v, w.0, w.1),
{
}

/// Every device of version three or later has pixel buffers and fences and is of the capable
/// tier; it has compute shaders unless it is of version three and no more. An earlier one has
/// neither fences nor compute shaders and is of the conservative tier.
pub proof fn law_version_three_is_capable(
    strings: DriverStrings,
    negotiated: u32,
    android_api: Option<u32>,
    formats: CompressedFormatSupport,
    caps: DeviceCapabilities,
    tier: DeviceTier,
)
    requires
        call_ensures(
            DeviceCapabilities::detect,
            (&strings, negotiated, android_api, formats),
            caps,
        ),
        call_ensures(DeviceCapabilities::tier, (&caps,), tier),
    ensures
        caps.gles_version.0 >= 3 ==> caps.has_pbo && caps.has_fence_sync && tier
            == DeviceTier::TierA,
        caps.gles_version.0 > 3 ==> caps.has_compute,
        caps.gles_version.0 == 3 ==> caps.has_compute == (caps.gles_version.1 >= 1),
        caps.gles_version.0 < 3 ==> !caps.has_fence_sync && !caps.has_compute && tier
            == DeviceTier::TierB,
{
}

/// A device of a later version has every capability that comes with a version and that an
/// earlier one has, and is never of a lower tier.
pub proof fn law_later_versions_are_no_less_capable(
    earlier: DriverStrings,
    later: DriverStrings,
    negotiated: u32,
    android_api: Option<u32>,
    formats: CompressedFormatSupport,
    first: DeviceCapabilities,
    second: DeviceCapabilities,
    first_tier: DeviceTier,
    second_tier: DeviceTier,
)
    requires
        call_ensures(
            DeviceCapabilities::detect,
            (&earlier, negotiated, android_api, formats),
            first,
        ),
        call_ensures(DeviceCapabilities::detect, (&later, negotiated, android_api, formats), second),
        call_ensures(DeviceCapabilities::tier, (&first,), first_tier),
        call_ensures(DeviceCapabilities::tier, (&second,), second_tier),
        second.gles_version.0 > first.gles_version.0 || (second.gles_version.0 == first.gles_version.0
            && second.gles_version.1 >= first.gles_version.1),
    ensures
        first.has_fence_sync ==> second.has_fence_sync,
        first.has_compute ==> second.has_compute,
        first_tier == DeviceTier::TierA ==> second_tier == DeviceTier::TierA,
{
}

/// A context's version bounds what a version string is worth: never more than either says,
/// and exactly what the string says in a context of version three or later.
pub proof fn law_a_version_is_worth_its_context(detected: (u32, u32), negotiated: u32)
    ensures
        clamped_version(detected, negotiated).0 <= detected.0,
        negotiated < 3 ==> clamped_version(detected, negotiated).0 <= negotiated,
        negotiated >= 3 || detected.0 <= negotiated ==> clamped_version(detected, negotiated)
            == detected,
        negotiated < detected.0 && negotiated < 3 ==> clamped_version(detected, negotiated).0
            == negotiated,
{
}

/// Hardware buffers come with a platform level: they are there from level 26 on, and nowhere
/// but on that platform.
pub proof fn law_hardware_buffers_come_with_a_level(api: Option<u32>, b: bool)
    requires
        call_ensures(ahb_api_supported, (api,), b),
    ensures
        api is None ==> !b,
        api matches Some(level) ==> (level > 25 ==> b) && (level < 26 ==> !b),
{
}

/// A capability that an extension brings is there exactly where its own name is listed as a
/// word. The age of a buffer is told by either of two; hardware buffers need the platform's
/// level, the library's extension and, where its names are known, the display's.
pub proof fn law_capabilities_come_by_their_names(
    strings: DriverStrings,
    negotiated: u32,
    android_api: Option<u32>,
    formats: CompressedFormatSupport,
    caps: DeviceCapabilities,
)
    requires
        call_ensures(
            DeviceCapabilities::detect,
            (&strings, negotiated, android_api, formats),
            caps,
        ),
    ensures
        caps.has_ext_buffer_age == crate::text::lists_token(
            strings.egl_extensions@,
            "EGL_EXT_buffer_age"@,
        ),
        caps.has_partial_update == crate::text::lists_token(
            strings.egl_extensions@,
            "EGL_KHR_partial_update"@,
        ),
        caps.has_ext_buffer_age || caps.has_partial_update ==> caps.has_buffer_age,
        caps.has_buffer_age ==> caps.has_ext_buffer_age || caps.has_partial_update,
        caps.has_parallel_shader_compile == crate::text::lists_token(
            strings.gl_extensions@,
            "GL_KHR_parallel_shader_compile"@,
        ),
        crate::text::lists_token(strings.gl_extensions@, "GL_NV_pixel_buffer_object"@)
            ==> caps.has_pbo,
        android_api is None ==> !caps.ahb_available,
        android_api matches Some(level) ==> level < 26 ==> !caps.ahb_available,
        !crate::text::lists_token(strings.gl_extensions@, "GL_OES_EGL_image"@)
            ==> !caps.ahb_available,
        android_api matches Some(level) ==> level >= 26 && crate::text::lists_token(
            strings.gl_extensions@,
            "GL_OES_EGL_image"@,
        ) && strings.egl_extensions@.len() == 0 ==> caps.ahb_available,
        strings.egl_extensions@.len() > 0 && !crate::text::lists_token(
            strings.egl_extensions@,
            "EGL_ANDROID_image_native_buffer"@,
        ) ==> !caps.ahb_available,
        caps.compressed_format_support == formats,
{
}

} // verus!
