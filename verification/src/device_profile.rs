//! Upload budgets and optional paths, chosen from what the device can do.
use vstd::prelude::*;

use crate::device_caps::DeviceCapabilities;
use crate::device_caps::DeviceTier;

verus! {

/// Which rule chose a profile.
#[derive(Debug, Clone, Copy, PartialEq, Eq, Structural)]
pub enum DeviceProfileSource {
    /// The device is of the conservative tier, whatever its platform.
    TierBDevice,
    /// Android at API level 23 or below (0 is an unreadable level).
    AndroidOldApi { level: u32 },
    /// Android above API level 23.
    AndroidModernApi { level: u32 },
    /// Any other platform.
    NonAndroid,
}

/// What a session may spend per frame and which paths it may take.
#[derive(Debug, Clone, Copy, PartialEq, Eq, Structural)]
pub struct DeviceRenderProfile {
    pub max_upload_jobs_per_frame: usize,
    pub max_upload_bytes_per_frame: usize,
    pub enable_partial_damage: bool,
    pub enable_layer_cache: bool,
    pub source: DeviceProfileSource,
}

/// The conservative profile: one upload of at most 512 KiB per frame.
pub open spec fn conservative(source: DeviceProfileSource) -> DeviceRenderProfile {
    DeviceRenderProfile {
        max_upload_jobs_per_frame: 1,
        max_upload_bytes_per_frame: 524288,
        enable_partial_damage: false,
        enable_layer_cache: false,
        source,
    }
}

/// The profile of a device on a platform; `None` is any platform but Android.
pub open spec fn profile_for(
    caps: DeviceCapabilities,
    android_api: Option<u32>,
) -> DeviceRenderProfile {
    profile_of_tier(caps, android_api, caps.spec_tier())
}

/// The profile that a tier has on a platform.
pub open spec fn profile_of_tier(
    caps: DeviceCapabilities,
    android_api: Option<u32>,
    tier: DeviceTier,
) -> DeviceRenderProfile {
    if tier == DeviceTier::TierB {
        conservative(DeviceProfileSource::TierBDevice)
    } else {
        match android_api {
            Some(level) if level <= 23 => conservative(DeviceProfileSource::AndroidOldApi { level }),
            _ => DeviceRenderProfile {
                max_upload_jobs_per_frame: 4,
                max_upload_bytes_per_frame: 4194304,
                enable_partial_damage: caps.has_fence_sync,
                enable_layer_cache: true,
                source: match android_api {
                    None => DeviceProfileSource::NonAndroid,
                    Some(level) => DeviceProfileSource::AndroidModernApi { level },
                },
            },
        }
    }
}

impl DeviceRenderProfile {
    /// The profile of the detected device on Android at `api_level`.
    pub fn from_detected_device(caps: &DeviceCapabilities, api_level: u32) -> (profile: Self)
        ensures
            profile == profile_for(*caps, Some(api_level)),
    {
        let tier = caps.tier();
        Self::from_tier(caps, api_level, tier)
    }

    /// The profile of the detected device; `None` is any platform but Android.
    pub fn from_detected_device_platform(
        caps: &DeviceCapabilities,
        android_api: Option<u32>,
    ) -> (profile: Self)
        ensures
            profile == profile_for(*caps, android_api),
    {
        let tier = caps.tier();
        Self::from_tier_with_api(caps, android_api, tier)
    }

    /// The profile of the detected device on Android, for callers that carry a tier of
    /// their own. The detected tier decides; `tier` has no influence, and whether it agrees is
    /// not checked in any build.
    pub fn from_caps(caps: &DeviceCapabilities, api_level: u32, tier: DeviceTier) -> (profile: Self)
        ensures
            profile == profile_for(*caps, Some(api_level)),
    {
        let _ = tier;
        let detected_tier = caps.tier();
        Self::from_tier(caps, api_level, detected_tier)
    }

    fn from_tier(caps: &DeviceCapabilities, api_level: u32, tier: DeviceTier) -> (profile: Self)
        ensures
            profile == profile_of_tier(*caps, Some(api_level), tier),
    {
        Self::from_tier_with_api(caps, Some(api_level), tier)
    }

    fn from_tier_with_api(
        caps: &DeviceCapabilities,
        android_api: Option<u32>,
        tier: DeviceTier,
    ) -> (profile: Self)
        ensures
            profile == profile_of_tier(*caps, android_api, tier),
    {
        if tier == DeviceTier::TierB {
            return DeviceRenderProfile {
                max_upload_jobs_per_frame: 1,
                max_upload_bytes_per_frame: 512 * 1024,
                enable_partial_damage: false,
                enable_layer_cache: false,
                source: DeviceProfileSource::TierBDevice,
            };
        }
        let source = match android_api {
            None => DeviceProfileSource::NonAndroid,
            Some(level) => {
                if level <= 23 {
                    return DeviceRenderProfile {
                        max_upload_jobs_per_frame: 1,
                        max_upload_bytes_per_frame: 512 * 1024,
                        enable_partial_damage: false,
                        enable_layer_cache: false,
                        source: DeviceProfileSource::AndroidOldApi { level },
                    };
                }
                DeviceProfileSource::AndroidModernApi { level }
            },
        };
        DeviceRenderProfile {
            max_upload_jobs_per_frame: 4,
            max_upload_bytes_per_frame: 4 * 1024 * 1024,
            enable_partial_damage: caps.has_fence_sync,
            enable_layer_cache: true,
            source,
        }
    }
}

/// Being on a platform other than Android is not Android at API level 0: for every
/// device of the capable tier the two profiles differ, and only the first is generous.
pub proof fn law_other_platforms_are_not_api_zero(caps: DeviceCapabilities)
    requires
        caps.spec_tier() == DeviceTier::TierA,
    ensures
        profile_for(caps, None) != profile_for(caps, Some(0)),
        profile_for(caps, None).max_upload_jobs_per_frame == 4,
        profile_for(caps, Some(0)).max_upload_jobs_per_frame == 1,
{
}

/// Every profile admits at least one upload per frame, and partial damage is never
/// enabled on a device that cannot order it with fences.
pub proof fn law_profiles_make_progress(caps: DeviceCapabilities, android_api: Option<u32>)
    ensures
        profile_for(caps, android_api).max_upload_jobs_per_frame >= 1,
        profile_for(caps, android_api).max_upload_bytes_per_frame >= 524288,
        profile_for(caps, android_api).enable_partial_damage ==> caps.has_fence_sync,
{
}

/// A device gets the generous profile exactly if it is of the capable tier and its platform is
/// not an Android of level 23 or below: four uploads and four mebibytes a frame, layers cached,
/// partial damage where there are fences. Every other device gets one upload and half a
/// mebibyte, and neither of the two paths. The source says which rule has decided.
pub proof fn law_a_profile_goes_by_tier_and_platform(
    caps: DeviceCapabilities,
    api: Option<u32>,
    tier: DeviceTier,
    profile: DeviceRenderProfile,
)
    requires
        call_ensures(DeviceCapabilities::tier, (&caps,), tier),
        call_ensures(DeviceRenderProfile::from_detected_device_platform, (&caps, api), profile),
    ensures
        ({
            let generous = tier == DeviceTier::TierA && !(api matches Some(level) && level < 24);
            &&& profile.max_upload_jobs_per_frame == if generous { 4 } else { 1int }
            &&& profile.max_upload_bytes_per_frame == if generous { 4194304 } else { 524288int }
            &&& profile.enable_layer_cache == generous
            &&& profile.enable_partial_damage == (generous && caps.has_fence_sync)
            &&& profile.source == match (tier, api) {
                (DeviceTier::TierB, _) => DeviceProfileSource::TierBDevice,
                (DeviceTier::TierA, None) => DeviceProfileSource::NonAndroid,
                (DeviceTier::TierA, Some(level)) => if level < 24 {
                    DeviceProfileSource::AndroidOldApi { level }
                } else {
                    DeviceProfileSource::AndroidModernApi { level }
                },
            }
        }),
{
}

/// An Android level is a platform: whichever way a device's profile on it is asked for, the
/// answer is the same, and a tier that a caller brings along changes nothing.
pub proof fn law_every_way_to_a_profile_agrees(
    caps: DeviceCapabilities,
    level: u32,
    claimed: DeviceTier,
    first: DeviceRenderProfile,
    second: DeviceRenderProfile,
    third: DeviceRenderProfile,
)
    requires
        call_ensures(DeviceRenderProfile::from_detected_device, (&caps, level), first),
        call_ensures(
            DeviceRenderProfile::from_detected_device_platform,
            (&caps, Some(level)),
            second,
        ),
        call_ensures(DeviceRenderProfile::from_caps, (&caps, level, claimed), third),
    ensures
        first == second,
        second == third,
{
}

} // verus!
