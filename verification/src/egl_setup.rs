//! Bringing a display up and taking it down.
//!
//! The driver's entry points come in as functions: each of them may answer anything,
//! and the contracts say what follows from its answer.
use vstd::prelude::*;

use crate::text::contains_text;

verus! {

/// What an EGL call reports when it fails.
#[derive(Clone, Copy, Debug, PartialEq, Eq, Structural)]
pub enum EglError {
    NotInitialized,
    BadAccess,
    BadAlloc,
    BadAttribute,
    BadContext,
    BadConfig,
    BadCurrentSurface,
    BadDisplay,
    BadSurface,
    BadMatch,
    BadParameter,
    BadNativePixmap,
    BadNativeWindow,
    ContextLost,
}

/// What a failed swap says of the session.
#[derive(Clone, Copy, Debug, PartialEq, Eq, Structural)]
pub enum EglSwapFailureClass {
    /// Every object of the share group is gone.
    ContextLost,
    /// The native presentation target is no longer usable.
    SurfaceLost,
    /// The swap may be tried again.
    Other,
}

/// The errors that prove the native presentation target unusable.
pub open spec fn loses_the_surface(error: EglError) -> bool {
    error == EglError::BadCurrentSurface || error == EglError::BadSurface || error
        == EglError::BadNativeWindow || error == EglError::BadDisplay
}

/// Classify the error of a failed swap.
pub fn classify_egl_swap_failure(error: EglError) -> (class: EglSwapFailureClass)
    ensures
        class == (if error == EglError::ContextLost {
            EglSwapFailureClass::ContextLost
        } else if loses_the_surface(error) {
            EglSwapFailureClass::SurfaceLost
        } else {
            EglSwapFailureClass::Other
        }),
{
    match error {
        EglError::ContextLost => EglSwapFailureClass::ContextLost,
        EglError::BadCurrentSurface => EglSwapFailureClass::SurfaceLost,
        EglError::BadSurface => EglSwapFailureClass::SurfaceLost,
        EglError::BadNativeWindow => EglSwapFailureClass::SurfaceLost,
        EglError::BadDisplay => EglSwapFailureClass::SurfaceLost,
        _ => EglSwapFailureClass::Other,
    }
}

pub const EGL_ALPHA_SIZE: i32 = 0x3021;
pub const EGL_BLUE_SIZE: i32 = 0x3022;
pub const EGL_GREEN_SIZE: i32 = 0x3023;
pub const EGL_RED_SIZE: i32 = 0x3024;
pub const EGL_DEPTH_SIZE: i32 = 0x3025;
pub const EGL_STENCIL_SIZE: i32 = 0x3026;
pub const EGL_SURFACE_TYPE: i32 = 0x3033;
pub const EGL_NONE: i32 = 0x3038;
pub const EGL_RENDERABLE_TYPE: i32 = 0x3040;
pub const EGL_PBUFFER_BIT: i32 = 0x0001;
pub const EGL_WINDOW_BIT: i32 = 0x0004;
pub const EGL_OPENGL_ES2_BIT: i32 = 0x0004;
pub const EGL_OPENGL_ES3_BIT: i32 = 0x0040;
pub const EGL_HEIGHT: i32 = 0x3056;
pub const EGL_WIDTH: i32 = 0x3057;
pub const EGL_CONTEXT_CLIENT_VERSION: i32 = 0x3098;
pub const EGL_CONTEXT_OPENGL_RESET_NOTIFICATION_STRATEGY_EXT: i32 = 0x3138;
pub const EGL_LOSE_CONTEXT_ON_RESET_EXT: i32 = 0x31BF;

/// The attribute list of a context: its version, the reset notification where the
/// driver offers it, and the terminator.
pub open spec fn ctx_attribs(gles_major: u32, has_robust_context: bool) -> Seq<i32> {
    if has_robust_context {
        seq![
            EGL_CONTEXT_CLIENT_VERSION,
            gles_major as i32,
            EGL_CONTEXT_OPENGL_RESET_NOTIFICATION_STRATEGY_EXT,
            EGL_LOSE_CONTEXT_ON_RESET_EXT,
            EGL_NONE,
        ]
    } else {
        seq![EGL_CONTEXT_CLIENT_VERSION, gles_major as i32, EGL_NONE]
    }
}

/// Build the attribute list of a context.
pub fn build_ctx_attribs(gles_major: u32, has_robust_context: bool) -> (attribs: Vec<i32>)
    ensures
        attribs@ == ctx_attribs(gles_major, has_robust_context),
{
    let mut attribs: Vec<i32> = Vec::new();
    attribs.push(EGL_CONTEXT_CLIENT_VERSION);
    attribs.push(gles_major as i32);
    if has_robust_context {
        attribs.push(EGL_CONTEXT_OPENGL_RESET_NOTIFICATION_STRATEGY_EXT);
        attribs.push(EGL_LOSE_CONTEXT_ON_RESET_EXT);
    }
    attribs.push(EGL_NONE);
    assert(attribs@ =~= ctx_attribs(gles_major, has_robust_context));
    attribs
}

/// A configuration worth asking for.
#[derive(Clone, Copy, Debug, PartialEq, Eq, Structural)]
pub struct ConfigRequest {
    pub depth: i32,
    pub stencil: i32,
    pub renderable: i32,
    pub surface_type: i32,
}

/// The number of configurations that are asked for, per kind of surface.
pub const CANDIDATES: usize = 6;

/// The major version that candidate `i` gives: ES 3 is preferred to ES 2.
pub open spec fn candidate_major(i: int) -> u32 {
    if i < 3 {
        3
    } else {
        2
    }
}

/// Candidate `i`, in order of preference. Within a version: depth 16 with stencil,
/// depth 24 with stencil, depth 16 alone.
pub open spec fn candidate(i: int, surfaceless: bool) -> ConfigRequest {
    ConfigRequest {
        depth: if i % 3 == 1 {
            24
        } else {
            16
        },
        stencil: if i % 3 == 2 {
            0
        } else {
            8
        },
        renderable: if i < 3 {
            EGL_OPENGL_ES3_BIT
        } else {
            EGL_OPENGL_ES2_BIT
        },
        surface_type: if surfaceless {
            4
        } else {
            5
        },
    }
}

fn nth_candidate(i: usize, surfaceless: bool) -> (request: ConfigRequest)
    ensures
        request == candidate(i as int, surfaceless),
{
    ConfigRequest {
        depth: if i % 3 == 1 {
            24
        } else {
            16
        },
        stencil: if i % 3 == 2 {
            0
        } else {
            8
        },
        renderable: if i < 3 {
            EGL_OPENGL_ES3_BIT
        } else {
            EGL_OPENGL_ES2_BIT
        },
        surface_type: if surfaceless {
            EGL_WINDOW_BIT
        } else {
            // Windows and pbuffers both: the two bits do not overlap.
            EGL_WINDOW_BIT + EGL_PBUFFER_BIT
        },
    }
}

/// The attribute list that asks for `request` with eight bits per channel.
pub open spec fn config_attribs_of(request: ConfigRequest) -> Seq<i32> {
    seq![
        EGL_RED_SIZE, 8,
        EGL_GREEN_SIZE, 8,
        EGL_BLUE_SIZE, 8,
        EGL_ALPHA_SIZE, 8,
        EGL_DEPTH_SIZE, request.depth,
        EGL_STENCIL_SIZE, request.stencil,
        EGL_SURFACE_TYPE, request.surface_type,
        EGL_RENDERABLE_TYPE, request.renderable,
        EGL_NONE,
    ]
}

/// Build the attribute list of a configuration request.
pub fn config_attribs(request: ConfigRequest) -> (attribs: Vec<i32>)
    ensures
        attribs@ == config_attribs_of(request),
{
    let mut attribs: Vec<i32> = Vec::new();
    attribs.push(EGL_RED_SIZE);
    attribs.push(8);
    attribs.push(EGL_GREEN_SIZE);
    attribs.push(8);
    attribs.push(EGL_BLUE_SIZE);
    attribs.push(8);
    attribs.push(EGL_ALPHA_SIZE);
    attribs.push(8);
    attribs.push(EGL_DEPTH_SIZE);
    attribs.push(request.depth);
    attribs.push(EGL_STENCIL_SIZE);
    attribs.push(request.stencil);
    attribs.push(EGL_SURFACE_TYPE);
    attribs.push(request.surface_type);
    attribs.push(EGL_RENDERABLE_TYPE);
    attribs.push(request.renderable);
    attribs.push(EGL_NONE);
    assert(attribs@ =~= config_attribs_of(request));
    attribs
}

/// A configuration that the driver offers.
#[derive(Clone, Copy, Debug, PartialEq, Eq, Structural)]
pub struct ConfigChoice {
    pub config: usize,
    /// Which candidate it was offered for.
    pub candidate: usize,
    pub gles_major: u32,
    /// Offscreen contexts have no surface at all: no configuration serves pbuffers.
    pub surfaceless: bool,
}

/// The driver refuses every candidate of one kind.
pub open spec fn refuses_all<F: Fn(ConfigRequest) -> Option<usize>>(
    pick: F,
    surfaceless: bool,
) -> bool {
    forall|j: int|
        0 <= j < CANDIDATES ==> call_ensures(pick, (#[trigger] candidate(j, surfaceless),), None)
}

/// The driver offers `config` for candidate `i` of one kind, having refused every
/// candidate that is preferred to it.
pub open spec fn first_offered<F: Fn(ConfigRequest) -> Option<usize>>(
    pick: F,
    surfaceless: bool,
    i: int,
    config: usize,
) -> bool {
    &&& 0 <= i < CANDIDATES
    &&& call_ensures(pick, (candidate(i, surfaceless),), Some(config))
    &&& forall|j: int|
        0 <= j < i ==> call_ensures(pick, (#[trigger] candidate(j, surfaceless),), None)
}

fn choose_kind<F: Fn(ConfigRequest) -> Option<usize>>(pick: &F, surfaceless: bool) -> (choice: Option<
    ConfigChoice,
>)
    requires
        forall|r: ConfigRequest| #[trigger] call_requires(*pick, (r,)),
    ensures
        choice matches Some(c) ==> c.surfaceless == surfaceless && first_offered(
            *pick,
            surfaceless,
            c.candidate as int,
            c.config,
        ) && c.gles_major == candidate_major(c.candidate as int),
        choice is None ==> refuses_all(*pick, surfaceless),
{
    let mut i: usize = 0;
    while i < CANDIDATES
        invariant
            i <= CANDIDATES,
            forall|r: ConfigRequest| #[trigger] call_requires(*pick, (r,)),
            forall|j: int|
                0 <= j < i ==> call_ensures(*pick, (#[trigger] candidate(j, surfaceless),), None),
        decreases CANDIDATES - i,
    {
        let request = nth_candidate(i, surfaceless);
        if let Some(config) = pick(request) {
            let gles_major: u32 = if i < 3 {
                3
            } else {
                2
            };
            return Some(ConfigChoice { config, candidate: i, gles_major, surfaceless });
        }
        i = i + 1;
    }
    None
}

/// The configuration that is chosen on a driver that announces `names`.
pub open spec fn config_chosen<F: Fn(ConfigRequest) -> Option<usize>>(
    pick: F,
    names: Seq<char>,
    choice: Option<ConfigChoice>,
) -> bool {
    let announced = crate::text::occurs_in(names, "EGL_KHR_surfaceless_context"@);
    match choice {
        Some(c) => {
            &&& first_offered(pick, c.surfaceless, c.candidate as int, c.config)
            &&& c.gles_major == candidate_major(c.candidate as int)
            &&& c.surfaceless ==> refuses_all(pick, false) && announced
        },
        None => refuses_all(pick, false) && (announced ==> refuses_all(pick, true)),
    }
}

/// Choose a configuration.
///
/// One that serves windows and pbuffers alike is asked for first. Only where there is
/// none at all, and the driver announces contexts without a surface, one that serves
/// windows alone is taken, and offscreen contexts go without a surface.
pub fn choose_config<F: Fn(ConfigRequest) -> Option<usize>>(
    pick: F,
    egl_extensions: &str,
) -> (choice: Option<ConfigChoice>)
    requires
        forall|r: ConfigRequest| #[trigger] call_requires(pick, (r,)),
    ensures
        config_chosen(pick, egl_extensions@, choice),
{
    let both = choose_kind(&pick, false);
    if both.is_some() {
        return both;
    }
    if contains_text(egl_extensions, "EGL_KHR_surfaceless_context") {
        choose_kind(&pick, true)
    } else {
        None
    }
}

/// A display that is up.
#[derive(Clone, Copy, Debug, PartialEq, Eq, Structural)]
pub struct EglInitResult {
    pub choice: ConfigChoice,
    /// Contexts can be asked to report resets.
    pub has_robust_context: bool,
}

/// Why a display did not come up.
#[derive(Clone, Copy, Debug)]
pub enum InitFailure<E> {
    /// The platform did not provide an EGL instance or a display.
    Provider(E),
    /// `eglInitialize` failed.
    Initialize(EglError),
    /// No candidate configuration is offered.
    NoConfig,
}

/// Bring a display up through the platform's entry points alone.
///
/// Each of them is used once at most, and nothing is asked after a step that failed. Only a
/// display that came up without a configuration to offer is taken down again.
pub fn init_egl<
    E,
    Load: FnOnce() -> Result<(), E>,
    Display: FnOnce() -> Result<(), E>,
    Init: FnOnce() -> Result<(), EglError>,
    Extensions: FnOnce() -> String,
    Pick: Fn(ConfigRequest) -> Option<usize>,
    Terminate: FnOnce() -> bool,
>(
    load: Load,
    display: Display,
    initialize: Init,
    extensions: Extensions,
    pick: Pick,
    terminate: Terminate,
) -> (result: Result<EglInitResult, InitFailure<E>>)
    requires
        call_requires(load, ()),
        call_ensures(load, (), Ok(())) ==> call_requires(display, ()),
        call_ensures(display, (), Ok(())) ==> call_requires(initialize, ()),
        call_ensures(initialize, (), Ok(())) ==> call_requires(extensions, ()),
        call_ensures(initialize, (), Ok(())) ==> forall|r: ConfigRequest| #[trigger]
            call_requires(pick, (r,)),
        (exists|names: String| #[trigger]
            call_ensures(extensions, (), names) && config_chosen(pick, names@, None))
            ==> call_requires(terminate, ()),
    ensures
        match result {
            Err(InitFailure::Provider(e)) => call_ensures(load, (), Err(e)) || (call_ensures(
                load,
                (),
                Ok(()),
            ) && call_ensures(display, (), Err(e))),
            Err(InitFailure::Initialize(e)) => {
                &&& call_ensures(load, (), Ok(()))
                &&& call_ensures(display, (), Ok(()))
                &&& call_ensures(initialize, (), Err(e))
            },
            Err(InitFailure::NoConfig) => {
                &&& call_ensures(load, (), Ok(()))
                &&& call_ensures(display, (), Ok(()))
                &&& call_ensures(initialize, (), Ok(()))
                &&& exists|names: String| #[trigger]
                    call_ensures(extensions, (), names) && config_chosen(pick, names@, None)
                &&& exists|b: bool| #[trigger] call_ensures(terminate, (), b)
            },
            Ok(up) => {
                &&& call_ensures(load, (), Ok(()))
                &&& call_ensures(display, (), Ok(()))
                &&& call_ensures(initialize, (), Ok(()))
                &&& exists|names: String| #[trigger]
                    call_ensures(extensions, (), names) && config_chosen(
                        pick,
                        names@,
                        Some(up.choice),
                    ) && up.has_robust_context == crate::text::occurs_in(
                        names@,
                        "EGL_EXT_create_context_robustness"@,
                    )
            },
        },
{
    let answer_of_load = load();
    match answer_of_load {
        Err(e) => {
            return Err(InitFailure::Provider(e));
        },
        Ok(unit) => {
            assert(unit == ());
        },
    }
    let answer_of_display = display();
    match answer_of_display {
        Err(e) => {
            return Err(InitFailure::Provider(e));
        },
        Ok(unit) => {
            assert(unit == ());
        },
    }
    let answer_of_initialize = initialize();
    match answer_of_initialize {
        Err(e) => {
            return Err(InitFailure::Initialize(e));
        },
        Ok(unit) => {
            assert(unit == ());
        },
    }
    let names: String = extensions();
    assert(call_ensures(extensions, (), names));
    match choose_config(pick, names.as_str()) {
        None => {
            let taken_down: bool = terminate();
            assert(call_ensures(terminate, (), taken_down));
            Err(InitFailure::NoConfig)
        },
        Some(choice) => {
            let has_robust_context = contains_text(
                names.as_str(),
                "EGL_EXT_create_context_robustness",
            );
            Ok(EglInitResult { choice, has_robust_context })
        },
    }
}

/// The attribute list of a pbuffer.
pub fn pbuffer_attribs(width: u32, height: u32) -> (attribs: Vec<i32>)
    ensures
        attribs@ == seq![EGL_WIDTH, width as i32, EGL_HEIGHT, height as i32, EGL_NONE],
{
    let mut attribs: Vec<i32> = Vec::new();
    attribs.push(EGL_WIDTH);
    attribs.push(width as i32);
    attribs.push(EGL_HEIGHT);
    attribs.push(height as i32);
    attribs.push(EGL_NONE);
    assert(attribs@ =~= seq![EGL_WIDTH, width as i32, EGL_HEIGHT, height as i32, EGL_NONE]);
    attribs
}

/// A lost context is told apart from a lost surface, and both from a swap that may be tried
/// again.
pub proof fn law_what_a_failed_swap_says(error: EglError, class: EglSwapFailureClass)
    requires
        call_ensures(classify_egl_swap_failure, (error,), class),
    ensures
        error is ContextLost == (class is ContextLost),
        class is SurfaceLost == (error is BadCurrentSurface || error is BadSurface
            || error is BadNativeWindow || error is BadDisplay),
        error is NotInitialized || error is BadAccess || error is BadAlloc || error is BadAttribute
            || error is BadContext || error is BadConfig || error is BadMatch
            || error is BadParameter || error is BadNativePixmap ==> class is Other,
{
}

/// A context is asked for at its major version, and to be lost at a reset exactly where the
/// driver can be asked that; the list ends there.
pub proof fn law_what_a_context_is_asked_to_be(major: u32, robust: bool, attribs: Vec<i32>)
    requires
        call_ensures(build_ctx_attribs, (major, robust), attribs),
    ensures
        attribs@[0] == 0x3098,
        attribs@[1] == major as i32,
        attribs@.last() == 0x3038,
        attribs@.len() == if robust {
            5
        } else {
            3int
        },
        robust ==> attribs@[2] == 0x3138 && attribs@[3] == 0x31BF,
{
}

/// A configuration is asked for with eight bits a channel and what the request names, each
/// behind its own key.
pub proof fn law_what_a_configuration_is_asked_to_be(request: ConfigRequest, attribs: Vec<i32>)
    requires
        call_ensures(config_attribs, (request,), attribs),
    ensures
        attribs@.len() == 17,
        attribs@[0] == 0x3024 && attribs@[1] == 8,
        attribs@[2] == 0x3023 && attribs@[3] == 8,
        attribs@[4] == 0x3022 && attribs@[5] == 8,
        attribs@[6] == 0x3021 && attribs@[7] == 8,
        attribs@[8] == 0x3025 && attribs@[9] == request.depth,
        attribs@[10] == 0x3026 && attribs@[11] == request.stencil,
        attribs@[12] == 0x3033 && attribs@[13] == request.surface_type,
        attribs@[14] == 0x3040 && attribs@[15] == request.renderable,
        attribs@[16] == 0x3038,
{
}

/// A pbuffer is asked for with its width and its height, each behind its own key.
pub proof fn law_what_a_pbuffer_is_asked_to_be(width: u32, height: u32, attribs: Vec<i32>)
    requires
        call_ensures(pbuffer_attribs, (width, height), attribs),
        width <= i32::MAX,
        height <= i32::MAX,
    ensures
        attribs@.len() == 5,
        attribs@[0] == 0x3057 && attribs@[1] == width,
        attribs@[2] == 0x3056 && attribs@[3] == height,
        attribs@[4] == 0x3038,
{
}

/// Version three is asked for before version two, and within a version sixteen bits of depth
/// with a stencil, then twenty-four with one, then sixteen without. Every request is for
/// windows, and for pbuffers too unless offscreen contexts go without a surface.
pub proof fn law_the_order_of_requests(i: int, surfaceless: bool)
    requires
        0 <= i < 6,
    ensures
        (candidate(i, surfaceless).renderable == 0x40) == (i < 3),
        (candidate(i, surfaceless).renderable == 0x04) == (i >= 3),
        candidate_major(i) == if i < 3 {
            3u32
        } else {
            2u32
        },
        i == 0 || i == 3 ==> candidate(i, surfaceless).depth == 16 && candidate(
            i,
            surfaceless,
        ).stencil == 8,
        i == 1 || i == 4 ==> candidate(i, surfaceless).depth == 24 && candidate(
            i,
            surfaceless,
        ).stencil == 8,
        i == 2 || i == 5 ==> candidate(i, surfaceless).depth == 16 && candidate(
            i,
            surfaceless,
        ).stencil == 0,
        candidate(i, surfaceless).surface_type == if surfaceless {
            4i32
        } else {
            5i32
        },
{
}

/// A driver that offers the first request gets it, at version three and with pbuffers. A
/// configuration is chosen wherever one is offered, the first in order; and offscreen contexts
/// go without a surface only where the driver announces that and offers nothing else.
pub proof fn law_the_first_offer_is_taken<F: Fn(ConfigRequest) -> Option<usize>>(
    pick: F,
    names: Seq<char>,
    choice: Option<ConfigChoice>,
    i: int,
)
    requires
        config_chosen(pick, names, choice),
        0 <= i < 6,
    ensures
        !call_ensures(
            pick,
            (ConfigRequest { depth: 16, stencil: 8, renderable: 0x40, surface_type: 5 },),
            None,
        ) ==> choice is Some && (choice->0).candidate == 0 && (choice->0).gles_major == 3 && !(
        choice->0).surfaceless,
        !call_ensures(pick, (candidate(i, false),), None) ==> choice is Some && (
        choice->0).candidate <= i && !(choice->0).surfaceless,
        choice matches Some(c) ==> c.gles_major == if c.candidate < 3 {
            3u32
        } else {
            2u32
        },
        choice matches Some(c) ==> call_ensures(
            pick,
            (candidate(c.candidate as int, c.surfaceless),),
            Some(c.config),
        ),
        choice matches Some(c) ==> c.surfaceless ==> crate::text::occurs_in(
            names,
            "EGL_KHR_surfaceless_context"@,
        ) && call_ensures(pick, (candidate(i, false),), None),
{
    let first = candidate(0, false);
    let asked = candidate(i, false);
}

/// Contexts report resets exactly where the display announces that they can, and a display that
/// came up has the configuration that was chosen for it.
pub proof fn law_what_a_display_comes_up_with<
    E,
    Load: FnOnce() -> Result<(), E>,
    Display: FnOnce() -> Result<(), E>,
    Init: FnOnce() -> Result<(), EglError>,
    Extensions: FnOnce() -> String,
    Pick: Fn(ConfigRequest) -> Option<usize>,
    Terminate: FnOnce() -> bool,
>(
    load: Load,
    display: Display,
    initialize: Init,
    extensions: Extensions,
    pick: Pick,
    terminate: Terminate,
    up: EglInitResult,
)
    requires
        call_ensures(
            init_egl::<E, Load, Display, Init, Extensions, Pick, Terminate>,
            (load, display, initialize, extensions, pick, terminate),
            Ok::<EglInitResult, InitFailure<E>>(up),
        ),
    ensures
        call_ensures(initialize, (), Ok(())),
        call_ensures(
            pick,
            (candidate(up.choice.candidate as int, up.choice.surfaceless),),
            Some(up.choice.config),
        ),
        exists|names: String| #[trigger]
            call_ensures(extensions, (), names) && up.has_robust_context == crate::text::occurs_in(
                names@,
                "EGL_EXT_create_context_robustness"@,
            ),
{
}

} // verus!
