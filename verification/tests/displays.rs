use std::cell::RefCell;
use std::rc::Rc;

use graphics::device_caps::{CompressedFormatSupport, DeviceCapabilities};
use graphics::egl_device::{create_pbuffer_context, EglCall, EglRuntime};
use graphics::egl_setup::{
    build_ctx_attribs, choose_config, classify_egl_swap_failure, config_attribs, init_egl,
    pbuffer_attribs, ConfigRequest, EglError, EglSwapFailureClass, InitFailure,
};
use graphics::startup::{
    create_root, downgraded, is_single_sample, probe_entry_points, session_config, Symbol,
};

type Log = Rc<RefCell<Vec<EglCall>>>;

fn runtime(
    log: &Log,
    refuse: fn(&EglCall) -> Option<EglError>,
) -> EglRuntime<impl Fn(EglCall) -> Result<usize, EglError>> {
    let log = log.clone();
    let handles = RefCell::new(100usize);
    EglRuntime::new(move |call| {
        log.borrow_mut().push(call);
        if let Some(e) = refuse(&call) {
            return Err(e);
        }
        *handles.borrow_mut() += 1;
        Ok(*handles.borrow())
    })
}

fn nothing(_: &EglCall) -> Option<EglError> {
    None
}

fn currents(call: &EglCall) -> Option<EglError> {
    match call {
        EglCall::MakeCurrent { .. } => Some(EglError::BadAccess),
        _ => None,
    }
}

fn surfaces(call: &EglCall) -> Option<EglError> {
    match call {
        EglCall::CreatePbufferSurface { .. } => Some(EglError::BadAlloc),
        _ => None,
    }
}

#[test]
fn injected_egl_provider_is_the_only_loader_used_by_init() {
    let loads = Rc::new(RefCell::new(0));
    let count = loads.clone();
    let result = init_egl(
        move || {
            *count.borrow_mut() += 1;
            Err("sentinel provider load failure")
        },
        || panic!("display must not be requested after provider load failure"),
        || panic!("a display that was not requested must not come up"),
        || panic!("a display that is not up must not be asked"),
        |_| panic!("a display that is not up must not be asked"),
        || panic!("a display that is not up must not be taken down"),
    );
    assert_eq!(*loads.borrow(), 1);
    match result {
        Err(InitFailure::Provider(e)) => assert_eq!(e, "sentinel provider load failure"),
        _ => panic!("provider must fail"),
    }
}

#[test]
fn initialized_display_and_partial_pbuffer_creation_have_raii_guards() {
    let terminated = Rc::new(RefCell::new(0));
    let count = terminated.clone();
    let result = init_egl(
        || Ok::<(), ()>(()),
        || Ok(()),
        || Ok(()),
        String::new,
        |_| None,
        move || {
            *count.borrow_mut() += 1;
            true
        },
    );
    assert!(matches!(result, Err(InitFailure::NoConfig)));
    assert_eq!(*terminated.borrow(), 1, "a display that came up must be taken down");

    let log: Log = Rc::new(RefCell::new(Vec::new()));
    let mut egl = runtime(&log, surfaces);
    let made = create_pbuffer_context(&mut egl, None, 16, 16, 3, false, false);
    assert_eq!(made.err(), Some(EglError::BadAlloc));
    assert!(
        matches!(log.borrow().last(), Some(EglCall::DestroyContext { .. })),
        "a context without its surface must be destroyed"
    );
}

#[test]
fn a_display_that_does_not_initialize_is_not_terminated() {
    let result = init_egl(
        || Ok::<(), ()>(()),
        || Ok(()),
        || Err(EglError::NotInitialized),
        String::new,
        |_| Some(1),
        || panic!("nothing to terminate"),
    );
    assert!(matches!(result, Err(InitFailure::Initialize(EglError::NotInitialized))));
}

#[test]
fn every_ownership_moving_egl_call_is_ledgered() {
    let log: Log = Rc::new(RefCell::new(Vec::new()));
    let mut egl = runtime(&log, nothing);
    assert_eq!(egl.make_current(Some(7), Some(7), Some(1)), Ok(()));
    assert_eq!(egl.destroy_surface(7), Ok(()));
    assert_eq!(egl.take_reported(), vec![7], "a destroy of a bound surface must be reported");
    assert_eq!(egl.make_current(Some(8), Some(8), Some(1)), Ok(()));
    assert_eq!(egl.destroy_context(1), Ok(()));
    assert_eq!(egl.destroy_surface(8), Ok(()));
    assert!(egl.take_reported().is_empty(), "a destroyed context lets its surfaces go");
}

#[test]
fn a_surface_still_referenced_is_reported_before_it_is_destroyed() {
    let log: Log = Rc::new(RefCell::new(Vec::new()));
    let mut egl = runtime(&log, |call| match call {
        EglCall::DestroySurface { .. } => Some(EglError::BadSurface),
        _ => None,
    });
    assert_eq!(egl.make_current(Some(7), Some(7), Some(1)), Ok(()));
    assert_eq!(egl.destroy_surface(7), Err(EglError::BadSurface));
    assert_eq!(
        egl.take_reported(),
        vec![7],
        "the count has to be read and reported before the driver call, not after"
    );
}

#[test]
fn the_ledger_is_recorded_after_the_driver_agrees() {
    let log: Log = Rc::new(RefCell::new(Vec::new()));
    let mut egl = runtime(&log, currents);
    assert_eq!(egl.make_current(Some(7), Some(7), Some(1)), Err(EglError::BadAccess));
    assert_eq!(egl.destroy_surface(7), Ok(()));
    assert!(
        egl.take_reported().is_empty(),
        "a rejected binding must not be recorded as one"
    );
}

#[test]
fn egl_swap_failures_distinguish_context_surface_and_retryable_errors() {
    assert_eq!(
        classify_egl_swap_failure(EglError::ContextLost),
        EglSwapFailureClass::ContextLost
    );
    for error in [
        EglError::BadCurrentSurface,
        EglError::BadSurface,
        EglError::BadNativeWindow,
        EglError::BadDisplay,
    ] {
        assert_eq!(classify_egl_swap_failure(error), EglSwapFailureClass::SurfaceLost);
    }
    assert_eq!(classify_egl_swap_failure(EglError::BadAlloc), EglSwapFailureClass::Other);
}

#[test]
fn the_best_configuration_that_is_offered_is_taken() {
    let choice = choose_config(
        |r: ConfigRequest| {
            if r.depth == 24 && r.renderable == 0x0040 {
                Some(5)
            } else {
                None
            }
        },
        "",
    )
    .expect("offered");
    assert_eq!(choice.config, 5);
    assert!(choose_config(|_| None, "").is_none());
}

#[test]
fn attributes_end_with_none() {
    let attribs = build_ctx_attribs(3, true);
    assert_eq!(attribs[0], 0x3098);
    assert_eq!(attribs[1], 3);
    assert_eq!(attribs.last(), Some(&0x3038));
    assert_eq!(pbuffer_attribs(16, 8), vec![0x3057, 16, 0x3056, 8, 0x3038]);
    let request = ConfigRequest { depth: 24, stencil: 8, renderable: 0x0040, surface_type: 4 };
    assert_eq!(config_attribs(request).last(), Some(&0x3038));
}

#[test]
fn a_root_that_cannot_be_made_current_takes_the_display_down() {
    let log: Log = Rc::new(RefCell::new(Vec::new()));
    let mut egl = runtime(&log, |call| match call {
        EglCall::MakeCurrent { context: Some(_), .. } => Some(EglError::BadAccess),
        _ => None,
    });
    assert_eq!(create_root(&mut egl, 3, false, false).err(), Some(EglError::BadAccess));
    assert!(log.borrow().contains(&EglCall::Terminate));
}

#[test]
fn a_session_uses_the_entry_points_that_are_advertised_and_there() {
    let entry = probe_entry_points(
        "EGL_KHR_partial_update EGL_KHR_swap_buffers_with_damage",
        "GL_KHR_robustness",
        true,
        |_| true,
    );
    assert!(entry.set_damage_region);
    assert_eq!(entry.swap_with_damage, Some(Symbol::SwapWithDamageKhr));
    assert_eq!(entry.reset_status, Some(Symbol::ResetStatusKhr));
    let missing = probe_entry_points("", "", true, |_| true);
    assert!(!missing.set_damage_region);
    assert_eq!(missing.swap_with_damage, None);
}

#[test]
fn a_window_is_single_sampled_unless_the_driver_says_otherwise() {
    assert!(is_single_sample(Ok(0), Ok(0)));
    assert!(!is_single_sample(Ok(1), Ok(4)));
}

#[test]
fn a_device_without_import_has_no_hardware_buffers() {
    let caps = DeviceCapabilities {
        has_parallel_shader_compile: false,
        gles_version: (3, 0),
        has_pbo: true,
        has_fence_sync: true,
        has_compute: false,
        ahb_available: true,
        has_buffer_age: true,
        has_ext_buffer_age: true,
        has_partial_update: false,
        compressed_format_support: CompressedFormatSupport { etc2: true, astc: false },
    };
    assert!(!downgraded(caps, false).ahb_available);
    assert!(downgraded(caps, true).ahb_available);
    let entry = probe_entry_points("", "", false, |_| false);
    let cfg = session_config(&caps, entry, 3, false, true, true, false, 4096);
    assert!(cfg.has_buffer_age);
    assert!(!cfg.submits_damage);
    assert!(cfg.surfaceless);
    assert_eq!(cfg.max_canvas_pixels, 4096);
}

#[test]
fn a_display_that_came_up_is_not_taken_down() {
    let up = init_egl(
        || Ok::<(), ()>(()),
        || Ok(()),
        || Ok(()),
        || String::from("EGL_EXT_create_context_robustness"),
        |_| Some(11),
        || panic!("only a display without a configuration is taken down"),
    );
    match up {
        Ok(up) => {
            assert_eq!(up.choice.config, 11);
            assert!(up.has_robust_context);
        }
        Err(_) => panic!("the display must come up"),
    }
}
