//! Starting a session on a display that has come up.
use vstd::prelude::*;

use crate::device_caps::DeviceCapabilities;
use crate::device_caps::DeviceTier;
use crate::egl_device::create_pbuffer_context;
use crate::egl_device::EglCall;
use crate::egl_device::EglContextHandle;
use crate::egl_device::EglRuntime;
use crate::egl_setup::EglError;
use crate::gl_device::Gl;
use crate::gl_device::GlCall;
use crate::manager::BoundContext;
use crate::manager::CanvasManager;
use crate::manager::Config;
use crate::manager::Preserved;
use crate::manager::Window;
use crate::painters::PaintCall;
use crate::painters::Painters;
use crate::pixel_ratio::PixelRatio;
use crate::text::contains_text;
use crate::uploads::UploadLedger;
use crate::uploads::UploadServer;

verus! {

/// An entry point that not every driver has.
#[derive(Clone, Copy, Debug, PartialEq, Eq, Structural)]
pub enum Symbol {
    /// `eglSetDamageRegionKHR`
    SetDamageRegion,
    /// `eglSwapBuffersWithDamageKHR`
    SwapWithDamageKhr,
    /// `eglSwapBuffersWithDamageEXT`
    SwapWithDamageExt,
    /// `glGetGraphicsResetStatusKHR`
    ResetStatusKhr,
    /// `glGetGraphicsResetStatusEXT`
    ResetStatusExt,
}

/// The entry points that a session uses, of those that not every driver has.
#[derive(Clone, Copy, Debug, PartialEq, Eq, Structural)]
pub struct EntryPoints {
    pub set_damage_region: bool,
    pub swap_with_damage: Option<Symbol>,
    pub reset_status: Option<Symbol>,
}

/// The driver resolved an entry point, or did not.
pub open spec fn resolved<R: Fn(Symbol) -> bool>(resolve: R, symbol: Symbol, there: bool) -> bool {
    call_ensures(resolve, (symbol,), there)
}

/// Swaps tell the compositor of their damage through the first of the two names of the
/// entry point that the driver advertises and has.
pub open spec fn swap_entry<R: Fn(Symbol) -> bool>(
    egl_extensions: Seq<char>,
    resolve: R,
    chosen: Option<Symbol>,
) -> bool {
    let khr = crate::text::occurs_in(egl_extensions, "EGL_KHR_swap_buffers_with_damage"@);
    let ext = crate::text::occurs_in(egl_extensions, "EGL_EXT_swap_buffers_with_damage"@);
    match chosen {
        Some(Symbol::SwapWithDamageKhr) => khr && resolved(
            resolve,
            Symbol::SwapWithDamageKhr,
            true,
        ),
        Some(Symbol::SwapWithDamageExt) => {
            &&& khr ==> resolved(resolve, Symbol::SwapWithDamageKhr, false)
            &&& ext && resolved(resolve, Symbol::SwapWithDamageExt, true)
        },
        Some(_) => false,
        None => {
            &&& khr ==> resolved(resolve, Symbol::SwapWithDamageKhr, false)
            &&& ext ==> resolved(resolve, Symbol::SwapWithDamageExt, false)
        },
    }
}

/// Resets are asked about only where both the context and the library have what it takes:
/// the call does nothing on some drivers without it, and crashes on others.
pub open spec fn reset_entry<R: Fn(Symbol) -> bool>(
    gl_extensions: Seq<char>,
    has_robust_context: bool,
    resolve: R,
    chosen: Option<Symbol>,
) -> bool {
    let told = has_robust_context && (crate::text::occurs_in(gl_extensions, "GL_KHR_robustness"@)
        || crate::text::occurs_in(gl_extensions, "GL_EXT_robustness"@));
    match chosen {
        Some(Symbol::ResetStatusKhr) => told && resolved(resolve, Symbol::ResetStatusKhr, true),
        Some(Symbol::ResetStatusExt) => told && resolved(resolve, Symbol::ResetStatusKhr, false)
            && resolved(resolve, Symbol::ResetStatusExt, true),
        Some(_) => false,
        None => !told || (resolved(resolve, Symbol::ResetStatusKhr, false) && resolved(
            resolve,
            Symbol::ResetStatusExt,
            false,
        )),
    }
}

/// Find the entry points that a session uses, of those that not every driver has.
/// `resolve` says whether the driver has one.
pub fn probe_entry_points<R: Fn(Symbol) -> bool>(
    egl_extensions: &str,
    gl_extensions: &str,
    has_robust_context: bool,
    resolve: R,
) -> (entry: EntryPoints)
    requires
        forall|s: Symbol| #[trigger] call_requires(resolve, (s,)),
    ensures
        ({
            let advertised = crate::text::occurs_in(egl_extensions@, "EGL_KHR_partial_update"@);
            &&& entry.set_damage_region ==> advertised && resolved(
                resolve,
                Symbol::SetDamageRegion,
                true,
            )
            &&& !entry.set_damage_region ==> !advertised || resolved(
                resolve,
                Symbol::SetDamageRegion,
                false,
            )
        }),
        swap_entry(egl_extensions@, resolve, entry.swap_with_damage),
        reset_entry(gl_extensions@, has_robust_context, resolve, entry.reset_status),
{
    let set_damage_region: bool = contains_text(egl_extensions, "EGL_KHR_partial_update")
        && resolve(Symbol::SetDamageRegion);
    let swap_with_damage = if contains_text(egl_extensions, "EGL_KHR_swap_buffers_with_damage")
        && resolve(Symbol::SwapWithDamageKhr) {
        Some(Symbol::SwapWithDamageKhr)
    } else if contains_text(egl_extensions, "EGL_EXT_swap_buffers_with_damage") && resolve(
        Symbol::SwapWithDamageExt,
    ) {
        Some(Symbol::SwapWithDamageExt)
    } else {
        None
    };
    let told: bool = has_robust_context && (contains_text(gl_extensions, "GL_KHR_robustness")
        || contains_text(gl_extensions, "GL_EXT_robustness"));
    let reset_status = if !told {
        None
    } else if resolve(Symbol::ResetStatusKhr) {
        Some(Symbol::ResetStatusKhr)
    } else if resolve(Symbol::ResetStatusExt) {
        Some(Symbol::ResetStatusExt)
    } else {
        None
    };
    EntryPoints { set_damage_region, swap_with_damage, reset_status }
}

/// Whether the window has one sample per pixel, so that a part of it can be copied in
/// place. A query that failed says no.
pub fn is_single_sample(
    sample_buffers: Result<i32, EglError>,
    samples: Result<i32, EglError>,
) -> (b: bool)
    ensures
        b == (sample_buffers == Ok::<i32, EglError>(0) && samples == Ok::<i32, EglError>(0)),
{
    match (sample_buffers, samples) {
        (Ok(b), Ok(s)) => b == 0 && s == 0,
        _ => false,
    }
}

/// The capabilities of a device, once it is known whether hardware buffers can be imported:
/// a driver that advertises them without the entry points cannot.
pub fn downgraded(caps: DeviceCapabilities, import_resolved: bool) -> (kept: DeviceCapabilities)
    ensures
        kept == (DeviceCapabilities {
            ahb_available: caps.ahb_available && import_resolved,
            ..caps
        }),
{
    let available: bool = caps.ahb_available && import_resolved;
    DeviceCapabilities { ahb_available: available, ..caps }
}

/// What a session can do on a device.
pub fn session_config(
    caps: &DeviceCapabilities,
    entry: EntryPoints,
    gles_major: u32,
    has_robust_context: bool,
    surfaceless: bool,
    single_sample: bool,
    share_2d: bool,
    max_canvas_pixels: u64,
) -> (cfg: Config)
    ensures
        cfg == (Config {
            surfaceless,
            gles_major,
            has_robust_context,
            reports_resets: entry.reset_status is Some,
            has_buffer_age: caps.has_buffer_age,
            has_ext_buffer_age: caps.has_ext_buffer_age,
            declares_damage: entry.set_damage_region,
            submits_damage: entry.swap_with_damage is Some,
            single_sample,
            share_2d,
            uploads_async: caps.spec_tier() == DeviceTier::TierA,
            max_canvas_pixels,
        }),
{
    let uploads_async: bool = match caps.tier() {
        DeviceTier::TierA => true,
        DeviceTier::TierB => false,
    };
    Config {
        surfaceless,
        gles_major,
        has_robust_context,
        reports_resets: entry.reset_status.is_some(),
        has_buffer_age: caps.has_buffer_age,
        has_ext_buffer_age: caps.has_ext_buffer_age,
        declares_damage: entry.set_damage_region,
        submits_damage: entry.swap_with_damage.is_some(),
        single_sample,
        share_2d,
        uploads_async,
        max_canvas_pixels,
    }
}

/// Make the root of the share group and make it current. From then on the display owns it:
/// where making it current fails, the root and the display are taken down.
pub fn create_root<H: Fn(EglCall) -> Result<usize, EglError>>(
    egl: &mut EglRuntime<H>,
    gles_major: u32,
    has_robust_context: bool,
    surfaceless: bool,
) -> (result: Result<EglContextHandle, EglError>)
    requires
        old(egl).ready(),
        old(egl)@.root is None,
        old(egl)@.up,
    ensures
        final(egl).ready(),
        match result {
            Ok(root) => {
                &&& final(egl)@ == crate::manager::current_with(
                    crate::egl_device::EglModel {
                        root: Some(root),
                        ..crate::egl_device::with_pair(
                            old(egl)@,
                            root,
                            EglCall::CreateContext {
                                share: None,
                                gles_major,
                                robust: has_robust_context,
                            },
                            16,
                            16,
                        )
                    },
                    root,
                )
                &&& (root.surf is None) == surfaceless
            },
            Err(e) => {
                &&& !final(egl)@.up
                &&& final(egl)@.root is None
                &&& final(egl)@.refused.len() > old(egl)@.refused.len()
                &&& final(egl)@.refused[old(egl)@.refused.len() as int].1 == e
            },
        },
{
    let root = match create_pbuffer_context(
        egl,
        None,
        16,
        16,
        gles_major,
        has_robust_context,
        surfaceless,
    ) {
        Err(e) => {
            let _ = egl.shutdown();
            return Err(e);
        },
        Ok(root) => root,
    };
    egl.track_resource(root);
    match egl.make_current(root.surf, root.surf, Some(root.ctx)) {
        Err(e) => {
            let _ = egl.shutdown();
            Err(e)
        },
        Ok(_) => Ok(root),
    }
}

impl<
    F: Fn(GlCall) -> u32,
    H: Fn(EglCall) -> Result<usize, EglError>,
    P: Fn(PaintCall) -> u64,
> CanvasManager<F, H, P> {
    /// A session without canvases, with the root of its share group current. Textures are
    /// uploaded on a thread of their own where the device is up to it and the thread starts;
    /// only then a budget gates them.
    pub fn new_with_resource(
        gl: Gl<F>,
        egl: EglRuntime<H>,
        paint: Painters<P>,
        cfg: Config,
        root: EglContextHandle,
        frame_rate: u32,
        pixel_ratio: PixelRatio,
        server: UploadServer,
    ) -> (m: Self)
        requires
            gl.ready(),
            egl.ready(),
            paint.ready(),
        ensures
            m.wf(),
            m@ == (crate::manager::Mgr {
                egl: m@.egl,
                uploads: m@.uploads,
                gl: gl@,
                paint: paint@,
                cfg,
                bound: BoundContext::Resource,
                root,
                shared_2d: None,
                flags: crate::manager::no_flags(),
                window: Window {
                    installed: None,
                    frame_rate,
                    pixel_ratio,
                    restore_2d: None,
                    content_backing: None,
                },
                pending: None,
                preserved: Preserved { ctx: None, db: None },
                next_canvas_id: 2,
                canvases: Map::empty(),
                contexts: Map::empty(),
                dirty: Seq::empty(),
                shadows: Map::empty(),
                damage: crate::present::clean_frame(),
                history: Seq::empty(),
                plan: None,
                swap_interval: (-1) as i32,
                swap_damage_rejected: false,
                debt: None,
                copy_fbos: Map::empty(),
                snapshots: crate::snapshots::Pool {
                    entries: Map::empty(),
                    order: Seq::empty(),
                    waits: 0,
                },
                tried: Seq::empty(),
                dropped: Seq::empty(),
                adrift: 0,
                unbuffered: Seq::empty(),
            }),
            m@.egl == (crate::egl_device::EglModel {
                uploads: m@.egl.uploads,
                refused: m@.egl.refused,
                steps: if m@.uploads.budget is Some {
                    egl@.steps.push(crate::egl_device::Step::UploadsStarted)
                } else {
                    egl@.steps
                },
                ..egl@
            }),
            !cfg.uploads_async ==> m@.egl == egl@ && m@.uploads.budget is None,
            m@.uploads.budget == (if cfg.uploads_async && m@.uploads.budget is Some {
                Some(server@)
            } else {
                None
            }),
            cfg.uploads_async ==> crate::egl_device::uploads_started(
                egl@,
                m@.egl,
                root.ctx,
                m@.uploads.budget is Some,
            ),
            m@.uploads.pending.len() == 0,
            m@.uploads.deferred.len() == 0,
            m@.uploads.awaited == Set::<u64>::empty(),
            m@.uploads.cancelled == Set::<u64>::empty(),
    {
        let mut m = CanvasManager::new(
            gl,
            egl,
            paint,
            cfg,
            root,
            frame_rate,
            pixel_ratio,
            UploadLedger::new(None),
        );
        if cfg.uploads_async {
            if m.spawn_uploads() {
                m.gate_uploads(server);
            }
        }
        m
    }
}

/// A surface takes one sample a pixel exactly if the driver says that it has neither sample
/// buffers nor samples; a question that it does not answer says no.
pub proof fn law_what_a_single_sample_is(
    buffers: Result<i32, EglError>,
    samples: Result<i32, EglError>,
    single: bool,
)
    requires
        call_ensures(is_single_sample, (buffers, samples), single),
    ensures
        buffers is Err || samples is Err ==> !single,
        buffers is Ok && samples is Ok ==> single == (buffers->Ok_0 == 0 && samples->Ok_0 == 0),
{
}

/// A device keeps its hardware buffers only if they can be imported, and everything else.
pub proof fn law_what_a_device_keeps(
    caps: DeviceCapabilities,
    import_resolved: bool,
    kept: DeviceCapabilities,
)
    requires
        call_ensures(downgraded, (caps, import_resolved), kept),
    ensures
        kept.ahb_available == (caps.ahb_available && import_resolved),
        import_resolved ==> kept == caps,
        kept.has_buffer_age == caps.has_buffer_age,
        kept.has_ext_buffer_age == caps.has_ext_buffer_age,
{
}

/// A session does what its device and the driver's entry points allow: it declares damage,
/// submits it and asks about resets exactly where the driver has the entry point, and uploads
/// on a thread of their own on the better devices alone.
pub proof fn law_what_a_session_can_do(
    caps: DeviceCapabilities,
    entry: EntryPoints,
    gles_major: u32,
    robust: bool,
    surfaceless: bool,
    single_sample: bool,
    share_2d: bool,
    max_canvas_pixels: u64,
    cfg: Config,
)
    requires
        call_ensures(
            session_config,
            (
                &caps,
                entry,
                gles_major,
                robust,
                surfaceless,
                single_sample,
                share_2d,
                max_canvas_pixels,
            ),
            cfg,
        ),
    ensures
        cfg.declares_damage == entry.set_damage_region,
        cfg.submits_damage == (entry.swap_with_damage is Some),
        cfg.reports_resets == (entry.reset_status is Some),
        cfg.has_buffer_age == caps.has_buffer_age,
        cfg.has_ext_buffer_age == caps.has_ext_buffer_age,
        cfg.uploads_async == (caps.spec_tier() is TierA),
        cfg.gles_major == gles_major,
        cfg.has_robust_context == robust,
        cfg.surfaceless == surfaceless,
        cfg.single_sample == single_sample,
        cfg.share_2d == share_2d,
        cfg.max_canvas_pixels == max_canvas_pixels,
{
}

/// A swap with damage goes by the common entry point wherever the driver announces it and has
/// it, and by the other one only where it does not; resets are asked about only on a context
/// that reports them.
pub proof fn law_which_entry_points_are_used<R: Fn(Symbol) -> bool>(
    egl: &str,
    gl: &str,
    robust: bool,
    resolve: R,
    entry: EntryPoints,
)
    requires
        call_ensures(probe_entry_points::<R>, (egl, gl, robust, resolve), entry),
    ensures
        crate::text::occurs_in(egl@, "EGL_KHR_swap_buffers_with_damage"@) && !call_ensures(
            resolve,
            (Symbol::SwapWithDamageKhr,),
            false,
        ) ==> entry.swap_with_damage == Some(Symbol::SwapWithDamageKhr),
        !crate::text::occurs_in(egl@, "EGL_KHR_swap_buffers_with_damage"@)
            && !crate::text::occurs_in(egl@, "EGL_EXT_swap_buffers_with_damage"@)
            ==> entry.swap_with_damage is None,
        !crate::text::occurs_in(egl@, "EGL_KHR_partial_update"@) ==> !entry.set_damage_region,
        crate::text::occurs_in(egl@, "EGL_KHR_partial_update"@) && !call_ensures(
            resolve,
            (Symbol::SetDamageRegion,),
            false,
        ) ==> entry.set_damage_region,
        !robust ==> entry.reset_status is None,
        !crate::text::occurs_in(gl@, "GL_KHR_robustness"@) && !crate::text::occurs_in(
            gl@,
            "GL_EXT_robustness"@,
        ) ==> entry.reset_status is None,
        robust && crate::text::occurs_in(gl@, "GL_KHR_robustness"@) && !call_ensures(
            resolve,
            (Symbol::ResetStatusKhr,),
            false,
        ) ==> entry.reset_status == Some(Symbol::ResetStatusKhr),
{
}

/// The root of the share group shares with nobody, is current once it is made, and has a
/// surface unless the group goes without.
pub proof fn law_the_root_is_current<H: Fn(EglCall) -> Result<usize, EglError>>(
    major: u32,
    robust: bool,
    surfaceless: bool,
    root: EglContextHandle,
)
    ensures
        forall|egl: &mut EglRuntime<H>|
            #[trigger] call_ensures(
                create_root::<H>,
                (egl, major, robust, surfaceless),
                Ok::<EglContextHandle, EglError>(root),
            ) ==> {
                let after = (*final(egl))@;
                &&& after.root == Some(root)
                &&& after.made_by[root.ctx] == (EglCall::CreateContext {
                    share: None,
                    gles_major: major,
                    robust,
                })
                &&& after.ledger.current is Some && (after.ledger.current->0).context == root.ctx
                &&& root.surf is None == surfaceless
            },
{
}

/// Uploads run on a thread of their own only where the session is set up so, and are gated by
/// the budget that it was given from then on.
pub proof fn law_when_uploads_run_apart<
    F: Fn(GlCall) -> u32,
    H: Fn(EglCall) -> Result<usize, EglError>,
    P: Fn(PaintCall) -> u64,
>(
    gl: Gl<F>,
    egl: EglRuntime<H>,
    paint: Painters<P>,
    cfg: Config,
    root: EglContextHandle,
    frame_rate: u32,
    pixel_ratio: PixelRatio,
    server: UploadServer,
    m: CanvasManager<F, H, P>,
)
    requires
        call_ensures(
            CanvasManager::<F, H, P>::new_with_resource,
            (gl, egl, paint, cfg, root, frame_rate, pixel_ratio, server),
            m,
        ),
    ensures
        !cfg.uploads_async ==> m@.uploads.budget is None,
        m@.uploads.budget is Some ==> m@.uploads.budget == Some(server@) && m@.egl.uploads,
        m@.root == root,
        m@.next_canvas_id == 2,
        m@.bound is Resource,
        cfg.uploads_async && m@.egl.refused == egl@.refused ==> m@.uploads.budget is Some,
{
    if cfg.uploads_async && m@.egl.refused == egl@.refused && m@.uploads.budget is None {
        let e = choose|e: EglError|
            m@.egl.refused == #[trigger] egl@.refused.push(
                (EglCall::SpawnUploads { root: root.ctx }, e),
            );
        assert(m@.egl.refused.len() == egl@.refused.len() + 1);
    }
}

} // verus!
