//! The display: the calls that move ownership of contexts, surfaces and native targets,
//! and an account of what they have left alive.
use vstd::prelude::*;

use crate::damage::RectList;
use crate::egl_setup::EglError;
use crate::gl_device::Moment;
use crate::surface_ledger::SurfaceLedger;

verus! {

/// A context, and the surface it is made current with.
#[derive(Clone, Copy, Debug, PartialEq, Eq, Structural)]
pub struct EglContextHandle {
    pub ctx: usize,
    pub surf: Option<usize>,
}

/// One call on the display. Native targets go by the number under which their owner
/// keeps them.
#[derive(Clone, Copy, Debug, PartialEq, Eq, Structural)]
pub enum EglCall {
    BindApi,
    /// A context that shares its objects with another. The reply is its handle.
    CreateContext { share: Option<usize>, gles_major: u32, robust: bool },
    CreatePbufferSurface { width: u32, height: u32 },
    CreateWindowSurface { target: u64 },
    MakeCurrent { draw: Option<usize>, read: Option<usize>, context: Option<usize> },
    DestroySurface { surface: usize },
    DestroyContext { context: usize },
    /// An attribute of a surface: the reply's low half is its value.
    QuerySurface { surface: usize, attribute: i32 },
    /// Give the installed target the configuration of another one for the same window.
    Reconfigure { installed: u64, from: u64 },
    /// Ask the display to serve a frame rate.
    RequestFrameRate { target: u64, fps: u32 },
    /// Start the thread that uploads textures; it shares the root's objects.
    SpawnUploads { root: usize },
    /// Stop that thread and wait for it.
    StopUploads,
    /// How many frames ago the back buffer of a surface was last drawn. The reply is zero
    /// where its contents are unknown.
    BufferAge { surface: usize },
    /// Declare what is going to be drawn on a surface.
    DeclareDamage { surface: usize, rects: RectList },
    /// How many refreshes a swap waits for.
    SwapInterval { interval: i32 },
    /// Swap a surface, and tell the compositor what has changed on it.
    SwapWithDamage { surface: usize, rects: RectList },
    /// Swap a surface.
    SwapBuffers { surface: usize },
    Terminate,
}

/// The driver refused last to let the display go.
pub open spec fn shutdown_refused(m: EglModel) -> bool {
    m.refused.len() > 0 && m.refused.last().0 == EglCall::Terminate
}

/// A step that a display does not forget.
pub enum Step {
    /// A context was created by `call`.
    ContextMade { call: EglCall, context: usize },
    ContextGone { context: usize },
    SurfaceGone { surface: usize },
    UploadsStarted,
    UploadsStopped,
    Terminated,
}

/// What the calls so far have left.
pub struct EglModel {
    /// What was made and taken down, in that order.
    pub steps: Seq<Step>,
    /// Surfaces and contexts that were created and not destroyed.
    pub surfaces: Set<usize>,
    pub contexts: Set<usize>,
    /// Surfaces in the order in which they were destroyed.
    pub surfaces_gone: Seq<usize>,
    /// The native target of each window surface that is alive.
    pub windows: Map<usize, u64>,
    /// The call that each context was created by.
    pub made_by: Map<usize, EglCall>,
    /// The size that each pbuffer was created with.
    pub sizes: Map<usize, (u32, u32)>,
    pub ledger: crate::surface_ledger::Ledger,
    /// Surfaces whose destruction was asked for while they were referenced.
    pub reported: Seq<usize>,
    pub rate_requests: Seq<(u64, u32)>,
    /// Calls that the driver refused, with its reasons.
    pub refused: Seq<(EglCall, EglError)>,
    /// The ages of back buffers that the driver has told.
    pub ages: Seq<(usize, i32)>,
    /// What was declared for surfaces.
    pub declared: Seq<(usize, RectList)>,
    pub intervals: Seq<i32>,
    /// The swaps that happened, each with what the compositor was told.
    pub swaps: Seq<(usize, Option<RectList>)>,
    /// How far the calls on the library had come at each of these swaps, and how often the
    /// interval had been set.
    pub swapped_at: Seq<(Moment, nat)>,
    /// The installed targets that were given the configuration of another, with that other.
    pub reconfigured: Seq<(u64, u64)>,
    pub uploads: bool,
    /// The root of the share group.
    pub root: Option<EglContextHandle>,
    /// The display has not been shut down.
    pub up: bool,
    /// The driver confirmed that the display is gone.
    pub terminated: bool,
}

/// A display that has come from one state to another has forgotten nothing: refusals and
/// steps only add up.
pub open spec fn remembers(before: EglModel, after: EglModel) -> bool {
    &&& before.refused.len() <= after.refused.len()
    &&& forall|i: int|
        0 <= i < before.refused.len() ==> #[trigger] after.refused[i] == before.refused[i]
    &&& before.steps.len() <= after.steps.len()
    &&& forall|i: int|
        0 <= i < before.steps.len() ==> #[trigger] after.steps[i] == before.steps[i]
}

/// The driver has refused a call since an earlier state.
pub open spec fn refused_since(before: EglModel, after: EglModel, call: EglCall) -> bool {
    exists|i: int|
        before.refused.len() <= i < after.refused.len() && (#[trigger] after.refused[i]).0 == call
}

/// A step was made since an earlier state.
pub open spec fn stepped(before: EglModel, after: EglModel, step: Step) -> bool {
    exists|i: int|
        before.steps.len() <= i < after.steps.len() && #[trigger] after.steps[i] == step
}

/// A context was destroyed since an earlier state, or the driver refused to.
pub open spec fn context_unmade(before: EglModel, after: EglModel, context: usize) -> bool {
    ||| stepped(before, after, Step::ContextGone { context })
    ||| refused_since(before, after, EglCall::DestroyContext { context })
}

/// A surface was destroyed since an earlier state, or the driver refused to.
pub open spec fn surface_unmade(before: EglModel, after: EglModel, surface: usize) -> bool {
    ||| stepped(before, after, Step::SurfaceGone { surface })
    ||| refused_since(before, after, EglCall::DestroySurface { surface })
}

/// A context and its surface, where it has one, were destroyed since an earlier state, as
/// far as the driver agreed.
pub open spec fn pair_unmade(before: EglModel, after: EglModel, handle: EglContextHandle) -> bool {
    &&& context_unmade(before, after, handle.ctx)
    &&& handle.surf matches Some(s) ==> surface_unmade(before, after, s)
}

/// What was unmade within a stretch was unmade within a longer one.
pub proof fn lemma_unmade_within(
    first: EglModel,
    before: EglModel,
    after: EglModel,
    last: EglModel,
    handle: EglContextHandle,
)
    requires
        remembers(first, before),
        remembers(after, last),
    ensures
        context_unmade(before, after, handle.ctx) ==> context_unmade(first, last, handle.ctx),
        pair_unmade(before, after, handle) ==> pair_unmade(first, last, handle),
{
    let context = handle.ctx;
    lemma_step_within(first, before, after, last, Step::ContextGone { context });
    lemma_refusal_within(first, before, after, last, EglCall::DestroyContext { context });
    if handle.surf is Some {
        let surface = handle.surf->0;
        lemma_step_within(first, before, after, last, Step::SurfaceGone { surface });
        lemma_refusal_within(first, before, after, last, EglCall::DestroySurface { surface });
    }
}

/// A step of a stretch is a step of a longer one.
pub proof fn lemma_step_within(
    first: EglModel,
    before: EglModel,
    after: EglModel,
    last: EglModel,
    step: Step,
)
    requires
        remembers(first, before),
        remembers(after, last),
    ensures
        stepped(before, after, step) ==> stepped(first, last, step),
{
    if stepped(before, after, step) {
        let i = choose|i: int|
            before.steps.len() <= i < after.steps.len() && #[trigger] after.steps[i] == step;
        assert(last.steps[i] == step);
    }
}

/// A refusal within a stretch is one within a longer one.
pub proof fn lemma_refusal_within(
    first: EglModel,
    before: EglModel,
    after: EglModel,
    last: EglModel,
    call: EglCall,
)
    requires
        remembers(first, before),
        remembers(after, last),
    ensures
        refused_since(before, after, call) ==> refused_since(first, last, call),
{
    if refused_since(before, after, call) {
        let i = choose|i: int|
            before.refused.len() <= i < after.refused.len() && (#[trigger] after.refused[i]).0
                == call;
        assert(last.refused[i].0 == call);
    }
}

/// The account with one more refusal.
pub open spec fn refusal(m: EglModel, call: EglCall, e: EglError) -> EglModel {
    EglModel { refused: m.refused.push((call, e)), ..m }
}

/// The driver refused one more call.
pub open spec fn refused_once(before: EglModel, after: EglModel, call: EglCall) -> bool {
    exists|e: EglError| after.refused == #[trigger] before.refused.push((call, e))
}

/// The age of a back buffer; zero where the driver does not tell one that makes sense.
pub open spec fn age_of(reply: Result<usize, EglError>) -> i32 {
    match reply {
        Ok(age) => if age <= i32::MAX {
            age as i32
        } else {
            0
        },
        Err(_) => 0,
    }
}

/// What is left after a call that was answered `reply`.
pub open spec fn after_egl_call(
    m: EglModel,
    call: EglCall,
    reply: Result<usize, EglError>,
) -> EglModel {
    match (call, reply) {
        (EglCall::CreateContext { .. }, Ok(h)) => EglModel {
            contexts: m.contexts.insert(h),
            made_by: m.made_by.insert(h, call),
            steps: m.steps.push(Step::ContextMade { call, context: h }),
            ..m
        },
        (EglCall::CreatePbufferSurface { width, height }, Ok(h)) => EglModel {
            surfaces: m.surfaces.insert(h),
            sizes: m.sizes.insert(h, (width, height)),
            ..m
        },
        (EglCall::CreateWindowSurface { target }, Ok(h)) => EglModel {
            surfaces: m.surfaces.insert(h),
            windows: m.windows.insert(h, target),
            ..m
        },
        (EglCall::MakeCurrent { draw, read, context }, Ok(_)) => EglModel {
            ledger: crate::surface_ledger::after_make_current(draw, read, context),
            ..m
        },
        (EglCall::DestroySurface { surface }, Ok(_)) => EglModel {
            surfaces: m.surfaces.remove(surface),
            surfaces_gone: m.surfaces_gone.push(surface),
            steps: m.steps.push(Step::SurfaceGone { surface }),
            windows: m.windows.remove(surface),
            ledger: crate::surface_ledger::Ledger {
                current: m.ledger.current,
                held: m.ledger.held.remove(surface),
            },
            ..m
        },
        (EglCall::DestroyContext { context }, Ok(_)) => EglModel {
            contexts: m.contexts.remove(context),
            steps: m.steps.push(Step::ContextGone { context }),
            ledger: crate::surface_ledger::after_context_destroyed(m.ledger, context),
            ..m
        },
        (EglCall::RequestFrameRate { target, fps }, _) => EglModel {
            rate_requests: m.rate_requests.push((target, fps)),
            ..m
        },
        (EglCall::SpawnUploads { .. }, Ok(_)) => EglModel {
            uploads: true,
            steps: m.steps.push(Step::UploadsStarted),
            ..m
        },
        (EglCall::StopUploads, _) => EglModel {
            uploads: false,
            steps: m.steps.push(Step::UploadsStopped),
            ..m
        },
        (EglCall::BufferAge { surface }, _) => EglModel {
            ages: m.ages.push((surface, age_of(reply))),
            ..m
        },
        (EglCall::DeclareDamage { surface, rects }, Ok(_)) => EglModel {
            declared: m.declared.push((surface, rects)),
            ..m
        },
        (EglCall::SwapInterval { interval }, _) => EglModel {
            intervals: m.intervals.push(interval),
            ..m
        },
        (EglCall::SwapWithDamage { surface, rects }, Ok(_)) => EglModel {
            swaps: m.swaps.push((surface, Some(rects))),
            ..m
        },
        (EglCall::SwapBuffers { surface }, Ok(_)) => EglModel {
            swaps: m.swaps.push((surface, None)),
            ..m
        },
        (EglCall::Reconfigure { installed, from }, Ok(_)) => EglModel {
            reconfigured: m.reconfigured.push((installed, from)),
            ..m
        },
        (EglCall::Terminate, Ok(_)) => EglModel {
            surfaces: Set::empty(),
            contexts: Set::empty(),
            windows: Map::empty(),
            terminated: true,
            steps: m.steps.push(Step::Terminated),
            ..m
        },
        (_, Ok(_)) => m,
        (_, Err(e)) => refusal(m, call, e),
    }
}

/// The account of a surface's destruction being asked for: one that is still referenced is
/// put on record.
pub open spec fn noted(m: EglModel, surface: usize) -> EglModel {
    if m.ledger.held.contains(surface) {
        EglModel { reported: m.reported.push(surface), ..m }
    } else {
        m
    }
}

/// The upload thread runs on a root's objects, or the driver refused to start it.
pub open spec fn uploads_started(before: EglModel, after: EglModel, root: usize, running: bool) -> bool {
    &&& running ==> after.uploads && after.refused == before.refused
    &&& !running ==> after.uploads == before.uploads && refused_once(
        before,
        after,
        EglCall::SpawnUploads { root },
    )
}

/// The driver answered a call with that result.
pub open spec fn answered<H: Fn(EglCall) -> Result<usize, EglError>>(
    run: H,
    call: EglCall,
    result: Result<(), EglError>,
) -> bool {
    match result {
        Ok(_) => exists|h: usize| #[trigger] call_ensures(run, (call,), Ok::<usize, EglError>(h)),
        Err(e) => call_ensures(run, (call,), Err::<usize, EglError>(e)),
    }
}

/// Some window surface that is alive holds `target`.
pub open spec fn holds_target(m: EglModel, target: u64) -> bool {
    exists|s: usize| #[trigger] m.windows.dom().contains(s) && m.windows[s] == target
}

/// Makes calls on a display through `run` and keeps account of them.
pub struct EglRuntime<H> {
    run: H,
    resource: Option<EglContextHandle>,
    initialized: bool,
    termination_confirmed: bool,
    ledger: SurfaceLedger,
    reported: Vec<usize>,
    account: Ghost<EglModel>,
}

impl<H: Fn(EglCall) -> Result<usize, EglError>> View for EglRuntime<H> {
    type V = EglModel;

    closed spec fn view(&self) -> EglModel {
        EglModel {
            ledger: self.ledger@,
            root: self.resource,
            reported: self.reported@,
            up: self.initialized,
            terminated: self.termination_confirmed,
            ..self.account@
        }
    }
}

impl<H: Fn(EglCall) -> Result<usize, EglError>> EglRuntime<H> {
    /// How calls are made.
    pub closed spec fn runner(&self) -> H {
        self.run
    }

    /// The ledger is kept, and every call can be made.
    pub closed spec fn ready(&self) -> bool {
        &&& self.ledger.wf()
        &&& forall|call: EglCall| #[trigger] call_requires(self.run, (call,))
    }

    /// The display that has just come up.
    pub fn new(run: H) -> (runtime: Self)
        requires
            forall|call: EglCall| #[trigger] call_requires(run, (call,)),
        ensures
            runtime.ready(),
            runtime.runner() == run,
            runtime@ == (EglModel {
                steps: Seq::empty(),
                surfaces: Set::empty(),
                contexts: Set::empty(),
                surfaces_gone: Seq::empty(),
                windows: Map::empty(),
                made_by: Map::empty(),
                sizes: Map::empty(),
                ledger: crate::surface_ledger::after_make_current(None, None, None),
                reported: Seq::empty(),
                rate_requests: Seq::empty(),
                refused: Seq::empty(),
                ages: Seq::empty(),
                declared: Seq::empty(),
                intervals: Seq::empty(),
                swaps: Seq::empty(),
                swapped_at: Seq::empty(),
                reconfigured: Seq::empty(),
                uploads: false,
                root: None,
                up: true,
                terminated: false,
            }),
    {
        let runtime = EglRuntime {
            run,
            resource: None,
            initialized: true,
            termination_confirmed: false,
            ledger: SurfaceLedger::new(),
            reported: Vec::new(),
            account: Ghost(
                EglModel {
                    steps: Seq::empty(),
                    surfaces: Set::empty(),
                    contexts: Set::empty(),
                    surfaces_gone: Seq::empty(),
                    windows: Map::empty(),
                    made_by: Map::empty(),
                    sizes: Map::empty(),
                    ledger: crate::surface_ledger::after_make_current(None, None, None),
                    reported: Seq::empty(),
                    rate_requests: Seq::empty(),
                    refused: Seq::empty(),
                    ages: Seq::empty(),
                    declared: Seq::empty(),
                    intervals: Seq::empty(),
                    swaps: Seq::empty(),
                    swapped_at: Seq::empty(),
                    reconfigured: Seq::empty(),
                    uploads: false,
                    root: None,
                    up: true,
                    terminated: false,
                },
            ),
        };
        assert(runtime@.reported =~= Seq::empty());
        runtime
    }

    /// Make a call that moves no binding.
    fn issue(&mut self, call: EglCall) -> (reply: Result<usize, EglError>)
        requires
            old(self).ready(),
            !(call is MakeCurrent || call is DestroySurface || call is DestroyContext),
        ensures
            final(self).ready(),
            final(self).runner() == old(self).runner(),
            call_ensures(old(self).runner(), (call,), reply),
            final(self)@ == after_egl_call(old(self)@, call, reply),
    {
        let reply = (self.run)(call);
        self.account = Ghost(after_egl_call(self@, call, reply));
        if let EglCall::Terminate = call {
            if reply.is_ok() {
                self.termination_confirmed = true;
            }
        }
        assert forall|c: EglCall| #[trigger] call_requires(self.run, (c,)) by {
            assert(call_requires(old(self).run, (c,)));
        }
        reply
    }

    /// Select the client API.
    pub fn bind_api(&mut self) -> (result: Result<(), EglError>)
        requires
            old(self).ready(),
        ensures
            final(self).ready(),
            final(self).runner() == old(self).runner(),
            answered(old(self).runner(), EglCall::BindApi, result),
            match result {
                Ok(_) => final(self)@ == old(self)@,
                Err(e) => final(self)@ == refusal(old(self)@, EglCall::BindApi, e),
            },
    {
        match self.issue(EglCall::BindApi) {
            Ok(h) => {
                assert(call_ensures(
                    old(self).runner(),
                    (EglCall::BindApi,),
                    Ok::<usize, EglError>(h),
                ));
                Ok(())
            },
            Err(e) => Err(e),
        }
    }

    /// Create a context.
    pub fn create_context(&mut self, share: Option<usize>, gles_major: u32, robust: bool) -> (reply:
        Result<usize, EglError>)
        requires
            old(self).ready(),
        ensures
            final(self).ready(),
            final(self).runner() == old(self).runner(),
            call_ensures(
                old(self).runner(),
                (EglCall::CreateContext { share, gles_major, robust },),
                reply,
            ),
            final(self)@ == after_egl_call(
                old(self)@,
                EglCall::CreateContext { share, gles_major, robust },
                reply,
            ),
    {
        self.issue(EglCall::CreateContext { share, gles_major, robust })
    }

    /// Create a pbuffer.
    pub fn create_pbuffer_surface(&mut self, width: u32, height: u32) -> (reply: Result<
        usize,
        EglError,
    >)
        requires
            old(self).ready(),
        ensures
            final(self).ready(),
            final(self).runner() == old(self).runner(),
            call_ensures(
                old(self).runner(),
                (EglCall::CreatePbufferSurface { width, height },),
                reply,
            ),
            final(self)@ == after_egl_call(
                old(self)@,
                EglCall::CreatePbufferSurface { width, height },
                reply,
            ),
    {
        self.issue(EglCall::CreatePbufferSurface { width, height })
    }

    /// Create the window surface of a native target.
    pub fn create_window_surface(&mut self, target: u64) -> (reply: Result<usize, EglError>)
        requires
            old(self).ready(),
        ensures
            final(self).ready(),
            final(self).runner() == old(self).runner(),
            call_ensures(old(self).runner(), (EglCall::CreateWindowSurface { target },), reply),
            final(self)@ == after_egl_call(
                old(self)@,
                EglCall::CreateWindowSurface { target },
                reply,
            ),
    {
        self.issue(EglCall::CreateWindowSurface { target })
    }

    /// Give the installed target the configuration of another one.
    pub fn reconfigure(&mut self, installed: u64, from: u64) -> (reply: Result<usize, EglError>)
        requires
            old(self).ready(),
        ensures
            final(self).ready(),
            final(self).runner() == old(self).runner(),
            call_ensures(
                old(self).runner(),
                (EglCall::Reconfigure { installed, from },),
                reply,
            ),
            final(self)@ == after_egl_call(
                old(self)@,
                EglCall::Reconfigure { installed, from },
                reply,
            ),
    {
        self.issue(EglCall::Reconfigure { installed, from })
    }

    /// Ask the display to serve a frame rate.
    pub fn request_frame_rate(&mut self, target: u64, fps: u32)
        requires
            old(self).ready(),
        ensures
            final(self).ready(),
            final(self).runner() == old(self).runner(),
            final(self)@ == (EglModel {
                rate_requests: old(self)@.rate_requests.push((target, fps)),
                ..old(self)@
            }),
    {
        let _ = self.issue(EglCall::RequestFrameRate { target, fps });
    }

    /// How many frames ago a surface's back buffer was last drawn; zero where that is not
    /// known.
    pub fn buffer_age(&mut self, surface: usize) -> (age: i32)
        requires
            old(self).ready(),
        ensures
            final(self).ready(),
            final(self).runner() == old(self).runner(),
            final(self)@ == (EglModel { ages: old(self)@.ages.push((surface, age)), ..old(self)@ }),
            exists|reply: Result<usize, EglError>| #[trigger]
                call_ensures(old(self).runner(), (EglCall::BufferAge { surface },), reply) && age
                    == age_of(reply),
    {
        let reply = self.issue(EglCall::BufferAge { surface });
        assert(call_ensures(old(self).runner(), (EglCall::BufferAge { surface },), reply));
        match reply {
            Ok(age) => if age <= 0x7FFF_FFFF {
                age as i32
            } else {
                0
            },
            Err(_) => 0,
        }
    }

    /// Declare what is going to be drawn on a surface. The answer is whether the driver
    /// takes it.
    pub fn declare_damage(&mut self, surface: usize, rects: RectList) -> (declared: bool)
        requires
            old(self).ready(),
        ensures
            final(self).ready(),
            final(self).runner() == old(self).runner(),
            final(self)@ == (EglModel {
                declared: final(self)@.declared,
                refused: final(self)@.refused,
                ..old(self)@
            }),
            final(self)@.declared == (if declared {
                old(self)@.declared.push((surface, rects))
            } else {
                old(self)@.declared
            }),
            declared ==> final(self)@.refused == old(self)@.refused,
            !declared ==> refused_once(
                old(self)@,
                final(self)@,
                EglCall::DeclareDamage { surface, rects },
            ),
    {
        self.issue(EglCall::DeclareDamage { surface, rects }).is_ok()
    }

    /// Say how many refreshes a swap waits for.
    pub fn swap_interval(&mut self, interval: i32)
        requires
            old(self).ready(),
        ensures
            final(self).ready(),
            final(self).runner() == old(self).runner(),
            final(self)@ == (EglModel {
                intervals: old(self)@.intervals.push(interval),
                ..old(self)@
            }),
    {
        let _ = self.issue(EglCall::SwapInterval { interval });
    }

    /// Keep account of when a swap happened.
    fn account_swap(&mut self, Ghost(at): Ghost<Moment>)
        requires
            old(self).ready(),
        ensures
            final(self).ready(),
            final(self).runner() == old(self).runner(),
            final(self)@ == (EglModel {
                swapped_at: old(self)@.swapped_at.push((at, old(self)@.intervals.len())),
                ..old(self)@
            }),
    {
        self.account = Ghost(
            EglModel {
                swapped_at: self.account@.swapped_at.push((at, self.account@.intervals.len())),
                ..self.account@
            },
        );
    }

    /// Swap a surface, and tell the compositor what has changed on it. The answer is whether
    /// the swap happened. The calls on the library had come as far as `at`.
    pub(crate) fn swap_with_damage(
        &mut self,
        surface: usize,
        rects: RectList,
        Ghost(at): Ghost<Moment>,
    ) -> (swapped: bool)
        requires
            old(self).ready(),
        ensures
            final(self).ready(),
            final(self).runner() == old(self).runner(),
            final(self)@ == (EglModel {
                swaps: final(self)@.swaps,
                swapped_at: final(self)@.swapped_at,
                refused: final(self)@.refused,
                ..old(self)@
            }),
            final(self)@.swaps == (if swapped {
                old(self)@.swaps.push((surface, Some(rects)))
            } else {
                old(self)@.swaps
            }),
            final(self)@.swapped_at == (if swapped {
                old(self)@.swapped_at.push((at, old(self)@.intervals.len()))
            } else {
                old(self)@.swapped_at
            }),
            swapped ==> final(self)@.refused == old(self)@.refused,
            !swapped ==> refused_once(
                old(self)@,
                final(self)@,
                EglCall::SwapWithDamage { surface, rects },
            ),
    {
        let swapped: bool = self.issue(EglCall::SwapWithDamage { surface, rects }).is_ok();
        if swapped {
            self.account_swap(Ghost(at));
        }
        swapped
    }

    /// Swap a surface, with the calls on the library as far as `at`.
    pub(crate) fn swap_buffers(&mut self, surface: usize, Ghost(at): Ghost<Moment>) -> (result:
        Result<(), EglError>)
        requires
            old(self).ready(),
        ensures
            final(self).ready(),
            final(self).runner() == old(self).runner(),
            match result {
                Ok(_) => final(self)@ == (EglModel {
                    swaps: old(self)@.swaps.push((surface, None::<RectList>)),
                    swapped_at: old(self)@.swapped_at.push((at, old(self)@.intervals.len())),
                    ..old(self)@
                }),
                Err(e) => final(self)@ == refusal(old(self)@, EglCall::SwapBuffers { surface }, e),
            },
    {
        match self.issue(EglCall::SwapBuffers { surface }) {
            Ok(_) => {
                self.account_swap(Ghost(at));
                Ok(())
            },
            Err(e) => Err(e),
        }
    }

    /// Start the upload thread. The answer is whether it runs.
    pub fn spawn_uploads(&mut self, root: usize) -> (running: bool)
        requires
            old(self).ready(),
        ensures
            final(self).ready(),
            final(self).runner() == old(self).runner(),
            exists|reply: Result<usize, EglError>| #[trigger]
                call_ensures(old(self).runner(), (EglCall::SpawnUploads { root },), reply)
                    && running == (reply is Ok) && final(self)@ == after_egl_call(
                    old(self)@,
                    EglCall::SpawnUploads { root },
                    reply,
                ),
    {
        let reply = self.issue(EglCall::SpawnUploads { root });
        assert(call_ensures(old(self).runner(), (EglCall::SpawnUploads { root },), reply));
        reply.is_ok()
    }

    /// Stop the upload thread.
    pub fn stop_uploads(&mut self)
        requires
            old(self).ready(),
        ensures
            final(self).ready(),
            final(self).runner() == old(self).runner(),
            final(self)@ == (EglModel {
                uploads: false,
                steps: old(self)@.steps.push(Step::UploadsStopped),
                ..old(self)@
            }),
    {
        let _ = self.issue(EglCall::StopUploads);
    }

    /// A side of a surface, as far as the driver tells: at least one pixel.
    pub fn query_side(&mut self, surface: usize, attribute: i32) -> (side: u32)
        requires
            old(self).ready(),
        ensures
            final(self).ready(),
            final(self).runner() == old(self).runner(),
            exists|reply: Result<usize, EglError>| #[trigger]
                call_ensures(
                    old(self).runner(),
                    (EglCall::QuerySurface { surface, attribute },),
                    reply,
                ) && side == side_of(reply) && final(self)@ == after_egl_call(
                    old(self)@,
                    EglCall::QuerySurface { surface, attribute },
                    reply,
                ),
            side >= 1,
    {
        let reply = self.issue(EglCall::QuerySurface { surface, attribute });
        assert(call_ensures(
            old(self).runner(),
            (EglCall::QuerySurface { surface, attribute },),
            reply,
        ));
        match reply {
            Err(_) => 1,
            Ok(bits) => {
                let value: i32 = bits as u32 as i32;
                if value < 1 {
                    1
                } else {
                    value as u32
                }
            },
        }
    }

    /// Make a context current, and record it once the driver has agreed.
    pub fn make_current(
        &mut self,
        draw: Option<usize>,
        read: Option<usize>,
        context: Option<usize>,
    ) -> (result: Result<(), EglError>)
        requires
            old(self).ready(),
        ensures
            final(self).ready(),
            final(self).runner() == old(self).runner(),
            answered(
                old(self).runner(),
                EglCall::MakeCurrent { draw, read, context },
                result,
            ),
            match result {
                Ok(_) => final(self)@ == (EglModel {
                    ledger: crate::surface_ledger::after_make_current(draw, read, context),
                    ..old(self)@
                }),
                Err(e) => final(self)@ == refusal(
                    old(self)@,
                    EglCall::MakeCurrent { draw, read, context },
                    e,
                ),
            },
    {
        let reply = (self.run)(EglCall::MakeCurrent { draw, read, context });
        assert forall|c: EglCall| #[trigger] call_requires(self.run, (c,)) by {
            assert(call_requires(old(self).run, (c,)));
        }
        match reply {
            Err(e) => {
                self.account = Ghost(
                    refusal(self.account@, EglCall::MakeCurrent { draw, read, context }, e),
                );
                Err(e)
            },
            Ok(h) => {
                assert(call_ensures(
                    old(self).runner(),
                    (EglCall::MakeCurrent { draw, read, context },),
                    Ok::<usize, EglError>(h),
                ));
                self.ledger.made_current(draw, read, context);
                Ok(())
            },
        }
    }

    /// Destroy a surface. One that is still referenced is put on record first, because
    /// the driver will then defer the destroy and say nothing.
    pub fn destroy_surface(&mut self, surface: usize) -> (result: Result<(), EglError>)
        requires
            old(self).ready(),
        ensures
            final(self).ready(),
            final(self).runner() == old(self).runner(),
            ({
                let asked = noted(old(self)@, surface);
                &&& answered(old(self).runner(), EglCall::DestroySurface { surface }, result)
                &&& match result {
                    Ok(_) => final(self)@ == after_egl_call(
                        asked,
                        EglCall::DestroySurface { surface },
                        Ok(0),
                    ),
                    Err(e) => final(self)@ == refusal(
                        asked,
                        EglCall::DestroySurface { surface },
                        e,
                    ),
                }
            }),
    {
        if self.ledger.references(surface) > 0 {
            self.reported.push(surface);
        }
        let reply = (self.run)(EglCall::DestroySurface { surface });
        assert forall|c: EglCall| #[trigger] call_requires(self.run, (c,)) by {
            assert(call_requires(old(self).run, (c,)));
        }
        match reply {
            Err(e) => {
                self.account = Ghost(
                    refusal(self.account@, EglCall::DestroySurface { surface }, e),
                );
                Err(e)
            },
            Ok(h) => {
                assert(call_ensures(
                    old(self).runner(),
                    (EglCall::DestroySurface { surface },),
                    Ok::<usize, EglError>(h),
                ));
                self.ledger.surface_destroyed(surface);
                self.account = Ghost(
                    EglModel {
                        surfaces: self.account@.surfaces.remove(surface),
                        surfaces_gone: self.account@.surfaces_gone.push(surface),
                        steps: self.account@.steps.push(Step::SurfaceGone { surface }),
                        windows: self.account@.windows.remove(surface),
                        ..self.account@
                    },
                );
                Ok(())
            },
        }
    }

    /// Destroy a context, and record that it let its surfaces go.
    pub fn destroy_context(&mut self, context: usize) -> (result: Result<(), EglError>)
        requires
            old(self).ready(),
        ensures
            final(self).ready(),
            final(self).runner() == old(self).runner(),
            answered(old(self).runner(), EglCall::DestroyContext { context }, result),
            match result {
                Ok(_) => final(self)@ == after_egl_call(
                    old(self)@,
                    EglCall::DestroyContext { context },
                    Ok(0),
                ),
                Err(e) => final(self)@ == refusal(
                    old(self)@,
                    EglCall::DestroyContext { context },
                    e,
                ),
            },
    {
        let reply = (self.run)(EglCall::DestroyContext { context });
        assert forall|c: EglCall| #[trigger] call_requires(self.run, (c,)) by {
            assert(call_requires(old(self).run, (c,)));
        }
        match reply {
            Err(e) => {
                self.account = Ghost(
                    refusal(self.account@, EglCall::DestroyContext { context }, e),
                );
                Err(e)
            },
            Ok(h) => {
                assert(call_ensures(
                    old(self).runner(),
                    (EglCall::DestroyContext { context },),
                    Ok::<usize, EglError>(h),
                ));
                self.ledger.context_destroyed(context);
                self.account = Ghost(
                    EglModel {
                        contexts: self.account@.contexts.remove(context),
                        steps: self.account@.steps.push(Step::ContextGone { context }),
                        ..self.account@
                    },
                );
                Ok(())
            },
        }
    }

    /// The surfaces that were put on record since this was last asked.
    pub fn take_reported(&mut self) -> (reported: Vec<usize>)
        requires
            old(self).ready(),
        ensures
            final(self).ready(),
            final(self).runner() == old(self).runner(),
            reported@ == old(self)@.reported,
            final(self)@ == (EglModel { reported: Seq::empty(), ..old(self)@ }),
    {
        let mut reported: Vec<usize> = Vec::new();
        std::mem::swap(&mut reported, &mut self.reported);
        assert forall|c: EglCall| #[trigger] call_requires(self.run, (c,)) by {
            assert(call_requires(old(self).run, (c,)));
        }
        assert(self@.reported =~= Seq::empty());
        reported
    }

    /// Take ownership of the root of the share group. There is at most one.
    pub fn track_resource(&mut self, root: EglContextHandle)
        requires
            old(self).ready(),
            old(self)@.root is None,
        ensures
            final(self).ready(),
            final(self).runner() == old(self).runner(),
            final(self)@ == (EglModel { root: Some(root), ..old(self)@ }),
    {
        self.resource = Some(root);
        assert forall|c: EglCall| #[trigger] call_requires(self.run, (c,)) by {
            assert(call_requires(old(self).run, (c,)));
        }
    }

    /// Give the root of the share group back.
    pub fn untrack_resource(&mut self) -> (root: Option<EglContextHandle>)
        requires
            old(self).ready(),
        ensures
            final(self).ready(),
            final(self).runner() == old(self).runner(),
            root == old(self)@.root,
            final(self)@ == (EglModel { root: None, ..old(self)@ }),
    {
        let root = self.resource.take();
        assert forall|c: EglCall| #[trigger] call_requires(self.run, (c,)) by {
            assert(call_requires(old(self).run, (c,)));
        }
        root
    }

    /// Final teardown of the display: nothing current, the root destroyed, the display
    /// terminated. The answer is whether the driver confirmed the termination, now or in
    /// an earlier call: a second call asks the driver nothing.
    pub fn shutdown(&mut self) -> (gone: bool)
        requires
            old(self).ready(),
        ensures
            final(self).ready(),
            final(self).runner() == old(self).runner(),
            gone == final(self)@.terminated,
            !final(self)@.up,
            !old(self)@.up ==> final(self)@ == old(self)@,
            final(self)@.uploads == old(self)@.uploads,
            final(self)@.contexts.subset_of(old(self)@.contexts),
            old(self)@.up ==> {
                &&& final(self)@.root is None
                &&& old(self)@.root matches Some(root) ==> pair_unmade(
                    old(self)@,
                    final(self)@,
                    root,
                )
                &&& final(self)@.ledger.current is None || refused_since(
                    old(self)@,
                    final(self)@,
                    EglCall::MakeCurrent { draw: None, read: None, context: None },
                )
                &&& gone && !old(self)@.terminated ==> final(self)@.steps.len() > 0 && final(
                    self)@.steps.last() == Step::Terminated
                &&& exists|reply: Result<usize, EglError>| #[trigger]
                    call_ensures(old(self).runner(), (EglCall::Terminate,), reply) && gone == (
                    old(self)@.terminated || reply is Ok)
                &&& gone && !old(self)@.terminated ==> final(self)@.windows
                    == Map::<usize, u64>::empty() && final(self)@.surfaces == Set::<usize>::empty()
                    && final(self)@.contexts == Set::<usize>::empty()
                &&& !gone ==> shutdown_refused(final(self)@)
                &&& !gone ==> (forall|s: usize| #[trigger]
                    final(self)@.windows.dom().contains(s) ==> old(self)@.windows.dom().contains(s)
                        && final(self)@.windows[s] == old(self)@.windows[s])
            },
            remembers(old(self)@, final(self)@),
            forall|s: usize|
                old(self)@.surfaces_gone.contains(s)
                    ==> #[trigger] final(self)@.surfaces_gone.contains(s),
    {
        if !self.initialized {
            return self.termination_confirmed;
        }
        self.initialized = false;
        let resource = self.resource.take();
        assert forall|c: EglCall| #[trigger] call_requires(self.run, (c,)) by {
            assert(call_requires(old(self).run, (c,)));
        }
        let idle = self.make_current(None, None, None);
        let ghost start = self@;
        proof {
            if idle is Err {
                assert(self@.refused[old(self)@.refused.len() as int].0 == EglCall::MakeCurrent {
                    draw: None,
                    read: None,
                    context: None,
                });
            }
        }
        if let Some(root) = resource {
            if let Some(surface) = root.surf {
                let ghost idle = self@;
                let _ = self.destroy_surface(surface);
                proof {
                    if self@.refused == idle.refused {
                        assert(self@.steps[idle.steps.len() as int] == Step::SurfaceGone {
                            surface,
                        });
                    } else {
                        assert(self@.refused[idle.refused.len() as int].0
                            == EglCall::DestroySurface { surface });
                    }
                    assert(surface_unmade(idle, self@, surface));
                    lemma_step_within(
                        old(self)@,
                        idle,
                        self@,
                        self@,
                        Step::SurfaceGone { surface },
                    );
                    lemma_refusal_within(
                        old(self)@,
                        idle,
                        self@,
                        self@,
                        EglCall::DestroySurface { surface },
                    );
                    let before = old(self)@.surfaces_gone;
                    assert forall|s: usize| before.contains(s) implies before.push(
                        surface,
                    ).contains(s) by {
                        let k = before.index_of(s);
                        assert(before.push(surface)[k] == s);
                    }
                }
            }
            let ghost bare = self@;
            let _ = self.destroy_context(root.ctx);
            proof {
                lemma_taken_down(old(self)@, bare, self@, root);
            }
        }
        let ghost rootless = self@;
        let reply = self.issue(EglCall::Terminate);
        assert(call_ensures(old(self).runner(), (EglCall::Terminate,), reply));
        proof {
            lemma_refusal_within(
                old(self)@,
                old(self)@,
                start,
                self@,
                EglCall::MakeCurrent { draw: None, read: None, context: None },
            );
            if resource is Some {
                lemma_unmade_within(old(self)@, old(self)@, rootless, self@, resource->0);
            }
        }
        self.termination_confirmed
    }
}

/// A root whose surface and context were each destroyed or kept by the driver is unmade as
/// far as the driver agreed.
proof fn lemma_taken_down(
    before: EglModel,
    bare: EglModel,
    after: EglModel,
    root: EglContextHandle,
)
    requires
        remembers(before, bare),
        remembers(bare, after),
        root.surf matches Some(surface) ==> surface_unmade(before, bare, surface),
        ({
            let destroy = EglCall::DestroyContext { context: root.ctx };
            ||| after.steps == bare.steps.push(Step::ContextGone { context: root.ctx })
            ||| exists|e: EglError| after.refused == #[trigger] bare.refused.push((destroy, e))
        }),
    ensures
        pair_unmade(before, after, root),
{
    let context = root.ctx;
    if after.steps == bare.steps.push(Step::ContextGone { context }) {
        assert(after.steps[bare.steps.len() as int] == Step::ContextGone { context });
    } else {
        let destroy = EglCall::DestroyContext { context };
        assert(after.refused[bare.refused.len() as int].0 == destroy);
    }
    if root.surf is Some {
        let surface = root.surf->0;
        lemma_step_within(before, before, bare, after, Step::SurfaceGone { surface });
        lemma_refusal_within(before, before, bare, after, EglCall::DestroySurface { surface });
    }
}

/// A side of a surface from the answer to a query.
pub open spec fn side_of(reply: Result<usize, EglError>) -> u32 {
    match reply {
        Err(_) => 1,
        Ok(bits) => {
            let value = bits as u32 as i32;
            if value < 1 {
                1
            } else {
                value as u32
            }
        },
    }
}

/// What is left after a context and, unless the group is surfaceless, its pbuffer were
/// created.
pub open spec fn with_pair(
    m: EglModel,
    handle: EglContextHandle,
    creation: EglCall,
    width: u32,
    height: u32,
) -> EglModel {
    EglModel {
        contexts: m.contexts.insert(handle.ctx),
        made_by: m.made_by.insert(handle.ctx, creation),
        steps: m.steps.push(Step::ContextMade { call: creation, context: handle.ctx }),
        surfaces: match handle.surf {
            Some(s) => m.surfaces.insert(s),
            None => m.surfaces,
        },
        sizes: match handle.surf {
            Some(s) => m.sizes.insert(s, (width, height)),
            None => m.sizes,
        },
        ..m
    }
}

/// No context is there that was not, unless the driver refused to destroy one.
pub open spec fn contexts_settled(before: EglModel, after: EglModel) -> bool {
    ||| after.contexts.subset_of(before.contexts)
    ||| exists|context: usize| #[trigger]
        refused_since(before, after, EglCall::DestroyContext { context })
}

/// A context was created, its pbuffer refused, and the context destroyed, as far as the
/// driver agreed.
pub open spec fn given_up(
    before: EglModel,
    after: EglModel,
    creation: EglCall,
    context: usize,
    pbuffer: EglCall,
    e: EglError,
) -> bool {
    let made = refusal(after_egl_call(before, creation, Ok(context)), pbuffer, e);
    let destroy = EglCall::DestroyContext { context };
    ||| after == after_egl_call(made, destroy, Ok(0))
    ||| exists|why: EglError| after == #[trigger] refusal(made, destroy, why)
}

/// Create an offscreen context and, unless the share group is surfaceless, its pbuffer.
/// A context whose pbuffer cannot be created is destroyed.
pub fn create_pbuffer_context<H: Fn(EglCall) -> Result<usize, EglError>>(
    egl: &mut EglRuntime<H>,
    share: Option<usize>,
    width: u32,
    height: u32,
    gles_major: u32,
    robust: bool,
    surfaceless: bool,
) -> (result: Result<EglContextHandle, EglError>)
    requires
        old(egl).ready(),
    ensures
        final(egl).ready(),
        final(egl).runner() == old(egl).runner(),
        result is Err ==> contexts_settled(old(egl)@, final(egl)@),
        ({
            let run = old(egl).runner();
            let context = EglCall::CreateContext { share, gles_major, robust };
            let pbuffer = EglCall::CreatePbufferSurface { width, height };
            match result {
                Ok(handle) => {
                    &&& call_ensures(run, (context,), Ok::<usize, EglError>(handle.ctx))
                    &&& surfaceless ==> handle.surf is None
                    &&& !surfaceless ==> (handle.surf matches Some(s) && call_ensures(
                        run,
                        (pbuffer,),
                        Ok::<usize, EglError>(s),
                    ))
                    &&& final(egl)@ == with_pair(old(egl)@, handle, context, width, height)
                },
                Err(e) => {
                    ||| call_ensures(run, (EglCall::BindApi,), Err::<usize, EglError>(e)) && final(
                        egl)@ == refusal(old(egl)@, EglCall::BindApi, e)
                    ||| call_ensures(run, (context,), Err::<usize, EglError>(e)) && final(egl)@
                        == refusal(old(egl)@, context, e)
                    ||| !surfaceless && call_ensures(run, (pbuffer,), Err::<usize, EglError>(e))
                        && exists|c: usize| #[trigger]
                        call_ensures(run, (context,), Ok::<usize, EglError>(c)) && given_up(
                            old(egl)@,
                            final(egl)@,
                            context,
                            c,
                            pbuffer,
                            e,
                        )
                },
            }
        }),
{
    if let Err(e) = egl.bind_api() {
        return Err(e);
    }
    match egl.create_context(share, gles_major, robust) {
        Err(e) => Err(e),
        Ok(ctx) => {
            if surfaceless {
                return Ok(EglContextHandle { ctx, surf: None });
            }
            match egl.create_pbuffer_surface(width, height) {
                Ok(surf) => Ok(EglContextHandle { ctx, surf: Some(surf) }),
                Err(e) => {
                    let destroyed = egl.destroy_context(ctx);
                    proof {
                        if destroyed is Err {
                            assert(egl@.refused[old(egl)@.refused.len() as int + 1].0
                                == EglCall::DestroyContext { context: ctx });
                            assert(refused_since(
                                old(egl)@,
                                egl@,
                                EglCall::DestroyContext { context: ctx },
                            ));
                        }
                    }
                    assert(given_up(
                        old(egl)@,
                        egl@,
                        EglCall::CreateContext { share, gles_major, robust },
                        ctx,
                        EglCall::CreatePbufferSurface { width, height },
                        e,
                    ));
                    Err(e)
                },
            }
        },
    }
}

/// A surface that no context has current is destroyed at once: nothing is put on record,
/// and nothing of it is left.
pub proof fn law_unreferenced_surfaces_go_at_once(m: EglModel, surface: usize)
    requires
        !m.ledger.held.contains(surface),
    ensures
        ({
            let after = after_egl_call(m, EglCall::DestroySurface { surface }, Ok(0));
            &&& after.reported == m.reported
            &&& !after.surfaces.contains(surface)
            &&& !after.windows.dom().contains(surface)
            &&& after.ledger.held =~= m.ledger.held
        }),
{
}

/// Terminating the display lets every native target go.
pub proof fn law_termination_releases_every_target(m: EglModel, target: u64)
    ensures
        !holds_target(after_egl_call(m, EglCall::Terminate, Ok(0)), target),
{
}

/// The age of a back buffer is what the driver says, and zero, unknown, where it does not say.
pub proof fn law_an_age_is_what_the_driver_says(reply: Result<usize, EglError>)
    ensures
        reply is Err ==> age_of(reply) == 0,
        reply matches Ok(age) ==> age <= i32::MAX ==> age_of(reply) == age,
        reply matches Ok(age) ==> age > i32::MAX ==> age_of(reply) == 0,
{
}

/// A side of a surface is what the driver says, and one pixel where it does not say or says
/// none.
pub proof fn law_a_side_is_what_the_driver_says(reply: Result<usize, EglError>)
    ensures
        reply is Err ==> side_of(reply) == 1,
        reply matches Ok(side) ==> 1 <= side <= i32::MAX ==> side_of(reply) == side,
        reply == Ok::<usize, EglError>(0) ==> side_of(reply) == 1,
        side_of(reply) >= 1,
{
}

/// An offscreen context comes with a pbuffer of the size asked for, unless the group goes
/// without surfaces, and shares the objects of the context that it was asked to share with.
pub proof fn law_an_offscreen_context_comes_with_its_pbuffer<
    H: Fn(EglCall) -> Result<usize, EglError>,
>(
    share: Option<usize>,
    width: u32,
    height: u32,
    major: u32,
    robust: bool,
    surfaceless: bool,
    handle: EglContextHandle,
)
    ensures
        forall|egl: &mut EglRuntime<H>|
            #[trigger] call_ensures(
                create_pbuffer_context::<H>,
                (egl, share, width, height, major, robust, surfaceless),
                Ok::<EglContextHandle, EglError>(handle),
            ) ==> {
                let after = (*final(egl))@;
                &&& handle.surf is None == surfaceless
                &&& after.contexts.contains(handle.ctx)
                &&& after.made_by[handle.ctx] == (EglCall::CreateContext {
                    share,
                    gles_major: major,
                    robust,
                })
                &&& handle.surf matches Some(s) ==> after.surfaces.contains(s) && after.sizes[s]
                    == (width, height)
            },
{
}

/// What is current is what the driver agreed to make current, and nothing else where it did
/// not agree.
pub proof fn law_what_is_current_is_what_was_agreed<H: Fn(EglCall) -> Result<usize, EglError>>(
    draw: Option<usize>,
    read: Option<usize>,
    context: usize,
    result: Result<(), EglError>,
)
    ensures
        forall|egl: &mut EglRuntime<H>|
            #[trigger] call_ensures(
                EglRuntime::<H>::make_current,
                (egl, draw, read, Some(context)),
                result,
            ) ==> {
                let before = (*egl)@;
                let after = (*final(egl))@;
                &&& result is Ok ==> after.ledger.current is Some && (
                after.ledger.current->0).context == context && (after.ledger.current->0).draw
                    == draw && (after.ledger.current->0).read == read
                &&& result is Err ==> after.ledger == before.ledger
                &&& after.contexts == before.contexts && after.surfaces == before.surfaces
            },
{
}

} // verus!
