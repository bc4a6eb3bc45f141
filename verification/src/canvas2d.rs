//! Commands on 2D canvases: what is prepared for each, and who is told when it fails.
use vstd::prelude::*;

use crate::canvases::BackingSizeOwner;
use crate::egl_device::EglCall;
use crate::egl_setup::EglError;
use crate::gl_device::GlCall;
use crate::manager::CanvasError;
use crate::manager::CanvasManager;
use crate::manager::Mgr;
use crate::painters::PaintCall;
use crate::snapshots::CopyError;
use crate::snapshots::SnapshotError;
use crate::snapshots::SnapshotRequest;

verus! {

/// A command on a 2D canvas.
#[derive(Clone, Copy, Debug, PartialEq, Eq, Structural)]
pub enum Canvas2dCmd {
    CreateContext2D,
    ResizeCanvas { w: Option<u32>, h: Option<u32> },
    /// Somebody waits for pixels of the canvas.
    GetImageData,
    /// Somebody waits for the pixels of a snapshot.
    ReadSnapshotPixels { snapshot_id: u32 },
    /// Capture a region, for the text cache under a key if there is one.
    CaptureSnapshot { request: SnapshotRequest, cache_key: Option<u64> },
    /// Somebody waits for the measure of a text.
    MeasureText,
    /// Anything that the canvas's 2D context does itself.
    Apply { shapes_text: bool },
}

/// What is left to do for a command.
pub enum Canvas2dStep {
    Done,
    /// Whoever waits is told of an error.
    Fail(CanvasError),
    /// The context is current: read the pixels and answer with them.
    ReadImageData,
    /// Whoever waits gets these pixels.
    Pixels(Vec<u8>),
    /// A capture has that identifier; zero where there is none.
    Captured(u32),
    /// The context is current: measure the text and answer.
    Measure,
    /// The context is current: let it act, with the text shaper locked if it needs it.
    Apply { locks_text: bool },
}

/// A canvas was made current and found to have a 2D context, or was not.
pub open spec fn readied(before: Mgr, after: Mgr, id: u32, result: Result<(), CanvasError>) -> bool {
    match result {
        Ok(_) => crate::binding::made_current(before, after, id, Ok(()))
            && before.contexts.dom().contains(id),
        Err(e) => {
            ||| crate::binding::made_current(before, after, id, Err(e))
            ||| {
                &&& e == CanvasError::NotFound
                &&& crate::binding::made_current(before, after, id, Ok(()))
                &&& !before.contexts.dom().contains(id)
            }
        },
    }
}

/// The session with a capture marked for the text cache, if it was made and has a key.
pub open spec fn keyed(
    m: Mgr,
    request: SnapshotRequest,
    cache_key: Option<u64>,
    captured: u32,
) -> Mgr {
    match cache_key {
        Some(key) => if captured != 0 {
            Mgr {
                snapshots: crate::snapshots::marked(m.snapshots, request.snapshot_id, key),
                ..m
            }
        } else {
            m
        },
        None => m,
    }
}

/// The identifier of a capture; one that failed has none.
pub open spec fn captured_id(result: Result<u32, SnapshotError>) -> u32 {
    match result {
        Ok(id) => id,
        Err(_) => 0,
    }
}

/// A command was prepared.
pub open spec fn dispatched<ReadBack: Fn(u32, u32) -> Vec<u8>>(
    before: Mgr,
    after: Mgr,
    id: u32,
    cmd: Canvas2dCmd,
    read: ReadBack,
    result: Result<Canvas2dStep, CanvasError>,
) -> bool {
    match cmd {
        Canvas2dCmd::CreateContext2D => {
            &&& crate::painting::only_painting_moved(before, after)
            &&& match result {
                Ok(step) => step is Done && crate::painting::context_outcome(
                    before,
                    after,
                    id,
                    Ok(()),
                ),
                Err(e) => crate::painting::context_outcome(before, after, id, Err(e)),
            }
        },
        Canvas2dCmd::ResizeCanvas { w, h } => {
            &&& result matches Ok(step) && step is Done
            &&& exists|resized: Result<(), CanvasError>| #[trigger]
                crate::canvases::resize_outcome(
                    before,
                    after,
                    id,
                    w,
                    h,
                    BackingSizeOwner::Content,
                    resized,
                )
        },
        Canvas2dCmd::GetImageData => match result {
            Ok(Canvas2dStep::ReadImageData) => readied(before, after, id, Ok(())),
            Ok(Canvas2dStep::Fail(e)) => readied(before, after, id, Err(e)),
            _ => false,
        },
        Canvas2dCmd::ReadSnapshotPixels { snapshot_id } => {
            &&& result matches Ok(Canvas2dStep::Pixels(pixels)) && exists|
                readback: Result<Vec<u8>, CopyError>,
            | #[trigger]
                crate::captures::readback_outcome(before, after, snapshot_id, read, readback) && (
                match readback {
                    Ok(bytes) => pixels == bytes,
                    Err(_) => pixels@.len() == 0,
                })
        },
        Canvas2dCmd::CaptureSnapshot { request, cache_key } => {
            &&& result matches Ok(Canvas2dStep::Captured(captured)) && exists|
                taken: Mgr,
                capture: Result<u32, SnapshotError>,
            | #[trigger]
                crate::captures::capture_outcome(before, taken, id, request, capture) && captured
                    == captured_id(capture) && after == keyed(taken, request, cache_key, captured)
        },
        Canvas2dCmd::MeasureText => match result {
            Ok(Canvas2dStep::Measure) => readied(before, after, id, Ok(())),
            Ok(Canvas2dStep::Fail(e)) => readied(before, after, id, Err(e)),
            _ => false,
        },
        Canvas2dCmd::Apply { shapes_text } => match result {
            Ok(Canvas2dStep::Apply { locks_text }) => locks_text == shapes_text && readied(
                before,
                after,
                id,
                Ok(()),
            ),
            Ok(_) => false,
            Err(e) => readied(before, after, id, Err(e)),
        },
    }
}

/// Prepares commands on 2D canvases.
pub struct Renderer2d;

impl Renderer2d {
    pub fn new() -> (renderer: Self)
        ensures
            renderer == Renderer2d,
    {
        Renderer2d
    }

    /// Make a canvas current that has a 2D context.
    fn ready<
        F: Fn(GlCall) -> u32,
        H: Fn(EglCall) -> Result<usize, EglError>,
        P: Fn(PaintCall) -> u64,
    >(&mut self, cm: &mut CanvasManager<F, H, P>, id: u32) -> (result: Result<(), CanvasError>)
        requires
            old(cm).wf(),
        ensures
            final(cm).wf(),
            readied(old(cm)@, final(cm)@, id, result),
    {
        match cm.make_current_needed(id) {
            Err(e) => {
                return Err(e);
            },
            Ok(unit) => {
                assert(unit == ());
            },
        }
        match cm.context_2d(id) {
            Some(_) => Ok(()),
            None => Err(CanvasError::NotFound),
        }
    }

    /// Capture a region, and mark the capture for the text cache if it was made.
    fn capture<
        F: Fn(GlCall) -> u32,
        H: Fn(EglCall) -> Result<usize, EglError>,
        P: Fn(PaintCall) -> u64,
    >(
        &mut self,
        cm: &mut CanvasManager<F, H, P>,
        id: u32,
        request: SnapshotRequest,
        cache_key: Option<u64>,
    ) -> (captured: u32)
        requires
            old(cm).wf(),
        ensures
            final(cm).wf(),
            exists|taken: Mgr, capture: Result<u32, SnapshotError>| #[trigger]
                crate::captures::capture_outcome(old(cm)@, taken, id, request, capture) && captured
                    == captured_id(capture) && final(cm)@ == keyed(
                    taken,
                    request,
                    cache_key,
                    captured,
                ),
    {
        let capture = cm.snapshot_canvas2d_region_with_id(id, request);
        let ghost taken = cm@;
        assert(crate::captures::capture_outcome(old(cm)@, taken, id, request, capture));
        let captured: u32 = match capture {
            Ok(captured) => captured,
            Err(_) => 0,
        };
        if captured != 0 {
            if let Some(key) = cache_key {
                cm.mark_snapshot_for_text_cache(request.snapshot_id, key);
            }
        }
        assert(cm@ == keyed(taken, request, cache_key, captured));
        captured
    }

    /// Prepare a command. A failure of one that somebody waits for is that one's to hear;
    /// any other is the answer of this call.
    pub fn handle_command<
        F: Fn(GlCall) -> u32,
        H: Fn(EglCall) -> Result<usize, EglError>,
        P: Fn(PaintCall) -> u64,
        ReadBack: Fn(u32, u32) -> Vec<u8>,
    >(
        &mut self,
        cm: &mut CanvasManager<F, H, P>,
        id: u32,
        cmd: Canvas2dCmd,
        read: &ReadBack,
    ) -> (result: Result<Canvas2dStep, CanvasError>)
        requires
            old(cm).wf(),
            forall|w: u32, h: u32| #[trigger] call_requires(read, (w, h)),
        ensures
            final(cm).wf(),
            dispatched(old(cm)@, final(cm)@, id, cmd, *read, result),
    {
        match cmd {
            Canvas2dCmd::CreateContext2D => match cm.init_skia_for_canvas(id) {
                Err(e) => Err(e),
                Ok(unit) => {
                    assert(unit == ());
                    Ok(Canvas2dStep::Done)
                },
            },
            Canvas2dCmd::ResizeCanvas { w, h } => {
                let resized = cm.resize_canvas(id, w, h, BackingSizeOwner::Content);
                assert(crate::canvases::resize_outcome(
                    old(cm)@,
                    cm@,
                    id,
                    w,
                    h,
                    BackingSizeOwner::Content,
                    resized,
                ));
                Ok(Canvas2dStep::Done)
            },
            Canvas2dCmd::GetImageData => match self.ready(cm, id) {
                Ok(unit) => {
                    assert(unit == ());
                    Ok(Canvas2dStep::ReadImageData)
                },
                Err(e) => Ok(Canvas2dStep::Fail(e)),
            },
            Canvas2dCmd::ReadSnapshotPixels { snapshot_id } => {
                let readback = cm.read_canvas2d_snapshot_pixels(snapshot_id, read);
                let ghost answered = readback;
                assert(crate::captures::readback_outcome(
                    old(cm)@,
                    cm@,
                    snapshot_id,
                    *read,
                    answered,
                ));
                match readback {
                    Ok(pixels) => Ok(Canvas2dStep::Pixels(pixels)),
                    Err(_) => Ok(Canvas2dStep::Pixels(Vec::new())),
                }
            },
            Canvas2dCmd::CaptureSnapshot { request, cache_key } => Ok(
                Canvas2dStep::Captured(self.capture(cm, id, request, cache_key)),
            ),
            Canvas2dCmd::MeasureText => match self.ready(cm, id) {
                Ok(unit) => {
                    assert(unit == ());
                    Ok(Canvas2dStep::Measure)
                },
                Err(e) => Ok(Canvas2dStep::Fail(e)),
            },
            Canvas2dCmd::Apply { shapes_text } => match self.ready(cm, id) {
                Ok(unit) => {
                    assert(unit == ());
                    Ok(Canvas2dStep::Apply { locks_text: shapes_text })
                },
                Err(e) => Err(e),
            },
        }
    }
}

/// Whoever waits for a reply gets one: a command that somebody waits for is never answered
/// by an error of the call.
pub proof fn law_waiters_are_answered<ReadBack: Fn(u32, u32) -> Vec<u8>>(
    before: Mgr,
    after: Mgr,
    id: u32,
    cmd: Canvas2dCmd,
    read: ReadBack,
    result: Result<Canvas2dStep, CanvasError>,
)
    requires
        dispatched(before, after, id, cmd, read, result),
        cmd is GetImageData || cmd is MeasureText || cmd is ReadSnapshotPixels,
    ensures
        result matches Ok(step) && (step is Fail || step is ReadImageData || step is Measure
            || step is Pixels),
{
}

/// A capture that failed is not marked for the text cache.
pub proof fn law_failed_captures_are_not_cached(
    m: Mgr,
    request: SnapshotRequest,
    cache_key: Option<u64>,
    result: Result<u32, SnapshotError>,
)
    requires
        result is Err || result == Ok::<u32, SnapshotError>(0),
    ensures
        keyed(m, request, cache_key, captured_id(result)) == m,
{
}

/// A capture that failed is answered with zero, and one that was made with its identifier; a
/// key marks a capture only if it was made.
pub proof fn law_what_a_capture_is_answered(
    m: Mgr,
    request: SnapshotRequest,
    cache_key: Option<u64>,
    result: Result<u32, SnapshotError>,
)
    ensures
        result is Err ==> captured_id(result) == 0,
        result matches Ok(id) ==> captured_id(result) == id,
        captured_id(result) == 0 || cache_key is None ==> keyed(
            m,
            request,
            cache_key,
            captured_id(result),
        ) == m,
        captured_id(result) != 0 && cache_key is Some && m.snapshots.entries.dom().contains(
            request.snapshot_id,
        ) ==> keyed(
            m,
            request,
            cache_key,
            captured_id(result),
        ).snapshots.entries[request.snapshot_id].cache_key == cache_key,
{
}

/// A command on a 2D canvas is applied with its canvas current and its context there, and with
/// the text shaper locked exactly if it shapes text. A command that somebody waits for is
/// answered whatever happens.
pub proof fn law_a_2d_command_finds_its_context<ReadBack: Fn(u32, u32) -> Vec<u8>>(
    before: Mgr,
    after: Mgr,
    id: u32,
    cmd: Canvas2dCmd,
    read: ReadBack,
    result: Result<Canvas2dStep, CanvasError>,
)
    requires
        dispatched(before, after, id, cmd, read, result),
    ensures
        cmd is GetImageData || cmd is ReadSnapshotPixels || cmd is MeasureText
            || cmd is CaptureSnapshot ==> result is Ok,
        cmd matches Canvas2dCmd::Apply { shapes_text } ==> result is Ok ==> (result->Ok_0
            matches Canvas2dStep::Apply { locks_text } && locks_text == shapes_text),
        cmd is Apply && result is Ok ==> crate::binding::serving(after.bound) == Some(id)
            && before.contexts.dom().contains(id),
        cmd is GetImageData && result is Ok && result->Ok_0 is ReadImageData
            ==> crate::binding::serving(after.bound) == Some(id) && before.contexts.dom().contains(
            id,
        ),
        cmd is MeasureText && result is Ok && result->Ok_0 is Measure ==> crate::binding::serving(
            after.bound,
        ) == Some(id),
        cmd is ResizeCanvas ==> result is Ok && result->Ok_0 is Done,
        (cmd is Apply || cmd is GetImageData || cmd is MeasureText) && !before.contexts.dom().contains(
            id,
        ) ==> match result {
            Ok(step) => step is Fail,
            Err(_) => true,
        },
{
    reveal(crate::binding::made_current);
}

/// A resize of a 2D canvas is of that canvas, by the sides that it names, and content's own.
pub proof fn law_a_2d_resize_is_the_canvas_s<ReadBack: Fn(u32, u32) -> Vec<u8>>(
    before: Mgr,
    after: Mgr,
    id: u32,
    w: Option<u32>,
    h: Option<u32>,
    read: ReadBack,
    result: Result<Canvas2dStep, CanvasError>,
)
    requires
        dispatched(before, after, id, Canvas2dCmd::ResizeCanvas { w, h }, read, result),
    ensures
        exists|resized: Result<(), CanvasError>| #[trigger]
            crate::canvases::resize_outcome(
                before,
                after,
                id,
                w,
                h,
                BackingSizeOwner::Content,
                resized,
            ),
{
}

} // verus!
