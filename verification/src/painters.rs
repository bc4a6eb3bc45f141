//! The 2D contexts that paint canvases, and an account of what they paint with.
use vstd::prelude::*;

use crate::gl_device::Moment;

verus! {

/// The parts of the library's state that a 2D context can no longer rely on.
#[derive(Clone, Copy, Debug, PartialEq, Eq, Structural)]
pub struct StaleState {
    pub render_target: bool,
    pub texture_binding: bool,
    pub pixel_store: bool,
}

/// One call on the 2D contexts. A drawing state goes by the number under which its
/// owner keeps it; zero is the state that every context starts with.
#[derive(Clone, Copy, Debug, PartialEq, Eq, Structural)]
pub enum PaintCall {
    /// A context of a canvas's own. The reply is its tag, or zero where there is none.
    Create { canvas: u32, fbo: u32, width: u32, height: u32, drawing_buffer: bool },
    /// A canvas's surface on the context that canvases share.
    CreateShared { canvas: u32, width: u32, height: u32, tag: u64 },
    /// The context that canvases share. The reply is its tag, or zero.
    CreateGroup,
    /// Give a context another target. The reply is zero where that failed.
    Resize { canvas: u32, fbo: u32, width: u32, height: u32 },
    /// What a context paints with.
    DrawingState { canvas: u32 },
    /// Make a context paint with a state.
    Adopt { canvas: u32, state: u64 },
    /// Drop a context. One whose context is not current is abandoned first, so that it
    /// deletes nothing.
    Drop { canvas: u32, abandon: bool },
    /// Forget images that a dropped context wrapped.
    PurgeWrappers { tag: u64 },
    /// Give every context its share of the cache again.
    Rebalance,
    /// Forget the images of a canvas.
    RemoveImages { canvas: u32 },
    /// Forget every image.
    ForgetImages,
    /// Submit what a context has recorded.
    Flush { canvas: u32 },
    /// Make a context forget what it believes of the library's state, if it was told of a
    /// change behind its back.
    ResetIfStale { canvas: u32 },
    /// Make a context forget what it believes of the library's state.
    ResetState { canvas: u32 },
    /// Tell every context what was changed behind its back.
    MarkStale { stale: StaleState },
    /// Make every context give memory back.
    Trim { what: PaintTrim },
}

/// What a context was given to paint into.
#[derive(Clone, Copy, Debug, PartialEq, Eq, Structural)]
pub struct Retarget {
    pub canvas: u32,
    pub fbo: u32,
    pub width: u32,
    pub height: u32,
}

/// What a context gives back.
#[derive(Clone, Copy, Debug, PartialEq, Eq, Structural)]
pub enum PaintTrim {
    /// Everything that it keeps to be quick.
    Cache,
    /// What it has not used for so many milliseconds.
    UnusedFor { millis: u64 },
}

/// A context that is alive, with what it paints with and what it paints into. One that paints
/// on the shared context has no framebuffer of its own.
pub struct Painter {
    pub tag: u64,
    pub state: u64,
    pub fbo: u32,
    pub width: u32,
    pub height: u32,
}

/// What the calls so far have come to.
pub struct PaintModel {
    pub alive: Map<u32, Painter>,
    /// Every question about a drawing state was answered by what the calls had made of it.
    pub truthful: bool,
    /// Contexts in the order in which they were submitted.
    pub flushed: Seq<u32>,
    /// How far the calls on the library had come at each of these submissions.
    pub submitted: Seq<Moment>,
    /// Contexts that were told to forget the library's state if they had been told that it
    /// has changed, in order, each with the number of submissions before it.
    pub refreshed: Seq<(u32, nat)>,
    /// Contexts in the order in which they forgot the library's state.
    pub reset: Seq<u32>,
    /// What contexts were told of changes behind their backs, in order.
    pub stale: Seq<StaleState>,
    /// The targets that contexts were given in place of others, in order.
    pub retargets: Seq<Retarget>,
    /// What contexts were asked to give back, in order.
    pub trims: Seq<PaintTrim>,
    /// The tags of the contexts whose wrapped images were forgotten, in order.
    pub purged: Seq<u64>,
    /// The canvases whose images were forgotten, in order.
    pub removed: Seq<u32>,
    /// How often contexts were given their shares of the cache again.
    pub rebalanced: nat,
    /// How often every image was forgotten.
    pub forgotten: nat,
    /// Creations and resizes that failed.
    pub refused: Seq<PaintCall>,
}

/// The contexts with one of them painting into something else.
pub open spec fn retargeted(
    alive: Map<u32, Painter>,
    canvas: u32,
    fbo: u32,
    width: u32,
    height: u32,
) -> Map<u32, Painter> {
    if alive.dom().contains(canvas) {
        alive.insert(canvas, Painter { fbo, width, height, ..alive[canvas] })
    } else {
        alive
    }
}

/// What is left after a call that was made at `at` and answered `reply`.
pub open spec fn after_paint_call(
    m: PaintModel,
    call: PaintCall,
    reply: u64,
    at: Moment,
) -> PaintModel {
    match call {
        PaintCall::Create { canvas, fbo, width, height, .. } => if reply != 0 {
            PaintModel {
                alive: m.alive.insert(canvas, Painter { tag: reply, state: 0, fbo, width, height }),
                ..m
            }
        } else {
            PaintModel { refused: m.refused.push(call), ..m }
        },
        PaintCall::CreateShared { canvas, width, height, tag } => if reply != 0 {
            PaintModel {
                alive: m.alive.insert(canvas, Painter { tag, state: 0, fbo: 0, width, height }),
                ..m
            }
        } else {
            PaintModel { refused: m.refused.push(call), ..m }
        },
        PaintCall::DrawingState { canvas } => PaintModel {
            truthful: m.truthful && m.alive.dom().contains(canvas) && m.alive[canvas].state
                == reply,
            ..m
        },
        PaintCall::Adopt { canvas, state } => if m.alive.dom().contains(canvas) {
            PaintModel {
                alive: m.alive.insert(canvas, Painter { state, ..m.alive[canvas] }),
                ..m
            }
        } else {
            m
        },
        PaintCall::Drop { canvas, abandon: _ } => PaintModel {
            alive: m.alive.remove(canvas),
            ..m
        },
        PaintCall::Flush { canvas } => PaintModel {
            flushed: m.flushed.push(canvas),
            submitted: m.submitted.push(at),
            ..m
        },
        PaintCall::ResetIfStale { canvas } => PaintModel {
            refreshed: m.refreshed.push((canvas, m.flushed.len())),
            ..m
        },
        PaintCall::ResetState { canvas } => PaintModel { reset: m.reset.push(canvas), ..m },
        PaintCall::MarkStale { stale } => PaintModel { stale: m.stale.push(stale), ..m },
        PaintCall::Trim { what } => PaintModel { trims: m.trims.push(what), ..m },
        PaintCall::Resize { canvas, fbo, width, height } => if reply != 0 {
            PaintModel {
                retargets: m.retargets.push(Retarget { canvas, fbo, width, height }),
                alive: retargeted(m.alive, canvas, fbo, width, height),
                ..m
            }
        } else {
            PaintModel { refused: m.refused.push(call), ..m }
        },
        PaintCall::CreateGroup => if reply != 0 {
            m
        } else {
            PaintModel { refused: m.refused.push(call), ..m }
        },
        PaintCall::PurgeWrappers { tag } => PaintModel { purged: m.purged.push(tag), ..m },
        PaintCall::RemoveImages { canvas } => PaintModel { removed: m.removed.push(canvas), ..m },
        PaintCall::Rebalance => PaintModel { rebalanced: m.rebalanced + 1, ..m },
        PaintCall::ForgetImages => PaintModel { forgotten: m.forgotten + 1, ..m },
    }
}

/// Makes calls through `run` and keeps account of them.
pub struct Painters<P> {
    run: P,
    model: Ghost<PaintModel>,
}

impl<P: Fn(PaintCall) -> u64> View for Painters<P> {
    type V = PaintModel;

    closed spec fn view(&self) -> PaintModel {
        self.model@
    }
}

impl<P: Fn(PaintCall) -> u64> Painters<P> {
    /// How calls are made.
    pub closed spec fn runner(&self) -> P {
        self.run
    }

    /// Every call can be made.
    pub open spec fn ready(&self) -> bool {
        forall|call: PaintCall| #[trigger] call_requires(self.runner(), (call,))
    }

    /// No context yet.
    pub fn new(run: P) -> (p: Self)
        ensures
            p.runner() == run,
            p@ == (PaintModel {
                alive: Map::empty(),
                truthful: true,
                flushed: Seq::empty(),
                submitted: Seq::empty(),
                refreshed: Seq::empty(),
                reset: Seq::empty(),
                stale: Seq::empty(),
                retargets: Seq::empty(),
                trims: Seq::empty(),
                purged: Seq::empty(),
                removed: Seq::empty(),
                rebalanced: 0,
                forgotten: 0,
                refused: Seq::empty(),
            }),
    {
        Painters {
            run,
            model: Ghost(
                PaintModel {
                    alive: Map::empty(),
                    truthful: true,
                    flushed: Seq::empty(),
                    submitted: Seq::empty(),
                    refreshed: Seq::empty(),
                    reset: Seq::empty(),
                    stale: Seq::empty(),
                    retargets: Seq::empty(),
                    trims: Seq::empty(),
                    purged: Seq::empty(),
                    removed: Seq::empty(),
                    rebalanced: 0,
                    forgotten: 0,
                    refused: Seq::empty(),
                },
            ),
        }
    }

    /// Make a call, with the calls on the library as far as `at`.
    pub(crate) fn issue(&mut self, call: PaintCall, Ghost(at): Ghost<Moment>) -> (reply: u64)
        requires
            old(self).ready(),
        ensures
            final(self).ready(),
            final(self).runner() == old(self).runner(),
            call_ensures(old(self).runner(), (call,), reply),
            final(self)@ == after_paint_call(old(self)@, call, reply, at),
    {
        let reply: u64 = (self.run)(call);
        self.model = Ghost(after_paint_call(self.model@, call, reply, at));
        assert(self.runner() == old(self).runner());
        assert forall|c: PaintCall| #[trigger] call_requires(self.runner(), (c,)) by {
            assert(call_requires(old(self).runner(), (c,)));
        }
        reply
    }
}

} // verus!
