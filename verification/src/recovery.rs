//! What is left of a session when its share group is lost, and how it comes back.
use vstd::prelude::*;

use crate::egl_device::EglCall;
use crate::egl_device::EglContextHandle;
use crate::egl_setup::EglError;
use crate::gl_device::GlCall;
use crate::install::InstallFacts;
use crate::install::InstallPolicy;
use crate::manager::BoundContext;
use crate::manager::CanvasEntry;
use crate::manager::CanvasError;
use crate::manager::CanvasManager;
use crate::manager::Extent;
use crate::manager::Flags;
use crate::manager::Mgr;
use crate::manager::OffscreenRestore;
use crate::manager::Preserved;
use crate::manager::ShareGroupRestorePlan;
use crate::manager::SurfaceKind;
use crate::manager::ONSCREEN;
use crate::onscreen::CandidateCleanup;
use crate::painters::PaintCall;
use crate::pixel_ratio::PixelRatio;
use crate::uploads::UploadServer;

verus! {

/// A canvas, as far as a restore plan goes by it.
#[derive(Clone, Copy, Debug, PartialEq, Eq, Structural)]
pub struct RestoreSource {
    pub id: u32,
    pub is_pbuffer: bool,
    pub width: u32,
    pub height: u32,
    /// What its 2D context paints with, where it has one.
    pub state_2d: Option<u64>,
}

/// The canvas is made again from a plan. The onscreen one is not: it needs its window.
pub open spec fn carries_over(source: RestoreSource) -> bool {
    source.is_pbuffer && source.id != ONSCREEN
}

/// What a plan says of a canvas.
pub open spec fn restore_of(source: RestoreSource) -> OffscreenRestore {
    OffscreenRestore {
        id: source.id,
        width: source.width,
        height: source.height,
        state_2d: source.state_2d,
    }
}

/// What a plan says of the canvases that are made again, in the order in which they came.
pub open spec fn carried(sources: Seq<RestoreSource>) -> Seq<OffscreenRestore>
    decreases sources.len(),
{
    if sources.len() == 0 {
        Seq::empty()
    } else {
        let rest = carried(sources.drop_last());
        if carries_over(sources.last()) {
            rest.push(restore_of(sources.last()))
        } else {
            rest
        }
    }
}

/// No two canvases have the same identifier.
pub open spec fn distinct(sources: Seq<RestoreSource>) -> bool {
    forall|i: int, j: int| 0 <= i < j < sources.len() ==> sources[i].id != sources[j].id
}

/// In the order of identifiers.
pub open spec fn ordered(specs: Seq<OffscreenRestore>) -> bool {
    forall|i: int, j: int| 0 <= i < j < specs.len() ==> specs[i].id <= specs[j].id
}

proof fn lemma_carried(sources: Seq<RestoreSource>)
    ensures
        forall|x: OffscreenRestore|
            carried(sources).contains(x) <==> exists|i: int|
                0 <= i < sources.len() && carries_over(#[trigger] sources[i]) && restore_of(
                    sources[i],
                ) == x,
    decreases sources.len(),
{
    if sources.len() > 0 {
        let init = sources.drop_last();
        let rest = carried(init);
        let last = sources.last();
        lemma_carried(init);
        assert forall|x: OffscreenRestore|
            carried(sources).contains(x) <==> exists|i: int|
                0 <= i < sources.len() && carries_over(#[trigger] sources[i]) && restore_of(
                    sources[i],
                ) == x by {
            if carried(sources).contains(x) {
                let k = choose|k: int| 0 <= k < carried(sources).len() && carried(sources)[k] == x;
                if k < rest.len() {
                    assert(rest[k] == x);
                    assert(rest.contains(x));
                    let i = choose|i: int|
                        0 <= i < init.len() && carries_over(#[trigger] init[i]) && restore_of(
                            init[i],
                        ) == x;
                    assert(sources[i] == init[i]);
                } else {
                    assert(sources[sources.len() - 1] == last);
                }
            }
            if exists|i: int|
                0 <= i < sources.len() && carries_over(#[trigger] sources[i]) && restore_of(
                    sources[i],
                ) == x {
                let i = choose|i: int|
                    0 <= i < sources.len() && carries_over(#[trigger] sources[i]) && restore_of(
                        sources[i],
                    ) == x;
                if i < sources.len() - 1 {
                    assert(init[i] == sources[i]);
                    assert(rest.contains(x));
                    let k = choose|k: int| 0 <= k < rest.len() && rest[k] == x;
                    assert(carried(sources)[k] == x);
                } else {
                    assert(carried(sources)[carried(sources).len() - 1] == x);
                }
            }
        }
    }
}

proof fn lemma_carried_distinct(sources: Seq<RestoreSource>)
    requires
        distinct(sources),
    ensures
        forall|i: int, j: int|
            0 <= i < j < carried(sources).len() ==> carried(sources)[i].id
                != carried(sources)[j].id,
    decreases sources.len(),
{
    if sources.len() > 0 {
        let init = sources.drop_last();
        let rest = carried(init);
        lemma_carried_distinct(init);
        lemma_carried(init);
        assert forall|i: int, j: int| 0 <= i < j < carried(sources).len() implies carried(
            sources,
        )[i].id != carried(sources)[j].id by {
            if j == rest.len() {
                assert(rest.contains(rest[i]));
                let k = choose|k: int|
                    0 <= k < init.len() && carries_over(#[trigger] init[k]) && restore_of(init[k])
                        == rest[i];
                assert(sources[k] == init[k]);
                assert(sources[k].id != sources[sources.len() - 1].id);
            }
        }
    }
}

/// Put what a plan says of a canvas in its place.
fn insert_by_id(specs: &mut Vec<OffscreenRestore>, spec: OffscreenRestore)
    requires
        ordered(old(specs)@),
    ensures
        ordered(final(specs)@),
        final(specs)@.to_multiset() == old(specs)@.to_multiset().insert(spec),
        final(specs)@.len() == old(specs)@.len() + 1,
{
    let mut at: usize = 0;
    while at < specs.len() && specs[at].id <= spec.id
        invariant
            at <= specs@.len(),
            specs@ == old(specs)@,
            forall|i: int| 0 <= i < at ==> (#[trigger] specs@[i]).id <= spec.id,
        decreases specs@.len() - at,
    {
        at = at + 1;
    }
    let ghost before = specs@;
    specs.insert(at, spec);
    proof {
        vstd::seq_lib::to_multiset_insert(before, at as int, spec);
        assert(specs@ =~= before.insert(at as int, spec));
        assert forall|i: int, j: int| 0 <= i < j < specs@.len() implies specs@[i].id
            <= specs@[j].id by {
            if i < at && j > at {
                assert(before[i].id <= before[j - 1].id);
            } else if i == at {
                assert(before[at as int].id <= before[j - 1].id);
            } else if i > at {
                assert(before[i - 1].id <= before[j - 1].id);
            }
        }
    }
}

/// What has to be made again of a share group that is lost: every offscreen canvas, with
/// its size and what its 2D context painted with, in the order of their identifiers, and
/// what the onscreen canvas painted with.
pub fn plan_share_group_restore(
    sources: &Vec<RestoreSource>,
    onscreen_2d: Option<u64>,
) -> (plan: ShareGroupRestorePlan)
    ensures
        plan.onscreen_2d == onscreen_2d,
        plan.offscreen@.to_multiset() == carried(sources@).to_multiset(),
        ordered(plan.offscreen@),
        distinct(sources@) ==> crate::manager::in_order(plan.offscreen@),
{
    let mut offscreen: Vec<OffscreenRestore> = Vec::new();
    let mut i: usize = 0;
    assert(offscreen@ =~= carried(sources@.take(0)));
    while i < sources.len()
        invariant
            i <= sources@.len(),
            ordered(offscreen@),
            offscreen@.to_multiset() == carried(sources@.take(i as int)).to_multiset(),
        decreases sources@.len() - i,
    {
        let source = sources[i];
        let ghost some = carried(sources@.take(i as int));
        proof {
            assert(sources@.take(i + 1).drop_last() =~= sources@.take(i as int));
            vstd::seq_lib::to_multiset_build(some, restore_of(source));
        }
        if source.is_pbuffer && source.id != ONSCREEN {
            insert_by_id(
                &mut offscreen,
                OffscreenRestore {
                    id: source.id,
                    width: source.width,
                    height: source.height,
                    state_2d: source.state_2d,
                },
            );
        }
        i = i + 1;
    }
    assert(sources@.take(i as int) =~= sources@);
    proof {
        if distinct(sources@) {
            lemma_plan_in_order(sources@, offscreen@);
        }
    }
    ShareGroupRestorePlan { onscreen_2d, offscreen }
}

proof fn lemma_plan_members(sources: Seq<RestoreSource>, specs: Seq<OffscreenRestore>)
    requires
        specs.to_multiset() == carried(sources).to_multiset(),
    ensures
        specs.len() == carried(sources).len(),
        forall|x: OffscreenRestore| specs.contains(x) <==> carried(sources).contains(x),
{
    specs.to_multiset_ensures();
    carried(sources).to_multiset_ensures();
    assert forall|x: OffscreenRestore| specs.contains(x) <==> carried(sources).contains(x) by {
        assert(specs.contains(x) <==> specs.to_multiset().count(x) > 0);
    }
}

proof fn lemma_plan_in_order(sources: Seq<RestoreSource>, specs: Seq<OffscreenRestore>)
    requires
        distinct(sources),
        ordered(specs),
        specs.to_multiset() == carried(sources).to_multiset(),
    ensures
        crate::manager::in_order(specs),
{
    let all = carried(sources);
    lemma_carried(sources);
    lemma_carried_distinct(sources);
    lemma_plan_members(sources, specs);
    assert(all.no_duplicates());
    all.lemma_multiset_has_no_duplicates();
    specs.lemma_multiset_has_no_duplicates_conv();
    assert forall|i: int| 0 <= i < specs.len() implies (#[trigger] specs[i]).id != ONSCREEN by {
        assert(specs.contains(specs[i]));
    }
    assert forall|i: int, j: int| 0 <= i < j < specs.len() implies specs[i].id < specs[j].id by {
        if specs[i].id == specs[j].id {
            assert(specs.contains(specs[i]) && specs.contains(specs[j]));
            let a = choose|a: int| 0 <= a < all.len() && all[a] == specs[i];
            let b = choose|b: int| 0 <= b < all.len() && all[b] == specs[j];
            if a < b {
                assert(all[a].id != all[b].id);
            } else if b < a {
                assert(all[b].id != all[a].id);
            }
            assert(specs[i] == specs[j]);
        }
    }
}

/// The source says of its canvas what the session knows.
pub open spec fn source_of(m: Mgr, source: RestoreSource) -> bool {
    let entry = m.canvases[source.id];
    &&& m.canvases.dom().contains(source.id)
    &&& source.is_pbuffer == (entry.kind == SurfaceKind::Pbuffer)
    &&& source.width == entry.physical_width
    &&& source.height == entry.physical_height
    &&& (source.state_2d is Some) == m.contexts.dom().contains(source.id)
}

/// A state is what a canvas's 2D context paints with.
pub open spec fn paints_with(m: Mgr, id: u32, state: Option<u64>) -> bool {
    state matches Some(v) ==> m.paint.alive.dom().contains(id) && m.paint.alive[id].state == v
}

/// The session's offscreen canvases and 2D contexts are what the debt says.
pub open spec fn owed_by(m: Mgr, debt: crate::manager::Debt) -> bool {
    &&& crate::manager::in_order(debt.offscreen)
    &&& forall|i: int|
        0 <= i < debt.offscreen.len() ==> {
            let spec = #[trigger] debt.offscreen[i];
            &&& m.canvases.dom().contains(spec.id)
            &&& m.canvases[spec.id].kind == SurfaceKind::Pbuffer
            &&& spec.width == m.canvases[spec.id].physical_width
            &&& spec.height == m.canvases[spec.id].physical_height
            &&& (spec.state_2d is Some) == m.contexts.dom().contains(spec.id)
        }
    &&& forall|id: u32|
        m.canvases.dom().contains(id) && m.canvases[id].kind == SurfaceKind::Pbuffer && id
            != ONSCREEN ==> #[trigger] listed(debt.offscreen, id)
    &&& (debt.onscreen_2d is Some) == m.contexts.dom().contains(ONSCREEN)
}

/// A canvas is on the list.
pub open spec fn listed(specs: Seq<OffscreenRestore>, id: u32) -> bool {
    exists|i: int| 0 <= i < specs.len() && (#[trigger] specs[i]).id == id
}

/// The states on the list are those that the 2D contexts painted with.
pub open spec fn states_of(m: Mgr, debt: crate::manager::Debt) -> bool {
    &&& paints_with(m, ONSCREEN, debt.onscreen_2d)
    &&& forall|i: int|
        0 <= i < debt.offscreen.len() ==> {
            let spec = #[trigger] debt.offscreen[i];
            paints_with(m, spec.id, spec.state_2d)
        }
}

proof fn lemma_plan_is_owed(
    m: Mgr,
    ids: Seq<u32>,
    sources: Seq<RestoreSource>,
    debt: crate::manager::Debt,
)
    requires
        ids.no_duplicates(),
        ids.to_set() == m.canvases.dom(),
        sources.len() == ids.len(),
        forall|i: int|
            0 <= i < sources.len() ==> (#[trigger] sources[i]).id == ids[i] && source_of(
                m,
                sources[i],
            ),
        debt.offscreen.to_multiset() == carried(sources).to_multiset(),
        distinct(sources) ==> crate::manager::in_order(debt.offscreen),
        (debt.onscreen_2d is Some) == m.contexts.dom().contains(ONSCREEN),
    ensures
        owed_by(m, debt),
        (forall|i: int|
            0 <= i < sources.len() ==> paints_with(
                m,
                (#[trigger] sources[i]).id,
                sources[i].state_2d,
            )) && paints_with(m, ONSCREEN, debt.onscreen_2d) ==> states_of(m, debt),
{
    assert(distinct(sources)) by {
        assert forall|i: int, j: int| 0 <= i < j < sources.len() implies sources[i].id
            != sources[j].id by {
            assert(ids[i] != ids[j]);
        }
    }
    lemma_carried(sources);
    lemma_plan_members(sources, debt.offscreen);
    assert forall|i: int| 0 <= i < debt.offscreen.len() implies exists|k: int|
        0 <= k < sources.len() && carries_over(#[trigger] sources[k]) && restore_of(sources[k])
            == #[trigger] debt.offscreen[i] by {
        assert(debt.offscreen.contains(debt.offscreen[i]));
    }
    assert forall|id: u32|
        m.canvases.dom().contains(id) && m.canvases[id].kind == SurfaceKind::Pbuffer && id
            != ONSCREEN implies #[trigger] listed(debt.offscreen, id) by {
        assert(ids.to_set().contains(id));
        let k = choose|k: int| 0 <= k < ids.len() && ids[k] == id;
        assert(sources[k].id == id && source_of(m, sources[k]));
        assert(carries_over(sources[k]));
        assert(carried(sources).contains(restore_of(sources[k])));
        assert(debt.offscreen.contains(restore_of(sources[k])));
        let i = choose|i: int|
            0 <= i < debt.offscreen.len() && debt.offscreen[i] == restore_of(sources[k]);
        assert(debt.offscreen[i].id == id);
    }
}

impl<
    F: Fn(GlCall) -> u32,
    H: Fn(EglCall) -> Result<usize, EglError>,
    P: Fn(PaintCall) -> u64,
> CanvasManager<F, H, P> {
    /// What has to be made again if the share group is lost now.
    fn plan_restore(&mut self) -> (plan: ShareGroupRestorePlan)
        requires
            old(self).wf(),
        ensures
            final(self).wf(),
            final(self)@ == (Mgr { paint: final(self)@.paint, ..old(self)@ }),
            final(self)@.paint == (crate::painters::PaintModel {
                truthful: final(self)@.paint.truthful,
                ..old(self)@.paint
            }),
            owed_by(old(self)@, plan@),
            final(self)@.paint.truthful ==> old(self)@.paint.truthful && states_of(
                old(self)@,
                plan@,
            ),
    {
        let ids = self.canvas_ids();
        let mut sources: Vec<RestoreSource> = Vec::new();
        let mut i: usize = 0;
        while i < ids.len()
            invariant
                i <= ids@.len(),
                sources@.len() == i,
                self.wf(),
                ids@.to_set() == old(self)@.canvases.dom(),
                self@ == (Mgr { paint: self@.paint, ..old(self)@ }),
                self@.paint == (crate::painters::PaintModel {
                    truthful: self@.paint.truthful,
                    ..old(self)@.paint
                }),
                forall|k: int|
                    0 <= k < i ==> (#[trigger] sources@[k]).id == ids@[k] && source_of(
                        old(self)@,
                        sources@[k],
                    ),
                self@.paint.truthful ==> old(self)@.paint.truthful,
                self@.paint.truthful ==> forall|k: int|
                    0 <= k < i ==> paints_with(
                        old(self)@,
                        (#[trigger] sources@[k]).id,
                        sources@[k].state_2d,
                    ),
            decreases ids@.len() - i,
        {
            let id: u32 = ids[i];
            assert(ids@.to_set().contains(id));
            let state_2d = self.drawing_state(id);
            let source = match self.canvas(id) {
                Some(entry) => RestoreSource {
                    id,
                    is_pbuffer: entry.kind == SurfaceKind::Pbuffer,
                    width: entry.physical_width,
                    height: entry.physical_height,
                    state_2d,
                },
                None => RestoreSource { id, is_pbuffer: false, width: 0, height: 0, state_2d },
            };
            sources.push(source);
            i = i + 1;
        }
        let onscreen_2d = self.drawing_state(ONSCREEN);
        let plan = plan_share_group_restore(&sources, onscreen_2d);
        proof {
            lemma_plan_is_owed(old(self)@, ids@, sources@, plan@);
        }
        plan
    }
}

/// What a lost share group leaves as it was. Nothing is deleted in the library: what its
/// names meant is gone.
pub open spec fn only_group_went(before: Mgr, after: Mgr) -> bool {
    &&& after.cfg == before.cfg
    &&& after.root == before.root
    &&& after.flags == before.flags
    &&& after.window == before.window
    &&& after.pending == before.pending
    &&& after.next_canvas_id == before.next_canvas_id
    &&& after.debt == before.debt
    &&& after.snapshots == before.snapshots
    &&& after.damage == before.damage
    &&& after.swap_damage_rejected == before.swap_damage_rejected
    &&& after.gl == before.gl
    &&& after.bound == before.bound
    &&& after.egl.up == before.egl.up
    &&& after.egl.terminated == before.egl.terminated
    &&& after.egl.rate_requests == before.egl.rate_requests
    &&& after.dropped == before.dropped
    &&& after.paint.truthful ==> before.paint.truthful
    &&& crate::install::within(after.egl.windows, before.egl.windows)
    &&& crate::manager::grew(before, after)
}

/// The same shadows, copies, uploads, root and swaps.
pub open spec fn rest_stays(before: Mgr, after: Mgr) -> bool {
    &&& after.shadows == before.shadows
    &&& after.copy_fbos == before.copy_fbos
    &&& after.uploads == before.uploads
    &&& after.history == before.history
    &&& after.plan == before.plan
    &&& after.swap_interval == before.swap_interval
    &&& after.egl.root == before.egl.root
    &&& after.egl.uploads == before.egl.uploads
}

/// The surfaces and contexts of every canvas were destroyed, as far as the driver agreed.
pub open spec fn canvases_unmade(before: Mgr, after: Mgr) -> bool {
    forall|id: u32| #[trigger]
        before.canvases.dom().contains(id) ==> crate::egl_device::pair_unmade(
            before.egl,
            after.egl,
            before.canvases[id].ctx,
        )
}

/// The contexts that no canvas has were destroyed, as far as the driver agreed: the one that
/// was put by, and the one that 2D canvases shared.
pub open spec fn spares_unmade(before: Mgr, after: Mgr) -> bool {
    &&& before.preserved.ctx matches Some(ctx) ==> crate::egl_device::context_unmade(
        before.egl,
        after.egl,
        ctx,
    )
    &&& before.shared_2d matches Some(shared) ==> crate::egl_device::pair_unmade(
        before.egl,
        after.egl,
        shared.egl,
    )
}

/// The uploads were stopped since an earlier state.
pub open spec fn quieted(
    before: crate::egl_device::EglModel,
    after: crate::egl_device::EglModel,
) -> bool {
    &&& crate::egl_device::remembers(before, after)
    &&& crate::egl_device::stepped(before, after, crate::egl_device::Step::UploadsStopped)
}

/// The root was destroyed, as far as the driver agreed, once the uploads had stopped that run
/// on its objects.
pub open spec fn root_unmade(before: Mgr, after: Mgr) -> bool {
    before.egl.root matches Some(root) ==> exists|quiet: crate::egl_device::EglModel| #[trigger]
        quieted(before.egl, quiet) && crate::egl_device::remembers(quiet, after.egl)
            && crate::egl_device::pair_unmade(quiet, after.egl, root)
}

/// Every context of a lost share group was destroyed, as far as the driver agreed. None of
/// them is used again.
pub open spec fn group_unmade(before: Mgr, after: Mgr) -> bool {
    &&& canvases_unmade(before, after)
    &&& spares_unmade(before, after)
    &&& root_unmade(before, after)
}

/// What a stretch unmade of a share group was unmade over a longer one.
proof fn lemma_group_unmade_within(lost: Mgr, before: Mgr, after: Mgr, last: Mgr)
    requires
        crate::egl_device::remembers(lost.egl, before.egl),
        crate::egl_device::remembers(after.egl, last.egl),
    ensures
        before.canvases == lost.canvases && canvases_unmade(before, after) ==> canvases_unmade(
            lost,
            last,
        ),
        (lost.preserved.ctx is Some ==> before.preserved.ctx == lost.preserved.ctx)
            && before.shared_2d == lost.shared_2d && spares_unmade(before, after)
            ==> spares_unmade(lost, last),
        before.egl.root == lost.egl.root && root_unmade(before, after) ==> root_unmade(lost, last),
{
    if before.canvases == lost.canvases && canvases_unmade(before, after) {
        assert forall|id: u32| #[trigger] lost.canvases.dom().contains(id) implies
            crate::egl_device::pair_unmade(lost.egl, last.egl, lost.canvases[id].ctx) by {
            assert(before.canvases.dom().contains(id));
            crate::egl_device::lemma_unmade_within(
                lost.egl,
                before.egl,
                after.egl,
                last.egl,
                lost.canvases[id].ctx,
            );
        }
    }
    if lost.preserved.ctx is Some {
        crate::egl_device::lemma_unmade_within(
            lost.egl,
            before.egl,
            after.egl,
            last.egl,
            EglContextHandle { ctx: lost.preserved.ctx->0, surf: None },
        );
    }
    if lost.shared_2d is Some {
        crate::egl_device::lemma_unmade_within(
            lost.egl,
            before.egl,
            after.egl,
            last.egl,
            (lost.shared_2d->0).egl,
        );
    }
    if lost.egl.root is Some && before.egl.root == lost.egl.root && root_unmade(before, after) {
        let root = lost.egl.root->0;
        let quiet = choose|quiet: crate::egl_device::EglModel| #[trigger]
            quieted(before.egl, quiet) && crate::egl_device::remembers(quiet, after.egl)
                && crate::egl_device::pair_unmade(quiet, after.egl, root);
        crate::egl_device::lemma_step_within(
            lost.egl,
            before.egl,
            quiet,
            quiet,
            crate::egl_device::Step::UploadsStopped,
        );
        crate::egl_device::lemma_unmade_within(quiet, quiet, after.egl, last.egl, root);
        assert(quieted(lost.egl, quiet));
    }
}

/// Nothing is left of the share group.
pub open spec fn emptied(m: Mgr) -> bool {
    &&& m.canvases == Map::<u32, CanvasEntry>::empty()
    &&& m.contexts == Map::<u32, crate::manager::Context2d>::empty()
    &&& m.dirty == Seq::<u32>::empty()
    &&& m.shadows == Map::<u32, crate::gl_state::CanvasGLState>::empty()
    &&& m.copy_fbos == Map::<u32, u32>::empty()
    &&& m.shared_2d is None
    &&& m.preserved == (Preserved { ctx: None, db: None })
    &&& m.egl.root is None
    &&& !m.egl.uploads
    &&& m.uploads.budget is None
    &&& m.uploads.pending.len() == 0
    &&& m.history.len() == 0
    &&& m.plan is None
    &&& m.swap_interval == -1
}

impl<
    F: Fn(GlCall) -> u32,
    H: Fn(EglCall) -> Result<usize, EglError>,
    P: Fn(PaintCall) -> u64,
> CanvasManager<F, H, P> {
    /// Drop every 2D context of a lost share group: abandoned, so that none of them deletes
    /// anything.
    fn abandon_all_2d_contexts(&mut self)
        requires
            old(self).wf(),
        ensures
            final(self).wf(),
            only_group_went(old(self)@, final(self)@),
            rest_stays(old(self)@, final(self)@),
            final(self)@.canvases == old(self)@.canvases,
            final(self)@.shared_2d == old(self)@.shared_2d,
            final(self)@.preserved == old(self)@.preserved,
            final(self)@.egl == old(self)@.egl,
            final(self)@.paint.truthful == old(self)@.paint.truthful,
            final(self)@.contexts == Map::<u32, crate::manager::Context2d>::empty(),
            final(self)@.dirty == Seq::<u32>::empty(),
    {
        let ids = self.context_ids();
        let mut i: usize = 0;
        while i < ids.len()
            invariant
                i <= ids@.len(),
                self.wf(),
                only_group_went(old(self)@, self@),
                rest_stays(old(self)@, self@),
                self@.canvases == old(self)@.canvases,
                self@.shared_2d == old(self)@.shared_2d,
                self@.preserved == old(self)@.preserved,
                self@.egl == old(self)@.egl,
                self@.dirty == old(self)@.dirty,
                self@.paint.truthful == old(self)@.paint.truthful,
                ids@.to_set() == old(self)@.contexts.dom(),
                forall|id: u32| #[trigger]
                    self@.contexts.dom().contains(id) ==> old(self)@.contexts.dom().contains(id),
                forall|id: u32, k: int|
                    #![trigger self@.contexts.dom().contains(id), ids@[k]]
                    self@.contexts.dom().contains(id) && 0 <= k < i ==> ids@[k] != id,
            decreases ids@.len() - i,
        {
            let ghost before = self@;
            let _ = self.drop_2d_context(ids[i], false);
            assert forall|id: u32| #[trigger] self@.contexts.dom().contains(id) implies
                before.contexts.dom().contains(id) && id != ids@[i as int] by {}
            i = i + 1;
        }
        let _ = self.take_dirty();
        proof {
            assert forall|id: u32| !self@.contexts.dom().contains(id) by {
                if self@.contexts.dom().contains(id) {
                    assert(ids@.to_set().contains(id));
                    let k = choose|k: int| 0 <= k < ids@.len() && ids@[k] == id;
                    assert(ids@[k] == id);
                }
            }
            assert(self@.contexts =~= Map::<u32, crate::manager::Context2d>::empty());
        }
    }
}

impl<
    F: Fn(GlCall) -> u32,
    H: Fn(EglCall) -> Result<usize, EglError>,
    P: Fn(PaintCall) -> u64,
> CanvasManager<F, H, P> {
    /// Destroy the surface and the context of every canvas of a lost share group.
    fn discard_canvases(&mut self)
        requires
            old(self).wf(),
        ensures
            final(self).wf(),
            only_group_went(old(self)@, final(self)@),
            rest_stays(old(self)@, final(self)@),
            final(self)@.shared_2d == old(self)@.shared_2d,
            final(self)@.preserved == old(self)@.preserved,
            final(self)@.contexts == old(self)@.contexts,
            final(self)@.dirty == old(self)@.dirty,
            final(self)@.paint == old(self)@.paint,
            final(self)@.canvases == Map::<u32, CanvasEntry>::empty(),
            canvases_unmade(old(self)@, final(self)@),
    {
        let ids = self.canvas_ids();
        let mut i: usize = 0;
        while i < ids.len()
            invariant
                i <= ids@.len(),
                self.wf(),
                only_group_went(old(self)@, self@),
                rest_stays(old(self)@, self@),
                self@.shared_2d == old(self)@.shared_2d,
                self@.preserved == old(self)@.preserved,
                self@.contexts == old(self)@.contexts,
                self@.dirty == old(self)@.dirty,
                self@.paint == old(self)@.paint,
                ids@.to_set() == old(self)@.canvases.dom(),
                forall|id: u32| #[trigger]
                    self@.canvases.dom().contains(id) ==> old(self)@.canvases.dom().contains(id),
                forall|id: u32, k: int|
                    #![trigger self@.canvases.dom().contains(id), ids@[k]]
                    self@.canvases.dom().contains(id) && 0 <= k < i ==> ids@[k] != id,
                forall|id: u32| #[trigger]
                    self@.canvases.dom().contains(id) ==> self@.canvases[id] == old(
                        self)@.canvases[id],
                forall|id: u32| #[trigger]
                    old(self)@.canvases.dom().contains(id) && !self@.canvases.dom().contains(id)
                        ==> crate::egl_device::pair_unmade(
                        old(self)@.egl,
                        self@.egl,
                        old(self)@.canvases[id].ctx,
                    ),
            decreases ids@.len() - i,
        {
            let ghost before = self@;
            if let Some(entry) = self.take_canvas(ids[i]) {
                self.discard(entry.ctx);
            }
            assert forall|id: u32| #[trigger] self@.canvases.dom().contains(id) implies
                before.canvases.dom().contains(id) && id != ids@[i as int] by {}
            assert forall|id: u32| #[trigger]
                old(self)@.canvases.dom().contains(id) && !self@.canvases.dom().contains(
                    id,
                ) implies crate::egl_device::pair_unmade(
                old(self)@.egl,
                self@.egl,
                old(self)@.canvases[id].ctx,
            ) by {
                let ctx = old(self)@.canvases[id].ctx;
                if before.canvases.dom().contains(id) {
                    crate::egl_device::lemma_unmade_within(
                        old(self)@.egl,
                        before.egl,
                        self@.egl,
                        self@.egl,
                        ctx,
                    );
                } else {
                    crate::egl_device::lemma_unmade_within(
                        old(self)@.egl,
                        old(self)@.egl,
                        before.egl,
                        self@.egl,
                        ctx,
                    );
                }
            }
            i = i + 1;
        }
        proof {
            assert forall|id: u32| !self@.canvases.dom().contains(id) by {
                if self@.canvases.dom().contains(id) {
                    assert(ids@.to_set().contains(id));
                    let k = choose|k: int| 0 <= k < ids@.len() && ids@[k] == id;
                    assert(ids@[k] == id);
                }
            }
            assert(self@.canvases =~= Map::<u32, CanvasEntry>::empty());
        }
    }

    /// Destroy the contexts of a lost share group that no canvas has: the one that was put
    /// by, and the one that 2D canvases shared.
    #[verifier::rlimit(30)]
    fn discard_spare_contexts(&mut self)
        requires
            old(self).wf(),
        ensures
            final(self).wf(),
            only_group_went(old(self)@, final(self)@),
            rest_stays(old(self)@, final(self)@),
            final(self)@.canvases == old(self)@.canvases,
            final(self)@.contexts == old(self)@.contexts,
            final(self)@.dirty == old(self)@.dirty,
            final(self)@.paint == old(self)@.paint,
            final(self)@.shared_2d is None,
            final(self)@.preserved == (Preserved { ctx: None, db: None }),
            spares_unmade(old(self)@, final(self)@),
    {
        if let Some(ctx) = self.preserved().ctx {
            let _ = self.destroy_context(ctx);
            proof {
                crate::canvases::lemma_context_tried(old(self)@.egl, self@.egl, ctx);
            }
        }
        let ghost first = self@;
        self.set_preserved(Preserved { ctx: None, db: None });
        if let Some(shared) = self.shared_2d() {
            self.discard(shared.egl);
            proof {
                crate::egl_device::lemma_unmade_within(
                    old(self)@.egl,
                    first.egl,
                    self@.egl,
                    self@.egl,
                    shared.egl,
                );
            }
        }
        proof {
            if old(self)@.preserved.ctx is Some {
                crate::egl_device::lemma_unmade_within(
                    old(self)@.egl,
                    old(self)@.egl,
                    first.egl,
                    self@.egl,
                    EglContextHandle { ctx: old(self)@.preserved.ctx->0, surf: None },
                );
            }
        }
        self.set_shared_2d(None);
    }

    /// Stop the uploads of a lost share group and destroy its root.
    fn discard_root(&mut self)
        requires
            old(self).wf(),
        ensures
            final(self).wf(),
            only_group_went(old(self)@, final(self)@),
            final(self)@.canvases == old(self)@.canvases,
            final(self)@.shadows == old(self)@.shadows,
            final(self)@.copy_fbos == old(self)@.copy_fbos,
            final(self)@.shared_2d == old(self)@.shared_2d,
            final(self)@.preserved == old(self)@.preserved,
            final(self)@.contexts == old(self)@.contexts,
            final(self)@.dirty == old(self)@.dirty,
            final(self)@.paint == old(self)@.paint,
            final(self)@.egl.root is None,
            !final(self)@.egl.uploads,
            final(self)@.uploads.budget is None,
            final(self)@.uploads.pending.len() == 0,
            final(self)@.uploads.awaited == old(self)@.uploads.awaited,
            final(self)@.uploads.deferred == old(self)@.uploads.deferred,
            root_unmade(old(self)@, final(self)@),
    {
        self.stop_uploads();
        self.lose_upload_thread();
        let ghost quiet = self@.egl;
        assert(quiet.steps[old(self)@.egl.steps.len() as int]
            == crate::egl_device::Step::UploadsStopped);
        assert(quieted(old(self)@.egl, quiet));
        if let Some(root) = self.untrack_root() {
            let _ = self.release_current();
            let ghost released = self@;
            self.discard(root);
            proof {
                crate::egl_device::lemma_unmade_within(
                    quiet,
                    released.egl,
                    self@.egl,
                    self@.egl,
                    root,
                );
            }
        }
    }

    /// Forget what was known of a lost share group.
    fn forget_group(&mut self)
        requires
            old(self).wf(),
        ensures
            final(self).wf(),
            only_group_went(old(self)@, final(self)@),
            final(self)@.canvases == old(self)@.canvases,
            final(self)@.shared_2d == old(self)@.shared_2d,
            final(self)@.preserved == old(self)@.preserved,
            final(self)@.contexts == old(self)@.contexts,
            final(self)@.dirty == old(self)@.dirty,
            final(self)@.uploads == old(self)@.uploads,
            final(self)@.egl == old(self)@.egl,
            final(self)@.paint == (crate::painters::PaintModel {
                forgotten: old(self)@.paint.forgotten + 1,
                ..old(self)@.paint
            }),
            final(self)@.shadows == Map::<u32, crate::gl_state::CanvasGLState>::empty(),
            final(self)@.copy_fbos == Map::<u32, u32>::empty(),
            final(self)@.history.len() == 0,
            final(self)@.plan is None,
            final(self)@.swap_interval == -1,
    {
        self.forget_copy_fbos();
        self.drop_shadows();
        let _ = self.issue_paint(PaintCall::ForgetImages);
        self.forget_frames();
        self.reset_swap_interval();
    }

    /// Destroy a lost share group. The answer is what has to be made again: it is taken down
    /// before anything is dropped, while the session still knows its canvases.
    fn tear_down_share_group(&mut self) -> (plan: ShareGroupRestorePlan)
        requires
            old(self).wf(),
        ensures
            final(self).wf(),
            final(self)@.paint.forgotten > old(self)@.paint.forgotten,
            only_group_went(old(self)@, final(self)@),
            emptied(final(self)@),
            owed_by(old(self)@, plan@),
            final(self)@.paint.truthful ==> states_of(old(self)@, plan@),
            group_unmade(old(self)@, final(self)@),
    {
        let plan = self.plan_restore();
        self.abandon_all_2d_contexts();
        let ghost start = self@;
        self.discard_canvases();
        let ghost bare = self@;
        self.discard_spare_contexts();
        let ghost spared = self@;
        self.discard_root();
        let ghost rootless = self@;
        self.forget_group();
        proof {
            lemma_group_unmade_within(old(self)@, start, bare, self@);
            lemma_group_unmade_within(old(self)@, bare, spared, self@);
            lemma_group_unmade_within(old(self)@, spared, rootless, self@);
        }
        plan
    }
}

/// The canvases of a debt are there again, painting with what they painted with.
pub open spec fn made_good(specs: Seq<OffscreenRestore>, m: Mgr) -> bool {
    forall|i: int|
        0 <= i < specs.len() ==> {
            let spec = #[trigger] specs[i];
            &&& m.canvases.dom().contains(spec.id)
            &&& spec.state_2d is Some ==> m.contexts.dom().contains(spec.id)
            &&& paints_with(m, spec.id, spec.state_2d)
        }
}

/// The canvases of a debt are there, and those that were not there before are of their
/// size.
pub open spec fn sizes_good(specs: Seq<OffscreenRestore>, before: Mgr, m: Mgr) -> bool {
    forall|i: int|
        0 <= i < specs.len() ==> {
            let spec = #[trigger] specs[i];
            &&& m.canvases.dom().contains(spec.id)
            &&& !before.canvases.dom().contains(spec.id) ==> m.canvases[spec.id].physical_width
                == spec.width && m.canvases[spec.id].physical_height == spec.height
                && m.canvases[spec.id].kind == SurfaceKind::Pbuffer
        }
}

/// A canvas is there on a context that was created since an earlier state, sharing the root's
/// objects.
pub open spec fn on_new_context(before: Mgr, m: Mgr, id: u32) -> bool {
    &&& m.canvases.dom().contains(id)
    &&& crate::egl_device::stepped(
        before.egl,
        m.egl,
        crate::install::creation_step(m, m.canvases[id].ctx.ctx),
    )
}

/// The canvases of a debt that were not there before are on new contexts.
pub open spec fn on_new_contexts(specs: Seq<OffscreenRestore>, before: Mgr, m: Mgr) -> bool {
    forall|i: int|
        0 <= i < specs.len() && !before.canvases.dom().contains((#[trigger] specs[i]).id)
            ==> on_new_context(before, m, specs[i].id)
}

/// A canvas that is on a new context over a stretch is so over a longer one.
proof fn lemma_context_lasts(first: Mgr, before: Mgr, after: Mgr, last: Mgr, id: u32)
    requires
        crate::egl_device::remembers(first.egl, before.egl),
        crate::egl_device::remembers(after.egl, last.egl),
        last.cfg == after.cfg,
        last.root == after.root,
        last.canvases.dom().contains(id),
        last.canvases[id].ctx == after.canvases[id].ctx,
        on_new_context(before, after, id),
    ensures
        on_new_context(first, last, id),
{
    crate::egl_device::lemma_step_within(
        first.egl,
        before.egl,
        after.egl,
        last.egl,
        crate::install::creation_step(after, after.canvases[id].ctx.ctx),
    );
}

/// Nothing moved but canvases, 2D contexts, what is current and what follows from that for
/// the next frame.
pub open spec fn only_restoring_moved(before: Mgr, after: Mgr) -> bool {
    &&& after.cfg == before.cfg
    &&& after.root == before.root
    &&& after.flags == before.flags
    &&& after.window == before.window
    &&& after.pending == before.pending
    &&& after.preserved == before.preserved
    &&& after.next_canvas_id == before.next_canvas_id
    &&& after.debt == before.debt
    &&& after.snapshots == before.snapshots
    &&& after.uploads == before.uploads
    &&& crate::manager::same_targets(before.egl, after.egl)
    &&& crate::manager::grew(before, after)
}

/// What was owed could not be brought back: a canvas would be larger than one may be, or a
/// device refused.
pub open spec fn restore_caused(
    before: Mgr,
    after: Mgr,
    specs: Seq<OffscreenRestore>,
    e: CanvasError,
) -> bool {
    ||| e is TooLarge && exists|i: int|
        0 <= i < specs.len() && !crate::canvases::fits_cap(
            before,
            (#[trigger] specs[i]).width,
            specs[i].height,
        )
    ||| crate::manager::refusals(after) > crate::manager::refusals(before)
}

/// A context that was tried by drawing is not usable: it could not be made current, or the
/// library raised an error or reports a reset.
pub open spec fn unusable(before: Mgr, after: Mgr) -> bool {
    ||| crate::manager::refusals(after) > crate::manager::refusals(before)
    ||| after.gl.errors.last() != 0
    ||| after.gl.resets.len() > 0 && after.gl.resets.last() != 0
}

/// Every 2D context on the books is alive.
pub open spec fn all_alive(m: Mgr) -> bool {
    forall|id: u32| #[trigger]
        m.contexts.dom().contains(id) ==> m.paint.alive.dom().contains(id)
}

/// Whatever of a debt is there is as it is owed: a canvas has its size, and a 2D context
/// paints with what it painted with.
pub open spec fn as_owed(specs: Seq<OffscreenRestore>, m: Mgr) -> bool {
    forall|i: int|
        0 <= i < specs.len() ==> {
            let spec = #[trigger] specs[i];
            spec.id != ONSCREEN ==> {
                &&& m.canvases.dom().contains(spec.id) ==> m.canvases[spec.id].physical_width
                    == spec.width && m.canvases[spec.id].physical_height == spec.height
                    && m.canvases[spec.id].kind == SurfaceKind::Pbuffer
                &&& m.contexts.dom().contains(spec.id) ==> paints_with(m, spec.id, spec.state_2d)
            }
        }
}

/// A 2D context was given to a canvas, and the others keep theirs.
pub open spec fn others_paint(before: Mgr, after: Mgr, id: u32) -> bool {
    &&& forall|other: u32| #[trigger]
        before.contexts.dom().contains(other) ==> after.contexts.dom().contains(other)
    &&& forall|other: u32|
        other != id && #[trigger] after.contexts.dom().contains(other)
            ==> before.contexts.dom().contains(other)
    &&& forall|other: u32|
        other != id && #[trigger] before.paint.alive.dom().contains(other)
            ==> after.paint.alive.dom().contains(other) && after.paint.alive[other]
            == before.paint.alive[other]
    &&& forall|other: u32| #[trigger]
        before.canvases.dom().contains(other) ==> after.canvases.dom().contains(other)
            && after.canvases[other].physical_width == before.canvases[other].physical_width
            && after.canvases[other].physical_height == before.canvases[other].physical_height
            && after.canvases[other].kind == before.canvases[other].kind
            && after.canvases[other].ctx == before.canvases[other].ctx
    &&& forall|other: u32| #[trigger]
        after.canvases.dom().contains(other) ==> before.canvases.dom().contains(other) || other
            == id
}

impl<
    F: Fn(GlCall) -> u32,
    H: Fn(EglCall) -> Result<usize, EglError>,
    P: Fn(PaintCall) -> u64,
> CanvasManager<F, H, P> {
    /// Give a canvas its 2D context again, painting with a state.
    fn restore_2d(&mut self, id: u32, state: u64) -> (result: Result<(), CanvasError>)
        requires
            old(self).wf(),
        ensures
            final(self).wf(),
            only_restoring_moved(old(self)@, final(self)@),
            others_paint(old(self)@, final(self)@, id),
            final(self)@.canvases.dom() == old(self)@.canvases.dom(),
            result is Ok ==> final(self)@.contexts.dom().contains(id),
            all_alive(old(self)@) ==> all_alive(final(self)@),
            result is Ok && all_alive(old(self)@) ==> paints_with(final(self)@, id, Some(state)),
            result matches Err(e) ==> crate::manager::caused(old(self)@, final(self)@, id, e),
            result is Err ==> final(self)@.contexts == old(self)@.contexts && final(
                self)@.paint.alive == old(self)@.paint.alive,
    {
        if let Err(e) = self.init_skia_for_canvas(id) {
            return Err(e);
        }
        let _ = self.issue_paint(PaintCall::Adopt { canvas: id, state });
        Ok(())
    }
}

impl<
    F: Fn(GlCall) -> u32,
    H: Fn(EglCall) -> Result<usize, EglError>,
    P: Fn(PaintCall) -> u64,
> CanvasManager<F, H, P> {
    /// Make an offscreen canvas again, with its 2D context where it had one.
    fn restore_offscreen(&mut self, spec: OffscreenRestore) -> (result: Result<(), CanvasError>)
        requires
            old(self).wf(),
        ensures
            final(self).wf(),
            only_restoring_moved(old(self)@, final(self)@),
            others_paint(old(self)@, final(self)@, spec.id),
            all_alive(old(self)@) ==> all_alive(final(self)@),
            result is Ok ==> {
                &&& final(self)@.canvases.dom().contains(spec.id)
                &&& spec.state_2d is Some ==> final(self)@.contexts.dom().contains(spec.id)
                &&& all_alive(old(self)@) ==> paints_with(final(self)@, spec.id, spec.state_2d)
            },
            !old(self)@.canvases.dom().contains(spec.id) && final(self)@.canvases.dom().contains(
                spec.id,
            ) ==> final(self)@.canvases[spec.id].physical_width == spec.width && final(
                self)@.canvases[spec.id].physical_height == spec.height && final(
                self)@.canvases[spec.id].kind == SurfaceKind::Pbuffer && on_new_context(
                old(self)@,
                final(self)@,
                spec.id,
            ),
            result is Err ==> final(self)@.contexts == old(self)@.contexts && final(
                self)@.paint.alive == old(self)@.paint.alive,
            result matches Err(e) ==> (e is TooLarge && !crate::canvases::fits_cap(
                old(self)@,
                spec.width,
                spec.height,
            )) || crate::manager::refusals(final(self)@) > crate::manager::refusals(old(self)@),
    {
        if let Err(e) = self.register_offscreen(spec.id, spec.width, spec.height) {
            return Err(e);
        }
        let ghost registered = self@;
        proof {
            if !old(self)@.canvases.dom().contains(spec.id) {
                let ctx = choose|ctx: EglContextHandle|
                    {
                        let made = #[trigger] crate::canvases::with_offscreen(
                            old(self)@,
                            spec.id,
                            spec.width,
                            spec.height,
                            ctx,
                        );
                        &&& crate::binding::bypass_evaluated(made, registered)
                        &&& crate::binding::only_mode_moved(made, registered)
                    };
                lemma_registered(old(self)@, registered, spec, ctx);
            }
        }
        match spec.state_2d {
            None => Ok(()),
            Some(state) => {
                let restored = self.restore_2d(spec.id, state);
                proof {
                    if !old(self)@.canvases.dom().contains(spec.id) {
                        lemma_context_lasts(old(self)@, old(self)@, registered, self@, spec.id);
                    }
                }
                restored
            },
        }
    }

    /// Make the canvases of a plan again, in the share group that was built anew. The
    /// onscreen canvas itself is there already. A plan that was carried out in part is not
    /// carried out.
    fn restore_share_group(&mut self, plan: &ShareGroupRestorePlan) -> (result: Result<
        (),
        CanvasError,
    >)
        requires
            old(self).wf(),
            crate::manager::in_order(plan.offscreen@),
        ensures
            final(self).wf(),
            only_restoring_moved(old(self)@, final(self)@),
            forall|id: u32| #[trigger]
                old(self)@.canvases.dom().contains(id) ==> final(self)@.canvases.dom().contains(id),
            result is Ok && all_alive(old(self)@) ==> made_good(plan.offscreen@, final(self)@)
                && paints_with(final(self)@, ONSCREEN, plan.onscreen_2d),
            result is Ok ==> sizes_good(plan.offscreen@, old(self)@, final(self)@)
                && on_new_contexts(plan.offscreen@, old(self)@, final(self)@),
            forall|id: u32| #[trigger]
                old(self)@.canvases.dom().contains(id) ==> final(self)@.canvases[id].ctx == old(
                    self)@.canvases[id].ctx,
            old(self)@.canvases.dom().contains(ONSCREEN) ==> (result matches Err(e)
                ==> restore_caused(old(self)@, final(self)@, plan.offscreen@, e)),
            all_alive(old(self)@) ==> all_alive(final(self)@),
            all_alive(old(self)@) && as_owed(plan.offscreen@, old(self)@) ==> as_owed(
                plan.offscreen@,
                final(self)@,
            ),
    {
        if let Some(state) = plan.onscreen_2d {
            if let Err(e) = self.restore_2d(ONSCREEN, state) {
                return Err(e);
            }
        }
        let mut i: usize = 0;
        let ghost start = self@;
        while i < plan.offscreen.len()
            invariant
                i <= plan.offscreen@.len(),
                crate::manager::in_order(plan.offscreen@),
                self.wf(),
                only_restoring_moved(old(self)@, self@),
                start.canvases.dom() == old(self)@.canvases.dom(),
                all_alive(old(self)@) ==> all_alive(self@),
                all_alive(old(self)@) && as_owed(plan.offscreen@, old(self)@) ==> as_owed(
                    plan.offscreen@,
                    self@,
                ),
                forall|id: u32| #[trigger]
                    old(self)@.canvases.dom().contains(id) ==> self@.canvases.dom().contains(id),
                forall|id: u32| #[trigger]
                    self@.canvases.dom().contains(id) ==> old(self)@.canvases.dom().contains(id)
                        || listed(plan.offscreen@.take(i as int), id),
                all_alive(old(self)@) ==> made_good(plan.offscreen@.take(i as int), self@)
                    && paints_with(self@, ONSCREEN, plan.onscreen_2d),
                sizes_good(plan.offscreen@.take(i as int), old(self)@, self@),
                on_new_contexts(plan.offscreen@.take(i as int), old(self)@, self@),
                forall|id: u32| #[trigger]
                    old(self)@.canvases.dom().contains(id) ==> self@.canvases[id].ctx == old(
                        self)@.canvases[id].ctx,
            decreases plan.offscreen@.len() - i,
        {
            let spec = plan.offscreen[i];
            let ghost before = self@;
            proof {
                assert(!listed(plan.offscreen@.take(i as int), spec.id)) by {
                    if listed(plan.offscreen@.take(i as int), spec.id) {
                        let k = choose|k: int|
                            0 <= k < plan.offscreen@.take(i as int).len()
                                && (#[trigger] plan.offscreen@.take(i as int)[k]).id == spec.id;
                        assert(plan.offscreen@[k].id < plan.offscreen@[i as int].id);
                    }
                }
            }
            let restored = self.restore_offscreen(spec);
            proof {
                if all_alive(old(self)@) && as_owed(plan.offscreen@, old(self)@) {
                    lemma_stays_as_owed(plan.offscreen@, i as int, before, self@, restored);
                }
            }
            if let Err(e) = restored {
                return Err(e);
            }
            proof {
                lemma_one_more_restored(plan.offscreen@, i as int, old(self)@, before, self@);
                lemma_one_more_context(plan.offscreen@, i as int, old(self)@, before, self@);
            }
            i = i + 1;
        }
        assert(plan.offscreen@.take(i as int) =~= plan.offscreen@);
        Ok(())
    }
}

proof fn lemma_registered(before: Mgr, after: Mgr, spec: OffscreenRestore, ctx: EglContextHandle)
    requires
        !before.canvases.dom().contains(spec.id),
        crate::binding::only_mode_moved(
            crate::canvases::with_offscreen(before, spec.id, spec.width, spec.height, ctx),
            after,
        ),
    ensures
        only_restoring_moved(before, after),
        others_paint(before, after, spec.id),
        after.contexts == before.contexts,
        after.paint == before.paint,
        after.canvases.dom().contains(spec.id),
        after.canvases[spec.id].physical_width == spec.width,
        after.canvases[spec.id].physical_height == spec.height,
        after.canvases[spec.id].kind == SurfaceKind::Pbuffer,
        on_new_context(before, after, spec.id),
{
    let made = crate::canvases::with_offscreen(before, spec.id, spec.width, spec.height, ctx);
    assert forall|other: u32| #[trigger] before.canvases.dom().contains(other) implies
        after.canvases.dom().contains(other) && after.canvases[other].physical_width
        == before.canvases[other].physical_width && after.canvases[other].physical_height
        == before.canvases[other].physical_height && after.canvases[other].kind
        == before.canvases[other].kind && after.canvases[other].ctx
        == before.canvases[other].ctx by {
        assert(made.canvases.dom().contains(other));
        assert(crate::binding::same_canvas(made.canvases[other], after.canvases[other]));
    }
    assert forall|other: u32| #[trigger] after.canvases.dom().contains(other) implies
        before.canvases.dom().contains(other) || other == spec.id by {
        assert(made.canvases.dom().contains(other));
    }
    assert(made.canvases.dom().contains(spec.id));
    assert(after.canvases.dom().contains(spec.id));
    assert(crate::binding::same_canvas(made.canvases[spec.id], after.canvases[spec.id]));
    assert(after.egl.steps[before.egl.steps.len() as int] == crate::install::creation_step(
        after,
        ctx.ctx,
    ));
}

proof fn lemma_stays_as_owed(
    specs: Seq<OffscreenRestore>,
    i: int,
    before: Mgr,
    after: Mgr,
    restored: Result<(), CanvasError>,
)
    requires
        crate::manager::in_order(specs),
        0 <= i < specs.len(),
        all_alive(before),
        as_owed(specs, before),
        others_paint(before, after, specs[i].id),
        !before.canvases.dom().contains(specs[i].id) && after.canvases.dom().contains(specs[i].id)
            ==> after.canvases[specs[i].id].physical_width == specs[i].width
            && after.canvases[specs[i].id].physical_height == specs[i].height
            && after.canvases[specs[i].id].kind == SurfaceKind::Pbuffer,
        restored is Ok ==> paints_with(after, specs[i].id, specs[i].state_2d),
        restored is Err ==> after.contexts == before.contexts && after.paint.alive
            == before.paint.alive,
    ensures
        as_owed(specs, after),
{
    assert forall|k: int| 0 <= k < specs.len() implies {
        let spec = #[trigger] specs[k];
        spec.id != ONSCREEN ==> {
            &&& after.canvases.dom().contains(spec.id) ==> after.canvases[spec.id].physical_width
                == spec.width && after.canvases[spec.id].physical_height == spec.height
                && after.canvases[spec.id].kind == SurfaceKind::Pbuffer
            &&& after.contexts.dom().contains(spec.id) ==> paints_with(
                after,
                spec.id,
                spec.state_2d,
            )
        }
    } by {
        let spec = specs[k];
        if k != i {
            assert(spec.id != specs[i].id);
        }
        if before.contexts.dom().contains(spec.id) {
            assert(before.paint.alive.dom().contains(spec.id));
        }
    }
}

proof fn lemma_one_more_restored(
    specs: Seq<OffscreenRestore>,
    i: int,
    first: Mgr,
    before: Mgr,
    after: Mgr,
)
    requires
        crate::manager::in_order(specs),
        0 <= i < specs.len(),
        others_paint(before, after, specs[i].id),
        sizes_good(specs.take(i), first, before),
        forall|id: u32| #[trigger]
            before.canvases.dom().contains(id) ==> first.canvases.dom().contains(id) || listed(
                specs.take(i),
                id,
            ),
        !listed(specs.take(i), specs[i].id),
        after.canvases.dom().contains(specs[i].id),
        specs[i].state_2d is Some ==> after.contexts.dom().contains(specs[i].id),
        !before.canvases.dom().contains(specs[i].id) ==> after.canvases[specs[i].id].physical_width
            == specs[i].width && after.canvases[specs[i].id].physical_height == specs[i].height
            && after.canvases[specs[i].id].kind == SurfaceKind::Pbuffer,
    ensures
        sizes_good(specs.take(i + 1), first, after),
        forall|id: u32| #[trigger]
            after.canvases.dom().contains(id) ==> first.canvases.dom().contains(id) || listed(
                specs.take(i + 1),
                id,
            ),
        made_good(specs.take(i), before) && paints_with(after, specs[i].id, specs[i].state_2d)
            ==> made_good(specs.take(i + 1), after),
{
    let more = specs.take(i + 1);
    let some = specs.take(i);
    assert(more =~= some.push(specs[i]));
    assert forall|id: u32| #[trigger] after.canvases.dom().contains(id) implies
        first.canvases.dom().contains(id) || listed(more, id) by {
        if before.canvases.dom().contains(id) && listed(some, id) {
            let k = choose|k: int| 0 <= k < some.len() && (#[trigger] some[k]).id == id;
            assert(more[k].id == id);
        }
        assert(more[i].id == specs[i].id);
    }
    assert forall|k: int| 0 <= k < more.len() implies {
        let spec = #[trigger] more[k];
        &&& after.canvases.dom().contains(spec.id)
        &&& !first.canvases.dom().contains(spec.id) ==> after.canvases[spec.id].physical_width
            == spec.width && after.canvases[spec.id].physical_height == spec.height
            && after.canvases[spec.id].kind == SurfaceKind::Pbuffer
    } by {
        if k < i {
            assert(some[k] == more[k]);
            assert(specs[k].id < specs[i].id);
            assert(before.canvases.dom().contains(some[k].id));
        } else {
            assert(more[k] == specs[i]);
        }
    }
    if made_good(some, before) && paints_with(after, specs[i].id, specs[i].state_2d) {
        assert forall|k: int| 0 <= k < more.len() implies {
            let spec = #[trigger] more[k];
            &&& after.canvases.dom().contains(spec.id)
            &&& spec.state_2d is Some ==> after.contexts.dom().contains(spec.id)
            &&& paints_with(after, spec.id, spec.state_2d)
        } by {
            if k < i {
                assert(some[k] == more[k]);
                assert(specs[k].id < specs[i].id);
                assert(before.canvases.dom().contains(some[k].id));
            } else {
                assert(more[k] == specs[i]);
            }
        }
    }
}

/// One more canvas of a debt is there, on a new context if it was not there before.
proof fn lemma_one_more_context(
    specs: Seq<OffscreenRestore>,
    i: int,
    first: Mgr,
    before: Mgr,
    after: Mgr,
)
    requires
        0 <= i < specs.len(),
        only_restoring_moved(first, before),
        only_restoring_moved(before, after),
        others_paint(before, after, specs[i].id),
        on_new_contexts(specs.take(i), first, before),
        after.canvases.dom().contains(specs[i].id),
        forall|id: u32| #[trigger]
            before.canvases.dom().contains(id) ==> first.canvases.dom().contains(id) || listed(
                specs.take(i),
                id,
            ),
        !before.canvases.dom().contains(specs[i].id) ==> on_new_context(before, after, specs[i].id),
    ensures
        on_new_contexts(specs.take(i + 1), first, after),
{
    let more = specs.take(i + 1);
    let some = specs.take(i);
    assert forall|k: int|
        0 <= k < more.len() && !first.canvases.dom().contains((#[trigger] more[k]).id) implies
        on_new_context(first, after, more[k].id) by {
        let id = more[k].id;
        assert(k < i ==> some[k] == more[k]);
        if before.canvases.dom().contains(id) {
            assert(listed(some, id));
            let j = choose|j: int| 0 <= j < some.len() && (#[trigger] some[j]).id == id;
            assert(on_new_context(first, before, some[j].id));
            lemma_context_lasts(first, first, before, after, id);
        } else {
            if k < i {
                assert(on_new_context(first, before, some[k].id));
            }
            assert(more[k] == specs[i]);
            lemma_context_lasts(first, before, after, after, id);
        }
    }
}

/// The most errors that are discarded before a context is tried.
pub const MAX_STALE_ERRORS: usize = 8;

/// Nothing moved but what is current, and the library's state with it.
pub open spec fn only_probed(before: Mgr, after: Mgr) -> bool {
    &&& crate::manager::same_books(before, after)
    &&& crate::manager::same_frames(before, after)
    &&& crate::manager::same_session(Mgr { tried: after.tried, ..before }, after)
    &&& crate::manager::same_objects(before.egl, after.egl)
    &&& crate::painting::canvases_stay(before.canvases, after.canvases)
    &&& after.gl.bindings.textures == before.gl.bindings.textures
}

/// The context that was last tried by a clear is usable: the library was asked behind the
/// clear, and raised no error; and it reported no reset, where it tells of them.
pub open spec fn answers_clean(
    cfg: crate::manager::Config,
    gl: crate::gl_device::GlModel,
) -> bool {
    let (errors, resets) = gl.probes.last();
    &&& gl.probes.len() > 0
    &&& gl.errors.len() == errors + 1
    &&& gl.errors.last() == 0
    &&& cfg.reports_resets ==> gl.resets.len() == resets + 1 && gl.resets.last() == 0
}

/// A context was tried since, last with everything there that is there now, and is usable.
pub open spec fn tried_whole(before: Mgr, after: Mgr) -> bool {
    &&& answers_clean(after.cfg, after.gl)
    &&& after.tried.len() > before.tried.len()
    &&& after.tried.last() == crate::manager::inventory(after)
}

impl<
    F: Fn(GlCall) -> u32,
    H: Fn(EglCall) -> Result<usize, EglError>,
    P: Fn(PaintCall) -> u64,
> CanvasManager<F, H, P> {
    /// Discard errors that are left over from before, up to a number of them.
    fn drop_stale_errors(&mut self)
        requires
            old(self).wf(),
        ensures
            final(self).wf(),
            final(self)@ == (Mgr { gl: final(self)@.gl, ..old(self)@ }),
            final(self)@.gl == (crate::gl_device::GlModel {
                errors: final(self)@.gl.errors,
                ..old(self)@.gl
            }),
            old(self)@.gl.errors.len() < final(self)@.gl.errors.len() <= old(
                self)@.gl.errors.len() + MAX_STALE_ERRORS,
            final(self)@.gl.errors.last() == 0 || final(self)@.gl.errors.len() == old(
                self)@.gl.errors.len() + MAX_STALE_ERRORS,
    {
        let mut left: usize = MAX_STALE_ERRORS;
        while left > 0
            invariant_except_break
                left <= MAX_STALE_ERRORS,
            invariant
                self.wf(),
                self@ == (Mgr { gl: self@.gl, ..old(self)@ }),
                self@.gl == (crate::gl_device::GlModel {
                    errors: self@.gl.errors,
                    ..old(self)@.gl
                }),
                left <= MAX_STALE_ERRORS,
                self@.gl.errors.len() == old(self)@.gl.errors.len() + (MAX_STALE_ERRORS - left),
            ensures
                left == 0 || (self@.gl.errors.len() > 0 && self@.gl.errors.last() == 0 && left
                    < MAX_STALE_ERRORS),
            decreases left,
        {
            let error: u32 = self.issue_gl(GlCall::GetError);
            left = left - 1;
            if error == 0 {
                break;
            }
        }
    }

    /// Whether a canvas's context can be drawn with: it is made current, a clear raises no
    /// error, and the driver reports no reset, where it tells of them.
    fn probe_context_usable(&mut self, id: u32) -> (usable: bool)
        requires
            old(self).wf(),
        ensures
            final(self).wf(),
            only_probed(old(self)@, final(self)@),
            usable ==> crate::binding::serving(final(self)@.bound) == Some(id) && tried_whole(
                old(self)@,
                final(self)@,
            ),
            !usable ==> {
                ||| !old(self)@.canvases.dom().contains(id)
                ||| unusable(old(self)@, final(self)@)
            },
            crate::manager::grew(old(self)@, final(self)@),
    {
        if let Err(e) = self.make_current_needed(id) {
            proof {
                reveal(crate::binding::made_current);
            }
            return false;
        }
        self.drop_stale_errors();
        let _ = self.issue_gl(GlCall::ClearProbe);
        let error: u32 = self.issue_gl(GlCall::GetError);
        if error != 0 {
            return false;
        }
        if self.cfg().reports_resets {
            let status: u32 = self.issue_gl(GlCall::GraphicsResetStatus);
            if status != 0 {
                return false;
            }
        }
        true
    }

    /// Ask the driver whether the context was reset, where it tells, and take a reset that
    /// was asked for to be one, once.
    pub fn check_graphics_reset_status(&mut self) -> (lost: bool)
        requires
            old(self).wf(),
        ensures
            final(self).wf(),
            old(self)@.flags.simulated_reset ==> lost && final(self)@ == (Mgr {
                flags: Flags {
                    simulated_reset: false,
                    context_lost: true,
                    ..old(self)@.flags
                },
                ..old(self)@
            }),
            !old(self)@.flags.simulated_reset && !old(self)@.cfg.reports_resets ==> !lost && final(
                self)@ == old(self)@,
            !old(self)@.flags.simulated_reset && old(self)@.cfg.reports_resets ==> {
                &&& final(self)@.gl.resets.len() == old(self)@.gl.resets.len() + 1
                &&& lost == (final(self)@.gl.resets.last() != 0)
                &&& final(self)@ == (Mgr {
                    gl: final(self)@.gl,
                    flags: if lost {
                        Flags { context_lost: true, ..old(self)@.flags }
                    } else {
                        old(self)@.flags
                    },
                    ..old(self)@
                })
            },
    {
        let flags = self.flags();
        if flags.simulated_reset {
            self.set_flags(Flags { simulated_reset: false, context_lost: true, ..flags });
            return true;
        }
        if !self.cfg().reports_resets {
            return false;
        }
        let status: u32 = self.issue_gl(GlCall::GraphicsResetStatus);
        if status != 0 {
            self.set_flags(Flags { context_lost: true, ..flags });
            true
        } else {
            false
        }
    }

    /// Have the next check find a reset.
    pub fn request_simulated_reset(&mut self)
        requires
            old(self).wf(),
        ensures
            final(self).wf(),
            final(self)@ == (Mgr {
                flags: Flags { simulated_reset: true, ..old(self)@.flags },
                ..old(self)@
            }),
    {
        let flags = self.flags();
        self.set_flags(Flags { simulated_reset: true, ..flags });
    }

    /// Whether a lost context was found.
    pub fn is_context_lost(&self) -> (b: bool)
        ensures
            b == self@.flags.context_lost,
    {
        self.flags().context_lost
    }

    /// Whether there is nothing to present on.
    pub fn is_surface_unavailable(&self) -> (b: bool)
        ensures
            b == self@.flags.surface_unavailable,
    {
        self.flags().surface_unavailable
    }

    /// Whether there is a window on which a lost share group can come back.
    pub fn is_surface_recovery_ready(&self) -> (b: bool)
        ensures
            b == (self@.window.installed is Some),
    {
        self.window().installed.is_some()
    }
}

/// Textures are uploaded again, gated by `server`; or the driver refused to start that.
pub open spec fn uploads_settled(before: Mgr, after: Mgr, server: crate::uploads::Budget) -> bool {
    if after.egl.uploads {
        after.uploads.budget == Some(server)
    } else {
        &&& after.uploads.budget == before.uploads.budget
        &&& crate::egl_device::refused_once(
            before.egl,
            after.egl,
            EglCall::SpawnUploads { root: before.root.ctx },
        )
    }
}

/// The root was created since an earlier state, and shares no other context's objects.
pub open spec fn root_created(before: Mgr, after: Mgr) -> bool {
    crate::egl_device::stepped(
        before.egl,
        after.egl,
        crate::egl_device::Step::ContextMade {
            call: crate::manager::sharing_call(after.cfg, None),
            context: after.root.ctx,
        },
    )
}

/// The root that the display has stays the root. Without one a root is created, or the
/// driver refused to.
pub open spec fn root_chosen(before: Mgr, after: Mgr) -> bool {
    match before.egl.root {
        Some(root) => after.root == root,
        None => after.root == before.root || root_created(before, after),
    }
}

/// Nothing moved but the root, the uploads and what is current.
pub open spec fn only_root_moved(before: Mgr, after: Mgr) -> bool {
    &&& crate::manager::same_frames(before, after)
    &&& after.cfg == before.cfg
    &&& after.shared_2d == before.shared_2d
    &&& after.flags == before.flags
    &&& after.window == before.window
    &&& after.pending == before.pending
    &&& after.preserved == before.preserved
    &&& after.next_canvas_id == before.next_canvas_id
    &&& after.canvases == before.canvases
    &&& after.contexts == before.contexts
    &&& after.paint == before.paint
    &&& after.dirty == before.dirty
    &&& after.shadows == before.shadows
    &&& after.debt == before.debt
    &&& after.copy_fbos == before.copy_fbos
    &&& after.snapshots == before.snapshots
    &&& after.gl == before.gl
    &&& after.egl.windows == before.egl.windows
    &&& after.egl.rate_requests == before.egl.rate_requests
    &&& after.egl.up == before.egl.up
    &&& after.egl.terminated == before.egl.terminated
    &&& crate::manager::grew(before, after)
}

impl<
    F: Fn(GlCall) -> u32,
    H: Fn(EglCall) -> Result<usize, EglError>,
    P: Fn(PaintCall) -> u64,
> CanvasManager<F, H, P> {
    /// The root of a new share group: the one that an attempt before this has made, or a new
    /// one.
    fn root_to_use(&mut self) -> (result: Result<EglContextHandle, EglError>)
        requires
            old(self).wf(),
        ensures
            final(self).wf(),
            only_root_moved(old(self)@, final(self)@),
            final(self)@.root == old(self)@.root,
            final(self)@.uploads == old(self)@.uploads,
            final(self)@.egl.uploads == old(self)@.egl.uploads,
            final(self)@.egl.root is None,
            match result {
                Ok(root) => match old(self)@.egl.root {
                    Some(kept) => root == kept,
                    None => crate::egl_device::stepped(
                        old(self)@.egl,
                        final(self)@.egl,
                        crate::egl_device::Step::ContextMade {
                            call: crate::manager::sharing_call(final(self)@.cfg, None),
                            context: root.ctx,
                        },
                    ),
                },
                Err(_) => old(self)@.egl.root is None && final(self)@.egl.refused.len() > old(
                    self)@.egl.refused.len(),
            },
    {
        if let Some(root) = self.untrack_root() {
            return Ok(root);
        }
        let made = self.create_offscreen_context(None, 16, 16);
        proof {
            if made is Ok {
                assert(self@.egl.steps[old(self)@.egl.steps.len() as int]
                    == crate::egl_device::Step::ContextMade {
                    call: crate::manager::sharing_call(self@.cfg, None),
                    context: (made->Ok_0).ctx,
                });
            }
        }
        made
    }

    /// Make the root of a new share group, unless an attempt before this one has.
    fn rebuild_root(&mut self) -> (result: Result<(), CanvasError>)
        requires
            old(self).wf(),
        ensures
            final(self).wf(),
            only_root_moved(old(self)@, final(self)@),
            final(self)@.uploads == old(self)@.uploads,
            final(self)@.egl.uploads == old(self)@.egl.uploads,
            root_chosen(old(self)@, final(self)@),
            match result {
                Ok(_) => {
                    &&& final(self)@.egl.root == Some(final(self)@.root)
                    &&& final(self)@.bound == BoundContext::Resource
                    &&& old(self)@.egl.root is None ==> root_created(old(self)@, final(self)@)
                },
                Err(CanvasError::Egl(_)) => final(self)@.egl.refused.len() > old(
                    self)@.egl.refused.len(),
                Err(_) => false,
            },
    {
        let root = match self.root_to_use() {
            Err(e) => {
                return Err(CanvasError::Egl(e));
            },
            Ok(root) => root,
        };
        let ghost chosen = self@;
        self.track_root(root);
        self.set_root(root);
        let bound = self.bind_resource();
        proof {
            crate::egl_device::lemma_step_within(
                old(self)@.egl,
                old(self)@.egl,
                chosen.egl,
                self@.egl,
                crate::egl_device::Step::ContextMade {
                    call: crate::manager::sharing_call(self@.cfg, None),
                    context: root.ctx,
                },
            );
        }
        bound
    }

    /// Start uploading again on the new share group, where textures are uploaded on a thread
    /// of their own.
    fn respawn_uploads(&mut self, server: UploadServer)
        requires
            old(self).wf(),
        ensures
            final(self).wf(),
            only_root_moved(old(self)@, final(self)@),
            final(self)@.egl.root == old(self)@.egl.root,
            final(self)@.root == old(self)@.root,
            final(self)@.bound == old(self)@.bound,
            !old(self)@.cfg.uploads_async ==> final(self)@ == old(self)@,
            old(self)@.cfg.uploads_async ==> uploads_settled(
                old(self)@,
                final(self)@,
                server@,
            ),
    {
        if self.cfg().uploads_async {
            self.stop_uploads();
            if self.spawn_uploads() {
                self.gate_uploads(server);
            }
        }
    }

    /// Pay the debt that a lost share group left. Where that cannot be done in full, all of
    /// it stays owed.
    fn settle_debt(&mut self) -> (result: Result<(), CanvasError>)
        requires
            old(self).wf(),
        ensures
            final(self).wf(),
            only_restoring_moved(Mgr { debt: final(self)@.debt, ..old(self)@ }, final(self)@),
            forall|id: u32| #[trigger]
                old(self)@.canvases.dom().contains(id) ==> final(self)@.canvases.dom().contains(id),
            forall|id: u32| #[trigger]
                old(self)@.canvases.dom().contains(id) ==> final(self)@.canvases[id].ctx == old(
                    self)@.canvases[id].ctx,
            all_alive(old(self)@) ==> all_alive(final(self)@),
            old(self)@.debt matches Some(debt) ==> (all_alive(old(self)@) && as_owed(
                debt.offscreen,
                old(self)@,
            ) ==> as_owed(debt.offscreen, final(self)@)),
            match result {
                Ok(_) => {
                    &&& final(self)@.debt is None
                    &&& old(self)@.debt matches Some(debt) ==> {
                        &&& crate::manager::in_order(debt.offscreen)
                        &&& sizes_good(debt.offscreen, old(self)@, final(self)@)
                        &&& on_new_contexts(debt.offscreen, old(self)@, final(self)@)
                        &&& all_alive(old(self)@) ==> made_good(debt.offscreen, final(self)@)
                            && paints_with(final(self)@, ONSCREEN, debt.onscreen_2d)
                    }
                },
                Err(e) => final(self)@.debt == old(self)@.debt && old(self)@.debt is Some && (old(
                    self)@.canvases.dom().contains(ONSCREEN) ==> restore_caused(
                    old(self)@,
                    final(self)@,
                    old(self)@.debt->0.offscreen,
                    e,
                )),
            },
    {
        let plan = self.take_debt();
        let ghost taken = self@;
        assert(taken.canvases == old(self)@.canvases);
        match plan {
            None => Ok(()),
            Some(plan) => {
                let restored = self.restore_share_group(&plan);
                proof {
                    if restored is Ok {
                        let specs = old(self)@.debt->0.offscreen;
                        assert forall|i: int|
                            0 <= i < specs.len() && !old(self)@.canvases.dom().contains(
                                (#[trigger] specs[i]).id,
                            ) implies on_new_context(old(self)@, self@, specs[i].id) by {
                            assert(on_new_context(taken, self@, specs[i].id));
                        }
                    }
                }
                assert forall|id: u32| #[trigger] old(self)@.canvases.dom().contains(id) implies
                    self@.canvases.dom().contains(id) by {
                    assert(taken.canvases.dom().contains(id));
                }
                match restored {
                    Ok(_) => Ok(()),
                    Err(e) => {
                        self.put_debt(plan);
                        Err(e)
                    },
                }
            },
        }
    }
}

proof fn lemma_window_keeps_debt(a: Mgr, b: Mgr)
    requires
        crate::install::only_window_moved(a, b),
    ensures
        b.debt == a.debt,
        b.cfg == a.cfg,
        b.root == a.root,
        crate::manager::grew(a, b),
        all_alive(a) ==> all_alive(b),
        forall|id: u32|
            id != ONSCREEN ==> #[trigger] b.canvases.dom().contains(id)
                == a.canvases.dom().contains(id),
        a.debt matches Some(debt) ==> (as_owed(debt.offscreen, a) ==> as_owed(debt.offscreen, b)),
        b.uploads == a.uploads,
        b.egl.uploads == a.egl.uploads,
{
    reveal(crate::install::only_window_moved);
    if a.debt is Some && as_owed(a.debt->0.offscreen, a) {
        let specs = a.debt->0.offscreen;
        assert forall|i: int| 0 <= i < specs.len() implies {
            let spec = #[trigger] specs[i];
            spec.id != ONSCREEN ==> {
                &&& b.canvases.dom().contains(spec.id) ==> b.canvases[spec.id].physical_width
                    == spec.width && b.canvases[spec.id].physical_height == spec.height
                    && b.canvases[spec.id].kind == SurfaceKind::Pbuffer
                &&& b.contexts.dom().contains(spec.id) ==> paints_with(b, spec.id, spec.state_2d)
            }
        } by {
            let id = specs[i].id;
            if id != ONSCREEN {
                assert(b.canvases.dom().contains(id) == a.canvases.dom().contains(id));
                assert(b.contexts.dom().contains(id) == b.contexts.remove(ONSCREEN).dom().contains(
                    id,
                ));
                assert(a.contexts.dom().contains(id) == a.contexts.remove(ONSCREEN).dom().contains(
                    id,
                ));
                assert(b.paint.alive.dom().contains(id) == b.paint.alive.remove(
                    ONSCREEN,
                ).dom().contains(id));
                assert(a.paint.alive.dom().contains(id) == a.paint.alive.remove(
                    ONSCREEN,
                ).dom().contains(id));
                assert(b.paint.alive[id] == b.paint.alive.remove(ONSCREEN)[id]);
                assert(a.paint.alive[id] == a.paint.alive.remove(ONSCREEN)[id]);
            }
        }
    }
    if all_alive(a) {
        assert forall|id: u32| #[trigger] b.contexts.dom().contains(id) implies
            b.paint.alive.dom().contains(id) by {
            if id != ONSCREEN {
                assert(b.contexts.remove(ONSCREEN).dom().contains(id));
                assert(a.contexts.remove(ONSCREEN).dom().contains(id));
                assert(a.contexts.dom().contains(id));
                assert(a.paint.alive.remove(ONSCREEN).dom().contains(id));
                assert(b.paint.alive.remove(ONSCREEN).dom().contains(id));
            }
        }
    }
}

/// What a session owes once its share group is lost: what it owed already, or what it has.
pub open spec fn debt_of(m: Mgr, debt: crate::manager::Debt) -> bool {
    match m.debt {
        Some(d) => debt == d,
        None => owed_by(m, debt),
    }
}

/// The debt is paid: every offscreen canvas is there again, and every 2D context, painting
/// with what it painted with.
pub open spec fn paid(debt: crate::manager::Debt, m: Mgr) -> bool {
    &&& m.debt is None
    &&& m.canvases.dom().contains(ONSCREEN)
    &&& made_good(debt.offscreen, m)
    &&& paints_with(m, ONSCREEN, debt.onscreen_2d)
}

/// The canvases of a session are there again after it was built anew. Those that it had when
/// it was lost have the size that they had then, and the states on the list are what their
/// contexts painted with. An earlier attempt may have brought some of them back already.
pub open spec fn came_back(lost: Mgr, debt: crate::manager::Debt, m: Mgr) -> bool {
    &&& lost.debt is Some ==> sizes_good(debt.offscreen, lost, m)
    &&& lost.debt is None ==> {
        &&& forall|i: int|
            0 <= i < debt.offscreen.len() ==> {
                let spec = #[trigger] debt.offscreen[i];
                &&& m.canvases.dom().contains(spec.id)
                &&& m.canvases[spec.id].physical_width == spec.width
                &&& m.canvases[spec.id].physical_height == spec.height
                &&& m.canvases[spec.id].kind == SurfaceKind::Pbuffer
            }
    }
}

/// The context that the onscreen canvas of a session comes back on, where there is one: its
/// own, or one that is put by once a window surface of an earlier attempt is gone.
pub open spec fn available_context(m: Mgr) -> Option<usize> {
    if m.canvases.dom().contains(ONSCREEN) {
        Some(m.canvases[ONSCREEN].ctx.ctx)
    } else {
        match m.pending {
            Some(pending) => crate::onscreen::kept_pair(m.preserved, pending).ctx,
            None => m.preserved.ctx,
        }
    }
}

/// A session was built on a root that shares nothing with a lost one, and its canvases on
/// contexts that share the objects of that root. A session that was not taken down by an
/// earlier attempt has every context of the lost share group destroyed, as far as the driver
/// agrees; what an earlier attempt has built is built on.
pub open spec fn rebuilt_apart(
    lost: Mgr,
    debt: crate::manager::Debt,
    m: Mgr,
    result: Result<bool, CanvasError>,
) -> bool {
    let anew = lost.debt is None;
    &&& anew ==> group_unmade(lost, m)
    &&& !anew ==> root_chosen(lost, m)
    &&& anew ==> m.root == lost.root || root_created(lost, m)
    &&& result is Ok ==> {
        &&& anew || lost.egl.root is None ==> root_created(lost, m)
        &&& if anew || available_context(lost) is None {
            on_new_context(lost, m, ONSCREEN)
        } else {
            Some(m.canvases[ONSCREEN].ctx.ctx) == available_context(lost)
        }
        &&& forall|i: int|
            0 <= i < debt.offscreen.len() && (#[trigger] debt.offscreen[i]).id != ONSCREEN && (anew
                || !lost.canvases.dom().contains(debt.offscreen[i].id)) ==> on_new_context(lost, m, debt.offscreen[i].id)
    }
}

/// A lost session was built anew on a target, or what it owes stays owed. It is usable only
/// if a context was tried, clean, once everything that is there was there. Either way what is
/// there of it is as it is owed, and stays so over every later attempt.
pub open spec fn attempted(
    lost: Mgr,
    m: Mgr,
    target: u64,
    server: crate::uploads::Budget,
    debt: crate::manager::Debt,
    result: Result<bool, CanvasError>,
) -> bool {
    &&& match result {
        Ok(usable) => {
            &&& m.debt is None
            &&& m.window.installed == Some(target)
            &&& came_back(lost, debt, m)
            &&& lost.debt is None || all_alive(lost) ==> paid(debt, m)
            &&& usable ==> tried_whole(lost, m)
        },
        Err(e) => m.debt == Some(debt) && restore_caused(lost, m, debt.offscreen, e),
    }
    &&& result == Ok::<bool, CanvasError>(false) ==> unusable(lost, m)
    &&& rebuilt_apart(lost, debt, m, result)
    &&& lost.debt is None ==> m.paint.forgotten > lost.paint.forgotten
    &&& result is Ok && lost.cfg.uploads_async ==> (if m.egl.uploads {
        m.uploads.budget == Some(server)
    } else {
        crate::manager::refusals(m) > crate::manager::refusals(lost)
    })
    &&& lost.debt is None && m.paint.truthful ==> states_of(lost, debt)
    &&& lost.debt is None || all_alive(lost) ==> all_alive(m)
    &&& lost.debt is None || (all_alive(lost) && as_owed(debt.offscreen, lost)) ==> as_owed(
        debt.offscreen,
        m,
    )
}

/// What was built once a lost session was taken down was built apart from it.
proof fn lemma_apart_from(lost: Mgr, owing: Mgr, m: Mgr, result: Result<bool, CanvasError>)
    requires
        owing.debt is Some,
        lost.debt is Some ==> owing == lost,
        lost.debt is None ==> {
            &&& group_unmade(lost, owing)
            &&& emptied(owing)
            &&& owing.pending is None
            &&& owing.root == lost.root
            &&& crate::egl_device::remembers(lost.egl, owing.egl)
        },
        crate::egl_device::remembers(owing.egl, m.egl),
        rebuilt_apart(owing, owing.debt->0, m, result),
    ensures
        rebuilt_apart(lost, owing.debt->0, m, result),
{
    if lost.debt is None {
        let specs = owing.debt->0.offscreen;
        lemma_group_unmade_within(lost, lost, owing, m);
        crate::egl_device::lemma_step_within(
            lost.egl,
            owing.egl,
            m.egl,
            m.egl,
            crate::egl_device::Step::ContextMade {
                call: crate::manager::sharing_call(m.cfg, None),
                context: m.root.ctx,
            },
        );
        if result is Ok {
            lemma_context_lasts(lost, owing, m, m, ONSCREEN);
            assert forall|i: int|
                0 <= i < specs.len() && (#[trigger] specs[i]).id != ONSCREEN implies on_new_context(
                lost,
                m,
                specs[i].id,
            ) by {
                assert(!owing.canvases.dom().contains(specs[i].id));
                lemma_context_lasts(lost, owing, m, m, specs[i].id);
            }
        }
    }
}

/// The root that was chosen stays.
proof fn lemma_root_lasts(before: Mgr, rooted: Mgr, m: Mgr)
    requires
        crate::egl_device::remembers(before.egl, rooted.egl),
        crate::egl_device::remembers(rooted.egl, m.egl),
        m.cfg == rooted.cfg,
        m.root == rooted.root,
    ensures
        root_chosen(before, rooted) ==> root_chosen(before, m),
        root_created(before, rooted) ==> root_created(before, m),
{
    crate::egl_device::lemma_step_within(
        before.egl,
        before.egl,
        rooted.egl,
        m.egl,
        crate::egl_device::Step::ContextMade {
            call: crate::manager::sharing_call(m.cfg, None),
            context: m.root.ctx,
        },
    );
}

/// The canvases of a session that owes them come back on contexts of its root.
proof fn lemma_group_apart(before: Mgr, ready: Mgr, shown: Mgr, settled: Mgr, m: Mgr)
    requires
        before.debt is Some,
        before.pending is None,
        crate::egl_device::remembers(before.egl, ready.egl),
        crate::egl_device::remembers(ready.egl, shown.egl),
        crate::egl_device::remembers(shown.egl, settled.egl),
        crate::egl_device::remembers(settled.egl, m.egl),
        ready.canvases == before.canvases,
        ready.preserved == before.preserved,
        shown.cfg == ready.cfg,
        shown.root == ready.root,
        settled.cfg == shown.cfg,
        settled.root == shown.root,
        m.cfg == settled.cfg,
        m.root == settled.root,
        shown.canvases.dom().contains(ONSCREEN),
        settled.canvases.dom().contains(ONSCREEN),
        crate::install::window_context(ready, shown, shown.canvases[ONSCREEN].ctx.ctx),
        settled.canvases[ONSCREEN].ctx == shown.canvases[ONSCREEN].ctx,
        forall|id: u32|
            id != ONSCREEN ==> #[trigger] shown.canvases.dom().contains(id)
                == ready.canvases.dom().contains(id),
        on_new_contexts(before.debt->0.offscreen, shown, settled),
        crate::painting::canvases_stay(settled.canvases, m.canvases),
    ensures
        if available_context(before) is None {
            on_new_context(before, m, ONSCREEN)
        } else {
            Some(m.canvases[ONSCREEN].ctx.ctx) == available_context(before)
        },
        forall|i: int|
            0 <= i < before.debt->0.offscreen.len() && (
            #[trigger] before.debt->0.offscreen[i]).id != ONSCREEN
                && !before.canvases.dom().contains(before.debt->0.offscreen[i].id)
                ==> on_new_context(before, m, before.debt->0.offscreen[i].id),
{
    let specs = before.debt->0.offscreen;
    assert(m.canvases.dom().contains(ONSCREEN));
    if available_context(before) is None {
        assert(on_new_context(ready, shown, ONSCREEN));
        lemma_context_lasts(before, ready, shown, m, ONSCREEN);
    }
    assert forall|i: int|
        0 <= i < specs.len() && (#[trigger] specs[i]).id != ONSCREEN
            && !before.canvases.dom().contains(specs[i].id) implies on_new_context(
        before,
        m,
        specs[i].id,
    ) by {
        let id = specs[i].id;
        assert(!shown.canvases.dom().contains(id));
        assert(on_new_context(shown, settled, id));
        assert(m.canvases.dom().contains(id));
        lemma_context_lasts(before, shown, settled, m, id);
    }
}

/// What was built apart from a tidied session was built apart from the session before.
proof fn lemma_rebuilt_within(
    lost: Mgr,
    tidy: Mgr,
    debt: crate::manager::Debt,
    m: Mgr,
    result: Result<bool, CanvasError>,
)
    requires
        crate::onscreen::only_candidate_moved(lost, tidy),
        crate::egl_device::remembers(tidy.egl, m.egl),
        lost.preserved.ctx is Some ==> tidy.preserved.ctx == lost.preserved.ctx,
        available_context(tidy) == available_context(lost),
        rebuilt_apart(tidy, debt, m, result),
    ensures
        rebuilt_apart(lost, debt, m, result),
{
    lemma_group_unmade_within(lost, tidy, m, m);
    crate::egl_device::lemma_step_within(
        lost.egl,
        tidy.egl,
        m.egl,
        m.egl,
        crate::egl_device::Step::ContextMade {
            call: crate::manager::sharing_call(m.cfg, None),
            context: m.root.ctx,
        },
    );
    if on_new_context(tidy, m, ONSCREEN) {
        lemma_context_lasts(lost, tidy, m, m, ONSCREEN);
    }
    if result is Ok {
        assert forall|i: int|
            0 <= i < debt.offscreen.len() && (#[trigger] debt.offscreen[i]).id != ONSCREEN && (
            lost.debt is None || !lost.canvases.dom().contains(debt.offscreen[i].id)) implies on_new_context(lost, m, debt.offscreen[i].id) by {
            assert(on_new_context(tidy, m, debt.offscreen[i].id));
            lemma_context_lasts(lost, tidy, m, m, debt.offscreen[i].id);
        }
    }
}

proof fn lemma_attempt_from(
    lost: Mgr,
    tidy: Mgr,
    m: Mgr,
    target: u64,
    server: crate::uploads::Budget,
    debt: crate::manager::Debt,
    result: Result<bool, CanvasError>,
)
    requires
        crate::onscreen::only_candidate_moved(lost, tidy),
        crate::egl_device::remembers(tidy.egl, m.egl),
        lost.preserved.ctx is Some ==> tidy.preserved.ctx == lost.preserved.ctx,
        available_context(tidy) == available_context(lost),
        debt_of(tidy, debt),
        attempted(tidy, m, target, server, debt, result),
    ensures
        debt_of(lost, debt),
        attempted(lost, m, target, server, debt, result),
{
    lemma_rebuilt_within(lost, tidy, debt, m, result);
}

impl<
    F: Fn(GlCall) -> u32,
    H: Fn(EglCall) -> Result<usize, EglError>,
    P: Fn(PaintCall) -> u64,
> CanvasManager<F, H, P> {
    /// Put the onscreen canvas back on its window.
    fn rebuild_onscreen<C: Fn(InstallFacts) -> InstallPolicy, B: Fn(Extent, PixelRatio) -> Extent>(
        &mut self,
        target: u64,
        classify: &C,
        default_backing: &B,
    ) -> (result: Result<(), CanvasError>)
        requires
            old(self).wf(),
            old(self)@.pending is None,
            forall|f: InstallFacts| #[trigger] call_requires(*classify, (f,)),
            forall|e: Extent, r: PixelRatio| #[trigger] call_requires(*default_backing, (e, r)),
        ensures
            final(self).wf(),
            final(self)@.debt == old(self)@.debt,
            final(self)@.cfg == old(self)@.cfg,
            final(self)@.root == old(self)@.root,
            result is Ok ==> crate::install::window_context(
                old(self)@,
                final(self)@,
                final(self)@.canvases[ONSCREEN].ctx.ctx,
            ),
            all_alive(old(self)@) ==> all_alive(final(self)@),
            forall|id: u32|
                id != ONSCREEN ==> #[trigger] final(self)@.canvases.dom().contains(id) == old(
                    self)@.canvases.dom().contains(id),
            old(self)@.debt matches Some(debt) ==> (as_owed(debt.offscreen, old(self)@) ==> as_owed(
                debt.offscreen,
                final(self)@,
            )),
            final(self)@.uploads == old(self)@.uploads,
            final(self)@.egl.uploads == old(self)@.egl.uploads,
            result is Ok ==> crate::install::shows_on(final(self)@, target) && final(
                self)@.egl.rate_requests.last() == (target, old(self)@.window.frame_rate),
            crate::manager::grew(old(self)@, final(self)@),
            result is Err ==> crate::manager::refusals(final(self)@) > crate::manager::refusals(
                old(self)@,
            ),
    {
        let installed = self.create_onscreen(target, None, false, None, classify, default_backing);
        proof {
            reveal(crate::install::install_outcome);
            let start = crate::install::unforced(old(self)@);
            assert(crate::install::with_ratio(self@, old(self)@.window.pixel_ratio) == self@);
            assert(crate::install::only_window_moved(start, self@));
            lemma_window_keeps_debt(start, self@);
        }
        match installed {
            Ok(_) => Ok(()),
            Err(failure) => Err(failure.error),
        }
    }

    /// Build the share group anew, bring every canvas back, and try the result.
    fn rebuild_group<C: Fn(InstallFacts) -> InstallPolicy, B: Fn(Extent, PixelRatio) -> Extent>(
        &mut self,
        target: u64,
        server: UploadServer,
        classify: &C,
        default_backing: &B,
    ) -> (result: Result<bool, CanvasError>)
        requires
            old(self).wf(),
            old(self)@.pending is None,
            old(self)@.debt is Some,
            forall|f: InstallFacts| #[trigger] call_requires(*classify, (f,)),
            forall|e: Extent, r: PixelRatio| #[trigger] call_requires(*default_backing, (e, r)),
        ensures
            final(self).wf(),
            match result {
                Ok(usable) => {
                    &&& final(self)@.debt is None
                    &&& final(self)@.canvases.dom().contains(ONSCREEN)
                    &&& final(self)@.window.installed == Some(target)
                    &&& all_alive(old(self)@) ==> paid(old(self)@.debt->0, final(self)@)
                    &&& sizes_good(old(self)@.debt->0.offscreen, old(self)@, final(self)@)
                    &&& final(self)@.paint.truthful ==> old(self)@.paint.truthful
                    &&& usable ==> tried_whole(old(self)@, final(self)@)
                },
                Err(e) => final(self)@.debt == old(self)@.debt && restore_caused(
                    old(self)@,
                    final(self)@,
                    old(self)@.debt->0.offscreen,
                    e,
                ),
            },
            result == Ok::<bool, CanvasError>(false) ==> unusable(old(self)@, final(self)@),
            crate::egl_device::remembers(old(self)@.egl, final(self)@.egl),
            final(self)@.cfg == old(self)@.cfg,
            rebuilt_apart(old(self)@, old(self)@.debt->0, final(self)@, result),
            final(self)@.paint.forgotten >= old(self)@.paint.forgotten,
            all_alive(old(self)@) ==> all_alive(final(self)@),
            all_alive(old(self)@) && as_owed(old(self)@.debt->0.offscreen, old(self)@) ==> as_owed(
                old(self)@.debt->0.offscreen,
                final(self)@,
            ),
            final(self)@.paint.truthful ==> old(self)@.paint.truthful,
            result is Ok && old(self)@.cfg.uploads_async ==> (if final(self)@.egl.uploads {
                final(self)@.uploads.budget == Some(server@)
            } else {
                crate::manager::refusals(final(self)@) > crate::manager::refusals(old(self)@)
            }),
    {
        if let Err(e) = self.rebuild_root() {
            return Err(e);
        }
        let ghost rooted = self@;
        self.respawn_uploads(server);
        let ghost ready = self@;
        assert(as_owed(old(self)@.debt->0.offscreen, old(self)@) ==> as_owed(
            old(self)@.debt->0.offscreen,
            self@,
        ));
        if let Err(e) = self.rebuild_onscreen(target, classify, default_backing) {
            proof {
                lemma_root_lasts(old(self)@, rooted, self@);
            }
            return Err(e);
        }
        let ghost shown = self@;
        if let Err(e) = self.settle_debt() {
            proof {
                lemma_root_lasts(old(self)@, rooted, self@);
            }
            return Err(e);
        }
        let ghost settled = self@;
        assert(shown.canvases.dom().contains(ONSCREEN));
        assert(settled.canvases.dom().contains(ONSCREEN));
        let usable: bool = self.probe_context_usable(ONSCREEN);
        proof {
            lemma_root_lasts(old(self)@, rooted, self@);
            lemma_group_apart(old(self)@, ready, shown, settled, self@);
            let debt = old(self)@.debt->0;
            assert forall|i: int| 0 <= i < debt.offscreen.len() implies {
                let spec = #[trigger] debt.offscreen[i];
                &&& self@.canvases.dom().contains(spec.id)
                &&& !old(self)@.canvases.dom().contains(spec.id)
                    ==> self@.canvases[spec.id].physical_width == spec.width
                    && self@.canvases[spec.id].physical_height == spec.height
                    && self@.canvases[spec.id].kind == SurfaceKind::Pbuffer
            } by {
                let spec = debt.offscreen[i];
                assert(crate::binding::same_canvas(
                    settled.canvases[spec.id],
                    self@.canvases[spec.id],
                ));
            }
            if made_good(debt.offscreen, settled) {
                assert(made_good(debt.offscreen, self@));
            }
            if as_owed(debt.offscreen, settled) {
                assert forall|i: int| 0 <= i < debt.offscreen.len() implies {
                    let spec = #[trigger] debt.offscreen[i];
                    self@.canvases.dom().contains(spec.id) ==> crate::binding::same_canvas(
                        settled.canvases[spec.id],
                        self@.canvases[spec.id],
                    )
                } by {}
                assert(as_owed(debt.offscreen, self@));
            }
        }
        Ok(usable)
    }

    /// Take a lost share group down, where that was not done by an earlier attempt, and build
    /// it anew on a target.
    fn attempt_recovery<C: Fn(InstallFacts) -> InstallPolicy, B: Fn(Extent, PixelRatio) -> Extent>(
        &mut self,
        target: u64,
        server: UploadServer,
        classify: &C,
        default_backing: &B,
    ) -> (result: Result<bool, CanvasError>)
        requires
            old(self).wf(),
            old(self)@.pending is None,
            forall|f: InstallFacts| #[trigger] call_requires(*classify, (f,)),
            forall|e: Extent, r: PixelRatio| #[trigger] call_requires(*default_backing, (e, r)),
        ensures
            final(self).wf(),
            crate::egl_device::remembers(old(self)@.egl, final(self)@.egl),
            exists|debt: crate::manager::Debt| #[trigger]
                debt_of(old(self)@, debt) && attempted(
                    old(self)@,
                    final(self)@,
                    target,
                    server@,
                    debt,
                    result,
                ),
    {
        if !self.has_debt() {
            let plan = self.tear_down_share_group();
            self.put_debt(plan);
        }
        let ghost owing = self@;
        assert(debt_of(old(self)@, owing.debt->0));
        let result = self.rebuild_group(target, server, classify, default_backing);
        proof {
            lemma_apart_from(old(self)@, owing, self@, result);
        }
        assert(attempted(old(self)@, self@, target, server@, owing.debt->0, result));
        result
    }

    /// Bring a session back whose share group is lost: everything in it is gone, so it is
    /// taken down whole and built anew, on the window that is still there.
    ///
    /// `true` only if every canvas is back and the result can be drawn with. Otherwise the
    /// context stays lost, and what could not be brought back stays owed: the next attempt
    /// takes it up, instead of taking down a session that has lost its canvases already.
    pub fn try_recover_context<C: Fn(InstallFacts) -> InstallPolicy, B: Fn(Extent, PixelRatio) -> Extent>(
        &mut self,
        server: UploadServer,
        classify: &C,
        default_backing: &B,
    ) -> (result: Result<bool, CanvasError>)
        requires
            old(self).wf(),
            forall|f: InstallFacts| #[trigger] call_requires(*classify, (f,)),
            forall|e: Extent, r: PixelRatio| #[trigger] call_requires(*default_backing, (e, r)),
        ensures
            final(self).wf(),
            !old(self)@.flags.context_lost ==> result == Ok::<bool, CanvasError>(false) && final(
                self)@ == old(self)@,
            old(self)@.flags.context_lost ==> final(self)@.flags.context_lost == (result != Ok::<
                bool,
                CanvasError,
            >(true)),
            old(self)@.flags.context_lost && old(self)@.window.installed is None ==> result == Ok::<
                bool,
                CanvasError,
            >(false) && crate::onscreen::only_candidate_moved(old(self)@, final(self)@),
            old(self)@.flags.context_lost && old(self)@.window.installed is Some ==> {
                ||| {
                    // The driver keeps a window surface of an earlier attempt.
                    &&& result == Ok::<bool, CanvasError>(false)
                    &&& old(self)@.pending is Some
                    &&& final(self)@.pending == old(self)@.pending
                    &&& crate::onscreen::only_candidate_moved(old(self)@, final(self)@)
                    &&& crate::manager::refusals(final(self)@) > crate::manager::refusals(
                        old(self)@,
                    )
                }
                ||| exists|debt: crate::manager::Debt| #[trigger]
                    debt_of(old(self)@, debt) && attempted(
                        old(self)@,
                        final(self)@,
                        old(self)@.window.installed->0,
                        server@,
                        debt,
                        result,
                    )
            },
    {
        if !self.flags().context_lost {
            return Ok(false);
        }
        if self.pending().is_some() {
            if self.cleanup_pending_onscreen() != CandidateCleanup::Released {
                return Ok(false);
            }
        }
        let target: u64 = match self.window().installed {
            None => {
                return Ok(false);
            },
            Some(target) => target,
        };
        let ghost tidy = self@;
        let rebuilt = self.attempt_recovery(target, server, classify, default_backing);
        let ghost tried = self@;
        let flags = self.flags();
        let usable: bool = match rebuilt {
            Ok(usable) => usable,
            Err(_) => false,
        };
        self.set_flags(Flags { context_lost: !usable, ..flags });
        proof {
            let debt = choose|debt: crate::manager::Debt| #[trigger]
                debt_of(tidy, debt) && attempted(tidy, tried, target, server@, debt, rebuilt);
            assert(attempted(tidy, self@, target, server@, debt, rebuilt));
            if old(self)@.pending is Some {
                lemma_attempt_from(old(self)@, tidy, self@, target, server@, debt, rebuilt);
            }
        }
        rebuilt
    }
}

/// A recovery that succeeds brings every offscreen canvas of the lost session back, with the
/// size that it had and painting with what it painted with.
pub proof fn law_recovery_brings_every_canvas_back(
    lost: Mgr,
    debt: crate::manager::Debt,
    m: Mgr,
    target: u64,
    server: crate::uploads::Budget,
    usable: bool,
    id: u32,
)
    requires
        lost.debt is None,
        debt_of(lost, debt),
        attempted(lost, m, target, server, debt, Ok(usable)),
        lost.canvases.dom().contains(id),
        lost.canvases[id].kind == SurfaceKind::Pbuffer,
        id != ONSCREEN,
    ensures
        m.canvases.dom().contains(id),
        m.canvases[id].physical_width == lost.canvases[id].physical_width,
        m.canvases[id].physical_height == lost.canvases[id].physical_height,
        lost.contexts.dom().contains(id) ==> m.contexts.dom().contains(id),
        lost.contexts.dom().contains(id) && m.paint.truthful ==> m.paint.alive[id].state
            == lost.paint.alive[id].state,
{
    assert(listed(debt.offscreen, id));
    let i = choose|i: int| 0 <= i < debt.offscreen.len() && (#[trigger] debt.offscreen[i]).id == id;
    assert(debt.offscreen[i].id == id);
}

/// The onscreen canvas paints after a recovery with what it painted with before.
pub proof fn law_recovery_keeps_the_onscreen_state(
    lost: Mgr,
    debt: crate::manager::Debt,
    m: Mgr,
    target: u64,
    server: crate::uploads::Budget,
    usable: bool,
)
    requires
        lost.debt is None,
        debt_of(lost, debt),
        attempted(lost, m, target, server, debt, Ok(usable)),
        lost.contexts.dom().contains(ONSCREEN),
        m.paint.truthful,
    ensures
        m.paint.alive.dom().contains(ONSCREEN),
        m.paint.alive[ONSCREEN].state == lost.paint.alive[ONSCREEN].state,
{
}

/// However often an attempt fails before one succeeds, every offscreen canvas of the lost
/// session comes back with the size that it had, painting with what it painted with: those
/// that a failed attempt had brought back already as well as the others.
pub proof fn law_a_later_attempt_brings_every_canvas_back(
    lost: Mgr,
    failed: Mgr,
    m: Mgr,
    debt: crate::manager::Debt,
    later: crate::manager::Debt,
    target: u64,
    later_target: u64,
    server: crate::uploads::Budget,
    e: CanvasError,
    usable: bool,
    id: u32,
)
    requires
        lost.debt is None,
        debt_of(lost, debt),
        attempted(lost, failed, target, server, debt, Err(e)),
        debt_of(failed, later),
        attempted(failed, m, later_target, server, later, Ok(usable)),
        failed.paint.truthful,
        lost.canvases.dom().contains(id),
        lost.canvases[id].kind == SurfaceKind::Pbuffer,
        id != ONSCREEN,
    ensures
        m.canvases.dom().contains(id),
        m.canvases[id].physical_width == lost.canvases[id].physical_width,
        m.canvases[id].physical_height == lost.canvases[id].physical_height,
        lost.contexts.dom().contains(id) ==> m.contexts.dom().contains(id)
            && m.paint.alive[id].state == lost.paint.alive[id].state,
{
    assert(listed(debt.offscreen, id));
    let i = choose|i: int| 0 <= i < debt.offscreen.len() && (#[trigger] debt.offscreen[i]).id == id;
    assert(debt.offscreen[i].id == id);
}

/// An attempt that fails loses nothing: a later one that succeeds pays what the first owed.
pub proof fn law_a_failed_attempt_hands_its_debt_on(
    lost: Mgr,
    failed: Mgr,
    debt: crate::manager::Debt,
    later: crate::manager::Debt,
    m: Mgr,
)
    requires
        debt_of(lost, debt),
        failed.debt == Some(debt),
        debt_of(failed, later),
        paid(later, m),
    ensures
        later == debt,
        paid(debt, m),
{
}

/// A recovery is reported only of a session that can be drawn with: behind everything that was
/// brought back a context was cleared, the clear raised no error, and no reset was reported by
/// a driver that tells of them.
pub proof fn law_a_recovery_is_tried_before_it_is_reported(
    lost: Mgr,
    debt: crate::manager::Debt,
    m: Mgr,
    target: u64,
    server: crate::uploads::Budget,
)
    requires
        attempted(lost, m, target, server, debt, Ok(true)),
    ensures
        m.tried.len() > lost.tried.len(),
        m.tried.last().canvases == m.canvases.dom(),
        m.tried.last().painters == m.paint.alive,
        m.gl.errors.last() == 0,
        m.gl.errors.len() == m.gl.probes.last().0 + 1,
        m.cfg.reports_resets ==> m.gl.resets.last() == 0 && m.gl.resets.len()
            == m.gl.probes.last().1 + 1,
{
}

/// A recovery that succeeds on a session that was whole when it was lost builds it apart from
/// what was lost: its root shares nothing, its canvases are on contexts that were created
/// since and share the objects of that root, and every context of before was destroyed, as far
/// as the driver agreed.
pub proof fn law_a_recovered_session_shares_nothing_with_the_lost_one(
    lost: Mgr,
    debt: crate::manager::Debt,
    m: Mgr,
    target: u64,
    server: crate::uploads::Budget,
    usable: bool,
    id: u32,
)
    requires
        lost.debt is None,
        attempted(lost, m, target, server, debt, Ok::<bool, CanvasError>(usable)),
    ensures
        root_created(lost, m),
        on_new_context(lost, m, ONSCREEN),
        listed(debt.offscreen, id) && id != ONSCREEN ==> on_new_context(lost, m, id),
        lost.canvases.dom().contains(id) ==> crate::egl_device::context_unmade(
            lost.egl,
            m.egl,
            lost.canvases[id].ctx.ctx,
        ),
{
    if listed(debt.offscreen, id) {
        let i = choose|i: int|
            0 <= i < debt.offscreen.len() && (#[trigger] debt.offscreen[i]).id == id;
        assert(debt.offscreen[i].id == id);
    }
}

proof fn lemma_what_is_carried(sources: Seq<RestoreSource>, x: OffscreenRestore)
    ensures
        carried(sources).contains(x) == exists|i: int|
            0 <= i < sources.len() && (#[trigger] sources[i]).is_pbuffer && sources[i].id != 1
                && x.id == sources[i].id && x.width == sources[i].width && x.height
                == sources[i].height && x.state_2d == sources[i].state_2d,
    decreases sources.len(),
{
    if sources.len() > 0 {
        let rest = sources.drop_last();
        let last = sources.last();
        lemma_what_is_carried(rest, x);
        let some = carried(rest);
        let all = carried(sources);
        if some.contains(x) {
            let k = some.index_of(x);
            assert(all[k] == x);
            let i = choose|i: int|
                0 <= i < rest.len() && (#[trigger] rest[i]).is_pbuffer && rest[i].id != 1 && x.id
                    == rest[i].id && x.width == rest[i].width && x.height == rest[i].height
                    && x.state_2d == rest[i].state_2d;
            assert(sources[i] == rest[i]);
        }
        if carries_over(last) && restore_of(last) == x {
            assert(all[some.len() as int] == x);
            assert(sources[sources.len() - 1] == last);
        }
        if all.contains(x) && !some.contains(x) {
            let k = all.index_of(x);
            assert(k == some.len()) by {
                if k < some.len() {
                    assert(some[k] == x);
                }
            }
        }
        if exists|i: int|
            0 <= i < sources.len() && (#[trigger] sources[i]).is_pbuffer && sources[i].id != 1
                && x.id == sources[i].id && x.width == sources[i].width && x.height
                == sources[i].height && x.state_2d == sources[i].state_2d {
            let i = choose|i: int|
                0 <= i < sources.len() && (#[trigger] sources[i]).is_pbuffer && sources[i].id != 1
                    && x.id == sources[i].id && x.width == sources[i].width && x.height
                    == sources[i].height && x.state_2d == sources[i].state_2d;
            if i < rest.len() {
                assert(rest[i] == sources[i]);
            } else {
                assert(last == sources[i]);
                assert(restore_of(last) == x);
            }
        }
    }
}

/// What has to be made again is every canvas that is offscreen, with its size and what it
/// painted with, and nothing else, in the order of identifiers; and what the canvas of the
/// window painted with.
pub proof fn law_what_has_to_be_made_again(
    sources: Vec<RestoreSource>,
    onscreen_2d: Option<u64>,
    plan: ShareGroupRestorePlan,
    x: OffscreenRestore,
    i: int,
    j: int,
)
    requires
        call_ensures(plan_share_group_restore, (&sources, onscreen_2d), plan),
    ensures
        plan.onscreen_2d == onscreen_2d,
        plan.offscreen@.contains(x) == exists|k: int|
            0 <= k < sources@.len() && (#[trigger] sources@[k]).is_pbuffer && sources@[k].id != 1
                && x.id == sources@[k].id && x.width == sources@[k].width && x.height
                == sources@[k].height && x.state_2d == sources@[k].state_2d,
        0 <= i < j < plan.offscreen@.len() ==> plan.offscreen@[i].id <= plan.offscreen@[j].id,
        plan.offscreen@.len() <= sources@.len(),
{
    lemma_plan_members(sources@, plan.offscreen@);
    lemma_what_is_carried(sources@, x);
    lemma_fewer_carried(sources@);
}

proof fn lemma_fewer_carried(sources: Seq<RestoreSource>)
    ensures
        carried(sources).len() <= sources.len(),
    decreases sources.len(),
{
    if sources.len() > 0 {
        lemma_fewer_carried(sources.drop_last());
    }
}

/// A reset that was asked for is found once, whatever the driver would say; otherwise the
/// driver is asked where it tells, and any answer but zero is a reset. A reset that was found
/// is on record.
pub proof fn law_how_a_reset_is_found<
    F: Fn(GlCall) -> u32,
    H: Fn(EglCall) -> Result<usize, EglError>,
    P: Fn(PaintCall) -> u64,
>(lost: bool)
    ensures
        forall|m: &mut CanvasManager<F, H, P>|
            #[trigger] call_ensures(
                CanvasManager::<F, H, P>::check_graphics_reset_status,
                (m,),
                lost,
            ) ==> {
                let before = (*m)@;
                let after = (*final(m))@;
                &&& lost ==> after.flags.context_lost
                &&& !lost ==> after.flags.context_lost == before.flags.context_lost
                &&& before.flags.simulated_reset ==> lost && !after.flags.simulated_reset
                    && after.gl == before.gl
                &&& !before.flags.simulated_reset && !before.cfg.reports_resets ==> !lost && after
                    == before
                &&& !before.flags.simulated_reset && before.cfg.reports_resets ==> lost == (
                after.gl.resets.last() != 0) && after.gl.resets.len() == before.gl.resets.len() + 1
                &&& after.canvases == before.canvases
            },
{
}

/// What a session says of itself is what is on record.
pub proof fn law_what_a_session_says_of_itself<
    F: Fn(GlCall) -> u32,
    H: Fn(EglCall) -> Result<usize, EglError>,
    P: Fn(PaintCall) -> u64,
>(m: CanvasManager<F, H, P>, lost: bool, unavailable: bool, ready: bool)
    requires
        call_ensures(CanvasManager::<F, H, P>::is_context_lost, (&m,), lost),
        call_ensures(CanvasManager::<F, H, P>::is_surface_unavailable, (&m,), unavailable),
        call_ensures(CanvasManager::<F, H, P>::is_surface_recovery_ready, (&m,), ready),
    ensures
        lost == m@.flags.context_lost,
        unavailable == m@.flags.surface_unavailable,
        ready == (m@.window.installed is Some),
{
}

/// The onscreen canvas comes back on its own context while it has one, and else on the one
/// that is put by.
pub proof fn law_which_context_the_onscreen_canvas_comes_back_on(m: Mgr)
    ensures
        m.canvases.dom().contains(ONSCREEN) ==> available_context(m) == Some(m.canvases[ONSCREEN].ctx.ctx),
        !m.canvases.dom().contains(ONSCREEN) && m.pending is None ==> available_context(m)
            == m.preserved.ctx,
{
}

} // verus!
