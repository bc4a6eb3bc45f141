//! Presenting a frame: what must be repaired, what is submitted, what is remembered.
use vstd::prelude::*;

use crate::damage::DamageEffect;
use crate::damage::DamageRect;
use crate::damage::DamageRects;
use crate::damage::FrameDamageAccumulator;
use crate::damage::Rect;
use crate::damage::ResolvedDamage;

verus! {

/// Part of a surface, or all of it.
#[derive(Clone, Debug, PartialEq, Eq)]
pub enum DamageRegion {
    FullSurface,
    Partial(DamageRects),
}

/// A region as numbers: all of the surface, or the rectangles.
pub enum Region {
    Full,
    Rects(Seq<Rect>),
}

/// The region contains the pixel.
pub open spec fn region_covers(region: Region, px: int, py: int) -> bool {
    match region {
        Region::Full => true,
        Region::Rects(rects) => crate::damage::any_covers(rects, px, py),
    }
}

/// One more rectangle in a region.
pub open spec fn region_with(region: Region, r: Rect) -> Region {
    match region {
        Region::Full => Region::Full,
        Region::Rects(rects) => match crate::damage::with_rect(rects, r) {
            None => Region::Full,
            Some(all) => Region::Rects(all),
        },
    }
}

/// A region and every rectangle of a list, one after the other.
pub open spec fn region_with_all(region: Region, more: Seq<Rect>) -> Region
    decreases more.len(),
{
    if more.len() == 0 {
        region
    } else {
        region_with(region_with_all(region, more.drop_last()), more.last())
    }
}

/// Both regions together.
pub open spec fn join(a: Region, b: Region) -> Region {
    match b {
        Region::Full => Region::Full,
        Region::Rects(more) => region_with_all(a, more),
    }
}

impl View for DamageRegion {
    type V = Region;

    open spec fn view(&self) -> Region {
        match self {
            DamageRegion::FullSurface => Region::Full,
            DamageRegion::Partial(rects) => Region::Rects(rects@),
        }
    }
}

proof fn lemma_full_stays_full(more: Seq<Rect>)
    ensures
        region_with_all(Region::Full, more) == Region::Full,
    decreases more.len(),
{
    if more.len() > 0 {
        lemma_full_stays_full(more.drop_last());
    }
}

proof fn lemma_no_pixel_is_lost(region: Region, more: Seq<Rect>, px: int, py: int)
    requires
        region_covers(region, px, py) || crate::damage::any_covers(more, px, py),
    ensures
        region_covers(region_with_all(region, more), px, py),
    decreases more.len(),
{
    if more.len() > 0 {
        let before = more.drop_last();
        if region_covers(region, px, py) || crate::damage::any_covers(before, px, py) {
            lemma_no_pixel_is_lost(region, before, px, py);
        } else {
            let i = choose|i: int|
                0 <= i < more.len() && crate::damage::covers(#[trigger] more[i], px, py);
            assert(i == more.len() - 1) by {
                if i < more.len() - 1 {
                    assert(crate::damage::covers(before[i], px, py));
                }
            }
        }
        match region_with_all(region, before) {
            Region::Full => {},
            Region::Rects(rects) => {
                if crate::damage::with_rect(rects, more.last()) is Some {
                    crate::damage::law_no_pixel_is_lost(rects, more.last(), px, py);
                }
            },
        }
    }
}

/// Joining two regions loses no pixel of either.
pub proof fn law_joining_loses_no_pixel(a: Region, b: Region, px: int, py: int)
    requires
        region_covers(a, px, py) || region_covers(b, px, py),
    ensures
        region_covers(join(a, b), px, py),
{
    match b {
        Region::Full => {},
        Region::Rects(more) => lemma_no_pixel_is_lost(a, more, px, py),
    }
}

impl DamageRegion {
    /// The rectangles are well formed.
    pub open spec fn wf(&self) -> bool {
        self matches DamageRegion::Partial(rects) ==> rects.wf()
    }

    /// A region of one rectangle.
    pub fn from_rect(r: DamageRect) -> (region: Self)
        requires
            r.wf(),
        ensures
            region.wf(),
            region@ == Region::Rects(seq![r@]),
    {
        let mut rects = DamageRects::new();
        let kept: bool = rects.insert(r);
        assert(kept && rects@ =~= seq![r@]);
        DamageRegion::Partial(rects)
    }

    /// The same region again.
    pub fn duplicate(&self) -> (region: Self)
        ensures
            region@ == self@,
            self.wf() ==> region.wf(),
    {
        match self {
            DamageRegion::FullSurface => DamageRegion::FullSurface,
            DamageRegion::Partial(rects) => DamageRegion::Partial(rects.duplicate()),
        }
    }

    /// Both regions together.
    pub fn union(self, other: &DamageRegion) -> (region: Self)
        requires
            self.wf(),
            other.wf(),
        ensures
            region.wf(),
            region@ == join(self@, other@),
    {
        match (self, other) {
            (DamageRegion::FullSurface, DamageRegion::Partial(more)) => {
                proof {
                    lemma_full_stays_full(more@);
                }
                DamageRegion::FullSurface
            },
            (_, DamageRegion::FullSurface) => DamageRegion::FullSurface,
            (DamageRegion::Partial(mut rects), DamageRegion::Partial(more)) => {
                let ghost start = Region::Rects(rects@);
                let mut i: usize = 0;
                while i < more.len()
                    invariant
                        start == self@,
                        other@ == Region::Rects(more@),
                        i <= more@.len(),
                        rects.wf(),
                        more.wf(),
                        Region::Rects(rects@) == region_with_all(start, more@.take(i as int)),
                    decreases more@.len() - i,
                {
                    let r = more.get(i);
                    proof {
                        assert(more@.take(i + 1).drop_last() =~= more@.take(i as int));
                        assert(more@.take(i + 1).last() == r@);
                    }
                    if !rects.insert(r) {
                        proof {
                            assert(region_with_all(start, more@.take(i + 1)) == Region::Full);
                            lemma_full_from(start, more@, i + 1);
                        }
                        return DamageRegion::FullSurface;
                    }
                    i = i + 1;
                }
                assert(more@.take(i as int) =~= more@);
                DamageRegion::Partial(rects)
            },
        }
    }

    /// The smallest rectangle around the region, unless it is all of the surface.
    pub fn bounding_rect(&self) -> (r: Option<DamageRect>)
        requires
            self.wf(),
        ensures
            r matches Some(h) ==> h.wf() && (self@ matches Region::Rects(rects) && rects.len() > 0
                && h@ == crate::damage::hull_of(rects)),
            self@ is Full ==> r is None,
            self@ matches Region::Rects(rects) ==> (r is None == (rects.len() == 0
                || crate::damage::hull_of(rects).width > i32::MAX || crate::damage::hull_of(
                rects,
            ).height > i32::MAX)),
    {
        match self {
            DamageRegion::FullSurface => None,
            DamageRegion::Partial(rects) => rects.bounding(),
        }
    }
}

proof fn lemma_full_from(region: Region, more: Seq<Rect>, n: int)
    requires
        0 <= n <= more.len(),
        region_with_all(region, more.take(n)) == Region::Full,
    ensures
        region_with_all(region, more) == Region::Full,
    decreases more.len() - n,
{
    if n < more.len() {
        assert(more.take(n + 1).drop_last() =~= more.take(n));
        lemma_full_from(region, more, n + 1);
    } else {
        assert(more.take(n) =~= more);
    }
}

/// A region as one rectangle, for reporting.
pub open spec fn region_resolved(region: Region) -> ResolvedDamage {
    match region {
        Region::Full => ResolvedDamage::FullSurface,
        Region::Rects(rects) => if rects.len() == 0 || crate::damage::hull_of(rects).width
            > i32::MAX || crate::damage::hull_of(rects).height > i32::MAX {
            ResolvedDamage::FullSurface
        } else {
            let h = crate::damage::hull_of(rects);
            ResolvedDamage::Partial {
                x: h.x as i32,
                y: h.y as i32,
                width: h.width as i32,
                height: h.height as i32,
            }
        },
    }
}

/// Collapse a region to one rectangle.
pub fn region_to_resolved(region: &DamageRegion) -> (damage: ResolvedDamage)
    requires
        region.wf(),
    ensures
        damage == region_resolved(region@),
{
    match region.bounding_rect() {
        None => ResolvedDamage::FullSurface,
        Some(h) => {
            let (x, y, width, height) = h.xywh();
            ResolvedDamage::Partial { x, y, width, height }
        },
    }
}

/// How many presented frames the history remembers.
pub const HISTORY_LEN: usize = 8;

/// The damage of the frames that reached the surface, newest first.
pub struct PresentDamageHistory {
    entries: Vec<DamageRegion>,
}

/// The regions of a list of frames.
pub open spec fn region_views(entries: Seq<DamageRegion>) -> Seq<Region> {
    entries.map_values(|r: DamageRegion| r@)
}

/// A region together with the newest `n` frames of a history.
pub open spec fn join_newest(current: Region, frames: Seq<Region>, n: int) -> Region
    decreases n,
{
    if n <= 0 {
        current
    } else {
        join(join_newest(current, frames, n - 1), frames[n - 1])
    }
}

/// What a back buffer of the given age lacks of the current frame. Age 1 is the buffer
/// of the last frame; an age of 0 or less, or one that the history does not reach, is
/// unknown and lacks everything.
pub open spec fn repair_for_age(current: Region, frames: Seq<Region>, age: int) -> Region {
    if age < 1 || age - 1 > frames.len() {
        Region::Full
    } else {
        join_newest(current, frames, age - 1)
    }
}

/// The frames after one more has reached the surface; the oldest beyond the limit is
/// forgotten.
pub open spec fn remembered(frames: Seq<Region>, region: Region) -> Seq<Region> {
    if frames.len() < HISTORY_LEN {
        seq![region] + frames
    } else {
        seq![region] + frames.take(HISTORY_LEN - 1)
    }
}

impl View for PresentDamageHistory {
    type V = Seq<Region>;

    closed spec fn view(&self) -> Seq<Region> {
        region_views(self.entries@)
    }
}

impl PresentDamageHistory {
    /// Every remembered region is well formed, and there are not too many.
    pub closed spec fn wf(&self) -> bool {
        self.entries@.len() <= HISTORY_LEN && forall|i: int|
            0 <= i < self.entries@.len() ==> (#[trigger] self.entries@[i]).wf()
    }

    /// A history of no frames.
    pub fn new() -> (h: Self)
        ensures
            h.wf(),
            h@ == Seq::<Region>::empty(),
    {
        let h = PresentDamageHistory { entries: Vec::new() };
        assert(h@ =~= Seq::<Region>::empty());
        h
    }

    /// How many frames are remembered.
    pub fn len(&self) -> (n: usize)
        ensures
            n == self@.len(),
    {
        self.entries.len()
    }

    /// Forget every frame.
    pub fn clear(&mut self)
        ensures
            final(self).wf(),
            final(self)@ == Seq::<Region>::empty(),
    {
        *self = PresentDamageHistory::new();
    }

    /// Remember a frame that reached the surface; the oldest beyond the limit is forgotten.
    pub fn push(&mut self, region: DamageRegion)
        requires
            old(self).wf(),
            region.wf(),
        ensures
            final(self).wf(),
            final(self)@ == remembered(old(self)@, region@),
    {
        if self.entries.len() == HISTORY_LEN {
            let _ = self.entries.pop();
        }
        self.entries.insert(0, region);
        assert(self@ =~= remembered(old(self)@, region@));
    }

    /// What a back buffer of age `age` lacks of the current frame.
    pub fn resolve_with_age(&self, current: &DamageRegion, age: i32) -> (repair: DamageRegion)
        requires
            self.wf(),
            current.wf(),
        ensures
            repair.wf(),
            repair@ == repair_for_age(current@, self@, age as int),
    {
        if age < 1 || (age - 1) as usize > self.entries.len() {
            return DamageRegion::FullSurface;
        }
        let n: usize = (age - 1) as usize;
        let mut repair = current.duplicate();
        let mut i: usize = 0;
        while i < n
            invariant
                i <= n <= self.entries@.len(),
                self.wf(),
                repair.wf(),
                repair@ == join_newest(current@, self@, i as int),
            decreases n - i,
        {
            assert(self@[i as int] == self.entries@[i as int]@);
            repair = repair.union(&self.entries[i]);
            i = i + 1;
        }
        repair
    }
}

/// A back buffer that is repaired for its age is whole: the repair covers every pixel
/// of the current frame and of each frame that the buffer missed.
pub proof fn law_repair_covers_every_missed_frame(
    current: Region,
    frames: Seq<Region>,
    age: int,
    missed: int,
    px: int,
    py: int,
)
    requires
        0 <= missed < age - 1,
        missed < frames.len(),
    ensures
        region_covers(current, px, py) ==> region_covers(
            repair_for_age(current, frames, age),
            px,
            py,
        ),
        region_covers(frames[missed], px, py) ==> region_covers(
            repair_for_age(current, frames, age),
            px,
            py,
        ),
{
    if age - 1 <= frames.len() {
        lemma_join_newest_covers(current, frames, age - 1, missed, px, py);
    }
}

proof fn lemma_join_newest_covers(
    current: Region,
    frames: Seq<Region>,
    n: int,
    missed: int,
    px: int,
    py: int,
)
    requires
        0 <= n <= frames.len(),
    ensures
        region_covers(current, px, py) ==> region_covers(join_newest(current, frames, n), px, py),
        0 <= missed < n && region_covers(frames[missed], px, py) ==> region_covers(
            join_newest(current, frames, n),
            px,
            py,
        ),
    decreases n,
{
    if n > 0 {
        lemma_join_newest_covers(current, frames, n - 1, missed, px, py);
        let before = join_newest(current, frames, n - 1);
        if region_covers(before, px, py) || region_covers(frames[n - 1], px, py) {
            law_joining_loses_no_pixel(before, frames[n - 1], px, py);
        }
    }
}

/// What a frame changes, and what presenting it must rewrite.
#[derive(Debug)]
pub struct PresentDamagePlan {
    /// What this frame's content changed.
    pub current: DamageRegion,
    /// What makes the back buffer whole.
    pub repair: DamageRegion,
}

impl PresentDamagePlan {
    /// Both regions are well formed.
    pub open spec fn wf(&self) -> bool {
        self.current.wf() && self.repair.wf()
    }
}

/// A plan as regions.
pub struct Plan {
    pub current: Region,
    pub repair: Region,
}

impl View for PresentDamagePlan {
    type V = Plan;

    open spec fn view(&self) -> Plan {
        Plan { current: self.current@, repair: self.repair@ }
    }
}

/// The repair of a frame. A partial repair needs a buffer whose age is known, a
/// drawing buffer of exactly the surface's size and a single-sample surface.
pub open spec fn planned_repair(
    current: Region,
    frames: Seq<Region>,
    has_buffer_age: bool,
    age: int,
    db_matches: bool,
    single_sample: bool,
) -> Region {
    if has_buffer_age && db_matches && single_sample {
        repair_for_age(current, frames, age)
    } else {
        Region::Full
    }
}

/// Plan how a frame is presented.
pub fn build_present_plan(
    current: DamageRegion,
    history: &PresentDamageHistory,
    has_buffer_age: bool,
    age: i32,
    db_matches: bool,
    single_sample: bool,
) -> (plan: PresentDamagePlan)
    requires
        current.wf(),
        history.wf(),
    ensures
        plan.wf(),
        plan.current@ == current@,
        plan.repair@ == planned_repair(
            current@,
            history@,
            has_buffer_age,
            age as int,
            db_matches,
            single_sample,
        ),
{
    let repair = if has_buffer_age && db_matches && single_sample {
        history.resolve_with_age(&current, age)
    } else {
        DamageRegion::FullSurface
    };
    PresentDamagePlan { current, repair }
}

/// What is left of a plan whose region the driver did not accept: the partial repair
/// stands only where the aged contents are guaranteed without a declaration.
pub fn repair_after_declaration_failure(
    plan: PresentDamagePlan,
    has_ext_buffer_age: bool,
) -> (left: PresentDamagePlan)
    requires
        plan.wf(),
    ensures
        left.wf(),
        left.current@ == plan.current@,
        left.repair@ == (if has_ext_buffer_age {
            plan.repair@
        } else {
            Region::Full
        }),
{
    if has_ext_buffer_age {
        plan
    } else {
        PresentDamagePlan { current: plan.current, repair: DamageRegion::FullSurface }
    }
}

/// How the drawing buffer is copied to the surface.
#[derive(Debug)]
pub enum BlitPlan {
    /// One copy of everything, scaled with a linear filter where the sizes differ.
    Full { linear: bool },
    /// One copy per rectangle, at identical coordinates.
    Rects(DamageRects),
}

/// A copy is the one that a repair asks for.
pub open spec fn blit_for(
    repair: Region,
    db_matches: bool,
    single_sample: bool,
    blit: BlitPlan,
) -> bool {
    match blit {
        BlitPlan::Full { linear } => linear == !db_matches && (repair is Full || !db_matches
            || !single_sample),
        BlitPlan::Rects(rects) => rects.wf() && repair == Region::Rects(rects@) && db_matches
            && single_sample,
    }
}

/// The copy that a repair asks for.
pub fn blit_plan(repair: &DamageRegion, db_matches: bool, single_sample: bool) -> (blit: BlitPlan)
    requires
        repair.wf(),
    ensures
        blit_for(repair@, db_matches, single_sample, blit),
{
    match repair {
        DamageRegion::Partial(rects) => {
            if db_matches && single_sample {
                BlitPlan::Rects(rects.duplicate())
            } else {
                BlitPlan::Full { linear: !db_matches }
            }
        },
        DamageRegion::FullSurface => BlitPlan::Full { linear: !db_matches },
    }
}

/// The region that is submitted with a swap: what the frame changed, never the
/// age-expanded repair. `None` asks for a plain swap.
pub fn surface_damage_to_submit(
    plan: &PresentDamagePlan,
    supported: bool,
    rejected: bool,
) -> (rects: Option<DamageRects>)
    requires
        plan.wf(),
    ensures
        rects matches Some(r) ==> r.wf() && plan.current@ == Region::Rects(r@) && r@.len() > 0,
        rects is Some == (supported && !rejected && (plan.current@ matches Region::Rects(all)
            && all.len() > 0)),
{
    if !supported || rejected {
        return None;
    }
    match &plan.current {
        DamageRegion::FullSurface => None,
        DamageRegion::Partial(rects) => {
            if rects.len() == 0 {
                None
            } else {
                Some(rects.duplicate())
            }
        },
    }
}

/// What one present attempt did to the frame's bookkeeping.
#[derive(Debug, PartialEq, Eq, Structural, Clone, Copy)]
pub enum PresentCommit {
    /// The swap failed: the frame's damage is still owed, and nothing is remembered.
    Retry,
    /// The frame reached the surface whole.
    Presented(ResolvedDamage),
    /// The swap happened but a repair write failed: the back buffer is only partly
    /// defined, and the next present repairs everything.
    PresentedPartial,
}

/// A frame that owes nothing.
pub open spec fn clean_frame() -> crate::damage::FrameDamage {
    crate::damage::FrameDamage { full: false, rects: Seq::empty() }
}

/// Commit one present attempt.
pub fn commit_present_outcome(
    damage: &mut FrameDamageAccumulator,
    history: &mut PresentDamageHistory,
    swap_succeeded: bool,
    blit_succeeded: bool,
    plan: &PresentDamagePlan,
) -> (commit: PresentCommit)
    requires
        old(damage).wf(),
        old(history).wf(),
        plan.wf(),
    ensures
        final(damage).wf(),
        final(history).wf(),
        !swap_succeeded ==> {
            &&& commit == PresentCommit::Retry
            &&& final(damage)@ == old(damage)@
            &&& final(history)@ == old(history)@
        },
        swap_succeeded && blit_succeeded ==> {
            &&& commit == PresentCommit::Presented(region_resolved(plan.current@))
            &&& final(damage)@ == clean_frame()
            &&& final(history)@ == remembered(old(history)@, plan.current@)
        },
        swap_succeeded && !blit_succeeded ==> {
            &&& commit == PresentCommit::PresentedPartial
            &&& final(damage)@.full
            &&& final(history)@ == seq![Region::Full]
        },
{
    if !swap_succeeded {
        return PresentCommit::Retry;
    }
    damage.reset();
    if blit_succeeded {
        history.push(plan.current.duplicate());
        PresentCommit::Presented(region_to_resolved(&plan.current))
    } else {
        history.clear();
        history.push(DamageRegion::FullSurface);
        assert(history@ =~= seq![Region::Full]);
        damage.add(DamageEffect::FullSurface);
        PresentCommit::PresentedPartial
    }
}

/// After a frame whose repair failed, no present repairs from it: whatever the age of
/// the next back buffer beyond 1, everything is repaired.
pub proof fn law_a_partial_frame_is_no_repair_source(current: Region, age: int)
    requires
        age != 1,
    ensures
        repair_for_age(current, seq![Region::Full], age) == Region::Full,
{
    if age == 2 {
        assert(join_newest(current, seq![Region::Full], 0) == current);
        assert(join_newest(current, seq![Region::Full], 1) == Region::Full);
    }
}

/// The damage of the frame in flight and of the frames before it.
pub struct PresentState {
    pub damage: FrameDamageAccumulator,
    pub history: PresentDamageHistory,
    /// The plan that was declared for a canvas and awaits its swap.
    pub pending_plan: Option<(u32, PresentDamagePlan)>,
    /// The driver refused a swap with damage; it is not asked again.
    pub swap_with_damage_rejected: bool,
    /// The last swap interval that was set; -1 where none was.
    pub last_swap_interval: i32,
}

impl PresentState {
    /// The parts are well formed.
    pub open spec fn wf(&self) -> bool {
        self.damage.wf() && self.history.wf() && (self.pending_plan matches Some(p) ==> p.1.wf())
    }

    /// Nothing presented yet: the first swap sets its interval.
    pub fn new() -> (s: Self)
        ensures
            s.wf(),
            s.damage@ == clean_frame(),
            s.history@ == Seq::<Region>::empty(),
            s.pending_plan is None,
            !s.swap_with_damage_rejected,
            s.last_swap_interval == -1,
    {
        PresentState {
            damage: FrameDamageAccumulator::new(),
            history: PresentDamageHistory::new(),
            pending_plan: None,
            swap_with_damage_rejected: false,
            last_swap_interval: -1,
        }
    }

    /// The surface or its storage changed: no earlier frame can be repaired from, and
    /// no plan survives.
    pub fn forget_frames(&mut self)
        requires
            old(self).wf(),
        ensures
            final(self).wf(),
            final(self).history@ == Seq::<Region>::empty(),
            final(self).pending_plan is None,
            final(self).damage == old(self).damage,
            final(self).swap_with_damage_rejected == old(self).swap_with_damage_rejected,
            final(self).last_swap_interval == old(self).last_swap_interval,
    {
        self.history.clear();
        self.pending_plan = None;
    }

    /// As [`Self::forget_frames`], and the next present repairs everything.
    pub fn restart_full(&mut self)
        requires
            old(self).wf(),
        ensures
            final(self).wf(),
            final(self).history@ == Seq::<Region>::empty(),
            final(self).pending_plan is None,
            final(self).damage@ == crate::damage::after_effect(
                old(self).damage@,
                DamageEffect::FullSurface,
            ),
            final(self).swap_with_damage_rejected == old(self).swap_with_damage_rejected,
            final(self).last_swap_interval == old(self).last_swap_interval,
    {
        self.history.clear();
        self.pending_plan = None;
        self.damage.add(DamageEffect::FullSurface);
    }

    /// Resolve the frame's damage into a region of a surface of the given size; a frame
    /// without damage is full.
    pub fn current_damage_region(&self, surface: (i32, i32)) -> (region: DamageRegion)
        requires
            self.wf(),
        ensures
            region.wf(),
            region@ == frame_region(self.damage@, surface),
    {
        match self.damage.resolve_rects(surface) {
            None => DamageRegion::FullSurface,
            Some(rects) => if rects.len() == 0 {
                DamageRegion::FullSurface
            } else {
                DamageRegion::Partial(rects)
            },
        }
    }
}

/// The frame's own region of a surface of the given size. Where nothing of a frame's
/// damage meets the surface, all of it is taken to be damaged.
pub open spec fn frame_region(damage: crate::damage::FrameDamage, surface: (i32, i32)) -> Region {
    let cuts = crate::damage::cut_all(damage.rects, surface);
    if damage.full || damage.rects.len() == 0 || cuts.len() == 0 {
        Region::Full
    } else {
        Region::Rects(cuts)
    }
}

/// A plan that awaits its swap, with its canvas.
pub open spec fn pending_view(pending: Option<(u32, PresentDamagePlan)>) -> Option<(u32, Plan)> {
    match pending {
        Some((id, plan)) => Some((id, plan@)),
        None => None,
    }
}

/// The plan with which a canvas is swapped: the one declared for it, and never one
/// declared for another canvas.
pub fn take_plan(state: &mut PresentState, id: u32) -> (plan: Option<PresentDamagePlan>)
    requires
        old(state).wf(),
    ensures
        final(state).wf(),
        final(state).pending_plan is None,
        final(state).damage == old(state).damage,
        final(state).history == old(state).history,
        final(state).swap_with_damage_rejected == old(state).swap_with_damage_rejected,
        final(state).last_swap_interval == old(state).last_swap_interval,
        plan matches Some(p) ==> old(state).pending_plan == Some((id, p)),
        plan is None ==> !(old(state).pending_plan matches Some(p) && p.0 == id),
{
    match state.pending_plan.take() {
        None => None,
        Some((cached, plan)) => {
            if cached == id {
                Some(plan)
            } else {
                None
            }
        },
    }
}

/// Together with nothing a region stays as it is, and all of the surface stays all of it.
pub proof fn law_joining_nothing_changes_nothing(a: Region)
    ensures
        join(a, Region::Rects(Seq::empty())) == a,
        join(a, Region::Full) == Region::Full,
        join(Region::Full, a) == Region::Full,
{
    match a {
        Region::Full => {},
        Region::Rects(more) => lemma_full_stays_full(more),
    }
}

proof fn lemma_no_pixel_is_added(rects: Seq<Rect>, more: Seq<Rect>, px: int, py: int)
    requires
        rects.len() + more.len() <= 4,
    ensures
        region_with_all(Region::Rects(rects), more) matches Region::Rects(all) && all.len()
            <= rects.len() + more.len() && (crate::damage::any_covers(all, px, py)
            ==> crate::damage::any_covers(rects, px, py) || crate::damage::any_covers(more, px, py)),
    decreases more.len(),
{
    if more.len() > 0 {
        let before = more.drop_last();
        lemma_no_pixel_is_added(rects, before, px, py);
        match region_with_all(Region::Rects(rects), before) {
            Region::Full => {},
            Region::Rects(some) => {
                assert(crate::damage::with_rect(some, more.last()) is Some);
                crate::damage::law_rectangles_are_kept_apart(some, more.last(), px, py);
                if crate::damage::any_covers(before, px, py) {
                    let i = choose|i: int|
                        0 <= i < before.len() && crate::damage::covers(
                            #[trigger] before[i],
                            px,
                            py,
                        );
                    assert(crate::damage::covers(more[i], px, py));
                }
                if crate::damage::covers(more.last(), px, py) {
                    assert(crate::damage::covers(more[more.len() - 1], px, py));
                }
            },
        }
    }
}

/// Regions of four rectangles together cover the pixels of either, and no others.
pub proof fn law_joining_adds_no_pixel(a: Seq<Rect>, b: Seq<Rect>, px: int, py: int)
    requires
        a.len() + b.len() <= 4,
    ensures
        join(Region::Rects(a), Region::Rects(b)) is Rects,
        region_covers(join(Region::Rects(a), Region::Rects(b)), px, py) == (
        crate::damage::any_covers(a, px, py) || crate::damage::any_covers(b, px, py)),
{
    lemma_no_pixel_is_added(a, b, px, py);
    if crate::damage::any_covers(a, px, py) || crate::damage::any_covers(b, px, py) {
        lemma_no_pixel_is_lost(Region::Rects(a), b, px, py);
    }
}

/// The buffer of the last frame lacks what this frame changed, and nothing else. One of an
/// unknown age, or older than every frame that is remembered, lacks everything. One that
/// missed a frame which changed everything lacks everything, and an older buffer lacks no
/// less than a newer one.
pub proof fn law_what_a_buffer_lacks(
    current: Region,
    frames: Seq<Region>,
    age: int,
    missed: int,
    px: int,
    py: int,
)
    ensures
        repair_for_age(current, frames, 1) == current,
        age <= 0 ==> repair_for_age(current, frames, age) == Region::Full,
        age > frames.len() + 1 ==> repair_for_age(current, frames, age) == Region::Full,
        current is Full ==> repair_for_age(current, frames, age) == Region::Full,
        0 <= missed < age - 1 && missed < frames.len() && frames[missed] is Full
            ==> repair_for_age(current, frames, age) == Region::Full,
        age >= 1 && region_covers(repair_for_age(current, frames, age), px, py) ==> region_covers(
            repair_for_age(current, frames, age + 1),
            px,
            py,
        ),
        1 <= age <= frames.len() ==> repair_for_age(current, frames, age + 1) == join(
            repair_for_age(current, frames, age),
            frames[age - 1],
        ),
{
    if 1 <= age <= frames.len() + 1 {
        lemma_full_among_newest(current, frames, age - 1, missed);
    }
    if 1 <= age <= frames.len() {
        let before = join_newest(current, frames, age - 1);
        assert(join_newest(current, frames, age) == join(before, frames[age - 1]));
        if region_covers(before, px, py) {
            law_joining_loses_no_pixel(before, frames[age - 1], px, py);
        }
    }
}

proof fn lemma_full_among_newest(current: Region, frames: Seq<Region>, n: int, missed: int)
    requires
        0 <= n <= frames.len(),
    ensures
        current is Full ==> join_newest(current, frames, n) == Region::Full,
        0 <= missed < n && frames[missed] is Full ==> join_newest(current, frames, n)
            == Region::Full,
    decreases n,
{
    if n > 0 {
        lemma_full_among_newest(current, frames, n - 1, missed);
        law_joining_nothing_changes_nothing(frames[n - 1]);
    }
}

/// The frame that reaches the surface is remembered first, those before it after it in their
/// order, and eight at most.
pub proof fn law_the_newest_frame_is_remembered_first(
    frames: Seq<Region>,
    region: Region,
    i: int,
)
    requires
        frames.len() <= 8,
    ensures
        remembered(frames, region).len() == if frames.len() < 8 {
            frames.len() + 1
        } else {
            8
        },
        remembered(frames, region)[0] == region,
        0 <= i < frames.len() && i < 7 ==> remembered(frames, region)[i + 1] == frames[i],
{
}

/// A frame is repaired in part only where the buffer's age is known, the drawing buffer has
/// the surface's size and the surface takes one sample a pixel; a buffer of age one then needs
/// what the frame changed. The plan keeps what the frame changed as it is.
pub proof fn law_a_partial_repair_needs_all_three(
    current: DamageRegion,
    history: PresentDamageHistory,
    has_buffer_age: bool,
    age: i32,
    db_matches: bool,
    single_sample: bool,
    plan: PresentDamagePlan,
)
    requires
        current.wf(),
        history.wf(),
        call_ensures(
            build_present_plan,
            (current, &history, has_buffer_age, age, db_matches, single_sample),
            plan,
        ),
    ensures
        plan.current@ == current@,
        !has_buffer_age || !db_matches || !single_sample ==> plan.repair@ == Region::Full,
        has_buffer_age && db_matches && single_sample ==> plan.repair@ == repair_for_age(
            current@,
            history@,
            age as int,
        ),
        has_buffer_age && db_matches && single_sample && age == 1 ==> plan.repair@ == current@,
        age < 1 ==> plan.repair@ == Region::Full,
{
    law_what_a_buffer_lacks(current@, history@, age as int, 0, 0, 0);
}

/// A plan whose region the driver refused keeps its repair only where the buffer keeps its
/// contents anyway, and never changes what the frame changed.
pub proof fn law_a_refused_region_repairs_everything(
    plan: PresentDamagePlan,
    has_ext_buffer_age: bool,
    left: PresentDamagePlan,
)
    requires
        plan.wf(),
        call_ensures(repair_after_declaration_failure, (plan, has_ext_buffer_age), left),
    ensures
        left.current@ == plan.current@,
        has_ext_buffer_age ==> left.repair@ == plan.repair@,
        !has_ext_buffer_age ==> left.repair@ == Region::Full,
{
}

/// A copy is partial exactly where the repair is and the buffer has the surface's size and
/// one sample a pixel, and it then copies the repair's rectangles; a copy of everything is
/// filtered exactly where the sizes differ.
pub proof fn law_a_copy_follows_the_repair(
    repair: DamageRegion,
    db_matches: bool,
    single_sample: bool,
    blit: BlitPlan,
)
    requires
        repair.wf(),
        call_ensures(blit_plan, (&repair, db_matches, single_sample), blit),
    ensures
        blit is Rects == (repair@ is Rects && db_matches && single_sample),
        blit matches BlitPlan::Rects(rects) ==> repair@ == Region::Rects(rects@),
        blit matches BlitPlan::Full { linear } ==> linear == !db_matches,
{
}

/// What is submitted with a swap is what the frame changed, whatever is repaired; a swap is
/// plain where the driver takes no region, where it refused one before, and where the frame
/// changed everything or nothing.
pub proof fn law_a_swap_submits_what_the_frame_changed(
    plan: PresentDamagePlan,
    supported: bool,
    rejected: bool,
    rects: Option<DamageRects>,
)
    requires
        plan.wf(),
        call_ensures(surface_damage_to_submit, (&plan, supported, rejected), rects),
    ensures
        !supported || rejected ==> rects is None,
        plan.current@ is Full ==> rects is None,
        plan.current@ matches Region::Rects(all) ==> supported && !rejected ==> {
            &&& rects is Some == (all.len() > 0)
            &&& rects matches Some(r) ==> r@ == all
        },
{
}

/// A region that is told as one rectangle is told as one that covers every pixel of it; all
/// of the surface is told as that.
pub proof fn law_one_rectangle_tells_a_region(
    region: DamageRegion,
    told: ResolvedDamage,
    px: int,
    py: int,
)
    requires
        region.wf(),
        call_ensures(region_to_resolved, (&region,), told),
        region@ matches Region::Rects(rects) ==> forall|i: int|
            0 <= i < rects.len() ==> i32::MIN <= (#[trigger] rects[i]).x && i32::MIN <= rects[i].y
                && rects[i].width > 0 && rects[i].height > 0 && rects[i].x + rects[i].width
                <= i32::MAX && rects[i].y + rects[i].height <= i32::MAX,
    ensures
        region@ is Full ==> told == ResolvedDamage::FullSurface,
        region@ matches Region::Rects(rects) && rects.len() == 0 ==> told
            == ResolvedDamage::FullSurface,
        told matches ResolvedDamage::Partial { x, y, width, height } ==> {
            region_covers(region@, px, py) ==> x <= px < x + width && y <= py < y + height
        },
        region@ matches Region::Rects(rects) ==> rects.len() == 1 && rects[0].width <= i32::MAX
            && rects[0].height <= i32::MAX ==> told == (ResolvedDamage::Partial {
            x: rects[0].x as i32,
            y: rects[0].y as i32,
            width: rects[0].width as i32,
            height: rects[0].height as i32,
        }),
{
    match region@ {
        Region::Full => {},
        Region::Rects(rects) => {
            if rects.len() > 0 {
                lemma_hull_in_range(rects);
                if crate::damage::any_covers(rects, px, py) {
                    let i = choose|i: int|
                        0 <= i < rects.len() && crate::damage::covers(#[trigger] rects[i], px, py);
                    crate::damage::lemma_hull_encloses(rects, i);
                }
            }
        },
    }
}

proof fn lemma_hull_in_range(rects: Seq<Rect>)
    requires
        rects.len() > 0,
        forall|i: int|
            0 <= i < rects.len() ==> i32::MIN <= (#[trigger] rects[i]).x && i32::MIN <= rects[i].y
                && rects[i].width > 0 && rects[i].height > 0 && rects[i].x + rects[i].width
                <= i32::MAX && rects[i].y + rects[i].height <= i32::MAX,
    ensures
        i32::MIN <= crate::damage::hull_of(rects).x <= i32::MAX,
        i32::MIN <= crate::damage::hull_of(rects).y <= i32::MAX,
        crate::damage::hull_of(rects).width > 0,
        crate::damage::hull_of(rects).height > 0,
        crate::damage::hull_of(rects).x + crate::damage::hull_of(rects).width <= i32::MAX,
        crate::damage::hull_of(rects).y + crate::damage::hull_of(rects).height <= i32::MAX,
    decreases rects.len(),
{
    assert(rects[0].width > 0);
    if rects.len() > 1 {
        let rest = rects.drop_last();
        assert forall|i: int| 0 <= i < rest.len() implies i32::MIN <= (#[trigger] rest[i]).x
            && i32::MIN <= rest[i].y && rest[i].width > 0 && rest[i].height > 0 && rest[i].x
            + rest[i].width <= i32::MAX && rest[i].y + rest[i].height <= i32::MAX by {
            assert(rest[i] == rects[i]);
        }
        lemma_hull_in_range(rest);
        assert(rects[rects.len() - 1].width > 0);
    }
}

/// The region of a frame covers each pixel of the surface that the frame damaged, and where it
/// is rectangles, those pixels alone. A frame that damaged everything, or nothing of the
/// surface, has all of it as its region.
pub proof fn law_the_region_of_a_frame_is_its_damage(
    damage: crate::damage::FrameDamage,
    surface: (i32, i32),
    px: int,
    py: int,
)
    requires
        forall|i: int|
            0 <= i < damage.rects.len() ==> (#[trigger] damage.rects[i]).width > 0
                && damage.rects[i].height > 0,
        0 <= px < surface.0,
        0 <= py < surface.1,
    ensures
        damage.full || damage.rects.len() == 0 ==> frame_region(damage, surface) == Region::Full,
        crate::damage::any_covers(damage.rects, px, py) ==> region_covers(
            frame_region(damage, surface),
            px,
            py,
        ),
        frame_region(damage, surface) is Rects ==> (region_covers(
            frame_region(damage, surface),
            px,
            py,
        ) == crate::damage::any_covers(damage.rects, px, py)),
        !damage.full && crate::damage::any_covers(damage.rects, px, py) ==> frame_region(
            damage,
            surface,
        ) is Rects,
{
    crate::damage::law_cuts_keep_what_is_on_the_surface(damage.rects, surface, px, py);
}

/// A swap that failed leaves the frame owed and the history as it was. A frame that was swapped
/// whole owes nothing and is the newest of the history; one that was swapped in part is owed
/// anew, all of it, and nothing older is repaired from.
pub proof fn law_what_a_present_attempt_leaves(
    swapped: bool,
    copied: bool,
    plan: PresentDamagePlan,
    commit: PresentCommit,
)
    requires
        plan.wf(),
    ensures
        forall|damage: &mut FrameDamageAccumulator, history: &mut PresentDamageHistory|
            #[trigger] call_ensures(
                commit_present_outcome,
                (damage, history, swapped, copied, &plan),
                commit,
            ) && (*history)@.len() <= 8 ==> {
                let frame = (*final(damage))@;
                let frames = (*final(history))@;
                &&& !swapped ==> commit is Retry && frame == (*damage)@ && frames == (*history)@
                &&& swapped && copied ==> commit is Presented && !frame.full && frame.rects.len()
                    == 0 && frames[0] == plan.current@ && frames.len() <= 8
                &&& swapped && copied ==> forall|i: int|
                    0 <= i < (*history)@.len() && i < 7 ==> #[trigger] frames[i + 1] == (*history)@[i]
                &&& swapped && !copied ==> commit is PresentedPartial && frame.full && frames.len()
                    == 1 && frames[0] == Region::Full
            },
{
}

/// A plan is handed out for the canvas that it was declared for alone, and once.
pub proof fn law_a_plan_is_handed_out_once(id: u32, plan: Option<PresentDamagePlan>)
    ensures
        forall|state: &mut PresentState|
            #[trigger] call_ensures(take_plan, (state, id), plan) ==> {
                &&& (*final(state)).pending_plan is None
                &&& (*state).pending_plan is None ==> plan is None
                &&& (*state).pending_plan matches Some(p) ==> (p.0 != id ==> plan is None) && (p.0
                    == id ==> plan == Some(p.1))
                &&& (*final(state)).damage == (*state).damage
                &&& (*final(state)).history == (*state).history
            },
{
}

/// Once the surface has changed no frame is repaired from, and a restart owes everything.
pub proof fn law_a_changed_surface_is_repaired_from_nothing()
    ensures
        forall|state: &mut PresentState|
            #[trigger] call_ensures(PresentState::forget_frames, (state,), ()) ==> {
                &&& (*final(state)).history@.len() == 0
                &&& (*final(state)).pending_plan is None
                &&& (*final(state)).damage == (*state).damage
            },
        forall|state: &mut PresentState|
            #[trigger] call_ensures(PresentState::restart_full, (state,), ()) ==> {
                &&& (*final(state)).history@.len() == 0
                &&& (*final(state)).pending_plan is None
                &&& (*final(state)).damage@.full
            },
{
}

/// What a buffer lacks for its age covers the current frame, and is the current frame for the
/// buffer of the last one.
pub proof fn law_a_repair_covers_the_current_frame(
    history: PresentDamageHistory,
    current: DamageRegion,
    age: i32,
    repair: DamageRegion,
    px: int,
    py: int,
)
    requires
        history.wf(),
        current.wf(),
        call_ensures(PresentDamageHistory::resolve_with_age, (&history, &current, age), repair),
    ensures
        age == 1 ==> repair@ == current@,
        age <= 0 || age > history@.len() + 1 ==> repair@ == Region::Full,
        region_covers(current@, px, py) ==> region_covers(repair@, px, py),
{
    law_what_a_buffer_lacks(current@, history@, age as int, 0, px, py);
    if 1 <= age <= history@.len() + 1 {
        lemma_join_newest_covers(current@, history@, age - 1, 0, px, py);
    }
}

/// Both regions together cover every pixel of either, and a region of one rectangle covers that
/// one's.
pub proof fn law_regions_together_cover_both(
    a: DamageRegion,
    b: DamageRegion,
    both: DamageRegion,
    r: DamageRect,
    single: DamageRegion,
    px: int,
    py: int,
)
    requires
        call_ensures(DamageRegion::union, (a, &b), both),
        call_ensures(DamageRegion::from_rect, (r,), single),
    ensures
        region_covers(a@, px, py) || region_covers(b@, px, py) ==> region_covers(both@, px, py),
        region_covers(single@, px, py) == crate::damage::covers(r@, px, py),
{
    if region_covers(a@, px, py) || region_covers(b@, px, py) {
        law_joining_loses_no_pixel(a@, b@, px, py);
    }
    assert(seq![r@][0] == r@);
    if crate::damage::covers(r@, px, py) {
        assert(crate::damage::any_covers(seq![r@], px, py));
    }
}

/// The region of the frame in flight covers, on a surface of the size given, exactly what was
/// damaged of it, or everything.
pub proof fn law_the_frame_in_flight_is_its_damage(
    state: PresentState,
    surface: (i32, i32),
    region: DamageRegion,
    px: int,
    py: int,
)
    requires
        call_ensures(PresentState::current_damage_region, (&state, surface), region),
        forall|i: int|
            0 <= i < state.damage@.rects.len() ==> (#[trigger] state.damage@.rects[i]).width > 0
                && state.damage@.rects[i].height > 0,
        0 <= px < surface.0,
        0 <= py < surface.1,
    ensures
        state.damage@.full || state.damage@.rects.len() == 0 ==> region@ == Region::Full,
        crate::damage::any_covers(state.damage@.rects, px, py) ==> region_covers(region@, px, py),
        region@ is Rects ==> region_covers(region@, px, py) == crate::damage::any_covers(
            state.damage@.rects,
            px,
            py,
        ),
{
    law_the_region_of_a_frame_is_its_damage(state.damage@, surface, px, py);
}

/// A frame whose damage is told in rectangles has one at least. A frame of which nothing lies
/// on the surface is taken to have changed all of it.
pub proof fn law_a_partial_frame_shows_somewhere(
    damage: crate::damage::FrameDamage,
    surface: (i32, i32),
)
    ensures
        frame_region(damage, surface) matches Region::Rects(rects) ==> rects.len() > 0,
        (forall|i: int|
            0 <= i < damage.rects.len() ==> {
                let r = #[trigger] damage.rects[i];
                r.x + r.width <= 0 || r.y + r.height <= 0 || r.x >= surface.0 || r.y >= surface.1
            }) ==> frame_region(damage, surface) == Region::Full,
{
    if forall|i: int|
        0 <= i < damage.rects.len() ==> {
            let r = #[trigger] damage.rects[i];
            r.x + r.width <= 0 || r.y + r.height <= 0 || r.x >= surface.0 || r.y >= surface.1
        } {
        lemma_nothing_is_cut(damage.rects, surface);
    }
}

/// Of rectangles beside a surface nothing is left.
proof fn lemma_nothing_is_cut(rects: Seq<Rect>, surface: (i32, i32))
    requires
        forall|i: int|
            0 <= i < rects.len() ==> {
                let r = #[trigger] rects[i];
                r.x + r.width <= 0 || r.y + r.height <= 0 || r.x >= surface.0 || r.y >= surface.1
            },
    ensures
        crate::damage::cut_all(rects, surface).len() == 0,
    decreases rects.len(),
{
    if rects.len() > 0 {
        let last = rects[rects.len() - 1];
        lemma_nothing_is_cut(rects.drop_last(), surface);
    }
}

} // verus!
