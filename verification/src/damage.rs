//! What a frame changed, in pixels of the surface.
use vstd::prelude::*;

verus! {

/// A rectangle that is not empty and whose far edges are representable.
#[derive(Clone, Copy, Debug, PartialEq, Eq, Structural)]
pub struct DamageRect {
    x: i32,
    y: i32,
    width: i32,
    height: i32,
}

/// A rectangle as four numbers: left, bottom, width, height.
pub struct Rect {
    pub x: int,
    pub y: int,
    pub width: int,
    pub height: int,
}

/// The numbers describe a rectangle that damage can hold.
pub open spec fn is_rect(x: int, y: int, width: int, height: int) -> bool {
    width > 0 && height > 0 && x + width <= i32::MAX && y + height <= i32::MAX
}

/// Pixel (`px`, `py`) lies in the rectangle.
pub open spec fn covers(r: Rect, px: int, py: int) -> bool {
    r.x <= px < r.x + r.width && r.y <= py < r.y + r.height
}

/// Every pixel of `inner` lies in `outer`.
pub open spec fn encloses(outer: Rect, inner: Rect) -> bool {
    outer.x <= inner.x && outer.y <= inner.y && inner.x + inner.width <= outer.x + outer.width
        && inner.y + inner.height <= outer.y + outer.height
}

pub open spec fn min_of(a: int, b: int) -> int {
    if a <= b {
        a
    } else {
        b
    }
}

pub open spec fn max_of(a: int, b: int) -> int {
    if a >= b {
        a
    } else {
        b
    }
}

/// The smallest rectangle that encloses both.
pub open spec fn hull(a: Rect, b: Rect) -> Rect {
    let x = min_of(a.x, b.x);
    let y = min_of(a.y, b.y);
    Rect {
        x,
        y,
        width: max_of(a.x + a.width, b.x + b.width) - x,
        height: max_of(a.y + a.height, b.y + b.height) - y,
    }
}

/// The smallest rectangle that encloses all of `rects`.
pub open spec fn hull_of(rects: Seq<Rect>) -> Rect
    recommends
        rects.len() > 0,
    decreases rects.len(),
{
    if rects.len() <= 1 {
        rects[0]
    } else {
        hull(hull_of(rects.drop_last()), rects.last())
    }
}

/// Some rectangle of `rects` covers the pixel.
pub open spec fn any_covers(rects: Seq<Rect>, px: int, py: int) -> bool {
    exists|i: int| 0 <= i < rects.len() && covers(#[trigger] rects[i], px, py)
}

/// The most rectangles that a region keeps apart.
pub const MAX_RECTS: usize = 4;

/// The rectangles after one more: one that is already enclosed adds nothing, and one
/// too many makes them a single rectangle around them all. A rectangle around them
/// all that is not representable leaves nothing to keep apart.
pub open spec fn with_rect(rects: Seq<Rect>, r: Rect) -> Option<Seq<Rect>> {
    if exists|i: int| 0 <= i < rects.len() && encloses(#[trigger] rects[i], r) {
        Some(rects)
    } else if rects.len() < MAX_RECTS {
        Some(rects.push(r))
    } else {
        let all = hull_of(rects.push(r));
        if all.width <= i32::MAX && all.height <= i32::MAX {
            Some(seq![all])
        } else {
            None
        }
    }
}

impl View for DamageRect {
    type V = Rect;

    closed spec fn view(&self) -> Rect {
        Rect {
            x: self.x as int,
            y: self.y as int,
            width: self.width as int,
            height: self.height as int,
        }
    }
}

impl DamageRect {
    /// The rectangle is not empty and its far edges are representable.
    pub open spec fn wf(&self) -> bool {
        is_rect(self@.x, self@.y, self@.width, self@.height) && i32::MIN <= self@.x && i32::MIN
            <= self@.y
    }

    /// The rectangle, unless it is empty or reaches out of range.
    pub fn new(x: i32, y: i32, width: i32, height: i32) -> (r: Option<DamageRect>)
        ensures
            r matches Some(rect) ==> rect.wf() && rect@ == (Rect {
                x: x as int,
                y: y as int,
                width: width as int,
                height: height as int,
            }),
            r is Some == is_rect(x as int, y as int, width as int, height as int),
    {
        if width <= 0 || height <= 0 {
            return None;
        }
        if x > i32::MAX - width || y > i32::MAX - height {
            return None;
        }
        Some(DamageRect { x, y, width, height })
    }

    /// Left, bottom, width, height.
    pub fn xywh(&self) -> (r: (i32, i32, i32, i32))
        ensures
            self@ == (Rect { x: r.0 as int, y: r.1 as int, width: r.2 as int, height: r.3 as int }),
    {
        (self.x, self.y, self.width, self.height)
    }

    fn enclosed_by(&self, outer: &DamageRect) -> (b: bool)
        requires
            self.wf(),
            outer.wf(),
        ensures
            b == encloses(outer@, self@),
    {
        outer.x <= self.x && outer.y <= self.y && self.x + self.width <= outer.x + outer.width
            && self.y + self.height <= outer.y + outer.height
    }

    /// The smallest rectangle around both, unless it is not representable.
    fn around(&self, other: &DamageRect) -> (r: Option<DamageRect>)
        requires
            self.wf(),
            other.wf(),
        ensures
            r matches Some(h) ==> h.wf() && h@ == hull(self@, other@),
            r is None ==> hull(self@, other@).width > i32::MAX || hull(self@, other@).height
                > i32::MAX,
            r is Some ==> hull(self@, other@).width <= i32::MAX && hull(self@, other@).height
                <= i32::MAX,
    {
        let x: i32 = if self.x <= other.x {
            self.x
        } else {
            other.x
        };
        let y: i32 = if self.y <= other.y {
            self.y
        } else {
            other.y
        };
        let right: i32 = if self.x + self.width >= other.x + other.width {
            self.x + self.width
        } else {
            other.x + other.width
        };
        let top: i32 = if self.y + self.height >= other.y + other.height {
            self.y + self.height
        } else {
            other.y + other.height
        };
        let width: i64 = right as i64 - x as i64;
        let height: i64 = top as i64 - y as i64;
        if width > i32::MAX as i64 || height > i32::MAX as i64 {
            return None;
        }
        Some(DamageRect { x, y, width: width as i32, height: height as i32 })
    }
}

/// At most four rectangles.
#[derive(Clone, Debug, PartialEq, Eq)]
pub struct DamageRects {
    rects: Vec<DamageRect>,
}

/// The numbers of a list of rectangles.
pub open spec fn rect_views(rects: Seq<DamageRect>) -> Seq<Rect> {
    rects.map_values(|r: DamageRect| r@)
}

impl View for DamageRects {
    type V = Seq<Rect>;

    closed spec fn view(&self) -> Seq<Rect> {
        rect_views(self.rects@)
    }
}

impl DamageRects {
    /// At most four rectangles, each well formed.
    pub closed spec fn wf(&self) -> bool {
        self.rects@.len() <= MAX_RECTS && forall|i: int|
            0 <= i < self.rects@.len() ==> (#[trigger] self.rects@[i]).wf()
    }

    /// No rectangles.
    pub fn new() -> (r: Self)
        ensures
            r.wf(),
            r@ == Seq::<Rect>::empty(),
    {
        let r = DamageRects { rects: Vec::new() };
        assert(r@ =~= Seq::<Rect>::empty());
        r
    }

    /// How many rectangles there are.
    pub fn len(&self) -> (n: usize)
        ensures
            n == self@.len(),
            self.wf() ==> n <= MAX_RECTS,
    {
        self.rects.len()
    }

    /// Rectangle `i`.
    pub fn get(&self, i: usize) -> (r: DamageRect)
        requires
            i < self@.len(),
        ensures
            r@ == self@[i as int],
            self.wf() ==> r.wf(),
    {
        self.rects[i]
    }

    /// The same rectangles again.
    pub fn duplicate(&self) -> (r: Self)
        ensures
            r@ == self@,
            self.wf() ==> r.wf(),
    {
        let mut rects: Vec<DamageRect> = Vec::new();
        let mut i: usize = 0;
        while i < self.rects.len()
            invariant
                i <= self.rects@.len(),
                rects@ == self.rects@.take(i as int),
            decreases self.rects@.len() - i,
        {
            rects.push(self.rects[i]);
            assert(self.rects@.take(i + 1) =~= self.rects@.take(i as int).push(
                self.rects@[i as int],
            ));
            i = i + 1;
        }
        assert(self.rects@.take(i as int) =~= self.rects@);
        DamageRects { rects }
    }

    /// Cut every rectangle to a surface.
    pub fn cut(&self, surface: (i32, i32)) -> (cuts: Self)
        requires
            self.wf(),
        ensures
            cuts.wf(),
            cuts@ == cut_all(self@, surface),
    {
        let mut rects: Vec<DamageRect> = Vec::new();
        let mut i: usize = 0;
        assert(rect_views(rects@) =~= cut_all(self@.take(0), surface));
        while i < self.rects.len()
            invariant
                self.wf(),
                i <= self.rects@.len(),
                rects@.len() <= i,
                rect_views(rects@) == cut_all(self@.take(i as int), surface),
                forall|k: int| 0 <= k < rects@.len() ==> (#[trigger] rects@[k]).wf(),
            decreases self.rects@.len() - i,
        {
            proof {
                assert(self@.take(i + 1).drop_last() =~= self@.take(i as int));
                assert(self@.take(i + 1).last() == self.rects@[i as int]@);
            }
            let ghost before = rects@;
            if let Some(r) = cut_rect(self.rects[i], surface) {
                rects.push(r);
                assert(rect_views(rects@) =~= rect_views(before).push(r@));
            }
            i = i + 1;
        }
        assert(self@.take(i as int) =~= self@);
        DamageRects { rects }
    }

    /// The rectangles as they are handed to a driver.
    pub fn list(&self) -> (list: RectList)
        requires
            self.wf(),
        ensures
            list.count == self@.len(),
            list_rects(list) == self@,
    {
        let list = RectList {
            count: self.rects.len() as u32,
            first: self.quad(0),
            second: self.quad(1),
            third: self.quad(2),
            fourth: self.quad(3),
        };
        assert(list_rects(list) =~= self@);
        list
    }

    /// Rectangle `i`, or nothing at all where there are not so many.
    fn quad(&self, i: usize) -> (q: Quad)
        requires
            self.wf(),
        ensures
            i < self@.len() ==> quad_rect(q) == self@[i as int],
    {
        if i < self.rects.len() {
            let (x, y, width, height) = self.rects[i].xywh();
            Quad { x, y, width, height }
        } else {
            Quad { x: 0, y: 0, width: 0, height: 0 }
        }
    }

    /// Keep one more rectangle; answers `false` where the rectangle around them all is
    /// not representable, and then keeps what there was.
    pub fn insert(&mut self, r: DamageRect) -> (kept: bool)
        requires
            old(self).wf(),
            r.wf(),
        ensures
            final(self).wf(),
            kept == with_rect(old(self)@, r@) is Some,
            kept ==> final(self)@ == with_rect(old(self)@, r@)->0,
            !kept ==> final(self)@ == old(self)@,
    {
        let mut i: usize = 0;
        while i < self.rects.len()
            invariant
                i <= self.rects@.len(),
                self.wf(),
                r.wf(),
                *self == *old(self),
                forall|j: int| 0 <= j < i ==> !encloses(#[trigger] self@[j], r@),
            decreases self.rects@.len() - i,
        {
            if r.enclosed_by(&self.rects[i]) {
                assert(encloses(self@[i as int], r@));
                return true;
            }
            assert(!encloses(self@[i as int], r@));
            i = i + 1;
        }
        if self.rects.len() < MAX_RECTS {
            self.rects.push(r);
            assert(self@ =~= old(self)@.push(r@));
            return true;
        }
        match self.enclosing(&r) {
            None => false,
            Some(all) => {
                let mut rects: Vec<DamageRect> = Vec::new();
                rects.push(all);
                self.rects = rects;
                assert(self@ =~= seq![all@]);
                true
            },
        }
    }

    /// The smallest rectangle around all of them and `r`.
    fn enclosing(&self, r: &DamageRect) -> (all: Option<DamageRect>)
        requires
            self.wf(),
            r.wf(),
            self@.len() > 0,
        ensures
            all matches Some(h) ==> h.wf() && h@ == hull_of(self@.push(r@)),
            all is None == (hull_of(self@.push(r@)).width > i32::MAX || hull_of(
                self@.push(r@),
            ).height > i32::MAX),
    {
        let mut h = self.rects[0];
        let mut i: usize = 1;
        let ghost views = self@.push(r@);
        proof {
            assert(views.take(1) =~= seq![self@[0]]);
            assert(h@ == self@[0]);
            assert(hull_of(views.take(1)) == h@);
        }
        while i < self.rects.len()
            invariant
                self.wf(),
                r.wf(),
                views == self@.push(r@),
                1 <= i <= self.rects@.len(),
                h.wf(),
                h@ == hull_of(views.take(i as int)),
            decreases self.rects@.len() - i,
        {
            proof {
                lemma_hull_step(views, i as int);
                assert(views[i as int] == self.rects@[i as int]@);
            }
            match h.around(&self.rects[i]) {
                None => {
                    proof {
                        lemma_hull_grows(views, i + 1);
                    }
                    return None;
                },
                Some(next) => {
                    h = next;
                },
            }
            i = i + 1;
        }
        proof {
            lemma_hull_step(views, i as int);
            assert(views.take(i + 1) =~= views);
        }
        h.around(r)
    }

    /// The smallest rectangle around all of them.
    pub fn bounding(&self) -> (all: Option<DamageRect>)
        requires
            self.wf(),
        ensures
            self@.len() == 0 ==> all is None,
            all matches Some(h) ==> h.wf() && self@.len() > 0 && h@ == hull_of(self@),
            self@.len() > 0 ==> all is None == (hull_of(self@).width > i32::MAX || hull_of(
                self@,
            ).height > i32::MAX),
    {
        let n: usize = self.rects.len();
        if n == 0 {
            return None;
        }
        let mut h = self.rects[0];
        let mut i: usize = 1;
        proof {
            assert(self@.take(1) =~= seq![self@[0]]);
            assert(h@ == self@[0]);
        }
        while i < n
            invariant
                self.wf(),
                n == self.rects@.len(),
                n == self@.len(),
                1 <= i <= n,
                h.wf(),
                h@ == hull_of(self@.take(i as int)),
            decreases n - i,
        {
            proof {
                lemma_hull_step(self@, i as int);
                assert(self@[i as int] == self.rects@[i as int]@);
            }
            match h.around(&self.rects[i]) {
                None => {
                    proof {
                        lemma_hull_grows(self@, i + 1);
                    }
                    return None;
                },
                Some(next) => {
                    h = next;
                },
            }
            i = i + 1;
        }
        assert(self@.take(n as int) =~= self@);
        Some(h)
    }
}

proof fn lemma_hull_step(rects: Seq<Rect>, i: int)
    requires
        1 <= i < rects.len(),
    ensures
        hull_of(rects.take(i + 1)) == hull(hull_of(rects.take(i)), rects[i]),
{
    assert(rects.take(i + 1).drop_last() =~= rects.take(i));
    assert(rects.take(i + 1).last() == rects[i]);
}

proof fn lemma_hull_grows(rects: Seq<Rect>, n: int)
    requires
        1 <= n <= rects.len(),
    ensures
        hull_of(rects.take(n)).width <= hull_of(rects).width,
        hull_of(rects.take(n)).height <= hull_of(rects).height,
        encloses(hull_of(rects), hull_of(rects.take(n))),
    decreases rects.len() - n,
{
    if n < rects.len() {
        lemma_hull_step(rects, n);
        lemma_hull_grows(rects, n + 1);
    } else {
        assert(rects.take(n) =~= rects);
    }
}

/// The rectangle around a list encloses each of them.
pub proof fn lemma_hull_encloses(rects: Seq<Rect>, i: int)
    requires
        0 <= i < rects.len(),
    ensures
        encloses(hull_of(rects), rects[i]),
{
    lemma_hull_grows(rects, i + 1);
    if i > 0 {
        lemma_hull_step(rects, i);
    } else {
        assert(rects.take(1) =~= seq![rects[0]]);
    }
}

/// Keeping one more rectangle loses no pixel: whatever was covered, and whatever the
/// new rectangle covers, is covered afterwards.
pub proof fn law_no_pixel_is_lost(rects: Seq<Rect>, r: Rect, px: int, py: int)
    requires
        any_covers(rects, px, py) || covers(r, px, py),
        with_rect(rects, r) is Some,
    ensures
        any_covers(with_rect(rects, r)->0, px, py),
{
    let after = with_rect(rects, r)->0;
    let enclosed = exists|i: int| 0 <= i < rects.len() && encloses(#[trigger] rects[i], r);
    if enclosed {
        let i = choose|i: int| 0 <= i < rects.len() && encloses(#[trigger] rects[i], r);
        if covers(r, px, py) {
            assert(covers(rects[i], px, py));
        }
    } else {
        let all = rects.push(r);
        assert(any_covers(all, px, py)) by {
            if covers(r, px, py) {
                assert(covers(all[rects.len() as int], px, py));
            } else {
                let i = choose|i: int| 0 <= i < rects.len() && covers(#[trigger] rects[i], px, py);
                assert(covers(all[i], px, py));
            }
        }
        if rects.len() >= MAX_RECTS {
            let i = choose|i: int| 0 <= i < all.len() && covers(#[trigger] all[i], px, py);
            lemma_hull_encloses(all, i);
            assert(covers(after[0], px, py));
        }
    }
}

/// The rectangle around everything kept is the rectangle around everything inserted:
/// dropping enclosed rectangles and joining the others does not change it.
pub proof fn law_bounds_are_exact(rects: Seq<Rect>, r: Rect)
    requires
        rects.len() > 0,
        with_rect(rects, r) is Some,
    ensures
        hull_of(with_rect(rects, r)->0) == hull(hull_of(rects), r),
{
    if exists|i: int| 0 <= i < rects.len() && encloses(#[trigger] rects[i], r) {
        let i = choose|i: int| 0 <= i < rects.len() && encloses(#[trigger] rects[i], r);
        lemma_hull_encloses(rects, i);
        assert(encloses(hull_of(rects), r));
    } else {
        assert(rects.push(r).drop_last() =~= rects);
        assert(hull_of(rects.push(r)) == hull(hull_of(rects), r));
        if rects.len() >= MAX_RECTS {
            assert(hull_of(seq![hull_of(rects.push(r))]) == hull_of(rects.push(r)));
        }
    }
}

/// What one operation did to the surface.
#[derive(Clone, Copy, Debug, PartialEq, Eq, Structural)]
pub enum DamageEffect {
    NoDamage,
    FullSurface,
    OnscreenRect { x: i32, y: i32, width: i32, height: i32 },
}

/// The damage of a frame, as one rectangle.
#[derive(Clone, Copy, Debug, PartialEq, Eq, Structural)]
pub enum ResolvedDamage {
    FullSurface,
    Partial { x: i32, y: i32, width: i32, height: i32 },
}

/// What a frame has damaged so far.
pub struct FrameDamage {
    pub full: bool,
    pub rects: Seq<Rect>,
}

/// The frame's damage after one more operation. An empty rectangle damages nothing;
/// one that is out of range damages the whole surface.
pub open spec fn after_effect(frame: FrameDamage, effect: DamageEffect) -> FrameDamage {
    match effect {
        DamageEffect::NoDamage => frame,
        DamageEffect::FullSurface => FrameDamage { full: true, rects: frame.rects },
        DamageEffect::OnscreenRect { x, y, width, height } => if width <= 0 || height <= 0 {
            frame
        } else {
            let r = Rect { x: x as int, y: y as int, width: width as int, height: height as int };
            if !is_rect(r.x, r.y, r.width, r.height) || with_rect(frame.rects, r) is None {
                FrameDamage { full: true, rects: frame.rects }
            } else {
                FrameDamage { full: frame.full, rects: with_rect(frame.rects, r)->0 }
            }
        },
    }
}

/// A rectangle cut to a surface; nothing where they do not meet.
pub open spec fn cut_to(r: Rect, surface: (i32, i32)) -> Option<Rect> {
    let x = max_of(r.x, 0);
    let y = max_of(r.y, 0);
    let right = min_of(r.x + r.width, surface.0 as int);
    let top = min_of(r.y + r.height, surface.1 as int);
    if x < right && y < top {
        Some(Rect { x, y, width: right - x, height: top - y })
    } else {
        None
    }
}

/// Every rectangle of a list cut to a surface; those that do not meet it are left out.
pub open spec fn cut_all(rects: Seq<Rect>, surface: (i32, i32)) -> Seq<Rect>
    decreases rects.len(),
{
    if rects.len() == 0 {
        Seq::empty()
    } else {
        let rest = cut_all(rects.drop_last(), surface);
        match cut_to(rects.last(), surface) {
            Some(r) => rest.push(r),
            None => rest,
        }
    }
}

/// Cut a rectangle to a surface.
fn cut_rect(r: DamageRect, surface: (i32, i32)) -> (cut: Option<DamageRect>)
    requires
        r.wf(),
    ensures
        match cut {
            Some(c) => c.wf() && cut_to(r@, surface) == Some(c@),
            None => cut_to(r@, surface) is None,
        },
{
    let (x0, y0, width, height) = r.xywh();
    let right0: i32 = x0 + width;
    let top0: i32 = y0 + height;
    let x: i32 = if x0 >= 0 {
        x0
    } else {
        0
    };
    let y: i32 = if y0 >= 0 {
        y0
    } else {
        0
    };
    let right: i32 = if right0 <= surface.0 {
        right0
    } else {
        surface.0
    };
    let top: i32 = if top0 <= surface.1 {
        top0
    } else {
        surface.1
    };
    if x < right && y < top {
        DamageRect::new(x, y, right - x, top - y)
    } else {
        None
    }
}

/// A rectangle that is handed to a driver.
#[derive(Clone, Copy, Debug, PartialEq, Eq, Structural)]
pub struct Quad {
    pub x: i32,
    pub y: i32,
    pub width: i32,
    pub height: i32,
}

/// Up to four rectangles that are handed to a driver: the first `count` of them.
#[derive(Clone, Copy, Debug, PartialEq, Eq, Structural)]
pub struct RectList {
    pub count: u32,
    pub first: Quad,
    pub second: Quad,
    pub third: Quad,
    pub fourth: Quad,
}

/// The rectangle of a quad.
pub open spec fn quad_rect(q: Quad) -> Rect {
    Rect { x: q.x as int, y: q.y as int, width: q.width as int, height: q.height as int }
}

/// The rectangles of a list.
pub open spec fn list_rects(list: RectList) -> Seq<Rect> {
    seq![
        quad_rect(list.first),
        quad_rect(list.second),
        quad_rect(list.third),
        quad_rect(list.fourth),
    ].take(list.count as int)
}

/// The frame's damage as one rectangle of the surface. A frame that has no rectangle
/// on the surface is damaged as a whole.
pub open spec fn resolved(frame: FrameDamage, surface: (i32, i32)) -> ResolvedDamage {
    if frame.full || frame.rects.len() == 0 || hull_of(frame.rects).width > i32::MAX || hull_of(
        frame.rects,
    ).height > i32::MAX {
        ResolvedDamage::FullSurface
    } else {
        match cut_to(hull_of(frame.rects), surface) {
            None => ResolvedDamage::FullSurface,
            Some(r) => ResolvedDamage::Partial {
                x: r.x as i32,
                y: r.y as i32,
                width: r.width as i32,
                height: r.height as i32,
            },
        }
    }
}

/// Accumulates the damage of one frame.
pub struct FrameDamageAccumulator {
    full: bool,
    rects: DamageRects,
}

impl View for FrameDamageAccumulator {
    type V = FrameDamage;

    closed spec fn view(&self) -> FrameDamage {
        FrameDamage { full: self.full, rects: self.rects@ }
    }
}

impl FrameDamageAccumulator {
    /// The rectangles are well formed.
    pub closed spec fn wf(&self) -> bool {
        self.rects.wf()
    }

    /// A frame that has damaged nothing.
    pub fn new() -> (acc: Self)
        ensures
            acc.wf(),
            acc@ == (FrameDamage { full: false, rects: Seq::empty() }),
    {
        FrameDamageAccumulator { full: false, rects: DamageRects::new() }
    }

    /// Record what one operation did.
    pub fn add(&mut self, effect: DamageEffect)
        requires
            old(self).wf(),
        ensures
            final(self).wf(),
            final(self)@ == after_effect(old(self)@, effect),
    {
        match effect {
            DamageEffect::NoDamage => {},
            DamageEffect::FullSurface => {
                self.full = true;
            },
            DamageEffect::OnscreenRect { x, y, width, height } => {
                if width > 0 && height > 0 {
                    match DamageRect::new(x, y, width, height) {
                        None => {
                            self.full = true;
                        },
                        Some(r) => {
                            if !self.rects.insert(r) {
                                self.full = true;
                            }
                        },
                    }
                }
            },
        }
    }

    /// Whether anything was damaged.
    pub fn has_damage(&self) -> (b: bool)
        ensures
            b == (self@.full || self@.rects.len() > 0),
    {
        self.full || self.rects.len() > 0
    }

    /// Whether the whole surface was damaged.
    pub fn is_full_surface(&self) -> (b: bool)
        ensures
            b == self@.full,
    {
        self.full
    }

    /// Start the next frame.
    pub fn reset(&mut self)
        ensures
            final(self).wf(),
            final(self)@ == (FrameDamage { full: false, rects: Seq::empty() }),
    {
        *self = FrameDamageAccumulator::new();
    }

    /// The frame's damage as one rectangle of a surface of the given size.
    pub fn resolve(&self, surface: (i32, i32)) -> (damage: ResolvedDamage)
        requires
            self.wf(),
        ensures
            damage == resolved(self@, surface),
    {
        if self.full {
            return ResolvedDamage::FullSurface;
        }
        match self.rects.bounding() {
            None => ResolvedDamage::FullSurface,
            Some(h) => match cut_rect(h, surface) {
                None => ResolvedDamage::FullSurface,
                Some(r) => {
                    let (x, y, width, height) = r.xywh();
                    ResolvedDamage::Partial { x, y, width, height }
                },
            },
        }
    }

    /// The frame's damage as separate rectangles of a surface of the given size, unless all
    /// of the surface is damaged. A rectangle that does not meet the surface damages nothing
    /// of it.
    pub fn resolve_rects(&self, surface: (i32, i32)) -> (rects: Option<DamageRects>)
        requires
            self.wf(),
        ensures
            rects is None == (self@.full || self@.rects.len() == 0),
            rects matches Some(r) ==> r.wf() && r@ == cut_all(self@.rects, surface),
    {
        if self.full || self.rects.len() == 0 {
            None
        } else {
            Some(self.rects.cut(surface))
        }
    }
}

/// Full damage stays full until the frame ends, and no operation uncovers a pixel
/// that the frame has damaged.
pub proof fn law_damage_accumulates(frame: FrameDamage, effect: DamageEffect, px: int, py: int)
    requires
        frame.full || any_covers(frame.rects, px, py),
    ensures
        frame.full ==> after_effect(frame, effect).full,
        after_effect(frame, effect).full || any_covers(after_effect(frame, effect).rects, px, py),
{
    match effect {
        DamageEffect::OnscreenRect { x, y, width, height } => {
            let r = Rect { x: x as int, y: y as int, width: width as int, height: height as int };
            if width > 0 && height > 0 && is_rect(r.x, r.y, r.width, r.height) && with_rect(
                frame.rects,
                r,
            ) is Some && any_covers(frame.rects, px, py) {
                law_no_pixel_is_lost(frame.rects, r, px, py);
            }
        },
        _ => {},
    }
}

/// Four numbers make a rectangle exactly if it has an area and ends in range, and it is then
/// that rectangle.
pub proof fn law_what_makes_a_rectangle(
    x: i32,
    y: i32,
    width: i32,
    height: i32,
    made: Option<DamageRect>,
)
    requires
        call_ensures(DamageRect::new, (x, y, width, height), made),
    ensures
        made is Some == (width > 0 && height > 0 && x + width <= i32::MAX && y + height
            <= i32::MAX),
        made matches Some(r) ==> r@.x == x && r@.y == y && r@.width == width && r@.height == height,
{
}

/// One rectangle encloses another exactly if it covers every pixel of it.
pub proof fn law_enclosing_is_of_every_pixel(outer: Rect, inner: Rect)
    requires
        inner.width > 0,
        inner.height > 0,
    ensures
        encloses(outer, inner) == forall|px: int, py: int|
            inner.x <= px < inner.x + inner.width && inner.y <= py < inner.y + inner.height
                ==> #[trigger] covers(outer, px, py),
{
    if forall|px: int, py: int|
        inner.x <= px < inner.x + inner.width && inner.y <= py < inner.y + inner.height
            ==> #[trigger] covers(outer, px, py) {
        assert(covers(outer, inner.x, inner.y));
        assert(covers(outer, inner.x + inner.width - 1, inner.y + inner.height - 1));
    }
}

/// The rectangle around two encloses both, and any other that does encloses it.
pub proof fn law_the_rectangle_around_two_is_the_smallest(a: Rect, b: Rect, c: Rect)
    ensures
        hull(a, b).x <= a.x && hull(a, b).x <= b.x,
        hull(a, b).y <= a.y && hull(a, b).y <= b.y,
        a.x + a.width <= hull(a, b).x + hull(a, b).width,
        b.x + b.width <= hull(a, b).x + hull(a, b).width,
        a.y + a.height <= hull(a, b).y + hull(a, b).height,
        b.y + b.height <= hull(a, b).y + hull(a, b).height,
        encloses(c, a) && encloses(c, b) ==> encloses(c, hull(a, b)),
        hull(a, b) == hull(b, a),
        hull(a, a) == a,
{
}

/// The rectangle around a list encloses each of it, and any other that does encloses it.
pub proof fn law_the_rectangle_around_a_list_is_the_smallest(rects: Seq<Rect>, c: Rect)
    requires
        rects.len() > 0,
    ensures
        forall|i: int| 0 <= i < rects.len() ==> encloses(hull_of(rects), #[trigger] rects[i]),
        (forall|i: int| 0 <= i < rects.len() ==> encloses(c, #[trigger] rects[i])) ==> encloses(
            c,
            hull_of(rects),
        ),
    decreases rects.len(),
{
    assert forall|i: int| 0 <= i < rects.len() implies encloses(
        hull_of(rects),
        #[trigger] rects[i],
    ) by {
        lemma_hull_encloses(rects, i);
    }
    if rects.len() > 1 && forall|i: int|
        0 <= i < rects.len() ==> encloses(c, #[trigger] rects[i]) {
        let rest = rects.drop_last();
        assert forall|i: int| 0 <= i < rest.len() implies encloses(c, #[trigger] rest[i]) by {
            assert(rest[i] == rects[i]);
        }
        law_the_rectangle_around_a_list_is_the_smallest(rest, c);
        assert(encloses(c, rects[rects.len() - 1]));
    }
}

/// A region never keeps more than four rectangles apart. While it has fewer, one more adds
/// the pixels of its own and no others; one that is enclosed changes nothing; and one too
/// many leaves a single rectangle.
pub proof fn law_rectangles_are_kept_apart(rects: Seq<Rect>, r: Rect, px: int, py: int)
    requires
        rects.len() <= 4,
        with_rect(rects, r) is Some,
    ensures
        with_rect(rects, r)->0.len() <= 4,
        rects.len() < 4 ==> any_covers(with_rect(rects, r)->0, px, py) == (any_covers(
            rects,
            px,
            py,
        ) || r.x <= px < r.x + r.width && r.y <= py < r.y + r.height),
        forall|i: int|
            0 <= i < rects.len() && rects[i].x <= r.x && rects[i].y <= r.y && r.x + r.width
                <= rects[i].x + rects[i].width && r.y + r.height <= rects[i].y + (
            #[trigger] rects[i]).height ==> with_rect(rects, r)->0 == rects,
        with_rect(rects, r)->0 == rects || with_rect(rects, r)->0 == rects.push(r) || with_rect(
            rects,
            r,
        )->0.len() == 1,
{
    let after = with_rect(rects, r)->0;
    assert forall|i: int|
        0 <= i < rects.len() && rects[i].x <= r.x && rects[i].y <= r.y && r.x + r.width
            <= rects[i].x + rects[i].width && r.y + r.height <= rects[i].y + (
        #[trigger] rects[i]).height implies after == rects by {
        assert(encloses(rects[i], r));
    }
    if any_covers(rects, px, py) || covers(r, px, py) {
        law_no_pixel_is_lost(rects, r, px, py);
    }
    if rects.len() < 4 && any_covers(after, px, py) {
        let i = choose|i: int| 0 <= i < after.len() && covers(#[trigger] after[i], px, py);
        if i < rects.len() {
            assert(covers(rects[i], px, py));
        } else {
            assert(after[i] == r);
        }
    }
}

/// What an operation reports is damaged from then on: all of the surface, or each pixel of
/// its rectangle. An operation that reports nothing, or an empty rectangle, changes nothing.
/// A rectangle in range damages no other pixel while there is room to keep it apart.
pub proof fn law_an_operation_damages_what_it_reports(
    frame: FrameDamage,
    effect: DamageEffect,
    px: int,
    py: int,
)
    requires
        frame.rects.len() <= 4,
    ensures
        effect is NoDamage ==> after_effect(frame, effect) == frame,
        effect is FullSurface ==> after_effect(frame, effect).full,
        effect matches DamageEffect::OnscreenRect { x, y, width, height } ==> {
            let after = after_effect(frame, effect);
            &&& width <= 0 || height <= 0 ==> after == frame
            &&& x <= px < x + width && y <= py < y + height ==> after.full || any_covers(
                after.rects,
                px,
                py,
            )
            &&& width > 0 && height > 0 && (x + width > i32::MAX || y + height > i32::MAX)
                ==> after.full
            &&& frame.rects.len() < 4 && x + width <= i32::MAX && y + height <= i32::MAX ==> {
                &&& after.full == frame.full
                &&& any_covers(after.rects, px, py) == (any_covers(frame.rects, px, py) || x <= px
                    < x + width && y <= py < y + height)
            }
        },
        after_effect(frame, effect).rects.len() <= 4,
{
    match effect {
        DamageEffect::OnscreenRect { x, y, width, height } => {
            let r = Rect { x: x as int, y: y as int, width: width as int, height: height as int };
            if width > 0 && height > 0 && is_rect(r.x, r.y, r.width, r.height) {
                if with_rect(frame.rects, r) is Some {
                    law_rectangles_are_kept_apart(frame.rects, r, px, py);
                    if covers(r, px, py) {
                        law_no_pixel_is_lost(frame.rects, r, px, py);
                    }
                }
            }
        },
        _ => {},
    }
}

/// A rectangle that is cut to a surface covers exactly its pixels on the surface, and
/// nothing is left exactly where it has none.
pub proof fn law_a_cut_keeps_what_is_on_the_surface(
    r: Rect,
    surface: (i32, i32),
    px: int,
    py: int,
)
    requires
        r.width > 0,
        r.height > 0,
    ensures
        cut_to(r, surface) matches Some(c) ==> {
            &&& covers(c, px, py) == (r.x <= px < r.x + r.width && r.y <= py < r.y + r.height && 0
                <= px < surface.0 && 0 <= py < surface.1)
            &&& c.width > 0 && c.height > 0
        },
        cut_to(r, surface) is None ==> !(covers(r, px, py) && 0 <= px < surface.0 && 0 <= py
            < surface.1),
{
}

/// A list that is cut to a surface covers exactly its pixels on the surface.
pub proof fn law_cuts_keep_what_is_on_the_surface(
    rects: Seq<Rect>,
    surface: (i32, i32),
    px: int,
    py: int,
)
    requires
        forall|i: int|
            0 <= i < rects.len() ==> (#[trigger] rects[i]).width > 0 && rects[i].height > 0,
    ensures
        any_covers(cut_all(rects, surface), px, py) == (any_covers(rects, px, py) && 0 <= px
            < surface.0 && 0 <= py < surface.1),
        cut_all(rects, surface).len() <= rects.len(),
    decreases rects.len(),
{
    if rects.len() > 0 {
        let rest = rects.drop_last();
        let last = rects.last();
        assert forall|i: int| 0 <= i < rest.len() implies (#[trigger] rest[i]).width > 0
            && rest[i].height > 0 by {
            assert(rest[i] == rects[i]);
        }
        assert(last == rects[rects.len() - 1]);
        law_cuts_keep_what_is_on_the_surface(rest, surface, px, py);
        law_a_cut_keeps_what_is_on_the_surface(last, surface, px, py);
        let fewer = cut_all(rest, surface);
        let cuts = cut_all(rects, surface);
        if any_covers(rest, px, py) {
            let i = choose|i: int| 0 <= i < rest.len() && covers(#[trigger] rest[i], px, py);
            assert(covers(rects[i], px, py));
        }
        if any_covers(fewer, px, py) {
            let i = choose|i: int| 0 <= i < fewer.len() && covers(#[trigger] fewer[i], px, py);
            assert(covers(cuts[i], px, py));
        }
        if cut_to(last, surface) is Some {
            assert(cuts[fewer.len() as int] == cut_to(last, surface)->0);
            if covers(cuts[fewer.len() as int], px, py) {
                assert(any_covers(cuts, px, py));
            }
        }
        if any_covers(rects, px, py) {
            let i = choose|i: int| 0 <= i < rects.len() && covers(#[trigger] rects[i], px, py);
            if i < rest.len() {
                assert(covers(rest[i], px, py));
            }
        }
        if any_covers(cuts, px, py) {
            let i = choose|i: int| 0 <= i < cuts.len() && covers(#[trigger] cuts[i], px, py);
            if i < fewer.len() {
                assert(covers(fewer[i], px, py));
            } else {
                assert(covers(rects[rects.len() - 1], px, py));
            }
        }
    }
}

/// A frame that is told as one rectangle is told as one on the surface that covers every
/// damaged pixel of it, and no rectangle around the damage is smaller. A frame that is
/// damaged as a whole, or in no rectangle, is told as a whole.
pub proof fn law_one_rectangle_tells_the_damage(
    frame: FrameDamage,
    surface: (i32, i32),
    c: Rect,
    px: int,
    py: int,
)
    ensures
        frame.full || frame.rects.len() == 0 ==> resolved(frame, surface)
            == ResolvedDamage::FullSurface,
        resolved(frame, surface) matches ResolvedDamage::Partial { x, y, width, height } ==> {
            &&& 0 <= x && 0 <= y && width > 0 && height > 0
            &&& x + width <= surface.0 && y + height <= surface.1
            &&& any_covers(frame.rects, px, py) && 0 <= px < surface.0 && 0 <= py < surface.1 ==> x
                <= px < x + width && y <= py < y + height
            &&& (forall|i: int|
                0 <= i < frame.rects.len() ==> encloses(c, #[trigger] frame.rects[i])) ==> c.x <= x
                && c.y <= y && x + width <= c.x + c.width && y + height <= c.y + c.height
        },
        !frame.full && any_covers(frame.rects, px, py) && 0 <= px < surface.0 && 0 <= py < surface.1
            && hull_of(frame.rects).width <= i32::MAX && hull_of(frame.rects).height <= i32::MAX
            ==> resolved(frame, surface) is Partial,
{
    if frame.rects.len() > 0 {
        law_the_rectangle_around_a_list_is_the_smallest(frame.rects, c);
        if any_covers(frame.rects, px, py) {
            let i = choose|i: int|
                0 <= i < frame.rects.len() && covers(#[trigger] frame.rects[i], px, py);
            assert(encloses(hull_of(frame.rects), frame.rects[i]));
            assert(covers(hull_of(frame.rects), px, py));
        }
    }
}

/// The rectangles that a driver is handed stand in the order of the list.
pub proof fn law_a_driver_is_handed_the_rectangles_in_order(list: RectList)
    requires
        list.count <= 4,
    ensures
        list_rects(list).len() == list.count,
        list.count > 0 ==> list_rects(list)[0] == (Rect {
            x: list.first.x as int,
            y: list.first.y as int,
            width: list.first.width as int,
            height: list.first.height as int,
        }),
        list.count > 1 ==> list_rects(list)[1] == quad_rect(list.second),
        list.count > 2 ==> list_rects(list)[2] == quad_rect(list.third),
        list.count > 3 ==> list_rects(list)[3] == quad_rect(list.fourth),
{
}

/// Every pixel of a rectangle that is recorded is damaged from then on, and so is every pixel
/// that was; a frame that starts anew has damaged nothing.
pub proof fn law_recorded_damage_stays(
    x: i32,
    y: i32,
    width: i32,
    height: i32,
    px: int,
    py: int,
)
    requires
        x <= px < x + width,
        y <= py < y + height,
    ensures
        forall|acc: &mut FrameDamageAccumulator|
            #[trigger] call_ensures(
                FrameDamageAccumulator::add,
                (acc, DamageEffect::OnscreenRect { x, y, width, height }),
                (),
            ) && (*acc)@.rects.len() <= 4 ==> (*final(acc))@.full || any_covers(
                (*final(acc))@.rects,
                px,
                py,
            ),
        forall|acc: &mut FrameDamageAccumulator|
            #[trigger] call_ensures(
                FrameDamageAccumulator::add,
                (acc, DamageEffect::FullSurface),
                (),
            ) ==> (*final(acc))@.full,
        forall|acc: &mut FrameDamageAccumulator|
            #[trigger] call_ensures(
                FrameDamageAccumulator::add,
                (acc, DamageEffect::NoDamage),
                (),
            ) ==> (*final(acc))@ == (*acc)@,
        forall|acc: &mut FrameDamageAccumulator|
            #[trigger] call_ensures(FrameDamageAccumulator::reset, (acc,), ())
                ==> !(*final(acc))@.full && (*final(acc))@.rects.len() == 0,
{
    let effect = DamageEffect::OnscreenRect { x, y, width, height };
    assert forall|acc: &mut FrameDamageAccumulator|
        #[trigger] call_ensures(FrameDamageAccumulator::add, (acc, effect), ())
            && (*acc)@.rects.len() <= 4 implies (*final(acc))@.full || any_covers(
        (*final(acc))@.rects,
        px,
        py,
    ) by {
        law_an_operation_damages_what_it_reports((*acc)@, effect, px, py);
    }
}

/// A frame has damage exactly if something was recorded that is not empty.
pub proof fn law_when_a_frame_has_damage(acc: FrameDamageAccumulator, has: bool, full: bool)
    requires
        call_ensures(FrameDamageAccumulator::has_damage, (&acc,), has),
        call_ensures(FrameDamageAccumulator::is_full_surface, (&acc,), full),
    ensures
        full == acc@.full,
        has == (acc@.full || acc@.rects.len() > 0),
        full ==> has,
{
}

/// The functions on frames answer what the laws say of them: cut to the surface as it is, in
/// width and in height.
pub proof fn law_a_frame_is_told_on_its_surface(
    acc: FrameDamageAccumulator,
    surface: (i32, i32),
    damage: ResolvedDamage,
    rects: Option<DamageRects>,
    px: int,
    py: int,
)
    requires
        call_ensures(FrameDamageAccumulator::resolve, (&acc, surface), damage),
        call_ensures(FrameDamageAccumulator::resolve_rects, (&acc, surface), rects),
        forall|i: int|
            0 <= i < acc@.rects.len() ==> (#[trigger] acc@.rects[i]).width > 0
                && acc@.rects[i].height > 0,
    ensures
        acc@.full || acc@.rects.len() == 0 ==> damage == ResolvedDamage::FullSurface
            && rects is None,
        damage matches ResolvedDamage::Partial { x, y, width, height } ==> {
            &&& 0 <= x && 0 <= y && x + width <= surface.0 && y + height <= surface.1
            &&& any_covers(acc@.rects, px, py) && 0 <= px < surface.0 && 0 <= py < surface.1 ==> x
                <= px < x + width && y <= py < y + height
        },
        rects matches Some(some) ==> any_covers(some@, px, py) == (any_covers(acc@.rects, px, py)
            && 0 <= px < surface.0 && 0 <= py < surface.1),
        !acc@.full && acc@.rects.len() > 0 ==> rects is Some,
{
    law_one_rectangle_tells_the_damage(
        acc@,
        surface,
        Rect { x: 0, y: 0, width: 0, height: 0 },
        px,
        py,
    );
    law_cuts_keep_what_is_on_the_surface(acc@.rects, surface, px, py);
}

/// A rectangle that is kept is covered from then on, and so is everything that was.
pub proof fn law_an_inserted_rectangle_is_covered(r: DamageRect, kept: bool, px: int, py: int)
    ensures
        forall|rects: &mut DamageRects|
            #[trigger] call_ensures(DamageRects::insert, (rects, r), kept) ==> {
                &&& kept && (covers(r@, px, py) || any_covers((*rects)@, px, py)) ==> any_covers(
                    (*final(rects))@,
                    px,
                    py,
                )
                &&& !kept ==> (*final(rects))@ == (*rects)@
                &&& (*rects)@.len() < 4 ==> kept
            },
{
    assert forall|rects: &mut DamageRects|
        #[trigger] call_ensures(DamageRects::insert, (rects, r), kept) implies {
        kept && (covers(r@, px, py) || any_covers((*rects)@, px, py)) ==> any_covers(
            (*final(rects))@,
            px,
            py,
        )
    } by {
        if kept && (covers(r@, px, py) || any_covers((*rects)@, px, py)) {
            law_no_pixel_is_lost((*rects)@, r@, px, py);
        }
    }
}

} // verus!
