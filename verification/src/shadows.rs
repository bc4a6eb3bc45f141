//! Shadows of the state families whose names the graphics library fixes.
//!
//! Each shadow answers whether a call must be issued. A name outside the family is
//! always issued and never recorded: the driver rejects it.
use vstd::prelude::*;

use crate::dedup::holds;
use crate::dedup::ShadowValue;
use crate::gl::{
    BACK, BLEND, CULL_FACE, DEPTH_TEST, DITHER, DRAW_FRAMEBUFFER, FRAMEBUFFER, FRONT,
    FRONT_AND_BACK, PACK_ALIGNMENT, PACK_ROW_LENGTH, PACK_SKIP_PIXELS, PACK_SKIP_ROWS,
    POLYGON_OFFSET_FILL, RASTERIZER_DISCARD, READ_FRAMEBUFFER, SAMPLE_ALPHA_TO_COVERAGE, SAMPLE_COVERAGE, SCISSOR_TEST, STENCIL_TEST,
    TEXTURE0, UNPACK_ALIGNMENT, UNPACK_COLORSPACE_CONVERSION_WEBGL, UNPACK_FLIP_Y_WEBGL,
    UNPACK_IMAGE_HEIGHT, UNPACK_PREMULTIPLY_ALPHA_WEBGL, UNPACK_ROW_LENGTH, UNPACK_SKIP_IMAGES,
    UNPACK_SKIP_PIXELS, UNPACK_SKIP_ROWS,
};

verus! {

proof fn lemma_bits16(x: u16, i: u16, j: u16)
    by (bit_vector)
    requires
        i < 16,
        j < 16,
    ensures
        ((x | (1u16 << i)) & (1u16 << i)) != 0,
        ((x & !(1u16 << i)) & (1u16 << i)) == 0,
        i != j ==> ((x | (1u16 << i)) & (1u16 << j)) == (x & (1u16 << j)),
        i != j ==> ((x & !(1u16 << i)) & (1u16 << j)) == (x & (1u16 << j)),
        (0u16 & (1u16 << j)) == 0,
{
}

pub(crate) proof fn lemma_bits32(x: u32, i: u32, j: u32)
    by (bit_vector)
    requires
        i < 32,
        j < 32,
    ensures
        ((x | (1u32 << i)) & (1u32 << i)) != 0,
        ((x & !(1u32 << i)) & (1u32 << i)) == 0,
        i != j ==> ((x | (1u32 << i)) & (1u32 << j)) == (x & (1u32 << j)),
        i != j ==> ((x & !(1u32 << i)) & (1u32 << j)) == (x & (1u32 << j)),
        (0u32 & (1u32 << j)) == 0,
{
}

pub(crate) proof fn lemma_no_bits32()
    ensures
        forall|i: u32| i < 32 ==> !#[trigger] has_bit32(0, i),
{
    assert forall|i: u32| i < 32 implies !#[trigger] has_bit32(0, i) by {
        lemma_bits32(0, i, i);
    }
}

/// Bit `i` of a 16-bit mask is set.
pub open spec fn has_bit16(mask: u16, i: u16) -> bool {
    mask & (1u16 << i) != 0
}

/// Bit `i` of a 32-bit mask is set.
pub open spec fn has_bit32(mask: u32, i: u32) -> bool {
    mask & (1u32 << i) != 0
}

// ---- enable / disable ----------------------------------------------------

/// The position of a capability among those that can be toggled.
pub open spec fn capability_slot(cap: u32) -> Option<u16> {
    if cap == BLEND {
        Some(0)
    } else if cap == CULL_FACE {
        Some(1)
    } else if cap == DEPTH_TEST {
        Some(2)
    } else if cap == DITHER {
        Some(3)
    } else if cap == POLYGON_OFFSET_FILL {
        Some(4)
    } else if cap == SAMPLE_ALPHA_TO_COVERAGE {
        Some(5)
    } else if cap == SAMPLE_COVERAGE {
        Some(6)
    } else if cap == SCISSOR_TEST {
        Some(7)
    } else if cap == STENCIL_TEST {
        Some(8)
    } else if cap == RASTERIZER_DISCARD {
        Some(9)
    } else {
        None
    }
}

/// What is known of the capabilities: enabled, disabled, or nothing.
#[derive(Clone, Copy, Debug)]
pub struct CapabilityShadow {
    known: u16,
    enabled: u16,
}

impl View for CapabilityShadow {
    type V = Map<u32, bool>;

    closed spec fn view(&self) -> Map<u32, bool> {
        Map::new(
            |cap: u32| capability_slot(cap) matches Some(i) && has_bit16(self.known, i),
            |cap: u32| has_bit16(self.enabled, capability_slot(cap)->0),
        )
    }
}

impl Default for CapabilityShadow {
    fn default() -> (s: Self)
        ensures
            s@ == Map::<u32, bool>::empty(),
    {
        let s = CapabilityShadow { known: 0, enabled: 0 };
        assert(s@ =~= Map::<u32, bool>::empty()) by {
            assert forall|cap: u32| !s@.dom().contains(cap) by {
                if let Some(i) = capability_slot(cap) {
                    lemma_bits16(0, i, i);
                }
            }
        }
        s
    }
}

impl CapabilityShadow {
    fn bit(cap: u32) -> (slot: Option<u16>)
        ensures
            slot == capability_slot(cap),
            slot matches Some(i) ==> i < 10,
    {
        if cap == BLEND {
            Some(0)
        } else if cap == CULL_FACE {
            Some(1)
        } else if cap == DEPTH_TEST {
            Some(2)
        } else if cap == DITHER {
            Some(3)
        } else if cap == POLYGON_OFFSET_FILL {
            Some(4)
        } else if cap == SAMPLE_ALPHA_TO_COVERAGE {
            Some(5)
        } else if cap == SAMPLE_COVERAGE {
            Some(6)
        } else if cap == SCISSOR_TEST {
            Some(7)
        } else if cap == STENCIL_TEST {
            Some(8)
        } else if cap == RASTERIZER_DISCARD {
            Some(9)
        } else {
            None
        }
    }

    /// Record `glEnable(cap)`; answers whether it must be issued.
    pub fn enable(&mut self, cap: u32) -> (issue: bool)
        ensures
            issue == !crate::dedup::redundant(old(self)@, cap, true),
            capability_slot(cap) is None ==> issue,
            final(self)@ == crate::dedup::recorded(
                old(self)@,
                capability_slot(cap) is Some,
                cap,
                true,
            ),
    {
        match Self::bit(cap) {
            None => true,
            Some(i) => {
                let bit: u16 = 1u16 << i;
                let already: bool = self.known & bit != 0 && self.enabled & bit != 0;
                let ghost before = *self;
                self.known = self.known | bit;
                self.enabled = self.enabled | bit;
                proof {
                    assert(self@ =~= before@.insert(cap, true)) by {
                        assert forall|c: u32|
                            #![trigger self@.dom().contains(c)]
                            #![trigger self@[c]]
                            self@.dom().contains(c) == before@.insert(cap, true).dom().contains(c) && (
                            self@.dom().contains(c) ==> self@[c] == before@.insert(cap, true)[c]) by {
                            if let Some(j) = capability_slot(c) {
                                lemma_bits16(before.known, i, j);
                                lemma_bits16(before.enabled, i, j);
                            }
                        }
                    }
                }
                !already
            },
        }
    }

    /// Record `glDisable(cap)`; answers whether it must be issued.
    pub fn disable(&mut self, cap: u32) -> (issue: bool)
        ensures
            issue == !crate::dedup::redundant(old(self)@, cap, false),
            capability_slot(cap) is None ==> issue,
            final(self)@ == crate::dedup::recorded(
                old(self)@,
                capability_slot(cap) is Some,
                cap,
                false,
            ),
    {
        match Self::bit(cap) {
            None => true,
            Some(i) => {
                let bit: u16 = 1u16 << i;
                let already: bool = self.known & bit != 0 && self.enabled & bit == 0;
                let ghost before = *self;
                self.known = self.known | bit;
                self.enabled = self.enabled & !bit;
                proof {
                    assert(self@ =~= before@.insert(cap, false)) by {
                        assert forall|c: u32|
                            #![trigger self@.dom().contains(c)]
                            #![trigger self@[c]]
                            self@.dom().contains(c) == before@.insert(cap, false).dom().contains(c) && (
                            self@.dom().contains(c) ==> self@[c] == before@.insert(cap, false)[c]) by {
                            if let Some(j) = capability_slot(c) {
                                lemma_bits16(before.known, i, j);
                                lemma_bits16(before.enabled, i, j);
                            }
                        }
                    }
                }
                !already
            },
        }
    }

    /// Forget everything: the next call of each kind is issued.
    pub fn forget_all(&mut self)
        ensures
            final(self)@ == Map::<u32, bool>::empty(),
    {
        *self = CapabilityShadow::default();
    }
}

// ---- texture units ---------------------------------------------------------

/// A texture unit whose binding is tracked: the first 32.
pub open spec fn is_tracked_unit(unit: u32) -> bool {
    TEXTURE0 <= unit < TEXTURE0 + 32
}

/// What is known of the 2D texture bound to each unit; `None` is no texture.
#[derive(Clone, Debug)]
pub struct TextureUnitShadow {
    bindings: [Option<u32>; 32],
    observed: u32,
}

impl View for TextureUnitShadow {
    type V = Map<u32, Option<u32>>;

    closed spec fn view(&self) -> Map<u32, Option<u32>> {
        Map::new(
            |unit: u32| is_tracked_unit(unit) && has_bit32(self.observed, (unit - TEXTURE0) as u32),
            |unit: u32| self.bindings@[unit - TEXTURE0],
        )
    }
}

impl Default for TextureUnitShadow {
    fn default() -> (s: Self)
        ensures
            s@ == Map::<u32, Option<u32>>::empty(),
    {
        let s = TextureUnitShadow { bindings: [None;32], observed: 0 };
        assert(s@ =~= Map::<u32, Option<u32>>::empty()) by {
            assert forall|unit: u32| !s@.dom().contains(unit) by {
                if is_tracked_unit(unit) {
                    lemma_bits32(0, 0, (unit - TEXTURE0) as u32);
                }
            }
        }
        s
    }
}

/// The bindings that name `texture` are forgotten; the others stay.
pub open spec fn without_texture(
    known: Map<u32, Option<u32>>,
    texture: u32,
) -> Map<u32, Option<u32>> {
    known.restrict(Set::new(|unit: u32| known[unit] != Some(texture)))
}

fn same_name(a: &Option<u32>, b: &Option<u32>) -> (r: bool)
    ensures
        r == (*a == *b),
{
    match (a, b) {
        (Some(x), Some(y)) => *x == *y,
        (None, None) => true,
        _ => false,
    }
}

impl TextureUnitShadow {
    fn index(unit: u32) -> (i: Option<usize>)
        ensures
            i matches Some(n) ==> is_tracked_unit(unit) && n == unit - TEXTURE0,
            i is None ==> !is_tracked_unit(unit),
    {
        if TEXTURE0 <= unit && unit - TEXTURE0 < 32 {
            Some((unit - TEXTURE0) as usize)
        } else {
            None
        }
    }

    /// Record a bind of `tex` to `unit`; answers whether it must be issued.
    pub fn bind(&mut self, unit: u32, tex: Option<u32>) -> (issue: bool)
        ensures
            issue == !crate::dedup::redundant(old(self)@, unit, tex),
            !is_tracked_unit(unit) ==> issue,
            final(self)@ == crate::dedup::recorded(old(self)@, is_tracked_unit(unit), unit, tex),
    {
        match Self::index(unit) {
            None => true,
            Some(i) => {
                let shift: u32 = i as u32;
                let bit: u32 = 1u32 << shift;
                if self.observed & bit != 0 && same_name(&self.bindings[i], &tex) {
                    assert(self@ =~= self@.insert(unit, tex));
                    return false;
                }
                let ghost before = *self;
                self.observed = self.observed | bit;
                self.bindings[i] = tex;
                proof {
                    assert(self@ =~= before@.insert(unit, tex)) by {
                        assert forall|u: u32|
                            #![trigger self@.dom().contains(u)]
                            #![trigger self@[u]]
                            self@.dom().contains(u) == before@.insert(unit, tex).dom().contains(u) && (
                            self@.dom().contains(u) ==> self@[u] == before@.insert(unit, tex)[u]) by {
                            if is_tracked_unit(u) {
                                lemma_bits32(before.observed, shift, (u - TEXTURE0) as u32);
                            }
                        }
                    }
                }
                true
            },
        }
    }

    /// Forget the units that hold `texture`: its name is gone and may be reused.
    pub fn forget_texture(&mut self, texture: u32)
        ensures
            final(self)@ == without_texture(old(self)@, texture),
    {
        let ghost before = *self;
        let mut i: usize = 0;
        while i < 32
            invariant
                i <= 32,
                forall|j: int|
                    0 <= j < i ==> #[trigger] self.bindings@[j] == (if before.bindings@[j] == Some(
                        texture,
                    ) {
                        None
                    } else {
                        before.bindings@[j]
                    }),
                forall|j: int| i <= j < 32 ==> #[trigger] self.bindings@[j] == before.bindings@[j],
                forall|j: u32|
                    j < 32 ==> #[trigger] has_bit32(self.observed, j) == (has_bit32(
                        before.observed,
                        j,
                    ) && (j < i ==> before.bindings@[j as int] != Some(texture))),
            decreases 32 - i,
        {
            if same_name(&self.bindings[i], &Some(texture)) {
                let shift: u32 = i as u32;
                let ghost seen = self.observed;
                self.bindings[i] = None;
                self.observed = self.observed & !(1u32 << shift);
                assert forall|j: u32| j < 32 implies #[trigger] has_bit32(self.observed, j) == (
                has_bit32(before.observed, j) && (j < i + 1 ==> before.bindings@[j as int] != Some(
                    texture,
                ))) by {
                    lemma_bits32(seen, shift, j);
                    assert(has_bit32(seen, j) == (has_bit32(before.observed, j) && (j < i
                        ==> before.bindings@[j as int] != Some(texture))));
                }
            }
            i = i + 1;
        }
        proof {
            let target = without_texture(before@, texture);
            assert forall|u: u32| self@.dom().contains(u) == target.dom().contains(u) && (
            self@.dom().contains(u) ==> self@[u] == target[u]) by {
                if is_tracked_unit(u) {
                    let j = (u - TEXTURE0) as u32;
                    assert(has_bit32(self.observed, j) == (has_bit32(before.observed, j)
                        && before.bindings@[j as int] != Some(texture)));
                    assert(self.bindings@[j as int] == (if before.bindings@[j as int] == Some(
                        texture,
                    ) {
                        None
                    } else {
                        before.bindings@[j as int]
                    }));
                }
            }
            assert(self@ =~= target);
        }
    }

    /// Forget everything.
    pub fn forget_all(&mut self)
        ensures
            final(self)@ == Map::<u32, Option<u32>>::empty(),
    {
        self.observed = 0;
        assert forall|unit: u32| !self@.dom().contains(unit) by {
            if is_tracked_unit(unit) {
                lemma_bits32(0, 0, (unit - TEXTURE0) as u32);
            }
        }
        assert(self@ =~= Map::<u32, Option<u32>>::empty());
    }
}

// ---- per-face state --------------------------------------------------------

/// What is known of a state that front and back faces hold separately.
#[derive(Clone, Copy, Debug)]
pub struct PerFace<T> {
    front: Option<T>,
    back: Option<T>,
}

impl<T> View for PerFace<T> {
    type V = Map<u32, T>;

    closed spec fn view(&self) -> Map<u32, T> {
        Map::new(
            |face: u32|
                (face == FRONT && self.front is Some) || (face == BACK && self.back is Some),
            |face: u32|
                if face == FRONT {
                    self.front->0
                } else {
                    self.back->0
                },
        )
    }
}

/// What is known of the faces after `face` was given `value`.
pub open spec fn faces_after<T>(known: Map<u32, T>, face: u32, value: T) -> Map<u32, T> {
    if face == FRONT_AND_BACK {
        known.insert(FRONT, value).insert(BACK, value)
    } else if face == FRONT || face == BACK {
        known.insert(face, value)
    } else {
        known
    }
}

/// Giving `face` the value `value` is redundant: every face it names holds it.
pub open spec fn face_redundant<T>(known: Map<u32, T>, face: u32, value: T) -> bool {
    if face == FRONT_AND_BACK {
        crate::dedup::redundant(known, FRONT, value) && crate::dedup::redundant(known, BACK, value)
    } else {
        crate::dedup::redundant(known, face, value)
    }
}

impl<T> Default for PerFace<T> {
    fn default() -> (s: Self)
        ensures
            s@ == Map::<u32, T>::empty(),
    {
        let s: PerFace<T> = PerFace { front: None, back: None };
        assert(s@ =~= Map::<u32, T>::empty());
        s
    }
}

impl<T> PerFace<T> {
    /// Forget both faces.
    pub fn forget_all(&mut self)
        ensures
            final(self)@ == Map::<u32, T>::empty(),
    {
        self.front = None;
        self.back = None;
        assert(self@ =~= Map::<u32, T>::empty());
    }
}

impl<T: ShadowValue> PerFace<T> {
    /// Record that `face` is given `value`; answers whether the call must be issued.
    pub fn update(&mut self, face: u32, value: T) -> (issue: bool)
        ensures
            issue == !face_redundant(old(self)@, face, value),
            face != FRONT_AND_BACK && face != FRONT && face != BACK ==> issue,
            final(self)@ == faces_after(old(self)@, face, value),
    {
        let ghost before = *self;
        if face == FRONT_AND_BACK {
            if holds(&self.front, &value) && holds(&self.back, &value) {
                assert(self@ =~= faces_after(before@, face, value));
                return false;
            }
            self.front = Some(value);
            self.back = Some(value);
            assert(self@ =~= faces_after(before@, face, value));
            return true;
        }
        if face == FRONT {
            if holds(&self.front, &value) {
                assert(self@ =~= faces_after(before@, face, value));
                return false;
            }
            self.front = Some(value);
        } else if face == BACK {
            if holds(&self.back, &value) {
                assert(self@ =~= faces_after(before@, face, value));
                return false;
            }
            self.back = Some(value);
        }
        assert(self@ =~= faces_after(before@, face, value));
        true
    }
}

// ---- pixel store -----------------------------------------------------------

/// The position of a pixel-store parameter among those that are tracked.
pub open spec fn pixel_store_slot(pname: u32) -> Option<u16> {
    if pname == PACK_ALIGNMENT {
        Some(0)
    } else if pname == UNPACK_ALIGNMENT {
        Some(1)
    } else if pname == UNPACK_FLIP_Y_WEBGL {
        Some(2)
    } else if pname == UNPACK_PREMULTIPLY_ALPHA_WEBGL {
        Some(3)
    } else if pname == UNPACK_COLORSPACE_CONVERSION_WEBGL {
        Some(4)
    } else if pname == UNPACK_ROW_LENGTH {
        Some(5)
    } else if pname == UNPACK_SKIP_PIXELS {
        Some(6)
    } else if pname == UNPACK_SKIP_ROWS {
        Some(7)
    } else if pname == UNPACK_IMAGE_HEIGHT {
        Some(8)
    } else if pname == UNPACK_SKIP_IMAGES {
        Some(9)
    } else if pname == PACK_ROW_LENGTH {
        Some(10)
    } else if pname == PACK_SKIP_PIXELS {
        Some(11)
    } else if pname == PACK_SKIP_ROWS {
        Some(12)
    } else {
        None
    }
}

/// What is known of the pixel-store parameters.
#[derive(Clone, Copy, Debug)]
pub struct PixelStoreShadow {
    params: [i32; 13],
    observed: u16,
}

impl View for PixelStoreShadow {
    type V = Map<u32, i32>;

    closed spec fn view(&self) -> Map<u32, i32> {
        Map::new(
            |pname: u32| pixel_store_slot(pname) matches Some(i) && has_bit16(self.observed, i),
            |pname: u32| self.params@[pixel_store_slot(pname)->0 as int],
        )
    }
}

impl Default for PixelStoreShadow {
    fn default() -> (s: Self)
        ensures
            s@ == Map::<u32, i32>::empty(),
    {
        let mut s = PixelStoreShadow { params: [0;13], observed: 0 };
        s.forget_all();
        s
    }
}

impl PixelStoreShadow {
    fn slot(pname: u32) -> (slot: Option<u16>)
        ensures
            slot == pixel_store_slot(pname),
            slot matches Some(i) ==> i < 13,
    {
        if pname == PACK_ALIGNMENT {
            Some(0)
        } else if pname == UNPACK_ALIGNMENT {
            Some(1)
        } else if pname == UNPACK_FLIP_Y_WEBGL {
            Some(2)
        } else if pname == UNPACK_PREMULTIPLY_ALPHA_WEBGL {
            Some(3)
        } else if pname == UNPACK_COLORSPACE_CONVERSION_WEBGL {
            Some(4)
        } else if pname == UNPACK_ROW_LENGTH {
            Some(5)
        } else if pname == UNPACK_SKIP_PIXELS {
            Some(6)
        } else if pname == UNPACK_SKIP_ROWS {
            Some(7)
        } else if pname == UNPACK_IMAGE_HEIGHT {
            Some(8)
        } else if pname == UNPACK_SKIP_IMAGES {
            Some(9)
        } else if pname == PACK_ROW_LENGTH {
            Some(10)
        } else if pname == PACK_SKIP_PIXELS {
            Some(11)
        } else if pname == PACK_SKIP_ROWS {
            Some(12)
        } else {
            None
        }
    }

    /// Record `glPixelStorei(pname, param)`; answers whether it must be issued.
    pub fn update(&mut self, pname: u32, param: i32) -> (issue: bool)
        ensures
            issue == !crate::dedup::redundant(old(self)@, pname, param),
            pixel_store_slot(pname) is None ==> issue,
            final(self)@ == crate::dedup::recorded(
                old(self)@,
                pixel_store_slot(pname) is Some,
                pname,
                param,
            ),
    {
        match Self::slot(pname) {
            None => true,
            Some(i) => {
                let bit: u16 = 1u16 << i;
                if self.observed & bit != 0 && self.params[i as usize] == param {
                    assert(self@ =~= self@.insert(pname, param));
                    return false;
                }
                let ghost before = *self;
                self.observed = self.observed | bit;
                self.params[i as usize] = param;
                proof {
                    assert(self@ =~= before@.insert(pname, param)) by {
                        assert forall|p: u32|
                            #![trigger self@.dom().contains(p)]
                            #![trigger self@[p]]
                            self@.dom().contains(p) == before@.insert(pname, param).dom().contains(p) && (
                            self@.dom().contains(p) ==> self@[p] == before@.insert(pname, param)[p]) by {
                            if let Some(j) = pixel_store_slot(p) {
                                lemma_bits16(before.observed, i, j);
                            }
                        }
                    }
                }
                true
            },
        }
    }

    /// Forget everything.
    pub fn forget_all(&mut self)
        ensures
            final(self)@ == Map::<u32, i32>::empty(),
    {
        self.observed = 0;
        assert forall|p: u32| !self@.dom().contains(p) by {
            if let Some(j) = pixel_store_slot(p) {
                lemma_bits16(0, j, j);
            }
        }
        assert(self@ =~= Map::<u32, i32>::empty());
    }
}

// ---- indexed uniform buffers -----------------------------------------------

/// A buffer range bound to an indexed uniform-buffer point; `buffer: None` is no buffer.
#[derive(Clone, Copy, Debug)]
pub struct BufferRange {
    pub buffer: Option<u32>,
    pub offset: i32,
    pub size: i32,
}

impl ShadowValue for BufferRange {
    fn same(&self, other: &Self) -> (b: bool) {
        same_name(&self.buffer, &other.buffer) && self.offset == other.offset && self.size
            == other.size
    }
}

/// What is known of the first 32 indexed uniform-buffer points.
#[derive(Clone, Debug)]
pub struct IndexedUniformBufferShadow {
    slots: [Option<BufferRange>; 32],
}

impl View for IndexedUniformBufferShadow {
    type V = Map<u32, BufferRange>;

    closed spec fn view(&self) -> Map<u32, BufferRange> {
        Map::new(
            |index: u32| index < 32 && self.slots@[index as int] is Some,
            |index: u32| self.slots@[index as int]->0,
        )
    }
}

impl Default for IndexedUniformBufferShadow {
    fn default() -> (s: Self)
        ensures
            s@ == Map::<u32, BufferRange>::empty(),
    {
        IndexedUniformBufferShadow::unknown()
    }
}

impl IndexedUniformBufferShadow {
    fn unknown() -> (s: Self)
        ensures
            s@ == Map::<u32, BufferRange>::empty(),
    {
        let mut s = IndexedUniformBufferShadow { slots: [None;32] };
        let mut i: usize = 0;
        while i < 32
            invariant
                i <= 32,
                forall|j: int| 0 <= j < i ==> #[trigger] s.slots@[j] is None,
            decreases 32 - i,
        {
            s.slots[i] = None;
            i = i + 1;
        }
        assert(s@ =~= Map::<u32, BufferRange>::empty());
        s
    }

    /// Record a bind of `entry` to point `index`; answers whether it must be issued.
    pub fn update(&mut self, index: u32, entry: BufferRange) -> (issue: bool)
        ensures
            issue == !crate::dedup::redundant(old(self)@, index, entry),
            index >= 32 ==> issue,
            final(self)@ == crate::dedup::recorded(old(self)@, index < 32, index, entry),
    {
        if index >= 32 {
            return true;
        }
        let i: usize = index as usize;
        let ghost before = *self;
        if holds(&self.slots[i], &entry) {
            assert(self@ =~= before@.insert(index, entry));
            return false;
        }
        self.slots[i] = Some(entry);
        assert(self@ =~= before@.insert(index, entry));
        true
    }

    /// Forget everything.
    pub fn forget_all(&mut self)
        ensures
            final(self)@ == Map::<u32, BufferRange>::empty(),
    {
        *self = IndexedUniformBufferShadow::unknown();
    }
}

// ---- framebuffer bindings ----------------------------------------------------

/// What is known of the draw and the read framebuffer binding. A binding of `None`
/// is the default framebuffer.
#[derive(Clone, Copy, Debug)]
pub struct FramebufferShadow {
    draw: Option<Option<u32>>,
    read: Option<Option<u32>>,
}

impl View for FramebufferShadow {
    type V = Map<u32, Option<u32>>;

    closed spec fn view(&self) -> Map<u32, Option<u32>> {
        Map::new(
            |target: u32|
                (target == DRAW_FRAMEBUFFER && self.draw is Some) || (target == READ_FRAMEBUFFER
                    && self.read is Some),
            |target: u32|
                if target == DRAW_FRAMEBUFFER {
                    self.draw->0
                } else {
                    self.read->0
                },
        )
    }
}

/// What is known of the framebuffer bindings after `target` was bound to `fb`:
/// `FRAMEBUFFER` names both bindings.
pub open spec fn framebuffers_after(
    known: Map<u32, Option<u32>>,
    target: u32,
    fb: Option<u32>,
) -> Map<u32, Option<u32>> {
    if target == FRAMEBUFFER {
        known.insert(DRAW_FRAMEBUFFER, fb).insert(READ_FRAMEBUFFER, fb)
    } else if target == DRAW_FRAMEBUFFER || target == READ_FRAMEBUFFER {
        known.insert(target, fb)
    } else {
        known
    }
}

/// Binding `fb` to `target` is redundant: every binding it names holds it.
pub open spec fn framebuffer_redundant(
    known: Map<u32, Option<u32>>,
    target: u32,
    fb: Option<u32>,
) -> bool {
    if target == FRAMEBUFFER {
        crate::dedup::redundant(known, DRAW_FRAMEBUFFER, fb) && crate::dedup::redundant(
            known,
            READ_FRAMEBUFFER,
            fb,
        )
    } else {
        crate::dedup::redundant(known, target, fb)
    }
}

/// What is known of the binding that a target reads from: `FRAMEBUFFER` answers for
/// the draw binding.
pub open spec fn known_framebuffer(known: Map<u32, Option<u32>>, target: u32) -> Option<
    Option<u32>,
> {
    let binding = if target == FRAMEBUFFER {
        DRAW_FRAMEBUFFER
    } else {
        target
    };
    if known.dom().contains(binding) {
        Some(known[binding])
    } else {
        None
    }
}

impl Default for FramebufferShadow {
    fn default() -> (s: Self)
        ensures
            s@ == Map::<u32, Option<u32>>::empty(),
    {
        let s = FramebufferShadow { draw: None, read: None };
        assert(s@ =~= Map::<u32, Option<u32>>::empty());
        s
    }
}

fn binding_is(slot: &Option<Option<u32>>, fb: &Option<u32>) -> (b: bool)
    ensures
        b == (*slot == Some(*fb)),
{
    match slot {
        Some(current) => same_name(current, fb),
        None => false,
    }
}

impl FramebufferShadow {
    /// Record a bind of `fb` to `target`; answers whether it must be issued.
    pub fn update(&mut self, target: u32, fb: Option<u32>) -> (issue: bool)
        ensures
            issue == !framebuffer_redundant(old(self)@, target, fb),
            target != FRAMEBUFFER && target != DRAW_FRAMEBUFFER && target != READ_FRAMEBUFFER
                ==> issue,
            final(self)@ == framebuffers_after(old(self)@, target, fb),
    {
        let ghost before = *self;
        if target == FRAMEBUFFER {
            if binding_is(&self.draw, &fb) && binding_is(&self.read, &fb) {
                assert(self@ =~= framebuffers_after(before@, target, fb));
                return false;
            }
            self.set_all(fb);
            return true;
        }
        if target == DRAW_FRAMEBUFFER {
            if binding_is(&self.draw, &fb) {
                assert(self@ =~= framebuffers_after(before@, target, fb));
                return false;
            }
            self.draw = Some(fb);
        } else if target == READ_FRAMEBUFFER {
            if binding_is(&self.read, &fb) {
                assert(self@ =~= framebuffers_after(before@, target, fb));
                return false;
            }
            self.read = Some(fb);
        }
        assert(self@ =~= framebuffers_after(before@, target, fb));
        true
    }

    /// Record that both bindings hold `fb`.
    pub fn set_all(&mut self, fb: Option<u32>)
        ensures
            final(self)@ == framebuffers_after(old(self)@, FRAMEBUFFER, fb),
    {
        let ghost before = *self;
        self.draw = Some(fb);
        self.read = Some(fb);
        assert(self@ =~= framebuffers_after(before@, FRAMEBUFFER, fb));
    }

    /// What is known of the binding behind `target`.
    pub fn get(&self, target: u32) -> (fb: Option<Option<u32>>)
        ensures
            fb == known_framebuffer(self@, target),
    {
        if target == FRAMEBUFFER || target == DRAW_FRAMEBUFFER {
            self.draw
        } else if target == READ_FRAMEBUFFER {
            self.read
        } else {
            None
        }
    }

    /// Forget both bindings.
    pub fn forget_all(&mut self)
        ensures
            final(self)@ == Map::<u32, Option<u32>>::empty(),
    {
        self.draw = None;
        self.read = None;
        assert(self@ =~= Map::<u32, Option<u32>>::empty());
    }
}

/// The capabilities that are shadowed are ten, each apart from the others.
pub proof fn law_which_capabilities_are_shadowed(cap: u32, other: u32)
    ensures
        capability_slot(cap) is Some == (cap == 0x0BE2 || cap == 0x0B44 || cap == 0x0B71 || cap
            == 0x0BD0 || cap == 0x8037 || cap == 0x809E || cap == 0x80A0 || cap == 0x0C11 || cap
            == 0x0B90 || cap == 0x8C89),
        capability_slot(cap) is Some && capability_slot(cap) == capability_slot(other) ==> cap
            == other,
        capability_slot(cap) matches Some(i) ==> i < 16,
{
}

/// The pixel-store parameters that are shadowed are thirteen, each apart from the others.
pub proof fn law_which_pixel_store_is_shadowed(pname: u32, other: u32)
    ensures
        pixel_store_slot(pname) is Some == (pname == 0x0D05 || pname == 0x0CF5 || pname == 0x9240
            || pname == 0x9241 || pname == 0x9243 || pname == 0x0CF2 || pname == 0x0CF4 || pname
            == 0x0CF3 || pname == 0x806E || pname == 0x806D || pname == 0x0D02 || pname == 0x0D04
            || pname == 0x0D03),
        pixel_store_slot(pname) is Some && pixel_store_slot(pname) == pixel_store_slot(other)
            ==> pname == other,
        pixel_store_slot(pname) matches Some(i) ==> i < 16,
{
}

/// A capability is enabled or disabled in the driver exactly if it is not known to be so
/// already, and is known to be so from then on if it is shadowed; no other is affected.
pub proof fn law_a_capability_is_set_when_it_changes(cap: u32, other: u32, issue: bool)
    ensures
        forall|s: &mut CapabilityShadow|
            #[trigger] call_ensures(CapabilityShadow::enable, (s, cap), issue) ==> {
                let before = (*s)@;
                let after = (*final(s))@;
                &&& issue == !(before.dom().contains(cap) && before[cap])
                &&& cap == 0x0BE2 || cap == 0x0C11 || cap == 0x0B71 ==> after.dom().contains(cap)
                    && after[cap]
                &&& capability_slot(cap) is Some ==> after.dom().contains(cap) && after[cap]
                &&& other != cap ==> after.dom().contains(other) == before.dom().contains(other)
                &&& other != cap && before.dom().contains(other) ==> after[other] == before[other]
            },
        forall|s: &mut CapabilityShadow|
            #[trigger] call_ensures(CapabilityShadow::disable, (s, cap), issue) ==> {
                let before = (*s)@;
                let after = (*final(s))@;
                &&& issue == !(before.dom().contains(cap) && !before[cap])
                &&& capability_slot(cap) is Some ==> after.dom().contains(cap) && !after[cap]
                &&& other != cap ==> after.dom().contains(other) == before.dom().contains(other)
                &&& other != cap && before.dom().contains(other) ==> after[other] == before[other]
            },
{
}

/// A texture is bound in the driver exactly if its unit is not known to hold it, and the first
/// thirty-two units are remembered. A texture that is gone is held by no unit.
pub proof fn law_a_texture_is_bound_when_it_changes(
    unit: u32,
    tex: Option<u32>,
    other: u32,
    issue: bool,
    gone: u32,
)
    ensures
        is_tracked_unit(unit) == (0x84C0 <= unit < 0x84C0 + 32),
        forall|s: &mut TextureUnitShadow|
            #[trigger] call_ensures(TextureUnitShadow::bind, (s, unit, tex), issue) ==> {
                let before = (*s)@;
                let after = (*final(s))@;
                &&& issue == !(before.dom().contains(unit) && before[unit] == tex)
                &&& 0x84C0 <= unit < 0x84C0 + 32 ==> after.dom().contains(unit) && after[unit]
                    == tex
                &&& other != unit && before.dom().contains(other) ==> after.dom().contains(other)
                    && after[other] == before[other]
            },
        forall|s: &mut TextureUnitShadow|
            #[trigger] call_ensures(TextureUnitShadow::forget_texture, (s, gone), ()) ==> {
                let before = (*s)@;
                let after = (*final(s))@;
                &&& after.dom().contains(unit) ==> after[unit] != Some(gone) && after[unit]
                    == before[unit]
                &&& before.dom().contains(unit) && before[unit] != Some(gone)
                    ==> after.dom().contains(unit)
            },
{
}

/// A framebuffer is bound in the driver exactly if a point that it goes to is not known to hold
/// it. A bind to both points is known at both, a bind to one at that one alone, and what is
/// known of the other stays.
pub proof fn law_a_framebuffer_is_bound_when_it_changes(
    target: u32,
    fb: Option<u32>,
    issue: bool,
)
    ensures
        forall|s: &mut FramebufferShadow|
            #[trigger] call_ensures(FramebufferShadow::update, (s, target, fb), issue) ==> {
                let before = (*s)@;
                let after = (*final(s))@;
                let draws = before.dom().contains(0x8CA9u32) && before[0x8CA9u32] == fb;
                let reads = before.dom().contains(0x8CA8u32) && before[0x8CA8u32] == fb;
                &&& target == 0x8D40 ==> issue == !(draws && reads)
                &&& target == 0x8CA9 ==> issue == !draws
                &&& target == 0x8CA8 ==> issue == !reads
                &&& target == 0x8D40 || target == 0x8CA9 ==> after.dom().contains(0x8CA9u32)
                    && after[0x8CA9u32] == fb
                &&& target == 0x8D40 || target == 0x8CA8 ==> after.dom().contains(0x8CA8u32)
                    && after[0x8CA8u32] == fb
                &&& target == 0x8CA9 ==> after.dom().contains(0x8CA8u32) == before.dom().contains(
                    0x8CA8u32,
                ) && (before.dom().contains(0x8CA8u32) ==> after[0x8CA8u32] == before[0x8CA8u32])
                &&& target == 0x8CA8 ==> after.dom().contains(0x8CA9u32) == before.dom().contains(
                    0x8CA9u32,
                ) && (before.dom().contains(0x8CA9u32) ==> after[0x8CA9u32] == before[0x8CA9u32])
            },
{
}

/// What is known of both points at once is what is known of the drawing one.
pub proof fn law_what_is_known_of_a_framebuffer(
    s: FramebufferShadow,
    target: u32,
    fb: Option<Option<u32>>,
)
    requires
        call_ensures(FramebufferShadow::get, (&s, target), fb),
    ensures
        target == 0x8D40 || target == 0x8CA9 ==> fb is Some == s@.dom().contains(0x8CA9u32),
        target == 0x8D40 || target == 0x8CA9 ==> fb is Some ==> fb->0 == s@[0x8CA9u32],
        target == 0x8CA8 ==> fb is Some == s@.dom().contains(0x8CA8u32),
        target == 0x8CA8 ==> fb is Some ==> fb->0 == s@[0x8CA8u32],
{
}

/// A value for both faces is known of each, a value for one of that one alone; and the call is
/// needed exactly if a face that it goes to is not known to have the value.
pub proof fn law_a_value_is_kept_by_face<T>(known: Map<u32, T>, value: T)
    ensures
        faces_after(known, 0x0408, value)[0x0404u32] == value,
        faces_after(known, 0x0408, value)[0x0405u32] == value,
        faces_after(known, 0x0404, value)[0x0404u32] == value,
        faces_after(known, 0x0405, value)[0x0405u32] == value,
        known.dom().contains(0x0405u32) ==> faces_after(known, 0x0404, value)[0x0405u32]
            == known[0x0405u32],
        known.dom().contains(0x0404u32) ==> faces_after(known, 0x0405, value)[0x0404u32]
            == known[0x0404u32],
        face_redundant(known, 0x0408, value) == (face_redundant(known, 0x0404, value)
            && face_redundant(known, 0x0405, value)),
        face_redundant(known, 0x0404, value) == (known.dom().contains(0x0404u32) && known[0x0404u32]
            == value),
        face_redundant(known, 0x0405, value) == (known.dom().contains(0x0405u32) && known[0x0405u32]
            == value),
{
}

} // verus!
