//! The shadow of vertex-array objects: what each attribute of each object holds.
use vstd::prelude::*;

use crate::shadows::has_bit32;

verus! {

/// Arguments of `glVertexAttribPointer`, with the buffer they were given under.
#[derive(Clone, Copy, Debug, PartialEq, Eq, Hash)]
pub struct VertexAttribPointerFp {
    pub size: i32,
    pub type_: u32,
    pub normalized: bool,
    pub stride: i32,
    pub offset: i32,
    pub array_buffer: Option<u32>,
}

fn same_pointer(a: &VertexAttribPointerFp, b: &VertexAttribPointerFp) -> (r: bool)
    ensures
        r == (*a == *b),
{
    let same_buffer: bool = match (a.array_buffer, b.array_buffer) {
        (Some(x), Some(y)) => x == y,
        (None, None) => true,
        _ => false,
    };
    a.size == b.size && a.type_ == b.type_ && a.normalized == b.normalized && a.stride == b.stride
        && a.offset == b.offset && same_buffer
}

/// What is known of one attribute. A divisor that was never set is not a divisor of 0.
#[derive(Clone, Copy, Debug)]
pub struct AttribSlot {
    pointer: Option<VertexAttribPointerFp>,
    divisor: Option<u32>,
}

#[derive(Debug)]
struct VaoAttribs {
    vao: u32,
    slots: Vec<AttribSlot>,
    /// The arrays that are enabled, among those whose state is known.
    enabled: u32,
    /// The arrays whose state is known.
    known: u32,
}

/// What is known of the vertex arrays. A key is an object and one of its first 32
/// attributes.
pub struct VertexArrays {
    pub pointers: Map<(u32, u32), VertexAttribPointerFp>,
    pub divisors: Map<(u32, u32), u32>,
    /// The arrays whose state is known, and whether they are enabled.
    pub arrays: Map<(u32, u32), bool>,
    /// Nothing was forgotten yet: an object that was never touched has its arrays disabled,
    /// as every object starts.
    pub pristine: bool,
}

/// The number of attributes per object that are tracked.
pub const MAX_TRACKED_ATTRIBS: u32 = 32;

/// The shadow of the vertex-array objects of one context.
#[derive(Debug)]
pub struct VertexArrayShadow {
    entries: Vec<VaoAttribs>,
    hot: usize,
    pristine: bool,
}

spec fn has_entry(entries: Seq<VaoAttribs>, vao: u32) -> bool {
    exists|p: int| 0 <= p < entries.len() && (#[trigger] entries[p]).vao == vao
}

spec fn entry_of(entries: Seq<VaoAttribs>, vao: u32) -> VaoAttribs {
    entries[choose|p: int| 0 <= p < entries.len() && (#[trigger] entries[p]).vao == vao]
}

spec fn slot_of(entries: Seq<VaoAttribs>, key: (u32, u32)) -> AttribSlot {
    if has_entry(entries, key.0) && key.1 < 32 && key.1 < entry_of(entries, key.0).slots@.len() {
        entry_of(entries, key.0).slots@[key.1 as int]
    } else {
        AttribSlot { pointer: None, divisor: None }
    }
}

spec fn array_of(entries: Seq<VaoAttribs>, pristine: bool, key: (u32, u32)) -> Option<bool> {
    if key.1 >= 32 {
        None
    } else if has_entry(entries, key.0) {
        if has_bit32(entry_of(entries, key.0).known, key.1) {
            Some(has_bit32(entry_of(entries, key.0).enabled, key.1))
        } else {
            None
        }
    } else if pristine {
        Some(false)
    } else {
        None
    }
}

proof fn lemma_all_bits32()
    ensures
        forall|i: u32| i < 32 ==> #[trigger] has_bit32(0xffff_ffffu32, i),
{
    assert forall|i: u32| i < 32 implies #[trigger] has_bit32(0xffff_ffffu32, i) by {
        assert(0xffff_ffffu32 & (1u32 << i) != 0) by (bit_vector)
            requires
                i < 32,
        ;
    }
}

spec fn distinct(entries: Seq<VaoAttribs>) -> bool {
    forall|p: int, q: int|
        0 <= p < q < entries.len() ==> (#[trigger] entries[p]).vao != (#[trigger] entries[q]).vao
}

proof fn lemma_entry(entries: Seq<VaoAttribs>, p: int)
    requires
        distinct(entries),
        0 <= p < entries.len(),
    ensures
        has_entry(entries, entries[p].vao),
        entry_of(entries, entries[p].vao) == entries[p],
{
    let vao = entries[p].vao;
    let c = choose|c: int| 0 <= c < entries.len() && (#[trigger] entries[c]).vao == vao;
    assert(entries[p].vao == vao);
    assert(c == p) by {
        if c < p {
            assert(entries[c].vao != entries[p].vao);
        }
        if p < c {
            assert(entries[p].vao != entries[c].vao);
        }
    }
}

/// Two tables that differ only in the entry at `p`, which keeps its name, agree on
/// every other object.
proof fn lemma_update(a: Seq<VaoAttribs>, b: Seq<VaoAttribs>, p: int)
    requires
        distinct(a),
        0 <= p < a.len(),
        a.len() == b.len(),
        b[p].vao == a[p].vao,
        forall|q: int| 0 <= q < a.len() && q != p ==> #[trigger] b[q] == a[q],
    ensures
        distinct(b),
        forall|vao: u32| has_entry(a, vao) == has_entry(b, vao),
        forall|vao: u32|
            vao != a[p].vao && has_entry(a, vao) ==> entry_of(a, vao) == entry_of(b, vao),
        entry_of(a, a[p].vao) == a[p],
        entry_of(b, a[p].vao) == b[p],
{
    assert(distinct(b)) by {
        assert forall|i: int, j: int| 0 <= i < j < b.len() implies (#[trigger] b[i]).vao != (
        #[trigger] b[j]).vao by {
            assert(a[i].vao != a[j].vao);
        }
    }
    lemma_entry(a, p);
    lemma_entry(b, p);
    assert forall|vao: u32| has_entry(a, vao) == has_entry(b, vao) && (vao != a[p].vao && has_entry(
        a,
        vao,
    ) ==> entry_of(a, vao) == entry_of(b, vao)) by {
        if has_entry(a, vao) {
            let c = choose|c: int| 0 <= c < a.len() && (#[trigger] a[c]).vao == vao;
            assert(b[c].vao == vao);
            lemma_entry(a, c);
            lemma_entry(b, c);
        }
        if has_entry(b, vao) {
            let c = choose|c: int| 0 <= c < b.len() && (#[trigger] b[c]).vao == vao;
            assert(a[c].vao == vao);
        }
    }
}

impl View for VertexArrayShadow {
    type V = VertexArrays;

    closed spec fn view(&self) -> VertexArrays {
        let entries = self.entries@;
        let pristine = self.pristine;
        VertexArrays {
            pointers: Map::new(
                |key: (u32, u32)| slot_of(entries, key).pointer is Some,
                |key: (u32, u32)| slot_of(entries, key).pointer->0,
            ),
            divisors: Map::new(
                |key: (u32, u32)| slot_of(entries, key).divisor is Some,
                |key: (u32, u32)| slot_of(entries, key).divisor->0,
            ),
            arrays: Map::new(
                |key: (u32, u32)| array_of(entries, pristine, key) is Some,
                |key: (u32, u32)| array_of(entries, pristine, key)->0,
            ),
            pristine,
        }
    }
}

/// Nothing known.
pub open spec fn no_vertex_arrays() -> VertexArrays {
    VertexArrays {
        pointers: Map::empty(),
        divisors: Map::empty(),
        arrays: Map::empty(),
        pristine: false,
    }
}

/// A context that was never used: the arrays of every object are disabled, as they start.
pub open spec fn fresh_vertex_arrays() -> VertexArrays {
    VertexArrays {
        pointers: Map::empty(),
        divisors: Map::empty(),
        arrays: Map::new(|key: (u32, u32)| key.1 < MAX_TRACKED_ATTRIBS, |key: (u32, u32)| false),
        pristine: true,
    }
}

/// What is known of arrays once an object is deleted: one that reuses its name starts with
/// its arrays disabled, which is relied on as long as nothing was forgotten.
pub open spec fn arrays_without(m: VertexArrays, vao: u32) -> Map<(u32, u32), bool> {
    Map::new(
        |key: (u32, u32)|
            if key.0 == vao {
                m.pristine && key.1 < MAX_TRACKED_ATTRIBS
            } else {
                m.arrays.dom().contains(key)
            },
        |key: (u32, u32)|
            if key.0 == vao {
                false
            } else {
                m.arrays[key]
            },
    )
}

impl VertexArrayShadow {
    /// No object occurs twice.
    pub closed spec fn wf(&self) -> bool {
        distinct(self.entries@)
    }

    /// The shadow of a context that was never used.
    pub fn new() -> (s: Self)
        ensures
            s.wf(),
            s@ == fresh_vertex_arrays(),
    {
        let s = VertexArrayShadow { entries: Vec::new(), hot: 0, pristine: true };
        assert(s@.pointers =~= Map::empty());
        assert(s@.divisors =~= Map::empty());
        assert(s@.arrays =~= fresh_vertex_arrays().arrays);
        s
    }

    fn position(&self, vao: u32) -> (found: Option<usize>)
        ensures
            found matches Some(p) ==> p < self.entries@.len() && self.entries@[p as int].vao == vao,
            found is None ==> !has_entry(self.entries@, vao),
    {
        let mut p: usize = 0;
        while p < self.entries.len()
            invariant
                p <= self.entries@.len(),
                forall|q: int| 0 <= q < p ==> (#[trigger] self.entries@[q]).vao != vao,
            decreases self.entries@.len() - p,
        {
            if self.entries[p].vao == vao {
                return Some(p);
            }
            p = p + 1;
        }
        None
    }

    /// The entry of `vao`, made on first use.
    fn resolve(&mut self, vao: u32) -> (p: usize)
        requires
            old(self).wf(),
        ensures
            final(self).wf(),
            final(self)@ == old(self)@,
            p < final(self).entries@.len(),
            final(self).entries@[p as int].vao == vao,
    {
        if self.hot < self.entries.len() && self.entries[self.hot].vao == vao {
            return self.hot;
        }
        match self.position(vao) {
            Some(p) => {
                self.hot = p;
                p
            },
            None => {
                let p: usize = self.entries.len();
                let ghost before = self.entries@;
                let known: u32 = if self.pristine {
                    0xffff_ffff
                } else {
                    0
                };
                self.entries.push(VaoAttribs { vao, slots: Vec::new(), enabled: 0, known });
                self.hot = p;
                proof {
                    lemma_all_bits32();
                    let after = self.entries@;
                    assert(distinct(after));
                    lemma_entry(after, p as int);
                    crate::shadows::lemma_no_bits32();
                    assert forall|key: (u32, u32)|
                        #![trigger slot_of(after, key)]
                        #![trigger array_of(after, self.pristine, key)]
 slot_of(before, key) == slot_of(after, key)
                        && array_of(before, self.pristine, key) == array_of(after, self.pristine, key) by {
                        if has_entry(before, key.0) {
                            let c = choose|c: int|
                                0 <= c < before.len() && (#[trigger] before[c]).vao == key.0;
                            assert(after[c] == before[c]);
                            lemma_entry(before, c);
                            lemma_entry(after, c);
                        } else if has_entry(after, key.0) {
                            let c = choose|c: int|
                                0 <= c < after.len() && (#[trigger] after[c]).vao == key.0;
                            assert(c == p) by {
                                if c < p {
                                    assert(before[c].vao == key.0);
                                }
                            }
                        }
                    }
                    assert(self@.pointers =~= old(self)@.pointers);
                    assert(self@.divisors =~= old(self)@.divisors);
                    assert(self@.arrays =~= old(self)@.arrays);
                }
                p
            },
        }
    }

    /// The entry of `vao`, with a slot for attribute `index`.
    fn resolve_slot(&mut self, vao: u32, index: u32) -> (p: usize)
        requires
            old(self).wf(),
            index < 32,
        ensures
            final(self).wf(),
            final(self)@ == old(self)@,
            p < final(self).entries@.len(),
            final(self).entries@[p as int].vao == vao,
            index < final(self).entries@[p as int].slots@.len(),
    {
        let p: usize = self.resolve(vao);
        while self.entries[p].slots.len() <= index as usize
            invariant
                index < 32,
                self.wf(),
                self@ == old(self)@,
                p < self.entries@.len(),
                self.entries@[p as int].vao == vao,
            decreases 33 - self.entries@[p as int].slots@.len(),
        {
            let ghost before = self.entries@;
            self.entries[p].slots.push(AttribSlot { pointer: None, divisor: None });
            proof {
                let after = self.entries@;
                lemma_update(before, after, p as int);
                assert forall|key: (u32, u32)|
                        #![trigger slot_of(after, key)]
                        #![trigger array_of(after, self.pristine, key)]
 slot_of(before, key) == slot_of(after, key)
                    && array_of(before, self.pristine, key) == array_of(after, self.pristine, key) by {
                    if key.0 == vao {
                        lemma_entry(before, p as int);
                    }
                }
                assert(self@.pointers =~= old(self)@.pointers);
                assert(self@.divisors =~= old(self)@.divisors);
                assert(self@.arrays =~= old(self)@.arrays);
            }
        }
        p
    }

    /// Record `glVertexAttribPointer`; answers whether it must be issued.
    pub fn update_pointer(&mut self, vao: u32, index: u32, fp: VertexAttribPointerFp) -> (issue:
        bool)
        requires
            old(self).wf(),
        ensures
            final(self).wf(),
            issue == !crate::dedup::redundant(old(self)@.pointers, (vao, index), fp),
            final(self)@ == (VertexArrays {
                pointers: crate::dedup::recorded(
                    old(self)@.pointers,
                    index < MAX_TRACKED_ATTRIBS,
                    (vao, index),
                    fp,
                ),
                ..old(self)@
            }),
    {
        if index >= MAX_TRACKED_ATTRIBS {
            return true;
        }
        let p: usize = self.resolve_slot(vao, index);
        let i: usize = index as usize;
        let ghost before = self.entries@;
        proof {
            lemma_entry(before, p as int);
            assert(slot_of(before, (vao, index)) == before[p as int].slots@[i as int]);
        }
        let current = self.entries[p].slots[i];
        let same: bool = match current.pointer {
            Some(known) => same_pointer(&known, &fp),
            None => false,
        };
        if same {
            assert(self@.pointers =~= self@.pointers.insert((vao, index), fp));
            return false;
        }
        self.entries[p].slots[i] = AttribSlot { pointer: Some(fp), divisor: current.divisor };
        proof {
            let after = self.entries@;
            lemma_update(before, after, p as int);
            assert forall|key: (u32, u32)|
                        #![trigger slot_of(after, key)]
                        #![trigger array_of(after, self.pristine, key)]
 slot_of(after, key) == (if key == (vao, index) {
                AttribSlot { pointer: Some(fp), divisor: current.divisor }
            } else {
                slot_of(before, key)
            }) && array_of(before, self.pristine, key) == array_of(after, self.pristine, key) by {}
            assert(self@.pointers =~= old(self)@.pointers.insert((vao, index), fp));
            assert(self@.divisors =~= old(self)@.divisors);
            assert(self@.arrays =~= old(self)@.arrays);
        }
        true
    }

    /// Record `glVertexAttribDivisor`; answers whether it must be issued.
    pub fn update_divisor(&mut self, vao: u32, index: u32, divisor: u32) -> (issue: bool)
        requires
            old(self).wf(),
        ensures
            final(self).wf(),
            issue == !crate::dedup::redundant(old(self)@.divisors, (vao, index), divisor),
            final(self)@ == (VertexArrays {
                divisors: crate::dedup::recorded(
                    old(self)@.divisors,
                    index < MAX_TRACKED_ATTRIBS,
                    (vao, index),
                    divisor,
                ),
                ..old(self)@
            }),
    {
        if index >= MAX_TRACKED_ATTRIBS {
            return true;
        }
        let p: usize = self.resolve_slot(vao, index);
        let i: usize = index as usize;
        let ghost before = self.entries@;
        proof {
            lemma_entry(before, p as int);
            assert(slot_of(before, (vao, index)) == before[p as int].slots@[i as int]);
        }
        let current = self.entries[p].slots[i];
        let same: bool = match current.divisor {
            Some(known) => known == divisor,
            None => false,
        };
        if same {
            assert(self@.divisors =~= self@.divisors.insert((vao, index), divisor));
            return false;
        }
        self.entries[p].slots[i] = AttribSlot { pointer: current.pointer, divisor: Some(divisor) };
        proof {
            let after = self.entries@;
            lemma_update(before, after, p as int);
            assert forall|key: (u32, u32)|
                        #![trigger slot_of(after, key)]
                        #![trigger array_of(after, self.pristine, key)]
 slot_of(after, key) == (if key == (vao, index) {
                AttribSlot { pointer: current.pointer, divisor: Some(divisor) }
            } else {
                slot_of(before, key)
            }) && array_of(before, self.pristine, key) == array_of(after, self.pristine, key) by {}
            assert(self@.divisors =~= old(self)@.divisors.insert((vao, index), divisor));
            assert(self@.pointers =~= old(self)@.pointers);
            assert(self@.arrays =~= old(self)@.arrays);
        }
        true
    }

    /// Record `glEnableVertexAttribArray`; answers whether it must be issued.
    pub fn enable(&mut self, vao: u32, index: u32) -> (issue: bool)
        requires
            old(self).wf(),
        ensures
            final(self).wf(),
            issue == !crate::dedup::redundant(old(self)@.arrays, (vao, index), true),
            index >= MAX_TRACKED_ATTRIBS ==> issue,
            final(self)@ == (VertexArrays {
                arrays: crate::dedup::recorded(
                    old(self)@.arrays,
                    index < MAX_TRACKED_ATTRIBS,
                    (vao, index),
                    true,
                ),
                ..old(self)@
            }),
    {
        if index >= MAX_TRACKED_ATTRIBS {
            return true;
        }
        let bit: u32 = 1u32 << index;
        let p: usize = self.resolve(vao);
        let ghost before = self.entries@;
        proof {
            lemma_entry(before, p as int);
        }
        if self.entries[p].known & bit != 0 && self.entries[p].enabled & bit != 0 {
            assert(self@.arrays =~= self@.arrays.insert((vao, index), true));
            return false;
        }
        self.entries[p].enabled = self.entries[p].enabled | bit;
        self.entries[p].known = self.entries[p].known | bit;
        proof {
            let after = self.entries@;
            lemma_update(before, after, p as int);
            assert forall|key: (u32, u32)|
                        #![trigger slot_of(after, key)]
                        #![trigger array_of(after, self.pristine, key)]
 slot_of(before, key) == slot_of(after, key) && array_of(
                after,
                self.pristine,
                key,
            ) == (if key == (vao, index) {
                Some(true)
            } else {
                array_of(before, self.pristine, key)
            }) by {
                if key.1 < 32 {
                    crate::shadows::lemma_bits32(before[p as int].enabled, index, key.1);
                    crate::shadows::lemma_bits32(before[p as int].known, index, key.1);
                }
            }
            assert(self@.pointers =~= old(self)@.pointers);
            assert(self@.divisors =~= old(self)@.divisors);
            assert(self@.arrays =~= old(self)@.arrays.insert((vao, index), true));
        }
        true
    }

    /// Record `glDisableVertexAttribArray`; answers whether it must be issued.
    pub fn disable(&mut self, vao: u32, index: u32) -> (issue: bool)
        requires
            old(self).wf(),
        ensures
            final(self).wf(),
            issue == !crate::dedup::redundant(old(self)@.arrays, (vao, index), false),
            index >= MAX_TRACKED_ATTRIBS ==> issue,
            final(self)@ == (VertexArrays {
                arrays: crate::dedup::recorded(
                    old(self)@.arrays,
                    index < MAX_TRACKED_ATTRIBS,
                    (vao, index),
                    false,
                ),
                ..old(self)@
            }),
    {
        if index >= MAX_TRACKED_ATTRIBS {
            return true;
        }
        let bit: u32 = 1u32 << index;
        let p: usize = self.resolve(vao);
        let ghost before = self.entries@;
        proof {
            lemma_entry(before, p as int);
        }
        if self.entries[p].known & bit != 0 && self.entries[p].enabled & bit == 0 {
            assert(self@.arrays =~= self@.arrays.insert((vao, index), false));
            return false;
        }
        self.entries[p].enabled = self.entries[p].enabled & !bit;
        self.entries[p].known = self.entries[p].known | bit;
        proof {
            let after = self.entries@;
            lemma_update(before, after, p as int);
            assert forall|key: (u32, u32)|
                        #![trigger slot_of(after, key)]
                        #![trigger array_of(after, self.pristine, key)]
 slot_of(before, key) == slot_of(after, key) && array_of(
                after,
                self.pristine,
                key,
            ) == (if key == (vao, index) {
                Some(false)
            } else {
                array_of(before, self.pristine, key)
            }) by {
                if key.1 < 32 {
                    crate::shadows::lemma_bits32(before[p as int].enabled, index, key.1);
                    crate::shadows::lemma_bits32(before[p as int].known, index, key.1);
                }
            }
            assert(self@.pointers =~= old(self)@.pointers);
            assert(self@.divisors =~= old(self)@.divisors);
            assert(self@.arrays =~= old(self)@.arrays.insert((vao, index), false));
        }
        true
    }

    /// Forget what every object holds: the next call about any attribute is issued, whatever it
    /// sets.
    pub fn forget_all(&mut self)
        requires
            old(self).wf(),
        ensures
            final(self).wf(),
            final(self)@ == no_vertex_arrays(),
    {
        let mut p: usize = 0;
        while p < self.entries.len()
            invariant
                p <= self.entries@.len(),
                self.wf(),
                forall|q: int|
                    0 <= q < p ==> (#[trigger] self.entries@[q]).slots@.len() == 0
                        && self.entries@[q].known == 0,
            decreases self.entries@.len() - p,
        {
            let ghost before = self.entries@;
            let vao: u32 = self.entries[p].vao;
            self.entries[p] = VaoAttribs { vao, slots: Vec::new(), enabled: 0, known: 0 };
            proof {
                lemma_update(before, self.entries@, p as int);
            }
            p = p + 1;
        }
        self.hot = 0;
        self.pristine = false;
        proof {
            crate::shadows::lemma_no_bits32();
            let entries = self.entries@;
            assert forall|key: (u32, u32)| slot_of(entries, key) == (AttribSlot {
                pointer: None,
                divisor: None,
            }) && array_of(entries, false, key) is None by {
                if has_entry(entries, key.0) {
                    let c = choose|c: int|
                        0 <= c < entries.len() && (#[trigger] entries[c]).vao == key.0;
                    lemma_entry(entries, c);
                }
            }
            assert(self@.pointers =~= Map::empty());
            assert(self@.divisors =~= Map::empty());
            assert(self@.arrays =~= Map::empty());
        }
    }

    /// Forget a deleted object: an object that reuses its name starts from nothing.
    pub fn forget_vao(&mut self, vao: u32)
        requires
            old(self).wf(),
        ensures
            final(self).wf(),
            final(self)@.pointers == old(self)@.pointers.restrict(Set::new(|key: (u32, u32)| key.0 != vao)),
            final(self)@.divisors == old(self)@.divisors.restrict(Set::new(|key: (u32, u32)| key.0 != vao)),
            final(self)@.arrays == arrays_without(old(self)@, vao),
            final(self)@.pristine == old(self)@.pristine,
    {
        let ghost before = self.entries@;
        match self.position(vao) {
            Some(p) => {
                self.entries.swap_remove(p);
                self.hot = 0;
                proof {
                    let after = self.entries@;
                    let last = before.len() - 1;
                    assert forall|i: int| 0 <= i < after.len() implies #[trigger] after[i] == (if i
                        == p {
                        before[last]
                    } else {
                        before[i]
                    }) by {}
                    assert(distinct(after)) by {
                        assert forall|i: int, j: int| 0 <= i < j < after.len() implies (
                        #[trigger] after[i]).vao != (#[trigger] after[j]).vao by {
                            let a = if i == p {
                                last
                            } else {
                                i
                            };
                            let b = if j == p {
                                last
                            } else {
                                j
                            };
                            assert(before[a].vao == after[i].vao && before[b].vao == after[j].vao);
                        }
                    }
                    assert forall|v: u32| has_entry(after, v) == (v != vao && has_entry(before, v)) && (
                    v != vao && has_entry(before, v) ==> entry_of(after, v) == entry_of(before, v)) by {
                        if has_entry(before, v) {
                            let c = choose|c: int|
                                0 <= c < before.len() && (#[trigger] before[c]).vao == v;
                            lemma_entry(before, c);
                            if v != vao {
                                let d = if c == last {
                                    p as int
                                } else {
                                    c
                                };
                                assert(after[d] == before[c]);
                                lemma_entry(after, d);
                            }
                        }
                        if has_entry(after, v) {
                            let c = choose|c: int|
                                0 <= c < after.len() && (#[trigger] after[c]).vao == v;
                            let d = if c == p {
                                last
                            } else {
                                c
                            };
                            assert(before[d].vao == v);
                            assert(d != p);
                            if v == vao {
                                if d < p {
                                    assert(before[d].vao != before[p as int].vao);
                                } else {
                                    assert(before[p as int].vao != before[d].vao);
                                }
                            }
                        }
                    }
                }
            },
            None => {},
        }
        proof {
            let keep = Set::new(|key: (u32, u32)| key.0 != vao);
            assert(self@.pointers =~= old(self)@.pointers.restrict(keep));
            assert(self@.divisors =~= old(self)@.divisors.restrict(keep));
            assert(self@.arrays =~= arrays_without(old(self)@, vao));
        }
    }
}

/// A pointer, a divisor or an array is set in the driver exactly if it is not known to be so;
/// the first thirty-two attributes of each object are remembered, and setting one changes
/// nothing of another, nor of another kind.
pub proof fn law_an_attribute_is_set_when_it_changes(
    vao: u32,
    index: u32,
    fp: VertexAttribPointerFp,
    divisor: u32,
    issue: bool,
)
    ensures
        forall|s: &mut VertexArrayShadow|
            #[trigger] call_ensures(VertexArrayShadow::update_pointer, (s, vao, index, fp), issue)
                ==> {
                let before = (*s)@;
                let after = (*final(s))@;
                &&& issue == !(before.pointers.dom().contains((vao, index)) && before.pointers[(
                    vao,
                    index,
                )] == fp)
                &&& index < 32 ==> after.pointers.dom().contains((vao, index)) && after.pointers[(
                    vao,
                    index,
                )] == fp
                &&& after.divisors == before.divisors && after.arrays == before.arrays
            },
        forall|s: &mut VertexArrayShadow|
            #[trigger] call_ensures(
                VertexArrayShadow::update_divisor,
                (s, vao, index, divisor),
                issue,
            ) ==> {
                let before = (*s)@;
                let after = (*final(s))@;
                &&& issue == !(before.divisors.dom().contains((vao, index)) && before.divisors[(
                    vao,
                    index,
                )] == divisor)
                &&& index < 32 ==> after.divisors.dom().contains((vao, index)) && after.divisors[(
                    vao,
                    index,
                )] == divisor
                &&& after.pointers == before.pointers && after.arrays == before.arrays
            },
        forall|s: &mut VertexArrayShadow|
            #[trigger] call_ensures(VertexArrayShadow::enable, (s, vao, index), issue) ==> {
                let before = (*s)@;
                let after = (*final(s))@;
                &&& issue == !(before.arrays.dom().contains((vao, index)) && before.arrays[(
                    vao,
                    index,
                )])
                &&& index < 32 ==> after.arrays.dom().contains((vao, index)) && after.arrays[(
                    vao,
                    index,
                )]
                &&& after.pointers == before.pointers && after.divisors == before.divisors
            },
        forall|s: &mut VertexArrayShadow|
            #[trigger] call_ensures(VertexArrayShadow::disable, (s, vao, index), issue) ==> {
                let before = (*s)@;
                let after = (*final(s))@;
                &&& issue == !(before.arrays.dom().contains((vao, index)) && !before.arrays[(
                    vao,
                    index,
                )])
                &&& index < 32 ==> after.arrays.dom().contains((vao, index)) && !after.arrays[(
                    vao,
                    index,
                )]
                &&& after.pointers == before.pointers && after.divisors == before.divisors
            },
{
}

/// Nothing is known of the pointers and divisors of an object that was deleted, and nothing is
/// forgotten of any other. Once everything is forgotten nothing is known.
pub proof fn law_a_deleted_object_is_forgotten(vao: u32, key: (u32, u32))
    ensures
        forall|s: &mut VertexArrayShadow|
            #[trigger] call_ensures(VertexArrayShadow::forget_vao, (s, vao), ()) ==> {
                let before = (*s)@;
                let after = (*final(s))@;
                &&& key.0 == vao ==> !after.pointers.dom().contains(key)
                    && !after.divisors.dom().contains(key)
                &&& key.0 == vao && after.arrays.dom().contains(key) ==> before.pristine
                    && !after.arrays[key]
                &&& key.0 != vao ==> after.pointers.dom().contains(key)
                    == before.pointers.dom().contains(key) && after.arrays.dom().contains(key)
                    == before.arrays.dom().contains(key)
                &&& key.0 != vao && before.arrays.dom().contains(key) ==> after.arrays[key]
                    == before.arrays[key]
                &&& key.0 != vao && before.pointers.dom().contains(key) ==> after.pointers[key]
                    == before.pointers[key]
            },
        forall|s: &mut VertexArrayShadow|
            #[trigger] call_ensures(VertexArrayShadow::forget_all, (s,), ()) ==> {
                let after = (*final(s))@;
                &&& !after.pointers.dom().contains(key)
                &&& !after.divisors.dom().contains(key)
                &&& !after.arrays.dom().contains(key)
                &&& !after.pristine
            },
{
}

} // verus!
