//! What it means to skip a state call that the driver already obeys.
//!
//! A shadow is what is known of the driver's state: a partial map from a state's
//! name to its value. A call is skipped when the shadow already records the value.
use vstd::prelude::*;

verus! {

/// The call that sets `k` to `v` is redundant for what is known.
pub open spec fn redundant<K, V>(known: Map<K, V>, k: K, v: V) -> bool {
    known.dom().contains(k) && known[k] == v
}

/// What is known after the call that sets `k` to `v`; a name that is not kept
/// leaves no record.
pub open spec fn recorded<K, V>(known: Map<K, V>, keeps: bool, k: K, v: V) -> Map<K, V> {
    if keeps {
        known.insert(k, v)
    } else {
        known
    }
}

/// What is known holds of the driver.
pub open spec fn agrees<K, V>(known: Map<K, V>, driver: Map<K, V>) -> bool {
    forall|k: K| #[trigger] known.dom().contains(k) ==> driver.dom().contains(k) && driver[k]
        == known[k]
}

/// A skipped call would have changed nothing: the driver already holds the value.
pub proof fn law_skipped_calls_change_nothing<K, V>(
    known: Map<K, V>,
    driver: Map<K, V>,
    k: K,
    v: V,
)
    requires
        agrees(known, driver),
        redundant(known, k, v),
    ensures
        driver.insert(k, v) == driver,
{
    assert(driver.insert(k, v) =~= driver);
}

/// Recording a call keeps the shadow true of the driver that received the call.
pub proof fn law_recording_keeps_agreement<K, V>(
    known: Map<K, V>,
    driver: Map<K, V>,
    keeps: bool,
    k: K,
    v: V,
)
    requires
        agrees(known, driver),
        !keeps ==> !known.dom().contains(k),
    ensures
        agrees(recorded(known, keeps, k, v), driver.insert(k, v)),
{
}

/// The same call made twice reaches the driver once, and a call about one name
/// never makes a call about another redundant.
pub proof fn law_repeats_are_redundant<K, V>(known: Map<K, V>, k: K, v: V, other: K, w: V)
    ensures
        redundant(recorded(known, true, k, v), k, v),
        w != v ==> !redundant(recorded(known, true, k, v), k, w),
        other != k ==> redundant(recorded(known, true, k, v), other, w) == redundant(
            known,
            other,
            w,
        ),
{
}

/// After the shadow is forgotten every call is made again, whatever the driver holds.
pub proof fn law_forgetting_makes_every_call_again<K, V>(driver: Map<K, V>, k: K, v: V)
    ensures
        !redundant(Map::<K, V>::empty(), k, v),
        agrees(Map::<K, V>::empty(), driver),
{
}

/// Values that a shadow can hold and compare.
pub trait ShadowValue: Copy {
    /// Whether two values are the same.
    fn same(&self, other: &Self) -> (b: bool)
        ensures
            b == (*self == *other),
    ;
}

impl ShadowValue for u32 {
    fn same(&self, other: &Self) -> (b: bool) {
        *self == *other
    }
}

/// Arguments of `glStencilFuncSeparate`, without the face.
#[derive(Clone, Copy, Debug, PartialEq, Eq, Structural)]
pub struct StencilFunc {
    pub func: u32,
    pub reference: i32,
    pub mask: u32,
}

impl ShadowValue for StencilFunc {
    fn same(&self, other: &Self) -> (b: bool) {
        self.func == other.func && self.reference == other.reference && self.mask == other.mask
    }
}

/// Arguments of `glStencilOpSeparate`, without the face.
#[derive(Clone, Copy, Debug, PartialEq, Eq, Structural)]
pub struct StencilOp {
    pub fail: u32,
    pub depth_fail: u32,
    pub pass: u32,
}

impl ShadowValue for StencilOp {
    fn same(&self, other: &Self) -> (b: bool) {
        self.fail == other.fail && self.depth_fail == other.depth_fail && self.pass == other.pass
    }
}

/// Whether `slot` holds exactly `value`.
pub fn holds<T: ShadowValue>(slot: &Option<T>, value: &T) -> (b: bool)
    ensures
        b == (*slot == Some(*value)),
{
    match slot {
        Some(current) => current.same(value),
        None => false,
    }
}

} // verus!
