//! A mirror of the driver's surface-reference rule.
//!
//! Destroying a surface that is still current does not destroy it: the driver defers
//! the destroy until the last reference goes, and says nothing. A surface is
//! referenced by the context that is current and binds it for drawing or reading.
use std::collections::HashMap;
use vstd::prelude::*;

verus! {

/// The context that is current, and the surfaces it was made current with.
#[derive(Clone, Copy, Debug)]
pub struct Binding {
    pub context: usize,
    pub draw: Option<usize>,
    pub read: Option<usize>,
}

/// The surfaces that a binding names.
pub open spec fn named(draw: Option<usize>, read: Option<usize>) -> Set<usize> {
    Set::new(|s: usize| draw == Some(s) || read == Some(s))
}

/// What the ledger records: the current binding, and the surfaces it still holds. A
/// surface that was destroyed under the binding is named by it and not held.
pub struct Ledger {
    pub current: Option<Binding>,
    pub held: Set<usize>,
}

/// The record of an accepted `eglMakeCurrent`: whatever was current lets go, and the
/// new context, if there is one, holds what it names.
pub open spec fn after_make_current(
    draw: Option<usize>,
    read: Option<usize>,
    context: Option<usize>,
) -> Ledger {
    match context {
        None => Ledger { current: None, held: Set::empty() },
        Some(context) => Ledger {
            current: Some(Binding { context, draw, read }),
            held: named(draw, read),
        },
    }
}

/// The record of an `eglDestroyContext`: only the current context can hold anything.
pub open spec fn after_context_destroyed(ledger: Ledger, context: usize) -> Ledger {
    if ledger.current matches Some(b) && b.context == context {
        Ledger { current: None, held: Set::empty() }
    } else {
        ledger
    }
}

/// Surface references, as the driver counts them.
pub struct SurfaceLedger {
    current: Option<Binding>,
    counts: HashMap<usize, u32>,
}

impl View for SurfaceLedger {
    type V = Ledger;

    closed spec fn view(&self) -> Ledger {
        Ledger { current: self.current, held: self.counts@.dom() }
    }
}

impl SurfaceLedger {
    /// The current binding holds each surface at most once, and nothing else is held.
    pub closed spec fn wf(&self) -> bool {
        forall|s: usize| #[trigger]
            self.counts@.dom().contains(s) ==> self.counts@[s] == 1 && (self.current matches Some(b)
                && named(b.draw, b.read).contains(s))
    }

    /// A ledger with nothing current.
    pub fn new() -> (ledger: Self)
        ensures
            ledger.wf(),
            ledger@ == after_make_current(None, None, None),
    {
        let ledger = SurfaceLedger { current: None, counts: HashMap::new() };
        assert(ledger@.held =~= Set::empty());
        ledger
    }

    /// Record an `eglMakeCurrent` that the driver accepted. A rejected one changes
    /// nothing and is not recorded.
    pub fn made_current(
        &mut self,
        draw: Option<usize>,
        read: Option<usize>,
        context: Option<usize>,
    )
        requires
            old(self).wf(),
        ensures
            final(self).wf(),
            final(self)@ == after_make_current(draw, read, context),
    {
        self.release_current();
        if let Some(context) = context {
            if let Some(surface) = draw {
                self.retain(surface);
            }
            if let Some(surface) = read {
                let also_drawn: bool = match draw {
                    Some(d) => d == surface,
                    None => false,
                };
                if !also_drawn {
                    self.retain(surface);
                }
            }
            self.current = Some(Binding { context, draw, read });
            assert(self@.held =~= named(draw, read));
        }
    }

    /// Record an `eglDestroyContext`. Destroying a context that is not current leaves
    /// the live binding alone.
    pub fn context_destroyed(&mut self, context: usize)
        requires
            old(self).wf(),
        ensures
            final(self).wf(),
            final(self)@ == after_context_destroyed(old(self)@, context),
    {
        let is_current: bool = match &self.current {
            Some(b) => b.context == context,
            None => false,
        };
        if is_current {
            self.release_current();
        }
    }

    /// How many bindings still name `surface`. Above zero, a destroy will be deferred
    /// and the native window stays owned.
    pub fn references(&self, surface: usize) -> (n: u32)
        requires
            self.wf(),
        ensures
            n == (if self@.held.contains(surface) {
                1u32
            } else {
                0u32
            }),
    {
        match self.counts.get(&surface) {
            Some(n) => *n,
            None => 0,
        }
    }

    /// Forget a surface that the driver has destroyed, so that a reused handle does
    /// not inherit its history.
    pub fn surface_destroyed(&mut self, surface: usize)
        requires
            old(self).wf(),
        ensures
            final(self).wf(),
            final(self)@ == (Ledger {
                current: old(self)@.current,
                held: old(self)@.held.remove(surface),
            }),
    {
        let _ = self.counts.remove(&surface);
        assert(self@.held =~= old(self)@.held.remove(surface));
    }

    /// The exact inverse of what the current binding retained.
    fn release_current(&mut self)
        requires
            old(self).wf(),
        ensures
            final(self).wf(),
            final(self).counts@ == Map::<usize, u32>::empty(),
            final(self)@ == after_make_current(None, None, None),
    {
        if let Some(binding) = self.current.take() {
            if let Some(surface) = binding.draw {
                self.release(surface);
            }
            if let Some(surface) = binding.read {
                let also_drawn: bool = match binding.draw {
                    Some(d) => d == surface,
                    None => false,
                };
                if !also_drawn {
                    self.release(surface);
                }
            }
        }
        assert(self.counts@ =~= Map::<usize, u32>::empty());
        assert(self@.held =~= Set::empty());
    }

    fn retain(&mut self, surface: usize)
        requires
            !old(self).counts@.dom().contains(surface),
        ensures
            final(self).counts@ == old(self).counts@.insert(surface, 1u32),
            final(self).current == old(self).current,
    {
        let count: u32 = match self.counts.get(&surface) {
            Some(n) => *n,
            None => 0,
        };
        let _ = self.counts.insert(surface, count + 1);
    }

    fn release(&mut self, surface: usize)
        requires
            old(self).counts@.dom().contains(surface) ==> old(self).counts@[surface] == 1,
        ensures
            final(self).counts@ == old(self).counts@.remove(surface),
            final(self).current == old(self).current,
    {
        let count: u32 = match self.counts.get(&surface) {
            Some(n) => *n,
            None => 0,
        };
        if count > 1 {
            let _ = self.counts.insert(surface, count - 1);
        } else {
            let _ = self.counts.remove(&surface);
        }
        assert(self.counts@ =~= old(self).counts@.remove(surface));
    }
}

impl Default for SurfaceLedger {
    fn default() -> (ledger: Self)
        ensures
            ledger.wf(),
            ledger@ == after_make_current(None, None, None),
    {
        SurfaceLedger::new()
    }
}

/// A surface bound for drawing and reading is one reference, however often the
/// binding is repeated; switching to surfaces that do not include it, or to nothing,
/// leaves it without any.
pub proof fn law_a_binding_holds_each_surface_once(
    surface: usize,
    context: usize,
    draw: Option<usize>,
    read: Option<usize>,
    next: Option<usize>,
)
    requires
        draw != Some(surface),
        read != Some(surface),
    ensures
        after_make_current(Some(surface), Some(surface), Some(context)).held == set![surface],
        !after_make_current(draw, read, next).held.contains(surface),
{
    assert(after_make_current(Some(surface), Some(surface), Some(context)).held =~= set![surface]);
}

/// Destroying the context that is current lets its surfaces go; destroying any other
/// context changes nothing.
pub proof fn law_only_the_current_context_holds(
    draw: Option<usize>,
    read: Option<usize>,
    context: usize,
    other: usize,
)
    ensures
        after_context_destroyed(after_make_current(draw, read, Some(context)), context).held
            == Set::<usize>::empty(),
        other != context ==> after_context_destroyed(
            after_make_current(draw, read, Some(context)),
            other,
        ) == after_make_current(draw, read, Some(context)),
{
}

/// A surface is referenced exactly while what is current holds it.
pub proof fn law_when_a_surface_is_referenced(ledger: SurfaceLedger, surface: usize, n: u32)
    requires
        call_ensures(SurfaceLedger::references, (&ledger, surface), n),
    ensures
        ledger@.held.contains(surface) ==> n == 1,
        !ledger@.held.contains(surface) ==> n == 0,
{
}

/// What is made current holds what it draws to and reads from, and what was current before
/// holds nothing more; a surface that is destroyed is held by nothing.
pub proof fn law_what_is_current_holds_its_surfaces(
    draw: Option<usize>,
    read: Option<usize>,
    context: usize,
    surface: usize,
)
    ensures
        forall|ledger: &mut SurfaceLedger|
            #[trigger] call_ensures(
                SurfaceLedger::made_current,
                (ledger, draw, read, Some(context)),
                (),
            ) ==> {
                let after = (*final(ledger))@;
                &&& after.held.contains(surface) == (draw == Some(surface) || read == Some(surface))
                &&& after.current == Some(Binding { context, draw, read })
            },
        forall|ledger: &mut SurfaceLedger|
            #[trigger] call_ensures(SurfaceLedger::surface_destroyed, (ledger, surface), ())
                ==> !(*final(ledger))@.held.contains(surface) && (*final(ledger))@.current
                == (*ledger)@.current,
{
}

} // verus!
