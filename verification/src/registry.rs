//! The feature registry: optional cross-cutting plugins registered under
//! unique names, gated before initialization, resolvable by name, and
//! narrowed to consumer-specific capability interfaces.

use vstd::prelude::*;

use crate::errors::{Error, ErrorView};

verus! {

/// Where a feature stands in its lifecycle: registered at build time,
/// active once its gate passed, skipped when its gate failed, and cleaned
/// up at shutdown.
#[derive(PartialEq, Eq, Structural, Clone, Copy, Debug)]
pub enum FeatureState {
    Registered,
    Active,
    Skipped,
    CleanedUp,
}

/// Mathematical model of one registered feature.
pub struct FeatureEntryView {
    pub name: Seq<char>,
    pub enabled: bool,
    pub capabilities: Seq<u64>,
    pub state: FeatureState,
}

/// One registered feature: its unique name, its enablement flag, the
/// capability interfaces its handle can be narrowed to, and its lifecycle
/// state. The feature's behaviour lives with the caller; the registry keeps
/// the bookkeeping the lifecycle rules are stated over.
pub struct FeatureEntry {
    pub name: String,
    pub enabled: bool,
    pub capabilities: Vec<u64>,
    pub state: FeatureState,
}

impl View for FeatureEntry {
    type V = FeatureEntryView;

    open spec fn view(&self) -> FeatureEntryView {
        FeatureEntryView {
            name: self.name@,
            enabled: self.enabled,
            capabilities: self.capabilities@,
            state: self.state,
        }
    }
}

impl FeatureEntry {
    /// Narrows this feature's opaque handle to one capability interface:
    /// the narrowing yields something exactly when the feature declares
    /// that interface. Presence of a feature is no promise that a given
    /// interface exists on it.
    pub fn narrow(&self, interface: u64) -> (r: Option<u64>)
        ensures
            r == if self@.capabilities.contains(interface) {
                Some(interface)
            } else {
                None::<u64>
            },
    {
        let n = self.capabilities.len();
        let mut i: usize = 0;
        while i < n
            invariant
                i <= n,
                n == self@.capabilities.len(),
                forall|j: int| 0 <= j < i ==> self@.capabilities[j] != interface,
            decreases n - i,
        {
            if self.capabilities[i] == interface {
                return Some(interface);
            }
            i = i + 1;
        }
        None
    }
}

/// The feature registry: one ordered collection of features, keyed by
/// name. Its entries are reachable only through the registry's own
/// operations, so the lifecycle rules cannot be sidestepped.
pub struct FeatureRegistry {
    entries: Vec<FeatureEntry>,
}

/// The registry's model: its entries in registration order.
pub closed spec fn reg_view(r: &FeatureRegistry) -> Seq<FeatureEntryView> {
    r.entries@.map_values(|e: FeatureEntry| e@)
}

/// A successful lookup: position `i` holds the first feature under the
/// name, it is enabled, and it was not gated off.
pub open spec fn found_enabled_at(rv: Seq<FeatureEntryView>, name: Seq<char>, i: int) -> bool {
    &&& 0 <= i < rv.len()
    &&& rv[i].name == name
    &&& rv[i].enabled
    &&& !(rv[i].state is Skipped)
    &&& forall|j: int| 0 <= j < i ==> (#[trigger] rv[j]).name != name
}

/// Every feature name appears at most once: what registration enforces,
/// every later operation preserves.
pub open spec fn unique_names(rv: Seq<FeatureEntryView>) -> bool {
    forall|a: int, b: int|
        0 <= a < b < rv.len() ==> (#[trigger] rv[a]).name != (#[trigger] rv[b]).name
}

/// True when the handed features can join the held ones: no handed name
/// clashes with a held one, and the handed names are unique among
/// themselves.
pub open spec fn appendable(base: Seq<FeatureEntryView>, more: Seq<FeatureEntryView>) -> bool {
    &&& forall|a: int, b: int|
        0 <= a < more.len() && 0 <= b < base.len() ==> (#[trigger] more[a]).name != (
        #[trigger] base[b]).name
    &&& unique_names(more)
}

/// A lookup answered "disabled": the first feature under the name is
/// turned off by its own configuration or was gated off for this run.
pub open spec fn first_match_unavailable(rv: Seq<FeatureEntryView>, name: Seq<char>) -> bool {
    exists|i: int|
        0 <= i < rv.len() && (#[trigger] rv[i]).name == name && (!rv[i].enabled || rv[i].state
            is Skipped) && (forall|j: int| 0 <= j < i ==> (#[trigger] rv[j]).name != name)
}

impl FeatureRegistry {
    /// An empty registry.
    pub fn new() -> (r: Self)
        ensures
            reg_view(&r).len() == 0,
    {
        FeatureRegistry { entries: Vec::new() }
    }

    /// How many features are registered.
    pub fn count(&self) -> (r: usize)
        ensures
            r == reg_view(self).len(),
    {
        self.entries.len()
    }

    /// Registers a feature at build time. Names must be unique: a second
    /// feature under an existing name is refused and the registry is left
    /// unchanged.
    pub fn register(&mut self, name: String, enabled: bool, capabilities: Vec<u64>) -> (r: Result<
        (),
        Error,
    >)
        ensures
            match r {
                Ok(()) => (forall|j: int|
                    0 <= j < reg_view(old(self)).len() ==> (#[trigger] reg_view(old(self))[j]).name
                        != name@) && reg_view(final(self)) == reg_view(old(self)).push(
                    FeatureEntryView {
                        name: name@,
                        enabled: enabled,
                        capabilities: capabilities@,
                        state: FeatureState::Registered,
                    },
                ),
                Err(e) => (exists|j: int|
                    0 <= j < reg_view(old(self)).len() && (#[trigger] reg_view(old(self))[j]).name
                        == name@) && reg_view(final(self)) == reg_view(old(self)) && e@
                    == ErrorView::BuilderFailed("duplicated feature name"@),
            },
            unique_names(reg_view(old(self))) ==> unique_names(reg_view(final(self))),
    {
        let n = self.entries.len();
        let mut i: usize = 0;
        while i < n
            invariant
                i <= n,
                n == reg_view(self).len(),
                forall|j: int| 0 <= j < i ==> (#[trigger] reg_view(self)[j]).name != name@,
            decreases n - i,
        {
            if crate::text::str_eq(self.entries[i].name.as_str(), name.as_str()) {
                proof {
                    assert(reg_view(self)[i as int].name == name@);
                }
                return Err(Error::BuilderFailed(String::from_str("duplicated feature name")));
            }
            i = i + 1;
        }
        let ghost before = reg_view(self);
        self.entries.push(
            FeatureEntry { name, enabled, capabilities, state: FeatureState::Registered },
        );
        proof {
            assert(reg_view(self) =~= before.push(reg_view(self).last()));
        }
        Ok(())
    }

    /// Takes another registry's features into this one, after the ones
    /// already held and in the other's order. Names must stay unique: a
    /// clash with an existing name, or within the handed features, is
    /// refused and this registry is left unchanged.
    pub fn append(&mut self, other: FeatureRegistry) -> (r: Result<(), Error>)
        ensures
            match r {
                Ok(()) => appendable(reg_view(old(self)), reg_view(&other)) && reg_view(
                    final(self),
                ) == reg_view(old(self)) + reg_view(&other),
                Err(e) => !appendable(reg_view(old(self)), reg_view(&other)) && reg_view(
                    final(self),
                ) == reg_view(old(self)) && e@ == ErrorView::BuilderFailed(
                    "duplicated feature name"@,
                ),
            },
            unique_names(reg_view(old(self))) && r is Ok ==> unique_names(reg_view(final(self))),
    {
        let ghost base = reg_view(self);
        let ghost more = reg_view(&other);
        let m = other.entries.len();
        let n = self.entries.len();
        let mut i: usize = 0;
        while i < m
            invariant
                i <= m,
                m == more.len(),
                n == base.len(),
                base == reg_view(self),
                more == reg_view(&other),
                forall|a: int, b: int|
                    0 <= a < i && 0 <= b < base.len() ==> (#[trigger] more[a]).name != (
                    #[trigger] base[b]).name,
                forall|a: int, b: int|
                    0 <= b < a < i ==> (#[trigger] more[a]).name != (#[trigger] more[b]).name,
            decreases m - i,
        {
            let mut j: usize = 0;
            while j < n
                invariant
                    j <= n,
                    i < m,
                    m == more.len(),
                    n == base.len(),
                    base == reg_view(self),
                    more == reg_view(&other),
                    forall|b: int| 0 <= b < j ==> (#[trigger] base[b]).name != more[i as int].name,
                decreases n - j,
            {
                if crate::text::str_eq(
                    other.entries[i].name.as_str(),
                    self.entries[j].name.as_str(),
                ) {
                    proof {
                        assert(more[i as int].name == base[j as int].name);
                    }
                    return Err(
                        Error::BuilderFailed(String::from_str("duplicated feature name")),
                    );
                }
                j = j + 1;
            }
            let mut k: usize = 0;
            while k < i
                invariant
                    k <= i < m,
                    m == more.len(),
                    more == reg_view(&other),
                    forall|b: int| 0 <= b < k ==> (#[trigger] more[b]).name != more[i as int].name,
                decreases i - k,
            {
                if crate::text::str_eq(
                    other.entries[i].name.as_str(),
                    other.entries[k].name.as_str(),
                ) {
                    proof {
                        assert(more[i as int].name == more[k as int].name);
                    }
                    return Err(
                        Error::BuilderFailed(String::from_str("duplicated feature name")),
                    );
                }
                k = k + 1;
            }
            i = i + 1;
        }
        let mut other = other;
        self.entries.append(&mut other.entries);
        proof {
            assert(reg_view(self) =~= base + more);
            if unique_names(base) {
                assert forall|a: int, b: int|
                    0 <= a < b < reg_view(self).len() implies (#[trigger] reg_view(self)[a]).name
                    != (#[trigger] reg_view(self)[b]).name by {
                    if a < base.len() && b >= base.len() {
                        assert(reg_view(self)[a] == base[a]);
                        assert(reg_view(self)[b] == more[b - base.len()]);
                    } else if a >= base.len() {
                        assert(reg_view(self)[a] == more[a - base.len()]);
                        assert(reg_view(self)[b] == more[b - base.len()]);
                    }
                }
            }
        }
        Ok(())
    }

    /// Records the outcome of one feature's gate, evaluated in
    /// registration order during startup, and says whether the feature
    /// may initialize: only a feature whose gate held may. One whose gate
    /// did not hold is marked skipped and leaves the lifecycle for good.
    pub fn gate_decision(&mut self, i: usize, gate_passed: bool) -> (r: bool)
        requires
            i < reg_view(old(self)).len(),
            (reg_view(old(self))[i as int].state is Registered),
        ensures
            r == gate_passed,
            reg_view(final(self)).len() == reg_view(old(self)).len(),
            reg_view(final(self))[i as int] == (FeatureEntryView {
                state: if gate_passed {
                    FeatureState::Active
                } else {
                    FeatureState::Skipped
                },
                ..reg_view(old(self))[i as int]
            }),
            forall|j: int|
                0 <= j < reg_view(old(self)).len() && j != i ==> reg_view(final(self))[j]
                    == reg_view(old(self))[j],
    {
        if gate_passed {
            self.entries[i].state = FeatureState::Active;
        } else {
            self.entries[i].state = FeatureState::Skipped;
        }
        gate_passed
    }

    /// Resolves a feature by name for a caller that requires enablement.
    /// Not-found and disabled are distinct answers: a feature can be
    /// registered yet turned off by its own configuration, or gated off for
    /// this run; both are reported as disabled, never as a found handle.
    pub fn feature(&self, name: &str) -> (r: Result<usize, Error>)
        ensures
            match r {
                Ok(i) => found_enabled_at(reg_view(self), name@, i as int),
                Err(e) => match e@ {
                    ErrorView::FeatureNotFound(n) => n == name@ && (forall|j: int|
                        0 <= j < reg_view(self).len() ==> (#[trigger] reg_view(self)[j]).name
                            != name@),
                    ErrorView::FeatureDisabled(n) => n == name@ && first_match_unavailable(
                        reg_view(self),
                        name@,
                    ),
                    _ => false,
                },
            },
    {
        let n = self.entries.len();
        let mut i: usize = 0;
        while i < n
            invariant
                i <= n,
                n == reg_view(self).len(),
                forall|j: int| 0 <= j < i ==> (#[trigger] reg_view(self)[j]).name != name@,
            decreases n - i,
        {
            if crate::text::str_eq(self.entries[i].name.as_str(), name) {
                proof {
                    assert(reg_view(self)[i as int].name == name@);
                }
                let enabled = self.entries[i].enabled;
                let skipped = match self.entries[i].state {
                    FeatureState::Skipped => true,
                    _ => false,
                };
                if !enabled || skipped {
                    return Err(Error::FeatureDisabled(String::from_str(name)));
                }
                return Ok(i);
            }
            i = i + 1;
        }
        Err(Error::FeatureNotFound(String::from_str(name)))
    }

    /// Narrows the feature at a handle to one capability interface: the
    /// narrowing yields something exactly when that feature declares the
    /// interface. The capability is reachable only through its owning
    /// feature's handle; the registry itself indexes by name alone.
    pub fn narrow(&self, i: usize, interface: u64) -> (r: Option<u64>)
        requires
            i < reg_view(self).len(),
        ensures
            r == if reg_view(self)[i as int].capabilities.contains(interface) {
                Some(interface)
            } else {
                None::<u64>
            },
    {
        self.entries[i].narrow(interface)
    }

    /// The features owed a cleanup call at shutdown, in registration order:
    /// exactly those that are enabled and were initialized. A feature whose
    /// gate failed, or that is disabled, is never cleaned up.
    pub fn cleanup_list(&self) -> (r: Vec<usize>)
        ensures
            forall|a: int, b: int| 0 <= a < b < r@.len() ==> r@[a] < r@[b],
            forall|a: int| 0 <= a < r@.len() ==> (#[trigger] r@[a]) < reg_view(self).len(),
            forall|j: int|
                0 <= j < reg_view(self).len() ==> (r@.contains(j as usize) <==> (
                #[trigger] reg_view(self)[j]).state is Active && reg_view(self)[j].enabled),
    {
        let n = self.entries.len();
        let mut out: Vec<usize> = Vec::new();
        let mut i: usize = 0;
        while i < n
            invariant
                i <= n,
                n == reg_view(self).len(),
                forall|a: int, b: int| 0 <= a < b < out@.len() ==> out@[a] < out@[b],
                forall|a: int| 0 <= a < out@.len() ==> (#[trigger] out@[a]) < i,
                forall|j: int|
                    0 <= j < i ==> (out@.contains(j as usize) <==> (
                    #[trigger] reg_view(self)[j]).state is Active && reg_view(self)[j].enabled),
            decreases n - i,
        {
            let active = match self.entries[i].state {
                FeatureState::Active => true,
                _ => false,
            };
            if active && self.entries[i].enabled {
                let ghost before = out@;
                out.push(i);
                proof {
                    assert(out@ =~= before.push(i as usize));
                    assert(out@[before.len() as int] == i as usize);
                    assert(out@.contains(i as usize));
                    assert forall|j: int| 0 <= j < i implies ((#[trigger] before.contains(
                        j as usize,
                    )) <==> out@.contains(j as usize)) by {
                        if before.contains(j as usize) {
                            let k = choose|k: int|
                                0 <= k < before.len() && before[k] == j as usize;
                            assert(out@[k] == j as usize);
                            assert(out@.contains(j as usize));
                        }
                        if out@.contains(j as usize) {
                            let k = choose|k: int| 0 <= k < out@.len() && out@[k] == j as usize;
                            assert(k != before.len() as int);
                            assert(before[k] == j as usize);
                            assert(before.contains(j as usize));
                        }
                    };
                }
            }
            i = i + 1;
        }
        out
    }
}

} // verus!
