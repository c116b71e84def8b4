//! Universality classes and the name lookup of their critical exponents.
//!
//! A universality class carries a list of named critical exponents. Looking
//! an exponent up takes the first one with the name; two classes are compared
//! exponent by exponent, pairing each exponent of the first with the
//! exponent of the same name in the second. The values are of any copyable
//! type `V`, so that what decides equality of values stays with the caller.
use vstd::prelude::*;

verus! {

/// A single critical exponent.
#[derive(Debug)]
pub struct CriticalExponent<V> {
    /// Name of the exponent (α, β, γ, δ, ν, η)
    pub name: String,
    /// Numerical value
    pub value: V,
    /// Description of what this exponent characterizes
    pub description: String,
}

/// A universality class defined by its critical exponents.
#[derive(Debug)]
pub struct UniversalityClass<V> {
    /// Name of the universality class
    pub name: String,
    /// Critical exponents
    pub exponents: Vec<CriticalExponent<V>>,
    /// Spatial dimension
    pub dimension: usize,
    /// Number of order parameter components (n)
    pub n_components: usize,
    /// Description
    pub description: String,
}

/// A "microscopic" fleet model that can be classified into a universality class.
#[derive(Debug)]
pub struct FleetModel<V> {
    /// Name of the model
    pub name: String,
    /// Parameters
    pub parameters: Vec<V>,
    /// Topology type
    pub topology: String,
}

/// The value of the first exponent in `exps` named `name`, if any.
pub open spec fn lookup<V>(exps: Seq<CriticalExponent<V>>, name: Seq<char>) -> Option<V>
    decreases exps.len(),
{
    if exps.len() == 0 {
        None
    } else if exps[0].name@ == name {
        Some(exps[0].value)
    } else {
        lookup(exps.drop_first(), name)
    }
}

/// The pairs (own value, other's value of the same name) that comparing the
/// exponents of `mine` with those of `theirs` looks at, or `None` when the
/// numbers of exponents differ or one of `mine` has no namesake in `theirs`.
pub open spec fn exponent_pairing<V>(
    mine: Seq<CriticalExponent<V>>,
    theirs: Seq<CriticalExponent<V>>,
) -> Option<Seq<(V, V)>> {
    if mine.len() == theirs.len() && forall|i: int|
        0 <= i < mine.len() ==> #[trigger] lookup(theirs, mine[i].name@) is Some {
        Some(Seq::new(mine.len(), |i: int| (mine[i].value, lookup(theirs, mine[i].name@)->0)))
    } else {
        None
    }
}

/// The names of the exponents are pairwise distinct.
pub open spec fn distinct_names<V>(exps: Seq<CriticalExponent<V>>) -> bool {
    forall|i: int, j: int|
        0 <= i < exps.len() && 0 <= j < exps.len() && i != j ==> exps[i].name@ != exps[j].name@
}

/// When the names are distinct, looking up the name of exponent `i` finds exponent `i`.
pub proof fn lemma_lookup_finds_own_name<V>(exps: Seq<CriticalExponent<V>>, i: int)
    requires
        distinct_names(exps),
        0 <= i < exps.len(),
    ensures
        lookup(exps, exps[i].name@) == Some(exps[i].value),
    decreases exps.len(),
{
    if i > 0 {
        let rest = exps.drop_first();
        assert(distinct_names(rest)) by {
            assert forall|a: int, b: int|
                0 <= a < rest.len() && 0 <= b < rest.len() && a != b implies rest[a].name@
                != rest[b].name@ by {
                assert(rest[a] == exps[a + 1]);
                assert(rest[b] == exps[b + 1]);
            }
        }
        assert(exps[0].name@ != exps[i].name@);
        lemma_lookup_finds_own_name(rest, i - 1);
    }
}

/// A class compared with itself (names distinct) pairs each exponent with
/// itself; so does a copy of it that only has another name or description.
pub proof fn lemma_self_pairing<V>(exps: Seq<CriticalExponent<V>>)
    requires
        distinct_names(exps),
    ensures
        exponent_pairing(exps, exps) == Some(
            Seq::new(exps.len(), |i: int| (exps[i].value, exps[i].value)),
        ),
{
    assert forall|i: int| 0 <= i < exps.len() implies #[trigger] lookup(exps, exps[i].name@) is Some by {
        lemma_lookup_finds_own_name(exps, i);
    }
    let p = Seq::new(exps.len(), |i: int| (exps[i].value, lookup(exps, exps[i].name@)->0));
    let q = Seq::new(exps.len(), |i: int| (exps[i].value, exps[i].value));
    assert forall|i: int| 0 <= i < exps.len() implies p[i] == q[i] by {
        lemma_lookup_finds_own_name(exps, i);
    }
    assert(p =~= q);
}

impl<V: Copy> UniversalityClass<V> {
    /// Get a critical exponent by name: the first exponent with that name.
    pub fn exponent(&self, name: &str) -> (value: Option<V>)
        ensures
            value == lookup(self.exponents@, name@),
    {
        let target = String::from_str(name);
        assert(self.exponents@.skip(0) =~= self.exponents@);
        let mut i: usize = 0;
        while i < self.exponents.len()
            invariant
                i <= self.exponents@.len(),
                target@ == name@,
                lookup(self.exponents@, name@) == lookup(self.exponents@.skip(i as int), name@),
            decreases self.exponents@.len() - i,
        {
            let ghost rest = self.exponents@.skip(i as int);
            if self.exponents[i].name == target {
                return Some(self.exponents[i].value);
            }
            assert(rest.drop_first() =~= self.exponents@.skip(i + 1));
            i = i + 1;
        }
        None
    }

    /// Pair each exponent of this class with the exponent of the same name in
    /// `other`, as a comparison of the two classes looks at them; `None` when
    /// the classes have different numbers of exponents or an exponent of this
    /// class has no namesake in `other` (the classes then differ).
    pub fn exponent_pairs(&self, other: &UniversalityClass<V>) -> (pairs: Option<Vec<(V, V)>>)
        ensures
            match pairs {
                Some(p) => exponent_pairing(self.exponents@, other.exponents@) == Some(p@),
                None => exponent_pairing(self.exponents@, other.exponents@) is None,
            },
    {
        if self.exponents.len() != other.exponents.len() {
            return None;
        }
        let mut pairs: Vec<(V, V)> = Vec::new();
        let mut i: usize = 0;
        while i < self.exponents.len()
            invariant
                i <= self.exponents@.len(),
                self.exponents@.len() == other.exponents@.len(),
                pairs@.len() == i,
                forall|j: int|
                    0 <= j < i ==> #[trigger] lookup(other.exponents@, self.exponents@[j].name@) is Some
                        && pairs@[j] == (
                        self.exponents@[j].value,
                        lookup(other.exponents@, self.exponents@[j].name@)->0,
                    ),
            decreases self.exponents@.len() - i,
        {
            match other.exponent(self.exponents[i].name.as_str()) {
                Some(v) => {
                    pairs.push((self.exponents[i].value, v));
                },
                None => {
                    return None;
                },
            }
            i = i + 1;
        }
        assert(pairs@ =~= Seq::new(
            self.exponents@.len(),
            |j: int| (self.exponents@[j].value, lookup(other.exponents@, self.exponents@[j].name@)->0),
        ));
        Some(pairs)
    }
}

impl<V> FleetModel<V> {
    /// A fleet model with the given name, parameters and topology.
    pub fn new(name: &str, parameters: Vec<V>, topology: &str) -> (model: Self)
        ensures
            model.name@ == name@,
            model.parameters@ == parameters@,
            model.topology@ == topology@,
    {
        FleetModel {
            name: String::from_str(name),
            parameters,
            topology: String::from_str(topology),
        }
    }
}

} // verus!
