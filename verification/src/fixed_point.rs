//! Stability classification at a fixed point of the RG flow.
//!
//! Each eigenvalue of the linearised flow classifies one direction of
//! parameter space as relevant (grows), irrelevant (shrinks) or marginal.
//! This module holds the classified directions of a fixed point and counts
//! them; the number of relevant directions is the codimension of the
//! critical surface.
use vstd::prelude::*;

verus! {

/// Classification of RG flow directions.
#[derive(Clone, Copy, Debug, PartialEq, Eq, Structural)]
pub enum DirectionClass {
    /// Eigenvalue > 1: grows under RG (destabilizes at large scale)
    Relevant,
    /// Eigenvalue < 1: shrinks under RG (irrelevant at large scale)
    Irrelevant,
    /// Eigenvalue ≈ 1: needs higher-order analysis
    Marginal,
}

/// A fixed point of the RG flow, described by the class of each direction
/// of its stability matrix (one per eigenvalue, in eigenvalue order).
#[derive(Debug)]
pub struct FixedPoint {
    /// Class of the direction of each eigenvalue
    pub directions: Vec<DirectionClass>,
}

/// Number of directions of class `c` in `dirs`.
pub open spec fn count_class(dirs: Seq<DirectionClass>, c: DirectionClass) -> nat
    decreases dirs.len(),
{
    if dirs.len() == 0 {
        0
    } else {
        count_class(dirs.drop_last(), c) + if dirs.last() == c {
            1nat
        } else {
            0nat
        }
    }
}

/// The class of direction `index`: marginal when there is no such direction.
pub open spec fn direction_at(dirs: Seq<DirectionClass>, index: int) -> DirectionClass {
    if 0 <= index < dirs.len() {
        dirs[index]
    } else {
        DirectionClass::Marginal
    }
}

/// Every direction is relevant, irrelevant or marginal: the three counts add
/// up to the number of directions.
pub proof fn lemma_direction_counts_partition(dirs: Seq<DirectionClass>)
    ensures
        count_class(dirs, DirectionClass::Relevant) + count_class(dirs, DirectionClass::Irrelevant)
            + count_class(dirs, DirectionClass::Marginal) == dirs.len(),
    decreases dirs.len(),
{
    if dirs.len() > 0 {
        lemma_direction_counts_partition(dirs.drop_last());
    }
}

/// The count of a class is the number of indices at which that class stands.
pub proof fn lemma_count_class_is_index_count(dirs: Seq<DirectionClass>, c: DirectionClass)
    ensures
        count_class(dirs, c) == Set::new(|i: int| 0 <= i < dirs.len() && dirs[i] == c).len(),
        Set::new(|i: int| 0 <= i < dirs.len() && dirs[i] == c).finite(),
    decreases dirs.len(),
{
    let s = Set::new(|i: int| 0 <= i < dirs.len() && dirs[i] == c);
    if dirs.len() == 0 {
        assert(s =~= Set::empty());
    } else {
        let d = dirs.drop_last();
        lemma_count_class_is_index_count(d, c);
        let s0 = Set::new(|i: int| 0 <= i < d.len() && d[i] == c);
        let last = dirs.len() - 1;
        if dirs.last() == c {
            assert(s =~= s0.insert(last));
        } else {
            assert(s =~= s0);
        }
    }
}

/// Classifying every direction gives back the stored classes, in order:
/// classification neither changes nor reorders a direction's class.
pub proof fn lemma_classify_recovers_directions(dirs: Seq<DirectionClass>)
    ensures
        Seq::new(dirs.len(), |i: int| direction_at(dirs, i)) == dirs,
{
    assert(Seq::new(dirs.len(), |i: int| direction_at(dirs, i)) =~= dirs);
}

/// The number of directions of a class is the number of indices that
/// classify as that class; the relevant count is the codimension.
pub proof fn lemma_counts_match_classification(dirs: Seq<DirectionClass>, c: DirectionClass)
    ensures
        count_class(dirs, c) == Set::new(|i: int| 0 <= i < dirs.len() && direction_at(dirs, i) == c).len(),
{
    lemma_count_class_is_index_count(dirs, c);
    assert(Set::new(|i: int| 0 <= i < dirs.len() && direction_at(dirs, i) == c) =~= Set::new(
        |i: int| 0 <= i < dirs.len() && dirs[i] == c,
    ));
}

/// A direction appended to a fixed point's list classifies as itself, and
/// the classes of the earlier directions are unchanged.
pub proof fn lemma_classify_after_push(dirs: Seq<DirectionClass>, d: DirectionClass, i: int)
    ensures
        direction_at(dirs.push(d), dirs.len() as int) == d,
        0 <= i < dirs.len() ==> direction_at(dirs.push(d), i) == direction_at(dirs, i),
        direction_at(dirs, dirs.len() as int) == DirectionClass::Marginal,
{
}

/// Appending one direction adds one to the count of its class only.
proof fn lemma_count_class_push(dirs: Seq<DirectionClass>, d: DirectionClass, c: DirectionClass)
    ensures
        count_class(dirs.push(d), c) == count_class(dirs, c) + if d == c {
            1nat
        } else {
            0nat
        },
{
    assert(dirs.push(d).drop_last() =~= dirs);
}

/// Number of directions in `dirs[0..len]` of class `c`, counted by a loop.
fn count_directions(dirs: &Vec<DirectionClass>, c: DirectionClass) -> (count: usize)
    ensures
        count == count_class(dirs@, c),
{
    let mut count: usize = 0;
    let mut i: usize = 0;
    while i < dirs.len()
        invariant
            i <= dirs@.len(),
            count == count_class(dirs@.subrange(0, i as int), c),
            count <= i,
        decreases dirs@.len() - i,
    {
        proof {
            lemma_count_class_push(dirs@.subrange(0, i as int), dirs@[i as int], c);
            assert(dirs@.subrange(0, i as int).push(dirs@[i as int]) =~= dirs@.subrange(
                0,
                i + 1,
            ));
        }
        if dirs[i] == c {
            count = count + 1;
        }
        i = i + 1;
    }
    assert(dirs@.subrange(0, i as int) =~= dirs@);
    count
}

impl FixedPoint {
    /// Classify a direction as relevant, irrelevant or marginal; an index past
    /// the last direction is marginal.
    pub fn classify_direction(&self, index: usize) -> (c: DirectionClass)
        ensures
            c == direction_at(self.directions@, index as int),
            index < self.directions@.len() ==> c == self.directions@[index as int],
            index >= self.directions@.len() ==> c == DirectionClass::Marginal,
    {
        if index >= self.directions.len() {
            return DirectionClass::Marginal;
        }
        self.directions[index]
    }

    /// Count the number of relevant directions.
    pub fn n_relevant(&self) -> (n: usize)
        ensures
            n == count_class(self.directions@, DirectionClass::Relevant),
    {
        count_directions(&self.directions, DirectionClass::Relevant)
    }

    /// Count the number of irrelevant directions.
    pub fn n_irrelevant(&self) -> (n: usize)
        ensures
            n == count_class(self.directions@, DirectionClass::Irrelevant),
    {
        count_directions(&self.directions, DirectionClass::Irrelevant)
    }

    /// The number of relevant directions equals the codimension of the
    /// critical surface.
    pub fn codimension(&self) -> (n: usize)
        ensures
            n == count_class(self.directions@, DirectionClass::Relevant),
    {
        self.n_relevant()
    }
}

/// The decimal digits of `n`, most significant first.
pub open spec fn decimal(n: nat) -> Seq<char>
    decreases n,
{
    if n < 10 {
        seq![digit_char(n)]
    } else {
        decimal(n / 10).push(digit_char(n % 10))
    }
}

/// The character of a decimal digit.
pub open spec fn digit_char(d: nat) -> char {
    if d == 0 {
        '0'
    } else if d == 1 {
        '1'
    } else if d == 2 {
        '2'
    } else if d == 3 {
        '3'
    } else if d == 4 {
        '4'
    } else if d == 5 {
        '5'
    } else if d == 6 {
        '6'
    } else if d == 7 {
        '7'
    } else if d == 8 {
        '8'
    } else {
        '9'
    }
}

/// The name of parameter `i`: "param_" followed by `i` in decimal.
pub open spec fn param_name(i: nat) -> Seq<char> {
    "param_"@ + decimal(i)
}

fn digit_str(d: usize) -> (s: &'static str)
    requires
        d < 10,
    ensures
        s@ == seq![digit_char(d as nat)],
{
    if d == 0 {
        proof { reveal_strlit("0"); }
        "0"
    } else if d == 1 {
        proof { reveal_strlit("1"); }
        "1"
    } else if d == 2 {
        proof { reveal_strlit("2"); }
        "2"
    } else if d == 3 {
        proof { reveal_strlit("3"); }
        "3"
    } else if d == 4 {
        proof { reveal_strlit("4"); }
        "4"
    } else if d == 5 {
        proof { reveal_strlit("5"); }
        "5"
    } else if d == 6 {
        proof { reveal_strlit("6"); }
        "6"
    } else if d == 7 {
        proof { reveal_strlit("7"); }
        "7"
    } else if d == 8 {
        proof { reveal_strlit("8"); }
        "8"
    } else {
        proof { reveal_strlit("9"); }
        "9"
    }
}

fn push_decimal(s: &mut String, n: usize)
    ensures
        final(s)@ == old(s)@ + decimal(n as nat),
    decreases n,
{
    if n >= 10 {
        push_decimal(s, n / 10);
    }
    s.append(digit_str(n % 10));
    proof {
        if n >= 10 {
            assert(decimal(n as nat) == decimal((n / 10) as nat).push(digit_char((n % 10) as nat)));
        }
    }
}

/// Labels for `n` parameters: "param_0", "param_1", ..., in order.
pub fn param_names(n: usize) -> (names: Vec<String>)
    ensures
        names@.len() == n,
        forall|i: int| 0 <= i < n ==> (#[trigger] names@[i])@ == param_name(i as nat),
{
    let mut names: Vec<String> = Vec::new();
    let mut i: usize = 0;
    while i < n
        invariant
            i <= n,
            names@.len() == i,
            forall|j: int| 0 <= j < i ==> (#[trigger] names@[j])@ == param_name(j as nat),
        decreases n - i,
    {
        let mut name = String::from_str("param_");
        push_decimal(&mut name, i);
        names.push(name);
        i = i + 1;
    }
    names
}

} // verus!
