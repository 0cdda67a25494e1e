//! Minimum-version constraints.
//!
//! A version is a non-empty sequence of numeric components. Versions are
//! ordered lexicographically: the first differing component decides, and a
//! version that is a proper prefix of another orders before it. This order is
//! total, so "the most restrictive of two minimum versions" is simply the
//! larger one.

use vstd::prelude::*;

verus! {

/// A version given as its numeric components, e.g. `10.15` as `[10, 15]`.
#[derive(Debug, PartialEq)]
pub struct VersionNumber {
    pub parts: Vec<u64>,
}

impl View for VersionNumber {
    type V = Seq<u64>;

    open spec fn view(&self) -> Seq<u64> {
        self.parts@
    }
}

impl VersionNumber {
    /// A version must have at least one component.
    pub open spec fn wf(&self) -> bool {
        self@.len() >= 1
    }

    /// Builds a version from its components.
    pub fn new(parts: Vec<u64>) -> (r: VersionNumber)
        requires
            parts@.len() >= 1,
        ensures
            r@ == parts@,
            r.wf(),
    {
        VersionNumber { parts }
    }

    /// Returns a version equal to this one.
    pub fn duplicate(&self) -> (r: VersionNumber)
        ensures
            r@ == self@,
    {
        let mut parts: Vec<u64> = Vec::new();
        let mut i: usize = 0;
        while i < self.parts.len()
            invariant
                i <= self.parts.len(),
                parts@ == self.parts@.take(i as int),
            decreases self.parts.len() - i,
        {
            parts.push(self.parts[i]);
            i += 1;
        }
        proof {
            assert(parts@ =~= self.parts@);
        }
        VersionNumber { parts }
    }
}

/// Lexicographic order on component sequences; a proper prefix orders first.
pub open spec fn seq_le(a: Seq<u64>, b: Seq<u64>) -> bool
    decreases a.len(),
{
    if a.len() == 0 {
        true
    } else if b.len() == 0 {
        false
    } else if a[0] < b[0] {
        true
    } else if a[0] > b[0] {
        false
    } else {
        seq_le(a.drop_first(), b.drop_first())
    }
}

/// The larger, i.e. more restrictive, of two versions.
pub open spec fn seq_max(a: Seq<u64>, b: Seq<u64>) -> Seq<u64> {
    if seq_le(b, a) {
        a
    } else {
        b
    }
}

/// The version order is total: of any two versions one is below the other.
pub proof fn lemma_seq_le_total(a: Seq<u64>, b: Seq<u64>)
    ensures
        seq_le(a, b) || seq_le(b, a),
    decreases a.len(),
{
    if a.len() == 0 || b.len() == 0 {
    } else if a[0] == b[0] {
        lemma_seq_le_total(a.drop_first(), b.drop_first());
    }
}

/// The version order is antisymmetric: versions below each other are equal.
pub proof fn lemma_seq_le_antisymmetric(a: Seq<u64>, b: Seq<u64>)
    requires
        seq_le(a, b),
        seq_le(b, a),
    ensures
        a == b,
    decreases a.len(),
{
    if a.len() == 0 {
        assert(b.len() == 0);
        assert(a =~= b);
    } else {
        assert(b.len() > 0);
        assert(a[0] == b[0]);
        lemma_seq_le_antisymmetric(a.drop_first(), b.drop_first());
        assert(a.len() == b.len());
        assert forall|i: int| 0 <= i < a.len() implies a[i] == b[i] by {
            if i > 0 {
                assert(a[i] == a.drop_first()[i - 1]);
                assert(b[i] == b.drop_first()[i - 1]);
            }
        }
        assert(a =~= b);
    }
}

/// The version order is transitive.
pub proof fn lemma_seq_le_transitive(a: Seq<u64>, b: Seq<u64>, c: Seq<u64>)
    requires
        seq_le(a, b),
        seq_le(b, c),
    ensures
        seq_le(a, c),
    decreases a.len(),
{
    if a.len() == 0 || b.len() == 0 || c.len() == 0 {
    } else if a[0] == b[0] && b[0] == c[0] {
        lemma_seq_le_transitive(a.drop_first(), b.drop_first(), c.drop_first());
    }
}

/// Taking the more restrictive version does not depend on the argument order.
pub proof fn lemma_seq_max_commutative(a: Seq<u64>, b: Seq<u64>)
    ensures
        seq_max(a, b) == seq_max(b, a),
{
    lemma_seq_le_total(a, b);
    if seq_le(a, b) && seq_le(b, a) {
        lemma_seq_le_antisymmetric(a, b);
    }
}

/// Taking the more restrictive version is associative.
pub proof fn lemma_seq_max_associative(a: Seq<u64>, b: Seq<u64>, c: Seq<u64>)
    ensures
        seq_max(seq_max(a, b), c) == seq_max(a, seq_max(b, c)),
{
    lemma_seq_le_total(a, b);
    lemma_seq_le_total(b, c);
    lemma_seq_le_total(a, c);
    if seq_le(b, a) && seq_le(c, b) {
        lemma_seq_le_transitive(c, b, a);
    }
    if !seq_le(b, a) && !seq_le(c, b) {
        lemma_seq_le_transitive(a, b, c);
        if seq_le(c, a) {
            lemma_seq_le_transitive(b, c, a);
            lemma_seq_le_antisymmetric(a, b);
        }
    }
}

/// Compares two component sequences, starting at component `i`.
fn seq_le_from(a: &Vec<u64>, b: &Vec<u64>, i: usize) -> (r: bool)
    requires
        i <= a@.len(),
        i <= b@.len(),
    ensures
        r == seq_le(a@.skip(i as int), b@.skip(i as int)),
    decreases a@.len() - i,
{
    proof {
        if i < a@.len() && i < b@.len() {
            assert(a@.skip(i as int)[0] == a@[i as int]);
            assert(b@.skip(i as int)[0] == b@[i as int]);
            assert(a@.skip(i as int).drop_first() =~= a@.skip(i + 1));
            assert(b@.skip(i as int).drop_first() =~= b@.skip(i + 1));
        } else if i == a@.len() {
            assert(a@.skip(i as int).len() == 0);
        } else {
            assert(a@.skip(i as int).len() > 0);
            assert(b@.skip(i as int).len() == 0);
        }
    }
    if i == a.len() {
        true
    } else if i == b.len() {
        false
    } else if a[i] < b[i] {
        true
    } else if a[i] > b[i] {
        false
    } else {
        seq_le_from(a, b, i + 1)
    }
}

/// Decides whether `a` is at most as restrictive as `b`.
pub fn version_le(a: &VersionNumber, b: &VersionNumber) -> (r: bool)
    ensures
        r == seq_le(a@, b@),
{
    proof {
        assert(a.parts@.skip(0) =~= a.parts@);
        assert(b.parts@.skip(0) =~= b.parts@);
    }
    seq_le_from(&a.parts, &b.parts, 0)
}

/// The more restrictive of two versions.
pub fn version_max(a: &VersionNumber, b: &VersionNumber) -> (r: VersionNumber)
    ensures
        r@ == seq_max(a@, b@),
{
    if version_le(b, a) {
        a.duplicate()
    } else {
        b.duplicate()
    }
}

} // verus!
