//! System requirements and their most-restrictive merge.
//!
//! Each requirement dimension — minimum Linux kernel, minimum macOS, minimum
//! CUDA, and libc family/version — is either unset ("no constraint") or a
//! minimum version. Merging two requirement sets keeps, per dimension, the
//! most restrictive constraint; an unset dimension never loosens an explicit
//! constraint of the other side. When the two sides name different libc
//! families the family that orders last under a fixed family order is kept,
//! so that the merge stays total, commutative and associative.

use vstd::prelude::*;

use crate::version::{
    lemma_seq_le_antisymmetric, lemma_seq_le_total, lemma_seq_le_transitive,
    lemma_seq_max_associative, lemma_seq_max_commutative, seq_le, seq_max, VersionNumber,
};

verus! {

/// The family a libc requirement speaks of.
#[derive(Clone, Copy, Debug, PartialEq, Eq, Structural)]
pub enum LibCFamily {
    Glibc,
    Musl,
}

/// A minimum libc requirement: a family together with a minimum version.
#[derive(Debug, PartialEq)]
pub struct LibCRequirement {
    pub family: LibCFamily,
    pub version: VersionNumber,
}

/// The mathematical value of a libc requirement.
#[verifier::ext_equal]
pub ghost struct LibCReqView {
    pub family: LibCFamily,
    pub version: Seq<u64>,
}

impl View for LibCRequirement {
    type V = LibCReqView;

    open spec fn view(&self) -> LibCReqView {
        LibCReqView { family: self.family, version: self.version@ }
    }
}

/// The system requirements of an environment or of a merged group.
#[derive(Debug, PartialEq)]
pub struct SystemRequirements {
    pub linux: Option<VersionNumber>,
    pub macos: Option<VersionNumber>,
    pub cuda: Option<VersionNumber>,
    pub libc: Option<LibCRequirement>,
}

/// The mathematical value of a requirement set.
#[verifier::ext_equal]
pub ghost struct ReqView {
    pub linux: Option<Seq<u64>>,
    pub macos: Option<Seq<u64>>,
    pub cuda: Option<Seq<u64>>,
    pub libc: Option<LibCReqView>,
}

pub open spec fn opt_version_view(o: Option<VersionNumber>) -> Option<Seq<u64>> {
    match o {
        Some(v) => Some(v@),
        None => None,
    }
}

pub open spec fn opt_libc_view(o: Option<LibCRequirement>) -> Option<LibCReqView> {
    match o {
        Some(l) => Some(l@),
        None => None,
    }
}

impl View for SystemRequirements {
    type V = ReqView;

    open spec fn view(&self) -> ReqView {
        ReqView {
            linux: opt_version_view(self.linux),
            macos: opt_version_view(self.macos),
            cuda: opt_version_view(self.cuda),
            libc: opt_libc_view(self.libc),
        }
    }
}

impl ReqView {
    /// The requirement set that constrains nothing.
    pub open spec fn unconstrained() -> ReqView {
        ReqView { linux: None, macos: None, cuda: None, libc: None }
    }

    /// Every version named in the set has at least one component.
    pub open spec fn wf(self) -> bool {
        &&& (self.linux matches Some(v) ==> v.len() >= 1)
        &&& (self.macos matches Some(v) ==> v.len() >= 1)
        &&& (self.cuda matches Some(v) ==> v.len() >= 1)
        &&& (self.libc matches Some(l) ==> l.version.len() >= 1)
    }
}

/// The fixed order of libc families, used only to break ties between
/// requirement sets that name different families.
pub open spec fn family_rank(f: LibCFamily) -> int {
    match f {
        LibCFamily::Glibc => 0,
        LibCFamily::Musl => 1,
    }
}

/// Order on libc requirements: by family first, then by minimum version.
pub open spec fn libc_le(a: LibCReqView, b: LibCReqView) -> bool {
    family_rank(a.family) < family_rank(b.family) || (family_rank(a.family) == family_rank(b.family)
        && seq_le(a.version, b.version))
}

/// The more restrictive of two libc requirements.
pub open spec fn libc_max(a: LibCReqView, b: LibCReqView) -> LibCReqView {
    if libc_le(b, a) {
        a
    } else {
        b
    }
}

/// The more restrictive of two optional minimum versions.
pub open spec fn opt_version_max(a: Option<Seq<u64>>, b: Option<Seq<u64>>) -> Option<Seq<u64>> {
    match (a, b) {
        (Some(x), Some(y)) => Some(seq_max(x, y)),
        (Some(x), None) => Some(x),
        (None, y) => y,
    }
}

/// The more restrictive of two optional libc requirements.
pub open spec fn opt_libc_max(a: Option<LibCReqView>, b: Option<LibCReqView>) -> Option<
    LibCReqView,
> {
    match (a, b) {
        (Some(x), Some(y)) => Some(libc_max(x, y)),
        (Some(x), None) => Some(x),
        (None, y) => y,
    }
}

/// The most restrictive merge of two requirement sets, dimension by dimension.
pub open spec fn union_view(a: ReqView, b: ReqView) -> ReqView {
    ReqView {
        linux: opt_version_max(a.linux, b.linux),
        macos: opt_version_max(a.macos, b.macos),
        cuda: opt_version_max(a.cuda, b.cuda),
        libc: opt_libc_max(a.libc, b.libc),
    }
}

proof fn lemma_libc_le_total(a: LibCReqView, b: LibCReqView)
    ensures
        libc_le(a, b) || libc_le(b, a),
{
    lemma_seq_le_total(a.version, b.version);
}

proof fn lemma_libc_le_antisymmetric(a: LibCReqView, b: LibCReqView)
    requires
        libc_le(a, b),
        libc_le(b, a),
    ensures
        a == b,
{
    assert(family_rank(a.family) == family_rank(b.family));
    assert(a.family == b.family);
    lemma_seq_le_antisymmetric(a.version, b.version);
    assert(a =~= b);
}

proof fn lemma_libc_max_commutative(a: LibCReqView, b: LibCReqView)
    ensures
        libc_max(a, b) == libc_max(b, a),
{
    lemma_libc_le_total(a, b);
    if libc_le(a, b) && libc_le(b, a) {
        lemma_libc_le_antisymmetric(a, b);
    }
}

proof fn lemma_libc_le_transitive(a: LibCReqView, b: LibCReqView, c: LibCReqView)
    requires
        libc_le(a, b),
        libc_le(b, c),
    ensures
        libc_le(a, c),
{
    if family_rank(a.family) == family_rank(b.family) && family_rank(b.family) == family_rank(
        c.family,
    ) {
        lemma_seq_le_transitive(a.version, b.version, c.version);
    }
}

proof fn lemma_libc_max_associative(a: LibCReqView, b: LibCReqView, c: LibCReqView)
    ensures
        libc_max(libc_max(a, b), c) == libc_max(a, libc_max(b, c)),
{
    lemma_libc_le_total(a, b);
    lemma_libc_le_total(b, c);
    lemma_libc_le_total(a, c);
    if libc_le(b, a) && libc_le(c, b) {
        lemma_libc_le_transitive(c, b, a);
    }
    if !libc_le(b, a) && !libc_le(c, b) {
        lemma_libc_le_transitive(a, b, c);
        if libc_le(c, a) {
            lemma_libc_le_transitive(b, c, a);
            lemma_libc_le_antisymmetric(a, b);
        }
    }
}

/// Merging requirement sets does not depend on the argument order.
pub proof fn lemma_union_commutative(a: ReqView, b: ReqView)
    ensures
        union_view(a, b) == union_view(b, a),
{
    if a.linux is Some && b.linux is Some {
        lemma_seq_max_commutative(a.linux->0, b.linux->0);
    }
    if a.macos is Some && b.macos is Some {
        lemma_seq_max_commutative(a.macos->0, b.macos->0);
    }
    if a.cuda is Some && b.cuda is Some {
        lemma_seq_max_commutative(a.cuda->0, b.cuda->0);
    }
    if a.libc is Some && b.libc is Some {
        lemma_libc_max_commutative(a.libc->0, b.libc->0);
    }
    assert(union_view(a, b) =~= union_view(b, a));
}

/// Merging requirement sets is associative.
pub proof fn lemma_union_associative(a: ReqView, b: ReqView, c: ReqView)
    ensures
        union_view(union_view(a, b), c) == union_view(a, union_view(b, c)),
{
    if a.linux is Some && b.linux is Some && c.linux is Some {
        lemma_seq_max_associative(a.linux->0, b.linux->0, c.linux->0);
    }
    if a.macos is Some && b.macos is Some && c.macos is Some {
        lemma_seq_max_associative(a.macos->0, b.macos->0, c.macos->0);
    }
    if a.cuda is Some && b.cuda is Some && c.cuda is Some {
        lemma_seq_max_associative(a.cuda->0, b.cuda->0, c.cuda->0);
    }
    if a.libc is Some && b.libc is Some && c.libc is Some {
        lemma_libc_max_associative(a.libc->0, b.libc->0, c.libc->0);
    }
    assert(union_view(union_view(a, b), c) =~= union_view(a, union_view(b, c)));
}

/// An unconstrained side never changes the other side's requirements: a
/// constraint of one member stands even when another member is unconstrained.
pub proof fn lemma_union_unconstrained_identity(a: ReqView)
    ensures
        union_view(a, ReqView::unconstrained()) == a,
        union_view(ReqView::unconstrained(), a) == a,
{
    assert(union_view(a, ReqView::unconstrained()) =~= a);
    assert(union_view(ReqView::unconstrained(), a) =~= a);
}

fn duplicate_opt_version(o: &Option<VersionNumber>) -> (r: Option<VersionNumber>)
    ensures
        opt_version_view(r) == opt_version_view(*o),
{
    match o {
        Some(v) => Some(v.duplicate()),
        None => None,
    }
}

fn opt_version_max_exec(a: &Option<VersionNumber>, b: &Option<VersionNumber>) -> (r: Option<
    VersionNumber,
>)
    ensures
        opt_version_view(r) == opt_version_max(opt_version_view(*a), opt_version_view(*b)),
{
    match (a, b) {
        (Some(x), Some(y)) => Some(crate::version::version_max(x, y)),
        (Some(x), None) => Some(x.duplicate()),
        (None, Some(y)) => Some(y.duplicate()),
        (None, None) => None,
    }
}

fn libc_rank(f: &LibCFamily) -> (r: u64)
    ensures
        r as int == family_rank(*f),
{
    match f {
        LibCFamily::Glibc => 0,
        LibCFamily::Musl => 1,
    }
}

fn libc_le_exec(a: &LibCRequirement, b: &LibCRequirement) -> (r: bool)
    ensures
        r == libc_le(a@, b@),
{
    let ra = libc_rank(&a.family);
    let rb = libc_rank(&b.family);
    if ra < rb {
        true
    } else if ra > rb {
        false
    } else {
        crate::version::version_le(&a.version, &b.version)
    }
}

fn duplicate_libc(l: &LibCRequirement) -> (r: LibCRequirement)
    ensures
        r@ == l@,
{
    LibCRequirement { family: l.family, version: l.version.duplicate() }
}

fn opt_libc_max_exec(a: &Option<LibCRequirement>, b: &Option<LibCRequirement>) -> (r: Option<
    LibCRequirement,
>)
    ensures
        opt_libc_view(r) == opt_libc_max(opt_libc_view(*a), opt_libc_view(*b)),
{
    match (a, b) {
        (Some(x), Some(y)) => {
            if libc_le_exec(y, x) {
                Some(duplicate_libc(x))
            } else {
                Some(duplicate_libc(y))
            }
        },
        (Some(x), None) => Some(duplicate_libc(x)),
        (None, Some(y)) => Some(duplicate_libc(y)),
        (None, None) => None,
    }
}

impl SystemRequirements {
    /// Every version in the set has at least one component.
    pub open spec fn wf(&self) -> bool {
        self@.wf()
    }

    /// The requirement set that constrains nothing.
    pub fn unconstrained() -> (r: SystemRequirements)
        ensures
            r@ == ReqView::unconstrained(),
            r.wf(),
    {
        SystemRequirements { linux: None, macos: None, cuda: None, libc: None }
    }

    /// Returns a requirement set equal to this one.
    pub fn duplicate(&self) -> (r: SystemRequirements)
        ensures
            r@ == self@,
    {
        let libc = match &self.libc {
            Some(l) => Some(duplicate_libc(l)),
            None => None,
        };
        let r = SystemRequirements {
            linux: duplicate_opt_version(&self.linux),
            macos: duplicate_opt_version(&self.macos),
            cuda: duplicate_opt_version(&self.cuda),
            libc,
        };
        proof {
            assert(r@ =~= self@);
        }
        r
    }

    /// Decides whether the set is well-formed: every version it names has at
    /// least one component.
    pub fn check_wf(&self) -> (r: bool)
        ensures
            r == self.wf(),
    {
        let linux_ok = match &self.linux {
            Some(v) => v.parts.len() >= 1,
            None => true,
        };
        let macos_ok = match &self.macos {
            Some(v) => v.parts.len() >= 1,
            None => true,
        };
        let cuda_ok = match &self.cuda {
            Some(v) => v.parts.len() >= 1,
            None => true,
        };
        let libc_ok = match &self.libc {
            Some(l) => l.version.parts.len() >= 1,
            None => true,
        };
        linux_ok && macos_ok && cuda_ok && libc_ok
    }

    /// The most restrictive merge of this set with another.
    pub fn union(&self, other: &SystemRequirements) -> (r: SystemRequirements)
        ensures
            r@ == union_view(self@, other@),
    {
        let r = SystemRequirements {
            linux: opt_version_max_exec(&self.linux, &other.linux),
            macos: opt_version_max_exec(&self.macos, &other.macos),
            cuda: opt_version_max_exec(&self.cuda, &other.cuda),
            libc: opt_libc_max_exec(&self.libc, &other.libc),
        };
        proof {
            assert(r@ =~= union_view(self@, other@));
        }
        r
    }
}

/// A merged set is well-formed whenever both inputs are.
pub proof fn lemma_union_wf(a: ReqView, b: ReqView)
    requires
        a.wf(),
        b.wf(),
    ensures
        union_view(a, b).wf(),
{
}

} // verus!
