//! The grouped environment: the canonical unit of resolution.
//!
//! A grouped environment is either a solve group of at least two members or
//! a standalone environment. Canonical form is an invariant of every
//! construction path: a solve group with a single member collapses to that
//! member, and an environment whose solve group has at least two members
//! widens to the group. Two grouped environments are equal exactly when they
//! denote the same canonical variant over the same workspace datum, which is
//! what downstream consumers deduplicate resolution units by.

use vstd::prelude::*;

use crate::conda::{generic_virtual_package_of, make_generic_virtual_package, valid_package_name};
use crate::names::GroupedEnvironmentName;
use crate::prefix::Prefix;
use crate::requirements::{lemma_union_wf, union_view, ReqView, SystemRequirements};
use crate::version::VersionNumber;
use crate::virtual_packages::{
    minimal_virtual_packages, minimal_virtual_packages_view, virtual_package_name,
    virtual_package_version, Platform, VirtualPackage,
};
use crate::workspace::Workspace;

verus! {

/// Either a solve group or an individual environment without a solve group,
/// referring into a workspace by index.
///
/// If a solve group only contains a single environment it is treated as a
/// single environment, not as a solve group.
#[derive(Clone, Copy, Debug, PartialEq, Eq, Hash, Structural)]
pub enum GroupedEnvironment {
    Group(usize),
    Environment(usize),
}

/// The most restrictive merge of the system requirements of `members`.
pub open spec fn merged_of(ws: &Workspace, members: Seq<usize>) -> ReqView
    decreases members.len(),
{
    if members.len() == 0 {
        ReqView::unconstrained()
    } else {
        union_view(
            merged_of(ws, members.drop_last()),
            ws.environments@[members.last() as int].system_requirements@,
        )
    }
}

/// The concatenation of the members' feature-name lists, in member order.
pub open spec fn features_of(ws: &Workspace, members: Seq<usize>) -> Seq<Seq<char>>
    decreases members.len(),
{
    if members.len() == 0 {
        Seq::empty()
    } else {
        features_of(ws, members.drop_last()) + ws.environments@[members.last() as int].features.deep_view()
    }
}

impl GroupedEnvironment {
    /// Canonical form over a workspace: a `Group` names a solve group of at
    /// least two members; an `Environment` names an environment that is
    /// ungrouped or whose solve group has exactly one member.
    pub open spec fn wf(&self, ws: &Workspace) -> bool {
        match *self {
            GroupedEnvironment::Group(g) => g < ws.group_count()
                && ws.solve_groups@[g as int].members@.len() >= 2,
            GroupedEnvironment::Environment(e) => e < ws.env_count() && match ws.environments@[e as int].solve_group {
                Some(g) => ws.solve_groups@[g as int].members@.len() == 1,
                None => true,
            },
        }
    }

    /// What constructing from environment `e` yields: the environment's solve
    /// group when that group has at least two members, else the environment.
    pub open spec fn spec_from_environment(ws: &Workspace, e: int) -> GroupedEnvironment {
        match ws.environments@[e].solve_group {
            Some(g) => if ws.solve_groups@[g as int].members@.len() >= 2 {
                GroupedEnvironment::Group(g)
            } else {
                GroupedEnvironment::Environment(e as usize)
            },
            None => GroupedEnvironment::Environment(e as usize),
        }
    }

    /// What constructing from solve group `g` yields: the group when it has
    /// at least two members, else its sole member.
    pub open spec fn spec_from_solve_group(ws: &Workspace, g: int) -> GroupedEnvironment {
        if ws.solve_groups@[g].members@.len() >= 2 {
            GroupedEnvironment::Group(g as usize)
        } else {
            GroupedEnvironment::Environment(ws.solve_groups@[g].members@[0])
        }
    }

    /// Constructs the grouped environment of environment `env`.
    pub fn from_environment(ws: &Workspace, env: usize) -> (r: GroupedEnvironment)
        requires
            ws.wf(),
            env < ws.env_count(),
        ensures
            r == GroupedEnvironment::spec_from_environment(ws, env as int),
            r.wf(ws),
    {
        match ws.environments[env].solve_group {
            Some(g) => {
                if ws.solve_groups[g].members.len() >= 2 {
                    GroupedEnvironment::Group(g)
                } else {
                    GroupedEnvironment::Environment(env)
                }
            },
            None => GroupedEnvironment::Environment(env),
        }
    }

    /// Constructs the grouped environment of solve group `g`. A group with
    /// no members cannot occur in a well-formed workspace.
    pub fn from_solve_group(ws: &Workspace, g: usize) -> (r: GroupedEnvironment)
        requires
            ws.wf(),
            g < ws.group_count(),
        ensures
            r == GroupedEnvironment::spec_from_solve_group(ws, g as int),
            r.wf(ws),
    {
        if ws.solve_groups[g].members.len() >= 2 {
            GroupedEnvironment::Group(g)
        } else {
            let m = ws.solve_groups[g].members[0];
            GroupedEnvironment::Environment(m)
        }
    }

    /// Resolves a grouped-environment name against a workspace. Returns the
    /// canonical grouped environment of the named solve group or environment,
    /// or `None` exactly when the workspace knows no such name.
    pub fn from_name(ws: &Workspace, name: &GroupedEnvironmentName) -> (r: Option<
        GroupedEnvironment,
    >)
        requires
            ws.wf(),
        ensures
            r == GroupedEnvironment::spec_from_name(ws, *name),
            (r matches Some(ge) ==> ge.wf(ws)),
            (name matches GroupedEnvironmentName::Group(s) ==> (r is Some
                <==> ws.spec_find_solve_group(s@) is Some)),
            (name matches GroupedEnvironmentName::Environment(n) ==> (r is Some
                <==> ws.spec_find_environment(n.chars()) is Some)),
    {
        match name {
            GroupedEnvironmentName::Group(s) => match ws.find_solve_group(s.as_str()) {
                Some(g) => Some(GroupedEnvironment::from_solve_group(ws, g)),
                None => None,
            },
            GroupedEnvironmentName::Environment(n) => match ws.find_environment(n.as_str()) {
                Some(e) => Some(GroupedEnvironment::from_environment(ws, e)),
                None => None,
            },
        }
    }

    /// What `from_name` yields.
    pub open spec fn spec_from_name(ws: &Workspace, name: GroupedEnvironmentName) -> Option<
        GroupedEnvironment,
    > {
        match name {
            GroupedEnvironmentName::Group(s) => match ws.spec_find_solve_group(s@) {
                Some(g) => Some(GroupedEnvironment::spec_from_solve_group(ws, g as int)),
                None => None,
            },
            GroupedEnvironmentName::Environment(n) => match ws.spec_find_environment(n.chars()) {
                Some(e) => Some(GroupedEnvironment::spec_from_environment(ws, e as int)),
                None => None,
            },
        }
    }

    /// The member environments of the unit: the group's members in declared
    /// order, or the one wrapped environment.
    pub open spec fn member_seq(&self, ws: &Workspace) -> Seq<usize> {
        match *self {
            GroupedEnvironment::Group(g) => ws.solve_groups@[g as int].members@,
            GroupedEnvironment::Environment(e) => seq![e],
        }
    }

    /// Every member is an environment of the workspace.
    pub proof fn lemma_members_valid(&self, ws: &Workspace)
        requires
            ws.wf(),
            self.wf(ws),
        ensures
            self.member_seq(ws).len() >= 1,
            forall|j: int|
                0 <= j < self.member_seq(ws).len() ==> (#[trigger] self.member_seq(ws)[j])
                    < ws.env_count(),
    {
    }

    /// Returns all member environments of the unit, by index, in order;
    /// never empty.
    pub fn environments(&self, ws: &Workspace) -> (r: Vec<usize>)
        requires
            ws.wf(),
            self.wf(ws),
        ensures
            r@ == self.member_seq(ws),
            r@.len() >= 1,
    {
        match self {
            GroupedEnvironment::Group(g) => {
                let members = &ws.solve_groups[*g].members;
                let mut r: Vec<usize> = Vec::new();
                let mut i: usize = 0;
                while i < members.len()
                    invariant
                        i <= members@.len(),
                        r@ == members@.take(i as int),
                    decreases members@.len() - i,
                {
                    r.push(members[i]);
                    i += 1;
                }
                proof {
                    assert(r@ =~= members@);
                }
                r
            },
            GroupedEnvironment::Environment(e) => {
                let mut r: Vec<usize> = Vec::new();
                r.push(*e);
                proof {
                    assert(r@ =~= self.member_seq(ws));
                }
                r
            },
        }
    }

    /// The directory of the unit's prefix: the group's shared directory, or
    /// the environment's own.
    pub open spec fn spec_dir(&self, ws: &Workspace) -> Seq<char> {
        match *self {
            GroupedEnvironment::Group(g) => ws.solve_groups@[g as int].dir@,
            GroupedEnvironment::Environment(e) => ws.environments@[e as int].dir@,
        }
    }

    /// Returns the directory where the prefix of this unit is stored.
    pub fn dir(&self, ws: &Workspace) -> (r: String)
        requires
            ws.wf(),
            self.wf(ws),
        ensures
            r@ == self.spec_dir(ws),
    {
        match self {
            GroupedEnvironment::Group(g) => ws.solve_groups[*g].dir.clone(),
            GroupedEnvironment::Environment(e) => ws.environments[*e].dir.clone(),
        }
    }

    /// Returns the prefix of this unit: a pure wrapping of its directory.
    pub fn prefix(&self, ws: &Workspace) -> (r: Prefix)
        requires
            ws.wf(),
            self.wf(ws),
        ensures
            r.root@ == self.spec_dir(ws),
    {
        Prefix::new(self.dir(ws))
    }

    /// The name of the unit, mirroring its variant.
    pub open spec fn spec_name(&self, ws: &Workspace) -> GroupedEnvironmentName {
        match *self {
            GroupedEnvironment::Group(g) => GroupedEnvironmentName::Group(
                ws.solve_groups@[g as int].name,
            ),
            GroupedEnvironment::Environment(e) => GroupedEnvironmentName::Environment(
                ws.environments@[e as int].name,
            ),
        }
    }

    /// Returns the name of the unit.
    pub fn name(&self, ws: &Workspace) -> (r: GroupedEnvironmentName)
        requires
            ws.wf(),
            self.wf(ws),
        ensures
            r == self.spec_name(ws),
    {
        match self {
            GroupedEnvironment::Group(g) => GroupedEnvironmentName::Group(
                ws.solve_groups[*g].name.clone(),
            ),
            GroupedEnvironment::Environment(e) => GroupedEnvironmentName::Environment(
                ws.environments[*e].name.duplicate(),
            ),
        }
    }

    /// The most restrictive merge of all members' system requirements.
    pub open spec fn merged_requirements(&self, ws: &Workspace) -> ReqView {
        merged_of(ws, self.member_seq(ws))
    }

    /// Returns the system requirements of the unit: for a group, the union —
    /// the most restrictive merge — of all member environments' requirements;
    /// for a single environment, a set equal to its own.
    pub fn system_requirements(&self, ws: &Workspace) -> (r: SystemRequirements)
        requires
            ws.wf(),
            self.wf(ws),
        ensures
            r@ == self.merged_requirements(ws),
            r.wf(),
    {
        proof {
            self.lemma_members_valid(ws);
        }
        let members = self.environments(ws);
        let mut acc = SystemRequirements::unconstrained();
        let mut i: usize = 0;
        while i < members.len()
            invariant
                ws.wf(),
                self.wf(ws),
                members@ == self.member_seq(ws),
                i <= members@.len(),
                forall|j: int|
                    0 <= j < members@.len() ==> (#[trigger] members@[j]) < ws.env_count(),
                acc@ == merged_of(ws, members@.take(i as int)),
                acc.wf(),
            decreases members@.len() - i,
        {
            let e = members[i];
            let next = acc.union(&ws.environments[e].system_requirements);
            proof {
                let taken = members@.take(i + 1);
                assert(taken.drop_last() =~= members@.take(i as int));
                assert(taken.last() == members@[i as int]);
                lemma_union_wf(acc@, ws.environments@[e as int].system_requirements@);
            }
            acc = next;
            i += 1;
        }
        proof {
            assert(members@.take(members@.len() as int) =~= members@);
        }
        acc
    }

    /// Returns the feature names of the unit: the concatenation, in member
    /// order and without deduplication, of each member's own features.
    pub fn features(&self, ws: &Workspace) -> (r: Vec<String>)
        requires
            ws.wf(),
            self.wf(ws),
        ensures
            r.deep_view() == features_of(ws, self.member_seq(ws)),
    {
        proof {
            self.lemma_members_valid(ws);
        }
        let members = self.environments(ws);
        let mut r: Vec<String> = Vec::new();
        let mut i: usize = 0;
        while i < members.len()
            invariant
                ws.wf(),
                self.wf(ws),
                members@ == self.member_seq(ws),
                i <= members@.len(),
                forall|j: int|
                    0 <= j < members@.len() ==> (#[trigger] members@[j]) < ws.env_count(),
                r.deep_view() == features_of(ws, members@.take(i as int)),
            decreases members@.len() - i,
        {
            let e = members[i];
            let env_features = &ws.environments[e].features;
            let mut j: usize = 0;
            while j < env_features.len()
                invariant
                    i < members@.len(),
                    members@[i as int] == e,
                    e < ws.env_count(),
                    env_features == &ws.environments@[e as int].features,
                    j <= env_features@.len(),
                    r.deep_view() == features_of(ws, members@.take(i as int))
                        + env_features.deep_view().take(j as int),
                decreases env_features@.len() - j,
            {
                let ghost old_r = r;
                r.push(env_features[j].clone());
                proof {
                    assert(r@ =~= old_r@.push(env_features@[j as int]));
                    assert(r.deep_view() =~= old_r.deep_view().push(
                        env_features@[j as int]@,
                    ));
                    assert(env_features.deep_view().take(j + 1) =~= env_features.deep_view().take(
                        j as int,
                    ).push(env_features@[j as int]@));
                    assert(r.deep_view() =~= features_of(ws, members@.take(i as int))
                        + env_features.deep_view().take(j + 1));
                }
                j += 1;
            }
            proof {
                let taken = members@.take(i + 1);
                assert(taken.drop_last() =~= members@.take(i as int));
                assert(taken.last() == members@[i as int]);
                assert(env_features.deep_view().take(env_features@.len() as int)
                    =~= env_features.deep_view());
            }
            i += 1;
        }
        proof {
            assert(members@.take(members@.len() as int) =~= members@);
        }
        r
    }

    /// Returns the channel configuration of the unit: the owning workspace's,
    /// identical for every unit of one workspace.
    pub fn channel_config<'a>(&self, ws: &'a Workspace) -> (r: &'a rattler_conda_types::ChannelConfig)
        ensures
            *r == ws.channel_config,
    {
        ws.channel_config()
    }

    /// Returns the virtual packages implied by the unit's merged system
    /// requirements on the given platform, in the conda representation: one
    /// record per minimal virtual package, built from its name, its version
    /// and build string `0`.
    pub fn virtual_packages(&self, ws: &Workspace, platform: Platform) -> (r: Vec<
        rattler_conda_types::GenericVirtualPackage,
    >)
        requires
            ws.wf(),
            self.wf(ws),
        ensures
            ({
                let mv = minimal_virtual_packages_view(self.merged_requirements(ws), platform);
                r@.len() == mv.len() && forall|k: int|
                    0 <= k < mv.len() ==> r@[k] == generic_virtual_package_of(
                        virtual_package_name(#[trigger] mv[k]),
                        virtual_package_version(mv[k]),
                        "0"@,
                    )
            }),
    {
        let reqs = self.system_requirements(ws);
        let mv = minimal_virtual_packages(&reqs, platform);
        let ghost mv_view = minimal_virtual_packages_view(self.merged_requirements(ws), platform);
        let mut r: Vec<rattler_conda_types::GenericVirtualPackage> = Vec::new();
        let mut i: usize = 0;
        while i < mv.len()
            invariant
                mv@.map_values(|v: VirtualPackage| v@) == mv_view,
                forall|j: int|
                    0 <= j < mv@.len() ==> virtual_package_version(#[trigger] mv@[j]@).len() >= 1,
                i <= mv@.len(),
                r@.len() == i,
                forall|k: int|
                    0 <= k < i ==> r@[k] == generic_virtual_package_of(
                        virtual_package_name(#[trigger] mv_view[k]),
                        virtual_package_version(mv_view[k]),
                        "0"@,
                    ),
            decreases mv@.len() - i,
        {
            let vp = &mv[i];
            let (name, version): (&str, VersionNumber) = match vp {
                VirtualPackage::Unix => ("__unix", VersionNumber::new(vec![0u64])),
                VirtualPackage::Linux { version } => ("__linux", version.duplicate()),
                VirtualPackage::LibC { family, version } => (
                    match family {
                        crate::requirements::LibCFamily::Glibc => "__glibc",
                        crate::requirements::LibCFamily::Musl => "__musl",
                    },
                    version.duplicate(),
                ),
                VirtualPackage::Osx { version } => ("__osx", version.duplicate()),
                VirtualPackage::Win => ("__win", VersionNumber::new(vec![0u64])),
                VirtualPackage::Cuda { version } => ("__cuda", version.duplicate()),
            };
            proof {
                assert(mv_view[i as int] == mv@[i as int]@);
                lemma_virtual_package_names_valid();
                assert(name@ == virtual_package_name(mv@[i as int]@));
                assert(version@ == virtual_package_version(mv@[i as int]@));
            }
            let record = make_generic_virtual_package(name, &version, "0");
            proof {
                assert(valid_package_name(name@));
                assert(name@.len() >= 1);
                assert(version@.len() >= 1);
                assert(record is Some);
            }
            r.push(record.unwrap());
            i += 1;
        }
        r
    }
}

/// The names the virtual packages use are valid conda package names.
proof fn lemma_virtual_package_names_valid()
    ensures
        valid_package_name("__unix"@) && "__unix"@.len() >= 1,
        valid_package_name("__linux"@) && "__linux"@.len() >= 1,
        valid_package_name("__glibc"@) && "__glibc"@.len() >= 1,
        valid_package_name("__musl"@) && "__musl"@.len() >= 1,
        valid_package_name("__osx"@) && "__osx"@.len() >= 1,
        valid_package_name("__win"@) && "__win"@.len() >= 1,
        valid_package_name("__cuda"@) && "__cuda"@.len() >= 1,
{
    reveal_strlit("__unix");
    reveal_strlit("__linux");
    reveal_strlit("__glibc");
    reveal_strlit("__musl");
    reveal_strlit("__osx");
    reveal_strlit("__win");
    reveal_strlit("__cuda");
    lemma_all_name_chars_valid("__unix"@);
    lemma_all_name_chars_valid("__linux"@);
    lemma_all_name_chars_valid("__glibc"@);
    lemma_all_name_chars_valid("__musl"@);
    lemma_all_name_chars_valid("__osx"@);
    lemma_all_name_chars_valid("__win"@);
    lemma_all_name_chars_valid("__cuda"@);
}

/// A sequence of lowercase letters and underscores is a valid package name.
proof fn lemma_all_name_chars_valid(s: Seq<char>)
    requires
        forall|i: int|
            0 <= i < s.len() ==> #[trigger] s[i] == '_' || ('a' <= s[i] && s[i] <= 'z'),
    ensures
        valid_package_name(s),
    decreases s.len(),
{
    if s.len() > 0 {
        assert(crate::conda::valid_name_char(s[0]));
        assert forall|i: int| 0 <= i < s.drop_first().len() implies #[trigger] s.drop_first()[i]
            == '_' || ('a' <= s.drop_first()[i] && s.drop_first()[i] <= 'z') by {
            assert(s.drop_first()[i] == s[i + 1]);
        }
        lemma_all_name_chars_valid(s.drop_first());
    }
}

/// Canonicalization idempotence: a solve group with exactly one member and
/// that sole member environment construct the same grouped environment.
pub proof fn lemma_singleton_group_collapses(ws: &Workspace, g: usize)
    requires
        ws.wf(),
        (g as int) < ws.group_count(),
        ws.solve_groups@[g as int].members@.len() == 1,
    ensures
        GroupedEnvironment::spec_from_solve_group(ws, g as int)
            == GroupedEnvironment::spec_from_environment(
            ws,
            ws.solve_groups@[g as int].members@[0] as int,
        ),
{
    let m = ws.solve_groups@[g as int].members@[0];
    assert(m < ws.env_count() && ws.environments@[m as int].solve_group == Some(g));
}

/// Aggregation order-independence: merging the system requirements of two
/// members yields the same result regardless of member order.
pub proof fn lemma_merge_pair_order_independent(ws: &Workspace, a: usize, b: usize)
    requires
        (a as int) < ws.env_count(),
        (b as int) < ws.env_count(),
    ensures
        merged_of(ws, seq![a, b]) == merged_of(ws, seq![b, a]),
{
    let ra = ws.environments@[a as int].system_requirements@;
    let rb = ws.environments@[b as int].system_requirements@;
    assert(seq![a, b].drop_last() =~= seq![a]);
    assert(seq![b, a].drop_last() =~= seq![b]);
    assert(seq![a].drop_last() =~= Seq::<usize>::empty());
    assert(seq![b].drop_last() =~= Seq::<usize>::empty());
    crate::requirements::lemma_union_unconstrained_identity(ra);
    crate::requirements::lemma_union_unconstrained_identity(rb);
    crate::requirements::lemma_union_commutative(ra, rb);
    assert(merged_of(ws, Seq::<usize>::empty()) == ReqView::unconstrained());
    assert(merged_of(ws, seq![a]) == ra);
    assert(merged_of(ws, seq![b]) == rb);
    assert(seq![a, b].last() == b && seq![b, a].last() == a);
    assert(merged_of(ws, seq![a, b]) == union_view(ra, rb));
    assert(merged_of(ws, seq![b, a]) == union_view(rb, ra));
}

/// Round trip of identity: resolving a canonical grouped environment's name
/// against the same workspace returns the grouped environment itself.
pub proof fn lemma_name_round_trip(ws: &Workspace, ge: GroupedEnvironment)
    requires
        ws.wf(),
        ge.wf(ws),
    ensures
        GroupedEnvironment::spec_from_name(ws, ge.spec_name(ws)) == Some(ge),
{
    match ge {
        GroupedEnvironment::Group(g) => {
            let chars = ws.solve_groups@[g as int].name@;
            assert(0 <= g < ws.group_count() && ws.solve_groups@[g as int].name@ == chars);
            let g2 = choose|x: int|
                0 <= x < ws.group_count() && (#[trigger] ws.solve_groups@[x]).name@ == chars;
            assert(g2 == g as int);
        },
        GroupedEnvironment::Environment(e) => {
            let chars = ws.environments@[e as int].name.chars();
            assert(0 <= e < ws.env_count() && ws.environments@[e as int].name.chars() == chars);
            let e2 = choose|x: int|
                0 <= x < ws.env_count() && (#[trigger] ws.environments@[x]).name.chars() == chars;
            assert(e2 == e as int);
        },
    }
}

} // verus!
