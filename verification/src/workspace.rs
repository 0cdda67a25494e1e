//! The workspace: the read-only data the grouped-environment view is built
//! over.
//!
//! A workspace owns its environments and solve groups; grouped environments
//! refer to them by index. Well-formedness captures what the manifest layer
//! guarantees: every solve group has at least one member, membership and the
//! environments' back-references agree, and names are unique across
//! environments and solve groups together.

use vstd::prelude::*;

use crate::names::EnvironmentName;
use crate::requirements::SystemRequirements;

verus! {

/// A named, independently installable unit built from a set of features.
#[derive(Debug)]
pub struct Environment {
    pub name: EnvironmentName,
    /// The names of the features the environment is built from, in order.
    pub features: Vec<String>,
    /// The directory the environment's prefix lives in.
    pub dir: String,
    /// The solve group the environment belongs to, if any, as an index into
    /// the workspace's solve groups.
    pub solve_group: Option<usize>,
    pub system_requirements: SystemRequirements,
}

/// A set of environments declared to resolve together.
#[derive(Debug)]
pub struct SolveGroup {
    pub name: String,
    /// The directory the group's shared prefix lives in.
    pub dir: String,
    /// The group's members, in declared order, as indices into the
    /// workspace's environments.
    pub members: Vec<usize>,
}

/// The top-level project configuration: all environments and solve groups,
/// and the configuration shared by every environment in the workspace.
#[derive(Debug)]
pub struct Workspace {
    /// All environments, in declared order; the default environment comes
    /// first.
    pub environments: Vec<Environment>,
    /// All solve groups, in declared order.
    pub solve_groups: Vec<SolveGroup>,
    /// The channel configuration, shared by the whole workspace.
    pub channel_config: rattler_conda_types::ChannelConfig,
}

/// Checks whether a member list holds an environment index.
fn members_contain(members: &Vec<usize>, e: usize) -> (r: bool)
    ensures
        r == members@.contains(e),
{
    let mut i: usize = 0;
    while i < members.len()
        invariant
            i <= members@.len(),
            forall|j: int| 0 <= j < i ==> members@[j] != e,
        decreases members@.len() - i,
    {
        if members[i] == e {
            return true;
        }
        i += 1;
    }
    false
}

impl Workspace {
    pub open spec fn env_count(&self) -> int {
        self.environments@.len() as int
    }

    pub open spec fn group_count(&self) -> int {
        self.solve_groups@.len() as int
    }

    /// What the manifest layer guarantees of a loaded workspace.
    pub open spec fn wf(&self) -> bool {
        &&& self.env_count() >= 1
        &&& self.environments@[0].name is Default
        &&& forall|e: int|
            0 <= e < self.env_count() ==> (#[trigger] self.environments@[e]).system_requirements.wf()
        &&& forall|e: int|
            0 <= e < self.env_count() ==> ((#[trigger] self.environments@[e]).solve_group
                matches Some(g) ==> 0 <= g < self.group_count()
                && self.solve_groups@[g as int].members@.contains(e as usize))
        &&& forall|g: int|
            0 <= g < self.group_count() ==> (#[trigger] self.solve_groups@[g]).members@.len() >= 1
        &&& forall|g: int, j: int|
            0 <= g < self.group_count() && 0 <= j < self.solve_groups@[g].members@.len()
                ==> (#[trigger] self.solve_groups@[g].members@[j]) < self.env_count()
                && self.environments@[self.solve_groups@[g].members@[j] as int].solve_group
                == Some(g as usize)
        &&& forall|g: int, j: int, k: int|
            0 <= g < self.group_count() && 0 <= j < self.solve_groups@[g].members@.len() && 0 <= k
                < self.solve_groups@[g].members@.len() && j != k ==> (
            #[trigger] self.solve_groups@[g].members@[j]) != (
            #[trigger] self.solve_groups@[g].members@[k])
        &&& forall|e1: int, e2: int|
            0 <= e1 < self.env_count() && 0 <= e2 < self.env_count() && e1 != e2 ==> (
            #[trigger] self.environments@[e1]).name.chars() != (
            #[trigger] self.environments@[e2]).name.chars()
        &&& forall|g1: int, g2: int|
            0 <= g1 < self.group_count() && 0 <= g2 < self.group_count() && g1 != g2 ==> (
            #[trigger] self.solve_groups@[g1]).name@ != (#[trigger] self.solve_groups@[g2]).name@
        &&& forall|e: int, g: int|
            0 <= e < self.env_count() && 0 <= g < self.group_count() ==> (
            #[trigger] self.environments@[e]).name.chars() != (
            #[trigger] self.solve_groups@[g]).name@
    }

    /// Decides whether the workspace satisfies the manifest-layer guarantees
    /// that the grouped-environment operations rely on; lets a boundary test
    /// data of unknown provenance before handing it to them.
    pub fn check_invariants(&self) -> (r: bool)
        ensures
            r == self.wf(),
    {
        if self.environments.len() == 0 {
            return false;
        }
        let default_first = match &self.environments[0].name {
            EnvironmentName::Default => true,
            EnvironmentName::Named(_) => false,
        };
        default_first && self.check_requirements() && self.check_back_references()
            && self.check_members() && self.check_members_distinct() && self.check_env_names()
            && self.check_group_names() && self.check_cross_names()
    }

    fn check_requirements(&self) -> (r: bool)
        ensures
            r == forall|e: int|
                0 <= e < self.env_count() ==> (
                #[trigger] self.environments@[e]).system_requirements.wf(),
    {
        let mut i: usize = 0;
        while i < self.environments.len()
            invariant
                i <= self.env_count(),
                forall|e: int|
                    0 <= e < i ==> (#[trigger] self.environments@[e]).system_requirements.wf(),
            decreases self.env_count() - i,
        {
            if !self.environments[i].system_requirements.check_wf() {
                return false;
            }
            i += 1;
        }
        true
    }

    fn check_back_references(&self) -> (r: bool)
        ensures
            r == forall|e: int|
                0 <= e < self.env_count() ==> ((#[trigger] self.environments@[e]).solve_group
                    matches Some(g) ==> 0 <= g < self.group_count()
                    && self.solve_groups@[g as int].members@.contains(e as usize)),
    {
        let mut i: usize = 0;
        while i < self.environments.len()
            invariant
                i <= self.env_count(),
                forall|e: int|
                    0 <= e < i ==> ((#[trigger] self.environments@[e]).solve_group matches Some(g)
                        ==> 0 <= g < self.group_count()
                        && self.solve_groups@[g as int].members@.contains(e as usize)),
            decreases self.env_count() - i,
        {
            match self.environments[i].solve_group {
                Some(g) => {
                    if g >= self.solve_groups.len() {
                        return false;
                    }
                    if !members_contain(&self.solve_groups[g].members, i) {
                        return false;
                    }
                },
                None => {},
            }
            i += 1;
        }
        true
    }

    fn check_members(&self) -> (r: bool)
        ensures
            r == ((forall|g: int|
                0 <= g < self.group_count() ==> (#[trigger] self.solve_groups@[g]).members@.len()
                    >= 1) && (forall|g: int, j: int|
                0 <= g < self.group_count() && 0 <= j < self.solve_groups@[g].members@.len() ==> (
                #[trigger] self.solve_groups@[g].members@[j]) < self.env_count()
                    && self.environments@[self.solve_groups@[g].members@[j] as int].solve_group
                    == Some(g as usize))),
    {
        let mut g: usize = 0;
        while g < self.solve_groups.len()
            invariant
                g <= self.group_count(),
                forall|x: int|
                    0 <= x < g ==> (#[trigger] self.solve_groups@[x]).members@.len() >= 1,
                forall|x: int, j: int|
                    0 <= x < g && 0 <= j < self.solve_groups@[x].members@.len() ==> (
                    #[trigger] self.solve_groups@[x].members@[j]) < self.env_count()
                        && self.environments@[self.solve_groups@[x].members@[j] as int].solve_group
                        == Some(x as usize),
            decreases self.group_count() - g,
        {
            let members = &self.solve_groups[g].members;
            if members.len() == 0 {
                return false;
            }
            let mut j: usize = 0;
            while j < members.len()
                invariant
                    g < self.group_count(),
                    members == &self.solve_groups@[g as int].members,
                    j <= members@.len(),
                    forall|k: int|
                        0 <= k < j ==> (#[trigger] members@[k]) < self.env_count()
                            && self.environments@[members@[k] as int].solve_group == Some(g),
                decreases members@.len() - j,
            {
                let m = members[j];
                if m >= self.environments.len() {
                    return false;
                }
                let back_ok = match self.environments[m].solve_group {
                    Some(x) => x == g,
                    None => false,
                };
                if !back_ok {
                    return false;
                }
                j += 1;
            }
            g += 1;
        }
        true
    }

    fn check_members_distinct(&self) -> (r: bool)
        ensures
            r == forall|g: int, j: int, k: int|
                0 <= g < self.group_count() && 0 <= j < self.solve_groups@[g].members@.len() && 0
                    <= k < self.solve_groups@[g].members@.len() && j != k ==> (
                #[trigger] self.solve_groups@[g].members@[j]) != (
                #[trigger] self.solve_groups@[g].members@[k]),
    {
        let mut g: usize = 0;
        while g < self.solve_groups.len()
            invariant
                g <= self.group_count(),
                forall|x: int, j: int, k: int|
                    0 <= x < g && 0 <= j < self.solve_groups@[x].members@.len() && 0 <= k
                        < self.solve_groups@[x].members@.len() && j != k ==> (
                    #[trigger] self.solve_groups@[x].members@[j]) != (
                    #[trigger] self.solve_groups@[x].members@[k]),
            decreases self.group_count() - g,
        {
            let members = &self.solve_groups[g].members;
            let mut j: usize = 0;
            while j < members.len()
                invariant
                    g < self.group_count(),
                    members == &self.solve_groups@[g as int].members,
                    j <= members@.len(),
                    forall|a: int, b: int|
                        0 <= a < j && 0 <= b < members@.len() && a != b ==> (
                        #[trigger] members@[a]) != (#[trigger] members@[b]),
            decreases members@.len() - j,
            {
                let mut k: usize = j + 1;
                while k < members.len()
                    invariant
                        g < self.group_count(),
                        members == &self.solve_groups@[g as int].members,
                        j < k,
                        k <= members@.len(),
                        forall|b: int| j < b < k ==> members@[j as int] != (#[trigger] members@[b]),
                        forall|a: int, b: int|
                            0 <= a < j && 0 <= b < members@.len() && a != b ==> (
                            #[trigger] members@[a]) != (#[trigger] members@[b]),
                    decreases members@.len() - k,
                {
                    if members[j] == members[k] {
                        return false;
                    }
                    k += 1;
                }
                j += 1;
            }
            g += 1;
        }
        true
    }

    fn check_env_names(&self) -> (r: bool)
        ensures
            r == forall|e1: int, e2: int|
                0 <= e1 < self.env_count() && 0 <= e2 < self.env_count() && e1 != e2 ==> (
                #[trigger] self.environments@[e1]).name.chars() != (
                #[trigger] self.environments@[e2]).name.chars(),
    {
        let mut i: usize = 0;
        while i < self.environments.len()
            invariant
                i <= self.env_count(),
                forall|e1: int, e2: int|
                    0 <= e1 < i && 0 <= e2 < self.env_count() && e1 != e2 ==> (
                    #[trigger] self.environments@[e1]).name.chars() != (
                    #[trigger] self.environments@[e2]).name.chars(),
            decreases self.env_count() - i,
        {
            let target: String = self.environments[i].name.as_str().to_owned();
            let mut k: usize = i + 1;
            while k < self.environments.len()
                invariant
                    i < k,
                    i < self.env_count(),
                    k <= self.env_count(),
                    target@ == self.environments@[i as int].name.chars(),
                    forall|e2: int|
                        i < e2 < k ==> (#[trigger] self.environments@[e2]).name.chars()
                            != self.environments@[i as int].name.chars(),
                decreases self.env_count() - k,
            {
                let candidate: String = self.environments[k].name.as_str().to_owned();
                if candidate == target {
                    return false;
                }
                k += 1;
            }
            i += 1;
        }
        true
    }

    fn check_group_names(&self) -> (r: bool)
        ensures
            r == forall|g1: int, g2: int|
                0 <= g1 < self.group_count() && 0 <= g2 < self.group_count() && g1 != g2 ==> (
                #[trigger] self.solve_groups@[g1]).name@ != (
                #[trigger] self.solve_groups@[g2]).name@,
    {
        let mut i: usize = 0;
        while i < self.solve_groups.len()
            invariant
                i <= self.group_count(),
                forall|g1: int, g2: int|
                    0 <= g1 < i && 0 <= g2 < self.group_count() && g1 != g2 ==> (
                    #[trigger] self.solve_groups@[g1]).name@ != (
                    #[trigger] self.solve_groups@[g2]).name@,
            decreases self.group_count() - i,
        {
            let mut k: usize = i + 1;
            while k < self.solve_groups.len()
                invariant
                    i < k,
                    i < self.group_count(),
                    k <= self.group_count(),
                    forall|g2: int|
                        i < g2 < k ==> (#[trigger] self.solve_groups@[g2]).name@
                            != self.solve_groups@[i as int].name@,
                decreases self.group_count() - k,
            {
                if <String as PartialEq>::eq(&self.solve_groups[k].name, &self.solve_groups[i].name) {
                    return false;
                }
                k += 1;
            }
            i += 1;
        }
        true
    }

    fn check_cross_names(&self) -> (r: bool)
        ensures
            r == forall|e: int, g: int|
                0 <= e < self.env_count() && 0 <= g < self.group_count() ==> (
                #[trigger] self.environments@[e]).name.chars() != (
                #[trigger] self.solve_groups@[g]).name@,
    {
        let mut i: usize = 0;
        while i < self.environments.len()
            invariant
                i <= self.env_count(),
                forall|e: int, g: int|
                    0 <= e < i && 0 <= g < self.group_count() ==> (
                    #[trigger] self.environments@[e]).name.chars() != (
                    #[trigger] self.solve_groups@[g]).name@,
            decreases self.env_count() - i,
        {
            let target: String = self.environments[i].name.as_str().to_owned();
            let mut k: usize = 0;
            while k < self.solve_groups.len()
                invariant
                    i < self.env_count(),
                    k <= self.group_count(),
                    target@ == self.environments@[i as int].name.chars(),
                    forall|g: int|
                        0 <= g < k ==> (#[trigger] self.solve_groups@[g]).name@
                            != self.environments@[i as int].name.chars(),
                decreases self.group_count() - k,
            {
                if <String as PartialEq>::eq(&self.solve_groups[k].name, &target) {
                    return false;
                }
                k += 1;
            }
            i += 1;
        }
        true
    }

    /// The index of the environment with the given name, if any.
    pub open spec fn spec_find_environment(&self, name: Seq<char>) -> Option<usize> {
        if exists|e: int|
            0 <= e < self.env_count() && (#[trigger] self.environments@[e]).name.chars() == name {
            Some(
                (choose|e: int|
                    0 <= e < self.env_count() && (#[trigger] self.environments@[e]).name.chars()
                        == name) as usize,
            )
        } else {
            None
        }
    }

    /// The index of the solve group with the given name, if any.
    pub open spec fn spec_find_solve_group(&self, name: Seq<char>) -> Option<usize> {
        if exists|g: int|
            0 <= g < self.group_count() && (#[trigger] self.solve_groups@[g]).name@ == name {
            Some(
                (choose|g: int|
                    0 <= g < self.group_count() && (#[trigger] self.solve_groups@[g]).name@
                        == name) as usize,
            )
        } else {
            None
        }
    }

    /// Looks an environment up by name. Returns its index, or `None` exactly
    /// when no environment of the workspace carries the name.
    pub fn find_environment(&self, name: &str) -> (r: Option<usize>)
        requires
            self.wf(),
        ensures
            r == self.spec_find_environment(name@),
            (r matches Some(e) ==> e < self.env_count() && self.environments@[e as int].name.chars()
                == name@),
            (r is None ==> forall|e: int|
                0 <= e < self.env_count() ==> (#[trigger] self.environments@[e]).name.chars()
                    != name@),
    {
        let target: String = name.to_owned();
        let mut i: usize = 0;
        while i < self.environments.len()
            invariant
                self.wf(),
                target@ == name@,
                i <= self.env_count(),
                forall|e: int|
                    0 <= e < i ==> (#[trigger] self.environments@[e]).name.chars() != name@,
            decreases self.env_count() - i,
        {
            let candidate: String = self.environments[i].name.as_str().to_owned();
            if candidate == target {
                return Some(i);
            }
            i += 1;
        }
        None
    }

    /// Looks a solve group up by name. Returns its index, or `None` exactly
    /// when no solve group of the workspace carries the name.
    pub fn find_solve_group(&self, name: &str) -> (r: Option<usize>)
        requires
            self.wf(),
        ensures
            r == self.spec_find_solve_group(name@),
            (r matches Some(g) ==> g < self.group_count() && self.solve_groups@[g as int].name@
                == name@),
            (r is None ==> forall|g: int|
                0 <= g < self.group_count() ==> (#[trigger] self.solve_groups@[g]).name@ != name@),
    {
        let target: String = name.to_owned();
        let mut i: usize = 0;
        while i < self.solve_groups.len()
            invariant
                self.wf(),
                target@ == name@,
                i <= self.group_count(),
                forall|g: int| 0 <= g < i ==> (#[trigger] self.solve_groups@[g]).name@ != name@,
            decreases self.group_count() - i,
        {
            if self.solve_groups[i].name == target {
                return Some(i);
            }
            i += 1;
        }
        None
    }

    /// The default environment: the first one of the workspace.
    pub fn default_environment(&self) -> (r: usize)
        requires
            self.wf(),
        ensures
            r == 0,
            self.environments@[0].name is Default,
    {
        0
    }

    /// The channel configuration of the workspace.
    pub fn channel_config(&self) -> (r: &rattler_conda_types::ChannelConfig)
        ensures
            *r == self.channel_config,
    {
        &self.channel_config
    }
}

} // verus!
