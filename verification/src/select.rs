//! Selection of environments for an install run, and the deduplicated
//! resolution units the selection maps to.
//!
//! The selection rule: explicit names are used exactly as given (order kept,
//! duplicates passed through); otherwise, when everything is requested, every
//! environment of the workspace in declared order; otherwise the single
//! default environment. Two selected environments of one solve group map to
//! the same grouped environment, so deduplicating the mapped units leaves one
//! unit per solve group or standalone environment, in first-occurrence order.

use vstd::prelude::*;

use crate::grouped::GroupedEnvironment;
use crate::workspace::Workspace;

verus! {

/// The names of all environments of the workspace, in declared order.
pub open spec fn all_environment_names(ws: &Workspace) -> Seq<Seq<char>> {
    Seq::new(ws.env_count() as nat, |i: int| ws.environments@[i].name.chars())
}

/// Turns the user's selection into the list of environment names to install:
/// the explicit names exactly as given; else, if all environments are
/// requested, every environment of the workspace in declared order; else the
/// default environment alone.
pub fn select_environment_names(ws: &Workspace, explicit: &Option<Vec<String>>, all: bool) -> (r:
    Vec<String>)
    requires
        ws.wf(),
    ensures
        (explicit matches Some(names) ==> r.deep_view() == names.deep_view()),
        (explicit is None && all ==> r.deep_view() == all_environment_names(ws)),
        (explicit is None && !all ==> r.deep_view() == seq![
            ws.environments@[0].name.chars(),
        ]),
{
    match explicit {
        Some(names) => {
            let mut r: Vec<String> = Vec::new();
            let mut i: usize = 0;
            while i < names.len()
                invariant
                    i <= names@.len(),
                    r.deep_view() == names.deep_view().take(i as int),
                decreases names@.len() - i,
            {
                let ghost old_r = r;
                r.push(names[i].clone());
                proof {
                    assert(r.deep_view() =~= old_r.deep_view().push(names@[i as int]@));
                    assert(names.deep_view().take(i + 1) =~= names.deep_view().take(
                        i as int,
                    ).push(names@[i as int]@));
                }
                i += 1;
            }
            proof {
                assert(names.deep_view().take(names@.len() as int) =~= names.deep_view());
            }
            r
        },
        None => {
            if all {
                let mut r: Vec<String> = Vec::new();
                let mut i: usize = 0;
                while i < ws.environments.len()
                    invariant
                        ws.wf(),
                        i <= ws.env_count(),
                        r.deep_view() == all_environment_names(ws).take(i as int),
                    decreases ws.env_count() - i,
                {
                    let ghost old_r = r;
                    r.push(ws.environments[i].name.as_str().to_owned());
                    proof {
                        assert(r.deep_view() =~= old_r.deep_view().push(
                            ws.environments@[i as int].name.chars(),
                        ));
                        assert(all_environment_names(ws).take(i + 1)
                            =~= all_environment_names(ws).take(i as int).push(
                            ws.environments@[i as int].name.chars(),
                        ));
                    }
                    i += 1;
                }
                proof {
                    assert(all_environment_names(ws).take(ws.env_count())
                        =~= all_environment_names(ws));
                }
                r
            } else {
                let mut r: Vec<String> = Vec::new();
                r.push(ws.environments[0].name.as_str().to_owned());
                proof {
                    assert(r.deep_view() =~= seq![ws.environments@[0].name.chars()]);
                }
                r
            }
        },
    }
}

/// The grouped environments the selected environments map to, in order.
pub open spec fn units_of(ws: &Workspace, selected: Seq<usize>) -> Seq<GroupedEnvironment> {
    selected.map_values(|e: usize| GroupedEnvironment::spec_from_environment(ws, e as int))
}

/// A sequence with later repetitions of earlier elements removed.
pub open spec fn dedup_first(s: Seq<GroupedEnvironment>) -> Seq<GroupedEnvironment>
    decreases s.len(),
{
    if s.len() == 0 {
        Seq::empty()
    } else {
        let rest = dedup_first(s.drop_last());
        if rest.contains(s.last()) {
            rest
        } else {
            rest.push(s.last())
        }
    }
}

/// Deduplication keeps exactly the elements of the sequence.
pub proof fn lemma_dedup_first_contains(s: Seq<GroupedEnvironment>, x: GroupedEnvironment)
    ensures
        dedup_first(s).contains(x) <==> s.contains(x),
    decreases s.len(),
{
    if s.len() > 0 {
        lemma_dedup_first_contains(s.drop_last(), x);
        assert(s.contains(x) <==> (s.drop_last().contains(x) || s.last() == x)) by {
            if s.contains(x) {
                let i = choose|i: int| 0 <= i < s.len() && s[i] == x;
                if i < s.len() - 1 {
                    assert(s.drop_last()[i] == x);
                }
            }
            if s.drop_last().contains(x) {
                let i = choose|i: int| 0 <= i < s.drop_last().len() && s.drop_last()[i] == x;
                assert(s[i] == x);
            }
        }
        let rest = dedup_first(s.drop_last());
        if !rest.contains(s.last()) {
            assert(rest.push(s.last()).contains(x) <==> (rest.contains(x) || s.last() == x)) by {
                if rest.contains(x) {
                    let i = choose|i: int| 0 <= i < rest.len() && rest[i] == x;
                    assert(rest.push(s.last())[i] == x);
                }
                if s.last() == x {
                    assert(rest.push(s.last())[rest.len() as int] == x);
                }
                if rest.push(s.last()).contains(x) {
                    let i = choose|i: int|
                        0 <= i < rest.push(s.last()).len() && rest.push(s.last())[i] == x;
                    if i < rest.len() {
                        assert(rest[i] == x);
                    }
                }
            }
        }
    }
}

/// Deduplication leaves no two equal elements.
pub proof fn lemma_dedup_first_distinct(s: Seq<GroupedEnvironment>)
    ensures
        forall|i: int, j: int|
            0 <= i < dedup_first(s).len() && 0 <= j < dedup_first(s).len() && i != j
                ==> dedup_first(s)[i] != dedup_first(s)[j],
    decreases s.len(),
{
    if s.len() > 0 {
        lemma_dedup_first_distinct(s.drop_last());
        let rest = dedup_first(s.drop_last());
        if !rest.contains(s.last()) {
            assert forall|i: int, j: int|
                0 <= i < rest.push(s.last()).len() && 0 <= j < rest.push(s.last()).len() && i
                    != j implies rest.push(s.last())[i] != rest.push(s.last())[j] by {
                if i < rest.len() && j < rest.len() {
                } else if i == rest.len() {
                    assert(rest.contains(rest[j]));
                } else if j == rest.len() {
                    assert(rest.contains(rest[i]));
                }
            }
        }
    }
}

/// Checks whether a unit is already among the collected ones.
fn units_contain(units: &Vec<GroupedEnvironment>, unit: GroupedEnvironment) -> (r: bool)
    ensures
        r == units@.contains(unit),
{
    let mut i: usize = 0;
    while i < units.len()
        invariant
            i <= units@.len(),
            forall|j: int| 0 <= j < i ==> units@[j] != unit,
        decreases units@.len() - i,
    {
        if units[i] == unit {
            return true;
        }
        i += 1;
    }
    false
}

/// Maps the selected environments to their grouped environments and drops
/// every unit already produced by an earlier selected environment: the
/// distinct resolution units, in first-occurrence order. Each distinct unit
/// is computed exactly once by downstream consumers.
pub fn resolution_units(ws: &Workspace, selected: &Vec<usize>) -> (r: Vec<GroupedEnvironment>)
    requires
        ws.wf(),
        forall|i: int| 0 <= i < selected@.len() ==> (#[trigger] selected@[i]) < ws.env_count(),
    ensures
        r@ == dedup_first(units_of(ws, selected@)),
        forall|i: int, j: int| 0 <= i < r@.len() && 0 <= j < r@.len() && i != j ==> r@[i] != r@[j],
        forall|i: int|
            0 <= i < selected@.len() ==> r@.contains(
                GroupedEnvironment::spec_from_environment(ws, #[trigger] selected@[i] as int),
            ),
        forall|i: int| 0 <= i < r@.len() ==> (#[trigger] r@[i]).wf(ws),
{
    let mut r: Vec<GroupedEnvironment> = Vec::new();
    let mut i: usize = 0;
    while i < selected.len()
        invariant
            ws.wf(),
            forall|k: int| 0 <= k < selected@.len() ==> (#[trigger] selected@[k]) < ws.env_count(),
            i <= selected@.len(),
            r@ == dedup_first(units_of(ws, selected@.take(i as int))),
            forall|k: int| 0 <= k < r@.len() ==> (#[trigger] r@[k]).wf(ws),
        decreases selected@.len() - i,
    {
        let unit = GroupedEnvironment::from_environment(ws, selected[i]);
        proof {
            let taken = units_of(ws, selected@.take(i + 1));
            assert(taken.drop_last() =~= units_of(ws, selected@.take(i as int)));
            assert(taken.last() == unit);
        }
        if !units_contain(&r, unit) {
            r.push(unit);
        }
        i += 1;
    }
    proof {
        assert(selected@.take(selected@.len() as int) =~= selected@);
        lemma_dedup_first_distinct(units_of(ws, selected@));
        assert forall|i: int| 0 <= i < selected@.len() implies r@.contains(
            GroupedEnvironment::spec_from_environment(ws, #[trigger] selected@[i] as int),
        ) by {
            let units = units_of(ws, selected@);
            lemma_dedup_first_contains(units, units[i]);
            assert(units.contains(units[i]));
        }
    }
    r
}

} // verus!
