use grouped_env::grouped::GroupedEnvironment;
use grouped_env::names::{EnvironmentName, GroupedEnvironmentName};
use grouped_env::requirements::SystemRequirements;
use grouped_env::select::{resolution_units, select_environment_names};
use grouped_env::workspace::{Environment, SolveGroup, Workspace};

fn channel_config() -> rattler_conda_types::ChannelConfig {
    rattler_conda_types::ChannelConfig::default_with_root_dir(std::path::PathBuf::from("."))
}

fn env(
    name: EnvironmentName,
    features: Vec<&str>,
    dir: &str,
    solve_group: Option<usize>,
) -> Environment {
    Environment {
        name,
        features: features.into_iter().map(str::to_string).collect(),
        dir: dir.to_string(),
        solve_group,
        system_requirements: SystemRequirements::unconstrained(),
    }
}

/// default (ungrouped), dev and prod sharing solve group `shared`,
/// single in the one-member solve group `solo`.
fn demo_workspace() -> Workspace {
    Workspace {
        environments: vec![
            env(EnvironmentName::Default, vec!["base"], "envs/default", None),
            env(
                EnvironmentName::Named("dev".to_string()),
                vec!["base", "test"],
                "envs/dev",
                Some(0),
            ),
            env(
                EnvironmentName::Named("prod".to_string()),
                vec!["base"],
                "envs/prod",
                Some(0),
            ),
            env(
                EnvironmentName::Named("single".to_string()),
                vec!["extra"],
                "envs/single",
                Some(1),
            ),
        ],
        solve_groups: vec![
            SolveGroup {
                name: "shared".to_string(),
                dir: "solve-group-envs/shared".to_string(),
                members: vec![1, 2],
            },
            SolveGroup {
                name: "solo".to_string(),
                dir: "solve-group-envs/solo".to_string(),
                members: vec![3],
            },
        ],
        channel_config: channel_config(),
    }
}

#[test]
fn collapse_two_member_group_stays_group() {
    let ws = demo_workspace();
    assert_eq!(
        GroupedEnvironment::from_solve_group(&ws, 0),
        GroupedEnvironment::Group(0)
    );
}

#[test]
fn collapse_single_member_group_becomes_environment() {
    let ws = demo_workspace();
    assert_eq!(
        GroupedEnvironment::from_solve_group(&ws, 1),
        GroupedEnvironment::Environment(3)
    );
}

#[test]
fn canonicalization_idempotence_singleton_group() {
    let ws = demo_workspace();
    let from_group = GroupedEnvironment::from_solve_group(&ws, 1);
    let from_member = GroupedEnvironment::from_environment(&ws, 3);
    assert_eq!(from_group, from_member);
}

#[test]
fn grouped_member_widens_to_group() {
    let ws = demo_workspace();
    assert_eq!(
        GroupedEnvironment::from_environment(&ws, 1),
        GroupedEnvironment::Group(0)
    );
    assert_eq!(
        GroupedEnvironment::from_environment(&ws, 2),
        GroupedEnvironment::Group(0)
    );
}

#[test]
fn ungrouped_environment_stays_environment() {
    let ws = demo_workspace();
    assert_eq!(
        GroupedEnvironment::from_environment(&ws, 0),
        GroupedEnvironment::Environment(0)
    );
}

#[test]
fn environments_of_group_in_declared_order() {
    let ws = demo_workspace();
    let ge = GroupedEnvironment::from_solve_group(&ws, 0);
    assert_eq!(ge.environments(&ws), vec![1, 2]);
}

#[test]
fn environments_of_single_environment() {
    let ws = demo_workspace();
    let ge = GroupedEnvironment::from_environment(&ws, 0);
    assert_eq!(ge.environments(&ws), vec![0]);
}

#[test]
fn dir_of_group_is_shared_directory() {
    let ws = demo_workspace();
    let ge = GroupedEnvironment::from_environment(&ws, 1);
    assert_eq!(ge.dir(&ws), "solve-group-envs/shared");
    assert_eq!(ge.prefix(&ws).root().as_str(), "solve-group-envs/shared");
}

#[test]
fn dir_of_environment_is_its_own() {
    let ws = demo_workspace();
    let ge = GroupedEnvironment::from_environment(&ws, 0);
    assert_eq!(ge.dir(&ws), "envs/default");
    assert_eq!(ge.prefix(&ws).root().as_str(), "envs/default");
}

#[test]
fn feature_concatenation_keeps_member_order_and_duplicates() {
    let ws = demo_workspace();
    let ge = GroupedEnvironment::from_solve_group(&ws, 0);
    assert_eq!(ge.features(&ws), vec!["base", "test", "base"]);
}

#[test]
fn features_of_single_environment() {
    let ws = demo_workspace();
    let ge = GroupedEnvironment::from_environment(&ws, 3);
    assert_eq!(ge.features(&ws), vec!["extra"]);
}

#[test]
fn name_mirrors_variant() {
    let ws = demo_workspace();
    let group = GroupedEnvironment::from_environment(&ws, 1).name(&ws);
    assert!(matches!(&group, GroupedEnvironmentName::Group(s) if s == "shared"));
    assert_eq!(group.as_str(), "shared");
    let single = GroupedEnvironment::from_environment(&ws, 0).name(&ws);
    assert!(matches!(&single, GroupedEnvironmentName::Environment(_)));
    assert_eq!(single.as_str(), "default");
}

#[test]
fn name_round_trip_returns_equal_value() {
    let ws = demo_workspace();
    for e in 0..ws.environments.len() {
        let ge = GroupedEnvironment::from_environment(&ws, e);
        let name = ge.name(&ws);
        assert_eq!(GroupedEnvironment::from_name(&ws, &name), Some(ge));
    }
}

#[test]
fn from_name_unknown_is_lookup_miss() {
    let ws = demo_workspace();
    let name = GroupedEnvironmentName::Environment(EnvironmentName::Named("nope".to_string()));
    assert_eq!(GroupedEnvironment::from_name(&ws, &name), None);
    let group_name = GroupedEnvironmentName::Group("nope".to_string());
    assert_eq!(GroupedEnvironment::from_name(&ws, &group_name), None);
}

#[test]
fn fancy_display_carries_the_name() {
    let ws = demo_workspace();
    let group = GroupedEnvironment::from_environment(&ws, 1).name(&ws);
    assert!(group.fancy_display().contains("shared"));
    let single = GroupedEnvironment::from_environment(&ws, 0).name(&ws);
    assert!(single.fancy_display().contains("default"));
}

#[test]
fn selection_explicit_names_pass_through() {
    let ws = demo_workspace();
    let explicit = Some(vec!["dev".to_string(), "dev".to_string(), "prod".to_string()]);
    let names = select_environment_names(&ws, &explicit, false);
    assert_eq!(names, vec!["dev", "dev", "prod"]);
}

#[test]
fn selection_all_uses_declared_order() {
    let ws = demo_workspace();
    let names = select_environment_names(&ws, &None, true);
    assert_eq!(names, vec!["default", "dev", "prod", "single"]);
}

#[test]
fn selection_default_when_nothing_asked() {
    let ws = demo_workspace();
    let names = select_environment_names(&ws, &None, false);
    assert_eq!(names, vec!["default"]);
}

#[test]
fn scenario_all_selection_dedupes_to_two_units() {
    let ws = Workspace {
        environments: vec![
            env(EnvironmentName::Default, vec![], "envs/default", None),
            env(
                EnvironmentName::Named("dev".to_string()),
                vec![],
                "envs/dev",
                Some(0),
            ),
            env(
                EnvironmentName::Named("prod".to_string()),
                vec![],
                "envs/prod",
                Some(0),
            ),
        ],
        solve_groups: vec![SolveGroup {
            name: "shared".to_string(),
            dir: "solve-group-envs/shared".to_string(),
            members: vec![1, 2],
        }],
        channel_config: channel_config(),
    };
    let names = select_environment_names(&ws, &None, true);
    assert_eq!(names, vec!["default", "dev", "prod"]);
    let mut selected: Vec<usize> = Vec::new();
    for name in &names {
        selected.push(ws.find_environment(name).expect("selected name must exist"));
    }
    let dev_unit = GroupedEnvironment::from_environment(&ws, 1);
    let prod_unit = GroupedEnvironment::from_environment(&ws, 2);
    assert_eq!(dev_unit, prod_unit);
    assert_eq!(dev_unit, GroupedEnvironment::Group(0));
    let units = resolution_units(&ws, &selected);
    assert_eq!(
        units,
        vec![
            GroupedEnvironment::Environment(0),
            GroupedEnvironment::Group(0)
        ]
    );
}

#[test]
fn find_environment_hits_and_misses() {
    let ws = demo_workspace();
    assert_eq!(ws.find_environment("prod"), Some(2));
    assert_eq!(ws.find_environment("default"), Some(0));
    assert_eq!(ws.find_environment("absent"), None);
    assert_eq!(ws.find_solve_group("shared"), Some(0));
    assert_eq!(ws.find_solve_group("absent"), None);
}

#[test]
fn invariant_check_accepts_well_formed_workspace() {
    assert!(demo_workspace().check_invariants());
}

#[test]
fn invariant_check_rejects_broken_workspaces() {
    // A solve group without members.
    let mut ws = demo_workspace();
    ws.solve_groups.push(SolveGroup {
        name: "empty".to_string(),
        dir: "solve-group-envs/empty".to_string(),
        members: vec![],
    });
    assert!(!ws.check_invariants());

    // A member whose back-reference points elsewhere.
    let mut ws = demo_workspace();
    ws.environments[1].solve_group = None;
    assert!(!ws.check_invariants());

    // Two environments sharing a name.
    let mut ws = demo_workspace();
    ws.environments[3].name = EnvironmentName::Named("dev".to_string());
    ws.environments[3].solve_group = None;
    ws.solve_groups[1].members.clear();
    ws.solve_groups.truncate(1);
    assert!(!ws.check_invariants());

    // The default environment must come first.
    let mut ws = demo_workspace();
    ws.environments[0].name = EnvironmentName::Named("renamed".to_string());
    assert!(!ws.check_invariants());
}

#[test]
fn channel_config_is_the_workspace_configuration() {
    let ws = demo_workspace();
    let ge = GroupedEnvironment::from_environment(&ws, 1);
    assert_eq!(*ge.channel_config(&ws), ws.channel_config);
}
