use grouped_env::grouped::GroupedEnvironment;
use grouped_env::names::EnvironmentName;
use grouped_env::requirements::{LibCFamily, LibCRequirement, SystemRequirements};
use grouped_env::version::{version_le, version_max, VersionNumber};
use grouped_env::virtual_packages::{minimal_virtual_packages, Platform, VirtualPackage};
use grouped_env::workspace::{Environment, SolveGroup, Workspace};

fn version(parts: Vec<u64>) -> VersionNumber {
    VersionNumber::new(parts)
}

fn reqs_linux(parts: Vec<u64>) -> SystemRequirements {
    SystemRequirements {
        linux: Some(version(parts)),
        macos: None,
        cuda: None,
        libc: None,
    }
}

#[test]
fn version_order_is_lexicographic() {
    assert!(version_le(&version(vec![10]), &version(vec![10, 15])));
    assert!(!version_le(&version(vec![10, 15]), &version(vec![10])));
    assert!(version_le(&version(vec![2, 17]), &version(vec![2, 28])));
    assert!(!version_le(&version(vec![3]), &version(vec![2, 28])));
    assert!(version_le(&version(vec![4, 18]), &version(vec![4, 18])));
}

#[test]
fn version_max_picks_the_more_restrictive() {
    assert_eq!(
        version_max(&version(vec![2, 17]), &version(vec![2, 28])),
        version(vec![2, 28])
    );
    assert_eq!(
        version_max(&version(vec![2, 28]), &version(vec![2, 17])),
        version(vec![2, 28])
    );
}

#[test]
fn most_restrictive_merge_keeps_explicit_constraint() {
    let a = reqs_linux(vec![10]);
    let none = SystemRequirements::unconstrained();
    let merged = a.union(&none);
    assert_eq!(merged.linux, Some(version(vec![10])));
    let merged_flipped = none.union(&a);
    assert_eq!(merged_flipped.linux, Some(version(vec![10])));
}

#[test]
fn merge_is_order_independent() {
    let a = SystemRequirements {
        linux: Some(version(vec![4, 18])),
        macos: None,
        cuda: Some(version(vec![11])),
        libc: Some(LibCRequirement {
            family: LibCFamily::Glibc,
            version: version(vec![2, 17]),
        }),
    };
    let b = SystemRequirements {
        linux: Some(version(vec![5, 10])),
        macos: Some(version(vec![13])),
        cuda: None,
        libc: Some(LibCRequirement {
            family: LibCFamily::Glibc,
            version: version(vec![2, 28]),
        }),
    };
    let ab = a.union(&b);
    let ba = b.union(&a);
    assert_eq!(ab, ba);
    assert_eq!(ab.linux, Some(version(vec![5, 10])));
    assert_eq!(ab.macos, Some(version(vec![13])));
    assert_eq!(ab.cuda, Some(version(vec![11])));
    assert_eq!(
        ab.libc,
        Some(LibCRequirement {
            family: LibCFamily::Glibc,
            version: version(vec![2, 28]),
        })
    );
}

#[test]
fn group_requirements_merge_members() {
    let mut dev = Environment {
        name: EnvironmentName::Named("dev".to_string()),
        features: vec![],
        dir: "envs/dev".to_string(),
        solve_group: Some(0),
        system_requirements: reqs_linux(vec![10]),
    };
    dev.system_requirements.cuda = Some(version(vec![12]));
    let prod = Environment {
        name: EnvironmentName::Named("prod".to_string()),
        features: vec![],
        dir: "envs/prod".to_string(),
        solve_group: Some(0),
        system_requirements: reqs_linux(vec![11]),
    };
    let ws = Workspace {
        environments: vec![
            Environment {
                name: EnvironmentName::Default,
                features: vec![],
                dir: "envs/default".to_string(),
                solve_group: None,
                system_requirements: SystemRequirements::unconstrained(),
            },
            dev,
            prod,
        ],
        solve_groups: vec![SolveGroup {
            name: "shared".to_string(),
            dir: "solve-group-envs/shared".to_string(),
            members: vec![1, 2],
        }],
        channel_config: rattler_conda_types::ChannelConfig::default_with_root_dir(
            std::path::PathBuf::from("."),
        ),
    };
    let ge = GroupedEnvironment::from_environment(&ws, 1);
    let merged = ge.system_requirements(&ws);
    assert_eq!(merged.linux, Some(version(vec![11])));
    assert_eq!(merged.cuda, Some(version(vec![12])));
    assert_eq!(merged.macos, None);

    let own = GroupedEnvironment::from_environment(&ws, 0).system_requirements(&ws);
    assert_eq!(own, SystemRequirements::unconstrained());
}

#[test]
fn minimal_virtual_packages_on_linux() {
    let mut reqs = reqs_linux(vec![4, 18]);
    reqs.libc = Some(LibCRequirement {
        family: LibCFamily::Glibc,
        version: version(vec![2, 28]),
    });
    reqs.cuda = Some(version(vec![12]));
    let vps = minimal_virtual_packages(&reqs, Platform::Linux);
    assert_eq!(
        vps,
        vec![
            VirtualPackage::Unix,
            VirtualPackage::Linux { version: version(vec![4, 18]) },
            VirtualPackage::LibC {
                family: LibCFamily::Glibc,
                version: version(vec![2, 28]),
            },
            VirtualPackage::Cuda { version: version(vec![12]) },
        ]
    );
}

#[test]
fn minimal_virtual_packages_on_other_platforms() {
    let reqs = SystemRequirements {
        linux: Some(version(vec![4, 18])),
        macos: Some(version(vec![13])),
        cuda: None,
        libc: None,
    };
    assert_eq!(
        minimal_virtual_packages(&reqs, Platform::MacOs),
        vec![
            VirtualPackage::Unix,
            VirtualPackage::Osx { version: version(vec![13]) },
        ]
    );
    assert_eq!(
        minimal_virtual_packages(&reqs, Platform::Windows),
        vec![VirtualPackage::Win]
    );
}

#[test]
fn virtual_packages_build_conda_records() {
    let mut reqs = reqs_linux(vec![4, 18]);
    reqs.libc = Some(LibCRequirement {
        family: LibCFamily::Glibc,
        version: version(vec![2, 28]),
    });
    let ws = Workspace {
        environments: vec![Environment {
            name: EnvironmentName::Default,
            features: vec![],
            dir: "envs/default".to_string(),
            solve_group: None,
            system_requirements: reqs,
        }],
        solve_groups: vec![],
        channel_config: rattler_conda_types::ChannelConfig::default_with_root_dir(
            std::path::PathBuf::from("."),
        ),
    };
    let ge = GroupedEnvironment::from_environment(&ws, 0);
    let records = ge.virtual_packages(&ws, Platform::Linux);
    assert_eq!(records.len(), 3);
    assert_eq!(records[0].name.as_source(), "__unix");
    assert_eq!(records[0].version.to_string(), "0");
    assert_eq!(records[0].build_string, "0");
    assert_eq!(records[1].name.as_source(), "__linux");
    assert_eq!(records[1].version.to_string(), "4.18");
    assert_eq!(records[2].name.as_source(), "__glibc");
    assert_eq!(records[2].version.to_string(), "2.28");
}
