use std::collections::HashMap;
use std::path::PathBuf;
use zb_migrate::{
    brewfile_content, parse_listing, topological_sort, BrewPackage, MigrateResult, MigrationReport,
    MigrationState,
};

fn create_test_package(name: &str, deps: Vec<&str>) -> BrewPackage {
    BrewPackage {
        name: name.to_string(),
        version: "1.0.0".to_string(),
        tap: None,
        is_cask: false,
        dependencies: deps.iter().map(|s| s.to_string()).collect(),
        pinned: false,
    }
}

fn position(result: &[BrewPackage], name: &str) -> usize {
    result.iter().position(|p| p.name == name).unwrap()
}

#[test]
fn test_brew_package_creation() {
    let pkg = BrewPackage {
        name: "git".to_string(),
        version: "2.42.0".to_string(),
        tap: None,
        is_cask: false,
        dependencies: vec!["pcre2".to_string(), "gettext".to_string()],
        pinned: false,
    };

    assert_eq!(pkg.name, "git");
    assert_eq!(pkg.version, "2.42.0");
    assert!(pkg.tap.is_none());
    assert!(!pkg.is_cask);
    assert_eq!(pkg.dependencies.len(), 2);
    assert!(!pkg.pinned);
}

#[test]
fn test_brew_package_with_tap() {
    let pkg = BrewPackage {
        name: "neovim".to_string(),
        version: "0.9.4".to_string(),
        tap: Some("homebrew/core".to_string()),
        is_cask: false,
        dependencies: vec![],
        pinned: true,
    };

    assert_eq!(pkg.tap, Some("homebrew/core".to_string()));
    assert!(pkg.pinned);
}

#[test]
fn test_brew_package_cask() {
    let pkg = BrewPackage {
        name: "visual-studio-code".to_string(),
        version: "1.84.0".to_string(),
        tap: Some("homebrew/cask".to_string()),
        is_cask: true,
        dependencies: vec![],
        pinned: false,
    };

    assert!(pkg.is_cask);
    assert_eq!(pkg.name, "visual-studio-code");
}

#[test]
fn test_parse_brew_list_output() {
    let brew_output = "git 2.42.0\nnode 20.9.0\nrust 1.73.0\npython@3.11 3.11.6";

    let packages = parse_listing(brew_output, &Vec::new(), false);

    assert_eq!(packages.len(), 4);
    assert_eq!(packages[0].name, "git");
    assert_eq!(packages[0].version, "2.42.0");
    assert_eq!(packages[1].name, "node");
    assert_eq!(packages[2].name, "rust");
    assert_eq!(packages[3].name, "python@3.11");
    assert_eq!(packages[3].version, "3.11.6");
}

#[test]
fn test_parse_brew_list_empty_output() {
    let brew_output = "";

    let packages = parse_listing(brew_output, &Vec::new(), false);

    assert!(packages.is_empty());
}

#[test]
fn test_parse_brew_list_with_multiple_versions() {
    let brew_output = "openssl@3 3.1.4 3.1.3";

    let packages = parse_listing(brew_output, &Vec::new(), false);

    assert_eq!(packages.len(), 1);
    assert_eq!(packages[0].name, "openssl@3");
    assert_eq!(packages[0].version, "3.1.4");
}

#[test]
fn test_parse_malformed_brew_output() {
    let brew_output = "git 2.42.0\ninvalid_line\nnode 20.9.0\n   \nrust";

    let packages = parse_listing(brew_output, &Vec::new(), false);

    assert_eq!(packages.len(), 2);
    assert_eq!(packages[0].name, "git");
    assert_eq!(packages[1].name, "node");
}

#[test]
fn test_migration_state_default() {
    let state = MigrationState::default();

    assert!(state.migrated_packages.is_empty());
    assert!(state.failed_packages.is_empty());
    assert_eq!(state.homebrew_prefix, PathBuf::new());
}

#[test]
fn test_topological_sort_no_dependencies() {
    let packages = vec![
        create_test_package("a", vec![]),
        create_test_package("b", vec![]),
        create_test_package("c", vec![]),
    ];

    let result = topological_sort(&packages);

    assert_eq!(result.len(), 3);
}

#[test]
fn test_topological_sort_linear_dependencies() {
    let packages = vec![
        create_test_package("a", vec![]),
        create_test_package("b", vec!["a"]),
        create_test_package("c", vec!["b"]),
    ];

    let result = topological_sort(&packages);

    let pos_a = position(&result, "a");
    let pos_b = position(&result, "b");
    let pos_c = position(&result, "c");

    assert!(pos_a < pos_b, "a should come before b");
    assert!(pos_b < pos_c, "b should come before c");
}

#[test]
fn test_topological_sort_diamond_dependency() {
    let packages = vec![
        create_test_package("a", vec![]),
        create_test_package("b", vec!["a"]),
        create_test_package("c", vec!["a"]),
        create_test_package("d", vec!["b", "c"]),
    ];

    let result = topological_sort(&packages);

    assert_eq!(result.len(), 4);

    let pos_a = position(&result, "a");
    let pos_b = position(&result, "b");
    let pos_c = position(&result, "c");
    let pos_d = position(&result, "d");

    assert!(pos_a < pos_b, "a should come before b");
    assert!(pos_a < pos_c, "a should come before c");
    assert!(pos_b < pos_d, "b should come before d");
    assert!(pos_c < pos_d, "c should come before d");
}

#[test]
fn test_topological_sort_missing_dependency() {
    let packages = vec![
        create_test_package("a", vec![]),
        create_test_package("b", vec!["missing"]),
    ];

    let result = topological_sort(&packages);

    assert_eq!(result.len(), 2);
}

#[test]
fn test_topological_sort_empty_list() {
    let packages: Vec<BrewPackage> = vec![];

    let result = topological_sort(&packages);

    assert!(result.is_empty());
}

#[test]
fn test_topological_sort_complex_graph() {
    let packages = vec![
        create_test_package("a", vec![]),
        create_test_package("b", vec!["a"]),
        create_test_package("c", vec!["a"]),
        create_test_package("d", vec!["b", "c"]),
        create_test_package("e", vec!["c"]),
        create_test_package("f", vec!["d", "e"]),
    ];

    let result = topological_sort(&packages);

    assert_eq!(result.len(), 6);

    let positions: HashMap<String, usize> = result
        .iter()
        .enumerate()
        .map(|(i, p)| (p.name.clone(), i))
        .collect();

    assert!(positions["a"] < positions["b"]);
    assert!(positions["a"] < positions["c"]);
    assert!(positions["b"] < positions["d"]);
    assert!(positions["c"] < positions["d"]);
    assert!(positions["c"] < positions["e"]);
    assert!(positions["d"] < positions["f"]);
    assert!(positions["e"] < positions["f"]);
}

#[test]
fn test_brewfile_format_basic() {
    let formulae = vec![
        create_test_package("git", vec![]),
        create_test_package("node", vec![]),
    ];

    let casks = vec![BrewPackage {
        name: "visual-studio-code".to_string(),
        version: "1.84.0".to_string(),
        tap: None,
        is_cask: true,
        dependencies: vec![],
        pinned: false,
    }];

    let content = brewfile_content(&formulae, &casks);

    assert!(content.contains("# Zerobrew Migration Brewfile"));
    assert!(content.contains("brew \"git\""));
    assert!(content.contains("brew \"node\""));
    assert!(content.contains("cask \"visual-studio-code\""));
}

#[test]
fn test_brewfile_format_with_taps() {
    let formulae = vec![
        BrewPackage {
            name: "neovim".to_string(),
            version: "0.9.4".to_string(),
            tap: Some("homebrew/core".to_string()),
            is_cask: false,
            dependencies: vec![],
            pinned: false,
        },
        BrewPackage {
            name: "custom-tool".to_string(),
            version: "1.0.0".to_string(),
            tap: Some("user/custom-tap".to_string()),
            is_cask: false,
            dependencies: vec![],
            pinned: false,
        },
    ];

    let content = brewfile_content(&formulae, &Vec::new());

    assert!(
        content.contains("tap \"homebrew/core\"") || content.contains("tap \"user/custom-tap\"")
    );
    assert!(content.contains("brew \"neovim\""));
    assert!(content.contains("brew \"custom-tool\""));
}

#[test]
fn test_brewfile_format_empty() {
    let formulae: Vec<BrewPackage> = vec![];
    let casks: Vec<BrewPackage> = vec![];

    let content = brewfile_content(&formulae, &casks);

    assert!(content.contains("# Zerobrew Migration Brewfile"));
    assert!(!content.contains("brew \""));
    assert!(!content.contains("cask \""));
}

#[test]
fn test_brewfile_format_special_characters() {
    let formulae = vec![
        create_test_package("python@3.11", vec![]),
        create_test_package("openssl@3", vec![]),
    ];

    let content = brewfile_content(&formulae, &Vec::new());

    assert!(content.contains("brew \"python@3.11\""));
    assert!(content.contains("brew \"openssl@3\""));
}

#[test]
fn test_migration_report_default() {
    let report = MigrationReport::default();

    assert_eq!(report.total_formulae, 0);
    assert_eq!(report.total_casks, 0);
    assert!(report.successful.is_empty());
    assert!(report.failed.is_empty());
    assert!(report.skipped.is_empty());
}

#[test]
fn test_migration_report_with_data() {
    let mut report = MigrationReport::default();
    report.total_formulae = 10;
    report.total_casks = 5;
    report.successful.push("git".to_string());
    report.successful.push("node".to_string());
    report
        .failed
        .push(("broken-pkg".to_string(), "Install failed".to_string()));
    report
        .skipped
        .push(("cask-app".to_string(), "Casks not supported".to_string()));

    assert_eq!(report.total_formulae, 10);
    assert_eq!(report.total_casks, 5);
    assert_eq!(report.successful.len(), 2);
    assert_eq!(report.failed.len(), 1);
    assert_eq!(report.skipped.len(), 1);
}

#[test]
fn test_migrate_result_success() {
    let result = MigrateResult::Success {
        name: "git".to_string(),
        version: "2.42.0".to_string(),
    };

    match result {
        MigrateResult::Success { name, version } => {
            assert_eq!(name, "git");
            assert_eq!(version, "2.42.0");
        }
        MigrateResult::Failed { .. } => panic!("Expected Success variant"),
    }
}

#[test]
fn test_migrate_result_failed() {
    let result = MigrateResult::Failed {
        name: "broken-pkg".to_string(),
        reason: "Package not found".to_string(),
    };

    match result {
        MigrateResult::Success { .. } => panic!("Expected Failed variant"),
        MigrateResult::Failed { name, reason } => {
            assert_eq!(name, "broken-pkg");
            assert_eq!(reason, "Package not found");
        }
    }
}
