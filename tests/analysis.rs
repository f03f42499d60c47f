use zb_migrate::{
    analyze, brewfile_content, find_package, find_transitive_problematic_deps,
    get_problematic_reason, known_problematic_packages, non_core_tap, output_lines,
    parse_listing, prompt_step, tap_from_info, topological_sort, AnalysisReport, BrewPackage,
    HomebrewMigrator, MigrateResult, MigrationReport, MigrationRisk, MigrationState, PromptAction,
};

fn pkg(name: &str, deps: &[&str]) -> BrewPackage {
    BrewPackage {
        name: name.to_string(),
        version: "1.0.0".to_string(),
        tap: None,
        is_cask: false,
        dependencies: deps.iter().map(|s| s.to_string()).collect(),
        pinned: false,
    }
}

fn names(list: &[BrewPackage]) -> Vec<String> {
    list.iter().map(|p| p.name.clone()).collect()
}

fn deny(list: &[&str]) -> Vec<String> {
    list.iter().map(|s| s.to_string()).collect()
}

fn verdict_names(report: &AnalysisReport) -> (Vec<String>, Vec<String>, Vec<String>) {
    (
        report.safe_to_migrate.iter().map(|a| a.name.clone()).collect(),
        report.risky.iter().map(|a| a.name.clone()).collect(),
        report.should_keep_in_homebrew.iter().map(|a| a.name.clone()).collect(),
    )
}

#[test]
fn order_is_a_permutation() {
    let packages = vec![
        pkg("e", &["c"]),
        pkg("a", &[]),
        pkg("d", &["b", "c"]),
        pkg("c", &["a"]),
        pkg("b", &["a"]),
    ];
    let result = topological_sort(&packages);
    let mut got = names(&result);
    got.sort();
    assert_eq!(got, vec!["a", "b", "c", "d", "e"]);
}

#[test]
fn order_is_the_depth_first_post_order() {
    let packages = vec![
        pkg("e", &["c"]),
        pkg("a", &[]),
        pkg("d", &["b", "c"]),
        pkg("c", &["a"]),
        pkg("b", &["a"]),
    ];
    let result = topological_sort(&packages);
    assert_eq!(names(&result), vec!["a", "c", "e", "b", "d"]);
}

#[test]
fn order_of_the_diamond_scenario() {
    let packages = vec![
        pkg("a", &[]),
        pkg("b", &["a"]),
        pkg("c", &["a"]),
        pkg("d", &["b", "c"]),
    ];
    let result = topological_sort(&packages);
    let order = names(&result);
    assert!(order == vec!["a", "b", "c", "d"] || order == vec!["a", "c", "b", "d"]);
    assert_eq!(order, vec!["a", "b", "c", "d"]);
}

#[test]
fn order_respects_edges_in_reverse_listing() {
    let packages = vec![pkg("c", &["b"]), pkg("b", &["a"]), pkg("a", &[])];
    let result = topological_sort(&packages);
    assert_eq!(names(&result), vec!["a", "b", "c"]);
}

#[test]
fn order_keeps_dangling_package() {
    let packages = vec![pkg("x", &["nowhere", "gone"]), pkg("y", &["x"])];
    let result = topological_sort(&packages);
    assert_eq!(names(&result), vec!["x", "y"]);
    assert_eq!(result[0].dependencies, vec!["nowhere", "gone"]);
}

#[test]
fn order_breaks_a_cycle_without_looping() {
    let packages = vec![pkg("a", &["b"]), pkg("b", &["a"]), pkg("c", &["c"])];
    let result = topological_sort(&packages);
    assert_eq!(names(&result), vec!["b", "a", "c"]);
}

#[test]
fn order_takes_the_last_of_duplicate_names() {
    let mut first = pkg("a", &[]);
    first.version = "1".to_string();
    let mut second = pkg("a", &[]);
    second.version = "2".to_string();
    let packages = vec![first, pkg("b", &["a"]), second];
    let result = topological_sort(&packages);
    assert_eq!(names(&result), vec!["a", "b"]);
    assert_eq!(result[0].version, "2");
}

#[test]
fn order_copies_every_field() {
    let mut p = pkg("tool", &["lib"]);
    p.tap = Some("user/tap".to_string());
    p.pinned = true;
    p.version = "3.2.1".to_string();
    let result = topological_sort(&vec![p]);
    assert_eq!(result.len(), 1);
    assert_eq!(result[0].tap, Some("user/tap".to_string()));
    assert!(result[0].pinned);
    assert_eq!(result[0].version, "3.2.1");
    assert_eq!(result[0].dependencies, vec!["lib"]);
}

#[test]
fn find_package_takes_the_last_match() {
    let packages = vec![pkg("a", &[]), pkg("b", &[]), pkg("a", &["x"])];
    assert_eq!(find_package(&packages, "a"), Some(2));
    assert_eq!(find_package(&packages, "b"), Some(1));
    assert_eq!(find_package(&packages, "c"), None);
}

#[test]
fn classification_scenario_openssl_curl_git() {
    let packages = vec![
        pkg("openssl", &[]),
        pkg("curl", &["openssl"]),
        pkg("git", &["curl"]),
    ];
    let report = analyze(&packages, &deny(&["openssl"]));
    assert_eq!(report.total_packages, 3);
    assert_eq!(report.should_keep_in_homebrew.len(), 1);
    assert_eq!(report.should_keep_in_homebrew[0].name, "openssl");
    assert_eq!(report.should_keep_in_homebrew[0].risk, MigrationRisk::KeepInHomebrew);
    assert_eq!(
        report.should_keep_in_homebrew[0].reason,
        "Core SSL/TLS library - many packages link against it"
    );
    assert_eq!(report.risky.len(), 2);
    assert_eq!(report.risky[0].name, "curl");
    assert_eq!(report.risky[0].risk, MigrationRisk::Risky);
    assert_eq!(report.risky[0].problematic_dependencies, vec!["openssl"]);
    assert_eq!(report.risky[0].reason, "Depends on 1 problematic package(s)");
    assert_eq!(report.risky[1].name, "git");
    assert_eq!(report.risky[1].problematic_dependencies, vec!["openssl"]);
    assert_eq!(
        report.risky[1].reason,
        "Has transitive dependency on 1 problematic package(s)"
    );
    assert!(report.safe_to_migrate.is_empty());
}

#[test]
fn classification_with_empty_denylist_is_all_safe() {
    let packages = vec![
        pkg("openssl", &[]),
        pkg("curl", &["openssl"]),
        pkg("git", &["curl", "git"]),
        pkg("loop", &["loop"]),
    ];
    let report = analyze(&packages, &Vec::new());
    assert_eq!(report.safe_to_migrate.len(), 4);
    assert!(report.risky.is_empty());
    assert!(report.should_keep_in_homebrew.is_empty());
    for a in &report.safe_to_migrate {
        assert_eq!(a.risk, MigrationRisk::Safe);
        assert_eq!(a.reason, "No known problematic dependencies");
        assert!(a.problematic_dependencies.is_empty());
    }
}

#[test]
fn classification_partitions_and_sorts() {
    let packages = vec![
        pkg("zeta", &[]),
        pkg("cmake", &["zlib"]),
        pkg("alpha", &["zlib"]),
        pkg("zlib", &[]),
        pkg("beta", &["alpha"]),
        pkg("Mixed", &[]),
    ];
    let report = analyze(&packages, &deny(&["zlib", "cmake"]));
    let (safe, risky, keep) = verdict_names(&report);
    assert_eq!(safe, vec!["Mixed", "zeta"]);
    assert_eq!(risky, vec!["alpha", "beta"]);
    assert_eq!(keep, vec!["cmake", "zlib"]);
    assert_eq!(report.total_packages, safe.len() + risky.len() + keep.len());
}

#[test]
fn denied_name_wins_over_dependencies() {
    let packages = vec![pkg("curl", &["openssl", "zlib"]), pkg("openssl", &[])];
    let report = analyze(&packages, &deny(&["curl", "openssl", "zlib"]));
    let (safe, risky, keep) = verdict_names(&report);
    assert!(safe.is_empty());
    assert!(risky.is_empty());
    assert_eq!(keep, vec!["curl", "openssl"]);
    assert!(report.should_keep_in_homebrew[0].problematic_dependencies.is_empty());
    assert_eq!(
        report.should_keep_in_homebrew[0].reason,
        "URL transfer library - fundamental networking tool"
    );
}

#[test]
fn transitive_detection_cites_the_far_name() {
    let packages = vec![pkg("p", &["q"]), pkg("q", &["r"]), pkg("r", &[])];
    let report = analyze(&packages, &deny(&["r"]));
    let p = report.risky.iter().find(|a| a.name == "p").unwrap();
    assert_eq!(p.problematic_dependencies, vec!["r"]);
    let q = report.risky.iter().find(|a| a.name == "q").unwrap();
    assert_eq!(q.problematic_dependencies, vec!["r"]);
    assert_eq!(q.reason, "Depends on 1 problematic package(s)");
}

#[test]
fn transitive_search_dedups_and_survives_cycles() {
    let packages = vec![
        pkg("p", &["a", "b"]),
        pkg("a", &["x", "b", "ghost"]),
        pkg("b", &["a", "x", "y"]),
        pkg("x", &[]),
    ];
    let found = find_transitive_problematic_deps(&packages[0], &packages, &deny(&["x", "y", "ghost"]));
    assert_eq!(found, vec!["x", "y", "ghost"]);
}

#[test]
fn direct_denied_names_are_distinct_in_listed_order() {
    let packages = vec![pkg("app", &["zlib", "xz", "zlib", "fine"])];
    let report = analyze(&packages, &deny(&["zlib", "xz"]));
    assert_eq!(report.risky[0].problematic_dependencies, vec!["zlib", "xz"]);
    assert_eq!(report.risky[0].reason, "Depends on 2 problematic package(s)");
    let twice = vec![pkg("p", &["d", "d"])];
    let report = analyze(&twice, &deny(&["d"]));
    assert_eq!(report.risky[0].problematic_dependencies, vec!["d"]);
    assert_eq!(report.risky[0].reason, "Depends on 1 problematic package(s)");
}

#[test]
fn counts_of_two_digits_are_written_out() {
    let deps: Vec<String> = (0..12).map(|i| format!("d{}", i)).collect();
    let refs: Vec<&str> = deps.iter().map(|s| s.as_str()).collect();
    let packages = vec![pkg("many", &refs)];
    let report = analyze(&packages, &deps);
    assert_eq!(report.risky[0].reason, "Depends on 12 problematic package(s)");
}

#[test]
fn reasons_follow_the_table() {
    assert_eq!(
        get_problematic_reason("openssl@3"),
        "Core SSL/TLS library - many packages link against it"
    );
    assert_eq!(
        get_problematic_reason("python@3.12"),
        "Python runtime - complex virtual environment and pip dependencies"
    );
    assert_eq!(
        get_problematic_reason("gtk+3"),
        "GTK/graphics library - complex native rendering dependencies"
    );
    assert_eq!(
        get_problematic_reason("node@20"),
        "Node.js runtime - native modules require specific linking"
    );
    assert_eq!(
        get_problematic_reason("libpq"),
        "PostgreSQL client - complex library dependencies"
    );
    assert_eq!(
        get_problematic_reason("zstd"),
        "Compression library - widely linked by other packages"
    );
    assert_eq!(
        get_problematic_reason("libssh2"),
        "SSH library - security-critical dependency"
    );
    assert_eq!(
        get_problematic_reason("ruby"),
        "Ruby runtime - gem native extensions require specific linking"
    );
    assert_eq!(
        get_problematic_reason("pcre2"),
        "Regular expression library - used by many text processing tools"
    );
    assert_eq!(get_problematic_reason("something-else"), "Known to cause migration issues");
    assert_eq!(get_problematic_reason(""), "Known to cause migration issues");
}

#[test]
fn known_list_holds_the_usual_suspects() {
    let list = known_problematic_packages();
    assert_eq!(list.len(), 57);
    assert_eq!(list[0], "openssl@3");
    assert_eq!(list[56], "pcre2");
    assert!(list.iter().any(|n| n == "icu4c"));
}

#[test]
fn migrator_analysis_uses_the_known_list() {
    let migrator = HomebrewMigrator::new(std::path::PathBuf::from("/opt/homebrew"), "/home/u", false);
    assert_eq!(migrator.state_file(), "/home/u/.zerobrew/migration_state.json");
    assert!(!migrator.verbose());
    assert_eq!(migrator.homebrew_prefix, std::path::PathBuf::from("/opt/homebrew"));
    let packages = vec![pkg("openssl@3", &[]), pkg("git", &["pcre2"]), pkg("jq", &[])];
    let report = migrator.analyze_packages(&packages);
    let (safe, risky, keep) = verdict_names(&report);
    assert_eq!(safe, vec!["jq"]);
    assert_eq!(risky, vec!["git"]);
    assert_eq!(keep, vec!["openssl@3"]);
    let order = migrator.topological_sort(&packages);
    assert_eq!(names(&order), vec!["openssl@3", "git", "jq"]);
}

#[test]
fn empty_report() {
    let report = AnalysisReport::new();
    assert!(report.safe_to_migrate.is_empty());
    assert!(report.risky.is_empty());
    assert!(report.should_keep_in_homebrew.is_empty());
    assert_eq!(report.total_packages, 0);
    let built = AnalysisReport::build(0, Vec::new(), Vec::new(), Vec::new());
    assert_eq!(built.total_packages, 0);
}

#[test]
fn listing_marks_pinned_and_casks() {
    let packages = parse_listing("git 2.42.0\n\twget\t1.21 extra\r\n", &deny(&["wget"]), true);
    assert_eq!(packages.len(), 2);
    assert!(!packages[0].pinned);
    assert!(packages[1].pinned);
    assert_eq!(packages[1].name, "wget");
    assert_eq!(packages[1].version, "1.21");
    assert!(packages[0].is_cask);
    assert!(packages[0].tap.is_none());
    assert!(packages[0].dependencies.is_empty());
}

#[test]
fn output_lines_split_like_str_lines() {
    assert_eq!(output_lines("foo\nbar\n\r\nbaz\r"), vec!["foo", "bar", "", "baz\r"]);
    assert_eq!(output_lines(""), Vec::<String>::new());
    assert_eq!(output_lines("a\n"), vec!["a"]);
    assert_eq!(output_lines("\n"), vec![""]);
    let text = "x\r\ny\nz";
    let expected: Vec<String> = text.lines().map(|s| s.to_string()).collect();
    assert_eq!(output_lines(text), expected);
}

#[test]
fn brewfile_exact_text() {
    let mut neovim = pkg("neovim", &[]);
    neovim.tap = Some("user/tap".to_string());
    let mut other = pkg("other", &[]);
    other.tap = Some("user/tap".to_string());
    let content = brewfile_content(&vec![neovim, other], &vec![pkg("app", &[])]);
    assert_eq!(
        content,
        "# Zerobrew Migration Brewfile\n# Generated from Homebrew installation\n\n\
         tap \"user/tap\"\n\nbrew \"neovim\"\nbrew \"other\"\n\ncask \"app\"\n"
    );
}

#[test]
fn tap_is_read_from_the_info_document() {
    let custom = r#"{"formulae":[{"name":"tool","tap":"user/custom-tap"}],"casks":[]}"#;
    assert_eq!(tap_from_info(custom), Some("user/custom-tap".to_string()));
    let core = r#"{"formulae":[{"name":"git","tap":"homebrew/core"}]}"#;
    assert_eq!(tap_from_info(core), None);
    assert_eq!(tap_from_info("not json"), None);
    assert_eq!(tap_from_info(r#"{"formulae":[]}"#), None);
    assert_eq!(non_core_tap("homebrew/core"), None);
    assert_eq!(non_core_tap("a/b"), Some("a/b".to_string()));
}

#[test]
fn prompt_steps() {
    assert_eq!(prompt_step(true, None), (true, PromptAction::Migrate));
    assert_eq!(prompt_step(false, Some(0)), (false, PromptAction::Migrate));
    assert_eq!(prompt_step(false, Some(1)), (false, PromptAction::Skip));
    assert_eq!(prompt_step(false, Some(2)), (true, PromptAction::Migrate));
    assert_eq!(prompt_step(false, Some(3)), (false, PromptAction::Stop));
    assert_eq!(prompt_step(false, None), (false, PromptAction::Stop));
    assert_eq!(prompt_step(false, Some(7)), (false, PromptAction::Ignore));
}

#[test]
fn report_records_outcomes_and_casks() {
    let mut report = MigrationReport::default();
    report.record(MigrateResult::Success {
        name: "git".to_string(),
        version: "2.42.0".to_string(),
    });
    report.record(MigrateResult::Failed {
        name: "bad".to_string(),
        reason: "boom".to_string(),
    });
    report.skip_casks(&vec![pkg("app", &[])]);
    report.skip_by_user(&pkg("later", &[]));
    assert_eq!(report.successful, vec!["git"]);
    assert_eq!(report.failed, vec![("bad".to_string(), "boom".to_string())]);
    assert_eq!(
        report.skipped,
        vec![
            ("app".to_string(), "Casks not yet supported".to_string()),
            ("later".to_string(), "User skipped".to_string())
        ]
    );

    let mut state = MigrationState::default();
    let formulae = vec![pkg("git", &["pcre2"]), pkg("bad", &[])];
    state.record_run(std::path::PathBuf::from("/opt/homebrew"), &report, &formulae);
    assert_eq!(state.homebrew_prefix, std::path::PathBuf::from("/opt/homebrew"));
    assert_eq!(state.failed_packages, vec!["bad"]);
    assert_eq!(state.migrated_packages.len(), 1);
    assert_eq!(state.migrated_packages["git"].dependencies, vec!["pcre2"]);
}

#[test]
fn install_outcomes() {
    let p = pkg("git", &[]);
    match MigrateResult::of_install(&p, None) {
        MigrateResult::Success { name, version } => {
            assert_eq!(name, "git");
            assert_eq!(version, "1.0.0");
        }
        MigrateResult::Failed { .. } => panic!("expected success"),
    }
    match MigrateResult::of_install(&p, Some("no bottle".to_string())) {
        MigrateResult::Failed { name, reason } => {
            assert_eq!(name, "git");
            assert_eq!(reason, "no bottle");
        }
        MigrateResult::Success { .. } => panic!("expected failure"),
    }
}
