use cargo_review_deps::error::ReviewError;
use cargo_review_deps::graph::{
    contains_text, format_cargo_toml, locate_package, package_dir, DependencyGraph,
    ResolvedPackage,
};
use cargo_review_deps::lockfile_guard::LockfileGuard;
use cargo_review_deps::package_id::{compare_text, decimal_text, PackageId, Version};
use std::cmp::Ordering;
use cargo_review_deps::snapshot_diff::{metadata_diff, PackageDiff};
use cargo_review_deps::workflow::{
    diff_launch_error, CopyJob, Current, Diff, DumpJob, UpdateAction, UpdateSession, UpdateStage,
};

const REGISTRY_ID: &str = "registry+https://github.com/rust-lang/crates.io-index";

fn pkg(name: &str, version: &str, id: &str, manifest: &str) -> ResolvedPackage {
    ResolvedPackage {
        name: name.to_string(),
        version: version.to_string(),
        id: id.to_string(),
        manifest_path: manifest.to_string(),
    }
}

fn reg(name: &str, version: &str) -> ResolvedPackage {
    let id = format!("{} {} ({})", name, version, REGISTRY_ID);
    let manifest = format!("/registry/src/{}-{}/Cargo.toml", name, version);
    pkg(name, version, &id, &manifest)
}

fn graph(packages: Vec<ResolvedPackage>) -> DependencyGraph {
    DependencyGraph { workspace_root: "/project".to_string(), packages }
}

#[test]
fn parse_plain_identifier() {
    let id = PackageId::parse("rand:0.6.0").unwrap();
    assert_eq!(id.name(), "rand");
    assert_eq!(id.version().major, 0);
    assert_eq!(id.version().minor, 6);
    assert_eq!(id.version().patch, 0);
    assert_eq!(id.version().pre, "");
    assert_eq!(id.version().build, "");
    assert_eq!(id.to_string(), "rand:0.6.0");
}

#[test]
fn parse_round_trips_through_text() {
    for s in ["rand:0.6.1", "serde_json:1.0.154", "a-b:10.20.30-alpha.1+build.007", "x:0.0.0+meta"] {
        let id = PackageId::parse(s).unwrap();
        let text = id.to_string();
        assert_eq!(text, s);
        assert_eq!(PackageId::parse(&text).unwrap(), id);
    }
}

#[test]
fn parse_keeps_prerelease_and_build() {
    let id = PackageId::parse("foo:1.2.3-beta.2+sha.5114f85").unwrap();
    assert_eq!(id.version().pre, "beta.2");
    assert_eq!(id.version().build, "sha.5114f85");
}

#[test]
fn parse_splits_at_first_colon() {
    // The rest after the first colon must be a version: a second colon is refused.
    assert_eq!(
        PackageId::parse("a:b:1.0.0"),
        Err(ReviewError::InvalidSpecification("a:b:1.0.0".to_string()))
    );
    // An empty name is accepted by the grammar.
    let id = PackageId::parse(":1.0.0").unwrap();
    assert_eq!(id.name(), "");
}

#[test]
fn parse_rejects_missing_colon() {
    assert_eq!(
        PackageId::parse("rand-0.6.1"),
        Err(ReviewError::InvalidSpecification("rand-0.6.1".to_string()))
    );
    assert_eq!(PackageId::parse(""), Err(ReviewError::InvalidSpecification(String::new())));
}

#[test]
fn parse_rejects_bad_versions() {
    for s in ["rand:0.6", "rand:", "rand:01.2.3", "rand:1.2.3-", "rand: 1.2.3", "rand:1.2.3.4", "rand:v1.2.3"] {
        assert_eq!(PackageId::parse(s), Err(ReviewError::InvalidSpecification(s.to_string())), "{}", s);
    }
}

#[test]
fn from_str_rejects_like_parse() {
    let r: Result<PackageId, ReviewError> = "rand-0.6.1".parse();
    assert_eq!(r, Err(ReviewError::InvalidSpecification("rand-0.6.1".to_string())));
    let id: PackageId = "rand:0.6.0".parse().unwrap();
    assert_eq!(id.to_string(), "rand:0.6.0");
}

#[test]
fn from_str_matches_parse() {
    let id: PackageId = "rand:0.6.0".parse().unwrap();
    assert_eq!(id, PackageId::parse("rand:0.6.0").unwrap());
}

#[test]
fn decimal_text_values() {
    assert_eq!(decimal_text(0), "0");
    assert_eq!(decimal_text(7), "7");
    assert_eq!(decimal_text(10), "10");
    assert_eq!(decimal_text(1234567890), "1234567890");
    assert_eq!(decimal_text(u64::MAX), "18446744073709551615");
}

#[test]
fn version_text_has_optional_parts() {
    let v = Version { major: 1, minor: 0, patch: 12, pre: String::new(), build: "b".to_string() };
    assert_eq!(v.to_string(), "1.0.12+b");
    let v = Version { major: 3, minor: 4, patch: 5, pre: "rc.1".to_string(), build: String::new() };
    assert_eq!(v.to_string(), "3.4.5-rc.1");
}

#[test]
fn fetch_manifest_pins_exact_version() {
    let id = PackageId::parse("rand:0.6.0").unwrap();
    assert_eq!(
        format_cargo_toml(&id),
        "\n[package]\nname = \"cargo-diff-temp-pkg\"\nversion = \"0.0.0\"\n\n[lib]\npath = \"./Cargo.toml\"\n\n[dependencies]\nrand = \"=0.6.0\"\n"
    );
}

#[test]
fn contains_text_cases() {
    assert!(contains_text("abc", ""));
    assert!(contains_text("abc", "abc"));
    assert!(contains_text("xxabcxx", "bc"));
    assert!(!contains_text("ab", "abc"));
    assert!(!contains_text("acb", "ab"));
    assert!(!contains_text("", "a"));
}

#[test]
fn registry_filter_reads_the_identifier() {
    assert!(reg("rand", "0.6.0").is_registry());
    assert!(!pkg("test-pkg", "0.0.0", "test-pkg 0.0.0 (path+file:///tmp/p)", "/tmp/p/Cargo.toml").is_registry());
}

#[test]
fn package_dir_is_manifest_parent() {
    assert_eq!(package_dir(&reg("rand", "0.6.0")), Ok("/registry/src/rand-0.6.0".to_string()));
    let bad = pkg("x", "1.0.0", REGISTRY_ID, "");
    assert_eq!(package_dir(&bad), Err(ReviewError::BadManifestPath(String::new())));
    let root = pkg("x", "1.0.0", REGISTRY_ID, "/");
    assert_eq!(package_dir(&root), Err(ReviewError::BadManifestPath("/".to_string())));
}

#[test]
fn locate_package_finds_exact_version() {
    let g = graph(vec![reg("rand", "0.5.0"), reg("rand", "0.6.0"), reg("libc", "0.2.0")]);
    let id = PackageId::parse("rand:0.6.0").unwrap();
    assert_eq!(locate_package(&g, &id), Ok("/registry/src/rand-0.6.0".to_string()));
}

#[test]
fn locate_package_reports_missing() {
    let g = graph(vec![reg("rand", "0.5.0")]);
    let id = PackageId::parse("rand:0.6.0").unwrap();
    assert_eq!(locate_package(&g, &id), Err(ReviewError::PackageNotFound("rand:0.6.0".to_string())));
}

#[test]
fn locate_package_reports_bad_manifest() {
    let g = graph(vec![pkg("rand", "0.6.0", REGISTRY_ID, "")]);
    let id = PackageId::parse("rand:0.6.0").unwrap();
    assert_eq!(locate_package(&g, &id), Err(ReviewError::BadManifestPath(String::new())));
}

#[test]
fn diff_of_graph_with_itself_is_empty() {
    let g = graph(vec![reg("rand", "0.6.0"), reg("libc", "0.2.0"), reg("rand", "0.5.0")]);
    assert_eq!(metadata_diff(&g, &g), Ok(vec![]));
    let empty = graph(vec![]);
    assert_eq!(metadata_diff(&empty, &empty), Ok(vec![]));
}

#[test]
fn diff_reports_changed_removed_added() {
    let before = graph(vec![reg("rand", "0.6.0"), reg("libc", "0.2.0"), reg("old", "1.0.0")]);
    let after = graph(vec![reg("new", "2.0.0"), reg("libc", "0.2.0"), reg("rand", "0.6.1")]);
    let d = metadata_diff(&before, &after).unwrap();
    assert_eq!(
        d,
        vec![
            PackageDiff {
                name: "rand".to_string(),
                before: Some("/registry/src/rand-0.6.0".to_string()),
                after: Some("/registry/src/rand-0.6.1".to_string()),
            },
            PackageDiff {
                name: "old".to_string(),
                before: Some("/registry/src/old-1.0.0".to_string()),
                after: None,
            },
            PackageDiff {
                name: "new".to_string(),
                before: None,
                after: Some("/registry/src/new-2.0.0".to_string()),
            },
        ]
    );
}

#[test]
fn diff_compares_every_version_of_a_name() {
    let before = graph(vec![reg("rand", "0.6.0"), reg("rand", "0.4.0")]);
    let after = graph(vec![reg("rand", "0.6.0"), reg("rand", "0.5.0")]);
    assert_eq!(
        metadata_diff(&before, &after),
        Ok(vec![PackageDiff {
            name: "rand".to_string(),
            before: Some("/registry/src/rand-0.4.0".to_string()),
            after: Some("/registry/src/rand-0.5.0".to_string()),
        }])
    );
}

#[test]
fn diff_fails_on_manifest_without_parent() {
    let before = graph(vec![]);
    let after = graph(vec![pkg("x", "1.0.0", REGISTRY_ID, "")]);
    assert_eq!(metadata_diff(&before, &after), Err(ReviewError::BadManifestPath(String::new())));
}

#[test]
fn dump_jobs_for_each_side() {
    let d = PackageDiff { name: "rand".to_string(), before: Some("/a".to_string()), after: Some("/b".to_string()) };
    assert_eq!(
        d.dump_jobs(),
        vec![
            DumpJob { src: "/a".to_string(), side: "before".to_string(), name: "rand".to_string() },
            DumpJob { src: "/b".to_string(), side: "after".to_string(), name: "rand".to_string() },
        ]
    );
    let added = PackageDiff { name: "n".to_string(), before: None, after: Some("/n".to_string()) };
    assert_eq!(
        added.dump_jobs(),
        vec![DumpJob { src: "/n".to_string(), side: "after".to_string(), name: "n".to_string() }]
    );
}

#[test]
fn current_skips_workspace_member_and_copies_registry_dep() {
    let g = graph(vec![
        pkg("test-pkg", "0.0.0", "test-pkg 0.0.0 (path+file:///tmp/temp-project)", "/tmp/temp-project/Cargo.toml"),
        reg("thread_local", "0.3.6"),
    ]);
    let current = Current { dest: "/tmp/temp-project/dest".to_string() };
    let plan = current.plan(&g).unwrap();
    assert_eq!(plan.skipped, vec!["test-pkg".to_string()]);
    assert_eq!(
        plan.copies,
        vec![CopyJob {
            src: "/registry/src/thread_local-0.3.6".to_string(),
            dst_name: "thread_local:0.3.6".to_string(),
        }]
    );
}

#[test]
fn current_fails_on_registry_package_without_dir() {
    let g = graph(vec![pkg("x", "1.0.0", REGISTRY_ID, "")]);
    let current = Current { dest: "/d".to_string() };
    assert_eq!(current.plan(&g), Err(ReviewError::BadManifestPath(String::new())));
}

#[test]
fn diff_destination_names_are_identifier_texts() {
    let d = Diff {
        first: PackageId::parse("rand:0.6.0").unwrap(),
        second: PackageId::parse("rand:0.6.1").unwrap(),
        dest: Some("/d".to_string()),
    };
    assert_eq!(d.destination_names(), ("rand:0.6.0".to_string(), "rand:0.6.1".to_string()));
}

#[test]
fn diff_launch_error_cases() {
    assert_eq!(diff_launch_error(false, "not found".to_string()), ReviewError::MissingDiffTool);
    assert_eq!(diff_launch_error(true, "denied".to_string()), ReviewError::Io("denied".to_string()));
}

#[test]
fn guard_backup_is_sibling_path() {
    let g = LockfileGuard::new("/p/Cargo.lock".to_string(), "contents".to_string()).unwrap();
    assert_eq!(g.lockfile_path(), "/p/Cargo.lock");
    assert_eq!(g.backup_path(), "/p/Cargo..lock.back");
    assert_eq!(g.contents(), "contents");
    assert!(!g.is_restored());
}

#[test]
fn guard_restores_only_once() {
    let mut g = LockfileGuard::new("/p/Cargo.lock".to_string(), "orig".to_string()).unwrap();
    assert!(g.begin_restore());
    assert!(g.is_restored());
    assert!(!g.begin_restore());
    assert!(g.is_restored());
    assert_eq!(g.contents(), "orig");
}

fn run_session(outcomes: &[bool]) -> Vec<UpdateAction> {
    let mut s = UpdateSession::new();
    let mut actions = vec![s.step(true)];
    for &ok in outcomes {
        actions.push(s.step(ok));
    }
    actions
}

#[test]
fn update_session_success_path() {
    let actions = run_session(&[true, true, true, true, true, true]);
    assert_eq!(
        actions,
        vec![
            UpdateAction::QueryBefore,
            UpdateAction::AcquireGuard,
            UpdateAction::RunUpdate,
            UpdateAction::QueryAfter,
            UpdateAction::DumpDiff,
            UpdateAction::RestoreLockfile,
            UpdateAction::Finish,
        ]
    );
}

#[test]
fn update_session_failed_update_restores_then_fails() {
    let mut s = UpdateSession::new();
    assert_eq!(s.step(true), UpdateAction::QueryBefore);
    assert_eq!(s.step(true), UpdateAction::AcquireGuard);
    assert_eq!(s.step(true), UpdateAction::RunUpdate);
    assert!(s.guard_held);
    assert_eq!(s.step(false), UpdateAction::RestoreLockfile);
    assert_eq!(s.step(true), UpdateAction::Fail);
    assert!(!s.guard_held);
    assert_eq!(s.stage, UpdateStage::Failed);
    assert_eq!(s.step(true), UpdateAction::Fail);
}

#[test]
fn update_session_failure_before_guard_needs_no_restore() {
    let actions = run_session(&[false]);
    assert_eq!(actions, vec![UpdateAction::QueryBefore, UpdateAction::Fail]);
    let actions = run_session(&[true, false]);
    assert_eq!(actions, vec![UpdateAction::QueryBefore, UpdateAction::AcquireGuard, UpdateAction::Fail]);
}

#[test]
fn update_session_failed_dump_and_restore() {
    let actions = run_session(&[true, true, true, true, false, true]);
    assert_eq!(actions[5], UpdateAction::RestoreLockfile);
    assert_eq!(actions[6], UpdateAction::Fail);
    let actions = run_session(&[true, true, true, true, true, false]);
    assert_eq!(actions[6], UpdateAction::Fail);
}

fn id(s: &str) -> PackageId {
    PackageId::parse(s).unwrap()
}

#[test]
fn compare_orders_by_name_then_version() {
    assert_eq!(id("rand:0.6.0").compare(&id("rand:0.6.1")), Ordering::Less);
    assert_eq!(id("rand:0.6.1").compare(&id("rand:0.6.0")), Ordering::Greater);
    assert_eq!(id("a:9.0.0").compare(&id("b:0.1.0")), Ordering::Less);
    assert_eq!(id("ab:1.0.0").compare(&id("a:1.0.0")), Ordering::Greater);
    assert_eq!(id("rand:0.6.0").compare(&id("rand:0.6.0")), Ordering::Equal);
}

#[test]
fn compare_follows_version_precedence() {
    assert_eq!(id("x:1.0.0-alpha").compare(&id("x:1.0.0")), Ordering::Less);
    assert_eq!(id("x:1.0.0-alpha.2").compare(&id("x:1.0.0-alpha.10")), Ordering::Less);
    assert_eq!(id("x:1.0.0-alpha.1").compare(&id("x:1.0.0-alpha.beta")), Ordering::Less);
    assert_eq!(id("x:1.10.0").compare(&id("x:1.9.0")), Ordering::Greater);
}

#[test]
fn compare_text_cases() {
    assert_eq!(compare_text("", ""), Ordering::Equal);
    assert_eq!(compare_text("", "a"), Ordering::Less);
    assert_eq!(compare_text("b", "a"), Ordering::Greater);
    assert_eq!(compare_text("abc", "abd"), Ordering::Less);
    assert_eq!(compare_text("abc", "ab"), Ordering::Greater);
}

#[test]
fn clone_keeps_identifier() {
    let a = id("rand:0.6.0-rc.1+b");
    let b = a.clone();
    assert_eq!(a, b);
    assert_eq!(b.to_string(), "rand:0.6.0-rc.1+b");
}

#[test]
fn guard_refuses_path_without_file_name() {
    assert_eq!(
        LockfileGuard::new("/".to_string(), "x".to_string()).unwrap_err(),
        ReviewError::Io("lock file path names no file: /".to_string())
    );
    assert_eq!(
        LockfileGuard::new(String::new(), "x".to_string()).unwrap_err(),
        ReviewError::Io("lock file path names no file: ".to_string())
    );
}

#[test]
fn diff_keeps_before_when_a_version_is_added_beside_it() {
    let before = graph(vec![reg("p", "1.0.0")]);
    let after = graph(vec![reg("p", "1.0.0"), reg("p", "2.0.0")]);
    assert_eq!(
        metadata_diff(&before, &after),
        Ok(vec![PackageDiff {
            name: "p".to_string(),
            before: Some("/registry/src/p-1.0.0".to_string()),
            after: Some("/registry/src/p-2.0.0".to_string()),
        }])
    );
}

#[test]
fn diff_keeps_after_when_a_version_is_dropped_beside_it() {
    let before = graph(vec![reg("p", "1.0.0"), reg("p", "2.0.0")]);
    let after = graph(vec![reg("p", "2.0.0")]);
    assert_eq!(
        metadata_diff(&before, &after),
        Ok(vec![PackageDiff {
            name: "p".to_string(),
            before: Some("/registry/src/p-1.0.0".to_string()),
            after: Some("/registry/src/p-2.0.0".to_string()),
        }])
    );
}
