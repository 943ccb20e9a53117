//! Tests for classification, single-location resolution and aggregation.
use project_model::abs_path::AbsPath;
use project_model::error::ProjectError;
use project_model::manifest::ProjectManifest;
use project_model::resolve::{DiscoverInput, PackageCandidate};
use project_model::script::ScriptCandidate;

fn path(parts: &[&str]) -> AbsPath {
    AbsPath { components: parts.iter().map(|s| s.as_bytes().to_vec()).collect() }
}

/// An observation of a tree where nothing exists anywhere around `start`.
fn empty_input(start: AbsPath) -> DiscoverInput {
    let levels = start.components.len() + 1;
    DiscoverInput {
        start,
        structured_above: vec![false; levels],
        package_above: vec![false; levels],
        package_children: Ok(Vec::new()),
        script_children: Ok(Vec::new()),
    }
}

fn script_candidate(p: AbsPath, head: &[u8], rest: &[u8]) -> ScriptCandidate {
    ScriptCandidate {
        path: p,
        is_dir: false,
        head: Some(head.to_vec()),
        first_line_rest: Some(rest.to_vec()),
    }
}

#[test]
fn classify_structured_project() {
    let r = ProjectManifest::from_manifest_file(path(&["w", "rust-project.json"]));
    assert_eq!(r.unwrap(), ProjectManifest::ProjectJson(path(&["w", "rust-project.json"])));
}

#[test]
fn classify_package_manifest() {
    let r = ProjectManifest::from_manifest_file(path(&["w", "Cargo.toml"]));
    assert_eq!(r.unwrap(), ProjectManifest::CargoToml(path(&["w", "Cargo.toml"])));
}

#[test]
fn classify_rejects_other_names() {
    for name in ["lib.rs", "cargo.toml", "rust-project.toml", "Cargo.lock", "x"] {
        let r = ProjectManifest::from_manifest_file(path(&["w", name]));
        match r {
            Err(ProjectError::InvalidManifest(p)) => assert_eq!(p, path(&["w", name])),
            _ => panic!("expected InvalidManifest for {}", name),
        }
    }
}

#[test]
fn classify_never_yields_standalone_script() {
    // A script-looking name is still rejected: scripts are detected by
    // content during discovery, never by the classifier.
    let r = ProjectManifest::from_manifest_file(path(&["w", "tool.ers"]));
    assert!(matches!(r, Err(ProjectError::InvalidManifest(_))));
}

#[test]
fn structured_project_takes_precedence() {
    // rust-project.json exists at /root; /root/pkg/Cargo.toml exists;
    // resolving from /root/pkg returns only the structured project.
    let mut input = empty_input(path(&["root", "pkg"]));
    // Ancestors of /root/pkg: itself, /root, the root directory.
    input.structured_above = vec![false, true, false];
    // /root/pkg/Cargo.toml exists at the starting path itself.
    input.package_above = vec![true, false, false];
    input.package_children = Ok(vec![PackageCandidate {
        path: path(&["root", "pkg", "sub"]),
        has_manifest: true,
    }]);
    let r = ProjectManifest::discover(&input).unwrap();
    assert_eq!(r, vec![ProjectManifest::ProjectJson(path(&["root", "rust-project.json"]))]);
}

#[test]
fn start_naming_the_structured_file_wins() {
    let mut input = empty_input(path(&["root", "rust-project.json"]));
    input.package_above = vec![true, true, true];
    let r = ProjectManifest::discover(&input).unwrap();
    assert_eq!(r, vec![ProjectManifest::ProjectJson(path(&["root", "rust-project.json"]))]);
}

#[test]
fn start_that_is_a_package_manifest_file_returns_itself() {
    let input = empty_input(path(&["proj", "Cargo.toml"]));
    let r = ProjectManifest::discover(&input).unwrap();
    assert_eq!(r, vec![ProjectManifest::CargoToml(path(&["proj", "Cargo.toml"]))]);
}

#[test]
fn structured_project_at_the_filesystem_root() {
    let mut input = empty_input(path(&["root", "pkg"]));
    // Only the last ancestor level — the filesystem root — holds the file.
    input.structured_above = vec![false, false, true];
    let r = ProjectManifest::discover(&input).unwrap();
    assert_eq!(r, vec![ProjectManifest::ProjectJson(path(&["rust-project.json"]))]);
}

#[test]
fn package_manifest_found_upward() {
    let mut input = empty_input(path(&["a", "b", "c"]));
    // Cargo.toml exists next to /a/b (ancestor index 1).
    input.package_above = vec![false, true, false, false];
    // Child matches must be ignored: the upward hit wins inside the branch.
    input.package_children = Ok(vec![PackageCandidate {
        path: path(&["a", "b", "c", "sub"]),
        has_manifest: true,
    }]);
    let r = ProjectManifest::discover(&input).unwrap();
    assert_eq!(r, vec![ProjectManifest::CargoToml(path(&["a", "b", "Cargo.toml"]))]);
}

#[test]
fn package_manifests_one_level_down() {
    let mut input = empty_input(path(&["ws"]));
    input.package_children = Ok(vec![
        PackageCandidate { path: path(&["ws", "beta"]), has_manifest: true },
        PackageCandidate { path: path(&["ws", "notes"]), has_manifest: false },
        PackageCandidate { path: path(&["ws", "alpha"]), has_manifest: true },
    ]);
    let r = ProjectManifest::discover(&input).unwrap();
    // Directory-iteration order is kept at this layer; no sorting here.
    assert_eq!(
        r,
        vec![
            ProjectManifest::CargoToml(path(&["ws", "beta", "Cargo.toml"])),
            ProjectManifest::CargoToml(path(&["ws", "alpha", "Cargo.toml"])),
        ]
    );
}

#[test]
fn scripts_follow_package_manifests() {
    let mut input = empty_input(path(&["ws"]));
    input.package_children = Ok(vec![PackageCandidate {
        path: path(&["ws", "pkg"]),
        has_manifest: true,
    }]);
    input.script_children = Ok(vec![script_candidate(
        path(&["ws", "tool.rs"]),
        b"#!/",
        b"usr/bin/env rust-script",
    )]);
    let r = ProjectManifest::discover(&input).unwrap();
    assert_eq!(
        r,
        vec![
            ProjectManifest::CargoToml(path(&["ws", "pkg", "Cargo.toml"])),
            ProjectManifest::RustScript(path(&["ws", "tool.rs"])),
        ]
    );
}

#[test]
fn failed_script_listing_degrades_to_package_results() {
    let mut input = empty_input(path(&["ws"]));
    input.package_children = Ok(vec![PackageCandidate {
        path: path(&["ws", "pkg"]),
        has_manifest: true,
    }]);
    input.script_children = Err("permission denied".to_string());
    let r = ProjectManifest::discover(&input).unwrap();
    assert_eq!(r, vec![ProjectManifest::CargoToml(path(&["ws", "pkg", "Cargo.toml"]))]);
}

#[test]
fn failed_package_listing_degrades_to_script_results() {
    let mut input = empty_input(path(&["ws"]));
    input.package_children = Err("permission denied".to_string());
    input.script_children = Ok(vec![script_candidate(
        path(&["ws", "tool.ers"]),
        b"#! ",
        b"rust-script runner",
    )]);
    let r = ProjectManifest::discover(&input).unwrap();
    assert_eq!(r, vec![ProjectManifest::RustScript(path(&["ws", "tool.ers"]))]);
}

#[test]
fn both_listings_failing_surfaces_the_package_error() {
    let mut input = empty_input(path(&["ws"]));
    input.package_children = Err("no such directory".to_string());
    input.script_children = Err("also broken".to_string());
    match ProjectManifest::discover(&input) {
        Err(ProjectError::IoError(m)) => assert_eq!(m, "no such directory"),
        _ => panic!("expected the package branch's error"),
    }
}

#[test]
fn resolver_is_idempotent_on_an_unchanged_tree() {
    let build = || {
        let mut input = empty_input(path(&["ws"]));
        input.package_children = Ok(vec![
            PackageCandidate { path: path(&["ws", "b"]), has_manifest: true },
            PackageCandidate { path: path(&["ws", "a"]), has_manifest: true },
        ]);
        input.script_children = Ok(vec![script_candidate(
            path(&["ws", "t.rs"]),
            b"#!/",
            b"x rust-script",
        )]);
        input
    };
    let r1 = ProjectManifest::discover(&build()).unwrap();
    let r2 = ProjectManifest::discover(&build()).unwrap();
    assert_eq!(r1, r2);
    for m in &r1 {
        assert!(r2.contains(m));
    }
}

#[test]
fn discover_single_with_no_manifest_fails() {
    let input = empty_input(path(&["lonely"]));
    assert!(matches!(
        ProjectManifest::discover_single(&input),
        Err(ProjectError::NoProjectFound)
    ));
}

#[test]
fn discover_single_with_two_siblings_is_ambiguous() {
    let mut input = empty_input(path(&["ws"]));
    input.package_children = Ok(vec![
        PackageCandidate { path: path(&["ws", "a"]), has_manifest: true },
        PackageCandidate { path: path(&["ws", "b"]), has_manifest: true },
    ]);
    assert!(matches!(
        ProjectManifest::discover_single(&input),
        Err(ProjectError::AmbiguousProject)
    ));
}

#[test]
fn discover_single_with_exactly_one_returns_it() {
    let mut input = empty_input(path(&["ws"]));
    input.package_children = Ok(vec![PackageCandidate {
        path: path(&["ws", "only"]),
        has_manifest: true,
    }]);
    let r = ProjectManifest::discover_single(&input).unwrap();
    assert_eq!(r, ProjectManifest::CargoToml(path(&["ws", "only", "Cargo.toml"])));
}

#[test]
fn discover_single_propagates_io_failure() {
    let mut input = empty_input(path(&["ws"]));
    input.package_children = Err("gone".to_string());
    input.script_children = Err("gone too".to_string());
    assert!(matches!(
        ProjectManifest::discover_single(&input),
        Err(ProjectError::IoError(m)) if m == "gone"
    ));
}

#[test]
fn aggregator_is_order_independent_and_free_of_duplicates() {
    let one = || {
        let mut input = empty_input(path(&["ws"]));
        input.package_children = Ok(vec![
            PackageCandidate { path: path(&["ws", "b"]), has_manifest: true },
            PackageCandidate { path: path(&["ws", "a"]), has_manifest: true },
        ]);
        input
    };
    let two = || {
        let mut input = empty_input(path(&["other"]));
        input.script_children = Ok(vec![script_candidate(
            path(&["other", "t.rs"]),
            b"#!/",
            b"env rust-script",
        )]);
        input
    };
    // The same unordered collection of roots, with an overlapping duplicate
    // root in each, presented in two different orders.
    let forward = vec![one(), two(), one()];
    let backward = vec![two(), one(), one()];
    let r1 = ProjectManifest::discover_all(&forward);
    let r2 = ProjectManifest::discover_all(&backward);
    assert_eq!(r1, r2);
    for i in 0..r1.len() {
        for j in 0..r1.len() {
            if i != j {
                assert_ne!(r1[i], r1[j]);
            }
        }
    }
    // Sorted by variant tag first: both package manifests precede the script.
    assert_eq!(
        r1,
        vec![
            ProjectManifest::CargoToml(path(&["ws", "a", "Cargo.toml"])),
            ProjectManifest::CargoToml(path(&["ws", "b", "Cargo.toml"])),
            ProjectManifest::RustScript(path(&["other", "t.rs"])),
        ]
    );
}

#[test]
fn aggregator_drops_failing_roots() {
    let mut bad = empty_input(path(&["bad"]));
    bad.package_children = Err("boom".to_string());
    bad.script_children = Err("boom".to_string());
    let mut good = empty_input(path(&["ws"]));
    good.package_children = Ok(vec![PackageCandidate {
        path: path(&["ws", "p"]),
        has_manifest: true,
    }]);
    let r = ProjectManifest::discover_all(&vec![bad, good]);
    assert_eq!(r, vec![ProjectManifest::CargoToml(path(&["ws", "p", "Cargo.toml"]))]);
}

#[test]
fn aggregator_with_no_roots_is_empty() {
    let r = ProjectManifest::discover_all(&Vec::new());
    assert!(r.is_empty());
}
