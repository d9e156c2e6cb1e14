use forkdep::graph::{
    lock_load_action, matching_edges, DependencyNotFound, LockAction, LockGraph, LockNode, PkgId,
    Resolution,
};
use forkdep::manifest::{parse_manifest, patch_manifest_text, patch_path_of};
use forkdep::urls::{fork_url, patch_path_for, repo_name_from_url};

fn pkg(name: &str, version: &str, source: &str) -> PkgId {
    PkgId {
        name: String::from(name),
        version: String::from(version),
        source: String::from(source),
    }
}

fn one_member_graph() -> (LockGraph, Vec<PkgId>) {
    let member = pkg("ws", "0.1.0", "path+file:///ws");
    let libfoo = pkg("libfoo", "1.2.0", "registry+https://github.com/rust-lang/crates.io-index");
    let graph = LockGraph {
        nodes: vec![
            LockNode {
                id: pkg("ws", "0.1.0", "path+file:///ws"),
                deps: vec![pkg(
                    "libfoo",
                    "1.2.0",
                    "registry+https://github.com/rust-lang/crates.io-index",
                )],
            },
            LockNode { id: libfoo, deps: vec![] },
        ],
    };
    (graph, vec![member])
}

#[test]
fn resolves_direct_dependency_repository() {
    let (graph, members) = one_member_graph();
    let mut resolution = Resolution::begin(&graph, &members, "libfoo");
    let pending = resolution.pending().expect("one candidate edge");
    assert_eq!(pending.name, "libfoo");
    assert_eq!(pending.version, "1.2.0");
    let hit = resolution.supply(Some(String::from("https://github.com/acme/libfoo")));
    assert_eq!(hit, Some(String::from("https://github.com/acme/libfoo")));
}

#[test]
fn unknown_name_has_no_candidates() {
    let (graph, members) = one_member_graph();
    let resolution = Resolution::begin(&graph, &members, "nonexistent");
    assert!(resolution.finished());
    assert!(resolution.pending().is_none());
    let err = DependencyNotFound { dependency: String::from("nonexistent") };
    let message = err.message();
    assert_eq!(message, "Could not find use of dependency nonexistent");
    assert!(message.contains("nonexistent"));
}

#[test]
fn transitive_only_dependency_is_not_resolved() {
    let member = pkg("ws", "0.1.0", "path+file:///ws");
    let graph = LockGraph {
        nodes: vec![
            LockNode {
                id: pkg("ws", "0.1.0", "path+file:///ws"),
                deps: vec![pkg("liba", "1.0.0", "registry")],
            },
            LockNode {
                id: pkg("liba", "1.0.0", "registry"),
                deps: vec![pkg("libb", "2.0.0", "registry")],
            },
            LockNode { id: pkg("libb", "2.0.0", "registry"), deps: vec![] },
        ],
    };
    let members = vec![member];
    let resolution = Resolution::begin(&graph, &members, "libb");
    assert!(resolution.finished());
}

#[test]
fn first_match_wins_across_members() {
    let graph = LockGraph {
        nodes: vec![
            LockNode {
                id: pkg("m1", "0.1.0", "path+file:///m1"),
                deps: vec![pkg("libbar", "1.0.0", "registry")],
            },
            LockNode {
                id: pkg("m2", "0.1.0", "path+file:///m2"),
                deps: vec![pkg("libbar", "2.0.0", "registry")],
            },
            LockNode { id: pkg("libbar", "1.0.0", "registry"), deps: vec![] },
            LockNode { id: pkg("libbar", "2.0.0", "registry"), deps: vec![] },
        ],
    };
    let members = vec![pkg("m1", "0.1.0", "path+file:///m1"), pkg("m2", "0.1.0", "path+file:///m2")];
    let edges = matching_edges(&graph, &members, "libbar");
    assert_eq!(edges.len(), 2);
    assert_eq!(edges[0].version, "1.0.0");
    assert_eq!(edges[1].version, "2.0.0");

    let mut resolution = Resolution::begin(&graph, &members, "libbar");
    assert_eq!(resolution.pending().unwrap().version, "1.0.0");
    assert_eq!(resolution.supply(None), None);
    assert!(!resolution.finished());
    assert_eq!(resolution.pending().unwrap().version, "2.0.0");
    let hit = resolution.supply(Some(String::from("https://github.com/acme/libbar")));
    assert_eq!(hit, Some(String::from("https://github.com/acme/libbar")));
}

#[test]
fn empty_repository_url_is_skipped() {
    let (graph, members) = one_member_graph();
    let mut resolution = Resolution::begin(&graph, &members, "libfoo");
    assert!(resolution.pending().is_some());
    assert_eq!(resolution.supply(Some(String::new())), None);
    assert!(resolution.finished());
}

#[test]
fn edge_order_within_a_member_is_kept() {
    let graph = LockGraph {
        nodes: vec![LockNode {
            id: pkg("ws", "0.1.0", "path+file:///ws"),
            deps: vec![
                pkg("libx", "1.0.0", "registry"),
                pkg("liby", "1.0.0", "registry"),
                pkg("libx", "2.0.0", "registry"),
            ],
        }],
    };
    let members = vec![pkg("ws", "0.1.0", "path+file:///ws")];
    let edges = matching_edges(&graph, &members, "libx");
    assert_eq!(edges.len(), 2);
    assert_eq!(edges[0].version, "1.0.0");
    assert_eq!(edges[1].version, "2.0.0");
}

#[test]
fn lock_load_decisions() {
    assert_eq!(lock_load_action(false, true), LockAction::UseGraph);
    assert_eq!(lock_load_action(true, true), LockAction::UseGraph);
    assert_eq!(lock_load_action(false, false), LockAction::Generate);
    assert_eq!(lock_load_action(true, false), LockAction::FailResolution);
}

#[test]
fn end_to_end_scenario_libfoo() {
    let (graph, members) = one_member_graph();
    let mut resolution = Resolution::begin(&graph, &members, "libfoo");
    assert!(resolution.pending().is_some());
    let url = resolution
        .supply(Some(String::from("https://github.com/acme/libfoo")))
        .expect("repository metadata present");
    assert_eq!(url, "https://github.com/acme/libfoo");
    let repo = repo_name_from_url(&url);
    assert_eq!(repo, "libfoo");
    assert_eq!(fork_url("acme", &repo), "https://www.github.com/acme/libfoo");
    let local = patch_path_for("libfoo");
    assert_eq!(local, "patches/libfoo");
    let manifest = patch_manifest_text("[workspace]\n", "crates-io", "libfoo", &local).unwrap();
    let doc = parse_manifest(&manifest).unwrap();
    assert_eq!(patch_path_of(&doc, "crates-io", "libfoo"), Some(String::from("patches/libfoo")));
}
