use project_loader::model::{Crate, Dep, Edition, Project, Runnable, RunnableKind, Sysroot, TargetKind};
use project_loader::model::first_invalid_dep;
use project_loader::paths::parent_dir;
use project_loader::resolve::{resolve_targets, resolve_units, TargetInfo};

fn mk_crate(display_name: Option<&str>, root_module: &str) -> Crate {
    Crate {
        display_name: display_name.map(|s| s.to_string()),
        root_module: root_module.to_string(),
        is_workspace_member: true,
        ..Crate::default()
    }
}

#[test]
fn parent_of_nested_path() {
    assert_eq!(parent_dir("/ws/a/lib.rs"), Some("/ws/a".to_string()));
}

#[test]
fn parent_of_relative_path() {
    assert_eq!(parent_dir("a/b.rs"), Some("a".to_string()));
}

#[test]
fn parent_of_file_under_root() {
    assert_eq!(parent_dir("/lib.rs"), Some("/".to_string()));
}

#[test]
fn parent_of_bare_name_is_none() {
    assert_eq!(parent_dir("lib.rs"), None);
}

#[test]
fn parent_of_root_is_none() {
    assert_eq!(parent_dir("/"), None);
}

#[test]
fn parent_of_empty_is_none() {
    assert_eq!(parent_dir(""), None);
}

#[test]
fn resolves_named_crate_and_drops_anonymous() {
    let crates = vec![
        mk_crate(Some("a"), "/ws/a/lib.rs"),
        mk_crate(None, "/ws/b/lib.rs"),
    ];
    let units = resolve_units(&crates);
    assert_eq!(units.len(), 1);
    assert_eq!(units[0].name, "a");
    assert_eq!(units[0].root, "/ws/a");
}

#[test]
fn drops_crate_whose_root_has_no_parent() {
    let crates = vec![
        mk_crate(Some("a"), "lib.rs"),
        mk_crate(Some("b"), "/ws/b/lib.rs"),
    ];
    let units = resolve_units(&crates);
    assert_eq!(units.len(), 1);
    assert_eq!(units[0].name, "b");
    assert_eq!(units[0].root, "/ws/b");
}

#[test]
fn excluded_count_is_total_minus_resolved() {
    let crates = vec![
        mk_crate(Some("a"), "/ws/a/lib.rs"),
        mk_crate(None, "/ws/b/lib.rs"),
        mk_crate(Some("c"), "main.rs"),
    ];
    let units = resolve_units(&crates);
    assert_eq!(units.len(), 1);
    assert_eq!(crates.len() - units.len(), 2);
}

#[test]
fn resolves_targets_by_name() {
    let targets = vec![
        TargetInfo { name: "tool".to_string(), src_path: "/ws/tool/main.rs".to_string() },
        TargetInfo { name: "stray".to_string(), src_path: "main.rs".to_string() },
    ];
    let units = resolve_targets(&targets);
    assert_eq!(units.len(), 1);
    assert_eq!(units[0].name, "tool");
    assert_eq!(units[0].root, "/ws/tool");
}

#[test]
fn dangling_dep_index_is_detectable_not_rejected() {
    let mut krate = mk_crate(Some("a"), "/ws/a/lib.rs");
    krate.deps.push(Dep { crate_index: 5, name: "dep".to_string() });
    let project = Project {
        sysroot: Sysroot { sysroot: "/sysroot".to_string(), sysroot_src: None },
        crates: vec![
            krate,
            mk_crate(Some("b"), "/ws/b/lib.rs"),
            mk_crate(Some("c"), "/ws/c/lib.rs"),
        ],
        runnables: Vec::new(),
        generated: "test".to_string(),
    };
    // The model holds the dangling edge without rejecting it: the document
    // is still usable, and resolution still works.
    assert_eq!(project.crates.len(), 3);
    let units = resolve_units(&project.crates);
    assert_eq!(units.len(), 3);
    // A consumer that walks the edges detects the defect.
    assert_eq!(first_invalid_dep(&project.crates), Some((0, 0)));
}

#[test]
fn all_deps_in_range_yields_none() {
    let mut a = mk_crate(Some("a"), "/ws/a/lib.rs");
    a.deps.push(Dep { crate_index: 1, name: "b".to_string() });
    let b = mk_crate(Some("b"), "/ws/b/lib.rs");
    assert_eq!(first_invalid_dep(&vec![a, b]), None);
}

#[test]
fn first_invalid_dep_reports_earliest_edge() {
    let mut a = mk_crate(Some("a"), "/ws/a/lib.rs");
    a.deps.push(Dep { crate_index: 0, name: "self_dep".to_string() });
    let mut b = mk_crate(Some("b"), "/ws/b/lib.rs");
    b.deps.push(Dep { crate_index: 9, name: "x".to_string() });
    b.deps.push(Dep { crate_index: 7, name: "y".to_string() });
    assert_eq!(first_invalid_dep(&vec![a, b]), Some((1, 0)));
}

#[test]
fn crate_defaults_are_empty() {
    let c = Crate::default();
    assert_eq!(c.display_name, None);
    assert_eq!(c.edition, Edition::Edition2021);
    assert!(!c.is_workspace_member);
    assert!(!c.is_proc_macro);
    assert!(c.deps.is_empty());
    assert!(c.env.is_empty());
}

#[test]
fn edition_defaults_to_2021() {
    assert_eq!(Edition::default(), Edition::Edition2021);
}

#[test]
fn target_kind_defaults_to_bin() {
    assert_eq!(TargetKind::default(), TargetKind::Bin);
}

#[test]
fn runnable_round_values() {
    let r = Runnable {
        program: "buck".to_string(),
        args: vec!["build".to_string(), "//a:b".to_string()],
        cwd: "/ws".to_string(),
        kind: RunnableKind::Check,
    };
    let c = r.clone();
    assert_eq!(r, c);
    assert_eq!(c.kind, RunnableKind::Check);
    assert_ne!(c.kind, RunnableKind::Flycheck);
    assert_eq!(c.args.len(), 2);
}
