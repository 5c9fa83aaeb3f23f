use project_loader::fanout::assemble;
use project_loader::loader::{collect_reads, LoadError, UnitOutcome};
use project_loader::mapping::ResultMap;

fn ok(s: &str) -> Result<String, LoadError> {
    Ok(s.to_string())
}

fn err(msg: &str) -> Result<String, LoadError> {
    Err(LoadError { message: msg.to_string() })
}

fn unit_ok(files: &[&str]) -> UnitOutcome {
    Ok(files.iter().map(|s| s.to_string()).collect())
}

fn unit_err(msg: &str) -> UnitOutcome {
    Err(LoadError { message: msg.to_string() })
}

#[test]
fn collects_every_content_in_order() {
    let reads = vec![ok("fn a() {}"), ok("fn b() {}"), ok("fn c() {}")];
    let collected = collect_reads(&reads);
    match collected {
        Ok(contents) => {
            assert_eq!(contents, vec!["fn a() {}", "fn b() {}", "fn c() {}"]);
        },
        Err(_) => panic!("expected success"),
    }
}

#[test]
fn collects_empty_unit_as_success() {
    let reads: Vec<Result<String, LoadError>> = Vec::new();
    match collect_reads(&reads) {
        Ok(contents) => assert_eq!(contents.len(), 0),
        Err(_) => panic!("expected success"),
    }
}

#[test]
fn first_failure_short_circuits_the_unit() {
    let reads = vec![ok("a"), err("denied: one.rs"), err("denied: two.rs")];
    match collect_reads(&reads) {
        Ok(_) => panic!("expected failure"),
        Err(e) => assert_eq!(e.message, "denied: one.rs"),
    }
}

#[test]
fn success_length_matches_read_count() {
    let reads = vec![ok("x"), ok("y")];
    match collect_reads(&reads) {
        Ok(contents) => assert_eq!(contents.len(), reads.len()),
        Err(_) => panic!("expected success"),
    }
}

#[test]
fn distinct_units_each_keep_their_outcome() {
    let results = vec![
        ("a".to_string(), unit_ok(&["one"])),
        ("b".to_string(), unit_ok(&["two", "three"])),
        ("c".to_string(), unit_ok(&[])),
    ];
    let m = assemble(results);
    assert_eq!(m.len(), 3);
    match m.get(&"a".to_string()) {
        Some(Ok(files)) => assert_eq!(files, &vec!["one".to_string()]),
        _ => panic!("expected a's success"),
    }
    match m.get(&"b".to_string()) {
        Some(Ok(files)) => assert_eq!(files.len(), 2),
        _ => panic!("expected b's success"),
    }
    match m.get(&"c".to_string()) {
        Some(Ok(files)) => assert_eq!(files.len(), 0),
        _ => panic!("expected c's success"),
    }
}

#[test]
fn one_broken_unit_leaves_the_others_untouched() {
    let results = vec![
        ("good1".to_string(), unit_ok(&["x"])),
        ("broken".to_string(), unit_err("no such directory")),
        ("good2".to_string(), unit_ok(&["y"])),
    ];
    let m = assemble(results);
    assert_eq!(m.len(), 3);
    match m.get(&"broken".to_string()) {
        Some(Err(e)) => assert_eq!(e.message, "no such directory"),
        _ => panic!("expected broken's failure"),
    }
    match m.get(&"good1".to_string()) {
        Some(Ok(files)) => assert_eq!(files, &vec!["x".to_string()]),
        _ => panic!("expected good1's success"),
    }
    match m.get(&"good2".to_string()) {
        Some(Ok(files)) => assert_eq!(files, &vec!["y".to_string()]),
        _ => panic!("expected good2's success"),
    }
}

#[test]
fn duplicate_name_keeps_one_of_the_outcomes() {
    let results = vec![
        ("a".to_string(), unit_ok(&["first"])),
        ("a".to_string(), unit_ok(&["second"])),
    ];
    let m = assemble(results);
    assert_eq!(m.len(), 1);
    match m.get(&"a".to_string()) {
        Some(Ok(files)) => {
            assert!(
                files == &vec!["first".to_string()] || files == &vec!["second".to_string()]
            );
        },
        _ => panic!("expected a's entry"),
    }
}

#[test]
fn missing_name_is_absent() {
    let m = assemble(vec![("a".to_string(), unit_ok(&[]))]);
    assert!(m.get(&"b".to_string()).is_none());
}

#[test]
fn insert_overwrites_existing_name() {
    let mut m = ResultMap::new();
    m.insert("u".to_string(), unit_err("first try"));
    m.insert("u".to_string(), unit_ok(&["recovered"]));
    assert_eq!(m.len(), 1);
    match m.get(&"u".to_string()) {
        Some(Ok(files)) => assert_eq!(files, &vec!["recovered".to_string()]),
        _ => panic!("expected the later outcome"),
    }
    assert_eq!(m.name_at(0), "u");
}
