use trellico::classify::{classify, PlanChange};
use trellico::order::{list_plan_names, sort_names, str_le};
use trellico::fileset::FileSet;
use trellico::scan::{plan_stem_set, plan_stems};
use trellico::watch::{event_touches, is_relevant, RawEventKind, WatchKind, WatchRegistry};

fn names(v: &[&str]) -> Vec<String> {
    v.iter().map(|s| s.to_string()).collect()
}

fn set(v: &[&str]) -> FileSet {
    FileSet::from_names(&names(v))
}

#[test]
fn creating_one_file_yields_one_created() {
    // An empty directory is watched; a.md appears before the next scan.
    let mut reg = WatchRegistry::new();
    let folder = "/w".to_string();
    reg.watch(&folder, WatchKind::Plans, set(&[]));
    let evs = reg
        .handle_event(&folder, WatchKind::Plans, RawEventKind::Create, set(&["a"]), None)
        .expect("watched folder must classify");
    assert_eq!(evs.len(), 1);
    match &evs[0] {
        PlanChange::Created { file_name } => assert_eq!(file_name, "a"),
        other => panic!("expected created, got {:?}", other),
    }
}

#[test]
fn atomic_rename_yields_one_renamed() {
    // a.md becomes b.md in one step: one remove beside one add is a rename,
    // not a created/removed pair.
    let mut reg = WatchRegistry::new();
    let folder = "/w".to_string();
    reg.watch(&folder, WatchKind::Plans, set(&["a"]));
    let evs = reg
        .handle_event(&folder, WatchKind::Plans, RawEventKind::Modify, set(&["b"]), None)
        .expect("watched folder must classify");
    assert_eq!(evs.len(), 1);
    match &evs[0] {
        PlanChange::Renamed { old_file_name, file_name } => {
            assert_eq!(old_file_name, "a");
            assert_eq!(file_name, "b");
        }
        other => panic!("expected renamed, got {:?}", other),
    }
}

#[test]
fn burst_of_two_creates_and_one_remove_is_no_rename() {
    // added = {x, y}, removed = {z}: not a rename, two created and one
    // removed instead.
    let known = set(&["z", "k"]);
    let current = set(&["k", "x", "y"]);
    let evs = classify(&known, &current, None);
    assert_eq!(evs.len(), 3);
    match &evs[0] {
        PlanChange::Created { file_name } => assert_eq!(file_name, "x"),
        other => panic!("expected created, got {:?}", other),
    }
    match &evs[1] {
        PlanChange::Created { file_name } => assert_eq!(file_name, "y"),
        other => panic!("expected created, got {:?}", other),
    }
    match &evs[2] {
        PlanChange::Removed { file_name } => assert_eq!(file_name, "z"),
        other => panic!("expected removed, got {:?}", other),
    }
}

#[test]
fn editing_known_file_yields_one_modified() {
    // No name change: the modify hint alone produces exactly one modified
    // event.
    let known = set(&["a", "b"]);
    let current = set(&["a", "b"]);
    let hint = "a".to_string();
    let evs = classify(&known, &current, Some(&hint));
    assert_eq!(evs.len(), 1);
    match &evs[0] {
        PlanChange::Modified { file_name } => assert_eq!(file_name, "a"),
        other => panic!("expected modified, got {:?}", other),
    }
}

#[test]
fn modify_hint_for_unknown_stem_is_ignored() {
    let known = set(&["a"]);
    let current = set(&["a"]);
    let hint = "ghost".to_string();
    let evs = classify(&known, &current, Some(&hint));
    assert!(evs.is_empty());
}

#[test]
fn modify_hint_ignored_unless_raw_event_modifies() {
    let mut reg = WatchRegistry::new();
    let folder = "/w".to_string();
    reg.watch(&folder, WatchKind::Plans, set(&["a"]));
    let hint = "a".to_string();
    let evs = reg
        .handle_event(&folder, WatchKind::Plans, RawEventKind::Create, set(&["a"]), Some(&hint))
        .expect("watched folder must classify");
    assert!(evs.is_empty());
}

#[test]
fn stopped_folder_emits_nothing() {
    // After stop_watching, further disk changes produce no events.
    let mut reg = WatchRegistry::new();
    let folder = "/w".to_string();
    reg.watch(&folder, WatchKind::Plans, set(&["a"]));
    reg.stop_watching(&folder);
    let r = reg.handle_event(&folder, WatchKind::Plans, RawEventKind::Create, set(&["b"]), None);
    assert!(r.is_none());
}

#[test]
fn unwatched_kind_emits_nothing() {
    let mut reg = WatchRegistry::new();
    let folder = "/w".to_string();
    reg.watch(&folder, WatchKind::Plans, set(&[]));
    let r = reg.handle_event(&folder, WatchKind::RalphPrds, RawEventKind::Create, set(&["p"]), None);
    assert!(r.is_none());
}

#[test]
fn known_set_converges_to_last_scan() {
    // After any processed event the stored known-set equals the scan, so a
    // repeat of the same scan classifies to nothing.
    let mut reg = WatchRegistry::new();
    let folder = "/w".to_string();
    reg.watch(&folder, WatchKind::Plans, set(&[]));
    let first = reg
        .handle_event(&folder, WatchKind::Plans, RawEventKind::Create, set(&["a", "b"]), None)
        .expect("watched");
    assert_eq!(first.len(), 2);
    let again = reg
        .handle_event(&folder, WatchKind::Plans, RawEventKind::Create, set(&["a", "b"]), None)
        .expect("watched");
    assert!(again.is_empty());
}

#[test]
fn rewatching_replaces_known_set() {
    let mut reg = WatchRegistry::new();
    let folder = "/w".to_string();
    reg.watch(&folder, WatchKind::Plans, set(&["a"]));
    reg.watch(&folder, WatchKind::Plans, set(&[]));
    let evs = reg
        .handle_event(&folder, WatchKind::Plans, RawEventKind::Create, set(&["a"]), None)
        .expect("watched");
    assert_eq!(evs.len(), 1);
    match &evs[0] {
        PlanChange::Created { file_name } => assert_eq!(file_name, "a"),
        other => panic!("expected created, got {:?}", other),
    }
}

#[test]
fn folders_are_independent() {
    let mut reg = WatchRegistry::new();
    let f1 = "/one".to_string();
    let f2 = "/two".to_string();
    reg.watch(&f1, WatchKind::Plans, set(&["a"]));
    reg.watch(&f2, WatchKind::Plans, set(&[]));
    reg.stop_watching(&f1);
    let evs = reg
        .handle_event(&f2, WatchKind::Plans, RawEventKind::Create, set(&["n"]), None)
        .expect("second folder still watched");
    assert_eq!(evs.len(), 1);
}

#[test]
fn plan_stems_filter_markdown_files() {
    let stems = plan_stems(&names(&["a.md", "notes.txt", ".md", "b.plan.md", "c"]));
    assert_eq!(stems, vec!["a", "b.plan"]);
}

#[test]
fn plan_stem_set_deduplicates() {
    let s = plan_stem_set(&names(&["a.md", "a.md", "b.md"]));
    assert!(s.contains_name(&"a".to_string()));
    assert!(s.contains_name(&"b".to_string()));
    assert!(!s.contains_name(&"a.md".to_string()));
}

#[test]
fn fileset_diff_orders_by_first_set() {
    let cur = set(&["a", "b", "c"]);
    let known = set(&["b"]);
    assert_eq!(cur.diff(&known), vec!["a", "c"]);
    assert_eq!(known.diff(&cur), Vec::<String>::new());
}

#[test]
fn listing_is_sorted_and_filtered() {
    let listed = list_plan_names(&names(&["b.md", "notes.txt", "a.md", "aa.md"]));
    assert_eq!(listed, vec!["a", "aa", "b"]);
}

#[test]
fn sort_keeps_duplicates() {
    let sorted = sort_names(names(&["b", "a", "b"]));
    assert_eq!(sorted, vec!["a", "b", "b"]);
}

#[test]
fn name_order_is_bytewise() {
    assert!(str_le(&"a".to_string(), &"aa".to_string()));
    assert!(str_le(&"abc".to_string(), &"abd".to_string()));
    assert!(!str_le(&"b".to_string(), &"a".to_string()));
    assert!(str_le(&"x".to_string(), &"x".to_string()));
    assert!(str_le(&"".to_string(), &"a".to_string()));
}

#[test]
fn relevant_raw_events() {
    assert!(is_relevant(RawEventKind::Create));
    assert!(is_relevant(RawEventKind::Modify));
    assert!(is_relevant(RawEventKind::Remove));
    assert!(!is_relevant(RawEventKind::Other));
}

#[test]
fn event_touches_target_path() {
    let paths = names(&["/a/x.json", "/a/y.json"]);
    assert!(event_touches(&paths, &"/a/y.json".to_string()));
    assert!(!event_touches(&paths, &"/a/z.json".to_string()));
}
