use trellico::iterations::{RalphIteration, RalphIterationsStore};
use trellico::links::{default_link_type, SessionLinksStore};
use trellico::classify::PlanChange;

fn iteration(n: u32, status: &str) -> RalphIteration {
    RalphIteration {
        iteration_number: n,
        session_id: format!("s{}", n),
        status: status.to_string(),
        created_at: "t0".to_string(),
    }
}

#[test]
fn default_link_type_is_plan() {
    assert_eq!(default_link_type(), "plan");
}

#[test]
fn save_link_appends_and_bumps_version() {
    let mut store = SessionLinksStore::default();
    assert_eq!(store.version, 0);
    store.save_link(
        "sess-1".to_string(),
        "alpha".to_string(),
        &"plan".to_string(),
        &"t1".to_string(),
    );
    assert_eq!(store.version, 1);
    assert_eq!(store.links.len(), 1);
    assert_eq!(store.links[0].session_id, "sess-1");
    assert_eq!(store.links[0].plan_file_name, "alpha");
    assert_eq!(store.links[0].link_type, "plan");
    assert_eq!(store.links[0].created_at, "t1");
    assert_eq!(store.links[0].updated_at, "t1");
}

#[test]
fn save_link_updates_existing_in_place() {
    let mut store = SessionLinksStore::default();
    store.save_link("s1".to_string(), "alpha".to_string(), &"plan".to_string(), &"t1".to_string());
    store.save_link("s2".to_string(), "alpha".to_string(), &"plan".to_string(), &"t2".to_string());
    assert_eq!(store.links.len(), 1);
    assert_eq!(store.links[0].session_id, "s2");
    assert_eq!(store.links[0].created_at, "t1");
    assert_eq!(store.links[0].updated_at, "t2");
}

#[test]
fn links_of_different_types_coexist() {
    let mut store = SessionLinksStore::default();
    store.save_link("s1".to_string(), "alpha".to_string(), &"plan".to_string(), &"t1".to_string());
    store.save_link(
        "s2".to_string(),
        "alpha".to_string(),
        &"ralph_prd".to_string(),
        &"t2".to_string(),
    );
    assert_eq!(store.links.len(), 2);
    let plan = store.link_for(&"alpha".to_string(), &"plan".to_string()).unwrap();
    assert_eq!(plan.session_id, "s1");
    let prd = store.link_for(&"alpha".to_string(), &"ralph_prd".to_string()).unwrap();
    assert_eq!(prd.session_id, "s2");
}

#[test]
fn link_for_missing_name_is_none() {
    let store = SessionLinksStore::default();
    assert!(store.link_for(&"alpha".to_string(), &"plan".to_string()).is_none());
}

#[test]
fn rename_plan_link_moves_the_name() {
    let mut store = SessionLinksStore::default();
    store.save_link("s1".to_string(), "old".to_string(), &"plan".to_string(), &"t1".to_string());
    let changed = store.rename_plan_link(&"old".to_string(), &"new".to_string(), &"t2".to_string());
    assert!(changed);
    assert!(store.link_for(&"old".to_string(), &"plan".to_string()).is_none());
    let l = store.link_for(&"new".to_string(), &"plan".to_string()).unwrap();
    assert_eq!(l.session_id, "s1");
    assert_eq!(l.updated_at, "t2");
}

#[test]
fn rename_plan_link_without_match_changes_nothing() {
    let mut store = SessionLinksStore::default();
    store.save_link("s1".to_string(), "kept".to_string(), &"ralph_prd".to_string(), &"t1".to_string());
    let changed = store.rename_plan_link(&"kept".to_string(), &"new".to_string(), &"t2".to_string());
    assert!(!changed);
    assert_eq!(store.links[0].plan_file_name, "kept");
}

#[test]
fn add_iteration_creates_group_and_appends() {
    let mut store = RalphIterationsStore::default();
    store.add_iteration(&"prd-a".to_string(), iteration(1, "running"));
    assert_eq!(store.version, 1);
    store.add_iteration(&"prd-a".to_string(), iteration(2, "running"));
    store.add_iteration(&"prd-b".to_string(), iteration(1, "running"));
    let a = store.iterations_for(&"prd-a".to_string());
    assert_eq!(a.len(), 2);
    assert_eq!(a[0].iteration_number, 1);
    assert_eq!(a[1].iteration_number, 2);
    let b = store.iterations_for(&"prd-b".to_string());
    assert_eq!(b.len(), 1);
    assert!(store.iterations_for(&"prd-c".to_string()).is_empty());
}

#[test]
fn update_status_touches_first_matching_number() {
    let mut store = RalphIterationsStore::default();
    store.add_iteration(&"prd".to_string(), iteration(1, "running"));
    store.add_iteration(&"prd".to_string(), iteration(2, "running"));
    store.update_status(&"prd".to_string(), 2, "completed".to_string());
    let its = store.iterations_for(&"prd".to_string());
    assert_eq!(its[0].status, "running");
    assert_eq!(its[1].status, "completed");
}

#[test]
fn update_status_of_missing_group_or_number_is_a_no_op() {
    let mut store = RalphIterationsStore::default();
    store.add_iteration(&"prd".to_string(), iteration(1, "running"));
    store.update_status(&"ghost".to_string(), 1, "stopped".to_string());
    store.update_status(&"prd".to_string(), 9, "stopped".to_string());
    let its = store.iterations_for(&"prd".to_string());
    assert_eq!(its[0].status, "running");
}

#[test]
fn update_session_id_touches_first_matching_number() {
    let mut store = RalphIterationsStore::default();
    store.add_iteration(&"prd".to_string(), iteration(1, "running"));
    store.update_session_id(&"prd".to_string(), 1, "attached".to_string());
    let its = store.iterations_for(&"prd".to_string());
    assert_eq!(its[0].session_id, "attached");
    assert_eq!(its[0].status, "running");
}

#[test]
fn plan_change_renders_to_event() {
    let folder = "/w".to_string();
    let ev = PlanChange::Renamed {
        old_file_name: "a".to_string(),
        file_name: "b".to_string(),
    }
    .to_event(&folder);
    assert_eq!(ev.change_type, "renamed");
    assert_eq!(ev.file_name, "b");
    assert_eq!(ev.old_file_name.as_deref(), Some("a"));
    assert_eq!(ev.folder_path, "/w");
    let ev = PlanChange::Created { file_name: "n".to_string() }.to_event(&folder);
    assert_eq!(ev.change_type, "created");
    assert!(ev.old_file_name.is_none());
    let ev = PlanChange::Removed { file_name: "n".to_string() }.to_event(&folder);
    assert_eq!(ev.change_type, "removed");
    let ev = PlanChange::Modified { file_name: "n".to_string() }.to_event(&folder);
    assert_eq!(ev.change_type, "modified");
}
