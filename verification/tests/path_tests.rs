use trellico::paths::{
    plan_file_path, plans_dir, prd_file_path, ralph_dir, ralph_iterations_path,
    session_history_path, session_links_path, trellico_dir,
};
use trellico::text::{md_stem, project_dir_name};

#[test]
fn folder_paths_are_joined_verbatim() {
    assert_eq!(trellico_dir("/work/proj"), "/work/proj/.trellico");
    assert_eq!(plans_dir("/work/proj"), "/work/proj/.trellico/plans");
    assert_eq!(ralph_dir("/work/proj"), "/work/proj/.trellico/ralph");
    assert_eq!(
        session_links_path("/work/proj"),
        "/work/proj/.trellico/session-links.json"
    );
    assert_eq!(
        ralph_iterations_path("/work/proj"),
        "/work/proj/.trellico/ralph-iterations.json"
    );
}

#[test]
fn artifact_file_paths() {
    assert_eq!(
        plan_file_path("/work/proj", "roadmap"),
        "/work/proj/.trellico/plans/roadmap.md"
    );
    assert_eq!(
        prd_file_path("/work/proj", "feature-x"),
        "/work/proj/.trellico/ralph/feature-x/prd.json"
    );
}

#[test]
fn session_history_path_flattens_the_folder() {
    assert_eq!(
        session_history_path("/home/u", "/work/proj", "abc-123"),
        "/home/u/.pilot/projects/-work-proj/abc-123.jsonl"
    );
}

#[test]
fn project_dir_name_replaces_every_slash() {
    assert_eq!(project_dir_name("/a/b/c"), "-a-b-c");
    assert_eq!(project_dir_name("plain"), "plain");
    assert_eq!(project_dir_name(""), "");
}

#[test]
fn md_stem_accepts_only_markdown_names() {
    assert_eq!(md_stem("a.md").as_deref(), Some("a"));
    assert_eq!(md_stem("a.plan.md").as_deref(), Some("a.plan"));
    assert_eq!(md_stem(".md"), None);
    assert_eq!(md_stem("notes.txt"), None);
    assert_eq!(md_stem("md"), None);
    assert_eq!(md_stem(""), None);
}
