use flatpak2spec::repository::RepoResolver;
use flatpak2spec::workspace::{Workspace, WorkspaceEntry};

fn git_workspace(remote: Option<&str>) -> Workspace {
    Workspace {
        root: "/tmp/app".to_string(),
        entries: vec![WorkspaceEntry {
            path: vec![".git".to_string()],
            is_dir: true,
            content: None,
        }],
        manifest_id: None,
        git_tags: None,
        git_remote: remote.map(|s| s.to_string()),
    }
}

#[test]
fn repo_name_from_urls() {
    assert_eq!(
        RepoResolver::extract_repo_name("https://github.com/alainm23/planify", "https://github.com/alainm23/planify"),
        "planify"
    );
    assert_eq!(
        RepoResolver::extract_repo_name("x", "https://github.com/user/Mission-Center.git/"),
        "Mission-Center"
    );
    assert_eq!(
        RepoResolver::extract_repo_name("x", "git@github.com:user/NetPeek.git"),
        "NetPeek"
    );
}

#[test]
fn repo_name_falls_back_to_path() {
    assert_eq!(RepoResolver::extract_repo_name("/home/me/project", "https://host/.hidden"), "project");
    assert_eq!(RepoResolver::extract_repo_name("/", "https://host/.git"), "app");
}

#[test]
fn remote_inputs() {
    assert!(RepoResolver::is_remote_input("https://github.com/a/b"));
    assert!(RepoResolver::is_remote_input("http://example.org/a"));
    assert!(RepoResolver::is_remote_input("git@github.com:a/b.git"));
    assert!(!RepoResolver::is_remote_input("/home/me/app"));
    assert!(!RepoResolver::is_remote_input("./app"));
}

#[test]
fn web_url_from_ssh_remote() {
    let ws = git_workspace(Some("git@github.com:user/repo.git\n"));
    assert_eq!(RepoResolver::resolve_web_url(&ws), "https://github.com/user/repo");
}

#[test]
fn web_url_from_https_remote() {
    let ws = git_workspace(Some("  https://gitlab.gnome.org/World/app.git/  "));
    assert_eq!(RepoResolver::resolve_web_url(&ws), "https://gitlab.gnome.org/World/app.git");
    let ws = git_workspace(Some("https://codeberg.org/a/b/"));
    assert_eq!(RepoResolver::resolve_web_url(&ws), "https://codeberg.org/a/b");
}

#[test]
fn web_url_without_git() {
    assert_eq!(RepoResolver::resolve_web_url(&git_workspace(None)), "");
    let mut ws = git_workspace(Some("https://github.com/a/b"));
    ws.entries.clear();
    assert_eq!(RepoResolver::resolve_web_url(&ws), "");
}

#[test]
fn checkout_needed_unless_at_tag() {
    assert!(RepoResolver::needs_checkout(None, "v1.0"));
    assert!(RepoResolver::needs_checkout(Some("v0.9"), "v1.0"));
    assert!(!RepoResolver::needs_checkout(Some("v1.0"), "v1.0"));
}

use flatpak2spec::repository::{ActionKind, Phase, PrepareEvent, PrepareState};

fn run(input: &str, answers: Vec<PrepareEvent>) -> Vec<(ActionKind, String, String, Option<String>)> {
    let mut state = PrepareState::start(input);
    let mut event = PrepareEvent::Begin;
    let mut out = Vec::new();
    let mut answers = answers.into_iter();
    loop {
        let (next, a) = state.step(&event);
        let done = a.kind == ActionKind::Finish || a.kind == ActionKind::Fail;
        out.push((a.kind, a.dir.clone(), a.tag.clone(), a.note.clone()));
        if done {
            break;
        }
        state = next;
        event = answers.next().expect("an answer for every action");
    }
    out
}

#[test]
fn local_checkout_moves_to_release_tag() {
    let steps = run(
        "/src/app",
        vec![
            PrepareEvent::Flag(true),
            PrepareEvent::Flag(true),
            PrepareEvent::Tag(Some("v1.2".to_string())),
            PrepareEvent::Tag(Some("v1.1".to_string())),
            PrepareEvent::Flag(true),
        ],
    );
    let kinds: Vec<ActionKind> = steps.iter().map(|s| s.0).collect();
    assert_eq!(
        kinds,
        vec![
            ActionKind::PathExists,
            ActionKind::IsGit,
            ActionKind::TargetTag,
            ActionKind::CurrentTag,
            ActionKind::Checkout,
            ActionKind::Finish,
        ]
    );
    assert_eq!(steps[4].2, "v1.2");
    assert_eq!(steps[4].3, Some("Checking out tag v1.2...".to_string()));
    assert_eq!(steps[5].1, "/src/app");
}

#[test]
fn local_path_must_exist() {
    let steps = run("/nowhere", vec![PrepareEvent::Flag(false)]);
    assert_eq!(steps.last().unwrap().0, ActionKind::Fail);
    assert_eq!(steps.last().unwrap().3, Some("Local path does not exist: /nowhere".to_string()));
}

#[test]
fn remote_input_is_cloned() {
    let steps = run(
        "https://github.com/a/Viewer.git",
        vec![
            PrepareEvent::Path("/tmp/ws/Viewer".to_string()),
            PrepareEvent::Flag(false),
            PrepareEvent::Flag(true),
            PrepareEvent::Flag(true),
            PrepareEvent::Tag(None),
        ],
    );
    let kinds: Vec<ActionKind> = steps.iter().map(|s| s.0).collect();
    assert_eq!(
        kinds,
        vec![
            ActionKind::CacheDir,
            ActionKind::ProbeCache,
            ActionKind::Clone,
            ActionKind::IsGit,
            ActionKind::TargetTag,
            ActionKind::Finish,
        ]
    );
    assert_eq!(
        steps[2].3,
        Some("Cloning workspace from https://github.com/a/Viewer.git to /tmp/ws/Viewer...".to_string())
    );
    assert_eq!(steps[5].1, "/tmp/ws/Viewer");
}

#[test]
fn failed_clone_stops() {
    let steps = run(
        "git@github.com:a/b.git",
        vec![PrepareEvent::Path("/tmp/ws/b".to_string()), PrepareEvent::Flag(false), PrepareEvent::Flag(false)],
    );
    assert_eq!(steps.last().unwrap().0, ActionKind::Fail);
    assert_eq!(steps.last().unwrap().3, Some("Failed to clone Git repository: git@github.com:a/b.git".to_string()));
}

#[test]
fn cached_checkout_at_tag_skips_fetch() {
    let steps = run(
        "https://github.com/a/b",
        vec![
            PrepareEvent::Path("/tmp/ws/b".to_string()),
            PrepareEvent::Flag(true),
            PrepareEvent::Tag(Some("v2".to_string())),
            PrepareEvent::Flag(true),
            PrepareEvent::Tag(Some("v2".to_string())),
            PrepareEvent::Flag(true),
            PrepareEvent::Tag(Some("v2".to_string())),
            PrepareEvent::Tag(Some("v2".to_string())),
        ],
    );
    let kinds: Vec<ActionKind> = steps.iter().map(|s| s.0).collect();
    assert_eq!(
        kinds,
        vec![
            ActionKind::CacheDir,
            ActionKind::ProbeCache,
            ActionKind::TargetTag,
            ActionKind::TagExists,
            ActionKind::CurrentTag,
            ActionKind::IsGit,
            ActionKind::TargetTag,
            ActionKind::CurrentTag,
            ActionKind::Finish,
        ]
    );
    assert_eq!(steps[2].3, Some("Found existing workspace at /tmp/ws/b".to_string()));
    assert_eq!(steps[5].3, Some("Workspace is already up to date at tag 'v2'. Skipping fetch.".to_string()));
}

#[test]
fn cached_checkout_without_tag_fetches() {
    let steps = run(
        "https://github.com/a/b",
        vec![
            PrepareEvent::Path("/tmp/ws/b".to_string()),
            PrepareEvent::Flag(true),
            PrepareEvent::Tag(Some("v3".to_string())),
            PrepareEvent::Flag(false),
            PrepareEvent::Flag(true),
            PrepareEvent::Flag(false),
        ],
    );
    let kinds: Vec<ActionKind> = steps.iter().map(|s| s.0).collect();
    assert_eq!(
        kinds,
        vec![
            ActionKind::CacheDir,
            ActionKind::ProbeCache,
            ActionKind::TargetTag,
            ActionKind::TagExists,
            ActionKind::Fetch,
            ActionKind::IsGit,
            ActionKind::Finish,
        ]
    );
    assert_eq!(steps[4].3, Some("Fetching remote updates...".to_string()));
}

#[test]
fn answers_out_of_turn_fail() {
    let s = PrepareState::start("/x");
    let (n, a) = s.step(&PrepareEvent::Flag(true));
    assert_eq!(n.phase, Phase::Failed);
    assert_eq!(a.kind, ActionKind::Fail);
}
