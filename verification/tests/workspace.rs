use flatpak2spec::workspace::{
    check_file_extension, detect_systemd_units, entry_full_path, find_and_extract_regex,
    find_matching_files, find_metainfo_file, has_desktop_file, has_metainfo_file, Workspace,
    WorkspaceEntry,
};

fn file(path: &str, content: &str) -> WorkspaceEntry {
    WorkspaceEntry {
        path: path.split('/').map(|s| s.to_string()).collect(),
        is_dir: false,
        content: Some(content.to_string()),
    }
}

fn dir(path: &str) -> WorkspaceEntry {
    WorkspaceEntry {
        path: path.split('/').map(|s| s.to_string()).collect(),
        is_dir: true,
        content: None,
    }
}

fn workspace(entries: Vec<WorkspaceEntry>) -> Workspace {
    Workspace {
        root: "/work/app".to_string(),
        entries,
        manifest_id: None,
        git_tags: None,
        git_remote: None,
    }
}

fn sample() -> Workspace {
    workspace(vec![
        file("README.md", "# App\n"),
        dir("data"),
        file("data/org.example.App.desktop.in", "[Desktop Entry]\nComment=Does things\n"),
        file("data/org.example.App.metainfo.xml.in", "<component/>"),
        dir("build"),
        file("build/generated.desktop", ""),
        dir(".flatpak-builder"),
        file(".flatpak-builder/x.metainfo.xml", ""),
        dir("subprojects"),
        file("subprojects/lib.metainfo.xml", ""),
    ])
}

#[test]
fn matching_files_skip_hidden_build_and_subprojects() {
    let ws = sample();
    let root: Vec<&str> = Vec::new();
    assert_eq!(find_matching_files(&ws, &root, &vec!["metainfo.xml"]), vec![3]);
    assert_eq!(find_matching_files(&ws, &root, &vec!["DESKTOP"]), vec![2]);
    assert_eq!(find_matching_files(&ws, &root, &vec!["readme", ".desktop"]), vec![0, 2]);
    assert_eq!(find_matching_files(&ws, &vec!["data"], &vec![".md"]), Vec::<usize>::new());
}

#[test]
fn extension_checks() {
    let ws = sample();
    let root: Vec<&str> = Vec::new();
    assert!(check_file_extension(&ws, &root, ".desktop"));
    assert!(!check_file_extension(&ws, &root, ".gschema.xml"));
    assert!(has_desktop_file(&ws));
    assert!(has_metainfo_file(&ws));
    assert!(!has_desktop_file(&workspace(vec![file("build/a.desktop", "")])));
}

#[test]
fn metainfo_prefers_manifest_id() {
    let mut ws = workspace(vec![
        file("data/other.appdata.xml", ""),
        file("data/org.example.App.metainfo.xml", ""),
    ]);
    assert_eq!(find_metainfo_file(&ws), Some(0));
    ws.manifest_id = Some("org.example.App".to_string());
    assert_eq!(find_metainfo_file(&ws), Some(1));
    assert_eq!(find_metainfo_file(&workspace(vec![file("README.md", "")])), None);
}

#[test]
fn regex_extraction_from_files() {
    let ws = sample();
    let v = find_and_extract_regex(&ws, &vec![".desktop"], r"(?m)^_?Comment=(.+)$");
    assert_eq!(v, Some("Does things".to_string()));
    assert_eq!(find_and_extract_regex(&ws, &vec![".desktop"], r"(?m)^Name=(.+)$"), None);
    assert_eq!(find_and_extract_regex(&ws, &vec![".desktop"], r"(unclosed"), None);
}

#[test]
fn full_paths() {
    let ws = sample();
    assert_eq!(entry_full_path(&ws, 2), "/work/app/data/org.example.App.desktop.in");
    let mut ws2 = sample();
    ws2.root = "/work/app/".to_string();
    assert_eq!(entry_full_path(&ws2, 0), "/work/app/README.md");
}

#[test]
fn systemd_units_scopes_and_names() {
    let ws = workspace(vec![
        file("data/user/app-daemon.service.in", "[Service]\nExecStart=/usr/bin/app\n"),
        file("data/app-sync.timer", "[Timer]\n[Install]\nWantedBy=multi-user.target\n"),
        file("data/dbus-1/org.example.App.service", "[D-BUS Service]\n"),
        file("data/org.example.Search.service", "[D-BUS Service]\nName=org.example.Search\n"),
    ]);
    let u = detect_systemd_units(&ws);
    assert!(u.has_user);
    assert!(u.has_system);
    assert_eq!(u.unit_names, vec!["app-daemon.service".to_string(), "app-sync.timer".to_string()]);
}

#[test]
fn no_systemd_units() {
    let u = detect_systemd_units(&sample());
    assert!(!u.has_user && !u.has_system);
    assert!(u.unit_names.is_empty());
}
