use flatpak2spec::manifest::{
    find_app_id_from_meson, find_app_id_from_metainfo, find_manifest_file, has_meson_app_module,
    is_likely_manifest, is_main_app_module, sanitize_app_id_str, ExternalFiles, FlatpakManifest,
    ManifestError, Module, ModuleDetail, Source, SourceDetail,
};
use flatpak2spec::workspace::{Workspace, WorkspaceEntry};

fn file(path: &str, content: &str) -> WorkspaceEntry {
    WorkspaceEntry {
        path: path.split('/').map(|s| s.to_string()).collect(),
        is_dir: false,
        content: Some(content.to_string()),
    }
}

fn dir(path: &str) -> WorkspaceEntry {
    WorkspaceEntry {
        path: path.split('/').map(|s| s.to_string()).collect(),
        is_dir: true,
        content: None,
    }
}

fn workspace(entries: Vec<WorkspaceEntry>) -> Workspace {
    Workspace {
        root: "/work/app".to_string(),
        entries,
        manifest_id: None,
        git_tags: None,
        git_remote: None,
    }
}

fn no_files() -> ExternalFiles {
    ExternalFiles { modules: vec![], sources: vec![] }
}

fn module(name: &str, buildsystem: Option<&str>, sources: Option<Vec<Source>>) -> ModuleDetail {
    ModuleDetail {
        name: name.to_string(),
        buildsystem: buildsystem.map(|s| s.to_string()),
        sources,
        modules: None,
    }
}

fn manifest(id: Option<&str>, buildsystem: Option<&str>, modules: Option<Vec<Module>>) -> FlatpakManifest {
    let mut m = FlatpakManifest::default();
    m.id = id.map(|s| s.to_string());
    m.buildsystem = buildsystem.map(|s| s.to_string());
    m.modules = modules;
    m
}

#[test]
fn sanitizing_ids() {
    assert_eq!(sanitize_app_id_str(" org.gnome.App.Devel "), "org.gnome.App");
    assert_eq!(sanitize_app_id_str("org.gnome.App.devel"), "org.gnome.App");
    assert_eq!(sanitize_app_id_str("a.b.Devel.Devel"), "a.b.Devel");
    assert_eq!(sanitize_app_id_str("org.gnome.App"), "org.gnome.App");
}

#[test]
fn likely_manifest_names() {
    assert!(is_likely_manifest("org.example.App.json"));
    assert!(is_likely_manifest("Flatpak-Manifest.yml"));
    assert!(!is_likely_manifest("snapcraft.yaml"));
    assert!(!is_likely_manifest("org.example.CI.yml"));
    assert!(!is_likely_manifest(".org.example.App.json"));
    assert!(!is_likely_manifest("package.json"));
}

#[test]
fn manifest_search_order() {
    let ws = workspace(vec![
        file("package.json", "{}"),
        dir("build-aux"),
        file("build-aux/org.example.App.json", "{}"),
        file("org.example.App.Devel.yml", ""),
    ]);
    assert!(matches!(find_manifest_file(&ws), Ok(2)));
    let ws = workspace(vec![dir("flatpak"), file("flatpak/org.example.App.yaml", "")]);
    assert!(matches!(find_manifest_file(&ws), Ok(1)));
    let ws = workspace(vec![file("README.md", "")]);
    assert!(matches!(find_manifest_file(&ws), Err(ManifestError::NoManifest)));
}

#[test]
fn app_ids_from_files() {
    let ws = workspace(vec![
        file("data/org.example.Viewer.metainfo.xml", ""),
        file("meson.build", "project('v')\n  application_id = 'org.example.Meson.Devel'\n"),
    ]);
    assert_eq!(find_app_id_from_metainfo(&ws), Some("org.example.Viewer".to_string()));
    assert_eq!(find_app_id_from_meson(&ws), Some("org.example.Meson.Devel".to_string()));
    let m = manifest(None, None, None);
    assert_eq!(m.get_app_id(), None);
    assert_eq!(m.resolve_app_id(&ws), Some("org.example.Viewer".to_string()));
    let ws2 = workspace(vec![file("data/meson.build", "app_id = \"org.example.Data\"\n")]);
    assert_eq!(m.resolve_app_id(&ws2), Some("org.example.Data".to_string()));
    let named = manifest(Some("org.example.Named.Devel"), None, None);
    assert_eq!(named.get_app_id(), Some("org.example.Named.Devel"));
    assert_eq!(named.resolve_app_id(&ws2), Some("org.example.Named".to_string()));
    assert_eq!(manifest(None, None, None).resolve_app_id(&workspace(vec![])), None);
}

#[test]
fn sanitize_in_place() {
    let mut m = manifest(Some(" org.x.Y.devel"), None, None);
    m.sanitize_internal_id();
    assert_eq!(m.id, Some("org.x.Y".to_string()));
}

#[test]
fn external_module_paths() {
    let ext = ExternalFiles {
        modules: vec![
            ("shared/lib.json".to_string(), Some(module("lib", Some("cmake"), None))),
            ("broken.json".to_string(), None),
        ],
        sources: vec![("src.json".to_string(), Some(SourceDetail::Dir { path: ".".to_string() }))],
    };
    match Module::Path("shared/lib.json".to_string()).resolve(&ext) {
        Ok(d) => assert_eq!(d.name, "lib"),
        Err(_) => panic!("module should resolve"),
    }
    assert!(matches!(
        Module::Path("broken.json".to_string()).resolve(&ext),
        Err(ManifestError::ExternalFile(p)) if p == "broken.json"
    ));
    assert!(matches!(
        Module::Path("missing.json".to_string()).resolve(&ext),
        Err(ManifestError::ExternalFile(p)) if p == "missing.json"
    ));
    assert!(matches!(Source::Path("src.json".to_string()).resolve(&ext), Ok(SourceDetail::Dir { .. })));
    assert!(matches!(
        Source::Path("nope.json".to_string()).resolve(&ext),
        Err(ManifestError::ExternalFile(_))
    ));
}

#[test]
fn main_module_detection() {
    let ext = no_files();
    let by_name = module("viewer", None, None);
    assert!(is_main_app_module(&by_name, Some("org.example.Viewer"), 3, &ext));
    let by_dir = module("x", None, Some(vec![Source::Detail(SourceDetail::Dir { path: "../".to_string() })]));
    assert!(is_main_app_module(&by_dir, Some("org.example.Viewer"), 3, &ext));
    let by_url = module(
        "x",
        None,
        Some(vec![Source::Detail(SourceDetail::Git { url: "https://github.com/ex/Viewer.git".to_string() })]),
    );
    assert!(is_main_app_module(&by_url, Some("org.example.Viewer"), 3, &ext));
    let other = module("libfoo", None, Some(vec![Source::Detail(SourceDetail::Other)]));
    assert!(!is_main_app_module(&other, Some("org.example.Viewer"), 3, &ext));
    assert!(is_main_app_module(&other, Some("org.example.Viewer"), 1, &ext));
}

#[test]
fn meson_app_module_search() {
    let ext = no_files();
    let modules = vec![
        Module::Detail(module("libfoo", Some("cmake"), None)),
        Module::Detail(ModuleDetail {
            name: "bundle".to_string(),
            buildsystem: Some("simple".to_string()),
            sources: None,
            modules: Some(vec![Module::Detail(module("viewer", None, None))]),
        }),
    ];
    assert!(has_meson_app_module(&modules, Some("org.example.Viewer"), &ext));
    let cmake = vec![
        Module::Detail(module("viewer", Some("cmake"), None)),
        Module::Detail(module("other", Some("meson"), None)),
    ];
    assert!(!has_meson_app_module(&cmake, Some("org.example.Viewer"), &ext));
}

#[test]
fn meson_validation_errors() {
    let ext = no_files();
    let ws = workspace(vec![file("meson.build", "project('viewer')\n")]);
    let bare = workspace(vec![file("CMakeLists.txt", "")]);
    let declared = manifest(Some("org.example.Viewer"), Some("Meson"), None);
    assert!(declared.validate_meson(&ws, &ext).is_ok());
    assert!(matches!(declared.validate_meson(&bare, &ext), Err(ManifestError::MissingMesonBuild)));
    let cmake = manifest(
        Some("org.example.Viewer"),
        None,
        Some(vec![
            Module::Detail(module("viewer", Some("cmake"), None)),
            Module::Detail(module("other", Some("cmake"), None)),
        ]),
    );
    assert!(matches!(cmake.validate_meson(&ws, &ext), Err(ManifestError::NoMesonModule)));
    let no_modules = manifest(None, None, None);
    assert!(no_modules.validate_meson(&ws, &ext).is_ok());
}

#[test]
fn loading_a_parsed_manifest() {
    let ext = no_files();
    let ws = workspace(vec![file("meson.build", "project('viewer')\n")]);
    let parsed = manifest(Some(" org.example.Viewer.Devel"), Some("meson"), None);
    match FlatpakManifest::load_from_workspace(&ws, Some(parsed), &ext) {
        Ok(m) => assert_eq!(m.id, Some("org.example.Viewer".to_string())),
        Err(e) => panic!("unexpected {:?}", e),
    }
    let parsed = manifest(Some("org.example.Viewer"), Some("meson"), None);
    let bare = workspace(vec![]);
    assert!(matches!(
        FlatpakManifest::load_from_workspace(&bare, Some(parsed), &ext),
        Err(ManifestError::MissingMesonBuild)
    ));
}

#[test]
fn loading_a_synthetic_manifest() {
    let ext = no_files();
    let ws = workspace(vec![
        file("meson.build", "project('viewer')\napp_id = 'org.example.Viewer.Devel'\n"),
        file("snap/snapcraft.yaml", "name: viewer-snap\nversion: '1.0'\n"),
    ]);
    match FlatpakManifest::load_from_workspace(&ws, None, &ext) {
        Ok(m) => {
            assert_eq!(m.id, Some("org.example.Viewer".to_string()));
            assert_eq!(m.buildsystem, Some("meson".to_string()));
            assert_eq!(m.command, Some("viewer-snap".to_string()));
        },
        Err(e) => panic!("unexpected {:?}", e),
    }
    let ws = workspace(vec![file("meson.build", ""), file("snap/snapcraft.yaml", ": : not yaml [")]);
    match FlatpakManifest::load_from_workspace(&ws, None, &ext) {
        Ok(m) => assert_eq!(m.command, None),
        Err(e) => panic!("unexpected {:?}", e),
    }
}

#[test]
fn app_id_from_metainfo_template() {
    let ws = workspace(vec![file("data/io.github.Foo.metainfo.xml.in", "")]);
    assert_eq!(find_app_id_from_metainfo(&ws), Some("io.github.Foo".to_string()));
    assert_eq!(manifest(None, None, None).resolve_app_id(&ws), Some("io.github.Foo".to_string()));
}

fn nested(depth: usize, leaf: ModuleDetail) -> Module {
    let mut m = Module::Detail(leaf);
    for k in 0..depth {
        m = Module::Detail(ModuleDetail {
            name: format!("wrapper{}", k),
            buildsystem: Some("simple".to_string()),
            sources: None,
            modules: Some(vec![m, Module::Detail(module("other", Some("cmake"), None))]),
        });
    }
    m
}

#[test]
fn meson_module_nested_deeply() {
    let ext = no_files();
    let modules = vec![nested(100, module("viewer", None, None)), Module::Detail(module("x", Some("cmake"), None))];
    assert!(has_meson_app_module(&modules, Some("org.example.Viewer"), &ext));
}

#[test]
fn module_file_naming_itself_is_entered_once() {
    let ext = ExternalFiles {
        modules: vec![
            (
                "loop.json".to_string(),
                Some(ModuleDetail {
                    name: "loop".to_string(),
                    buildsystem: Some("simple".to_string()),
                    sources: None,
                    modules: Some(vec![
                        Module::Path("loop.json".to_string()),
                        Module::Detail(module("viewer", None, None)),
                    ]),
                }),
            ),
        ],
        sources: vec![],
    };
    let modules = vec![Module::Path("loop.json".to_string()), Module::Detail(module("y", Some("cmake"), None))];
    assert!(has_meson_app_module(&modules, Some("org.example.Viewer"), &ext));
}

#[test]
fn manifest_id_attached_to_workspace() {
    let mut ws = workspace(vec![
        file("data/other.appdata.xml", ""),
        file("data/org.example.App.metainfo.xml", ""),
    ]);
    assert_eq!(flatpak2spec::workspace::find_metainfo_file(&ws), Some(0));
    let m = manifest(Some("org.example.App"), None, None);
    m.attach_id(&mut ws);
    assert_eq!(ws.manifest_id, Some("org.example.App".to_string()));
    assert_eq!(ws.entries.len(), 2);
    assert_eq!(flatpak2spec::workspace::find_metainfo_file(&ws), Some(1));
    assert!(flatpak2spec::workspace::has_metainfo_file(&ws));
}
