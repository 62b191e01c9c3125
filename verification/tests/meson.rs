use flatpak2spec::meson::MesonProject;
use flatpak2spec::workspace::{Workspace, WorkspaceEntry};

fn file(path: &str, content: &str) -> WorkspaceEntry {
    WorkspaceEntry {
        path: path.split('/').map(|s| s.to_string()).collect(),
        is_dir: false,
        content: Some(content.to_string()),
    }
}

fn dir(path: &str) -> WorkspaceEntry {
    WorkspaceEntry {
        path: path.split('/').map(|s| s.to_string()).collect(),
        is_dir: true,
        content: None,
    }
}

fn workspace(entries: Vec<WorkspaceEntry>) -> Workspace {
    Workspace {
        root: "/work/app".to_string(),
        entries,
        manifest_id: None,
        git_tags: None,
        git_remote: None,
    }
}

const ROOT_MESON: &str = "project('Hello', ['c', 'vala'], version: '1.0', license: 'GPL-3.0-or-later', meson_version: '>= 0.62.0')
gnome = import('gnome')
i18n = import('i18n')
gtk = dependency('gtk4')
adw = dependency('libadwaita-1', version: '>= 1.4')
find_program('glib-compile-schemas')
find_program('build-aux/helper.sh')
executable('hello', 'main.c', install: true)
executable('helper-test', 'test.c', install: false)
subdir('po')
gnome.post_install(glib_compile_schemas: true, gtk_update_icon_cache: true, update_desktop_database: false)
";

fn strings(v: &[&str]) -> Vec<String> {
    v.iter().map(|s| s.to_string()).collect()
}

#[test]
fn root_project_metadata() {
    let mut p = MesonProject::new();
    p.parse_content(ROOT_MESON, true);
    assert_eq!(p.name, Some("hello".to_string()));
    assert_eq!(p.license, Some("GPL-3.0-or-later".to_string()));
    assert_eq!(p.meson_min_version, Some("0.62.0".to_string()));
    assert_eq!(p.languages, strings(&["c", "vala", "1.0", "GPL-3.0-or-later"]));
}

#[test]
fn declared_dependencies_and_tools() {
    let mut p = MesonProject::new();
    p.parse_content(ROOT_MESON, true);
    assert_eq!(
        p.pkgconfig_deps,
        strings(&["pkgconfig(gtk4)", "pkgconfig(libadwaita-1) >= 1.4"])
    );
    assert_eq!(p.required_tools, strings(&["glib-compile-schemas"]));
    assert!(p.installed_executables.is_empty());
    assert_eq!(p.modules.subdirs, strings(&["po"]));
}

#[test]
fn executable_install_window() {
    let mut p = MesonProject::new();
    p.parse_content("executable('hello', 'main.c', install: true)\n", false);
    assert_eq!(p.installed_executables, strings(&["hello"]));
    let mut q = MesonProject::new();
    q.parse_content("executable('tests', 'test.c', build_by_default : false)\n", false);
    assert!(q.installed_executables.is_empty());
}

#[test]
fn gnome_modules_and_post_install() {
    let mut p = MesonProject::new();
    p.parse_content(ROOT_MESON, true);
    assert!(p.modules.has_gnome);
    assert!(p.modules.has_i18n);
    assert!(!p.modules.has_blueprint);
    assert!(p.modules.gnome_post_install.glib_compile_schemas);
    assert!(p.modules.gnome_post_install.gtk_update_icon_cache);
    assert!(!p.modules.gnome_post_install.update_desktop_database);
    assert!(!p.is_python_app);
    assert!(!p.needs_python_build_tool);
}

#[test]
fn project_name_takes_last_dotted_part() {
    let mut p = MesonProject::new();
    p.parse_content("project('org.Example.MyApp', 'c')\n", true);
    assert_eq!(p.name, Some("myapp".to_string()));
}

#[test]
fn non_root_file_keeps_project_metadata() {
    let mut p = MesonProject::new();
    p.parse_content("project('Other', 'rust', license: 'MIT')\ndependency('glib-2.0')\n", false);
    assert_eq!(p.name, None);
    assert_eq!(p.license, None);
    assert!(p.languages.is_empty());
    assert_eq!(p.pkgconfig_deps, strings(&["pkgconfig(glib-2.0)"]));
}

#[test]
fn python_application_detection() {
    let mut p = MesonProject::new();
    p.parse_content(
        "py = import('python')\ndependency('pygobject-3.0')\nconfigure_file(input: 'app.py', output: 'app')\n",
        true,
    );
    assert!(p.is_python_app);
    assert!(p.has_pygobject);
    assert!(p.needs_python_build_tool);
}

#[test]
fn custom_target_outputs_when_installed() {
    let mut p = MesonProject::new();
    p.parse_content(
        "custom_target('gen', output: 'hello-cli', command: ['sh'], install: true)\ncustom_target('x', output: '@OUTPUT@', install_dir: 'bin')\n",
        false,
    );
    assert_eq!(p.installed_executables, strings(&["hello-cli"]));
}

#[test]
fn noarch_and_subdirs() {
    let mut p = MesonProject::new();
    p.parse_content("project('tool', 'c')\nsubdir('PO')\n", true);
    assert!(!p.is_noarch());
    assert!(p.has_subdir("po"));
    assert!(p.has_po_subdir());
    let mut q = MesonProject::new();
    q.parse_content("project('scripts')\n", true);
    assert!(q.is_noarch());
    assert!(!q.has_po_subdir());
}

#[test]
fn workspace_parse_with_license_fallback_and_subprojects() {
    let ws = workspace(vec![
        file("meson.build", "project('demo', 'c')\n"),
        file(
            "data/org.example.Demo.metainfo.xml",
            "<component><project_license>MIT</project_license></component>",
        ),
        dir("subprojects"),
        dir("subprojects/libfoo"),
        file("subprojects/libfoo/meson.build", "project('libfoo', 'c')\ndependency('zlib')\n"),
    ]);
    let p = MesonProject::parse_from_workspace(&ws);
    assert_eq!(p.name, Some("demo".to_string()));
    assert_eq!(p.license, Some("MIT".to_string()));
    assert_eq!(p.pkgconfig_deps, strings(&["pkgconfig(zlib)"]));
}

#[test]
fn rust_projects() {
    let mut p = MesonProject::new();
    p.parse_content("project('a', 'c')\n", true);
    let plain = workspace(vec![file("meson.build", "")]);
    assert!(!p.is_rust_project(&plain));
    let cargo = workspace(vec![file("meson.build", ""), file("Cargo.toml", "[package]\n")]);
    assert!(p.is_rust_project(&cargo));
    let sub = workspace(vec![
        dir("subprojects"),
        dir("subprojects/blake3"),
        file("subprojects/blake3/Cargo.toml", ""),
    ]);
    assert!(p.is_rust_project(&sub));
}

#[test]
fn executable_windows_between_characters() {
    let head = "executable('a')";
    let inside = format!("{}{}é tail", head, "x".repeat(499 - head.len()));
    assert!(!flatpak2spec::meson::executable_windows_fit(&inside));
    let between = format!("{}{}é tail", head, "x".repeat(500 - head.len()));
    assert!(flatpak2spec::meson::executable_windows_fit(&between));
    assert!(flatpak2spec::meson::executable_windows_fit("no calls here é"));
    let ws = workspace(vec![file("meson.build", &inside)]);
    assert!(MesonProject::try_parse_from_workspace(&ws).is_none());
    let ws = workspace(vec![file("meson.build", &between)]);
    let p = MesonProject::try_parse_from_workspace(&ws).expect("fits");
    assert_eq!(p.installed_executables, strings(&["a"]));
}
