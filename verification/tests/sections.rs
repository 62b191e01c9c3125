use flatpak2spec::manifest::FlatpakManifest;
use flatpak2spec::meson::MesonProject;
use flatpak2spec::sections::changelog::{extract_release_notes_from_xml, ChangelogContext};
use flatpak2spec::sections::deps::DepsSection;
use flatpak2spec::sections::description::{description_from_xml, DescriptionSection};
use flatpak2spec::sections::files::{generate_files_section, FilesContext};
use flatpak2spec::sections::header::HeaderSection;
use flatpak2spec::sections::scriptlets::ScriptletsSection;
use flatpak2spec::sections::stages::BuildSection;
use flatpak2spec::workspace::{Workspace, WorkspaceEntry};

fn file(path: &str, content: &str) -> WorkspaceEntry {
    WorkspaceEntry {
        path: path.split('/').map(|s| s.to_string()).collect(),
        is_dir: false,
        content: Some(content.to_string()),
    }
}

fn dir(path: &str) -> WorkspaceEntry {
    WorkspaceEntry {
        path: path.split('/').map(|s| s.to_string()).collect(),
        is_dir: true,
        content: None,
    }
}

fn workspace(entries: Vec<WorkspaceEntry>) -> Workspace {
    Workspace {
        root: "/work/app".to_string(),
        entries,
        manifest_id: None,
        git_tags: None,
        git_remote: None,
    }
}

fn manifest(id: Option<&str>, command: Option<&str>) -> FlatpakManifest {
    let mut m = FlatpakManifest::default();
    m.id = id.map(|s| s.to_string());
    m.command = command.map(|s| s.to_string());
    m
}

const METAINFO: &str = r#"<?xml version="1.0" encoding="UTF-8"?>
<component type="desktop-application">
  <id>org.example.Hello</id>
  <summary>Greets the <em>world</em></summary>
  <description>
    <p>Hello greets
       people.</p>
    <ul>
      <li>Friendly</li>
      <li>Fast</li>
    </ul>
  </description>
  <releases>
    <release version="1.2.0" date="2024-01-01">
      <description>
        <ul><li>Added greetings</li><li>* Fixed bugs</li></ul>
      </description>
    </release>
    <release version="1.1.0"/>
  </releases>
</component>
"#;

fn strings(v: &[&str]) -> Vec<String> {
    v.iter().map(|s| s.to_string()).collect()
}

#[test]
fn tool_packages() {
    assert_eq!(DepsSection::map_tool_to_rpm_package("glib-compile-resources"), Some("glib2-devel"));
    assert_eq!(DepsSection::map_tool_to_rpm_package("appstreamcli"), Some("appstream"));
    assert_eq!(DepsSection::map_tool_to_rpm_package("git"), Some("git-core"));
    assert_eq!(DepsSection::map_tool_to_rpm_package("xgettext"), Some("gettext"));
    assert_eq!(DepsSection::map_tool_to_rpm_package("sassc"), None);
}

#[test]
fn blueprint_files() {
    assert!(DepsSection::has_blueprint_files(&workspace(vec![file("src/window.blp", "")])));
    assert!(!DepsSection::has_blueprint_files(&workspace(vec![file("src/window.ui", "")])));
}

#[test]
fn deps_minimal_project() {
    let mut p = MesonProject::new();
    p.parse_content("project('tool', 'c')\n", true);
    let ws = workspace(vec![file("meson.build", "project('tool', 'c')\n")]);
    assert_eq!(
        DepsSection::generate(&p, &ws),
        "BuildRequires:  meson\nBuildRequires:  ninja-build\nBuildRequires:  forge-srpm-macros\nBuildRequires:  gcc\n"
    );
}

#[test]
fn deps_python_and_rust() {
    let mut p = MesonProject::new();
    p.parse_content(
        "project('py', 'rust', meson_version: '>=1.0')\npy = import('python3')\ndependency('pygobject-3.0')\nfind_program('msgfmt')\n",
        true,
    );
    let ws = workspace(vec![file("Cargo.toml", "")]);
    assert_eq!(
        DepsSection::generate(&p, &ws),
        "BuildRequires:  meson >= 1.0\n\
         BuildRequires:  ninja-build\n\
         BuildRequires:  cargo\n\
         BuildRequires:  cargo-rpm-macros\n\
         BuildRequires:  forge-srpm-macros\n\
         BuildRequires:  gettext\n\
         BuildRequires:  pkgconfig(pygobject-3.0)\n\
         BuildRequires:  python3-devel\n\
         BuildRequires:  rustc\n\
         \n\
         Requires:       python3\n\
         Requires:       python3-gobject\n"
    );
}

#[test]
fn description_of_metainfo_document() {
    assert_eq!(
        description_from_xml(METAINFO),
        Some("Hello greets people.\n- Friendly\n- Fast".to_string())
    );
    assert_eq!(description_from_xml("<component><id>x</id></component>"), None);
    assert_eq!(description_from_xml("<not xml"), None);
}

#[test]
fn description_sources_in_order() {
    let ws = workspace(vec![file("data/a.metainfo.xml", METAINFO)]);
    assert_eq!(
        DescriptionSection::generate(&ws, "fallback"),
        "%description\nHello greets people.\n- Friendly\n- Fast\n"
    );
    let ws = workspace(vec![file("data/a.desktop", "[Desktop Entry]\nComment= A desktop comment \n")]);
    assert_eq!(DescriptionSection::generate(&ws, "fallback"), "%description\nA desktop comment\n");
    let ws = workspace(vec![file(
        "README.md",
        "# Title\n\n[!NOTE]\nFirst line\n  second line  \n\nLater paragraph\n",
    )]);
    assert_eq!(
        DescriptionSection::generate(&ws, "fallback"),
        "%description\nFirst line second line\n"
    );
    let ws = workspace(vec![]);
    assert_eq!(DescriptionSection::generate(&ws, "My app"), "%description\nMy app.\n");
}

#[test]
fn release_notes_of_a_version() {
    assert_eq!(
        extract_release_notes_from_xml(METAINFO, "1.2.0"),
        Some(strings(&["Added greetings", "* Fixed bugs"]))
    );
    assert_eq!(extract_release_notes_from_xml(METAINFO, "1.1.0"), None);
    assert_eq!(extract_release_notes_from_xml(METAINFO, "9.9"), None);
    assert_eq!(extract_release_notes_from_xml("garbage", "1.2.0"), None);
}

#[test]
fn changelog_entry_with_notes() {
    let ctx = ChangelogContext::new("Tester", "t@example.org", "1.2.0", "1");
    assert_eq!(
        ctx.generate_dated("Mon Jan 01 2024", Some(METAINFO)),
        "%changelog\n* Mon Jan 01 2024 Tester <t@example.org> - 1.2.0-1\n- Added greetings\n- * Fixed bugs\n"
    );
}

#[test]
fn changelog_entry_without_notes() {
    let ctx = ChangelogContext::new("Tester", "t@example.org", "1.1.0", "2");
    assert_eq!(
        ctx.generate_dated("Tue Feb 02 2021", Some(METAINFO)),
        "%changelog\n* Tue Feb 02 2021 Tester <t@example.org> - 1.1.0-2\n- Update to version 1.1.0\n"
    );
    assert_eq!(
        ctx.generate_dated("Tue Feb 02 2021", None),
        "%changelog\n* Tue Feb 02 2021 Tester <t@example.org> - 1.1.0-2\n- Update to version 1.1.0\n"
    );
}

#[test]
fn changelog_truncates_after_ten_notes() {
    let mut items = String::new();
    for k in 1..=12 {
        items.push_str(&format!("<li>Note {}</li>", k));
    }
    let xml = format!(
        "<component><releases><release version=\"2.0\"><description><ul>{}</ul></description></release></releases></component>",
        items
    );
    let ctx = ChangelogContext::new("P", "p@x", "2.0", "1");
    let out = ctx.generate_dated("D", Some(&xml));
    let mut expected = String::from("%changelog\n* D P <p@x> - 2.0-1\n");
    for k in 1..=10 {
        expected.push_str(&format!("- Note {}\n", k));
    }
    expected.push_str("- ... see upstream for full release notes\n");
    assert_eq!(out, expected);
    assert_eq!(out.lines().count(), 13);
}

#[test]
fn changelog_is_dated() {
    let ctx = ChangelogContext::new("P", "p@x", "2.0", "1");
    let out = ctx.generate(None);
    assert!(out.starts_with("%changelog\n* "));
    assert!(out.ends_with(" P <p@x> - 2.0-1\n- Update to version 2.0\n"));
}

#[test]
fn scriptlets_for_units() {
    let ws = workspace(vec![
        file("data/b.service", "[Service]\n"),
        file("data/a.socket.in", "[Socket]\n"),
    ]);
    assert_eq!(
        ScriptletsSection::generate(&ws),
        "%post\n%systemd_post a.socket b.service\n\n%preun\n%systemd_preun a.socket b.service\n\n%postun\n%systemd_postun_with_restart a.socket b.service\n\n"
    );
    assert_eq!(ScriptletsSection::generate(&workspace(vec![])), "");
}

#[test]
fn build_stages() {
    let mut p = MesonProject::new();
    p.parse_content("project('x', 'c')\npy = import('python')\nsubdir('po')\n", true);
    let ws = workspace(vec![file("data/x.desktop", "")]);
    assert_eq!(
        BuildSection::generate(&p, &ws),
        "%prep\n%autosetup -C -p1\n\n%build\n%meson\n%meson_build\n\n%install\n%meson_install\n%find_lang %{name}\n%py3_shebang_fix %{buildroot}%{_bindir}/%{name} %{buildroot}%{_datadir}/%{name}/\n\n%check\n%meson_test\ndesktop-file-validate %{buildroot}%{_datadir}/applications/*.desktop\n\n"
    );
}

#[test]
fn files_listing() {
    let ctx = FilesContext {
        binary_name: "%{app_id}".to_string(),
        has_i18n: false,
        has_desktop: true,
        has_metainfo: false,
        has_schemas: false,
        has_dbus: true,
        has_icons: false,
        has_user_service: true,
        has_system_service: false,
        doc_files: strings(&["NEWS", "README.md"]),
        license_files: vec![],
    };
    assert_eq!(
        generate_files_section(&ctx),
        "%files\n%doc NEWS README.md\n%{_bindir}/%{app_id}\n%{_datadir}/%{app_id}\n%{_datadir}/applications/%{app_id}.desktop\n%{_datadir}/dbus-1/services/*.service\n%{_userunitdir}/*.service\n"
    );
}

#[test]
fn files_context_of_workspace() {
    let ws = workspace(vec![
        file("README.md", ""),
        file("COPYING", ""),
        file("LICENSE.txt", ""),
        file("NEWS", ""),
        file("docs/README.md", ""),
        file("po/de.po", ""),
    ]);
    let m = manifest(Some("org.example.Tool"), Some("org.example.Tool"));
    let ctx = FilesContext::inspect(&ws, Some(&m), None);
    assert_eq!(ctx.binary_name, "%{app_id}");
    assert!(ctx.has_i18n);
    assert_eq!(ctx.doc_files, strings(&["NEWS", "README.md"]));
    assert_eq!(ctx.license_files, strings(&["COPYING", "LICENSE.txt"]));
    let other = manifest(None, Some("tool-bin"));
    assert_eq!(FilesContext::inspect(&ws, Some(&other), None).binary_name, "tool-bin");
    assert_eq!(FilesContext::inspect(&ws, None, None).binary_name, "%{name}");
}

#[test]
fn header_with_defaults() {
    let mut p = MesonProject::new();
    p.parse_content("project('scripts')\n", true);
    let ws = workspace(vec![file("meson.build", "project('scripts')\n")]);
    let m = manifest(None, None);
    assert_eq!(
        HeaderSection::generate(&m, &p, &ws, "", None),
        "%global         app_id        app\n\
         %global         forgeurl      \n\
         %global         tag           %{version}\n\n\
         Name:           scripts\n\
         Version:        1.0.0\n\
         Release:        1%{?dist}\n\
         Summary:        scripts application\n\
         License:        GPL-3.0-or-later\n\
         BuildArch:      noarch\n\
         \n\
         %forgemeta\n\n\
         URL:            %{forgeurl}\n\
         Source0:        %{forgesource}\n\n"
    );
}

#[test]
fn header_version_sources() {
    let mut ws = workspace(vec![
        dir(".git"),
        file("data/a.metainfo.xml", "<releases><release version='3.1' date='x'/></releases>"),
    ]);
    ws.git_tags = Some("  release-2.5 \nrelease-2.4\n".to_string());
    assert_eq!(
        HeaderSection::detect_version_and_prefix(&ws),
        Some(("2.5".to_string(), "release-".to_string()))
    );
    ws.git_tags = Some("nightly\n".to_string());
    assert_eq!(
        HeaderSection::detect_version_and_prefix(&ws),
        Some(("3.1".to_string(), "".to_string()))
    );
    ws.entries.remove(0);
    ws.git_tags = Some("v9.0\n".to_string());
    assert_eq!(
        HeaderSection::detect_version_and_prefix(&ws),
        Some(("3.1".to_string(), "".to_string()))
    );
    ws.entries.clear();
    assert_eq!(HeaderSection::detect_version_and_prefix(&ws), None);
}

#[test]
fn header_names_from_id_and_summary_from_desktop() {
    let mut p = MesonProject::new();
    p.parse_content("", true);
    let ws = workspace(vec![file("data/t.desktop", "[Desktop Entry]\nComment=Edits text\n")]);
    let m = manifest(Some(" org.example.TextEdit.Devel "), None);
    let h = HeaderSection::generate(&m, &p, &ws, "https://example.org/te", Some("https://example.org/bugs"));
    assert!(h.starts_with("%global         app_id        org.example.TextEdit\n%global         forgeurl      https://example.org/te\n"));
    assert!(h.contains("\nName:           TextEdit\n"));
    assert!(h.contains("\nSummary:        Edits text\n"));
    assert!(h.contains("\nBugURL:         https://example.org/bugs\nBuildArch:      noarch\n\n%forgemeta\n"));
}

#[test]
fn doc_and_license_names_ignore_case() {
    let ws = workspace(vec![file("license.md", ""), file("ChangeLog", ""), file("news.txt", "")]);
    let ctx = FilesContext::inspect(&ws, None, None);
    assert_eq!(ctx.license_files, strings(&["license.md"]));
    assert_eq!(ctx.doc_files, strings(&["ChangeLog", "news.txt"]));
}

#[test]
fn authors_contributors_and_todo_are_docs() {
    let ws = workspace(vec![
        file("AUTHORS", ""),
        file("CONTRIBUTORS", ""),
        file("TODO", ""),
        file("README.md", ""),
        file("LICENSE", ""),
    ]);
    let ctx = FilesContext::inspect(&ws, None, None);
    assert_eq!(ctx.doc_files, strings(&["AUTHORS", "CONTRIBUTORS", "README.md", "TODO"]));
    assert_eq!(ctx.license_files, strings(&["LICENSE"]));
}

#[test]
fn cargo_manifest_libraries() {
    let mut p = MesonProject::new();
    p.parse_content("project('rs', 'rust')\n", true);
    let cargo = "[package]\nname = \"rs\"\n\n[dependencies]\ngtk = { version = \"0.9\", package = \"gtk4\" }\nadw = { version = \"0.7\", package = \"libadwaita\" }\ngstreamer-video = \"0.23\"\ngstreamer-sys = \"0.23\"\nserde = \"1\"\n\n[dev-dependencies]\ngstreamer = \"0.23\"\n";
    let ws = workspace(vec![file("Cargo.toml", cargo)]);
    assert_eq!(
        DepsSection::generate(&p, &ws),
        "BuildRequires:  meson\n\
         BuildRequires:  ninja-build\n\
         BuildRequires:  cargo\n\
         BuildRequires:  cargo-rpm-macros\n\
         BuildRequires:  forge-srpm-macros\n\
         BuildRequires:  pkgconfig(gstreamer-video-1.0)\n\
         BuildRequires:  pkgconfig(gtk4)\n\
         BuildRequires:  pkgconfig(libadwaita-1)\n\
         BuildRequires:  rustc\n"
    );
}
