use flatpak2spec::cli::Cli;
use flatpak2spec::manifest::FlatpakManifest;
use flatpak2spec::meson::MesonProject;
use flatpak2spec::spec::SpecGenerator;
use flatpak2spec::workspace::{Workspace, WorkspaceEntry};

fn file(path: &str, content: &str) -> WorkspaceEntry {
    WorkspaceEntry {
        path: path.split('/').map(|s| s.to_string()).collect(),
        is_dir: false,
        content: Some(content.to_string()),
    }
}

fn dir(path: &str) -> WorkspaceEntry {
    WorkspaceEntry {
        path: path.split('/').map(|s| s.to_string()).collect(),
        is_dir: true,
        content: None,
    }
}

fn cli(bug_url: Option<&str>, packager: Option<&str>, email: Option<&str>) -> Cli {
    Cli {
        repo: ".".to_string(),
        bug_url: bug_url.map(|s| s.to_string()),
        packager: packager.map(|s| s.to_string()),
        email: email.map(|s| s.to_string()),
        output: None,
        verbose: 0,
    }
}

const ROOT_MESON: &str = "project('Hello', ['c', 'vala'], version: '1.0', license: 'GPL-3.0-or-later', meson_version: '>= 0.62.0')
gnome = import('gnome')
i18n = import('i18n')
gtk = dependency('gtk4')
adw = dependency('libadwaita-1', version: '>= 1.4')
find_program('glib-compile-schemas')
executable('hello', 'main.c', install: true)
subdir('po')
gnome.post_install(glib_compile_schemas: true, gtk_update_icon_cache: true, update_desktop_database: false)
";

const METAINFO: &str = r#"<?xml version="1.0" encoding="UTF-8"?>
<component type="desktop-application">
  <id>org.example.Hello</id>
  <summary>Greets the <em>world</em></summary>
  <description>
    <p>Hello greets people.</p>
    <ul>
      <li>Friendly</li>
      <li>Fast</li>
    </ul>
  </description>
  <releases>
    <release version="1.2.0" date="2024-01-01">
      <description>
        <ul><li>Added greetings</li><li>Fixed bugs</li></ul>
      </description>
    </release>
  </releases>
</component>
"#;

fn gnome_workspace() -> Workspace {
    Workspace {
        root: "/work/hello".to_string(),
        entries: vec![
            dir(".git"),
            file("meson.build", ROOT_MESON),
            dir("po"),
            file("po/meson.build", "i18n.gettext('hello', preset: 'glib')\n"),
            dir("data"),
            file("data/org.example.Hello.desktop.in", "[Desktop Entry]\nName=Hello\nComment=Say hello\n"),
            file("data/org.example.Hello.metainfo.xml.in", METAINFO),
            file("data/org.example.Hello.gschema.xml", "<schemalist/>"),
            dir("data/icons"),
            file("data/icons/org.example.Hello.svg", "<svg/>"),
            file("LICENSE", "GPL"),
            file("README.md", "# Hello\n\nSays hello.\n"),
        ],
        manifest_id: Some("org.example.Hello".to_string()),
        git_tags: Some("v1.2.0\nv1.1.0\n".to_string()),
        git_remote: Some("git@github.com:example/hello.git\n".to_string()),
    }
}

#[test]
fn gnome_application_spec() {
    let ws = gnome_workspace();
    let meson = MesonProject::parse_from_workspace(&ws);
    let mut manifest = FlatpakManifest::default();
    manifest.id = Some("org.example.Hello".to_string());
    manifest.command = Some("hello".to_string());
    let c = cli(Some("https://github.com/example/hello/issues"), Some("Tester"), Some("t@example.org"));
    let spec = SpecGenerator::generate_dated(&manifest, &meson, &ws, &c, "Mon Jan 01 2024");
    let expected = "\
%global         app_id        org.example.Hello
%global         forgeurl      https://github.com/example/hello
%global         tag           v%{version}

Name:           hello
Version:        1.2.0
Release:        1%{?dist}
Summary:        Greets the world
License:        GPL-3.0-or-later
BugURL:         https://github.com/example/hello/issues

%forgemeta

URL:            %{forgeurl}
Source0:        %{forgesource}

BuildRequires:  meson >= 0.62.0
BuildRequires:  ninja-build
BuildRequires:  desktop-file-utils
BuildRequires:  forge-srpm-macros
BuildRequires:  gcc
BuildRequires:  gettext
BuildRequires:  glib2-devel
BuildRequires:  glibc-langpack-en
BuildRequires:  gtk-update-icon-cache
BuildRequires:  libappstream-glib
BuildRequires:  pkgconfig(gtk4)
BuildRequires:  pkgconfig(libadwaita-1) >= 1.4
BuildRequires:  valac

Requires:       gtk4
Requires:       hicolor-icon-theme
Requires:       libadwaita

%description
Hello greets people.
- Friendly
- Fast

%prep
%autosetup -C -p1

%build
%meson
%meson_build

%install
%meson_install
%find_lang %{name}

%check
%meson_test
desktop-file-validate %{buildroot}%{_datadir}/applications/*.desktop
appstream-util validate-relax --nonet %{buildroot}%{_metainfodir}/*.metainfo.xml
glib-compile-schemas --dry-run --strict %{buildroot}%{_datadir}/glib-2.0/schemas/

%files -f %{name}.lang
%license LICENSE
%doc README.md
%{_bindir}/%{name}
%{_datadir}/%{name}
%{_datadir}/applications/%{app_id}.desktop
%{_datadir}/icons/hicolor/*/apps/%{app_id}*
%{_datadir}/glib-2.0/schemas/*.gschema.xml
%{_metainfodir}/%{app_id}.metainfo.xml

%changelog
* Mon Jan 01 2024 Tester <t@example.org> - 1.2.0-1
- Added greetings
- Fixed bugs
";
    assert_eq!(spec, expected);
}

#[test]
fn minimal_project_spec() {
    let ws = Workspace {
        root: "/work/hello".to_string(),
        entries: vec![
            file("meson.build", "project('hello', 'c', license: 'MIT')\nexecutable('hello', 'main.c', install: true)\n"),
            file("README.md", "# Hello\n\nA tiny greeter.\n"),
            file("LICENSE", "MIT"),
        ],
        manifest_id: None,
        git_tags: None,
        git_remote: None,
    };
    let meson = MesonProject::parse_from_workspace(&ws);
    let mut manifest = FlatpakManifest::default();
    manifest.id = Some("org.example.Hello".to_string());
    manifest.command = Some("hello".to_string());
    let spec = SpecGenerator::generate_dated(&manifest, &meson, &ws, &cli(None, None, None), "Mon Jan 01 2024");
    let expected = "\
%global         app_id        org.example.Hello
%global         forgeurl      
%global         tag           %{version}

Name:           hello
Version:        1.0.0
Release:        1%{?dist}
Summary:        hello application
License:        MIT

%forgemeta

URL:            %{forgeurl}
Source0:        %{forgesource}

BuildRequires:  meson
BuildRequires:  ninja-build
BuildRequires:  forge-srpm-macros
BuildRequires:  gcc

%description
A tiny greeter.

%prep
%autosetup -C -p1

%build
%meson
%meson_build

%install
%meson_install

%check
%meson_test

%files
%license LICENSE
%doc README.md
%{_bindir}/%{name}
%{_datadir}/%{name}

%changelog
* Mon Jan 01 2024 Packager <packager@localhost> - 1.0.0-1
- Update to version 1.0.0
";
    assert_eq!(spec, expected);
}

#[test]
fn spec_with_todays_date_ends_with_newline() {
    let ws = gnome_workspace();
    let meson = MesonProject::parse_from_workspace(&ws);
    let manifest = FlatpakManifest::default();
    let spec = SpecGenerator::generate(&manifest, &meson, &ws, &cli(None, None, None));
    assert!(spec.starts_with("%global         app_id        "));
    assert!(spec.contains("\n%changelog\n* "));
    assert!(spec.ends_with("- Added greetings\n- Fixed bugs\n"));
}
