use flatpak2spec::forge::Forge;

#[test]
fn detect_known_forges() {
    assert_eq!(Forge::detect("https://github.com/alainm23/planify"), Forge::GitHub);
    assert_eq!(Forge::detect("https://codeberg.org/someone/app"), Forge::Codeberg);
    assert_eq!(Forge::detect("https://gitlab.gnome.org/World/app"), Forge::GitLab);
    assert_eq!(Forge::detect("https://example.org/app.git"), Forge::Generic);
}

#[test]
fn github_archive_url_with_prefix() {
    let f = Forge::GitHub;
    assert_eq!(
        f.format_source_url("https://github.com/alainm23/planify", "v"),
        "%{url}/archive/v%{version}.tar.gz"
    );
}

#[test]
fn gitlab_archive_url_without_prefix() {
    let f = Forge::GitLab;
    assert_eq!(
        f.format_source_url("https://gitlab.gnome.org/World/app", ""),
        "%{url}/-/archive/%{version}.tar.gz"
    );
}

#[test]
fn local_source_uses_plain_tarball() {
    let f = Forge::Generic;
    assert_eq!(f.format_source_url("/home/me/app", "v"), "%{name}-%{version}.tar.gz");
}
