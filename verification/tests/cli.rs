use flatpak2spec::cli::{resolve_output_path, Cli};

fn cli(packager: Option<&str>, email: Option<&str>) -> Cli {
    Cli {
        repo: "https://github.com/a/b".to_string(),
        bug_url: None,
        packager: packager.map(|s| s.to_string()),
        email: email.map(|s| s.to_string()),
        output: None,
        verbose: 0,
    }
}

#[test]
fn packager_defaults() {
    let c = cli(None, None);
    assert_eq!(c.packager_name(), "Packager");
    assert_eq!(c.packager_email(), "packager@localhost");
}

#[test]
fn packager_given() {
    let c = cli(Some("Infiniti151"), Some("me@example.org"));
    assert_eq!(c.packager_name(), "Infiniti151");
    assert_eq!(c.packager_email(), "me@example.org");
}

#[test]
fn output_path_into_directory() {
    assert_eq!(
        resolve_output_path(Some("/tmp/out".to_string()), "planify", true),
        Some("/tmp/out/planify.spec".to_string())
    );
}

#[test]
fn output_path_gets_spec_extension() {
    assert_eq!(
        resolve_output_path(Some("/tmp/out/app.txt".to_string()), "planify", false),
        Some("/tmp/out/app.spec".to_string())
    );
    assert_eq!(
        resolve_output_path(Some("app".to_string()), "planify", false),
        Some("app.spec".to_string())
    );
}

#[test]
fn no_output_means_stdout() {
    assert_eq!(resolve_output_path(None, "planify", false), None);
}
