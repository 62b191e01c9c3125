use flatpak2spec::cargo::crates_of_cargo_toml;

#[test]
fn crates_of_dependency_tables() {
    let text = "[package]\nname = \"app\"\nversion = \"1.0\"\n\n[dependencies]\n# comment = 1\ngtk = { package = \"gtk4\", version = \"0.9\" }\nadw.workspace = true\n\"libadwaita\" = \"0.7\"\n\n[target.'cfg(unix)'.dependencies]\ngstreamer = \"0.23\"\n\n[dependencies.glib]\nversion = \"0.20\"\n\n[build-dependencies]\ncc = \"1\"\n";
    let crates: Vec<String> = crates_of_cargo_toml(text);
    assert_eq!(crates, vec!["gtk4", "adw", "libadwaita", "gstreamer", "glib", "cc"]);
}
