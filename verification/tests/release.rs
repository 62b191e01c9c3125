use flatpak2spec::release::{
    detect_version_and_prefix, flathub_version, local_tag_list, remote_tag_list,
    split_at_first_digit,
};

fn tags(v: &[&str]) -> Vec<String> {
    v.iter().map(|s| s.to_string()).collect()
}

#[test]
fn split_tag_at_first_digit() {
    assert_eq!(
        split_at_first_digit("v1.2.0"),
        Some(("1.2.0".to_string(), "v".to_string()))
    );
    assert_eq!(
        split_at_first_digit("release-10"),
        Some(("10".to_string(), "release-".to_string()))
    );
    assert_eq!(split_at_first_digit("2.0"), Some(("2.0".to_string(), "".to_string())));
    assert_eq!(split_at_first_digit("latest"), None);
}

#[test]
fn split_tag_rejoins_to_tag() {
    for t in ["v1.0", "app-2.3.4", "42", "x9y"] {
        let (v, p) = split_at_first_digit(t).unwrap();
        assert_eq!(format!("{}{}", p, v), t);
    }
}

#[test]
fn local_tags_are_trimmed_lines() {
    assert_eq!(local_tag_list("v1.1\n\n  v1.0 \n"), tags(&["v1.1", "v1.0"]));
    assert_eq!(local_tag_list(""), Vec::<String>::new());
}

#[test]
fn remote_tags_from_ls_remote() {
    let out = "abc123\trefs/tags/v1.0\ndef456\trefs/heads/main\n0f0f\trefs/tags/0.9\n";
    assert_eq!(remote_tag_list(out), tags(&["v1.0", "0.9"]));
}

#[test]
fn flathub_reply_version() {
    let reply = r#"{"id":"org.example.App","releases":[{"version":" 2.0 "},{"version":"1.9"}]}"#;
    assert_eq!(flathub_version(reply), Some("2.0".to_string()));
}

#[test]
fn flathub_reply_without_version() {
    assert_eq!(flathub_version("not json"), None);
    assert_eq!(flathub_version(r#"{"releases":[]}"#), None);
    assert_eq!(flathub_version(r#"{"releases":[{"version":"  "}]}"#), None);
    assert_eq!(flathub_version(r#"{"releases":[{"version":3}]}"#), None);
}

#[test]
fn published_version_takes_prefix_of_matching_tag() {
    let t = tags(&["v2.1", "release-2.0", "v1.9"]);
    assert_eq!(
        detect_version_and_prefix(&t, Some("2.0")),
        Some(("2.0".to_string(), "release-".to_string()))
    );
}

#[test]
fn published_version_without_tag_uses_newest_prefix() {
    let t = tags(&["v2.1", "v1.9"]);
    assert_eq!(
        detect_version_and_prefix(&t, Some("3.0")),
        Some(("3.0".to_string(), "v".to_string()))
    );
    assert_eq!(
        detect_version_and_prefix(&Vec::new(), Some("3.0")),
        Some(("3.0".to_string(), "".to_string()))
    );
}

#[test]
fn newest_tag_when_nothing_published() {
    let t = tags(&["v2.1", "v1.9"]);
    assert_eq!(
        detect_version_and_prefix(&t, None),
        Some(("2.1".to_string(), "v".to_string()))
    );
    assert_eq!(detect_version_and_prefix(&tags(&["nightly"]), None), None);
    assert_eq!(detect_version_and_prefix(&Vec::new(), None), None);
}

#[test]
fn prefix_of_published_version_has_no_digit() {
    let t = tags(&["v12.1.0", "v2.1.0"]);
    assert_eq!(
        detect_version_and_prefix(&t, Some("2.1.0")),
        Some(("2.1.0".to_string(), "v".to_string()))
    );
    let t = tags(&["v12.1.0", "12.1.0"]);
    assert_eq!(
        detect_version_and_prefix(&t, Some("2.1.0")),
        Some(("2.1.0".to_string(), "v".to_string()))
    );
}
