//! The preamble of the spec file: the globals, the package tags and the
//! forge macros.
use vstd::prelude::*;
use crate::manifest::{resolved_app_id, FlatpakManifest};
use crate::meson::{compiled_languages, MesonProject, MesonView};
use crate::pattern::{regex_compiles, regex_replacement, Pattern};
use crate::release::{split_at_first_digit, split_tag};
use crate::sections::description::desktop_comment;
use crate::text::{
    concat2, copy_str, last_piece, lines, lines_of, opt_str_view, opt_view, split_on,
    str_lowercase, trim, trim_ws, views,
};
use crate::workspace::{
    any_with_extension, exists_at, find_and_extract_regex, first_extracted, has_desktop_file,
    has_metainfo_file, Workspace, WorkspaceEntry,
};

verus! {

pub struct HeaderSection;

/// The AppStream `<release version=...>` pattern.
pub open spec fn release_pattern() -> Seq<char> {
    r#"<release\s+version\s*=\s*['"]([^'"]+)['"]"#@
}

/// The AppStream `<summary>` pattern.
pub open spec fn summary_pattern() -> Seq<char> {
    r"(?s)<summary>(.*?)</summary>"@
}

/// The pattern of a markup tag.
pub open spec fn markup_pattern() -> Seq<char> {
    r"<[^>]*>"@
}

/// The names of AppStream files.
pub open spec fn appstream_names() -> Seq<Seq<char>> {
    seq!["metainfo.xml"@, "appdata.xml"@]
}

/// The newest tag in `git tag -l` output (its first line, trimmed), split at
/// its first digit into (version, prefix).
pub open spec fn newest_tag_split(out: Seq<char>) -> Option<(Seq<char>, Seq<char>)> {
    let ls = lines_of(out);
    if ls.len() > 0 {
        split_tag(trim_ws(ls[0]))
    } else {
        None
    }
}

/// `detect_version_and_prefix` of the header: the newest git tag when the
/// workspace is a git checkout and that tag holds a digit, else the first
/// AppStream `<release version=...>`, with an empty prefix.
pub open spec fn header_version(ws: Workspace) -> Option<(Seq<char>, Seq<char>)> {
    let ents = ws.ents();
    let tagged = exists_at(ents, seq![".git"@]) && match opt_view(ws.git_tags) {
        Some(out) => newest_tag_split(out) is Some,
        None => false,
    };
    if tagged {
        newest_tag_split(opt_view(ws.git_tags)->0)
    } else if ws.metainfo_choice() is Some && regex_compiles(release_pattern()) {
        match first_extracted(ents, appstream_names(), release_pattern()) {
            Some(v) => Some((v, Seq::<char>::empty())),
            None => None,
        }
    } else {
        None
    }
}

/// The version of the package: the detected one, else 1.0.0. The `Version:`
/// tag and the changelog entry both carry it.
pub open spec fn package_version(ws: Workspace) -> Seq<char> {
    match header_version(ws) {
        Some((v, _)) => v,
        None => "1.0.0"@,
    }
}

/// The AppStream `<summary>` of the workspace, markup removed and trimmed, when
/// not empty.
pub open spec fn metainfo_summary(ws: Workspace) -> Option<Seq<char>> {
    if ws.metainfo_choice() is Some && regex_compiles(summary_pattern()) && regex_compiles(markup_pattern()) {
        match first_extracted(ws.ents(), appstream_names(), summary_pattern()) {
            Some(s) => {
                let clean = trim_ws(regex_replacement(markup_pattern(), s, Seq::empty()));
                if clean.len() > 0 {
                    Some(clean)
                } else {
                    None
                }
            },
            None => None,
        }
    } else {
        None
    }
}

/// `detect_summary`: the AppStream summary, else a desktop `Comment=`, else
/// "<name> application".
pub open spec fn detected_summary(ws: Workspace, name: Seq<char>) -> Seq<char> {
    if metainfo_summary(ws) is Some {
        metainfo_summary(ws)->0
    } else if any_with_extension(ws.ents(), Seq::empty(), ".desktop"@) && desktop_comment(ws.ents()) is Some {
        desktop_comment(ws.ents())->0
    } else {
        name + " application"@
    }
}

/// The package name: the Meson project name, else the last dot-separated part
/// of the application id.
pub open spec fn package_name(meson_name: Option<Seq<char>>, app_id: Seq<char>) -> Seq<char> {
    match meson_name {
        Some(n) => n,
        None => split_on(app_id, '.').last(),
    }
}

/// Whether no declared language needs a compiler.
pub open spec fn noarch(m: MesonView) -> bool {
    forall|k: int| 0 <= k < m.languages.len() ==> !compiled_languages().contains(str_lowercase(#[trigger] m.languages[k]))
}

/// The preamble text.
pub open spec fn header_text(
    app_id: Seq<char>,
    url: Seq<char>,
    prefix: Seq<char>,
    name: Seq<char>,
    version: Seq<char>,
    summary: Seq<char>,
    license: Seq<char>,
    bug_url: Option<Seq<char>>,
    is_noarch: bool,
) -> Seq<char> {
    "%global         app_id        "@ + app_id + "\n"@
        + "%global         forgeurl      "@ + url + "\n"@
        + "%global         tag           "@ + prefix + "%{version}"@ + "\n\n"@
        + "Name:           "@ + name + "\n"@
        + "Version:        "@ + version + "\n"@
        + "Release:        1%{?dist}\n"@
        + "Summary:        "@ + summary + "\n"@
        + "License:        "@ + license + "\n"@
        + (match bug_url {
            Some(u) => "BugURL:         "@ + u + "\n"@,
            None => Seq::<char>::empty(),
        })
        + (if is_noarch {
            "BuildArch:      noarch\n"@
        } else {
            Seq::<char>::empty()
        })
        + "\n"@ + "%forgemeta\n\n"@
        + "URL:            %{forgeurl}\n"@
        + "Source0:        %{forgesource}"@
        + "\n\n"@
}

/// The preamble for a manifest, a Meson project and a workspace: the resolved
/// application id (else `app`), the detected version and tag prefix (else
/// 1.0.0 and none), the Meson license (else GPL-3.0-or-later) and the
/// detected summary.
pub open spec fn header_of(
    manifest_id: Option<Seq<char>>,
    m: MesonView,
    ws: Workspace,
    url: Seq<char>,
    bug_url: Option<Seq<char>>,
) -> Seq<char> {
    let app_id = match resolved_app_id(manifest_id, ws.ents()) {
        Some(i) => i,
        None => "app"@,
    };
    let name = package_name(m.name, app_id);
    let version = package_version(ws);
    let prefix = match header_version(ws) {
        Some((_, p)) => p,
        None => Seq::<char>::empty(),
    };
    let license = match m.license {
        Some(l) => l,
        None => "GPL-3.0-or-later"@,
    };
    header_text(app_id, url, prefix, name, version, detected_summary(ws, name), license, bug_url, noarch(m))
}

/// The newest tag of `git tag -l` output split at its first digit.
fn split_newest_tag(out: &str) -> (r: Option<(String, String)>)
    ensures
        match r {
            Some((v, p)) => newest_tag_split(out@) == Some((v@, p@)),
            None => newest_tag_split(out@) is None,
        },
{
    let ls = lines(out);
    if ls.len() == 0 {
        return None;
    }
    assert(views(ls@)[0] == ls@[0]@);
    let latest = trim(ls[0].as_str());
    split_at_first_digit(latest.as_str())
}

/// The preamble text for its parts.
fn render_header(
    app_id: &str,
    url: &str,
    prefix: &str,
    name: &str,
    version: &str,
    summary: &str,
    license: &str,
    bug_url: Option<&str>,
    is_noarch: bool,
) -> (r: String)
    ensures
        r@ == header_text(app_id@, url@, prefix@, name@, version@, summary@, license@, opt_str_view(bug_url), is_noarch),
{
    let mut header = String::new();
    header.append("%global         app_id        ");
    header.append(app_id);
    header.append("\n");
    header.append("%global         forgeurl      ");
    header.append(url);
    header.append("\n");
    header.append("%global         tag           ");
    header.append(prefix);
    header.append("%{version}");
    header.append("\n\n");
    header.append("Name:           ");
    header.append(name);
    header.append("\n");
    header.append("Version:        ");
    header.append(version);
    header.append("\n");
    header.append("Release:        1%{?dist}\n");
    header.append("Summary:        ");
    header.append(summary);
    header.append("\n");
    header.append("License:        ");
    header.append(license);
    header.append("\n");
    let ghost head = header@;
    match bug_url {
        Some(u) => {
            header.append("BugURL:         ");
            header.append(u);
            header.append("\n");
            assert(header@ =~= head + ("BugURL:         "@ + u@ + "\n"@));
        },
        None => {
            assert(header@ =~= head + Seq::<char>::empty());
        },
    }
    let ghost with_bug = header@;
    if is_noarch {
        header.append("BuildArch:      noarch\n");
    } else {
        assert(header@ =~= with_bug + Seq::<char>::empty());
    }
    header.append("\n");
    header.append("%forgemeta\n\n");
    header.append("URL:            %{forgeurl}\n");
    header.append("Source0:        %{forgesource}");
    header.append("\n\n");
    header
}

impl HeaderSection {
    /// The preamble of the spec file.
    pub fn generate(
        manifest: &FlatpakManifest,
        meson: &MesonProject,
        ws: &Workspace,
        canonical_url: &str,
        bug_url: Option<&str>,
    ) -> (r: String)
        ensures
            r@ == header_of(opt_view(manifest.id), meson@, *ws, canonical_url@, opt_str_view(bug_url)),
    {
        let app_id = match manifest.resolve_app_id(ws) {
            Some(i) => i,
            None => copy_str("app"),
        };
        let name = match &meson.name {
            Some(n) => copy_str(n.as_str()),
            None => last_piece(app_id.as_str(), '.'),
        };
        let (version, tag_prefix) = match HeaderSection::detect_version_and_prefix(ws) {
            Some(vp) => vp,
            None => (copy_str("1.0.0"), String::new()),
        };
        let license = match &meson.license {
            Some(l) => copy_str(l.as_str()),
            None => copy_str("GPL-3.0-or-later"),
        };
        let summary = HeaderSection::detect_summary(ws, name.as_str());
        let noarch = meson.is_noarch();

        render_header(
            app_id.as_str(),
            canonical_url,
            tag_prefix.as_str(),
            name.as_str(),
            version.as_str(),
            summary.as_str(),
            license.as_str(),
            bug_url,
            noarch,
        )
    }

    /// The released version and the tag prefix: from the newest git tag when
    /// the workspace is a git checkout, else from the AppStream release list.
    pub fn detect_version_and_prefix(ws: &Workspace) -> (r: Option<(String, String)>)
        ensures
            match r {
                Some((v, p)) => header_version(*ws) == Some((v@, p@)),
                None => header_version(*ws) is None,
            },
    {
        let git = vec![".git"];
        assert(git@.map_values(|s: &str| s@) =~= seq![".git"@]);
        if ws.path_exists(&git) {
            if let Some(out) = &ws.git_tags {
                if let Some(vp) = split_newest_tag(out.as_str()) {
                    return Some(vp);
                }
            }
        }
        if has_metainfo_file(ws) {
            let pats = vec!["metainfo.xml", "appdata.xml"];
            assert(pats@.map_values(|s: &str| s@) =~= appstream_names());
            let rel_re = r#"<release\s+version\s*=\s*['"]([^'"]+)['"]"#;
            if let Some(version) = find_and_extract_regex(ws, &pats, rel_re) {
                return Some((version, String::new()));
            }
        }
        None
    }

    /// The summary: the AppStream `<summary>` without markup, else the desktop
    /// file's `Comment=`, else "<name> application".
    fn detect_summary(ws: &Workspace, app_name: &str) -> (r: String)
        ensures
            r@ == detected_summary(*ws, app_name@),
    {
        if let Some(s) = HeaderSection::summary_from_metainfo(ws) {
            return s;
        }
        if has_desktop_file(ws) {
            let pats = vec![".desktop"];
            assert(pats@.map_values(|s: &str| s@) =~= seq![".desktop"@]);
            if let Some(comment) = find_and_extract_regex(ws, &pats, r"(?m)^_?Comment=(.+)$") {
                return comment;
            }
        }
        concat2(app_name, " application")
    }

    /// The AppStream `<summary>` without markup, trimmed, when not empty.
    fn summary_from_metainfo(ws: &Workspace) -> (r: Option<String>)
        ensures
            opt_view(r) == metainfo_summary(*ws),
    {
        if !has_metainfo_file(ws) {
            return None;
        }
        let tag_re = match Pattern::new(r"<[^>]*>") {
            Some(re) => re,
            None => return None,
        };
        let pats = vec!["metainfo.xml", "appdata.xml"];
        assert(pats@.map_values(|s: &str| s@) =~= appstream_names());
        match find_and_extract_regex(ws, &pats, r"(?s)<summary>(.*?)</summary>") {
            Some(summary) => {
                let replaced = tag_re.replace_all(summary.as_str(), "");
                proof {
                    reveal_strlit("");
                }
                assert(""@ =~= Seq::<char>::empty());
                let clean = trim(replaced.as_str());
                if clean.as_str().is_empty() {
                    None
                } else {
                    Some(clean)
                }
            },
            None => None,
        }
    }
}

} // verus!
