//! The whole spec file, section by section.
use vstd::prelude::*;
use crate::cargo::cargo_requirements;
use crate::cli::Cli;
use crate::manifest::FlatpakManifest;
use crate::meson::{has_po, rust_project, MesonProject, MesonView};
use crate::repository::{origin_remote, web_url_of, RepoResolver};
use crate::sections::changelog::{changelog_entry, ChangelogContext};
use crate::sections::deps::{build_requires, deps_text, runtime_requires, DepsSection};
use crate::sections::description::{detected_description, DescriptionSection};
use crate::sections::files::{files_of, files_section};
use crate::sections::header::{header_of, package_version, HeaderSection};
use crate::sections::scriptlets::{scriptlets_of, ScriptletsSection};
use crate::sections::stages::{build_text, BuildSection};
use crate::text::{copy_str, ends_with, finishes_with, opt_view, sorted_of};
use crate::workspace::{any_with_extension, find_metainfo_file, Workspace};

verus! {

pub struct SpecGenerator;

/// The blank line that separates a section from the next, unless the section
/// already ends with one.
pub open spec fn separator(section: Seq<char>) -> Seq<char> {
    if finishes_with(section, "\n\n"@) {
        Seq::<char>::empty()
    } else {
        "\n"@
    }
}

/// The sections put together: each followed by a blank line unless it ends
/// with one (the preamble, the dependencies, the description, the build
/// stages, the scriptlets when there are any, the file list), then the
/// changelog, and a final newline unless the text ends with one.
pub open spec fn assembled(
    header: Seq<char>,
    deps: Seq<char>,
    description: Seq<char>,
    build: Seq<char>,
    scriptlets: Seq<char>,
    files: Seq<char>,
    changelog: Seq<char>,
) -> Seq<char> {
    let s = header + separator(header) + deps + separator(deps) + description + separator(description)
        + build + separator(build);
    let s = if scriptlets.len() == 0 {
        s
    } else {
        s + scriptlets + separator(scriptlets)
    };
    let s = s + files + separator(files) + changelog;
    if finishes_with(s, "\n"@) {
        s
    } else {
        s + "\n"@
    }
}

/// The dependency lines for a Meson project and a workspace.
pub open spec fn deps_of(m: MesonView, ws: Workspace) -> Seq<char> {
    let ents = ws.ents();
    deps_text(
        sorted_of(
            build_requires(
                m,
                rust_project(m, ents),
                any_with_extension(ents, Seq::empty(), ".blp"@),
                any_with_extension(ents, Seq::empty(), ".desktop"@),
                ws.metainfo_choice() is Some,
                cargo_requirements(ents),
            ),
        ),
        sorted_of(runtime_requires(m, any_with_extension(ents, Seq::empty(), ".desktop"@))),
    )
}

/// The `%description` section, with `fallback` followed by a full stop where
/// the workspace describes nothing.
pub open spec fn description_of(ws: Workspace, fallback: Seq<char>) -> Seq<char> {
    "%description\n"@ + match detected_description(ws) {
        Some(d) => d,
        None => fallback + "."@,
    } + "\n"@
}

/// The build stages for a Meson project and a workspace.
pub open spec fn build_of(m: MesonView, ws: Workspace) -> Seq<char> {
    build_text(
        has_po(m),
        m.is_python_app,
        any_with_extension(ws.ents(), Seq::empty(), ".desktop"@),
        ws.metainfo_choice() is Some,
        m.post_install.glib_compile_schemas,
    )
}

/// The text of the workspace's AppStream file, when it has a readable one.
pub open spec fn metainfo_text(ws: Workspace) -> Option<Seq<char>> {
    match ws.metainfo_choice() {
        Some(i) => opt_view(ws.ents()[i].content),
        None => None,
    }
}

/// The packager name of the options, `Packager` by default.
pub open spec fn packager_of(cli: Cli) -> Seq<char> {
    match cli.packager {
        Some(p) => p@,
        None => "Packager"@,
    }
}

/// The packager email of the options, `packager@localhost` by default.
pub open spec fn email_of(cli: Cli) -> Seq<char> {
    match cli.email {
        Some(e) => e@,
        None => "packager@localhost"@,
    }
}

/// The spec file for a manifest, a Meson project, a workspace and the options,
/// with the changelog entry dated `date`.
pub open spec fn spec_text(m: FlatpakManifest, p: MesonView, ws: Workspace, cli: Cli, date: Seq<char>) -> Seq<char> {
    let header = header_of(opt_view(m.id), p, ws, web_url_of(origin_remote(ws)), opt_view(cli.bug_url));
    assembled(
        header,
        deps_of(p, ws),
        description_of(ws, header),
        build_of(p, ws),
        scriptlets_of(ws),
        files_of(ws, opt_view(m.command), p.name, opt_view(m.id), p.has_i18n),
        changelog_entry(packager_of(cli), email_of(cli), package_version(ws), "1"@, date, metainfo_text(ws)),
    )
}

/// Appends `section` and, unless it ends with a blank line, a newline.
fn push_section(spec: &mut String, section: &str)
    ensures
        final(spec)@ == old(spec)@ + section@ + separator(section@),
{
    spec.append(section);
    if !ends_with(section, "\n\n") {
        spec.append("\n");
    } else {
        assert(spec@ =~= old(spec)@ + section@ + Seq::<char>::empty());
    }
}

/// The sections put together.
fn assemble(
    header: &str,
    deps: &str,
    description: &str,
    build: &str,
    scriptlets: &str,
    files: &str,
    changelog: &str,
) -> (r: String)
    ensures
        r@ == assembled(header@, deps@, description@, build@, scriptlets@, files@, changelog@),
{
    let mut spec = String::new();
    push_section(&mut spec, header);
    push_section(&mut spec, deps);
    push_section(&mut spec, description);
    push_section(&mut spec, build);
    if !scriptlets.is_empty() {
        push_section(&mut spec, scriptlets);
    }
    push_section(&mut spec, files);
    spec.append(changelog);
    if !ends_with(spec.as_str(), "\n") {
        spec.append("\n");
    }
    assert(Seq::<char>::empty() + header@ =~= header@);
    spec
}

/// The text of the workspace's AppStream file.
fn read_metainfo(ws: &Workspace) -> (r: Option<String>)
    ensures
        opt_view(r) == metainfo_text(*ws),
{
    match find_metainfo_file(ws) {
        Some(i) => match &ws.entries[i].content {
            Some(c) => Some(copy_str(c.as_str())),
            None => None,
        },
        None => None,
    }
}

impl SpecGenerator {
    /// The spec file, with the changelog entry dated `date`.
    pub fn generate_dated(
        manifest: &FlatpakManifest,
        meson: &MesonProject,
        ws: &Workspace,
        cli: &Cli,
        date: &str,
    ) -> (r: String)
        ensures
            r@ == spec_text(*manifest, meson@, *ws, *cli, date@),
    {
        let canonical_url = RepoResolver::resolve_web_url(ws);
        let bug_url: Option<&str> = match &cli.bug_url {
            Some(u) => Some(u.as_str()),
            None => None,
        };
        let header = HeaderSection::generate(manifest, meson, ws, canonical_url.as_str(), bug_url);
        let deps = DepsSection::generate(meson, ws);
        let description = DescriptionSection::generate(ws, header.as_str());
        let build = BuildSection::generate(meson, ws);
        let scriptlets = ScriptletsSection::generate(ws);
        let files = files_section(ws, manifest, meson);
        let version = match HeaderSection::detect_version_and_prefix(ws) {
            Some((v, _)) => v,
            None => copy_str("1.0.0"),
        };
        let metainfo_xml = read_metainfo(ws);
        let xml: Option<&str> = match &metainfo_xml {
            Some(x) => Some(x.as_str()),
            None => None,
        };
        let ctx = ChangelogContext::new(cli.packager_name(), cli.packager_email(), version.as_str(), "1");
        let changelog = ctx.generate_dated(date, xml);
        assemble(
            header.as_str(),
            deps.as_str(),
            description.as_str(),
            build.as_str(),
            scriptlets.as_str(),
            files.as_str(),
            changelog.as_str(),
        )
    }

    /// The spec file, with the changelog entry dated today (UTC).
    pub fn generate(manifest: &FlatpakManifest, meson: &MesonProject, ws: &Workspace, cli: &Cli) -> (r: String)
        ensures
            exists|date: Seq<char>| r@ == spec_text(*manifest, meson@, *ws, *cli, date),
    {
        let date = crate::sections::changelog::utc_today();
        SpecGenerator::generate_dated(manifest, meson, ws, cli, date.as_str())
    }
}


/// Whatever its inputs, the spec file ends with a newline.
pub proof fn law_spec_ends_with_newline(
    m: FlatpakManifest,
    p: MesonView,
    ws: Workspace,
    cli: Cli,
    date: Seq<char>,
)
    ensures
        finishes_with(spec_text(m, p, ws, cli, date), "\n"@),
{
    let t = spec_text(m, p, ws, cli, date);
    let header = header_of(opt_view(m.id), p, ws, web_url_of(origin_remote(ws)), opt_view(cli.bug_url));
    let d = deps_of(p, ws);
    let desc = description_of(ws, header);
    let b = build_of(p, ws);
    let sc = scriptlets_of(ws);
    let f = files_of(ws, opt_view(m.command), p.name, opt_view(m.id), p.has_i18n);
    let cl = changelog_entry(packager_of(cli), email_of(cli), package_version(ws), "1"@, date, metainfo_text(ws));
    let s0 = header + separator(header) + d + separator(d) + desc + separator(desc) + b + separator(b);
    let s1 = if sc.len() == 0 {
        s0
    } else {
        s0 + sc + separator(sc)
    };
    let s2 = s1 + f + separator(f) + cl;
    reveal_strlit("\n");
    assert(t == assembled(header, d, desc, b, sc, f, cl));
    if !finishes_with(s2, "\n"@) {
        let u = s2 + "\n"@;
        assert(u.subrange(u.len() - 1, u.len() as int) =~= "\n"@);
        assert(t == u);
    } else {
        assert(t == s2);
    }
}

} // verus!
