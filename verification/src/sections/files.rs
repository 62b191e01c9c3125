//! The `%files` section.
use vstd::prelude::*;
use crate::manifest::FlatpakManifest;
use crate::meson::MesonProject;
use crate::text::{
    begins_with, concat3, copy_str, has_substr, join, join_with, lemma_is_sorted_of,
    lemma_join_begins_with_first, lemma_join_holds_neighbours, lemma_join_holds_part,
    lemma_occurs_in_left, lemma_occurs_in_right,
    occurs_at, opt_str_view, opt_view,
    sorted_insert, sorted_of,
    starts_with, str_eq, str_uppercase, strictly_sorted, to_uppercase, views,
};
use crate::workspace::{
    any_with_extension, check_file_extension, comps, detect_systemd_units, has_desktop_file,
    has_metainfo_file, is_reached, matches_any, name_matches, name_of, reached, Workspace,
    WorkspaceEntry,
};
use crate::sections::stages::text_when;

verus! {

/// What the `%files` section lists.
#[derive(Debug)]
pub struct FilesContext {
    pub binary_name: String,
    pub has_i18n: bool,
    pub has_desktop: bool,
    pub has_metainfo: bool,
    pub has_schemas: bool,
    pub has_dbus: bool,
    pub has_icons: bool,
    pub has_user_service: bool,
    pub has_system_service: bool,
    pub doc_files: Vec<String>,
    pub license_files: Vec<String>,
}

/// The name patterns of documentation and license files.
pub open spec fn doc_patterns() -> Seq<Seq<char>> {
    seq!["license"@, "copying"@, "readme"@, "news"@, "changelog"@, "authors"@, "contributors"@, "todo"@]
}

/// A top-level file that the documentation scan looks at.
pub open spec fn doc_candidate(e: WorkspaceEntry) -> bool {
    reached(e, Seq::empty()) && name_matches(name_of(e), doc_patterns()) && comps(e).len() == 1
}

/// A license file name.
pub open spec fn is_license_name(n: Seq<char>) -> bool {
    begins_with(str_uppercase(n), "LICENSE"@) || begins_with(str_uppercase(n), "COPYING"@)
}

/// A documentation file name.
pub open spec fn is_doc_name(n: Seq<char>) -> bool {
    !is_license_name(n) && (begins_with(str_uppercase(n), "README"@) || begins_with(
        str_uppercase(n),
        "NEWS"@,
    ) || begins_with(str_uppercase(n), "CHANGELOG"@) || begins_with(str_uppercase(n), "AUTHORS"@)
        || begins_with(str_uppercase(n), "CONTRIBUTORS"@) || begins_with(str_uppercase(n), "TODO"@))
}

/// The names of the top-level files that satisfy `f`.
pub open spec fn top_level_names(ents: Seq<WorkspaceEntry>, f: spec_fn(Seq<char>) -> bool) -> Set<Seq<char>> {
    Set::new(
        |n: Seq<char>|
            exists|i: int|
                0 <= i < ents.len() && doc_candidate(#[trigger] ents[i]) && f(name_of(ents[i]))
                    && name_of(ents[i]) == n,
    )
}

/// The binary name the `%files` section installs.
pub open spec fn binary_name_for(cmd: Option<Seq<char>>, meson_name: Option<Seq<char>>, manifest_id: Option<Seq<char>>) -> Seq<char> {
    match cmd {
        Some(c) => if Some(c) == meson_name {
            "%{name}"@
        } else if Some(c) == manifest_id {
            "%{app_id}"@
        } else {
            c
        },
        None => "%{name}"@,
    }
}

/// The `%files` section for a context.
pub open spec fn files_text(ctx: FilesContext) -> Seq<char> {
    (if ctx.has_i18n {
        "%files -f %{name}.lang\n"@
    } else {
        "%files\n"@
    }) + text_when(ctx.license_files@.len() > 0, "%license "@ + join_with(views(ctx.license_files@), " "@) + "\n"@)
        + text_when(ctx.doc_files@.len() > 0, "%doc "@ + join_with(views(ctx.doc_files@), " "@) + "\n"@)
        + "%{_bindir}/"@ + ctx.binary_name@ + "\n"@ + "%{_datadir}/"@ + ctx.binary_name@ + "\n"@
        + text_when(ctx.has_desktop, "%{_datadir}/applications/%{app_id}.desktop\n"@)
        + text_when(ctx.has_icons, "%{_datadir}/icons/hicolor/*/apps/%{app_id}*\n"@)
        + text_when(ctx.has_schemas, "%{_datadir}/glib-2.0/schemas/*.gschema.xml\n"@)
        + text_when(ctx.has_dbus, "%{_datadir}/dbus-1/services/*.service\n"@)
        + text_when(ctx.has_metainfo, "%{_metainfodir}/%{app_id}.metainfo.xml\n"@)
        + text_when(ctx.has_user_service, "%{_userunitdir}/*.service\n"@)
        + text_when(ctx.has_system_service, "%{_unitdir}/*.service\n"@)
}

/// The `%files` section for a workspace, the manifest's command and id and
/// the Meson project's name and translation flag: what `inspect` finds, listed
/// by `generate_files_section`.
pub open spec fn files_of(
    ws: Workspace,
    cmd: Option<Seq<char>>,
    meson_name: Option<Seq<char>>,
    manifest_id: Option<Seq<char>>,
    meson_i18n: bool,
) -> Seq<char> {
    let ents = ws.ents();
    let licenses = sorted_of(top_level_names(ents, |n: Seq<char>| is_license_name(n)));
    let docs = sorted_of(top_level_names(ents, |n: Seq<char>| is_doc_name(n)));
    let binary = binary_name_for(cmd, meson_name, manifest_id);
    (if meson_i18n || any_with_extension(ents, Seq::empty(), ".po"@) {
        "%files -f %{name}.lang\n"@
    } else {
        "%files\n"@
    }) + text_when(licenses.len() > 0, "%license "@ + join_with(licenses, " "@) + "\n"@)
        + text_when(docs.len() > 0, "%doc "@ + join_with(docs, " "@) + "\n"@)
        + "%{_bindir}/"@ + binary + "\n"@ + "%{_datadir}/"@ + binary + "\n"@
        + text_when(any_with_extension(ents, Seq::empty(), ".desktop"@), "%{_datadir}/applications/%{app_id}.desktop\n"@)
        + text_when(
            any_with_extension(ents, Seq::empty(), ".svg"@) || any_with_extension(ents, Seq::empty(), ".png"@),
            "%{_datadir}/icons/hicolor/*/apps/%{app_id}*\n"@,
        )
        + text_when(any_with_extension(ents, Seq::empty(), ".gschema.xml"@), "%{_datadir}/glib-2.0/schemas/*.gschema.xml\n"@)
        + text_when(any_with_extension(ents, Seq::empty(), ".service"@), "%{_datadir}/dbus-1/services/*.service\n"@)
        + text_when(ws.metainfo_choice() is Some, "%{_metainfodir}/%{app_id}.metainfo.xml\n"@)
        + text_when(
            exists|i: int| ws.is_counted_unit(i) && ws.scope_of(i) is User,
            "%{_userunitdir}/*.service\n"@,
        )
        + text_when(
            exists|i: int| ws.is_counted_unit(i) && ws.scope_of(i) is System,
            "%{_unitdir}/*.service\n"@,
        )
}

/// The `%files` section of a manifest, a Meson project and a workspace.
pub fn files_section(ws: &Workspace, manifest: &FlatpakManifest, meson: &MesonProject) -> (r: String)
    ensures
        r@ == files_of(*ws, opt_view(manifest.command), meson@.name, opt_view(manifest.id), meson@.has_i18n),
{
    let ctx = FilesContext::inspect(ws, Some(manifest), Some(meson));
    proof {
        lemma_is_sorted_of(views(ctx.doc_files@));
        lemma_is_sorted_of(views(ctx.license_files@));
    }
    generate_files_section(&ctx)
}

/// Scans the workspace root for standard license and documentation files;
/// returns the documentation and the license file names, each sorted.
pub fn scan_docs_and_licenses(ws: &Workspace) -> (r: (Vec<String>, Vec<String>))
    ensures
        strictly_sorted(views(r.0@)),
        strictly_sorted(views(r.1@)),
        views(r.0@).to_set() == top_level_names(ws.ents(), |n: Seq<char>| is_doc_name(n)),
        views(r.1@).to_set() == top_level_names(ws.ents(), |n: Seq<char>| is_license_name(n)),
{
    let root: Vec<&str> = Vec::new();
    assert(root@.map_values(|s: &str| s@) =~= Seq::<Seq<char>>::empty());
    let pats = vec!["license", "copying", "readme", "news", "changelog", "authors", "contributors", "todo"];
    assert(pats@.map_values(|s: &str| s@) =~= doc_patterns());
    let ghost ents = ws.ents();
    let ghost fd = |n: Seq<char>| is_doc_name(n);
    let ghost fl = |n: Seq<char>| is_license_name(n);
    let mut docs: Vec<String> = Vec::new();
    let mut licenses: Vec<String> = Vec::new();
    let mut i: usize = 0;
    assert(views(docs@).to_set() =~= Set::<Seq<char>>::empty());
    assert(views(licenses@).to_set() =~= Set::<Seq<char>>::empty());
    while i < ws.entries.len()
        invariant
            i <= ws.entries.len(),
            ents == ws.ents(),
            root@.map_values(|s: &str| s@) == Seq::<Seq<char>>::empty(),
            pats@.map_values(|s: &str| s@) == doc_patterns(),
            strictly_sorted(views(docs@)),
            strictly_sorted(views(licenses@)),
            views(docs@).to_set() == Set::new(
                |n: Seq<char>|
                    exists|j: int|
                        0 <= j < i && doc_candidate(#[trigger] ents[j]) && is_doc_name(name_of(ents[j]))
                            && name_of(ents[j]) == n,
            ),
            views(licenses@).to_set() == Set::new(
                |n: Seq<char>|
                    exists|j: int|
                        0 <= j < i && doc_candidate(#[trigger] ents[j]) && is_license_name(name_of(ents[j]))
                            && name_of(ents[j]) == n,
            ),
        decreases ws.entries.len() - i,
    {
        let e = &ws.entries[i];
        let ghost old_docs = views(docs@).to_set();
        let ghost old_lic = views(licenses@).to_set();
        if e.path.len() == 1 && is_reached(e, &root) && matches_any(e.path[0].as_str(), &pats) {
            let name = e.path[0].as_str();
            assert(name_of(*e) == name@);
            let upper = to_uppercase(name);
            let u = upper.as_str();
            if starts_with(u, "LICENSE") || starts_with(u, "COPYING") {
                sorted_insert(&mut licenses, copy_str(name));
            } else if starts_with(u, "README") || starts_with(u, "NEWS") || starts_with(u, "CHANGELOG")
                || starts_with(u, "AUTHORS") || starts_with(u, "CONTRIBUTORS") || starts_with(u, "TODO") {
                sorted_insert(&mut docs, copy_str(name));
            }
        }
        assert(views(docs@).to_set() =~= Set::new(
            |n: Seq<char>|
                exists|j: int|
                    0 <= j < i + 1 && doc_candidate(#[trigger] ents[j]) && is_doc_name(name_of(ents[j]))
                        && name_of(ents[j]) == n,
        )) by {
            if !(doc_candidate(ents[i as int]) && is_doc_name(name_of(ents[i as int]))) {
                assert(views(docs@).to_set() == old_docs);
            }
        }
        assert(views(licenses@).to_set() =~= Set::new(
            |n: Seq<char>|
                exists|j: int|
                    0 <= j < i + 1 && doc_candidate(#[trigger] ents[j]) && is_license_name(name_of(ents[j]))
                        && name_of(ents[j]) == n,
        )) by {
            if !(doc_candidate(ents[i as int]) && is_license_name(name_of(ents[i as int]))) {
                assert(views(licenses@).to_set() == old_lic);
            }
        }
        i += 1;
    }
    assert(views(docs@).to_set() =~= top_level_names(ents, fd));
    assert(views(licenses@).to_set() =~= top_level_names(ents, fl));
    (docs, licenses)
}

impl FilesContext {
    /// Inspects the workspace for what the `%files` section lists.
    pub fn inspect(ws: &Workspace, manifest: Option<&FlatpakManifest>, meson: Option<&MesonProject>) -> (c: FilesContext)
        ensures
            c.binary_name@ == binary_name_for(
                match manifest {
                    Some(m) => opt_view(m.command),
                    None => None,
                },
                match meson {
                    Some(p) => p@.name,
                    None => None,
                },
                match manifest {
                    Some(m) => opt_view(m.id),
                    None => None,
                },
            ),
            c.has_i18n == ((match meson {
                Some(p) => p@.has_i18n,
                None => false,
            }) || any_with_extension(ws.ents(), Seq::empty(), ".po"@)),
            c.has_desktop == any_with_extension(ws.ents(), Seq::empty(), ".desktop"@),
            c.has_metainfo == ws.metainfo_choice() is Some,
            c.has_schemas == any_with_extension(ws.ents(), Seq::empty(), ".gschema.xml"@),
            c.has_dbus == any_with_extension(ws.ents(), Seq::empty(), ".service"@),
            c.has_icons == (any_with_extension(ws.ents(), Seq::empty(), ".svg"@) || any_with_extension(
                ws.ents(),
                Seq::empty(),
                ".png"@,
            )),
            c.has_user_service == exists|i: int| ws.is_counted_unit(i) && ws.scope_of(i) is User,
            c.has_system_service == exists|i: int| ws.is_counted_unit(i) && ws.scope_of(i) is System,
            strictly_sorted(views(c.doc_files@)),
            strictly_sorted(views(c.license_files@)),
            views(c.doc_files@).to_set() == top_level_names(ws.ents(), |n: Seq<char>| is_doc_name(n)),
            views(c.license_files@).to_set() == top_level_names(ws.ents(), |n: Seq<char>| is_license_name(n)),
    {
        let meson_name: Option<&str> = match meson {
            Some(m) => match &m.name {
                Some(n) => Some(n.as_str()),
                None => None,
            },
            None => None,
        };
        let manifest_id: Option<&str> = match manifest {
            Some(m) => match &m.id {
                Some(n) => Some(n.as_str()),
                None => None,
            },
            None => None,
        };
        let manifest_cmd: Option<&str> = match manifest {
            Some(m) => match &m.command {
                Some(n) => Some(n.as_str()),
                None => None,
            },
            None => None,
        };
        let binary_name = match manifest_cmd {
            Some(cmd) => {
                let same_as_name = match meson_name {
                    Some(n) => str_eq(cmd, n),
                    None => false,
                };
                let same_as_id = match manifest_id {
                    Some(n) => str_eq(cmd, n),
                    None => false,
                };
                if same_as_name {
                    copy_str("%{name}")
                } else if same_as_id {
                    copy_str("%{app_id}")
                } else {
                    copy_str(cmd)
                }
            },
            None => copy_str("%{name}"),
        };
        let root: Vec<&str> = Vec::new();
        assert(root@.map_values(|s: &str| s@) =~= Seq::<Seq<char>>::empty());
        let meson_i18n = match meson {
            Some(m) => m.modules.has_i18n,
            None => false,
        };
        let has_i18n = meson_i18n || check_file_extension(ws, &root, ".po");
        let has_desktop = has_desktop_file(ws);
        let has_metainfo = has_metainfo_file(ws);
        let has_schemas = check_file_extension(ws, &root, ".gschema.xml");
        let has_dbus = check_file_extension(ws, &root, ".service");
        let has_icons = check_file_extension(ws, &root, ".svg") || check_file_extension(ws, &root, ".png");
        let systemd = detect_systemd_units(ws);
        let (doc_files, license_files) = scan_docs_and_licenses(ws);
        FilesContext {
            binary_name,
            has_i18n,
            has_desktop,
            has_metainfo,
            has_schemas,
            has_dbus,
            has_icons,
            has_user_service: systemd.has_user,
            has_system_service: systemd.has_system,
            doc_files,
            license_files,
        }
    }
}

/// Appends `line` when `c` holds.
fn append_when(out: &mut String, c: bool, line: &str)
    ensures
        final(out)@ == old(out)@ + text_when(c, line@),
{
    if c {
        out.append(line);
    } else {
        assert(old(out)@ + text_when(c, line@) =~= old(out)@);
    }
}

/// Appends `prefix`, the items joined with spaces and a newline, when there are items.
fn append_list_line(out: &mut String, prefix: &str, items: &Vec<String>)
    ensures
        final(out)@ == old(out)@ + text_when(items@.len() > 0, prefix@ + join_with(views(items@), " "@) + "\n"@),
{
    if items.len() > 0 {
        let l = join(items, " ");
        out.append(concat3(prefix, l.as_str(), "\n").as_str());
    } else {
        assert(old(out)@ + text_when(items@.len() > 0, prefix@ + join_with(views(items@), " "@) + "\n"@) =~= old(out)@);
    }
}

/// The `%files` section for a context.
pub fn generate_files_section(ctx: &FilesContext) -> (r: String)
    ensures
        r@ == files_text(*ctx),
{
    let mut out = if ctx.has_i18n {
        copy_str("%files -f %{name}.lang\n")
    } else {
        copy_str("%files\n")
    };
    append_list_line(&mut out, "%license ", &ctx.license_files);
    append_list_line(&mut out, "%doc ", &ctx.doc_files);
    let b = ctx.binary_name.as_str();
    out.append("%{_bindir}/");
    out.append(b);
    out.append("\n");
    out.append("%{_datadir}/");
    out.append(b);
    out.append("\n");
    append_when(&mut out, ctx.has_desktop, "%{_datadir}/applications/%{app_id}.desktop\n");
    append_when(&mut out, ctx.has_icons, "%{_datadir}/icons/hicolor/*/apps/%{app_id}*\n");
    append_when(&mut out, ctx.has_schemas, "%{_datadir}/glib-2.0/schemas/*.gschema.xml\n");
    append_when(&mut out, ctx.has_dbus, "%{_datadir}/dbus-1/services/*.service\n");
    append_when(&mut out, ctx.has_metainfo, "%{_metainfodir}/%{app_id}.metainfo.xml\n");
    append_when(&mut out, ctx.has_user_service, "%{_userunitdir}/*.service\n");
    append_when(&mut out, ctx.has_system_service, "%{_unitdir}/*.service\n");
    out
}


/// Where `w` occurs in a list line (`prefix`, the parts joined with spaces, a
/// newline) that follows `head`, the occurrence shows in the whole text.
proof fn lemma_line_after_head(head: Seq<char>, prefix: Seq<char>, parts: Seq<Seq<char>>, w: Seq<char>, i: int) -> (j: int)
    requires
        parts.len() > 0,
        occurs_at(join_with(parts, " "@), w, i),
    ensures
        occurs_at(head + text_when(parts.len() > 0, prefix + join_with(parts, " "@) + "\n"@), w, j),
{
    let joined = join_with(parts, " "@);
    lemma_occurs_in_right(prefix, joined, w, i);
    lemma_occurs_in_left(prefix + joined, "\n"@, w, prefix.len() + i);
    lemma_occurs_in_right(head, prefix + joined + "\n"@, w, prefix.len() + i);
    head.len() + prefix.len() + i
}

/// What occurs in the first lines of the `%files` section (its heading and the
/// `%license` line) occurs at the same place in the whole section.
proof fn lemma_files_text_keeps_head(ctx: FilesContext, w: Seq<char>, j: int)
    requires
        occurs_at(
            (if ctx.has_i18n {
                "%files -f %{name}.lang\n"@
            } else {
                "%files\n"@
            }) + text_when(ctx.license_files@.len() > 0, "%license "@ + join_with(views(ctx.license_files@), " "@) + "\n"@),
            w,
            j,
        ),
    ensures
        occurs_at(files_text(ctx), w, j),
{
    let b = ctx.binary_name@;
    let s0 = (if ctx.has_i18n {
        "%files -f %{name}.lang\n"@
    } else {
        "%files\n"@
    }) + text_when(ctx.license_files@.len() > 0, "%license "@ + join_with(views(ctx.license_files@), " "@) + "\n"@);
    let t1 = text_when(ctx.doc_files@.len() > 0, "%doc "@ + join_with(views(ctx.doc_files@), " "@) + "\n"@);
    let s1 = s0 + t1;
    lemma_occurs_in_left(s0, t1, w, j);
    let s2 = s1 + "%{_bindir}/"@;
    lemma_occurs_in_left(s1, "%{_bindir}/"@, w, j);
    let s3 = s2 + b;
    lemma_occurs_in_left(s2, b, w, j);
    let s4 = s3 + "\n"@;
    lemma_occurs_in_left(s3, "\n"@, w, j);
    let s5 = s4 + "%{_datadir}/"@;
    lemma_occurs_in_left(s4, "%{_datadir}/"@, w, j);
    let s6 = s5 + b;
    lemma_occurs_in_left(s5, b, w, j);
    let s7 = s6 + "\n"@;
    lemma_occurs_in_left(s6, "\n"@, w, j);
    let t8 = text_when(ctx.has_desktop, "%{_datadir}/applications/%{app_id}.desktop\n"@);
    let s8 = s7 + t8;
    lemma_occurs_in_left(s7, t8, w, j);
    let t9 = text_when(ctx.has_icons, "%{_datadir}/icons/hicolor/*/apps/%{app_id}*\n"@);
    let s9 = s8 + t9;
    lemma_occurs_in_left(s8, t9, w, j);
    let t10 = text_when(ctx.has_schemas, "%{_datadir}/glib-2.0/schemas/*.gschema.xml\n"@);
    let s10 = s9 + t10;
    lemma_occurs_in_left(s9, t10, w, j);
    let t11 = text_when(ctx.has_dbus, "%{_datadir}/dbus-1/services/*.service\n"@);
    let s11 = s10 + t11;
    lemma_occurs_in_left(s10, t11, w, j);
    let t12 = text_when(ctx.has_metainfo, "%{_metainfodir}/%{app_id}.metainfo.xml\n"@);
    let s12 = s11 + t12;
    lemma_occurs_in_left(s11, t12, w, j);
    let t13 = text_when(ctx.has_user_service, "%{_userunitdir}/*.service\n"@);
    let s13 = s12 + t13;
    lemma_occurs_in_left(s12, t13, w, j);
    let t14 = text_when(ctx.has_system_service, "%{_unitdir}/*.service\n"@);
    lemma_occurs_in_left(s13, t14, w, j);
    assert(s13 + t14 == files_text(ctx));
}

/// The `%license` line lists every license file found: each name occurs in the
/// `%files` section, the first right after `%license `, and neighbouring names
/// follow each other in order with one space between them.
pub proof fn law_every_license_is_listed(ctx: FilesContext)
    ensures
        forall|k: int| 0 <= k < ctx.license_files@.len() ==> has_substr(files_text(ctx), #[trigger] ctx.license_files@[k]@),
        forall|k: int|
            #![trigger ctx.license_files@[k]]
            0 <= k && k + 1 < ctx.license_files@.len() ==> has_substr(
                files_text(ctx),
                ctx.license_files@[k]@ + " "@ + ctx.license_files@[k + 1]@,
            ),
        ctx.license_files@.len() > 0 ==> has_substr(files_text(ctx), "%license "@ + ctx.license_files@[0]@),
{
    let names = views(ctx.license_files@);
    let head: Seq<char> = if ctx.has_i18n {
        "%files -f %{name}.lang\n"@
    } else {
        "%files\n"@
    };
    let lines = head + text_when(names.len() > 0, "%license "@ + join_with(names, " "@) + "\n"@);
    let t = files_text(ctx);
    assert forall|w: Seq<char>, j: int| occurs_at(lines, w, j) implies occurs_at(t, w, j) by {
        lemma_files_text_keeps_head(ctx, w, j);
    }
    assert forall|k: int| 0 <= k < ctx.license_files@.len() implies has_substr(t, #[trigger] ctx.license_files@[k]@) by {
        let i = lemma_join_holds_part(names, " "@, k);
        let j = lemma_line_after_head(head, "%license "@, names, names[k], i);
        assert(occurs_at(t, names[k], j));
    }
    assert forall|k: int|
        #![trigger ctx.license_files@[k]]
        0 <= k && k + 1 < ctx.license_files@.len() implies has_substr(
            t,
            ctx.license_files@[k]@ + " "@ + ctx.license_files@[k + 1]@,
        ) by {
        let i = lemma_join_holds_neighbours(names, " "@, k);
        let w = names[k] + " "@ + names[k + 1];
        let j = lemma_line_after_head(head, "%license "@, names, w, i);
        assert(occurs_at(t, w, j));
    }
    if names.len() > 0 {
        let w = "%license "@ + names[0];
        lemma_join_begins_with_first(names, " "@);
        let joined = join_with(names, " "@);
        let line = "%license "@ + joined + "\n"@;
        assert(("%license "@ + joined).subrange(0, w.len() as int) =~= "%license "@ + joined.subrange(
            0,
            names[0].len() as int,
        ));
        assert(occurs_at("%license "@ + joined, w, 0));
        lemma_occurs_in_left("%license "@ + joined, "\n"@, w, 0);
        lemma_occurs_in_right(head, line, w, 0);
        assert(occurs_at(t, w, head.len() as int));
    }
}

/// No file is listed both as a license and as documentation.
pub proof fn law_docs_and_licenses_disjoint(ents: Seq<WorkspaceEntry>)
    ensures
        top_level_names(ents, |n: Seq<char>| is_doc_name(n)).disjoint(
            top_level_names(ents, |n: Seq<char>| is_license_name(n)),
        ),
{
    let docs = top_level_names(ents, |n: Seq<char>| is_doc_name(n));
    let lics = top_level_names(ents, |n: Seq<char>| is_license_name(n));
    assert forall|n: Seq<char>| docs.contains(n) implies !lics.contains(n) by {
        let i = choose|i: int|
            0 <= i < ents.len() && doc_candidate(#[trigger] ents[i]) && is_doc_name(name_of(ents[i]))
                && name_of(ents[i]) == n;
        assert(is_doc_name(n));
    }
}

}
