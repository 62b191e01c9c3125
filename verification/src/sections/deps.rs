//! The `BuildRequires:` and `Requires:` block.
use vstd::prelude::*;
use crate::cargo::{add_workspace_cargo_requirements, cargo_requirements};
use crate::meson::{has_po, rust_project, MesonProject, MesonView};
use crate::text::{
    begins_with, concat2, concat3, copy_str, lemma_is_sorted_of, sorted_insert, sorted_of, starts_with,
    str_eq, str_lowercase, strictly_sorted, to_lowercase, views,
};
use crate::workspace::{any_with_extension, check_file_extension, has_desktop_file, has_metainfo_file, Workspace};

verus! {

pub struct DepsSection;

/// `meson`, or `meson >= V` for a declared minimum version.
pub open spec fn meson_requirement(m: MesonView) -> Seq<char> {
    match m.meson_min_version {
        Some(v) => "meson >= "@ + v,
        None => "meson"@,
    }
}

/// The compiler packages one language needs.
pub open spec fn language_packages(l: Seq<char>) -> Set<Seq<char>> {
    let x = str_lowercase(l);
    if x == "c"@ {
        set!["gcc"@]
    } else if x == "cpp"@ {
        set!["gcc-c++"@]
    } else if x == "vala"@ {
        set!["valac"@]
    } else if x == "rust"@ {
        set!["cargo"@, "rustc"@]
    } else {
        Set::empty()
    }
}

/// The compiler packages the languages need.
pub open spec fn languages_packages(ls: Seq<Seq<char>>) -> Set<Seq<char>> {
    Set::new(|x: Seq<char>| exists|k: int| 0 <= k < ls.len() && language_packages(#[trigger] ls[k]).contains(x))
}

/// The RPM package that provides a tool that `find_program()` looks for.
pub open spec fn tool_package(t: Seq<char>) -> Seq<char> {
    match rpm_package_of(t) {
        Some(p) => p,
        None => t,
    }
}

/// `map_tool_to_rpm_package`.
pub open spec fn rpm_package_of(t: Seq<char>) -> Option<Seq<char>> {
    if t == "glib-compile-schemas"@ || t == "glib-compile-resources"@ || t == "gdbus-codegen"@ {
        Some("glib2-devel"@)
    } else if t == "appstream-util"@ {
        Some("libappstream-glib"@)
    } else if t == "appstreamcli"@ {
        Some("appstream"@)
    } else if t == "desktop-file-validate"@ {
        Some("desktop-file-utils"@)
    } else if t == "git"@ {
        Some("git-core"@)
    } else if t == "msgfmt"@ || t == "msgmerge"@ || t == "xgettext"@ {
        Some("gettext"@)
    } else {
        None
    }
}

/// `s` when `c` holds, else nothing.
pub open spec fn when(c: bool, s: Set<Seq<char>>) -> Set<Seq<char>> {
    if c {
        s
    } else {
        Set::empty()
    }
}

/// The build requirements of a project (`cargo`: those its Cargo manifests bring).
pub open spec fn build_requires(
    m: MesonView,
    rust: bool,
    blueprint_files: bool,
    desktop: bool,
    metainfo: bool,
    cargo: Set<Seq<char>>,
) -> Set<Seq<char>> {
    set!["forge-srpm-macros"@, meson_requirement(m), "ninja-build"@]
        + when(m.is_python_app || m.needs_python_build_tool, set!["python3-devel"@])
        + when(m.has_pygobject, set!["pkgconfig(pygobject-3.0)"@])
        + languages_packages(m.languages)
        + when(rust, set!["cargo"@, "rustc"@, "cargo-rpm-macros"@])
        + m.pkgconfig_deps
        + m.required_tools.map(|t: Seq<char>| tool_package(t))
        + when(m.has_blueprint || blueprint_files, set!["blueprint-compiler"@])
        + when(m.has_i18n || has_po(m), set!["gettext"@, "glibc-langpack-en"@])
        + when(m.post_install.glib_compile_schemas || m.has_gnome, set!["glib2-devel"@])
        + when(m.post_install.gtk_update_icon_cache, set!["gtk-update-icon-cache"@])
        + when(m.post_install.update_desktop_database, set!["desktop-file-utils"@])
        + when(desktop, set!["desktop-file-utils"@])
        + when(metainfo, set!["libappstream-glib"@])
        + cargo
}

/// The run-time requirements of a project.
pub open spec fn runtime_requires(m: MesonView, desktop: bool) -> Set<Seq<char>> {
    when(m.is_python_app, set!["python3"@]) + when(m.is_python_app && m.has_pygobject, set!["python3-gobject"@])
        + if m.has_gnome {
        set!["gtk4"@, "libadwaita"@, "hicolor-icon-theme"@]
    } else {
        when(desktop, set!["hicolor-icon-theme"@])
    }
}

/// A requirement that names the Meson or Ninja build tool.
pub open spec fn is_build_tool(s: Seq<char>) -> bool {
    begins_with(s, "meson"@) || begins_with(s, "ninja"@)
}

/// The items for which `want(is_build_tool(item))` holds, in order.
pub open spec fn keep_tools(s: Seq<Seq<char>>, want: bool) -> Seq<Seq<char>>
    decreases s.len(),
{
    if s.len() == 0 {
        s
    } else {
        let r = keep_tools(s.drop_last(), want);
        if is_build_tool(s.last()) == want {
            r.push(s.last())
        } else {
            r
        }
    }
}

/// One line `prefix + item` per item.
pub open spec fn listing(prefix: Seq<char>, items: Seq<Seq<char>>) -> Seq<char>
    decreases items.len(),
{
    if items.len() == 0 {
        Seq::empty()
    } else {
        listing(prefix, items.drop_last()) + prefix + items.last() + "\n"@
    }
}

/// The block for the sorted requirement lists `br` and `rq`: build tools first,
/// each group in sorted order, then a blank line and the run-time requirements.
pub open spec fn deps_text(br: Seq<Seq<char>>, rq: Seq<Seq<char>>) -> Seq<char> {
    (if br.len() > 0 {
        listing("BuildRequires:  "@, keep_tools(br, true) + keep_tools(br, false))
    } else {
        Seq::empty()
    }) + (if rq.len() > 0 {
        "\n"@ + listing("Requires:       "@, rq)
    } else {
        Seq::empty()
    })
}

fn add_entry(v: &mut Vec<String>, s: &str)
    requires
        strictly_sorted(views(old(v)@)),
    ensures
        strictly_sorted(views(final(v)@)),
        views(final(v)@).to_set() == views(old(v)@).to_set().insert(s@),
{
    sorted_insert(v, copy_str(s));
}

/// Appends `prefix + item + "\n"` for each item of `items` that is (or is not) a build tool.
fn append_listing(out: &mut String, prefix: &str, items: &Vec<String>, tools: bool)
    ensures
        final(out)@ == old(out)@ + listing(prefix@, keep_tools(views(items@), tools)),
{
    let ghost start = out@;
    let ghost all = views(items@);
    let mut k: usize = 0;
    assert(all.take(0) =~= Seq::<Seq<char>>::empty());
    assert(start + listing(prefix@, keep_tools(all.take(0), tools)) =~= start);
    while k < items.len()
        invariant
            k <= items.len(),
            all == views(items@),
            out@ == start + listing(prefix@, keep_tools(all.take(k as int), tools)),
        decreases items.len() - k,
    {
        let it = items[k].as_str();
        assert(all.take(k + 1).drop_last() =~= all.take(k as int));
        assert(all.take(k + 1).last() == it@);
        let is_tool = starts_with(it, "meson") || starts_with(it, "ninja");
        let ghost q = keep_tools(all.take(k as int), tools);
        if is_tool == tools {
            let line = concat3(prefix, it, "\n");
            out.append(line.as_str());
            assert(keep_tools(all.take(k + 1), tools) == q.push(it@));
            assert(q.push(it@).drop_last() =~= q);
            assert(listing(prefix@, q.push(it@)) == listing(prefix@, q) + prefix@ + it@ + "\n"@);
            assert(out@ =~= start + listing(prefix@, keep_tools(all.take(k + 1), tools)));
        } else {
            assert(keep_tools(all.take(k + 1), tools) == q);
        }
        k += 1;
    }
    assert(all.take(items.len() as int) =~= all);
}

/// Appends `prefix + item + "\n"` for every item.
fn append_all(out: &mut String, prefix: &str, items: &Vec<String>)
    ensures
        final(out)@ == old(out)@ + listing(prefix@, views(items@)),
{
    let ghost start = out@;
    let ghost all = views(items@);
    let mut k: usize = 0;
    assert(all.take(0) =~= Seq::<Seq<char>>::empty());
    assert(start + listing(prefix@, all.take(0)) =~= start);
    while k < items.len()
        invariant
            k <= items.len(),
            all == views(items@),
            out@ == start + listing(prefix@, all.take(k as int)),
        decreases items.len() - k,
    {
        let it = items[k].as_str();
        assert(all.take(k + 1).drop_last() =~= all.take(k as int));
        let line = concat3(prefix, it, "\n");
        out.append(line.as_str());
        assert(out@ =~= start + listing(prefix@, all.take(k + 1)));
        k += 1;
    }
    assert(all.take(items.len() as int) =~= all);
}

impl DepsSection {
    /// Maps binary tool names discovered via `find_program()` to standard RPM package names.
    pub fn map_tool_to_rpm_package(tool: &str) -> (r: Option<&'static str>)
        ensures
            match r {
                Some(p) => rpm_package_of(tool@) == Some(p@),
                None => rpm_package_of(tool@) is None,
            },
    {
        if str_eq(tool, "glib-compile-schemas") || str_eq(tool, "glib-compile-resources") || str_eq(tool, "gdbus-codegen") {
            Some("glib2-devel")
        } else if str_eq(tool, "appstream-util") {
            Some("libappstream-glib")
        } else if str_eq(tool, "appstreamcli") {
            Some("appstream")
        } else if str_eq(tool, "desktop-file-validate") {
            Some("desktop-file-utils")
        } else if str_eq(tool, "git") {
            Some("git-core")
        } else if str_eq(tool, "msgfmt") || str_eq(tool, "msgmerge") || str_eq(tool, "xgettext") {
            Some("gettext")
        } else {
            None
        }
    }

    /// Whether the workspace holds Blueprint UI files.
    pub fn has_blueprint_files(ws: &Workspace) -> (r: bool)
        ensures
            r == any_with_extension(ws.ents(), Seq::empty(), ".blp"@),
    {
        let root: Vec<&str> = Vec::new();
        assert(root@.map_values(|s: &str| s@) =~= Seq::<Seq<char>>::empty());
        check_file_extension(ws, &root, ".blp")
    }
}


proof fn lemma_take_to_set(s: Seq<Seq<char>>, k: int)
    requires
        0 <= k < s.len(),
    ensures
        s.take(k + 1).to_set() == s.take(k).to_set().insert(s[k]),
{
    let a = s.take(k + 1);
    let b = s.take(k);
    assert forall|x: Seq<char>| a.to_set().contains(x) implies b.to_set().insert(s[k]).contains(x) by {
        let j = choose|j: int| 0 <= j < a.len() && a[j] == x;
        if j < k {
            assert(b[j] == x);
        }
    }
    assert forall|x: Seq<char>| b.to_set().insert(s[k]).contains(x) implies a.to_set().contains(x) by {
        if x == s[k] {
            assert(a[k] == x);
        } else {
            let j = choose|j: int| 0 <= j < b.len() && b[j] == x;
            assert(a[j] == x);
        }
    }
    assert(a.to_set() =~= b.to_set().insert(s[k]));
}

proof fn lemma_langs_step(ls: Seq<Seq<char>>, k: int)
    requires
        0 <= k < ls.len(),
    ensures
        languages_packages(ls.take(k + 1)) == languages_packages(ls.take(k)) + language_packages(ls[k]),
{
    let a = ls.take(k + 1);
    let b = ls.take(k);
    assert forall|x: Seq<char>| languages_packages(a).contains(x) implies (languages_packages(b)
        + language_packages(ls[k])).contains(x) by {
        let j = choose|j: int| 0 <= j < a.len() && language_packages(#[trigger] a[j]).contains(x);
        if j < k {
            assert(b[j] == a[j]);
        }
    }
    assert forall|x: Seq<char>| (languages_packages(b) + language_packages(ls[k])).contains(x) implies languages_packages(
        a,
    ).contains(x) by {
        if language_packages(ls[k]).contains(x) {
            assert(a[k] == ls[k]);
        } else {
            let j = choose|j: int| 0 <= j < b.len() && language_packages(#[trigger] b[j]).contains(x);
            assert(a[j] == b[j]);
        }
    }
    assert(languages_packages(a) =~= languages_packages(b) + language_packages(ls[k]));
}

proof fn lemma_map_insert(s: Set<Seq<char>>, x: Seq<char>)
    ensures
        s.insert(x).map(|t: Seq<char>| tool_package(t)) == s.map(|t: Seq<char>| tool_package(t)).insert(tool_package(x)),
{
    let f = |t: Seq<char>| tool_package(t);
    assert forall|y: Seq<char>| s.insert(x).map(f).contains(y) implies s.map(f).insert(f(x)).contains(y) by {
        let t = choose|t: Seq<char>| s.insert(x).contains(t) && f(t) == y;
        if t != x {
            assert(s.contains(t));
        }
    }
    assert forall|y: Seq<char>| s.map(f).insert(f(x)).contains(y) implies s.insert(x).map(f).contains(y) by {
        if y == f(x) {
            assert(s.insert(x).contains(x));
        } else {
            let t = choose|t: Seq<char>| s.contains(t) && f(t) == y;
            assert(s.insert(x).contains(t));
        }
    }
    assert(s.insert(x).map(f) =~= s.map(f).insert(f(x)));
}

proof fn lemma_listing_concat(p: Seq<char>, a: Seq<Seq<char>>, b: Seq<Seq<char>>)
    ensures
        listing(p, a + b) == listing(p, a) + listing(p, b),
    decreases b.len(),
{
    if b.len() == 0 {
        assert(a + b =~= a);
        assert(listing(p, a) + listing(p, b) =~= listing(p, a));
    } else {
        lemma_listing_concat(p, a, b.drop_last());
        assert((a + b).drop_last() =~= a + b.drop_last());
        assert((a + b).last() == b.last());
        assert(listing(p, a + b) =~= listing(p, a) + listing(p, b));
    }
}

/// The fixed entries, the Python entries and the compilers.
fn core_requirements(meson: &MesonProject, rust: bool) -> (br: Vec<String>)
    ensures
        strictly_sorted(views(br@)),
        views(br@).to_set() == set!["forge-srpm-macros"@, meson_requirement(meson@), "ninja-build"@]
            + when(meson@.is_python_app || meson@.needs_python_build_tool, set!["python3-devel"@])
            + when(meson@.has_pygobject, set!["pkgconfig(pygobject-3.0)"@])
            + languages_packages(meson@.languages)
            + when(rust, set!["cargo"@, "rustc"@, "cargo-rpm-macros"@]),
{
    let ghost m = meson@;
    let mut br: Vec<String> = Vec::new();
    assert(views(br@).to_set() =~= Set::<Seq<char>>::empty());
    add_entry(&mut br, "forge-srpm-macros");
    match &meson.meson_min_version {
        Some(v) => {
            let e = concat2("meson >= ", v.as_str());
            sorted_insert(&mut br, e);
        },
        None => {
            add_entry(&mut br, "meson");
        },
    }
    add_entry(&mut br, "ninja-build");
    let ghost s0 = set!["forge-srpm-macros"@, meson_requirement(m), "ninja-build"@];
    assert(views(br@).to_set() =~= s0);
    if meson.is_python_app || meson.needs_python_build_tool {
        add_entry(&mut br, "python3-devel");
    }
    let ghost s1 = s0 + when(m.is_python_app || m.needs_python_build_tool, set!["python3-devel"@]);
    assert(views(br@).to_set() =~= s1);
    if meson.has_pygobject {
        add_entry(&mut br, "pkgconfig(pygobject-3.0)");
    }
    let ghost s2 = s1 + when(m.has_pygobject, set!["pkgconfig(pygobject-3.0)"@]);
    assert(views(br@).to_set() =~= s2);
    let mut k: usize = 0;
    assert(languages_packages(m.languages.take(0)) =~= Set::<Seq<char>>::empty());
    assert(s2 + Set::<Seq<char>>::empty() =~= s2);
    while k < meson.languages.len()
        invariant
            k <= meson.languages.len(),
            m == meson@,
            strictly_sorted(views(br@)),
            views(br@).to_set() == s2 + languages_packages(m.languages.take(k as int)),
        decreases meson.languages.len() - k,
    {
        let l = to_lowercase(meson.languages[k].as_str());
        let ls = l.as_str();
        proof {
            lemma_langs_step(m.languages, k as int);
            reveal_strlit("c");
            reveal_strlit("cpp");
            reveal_strlit("vala");
            reveal_strlit("rust");
            assert("c"@.len() == 1);
            assert("cpp"@.len() == 3);
            assert("vala"@.len() == 4);
            assert("rust"@.len() == 4);
            assert("vala"@[0] == 'v');
            assert("rust"@[0] == 'r');
        }
        if str_eq(ls, "c") {
            add_entry(&mut br, "gcc");
            assert(language_packages(m.languages[k as int]) =~= set!["gcc"@]);
        } else if str_eq(ls, "cpp") {
            add_entry(&mut br, "gcc-c++");
            assert(language_packages(m.languages[k as int]) =~= set!["gcc-c++"@]);
        } else if str_eq(ls, "vala") {
            add_entry(&mut br, "valac");
            assert(language_packages(m.languages[k as int]) =~= set!["valac"@]);
        } else if str_eq(ls, "rust") {
            add_entry(&mut br, "cargo");
            add_entry(&mut br, "rustc");
            assert(language_packages(m.languages[k as int]) =~= set!["cargo"@, "rustc"@]);
        } else {
            assert(language_packages(m.languages[k as int]) =~= Set::<Seq<char>>::empty());
        }
        assert(views(br@).to_set() =~= s2 + languages_packages(m.languages.take(k + 1)));
        k += 1;
    }
    assert(m.languages.take(meson.languages.len() as int) =~= m.languages);
    let ghost s3 = s2 + languages_packages(m.languages);
    if rust {
        add_entry(&mut br, "cargo");
        add_entry(&mut br, "rustc");
        add_entry(&mut br, "cargo-rpm-macros");
    }
    assert(views(br@).to_set() =~= s3 + when(rust, set!["cargo"@, "rustc"@, "cargo-rpm-macros"@]));
    br
}

/// Adds the pkg-config dependencies and the packages of the required tools.
fn add_declared_requirements(br: &mut Vec<String>, meson: &MesonProject)
    requires
        strictly_sorted(views(old(br)@)),
    ensures
        strictly_sorted(views(final(br)@)),
        views(final(br)@).to_set() == views(old(br)@).to_set() + meson@.pkgconfig_deps
            + meson@.required_tools.map(|t: Seq<char>| tool_package(t)),
{
    let ghost s4 = views(br@).to_set();
    let ghost m = meson@;
    let mut k: usize = 0;
    let ghost deps = views(meson.pkgconfig_deps@);
    assert(deps.take(0).to_set() =~= Set::<Seq<char>>::empty());
    assert(s4 + Set::<Seq<char>>::empty() =~= s4);
    while k < meson.pkgconfig_deps.len()
        invariant
            k <= meson.pkgconfig_deps.len(),
            deps == views(meson.pkgconfig_deps@),
            strictly_sorted(views(br@)),
            views(br@).to_set() == s4 + deps.take(k as int).to_set(),
        decreases meson.pkgconfig_deps.len() - k,
    {
        proof {
            lemma_take_to_set(deps, k as int);
        }
        add_entry(br, meson.pkgconfig_deps[k].as_str());
        assert(views(br@).to_set() =~= s4 + deps.take(k + 1).to_set());
        k += 1;
    }
    assert(deps.take(deps.len() as int) =~= deps);
    let ghost s5 = s4 + m.pkgconfig_deps;
    let mut k: usize = 0;
    let ghost tools = views(meson.required_tools@);
    assert(tools.take(0).to_set() =~= Set::<Seq<char>>::empty());
    assert(Set::<Seq<char>>::empty().map(|t: Seq<char>| tool_package(t)) =~= Set::<Seq<char>>::empty());
    assert(s5 + Set::<Seq<char>>::empty() =~= s5);
    while k < meson.required_tools.len()
        invariant
            k <= meson.required_tools.len(),
            tools == views(meson.required_tools@),
            strictly_sorted(views(br@)),
            views(br@).to_set() == s5 + tools.take(k as int).to_set().map(|t: Seq<char>| tool_package(t)),
        decreases meson.required_tools.len() - k,
    {
        proof {
            lemma_take_to_set(tools, k as int);
            lemma_map_insert(tools.take(k as int).to_set(), tools[k as int]);
        }
        let t = meson.required_tools[k].as_str();
        match DepsSection::map_tool_to_rpm_package(t) {
            Some(p) => add_entry(br, p),
            None => add_entry(br, t),
        }
        assert(views(br@).to_set() =~= s5 + tools.take(k + 1).to_set().map(|t: Seq<char>| tool_package(t)));
        k += 1;
    }
    assert(tools.take(tools.len() as int) =~= tools);
}

/// Adds the entries that the Meson modules and the workspace's files call for.
fn add_feature_requirements(br: &mut Vec<String>, meson: &MesonProject, blp: bool, desktop: bool, metainfo: bool)
    requires
        strictly_sorted(views(old(br)@)),
    ensures
        strictly_sorted(views(final(br)@)),
        views(final(br)@).to_set() == views(old(br)@).to_set()
            + when(meson@.has_blueprint || blp, set!["blueprint-compiler"@])
            + when(meson@.has_i18n || has_po(meson@), set!["gettext"@, "glibc-langpack-en"@])
            + when(meson@.post_install.glib_compile_schemas || meson@.has_gnome, set!["glib2-devel"@])
            + when(meson@.post_install.gtk_update_icon_cache, set!["gtk-update-icon-cache"@])
            + when(meson@.post_install.update_desktop_database, set!["desktop-file-utils"@])
            + when(desktop, set!["desktop-file-utils"@])
            + when(metainfo, set!["libappstream-glib"@]),
{
    let ghost m = meson@;
    let ghost s6 = views(br@).to_set();
    if meson.modules.has_blueprint || blp {
        add_entry(br, "blueprint-compiler");
    }
    let ghost s7 = s6 + when(m.has_blueprint || blp, set!["blueprint-compiler"@]);
    assert(views(br@).to_set() =~= s7);
    if meson.modules.has_i18n || meson.has_po_subdir() {
        add_entry(br, "gettext");
        add_entry(br, "glibc-langpack-en");
    }
    let ghost s8 = s7 + when(m.has_i18n || has_po(m), set!["gettext"@, "glibc-langpack-en"@]);
    assert(views(br@).to_set() =~= s8);
    if meson.modules.gnome_post_install.glib_compile_schemas || meson.modules.has_gnome {
        add_entry(br, "glib2-devel");
    }
    let ghost s9 = s8 + when(m.post_install.glib_compile_schemas || m.has_gnome, set!["glib2-devel"@]);
    assert(views(br@).to_set() =~= s9);
    if meson.modules.gnome_post_install.gtk_update_icon_cache {
        add_entry(br, "gtk-update-icon-cache");
    }
    let ghost s10 = s9 + when(m.post_install.gtk_update_icon_cache, set!["gtk-update-icon-cache"@]);
    assert(views(br@).to_set() =~= s10);
    if meson.modules.gnome_post_install.update_desktop_database {
        add_entry(br, "desktop-file-utils");
    }
    let ghost s11 = s10 + when(m.post_install.update_desktop_database, set!["desktop-file-utils"@]);
    assert(views(br@).to_set() =~= s11);
    if desktop {
        add_entry(br, "desktop-file-utils");
    }
    let ghost s12 = s11 + when(desktop, set!["desktop-file-utils"@]);
    assert(views(br@).to_set() =~= s12);
    if metainfo {
        add_entry(br, "libappstream-glib");
    }
    assert(views(br@).to_set() =~= s12 + when(metainfo, set!["libappstream-glib"@]));
}

/// The requirement block for the sorted lists `br` and `rq`.
fn render_requirements(br: &Vec<String>, rq: &Vec<String>) -> (output: String)
    requires
        strictly_sorted(views(br@)),
        strictly_sorted(views(rq@)),
    ensures
        output@ == deps_text(sorted_of(views(br@).to_set()), sorted_of(views(rq@).to_set())),
{
    let mut output = String::new();
    if br.len() > 0 {
        append_listing(&mut output, "BuildRequires:  ", br, true);
        append_listing(&mut output, "BuildRequires:  ", br, false);
        proof {
            lemma_listing_concat("BuildRequires:  "@, keep_tools(views(br@), true), keep_tools(views(br@), false));
        }
    }
    if rq.len() > 0 {
        output.append("\n");
        append_all(&mut output, "Requires:       ", rq);
    }
    proof {
        lemma_is_sorted_of(views(br@));
        lemma_is_sorted_of(views(rq@));
    }
    assert(output@ =~= deps_text(views(br@), views(rq@)));
    output
}

impl DepsSection {
    /// The `BuildRequires:` and `Requires:` lines of the spec file, the GTK4,
    /// libadwaita and GStreamer libraries that the Cargo manifests use among
    /// them: each requirement once, the Meson and Ninja entries first, the
    /// rest sorted.
    pub fn generate(meson: &MesonProject, ws: &Workspace) -> (r: String)
        ensures
            r@ == deps_text(
                sorted_of(
                    build_requires(
                        meson@,
                        rust_project(meson@, ws.ents()),
                        any_with_extension(ws.ents(), Seq::empty(), ".blp"@),
                        any_with_extension(ws.ents(), Seq::empty(), ".desktop"@),
                        ws.metainfo_choice() is Some,
                        cargo_requirements(ws.ents()),
                    ),
                ),
                sorted_of(runtime_requires(meson@, any_with_extension(ws.ents(), Seq::empty(), ".desktop"@))),
            ),
    {
        let ghost m = meson@;
        let rust = meson.is_rust_project(ws);
        let mut br = core_requirements(meson, rust);
        add_declared_requirements(&mut br, meson);
        let blp = DepsSection::has_blueprint_files(ws);
        let desktop = has_desktop_file(ws);
        let metainfo = has_metainfo_file(ws);
        add_feature_requirements(&mut br, meson, blp, desktop, metainfo);
        add_workspace_cargo_requirements(&mut br, ws);
        assert(views(br@).to_set() == build_requires(m, rust, blp, desktop, metainfo, cargo_requirements(ws.ents())));

        let mut rq: Vec<String> = Vec::new();
        assert(views(rq@).to_set() =~= Set::<Seq<char>>::empty());
        if meson.is_python_app {
            add_entry(&mut rq, "python3");
            if meson.has_pygobject {
                add_entry(&mut rq, "python3-gobject");
            }
        }
        if meson.modules.has_gnome {
            add_entry(&mut rq, "gtk4");
            add_entry(&mut rq, "libadwaita");
            add_entry(&mut rq, "hicolor-icon-theme");
        } else if desktop {
            add_entry(&mut rq, "hicolor-icon-theme");
        }
        assert(views(rq@).to_set() =~= runtime_requires(m, desktop));

        let output = render_requirements(&br, &rq);
        output
    }
}


/// The RPM package `pkg` ships the tool `t` that `find_program()` looks for.
pub open spec fn ships_tool(pkg: Seq<char>, t: Seq<char>) -> bool {
    ||| pkg == "glib2-devel"@ && (t == "glib-compile-schemas"@ || t == "glib-compile-resources"@ || t == "gdbus-codegen"@)
    ||| pkg == "libappstream-glib"@ && t == "appstream-util"@
    ||| pkg == "appstream"@ && t == "appstreamcli"@
    ||| pkg == "desktop-file-utils"@ && t == "desktop-file-validate"@
    ||| pkg == "git-core"@ && t == "git"@
    ||| pkg == "gettext"@ && (t == "msgfmt"@ || t == "msgmerge"@ || t == "xgettext"@)
}

/// Every tool that the Meson files look for with `find_program()` brings, as a
/// build requirement, the RPM package that ships it.
pub proof fn law_tools_bring_their_packages(
    m: MesonView,
    rust: bool,
    blueprint_files: bool,
    desktop: bool,
    metainfo: bool,
    cargo: Set<Seq<char>>,
    t: Seq<char>,
    pkg: Seq<char>,
)
    requires
        m.required_tools.contains(t),
        ships_tool(pkg, t),
    ensures
        build_requires(m, rust, blueprint_files, desktop, metainfo, cargo).contains(pkg),
{
    reveal_strlit("glib-compile-schemas");
    reveal_strlit("glib-compile-resources");
    reveal_strlit("gdbus-codegen");
    reveal_strlit("appstream-util");
    reveal_strlit("appstreamcli");
    reveal_strlit("desktop-file-validate");
    reveal_strlit("git");
    reveal_strlit("msgfmt");
    reveal_strlit("msgmerge");
    reveal_strlit("xgettext");
    assert("glib-compile-schemas"@.len() == 20);
    assert("glib-compile-resources"@.len() == 22);
    assert("gdbus-codegen"@.len() == 13);
    assert("appstream-util"@.len() == 14);
    assert("appstreamcli"@.len() == 12);
    assert("desktop-file-validate"@.len() == 21);
    assert("git"@.len() == 3);
    assert("msgfmt"@.len() == 6);
    assert("msgmerge"@.len() == 8);
    assert("xgettext"@.len() == 8);
    assert("msgfmt"@[3] == 'f' && "xgettext"@[0] == 'x' && "msgmerge"@[3] == 'm');
    assert("glib-compile-schemas"@[13] == 's' && "glib-compile-resources"@[13] == 'r');
    assert("appstream-util"@[9] == '-' && "appstreamcli"@[9] == 'c');
    assert(tool_package(t) == pkg);
    assert(m.required_tools.map(|x: Seq<char>| tool_package(x)).contains(tool_package(t)));
}


/// A tool that some RPM package ships never stands under its own name among
/// the build requirements, unless a `dependency()` or a Cargo manifest names it
/// so: `find_program()` brings the package in its place.
pub proof fn law_tools_never_stand_bare(
    m: MesonView,
    rust: bool,
    blueprint_files: bool,
    desktop: bool,
    metainfo: bool,
    cargo: Set<Seq<char>>,
    t: Seq<char>,
    pkg: Seq<char>,
)
    requires
        ships_tool(pkg, t),
        !m.pkgconfig_deps.contains(t),
        !cargo.contains(t),
    ensures
        !build_requires(m, rust, blueprint_files, desktop, metainfo, cargo).contains(t),
{
    reveal_strlit("glib-compile-schemas");
    reveal_strlit("glib-compile-resources");
    reveal_strlit("gdbus-codegen");
    reveal_strlit("appstream-util");
    reveal_strlit("appstreamcli");
    reveal_strlit("desktop-file-validate");
    reveal_strlit("git");
    reveal_strlit("msgfmt");
    reveal_strlit("msgmerge");
    reveal_strlit("xgettext");
    reveal_strlit("forge-srpm-macros");
    reveal_strlit("ninja-build");
    reveal_strlit("meson");
    reveal_strlit("meson >= ");
    reveal_strlit("python3-devel");
    reveal_strlit("pkgconfig(pygobject-3.0)");
    reveal_strlit("cargo");
    reveal_strlit("rustc");
    reveal_strlit("cargo-rpm-macros");
    reveal_strlit("blueprint-compiler");
    reveal_strlit("gettext");
    reveal_strlit("glibc-langpack-en");
    reveal_strlit("glib2-devel");
    reveal_strlit("gtk-update-icon-cache");
    reveal_strlit("desktop-file-utils");
    reveal_strlit("libappstream-glib");
    reveal_strlit("appstream");
    reveal_strlit("git-core");
    reveal_strlit("gcc");
    reveal_strlit("gcc-c++");
    reveal_strlit("valac");
    let tools: Seq<Seq<char>> = seq![
        "glib-compile-schemas"@, "glib-compile-resources"@, "gdbus-codegen"@, "appstream-util"@,
        "appstreamcli"@, "desktop-file-validate"@, "git"@, "msgfmt"@, "msgmerge"@, "xgettext"@,
    ];
    assert(tools.contains(t)) by {
        if t == "glib-compile-schemas"@ { assert(tools[0] == t); }
        else if t == "glib-compile-resources"@ { assert(tools[1] == t); }
        else if t == "gdbus-codegen"@ { assert(tools[2] == t); }
        else if t == "appstream-util"@ { assert(tools[3] == t); }
        else if t == "appstreamcli"@ { assert(tools[4] == t); }
        else if t == "desktop-file-validate"@ { assert(tools[5] == t); }
        else if t == "git"@ { assert(tools[6] == t); }
        else if t == "msgfmt"@ { assert(tools[7] == t); }
        else if t == "msgmerge"@ { assert(tools[8] == t); }
        else { assert(tools[9] == t); }
    }
    assert(rpm_package_of(t) is Some);
    // No other requirement is spelled like a tool: they differ in length or
    // in one of their first two characters.
    assert(t.len() != 5 && t.len() != 7 && t.len() != 9 && t.len() != 11 && t.len() != 16 && t.len() != 17
        && t.len() != 18 && t.len() != 24);
    assert(t[0] != 'm' || t[1] != 'e');
    assert(t.len() == 3 ==> t[1] == 'i');
    assert(t.len() == 8 ==> t[0] != 'g');
    assert(t.len() == 13 ==> t[0] == 'g');
    assert(t.len() == 21 ==> t[0] == 'd');
    assert("gcc"@[1] == 'c');
    assert("git-core"@[0] == 'g' && "python3-devel"@[0] == 'p' && "gtk-update-icon-cache"@[0] == 'g');
    assert("meson >= "@[0] == 'm' && "meson >= "@[1] == 'e');
    let mr = meson_requirement(m);
    assert(mr != t) by {
        if m.meson_min_version is Some {
            assert(mr[0] == 'm' && mr[1] == 'e');
        }
    }
    let lp = languages_packages(m.languages);
    assert(!lp.contains(t)) by {
        if lp.contains(t) {
            let k = choose|k: int| 0 <= k < m.languages.len() && language_packages(#[trigger] m.languages[k]).contains(t);
        }
    }
    let tp = m.required_tools.map(|x: Seq<char>| tool_package(x));
    assert(!tp.contains(t)) by {
        if tp.contains(t) {
            let x = choose|x: Seq<char>| m.required_tools.contains(x) && tool_package(x) == t;
            if rpm_package_of(x) is None {
                assert(x == t);
            }
        }
    }
}

}
