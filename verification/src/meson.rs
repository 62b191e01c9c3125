//! The Meson build description of a project: what `meson.build` files declare,
//! read through regular expressions as the generator has always read them.
use vstd::prelude::*;
use crate::pattern::{
    group, group_at, groups_view, matches_view, regex_compiles, regex_match_groups,
    regex_match_list, Captures, Pattern,
};
use crate::workspace::{
    below, comps, dir_at, exists_at, find_in_root, has_metainfo_file, indices_where, name_of,
    lemma_indices_where_first, lemma_indices_where_none, skipped_in_subprojects, Workspace,
    WorkspaceEntry, matching_files,
};
use crate::text::{
    chars_of, begins_with, concat2, concat3, contains, copy_str, finishes_with, has_substr, last_piece,
    lines, lines_of, opt_view, push_new, somes, sorted_insert, split_char, split_on, starts_with,
    str_eq, str_lowercase, strictly_sorted, to_lowercase, trim, trim_ws, vec_has, views,
    lemma_somes_push, ends_with, eq_ignore_ascii_case, eq_ascii_nocase,
};

verus! {

#[derive(Debug, Clone, Copy)]
pub struct GnomePostInstall {
    pub glib_compile_schemas: bool,
    pub gtk_update_icon_cache: bool,
    pub update_desktop_database: bool,
}

#[derive(Debug)]
pub struct MesonModules {
    pub has_i18n: bool,
    pub has_gnome: bool,
    pub has_blueprint: bool,
    pub gnome_post_install: GnomePostInstall,
    /// The `subdir()` names, in first-seen order, each once.
    pub subdirs: Vec<String>,
}

/// What the `meson.build` files of a project declare. The three string sets are
/// kept strictly sorted (the order of `BTreeSet` iteration).
#[derive(Debug)]
pub struct MesonProject {
    pub name: Option<String>,
    pub license: Option<String>,
    pub languages: Vec<String>,
    pub pkgconfig_deps: Vec<String>,
    pub required_tools: Vec<String>,
    pub installed_executables: Vec<String>,
    pub meson_min_version: Option<String>,
    pub modules: MesonModules,
    pub needs_python_build_tool: bool,
    pub is_python_app: bool,
    pub has_pygobject: bool,
}

/// The mathematical content of a `MesonProject`.
pub struct MesonView {
    pub name: Option<Seq<char>>,
    pub license: Option<Seq<char>>,
    pub languages: Seq<Seq<char>>,
    pub pkgconfig_deps: Set<Seq<char>>,
    pub required_tools: Set<Seq<char>>,
    pub installed_executables: Set<Seq<char>>,
    pub meson_min_version: Option<Seq<char>>,
    pub has_i18n: bool,
    pub has_gnome: bool,
    pub has_blueprint: bool,
    pub post_install: GnomePostInstall,
    pub subdirs: Seq<Seq<char>>,
    pub needs_python_build_tool: bool,
    pub is_python_app: bool,
    pub has_pygobject: bool,
}

impl View for MesonProject {
    type V = MesonView;

    open spec fn view(&self) -> MesonView {
        MesonView {
            name: opt_view(self.name),
            license: opt_view(self.license),
            languages: views(self.languages@),
            pkgconfig_deps: views(self.pkgconfig_deps@).to_set(),
            required_tools: views(self.required_tools@).to_set(),
            installed_executables: views(self.installed_executables@).to_set(),
            meson_min_version: opt_view(self.meson_min_version),
            has_i18n: self.modules.has_i18n,
            has_gnome: self.modules.has_gnome,
            has_blueprint: self.modules.has_blueprint,
            post_install: self.modules.gnome_post_install,
            subdirs: views(self.modules.subdirs@),
            needs_python_build_tool: self.needs_python_build_tool,
            is_python_app: self.is_python_app,
            has_pygobject: self.has_pygobject,
        }
    }
}

impl MesonProject {
    /// The string sets are strictly sorted and the subdirectories distinct.
    pub open spec fn wf(&self) -> bool {
        &&& strictly_sorted(views(self.pkgconfig_deps@))
        &&& strictly_sorted(views(self.required_tools@))
        &&& strictly_sorted(views(self.installed_executables@))
        &&& views(self.modules.subdirs@).no_duplicates()
    }

    /// A project with nothing declared.
    pub fn new() -> (p: MesonProject)
        ensures
            p.wf(),
            p@ == MesonProject::empty_view(),
            p@.name is None && p@.license is None && p@.meson_min_version is None,
            p@.languages.len() == 0 && p@.subdirs.len() == 0,
            p@.pkgconfig_deps.is_empty() && p@.required_tools.is_empty()
                && p@.installed_executables.is_empty(),
            !p@.has_i18n && !p@.has_gnome && !p@.has_blueprint,
            !p@.post_install.glib_compile_schemas && !p@.post_install.gtk_update_icon_cache
                && !p@.post_install.update_desktop_database,
            !p@.needs_python_build_tool && !p@.is_python_app && !p@.has_pygobject,
    {
        let p = MesonProject {
            name: None,
            license: None,
            languages: Vec::new(),
            pkgconfig_deps: Vec::new(),
            required_tools: Vec::new(),
            installed_executables: Vec::new(),
            meson_min_version: None,
            modules: MesonModules {
                has_i18n: false,
                has_gnome: false,
                has_blueprint: false,
                gnome_post_install: GnomePostInstall {
                    glib_compile_schemas: false,
                    gtk_update_icon_cache: false,
                    update_desktop_database: false,
                },
                subdirs: Vec::new(),
            },
            needs_python_build_tool: false,
            is_python_app: false,
            has_pygobject: false,
        };
        assert(views(p.pkgconfig_deps@).to_set() =~= Set::<Seq<char>>::empty());
        assert(views(p.required_tools@).to_set() =~= Set::<Seq<char>>::empty());
        assert(views(p.installed_executables@).to_set() =~= Set::<Seq<char>>::empty());
        assert(views(p.languages@) =~= Seq::<Seq<char>>::empty());
        assert(views(p.modules.subdirs@) =~= Seq::<Seq<char>>::empty());
        assert(p@ =~= MesonProject::empty_view());
        p
    }
}

// ---------------------------------------------------------------------------
// The patterns
// ---------------------------------------------------------------------------

pub open spec fn pat_name() -> Seq<char> {
    r#"(?i)project\s*\(\s*['"]([^'"]+)['"]"#@
}

pub open spec fn pat_meson_version() -> Seq<char> {
    r#"(?i)meson_version\s*:\s*['"]\s*(?:>=)?\s*([^'"]+)['"]"#@
}

pub open spec fn pat_license() -> Seq<char> {
    r#"(?i)license\s*:\s*['"]([^'"]+)['"]"#@
}

pub open spec fn pat_project_call() -> Seq<char> {
    r#"project\s*\([^)]*?\)"#@
}

pub open spec fn pat_string() -> Seq<char> {
    r#"['"]([^'"]+)['"]"#@
}

pub open spec fn pat_executable() -> Seq<char> {
    r#"(?s)executable\s*\(\s*['"]([^'"]+)['"]"#@
}

pub open spec fn pat_custom_target() -> Seq<char> {
    r#"(?s)custom_target\s*\(\s*(?:['"]([^'"]+)['"]\s*,\s*)?(.*?)\)"#@
}

pub open spec fn pat_output() -> Seq<char> {
    r#"output\s*:\s*(?:\[\s*)?['"]([^'"]+)['"]"#@
}

pub open spec fn pat_subdir() -> Seq<char> {
    r#"(?i)subdir\s*\(\s*['"]([^'"]+)['"]\s*\)"#@
}

pub open spec fn pat_import() -> Seq<char> {
    r#"(?i)\w+\s*=\s*import\s*\(\s*['"]([^'"]+)['"]\s*\)"#@
}

pub open spec fn pat_dependency() -> Seq<char> {
    r#"(?i)dependency\s*\(\s*['"]([^'"]+)['"](?:\s*,\s*version\s*:\s*['"]\s*(?:>=)?\s*([^'"]+)['"])?"#@
}

pub open spec fn pat_find_program() -> Seq<char> {
    r#"(?i)find_program\s*\(\s*['"]([^'"]+)['"]"#@
}

pub open spec fn pat_post_install() -> Seq<char> {
    r#"(?s)gnome\.post_install\s*\((.*?)\)"#@
}

/// The pattern that reads a boolean keyword argument `key` of a call.
pub open spec fn pat_bool_arg(key: Seq<char>) -> Seq<char> {
    key + r#"\s*:\s*(true|false)"#@
}

/// The first match of `p` in `text`, none when `p` does not compile.
pub open spec fn first_match(p: Seq<char>, text: Seq<char>) -> Option<Seq<Option<Seq<char>>>> {
    if regex_compiles(p) {
        regex_match_groups(p, text)
    } else {
        None
    }
}

/// All matches of `p` in `text`, none when `p` does not compile.
pub open spec fn all_matches(p: Seq<char>, text: Seq<char>) -> Seq<(int, Seq<Option<Seq<char>>>)> {
    if regex_compiles(p) {
        regex_match_list(p, text)
    } else {
        Seq::empty()
    }
}

/// Group `k` of the first match of `p` in `text`.
pub open spec fn first_group(p: Seq<char>, text: Seq<char>, k: int) -> Option<Seq<char>> {
    match first_match(p, text) {
        Some(g) => group_at(g, k),
        None => None,
    }
}

/// Runs `p` over `text` and returns the groups of the first match.
fn match_first(p: &str, text: &str) -> (r: Option<Vec<Option<String>>>)
    ensures
        match r {
            Some(g) => first_match(p@, text@) == Some(groups_view(g@)),
            None => first_match(p@, text@) is None,
        },
{
    match Pattern::new(p) {
        Some(re) => re.captures(text),
        None => None,
    }
}

/// Runs `p` over `text` and returns all matches.
fn match_all(p: &str, text: &str) -> (r: Vec<Captures>)
    ensures
        matches_view(r@) == all_matches(p@, text@),
{
    match Pattern::new(p) {
        Some(re) => re.captures_all(text),
        None => Vec::new(),
    }
}

/// Group `k` of the first match of `p` in `text`, as a string.
fn first_group_of(p: &str, text: &str, k: usize) -> (r: Option<String>)
    ensures
        opt_view(r) == first_group(p@, text@, k as int),
{
    match match_first(p, text) {
        Some(g) => group(&g, k),
        None => None,
    }
}


// ---------------------------------------------------------------------------
// What a `meson.build` declares
// ---------------------------------------------------------------------------

/// Group `k` of every match, in order, skipping matches without that group.
pub open spec fn group_list(ms: Seq<(int, Seq<Option<Seq<char>>>)>, k: int) -> Seq<Seq<char>>
    decreases ms.len(),
{
    if ms.len() == 0 {
        Seq::empty()
    } else {
        let r = group_list(ms.drop_last(), k);
        match group_at(ms.last().1, k) {
            Some(g) => r.push(g),
            None => r,
        }
    }
}

/// The project name as the generator records it: the last `.`-segment when the
/// name has dots, lower-cased.
pub open spec fn clean_project_name(raw: Seq<char>) -> Seq<char> {
    if has_substr(raw, "."@) {
        str_lowercase(split_on(raw, '.').last())
    } else {
        str_lowercase(raw)
    }
}

/// The project name a root `meson.build` declares.
pub open spec fn declared_name(c: Seq<char>) -> Option<Seq<char>> {
    match first_group(pat_name(), c, 1) {
        Some(raw) => Some(clean_project_name(raw)),
        None => None,
    }
}

/// The minimum Meson version a root `meson.build` declares.
pub open spec fn declared_min_version(c: Seq<char>) -> Option<Seq<char>> {
    match first_group(pat_meson_version(), c, 1) {
        Some(v) => Some(trim_ws(v)),
        None => None,
    }
}

/// The license a root `meson.build` declares.
pub open spec fn declared_license(c: Seq<char>) -> Option<Seq<char>> {
    first_group(pat_license(), c, 1)
}

/// The arguments that are neither `key: value` nor `key = value`.
pub open spec fn plain_args(s: Seq<Seq<char>>) -> Seq<Seq<char>>
    decreases s.len(),
{
    if s.len() == 0 {
        s
    } else {
        let r = plain_args(s.drop_last());
        if !has_substr(s.last(), ":"@) && !has_substr(s.last(), "="@) {
            r.push(s.last())
        } else {
            r
        }
    }
}

/// The languages a root `meson.build` declares: the quoted strings of the
/// `project(...)` call after the first, without keyword arguments.
pub open spec fn declared_languages(c: Seq<char>) -> Option<Seq<Seq<char>>> {
    match first_group(pat_project_call(), c, 0) {
        Some(call) => {
            let strs = group_list(all_matches(pat_string(), call), 1);
            if strs.len() == 0 {
                None
            } else {
                Some(plain_args(strs.drop_first()))
            }
        },
        None => None,
    }
}

/// The metadata of a root `meson.build` applied to `v`.
pub open spec fn stage_root(v: MesonView, c: Seq<char>) -> MesonView {
    MesonView {
        name: match declared_name(c) {
            Some(n) => Some(n),
            None => v.name,
        },
        meson_min_version: match declared_min_version(c) {
            Some(n) => Some(n),
            None => v.meson_min_version,
        },
        license: match declared_license(c) {
            Some(n) => Some(n),
            None => v.license,
        },
        languages: match declared_languages(c) {
            Some(l) => l,
            None => v.languages,
        },
        ..v
    }
}

/// `p` occurs in the bytes `s`.
pub open spec fn has_bytes(s: Seq<u8>, p: Seq<u8>) -> bool {
    exists|i: int| 0 <= i && i + p.len() <= s.len() && #[trigger] s.subrange(i, i + p.len()) == p
}

/// Up to 500 bytes of `b` from `start` on.
pub open spec fn window(b: Seq<u8>, start: int) -> Seq<u8> {
    let lo = if start < 0 {
        0
    } else if start > b.len() {
        b.len() as int
    } else {
        start
    };
    let hi = if start + 500 < b.len() {
        start + 500
    } else {
        b.len() as int
    };
    if hi < lo {
        Seq::empty()
    } else {
        b.subrange(lo, hi)
    }
}

/// An `executable(...)` call whose first 500 bytes opt out of installation.
pub open spec fn opts_out_of_install(w: Seq<u8>) -> bool {
    has_bytes(w, vstd::utf8::encode_utf8("install : false"@)) || has_bytes(
        w,
        vstd::utf8::encode_utf8("install: false"@),
    ) || has_bytes(w, vstd::utf8::encode_utf8("build_by_default : false"@))
}

/// The installed executable one `executable(...)` match contributes.
pub open spec fn exe_item(bytes: Seq<u8>, m: (int, Seq<Option<Seq<char>>>)) -> Option<Seq<char>> {
    match group_at(m.1, 1) {
        Some(n) => if opts_out_of_install(window(bytes, m.0)) {
            None
        } else {
            Some(n)
        },
        None => None,
    }
}

/// The installed executables a `meson.build` declares.
pub open spec fn declared_executables(c: Seq<char>) -> Set<Seq<char>> {
    somes(
        all_matches(pat_executable(), c).map_values(
            |m: (int, Seq<Option<Seq<char>>>)| exe_item(vstd::utf8::encode_utf8(c), m),
        ),
    )
}

/// A `custom_target(...)` body that installs its output.
pub open spec fn installs(block: Seq<char>) -> bool {
    has_substr(block, "install : true"@) || has_substr(block, "install: true"@) || has_substr(
        block,
        "install_dir"@,
    )
}

/// A byte position of `b` where a `str` slice may start or end: the end of
/// the text, or a byte that does not continue a character.
pub open spec fn cuts_at_char(b: Seq<u8>, p: int) -> bool {
    p == b.len() || (0 <= p < b.len() && !vstd::utf8::is_continuation_byte(b[p]))
}

/// The end of the 500-byte window that starts at `start`.
pub open spec fn window_end(b: Seq<u8>, start: int) -> int {
    if start + 500 < b.len() {
        start + 500
    } else {
        b.len() as int
    }
}

/// Every `executable(...)` match of the text starts and ends its 500-byte
/// window between characters, so that taking the window as a `str` slice
/// succeeds.
pub open spec fn exe_windows_fit(c: Seq<char>) -> bool {
    let b = vstd::utf8::encode_utf8(c);
    forall|k: int|
        0 <= k < all_matches(pat_executable(), c).len() ==> cuts_at_char(
            b,
            (#[trigger] all_matches(pat_executable(), c)[k]).0,
        ) && cuts_at_char(b, window_end(b, all_matches(pat_executable(), c)[k].0))
}

/// Whether `p` is a position where `b` may be cut.
fn cuts_at(b: &[u8], p: usize) -> (r: bool)
    ensures
        r == cuts_at_char(b@, p as int),
{
    p == b.len() || (p < b.len() && !(0x80u8 <= b[p] && b[p] <= 0xbfu8))
}

/// Whether the `executable(...)` windows of `content` fall between characters.
pub fn executable_windows_fit(content: &str) -> (r: bool)
    ensures
        r == exe_windows_fit(content@),
{
    let b = content.as_bytes();
    let ms = match_all(r#"(?s)executable\s*\(\s*['"]([^'"]+)['"]"#, content);
    let ghost all = matches_view(ms@);
    let mut k: usize = 0;
    while k < ms.len()
        invariant
            k <= ms.len(),
            b@ == vstd::utf8::encode_utf8(content@),
            all == matches_view(ms@),
            all == all_matches(pat_executable(), content@),
            forall|j: int|
                0 <= j < k ==> cuts_at_char(b@, (#[trigger] all[j]).0) && cuts_at_char(
                    b@,
                    window_end(b@, all[j].0),
                ),
        decreases ms.len() - k,
    {
        let start = ms[k].start;
        assert(all[k as int].0 == start as int);
        let len = b.len();
        let end = if start < len && len - start > 500 {
            start + 500
        } else {
            len
        };
        assert(end as int == window_end(b@, start as int) || start >= len);
        if !cuts_at(b, start) {
            return false;
        }
        if !cuts_at(b, end) {
            return false;
        }
        k += 1;
    }
    true
}

/// The installed output one `custom_target(...)` match contributes.
pub open spec fn custom_target_item(m: (int, Seq<Option<Seq<char>>>)) -> Option<Seq<char>> {
    match group_at(m.1, 2) {
        Some(block) => if installs(block) {
            match first_group(pat_output(), block, 1) {
                Some(o) => if trim_ws(o) == "@OUTPUT@"@ {
                    None
                } else {
                    Some(trim_ws(o))
                },
                None => None,
            }
        } else {
            None
        },
        None => None,
    }
}

/// The installed custom-target outputs a `meson.build` declares.
pub open spec fn declared_custom_outputs(c: Seq<char>) -> Set<Seq<char>> {
    somes(all_matches(pat_custom_target(), c).map_values(|m: (int, Seq<Option<Seq<char>>>)| custom_target_item(m)))
}

/// The executables and custom-target outputs applied to `v`.
pub open spec fn stage_outputs(v: MesonView, c: Seq<char>) -> MesonView {
    MesonView {
        installed_executables: v.installed_executables.union(declared_executables(c)).union(
            declared_custom_outputs(c),
        ),
        ..v
    }
}

/// The `subdir()` names a `meson.build` declares, trimmed, in order.
pub open spec fn declared_subdirs(c: Seq<char>) -> Seq<Seq<char>> {
    group_list(all_matches(pat_subdir(), c), 1).map_values(|g: Seq<char>| trim_ws(g))
}

/// The subdirectories applied to `v`.
pub open spec fn stage_subdirs(v: MesonView, c: Seq<char>) -> MesonView {
    MesonView { subdirs: push_new(v.subdirs, declared_subdirs(c)), ..v }
}


// ---------------------------------------------------------------------------
// Reading a `meson.build`
// ---------------------------------------------------------------------------

/// Group `k` of every match, in order, skipping matches without it.
fn groups_list(ms: &Vec<Captures>, k: usize) -> (r: Vec<String>)
    ensures
        views(r@) == group_list(matches_view(ms@), k as int),
{
    let ghost all = matches_view(ms@);
    let mut r: Vec<String> = Vec::new();
    let mut i: usize = 0;
    assert(all.take(0) =~= Seq::<(int, Seq<Option<Seq<char>>>)>::empty());
    while i < ms.len()
        invariant
            i <= ms.len(),
            all == matches_view(ms@),
            views(r@) == group_list(all.take(i as int), k as int),
        decreases ms.len() - i,
    {
        assert(all.take(i + 1).drop_last() =~= all.take(i as int));
        assert(all.take(i + 1).last() == all[i as int]);
        let ghost before = views(r@);
        match group(&ms[i].groups, k) {
            Some(g) => {
                r.push(g);
                assert(views(r@) =~= before.push(views(r@).last()));
            },
            None => {},
        }
        i += 1;
    }
    assert(all.take(ms.len() as int) =~= all);
    r
}

/// The arguments of `s[from..]` that are neither `key: value` nor `key = value`.
fn keep_plain(s: &Vec<String>, from: usize) -> (r: Vec<String>)
    requires
        from <= s.len(),
    ensures
        views(r@) == plain_args(views(s@).subrange(from as int, s.len() as int)),
{
    let ghost all = views(s@);
    let mut r: Vec<String> = Vec::new();
    let mut i: usize = from;
    assert(all.subrange(from as int, from as int) =~= Seq::<Seq<char>>::empty());
    while i < s.len()
        invariant
            from <= i <= s.len(),
            all == views(s@),
            views(r@) == plain_args(all.subrange(from as int, i as int)),
        decreases s.len() - i,
    {
        assert(all.subrange(from as int, i + 1).drop_last() =~= all.subrange(from as int, i as int));
        assert(all.subrange(from as int, i + 1).last() == s@[i as int]@);
        let a = s[i].as_str();
        if !contains(a, ":") && !contains(a, "=") {
            let ghost before = views(r@);
            r.push(copy_str(a));
            assert(views(r@) =~= before.push(a@));
        }
        i += 1;
    }
    r
}

/// The project name a root `meson.build` declares.
fn project_name_of(c: &str) -> (r: Option<String>)
    ensures
        opt_view(r) == declared_name(c@),
{
    match first_group_of(r#"(?i)project\s*\(\s*['"]([^'"]+)['"]"#, c, 1) {
        Some(raw) => {
            if contains(raw.as_str(), ".") {
                let seg = last_piece(raw.as_str(), '.');
                Some(to_lowercase(seg.as_str()))
            } else {
                Some(to_lowercase(raw.as_str()))
            }
        },
        None => None,
    }
}

/// The languages a root `meson.build` declares.
fn languages_of(c: &str) -> (r: Option<Vec<String>>)
    ensures
        match r {
            Some(l) => declared_languages(c@) == Some(views(l@)),
            None => declared_languages(c@) is None,
        },
{
    match first_group_of(r#"project\s*\([^)]*?\)"#, c, 0) {
        Some(call) => {
            let ms = match_all(r#"['"]([^'"]+)['"]"#, call.as_str());
            let strs = groups_list(&ms, 1);
            if strs.len() == 0 {
                None
            } else {
                let l = keep_plain(&strs, 1);
                assert(views(strs@).subrange(1, strs.len() as int) =~= views(strs@).drop_first());
                Some(l)
            }
        },
        None => None,
    }
}

/// Whether `p` occurs in `s[lo..hi]`.
fn bytes_occur(s: &[u8], lo: usize, hi: usize, p: &[u8]) -> (r: bool)
    requires
        lo <= hi <= s.len(),
    ensures
        r == has_bytes(s@.subrange(lo as int, hi as int), p@),
{
    let ghost w = s@.subrange(lo as int, hi as int);
    if p.len() > hi - lo {
        return false;
    }
    let limit = hi - lo - p.len();
    let mut j: usize = 0;
    loop
        invariant
            lo <= hi <= s.len(),
            p.len() <= hi - lo,
            limit == hi - lo - p.len(),
            j <= limit,
            w == s@.subrange(lo as int, hi as int),
            forall|i: int| 0 <= i < j ==> #[trigger] w.subrange(i, i + p.len()) != p@,
        decreases limit - j,
    {
        let mut k: usize = 0;
        let mut same = true;
        while k < p.len()
            invariant
                lo <= hi <= s.len(),
                j + p.len() <= hi - lo,
                k <= p.len(),
                w == s@.subrange(lo as int, hi as int),
                same ==> forall|m: int| 0 <= m < k ==> w[j + m] == p@[m],
                !same ==> w.subrange(j as int, j + p.len()) != p@,
            decreases p.len() - k,
        {
            if s[lo + j + k] != p[k] {
                assert(w.subrange(j as int, j + p.len())[k as int] != p@[k as int]);
                same = false;
            }
            k += 1;
        }
        if same {
            assert(w.subrange(j as int, j + p.len()) =~= p@);
            return true;
        }
        if j == limit {
            assert forall|i: int| 0 <= i && i + p.len() <= w.len() implies #[trigger] w.subrange(i, i + p.len()) != p@ by {
                assert(i <= limit);
            }
            return false;
        }
        j += 1;
    }
}

/// The installed executable one `executable(...)` match contributes.
fn executable_of(b: &[u8], m: &Captures) -> (r: Option<String>)
    ensures
        opt_view(r) == exe_item(b@, (m.start as int, groups_view(m.groups@))),
{
    match group(&m.groups, 1) {
        Some(n) => {
            let len = b.len();
            let start = m.start;
            let lo = if start > len {
                len
            } else {
                start
            };
            let hi = if start < len && len - start > 500 {
                start + 500
            } else {
                len
            };
            let out = if hi < lo {
                false
            } else {
                bytes_occur(b, lo, hi, "install : false".as_bytes()) || bytes_occur(
                    b,
                    lo,
                    hi,
                    "install: false".as_bytes(),
                ) || bytes_occur(b, lo, hi, "build_by_default : false".as_bytes())
            };
            if out {
                None
            } else {
                Some(n)
            }
        },
        None => None,
    }
}

/// The installed output one `custom_target(...)` match contributes.
fn custom_output_of(m: &Captures) -> (r: Option<String>)
    ensures
        opt_view(r) == custom_target_item((m.start as int, groups_view(m.groups@))),
{
    match group(&m.groups, 2) {
        Some(block) => {
            let bs = block.as_str();
            if contains(bs, "install : true") || contains(bs, "install: true") || contains(bs, "install_dir") {
                match first_group_of(r#"output\s*:\s*(?:\[\s*)?['"]([^'"]+)['"]"#, bs, 1) {
                    Some(o) => {
                        let out = trim(o.as_str());
                        if str_eq(out.as_str(), "@OUTPUT@") {
                            None
                        } else {
                            Some(out)
                        }
                    },
                    None => None,
                }
            } else {
                None
            }
        },
        None => None,
    }
}

impl MesonProject {
    /// Records the project metadata a root `meson.build` declares.
    fn parse_root_metadata(&mut self, content: &str)
        requires
            old(self).wf(),
        ensures
            final(self).wf(),
            final(self)@ == stage_root(old(self)@, content@),
    {
        if let Some(n) = project_name_of(content) {
            self.name = Some(n);
        }
        if let Some(v) = first_group_of(
            r#"(?i)meson_version\s*:\s*['"]\s*(?:>=)?\s*([^'"]+)['"]"#,
            content,
            1,
        ) {
            self.meson_min_version = Some(trim(v.as_str()));
        }
        if let Some(l) = first_group_of(r#"(?i)license\s*:\s*['"]([^'"]+)['"]"#, content, 1) {
            self.license = Some(l);
        }
        if let Some(langs) = languages_of(content) {
            self.languages = langs;
        }
    }

    /// Records the installed executables and custom-target outputs.
    fn add_outputs(&mut self, content: &str)
        requires
            old(self).wf(),
        ensures
            final(self).wf(),
            final(self)@ == stage_outputs(old(self)@, content@),
    {
        let ghost old_view = self@;
        let b = content.as_bytes();
        let ms = match_all(r#"(?s)executable\s*\(\s*['"]([^'"]+)['"]"#, content);
        let ghost items = matches_view(ms@).map_values(
            |m: (int, Seq<Option<Seq<char>>>)| exe_item(vstd::utf8::encode_utf8(content@), m),
        );
        let mut k: usize = 0;
        assert(items.take(0) =~= Seq::<Option<Seq<char>>>::empty());
        assert(somes(items.take(0)) =~= Set::<Seq<char>>::empty());
        assert(old_view.installed_executables.union(Set::<Seq<char>>::empty()) =~= old_view.installed_executables);
        while k < ms.len()
            invariant
                k <= ms.len(),
                self.wf(),
                b@ == vstd::utf8::encode_utf8(content@),
                items == matches_view(ms@).map_values(
                    |m: (int, Seq<Option<Seq<char>>>)| exe_item(vstd::utf8::encode_utf8(content@), m),
                ),
                self@ == (MesonView {
                    installed_executables: old_view.installed_executables.union(somes(items.take(k as int))),
                    ..old_view
                }),
            decreases ms.len() - k,
        {
            let item = executable_of(b, &ms[k]);
            assert(items.take(k + 1) =~= items.take(k as int).push(items[k as int]));
            proof {
                lemma_somes_push(items.take(k as int), items[k as int]);
            }
            let ghost before = self@;
            if let Some(x) = item {
                sorted_insert(&mut self.installed_executables, x);
            }
            assert(self@.installed_executables =~= old_view.installed_executables.union(somes(items.take(k + 1))));
            k += 1;
        }
        assert(items.take(ms.len() as int) =~= items);
        let ghost mid = self@;
        let cs = match_all(r#"(?s)custom_target\s*\(\s*(?:['"]([^'"]+)['"]\s*,\s*)?(.*?)\)"#, content);
        let ghost citems = matches_view(cs@).map_values(|m: (int, Seq<Option<Seq<char>>>)| custom_target_item(m));
        let mut k: usize = 0;
        assert(citems.take(0) =~= Seq::<Option<Seq<char>>>::empty());
        assert(somes(citems.take(0)) =~= Set::<Seq<char>>::empty());
        assert(mid.installed_executables.union(Set::<Seq<char>>::empty()) =~= mid.installed_executables);
        while k < cs.len()
            invariant
                k <= cs.len(),
                self.wf(),
                citems == matches_view(cs@).map_values(|m: (int, Seq<Option<Seq<char>>>)| custom_target_item(m)),
                self@ == (MesonView {
                    installed_executables: mid.installed_executables.union(somes(citems.take(k as int))),
                    ..mid
                }),
            decreases cs.len() - k,
        {
            let item = custom_output_of(&cs[k]);
            assert(citems.take(k + 1) =~= citems.take(k as int).push(citems[k as int]));
            proof {
                lemma_somes_push(citems.take(k as int), citems[k as int]);
            }
            let ghost before = self@;
            if let Some(x) = item {
                sorted_insert(&mut self.installed_executables, x);
            }
            assert(self@.installed_executables =~= mid.installed_executables.union(somes(citems.take(k + 1))));
            k += 1;
        }
        assert(citems.take(cs.len() as int) =~= citems);
    }
}


// ---------------------------------------------------------------------------
// Subdirectories, Python, imports, dependencies, programs, post-install
// ---------------------------------------------------------------------------

/// The text pulls in Python at run time.
pub open spec fn python_runtime_text(c: Seq<char>) -> bool {
    has_substr(c, "import('python')"@) || has_substr(c, "import('python3')"@) || has_substr(
        c,
        "dependency('python"@,
    ) || has_substr(c, "dependency('python3"@) || has_substr(c, "python.find_installation"@)
}

/// The text uses PyGObject.
pub open spec fn pygobject_text(c: Seq<char>) -> bool {
    has_substr(c, "dependency('pygobject"@) || has_substr(c, "find_program('pygobject"@)
        || has_substr(c, "gi.repository"@)
}

/// A line (before any `#` comment) that runs a Python script at build time.
pub open spec fn python_script_line(line: Seq<char>) -> bool {
    let code = split_on(line, '#')[0];
    (has_substr(code, ".py'"@) || has_substr(code, ".py\""@)) && (has_substr(code, "find_program"@)
        || has_substr(code, "custom_target"@) || has_substr(code, "run_command"@) || has_substr(
        code,
        "post_install"@,
    ))
}

/// Some line of the text runs a Python script at build time.
pub open spec fn has_python_script(c: Seq<char>) -> bool {
    exists|k: int| 0 <= k < lines_of(c).len() && python_script_line(#[trigger] lines_of(c)[k])
}

/// The Python checks applied to `v`.
pub open spec fn stage_python(v: MesonView, c: Seq<char>) -> MesonView {
    MesonView {
        is_python_app: v.is_python_app || python_runtime_text(c) || pygobject_text(c),
        has_pygobject: v.has_pygobject || pygobject_text(c),
        needs_python_build_tool: v.needs_python_build_tool || has_python_script(c) || has_substr(
            c,
            "find_program('python3')"@,
        ),
        ..v
    }
}

/// The lower-cased names of the modules that the text imports.
pub open spec fn imported(c: Seq<char>) -> Seq<Seq<char>> {
    group_list(all_matches(pat_import(), c), 1).map_values(|g: Seq<char>| str_lowercase(g))
}

/// The imports applied to `v`.
pub open spec fn stage_imports(v: MesonView, c: Seq<char>) -> MesonView {
    let py = imported(c).contains("python"@) || imported(c).contains("python3"@);
    MesonView {
        has_i18n: v.has_i18n || imported(c).contains("i18n"@),
        has_gnome: v.has_gnome || imported(c).contains("gnome"@),
        is_python_app: v.is_python_app || py,
        needs_python_build_tool: v.needs_python_build_tool || py,
        ..v
    }
}

/// The `BuildRequires` entry one `dependency(...)` match contributes.
pub open spec fn dep_item(m: (int, Seq<Option<Seq<char>>>)) -> Option<Seq<char>> {
    match group_at(m.1, 1) {
        Some(n) => Some(
            match group_at(m.1, 2) {
                Some(ver) => "pkgconfig("@ + n + ") >= "@ + trim_ws(ver),
                None => "pkgconfig("@ + n + ")"@,
            },
        ),
        None => None,
    }
}

/// Some dependency of the text names PyGObject.
pub open spec fn depends_on_pygobject(c: Seq<char>) -> bool {
    exists|k: int|
        0 <= k < group_list(all_matches(pat_dependency(), c), 1).len() && has_substr(
            #[trigger] group_list(all_matches(pat_dependency(), c), 1)[k],
            "pygobject"@,
        )
}

/// The dependencies applied to `v`.
pub open spec fn stage_deps(v: MesonView, c: Seq<char>) -> MesonView {
    MesonView {
        pkgconfig_deps: v.pkgconfig_deps.union(
            somes(all_matches(pat_dependency(), c).map_values(|m: (int, Seq<Option<Seq<char>>>)| dep_item(m))),
        ),
        is_python_app: v.is_python_app || depends_on_pygobject(c),
        has_pygobject: v.has_pygobject || depends_on_pygobject(c),
        ..v
    }
}

/// A program name that is a script rather than a tool.
pub open spec fn is_script_name(p: Seq<char>) -> bool {
    finishes_with(p, ".py"@) || finishes_with(p, ".sh"@) || finishes_with(p, ".pl"@)
        || finishes_with(p, ".rb"@)
}

/// The tool that one `find_program(...)` name requires, if any.
pub open spec fn tool_item(p: Seq<char>) -> Option<Seq<char>> {
    if !has_substr(p, "/"@) && !begins_with(p, "."@) && !begins_with(p, "python"@) && !is_script_name(p) {
        Some(p)
    } else {
        None
    }
}

/// The programs applied to `v`.
pub open spec fn stage_programs(v: MesonView, c: Seq<char>) -> MesonView {
    MesonView {
        required_tools: v.required_tools.union(
            somes(group_list(all_matches(pat_find_program(), c), 1).map_values(|p: Seq<char>| tool_item(p))),
        ),
        ..v
    }
}

/// The value of the boolean keyword argument `key` in a call's arguments.
pub open spec fn bool_arg(block: Seq<char>, key: Seq<char>) -> bool {
    match first_group(pat_bool_arg(key), block, 1) {
        Some(g) => g == "true"@,
        None => false,
    }
}

/// The blueprint check and the `gnome.post_install()` options applied to `v`.
pub open spec fn stage_blueprint_and_post(v: MesonView, c: Seq<char>) -> MesonView {
    let w = MesonView { has_blueprint: v.has_blueprint || has_substr(c, "blueprint-compiler"@), ..v };
    if w.has_gnome {
        match first_group(pat_post_install(), c, 1) {
            Some(block) => MesonView {
                post_install: GnomePostInstall {
                    glib_compile_schemas: bool_arg(block, "glib_compile_schemas"@),
                    gtk_update_icon_cache: bool_arg(block, "gtk_update_icon_cache"@),
                    update_desktop_database: bool_arg(block, "update_desktop_database"@),
                },
                ..w
            },
            None => w,
        }
    } else {
        w
    }
}

/// What reading one `meson.build` (the root one when `is_root`) makes of `v`.
pub open spec fn parsed_view(v: MesonView, c: Seq<char>, is_root: bool) -> MesonView {
    let a = if is_root {
        stage_root(v, c)
    } else {
        v
    };
    stage_blueprint_and_post(
        stage_programs(
            stage_deps(stage_imports(stage_python(stage_subdirs(stage_outputs(a, c), c), c), c), c),
            c,
        ),
        c,
    )
}

fn any_python_script_line(c: &str) -> (r: bool)
    ensures
        r == has_python_script(c@),
{
    let ls = lines(c);
    let mut k: usize = 0;
    while k < ls.len()
        invariant
            k <= ls.len(),
            views(ls@) == lines_of(c@),
            forall|j: int| 0 <= j < k ==> !python_script_line(#[trigger] lines_of(c@)[j]),
        decreases ls.len() - k,
    {
        let pieces = split_char(ls[k].as_str(), '#');
        proof {
            crate::text::lemma_split_on_nonempty(ls@[k as int]@, '#');
        }
        assert(views(pieces@)[0] == pieces@[0]@);
        let code = pieces[0].as_str();
        if (contains(code, ".py'") || contains(code, ".py\"")) && (contains(code, "find_program")
            || contains(code, "custom_target") || contains(code, "run_command") || contains(
            code,
            "post_install",
        )) {
            assert(python_script_line(lines_of(c@)[k as int]));
            return true;
        }
        k += 1;
    }
    false
}

fn dep_entry(m: &Captures) -> (r: Option<String>)
    ensures
        opt_view(r) == dep_item((m.start as int, groups_view(m.groups@))),
{
    match group(&m.groups, 1) {
        Some(n) => match group(&m.groups, 2) {
            Some(ver) => {
                let t = trim(ver.as_str());
                let a = concat3("pkgconfig(", n.as_str(), ") >= ");
                Some(concat2(a.as_str(), t.as_str()))
            },
            None => Some(concat3("pkgconfig(", n.as_str(), ")")),
        },
        None => None,
    }
}

fn tool_entry(p: &str) -> (r: Option<String>)
    ensures
        opt_view(r) == tool_item(p@),
{
    let is_script = ends_with(p, ".py") || ends_with(p, ".sh") || ends_with(p, ".pl") || ends_with(p, ".rb");
    if !contains(p, "/") && !starts_with(p, ".") && !starts_with(p, "python") && !is_script {
        Some(copy_str(p))
    } else {
        None
    }
}

fn bool_arg_of(block: &str, key: &str) -> (r: bool)
    ensures
        r == bool_arg(block@, key@),
{
    let pat = concat2(key, r#"\s*:\s*(true|false)"#);
    match first_group_of(pat.as_str(), block, 1) {
        Some(g) => str_eq(g.as_str(), "true"),
        None => false,
    }
}

impl MesonProject {
    /// Records the `subdir()` names, each once, in first-seen order.
    fn add_subdirs(&mut self, content: &str)
        requires
            old(self).wf(),
        ensures
            final(self).wf(),
            final(self)@ == stage_subdirs(old(self)@, content@),
    {
        let ghost old_view = self@;
        let ms = match_all(r#"(?i)subdir\s*\(\s*['"]([^'"]+)['"]\s*\)"#, content);
        let gs = groups_list(&ms, 1);
        let ghost items = views(gs@).map_values(|g: Seq<char>| trim_ws(g));
        let mut k: usize = 0;
        assert(items.take(0) =~= Seq::<Seq<char>>::empty());
        while k < gs.len()
            invariant
                k <= gs.len(),
                self.wf(),
                items == views(gs@).map_values(|g: Seq<char>| trim_ws(g)),
                items == declared_subdirs(content@),
                self@ == (MesonView { subdirs: push_new(old_view.subdirs, items.take(k as int)), ..old_view }),
            decreases gs.len() - k,
        {
            let sub = trim(gs[k].as_str());
            assert(items.take(k + 1).drop_last() =~= items.take(k as int));
            assert(items.take(k + 1).last() == sub@);
            if !vec_has(&self.modules.subdirs, sub.as_str()) {
                let ghost before = views(self.modules.subdirs@);
                self.modules.subdirs.push(sub);
                assert(views(self.modules.subdirs@) =~= before.push(items[k as int]));
            }
            k += 1;
        }
        assert(items.take(gs.len() as int) =~= items);
    }

    /// Records the Python checks.
    fn detect_python(&mut self, content: &str)
        requires
            old(self).wf(),
        ensures
            final(self).wf(),
            final(self)@ == stage_python(old(self)@, content@),
    {
        let has_python_import = contains(content, "import('python')") || contains(content, "import('python3')");
        let has_python_dep = contains(content, "dependency('python") || contains(content, "dependency('python3");
        let has_python_inst = contains(content, "python.find_installation");
        if has_python_import || has_python_dep || has_python_inst {
            self.is_python_app = true;
        }
        if contains(content, "dependency('pygobject") || contains(content, "find_program('pygobject")
            || contains(content, "gi.repository") {
            self.is_python_app = true;
            self.has_pygobject = true;
        }
        let has_python_script = any_python_script_line(content);
        if has_python_script || contains(content, "find_program('python3')") {
            self.needs_python_build_tool = true;
        }
    }

    /// Records the imported Meson modules.
    fn add_imports(&mut self, content: &str)
        requires
            old(self).wf(),
        ensures
            final(self).wf(),
            final(self)@ == stage_imports(old(self)@, content@),
    {
        let ghost old_view = self@;
        let ms = match_all(r#"(?i)\w+\s*=\s*import\s*\(\s*['"]([^'"]+)['"]\s*\)"#, content);
        let gs = groups_list(&ms, 1);
        let ghost names = views(gs@).map_values(|g: Seq<char>| str_lowercase(g));
        let mut k: usize = 0;
        while k < gs.len()
            invariant
                k <= gs.len(),
                self.wf(),
                names == views(gs@).map_values(|g: Seq<char>| str_lowercase(g)),
                self@ == (MesonView {
                    has_i18n: old_view.has_i18n || names.take(k as int).contains("i18n"@),
                    has_gnome: old_view.has_gnome || names.take(k as int).contains("gnome"@),
                    is_python_app: old_view.is_python_app || names.take(k as int).contains("python"@)
                        || names.take(k as int).contains("python3"@),
                    needs_python_build_tool: old_view.needs_python_build_tool || names.take(k as int).contains("python"@)
                        || names.take(k as int).contains("python3"@),
                    ..old_view
                }),
            decreases gs.len() - k,
        {
            let l = to_lowercase(gs[k].as_str());
            let ls = l.as_str();
            assert(names.take(k + 1) =~= names.take(k as int).push(l@));
            if str_eq(ls, "i18n") {
                self.modules.has_i18n = true;
            } else if str_eq(ls, "gnome") {
                self.modules.has_gnome = true;
            } else if str_eq(ls, "python") || str_eq(ls, "python3") {
                self.is_python_app = true;
                self.needs_python_build_tool = true;
            }
            proof {
                reveal_strlit("i18n");
                reveal_strlit("gnome");
                reveal_strlit("python");
                reveal_strlit("python3");
                assert("i18n"@.len() == 4);
                assert("gnome"@.len() == 5);
                assert("python"@.len() == 6);
                assert("python3"@.len() == 7);
                let t = names.take(k as int);
                let t1 = names.take(k + 1);
                assert(t1.contains("i18n"@) == (t.contains("i18n"@) || l@ == "i18n"@)) by {
                    if t1.contains("i18n"@) && !t.contains("i18n"@) {
                        let j = choose|j: int| 0 <= j < t1.len() && t1[j] == "i18n"@;
                        if j < t.len() { assert(t[j] == t1[j]); }
                    }
                    if t.contains("i18n"@) {
                        let j = choose|j: int| 0 <= j < t.len() && t[j] == "i18n"@;
                        assert(t1[j] == t[j]);
                    }
                    if l@ == "i18n"@ { assert(t1[k as int] == l@); }
                }
                assert(t1.contains("gnome"@) == (t.contains("gnome"@) || l@ == "gnome"@)) by {
                    if t1.contains("gnome"@) && !t.contains("gnome"@) {
                        let j = choose|j: int| 0 <= j < t1.len() && t1[j] == "gnome"@;
                        if j < t.len() { assert(t[j] == t1[j]); }
                    }
                    if t.contains("gnome"@) {
                        let j = choose|j: int| 0 <= j < t.len() && t[j] == "gnome"@;
                        assert(t1[j] == t[j]);
                    }
                    if l@ == "gnome"@ { assert(t1[k as int] == l@); }
                }
                assert(t1.contains("python"@) == (t.contains("python"@) || l@ == "python"@)) by {
                    if t1.contains("python"@) && !t.contains("python"@) {
                        let j = choose|j: int| 0 <= j < t1.len() && t1[j] == "python"@;
                        if j < t.len() { assert(t[j] == t1[j]); }
                    }
                    if t.contains("python"@) {
                        let j = choose|j: int| 0 <= j < t.len() && t[j] == "python"@;
                        assert(t1[j] == t[j]);
                    }
                    if l@ == "python"@ { assert(t1[k as int] == l@); }
                }
                assert(t1.contains("python3"@) == (t.contains("python3"@) || l@ == "python3"@)) by {
                    if t1.contains("python3"@) && !t.contains("python3"@) {
                        let j = choose|j: int| 0 <= j < t1.len() && t1[j] == "python3"@;
                        if j < t.len() { assert(t[j] == t1[j]); }
                    }
                    if t.contains("python3"@) {
                        let j = choose|j: int| 0 <= j < t.len() && t[j] == "python3"@;
                        assert(t1[j] == t[j]);
                    }
                    if l@ == "python3"@ { assert(t1[k as int] == l@); }
                }
                assert(self.modules.has_i18n == (old_view.has_i18n || t1.contains("i18n"@)));
                assert(self.modules.has_gnome == (old_view.has_gnome || t1.contains("gnome"@)));
                assert(self.is_python_app == (old_view.is_python_app || t1.contains("python"@) || t1.contains("python3"@)));
            }
            k += 1;
        }
        assert(names.take(gs.len() as int) =~= names);
    }
}


impl MesonProject {
    /// Records the `dependency()` calls as pkg-config build requirements.
    fn add_dependencies(&mut self, content: &str)
        requires
            old(self).wf(),
        ensures
            final(self).wf(),
            final(self)@ == stage_deps(old(self)@, content@),
    {
        let ghost old_view = self@;
        let ms = match_all(
            r#"(?i)dependency\s*\(\s*['"]([^'"]+)['"](?:\s*,\s*version\s*:\s*['"]\s*(?:>=)?\s*([^'"]+)['"])?"#,
            content,
        );
        let ghost all = matches_view(ms@);
        let ghost items = all.map_values(|m: (int, Seq<Option<Seq<char>>>)| dep_item(m));
        let ghost names = group_list(all, 1);
        let mut k: usize = 0;
        assert(items.take(0) =~= Seq::<Option<Seq<char>>>::empty());
        assert(somes(items.take(0)) =~= Set::<Seq<char>>::empty());
        assert(old_view.pkgconfig_deps.union(Set::<Seq<char>>::empty()) =~= old_view.pkgconfig_deps);
        assert(all.take(0) =~= Seq::<(int, Seq<Option<Seq<char>>>)>::empty());
        while k < ms.len()
            invariant
                k <= ms.len(),
                self.wf(),
                all == matches_view(ms@),
                items == all.map_values(|m: (int, Seq<Option<Seq<char>>>)| dep_item(m)),
                self@ == (MesonView {
                    pkgconfig_deps: old_view.pkgconfig_deps.union(somes(items.take(k as int))),
                    is_python_app: old_view.is_python_app || exists|j: int|
                        0 <= j < group_list(all.take(k as int), 1).len() && has_substr(
                            #[trigger] group_list(all.take(k as int), 1)[j],
                            "pygobject"@,
                        ),
                    has_pygobject: old_view.has_pygobject || exists|j: int|
                        0 <= j < group_list(all.take(k as int), 1).len() && has_substr(
                            #[trigger] group_list(all.take(k as int), 1)[j],
                            "pygobject"@,
                        ),
                    ..old_view
                }),
            decreases ms.len() - k,
        {
            let ghost gl = group_list(all.take(k as int), 1);
            assert(all.take(k + 1).drop_last() =~= all.take(k as int));
            assert(all.take(k + 1).last() == all[k as int]);
            let ghost gl1 = group_list(all.take(k + 1), 1);
            let item = dep_entry(&ms[k]);
            assert(items.take(k + 1) =~= items.take(k as int).push(items[k as int]));
            proof {
                lemma_somes_push(items.take(k as int), items[k as int]);
            }
            match group(&ms[k].groups, 1) {
                Some(n) => {
                    if contains(n.as_str(), "pygobject") {
                        self.is_python_app = true;
                        self.has_pygobject = true;
                    }
                    assert(gl1 == gl.push(n@));
                    assert((exists|j: int| 0 <= j < gl1.len() && has_substr(#[trigger] gl1[j], "pygobject"@))
                        == ((exists|j: int| 0 <= j < gl.len() && has_substr(#[trigger] gl[j], "pygobject"@))
                        || has_substr(n@, "pygobject"@))) by {
                        if exists|j: int| 0 <= j < gl1.len() && has_substr(#[trigger] gl1[j], "pygobject"@) {
                            let j = choose|j: int| 0 <= j < gl1.len() && has_substr(#[trigger] gl1[j], "pygobject"@);
                            if j < gl.len() {
                                assert(gl[j] == gl1[j]);
                            }
                        }
                        if exists|j: int| 0 <= j < gl.len() && has_substr(#[trigger] gl[j], "pygobject"@) {
                            let j = choose|j: int| 0 <= j < gl.len() && has_substr(#[trigger] gl[j], "pygobject"@);
                            assert(gl1[j] == gl[j]);
                        }
                        if has_substr(n@, "pygobject"@) {
                            assert(gl1[gl.len() as int] == n@);
                        }
                    }
                },
                None => {
                    assert(gl1 == gl);
                },
            }
            let ghost before = self@;
            if let Some(x) = item {
                sorted_insert(&mut self.pkgconfig_deps, x);
            }
            assert(self@.pkgconfig_deps =~= old_view.pkgconfig_deps.union(somes(items.take(k + 1))));
            k += 1;
        }
        assert(items.take(ms.len() as int) =~= items);
        assert(all.take(ms.len() as int) =~= all);
    }

    /// Records the tools that `find_program()` calls require.
    fn add_programs(&mut self, content: &str)
        requires
            old(self).wf(),
        ensures
            final(self).wf(),
            final(self)@ == stage_programs(old(self)@, content@),
    {
        let ghost old_view = self@;
        let ms = match_all(r#"(?i)find_program\s*\(\s*['"]([^'"]+)['"]"#, content);
        let gs = groups_list(&ms, 1);
        let ghost items = views(gs@).map_values(|p: Seq<char>| tool_item(p));
        let mut k: usize = 0;
        assert(items.take(0) =~= Seq::<Option<Seq<char>>>::empty());
        assert(somes(items.take(0)) =~= Set::<Seq<char>>::empty());
        assert(old_view.required_tools.union(Set::<Seq<char>>::empty()) =~= old_view.required_tools);
        while k < gs.len()
            invariant
                k <= gs.len(),
                self.wf(),
                items == views(gs@).map_values(|p: Seq<char>| tool_item(p)),
                self@ == (MesonView {
                    required_tools: old_view.required_tools.union(somes(items.take(k as int))),
                    ..old_view
                }),
            decreases gs.len() - k,
        {
            let item = tool_entry(gs[k].as_str());
            assert(items.take(k + 1) =~= items.take(k as int).push(items[k as int]));
            proof {
                lemma_somes_push(items.take(k as int), items[k as int]);
            }
            if let Some(x) = item {
                sorted_insert(&mut self.required_tools, x);
            }
            assert(self@.required_tools =~= old_view.required_tools.union(somes(items.take(k + 1))));
            k += 1;
        }
        assert(items.take(gs.len() as int) =~= items);
    }

    /// Records the blueprint compiler and the `gnome.post_install()` options.
    fn detect_blueprint_and_post_install(&mut self, content: &str)
        requires
            old(self).wf(),
        ensures
            final(self).wf(),
            final(self)@ == stage_blueprint_and_post(old(self)@, content@),
    {
        if contains(content, "blueprint-compiler") {
            self.modules.has_blueprint = true;
        }
        if self.modules.has_gnome {
            if let Some(block) = first_group_of(r#"(?s)gnome\.post_install\s*\((.*?)\)"#, content, 1) {
                let b = block.as_str();
                self.modules.gnome_post_install = GnomePostInstall {
                    glib_compile_schemas: bool_arg_of(b, "glib_compile_schemas"),
                    gtk_update_icon_cache: bool_arg_of(b, "gtk_update_icon_cache"),
                    update_desktop_database: bool_arg_of(b, "update_desktop_database"),
                };
            }
        }
    }

    /// Reads one `meson.build` (`is_root` for the workspace's root file).
    pub fn parse_content(&mut self, content: &str, is_root: bool)
        requires
            old(self).wf(),
            exe_windows_fit(content@),
        ensures
            final(self).wf(),
            final(self)@ == parsed_view(old(self)@, content@, is_root),
    {
        if is_root {
            self.parse_root_metadata(content);
        }
        self.add_outputs(content);
        self.add_subdirs(content);
        self.detect_python(content);
        self.add_imports(content);
        self.add_dependencies(content);
        self.add_programs(content);
        self.detect_blueprint_and_post_install(content);
    }
}


// ---------------------------------------------------------------------------
// The whole workspace
// ---------------------------------------------------------------------------

/// Every readable file among the entries `idx` passes `exe_windows_fit`.
pub open spec fn files_fit(ents: Seq<WorkspaceEntry>, idx: Seq<int>) -> bool {
    forall|k: int|
        0 <= k < idx.len() ==> match (#[trigger] ents[idx[k]]).content {
            Some(c) => exe_windows_fit(c@),
            None => true,
        }
}

/// The `meson.build` files that `parse_from_workspace` reads pass `exe_windows_fit`.
pub open spec fn meson_files_fit(ws: Workspace) -> bool {
    &&& files_fit(ws.ents(), ws.matches(seq!["meson.build"@]))
    &&& dir_at(ws.ents(), seq!["subprojects"@]) ==> files_fit(ws.ents(), subproject_mesons(ws.ents()))
}

/// Whether the readable files among the entries `idx` pass `exe_windows_fit`.
fn all_fit(ws: &Workspace, idx: &Vec<usize>) -> (r: bool)
    requires
        forall|k: int| 0 <= k < idx.len() ==> (#[trigger] idx@[k]) < ws.ents().len(),
    ensures
        r == files_fit(ws.ents(), idx@.map_values(|i: usize| i as int)),
{
    let ghost all = idx@.map_values(|i: usize| i as int);
    let ghost ents = ws.ents();
    let mut k: usize = 0;
    while k < idx.len()
        invariant
            k <= idx.len(),
            all == idx@.map_values(|i: usize| i as int),
            ents == ws.ents(),
            forall|j: int| 0 <= j < idx.len() ==> (#[trigger] idx@[j]) < ws.ents().len(),
            forall|j: int|
                0 <= j < k ==> match (#[trigger] ents[all[j]]).content {
                    Some(c) => exe_windows_fit(c@),
                    None => true,
                },
        decreases idx.len() - k,
    {
        assert(all[k as int] == idx@[k as int] as int);
        match &ws.entries[idx[k]].content {
            Some(c) => {
                if !executable_windows_fit(c.as_str()) {
                    return false;
                }
            },
            None => {},
        }
        k += 1;
    }
    true
}

/// `v` after reading, in order, the readable files among the entries `idx`.
pub open spec fn fold_parse(v: MesonView, ents: Seq<WorkspaceEntry>, idx: Seq<int>, root_known: bool) -> MesonView
    decreases idx.len(),
{
    if idx.len() == 0 {
        v
    } else {
        let prev = fold_parse(v, ents, idx.drop_last(), root_known);
        let e = ents[idx.last()];
        match e.content {
            Some(c) => parsed_view(prev, c@, root_known && comps(e) == seq!["meson.build"@]),
            None => prev,
        }
    }
}

/// The license that the first AppStream file declaring one declares.
pub open spec fn license_item(e: WorkspaceEntry) -> Option<Seq<char>> {
    match e.content {
        Some(c) => match first_group("<project_license>(.*?)</project_license>"@, c@, 1) {
            Some(l) => if trim_ws(l).len() > 0 {
                Some(trim_ws(l))
            } else {
                None
            },
            None => None,
        },
        None => None,
    }
}

/// `extract_license_from_metainfo`.
pub open spec fn metainfo_license(ents: Seq<WorkspaceEntry>) -> Option<Seq<char>> {
    if !regex_compiles("<project_license>(.*?)</project_license>"@) {
        None
    } else {
        let hits = indices_where(
            ents.len() as int,
            |i: int|
                crate::workspace::reached(ents[i], Seq::empty()) && crate::workspace::name_matches(
                    name_of(ents[i]),
                    seq!["metainfo.xml"@, "appdata.xml"@],
                ) && license_item(ents[i]) is Some,
        );
        if hits.len() == 0 {
            None
        } else {
            license_item(ents[hits[0]])
        }
    }
}

/// A `meson.build` that the subproject scan reaches.
pub open spec fn subproject_meson(e: WorkspaceEntry) -> bool {
    &&& below(e, seq!["subprojects"@])
    &&& !e.is_dir
    &&& name_of(e) == "meson.build"@
    &&& forall|k: int| 1 <= k < comps(e).len() ==> !skipped_in_subprojects(#[trigger] comps(e)[k])
}

/// The entries of the subproject scan, in order.
pub open spec fn subproject_mesons(ents: Seq<WorkspaceEntry>) -> Seq<int> {
    indices_where(ents.len() as int, |i: int| subproject_meson(ents[i]))
}

/// What `parse_from_workspace` makes of a workspace.
pub open spec fn workspace_view(ws: Workspace) -> MesonView {
    let ents = ws.ents();
    let root_pass = fold_parse(
        MesonProject::empty_view(),
        ents,
        matching_files(ents, Seq::empty(), seq!["meson.build"@]),
        true,
    );
    let with_license = if root_pass.license is None && ws.metainfo_choice() is Some {
        MesonView { license: metainfo_license(ents), ..root_pass }
    } else {
        root_pass
    };
    if dir_at(ents, seq!["subprojects"@]) {
        fold_parse(with_license, ents, subproject_mesons(ents), false)
    } else {
        with_license
    }
}

/// `is_rust_project`: a `Cargo.toml` at the root or in `src/`, a declared `rust`
/// language, or a subproject directory holding a `Cargo.toml`.
pub open spec fn rust_project(m: MesonView, ents: Seq<WorkspaceEntry>) -> bool {
    exists_at(ents, seq!["Cargo.toml"@]) || exists_at(ents, seq!["src"@, "Cargo.toml"@])
        || (exists|k: int| 0 <= k < m.languages.len() && eq_ascii_nocase(#[trigger] m.languages[k], "rust"@))
        || (dir_at(ents, seq!["subprojects"@]) && exists|i: int|
            0 <= i < ents.len() && comps(#[trigger] ents[i]).len() == 3
                && comps(ents[i])[0] == "subprojects"@ && comps(ents[i])[2] == "Cargo.toml"@
                && dir_at(ents, comps(ents[i]).take(2)))
}

/// `has_po_subdir`: a `po` or `po-body` subdirectory (ASCII case-insensitive).
pub open spec fn has_po(m: MesonView) -> bool {
    (exists|k: int| 0 <= k < m.subdirs.len() && eq_ascii_nocase(#[trigger] m.subdirs[k], "po"@))
        || (exists|k: int| 0 <= k < m.subdirs.len() && eq_ascii_nocase(#[trigger] m.subdirs[k], "po-body"@))
}

/// The languages that need a compiler.
pub open spec fn compiled_languages() -> Seq<Seq<char>> {
    seq![
        "c"@, "cpp"@, "cuda"@, "cython"@, "d"@, "objc"@, "objcpp"@, "fortran"@, "cs"@, "swift"@,
        "vala"@, "rust"@, "nasm"@, "masm"@,
    ]
}

impl MesonProject {
    /// The view of a project with nothing declared.
    pub open spec fn empty_view() -> MesonView {
        MesonView {
            name: None,
            license: None,
            languages: Seq::empty(),
            pkgconfig_deps: Set::empty(),
            required_tools: Set::empty(),
            installed_executables: Set::empty(),
            meson_min_version: None,
            has_i18n: false,
            has_gnome: false,
            has_blueprint: false,
            post_install: GnomePostInstall {
                glib_compile_schemas: false,
                gtk_update_icon_cache: false,
                update_desktop_database: false,
            },
            subdirs: Seq::empty(),
            needs_python_build_tool: false,
            is_python_app: false,
            has_pygobject: false,
        }
    }

    /// Reads the readable files among the entries `idx`, in order.
    fn parse_files(&mut self, ws: &Workspace, idx: &Vec<usize>, root_known: bool)
        requires
            old(self).wf(),
            forall|k: int| 0 <= k < idx.len() ==> (#[trigger] idx@[k]) < ws.ents().len(),
            files_fit(ws.ents(), idx@.map_values(|i: usize| i as int)),
        ensures
            final(self).wf(),
            final(self)@ == fold_parse(old(self)@, ws.ents(), idx@.map_values(|i: usize| i as int), root_known),
    {
        let ghost start = self@;
        let ghost all = idx@.map_values(|i: usize| i as int);
        let mut k: usize = 0;
        assert(all.take(0) =~= Seq::<int>::empty());
        let root_path = vec!["meson.build"];
        assert(root_path@.map_values(|s: &str| s@) =~= seq!["meson.build"@]);
        while k < idx.len()
            invariant
                k <= idx.len(),
                self.wf(),
                all == idx@.map_values(|i: usize| i as int),
                forall|j: int| 0 <= j < idx.len() ==> (#[trigger] idx@[j]) < ws.ents().len(),
                files_fit(ws.ents(), all),
                root_path@.map_values(|s: &str| s@) == seq!["meson.build"@],
                self@ == fold_parse(start, ws.ents(), all.take(k as int), root_known),
            decreases idx.len() - k,
        {
            assert(all.take(k + 1).drop_last() =~= all.take(k as int));
            assert(all.take(k + 1).last() == idx@[k as int] as int);
            let e = &ws.entries[idx[k]];
            assert(all[k as int] == idx@[k as int] as int);
            match &e.content {
                Some(c) => {
                    let is_root = root_known && crate::workspace::same_path(e, &root_path);
                    self.parse_content(c.as_str(), is_root);
                },
                None => {},
            }
            k += 1;
        }
        assert(all.take(idx.len() as int) =~= all);
    }

    /// The subproject `meson.build` files, in scan order.
    fn find_all_subproject_meson_files(ws: &Workspace) -> (r: Vec<usize>)
        ensures
            r@.map_values(|i: usize| i as int) == subproject_mesons(ws.ents()),
            forall|k: int| 0 <= k < r.len() ==> (#[trigger] r@[k]) < ws.ents().len(),
    {
        let ghost f = |i: int| subproject_meson(ws.ents()[i]);
        let mut out: Vec<usize> = Vec::new();
        let mut i: usize = 0;
        while i < ws.entries.len()
            invariant
                i <= ws.entries.len(),
                f == (|i: int| subproject_meson(ws.ents()[i])),
                out@.map_values(|i: usize| i as int) == indices_where(i as int, f),
                forall|k: int| 0 <= k < out.len() ==> (#[trigger] out@[k]) < i,
            decreases ws.entries.len() - i,
        {
            let e = &ws.entries[i];
            let ghost before = out@.map_values(|i: usize| i as int);
            if !e.is_dir && e.path.len() >= 2 && str_eq(e.path[0].as_str(), "subprojects") && str_eq(
                e.path[e.path.len() - 1].as_str(),
                "meson.build",
            ) {
                let mut k: usize = 1;
                let mut ok = true;
                while k < e.path.len()
                    invariant
                        1 <= k <= e.path.len(),
                        ok ==> forall|m: int| 1 <= m < k ==> !skipped_in_subprojects(#[trigger] comps(*e)[m]),
                        !ok ==> !subproject_meson(*e),
                    decreases e.path.len() - k,
                {
                    let c = e.path[k].as_str();
                    let cv = chars_of(c);
                    if (cv.len() > 0 && cv[0] == '.') || str_eq(c, "build") || str_eq(c, "_build") {
                        assert(comps(*e)[k as int] == e.path@[k as int]@);
                        ok = false;
                    }
                    k += 1;
                }
                if ok {
                    assert(comps(*e)[0] == e.path@[0]@);
                    assert(comps(*e).take(1) =~= seq!["subprojects"@]);
                    out.push(i);
                    assert(out@.map_values(|i: usize| i as int) =~= before.push(i as int));
                } else {
                }
            } else {
                proof {
                    if e.path.len() >= 2 && !e.is_dir {
                        assert(comps(*e)[0] == e.path@[0]@);
                        assert(comps(*e).take(1)[0] == comps(*e)[0]);
                    }
                }
            }
            i += 1;
        }
        out
    }

    /// The license that the workspace's AppStream files declare.
    fn extract_license_from_metainfo(ws: &Workspace) -> (r: Option<String>)
        ensures
            opt_view(r) == metainfo_license(ws.ents()),
    {
        let re = match Pattern::new("<project_license>(.*?)</project_license>") {
            Some(re) => re,
            None => return None,
        };
        let root: Vec<&str> = Vec::new();
        assert(root@.map_values(|s: &str| s@) =~= Seq::<Seq<char>>::empty());
        let pats = vec!["metainfo.xml", "appdata.xml"];
        assert(pats@.map_values(|s: &str| s@) =~= seq!["metainfo.xml"@, "appdata.xml"@]);
        let ghost ents = ws.ents();
        let ghost f = |i: int|
            crate::workspace::reached(ents[i], Seq::empty()) && crate::workspace::name_matches(
                name_of(ents[i]),
                seq!["metainfo.xml"@, "appdata.xml"@],
            ) && license_item(ents[i]) is Some;
        let mut i: usize = 0;
        while i < ws.entries.len()
            invariant
                i <= ws.entries.len(),
                ents == ws.ents(),
                re@ == "<project_license>(.*?)</project_license>"@,
                regex_compiles("<project_license>(.*?)</project_license>"@),
                root@.map_values(|s: &str| s@) == Seq::<Seq<char>>::empty(),
                pats@.map_values(|s: &str| s@) == seq!["metainfo.xml"@, "appdata.xml"@],
                f == (|i: int|
                    crate::workspace::reached(ents[i], Seq::empty()) && crate::workspace::name_matches(
                        name_of(ents[i]),
                        seq!["metainfo.xml"@, "appdata.xml"@],
                    ) && license_item(ents[i]) is Some),
                forall|j: int| 0 <= j < i ==> !#[trigger] f(j),
            decreases ws.entries.len() - i,
        {
            let e = &ws.entries[i];
            if crate::workspace::is_reached(e, &root) && crate::workspace::matches_any(
                e.path[e.path.len() - 1].as_str(),
                &pats,
            ) {
                if let Some(content) = &e.content {
                    if let Some(g) = re.captures(content.as_str()) {
                        if let Some(l) = group(&g, 1) {
                            let lic = trim(l.as_str());
                            if !lic.as_str().is_empty() {
                                proof {
                                    lemma_indices_where_first(ents.len() as int, f, i as int);
                                }
                                return Some(lic);
                            }
                        }
                    }
                }
            }
            i += 1;
        }
        proof {
            lemma_indices_where_none(ents.len() as int, f);
        }
        None
    }

    /// Reads every `meson.build` of the workspace (the root one for the project
    /// metadata), falls back to the AppStream license, then collects the
    /// dependencies of the Meson subprojects.
    pub fn parse_from_workspace(ws: &Workspace) -> (p: MesonProject)
        requires
            meson_files_fit(*ws),
        ensures
            p.wf(),
            p@ == workspace_view(*ws),
    {
        let mut project = MesonProject::new();
        let pats = vec!["meson.build"];
        let found = find_in_root(ws, &pats);
        assert(pats@.map_values(|s: &str| s@) =~= seq!["meson.build"@]);
        proof {
            crate::workspace::lemma_indices_where(
                ws.ents().len() as int,
                |i: int|
                    crate::workspace::reached(ws.ents()[i], Seq::empty()) && crate::workspace::name_matches(
                        name_of(ws.ents()[i]),
                        seq!["meson.build"@],
                    ),
            );
            assert forall|k: int| 0 <= k < found.len() implies (#[trigger] found@[k]) < ws.ents().len() by {
                assert(found@.map_values(|i: usize| i as int)[k] == found@[k] as int);
            }
        }
        project.parse_files(ws, &found, true);
        if project.license.is_none() && has_metainfo_file(ws) {
            project.license = MesonProject::extract_license_from_metainfo(ws);
        }
        let sub = vec!["subprojects"];
        assert(sub@.map_values(|s: &str| s@) =~= seq!["subprojects"@]);
        if ws.is_dir(&sub) {
            project.parse_subproject_dependencies(ws);
        }
        project
    }

    /// Collects the dependencies of the Meson subprojects, leaving the
    /// application's own metadata alone.
    fn parse_subproject_dependencies(&mut self, ws: &Workspace)
        requires
            old(self).wf(),
            files_fit(ws.ents(), subproject_mesons(ws.ents())),
        ensures
            final(self).wf(),
            final(self)@ == fold_parse(old(self)@, ws.ents(), subproject_mesons(ws.ents()), false),
            final(self)@.name == old(self)@.name,
            final(self)@.license == old(self)@.license,
            final(self)@.meson_min_version == old(self)@.meson_min_version,
            final(self)@.languages == old(self)@.languages,
            old(self)@.pkgconfig_deps.subset_of(final(self)@.pkgconfig_deps),
            old(self)@.required_tools.subset_of(final(self)@.required_tools),
    {
        let files = MesonProject::find_all_subproject_meson_files(ws);
        let ghost before = self@;
        self.parse_files(ws, &files, false);
        proof {
            law_subprojects_keep_project_metadata(before, ws.ents(), subproject_mesons(ws.ents()));
            law_parsing_only_adds(before, ws.ents(), subproject_mesons(ws.ents()), false);
        }
    }

    /// Reads the project as `parse_from_workspace` does, where every
    /// `meson.build` it reads keeps its `executable(...)` windows between
    /// characters; `None` where one does not, and the window cannot be taken
    /// as a `str` slice.
    pub fn try_parse_from_workspace(ws: &Workspace) -> (r: Option<MesonProject>)
        ensures
            match r {
                Some(p) => meson_files_fit(*ws) && p.wf() && p@ == workspace_view(*ws),
                None => !meson_files_fit(*ws),
            },
    {
        let pats = vec!["meson.build"];
        let found = find_in_root(ws, &pats);
        assert(pats@.map_values(|s: &str| s@) =~= seq!["meson.build"@]);
        proof {
            crate::workspace::lemma_indices_where(
                ws.ents().len() as int,
                |i: int|
                    crate::workspace::reached(ws.ents()[i], Seq::empty()) && crate::workspace::name_matches(
                        name_of(ws.ents()[i]),
                        seq!["meson.build"@],
                    ),
            );
            assert forall|k: int| 0 <= k < found.len() implies (#[trigger] found@[k]) < ws.ents().len() by {
                assert(found@.map_values(|i: usize| i as int)[k] == found@[k] as int);
            }
        }
        if !all_fit(ws, &found) {
            return None;
        }
        let sub = vec!["subprojects"];
        assert(sub@.map_values(|s: &str| s@) =~= seq!["subprojects"@]);
        if ws.is_dir(&sub) {
            let files = MesonProject::find_all_subproject_meson_files(ws);
            if !all_fit(ws, &files) {
                return None;
            }
        }
        Some(MesonProject::parse_from_workspace(ws))
    }

    /// Whether Meson enters the subdirectory `name` (ASCII case-insensitive).
    pub fn has_subdir(&self, name: &str) -> (r: bool)
        ensures
            r == exists|k: int| 0 <= k < self@.subdirs.len() && eq_ascii_nocase(#[trigger] self@.subdirs[k], name@),
    {
        let mut k: usize = 0;
        while k < self.modules.subdirs.len()
            invariant
                k <= self.modules.subdirs.len(),
                forall|j: int| 0 <= j < k ==> !eq_ascii_nocase(#[trigger] self@.subdirs[j], name@),
            decreases self.modules.subdirs.len() - k,
        {
            if eq_ignore_ascii_case(self.modules.subdirs[k].as_str(), name) {
                assert(eq_ascii_nocase(self@.subdirs[k as int], name@));
                return true;
            }
            k += 1;
        }
        false
    }

    /// Whether the project has a `po` or `po-body` translation directory.
    pub fn has_po_subdir(&self) -> (r: bool)
        ensures
            r == has_po(self@),
    {
        self.has_subdir("po") || self.has_subdir("po-body")
    }

    /// Whether no declared language needs a compiler (an architecture-independent package).
    pub fn is_noarch(&self) -> (r: bool)
        ensures
            r == forall|k: int| 0 <= k < self@.languages.len() ==> !compiled_languages().contains(
                str_lowercase(#[trigger] self@.languages[k]),
            ),
    {
        let compiled = vec![
            "c", "cpp", "cuda", "cython", "d", "objc", "objcpp", "fortran", "cs", "swift", "vala",
            "rust", "nasm", "masm",
        ];
        assert(compiled@.map_values(|s: &str| s@) =~= compiled_languages());
        let mut k: usize = 0;
        while k < self.languages.len()
            invariant
                k <= self.languages.len(),
                compiled@.map_values(|s: &str| s@) == compiled_languages(),
                forall|j: int| 0 <= j < k ==> !compiled_languages().contains(str_lowercase(#[trigger] self@.languages[j])),
            decreases self.languages.len() - k,
        {
            let l = to_lowercase(self.languages[k].as_str());
            let mut m: usize = 0;
            while m < compiled.len()
                invariant
                    m <= compiled.len(),
                    k < self.languages.len(),
                    compiled@.map_values(|s: &str| s@) == compiled_languages(),
                    l@ == str_lowercase(self@.languages[k as int]),
                    forall|j: int| 0 <= j < m ==> compiled_languages()[j] != l@,
                decreases compiled.len() - m,
            {
                if str_eq(l.as_str(), compiled[m]) {
                    assert(compiled_languages()[m as int] == l@);
                    assert(compiled_languages().contains(str_lowercase(self@.languages[k as int])));
                    return false;
                }
                m += 1;
            }
            k += 1;
        }
        true
    }

    /// Whether the project builds Rust code: a `Cargo.toml` at the root or in
    /// `src/`, a declared `rust` language, or a subproject holding a `Cargo.toml`.
    pub fn is_rust_project(&self, ws: &Workspace) -> (r: bool)
        ensures
            r == rust_project(self@, ws.ents()),
    {
        let p1 = vec!["Cargo.toml"];
        assert(p1@.map_values(|s: &str| s@) =~= seq!["Cargo.toml"@]);
        let p2 = vec!["src", "Cargo.toml"];
        assert(p2@.map_values(|s: &str| s@) =~= seq!["src"@, "Cargo.toml"@]);
        if ws.path_exists(&p1) || ws.path_exists(&p2) {
            return true;
        }
        let mut k: usize = 0;
        while k < self.languages.len()
            invariant
                k <= self.languages.len(),
                forall|j: int| 0 <= j < k ==> !eq_ascii_nocase(#[trigger] self@.languages[j], "rust"@),
            decreases self.languages.len() - k,
        {
            if eq_ignore_ascii_case(self.languages[k].as_str(), "rust") {
                assert(eq_ascii_nocase(self@.languages[k as int], "rust"@));
                return true;
            }
            k += 1;
        }
        let sub = vec!["subprojects"];
        assert(sub@.map_values(|s: &str| s@) =~= seq!["subprojects"@]);
        if !ws.is_dir(&sub) {
            return false;
        }
        let mut i: usize = 0;
        while i < ws.entries.len()
            invariant
                i <= ws.entries.len(),
                dir_at(ws.ents(), seq!["subprojects"@]),
                forall|j: int|
                    0 <= j < i ==> !(comps(#[trigger] ws.ents()[j]).len() == 3 && comps(ws.ents()[j])[0]
                        == "subprojects"@ && comps(ws.ents()[j])[2] == "Cargo.toml"@ && dir_at(
                        ws.ents(),
                        comps(ws.ents()[j]).take(2),
                    )),
            decreases ws.entries.len() - i,
        {
            let e = &ws.entries[i];
            if e.path.len() == 3 && str_eq(e.path[0].as_str(), "subprojects") && str_eq(
                e.path[2].as_str(),
                "Cargo.toml",
            ) {
                let d = vec!["subprojects", e.path[1].as_str()];
                assert(d@.map_values(|s: &str| s@) =~= comps(*e).take(2));
                if ws.is_dir(&d) {
                    assert(comps(*e)[0] == e.path@[0]@);
                    assert(comps(*e)[2] == e.path@[2]@);
                    assert(comps(ws.ents()[i as int]).len() == 3);
                    return true;
                }
            } else {
                proof {
                    if e.path.len() == 3 {
                        assert(comps(*e)[0] == e.path@[0]@);
                        assert(comps(*e)[2] == e.path@[2]@);
                    }
                }
            }
            i += 1;
        }
        false
    }
}


/// Reading the `meson.build` files of subprojects (none taken for the root
/// file) leaves the project's own name, license, minimum Meson version and
/// languages as they were.
pub proof fn law_subprojects_keep_project_metadata(v: MesonView, ents: Seq<WorkspaceEntry>, idx: Seq<int>)
    ensures
        fold_parse(v, ents, idx, false).name == v.name,
        fold_parse(v, ents, idx, false).license == v.license,
        fold_parse(v, ents, idx, false).meson_min_version == v.meson_min_version,
        fold_parse(v, ents, idx, false).languages == v.languages,
    decreases idx.len(),
{
    if idx.len() > 0 {
        law_subprojects_keep_project_metadata(v, ents, idx.drop_last());
    }
}

/// Reading more `meson.build` files only adds dependencies, tools and
/// installed executables; none that was found goes away.
pub proof fn law_parsing_only_adds(v: MesonView, ents: Seq<WorkspaceEntry>, idx: Seq<int>, root_known: bool)
    ensures
        v.pkgconfig_deps.subset_of(fold_parse(v, ents, idx, root_known).pkgconfig_deps),
        v.required_tools.subset_of(fold_parse(v, ents, idx, root_known).required_tools),
        v.installed_executables.subset_of(fold_parse(v, ents, idx, root_known).installed_executables),
    decreases idx.len(),
{
    if idx.len() > 0 {
        law_parsing_only_adds(v, ents, idx.drop_last(), root_known);
    }
}


/// The package requirements that the `dependency()` calls of a `meson.build`
/// text declare.
pub open spec fn declared_dependencies(c: Seq<char>) -> Set<Seq<char>> {
    somes(all_matches(pat_dependency(), c).map_values(|m: (int, Seq<Option<Seq<char>>>)| dep_item(m)))
}

/// Reading one more file keeps what was found before.
proof fn lemma_parsed_view_keeps(v: MesonView, c: Seq<char>, is_root: bool)
    ensures
        v.pkgconfig_deps.subset_of(parsed_view(v, c, is_root).pkgconfig_deps),
        v.installed_executables.subset_of(parsed_view(v, c, is_root).installed_executables),
        declared_dependencies(c).subset_of(parsed_view(v, c, is_root).pkgconfig_deps),
        declared_executables(c).subset_of(parsed_view(v, c, is_root).installed_executables),
{
}

/// The file at position `k` of `idx` contributes its dependencies and
/// executables to the result of reading all of `idx`.
proof fn lemma_fold_keeps_file(v: MesonView, ents: Seq<WorkspaceEntry>, idx: Seq<int>, root_known: bool, k: int)
    requires
        0 <= k < idx.len(),
        ents[idx[k]].content is Some,
    ensures
        declared_dependencies(ents[idx[k]].content->0@).subset_of(fold_parse(v, ents, idx, root_known).pkgconfig_deps),
        declared_executables(ents[idx[k]].content->0@).subset_of(
            fold_parse(v, ents, idx, root_known).installed_executables,
        ),
    decreases idx.len(),
{
    let prev = fold_parse(v, ents, idx.drop_last(), root_known);
    let e = ents[idx.last()];
    if k == idx.len() - 1 {
        lemma_parsed_view_keeps(prev, e.content->0@, root_known && comps(e) == seq!["meson.build"@]);
    } else {
        assert(idx.drop_last()[k] == idx[k]);
        lemma_fold_keeps_file(v, ents, idx.drop_last(), root_known, k);
        match e.content {
            Some(c) => lemma_parsed_view_keeps(prev, c@, root_known && comps(e) == seq!["meson.build"@]),
            None => {},
        }
    }
}

/// Every readable `meson.build` that the workspace search reaches, the root
/// one or another, contributes its `dependency()` requirements and its
/// installed executables to the project that `parse_from_workspace` reads.
pub proof fn law_every_meson_file_counts(ws: Workspace, k: int)
    requires
        0 <= k < ws.matches(seq!["meson.build"@]).len(),
        ws.ents()[ws.matches(seq!["meson.build"@])[k]].content is Some,
    ensures
        declared_dependencies(ws.ents()[ws.matches(seq!["meson.build"@])[k]].content->0@).subset_of(
            workspace_view(ws).pkgconfig_deps,
        ),
        declared_executables(ws.ents()[ws.matches(seq!["meson.build"@])[k]].content->0@).subset_of(
            workspace_view(ws).installed_executables,
        ),
{
    let ents = ws.ents();
    let idx = matching_files(ents, Seq::empty(), seq!["meson.build"@]);
    let root_pass = fold_parse(MesonProject::empty_view(), ents, idx, true);
    lemma_fold_keeps_file(MesonProject::empty_view(), ents, idx, true, k);
    let with_license = if root_pass.license is None && ws.metainfo_choice() is Some {
        MesonView { license: metainfo_license(ents), ..root_pass }
    } else {
        root_pass
    };
    if dir_at(ents, seq!["subprojects"@]) {
        law_parsing_only_adds(with_license, ents, subproject_mesons(ents), false);
    }
}

}
