//! The Flatpak manifest: its data, the app-id rules, and the checks that the
//! main application module builds with Meson.
use vstd::prelude::*;
use crate::text::{
    begins_with, chars_of, concat2, contains, copy_str, count_char, count_matches, has_substr,
    last_piece, lines, lines_of, second_piece, split_on, starts_with, str_eq, str_lowercase,
    strip_suffix, strip_suffixes, to_lowercase, trim, trim_char, trim_end_matches,
    trim_matches_char, trim_ws, views, without_suffix, opt_str_view, opt_view, copy_opt,
};
use crate::workspace::{
    comps, content_at, find_matching_files, indices_where, is_reached, lemma_indices_where,
    lemma_indices_where_first,
    lemma_indices_where_none, matches_any, name_matches, name_of, reached, Workspace,
    WorkspaceEntry,
};

verus! {

/// A Flatpak application manifest.
pub struct FlatpakManifest {
    pub id: Option<String>,
    pub runtime: Option<String>,
    pub runtime_version: Option<String>,
    pub sdk: Option<String>,
    pub command: Option<String>,
    pub buildsystem: Option<String>,
    pub modules: Option<Vec<Module>>,
}

/// A manifest module: a path to a module file, or the module inline.
pub enum Module {
    Path(String),
    Detail(ModuleDetail),
}

/// An inline module.
pub struct ModuleDetail {
    pub name: String,
    pub buildsystem: Option<String>,
    pub sources: Option<Vec<Source>>,
    pub modules: Option<Vec<Module>>,
}

/// A module source: a path to a source file, or the source inline.
pub enum Source {
    Path(String),
    Detail(SourceDetail),
}

/// An inline module source.
pub enum SourceDetail {
    Archive { url: String },
    Git { url: String },
    Dir { path: String },
    Other,
}

/// The module and source files that a manifest names by path, as read and
/// parsed from the workspace: each path as written, with its content when the
/// file could be read and parsed.
pub struct ExternalFiles {
    pub modules: Vec<(String, Option<ModuleDetail>)>,
    pub sources: Vec<(String, Option<SourceDetail>)>,
}

/// Why a manifest could not be loaded.
#[derive(Debug)]
pub enum ManifestError {
    /// No manifest file in the workspace root or the usual subdirectories.
    NoManifest,
    /// The workspace has no `meson.build` at its root.
    MissingMesonBuild,
    /// No Meson-based main application module in the manifest.
    NoMesonModule,
    /// An external module or source file could not be read or parsed.
    ExternalFile(String),
}

// ---------------------------------------------------------------------------
// Spec model
// ---------------------------------------------------------------------------

/// The module detail behind `m`: inline, or the parsed file it names.
pub open spec fn resolved_module(m: Module, ext: ExternalFiles) -> Option<ModuleDetail> {
    match m {
        Module::Detail(d) => Some(d),
        Module::Path(p) => {
            let hits = indices_where(ext.modules@.len() as int, |i: int| ext.modules@[i].0@ == p@);
            if hits.len() == 0 {
                None
            } else {
                ext.modules@[hits[0]].1
            }
        },
    }
}

/// The source detail behind `s`: inline, or the parsed file it names.
pub open spec fn resolved_source(s: Source, ext: ExternalFiles) -> Option<SourceDetail> {
    match s {
        Source::Detail(d) => Some(d),
        Source::Path(p) => {
            let hits = indices_where(ext.sources@.len() as int, |i: int| ext.sources@[i].0@ == p@);
            if hits.len() == 0 {
                None
            } else {
                ext.sources@[hits[0]].1
            }
        },
    }
}

/// `sanitize_app_id_str`: trimmed, without one `.Devel` or else one `.devel` suffix.
pub open spec fn sanitized_id(id: Seq<char>) -> Seq<char> {
    let t = trim_ws(id);
    match without_suffix(t, ".Devel"@) {
        Some(s) => s,
        None => match without_suffix(t, ".devel"@) {
            Some(s) => s,
            None => t,
        },
    }
}

/// The lower-cased last `.`-separated segment of the lower-cased id.
pub open spec fn id_last_segment(id_lower: Seq<char>) -> Seq<char> {
    str_lowercase(split_on(id_lower, '.').last())
}

/// A source that marks its module as the application itself.
pub open spec fn source_marks_app(d: SourceDetail, id_lower: Option<Seq<char>>) -> bool {
    match d {
        SourceDetail::Dir { path } => path@ == "."@ || path@ == "./"@ || path@ == ".."@ || path@
            == "../"@,
        SourceDetail::Archive { url } => match id_lower {
            Some(id) => has_substr(str_lowercase(url@), id) || has_substr(
                str_lowercase(url@),
                id_last_segment(id),
            ),
            None => false,
        },
        SourceDetail::Git { url } => match id_lower {
            Some(id) => has_substr(str_lowercase(url@), id) || has_substr(
                str_lowercase(url@),
                id_last_segment(id),
            ),
            None => false,
        },
        SourceDetail::Other => false,
    }
}

/// `is_main_app_module`: the module is the application's own module.
pub open spec fn main_app_module(
    m: ModuleDetail,
    app_id: Option<Seq<char>>,
    total: int,
    ext: ExternalFiles,
) -> bool {
    let id_lower = match app_id {
        Some(id) => Some(str_lowercase(id)),
        None => None,
    };
    let name_lower = str_lowercase(m.name@);
    let name_hit = match id_lower {
        Some(id) => name_lower == id || name_lower == id_last_segment(id),
        None => false,
    };
    let source_hit = match m.sources {
        Some(srcs) => exists|k: int|
            0 <= k < srcs@.len() && match resolved_source(#[trigger] srcs@[k], ext) {
                Some(d) => source_marks_app(d, id_lower),
                None => false,
            },
        None => false,
    };
    name_hit || source_hit || total == 1
}

/// The module builds with Meson (`meson` when it names no build system).
pub open spec fn builds_with_meson(d: ModuleDetail) -> bool {
    match d.buildsystem {
        Some(bs) => str_lowercase(bs@) == "meson"@,
        None => str_lowercase("meson"@) == "meson"@,
    }
}

/// The paths of the module files that the manifest names.
pub open spec fn module_file_paths(ext: ExternalFiles) -> Set<Seq<char>> {
    ext.modules@.map_values(|e: (String, Option<ModuleDetail>)| e.0@).to_set()
}

/// How many module files are left to enter once those in `entered` have been.
pub open spec fn unentered(ext: ExternalFiles, entered: Set<Seq<char>>) -> nat {
    module_file_paths(ext).difference(entered).len()
}

/// Entering a module file not entered yet leaves fewer to enter.
pub proof fn lemma_entering_decreases(ext: ExternalFiles, entered: Set<Seq<char>>, p: Seq<char>, h: int)
    requires
        0 <= h < ext.modules@.len(),
        ext.modules@[h].0@ == p,
        !entered.contains(p),
    ensures
        unentered(ext, entered.insert(p)) < unentered(ext, entered),
{
    let all = module_file_paths(ext);
    let names = ext.modules@.map_values(|e: (String, Option<ModuleDetail>)| e.0@);
    assert(names[h] == p);
    assert(all.contains(p));
    names.lemma_cardinality_of_set();
    assert(all.finite());
    assert(all.difference(entered.insert(p)) =~= all.difference(entered).remove(p));
    assert(all.difference(entered).contains(p));
}

/// `has_meson_app_module`: some module builds with Meson and is the main
/// application module, or holds (directly or further down) such a module. A
/// module file that is being entered is not entered again below itself,
/// which is where a recursive search would never return.
pub open spec fn meson_app_in(
    modules: Seq<Module>,
    app_id: Option<Seq<char>>,
    ext: ExternalFiles,
    entered: Set<Seq<char>>,
) -> bool
    decreases unentered(ext, entered), modules,
{
    exists|k: int|
        0 <= k < modules.len() && match #[trigger] modules[k] {
            Module::Detail(d) => (builds_with_meson(d) && main_app_module(d, app_id, modules.len() as int, ext))
                || match d.modules {
                Some(children) => {
                    proof {
                        assert(decreases_to!(modules => modules[k]));
                    }
                    meson_app_in(children@, app_id, ext, entered)
                },
                None => false,
            },
            Module::Path(p) => !entered.contains(p@) && match resolved_module(modules[k], ext) {
                Some(d) => (builds_with_meson(d) && main_app_module(d, app_id, modules.len() as int, ext))
                    || match d.modules {
                    Some(children) => {
                        proof {
                            let hits = indices_where(ext.modules@.len() as int, |i: int| ext.modules@[i].0@ == p@);
                            lemma_indices_where(ext.modules@.len() as int, |i: int| ext.modules@[i].0@ == p@);
                            lemma_entering_decreases(ext, entered, p@, hits[0]);
                        }
                        meson_app_in(children@, app_id, ext, entered.insert(p@))
                    },
                    None => false,
                },
                None => false,
            },
        }
}

/// The id that a `.metainfo.xml` / `.appdata.xml` file name carries, also for
/// a `.in` template: the name without `.in`, `.xml`, `.metainfo` and `.appdata`.
pub open spec fn metainfo_stem(name: Seq<char>) -> Seq<char> {
    strip_suffixes(
        strip_suffixes(strip_suffixes(strip_suffixes(name, ".in"@), ".xml"@), ".metainfo"@),
        ".appdata"@,
    )
}

/// The AppStream file patterns that `find_app_id_from_metainfo` searches for.
pub open spec fn metainfo_id_patterns() -> Seq<Seq<char>> {
    seq![".metainfo.xml"@, ".appdata.xml"@]
}

/// Entry `i` is an AppStream file whose name carries a reverse-DNS id.
pub open spec fn carries_id(ents: Seq<WorkspaceEntry>, i: int) -> bool {
    reached(ents[i], Seq::empty()) && name_matches(name_of(ents[i]), metainfo_id_patterns())
        && count_char(metainfo_stem(name_of(ents[i])), '.') >= 2
}

/// `find_app_id_from_metainfo`.
pub open spec fn app_id_from_metainfo(ents: Seq<WorkspaceEntry>) -> Option<Seq<char>> {
    let hits = indices_where(ents.len() as int, |i: int| carries_id(ents, i));
    if hits.len() == 0 {
        None
    } else {
        Some(metainfo_stem(name_of(ents[hits[0]])))
    }
}

/// The id that one `meson.build` line declares, if it declares one.
pub open spec fn meson_line_id(line: Seq<char>) -> Option<Seq<char>> {
    let t = trim_ws(line);
    if (begins_with(t, "app_id"@) || begins_with(t, "application_id"@)) && split_on(t, '=').len() > 1 {
        let clean = trim_char(trim_char(trim_ws(split_on(t, '=')[1]), '\''), '"');
        if count_char(clean, '.') >= 2 {
            Some(clean)
        } else {
            None
        }
    } else {
        None
    }
}

/// The first id that the lines declare.
pub open spec fn first_line_id(lines: Seq<Seq<char>>) -> Option<Seq<char>>
    decreases lines.len(),
{
    if lines.len() == 0 {
        None
    } else {
        match meson_line_id(lines[0]) {
            Some(id) => Some(id),
            None => first_line_id(lines.drop_first()),
        }
    }
}

/// The id that a `meson.build` file declares, if readable and declaring one.
pub open spec fn file_app_id(content: Option<Seq<char>>) -> Option<Seq<char>> {
    match content {
        Some(c) => first_line_id(lines_of(c)),
        None => None,
    }
}

/// `find_app_id_from_meson`: the root `meson.build`, then `data/meson.build`.
pub open spec fn app_id_from_meson(ents: Seq<WorkspaceEntry>) -> Option<Seq<char>> {
    match file_app_id(content_at(ents, seq!["meson.build"@])) {
        Some(id) => Some(id),
        None => file_app_id(content_at(ents, seq!["data"@, "meson.build"@])),
    }
}

/// `resolve_app_id`: the manifest id, else an AppStream file name, else a
/// `meson.build` declaration, sanitized.
pub open spec fn resolved_app_id(id: Option<Seq<char>>, ents: Seq<WorkspaceEntry>) -> Option<Seq<char>> {
    let raw = match id {
        Some(i) => if i.len() > 0 {
            Some(i)
        } else {
            None
        },
        None => None,
    };
    let found = match raw {
        Some(i) => Some(i),
        None => match app_id_from_metainfo(ents) {
            Some(i) => Some(i),
            None => app_id_from_meson(ents),
        },
    };
    match found {
        Some(i) => Some(sanitized_id(i)),
        None => None,
    }
}

/// `is_likely_manifest` on a file name.
pub open spec fn likely_manifest_name(name: Seq<char>) -> bool {
    let lower = str_lowercase(name);
    (count_char(name, '.') >= 2 || has_substr(lower, "manifest"@)) && !(has_substr(
        lower,
        "snapcraft"@,
    ) || has_substr(lower, "ci"@) || begins_with(lower, "."@))
}

/// The manifest file extensions.
pub open spec fn manifest_patterns() -> Seq<Seq<char>> {
    seq![".json"@, ".yaml"@, ".yml"@]
}

/// The first likely manifest file that a search of `dir` returns.
pub open spec fn likely_manifest_in(ents: Seq<WorkspaceEntry>, dir: Seq<Seq<char>>) -> Option<int> {
    let hits = indices_where(
        ents.len() as int,
        |i: int|
            reached(ents[i], dir) && name_matches(name_of(ents[i]), manifest_patterns())
                && likely_manifest_name(name_of(ents[i])),
    );
    if hits.len() == 0 {
        None
    } else {
        Some(hits[0])
    }
}

/// The subdirectories that `find_manifest_file` searches after the root.
pub open spec fn manifest_subdirs() -> Seq<Seq<Seq<char>>> {
    seq![
        seq!["build-aux"@],
        seq!["flatpak"@],
        seq!["packaging"@],
        seq![".flatpak"@],
        seq!["dist"@],
        seq!["build-aux"@, "flatpak"@],
    ]
}

/// The manifest file that `find_manifest_file` picks, searching the subdirectories
/// from the `k`-th on.
pub open spec fn manifest_in_subdirs(ents: Seq<WorkspaceEntry>, k: int) -> Option<int>
    decreases 6 - k,
{
    if k < 0 || k >= 6 {
        None
    } else {
        let dir = manifest_subdirs()[k];
        let here = if crate::workspace::dir_at(ents, dir) {
            likely_manifest_in(ents, dir)
        } else {
            None
        };
        match here {
            Some(i) => Some(i),
            None => manifest_in_subdirs(ents, k + 1),
        }
    }
}

/// The manifest file that `find_manifest_file` picks.
pub open spec fn manifest_choice(ents: Seq<WorkspaceEntry>) -> Option<int> {
    match likely_manifest_in(ents, Seq::empty()) {
        Some(i) => Some(i),
        None => manifest_in_subdirs(ents, 0),
    }
}


// ---------------------------------------------------------------------------
// Executable functions
// ---------------------------------------------------------------------------

impl Default for FlatpakManifest {
    fn default() -> (m: FlatpakManifest)
        ensures
            m.id is None && m.runtime is None && m.runtime_version is None && m.sdk is None
                && m.command is None && m.buildsystem is None && m.modules is None,
    {
        FlatpakManifest {
            id: None,
            runtime: None,
            runtime_version: None,
            sdk: None,
            command: None,
            buildsystem: None,
            modules: None,
        }
    }
}

impl Module {
    /// Resolves external file paths or returns the inline module details.
    pub fn resolve<'a>(&'a self, ext: &'a ExternalFiles) -> (r: Result<&'a ModuleDetail, ManifestError>)
        ensures
            match r {
                Ok(d) => resolved_module(*self, *ext) == Some(*d),
                Err(_) => resolved_module(*self, *ext) is None,
            },
    {
        match self {
            Module::Detail(detail) => Ok(detail),
            Module::Path(path_str) => {
                let ghost f = |i: int| ext.modules@[i].0@ == path_str@;
                let mut i: usize = 0;
                while i < ext.modules.len()
                    invariant
                        i <= ext.modules.len(),
                        *self == Module::Path(*path_str),
                        f == (|i: int| ext.modules@[i].0@ == path_str@),
                        forall|j: int| 0 <= j < i ==> !#[trigger] f(j),
                    decreases ext.modules.len() - i,
                {
                    if str_eq(ext.modules[i].0.as_str(), path_str.as_str()) {
                        proof {
                            lemma_indices_where_first(ext.modules@.len() as int, f, i as int);
                        }
                        assert(indices_where(ext.modules@.len() as int, |i: int| ext.modules@[i].0@ == path_str@)[0] == i);
                        return match &ext.modules[i].1 {
                            Some(d) => {
                                assert(ext.modules@[i as int].1 == Some(*d));
                                assert(*self == Module::Path(*path_str));
                                assert(resolved_module(*self, *ext) == ext.modules@[i as int].1);
                                Ok(d)
                            },
                            None => Err(ManifestError::ExternalFile(copy_str(path_str.as_str()))),
                        };
                    }
                    i += 1;
                }
                proof {
                    lemma_indices_where_none(ext.modules@.len() as int, f);
                }
                Err(ManifestError::ExternalFile(copy_str(path_str.as_str())))
            },
        }
    }
}

impl Source {
    /// Resolves external file paths or returns the inline source details.
    pub fn resolve<'a>(&'a self, ext: &'a ExternalFiles) -> (r: Result<&'a SourceDetail, ManifestError>)
        ensures
            match r {
                Ok(d) => resolved_source(*self, *ext) == Some(*d),
                Err(_) => resolved_source(*self, *ext) is None,
            },
    {
        match self {
            Source::Detail(detail) => Ok(detail),
            Source::Path(path_str) => {
                let ghost f = |i: int| ext.sources@[i].0@ == path_str@;
                let mut i: usize = 0;
                while i < ext.sources.len()
                    invariant
                        i <= ext.sources.len(),
                        *self == Source::Path(*path_str),
                        f == (|i: int| ext.sources@[i].0@ == path_str@),
                        forall|j: int| 0 <= j < i ==> !#[trigger] f(j),
                    decreases ext.sources.len() - i,
                {
                    if str_eq(ext.sources[i].0.as_str(), path_str.as_str()) {
                        proof {
                            lemma_indices_where_first(ext.sources@.len() as int, f, i as int);
                        }
                        assert(indices_where(ext.sources@.len() as int, |i: int| ext.sources@[i].0@ == path_str@)[0] == i);
                        return match &ext.sources[i].1 {
                            Some(d) => {
                                assert(ext.sources@[i as int].1 == Some(*d));
                                assert(*self == Source::Path(*path_str));
                                assert(resolved_source(*self, *ext) == ext.sources@[i as int].1);
                                Ok(d)
                            },
                            None => Err(ManifestError::ExternalFile(copy_str(path_str.as_str()))),
                        };
                    }
                    i += 1;
                }
                proof {
                    lemma_indices_where_none(ext.sources@.len() as int, f);
                }
                Err(ManifestError::ExternalFile(copy_str(path_str.as_str())))
            },
        }
    }
}

/// The id carried by an AppStream file name.
fn stem_of(name: &str) -> (r: String)
    ensures
        r@ == metainfo_stem(name@),
{
    let t = trim_end_matches(name, ".in");
    let a = trim_end_matches(t.as_str(), ".xml");
    let b = trim_end_matches(a.as_str(), ".metainfo");
    trim_end_matches(b.as_str(), ".appdata")
}

/// The id one `meson.build` line declares.
fn line_app_id(line: &str) -> (r: Option<String>)
    ensures
        opt_view(r) == meson_line_id(line@),
{
    let t = trim(line);
    if starts_with(t.as_str(), "app_id") || starts_with(t.as_str(), "application_id") {
        match second_piece(t.as_str(), '=') {
            Some(val) => {
                let a = trim(val.as_str());
                let b = trim_matches_char(a.as_str(), '\'');
                let clean = trim_matches_char(b.as_str(), '"');
                if count_matches(clean.as_str(), '.') >= 2 {
                    Some(clean)
                } else {
                    None
                }
            },
            None => None,
        }
    } else {
        None
    }
}

/// The first id the lines declare.
fn first_declared_id(ls: &Vec<String>) -> (r: Option<String>)
    ensures
        opt_view(r) == first_line_id(views(ls@)),
{
    let ghost all = views(ls@);
    let mut k: usize = 0;
    assert(all.skip(0) =~= all);
    while k < ls.len()
        invariant
            k <= ls.len(),
            all == views(ls@),
            first_line_id(all) == first_line_id(all.skip(k as int)),
        decreases ls.len() - k,
    {
        assert(all.skip(k as int)[0] == ls@[k as int]@);
        assert(all.skip(k as int).drop_first() =~= all.skip(k + 1));
        match line_app_id(ls[k].as_str()) {
            Some(id) => {
                return Some(id);
            },
            None => {},
        }
        k += 1;
    }
    assert(all.skip(k as int).len() == 0);
    None
}

/// The id that the file at `path` declares.
fn app_id_in_file(ws: &Workspace, path: &Vec<&str>) -> (r: Option<String>)
    ensures
        opt_view(r) == file_app_id(content_at(ws.ents(), path@.map_values(|s: &str| s@))),
{
    match ws.read(path) {
        Some(content) => {
            let ls = lines(content.as_str());
            first_declared_id(&ls)
        },
        None => None,
    }
}

/// Looks for an app id in the `meson.build` files of the workspace root and `data/`.
pub fn find_app_id_from_meson(ws: &Workspace) -> (r: Option<String>)
    ensures
        opt_view(r) == app_id_from_meson(ws.ents()),
{
    let p1 = vec!["meson.build"];
    assert(p1@.map_values(|s: &str| s@) =~= seq!["meson.build"@]);
    match app_id_in_file(ws, &p1) {
        Some(id) => Some(id),
        None => {
            let p2 = vec!["data", "meson.build"];
            assert(p2@.map_values(|s: &str| s@) =~= seq!["data"@, "meson.build"@]);
            app_id_in_file(ws, &p2)
        },
    }
}

/// Looks for an app id in the names of the workspace's AppStream files.
pub fn find_app_id_from_metainfo(ws: &Workspace) -> (r: Option<String>)
    ensures
        opt_view(r) == app_id_from_metainfo(ws.ents()),
{
    let root: Vec<&str> = Vec::new();
    assert(root@.map_values(|s: &str| s@) =~= Seq::<Seq<char>>::empty());
    let pats = vec![".metainfo.xml", ".appdata.xml"];
    assert(pats@.map_values(|s: &str| s@) =~= metainfo_id_patterns());
    let ghost ents = ws.ents();
    let ghost f = |i: int| carries_id(ents, i);
    let mut i: usize = 0;
    while i < ws.entries.len()
        invariant
            i <= ws.entries.len(),
            ents == ws.ents(),
            root@.map_values(|s: &str| s@) == Seq::<Seq<char>>::empty(),
            pats@.map_values(|s: &str| s@) == metainfo_id_patterns(),
            f == (|i: int| carries_id(ents, i)),
            forall|j: int| 0 <= j < i ==> !#[trigger] f(j),
        decreases ws.entries.len() - i,
    {
        let e = &ws.entries[i];
        if is_reached(e, &root) {
            let name = e.path[e.path.len() - 1].as_str();
            if matches_any(name, &pats) {
                let stem = stem_of(name);
                if count_matches(stem.as_str(), '.') >= 2 {
                    proof {
                        lemma_indices_where_first(ents.len() as int, f, i as int);
                    }
                    return Some(stem);
                }
            }
        }
        i += 1;
    }
    proof {
        lemma_indices_where_none(ents.len() as int, f);
    }
    None
}

/// Trims the id and drops one `.Devel` (else `.devel`) suffix.
pub fn sanitize_app_id_str(id: &str) -> (r: String)
    ensures
        r@ == sanitized_id(id@),
{
    let trimmed = trim(id);
    match strip_suffix(trimmed.as_str(), ".Devel") {
        Some(s) => s,
        None => match strip_suffix(trimmed.as_str(), ".devel") {
            Some(s) => s,
            None => trimmed,
        },
    }
}

impl FlatpakManifest {
    pub fn get_app_id(&self) -> (r: Option<&str>)
        ensures
            opt_str_view(r) == opt_view(self.id),
    {
        match &self.id {
            Some(s) => Some(s.as_str()),
            None => None,
        }
    }

    /// Resolves the App ID by prioritizing:
    /// 1. Direct manifest `id` / `app-id` field
    /// 2. Reverse-DNS AppStream metadata files (`*.metainfo.xml`, `*.appdata.xml`)
    /// 3. `app_id` / `application_id` declarations inside `meson.build`
    pub fn resolve_app_id(&self, ws: &Workspace) -> (r: Option<String>)
        ensures
            opt_view(r) == resolved_app_id(opt_view(self.id), ws.ents()),
    {
        let raw = match &self.id {
            Some(i) => if !i.as_str().is_empty() {
                Some(copy_str(i.as_str()))
            } else {
                None
            },
            None => None,
        };
        let found = match raw {
            Some(i) => Some(i),
            None => match find_app_id_from_metainfo(ws) {
                Some(i) => Some(i),
                None => find_app_id_from_meson(ws),
            },
        };
        match found {
            Some(i) => Some(sanitize_app_id_str(i.as_str())),
            None => None,
        }
    }

    /// Records the manifest's `id` in the workspace, where the AppStream file
    /// search (`find_metainfo_file`) looks for `{id}.metainfo.xml`; nothing
    /// else of the workspace changes.
    pub fn attach_id(&self, ws: &mut Workspace)
        ensures
            opt_view(final(ws).manifest_id) == opt_view(self.id),
            final(ws).root == old(ws).root,
            final(ws).entries == old(ws).entries,
            final(ws).git_tags == old(ws).git_tags,
            final(ws).git_remote == old(ws).git_remote,
    {
        ws.manifest_id = copy_opt(&self.id);
    }

    /// Sanitizes the manifest's own `id` in place.
    pub fn sanitize_internal_id(&mut self)
        ensures
            opt_view(final(self).id) == match opt_view(old(self).id) {
                Some(i) => Some(sanitized_id(i)),
                None => None,
            },
            final(self).runtime == old(self).runtime,
            final(self).runtime_version == old(self).runtime_version,
            final(self).sdk == old(self).sdk,
            final(self).command == old(self).command,
            final(self).buildsystem == old(self).buildsystem,
            final(self).modules == old(self).modules,
    {
        let new_id = match &self.id {
            Some(id) => Some(sanitize_app_id_str(id.as_str())),
            None => None,
        };
        self.id = new_id;
    }
}

/// Whether a file name looks like a Flatpak manifest.
pub fn is_likely_manifest(file_name: &str) -> (r: bool)
    ensures
        r == likely_manifest_name(file_name@),
{
    let name_lower = to_lowercase(file_name);
    if count_matches(file_name, '.') >= 2 || contains(name_lower.as_str(), "manifest") {
        if contains(name_lower.as_str(), "snapcraft") || contains(name_lower.as_str(), "ci")
            || starts_with(name_lower.as_str(), ".") {
            return false;
        }
        return true;
    }
    false
}

/// The first likely manifest that a search of `dir` returns.
fn first_likely_manifest(ws: &Workspace, dir: &Vec<&str>) -> (r: Option<usize>)
    ensures
        match r {
            Some(i) => likely_manifest_in(ws.ents(), dir@.map_values(|s: &str| s@)) == Some(i as int),
            None => likely_manifest_in(ws.ents(), dir@.map_values(|s: &str| s@)) is None,
        },
{
    let pats = vec![".json", ".yaml", ".yml"];
    assert(pats@.map_values(|s: &str| s@) =~= manifest_patterns());
    let ghost ents = ws.ents();
    let ghost d = dir@.map_values(|s: &str| s@);
    let ghost f = |i: int|
        reached(ents[i], d) && name_matches(name_of(ents[i]), manifest_patterns())
            && likely_manifest_name(name_of(ents[i]));
    let mut i: usize = 0;
    while i < ws.entries.len()
        invariant
            i <= ws.entries.len(),
            ents == ws.ents(),
            d == dir@.map_values(|s: &str| s@),
            pats@.map_values(|s: &str| s@) == manifest_patterns(),
            f == (|i: int|
                reached(ents[i], d) && name_matches(name_of(ents[i]), manifest_patterns())
                    && likely_manifest_name(name_of(ents[i]))),
            forall|j: int| 0 <= j < i ==> !#[trigger] f(j),
        decreases ws.entries.len() - i,
    {
        let e = &ws.entries[i];
        if is_reached(e, dir) {
            let name = e.path[e.path.len() - 1].as_str();
            if matches_any(name, &pats) && is_likely_manifest(name) {
                proof {
                    lemma_indices_where_first(ents.len() as int, f, i as int);
                }
                return Some(i);
            }
        }
        i += 1;
    }
    proof {
        lemma_indices_where_none(ents.len() as int, f);
    }
    None
}

/// Finds the Flatpak manifest of the workspace (as an entry index): the first
/// likely manifest in the root, else in `build-aux`, `flatpak`, `packaging`,
/// `.flatpak`, `dist` and `build-aux/flatpak`, in that order.
pub fn find_manifest_file(ws: &Workspace) -> (r: Result<usize, ManifestError>)
    ensures
        match r {
            Ok(i) => manifest_choice(ws.ents()) == Some(i as int),
            Err(e) => manifest_choice(ws.ents()) is None && e is NoManifest,
        },
{
    let root: Vec<&str> = Vec::new();
    assert(root@.map_values(|s: &str| s@) =~= Seq::<Seq<char>>::empty());
    if let Some(i) = first_likely_manifest(ws, &root) {
        return Ok(i);
    }
    let subdirs: Vec<Vec<&str>> = vec![
        vec!["build-aux"],
        vec!["flatpak"],
        vec!["packaging"],
        vec![".flatpak"],
        vec!["dist"],
        vec!["build-aux", "flatpak"],
    ];
    assert(subdirs@[0]@.map_values(|s: &str| s@) =~= manifest_subdirs()[0]);
    assert(subdirs@[1]@.map_values(|s: &str| s@) =~= manifest_subdirs()[1]);
    assert(subdirs@[2]@.map_values(|s: &str| s@) =~= manifest_subdirs()[2]);
    assert(subdirs@[3]@.map_values(|s: &str| s@) =~= manifest_subdirs()[3]);
    assert(subdirs@[4]@.map_values(|s: &str| s@) =~= manifest_subdirs()[4]);
    assert(subdirs@[5]@.map_values(|s: &str| s@) =~= manifest_subdirs()[5]);
    let mut k: usize = 0;
    while k < subdirs.len()
        invariant
            subdirs.len() == 6,
            k <= 6,
            forall|j: int| 0 <= j < 6 ==> (#[trigger] subdirs@[j])@.map_values(|s: &str| s@) == manifest_subdirs()[j],
            manifest_choice(ws.ents()) == manifest_in_subdirs(ws.ents(), k as int),
        decreases 6 - k,
    {
        let dir = &subdirs[k];
        if ws.is_dir(dir) {
            if let Some(i) = first_likely_manifest(ws, dir) {
                return Ok(i);
            }
        }
        k += 1;
    }
    Err(ManifestError::NoManifest)
}

/// A source that marks its module as the application itself.
fn marks_app(d: &SourceDetail, id_lower: &Option<String>) -> (r: bool)
    ensures
        r == source_marks_app(*d, opt_view(*id_lower)),
{
    match d {
        SourceDetail::Dir { path } => {
            let p = path.as_str();
            str_eq(p, ".") || str_eq(p, "./") || str_eq(p, "..") || str_eq(p, "../")
        },
        SourceDetail::Archive { url } | SourceDetail::Git { url } => match id_lower {
            Some(id) => {
                let piece = last_piece(id.as_str(), '.');
                let last_segment = to_lowercase(piece.as_str());
                let url_lower = to_lowercase(url.as_str());
                contains(url_lower.as_str(), id.as_str()) || contains(
                    url_lower.as_str(),
                    last_segment.as_str(),
                )
            },
            None => false,
        },
        SourceDetail::Other => false,
    }
}

/// Whether the module is the application's own module: its name is the app id or
/// the id's last segment, a source points at the repository itself, or it is the
/// only module.
pub fn is_main_app_module(
    module: &ModuleDetail,
    app_id: Option<&str>,
    total_modules: usize,
    ext: &ExternalFiles,
) -> (r: bool)
    ensures
        r == main_app_module(*module, opt_str_view(app_id), total_modules as int, *ext),
{
    let id_lower: Option<String> = match app_id {
        Some(s) => Some(to_lowercase(s)),
        None => None,
    };
    let name_lower = to_lowercase(module.name.as_str());
    if let Some(id) = &id_lower {
        let piece = last_piece(id.as_str(), '.');
        let last_segment = to_lowercase(piece.as_str());
        if str_eq(name_lower.as_str(), id.as_str()) || str_eq(name_lower.as_str(), last_segment.as_str()) {
            return true;
        }
    }
    if let Some(sources) = &module.sources {
        let mut k: usize = 0;
        while k < sources.len()
            invariant
                k <= sources.len(),
                module.sources == Some(*sources),
                opt_view(id_lower) == match opt_str_view(app_id) {
                    Some(id) => Some(str_lowercase(id)),
                    None => None,
                },
                forall|j: int|
                    0 <= j < k ==> !(match resolved_source(#[trigger] sources@[j], *ext) {
                        Some(d) => source_marks_app(d, opt_view(id_lower)),
                        None => false,
                    }),
            decreases sources.len() - k,
        {
            match sources[k].resolve(ext) {
                Ok(d) => {
                    if marks_app(d, &id_lower) {
                        return true;
                    }
                },
                Err(_) => {},
            }
            k += 1;
        }
    }
    total_modules == 1
}

/// Whether the module builds with Meson.
fn module_builds_with_meson(d: &ModuleDetail) -> (r: bool)
    ensures
        r == builds_with_meson(*d),
{
    match &d.buildsystem {
        Some(b) => {
            let l = to_lowercase(b.as_str());
            str_eq(l.as_str(), "meson")
        },
        None => {
            let l = to_lowercase("meson");
            str_eq(l.as_str(), "meson")
        },
    }
}

/// The module files entered so far, as a set.
pub open spec fn entered_set(entered: Seq<String>) -> Set<Seq<char>> {
    views(entered).to_set()
}

/// Whether module `m` of a list of `total` is, or holds, a Meson-built main
/// application module (see `meson_app_in`).
fn module_has_meson_app(
    m: &Module,
    total: usize,
    app_id: Option<&str>,
    ext: &ExternalFiles,
    entered: &Vec<String>,
    Ghost(modules): Ghost<Seq<Module>>,
    Ghost(k): Ghost<int>,
) -> (r: bool)
    requires
        0 <= k < modules.len(),
        modules[k] == *m,
        total == modules.len(),
    ensures
        r == match modules[k] {
            Module::Detail(d) => (builds_with_meson(d) && main_app_module(d, opt_str_view(app_id), modules.len() as int, *ext))
                || match d.modules {
                Some(children) => meson_app_in(children@, opt_str_view(app_id), *ext, entered_set(entered@)),
                None => false,
            },
            Module::Path(p) => !entered_set(entered@).contains(p@) && match resolved_module(modules[k], *ext) {
                Some(d) => (builds_with_meson(d) && main_app_module(d, opt_str_view(app_id), modules.len() as int, *ext))
                    || match d.modules {
                    Some(children) => meson_app_in(
                        children@,
                        opt_str_view(app_id),
                        *ext,
                        entered_set(entered@).insert(p@),
                    ),
                    None => false,
                },
                None => false,
            },
        },
    decreases unentered(*ext, entered_set(entered@)), modules, 1nat,
{
    match m {
        Module::Detail(detail) => {
            if module_builds_with_meson(detail) && is_main_app_module(detail, app_id, total, ext) {
                return true;
            }
            match &detail.modules {
                Some(children) => {
                    proof {
                        assert(decreases_to!(modules => modules[k]));
                    }
                    has_meson_app_module_in(children, app_id, ext, entered)
                },
                None => false,
            }
        },
        Module::Path(path) => {
            if crate::text::vec_has(entered, path.as_str()) {
                assert(views(entered@).contains(path@));
                return false;
            }
            assert(!entered_set(entered@).contains(path@)) by {
                if views(entered@).contains(path@) {
                    let j = choose|j: int| 0 <= j < views(entered@).len() && views(entered@)[j] == path@;
                    assert(entered@[j]@ == path@);
                }
            }
            match m.resolve(ext) {
                Ok(detail) => {
                    if module_builds_with_meson(detail) && is_main_app_module(detail, app_id, total, ext) {
                        return true;
                    }
                    match &detail.modules {
                        Some(children) => {
                            let mut deeper: Vec<String> = Vec::new();
                            let mut j: usize = 0;
                            while j < entered.len()
                                invariant
                                    j <= entered.len(),
                                    views(deeper@) == views(entered@).take(j as int),
                                decreases entered.len() - j,
                            {
                                let ghost before = views(deeper@);
                                deeper.push(crate::text::copy_str(entered[j].as_str()));
                                assert(views(deeper@) =~= before.push(entered@[j as int]@));
                                assert(views(entered@).take(j + 1) =~= views(entered@).take(j as int).push(entered@[j as int]@));
                                j += 1;
                            }
                            assert(views(entered@).take(entered.len() as int) =~= views(entered@));
                            let ghost prior = views(deeper@);
                            deeper.push(crate::text::copy_str(path.as_str()));
                            assert(views(deeper@) =~= prior.push(path@));
                            assert(entered_set(deeper@) =~= entered_set(entered@).insert(path@)) by {
                                assert forall|x: Seq<char>| entered_set(deeper@).contains(x) <==> entered_set(entered@).insert(path@).contains(x) by {
                                    if entered_set(deeper@).contains(x) {
                                        let i = choose|i: int| 0 <= i < views(deeper@).len() && views(deeper@)[i] == x;
                                        if i < views(entered@).len() {
                                            assert(views(entered@)[i] == x);
                                        }
                                    }
                                    if entered_set(entered@).contains(x) {
                                        let i = choose|i: int| 0 <= i < views(entered@).len() && views(entered@)[i] == x;
                                        assert(views(deeper@)[i] == x);
                                    }
                                    if x == path@ {
                                        assert(views(deeper@)[views(entered@).len() as int] == x);
                                    }
                                }
                            }
                            proof {
                                let hits = indices_where(ext.modules@.len() as int, |i: int| ext.modules@[i].0@ == path@);
                                lemma_indices_where(ext.modules@.len() as int, |i: int| ext.modules@[i].0@ == path@);
                                lemma_entering_decreases(*ext, entered_set(entered@), path@, hits[0]);
                            }
                            has_meson_app_module_in(children, app_id, ext, &deeper)
                        },
                        None => false,
                    }
                },
                Err(_) => false,
            }
        },
    }
}

/// `has_meson_app_module` with the module files in `entered` already entered.
fn has_meson_app_module_in(
    modules: &Vec<Module>,
    app_id: Option<&str>,
    ext: &ExternalFiles,
    entered: &Vec<String>,
) -> (r: bool)
    ensures
        r == meson_app_in(modules@, opt_str_view(app_id), *ext, entered_set(entered@)),
    decreases unentered(*ext, entered_set(entered@)), modules@, 2nat,
{
    let ghost ms = modules@;
    let ghost id = opt_str_view(app_id);
    let ghost es = entered_set(entered@);
    let mut k: usize = 0;
    while k < modules.len()
        invariant
            k <= modules.len(),
            ms == modules@,
            es == entered_set(entered@),
            id == opt_str_view(app_id),
            forall|j: int| 0 <= j < k ==> !(match #[trigger] ms[j] {
                Module::Detail(d) => (builds_with_meson(d) && main_app_module(d, id, ms.len() as int, *ext))
                    || match d.modules {
                    Some(children) => meson_app_in(children@, id, *ext, es),
                    None => false,
                },
                Module::Path(p) => !es.contains(p@) && match resolved_module(ms[j], *ext) {
                    Some(d) => (builds_with_meson(d) && main_app_module(d, id, ms.len() as int, *ext))
                        || match d.modules {
                        Some(children) => meson_app_in(children@, id, *ext, es.insert(p@)),
                        None => false,
                    },
                    None => false,
                },
            }),
        decreases modules.len() - k,
    {
        if module_has_meson_app(&modules[k], modules.len(), app_id, ext, entered, Ghost(ms), Ghost(k as int)) {
            return true;
        }
        k += 1;
    }
    false
}

/// Whether the modules, or the modules nested in them at any depth, hold a
/// Meson-built main application module.
pub fn has_meson_app_module(modules: &Vec<Module>, app_id: Option<&str>, ext: &ExternalFiles) -> (r: bool)
    ensures
        r == meson_app_in(modules@, opt_str_view(app_id), *ext, Set::empty()),
{
    let entered: Vec<String> = Vec::new();
    assert(entered_set(entered@) =~= Set::<Seq<char>>::empty());
    has_meson_app_module_in(modules, app_id, ext, &entered)
}

/// The root of the workspace holds a `meson.build`.
pub open spec fn has_root_meson(ents: Seq<WorkspaceEntry>) -> bool {
    crate::workspace::exists_at(ents, seq!["meson.build"@])
}

/// The manifest declares Meson as its build system.
pub open spec fn declares_meson(m: FlatpakManifest) -> bool {
    match m.buildsystem {
        Some(bs) => str_lowercase(bs@) == "meson"@,
        None => false,
    }
}

/// The manifest declares Meson, or builds its main module (found with the id
/// `id`) with Meson, or has no modules.
pub open spec fn modules_ok_with_id(
    m: FlatpakManifest,
    id: Option<Seq<char>>,
    ents: Seq<WorkspaceEntry>,
    ext: ExternalFiles,
) -> bool {
    declares_meson(m) || match m.modules {
        Some(ms) => meson_app_in(ms@, resolved_app_id(id, ents), ext, Set::empty()),
        None => true,
    }
}

/// `validate_meson` accepts the manifest (given that the root `meson.build` exists).
pub open spec fn meson_modules_ok(m: FlatpakManifest, ents: Seq<WorkspaceEntry>, ext: ExternalFiles) -> bool {
    modules_ok_with_id(m, opt_view(m.id), ents, ext)
}

impl FlatpakManifest {
    /// Checks that the workspace is a Meson project and that the manifest builds
    /// its main application module with Meson.
    pub fn validate_meson(&self, ws: &Workspace, ext: &ExternalFiles) -> (r: Result<(), ManifestError>)
        ensures
            match r {
                Ok(()) => has_root_meson(ws.ents()) && meson_modules_ok(*self, ws.ents(), *ext),
                Err(ManifestError::MissingMesonBuild) => !has_root_meson(ws.ents()),
                Err(ManifestError::NoMesonModule) => has_root_meson(ws.ents()) && !meson_modules_ok(
                    *self,
                    ws.ents(),
                    *ext,
                ),
                Err(_) => false,
            },
    {
        let p = vec!["meson.build"];
        assert(p@.map_values(|s: &str| s@) =~= seq!["meson.build"@]);
        if !ws.path_exists(&p) {
            return Err(ManifestError::MissingMesonBuild);
        }
        if let Some(bs) = &self.buildsystem {
            let l = to_lowercase(bs.as_str());
            if str_eq(l.as_str(), "meson") {
                return Ok(());
            }
        }
        match &self.modules {
            Some(modules) => {
                let resolved_id = self.resolve_app_id(ws);
                let id_ref: Option<&str> = match &resolved_id {
                    Some(s) => Some(s.as_str()),
                    None => None,
                };
                assert(opt_str_view(id_ref) == opt_view(resolved_id));
                if has_meson_app_module(modules, id_ref, ext) {
                    Ok(())
                } else {
                    Err(ManifestError::NoMesonModule)
                }
            },
            None => Ok(()),
        }
    }
}


/// The id a sanitized optional id becomes.
pub open spec fn sanitized_opt(id: Option<Seq<char>>) -> Option<Seq<char>> {
    match id {
        Some(i) => Some(sanitized_id(i)),
        None => None,
    }
}

/// What `serde_norway` reads as the top-level `name` string of a YAML
/// document, when the text parses and holds a string there.
pub uninterp spec fn yaml_name(text: Seq<char>) -> Option<Seq<char>>;

/// Reads the top-level `name` of a YAML document: `serde_norway::from_str`
/// into a `serde_json::Value`, indexing (which yields `Null` where the key is
/// missing) and `Value::as_str`. The contract names the result.
#[verifier::external_body]
fn yaml_top_level_name(text: &str) -> (r: Option<String>)
    ensures
        opt_view(r) == yaml_name(text@),
{
    let val: serde_json::Value = match serde_norway::from_str(text) {
        Ok(v) => v,
        Err(_) => return None,
    };
    val["name"].as_str().map(String::from)
}

/// The `name` that `snap/snapcraft.yaml` declares, if the file parses.
pub open spec fn snap_name(ents: Seq<WorkspaceEntry>) -> Option<Seq<char>> {
    match content_at(ents, seq!["snap"@, "snapcraft.yaml"@]) {
        Some(c) => yaml_name(c),
        None => None,
    }
}

/// The `name` of the workspace's `snap/snapcraft.yaml`.
fn snapcraft_name(ws: &Workspace) -> (r: Option<String>)
    ensures
        opt_view(r) == snap_name(ws.ents()),
{
    let p = vec!["snap", "snapcraft.yaml"];
    assert(p@.map_values(|s: &str| s@) =~= seq!["snap"@, "snapcraft.yaml"@]);
    match ws.read(&p) {
        Some(content) => yaml_top_level_name(content.as_str()),
        None => None,
    }
}

impl FlatpakManifest {
    /// Finishes loading the workspace's manifest. `parsed` is the manifest that
    /// `find_manifest_file` located, as parsed from JSON or YAML, or `None` when the
    /// workspace holds no manifest. Without a manifest file a synthetic one is
    /// built: the resolved app id, the `meson` build system and the `name` of
    /// `snap/snapcraft.yaml` as the command. The id is sanitized and the Meson checks run.
    pub fn load_from_workspace(
        ws: &Workspace,
        parsed: Option<FlatpakManifest>,
        ext: &ExternalFiles,
    ) -> (r: Result<FlatpakManifest, ManifestError>)
        ensures
            match parsed {
                Some(p) => match r {
                    Ok(m) => {
                        &&& opt_view(m.id) == sanitized_opt(opt_view(p.id))
                        &&& m.runtime == p.runtime && m.runtime_version == p.runtime_version
                        &&& m.sdk == p.sdk && m.command == p.command
                        &&& m.buildsystem == p.buildsystem && m.modules == p.modules
                        &&& has_root_meson(ws.ents()) && meson_modules_ok(m, ws.ents(), *ext)
                    },
                    Err(ManifestError::MissingMesonBuild) => !has_root_meson(ws.ents()),
                    Err(ManifestError::NoMesonModule) => has_root_meson(ws.ents()) && !modules_ok_with_id(
                        p,
                        sanitized_opt(opt_view(p.id)),
                        ws.ents(),
                        *ext,
                    ),
                    Err(_) => false,
                },
                None => match r {
                    Ok(m) => {
                        &&& opt_view(m.id) == sanitized_opt(resolved_app_id(None, ws.ents()))
                        &&& opt_view(m.buildsystem) == Some("meson"@)
                        &&& opt_view(m.command) == snap_name(ws.ents())
                        &&& m.runtime is None && m.runtime_version is None && m.sdk is None
                        &&& m.modules is None
                        &&& has_root_meson(ws.ents())
                    },
                    Err(ManifestError::MissingMesonBuild) => !has_root_meson(ws.ents()),
                    Err(_) => false,
                },
            },
    {
        let mut manifest = match parsed {
            Some(m) => m,
            None => {
                let mut synthetic = FlatpakManifest::default();
                synthetic.id = synthetic.resolve_app_id(ws);
                synthetic.buildsystem = Some(copy_str("meson"));
                if synthetic.command.is_none() {
                    synthetic.command = snapcraft_name(ws);
                }
                synthetic
            },
        };
        manifest.sanitize_internal_id();
        match manifest.validate_meson(ws, ext) {
            Ok(()) => Ok(manifest),
            Err(e) => Err(e),
        }
    }
}

}
