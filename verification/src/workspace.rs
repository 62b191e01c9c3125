//! A snapshot of a repository checkout: every entry below the root with its
//! contents, and the file searches that the spec generator runs over it.
use vstd::prelude::*;
use crate::pattern::{group, group_at, groups_view, regex_compiles, regex_match_groups, Pattern};
use crate::text::{trim, trim_ws, opt_view,
    chars_of, concat2, contains, copy_str, ends_with, finishes_with, has_substr, join,
    join_with, sorted_insert, str_eq, str_lowercase, strictly_sorted, strip_suffix, to_lowercase,
    views, without_suffix,
};

verus! {

/// One file or directory of a checkout.
pub struct WorkspaceEntry {
    /// Path components relative to the workspace root.
    pub path: Vec<String>,
    /// Whether the entry is a directory (following symbolic links).
    pub is_dir: bool,
    /// The file's text, when it is a readable UTF-8 file.
    pub content: Option<String>,
}

/// What the generator knows of a checkout.
///
/// `entries` lists every entry below `root` in depth-first pre-order, each
/// directory's entries in the order the directory listing gave them; the
/// contents of `.git` are not listed.
pub struct Workspace {
    /// The workspace directory as given.
    pub root: String,
    pub entries: Vec<WorkspaceEntry>,
    /// The `id` of the Flatpak manifest that loads from this workspace, if one does.
    pub manifest_id: Option<String>,
    /// Output of `git tag -l --sort=-v:refname` when that command succeeded.
    pub git_tags: Option<String>,
    /// Output of `git remote get-url origin` when that command succeeded.
    pub git_remote: Option<String>,
}

/// The systemd units that a checkout ships.
#[derive(Debug, Clone)]
pub struct SystemdUnits {
    pub has_user: bool,
    pub has_system: bool,
    pub unit_names: Vec<String>,
}

// ---------------------------------------------------------------------------
// Spec model
// ---------------------------------------------------------------------------

/// The indices `i < n` at which `f` holds, in increasing order.
pub open spec fn indices_where(n: int, f: spec_fn(int) -> bool) -> Seq<int>
    decreases n,
{
    if n <= 0 {
        Seq::<int>::empty()
    } else {
        let r = indices_where(n - 1, f);
        if f(n - 1) {
            r.push(n - 1)
        } else {
            r
        }
    }
}

/// Facts about `indices_where`: its members are the indices below `n` where `f`
/// holds, in strictly increasing order.
pub proof fn lemma_indices_where(n: int, f: spec_fn(int) -> bool)
    ensures
        forall|k: int|
            0 <= k < indices_where(n, f).len() ==> 0 <= #[trigger] indices_where(n, f)[k] < n && f(
                indices_where(n, f)[k],
            ),
        forall|a: int, b: int|
            0 <= a < b < indices_where(n, f).len() ==> #[trigger] indices_where(n, f)[a]
                < #[trigger] indices_where(n, f)[b],
        forall|i: int| 0 <= i < n && f(i) ==> #[trigger] indices_where(n, f).contains(i),
    decreases n,
{
    if n > 0 {
        lemma_indices_where(n - 1, f);
        let r = indices_where(n - 1, f);
        let r2 = indices_where(n, f);
        assert forall|i: int| 0 <= i < n && f(i) implies #[trigger] r2.contains(i) by {
            if i < n - 1 {
                assert(r.contains(i));
                let k = choose|k: int| 0 <= k < r.len() && r[k] == i;
                assert(r2[k] == i);
            } else {
                assert(r2[r.len() as int] == i);
            }
        }
    }
}

/// An existential over `0..i+1` splits into one over `0..i` and the case `i`.
pub proof fn lemma_exists_upto(f: spec_fn(int) -> bool, i: int)
    requires
        0 <= i,
    ensures
        (exists|j: int| 0 <= j < i + 1 && #[trigger] f(j)) == ((exists|j: int|
            0 <= j < i && #[trigger] f(j)) || f(i)),
{
    if exists|j: int| 0 <= j < i + 1 && #[trigger] f(j) {
        let j = choose|j: int| 0 <= j < i + 1 && #[trigger] f(j);
        if j < i {
        }
    }
    if f(i) {
        assert(0 <= i < i + 1 && f(i));
    }
    if exists|j: int| 0 <= j < i && #[trigger] f(j) {
        let j = choose|j: int| 0 <= j < i && #[trigger] f(j);
        assert(0 <= j < i + 1 && f(j));
    }
}

/// When `f` holds at `i` and nowhere before it, `indices_where(n, f)` starts with `i`.
pub proof fn lemma_indices_where_first(n: int, f: spec_fn(int) -> bool, i: int)
    requires
        0 <= i < n,
        f(i),
        forall|j: int| 0 <= j < i ==> !#[trigger] f(j),
    ensures
        indices_where(n, f).len() > 0,
        indices_where(n, f)[0] == i,
{
    lemma_indices_where(n, f);
    let r = indices_where(n, f);
    assert(r.contains(i));
    let k = choose|k: int| 0 <= k < r.len() && r[k] == i;
    if k > 0 {
        assert(r[0] < r[k]);
        assert(f(r[0]));
    }
}

/// When `f` holds nowhere below `n`, `indices_where(n, f)` is empty.
pub proof fn lemma_indices_where_none(n: int, f: spec_fn(int) -> bool)
    requires
        forall|j: int| 0 <= j < n ==> !#[trigger] f(j),
    ensures
        indices_where(n, f).len() == 0,
{
    lemma_indices_where(n, f);
    let r = indices_where(n, f);
    if r.len() > 0 {
        assert(f(r[0]));
    }
}

/// The path components of an entry.
pub open spec fn comps(e: WorkspaceEntry) -> Seq<Seq<char>> {
    views(e.path@)
}

/// The file name of an entry (its last component).
pub open spec fn name_of(e: WorkspaceEntry) -> Seq<char> {
    comps(e).last()
}

/// A component that the repository searches never enter: hidden names,
/// Meson subprojects, build outputs and vendor trees.
pub open spec fn skipped(c: Seq<char>) -> bool {
    (c.len() > 0 && c[0] == '.') || c == "subprojects"@ || c == "build"@ || c == "_build"@
        || c == "vendor"@
}

/// A component that the subproject scan never enters: hidden names and build outputs.
pub open spec fn skipped_in_subprojects(c: Seq<char>) -> bool {
    (c.len() > 0 && c[0] == '.') || c == "build"@ || c == "_build"@
}

/// `e` lies strictly below the directory `dir`.
pub open spec fn below(e: WorkspaceEntry, dir: Seq<Seq<char>>) -> bool {
    comps(e).len() > dir.len() && comps(e).take(dir.len() as int) == dir
}

/// `e` is a file that a recursive search of `dir` reaches.
pub open spec fn reached(e: WorkspaceEntry, dir: Seq<Seq<char>>) -> bool {
    &&& below(e, dir)
    &&& !e.is_dir
    &&& forall|k: int| dir.len() <= k < comps(e).len() ==> !skipped(#[trigger] comps(e)[k])
}

/// The lower-cased file name contains one of the lower-cased patterns.
pub open spec fn name_matches(name: Seq<char>, patterns: Seq<Seq<char>>) -> bool {
    exists|k: int|
        0 <= k < patterns.len() && has_substr(
            str_lowercase(name),
            str_lowercase(#[trigger] patterns[k]),
        )
}

/// The entries that `find_matching_files(dir, patterns)` returns, in order.
pub open spec fn matching_files(
    entries: Seq<WorkspaceEntry>,
    dir: Seq<Seq<char>>,
    patterns: Seq<Seq<char>>,
) -> Seq<int> {
    indices_where(
        entries.len() as int,
        |i: int| reached(entries[i], dir) && name_matches(name_of(entries[i]), patterns),
    )
}

/// A file name that `check_file_extension(_, ext)` accepts.
pub open spec fn has_extension(name: Seq<char>, ext: Seq<char>) -> bool {
    finishes_with(name, ext) || finishes_with(name, ext + ".in"@) || has_substr(name, ext)
}

/// Some file that a search of `dir` reaches has the extension `ext`.
pub open spec fn any_with_extension(entries: Seq<WorkspaceEntry>, dir: Seq<Seq<char>>, ext: Seq<char>) -> bool {
    exists|i: int|
        0 <= i < entries.len() && reached(#[trigger] entries[i], dir) && has_extension(
            name_of(entries[i]),
            ext,
        )
}

/// Some entry sits exactly at `path`.
pub open spec fn exists_at(entries: Seq<WorkspaceEntry>, path: Seq<Seq<char>>) -> bool {
    exists|i: int| 0 <= i < entries.len() && comps(#[trigger] entries[i]) == path
}

/// A directory sits exactly at `path`.
pub open spec fn dir_at(entries: Seq<WorkspaceEntry>, path: Seq<Seq<char>>) -> bool {
    exists|i: int| 0 <= i < entries.len() && comps(#[trigger] entries[i]) == path && entries[i].is_dir
}

/// The text of the first entry at `path`, as `fs::read_to_string` reads it.
pub open spec fn content_at(entries: Seq<WorkspaceEntry>, path: Seq<Seq<char>>) -> Option<Seq<char>> {
    let hits = indices_where(entries.len() as int, |i: int| comps(entries[i]) == path);
    if hits.len() == 0 {
        None
    } else {
        match entries[hits[0]].content {
            Some(c) => Some(c@),
            None => None,
        }
    }
}

/// The absolute path text of an entry, as `Path::join` writes it.
pub open spec fn full_path(root: Seq<char>, e: WorkspaceEntry) -> Seq<char> {
    (if finishes_with(root, "/"@) {
        root
    } else {
        root + "/"@
    }) + join_with(comps(e), "/"@)
}

/// The patterns that name a systemd unit file.
pub open spec fn unit_patterns() -> Seq<Seq<char>> {
    seq![".service"@, ".socket"@, ".timer"@, ".path"@, ".target"@]
}

/// How a candidate unit file counts.
pub enum UnitScope {
    Ignored,
    User,
    System,
}

/// The scope of the candidate unit file `e` (whose lower-cased full path is `p`).
pub open spec fn unit_scope(p: Seq<char>, e: WorkspaceEntry) -> UnitScope {
    if has_substr(p, "dbus-1"@) || has_substr(p, "dbus-services"@) {
        UnitScope::Ignored
    } else {
        match e.content {
            Some(c) => if has_substr(c@, "[D-BUS Service]"@) {
                UnitScope::Ignored
            } else if has_substr(p, "/user/"@) || has_substr(p, "user-"@) {
                UnitScope::User
            } else if has_substr(p, "/system/"@) || has_substr(c@, "WantedBy=multi-user.target"@)
                || has_substr(c@, "User=root"@) {
                UnitScope::System
            } else {
                UnitScope::User
            },
            None => UnitScope::User,
        }
    }
}

/// The file name of a unit without a trailing `.in`.
pub open spec fn clean_unit_name(name: Seq<char>) -> Seq<char> {
    match without_suffix(name, ".in"@) {
        Some(n) => n,
        None => name,
    }
}

impl Workspace {
    /// The entries as a sequence.
    pub open spec fn ents(&self) -> Seq<WorkspaceEntry> {
        self.entries@
    }

    /// The entries that a search of the workspace root for `patterns` returns.
    pub open spec fn matches(&self, patterns: Seq<Seq<char>>) -> Seq<int> {
        matching_files(self.ents(), Seq::empty(), patterns)
    }

    /// The scope of the entry `i` as a unit file.
    pub open spec fn scope_of(&self, i: int) -> UnitScope {
        unit_scope(str_lowercase(full_path(self.root@, self.ents()[i])), self.ents()[i])
    }

    /// The AppStream file that `find_metainfo_file` picks, as an entry index.
    pub open spec fn metainfo_choice(&self) -> Option<int> {
        let specific = match self.manifest_id {
            Some(id) => self.matches(seq![id@ + ".metainfo.xml"@, id@ + ".appdata.xml"@]),
            None => Seq::<int>::empty(),
        };
        let generic = self.matches(seq!["metainfo.xml"@, "appdata.xml"@]);
        if specific.len() > 0 {
            Some(specific[0])
        } else if generic.len() > 0 {
            Some(generic[0])
        } else {
            None
        }
    }

    /// The entry `i` is a unit file that counts.
    pub open spec fn is_counted_unit(&self, i: int) -> bool {
        &&& 0 <= i < self.ents().len()
        &&& reached(self.ents()[i], Seq::empty())
        &&& name_matches(name_of(self.ents()[i]), unit_patterns())
        &&& !(self.scope_of(i) is Ignored)
    }

    /// The clean names of the unit files that count.
    pub open spec fn unit_name_set(&self) -> Set<Seq<char>> {
        Set::new(|n: Seq<char>| exists|i: int| self.is_counted_unit(i) && clean_unit_name(name_of(self.ents()[i])) == n)
    }
}

// ---------------------------------------------------------------------------
// Searches
// ---------------------------------------------------------------------------

fn is_skipped(c: &str) -> (r: bool)
    ensures
        r == skipped(c@),
{
    let v = chars_of(c);
    (v.len() > 0 && v[0] == '.') || str_eq(c, "subprojects") || str_eq(c, "build") || str_eq(
        c,
        "_build",
    ) || str_eq(c, "vendor")
}

/// `e` lies below `dir` and every component after `dir` can be entered.
pub fn is_reached(e: &WorkspaceEntry, dir: &Vec<&str>) -> (r: bool)
    ensures
        r == reached(*e, dir@.map_values(|s: &str| s@)),
{
    let ghost d = dir@.map_values(|s: &str| s@);
    if e.is_dir || e.path.len() <= dir.len() {
        return false;
    }
    let mut k: usize = 0;
    while k < dir.len()
        invariant
            dir.len() < e.path.len(),
            d == dir@.map_values(|s: &str| s@),
            k <= dir.len(),
            forall|j: int| 0 <= j < k ==> comps(*e)[j] == d[j],
        decreases dir.len() - k,
    {
        if !str_eq(e.path[k].as_str(), dir[k]) {
            assert(comps(*e)[k as int] == e.path@[k as int]@);
            assert(comps(*e).take(d.len() as int)[k as int] != d[k as int]);
            return false;
        }
        assert(comps(*e)[k as int] == e.path@[k as int]@);
        k += 1;
    }
    assert(comps(*e).take(d.len() as int) =~= d);
    let mut j: usize = dir.len();
    while j < e.path.len()
        invariant
            dir.len() <= j <= e.path.len(),
            d.len() == dir.len(),
            forall|m: int| d.len() <= m < j ==> !skipped(#[trigger] comps(*e)[m]),
        decreases e.path.len() - j,
    {
        if is_skipped(e.path[j].as_str()) {
            assert(comps(*e)[j as int] == e.path@[j as int]@);
            assert(skipped(comps(*e)[j as int]));
            return false;
        }
        j += 1;
    }
    true
}

/// The lower-cased `name` contains one of the lower-cased `patterns`.
pub fn matches_any(name: &str, patterns: &Vec<&str>) -> (r: bool)
    ensures
        r == name_matches(name@, patterns@.map_values(|s: &str| s@)),
{
    let lower = to_lowercase(name);
    let ghost ps = patterns@.map_values(|s: &str| s@);
    let mut k: usize = 0;
    while k < patterns.len()
        invariant
            k <= patterns.len(),
            ps == patterns@.map_values(|s: &str| s@),
            lower@ == str_lowercase(name@),
            forall|j: int| 0 <= j < k ==> !has_substr(str_lowercase(name@), str_lowercase(#[trigger] ps[j])),
        decreases patterns.len() - k,
    {
        let lp = to_lowercase(patterns[k]);
        if contains(lower.as_str(), lp.as_str()) {
            assert(has_substr(str_lowercase(name@), str_lowercase(ps[k as int])));
            return true;
        }
        k += 1;
    }
    false
}

/// The entry `e` sits exactly at `path`.
pub fn same_path(e: &WorkspaceEntry, path: &Vec<&str>) -> (r: bool)
    ensures
        r == (comps(*e) == path@.map_values(|s: &str| s@)),
{
    let ghost p = path@.map_values(|s: &str| s@);
    if e.path.len() != path.len() {
        assert(comps(*e).len() != p.len());
        return false;
    }
    let mut k: usize = 0;
    while k < path.len()
        invariant
            e.path.len() == path.len(),
            k <= path.len(),
            p == path@.map_values(|s: &str| s@),
            forall|j: int| 0 <= j < k ==> comps(*e)[j] == p[j],
        decreases path.len() - k,
    {
        assert(comps(*e)[k as int] == e.path@[k as int]@);
        if !str_eq(e.path[k].as_str(), path[k]) {
            assert(comps(*e)[k as int] != p[k as int]);
            return false;
        }
        k += 1;
    }
    assert(comps(*e) =~= p);
    true
}

impl Workspace {
    /// The index of the entry sitting exactly at `path`, if any.
    pub fn entry_at(&self, path: &Vec<&str>) -> (r: Option<usize>)
        ensures
            match r {
                Some(i) => i < self.ents().len() && comps(self.ents()[i as int])
                    == path@.map_values(|s: &str| s@),
                None => !exists_at(self.ents(), path@.map_values(|s: &str| s@)),
            },
    {
        let ghost p = path@.map_values(|s: &str| s@);
        let mut i: usize = 0;
        while i < self.entries.len()
            invariant
                i <= self.entries.len(),
                p == path@.map_values(|s: &str| s@),
                forall|j: int| 0 <= j < i ==> comps(#[trigger] self.ents()[j]) != p,
            decreases self.entries.len() - i,
        {
            let e = &self.entries[i];
            if same_path(e, path) {
                    return Some(i);
            }
            i += 1;
        }
        None
    }

    /// Whether an entry exists at `path` (`Path::exists`).
    pub fn path_exists(&self, path: &Vec<&str>) -> (r: bool)
        ensures
            r == exists_at(self.ents(), path@.map_values(|s: &str| s@)),
    {
        self.entry_at(path).is_some()
    }

    /// Whether a directory exists at `path` (`Path::is_dir`).
    pub fn is_dir(&self, path: &Vec<&str>) -> (r: bool)
        ensures
            r == dir_at(self.ents(), path@.map_values(|s: &str| s@)),
    {
        let ghost p = path@.map_values(|s: &str| s@);
        let mut i: usize = 0;
        while i < self.entries.len()
            invariant
                i <= self.entries.len(),
                p == path@.map_values(|s: &str| s@),
                forall|j: int| 0 <= j < i ==> !(comps(#[trigger] self.ents()[j]) == p && self.ents()[j].is_dir),
            decreases self.entries.len() - i,
        {
            if self.entries[i].is_dir {
                let e = &self.entries[i];
                if same_path(e, path) {
                        return true;
            }
            }
            i += 1;
        }
        false
    }

    /// The text of the file at `path` (`fs::read_to_string`), if readable.
    pub fn read(&self, path: &Vec<&str>) -> (r: Option<String>)
        ensures
            match r {
                Some(t) => content_at(self.ents(), path@.map_values(|s: &str| s@)) == Some(t@),
                None => content_at(self.ents(), path@.map_values(|s: &str| s@)) is None,
            },
    {
        let ghost p = path@.map_values(|s: &str| s@);
        let ghost f = |i: int| comps(self.ents()[i]) == p;
        let mut i: usize = 0;
        while i < self.entries.len()
            invariant
                i <= self.entries.len(),
                p == path@.map_values(|s: &str| s@),
                f == (|i: int| comps(self.ents()[i]) == p),
                forall|j: int| 0 <= j < i ==> comps(#[trigger] self.ents()[j]) != p,
            decreases self.entries.len() - i,
        {
            let e = &self.entries[i];
            if same_path(e, path) {
                proof {
                    lemma_indices_where_first(self.ents().len() as int, f, i as int);
                }
                return match &e.content {
                    Some(t) => Some(copy_str(t.as_str())),
                    None => None,
                };
            }
            i += 1;
        }
        proof {
            lemma_indices_where_none(self.ents().len() as int, f);
        }
        None
    }
}

/// Recursively finds all files below `dir` whose lower-cased name contains one of
/// the lower-cased `patterns`, ignoring hidden folders, Meson subprojects, build
/// outputs, and vendor trees. Returns entry indices in search order.
pub fn find_matching_files(ws: &Workspace, dir: &Vec<&str>, patterns: &Vec<&str>) -> (r: Vec<usize>)
    ensures
        r@.map_values(|i: usize| i as int) == matching_files(
            ws.ents(),
            dir@.map_values(|s: &str| s@),
            patterns@.map_values(|s: &str| s@),
        ),
{
    let ghost d = dir@.map_values(|s: &str| s@);
    let ghost ps = patterns@.map_values(|s: &str| s@);
    let ghost f = |i: int| reached(ws.ents()[i], d) && name_matches(name_of(ws.ents()[i]), ps);
    let mut out: Vec<usize> = Vec::new();
    let mut i: usize = 0;
    while i < ws.entries.len()
        invariant
            i <= ws.entries.len(),
            d == dir@.map_values(|s: &str| s@),
            ps == patterns@.map_values(|s: &str| s@),
            f == (|i: int| reached(ws.ents()[i], d) && name_matches(name_of(ws.ents()[i]), ps)),
            out@.map_values(|i: usize| i as int) == indices_where(i as int, f),
        decreases ws.entries.len() - i,
    {
        let e = &ws.entries[i];
        let ghost before = out@.map_values(|i: usize| i as int);
        if is_reached(e, dir) && matches_any(e.path[e.path.len() - 1].as_str(), patterns) {
            out.push(i);
            assert(out@.map_values(|i: usize| i as int) =~= before.push(i as int));
        }
        i += 1;
    }
    out
}

/// Recursively searches `dir` for a file whose name ends with `ext` or `ext.in`,
/// or contains `ext`, ignoring subprojects, build directories, and hidden files.
pub fn check_file_extension(ws: &Workspace, dir: &Vec<&str>, ext: &str) -> (r: bool)
    ensures
        r == any_with_extension(ws.ents(), dir@.map_values(|s: &str| s@), ext@),
{
    let ghost d = dir@.map_values(|s: &str| s@);
    let ext_in = concat2(ext, ".in");
    let mut i: usize = 0;
    while i < ws.entries.len()
        invariant
            i <= ws.entries.len(),
            d == dir@.map_values(|s: &str| s@),
            ext_in@ == ext@ + ".in"@,
            forall|j: int|
                0 <= j < i ==> !(reached(#[trigger] ws.ents()[j], d) && has_extension(
                    name_of(ws.ents()[j]),
                    ext@,
                )),
        decreases ws.entries.len() - i,
    {
        let e = &ws.entries[i];
        if is_reached(e, dir) {
            let name = e.path[e.path.len() - 1].as_str();
            if ends_with(name, ext) || ends_with(name, ext_in.as_str()) || contains(name, ext) {
                assert(reached(ws.ents()[i as int], d));
                return true;
            }
        }
        i += 1;
    }
    false
}

/// Checks if the workspace contains desktop files or templates (.desktop / .desktop.in).
pub fn has_desktop_file(ws: &Workspace) -> (r: bool)
    ensures
        r == any_with_extension(ws.ents(), Seq::empty(), ".desktop"@),
{
    let root: Vec<&str> = Vec::new();
    assert(root@.map_values(|s: &str| s@) =~= Seq::<Seq<char>>::empty());
    check_file_extension(ws, &root, ".desktop")
}

/// A search of the workspace root.
pub fn find_in_root(ws: &Workspace, patterns: &Vec<&str>) -> (r: Vec<usize>)
    ensures
        r@.map_values(|i: usize| i as int) == ws.matches(patterns@.map_values(|s: &str| s@)),
{
    let root: Vec<&str> = Vec::new();
    assert(root@.map_values(|s: &str| s@) =~= Seq::<Seq<char>>::empty());
    find_matching_files(ws, &root, patterns)
}

/// Finds the primary AppStream/MetaInfo XML file of the workspace, as an entry
/// index: `{id}.metainfo.xml` or `{id}.appdata.xml` for the manifest's `id` when
/// there is one, else the first `metainfo.xml` / `appdata.xml` file.
pub fn find_metainfo_file(ws: &Workspace) -> (r: Option<usize>)
    ensures
        match r {
            Some(i) => ws.metainfo_choice() == Some(i as int) && i < ws.ents().len(),
            None => ws.metainfo_choice() is None,
        },
{
    if let Some(id) = &ws.manifest_id {
        let p1 = concat2(id.as_str(), ".metainfo.xml");
        let p2 = concat2(id.as_str(), ".appdata.xml");
        let pats = vec![p1.as_str(), p2.as_str()];
        assert(pats@.map_values(|s: &str| s@) =~= seq![id@ + ".metainfo.xml"@, id@ + ".appdata.xml"@]);
        let found = find_in_root(ws, &pats);
        if found.len() > 0 {
            assert(found@.map_values(|i: usize| i as int)[0] == found@[0] as int);
            proof {
                lemma_indices_where(
                    ws.ents().len() as int,
                    |i: int| reached(ws.ents()[i], Seq::empty()) && name_matches(name_of(ws.ents()[i]), seq![id@ + ".metainfo.xml"@, id@ + ".appdata.xml"@]),
                );
            }
            return Some(found[0]);
        }
    }
    let pats = vec!["metainfo.xml", "appdata.xml"];
    assert(pats@.map_values(|s: &str| s@) =~= seq!["metainfo.xml"@, "appdata.xml"@]);
    let found = find_in_root(ws, &pats);
    if found.len() > 0 {
        assert(found@.map_values(|i: usize| i as int)[0] == found@[0] as int);
        proof {
            lemma_indices_where(
                ws.ents().len() as int,
                |i: int| reached(ws.ents()[i], Seq::empty()) && name_matches(name_of(ws.ents()[i]), seq!["metainfo.xml"@, "appdata.xml"@]),
            );
        }
        Some(found[0])
    } else {
        None
    }
}

/// Convenience check returning bool.
pub fn has_metainfo_file(ws: &Workspace) -> (r: bool)
    ensures
        r == ws.metainfo_choice() is Some,
{
    find_metainfo_file(ws).is_some()
}

/// The absolute path text of the entry `i`.
pub fn entry_full_path(ws: &Workspace, i: usize) -> (r: String)
    requires
        i < ws.ents().len(),
    ensures
        r@ == full_path(ws.root@, ws.ents()[i as int]),
{
    let base = if ends_with(ws.root.as_str(), "/") {
        copy_str(ws.root.as_str())
    } else {
        concat2(ws.root.as_str(), "/")
    };
    let rel = join(&ws.entries[i].path, "/");
    concat2(base.as_str(), rel.as_str())
}

fn scope_of_entry(ws: &Workspace, i: usize) -> (r: UnitScope)
    requires
        i < ws.ents().len(),
    ensures
        r == ws.scope_of(i as int),
{
    let full = entry_full_path(ws, i);
    let p = to_lowercase(full.as_str());
    let ps = p.as_str();
    if contains(ps, "dbus-1") || contains(ps, "dbus-services") {
        return UnitScope::Ignored;
    }
    match &ws.entries[i].content {
        Some(c) => {
            let cs = c.as_str();
            if contains(cs, "[D-BUS Service]") {
                UnitScope::Ignored
            } else if contains(ps, "/user/") || contains(ps, "user-") {
                UnitScope::User
            } else if contains(ps, "/system/") || contains(cs, "WantedBy=multi-user.target")
                || contains(cs, "User=root") {
                UnitScope::System
            } else {
                UnitScope::User
            }
        },
        None => UnitScope::User,
    }
}

/// Detects real systemd unit files in the workspace (ignoring D-Bus service files),
/// and extracts both their scope (User/System) and their clean filenames, sorted
/// and without repeats.
pub fn detect_systemd_units(ws: &Workspace) -> (u: SystemdUnits)
    ensures
        u.has_user == exists|i: int| ws.is_counted_unit(i) && ws.scope_of(i) is User,
        u.has_system == exists|i: int| ws.is_counted_unit(i) && ws.scope_of(i) is System,
        strictly_sorted(views(u.unit_names@)),
        views(u.unit_names@).to_set() == ws.unit_name_set(),
{
    let pats = vec![".service", ".socket", ".timer", ".path", ".target"];
    assert(pats@.map_values(|s: &str| s@) =~= unit_patterns());
    let root: Vec<&str> = Vec::new();
    assert(root@.map_values(|s: &str| s@) =~= Seq::<Seq<char>>::empty());
    let mut has_user = false;
    let mut has_system = false;
    let mut names: Vec<String> = Vec::new();
    let mut i: usize = 0;
    while i < ws.entries.len()
        invariant
            i <= ws.entries.len(),
            pats@.map_values(|s: &str| s@) == unit_patterns(),
            root@.map_values(|s: &str| s@) == Seq::<Seq<char>>::empty(),
            has_user == exists|j: int| 0 <= j < i && ws.is_counted_unit(j) && ws.scope_of(j) is User,
            has_system == exists|j: int|
                0 <= j < i && ws.is_counted_unit(j) && ws.scope_of(j) is System,
            strictly_sorted(views(names@)),
            views(names@).to_set() == Set::new(
                |n: Seq<char>|
                    exists|j: int|
                        0 <= j < i && ws.is_counted_unit(j) && clean_unit_name(name_of(ws.ents()[j])) == n,
            ),
        decreases ws.entries.len() - i,
    {
        let ghost old_set = views(names@).to_set();
        let ghost old_user = has_user;
        let ghost old_system = has_system;
        let e = &ws.entries[i];
        if is_reached(e, &root) && matches_any(e.path[e.path.len() - 1].as_str(), &pats) {
            let scope = scope_of_entry(ws, i);
            assert(scope is Ignored || ws.is_counted_unit(i as int));
            match scope {
                UnitScope::Ignored => {},
                _ => {
                    match scope {
                        UnitScope::User => { has_user = true; },
                        UnitScope::System => { has_system = true; },
                        UnitScope::Ignored => {},
                    }
                    let name = e.path[e.path.len() - 1].as_str();
                    let clean = match strip_suffix(name, ".in") {
                        Some(n) => n,
                        None => copy_str(name),
                    };
                    let ghost cv = clean@;
                    sorted_insert(&mut names, clean);
                    assert(has_user == (old_user || (ws.is_counted_unit(i as int) && ws.scope_of(i as int) is User)));
                    assert(has_system == (old_system || (ws.is_counted_unit(i as int) && ws.scope_of(i as int) is System)));
                    assert(views(names@).to_set() =~= Set::new(
                        |n: Seq<char>|
                            exists|j: int|
                                0 <= j < i + 1 && ws.is_counted_unit(j) && clean_unit_name(
                                    name_of(ws.ents()[j]),
                                ) == n,
                    )) by {
                        assert(clean_unit_name(name_of(ws.ents()[i as int])) == cv);
                        assert(ws.is_counted_unit(i as int));
                    }
                },
            }
        }
        assert(views(names@).to_set() =~= Set::new(
            |n: Seq<char>|
                exists|j: int|
                    0 <= j < i + 1 && ws.is_counted_unit(j) && clean_unit_name(
                        name_of(ws.ents()[j]),
                    ) == n,
        )) by {
            if !ws.is_counted_unit(i as int) {
                assert(views(names@).to_set() == old_set);
            }
        }
        proof {
            lemma_exists_upto(|j: int| ws.is_counted_unit(j) && ws.scope_of(j) is User, i as int);
            lemma_exists_upto(|j: int| ws.is_counted_unit(j) && ws.scope_of(j) is System, i as int);
        }
        i += 1;
    }
    assert(views(names@).to_set() =~= ws.unit_name_set());
    SystemdUnits { has_user, has_system, unit_names: names }
}


/// The trimmed first group of the first match of `p` in the entry's text, when non-empty.
pub open spec fn extracted_value(e: WorkspaceEntry, p: Seq<char>) -> Option<Seq<char>> {
    match e.content {
        Some(c) => match regex_match_groups(p, c@) {
            Some(g) => match group_at(g, 1) {
                Some(v) => if trim_ws(v).len() > 0 {
                    Some(trim_ws(v))
                } else {
                    None
                },
                None => None,
            },
            None => None,
        },
        None => None,
    }
}

/// `find_and_extract_regex`: the value from the first matching file that yields one.
pub open spec fn first_extracted(ents: Seq<WorkspaceEntry>, patterns: Seq<Seq<char>>, p: Seq<char>) -> Option<Seq<char>> {
    let hits = indices_where(
        ents.len() as int,
        |i: int| reached(ents[i], Seq::empty()) && name_matches(name_of(ents[i]), patterns) && extracted_value(ents[i], p) is Some,
    );
    if hits.len() == 0 {
        None
    } else {
        extracted_value(ents[hits[0]], p)
    }
}

/// Scans the files of the workspace whose names match `patterns` for the
/// regular expression `pattern` and returns the first capture group (trimmed)
/// of the first file that yields a non-empty one; `None` when the expression
/// does not compile.
pub fn find_and_extract_regex(ws: &Workspace, patterns: &Vec<&str>, pattern: &str) -> (r: Option<String>)
    ensures
        opt_view(r) == if regex_compiles(pattern@) {
            first_extracted(ws.ents(), patterns@.map_values(|s: &str| s@), pattern@)
        } else {
            None
        },
{
    match Pattern::new(pattern) {
        Some(re) => extract_first_match(ws, patterns, &re),
        None => None,
    }
}

/// `find_and_extract_regex` with a compiled expression.
fn extract_first_match(ws: &Workspace, patterns: &Vec<&str>, re: &Pattern) -> (r: Option<String>)
    ensures
        opt_view(r) == first_extracted(ws.ents(), patterns@.map_values(|s: &str| s@), re@),
{
    let root: Vec<&str> = Vec::new();
    assert(root@.map_values(|s: &str| s@) =~= Seq::<Seq<char>>::empty());
    let ghost ents = ws.ents();
    let ghost ps = patterns@.map_values(|s: &str| s@);
    let ghost f = |i: int| reached(ents[i], Seq::empty()) && name_matches(name_of(ents[i]), ps) && extracted_value(ents[i], re@) is Some;
    let mut i: usize = 0;
    while i < ws.entries.len()
        invariant
            i <= ws.entries.len(),
            ents == ws.ents(),
            ps == patterns@.map_values(|s: &str| s@),
            root@.map_values(|s: &str| s@) == Seq::<Seq<char>>::empty(),
            f == (|i: int| reached(ents[i], Seq::empty()) && name_matches(name_of(ents[i]), ps) && extracted_value(ents[i], re@) is Some),
            forall|j: int| 0 <= j < i ==> !#[trigger] f(j),
        decreases ws.entries.len() - i,
    {
        let e = &ws.entries[i];
        if is_reached(e, &root) && matches_any(e.path[e.path.len() - 1].as_str(), patterns) {
            if let Some(content) = &e.content {
                if let Some(g) = re.captures(content.as_str()) {
                    if let Some(v) = group(&g, 1) {
                        let val = trim(v.as_str());
                        if !val.as_str().is_empty() {
                            proof {
                                lemma_indices_where_first(ents.len() as int, f, i as int);
                            }
                            return Some(val);
                        }
                    }
                }
            }
        }
        i += 1;
    }
    proof {
        lemma_indices_where_none(ents.len() as int, f);
    }
    None
}


/// A search of the workspace returns files only, never one inside a hidden
/// directory, a Meson subproject, a build output or a vendor tree, each at
/// most once and in workspace order; and it returns every such file whose
/// name matches.
pub proof fn law_search_skips_hidden_and_build_trees(ents: Seq<WorkspaceEntry>, patterns: Seq<Seq<char>>)
    ensures
        forall|k: int| #![trigger matching_files(ents, Seq::empty(), patterns)[k]]
            0 <= k < matching_files(ents, Seq::empty(), patterns).len() ==> {
                let e = ents[matching_files(ents, Seq::empty(), patterns)[k]];
                &&& !e.is_dir
                &&& forall|c: int| 0 <= c < comps(e).len() ==> !skipped(#[trigger] comps(e)[c])
                &&& name_matches(name_of(e), patterns)
            },
        forall|a: int, b: int|
            0 <= a < b < matching_files(ents, Seq::empty(), patterns).len() ==> #[trigger] matching_files(
                ents,
                Seq::empty(),
                patterns,
            )[a] < #[trigger] matching_files(ents, Seq::empty(), patterns)[b],
        forall|i: int|
            0 <= i < ents.len() && reached(ents[i], Seq::empty()) && name_matches(name_of(ents[i]), patterns)
                ==> #[trigger] matching_files(ents, Seq::empty(), patterns).contains(i),
{
    lemma_indices_where(
        ents.len() as int,
        |i: int| reached(ents[i], Seq::empty()) && name_matches(name_of(ents[i]), patterns),
    );
}


/// `has_metainfo_file` holds exactly when `find_metainfo_file` finds a file.
/// A file among the generic `metainfo.xml` / `appdata.xml` matches always
/// makes it find one; without a manifest id it finds one only then.
pub proof fn law_metainfo_presence(ws: Workspace)
    ensures
        ws.matches(seq!["metainfo.xml"@, "appdata.xml"@]).len() > 0 ==> ws.metainfo_choice() is Some,
        ws.manifest_id is None ==> (ws.metainfo_choice() is Some <==> ws.matches(
            seq!["metainfo.xml"@, "appdata.xml"@],
        ).len() > 0),
{
}

}
