//! The GTK4, libadwaita and GStreamer crates that a `Cargo.toml` depends on,
//! and the build requirements they bring.
use vstd::prelude::*;
use crate::pattern::{group, group_at, regex_compiles, regex_match_groups, Pattern};
use crate::text::{
    begins_with, chars_of, concat3, finishes_with, lemma_somes_push, lemma_split_on_nonempty,
    lines, lines_of, opt_view, somes, sorted_insert, split_char, split_on, starts_with, str_eq,
    string_of_range, strictly_sorted, strip_prefix, trim, trim_char, trim_matches_char, trim_ws,
    views, without_prefix, ends_with,
};
use crate::workspace::{content_at, Workspace, WorkspaceEntry};

verus! {

/// The pattern of a `package = "..."` rename in a dependency's value.
pub open spec fn package_pattern() -> Seq<char> {
    r#"package\s*=\s*"([^"]+)""#@
}

/// The index of the first `c` in `s`, if any.
pub open spec fn first_index_of(s: Seq<char>, c: char) -> Option<int> {
    if exists|i: int| 0 <= i < s.len() && s[i] == c {
        Some(choose|i: int| 0 <= i < s.len() && s[i] == c && forall|k: int| 0 <= k < i ==> #[trigger] s[k] != c)
    } else {
        None
    }
}

/// The name of a table header line `[name]`.
pub open spec fn header_name(t: Seq<char>) -> Seq<char> {
    trim_ws(split_on(t.skip(1), ']')[0])
}

/// A table whose keys are dependencies: `[dependencies]`,
/// `[build-dependencies]`, and those of a target or of the workspace.
pub open spec fn is_dep_table(h: Seq<char>) -> bool {
    h == "dependencies"@ || h == "build-dependencies"@ || finishes_with(h, ".dependencies"@)
        || finishes_with(h, ".build-dependencies"@)
}

/// The crate of a `[dependencies.<crate>]` table.
pub open spec fn table_crate(h: Seq<char>) -> Option<Seq<char>> {
    match without_prefix(h, "dependencies."@) {
        Some(c) => Some(c),
        None => without_prefix(h, "build-dependencies."@),
    }
}

/// The crate that a `key = value` line of a dependency table names: the
/// `package` it renames when the value has one, else the key (unquoted, up to
/// a `.` as in `gtk.workspace = true`).
pub open spec fn dep_line_crate(t: Seq<char>) -> Option<Seq<char>> {
    if begins_with(t, "#"@) {
        None
    } else {
        match first_index_of(t, '=') {
            Some(i) => {
                let key = split_on(trim_char(trim_ws(t.take(i)), '"'), '.')[0];
                let value = t.skip(i + 1);
                let renamed = if regex_compiles(package_pattern()) {
                    match regex_match_groups(package_pattern(), value) {
                        Some(g) => group_at(g, 1),
                        None => None,
                    }
                } else {
                    None
                };
                match renamed {
                    Some(p) => Some(p),
                    None => if key.len() > 0 {
                        Some(key)
                    } else {
                        None
                    },
                }
            },
            None => None,
        }
    }
}

/// Reading the lines `ls` of a `Cargo.toml`: whether the last table is a
/// dependency table, and the crates named so far, in order.
pub open spec fn crates_in(ls: Seq<Seq<char>>) -> (bool, Seq<Seq<char>>)
    decreases ls.len(),
{
    if ls.len() == 0 {
        (false, Seq::empty())
    } else {
        let (inside, cs) = crates_in(ls.drop_last());
        let t = trim_ws(ls.last());
        if begins_with(t, "["@) {
            let h = header_name(t);
            (
                is_dep_table(h),
                match table_crate(h) {
                    Some(c) => cs.push(c),
                    None => cs,
                },
            )
        } else if inside {
            (
                true,
                match dep_line_crate(t) {
                    Some(c) => cs.push(c),
                    None => cs,
                },
            )
        } else {
            (false, cs)
        }
    }
}

/// The crates that a `Cargo.toml` text depends on.
pub open spec fn cargo_crates(content: Seq<char>) -> Seq<Seq<char>> {
    crates_in(lines_of(content)).1
}

/// The build requirement a crate brings: the GTK4 and libadwaita libraries
/// for `gtk4` and `libadwaita`, and the GStreamer library of a `gstreamer`
/// crate (not a `-sys` one).
pub open spec fn crate_package(c: Seq<char>) -> Option<Seq<char>> {
    if c == "gtk4"@ {
        Some("pkgconfig(gtk4)"@)
    } else if c == "libadwaita"@ {
        Some("pkgconfig(libadwaita-1)"@)
    } else if c == "gstreamer"@ || (begins_with(c, "gstreamer-"@) && !finishes_with(c, "-sys"@)) {
        Some("pkgconfig("@ + c + "-1.0)"@)
    } else {
        None
    }
}

/// The build requirements of one `Cargo.toml` text.
pub open spec fn cargo_requirements_of(content: Seq<char>) -> Set<Seq<char>> {
    somes(cargo_crates(content).map_values(|c: Seq<char>| crate_package(c)))
}

/// The build requirements of the workspace's `Cargo.toml` and `src/Cargo.toml`.
pub open spec fn cargo_requirements(ents: Seq<WorkspaceEntry>) -> Set<Seq<char>> {
    (match content_at(ents, seq!["Cargo.toml"@]) {
        Some(c) => cargo_requirements_of(c),
        None => Set::empty(),
    }) + match content_at(ents, seq!["src"@, "Cargo.toml"@]) {
        Some(c) => cargo_requirements_of(c),
        None => Set::empty(),
    }
}

/// The index of the first `c` in `v`.
fn find_char(v: &Vec<char>, c: char) -> (r: Option<usize>)
    ensures
        match r {
            Some(i) => i < v.len() && first_index_of(v@, c) == Some(i as int),
            None => first_index_of(v@, c) is None,
        },
{
    let mut i: usize = 0;
    while i < v.len()
        invariant
            i <= v.len(),
            forall|k: int| 0 <= k < i ==> #[trigger] v@[k] != c,
        decreases v.len() - i,
    {
        if v[i] == c {
            proof {
                let w = choose|w: int| 0 <= w < v@.len() && v@[w] == c && forall|k: int| 0 <= k < w ==> #[trigger] v@[k] != c;
                assert(0 <= w < v@.len() && v@[w] == c && forall|k: int| 0 <= k < w ==> #[trigger] v@[k] != c);
                if w > i {
                    assert(v@[i as int] != c);
                }
            }
            return Some(i);
        }
        i += 1;
    }
    None
}

/// The first `sep`-separated piece of `s`.
fn first_piece(s: &str, sep: char) -> (r: String)
    ensures
        r@ == split_on(s@, sep)[0],
{
    let parts = split_char(s, sep);
    proof {
        lemma_split_on_nonempty(s@, sep);
    }
    assert(views(parts@)[0] == parts@[0]@);
    crate::text::copy_str(parts[0].as_str())
}

/// The crate a dependency-table line names.
fn line_crate(t: &str) -> (r: Option<String>)
    ensures
        opt_view(r) == dep_line_crate(t@),
{
    if starts_with(t, "#") {
        return None;
    }
    let cs = chars_of(t);
    let i = match find_char(&cs, '=') {
        Some(i) => i,
        None => return None,
    };
    let raw_key = string_of_range(cs.as_slice(), 0, i);
    assert(cs@.subrange(0, i as int) =~= t@.take(i as int));
    let trimmed = trim(raw_key.as_str());
    let unquoted = trim_matches_char(trimmed.as_str(), '"');
    let key = first_piece(unquoted.as_str(), '.');
    let value = string_of_range(cs.as_slice(), i + 1, cs.len());
    assert(cs@.subrange(i + 1, cs.len() as int) =~= t@.skip(i + 1));
    let renamed = match Pattern::new(r#"package\s*=\s*"([^"]+)""#) {
        Some(re) => match re.captures(value.as_str()) {
            Some(g) => group(&g, 1),
            None => None,
        },
        None => None,
    };
    match renamed {
        Some(p) => Some(p),
        None => if key.as_str().is_empty() {
            None
        } else {
            Some(key)
        },
    }
}

/// The name of a table header line.
fn table_name(t: &str) -> (r: String)
    requires
        t@.len() > 0,
    ensures
        r@ == header_name(t@),
{
    let cs = chars_of(t);
    let inner = string_of_range(cs.as_slice(), 1, cs.len());
    assert(cs@.subrange(1, cs.len() as int) =~= t@.skip(1));
    let piece = first_piece(inner.as_str(), ']');
    trim(piece.as_str())
}

/// Whether a table name is that of a dependency table.
fn dep_table(h: &str) -> (r: bool)
    ensures
        r == is_dep_table(h@),
{
    str_eq(h, "dependencies") || str_eq(h, "build-dependencies") || ends_with(h, ".dependencies")
        || ends_with(h, ".build-dependencies")
}

/// The crate of a `[dependencies.<crate>]` table name.
fn crate_of_table(h: &str) -> (r: Option<String>)
    ensures
        opt_view(r) == table_crate(h@),
{
    match strip_prefix(h, "dependencies.") {
        Some(c) => Some(c),
        None => strip_prefix(h, "build-dependencies."),
    }
}

/// The crates that a `Cargo.toml` text depends on, in order.
pub fn crates_of_cargo_toml(content: &str) -> (r: Vec<String>)
    ensures
        views(r@) == cargo_crates(content@),
{
    let ls = lines(content);
    let ghost all = views(ls@);
    let mut out: Vec<String> = Vec::new();
    let mut inside = false;
    let mut k: usize = 0;
    assert(all.take(0) =~= Seq::<Seq<char>>::empty());
    while k < ls.len()
        invariant
            k <= ls.len(),
            all == views(ls@),
            all == lines_of(content@),
            (inside, views(out@)) == crates_in(all.take(k as int)),
        decreases ls.len() - k,
    {
        assert(all.take(k + 1).drop_last() =~= all.take(k as int));
        assert(all.take(k + 1).last() == ls@[k as int]@);
        let t = trim(ls[k].as_str());
        let ghost before = views(out@);
        if starts_with(t.as_str(), "[") {
            proof {
                reveal_strlit("[");
            }
            let h = table_name(t.as_str());
            match crate_of_table(h.as_str()) {
                Some(c) => {
                    out.push(c);
                    assert(views(out@) =~= before.push(table_crate(h@)->0));
                },
                None => {},
            }
            inside = dep_table(h.as_str());
        } else if inside {
            match line_crate(t.as_str()) {
                Some(c) => {
                    out.push(c);
                    assert(views(out@) =~= before.push(dep_line_crate(t@)->0));
                },
                None => {},
            }
        } else {
        }
        k += 1;
    }
    assert(all.take(ls.len() as int) =~= all);
    out
}

/// The build requirement a crate brings.
fn package_of_crate(c: &str) -> (r: Option<String>)
    ensures
        opt_view(r) == crate_package(c@),
{
    if str_eq(c, "gtk4") {
        Some(crate::text::copy_str("pkgconfig(gtk4)"))
    } else if str_eq(c, "libadwaita") {
        Some(crate::text::copy_str("pkgconfig(libadwaita-1)"))
    } else if str_eq(c, "gstreamer") || (starts_with(c, "gstreamer-") && !ends_with(c, "-sys")) {
        Some(concat3("pkgconfig(", c, "-1.0)"))
    } else {
        None
    }
}

/// Adds the build requirements of a `Cargo.toml` text to the sorted set `v`.
fn add_cargo_requirements(v: &mut Vec<String>, content: &str)
    requires
        strictly_sorted(views(old(v)@)),
    ensures
        strictly_sorted(views(final(v)@)),
        views(final(v)@).to_set() == views(old(v)@).to_set() + cargo_requirements_of(content@),
{
    let crates = crates_of_cargo_toml(content);
    let ghost start = views(v@).to_set();
    let ghost items = views(crates@).map_values(|c: Seq<char>| crate_package(c));
    let mut k: usize = 0;
    assert(items.take(0) =~= Seq::<Option<Seq<char>>>::empty());
    assert(somes(items.take(0)) =~= Set::<Seq<char>>::empty());
    assert(start + Set::<Seq<char>>::empty() =~= start);
    while k < crates.len()
        invariant
            k <= crates.len(),
            strictly_sorted(views(v@)),
            views(crates@) == cargo_crates(content@),
            items == views(crates@).map_values(|c: Seq<char>| crate_package(c)),
            views(v@).to_set() == start + somes(items.take(k as int)),
        decreases crates.len() - k,
    {
        assert(items.take(k + 1) =~= items.take(k as int).push(items[k as int]));
        assert(views(crates@)[k as int] == crates@[k as int]@);
        proof {
            lemma_somes_push(items.take(k as int), items[k as int]);
        }
        let ghost before = views(v@).to_set();
        match package_of_crate(crates[k].as_str()) {
            Some(p) => {
                sorted_insert(v, p);
                assert(views(v@).to_set() =~= start + somes(items.take(k + 1)));
            },
            None => {
                assert(views(v@).to_set() =~= start + somes(items.take(k + 1)));
            },
        }
        k += 1;
    }
    assert(items.take(crates.len() as int) =~= items);
}

/// Adds the build requirements of the workspace's Cargo manifests (`Cargo.toml`
/// and `src/Cargo.toml`) to the sorted set `v`.
pub fn add_workspace_cargo_requirements(v: &mut Vec<String>, ws: &Workspace)
    requires
        strictly_sorted(views(old(v)@)),
    ensures
        strictly_sorted(views(final(v)@)),
        views(final(v)@).to_set() == views(old(v)@).to_set() + cargo_requirements(ws.ents()),
{
    let ghost start = views(v@).to_set();
    let root = vec!["Cargo.toml"];
    assert(root@.map_values(|s: &str| s@) =~= seq!["Cargo.toml"@]);
    let a = ws.read(&root);
    match &a {
        Some(c) => add_cargo_requirements(v, c.as_str()),
        None => {},
    }
    let ghost mid = views(v@).to_set();
    let sub = vec!["src", "Cargo.toml"];
    assert(sub@.map_values(|s: &str| s@) =~= seq!["src"@, "Cargo.toml"@]);
    let b = ws.read(&sub);
    match &b {
        Some(c) => add_cargo_requirements(v, c.as_str()),
        None => {},
    }
    assert(views(v@).to_set() =~= start + cargo_requirements(ws.ents()));
}

} // verus!
