//! The `%changelog` entry.
use vstd::prelude::*;
use crate::appstream::{
    attribute, format_appstream_node, formatted, items_view, parse_xml, xml_nodes, XmlItem,
    XmlKind, XmlNodeView,
};
use crate::text::{
    concat3, copy_str, count_char, lacks, lemma_count_concat, lemma_lines_lack_newline,
    lemma_no_char_count, lemma_trim_lacks, lines, lines_of, opt_str_view, str_eq, strip_prefix, trim, trim_ws,
    views, without_prefix,
};
use crate::workspace::{indices_where, lemma_indices_where_first, lemma_indices_where_none};

verus! {

/// Context containing all information needed to generate the RPM %changelog section.
#[derive(Debug)]
pub struct ChangelogContext {
    pub packager_name: String,
    pub packager_email: String,
    pub version: String,
    pub release: String,
}

/// How many release-note lines an entry shows.
pub open spec fn max_note_lines() -> int {
    10
}

/// The first `release` element whose `version` attribute is `version`.
pub open spec fn release_node(items: Seq<XmlNodeView>, version: Seq<char>) -> Option<int> {
    let hits = indices_where(
        items.len() as int,
        |m: int|
            items[m].kind == XmlKind::Element && items[m].name == "release"@
                && crate::appstream::attribute_value(items[m].attributes, "version"@) == Some(version),
    );
    if hits.len() == 0 {
        None
    } else {
        Some(hits[0])
    }
}

/// A note line without one leading `- `, `* ` or `• ` bullet, trimmed.
pub open spec fn unbulleted(t: Seq<char>) -> Seq<char> {
    trim_ws(
        match without_prefix(t, "- "@) {
            Some(x) => x,
            None => match without_prefix(t, "* "@) {
                Some(x) => x,
                None => match without_prefix(t, "• "@) {
                    Some(x) => x,
                    None => t,
                },
            },
        },
    )
}

/// The non-blank lines, trimmed and without bullets.
pub open spec fn note_lines(ls: Seq<Seq<char>>) -> Seq<Seq<char>>
    decreases ls.len(),
{
    if ls.len() == 0 {
        Seq::empty()
    } else {
        let r = note_lines(ls.drop_last());
        let t = trim_ws(ls.last());
        if t.len() == 0 {
            r
        } else {
            r.push(unbulleted(t))
        }
    }
}

/// `extract_release_notes_from_xml`: the notes of the release `version`.
pub open spec fn release_notes(xml: Seq<char>, version: Seq<char>) -> Option<Seq<Seq<char>>> {
    match xml_nodes(xml) {
        Some(items) => match release_node(items, version) {
            Some(j) => {
                let f = formatted(items, j);
                if trim_ws(f).len() == 0 {
                    None
                } else {
                    let notes = note_lines(lines_of(f));
                    if notes.len() == 0 {
                        None
                    } else {
                        Some(notes)
                    }
                }
            },
            None => None,
        },
        None => None,
    }
}

/// One `- note` line per note.
pub open spec fn bullets(notes: Seq<Seq<char>>) -> Seq<char>
    decreases notes.len(),
{
    if notes.len() == 0 {
        Seq::empty()
    } else {
        bullets(notes.drop_last()) + "- "@ + notes.last() + "\n"@
    }
}

/// The body of the entry: at most ten notes and a pointer upstream when there
/// are more, or `- Update to version V` when there are none.
pub open spec fn changelog_body(notes: Option<Seq<Seq<char>>>, version: Seq<char>) -> Seq<char> {
    match notes {
        Some(ns) => bullets(ns.take(if ns.len() > max_note_lines() {
            max_note_lines()
        } else {
            ns.len() as int
        })) + if ns.len() > max_note_lines() {
            "- ... see upstream for full release notes\n"@
        } else {
            Seq::empty()
        },
        None => "- Update to version "@ + version + "\n"@,
    }
}

/// The whole `%changelog` section of a packager, for a version and release,
/// dated `date`, with the notes of that release in the AppStream text `xml`.
pub open spec fn changelog_entry(
    name: Seq<char>,
    email: Seq<char>,
    version: Seq<char>,
    release: Seq<char>,
    date: Seq<char>,
    xml: Option<Seq<char>>,
) -> Seq<char> {
    let notes = match xml {
        Some(x) => release_notes(x, version),
        None => None,
    };
    "%changelog\n"@ + "* "@ + date + " "@ + name + " <"@ + email + "> - "@ + version + "-"@ + release
        + "\n"@ + changelog_body(notes, version)
}

/// The whole `%changelog` section for the date `date`.
pub open spec fn changelog_text(ctx: ChangelogContext, date: Seq<char>, xml: Option<Seq<char>>) -> Seq<char> {
    changelog_entry(ctx.packager_name@, ctx.packager_email@, ctx.version@, ctx.release@, date, xml)
}

/// Trusted: `chrono::Utc::now()` formatted with `%a %b %d %Y`, today's UTC date
/// in the form of an RPM changelog header. Nothing is stated about the result,
/// which depends on the clock.
#[verifier::external_body]
pub(crate) fn utc_today() -> (r: String) {
    chrono::Utc::now().format("%a %b %d %Y").to_string()
}

fn find_release(items: &Vec<XmlItem>, version: &str) -> (r: Option<usize>)
    ensures
        match r {
            Some(j) => j < items.len() && release_node(items_view(items@), version@) == Some(j as int),
            None => release_node(items_view(items@), version@) is None,
        },
{
    let ghost v = items_view(items@);
    let ghost f = |m: int|
        v[m].kind == XmlKind::Element && v[m].name == "release"@
            && crate::appstream::attribute_value(v[m].attributes, "version"@) == Some(version@);
    let mut j: usize = 0;
    while j < items.len()
        invariant
            j <= items.len(),
            v == items_view(items@),
            f == (|m: int|
                v[m].kind == XmlKind::Element && v[m].name == "release"@
                    && crate::appstream::attribute_value(v[m].attributes, "version"@) == Some(version@)),
            forall|m: int| 0 <= m < j ==> !#[trigger] f(m),
        decreases items.len() - j,
    {
        assert(v[j as int] == items@[j as int]@);
        if items[j].kind == XmlKind::Element && str_eq(items[j].name.as_str(), "release") {
            match attribute(&items[j], "version") {
                Some(a) => {
                    if str_eq(a.as_str(), version) {
                        proof {
                            lemma_indices_where_first(v.len() as int, f, j as int);
                        }
                        return Some(j);
                    }
                },
                None => {},
            }
        }
        j += 1;
    }
    proof {
        lemma_indices_where_none(v.len() as int, f);
    }
    None
}

fn unbullet(t: &str) -> (r: String)
    ensures
        r@ == unbulleted(t@),
{
    let stripped = match strip_prefix(t, "- ") {
        Some(x) => x,
        None => match strip_prefix(t, "* ") {
            Some(x) => x,
            None => match strip_prefix(t, "• ") {
                Some(x) => x,
                None => copy_str(t),
            },
        },
    };
    trim(stripped.as_str())
}

/// Parses AppStream metainfo XML and extracts the note lines of `<release version="...">`.
pub fn extract_release_notes_from_xml(xml_content: &str, target_version: &str) -> (r: Option<Vec<String>>)
    ensures
        match r {
            Some(ns) => release_notes(xml_content@, target_version@) == Some(views(ns@)),
            None => release_notes(xml_content@, target_version@) is None,
        },
{
    let items = match parse_xml(xml_content) {
        Some(items) => items,
        None => return None,
    };
    let j = match find_release(&items, target_version) {
        Some(j) => j,
        None => return None,
    };
    let formatted_notes = format_appstream_node(&items, j);
    let t = trim(formatted_notes.as_str());
    if t.as_str().is_empty() {
        return None;
    }
    let ls = lines(formatted_notes.as_str());
    let ghost all = views(ls@);
    let mut notes: Vec<String> = Vec::new();
    let mut k: usize = 0;
    assert(all.take(0) =~= Seq::<Seq<char>>::empty());
    while k < ls.len()
        invariant
            k <= ls.len(),
            all == views(ls@),
            views(notes@) == note_lines(all.take(k as int)),
        decreases ls.len() - k,
    {
        assert(all.take(k + 1).drop_last() =~= all.take(k as int));
        assert(all.take(k + 1).last() == ls@[k as int]@);
        let l = trim(ls[k].as_str());
        if !l.as_str().is_empty() {
            let ghost before = views(notes@);
            notes.push(unbullet(l.as_str()));
            assert(views(notes@) =~= before.push(unbulleted(trim_ws(ls@[k as int]@))));
        }
        k += 1;
    }
    assert(all.take(ls.len() as int) =~= all);
    if notes.len() == 0 {
        None
    } else {
        Some(notes)
    }
}

impl ChangelogContext {
    pub fn new(packager_name: &str, packager_email: &str, version: &str, release: &str) -> (c: ChangelogContext)
        ensures
            c.packager_name@ == packager_name@,
            c.packager_email@ == packager_email@,
            c.version@ == version@,
            c.release@ == release@,
    {
        ChangelogContext {
            packager_name: copy_str(packager_name),
            packager_email: copy_str(packager_email),
            version: copy_str(version),
            release: copy_str(release),
        }
    }

    /// The `%changelog` entry dated `date`. With `metainfo_xml_content`, the
    /// notes of `<release version="<version>">` are listed (at most ten, then a
    /// pointer upstream); without them it reads `- Update to version <version>`.
    pub fn generate_dated(&self, date: &str, metainfo_xml_content: Option<&str>) -> (r: String)
        ensures
            r@ == changelog_text(*self, date@, opt_str_view(metainfo_xml_content)),
    {
        let mut output = copy_str("%changelog\n");
        output.append("* ");
        output.append(date);
        output.append(" ");
        output.append(self.packager_name.as_str());
        output.append(" <");
        output.append(self.packager_email.as_str());
        output.append("> - ");
        output.append(self.version.as_str());
        output.append("-");
        output.append(self.release.as_str());
        output.append("\n");
        let notes = match metainfo_xml_content {
            Some(xml) => extract_release_notes_from_xml(xml, self.version.as_str()),
            None => None,
        };
        let body = ChangelogContext::body(&notes, self.version.as_str());
        output.append(body.as_str());
        output
    }

    fn body(notes: &Option<Vec<String>>, version: &str) -> (r: String)
        ensures
            r@ == changelog_body(
                match notes {
                    Some(ns) => Some(views(ns@)),
                    None => None,
                },
                version@,
            ),
    {
        match notes {
            Some(ns) => {
                let is_truncated = ns.len() > 10;
                let n = if is_truncated { 10 } else { ns.len() };
                let ghost all = views(ns@);
                let mut out = String::new();
                let mut k: usize = 0;
                assert(all.take(0) =~= Seq::<Seq<char>>::empty());
                while k < n
                    invariant
                        k <= n <= ns.len(),
                        all == views(ns@),
                        out@ == bullets(all.take(k as int)),
                    decreases n - k,
                {
                    assert(all.take(k + 1).drop_last() =~= all.take(k as int));
                    out.append("- ");
                    out.append(ns[k].as_str());
                    out.append("\n");
                    k += 1;
                }
                assert(all.take(n as int).take(n as int) =~= all.take(n as int));
                if is_truncated {
                    out.append("- ... see upstream for full release notes\n");
                } else {
                    assert(out@ + Seq::<char>::empty() =~= out@);
                }
                out
            },
            None => concat3("- Update to version ", version, "\n"),
        }
    }

    /// Generates a single RPM `%changelog` entry dated today (UTC).
    pub fn generate(&self, metainfo_xml_content: Option<&str>) -> (r: String)
        ensures
            exists|date: Seq<char>| r@ == changelog_text(*self, date, opt_str_view(metainfo_xml_content)),
    {
        let date = utc_today();
        self.generate_dated(date.as_str(), metainfo_xml_content)
    }
}


/// One line per note.
proof fn lemma_bullet_lines(notes: Seq<Seq<char>>)
    requires
        forall|k: int| 0 <= k < notes.len() ==> count_char(#[trigger] notes[k], '\n') == 0,
    ensures
        count_char(bullets(notes), '\n') == notes.len(),
    decreases notes.len(),
{
    if notes.len() > 0 {
        let rest = notes.drop_last();
        lemma_bullet_lines(rest);
        reveal_strlit("- ");
        reveal_strlit("\n");
        let last = notes.last();
        assert(count_char(last, '\n') == 0);
        lemma_count_concat(bullets(rest), "- "@, '\n');
        lemma_count_concat(bullets(rest) + "- "@, last, '\n');
        lemma_count_concat(bullets(rest) + "- "@ + last, "\n"@, '\n');
        assert(forall|k: int| 0 <= k < "- "@.len() ==> "- "@[k] != '\n');
        lemma_no_char_count("- "@, '\n');
        assert("\n"@.drop_last() =~= Seq::<char>::empty());
        assert(count_char(Seq::<char>::empty(), '\n') == 0);
        assert(count_char("\n"@, '\n') == 1);
    }
}

/// A changelog entry built from release notes (lines, so without newlines)
/// lists at most ten of them, one line each, and one more line pointing
/// upstream when there are more.
pub proof fn law_changelog_note_lines(notes: Seq<Seq<char>>, version: Seq<char>)
    requires
        forall|k: int| 0 <= k < notes.len() ==> count_char(#[trigger] notes[k], '\n') == 0,
    ensures
        count_char(changelog_body(Some(notes), version), '\n') == if notes.len() > max_note_lines() {
            max_note_lines() + 1
        } else {
            notes.len() as int
        },
{
    let n = if notes.len() > max_note_lines() {
        max_note_lines()
    } else {
        notes.len() as int
    };
    let shown = notes.take(n);
    assert forall|k: int| 0 <= k < shown.len() implies count_char(#[trigger] shown[k], '\n') == 0 by {
        assert(shown[k] == notes[k]);
    }
    lemma_bullet_lines(shown);
    let more = "- ... see upstream for full release notes\n"@;
    if notes.len() > max_note_lines() {
        reveal_strlit("- ... see upstream for full release notes\n");
        lemma_count_concat(bullets(shown), more, '\n');
        let body = more.drop_last();
        assert(more =~= body.push('\n'));
        assert(forall|k: int| 0 <= k < body.len() ==> body[k] != '\n');
        lemma_no_char_count(body, '\n');
    } else {
        lemma_count_concat(bullets(shown), Seq::<char>::empty(), '\n');
    }
}


/// Notes built from lines hold no newline.
proof fn lemma_note_lines_lack_newline(ls: Seq<Seq<char>>)
    requires
        forall|k: int| 0 <= k < ls.len() ==> lacks(#[trigger] ls[k], '\n'),
    ensures
        forall|k: int| 0 <= k < note_lines(ls).len() ==> lacks(#[trigger] note_lines(ls)[k], '\n'),
    decreases ls.len(),
{
    if ls.len() > 0 {
        let rest = ls.drop_last();
        assert forall|k: int| 0 <= k < rest.len() implies lacks(#[trigger] rest[k], '\n') by {
            assert(rest[k] == ls[k]);
        }
        lemma_note_lines_lack_newline(rest);
        let t = trim_ws(ls.last());
        assert(lacks(ls[ls.len() - 1], '\n'));
        lemma_trim_lacks(ls.last(), '\n');
        if t.len() > 0 {
            let x = match without_prefix(t, "- "@) {
                Some(x) => x,
                None => match without_prefix(t, "* "@) {
                    Some(x) => x,
                    None => match without_prefix(t, "• "@) {
                        Some(x) => x,
                        None => t,
                    },
                },
            };
            assert(lacks(x, '\n')) by {
                assert forall|m: int| 0 <= m < x.len() implies x[m] != '\n' by {
                    if without_prefix(t, "- "@) is Some {
                        assert(x[m] == t[m + "- "@.len()]);
                    } else if without_prefix(t, "* "@) is Some {
                        assert(x[m] == t[m + "* "@.len()]);
                    } else if without_prefix(t, "• "@) is Some {
                        assert(x[m] == t[m + "• "@.len()]);
                    }
                }
            }
            lemma_trim_lacks(x, '\n');
            assert(unbulleted(t) == trim_ws(x));
            let r = note_lines(rest);
            assert forall|k: int| 0 <= k < note_lines(ls).len() implies lacks(#[trigger] note_lines(ls)[k], '\n') by {
                if k < r.len() {
                    assert(note_lines(ls)[k] == r[k]);
                }
            }
        }
    }
}

/// The release notes taken from an AppStream document are single lines, so
/// that each makes one changelog line.
pub proof fn law_release_notes_are_lines(xml: Seq<char>, version: Seq<char>)
    ensures
        match release_notes(xml, version) {
            Some(ns) => forall|k: int| 0 <= k < ns.len() ==> count_char(#[trigger] ns[k], '\n') == 0,
            None => true,
        },
{
    match release_notes(xml, version) {
        Some(ns) => {
            let items = xml_nodes(xml)->0;
            let j = release_node(items, version)->0;
            let f = formatted(items, j);
            lemma_lines_lack_newline(f);
            lemma_note_lines_lack_newline(lines_of(f));
            assert forall|k: int| 0 <= k < ns.len() implies count_char(#[trigger] ns[k], '\n') == 0 by {
                assert(lacks(ns[k], '\n'));
                lemma_no_char_count(ns[k], '\n');
            }
        },
        None => {},
    }
}


/// Whether a line holds more than whitespace.
pub open spec fn nonblank() -> spec_fn(Seq<char>) -> bool {
    |l: Seq<char>| trim_ws(l).len() > 0
}

/// The note a non-blank line gives: the line trimmed, without one bullet.
pub open spec fn note_of(l: Seq<char>) -> Seq<char> {
    unbulleted(trim_ws(l))
}

proof fn lemma_note_lines_are_nonblank_lines(ls: Seq<Seq<char>>)
    ensures
        note_lines(ls) == ls.filter(nonblank()).map_values(|l: Seq<char>| note_of(l)),
    decreases ls.len(),
{
    reveal(Seq::filter);
    if ls.len() > 0 {
        lemma_note_lines_are_nonblank_lines(ls.drop_last());
        let g = ls.drop_last().filter(nonblank());
        if trim_ws(ls.last()).len() > 0 {
            assert(ls.filter(nonblank()) == g.push(ls.last()));
            assert(g.push(ls.last()).map_values(|l: Seq<char>| note_of(l)) =~= g.map_values(
                |l: Seq<char>| note_of(l),
            ).push(note_of(ls.last())));
        } else {
            assert(ls.filter(nonblank()) == g);
        }
    } else {
        assert(ls.filter(nonblank()).map_values(|l: Seq<char>| note_of(l)) =~= Seq::<Seq<char>>::empty());
    }
}

/// The notes of a release are all the non-blank lines of its formatted
/// description, paragraph lines as well as list items, in order, each trimmed
/// and without one leading bullet; there are none (`None`) when the
/// description is blank.
pub proof fn law_release_notes_are_the_nonblank_lines(xml: Seq<char>, version: Seq<char>)
    requires
        xml_nodes(xml) is Some,
        release_node(xml_nodes(xml)->0, version) is Some,
    ensures
        ({
            let f = formatted(xml_nodes(xml)->0, release_node(xml_nodes(xml)->0, version)->0);
            let nb = lines_of(f).filter(nonblank());
            release_notes(xml, version) == if trim_ws(f).len() > 0 && nb.len() > 0 {
                Some(nb.map_values(|l: Seq<char>| note_of(l)))
            } else {
                None
            }
        }),
{
    let f = formatted(xml_nodes(xml)->0, release_node(xml_nodes(xml)->0, version)->0);
    lemma_note_lines_are_nonblank_lines(lines_of(f));
}

}
