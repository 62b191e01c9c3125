//! The `%description` section.
use vstd::prelude::*;
use crate::appstream::{
    first_element_named, format_appstream_node, formatted, items_view, parse_xml, xml_nodes,
    XmlKind, XmlNodeView,
};
use crate::pattern::{regex_compiles, Pattern};
use crate::text::{
    begins_with, concat3, join, join_with, lines, lines_of, opt_view, starts_with, trim, trim_ws,
    views,
};
use crate::workspace::{
    any_with_extension, content_at, find_and_extract_regex, find_metainfo_file, first_extracted,
    has_desktop_file, has_metainfo_file, indices_where, lemma_indices_where_first,
    lemma_indices_where_none, Workspace, WorkspaceEntry,
};

verus! {

pub struct DescriptionSection;

/// The first element named `name`, in document order.
pub open spec fn first_named(items: Seq<XmlNodeView>, name: Seq<char>) -> Option<int> {
    let hits = indices_where(items.len() as int, |m: int| items[m].kind == XmlKind::Element && items[m].name == name);
    if hits.len() == 0 {
        None
    } else {
        Some(hits[0])
    }
}

/// The formatted `<description>` of an AppStream document, when non-empty.
pub open spec fn description_of_xml(xml: Seq<char>) -> Option<Seq<char>> {
    match xml_nodes(xml) {
        Some(items) => match first_named(items, "description"@) {
            Some(j) => if formatted(items, j).len() > 0 {
                Some(formatted(items, j))
            } else {
                None
            },
            None => None,
        },
        None => None,
    }
}

/// The description in the workspace's AppStream file.
pub open spec fn metainfo_description(ws: Workspace) -> Option<Seq<char>> {
    match ws.metainfo_choice() {
        Some(i) => match ws.ents()[i].content {
            Some(c) => description_of_xml(c@),
            None => None,
        },
        None => None,
    }
}

/// The `Comment=` pattern of desktop files.
pub open spec fn comment_pattern() -> Seq<char> {
    r"(?m)^_?Comment=(.+)$"@
}

/// The `Comment=` of the first desktop file that has one.
pub open spec fn desktop_comment(ents: Seq<WorkspaceEntry>) -> Option<Seq<char>> {
    if regex_compiles(comment_pattern()) {
        first_extracted(ents, seq![".desktop"@], comment_pattern())
    } else {
        None
    }
}

/// A README line that ends the introduction search: a heading, a callout or an image.
pub open spec fn readme_marker(t: Seq<char>) -> bool {
    begins_with(t, "#"@) || begins_with(t, "[!"@) || begins_with(t, "<img"@)
}

/// The lines of the first README paragraph, given the lines gathered so far.
pub open spec fn readme_paragraph(ls: Seq<Seq<char>>, acc: Seq<Seq<char>>) -> Seq<Seq<char>>
    decreases ls.len(),
{
    if ls.len() == 0 {
        acc
    } else {
        let t = trim_ws(ls[0]);
        if readme_marker(t) || t.len() == 0 {
            if acc.len() > 0 {
                acc
            } else {
                readme_paragraph(ls.drop_first(), acc)
            }
        } else {
            readme_paragraph(ls.drop_first(), acc.push(t))
        }
    }
}

/// The first paragraph of `README.md`, its lines joined with spaces.
pub open spec fn readme_description(ents: Seq<WorkspaceEntry>) -> Option<Seq<char>> {
    match content_at(ents, seq!["README.md"@]) {
        Some(c) => {
            let p = readme_paragraph(lines_of(c), Seq::empty());
            if p.len() == 0 {
                None
            } else {
                Some(join_with(p, " "@))
            }
        },
        None => None,
    }
}

/// `detect_description`: the AppStream description, else a desktop `Comment=`,
/// else the first README paragraph.
pub open spec fn detected_description(ws: Workspace) -> Option<Seq<char>> {
    let ents = ws.ents();
    if ws.metainfo_choice() is Some && metainfo_description(ws) is Some {
        metainfo_description(ws)
    } else if any_with_extension(ents, Seq::empty(), ".desktop"@) && desktop_comment(ents) is Some {
        desktop_comment(ents)
    } else {
        readme_description(ents)
    }
}

/// The first element named `name`.
fn first_named_exec(items: &Vec<crate::appstream::XmlItem>, name: &str) -> (r: Option<usize>)
    ensures
        match r {
            Some(j) => first_named(items_view(items@), name@) == Some(j as int) && j < items.len(),
            None => first_named(items_view(items@), name@) is None,
        },
{
    let ghost v = items_view(items@);
    let ghost f = |m: int| v[m].kind == XmlKind::Element && v[m].name == name@;
    let r = first_element_named(items, name);
    proof {
        match r {
            Some(j) => {
                assert forall|m: int| 0 <= m < j implies !#[trigger] f(m) by {
                    assert(!(v[m].kind == XmlKind::Element && v[m].name == name@));
                }
                lemma_indices_where_first(v.len() as int, f, j as int);
            },
            None => {
                assert forall|m: int| 0 <= m < v.len() implies !#[trigger] f(m) by {
                    assert(!(v[m].kind == XmlKind::Element && v[m].name == name@));
                }
                lemma_indices_where_none(v.len() as int, f);
            },
        }
    }
    r
}

/// The formatted `<description>` of an AppStream document, when non-empty.
pub fn description_from_xml(xml: &str) -> (r: Option<String>)
    ensures
        opt_view(r) == description_of_xml(xml@),
{
    let items = match parse_xml(xml) {
        Some(items) => items,
        None => return None,
    };
    match first_named_exec(&items, "description") {
        Some(j) => {
            let f = format_appstream_node(&items, j);
            if f.as_str().is_empty() {
                None
            } else {
                Some(f)
            }
        },
        None => None,
    }
}

fn is_readme_marker(t: &str) -> (r: bool)
    ensures
        r == readme_marker(t@),
{
    starts_with(t, "#") || starts_with(t, "[!") || starts_with(t, "<img")
}

impl DescriptionSection {
    /// The `%description` section: the detected description, else the given
    /// summary or name with a full stop.
    pub fn generate(ws: &Workspace, summary_or_name: &str) -> (r: String)
        ensures
            r@ == "%description\n"@ + match detected_description(*ws) {
                Some(d) => d,
                None => summary_or_name@ + "."@,
            } + "\n"@,
    {
        let desc_body = match DescriptionSection::detect_description(ws) {
            Some(d) => d,
            None => crate::text::concat2(summary_or_name, "."),
        };
        concat3("%description\n", desc_body.as_str(), "\n")
    }

    pub fn detect_description(ws: &Workspace) -> (r: Option<String>)
        ensures
            opt_view(r) == detected_description(*ws),
    {
        if has_metainfo_file(ws) {
            if let Some(desc) = DescriptionSection::extract_from_metainfo(ws) {
                return Some(desc);
            }
        }
        if has_desktop_file(ws) {
            if let Some(comment) = DescriptionSection::extract_from_desktop(ws) {
                return Some(comment);
            }
        }
        DescriptionSection::extract_from_readme(ws)
    }

    fn extract_from_metainfo(ws: &Workspace) -> (r: Option<String>)
        ensures
            opt_view(r) == metainfo_description(*ws),
    {
        let i = match find_metainfo_file(ws) {
            Some(i) => i,
            None => return None,
        };
        match &ws.entries[i].content {
            Some(c) => description_from_xml(c.as_str()),
            None => None,
        }
    }

    fn extract_from_desktop(ws: &Workspace) -> (r: Option<String>)
        ensures
            opt_view(r) == desktop_comment(ws.ents()),
    {
        let pats = vec![".desktop"];
        assert(pats@.map_values(|s: &str| s@) =~= seq![".desktop"@]);
        find_and_extract_regex(ws, &pats, r"(?m)^_?Comment=(.+)$")
    }

    fn extract_from_readme(ws: &Workspace) -> (r: Option<String>)
        ensures
            opt_view(r) == readme_description(ws.ents()),
    {
        let p = vec!["README.md"];
        assert(p@.map_values(|s: &str| s@) =~= seq!["README.md"@]);
        let content = match ws.read(&p) {
            Some(c) => c,
            None => return None,
        };
        let ls = lines(content.as_str());
        let ghost all = views(ls@);
        let mut paragraph: Vec<String> = Vec::new();
        let mut k: usize = 0;
        let mut done = false;
        assert(all.skip(0) =~= all);
        assert(views(paragraph@) =~= Seq::<Seq<char>>::empty());
        while k < ls.len() && !done
            invariant
                k <= ls.len(),
                all == views(ls@),
                all == lines_of(content@),
                done ==> readme_paragraph(all, Seq::empty()) == views(paragraph@),
                !done ==> readme_paragraph(all, Seq::empty()) == readme_paragraph(all.skip(k as int), views(paragraph@)),
            decreases ls.len() - k,
        {
            assert(all.skip(k as int)[0] == ls@[k as int]@);
            assert(all.skip(k as int).drop_first() =~= all.skip(k + 1));
            let trimmed = trim(ls[k].as_str());
            if is_readme_marker(trimmed.as_str()) || trimmed.as_str().is_empty() {
                if paragraph.len() > 0 {
                    done = true;
                }
            } else {
                let ghost before = views(paragraph@);
                paragraph.push(trimmed);
                assert(views(paragraph@) =~= before.push(trim_ws(ls@[k as int]@)));
            }
            k += 1;
        }
        proof {
            if !done {
                assert(all.skip(k as int).len() == 0);
            }
        }
        if paragraph.len() == 0 {
            None
        } else {
            Some(join(&paragraph, " "))
        }
    }
}

}
