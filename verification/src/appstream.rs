//! AppStream XML: a document as the pre-order list of its nodes, and the
//! conversion of `<description>`-style markup into plain text.
use vstd::prelude::*;
use crate::text::{collapse_whitespace, collapse_ws, concat2, copy_str, join, join_with, str_eq, views};

verus! {

/// The kind of an XML node.
#[derive(Debug, Clone, Copy, PartialEq, Eq, Structural)]
pub enum XmlKind {
    Element,
    Text,
    Other,
}

/// One node of an XML document.
pub struct XmlItem {
    pub kind: XmlKind,
    /// The local tag name of an element; empty for other nodes.
    pub name: String,
    /// The attributes of an element: local name and value, in document order.
    pub attributes: Vec<(String, String)>,
    /// The text of a text node; empty for other nodes.
    pub text: String,
    /// The number of nodes from this one up to the document root, both included.
    pub depth: usize,
}

/// The mathematical content of an `XmlItem`.
pub struct XmlNodeView {
    pub kind: XmlKind,
    pub name: Seq<char>,
    pub attributes: Seq<(Seq<char>, Seq<char>)>,
    pub text: Seq<char>,
    pub depth: int,
}

impl View for XmlItem {
    type V = XmlNodeView;

    open spec fn view(&self) -> XmlNodeView {
        XmlNodeView {
            kind: self.kind,
            name: self.name@,
            attributes: self.attributes@.map_values(|a: (String, String)| (a.0@, a.1@)),
            text: self.text@,
            depth: self.depth as int,
        }
    }
}

/// The views of a list of nodes.
pub open spec fn items_view(v: Seq<XmlItem>) -> Seq<XmlNodeView> {
    v.map_values(|x: XmlItem| x@)
}

/// The nodes of the document that `roxmltree` parses from `text`, in document
/// order starting with the root; `None` when the text is not well-formed XML.
pub uninterp spec fn xml_nodes(text: Seq<char>) -> Option<Seq<XmlNodeView>>;

/// Trusted: `roxmltree::Document::parse`. Parses `text` and lists its nodes
/// (`descendants()` of the root) with kind, local name, attributes, text and
/// depth (`ancestors().count()`); the result is named `xml_nodes` of the text,
/// how XML is parsed is not stated.
#[verifier::external_body]
pub(crate) fn parse_xml(text: &str) -> (r: Option<Vec<XmlItem>>)
    ensures
        match r {
            Some(v) => xml_nodes(text@) == Some(items_view(v@)),
            None => xml_nodes(text@) is None,
        },
{
    roxmltree::Document::parse(text).ok().map(|doc| doc.root().descendants().map(|n| XmlItem {
        kind: if n.is_element() { XmlKind::Element } else if n.is_text() { XmlKind::Text } else { XmlKind::Other },
        name: n.tag_name().name().to_string(),
        attributes: n.attributes().map(|a| (a.name().to_string(), a.value().to_string())).collect(),
        text: if n.is_text() { n.text().unwrap_or("").to_string() } else { String::new() },
        depth: n.ancestors().count(),
    }).collect())
}

// ---------------------------------------------------------------------------
// Tree structure of the node list
// ---------------------------------------------------------------------------

/// The first index from `m` on whose node is not below node `i`.
pub open spec fn scan_end(items: Seq<XmlNodeView>, i: int, m: int) -> int
    decreases items.len() - m,
{
    if m >= items.len() || m < 0 {
        items.len() as int
    } else if items[m].depth <= items[i].depth {
        m
    } else {
        scan_end(items, i, m + 1)
    }
}

/// The end of the subtree of node `i`: its descendants are `i+1 .. subtree_end`.
pub open spec fn subtree_end(items: Seq<XmlNodeView>, i: int) -> int {
    scan_end(items, i, i + 1)
}

/// Node `k` is an ancestor of node `j`.
pub open spec fn is_ancestor(items: Seq<XmlNodeView>, k: int, j: int) -> bool {
    &&& 0 <= k < j < items.len()
    &&& items[k].depth < items[j].depth
    &&& forall|m: int| k < m < j ==> items[k].depth < #[trigger] items[m].depth
}

/// Node `j` has an ancestor (itself included) that is a `ul` or `ol` element.
pub open spec fn in_list(items: Seq<XmlNodeView>, j: int) -> bool {
    (items[j].name == "ul"@ || items[j].name == "ol"@) || exists|k: int|
        is_ancestor(items, k, j) && (items[k].name == "ul"@ || items[k].name == "ol"@)
}

/// The text of the text nodes among `from .. to`, concatenated.
pub open spec fn texts_in(items: Seq<XmlNodeView>, from: int, to: int) -> Seq<char>
    decreases to - from,
{
    if to <= from {
        Seq::empty()
    } else {
        texts_in(items, from, to - 1) + if items[to - 1].kind == XmlKind::Text {
            items[to - 1].text
        } else {
            Seq::empty()
        }
    }
}

/// `collect_node_text`: the text inside node `i`, whitespace runs collapsed to one space.
pub open spec fn node_text(items: Seq<XmlNodeView>, i: int) -> Seq<char> {
    collapse_ws(texts_in(items, i, subtree_end(items, i)))
}

/// Node `m` is an `li` element child of node `j`.
pub open spec fn is_li_child(items: Seq<XmlNodeView>, j: int, m: int) -> bool {
    items[m].depth == items[j].depth + 1 && items[m].kind == XmlKind::Element && items[m].name == "li"@
}

/// The bullet entries of the list element `j` among its nodes `from .. to`.
pub open spec fn list_entries(items: Seq<XmlNodeView>, j: int, from: int, to: int) -> Seq<Seq<char>>
    decreases to - from,
{
    if to <= from {
        Seq::empty()
    } else {
        let r = list_entries(items, j, from, to - 1);
        if is_li_child(items, j, to - 1) && node_text(items, to - 1).len() > 0 {
            r.push("- "@ + node_text(items, to - 1))
        } else {
            r
        }
    }
}

/// The block that element `j` contributes to formatted text: a paragraph
/// `(false, text)` or a list `(true, lines)`.
pub open spec fn block_of(items: Seq<XmlNodeView>, j: int) -> Option<(bool, Seq<char>)> {
    let n = items[j].name;
    if items[j].kind != XmlKind::Element {
        None
    } else if n == "li"@ && in_list(items, j) {
        None
    } else if n == "p"@ {
        if node_text(items, j).len() > 0 {
            Some((false, node_text(items, j)))
        } else {
            None
        }
    } else if n == "ul"@ || n == "ol"@ {
        let entries = list_entries(items, j, j + 1, subtree_end(items, j));
        if entries.len() > 0 {
            Some((true, join_with(entries, "\n"@)))
        } else {
            None
        }
    } else {
        None
    }
}

/// The blocks of the nodes `from .. to`, in order.
pub open spec fn blocks_in(items: Seq<XmlNodeView>, from: int, to: int) -> Seq<(bool, Seq<char>)>
    decreases to - from,
{
    if to <= from {
        Seq::empty()
    } else {
        let r = blocks_in(items, from, to - 1);
        match block_of(items, to - 1) {
            Some(b) => r.push(b),
            None => r,
        }
    }
}

/// The separator between two neighbouring blocks: one newline before a list
/// that follows a paragraph, a blank line otherwise.
pub open spec fn block_gap(prev: (bool, Seq<char>), next: (bool, Seq<char>)) -> Seq<char> {
    if !prev.0 && next.0 {
        "\n"@
    } else {
        "\n\n"@
    }
}

/// The blocks joined with their separators.
pub open spec fn assemble(b: Seq<(bool, Seq<char>)>) -> Seq<char>
    decreases b.len(),
{
    if b.len() == 0 {
        Seq::empty()
    } else if b.len() == 1 {
        b[0].1
    } else {
        assemble(b.drop_last()) + block_gap(b[b.len() - 2], b.last()) + b.last().1
    }
}

/// `format_appstream_node`: the plain text of node `i`.
pub open spec fn formatted(items: Seq<XmlNodeView>, i: int) -> Seq<char> {
    assemble(blocks_in(items, i + 1, subtree_end(items, i)))
}

/// The value of the first attribute named `key`.
pub open spec fn attribute_value(attrs: Seq<(Seq<char>, Seq<char>)>, key: Seq<char>) -> Option<Seq<char>>
    decreases attrs.len(),
{
    if attrs.len() == 0 {
        None
    } else if attrs[0].0 == key {
        Some(attrs[0].1)
    } else {
        attribute_value(attrs.drop_first(), key)
    }
}


// ---------------------------------------------------------------------------
// Executable functions
// ---------------------------------------------------------------------------

/// The end of the subtree of node `i`.
pub fn subtree_end_of(items: &Vec<XmlItem>, i: usize) -> (r: usize)
    requires
        i < items.len(),
    ensures
        r == subtree_end(items_view(items@), i as int),
        i < r <= items.len(),
{
    let ghost v = items_view(items@);
    let mut m: usize = i + 1;
    while m < items.len() && items[m].depth > items[i].depth
        invariant
            i < m <= items.len(),
            v == items_view(items@),
            scan_end(v, i as int, i + 1) == scan_end(v, i as int, m as int),
        decreases items.len() - m,
    {
        assert(v[m as int].depth == items@[m as int].depth as int);
        m += 1;
    }
    proof {
        if m < items.len() {
            assert(v[m as int].depth == items@[m as int].depth as int);
            assert(v[i as int].depth == items@[i as int].depth as int);
        }
    }
    m
}

/// The text of the text nodes among `from .. to`, concatenated.
fn texts_between(items: &Vec<XmlItem>, from: usize, to: usize) -> (r: String)
    requires
        from <= to <= items.len(),
    ensures
        r@ == texts_in(items_view(items@), from as int, to as int),
{
    let ghost v = items_view(items@);
    let mut out = String::new();
    let mut m: usize = from;
    while m < to
        invariant
            from <= m <= to <= items.len(),
            v == items_view(items@),
            out@ == texts_in(v, from as int, m as int),
        decreases to - m,
    {
        let ghost before = out@;
        if items[m].kind == XmlKind::Text {
            out.append(items[m].text.as_str());
            assert(out@ == before + v[m as int].text);
        } else {
            assert(before + Seq::<char>::empty() =~= before);
        }
        m += 1;
    }
    out
}

/// Recursively collects and normalizes all inner text within node `i`,
/// stripping inner markup (e.g. `<em>`, `<code>`, `<a>`).
pub fn collect_node_text(items: &Vec<XmlItem>, i: usize) -> (r: String)
    requires
        i < items.len(),
    ensures
        r@ == node_text(items_view(items@), i as int),
{
    let end = subtree_end_of(items, i);
    let all = texts_between(items, i, end);
    collapse_whitespace(all.as_str())
}

fn is_list_name(n: &str) -> (r: bool)
    ensures
        r == (n@ == "ul"@ || n@ == "ol"@),
{
    str_eq(n, "ul") || str_eq(n, "ol")
}

/// Whether node `j` or one of its ancestors is a `ul` or `ol` element.
fn in_list_exec(items: &Vec<XmlItem>, j: usize) -> (r: bool)
    requires
        j < items.len(),
    ensures
        r == in_list(items_view(items@), j as int),
{
    let ghost v = items_view(items@);
    assert(v[j as int].name == items@[j as int].name@);
    assert(v[j as int].depth == items@[j as int].depth as int);
    if is_list_name(items[j].name.as_str()) {
        assert(j == j && (v[j as int].name == "ul"@ || v[j as int].name == "ol"@));
        return true;
    }
    let mut cur: usize = items[j].depth;
    assert(cur == v[j as int].depth);
    let mut k: usize = j;
    while k > 0
        invariant
            k <= j < items.len(),
            v == items_view(items@),
            !(v[j as int].name == "ul"@ || v[j as int].name == "ol"@),
            forall|m: int| k <= m <= j ==> cur <= #[trigger] v[m].depth,
            exists|m: int| k <= m <= j && cur == #[trigger] v[m].depth,
            forall|q: int|
                k <= q < j && is_ancestor(v, q, j as int) ==> !(v[q].name == "ul"@ || v[q].name == "ol"@),
        decreases k,
    {
        let q = k - 1;
        assert(v[q as int].depth == items@[q as int].depth as int);
        let ghost w = choose|m: int| k <= m <= j && cur == #[trigger] v[m].depth;
        if items[q].depth < cur {
            assert(is_ancestor(v, q as int, j as int)) by {
                assert forall|m: int| q < m < j implies v[q as int].depth < #[trigger] v[m].depth by {
                    assert(cur <= v[m].depth);
                }
                assert(cur <= v[j as int].depth);
            }
            assert(v[q as int].name == items@[q as int].name@);
            if is_list_name(items[q].name.as_str()) {
                assert(is_ancestor(v, q as int, j as int) && (v[q as int].name == "ul"@ || v[q as int].name == "ol"@));
                return true;
            }
            cur = items[q].depth;
        } else {
            assert(!is_ancestor(v, q as int, j as int)) by {
                if w < j {
                    assert(!(v[q as int].depth < v[w].depth));
                }
            }
        }
        k = q;
    }
    false
}


/// The bullet entries of the list element `j`.
fn list_entries_of(items: &Vec<XmlItem>, j: usize, end: usize) -> (r: Vec<String>)
    requires
        j < end <= items.len(),
    ensures
        views(r@) == list_entries(items_view(items@), j as int, j + 1, end as int),
{
    let ghost v = items_view(items@);
    let mut out: Vec<String> = Vec::new();
    let mut m: usize = j + 1;
    while m < end
        invariant
            j < m <= end <= items.len(),
            v == items_view(items@),
            views(out@) == list_entries(v, j as int, j + 1, m as int),
        decreases end - m,
    {
        assert(v[m as int].depth == items@[m as int].depth as int);
        assert(v[j as int].depth == items@[j as int].depth as int);
        let ghost before = views(out@);
        if items[m].depth > items[j].depth && items[m].depth - 1 == items[j].depth && items[m].kind == XmlKind::Element && str_eq(
            items[m].name.as_str(),
            "li",
        ) {
            let text = collect_node_text(items, m);
            if !text.as_str().is_empty() {
                let entry = concat2("- ", text.as_str());
                out.push(entry);
                assert(views(out@) =~= before.push("- "@ + node_text(v, m as int)));
            }
        }
        m += 1;
    }
    out
}

/// The block that element `j` contributes to formatted text.
fn block_of_exec(items: &Vec<XmlItem>, j: usize) -> (r: Option<(bool, String)>)
    requires
        j < items.len(),
    ensures
        match r {
            Some(b) => block_of(items_view(items@), j as int) == Some((b.0, b.1@)),
            None => block_of(items_view(items@), j as int) is None,
        },
{
    let ghost v = items_view(items@);
    if items[j].kind != XmlKind::Element {
        return None;
    }
    let n = items[j].name.as_str();
    assert(v[j as int].name == n@);
    if str_eq(n, "li") && in_list_exec(items, j) {
        return None;
    }
    if str_eq(n, "p") {
        let text = collect_node_text(items, j);
        if !text.as_str().is_empty() {
            return Some((false, text));
        }
        return None;
    }
    if str_eq(n, "ul") || str_eq(n, "ol") {
        let end = subtree_end_of(items, j);
        let entries = list_entries_of(items, j, end);
        if entries.len() > 0 {
            let joined = join(&entries, "\n");
            return Some((true, joined));
        }
        return None;
    }
    None
}

/// Formats an AppStream XML node containing `<p>`, `<ul>`, `<ol>`, and `<li>`
/// elements into plain text: paragraphs, and lists as `- ` lines, separated by a
/// blank line, or a single newline where a list follows a paragraph.
pub fn format_appstream_node(items: &Vec<XmlItem>, i: usize) -> (r: String)
    requires
        i < items.len(),
    ensures
        r@ == formatted(items_view(items@), i as int),
{
    let ghost v = items_view(items@);
    let end = subtree_end_of(items, i);
    let mut out = String::new();
    let mut prev: Option<bool> = None;
    let mut j: usize = i + 1;
    while j < end
        invariant
            i < j <= end <= items.len(),
            v == items_view(items@),
            end == subtree_end(v, i as int),
            out@ == assemble(blocks_in(v, i + 1, j as int)),
            match prev {
                Some(p) => blocks_in(v, i + 1, j as int).len() > 0 && blocks_in(v, i + 1, j as int).last().0 == p,
                None => blocks_in(v, i + 1, j as int).len() == 0,
            },
        decreases end - j,
    {
        let ghost bs = blocks_in(v, i + 1, j as int);
        match block_of_exec(items, j) {
            Some(b) => {
                let ghost nb = bs.push((b.0, b.1@));
                assert(nb.drop_last() =~= bs);
                match prev {
                    Some(p) => {
                        if !p && b.0 {
                            out.append("\n");
                        } else {
                            out.append("\n\n");
                        }
                        out.append(b.1.as_str());
                        assert(nb[nb.len() - 2] == bs.last());
                    },
                    None => {
                        out = b.1;
                    },
                }
                prev = Some(b.0);
            },
            None => {},
        }
        j += 1;
    }
    out
}

/// The index of the first element named `name`, in document order.
pub fn first_element_named(items: &Vec<XmlItem>, name: &str) -> (r: Option<usize>)
    ensures
        match r {
            Some(j) => j < items.len() && items_view(items@)[j as int].kind == XmlKind::Element
                && items_view(items@)[j as int].name == name@ && forall|m: int|
                0 <= m < j ==> !(items_view(items@)[m].kind == XmlKind::Element
                    && #[trigger] items_view(items@)[m].name == name@),
            None => forall|m: int|
                0 <= m < items.len() ==> !(items_view(items@)[m].kind == XmlKind::Element
                    && #[trigger] items_view(items@)[m].name == name@),
        },
{
    let ghost v = items_view(items@);
    let mut j: usize = 0;
    while j < items.len()
        invariant
            j <= items.len(),
            v == items_view(items@),
            forall|m: int| 0 <= m < j ==> !(v[m].kind == XmlKind::Element && #[trigger] v[m].name == name@),
        decreases items.len() - j,
    {
        assert(v[j as int].name == items@[j as int].name@);
        if items[j].kind == XmlKind::Element && str_eq(items[j].name.as_str(), name) {
            return Some(j);
        }
        j += 1;
    }
    None
}

/// The value of the first attribute named `key` of node `item`.
pub fn attribute(item: &XmlItem, key: &str) -> (r: Option<String>)
    ensures
        crate::text::opt_view(r) == attribute_value(item@.attributes, key@),
{
    let ghost a = item@.attributes;
    let mut k: usize = 0;
    assert(a.skip(0) =~= a);
    while k < item.attributes.len()
        invariant
            k <= item.attributes.len(),
            a == item@.attributes,
            attribute_value(a, key@) == attribute_value(a.skip(k as int), key@),
        decreases item.attributes.len() - k,
    {
        assert(a.skip(k as int)[0] == a[k as int]);
        assert(a.skip(k as int).drop_first() =~= a.skip(k + 1));
        if str_eq(item.attributes[k].0.as_str(), key) {
            return Some(copy_str(item.attributes[k].1.as_str()));
        }
        k += 1;
    }
    None
}


/// Whether a node is a text node.
pub open spec fn text_node() -> spec_fn(XmlNodeView) -> bool {
    |n: XmlNodeView| n.kind == XmlKind::Text
}

/// The texts of the text nodes of `s`, in order.
pub open spec fn text_pieces(s: Seq<XmlNodeView>) -> Seq<Seq<char>> {
    s.filter(text_node()).map_values(|n: XmlNodeView| n.text)
}

proof fn lemma_scan_end_bounds(items: Seq<XmlNodeView>, i: int, m: int)
    requires
        0 <= m <= items.len(),
    ensures
        m <= scan_end(items, i, m) <= items.len(),
    decreases items.len() - m,
{
    if m < items.len() && items[m].depth > items[i].depth {
        lemma_scan_end_bounds(items, i, m + 1);
    }
}

proof fn lemma_texts_in_pieces(items: Seq<XmlNodeView>, from: int, to: int)
    requires
        0 <= from <= to <= items.len(),
    ensures
        texts_in(items, from, to) == text_pieces(items.subrange(from, to)).flatten_alt(),
    decreases to - from,
{
    let s = items.subrange(from, to);
    if to == from {
        assert(s.len() == 0);
        reveal(Seq::filter);
        assert(text_pieces(s) =~= Seq::<Seq<char>>::empty());
    } else {
        lemma_texts_in_pieces(items, from, to - 1);
        let t = items.subrange(from, to - 1);
        assert(s.drop_last() =~= t);
        assert(s.last() == items[to - 1]);
        reveal(Seq::filter);
        let f = s.filter(text_node());
        let g = t.filter(text_node());
        if items[to - 1].kind == XmlKind::Text {
            assert(f == g.push(items[to - 1]));
            assert(text_pieces(s) =~= text_pieces(t).push(items[to - 1].text));
            assert(text_pieces(s).drop_last() =~= text_pieces(t));
        } else {
            assert(f == g);
            assert(texts_in(items, from, to) =~= texts_in(items, from, to - 1));
        }
    }
}

/// The text of a node is the text of every text node in its whole subtree, at
/// any depth (inside `<em>`, `<code>` or `<a>` too), concatenated in document
/// order, with whitespace runs collapsed to one space.
pub proof fn law_node_text_is_all_subtree_text(items: Seq<XmlNodeView>, i: int)
    requires
        0 <= i < items.len(),
    ensures
        node_text(items, i) == collapse_ws(text_pieces(items.subrange(i, subtree_end(items, i))).flatten()),
{
    lemma_scan_end_bounds(items, i, i + 1);
    lemma_texts_in_pieces(items, i, subtree_end(items, i));
    text_pieces(items.subrange(i, subtree_end(items, i))).lemma_flatten_and_flatten_alt_are_equivalent();
}

}
