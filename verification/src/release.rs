//! The released version of an application and the prefix of its git tags
//! (`v` in `v1.2.0`), from the tag list and the Flathub catalogue.
use vstd::prelude::*;
use crate::text::{
    chars_of, ends_with, lemma_least_index, find_first_digit, finishes_with, first_digit, is_ascii_digit, lines,
    lines_of, opt_str_view, opt_view, split_whitespace, string_of_range, strip_prefix, trim, trim_ws, views,
    without_prefix, words_of,
};

verus! {

/// A tag split at its first ASCII digit: the version from that digit on, and
/// the prefix before it.
pub open spec fn split_tag(tag: Seq<char>) -> Option<(Seq<char>, Seq<char>)> {
    match first_digit(tag) {
        Some(i) => Some((tag.skip(i), tag.take(i))),
        None => None,
    }
}

/// The trimmed, non-empty lines of `git tag -l` output, in order.
pub open spec fn nonempty_trimmed(ls: Seq<Seq<char>>) -> Seq<Seq<char>>
    decreases ls.len(),
{
    if ls.len() == 0 {
        Seq::<Seq<char>>::empty()
    } else {
        let r = nonempty_trimmed(ls.drop_last());
        let t = trim_ws(ls.last());
        if t.len() > 0 {
            r.push(t)
        } else {
            r
        }
    }
}

/// The tag named on one line of `git ls-remote --tags` output: its last word
/// without `refs/tags/`.
pub open spec fn remote_tag_of(line: Seq<char>) -> Option<Seq<char>> {
    let w = words_of(line);
    if w.len() == 0 {
        None
    } else {
        without_prefix(w.last(), "refs/tags/"@)
    }
}

/// The tags named by the lines of `git ls-remote --tags` output, in order.
pub open spec fn remote_tags(ls: Seq<Seq<char>>) -> Seq<Seq<char>>
    decreases ls.len(),
{
    if ls.len() == 0 {
        Seq::<Seq<char>>::empty()
    } else {
        let r = remote_tags(ls.drop_last());
        match remote_tag_of(ls.last()) {
            Some(t) => r.push(t),
            None => r,
        }
    }
}

/// What `serde_json` reads as `releases[0].version` in a Flathub AppStream API
/// reply, when the reply parses as JSON and holds a string there.
pub uninterp spec fn json_first_release_version(body: Seq<char>) -> Option<Seq<char>>;

/// `tag` is `version` behind a prefix without ASCII digits (`v` in `v2.1.0`,
/// but not `v1` in `v12.1.0`).
pub open spec fn carries(tag: Seq<char>, version: Seq<char>) -> bool {
    finishes_with(tag, version) && first_digit(tag.take(tag.len() - version.len())) is None
}

/// The index of the first tag that carries `version`.
pub open spec fn first_carrying(tags: Seq<Seq<char>>, version: Seq<char>) -> Option<int> {
    if exists|i: int| 0 <= i < tags.len() && carries(tags[i], version) {
        Some(
            choose|i: int|
                0 <= i < tags.len() && carries(tags[i], version) && forall|k: int|
                    0 <= k < i ==> !carries(#[trigger] tags[k], version),
        )
    } else {
        None
    }
}

/// The tag prefix that goes with a version the catalogue published: the
/// prefix of the first tag that carries the version, else the part of the newest
/// tag before its first digit, else nothing.
pub open spec fn prefix_for(tags: Seq<Seq<char>>, version: Seq<char>) -> Seq<char> {
    match first_carrying(tags, version) {
        Some(i) => tags[i].take(tags[i].len() - version.len()),
        None => if tags.len() > 0 {
            match split_tag(tags[0]) {
                Some((_, p)) => p,
                None => Seq::<char>::empty(),
            }
        } else {
            Seq::<char>::empty()
        },
    }
}

/// `detect_version_and_prefix` over the tags (newest first) and the version the
/// catalogue published: that version with its prefix, else the newest tag split
/// at its first digit.
pub open spec fn version_and_prefix(tags: Seq<Seq<char>>, published: Option<Seq<char>>) -> Option<(Seq<char>, Seq<char>)> {
    match published {
        Some(v) => Some((v, prefix_for(tags, v))),
        None => if tags.len() > 0 {
            split_tag(tags[0])
        } else {
            None
        },
    }
}

/// A tag split at its first ASCII digit into (version, prefix).
pub fn split_at_first_digit(tag: &str) -> (r: Option<(String, String)>)
    ensures
        match r {
            Some((v, p)) => split_tag(tag@) == Some((v@, p@)),
            None => split_tag(tag@) is None,
        },
{
    let cs = chars_of(tag);
    match find_first_digit(&cs) {
        Some(i) => {
            let p = string_of_range(cs.as_slice(), 0, i);
            let v = string_of_range(cs.as_slice(), i, cs.len());
            assert(cs@.subrange(0, i as int) =~= tag@.take(i as int));
            assert(cs@.subrange(i as int, cs.len() as int) =~= tag@.skip(i as int));
            Some((v, p))
        },
        None => None,
    }
}

/// The tags listed by `git tag -l`: each line trimmed, empty lines left out.
pub fn local_tag_list(output: &str) -> (r: Vec<String>)
    ensures
        views(r@) == nonempty_trimmed(lines_of(output@)),
{
    let ls = lines(output);
    let ghost all = views(ls@);
    let mut r: Vec<String> = Vec::new();
    let mut k: usize = 0;
    assert(all.take(0) =~= Seq::<Seq<char>>::empty());
    while k < ls.len()
        invariant
            k <= ls.len(),
            all == views(ls@),
            views(r@) == nonempty_trimmed(all.take(k as int)),
        decreases ls.len() - k,
    {
        assert(all.take(k + 1).drop_last() =~= all.take(k as int));
        assert(all.take(k + 1).last() == ls@[k as int]@);
        let t = trim(ls[k].as_str());
        if !t.as_str().is_empty() {
            let ghost before = views(r@);
            r.push(t);
            assert(views(r@) =~= before.push(trim_ws(ls@[k as int]@)));
        }
        k += 1;
    }
    assert(all.take(ls.len() as int) =~= all);
    r
}

/// The tag on one line of `git ls-remote --tags` output.
fn remote_tag(line: &str) -> (r: Option<String>)
    ensures
        opt_view(r) == remote_tag_of(line@),
{
    let words = split_whitespace(line);
    if words.len() == 0 {
        return None;
    }
    let n = words.len();
    assert(views(words@).last() == words@[n - 1]@);
    strip_prefix(words[n - 1].as_str(), "refs/tags/")
}

/// The tags named by `git ls-remote --tags --refs` output, in order.
pub fn remote_tag_list(output: &str) -> (r: Vec<String>)
    ensures
        views(r@) == remote_tags(lines_of(output@)),
{
    let ls = lines(output);
    let ghost all = views(ls@);
    let mut r: Vec<String> = Vec::new();
    let mut k: usize = 0;
    assert(all.take(0) =~= Seq::<Seq<char>>::empty());
    while k < ls.len()
        invariant
            k <= ls.len(),
            all == views(ls@),
            views(r@) == remote_tags(all.take(k as int)),
        decreases ls.len() - k,
    {
        assert(all.take(k + 1).drop_last() =~= all.take(k as int));
        assert(all.take(k + 1).last() == ls@[k as int]@);
        match remote_tag(ls[k].as_str()) {
            Some(t) => {
                let ghost before = views(r@);
                r.push(t);
                assert(views(r@) =~= before.push(remote_tag_of(ls@[k as int]@)->0));
            },
            None => {},
        }
        k += 1;
    }
    assert(all.take(ls.len() as int) =~= all);
    r
}

/// Reads `releases[0].version` from a Flathub AppStream API reply with
/// `serde_json`: `serde_json::from_str` into a `serde_json::Value`, then
/// indexing, which yields `Null` where a key or an element is missing, and
/// `Value::as_str`. The contract names the result; nothing more is claimed.
#[verifier::external_body]
fn first_release_version(body: &str) -> (r: Option<String>)
    ensures
        opt_view(r) == json_first_release_version(body@),
{
    let data: serde_json::Value = match serde_json::from_str(body) {
        Ok(d) => d,
        Err(_) => return None,
    };
    data["releases"][0]["version"].as_str().map(String::from)
}

/// The version a Flathub AppStream API reply names for the latest release,
/// trimmed, when it is not empty.
pub fn flathub_version(body: &str) -> (r: Option<String>)
    ensures
        opt_view(r) == match json_first_release_version(body@) {
            Some(v) => if trim_ws(v).len() > 0 {
                Some(trim_ws(v))
            } else {
                None
            },
            None => None,
        },
{
    match first_release_version(body) {
        Some(v) => {
            let t = trim(v.as_str());
            if t.as_str().is_empty() {
                None
            } else {
                Some(t)
            }
        },
        None => None,
    }
}

/// Whether `tag` carries `version` behind a digit-free prefix.
fn carries_version(tag: &str, version: &str) -> (r: bool)
    ensures
        r == carries(tag@, version@),
{
    if !ends_with(tag, version) {
        return false;
    }
    let cs = chars_of(tag);
    let vc = chars_of(version);
    let prefix = chars_of(string_of_range(cs.as_slice(), 0, cs.len() - vc.len()).as_str());
    assert(prefix@ =~= tag@.take(tag@.len() - version@.len()));
    find_first_digit(&prefix).is_none()
}

/// The index of the first tag that carries `version`.
fn find_carrying(tags: &Vec<String>, version: &str) -> (r: Option<usize>)
    ensures
        match r {
            Some(i) => i < tags.len() && first_carrying(views(tags@), version@) == Some(i as int)
                && carries(views(tags@)[i as int], version@),
            None => first_carrying(views(tags@), version@) is None,
        },
{
    let ghost t = views(tags@);
    let mut i: usize = 0;
    while i < tags.len()
        invariant
            i <= tags.len(),
            t == views(tags@),
            forall|k: int| 0 <= k < i ==> !carries(#[trigger] t[k], version@),
        decreases tags.len() - i,
    {
        assert(t[i as int] == tags@[i as int]@);
        if carries_version(tags[i].as_str(), version) {
            proof {
                assert(carries(t[i as int], version@));
                let w = choose|w: int|
                    0 <= w < t.len() && carries(t[w], version@) && forall|k: int|
                        0 <= k < w ==> !carries(#[trigger] t[k], version@);
                if w < i {
                } else if w > i {
                    assert(!carries(t[i as int], version@));
                }
            }
            return Some(i);
        }
        i += 1;
    }
    None
}

/// The prefix that goes with the published `version` (see `prefix_for`).
fn tag_prefix_for(git_tags: &Vec<String>, version: &str) -> (r: String)
    ensures
        r@ == prefix_for(views(git_tags@), version@),
{
    let ghost t = views(git_tags@);
    match find_carrying(git_tags, version) {
        Some(i) => {
            let cs = chars_of(git_tags[i].as_str());
            let vc = chars_of(version);
            assert(t[i as int] == git_tags@[i as int]@);
            let p = string_of_range(cs.as_slice(), 0, cs.len() - vc.len());
            assert(cs@.subrange(0, cs.len() - vc.len()) =~= t[i as int].take(
                t[i as int].len() - version@.len(),
            ));
            p
        },
        None => {
            if git_tags.len() > 0 {
                assert(t[0] == git_tags@[0]@);
                match split_at_first_digit(git_tags[0].as_str()) {
                    Some((_, p)) => p,
                    None => String::new(),
                }
            } else {
                String::new()
            }
        },
    }
}

/// The version and tag prefix of the application: the version the Flathub
/// catalogue published (`published`) with the prefix of the tag that carries
/// it, else the newest of `git_tags` (newest first) split at its first digit.
pub fn detect_version_and_prefix(git_tags: &Vec<String>, published: Option<&str>) -> (r: Option<(String, String)>)
    ensures
        match r {
            Some((v, p)) => version_and_prefix(views(git_tags@), opt_str_view(published)) == Some((v@, p@)),
            None => version_and_prefix(views(git_tags@), opt_str_view(published)) is None,
        },
{
    match published {
        Some(version) => {
            let prefix = tag_prefix_for(git_tags, version);
            Some((crate::text::copy_str(version), prefix))
        },
        None => {
            if git_tags.len() > 0 {
                assert(views(git_tags@)[0] == git_tags@[0]@);
                split_at_first_digit(git_tags[0].as_str())
            } else {
                None
            }
        },
    }
}

/// A tag split at its first digit gives back the tag: the prefix followed by
/// the version is the tag, the version starts with that digit and the prefix
/// holds no digit.
pub proof fn law_split_tag_rejoins(tag: Seq<char>)
    requires
        split_tag(tag) is Some,
    ensures
        match split_tag(tag) {
            Some((v, p)) => {
                &&& p + v == tag
                &&& v.len() > 0
                &&& is_ascii_digit(v[0])
                &&& forall|k: int| 0 <= k < p.len() ==> !is_ascii_digit(#[trigger] p[k])
            },
            None => true,
        },
{
    if first_digit(tag) is Some {
        let f = |k: int| is_ascii_digit(tag[k]);
        let j = choose|j: int| 0 <= j < tag.len() && is_ascii_digit(tag[j]);
        assert(0 <= j < tag.len() && f(j));
        lemma_least_index(f, tag.len() as int);
        let i0 = choose|i: int| #![trigger f(i)] 0 <= i < tag.len() && f(i) && forall|k: int| 0 <= k < i ==> !#[trigger] f(k);
        assert forall|k: int| 0 <= k < i0 implies !is_ascii_digit(#[trigger] tag[k]) by {
            assert(!f(k));
        }
        assert(0 <= i0 < tag.len() && is_ascii_digit(tag[i0]) && forall|k: int|
            0 <= k < i0 ==> !is_ascii_digit(#[trigger] tag[k]));
        let i = first_digit(tag)->0;
        assert(0 <= i < tag.len() && is_ascii_digit(tag[i]) && forall|k: int|
            0 <= k < i ==> !is_ascii_digit(#[trigger] tag[k]));
        let v = tag.skip(i);
        let p = tag.take(i);
        assert(p + v =~= tag);
        assert(v[0] == tag[i]);
        assert forall|k: int| 0 <= k < p.len() implies !is_ascii_digit(#[trigger] p[k]) by {
            assert(p[k] == tag[k]);
        }
    }
}

/// The prefix found for a published version, followed by the version, is a
/// tag, and holds no digit, where some tag carries the version behind a
/// digit-free prefix.
pub proof fn law_prefix_completes_tag(tags: Seq<Seq<char>>, version: Seq<char>)
    requires
        exists|i: int| 0 <= i < tags.len() && carries(tags[i], version),
    ensures
        exists|i: int| 0 <= i < tags.len() && tags[i] == prefix_for(tags, version) + version,
        first_digit(prefix_for(tags, version)) is None,
{
    let f = |k: int| carries(tags[k], version);
    let j = choose|j: int| 0 <= j < tags.len() && carries(tags[j], version);
    assert(0 <= j < tags.len() && f(j));
    lemma_least_index(f, tags.len() as int);
    let i0 = choose|i: int| #![trigger f(i)] 0 <= i < tags.len() && f(i) && forall|k: int| 0 <= k < i ==> !#[trigger] f(k);
    assert forall|k: int| 0 <= k < i0 implies !carries(#[trigger] tags[k], version) by {
        assert(!f(k));
    }
    assert(0 <= i0 < tags.len() && carries(tags[i0], version) && forall|k: int|
        0 <= k < i0 ==> !carries(#[trigger] tags[k], version));
    let i = first_carrying(tags, version)->0;
    assert(0 <= i < tags.len() && carries(tags[i], version));
    let t = tags[i];
    assert(prefix_for(tags, version) == t.take(t.len() - version.len()));
    assert(t.take(t.len() - version.len()) + version =~= t);
}

} // verus!
