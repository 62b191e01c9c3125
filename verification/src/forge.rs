//! Source-forge detection and the `Source0` URL pattern of each forge.
use vstd::prelude::*;
use crate::text::{begins_with, concat2, concat3, contains, copy_str, has_substr, starts_with};

verus! {

/// The code-hosting service a repository lives on.
#[derive(Debug, Clone, Copy, PartialEq, Eq, Structural)]
pub enum Forge {
    GitHub,
    Codeberg,
    GitLab,
    Generic,
}

/// The forge that a repository URL names: the first of `github.com`,
/// `codeberg.org` and `gitlab.` that occurs in it, else `Generic`.
pub open spec fn forge_of(url: Seq<char>) -> Forge {
    if has_substr(url, "github.com"@) {
        Forge::GitHub
    } else if has_substr(url, "codeberg.org"@) {
        Forge::Codeberg
    } else if has_substr(url, "gitlab."@) {
        Forge::GitLab
    } else {
        Forge::Generic
    }
}

/// The `Source0` value for `forge`, given the cleaned repository URL and the tag prefix.
pub open spec fn source_url_pattern(forge: Forge, clean_url: Seq<char>, tag_prefix: Seq<char>) -> Seq<char> {
    if !begins_with(clean_url, "http://"@) && !begins_with(clean_url, "https://"@) {
        "%{name}-%{version}.tar.gz"@
    } else {
        let tag_var = if tag_prefix.len() == 0 {
            "%{version}"@
        } else {
            tag_prefix + "%{version}"@
        };
        match forge {
            Forge::GitLab => "%{url}/-/archive/"@ + tag_var + ".tar.gz"@,
            _ => "%{url}/archive/"@ + tag_var + ".tar.gz"@,
        }
    }
}

impl Forge {
    /// Detect forge provider from repository URL
    pub fn detect(repo_url: &str) -> (f: Forge)
        ensures
            f == forge_of(repo_url@),
    {
        if contains(repo_url, "github.com") {
            Forge::GitHub
        } else if contains(repo_url, "codeberg.org") {
            Forge::Codeberg
        } else if contains(repo_url, "gitlab.") {
            Forge::GitLab
        } else {
            Forge::Generic
        }
    }

    /// Formats the Source0 URL pattern according to the forge provider conventions
    pub fn format_source_url(&self, clean_url: &str, tag_prefix: &str) -> (r: String)
        ensures
            r@ == source_url_pattern(*self, clean_url@, tag_prefix@),
    {
        if !starts_with(clean_url, "http://") && !starts_with(clean_url, "https://") {
            return copy_str("%{name}-%{version}.tar.gz");
        }
        let tag_var = if tag_prefix.is_empty() {
            copy_str("%{version}")
        } else {
            concat2(tag_prefix, "%{version}")
        };
        match self {
            Forge::GitLab => concat3("%{url}/-/archive/", tag_var.as_str(), ".tar.gz"),
            _ => concat3("%{url}/archive/", tag_var.as_str(), ".tar.gz"),
        }
    }
}

/// A URL that is not an `http://` or `https://` URL gets the plain
/// `%{name}-%{version}.tar.gz` pattern, whatever the forge and the tag prefix.
pub proof fn law_local_sources_use_plain_tarball(forge: Forge, clean_url: Seq<char>, tag_prefix: Seq<char>)
    requires
        !begins_with(clean_url, "http://"@),
        !begins_with(clean_url, "https://"@),
    ensures
        source_url_pattern(forge, clean_url, tag_prefix) == "%{name}-%{version}.tar.gz"@,
{
}

/// GitLab URLs use the `/-/archive/` route; every other forge uses `/archive/`,
/// and both end in the tag followed by `.tar.gz`.
pub proof fn law_archive_route(forge: Forge, clean_url: Seq<char>, tag_prefix: Seq<char>)
    requires
        begins_with(clean_url, "http://"@) || begins_with(clean_url, "https://"@),
    ensures
        source_url_pattern(forge, clean_url, tag_prefix) == (if forge == Forge::GitLab {
            "%{url}/-/archive/"@
        } else {
            "%{url}/archive/"@
        }) + tag_prefix + "%{version}"@ + ".tar.gz"@,
{
    if tag_prefix.len() == 0 {
        assert(tag_prefix + "%{version}"@ =~= "%{version}"@);
    }
}

}
