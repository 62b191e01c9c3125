//! Where the project comes from: the repository's name and its web address.
use vstd::prelude::*;
use crate::text::{
    begins_with, concat2, concat3, copy_str, last_piece, opt_view, replace, replaced, split_on, starts_with,
    strip_suffixes, trim, trim_end_matches, trim_ws,
};
use crate::workspace::{exists_at, Workspace};

verus! {

pub struct RepoResolver;

/// What `std::path::Path::file_name` gives for a path written as text: its
/// last component, if it has one.
pub uninterp spec fn path_file_name(path: Seq<char>) -> Option<Seq<char>>;

/// The last component of a path (`Path::file_name`), as text. The contract
/// names the result; which component that is, is not stated.
#[verifier::external_body]
fn file_name_of(path: &str) -> (r: Option<String>)
    ensures
        opt_view(r) == path_file_name(path@),
{
    std::path::Path::new(path).file_name().map(|n| n.to_string_lossy().into_owned())
}

/// An input that names a remote repository rather than a local directory.
pub open spec fn remote_input(input: Seq<char>) -> bool {
    begins_with(input, "http://"@) || begins_with(input, "https://"@) || begins_with(input, "git@"@)
}

/// The repository name in a URL: the last `/`-separated part once trailing
/// slashes and `.git` are gone, when it is neither empty nor hidden; else the
/// last component of the workspace path; else `app`.
pub open spec fn repo_name(workspace_path: Seq<char>, url: Seq<char>) -> Seq<char> {
    let clean = strip_suffixes(strip_suffixes(url, "/"@), ".git"@);
    let last = split_on(clean, '/').last();
    if last.len() > 0 && !begins_with(last, "."@) {
        last
    } else {
        match path_file_name(workspace_path) {
            Some(n) => n,
            None => "app"@,
        }
    }
}

/// The origin remote of a git checkout, trimmed, or nothing.
pub open spec fn origin_remote(ws: Workspace) -> Seq<char> {
    if exists_at(ws.ents(), seq![".git"@]) {
        match opt_view(ws.git_remote) {
            Some(r) => trim_ws(r),
            None => Seq::<char>::empty(),
        }
    } else {
        Seq::<char>::empty()
    }
}

/// The https address for a remote: an SSH remote `git@host:path` becomes
/// `https://host/path`; then a trailing `.git` and trailing slashes go.
pub open spec fn web_url_of(remote: Seq<char>) -> Seq<char> {
    let url = if begins_with(remote, "git@"@) {
        replaced(replaced(remote, ":"@, "/"@), "git@"@, "https://"@)
    } else {
        remote
    };
    strip_suffixes(strip_suffixes(url, ".git"@), "/"@)
}

impl RepoResolver {
    /// Whether the input is a repository URL (`http://`, `https://` or `git@`)
    /// rather than a local path.
    pub fn is_remote_input(input: &str) -> (r: bool)
        ensures
            r == remote_input(input@),
    {
        starts_with(input, "http://") || starts_with(input, "https://") || starts_with(input, "git@")
    }

    /// Extracts the repository name from a Git URL, keeping its casing, with
    /// the workspace directory's name (else `app`) as the fallback.
    pub fn extract_repo_name(workspace_path: &str, repo_url: &str) -> (r: String)
        ensures
            r@ == repo_name(workspace_path@, repo_url@),
    {
        let no_slash = trim_end_matches(repo_url, "/");
        let clean = trim_end_matches(no_slash.as_str(), ".git");
        let repo = last_piece(clean.as_str(), '/');
        if !repo.as_str().is_empty() && !starts_with(repo.as_str(), ".") {
            return repo;
        }
        match file_name_of(workspace_path) {
            Some(n) => n,
            None => copy_str("app"),
        }
    }

    /// The canonical https address of the workspace's origin remote, or the
    /// empty string when the workspace is not a git checkout with one.
    pub fn resolve_web_url(ws: &Workspace) -> (r: String)
        ensures
            r@ == web_url_of(origin_remote(*ws)),
    {
        let git = vec![".git"];
        assert(git@.map_values(|s: &str| s@) =~= seq![".git"@]);
        let mut url = String::new();
        if ws.path_exists(&git) {
            if let Some(out) = &ws.git_remote {
                url = trim(out.as_str());
            }
        }
        assert(url@ == origin_remote(*ws));
        if starts_with(url.as_str(), "git@") {
            proof {
                reveal_strlit(":");
                reveal_strlit("git@");
            }
            let colons = replace(url.as_str(), ":", "/");
            url = replace(colons.as_str(), "git@", "https://");
        }
        let no_git = trim_end_matches(url.as_str(), ".git");
        trim_end_matches(no_git.as_str(), "/")
    }

    /// Whether a checkout has to move to `tag`: it is not at that tag now
    /// (`current` is what `git describe --tags --exact-match` reported).
    pub fn needs_checkout(current: Option<&str>, tag: &str) -> (r: bool)
        ensures
            r == match current {
                Some(c) => c@ != tag@,
                None => true,
            },
    {
        match current {
            Some(c) => !crate::text::str_eq(c, tag),
            None => true,
        }
    }
}


// ---------------------------------------------------------------------------
// Preparing the workspace: the decisions between the git operations
// ---------------------------------------------------------------------------

/// Where the preparation of a workspace stands.
#[derive(Debug, Clone, Copy, PartialEq, Eq, Structural)]
pub enum Phase {
    /// Nothing done yet.
    Start,
    /// A remote input: waiting for the directory that caches its checkout.
    AwaitDir,
    /// Waiting to learn whether a git checkout is cached there.
    AwaitCache,
    /// A cached checkout: waiting for its release tag.
    AwaitCachedTag,
    /// Waiting to learn whether the release tag exists in the cached checkout.
    AwaitTagExists,
    /// The tag exists: waiting for the tag the checkout is at.
    AwaitCachedCurrent,
    /// Waiting for a fetch of the remote to end.
    AwaitFetch,
    /// Waiting for a clone to end.
    AwaitClone,
    /// A local input: waiting to learn whether the path exists.
    AwaitLocal,
    /// The workspace directory is known: waiting to learn whether it is a git checkout.
    AwaitGit,
    /// Waiting for the release tag to check out.
    AwaitTag,
    /// Waiting for the tag the checkout is at.
    AwaitCurrent,
    /// Waiting for the checkout of the release tag to end.
    AwaitCheckout,
    /// The workspace is ready.
    Done,
    /// The workspace cannot be prepared.
    Failed,
}

/// What the preparation needs done next.
#[derive(Debug, Clone, Copy, PartialEq, Eq, Structural)]
pub enum ActionKind {
    /// Give the cache directory for the repository named `text`.
    CacheDir,
    /// Tell whether `dir` exists and holds a `.git`.
    ProbeCache,
    /// Give the release tag of the checkout in `dir`, if one can be found.
    TargetTag,
    /// Tell whether `tag` exists in the checkout in `dir`.
    TagExists,
    /// Give the tag that the checkout in `dir` is at, if any.
    CurrentTag,
    /// Fetch the remote's updates into `dir`.
    Fetch,
    /// Clone the repository `text` into `dir`; tell whether that succeeded.
    Clone,
    /// Tell whether the local path `text` exists.
    PathExists,
    /// Tell whether `dir` holds a `.git`.
    IsGit,
    /// Check out `tag` in `dir`.
    Checkout,
    /// The workspace is `dir`.
    Finish,
    /// Stop; `note` says why.
    Fail,
}

/// The state of the preparation.
pub struct PrepareState {
    pub phase: Phase,
    /// The repository path or URL given.
    pub input: String,
    /// The workspace directory, once known.
    pub dir: String,
    /// The release tag, once known.
    pub tag: String,
}

/// One step to perform, with a message to show before it.
pub struct PrepareAction {
    pub kind: ActionKind,
    pub dir: String,
    pub text: String,
    pub tag: String,
    pub note: Option<String>,
}

/// What performing the previous action gave.
pub enum PrepareEvent {
    /// The preparation starts.
    Begin,
    /// A directory.
    Path(String),
    /// A yes or no answer.
    Flag(bool),
    /// A tag, if there is one.
    Tag(Option<String>),
}

/// The mathematical content of a `PrepareState`.
pub struct PlanView {
    pub phase: Phase,
    pub input: Seq<char>,
    pub dir: Seq<char>,
    pub tag: Seq<char>,
}

/// The mathematical content of a `PrepareAction`.
pub struct ActionView {
    pub kind: ActionKind,
    pub dir: Seq<char>,
    pub text: Seq<char>,
    pub tag: Seq<char>,
    pub note: Option<Seq<char>>,
}

/// The mathematical content of a `PrepareEvent`.
pub enum EventView {
    Begin,
    Path(Seq<char>),
    Flag(bool),
    Tag(Option<Seq<char>>),
}

impl View for PrepareState {
    type V = PlanView;

    open spec fn view(&self) -> PlanView {
        PlanView { phase: self.phase, input: self.input@, dir: self.dir@, tag: self.tag@ }
    }
}

impl View for PrepareAction {
    type V = ActionView;

    open spec fn view(&self) -> ActionView {
        ActionView { kind: self.kind, dir: self.dir@, text: self.text@, tag: self.tag@, note: opt_view(self.note) }
    }
}

impl View for PrepareEvent {
    type V = EventView;

    open spec fn view(&self) -> EventView {
        match self {
            PrepareEvent::Begin => EventView::Begin,
            PrepareEvent::Path(p) => EventView::Path(p@),
            PrepareEvent::Flag(b) => EventView::Flag(*b),
            PrepareEvent::Tag(t) => EventView::Tag(opt_view(*t)),
        }
    }
}

/// `s` moved to `phase`.
pub open spec fn moved(s: PlanView, phase: Phase) -> PlanView {
    PlanView { phase, ..s }
}

/// An action of kind `kind` on the state's directory and tag.
pub open spec fn act(kind: ActionKind, s: PlanView, text: Seq<char>, note: Option<Seq<char>>) -> ActionView {
    ActionView { kind, dir: s.dir, text, tag: s.tag, note }
}

/// The answer to an event that the phase does not expect.
pub open spec fn out_of_turn(s: PlanView) -> (PlanView, ActionView) {
    (moved(s, Phase::Failed), act(ActionKind::Fail, s, Seq::empty(), Some("unexpected answer while preparing the workspace"@)))
}

/// The next state and action of the preparation, after `e`.
///
/// A remote input is cloned into its cache directory, or, where a checkout is
/// cached there, fetched unless its release tag is already present; a local
/// input must exist. Then a git checkout is moved to its release tag unless
/// it is at that tag already.
pub open spec fn plan(s: PlanView, e: EventView) -> (PlanView, ActionView) {
    match (s.phase, e) {
        (Phase::Start, EventView::Begin) => if remote_input(s.input) {
            (moved(s, Phase::AwaitDir), act(ActionKind::CacheDir, s, repo_name(s.input, s.input), None))
        } else {
            (moved(s, Phase::AwaitLocal), act(ActionKind::PathExists, s, s.input, None))
        },
        (Phase::AwaitDir, EventView::Path(d)) => {
            let n = PlanView { phase: Phase::AwaitCache, dir: d, ..s };
            (n, act(ActionKind::ProbeCache, n, Seq::empty(), None))
        },
        (Phase::AwaitCache, EventView::Flag(cached)) => if cached {
            (
                moved(s, Phase::AwaitCachedTag),
                act(ActionKind::TargetTag, s, Seq::empty(), Some("Found existing workspace at "@ + s.dir)),
            )
        } else {
            (
                moved(s, Phase::AwaitClone),
                act(ActionKind::Clone, s, s.input, Some("Cloning workspace from "@ + s.input + " to "@ + s.dir + "..."@)),
            )
        },
        (Phase::AwaitCachedTag, EventView::Tag(t)) => match t {
            Some(tag) => {
                let n = PlanView { phase: Phase::AwaitTagExists, tag, ..s };
                (n, act(ActionKind::TagExists, n, Seq::empty(), None))
            },
            None => (moved(s, Phase::AwaitFetch), act(ActionKind::Fetch, s, Seq::empty(), Some("Fetching remote updates..."@))),
        },
        (Phase::AwaitTagExists, EventView::Flag(exists)) => if exists {
            (moved(s, Phase::AwaitCachedCurrent), act(ActionKind::CurrentTag, s, Seq::empty(), None))
        } else {
            (moved(s, Phase::AwaitFetch), act(ActionKind::Fetch, s, Seq::empty(), Some("Fetching remote updates..."@)))
        },
        (Phase::AwaitCachedCurrent, EventView::Tag(current)) => {
            let note = if current == Some(s.tag) {
                "Workspace is already up to date at tag '"@ + s.tag + "'. Skipping fetch."@
            } else {
                "Target tag '"@ + s.tag + "' exists locally. Skipping fetch."@
            };
            (moved(s, Phase::AwaitGit), act(ActionKind::IsGit, s, Seq::empty(), Some(note)))
        },
        (Phase::AwaitFetch, EventView::Flag(_)) => (moved(s, Phase::AwaitGit), act(ActionKind::IsGit, s, Seq::empty(), None)),
        (Phase::AwaitClone, EventView::Flag(ok)) => if ok {
            (moved(s, Phase::AwaitGit), act(ActionKind::IsGit, s, Seq::empty(), None))
        } else {
            (moved(s, Phase::Failed), act(ActionKind::Fail, s, Seq::empty(), Some("Failed to clone Git repository: "@ + s.input)))
        },
        (Phase::AwaitLocal, EventView::Flag(exists)) => if exists {
            let n = PlanView { phase: Phase::AwaitGit, dir: s.input, ..s };
            (n, act(ActionKind::IsGit, n, Seq::empty(), None))
        } else {
            (moved(s, Phase::Failed), act(ActionKind::Fail, s, Seq::empty(), Some("Local path does not exist: "@ + s.input)))
        },
        (Phase::AwaitGit, EventView::Flag(git)) => if git {
            (moved(s, Phase::AwaitTag), act(ActionKind::TargetTag, s, Seq::empty(), None))
        } else {
            (moved(s, Phase::Done), act(ActionKind::Finish, s, Seq::empty(), None))
        },
        (Phase::AwaitTag, EventView::Tag(t)) => match t {
            Some(tag) => {
                let n = PlanView { phase: Phase::AwaitCurrent, tag, ..s };
                (n, act(ActionKind::CurrentTag, n, Seq::empty(), None))
            },
            None => (moved(s, Phase::Done), act(ActionKind::Finish, s, Seq::empty(), None)),
        },
        (Phase::AwaitCurrent, EventView::Tag(current)) => if current != Some(s.tag) {
            (
                moved(s, Phase::AwaitCheckout),
                act(ActionKind::Checkout, s, Seq::empty(), Some("Checking out tag "@ + s.tag + "..."@)),
            )
        } else {
            (moved(s, Phase::Done), act(ActionKind::Finish, s, Seq::empty(), None))
        },
        (Phase::AwaitCheckout, EventView::Flag(_)) => (moved(s, Phase::Done), act(ActionKind::Finish, s, Seq::empty(), None)),
        _ => out_of_turn(s),
    }
}

/// An action on the state's directory and tag.
fn action(kind: ActionKind, s: &PrepareState, text: String, note: Option<String>) -> (a: PrepareAction)
    ensures
        a@ == act(kind, s@, text@, opt_view(note)),
{
    PrepareAction { kind, dir: copy_str(s.dir.as_str()), text, tag: copy_str(s.tag.as_str()), note }
}

/// The state moved to `phase`.
fn moved_to(s: &PrepareState, phase: Phase) -> (n: PrepareState)
    ensures
        n@ == moved(s@, phase),
{
    PrepareState { phase, input: copy_str(s.input.as_str()), dir: copy_str(s.dir.as_str()), tag: copy_str(s.tag.as_str()) }
}

impl PrepareState {
    /// The preparation of the workspace for `input`, before anything is done.
    pub fn start(input: &str) -> (s: PrepareState)
        ensures
            s@ == (PlanView { phase: Phase::Start, input: input@, dir: Seq::empty(), tag: Seq::empty() }),
    {
        PrepareState { phase: Phase::Start, input: copy_str(input), dir: String::new(), tag: String::new() }
    }

    /// The next state and the action to perform, after `event`.
    pub fn step(&self, event: &PrepareEvent) -> (r: (PrepareState, PrepareAction))
        ensures
            (r.0@, r.1@) == plan(self@, event@),
    {
        let none = String::new();
        match (self.phase, event) {
            (Phase::Start, PrepareEvent::Begin) => {
                if RepoResolver::is_remote_input(self.input.as_str()) {
                    let name = RepoResolver::extract_repo_name(self.input.as_str(), self.input.as_str());
                    (moved_to(self, Phase::AwaitDir), action(ActionKind::CacheDir, self, name, None))
                } else {
                    (moved_to(self, Phase::AwaitLocal), action(ActionKind::PathExists, self, copy_str(self.input.as_str()), None))
                }
            },
            (Phase::AwaitDir, PrepareEvent::Path(d)) => {
                let n = PrepareState {
                    phase: Phase::AwaitCache,
                    input: copy_str(self.input.as_str()),
                    dir: copy_str(d.as_str()),
                    tag: copy_str(self.tag.as_str()),
                };
                let a = action(ActionKind::ProbeCache, &n, none, None);
                (n, a)
            },
            (Phase::AwaitCache, PrepareEvent::Flag(cached)) => {
                if *cached {
                    let note = concat2("Found existing workspace at ", self.dir.as_str());
                    (moved_to(self, Phase::AwaitCachedTag), action(ActionKind::TargetTag, self, none, Some(note)))
                } else {
                    let head = concat3("Cloning workspace from ", self.input.as_str(), " to ");
                    let note = concat3(head.as_str(), self.dir.as_str(), "...");
                    (
                        moved_to(self, Phase::AwaitClone),
                        action(ActionKind::Clone, self, copy_str(self.input.as_str()), Some(note)),
                    )
                }
            },
            (Phase::AwaitCachedTag, PrepareEvent::Tag(t)) => match t {
                Some(tag) => {
                    let n = PrepareState {
                        phase: Phase::AwaitTagExists,
                        input: copy_str(self.input.as_str()),
                        dir: copy_str(self.dir.as_str()),
                        tag: copy_str(tag.as_str()),
                    };
                    let a = action(ActionKind::TagExists, &n, none, None);
                    (n, a)
                },
                None => (
                    moved_to(self, Phase::AwaitFetch),
                    action(ActionKind::Fetch, self, none, Some(copy_str("Fetching remote updates..."))),
                ),
            },
            (Phase::AwaitTagExists, PrepareEvent::Flag(exists)) => {
                if *exists {
                    (moved_to(self, Phase::AwaitCachedCurrent), action(ActionKind::CurrentTag, self, none, None))
                } else {
                    (
                        moved_to(self, Phase::AwaitFetch),
                        action(ActionKind::Fetch, self, none, Some(copy_str("Fetching remote updates..."))),
                    )
                }
            },
            (Phase::AwaitCachedCurrent, PrepareEvent::Tag(current)) => {
                let cur: Option<&str> = match current {
                    Some(c) => Some(c.as_str()),
                    None => None,
                };
                let note = if !RepoResolver::needs_checkout(cur, self.tag.as_str()) {
                    concat3("Workspace is already up to date at tag '", self.tag.as_str(), "'. Skipping fetch.")
                } else {
                    concat3("Target tag '", self.tag.as_str(), "' exists locally. Skipping fetch.")
                };
                (moved_to(self, Phase::AwaitGit), action(ActionKind::IsGit, self, none, Some(note)))
            },
            (Phase::AwaitFetch, PrepareEvent::Flag(_)) => {
                (moved_to(self, Phase::AwaitGit), action(ActionKind::IsGit, self, none, None))
            },
            (Phase::AwaitClone, PrepareEvent::Flag(ok)) => {
                if *ok {
                    (moved_to(self, Phase::AwaitGit), action(ActionKind::IsGit, self, none, None))
                } else {
                    let note = concat2("Failed to clone Git repository: ", self.input.as_str());
                    (moved_to(self, Phase::Failed), action(ActionKind::Fail, self, none, Some(note)))
                }
            },
            (Phase::AwaitLocal, PrepareEvent::Flag(exists)) => {
                if *exists {
                    let n = PrepareState {
                        phase: Phase::AwaitGit,
                        input: copy_str(self.input.as_str()),
                        dir: copy_str(self.input.as_str()),
                        tag: copy_str(self.tag.as_str()),
                    };
                    let a = action(ActionKind::IsGit, &n, none, None);
                    (n, a)
                } else {
                    let note = concat2("Local path does not exist: ", self.input.as_str());
                    (moved_to(self, Phase::Failed), action(ActionKind::Fail, self, none, Some(note)))
                }
            },
            (Phase::AwaitGit, PrepareEvent::Flag(git)) => {
                if *git {
                    (moved_to(self, Phase::AwaitTag), action(ActionKind::TargetTag, self, none, None))
                } else {
                    (moved_to(self, Phase::Done), action(ActionKind::Finish, self, none, None))
                }
            },
            (Phase::AwaitTag, PrepareEvent::Tag(t)) => match t {
                Some(tag) => {
                    let n = PrepareState {
                        phase: Phase::AwaitCurrent,
                        input: copy_str(self.input.as_str()),
                        dir: copy_str(self.dir.as_str()),
                        tag: copy_str(tag.as_str()),
                    };
                    let a = action(ActionKind::CurrentTag, &n, none, None);
                    (n, a)
                },
                None => (moved_to(self, Phase::Done), action(ActionKind::Finish, self, none, None)),
            },
            (Phase::AwaitCurrent, PrepareEvent::Tag(current)) => {
                let cur: Option<&str> = match current {
                    Some(c) => Some(c.as_str()),
                    None => None,
                };
                if RepoResolver::needs_checkout(cur, self.tag.as_str()) {
                    let note = concat3("Checking out tag ", self.tag.as_str(), "...");
                    (moved_to(self, Phase::AwaitCheckout), action(ActionKind::Checkout, self, none, Some(note)))
                } else {
                    (moved_to(self, Phase::Done), action(ActionKind::Finish, self, none, None))
                }
            },
            (Phase::AwaitCheckout, PrepareEvent::Flag(_)) => {
                (moved_to(self, Phase::Done), action(ActionKind::Finish, self, none, None))
            },
            _ => {
                let note = copy_str("unexpected answer while preparing the workspace");
                (moved_to(self, Phase::Failed), action(ActionKind::Fail, self, none, Some(note)))
            },
        }
    }
}

} // verus!
