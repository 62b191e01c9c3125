//! The command-line options and what follows from them.
use vstd::prelude::*;
use crate::text::{concat2, copy_str, last_piece, opt_str_view, opt_view, split_on};

verus! {

/// The options of a run.
pub struct Cli {
    /// Path or URL to the Flatpak application repository.
    pub repo: String,
    /// Bug tracker URL for the `BugURL` field.
    pub bug_url: Option<String>,
    /// Packager name for the `%changelog` section.
    pub packager: Option<String>,
    /// Packager email for the `%changelog` section.
    pub email: Option<String>,
    /// Output file or directory; the spec goes to standard output without one.
    pub output: Option<String>,
    /// How verbose the run is.
    pub verbose: u8,
}

/// What `std::path::Path::join` gives for a base path and a child, as text.
pub uninterp spec fn path_join(base: Seq<char>, child: Seq<char>) -> Seq<char>;

/// What `std::path::PathBuf::set_extension` leaves of a path, as text.
pub uninterp spec fn path_with_extension(path: Seq<char>, ext: Seq<char>) -> Seq<char>;

/// `base` joined with `child` (`Path::join`). The contract names the result.
#[verifier::external_body]
fn join_path(base: &str, child: &str) -> (r: String)
    ensures
        r@ == path_join(base@, child@),
{
    std::path::Path::new(base).join(child).to_string_lossy().into_owned()
}

/// `path` with its extension set to `ext` (`PathBuf::set_extension`). The
/// contract names the result. `set_extension` panics on an extension that
/// holds a path separator, so `ext` holds neither `/` nor a backslash.
#[verifier::external_body]
fn with_extension(path: &str, ext: &str) -> (r: String)
    requires
        forall|k: int| 0 <= k < ext@.len() ==> ext@[k] != '/' && ext@[k] != '\\',
    ensures
        r@ == path_with_extension(path@, ext@),
{
    let mut p = std::path::PathBuf::from(path);
    p.set_extension(ext);
    p.to_string_lossy().into_owned()
}

/// The output path for an output option: inside a directory the file
/// `<default_name>.spec`, else the given path with the extension `spec`.
pub open spec fn output_path(output_arg: Option<Seq<char>>, default_name: Seq<char>, output_is_dir: bool) -> Option<Seq<char>> {
    match output_arg {
        Some(p) => if output_is_dir {
            Some(path_join(p, default_name + ".spec"@))
        } else {
            Some(path_with_extension(p, "spec"@))
        },
        None => None,
    }
}

impl Cli {
    /// The packager name, `Packager` when none was given.
    pub fn packager_name(&self) -> (r: &str)
        ensures
            r@ == match self.packager {
                Some(p) => p@,
                None => "Packager"@,
            },
    {
        match &self.packager {
            Some(p) => p.as_str(),
            None => "Packager",
        }
    }

    /// The packager email, `packager@localhost` when none was given.
    pub fn packager_email(&self) -> (r: &str)
        ensures
            r@ == match self.email {
                Some(e) => e@,
                None => "packager@localhost"@,
            },
    {
        match &self.email {
            Some(e) => e.as_str(),
            None => "packager@localhost",
        }
    }
}

/// Resolves the output path: none means standard output; a directory
/// (`output_is_dir`, as the file system reports it) gets `<default_name>.spec`
/// inside it; a file path gets the extension `.spec`.
pub fn resolve_output_path(output_arg: Option<String>, default_name: &str, output_is_dir: bool) -> (r: Option<String>)
    ensures
        opt_view(r) == output_path(opt_view(output_arg), default_name@, output_is_dir),
{
    match output_arg {
        Some(path) => {
            if output_is_dir {
                let file = concat2(default_name, ".spec");
                Some(join_path(path.as_str(), file.as_str()))
            } else {
                proof {
                    reveal_strlit("spec");
                }
                Some(with_extension(path.as_str(), "spec"))
            }
        },
        None => None,
    }
}

/// The name of the spec file when the output is a directory: the Meson
/// project name, else the last dot-separated part of the manifest id, else
/// `app`.
pub fn resolve_app_name(meson_name: Option<&str>, app_id: Option<&str>) -> (r: String)
    ensures
        r@ == match opt_str_view(meson_name) {
            Some(n) => n,
            None => match opt_str_view(app_id) {
                Some(id) => split_on(id, '.').last(),
                None => "app"@,
            },
        },
{
    match meson_name {
        Some(n) => copy_str(n),
        None => match app_id {
            Some(id) => last_piece(id, '.'),
            None => copy_str("app"),
        },
    }
}

} // verus!
