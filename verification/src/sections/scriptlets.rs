//! The systemd scriptlets.
use vstd::prelude::*;
use crate::text::{concat3, join, join_with, lemma_is_sorted_of, sorted_of, views};
use crate::workspace::{detect_systemd_units, Workspace};

verus! {

pub struct ScriptletsSection;

/// The `%post`, `%preun` and `%postun` scriptlets for the units `args`
/// (their names joined with spaces).
pub open spec fn scriptlets_text(args: Seq<char>) -> Seq<char> {
    "%post\n"@ + "%systemd_post "@ + args + "\n\n"@ + "%preun\n"@ + "%systemd_preun "@ + args + "\n\n"@
        + "%postun\n"@ + "%systemd_postun_with_restart "@ + args + "\n\n"@
}

/// The scriptlets of a workspace: none without systemd units, else those for
/// its unit names, sorted.
pub open spec fn scriptlets_of(ws: Workspace) -> Seq<char> {
    if ws.unit_name_set().is_empty() {
        Seq::<char>::empty()
    } else {
        scriptlets_text(join_with(sorted_of(ws.unit_name_set()), " "@))
    }
}

impl ScriptletsSection {
    /// The scriptlets for the workspace's systemd units; empty when it ships none.
    pub fn generate(ws: &Workspace) -> (r: String)
        ensures
            r@ == scriptlets_of(*ws),
    {
        let mut scriptlets = String::new();
        let systemd = detect_systemd_units(ws);
        proof {
            lemma_is_sorted_of(views(systemd.unit_names@));
        }
        if systemd.unit_names.len() == 0 {
            assert(views(systemd.unit_names@).to_set() =~= Set::<Seq<char>>::empty());
            return scriptlets;
        }
        proof {
            assert(views(systemd.unit_names@).to_set().contains(views(systemd.unit_names@)[0]));
        }
        let unit_args = join(&systemd.unit_names, " ");
        let a = unit_args.as_str();
        scriptlets.append("%post\n");
        scriptlets.append(concat3("%systemd_post ", a, "\n\n").as_str());
        scriptlets.append("%preun\n");
        scriptlets.append(concat3("%systemd_preun ", a, "\n\n").as_str());
        scriptlets.append("%postun\n");
        scriptlets.append(concat3("%systemd_postun_with_restart ", a, "\n\n").as_str());
        assert(scriptlets@ =~= scriptlets_text(join_with(views(systemd.unit_names@), " "@)));
        scriptlets
    }
}

}
