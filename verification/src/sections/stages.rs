//! The `%prep`, `%build`, `%install` and `%check` stages.
use vstd::prelude::*;
use crate::meson::{has_po, MesonProject};
use crate::workspace::{any_with_extension, has_desktop_file, has_metainfo_file, Workspace};

verus! {

pub struct BuildSection;

/// `s` when `c` holds, else nothing.
pub open spec fn text_when(c: bool, s: Seq<char>) -> Seq<char> {
    if c {
        s
    } else {
        Seq::empty()
    }
}

/// The build stages: translations are collected when there is a `po` directory,
/// Python shebangs are fixed for Python applications, and the desktop file, the
/// AppStream file and the GSettings schemas are validated when present.
pub open spec fn build_text(po: bool, python: bool, desktop: bool, metainfo: bool, schemas: bool) -> Seq<char> {
    "%prep\n"@ + "%autosetup -C -p1\n\n"@ + "%build\n"@ + "%meson\n"@ + "%meson_build\n\n"@
        + "%install\n"@ + "%meson_install\n"@ + text_when(po, "%find_lang %{name}\n"@)
        + text_when(python, "%py3_shebang_fix %{buildroot}%{_bindir}/%{name} %{buildroot}%{_datadir}/%{name}/\n"@)
        + "\n"@ + "%check\n"@ + "%meson_test\n"@
        + text_when(desktop, "desktop-file-validate %{buildroot}%{_datadir}/applications/*.desktop\n"@)
        + text_when(metainfo, "appstream-util validate-relax --nonet %{buildroot}%{_metainfodir}/*.metainfo.xml\n"@)
        + text_when(schemas, "glib-compile-schemas --dry-run --strict %{buildroot}%{_datadir}/glib-2.0/schemas/\n"@)
        + "\n"@
}

impl BuildSection {
    pub fn generate(meson: &MesonProject, ws: &Workspace) -> (r: String)
        ensures
            r@ == build_text(
                has_po(meson@),
                meson@.is_python_app,
                any_with_extension(ws.ents(), Seq::empty(), ".desktop"@),
                ws.metainfo_choice() is Some,
                meson@.post_install.glib_compile_schemas,
            ),
    {
        let mut section = String::new();
        section.append("%prep\n");
        section.append("%autosetup -C -p1\n\n");
        section.append("%build\n");
        section.append("%meson\n");
        section.append("%meson_build\n\n");
        section.append("%install\n");
        section.append("%meson_install\n");
        if meson.has_po_subdir() {
            section.append("%find_lang %{name}\n");
        }
        if meson.is_python_app {
            section.append("%py3_shebang_fix %{buildroot}%{_bindir}/%{name} %{buildroot}%{_datadir}/%{name}/\n");
        }
        section.append("\n");
        section.append("%check\n");
        section.append("%meson_test\n");
        if has_desktop_file(ws) {
            section.append("desktop-file-validate %{buildroot}%{_datadir}/applications/*.desktop\n");
        }
        if has_metainfo_file(ws) {
            section.append("appstream-util validate-relax --nonet %{buildroot}%{_metainfodir}/*.metainfo.xml\n");
        }
        if meson.modules.gnome_post_install.glib_compile_schemas {
            section.append("glib-compile-schemas --dry-run --strict %{buildroot}%{_datadir}/glib-2.0/schemas/\n");
        }
        section.append("\n");
        assert(section@ =~= build_text(
            has_po(meson@),
            meson@.is_python_app,
            any_with_extension(ws.ents(), Seq::empty(), ".desktop"@),
            ws.metainfo_choice() is Some,
            meson@.post_install.glib_compile_schemas,
        ));
        section
    }
}

}
