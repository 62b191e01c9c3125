# flatpak2spec

Generates a Fedora RPM `.spec` file from a Flatpak application repository that
builds with Meson: the preamble, the build and runtime requirements, the
description, the build stages, the systemd scriptlets, the file list and the
changelog entry.

The library under `src/` is verified with Verus. Its contracts state, over a
snapshot of the checkout (`workspace::Workspace`: every entry with the text of
its files, and the output of the git queries), exactly which text each section
and the whole spec file consist of, for a given changelog date; the date of a
run is today's, which the contracts leave open.

- `cargo`: the GTK4, libadwaita and GStreamer crates of a `Cargo.toml`.
- `text`: string operations and the spec vocabulary the contracts use.
- `pattern`, `appstream`: regular expressions (`regex`) and AppStream XML
  (`roxmltree`), seen through named results.
- `workspace`: the file searches over the snapshot.
- `manifest`, `meson`: the Flatpak manifest checks and the `meson.build` reading.
- `release`, `repository`: versions and tag prefixes, repository names and
  addresses, and the steps that prepare a checkout.
- `sections`, `spec`: the spec file.
- `cli`: the options.

`app/` is the command-line program: it parses the arguments, runs git and
curl, reads the checkout from disk, parses the manifest files with serde and
writes the result.
