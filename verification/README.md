# mix

The core of a source-based package manager, verified with Verus.

`src/` is the library. Every function in it carries a contract that Verus
proves:

- `triple`, `id`, `atom`, `version`, `source` — target triples, package and
  repository identifiers, atoms (`[repository/]package:version`),
  requirements and sources (`github:user/repo`, `gitlab:user/repo`,
  `gnu:path`), with their parsers and printers;
- `packages` — packages, ordered sets of packages, the index of all known
  packages by repository and by identifier, and assembling it from what was
  found on disk;
- `manifest`, `config`, `sources`, `versions` — manifests, settings,
  source caches and the versions a source offers;
- `build` — resolving what a package needs, picking its sources, the
  toolchain flags, the build files of a source tree and the commands that
  prepare, build and install it;
- `command`, `cmake`, `autotools_commands`, `environment`, `sync`,
  `download` — command lines and the decisions around running them;
- `bimap`, `collections`, `metadata`, `hosting`, `theme` — smaller types.

Calls into `regex`, `semver`, `url`, `ubyte` and a few `std` functions go
through small trusted wrappers whose contracts are documented where they
stand.

`app/` is the program around the library: file and network I/O, running
processes, terminal colors and YAML/JSON reading. `tests/` exercises the
library on concrete values.

## Models where the original's own crates are not at hand

- **Loose version names.** The versions a GitHub source offers are read
  from tag names by `Version::parse_anything`, which never fails: the name
  without one leading `v` is read as a semantic version where `semver`
  accepts it; otherwise the version is made of the up to three
  dot-separated numbers that lead the name (each saturated at the largest
  `u64`, a missing one taken as zero, anything after them left aside), so a
  name that starts with no digit, such as `latest`, reads as `0.0.0`. Every
  tag with a name and an address that parses gives an entry.
- **Requirements** (`[repository/]package`) are ordered with the ones that
  name no repository first, then by repository, then by package.
- **Packages with the same repository and identifier** stay in the order
  in which they were added.

## Left out

The `group` crate and `PackageId`, `Dependency` and `InstalledMetadata` of
the `metadata` crate's `lib.rs` do not compile as written (they name
modules, types and fields that do not exist) and nothing uses them; they are
not carried over. The host-triple functions choose by conditional
compilation and live in `app/`.
