//! Where a package's version is unpacked, built and installed, and the
//! lines that announce its build.

use vstd::prelude::*;

use crate::build::toolchain::{destination, destination_spec};
use crate::packages::package::{Package, PackageView};
use crate::text::{join_spec, owned, path_join};
use crate::triple::Triple;
use crate::version::{version_text, Version, VersionView};

verus! {

/// The directories of one build: the version's tree under the package's
/// build prefix, the directory the build runs in, and where it installs.
pub struct Layout {
    pub version_dir: String,
    pub build_dir: String,
    pub destination: String,
}

/// The model of a layout: version tree, build directory, destination.
pub type LayoutView = (Seq<char>, Seq<char>, Seq<char>);

impl View for Layout {
    type V = LayoutView;

    open spec fn view(&self) -> LayoutView {
        (self.version_dir@, self.build_dir@, self.destination@)
    }
}

/// Whether `p` records version `v` as installed.
pub open spec fn is_installed(p: PackageView, v: VersionView) -> bool {
    exists|i: int| 0 <= i < p.versions.len() && p.versions[i].0 == v
}

/// The layout of building version `v` of `p` into `prefix` for `target`:
/// the tree is `{build_prefix}/{version}`; the build runs in its `build`
/// subdirectory where `separate` holds, else in the tree itself; it installs
/// into the destination of the package.
pub open spec fn layout_spec(
    prefix: Seq<char>,
    target: (crate::triple::Arch, crate::triple::Sys, crate::triple::Env),
    p: PackageView,
    v: VersionView,
    separate: bool,
) -> LayoutView {
    let tree = join_spec(p.build_prefix, version_text(v));
    (
        tree,
        if separate { join_spec(tree, "build"@) } else { tree },
        destination_spec(prefix, target, p.repository_id, p.package_id, v),
    )
}

/// The layout of building `version` of `package`, or none where that
/// version is installed already and there is nothing to build.
pub fn layout(prefix: &str, target: &Triple, package: &Package, version: &Version, separate: bool) -> (r:
    Option<Layout>)
    ensures
        r is None <==> is_installed(package@, version@),
        r matches Some(l) ==> l@ == layout_spec(prefix@, target@, package@, version@, separate),
{
    if package.has_version(version) {
        return None;
    }
    proof {
        reveal_strlit("build");
    }
    let version_dir = path_join(package.build_prefix(), version.to_string().as_str());
    let build_dir = if separate {
        path_join(version_dir.as_str(), "build")
    } else {
        owned(version_dir.as_str())
    };
    let destination = destination(
        prefix,
        target,
        package.repository_id(),
        package.package_id().as_str(),
        version,
    );
    Some(Layout { version_dir, build_dir, destination })
}

/// The lines that announce a build: what is built, where it installs, where
/// it runs, and the flags of its compiler and linker.
pub open spec fn headers_spec(
    p: PackageView,
    v: VersionView,
    l: LayoutView,
    cflags: Seq<char>,
    ldflags: Seq<char>,
) -> Seq<Seq<char>> {
    seq![
        "building "@ + p.repository_id + "/"@ + p.package_id + ":"@ + version_text(v),
        "destination "@ + l.2,
        "build "@ + l.1,
        "cflags "@ + cflags,
        "ldflags "@ + ldflags,
    ]
}

/// The lines that announce building `version` of `package` with `layout`.
pub fn headers(package: &Package, version: &Version, layout: &Layout, cflags: &str, ldflags: &str) -> (r:
    Vec<String>)
    ensures
        r@.map_values(|s: String| s@) == headers_spec(package@, version@, layout@, cflags@, ldflags@),
{
    let mut first = owned("building ");
    first.append(package.repository_id().as_str());
    first.append("/");
    first.append(package.package_id().as_str());
    first.append(":");
    first.append(version.to_string().as_str());
    let mut second = owned("destination ");
    second.append(layout.destination.as_str());
    let mut third = owned("build ");
    third.append(layout.build_dir.as_str());
    let mut fourth = owned("cflags ");
    fourth.append(cflags);
    let mut fifth = owned("ldflags ");
    fifth.append(ldflags);
    let r = vec![first, second, third, fourth, fifth];
    assert(r@.map_values(|s: String| s@) =~= headers_spec(
        package@,
        version@,
        layout@,
        cflags@,
        ldflags@,
    ));
    r
}

} // verus!
