//! The sources to fetch for a list of packages: each source once, with the
//! first package that is built from it.

use vstd::prelude::*;

use crate::packages::package::package_views;
use crate::packages::package::{Package, PackageView};
use crate::source::{Source, SourceView};

verus! {

/// Each package paired with each of its sources, package by package.
pub open spec fn source_pairs(ps: Seq<PackageView>) -> Seq<(PackageView, SourceView)>
    decreases ps.len(),
{
    if ps.len() == 0 {
        Seq::empty()
    } else {
        source_pairs(ps.drop_last()) + ps.last().sources.map_values(
            |s: SourceView| (ps.last(), s),
        )
    }
}

/// The pairs `xs`, each source kept with its first pair only.
pub open spec fn first_by_source(xs: Seq<(PackageView, SourceView)>) -> Seq<(PackageView, SourceView)>
    decreases xs.len(),
{
    if xs.len() == 0 {
        Seq::empty()
    } else {
        let r = first_by_source(xs.drop_last());
        if r.map_values(|x: (PackageView, SourceView)| x.1).contains(xs.last().1) {
            r
        } else {
            r.push(xs.last())
        }
    }
}

/// The model of package and source pairs.
pub open spec fn pair_views(v: Seq<(Package, Source)>) -> Seq<(PackageView, SourceView)> {
    v.map_values(|x: (Package, Source)| (x.0@, x.1@))
}

fn has_source(v: &Vec<(Package, Source)>, s: &Source) -> (r: bool)
    ensures
        r == pair_views(v@).map_values(|x: (PackageView, SourceView)| x.1).contains(s@),
{
    let ghost w = pair_views(v@).map_values(|x: (PackageView, SourceView)| x.1);
    let mut i: usize = 0;
    while i < v.len()
        invariant
            i <= v@.len(),
            w == pair_views(v@).map_values(|x: (PackageView, SourceView)| x.1),
            forall|j: int| 0 <= j < i ==> w[j] != s@,
        decreases v@.len() - i,
    {
        if v[i].1.equals(s) {
            assert(w[i as int] == s@);
            return true;
        }
        i = i + 1;
    }
    false
}

/// The sources of `packages`, in order, each once, with the first package
/// built from it.
pub fn collect_sources(packages: &[Package]) -> (r: Vec<(Package, Source)>)
    ensures
        pair_views(r@) == first_by_source(source_pairs(package_views(packages@))),
{
    let ghost ps = package_views(packages@);
    let mut r: Vec<(Package, Source)> = Vec::new();
    let mut i: usize = 0;
    assert(ps.take(0) =~= Seq::<PackageView>::empty());
    assert(pair_views(r@) =~= Seq::<(PackageView, SourceView)>::empty());
    while i < packages.len()
        invariant
            i <= packages@.len(),
            ps == package_views(packages@),
            pair_views(r@) == first_by_source(source_pairs(ps.take(i as int))),
        decreases packages@.len() - i,
    {
        let p = &packages[i];
        let sources = p.sources();
        let ghost pv = p@;
        assert(pv == ps[i as int]);
        let ghost sv = sources@.map_values(|s: Source| s@);
        let ghost base = source_pairs(ps.take(i as int));
        let mut k: usize = 0;
        assert(sv.take(0).map_values(|s: SourceView| (pv, s)) =~= Seq::<(PackageView, SourceView)>::empty());
        assert(base + sv.take(0).map_values(|s: SourceView| (pv, s)) =~= base);
        while k < sources.len()
            invariant
                k <= sources@.len(),
                sv == sources@.map_values(|s: Source| s@),
                sv == pv.sources,
                pv == p@,
                pair_views(r@) == first_by_source(base + sv.take(k as int).map_values(
                    |s: SourceView| (pv, s),
                )),
            decreases sources@.len() - k,
        {
            let ghost flat = base + sv.take(k as int).map_values(|s: SourceView| (pv, s));
            let ghost next = base + sv.take(k + 1).map_values(|s: SourceView| (pv, s));
            assert(next =~= flat.push((pv, sv[k as int])));
            assert(next.drop_last() =~= flat);
            let ghost before = pair_views(r@);
            if !has_source(&r, &sources[k]) {
                r.push((p.copy(), sources[k].copy()));
                assert(pair_views(r@) =~= before.push((pv, sv[k as int])));
            }
            k = k + 1;
        }
        assert(sv.take(k as int) =~= sv);
        assert(ps.take(i + 1).drop_last() =~= ps.take(i as int));
        assert(ps.take(i + 1).last() == pv);
        assert(base + sv.map_values(|s: SourceView| (pv, s)) =~= source_pairs(ps.take(i + 1)));
        i = i + 1;
    }
    assert(ps.take(i as int) =~= ps);
    r
}

} // verus!
