//! Resolving what a package needs: the package a requirement names, then,
//! depth first, the packages its dependencies name, each once.

use vstd::prelude::*;

use crate::atom::{Requirement, RequirementView};
use crate::packages::index::{unique_match, Packages};
use crate::packages::package::{key_of, package_views, Package, PackageView};
use crate::packages::set::ordered;

verus! {

/// Every dependency of a resolved package that names one package has that
/// package resolved as well.
pub open spec fn closed_under_dependencies(all: Seq<PackageView>, r: Seq<PackageView>) -> bool {
    forall|i: int, d: RequirementView|
        #![trigger r[i].dependencies.contains(d)]
        0 <= i < r.len() && r[i].dependencies.contains(d) ==> match unique_match(all, d) {
            Some(q) => r.contains(q),
            None => true,
        }
}

/// Every resolved package after the first is named by a dependency of a
/// package resolved before it.
pub open spec fn reached_in_order(all: Seq<PackageView>, r: Seq<PackageView>) -> bool {
    forall|i: int|
        #![trigger r[i]]
        0 < i < r.len() ==> exists|j: int, d: RequirementView|
            0 <= j < i && #[trigger] r[j].dependencies.contains(d) && unique_match(all, d) == Some(
                r[i],
            )
}

/// Some package of `r` declares the dependency `d`.
pub open spec fn declared_by(r: Seq<PackageView>, d: RequirementView) -> bool {
    exists|j: int| 0 <= j < r.len() && #[trigger] r[j].dependencies.contains(d)
}

/// A list of distinct packages of `all` is no longer than `all`.
proof fn lemma_distinct_within(a: Seq<PackageView>, all: Seq<PackageView>)
    requires
        a.no_duplicates(),
        forall|x: PackageView| a.contains(x) ==> all.contains(x),
    ensures
        a.len() <= all.len(),
{
    a.unique_seq_to_set();
    all.lemma_cardinality_of_set();
    assert(a.to_set().subset_of(all.to_set()));
    vstd::set_lib::lemma_len_subset(a.to_set(), all.to_set());
}

/// The requirements `ds` as they lie on a stack once pushed from the last
/// to the first, so that the first comes off first.
pub open spec fn pushed(ds: Seq<RequirementView>) -> Seq<RequirementView> {
    Seq::new(ds.len(), |t: int| ds[ds.len() - 1 - t])
}

/// Resolving depth first: takes the requirement on top of `stack`; where it
/// names one package of `all` that is not in `out` yet, adds that package
/// and pushes its dependencies so that the first declared comes next; else
/// passes over it. Ends when the stack is empty.
pub open spec fn dfs(
    all: Seq<PackageView>,
    stack: Seq<RequirementView>,
    out: Seq<PackageView>,
) -> Seq<PackageView>
    decreases all.len() + 1 - out.len(), stack.len(),
{
    if stack.len() == 0 || out.len() > all.len() {
        out
    } else {
        let rest = stack.drop_last();
        match unique_match(all, stack.last()) {
            Some(p) => if out.contains(p) {
                dfs(all, rest, out)
            } else {
                dfs(all, rest + pushed(p.dependencies), out.push(p))
            },
            None => dfs(all, rest, out),
        }
    }
}

/// The packages that resolving `req` gives, in order: depth first, in
/// pre-order, the dependencies of each package in the order declared.
pub open spec fn resolve_spec(all: Seq<PackageView>, req: RequirementView) -> Seq<PackageView> {
    dfs(all, seq![req], Seq::empty())
}

/// Resolving only ever adds packages after those resolved already.
pub proof fn lemma_dfs_extends(all: Seq<PackageView>, stack: Seq<RequirementView>, out: Seq<PackageView>)
    ensures
        out.len() <= dfs(all, stack, out).len(),
        dfs(all, stack, out).take(out.len() as int) == out,
    decreases all.len() + 1 - out.len(), stack.len(),
{
    let r = dfs(all, stack, out);
    if stack.len() == 0 || out.len() > all.len() {
        assert(r.take(out.len() as int) =~= out);
    } else {
        let rest = stack.drop_last();
        match unique_match(all, stack.last()) {
            Some(p) => if out.contains(p) {
                lemma_dfs_extends(all, rest, out);
            } else {
                let o2 = out.push(p);
                lemma_dfs_extends(all, rest + pushed(p.dependencies), o2);
                assert(r.take(out.len() as int) =~= r.take(o2.len() as int).take(out.len() as int));
                assert(o2.take(out.len() as int) =~= out);
            },
            None => {
                lemma_dfs_extends(all, rest, out);
            },
        }
    }
}

/// The models of a stack of requirements.
pub open spec fn requirement_views(v: Seq<Requirement>) -> Seq<RequirementView> {
    v.map_values(|r: Requirement| r@)
}

/// Whether `p` is in `out`.
fn has_package(out: &Vec<Package>, p: &Package) -> (r: bool)
    ensures
        r == package_views(out@).contains(p@),
{
    let mut i: usize = 0;
    while i < out.len()
        invariant
            i <= out@.len(),
            forall|j: int| 0 <= j < i ==> out@[j]@ != p@,
        decreases out@.len() - i,
    {
        if out[i].equals(p) {
            assert(package_views(out@)[i as int] == p@);
            return true;
        }
        i = i + 1;
    }
    proof {
        if package_views(out@).contains(p@) {
            let j = choose|j: int| 0 <= j < out@.len() && package_views(out@)[j] == p@;
            assert(out@[j]@ == p@);
        }
    }
    false
}

/// Resolves `requirement`: the package it names, then, depth first and in
/// the order in which they are declared, the packages that the
/// dependencies of each resolved package name, each package once. A
/// requirement that names no package, or more than one, is passed over.
pub fn resolve(packages: &Packages, requirement: &Requirement) -> (r: Vec<Package>)
    ensures
        package_views(r@).no_duplicates(),
        forall|x: PackageView| package_views(r@).contains(x) ==> packages@.all.contains(x),
        r@.len() > 0 <==> unique_match(packages@.all, requirement@) is Some,
        r@.len() > 0 ==> r@[0]@ == unique_match(packages@.all, requirement@)->0,
        package_views(r@) == resolve_spec(packages@.all, requirement@),
        closed_under_dependencies(packages@.all, package_views(r@)),
        reached_in_order(packages@.all, package_views(r@)),
{
    let ghost all = packages@.all;
    let ghost root = requirement@;
    proof {
        use_type_invariant(packages);
        packages.lemma_wf();
    }
    let mut out: Vec<Package> = Vec::new();
    let mut stack: Vec<Requirement> = Vec::new();
    stack.push(requirement.copy());
    let ghost mut started = false;
    assert(package_views(out@) =~= Seq::<PackageView>::empty());
    assert(requirement_views(stack@) =~= seq![root]);
    while stack.len() > 0
        invariant
            packages.wf(),
            all == packages@.all,
            root == requirement@,
            ordered(all),
            package_views(out@).no_duplicates(),
            dfs(all, requirement_views(stack@), package_views(out@)) == resolve_spec(all, root),
            forall|x: PackageView| package_views(out@).contains(x) ==> all.contains(x),
            !started ==> out@.len() == 0 && stack@.len() == 1 && stack@[0]@ == root,
            started ==> (out@.len() > 0 <==> unique_match(all, root) is Some),
            out@.len() > 0 ==> out@[0]@ == unique_match(all, root)->0,
            started ==> forall|k: int|
                0 <= k < stack@.len() ==> declared_by(package_views(out@), #[trigger] stack@[k]@),
            started ==> forall|i: int, d: RequirementView|
                #![trigger out@[i]@.dependencies.contains(d)]
                0 <= i < out@.len() && out@[i]@.dependencies.contains(d) ==> match unique_match(
                    all,
                    d,
                ) {
                    Some(q) => package_views(out@).contains(q) || exists|k: int|
                        0 <= k < stack@.len() && stack@[k]@ == d,
                    None => true,
                },
            reached_in_order(all, package_views(out@)),
        decreases all.len() - out@.len(), stack@.len(),
    {
        proof {
            lemma_distinct_within(package_views(out@), all);
        }
        let ghost old_stack = stack@;
        let ghost old_out = out@;
        let ghost old_ov = package_views(out@);
        let ghost was_started = started;
        let req = stack.pop().unwrap();
        assert(stack@ == old_stack.drop_last());
        assert(req == old_stack.last());
        let ghost old_rv = requirement_views(old_stack);
        assert(requirement_views(stack@) =~= old_rv.drop_last());
        assert(old_rv.last() == req@);
        proof {
            started = true;
        }
        match packages.unique_match(&req) {
            Some(p) => {
                if !has_package(&out, p) {
                    out.push(p.copy());
                    let ghost ov = package_views(out@);
                    assert(ov =~= old_ov.push(p@));
                    let deps = p.dependencies();
                    let ghost dv = deps@.map_values(|d: Requirement| d@);
                    let ghost base = stack@;
                    let mut k: usize = deps.len();
                    while k > 0
                        invariant
                            k <= deps@.len(),
                            dv == deps@.map_values(|d: Requirement| d@),
                            stack@.len() == base.len() + (deps@.len() - k),
                            forall|t: int| 0 <= t < base.len() ==> #[trigger] stack@[t] == base[t],
                            forall|t: int|
                                base.len() <= t < stack@.len() ==> #[trigger] stack@[t]@ == dv[deps@.len()
                                    - 1 - (t - base.len())],
                        decreases k,
                    {
                        stack.push(deps[k - 1].copy());
                        k = k - 1;
                    }
                    proof {
                        assert(dv == p@.dependencies);
                        let n = ov.len() - 1;
                        assert(ov[n] == p@);
                        // Every requirement on the stack is a dependency of a resolved package.
                        assert forall|t: int| 0 <= t < stack@.len() implies declared_by(ov, #[trigger] stack@[t]@) by {
                            if t < base.len() {
                                assert(stack@[t] == old_stack[t]);
                                if was_started {
                                    let j = choose|j: int|
                                        0 <= j < old_ov.len() && #[trigger] old_ov[j].dependencies.contains(
                                            old_stack[t]@,
                                        );
                                    assert(ov[j] == old_ov[j]);
                                    assert(ov[j].dependencies.contains(stack@[t]@));
                                } else {
                                    assert(base.len() == 0);
                                }
                            } else {
                                let e = deps@.len() - 1 - (t - base.len());
                                assert(p@.dependencies[e] == stack@[t]@);
                                assert(ov[n].dependencies.contains(stack@[t]@));
                            }
                        }
                        // Every dependency of a resolved package is resolved or pending.
                        assert forall|i: int, d: RequirementView|
                            #![trigger out@[i]@.dependencies.contains(d)]
                            0 <= i < out@.len() && out@[i]@.dependencies.contains(d) implies match unique_match(
                                all,
                                d,
                            ) {
                                Some(q) => ov.contains(q) || exists|k: int|
                                    0 <= k < stack@.len() && stack@[k]@ == d,
                                None => true,
                            } by {
                            if let Some(q) = unique_match(all, d) {
                                if i == n {
                                    let e = choose|e: int| 0 <= e < dv.len() && dv[e] == d;
                                    let t = base.len() + (deps@.len() - 1 - e);
                                    assert(stack@[t]@ == d);
                                } else {
                                    assert(old_ov[i] == ov[i]);
                                    if old_ov.contains(q) {
                                        let j = choose|j: int| 0 <= j < old_ov.len() && old_ov[j] == q;
                                        assert(ov[j] == q);
                                    } else if was_started {
                                        let k2 = choose|k2: int| 0 <= k2 < old_stack.len() && old_stack[k2]@ == d;
                                        if k2 < base.len() {
                                            assert(stack@[k2] == old_stack[k2]);
                                        } else {
                                            assert(q == p@);
                                            assert(ov[n] == q);
                                        }
                                    }
                                }
                            }
                        }
                        // The new package is named by a pending dependency.
                        assert forall|i: int| #![trigger ov[i]] 0 < i < ov.len() implies exists|j: int, d: RequirementView|
                            0 <= j < i && #[trigger] ov[j].dependencies.contains(d) && unique_match(
                                all,
                                d,
                            ) == Some(ov[i]) by {
                            if i < n {
                                assert(old_ov[i] == ov[i]);
                                let (j, d) = choose|j: int, d: RequirementView|
                                    0 <= j < i && #[trigger] old_ov[j].dependencies.contains(d)
                                        && unique_match(all, d) == Some(old_ov[i]);
                                assert(ov[j] == old_ov[j]);
                            } else {
                                assert(was_started);
                                let k2 = old_stack.len() - 1;
                                assert(old_stack[k2] == req);
                                let j = choose|j: int|
                                    0 <= j < old_ov.len() && #[trigger] old_ov[j].dependencies.contains(
                                        old_stack[k2]@,
                                    );
                                assert(ov[j] == old_ov[j]);
                                assert(ov[j].dependencies.contains(req@));
                            }
                        }
                        assert forall|x: PackageView| ov.contains(x) implies all.contains(x) by {
                            if x != p@ {
                                let j = choose|j: int| 0 <= j < ov.len() && ov[j] == x;
                                assert(old_ov[j] == x);
                            }
                        }
                        lemma_distinct_within(ov, all);
                        assert(requirement_views(stack@) =~= old_rv.drop_last() + pushed(p@.dependencies));
                        assert(dfs(all, old_rv, old_ov) == dfs(all, requirement_views(stack@), ov));
                    }
                } else {
                    proof {
                        assert(old_ov.contains(p@));
                        assert(dfs(all, old_rv, old_ov) == dfs(all, requirement_views(stack@), old_ov));
                        assert forall|i: int, d: RequirementView|
                            #![trigger out@[i]@.dependencies.contains(d)]
                            0 <= i < out@.len() && out@[i]@.dependencies.contains(d) implies match unique_match(
                                all,
                                d,
                            ) {
                                Some(q) => old_ov.contains(q) || exists|k: int|
                                    0 <= k < stack@.len() && stack@[k]@ == d,
                                None => true,
                            } by {
                            if let Some(q) = unique_match(all, d) {
                                if !old_ov.contains(q) {
                                    let k2 = choose|k2: int| 0 <= k2 < old_stack.len() && old_stack[k2]@ == d;
                                    if k2 < old_stack.len() - 1 {
                                        assert(stack@[k2] == old_stack[k2]);
                                    }
                                }
                            }
                        }
                        assert forall|t: int| 0 <= t < stack@.len() implies declared_by(old_ov, #[trigger] stack@[t]@) by {
                            assert(stack@[t] == old_stack[t]);

                        }
                    }
                }
            },
            None => {
                proof {
                    assert(dfs(all, old_rv, old_ov) == dfs(all, requirement_views(stack@), old_ov));
                    assert forall|i: int, d: RequirementView|
                        #![trigger out@[i]@.dependencies.contains(d)]
                        0 <= i < out@.len() && out@[i]@.dependencies.contains(d) implies match unique_match(
                            all,
                            d,
                        ) {
                            Some(q) => old_ov.contains(q) || exists|k: int|
                                0 <= k < stack@.len() && stack@[k]@ == d,
                            None => true,
                        } by {
                        if let Some(q) = unique_match(all, d) {
                            if !old_ov.contains(q) {
                                let k2 = choose|k2: int| 0 <= k2 < old_stack.len() && old_stack[k2]@ == d;
                                if k2 < old_stack.len() - 1 {
                                    assert(stack@[k2] == old_stack[k2]);
                                }
                            }
                        }
                    }
                    assert forall|t: int| 0 <= t < stack@.len() implies declared_by(old_ov, #[trigger] stack@[t]@) by {
                        assert(stack@[t] == old_stack[t]);

                    }
                }
            },
        }
    }
    proof {
        assert(requirement_views(stack@).len() == 0);
    }
    out
}

} // verus!
