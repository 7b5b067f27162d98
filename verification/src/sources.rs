//! Sets of sources: sources in the order of sources, each once, and the
//! directories below a cache prefix where they are kept.

use vstd::prelude::*;

use crate::source::{kind_name, lemma_source_lt_transitive, source_lt, Source, SourceView};
use crate::text::{join_spec, owned};

verus! {

/// Where a source is kept below `prefix`: `{prefix}/{kind}/{serialization}`.
pub open spec fn cache_spec(prefix: Seq<char>, s: SourceView) -> Seq<char> {
    join_spec(join_spec(prefix, kind_name(s.0)), s.1)
}

/// The sources come in their order, so each comes once.
pub open spec fn sources_sorted(s: Seq<SourceView>) -> bool {
    forall|i: int, j: int| 0 <= i < j < s.len() ==> source_lt(#[trigger] s[i], #[trigger] s[j])
}

/// How many sources at the front of `s` come before `v`.
pub open spec fn source_position(s: Seq<SourceView>, v: SourceView) -> nat
    decreases s.len(),
{
    if s.len() == 0 {
        0
    } else if source_lt(s[0], v) {
        1 + source_position(s.drop_first(), v)
    } else {
        0
    }
}

/// The sources `s` with `v` put in its place, unless it is there already.
pub open spec fn add_source(s: Seq<SourceView>, v: SourceView) -> Seq<SourceView> {
    let i = source_position(s, v) as int;
    if i < s.len() && s[i] == v {
        s
    } else {
        s.insert(i, v)
    }
}

/// The set of the sources `xs`: each added in turn to no sources.
pub open spec fn source_set(xs: Seq<SourceView>) -> Seq<SourceView>
    decreases xs.len(),
{
    if xs.len() == 0 {
        Seq::empty()
    } else {
        add_source(source_set(xs.drop_last()), xs.last())
    }
}

/// The models of a list of sources.
pub open spec fn source_views(v: Seq<Source>) -> Seq<SourceView> {
    v.map_values(|s: Source| s@)
}

/// The position of a source is within the sources.
pub proof fn lemma_source_position_bound(s: Seq<SourceView>, v: SourceView)
    ensures
        source_position(s, v) <= s.len(),
    decreases s.len(),
{
    if s.len() > 0 {
        lemma_source_position_bound(s.drop_first(), v);
    }
}

/// Adding a source keeps the sources in their order.
pub proof fn lemma_add_source_sorted(s: Seq<SourceView>, v: SourceView)
    requires
        sources_sorted(s),
    ensures
        sources_sorted(add_source(s, v)),
        add_source(s, v).contains(v),
        forall|x: SourceView| s.contains(x) ==> #[trigger] add_source(s, v).contains(x),
    decreases s.len(),
{
    lemma_source_position_bound(s, v);
    let i = source_position(s, v) as int;
    lemma_position_facts(s, v);
    let r = add_source(s, v);
    if i < s.len() && s[i] == v {
        assert(r[i] == v);
    } else {
        assert(r[i] == v);
        assert forall|a: int, b: int| 0 <= a < b < r.len() implies source_lt(#[trigger] r[a], #[trigger] r[b]) by {
            if b < i {
            } else if b == i {
                assert(r[a] == s[a]);
            } else if a < i {
                assert(r[a] == s[a]);
                assert(r[b] == s[b - 1]);
            } else if a == i {
                assert(r[b] == s[b - 1]);
                crate::source::lemma_source_lt_total(s[i], v);
                if b - 1 > i {
                    lemma_source_lt_transitive(v, s[i], s[b - 1]);
                }
            } else {
                assert(r[a] == s[a - 1]);
                assert(r[b] == s[b - 1]);
            }
        }
        assert forall|x: SourceView| s.contains(x) implies #[trigger] r.contains(x) by {
            let j = choose|j: int| 0 <= j < s.len() && s[j] == x;
            if j < i {
                assert(r[j] == x);
            } else {
                assert(r[j + 1] == x);
            }
        }
    }
}

/// Before its position every source comes before `v`; at its position,
/// where there is one, the source does not.
proof fn lemma_position_facts(s: Seq<SourceView>, v: SourceView)
    ensures
        forall|j: int| 0 <= j < source_position(s, v) ==> source_lt(#[trigger] s[j], v),
        source_position(s, v) < s.len() ==> !source_lt(s[source_position(s, v) as int], v),
    decreases s.len(),
{
    if s.len() > 0 && source_lt(s[0], v) {
        let t = s.drop_first();
        lemma_position_facts(t, v);
        lemma_source_position_bound(t, v);
        assert forall|j: int| 0 <= j < source_position(s, v) implies source_lt(#[trigger] s[j], v) by {
            if j > 0 {
                assert(s[j] == t[j - 1]);
            }
        }
    }
}

/// The set of sources that already come in their order, each once, is
/// those sources.
pub proof fn lemma_source_set_of_sorted(s: Seq<SourceView>)
    requires
        sources_sorted(s),
    ensures
        source_set(s) == s,
    decreases s.len(),
{
    if s.len() > 0 {
        let t = s.drop_last();
        assert(sources_sorted(t));
        lemma_source_set_of_sorted(t);
        let v = s.last();
        lemma_last_position(t, v);
        assert(t.insert(t.len() as int, v) =~= s);
    }
}

/// A source after all of `t` is put at the end.
proof fn lemma_last_position(t: Seq<SourceView>, v: SourceView)
    requires
        forall|j: int| 0 <= j < t.len() ==> source_lt(#[trigger] t[j], v),
    ensures
        source_position(t, v) == t.len(),
    decreases t.len(),
{
    if t.len() > 0 {
        let u = t.drop_first();
        assert forall|j: int| 0 <= j < u.len() implies source_lt(#[trigger] u[j], v) by {
            assert(u[j] == t[j + 1]);
        }
        lemma_last_position(u, v);
    }
}

/// The set of sources comes in the order of sources and holds exactly the
/// sources of the list.
pub proof fn lemma_source_set(xs: Seq<SourceView>)
    ensures
        sources_sorted(source_set(xs)),
        forall|x: SourceView| #[trigger] source_set(xs).contains(x) <==> xs.contains(x),
    decreases xs.len(),
{
    if xs.len() > 0 {
        let t = xs.drop_last();
        lemma_source_set(t);
        let s = source_set(t);
        let v = xs.last();
        lemma_add_source_sorted(s, v);
        lemma_source_position_bound(s, v);
        let i = source_position(s, v) as int;
        assert forall|x: SourceView| #[trigger] source_set(xs).contains(x) <==> xs.contains(x) by {
            if source_set(xs).contains(x) && x != v {
                let j = choose|j: int| 0 <= j < source_set(xs).len() && source_set(xs)[j] == x;
                if !(i < s.len() && s[i] == v) {
                    if j < i {
                        assert(s[j] == x);
                    } else {
                        assert(s[j - 1] == x);
                    }
                }
                assert(s.contains(x));
                let k = choose|k: int| 0 <= k < t.len() && t[k] == x;
                assert(xs[k] == x);
            }
            if xs.contains(x) {
                let k = choose|k: int| 0 <= k < xs.len() && xs[k] == x;
                if k < xs.len() - 1 {
                    assert(t[k] == x);
                }
            }
            if x == v {
                assert(xs[xs.len() - 1] == x);
            }
        }
    }
}

/// Puts `source` in its place in the sorted `v`, unless it is there.
pub(crate) fn insert_source(v: &mut Vec<Source>, source: Source)
    requires
        sources_sorted(source_views(old(v)@)),
    ensures
        source_views(final(v)@) == add_source(source_views(old(v)@), source@),
        sources_sorted(source_views(final(v)@)),
{
    let ghost s = source_views(v@);
    let ghost x = source@;
    proof {
        lemma_add_source_sorted(s, x);
    }
    let mut i: usize = 0;
    let mut order: i8 = -1;
    assert(s.skip(0) =~= s);
    while i < v.len()
        invariant
            source_views(v@) == s,
            x == source@,
            i <= s.len(),
            source_position(s, x) == i + source_position(s.skip(i as int), x),
        ensures
            i <= s.len(),
            source_position(s, x) == i + source_position(s.skip(i as int), x),
            i < s.len() ==> order >= 0 && !source_lt(s[i as int], x) && (order == 0 <==> s[i as int] == x),
        decreases s.len() - i,
    {
        assert(s[i as int] == v@[i as int]@);
        order = v[i].compare(&source);
        if order >= 0 {
            break;
        }
        assert(s.skip(i as int)[0] == s[i as int]);
        assert(s.skip(i as int).drop_first() =~= s.skip(i + 1));
        i = i + 1;
    }
    if i < v.len() {
        assert(s.skip(i as int)[0] == s[i as int]);
    } else {
        assert(s.skip(i as int).len() == 0);
    }
    assert(source_position(s, x) == i);
    if i < v.len() && order == 0 {
        return;
    }
    v.insert(i, source);
    assert(source_views(v@) =~= s.insert(i as int, x));
}

/// Sources, each once, in the order of sources, kept below a cache prefix.
pub struct Sources {
    prefix: String,
    sources: Vec<Source>,
}

/// The model: the cache prefix, and the sources in their order.
pub struct SourcesView {
    pub prefix: Seq<char>,
    pub sources: Seq<SourceView>,
}

impl View for Sources {
    type V = SourcesView;

    closed spec fn view(&self) -> SourcesView {
        SourcesView { prefix: self.prefix@, sources: source_views(self.sources@) }
    }
}

impl Sources {
    /// The sources come in their order.
    #[verifier::type_invariant]
    spec fn inv(self) -> bool {
        sources_sorted(source_views(self.sources@))
    }

    /// No sources, kept below `prefix`.
    pub fn new(prefix: &str) -> (r: Sources)
        ensures
            r@.prefix == prefix@,
            r@.sources == Seq::<SourceView>::empty(),
    {
        let r = Sources { prefix: owned(prefix), sources: Vec::new() };
        assert(r@.sources =~= Seq::<SourceView>::empty());
        r
    }

    /// Adds `source` in its place, unless it is there already.
    pub fn insert(&mut self, source: Source)
        ensures
            final(self)@.prefix == old(self)@.prefix,
            final(self)@.sources == add_source(old(self)@.sources, source@),
            sources_sorted(final(self)@.sources),
    {
        proof {
            use_type_invariant(&*self);
        }
        let mut sources = Vec::new();
        std::mem::swap(&mut sources, &mut self.sources);
        insert_source(&mut sources, source);
        self.sources = sources;
    }

    /// The sources, in their order.
    pub fn iter(&self) -> (r: &[Source])
        ensures
            source_views(r@) == self@.sources,
    {
        self.sources.as_slice()
    }

    /// Where each source is kept, in the order of the sources.
    pub fn paths(&self) -> (r: Vec<String>)
        ensures
            r@.len() == self@.sources.len(),
            forall|i: int| 0 <= i < r@.len() ==> #[trigger] r@[i]@ == cache_spec(self@.prefix, self@.sources[i]),
    {
        let mut r: Vec<String> = Vec::new();
        let mut i: usize = 0;
        while i < self.sources.len()
            invariant
                i <= self.sources@.len(),
                r@.len() == i,
                forall|j: int| 0 <= j < i ==> #[trigger] r@[j]@ == cache_spec(self@.prefix, self@.sources[j]),
            decreases self.sources@.len() - i,
        {
            r.push(self.sources[i].cache(self.prefix.as_str()));
            i = i + 1;
        }
        r
    }
}

} // verus!
