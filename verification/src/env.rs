//! The compiler's scope model.  `LocalEnv` maps lexically scoped variables
//! to their inferred kinds; `ExternalEnv` tracks the kind of the event
//! target that field assignments mutate.  Conditional branches are compiled
//! against snapshots and joined back with `merge`; blocks are closed with
//! `apply_child_scope`, which drops bindings the block introduced.

use vstd::prelude::*;

use crate::kind::Kind;
use crate::text::str_eq;

verus! {

/// First kind bound to `x`, if any.
pub open spec fn spec_get(bs: Seq<(Seq<char>, Kind)>, x: Seq<char>) -> Option<Kind>
    decreases bs.len(),
{
    if bs.len() == 0 {
        None
    } else if bs[0].0 == x {
        Some(bs[0].1)
    } else {
        spec_get(bs.drop_first(), x)
    }
}

/// Validity of an environment: each variable is bound at most once.
pub open spec fn spec_no_dup(bs: Seq<(Seq<char>, Kind)>) -> bool {
    forall|i: int, j: int| 0 <= i < j < bs.len() ==> bs[i].0 != bs[j].0
}

/// Replace the first binding of `x`, or add one at the end.
pub open spec fn spec_env_insert(bs: Seq<(Seq<char>, Kind)>, x: Seq<char>, k: Kind) -> Seq<
    (Seq<char>, Kind),
>
    decreases bs.len(),
{
    if bs.len() == 0 {
        seq![(x, k)]
    } else if bs[0].0 == x {
        seq![(x, k)] + bs.drop_first()
    } else {
        seq![bs[0]] + spec_env_insert(bs.drop_first(), x, k)
    }
}

/// The left part of a merge: every binding of `a`, widened by what `b`
/// binds for the same variable.
pub open spec fn spec_merge_left(
    a: Seq<(Seq<char>, Kind)>,
    b: Seq<(Seq<char>, Kind)>,
) -> Seq<(Seq<char>, Kind)> {
    a.map_values(
        |p: (Seq<char>, Kind)|
            (
                p.0,
                match spec_get(b, p.0) {
                    Some(w) => p.1.spec_union(w),
                    None => p.1,
                },
            ),
    )
}

/// The bindings of `b` whose variables `a` does not bind, in order.
pub open spec fn spec_missing(
    b: Seq<(Seq<char>, Kind)>,
    a: Seq<(Seq<char>, Kind)>,
) -> Seq<(Seq<char>, Kind)>
    decreases b.len(),
{
    if b.len() == 0 {
        Seq::empty()
    } else {
        let head = if spec_get(a, b[0].0) is None {
            seq![b[0]]
        } else {
            Seq::empty()
        };
        head + spec_missing(b.drop_first(), a)
    }
}

/// The merge of two environments: for every variable bound by either
/// side, the union of the kinds each side binds; a variable bound on one
/// side only keeps that side's kind.
pub open spec fn spec_env_merge(
    a: Seq<(Seq<char>, Kind)>,
    b: Seq<(Seq<char>, Kind)>,
) -> Seq<(Seq<char>, Kind)> {
    spec_merge_left(a, b) + spec_missing(b, a)
}

/// Closing a child scope: keep exactly the parent's variables, each with
/// the kind the child left it at.
pub open spec fn spec_restrict(
    parent: Seq<(Seq<char>, Kind)>,
    child: Seq<(Seq<char>, Kind)>,
) -> Seq<(Seq<char>, Kind)> {
    parent.map_values(
        |p: (Seq<char>, Kind)|
            (
                p.0,
                match spec_get(child, p.0) {
                    Some(w) => w,
                    None => p.1,
                },
            ),
    )
}

/// Binding a variable keeps an environment duplicate-free, and introduces
/// no variable but the bound one.  With `lemma_merge_idempotent`, this
/// lets a caller of the branch merge conclude that two branches leaving
/// identical well-formed states merge back to that same state.
pub proof fn lemma_env_insert_no_dup(bs: Seq<(Seq<char>, Kind)>, x: Seq<char>, k: Kind)
    requires
        spec_no_dup(bs),
    ensures
        spec_no_dup(spec_env_insert(bs, x, k)),
        forall|i: int|
            0 <= i < spec_env_insert(bs, x, k).len() ==> ((#[trigger] spec_env_insert(
                bs,
                x,
                k,
            )[i]).0 == x || exists|j: int|
                0 <= j < bs.len() && (#[trigger] bs[j]).0 == spec_env_insert(bs, x, k)[i].0),
    decreases bs.len(),
{
    let r = spec_env_insert(bs, x, k);
    if bs.len() == 0 {
        assert(r =~= seq![(x, k)]);
    } else if bs[0].0 == x {
        assert(r =~= seq![(x, k)] + bs.drop_first());
        assert forall|p: int, q: int| 0 <= p < q < r.len() implies r[p].0 != r[q].0 by {
            if p == 0 {
                assert(r[q] == bs[q]);
                assert(bs[0].0 != bs[q].0);
            } else {
                assert(r[p] == bs[p] && r[q] == bs[q]);
            }
        }
        assert forall|i: int| 0 <= i < r.len() implies (r[i].0 == x || exists|j: int|
            0 <= j < bs.len() && (#[trigger] bs[j]).0 == r[i].0) by {
            if i > 0 {
                assert(bs[i].0 == r[i].0);
            }
        }
    } else {
        assert(spec_no_dup(bs.drop_first())) by {
            assert(forall|p: int|
                0 <= p < bs.drop_first().len() ==> #[trigger] bs.drop_first()[p] == bs[p + 1]);
        }
        lemma_env_insert_no_dup(bs.drop_first(), x, k);
        let rr = spec_env_insert(bs.drop_first(), x, k);
        assert(r =~= seq![bs[0]] + rr);
        assert forall|p: int, q: int| 0 <= p < q < r.len() implies r[p].0 != r[q].0 by {
            if p == 0 {
                assert(r[q] == rr[q - 1]);
                if rr[q - 1].0 == x {
                } else {
                    let j = choose|j: int|
                        0 <= j < bs.drop_first().len() && (#[trigger] bs.drop_first()[j]).0
                            == rr[q - 1].0;
                    assert(bs.drop_first()[j] == bs[j + 1]);
                    assert(bs[0].0 != bs[j + 1].0);
                }
            } else {
                assert(r[p] == rr[p - 1] && r[q] == rr[q - 1]);
            }
        }
        assert forall|i: int| 0 <= i < r.len() implies (r[i].0 == x || exists|j: int|
            0 <= j < bs.len() && (#[trigger] bs[j]).0 == r[i].0) by {
            if i == 0 {
                assert(bs[0].0 == r[0].0);
            } else {
                assert(r[i] == rr[i - 1]);
                if rr[i - 1].0 != x {
                    let j = choose|j: int|
                        0 <= j < bs.drop_first().len() && (#[trigger] bs.drop_first()[j]).0
                            == rr[i - 1].0;
                    assert(bs[j + 1].0 == r[i].0);
                }
            }
        }
    }
}

/// In a duplicate-free environment, looking an entry's variable up yields
/// that entry's kind.
pub proof fn lemma_get_of_entry(bs: Seq<(Seq<char>, Kind)>, i: int)
    requires
        spec_no_dup(bs),
        0 <= i < bs.len(),
    ensures
        spec_get(bs, bs[i].0) == Some(bs[i].1),
    decreases i,
{
    if i > 0 {
        assert(bs[0].0 != bs[i].0);
        assert(spec_no_dup(bs.drop_first())) by {
            assert(forall|p: int|
                0 <= p < bs.drop_first().len() ==> #[trigger] bs.drop_first()[p] == bs[p + 1]);
        }
        lemma_get_of_entry(bs.drop_first(), i - 1);
        assert(bs.drop_first()[i - 1] == bs[i]);
    }
}

/// Lookup over a concatenation: the left part wins where it binds.
pub proof fn lemma_get_concat(
    s1: Seq<(Seq<char>, Kind)>,
    s2: Seq<(Seq<char>, Kind)>,
    x: Seq<char>,
)
    ensures
        spec_get(s1 + s2, x) == match spec_get(s1, x) {
            Some(v) => Some(v),
            None => spec_get(s2, x),
        },
    decreases s1.len(),
{
    if s1.len() == 0 {
        assert(s1 + s2 =~= s2);
    } else {
        assert((s1 + s2)[0] == s1[0]);
        assert((s1 + s2).drop_first() =~= s1.drop_first() + s2);
        lemma_get_concat(s1.drop_first(), s2, x);
    }
}

/// Lookup over a key-preserving remap of the values.
pub proof fn lemma_get_mapped(
    a: Seq<(Seq<char>, Kind)>,
    f: spec_fn((Seq<char>, Kind)) -> Kind,
    x: Seq<char>,
)
    ensures
        spec_get(a.map_values(|p: (Seq<char>, Kind)| (p.0, f(p))), x) == match spec_get(a, x) {
            Some(_) => Some(f((x, first_of(a, x)))),
            None => None,
        },
        spec_get(a, x) matches Some(v) ==> first_of(a, x) == v,
    decreases a.len(),
{
    let m = a.map_values(|p: (Seq<char>, Kind)| (p.0, f(p)));
    if a.len() > 0 {
        assert(m[0] == (a[0].0, f(a[0])));
        assert(m.drop_first() =~= a.drop_first().map_values(
            |p: (Seq<char>, Kind)| (p.0, f(p)),
        ));
        lemma_get_mapped(a.drop_first(), f, x);
        if a[0].0 == x {
            assert(a[0] == (a[0].0, a[0].1));
        }
    }
}

/// The kind of the first binding of `x`, where one exists.
pub open spec fn first_of(a: Seq<(Seq<char>, Kind)>, x: Seq<char>) -> Kind
    decreases a.len(),
{
    if a.len() == 0 {
        Kind::spec_never()
    } else if a[0].0 == x {
        a[0].1
    } else {
        first_of(a.drop_first(), x)
    }
}

/// Lookup in the missing-part of a merge: it binds exactly the variables
/// `b` binds and `a` does not, at `b`'s kinds.
pub proof fn lemma_get_missing(
    b: Seq<(Seq<char>, Kind)>,
    a: Seq<(Seq<char>, Kind)>,
    x: Seq<char>,
)
    ensures
        spec_get(spec_missing(b, a), x) == if spec_get(a, x) is None {
            spec_get(b, x)
        } else {
            None::<Kind>
        },
    decreases b.len(),
{
    if b.len() > 0 {
        lemma_get_missing(b.drop_first(), a, x);
        if spec_get(a, b[0].0) is None {
            assert(spec_missing(b, a) =~= seq![b[0]] + spec_missing(b.drop_first(), a));
            lemma_get_concat(seq![b[0]], spec_missing(b.drop_first(), a), x);
            assert(seq![b[0]].drop_first() =~= Seq::<(Seq<char>, Kind)>::empty());
            if b[0].0 == x {
                assert(spec_get(seq![b[0]], x) == Some(b[0].1));
                assert(spec_get(b, x) == Some(b[0].1));
            } else {
                assert(spec_get(seq![b[0]], x) == spec_get(
                    Seq::<(Seq<char>, Kind)>::empty(),
                    x,
                ));
                assert(spec_get(seq![b[0]], x) is None);
                assert(spec_get(b, x) == spec_get(b.drop_first(), x));
            }
        } else {
            assert(spec_missing(b, a) =~= Seq::<(Seq<char>, Kind)>::empty() + spec_missing(
                b.drop_first(),
                a,
            ));
            assert(spec_missing(b, a) =~= spec_missing(b.drop_first(), a));
            if b[0].0 == x {
                assert(spec_get(a, x) is Some);
            } else {
                assert(spec_get(b, x) == spec_get(b.drop_first(), x));
            }
        }
    }
}

/// The union of two optional kinds: both absent stays absent, one side
/// absent keeps the other, both present take the union.
pub open spec fn spec_opt_union(a: Option<Kind>, b: Option<Kind>) -> Option<Kind> {
    match (a, b) {
        (Some(ka), Some(kb)) => Some(ka.spec_union(kb)),
        (Some(ka), None) => Some(ka),
        (None, Some(kb)) => Some(kb),
        (None, None) => None,
    }
}

/// Branch widening: after merging two environments, every variable is
/// bound to the union of the kinds the two sides bind, and a variable
/// bound on one side only keeps that side's kind unchanged.
pub proof fn lemma_merge_get(a: Seq<(Seq<char>, Kind)>, b: Seq<(Seq<char>, Kind)>, x: Seq<char>)
    requires
        spec_no_dup(a),
    ensures
        spec_get(spec_env_merge(a, b), x) == spec_opt_union(spec_get(a, x), spec_get(b, x)),
{
    let f = |p: (Seq<char>, Kind)|
        match spec_get(b, p.0) {
            Some(w) => p.1.spec_union(w),
            None => p.1,
        };
    assert(spec_merge_left(a, b) =~= a.map_values(|p: (Seq<char>, Kind)| (p.0, f(p))));
    lemma_get_concat(spec_merge_left(a, b), spec_missing(b, a), x);
    lemma_get_mapped(a, f, x);
    lemma_get_missing(b, a, x);
}

/// Scope merge idempotence: merging a well-formed environment with itself
/// yields the same environment.
pub proof fn lemma_merge_idempotent(e: Seq<(Seq<char>, Kind)>)
    requires
        spec_no_dup(e),
    ensures
        spec_env_merge(e, e) == e,
{
    let f = |p: (Seq<char>, Kind)|
        match spec_get(e, p.0) {
            Some(w) => p.1.spec_union(w),
            None => p.1,
        };
    assert(spec_merge_left(e, e) =~= e) by {
        assert forall|i: int| 0 <= i < e.len() implies spec_merge_left(e, e)[i] == e[i] by {
            lemma_get_of_entry(e, i);
            assert(spec_merge_left(e, e)[i] == (e[i].0, e[i].1.spec_union(e[i].1)));
            assert(e[i].1.spec_union(e[i].1) == e[i].1);
            assert((e[i].0, e[i].1) == e[i]);
        }
    }
    assert(spec_missing(e, e) =~= Seq::<(Seq<char>, Kind)>::empty()) by {
        assert forall|i: int| 0 <= i < e.len() implies spec_get(e, #[trigger] e[i].0) is Some by {
            lemma_get_of_entry(e, i);
        }
        lemma_missing_all_present(e, e);
    }
    assert(spec_env_merge(e, e) =~= e);
}

/// Where every variable of `b` is bound in `a`, a merge adds nothing new.
pub proof fn lemma_missing_all_present(b: Seq<(Seq<char>, Kind)>, a: Seq<(Seq<char>, Kind)>)
    requires
        forall|i: int| 0 <= i < b.len() ==> spec_get(a, #[trigger] b[i].0) is Some,
    ensures
        spec_missing(b, a) =~= Seq::<(Seq<char>, Kind)>::empty(),
    decreases b.len(),
{
    if b.len() > 0 {
        assert(forall|i: int|
            0 <= i < b.drop_first().len() ==> #[trigger] b.drop_first()[i] == b[i + 1]);
        lemma_missing_all_present(b.drop_first(), a);
    }
}

/// Block scoping: closing a child scope keeps exactly the parent's
/// variables; one the child mutated keeps the mutated kind, one the child
/// never bound keeps the parent's kind, and one only the child introduced
/// is gone.
pub proof fn lemma_restrict_get(
    parent: Seq<(Seq<char>, Kind)>,
    child: Seq<(Seq<char>, Kind)>,
    x: Seq<char>,
)
    requires
        spec_no_dup(parent),
    ensures
        spec_get(spec_restrict(parent, child), x) == match spec_get(parent, x) {
            Some(v) => Some(
                match spec_get(child, x) {
                    Some(w) => w,
                    None => v,
                },
            ),
            None => None::<Kind>,
        },
{
    let f = |p: (Seq<char>, Kind)|
        match spec_get(child, p.0) {
            Some(w) => w,
            None => p.1,
        };
    assert(spec_restrict(parent, child) =~= parent.map_values(
        |p: (Seq<char>, Kind)| (p.0, f(p)),
    ));
    lemma_get_mapped(parent, f, x);
}

/// Lexically scoped variable kinds.
pub struct LocalEnv {
    bindings: Vec<(String, Kind)>,
}

impl LocalEnv {
    pub closed spec fn view(&self) -> Seq<(Seq<char>, Kind)> {
        self.bindings@.map_values(|p: (String, Kind)| (p.0@, p.1))
    }

    /// Validity: each variable is bound at most once.
    pub open spec fn wf(&self) -> bool {
        spec_no_dup(self.view())
    }

    /// The empty scope.
    pub fn new() -> (r: LocalEnv)
        ensures
            r.view() =~= Seq::<(Seq<char>, Kind)>::empty(),
            r.wf(),
    {
        LocalEnv { bindings: Vec::new() }
    }

    /// An exact copy of this scope, used for branch snapshots.
    pub fn duplicate(&self) -> (r: LocalEnv)
        ensures
            r.view() == self.view(),
    {
        let n = self.bindings.len();
        let mut out: Vec<(String, Kind)> = Vec::new();
        let mut i: usize = 0;
        while i < n
            invariant
                i <= n,
                n == self.bindings.len(),
                out@.len() == i,
                forall|k: int|
                    0 <= k < i ==> #[trigger] out@[k].0@ == self.bindings@[k].0@ && out@[k].1
                        == self.bindings@[k].1,
            decreases n - i,
        {
            out.push((self.bindings[i].0.clone(), self.bindings[i].1));
            i = i + 1;
        }
        let r = LocalEnv { bindings: out };
        proof {
            assert(r.view() =~= self.view());
        }
        r
    }

    /// The kind bound to `ident`, if any.
    pub fn get(&self, ident: &str) -> (r: Option<Kind>)
        ensures
            r == spec_get(self.view(), ident@),
    {
        let ghost bs = self.view();
        let n = self.bindings.len();
        let mut i: usize = 0;
        proof {
            assert(bs.skip(0) =~= bs);
        }
        while i < n
            invariant
                i <= n,
                n == self.bindings.len(),
                bs == self.view(),
                n == bs.len(),
                spec_get(bs, ident@) == spec_get(bs.skip(i as int), ident@),
            decreases n - i,
        {
            proof {
                assert(bs.skip(i as int)[0] == bs[i as int]);
                assert(bs.skip(i as int).drop_first() =~= bs.skip(i as int + 1));
            }
            if str_eq(self.bindings[i].0.as_str(), ident) {
                return Some(self.bindings[i].1);
            }
            i = i + 1;
        }
        proof {
            assert(bs.skip(n as int).len() == 0);
        }
        None
    }

    /// Bind `ident` to `kind`, replacing any existing binding.
    pub fn insert(&mut self, ident: &str, kind: Kind)
        ensures
            final(self).view() == spec_env_insert(old(self).view(), ident@, kind),
    {
        let ghost bs0 = self.view();
        let n = self.bindings.len();
        let mut i: usize = 0;
        proof {
            assert(bs0.skip(0) =~= bs0);
        }
        while i < n
            invariant
                i <= n,
                n == self.bindings.len(),
                bs0 == old(self).view(),
                self.view() == bs0,
                n == bs0.len(),
                forall|k: int| 0 <= k < i ==> #[trigger] bs0[k].0 != ident@,
            decreases n - i,
        {
            if str_eq(self.bindings[i].0.as_str(), ident) {
                self.bindings[i] = (ident.to_owned(), kind);
                proof {
                    lemma_env_insert_skip(bs0, ident@, kind, i as int);
                    assert(spec_env_insert(bs0.skip(i as int), ident@, kind) =~= seq![
                        (ident@, kind),
                    ] + bs0.skip(i as int).drop_first());
                    assert(bs0.skip(i as int).drop_first() =~= bs0.skip(i as int + 1));
                    assert(self.view() =~= spec_env_insert(bs0, ident@, kind));
                }
                return ;
            }
            i = i + 1;
        }
        self.bindings.push((ident.to_owned(), kind));
        proof {
            lemma_env_insert_skip(bs0, ident@, kind, n as int);
            assert(spec_env_insert(bs0.skip(n as int), ident@, kind) =~= seq![(ident@, kind)]);
            assert(self.view() =~= spec_env_insert(bs0, ident@, kind));
        }
    }

    /// Merge a branch environment into this one: the union of kinds per
    /// variable; a variable bound on one side only keeps its kind.
    pub fn merge(&self, other: &LocalEnv) -> (r: LocalEnv)
        ensures
            r.view() == spec_env_merge(self.view(), other.view()),
    {
        let ghost av = self.view();
        let ghost bv = other.view();
        let mut out: Vec<(String, Kind)> = Vec::new();
        let n = self.bindings.len();
        let mut i: usize = 0;
        while i < n
            invariant
                i <= n,
                n == self.bindings.len(),
                av == self.view(),
                bv == other.view(),
                n == av.len(),
                out@.len() == i,
                forall|k: int|
                    0 <= k < i ==> #[trigger] out@[k].0@ == av[k].0 && out@[k].1
                        == spec_merge_left(av, bv)[k].1,
            decreases n - i,
        {
            let ident = &self.bindings[i].0;
            let kind = self.bindings[i].1;
            let widened = match other.get(ident.as_str()) {
                Some(w) => kind.union(&w),
                None => kind,
            };
            out.push((ident.clone(), widened));
            i = i + 1;
        }
        let ghost left = spec_merge_left(av, bv);
        proof {
            assert(out@.map_values(|p: (String, Kind)| (p.0@, p.1)) =~= left);
        }
        let m = other.bindings.len();
        let mut j: usize = 0;
        proof {
            assert(bv.skip(0) =~= bv);
            assert(spec_missing(bv.skip(0), av) == spec_missing(bv, av));
        }
        while j < m
            invariant
                j <= m,
                m == other.bindings.len(),
                av == self.view(),
                bv == other.view(),
                m == bv.len(),
                spec_missing(bv, av) =~= out@.map_values(|p: (String, Kind)| (p.0@, p.1)).skip(
                    left.len() as int,
                ) + spec_missing(bv.skip(j as int), av),
                out@.len() >= left.len(),
                out@.map_values(|p: (String, Kind)| (p.0@, p.1)).take(left.len() as int) =~= left,
            decreases m - j,
        {
            proof {
                assert(bv.skip(j as int)[0] == bv[j as int]);
                assert(bv.skip(j as int).drop_first() =~= bv.skip(j as int + 1));
            }
            let ident = &other.bindings[j].0;
            match self.get(ident.as_str()) {
                Some(_) => {},
                None => {
                    out.push((ident.clone(), other.bindings[j].1));
                },
            }
            proof {
                assert(out@.map_values(|p: (String, Kind)| (p.0@, p.1)).take(left.len() as int)
                    =~= left);
                assert(spec_missing(bv, av) =~= out@.map_values(
                    |p: (String, Kind)| (p.0@, p.1),
                ).skip(left.len() as int) + spec_missing(bv.skip(j as int + 1), av));
            }
            j = j + 1;
        }
        let r = LocalEnv { bindings: out };
        proof {
            assert(spec_missing(bv.skip(m as int), av) =~= Seq::<(Seq<char>, Kind)>::empty());
            assert(r.view() =~= left + spec_missing(bv, av));
        }
        r
    }

    /// Close a child scope against this parent snapshot: keep exactly the
    /// parent's variables, each at the kind the child left it at.
    pub fn apply_child_scope(&self, child: &LocalEnv) -> (r: LocalEnv)
        ensures
            r.view() == spec_restrict(self.view(), child.view()),
    {
        let ghost pv = self.view();
        let ghost cv = child.view();
        let mut out: Vec<(String, Kind)> = Vec::new();
        let n = self.bindings.len();
        let mut i: usize = 0;
        while i < n
            invariant
                i <= n,
                n == self.bindings.len(),
                pv == self.view(),
                cv == child.view(),
                n == pv.len(),
                out@.len() == i,
                forall|k: int|
                    0 <= k < i ==> #[trigger] out@[k].0@ == pv[k].0 && out@[k].1 == spec_restrict(
                        pv,
                        cv,
                    )[k].1,
            decreases n - i,
        {
            let ident = &self.bindings[i].0;
            let kind = match child.get(ident.as_str()) {
                Some(w) => w,
                None => self.bindings[i].1,
            };
            out.push((ident.clone(), kind));
            i = i + 1;
        }
        let r = LocalEnv { bindings: out };
        proof {
            assert(r.view() =~= spec_restrict(pv, cv));
        }
        r
    }
}

proof fn lemma_env_insert_skip(bs: Seq<(Seq<char>, Kind)>, x: Seq<char>, k: Kind, j: int)
    requires
        0 <= j <= bs.len(),
        forall|i: int| 0 <= i < j ==> bs[i].0 != x,
    ensures
        spec_env_insert(bs, x, k) =~= bs.take(j) + spec_env_insert(bs.skip(j), x, k),
    decreases j,
{
    if j == 0 {
        assert(bs.take(0) =~= Seq::empty());
        assert(bs.skip(0) =~= bs);
    } else {
        lemma_env_insert_skip(bs.drop_first(), x, k, j - 1);
        assert(bs.drop_first().take(j - 1) =~= bs.take(j).drop_first());
        assert(bs.drop_first().skip(j - 1) =~= bs.skip(j));
        assert(spec_env_insert(bs, x, k) =~= seq![bs[0]] + spec_env_insert(
            bs.drop_first(),
            x,
            k,
        ));
    }
}

/// The kind of the event target that field assignments mutate.
pub struct ExternalEnv {
    target: Kind,
}

impl ExternalEnv {
    pub closed spec fn target_kind(&self) -> Kind {
        self.target
    }

    /// An event context whose target has the given kind.
    pub fn new(target: Kind) -> (r: ExternalEnv)
        ensures
            r.target_kind() == target,
    {
        ExternalEnv { target }
    }

    /// The kind currently tracked for the event target.
    pub fn target(&self) -> (r: Kind)
        ensures
            r == self.target_kind(),
    {
        self.target
    }

    /// Replace the tracked target kind, after a branch was resolved.
    pub fn update_target(&mut self, kind: Kind)
        ensures
            final(self).target_kind() == kind,
    {
        self.target = kind;
    }
}

} // verus!
