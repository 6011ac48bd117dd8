use vstd::prelude::*;

verus! {

/// A strict "comes before" relation on rows of type `T`, used to order the
/// results of store queries.
pub trait RowOrder<T> {
    spec fn before(a: T, b: T) -> bool;

    fn before_exec(a: &T, b: &T) -> (r: bool)
        ensures
            r == Self::before(*a, *b),
    ;

    /// No two rows come before each other.
    proof fn lemma_asymmetric(a: T, b: T)
        ensures
            Self::before(a, b) ==> !Self::before(b, a),
    ;

    /// If `a` comes before `c`, any `b` comes after `a` or before `c`.
    proof fn lemma_negatively_transitive(a: T, b: T, c: T)
        ensures
            Self::before(a, c) ==> Self::before(a, b) || Self::before(b, c),
    ;
}

/// No row of `s` comes before an earlier one.
pub open spec fn in_order<T, O: RowOrder<T>>(s: Seq<T>) -> bool {
    forall|i: int, j: int| 0 <= i < j < s.len() ==> !O::before(#[trigger] s[j], #[trigger] s[i])
}

/// Places `x` into `s` after every row that `x` does not come before.
pub open spec fn insert_ordered<T, O: RowOrder<T>>(s: Seq<T>, x: T) -> Seq<T>
    decreases s.len(),
{
    if s.len() == 0 {
        seq![x]
    } else if !O::before(x, s.last()) {
        s.push(x)
    } else {
        insert_ordered::<T, O>(s.drop_last(), x).push(s.last())
    }
}

/// The stable sort of `s` by `O`: rows that neither comes before keep
/// their relative order.
pub open spec fn ordered<T, O: RowOrder<T>>(s: Seq<T>) -> Seq<T>
    decreases s.len(),
{
    if s.len() == 0 {
        s
    } else {
        insert_ordered::<T, O>(ordered::<T, O>(s.drop_last()), s.last())
    }
}

proof fn lemma_insert_at<T, O: RowOrder<T>>(s: Seq<T>, x: T, p: int)
    requires
        0 <= p <= s.len(),
        forall|k: int| p <= k < s.len() ==> O::before(x, #[trigger] s[k]),
        p == 0 || !O::before(x, s[p - 1]),
    ensures
        insert_ordered::<T, O>(s, x) == s.take(p).push(x) + s.skip(p),
    decreases s.len(),
{
    if s.len() == 0 {
        assert(s.take(p).push(x) + s.skip(p) =~= seq![x]);
    } else if p == s.len() {
        assert(s.take(p).push(x) + s.skip(p) =~= s.push(x));
    } else {
        let t = s.drop_last();
        assert(O::before(x, s[s.len() - 1]));
        assert forall|k: int| p <= k < t.len() implies O::before(x, #[trigger] t[k]) by {
            assert(t[k] == s[k]);
        }
        lemma_insert_at::<T, O>(t, x, p);
        assert(t.take(p).push(x) + t.skip(p) + seq![s.last()] =~= s.take(p).push(x) + s.skip(p));
        assert((t.take(p).push(x) + t.skip(p)).push(s.last()) =~= t.take(p).push(x) + t.skip(p)
            + seq![s.last()]);
    }
}

proof fn lemma_insert_ordered_multiset<T, O: RowOrder<T>>(s: Seq<T>, x: T)
    ensures
        insert_ordered::<T, O>(s, x).to_multiset() == s.to_multiset().insert(x),
    decreases s.len(),
{
    broadcast use vstd::seq_lib::group_to_multiset_ensures;

    if s.len() > 0 && O::before(x, s.last()) {
        let t = s.drop_last();
        lemma_insert_ordered_multiset::<T, O>(t, x);
        assert(s =~= t.push(s.last()));
        assert(t.to_multiset().insert(x).insert(s.last()) =~= t.to_multiset().insert(s.last()).insert(x));
    }
}

proof fn lemma_insert_in_order<T, O: RowOrder<T>>(s: Seq<T>, x: T)
    requires
        in_order::<T, O>(s),
    ensures
        in_order::<T, O>(insert_ordered::<T, O>(s, x)),
    decreases s.len(),
{
    broadcast use vstd::seq_lib::group_to_multiset_ensures;

    if s.len() == 0 {
    } else if !O::before(x, s.last()) {
        let r = s.push(x);
        assert forall|i: int, j: int| 0 <= i < j < r.len() implies !O::before(#[trigger] r[j], #[trigger] r[i]) by {
            if j == s.len() && i < s.len() - 1 {
                O::lemma_negatively_transitive(x, s.last(), s[i]);
            }
        }
    } else {
        let t = s.drop_last();
        let last = s.last();
        assert(in_order::<T, O>(t));
        lemma_insert_in_order::<T, O>(t, x);
        let u = insert_ordered::<T, O>(t, x);
        lemma_insert_ordered_multiset::<T, O>(t, x);
        O::lemma_asymmetric(x, last);
        let r = u.push(last);
        assert forall|i: int, j: int| 0 <= i < j < r.len() implies !O::before(#[trigger] r[j], #[trigger] r[i]) by {
            if j == u.len() {
                let e = u[i];
                assert(u.to_multiset().count(e) > 0);
                assert(t.to_multiset().insert(x).count(e) > 0);
                if e != x {
                    assert(t.to_multiset().count(e) > 0);
                    assert(t.contains(e));
                    let k = choose|k: int| 0 <= k < t.len() && t[k] == e;
                    assert(s[k] == e);
                }
            }
        }
    }
}

/// The stable sort puts no row before an earlier one that it does not come
/// before.
pub proof fn lemma_ordered_in_order<T, O: RowOrder<T>>(s: Seq<T>)
    ensures
        in_order::<T, O>(ordered::<T, O>(s)),
    decreases s.len(),
{
    if s.len() > 0 {
        lemma_ordered_in_order::<T, O>(s.drop_last());
        lemma_insert_in_order::<T, O>(ordered::<T, O>(s.drop_last()), s.last());
    }
}

/// The stable sort holds the rows it was given, each as often.
pub proof fn lemma_ordered_permutes<T, O: RowOrder<T>>(s: Seq<T>)
    ensures
        ordered::<T, O>(s).to_multiset() == s.to_multiset(),
    decreases s.len(),
{
    broadcast use vstd::seq_lib::group_to_multiset_ensures;

    if s.len() > 0 {
        let t = s.drop_last();
        lemma_ordered_permutes::<T, O>(t);
        lemma_insert_ordered_multiset::<T, O>(ordered::<T, O>(t), s.last());
        assert(s =~= t.push(s.last()));
    }
}

/// Inserts `x` into `v`, which is already in `O` order.
fn insert_row<T, O: RowOrder<T>>(v: &mut Vec<T>, x: T)
    ensures
        final(v)@ == insert_ordered::<T, O>(old(v)@, x),
{
    let mut p: usize = v.len();
    while p > 0 && O::before_exec(&x, &v[p - 1])
        invariant
            0 <= p <= v@.len(),
            forall|k: int| p <= k < v@.len() ==> O::before(x, #[trigger] v@[k]),
        decreases p,
    {
        p = p - 1;
    }
    proof {
        lemma_insert_at::<T, O>(v@, x, p as int);
    }
    v.insert(p, x);
    assert(final(v)@ =~= old(v)@.take(p as int).push(x) + old(v)@.skip(p as int));
}

/// Stable sort by `O`.
pub fn sort_rows<T, O: RowOrder<T>>(rows: Vec<T>) -> (r: Vec<T>)
    ensures
        r@ == ordered::<T, O>(rows@),
        r@.to_multiset() == rows@.to_multiset(),
        in_order::<T, O>(r@),
{
    proof {
        lemma_ordered_permutes::<T, O>(rows@);
        lemma_ordered_in_order::<T, O>(rows@);
    }
    let ghost orig = rows@;
    let n = rows.len();
    let mut rest = rows;
    let mut out: Vec<T> = Vec::new();
    let mut k: usize = 0;
    while rest.len() > 0
        invariant
            k + rest@.len() == orig.len(),
            orig.len() == n,
            rest@ == orig.skip(k as int),
            out@ == ordered::<T, O>(orig.take(k as int)),
        decreases rest@.len(),
    {
        let x = rest.remove(0);
        proof {
            assert(orig.take(k + 1).drop_last() =~= orig.take(k as int));
            assert(orig.take(k + 1).last() == x);
        }
        insert_row::<T, O>(&mut out, x);
        k = k + 1;
        assert(rest@ =~= orig.skip(k as int));
    }
    assert(orig.take(k as int) =~= orig);
    out
}

/// One more element of `s` through a filter.
pub proof fn lemma_filter_step<T>(s: Seq<T>, i: int, p: spec_fn(T) -> bool)
    requires
        0 <= i < s.len(),
    ensures
        s.take(i + 1).filter(p) == if p(s[i]) {
            s.take(i).filter(p).push(s[i])
        } else {
            s.take(i).filter(p)
        },
{
    reveal(Seq::filter);
    assert(s.take(i + 1).drop_last() =~= s.take(i));
    assert(s.take(i + 1).last() == s[i]);
}

/// The rows of `s` from index `offset` (all when unset), at most `limit` of
/// them (all when unset).
pub open spec fn page<T>(s: Seq<T>, offset: Option<usize>, limit: Option<usize>) -> Seq<T> {
    let start: int = match offset {
        Some(o) => if o <= s.len() {
            o as int
        } else {
            s.len() as int
        },
        None => 0,
    };
    let end: int = match limit {
        Some(l) => if start + l <= s.len() {
            start + l
        } else {
            s.len() as int
        },
        None => s.len() as int,
    };
    s.subrange(start, end)
}

/// Applies an offset and a limit.
pub fn page_rows<T>(rows: Vec<T>, offset: Option<usize>, limit: Option<usize>) -> (r: Vec<T>)
    ensures
        r@ == page(rows@, offset, limit),
{
    let ghost s = rows@;
    let mut rows = rows;
    let n = rows.len();
    let start: usize = match offset {
        Some(o) => if o <= n {
            o
        } else {
            n
        },
        None => 0,
    };
    let mut tail = rows.split_off(start);
    assert(tail@ =~= s.subrange(start as int, n as int));
    match limit {
        Some(l) => if l <= n - start {
            tail.truncate(l);
        },
        None => {},
    }
    tail
}

} // verus!
