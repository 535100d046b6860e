//! Ordering events by start time, the way a stable sort on
//! `Option<DateTime>` keys orders them (events without a start first).

use vstd::prelude::*;
use crate::time::{Stamp, stamp_before, stamp_lt};

verus! {

broadcast use vstd::seq_lib::group_to_multiset_ensures;

/// Something with an optional start time.
pub trait Timed {
    /// The start time.
    spec fn start_key(&self) -> Option<Stamp>;

    /// The start time.
    fn start_time(&self) -> (r: Option<Stamp>)
        ensures
            r == self.start_key(),
    ;
}

/// The order of optional start times: no start comes before any start, and
/// starts come in chronological order.
pub open spec fn key_lt(a: Option<Stamp>, b: Option<Stamp>) -> bool {
    match (a, b) {
        (None, Some(_)) => true,
        (Some(x), Some(y)) => stamp_lt(x, y),
        _ => false,
    }
}

/// Whether `a` comes strictly before `b`.
pub fn key_before(a: Option<Stamp>, b: Option<Stamp>) -> (r: bool)
    ensures
        r == key_lt(a, b),
{
    match (a, b) {
        (None, Some(_)) => true,
        (Some(x), Some(y)) => stamp_before(&x, &y),
        _ => false,
    }
}

/// `e` inserted into `s` after every item whose key is not later than its
/// own.
pub open spec fn insert_by<T>(s: Seq<T>, e: T, key: spec_fn(T) -> Option<Stamp>) -> Seq<T>
    decreases s.len(),
{
    if s.len() == 0 {
        seq![e]
    } else if key_lt(key(e), key(s.last())) {
        insert_by(s.drop_last(), e, key).push(s.last())
    } else {
        s.push(e)
    }
}

/// `s` in the order of a stable sort by `key`.
pub open spec fn sort_by<T>(s: Seq<T>, key: spec_fn(T) -> Option<Stamp>) -> Seq<T>
    decreases s.len(),
{
    if s.len() == 0 {
        s
    } else {
        insert_by(sort_by(s.drop_last(), key), s.last(), key)
    }
}

/// The start time of an item, as a function.
pub open spec fn start_of<T: Timed>() -> spec_fn(T) -> Option<Stamp> {
    |x: T| x.start_key()
}

/// `s` in the order of a stable sort by start time.
pub open spec fn sort_by_start<T: Timed>(s: Seq<T>) -> Seq<T> {
    sort_by(s, start_of::<T>())
}

/// No item has a key earlier than an item before it.
pub open spec fn ordered_by<T>(s: Seq<T>, key: spec_fn(T) -> Option<Stamp>) -> bool {
    forall|i: int, j: int| 0 <= i < j < s.len() ==> !key_lt(#[trigger] key(s[j]), #[trigger] key(s[i]))
}

proof fn lemma_insert_at<T>(s: Seq<T>, e: T, key: spec_fn(T) -> Option<Stamp>, j: int)
    requires
        0 <= j <= s.len(),
        forall|k: int| j <= k < s.len() ==> key_lt(key(e), #[trigger] key(s[k])),
        j > 0 ==> !key_lt(key(e), key(s[j - 1])),
    ensures
        insert_by(s, e, key) == s.insert(j, e),
    decreases s.len(),
{
    if s.len() == 0 {
        assert(s.insert(j, e) =~= seq![e]);
    } else if j == s.len() {
        assert(s.insert(j, e) =~= s.push(e));
    } else {
        assert(key_lt(key(e), key(s[s.len() - 1])));
        lemma_insert_at(s.drop_last(), e, key, j);
        assert(s.insert(j, e) =~= s.drop_last().insert(j, e).push(s.last()));
    }
}

proof fn lemma_key_lt_facts(a: Option<Stamp>, b: Option<Stamp>, c: Option<Stamp>)
    ensures
        key_lt(a, b) ==> !key_lt(b, a),
        key_lt(a, c) ==> key_lt(a, b) || key_lt(b, c),
{
}

proof fn lemma_insert_multiset<T>(s: Seq<T>, e: T, key: spec_fn(T) -> Option<Stamp>)
    ensures
        insert_by(s, e, key).to_multiset() == s.to_multiset().insert(e),
    decreases s.len(),
{
    if s.len() == 0 {
        assert(seq![e] =~= Seq::<T>::empty().push(e));
        assert(s =~= Seq::<T>::empty());
    } else if key_lt(key(e), key(s.last())) {
        lemma_insert_multiset(s.drop_last(), e, key);
        assert(s.drop_last().push(s.last()) =~= s);
        assert(insert_by(s, e, key).to_multiset() =~= s.to_multiset().insert(e));
    }
}

proof fn lemma_insert_ordered<T>(s: Seq<T>, e: T, key: spec_fn(T) -> Option<Stamp>)
    requires
        ordered_by(s, key),
    ensures
        ordered_by(insert_by(s, e, key), key),
    decreases s.len(),
{
    let r = insert_by(s, e, key);
    if s.len() == 0 {
    } else if key_lt(key(e), key(s.last())) {
        let t = s.drop_last();
        let last = s.last();
        assert(ordered_by(t, key)) by {
            assert forall|i: int, j: int| 0 <= i < j < t.len() implies !key_lt(
                #[trigger] key(t[j]),
                #[trigger] key(t[i]),
            ) by {
                assert(t[i] == s[i] && t[j] == s[j]);
            }
        }
        lemma_insert_ordered(t, e, key);
        lemma_insert_multiset(t, e, key);
        let u = insert_by(t, e, key);
        assert forall|i: int| 0 <= i < u.len() implies !key_lt(key(last), #[trigger] key(u[i])) by {
            let x = u[i];
            assert(u.to_multiset().contains(x));
            if x == e {
                lemma_key_lt_facts(key(e), key(last), key(e));
            } else {
                assert(t.to_multiset().contains(x));
                let k = choose|k: int| 0 <= k < t.len() && t[k] == x;
                assert(s[k] == x);
                assert(!key_lt(key(s[s.len() - 1]), key(s[k])));
            }
        }
        assert forall|i: int, j: int| 0 <= i < j < r.len() implies !key_lt(
            #[trigger] key(r[j]),
            #[trigger] key(r[i]),
        ) by {
            if j == r.len() - 1 {
                assert(r[j] == last);
                assert(r[i] == u[i]);
            } else {
                assert(r[i] == u[i] && r[j] == u[j]);
            }
        }
    } else {
        let last = s.last();
        assert forall|i: int, j: int| 0 <= i < j < r.len() implies !key_lt(
            #[trigger] key(r[j]),
            #[trigger] key(r[i]),
        ) by {
            if j == r.len() - 1 {
                assert(r[j] == e);
                assert(r[i] == s[i]);
                if i < s.len() - 1 {
                    assert(!key_lt(key(s[s.len() - 1]), key(s[i])));
                }
                lemma_key_lt_facts(key(e), key(last), key(s[i]));
            } else {
                assert(r[i] == s[i] && r[j] == s[j]);
            }
        }
    }
}

proof fn lemma_insert_map<A, B>(
    s: Seq<A>,
    e: A,
    f: spec_fn(A) -> B,
    ka: spec_fn(A) -> Option<Stamp>,
    kb: spec_fn(B) -> Option<Stamp>,
)
    requires
        forall|x: A| #[trigger] kb(f(x)) == ka(x),
    ensures
        insert_by(s, e, ka).map_values(f) == insert_by(s.map_values(f), f(e), kb),
    decreases s.len(),
{
    let m = s.map_values(f);
    assert(kb(f(e)) == ka(e));
    if s.len() == 0 {
        assert(seq![e].map_values(f) =~= seq![f(e)]);
    } else {
        assert(m.last() == f(s.last()));
        assert(kb(f(s.last())) == ka(s.last()));
        assert(m.drop_last() =~= s.drop_last().map_values(f));
        if key_lt(ka(e), ka(s.last())) {
            lemma_insert_map(s.drop_last(), e, f, ka, kb);
            assert(insert_by(s.drop_last(), e, ka).push(s.last()).map_values(f) =~= insert_by(
                s.drop_last(),
                e,
                ka,
            ).map_values(f).push(f(s.last())));
        } else {
            assert(s.push(e).map_values(f) =~= m.push(f(e)));
        }
    }
}

/// Sorting by a key commutes with mapping the items, when the key of an
/// item's image is the key of the item.
pub proof fn lemma_sort_by_map<A, B>(
    s: Seq<A>,
    f: spec_fn(A) -> B,
    ka: spec_fn(A) -> Option<Stamp>,
    kb: spec_fn(B) -> Option<Stamp>,
)
    requires
        forall|x: A| #[trigger] kb(f(x)) == ka(x),
    ensures
        sort_by(s, ka).map_values(f) == sort_by(s.map_values(f), kb),
    decreases s.len(),
{
    if s.len() > 0 {
        let m = s.map_values(f);
        assert(m.drop_last() =~= s.drop_last().map_values(f));
        assert(m.last() == f(s.last()));
        lemma_sort_by_map(s.drop_last(), f, ka, kb);
        lemma_insert_map(sort_by(s.drop_last(), ka), s.last(), f, ka, kb);
    } else {
        assert(s.map_values(f) =~= Seq::<B>::empty());
    }
}

/// A stable sort by a key puts the items in key order and keeps every item,
/// as often as it occurred.
pub proof fn lemma_sort_by_sorts<T>(s: Seq<T>, key: spec_fn(T) -> Option<Stamp>)
    ensures
        ordered_by(sort_by(s, key), key),
        sort_by(s, key).to_multiset() == s.to_multiset(),
    decreases s.len(),
{
    if s.len() > 0 {
        lemma_sort_by_sorts(s.drop_last(), key);
        lemma_insert_ordered(sort_by(s.drop_last(), key), s.last(), key);
        lemma_insert_multiset(sort_by(s.drop_last(), key), s.last(), key);
        assert(s.drop_last().push(s.last()) =~= s);
    }
}

/// A sort keeps the number of items, and every item of the result is an
/// item of the input.
pub proof fn lemma_sort_by_members<T>(s: Seq<T>, key: spec_fn(T) -> Option<Stamp>)
    ensures
        sort_by(s, key).len() == s.len(),
        forall|i: int| 0 <= i < s.len() ==> s.contains(#[trigger] sort_by(s, key)[i]),
{
    lemma_sort_by_sorts(s, key);
    let r = sort_by(s, key);
    r.to_multiset_ensures();
    s.to_multiset_ensures();
    assert forall|i: int| 0 <= i < s.len() implies s.contains(#[trigger] r[i]) by {
        assert(r.contains(r[i]));
        assert(r.to_multiset().count(r[i]) > 0);
        assert(s.to_multiset().count(r[i]) > 0);
    }
}

/// Sorting by start time orders the items by start (items without a start
/// first) and keeps every item, as often as it occurred.
pub proof fn lemma_sort_by_start_sorts<T: Timed>(s: Seq<T>)
    ensures
        ordered_by(sort_by_start(s), start_of::<T>()),
        sort_by_start(s).to_multiset() == s.to_multiset(),
        sort_by_start(s).len() == s.len(),
{
    lemma_sort_by_sorts(s, start_of::<T>());
    sort_by_start(s).to_multiset_ensures();
    s.to_multiset_ensures();
}

/// Sorts items by start time, keeping items with equal starts in the order
/// they came in.
pub fn sort_by_start_time<T: Timed>(v: Vec<T>) -> (r: Vec<T>)
    ensures
        r@ == sort_by_start(v@),
{
    let ghost orig = v@;
    let ghost key = start_of::<T>();
    let mut rest = v;
    let mut out: Vec<T> = Vec::new();
    let ghost mut done: int = 0;
    proof {
        assert(orig.take(0) =~= Seq::<T>::empty());
    }
    while rest.len() > 0
        invariant
            0 <= done <= orig.len(),
            rest@ == orig.skip(done),
            key == start_of::<T>(),
            out@ == sort_by(orig.take(done), key),
        decreases rest@.len(),
    {
        let x = rest.remove(0);
        let kx = x.start_time();
        let mut j = out.len();
        while j > 0 && key_before(kx, out[j - 1].start_time())
            invariant
                j <= out@.len(),
                kx == x.start_key(),
                key == start_of::<T>(),
                forall|k: int| j <= k < out@.len() ==> key_lt(key(x), #[trigger] key(out@[k])),
            decreases j,
        {
            j -= 1;
        }
        proof {
            lemma_insert_at(out@, x, key, j as int);
            assert(orig.take(done + 1).drop_last() =~= orig.take(done));
            assert(orig.take(done + 1).last() == x);
            assert(rest@ =~= orig.skip(done + 1));
            done = done + 1;
        }
        out.insert(j, x);
    }
    proof {
        assert(orig.take(done) =~= orig);
    }
    out
}

} // verus!
