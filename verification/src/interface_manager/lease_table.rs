//! A bounded table of leases.

use vstd::prelude::*;
use crate::interface_manager::leases::{LeaseKind, Nanos};

verus! {

/// What a lease can be about.
pub trait LeaseKey: Copy {
    /// Whether two keys are the same.
    fn same(&self, other: &Self) -> (r: bool)
        ensures
            r == (*self == *other),
    ;
}

impl LeaseKey for u8 {
    fn same(&self, other: &Self) -> (r: bool) {
        *self == *other
    }
}

impl LeaseKey for u16 {
    fn same(&self, other: &Self) -> (r: bool) {
        *self == *other
    }
}

/// One entry in a [`LeaseTable`]: the leased `key` (the value handed out), the
/// `scope` (net_id segment) it is valid on, a caller-specific `extra` payload,
/// and the lease state.
pub struct LeaseEntry<K, X> {
    pub key: K,
    pub scope: u16,
    pub extra: X,
    pub kind: LeaseKind,
}

/// A fixed-capacity table of leases, generic over the leased key type `K` (a
/// node_id or assigned net_id) and a caller-specific payload `X`.
///
/// The bound is the table's invariant, see [`wf`](LeaseTable::wf). A vector with
/// the bound in its type would be opaque to the proofs: what it holds could be
/// spoken of only for one key type, one payload and one capacity at a time.
pub struct LeaseTable<K, X, const N: usize> {
    pub entries: Vec<LeaseEntry<K, X>>,
}

impl<K, X, const N: usize> View for LeaseTable<K, X, N> {
    type V = Seq<LeaseEntry<K, X>>;

    open spec fn view(&self) -> Seq<LeaseEntry<K, X>> {
        self.entries@
    }
}

/// Whether `i` is the first position of `s` that `p` holds of.
pub open spec fn is_first<T>(s: Seq<T>, p: spec_fn(T) -> bool, i: int) -> bool {
    0 <= i < s.len() && p(s[i]) && forall|j: int| 0 <= j < i ==> !p(#[trigger] s[j])
}

/// The first position of `s` that `p` holds of, if there is one.
pub open spec fn first_where<T>(s: Seq<T>, p: spec_fn(T) -> bool) -> Option<int> {
    if exists|i: int| is_first(s, p, i) {
        Some(choose|i: int| is_first(s, p, i))
    } else {
        None
    }
}

/// There is at most one first position.
pub proof fn first_where_is<T>(s: Seq<T>, p: spec_fn(T) -> bool, i: int)
    requires
        is_first(s, p, i),
    ensures
        first_where(s, p) == Some(i),
{
    let k = choose|k: int| is_first(s, p, k);
    assert(is_first(s, p, k));
    assert(k == i) by {
        if k < i {
            assert(!p(s[k]));
        } else if i < k {
            assert(!p(s[i]));
        }
    }
}

/// Where nothing satisfies `p` there is no first position, and the other way
/// round.
pub proof fn first_where_none<T>(s: Seq<T>, p: spec_fn(T) -> bool)
    ensures
        first_where(s, p) is None <==> forall|i: int| 0 <= i < s.len() ==> !p(#[trigger] s[i]),
        first_where(s, p) matches Some(i) ==> is_first(s, p, i),
{
    if first_where(s, p) is None {
        assert forall|i: int| 0 <= i < s.len() implies !p(#[trigger] s[i]) by {
            lemma_first_exists(s, p, i);
        }
    }
}

proof fn lemma_first_exists<T>(s: Seq<T>, p: spec_fn(T) -> bool, i: int)
    requires
        0 <= i < s.len(),
    ensures
        p(s[i]) ==> exists|k: int| is_first(s, p, k),
    decreases i,
{
    if p(s[i]) {
        if forall|j: int| 0 <= j < i ==> !p(#[trigger] s[j]) {
            assert(is_first(s, p, i));
        } else {
            let j = choose|j: int| 0 <= j < i && p(#[trigger] s[j]);
            lemma_first_exists(s, p, j);
        }
    }
}

/// The sequence with each item replaced by what `f` makes of it, or dropped.
pub open spec fn retained<T>(s: Seq<T>, f: spec_fn(T) -> Option<T>) -> Seq<T>
    decreases s.len(),
{
    if s.len() == 0 {
        Seq::empty()
    } else {
        match f(s.last()) {
            Some(e) => retained(s.drop_last(), f).push(e),
            None => retained(s.drop_last(), f),
        }
    }
}

/// One more item.
proof fn lemma_retained_step<T>(s: Seq<T>, f: spec_fn(T) -> Option<T>, k: int)
    requires
        0 <= k < s.len(),
    ensures
        retained(s.take(k + 1), f) == (match f(s[k]) {
            Some(e) => retained(s.take(k), f).push(e),
            None => retained(s.take(k), f),
        }),
{
    assert(s.take(k + 1).drop_last() =~= s.take(k));
}

/// What is retained comes from the sequence, and what `f` keeps is retained.
pub proof fn retained_members<T>(s: Seq<T>, f: spec_fn(T) -> Option<T>)
    ensures
        retained(s, f).len() <= s.len(),
        forall|i: int|
            0 <= i < retained(s, f).len() ==> exists|j: int|
                0 <= j < s.len() && f(#[trigger] s[j]) == Some(#[trigger] retained(s, f)[i]),
        forall|j: int|
            0 <= j < s.len() && f(#[trigger] s[j]) is Some ==> exists|i: int|
                0 <= i < retained(s, f).len() && Some(#[trigger] retained(s, f)[i]) == f(s[j]),
    decreases s.len(),
{
    if s.len() > 0 {
        let t = s.drop_last();
        let r = retained(s, f);
        retained_members(t, f);
        assert forall|i: int| 0 <= i < r.len() implies exists|j: int|
            0 <= j < s.len() && f(#[trigger] s[j]) == Some(#[trigger] r[i]) by {
            if i < retained(t, f).len() {
                assert(r[i] == retained(t, f)[i]);
                let j = choose|j: int|
                    0 <= j < t.len() && f(#[trigger] t[j]) == Some(retained(t, f)[i]);
                assert(s[j] == t[j]);
            } else {
                assert(f(s[s.len() - 1]) == Some(r[i]));
            }
        }
        assert forall|j: int| 0 <= j < s.len() && f(#[trigger] s[j]) is Some implies exists|i: int|
            0 <= i < r.len() && Some(#[trigger] r[i]) == f(s[j]) by {
            if j < t.len() {
                assert(s[j] == t[j]);
                let i = choose|i: int|
                    0 <= i < retained(t, f).len() && Some(#[trigger] retained(t, f)[i]) == f(t[j]);
                assert(r[i] == retained(t, f)[i]);
            } else {
                assert(Some(r[r.len() - 1]) == f(s[j]));
            }
        }
    }
}

/// An entry as it is after some time: the same lease, unless it has expired.
pub open spec fn same_lease<K, X>(e: LeaseEntry<K, X>, later: LeaseEntry<K, X>) -> bool {
    &&& later.key == e.key
    &&& later.scope == e.scope
    &&& later.extra == e.extra
    &&& later.kind is Active ==> later.kind == e.kind
}

/// No two entries are about the same key.
pub open spec fn unique_keys<K, X>(s: Seq<LeaseEntry<K, X>>) -> bool {
    forall|i: int, j: int| 0 <= i < j < s.len() ==> #[trigger] s[i].key != #[trigger] s[j].key
}

/// No two entries are about the same key on the same segment.
pub open spec fn unique_pairs<K, X>(s: Seq<LeaseEntry<K, X>>) -> bool {
    forall|i: int, j: int|
        0 <= i < j < s.len() ==> !(#[trigger] s[i].key == #[trigger] s[j].key && s[i].scope
            == s[j].scope)
}

/// Whether `t` is what some of the leases in `s` have become: each entry of
/// `t` continues an entry of `s`, and no two the same.
pub open spec fn continues<K, X>(s: Seq<LeaseEntry<K, X>>, t: Seq<LeaseEntry<K, X>>) -> bool {
    &&& t.len() <= s.len()
    &&& forall|i: int|
        0 <= i < t.len() ==> exists|j: int|
            0 <= j < s.len() && same_lease(#[trigger] s[j], #[trigger] t[i])
    &&& unique_keys(s) ==> unique_keys(t)
    &&& unique_pairs(s) ==> unique_pairs(t)
}

/// What is retained of a table continues entries of it.
proof fn lemma_retained_sources<K, X>(
    s: Seq<LeaseEntry<K, X>>,
    f: spec_fn(LeaseEntry<K, X>) -> Option<LeaseEntry<K, X>>,
)
    requires
        forall|e: LeaseEntry<K, X>| #[trigger] f(e) matches Some(e2) ==> same_lease(e, e2),
    ensures
        retained(s, f).len() <= s.len(),
        forall|i: int|
            0 <= i < retained(s, f).len() ==> exists|j: int|
                0 <= j < s.len() && same_lease(#[trigger] s[j], #[trigger] retained(s, f)[i]),
{
    let r = retained(s, f);
    retained_members(s, f);
    assert forall|i: int| 0 <= i < r.len() implies exists|j: int|
        0 <= j < s.len() && same_lease(#[trigger] s[j], #[trigger] r[i]) by {
        let j = choose|j: int| 0 <= j < s.len() && f(#[trigger] s[j]) == Some(r[i]);
        assert(same_lease(s[j], r[i]));
    }
}

proof fn lemma_retained_unique_keys<K, X>(
    s: Seq<LeaseEntry<K, X>>,
    f: spec_fn(LeaseEntry<K, X>) -> Option<LeaseEntry<K, X>>,
)
    requires
        forall|e: LeaseEntry<K, X>| #[trigger] f(e) matches Some(e2) ==> same_lease(e, e2),
        unique_keys(s),
    ensures
        unique_keys(retained(s, f)),
    decreases s.len(),
{
    if s.len() > 0 {
        let r = retained(s, f);
        let t = s.drop_last();
        let rt = retained(t, f);
        assert(unique_keys(t)) by {
            assert forall|i: int, j: int| 0 <= i < j < t.len() implies #[trigger] t[i].key
                != #[trigger] t[j].key by {
                assert(s[i].key != s[j].key);
            }
        }
        lemma_retained_unique_keys(t, f);
        lemma_retained_sources(t, f);
        assert forall|i: int, j: int| 0 <= i < j < r.len() implies #[trigger] r[i].key
            != #[trigger] r[j].key by {
            assert(r[i] == rt[i]);
            if j < rt.len() {
                assert(r[j] == rt[j]);
            } else {
                let k = choose|k: int| 0 <= k < t.len() && same_lease(#[trigger] t[k], rt[i]);
                assert(s[k].key != s[s.len() - 1].key);
            }
        }
    }
}

proof fn lemma_retained_unique_pairs<K, X>(
    s: Seq<LeaseEntry<K, X>>,
    f: spec_fn(LeaseEntry<K, X>) -> Option<LeaseEntry<K, X>>,
)
    requires
        forall|e: LeaseEntry<K, X>| #[trigger] f(e) matches Some(e2) ==> same_lease(e, e2),
        unique_pairs(s),
    ensures
        unique_pairs(retained(s, f)),
    decreases s.len(),
{
    if s.len() > 0 {
        let r = retained(s, f);
        let t = s.drop_last();
        let rt = retained(t, f);
        assert(unique_pairs(t)) by {
            assert forall|i: int, j: int| 0 <= i < j < t.len() implies !(#[trigger] t[i].key
                == #[trigger] t[j].key && t[i].scope == t[j].scope) by {
                assert(!(s[i].key == s[j].key && s[i].scope == s[j].scope));
            }
        }
        lemma_retained_unique_pairs(t, f);
        lemma_retained_sources(t, f);
        assert forall|i: int, j: int| 0 <= i < j < r.len() implies !(#[trigger] r[i].key
            == #[trigger] r[j].key && r[i].scope == r[j].scope) by {
            assert(r[i] == rt[i]);
            if j < rt.len() {
                assert(r[j] == rt[j]);
            } else {
                let k = choose|k: int| 0 <= k < t.len() && same_lease(#[trigger] t[k], rt[i]);
                let last = s[s.len() - 1];
                assert(!(s[k].key == last.key && s[k].scope == last.scope));
            }
        }
    }
}

/// Dropping some leases and letting others expire continues a table.
pub proof fn retained_continues<K, X>(
    s: Seq<LeaseEntry<K, X>>,
    f: spec_fn(LeaseEntry<K, X>) -> Option<LeaseEntry<K, X>>,
)
    requires
        forall|e: LeaseEntry<K, X>| #[trigger] f(e) matches Some(e2) ==> same_lease(e, e2),
    ensures
        continues(s, retained(s, f)),
{
    lemma_retained_sources(s, f);
    if unique_keys(s) {
        lemma_retained_unique_keys(s, f);
    }
    if unique_pairs(s) {
        lemma_retained_unique_pairs(s, f);
    }
}

/// An entry at `now`, if anything is left of it.
pub open spec fn entry_aged<K, X>(now: Nanos) -> spec_fn(LeaseEntry<K, X>) -> Option<
    LeaseEntry<K, X>,
> {
    |e: LeaseEntry<K, X>|
        match e.kind.aged(now) {
            Some(kind) => Some(LeaseEntry { kind, ..e }),
            None => None,
        }
}

/// What is left of a table at `now`, in the same order.
pub open spec fn table_aged<K, X>(s: Seq<LeaseEntry<K, X>>, now: Nanos) -> Seq<LeaseEntry<K, X>> {
    retained(s, entry_aged(now))
}

/// Drops the entries of one segment.
pub open spec fn outside_scope<K, X>(scope: u16) -> spec_fn(LeaseEntry<K, X>) -> Option<
    LeaseEntry<K, X>,
> {
    |e: LeaseEntry<K, X>|
        if e.scope != scope {
            Some(e)
        } else {
            None
        }
}

/// Of the dropped segment nothing is left.
pub proof fn dropped_scope_is_gone<K, X>(s: Seq<LeaseEntry<K, X>>, scope: u16)
    ensures
        continues(s, retained(s, outside_scope(scope))),
        forall|k: int|
            0 <= k < retained(s, outside_scope(scope)).len() ==> (#[trigger] retained(
                s,
                outside_scope(scope),
            )[k]).scope != scope,
{
    let f = outside_scope::<K, X>(scope);
    retained_continues(s, f);
    retained_members(s, f);
    assert forall|k: int| 0 <= k < retained(s, f).len() implies (#[trigger] retained(
        s,
        f,
    )[k]).scope != scope by {
        let j = choose|j: int| 0 <= j < s.len() && f(#[trigger] s[j]) == Some(retained(s, f)[k]);
        assert(f(s[j]) is Some);
    }
}

/// Drops the entries about one key.
pub open spec fn other_key<K, X>(key: K) -> spec_fn(LeaseEntry<K, X>) -> Option<LeaseEntry<K, X>> {
    |e: LeaseEntry<K, X>|
        if e.key != key {
            Some(e)
        } else {
            None
        }
}

/// Drops the entries about one key on one segment.
pub open spec fn other_pair<K, X>(key: K, scope: u16) -> spec_fn(LeaseEntry<K, X>) -> Option<
    LeaseEntry<K, X>,
> {
    |e: LeaseEntry<K, X>|
        if e.key != key || e.scope != scope {
            Some(e)
        } else {
            None
        }
}

/// Whether an entry is about `key`.
pub open spec fn about_key<K, X>(key: K) -> spec_fn(LeaseEntry<K, X>) -> bool {
    |e: LeaseEntry<K, X>| e.key == key
}

/// Whether an entry is about `key` on segment `scope`.
pub open spec fn about_pair<K, X>(key: K, scope: u16) -> spec_fn(LeaseEntry<K, X>) -> bool {
    |e: LeaseEntry<K, X>| e.key == key && e.scope == scope
}

/// Whether a table has an entry about `key`, active or tombstoned.
pub open spec fn holds_key<K, X>(s: Seq<LeaseEntry<K, X>>, key: K) -> bool {
    exists|i: int| 0 <= i < s.len() && (#[trigger] s[i]).key == key
}

/// Where no two entries are about the same key on the same segment, an entry
/// that is kept as it is, is found again.
pub proof fn kept_entry_is_found<K, X>(
    s: Seq<LeaseEntry<K, X>>,
    f: spec_fn(LeaseEntry<K, X>) -> Option<LeaseEntry<K, X>>,
    key: K,
    scope: u16,
)
    requires
        forall|e: LeaseEntry<K, X>| #[trigger] f(e) matches Some(e2) ==> same_lease(e, e2),
        unique_pairs(s),
        first_where(s, about_pair(key, scope)) matches Some(k) && f(s[k]) == Some(s[k]),
    ensures
        retained(s, f).len() <= s.len(),
        first_where(retained(s, f), about_pair(key, scope)) matches Some(i) && 0 <= i < retained(
            s,
            f,
        ).len() && retained(s, f)[i] == s[first_where(s, about_pair(key, scope))->0],
{
    let p = about_pair::<K, X>(key, scope);
    let r = retained(s, f);
    let k = first_where(s, p)->0;
    assert(is_first(s, p, k)) by {
        first_where_none(s, p);
    }
    assert(r.len() <= s.len() && exists|i: int| 0 <= i < r.len() && #[trigger] r[i] == s[k]) by {
        retained_members(s, f);
        let i = choose|i: int| 0 <= i < r.len() && Some(#[trigger] r[i]) == f(s[k]);
        assert(r[i] == s[k]);
    }
    let i = choose|i: int| 0 <= i < r.len() && #[trigger] r[i] == s[k];
    lemma_retained_unique_pairs(s, f);
    assert forall|j: int| 0 <= j < i implies !p(#[trigger] r[j]) by {
        assert(!(r[j].key == r[i].key && r[j].scope == r[i].scope));
    }
    first_where_is(r, p, i);
}

/// Where no two entries are about the same key, an entry that is kept as it is, is
/// found again.
pub proof fn kept_key_is_found<K, X>(
    s: Seq<LeaseEntry<K, X>>,
    f: spec_fn(LeaseEntry<K, X>) -> Option<LeaseEntry<K, X>>,
    key: K,
)
    requires
        forall|e: LeaseEntry<K, X>| #[trigger] f(e) matches Some(e2) ==> same_lease(e, e2),
        unique_keys(s),
        first_where(s, about_key(key)) matches Some(k) && f(s[k]) == Some(s[k]),
    ensures
        first_where(retained(s, f), about_key(key)) matches Some(i) && 0 <= i < retained(
            s,
            f,
        ).len() && retained(s, f)[i] == s[first_where(s, about_key(key))->0],
{
    let p = about_key::<K, X>(key);
    let r = retained(s, f);
    let k = first_where(s, p)->0;
    assert(is_first(s, p, k)) by {
        first_where_none(s, p);
    }
    assert(exists|i: int| 0 <= i < r.len() && #[trigger] r[i] == s[k]) by {
        retained_members(s, f);
        let i = choose|i: int| 0 <= i < r.len() && Some(#[trigger] r[i]) == f(s[k]);
        assert(r[i] == s[k]);
    }
    let i = choose|i: int| 0 <= i < r.len() && #[trigger] r[i] == s[k];
    lemma_retained_unique_keys(s, f);
    assert forall|j: int| 0 <= j < i implies !p(#[trigger] r[j]) by {
        assert(r[j].key != r[i].key);
    }
    first_where_is(r, p, i);
}

/// What is retained is what `f` keeps, each item replaced by what `f` makes of
/// it, in the same order.
pub proof fn retained_is_filter<T>(s: Seq<T>, f: spec_fn(T) -> Option<T>)
    ensures
        retained(s, f) == s.filter(|e: T| f(e) is Some).map_values(|e: T| f(e)->0),
    decreases s.len(),
{
    reveal(Seq::filter);
    let kept = |e: T| f(e) is Some;
    let made = |e: T| f(e)->0;
    if s.len() > 0 {
        retained_is_filter(s.drop_last(), f);
        let t = s.drop_last().filter(kept);
        if f(s.last()) is Some {
            assert(t.push(s.last()).map_values(made) =~= t.map_values(made).push(made(s.last())));
        }
    }
    assert(retained(s, f) =~= s.filter(kept).map_values(made));
}

/// Where an item that `f` keeps is found in what is retained.
proof fn lemma_kept_at<T>(s: Seq<T>, f: spec_fn(T) -> Option<T>, k: int) -> (i: int)
    requires
        0 <= k < s.len(),
        f(s[k]) is Some,
    ensures
        0 <= i < retained(s, f).len(),
        retained(s, f)[i] == f(s[k])->0,
{
    retained_members(s, f);
    choose|i: int| 0 <= i < retained(s, f).len() && Some(#[trigger] retained(s, f)[i]) == f(s[k])
}

/// Where a retained item comes from.
proof fn lemma_source_of<T>(s: Seq<T>, f: spec_fn(T) -> Option<T>, i: int) -> (j: int)
    requires
        0 <= i < retained(s, f).len(),
    ensures
        0 <= j < s.len(),
        f(s[j]) == Some(retained(s, f)[i]),
{
    retained_members(s, f);
    choose|j: int| 0 <= j < s.len() && f(#[trigger] s[j]) == Some(retained(s, f)[i])
}

/// The first item of `s` that `p` holds of is `e`.
pub open spec fn finds<T>(s: Seq<T>, p: spec_fn(T) -> bool, e: T) -> bool {
    first_where(s, p) matches Some(i) && 0 <= i < s.len() && s[i] == e
}

/// Where no two entries are about the same key, looking a key up in what is
/// retained finds what has become of its entry, if anything has.
pub proof fn lookup_after_key<K, X>(
    s: Seq<LeaseEntry<K, X>>,
    f: spec_fn(LeaseEntry<K, X>) -> Option<LeaseEntry<K, X>>,
    key: K,
)
    requires
        forall|e: LeaseEntry<K, X>| #[trigger] f(e) matches Some(e2) ==> same_lease(e, e2),
        unique_keys(s),
    ensures
        forall|k: int|
            0 <= k < s.len() && (#[trigger] s[k]).key == key && f(s[k]) is Some ==> finds(
                retained(s, f),
                about_key(key),
                f(s[k])->0,
            ),
        (forall|k: int| 0 <= k < s.len() && (#[trigger] s[k]).key == key ==> f(s[k]) is None)
            ==> first_where(retained(s, f), about_key(key)) is None,
{
    let p = about_key::<K, X>(key);
    let r = retained(s, f);
    lemma_retained_unique_keys(s, f);
    assert forall|k: int|
        0 <= k < s.len() && (#[trigger] s[k]).key == key && f(s[k]) is Some implies finds(
        r,
        p,
        f(s[k])->0,
    ) by {
        let i = lemma_kept_at(s, f, k);
        assert(same_lease(s[k], r[i]));
        assert forall|j: int| 0 <= j < i implies !p(#[trigger] r[j]) by {
            assert(r[j].key != r[i].key);
        }
        first_where_is(r, p, i);
    }
    if forall|k: int| 0 <= k < s.len() && (#[trigger] s[k]).key == key ==> f(s[k]) is None {
        assert forall|i: int| 0 <= i < r.len() implies !p(#[trigger] r[i]) by {
            let j = lemma_source_of(s, f, i);
            assert(same_lease(s[j], r[i]));
        }
        first_where_none(r, p);
    }
}

/// Where no two entries are about the same key on the same segment, looking a
/// pair up in what is retained finds what has become of its entry, if anything
/// has.
pub proof fn lookup_after_pair<K, X>(
    s: Seq<LeaseEntry<K, X>>,
    f: spec_fn(LeaseEntry<K, X>) -> Option<LeaseEntry<K, X>>,
    key: K,
    scope: u16,
)
    requires
        forall|e: LeaseEntry<K, X>| #[trigger] f(e) matches Some(e2) ==> same_lease(e, e2),
        unique_pairs(s),
    ensures
        forall|k: int|
            0 <= k < s.len() && (#[trigger] s[k]).key == key && s[k].scope == scope && f(s[k])
                is Some ==> finds(retained(s, f), about_pair(key, scope), f(s[k])->0),
        (forall|k: int|
            0 <= k < s.len() && (#[trigger] s[k]).key == key && s[k].scope == scope ==> f(s[k])
                is None) ==> first_where(retained(s, f), about_pair(key, scope)) is None,
{
    let p = about_pair::<K, X>(key, scope);
    let r = retained(s, f);
    lemma_retained_unique_pairs(s, f);
    assert forall|k: int|
        0 <= k < s.len() && (#[trigger] s[k]).key == key && s[k].scope == scope && f(s[k])
            is Some implies finds(r, p, f(s[k])->0) by {
        let i = lemma_kept_at(s, f, k);
        assert(same_lease(s[k], r[i]));
        assert forall|j: int| 0 <= j < i implies !p(#[trigger] r[j]) by {
            assert(!(r[j].key == r[i].key && r[j].scope == r[i].scope));
        }
        first_where_is(r, p, i);
    }
    if forall|k: int|
        0 <= k < s.len() && (#[trigger] s[k]).key == key && s[k].scope == scope ==> f(s[k])
            is None {
        assert forall|i: int| 0 <= i < r.len() implies !p(#[trigger] r[i]) by {
            let j = lemma_source_of(s, f, i);
            assert(same_lease(s[j], r[i]));
        }
        first_where_none(r, p);
    }
}

/// A table in which only the entry for one key has been looked at: what is left
/// of it stays in its place; if nothing is, the last entry takes its place.
pub open spec fn looked_at<K, X>(s: Seq<LeaseEntry<K, X>>, key: K, now: Nanos) -> Seq<
    LeaseEntry<K, X>,
> {
    match first_where(s, about_key(key)) {
        None => s,
        Some(pos) => match s[pos].kind.aged(now) {
            Some(kind) => s.update(pos, LeaseEntry { kind, ..s[pos] }),
            None => s.update(pos, s.last()).drop_last(),
        },
    }
}

/// A lookup of one key continues the table.
pub proof fn looked_at_continues<K, X>(s: Seq<LeaseEntry<K, X>>, key: K, now: Nanos)
    ensures
        continues(s, looked_at(s, key, now)),
{
    let t = looked_at(s, key, now);
    first_where_none(s, about_key(key));
    assert forall|i: int| 0 <= i < t.len() implies exists|j: int|
        0 <= j < s.len() && same_lease(#[trigger] s[j], #[trigger] t[i]) by {
        if same_lease(s[i], t[i]) {
        } else {
            assert(same_lease(s[s.len() - 1], t[i]));
        }
    }
}

/// What decides which entries of a table are kept.
enum Test<K> {
    /// Something is left of the lease at this time.
    Aged(Nanos),
    /// It is not for this segment.
    OutsideScope(u16),
    /// It is not about this key.
    OtherKey(K),
    /// It is not about this key on this segment.
    OtherPair(K, u16),
}

impl<K: LeaseKey> Test<K> {
    /// What the test keeps of an entry.
    spec fn kept<X>(self) -> spec_fn(LeaseEntry<K, X>) -> Option<LeaseEntry<K, X>> {
        match self {
            Test::Aged(now) => entry_aged(now),
            Test::OutsideScope(scope) => outside_scope(scope),
            Test::OtherKey(key) => other_key(key),
            Test::OtherPair(key, scope) => other_pair(key, scope),
        }
    }

    /// The lease state of an entry that passes the test.
    fn left_of<X>(&self, e: &LeaseEntry<K, X>) -> (r: Option<LeaseKind>)
        ensures
            (self.kept::<X>())(*e) == (match r {
                Some(kind) => Some(LeaseEntry { kind, ..*e }),
                None => None,
            }),
    {
        let mut kind = e.kind;
        let passed = match self {
            Test::Aged(now) => kind.gc_retain(*now),
            Test::OutsideScope(scope) => e.scope != *scope,
            Test::OtherKey(key) => !e.key.same(key),
            Test::OtherPair(key, scope) => !e.key.same(key) || e.scope != *scope,
        };
        if passed {
            Some(kind)
        } else {
            None
        }
    }
}

impl<K: LeaseKey, X, const N: usize> LeaseTable<K, X, N> {
    /// No more entries than fit.
    pub open spec fn wf(&self) -> bool {
        self@.len() <= N
    }

    /// An empty table.
    pub fn new() -> (r: Self)
        ensures
            r.wf(),
            r@ == Seq::<LeaseEntry<K, X>>::empty(),
    {
        LeaseTable { entries: Vec::new() }
    }

    /// Whether every entry is taken.
    pub fn is_full(&self) -> (r: bool)
        requires
            self.wf(),
        ensures
            r == (self@.len() == N),
    {
        self.entries.len() == N
    }

    /// Keeps the entries that pass the test, each with the lease state that is
    /// left of it, in the same order.
    fn retain(&mut self, test: Test<K>)
        requires
            old(self).wf(),
        ensures
            final(self).wf(),
            final(self)@ == retained(old(self)@, test.kept::<X>()),
    {
        let ghost s = self@;
        let ghost f = test.kept::<X>();
        let ghost mut k: int = 0;
        let mut i: usize = 0;
        assert(s.take(0) =~= Seq::empty());
        assert(s =~= retained(s.take(0), f) + s.skip(0));
        while i < self.entries.len()
            invariant
                0 <= k <= s.len(),
                f == test.kept::<X>(),
                i == retained(s.take(k), f).len(),
                self.entries@ == retained(s.take(k), f) + s.skip(k),
            decreases self.entries.len() - i,
        {
            proof {
                lemma_retained_step(s, f, k);
                assert(self.entries@[i as int] == s[k]);
            }
            match test.left_of(&self.entries[i]) {
                Some(kind) => {
                    self.entries[i].kind = kind;
                    i = i + 1;
                },
                None => {
                    self.entries.remove(i);
                },
            }
            proof {
                assert(self.entries@ =~= retained(s.take(k + 1), f) + s.skip(k + 1));
                k = k + 1;
            }
        }
        proof {
            assert(k == s.len()) by {
                assert(self.entries@.len() == retained(s.take(k), f).len() + s.skip(k).len());
            }
            assert(s.take(k) =~= s);
            assert(self.entries@ =~= retained(s, f));
            retained_members(s, f);
        }
    }

    /// Tombstone expired leases and drop those past their grace period.
    pub fn gc(&mut self, now: Nanos)
        requires
            old(self).wf(),
        ensures
            final(self).wf(),
            final(self)@ == table_aged(old(self)@, now),
    {
        self.retain(Test::Aged(now))
    }

    /// `true` if any entry currently holds `key` (active or tombstoned).
    pub fn contains_key(&self, key: K) -> (r: bool)
        ensures
            r == holds_key(self@, key),
    {
        let mut i: usize = 0;
        while i < self.entries.len()
            invariant
                i <= self.entries.len(),
                forall|j: int| 0 <= j < i ==> (#[trigger] self.entries@[j]).key != key,
            decreases self.entries.len() - i,
        {
            if self.entries[i].key.same(&key) {
                return true;
            }
            i = i + 1;
        }
        false
    }

    /// Check one key while lazily advancing or removing only that entry's
    /// lease state. This avoids a full-table GC on hot membership checks.
    pub fn contains_key_at(&mut self, key: K, now: Nanos) -> (r: bool)
        requires
            old(self).wf(),
        ensures
            final(self).wf(),
            final(self)@ == looked_at(old(self)@, key, now),
            r == (first_where(old(self)@, about_key(key)) matches Some(pos) && old(
                self,
            )@[pos].kind.aged(now) is Some),
    {
        let pos: usize = match self.by_key(key) {
            Some(pos) => pos,
            None => {
                return false;
            },
        };
        let mut kind = self.entries[pos].kind;
        if kind.gc_retain(now) {
            self.entries[pos].kind = kind;
            true
        } else {
            self.entries.swap_remove(pos);
            false
        }
    }

    /// Look up by key alone, for callers where `key` is globally unique (e.g.
    /// seed-assigned net_ids). The result is the entry's position.
    pub fn by_key(&self, key: K) -> (r: Option<usize>)
        ensures
            match r {
                Some(pos) => first_where(self@, about_key(key)) == Some(pos as int) && pos
                    < self@.len() && self@[pos as int].key == key,
                None => first_where(self@, about_key(key)) is None,
            },
    {
        let ghost p = about_key::<K, X>(key);
        let mut i: usize = 0;
        while i < self.entries.len()
            invariant
                i <= self.entries.len(),
                p == about_key::<K, X>(key),
                forall|j: int| 0 <= j < i ==> !p(#[trigger] self.entries@[j]),
            decreases self.entries.len() - i,
        {
            if self.entries[i].key.same(&key) {
                proof {
                    first_where_is(self@, p, i as int);
                }
                return Some(i);
            }
            i = i + 1;
        }
        proof {
            first_where_none(self@, p);
        }
        None
    }

    /// Look up by `(key, scope)`, for keys only unique within a segment (e.g. a
    /// node_id, reused across buses). The result is the entry's position.
    pub fn get(&self, key: K, scope: u16) -> (r: Option<usize>)
        ensures
            match r {
                Some(pos) => first_where(self@, about_pair(key, scope)) == Some(pos as int) && pos
                    < self@.len() && self@[pos as int].key == key && self@[pos as int].scope
                    == scope,
                None => first_where(self@, about_pair(key, scope)) is None,
            },
    {
        let ghost p = about_pair::<K, X>(key, scope);
        let mut i: usize = 0;
        while i < self.entries.len()
            invariant
                i <= self.entries.len(),
                p == about_pair::<K, X>(key, scope),
                forall|j: int| 0 <= j < i ==> !p(#[trigger] self.entries@[j]),
            decreases self.entries.len() - i,
        {
            if self.entries[i].key.same(&key) && self.entries[i].scope == scope {
                proof {
                    first_where_is(self@, p, i as int);
                }
                return Some(i);
            }
            i = i + 1;
        }
        proof {
            first_where_none(self@, p);
        }
        None
    }

    /// Drop every entry in `scope`. Used when a segment's interface is removed:
    /// its leases (e.g. node_id claims keyed to that bus net_id) become
    /// meaningless and must not validate frames or block re-claims once the
    /// net_id is reused.
    pub fn drop_scope(&mut self, scope: u16)
        requires
            old(self).wf(),
        ensures
            final(self).wf(),
            final(self)@ == retained(old(self)@, outside_scope(scope)),
    {
        self.retain(Test::OutsideScope(scope))
    }

    /// Remove every entry with the given `key`. Used for idempotent
    /// re-registration of a globally-unique key (e.g. re-delegating a seed
    /// net_id this router already routes).
    pub fn remove_key(&mut self, key: K)
        requires
            old(self).wf(),
        ensures
            final(self).wf(),
            final(self)@ == retained(old(self)@, other_key(key)),
    {
        self.retain(Test::OtherKey(key))
    }

    /// Remove the entries about `key` on segment `scope`, and say whether there
    /// were any.
    pub fn remove(&mut self, key: K, scope: u16) -> (r: bool)
        requires
            old(self).wf(),
        ensures
            final(self).wf(),
            final(self)@ == retained(old(self)@, other_pair(key, scope)),
            r == (final(self)@.len() != old(self)@.len()),
    {
        let old_len: usize = self.entries.len();
        self.retain(Test::OtherPair(key, scope));
        self.entries.len() != old_len
    }

    /// Push a new entry. Returns `false` if the table is full.
    pub fn push(&mut self, key: K, scope: u16, extra: X, kind: LeaseKind) -> (r: bool)
        requires
            old(self).wf(),
        ensures
            final(self).wf(),
            r == (old(self)@.len() < N),
            final(self)@ == (if r {
                old(self)@.push(LeaseEntry { key, scope, extra, kind })
            } else {
                old(self)@
            }),
    {
        if self.entries.len() == N {
            return false;
        }
        self.entries.push(LeaseEntry { key, scope, extra, kind });
        true
    }
}

} // verus!
