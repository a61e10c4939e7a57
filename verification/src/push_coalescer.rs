//! Push coalescing: rapid pushes to one repository are collected for a short
//! debounce window and merged, so that one run covers them all; and the runs
//! that a new push supersedes are found by the refs they share.

use crate::text::str_eq;
use crate::types::{RefUpdate, Run};
use vstd::prelude::*;

verus! {

/// How long (in milliseconds) a push waits before it is processed, so that
/// later pushes to the same repository can join it.
pub const DEBOUNCE_DELAY_MS: u64 = 2000;

// =============================================================================
// The model of ref updates
// =============================================================================

/// A ref update as plain text: (ref name, old sha, new sha).
pub open spec fn ref_view(u: RefUpdate) -> (Seq<char>, Seq<char>, Seq<char>) {
    (u.ref_name@, u.old_sha@, u.new_sha@)
}

/// A list of ref updates as plain text.
pub open spec fn refs_view(s: Seq<RefUpdate>) -> Seq<(Seq<char>, Seq<char>, Seq<char>)> {
    s.map_values(|u: RefUpdate| ref_view(u))
}

/// Index of the first update of ref `name`, if any.
pub open spec fn first_index_of_ref(s: Seq<(Seq<char>, Seq<char>, Seq<char>)>, name: Seq<char>) -> Option<
    int,
>
    decreases s.len(),
{
    if s.len() == 0 {
        None
    } else {
        match first_index_of_ref(s.drop_last(), name) {
            Some(i) => Some(i),
            None => if s.last().0 == name {
                Some(s.len() - 1)
            } else {
                None
            },
        }
    }
}

/// Folds one update into a list: an update of a ref that is already listed
/// takes over its new sha (the listed old sha stays); any other is appended.
pub open spec fn merge_one(
    e: Seq<(Seq<char>, Seq<char>, Seq<char>)>,
    u: (Seq<char>, Seq<char>, Seq<char>),
) -> Seq<(Seq<char>, Seq<char>, Seq<char>)> {
    match first_index_of_ref(e, u.0) {
        Some(i) => e.update(i, (e[i].0, e[i].1, u.2)),
        None => e.push(u),
    }
}

/// Folds the updates `n`, in order, into `e`.
pub open spec fn merge_all(
    e: Seq<(Seq<char>, Seq<char>, Seq<char>)>,
    n: Seq<(Seq<char>, Seq<char>, Seq<char>)>,
) -> Seq<(Seq<char>, Seq<char>, Seq<char>)>
    decreases n.len(),
{
    if n.len() == 0 {
        e
    } else {
        merge_one(merge_all(e, n.drop_last()), n.last())
    }
}

/// The new sha of the last update of ref `name` in `n`, if any.
pub open spec fn last_new_sha(n: Seq<(Seq<char>, Seq<char>, Seq<char>)>, name: Seq<char>) -> Option<
    Seq<char>,
>
    decreases n.len(),
{
    if n.len() == 0 {
        None
    } else if n.last().0 == name {
        Some(n.last().2)
    } else {
        last_new_sha(n.drop_last(), name)
    }
}

/// Some update in `s` is for ref `name`.
pub open spec fn has_ref(s: Seq<(Seq<char>, Seq<char>, Seq<char>)>, name: Seq<char>) -> bool {
    exists|i: int| 0 <= i < s.len() && (#[trigger] s[i]).0 == name
}

proof fn lemma_first_index_props(s: Seq<(Seq<char>, Seq<char>, Seq<char>)>, name: Seq<char>)
    ensures
        first_index_of_ref(s, name) matches Some(i) ==> 0 <= i < s.len() && s[i].0 == name
            && forall|k: int| 0 <= k < i ==> (#[trigger] s[k]).0 != name,
        first_index_of_ref(s, name) is None ==> forall|k: int|
            0 <= k < s.len() ==> (#[trigger] s[k]).0 != name,
    decreases s.len(),
{
    if s.len() > 0 {
        lemma_first_index_props(s.drop_last(), name);
        assert forall|k: int| 0 <= k < s.len() - 1 implies s[k] == s.drop_last()[k] by {}
    }
}

proof fn lemma_first_index_at(s: Seq<(Seq<char>, Seq<char>, Seq<char>)>, name: Seq<char>, j: int)
    requires
        0 <= j < s.len(),
        s[j].0 == name,
        forall|k: int| 0 <= k < j ==> (#[trigger] s[k]).0 != name,
    ensures
        first_index_of_ref(s, name) == Some(j),
{
    lemma_first_index_props(s, name);
}

proof fn lemma_first_index_none(s: Seq<(Seq<char>, Seq<char>, Seq<char>)>, name: Seq<char>)
    requires
        forall|k: int| 0 <= k < s.len() ==> (#[trigger] s[k]).0 != name,
    ensures
        first_index_of_ref(s, name) is None,
{
    lemma_first_index_props(s, name);
}

/// Changing an entry but not its ref name moves no first index.
proof fn lemma_first_index_update(
    s: Seq<(Seq<char>, Seq<char>, Seq<char>)>,
    i: int,
    x: (Seq<char>, Seq<char>, Seq<char>),
    name: Seq<char>,
)
    requires
        0 <= i < s.len(),
        x.0 == s[i].0,
    ensures
        first_index_of_ref(s.update(i, x), name) == first_index_of_ref(s, name),
{
    let t = s.update(i, x);
    lemma_first_index_props(s, name);
    lemma_first_index_props(t, name);
    assert forall|k: int| 0 <= k < s.len() implies (#[trigger] t[k]).0 == s[k].0 by {}
    match first_index_of_ref(s, name) {
        Some(j) => {
            assert(t[j].0 == name);
            lemma_first_index_at(t, name, j);
        },
        None => {
            lemma_first_index_none(t, name);
        },
    }
}

proof fn lemma_first_index_push(
    s: Seq<(Seq<char>, Seq<char>, Seq<char>)>,
    u: (Seq<char>, Seq<char>, Seq<char>),
    name: Seq<char>,
)
    ensures
        first_index_of_ref(s.push(u), name) == (match first_index_of_ref(s, name) {
            Some(i) => Some(i),
            None => if u.0 == name {
                Some(s.len() as int)
            } else {
                None
            },
        }),
{
    assert(s.push(u).drop_last() =~= s);
}

/// Entries present before a merge keep their place, ref name and old sha.
proof fn lemma_merge_prefix(
    e: Seq<(Seq<char>, Seq<char>, Seq<char>)>,
    n: Seq<(Seq<char>, Seq<char>, Seq<char>)>,
)
    ensures
        merge_all(e, n).len() >= e.len(),
        forall|i: int|
            0 <= i < e.len() ==> (#[trigger] merge_all(e, n)[i]).0 == e[i].0 && merge_all(
                e,
                n,
            )[i].1 == e[i].1,
    decreases n.len(),
{
    if n.len() > 0 {
        lemma_merge_prefix(e, n.drop_last());
        let m = merge_all(e, n.drop_last());
        lemma_first_index_props(m, n.last().0);
    }
}

// =============================================================================
// Laws of merging
// =============================================================================

/// Merging never loses a ref that was already pending: each keeps its place,
/// its ref name and its first old sha.
pub proof fn law_merge_keeps_pending_refs(
    e: Seq<(Seq<char>, Seq<char>, Seq<char>)>,
    n: Seq<(Seq<char>, Seq<char>, Seq<char>)>,
)
    ensures
        merge_all(e, n).len() >= e.len(),
        forall|i: int|
            0 <= i < e.len() ==> (#[trigger] merge_all(e, n)[i]).0 == e[i].0 && merge_all(
                e,
                n,
            )[i].1 == e[i].1,
{
    lemma_merge_prefix(e, n);
}

/// For every ref that the newer pushes update, the merged list holds it, and
/// its new sha is that of the newest of those updates: newer updates of a
/// ref supersede older ones.
pub proof fn law_merge_newest_wins(
    e: Seq<(Seq<char>, Seq<char>, Seq<char>)>,
    n: Seq<(Seq<char>, Seq<char>, Seq<char>)>,
    name: Seq<char>,
)
    requires
        last_new_sha(n, name) is Some,
    ensures
        first_index_of_ref(merge_all(e, n), name) matches Some(i) && merge_all(e, n)[i].2
            == last_new_sha(n, name)->0,
    decreases n.len(),
{
    assert(n.len() > 0);
    let m = merge_all(e, n.drop_last());
    let u = n.last();
    assert(merge_all(e, n) == merge_one(m, u));
    lemma_first_index_props(m, u.0);
    if u.0 == name {
        assert(last_new_sha(n, name) == Some(u.2));
        match first_index_of_ref(m, u.0) {
            Some(i) => {
                lemma_first_index_update(m, i, (m[i].0, m[i].1, u.2), name);
                assert(merge_all(e, n) == m.update(i, (m[i].0, m[i].1, u.2)));
            },
            None => {
                lemma_first_index_push(m, u, name);
                assert(merge_all(e, n) == m.push(u));
            },
        }
    } else {
        assert(last_new_sha(n, name) == last_new_sha(n.drop_last(), name));
        law_merge_newest_wins(e, n.drop_last(), name);
        let j = first_index_of_ref(m, name)->0;
        lemma_first_index_props(m, name);
        match first_index_of_ref(m, u.0) {
            Some(i) => {
                lemma_first_index_update(m, i, (m[i].0, m[i].1, u.2), name);
                assert(i != j);
                assert(merge_all(e, n) == m.update(i, (m[i].0, m[i].1, u.2)));
                assert(merge_all(e, n)[j] == m[j]);
            },
            None => {
                lemma_first_index_push(m, u, name);
                assert(merge_all(e, n) == m.push(u));
                assert(merge_all(e, n)[j] == m[j]);
            },
        }
    }
}

/// A ref that was pending before keeps the old sha it had then: the run
/// covers everything since the first push of the window.
pub proof fn law_merge_keeps_first_old_sha(
    e: Seq<(Seq<char>, Seq<char>, Seq<char>)>,
    n: Seq<(Seq<char>, Seq<char>, Seq<char>)>,
    name: Seq<char>,
)
    requires
        first_index_of_ref(e, name) is Some,
    ensures
        first_index_of_ref(merge_all(e, n), name) == first_index_of_ref(e, name),
        merge_all(e, n)[first_index_of_ref(e, name)->0].1 == e[first_index_of_ref(e, name)->0].1,
    decreases n.len(),
{
    lemma_merge_prefix(e, n);
    lemma_first_index_props(e, name);
    if n.len() > 0 {
        law_merge_keeps_first_old_sha(e, n.drop_last(), name);
        let m = merge_all(e, n.drop_last());
        let u = n.last();
        assert(merge_all(e, n) == merge_one(m, u));
        lemma_merge_prefix(e, n.drop_last());
        lemma_first_index_props(m, u.0);
        match first_index_of_ref(m, u.0) {
            Some(i) => {
                lemma_first_index_update(m, i, (m[i].0, m[i].1, u.2), name);
            },
            None => {
                lemma_first_index_push(m, u, name);
            },
        }
    }
}

/// No two entries name the same ref.
pub open spec fn distinct_ref_names(s: Seq<(Seq<char>, Seq<char>, Seq<char>)>) -> bool {
    forall|a: int, b: int| 0 <= a < b < s.len() ==> (#[trigger] s[a]).0 != (#[trigger] s[b]).0
}

/// Merging keeps the ref names of the pending list pairwise distinct: each
/// newer update either changes the entry of its ref or adds a new one.
pub proof fn law_merge_keeps_names_distinct(
    e: Seq<(Seq<char>, Seq<char>, Seq<char>)>,
    n: Seq<(Seq<char>, Seq<char>, Seq<char>)>,
)
    requires
        distinct_ref_names(e),
    ensures
        distinct_ref_names(merge_all(e, n)),
    decreases n.len(),
{
    if n.len() > 0 {
        law_merge_keeps_names_distinct(e, n.drop_last());
        let m = merge_all(e, n.drop_last());
        let u = n.last();
        assert(merge_all(e, n) == merge_one(m, u));
        lemma_first_index_props(m, u.0);
        match first_index_of_ref(m, u.0) {
            Some(i) => {
                let t = m.update(i, (m[i].0, m[i].1, u.2));
                assert forall|a: int, b: int| 0 <= a < b < t.len() implies (#[trigger] t[a]).0
                    != (#[trigger] t[b]).0 by {
                    assert(t[a].0 == m[a].0);
                    assert(t[b].0 == m[b].0);
                }
            },
            None => {
                let t = m.push(u);
                assert forall|a: int, b: int| 0 <= a < b < t.len() implies (#[trigger] t[a]).0
                    != (#[trigger] t[b]).0 by {
                    if b == m.len() {
                        assert(m[a].0 != u.0);
                    } else {
                        assert(t[a] == m[a] && t[b] == m[b]);
                    }
                }
            },
        }
    }
}

/// The ref names that newer updates `n` add to the pending list `e`: each
/// name not already pending, once, in the order of its first update.
pub open spec fn added_names(
    e: Seq<(Seq<char>, Seq<char>, Seq<char>)>,
    n: Seq<(Seq<char>, Seq<char>, Seq<char>)>,
) -> Seq<Seq<char>>
    decreases n.len(),
{
    if n.len() == 0 {
        Seq::empty()
    } else {
        let prev = added_names(e, n.drop_last());
        let x = n.last().0;
        if has_ref(e, x) || prev.contains(x) {
            prev
        } else {
            prev.push(x)
        }
    }
}

proof fn lemma_merge_appends(
    e: Seq<(Seq<char>, Seq<char>, Seq<char>)>,
    n: Seq<(Seq<char>, Seq<char>, Seq<char>)>,
)
    ensures
        merge_all(e, n).len() == e.len() + added_names(e, n).len(),
        forall|k: int|
            0 <= k < added_names(e, n).len() ==> merge_all(e, n)[e.len() + k].0 == #[trigger] added_names(e, n)[k]
                && has_ref(n, added_names(e, n)[k]) && first_index_of_ref(n, added_names(e, n)[k]) is Some
                && merge_all(e, n)[e.len() + k].1 == n[first_index_of_ref(n, added_names(e, n)[k])->0].1,
        forall|x: Seq<char>|
            #![trigger has_ref(merge_all(e, n), x)]
            #![trigger added_names(e, n).contains(x)]
            has_ref(merge_all(e, n), x) <==> (has_ref(e, x) || added_names(e, n).contains(x)),
        forall|x: Seq<char>| #[trigger] has_ref(n, x) ==> has_ref(merge_all(e, n), x),
    decreases n.len(),
{
    lemma_merge_prefix(e, n);
    if n.len() > 0 {
        let n1 = n.drop_last();
        lemma_merge_appends(e, n1);
        lemma_merge_prefix(e, n1);
        let m = merge_all(e, n1);
        let u = n.last();
        let prev = added_names(e, n1);
        let t = merge_all(e, n);
        assert(t == merge_one(m, u));
        lemma_first_index_props(m, u.0);
        assert(n1.push(u) =~= n);
        assert forall|x: Seq<char>| #[trigger] has_ref(n, x) implies has_ref(n1, x) || x == u.0 by {
            let i = choose|i: int| 0 <= i < n.len() && (#[trigger] n[i]).0 == x;
            if i < n.len() - 1 {
                assert(n1[i].0 == x);
            }
        }
        assert forall|k: int| 0 <= k < prev.len() implies first_index_of_ref(n, #[trigger] prev[k])
            == first_index_of_ref(n1, prev[k]) && first_index_of_ref(n1, prev[k]) is Some by {
            lemma_first_index_push(n1, u, prev[k]);
            lemma_first_index_props(n1, prev[k]);
            let j = choose|j: int| 0 <= j < n1.len() && (#[trigger] n1[j]).0 == prev[k];
        }
        match first_index_of_ref(m, u.0) {
            Some(i) => {
                assert(t == m.update(i, (m[i].0, m[i].1, u.2)));
                assert(has_ref(m, u.0));
                assert(added_names(e, n) == prev);
                assert forall|x: Seq<char>| has_ref(t, x) <==> has_ref(m, x) by {
                    if has_ref(t, x) {
                        let j = choose|j: int| 0 <= j < t.len() && (#[trigger] t[j]).0 == x;
                        assert(m[j].0 == x);
                    }
                    if has_ref(m, x) {
                        let j = choose|j: int| 0 <= j < m.len() && (#[trigger] m[j]).0 == x;
                        assert(t[j].0 == x);
                    }
                }
                assert forall|k: int| 0 <= k < prev.len() implies t[e.len() + k].0 == #[trigger] prev[k]
                    && has_ref(n, prev[k]) && first_index_of_ref(n, prev[k]) is Some
                    && t[e.len() + k].1 == n[first_index_of_ref(n, prev[k])->0].1 by {
                    assert(t[e.len() + k].0 == m[e.len() + k].0 && t[e.len() + k].1 == m[e.len() + k].1);
                    let j = first_index_of_ref(n1, prev[k])->0;
                    lemma_first_index_props(n1, prev[k]);
                    assert(n[j] == n1[j]);
                    assert(n[j].0 == prev[k]);
                }
                assert forall|x: Seq<char>| #[trigger] has_ref(n, x) implies has_ref(t, x) by {
                    if x == u.0 {
                        assert(m[i].0 == x);
                    }
                }
            },
            None => {
                assert(t == m.push(u));
                assert(!has_ref(m, u.0)) by {
                    if has_ref(m, u.0) {
                        let j = choose|j: int| 0 <= j < m.len() && (#[trigger] m[j]).0 == u.0;
                        assert(m[j].0 != u.0);
                    }
                }
                assert(has_ref(m, u.0) <==> (has_ref(e, u.0) || prev.contains(u.0)));
                assert(!has_ref(e, u.0) && !prev.contains(u.0));
                assert(added_names(e, n) == prev.push(u.0));
                assert(!has_ref(n1, u.0));
                lemma_first_index_push(n1, u, u.0);
                assert forall|k: int| 0 <= k < n1.len() implies (#[trigger] n1[k]).0 != u.0 by {
                    if n1[k].0 == u.0 {
                        assert(has_ref(n1, u.0));
                    }
                }
                lemma_first_index_none(n1, u.0);
                assert forall|x: Seq<char>| has_ref(t, x) <==> (has_ref(e, x) || added_names(e, n).contains(x)) by {
                    if has_ref(t, x) {
                        let j = choose|j: int| 0 <= j < t.len() && (#[trigger] t[j]).0 == x;
                        if j < m.len() {
                            assert(m[j].0 == x);
                            assert(has_ref(m, x));
                            if prev.contains(x) {
                                let q = choose|q: int| 0 <= q < prev.len() && prev[q] == x;
                                assert(added_names(e, n)[q] == x);
                            }
                        } else {
                            assert(added_names(e, n)[prev.len() as int] == x);
                        }
                    }
                    if has_ref(e, x) {
                        let j = choose|j: int| 0 <= j < e.len() && (#[trigger] e[j]).0 == x;
                        assert(m[j].0 == e[j].0);
                        assert(t[j].0 == x);
                    }
                    if added_names(e, n).contains(x) {
                        let q = choose|q: int| 0 <= q < added_names(e, n).len() && added_names(e, n)[q] == x;
                        if q < prev.len() {
                            assert(prev[q] == x);
                            assert(prev.contains(x));
                            assert(has_ref(m, x));
                            let j = choose|j: int| 0 <= j < m.len() && (#[trigger] m[j]).0 == x;
                            assert(t[j].0 == x);
                        } else {
                            assert(t[m.len() as int].0 == x);
                        }
                    }
                }
                assert forall|k: int| 0 <= k < added_names(e, n).len() implies t[e.len() + k].0
                    == #[trigger] added_names(e, n)[k] && has_ref(n, added_names(e, n)[k])
                    && first_index_of_ref(n, added_names(e, n)[k]) is Some
                    && t[e.len() + k].1 == n[first_index_of_ref(n, added_names(e, n)[k])->0].1 by {
                    if k < prev.len() {
                        assert(added_names(e, n)[k] == prev[k]);
                        assert(t[e.len() + k] == m[e.len() + k]);
                        let j = first_index_of_ref(n1, prev[k])->0;
                        lemma_first_index_props(n1, prev[k]);
                        assert(n[j] == n1[j]);
                        assert(n[j].0 == prev[k]);
                    } else {
                        assert(t[e.len() + k] == u);
                        assert(n[n.len() - 1] == u);
                    }
                }
                assert forall|x: Seq<char>| #[trigger] has_ref(n, x) implies has_ref(t, x) by {
                    if x == u.0 {
                        assert(t[m.len() as int].0 == x);
                    } else {
                        assert(has_ref(m, x));
                        let j = choose|j: int| 0 <= j < m.len() && (#[trigger] m[j]).0 == x;
                        assert(t[j].0 == x);
                    }
                }
            },
        }
    }
}

/// The layout of a merge: the pending refs keep their place, and after
/// them come the refs that only newer pushes update, each once, in the
/// order of its first update and with that update's old sha.
pub proof fn law_merge_appends_new_refs(
    e: Seq<(Seq<char>, Seq<char>, Seq<char>)>,
    n: Seq<(Seq<char>, Seq<char>, Seq<char>)>,
)
    ensures
        merge_all(e, n).len() == e.len() + added_names(e, n).len(),
        forall|k: int|
            0 <= k < added_names(e, n).len() ==> merge_all(e, n)[e.len() + k].0 == #[trigger] added_names(e, n)[k]
                && merge_all(e, n)[e.len() + k].1 == n[first_index_of_ref(n, added_names(e, n)[k])->0].1,
        forall|x: Seq<char>| #[trigger] added_names(e, n).contains(x) ==> !has_ref(e, x) && has_ref(n, x),
{
    lemma_merge_appends(e, n);
    lemma_added_names_new(e, n);
}

proof fn lemma_added_names_new(
    e: Seq<(Seq<char>, Seq<char>, Seq<char>)>,
    n: Seq<(Seq<char>, Seq<char>, Seq<char>)>,
)
    ensures
        forall|x: Seq<char>| #[trigger] added_names(e, n).contains(x) ==> !has_ref(e, x) && has_ref(n, x),
    decreases n.len(),
{
    if n.len() > 0 {
        lemma_added_names_new(e, n.drop_last());
        let prev = added_names(e, n.drop_last());
        assert forall|x: Seq<char>| #[trigger] added_names(e, n).contains(x) implies !has_ref(e, x) && has_ref(n, x) by {
            if prev.contains(x) {
                let j = choose|j: int| 0 <= j < n.drop_last().len() && (#[trigger] n.drop_last()[j]).0 == x;
                assert(n[j].0 == x);
            } else {
                let q = choose|q: int| 0 <= q < added_names(e, n).len() && added_names(e, n)[q] == x;
                assert(q == prev.len());
                assert(n[n.len() - 1].0 == x);
            }
        }
    }
}

/// Every ref of the merged list was pending before or came with a newer push.
pub proof fn law_merge_adds_no_other_refs(
    e: Seq<(Seq<char>, Seq<char>, Seq<char>)>,
    n: Seq<(Seq<char>, Seq<char>, Seq<char>)>,
    name: Seq<char>,
)
    requires
        has_ref(merge_all(e, n), name),
    ensures
        has_ref(e, name) || has_ref(n, name),
    decreases n.len(),
{
    if n.len() > 0 {
        let m = merge_all(e, n.drop_last());
        let u = n.last();
        let r = merge_all(e, n);
        let k = choose|k: int| 0 <= k < r.len() && (#[trigger] r[k]).0 == name;
        lemma_first_index_props(m, u.0);
        if u.0 == name {
            assert(n[n.len() - 1].0 == name);
        } else {
            match first_index_of_ref(m, u.0) {
                Some(i) => {
                    assert(m[k].0 == name);
                },
                None => {
                    assert(k < m.len());
                    assert(m[k].0 == name);
                },
            }
            law_merge_adds_no_other_refs(e, n.drop_last(), name);
            if has_ref(n.drop_last(), name) {
                let j = choose|j: int|
                    0 <= j < n.drop_last().len() && (#[trigger] n.drop_last()[j]).0 == name;
                assert(n[j].0 == name);
            }
        }
    }
}

// =============================================================================
// Merging ref updates
// =============================================================================

fn copy_ref_update(u: &RefUpdate) -> (r: RefUpdate)
    ensures
        ref_view(r) == ref_view(*u),
{
    RefUpdate {
        ref_name: u.ref_name.clone(),
        old_sha: u.old_sha.clone(),
        new_sha: u.new_sha.clone(),
    }
}

/// Index of the first update of ref `name` in `s`.
fn position_of_ref(s: &Vec<RefUpdate>, name: &str) -> (r: Option<usize>)
    ensures
        r matches Some(i) ==> i < s@.len() && first_index_of_ref(refs_view(s@), name@) == Some(
            i as int,
        ),
        r is None ==> first_index_of_ref(refs_view(s@), name@) is None,
{
    let mut j: usize = 0;
    while j < s.len()
        invariant
            j <= s@.len(),
            forall|k: int| 0 <= k < j ==> (#[trigger] refs_view(s@)[k]).0 != name@,
        decreases s.len() - j,
    {
        if str_eq(s[j].ref_name.as_str(), name) {
            proof {
                lemma_first_index_at(refs_view(s@), name@, j as int);
            }
            return Some(j);
        }
        j = j + 1;
    }
    proof {
        lemma_first_index_none(refs_view(s@), name@);
    }
    None
}

/// Merges newer ref updates into pending ones: for a ref that is already
/// pending the newer update's new sha replaces the pending one (the pending
/// old sha stays); any other update is appended, in order.
pub fn merge_ref_updates(existing: &mut Vec<RefUpdate>, new: Vec<RefUpdate>)
    ensures
        refs_view(final(existing)@) == merge_all(refs_view(old(existing)@), refs_view(new@)),
{
    let ghost e0 = refs_view(existing@);
    let ghost nv = refs_view(new@);
    let mut j: usize = 0;
    while j < new.len()
        invariant
            j <= new@.len(),
            nv == refs_view(new@),
            refs_view(existing@) == merge_all(e0, nv.take(j as int)),
        decreases new.len() - j,
    {
        let ghost before = refs_view(existing@);
        proof {
            assert(nv.take(j + 1).drop_last() =~= nv.take(j as int));
            assert(nv.take(j + 1).last() == ref_view(new@[j as int]));
        }
        match position_of_ref(existing, new[j].ref_name.as_str()) {
            Some(i) => {
                let updated = RefUpdate {
                    ref_name: existing[i].ref_name.clone(),
                    old_sha: existing[i].old_sha.clone(),
                    new_sha: new[j].new_sha.clone(),
                };
                existing.set(i, updated);
                proof {
                    assert(refs_view(existing@) =~= before.update(
                        i as int,
                        (before[i as int].0, before[i as int].1, ref_view(new@[j as int]).2),
                    ));
                }
            },
            None => {
                let copied = copy_ref_update(&new[j]);
                existing.push(copied);
                proof {
                    assert(refs_view(existing@) =~= before.push(ref_view(new@[j as int])));
                }
            },
        }
        j = j + 1;
    }
    proof {
        assert(nv.take(new@.len() as int) =~= nv);
    }
}

// =============================================================================
// Overlap between a push and active runs
// =============================================================================

/// The run updates ref `name`.
pub open spec fn run_has_ref(run: Run, name: Seq<char>) -> bool {
    has_ref(refs_view(run.ref_updates@), name)
}

/// Some ref of `new_refs` is also updated by `run`.
pub open spec fn run_overlaps(new_refs: Seq<RefUpdate>, run: Run) -> bool {
    exists|i: int| 0 <= i < new_refs.len() && run_has_ref(run, (#[trigger] new_refs[i]).ref_name@)
}

/// The runs that overlap `new_refs`, in their order.
pub open spec fn overlapping_runs(new_refs: Seq<RefUpdate>, runs: Seq<Run>) -> Seq<Run>
    decreases runs.len(),
{
    if runs.len() == 0 {
        Seq::empty()
    } else if run_overlaps(new_refs, runs.last()) {
        overlapping_runs(new_refs, runs.drop_last()).push(runs.last())
    } else {
        overlapping_runs(new_refs, runs.drop_last())
    }
}

fn refs_contain(refs: &Vec<RefUpdate>, name: &str) -> (r: bool)
    ensures
        r == has_ref(refs_view(refs@), name@),
{
    let mut j: usize = 0;
    while j < refs.len()
        invariant
            j <= refs@.len(),
            forall|k: int| 0 <= k < j ==> (#[trigger] refs_view(refs@)[k]).0 != name@,
        decreases refs.len() - j,
    {
        if str_eq(refs[j].ref_name.as_str(), name) {
            assert(refs_view(refs@)[j as int].0 == name@);
            return true;
        }
        j = j + 1;
    }
    false
}

fn run_overlaps_refs(new_refs: &[RefUpdate], run: &Run) -> (r: bool)
    ensures
        r == run_overlaps(new_refs@, *run),
{
    let mut j: usize = 0;
    while j < new_refs.len()
        invariant
            j <= new_refs@.len(),
            forall|k: int| 0 <= k < j ==> !run_has_ref(*run, (#[trigger] new_refs@[k]).ref_name@),
        decreases new_refs.len() - j,
    {
        if refs_contain(&run.ref_updates, new_refs[j].ref_name.as_str()) {
            return true;
        }
        j = j + 1;
    }
    false
}

/// An active run that updates any ref of the new push, at any position of
/// either list, overlaps it and is among the runs the push supersedes.
pub proof fn law_shared_ref_supersedes(new_refs: Seq<RefUpdate>, active: Seq<Run>, j: int, i: int, k: int)
    requires
        0 <= j < active.len(),
        0 <= i < new_refs.len(),
        0 <= k < active[j].ref_updates@.len(),
        new_refs[i].ref_name@ == active[j].ref_updates@[k].ref_name@,
    ensures
        run_overlaps(new_refs, active[j]),
        overlapping_runs(new_refs, active).contains(active[j]),
    decreases active.len(),
{
    assert(refs_view(active[j].ref_updates@)[k].0 == new_refs[i].ref_name@);
    assert(run_has_ref(active[j], new_refs[i].ref_name@));
    if j < active.len() - 1 {
        assert(active.drop_last()[j] == active[j]);
        law_shared_ref_supersedes(new_refs, active.drop_last(), j, i, k);
        let prev = overlapping_runs(new_refs, active.drop_last());
        let q = choose|q: int| 0 <= q < prev.len() && prev[q] == active[j];
        assert(overlapping_runs(new_refs, active)[q] == active[j]);
    } else {
        let o = overlapping_runs(new_refs, active);
        assert(o[o.len() - 1] == active[j]);
    }
}

/// An active run that shares no ref with the new push is not superseded.
pub proof fn law_unshared_run_not_superseded(new_refs: Seq<RefUpdate>, active: Seq<Run>, j: int)
    requires
        0 <= j < active.len(),
        forall|i: int, k: int|
            0 <= i < new_refs.len() && 0 <= k < active[j].ref_updates@.len() ==> (#[trigger] new_refs[i]).ref_name@
                != (#[trigger] active[j].ref_updates@[k]).ref_name@,
    ensures
        !run_overlaps(new_refs, active[j]),
{
    if run_overlaps(new_refs, active[j]) {
        let i = choose|i: int| 0 <= i < new_refs.len() && run_has_ref(active[j], (#[trigger] new_refs[i]).ref_name@);
        let k = choose|k: int|
            0 <= k < refs_view(active[j].ref_updates@).len() && (#[trigger] refs_view(active[j].ref_updates@)[k]).0
                == new_refs[i].ref_name@;
        assert(active[j].ref_updates@[k].ref_name@ == new_refs[i].ref_name@);
    }
}

/// Whether any ref of the new push is also updated by one of the active runs.
pub fn has_overlapping_refs(new_refs: &[RefUpdate], active_runs: &[Run]) -> (r: bool)
    ensures
        r == exists|i: int| 0 <= i < active_runs@.len() && run_overlaps(new_refs@, #[trigger] active_runs@[i]),
{
    let mut i: usize = 0;
    while i < active_runs.len()
        invariant
            i <= active_runs@.len(),
            forall|k: int| 0 <= k < i ==> !run_overlaps(new_refs@, #[trigger] active_runs@[k]),
        decreases active_runs.len() - i,
    {
        if run_overlaps_refs(new_refs, &active_runs[i]) {
            return true;
        }
        i = i + 1;
    }
    false
}

/// The active runs that share a ref with the new push, in their order.
pub fn find_overlapping_runs<'a>(new_refs: &[RefUpdate], active_runs: &'a [Run]) -> (r: Vec<&'a Run>)
    ensures
        r@.len() == overlapping_runs(new_refs@, active_runs@).len(),
        forall|i: int| 0 <= i < r@.len() ==> *r@[i] == overlapping_runs(new_refs@, active_runs@)[i],
{
    let mut out: Vec<&'a Run> = Vec::new();
    let mut i: usize = 0;
    while i < active_runs.len()
        invariant
            i <= active_runs@.len(),
            out@.len() == overlapping_runs(new_refs@, active_runs@.take(i as int)).len(),
            forall|k: int|
                0 <= k < out@.len() ==> *out@[k] == overlapping_runs(
                    new_refs@,
                    active_runs@.take(i as int),
                )[k],
        decreases active_runs.len() - i,
    {
        proof {
            assert(active_runs@.take(i + 1).drop_last() =~= active_runs@.take(i as int));
        }
        let run = &active_runs[i];
        if run_overlaps_refs(new_refs, run) {
            out.push(run);
        }
        i = i + 1;
    }
    proof {
        assert(active_runs@.take(active_runs@.len() as int) =~= active_runs@);
    }
    out
}

/// `c` holds the same values as `r`.
pub open spec fn copy_of_run(c: Run, r: Run) -> bool {
    &&& c.id == r.id
    &&& c.repo_id == r.repo_id
    &&& c.ref_updates@ == r.ref_updates@
    &&& c.branch == r.branch
    &&& c.base_sha == r.base_sha
    &&& c.head_sha == r.head_sha
    &&& c.current_step == r.current_step
    &&& c.error == r.error
    &&& c.superseded == r.superseded
    &&& c.workflow_file == r.workflow_file
    &&& c.workflow_name == r.workflow_name
    &&& c.created_at == r.created_at
    &&& c.updated_at == r.updated_at
}

fn copy_text(o: &Option<String>) -> (r: Option<String>)
    ensures
        r == *o,
{
    match o {
        Some(s) => Some(s.clone()),
        None => None,
    }
}

fn copy_run(r: &Run) -> (c: Run)
    ensures
        copy_of_run(c, *r),
{
    let mut refs: Vec<RefUpdate> = Vec::new();
    let mut i: usize = 0;
    while i < r.ref_updates.len()
        invariant
            i <= r.ref_updates@.len(),
            refs@ == r.ref_updates@.take(i as int),
        decreases r.ref_updates.len() - i,
    {
        let u = &r.ref_updates[i];
        refs.push(RefUpdate { ref_name: u.ref_name.clone(), old_sha: u.old_sha.clone(), new_sha: u.new_sha.clone() });
        proof {
            assert(refs@ =~= r.ref_updates@.take(i + 1));
        }
        i = i + 1;
    }
    proof {
        assert(r.ref_updates@.take(r.ref_updates@.len() as int) =~= r.ref_updates@);
    }
    Run {
        id: r.id.clone(),
        repo_id: r.repo_id.clone(),
        ref_updates: refs,
        branch: r.branch.clone(),
        base_sha: r.base_sha.clone(),
        head_sha: r.head_sha.clone(),
        current_step: copy_text(&r.current_step),
        error: copy_text(&r.error),
        superseded: r.superseded,
        workflow_file: r.workflow_file.clone(),
        workflow_name: copy_text(&r.workflow_name),
        created_at: r.created_at,
        updated_at: r.updated_at,
    }
}

/// The active runs a new push supersedes: those that share a ref with it,
/// in their order, copied as they were before being marked superseded (so
/// that the new runs can inherit their base commits).
pub fn supersede_overlapping_runs(new_refs: &[RefUpdate], active_runs: &[Run]) -> (r: Vec<Run>)
    ensures
        r@.len() == overlapping_runs(new_refs@, active_runs@).len(),
        forall|i: int|
            0 <= i < r@.len() ==> copy_of_run(#[trigger] r@[i], overlapping_runs(new_refs@, active_runs@)[i]),
{
    let found = find_overlapping_runs(new_refs, active_runs);
    let mut out: Vec<Run> = Vec::new();
    let mut i: usize = 0;
    while i < found.len()
        invariant
            i <= found@.len(),
            found@.len() == overlapping_runs(new_refs@, active_runs@).len(),
            forall|k: int| 0 <= k < found@.len() ==> *found@[k] == overlapping_runs(new_refs@, active_runs@)[k],
            out@.len() == i,
            forall|k: int| 0 <= k < i ==> copy_of_run(#[trigger] out@[k], overlapping_runs(new_refs@, active_runs@)[k]),
        decreases found.len() - i,
    {
        out.push(copy_run(found[i]));
        i = i + 1;
    }
    out
}

// =============================================================================
// The coalescer
// =============================================================================

#[verifier::external_type_specification]
#[verifier::external_body]
pub struct ExInstant(tokio::time::Instant);

/// Reads tokio's monotonic clock (`tokio::time::Instant::now`). Nothing is
/// claimed of the instant it returns.
#[verifier::external_body]
fn clock_start() -> (r: tokio::time::Instant) {
    tokio::time::Instant::now()
}

/// Milliseconds elapsed since `start` (`tokio::time::Instant::elapsed`),
/// as a `u64`. The value depends on the clock: nothing is claimed of it.
#[verifier::external_body]
fn elapsed_millis(start: &tokio::time::Instant) -> (r: u64) {
    start.elapsed().as_millis() as u64
}

/// A push waiting for its debounce window to close.
#[derive(Debug)]
pub struct PendingPush {
    /// The repository pushed to.
    pub repo_id: String,
    /// Ref updates accumulated from every push in the window.
    pub ref_updates: Vec<RefUpdate>,
    /// When the first push of the window arrived (ms on the coalescer's clock).
    pub first_received: u64,
    /// When the last push of the window arrived (ms on the coalescer's clock).
    pub last_received: u64,
}

/// The window of `p` has closed at time `now`.
pub open spec fn window_closed(p: PendingPush, now: int) -> bool {
    now - p.first_received >= DEBOUNCE_DELAY_MS
}

/// Index of the pending push of repository `repo`, if any.
pub open spec fn entry_of(entries: Seq<PendingPush>, repo: Seq<char>) -> Option<int> {
    if exists|k: int| 0 <= k < entries.len() && (#[trigger] entries[k]).repo_id@ == repo {
        Some(choose|k: int| 0 <= k < entries.len() && (#[trigger] entries[k]).repo_id@ == repo)
    } else {
        None
    }
}

/// No repository has two pending pushes.
pub open spec fn repos_unique(entries: Seq<PendingPush>) -> bool {
    forall|a: int, b: int|
        0 <= a < entries.len() && 0 <= b < entries.len() && a != b ==> (#[trigger] entries[a]).repo_id@
            != (#[trigger] entries[b]).repo_id@
}

/// The updates, as text, returned by a call that may return some.
pub open spec fn opt_refs_view(r: Option<Vec<RefUpdate>>) -> Option<Seq<(Seq<char>, Seq<char>, Seq<char>)>> {
    match r {
        Some(v) => Some(refs_view(v@)),
        None => None,
    }
}

/// What recording a push of `new_refs` to `repo` at time `now` does: the
/// pending pushes go from `old` to `new`, and `r` is what is handed back for
/// processing.
pub open spec fn push_recorded(
    old: Seq<PendingPush>,
    repo: Seq<char>,
    new_refs: Seq<(Seq<char>, Seq<char>, Seq<char>)>,
    now: int,
    new: Seq<PendingPush>,
    r: Option<Seq<(Seq<char>, Seq<char>, Seq<char>)>>,
) -> bool {
    match entry_of(old, repo) {
        Some(k) => {
            let merged = merge_all(refs_view(old[k].ref_updates@), new_refs);
            if window_closed(old[k], now) {
                // The window has closed: everything merged so far is flushed.
                &&& r == Some(merged)
                &&& new == old.remove(k)
            } else {
                // The push joins the open window.
                &&& r is None
                &&& new.len() == old.len()
                &&& forall|j: int| 0 <= j < old.len() && j != k ==> new[j] == old[j]
                &&& new[k].repo_id@ == repo
                &&& refs_view(new[k].ref_updates@) == merged
                &&& new[k].first_received == old[k].first_received
                &&& new[k].last_received == now
            }
        },
        None => {
            // The first push of a new window.
            &&& r is None
            &&& new.len() == old.len() + 1
            &&& new.drop_last() == old
            &&& new.last().repo_id@ == repo
            &&& refs_view(new.last().ref_updates@) == new_refs
            &&& new.last().first_received == now
            &&& new.last().last_received == now
        },
    }
}

/// Two pushes to a repository with nothing pending, the second within the
/// debounce window of the first, become one: neither call hands anything
/// back, and the repository's one pending push holds the updates of both,
/// merged.
pub proof fn law_rapid_pushes_coalesce(
    e0: Seq<PendingPush>,
    repo: Seq<char>,
    r1: Seq<(Seq<char>, Seq<char>, Seq<char>)>,
    t1: int,
    e1: Seq<PendingPush>,
    o1: Option<Seq<(Seq<char>, Seq<char>, Seq<char>)>>,
    r2: Seq<(Seq<char>, Seq<char>, Seq<char>)>,
    t2: int,
    e2: Seq<PendingPush>,
    o2: Option<Seq<(Seq<char>, Seq<char>, Seq<char>)>>,
)
    requires
        entry_of(e0, repo) is None,
        push_recorded(e0, repo, r1, t1, e1, o1),
        push_recorded(e1, repo, r2, t2, e2, o2),
        t2 - t1 < DEBOUNCE_DELAY_MS,
    ensures
        o1 is None,
        o2 is None,
        e2.len() == e0.len() + 1,
        entry_of(e2, repo) matches Some(k) && refs_view(e2[k].ref_updates@) == merge_all(r1, r2),
{
    let n = e0.len() as int;
    assert(e1[n] == e1.last());
    assert forall|j: int| 0 <= j < e1.len() && (#[trigger] e1[j]).repo_id@ == repo implies j == n by {
        if j < n {
            assert(e1[j] == e1.drop_last()[j]);
        }
    }
    assert(entry_of(e1, repo) == Some(n));
    assert forall|j: int| 0 <= j < e2.len() && (#[trigger] e2[j]).repo_id@ == repo implies j == n by {
        if j != n {
            assert(e2[j] == e1[j]);
            assert(e1[j] == e1.drop_last()[j]);
        }
    }
    assert(e2[n].repo_id@ == repo);
    assert(entry_of(e2, repo) == Some(n));
}

/// Splits pending pushes into those whose window has closed at `now` and
/// the others, each in order.
pub open spec fn split_ready(entries: Seq<PendingPush>, now: int) -> (Seq<PendingPush>, Seq<PendingPush>)
    decreases entries.len(),
{
    if entries.len() == 0 {
        (Seq::empty(), Seq::empty())
    } else {
        let (ready, keep) = split_ready(entries.drop_last(), now);
        if window_closed(entries.last(), now) {
            (ready.push(entries.last()), keep)
        } else {
            (ready, keep.push(entries.last()))
        }
    }
}

/// The (repository, ref updates) pairs of pending pushes.
pub open spec fn flushed(ready: Seq<PendingPush>) -> Seq<(String, Vec<RefUpdate>)> {
    ready.map_values(|p: PendingPush| (p.repo_id, p.ref_updates))
}

/// Collects the pushes to each repository for a short window and merges
/// them, so that rapid pushes become one run.
pub struct PushCoalescer {
    pending: Vec<PendingPush>,
    clock: tokio::time::Instant,
}

impl PushCoalescer {
    /// The pending pushes, one per repository.
    pub closed spec fn entries(&self) -> Seq<PendingPush> {
        self.pending@
    }

    /// Well-formedness: at most one pending push per repository.
    pub open spec fn wf(&self) -> bool {
        repos_unique(self.entries())
    }

    /// A coalescer with nothing pending.
    pub fn new() -> (r: Self)
        ensures
            r.wf(),
            r.entries().len() == 0,
    {
        PushCoalescer { pending: Vec::new(), clock: clock_start() }
    }

    fn find_entry(&self, repo_id: &str) -> (r: Option<usize>)
        requires
            self.wf(),
        ensures
            r matches Some(k) ==> entry_of(self.entries(), repo_id@) == Some(k as int) && k
                < self.entries().len(),
            r is None ==> entry_of(self.entries(), repo_id@) is None,
    {
        let mut k: usize = 0;
        while k < self.pending.len()
            invariant
                k <= self.pending@.len(),
                repos_unique(self.pending@),
                forall|j: int| 0 <= j < k ==> (#[trigger] self.pending@[j]).repo_id@ != repo_id@,
            decreases self.pending.len() - k,
        {
            if str_eq(self.pending[k].repo_id.as_str(), repo_id) {
                proof {
                    let c = choose|j: int|
                        0 <= j < self.pending@.len() && (#[trigger] self.pending@[j]).repo_id@
                            == repo_id@;
                    assert(c == k);
                }
                return Some(k);
            }
            k = k + 1;
        }
        None
    }

    /// The pending push of a repository, if any.
    pub fn pending_for(&self, repo_id: &str) -> (r: Option<&PendingPush>)
        requires
            self.wf(),
        ensures
            r matches Some(p) ==> entry_of(self.entries(), repo_id@) matches Some(k)
                && *p == self.entries()[k],
            r is None ==> entry_of(self.entries(), repo_id@) is None,
    {
        match self.find_entry(repo_id) {
            Some(k) => Some(&self.pending[k]),
            None => None,
        }
    }

    /// Records a push received at time `now` (ms on the coalescer's clock).
    /// Returns the merged ref updates when the repository's window has
    /// closed (they are to be processed now), else `None`.
    pub fn record_push_at(&mut self, repo_id: &str, ref_updates: Vec<RefUpdate>, now: u64) -> (r:
        Option<Vec<RefUpdate>>)
        requires
            old(self).wf(),
        ensures
            final(self).wf(),
            push_recorded(
                old(self).entries(),
                repo_id@,
                refs_view(ref_updates@),
                now as int,
                final(self).entries(),
                opt_refs_view(r),
            ),
    {
        let ghost nv = refs_view(ref_updates@);
        match self.find_entry(repo_id) {
            Some(k) => {
                let mut entry = self.pending.remove(k);
                let ghost old_entry = entry;
                let ghost rest = self.pending@;
                merge_ref_updates(&mut entry.ref_updates, ref_updates);
                entry.last_received = now;
                if now >= entry.first_received && now - entry.first_received >= DEBOUNCE_DELAY_MS {
                    proof {
                        assert forall|a: int, b: int|
                            0 <= a < self.pending@.len() && 0 <= b < self.pending@.len() && a != b
                                implies (#[trigger] self.pending@[a]).repo_id@
                            != (#[trigger] self.pending@[b]).repo_id@ by {
                            let a0 = if a < k { a } else { a + 1 };
                            let b0 = if b < k { b } else { b + 1 };
                            assert(self.pending@[a] == old(self).pending@[a0]);
                            assert(self.pending@[b] == old(self).pending@[b0]);
                        }
                    }
                    Some(entry.ref_updates)
                } else {
                    self.pending.insert(k, entry);
                    proof {
                        assert forall|j: int| 0 <= j < old(self).pending@.len() && j != k implies
                            self.pending@[j] == old(self).pending@[j] by {
                            if j < k {
                                assert(self.pending@[j] == rest[j]);
                            } else {
                                assert(self.pending@[j] == rest[j - 1]);
                            }
                        }
                        assert forall|a: int, b: int|
                            0 <= a < self.pending@.len() && 0 <= b < self.pending@.len() && a != b
                                implies (#[trigger] self.pending@[a]).repo_id@
                            != (#[trigger] self.pending@[b]).repo_id@ by {
                            if a != k {
                                assert(self.pending@[a] == old(self).pending@[a]);
                            }
                            if b != k {
                                assert(self.pending@[b] == old(self).pending@[b]);
                            }
                        }
                    }
                    None
                }
            },
            None => {
                let repo = repo_id.to_string();
                let entry = PendingPush {
                    repo_id: repo,
                    ref_updates,
                    first_received: now,
                    last_received: now,
                };
                self.pending.push(entry);
                proof {
                    assert(self.pending@.drop_last() =~= old(self).pending@);
                    assert forall|a: int, b: int|
                        0 <= a < self.pending@.len() && 0 <= b < self.pending@.len() && a != b
                            implies (#[trigger] self.pending@[a]).repo_id@
                        != (#[trigger] self.pending@[b]).repo_id@ by {
                        if a < old(self).pending@.len() && b < old(self).pending@.len() {
                            assert(self.pending@[a] == old(self).pending@[a]);
                            assert(self.pending@[b] == old(self).pending@[b]);
                        } else if a < old(self).pending@.len() {
                            assert(self.pending@[a] == old(self).pending@[a]);
                        } else {
                            assert(self.pending@[b] == old(self).pending@[b]);
                        }
                    }
                }
                None
            },
        }
    }

    /// Records a push received now. Returns the merged ref updates when the
    /// repository's window has closed, else `None`.
    pub fn record_push(&mut self, repo_id: &str, ref_updates: Vec<RefUpdate>) -> (r: Option<
        Vec<RefUpdate>,
    >)
        requires
            old(self).wf(),
        ensures
            final(self).wf(),
            exists|now: u64|
                push_recorded(
                    old(self).entries(),
                    repo_id@,
                    refs_view(ref_updates@),
                    now as int,
                    final(self).entries(),
                    opt_refs_view(r),
                ),
    {
        let now = elapsed_millis(&self.clock);
        self.record_push_at(repo_id, ref_updates, now)
    }

    /// Removes and returns, in order, the pending pushes whose window has
    /// closed at time `now`.
    pub fn ready_pushes_at(&mut self, now: u64) -> (r: Vec<(String, Vec<RefUpdate>)>)
        requires
            old(self).wf(),
        ensures
            final(self).wf(),
            r@ == flushed(split_ready(old(self).entries(), now as int).0),
            final(self).entries() == split_ready(old(self).entries(), now as int).1,
    {
        let mut rest: Vec<PendingPush> = Vec::new();
        std::mem::swap(&mut rest, &mut self.pending);
        let ghost orig = rest@;
        assert(orig.len() == rest.len());
        let mut ready: Vec<(String, Vec<RefUpdate>)> = Vec::new();
        let mut keep: Vec<PendingPush> = Vec::new();
        let mut i: usize = 0;
        while rest.len() > 0
            invariant
                i <= orig.len(),
                orig.len() <= usize::MAX,
                rest@ == orig.skip(i as int),
                ready@ == flushed(split_ready(orig.take(i as int), now as int).0),
                keep@ == split_ready(orig.take(i as int), now as int).1,
            decreases rest.len(),
        {
            let p = rest.remove(0);
            proof {
                assert(orig.take(i + 1).drop_last() =~= orig.take(i as int));
                assert(orig.take(i + 1).last() == p);
                assert(rest@ =~= orig.skip(i + 1));
            }
            if now >= p.first_received && now - p.first_received >= DEBOUNCE_DELAY_MS {
                ready.push((p.repo_id, p.ref_updates));
                proof {
                    assert(ready@ =~= flushed(split_ready(orig.take(i + 1), now as int).0));
                }
            } else {
                keep.push(p);
            }
            i = i + 1;
        }
        proof {
            assert(orig.take(i as int) =~= orig);
            lemma_split_ready_subseq(orig, now as int);
        }
        self.pending = keep;
        ready
    }

    /// Removes and returns, in order, the pending pushes whose window has
    /// closed by now.
    pub fn ready_pushes(&mut self) -> (r: Vec<(String, Vec<RefUpdate>)>)
        requires
            old(self).wf(),
        ensures
            final(self).wf(),
            exists|now: u64|
                r@ == flushed(split_ready(old(self).entries(), now as int).0) && final(self).entries()
                    == split_ready(old(self).entries(), now as int).1,
    {
        let now = elapsed_millis(&self.clock);
        self.ready_pushes_at(now)
    }
}

/// What is kept of the pending pushes still has one push per repository:
/// every entry kept is one of the entries before the split.
proof fn lemma_split_ready_subseq(entries: Seq<PendingPush>, now: int)
    requires
        repos_unique(entries),
    ensures
        repos_unique(split_ready(entries, now).1),
        forall|j: int|
            0 <= j < split_ready(entries, now).1.len() ==> exists|k: int|
                0 <= k < entries.len() && entries[k] == #[trigger] split_ready(entries, now).1[j],
    decreases entries.len(),
{
    if entries.len() > 0 {
        let d = entries.drop_last();
        assert forall|a: int, b: int|
            0 <= a < d.len() && 0 <= b < d.len() && a != b implies (#[trigger] d[a]).repo_id@
            != (#[trigger] d[b]).repo_id@ by {
            assert(d[a] == entries[a] && d[b] == entries[b]);
        }
        lemma_split_ready_subseq(d, now);
        let keep = split_ready(d, now).1;
        let nk = split_ready(entries, now).1;
        assert forall|j: int| 0 <= j < nk.len() implies exists|k: int|
            0 <= k < entries.len() && entries[k] == #[trigger] nk[j] by {
            if j < keep.len() {
                let k = choose|k: int| 0 <= k < d.len() && d[k] == #[trigger] keep[j];
                assert(entries[k] == nk[j]);
            } else {
                assert(entries[entries.len() - 1] == nk[j]);
            }
        }
        if !window_closed(entries.last(), now) {
            assert forall|a: int, b: int|
                0 <= a < nk.len() && 0 <= b < nk.len() && a != b implies (#[trigger] nk[a]).repo_id@
                != (#[trigger] nk[b]).repo_id@ by {
                if a < keep.len() && b < keep.len() {
                } else if a < keep.len() {
                    let k = choose|k: int| 0 <= k < d.len() && d[k] == #[trigger] keep[a];
                    assert(entries[k] == nk[a]);
                    assert(nk[b] == entries[entries.len() - 1]);
                } else {
                    let k = choose|k: int| 0 <= k < d.len() && d[k] == #[trigger] keep[b];
                    assert(entries[k] == nk[b]);
                    assert(nk[a] == entries[entries.len() - 1]);
                }
            }
        }
    }
}

impl Default for PushCoalescer {
    fn default() -> (r: Self)
        ensures
            r.wf(),
            r.entries().len() == 0,
    {
        PushCoalescer::new()
    }
}

} // verus!
