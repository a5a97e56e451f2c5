//! What a store holds after any run of accesses: the latest access of each
//! path, the more recent first, and as many of the most recent as fit.

use vstd::prelude::*;
use vstd::set_lib::lemma_len_subset;
use crate::recent::{
    distinct_paths, holds, lemma_record_new, lemma_recorded_well_formed, lemma_without_present,
    recorded, replayed, well_formed, Entry, CAPACITY,
};

verus! {

/// The index of the last of `calls` that has the path, or -1 where none has.
pub open spec fn latest(calls: Seq<Entry>, path: Seq<char>) -> int
    decreases calls.len(),
{
    if calls.len() == 0 {
        -1
    } else if calls.last().path == path {
        calls.len() - 1
    } else {
        latest(calls.drop_last(), path)
    }
}

/// The paths of the entries, in their order.
pub open spec fn paths_of(entries: Seq<Entry>) -> Seq<Seq<char>> {
    entries.map_values(|e: Entry| e.path)
}

/// The store `store` is in the order of recency of `calls`:
/// it is well formed; an entry whose path was called stands before every
/// entry whose path was called earlier or never; such an entry is the last
/// call of its path; and the path of every call is held, unless the store
/// is full of paths that were called later.
pub open spec fn in_recency_order(calls: Seq<Entry>, store: Seq<Entry>) -> bool {
    &&& well_formed(store)
    &&& forall|i: int, j: int|
        0 <= i < j < store.len() && latest(calls, (#[trigger] store[j]).path) >= 0 ==> latest(
            calls,
            (#[trigger] store[i]).path,
        ) > latest(calls, store[j].path)
    &&& forall|i: int|
        0 <= i < store.len() && latest(calls, (#[trigger] store[i]).path) >= 0
            ==> store[i] == calls[latest(calls, store[i].path)]
    &&& forall|k: int|
        0 <= k < calls.len() ==> holds(store, (#[trigger] calls[k]).path) || (store.len()
            == CAPACITY && latest(calls, store[CAPACITY - 1].path) > k)
}

/// `latest` is the index of a call with the path, no call after it has the
/// path, and it is -1 only where no call has it.
pub proof fn lemma_latest(calls: Seq<Entry>, path: Seq<char>)
    ensures
        -1 <= latest(calls, path) < calls.len(),
        latest(calls, path) >= 0 ==> calls[latest(calls, path)].path == path,
        forall|k: int|
            0 <= k < calls.len() && (#[trigger] calls[k]).path == path ==> k <= latest(
                calls,
                path,
            ),
    decreases calls.len(),
{
    if calls.len() > 0 {
        let front = calls.drop_last();
        lemma_latest(front, path);
        if calls.last().path != path {
            assert forall|k: int| 0 <= k < calls.len() && (#[trigger] calls[k]).path
                == path implies k <= latest(calls, path) by {
                assert(front[k] == calls[k]);
            }
        }
    }
}

/// One more call changes `latest` for the path of that call alone.
pub proof fn lemma_latest_push(calls: Seq<Entry>, entry: Entry, path: Seq<char>)
    ensures
        latest(calls.push(entry), path) == if path == entry.path {
            calls.len() as int
        } else {
            latest(calls, path)
        },
{
    assert(calls.push(entry).drop_last() =~= calls);
}

/// The index in `store` of the entry that stands at index `i >= 1` after
/// `entry` is recorded.
pub open spec fn origin(store: Seq<Entry>, entry: Entry, i: int) -> int {
    if holds(store, entry.path) && i > place(store, entry.path) {
        i
    } else {
        i - 1
    }
}

/// An index at which `store` has the path, where it holds it.
pub open spec fn place(store: Seq<Entry>, path: Seq<char>) -> int {
    choose|k: int| 0 <= k < store.len() && (#[trigger] store[k]).path == path
}

/// After `entry` is recorded in a well-formed store, it stands first and the
/// entries behind it are those of the other paths in their order.
pub proof fn lemma_recorded_shape(store: Seq<Entry>, entry: Entry)
    requires
        well_formed(store),
    ensures
        well_formed(recorded(store, entry)),
        recorded(store, entry).len() >= 1,
        recorded(store, entry)[0] == entry,
        holds(store, entry.path) ==> recorded(store, entry).len() == store.len() && 0 <= place(
            store,
            entry.path,
        ) < store.len() && store[place(store, entry.path)].path == entry.path,
        !holds(store, entry.path) && store.len() < CAPACITY ==> recorded(store, entry).len()
            == store.len() + 1,
        !holds(store, entry.path) && store.len() == CAPACITY ==> recorded(store, entry).len()
            == CAPACITY,
        forall|i: int|
            1 <= i < recorded(store, entry).len() ==> 0 <= origin(store, entry, i) < store.len()
                && (#[trigger] recorded(store, entry)[i]) == store[origin(store, entry, i)]
                && store[origin(store, entry, i)].path != entry.path,
{
    lemma_recorded_well_formed(store, entry);
    let after = recorded(store, entry);
    if holds(store, entry.path) {
        let m = place(store, entry.path);
        lemma_without_present(store, entry.path, m);
        assert(after =~= seq![entry] + store.remove(m));
        assert forall|i: int| 1 <= i < after.len() implies 0 <= origin(store, entry, i)
            < store.len() && (#[trigger] after[i]) == store[origin(store, entry, i)]
            && store[origin(store, entry, i)].path != entry.path by {
            let o = origin(store, entry, i);
            assert(after[i] == store.remove(m)[i - 1]);
            if o < m {
                assert(store[o].path != store[m].path);
            } else {
                assert(store[m].path != store[o].path);
            }
        }
    } else {
        lemma_record_new(store, entry);
        assert forall|i: int| 1 <= i < after.len() implies 0 <= origin(store, entry, i)
            < store.len() && (#[trigger] after[i]) == store[origin(store, entry, i)]
            && store[origin(store, entry, i)].path != entry.path by {
            assert(after[i] == (seq![entry] + store)[i]);
            assert(after[i] == store[i - 1]);
        }
    }
}

/// Recording one more call keeps a store in the order of recency.
pub proof fn lemma_recency_step(calls: Seq<Entry>, store: Seq<Entry>, entry: Entry)
    requires
        in_recency_order(calls, store),
    ensures
        in_recency_order(calls.push(entry), recorded(store, entry)),
{
    let n = calls.len() as int;
    let more = calls.push(entry);
    let after = recorded(store, entry);
    lemma_recorded_shape(store, entry);
    assert forall|i: int| 0 <= i < after.len() implies latest(more, (#[trigger] after[i]).path)
        == if i == 0 {
        n
    } else {
        latest(calls, store[origin(store, entry, i)].path)
    } by {
        lemma_latest_push(calls, entry, after[i].path);
    }
    assert forall|i: int, j: int|
        0 <= i < j < after.len() && latest(more, (#[trigger] after[j]).path) >= 0 implies latest(
        more,
        (#[trigger] after[i]).path,
    ) > latest(more, after[j].path) by {
        let oj = origin(store, entry, j);
        assert(after[j] == store[oj]);
        if i == 0 {
            lemma_latest(calls, store[oj].path);
        } else {
            let oi = origin(store, entry, i);
            assert(after[i] == store[oi]);
            assert(oi < oj);
            assert(latest(calls, store[oj].path) >= 0);
        }
    }
    assert forall|i: int|
        0 <= i < after.len() && latest(more, (#[trigger] after[i]).path) >= 0 implies after[i]
        == more[latest(more, after[i].path)] by {
        if i > 0 {
            let oi = origin(store, entry, i);
            assert(after[i] == store[oi]);
            lemma_latest(calls, store[oi].path);
            assert(store[oi] == calls[latest(calls, store[oi].path)]);
        }
    }
    assert forall|k: int| 0 <= k < more.len() implies holds(after, (#[trigger] more[k]).path) || (
    after.len() == CAPACITY && latest(more, after[CAPACITY - 1].path) > k) by {
        let q = more[k].path;
        if q == entry.path {
            assert(after[0].path == q);
        } else {
            assert(more[k] == calls[k]);
            lemma_latest(calls, q);
            if holds(store, q) {
                let t = choose|t: int| 0 <= t < store.len() && (#[trigger] store[t]).path == q;
                let i = if holds(store, entry.path) && t > place(store, entry.path) {
                    t
                } else {
                    t + 1
                };
                if i < after.len() {
                    assert(origin(store, entry, i) == t);
                    assert(after[i] == store[t]);
                } else {
                    assert(t == CAPACITY - 1 && store.len() == CAPACITY);
                    assert(after.len() == CAPACITY);
                    assert(origin(store, entry, CAPACITY - 1) == CAPACITY - 2);
                    assert(after[CAPACITY - 1] == store[CAPACITY - 2]);
                    assert(latest(calls, store[t].path) >= 0);
                    assert(latest(calls, store[CAPACITY - 2].path) > latest(
                        calls,
                        store[t].path,
                    ));
                }
            } else {
                assert(calls[k].path == q);
                assert(store.len() == CAPACITY && latest(calls, store[CAPACITY - 1].path) > k);
                assert(after.len() == CAPACITY);
                let o = origin(store, entry, CAPACITY - 1);
                assert(after[CAPACITY - 1] == store[o]);
                if o != CAPACITY - 1 {
                    assert(o == CAPACITY - 2);
                    assert(latest(calls, store[CAPACITY - 2].path) > latest(
                        calls,
                        store[CAPACITY - 1].path,
                    ));
                }
            }
        }
    }
}

/// After any run of accesses from a well-formed store, the store is in the
/// order of recency of that run.
pub proof fn lemma_replayed_in_order(start: Seq<Entry>, calls: Seq<Entry>)
    requires
        well_formed(start),
    ensures
        in_recency_order(calls, replayed(start, calls)),
        well_formed(replayed(start, calls)),
    decreases calls.len(),
{
    if calls.len() > 0 {
        lemma_replayed_in_order(start, calls.drop_last());
        lemma_recency_step(calls.drop_last(), replayed(start, calls.drop_last()), calls.last());
        assert(calls.drop_last().push(calls.last()) =~= calls);
    }
}

/// After a run of accesses to more than `CAPACITY` distinct paths, the store
/// is full; each entry is the last access of its path; the entries stand
/// most recent first, the last access of all at the front; and every path
/// accessed since the access of the last entry is held. So the store holds
/// exactly the `CAPACITY` most recently accessed distinct paths.
pub proof fn lemma_full_after_many(start: Seq<Entry>, calls: Seq<Entry>)
    requires
        well_formed(start),
        paths_of(calls).to_set().len() > CAPACITY,
    ensures
        ({
            let store = replayed(start, calls);
            &&& store.len() == CAPACITY
            &&& distinct_paths(store)
            &&& calls.len() > 0 && store[0] == calls.last()
            &&& forall|i: int|
                0 <= i < store.len() ==> 0 <= latest(calls, (#[trigger] store[i]).path)
                    < calls.len() && store[i] == calls[latest(calls, store[i].path)]
            &&& forall|i: int, j: int|
                0 <= i < j < store.len() ==> latest(calls, (#[trigger] store[i]).path) > latest(
                    calls,
                    (#[trigger] store[j]).path,
                )
            &&& forall|k: int|
                latest(calls, store[CAPACITY - 1].path) <= k < calls.len() ==> holds(
                    store,
                    (#[trigger] calls[k]).path,
                )
        }),
{
    let store = replayed(start, calls);
    lemma_replayed_in_order(start, calls);
    let called = paths_of(calls);
    let held = paths_of(store);
    if forall|k: int| 0 <= k < calls.len() ==> holds(store, (#[trigger] calls[k]).path) {
        assert forall|p: Seq<char>| called.to_set().contains(p) implies held.to_set().contains(
            p,
        ) by {
            let k = choose|k: int| 0 <= k < called.len() && called[k] == p;
            assert(calls[k].path == p);
            let t = choose|t: int| 0 <= t < store.len() && (#[trigger] store[t]).path == p;
            assert(held[t] == p);
        }
        held.lemma_cardinality_of_set();
        lemma_len_subset(called.to_set(), held.to_set());
        assert(false);
    }
    let k = choose|k: int| 0 <= k < calls.len() && !holds(store, (#[trigger] calls[k]).path);
    assert(store.len() == CAPACITY && latest(calls, store[CAPACITY - 1].path) > k);
    assert forall|i: int| 0 <= i < store.len() implies 0 <= latest(
        calls,
        (#[trigger] store[i]).path,
    ) < calls.len() by {
        lemma_latest(calls, store[i].path);
        if i < CAPACITY - 1 {
            assert(latest(calls, store[i].path) > latest(calls, store[CAPACITY - 1].path));
        }
    }
    lemma_replayed_in_order(start, calls.drop_last());
    lemma_recorded_well_formed(replayed(start, calls.drop_last()), calls.last());
}

} // verus!
