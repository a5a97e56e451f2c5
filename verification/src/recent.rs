//! The store of recently used files: a list without repeated paths, most
//! recent first, of at most `CAPACITY` entries.

use vstd::prelude::*;
use chrono::NaiveDateTime;
use crate::clock::now;

verus! {

/// How many entries the store keeps.
pub const CAPACITY: usize = 10;

/// A file that was opened or saved.
#[derive(Debug, PartialEq, Eq)]
pub struct RecentFile {
    pub path: String,
    pub name: String,
    /// The moment of the access, in universal time.
    pub last_opened: NaiveDateTime,
}

/// A recent file as the contracts see it.
pub struct Entry {
    pub path: Seq<char>,
    pub name: Seq<char>,
    pub last_opened: NaiveDateTime,
}

impl View for RecentFile {
    type V = Entry;

    open spec fn view(&self) -> Entry {
        Entry { path: self.path@, name: self.name@, last_opened: self.last_opened }
    }
}

impl Clone for RecentFile {
    fn clone(&self) -> (r: Self)
        ensures
            r@ == self@,
    {
        RecentFile {
            path: self.path.clone(),
            name: self.name.clone(),
            last_opened: self.last_opened,
        }
    }
}

/// The store of recently used files.
#[derive(Debug, PartialEq, Eq)]
pub struct AppState {
    pub recent_files: Vec<RecentFile>,
}

/// What each file of a list is to the contracts.
pub open spec fn entries_of(list: Seq<RecentFile>) -> Seq<Entry> {
    list.map_values(|f: RecentFile| f@)
}

/// Some entry has the path.
pub open spec fn holds(entries: Seq<Entry>, path: Seq<char>) -> bool {
    exists|i: int| 0 <= i < entries.len() && (#[trigger] entries[i]).path == path
}

/// No two entries have the same path.
pub open spec fn distinct_paths(entries: Seq<Entry>) -> bool {
    forall|i: int, j: int|
        0 <= i < j < entries.len() ==> (#[trigger] entries[i]).path != (#[trigger] entries[j]).path
}

/// What holds of a store at any time: it is within its capacity and no path
/// stands in it twice.
pub open spec fn well_formed(entries: Seq<Entry>) -> bool {
    entries.len() <= CAPACITY && distinct_paths(entries)
}

/// The entries without those that have the path, in their order.
pub open spec fn without(entries: Seq<Entry>, path: Seq<char>) -> Seq<Entry>
    decreases entries.len(),
{
    if entries.len() == 0 {
        entries
    } else if entries.last().path == path {
        without(entries.drop_last(), path)
    } else {
        without(entries.drop_last(), path).push(entries.last())
    }
}

/// The first `CAPACITY` entries, or all where there are fewer.
pub open spec fn capped(entries: Seq<Entry>) -> Seq<Entry> {
    if entries.len() > CAPACITY {
        entries.take(CAPACITY as int)
    } else {
        entries
    }
}

/// The store after an access is recorded: the new entry first, then the
/// entries of other paths in their order, cut to the capacity.
pub open spec fn recorded(entries: Seq<Entry>, entry: Entry) -> Seq<Entry> {
    capped(seq![entry] + without(entries, entry.path))
}

/// The store after the accesses of `calls` are recorded in their order.
pub open spec fn replayed(start: Seq<Entry>, calls: Seq<Entry>) -> Seq<Entry>
    decreases calls.len(),
{
    if calls.len() == 0 {
        start
    } else {
        recorded(replayed(start, calls.drop_last()), calls.last())
    }
}

/// The store that a list of entries seeds: what results from recording them
/// from the last to the first, so that of two entries with one path the
/// earlier one stays, and of more than `CAPACITY` the first ones.
pub open spec fn seeded(entries: Seq<Entry>) -> Seq<Entry>
    decreases entries.len(),
{
    if entries.len() == 0 {
        entries
    } else {
        recorded(seeded(entries.drop_first()), entries[0])
    }
}

/// Taking out an entry that has the path changes nothing in what is left
/// without that path.
pub proof fn lemma_without_remove(entries: Seq<Entry>, path: Seq<char>, k: int)
    requires
        0 <= k < entries.len(),
        entries[k].path == path,
    ensures
        without(entries.remove(k), path) == without(entries, path),
    decreases entries.len(),
{
    if k == entries.len() - 1 {
        assert(entries.remove(k) =~= entries.drop_last());
    } else {
        lemma_without_remove(entries.drop_last(), path, k);
        assert(entries.remove(k).drop_last() =~= entries.drop_last().remove(k));
        assert(entries.remove(k).last() == entries.last());
    }
}

/// Where no entry has the path, nothing is left out.
pub proof fn lemma_without_absent(entries: Seq<Entry>, path: Seq<char>)
    requires
        !holds(entries, path),
    ensures
        without(entries, path) == entries,
    decreases entries.len(),
{
    if entries.len() > 0 {
        assert(entries.last() == entries[entries.len() - 1]);
        assert forall|i: int| 0 <= i < entries.len() - 1 implies (
        #[trigger] entries.drop_last()[i]).path != path by {
            assert(entries.drop_last()[i] == entries[i]);
        }
        lemma_without_absent(entries.drop_last(), path);
        assert(entries.drop_last().push(entries.last()) =~= entries);
    }
}

/// Where the paths are distinct and the entry at `k` has the path, that
/// entry alone is left out.
pub proof fn lemma_without_present(entries: Seq<Entry>, path: Seq<char>, k: int)
    requires
        distinct_paths(entries),
        0 <= k < entries.len(),
        entries[k].path == path,
    ensures
        without(entries, path) == entries.remove(k),
{
    lemma_without_remove(entries, path, k);
    let rest = entries.remove(k);
    assert forall|i: int| 0 <= i < rest.len() implies (#[trigger] rest[i]).path != path by {
        if i < k {
            assert(rest[i] == entries[i]);
        } else {
            assert(rest[i] == entries[i + 1]);
        }
    }
    lemma_without_absent(rest, path);
}

/// Recording keeps a store well formed: afterwards it is within its capacity
/// and its paths are distinct.
pub proof fn lemma_recorded_well_formed(entries: Seq<Entry>, entry: Entry)
    requires
        well_formed(entries),
    ensures
        well_formed(recorded(entries, entry)),
        recorded(entries, entry).len() > 0,
        recorded(entries, entry)[0] == entry,
{
    let rest = without(entries, entry.path);
    let all = seq![entry] + rest;
    if holds(entries, entry.path) {
        let k = choose|k: int| 0 <= k < entries.len() && (#[trigger] entries[k]).path
            == entry.path;
        lemma_without_present(entries, entry.path, k);
        assert forall|i: int, j: int| 0 <= i < j < all.len() implies (#[trigger] all[i]).path != (
        #[trigger] all[j]).path by {
            let jj = if j - 1 < k { j - 1 } else { j };
            assert(all[j] == entries[jj]);
            if i > 0 {
                let ii = if i - 1 < k { i - 1 } else { i };
                assert(all[i] == entries[ii]);
            }
        }
    } else {
        lemma_without_absent(entries, entry.path);
        assert forall|i: int, j: int| 0 <= i < j < all.len() implies (#[trigger] all[i]).path != (
        #[trigger] all[j]).path by {
            assert(all[j] == entries[j - 1]);
            if i > 0 {
                assert(all[i] == entries[i - 1]);
            }
        }
    }
    let r = recorded(entries, entry);
    assert forall|i: int, j: int| 0 <= i < j < r.len() implies (#[trigger] r[i]).path != (
    #[trigger] r[j]).path by {
        assert(r[i] == all[i] && r[j] == all[j]);
    }
}

/// Recording a path that the store holds moves it to the front: the new
/// entry comes first, the others keep their order, the store is as long as
/// it was and no path stands in it twice.
pub proof fn lemma_record_again(entries: Seq<Entry>, entry: Entry, k: int)
    requires
        well_formed(entries),
        0 <= k < entries.len(),
        entries[k].path == entry.path,
    ensures
        recorded(entries, entry) == seq![entry] + entries.remove(k),
        recorded(entries, entry)[0] == entry,
        recorded(entries, entry).len() == entries.len(),
        distinct_paths(recorded(entries, entry)),
{
    lemma_without_present(entries, entry.path, k);
    lemma_recorded_well_formed(entries, entry);
}

/// Recording a path that the store does not hold puts it in front of the
/// others, of which the last one leaves where the store was full.
pub proof fn lemma_record_new(entries: Seq<Entry>, entry: Entry)
    requires
        well_formed(entries),
        !holds(entries, entry.path),
    ensures
        recorded(entries, entry) == capped(seq![entry] + entries),
        entries.len() < CAPACITY ==> recorded(entries, entry).len() == entries.len() + 1,
        entries.len() == CAPACITY ==> recorded(entries, entry).len() == CAPACITY,
{
    lemma_without_absent(entries, entry.path);
}

/// Whatever list seeds a store, the store is well formed.
pub proof fn lemma_seeded_well_formed(entries: Seq<Entry>)
    ensures
        well_formed(seeded(entries)),
    decreases entries.len(),
{
    if entries.len() > 0 {
        lemma_seeded_well_formed(entries.drop_first());
        lemma_recorded_well_formed(seeded(entries.drop_first()), entries[0]);
    }
}

/// A well-formed list seeds the store that holds just that list: what a
/// store lists, written down and read again, gives the same store with
/// every path, name and time as it was.
pub proof fn lemma_seeded_round_trip(entries: Seq<Entry>)
    requires
        well_formed(entries),
    ensures
        seeded(entries) == entries,
    decreases entries.len(),
{
    if entries.len() > 0 {
        let rest = entries.drop_first();
        assert forall|i: int, j: int| 0 <= i < j < rest.len() implies (#[trigger] rest[i]).path
            != (#[trigger] rest[j]).path by {
            assert(rest[i] == entries[i + 1] && rest[j] == entries[j + 1]);
        }
        lemma_seeded_round_trip(rest);
        assert(!holds(rest, entries[0].path)) by {
            if holds(rest, entries[0].path) {
                let i = choose|i: int| 0 <= i < rest.len() && (#[trigger] rest[i]).path
                    == entries[0].path;
                assert(rest[i] == entries[i + 1]);
            }
        }
        lemma_without_absent(rest, entries[0].path);
        assert(seq![entries[0]] + rest =~= entries);
    }
}

/// The empty list seeds the empty store.
pub proof fn lemma_seeded_empty()
    ensures
        seeded(Seq::<Entry>::empty()) == Seq::<Entry>::empty(),
{
}

/// What reading the persisted snapshot gave.
#[derive(Debug, PartialEq, Eq)]
pub enum Snapshot {
    /// There is no snapshot.
    Absent,
    /// The snapshot could not be read; the text says why.
    Unreadable(String),
    /// The snapshot was read and could not be decoded; the text says why.
    Corrupt(String),
    /// The entries that the snapshot holds, in its order.
    Entries(Vec<RecentFile>),
}

impl Snapshot {
    /// The entries that the snapshot gives: its own where it was decoded,
    /// none otherwise.
    pub open spec fn entries(self) -> Seq<Entry> {
        match self {
            Snapshot::Entries(list) => entries_of(list@),
            _ => Seq::empty(),
        }
    }
}

/// A snapshot that is absent, or that was not read or not decoded, gives no
/// entries and so seeds the empty store: a session that starts on such a
/// snapshot starts with the store that `default` gives.
pub proof fn lemma_unusable_snapshot(snapshot: Snapshot)
    requires
        !(snapshot is Entries),
    ensures
        snapshot.entries() == Seq::<Entry>::empty(),
        seeded(snapshot.entries()) == Seq::<Entry>::empty(),
        well_formed(seeded(snapshot.entries())),
{
}

impl View for AppState {
    type V = Seq<Entry>;

    open spec fn view(&self) -> Seq<Entry> {
        entries_of(self.recent_files@)
    }
}

impl Default for AppState {
    /// The empty store.
    fn default() -> (r: Self)
        ensures
            r@ == Seq::<Entry>::empty(),
            r.is_well_formed(),
    {
        let r = AppState { recent_files: Vec::new() };
        assert(r@ =~= Seq::<Entry>::empty());
        r
    }
}

impl AppState {
    /// The store is within its capacity and no path stands in it twice.
    pub open spec fn is_well_formed(&self) -> bool {
        well_formed(self@)
    }

    /// Takes out every entry that has the path.
    fn forget(&mut self, path: &String)
        ensures
            final(self)@ == without(old(self)@, path@),
    {
        let mut i: usize = 0;
        while i < self.recent_files.len()
            invariant
                i <= self.recent_files.len(),
                without(self@, path@) == without(old(self)@, path@),
                forall|j: int| 0 <= j < i ==> (#[trigger] self@[j]).path != path@,
            decreases self.recent_files.len() - i,
        {
            if self.recent_files[i].path == *path {
                proof {
                    lemma_without_remove(self@, path@, i as int);
                    assert(entries_of(self.recent_files@.remove(i as int)) =~= self@.remove(
                        i as int,
                    ));
                }
                let ghost before = self@;
                self.recent_files.remove(i);
                assert forall|j: int| 0 <= j < i implies (#[trigger] self@[j]).path != path@ by {
                    assert(self@[j] == before[j]);
                }
            } else {
                i += 1;
            }
        }
        proof {
            lemma_without_absent(self@, path@);
        }
    }

    /// Records an access with the entry that describes it: the entry comes
    /// first, an earlier entry of its path goes, and the store is cut to
    /// its capacity.
    pub fn record_entry(&mut self, entry: RecentFile)
        ensures
            final(self)@ == recorded(old(self)@, entry@),
            final(self)@.len() <= CAPACITY,
            old(self).is_well_formed() ==> final(self).is_well_formed(),
    {
        self.forget(&entry.path);
        let ghost rest = self@;
        self.recent_files.insert(0, entry);
        assert(self@ =~= seq![entry@] + rest);
        self.recent_files.truncate(CAPACITY);
        assert(self@ =~= capped(seq![entry@] + rest));
        proof {
            if old(self).is_well_formed() {
                lemma_recorded_well_formed(old(self)@, entry@);
            }
        }
    }

    /// Records an access to `path`, shown as `name`, at the moment `when`.
    pub fn record_at(&mut self, path: String, name: String, when: NaiveDateTime)
        ensures
            final(self)@ == recorded(
                old(self)@,
                Entry { path: path@, name: name@, last_opened: when },
            ),
            old(self).is_well_formed() ==> final(self).is_well_formed(),
    {
        self.record_entry(RecentFile { path, name, last_opened: when });
    }

    /// Records an access to `path`, shown as `name`, at the present moment.
    pub fn record_access(&mut self, path: String, name: String)
        ensures
            exists|when: NaiveDateTime|
                final(self)@ == recorded(
                    old(self)@,
                    Entry { path: path@, name: name@, last_opened: when },
                ),
            old(self).is_well_formed() ==> final(self).is_well_formed(),
    {
        let when = now();
        self.record_at(path, name, when);
    }

    /// The entries, most recent first.
    pub fn list(&self) -> (r: Vec<RecentFile>)
        ensures
            entries_of(r@) == self@,
    {
        let mut r: Vec<RecentFile> = Vec::new();
        let mut i: usize = 0;
        while i < self.recent_files.len()
            invariant
                i <= self.recent_files.len(),
                entries_of(r@) == self@.take(i as int),
            decreases self.recent_files.len() - i,
        {
            let f = self.recent_files[i].clone();
            proof {
                assert(self@[i as int] == self.recent_files@[i as int]@);
                assert(f@ == self@[i as int]);
                assert(entries_of(r@.push(f)) =~= entries_of(r@).push(f@));
                assert(entries_of(r@.push(f)) =~= self@.take(i + 1));
            }
            r.push(f);
            i += 1;
        }
        assert(self@.take(self.recent_files.len() as int) =~= self@);
        r
    }

    /// Empties the store.
    pub fn clear(&mut self)
        ensures
            final(self)@ == Seq::<Entry>::empty(),
            final(self).is_well_formed(),
    {
        self.recent_files.clear();
        assert(self@ =~= Seq::<Entry>::empty());
    }

    /// The store that a list of entries seeds.
    pub fn from_entries(entries: Vec<RecentFile>) -> (r: Self)
        ensures
            r@ == seeded(entries_of(entries@)),
            r.is_well_formed(),
            well_formed(entries_of(entries@)) ==> r@ == entries_of(entries@),
    {
        let ghost all = entries_of(entries@);
        let mut rest = entries;
        let mut state = AppState::default();
        proof {
            assert(all.skip(all.len() as int) =~= Seq::<Entry>::empty());
        }
        while rest.len() > 0
            invariant
                rest.len() <= all.len(),
                entries_of(rest@) == all.take(rest.len() as int),
                state@ == seeded(all.skip(rest.len() as int)),
            decreases rest.len(),
        {
            let ghost k = rest.len() as int;
            let ghost before = rest@;
            let last = rest.pop().unwrap();
            proof {
                assert(last@ == entries_of(before)[k - 1]);
                assert(last@ == all[k - 1]);
                assert(all.skip(k - 1).drop_first() =~= all.skip(k));
                assert(all.skip(k - 1)[0] == all[k - 1]);
                assert(entries_of(rest@) =~= all.take(k - 1));
            }
            state.record_entry(last);
        }
        proof {
            assert(all.skip(0) =~= all);
            lemma_seeded_well_formed(all);
            if well_formed(all) {
                lemma_seeded_round_trip(all);
            }
        }
        state
    }

    /// The store at the start of a session: seeded by the snapshot where it
    /// was decoded, empty where there is none or it could not be read or
    /// decoded.
    pub fn load_or_default(snapshot: Snapshot) -> (r: Self)
        ensures
            r@ == seeded(snapshot.entries()),
            r.is_well_formed(),
            !(snapshot is Entries) ==> r@ == Seq::<Entry>::empty(),
            well_formed(snapshot.entries()) ==> r@ == snapshot.entries(),
    {
        match snapshot {
            Snapshot::Entries(list) => AppState::from_entries(list),
            _ => AppState::default(),
        }
    }
}

} // verus!
