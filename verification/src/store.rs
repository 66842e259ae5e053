//! The store: for every versioned key its history, and beside them the plain
//! records that hold one value each.

use crate::history::{latest_value, value_as_of, History, Versions};
use crate::table::Table;
use vstd::prelude::*;

verus! {

/// The mathematical model of a store.
pub struct StoreView {
    /// The history of each versioned key that was ever written.
    pub versioned: Map<Seq<char>, Versions>,
    /// The value of each plain key that was ever set.
    pub plain: Map<Seq<char>, Seq<char>>,
}

impl StoreView {
    /// The store that holds nothing.
    pub open spec fn empty() -> StoreView {
        StoreView { versioned: Map::empty(), plain: Map::empty() }
    }

    /// The history of `key`: empty for a key that was never written.
    pub open spec fn history(self, key: Seq<char>) -> Versions {
        if self.versioned.dom().contains(key) {
            self.versioned[key]
        } else {
            Map::empty()
        }
    }

    /// The store after `value` is recorded for `key` at `height`.
    pub open spec fn put(self, key: Seq<char>, height: u32, value: Seq<char>) -> StoreView {
        StoreView {
            versioned: self.versioned.insert(key, self.history(key).insert(height, value)),
            plain: self.plain,
        }
    }

    /// The store after the plain record `key` is set to `value`.
    pub open spec fn set(self, key: Seq<char>, value: Seq<char>) -> StoreView {
        StoreView { versioned: self.versioned, plain: self.plain.insert(key, value) }
    }

    /// The value of `key` in force at `height`.
    pub open spec fn as_of(self, key: Seq<char>, height: u32) -> Option<Seq<char>> {
        value_as_of(self.history(key), height)
    }

    /// The value of `key` at its greatest recorded height.
    pub open spec fn latest(self, key: Seq<char>) -> Option<Seq<char>> {
        latest_value(self.history(key))
    }

    /// The value of the plain record `key`.
    pub open spec fn get(self, key: Seq<char>) -> Option<Seq<char>> {
        if self.plain.dom().contains(key) {
            Some(self.plain[key])
        } else {
            None
        }
    }
}

/// A key with the encoded value that is stored under it.
#[derive(Debug)]
pub struct Record {
    pub key: String,
    pub value: String,
}

/// The mathematical model of a record: the text of its key and of its value.
pub struct RecordText {
    pub key: Seq<char>,
    pub value: Seq<char>,
}

impl View for Record {
    type V = RecordText;

    open spec fn view(&self) -> RecordText {
        RecordText { key: self.key@, value: self.value@ }
    }
}

/// The texts of a list of records.
pub open spec fn texts_of(records: Seq<Record>) -> Seq<RecordText> {
    Seq::new(records.len(), |i: int| records[i]@)
}

/// The store after each of `records` is set as a plain record, in order.
pub open spec fn all_set(store: StoreView, records: Seq<RecordText>) -> StoreView
    decreases records.len(),
{
    if records.len() == 0 {
        store
    } else {
        all_set(store, records.drop_last()).set(records.last().key, records.last().value)
    }
}

/// Setting records changes no versioned record, and no plain record but
/// theirs.
pub proof fn lemma_all_set_apart(store: StoreView, records: Seq<RecordText>, key: Seq<char>)
    requires
        forall|i: int| 0 <= i < records.len() ==> key != records[i].key,
    ensures
        all_set(store, records).get(key) == store.get(key),
        all_set(store, records).versioned == store.versioned,
    decreases records.len(),
{
    if records.len() > 0 {
        lemma_all_set_apart(store, records.drop_last(), key);
        if forall|i: int| 0 <= i < records.drop_last().len() ==> key != records.drop_last()[i].key {
        } else {
            let i = choose|i: int|
                0 <= i < records.drop_last().len() && key == records.drop_last()[i].key;
            assert(records[i].key == key);
        }
    }
}

/// Setting records changes no versioned record.
pub proof fn lemma_all_set_versioned(store: StoreView, records: Seq<RecordText>)
    ensures
        all_set(store, records).versioned == store.versioned,
    decreases records.len(),
{
    if records.len() > 0 {
        lemma_all_set_versioned(store, records.drop_last());
    }
}

/// After records are set, a record whose key none of the later ones has is
/// found under its key.
pub proof fn lemma_all_set_found(store: StoreView, records: Seq<RecordText>, at: int)
    requires
        0 <= at < records.len(),
        forall|i: int| at < i < records.len() ==> records[i].key != records[at].key,
    ensures
        all_set(store, records).get(records[at].key) == Some(records[at].value),
    decreases records.len(),
{
    if at < records.len() - 1 {
        assert(records.drop_last()[at] == records[at]);
        assert forall|i: int| at < i < records.drop_last().len() implies records.drop_last()[i].key
            != records.drop_last()[at].key by {
            assert(records.drop_last()[i] == records[i]);
        }
        lemma_all_set_found(store, records.drop_last(), at);
    }
}

/// A value written for a key at `height` is read back for that key at
/// `height` and at every later height up to the key's next recorded one.
pub proof fn lemma_put_then_as_of(
    store: StoreView,
    key: Seq<char>,
    height: u32,
    value: Seq<char>,
    at: u32,
)
    requires
        height <= at,
        forall|h: u32| height < h <= at ==> !store.history(key).dom().contains(h),
    ensures
        store.put(key, height, value).as_of(key, at) == Some(value),
{
    crate::history::lemma_put_then_as_of(store.history(key), height, value, at);
}

/// A read for a key before the key's first recorded height finds nothing.
pub proof fn lemma_as_of_before_first(store: StoreView, key: Seq<char>, at: u32)
    requires
        forall|h: u32| store.history(key).dom().contains(h) ==> at < h,
    ensures
        store.as_of(key, at) is None,
{
    crate::history::lemma_as_of_before_first(store.history(key), at);
}

/// The latest value of a key is the one at its greatest recorded height.
/// With `lemma_put_order` this holds in whatever order the heights were
/// written.
pub proof fn lemma_latest_is_at_max(store: StoreView, key: Seq<char>, top: u32)
    requires
        store.history(key).dom().contains(top),
        forall|h: u32| store.history(key).dom().contains(h) ==> h <= top,
    ensures
        store.latest(key) == Some(store.history(key)[top]),
{
    crate::history::lemma_latest_is_at_max(store.history(key), top);
}

/// Two writes for one key at different heights give the same store in
/// either order.
pub proof fn lemma_put_order(
    store: StoreView,
    key: Seq<char>,
    first: u32,
    first_value: Seq<char>,
    second: u32,
    second_value: Seq<char>,
)
    requires
        first != second,
    ensures
        store.put(key, first, first_value).put(key, second, second_value) == store.put(
            key,
            second,
            second_value,
        ).put(key, first, first_value),
{
    crate::history::lemma_put_order(
        store.history(key),
        first,
        first_value,
        second,
        second_value,
    );
    assert(store.put(key, first, first_value).put(key, second, second_value).versioned
        =~= store.put(key, second, second_value).put(key, first, first_value).versioned);
}

/// A write that is made again changes nothing: the store is the same after
/// the second of two equal writes as after the first.
pub proof fn lemma_put_again(store: StoreView, key: Seq<char>, height: u32, value: Seq<char>)
    ensures
        store.put(key, height, value).put(key, height, value) == store.put(key, height, value),
{
    crate::history::lemma_put_again(store.history(key), height, value, value);
    assert(store.put(key, height, value).put(key, height, value).versioned =~= store.put(
        key,
        height,
        value,
    ).versioned);
}

/// A write for one key changes no read for another key, and no plain
/// record; setting a plain record changes no versioned read.
pub proof fn lemma_writes_apart(
    store: StoreView,
    key: Seq<char>,
    height: u32,
    value: Seq<char>,
    other: Seq<char>,
    at: u32,
)
    ensures
        other != key ==> store.put(key, height, value).as_of(other, at) == store.as_of(other, at),
        store.put(key, height, value).get(other) == store.get(other),
        store.set(key, value).as_of(other, at) == store.as_of(other, at),
        other != key ==> store.set(key, value).get(other) == store.get(other),
        store.set(key, value).get(key) == Some(value),
{
}

/// What a read returns for a key was recorded for it at a height that is
/// not above the one asked for: a reader that asks as of the published
/// height sees nothing of later heights.
pub proof fn lemma_as_of_not_above(store: StoreView, key: Seq<char>, at: u32)
    ensures
        store.as_of(key, at) matches Some(value) ==> exists|h: u32|
            h <= at && store.history(key).dom().contains(h) && store.history(key)[h] == value,
{
    crate::history::lemma_as_of_not_above(store.history(key), at);
}

/// The versioned state store, held in memory.
pub struct Store {
    versioned: Table<History>,
    plain: Table<String>,
}

impl View for Store {
    type V = StoreView;

    closed spec fn view(&self) -> StoreView {
        StoreView {
            versioned: self.versioned@.map_values(|history: History| history@),
            plain: self.plain@.map_values(|value: String| value@),
        }
    }
}

impl Store {
    /// A store that holds nothing.
    pub fn new() -> (out: Store)
        ensures
            out@ == StoreView::empty(),
    {
        let out = Store { versioned: Table::new(), plain: Table::new() };
        assert(out@.versioned =~= Map::empty());
        assert(out@.plain =~= Map::empty());
        out
    }

    /// Records `value` for `key` at `height`, beside the versions that the
    /// key has already. A value already recorded at that height is replaced.
    pub fn put(&mut self, key: String, height: u32, value: String)
        ensures
            final(self)@ == old(self)@.put(key@, height, value@),
    {
        let mut history = match self.versioned.remove(&key) {
            Some(history) => history,
            None => History::new(),
        };
        history.put(height, value);
        self.versioned.insert(key, history);
        assert(self@.versioned =~= old(self)@.put(key@, height, value@).versioned);
    }

    /// The value of `key` in force at `height`: the one recorded at the
    /// greatest height that is not above it. `None` where the key has no
    /// version by then.
    pub fn get_as_of(&self, key: &str, height: u32) -> (out: Option<&str>)
        ensures
            out is Some <==> self@.as_of(key@, height) is Some,
            out matches Some(value) ==> self@.as_of(key@, height) == Some(value@),
    {
        let owned = key.to_owned();
        match self.versioned.get(&owned) {
            Some(history) => history.get_as_of(height),
            None => {
                proof {
                    crate::history::lemma_floor_height_none(Versions::empty(), height);
                }
                None
            },
        }
    }

    /// The value of `key` at its greatest recorded height, or `None` for a
    /// key that was never written.
    pub fn get_latest(&self, key: &str) -> (out: Option<&str>)
        ensures
            out is Some <==> self@.latest(key@) is Some,
            out matches Some(value) ==> self@.latest(key@) == Some(value@),
    {
        self.get_as_of(key, u32::MAX)
    }

    /// Sets the plain record `key` to `value`, in place of what it held.
    pub fn set(&mut self, key: String, value: String)
        ensures
            final(self)@ == old(self)@.set(key@, value@),
    {
        self.plain.insert(key, value);
        assert(self@.plain =~= old(self)@.set(key@, value@).plain);
    }

    /// Sets each of `records` as a plain record, in order.
    pub fn set_all(&mut self, records: Vec<Record>)
        ensures
            final(self)@ == all_set(old(self)@, texts_of(records@)),
    {
        let mut i: usize = 0;
        while i < records.len()
            invariant
                i <= records@.len(),
                self@ == all_set(old(self)@, texts_of(records@).subrange(0, i as int)),
            decreases records@.len() - i,
        {
            let ghost done = texts_of(records@).subrange(0, i as int);
            self.set(records[i].key.clone(), records[i].value.clone());
            assert(texts_of(records@).subrange(0, i + 1).drop_last() =~= done);
            i += 1;
        }
        assert(texts_of(records@).subrange(0, i as int) =~= texts_of(records@));
    }

    /// The value of the plain record `key`, or `None` where it was never set.
    pub fn get(&self, key: &str) -> (out: Option<&str>)
        ensures
            out is Some <==> self@.get(key@) is Some,
            out matches Some(value) ==> self@.get(key@) == Some(value@),
    {
        let owned = key.to_owned();
        match self.plain.get(&owned) {
            Some(value) => Some(value.as_str()),
            None => None,
        }
    }

    /// Empties the store: every history and every plain record is gone.
    pub fn clear(&mut self)
        ensures
            final(self)@ == StoreView::empty(),
    {
        self.versioned.clear();
        self.plain.clear();
        assert(self@.versioned =~= Map::empty());
        assert(self@.plain =~= Map::empty());
    }
}

} // verus!
