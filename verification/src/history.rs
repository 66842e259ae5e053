//! One key's version history: the values recorded for it, by block height,
//! and the point-in-time reads over them.

use vstd::prelude::*;

verus! {

/// The mathematical model of a history: the value recorded at each height.
pub type Versions = Map<u32, Seq<char>>;

/// The greatest recorded height that is not above `height`, if there is one.
pub open spec fn floor_height(versions: Versions, height: u32) -> Option<u32>
    decreases height,
{
    if versions.dom().contains(height) {
        Some(height)
    } else if height == 0 {
        None
    } else {
        floor_height(versions, (height - 1) as u32)
    }
}

/// The value in force at `height`: the one recorded at the greatest height
/// that is not above it.
pub open spec fn value_as_of(versions: Versions, height: u32) -> Option<Seq<char>> {
    match floor_height(versions, height) {
        Some(at) => Some(versions[at]),
        None => None,
    }
}

/// The value recorded at the greatest height of all.
pub open spec fn latest_value(versions: Versions) -> Option<Seq<char>> {
    value_as_of(versions, u32::MAX)
}

/// `floor_height` names a recorded height at or below the one asked for,
/// with no recorded height between the two; it is `None` only where nothing
/// is recorded at or below the height asked for.
pub proof fn lemma_floor_height(versions: Versions, height: u32)
    ensures
        match floor_height(versions, height) {
            Some(at) => {
                &&& at <= height
                &&& versions.dom().contains(at)
                &&& forall|h: u32| at < h <= height ==> !versions.dom().contains(h)
            },
            None => forall|h: u32| h <= height ==> !versions.dom().contains(h),
        },
    decreases height,
{
    if !versions.dom().contains(height) && height != 0 {
        lemma_floor_height(versions, (height - 1) as u32);
    }
}

/// A recorded height with nothing recorded between it and `height` is the
/// floor of `height`.
pub proof fn lemma_floor_height_is(versions: Versions, height: u32, at: u32)
    requires
        at <= height,
        versions.dom().contains(at),
        forall|h: u32| at < h <= height ==> !versions.dom().contains(h),
    ensures
        floor_height(versions, height) == Some(at),
        value_as_of(versions, height) == Some(versions[at]),
{
    lemma_floor_height(versions, height);
}

/// Where nothing is recorded at or below `height`, nothing is in force there.
pub proof fn lemma_floor_height_none(versions: Versions, height: u32)
    requires
        forall|h: u32| h <= height ==> !versions.dom().contains(h),
    ensures
        floor_height(versions, height) is None,
        value_as_of(versions, height) is None,
{
    lemma_floor_height(versions, height);
}

/// A value written at `height` is read back at `height` and at every later
/// height up to the next recorded one.
pub proof fn lemma_put_then_as_of(versions: Versions, height: u32, value: Seq<char>, at: u32)
    requires
        height <= at,
        forall|h: u32| height < h <= at ==> !versions.dom().contains(h),
    ensures
        value_as_of(versions.insert(height, value), at) == Some(value),
{
    lemma_floor_height_is(versions.insert(height, value), at, height);
}

/// A write does not change what is read below its height, nor what is read
/// at or above a later recorded height.
pub proof fn lemma_put_elsewhere(versions: Versions, height: u32, value: Seq<char>, at: u32)
    requires
        at < height || exists|h: u32| height < h <= at && versions.dom().contains(h),
    ensures
        value_as_of(versions.insert(height, value), at) == value_as_of(versions, at),
{
    let after = versions.insert(height, value);
    lemma_floor_height(versions, at);
    match floor_height(versions, at) {
        Some(found) => {
            lemma_floor_height_is(after, at, found);
        },
        None => {
            lemma_floor_height_none(after, at);
        },
    }
}

/// Before the first recorded height nothing is read.
pub proof fn lemma_as_of_before_first(versions: Versions, at: u32)
    requires
        forall|h: u32| versions.dom().contains(h) ==> at < h,
    ensures
        value_as_of(versions, at) is None,
{
    lemma_floor_height_none(versions, at);
}

/// The latest value is the one at the greatest recorded height.
pub proof fn lemma_latest_is_at_max(versions: Versions, top: u32)
    requires
        versions.dom().contains(top),
        forall|h: u32| versions.dom().contains(h) ==> h <= top,
    ensures
        latest_value(versions) == Some(versions[top]),
{
    lemma_floor_height_is(versions, u32::MAX, top);
}

/// Writes at different heights give the same history in either order, so
/// every read, the latest included, is independent of the order of writes.
pub proof fn lemma_put_order(
    versions: Versions,
    first: u32,
    first_value: Seq<char>,
    second: u32,
    second_value: Seq<char>,
)
    requires
        first != second,
    ensures
        versions.insert(first, first_value).insert(second, second_value) == versions.insert(
            second,
            second_value,
        ).insert(first, first_value),
{
    assert(versions.insert(first, first_value).insert(second, second_value) =~= versions.insert(
        second,
        second_value,
    ).insert(first, first_value));
}

/// Writing the same value again at the same height changes nothing, and of
/// two writes at one height the later one stands.
pub proof fn lemma_put_again(versions: Versions, height: u32, value: Seq<char>, other: Seq<char>)
    ensures
        versions.insert(height, value).insert(height, value) == versions.insert(height, value),
        versions.insert(height, other).insert(height, value) == versions.insert(height, value),
{
    assert(versions.insert(height, value).insert(height, value) =~= versions.insert(height, value));
    assert(versions.insert(height, other).insert(height, value) =~= versions.insert(height, value));
}

/// What a read returns was recorded at a height that is not above the one
/// asked for.
pub proof fn lemma_as_of_not_above(versions: Versions, at: u32)
    ensures
        value_as_of(versions, at) matches Some(value) ==> exists|h: u32|
            h <= at && versions.dom().contains(h) && versions[h] == value,
{
    lemma_floor_height(versions, at);
}

/// One recorded version.
pub struct Version {
    pub height: u32,
    pub value: String,
}

/// Whether the heights of `list` rise strictly from one version to the next.
pub open spec fn ascending(list: Seq<Version>) -> bool {
    forall|i: int, j: int| 0 <= i < j < list.len() ==> list[i].height < list[j].height
}

/// The history that a list of versions stands for.
pub open spec fn versions_of(list: Seq<Version>) -> Versions {
    Map::new(
        |h: u32| exists|i: int| 0 <= i < list.len() && list[i].height == h,
        |h: u32| list[choose|i: int| 0 <= i < list.len() && list[i].height == h].value@,
    )
}

/// In an ascending list each version is the one that the history holds at
/// its height.
proof fn lemma_versions_of_index(list: Seq<Version>, i: int)
    requires
        ascending(list),
        0 <= i < list.len(),
    ensures
        versions_of(list).dom().contains(list[i].height),
        versions_of(list)[list[i].height] == list[i].value@,
{
    let h = list[i].height;
    let k = choose|k: int| 0 <= k < list.len() && list[k].height == h;
    assert(k == i) by {
        if k < i {
            assert(list[k].height < list[i].height);
        } else if i < k {
            assert(list[i].height < list[k].height);
        }
    }
}

/// Putting a version in at its place in an ascending list records it in the
/// history.
proof fn lemma_insert_version(list: Seq<Version>, at: int, version: Version)
    requires
        ascending(list),
        0 <= at <= list.len(),
        forall|i: int| 0 <= i < at ==> list[i].height < version.height,
        forall|i: int| at <= i < list.len() ==> version.height < list[i].height,
    ensures
        ascending(list.insert(at, version)),
        versions_of(list.insert(at, version)) == versions_of(list).insert(
            version.height,
            version.value@,
        ),
{
    let after = list.insert(at, version);
    assert(ascending(after));
    let want = versions_of(list).insert(version.height, version.value@);
    assert forall|h: u32| #[trigger]
        versions_of(after).dom().contains(h) implies want.dom().contains(h) by {
        let i = choose|i: int| 0 <= i < after.len() && after[i].height == h;
        if i < at {
            assert(list[i].height == h);
        } else if i > at {
            assert(list[i - 1].height == h);
        }
    }
    assert forall|h: u32| #[trigger] want.dom().contains(h) implies versions_of(after).dom().contains(
        h,
    ) && versions_of(after)[h] == want[h] by {
        if h == version.height {
            assert(after[at].height == h);
            lemma_versions_of_index(after, at);
        } else {
            let i = choose|i: int| 0 <= i < list.len() && list[i].height == h;
            lemma_versions_of_index(list, i);
            if i < at {
                assert(after[i] == list[i]);
                lemma_versions_of_index(after, i);
            } else {
                assert(after[i + 1] == list[i]);
                lemma_versions_of_index(after, i + 1);
            }
        }
    }
    assert(versions_of(after) =~= want);
}

/// Replacing the version at one height of an ascending list records the new
/// value in the history.
proof fn lemma_replace_version(list: Seq<Version>, at: int, version: Version)
    requires
        ascending(list),
        0 <= at < list.len(),
        list[at].height == version.height,
    ensures
        ascending(list.update(at, version)),
        versions_of(list.update(at, version)) == versions_of(list).insert(
            version.height,
            version.value@,
        ),
{
    let after = list.update(at, version);
    assert(ascending(after)) by {
        assert forall|i: int, j: int| 0 <= i < j < after.len() implies after[i].height
            < after[j].height by {
            assert(list[i].height < list[j].height);
        }
    }
    let want = versions_of(list).insert(version.height, version.value@);
    assert forall|h: u32| #[trigger]
        versions_of(after).dom().contains(h) implies want.dom().contains(h) by {
        let i = choose|i: int| 0 <= i < after.len() && after[i].height == h;
        assert(list[i].height == h);
    }
    assert forall|h: u32| #[trigger] want.dom().contains(h) implies versions_of(after).dom().contains(
        h,
    ) && versions_of(after)[h] == want[h] by {
        if h == version.height {
            assert(after[at].height == h);
            lemma_versions_of_index(after, at);
        } else {
            let i = choose|i: int| 0 <= i < list.len() && list[i].height == h;
            lemma_versions_of_index(list, i);
            assert(after[i] == list[i]);
            lemma_versions_of_index(after, i);
        }
    }
    assert(versions_of(after) =~= want);
}

/// The version history of one key, kept in ascending order of height.
pub struct History {
    versions: Vec<Version>,
}

impl View for History {
    type V = Versions;

    closed spec fn view(&self) -> Versions {
        versions_of(self.versions@)
    }
}

impl History {
    #[verifier::type_invariant]
    spec fn ordered(self) -> bool {
        ascending(self.versions@)
    }

    /// A history with nothing recorded.
    pub fn new() -> (out: History)
        ensures
            out@ == Versions::empty(),
    {
        let out = History { versions: Vec::new() };
        assert(out@ =~= Versions::empty());
        out
    }

    /// The number of versions whose height is below `height`, which is the
    /// place of `height` in the list.
    fn place_of(&self, height: u32) -> (at: usize)
        ensures
            at <= self.versions@.len(),
            forall|i: int| 0 <= i < at ==> self.versions@[i].height < height,
            forall|i: int| at <= i < self.versions@.len() ==> height <= self.versions@[i].height,
    {
        proof {
            use_type_invariant(self);
        }
        let mut low: usize = 0;
        let mut high: usize = self.versions.len();
        while low < high
            invariant
                low <= high <= self.versions@.len(),
                ascending(self.versions@),
                forall|i: int| 0 <= i < low ==> self.versions@[i].height < height,
                forall|i: int|
                    high <= i < self.versions@.len() ==> height <= self.versions@[i].height,
            decreases high - low,
        {
            let middle: usize = low + (high - low) / 2;
            if self.versions[middle].height < height {
                low = middle + 1;
            } else {
                high = middle;
            }
        }
        low
    }

    /// Records `value` at `height`. A value already recorded at that height
    /// is replaced: the last write stands.
    pub fn put(&mut self, height: u32, value: String)
        ensures
            final(self)@ == old(self)@.insert(height, value@),
    {
        proof {
            use_type_invariant(&*self);
        }
        let at = self.place_of(height);
        let version = Version { height, value };
        let mut versions: Vec<Version> = Vec::new();
        std::mem::swap(&mut versions, &mut self.versions);
        if at < versions.len() && versions[at].height == height {
            proof {
                lemma_replace_version(versions@, at as int, version);
            }
            versions[at] = version;
        } else {
            proof {
                lemma_insert_version(versions@, at as int, version);
            }
            versions.insert(at, version);
        }
        self.versions = versions;
    }

    /// The value in force at `height`: the one recorded at the greatest
    /// height that is not above it, or `None` where nothing was recorded by
    /// then.
    pub fn get_as_of(&self, height: u32) -> (out: Option<&str>)
        ensures
            out is Some <==> value_as_of(self@, height) is Some,
            out matches Some(value) ==> value_as_of(self@, height) == Some(value@),
    {
        proof {
            use_type_invariant(self);
        }
        let at = if height == u32::MAX {
            self.versions.len()
        } else {
            self.place_of(height + 1)
        };
        if at == 0 {
            proof {
                assert forall|h: u32| h <= height implies !self@.dom().contains(h) by {
                    if self@.dom().contains(h) {
                        let i = choose|i: int|
                            0 <= i < self.versions@.len() && self.versions@[i].height == h;
                        assert(self.versions@[i].height <= height);
                    }
                }
                lemma_floor_height_none(self@, height);
            }
            None
        } else {
            let found = &self.versions[at - 1];
            proof {
                lemma_versions_of_index(self.versions@, at - 1);
                assert forall|h: u32| found.height < h <= height implies !self@.dom().contains(
                    h,
                ) by {
                    if self@.dom().contains(h) {
                        let i = choose|i: int|
                            0 <= i < self.versions@.len() && self.versions@[i].height == h;
                        if i < at - 1 {
                            assert(self.versions@[i].height < self.versions@[at - 1].height);
                        } else if i > at - 1 {
                            assert(self.versions@[i].height > height);
                        }
                    }
                }
                lemma_floor_height_is(self@, height, found.height);
            }
            Some(found.value.as_str())
        }
    }

    /// The value recorded at the greatest height, or `None` for an empty
    /// history.
    pub fn get_latest(&self) -> (out: Option<&str>)
        ensures
            out is Some <==> latest_value(self@) is Some,
            out matches Some(value) ==> latest_value(self@) == Some(value@),
    {
        self.get_as_of(u32::MAX)
    }
}

} // verus!
