//! The decoded form of one response: an ordered sequence of key/value
//! properties (duplicates preserved in arrival order) with an optional
//! raw payload, plus the property-map and record-grouping views that the
//! typed operations read.

use vstd::prelude::*;
use vstd::string::*;
use crate::codec::str_eq;

verus! {

/// The character-sequence view of an owned property list.
pub open spec fn props_view(props: Seq<(String, String)>) -> Seq<(Seq<char>, Seq<char>)> {
    props.map_values(|p: (String, String)| (p.0@, p.1@))
}

/// The view of a list of string slices.
pub open spec fn strs_view(ss: Seq<&str>) -> Seq<Seq<char>> {
    ss.map_values(|s: &str| s@)
}

/// The view of a list of owned strings.
pub open spec fn strings_view(ss: Seq<String>) -> Seq<Seq<char>> {
    ss.map_values(|s: String| s@)
}

/// The key that announces a binary payload.
pub open spec fn binary_key() -> Seq<char> {
    seq!['b', 'i', 'n', 'a', 'r', 'y']
}

/// Whether some property of the sequence has the payload-announcing key.
pub open spec fn has_binary_key(props: Seq<(Seq<char>, Seq<char>)>) -> bool {
    exists|i: int| 0 <= i < props.len() && (#[trigger] props[i]).0 == binary_key()
}

/// A string-keyed map with the insertion semantics of a hash map built
/// from a property sequence: a later duplicate key replaces an earlier
/// one.
pub struct PropertyMap {
    entries: Vec<(String, String)>,
}

/// The map described by an entry sequence, later entries winning.
pub open spec fn map_of(entries: Seq<(Seq<char>, Seq<char>)>) -> Map<Seq<char>, Seq<char>>
    decreases entries.len(),
{
    if entries.len() == 0 {
        Map::empty()
    } else {
        map_of(entries.drop_last()).insert(entries.last().0, entries.last().1)
    }
}

/// The value of the last entry with the given key, if any: what lookup
/// in the map built from the entries returns.
pub open spec fn last_match(entries: Seq<(Seq<char>, Seq<char>)>, k: Seq<char>) -> Option<Seq<char>>
    decreases entries.len(),
{
    if entries.len() == 0 {
        None
    } else if entries.last().0 == k {
        Some(entries.last().1)
    } else {
        last_match(entries.drop_last(), k)
    }
}

proof fn lemma_map_of_last_match(entries: Seq<(Seq<char>, Seq<char>)>, k: Seq<char>)
    ensures
        map_of(entries).contains_key(k) == (last_match(entries, k) is Some),
        last_match(entries, k) matches Some(v) ==> map_of(entries)[k] == v,
    decreases entries.len(),
{
    if entries.len() > 0 {
        lemma_map_of_last_match(entries.drop_last(), k);
    }
}

impl View for PropertyMap {
    type V = Map<Seq<char>, Seq<char>>;

    closed spec fn view(&self) -> Map<Seq<char>, Seq<char>> {
        map_of(props_view(self.entries@))
    }
}

impl PropertyMap {
    /// The empty map.
    pub fn new() -> (r: Self)
        ensures
            r@ == Map::<Seq<char>, Seq<char>>::empty(),
    {
        PropertyMap { entries: Vec::new() }
    }

    /// Binds `key` to `value`, replacing any earlier binding.
    pub fn insert(&mut self, key: String, value: String)
        ensures
            final(self)@ == old(self)@.insert(key@, value@),
    {
        let ghost pre = props_view(self.entries@);
        self.entries.push((key, value));
        proof {
            assert(props_view(self.entries@).drop_last() =~= pre);
            assert(props_view(self.entries@).last() == (key@, value@));
        }
    }

    /// Looks the key up.
    pub fn get<'a>(&'a self, key: &str) -> (r: Option<&'a String>)
        ensures
            match r {
                Some(v) => self@.contains_key(key@) && self@[key@] == v@,
                None => !self@.contains_key(key@),
            },
    {
        let ghost all = props_view(self.entries@);
        proof {
            assert(all.take(self.entries.len() as int) =~= all);
        }
        let mut j = self.entries.len();
        while j > 0
            invariant
                j <= self.entries.len(),
                all == props_view(self.entries@),
                last_match(all, key@) == last_match(all.take(j as int), key@),
            decreases j,
        {
            let hit = str_eq(self.entries[j - 1].0.as_str(), key);
            proof {
                assert(all.take(j as int).last() == all[j - 1]);
                assert(all.take(j as int).drop_last() =~= all.take(j - 1));
            }
            if hit {
                proof {
                    assert(last_match(all, key@) == Some(all[j - 1].1));
                    lemma_map_of_last_match(all, key@);
                }
                return Some(&self.entries[j - 1].1);
            }
            j = j - 1;
        }
        proof {
            assert(all.take(0) =~= Seq::<(Seq<char>, Seq<char>)>::empty());
            lemma_map_of_last_match(all, key@);
        }
        None
    }

    /// Whether the map binds the key.
    pub fn contains(&self, key: &str) -> (r: bool)
        ensures
            r == self@.contains_key(key@),
    {
        match self.get(key) {
            Some(_) => true,
            None => false,
        }
    }

    /// Whether the map is empty.
    pub fn is_empty(&self) -> (r: bool)
        ensures
            r == (self@ == Map::<Seq<char>, Seq<char>>::empty()),
    {
        let ghost all = props_view(self.entries@);
        if self.entries.len() == 0 {
            proof {
                assert(all.len() == 0);
                assert(self@ =~= Map::<Seq<char>, Seq<char>>::empty());
            }
            true
        } else {
            proof {
                assert(self@.contains_key(all.last().0));
            }
            false
        }
    }
}

/// The view of one decoded response.
pub struct CommandResultView {
    pub properties: Seq<(Seq<char>, Seq<char>)>,
    pub binary: Option<Seq<u8>>,
}

impl CommandResultView {
    /// A response is well formed when the payload is present exactly if
    /// a `binary` property appeared in its property sequence.
    pub open spec fn wf(self) -> bool {
        self.binary is Some <==> has_binary_key(self.properties)
    }
}

/// One decoded response: the properties exactly as received, in arrival
/// order with duplicates preserved, plus the raw payload if the response
/// carried one.
pub struct CommandResult {
    properties: Vec<(String, String)>,
    binary: Option<Vec<u8>>,
}

impl View for CommandResult {
    type V = CommandResultView;

    closed spec fn view(&self) -> CommandResultView {
        CommandResultView {
            properties: props_view(self.properties@),
            binary: match self.binary {
                Some(b) => Some(b@),
                None => None,
            },
        }
    }
}

impl CommandResult {
    /// A response without a payload.
    pub fn new(properties: Vec<(String, String)>) -> (r: Self)
        requires
            !has_binary_key(props_view(properties@)),
        ensures
            r@.properties == props_view(properties@),
            r@.binary is None,
            r@.wf(),
    {
        CommandResult { properties, binary: None }
    }

    /// A response whose property sequence announced the given payload.
    pub fn new_binary(properties: Vec<(String, String)>, binary: Vec<u8>) -> (r: Self)
        requires
            has_binary_key(props_view(properties@)),
        ensures
            r@.properties == props_view(properties@),
            r@.binary == Some(binary@),
            r@.wf(),
    {
        CommandResult { properties, binary: Some(binary) }
    }

    /// The properties, exactly as received.
    pub fn properties(&self) -> (r: &Vec<(String, String)>)
        ensures
            props_view(r@) == self@.properties,
    {
        &self.properties
    }

    /// The raw payload, if the response carried one.
    pub fn binary(&self) -> (r: &Option<Vec<u8>>)
        ensures
            match r {
                Some(b) => self@.binary == Some(b@),
                None => self@.binary is None,
            },
    {
        &self.binary
    }

    /// Takes the response apart into its properties and payload.
    pub fn into_parts(self) -> (r: (Vec<(String, String)>, Option<Vec<u8>>))
        ensures
            props_view(r.0@) == self@.properties,
            match r.1 {
                Some(b) => self@.binary == Some(b@),
                None => self@.binary is None,
            },
    {
        (self.properties, self.binary)
    }

    /// Collapses the properties into one map, a later duplicate key
    /// replacing an earlier one.
    pub fn into_hashmap(self) -> (r: PropertyMap)
        ensures
            r@ == map_of(self@.properties),
    {
        PropertyMap { entries: self.properties }
    }

    /// Splits the properties into records and collapses each into a map.
    /// A record begins whenever one of the boundary keys reappears;
    /// properties before the first boundary key are dropped.
    pub fn into_hashmaps(self, split_at: &[&str]) -> (r: Vec<PropertyMap>)
        ensures
            r@.len() == grouped(self@.properties, strs_view(split_at@)).len(),
            forall|t: int|
                0 <= t < r@.len() ==> (#[trigger] r@[t])@ == map_of(
                    grouped(self@.properties, strs_view(split_at@))[t],
                ),
    {
        let ghost all = props_view(self.properties@);
        let ghost bounds = strs_view(split_at@);
        let mut output: Vec<PropertyMap> = Vec::new();
        let mut current: Vec<(String, String)> = Vec::new();
        let mut started = false;
        let mut i: usize = 0;
        while i < self.properties.len()
            invariant
                i <= self.properties.len(),
                all == props_view(self.properties@),
                bounds == strs_view(split_at@),
                started == (group_state(all.take(i as int), bounds).1 is Some),
                started ==> group_state(all.take(i as int), bounds).1 == Some(
                    props_view(current@),
                ),
                output@.len() == group_state(all.take(i as int), bounds).0.len(),
                forall|t: int|
                    0 <= t < output@.len() ==> (#[trigger] output@[t])@ == map_of(
                        group_state(all.take(i as int), bounds).0[t],
                    ),
            decreases self.properties.len() - i,
        {
            let key = self.properties[i].0.clone();
            let value = self.properties[i].1.clone();
            let is_bound = contains_str(split_at, key.as_str());
            proof {
                assert(all.take(i + 1).drop_last() =~= all.take(i as int));
                assert(all.take(i + 1).last() == all[i as int]);
                assert(all[i as int] == (key@, value@));
            }
            if is_bound {
                if started {
                    let done = PropertyMap { entries: current };
                    output.push(done);
                    current = Vec::new();
                } else {
                    current = Vec::new();
                }
                started = true;
                proof {
                    assert(props_view(current@) =~= Seq::<(Seq<char>, Seq<char>)>::empty());
                }
            }
            if started {
                let ghost curpre = props_view(current@);
                current.push((key, value));
                proof {
                    assert(props_view(current@).drop_last() =~= curpre);
                    assert(props_view(current@).last() == (key@, value@));
                }
            }
            i = i + 1;
        }
        proof {
            assert(all.take(self.properties.len() as int) =~= all);
        }
        if started {
            let done = PropertyMap { entries: current };
            output.push(done);
        }
        output
    }
}

/// Whether a key is one of the record-boundary keys.
pub open spec fn is_boundary(bounds: Seq<Seq<char>>, k: Seq<char>) -> bool {
    bounds.contains(k)
}

/// Walks the property sequence left to right, carrying the finished
/// records and the record currently open (if any): a boundary key closes
/// the open record and opens a fresh one; other properties join the open
/// record, or are dropped when none is open yet.
pub open spec fn group_state(
    props: Seq<(Seq<char>, Seq<char>)>,
    bounds: Seq<Seq<char>>,
) -> (Seq<Seq<(Seq<char>, Seq<char>)>>, Option<Seq<(Seq<char>, Seq<char>)>>)
    decreases props.len(),
{
    if props.len() == 0 {
        (Seq::empty(), None)
    } else {
        let st = group_state(props.drop_last(), bounds);
        let p = props.last();
        if is_boundary(bounds, p.0) {
            (
                match st.1 {
                    Some(c) => st.0.push(c),
                    None => st.0,
                },
                Some(seq![p]),
            )
        } else {
            match st.1 {
                Some(c) => (st.0, Some(c.push(p))),
                None => (st.0, None),
            }
        }
    }
}

/// The records of a property sequence, split at the boundary keys.
pub open spec fn grouped(
    props: Seq<(Seq<char>, Seq<char>)>,
    bounds: Seq<Seq<char>>,
) -> Seq<Seq<(Seq<char>, Seq<char>)>> {
    let st = group_state(props, bounds);
    match st.1 {
        Some(c) => st.0.push(c),
        None => st.0,
    }
}

/// Each record collapsed into its map.
pub open spec fn maps_of(groups: Seq<Seq<(Seq<char>, Seq<char>)>>) -> Seq<
    Map<Seq<char>, Seq<char>>,
> {
    groups.map_values(|g: Seq<(Seq<char>, Seq<char>)>| map_of(g))
}

/// Whether the key equals one of the slices.
fn contains_str(ss: &[&str], k: &str) -> (r: bool)
    ensures
        r == strs_view(ss@).contains(k@),
{
    let mut i: usize = 0;
    while i < ss.len()
        invariant
            i <= ss@.len(),
            forall|j: int| 0 <= j < i ==> strs_view(ss@)[j] != k@,
        decreases ss@.len() - i,
    {
        if str_eq(ss[i], k) {
            proof {
                assert(strs_view(ss@)[i as int] == k@);
            }
            return true;
        }
        i = i + 1;
    }
    proof {
        assert(forall|j: int| 0 <= j < strs_view(ss@).len() ==> strs_view(ss@)[j] != k@);
    }
    false
}

} // verus!
