//! Map-assertion helpers: a small string-keyed mapping with get-by-key, and a
//! checker that tells exactly how a mapping falls short of a list of expected
//! key/value pairs — the missing key, or the key with both the expected and
//! the actual value. The checker never aborts by itself; the test layer turns
//! a failed check into a loud test failure.

use vstd::prelude::*;

verus! {

/// A string-keyed mapping with the usual insert-replaces semantics, viewed as
/// a `Map` from key characters to values.
pub struct KeyValueMap {
    entries: Vec<(String, i64)>,
}

/// The mapping a list of insertions builds up: each later entry overrides any
/// earlier entry with the same key.
pub closed spec fn entries_map(s: Seq<(String, i64)>) -> Map<Seq<char>, i64>
    decreases s.len(),
{
    if s.len() == 0 {
        Map::empty()
    } else {
        entries_map(s.drop_last()).insert(s.last().0@, s.last().1)
    }
}

impl View for KeyValueMap {
    type V = Map<Seq<char>, i64>;

    closed spec fn view(&self) -> Map<Seq<char>, i64> {
        entries_map(self.entries@)
    }
}

impl KeyValueMap {
    /// A new mapping holds nothing.
    pub fn new() -> (r: KeyValueMap)
        ensures
            r@ == Map::<Seq<char>, i64>::empty(),
    {
        KeyValueMap { entries: Vec::new() }
    }

    /// Binds `key` to `value`, replacing any earlier binding of the same key.
    pub fn insert(&mut self, key: String, value: i64)
        ensures
            final(self)@ == old(self)@.insert(key@, value),
    {
        let ghost pre = self.entries@;
        let ghost key_view = key@;
        self.entries.push((key, value));
        proof {
            assert(self.entries@.drop_last() =~= pre);
            assert(self.entries@.last().0@ == key_view);
        }
    }

    /// The value bound to `key`, or `None` when the mapping has no such key.
    pub fn get(&self, key: &String) -> (r: Option<i64>)
        ensures
            self@.contains_key(key@) ==> r == Some(self@[key@]),
            !self@.contains_key(key@) ==> r is None,
    {
        let mut found: Option<i64> = None;
        let mut i: usize = 0;
        while i < self.entries.len()
            invariant
                0 <= i <= self.entries@.len(),
                entries_map(self.entries@.take(i as int)).contains_key(key@)
                    ==> found == Some(entries_map(self.entries@.take(i as int))[key@]),
                !entries_map(self.entries@.take(i as int)).contains_key(key@)
                    ==> found is None,
            decreases self.entries@.len() - i,
        {
            proof {
                assert(self.entries@.take(i + 1).drop_last() =~= self.entries@.take(i as int));
                assert(self.entries@.take(i + 1).last() == self.entries@[i as int]);
            }
            if self.entries[i].0 == *key {
                found = Some(self.entries[i].1);
            }
            i = i + 1;
        }
        proof {
            assert(self.entries@.take(self.entries@.len() as int) =~= self.entries@);
        }
        found
    }
}

/// Whether the `j`-th expected pair holds of the mapping `m`.
pub open spec fn pair_ok(m: Map<Seq<char>, i64>, pairs: Seq<(String, i64)>, j: int) -> bool {
    m.contains_key(pairs[j].0@) && m[pairs[j].0@] == pairs[j].1
}

/// Whether every expected pair before position `n` holds of the mapping `m`.
pub open spec fn pairs_ok_upto(m: Map<Seq<char>, i64>, pairs: Seq<(String, i64)>, n: int) -> bool {
    forall|j: int| 0 <= j < n ==> pair_ok(m, pairs, j)
}

/// How a mapping measured up against a list of expected key/value pairs.
#[derive(Debug, PartialEq, Eq)]
pub enum MapCheckOutcome {
    /// Every expected pair is present with its expected value.
    Satisfied,
    /// The first expected pair that fails does so because its key is absent.
    MissingKey { key: String },
    /// The first expected pair that fails does so because its key is bound to
    /// `actual` instead of `expected`.
    WrongValue { key: String, expected: i64, actual: i64 },
}

/// Checks that `map` contains every `(key, value)` pair of `pairs`, reporting
/// the first pair that fails: `MissingKey` when the key is absent altogether,
/// `WrongValue` with both values when the key is bound to something else.
pub fn check_map_contains(map: &KeyValueMap, pairs: &Vec<(String, i64)>) -> (r: MapCheckOutcome)
    ensures
        (r is Satisfied) <==> pairs_ok_upto(map@, pairs@, pairs@.len() as int),
        r matches MapCheckOutcome::MissingKey { key } ==> (exists|i: int|
            0 <= i < pairs@.len()
                && #[trigger] pairs_ok_upto(map@, pairs@, i)
                && !map@.contains_key(pairs@[i].0@)
                && key@ == pairs@[i].0@),
        r matches MapCheckOutcome::WrongValue { key, expected: want, actual: got } ==> (
        exists|i: int|
            0 <= i < pairs@.len()
                && #[trigger] pairs_ok_upto(map@, pairs@, i)
                && map@.contains_key(pairs@[i].0@)
                && map@[pairs@[i].0@] != pairs@[i].1
                && key@ == pairs@[i].0@
                && want == pairs@[i].1
                && got == map@[pairs@[i].0@]),
{
    let mut i: usize = 0;
    while i < pairs.len()
        invariant
            0 <= i <= pairs@.len(),
            pairs_ok_upto(map@, pairs@, i as int),
        decreases pairs@.len() - i,
    {
        match map.get(&pairs[i].0) {
            None => {
                proof {
                    assert(!pair_ok(map@, pairs@, i as int));
                    assert(!pairs_ok_upto(map@, pairs@, pairs@.len() as int)) by {
                        if pairs_ok_upto(map@, pairs@, pairs@.len() as int) {
                            assert(pair_ok(map@, pairs@, i as int));
                        }
                    }
                }
                return MapCheckOutcome::MissingKey { key: pairs[i].0.clone() };
            },
            Some(actual) => {
                if actual != pairs[i].1 {
                    proof {
                        assert(!pair_ok(map@, pairs@, i as int));
                        assert(!pairs_ok_upto(map@, pairs@, pairs@.len() as int)) by {
                            if pairs_ok_upto(map@, pairs@, pairs@.len() as int) {
                                assert(pair_ok(map@, pairs@, i as int));
                            }
                        }
                    }
                    return MapCheckOutcome::WrongValue {
                        key: pairs[i].0.clone(),
                        expected: pairs[i].1,
                        actual,
                    };
                }
            },
        }
        proof {
            assert(pair_ok(map@, pairs@, i as int));
        }
        i = i + 1;
    }
    MapCheckOutcome::Satisfied
}

} // verus!
