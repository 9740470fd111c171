//! Maps from text to text: header fields and query parameters.

use crate::text::same_text;
use vstd::prelude::*;
use vstd::utf8::encode_utf8;

verus! {

/// A name and its value.
pub type Pair = (Seq<char>, Seq<char>);

/// The map that a list of pairs fills, in their order: the last value given to a name stays.
pub open spec fn to_map(pairs: Seq<Pair>) -> Map<Seq<char>, Seq<char>>
    decreases pairs.len(),
{
    if pairs.len() == 0 {
        Map::empty()
    } else {
        to_map(pairs.drop_last()).insert(pairs.last().0, pairs.last().1)
    }
}

/// Whether no name occurs twice.
pub open spec fn distinct_names(pairs: Seq<Pair>) -> bool {
    forall|i: int, j: int|
        0 <= i < j < pairs.len() ==> #[trigger] pairs[i].0 != #[trigger] pairs[j].0
}

/// The bytes that a header field takes on the wire: `name: value\r\n`.
pub open spec fn field_length(pair: Pair) -> nat {
    encode_utf8(pair.0).len() + 2 + encode_utf8(pair.1).len() + 2
}

/// The bytes that header fields take on the wire.
pub open spec fn wire_length(pairs: Seq<Pair>) -> nat
    decreases pairs.len(),
{
    if pairs.len() == 0 {
        0
    } else {
        wire_length(pairs.drop_last()) + field_length(pairs.last())
    }
}

/// A number as a 64-bit counter keeps it.
pub open spec fn wrapped(n: nat) -> u64 {
    (n % 0x1_0000_0000_0000_0000) as u64
}

/// The text of a pair of strings.
pub open spec fn pair_view(pair: (String, String)) -> Pair {
    (pair.0@, pair.1@)
}

/// The texts of pairs of strings.
pub open spec fn pair_views(pairs: Seq<(String, String)>) -> Seq<Pair> {
    Seq::new(pairs.len(), |i: int| pair_view(pairs[i]))
}

/// What a list of pairs leaves in the map it fills.
pub proof fn lemma_to_map(pairs: Seq<Pair>)
    ensures
        forall|name: Seq<char>|
            #[trigger] to_map(pairs).contains_key(name) <==> exists|i: int|
                0 <= i < pairs.len() && #[trigger] pairs[i].0 == name,
        distinct_names(pairs) ==> forall|i: int|
            0 <= i < pairs.len() ==> to_map(pairs)[(#[trigger] pairs[i]).0] == pairs[i].1,
    decreases pairs.len(),
{
    if pairs.len() > 0 {
        let rest = pairs.drop_last();
        lemma_to_map(rest);
        let map = to_map(pairs);
        assert forall|name: Seq<char>| #[trigger] map.contains_key(name) <==> exists|i: int|
            0 <= i < pairs.len() && #[trigger] pairs[i].0 == name by {
            if map.contains_key(name) {
                if name == pairs.last().0 {
                    assert(pairs[pairs.len() - 1].0 == name);
                } else {
                    assert(to_map(rest).contains_key(name));
                    let i = choose|i: int| 0 <= i < rest.len() && #[trigger] rest[i].0 == name;
                    assert(pairs[i].0 == name);
                }
            }
            if exists|i: int| 0 <= i < pairs.len() && #[trigger] pairs[i].0 == name {
                let i = choose|i: int| 0 <= i < pairs.len() && #[trigger] pairs[i].0 == name;
                if i < rest.len() {
                    assert(rest[i].0 == name);
                    assert(to_map(rest).contains_key(name));
                } else {
                    assert(name == pairs.last().0);
                }
                assert(map.contains_key(name));
            }
        }
        if distinct_names(pairs) {
            assert forall|i: int, j: int| 0 <= i < j < rest.len() implies #[trigger] rest[i].0
                != #[trigger] rest[j].0 by {
                assert(pairs[i].0 != pairs[j].0);
            }
            assert forall|i: int| 0 <= i < pairs.len() implies map[(#[trigger] pairs[i]).0]
                == pairs[i].1 by {
                if i < rest.len() {
                    assert(rest[i] == pairs[i]);
                    assert(pairs[i].0 != pairs[pairs.len() - 1].0);
                }
            }
        }
    }
}

/// Of pairs with one name the last stays.
pub proof fn law_last_pair_stays(pairs: Seq<Pair>, at: int)
    requires
        0 <= at < pairs.len(),
        forall|i: int| at < i < pairs.len() ==> (#[trigger] pairs[i]).0 != pairs[at].0,
    ensures
        to_map(pairs).contains_key(pairs[at].0),
        to_map(pairs)[pairs[at].0] == pairs[at].1,
    decreases pairs.len(),
{
    let rest = pairs.drop_last();
    if at < rest.len() {
        assert(pairs[pairs.len() - 1].0 != pairs[at].0);
        assert forall|i: int| at < i < rest.len() implies (#[trigger] rest[i]).0 != rest[at].0 by {
            assert(pairs[i].0 != pairs[at].0);
        }
        law_last_pair_stays(rest, at);
    }
}

/// Whether two maps have the same to say of a name.
spec fn agree_on(
    left: Map<Seq<char>, Seq<char>>,
    right: Map<Seq<char>, Seq<char>>,
    name: Seq<char>,
) -> bool {
    &&& left.contains_key(name) == right.contains_key(name)
    &&& left.contains_key(name) ==> left[name] == right[name]
}

/// Maps that agree on every name are the same.
proof fn lemma_maps_agree(left: Map<Seq<char>, Seq<char>>, right: Map<Seq<char>, Seq<char>>)
    requires
        forall|name: Seq<char>| #[trigger] agree_on(left, right, name),
    ensures
        left == right,
{
    assert forall|name: Seq<char>|
        #![trigger left.dom().contains(name)]
        #![trigger right.dom().contains(name)]
        #![trigger left[name]]
        #![trigger right[name]]
        left.dom().contains(name) == right.dom().contains(name) && (left.dom().contains(name)
            ==> left[name] == right[name]) by {
        assert(agree_on(left, right, name));
    }
    assert(left =~= right);
}

/// Taking one pair out takes its name out of the map.
proof fn lemma_to_map_remove(pairs: Seq<Pair>, at: int)
    requires
        distinct_names(pairs),
        0 <= at < pairs.len(),
    ensures
        to_map(pairs.remove(at)) == to_map(pairs).remove(pairs[at].0),
        distinct_names(pairs.remove(at)),
{
    let rest = pairs.remove(at);
    assert forall|i: int, j: int| 0 <= i < j < rest.len() implies #[trigger] rest[i].0
        != #[trigger] rest[j].0 by {
        let i2 = if i < at {
            i
        } else {
            i + 1
        };
        let j2 = if j < at {
            j
        } else {
            j + 1
        };
        assert(pairs[i2].0 != pairs[j2].0);
    }
    lemma_to_map(pairs);
    lemma_to_map(rest);
    let left = to_map(rest);
    let right = to_map(pairs).remove(pairs[at].0);
    assert forall|name: Seq<char>| #[trigger] agree_on(left, right, name) by {
        if left.contains_key(name) {
            let i = choose|i: int| 0 <= i < rest.len() && #[trigger] rest[i].0 == name;
            let i2 = if i < at {
                i
            } else {
                i + 1
            };
            assert(rest[i] == pairs[i2]);
            assert(pairs[i2].0 == name);
            if i2 < at {
                assert(pairs[i2].0 != pairs[at].0);
            } else {
                assert(pairs[at].0 != pairs[i2].0);
            }
            assert(to_map(pairs).contains_key(name));
        }
        if right.contains_key(name) {
            assert(to_map(pairs).contains_key(name));
            let i = choose|i: int| 0 <= i < pairs.len() && #[trigger] pairs[i].0 == name;
            let i2 = if i < at {
                i
            } else {
                i - 1
            };
            assert(rest[i2] == pairs[i]);
            assert(rest[i2].0 == name);
        }
    }
    lemma_maps_agree(left, right);
}

/// Replacing the value of a name that occurs replaces it in the map.
proof fn lemma_to_map_update(pairs: Seq<Pair>, at: int, value: Seq<char>)
    requires
        distinct_names(pairs),
        0 <= at < pairs.len(),
    ensures
        to_map(pairs.update(at, (pairs[at].0, value))) == to_map(pairs).insert(
            pairs[at].0,
            value,
        ),
        distinct_names(pairs.update(at, (pairs[at].0, value))),
{
    let changed = pairs.update(at, (pairs[at].0, value));
    assert forall|i: int, j: int| 0 <= i < j < changed.len() implies #[trigger] changed[i].0
        != #[trigger] changed[j].0 by {
        assert(pairs[i].0 != pairs[j].0);
    }
    lemma_to_map(pairs);
    lemma_to_map(changed);
    let left = to_map(changed);
    let right = to_map(pairs).insert(pairs[at].0, value);
    assert forall|name: Seq<char>| #[trigger] agree_on(left, right, name) by {
        if left.contains_key(name) {
            let i = choose|i: int| 0 <= i < changed.len() && #[trigger] changed[i].0 == name;
            assert(pairs[i].0 == name);
            assert(to_map(pairs).contains_key(name));
            if i < at {
                assert(pairs[i].0 != pairs[at].0);
            } else if at < i {
                assert(pairs[at].0 != pairs[i].0);
            }
        }
        if right.contains_key(name) {
            if to_map(pairs).contains_key(name) {
                let i = choose|i: int| 0 <= i < pairs.len() && #[trigger] pairs[i].0 == name;
                assert(changed[i].0 == name);
            } else {
                assert(changed[at].0 == name);
            }
        }
    }
    lemma_maps_agree(left, right);
}

/// The length without one field and the length of that field add up.
proof fn lemma_wire_length_remove(pairs: Seq<Pair>, at: int)
    requires
        0 <= at < pairs.len(),
    ensures
        wire_length(pairs) == wire_length(pairs.remove(at)) + field_length(pairs[at]),
    decreases pairs.len(),
{
    if at == pairs.len() - 1 {
        assert(pairs.remove(at) == pairs.drop_last());
    } else {
        lemma_wire_length_remove(pairs.drop_last(), at);
        assert(pairs.remove(at).drop_last() == pairs.drop_last().remove(at));
        assert(pairs.remove(at).last() == pairs.last());
    }
}

/// The bytes that header fields take depend on the map alone, not on the order in which its
/// entries are walked.
pub proof fn law_wire_length_ignores_order(left: Seq<Pair>, right: Seq<Pair>)
    requires
        distinct_names(left),
        distinct_names(right),
        to_map(left) == to_map(right),
    ensures
        wire_length(left) == wire_length(right),
    decreases left.len(),
{
    lemma_to_map(left);
    lemma_to_map(right);
    if left.len() == 0 {
        if right.len() > 0 {
            assert(to_map(right).contains_key(right[0].0));
            assert(to_map(left).contains_key(right[0].0));
            assert(false);
        }
    } else {
        let last = left[left.len() - 1];
        assert(to_map(left).contains_key(last.0));
        assert(to_map(right).contains_key(last.0));
        let at = choose|i: int| 0 <= i < right.len() && #[trigger] right[i].0 == last.0;
        assert(right[at] == last);
        lemma_to_map_remove(left, left.len() - 1);
        lemma_to_map_remove(right, at);
        assert(left.remove(left.len() - 1) == left.drop_last());
        law_wire_length_ignores_order(left.drop_last(), right.remove(at));
        lemma_wire_length_remove(right, at);
    }
}

/// A map from text to text. The order of its entries means nothing.
pub struct StringMap {
    entries: Vec<(String, String)>,
}

impl View for StringMap {
    type V = Map<Seq<char>, Seq<char>>;

    open spec fn view(&self) -> Map<Seq<char>, Seq<char>> {
        to_map(self.pairs())
    }
}

impl StringMap {
    /// The entries of the map, in the order in which they are handed out.
    pub closed spec fn pairs(&self) -> Seq<Pair> {
        pair_views(self.entries@)
    }

    /// No name has two entries.
    #[verifier::type_invariant]
    pub open spec fn wf(&self) -> bool {
        distinct_names(self.pairs())
    }

    /// An empty map.
    pub fn new() -> (map: StringMap)
        ensures
            map.wf(),
            map.pairs() == Seq::<Pair>::empty(),
            map@ == Map::<Seq<char>, Seq<char>>::empty(),
    {
        StringMap { entries: Vec::new() }
    }

    /// Where the entry for `name` stands, or the number of entries where there is none.
    fn position(&self, name: &str) -> (at: usize)
        ensures
            at <= self.pairs().len(),
            at < self.pairs().len() ==> self.pairs()[at as int].0 == name@,
            forall|i: int| 0 <= i < at ==> #[trigger] self.pairs()[i].0 != name@,
    {
        let mut i: usize = 0;
        while i < self.entries.len()
            invariant
                i <= self.entries@.len(),
                forall|j: int| 0 <= j < i ==> #[trigger] self.pairs()[j].0 != name@,
            decreases self.entries@.len() - i,
        {
            if same_text(self.entries[i].0.as_str(), name) {
                return i;
            }
            i = i + 1;
        }
        i
    }

    /// Gives `name` the value `value`, in place of the one it may have had.
    pub fn insert(&mut self, name: String, value: String)
        ensures
            final(self).wf(),
            final(self)@ == old(self)@.insert(name@, value@),
    {
        proof {
            use_type_invariant(&*self);
        }
        let at = self.position(name.as_str());
        let ghost before = self.pairs();
        let mut entries: Vec<(String, String)> = Vec::new();
        std::mem::swap(&mut entries, &mut self.entries);
        if at < entries.len() {
            entries.set(at, (name, value));
            proof {
                lemma_to_map_update(before, at as int, value@);
                assert(pair_views(entries@) == before.update(
                    at as int,
                    (before[at as int].0, value@),
                ));
            }
        } else {
            entries.push((name, value));
            proof {
                let after = pair_views(entries@);
                assert(after == before.push((name@, value@)));
                assert(after.drop_last() == before);
                assert forall|i: int, j: int| 0 <= i < j < after.len() implies
                    #[trigger] after[i].0 != #[trigger] after[j].0 by {
                    if j < before.len() {
                        assert(before[i].0 != before[j].0);
                    } else {
                        assert(before[i].0 != name@);
                    }
                }
            }
        }
        self.entries = entries;
    }

    /// The value of `name`, if it has one.
    pub fn get(&self, name: &str) -> (value: Option<&str>)
        ensures
            match value {
                Some(v) => self@.contains_key(name@) && self@[name@] == v@,
                None => !self@.contains_key(name@),
            },
    {
        let at = self.position(name);
        proof {
            use_type_invariant(self);
            lemma_to_map(self.pairs());
        }
        if at < self.entries.len() {
            assert(self.pairs()[at as int].0 == name@);
            Some(self.entries[at].1.as_str())
        } else {
            None
        }
    }

    /// How many entries there are.
    pub fn len(&self) -> (n: usize)
        ensures
            n == self.pairs().len(),
    {
        self.entries.len()
    }

    /// The entry at a position.
    pub fn entry(&self, at: usize) -> (entry: (&str, &str))
        requires
            at < self.pairs().len(),
        ensures
            (entry.0@, entry.1@) == self.pairs()[at as int],
    {
        (self.entries[at].0.as_str(), self.entries[at].1.as_str())
    }

    /// The bytes that the entries take as header fields.
    pub fn wire_bytes(&self) -> (total: u64)
        ensures
            total == wrapped(wire_length(self.pairs())),
    {
        wire_bytes_of(&self.entries)
    }
}

/// The bytes that pairs take as header fields.
pub fn wire_bytes_of(fields: &Vec<(String, String)>) -> (total: u64)
    ensures
        total == wrapped(wire_length(pair_views(fields@))),
{
    let ghost pairs = pair_views(fields@);
    let mut total: u64 = 0;
    let mut i: usize = 0;
    assert(pairs.take(0) == Seq::<Pair>::empty());
    while i < fields.len()
        invariant
            i <= fields@.len(),
            pairs == pair_views(fields@),
            total == wrapped(wire_length(pairs.take(i as int))),
        decreases fields@.len() - i,
    {
        total = add_field(total, fields[i].0.as_str(), fields[i].1.as_str());
        assert(pairs.take(i + 1).drop_last() == pairs.take(i as int));
        i = i + 1;
    }
    assert(pairs.take(i as int) == pairs);
    total
}

/// Adds the bytes of one header field to a counter.
pub fn add_field(total: u64, name: &str, value: &str) -> (sum: u64)
    ensures
        sum == wrapped((total + field_length((name@, value@))) as nat),
{
    let name_bytes: u64 = name.as_bytes().len() as u64;
    let value_bytes: u64 = value.as_bytes().len() as u64;
    total.wrapping_add(name_bytes).wrapping_add(2).wrapping_add(value_bytes).wrapping_add(2)
}

} // verus!
