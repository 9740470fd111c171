//! Header fields by name, whatever the case of their names.

use crate::outside::{ascii_lowercase, lowercase};
use crate::string_map::{law_last_pair_stays, pair_views, to_map, Pair, StringMap};
use vstd::prelude::*;
use vstd::utf8::is_ascii_chars;

verus! {

/// A header field with its name in lower case.
pub open spec fn lowered(field: Pair) -> Pair {
    (lowercase(field.0), field.1)
}

/// Header fields with their names in lower case.
pub open spec fn all_lowered(fields: Seq<Pair>) -> Seq<Pair> {
    Seq::new(fields.len(), |i: int| lowered(fields[i]))
}

/// A header field with the ASCII letters of its name in lower case.
pub open spec fn ascii_lowered(field: Pair) -> Pair {
    (ascii_lowercase(field.0), field.1)
}

/// Header fields with the ASCII letters of their names in lower case.
pub open spec fn all_ascii_lowered(fields: Seq<Pair>) -> Seq<Pair> {
    Seq::new(fields.len(), |i: int| ascii_lowered(fields[i]))
}

/// Whether all names are in ASCII.
pub open spec fn ascii_named(fields: Seq<Pair>) -> bool {
    forall|i: int| 0 <= i < fields.len() ==> is_ascii_chars((#[trigger] fields[i]).0)
}

/// Whether names in ASCII are put in lower case by their letters `A` to `Z` alone.
pub open spec fn ascii_lowers(fields: Seq<Pair>) -> bool {
    forall|i: int|
        0 <= i < fields.len() && is_ascii_chars((#[trigger] fields[i]).0) ==> lowercase(fields[i].0)
            == ascii_lowercase(fields[i].0)
}

/// Puts header fields into a map, by their names in lower case. Of fields with one name the last
/// stays.
pub fn lower_names(fields: &Vec<(String, String)>) -> (map: StringMap)
    ensures
        map.wf(),
        map@ == to_map(all_lowered(pair_views(fields@))),
        ascii_named(pair_views(fields@)) ==> map@ == to_map(all_ascii_lowered(pair_views(fields@))),
        ascii_lowers(pair_views(fields@)),
{
    let ghost pairs = pair_views(fields@);
    let mut map = StringMap::new();
    let mut i: usize = 0;
    assert(all_lowered(pairs).take(0) == Seq::<Pair>::empty());
    while i < fields.len()
        invariant
            i <= fields@.len(),
            pairs == pair_views(fields@),
            map.wf(),
            map@ == to_map(all_lowered(pairs).take(i as int)),
            forall|j: int|
                0 <= j < i && is_ascii_chars((#[trigger] pairs[j]).0) ==> lowercase(pairs[j].0)
                    == ascii_lowercase(pairs[j].0),
        decreases fields@.len() - i,
    {
        let name = fields[i].0.as_str().to_lowercase();
        let value = fields[i].1.clone();
        proof {
            let done = all_lowered(pairs).take(i + 1);
            assert(pairs[i as int] == (fields@[i as int].0@, fields@[i as int].1@));
            assert(done.drop_last() == all_lowered(pairs).take(i as int));
            assert(done.last() == (name@, value@));
        }
        map.insert(name, value);
        i = i + 1;
    }
    proof {
        assert(all_lowered(pairs).take(i as int) == all_lowered(pairs));
        if ascii_named(pairs) {
            assert forall|j: int| 0 <= j < pairs.len() implies all_lowered(pairs)[j]
                == all_ascii_lowered(pairs)[j] by {
                assert(is_ascii_chars(pairs[j].0));
            }
            assert(all_lowered(pairs) == all_ascii_lowered(pairs));
        }
    }
    map
}

/// A header field is found by its name in lower case, whatever the case of the ASCII letters in
/// which it was written, unless a later field has its name.
pub proof fn law_field_is_found_in_any_case(fields: Seq<Pair>, at: int)
    requires
        0 <= at < fields.len(),
        forall|i: int|
            at < i < fields.len() ==> ascii_lowercase((#[trigger] fields[i]).0) != ascii_lowercase(
                fields[at].0,
            ),
    ensures
        ({
            let found = to_map(all_ascii_lowered(fields));
            let name = ascii_lowercase(fields[at].0);
            &&& found.contains_key(name)
            &&& found[name] == fields[at].1
        }),
{
    let pairs = all_ascii_lowered(fields);
    assert forall|i: int| at < i < pairs.len() implies (#[trigger] pairs[i]).0 != pairs[at].0 by {
        assert(ascii_lowercase(fields[i].0) != ascii_lowercase(fields[at].0));
    }
    law_last_pair_stays(pairs, at);
}

} // verus!
