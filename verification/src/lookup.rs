//! The lookup of a field among the extras of a record, which may hold
//! objects inside objects.

use vstd::prelude::*;
use crate::json::{
    entries_of,
    map_entries,
    members_of,
    number_float,
    shape_of,
    value_json,
    Json,
    Shape,
};
use crate::record::{FieldValue, LogRecordTypes};
use crate::text::same_text;

verus! {

/// What a member's value yields when its key is the one looked for: a
/// boolean its name, a number its floating-point value, a string itself;
/// null, arrays and objects nothing.
pub open spec fn scalar_of(json: Json) -> Option<FieldValue> {
    match json {
        Json::Null => None,
        Json::Bool(b) => Some(
            FieldValue::Str(
                if b {
                    "true"@
                } else {
                    "false"@
                },
            ),
        ),
        Json::Number(n) => match number_float(n) {
            Some(x) => Some(FieldValue::Num(x)),
            None => None,
        },
        Json::Text(s) => Some(FieldValue::Str(s)),
        Json::Array(_) => None,
        Json::Object(_) => None,
    }
}

/// The field `key` among `entries`, depth first and in their order. The
/// first member whose key is `key` settles what `entries` yield, also where
/// its value yields nothing. A member with another key is searched if it is
/// an object, before the members that follow it; where that yields nothing,
/// the search goes on behind it. Arrays are not searched.
pub open spec fn find_field(key: Seq<char>, entries: Seq<(Seq<char>, Json)>) -> Option<FieldValue>
    decreases entries,
{
    if entries.len() == 0 {
        None
    } else if entries.first().0 == key {
        scalar_of(entries.first().1)
    } else {
        let nested = match entries.first().1 {
            Json::Object(inner) => find_field(key, inner),
            _ => None,
        };
        if nested is Some {
            nested
        } else {
            find_field(key, entries.drop_first())
        }
    }
}

/// What was found, as the value it holds.
pub open spec fn found(r: Option<LogRecordTypes>) -> Option<FieldValue> {
    match r {
        Some(value) => Some(value@),
        None => None,
    }
}

/// What is found in the levels of a search that are still open, the
/// innermost last: what the innermost yields, and where it yields nothing,
/// what the levels around it yield.
spec fn resume(key: Seq<char>, levels: Seq<Seq<(Seq<char>, Json)>>) -> Option<FieldValue>
    decreases levels.len(),
{
    if levels.len() == 0 {
        None
    } else {
        match find_field(key, levels.last()) {
            Some(value) => Some(value),
            None => resume(key, levels.drop_last()),
        }
    }
}

/// A bound on the steps that a search through `entries` takes: two for each
/// member at any depth.
spec fn weight(entries: Seq<(Seq<char>, Json)>) -> nat
    decreases entries,
{
    if entries.len() == 0 {
        0
    } else {
        let inside = match entries.first().1 {
            Json::Object(inner) => weight(inner),
            _ => 0,
        };
        2 + inside + weight(entries.drop_first())
    }
}

/// A bound on the steps that are left of a search with the open levels
/// `levels`.
spec fn load(levels: Seq<Seq<(Seq<char>, Json)>>) -> nat
    decreases levels.len(),
{
    if levels.len() == 0 {
        0
    } else {
        load(levels.drop_last()) + weight(levels.last()) + 1
    }
}

/// The members of one level that are still to be searched.
spec fn rest_of(level: (Vec<(String, serde_json::Value)>, usize)) -> Seq<(Seq<char>, Json)> {
    entries_of(level.0@).skip(level.1 as int)
}

/// The open levels of a search, as what is still to be searched of each.
spec fn pending(stack: Seq<(Vec<(String, serde_json::Value)>, usize)>) -> Seq<
    Seq<(Seq<char>, Json)>,
> {
    Seq::new(stack.len(), |k: int| rest_of(stack[k]))
}

/// Looks for the field `input_key` in `extra` (see [`find_field`]). The
/// search keeps the levels that it has entered on a stack of its own, so its
/// depth is not bounded by that of the call stack.
pub fn get_field_from_extras(
    input_key: &str,
    extra: &serde_json::Map<String, serde_json::Value>,
) -> (r: Option<LogRecordTypes>)
    ensures
        found(r) == find_field(input_key@, map_entries(*extra)),
{
    let ghost key = input_key@;
    let ghost wanted = find_field(key, map_entries(*extra));
    let mut stack: Vec<(Vec<(String, serde_json::Value)>, usize)> = Vec::new();
    let root = members_of(extra);
    assert(entries_of(root@).skip(0) =~= map_entries(*extra));
    stack.push((root, 0));
    assert(resume(key, pending(stack@).drop_last()) is None);
    while stack.len() > 0
        invariant
            key == input_key@,
            wanted == find_field(input_key@, map_entries(*extra)),
            wanted == resume(key, pending(stack@)),
            forall|k: int| 0 <= k < stack.len() ==> (#[trigger] stack[k]).1 <= stack[k].0.len(),
        decreases load(pending(stack@)),
    {
        let ghost before = pending(stack@);
        let ghost around = before.drop_last();
        let (members, at) = stack.pop().unwrap();
        let ghost top = rest_of((members, at));
        assert(pending(stack@) =~= around);
        if at < members.len() {
            let ghost entries = entries_of(members@);
            let ghost next = entries.skip(at as int + 1);
            assert(top.drop_first() =~= next);
            let shape = shape_of(&members[at].1);
            if same_text(members[at].0.as_str(), input_key) {
                match shape {
                    Shape::Bool(true) => {
                        return Some(LogRecordTypes::Str("true".to_owned()));
                    },
                    Shape::Bool(false) => {
                        return Some(LogRecordTypes::Str("false".to_owned()));
                    },
                    Shape::Number { unsigned: _, float: Some(x) } => {
                        return Some(LogRecordTypes::Num(x));
                    },
                    Shape::Text(s) => {
                        return Some(LogRecordTypes::Str(s));
                    },
                    _ => {},
                }
            } else {
                stack.push((members, at + 1));
                let ghost outer = around.push(next);
                assert(pending(stack@) =~= outer);
                assert(outer.drop_last() =~= around);
                match shape {
                    Shape::Object(map) => {
                        let inner = members_of(&map);
                        let ghost nested = entries_of(inner@);
                        assert(nested.skip(0) =~= nested);
                        stack.push((inner, 0));
                        let ghost deeper = outer.push(nested);
                        assert(pending(stack@) =~= deeper);
                        assert(deeper.drop_last() =~= outer);
                        assert(load(deeper) == load(outer) + weight(nested) + 1);
                        assert(resume(key, deeper) == match find_field(key, nested) {
                            Some(value) => Some(value),
                            None => resume(key, outer),
                        });
                    },
                    _ => {},
                }
            }
        }
    }
    None
}

/// Whether some member of `entries`, or of an object among them at any
/// depth, has the key `key`.
pub open spec fn holds_key(key: Seq<char>, entries: Seq<(Seq<char>, Json)>) -> bool
    decreases entries,
{
    if entries.len() == 0 {
        false
    } else {
        ||| entries.first().0 == key
        ||| (entries.first().1 matches Json::Object(inner) && holds_key(key, inner))
        ||| holds_key(key, entries.drop_first())
    }
}

/// A key that no member has at any depth is not found.
pub proof fn lemma_absent_key_is_not_found(key: Seq<char>, entries: Seq<(Seq<char>, Json)>)
    requires
        !holds_key(key, entries),
    ensures
        find_field(key, entries) is None,
    decreases entries,
{
    if entries.len() > 0 {
        match entries.first().1 {
            Json::Object(inner) => {
                lemma_absent_key_is_not_found(key, inner);
            },
            _ => {},
        }
        lemma_absent_key_is_not_found(key, entries.drop_first());
    }
}

/// Members that do not hold the key at any depth do not change what is found
/// behind them.
pub proof fn lemma_search_passes_over(
    key: Seq<char>,
    before: Seq<(Seq<char>, Json)>,
    after: Seq<(Seq<char>, Json)>,
)
    requires
        !holds_key(key, before),
    ensures
        find_field(key, before + after) == find_field(key, after),
    decreases before.len(),
{
    if before.len() == 0 {
    } else {
        let all = before + after;
        assert(all.drop_first() =~= before.drop_first() + after);
        match before.first().1 {
            Json::Object(inner) => {
                lemma_absent_key_is_not_found(key, inner);
            },
            _ => {},
        }
        lemma_search_passes_over(key, before.drop_first(), after);
    }
}

/// The search goes into an object under another key: what it finds there is
/// the result.
pub proof fn lemma_search_goes_into_objects(
    key: Seq<char>,
    name: Seq<char>,
    inner: Seq<(Seq<char>, Json)>,
    after: Seq<(Seq<char>, Json)>,
)
    requires
        name != key,
        find_field(key, inner) is Some,
    ensures
        find_field(key, seq![(name, Json::Object(inner))] + after) == find_field(key, inner),
{
}

/// A key that stands only inside an object inside an object is found: where
/// no other member holds `key` at any depth, and the value under `key` is a
/// boolean, a number or a string, that value is the field. `before1`,
/// `after1` are the members around the outer object, `before2`, `after2`
/// those around the inner one, `before3`, `after3` those around the key.
pub proof fn lemma_key_two_levels_deep_is_found(
    key: Seq<char>,
    value: Json,
    outer: Seq<char>,
    inner: Seq<char>,
    before1: Seq<(Seq<char>, Json)>,
    after1: Seq<(Seq<char>, Json)>,
    before2: Seq<(Seq<char>, Json)>,
    after2: Seq<(Seq<char>, Json)>,
    before3: Seq<(Seq<char>, Json)>,
    after3: Seq<(Seq<char>, Json)>,
)
    requires
        outer != key,
        inner != key,
        !holds_key(key, before1),
        !holds_key(key, before2),
        !holds_key(key, before3),
        scalar_of(value) is Some,
    ensures
        find_field(
            key,
            before1 + seq![
                (
                    outer,
                    Json::Object(
                        before2 + seq![
                            (inner, Json::Object(before3 + seq![(key, value)] + after3)),
                        ] + after2,
                    ),
                ),
            ] + after1,
        ) == scalar_of(value),
{
    let level3 = before3 + seq![(key, value)] + after3;
    let level2 = before2 + seq![(inner, Json::Object(level3))] + after2;
    let level1 = before1 + seq![(outer, Json::Object(level2))] + after1;
    assert(level3 =~= before3 + (seq![(key, value)] + after3));
    lemma_search_passes_over(key, before3, seq![(key, value)] + after3);
    assert(level2 =~= before2 + (seq![(inner, Json::Object(level3))] + after2));
    lemma_search_passes_over(key, before2, seq![(inner, Json::Object(level3))] + after2);
    lemma_search_goes_into_objects(key, inner, level3, after2);
    assert(level1 =~= before1 + (seq![(outer, Json::Object(level2))] + after1));
    lemma_search_passes_over(key, before1, seq![(outer, Json::Object(level2))] + after1);
    lemma_search_goes_into_objects(key, outer, level2, after1);
}

/// An object is never the value of a field: where the first member that
/// holds `key` at any depth has `key` as its own key and an object, an array
/// or null as its value, that settles the search, and nothing is found.
pub proof fn lemma_object_is_no_match(
    key: Seq<char>,
    value: Json,
    before: Seq<(Seq<char>, Json)>,
    after: Seq<(Seq<char>, Json)>,
)
    requires
        !holds_key(key, before),
        value is Object || value is Array || value is Null,
    ensures
        find_field(key, before + seq![(key, value)] + after) is None,
{
    assert(before + seq![(key, value)] + after =~= before + (seq![(key, value)] + after));
    lemma_search_passes_over(key, before, seq![(key, value)] + after);
}

} // verus!
