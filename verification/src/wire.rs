//! JSON text: reading a document into a [`Json`] value, and the compact text
//! of a value.

use crate::json::{
    item_trees, lemma_item_trees, lemma_last_member, lemma_member_trees, lemma_no_member,
    member_map, member_trees, Json, JsonView,
};
use crate::text::string_view;
use serde_json::{Number, Value};
use vstd::prelude::*;

verus! {

/// `serde_json::Number`, carried through unread.
#[verifier::external_type_specification]
#[verifier::external_body]
pub struct ExNumber(serde_json::Number);

/// A JSON number that is not an integer of 64 bits. It comes from a document
/// that was read, and nothing but its text is ever used.
#[derive(Debug)]
pub struct Fraction {
    number: Number,
}

impl Fraction {
    /// An equal number.
    fn copy(&self) -> (copy: Fraction)
        ensures
            copy == *self,
    {
        Fraction { number: self.number.clone() }
    }
}

/// `serde_json::Value`: a nested collection of JSON values. What it holds is
/// [`value_tree`].
#[verifier::external_type_specification]
#[verifier::external_body]
pub struct ExValue(serde_json::Value);

/// What a `serde_json::Value` holds.
pub uninterp spec fn value_tree(value: serde_json::Value) -> JsonView;

/// The document that a run of bytes is the JSON text of, `None` where
/// `serde_json` reads no document there.
pub uninterp spec fn json_document(bytes: Seq<u8>) -> Option<JsonView>;

/// The text that `serde_json` prints for a value, without spaces or line
/// breaks.
pub uninterp spec fn compact_text(value: JsonView) -> Seq<char>;

/// The outermost layer of a `serde_json::Value`, for reading.
pub enum Layer<'a> {
    Null,
    Bool(bool),
    Unsigned(u64),
    Signed(i64),
    Fraction(Fraction),
    Text(&'a String),
    Array(&'a Vec<Value>),
    Object(Vec<(&'a String, &'a Value)>),
}

/// What a layer holds.
pub open spec fn layer_tree(layer: Layer<'_>) -> JsonView {
    match layer {
        Layer::Null => JsonView::Null,
        Layer::Bool(flag) => JsonView::Bool(flag),
        Layer::Unsigned(number) => JsonView::Integer(number as int),
        Layer::Signed(number) => JsonView::Integer(number as int),
        Layer::Fraction(number) => JsonView::Fraction(number),
        Layer::Text(text) => JsonView::Text(text@),
        Layer::Array(items) => JsonView::Array(value_trees(items@)),
        Layer::Object(members) => JsonView::Object(member_map(borrowed_trees(members@))),
    }
}

/// What a list of values holds, one by one.
pub open spec fn value_trees(items: Seq<Value>) -> Seq<JsonView> {
    Seq::new(items.len(), |i: int| value_tree(items[i]))
}

/// The names of borrowed members and what the members hold, one by one.
pub open spec fn borrowed_trees(members: Seq<(&String, &Value)>) -> Seq<(Seq<char>, JsonView)> {
    Seq::new(members.len(), |i: int| (members[i].0@, value_tree(*members[i].1)))
}

/// The names of owned members and what the members hold, one by one.
pub open spec fn owned_trees(members: Seq<(String, Value)>) -> Seq<(Seq<char>, JsonView)> {
    Seq::new(members.len(), |i: int| (members[i].0@, value_tree(members[i].1)))
}

/// No name occurs twice.
pub open spec fn distinct_names(members: Seq<(Seq<char>, JsonView)>) -> bool {
    forall|i: int, j: int|
        0 <= i < j < members.len() ==> (#[trigger] members[i]).0 != (#[trigger] members[j]).0
}

/// `serde_json::from_slice` into a `serde_json::Value`.
///
/// Claimed: whether the bytes are read, and what the value then holds, depends
/// on the bytes alone and is what [`json_document`] says.
#[verifier::external_body]
fn value_from_slice(bytes: &[u8]) -> (value: Option<Value>)
    ensures
        match value {
            Some(value) => json_document(bytes@) == Some(value_tree(value)),
            None => json_document(bytes@) is None,
        },
{
    serde_json::from_slice::<Value>(bytes).ok()
}

/// The variants of `serde_json::Value`, one arm each. A number is told apart by
/// `Number::as_u64` and `Number::as_i64`.
///
/// Claimed: the layer holds what the value holds, and an object has each name
/// once.
#[verifier::external_body]
fn value_layer<'a>(value: &'a Value) -> (layer: Layer<'a>)
    ensures
        layer_tree(layer) == value_tree(*value),
        layer matches Layer::Object(members) ==> distinct_names(borrowed_trees(members@)),
{
    match value {
        Value::Null => Layer::Null,
        Value::Bool(flag) => Layer::Bool(*flag),
        Value::Number(number) => match (number.as_u64(), number.as_i64()) {
            (Some(natural), _) => Layer::Unsigned(natural),
            (None, Some(negative)) => Layer::Signed(negative),
            (None, None) => Layer::Fraction(Fraction { number: number.clone() }),
        },
        Value::String(text) => Layer::Text(text),
        Value::Array(items) => Layer::Array(items),
        Value::Object(members) => Layer::Object(members.iter().collect()),
    }
}

/// A JSON value of the library from a `serde_json::Value`.
fn json_of(value: &Value) -> (json: Json)
    ensures
        json@ == value_tree(*value),
    decreases value_tree(*value),
{
    match value_layer(value) {
        Layer::Null => Json::Null,
        Layer::Bool(flag) => Json::Bool(flag),
        Layer::Unsigned(number) => Json::Unsigned(number),
        Layer::Signed(number) => Json::Signed(number),
        Layer::Fraction(number) => Json::Fraction(number),
        Layer::Text(text) => Json::Text(text.clone()),
        Layer::Array(items) => {
            let mut read: Vec<Json> = Vec::new();
            let mut i: usize = 0;
            while i < items.len()
                invariant
                    i <= items@.len(),
                    read@.len() == i,
                    value_tree(*value) == JsonView::Array(value_trees(items@)),
                    forall|j: int| 0 <= j < i ==> (#[trigger] read@[j])@ == value_tree(items@[j]),
                decreases items@.len() - i,
            {
                proof {
                    let trees = value_trees(items@);
                    assert(trees[i as int] == value_tree(items@[i as int]));
                    assert(trees == value_tree(*value)->Array_0);
                    assert(decreases_to!(value_tree(*value) => value_tree(*value)->Array_0));
                    assert(decreases_to!(trees => trees[i as int]));
                }
                read.push(json_of(&items[i]));
                i = i + 1;
            }
            proof {
                lemma_item_trees(read@);
                assert(item_trees(read@) =~= value_trees(items@));
            }
            Json::Array(read)
        },
        Layer::Object(members) => {
            let ghost trees = borrowed_trees(members@);
            let mut read: Vec<(String, Json)> = Vec::new();
            let mut i: usize = 0;
            while i < members.len()
                invariant
                    i <= members@.len(),
                    read@.len() == i,
                    trees == borrowed_trees(members@),
                    distinct_names(trees),
                    value_tree(*value) == JsonView::Object(member_map(trees)),
                    forall|j: int|
                        0 <= j < i ==> ((#[trigger] read@[j]).0@, read@[j].1@) == trees[j],
                decreases members@.len() - i,
            {
                proof {
                    lemma_last_member(trees, trees[i as int].0, i as int);
                    lemma_member_map_finite(trees);
                    assert(member_map(trees) == value_tree(*value)->Object_0);
                    assert(decreases_to!(value_tree(*value) => value_tree(*value)->Object_0));
                    assert(decreases_to!(member_map(trees) => member_map(trees)[trees[i as int].0]));
                }
                read.push((members[i].0.clone(), json_of(members[i].1)));
                i = i + 1;
            }
            proof {
                lemma_member_trees(read@);
                assert(member_trees(read@) =~= trees);
            }
            Json::Object(read)
        },
    }
}

/// A list of members stands for a finite map.
proof fn lemma_member_map_finite(members: Seq<(Seq<char>, JsonView)>)
    ensures
        member_map(members).dom().finite(),
    decreases members.len(),
{
    if members.len() > 0 {
        lemma_member_map_finite(members.drop_last());
    }
}

/// The outermost layer of a `serde_json::Value` that is to be built.
pub enum NewLayer {
    Null,
    Bool(bool),
    Unsigned(u64),
    Signed(i64),
    Fraction(Fraction),
    Text(String),
    Array(Vec<Value>),
    Object(Vec<(String, Value)>),
}

/// What a layer to be built holds.
pub open spec fn new_layer_tree(layer: NewLayer) -> JsonView {
    match layer {
        NewLayer::Null => JsonView::Null,
        NewLayer::Bool(flag) => JsonView::Bool(flag),
        NewLayer::Unsigned(number) => JsonView::Integer(number as int),
        NewLayer::Signed(number) => JsonView::Integer(number as int),
        NewLayer::Fraction(number) => JsonView::Fraction(number),
        NewLayer::Text(text) => JsonView::Text(text@),
        NewLayer::Array(items) => JsonView::Array(value_trees(items@)),
        NewLayer::Object(members) => JsonView::Object(member_map(owned_trees(members@))),
    }
}

/// The variants of `serde_json::Value`, one arm each. Integers go through
/// `Value::from`, members through `Map`'s `FromIterator`.
///
/// Claimed: the value holds what the layer holds, where an object has each
/// name once.
#[verifier::external_body]
fn value_of_layer(layer: NewLayer) -> (value: Value)
    requires
        layer matches NewLayer::Object(members) ==> distinct_names(owned_trees(members@)),
    ensures
        value_tree(value) == new_layer_tree(layer),
{
    match layer {
        NewLayer::Null => Value::Null,
        NewLayer::Bool(flag) => Value::Bool(flag),
        NewLayer::Unsigned(number) => Value::from(number),
        NewLayer::Signed(number) => Value::from(number),
        NewLayer::Fraction(fraction) => Value::Number(fraction.number),
        NewLayer::Text(text) => Value::String(text),
        NewLayer::Array(items) => Value::Array(items),
        NewLayer::Object(members) => Value::Object(members.into_iter().collect()),
    }
}

/// Dropping a member whose name occurs again later leaves the map as it is.
proof fn lemma_without_shadowed(
    kept: Seq<(Seq<char>, JsonView)>,
    members: Seq<(Seq<char>, JsonView)>,
    name: Seq<char>,
)
    requires
        distinct_names(kept),
        forall|i: int| 0 <= i < kept.len() ==> is_last(members, #[trigger] kept[i]),
        forall|j: int|
            0 <= j < members.len() && is_last(members, #[trigger] members[j]) ==> kept.contains(
                members[j],
            ),
    ensures
        member_map(kept).contains_key(name) == member_map(members).contains_key(name),
        member_map(kept).contains_key(name) ==> member_map(kept)[name] == member_map(
            members,
        )[name],
{
    if exists|i: int| 0 <= i < kept.len() && (#[trigger] kept[i]).0 == name {
        let i = choose|i: int| 0 <= i < kept.len() && (#[trigger] kept[i]).0 == name;
        lemma_last_member(kept, name, i);
        assert(is_last(members, kept[i]));
        let j = choose|j: int| is_last_at(members, kept[i], j);
        lemma_last_member(members, name, j);
    } else {
        lemma_no_member(kept, name);
        if member_map(members).contains_key(name) {
            lemma_has_last(members, name);
            let j = choose|j: int|
                0 <= j < members.len() && members[j].0 == name && is_last_at(
                    members,
                    members[j],
                    j,
                );
            assert(is_last(members, members[j]));
            assert(kept.contains(members[j]));
            let i = choose|i: int| 0 <= i < kept.len() && kept[i] == members[j];
            assert(kept[i].0 == name);
        }
    }
}

/// `member` stands at `index`, and its name does not occur after it.
spec fn is_last_at(
    members: Seq<(Seq<char>, JsonView)>,
    member: (Seq<char>, JsonView),
    index: int,
) -> bool {
    &&& 0 <= index < members.len()
    &&& members[index] == member
    &&& forall|k: int| index < k < members.len() ==> (#[trigger] members[k]).0 != member.0
}

/// `member` is the last one of its name.
spec fn is_last(members: Seq<(Seq<char>, JsonView)>, member: (Seq<char>, JsonView)) -> bool {
    exists|index: int| is_last_at(members, member, index)
}

/// A name that the map holds has a last member.
proof fn lemma_has_last(members: Seq<(Seq<char>, JsonView)>, name: Seq<char>)
    requires
        member_map(members).contains_key(name),
    ensures
        exists|j: int|
            0 <= j < members.len() && members[j].0 == name && is_last_at(members, members[j], j),
    decreases members.len(),
{
    if members.last().0 == name {
        assert(is_last_at(members, members[members.len() - 1], members.len() - 1));
    } else {
        let shorter = members.drop_last();
        lemma_has_last(shorter, name);
        let j = choose|j: int|
            0 <= j < shorter.len() && shorter[j].0 == name && is_last_at(shorter, shorter[j], j);
        assert forall|k: int| j < k < members.len() implies (#[trigger] members[k]).0
            != members[j].0 by {
            if k < members.len() - 1 {
                assert(shorter[k].0 != shorter[j].0);
            }
        }
        assert(is_last_at(members, members[j], j));
    }
}

/// `<serde_json::Number as Clone>::clone` returns an equal number.
pub assume_specification[ <serde_json::Number as Clone>::clone ](
    number: &serde_json::Number,
) -> (copy: serde_json::Number)
    ensures
        copy == *number,
;

/// Whether a member after `index` has the same name.
fn is_shadowed(members: &Vec<(String, Json)>, index: usize) -> (shadowed: bool)
    requires
        index < members@.len(),
    ensures
        shadowed == exists|k: int|
            index < k < members@.len() && (#[trigger] members@[k]).0@ == members@[index as int].0@,
{
    let count: usize = members.len();
    let mut k: usize = index + 1;
    while k < count
        invariant
            count == members@.len(),
            index < k <= members@.len(),
            forall|m: int|
                index < m < k ==> (#[trigger] members@[m]).0@ != members@[index as int].0@,
        decreases members@.len() - k,
    {
        if members[k].0.as_str().eq(members[index].0.as_str()) {
            return true;
        }
        k = k + 1;
    }
    false
}

/// A `serde_json::Value` from a JSON value of the library.
fn value_of(json: &Json) -> (value: Value)
    ensures
        value_tree(value) == json@,
    decreases json,
{
    match json {
        Json::Null => value_of_layer(NewLayer::Null),
        Json::Bool(flag) => value_of_layer(NewLayer::Bool(*flag)),
        Json::Unsigned(number) => value_of_layer(NewLayer::Unsigned(*number)),
        Json::Signed(number) => value_of_layer(NewLayer::Signed(*number)),
        Json::Fraction(number) => value_of_layer(NewLayer::Fraction(number.copy())),
        Json::Text(text) => value_of_layer(NewLayer::Text(text.clone())),
        Json::Array(items) => {
            let mut built: Vec<Value> = Vec::new();
            let mut i: usize = 0;
            while i < items.len()
                invariant
                    i <= items@.len(),
                    built@.len() == i,
                    json == Json::Array(*items),
                    forall|j: int| 0 <= j < i ==> value_tree(#[trigger] built@[j]) == items@[j]@,
                decreases items@.len() - i,
            {
                proof {
                    assert(items == json->Array_0);
                    assert(decreases_to!(json => json->Array_0));
                    assert(decreases_to!(items => items@[i as int]));
                }
                built.push(value_of(&items[i]));
                i = i + 1;
            }
            proof {
                lemma_item_trees(items@);
                assert(value_trees(built@) =~= item_trees(items@));
            }
            value_of_layer(NewLayer::Array(built))
        },
        Json::Object(members) => {
            let ghost trees = member_trees(members@);
            proof {
                lemma_member_trees(members@);
            }
            let mut built: Vec<(String, Value)> = Vec::new();
            let mut i: usize = 0;
            while i < members.len()
                invariant
                    i <= members@.len(),
                    trees == member_trees(members@),
                    trees.len() == members@.len(),
                    forall|j: int|
                        0 <= j < trees.len() ==> #[trigger] trees[j] == (
                            members@[j].0@,
                            members@[j].1@,
                        ),
                    json == Json::Object(*members),
                    distinct_names(owned_trees(built@)),
                    forall|k: int|
                        0 <= k < built@.len() ==> kept_from(
                            trees,
                            i as int,
                            #[trigger] owned_trees(built@)[k],
                        ),
                    forall|j: int|
                        0 <= j < i && is_last_at(trees, trees[j], j) ==> owned_trees(
                            built@,
                        ).contains(#[trigger] trees[j]),
                decreases members@.len() - i,
            {
                let ghost before = owned_trees(built@);
                if !is_shadowed(members, i) {
                    proof {
                        assert(members == json->Object_0);
                        assert(decreases_to!(json => json->Object_0));
                        assert(decreases_to!(members => members@[i as int]));
                        assert(decreases_to!(members@[i as int] => members@[i as int].1));
                    }
                    built.push((members[i].0.clone(), value_of(&members[i].1)));
                    proof {
                        let after = owned_trees(built@);
                        assert(after =~= before.push(trees[i as int]));
                        assert(is_last_at(trees, trees[i as int], i as int)) by {
                            assert forall|k: int| i < k < trees.len() implies (
                            #[trigger] trees[k]).0 != trees[i as int].0 by {
                                assert(members@[k].0@ != members@[i as int].0@);
                            }
                        }
                        assert forall|k: int| 0 <= k < after.len() implies kept_from(
                            trees,
                            i + 1,
                            #[trigger] after[k],
                        ) by {
                            if k < before.len() {
                                assert(kept_from(trees, i as int, before[k]));
                                let j = choose|j: int| 0 <= j < i && is_last_at(trees, before[k], j);
                                assert(0 <= j < i + 1 && is_last_at(trees, after[k], j));
                            } else {
                                assert(0 <= i < i + 1 && is_last_at(trees, after[k], i as int));
                            }
                        }
                        assert forall|a: int, b: int| 0 <= a < b < after.len() implies (
                        #[trigger] after[a]).0 != (#[trigger] after[b]).0 by {
                            if b == before.len() {
                                assert(kept_from(trees, i as int, before[a]));
                                let j = choose|j: int| 0 <= j < i && is_last_at(trees, before[a], j);
                                assert(trees[i as int].0 != before[a].0);
                            } else {
                                assert(before[a].0 != before[b].0);
                            }
                        }
                        assert forall|j: int|
                            0 <= j < i + 1 && is_last_at(trees, trees[j], j) implies after.contains(
                            #[trigger] trees[j],
                        ) by {
                            if j < i {
                                assert(before.contains(trees[j]));
                                let k = choose|k: int| 0 <= k < before.len() && before[k] == trees[j];
                                assert(after[k] == trees[j]);
                            } else {
                                assert(after[before.len() as int] == trees[j]);
                            }
                        }
                    }
                } else {
                    proof {
                        let k = choose|k: int|
                            i < k < members@.len() && (#[trigger] members@[k]).0@
                                == members@[i as int].0@;
                        assert(trees[k].0 == trees[i as int].0);
                        assert(!is_last_at(trees, trees[i as int], i as int));
                        assert forall|k: int| 0 <= k < before.len() implies kept_from(
                            trees,
                            i + 1,
                            #[trigger] before[k],
                        ) by {
                            assert(kept_from(trees, i as int, before[k]));
                            let j = choose|j: int| 0 <= j < i && is_last_at(trees, before[k], j);
                            assert(0 <= j < i + 1 && is_last_at(trees, before[k], j));
                        }
                    }
                }
                i = i + 1;
            }
            proof {
                let kept = owned_trees(built@);
                assert forall|k: int| 0 <= k < kept.len() implies is_last(
                    trees,
                    #[trigger] kept[k],
                ) by {
                    assert(kept_from(trees, trees.len() as int, kept[k]));
                }
                assert forall|j: int|
                    0 <= j < trees.len() && is_last(trees, #[trigger] trees[j]) implies kept.contains(
                    trees[j],
                ) by {
                    let m = choose|m: int| is_last_at(trees, trees[j], m);
                    assert(trees[m] == trees[j]);
                }
                assert forall|name: Seq<char>| true implies #[trigger] member_map(
                    kept,
                ).contains_key(name) == member_map(trees).contains_key(name) by {
                    lemma_without_shadowed(kept, trees, name);
                }
                assert forall|name: Seq<char>| #[trigger]
                    member_map(kept).contains_key(name) implies member_map(kept)[name]
                    == member_map(trees)[name] by {
                    lemma_without_shadowed(kept, trees, name);
                }
                assert(member_map(kept) =~= member_map(trees));
            }
            value_of_layer(NewLayer::Object(built))
        },
    }
}

/// `member` is the last one of its name and stands before `end`.
spec fn kept_from(
    members: Seq<(Seq<char>, JsonView)>,
    end: int,
    member: (Seq<char>, JsonView),
) -> bool {
    exists|j: int| 0 <= j < end && is_last_at(members, member, j)
}

/// `serde_json::to_string` of a `serde_json::Value`.
///
/// Claimed: it always prints, and what it prints depends on what the value
/// holds alone and is what [`compact_text`] says.
#[verifier::external_body]
fn value_text(value: &Value) -> (text: Option<String>)
    ensures
        string_view(text) == Some(compact_text(value_tree(*value))),
{
    serde_json::to_string(value).ok()
}

/// The JSON document that a run of bytes is the text of.
pub fn read_json(bytes: &[u8]) -> (json: Option<Json>)
    ensures
        match json {
            Some(json) => json_document(bytes@) == Some(json@),
            None => json_document(bytes@) is None,
        },
{
    match value_from_slice(bytes) {
        Some(value) => Some(json_of(&value)),
        None => None,
    }
}

/// The key under which a request is kept until its response arrives: the
/// compact text of the request's id.
pub fn request_key(id: &Json) -> (key: Option<String>)
    ensures
        string_view(key) == Some(compact_text(id@)),
{
    let value = value_of(id);
    value_text(&value)
}

} // verus!
