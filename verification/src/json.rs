//! JSON values as the bridge reads them.

use crate::text::str_view;
use crate::wire::Fraction;
use vstd::prelude::*;

verus! {

/// A JSON value.
///
/// An object lists its members in any order. Where a name occurs more than
/// once, the last member with that name counts.
#[derive(Debug)]
pub enum Json {
    Null,
    Bool(bool),
    /// An integer from zero upwards.
    Unsigned(u64),
    /// An integer of either sign.
    Signed(i64),
    /// A number that is not an integer of 64 bits.
    Fraction(Fraction),
    Text(String),
    Array(Vec<Json>),
    Object(Vec<(String, Json)>),
}

/// What a JSON value holds: integers without a machine type, text as
/// characters, objects as maps.
pub enum JsonView {
    Null,
    Bool(bool),
    Integer(int),
    Fraction(Fraction),
    Text(Seq<char>),
    Array(Seq<JsonView>),
    Object(Map<Seq<char>, JsonView>),
}

/// The map that a list of members stands for: the last member of a name wins.
pub open spec fn member_map(members: Seq<(Seq<char>, JsonView)>) -> Map<Seq<char>, JsonView>
    decreases members.len(),
{
    if members.len() == 0 {
        Map::empty()
    } else {
        member_map(members.drop_last()).insert(members.last().0, members.last().1)
    }
}

/// What a JSON value holds.
pub open spec fn tree(value: Json) -> JsonView
    decreases value,
{
    match value {
        Json::Null => JsonView::Null,
        Json::Bool(flag) => JsonView::Bool(flag),
        Json::Unsigned(number) => JsonView::Integer(number as int),
        Json::Signed(number) => JsonView::Integer(number as int),
        Json::Fraction(number) => JsonView::Fraction(number),
        Json::Text(text) => JsonView::Text(text@),
        Json::Array(items) => JsonView::Array(item_trees(items@)),
        Json::Object(members) => JsonView::Object(member_map(member_trees(members@))),
    }
}

/// What the items of an array hold, one by one.
pub open spec fn item_trees(items: Seq<Json>) -> Seq<JsonView>
    decreases items,
{
    if items.len() == 0 {
        Seq::empty()
    } else {
        item_trees(items.drop_last()).push(tree(items.last()))
    }
}

/// The names of an object's members and what the members hold, one by one.
pub open spec fn member_trees(members: Seq<(String, Json)>) -> Seq<(Seq<char>, JsonView)>
    decreases members,
{
    if members.len() == 0 {
        Seq::empty()
    } else {
        member_trees(members.drop_last()).push((members.last().0@, tree(members.last().1)))
    }
}

impl View for Json {
    type V = JsonView;

    open spec fn view(&self) -> JsonView {
        tree(*self)
    }
}

/// `item_trees` goes item by item.
pub(crate) proof fn lemma_item_trees(items: Seq<Json>)
    ensures
        item_trees(items).len() == items.len(),
        forall|i: int| 0 <= i < items.len() ==> #[trigger] item_trees(items)[i] == items[i]@,
    decreases items.len(),
{
    if items.len() > 0 {
        lemma_item_trees(items.drop_last());
        assert forall|i: int| 0 <= i < items.len() implies #[trigger] item_trees(items)[i]
            == items[i]@ by {
            if i < items.len() - 1 {
                assert(item_trees(items.drop_last())[i] == items.drop_last()[i]@);
            }
        }
    }
}

/// `member_trees` goes member by member.
pub(crate) proof fn lemma_member_trees(members: Seq<(String, Json)>)
    ensures
        member_trees(members).len() == members.len(),
        forall|i: int|
            0 <= i < members.len() ==> #[trigger] member_trees(members)[i] == (
                members[i].0@,
                members[i].1@,
            ),
    decreases members.len(),
{
    if members.len() > 0 {
        lemma_member_trees(members.drop_last());
        assert forall|i: int| 0 <= i < members.len() implies #[trigger] member_trees(members)[i]
            == (members[i].0@, members[i].1@) by {
            if i < members.len() - 1 {
                assert(member_trees(members.drop_last())[i] == (
                    members.drop_last()[i].0@,
                    members.drop_last()[i].1@,
                ));
            }
        }
    }
}

/// The view of an optional value.
pub open spec fn json_view(value: Option<&Json>) -> Option<JsonView> {
    match value {
        Some(value) => Some(value@),
        None => None,
    }
}

impl JsonView {
    /// The member `key`, where the value is an object that has one.
    pub open spec fn get(self, key: Seq<char>) -> Option<JsonView> {
        match self {
            JsonView::Object(members) if members.contains_key(key) => Some(members[key]),
            _ => None,
        }
    }

    /// The member `second` of the member `first`.
    pub open spec fn get2(self, first: Seq<char>, second: Seq<char>) -> Option<JsonView> {
        match self.get(first) {
            Some(value) => value.get(second),
            None => None,
        }
    }

    /// The member `third` of the member `second` of the member `first`.
    pub open spec fn get3(self, first: Seq<char>, second: Seq<char>, third: Seq<char>) -> Option<
        JsonView,
    > {
        match self.get2(first, second) {
            Some(value) => value.get(third),
            None => None,
        }
    }

    /// The characters of a text.
    pub open spec fn text(self) -> Option<Seq<char>> {
        match self {
            JsonView::Text(text) => Some(text),
            _ => None,
        }
    }

    /// The value of a boolean.
    pub open spec fn flag(self) -> Option<bool> {
        match self {
            JsonView::Bool(flag) => Some(flag),
            _ => None,
        }
    }

    /// The value of an integer that is not negative and fits 64 bits.
    pub open spec fn natural(self) -> Option<u64> {
        match self {
            JsonView::Integer(number) if 0 <= number <= u64::MAX => Some(number as u64),
            _ => None,
        }
    }
}

/// The text that an optional value holds.
pub open spec fn text_in(value: Option<JsonView>) -> Option<Seq<char>> {
    match value {
        Some(value) => value.text(),
        None => None,
    }
}

/// The boolean that an optional value holds.
pub open spec fn flag_in(value: Option<JsonView>) -> Option<bool> {
    match value {
        Some(value) => value.flag(),
        None => None,
    }
}

/// The non-negative integer that an optional value holds.
pub open spec fn natural_in(value: Option<JsonView>) -> Option<u64> {
    match value {
        Some(value) => value.natural(),
        None => None,
    }
}

/// Where `index` is the last member named `key`, the map holds that member.
pub(crate) proof fn lemma_last_member(
    members: Seq<(Seq<char>, JsonView)>,
    key: Seq<char>,
    index: int,
)
    requires
        0 <= index < members.len(),
        members[index].0 == key,
        forall|j: int| index < j < members.len() ==> (#[trigger] members[j]).0 != key,
    ensures
        member_map(members).contains_key(key),
        member_map(members)[key] == members[index].1,
    decreases members.len(),
{
    if index < members.len() - 1 {
        assert(members[members.len() - 1].0 != key);
        lemma_last_member(members.drop_last(), key, index);
    }
}

/// Where no member is named `key`, the map does not hold it.
pub(crate) proof fn lemma_no_member(members: Seq<(Seq<char>, JsonView)>, key: Seq<char>)
    requires
        forall|j: int| 0 <= j < members.len() ==> (#[trigger] members[j]).0 != key,
    ensures
        !member_map(members).contains_key(key),
    decreases members.len(),
{
    if members.len() > 0 {
        assert(members[members.len() - 1].0 != key);
        assert forall|j: int| 0 <= j < members.drop_last().len() implies (
        #[trigger] members.drop_last()[j]).0 != key by {
            assert(members[j].0 != key);
        }
        lemma_no_member(members.drop_last(), key);
    }
}

impl Json {
    /// The member `key`, where the value is an object that has one.
    pub fn get(&self, key: &str) -> (member: Option<&Json>)
        ensures
            json_view(member) == self@.get(key@),
    {
        match self {
            Json::Object(members) => {
                let ghost views = member_trees(members@);
                proof {
                    lemma_member_trees(members@);
                }
                let mut i: usize = members.len();
                while i > 0
                    invariant
                        i <= members@.len(),
                        views.len() == members@.len(),
                        forall|j: int|
                            0 <= j < views.len() ==> #[trigger] views[j] == (
                                members@[j].0@,
                                members@[j].1@,
                            ),
                        self@ == JsonView::Object(member_map(views)),
                        forall|j: int| i <= j < views.len() ==> (#[trigger] views[j]).0 != key@,
                    decreases i,
                {
                    i = i - 1;
                    if members[i].0.as_str().eq(key) {
                        proof {
                            lemma_last_member(views, key@, i as int);
                        }
                        return Some(&members[i].1);
                    }
                }
                proof {
                    lemma_no_member(views, key@);
                }
                None
            },
            _ => None,
        }
    }

    /// The member `second` of the member `first`.
    pub fn get2(&self, first: &str, second: &str) -> (member: Option<&Json>)
        ensures
            json_view(member) == self@.get2(first@, second@),
    {
        match self.get(first) {
            Some(value) => value.get(second),
            None => None,
        }
    }

    /// The member `third` of the member `second` of the member `first`.
    pub fn get3(&self, first: &str, second: &str, third: &str) -> (member: Option<&Json>)
        ensures
            json_view(member) == self@.get3(first@, second@, third@),
    {
        match self.get2(first, second) {
            Some(value) => value.get(third),
            None => None,
        }
    }

    /// The text of a text value.
    pub fn as_str(&self) -> (text: Option<&str>)
        ensures
            str_view(text) == self@.text(),
    {
        match self {
            Json::Text(text) => Some(text.as_str()),
            _ => None,
        }
    }

    /// The value of a boolean.
    pub fn as_bool(&self) -> (flag: Option<bool>)
        ensures
            flag == self@.flag(),
    {
        match self {
            Json::Bool(flag) => Some(*flag),
            _ => None,
        }
    }
}

/// The value of an integer that is not negative.
pub fn nonnegative_u64(value: &Json) -> (number: Option<u64>)
    ensures
        number == value@.natural(),
{
    match value {
        Json::Unsigned(number) => Some(*number),
        Json::Signed(number) => if *number >= 0 {
            Some(*number as u64)
        } else {
            None
        },
        _ => None,
    }
}

/// The text that an optional value holds.
pub fn str_in(value: Option<&Json>) -> (text: Option<&str>)
    ensures
        str_view(text) == text_in(json_view(value)),
{
    match value {
        Some(value) => value.as_str(),
        None => None,
    }
}

/// The boolean that an optional value holds.
pub fn bool_in(value: Option<&Json>) -> (flag: Option<bool>)
    ensures
        flag == flag_in(json_view(value)),
{
    match value {
        Some(value) => value.as_bool(),
        None => None,
    }
}

/// The non-negative integer that an optional value holds.
pub fn u64_in(value: Option<&Json>) -> (number: Option<u64>)
    ensures
        number == natural_in(json_view(value)),
{
    match value {
        Some(value) => nonnegative_u64(value),
        None => None,
    }
}

} // verus!
