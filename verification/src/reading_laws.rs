//! Laws of what is read: members of JSON values, token counts, digits and clock
//! readings.

use crate::clock::{millis_between, unix_millis, unix_seconds};
use crate::json::{
    item_trees, lemma_item_trees, lemma_last_member, lemma_no_member, member_map, Json, JsonView,
};
use crate::record::{
    breakdown_in, timing_event_id_of, usage_event_id_of, UsageBreakdown, UsageSignature,
};
use crate::text::{
    decimal, digit, is_white_space, lemma_trimmed_blank, signed_decimal, trimmed, trimmed_end,
    trimmed_start,
};
use vstd::prelude::*;

verus! {

/// A member of an object is what the object holds under the name; a value that
/// is no object has no members.
pub proof fn law_members_are_found_by_name(value: JsonView, name: Seq<char>, member: JsonView)
    ensures
        value.get(name) == Some(member) <==> (value matches JsonView::Object(members)
            && members.contains_key(name) && members[name] == member),
        value.get(name) is None <==> !(value matches JsonView::Object(members)
            && members.contains_key(name)),
{
}

/// Members of members are found step by step.
pub proof fn law_members_of_members_are_found(
    value: JsonView,
    first: Seq<char>,
    second: Seq<char>,
    third: Seq<char>,
    inner: JsonView,
)
    ensures
        value.get(first) == Some(inner) ==> value.get2(first, second) == inner.get(second),
        value.get(first) is None ==> value.get2(first, second) is None,
        value.get2(first, second) == Some(inner) ==> value.get3(first, second, third) == inner.get(
            third,
        ),
        value.get2(first, second) is None ==> value.get3(first, second, third) is None,
{
}

/// Only texts are read as texts, only booleans as flags, and only integers from
/// zero up to the largest of 64 bits as counts, each with its own value.
pub proof fn law_values_are_read_as_what_they_are(
    value: JsonView,
    text: Seq<char>,
    flag: bool,
    count: u64,
)
    ensures
        value.text() == Some(text) <==> value == JsonView::Text(text),
        value.flag() == Some(flag) <==> value == JsonView::Bool(flag),
        value.natural() == Some(count) <==> value == JsonView::Integer(count as int),
{
}

/// A JSON value holds what it was made of: numbers with their value, texts with
/// their characters, arrays with their items in order.
pub proof fn law_values_hold_what_they_are_made_of(
    flag: bool,
    natural: u64,
    number: i64,
    text: String,
    items: Vec<Json>,
)
    ensures
        Json::Null@ == JsonView::Null,
        Json::Bool(flag)@ == JsonView::Bool(flag),
        Json::Unsigned(natural)@ == JsonView::Integer(natural as int),
        Json::Signed(number)@ == JsonView::Integer(number as int),
        Json::Text(text)@ == JsonView::Text(text@),
        Json::Array(items)@ matches JsonView::Array(held) && held.len() == items@.len() && (forall|
            i: int,
        |
            0 <= i < items@.len() ==> #[trigger] held[i] == items@[i]@),
{
    lemma_item_trees(items@);
    assert(Json::Array(items)@ == JsonView::Array(item_trees(items@)));
}

/// Of members with one name the last counts, and a name that no member has is
/// not there.
pub proof fn law_the_last_member_counts(
    members: Seq<(Seq<char>, JsonView)>,
    name: Seq<char>,
    index: int,
)
    requires
        index < members.len(),
        index >= 0 ==> members[index].0 == name,
        forall|j: int| index < j < members.len() ==> (#[trigger] members[j]).0 != name,
    ensures
        index >= 0 ==> member_map(members).contains_key(name) && member_map(members)[name]
            == members[index].1,
        index < 0 ==> !member_map(members).contains_key(name),
{
    if index >= 0 {
        lemma_last_member(members, name, index);
    } else {
        lemma_no_member(members, name);
    }
}

/// The value holds the count under the name.
pub open spec fn holds_count(value: JsonView, name: Seq<char>, count: u64) -> bool {
    value.get(name) == Some(JsonView::Integer(count as int))
}

/// The value holds the counts, each under its own name. Cache writes may be
/// missing: then there were none.
pub open spec fn holds_counts(value: JsonView, counts: UsageBreakdown) -> bool {
    &&& holds_count(value, "inputTokens"@, counts.input_tokens)
    &&& holds_count(value, "cachedInputTokens"@, counts.cached_input_tokens)
    &&& holds_count(value, "outputTokens"@, counts.output_tokens)
    &&& holds_count(value, "reasoningOutputTokens"@, counts.reasoning_output_tokens)
    &&& holds_count(value, "totalTokens"@, counts.total_tokens)
    &&& forall|written: u64| #[trigger]
        holds_count(value, "cacheWriteInputTokens"@, written) ==> counts.cache_write_input_tokens
            == written
    &&& (forall|written: u64| !#[trigger] holds_count(value, "cacheWriteInputTokens"@, written))
        ==> counts.cache_write_input_tokens == 0
}

/// Token counts are read exactly where a value holds them, each from the member
/// of its own name.
pub proof fn law_counts_are_read_by_name(value: JsonView, counts: UsageBreakdown)
    ensures
        breakdown_in(value) == Some(counts) <==> holds_counts(value, counts),
{
    let name = "cacheWriteInputTokens"@;
    if let Some(JsonView::Integer(number)) = value.get(name) {
        if 0 <= number <= u64::MAX {
            assert(holds_count(value, name, number as u64));
        }
    }
}

/// The six counts agree.
pub open spec fn same_counts(signature: UsageSignature, counts: UsageBreakdown) -> bool {
    &&& signature.input_tokens == counts.input_tokens
    &&& signature.cached_input_tokens == counts.cached_input_tokens
    &&& signature.cache_write_input_tokens == counts.cache_write_input_tokens
    &&& signature.output_tokens == counts.output_tokens
    &&& signature.reasoning_output_tokens == counts.reasoning_output_tokens
    &&& signature.total_tokens == counts.total_tokens
}

/// A signature tells counts apart exactly where one of the six differs.
pub proof fn law_signatures_tell_counts_apart(a: UsageBreakdown, b: UsageBreakdown)
    ensures
        same_counts(a.signature_spec(), a),
        a.signature_spec() == b.signature_spec() <==> a == b,
{
}

/// Nothing was used: every count but the total is zero.
pub open spec fn nothing_used(counts: UsageBreakdown) -> bool {
    &&& counts.input_tokens == 0
    &&& counts.cached_input_tokens == 0
    &&& counts.cache_write_input_tokens == 0
    &&& counts.output_tokens == 0
    &&& counts.reasoning_output_tokens == 0
}

/// Counts are billable unless nothing was used.
pub proof fn law_counts_are_billable_unless_nothing_was_used(counts: UsageBreakdown)
    ensures
        counts.is_billable() <==> !nothing_used(counts),
{
}

/// The number that a run of digits stands for.
pub open spec fn number_of(digits: Seq<char>) -> nat
    decreases digits.len(),
{
    if digits.len() == 0 {
        0
    } else {
        number_of(digits.drop_last()) * 10 + (digits.last() as int - '0' as int) as nat
    }
}

/// A number is written in decimal digits that stand for it, without a zero in
/// front of others.
pub proof fn law_digits_stand_for_their_number(number: nat)
    ensures
        number_of(decimal(number)) == number,
        decimal(number).len() > 0,
        forall|i: int|
            0 <= i < decimal(number).len() ==> '0' <= #[trigger] decimal(number)[i] <= '9',
        decimal(number).len() > 1 ==> decimal(number)[0] != '0',
    decreases number,
{
    reveal_with_fuel(number_of, 2);
    if number < 10 {
        assert(decimal(number).drop_last() =~= Seq::<char>::empty());
        assert(decimal(number).last() as int == 48 + number);
    } else {
        let front = decimal(number / 10);
        law_digits_stand_for_their_number(number / 10);
        assert(decimal(number).drop_last() =~= front);
        assert(decimal(number).last() as int == 48 + number % 10);
        assert(decimal(number)[0] == front[0]);
        if number / 10 < 10 {
            assert(front == seq![digit(number / 10)]);
            assert(front[0] as int == 48 + number / 10);
        } else {
            lemma_long_digits(number / 10);
        }
        assert forall|i: int| 0 <= i < decimal(number).len() implies '0'
            <= #[trigger] decimal(number)[i] <= '9' by {
            if i < front.len() {
                assert(decimal(number)[i] == front[i]);
            }
        }
    }
}

proof fn lemma_long_digits(number: nat)
    requires
        number >= 10,
    ensures
        decimal(number).len() > 1,
    decreases number,
{
    if number / 10 >= 10 {
        lemma_long_digits(number / 10);
    } else {
        assert(decimal(number / 10).len() == 1);
    }
}

/// The id of a usage record names the thread, the turn and the number, in the
/// namespace that the import looks for; that of a timing record names the thread
/// and the turn in a namespace of its own.
pub proof fn law_ids_name_thread_and_turn(thread_id: Seq<char>, turn_id: Seq<char>, number: nat)
    ensures
        usage_event_id_of(thread_id, turn_id, number) == "codex_sidebar:usage-v1:"@ + thread_id
            + ":"@ + turn_id + ":"@ + decimal(number),
        timing_event_id_of(thread_id, turn_id) == "codex_sidebar:timing-v1:"@ + thread_id + ":"@
            + turn_id,
{
}

/// `millis` is the time from `started` to `now` in whole milliseconds, zero
/// where `now` comes first, or the largest number where the time is longer.
pub open spec fn whole_millis(started: u128, now: u128, millis: u64) -> bool {
    if now < started {
        millis == 0
    } else {
        &&& millis * 1_000_000 <= now - started
        &&& now - started < (millis + 1) * 1_000_000 || millis == u64::MAX
    }
}

/// Elapsed time is counted in whole milliseconds.
pub proof fn law_elapsed_time_is_whole_millis(started: u128, now: u128)
    ensures
        whole_millis(started, now, millis_between(started, now)),
{
}

/// `millis` is a reading of the system clock in whole milliseconds, or the
/// largest number where the reading is larger; zero where there is none.
pub open spec fn reads_millis(unix: Option<u128>, millis: i64) -> bool {
    match unix {
        Some(nanos) => {
            &&& 0 <= millis * 1_000_000 <= nanos
            &&& nanos < (millis + 1) * 1_000_000 || millis == i64::MAX
        },
        None => millis == 0,
    }
}

/// The time of day is counted in whole milliseconds and in whole seconds.
pub proof fn law_the_clock_is_read_in_whole_units(nanos: u128)
    ensures
        reads_millis(Some(nanos), unix_millis(Some(nanos))),
        reads_millis(None, unix_millis(None)),
        unix_seconds(None) == 0,
        nanos / 1_000_000_000 <= i64::MAX ==> 0 <= unix_seconds(Some(nanos)) * 1_000_000_000
            <= nanos < (unix_seconds(Some(nanos)) + 1) * 1_000_000_000,
{
}

/// The text is white space alone, or nothing.
pub open spec fn only_white_space(text: Seq<char>) -> bool {
    forall|i: int| 0 <= i < text.len() ==> is_white_space(#[trigger] text[i])
}

/// `core` stands in `text` between white space, and neither begins nor ends with
/// any.
pub open spec fn is_core(
    text: Seq<char>,
    before: Seq<char>,
    core: Seq<char>,
    behind: Seq<char>,
) -> bool {
    &&& text == before + core + behind
    &&& only_white_space(before)
    &&& only_white_space(behind)
    &&& core.len() > 0 ==> !is_white_space(core.first()) && !is_white_space(core.last())
}

/// Trimming takes off the white space at the two ends and nothing else.
pub proof fn law_trimming_takes_off_white_space(text: Seq<char>) -> (ends: (Seq<char>, Seq<char>))
    ensures
        is_core(text, ends.0, trimmed(text), ends.1),
        trimmed(text).len() == 0 <==> only_white_space(text),
{
    let front = lemma_front(text);
    let rest = trimmed_start(text);
    let back = lemma_back(rest);
    assert(text =~= front + trimmed(text) + back);
    lemma_trimmed_blank(text);
    if trimmed(text).len() > 0 {
        assert(trimmed(text).first() == rest.first());
    }
    (front, back)
}

proof fn lemma_front(text: Seq<char>) -> (front: Seq<char>)
    ensures
        text == front + trimmed_start(text),
        only_white_space(front),
        trimmed_start(text).len() > 0 ==> !is_white_space(trimmed_start(text).first()),
    decreases text.len(),
{
    if text.len() > 0 && is_white_space(text.first()) {
        let rest = lemma_front(text.drop_first());
        let front = seq![text.first()] + rest;
        let core = trimmed_start(text.drop_first());
        assert(text =~= seq![text.first()] + text.drop_first());
        assert(seq![text.first()] + (rest + core) =~= front + core);
        front
    } else {
        assert(text =~= Seq::<char>::empty() + text);
        Seq::empty()
    }
}

proof fn lemma_back(text: Seq<char>) -> (back: Seq<char>)
    ensures
        text == trimmed_end(text) + back,
        only_white_space(back),
        trimmed_end(text).len() > 0 ==> !is_white_space(trimmed_end(text).last()),
    decreases text.len(),
{
    if text.len() > 0 && is_white_space(text.last()) {
        let rest = lemma_back(text.drop_last());
        let back = rest.push(text.last());
        let core = trimmed_end(text.drop_last());
        assert(text =~= text.drop_last().push(text.last()));
        assert((core + rest).push(text.last()) =~= core + back);
        back
    } else {
        assert(text =~= text + Seq::<char>::empty());
        Seq::empty()
    }
}

/// An integer is written as its digits, after a minus sign where it is negative.
pub proof fn law_negative_numbers_have_a_minus_sign(number: int)
    ensures
        number >= 0 ==> signed_decimal(number) == decimal(number as nat),
        number < 0 ==> signed_decimal(number) == seq!['-'] + decimal((0 - number) as nat),
{
}

} // verus!
