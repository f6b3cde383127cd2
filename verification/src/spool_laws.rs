//! Laws of the spool: what a pass over it finds.

use crate::spool::{
    clamped, complete_length, complete_lines, cursor_after, first_line_feed, line_content,
    line_offset, record_lines, stripped, LineView,
};
use vstd::prelude::*;

verus! {

/// A byte run without a line feed.
pub open spec fn one_line(bytes: Seq<u8>) -> bool {
    forall|i: int| 0 <= i < bytes.len() ==> #[trigger] bytes[i] != 10
}

/// Byte runs one after another.
pub open spec fn joined(parts: Seq<Seq<u8>>) -> Seq<u8>
    decreases parts.len(),
{
    if parts.len() == 0 {
        Seq::empty()
    } else {
        parts.first() + joined(parts.drop_first())
    }
}

/// Nothing before the first line feed is a line feed.
proof fn lemma_first_line_feed(bytes: Seq<u8>)
    ensures
        first_line_feed(bytes) <= bytes.len(),
        forall|i: int| 0 <= i < first_line_feed(bytes) ==> #[trigger] bytes[i] != 10,
        first_line_feed(bytes) < bytes.len() ==> bytes[first_line_feed(bytes) as int] == 10,
    decreases bytes.len(),
{
    if bytes.len() > 0 && bytes.first() != 10 {
        let rest = bytes.drop_first();
        lemma_first_line_feed(rest);
        assert forall|i: int| 0 <= i < first_line_feed(bytes) implies #[trigger] bytes[i] != 10 by {
            if i > 0 {
                assert(rest[i - 1] == bytes[i]);
            }
        }
        if first_line_feed(bytes) < bytes.len() {
            assert(rest[first_line_feed(rest) as int] == bytes[first_line_feed(bytes) as int]);
        }
    }
}

/// The first line feed is where it is, whatever follows.
proof fn lemma_line_feed_at(bytes: Seq<u8>, end: nat)
    requires
        end < bytes.len(),
        bytes[end as int] == 10,
        forall|i: int| 0 <= i < end ==> #[trigger] bytes[i] != 10,
    ensures
        first_line_feed(bytes) == end,
{
    lemma_first_line_feed(bytes);
    let found = first_line_feed(bytes);
    if found < end {
        assert(bytes[found as int] != 10);
    }
    if end < found {
        assert(bytes[end as int] != 10);
    }
}

/// The complete lines make up the spool as far as its last line feed, and
/// nothing after that is a line feed.
pub proof fn law_lines_make_up_the_spool(bytes: Seq<u8>)
    ensures
        complete_length(bytes) <= bytes.len(),
        joined(complete_lines(bytes)) == bytes.take(complete_length(bytes) as int),
        one_line(bytes.skip(complete_length(bytes) as int)),
    decreases bytes.len(),
{
    lemma_first_line_feed(bytes);
    let end = first_line_feed(bytes);
    if end < bytes.len() {
        let line = bytes.take(end as int + 1);
        let rest = bytes.skip(end as int + 1);
        law_lines_make_up_the_spool(rest);
        let lines = seq![line] + complete_lines(rest);
        assert(lines.drop_first() =~= complete_lines(rest));
        assert(line + rest.take(complete_length(rest) as int) =~= bytes.take(
            complete_length(bytes) as int,
        ));
        assert(bytes.skip(complete_length(bytes) as int) =~= rest.skip(
            complete_length(rest) as int,
        ));
    } else {
        assert(bytes.take(0) =~= Seq::<u8>::empty());
        assert(bytes.skip(0) =~= bytes);
    }
}

/// A complete line ends with a line feed and holds no other.
pub proof fn law_lines_end_with_their_only_line_feed(bytes: Seq<u8>, index: int)
    requires
        0 <= index < complete_lines(bytes).len(),
    ensures
        complete_lines(bytes)[index].len() > 0,
        complete_lines(bytes)[index].last() == 10,
        one_line(complete_lines(bytes)[index].drop_last()),
    decreases bytes.len(),
{
    lemma_first_line_feed(bytes);
    let end = first_line_feed(bytes);
    let rest = bytes.skip(end as int + 1);
    if index > 0 {
        law_lines_end_with_their_only_line_feed(rest, index - 1);
        assert(complete_lines(bytes)[index] == complete_lines(rest)[index - 1]);
    }
}

/// The cursor moves past the complete lines and no further, so that a record
/// still being written is left for the next pass.
pub proof fn law_cursor_stops_after_the_last_complete_line(bytes: Seq<u8>, start: i64)
    ensures
        cursor_after(complete_lines(bytes), start) == clamped(start + complete_length(bytes)),
    decreases bytes.len(),
{
    lemma_first_line_feed(bytes);
    let end = first_line_feed(bytes);
    if end < bytes.len() {
        let line = bytes.take(end as int + 1);
        let rest = bytes.skip(end as int + 1);
        let lines = seq![line] + complete_lines(rest);
        assert(lines.drop_first() =~= complete_lines(rest));
        law_cursor_stops_after_the_last_complete_line(rest, clamped(start + line.len()));
    }
}

/// Lines found in two goes are the lines found in one.
proof fn lemma_lines_resume(first: Seq<u8>, second: Seq<u8>)
    ensures
        complete_lines(first + second) == complete_lines(first) + complete_lines(
            first.skip(complete_length(first) as int) + second,
        ),
    decreases first.len(),
{
    lemma_first_line_feed(first);
    let end = first_line_feed(first);
    if end < first.len() {
        let whole = first + second;
        let rest = first.skip(end as int + 1);
        assert(whole[end as int] == 10);
        assert forall|i: int| 0 <= i < end implies #[trigger] whole[i] != 10 by {
            assert(whole[i] == first[i]);
        }
        lemma_line_feed_at(whole, end);
        assert(whole.take(end as int + 1) =~= first.take(end as int + 1));
        assert(whole.skip(end as int + 1) =~= rest + second);
        lemma_lines_resume(rest, second);
        law_lines_make_up_the_spool(rest);
        assert(first.skip(complete_length(first) as int) =~= rest.skip(
            complete_length(rest) as int,
        ));
        let line = first.take(end as int + 1);
        assert(seq![line] + (complete_lines(rest) + complete_lines(
            rest.skip(complete_length(rest) as int) + second,
        )) =~= (seq![line] + complete_lines(rest)) + complete_lines(
            rest.skip(complete_length(rest) as int) + second,
        ));
    } else {
        assert(first.skip(0) =~= first);
        assert(Seq::<Seq<u8>>::empty() + complete_lines(first + second) =~= complete_lines(
            first + second,
        ));
    }
}

/// Records found in lines one after another are found part by part.
proof fn lemma_record_lines_split(first: Seq<Seq<u8>>, second: Seq<Seq<u8>>, start: i64)
    ensures
        record_lines(first + second, start) == record_lines(first, start) + record_lines(
            second,
            cursor_after(first, start),
        ),
        cursor_after(first + second, start) == cursor_after(second, cursor_after(first, start)),
    decreases first.len(),
{
    if first.len() == 0 {
        assert(first + second =~= second);
        assert(Seq::<LineView>::empty() + record_lines(second, start) =~= record_lines(
            second,
            start,
        ));
    } else {
        let line = first.first();
        let cursor = clamped(start + line.len());
        assert((first + second).drop_first() =~= first.drop_first() + second);
        lemma_record_lines_split(first.drop_first(), second, cursor);
        let a = record_lines(first.drop_first(), cursor);
        let b = record_lines(second, cursor_after(first, start));
        if stripped(line).len() > 0 {
            let found = seq![LineView { offset: line_offset(cursor, line), content: stripped(line) }];
            assert(found + (a + b) =~= (found + a) + b);
        }
    }
}

/// A pass that stops in the middle of a record loses nothing: the pass over
/// what there was, and the next pass from its cursor on, find together what one
/// pass over everything finds, and leave the cursor at the same place.
pub proof fn law_passes_resume(first: Seq<u8>, second: Seq<u8>, start: i64)
    ensures
        ({
            let left = first.skip(complete_length(first) as int) + second;
            let cursor = cursor_after(complete_lines(first), start);
            &&& record_lines(complete_lines(first + second), start) == record_lines(
                complete_lines(first),
                start,
            ) + record_lines(complete_lines(left), cursor)
            &&& cursor_after(complete_lines(first + second), start) == cursor_after(
                complete_lines(left),
                cursor,
            )
        }),
{
    lemma_lines_resume(first, second);
    lemma_record_lines_split(
        complete_lines(first),
        complete_lines(first.skip(complete_length(first) as int) + second),
        start,
    );
}

/// A record that keeps to one line of the spool: it is not empty, holds no line
/// feed and does not end with a carriage return.
pub open spec fn fits_a_line(record: Seq<u8>) -> bool {
    record.len() > 0 && one_line(record) && record.last() != 13
}

/// The spool that a list of records makes, a line each.
pub open spec fn spool_of(records: Seq<Seq<u8>>) -> Seq<u8>
    decreases records.len(),
{
    if records.len() == 0 {
        Seq::empty()
    } else {
        records.first().push(10) + spool_of(records.drop_first())
    }
}

/// What the lines hold.
pub open spec fn contents(lines: Seq<LineView>) -> Seq<Seq<u8>> {
    lines.map_values(|line: LineView| line.content)
}

/// A pass over the spool reads back the records that were written to it, in
/// their order, and leaves the cursor behind the last of them.
pub proof fn law_written_records_are_read_back(records: Seq<Seq<u8>>, start: i64)
    requires
        forall|i: int| 0 <= i < records.len() ==> fits_a_line(#[trigger] records[i]),
    ensures
        contents(record_lines(complete_lines(spool_of(records)), start)) == records,
        complete_length(spool_of(records)) == spool_of(records).len(),
    decreases records.len(),
{
    let spool = spool_of(records);
    if records.len() > 0 {
        let record = records.first();
        let others = records.drop_first();
        let line = record.push(10);
        let rest = spool_of(others);
        assert(fits_a_line(records[0]));
        assert forall|i: int| 0 <= i < others.len() implies fits_a_line(#[trigger] others[i]) by {
            assert(others[i] == records[i + 1]);
        }
        assert(spool == line + rest);
        assert forall|i: int| 0 <= i < record.len() implies #[trigger] spool[i] != 10 by {
            assert(spool[i] == record[i]);
        }
        assert(spool[record.len() as int] == 10);
        lemma_line_feed_at(spool, record.len());
        assert(spool.take(record.len() as int + 1) =~= line);
        assert(spool.skip(record.len() as int + 1) =~= rest);
        let lines = seq![line] + complete_lines(rest);
        assert(complete_lines(spool) == lines);
        assert(lines.drop_first() =~= complete_lines(rest));
        assert(line.drop_last() =~= record);
        assert(record[record.len() - 1] != 10);
        assert(stripped(record) == record);
        assert(stripped(line) == record);
        let cursor = clamped(start + line.len());
        law_written_records_are_read_back(others, cursor);
        let found = record_lines(complete_lines(rest), cursor);
        let first = LineView { offset: line_offset(cursor, line), content: record };
        assert(record_lines(lines, start) == seq![first] + found);
        assert(contents(seq![first] + found) =~= seq![record] + contents(found));
        assert(seq![record] + others =~= records);
    } else {
        assert(contents(record_lines(complete_lines(spool), start)) =~= records);
    }
}

/// A line's content is the line without its ending: a line feed, a carriage
/// return and a line feed, a carriage return, or nothing.
pub proof fn law_line_endings_come_off(content: Seq<u8>)
    requires
        content.len() > 0 ==> content.last() != 10 && content.last() != 13,
    ensures
        line_content(content) == content,
        line_content(content.push(10)) == content,
        line_content(content.push(13)) == content,
        line_content(content.push(13).push(10)) == content,
        line_content(content.push(10).push(10)) == content.push(10),
        line_content(content.push(13).push(13)) == content.push(13),
{
    assert(content.push(10).drop_last() =~= content);
    assert(content.push(13).drop_last() =~= content);
    assert(content.push(13).push(10).drop_last() =~= content.push(13));
    assert(content.push(10).push(10).drop_last() =~= content.push(10));
    assert(content.push(13).push(13).drop_last() =~= content.push(13));
}

/// Every byte is a line feed or a carriage return.
pub open spec fn only_line_ends(bytes: Seq<u8>) -> bool {
    forall|i: int| 0 <= i < bytes.len() ==> #[trigger] bytes[i] == 10 || bytes[i] == 13
}

/// Of a line of the spool the line feeds and carriage returns at its end come
/// off, all of them, and nothing else.
pub proof fn law_all_line_ends_come_off(line: Seq<u8>) -> (ending: Seq<u8>)
    ensures
        line == stripped(line) + ending,
        only_line_ends(ending),
        stripped(line).len() > 0 ==> stripped(line).last() != 10 && stripped(line).last() != 13,
    decreases line.len(),
{
    if line.len() > 0 && (line.last() == 10 || line.last() == 13) {
        let rest = law_all_line_ends_come_off(line.drop_last());
        let ending = rest.push(line.last());
        let content = stripped(line.drop_last());
        assert(line =~= line.drop_last().push(line.last()));
        assert((content + rest).push(line.last()) =~= content + ending);
        ending
    } else {
        assert(line =~= line + Seq::<u8>::empty());
        Seq::empty()
    }
}

/// `found` stands in the bytes as a line: it begins where the bytes begin or
/// behind a line feed, and is followed by line ends up to the next line feed.
/// `start` is where the bytes themselves stand.
pub open spec fn stands_in(bytes: Seq<u8>, start: i64, found: LineView, end: int) -> bool {
    let from = found.offset - start;
    &&& 0 <= from < end <= bytes.len()
    &&& from == 0 || bytes[from - 1] == 10
    &&& bytes[end - 1] == 10
    &&& found.content.len() > 0
    &&& found.content.last() != 10 && found.content.last() != 13
    &&& from + found.content.len() < end
    &&& bytes.subrange(from, from + found.content.len()) == found.content
    &&& only_line_ends(bytes.subrange(from + found.content.len(), end))
    &&& one_line(found.content)
}

/// Every line that a pass finds stands in the spool where the pass says, as far
/// as offsets of 64 bits go.
pub proof fn law_lines_stand_where_they_are_found(bytes: Seq<u8>, start: i64, index: int) -> (end:
    int)
    requires
        0 <= index < record_lines(complete_lines(bytes), start).len(),
        0 <= start,
        start + bytes.len() <= i64::MAX,
    ensures
        stands_in(bytes, start, record_lines(complete_lines(bytes), start)[index], end),
    decreases bytes.len(),
{
    lemma_first_line_feed(bytes);
    let stop = first_line_feed(bytes);
    let line = bytes.take(stop as int + 1);
    let rest = bytes.skip(stop as int + 1);
    let lines = seq![line] + complete_lines(rest);
    assert(complete_lines(bytes) == lines);
    assert(lines.first() == line);
    assert(lines.drop_first() =~= complete_lines(rest));
    let cursor = clamped(start + line.len());
    let others = record_lines(complete_lines(rest), cursor);
    let ending = law_all_line_ends_come_off(line);
    let content = stripped(line);
    if content.len() > 0 && index == 0 {
        let found = record_lines(lines, start)[0];
        assert(found == (LineView { offset: line_offset(cursor, line), content }));
        assert(found.offset == start);
        assert(ending.len() > 0) by {
            if ending.len() == 0 {
                assert(line =~= content);
                assert(line.last() == 10);
            }
        }
        assert(line == content + ending);
        assert(bytes.subrange(0, content.len() as int) =~= (content + ending).take(
            content.len() as int,
        ));
        assert((content + ending).take(content.len() as int) =~= content);
        assert(bytes.subrange(content.len() as int, stop as int + 1) =~= (content + ending).skip(
            content.len() as int,
        ));
        assert((content + ending).skip(content.len() as int) =~= ending);
        assert(one_line(content)) by {
            assert forall|i: int| 0 <= i < content.len() implies #[trigger] content[i] != 10 by {
                assert(content[i] == bytes[i]);
            }
        }
        stop as int + 1
    } else {
        let inner = if content.len() > 0 {
            index - 1
        } else {
            index
        };
        assert(record_lines(lines, start)[index] == others[inner]);
        let end = law_lines_stand_where_they_are_found(rest, cursor, inner);
        let found = others[inner];
        let from = found.offset - start;
        let shift = stop as int + 1;
        assert(found.offset - cursor == from - shift);
        assert(bytes.subrange(from, from + found.content.len()) =~= rest.subrange(
            from - shift,
            from - shift + found.content.len(),
        ));
        assert(bytes.subrange(from + found.content.len(), end + shift) =~= rest.subrange(
            from - shift + found.content.len(),
            end,
        ));
        assert(bytes[from - 1] == 10) by {
            if from > shift {
                assert(rest[from - shift - 1] == bytes[from - 1]);
            }
        }
        assert(bytes[end + shift - 1] == rest[end - 1]);
        end + shift
    }
}

} // verus!
