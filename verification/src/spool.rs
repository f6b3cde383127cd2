//! The spool file: one record per line.

use vstd::prelude::*;

verus! {

/// A line without the line feed that it ends with and without the carriage
/// return before that.
pub open spec fn line_content(line: Seq<u8>) -> Seq<u8> {
    let without_lf = if line.len() > 0 && line.last() == 10 {
        line.drop_last()
    } else {
        line
    };
    if without_lf.len() > 0 && without_lf.last() == 13 {
        without_lf.drop_last()
    } else {
        without_lf
    }
}

/// A line without the line feed that it ends with and without the carriage
/// return before that.
pub fn trim_line_ending(bytes: &[u8]) -> (content: &[u8])
    ensures
        content@ == line_content(bytes@),
{
    let mut end: usize = bytes.len();
    if end > 0 && bytes[end - 1] == 10 {
        end = end - 1;
    }
    if end > 0 && bytes[end - 1] == 13 {
        end = end - 1;
    }
    let content = vstd::slice::slice_subrange(bytes, 0, end);
    assert(content@ =~= line_content(bytes@));
    content
}

/// A line for the spool: a record's bytes and a line feed.
pub fn record_line(record: Vec<u8>) -> (line: Vec<u8>)
    ensures
        line@ == record@.push(10),
{
    let mut line = record;
    line.push(10);
    line
}

/// Where the first line feed stands, or the number of bytes where there is
/// none.
pub open spec fn first_line_feed(bytes: Seq<u8>) -> nat
    decreases bytes.len(),
{
    if bytes.len() == 0 || bytes.first() == 10 {
        0
    } else {
        1 + first_line_feed(bytes.drop_first())
    }
}

/// The complete lines of a run of bytes, line feeds and all. What follows the
/// last line feed is no line yet.
pub open spec fn complete_lines(bytes: Seq<u8>) -> Seq<Seq<u8>>
    decreases bytes.len(),
{
    let end = first_line_feed(bytes);
    if end < bytes.len() {
        seq![bytes.take(end as int + 1)] + complete_lines(bytes.skip(end as int + 1))
    } else {
        Seq::empty()
    }
}

/// How many bytes the complete lines take up.
pub open spec fn complete_length(bytes: Seq<u8>) -> nat
    decreases bytes.len(),
{
    let end = first_line_feed(bytes);
    if end < bytes.len() {
        end + 1 + complete_length(bytes.skip(end as int + 1))
    } else {
        0
    }
}

/// A line without the line feeds and carriage returns that it ends with.
pub open spec fn stripped(line: Seq<u8>) -> Seq<u8>
    decreases line.len(),
{
    if line.len() > 0 && (line.last() == 10 || line.last() == 13) {
        stripped(line.drop_last())
    } else {
        line
    }
}

/// The nearest number of 64 bits with a sign.
pub open spec fn clamped(number: int) -> i64 {
    if number > i64::MAX {
        i64::MAX
    } else if number < i64::MIN {
        i64::MIN
    } else {
        number as i64
    }
}

/// Where a line stands that takes the cursor to `cursor`.
pub open spec fn line_offset(cursor: i64, line: Seq<u8>) -> i64 {
    clamped(cursor - line.len())
}

/// A line of the spool that holds a record: where it stands and what it holds.
#[derive(Debug)]
pub struct SpoolLine {
    pub offset: i64,
    pub content: Vec<u8>,
}

/// A line of the spool that holds a record.
pub struct LineView {
    pub offset: i64,
    pub content: Seq<u8>,
}

impl View for SpoolLine {
    type V = LineView;

    open spec fn view(&self) -> LineView {
        LineView { offset: self.offset, content: self.content@ }
    }
}

/// The lines that hold records, out of lines that stand one after another from
/// `start` on. Empty lines hold none.
pub open spec fn record_lines(lines: Seq<Seq<u8>>, start: i64) -> Seq<LineView>
    decreases lines.len(),
{
    if lines.len() == 0 {
        Seq::empty()
    } else {
        let line = lines.first();
        let cursor = clamped(start + line.len());
        let rest = record_lines(lines.drop_first(), cursor);
        if stripped(line).len() == 0 {
            rest
        } else {
            seq![LineView { offset: line_offset(cursor, line), content: stripped(line) }] + rest
        }
    }
}

/// Where the cursor stands after lines that start at `start`.
pub open spec fn cursor_after(lines: Seq<Seq<u8>>, start: i64) -> i64
    decreases lines.len(),
{
    if lines.len() == 0 {
        start
    } else {
        cursor_after(lines.drop_first(), clamped(start + lines.first().len()))
    }
}

/// The views of a list of lines.
pub open spec fn line_views(lines: Seq<SpoolLine>) -> Seq<LineView> {
    Seq::new(lines.len(), |i: int| lines[i]@)
}

/// What one pass over the spool finds: the lines that hold records, and where
/// the next pass begins.
#[derive(Debug)]
pub struct SpoolPass {
    pub lines: Vec<SpoolLine>,
    pub processed_offset: i64,
}

/// A sum in 64 bits with a sign, cut off at the ends.
fn clamped_sum(offset: i64, length: usize) -> (sum: i64)
    ensures
        sum == clamped(offset + length),
{
    let sum: i128 = offset as i128 + length as i128;
    if sum > i64::MAX as i128 {
        i64::MAX
    } else {
        sum as i64
    }
}

/// A difference in 64 bits with a sign, cut off at the ends.
fn clamped_difference(offset: i64, length: usize) -> (difference: i64)
    ensures
        difference == clamped(offset - length),
{
    let difference: i128 = offset as i128 - length as i128;
    if difference < i64::MIN as i128 {
        i64::MIN
    } else {
        difference as i64
    }
}

/// A line without the line feeds and carriage returns that it ends with.
fn strip_line(line: &[u8]) -> (content: Vec<u8>)
    ensures
        content@ == stripped(line@),
{
    let mut end: usize = line.len();
    assert(line@.take(end as int) =~= line@);
    while end > 0 && (line[end - 1] == 10 || line[end - 1] == 13)
        invariant
            end <= line@.len(),
            stripped(line@.take(end as int)) == stripped(line@),
        decreases end,
    {
        assert(line@.take(end as int).drop_last() =~= line@.take(end - 1));
        end = end - 1;
    }
    let content = vstd::slice::slice_to_vec(vstd::slice::slice_subrange(line, 0, end));
    assert(content@ =~= line@.take(end as int));
    content
}

/// The length of the complete line that the bytes start with.
fn line_length(bytes: &[u8], start: usize) -> (length: Option<usize>)
    requires
        start <= bytes@.len(),
    ensures
        match length {
            Some(length) => {
                &&& length == first_line_feed(bytes@.skip(start as int)) + 1
                &&& start + length <= bytes@.len()
            },
            None => first_line_feed(bytes@.skip(start as int)) >= bytes@.len() - start,
        },
{
    let count: usize = bytes.len();
    let mut i: usize = start;
    while i < count
        invariant
            start <= i <= count,
            count == bytes@.len(),
            first_line_feed(bytes@.skip(start as int)) == i - start + first_line_feed(
                bytes@.skip(i as int),
            ),
        decreases count - i,
    {
        if bytes[i] == 10 {
            return Some(i - start + 1);
        }
        assert(bytes@.skip(i as int).drop_first() =~= bytes@.skip(i + 1));
        i = i + 1;
    }
    None
}

/// Splits what was read from the spool, from `start_offset` on, into lines that
/// hold records. What follows the last line feed is left for the next pass.
pub fn frame_spool(bytes: &[u8], start_offset: i64) -> (pass: SpoolPass)
    ensures
        line_views(pass.lines@) == record_lines(complete_lines(bytes@), start_offset),
        pass.processed_offset == cursor_after(complete_lines(bytes@), start_offset),
{
    let mut lines: Vec<SpoolLine> = Vec::new();
    let mut processed_offset: i64 = start_offset;
    let count: usize = bytes.len();
    let mut start: usize = 0;
    assert(bytes@.skip(0) =~= bytes@);
    loop
        invariant
            count == bytes@.len(),
            start <= bytes@.len(),
            record_lines(complete_lines(bytes@), start_offset) =~= line_views(lines@)
                + record_lines(complete_lines(bytes@.skip(start as int)), processed_offset),
            cursor_after(complete_lines(bytes@), start_offset) == cursor_after(
                complete_lines(bytes@.skip(start as int)),
                processed_offset,
            ),
        ensures
            record_lines(complete_lines(bytes@), start_offset) =~= line_views(lines@),
            cursor_after(complete_lines(bytes@), start_offset) == processed_offset,
        decreases bytes@.len() - start,
    {
        let ghost rest = bytes@.skip(start as int);
        match line_length(bytes, start) {
            Some(length) => {
                let line = vstd::slice::slice_subrange(bytes, start, start + length);
                let ghost after = bytes@.skip(start + length);
                proof {
                    assert(line@ =~= rest.take(length as int));
                    assert(after =~= rest.skip(length as int));
                    assert(complete_lines(rest) == seq![line@] + complete_lines(after));
                    assert((seq![line@] + complete_lines(after)).drop_first() =~= complete_lines(
                        after,
                    ));
                }
                processed_offset = clamped_sum(processed_offset, length);
                let content = strip_line(line);
                if content.len() > 0 {
                    let offset = clamped_difference(processed_offset, length);
                    let ghost before = lines@;
                    let line_read = SpoolLine { offset, content };
                    let ghost view = line_read@;
                    lines.push(line_read);
                    assert(line_views(lines@) =~= line_views(before).push(view));
                }
                start = start + length;
            },
            None => {
                break ;
            },
        }
    }
    SpoolPass { lines, processed_offset }
}

} // verus!
