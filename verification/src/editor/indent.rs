//! Tab and Shift+Tab over a plain-text document.
//!
//! Offsets are bytes into the document's UTF-8, as the editing engine counts
//! them.

use core::ops::Range;
use vstd::prelude::*;
use vstd::utf8::*;

use crate::text::string_of_utf8;

verus! {

/// The byte just past the line that `at` is in: past its newline, or the end
/// of the text.
pub open spec fn line_end(text: Seq<u8>, at: int) -> int
    decreases text.len() - at,
{
    if at >= text.len() {
        text.len() as int
    } else if text[at] == 10 {
        at + 1
    } else {
        line_end(text, at + 1)
    }
}

/// Where the line that holds the byte offset `at` begins.
pub open spec fn line_head(text: Seq<u8>, at: int) -> int
    decreases at,
{
    if at <= 0 {
        0
    } else if text[at - 1] == 10 {
        at
    } else {
        line_head(text, at - 1)
    }
}

/// How much of a line's leading whitespace one Shift+Tab takes back: a hard
/// tab whole, or up to two spaces.
pub open spec fn shed(line: Seq<u8>) -> int {
    if line.len() > 0 && line[0] == 9 {
        1
    } else if line.len() > 0 && line[0] == 32 {
        if line.len() > 1 && line[1] == 32 {
            2
        } else {
            1
        }
    } else {
        0
    }
}

/// One indent: two spaces.
pub open spec fn indent_bytes() -> Seq<u8> {
    seq![32u8, 32u8]
}

/// Whether the line beginning at `at` moves: the line the selection starts
/// on (`head`), and every line that begins before the selection's end.
pub open spec fn touched(head: int, hi: int, at: int) -> bool {
    at == head || at < hi
}

/// A line one indent in, or one indent out.
pub open spec fn moved_line(line: Seq<u8>, outward: bool) -> Seq<u8> {
    if outward {
        line.skip(shed(line))
    } else {
        indent_bytes() + line
    }
}

/// The text from the line beginning at `at` on, with its touched lines moved.
pub open spec fn moved_lines(text: Seq<u8>, at: int, head: int, hi: int, outward: bool) -> Seq<u8>
    decreases text.len() - at,
{
    if at >= text.len() {
        Seq::empty()
    } else {
        let end = next_line(text, at);
        let line = text.subrange(at, end);
        (if touched(head, hi, at) {
            moved_line(line, outward)
        } else {
            line
        }) + moved_lines(text, end, head, hi, outward)
    }
}

/// [`line_end`], for a walk over the lines that has not reached the end.
pub open spec fn next_line(text: Seq<u8>, at: int) -> int {
    if at < line_end(text, at) <= text.len() {
        line_end(text, at)
    } else {
        text.len() as int
    }
}

/// How far `offset` moves with the touched lines from `at` on that begin at
/// or before it. A caret inside whitespace being taken back stops at its
/// line's head.
pub open spec fn offset_shift(
    text: Seq<u8>,
    at: int,
    head: int,
    hi: int,
    outward: bool,
    offset: int,
) -> int
    decreases text.len() - at,
{
    if at >= text.len() || at > offset {
        0
    } else {
        let end = next_line(text, at);
        let line = text.subrange(at, end);
        let here = if !touched(head, hi, at) {
            0
        } else if !outward {
            2
        } else if shed(line) <= offset - at {
            -shed(line)
        } else {
            at - offset
        };
        here + offset_shift(text, end, head, hi, outward, offset)
    }
}

/// Whether any touched line from `at` on changes at all.
pub open spec fn any_moves(text: Seq<u8>, at: int, head: int, hi: int, outward: bool) -> bool
    decreases text.len() - at,
{
    if at >= text.len() {
        false
    } else {
        let end = next_line(text, at);
        let line = text.subrange(at, end);
        ||| touched(head, hi, at) && (!outward || shed(line) > 0)
        ||| any_moves(text, end, head, hi, outward)
    }
}

/// The document after Tab (or, `outward`, Shift+Tab) with `start..end`
/// selected, and where the selection's ends land; `None` when the key had
/// nothing to do.
///
/// A caret types an indent where it stands. A selection moves whole lines.
pub open spec fn indented(text: Seq<u8>, start: int, end: int, outward: bool) -> Option<
    (Seq<u8>, int, int),
> {
    let lo = if start <= end { start } else { end };
    let hi = if start <= end { end } else { start };
    if lo == hi && !outward {
        Some((text.take(lo) + indent_bytes() + text.skip(lo), lo + 2, lo + 2))
    } else {
        let head = line_head(text, lo);
        if !any_moves(text, head, head, hi, outward) {
            None
        } else {
            Some(
                (
                    text.take(head) + moved_lines(text, head, head, hi, outward),
                    start + offset_shift(text, head, head, hi, outward, start),
                    end + offset_shift(text, head, head, hi, outward, end),
                ),
            )
        }
    }
}

// ---------- lines ----------
proof fn line_end_shape(text: Seq<u8>, at: int)
    requires
        0 <= at < text.len(),
    ensures
        at < line_end(text, at) <= text.len(),
        next_line(text, at) == line_end(text, at),
        forall|i: int| at <= i < line_end(text, at) - 1 ==> text[i] != 10,
        text[line_end(text, at) - 1] == 10 || line_end(text, at) == text.len(),
    decreases text.len() - at,
{
    if text[at] != 10 {
        if at + 1 < text.len() {
            line_end_shape(text, at + 1);
        } else {
            assert(line_end(text, at + 1) == text.len());
        }
    }
}

proof fn line_end_is(text: Seq<u8>, at: int, end: int)
    requires
        0 <= at < end <= text.len(),
        forall|i: int| at <= i < end - 1 ==> text[i] != 10,
        text[end - 1] == 10 || end == text.len(),
    ensures
        line_end(text, at) == end,
        next_line(text, at) == end,
    decreases end - at,
{
    if text[at] == 10 {
        assert(at == end - 1);
    } else if at + 1 < end {
        line_end_is(text, at + 1, end);
    } else {
        assert(line_end(text, at + 1) == text.len());
    }
}

proof fn line_head_shape(text: Seq<u8>, at: int)
    requires
        0 <= at <= text.len(),
    ensures
        0 <= line_head(text, at) <= at,
        forall|i: int| line_head(text, at) <= i < at ==> text[i] != 10,
        line_head(text, at) == 0 || text[line_head(text, at) - 1] == 10,
    decreases at,
{
    if at > 0 && text[at - 1] != 10 {
        line_head_shape(text, at - 1);
    }
}

proof fn line_head_is(text: Seq<u8>, at: int, head: int)
    requires
        0 <= head <= at <= text.len(),
        forall|i: int| head <= i < at ==> text[i] != 10,
        head == 0 || text[head - 1] == 10,
    ensures
        line_head(text, at) == head,
    decreases at - head,
{
    if at > head {
        assert(text[at - 1] != 10);
        line_head_is(text, at - 1, head);
    }
}

proof fn shed_fits(line: Seq<u8>)
    ensures
        0 <= shed(line) <= line.len(),
        shed(line) <= 2,
{
}

// ---------- UTF-8 ----------
/// One past an ASCII character is a character boundary.
proof fn boundary_after_ascii(text: Seq<u8>, at: int)
    requires
        valid_utf8(text),
        0 <= at < text.len(),
        is_char_boundary(text, at),
        text[at] <= 0x7f,
    ensures
        is_char_boundary(text, at + 1),
    decreases text.len(),
{
    reveal_with_fuel(is_char_boundary, 3);
    if at > 0 {
        let first = length_of_first_scalar(text);
        let rest = pop_first_scalar(text);
        boundary_after_ascii(rest, at - first);
    }
}

/// A line begins and ends on a character boundary.
proof fn boundary_at_newline(text: Seq<u8>, at: int)
    requires
        valid_utf8(text),
        0 < at <= text.len(),
        text[at - 1] == 10,
    ensures
        is_char_boundary(text, at),
{
    is_char_boundary_iff_not_is_continuation_byte(text, at - 1);
    boundary_after_ascii(text, at - 1);
}

proof fn lines_split(text: Seq<u8>, at: int)
    requires
        0 <= at < text.len(),
        valid_utf8(text.subrange(at, text.len() as int)),
    ensures
        valid_utf8(text.subrange(at, line_end(text, at))),
        valid_utf8(text.subrange(line_end(text, at), text.len() as int)),
{
    line_end_shape(text, at);
    let rest = text.subrange(at, text.len() as int);
    let width = line_end(text, at) - at;
    if line_end(text, at) < text.len() {
        boundary_at_newline(rest, width);
    } else {
        is_char_boundary_start_end_of_seq(rest);
    }
    valid_utf8_split(rest, width);
    assert(rest.subrange(0, width) =~= text.subrange(at, line_end(text, at)));
    assert(rest.subrange(width, rest.len() as int) =~= text.subrange(
        line_end(text, at),
        text.len() as int,
    ));
}

proof fn indent_is_utf8()
    ensures
        valid_utf8(indent_bytes()),
{
    reveal_with_fuel(valid_utf8, 3);
    let bytes = indent_bytes();
    assert(pop_first_scalar(bytes) =~= seq![32u8]);
    assert(0x20u8 & 0x7f == 0x20u8) by (bit_vector);
    assert(pop_first_scalar(seq![32u8]) =~= Seq::<u8>::empty());
}

proof fn shed_keeps_utf8(line: Seq<u8>)
    requires
        valid_utf8(line),
    ensures
        valid_utf8(line.skip(shed(line))),
{
    shed_fits(line);
    is_char_boundary_start_end_of_seq(line);
    if shed(line) >= 1 {
        boundary_after_ascii(line, 0);
    }
    if shed(line) == 2 {
        boundary_after_ascii(line, 1);
    }
    valid_utf8_split(line, shed(line));
    assert(line.skip(shed(line)) =~= line.subrange(shed(line), line.len() as int));
}

proof fn moved_lines_are_utf8(text: Seq<u8>, at: int, head: int, hi: int, outward: bool)
    requires
        0 <= at <= text.len(),
        valid_utf8(text.subrange(at, text.len() as int)),
    ensures
        valid_utf8(moved_lines(text, at, head, hi, outward)),
    decreases text.len() - at,
{
    if at < text.len() {
        line_end_shape(text, at);
        lines_split(text, at);
        let end = line_end(text, at);
        let line = text.subrange(at, end);
        moved_lines_are_utf8(text, end, head, hi, outward);
        indent_is_utf8();
        valid_utf8_concat(indent_bytes(), line);
        shed_keeps_utf8(line);
        let first = if touched(head, hi, at) {
            moved_line(line, outward)
        } else {
            line
        };
        valid_utf8_concat(first, moved_lines(text, end, head, hi, outward));
    }
}

// ---------- the code ----------
/// How much of a line's leading whitespace one Shift+Tab takes back: a hard
/// tab whole, or up to an indent's worth of spaces.
pub fn outdent(line: &str) -> (taken: usize)
    ensures
        taken == shed(encode_utf8(line@)),
{
    shed_from(line.as_bytes())
}

fn shed_from(line: &[u8]) -> (taken: usize)
    ensures
        taken == shed(line@),
{
    if line.len() > 0 && line[0] == 9 {
        return 1;
    }
    if line.len() > 0 && line[0] == 32 {
        if line.len() > 1 && line[1] == 32 {
            return 2;
        }
        return 1;
    }
    0
}

fn find_line_end(text: &[u8], at: usize) -> (end: usize)
    requires
        at < text@.len(),
    ensures
        end == line_end(text@, at as int),
        at < end <= text@.len(),
{
    let mut end: usize = at;
    while end < text.len() && text[end] != 10
        invariant
            at <= end <= text@.len(),
            line_end(text@, at as int) == line_end(text@, end as int),
        decreases text@.len() - end,
    {
        end += 1;
    }
    proof {
        line_end_shape(text@, at as int);
    }
    if end < text.len() {
        end += 1;
    }
    end
}

fn find_line_head(text: &[u8], at: usize) -> (head: usize)
    requires
        at <= text@.len(),
    ensures
        head == line_head(text@, at as int),
        head <= at,
{
    let mut head: usize = at;
    while head > 0 && text[head - 1] != 10
        invariant
            head <= at <= text@.len(),
            line_head(text@, at as int) == line_head(text@, head as int),
        decreases head,
    {
        head -= 1;
    }
    head
}

fn push_bytes(out: &mut Vec<u8>, bytes: &[u8], from: usize, to: usize)
    requires
        from <= to <= bytes@.len(),
    ensures
        final(out)@ == old(out)@ + bytes@.subrange(from as int, to as int),
{
    let mut at: usize = from;
    while at < to
        invariant
            from <= at <= to <= bytes@.len(),
            out@ == old(out)@ + bytes@.subrange(from as int, at as int),
        decreases to - at,
    {
        out.push(bytes[at]);
        assert(bytes@.subrange(from as int, at + 1) =~= bytes@.subrange(
            from as int,
            at as int,
        ).push(bytes@[at as int]));
        at += 1;
    }
}

/// One end of the selection, moved past one touched line.
fn shift_offset(moved: usize, offset: usize, at: usize, outward: bool, removed: usize) -> (next:
    usize)
    requires
        moved + 2 <= usize::MAX,
        at <= offset ==> moved + at >= offset && removed <= 2,
    ensures
        next == moved + (if at > offset {
            0
        } else if !outward {
            2
        } else if removed <= offset - at {
            -removed
        } else {
            at - offset
        }),
{
    if at > offset {
        moved
    } else if !outward {
        moved + 2
    } else if removed <= offset - at {
        moved - removed
    } else {
        moved - (offset - at)
    }
}

/// The document after Tab, and where the selection lands in it. `None` when
/// the key had nothing to do.
///
/// A caret types an indent where it stands. A SELECTION moves whole lines
/// instead: that is what makes Tab worth having in a list, and replacing the
/// selected words with two spaces is a deletion nobody asked for.
///
/// The line moved first is the one the selection starts ON, wherever in it
/// that is; the last is the last one it starts BEFORE, so a selection carried
/// to the head of a line leaves that line alone.
pub fn indent(text: &str, selected: Range<usize>, outward: bool) -> (next: Option<
    (String, Range<usize>),
>)
    requires
        is_char_boundary(
            encode_utf8(text@),
            if selected.start <= selected.end {
                selected.start as int
            } else {
                selected.end as int
            },
        ),
        selected.start + 2 * encode_utf8(text@).len() + 2 <= usize::MAX,
        selected.end + 2 * encode_utf8(text@).len() + 2 <= usize::MAX,
    ensures
        match (
            next,
            indented(encode_utf8(text@), selected.start as int, selected.end as int, outward),
        ) {
            (None, None) => true,
            (Some((document, moved)), Some((bytes, start, end))) => encode_utf8(document@) == bytes
                && moved.start == start && moved.end == end,
            _ => false,
        },
{
    let bytes = text.as_bytes();
    let ghost t = encode_utf8(text@);
    let lo: usize = if selected.start <= selected.end {
        selected.start
    } else {
        selected.end
    };
    let hi: usize = if selected.start <= selected.end {
        selected.end
    } else {
        selected.start
    };
    proof {
        encode_utf8_valid_utf8(text@);
        reveal_with_fuel(is_char_boundary, 2);
        valid_utf8_split(t, lo as int);
        indent_is_utf8();
    }
    let mut next: Vec<u8> = Vec::new();
    if lo == hi && !outward {
        push_bytes(&mut next, bytes, 0, lo);
        next.push(32);
        next.push(32);
        push_bytes(&mut next, bytes, lo, bytes.len());
        proof {
            assert(t.take(lo as int) =~= t.subrange(0, lo as int));
            assert(t.skip(lo as int) =~= t.subrange(lo as int, t.len() as int));
            assert(next@ =~= t.take(lo as int) + indent_bytes() + t.skip(lo as int));
            valid_utf8_concat(t.take(lo as int), indent_bytes());
            valid_utf8_concat(t.take(lo as int) + indent_bytes(), t.skip(lo as int));
        }
        let document = string_of_utf8(next);
        return match document {
            Some(document) => Some((document, lo + 2..lo + 2)),
            None => None,
        };
    }
    let head = find_line_head(bytes, lo);
    proof {
        line_head_shape(t, lo as int);
        if head == 0 {
            is_char_boundary_start_end_of_seq(t);
        } else {
            boundary_at_newline(t, head as int);
        }
        valid_utf8_split(t, head as int);
    }
    push_bytes(&mut next, bytes, 0, head);
    let mut start: usize = selected.start;
    let mut end: usize = selected.end;
    let mut changed = false;
    let mut at: usize = head;
    assert(next@ =~= t.take(head as int));
    while at < bytes.len()
        invariant
            bytes@ == t,
            head <= at <= t.len(),
            head <= lo <= selected.start,
            lo <= selected.end,
            next@ + moved_lines(t, at as int, head as int, hi as int, outward) == t.take(
                head as int,
            ) + moved_lines(t, head as int, head as int, hi as int, outward),
            changed || any_moves(t, at as int, head as int, hi as int, outward) <==> any_moves(
                t,
                head as int,
                head as int,
                hi as int,
                outward,
            ),
            start + offset_shift(
                t,
                at as int,
                head as int,
                hi as int,
                outward,
                selected.start as int,
            ) == selected.start + offset_shift(
                t,
                head as int,
                head as int,
                hi as int,
                outward,
                selected.start as int,
            ),
            end + offset_shift(t, at as int, head as int, hi as int, outward, selected.end as int)
                == selected.end + offset_shift(
                t,
                head as int,
                head as int,
                hi as int,
                outward,
                selected.end as int,
            ),
            selected.start - (at - head) <= start || at > selected.start,
            selected.end - (at - head) <= end || at > selected.end,
            start <= selected.start + 2 * (at - head),
            end <= selected.end + 2 * (at - head),
            selected.start + 2 * t.len() + 2 <= usize::MAX,
            selected.end + 2 * t.len() + 2 <= usize::MAX,
        decreases t.len() - at,
    {
        let stop = find_line_end(bytes, at);
        let ghost line = t.subrange(at as int, stop as int);
        proof {
            line_end_shape(t, at as int);
            shed_fits(line);
        }
        let ghost before = next@;
        let ghost rest = moved_lines(t, stop as int, head as int, hi as int, outward);
        if at == head || at < hi {
            if outward {
                let removed = shed_from(slice_of(bytes, at, stop));
                push_bytes(&mut next, bytes, at + removed, stop);
                assert(t.subrange(at + removed, stop as int) =~= line.skip(shed(line)));
                start = shift_offset(start, selected.start, at, true, removed);
                end = shift_offset(end, selected.end, at, true, removed);
                changed = changed || removed > 0;
            } else {
                next.push(32);
                next.push(32);
                push_bytes(&mut next, bytes, at, stop);
                assert(next@ =~= before + (indent_bytes() + line));
                start = shift_offset(start, selected.start, at, false, 0);
                end = shift_offset(end, selected.end, at, false, 0);
                changed = true;
            }
        } else {
            push_bytes(&mut next, bytes, at, stop);
        }
        assert(next@ + rest =~= before + moved_lines(
            t,
            at as int,
            head as int,
            hi as int,
            outward,
        ));
        at = stop;
    }
    if !changed {
        return None;
    }
    proof {
        moved_lines_are_utf8(t, head as int, head as int, hi as int, outward);
        assert(t.take(head as int) =~= t.subrange(0, head as int));
        valid_utf8_concat(
            t.take(head as int),
            moved_lines(t, head as int, head as int, hi as int, outward),
        );
        assert(next@ =~= t.take(head as int) + moved_lines(
            t,
            head as int,
            head as int,
            hi as int,
            outward,
        ));
    }
    match string_of_utf8(next) {
        Some(document) => Some((document, start..end)),
        None => None,
    }
}

fn slice_of(bytes: &[u8], from: usize, to: usize) -> (part: &[u8])
    requires
        from <= to <= bytes@.len(),
    ensures
        part@ == bytes@.subrange(from as int, to as int),
{
    vstd::slice::slice_subrange(bytes, from, to)
}

// ---------- what one key does and the other undoes ----------
/// How many touched lines there are from `at` on.
spec fn touched_lines(text: Seq<u8>, at: int, head: int, hi: int) -> int
    decreases text.len() - at,
{
    if at >= text.len() || !touched(head, hi, at) {
        0
    } else {
        1 + touched_lines(text, next_line(text, at), head, hi)
    }
}

/// Past the last touched line nothing moves.
proof fn untouched_stays(text: Seq<u8>, at: int, head: int, hi: int, outward: bool, offset: int)
    requires
        head < at <= text.len(),
        0 <= head,
        hi <= at,
    ensures
        moved_lines(text, at, head, hi, outward) == text.skip(at),
        offset_shift(text, at, head, hi, outward, offset) == 0,
    decreases text.len() - at,
{
    if at < text.len() {
        line_end_shape(text, at);
        let end = line_end(text, at);
        untouched_stays(text, end, head, hi, outward, offset);
        assert(text.subrange(at, end) + text.skip(end) =~= text.skip(at));
    } else {
        assert(text.skip(at) =~= Seq::<u8>::empty());
    }
}

/// From a line on: `inward` holds the lines of `text` one indent in, from
/// `placed` on, after `before` touched lines. Taking the indents back gives
/// the lines again, and an offset that moved with them moves back.
proof fn lines_come_back(
    text: Seq<u8>,
    at: int,
    head: int,
    hi: int,
    before: int,
    inward: Seq<u8>,
    placed: int,
    far: int,
    offset: int,
)
    requires
        0 <= head <= at <= text.len(),
        head < hi,
        0 <= before,
        at == head <==> before == 0,
        placed == at + 2 * before,
        placed <= inward.len(),
        far == hi + 2 * (before + touched_lines(text, at, head, hi)),
        inward.skip(placed) == moved_lines(text, at, head, hi, false),
    ensures
        moved_lines(inward, placed, head, far, true) == text.skip(at),
        offset_shift(
            inward,
            placed,
            head,
            far,
            true,
            offset + 2 * before + offset_shift(text, at, head, hi, false, offset),
        ) == -offset_shift(text, at, head, hi, false, offset),
    decreases text.len() - at,
{
    let moved = offset + 2 * before + offset_shift(text, at, head, hi, false, offset);
    if at >= text.len() {
        assert(inward.len() == placed) by {
            assert(inward.skip(placed).len() == inward.len() - placed);
        }
        assert(text.skip(at) =~= Seq::<u8>::empty());
    } else if !touched(head, hi, at) {
        untouched_stays(text, at, head, hi, false, offset);
        untouched_stays(inward, placed, head, far, true, moved);
    } else {
        line_end_shape(text, at);
        let end = line_end(text, at);
        let line = text.subrange(at, end);
        let rest = moved_lines(text, end, head, hi, false);
        let stop = placed + 2 + line.len();
        assert(inward.skip(placed) == indent_bytes() + line + rest);
        assert forall|i: int| 0 <= i < inward.len() - placed implies inward[placed + i] == (
        indent_bytes() + line + rest)[i] by {
            assert(inward.skip(placed)[i] == inward[placed + i]);
        }
        assert(inward.len() == placed + 2 + line.len() + rest.len()) by {
            assert(inward.skip(placed).len() == inward.len() - placed);
        }
        assert forall|i: int| placed <= i < stop - 1 implies inward[i] != 10 by {
            assert(inward[placed + (i - placed)] == (indent_bytes() + line + rest)[i - placed]);
        }
        assert(inward[stop - 1] == line[line.len() - 1]) by {
            assert(inward[placed + (stop - 1 - placed)] == (indent_bytes() + line + rest)[stop - 1
                - placed]);
        }
        assert(inward[stop - 1] == 10 || stop == inward.len());
        line_end_is(inward, placed, stop);
        assert(inward.subrange(placed, stop) =~= indent_bytes() + line) by {
            assert forall|i: int| 0 <= i < stop - placed implies inward.subrange(placed, stop)[i]
                == (indent_bytes() + line)[i] by {
                assert(inward[placed + i] == (indent_bytes() + line + rest)[i]);
            }
        }
        assert(shed(indent_bytes() + line) == 2);
        assert((indent_bytes() + line).skip(2) =~= line);
        assert(inward.skip(stop) =~= rest) by {
            assert forall|i: int| 0 <= i < rest.len() implies inward.skip(stop)[i] == rest[i] by {
                assert(inward[placed + (2 + line.len() + i)] == (indent_bytes() + line + rest)[2
                    + line.len() + i]);
            }
        }
        assert(touched_lines(text, at, head, hi) == 1 + touched_lines(text, end, head, hi));
        touched_lines_counted(text, end, head, hi);
        assert(touched(head, far, placed));
        lines_come_back(text, end, head, hi, before + 1, inward, stop, far, offset);
        assert(line + text.skip(end) =~= text.skip(at));
        shift_is_a_count(text, end, head, hi, offset);
    }
}

proof fn touched_lines_counted(text: Seq<u8>, at: int, head: int, hi: int)
    ensures
        touched_lines(text, at, head, hi) >= 0,
    decreases text.len() - at,
{
    if at < text.len() && touched(head, hi, at) {
        touched_lines_counted(text, next_line(text, at), head, hi);
    }
}

/// A block indent never moves an offset back.
proof fn shift_is_a_count(text: Seq<u8>, at: int, head: int, hi: int, offset: int)
    ensures
        offset_shift(text, at, head, hi, false, offset) >= 0,
    decreases text.len() - at,
{
    if at < text.len() && at <= offset {
        shift_is_a_count(text, next_line(text, at), head, hi, offset);
    }
}

/// The end of the selection moves with every touched line, and its start
/// with no more of them.
proof fn shift_of_the_ends(text: Seq<u8>, at: int, head: int, lo: int, hi: int)
    requires
        0 <= head <= at <= text.len(),
        head <= lo < hi,
    ensures
        offset_shift(text, at, head, hi, false, hi) == 2 * touched_lines(text, at, head, hi),
        offset_shift(text, at, head, hi, false, lo) <= offset_shift(
            text,
            at,
            head,
            hi,
            false,
            hi,
        ),
    decreases text.len() - at,
{
    if at < text.len() {
        if touched(head, hi, at) {
            line_end_shape(text, at);
            shift_of_the_ends(text, line_end(text, at), head, lo, hi);
            shift_is_a_count(text, line_end(text, at), head, hi, hi);
        } else {
            untouched_stays(text, at, head, hi, false, hi);
            untouched_stays(text, at, head, hi, false, lo);
        }
    }
}

/// Shift+Tab gives back what Tab over a selection did: the same document,
/// and the same selection in it, whichever way the selection runs.
pub proof fn outdent_gives_a_block_indent_back(text: Seq<u8>, start: int, end: int)
    requires
        0 <= start <= text.len(),
        0 <= end <= text.len(),
        start != end,
    ensures
        indented(text, start, end, false) matches Some((inward, from, to)) && indented(
            inward,
            from,
            to,
            true,
        ) == Some((text, start, end)),
{
    let lo = if start <= end { start } else { end };
    let hi = if start <= end { end } else { start };
    let head = line_head(text, lo);
    line_head_shape(text, lo);
    line_end_shape(text, head);
    let inward = text.take(head) + moved_lines(text, head, head, hi, false);
    assert(any_moves(text, head, head, hi, false));
    assert(inward.skip(head) =~= moved_lines(text, head, head, hi, false));
    // the selection's ends in the indented text
    shift_of_the_ends(text, head, head, lo, hi);
    let far = hi + offset_shift(text, head, head, hi, false, hi);
    let near = lo + offset_shift(text, head, head, hi, false, lo);
    assert(line_end(text, head) > lo) by {
        let stop = line_end(text, head);
        if stop <= lo {
            assert(text[stop - 1] != 10);
        }
    }
    assert(offset_shift(text, line_end(text, head), head, hi, false, lo) == 0);
    assert(near == lo + 2);
    // its first line begins where it did
    assert(line_head(inward, near) == head) by {
        let first = text.subrange(head, line_end(text, head));
        assert forall|i: int| head <= i < near implies inward[i] != 10 by {
            assert(moved_lines(text, head, head, hi, false)[i - head] == (indent_bytes()
                + first)[i - head]);
        }
        if head > 0 {
            assert(inward[head - 1] == text[head - 1]);
        }
        line_head_is(inward, near, head);
    }
    lines_come_back(text, head, head, hi, 0, inward, head, far, lo);
    lines_come_back(text, head, head, hi, 0, inward, head, far, hi);
    assert(any_moves(inward, head, head, far, true)) by {
        line_end_shape(inward, head);
        let first = text.subrange(head, line_end(text, head));
        assert(inward[head] == 32) by {
            assert(moved_lines(text, head, head, hi, false)[0] == (indent_bytes() + first)[0]);
        }
    }
    assert(inward.take(head) =~= text.take(head));
    assert(text.take(head) + text.skip(head) =~= text);
}

// ---------- what the keys do, byte by byte ----------
/// Whether a line begins at `at`.
pub open spec fn begins_line(text: Seq<u8>, at: int) -> bool {
    0 <= at < text.len() && (at == 0 || text[at - 1] == 10)
}

/// Whether the line beginning at `at` is one a selection from `lo` to `hi`
/// takes in: the one `lo` stands on, or one that begins inside.
pub open spec fn takes_in(text: Seq<u8>, at: int, lo: int, hi: int) -> bool {
    ||| at <= lo && forall|i: int| at <= i < lo ==> text[i] != 10
    ||| lo < at < hi
}

/// Whether the byte at `at` is one that Shift+Tab takes away: a tab or a space
/// a line it takes in begins with, or a second space after a first.
pub open spec fn taken_away(text: Seq<u8>, at: int, lo: int, hi: int) -> bool {
    ||| begins_line(text, at) && takes_in(text, at, lo, hi) && (text[at] == 9 || text[at] == 32)
    ||| begins_line(text, at - 1) && takes_in(text, at - 1, lo, hi) && text[at - 1] == 32
        && text[at] == 32
}

/// The two spaces Tab puts before the byte at `at`, where a line it takes in
/// begins there.
pub open spec fn put_before(text: Seq<u8>, at: int, lo: int, hi: int) -> Seq<u8> {
    if begins_line(text, at) && takes_in(text, at, lo, hi) {
        seq![32u8, 32u8]
    } else {
        Seq::empty()
    }
}

/// What the first `upto` bytes become under Tab, or under Shift+Tab.
pub open spec fn rewritten(text: Seq<u8>, upto: int, lo: int, hi: int, outward: bool) -> Seq<u8>
    decreases upto,
{
    if upto <= 0 {
        Seq::empty()
    } else {
        let before = rewritten(text, upto - 1, lo, hi, outward);
        if !outward {
            before + put_before(text, upto - 1, lo, hi) + seq![text[upto - 1]]
        } else if taken_away(text, upto - 1, lo, hi) {
            before
        } else {
            before + seq![text[upto - 1]]
        }
    }
}

/// Where an offset lands: behind what the bytes before it became, and behind
/// the spaces put in right there.
pub open spec fn lands(text: Seq<u8>, offset: int, lo: int, hi: int, outward: bool) -> int {
    rewritten(text, offset, lo, hi, outward).len() + if outward {
        0
    } else {
        put_before(text, offset, lo, hi).len() as int
    }
}

/// From the line `lo` stands on, the lines a selection takes in are those that
/// are touched; before it there are none.
proof fn touched_is_taken_in(text: Seq<u8>, lo: int, hi: int, at: int)
    requires
        0 <= lo <= hi <= text.len(),
        begins_line(text, at),
    ensures
        takes_in(text, at, lo, hi) <==> at >= line_head(text, lo) && touched(
            line_head(text, lo),
            hi,
            at,
        ),
{
    let head = line_head(text, lo);
    line_head_shape(text, lo);
    if at < head {
        assert(text[head - 1] == 10);
    } else if at > head {
        assert(text[at - 1] == 10);
        if at <= lo {
            assert(text[at - 1] != 10);
        }
    }
}

/// What one byte of the line beginning at `at` becomes.
proof fn a_byte_rewritten(text: Seq<u8>, lo: int, hi: int, outward: bool, at: int, last: int)
    requires
        begins_line(text, at),
        at <= last < line_end(text, at),
    ensures
        rewritten(text, last + 1, lo, hi, outward) == rewritten(text, last, lo, hi, outward) + (
        if takes_in(text, at, lo, hi) && outward && last - at < shed(
            text.subrange(at, line_end(text, at)),
        ) {
            Seq::<u8>::empty()
        } else if takes_in(text, at, lo, hi) && !outward && last == at {
            seq![32u8, 32u8, text[last]]
        } else {
            seq![text[last]]
        }),
{
    line_end_shape(text, at);
    let line = text.subrange(at, line_end(text, at));
    let before = rewritten(text, last, lo, hi, outward);
    assert(line[0] == text[at]);
    if last > at {
        assert(line[1] == text[at + 1]);
        assert(text[last - 1] != 10);
        assert(!begins_line(text, last));
        if last > at + 1 {
            assert(text[last - 2] != 10);
            assert(!begins_line(text, last - 1));
        }
    }
    let inside = takes_in(text, at, lo, hi);
    if outward {
        if last == at {
            assert(taken_away(text, last, lo, hi) <==> inside && shed(line) > 0);
        } else if last == at + 1 {
            assert(taken_away(text, last, lo, hi) <==> inside && shed(line) > 1);
        } else {
            assert(!taken_away(text, last, lo, hi));
        }
        assert(before + Seq::<u8>::empty() =~= before);
    } else {
        assert(before + put_before(text, last, lo, hi) + seq![text[last]] =~= before + (
        put_before(text, last, lo, hi) + seq![text[last]]));
        if last == at && inside {
            assert(put_before(text, last, lo, hi) + seq![text[last]] =~= seq![
                32u8,
                32u8,
                text[last],
            ]);
        } else {
            assert(put_before(text, last, lo, hi) + seq![text[last]] =~= seq![text[last]]);
        }
    }
}

/// What a stretch of a line becomes, from the line's beginning at `at` up to
/// `upto`.
proof fn a_line_rewritten(text: Seq<u8>, lo: int, hi: int, outward: bool, at: int, upto: int)
    requires
        begins_line(text, at),
        at <= upto <= line_end(text, at),
    ensures
        ({
            let line = text.subrange(at, line_end(text, at));
            let gone = if shed(line) <= upto - at {
                shed(line)
            } else {
                upto - at
            };
            rewritten(text, upto, lo, hi, outward) == rewritten(text, at, lo, hi, outward) + (
            if upto == at {
                Seq::<u8>::empty()
            } else if !takes_in(text, at, lo, hi) {
                text.subrange(at, upto)
            } else if outward {
                text.subrange(at + gone, upto)
            } else {
                seq![32u8, 32u8] + text.subrange(at, upto)
            })
        }),
    decreases upto - at,
{
    line_end_shape(text, at);
    let line = text.subrange(at, line_end(text, at));
    let base = rewritten(text, at, lo, hi, outward);
    if upto == at {
        assert(base + Seq::<u8>::empty() =~= base);
    } else {
        let last = upto - 1;
        a_line_rewritten(text, lo, hi, outward, at, last);
        a_byte_rewritten(text, lo, hi, outward, at, last);
        let so_far = rewritten(text, last, lo, hi, outward);
        let next = rewritten(text, upto, lo, hi, outward);
        let inside = takes_in(text, at, lo, hi);
        assert(text.subrange(at, last) + seq![text[last]] =~= text.subrange(at, upto));
        assert(text.subrange(upto, upto) =~= Seq::<u8>::empty());
        assert(text.subrange(last, last) =~= Seq::<u8>::empty());
        if !inside {
            assert(next =~= base + text.subrange(at, upto));
        } else if outward {
            if last - at < shed(line) {
                assert(next =~= base + text.subrange(upto, upto));
            } else {
                assert(text.subrange(at + shed(line), last) + seq![text[last]] =~= text.subrange(
                    at + shed(line),
                    upto,
                ));
                assert(next =~= base + text.subrange(at + shed(line), upto));
            }
        } else {
            assert(next =~= base + (seq![32u8, 32u8] + text.subrange(at, upto)));
        }
    }
}

/// Before the line `lo` stands on nothing changes.
proof fn nothing_before(text: Seq<u8>, lo: int, hi: int, outward: bool, upto: int)
    requires
        0 <= lo <= hi <= text.len(),
        0 <= upto <= line_head(text, lo),
    ensures
        rewritten(text, upto, lo, hi, outward) == text.take(upto),
    decreases upto,
{
    line_head_shape(text, lo);
    if upto > 0 {
        nothing_before(text, lo, hi, outward, upto - 1);
        if begins_line(text, upto - 1) {
            touched_is_taken_in(text, lo, hi, upto - 1);
        }
        if begins_line(text, upto - 2) {
            touched_is_taken_in(text, lo, hi, upto - 2);
        }
        assert(rewritten(text, upto, lo, hi, outward) =~= text.take(upto));
    } else {
        assert(text.take(0) =~= Seq::<u8>::empty());
    }
}

/// The line beginning at `at`, moved or not, is what its bytes become.
proof fn one_line_rewritten(text: Seq<u8>, lo: int, hi: int, outward: bool, at: int)
    requires
        0 <= lo <= hi <= text.len(),
        line_head(text, lo) <= at,
        begins_line(text, at),
    ensures
        ({
            let head = line_head(text, lo);
            let end = line_end(text, at);
            let line = text.subrange(at, end);
            rewritten(text, end, lo, hi, outward) == rewritten(text, at, lo, hi, outward) + (
            if touched(head, hi, at) {
                moved_line(line, outward)
            } else {
                line
            })
        }),
{
    line_end_shape(text, at);
    let end = line_end(text, at);
    let line = text.subrange(at, end);
    shed_fits(line);
    touched_is_taken_in(text, lo, hi, at);
    a_line_rewritten(text, lo, hi, outward, at, end);
    assert(text.subrange(at + shed(line), end) =~= line.skip(shed(line)));
}

/// From a line on, the lines moved are the bytes rewritten.
proof fn lines_rewritten(text: Seq<u8>, lo: int, hi: int, outward: bool, at: int)
    requires
        0 <= lo <= hi <= text.len(),
        line_head(text, lo) <= at <= text.len(),
        0 <= at,
        at == text.len() || begins_line(text, at),
    ensures
        rewritten(text, text.len() as int, lo, hi, outward) == rewritten(text, at, lo, hi, outward)
            + moved_lines(text, at, line_head(text, lo), hi, outward),
    decreases text.len() - at,
{
    let head = line_head(text, lo);
    let base = rewritten(text, at, lo, hi, outward);
    if at >= text.len() {
        assert(base + Seq::<u8>::empty() =~= base);
    } else {
        line_end_shape(text, at);
        let end = line_end(text, at);
        let line = text.subrange(at, end);
        let first = if touched(head, hi, at) {
            moved_line(line, outward)
        } else {
            line
        };
        one_line_rewritten(text, lo, hi, outward, at);
        lines_rewritten(text, lo, hi, outward, end);
        assert(base + (first + moved_lines(text, end, head, hi, outward)) =~= base + first
            + moved_lines(text, end, head, hi, outward));
    }
}

/// An offset within the line beginning at `at` lands where it is shifted to.
proof fn offset_in_line_lands(
    text: Seq<u8>,
    lo: int,
    hi: int,
    outward: bool,
    at: int,
    offset: int,
)
    requires
        0 <= lo <= hi <= text.len(),
        line_head(text, lo) <= at,
        begins_line(text, at),
        at <= offset < line_end(text, at) || offset == text.len() == line_end(text, at),
    ensures
        lands(text, offset, lo, hi, outward) == rewritten(text, at, lo, hi, outward).len() + (offset
            - at) + offset_shift(text, at, line_head(text, lo), hi, outward, offset),
{
    line_end_shape(text, at);
    let end = line_end(text, at);
    let line = text.subrange(at, end);
    shed_fits(line);
    touched_is_taken_in(text, lo, hi, at);
    a_line_rewritten(text, lo, hi, outward, at, offset);
    if offset > at {
        if offset < text.len() {
            assert(text[offset - 1] != 10);
        }
        assert(!begins_line(text, offset));
    }
    assert(offset_shift(text, end, line_head(text, lo), hi, outward, offset) == 0);
    assert(text.subrange(at, offset).len() == offset - at);
    let gone = if shed(line) <= offset - at {
        shed(line)
    } else {
        offset - at
    };
    assert(text.subrange(at + gone, offset).len() == offset - at - gone);
}

/// From a line on, an offset lands where it is shifted to.
proof fn offset_lands(text: Seq<u8>, lo: int, hi: int, outward: bool, at: int, offset: int)
    requires
        0 <= lo <= hi <= text.len(),
        line_head(text, lo) <= at <= offset <= text.len(),
        0 <= at,
        begins_line(text, at) || at == offset == text.len(),
    ensures
        lands(text, offset, lo, hi, outward) == rewritten(text, at, lo, hi, outward).len() + (offset
            - at) + offset_shift(text, at, line_head(text, lo), hi, outward, offset),
    decreases text.len() - at,
{
    if at < text.len() {
        line_end_shape(text, at);
        let end = line_end(text, at);
        if offset < end || offset == text.len() && end == text.len() {
            offset_in_line_lands(text, lo, hi, outward, at, offset);
        } else {
            let line = text.subrange(at, end);
            shed_fits(line);
            one_line_rewritten(text, lo, hi, outward, at);
            offset_lands(text, lo, hi, outward, end, offset);
            assert(line.len() == end - at);
            assert(line.skip(shed(line)).len() == line.len() - shed(line));
        }
    } else {
        assert(put_before(text, at, lo, hi).len() == 0);
    }
}

/// Whether a line taken in, from `at` on, has something to move.
spec fn has_to_move(text: Seq<u8>, lo: int, hi: int, outward: bool, at: int) -> bool {
    exists|b: int|
        at <= b && #[trigger] begins_line(text, b) && takes_in(text, b, lo, hi) && (!outward
            || text[b] == 9 || text[b] == 32)
}

/// Something moves exactly where a line taken in has something to move.
proof fn what_has_to_move_moves(text: Seq<u8>, lo: int, hi: int, outward: bool, at: int)
    requires
        0 <= lo <= hi <= text.len(),
        line_head(text, lo) <= at <= text.len(),
        0 <= at,
        at == text.len() || begins_line(text, at),
    ensures
        any_moves(text, at, line_head(text, lo), hi, outward) <==> has_to_move(
            text,
            lo,
            hi,
            outward,
            at,
        ),
    decreases text.len() - at,
{
    let head = line_head(text, lo);
    if at < text.len() {
        line_end_shape(text, at);
        let end = line_end(text, at);
        let line = text.subrange(at, end);
        assert(line[0] == text[at]);
        touched_is_taken_in(text, lo, hi, at);
        what_has_to_move_moves(text, lo, hi, outward, end);
        if touched(head, hi, at) && (!outward || shed(line) > 0) {
            assert(begins_line(text, at) && takes_in(text, at, lo, hi));
        }
        if has_to_move(text, lo, hi, outward, end) {
            let b = choose|b: int|
                end <= b && #[trigger] begins_line(text, b) && takes_in(text, b, lo, hi) && (
                !outward || text[b] == 9 || text[b] == 32);
            assert(at <= b && begins_line(text, b));
        }
        if has_to_move(text, lo, hi, outward, at) {
            let b = choose|b: int|
                at <= b && #[trigger] begins_line(text, b) && takes_in(text, b, lo, hi) && (
                !outward || text[b] == 9 || text[b] == 32);
            if at < b < end {
                assert(text[b - 1] != 10);
            } else if b >= end {
                assert(end <= b && begins_line(text, b));
            }
        }
    }
}

/// Tab at a caret types two spaces there, and the caret stands behind them.
pub proof fn tab_at_a_caret_types_an_indent(text: Seq<u8>, at: int)
    requires
        0 <= at <= text.len(),
    ensures
        indented(text, at, at, false) == Some(
            (text.take(at) + seq![32u8, 32u8] + text.skip(at), at + 2, at + 2),
        ),
{
}

/// Over a selection, whichever way it runs, and under Shift+Tab over a caret
/// too: nothing is done exactly where no line it takes in has anything to move
/// (under Shift+Tab, none that begins with a space or a tab; under Tab, none
/// at all). Otherwise the document is the old one byte by byte, with two
/// spaces before every line taken in, or without the tab, the space or the two
/// spaces these begin with; and each end of the selection stands behind what
/// it stood behind.
pub proof fn the_lines_a_selection_takes_in_are_the_lines_that_move(
    text: Seq<u8>,
    start: int,
    end: int,
    outward: bool,
)
    requires
        0 <= start <= text.len(),
        0 <= end <= text.len(),
        start != end || outward,
    ensures
        ({
            let lo = if start <= end { start } else { end };
            let hi = if start <= end { end } else { start };
            match indented(text, start, end, outward) {
                None => forall|b: int| #[trigger]
                    begins_line(text, b) && takes_in(text, b, lo, hi) ==> outward && text[b] != 9
                        && text[b] != 32,
                Some((document, from, to)) => {
                    &&& exists|b: int| #[trigger]
                        begins_line(text, b) && takes_in(text, b, lo, hi) && (!outward || text[b]
                            == 9 || text[b] == 32)
                    &&& document == rewritten(text, text.len() as int, lo, hi, outward)
                    &&& from == lands(text, start, lo, hi, outward)
                    &&& to == lands(text, end, lo, hi, outward)
                },
            }
        }),
{
    let lo = if start <= end { start } else { end };
    let hi = if start <= end { end } else { start };
    let head = line_head(text, lo);
    line_head_shape(text, lo);
    assert(head < text.len() ==> begins_line(text, head));
    nothing_before(text, lo, hi, outward, head);
    lines_rewritten(text, lo, hi, outward, head);
    what_has_to_move_moves(text, lo, hi, outward, head);
    if has_to_move(text, lo, hi, outward, head) {
        offset_lands(text, lo, hi, outward, head, start);
        offset_lands(text, lo, hi, outward, head, end);
    }
    assert forall|b: int| #[trigger] begins_line(text, b) && takes_in(text, b, lo, hi) implies b
        >= head by {
        touched_is_taken_in(text, lo, hi, b);
    }
}

} // verus!
