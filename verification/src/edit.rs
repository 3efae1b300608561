//! Edits on the text of a file: its lines, the offset that a line and a
//! column stand for, insertion at that offset, and the move of a range of
//! lines from one text into another.

use crate::text::{append_chars, from_chars, join, slice_chars, to_chars, views};
use vstd::math::{max, min};
use vstd::prelude::*;

verus! {

/// The index of the first line feed of `s` at or after `i`, or the length
/// of `s` where there is none.
pub open spec fn line_end(s: Seq<char>, i: int) -> int
    decreases s.len() - i,
{
    if 0 <= i < s.len() && s[i] != '\n' {
        line_end(s, i + 1)
    } else {
        i
    }
}

/// The line that starts at `i` and ends before `e`: the characters between
/// them, without a carriage return that stands right before the line feed.
pub open spec fn line_body(s: Seq<char>, i: int, e: int) -> Seq<char> {
    if e < s.len() && i < e && s[e - 1] == '\r' {
        s.subrange(i, e - 1)
    } else {
        s.subrange(i, e)
    }
}

/// Whether `l` may be a line: it holds no line feed.
pub open spec fn is_line(l: Seq<char>) -> bool {
    forall|k: int| 0 <= k < l.len() ==> #[trigger] l[k] != '\n'
}

/// The lines of `s` from index `i` on.
pub open spec fn lines_from(s: Seq<char>, i: int) -> Seq<Seq<char>>
    decreases s.len() - i,
{
    if 0 <= i < s.len() {
        let e = line_end(s, i);
        if i <= e < s.len() {
            seq![line_body(s, i, e)] + lines_from(s, e + 1)
        } else {
            seq![line_body(s, i, e)]
        }
    } else {
        Seq::empty()
    }
}

/// The lines of `s`. A line ends at a line feed, or at a carriage return
/// followed by a line feed, and holds neither; the last line may end with
/// the text. A text that ends with a line feed has no empty line after it.
pub open spec fn lines(s: Seq<char>) -> Seq<Seq<char>> {
    lines_from(s, 0)
}

/// The room that `ls` take up when each is counted with one character for
/// its line feed.
pub open spec fn span(ls: Seq<Seq<char>>) -> int
    decreases ls.len(),
{
    if ls.len() == 0 {
        0
    } else {
        span(ls.drop_last()) + ls.last().len() + 1
    }
}

/// The offset that `line` and `col` name among `ls`, lines counted from 1:
/// the room of the lines before `line`, and then `col` characters into it,
/// or the whole line where it is shorter. A `line` that is 0 or past the
/// last one names the room of all lines.
pub open spec fn raw_offset(ls: Seq<Seq<char>>, line: int, col: int) -> int {
    if 1 <= line <= ls.len() {
        span(ls.take(line - 1)) + min(col, ls[line - 1].len() as int)
    } else {
        span(ls)
    }
}

/// The offset in `text` that `line` and `col` name. It is never past the
/// end of the text: where the lines' room exceeds the text, as it does by
/// one for a text that does not end with a line feed, the offset is the
/// text's length.
pub open spec fn edit_offset(text: Seq<char>, line: int, col: int) -> int {
    min(raw_offset(lines(text), line, col), text.len() as int)
}

/// `text` with `content` put in before the character at `at`.
pub open spec fn inserted(text: Seq<char>, at: int, content: Seq<char>) -> Seq<char> {
    text.take(at) + content + text.skip(at)
}

/// `text` with `content` put in at the offset that `line` and `col` name.
pub open spec fn edited(text: Seq<char>, line: int, col: int, content: Seq<char>) -> Seq<char> {
    inserted(text, edit_offset(text, line, col), content)
}

/// The lines of `ls`, each followed by a line feed.
pub open spec fn terminated(ls: Seq<Seq<char>>) -> Seq<char>
    decreases ls.len(),
{
    if ls.len() == 0 {
        Seq::empty()
    } else {
        terminated(ls.drop_last()).add(ls.last()).push('\n')
    }
}

/// The range of lines that a move takes out of `count` lines, as the index
/// of its first line and the index after its last, counted from 0. The
/// lines asked for are `start_line` to `end_line`, both counted from 1 and
/// both included. The range ends with the last line at the latest and is
/// empty where it would start after its end.
pub open spec fn move_range(count: int, start_line: int, end_line: int) -> (int, int) {
    let end = min(end_line, count);
    let start = min(max(start_line - 1, 0), end);
    (start, end)
}

/// The block of text that a move carries: the lines of the range, a line
/// feed between each two and one at the end.
pub open spec fn moved_block(src: Seq<char>, start_line: int, end_line: int) -> Seq<char> {
    let ls = lines(src);
    let (start, end) = move_range(ls.len() as int, start_line, end_line);
    join(ls.subrange(start, end), seq!['\n']).push('\n')
}

/// The source after a move: its lines outside the range, each followed by
/// a line feed.
pub open spec fn source_after_move(src: Seq<char>, start_line: int, end_line: int) -> Seq<char> {
    let ls = lines(src);
    let (start, end) = move_range(ls.len() as int, start_line, end_line);
    terminated(ls.take(start) + ls.skip(end))
}

/// The destination after a move: `block` put in where line `dst_line`
/// starts.
pub open spec fn target_after_move(dst: Seq<char>, block: Seq<char>, dst_line: int) -> Seq<char> {
    inserted(dst, edit_offset(dst, dst_line, 0), block)
}

/// Where a line ends: at or after its start, at a line feed or at the end
/// of the text, with no line feed before.
pub proof fn lemma_line_end(s: Seq<char>, i: int)
    requires
        0 <= i <= s.len(),
    ensures
        i <= line_end(s, i) <= s.len(),
        line_end(s, i) < s.len() ==> s[line_end(s, i)] == '\n',
        forall|k: int| i <= k < line_end(s, i) ==> s[k] != '\n',
    decreases s.len() - i,
{
    if i < s.len() && s[i] != '\n' {
        lemma_line_end(s, i + 1);
    }
}

/// The lines from `i` on are the line that starts at `i` and the lines
/// after its line feed.
pub proof fn lemma_lines_step(s: Seq<char>, i: int)
    requires
        0 <= i < s.len(),
    ensures
        lines_from(s, i) == seq![line_body(s, i, line_end(s, i))] + lines_from(
            s,
            line_end(s, i) + 1,
        ),
{
    lemma_line_end(s, i);
    let e = line_end(s, i);
    if e >= s.len() {
        assert(seq![line_body(s, i, e)] + lines_from(s, e + 1) =~= seq![line_body(s, i, e)]);
    }
}

/// One more line takes its length and one more.
pub proof fn lemma_span_push(ls: Seq<Seq<char>>, l: Seq<char>)
    ensures
        span(ls.push(l)) == span(ls) + l.len() + 1,
{
    assert(ls.push(l).drop_last() == ls);
}

/// One more line adds itself and a line feed.
pub proof fn lemma_terminated_push(ls: Seq<Seq<char>>, l: Seq<char>)
    ensures
        terminated(ls.push(l)) == terminated(ls).add(l).push('\n'),
{
    assert(ls.push(l).drop_last() == ls);
}

/// The lines of `text`.
pub fn split_lines(text: &Vec<char>) -> (ls: Vec<Vec<char>>)
    ensures
        views(ls@) == lines(text@),
{
    let mut ls: Vec<Vec<char>> = Vec::new();
    let mut i: usize = 0;
    assert(views(ls@) + lines_from(text@, 0) =~= lines(text@));
    while i < text.len()
        invariant
            i <= text.len(),
            views(ls@) + lines_from(text@, i as int) == lines(text@),
        decreases text.len() - i,
    {
        let mut e: usize = i;
        while e < text.len() && text[e] != '\n'
            invariant
                i <= e <= text.len(),
                line_end(text@, e as int) == line_end(text@, i as int),
            decreases text.len() - e,
        {
            e += 1;
        }
        let body_end: usize = if e < text.len() && i < e && text[e - 1] == '\r' {
            e - 1
        } else {
            e
        };
        let line = slice_chars(text, i, body_end);
        proof {
            lemma_lines_step(text@, i as int);
            assert(line@ == line_body(text@, i as int, e as int));
            assert(views(ls@.push(line)) =~= views(ls@).push(line@));
            assert(views(ls@).push(line@) + lines_from(text@, e + 1) =~= views(ls@) + (seq![
                line@,
            ] + lines_from(text@, e + 1)));
        }
        ls.push(line);
        if e < text.len() {
            i = e + 1;
        } else {
            i = e;
        }
    }
    assert(views(ls@) + lines_from(text@, i as int) =~= views(ls@));
    ls
}

/// The offset that `line` and `col` name among `ls`, held to at most
/// `len`.
fn offset_of(ls: &Vec<Vec<char>>, len: usize, line: usize, col: usize) -> (off: usize)
    ensures
        off == min(raw_offset(views(ls@), line as int, col as int), len as int),
{
    let ghost all = views(ls@);
    let mut off: usize = 0;
    let mut k: usize = 0;
    assert(all.take(0) =~= Seq::<Seq<char>>::empty());
    while k < ls.len()
        invariant
            k <= ls.len(),
            all == views(ls@),
            off == min(span(all.take(k as int)), len as int),
            line == 0 || k < line,
        decreases ls.len() - k,
    {
        let width: usize = ls[k].len();
        assert(all[k as int].len() == width);
        if k + 1 == line {
            let c: usize = if col < width {
                col
            } else {
                width
            };
            if c >= len - off {
                return len;
            } else {
                return off + c;
            }
        }
        proof {
            assert(all.take(k + 1) =~= all.take(k as int).push(all[k as int]));
            lemma_span_push(all.take(k as int), all[k as int]);
        }
        if width >= len - off {
            off = len;
        } else {
            off = off + width + 1;
        }
        k += 1;
    }
    assert(all.take(k as int) =~= all);
    off
}

/// `text` with `content` put in before the character at `at`.
fn insert_chars(text: &Vec<char>, at: usize, content: &Vec<char>) -> (r: Vec<char>)
    requires
        at <= text.len(),
    ensures
        r@ == inserted(text@, at as int, content@),
{
    let mut r = slice_chars(text, 0, at);
    append_chars(&mut r, content);
    let tail = slice_chars(text, at, text.len());
    append_chars(&mut r, &tail);
    r
}

/// Puts `content` into `text` at column `col` of line `line`, lines counted
/// from 1 and columns from 0. A column past the end of the line is the
/// line's end; a line that the text does not have is the end of its last
/// line's room, and at most the end of the text.
pub fn edit_at(text: &str, line: usize, col: usize, content: &str) -> (r: String)
    ensures
        r@ == edited(text@, line as int, col as int, content@),
{
    let chars = to_chars(text);
    let ls = split_lines(&chars);
    let at = offset_of(&ls, chars.len(), line, col);
    let out = insert_chars(&chars, at, &to_chars(content));
    from_chars(&out)
}

/// Adds the lines `ls[from..to]` to `out`, each followed by a line feed.
fn push_terminated(out: &mut Vec<char>, ls: &Vec<Vec<char>>, from: usize, to: usize)
    requires
        from <= to <= ls.len(),
    ensures
        final(out)@ == old(out)@ + terminated(views(ls@).subrange(from as int, to as int)),
{
    let ghost all = views(ls@);
    let mut i: usize = from;
    assert(all.subrange(from as int, from as int) =~= Seq::<Seq<char>>::empty());
    while i < to
        invariant
            from <= i <= to <= ls.len(),
            all == views(ls@),
            out@ == old(out)@ + terminated(all.subrange(from as int, i as int)),
        decreases to - i,
    {
        proof {
            assert(all.subrange(from as int, i + 1) =~= all.subrange(from as int, i as int).push(
                all[i as int],
            ));
            lemma_terminated_push(all.subrange(from as int, i as int), all[i as int]);
        }
        append_chars(out, &ls[i]);
        out.push('\n');
        i += 1;
    }
}

/// The lines `ls[from..to]` with a line feed between each two.
fn join_lines(ls: &Vec<Vec<char>>, from: usize, to: usize) -> (out: Vec<char>)
    requires
        from <= to <= ls.len(),
    ensures
        out@ == join(views(ls@).subrange(from as int, to as int), seq!['\n']),
{
    let ghost all = views(ls@);
    let mut out: Vec<char> = Vec::new();
    let mut i: usize = from;
    assert(all.subrange(from as int, from as int) =~= Seq::<Seq<char>>::empty());
    while i < to
        invariant
            from <= i <= to <= ls.len(),
            all == views(ls@),
            out@ == join(all.subrange(from as int, i as int), seq!['\n']),
        decreases to - i,
    {
        proof {
            assert(all.subrange(from as int, i + 1) =~= all.subrange(from as int, i as int).push(
                all[i as int],
            ));
            crate::text::lemma_join_push(
                all.subrange(from as int, i as int),
                all[i as int],
                seq!['\n'],
            );
        }
        if i > from {
            out.push('\n');
        }
        append_chars(&mut out, &ls[i]);
        i += 1;
    }
    out
}

/// Lines of two lists, each followed by a line feed, are those of the one
/// list and then those of the other.
pub proof fn lemma_terminated_add(a: Seq<Seq<char>>, b: Seq<Seq<char>>)
    ensures
        terminated(a + b) == terminated(a) + terminated(b),
    decreases b.len(),
{
    if b.len() == 0 {
        assert(a + b =~= a);
    } else {
        lemma_terminated_add(a, b.drop_last());
        assert((a + b).drop_last() =~= a + b.drop_last());
        assert((a + b).last() == b.last());
    }
}

/// Moves the lines `start_line` to `end_line` of `src`, both counted from 1
/// and both included, to where line `dst_line` of `dst` starts. Returns
/// the two texts as they are afterwards, the source first.
///
/// The range ends with the last line of `src` at the latest, and is empty
/// where it would start after its end. The source is left with its other
/// lines, each followed by a line feed. The destination gets the lines of
/// the range, joined by line feeds and followed by one.
pub fn move_content(
    src: &str,
    dst: &str,
    start_line: usize,
    end_line: usize,
    dst_line: usize,
) -> (r: (String, String))
    ensures
        r.0@ == source_after_move(src@, start_line as int, end_line as int),
        r.1@ == target_after_move(
            dst@,
            moved_block(src@, start_line as int, end_line as int),
            dst_line as int,
        ),
{
    let src_chars = to_chars(src);
    let ls = split_lines(&src_chars);
    let end: usize = if end_line < ls.len() {
        end_line
    } else {
        ls.len()
    };
    let first: usize = if start_line == 0 {
        0
    } else {
        start_line - 1
    };
    let start: usize = if first < end {
        first
    } else {
        end
    };
    assert((start as int, end as int) == move_range(
        ls.len() as int,
        start_line as int,
        end_line as int,
    ));
    let mut block = join_lines(&ls, start, end);
    block.push('\n');
    let mut rest: Vec<char> = Vec::new();
    push_terminated(&mut rest, &ls, 0, start);
    push_terminated(&mut rest, &ls, end, ls.len());
    proof {
        let all = views(ls@);
        assert(all.subrange(0, start as int) =~= all.take(start as int));
        assert(all.subrange(end as int, ls.len() as int) =~= all.skip(end as int));
        lemma_terminated_add(all.take(start as int), all.skip(end as int));
    }
    let dst_chars = to_chars(dst);
    let dst_lines = split_lines(&dst_chars);
    let at = offset_of(&dst_lines, dst_chars.len(), dst_line, 0);
    let target = insert_chars(&dst_chars, at, &block);
    (from_chars(&rest), from_chars(&target))
}

} // verus!
