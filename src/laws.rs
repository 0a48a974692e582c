use vstd::prelude::*;

use crate::editor::file_lines;
use crate::text_buffer::{
    char_deleted, char_inserted, empty_lines_removed, joined, line_set, lines_hash, lines_merged,
    newline_at, split_lines, trimmed, TextBuffer,
};

verus! {

/// The lines that loading `pieces` one by one with `insert_line`, row after row,
/// into a fresh buffer gives.
pub open spec fn reloaded(pieces: Seq<Seq<char>>) -> Seq<Seq<char>>
    decreases pieces.len(),
{
    if pieces.len() == 0 {
        seq![Seq::<char>::empty()]
    } else {
        line_set(reloaded(pieces.drop_last()), pieces.len() - 1, pieces.last())
    }
}

/// Inserting a character other than a newline at a valid position, then deleting
/// the character at that same position, gives back the original lines.
pub proof fn insert_then_delete_restores(b: TextBuffer, row: int, col: int, ch: char)
    requires
        0 <= row < b@.len(),
        0 <= col <= b@[row].len(),
        ch != '\n',
    ensures
        char_deleted(char_inserted(b@, row, col, ch), row, col) == b@,
{
    let l = b@[row];
    assert(l.insert(col, ch).remove(col) =~= l);
    assert(b@.update(row, l.insert(col, ch)).update(row, l) =~= b@);
}

/// Splitting a line at a valid column, then merging it with the next line,
/// gives back the original lines.
pub proof fn newline_then_merge_restores(b: TextBuffer, row: int, col: int)
    requires
        0 <= row < b@.len(),
        0 <= col <= b@[row].len(),
    ensures
        lines_merged(newline_at(b@, row, col), row) == b@,
{
    let l = b@[row];
    let split = b@.update(row, l.take(col)).insert(row + 1, l.skip(col));
    assert(split[row] + split[row + 1] =~= l);
    assert(split.update(row, l).remove(row + 1) =~= b@);
}

pub(crate) proof fn split_lines_nonempty(s: Seq<char>)
    ensures
        split_lines(s).len() >= 1,
    decreases s.len(),
{
    if s.len() > 0 {
        split_lines_nonempty(s.drop_last());
    }
}

/// Text without a newline extends the last piece of a split.
proof fn split_extends_last(x: Seq<char>, y: Seq<char>)
    requires
        !y.contains('\n'),
    ensures
        split_lines(x + y) == split_lines(x).update(
            split_lines(x).len() - 1,
            split_lines(x).last() + y,
        ),
    decreases y.len(),
{
    split_lines_nonempty(x);
    let p = split_lines(x);
    if y.len() == 0 {
        assert(x + y =~= x);
        assert(p.last() + y =~= p.last());
        assert(p.update(p.len() - 1, p.last()) =~= p);
    } else {
        let y0 = y.drop_last();
        assert(!y0.contains('\n')) by {
            if y0.contains('\n') {
                let k = choose|k: int| 0 <= k < y0.len() && y0[k] == '\n';
                assert(y[k] == '\n');
            }
        }
        split_extends_last(x, y0);
        assert((x + y).drop_last() =~= x + y0);
        assert(y.last() != '\n') by {
            assert(y[y.len() - 1] == y.last());
        }
        let q = split_lines(x + y0);
        assert(q.last() =~= p.last() + y0);
        assert(q.last().push(y.last()) =~= p.last() + y);
        assert(q.update(q.len() - 1, q.last().push(y.last())) =~= p.update(
            p.len() - 1,
            p.last() + y,
        ));
    }
}

/// A newline followed by text without one adds that text as a new last piece.
proof fn split_after_newline(x: Seq<char>, y: Seq<char>)
    requires
        !y.contains('\n'),
    ensures
        split_lines(x + seq!['\n'] + y) == split_lines(x).push(y),
{
    let xn = x + seq!['\n'];
    assert(xn.drop_last() =~= x);
    assert(xn.last() == '\n');
    split_extends_last(xn, y);
    let p = split_lines(x).push(Seq::<char>::empty());
    assert(Seq::<char>::empty() + y =~= y);
    assert(p.update(p.len() - 1, y) =~= split_lines(x).push(y));
}

proof fn split_of_joined(lines: Seq<Seq<char>>)
    requires
        lines.len() >= 1,
        forall|i: int| 0 <= i < lines.len() ==> !(#[trigger] lines[i]).contains('\n'),
    ensures
        split_lines(joined(lines)) == lines,
    decreases lines.len(),
{
    if lines.len() == 1 {
        split_extends_last(Seq::<char>::empty(), lines[0]);
        assert(Seq::<char>::empty() + lines[0] =~= lines[0]);
        assert(seq![Seq::<char>::empty()].update(0, lines[0]) =~= lines);
    } else {
        let init = lines.drop_last();
        assert forall|i: int| 0 <= i < init.len() implies !(#[trigger] init[i]).contains('\n') by {
            assert(init[i] == lines[i]);
        }
        split_of_joined(init);
        assert(!lines.last().contains('\n')) by {
            assert(lines[lines.len() - 1] == lines.last());
        }
        split_after_newline(joined(init), lines.last());
        assert(init.push(lines.last()) =~= lines);
    }
}

pub(crate) proof fn reloaded_is_identity(pieces: Seq<Seq<char>>)
    requires
        pieces.len() >= 1,
    ensures
        reloaded(pieces) == pieces,
    decreases pieces.len(),
{
    if pieces.len() == 1 {
        assert(reloaded(pieces.drop_last()) == seq![Seq::<char>::empty()]);
        assert(seq![Seq::<char>::empty()].update(0, pieces[0]) =~= pieces);
    } else {
        let init = pieces.drop_last();
        reloaded_is_identity(init);
        let n = pieces.len() - 1;
        let grown = init + Seq::new((n + 1 - init.len()) as nat, |_i: int| Seq::<char>::empty());
        assert(grown.update(n, pieces.last()) =~= pieces);
    }
}

/// Writing a buffer out with `to_string`, cutting the text at every newline and
/// loading the pieces row by row with `insert_line` gives back the same lines,
/// the single empty line of an empty buffer included.
pub proof fn text_round_trip(b: TextBuffer)
    requires
        b.wf(),
        forall|i: int| 0 <= i < b@.len() ==> !(#[trigger] b@[i]).contains('\n'),
    ensures
        reloaded(split_lines(joined(b@))) == b@,
{
    split_of_joined(b@);
    reloaded_is_identity(b@);
}

/// Text written by `to_string` and read back as a file's lines gives back the
/// same lines, where no line holds a newline, no line but the last ends in
/// `'\r'`, and the last line is not an empty line after others.
pub proof fn file_round_trip(b: TextBuffer)
    requires
        b.wf(),
        forall|i: int| 0 <= i < b@.len() ==> !(#[trigger] b@[i]).contains('\n'),
        forall|i: int|
            0 <= i < b@.len() - 1 ==> #[trigger] b@[i].len() == 0 || b@[i].last() != '\r',
        b@.len() == 1 || b@.last().len() > 0,
    ensures
        file_lines(joined(b@)) == b@,
{
    split_of_joined(b@);
    assert(file_lines(joined(b@)) =~= b@);
}

/// Buffers with the same lines have the same hash, however each was built.
pub proof fn equal_lines_equal_hash(a: TextBuffer, b: TextBuffer)
    requires
        a@ == b@,
    ensures
        lines_hash(a@) == lines_hash(b@),
{
}

proof fn trimmed_is_fixed_point(lines: Seq<Seq<char>>, floor: int)
    ensures
        trimmed(trimmed(lines, floor), floor) == trimmed(lines, floor),
        trimmed(lines, floor).len() <= lines.len(),
        lines.len() >= floor ==> trimmed(lines, floor).len() >= floor,
    decreases lines.len(),
{
    if lines.len() > floor && lines.len() > 1 && lines.last().len() == 0 {
        trimmed_is_fixed_point(lines.drop_last(), floor);
    }
}

/// Removing trailing empty lines a second time, with the same arguments,
/// changes nothing more.
pub proof fn remove_empty_lines_idempotent(b: TextBuffer, row: int, clear_end: bool)
    ensures
        empty_lines_removed(empty_lines_removed(b@, row, clear_end), row, clear_end)
            == empty_lines_removed(b@, row, clear_end),
{
    trimmed_is_fixed_point(b@, if clear_end { 1 } else { row });
}

} // verus!
