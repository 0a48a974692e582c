use vstd::prelude::*;

verus! {

/// The lines of a buffer as sequences of characters.
pub open spec fn rows_view(rows: Seq<Vec<char>>) -> Seq<Seq<char>> {
    rows.map_values(|l: Vec<char>| l@)
}

/// The 64-bit digest that std's default hasher gives a sequence of lines.
pub uninterp spec fn lines_hash(lines: Seq<Seq<char>>) -> u64;

/// Relies on `Hash for Vec<Vec<char>>` fed to `std::hash::DefaultHasher::new()`,
/// whose keys are fixed: the digest depends on the lines alone.
#[verifier::external_body]
fn hash_rows(rows: &Vec<Vec<char>>) -> (r: u64)
    ensures
        r == lines_hash(rows_view(rows@)),
{
    let mut hasher = std::hash::DefaultHasher::new();
    std::hash::Hash::hash(rows, &mut hasher);
    std::hash::Hasher::finish(&hasher)
}

/// The characters of `s` in order.
pub(crate) fn chars_of(s: &str) -> (r: Vec<char>)
    ensures
        r@ == s@,
{
    let mut r: Vec<char> = Vec::new();
    for c in it: s.chars()
        invariant
            it.seq() == s@,
            r@ == it.seq().take(it.index() as int),
    {
        r.push(c);
        assert(r@ =~= it.seq().take(it.index() + 1));
    }
    assert(r@ =~= s@);
    r
}

/// Relies on `FromIterator<&char> for String`: the string made of `v` in order.
#[verifier::external_body]
pub(crate) fn string_of(v: &Vec<char>) -> (r: String)
    ensures
        r@ == v@,
{
    v.iter().collect()
}

/// Lines joined with one `'\n'` between neighbours, none after the last.
pub open spec fn joined(lines: Seq<Seq<char>>) -> Seq<char>
    decreases lines.len(),
{
    if lines.len() == 0 {
        seq![]
    } else if lines.len() == 1 {
        lines[0]
    } else {
        joined(lines.drop_last()) + seq!['\n'] + lines.last()
    }
}

/// A text cut at every `'\n'`: `k` newlines give `k + 1` pieces.
pub open spec fn split_lines(s: Seq<char>) -> Seq<Seq<char>>
    decreases s.len(),
{
    if s.len() == 0 {
        seq![seq![]]
    } else {
        let p = split_lines(s.drop_last());
        if s.last() == '\n' {
            p.push(seq![])
        } else {
            p.update(p.len() - 1, p.last().push(s.last()))
        }
    }
}

pub open spec fn line_of(lines: Seq<Seq<char>>, row: int) -> Seq<char> {
    if 0 <= row < lines.len() {
        lines[row]
    } else {
        seq![]
    }
}

pub open spec fn newline_at(lines: Seq<Seq<char>>, row: int, col: int) -> Seq<Seq<char>> {
    if row < lines.len() {
        let l = lines[row];
        if col <= l.len() {
            lines.update(row, l.take(col)).insert(row + 1, l.skip(col))
        } else {
            lines
        }
    } else if row == lines.len() {
        lines.push(seq![])
    } else {
        lines
    }
}

pub open spec fn char_inserted(lines: Seq<Seq<char>>, row: int, col: int, ch: char) -> Seq<
    Seq<char>,
> {
    if ch == '\n' {
        newline_at(lines, row, col)
    } else if row < lines.len() && col <= lines[row].len() {
        lines.update(row, lines[row].insert(col, ch))
    } else {
        lines
    }
}

pub open spec fn char_deleted(lines: Seq<Seq<char>>, row: int, col: int) -> Seq<Seq<char>> {
    if row < lines.len() && col < lines[row].len() {
        lines.update(row, lines[row].remove(col))
    } else {
        lines
    }
}

pub open spec fn lines_merged(lines: Seq<Seq<char>>, row: int) -> Seq<Seq<char>> {
    if row + 1 < lines.len() {
        lines.update(row, lines[row] + lines[row + 1]).remove(row + 1)
    } else {
        lines
    }
}

/// Grows `lines` with empty lines until `row` exists, then sets that line to `text`.
pub open spec fn line_set(lines: Seq<Seq<char>>, row: int, text: Seq<char>) -> Seq<Seq<char>> {
    let grown = if row < lines.len() {
        lines
    } else {
        lines + Seq::new((row + 1 - lines.len()) as nat, |_i: int| Seq::<char>::empty())
    };
    grown.update(row, text)
}

/// Drops empty lines from the end while more than `floor` lines remain,
/// and never the last remaining line.
pub open spec fn trimmed(lines: Seq<Seq<char>>, floor: int) -> Seq<Seq<char>>
    decreases lines.len(),
{
    if lines.len() > floor && lines.len() > 1 && lines.last().len() == 0 {
        trimmed(lines.drop_last(), floor)
    } else {
        lines
    }
}

pub open spec fn empty_lines_removed(lines: Seq<Seq<char>>, row: int, clear_end: bool) -> Seq<
    Seq<char>,
> {
    if !clear_end && row >= lines.len() {
        lines
    } else {
        trimmed(lines, if clear_end { 1 } else { row })
    }
}

pub open spec fn clamp_to(x: int, len: int) -> int {
    if x < len {
        x
    } else {
        len
    }
}

/// The rows `[min(start, len), min(end, len))`, empty where that range is reversed.
pub open spec fn rows_in(lines: Seq<Seq<char>>, start: int, end: int) -> Seq<Seq<char>> {
    let s = clamp_to(start, lines.len() as int);
    let e = clamp_to(end, lines.len() as int);
    if s <= e {
        lines.subrange(s, e)
    } else {
        seq![]
    }
}

/// A line-oriented text: never fewer than one line.
pub struct TextBuffer {
    lines: Vec<Vec<char>>,
}

/// A half-open range of rows `[start_row, end_row)`.
pub struct Viewport {
    pub start_row: usize,
    pub end_row: usize,
}

impl View for TextBuffer {
    type V = Seq<Seq<char>>;

    closed spec fn view(&self) -> Seq<Seq<char>> {
        rows_view(self.lines@)
    }
}

impl TextBuffer {
    pub open spec fn wf(&self) -> bool {
        self@.len() >= 1
    }

    /// A buffer of one empty line.
    pub fn new() -> (r: TextBuffer)
        ensures
            r@ == seq![Seq::<char>::empty()],
            r.wf(),
    {
        let r = TextBuffer { lines: vec![Vec::new()] };
        assert(r@ =~= seq![Seq::<char>::empty()]);
        r
    }

    /// A digest of the lines, for telling whether the text changed.
    pub fn calculate_hash(&self) -> (r: u64)
        ensures
            r == lines_hash(self@),
    {
        hash_rows(&self.lines)
    }

    /// The length of line `row`, or 0 where there is no such line.
    pub fn line_len(&self, row: usize) -> (r: usize)
        ensures
            r == line_of(self@, row as int).len(),
    {
        if row < self.lines.len() {
            self.lines[row].len()
        } else {
            0
        }
    }

    /// Whether `row` is at or past the end of the buffer.
    pub fn no_more_lines(&self, row: usize) -> (r: bool)
        ensures
            r == (row >= self@.len()),
    {
        row >= self.lines.len()
    }

    /// Splits line `row` at `col`, the rest going to a new line below. At `row`
    /// equal to the line count, appends an empty line. A row further out, or a
    /// column past the line, changes nothing.
    pub fn insert_newline(&mut self, row: usize, col: usize)
        ensures
            final(self)@ == newline_at(old(self)@, row as int, col as int),
    {
        if row < self.lines.len() {
            if col <= self.lines[row].len() {
                let mut line = self.lines.remove(row);
                let rest = line.split_off(col);
                self.lines.insert(row, line);
                self.lines.insert(row + 1, rest);
                assert(self@ =~= newline_at(old(self)@, row as int, col as int));
            }
        } else if row == self.lines.len() {
            self.lines.push(Vec::new());
            assert(self@ =~= newline_at(old(self)@, row as int, col as int));
        }
    }

    /// Inserts `ch` in line `row` before column `col`; a newline splits the line.
    /// A tab is inserted as a literal `'\t'` character, with no expansion to spaces.
    /// Out of range, nothing changes.
    pub fn insert_char(&mut self, row: usize, col: usize, ch: char)
        ensures
            final(self)@ == char_inserted(old(self)@, row as int, col as int, ch),
    {
        if ch == '\n' {
            self.insert_newline(row, col);
        } else if row < self.lines.len() {
            if col <= self.lines[row].len() {
                let mut line = self.lines.remove(row);
                line.insert(col, ch);
                self.lines.insert(row, line);
                assert(self@ =~= char_inserted(old(self)@, row as int, col as int, ch));
            }
        }
    }

    /// Removes the character at `col` of line `row`, where there is one.
    pub fn delete_char(&mut self, row: usize, col: usize)
        ensures
            final(self)@ == char_deleted(old(self)@, row as int, col as int),
    {
        if row < self.lines.len() {
            if col < self.lines[row].len() {
                let mut line = self.lines.remove(row);
                line.remove(col);
                self.lines.insert(row, line);
                assert(self@ =~= char_deleted(old(self)@, row as int, col as int));
            }
        }
    }

    /// Appends line `row + 1` to line `row` and removes it, where it exists.
    pub fn merge_lines(&mut self, row: usize)
        ensures
            final(self)@ == lines_merged(old(self)@, row as int),
    {
        if row < self.lines.len() && self.lines.len() - row > 1 {
            let mut next = self.lines.remove(row + 1);
            let mut line = self.lines.remove(row);
            line.append(&mut next);
            self.lines.insert(row, line);
            assert(self@ =~= lines_merged(old(self)@, row as int));
        }
    }

    /// Sets line `row` to `line`, first adding empty lines until it exists.
    pub fn insert_line(&mut self, row: usize, line: String)
        requires
            row < usize::MAX,
        ensures
            final(self)@ == line_set(old(self)@, row as int, line@),
    {
        while self.lines.len() <= row
            invariant
                row < usize::MAX,
                self@.len() >= old(self)@.len(),
                self@.len() == old(self)@.len() || self@.len() <= row + 1,
                forall|i: int| 0 <= i < old(self)@.len() ==> self@[i] == old(self)@[i],
                forall|i: int|
                    old(self)@.len() <= i < self@.len() ==> self@[i] == Seq::<char>::empty(),
            decreases row + 1 - self.lines.len(),
        {
            let ghost before = self@;
            self.lines.push(Vec::new());
            assert(self@ =~= before.push(Seq::<char>::empty()));
        }
        let ghost grown = self@;
        assert(grown =~= (if row < old(self)@.len() { old(self)@ } else {
            old(self)@ + Seq::new((row + 1 - old(self)@.len()) as nat, |_i: int| Seq::<char>::empty())
        }));
        let text = chars_of(line.as_str());
        self.lines.remove(row);
        self.lines.insert(row, text);
        assert(self@ =~= grown.update(row as int, line@));
        assert(self@ =~= line_set(old(self)@, row as int, line@));
    }

    /// The lines of `viewport`, clamped to the buffer.
    pub fn visible_rows(&self, viewport: &Viewport) -> (r: &[Vec<char>])
        ensures
            rows_view(r@) == rows_in(self@, viewport.start_row as int, viewport.end_row as int),
            r@.len() <= self@.len(),
    {
        let len = self.lines.len();
        let start = if viewport.start_row < len { viewport.start_row } else { len };
        let end = if viewport.end_row < len { viewport.end_row } else { len };
        let end = if start <= end { end } else { start };
        let r = vstd::slice::slice_subrange(self.lines.as_slice(), start, end);
        assert(rows_view(r@) =~= rows_in(self@, viewport.start_row as int, viewport.end_row as int));
        r
    }

    /// The lines joined by `'\n'`, with none after the last.
    pub fn to_string(&self) -> (r: String)
        ensures
            r@ == joined(self@),
    {
        let mut acc: Vec<char> = Vec::new();
        let mut i: usize = 0;
        while i < self.lines.len()
            invariant
                i <= self@.len(),
                acc@ == joined(self@.take(i as int)),
            decreases self.lines.len() - i,
        {
            let line = &self.lines[i];
            if i > 0 {
                acc.push('\n');
            }
            let ghost mid = acc@;
            let mut j: usize = 0;
            while j < line.len()
                invariant
                    j <= line@.len(),
                    acc@ == mid + line@.take(j as int),
                decreases line.len() - j,
            {
                acc.push(line[j]);
                j += 1;
                assert(acc@ =~= mid + line@.take(j as int));
            }
            assert(line@.take(j as int) =~= line@);
            assert(self@.take(i + 1) .drop_last() =~= self@.take(i as int));
            if i == 0 {
                assert(acc@ =~= joined(self@.take(1)));
            }
            i += 1;
        }
        assert(self@.take(i as int) =~= self@);
        string_of(&acc)
    }

    /// Drops empty lines from the end, keeping at least one line, and at least
    /// `row` lines unless `clear_end`; without `clear_end`, nothing changes when
    /// `row` is past the last line.
    pub fn remove_empty_lines(&mut self, row: usize, clear_end: bool)
        ensures
            final(self)@ == empty_lines_removed(old(self)@, row as int, clear_end),
            old(self)@.len() >= 1 ==> final(self)@.len() >= 1,
    {
        if !clear_end && row >= self.lines.len() {
            return;
        }
        let min_lines: usize = if clear_end { 1 } else { row };
        while self.lines.len() > min_lines && self.lines.len() > 1 && self.lines[self.lines.len()
            - 1].len() == 0
            invariant
                old(self)@.len() >= 1 ==> self@.len() >= 1,
                trimmed(self@, min_lines as int) == empty_lines_removed(old(self)@, row as int, clear_end),
                clear_end || row < old(self)@.len(),
                min_lines == (if clear_end { 1 } else { row }),
            decreases self.lines.len(),
        {
            let ghost before = self@;
            self.lines.pop();
            assert(self@ =~= before.drop_last());
        }
    }

    /// The number of lines.
    pub fn lines_count(&self) -> (r: usize)
        ensures
            r == self@.len(),
    {
        self.lines.len()
    }
}

} // verus!
