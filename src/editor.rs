use vstd::prelude::*;

use crate::laws::{reloaded, reloaded_is_identity, split_lines_nonempty};
use crate::text_buffer::{
    chars_of, char_deleted, char_inserted, clamp_to, empty_lines_removed, joined, line_of,
    lines_hash, lines_merged, newline_at, rows_in, rows_view, split_lines, string_of, TextBuffer,
    Viewport,
};

verus! {

/// What follows the last `'/'` of a path, or the whole path where it has none.
pub open spec fn base_name(path: Seq<char>) -> Seq<char>
    decreases path.len(),
{
    if path.len() == 0 {
        seq![]
    } else if path.last() == '/' {
        seq![]
    } else {
        base_name(path.drop_last()).push(path.last())
    }
}

/// A line read from a file loses the `'\r'` of a `"\r\n"` ending.
pub open spec fn strip_cr(line: Seq<char>) -> Seq<char> {
    if line.len() > 0 && line.last() == '\r' {
        line.drop_last()
    } else {
        line
    }
}

/// The lines of a file's text: cut at each `'\n'`, a `'\r'` before it dropped,
/// and no empty line made up after a final `'\n'`. An empty text is one empty line.
pub open spec fn file_lines(text: Seq<char>) -> Seq<Seq<char>> {
    let p = split_lines(text);
    let n = if p.len() > 1 && p.last().len() == 0 {
        p.len() - 1
    } else {
        p.len() as int
    };
    Seq::new(
        n as nat,
        |i: int|
            if i < p.len() - 1 {
                strip_cr(p[i])
            } else {
                p[i]
            },
    )
}

/// A key press, as the editor tells keys apart.
pub enum Key {
    Quit,
    Save,
    Enter,
    Backspace,
    Delete,
    Up,
    Down,
    Left,
    Right,
    Home,
    End,
    Char(char),
    Other,
}

/// What the caller does after a key press.
pub enum Action {
    Continue,
    Quit,
    /// Write this text to the file, then call `mark_saved`.
    Save(String),
}

/// The column at which an edit applies: the cursor column, kept within the line.
pub open spec fn edit_col(lines: Seq<Seq<char>>, row: int, col: int) -> int {
    clamp_to(col, line_of(lines, row).len() as int)
}

/// Lines, cursor row and cursor column after `key`.
pub open spec fn key_step(lines: Seq<Seq<char>>, row: int, col: int, key: Key) -> (
    Seq<Seq<char>>,
    int,
    int,
) {
    let eff = edit_col(lines, row, col);
    match key {
        Key::Quit => (lines, row, col),
        Key::Other => (lines, row, col),
        Key::Save => {
            let t = empty_lines_removed(lines, row, true);
            (t, clamp_to(row, t.len() as int), col)
        },
        Key::Enter => (newline_at(lines, row, eff), row + 1, 0),
        Key::Backspace => {
            if eff > 0 {
                (char_deleted(lines, row, eff - 1), row, eff - 1)
            } else if row > 0 {
                (lines_merged(lines, row - 1), row - 1, line_of(lines, row - 1).len() as int)
            } else {
                (lines, row, col)
            }
        },
        Key::Delete => (char_deleted(lines, row, col), row, col),
        Key::Up => {
            let r = if row > 0 {
                row - 1
            } else {
                row
            };
            let c = if row > 0 {
                clamp_to(col, line_of(lines, row - 1).len() as int)
            } else {
                col
            };
            (empty_lines_removed(lines, r, false), r, c)
        },
        Key::Down => {
            let grown = if row + 1 >= lines.len() {
                newline_at(lines, row + 1, 0)
            } else {
                lines
            };
            (grown, row + 1, clamp_to(col, line_of(grown, row + 1).len() as int))
        },
        Key::Left => (
            lines,
            row,
            if col > 0 {
                col - 1
            } else {
                0
            },
        ),
        Key::Right => (lines, row, col + 1),
        Key::Home => (lines, row, 0),
        Key::End => (lines, row, line_of(lines, row).len() as int),
        Key::Char(c) => (char_inserted(lines, row, eff, c), row, eff + 1),
    }
}

/// The first visible row after keeping `cursor` inside a window of `rows` rows,
/// the last of which is the status bar.
pub open spec fn scrolled(cursor: int, offset: int, rows: int) -> int {
    if cursor >= offset + rows - 1 {
        cursor - (rows - 2)
    } else if cursor < offset {
        cursor
    } else {
        offset
    }
}

pub open spec fn digit_char(d: nat) -> char {
    if d == 0 {
        '0'
    } else if d == 1 {
        '1'
    } else if d == 2 {
        '2'
    } else if d == 3 {
        '3'
    } else if d == 4 {
        '4'
    } else if d == 5 {
        '5'
    } else if d == 6 {
        '6'
    } else if d == 7 {
        '7'
    } else if d == 8 {
        '8'
    } else {
        '9'
    }
}

/// The decimal digits of `n`, without leading zeros.
pub open spec fn decimal(n: nat) -> Seq<char>
    decreases n,
{
    if n < 10 {
        seq![digit_char(n)]
    } else {
        decimal(n / 10).push(digit_char(n % 10))
    }
}

/// `"<path> - <row>/<total> "`, then `"(modified)"` where the text was changed.
pub open spec fn status_text(path: Seq<char>, row: nat, total: nat, modified: bool) -> Seq<char> {
    path + seq![' ', '-', ' '] + decimal(row) + seq!['/'] + decimal(total) + seq![' '] + if modified {
        seq!['(', 'm', 'o', 'd', 'i', 'f', 'i', 'e', 'd', ')']
    } else {
        seq![]
    }
}

/// `s` followed by spaces up to `width` characters.
pub open spec fn padded(s: Seq<char>, width: int) -> Seq<char> {
    if s.len() < width {
        s + Seq::new((width - s.len()) as nat, |_i: int| ' ')
    } else {
        s
    }
}

/// What one screen shows: the visible lines, the `~` rows below them, the
/// status bar, and where the cursor stands on screen.
pub struct Frame {
    pub rows: Vec<String>,
    pub filler_rows: usize,
    pub status: String,
    pub cursor_x: usize,
    pub cursor_y: usize,
}

/// Metadata of the file being edited.
pub struct InputFile {
    pub file_exists: bool,
    pub file_name: String,
    pub file_path: String,
    pub file_hash: u64,
}

/// The text being edited, with the cursor and the first row shown.
pub struct Buffer {
    pub cursor_row: usize,
    pub cursor_col: usize,
    pub content: TextBuffer,
    pub viewport_offset: usize,
}

pub struct Editor {
    pub input_file: InputFile,
    pub buffer: Buffer,
}

impl InputFile {
    pub fn new() -> (r: InputFile)
        ensures
            !r.file_exists,
            r.file_name@ == Seq::<char>::empty(),
            r.file_path@ == Seq::<char>::empty(),
            r.file_hash == 0,
    {
        InputFile {
            file_exists: false,
            file_name: String::new(),
            file_path: String::new(),
            file_hash: 0,
        }
    }
}

/// The part of `path` after its last `'/'`.
fn base_name_of(path: &Vec<char>) -> (r: Vec<char>)
    ensures
        r@ == base_name(path@),
{
    let mut start: usize = 0;
    let mut i: usize = 0;
    while i < path.len()
        invariant
            start <= i <= path@.len(),
            base_name(path@.take(i as int)) == path@.subrange(start as int, i as int),
        decreases path.len() - i,
    {
        assert(path@.take(i + 1).drop_last() =~= path@.take(i as int));
        if path[i] == '/' {
            start = i + 1;
            assert(base_name(path@.take(i + 1)) =~= path@.subrange(start as int, i + 1));
        } else {
            assert(base_name(path@.take(i + 1)) =~= path@.subrange(start as int, i + 1));
        }
        i += 1;
    }
    assert(path@.take(i as int) =~= path@);
    let mut r: Vec<char> = Vec::new();
    let mut j: usize = start;
    while j < path.len()
        invariant
            start <= j <= path@.len(),
            r@ == path@.subrange(start as int, j as int),
        decreases path.len() - j,
    {
        r.push(path[j]);
        j += 1;
        assert(r@ =~= path@.subrange(start as int, j as int));
    }
    r
}

fn digit_of(d: usize) -> (c: char)
    requires
        d < 10,
    ensures
        c == digit_char(d as nat),
{
    if d == 0 {
        '0'
    } else if d == 1 {
        '1'
    } else if d == 2 {
        '2'
    } else if d == 3 {
        '3'
    } else if d == 4 {
        '4'
    } else if d == 5 {
        '5'
    } else if d == 6 {
        '6'
    } else if d == 7 {
        '7'
    } else if d == 8 {
        '8'
    } else {
        '9'
    }
}

/// Appends the decimal digits of `n` to `out`.
fn push_decimal(out: &mut Vec<char>, n: usize)
    ensures
        final(out)@ == old(out)@ + decimal(n as nat),
    decreases n,
{
    if n < 10 {
        out.push(digit_of(n));
    } else {
        push_decimal(out, n / 10);
        out.push(digit_of(n % 10));
    }
    assert(final(out)@ =~= old(out)@ + decimal(n as nat));
}

fn push_all(out: &mut Vec<char>, s: &Vec<char>)
    ensures
        final(out)@ == old(out)@ + s@,
{
    let mut i: usize = 0;
    while i < s.len()
        invariant
            i <= s@.len(),
            out@ == old(out)@ + s@.take(i as int),
        decreases s.len() - i,
    {
        out.push(s[i]);
        i += 1;
        assert(out@ =~= old(out)@ + s@.take(i as int));
    }
    assert(s@.take(i as int) =~= s@);
}

/// The text cut into the lines that a file holds.
fn text_lines(text: &Vec<char>) -> (r: Vec<Vec<char>>)
    ensures
        rows_view(r@) == file_lines(text@),
{
    let mut done: Vec<Vec<char>> = Vec::new();
    let mut cur: Vec<char> = Vec::new();
    let mut i: usize = 0;
    while i < text.len()
        invariant
            i <= text@.len(),
            done@.len() + 1 == split_lines(text@.take(i as int)).len(),
            forall|k: int|
                0 <= k < done@.len() ==> (#[trigger] done@[k])@ == strip_cr(
                    split_lines(text@.take(i as int))[k],
                ),
            cur@ == split_lines(text@.take(i as int)).last(),
        decreases text.len() - i,
    {
        let ghost p = split_lines(text@.take(i as int));
        assert(text@.take(i + 1).drop_last() =~= text@.take(i as int));
        assert(text@.take(i + 1).last() == text@[i as int]);
        if text[i] == '\n' {
            assert(split_lines(text@.take(i + 1)) == p.push(seq![]));
            let n = cur.len();
            if n > 0 && cur[n - 1] == '\r' {
                cur.pop();
            }
            assert(cur@ =~= strip_cr(p.last()));
            done.push(cur);
            cur = Vec::new();
            assert(cur@ =~= split_lines(text@.take(i + 1)).last());
        } else {
            cur.push(text[i]);
        }
        i += 1;
    }
    assert(text@.take(i as int) =~= text@);
    let ghost p = split_lines(text@);
    if cur.len() > 0 || done.len() == 0 {
        done.push(cur);
    }
    assert(rows_view(done@) =~= file_lines(text@));
    done
}

impl Editor {
    pub open spec fn wf(&self) -> bool {
        self.buffer.content.wf()
    }

    /// An editor on a file not yet read: one empty line, cursor at the start,
    /// and the hash of that empty text recorded, so it does not show as modified.
    pub fn new(file_path: String) -> (r: Editor)
        ensures
            r.wf(),
            r.input_file.file_path@ == file_path@,
            r.input_file.file_name@ == base_name(file_path@),
            !r.input_file.file_exists,
            r.input_file.file_hash == lines_hash(seq![Seq::<char>::empty()]),
            r.buffer.content@ == seq![Seq::<char>::empty()],
            r.buffer.cursor_row == 0,
            r.buffer.cursor_col == 0,
            r.buffer.viewport_offset == 0,
    {
        let mut input_file = InputFile::new();
        let path = chars_of(file_path.as_str());
        let name = base_name_of(&path);
        input_file.file_name = string_of(&name);
        input_file.file_path = file_path;
        let content = TextBuffer::new();
        input_file.file_hash = content.calculate_hash();
        Editor {
            input_file,
            buffer: Buffer { cursor_row: 0, cursor_col: 0, content, viewport_offset: 0 },
        }
    }

    /// Fills the buffer with the lines of a file's text, row by row, and records
    /// that the file exists with this content.
    pub fn load_text(&mut self, text: &str)
        ensures
            final(self).wf(),
            final(self).buffer.content@ == file_lines(text@),
            final(self).input_file.file_exists,
            final(self).input_file.file_hash == lines_hash(file_lines(text@)),
            final(self).input_file.file_path == old(self).input_file.file_path,
            final(self).input_file.file_name == old(self).input_file.file_name,
            final(self).buffer.cursor_row == old(self).buffer.cursor_row,
            final(self).buffer.cursor_col == old(self).buffer.cursor_col,
            final(self).buffer.viewport_offset == old(self).buffer.viewport_offset,
    {
        let chars = chars_of(text);
        let lines = text_lines(&chars);
        let ghost pieces = rows_view(lines@);
        proof {
            split_lines_nonempty(text@);
        }
        self.buffer.content = TextBuffer::new();
        let mut i: usize = 0;
        while i < lines.len()
            invariant
                i <= lines@.len(),
                pieces == rows_view(lines@),
                self.buffer.content@ == reloaded(pieces.take(i as int)),
                self.input_file == old(self).input_file,
                self.buffer.cursor_row == old(self).buffer.cursor_row,
                self.buffer.cursor_col == old(self).buffer.cursor_col,
                self.buffer.viewport_offset == old(self).buffer.viewport_offset,
            decreases lines.len() - i,
        {
            let line = string_of(&lines[i]);
            assert(pieces.take(i + 1).drop_last() =~= pieces.take(i as int));
            self.buffer.content.insert_line(i, line);
            i += 1;
        }
        assert(pieces.take(i as int) =~= pieces);
        proof {
            reloaded_is_identity(pieces);
        }
        self.input_file.file_exists = true;
        self.input_file.file_hash = self.buffer.content.calculate_hash();
    }

    /// Whether the text differs, by its hash, from what was last loaded or saved.
    pub fn is_file_modified(&self) -> (r: bool)
        ensures
            r == (lines_hash(self.buffer.content@) != self.input_file.file_hash),
    {
        self.buffer.content.calculate_hash() != self.input_file.file_hash
    }

    /// Drops trailing empty lines, keeps the cursor row within the line count,
    /// and gives the text to write to the file.
    pub fn save_buffer(&mut self) -> (text: String)
        requires
            old(self).wf(),
        ensures
            final(self).wf(),
            final(self).buffer.content@ == empty_lines_removed(
                old(self).buffer.content@,
                old(self).buffer.cursor_row as int,
                true,
            ),
            final(self).buffer.cursor_row == clamp_to(
                old(self).buffer.cursor_row as int,
                final(self).buffer.content@.len() as int,
            ),
            final(self).buffer.cursor_col == old(self).buffer.cursor_col,
            final(self).buffer.viewport_offset == old(self).buffer.viewport_offset,
            final(self).input_file == old(self).input_file,
            text@ == joined(final(self).buffer.content@),
    {
        self.buffer.content.remove_empty_lines(self.buffer.cursor_row, true);
        let contents_length = self.buffer.content.lines_count();
        if self.buffer.cursor_row > contents_length {
            self.buffer.cursor_row = contents_length;
        }
        self.buffer.content.to_string()
    }

    /// Applies one key press to the text and the cursor.
    pub fn handle_key(&mut self, key: Key) -> (r: Action)
        requires
            old(self).wf(),
            old(self).buffer.cursor_row < usize::MAX,
            old(self).buffer.cursor_col < usize::MAX,
        ensures
            final(self).wf(),
            (
                final(self).buffer.content@,
                final(self).buffer.cursor_row as int,
                final(self).buffer.cursor_col as int,
            ) == key_step(
                old(self).buffer.content@,
                old(self).buffer.cursor_row as int,
                old(self).buffer.cursor_col as int,
                key,
            ),
            final(self).buffer.viewport_offset == old(self).buffer.viewport_offset,
            final(self).input_file == old(self).input_file,
            match key {
                Key::Quit => r is Quit,
                Key::Save => r matches Action::Save(t) && t@ == joined(final(self).buffer.content@),
                _ => r is Continue,
            },
    {
        let row = self.buffer.cursor_row;
        let col = self.buffer.cursor_col;
        let len = self.buffer.content.line_len(row);
        let eff = if col < len {
            col
        } else {
            len
        };
        match key {
            Key::Quit => {
                return Action::Quit;
            },
            Key::Save => {
                let text = self.save_buffer();
                return Action::Save(text);
            },
            Key::Enter => {
                self.buffer.content.insert_newline(row, eff);
                self.buffer.cursor_row = row + 1;
                self.buffer.cursor_col = 0;
            },
            Key::Backspace => {
                if eff > 0 {
                    self.buffer.cursor_col = eff - 1;
                    self.buffer.content.delete_char(row, eff - 1);
                } else if row > 0 {
                    let prev_line_len = self.buffer.content.line_len(row - 1);
                    self.buffer.content.merge_lines(row - 1);
                    self.buffer.cursor_row = row - 1;
                    self.buffer.cursor_col = prev_line_len;
                }
            },
            Key::Delete => {
                self.buffer.content.delete_char(row, col);
            },
            Key::Up => {
                if row > 0 {
                    let prev_line_len = self.buffer.content.line_len(row - 1);
                    if col > prev_line_len {
                        self.buffer.cursor_col = prev_line_len;
                    }
                    self.buffer.cursor_row = row - 1;
                }
                self.buffer.content.remove_empty_lines(self.buffer.cursor_row, false);
            },
            Key::Down => {
                self.buffer.cursor_row = row + 1;
                if self.buffer.content.no_more_lines(row + 1) {
                    self.buffer.content.insert_newline(row + 1, 0);
                }
                let current_line_len = self.buffer.content.line_len(row + 1);
                if col > current_line_len {
                    self.buffer.cursor_col = current_line_len;
                }
            },
            Key::Left => {
                if col > 0 {
                    self.buffer.cursor_col = col - 1;
                }
            },
            Key::Right => {
                self.buffer.cursor_col = col + 1;
            },
            Key::Home => {
                self.buffer.cursor_col = 0;
            },
            Key::End => {
                self.buffer.cursor_col = len;
            },
            Key::Char(c) => {
                self.buffer.content.insert_char(row, eff, c);
                self.buffer.cursor_col = eff + 1;
            },
            Key::Other => {},
        }
        Action::Continue
    }

    /// Moves the first visible row so that the cursor stays in view.
    pub fn scroll(&mut self, terminal_rows: usize)
        requires
            terminal_rows >= 2,
        ensures
            final(self).buffer.viewport_offset == scrolled(
                old(self).buffer.cursor_row as int,
                old(self).buffer.viewport_offset as int,
                terminal_rows as int,
            ),
            final(self).buffer.viewport_offset <= final(self).buffer.cursor_row,
            final(self).buffer.cursor_row == old(self).buffer.cursor_row,
            final(self).buffer.cursor_col == old(self).buffer.cursor_col,
            final(self).buffer.content == old(self).buffer.content,
            final(self).input_file == old(self).input_file,
    {
        let row = self.buffer.cursor_row;
        let offset = self.buffer.viewport_offset;
        if row >= offset && row - offset >= terminal_rows - 1 {
            self.buffer.viewport_offset = row - (terminal_rows - 2);
        } else if row < offset {
            self.buffer.viewport_offset = row;
        }
    }

    /// Scrolls, then lays out one screen of `terminal_rows` rows and
    /// `terminal_cols` columns.
    pub fn frame(&mut self, terminal_rows: usize, terminal_cols: usize) -> (f: Frame)
        requires
            terminal_rows >= 2,
            old(self).buffer.cursor_row < usize::MAX,
        ensures
            final(self).buffer.viewport_offset == scrolled(
                old(self).buffer.cursor_row as int,
                old(self).buffer.viewport_offset as int,
                terminal_rows as int,
            ),
            final(self).buffer.cursor_row == old(self).buffer.cursor_row,
            final(self).buffer.cursor_col == old(self).buffer.cursor_col,
            final(self).buffer.content == old(self).buffer.content,
            final(self).input_file == old(self).input_file,
            f.rows@.len() == rows_in(
                final(self).buffer.content@,
                final(self).buffer.viewport_offset as int,
                final(self).buffer.viewport_offset + terminal_rows - 1,
            ).len(),
            forall|k: int|
                0 <= k < f.rows@.len() ==> (#[trigger] f.rows@[k])@ == rows_in(
                    final(self).buffer.content@,
                    final(self).buffer.viewport_offset as int,
                    final(self).buffer.viewport_offset + terminal_rows - 1,
                )[k],
            f.filler_rows == terminal_rows - 1 - f.rows@.len(),
            f.cursor_x == final(self).buffer.cursor_col,
            f.cursor_y == final(self).buffer.cursor_row - final(self).buffer.viewport_offset,
            f.status@ == padded(
                status_text(
                    final(self).input_file.file_path@,
                    (final(self).buffer.cursor_row + 1) as nat,
                    final(self).buffer.content@.len(),
                    lines_hash(final(self).buffer.content@) != final(self).input_file.file_hash,
                ),
                terminal_cols as int,
            ),
    {
        self.scroll(terminal_rows);
        let offset = self.buffer.viewport_offset;
        let end_row = if offset <= usize::MAX - (terminal_rows - 1) {
            offset + (terminal_rows - 1)
        } else {
            usize::MAX
        };
        let line_count = self.buffer.content.lines_count();
        let viewport = Viewport { start_row: offset, end_row };
        let visible = self.buffer.content.visible_rows(&viewport);
        let ghost shown = rows_in(
            self.buffer.content@,
            offset as int,
            offset + terminal_rows - 1,
        );
        assert(rows_view(visible@) == shown);
        let mut rows: Vec<String> = Vec::new();
        let mut k: usize = 0;
        while k < visible.len()
            invariant
                k <= visible@.len(),
                rows_view(visible@) == shown,
                rows@.len() == k,
                forall|j: int| 0 <= j < k ==> (#[trigger] rows@[j])@ == shown[j],
            decreases visible.len() - k,
        {
            rows.push(string_of(&visible[k]));
            k += 1;
        }
        let filler_rows = terminal_rows - 1 - rows.len();
        let modified = self.is_file_modified();
        let mut status: Vec<char> = Vec::new();
        let path = chars_of(self.input_file.file_path.as_str());
        push_all(&mut status, &path);
        status.push(' ');
        status.push('-');
        status.push(' ');
        push_decimal(&mut status, self.buffer.cursor_row + 1);
        status.push('/');
        push_decimal(&mut status, line_count);
        status.push(' ');
        if modified {
            let marker = vec!['(', 'm', 'o', 'd', 'i', 'f', 'i', 'e', 'd', ')'];
            push_all(&mut status, &marker);
        }
        let ghost text = status@;
        while status.len() < terminal_cols
            invariant
                status@.len() <= text.len() || status@.len() <= terminal_cols,
                status@ == text + Seq::new((status@.len() - text.len()) as nat, |_i: int| ' '),
                status@.len() >= text.len(),
            decreases terminal_cols - status.len(),
        {
            status.push(' ');
            assert(status@ =~= text + Seq::new((status@.len() - text.len()) as nat, |_i: int| ' '));
        }
        assert(status@ =~= padded(text, terminal_cols as int));
        Frame {
            rows,
            filler_rows,
            status: string_of(&status),
            cursor_x: self.buffer.cursor_col,
            cursor_y: self.buffer.cursor_row - offset,
        }
    }

    /// Records that the current text is now what the file holds.
    pub fn mark_saved(&mut self)
        ensures
            final(self).input_file.file_exists,
            final(self).input_file.file_hash == lines_hash(final(self).buffer.content@),
            final(self).input_file.file_path == old(self).input_file.file_path,
            final(self).input_file.file_name == old(self).input_file.file_name,
            final(self).buffer == old(self).buffer,
    {
        self.input_file.file_exists = true;
        self.input_file.file_hash = self.buffer.content.calculate_hash();
    }
}

} // verus!
