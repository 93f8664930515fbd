//! The editor's text-and-cursor model.
//!
//! The buffer is a character sequence with a cursor and a scroll
//! offset. Every key of the editor maps to one state change here; the
//! terminal surface only reads events, feeds them in, and renders the
//! result.

use vstd::prelude::*;

use crate::syntax::FileType;
use crate::text::string_push;

verus! {

/// The start of the line holding position `pos`: the index right
/// after the previous newline, or zero on the first line.
pub open spec fn line_start_of(s: Seq<char>, pos: int) -> int
    recommends
        0 <= pos <= s.len(),
    decreases pos,
{
    if pos <= 0 {
        0
    } else if s[pos - 1] == '\n' {
        pos
    } else {
        line_start_of(s, pos - 1)
    }
}

/// The end of the line holding position `pos`: the index of the next
/// newline at or after `pos`, or the buffer's length on the last line.
pub open spec fn line_end_of(s: Seq<char>, pos: int) -> int
    recommends
        0 <= pos <= s.len(),
    decreases s.len() - pos,
{
    if pos >= s.len() {
        s.len() as int
    } else if s[pos] == '\n' {
        pos
    } else {
        line_end_of(s, pos + 1)
    }
}

/// How many newlines lie before position `pos`: the zero-based number
/// of the line holding `pos`.
pub open spec fn newline_count(s: Seq<char>, pos: int) -> int
    recommends
        0 <= pos <= s.len(),
    decreases pos,
{
    if pos <= 0 {
        0
    } else {
        newline_count(s, pos - 1) + if s[pos - 1] == '\n' {
            1int
        } else {
            0int
        }
    }
}

proof fn lemma_line_start_bounds(s: Seq<char>, pos: int)
    requires
        0 <= pos <= s.len(),
    ensures
        0 <= line_start_of(s, pos) <= pos,
    decreases pos,
{
    if pos > 0 && s[pos - 1] != '\n' {
        lemma_line_start_bounds(s, pos - 1);
    }
}

proof fn lemma_line_end_bounds(s: Seq<char>, pos: int)
    requires
        0 <= pos <= s.len(),
    ensures
        pos <= line_end_of(s, pos) <= s.len(),
    decreases s.len() - pos,
{
    if pos < s.len() && s[pos] != '\n' {
        lemma_line_end_bounds(s, pos + 1);
    }
}

/// Where the cursor lands when it moves one line up: the same column
/// in the previous line, or that line's end when it is shorter; at the
/// first line the cursor does not move.
pub open spec fn move_up_target(s: Seq<char>, pos: int) -> int
    recommends
        0 <= pos <= s.len(),
{
    let ls = line_start_of(s, pos);
    if ls == 0 {
        pos
    } else {
        let ps = line_start_of(s, ls - 1);
        let plen = ls - 1 - ps;
        let col = pos - ls;
        ps + if col <= plen {
            col
        } else {
            plen
        }
    }
}

/// Where the cursor lands when it moves one line down: the same
/// column in the next line, or that line's end when it is shorter; at
/// the last line the cursor does not move.
pub open spec fn move_down_target(s: Seq<char>, pos: int) -> int
    recommends
        0 <= pos <= s.len(),
{
    let le = line_end_of(s, pos);
    if le >= s.len() {
        pos
    } else {
        let ns = le + 1;
        let ne = line_end_of(s, ns);
        let col = pos - line_start_of(s, pos);
        ns + if col <= ne - ns {
            col
        } else {
            ne - ns
        }
    }
}

/// The cursor after `k` single-line moves up.
pub open spec fn pages_up_target(s: Seq<char>, pos: int, k: nat) -> int
    decreases k,
{
    if k == 0 {
        pos
    } else {
        pages_up_target(s, move_up_target(s, pos), (k - 1) as nat)
    }
}

/// The cursor after `k` single-line moves down.
pub open spec fn pages_down_target(s: Seq<char>, pos: int, k: nat) -> int
    decreases k,
{
    if k == 0 {
        pos
    } else {
        pages_down_target(s, move_down_target(s, pos), (k - 1) as nat)
    }
}

/// The smaller of two naturals.
pub open spec fn min_nat(a: nat, b: nat) -> nat {
    if a <= b {
        a
    } else {
        b
    }
}

/// One keystroke of the editor, after the surface has decoded it.
#[derive(Debug, Clone, Copy, PartialEq, Eq)]
pub enum EditorKey {
    /// Insert a character at the cursor.
    Char(char),
    /// Remove the character before the cursor.
    Backspace,
    /// Remove the character under the cursor.
    Delete,
    /// Insert a line break at the cursor.
    Enter,
    Left,
    Right,
    Up,
    Down,
    Home,
    End,
    PageUp,
    PageDown,
}

/// The buffer and cursor after one keystroke: insertions and removals
/// at the cursor, and the cursor movements of the navigation keys.
pub open spec fn apply_key_spec(s: Seq<char>, pos: int, key: EditorKey, visible_height: nat) -> (
    Seq<char>,
    int,
)
    recommends
        0 <= pos <= s.len(),
{
    match key {
        EditorKey::Char(c) => (s.insert(pos, c), pos + 1),
        EditorKey::Enter => (s.insert(pos, '\n'), pos + 1),
        EditorKey::Backspace => if pos > 0 {
            (s.remove(pos - 1), pos - 1)
        } else {
            (s, pos)
        },
        EditorKey::Delete => if pos < s.len() {
            (s.remove(pos), pos)
        } else {
            (s, pos)
        },
        EditorKey::Left => (
            s,
            if pos > 0 {
                pos - 1
            } else {
                0int
            },
        ),
        EditorKey::Right => (
            s,
            if pos < s.len() {
                pos + 1
            } else {
                pos
            },
        ),
        EditorKey::Up => (s, move_up_target(s, pos)),
        EditorKey::Down => (s, move_down_target(s, pos)),
        EditorKey::Home => (s, line_start_of(s, pos)),
        EditorKey::End => (s, line_end_of(s, pos)),
        EditorKey::PageUp => (
            s,
            pages_up_target(s, pos, min_nat(visible_height, newline_count(s, pos) as nat)),
        ),
        EditorKey::PageDown => (
            s,
            pages_down_target(
                s,
                pos,
                min_nat(
                    visible_height,
                    (newline_count(s, s.len() as int) - newline_count(s, pos)) as nat,
                ),
            ),
        ),
    }
}

/// The start of the line holding `pos`.
fn line_start_at(content: &Vec<char>, pos: usize) -> (r: usize)
    requires
        pos <= content@.len(),
    ensures
        r == line_start_of(content@, pos as int),
{
    let mut i: usize = pos;
    while i > 0 && content[i - 1] != '\n'
        invariant
            i <= pos <= content@.len(),
            line_start_of(content@, pos as int) == line_start_of(content@, i as int),
        decreases i,
    {
        i = i - 1;
    }
    i
}

/// The end of the line holding `pos`.
fn line_end_at(content: &Vec<char>, pos: usize) -> (r: usize)
    requires
        pos <= content@.len(),
    ensures
        r == line_end_of(content@, pos as int),
{
    let n = content.len();
    let mut i: usize = pos;
    while i < n && content[i] != '\n'
        invariant
            pos <= i <= n,
            n == content@.len(),
            line_end_of(content@, pos as int) == line_end_of(content@, i as int),
        decreases n - i,
    {
        i = i + 1;
    }
    i
}

/// How many newlines lie before `pos`.
fn newlines_before(content: &Vec<char>, pos: usize) -> (r: usize)
    requires
        pos <= content@.len(),
    ensures
        r == newline_count(content@, pos as int),
        r <= pos,
{
    let mut count: usize = 0;
    let mut i: usize = 0;
    while i < pos
        invariant
            i <= pos <= content@.len(),
            count == newline_count(content@, i as int),
            count <= i,
        decreases pos - i,
    {
        if content[i] == '\n' {
            count = count + 1;
        }
        i = i + 1;
    }
    count
}

/// The text being edited, with its cursor, scroll position and
/// language.
#[derive(Debug)]
pub struct Editor {
    content: Vec<char>,
    cursor_position: usize,
    scroll_offset: usize,
    file_type: FileType,
}

impl Editor {
    /// The buffer's characters.
    pub closed spec fn spec_content(&self) -> Seq<char> {
        self.content@
    }

    /// The cursor, as a position in the character sequence.
    pub closed spec fn spec_cursor(&self) -> int {
        self.cursor_position as int
    }

    /// The first visible line.
    pub closed spec fn spec_scroll(&self) -> int {
        self.scroll_offset as int
    }

    /// The language of the buffer.
    pub closed spec fn spec_file_type(&self) -> FileType {
        self.file_type
    }

    /// The cursor always lies within the buffer.
    pub open spec fn wf(&self) -> bool {
        0 <= self.spec_cursor() <= self.spec_content().len()
    }

    /// An editor over `initial_content`, its language taken from
    /// `file_path`, the cursor at the end of the buffer.
    pub fn new(initial_content: String, file_path: &str) -> (r: Editor)
        ensures
            r.wf(),
            r.spec_content() == initial_content@,
            r.spec_cursor() == initial_content@.len(),
            r.spec_scroll() == 0,
            r.spec_file_type() == FileType::spec_from_path(file_path@),
    {
        let file_type = FileType::from_path(file_path);
        let s = initial_content.as_str();
        let n = s.unicode_len();
        let mut content: Vec<char> = Vec::new();
        let mut i: usize = 0;
        while i < n
            invariant
                n == s@.len(),
                i <= n,
                content@ =~= s@.subrange(0, i as int),
            decreases n - i,
        {
            content.push(s.get_char(i));
            proof {
                assert(s@.subrange(0, i + 1 as int) =~= s@.subrange(0, i as int).push(
                    s@[i as int],
                ));
            }
            i = i + 1;
        }
        proof {
            assert(s@.subrange(0, n as int) =~= s@);
        }
        Editor { content, cursor_position: n, scroll_offset: 0, file_type }
    }

    /// The buffer's text.
    pub fn contents(&self) -> (r: String)
        ensures
            r@ == self.spec_content(),
    {
        let n = self.content.len();
        let mut out = String::new();
        let mut i: usize = 0;
        while i < n
            invariant
                n == self.content@.len(),
                i <= n,
                out@ =~= self.content@.subrange(0, i as int),
            decreases n - i,
        {
            string_push(&mut out, self.content[i]);
            proof {
                assert(self.content@.subrange(0, i + 1 as int) =~= self.content@.subrange(
                    0,
                    i as int,
                ).push(self.content@[i as int]));
            }
            i = i + 1;
        }
        proof {
            assert(self.content@.subrange(0, n as int) =~= self.content@);
        }
        out
    }

    /// The cursor's position in the buffer.
    pub fn cursor(&self) -> (r: usize)
        ensures
            r == self.spec_cursor(),
    {
        self.cursor_position
    }

    /// The first visible line.
    pub fn scroll(&self) -> (r: usize)
        ensures
            r == self.spec_scroll(),
    {
        self.scroll_offset
    }

    /// The language of the buffer.
    pub fn file_type(&self) -> (r: FileType)
        ensures
            r == self.spec_file_type(),
    {
        match self.file_type {
            FileType::Json => FileType::Json,
            FileType::Yaml => FileType::Yaml,
            FileType::Toml => FileType::Toml,
            FileType::Sql => FileType::Sql,
            FileType::Bash => FileType::Bash,
            FileType::Plain => FileType::Plain,
        }
    }

    /// The start of the cursor's line.
    pub fn get_current_line_start(&self) -> (r: usize)
        requires
            self.wf(),
        ensures
            r == line_start_of(self.spec_content(), self.spec_cursor()),
    {
        line_start_at(&self.content, self.cursor_position)
    }

    /// The end of the cursor's line.
    pub fn get_current_line_end(&self) -> (r: usize)
        requires
            self.wf(),
        ensures
            r == line_end_of(self.spec_content(), self.spec_cursor()),
    {
        line_end_at(&self.content, self.cursor_position)
    }

    /// The cursor's column within its line.
    pub fn get_column(&self) -> (r: usize)
        requires
            self.wf(),
        ensures
            r == self.spec_cursor() - line_start_of(self.spec_content(), self.spec_cursor()),
    {
        let ls = self.get_current_line_start();
        proof {
            lemma_line_start_bounds(self.spec_content(), self.spec_cursor());
        }
        self.cursor_position - ls
    }

    /// The zero-based number of the cursor's line.
    pub fn get_current_line_number(&self) -> (r: usize)
        requires
            self.wf(),
        ensures
            r == newline_count(self.spec_content(), self.spec_cursor()),
    {
        newlines_before(&self.content, self.cursor_position)
    }

    /// How many lines the buffer holds; an empty buffer counts one.
    pub fn get_total_lines(&self) -> (r: usize)
        requires
            self.wf(),
            self.spec_content().len() < usize::MAX,
        ensures
            r == newline_count(self.spec_content(), self.spec_content().len() as int) + 1,
    {
        let n = self.content.len();
        newlines_before(&self.content, n) + 1
    }

    /// Move the cursor one line up, keeping its column where the line
    /// above is long enough.
    pub fn move_up(&mut self)
        requires
            old(self).wf(),
        ensures
            final(self).wf(),
            final(self).spec_content() == old(self).spec_content(),
            final(self).spec_scroll() == old(self).spec_scroll(),
            final(self).spec_file_type() == old(self).spec_file_type(),
            final(self).spec_cursor() == move_up_target(
                old(self).spec_content(),
                old(self).spec_cursor(),
            ),
    {
        let ls = self.get_current_line_start();
        if ls == 0 {
            return ;
        }
        proof {
            lemma_line_start_bounds(self.spec_content(), self.spec_cursor());
            lemma_line_start_bounds(self.spec_content(), ls - 1);
        }
        let col = self.cursor_position - ls;
        let ps = line_start_at(&self.content, ls - 1);
        let plen = (ls - 1) - ps;
        self.cursor_position = ps + if col <= plen {
            col
        } else {
            plen
        };
    }

    /// Move the cursor one line down, keeping its column where the
    /// line below is long enough.
    pub fn move_down(&mut self)
        requires
            old(self).wf(),
        ensures
            final(self).wf(),
            final(self).spec_content() == old(self).spec_content(),
            final(self).spec_scroll() == old(self).spec_scroll(),
            final(self).spec_file_type() == old(self).spec_file_type(),
            final(self).spec_cursor() == move_down_target(
                old(self).spec_content(),
                old(self).spec_cursor(),
            ),
    {
        let le = self.get_current_line_end();
        proof {
            lemma_line_end_bounds(self.spec_content(), self.spec_cursor());
        }
        if le >= self.content.len() {
            return ;
        }
        let ns = le + 1;
        let ne = line_end_at(&self.content, ns);
        proof {
            lemma_line_end_bounds(self.spec_content(), ns as int);
            lemma_line_start_bounds(self.spec_content(), self.spec_cursor());
        }
        let col = self.get_column();
        let nlen = ne - ns;
        self.cursor_position = ns + if col <= nlen {
            col
        } else {
            nlen
        };
    }

    /// Move the cursor to the start of its line.
    pub fn move_to_line_start(&mut self)
        requires
            old(self).wf(),
        ensures
            final(self).wf(),
            final(self).spec_content() == old(self).spec_content(),
            final(self).spec_scroll() == old(self).spec_scroll(),
            final(self).spec_file_type() == old(self).spec_file_type(),
            final(self).spec_cursor() == line_start_of(
                old(self).spec_content(),
                old(self).spec_cursor(),
            ),
    {
        proof {
            lemma_line_start_bounds(self.spec_content(), self.spec_cursor());
        }
        self.cursor_position = self.get_current_line_start();
    }

    /// Move the cursor to the end of its line.
    pub fn move_to_line_end(&mut self)
        requires
            old(self).wf(),
        ensures
            final(self).wf(),
            final(self).spec_content() == old(self).spec_content(),
            final(self).spec_scroll() == old(self).spec_scroll(),
            final(self).spec_file_type() == old(self).spec_file_type(),
            final(self).spec_cursor() == line_end_of(
                old(self).spec_content(),
                old(self).spec_cursor(),
            ),
    {
        proof {
            lemma_line_end_bounds(self.spec_content(), self.spec_cursor());
        }
        self.cursor_position = self.get_current_line_end();
    }

    /// Move up one screen: as many single-line moves as the screen is
    /// tall, stopping at the first line.
    pub fn move_pages_up(&mut self, visible_height: usize)
        requires
            old(self).wf(),
        ensures
            final(self).wf(),
            final(self).spec_content() == old(self).spec_content(),
            final(self).spec_scroll() == old(self).spec_scroll(),
            final(self).spec_file_type() == old(self).spec_file_type(),
            final(self).spec_cursor() == pages_up_target(
                old(self).spec_content(),
                old(self).spec_cursor(),
                (if visible_height <= newline_count(old(self).spec_content(), old(self).spec_cursor()) {
                    visible_height as nat
                } else {
                    newline_count(old(self).spec_content(), old(self).spec_cursor()) as nat
                }),
            ),
    {
        let current_line = self.get_current_line_number();
        let lines_to_move = if visible_height <= current_line {
            visible_height
        } else {
            current_line
        };
        let mut t: usize = 0;
        while t < lines_to_move
            invariant
                self.wf(),
                t <= lines_to_move,
                self.spec_content() == old(self).spec_content(),
                self.spec_scroll() == old(self).spec_scroll(),
                self.spec_file_type() == old(self).spec_file_type(),
                self.spec_cursor() == pages_up_target(
                    old(self).spec_content(),
                    old(self).spec_cursor(),
                    t as nat,
                ),
            decreases lines_to_move - t,
        {
            self.move_up();
            proof {
                lemma_pages_up_step(old(self).spec_content(), old(self).spec_cursor(), t as nat);
            }
            t = t + 1;
        }
    }

    /// Move down one screen: as many single-line moves as the screen
    /// is tall, stopping at the last line.
    pub fn move_pages_down(&mut self, visible_height: usize)
        requires
            old(self).wf(),
            old(self).spec_content().len() < usize::MAX,
        ensures
            final(self).wf(),
            final(self).spec_content() == old(self).spec_content(),
            final(self).spec_scroll() == old(self).spec_scroll(),
            final(self).spec_file_type() == old(self).spec_file_type(),
            final(self).spec_cursor() == pages_down_target(
                old(self).spec_content(),
                old(self).spec_cursor(),
                ({
                    let remaining = newline_count(
                        old(self).spec_content(),
                        old(self).spec_content().len() as int,
                    ) - newline_count(old(self).spec_content(), old(self).spec_cursor());
                    if visible_height <= remaining {
                        visible_height as nat
                    } else {
                        remaining as nat
                    }
                }),
            ),
    {
        let current_line = self.get_current_line_number();
        let total_lines = self.get_total_lines();
        proof {
            lemma_newline_count_monotonic(
                self.spec_content(),
                self.spec_cursor(),
                self.spec_content().len() as int,
            );
        }
        let remaining_lines = (total_lines - 1) - current_line;
        let lines_to_move = if visible_height <= remaining_lines {
            visible_height
        } else {
            remaining_lines
        };
        let mut t: usize = 0;
        while t < lines_to_move
            invariant
                self.wf(),
                t <= lines_to_move,
                self.spec_content() == old(self).spec_content(),
                self.spec_scroll() == old(self).spec_scroll(),
                self.spec_file_type() == old(self).spec_file_type(),
                self.spec_cursor() == pages_down_target(
                    old(self).spec_content(),
                    old(self).spec_cursor(),
                    t as nat,
                ),
            decreases lines_to_move - t,
        {
            self.move_down();
            proof {
                lemma_pages_down_step(old(self).spec_content(), old(self).spec_cursor(), t as nat);
            }
            t = t + 1;
        }
    }

    /// Bring the cursor's line into view: scroll up to it when it lies
    /// above the window, or down just enough when it lies below.
    pub fn adjust_scroll(&mut self, visible_height: usize)
        requires
            old(self).wf(),
            0 < visible_height,
        ensures
            final(self).wf(),
            final(self).spec_content() == old(self).spec_content(),
            final(self).spec_cursor() == old(self).spec_cursor(),
            final(self).spec_file_type() == old(self).spec_file_type(),
            ({
                let line = newline_count(old(self).spec_content(), old(self).spec_cursor());
                final(self).spec_scroll() == if line < old(self).spec_scroll() {
                    line
                } else if line >= old(self).spec_scroll() + visible_height {
                    line - visible_height + 1
                } else {
                    old(self).spec_scroll()
                }
            }),
    {
        let line = self.get_current_line_number();
        if line < self.scroll_offset {
            self.scroll_offset = line;
        } else if line - self.scroll_offset >= visible_height {
            self.scroll_offset = line - visible_height + 1;
        }
    }

    /// Apply one keystroke.
    pub fn apply_key(&mut self, key: EditorKey, visible_height: usize)
        requires
            old(self).wf(),
            old(self).spec_content().len() < usize::MAX,
        ensures
            final(self).wf(),
            final(self).spec_scroll() == old(self).spec_scroll(),
            final(self).spec_file_type() == old(self).spec_file_type(),
            final(self).spec_content() == apply_key_spec(
                old(self).spec_content(),
                old(self).spec_cursor(),
                key,
                visible_height as nat,
            ).0,
            final(self).spec_cursor() == apply_key_spec(
                old(self).spec_content(),
                old(self).spec_cursor(),
                key,
                visible_height as nat,
            ).1,
    {
        match key {
            EditorKey::Char(c) => {
                self.content.insert(self.cursor_position, c);
                self.cursor_position = self.cursor_position + 1;
            },
            EditorKey::Enter => {
                self.content.insert(self.cursor_position, '\n');
                self.cursor_position = self.cursor_position + 1;
            },
            EditorKey::Backspace => {
                if self.cursor_position > 0 {
                    self.cursor_position = self.cursor_position - 1;
                    self.content.remove(self.cursor_position);
                }
            },
            EditorKey::Delete => {
                if self.cursor_position < self.content.len() {
                    self.content.remove(self.cursor_position);
                }
            },
            EditorKey::Left => {
                if self.cursor_position > 0 {
                    self.cursor_position = self.cursor_position - 1;
                }
            },
            EditorKey::Right => {
                if self.cursor_position < self.content.len() {
                    self.cursor_position = self.cursor_position + 1;
                }
            },
            EditorKey::Up => self.move_up(),
            EditorKey::Down => self.move_down(),
            EditorKey::Home => self.move_to_line_start(),
            EditorKey::End => self.move_to_line_end(),
            EditorKey::PageUp => {
                proof {
                    lemma_newline_count_monotonic(self.spec_content(), 0, self.spec_cursor());
                }
                self.move_pages_up(visible_height);
            },
            EditorKey::PageDown => {
                proof {
                    lemma_newline_count_monotonic(self.spec_content(), 0, self.spec_cursor());
                    lemma_newline_count_monotonic(
                        self.spec_content(),
                        self.spec_cursor(),
                        self.spec_content().len() as int,
                    );
                }
                self.move_pages_down(visible_height);
            },
        }
    }
}

proof fn lemma_pages_up_step(s: Seq<char>, pos: int, t: nat)
    ensures
        move_up_target(s, pages_up_target(s, pos, t)) == pages_up_target(s, pos, (t + 1) as nat),
    decreases t,
{
    if t == 0 {
        assert(pages_up_target(s, pos, 1) == pages_up_target(s, move_up_target(s, pos), 0));
    } else {
        assert(pages_up_target(s, pos, t) == pages_up_target(
            s,
            move_up_target(s, pos),
            (t - 1) as nat,
        ));
        lemma_pages_up_step(s, move_up_target(s, pos), (t - 1) as nat);
        assert(pages_up_target(s, pos, (t + 1) as nat) == pages_up_target(
            s,
            move_up_target(s, pos),
            t,
        ));
    }
}

proof fn lemma_pages_down_step(s: Seq<char>, pos: int, t: nat)
    ensures
        move_down_target(s, pages_down_target(s, pos, t)) == pages_down_target(
            s,
            pos,
            (t + 1) as nat,
        ),
    decreases t,
{
    if t == 0 {
        assert(pages_down_target(s, pos, 1) == pages_down_target(s, move_down_target(s, pos), 0));
    } else {
        assert(pages_down_target(s, pos, t) == pages_down_target(
            s,
            move_down_target(s, pos),
            (t - 1) as nat,
        ));
        lemma_pages_down_step(s, move_down_target(s, pos), (t - 1) as nat);
        assert(pages_down_target(s, pos, (t + 1) as nat) == pages_down_target(
            s,
            move_down_target(s, pos),
            t,
        ));
    }
}

/// Counting newlines over a longer prefix never counts fewer.
proof fn lemma_newline_count_monotonic(s: Seq<char>, a: int, b: int)
    requires
        0 <= a <= b <= s.len(),
    ensures
        newline_count(s, a) <= newline_count(s, b),
    decreases b - a,
{
    if a < b {
        lemma_newline_count_monotonic(s, a, b - 1);
    }
}

} // verus!
