use vstd::prelude::*;
use vstd::string::*;
use vstd::utf8::*;

use crate::text::{lemma_encode_concat, lemma_encode_split, lemma_prefix_is_boundary, utf8_len};

verus! {

/// Sub-state of a pending operator.
#[derive(Clone, Copy, Debug, PartialEq, Eq, Structural)]
pub enum OperateState {
    /// Not engaged; also used to make leaving Insert mode behave the same however it was entered.
    Deactive,
    Active,
    /// Acts on the inner part of a text object.
    Inner,
    /// Acts on the outer part of a text object.
    Outer,
}

/// A pending operator command.
#[derive(Clone, Copy, Debug, PartialEq, Eq, Structural)]
pub enum Operation {
    /// Delete (`d`).
    Delete(OperateState),
    /// Change (`c`).
    Change(OperateState),
}

/// The editing mode.
#[derive(Clone, Copy, Debug, PartialEq, Eq, Structural)]
pub enum Mode {
    Normal,
    Operate(Operation),
    Insert,
}

/// A key, as far as the editor tells keys apart.
#[derive(Clone, Copy, Debug, PartialEq, Eq, Structural)]
pub enum Key {
    Char(char),
    Left,
    Right,
    Enter,
    Backspace,
    Esc,
    Other,
}

/// Whether a key went down, repeats, or came up.
#[derive(Clone, Copy, Debug, PartialEq, Eq, Structural)]
pub enum KeyKind {
    Press,
    Repeat,
    Release,
}

/// One key event.
#[derive(Clone, Copy, Debug, PartialEq, Eq, Structural)]
pub struct KeyEvent {
    pub code: Key,
    pub kind: KeyKind,
}

/// The cursor shape that the terminal should show after a mode change.
#[derive(Clone, Copy, Debug, PartialEq, Eq, Structural)]
pub enum CursorShape {
    /// Normal mode: the cursor rests on a character.
    Block,
    /// Insert mode: the cursor sits between characters.
    Bar,
}

/// Failure of a buffer edit.
#[derive(Clone, Copy, Debug, PartialEq, Eq, Structural)]
pub enum EditError {
    /// A codepoint range that is reversed or reaches past the end of the buffer.
    OutOfRange,
}

/// The editor session.
pub struct App {
    /// Editing mode.
    pub mode: Mode,
    /// Sub-state consulted when leaving Insert mode.
    pub escape_state: OperateState,
    /// The text buffer.
    pub input: String,
    /// Set when the session should end.
    pub exit: bool,
    /// Cursor, as a codepoint index into `input`.
    pub column: usize,
    /// Submitted entries, oldest first.
    pub message: Vec<String>,
    /// Label of the last key handled (for display only).
    pub key_pressed: String,
}

/// The mathematical state of an [`App`]: every string as its sequence of characters.
pub struct AppView {
    pub mode: Mode,
    pub escape_state: OperateState,
    pub input: Seq<char>,
    pub exit: bool,
    pub column: usize,
    pub message: Seq<Seq<char>>,
    pub key_pressed: Seq<char>,
}

impl View for App {
    type V = AppView;

    open spec fn view(&self) -> AppView {
        AppView {
            mode: self.mode,
            escape_state: self.escape_state,
            input: self.input@,
            exit: self.exit,
            column: self.column,
            message: self.message@.map_values(|m: String| m@),
            key_pressed: self.key_pressed@,
        }
    }
}

/// The text that the paste commands insert.
pub open spec fn paste_text() -> Seq<char> {
    seq!['B', 'a', 'k', 'a', '琪', '露', '诺']
}

impl AppView {
    /// Number of codepoints in the buffer.
    pub open spec fn len(self) -> nat {
        self.input.len()
    }

    /// Largest legal cursor: one past the end for a closed range (Insert),
    /// the last character for an open one (Normal), `0` on an empty buffer.
    pub open spec fn upper(self, open: bool) -> nat {
        if open && self.len() > 0 {
            (self.len() - 1) as nat
        } else {
            self.len()
        }
    }

    /// `v` restricted to `[0, upper(open)]`.
    pub open spec fn clamped(self, v: usize, open: bool) -> usize {
        if v <= self.upper(open) {
            v
        } else {
            self.upper(open) as usize
        }
    }

    pub open spec fn moved_left(self, amount: usize, open: bool) -> usize {
        self.clamped(self.column.saturating_sub(amount), open)
    }

    pub open spec fn moved_right(self, amount: usize, open: bool) -> usize {
        self.clamped(self.column.saturating_add(amount), open)
    }

    pub open spec fn with_column(self, c: usize) -> AppView {
        AppView { column: c, ..self }
    }

    /// The cursor lies in the range that its mode allows.
    pub open spec fn cursor_valid(self) -> bool {
        match self.mode {
            Mode::Insert => self.column <= self.upper(false),
            _ => self.column <= self.upper(true),
        }
    }

    /// Codepoint index at which text is spliced: the cursor, or the end of the buffer.
    pub open spec fn insertion_point(self) -> nat {
        if self.column <= self.len() {
            self.column as nat
        } else {
            self.len()
        }
    }

    /// Byte offset of the cursor in the UTF-8 encoding of the buffer.
    pub open spec fn byte_offset(self) -> nat {
        utf8_len(self.input.take(self.insertion_point() as int))
    }

    /// `[start, end)` is a forward range inside the buffer.
    pub open spec fn range_valid(self, start: usize, end: usize) -> bool {
        start <= end <= self.len()
    }

    /// The state after deleting the codepoints `[start, end)`: unchanged for an empty
    /// range or one that is not valid.
    pub open spec fn removed(self, start: usize, end: usize) -> AppView {
        if start == end || !self.range_valid(start, end) {
            self
        } else {
            AppView {
                input: self.input.take(start as int) + self.input.skip(end as int),
                column: start,
                ..self
            }
        }
    }

    /// The state after inserting `text` at the cursor, moved one codepoint left first
    /// when `prepend` holds. The cursor then rests on the last inserted codepoint, or,
    /// in Insert mode, just after it.
    pub open spec fn inserted(self, text: Seq<char>, prepend: bool) -> AppView {
        if text.len() == 0 {
            self
        } else {
            let s0 = if prepend {
                self.with_column(self.moved_left(1, false))
            } else {
                self
            };
            let k = s0.insertion_point() as int;
            let s1 = AppView { input: s0.input.take(k) + text + s0.input.skip(k), ..s0 };
            let s2 = s1.with_column(s1.moved_right((text.len() - 1) as usize, true));
            if s2.mode is Insert {
                s2.with_column(s2.moved_right(1, false))
            } else {
                s2
            }
        }
    }

    /// The state after committing the buffer to the history.
    pub open spec fn submitted(self) -> AppView {
        AppView {
            message: self.message.push(self.input),
            input: Seq::empty(),
            column: 0,
            ..self
        }
    }

    /// The state after handling `key` (the key label aside).
    pub open spec fn step(self, key: KeyEvent) -> AppView {
        match self.mode {
            Mode::Normal => match key.code {
                Key::Char('q') => AppView { exit: true, ..self },
                Key::Char('i') => AppView { mode: Mode::Insert, ..self },
                Key::Char('a') => AppView {
                    mode: Mode::Insert,
                    column: self.moved_right(1, false),
                    ..self
                },
                Key::Left | Key::Char('h') => self.with_column(self.moved_left(1, true)),
                Key::Right | Key::Char('l') => self.with_column(self.moved_right(1, true)),
                Key::Char('p') => self.inserted(paste_text(), true),
                Key::Char('P') => self.inserted(paste_text(), false),
                _ => self,
            },
            Mode::Insert => if key.kind is Press {
                match key.code {
                    Key::Enter => self.submitted(),
                    Key::Char(c) => self.inserted(seq![c], false),
                    Key::Backspace => self.removed(self.moved_left(1, false), self.column),
                    Key::Left => self.with_column(self.moved_left(1, false)),
                    Key::Right => self.with_column(self.moved_right(1, false)),
                    Key::Esc => AppView {
                        mode: Mode::Normal,
                        column: self.moved_left(1, true),
                        ..self
                    },
                    _ => self,
                }
            } else {
                self
            },
            Mode::Operate(_) => self,
        }
    }

    /// The cursor shape that handling `key` asks for, if the mode changes.
    pub open spec fn cursor_hint(self, key: KeyEvent) -> Option<CursorShape> {
        match self.mode {
            Mode::Normal => match key.code {
                Key::Char('i') | Key::Char('a') => Some(CursorShape::Bar),
                _ => None,
            },
            Mode::Insert => if key.kind is Press && key.code is Esc {
                Some(CursorShape::Block)
            } else {
                None
            },
            Mode::Operate(_) => None,
        }
    }
}

/// Relies on `String::insert_str`: the bytes of `t` are spliced into `s` at byte
/// offset `idx`, which must be a character boundary.
#[verifier::external_body]
fn insert_str_at(s: &mut String, idx: usize, t: &str)
    requires
        is_char_boundary(encode_utf8(old(s)@), idx as int),
    ensures
        encode_utf8(final(s)@) == encode_utf8(old(s)@).take(idx as int) + encode_utf8(t@)
            + encode_utf8(old(s)@).skip(idx as int),
{
    s.insert_str(idx, t)
}

/// Relies on `ToString` for `char`: the string holds exactly that character.
#[verifier::external_body]
fn char_to_string(c: char) -> (r: String)
    ensures
        r@ == seq![c],
{
    c.to_string()
}

/// Inserting keeps the cursor in the range of the mode.
proof fn lemma_inserted_keeps_cursor_valid(s: AppView, text: Seq<char>, prepend: bool)
    requires
        s.cursor_valid(),
    ensures
        s.inserted(text, prepend).cursor_valid(),
{
}

/// Handling any key keeps the cursor in the range that the new mode allows.
pub proof fn lemma_step_keeps_cursor_valid(s: AppView, key: KeyEvent)
    requires
        s.cursor_valid(),
    ensures
        s.step(key).cursor_valid(),
{
    match s.mode {
        Mode::Normal => {
            match key.code {
                Key::Char('p') => lemma_inserted_keeps_cursor_valid(s, paste_text(), true),
                Key::Char('P') => lemma_inserted_keeps_cursor_valid(s, paste_text(), false),
                _ => {},
            }
        },
        _ => {},
    }
}

/// Clamping is total: for every raw value, the result lies in `[0, n]` for a closed
/// range and in `[0, max(n - 1, 0)]` for an open one.
pub proof fn lemma_clamp_in_range(s: AppView, v: usize)
    ensures
        s.clamped(v, false) <= s.len(),
        s.clamped(v, true) <= if s.len() > 0 { s.len() - 1 } else { 0 },
{
}

/// Moving left from column `0` stays at `0`; moving right from the bound of the range
/// stays at the bound.
pub proof fn lemma_moves_saturate(s: AppView, amount: usize, open: bool)
    ensures
        s.column == 0 ==> s.moved_left(amount, open) == 0,
        s.column == s.upper(open) ==> s.moved_right(amount, open) == s.column,
{
}

/// Deleting an empty range changes neither the buffer nor the cursor.
pub proof fn lemma_remove_empty_range(s: AppView, k: usize)
    ensures
        s.removed(k, k) == s,
{
}

/// Inserting text at a cursor inside the buffer and then deleting the codepoints
/// just inserted gives back the state it started from.
pub proof fn lemma_insert_then_remove(s: AppView, text: Seq<char>)
    requires
        s.column <= s.len(),
        s.column + text.len() <= usize::MAX,
    ensures
        s.inserted(text, false).range_valid(s.column, (s.column + text.len()) as usize),
        s.inserted(text, false).removed(s.column, (s.column + text.len()) as usize) == s,
{
    let c = s.column as int;
    let t = s.inserted(text, false);
    if text.len() > 0 {
        assert(t.input =~= s.input.take(c) + text + s.input.skip(c));
        assert(t.input.take(c) + t.input.skip(c + text.len()) =~= s.input);
    }
}

/// Entering Insert mode from Normal mode keeps a cursor that is valid under the
/// Normal bound, and it is valid under the Insert bound.
pub proof fn lemma_enter_insert_keeps_column(s: AppView, kind: KeyKind)
    requires
        s.mode is Normal,
        s.column <= s.upper(true),
    ensures
        s.step(KeyEvent { code: Key::Char('i'), kind }).mode is Insert,
        s.step(KeyEvent { code: Key::Char('i'), kind }).column == s.column,
        s.step(KeyEvent { code: Key::Char('i'), kind }).input == s.input,
        s.column <= s.upper(false),
{
}

/// Escaping from Insert mode at column `c` goes to Normal mode at `c - 1`, clamped
/// to the Normal bound, or stays at `0`.
pub proof fn lemma_escape_steps_back(s: AppView)
    requires
        s.mode is Insert,
        s.column <= s.len(),
    ensures
        s.step(KeyEvent { code: Key::Esc, kind: KeyKind::Press }).mode is Normal,
        s.step(KeyEvent { code: Key::Esc, kind: KeyKind::Press }).column == s.clamped(
            s.column.saturating_sub(1),
            true,
        ),
        s.column > 0 ==> s.step(KeyEvent { code: Key::Esc, kind: KeyKind::Press }).column == s.column
            - 1,
        s.column == 0 ==> s.step(KeyEvent { code: Key::Esc, kind: KeyKind::Press }).column == 0,
{
}

impl App {
    /// A session in Normal mode with an empty buffer and no history.
    pub fn new() -> (r: App)
        ensures
            r@.mode == Mode::Normal,
            r@.escape_state == OperateState::Deactive,
            r@.input == Seq::<char>::empty(),
            !r@.exit,
            r@.column == 0,
            r@.message == Seq::<Seq<char>>::empty(),
            r@.key_pressed == Seq::<char>::empty(),
    {
        let r = App {
            mode: Mode::Normal,
            escape_state: OperateState::Deactive,
            input: String::new(),
            exit: false,
            column: 0,
            message: Vec::new(),
            key_pressed: String::new(),
        };
        assert(r@.message =~= Seq::<Seq<char>>::empty());
        r
    }

    /// Restricts `new_column` to the legal cursor range: `[0, n]` for a closed range,
    /// `[0, n - 1]` (or `[0, 0]` when empty) for an open one.
    pub fn clamp_index(&self, new_column: usize, open: bool) -> (r: usize)
        ensures
            r == self@.clamped(new_column, open),
            r <= self@.upper(open),
            r <= new_column,
    {
        let n = self.input.as_str().unicode_len();
        let upper = n.saturating_sub(if open { 1 } else { 0 });
        if new_column <= upper {
            new_column
        } else {
            upper
        }
    }

    /// The cursor moved right by `amount`, saturating, then clamped.
    pub fn column_add(&self, amount: usize, open: bool) -> (r: usize)
        ensures
            r == self@.moved_right(amount, open),
    {
        let new_column = self.column.saturating_add(amount);
        self.clamp_index(new_column, open)
    }

    /// The cursor moved left by `amount`, saturating, then clamped.
    pub fn column_sub(&self, amount: usize, open: bool) -> (r: usize)
        ensures
            r == self@.moved_left(amount, open),
    {
        let new_column = self.column.saturating_sub(amount);
        self.clamp_index(new_column, open)
    }

    /// Moves the cursor left by `amount`, never below `0`.
    pub fn move_left(&mut self, amount: usize, open: bool)
        ensures
            final(self)@ == old(self)@.with_column(old(self)@.moved_left(amount, open)),
            old(self).column == 0 ==> final(self).column == 0,
    {
        self.column = self.column_sub(amount, open);
    }

    /// Moves the cursor right by `amount`, never past the bound of the range.
    pub fn move_right(&mut self, amount: usize, open: bool)
        ensures
            final(self)@ == old(self)@.with_column(old(self)@.moved_right(amount, open)),
            old(self).column == old(self)@.upper(open) ==> final(self).column == old(self).column,
    {
        self.column = self.column_add(amount, open);
    }

    /// Byte offset in `input` of the codepoint under the cursor, or the byte length
    /// of `input` when the cursor is at or past the end. Always a character boundary.
    pub fn byte_index(&self) -> (r: usize)
        ensures
            r == self@.byte_offset(),
            is_char_boundary(encode_utf8(self.input@), r as int),
    {
        let n = self.input.as_str().unicode_len();
        let k = if self.column < n {
            self.column
        } else {
            n
        };
        let prefix = self.input.as_str().substring_char(0, k);
        proof {
            assert(prefix@ =~= self.input@.take(k as int));
            lemma_prefix_is_boundary(self.input@, k as int);
        }
        prefix.as_bytes().len()
    }

    /// Deletes the codepoints `[start, end)` and puts the cursor at `start`; an empty
    /// range changes nothing. A reversed range, or one past the end of the buffer, is
    /// refused with `OutOfRange` and changes nothing.
    pub fn remove_char(&mut self, range: (usize, usize)) -> (r: Result<(), EditError>)
        ensures
            r is Ok <==> old(self)@.range_valid(range.0, range.1),
            r is Err ==> r == Err::<(), EditError>(EditError::OutOfRange),
            final(self)@ == old(self)@.removed(range.0, range.1),
    {
        let (start, end) = range;
        let n = self.input.as_str().unicode_len();
        if start > end || end > n {
            return Err(EditError::OutOfRange);
        }
        if start != end {
            let ghost before = self@;
            let mut joined = self.input.as_str().substring_char(0, start).to_owned();
            joined.append(self.input.as_str().substring_char(end, n));
            self.input = joined;
            self.column = start;
            assert(self@.input =~= before.input.take(start as int) + before.input.skip(end as int));
            assert(self@ == before.removed(start, end));
        }
        Ok(())
    }

    /// Inserts `input` at the cursor (moved one codepoint left first when `prepend`
    /// holds). The cursor then rests on the last inserted codepoint, or in Insert mode
    /// just after it. Empty text changes nothing.
    pub fn insert_text(&mut self, input: &str, prepend: bool)
        ensures
            final(self)@ == old(self)@.inserted(input@, prepend),
    {
        if input.is_empty() {
            return;
        }
        if prepend {
            self.move_left(1, false);
        }
        let ghost s0 = self@;
        let index = self.byte_index();
        proof {
            let k = s0.insertion_point() as int;
            lemma_encode_split(s0.input, k);
        }
        insert_str_at(&mut self.input, index, input);
        proof {
            let k = s0.insertion_point() as int;
            let target = s0.input.take(k) + input@ + s0.input.skip(k);
            let bytes = encode_utf8(s0.input);
            let idx = index as int;
            assert(bytes.take(idx) =~= encode_utf8(s0.input.take(k)));
            assert(bytes.skip(idx) =~= encode_utf8(s0.input.skip(k)));
            lemma_encode_concat(s0.input.take(k), input@);
            lemma_encode_concat(s0.input.take(k) + input@, s0.input.skip(k));
            assert(encode_utf8(self.input@) =~= encode_utf8(target));
            encode_utf8_decode_utf8(self.input@);
            encode_utf8_decode_utf8(target);
            assert(self.input@ == target);
        }
        let count = input.unicode_len();
        self.move_right(count - 1, true);
        match self.mode {
            Mode::Insert => self.move_right(1, false),
            _ => {},
        }
    }

    /// Appends the buffer to the history, then empties the buffer and puts the
    /// cursor at `0`.
    pub fn submit_message(&mut self)
        ensures
            final(self)@ == old(self)@.submitted(),
    {
        let ghost before = self@;
        self.message.push(self.input.clone());
        self.input = String::new();
        self.column = 0;
        assert(self@.message =~= before.message.push(before.input));
        assert(self@.input =~= Seq::<char>::empty());
    }
    /// Handles one key event and records `label` as the last key. Returns the cursor
    /// shape that the terminal should switch to, when the mode changed.
    pub fn handle_key(&mut self, key: KeyEvent, label: String) -> (hint: Option<CursorShape>)
        ensures
            final(self)@ == (AppView { key_pressed: label@, ..old(self)@.step(key) }),
            hint == old(self)@.cursor_hint(key),
            old(self)@.cursor_valid() ==> final(self)@.cursor_valid(),
    {
        let hint = match self.mode {
            Mode::Normal => self.normal_key(key),
            Mode::Insert => self.insert_key(key),
            Mode::Operate(_) => None,
        };
        self.key_pressed = label;
        proof {
            if old(self)@.cursor_valid() {
                lemma_step_keeps_cursor_valid(old(self)@, key);
            }
        }
        hint
    }

    /// Normal mode: commands, motions and paste.
    fn normal_key(&mut self, key: KeyEvent) -> (hint: Option<CursorShape>)
        requires
            old(self).mode is Normal,
        ensures
            final(self)@ == old(self)@.step(key),
            hint == old(self)@.cursor_hint(key),
    {
        match key.code {
            Key::Char('q') => {
                self.exit = true;
                None
            },
            Key::Char('i') => {
                self.mode = Mode::Insert;
                Some(CursorShape::Bar)
            },
            Key::Char('a') => {
                self.mode = Mode::Insert;
                self.move_right(1, false);
                Some(CursorShape::Bar)
            },
            Key::Left | Key::Char('h') => {
                self.move_left(1, true);
                None
            },
            Key::Right | Key::Char('l') => {
                self.move_right(1, true);
                None
            },
            Key::Char('p') => {
                self.insert_paste(true);
                None
            },
            Key::Char('P') => {
                self.insert_paste(false);
                None
            },
            _ => None,
        }
    }

    /// Insert mode: text entry, deletion, motions, submit and escape. Only key
    /// presses count.
    fn insert_key(&mut self, key: KeyEvent) -> (hint: Option<CursorShape>)
        requires
            old(self).mode is Insert,
        ensures
            final(self)@ == old(self)@.step(key),
            hint == old(self)@.cursor_hint(key),
    {
        match key.kind {
            KeyKind::Press => {},
            _ => return None,
        }
        match key.code {
            Key::Enter => {
                self.submit_message();
                None
            },
            Key::Char(value) => {
                let text = char_to_string(value);
                self.insert_text(text.as_str(), false);
                None
            },
            Key::Backspace => {
                let start = self.column_sub(1, false);
                let end = self.column;
                let _ = self.remove_char((start, end));
                None
            },
            Key::Left => {
                self.move_left(1, false);
                None
            },
            Key::Right => {
                self.move_right(1, false);
                None
            },
            Key::Esc => {
                self.mode = Mode::Normal;
                self.move_left(1, true);
                Some(CursorShape::Block)
            },
            _ => None,
        }
    }

    /// Inserts the paste text at the cursor.
    fn insert_paste(&mut self, prepend: bool)
        ensures
            final(self)@ == old(self)@.inserted(paste_text(), prepend),
    {
        let text = "Baka琪露诺";
        proof {
            reveal_strlit("Baka琪露诺");
            assert(text@ =~= paste_text());
        }
        self.insert_text(text, prepend);
    }
}

} // verus!
