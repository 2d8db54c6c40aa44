//! A single-line text buffer with a cursor and readline-style editing keys.

use vstd::prelude::*;
use crate::keys::{KeyCode, KeyInput};
use crate::text::{is_white_space, is_whitespace, string_from_chars};

verus! {

/// What the editor did with a key event.
#[derive(Debug, Clone, Copy, PartialEq, Eq, Structural)]
pub enum EditorResult {
    /// The key is not an editing key (navigation, submit, cancel, ...).
    NotConsumed,
    /// The key was handled without changing the text (cursor movement).
    ConsumedNoChange,
    /// The key was handled and the text changed.
    ConsumedChanged,
}

/// Number of bytes of the UTF-8 encoding of a character.
pub open spec fn utf8_width(c: char) -> nat {
    let v = c as u32;
    if v < 0x80 {
        1
    } else if v < 0x800 {
        2
    } else if v < 0x10000 {
        3
    } else {
        4
    }
}

/// Number of bytes of the UTF-8 encoding of a character sequence.
pub open spec fn utf8_len(s: Seq<char>) -> nat
    decreases s.len(),
{
    if s.len() == 0 {
        0
    } else {
        utf8_len(s.drop_last()) + utf8_width(s.last())
    }
}

/// The position reached from `i` by stepping back over whitespace.
pub open spec fn skip_space_back(s: Seq<char>, i: int) -> int
    decreases i,
{
    if i > 0 && is_white_space(s[i - 1]) {
        skip_space_back(s, i - 1)
    } else {
        i
    }
}

/// The position reached from `i` by stepping back over non-whitespace.
pub open spec fn skip_word_back(s: Seq<char>, i: int) -> int
    decreases i,
{
    if i > 0 && !is_white_space(s[i - 1]) {
        skip_word_back(s, i - 1)
    } else {
        i
    }
}

/// Start of the word before position `i`: trailing whitespace is skipped,
/// then the word itself.
pub open spec fn word_start(s: Seq<char>, i: int) -> int {
    skip_word_back(s, skip_space_back(s, i))
}

/// A single-line editing buffer; the cursor is a character index.
#[derive(Debug, Clone)]
pub struct LineEditor {
    chars: Vec<char>,
    cursor: usize,
}

impl LineEditor {
    /// The text.
    pub closed spec fn text(&self) -> Seq<char> {
        self.chars@
    }

    /// The cursor, as a character index.
    pub closed spec fn cursor(&self) -> int {
        self.cursor as int
    }

    /// The cursor lies within the text.
    pub closed spec fn wf(&self) -> bool {
        self.cursor <= self.chars@.len()
    }

    /// An empty buffer with the cursor at the start.
    pub fn new() -> (r: LineEditor)
        ensures
            r.wf(),
            r.text() == Seq::<char>::empty(),
            r.cursor() == 0,
    {
        LineEditor { chars: Vec::new(), cursor: 0 }
    }

    /// The text as a string.
    pub fn value(&self) -> (r: String)
        ensures
            r@ == self.text(),
    {
        string_from_chars(self.chars.as_slice())
    }

    /// The cursor position in characters.
    pub fn cursor_char_idx(&self) -> (r: usize)
        ensures
            r == self.cursor(),
    {
        self.cursor
    }

    /// Empties the buffer and moves the cursor to the start.
    pub fn clear(&mut self)
        ensures
            final(self).wf(),
            final(self).text() == Seq::<char>::empty(),
            final(self).cursor() == 0,
    {
        self.chars = Vec::new();
        self.cursor = 0;
    }

    /// Byte offset in the UTF-8 text of the character at index `idx`, if there is one.
    pub fn byte_offset_for_char_idx(&self, idx: usize) -> (r: Option<usize>)
        requires
            utf8_len(self.text()) <= usize::MAX,
        ensures
            r == (if idx < self.text().len() {
                Some(utf8_len(self.text().take(idx as int)) as usize)
            } else {
                None::<usize>
            }),
    {
        if idx >= self.chars.len() {
            return None;
        }
        Some(utf8_prefix_len(self.chars.as_slice(), idx))
    }

    /// Byte offset of the cursor in the UTF-8 text.
    pub fn cursor_byte_offset(&self) -> (r: usize)
        requires
            self.wf(),
            utf8_len(self.text()) <= usize::MAX,
        ensures
            r == utf8_len(self.text().take(self.cursor())),
    {
        utf8_prefix_len(self.chars.as_slice(), self.cursor)
    }

    /// Inserts a character at the cursor and moves the cursor past it.
    pub fn insert_char(&mut self, c: char)
        requires
            old(self).wf(),
            old(self).text().len() < usize::MAX,
        ensures
            final(self).wf(),
            final(self).text() == old(self).text().take(old(self).cursor()).push(c) + old(
                self,
            ).text().skip(old(self).cursor()),
            final(self).cursor() == old(self).cursor() + 1,
    {
        let ghost before = self.chars@;
        self.chars.insert(self.cursor, c);
        assert(self.chars@ =~= before.take(self.cursor as int).push(c) + before.skip(
            self.cursor as int,
        ));
        self.cursor = self.cursor + 1;
    }

    /// Deletes the character before the cursor; false when the cursor is at the start.
    pub fn backspace(&mut self) -> (r: bool)
        requires
            old(self).wf(),
        ensures
            final(self).wf(),
            r == (old(self).cursor() > 0),
            r ==> final(self).text() == old(self).text().remove(old(self).cursor() - 1)
                && final(self).cursor() == old(self).cursor() - 1,
            !r ==> *final(self) == *old(self),
    {
        if self.cursor == 0 {
            return false;
        }
        let idx = self.cursor - 1;
        self.chars.remove(idx);
        self.cursor = idx;
        true
    }

    /// Deletes the character under the cursor; false when the cursor is at the end.
    pub fn delete(&mut self) -> (r: bool)
        requires
            old(self).wf(),
        ensures
            final(self).wf(),
            r == (old(self).cursor() < old(self).text().len()),
            r ==> final(self).text() == old(self).text().remove(old(self).cursor()),
            final(self).cursor() == old(self).cursor(),
            !r ==> *final(self) == *old(self),
    {
        if self.cursor < self.chars.len() {
            self.chars.remove(self.cursor);
            true
        } else {
            false
        }
    }

    /// Moves the cursor one character left, stopping at the start.
    pub fn move_left(&mut self)
        requires
            old(self).wf(),
        ensures
            final(self).wf(),
            final(self).text() == old(self).text(),
            final(self).cursor() == (if old(self).cursor() > 0 {
                old(self).cursor() - 1
            } else {
                0
            }),
    {
        self.cursor = self.cursor.saturating_sub(1);
    }

    /// Moves the cursor one character right, stopping at the end.
    pub fn move_right(&mut self)
        requires
            old(self).wf(),
        ensures
            final(self).wf(),
            final(self).text() == old(self).text(),
            final(self).cursor() == (if old(self).cursor() < old(self).text().len() {
                old(self).cursor() + 1
            } else {
                old(self).cursor()
            }),
    {
        if self.cursor < self.chars.len() {
            self.cursor = self.cursor + 1;
        }
    }

    /// Moves the cursor to the start.
    pub fn move_to_start(&mut self)
        requires
            old(self).wf(),
        ensures
            final(self).wf(),
            final(self).text() == old(self).text(),
            final(self).cursor() == 0,
    {
        self.cursor = 0;
    }

    /// Moves the cursor to the end.
    pub fn move_to_end(&mut self)
        requires
            old(self).wf(),
        ensures
            final(self).wf(),
            final(self).text() == old(self).text(),
            final(self).cursor() == old(self).text().len(),
    {
        self.cursor = self.chars.len();
    }

    /// Deletes from the cursor to the end; false when the cursor is already at the end.
    pub fn delete_to_end(&mut self) -> (r: bool)
        requires
            old(self).wf(),
        ensures
            final(self).wf(),
            r == (old(self).cursor() < old(self).text().len()),
            final(self).text() == old(self).text().take(old(self).cursor()),
            final(self).cursor() == old(self).cursor(),
    {
        if self.cursor < self.chars.len() {
            self.chars.truncate(self.cursor);
            true
        } else {
            assert(self.chars@.take(self.cursor as int) =~= self.chars@);
            false
        }
    }

    /// Deletes from the start to the cursor; false when the cursor is at the start.
    pub fn delete_to_start(&mut self) -> (r: bool)
        requires
            old(self).wf(),
        ensures
            final(self).wf(),
            r == (old(self).cursor() > 0),
            r ==> final(self).text() == old(self).text().skip(old(self).cursor())
                && final(self).cursor() == 0,
            !r ==> *final(self) == *old(self),
    {
        if self.cursor == 0 {
            return false;
        }
        let ghost before = self.chars@;
        let rest = crate::text::sub_chars(self.chars.as_slice(), self.cursor, self.chars.len());
        self.chars = rest;
        assert(self.chars@ =~= before.skip(self.cursor as int));
        self.cursor = 0;
        true
    }

    /// Deletes the word before the cursor, with any whitespace between it and
    /// the cursor; false when the cursor is at the start.
    pub fn delete_word_before(&mut self) -> (r: bool)
        requires
            old(self).wf(),
        ensures
            final(self).wf(),
            r == (old(self).cursor() > 0),
            r ==> final(self).text() == old(self).text().take(
                word_start(old(self).text(), old(self).cursor()),
            ) + old(self).text().skip(old(self).cursor()) && final(self).cursor() == word_start(
                old(self).text(),
                old(self).cursor(),
            ),
            !r ==> *final(self) == *old(self),
    {
        if self.cursor == 0 {
            return false;
        }
        let ghost s = self.chars@;
        let cur = self.cursor;
        let mut i = cur;
        while i > 0 && is_whitespace(self.chars[i - 1])
            invariant
                i <= cur <= self.chars@.len(),
                self.chars@ == s,
                skip_space_back(s, cur as int) == skip_space_back(s, i as int),
            decreases i,
        {
            i = i - 1;
        }
        let ghost mid = i;
        assert(skip_space_back(s, i as int) == i);
        while i > 0 && !is_whitespace(self.chars[i - 1])
            invariant
                i <= mid <= cur <= self.chars@.len(),
                self.chars@ == s,
                skip_word_back(s, mid as int) == skip_word_back(s, i as int),
            decreases i,
        {
            i = i - 1;
        }
        assert(skip_word_back(s, i as int) == i);
        let mut out = crate::text::sub_chars(self.chars.as_slice(), 0, i);
        let tail = crate::text::sub_chars(self.chars.as_slice(), cur, self.chars.len());
        let mut j: usize = 0;
        let ghost head = out@;
        while j < tail.len()
            invariant
                j <= tail.len(),
                out@ == head + tail@.take(j as int),
            decreases tail.len() - j,
        {
            out.push(tail[j]);
            j = j + 1;
            assert(out@ =~= head + tail@.take(j as int));
        }
        assert(tail@.take(tail.len() as int) =~= tail@);
        assert(head =~= s.take(i as int));
        self.chars = out;
        self.cursor = i;
        true
    }

    /// Applies an editing key: Left/Ctrl+B, Right/Ctrl+F, Home/Ctrl+A and
    /// End/Ctrl+E move the cursor; Ctrl+K and Ctrl+U delete to the end and to
    /// the start; Ctrl+W and Alt+Backspace delete the word before the cursor;
    /// Ctrl+D and Delete delete the character under the cursor; Backspace and
    /// Ctrl+H delete the character before it; other characters typed without
    /// Control or Alt are inserted. Any other key is not consumed.
    pub fn handle_key_event(&mut self, key: &KeyInput) -> (r: EditorResult)
        requires
            old(self).wf(),
            old(self).text().len() < usize::MAX,
        ensures
            final(self).wf(),
            r == spec_key_result(*old(self), *key),
            final(self).text() == spec_apply_action(old(self).text(), old(self).cursor(), key_action(*key)).0,
            final(self).cursor() == spec_apply_action(old(self).text(), old(self).cursor(), key_action(*key)).1,
    {
        let ctrl = key.modifiers.control;
        let alt = key.modifiers.alt;
        match key.code {
            KeyCode::Left => {
                self.move_left();
                EditorResult::ConsumedNoChange
            },
            KeyCode::Right => {
                self.move_right();
                EditorResult::ConsumedNoChange
            },
            KeyCode::Home => {
                self.move_to_start();
                EditorResult::ConsumedNoChange
            },
            KeyCode::End => {
                self.move_to_end();
                EditorResult::ConsumedNoChange
            },
            KeyCode::Delete => {
                changed(self.delete())
            },
            KeyCode::Backspace => {
                if alt {
                    changed(self.delete_word_before())
                } else {
                    changed(self.backspace())
                }
            },
            KeyCode::Char(c) => {
                if ctrl {
                    if c == 'b' {
                        self.move_left();
                        EditorResult::ConsumedNoChange
                    } else if c == 'f' {
                        self.move_right();
                        EditorResult::ConsumedNoChange
                    } else if c == 'a' {
                        self.move_to_start();
                        EditorResult::ConsumedNoChange
                    } else if c == 'e' {
                        self.move_to_end();
                        EditorResult::ConsumedNoChange
                    } else if c == 'k' {
                        changed(self.delete_to_end())
                    } else if c == 'u' {
                        changed(self.delete_to_start())
                    } else if c == 'w' {
                        changed(self.delete_word_before())
                    } else if c == 'd' {
                        changed(self.delete())
                    } else if c == 'h' {
                        changed(self.backspace())
                    } else {
                        EditorResult::NotConsumed
                    }
                } else if alt {
                    EditorResult::NotConsumed
                } else {
                    self.insert_char(c);
                    EditorResult::ConsumedChanged
                }
            },
            _ => EditorResult::NotConsumed,
        }
    }
}

proof fn lemma_utf8_len_prefix(s: Seq<char>, k: int)
    requires
        0 <= k <= s.len(),
    ensures
        utf8_len(s.take(k)) <= utf8_len(s),
    decreases s.len(),
{
    if k == s.len() {
        assert(s.take(k) =~= s);
    } else {
        lemma_utf8_len_prefix(s.drop_last(), k);
        assert(s.drop_last().take(k) =~= s.take(k));
    }
}

/// Number of UTF-8 bytes of the first `n` characters of `v`.
fn utf8_prefix_len(v: &[char], n: usize) -> (r: usize)
    requires
        n <= v.len(),
        utf8_len(v@) <= usize::MAX,
    ensures
        r == utf8_len(v@.take(n as int)),
{
    let mut acc: usize = 0;
    let mut i: usize = 0;
    while i < n
        invariant
            i <= n <= v.len(),
            utf8_len(v@) <= usize::MAX,
            acc == utf8_len(v@.take(i as int)),
        decreases n - i,
    {
        let cv = v[i] as u32;
        let w: usize = if cv < 0x80 {
            1
        } else if cv < 0x800 {
            2
        } else if cv < 0x10000 {
            3
        } else {
            4
        };
        proof {
            assert(v@.take(i + 1).drop_last() =~= v@.take(i as int));
            lemma_utf8_len_prefix(v@, i + 1);
        }
        acc = acc + w;
        i = i + 1;
    }
    acc
}

fn changed(b: bool) -> (r: EditorResult)
    ensures
        r == (if b {
            EditorResult::ConsumedChanged
        } else {
            EditorResult::ConsumedNoChange
        }),
{
    if b {
        EditorResult::ConsumedChanged
    } else {
        EditorResult::ConsumedNoChange
    }
}

/// The editing action a key denotes.
#[derive(Debug, Clone, Copy, PartialEq, Eq, Structural)]
pub enum EditAction {
    Left,
    Right,
    Start,
    End,
    DeleteToEnd,
    DeleteToStart,
    DeleteWord,
    Delete,
    Backspace,
    Insert(char),
    Ignore,
}

/// The editing action of a key event (see `LineEditor::handle_key_event`).
pub open spec fn key_action(key: KeyInput) -> EditAction {
    let ctrl = key.modifiers.control;
    let alt = key.modifiers.alt;
    match key.code {
        KeyCode::Left => EditAction::Left,
        KeyCode::Right => EditAction::Right,
        KeyCode::Home => EditAction::Start,
        KeyCode::End => EditAction::End,
        KeyCode::Delete => EditAction::Delete,
        KeyCode::Backspace => if alt {
            EditAction::DeleteWord
        } else {
            EditAction::Backspace
        },
        KeyCode::Char(c) => if ctrl {
            if c == 'b' {
                EditAction::Left
            } else if c == 'f' {
                EditAction::Right
            } else if c == 'a' {
                EditAction::Start
            } else if c == 'e' {
                EditAction::End
            } else if c == 'k' {
                EditAction::DeleteToEnd
            } else if c == 'u' {
                EditAction::DeleteToStart
            } else if c == 'w' {
                EditAction::DeleteWord
            } else if c == 'd' {
                EditAction::Delete
            } else if c == 'h' {
                EditAction::Backspace
            } else {
                EditAction::Ignore
            }
        } else if alt {
            EditAction::Ignore
        } else {
            EditAction::Insert(c)
        },
        _ => EditAction::Ignore,
    }
}

/// Text and cursor after an editing action.
pub open spec fn spec_apply_action(t: Seq<char>, cur: int, a: EditAction) -> (Seq<char>, int) {
    match a {
        EditAction::Left => (t, if cur > 0 { cur - 1 } else { 0 }),
        EditAction::Right => (t, if cur < t.len() { cur + 1 } else { cur }),
        EditAction::Start => (t, 0),
        EditAction::End => (t, t.len() as int),
        EditAction::DeleteToEnd => (t.take(cur), cur),
        EditAction::DeleteToStart => if cur > 0 {
            (t.skip(cur), 0)
        } else {
            (t, cur)
        },
        EditAction::DeleteWord => if cur > 0 {
            (t.take(word_start(t, cur)) + t.skip(cur), word_start(t, cur))
        } else {
            (t, cur)
        },
        EditAction::Delete => if cur < t.len() {
            (t.remove(cur), cur)
        } else {
            (t, cur)
        },
        EditAction::Backspace => if cur > 0 {
            (t.remove(cur - 1), cur - 1)
        } else {
            (t, cur)
        },
        EditAction::Insert(c) => (t.take(cur).push(c) + t.skip(cur), cur + 1),
        EditAction::Ignore => (t, cur),
    }
}

/// What `handle_key_event` reports for a key, on a text and cursor.
pub open spec fn spec_key_result_at(t: Seq<char>, cur: int, key: KeyInput) -> EditorResult {
    match key_action(key) {
        EditAction::Ignore => EditorResult::NotConsumed,
        EditAction::Left | EditAction::Right | EditAction::Start | EditAction::End =>
            EditorResult::ConsumedNoChange,
        EditAction::Insert(_) => EditorResult::ConsumedChanged,
        EditAction::DeleteToEnd => if cur < t.len() {
            EditorResult::ConsumedChanged
        } else {
            EditorResult::ConsumedNoChange
        },
        EditAction::Delete => if cur < t.len() {
            EditorResult::ConsumedChanged
        } else {
            EditorResult::ConsumedNoChange
        },
        _ => if cur > 0 {
            EditorResult::ConsumedChanged
        } else {
            EditorResult::ConsumedNoChange
        },
    }
}

/// What `handle_key_event` reports for a key.
pub open spec fn spec_key_result(e: LineEditor, key: KeyInput) -> EditorResult {
    spec_key_result_at(e.text(), e.cursor(), key)
}

} // verus!
