//! The line of text that the user is typing, and the cursor in it.

use vstd::prelude::*;
use vstd::string::{StrSliceExecFns, StringExecFns};
use crate::text::{is_blank, is_blank_text, push_char};

verus! {

/// What the user has typed so far.
#[derive(Debug)]
pub struct InputState {
    /// The text.
    pub current_input: String,
    /// The cursor: the number of characters before it.
    pub cursor_pos: usize,
    /// Whether the text changes the name of an existing record rather than
    /// naming a new one.
    pub is_modifying: bool,
}

/// What an [`InputState`] stands for in contracts.
pub struct InputView {
    pub text: Seq<char>,
    pub cursor: usize,
    pub is_modifying: bool,
}

impl InputView {
    /// Nothing typed, the cursor at the start, a new record.
    pub open spec fn empty() -> InputView {
        InputView { text: Seq::empty(), cursor: 0, is_modifying: false }
    }

    /// Where typing takes effect: the cursor, or the end of the text where
    /// the cursor is past it.
    pub open spec fn point(self) -> int {
        if self.cursor <= self.text.len() {
            self.cursor as int
        } else {
            self.text.len() as int
        }
    }

    /// The same input with other text and the cursor at `cursor`.
    pub open spec fn edited(self, text: Seq<char>, cursor: int) -> InputView {
        InputView { text, cursor: cursor as usize, ..self }
    }

    /// After `c` was typed: it stands before the cursor.
    pub open spec fn with_char(self, c: char) -> InputView {
        self.edited(self.text.insert(self.point(), c), self.point() + 1)
    }

    /// After the character before the cursor was removed, if there is one.
    pub open spec fn without_char_before(self) -> InputView {
        if self.point() > 0 {
            self.edited(self.text.remove(self.point() - 1), self.point() - 1)
        } else {
            self.edited(self.text, 0)
        }
    }

    /// After the character after the cursor was removed, if there is one.
    pub open spec fn without_char_after(self) -> InputView {
        if self.point() < self.text.len() {
            self.edited(self.text.remove(self.point()), self.point())
        } else {
            self.edited(self.text, self.point())
        }
    }

    /// After the cursor moved one character to the left, if it could.
    pub open spec fn cursor_left(self) -> InputView {
        self.edited(self.text, if self.point() > 0 { self.point() - 1 } else { 0 })
    }

    /// After the cursor moved one character to the right, if it could.
    pub open spec fn cursor_right(self) -> InputView {
        self.edited(
            self.text,
            if self.point() < self.text.len() {
                self.point() + 1
            } else {
                self.point()
            },
        )
    }

    /// The text is blank.
    pub open spec fn is_blank(self) -> bool {
        is_blank_text(self.text)
    }
}

impl View for InputState {
    type V = InputView;

    open spec fn view(&self) -> InputView {
        InputView {
            text: self.current_input@,
            cursor: self.cursor_pos,
            is_modifying: self.is_modifying,
        }
    }
}

impl Clone for InputState {
    fn clone(&self) -> (copy: Self)
        ensures
            copy@ == self@,
    {
        InputState {
            current_input: self.current_input.clone(),
            cursor_pos: self.cursor_pos,
            is_modifying: self.is_modifying,
        }
    }
}

impl Default for InputState {
    fn default() -> (state: InputState)
        ensures
            state@ == InputView::empty(),
    {
        InputState::new()
    }
}

impl InputState {
    /// Nothing typed yet.
    pub fn new() -> (state: InputState)
        ensures
            state@ == InputView::empty(),
    {
        InputState { current_input: String::new(), cursor_pos: 0, is_modifying: false }
    }

    /// The text typed so far.
    pub fn get_text(&self) -> (text: &str)
        ensures
            text@ == self@.text,
    {
        self.current_input.as_str()
    }

    /// The text typed so far, to be changed in place. The cursor stays where
    /// it is.
    pub fn get_text_mut(&mut self) -> (text: &mut String)
        ensures
            *text == old(self).current_input,
            final(self).current_input == *final(text),
            final(self).cursor_pos == old(self).cursor_pos,
            final(self).is_modifying == old(self).is_modifying,
    {
        &mut self.current_input
    }

    /// The cursor: the number of characters before it.
    pub fn get_cursor_pos(&self) -> (pos: usize)
        ensures
            pos == self@.cursor,
    {
        self.cursor_pos
    }

    /// Puts the cursor after `pos` characters.
    pub fn set_cursor_pos(&mut self, pos: usize)
        ensures
            final(self)@ == (InputView { cursor: pos, ..old(self)@ }),
    {
        self.cursor_pos = pos;
    }

    /// Replaces the text by `text`, with the cursor at its end, and says
    /// whether the text renames an existing record.
    pub fn seed(&mut self, text: &str, is_modifying: bool)
        ensures
            final(self)@.text == text@,
            final(self)@.cursor == text@.len(),
            final(self)@.is_modifying == is_modifying,
    {
        self.current_input = String::from_str(text);
        self.cursor_pos = text.unicode_len();
        self.is_modifying = is_modifying;
    }

    /// Forgets the text: nothing typed, the cursor at the start, a new
    /// record.
    pub fn clear(&mut self)
        ensures
            final(self)@ == InputView::empty(),
    {
        self.current_input = String::new();
        self.cursor_pos = 0;
        self.is_modifying = false;
    }

    /// Whether the text typed so far is blank.
    pub fn is_blank(&self) -> (blank: bool)
        ensures
            blank == self@.is_blank(),
    {
        is_blank(self.current_input.as_str())
    }

    fn point(&self) -> (at: usize)
        ensures
            at == self@.point(),
            at <= self@.text.len(),
    {
        let len = self.current_input.as_str().unicode_len();
        if self.cursor_pos <= len {
            self.cursor_pos
        } else {
            len
        }
    }

    /// Types `c` at the cursor.
    pub fn add_char(&mut self, c: char)
        ensures
            final(self)@ == old(self)@.with_char(c),
    {
        let at = self.point();
        let len = self.current_input.as_str().unicode_len();
        let mut text = String::from_str(self.current_input.as_str().substring_char(0, at));
        push_char(&mut text, c);
        text.append(self.current_input.as_str().substring_char(at, len));
        assert(text@ =~= old(self)@.text.insert(at as int, c));
        let longer = text.as_str().unicode_len();
        self.current_input = text;
        self.cursor_pos = if at < longer { at + 1 } else { longer };
    }

    /// Removes the character before the cursor.
    pub fn remove_char_before_cursor(&mut self)
        ensures
            final(self)@ == old(self)@.without_char_before(),
    {
        let at = self.point();
        if at > 0 {
            let len = self.current_input.as_str().unicode_len();
            let mut text = String::from_str(self.current_input.as_str().substring_char(0, at - 1));
            text.append(self.current_input.as_str().substring_char(at, len));
            assert(text@ =~= old(self)@.text.remove(at - 1));
            self.current_input = text;
            self.cursor_pos = at - 1;
        } else {
            self.cursor_pos = 0;
        }
    }

    /// Removes the character after the cursor.
    pub fn delete_char_after_cursor(&mut self)
        ensures
            final(self)@ == old(self)@.without_char_after(),
    {
        let at = self.point();
        let len = self.current_input.as_str().unicode_len();
        if at < len {
            let mut text = String::from_str(self.current_input.as_str().substring_char(0, at));
            text.append(self.current_input.as_str().substring_char(at + 1, len));
            assert(text@ =~= old(self)@.text.remove(at as int));
            self.current_input = text;
        }
        self.cursor_pos = at;
    }

    /// Moves the cursor one character to the left.
    pub fn move_cursor_left(&mut self)
        ensures
            final(self)@ == old(self)@.cursor_left(),
    {
        let at = self.point();
        self.cursor_pos = if at > 0 { at - 1 } else { 0 };
    }

    /// Moves the cursor one character to the right.
    pub fn move_cursor_right(&mut self)
        ensures
            final(self)@ == old(self)@.cursor_right(),
    {
        let at = self.point();
        let len = self.current_input.as_str().unicode_len();
        self.cursor_pos = if at < len { at + 1 } else { at };
    }

    /// Moves the cursor before the first character.
    pub fn move_cursor_to_start(&mut self)
        ensures
            final(self)@ == old(self)@.edited(old(self)@.text, 0),
    {
        self.cursor_pos = 0;
    }

    /// Moves the cursor behind the last character.
    pub fn move_cursor_to_end(&mut self)
        ensures
            final(self)@ == old(self)@.edited(old(self)@.text, old(self)@.text.len() as int),
    {
        self.cursor_pos = self.current_input.as_str().unicode_len();
    }
}

} // verus!
