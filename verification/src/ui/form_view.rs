//! The add/edit form: three text fields, the active one, and a byte-offset cursor.
use vstd::prelude::*;
use crate::keybinding::{field_after, field_before, FormField};
use crate::line_edit::{
    backspace_at_cursor, cursor_left_in, cursor_ok, cursor_right_in, delete_at_cursor,
    delete_word_at_cursor, insert_at_cursor, text_backspace, text_delete, text_delete_word,
    text_insert, text_left, text_right,
};
use crate::text::{
    byte_len, lemma_boundary_unique, lemma_byte_offset_full, owned, utf8_len,
};

verus! {

#[derive(Clone)]
pub struct FormData {
    pub name: String,
    pub url: String,
    pub folder: String,
    pub active_field: FormField,
    pub cursor_pos: usize,
}

/// The form as values: the three field texts, the active field and the cursor.
pub struct FormModel {
    pub name: Seq<char>,
    pub url: Seq<char>,
    pub folder: Seq<char>,
    pub active: FormField,
    pub cursor: nat,
}

impl FormModel {
    /// Text of the active field.
    pub open spec fn active_text(self) -> Seq<char> {
        match self.active {
            FormField::Name => self.name,
            FormField::Url => self.url,
            FormField::Folder => self.folder,
        }
    }

    /// The same form with the active field's text replaced.
    pub open spec fn with_active_text(self, t: Seq<char>) -> FormModel {
        match self.active {
            FormField::Name => FormModel { name: t, ..self },
            FormField::Url => FormModel { url: t, ..self },
            FormField::Folder => FormModel { folder: t, ..self },
        }
    }

    /// The same form with the cursor moved.
    pub open spec fn with_cursor(self, c: nat) -> FormModel {
        FormModel { cursor: c, ..self }
    }

    /// Byte length of the active field.
    pub open spec fn active_len(self) -> nat {
        utf8_len(self.active_text())
    }

    /// The cursor after `clamp_cursor`: never beyond the end of the active field.
    pub open spec fn clamped(self) -> nat {
        if self.cursor > self.active_len() {
            self.active_len()
        } else {
            self.cursor
        }
    }

    /// The cursor is past the end of the active field or on one of its character boundaries,
    /// so that every editing operation can work at it (at the clamped position).
    pub open spec fn cursor_valid(self) -> bool {
        self.cursor >= self.active_len() || cursor_ok(self.active_text(), self.cursor as int)
    }

    /// Typing `c` at the (clamped) cursor.
    pub open spec fn after_insert(self, c: char) -> FormModel {
        let (t, p) = text_insert(self.active_text(), self.clamped() as int, c);
        self.with_active_text(t).with_cursor(p as nat)
    }

    /// Backspace at the (clamped) cursor.
    pub open spec fn after_backspace(self) -> FormModel {
        let (t, p) = text_backspace(self.active_text(), self.clamped() as int);
        self.with_active_text(t).with_cursor(p as nat)
    }

    /// Delete at the (clamped) cursor.
    pub open spec fn after_delete(self) -> FormModel {
        let (t, p) = text_delete(self.active_text(), self.clamped() as int);
        self.with_active_text(t).with_cursor(p as nat)
    }

    /// Cursor one character left.
    pub open spec fn after_left(self) -> FormModel {
        self.with_cursor(text_left(self.active_text(), self.clamped() as int) as nat)
    }

    /// Cursor one character right.
    pub open spec fn after_right(self) -> FormModel {
        self.with_cursor(text_right(self.active_text(), self.clamped() as int) as nat)
    }

    /// Deleting the word before the (clamped) cursor.
    pub open spec fn after_delete_word(self) -> FormModel {
        let (t, p) = text_delete_word(self.active_text(), self.clamped() as int, ' ');
        self.with_active_text(t).with_cursor(p as nat)
    }

    /// The active field emptied, cursor at its start.
    pub open spec fn after_clear(self) -> FormModel {
        self.with_active_text(Seq::empty()).with_cursor(0)
    }

    /// The next field active, cursor at its end.
    pub open spec fn after_next_field(self) -> FormModel {
        let m = FormModel { active: field_after(self.active), ..self };
        m.with_cursor(m.active_len())
    }

    /// The previous field active, cursor at its end.
    pub open spec fn after_prev_field(self) -> FormModel {
        let m = FormModel { active: field_before(self.active), ..self };
        m.with_cursor(m.active_len())
    }

}

impl View for FormData {
    type V = FormModel;

    open spec fn view(&self) -> FormModel {
        FormModel {
            name: self.name@,
            url: self.url@,
            folder: self.folder@,
            active: self.active_field,
            cursor: self.cursor_pos as nat,
        }
    }
}

proof fn lemma_clamped_ok(m: FormModel)
    requires
        m.cursor_valid(),
    ensures
        cursor_ok(m.active_text(), m.clamped() as int),
{
    if m.cursor >= m.active_len() {
        lemma_byte_offset_full(m.active_text());
        lemma_boundary_unique(m.active_text(), m.active_text().len() as int);
    }
}

impl FormData {
    pub fn new() -> (r: Self)
        ensures
            r@ == (FormModel {
                name: Seq::empty(),
                url: Seq::empty(),
                folder: Seq::empty(),
                active: FormField::Name,
                cursor: 0,
            }),
    {
        FormData {
            name: String::new(),
            url: String::new(),
            folder: String::new(),
            active_field: FormField::Name,
            cursor_pos: 0,
        }
    }

    /// A form filled from a bookmark, with the cursor at the end of the name.
    pub fn from_bookmark(name: &str, url: &str, folder: &str) -> (r: Self)
        ensures
            r@ == (FormModel {
                name: name@,
                url: url@,
                folder: folder@,
                active: FormField::Name,
                cursor: utf8_len(name@),
            }),
    {
        let name = owned(name);
        let cursor = byte_len(name.as_str());
        FormData {
            name,
            url: owned(url),
            folder: owned(folder),
            active_field: FormField::Name,
            cursor_pos: cursor,
        }
    }

    fn get_active_field(&self) -> (r: &str)
        ensures
            r@ == self@.active_text(),
    {
        match self.active_field {
            FormField::Name => self.name.as_str(),
            FormField::Url => self.url.as_str(),
            FormField::Folder => self.folder.as_str(),
        }
    }

    fn set_active_field(&mut self, val: String)
        ensures
            final(self)@ == old(self)@.with_active_text(val@),
    {
        match self.active_field {
            FormField::Name => self.name = val,
            FormField::Url => self.url = val,
            FormField::Folder => self.folder = val,
        }
    }

    /// Whether the active field is the last one (Folder).
    pub fn is_last_field(&self) -> (r: bool)
        ensures
            r == (self.active_field == FormField::Folder),
    {
        self.active_field == FormField::Folder
    }

    /// Clamp cursor to valid range
    pub fn clamp_cursor(&mut self)
        ensures
            final(self)@ == old(self)@.with_cursor(old(self)@.clamped()),
    {
        let len = byte_len(self.get_active_field());
        if self.cursor_pos > len {
            self.cursor_pos = len;
        }
    }

    /// Insert char at cursor position
    pub fn insert_char(&mut self, c: char)
        requires
            old(self)@.cursor_valid(),
        ensures
            final(self)@ == old(self)@.after_insert(c),
            final(self)@.cursor_valid(),
    {
        proof {
            lemma_clamped_ok(self@);
        }
        self.clamp_cursor();
        let mut val = owned(self.get_active_field());
        let mut pos = self.cursor_pos;
        insert_at_cursor(&mut val, &mut pos, c);
        self.cursor_pos = pos;
        self.set_active_field(val);
    }

    /// Delete char before cursor (Backspace)
    pub fn backspace(&mut self)
        requires
            old(self)@.cursor_valid(),
        ensures
            final(self)@ == old(self)@.after_backspace(),
            final(self)@.cursor_valid(),
    {
        proof {
            lemma_clamped_ok(self@);
        }
        self.clamp_cursor();
        let mut val = owned(self.get_active_field());
        let mut pos = self.cursor_pos;
        backspace_at_cursor(&mut val, &mut pos);
        self.cursor_pos = pos;
        self.set_active_field(val);
    }

    /// Delete char at cursor position (Delete key)
    pub fn delete_at_cursor(&mut self)
        requires
            old(self)@.cursor_valid(),
        ensures
            final(self)@ == old(self)@.after_delete(),
            final(self)@.cursor_valid(),
    {
        proof {
            lemma_clamped_ok(self@);
        }
        self.clamp_cursor();
        let mut val = owned(self.get_active_field());
        let mut pos = self.cursor_pos;
        delete_at_cursor(&mut val, &mut pos);
        self.cursor_pos = pos;
        self.set_active_field(val);
    }

    /// Move cursor left
    pub fn cursor_left(&mut self)
        requires
            old(self)@.cursor_valid(),
        ensures
            final(self)@ == old(self)@.after_left(),
            final(self)@.cursor_valid(),
    {
        proof {
            lemma_clamped_ok(self@);
        }
        self.clamp_cursor();
        let mut pos = self.cursor_pos;
        match self.active_field {
            FormField::Name => cursor_left_in(&self.name, &mut pos),
            FormField::Url => cursor_left_in(&self.url, &mut pos),
            FormField::Folder => cursor_left_in(&self.folder, &mut pos),
        }
        self.cursor_pos = pos;
    }

    /// Move cursor right
    pub fn cursor_right(&mut self)
        requires
            old(self)@.cursor_valid(),
        ensures
            final(self)@ == old(self)@.after_right(),
            final(self)@.cursor_valid(),
    {
        proof {
            lemma_clamped_ok(self@);
        }
        self.clamp_cursor();
        let mut pos = self.cursor_pos;
        match self.active_field {
            FormField::Name => cursor_right_in(&self.name, &mut pos),
            FormField::Url => cursor_right_in(&self.url, &mut pos),
            FormField::Folder => cursor_right_in(&self.folder, &mut pos),
        }
        self.cursor_pos = pos;
    }

    /// Move cursor to start
    pub fn cursor_home(&mut self)
        ensures
            final(self)@ == old(self)@.with_cursor(0),
    {
        self.cursor_pos = 0;
    }

    /// Move cursor to end
    pub fn cursor_end(&mut self)
        ensures
            final(self)@ == old(self)@.with_cursor(old(self)@.active_len()),
    {
        self.cursor_pos = byte_len(self.get_active_field());
    }

    /// Delete word before cursor (Ctrl+W)
    pub fn delete_word_before_cursor(&mut self)
        requires
            old(self)@.cursor_valid(),
        ensures
            final(self)@ == old(self)@.after_delete_word(),
            final(self)@.cursor_valid(),
    {
        proof {
            lemma_clamped_ok(self@);
        }
        self.clamp_cursor();
        let mut val = owned(self.get_active_field());
        let mut pos = self.cursor_pos;
        delete_word_at_cursor(&mut val, &mut pos, ' ');
        self.cursor_pos = pos;
        self.set_active_field(val);
    }

    /// Clear entire field (Ctrl+U)
    pub fn clear_field(&mut self)
        ensures
            final(self)@ == old(self)@.after_clear(),
    {
        self.set_active_field(String::new());
        self.cursor_pos = 0;
    }

    /// Switch to next field with cursor at end
    pub fn next_field(&mut self)
        ensures
            final(self)@ == old(self)@.after_next_field(),
    {
        self.active_field = self.active_field.next();
        self.cursor_pos = byte_len(self.get_active_field());
    }

    /// Switch to prev field with cursor at end
    pub fn prev_field(&mut self)
        ensures
            final(self)@ == old(self)@.after_prev_field(),
    {
        self.active_field = self.active_field.prev();
        self.cursor_pos = byte_len(self.get_active_field());
    }
}

} // verus!
