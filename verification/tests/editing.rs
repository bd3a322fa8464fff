use edbookmark::keybinding::FormField;
use edbookmark::line_edit::{
    backspace_at_cursor, cursor_left_in, cursor_right_in, delete_at_cursor, delete_word_at_cursor,
    insert_at_cursor,
};
use edbookmark::ui::form_view::FormData;
use edbookmark::ui::help_popup::content_height;

#[test]
fn insert_then_backspace_restores_text_and_cursor() {
    let mut t = String::from("héllo");
    let mut c: usize = 3;
    insert_at_cursor(&mut t, &mut c, 'X');
    assert_eq!(t, "héXllo");
    assert_eq!(c, 4);
    backspace_at_cursor(&mut t, &mut c);
    assert_eq!(t, "héllo");
    assert_eq!(c, 3);
}

#[test]
fn cursor_moves_by_whole_characters() {
    let t = String::from("héllo");
    let mut c: usize = 3;
    cursor_left_in(&t, &mut c);
    assert_eq!(c, 1);
    cursor_right_in(&t, &mut c);
    assert_eq!(c, 3);
    let mut start: usize = 0;
    cursor_left_in(&t, &mut start);
    assert_eq!(start, 0);
    let mut end: usize = 6;
    cursor_right_in(&t, &mut end);
    assert_eq!(end, 6);
}

#[test]
fn delete_removes_character_after_cursor() {
    let mut t = String::from("héllo");
    let mut c: usize = 1;
    delete_at_cursor(&mut t, &mut c);
    assert_eq!(t, "hllo");
    assert_eq!(c, 1);
    let mut end: usize = 4;
    delete_at_cursor(&mut t, &mut end);
    assert_eq!(t, "hllo");
}

#[test]
fn backspace_at_start_does_nothing() {
    let mut t = String::from("abc");
    let mut c: usize = 0;
    backspace_at_cursor(&mut t, &mut c);
    assert_eq!(t, "abc");
    assert_eq!(c, 0);
}

#[test]
fn delete_word_skips_trailing_spaces() {
    let mut t = String::from("foo bar  ");
    let mut c: usize = 9;
    delete_word_at_cursor(&mut t, &mut c, ' ');
    assert_eq!(t, "foo ");
    assert_eq!(c, 4);
    delete_word_at_cursor(&mut t, &mut c, ' ');
    assert_eq!(t, "");
    assert_eq!(c, 0);
}

#[test]
fn delete_word_in_path_stops_after_slash() {
    let mut t = String::from("/home/user/docs");
    let mut c: usize = 15;
    delete_word_at_cursor(&mut t, &mut c, '/');
    assert_eq!(t, "/home/user/");
    assert_eq!(c, 11);
}

#[test]
fn form_typing_and_field_cycle() {
    let mut f = FormData::new();
    assert_eq!(f.active_field, FormField::Name);
    f.insert_char('G');
    f.insert_char('o');
    assert_eq!(f.name, "Go");
    assert_eq!(f.cursor_pos, 2);
    f.next_field();
    assert_eq!(f.active_field, FormField::Url);
    assert_eq!(f.cursor_pos, 0);
    f.next_field();
    assert!(f.is_last_field());
    f.next_field();
    assert_eq!(f.active_field, FormField::Name);
    assert_eq!(f.cursor_pos, 2);
    f.prev_field();
    assert_eq!(f.active_field, FormField::Folder);
}

#[test]
fn form_from_bookmark_puts_cursor_after_name() {
    let mut f = FormData::from_bookmark("Café", "https://c.example", "Food");
    assert_eq!(f.cursor_pos, 5);
    f.cursor_home();
    assert_eq!(f.cursor_pos, 0);
    f.cursor_end();
    assert_eq!(f.cursor_pos, 5);
    f.backspace();
    assert_eq!(f.name, "Caf");
    f.delete_word_before_cursor();
    assert_eq!(f.name, "");
    f.clear_field();
    assert_eq!(f.cursor_pos, 0);
}

#[test]
fn form_clamps_cursor_past_field_end() {
    let mut f = FormData::from_bookmark("abcdef", "u", "");
    f.cursor_pos = 6;
    f.active_field = FormField::Url;
    f.clamp_cursor();
    assert_eq!(f.cursor_pos, 1);
    f.cursor_pos = 6;
    f.insert_char('!');
    assert_eq!(f.url, "u!");
    assert_eq!(f.cursor_pos, 2);
    f.cursor_left();
    f.delete_at_cursor();
    assert_eq!(f.url, "u");
    f.cursor_right();
    assert_eq!(f.cursor_pos, 1);
}

#[test]
fn help_scroll_limit_depends_on_popup_height() {
    assert_eq!(content_height(30), 21);
    assert_eq!(content_height(2), 49);
    assert_eq!(content_height(0), 49);
    assert_eq!(content_height(60), 0);
}
