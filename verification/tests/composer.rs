use ime_core::composer::Composer;

#[test]
fn inserts_ascii_and_utf8_text() {
    let mut composer = Composer::new();
    composer.insert_text("hello");
    composer.insert_text("你好");

    assert_eq!(composer.text(), "hello你好");
    assert_eq!(composer.cursor_grapheme(), 7);
    assert_eq!(composer.cursor_utf8_byte_offset(), composer.text().len());
}

#[test]
fn inserts_emoji_as_one_grapheme() {
    let mut composer = Composer::new();
    composer.insert_text("😀");

    assert_eq!(composer.grapheme_count(), 1);
    assert_eq!(composer.cursor_grapheme(), 1);
}

#[test]
fn backspace_deletes_entire_zwj_emoji() {
    let mut composer = Composer::new();
    composer.insert_text("A👨‍👩‍👧‍👦B");

    assert!(composer.backspace());
    assert_eq!(composer.text(), "A👨‍👩‍👧‍👦");
    assert!(composer.backspace());
    assert_eq!(composer.text(), "A");
}

#[test]
fn backspace_deletes_combining_sequence_once() {
    let mut composer = Composer::new();
    composer.insert_text("a\u{301}");

    assert_eq!(composer.grapheme_count(), 1);
    assert!(composer.backspace());
    assert!(composer.is_empty());
}

#[test]
fn inserting_combining_mark_keeps_valid_cursor() {
    let mut composer = Composer::new();
    composer.insert_text("a");
    composer.insert_text("\u{301}");

    assert_eq!(composer.text(), "a\u{301}");
    assert_eq!(composer.grapheme_count(), 1);
    assert_eq!(composer.cursor_grapheme(), 1);
}

#[test]
fn moves_cursor_and_inserts_in_middle() {
    let mut composer = Composer::new();
    composer.insert_text("nihao");
    assert!(composer.move_cursor(-1));
    composer.insert_text("X");

    assert_eq!(composer.text(), "nihaXo");
    assert_eq!(composer.cursor_grapheme(), 5);
}

#[test]
fn delete_forward_removes_full_grapheme() {
    let mut composer = Composer::new();
    composer.insert_text("A👨‍👩‍👧‍👦B");
    composer.move_cursor(-2);

    assert!(composer.delete_forward());
    assert_eq!(composer.text(), "AB");
    assert_eq!(composer.cursor_grapheme(), 1);
}

#[test]
fn empty_backspace_is_a_no_op() {
    let mut composer = Composer::new();
    assert!(!composer.backspace());
    assert_eq!(composer.cursor_grapheme(), 0);
}

#[test]
fn cursor_movement_clamps_to_bounds() {
    let mut composer = Composer::new();
    composer.insert_text("abc");

    assert!(composer.move_cursor(-99));
    assert_eq!(composer.cursor_grapheme(), 0);
    assert!(!composer.move_cursor(-1));
    assert!(composer.move_cursor(99));
    assert_eq!(composer.cursor_grapheme(), 3);
    assert!(!composer.move_cursor(1));
}

#[test]
fn clear_resets_text_and_cursor() {
    let mut composer = Composer::new();
    composer.insert_text("你好");
    composer.clear();

    assert!(composer.is_empty());
    assert_eq!(composer.cursor_grapheme(), 0);
}

#[test]
fn cursor_byte_offset_counts_utf8_bytes_before_cursor() {
    let mut composer = Composer::new();
    composer.insert_text("a你😀");
    assert_eq!(composer.cursor_utf8_byte_offset(), 1 + 3 + 4);
    composer.move_cursor(-1);
    assert_eq!(composer.cursor_utf8_byte_offset(), 4);
    composer.move_cursor(-1);
    assert_eq!(composer.cursor_utf8_byte_offset(), 1);
}

#[test]
fn delete_forward_at_end_is_a_no_op() {
    let mut composer = Composer::new();
    composer.insert_text("ab");
    assert!(!composer.delete_forward());
    assert_eq!(composer.text(), "ab");
}

#[test]
fn restore_brings_back_text_and_cursor() {
    let mut composer = Composer::new();
    composer.insert_text("nihao");
    composer.move_cursor(-2);
    let snapshot = composer.recovery_snapshot();
    composer.clear();
    composer.restore(snapshot);
    assert_eq!(composer.text(), "nihao");
    assert_eq!(composer.cursor_grapheme(), 3);
}
