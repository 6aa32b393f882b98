use thread_notes::editor::{
    backspace, byte_of, char_len, clamp, end, home, insert_char, line_col, move_down, move_left,
    move_right, move_up,
};

#[test]
fn utf8_insert_and_backspace_do_not_panic() {
    let mut s = String::from("aé本");
    let mut cursor = char_len(&s);
    insert_char(&mut s, &mut cursor, '🎉');
    assert_eq!(s, "aé本🎉");
    assert_eq!(cursor, 4);
    backspace(&mut s, &mut cursor);
    assert_eq!(s, "aé本");
    assert_eq!(cursor, 3);
    home(&s, &mut cursor);
    assert_eq!(cursor, 0);
    backspace(&mut s, &mut cursor);
    assert_eq!(s, "aé本");
}

#[test]
fn arrows_and_home_end_move_by_char_and_line() {
    let s = String::from("ab\nçd");
    let mut cursor = 0;
    end(&s, &mut cursor);
    assert_eq!(cursor, 2);
    move_right(&s, &mut cursor);
    assert_eq!(cursor, 3);
    move_down(&s, &mut cursor);
    assert_eq!(cursor, char_len(&s));
    home(&s, &mut cursor);
    assert_eq!(cursor, 3);
    move_up(&s, &mut cursor);
    assert_eq!(cursor, 0);
    move_left(&s, &mut cursor);
    assert_eq!(cursor, 0);
}

#[test]
fn insert_in_the_middle_is_char_safe() {
    let mut s = String::from("a🎉c");
    let mut cursor = 1;
    insert_char(&mut s, &mut cursor, 'b');
    assert_eq!(s, "ab🎉c");
    assert_eq!(cursor, 2);
}

#[test]
fn byte_of_counts_utf8_widths() {
    let s = "aé本🎉";
    assert_eq!(byte_of(s, 0), 0);
    assert_eq!(byte_of(s, 1), 1);
    assert_eq!(byte_of(s, 2), 3);
    assert_eq!(byte_of(s, 3), 6);
    assert_eq!(byte_of(s, 4), 10);
    assert_eq!(byte_of(s, 99), 10);
}

#[test]
fn line_col_reports_line_column_and_start() {
    let s = "ab\nçd\n\nxyz";
    assert_eq!(line_col(s, 0), (0, 0, 0));
    assert_eq!(line_col(s, 2), (0, 2, 0));
    assert_eq!(line_col(s, 3), (1, 0, 3));
    assert_eq!(line_col(s, 5), (1, 2, 3));
    assert_eq!(line_col(s, 6), (2, 0, 6));
    assert_eq!(line_col(s, 9), (3, 2, 7));
    assert_eq!(line_col(s, 100), (3, 3, 7));
    assert_eq!(clamp(s, 100), 10);
}

#[test]
fn up_and_down_keep_the_column_within_the_line() {
    let s = "abcd\nx\nefgh";
    let mut cursor = 3;
    move_down(s, &mut cursor);
    assert_eq!(cursor, 6);
    move_down(s, &mut cursor);
    assert_eq!(cursor, 8);
    move_up(s, &mut cursor);
    assert_eq!(cursor, 6);
    move_up(s, &mut cursor);
    assert_eq!(cursor, 1);
    let mut last = 9;
    move_down(s, &mut last);
    assert_eq!(last, 11);
}

#[test]
fn backspace_after_insert_restores_the_buffer() {
    let mut s = String::from("héllo\nwörld");
    let mut cursor = 8;
    insert_char(&mut s, &mut cursor, 'Ω');
    assert_eq!(s, "héllo\nwöΩrld");
    backspace(&mut s, &mut cursor);
    assert_eq!(s, "héllo\nwörld");
    assert_eq!(cursor, 8);
}

#[test]
fn out_of_range_cursor_is_clamped_before_editing() {
    let mut s = String::from("ab");
    let mut cursor = 10;
    insert_char(&mut s, &mut cursor, 'c');
    assert_eq!(s, "abc");
    assert_eq!(cursor, 3);
    let mut c2 = 50;
    move_left(&s, &mut c2);
    assert_eq!(c2, 2);
    let mut c3 = 50;
    move_right(&s, &mut c3);
    assert_eq!(c3, 3);
}

#[test]
fn left_then_right_comes_back() {
    let s = "x本\ny";
    for start in 1..=4 {
        let mut cursor = start;
        move_left(s, &mut cursor);
        move_right(s, &mut cursor);
        assert_eq!(cursor, start);
    }
    let mut at_end = 4;
    move_right(s, &mut at_end);
    assert_eq!(at_end, 4);
}
