use amanita::actions::Action;
use amanita::buffer::Buffer;
use amanita::editor::{Editor, EditorBuilder, Selection};
use amanita::error::EditorError;
use amanita::modes::Mode;
use amanita::movement::Movement;
use amanita::ui::Screen;

fn editor_with(text: &str, width: u16, heigth: u16) -> Editor {
    let buffer = Buffer::from_text(text, Some("notes.txt".to_string()));
    EditorBuilder::new()
        .buffers(vec![buffer])
        .screen(Screen::with_size(width, heigth))
        .build()
        .unwrap()
}

fn text_of(editor: &Editor) -> String {
    editor.current_buffer().content.inner().iter().collect()
}

#[test]
fn word_motion_reaches_next_word() {
    let mut editor = editor_with("abc def", 80, 24);
    Movement::Word(1).perform(&mut editor).unwrap();
    assert_eq!(4, editor.raw_position());
}

#[test]
fn word_motion_crosses_punctuation_and_lines() {
    let mut editor = editor_with("foo.bar\n  baz", 80, 24);
    Movement::Word(1).perform(&mut editor).unwrap();
    assert_eq!(3, editor.raw_position());
    Movement::Word(1).perform(&mut editor).unwrap();
    assert_eq!(4, editor.raw_position());
    Movement::Word(1).perform(&mut editor).unwrap();
    assert_eq!(10, editor.raw_position());
    assert_eq!(1, editor.current_buffer().y());
    assert_eq!(2, editor.current_buffer().x());
}

#[test]
fn words_forward_then_back_return() {
    let mut editor = editor_with("one two, three four", 80, 24);
    Movement::Word(3).perform(&mut editor).unwrap();
    assert_eq!(9, editor.raw_position());
    Movement::Word(-3).perform(&mut editor).unwrap();
    assert_eq!(0, editor.raw_position());
}

#[test]
fn word_end_motions() {
    let mut editor = editor_with("abc def", 80, 24);
    Movement::WordEnd(1).perform(&mut editor).unwrap();
    assert_eq!(2, editor.raw_position());
    Movement::WordEnd(1).perform(&mut editor).unwrap();
    assert_eq!(6, editor.raw_position());
    Movement::WordEnd(-1).perform(&mut editor).unwrap();
    assert_eq!(2, editor.raw_position());
}

#[test]
fn backspace_at_line_start_joins_lines() {
    let mut editor = editor_with("ab\ncd", 80, 24);
    Movement::ToRaw(3).perform(&mut editor).unwrap();
    assert_eq!(1, editor.current_buffer().y());
    assert_eq!(0, editor.current_buffer().x());
    editor.delete_char().unwrap();
    assert_eq!("abcd", text_of(&editor));
    assert_eq!(2, editor.raw_position());
}

#[test]
fn backspace_removes_a_tab_run() {
    let mut editor = editor_with("x", 80, 24);
    editor.enter_mode(Mode::Insert).unwrap();
    editor.insert("\t\t\t\t").unwrap();
    assert_eq!(4, editor.raw_position());
    editor.delete_char().unwrap();
    assert_eq!("x", text_of(&editor));
    assert_eq!(0, editor.raw_position());
}

#[test]
fn backspace_at_start_does_nothing() {
    let mut editor = editor_with("ab", 80, 24);
    editor.delete_char().unwrap();
    assert_eq!("ab", text_of(&editor));
    assert_eq!(0, editor.raw_position());
}

#[test]
fn saving_collapses_four_tabs() {
    let mut editor = editor_with("", 80, 24);
    editor.enter_mode(Mode::Insert).unwrap();
    editor.insert("\t\t\t\t").unwrap();
    let (name, text) = editor.current_buffer().save_payload().unwrap();
    assert_eq!("notes.txt", name);
    assert_eq!(vec!['\t'], text);
}

#[test]
fn saving_without_file_is_refused() {
    let buffer = Buffer::from_text("a", None);
    assert_eq!(Err(EditorError::NoFileAssociated), buffer.save_payload());
}

#[test]
fn insert_then_undo_restores() {
    let mut editor = editor_with("hello world", 80, 24);
    Movement::ToRaw(6).perform(&mut editor).unwrap();
    editor.enter_mode(Mode::Insert).unwrap();
    editor.insert("big ").unwrap();
    assert_eq!("hello big world", text_of(&editor));
    assert_eq!(10, editor.raw_position());
    editor.undo().unwrap();
    assert_eq!("hello world", text_of(&editor));
    assert_eq!(6, editor.raw_position());
}

#[test]
fn undo_then_redo_restores_the_edit() {
    let mut editor = editor_with("hello world", 80, 24);
    Movement::ToRaw(6).perform(&mut editor).unwrap();
    editor.enter_mode(Mode::Insert).unwrap();
    editor.insert("big ").unwrap();
    editor.undo().unwrap();
    editor.redo().unwrap();
    assert_eq!("hello big world", text_of(&editor));
    assert_eq!(10, editor.raw_position());
    assert_eq!(1, editor.undo_tree.insert_index);
    assert!(matches!(editor.undo_tree.actions[0], Action::Delete(6, 10)));
}

#[test]
fn undo_with_empty_history_does_nothing() {
    let mut editor = editor_with("abc", 80, 24);
    editor.undo().unwrap();
    editor.redo().unwrap();
    assert_eq!("abc", text_of(&editor));
}

#[test]
fn delete_word_is_undone() {
    let mut editor = editor_with("abc def ghi", 80, 24);
    Movement::Word(1).delete(&mut editor).unwrap();
    assert_eq!("ef ghi", text_of(&editor));
    assert_eq!(vec!['a', 'b', 'c', ' ', 'd'], editor.clipboard.content);
    editor.undo().unwrap();
    assert_eq!("abc def ghi", text_of(&editor));
}

#[test]
fn delete_backward_excludes_cursor_character() {
    let mut editor = editor_with("abc def", 80, 24);
    Movement::ToRaw(4).perform(&mut editor).unwrap();
    Movement::Word(-1).delete(&mut editor).unwrap();
    assert_eq!("def", text_of(&editor));
    assert_eq!(0, editor.raw_position());
}

#[test]
fn yank_leaves_text_and_cursor() {
    let mut editor = editor_with("abc def", 80, 24);
    Movement::ToRaw(1).perform(&mut editor).unwrap();
    Movement::Word(1).yank(&mut editor).unwrap();
    assert_eq!(1, editor.raw_position());
    assert_eq!("abc def", text_of(&editor));
    assert_eq!(vec!['b', 'c', ' ', 'd'], editor.clipboard.content);
    Movement::Word(1).delete(&mut editor).unwrap();
    assert_eq!("aef", text_of(&editor));
}

#[test]
fn paste_puts_clipboard_at_cursor() {
    let mut editor = editor_with("abc", 80, 24);
    Movement::Cursor(1).yank(&mut editor).unwrap();
    editor.paste().unwrap();
    assert_eq!("ababc", text_of(&editor));
}

#[test]
fn motions_keep_cursor_inside_viewport() {
    let text = "line zero\nline one\nline two\nline three\nline four\nline five";
    let mut editor = editor_with(text, 4, 2);
    let moves = [
        Movement::Line(3),
        Movement::EndOfLine,
        Movement::Word(5),
        Movement::Line(-10),
        Movement::EndOfFile,
        Movement::Cursor(-100),
        Movement::BeginningOfFile,
    ];
    for m in moves.iter() {
        m.perform(&mut editor).unwrap();
        let b = editor.current_buffer();
        assert!(b.screen_cursor_position.x < 4);
        assert!(b.screen_cursor_position.y < 2);
        assert!(editor.raw_position() <= text.chars().count());
    }
    assert_eq!(0, editor.raw_position());
    assert_eq!(0, editor.current_buffer().offset.y);
}

#[test]
fn line_motion_scrolls_minimally() {
    let mut editor = editor_with("a\nb\nc\nd\ne", 10, 2);
    Movement::Line(3).perform(&mut editor).unwrap();
    assert_eq!(2, editor.current_buffer().offset.y);
    assert_eq!(1, editor.current_buffer().screen_cursor_position.y);
    Movement::Line(-1).perform(&mut editor).unwrap();
    assert_eq!(2, editor.current_buffer().offset.y);
    assert_eq!(0, editor.current_buffer().screen_cursor_position.y);
    Movement::Line(100).perform(&mut editor).unwrap();
    assert_eq!(4, editor.current_buffer().y());
}

#[test]
fn line_motion_pulls_column_back() {
    let mut editor = editor_with("abcdef\nab", 80, 24);
    Movement::EndOfLine.perform(&mut editor).unwrap();
    assert_eq!(5, editor.current_buffer().x());
    Movement::Line(1).perform(&mut editor).unwrap();
    assert_eq!(1, editor.current_buffer().x());
}

#[test]
fn find_and_till_char() {
    let mut editor = editor_with("a-b-c-d", 80, 24);
    Movement::Char { char: '-', delta: 1 }.perform(&mut editor).unwrap();
    assert_eq!(3, editor.raw_position());
    Movement::BeforeChar { char: '-', delta: 0 }.perform(&mut editor).unwrap();
    assert_eq!(4, editor.raw_position());
    Movement::Char { char: '-', delta: -1 }.perform(&mut editor).unwrap();
    assert_eq!(3, editor.raw_position());
    Movement::BeforeChar { char: '-', delta: -1 }.perform(&mut editor).unwrap();
    assert_eq!(2, editor.raw_position());
    Movement::Char { char: 'z', delta: 0 }.perform(&mut editor).unwrap();
    assert_eq!(2, editor.raw_position());
}

#[test]
fn first_non_whitespace_of_line() {
    let mut editor = editor_with("   abc", 80, 24);
    Movement::EndOfLine.perform(&mut editor).unwrap();
    Movement::FirstNonWhitespaceOfLine.perform(&mut editor).unwrap();
    assert_eq!(3, editor.raw_position());
    Movement::BeginningOfLine.perform(&mut editor).unwrap();
    assert_eq!(0, editor.raw_position());
}

#[test]
fn end_of_line_depends_on_mode() {
    let mut editor = editor_with("abc\nde", 80, 24);
    Movement::EndOfLine.perform(&mut editor).unwrap();
    assert_eq!(2, editor.raw_position());
    editor.enter_mode(Mode::Insert).unwrap();
    Movement::EndOfLine.perform(&mut editor).unwrap();
    assert_eq!(3, editor.raw_position());
    editor.leave_insert_mode().unwrap();
    assert_eq!(Mode::Normal, editor.mode);
    assert_eq!(2, editor.raw_position());
}

#[test]
fn empty_buffer_motions_stay_put() {
    let mut editor = editor_with("", 80, 24);
    for m in [Movement::Word(3), Movement::WordEnd(-2), Movement::EndOfFile, Movement::Line(5)].iter() {
        m.perform(&mut editor).unwrap();
        assert_eq!(0, editor.raw_position());
    }
}

#[test]
fn insert_newline_moves_to_next_line() {
    let mut editor = editor_with("abcd", 80, 24);
    editor.enter_mode(Mode::Insert).unwrap();
    Movement::ToRaw(2).perform(&mut editor).unwrap();
    editor.insert_newline().unwrap();
    assert_eq!("ab\ncd", text_of(&editor));
    assert_eq!(1, editor.current_buffer().y());
    assert_eq!(0, editor.current_buffer().x());
}

#[test]
fn open_line_below() {
    let mut editor = editor_with("ab\ncd", 80, 24);
    editor.enter_mode(Mode::Insert).unwrap();
    editor.insert_newline_in_n_lines(0).unwrap();
    assert_eq!("ab\n\ncd", text_of(&editor));
    assert_eq!(1, editor.current_buffer().y());
    assert_eq!(3, editor.raw_position());
}

#[test]
fn open_line_above_first_line() {
    let mut editor = editor_with("ab", 80, 24);
    editor.insert_newline_in_n_lines(-1).unwrap();
    assert_eq!("\nab", text_of(&editor));
    assert_eq!(0, editor.raw_position());
    editor.undo().unwrap();
    assert_eq!("ab", text_of(&editor));
}

#[test]
fn open_line_below_last_line() {
    let mut editor = editor_with("ab", 80, 24);
    editor.insert_newline_in_n_lines(0).unwrap();
    assert_eq!("ab\n", text_of(&editor));
    assert_eq!(3, editor.raw_position());
    assert_eq!(1, editor.current_buffer().y());
}

#[test]
fn visual_selection_and_deletion() {
    let mut editor = editor_with("abc def", 80, 24);
    assert_eq!(Err(EditorError::InvalidModeTransition), Movement::Word(1).visual_move(&mut editor));
    assert_eq!(Err(EditorError::InvalidModeTransition), editor.delete_selection());
    editor.enter_mode(Mode::Visual).unwrap();
    Movement::Cursor(2).visual_move(&mut editor).unwrap();
    assert_eq!(0, editor.last_selection.start);
    assert_eq!(2, editor.last_selection.end);
    assert!(editor.last_selection.contains(1));
    assert!(!editor.last_selection.contains(3));
    editor.delete_selection().unwrap();
    assert_eq!(" def", text_of(&editor));
    assert_eq!(Mode::Normal, editor.mode);
}

#[test]
fn selection_contains_either_order() {
    let s = Selection { start: 5, end: 2 };
    assert!(s.contains(2));
    assert!(s.contains(5));
    assert!(!s.contains(6));
    let t = Selection::at_cursor(3);
    assert!(t.contains(3));
    assert!(!t.contains(4));
}

#[test]
fn pending_operator_returns_to_normal() {
    let mut editor = editor_with("abc def", 80, 24);
    assert_eq!(Err(EditorError::InvalidModeTransition), editor.apply_pending_operator(Movement::Word(1)));
    editor.enter_mode(Mode::NormalDelete).unwrap();
    editor.apply_pending_operator(Movement::Word(1)).unwrap();
    assert_eq!(Mode::Normal, editor.mode);
    assert_eq!("ef", text_of(&editor));
    editor.enter_mode(Mode::NormalYank).unwrap();
    editor.apply_pending_operator(Movement::Char { char: 'q', delta: 0 }).unwrap();
    assert_eq!(Mode::Normal, editor.mode);
    assert_eq!(vec!['e'], editor.clipboard.content);
}

#[test]
fn mode_switches_are_checked() {
    let mut editor = editor_with("abc", 80, 24);
    assert_eq!(Err(EditorError::InvalidModeTransition), editor.leave_insert_mode());
    editor.enter_mode(Mode::Visual).unwrap();
    assert_eq!(Err(EditorError::InvalidModeTransition), editor.enter_mode(Mode::Insert));
    editor.enter_mode(Mode::Normal).unwrap();
    assert_eq!("Normal", editor.mode.name());
}

#[test]
fn building_needs_buffers() {
    assert_eq!(EditorError::EmptyBuffers, EditorBuilder::new().build().unwrap_err());
    assert_eq!(
        EditorError::EmptyBuffers,
        EditorBuilder::new().buffers(Vec::new()).build().unwrap_err()
    );
}

#[test]
fn editor_delete_returns_removed_text() {
    let mut editor = editor_with("abcdef", 80, 24);
    let removed = editor.delete(4, 1);
    assert_eq!(vec!['b', 'c', 'd'], removed);
    assert_eq!("aef", text_of(&editor));
    let removed = editor.delete(2, 100);
    assert_eq!(vec!['f'], removed);
}

#[test]
fn action_perform_returns_inverse() {
    let mut editor = editor_with("abc", 80, 24);
    let inverse = Action::Insert(1, vec!['x', 'y']).perform(&mut editor).unwrap();
    assert_eq!("axybc", text_of(&editor));
    assert!(matches!(inverse, Action::Delete(1, 3)));
    let back = inverse.perform(&mut editor).unwrap();
    assert_eq!("abc", text_of(&editor));
    assert!(matches!(back, Action::Insert(1, ref c) if *c == vec!['x', 'y']));
}

#[test]
fn current_line_and_counts() {
    let mut editor = editor_with("ab\ncde\n", 80, 24);
    Movement::Line(1).perform(&mut editor).unwrap();
    let b = editor.current_buffer();
    assert_eq!(Ok(vec!['c', 'd', 'e']), b.current_line());
    assert_eq!(Ok(3), b.current_line_length());
    assert_eq!(Ok(3), b.lines_count());
    assert_eq!(Ok(3), b.raw_position_coordinates(0, 1));
    assert_eq!(Ok(7), b.raw_position_coordinates(0, 2));
    assert_eq!(Err(EditorError::OutOfBounds(3)), b.raw_position_coordinates(0, 3));
    assert_eq!(Err(EditorError::OutOfBounds(4)), b.raw_position_coordinates(4, 1));
}

#[test]
fn out_of_range_line_is_reported() {
    let mut buffer = Buffer::from_text("ab", None);
    buffer.offset.y = 5;
    assert_eq!(Err(EditorError::OutOfBounds(5)), buffer.current_line());
    assert_eq!(Err(EditorError::OutOfBounds(5)), buffer.current_line_length());
}

#[test]
fn next_char_index_counts_occurrences() {
    let buffer = Buffer::from_text("xaxbxc", None);
    assert_eq!(Some(2), buffer.next_char_index('x', 0));
    assert_eq!(Some(4), buffer.next_char_index('x', 1));
    assert_eq!(None, buffer.next_char_index('x', 2));
    assert_eq!(None, buffer.next_char_index('x', -1));
}

#[test]
fn word_indices_of_buffer() {
    let buffer = Buffer::from_text("ab, cd_e  fg", None);
    assert_eq!(2, buffer.nth_word_index(1));
    assert_eq!(4, buffer.nth_word_index(2));
    assert_eq!(10, buffer.nth_word_index(3));
    assert_eq!(11, buffer.nth_word_index(9));
    assert_eq!(1, buffer.nth_word_end_index(1));
    assert_eq!(0, buffer.nth_word_index(-1));
}

#[test]
fn search_finds_offsets_from_cursor() {
    let mut editor = editor_with("abcabcabc", 80, 24);
    Movement::ToRaw(1).perform(&mut editor).unwrap();
    let b = editor.current_buffer();
    assert_eq!(Some(1), b.search("ca", amanita::completion::Direction::Forward));
    assert_eq!(Some(4), b.search("ca", amanita::completion::Direction::Backward));
    assert_eq!(None, b.search("zz", amanita::completion::Direction::Forward));
    assert_eq!(Some(0), b.search("", amanita::completion::Direction::Forward));
}

#[test]
fn screen_shows_scrolled_window_with_selection() {
    let mut editor = editor_with("abcdef\ngh\nijklmn", 3, 2);
    editor.enter_mode(Mode::Visual).unwrap();
    Movement::Line(2).visual_move(&mut editor).unwrap();
    Movement::EndOfLine.visual_move(&mut editor).unwrap();
    let b = editor.current_buffer();
    assert_eq!(1, b.offset.y);
    assert_eq!(3, b.offset.x);
    let contents = editor.screen_contents();
    let rows = contents.inner();
    assert_eq!(2, rows.len());
    assert_eq!(0, rows[0].len());
    let symbols: Vec<char> = rows[1].iter().map(|c| c.symbol).collect();
    assert_eq!(vec!['l', 'm', 'n'], symbols);
    assert!(rows[1].iter().all(|c| c.selected));
}
