use amanita::buffer::Buffer;
use amanita::completion::{completion_words_from, get_completion_matches, CompletionWords, Direction};
use amanita::editor::EditorBuilder;
use amanita::ui::Screen;

#[test]
fn completion_test() {
    // Cursor is here            v
    let content = "con,\n\ncont,cconten content; c_onte' ca";

    let completion_matches = get_completion_matches(content, 12, Direction::Forward);

    assert_eq!(
        vec!["conten", "content", "c_onte", "ca", "con", "cont"],
        completion_matches.words
    );
}

#[test]
fn dedup_test() {
    // Cursor is here          v
    let content = r#"con, con con"#;
    let completion_matches_backward = get_completion_matches(content, 10, Direction::Forward);

    assert_eq!(vec!["con"], completion_matches_backward.words);
}

#[test]
fn complete_everything_test() {
    let content = "a, b c d e ";
    let completion_matches_forward = get_completion_matches(content, 11, Direction::Forward);

    assert_eq!(
        vec!["a", "b", "c", "d", "e"],
        completion_matches_forward.words
    );
}

fn strings(ws: &[&str]) -> Vec<String> {
    ws.iter().map(|w| w.to_string()).collect()
}

#[test]
fn backward_keeps_last_occurrences() {
    let cw = completion_words_from(
        strings(&["ab", "cd", ""]),
        strings(&["ab", "ef"]),
        Direction::Backward,
    );
    assert_eq!(vec!["cd", "ab", "ef"], cw.words);
    assert_eq!(2, cw.indice);
}

#[test]
fn forward_keeps_first_occurrences() {
    let cw = completion_words_from(
        strings(&["ab", "cd", ""]),
        strings(&["ab", "ef"]),
        Direction::Forward,
    );
    assert_eq!(vec!["ab", "cd", "ef"], cw.words);
    assert_eq!(0, cw.indice);
}

#[test]
fn backward_scan_of_buffer_text() {
    let content = "con,\n\ncont,cconten content; c_onte' ca";
    let cw = get_completion_matches(content, 12, Direction::Backward);
    assert_eq!(
        vec!["conten", "content", "c_onte", "ca", "con", "cont"],
        cw.words
    );
    assert_eq!(5, cw.indice);
}

#[test]
fn cycling_wraps_around() {
    let mut cw = CompletionWords { words: strings(&["a", "b", "c"]), indice: 0 };
    assert_eq!(Some("a".to_string()), cw.next(Direction::Forward));
    assert_eq!(Some("b".to_string()), cw.next(Direction::Forward));
    assert_eq!(Some("c".to_string()), cw.next(Direction::Forward));
    assert_eq!(0, cw.indice);
    assert_eq!(Some("a".to_string()), cw.next(Direction::Backward));
    assert_eq!(2, cw.indice);
}

#[test]
fn cycling_nothing_gives_none() {
    let mut cw = CompletionWords { words: Vec::new(), indice: 0 };
    assert_eq!(None, cw.next(Direction::Forward));
}

#[test]
fn completion_replaces_prefix_in_buffer() {
    let buffer = Buffer::from_text("content; con", None);
    let mut editor = EditorBuilder::new()
        .buffers(vec![buffer])
        .screen(Screen::with_size(80, 24))
        .build()
        .unwrap();
    editor.enter_mode(amanita::modes::Mode::Insert).unwrap();
    amanita::movement::Movement::EndOfFile.perform(&mut editor).unwrap();
    amanita::movement::Movement::Cursor(1).perform(&mut editor).unwrap();
    assert_eq!(12, editor.raw_position());
    editor.insert_completion_forward().unwrap();
    let text: String = editor.current_buffer().content.inner().iter().collect();
    assert_eq!("content; content", text);
}

#[test]
fn completion_run_cycles_through_candidates() {
    let buffer = Buffer::from_text("con cont c", None);
    let mut editor = EditorBuilder::new()
        .buffers(vec![buffer])
        .screen(Screen::with_size(80, 24))
        .build()
        .unwrap();
    editor.enter_mode(amanita::modes::Mode::Insert).unwrap();
    amanita::movement::Movement::EndOfFile.perform(&mut editor).unwrap();
    amanita::movement::Movement::Cursor(1).perform(&mut editor).unwrap();
    editor.insert_completion_forward().unwrap();
    let text: String = editor.current_buffer().content.inner().iter().collect();
    assert_eq!("con cont con", text);
    assert_eq!(1, editor.completion_words.as_ref().unwrap().indice);
    editor.insert_completion_forward().unwrap();
    let text: String = editor.current_buffer().content.inner().iter().collect();
    assert_eq!("con cont cont", text);
    assert_eq!(13, editor.raw_position());
    assert_eq!(0, editor.completion_words.as_ref().unwrap().indice);
}

#[test]
fn completion_without_candidates_changes_nothing() {
    let buffer = Buffer::from_text("xyz q", None);
    let mut editor = EditorBuilder::new()
        .buffers(vec![buffer])
        .screen(Screen::with_size(80, 24))
        .build()
        .unwrap();
    editor.enter_mode(amanita::modes::Mode::Insert).unwrap();
    amanita::movement::Movement::EndOfFile.perform(&mut editor).unwrap();
    amanita::movement::Movement::Cursor(1).perform(&mut editor).unwrap();
    editor.insert_completion_backward().unwrap();
    let text: String = editor.current_buffer().content.inner().iter().collect();
    assert_eq!("xyz q", text);
    assert_eq!(5, editor.raw_position());
    assert!(editor.completion_words.as_ref().unwrap().words.is_empty());
}
