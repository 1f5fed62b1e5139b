use kae::render::{render, DetailPane};
use kae::session::{Key, KeyKind, UI};
use kae::task::{Error, Task, TaskStatus};
use kae::update::{apply_update, parse_status_input};

fn chars(s: &str) -> Vec<char> {
    s.chars().collect()
}

fn task(id: u128, name: &str, description: &str, status: TaskStatus) -> Task {
    Task { id, name: chars(name), description: chars(description), status }
}

#[test]
fn frame_lists_every_task_in_order() {
    let mut ui = UI::new(vec![
        task(1, "one", "", TaskStatus::Todo),
        task(2, "two", "", TaskStatus::InProgress),
        task(3, "three", "", TaskStatus::Done),
    ]);
    ui.handle_key(Key::Down, KeyKind::Press);
    ui.handle_key(Key::Down, KeyKind::Press);
    let f = render(&ui);
    assert_eq!(f.header, "KAE");
    assert_eq!(f.footer_mode, "VIEW");
    assert_eq!(f.rows.len(), 3);
    assert_eq!(f.rows[0].glyph, '\u{2610}');
    assert_eq!(f.rows[1].glyph, '\u{25cc}');
    assert_eq!(f.rows[2].glyph, '\u{2713}');
    assert_eq!(f.rows[0].name, chars("one"));
    assert_eq!(f.rows[2].name, chars("three"));
    assert!(!f.rows[0].selected && f.rows[1].selected && !f.rows[2].selected);
    assert!(!f.rows[0].alt_tone && f.rows[1].alt_tone && !f.rows[2].alt_tone);
    match f.detail {
        DetailPane::TaskInfo { name, name_editing, description_editing, status, .. } => {
            assert_eq!(name, chars("two"));
            assert!(!name_editing && !description_editing);
            assert_eq!(status, TaskStatus::InProgress);
        },
        DetailPane::Empty => panic!("a task is selected"),
    }
}

#[test]
fn frame_without_selection_shows_the_placeholder() {
    let ui = UI::new(vec![task(1, "one", "", TaskStatus::Todo)]);
    let f = render(&ui);
    assert!(matches!(f.detail, DetailPane::Empty));
    assert_eq!(kae::render::placeholder_text(), "Nothing selected...");
}

#[test]
fn frame_shows_the_live_edit_buffer_with_cursor() {
    let mut ui = UI::new(vec![task(1, "abc", "body", TaskStatus::Todo)]);
    ui.handle_key(Key::Down, KeyKind::Press);
    ui.handle_key(Key::Char('e'), KeyKind::Press);
    ui.handle_key(Key::Char('d'), KeyKind::Press);
    let f = render(&ui);
    assert_eq!(f.footer_mode, "EDIT NAME");
    assert_eq!(f.footer_hint, "Type to edit, Enter to save, Esc to cancel");
    match f.detail {
        DetailPane::TaskInfo { name, name_editing, description, description_editing, .. } => {
            assert_eq!(name, chars("abcd"), "the buffer, not the stored name");
            assert!(name_editing);
            assert_eq!(description, chars("body"));
            assert!(!description_editing);
        },
        DetailPane::Empty => panic!("a task is selected"),
    }
}

#[test]
fn status_labels_are_distinct() {
    let a = kae::render::status_label(TaskStatus::Todo);
    let b = kae::render::status_label(TaskStatus::InProgress);
    let c = kae::render::status_label(TaskStatus::Done);
    assert_eq!(a, "\u{2610} TODO");
    assert_eq!(b, "\u{25cc} IN PROGRESS");
    assert_eq!(c, "\u{2713} DONE");
}

#[test]
fn status_input_recognizes_the_tags_case_insensitively() {
    assert_eq!(parse_status_input(&chars("todo")), Ok(TaskStatus::Todo));
    assert_eq!(parse_status_input(&chars("Todo")), Ok(TaskStatus::Todo));
    assert_eq!(parse_status_input(&chars("INPROGRESS")), Ok(TaskStatus::InProgress));
    assert_eq!(parse_status_input(&chars("inProgress")), Ok(TaskStatus::InProgress));
    assert_eq!(parse_status_input(&chars("DONE")), Ok(TaskStatus::Done));
    assert_eq!(parse_status_input(&chars("done ")), Err(Error::InvalidInput));
    assert_eq!(parse_status_input(&chars("doing")), Err(Error::InvalidInput));
    assert_eq!(parse_status_input(&chars("")), Err(Error::InvalidInput));
}

#[test]
fn update_replaces_only_the_supplied_fields() {
    let mut tasks = vec![
        task(10, "a", "one", TaskStatus::Todo),
        task(20, "b", "two", TaskStatus::Todo),
    ];
    let r = apply_update(&mut tasks, 20, Some(chars("B!")), None, Some(chars("Done")));
    assert_eq!(r, Ok(()));
    assert_eq!(tasks[1].name, chars("B!"));
    assert_eq!(tasks[1].description, chars("two"));
    assert_eq!(tasks[1].status, TaskStatus::Done);
    assert_eq!(tasks[1].id, 20);
    assert_eq!(tasks[0], task(10, "a", "one", TaskStatus::Todo));
}

#[test]
fn update_of_a_missing_id_fails_and_changes_nothing() {
    let original = vec![task(10, "a", "one", TaskStatus::Todo)];
    let mut tasks = original.clone();
    let r = apply_update(&mut tasks, 99, Some(chars("x")), None, None);
    assert_eq!(r, Err(Error::NotFound));
    assert_eq!(tasks, original);
}

#[test]
fn update_with_a_bad_status_fails_and_changes_nothing() {
    let original = vec![task(10, "a", "one", TaskStatus::Todo)];
    let mut tasks = original.clone();
    let r = apply_update(&mut tasks, 10, Some(chars("x")), None, Some(chars("later")));
    assert_eq!(r, Err(Error::InvalidInput));
    assert_eq!(tasks, original);
}
