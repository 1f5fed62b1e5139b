use kae::session::{EditField, Key, KeyKind, Mode, UI};
use kae::store::{load, save};
use kae::task::{Task, TaskStatus};

fn chars(s: &str) -> Vec<char> {
    s.chars().collect()
}

fn task(id: u128, name: &str, description: &str, status: TaskStatus) -> Task {
    Task { id, name: chars(name), description: chars(description), status }
}

fn press(ui: &mut UI, key: Key) -> bool {
    ui.handle_key(key, KeyKind::Press)
}

#[test]
fn tab_cycles_status_and_persists() {
    // One task named "A" with status Todo; select it, press tab: the status
    // becomes InProgress and the persisted text reflects that. Two more tabs
    // walk InProgress -> Done -> Todo.
    let mut ui = UI::new(vec![task(1, "A", "", TaskStatus::Todo)]);
    assert!(!press(&mut ui, Key::Down));
    let persist = press(&mut ui, Key::Tab);
    assert!(persist);
    assert_eq!(ui.task_list.tasks[0].status, TaskStatus::InProgress);
    let reloaded = load(&save(&ui.task_list.tasks)).unwrap();
    assert_eq!(reloaded[0].status, TaskStatus::InProgress);
    assert!(press(&mut ui, Key::Tab));
    assert_eq!(ui.task_list.tasks[0].status, TaskStatus::Done);
    assert!(press(&mut ui, Key::Tab));
    assert_eq!(ui.task_list.tasks[0].status, TaskStatus::Todo);
}

#[test]
fn navigation_on_empty_list_stays_unselected() {
    let mut ui = UI::new(Vec::new());
    for key in [Key::Down, Key::Up, Key::Home, Key::End] {
        let persist = press(&mut ui, key);
        assert!(!persist);
        assert_eq!(ui.task_list.state.selected, None);
    }
    assert!(matches!(ui.mode, Mode::View));
    assert!(!ui.should_exit);
}

#[test]
fn confirmed_name_edit_updates_only_the_selected_task() {
    // Select index 0 of a 2-item list, enter name editing, type X and Y,
    // press enter: task 0's name becomes "XY", the mode returns to View with
    // the buffer cleared, and the other task is untouched.
    let before_second = task(2, "b", "other", TaskStatus::Done);
    let mut ui = UI::new(vec![task(1, "a", "first", TaskStatus::Todo), before_second.clone()]);
    press(&mut ui, Key::Home);
    press(&mut ui, Key::Char('e'));
    assert!(matches!(ui.mode, Mode::Editing { field: EditField::Name, .. }));
    press(&mut ui, Key::Backspace);
    press(&mut ui, Key::Char('X'));
    press(&mut ui, Key::Char('Y'));
    let persist = press(&mut ui, Key::Enter);
    assert!(persist);
    assert_eq!(ui.task_list.tasks[0].name, chars("XY"));
    assert_eq!(ui.task_list.tasks[0].description, chars("first"));
    assert!(matches!(ui.mode, Mode::View));
    assert_eq!(ui.task_list.tasks[1], before_second);
}

#[test]
fn edit_buffer_starts_from_the_current_field() {
    let mut ui = UI::new(vec![task(1, "abc", "words", TaskStatus::Todo)]);
    press(&mut ui, Key::Down);
    press(&mut ui, Key::Char('d'));
    match &ui.mode {
        Mode::Editing { field, buffer } => {
            assert_eq!(*field, EditField::Description);
            assert_eq!(*buffer, chars("words"));
        },
        other => panic!("expected description editing, got {:?}", other),
    }
    press(&mut ui, Key::Backspace);
    press(&mut ui, Key::Char('!'));
    let persist = press(&mut ui, Key::Enter);
    assert!(persist);
    assert_eq!(ui.task_list.tasks[0].description, chars("word!"));
}

#[test]
fn aborted_edit_leaves_tasks_unchanged() {
    let original = vec![task(1, "a", "first", TaskStatus::Todo)];
    let before = save(&original);
    let mut ui = UI::new(original);
    press(&mut ui, Key::Down);
    press(&mut ui, Key::Char('e'));
    press(&mut ui, Key::Char('Z'));
    press(&mut ui, Key::Char('Z'));
    let persist = press(&mut ui, Key::Esc);
    assert!(!persist);
    assert!(matches!(ui.mode, Mode::View));
    assert_eq!(save(&ui.task_list.tasks), before, "the sequence is identical to before the edit");
}

#[test]
fn edit_keys_need_a_selection() {
    let mut ui = UI::new(vec![task(1, "a", "", TaskStatus::Todo)]);
    press(&mut ui, Key::Char('e'));
    assert!(matches!(ui.mode, Mode::View));
    press(&mut ui, Key::Char('d'));
    assert!(matches!(ui.mode, Mode::View));
}

#[test]
fn quit_key_sets_the_exit_flag() {
    let mut ui = UI::new(Vec::new());
    assert!(!ui.should_exit);
    let persist = press(&mut ui, Key::Char('q'));
    assert!(!persist);
    assert!(ui.should_exit);
}

#[test]
fn insert_mode_is_entered_and_left() {
    let mut ui = UI::new(Vec::new());
    press(&mut ui, Key::Char('i'));
    assert!(matches!(ui.mode, Mode::Insert));
    press(&mut ui, Key::Char('q'));
    assert!(!ui.should_exit, "only escape leaves insert mode");
    press(&mut ui, Key::Esc);
    assert!(matches!(ui.mode, Mode::View));
}

#[test]
fn released_and_repeated_keys_are_ignored() {
    let mut ui = UI::new(vec![task(1, "a", "", TaskStatus::Todo)]);
    ui.handle_key(Key::Down, KeyKind::Release);
    assert_eq!(ui.task_list.state.selected, None);
    ui.handle_key(Key::Char('q'), KeyKind::Repeat);
    assert!(!ui.should_exit);
}

#[test]
fn left_clears_the_selection() {
    let mut ui = UI::new(vec![task(1, "a", "", TaskStatus::Todo)]);
    press(&mut ui, Key::End);
    assert_eq!(ui.task_list.state.selected, Some(0));
    press(&mut ui, Key::Left);
    assert_eq!(ui.task_list.state.selected, None);
}

#[test]
fn tab_without_selection_changes_no_status() {
    let mut ui = UI::new(vec![task(1, "a", "", TaskStatus::Todo)]);
    let persist = press(&mut ui, Key::Tab);
    assert!(persist);
    assert_eq!(ui.task_list.tasks[0].status, TaskStatus::Todo);
}
