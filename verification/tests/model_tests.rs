use kae::selection::SelectionState;
use kae::task::{Error, Task, TaskStatus};

fn chars(s: &str) -> Vec<char> {
    s.chars().collect()
}

#[test]
fn status_cycles_back_after_three_steps() {
    for st in [TaskStatus::Todo, TaskStatus::InProgress, TaskStatus::Done] {
        assert_eq!(st.cycled().cycled().cycled(), st);
    }
}

#[test]
fn status_cycle_order() {
    assert_eq!(TaskStatus::Todo.cycled(), TaskStatus::InProgress);
    assert_eq!(TaskStatus::InProgress.cycled(), TaskStatus::Done);
    assert_eq!(TaskStatus::Done.cycled(), TaskStatus::Todo);
}

#[test]
fn new_task_starts_todo() {
    let t = Task::new(chars("wash"), chars("the dishes"));
    assert_eq!(t.status, TaskStatus::Todo);
    assert_eq!(t.name, chars("wash"));
    assert_eq!(t.description, chars("the dishes"));
}

#[test]
fn error_labels() {
    assert_eq!(Error::Storage.label(), "storage error");
    assert_eq!(Error::NotFound.label(), "not found");
    assert_eq!(Error::InvalidInput.label(), "invalid input");
    assert_eq!(Error::AlreadyInitialized.label(), "already initialized");
}

#[test]
fn selection_moves_clamp_at_ends() {
    let mut s = SelectionState::new();
    assert_eq!(s.selected, None);
    s.select_next(3);
    assert_eq!(s.selected, Some(0));
    s.select_next(3);
    s.select_next(3);
    assert_eq!(s.selected, Some(2));
    s.select_next(3);
    assert_eq!(s.selected, Some(2), "moving past the last item stays on it");
    s.select_previous(3);
    s.select_previous(3);
    assert_eq!(s.selected, Some(0));
    s.select_previous(3);
    assert_eq!(s.selected, Some(0), "moving past the first item stays on it");
}

#[test]
fn selection_from_none_lands_on_first_or_last() {
    let mut s = SelectionState::new();
    s.select_previous(4);
    assert_eq!(s.selected, Some(3));
    s.select_none();
    s.select_next(4);
    assert_eq!(s.selected, Some(0));
}

#[test]
fn selection_first_last_none() {
    let mut s = SelectionState::new();
    s.select_first(5);
    assert_eq!(s.selected, Some(0));
    s.select_last(5);
    assert_eq!(s.selected, Some(4));
    s.select_none();
    assert_eq!(s.selected, None);
    s.select_first(0);
    assert_eq!(s.selected, None, "jumping on an empty list does nothing");
    s.select_last(0);
    assert_eq!(s.selected, None);
}

#[test]
fn boundary_symmetry_on_single_item_list() {
    // down-then-up and up-then-down agree from a cleared selection on a
    // one-item list.
    let mut a = SelectionState::new();
    a.select_next(1);
    a.select_previous(1);
    let mut b = SelectionState::new();
    b.select_previous(1);
    b.select_next(1);
    assert_eq!(a.selected, b.selected);
    assert_eq!(a.selected, Some(0));
}

#[test]
fn boundary_asymmetry_on_longer_lists() {
    // On two or more items the two orders land on opposite ends.
    let mut a = SelectionState::new();
    a.select_next(2);
    a.select_previous(2);
    let mut b = SelectionState::new();
    b.select_previous(2);
    b.select_next(2);
    assert_eq!(a.selected, Some(0));
    assert_eq!(b.selected, Some(1));
}
