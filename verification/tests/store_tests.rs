use kae::store::{initialize, load, save};
use kae::task::{Error, Task, TaskStatus};

fn chars(s: &str) -> Vec<char> {
    s.chars().collect()
}

fn task(id: u128, name: &str, description: &str, status: TaskStatus) -> Task {
    Task { id, name: chars(name), description: chars(description), status }
}

#[test]
fn save_empty_sequence_is_empty_text() {
    let tasks: Vec<Task> = Vec::new();
    assert_eq!(save(&tasks), Vec::<char>::new());
}

#[test]
fn load_empty_text_is_empty_sequence() {
    let loaded = load(&Vec::new()).unwrap();
    assert!(loaded.is_empty());
}

#[test]
fn save_writes_the_exact_record() {
    let tasks = vec![task(1, "A", "", TaskStatus::Todo)];
    let text: String = save(&tasks).into_iter().collect();
    let expected = format!("{:032x} todo {:032x} A {:032x} \n", 1, 1, 0);
    assert_eq!(text, expected);
}

#[test]
fn save_then_load_round_trips() {
    let tasks = vec![
        task(0, "", "", TaskStatus::Todo),
        task(u128::MAX, "wash up", "plates,\nmugs and \\ spoons", TaskStatus::InProgress),
        task(42, "na\u{00ef}ve \u{2713} name", "multi\nline\ntext", TaskStatus::Done),
    ];
    let loaded = load(&save(&tasks)).unwrap();
    assert_eq!(loaded, tasks);
}

#[test]
fn load_then_save_reproduces_the_text() {
    let tasks = vec![
        task(7, "first", "one", TaskStatus::Todo),
        task(9, "second", "two", TaskStatus::Done),
    ];
    let text = save(&tasks);
    let again = save(&load(&text).unwrap());
    assert_eq!(again, text);
}

#[test]
fn load_rejects_malformed_text() {
    assert_eq!(load(&chars("not a record")), Err(Error::Storage));
    assert_eq!(load(&chars("0123")), Err(Error::Storage));
    // a valid record followed by garbage
    let mut text = save(&vec![task(5, "x", "y", TaskStatus::Todo)]);
    text.push('?');
    assert_eq!(load(&text), Err(Error::Storage));
}

#[test]
fn load_rejects_unknown_status_tag() {
    let good = save(&vec![task(5, "x", "y", TaskStatus::Todo)]);
    let text: String = good.into_iter().collect();
    let bad: Vec<char> = text.replace(" todo ", " later ").chars().collect();
    assert_eq!(load(&bad), Err(Error::Storage));
}

#[test]
fn load_rejects_wrong_length_prefix() {
    let good = save(&vec![task(5, "abc", "y", TaskStatus::Todo)]);
    let text: String = good.into_iter().collect();
    let bad: Vec<char> = text
        .replace(&format!("{:032x} abc", 3), &format!("{:032x} abc", 7))
        .chars()
        .collect();
    assert_eq!(load(&bad), Err(Error::Storage));
}

#[test]
fn initialize_fails_over_an_existing_store() {
    assert_eq!(initialize(true), Err(Error::AlreadyInitialized));
}

#[test]
fn initialize_creates_the_empty_store() {
    let contents = initialize(false).unwrap();
    assert_eq!(contents, Vec::<char>::new());
    let loaded = load(&contents).unwrap();
    assert!(loaded.is_empty());
}
