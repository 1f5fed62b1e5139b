//! The renderer: a pure projection from the session state to a frame model
//! with a header, a footer naming the active mode and its key bindings, one
//! list row per task (status glyph, name, highlight, alternating row tone by
//! position parity), and a detail pane for the selected task whose edited
//! field shows the live buffer with a cursor marker.

use vstd::prelude::*;

use crate::session::{EditField, Mode, UI};
use crate::task::{clone_chars, TaskStatus};

verus! {

/// The glyph a status is listed with.
pub open spec fn spec_status_glyph(st: TaskStatus) -> char {
    match st {
        TaskStatus::Todo => '\u{2610}',
        TaskStatus::InProgress => '\u{25cc}',
        TaskStatus::Done => '\u{2713}',
    }
}

/// One line of the task list pane.
pub struct ListRow {
    pub glyph: char,
    pub name: Vec<char>,
    pub selected: bool,
    pub alt_tone: bool,
}

/// The detail pane: a placeholder when nothing is selected, else the
/// selected task's fields. A field being edited shows the live edit buffer
/// instead of the stored text, with `editing` set so a cursor marker is
/// drawn after it.
pub enum DetailPane {
    Empty,
    TaskInfo {
        name: Vec<char>,
        name_editing: bool,
        description: Vec<char>,
        description_editing: bool,
        status: TaskStatus,
    },
}

/// One frame of the interface, as plain values.
pub struct Frame {
    pub header: &'static str,
    pub footer_hint: &'static str,
    pub footer_mode: &'static str,
    pub rows: Vec<ListRow>,
    pub detail: DetailPane,
}

/// The glyph a status is listed with: distinct per status.
pub fn status_glyph(st: TaskStatus) -> (c: char)
    ensures
        c == spec_status_glyph(st),
{
    match st {
        TaskStatus::Todo => '\u{2610}',
        TaskStatus::InProgress => '\u{25cc}',
        TaskStatus::Done => '\u{2713}',
    }
}

/// The status line shown in the detail pane.
pub fn status_label(st: TaskStatus) -> (r: &'static str)
    ensures
        st == TaskStatus::Todo ==> r@ == "\u{2610} TODO"@,
        st == TaskStatus::InProgress ==> r@ == "\u{25cc} IN PROGRESS"@,
        st == TaskStatus::Done ==> r@ == "\u{2713} DONE"@,
{
    match st {
        TaskStatus::Todo => "\u{2610} TODO",
        TaskStatus::InProgress => "\u{25cc} IN PROGRESS",
        TaskStatus::Done => "\u{2713} DONE",
    }
}

/// The static title of the header pane.
pub fn header_title() -> (r: &'static str)
    ensures
        r@ == "KAE"@,
{
    "KAE"
}

/// The detail pane's text when nothing is selected.
pub fn placeholder_text() -> (r: &'static str)
    ensures
        r@ == "Nothing selected..."@,
{
    "Nothing selected..."
}

/// The key-binding hint for the active mode.
pub fn footer_hint(mode: &Mode) -> (r: &'static str)
    ensures
        (mode is View || mode is Insert) ==> r@
            == "Use \u{2193}\u{2191} to move, \u{2190} to unselect, TAB to change status, 'e' to edit name, 'd' to edit description, 'q' to exit"@,
        (mode matches Mode::Editing { .. }) ==> r@ == "Type to edit, Enter to save, Esc to cancel"@,
{
    match mode {
        Mode::View | Mode::Insert => "Use \u{2193}\u{2191} to move, \u{2190} to unselect, TAB to change status, 'e' to edit name, 'd' to edit description, 'q' to exit",
        Mode::Editing { .. } => "Type to edit, Enter to save, Esc to cancel",
    }
}

/// The name of the active mode, for the footer.
pub fn mode_label(mode: &Mode) -> (r: &'static str)
    ensures
        mode is View ==> r@ == "VIEW"@,
        mode is Insert ==> r@ == "INSERT"@,
        (mode matches Mode::Editing { field: EditField::Name, .. }) ==> r@ == "EDIT NAME"@,
        (mode matches Mode::Editing { field: EditField::Description, .. }) ==> r@
            == "EDIT DESCRIPTION"@,
{
    match mode {
        Mode::View => "VIEW",
        Mode::Insert => "INSERT",
        Mode::Editing { field: EditField::Name, .. } => "EDIT NAME",
        Mode::Editing { field: EditField::Description, .. } => "EDIT DESCRIPTION",
    }
}

/// Project the session state onto a frame: one row per task in order, each
/// with its status glyph, name, highlight exactly on the selected row, and a
/// tone alternating by position parity; the detail pane follows the
/// selection and the edit buffer; header and footer as the mode dictates.
pub fn render(ui: &UI) -> (f: Frame)
    requires
        ui.wf(),
    ensures
        f.rows@.len() == ui.tasks().len(),
        forall|i: int|
            0 <= i < f.rows@.len() ==> {
                &&& (#[trigger] f.rows@[i]).glyph == spec_status_glyph(ui.tasks()[i].status)
                &&& f.rows@[i].name@ == ui.tasks()[i].name
                &&& f.rows@[i].selected == (ui.sel() == Some(i as usize))
                &&& f.rows@[i].alt_tone == (i % 2 == 1)
            },
        ui.sel() is None ==> f.detail is Empty,
        ui.sel() matches Some(sel) ==> (f.detail matches DetailPane::TaskInfo {
            name,
            name_editing,
            description,
            description_editing,
            status,
        } && {
            &&& name_editing == (ui.mode matches Mode::Editing { field: EditField::Name, .. })
            &&& description_editing == (ui.mode matches Mode::Editing {
                field: EditField::Description,
                ..
            })
            &&& (ui.mode matches Mode::Editing { field: EditField::Name, buffer } ==> name@
                == buffer@)
            &&& (!(ui.mode matches Mode::Editing { field: EditField::Name, .. }) ==> name@
                == ui.tasks()[sel as int].name)
            &&& (ui.mode matches Mode::Editing { field: EditField::Description, buffer }
                ==> description@ == buffer@)
            &&& (!(ui.mode matches Mode::Editing { field: EditField::Description, .. })
                ==> description@ == ui.tasks()[sel as int].description)
            &&& status == ui.tasks()[sel as int].status
        }),
        f.header@ == "KAE"@,
        (ui.mode is View || ui.mode is Insert) ==> f.footer_hint@
            == "Use \u{2193}\u{2191} to move, \u{2190} to unselect, TAB to change status, 'e' to edit name, 'd' to edit description, 'q' to exit"@,
        (ui.mode matches Mode::Editing { .. }) ==> f.footer_hint@
            == "Type to edit, Enter to save, Esc to cancel"@,
        ui.mode is View ==> f.footer_mode@ == "VIEW"@,
        ui.mode is Insert ==> f.footer_mode@ == "INSERT"@,
        (ui.mode matches Mode::Editing { field: EditField::Name, .. }) ==> f.footer_mode@
            == "EDIT NAME"@,
        (ui.mode matches Mode::Editing { field: EditField::Description, .. }) ==> f.footer_mode@
            == "EDIT DESCRIPTION"@,
{
    let tasks = &ui.task_list.tasks;
    let mut rows: Vec<ListRow> = Vec::new();
    let mut k: usize = 0;
    while k < tasks.len()
        invariant
            k <= tasks@.len(),
            rows@.len() == k,
            forall|i: int|
                0 <= i < k ==> {
                    &&& (#[trigger] rows@[i]).glyph == spec_status_glyph(tasks@[i]@.status)
                    &&& rows@[i].name@ == tasks@[i]@.name
                    &&& rows@[i].selected == (ui.task_list.state.selected == Some(i as usize))
                    &&& rows@[i].alt_tone == (i % 2 == 1)
                },
        decreases tasks@.len() - k,
    {
        let selected = match ui.task_list.state.selected {
            Some(j) => j == k,
            None => false,
        };
        let row = ListRow {
            glyph: status_glyph(tasks[k].status),
            name: clone_chars(&tasks[k].name),
            selected,
            alt_tone: k % 2 == 1,
        };
        rows.push(row);
        k += 1;
    }
    let detail = match ui.task_list.state.selected {
        None => DetailPane::Empty,
        Some(i) => {
            let t = &tasks[i];
            let (name, name_editing, description, description_editing) = match &ui.mode {
                Mode::Editing { field: EditField::Name, buffer } => (
                    clone_chars(buffer),
                    true,
                    clone_chars(&t.description),
                    false,
                ),
                Mode::Editing { field: EditField::Description, buffer } => (
                    clone_chars(&t.name),
                    false,
                    clone_chars(buffer),
                    true,
                ),
                _ => (clone_chars(&t.name), false, clone_chars(&t.description), false),
            };
            DetailPane::TaskInfo { name, name_editing, description, description_editing, status: t.status }
        },
    };
    Frame {
        header: header_title(),
        footer_hint: footer_hint(&ui.mode),
        footer_mode: mode_label(&ui.mode),
        rows,
        detail,
    }
}

} // verus!
