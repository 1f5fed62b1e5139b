//! The interactive session state machine: one mode (viewing, inserting, or
//! editing a field of the selected task), the task list with its selection,
//! and an exit flag. Every pressed key is routed through `UI::handle_key`,
//! which performs the transition and says whether the task sequence must be
//! persisted afterwards.

use vstd::prelude::*;

use crate::selection::{
    SelectionState, spec_select_first, spec_select_last, spec_select_next, spec_select_previous,
};
use crate::task::{clone_chars, tasks_view, Task, TaskStatus, TaskView};

verus! {

/// How the list is presented. Kept for callers; the interactive session
/// always runs in `View`.
#[derive(Clone, Copy, Debug, PartialEq, Eq, Structural)]
pub enum ListMode {
    View,
    Modify,
}

/// The in-memory task sequence together with its selection and list mode.
pub struct TaskList {
    pub tasks: Vec<Task>,
    pub state: SelectionState,
    pub mode: ListMode,
}

/// Which text field of a task an edit targets.
#[derive(Clone, Copy, Debug, PartialEq, Eq, Structural)]
pub enum EditField {
    Name,
    Description,
}

/// The session mode. An edit mode always carries the field it targets and
/// the text buffer, so a buffer without a target cannot be represented.
#[derive(Debug, PartialEq, Eq)]
pub enum Mode {
    View,
    Insert,
    Editing { field: EditField, buffer: Vec<char> },
}

/// A key event's code, as the session understands it. Keys the session does
/// not react to arrive as `Other`.
#[derive(Clone, Copy, Debug, PartialEq, Eq, Structural)]
pub enum Key {
    Char(char),
    Enter,
    Backspace,
    Esc,
    Left,
    Down,
    Up,
    Home,
    End,
    Tab,
    Other,
}

/// Whether a key event is a fresh press. Only presses drive transitions.
#[derive(Clone, Copy, Debug, PartialEq, Eq, Structural)]
pub enum KeyKind {
    Press,
    Repeat,
    Release,
}

/// The interactive session: the task list it exclusively owns for the run,
/// the current mode, and the exit flag checked once per loop iteration.
pub struct UI {
    pub task_list: TaskList,
    pub should_exit: bool,
    pub mode: Mode,
}

/// The task sequence after cycling the status of the selected task; the
/// sequence is unchanged when nothing (or an out-of-bounds index) is
/// selected.
pub open spec fn spec_cycle_selected(ts: Seq<TaskView>, sel: Option<usize>) -> Seq<TaskView> {
    match sel {
        None => ts,
        Some(i) => if i < ts.len() {
            ts.update(
                i as int,
                TaskView { status: ts[i as int].status.spec_cycled(), ..ts[i as int] },
            )
        } else {
            ts
        },
    }
}

/// The task sequence after writing `text` into one field of the selected
/// task; the sequence is unchanged when nothing (or an out-of-bounds index)
/// is selected.
pub open spec fn spec_write_field(
    ts: Seq<TaskView>,
    sel: Option<usize>,
    field: EditField,
    text: Seq<char>,
) -> Seq<TaskView> {
    match sel {
        None => ts,
        Some(i) => if i < ts.len() {
            match field {
                EditField::Name => ts.update(i as int, TaskView { name: text, ..ts[i as int] }),
                EditField::Description => ts.update(
                    i as int,
                    TaskView { description: text, ..ts[i as int] },
                ),
            }
        } else {
            ts
        },
    }
}

/// The session with only its selection replaced.
pub open spec fn with_selection(pre: UI, sel: Option<usize>) -> UI {
    UI {
        task_list: TaskList { state: (SelectionState { selected: sel }), ..pre.task_list },
        ..pre
    }
}

/// What entering an edit mode does: with a selection, the targeted field of
/// the selected task is loaded into a fresh buffer and nothing else changes;
/// without one, nothing happens at all.
pub open spec fn entered_edit(pre: UI, post: UI, field: EditField) -> bool {
    match pre.sel() {
        Some(i) => {
            &&& post.task_list == pre.task_list
            &&& post.should_exit == pre.should_exit
            &&& post.mode matches Mode::Editing { field: f, buffer } && f == field && buffer@
                == (if field is Name {
                pre.tasks()[i as int].name
            } else {
                pre.tasks()[i as int].description
            })
        },
        None => post == pre,
    }
}

impl UI {
    /// The mathematical value of the owned task sequence.
    pub open spec fn tasks(self) -> Seq<TaskView> {
        tasks_view(self.task_list.tasks@)
    }

    /// The current selection.
    pub open spec fn sel(self) -> Option<usize> {
        self.task_list.state.selected
    }

    /// Session well-formedness: the selection is within bounds of the task
    /// sequence, and an edit mode is only ever active with a selection.
    pub open spec fn wf(self) -> bool {
        &&& self.task_list.state.in_bounds(self.task_list.tasks@.len())
        &&& (self.mode matches Mode::Editing { .. } ==> self.sel() is Some)
    }

    /// Decide well-formedness at run time, for callers outside the verified
    /// library that must check it before handing the session a key event.
    pub fn is_well_formed(&self) -> (r: bool)
        ensures
            r == self.wf(),
    {
        let in_bounds = match self.task_list.state.selected {
            Some(i) => i < self.task_list.tasks.len(),
            None => true,
        };
        let edit_has_selection = match &self.mode {
            Mode::Editing { .. } => match self.task_list.state.selected {
                Some(_) => true,
                None => false,
            },
            _ => true,
        };
        in_bounds && edit_has_selection
    }

    /// Start a session over the given tasks: viewing, nothing selected, not
    /// exiting.
    pub fn new(tasks: Vec<Task>) -> (ui: UI)
        ensures
            ui.task_list.tasks == tasks,
            ui.task_list.state.selected is None,
            ui.task_list.mode is View,
            ui.mode is View,
            !ui.should_exit,
            ui.wf(),
    {
        UI {
            task_list: TaskList {
                tasks,
                state: SelectionState::new(),
                mode: ListMode::View,
            },
            should_exit: false,
            mode: Mode::View,
        }
    }

    /// Clear the selection.
    fn select_none(&mut self)
        requires
            old(self).wf(),
            old(self).mode is View,
        ensures
            *final(self) == with_selection(*old(self), None),
            final(self).wf(),
    {
        self.task_list.state.select_none();
    }

    /// Move the selection down by one, clamped at the last item.
    fn select_next(&mut self)
        requires
            old(self).wf(),
            old(self).mode is View,
        ensures
            *final(self) == with_selection(
                *old(self),
                spec_select_next(old(self).sel(), old(self).task_list.tasks@.len() as usize),
            ),
            final(self).wf(),
    {
        let len = self.task_list.tasks.len();
        self.task_list.state.select_next(len);
    }

    /// Move the selection up by one, clamped at the first item.
    fn select_previous(&mut self)
        requires
            old(self).wf(),
            old(self).mode is View,
        ensures
            *final(self) == with_selection(
                *old(self),
                spec_select_previous(old(self).sel(), old(self).task_list.tasks@.len() as usize),
            ),
            final(self).wf(),
    {
        let len = self.task_list.tasks.len();
        self.task_list.state.select_previous(len);
    }

    /// Jump the selection to the first item.
    fn select_first(&mut self)
        requires
            old(self).wf(),
            old(self).mode is View,
        ensures
            *final(self) == with_selection(
                *old(self),
                spec_select_first(old(self).sel(), old(self).task_list.tasks@.len() as usize),
            ),
            final(self).wf(),
    {
        let len = self.task_list.tasks.len();
        self.task_list.state.select_first(len);
    }

    /// Jump the selection to the last item.
    fn select_last(&mut self)
        requires
            old(self).wf(),
            old(self).mode is View,
        ensures
            *final(self) == with_selection(
                *old(self),
                spec_select_last(old(self).sel(), old(self).task_list.tasks@.len() as usize),
            ),
            final(self).wf(),
    {
        let len = self.task_list.tasks.len();
        self.task_list.state.select_last(len);
    }

    /// Cycle the status of the selected task; nothing happens without a
    /// selection.
    fn toggle_status(&mut self)
        requires
            old(self).wf(),
        ensures
            final(self).tasks() == spec_cycle_selected(old(self).tasks(), old(self).sel()),
            final(self).task_list.state == old(self).task_list.state,
            final(self).task_list.mode == old(self).task_list.mode,
            final(self).mode == old(self).mode,
            final(self).should_exit == old(self).should_exit,
            final(self).wf(),
    {
        if let Some(i) = self.task_list.state.selected {
            let t = &mut self.task_list.tasks[i];
            t.status = t.status.cycled();
            proof {
                assert(self.tasks() =~= spec_cycle_selected(old(self).tasks(), old(self).sel()));
            }
        }
    }

    /// Enter the edit mode that targets `field`, loading the selected task's
    /// field into the buffer; nothing happens without a selection.
    fn enter_edit(&mut self, field: EditField)
        requires
            old(self).wf(),
            old(self).mode is View,
        ensures
            entered_edit(*old(self), *final(self), field),
            final(self).wf(),
    {
        if let Some(i) = self.task_list.state.selected {
            let text = match field {
                EditField::Name => clone_chars(&self.task_list.tasks[i].name),
                EditField::Description => clone_chars(&self.task_list.tasks[i].description),
            };
            self.mode = Mode::Editing { field, buffer: text };
        }
    }

    /// Write `text` into the targeted field of the selected task; nothing
    /// happens without a selection.
    fn set_selected_field(&mut self, field: EditField, text: Vec<char>)
        requires
            old(self).wf(),
        ensures
            final(self).tasks() == spec_write_field(
                old(self).tasks(),
                old(self).sel(),
                field,
                text@,
            ),
            final(self).task_list.state == old(self).task_list.state,
            final(self).task_list.mode == old(self).task_list.mode,
            final(self).mode == old(self).mode,
            final(self).should_exit == old(self).should_exit,
            final(self).wf(),
    {
        if let Some(i) = self.task_list.state.selected {
            let t = &mut self.task_list.tasks[i];
            match field {
                EditField::Name => {
                    t.name = text;
                },
                EditField::Description => {
                    t.description = text;
                },
            }
            proof {
                assert(self.tasks() =~= spec_write_field(
                    old(self).tasks(),
                    old(self).sel(),
                    field,
                    text@,
                ));
            }
        }
    }

    /// Route one key event through the state machine. Returns whether the
    /// task sequence must be persisted (true exactly for the mutating
    /// transitions: a status cycle and a confirmed edit). Events that are
    /// not fresh presses are ignored.
    pub fn handle_key(&mut self, key: Key, kind: KeyKind) -> (persist: bool)
        requires
            old(self).wf(),
        ensures
            final(self).wf(),
            kind != KeyKind::Press ==> *final(self) == *old(self) && !persist,
            kind == KeyKind::Press && old(self).mode is View ==> (match key {
                Key::Char(c) => {
                    if c == 'q' {
                        *final(self) == (UI { should_exit: true, ..*old(self) }) && !persist
                    } else if c == 'i' {
                        *final(self) == (UI { mode: Mode::Insert, ..*old(self) }) && !persist
                    } else if c == 'e' {
                        entered_edit(*old(self), *final(self), EditField::Name) && !persist
                    } else if c == 'd' {
                        entered_edit(*old(self), *final(self), EditField::Description) && !persist
                    } else {
                        *final(self) == *old(self) && !persist
                    }
                },
                Key::Esc => *final(self) == *old(self) && !persist,
                Key::Left => *final(self) == with_selection(*old(self), None) && !persist,
                Key::Down => *final(self) == with_selection(
                    *old(self),
                    spec_select_next(old(self).sel(), old(self).task_list.tasks@.len() as usize),
                ) && !persist,
                Key::Up => *final(self) == with_selection(
                    *old(self),
                    spec_select_previous(
                        old(self).sel(),
                        old(self).task_list.tasks@.len() as usize,
                    ),
                ) && !persist,
                Key::Home => *final(self) == with_selection(
                    *old(self),
                    spec_select_first(old(self).sel(), old(self).task_list.tasks@.len() as usize),
                ) && !persist,
                Key::End => *final(self) == with_selection(
                    *old(self),
                    spec_select_last(old(self).sel(), old(self).task_list.tasks@.len() as usize),
                ) && !persist,
                Key::Tab => {
                    &&& final(self).tasks() == spec_cycle_selected(
                        old(self).tasks(),
                        old(self).sel(),
                    )
                    &&& final(self).task_list.state == old(self).task_list.state
                    &&& final(self).task_list.mode == old(self).task_list.mode
                    &&& final(self).mode == old(self).mode
                    &&& final(self).should_exit == old(self).should_exit
                    &&& persist
                },
                _ => *final(self) == *old(self) && !persist,
            }),
            kind == KeyKind::Press && old(self).mode is Insert ==> (match key {
                Key::Esc => *final(self) == (UI { mode: Mode::View, ..*old(self) }) && !persist,
                _ => *final(self) == *old(self) && !persist,
            }),
            old(self).mode matches Mode::Editing { field, buffer } ==> (kind == KeyKind::Press
                ==> (match key {
                Key::Char(c) => {
                    &&& final(self).mode matches Mode::Editing { field: f2, buffer: b2 } && f2
                        == field && b2@ == buffer@.push(c)
                    &&& final(self).task_list == old(self).task_list
                    &&& final(self).should_exit == old(self).should_exit
                    &&& !persist
                },
                Key::Backspace => {
                    &&& final(self).mode matches Mode::Editing { field: f2, buffer: b2 } && f2
                        == field && b2@ == (if buffer@.len() == 0 {
                        buffer@
                    } else {
                        buffer@.drop_last()
                    })
                    &&& final(self).task_list == old(self).task_list
                    &&& final(self).should_exit == old(self).should_exit
                    &&& !persist
                },
                Key::Enter => {
                    &&& final(self).mode is View
                    &&& final(self).tasks() == spec_write_field(
                        old(self).tasks(),
                        old(self).sel(),
                        field,
                        buffer@,
                    )
                    &&& final(self).task_list.state == old(self).task_list.state
                    &&& final(self).task_list.mode == old(self).task_list.mode
                    &&& final(self).should_exit == old(self).should_exit
                    &&& persist
                },
                Key::Esc => *final(self) == (UI { mode: Mode::View, ..*old(self) }) && !persist,
                _ => *final(self) == *old(self) && !persist,
            })),
    {
        if !matches!(kind, KeyKind::Press) {
            return false;
        }
        match &mut self.mode {
            Mode::View => match key {
                Key::Char(c) => {
                    if c == 'q' {
                        self.should_exit = true;
                        false
                    } else if c == 'i' {
                        self.mode = Mode::Insert;
                        false
                    } else if c == 'e' {
                        self.enter_edit(EditField::Name);
                        false
                    } else if c == 'd' {
                        self.enter_edit(EditField::Description);
                        false
                    } else {
                        false
                    }
                },
                Key::Esc => false,
                Key::Left => {
                    self.select_none();
                    false
                },
                Key::Down => {
                    self.select_next();
                    false
                },
                Key::Up => {
                    self.select_previous();
                    false
                },
                Key::Home => {
                    self.select_first();
                    false
                },
                Key::End => {
                    self.select_last();
                    false
                },
                Key::Tab => {
                    self.toggle_status();
                    true
                },
                _ => false,
            },
            Mode::Insert => match key {
                Key::Esc => {
                    self.mode = Mode::View;
                    false
                },
                _ => false,
            },
            Mode::Editing { field, buffer } => match key {
                Key::Char(c) => {
                    buffer.push(c);
                    false
                },
                Key::Backspace => {
                    let _last = buffer.pop();
                    false
                },
                Key::Enter => {
                    let f = *field;
                    let text = clone_chars(buffer);
                    self.mode = Mode::View;
                    self.set_selected_field(f, text);
                    true
                },
                Key::Esc => {
                    self.mode = Mode::View;
                    false
                },
                _ => false,
            },
        }
    }
}

} // verus!
