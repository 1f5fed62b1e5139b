//! The task model: a unit of tracked work with identity, text content and a
//! cyclic status lifecycle, plus the error taxonomy shared by the library.

use vstd::prelude::*;

verus! {

/// Lifecycle stage of a task, advanced cyclically by user action:
/// Todo -> InProgress -> Done -> Todo.
#[derive(Clone, Copy, Debug, PartialEq, Eq, Structural)]
pub enum TaskStatus {
    Todo,
    InProgress,
    Done,
}

impl TaskStatus {
    /// The successor in the three-state cycle.
    pub open spec fn spec_cycled(self) -> TaskStatus {
        match self {
            TaskStatus::Todo => TaskStatus::InProgress,
            TaskStatus::InProgress => TaskStatus::Done,
            TaskStatus::Done => TaskStatus::Todo,
        }
    }

    /// Advance the status by one step of the cycle.
    pub fn cycled(self) -> (r: TaskStatus)
        ensures
            r == self.spec_cycled(),
    {
        match self {
            TaskStatus::Todo => TaskStatus::InProgress,
            TaskStatus::InProgress => TaskStatus::Done,
            TaskStatus::Done => TaskStatus::Todo,
        }
    }
}

/// Status cycling is a bijection on the three statuses: applying it three
/// times returns the original status, for every status.
pub proof fn lemma_status_cycle_bijection(s: TaskStatus)
    ensures
        s.spec_cycled().spec_cycled().spec_cycled() == s,
        forall|a: TaskStatus, b: TaskStatus|
            a.spec_cycled() == b.spec_cycled() ==> a == b,
{
}

/// A unit of tracked work. The identifier is a 128-bit value, unique within a
/// store and immutable after creation; name and description are free text,
/// held as character sequences.
#[derive(Clone, Debug, PartialEq, Eq)]
pub struct Task {
    pub id: u128,
    pub name: Vec<char>,
    pub description: Vec<char>,
    pub status: TaskStatus,
}

/// The mathematical value of a task: plain fields over `Seq<char>`.
#[verifier::ext_equal]
pub struct TaskView {
    pub id: u128,
    pub name: Seq<char>,
    pub description: Seq<char>,
    pub status: TaskStatus,
}

impl View for Task {
    type V = TaskView;

    open spec fn view(&self) -> TaskView {
        TaskView {
            id: self.id,
            name: self.name@,
            description: self.description@,
            status: self.status,
        }
    }
}

/// The value of a whole task sequence, element by element.
pub open spec fn tasks_view(ts: Seq<Task>) -> Seq<TaskView> {
    ts.map_values(|t: Task| t@)
}

/// Relies on uuid::Uuid::new_v4 (feature `v4`), which draws a random
/// version-4 UUID, returned here as its 128-bit integer value. Nothing is
/// promised of the result: it is random.
#[verifier::external_body]
fn fresh_id() -> u128 {
    uuid::Uuid::new_v4().as_u128()
}

impl Task {
    /// Create a task with a freshly drawn identifier and status Todo.
    pub fn new(name: Vec<char>, description: Vec<char>) -> (t: Task)
        ensures
            t.name == name,
            t.description == description,
            t.status == TaskStatus::Todo,
    {
        Task { id: fresh_id(), name, description, status: TaskStatus::Todo }
    }
}

/// Copy a character buffer. A character's clone is itself, so the copy's
/// view equals the original's.
pub fn clone_chars(v: &Vec<char>) -> (r: Vec<char>)
    ensures
        r@ == v@,
{
    let r = v.clone();
    proof {
        assert(forall|i: int| 0 <= i < v@.len() ==> r@[i] == v@[i]);
        assert(r@ =~= v@);
    }
    r
}

/// Everything that can go wrong in the library or at its storage edge.
#[derive(Clone, Copy, Debug, PartialEq, Eq, Structural)]
pub enum Error {
    /// The store is missing, unreadable, malformed, or cannot be written.
    Storage,
    /// An operation referenced a task id absent from the sequence.
    NotFound,
    /// A supplied status or field value does not match a recognized tag.
    InvalidInput,
    /// Initialization was attempted over an existing store.
    AlreadyInitialized,
}

impl Error {
    /// A short human-readable label for the error.
    pub fn label(self) -> (r: &'static str)
        ensures
            self == Error::Storage ==> r@ == "storage error"@,
            self == Error::NotFound ==> r@ == "not found"@,
            self == Error::InvalidInput ==> r@ == "invalid input"@,
            self == Error::AlreadyInitialized ==> r@ == "already initialized"@,
    {
        match self {
            Error::Storage => "storage error",
            Error::NotFound => "not found",
            Error::InvalidInput => "invalid input",
            Error::AlreadyInitialized => "already initialized",
        }
    }
}

} // verus!
