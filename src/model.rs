//! The records of the workflow and their mathematical views.

use vstd::prelude::*;

verus! {

/// A 32-byte identifier of a project or a task.
pub type Id = [u8; 32];

/// A 32-byte identity of a participant (a manager or a developer).
pub type Identity = [u8; 32];

/// The lifecycle of a task.
#[derive(Clone, Copy, Debug, PartialEq, Eq, Structural)]
pub enum TaskStatus {
    Open,
    Assigned,
    InProgress,
    Completed,
    Approved,
    Rejected,
}

/// Why an operation was refused. A refused operation changes nothing.
#[derive(Clone, Copy, Debug, PartialEq, Eq, Structural)]
pub enum DevAsignError {
    /// The project or task does not exist.
    NotFound,
    /// The caller does not hold the role the operation asks for.
    Unauthorized,
    /// The task is not in the state the transition starts from.
    InvalidState,
    /// The developer has already applied for the task.
    DuplicateApplication,
    /// The payer's escrow balance is below the amount to release.
    InsufficientEscrow,
    /// The compensation is not positive, or the payer's balance cannot hold it.
    InvalidAmount,
    /// The derived identifier is already taken.
    IdCollision,
}

/// A transfer of escrowed funds that the host must carry out.
#[derive(Clone, Copy, Debug, PartialEq, Eq)]
pub struct Payout {
    pub from: Identity,
    pub to: Identity,
    pub amount: i128,
}

/// A project: a manager's container of tasks.
#[derive(Clone, Debug, PartialEq, Eq)]
pub struct Project {
    pub id: Id,
    pub name: String,
    pub manager: Identity,
    pub repository_url: String,
    pub total_tasks: u32,
}

/// A project as mathematical values.
pub struct ProjectView {
    pub id: Id,
    pub name: Seq<char>,
    pub manager: Identity,
    pub repository_url: Seq<char>,
    pub total_tasks: u32,
}

impl View for Project {
    type V = ProjectView;

    open spec fn view(&self) -> ProjectView {
        ProjectView {
            id: self.id,
            name: self.name@,
            manager: self.manager,
            repository_url: self.repository_url@,
            total_tasks: self.total_tasks,
        }
    }
}

/// A funded unit of work inside a project.
#[derive(Clone, Debug, PartialEq, Eq)]
pub struct Task {
    pub id: Id,
    pub title: String,
    pub description: String,
    pub compensation: i128,
    pub project_id: Id,
    pub status: TaskStatus,
    pub applicants: Vec<Identity>,
    pub assigned_developer: Option<Identity>,
    pub completion_date: Option<u64>,
}

/// A task as mathematical values.
pub struct TaskView {
    pub id: Id,
    pub title: Seq<char>,
    pub description: Seq<char>,
    pub compensation: i128,
    pub project_id: Id,
    pub status: TaskStatus,
    pub applicants: Seq<Identity>,
    pub assigned_developer: Option<Identity>,
    pub completion_date: Option<u64>,
}

impl View for Task {
    type V = TaskView;

    open spec fn view(&self) -> TaskView {
        TaskView {
            id: self.id,
            title: self.title@,
            description: self.description@,
            compensation: self.compensation,
            project_id: self.project_id,
            status: self.status,
            applicants: self.applicants@,
            assigned_developer: self.assigned_developer,
            completion_date: self.completion_date,
        }
    }
}

/// No identity occurs twice in the sequence.
pub open spec fn no_duplicates(s: Seq<Identity>) -> bool {
    forall|i: int, j: int| 0 <= i < s.len() && 0 <= j < s.len() && s[i] == s[j] ==> i == j
}

/// The task's fields agree with its status: an assignee exactly from
/// assignment on, a completion time exactly from completion on, and
/// applicants without repetition.
pub open spec fn task_consistent(t: TaskView) -> bool {
    &&& no_duplicates(t.applicants)
    &&& (t.assigned_developer is Some <==> t.status != TaskStatus::Open)
    &&& (t.completion_date is Some <==> (t.status == TaskStatus::Completed
        || t.status == TaskStatus::Approved))
}

/// The two identifiers hold the same bytes.
pub fn same_id(a: &[u8; 32], b: &[u8; 32]) -> (r: bool)
    ensures
        r == (*a == *b),
{
    let mut i: usize = 0;
    while i < 32
        invariant
            0 <= i <= 32,
            forall|k: int| 0 <= k < i ==> a@[k] == b@[k],
        decreases 32 - i,
    {
        if a[i] != b[i] {
            return false;
        }
        i = i + 1;
    }
    proof {
        assert(a@ =~= b@);
        assert(*a =~= *b);
    }
    true
}

impl Project {
    /// A copy of the record.
    pub fn snapshot(&self) -> (r: Project)
        ensures
            r@ == self@,
    {
        Project {
            id: self.id,
            name: self.name.clone(),
            manager: self.manager,
            repository_url: self.repository_url.clone(),
            total_tasks: self.total_tasks,
        }
    }
}

/// A copy of a sequence of identities.
pub fn copy_identities(v: &Vec<Identity>) -> (r: Vec<Identity>)
    ensures
        r@ == v@,
{
    let mut r: Vec<Identity> = Vec::new();
    let mut i: usize = 0;
    while i < v.len()
        invariant
            0 <= i <= v@.len(),
            r@ == v@.subrange(0, i as int),
        decreases v@.len() - i,
    {
        r.push(v[i]);
        i = i + 1;
        proof {
            assert(r@ =~= v@.subrange(0, i as int));
        }
    }
    proof {
        assert(r@ =~= v@);
    }
    r
}

impl Task {
    /// A copy of the record.
    pub fn snapshot(&self) -> (r: Task)
        ensures
            r@ == self@,
    {
        Task {
            id: self.id,
            title: self.title.clone(),
            description: self.description.clone(),
            compensation: self.compensation,
            project_id: self.project_id,
            status: self.status,
            applicants: copy_identities(&self.applicants),
            assigned_developer: self.assigned_developer,
            completion_date: self.completion_date,
        }
    }
}

} // verus!
