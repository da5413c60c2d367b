//! The workflow store: projects, tasks, the project-to-tasks index and the
//! escrow ledger, with the task lifecycle as its transitions.

use vstd::prelude::*;
use crate::host;
use crate::ledger::EscrowLedger;
use crate::model::{
    copy_identities, no_duplicates, same_id, task_consistent, DevAsignError, Id, Identity,
    Payout, Project, ProjectView, Task, TaskStatus, TaskView,
};

verus! {

/// The whole state as maps.
pub struct ContractView {
    pub projects: Map<Id, ProjectView>,
    pub project_tasks: Map<Id, Seq<Id>>,
    pub tasks: Map<Id, TaskView>,
    pub escrow: Map<Identity, i128>,
}

/// What a payer holds in escrow.
pub open spec fn balance_in(escrow: Map<Identity, i128>, who: Identity) -> int {
    if escrow.contains_key(who) {
        escrow[who] as int
    } else {
        0
    }
}

/// The state with one task record put in place under its identifier.
pub open spec fn with_task(v: ContractView, task_id: Id, t: TaskView) -> ContractView {
    ContractView { tasks: v.tasks.insert(task_id, t), ..v }
}

/// The invariants every reachable state keeps: tasks belong to existing
/// projects and agree with their status, each project counts the tasks of
/// its index, and the index names only tasks of that project.
pub open spec fn consistent(v: ContractView) -> bool {
    &&& forall|k: Id| #[trigger]
        v.tasks.contains_key(k) ==> {
            &&& v.tasks[k].id == k
            &&& v.projects.contains_key(v.tasks[k].project_id)
            &&& task_consistent(v.tasks[k])
            &&& v.tasks[k].compensation > 0
        }
    &&& forall|k: Id| #[trigger]
        v.projects.contains_key(k) ==> {
            &&& v.projects[k].id == k
            &&& v.project_tasks.contains_key(k)
            &&& v.projects[k].total_tasks == v.project_tasks[k].len()
        }
    &&& forall|k: Id| #[trigger] v.project_tasks.contains_key(k) ==> v.projects.contains_key(k)
    &&& forall|k: Id, j: int|
        v.project_tasks.contains_key(k) && 0 <= j < v.project_tasks[k].len() ==> {
            &&& v.tasks.contains_key(#[trigger] v.project_tasks[k][j])
            &&& v.tasks[v.project_tasks[k][j]].project_id == k
        }
}

/// A project just made, with no task yet.
pub open spec fn new_project_view(
    id: Id,
    manager: Identity,
    name: Seq<char>,
    repository_url: Seq<char>,
) -> ProjectView {
    ProjectView { id, name, manager, repository_url, total_tasks: 0 }
}

/// A task just made: open, with no applicant, assignee or completion time.
pub open spec fn new_task_view(
    id: Id,
    title: Seq<char>,
    description: Seq<char>,
    compensation: i128,
    project_id: Id,
) -> TaskView {
    TaskView {
        id,
        title,
        description,
        compensation,
        project_id,
        status: TaskStatus::Open,
        applicants: Seq::empty(),
        assigned_developer: None,
        completion_date: None,
    }
}

/// Outcome of registering a project under `id`.
pub open spec fn project_outcome(
    before: ContractView,
    after: ContractView,
    id: Id,
    manager: Identity,
    name: Seq<char>,
    repository_url: Seq<char>,
    r: Result<Id, DevAsignError>,
) -> bool {
    if before.projects.contains_key(id) {
        r == Err::<Id, DevAsignError>(DevAsignError::IdCollision) && after == before
    } else {
        &&& r == Ok::<Id, DevAsignError>(id)
        &&& after == ContractView {
            projects: before.projects.insert(
                id,
                new_project_view(id, manager, name, repository_url),
            ),
            project_tasks: before.project_tasks.insert(id, Seq::empty()),
            ..before
        }
    }
}

/// Why creating a task would be refused, if it would.
pub open spec fn task_refusal(
    before: ContractView,
    task_id: Id,
    project_id: Id,
    compensation: i128,
    manager: Identity,
) -> Option<DevAsignError> {
    if !before.projects.contains_key(project_id) {
        Some(DevAsignError::NotFound)
    } else if before.projects[project_id].manager != manager {
        Some(DevAsignError::Unauthorized)
    } else if compensation <= 0 {
        Some(DevAsignError::InvalidAmount)
    } else if before.tasks.contains_key(task_id) {
        Some(DevAsignError::IdCollision)
    } else if before.projects[project_id].total_tasks == u32::MAX {
        Some(DevAsignError::InvalidState)
    } else if balance_in(before.escrow, manager) + compensation > i128::MAX {
        Some(DevAsignError::InvalidAmount)
    } else {
        None
    }
}

/// Outcome of creating task `task_id` in a project: on success the task is
/// open, the project counts and indexes it last, and the compensation is
/// added to the manager's escrow balance.
pub open spec fn task_outcome(
    before: ContractView,
    after: ContractView,
    task_id: Id,
    project_id: Id,
    title: Seq<char>,
    description: Seq<char>,
    compensation: i128,
    manager: Identity,
    r: Result<Id, DevAsignError>,
) -> bool {
    match task_refusal(before, task_id, project_id, compensation, manager) {
        Some(e) => r == Err::<Id, DevAsignError>(e) && after == before,
        None => {
            let p = before.projects[project_id];
            &&& r == Ok::<Id, DevAsignError>(task_id)
            &&& after == ContractView {
                projects: before.projects.insert(
                    project_id,
                    ProjectView { total_tasks: (p.total_tasks + 1) as u32, ..p },
                ),
                project_tasks: before.project_tasks.insert(
                    project_id,
                    before.project_tasks[project_id].push(task_id),
                ),
                tasks: before.tasks.insert(
                    task_id,
                    new_task_view(task_id, title, description, compensation, project_id),
                ),
                escrow: before.escrow.insert(
                    manager,
                    (balance_in(before.escrow, manager) + compensation) as i128,
                ),
            }
        },
    }
}

/// Outcome of a developer applying for an open task.
pub open spec fn apply_outcome(
    before: ContractView,
    after: ContractView,
    task_id: Id,
    developer: Identity,
    r: Result<(), DevAsignError>,
) -> bool {
    if !before.tasks.contains_key(task_id) {
        r == Err::<(), DevAsignError>(DevAsignError::NotFound) && after == before
    } else {
        let t = before.tasks[task_id];
        if t.status != TaskStatus::Open {
            r == Err::<(), DevAsignError>(DevAsignError::InvalidState) && after == before
        } else if t.applicants.contains(developer) {
            r == Err::<(), DevAsignError>(DevAsignError::DuplicateApplication) && after == before
        } else {
            r == Ok::<(), DevAsignError>(()) && after == with_task(
                before,
                task_id,
                TaskView { applicants: t.applicants.push(developer), ..t },
            )
        }
    }
}

/// Outcome of the project manager assigning an open task to an applicant.
pub open spec fn assign_outcome(
    before: ContractView,
    after: ContractView,
    task_id: Id,
    developer: Identity,
    manager: Identity,
    r: Result<(), DevAsignError>,
) -> bool {
    if !before.tasks.contains_key(task_id) {
        r == Err::<(), DevAsignError>(DevAsignError::NotFound) && after == before
    } else {
        let t = before.tasks[task_id];
        if before.projects[t.project_id].manager != manager {
            r == Err::<(), DevAsignError>(DevAsignError::Unauthorized) && after == before
        } else if t.status != TaskStatus::Open || !t.applicants.contains(developer) {
            r == Err::<(), DevAsignError>(DevAsignError::InvalidState) && after == before
        } else {
            r == Ok::<(), DevAsignError>(()) && after == with_task(
                before,
                task_id,
                TaskView {
                    status: TaskStatus::Assigned,
                    assigned_developer: Some(developer),
                    ..t
                },
            )
        }
    }
}

/// Outcome of the assigned developer starting an assigned task.
pub open spec fn start_outcome(
    before: ContractView,
    after: ContractView,
    task_id: Id,
    developer: Identity,
    r: Result<(), DevAsignError>,
) -> bool {
    if !before.tasks.contains_key(task_id) {
        r == Err::<(), DevAsignError>(DevAsignError::NotFound) && after == before
    } else {
        let t = before.tasks[task_id];
        if t.status != TaskStatus::Assigned {
            r == Err::<(), DevAsignError>(DevAsignError::InvalidState) && after == before
        } else if t.assigned_developer != Some(developer) {
            r == Err::<(), DevAsignError>(DevAsignError::Unauthorized) && after == before
        } else {
            r == Ok::<(), DevAsignError>(()) && after == with_task(
                before,
                task_id,
                TaskView { status: TaskStatus::InProgress, ..t },
            )
        }
    }
}

/// Outcome of the assigned developer finishing a task in progress at time
/// `now`.
pub open spec fn complete_outcome(
    before: ContractView,
    after: ContractView,
    task_id: Id,
    developer: Identity,
    now: u64,
    r: Result<(), DevAsignError>,
) -> bool {
    if !before.tasks.contains_key(task_id) {
        r == Err::<(), DevAsignError>(DevAsignError::NotFound) && after == before
    } else {
        let t = before.tasks[task_id];
        if t.status != TaskStatus::InProgress {
            r == Err::<(), DevAsignError>(DevAsignError::InvalidState) && after == before
        } else if t.assigned_developer != Some(developer) {
            r == Err::<(), DevAsignError>(DevAsignError::Unauthorized) && after == before
        } else {
            r == Ok::<(), DevAsignError>(()) && after == with_task(
                before,
                task_id,
                TaskView { status: TaskStatus::Completed, completion_date: Some(now), ..t },
            )
        }
    }
}

/// Outcome of the project manager approving a completed task: the
/// compensation leaves the manager's escrow balance and is paid to the
/// assigned developer.
pub open spec fn approve_outcome(
    before: ContractView,
    after: ContractView,
    task_id: Id,
    manager: Identity,
    r: Result<Payout, DevAsignError>,
) -> bool {
    if !before.tasks.contains_key(task_id) {
        r == Err::<Payout, DevAsignError>(DevAsignError::NotFound) && after == before
    } else {
        let t = before.tasks[task_id];
        if before.projects[t.project_id].manager != manager {
            r == Err::<Payout, DevAsignError>(DevAsignError::Unauthorized) && after == before
        } else if t.status != TaskStatus::Completed {
            r == Err::<Payout, DevAsignError>(DevAsignError::InvalidState) && after == before
        } else if balance_in(before.escrow, manager) < t.compensation {
            r == Err::<Payout, DevAsignError>(DevAsignError::InsufficientEscrow) && after
                == before
        } else {
            &&& r == Ok::<Payout, DevAsignError>(
                Payout { from: manager, to: t.assigned_developer.unwrap(), amount: t.compensation },
            )
            &&& after == ContractView {
                tasks: before.tasks.insert(task_id, TaskView { status: TaskStatus::Approved, ..t }),
                escrow: before.escrow.insert(
                    manager,
                    (balance_in(before.escrow, manager) - t.compensation) as i128,
                ),
                ..before
            }
        }
    }
}

/// What reading a task returns: its record exactly when it exists.
pub open spec fn task_read(v: ContractView, task_id: Id, r: Option<Task>) -> bool {
    &&& (r is Some <==> v.tasks.contains_key(task_id))
    &&& (r is Some ==> r.unwrap()@ == v.tasks[task_id])
}

/// What reading a project returns: its record exactly when it exists.
pub open spec fn project_read(v: ContractView, project_id: Id, r: Option<Project>) -> bool {
    &&& (r is Some <==> v.projects.contains_key(project_id))
    &&& (r is Some ==> r.unwrap()@ == v.projects[project_id])
}

/// The big-endian bytes of a timestamp.
pub open spec fn be_bytes_of(x: u64) -> Seq<u8> {
    seq![
        (x >> 56u64) as u8,
        (x >> 48u64) as u8,
        (x >> 40u64) as u8,
        (x >> 32u64) as u8,
        (x >> 24u64) as u8,
        (x >> 16u64) as u8,
        (x >> 8u64) as u8,
        x as u8,
    ]
}

/// The identifier of a project made at time `ts`.
pub open spec fn project_id_at(ts: u64) -> Seq<u8> {
    host::sha256_of(be_bytes_of(ts))
}

/// The identifier of a task made in project `project_id` at time `ts`.
pub open spec fn task_id_at(project_id: Id, ts: u64) -> Seq<u8> {
    host::sha256_of(project_id@ + be_bytes_of(ts))
}

/// The big-endian bytes of a timestamp.
pub fn be_bytes(x: u64) -> (r: Vec<u8>)
    ensures
        r@ == be_bytes_of(x),
{
    let r = vec![
        (x >> 56u64) as u8,
        (x >> 48u64) as u8,
        (x >> 40u64) as u8,
        (x >> 32u64) as u8,
        (x >> 24u64) as u8,
        (x >> 16u64) as u8,
        (x >> 8u64) as u8,
        x as u8,
    ];
    assert(r@ =~= be_bytes_of(x));
    r
}

/// The sequence holds the identity.
pub fn contains_identity(v: &Vec<Identity>, who: &Identity) -> (r: bool)
    ensures
        r == v@.contains(*who),
{
    let mut i: usize = 0;
    while i < v.len()
        invariant
            0 <= i <= v@.len(),
            forall|k: int| 0 <= k < i ==> v@[k] != *who,
        decreases v@.len() - i,
    {
        if same_id(&v[i], who) {
            assert(v@[i as int] == *who);
            return true;
        }
        i = i + 1;
    }
    false
}

/// Projects, tasks and escrow of the workflow.
pub struct DevAsignContract {
    projects: Vec<Project>,
    project_tasks: Vec<Vec<Id>>,
    tasks: Vec<Task>,
    escrow: EscrowLedger,
    project_map: Ghost<Map<Id, ProjectView>>,
    index_map: Ghost<Map<Id, Seq<Id>>>,
    task_map: Ghost<Map<Id, TaskView>>,
}

impl View for DevAsignContract {
    type V = ContractView;

    closed spec fn view(&self) -> ContractView {
        ContractView {
            projects: self.project_map@,
            project_tasks: self.index_map@,
            tasks: self.task_map@,
            escrow: self.escrow@,
        }
    }
}

impl DevAsignContract {
    closed spec fn projects_linked(&self) -> bool {
        &&& self.project_tasks@.len() == self.projects@.len()
        &&& forall|k: Id|
            self.project_map@.contains_key(k) <==> exists|i: int|
                0 <= i < self.projects@.len() && (#[trigger] self.projects@[i]).id == k
        &&& forall|i: int|
            0 <= i < self.projects@.len() ==> {
                &&& self.project_map@.contains_key((#[trigger] self.projects@[i]).id)
                &&& self.project_map@[self.projects@[i].id] == self.projects@[i]@
                &&& self.index_map@.contains_key(self.projects@[i].id)
                &&& self.index_map@[self.projects@[i].id] == self.project_tasks@[i]@
            }
        &&& forall|i: int, j: int|
            0 <= i < self.projects@.len() && 0 <= j < self.projects@.len() && (#[trigger] self.projects@[i]).id
                == (#[trigger] self.projects@[j]).id ==> i == j
    }

    closed spec fn tasks_linked(&self) -> bool {
        &&& forall|k: Id|
            self.task_map@.contains_key(k) <==> exists|i: int|
                0 <= i < self.tasks@.len() && (#[trigger] self.tasks@[i]).id == k
        &&& forall|i: int|
            0 <= i < self.tasks@.len() ==> {
                &&& self.task_map@.contains_key((#[trigger] self.tasks@[i]).id)
                &&& self.task_map@[self.tasks@[i].id] == self.tasks@[i]@
            }
        &&& forall|i: int, j: int|
            0 <= i < self.tasks@.len() && 0 <= j < self.tasks@.len() && (#[trigger] self.tasks@[i]).id
                == (#[trigger] self.tasks@[j]).id ==> i == j
    }

    /// The stored records agree with the view, and the view is consistent.
    pub closed spec fn wf(&self) -> bool {
        &&& self.projects_linked()
        &&& self.tasks_linked()
        &&& self.escrow.wf()
        &&& consistent(self@)
    }

    /// A well-formed store is consistent.
    pub proof fn lemma_consistent(&self)
        requires
            self.wf(),
        ensures
            consistent(self@),
    {
    }

    /// An empty store.
    pub fn new() -> (r: DevAsignContract)
        ensures
            r.wf(),
            r@.projects == Map::<Id, ProjectView>::empty(),
            r@.project_tasks == Map::<Id, Seq<Id>>::empty(),
            r@.tasks == Map::<Id, TaskView>::empty(),
            r@.escrow == Map::<Identity, i128>::empty(),
    {
        let r = DevAsignContract {
            projects: Vec::new(),
            project_tasks: Vec::new(),
            tasks: Vec::new(),
            escrow: EscrowLedger::new(),
            project_map: Ghost(Map::empty()),
            index_map: Ghost(Map::empty()),
            task_map: Ghost(Map::empty()),
        };
        assert(consistent(r@));
        r
    }

    fn find_project(&self, id: &Id) -> (r: Option<usize>)
        requires
            self.wf(),
        ensures
            match r {
                Some(i) => {
                    &&& i < self.projects@.len()
                    &&& self.projects@[i as int].id == *id
                    &&& self@.projects.contains_key(*id)
                    &&& self@.projects[*id] == self.projects@[i as int]@
                    &&& self@.project_tasks[*id] == self.project_tasks@[i as int]@
                },
                None => !self@.projects.contains_key(*id),
            },
    {
        let mut i: usize = 0;
        while i < self.projects.len()
            invariant
                self.wf(),
                0 <= i <= self.projects@.len(),
                forall|k: int| 0 <= k < i ==> (#[trigger] self.projects@[k]).id != *id,
            decreases self.projects@.len() - i,
        {
            if same_id(&self.projects[i].id, id) {
                return Some(i);
            }
            i = i + 1;
        }
        None
    }

    fn find_task(&self, id: &Id) -> (r: Option<usize>)
        requires
            self.wf(),
        ensures
            match r {
                Some(i) => {
                    &&& i < self.tasks@.len()
                    &&& self.tasks@[i as int].id == *id
                    &&& self@.tasks.contains_key(*id)
                    &&& self@.tasks[*id] == self.tasks@[i as int]@
                },
                None => !self@.tasks.contains_key(*id),
            },
    {
        let mut i: usize = 0;
        while i < self.tasks.len()
            invariant
                self.wf(),
                0 <= i <= self.tasks@.len(),
                forall|k: int| 0 <= k < i ==> (#[trigger] self.tasks@[k]).id != *id,
            decreases self.tasks@.len() - i,
        {
            if same_id(&self.tasks[i].id, id) {
                return Some(i);
            }
            i = i + 1;
        }
        None
    }
    /// Puts a changed task record back in its place.
    fn replace_task(&mut self, i: usize, t: Task)
        requires
            old(self).wf(),
            i < old(self).tasks@.len(),
            t.id == old(self).tasks@[i as int].id,
            t.project_id == old(self).tasks@[i as int].project_id,
            task_consistent(t@),
            t.compensation > 0,
        ensures
            final(self).wf(),
            final(self)@ == with_task(old(self)@, t.id, t@),
    {
        let ghost tv = t@;
        self.tasks.set(i, t);
        self.task_map = Ghost(self.task_map@.insert(tv.id, tv));
        assert forall|k: Id|
            self.task_map@.contains_key(k) implies exists|j: int|
                0 <= j < self.tasks@.len() && (#[trigger] self.tasks@[j]).id == k by {
            if k != tv.id {
                assert(old(self).task_map@.contains_key(k));
                let j = choose|j: int|
                    0 <= j < old(self).tasks@.len() && (#[trigger] old(self).tasks@[j]).id == k;
                assert(self.tasks@[j].id == k);
            } else {
                assert(self.tasks@[i as int].id == k);
            }
        }
        assert(self.tasks_linked());
        let ghost v = self@;
        assert forall|k: Id, j: int|
            v.project_tasks.contains_key(k) && 0 <= j < v.project_tasks[k].len() implies {
                &&& v.tasks.contains_key(#[trigger] v.project_tasks[k][j])
                &&& v.tasks[v.project_tasks[k][j]].project_id == k
            } by {
            let ov = old(self)@;
            assert(ov.tasks.contains_key(ov.project_tasks[k][j]));
        }
        assert(consistent(self@));
    }

    /// Adds a fresh project with an empty index.
    fn push_project(&mut self, p: Project)
        requires
            old(self).wf(),
            !old(self)@.projects.contains_key(p.id),
            p.total_tasks == 0,
        ensures
            final(self).wf(),
            final(self)@ == (ContractView {
                projects: old(self)@.projects.insert(p.id, p@),
                project_tasks: old(self)@.project_tasks.insert(p.id, Seq::empty()),
                ..old(self)@
            }),
    {
        let ghost pv = p@;
        let empty: Vec<Id> = Vec::new();
        self.projects.push(p);
        self.project_tasks.push(empty);
        self.project_map = Ghost(self.project_map@.insert(pv.id, pv));
        self.index_map = Ghost(self.index_map@.insert(pv.id, Seq::empty()));
        let ghost n = old(self).projects@.len() as int;
        assert forall|k: Id|
            self.project_map@.contains_key(k) implies exists|j: int|
                0 <= j < self.projects@.len() && (#[trigger] self.projects@[j]).id == k by {
            if k != pv.id {
                assert(old(self).project_map@.contains_key(k));
                let j = choose|j: int|
                    0 <= j < old(self).projects@.len() && (#[trigger] old(self).projects@[j]).id
                        == k;
                assert(self.projects@[j].id == k);
            } else {
                assert(self.projects@[n].id == k);
            }
        }
        assert forall|i: int, j: int|
            0 <= i < self.projects@.len() && 0 <= j < self.projects@.len() && (#[trigger] self.projects@[i]).id
                == (#[trigger] self.projects@[j]).id implies i == j by {
            if i < n {
                assert(old(self).project_map@.contains_key(old(self).projects@[i].id));
            }
            if j < n {
                assert(old(self).project_map@.contains_key(old(self).projects@[j].id));
            }
        }
        assert forall|i: int| 0 <= i < self.projects@.len() implies {
            &&& self.project_map@.contains_key((#[trigger] self.projects@[i]).id)
            &&& self.project_map@[self.projects@[i].id] == self.projects@[i]@
            &&& self.index_map@.contains_key(self.projects@[i].id)
            &&& self.index_map@[self.projects@[i].id] == self.project_tasks@[i]@
        } by {
            if i < n {
                assert(old(self).project_map@.contains_key(old(self).projects@[i].id));
            } else {
                assert(self.project_tasks@[i]@ =~= Seq::<Id>::empty());
            }
        }
        assert(self.projects_linked());
        assert(consistent(self@));
    }

    /// Adds a fresh open task to project number `pi`: the project counts it
    /// and its index names it last.
    fn push_task(&mut self, pi: usize, t: Task)
        requires
            old(self).wf(),
            pi < old(self).projects@.len(),
            t.project_id == old(self).projects@[pi as int].id,
            !old(self)@.tasks.contains_key(t.id),
            task_consistent(t@),
            t.compensation > 0,
            old(self).projects@[pi as int].total_tasks < u32::MAX,
        ensures
            final(self).wf(),
            ({
                let ov = old(self)@;
                let pid = t.project_id;
                final(self)@ == ContractView {
                    projects: ov.projects.insert(
                        pid,
                        ProjectView {
                            total_tasks: (ov.projects[pid].total_tasks + 1) as u32,
                            ..ov.projects[pid]
                        },
                    ),
                    project_tasks: ov.project_tasks.insert(pid, ov.project_tasks[pid].push(t.id)),
                    tasks: ov.tasks.insert(t.id, t@),
                    escrow: ov.escrow,
                }
            }),
    {
        let ghost tv = t@;
        let ghost ov = old(self)@;
        let tid = t.id;
        let pid = t.project_id;
        assert(self.project_map@.contains_key(self.projects@[pi as int].id));
        // the task record
        self.tasks.push(t);
        self.task_map = Ghost(self.task_map@.insert(tid, tv));
        let ghost nt = old(self).tasks@.len() as int;
        assert forall|k: Id|
            self.task_map@.contains_key(k) implies exists|j: int|
                0 <= j < self.tasks@.len() && (#[trigger] self.tasks@[j]).id == k by {
            if k != tid {
                assert(old(self).task_map@.contains_key(k));
                let j = choose|j: int|
                    0 <= j < old(self).tasks@.len() && (#[trigger] old(self).tasks@[j]).id == k;
                assert(self.tasks@[j].id == k);
            } else {
                assert(self.tasks@[nt].id == k);
            }
        }
        assert forall|i: int, j: int|
            0 <= i < self.tasks@.len() && 0 <= j < self.tasks@.len() && (#[trigger] self.tasks@[i]).id
                == (#[trigger] self.tasks@[j]).id implies i == j by {
            if i < nt {
                assert(old(self).task_map@.contains_key(old(self).tasks@[i].id));
            }
            if j < nt {
                assert(old(self).task_map@.contains_key(old(self).tasks@[j].id));
            }
        }
        assert(self.tasks_linked());
        // the index
        let mut list = copy_identities(&self.project_tasks[pi]);
        list.push(tid);
        let ghost lv = list@;
        self.project_tasks.set(pi, list);
        self.index_map = Ghost(self.index_map@.insert(pid, lv));
        // the counter
        let mut p = self.projects[pi].snapshot();
        p.total_tasks = p.total_tasks + 1;
        let ghost pv = p@;
        self.projects.set(pi, p);
        self.project_map = Ghost(self.project_map@.insert(pid, pv));
        assert forall|k: Id|
            self.project_map@.contains_key(k) implies exists|j: int|
                0 <= j < self.projects@.len() && (#[trigger] self.projects@[j]).id == k by {
            if k != pid {
                assert(old(self).project_map@.contains_key(k));
                let j = choose|j: int|
                    0 <= j < old(self).projects@.len() && (#[trigger] old(self).projects@[j]).id
                        == k;
                assert(self.projects@[j].id == k);
            } else {
                assert(self.projects@[pi as int].id == k);
            }
        }
        assert forall|i: int| 0 <= i < self.projects@.len() implies {
            &&& self.project_map@.contains_key((#[trigger] self.projects@[i]).id)
            &&& self.project_map@[self.projects@[i].id] == self.projects@[i]@
            &&& self.index_map@.contains_key(self.projects@[i].id)
            &&& self.index_map@[self.projects@[i].id] == self.project_tasks@[i]@
        } by {
            if i != pi {
                assert(old(self).project_map@.contains_key(old(self).projects@[i].id));
                assert(old(self).projects@[i].id != pid);
            }
        }
        assert(self.projects_linked());
        let ghost v = self@;
        assert(v.projects[pid] == (ProjectView {
            total_tasks: (ov.projects[pid].total_tasks + 1) as u32,
            ..ov.projects[pid]
        }));
        assert forall|k: Id, j: int|
            v.project_tasks.contains_key(k) && 0 <= j < v.project_tasks[k].len() implies {
                &&& v.tasks.contains_key(#[trigger] v.project_tasks[k][j])
                &&& v.tasks[v.project_tasks[k][j]].project_id == k
            } by {
            if k != pid || j < ov.project_tasks[pid].len() {
                assert(ov.tasks.contains_key(ov.project_tasks[k][j]));
            }
        }
        assert(consistent(self@));
        assert(self@.project_tasks =~= ov.project_tasks.insert(pid, ov.project_tasks[pid].push(tid)));
    }
    /// Registers a project under a given identifier for `manager`.
    pub fn insert_project(
        &mut self,
        project_id: Id,
        manager: Identity,
        name: String,
        repository_url: String,
    ) -> (r: Result<Id, DevAsignError>)
        requires
            old(self).wf(),
        ensures
            final(self).wf(),
            project_outcome(
                old(self)@,
                final(self)@,
                project_id,
                manager,
                name@,
                repository_url@,
                r,
            ),
    {
        if self.find_project(&project_id).is_some() {
            return Err(DevAsignError::IdCollision);
        }
        let p = Project { id: project_id, name, manager, repository_url, total_tasks: 0 };
        self.push_project(p);
        Ok(project_id)
    }

    /// Creates a project for `manager`, identified by the digest of the
    /// current ledger time.
    pub fn create_project(
        &mut self,
        env: &soroban_sdk::Env,
        manager: Identity,
        name: String,
        repository_url: String,
    ) -> (r: Result<Id, DevAsignError>)
        requires
            old(self).wf(),
        ensures
            final(self).wf(),
            exists|id: Id|
                #![trigger id@]
                (exists|ts: u64| id@ == #[trigger] project_id_at(ts)) && project_outcome(
                    old(self)@,
                    final(self)@,
                    id,
                    manager,
                    name@,
                    repository_url@,
                    r,
                ),
    {
        let ts = host::ledger_timestamp(env);
        let preimage = be_bytes(ts);
        let id = host::sha256(env, &preimage);
        assert(id@ == project_id_at(ts));
        self.insert_project(id, manager, name, repository_url)
    }

    /// Creates an open task under a given identifier in a project of
    /// `manager`, and places its compensation in escrow for the manager.
    pub fn insert_task(
        &mut self,
        task_id: Id,
        project_id: Id,
        title: String,
        description: String,
        compensation: i128,
        manager: Identity,
    ) -> (r: Result<Id, DevAsignError>)
        requires
            old(self).wf(),
        ensures
            final(self).wf(),
            task_outcome(
                old(self)@,
                final(self)@,
                task_id,
                project_id,
                title@,
                description@,
                compensation,
                manager,
                r,
            ),
    {
        let pi = match self.find_project(&project_id) {
            Some(pi) => pi,
            None => return Err(DevAsignError::NotFound),
        };
        if !same_id(&self.projects[pi].manager, &manager) {
            return Err(DevAsignError::Unauthorized);
        }
        if compensation <= 0 {
            return Err(DevAsignError::InvalidAmount);
        }
        if self.find_task(&task_id).is_some() {
            return Err(DevAsignError::IdCollision);
        }
        if self.projects[pi].total_tasks == u32::MAX {
            return Err(DevAsignError::InvalidState);
        }
        let ghost ov = self@;
        proof {
            self.escrow.lemma_view_nonnegative();
        }
        match self.escrow.deposit(&manager, compensation) {
            Ok(()) => {},
            Err(e) => return Err(e),
        }
        assert(consistent(self@));
        let t = Task {
            id: task_id,
            title,
            description,
            compensation,
            project_id,
            status: TaskStatus::Open,
            applicants: Vec::new(),
            assigned_developer: None,
            completion_date: None,
        };
        assert(t@.applicants =~= Seq::<Identity>::empty());
        self.push_task(pi, t);
        Ok(task_id)
    }

    /// Creates an open task in a project of `manager`, identified by the
    /// digest of the project identifier and the current ledger time, and
    /// places its compensation in escrow for the manager. The host must move
    /// the compensation from the manager into custody.
    pub fn create_task(
        &mut self,
        env: &soroban_sdk::Env,
        project_id: Id,
        title: String,
        description: String,
        compensation: i128,
        manager: Identity,
    ) -> (r: Result<Id, DevAsignError>)
        requires
            old(self).wf(),
        ensures
            final(self).wf(),
            exists|id: Id|
                #![trigger id@]
                (exists|ts: u64| id@ == #[trigger] task_id_at(project_id, ts)) && task_outcome(
                    old(self)@,
                    final(self)@,
                    id,
                    project_id,
                    title@,
                    description@,
                    compensation,
                    manager,
                    r,
                ),
    {
        let ts = host::ledger_timestamp(env);
        let mut preimage: Vec<u8> = Vec::new();
        let mut i: usize = 0;
        while i < 32
            invariant
                0 <= i <= 32,
                preimage@ == project_id@.subrange(0, i as int),
            decreases 32 - i,
        {
            preimage.push(project_id[i]);
            i = i + 1;
            assert(preimage@ =~= project_id@.subrange(0, i as int));
        }
        let mut stamp = be_bytes(ts);
        preimage.append(&mut stamp);
        assert(preimage@ =~= project_id@ + be_bytes_of(ts));
        let id = host::sha256(env, &preimage);
        assert(id@ == task_id_at(project_id, ts));
        self.insert_task(id, project_id, title, description, compensation, manager)
    }

    /// A developer applies for an open task.
    pub fn apply_for_task(
        &mut self,
        task_id: Id,
        developer: Identity,
        _expected_completion: u64,
    ) -> (r: Result<(), DevAsignError>)
        requires
            old(self).wf(),
        ensures
            final(self).wf(),
            apply_outcome(old(self)@, final(self)@, task_id, developer, r),
    {
        let i = match self.find_task(&task_id) {
            Some(i) => i,
            None => return Err(DevAsignError::NotFound),
        };
        if self.tasks[i].status != TaskStatus::Open {
            return Err(DevAsignError::InvalidState);
        }
        if contains_identity(&self.tasks[i].applicants, &developer) {
            return Err(DevAsignError::DuplicateApplication);
        }
        let mut t = self.tasks[i].snapshot();
        let ghost before = t@.applicants;
        t.applicants.push(developer);
        assert(no_duplicates(t@.applicants)) by {
            assert forall|a: int, b: int|
                0 <= a < t@.applicants.len() && 0 <= b < t@.applicants.len()
                    && t@.applicants[a] == t@.applicants[b] implies a == b by {
                if a < before.len() && b == before.len() {
                    assert(before.contains(before[a]));
                }
                if b < before.len() && a == before.len() {
                    assert(before.contains(before[b]));
                }
            }
        }
        self.replace_task(i, t);
        Ok(())
    }

    /// The project manager assigns an open task to one of its applicants.
    pub fn approve_application(
        &mut self,
        task_id: Id,
        developer: Identity,
        manager: Identity,
    ) -> (r: Result<(), DevAsignError>)
        requires
            old(self).wf(),
        ensures
            final(self).wf(),
            assign_outcome(old(self)@, final(self)@, task_id, developer, manager, r),
    {
        let i = match self.find_task(&task_id) {
            Some(i) => i,
            None => return Err(DevAsignError::NotFound),
        };
        let pi = match self.find_project(&self.tasks[i].project_id) {
            Some(pi) => pi,
            None => return Err(DevAsignError::NotFound),
        };
        if !same_id(&self.projects[pi].manager, &manager) {
            return Err(DevAsignError::Unauthorized);
        }
        if self.tasks[i].status != TaskStatus::Open {
            return Err(DevAsignError::InvalidState);
        }
        if !contains_identity(&self.tasks[i].applicants, &developer) {
            return Err(DevAsignError::InvalidState);
        }
        let mut t = self.tasks[i].snapshot();
        t.status = TaskStatus::Assigned;
        t.assigned_developer = Some(developer);
        self.replace_task(i, t);
        Ok(())
    }

    /// The assigned developer starts an assigned task.
    pub fn start_task(&mut self, task_id: Id, developer: Identity) -> (r: Result<
        (),
        DevAsignError,
    >)
        requires
            old(self).wf(),
        ensures
            final(self).wf(),
            start_outcome(old(self)@, final(self)@, task_id, developer, r),
    {
        let i = match self.find_task(&task_id) {
            Some(i) => i,
            None => return Err(DevAsignError::NotFound),
        };
        if self.tasks[i].status != TaskStatus::Assigned {
            return Err(DevAsignError::InvalidState);
        }
        if !self.is_assignee(i, &developer) {
            return Err(DevAsignError::Unauthorized);
        }
        let mut t = self.tasks[i].snapshot();
        t.status = TaskStatus::InProgress;
        self.replace_task(i, t);
        Ok(())
    }

    /// The assigned developer finishes a task in progress at time `now`.
    pub fn complete_task_at(&mut self, task_id: Id, developer: Identity, now: u64) -> (r: Result<
        (),
        DevAsignError,
    >)
        requires
            old(self).wf(),
        ensures
            final(self).wf(),
            complete_outcome(old(self)@, final(self)@, task_id, developer, now, r),
    {
        let i = match self.find_task(&task_id) {
            Some(i) => i,
            None => return Err(DevAsignError::NotFound),
        };
        if self.tasks[i].status != TaskStatus::InProgress {
            return Err(DevAsignError::InvalidState);
        }
        if !self.is_assignee(i, &developer) {
            return Err(DevAsignError::Unauthorized);
        }
        let mut t = self.tasks[i].snapshot();
        t.status = TaskStatus::Completed;
        t.completion_date = Some(now);
        self.replace_task(i, t);
        Ok(())
    }

    /// The assigned developer finishes a task in progress; the completion
    /// time is the current ledger time.
    pub fn mark_task_completed(
        &mut self,
        env: &soroban_sdk::Env,
        task_id: Id,
        developer: Identity,
    ) -> (r: Result<(), DevAsignError>)
        requires
            old(self).wf(),
        ensures
            final(self).wf(),
            exists|now: u64| complete_outcome(old(self)@, final(self)@, task_id, developer, now, r),
    {
        let now = host::ledger_timestamp(env);
        self.complete_task_at(task_id, developer, now)
    }

    /// The project manager approves a completed task. The compensation leaves
    /// the manager's escrow balance, and the returned payout tells the host to
    /// pay it to the assigned developer.
    pub fn approve_completion(&mut self, task_id: Id, manager: Identity) -> (r: Result<
        Payout,
        DevAsignError,
    >)
        requires
            old(self).wf(),
        ensures
            final(self).wf(),
            approve_outcome(old(self)@, final(self)@, task_id, manager, r),
    {
        let i = match self.find_task(&task_id) {
            Some(i) => i,
            None => return Err(DevAsignError::NotFound),
        };
        let pi = match self.find_project(&self.tasks[i].project_id) {
            Some(pi) => pi,
            None => return Err(DevAsignError::NotFound),
        };
        if !same_id(&self.projects[pi].manager, &manager) {
            return Err(DevAsignError::Unauthorized);
        }
        if self.tasks[i].status != TaskStatus::Completed {
            return Err(DevAsignError::InvalidState);
        }
        let developer = match self.tasks[i].assigned_developer {
            Some(d) => d,
            None => return Err(DevAsignError::InvalidState),
        };
        let amount = self.tasks[i].compensation;
        match self.escrow.release(&manager, amount) {
            Ok(()) => {},
            Err(e) => return Err(e),
        }
        assert(consistent(self@));
        let mut t = self.tasks[i].snapshot();
        t.status = TaskStatus::Approved;
        self.replace_task(i, t);
        Ok(Payout { from: manager, to: developer, amount })
    }

    fn is_assignee(&self, i: usize, developer: &Identity) -> (r: bool)
        requires
            i < self.tasks@.len(),
        ensures
            r == (self.tasks@[i as int].assigned_developer == Some(*developer)),
    {
        match &self.tasks[i].assigned_developer {
            Some(d) => same_id(d, developer),
            None => false,
        }
    }

    /// The task record, if the task exists.
    pub fn get_task(&self, task_id: Id) -> (r: Option<Task>)
        requires
            self.wf(),
        ensures
            task_read(self@, task_id, r),
    {
        match self.find_task(&task_id) {
            Some(i) => Some(self.tasks[i].snapshot()),
            None => None,
        }
    }

    /// The project record, if the project exists.
    pub fn get_project(&self, project_id: Id) -> (r: Option<Project>)
        requires
            self.wf(),
        ensures
            project_read(self@, project_id, r),
    {
        match self.find_project(&project_id) {
            Some(i) => Some(self.projects[i].snapshot()),
            None => None,
        }
    }

    /// The tasks of a project in the order they were created; none for an
    /// unknown project.
    pub fn get_project_tasks(&self, project_id: Id) -> (r: Vec<Task>)
        requires
            self.wf(),
        ensures
            !self@.projects.contains_key(project_id) ==> r@.len() == 0,
            self@.projects.contains_key(project_id) ==> {
                &&& r@.len() == self@.project_tasks[project_id].len()
                &&& forall|j: int|
                    0 <= j < r@.len() ==> (#[trigger] r@[j])@ == self@.tasks[self@.project_tasks[project_id][j]]
            },
    {
        let mut r: Vec<Task> = Vec::new();
        let pi = match self.find_project(&project_id) {
            Some(pi) => pi,
            None => return r,
        };
        let ghost ids = self@.project_tasks[project_id];
        let ids_ref = &self.project_tasks[pi];
        let mut j: usize = 0;
        while j < ids_ref.len()
            invariant
                self.wf(),
                ids_ref@ == ids,
                self@.project_tasks.contains_key(project_id),
                ids == self@.project_tasks[project_id],
                0 <= j <= ids.len(),
                r@.len() == j,
                forall|k: int| 0 <= k < j ==> (#[trigger] r@[k])@ == self@.tasks[ids[k]],
            decreases ids.len() - j,
        {
            proof {
                self.lemma_consistent();
            }
            assert(self@.tasks.contains_key(ids[j as int]));
            match self.find_task(&ids_ref[j]) {
                Some(i) => r.push(self.tasks[i].snapshot()),
                None => {},
            }
            j = j + 1;
        }
        r
    }

    /// The payer's escrow balance.
    pub fn escrow_balance(&self, who: Identity) -> (r: i128)
        requires
            self.wf(),
        ensures
            r as int == balance_in(self@.escrow, who),
    {
        self.escrow.balance_of(&who)
    }
}

} // verus!
