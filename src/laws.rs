//! Properties of the workflow that relate several operations or hold of
//! every outcome, proved from the operations' contracts.

use vstd::prelude::*;
use crate::contract::{
    apply_outcome, approve_outcome, assign_outcome, balance_in, complete_outcome, consistent,
    project_outcome, project_read, start_outcome, task_outcome, task_read, ContractView,
};
use crate::model::{no_duplicates, DevAsignError, Id, Identity, Payout, Project, Task, TaskStatus};

verus! {

/// A project that was just created exists, has no task yet, and is managed
/// by the identity that created it.
pub proof fn law_new_project(
    before: ContractView,
    after: ContractView,
    id: Id,
    manager: Identity,
    name: Seq<char>,
    repository_url: Seq<char>,
    r: Result<Id, DevAsignError>,
)
    requires
        project_outcome(before, after, id, manager, name, repository_url, r),
        r is Ok,
    ensures
        r == Ok::<Id, DevAsignError>(id),
        after.projects.contains_key(id),
        after.projects[id].total_tasks == 0,
        after.projects[id].manager == manager,
        after.project_tasks[id] == Seq::<Id>::empty(),
{
}

/// After tasks are created one by one in a project that had none, the
/// project counts exactly as many tasks, and its index lists their
/// identifiers in the order of creation.
pub proof fn law_task_count(
    states: Seq<ContractView>,
    project_id: Id,
    ids: Seq<Id>,
    titles: Seq<Seq<char>>,
    descriptions: Seq<Seq<char>>,
    compensations: Seq<i128>,
    manager: Identity,
)
    requires
        states.len() == ids.len() + 1,
        titles.len() == ids.len(),
        descriptions.len() == ids.len(),
        compensations.len() == ids.len(),
        states[0].projects.contains_key(project_id),
        states[0].projects[project_id].total_tasks == 0,
        states[0].project_tasks[project_id] == Seq::<Id>::empty(),
        forall|i: int|
            0 <= i < ids.len() ==> task_outcome(
                #[trigger] states[i],
                states[i + 1],
                ids[i],
                project_id,
                titles[i],
                descriptions[i],
                compensations[i],
                manager,
                Ok::<Id, DevAsignError>(ids[i]),
            ),
    ensures
        states.last().projects.contains_key(project_id),
        states.last().projects[project_id].total_tasks == ids.len(),
        states.last().project_tasks[project_id] == ids,
    decreases ids.len(),
{
    if ids.len() > 0 {
        let n = ids.len() - 1;
        assert(task_outcome(
            states[n],
            states[n + 1],
            ids[n],
            project_id,
            titles[n],
            descriptions[n],
            compensations[n],
            manager,
            Ok::<Id, DevAsignError>(ids[n]),
        ));
        law_task_count(
            states.drop_last(),
            project_id,
            ids.drop_last(),
            titles.drop_last(),
            descriptions.drop_last(),
            compensations.drop_last(),
            manager,
        );
        assert(ids.drop_last().push(ids[n]) =~= ids);
    } else {
        assert(ids =~= Seq::<Id>::empty());
    }
}

/// A developer who has applied for a task cannot apply again: the second
/// application is refused and changes nothing, and no state consistent with
/// the invariants lists an applicant twice.
pub proof fn law_no_duplicate_application(
    s0: ContractView,
    s1: ContractView,
    s2: ContractView,
    task_id: Id,
    developer: Identity,
    r1: Result<(), DevAsignError>,
    r2: Result<(), DevAsignError>,
)
    requires
        apply_outcome(s0, s1, task_id, developer, r1),
        r1 is Ok,
        apply_outcome(s1, s2, task_id, developer, r2),
    ensures
        r2 == Err::<(), DevAsignError>(DevAsignError::DuplicateApplication),
        s2 == s1,
        consistent(s2) ==> no_duplicates(s2.tasks[task_id].applicants),
{
    let apps = s0.tasks[task_id].applicants.push(developer);
    assert(apps[apps.len() - 1] == developer);
    assert(apps.contains(developer));
}

/// Assignment takes an open task and the project's manager: on success the
/// task was open and becomes assigned; on an open or assigned-later task
/// the manager is refused with an invalid state and nothing changes.
pub proof fn law_assignment_order(
    before: ContractView,
    after: ContractView,
    task_id: Id,
    developer: Identity,
    manager: Identity,
    r: Result<(), DevAsignError>,
)
    requires
        assign_outcome(before, after, task_id, developer, manager, r),
        before.tasks.contains_key(task_id),
    ensures
        r is Ok ==> before.tasks[task_id].status == TaskStatus::Open && after.tasks[task_id].status
            == TaskStatus::Assigned && before.projects[before.tasks[task_id].project_id].manager
            == manager,
        before.projects[before.tasks[task_id].project_id].manager == manager
            && before.tasks[task_id].status != TaskStatus::Open ==> r == Err::<(), DevAsignError>(
            DevAsignError::InvalidState,
        ) && after == before,
{
}

/// Starting takes an assigned task and its assignee: on success the task was
/// assigned and becomes in progress; a task in any other status refuses with
/// an invalid state and nothing changes.
pub proof fn law_start_order(
    before: ContractView,
    after: ContractView,
    task_id: Id,
    developer: Identity,
    r: Result<(), DevAsignError>,
)
    requires
        start_outcome(before, after, task_id, developer, r),
        before.tasks.contains_key(task_id),
    ensures
        r is Ok ==> before.tasks[task_id].status == TaskStatus::Assigned
            && before.tasks[task_id].assigned_developer == Some(developer)
            && after.tasks[task_id].status == TaskStatus::InProgress,
        before.tasks[task_id].status != TaskStatus::Assigned ==> r == Err::<(), DevAsignError>(
            DevAsignError::InvalidState,
        ) && after == before,
{
}

/// Completion takes a task in progress and its assignee: on success the task
/// was in progress and becomes completed; a task in any other status refuses
/// with an invalid state and nothing changes.
pub proof fn law_completion_order(
    before: ContractView,
    after: ContractView,
    task_id: Id,
    developer: Identity,
    now: u64,
    r: Result<(), DevAsignError>,
)
    requires
        complete_outcome(before, after, task_id, developer, now, r),
        before.tasks.contains_key(task_id),
    ensures
        r is Ok ==> before.tasks[task_id].status == TaskStatus::InProgress
            && before.tasks[task_id].assigned_developer == Some(developer)
            && after.tasks[task_id].status == TaskStatus::Completed,
        before.tasks[task_id].status != TaskStatus::InProgress ==> r == Err::<
            (),
            DevAsignError,
        >(DevAsignError::InvalidState) && after == before,
{
}

/// Approval takes a completed task and the project's manager: on success the
/// task was completed and becomes approved; the manager is refused with an
/// invalid state on a task in any other status, and nothing changes.
pub proof fn law_approval_order(
    before: ContractView,
    after: ContractView,
    task_id: Id,
    manager: Identity,
    r: Result<Payout, DevAsignError>,
)
    requires
        approve_outcome(before, after, task_id, manager, r),
        before.tasks.contains_key(task_id),
    ensures
        r is Ok ==> before.tasks[task_id].status == TaskStatus::Completed
            && after.tasks[task_id].status == TaskStatus::Approved
            && before.projects[before.tasks[task_id].project_id].manager == manager,
        before.projects[before.tasks[task_id].project_id].manager == manager
            && before.tasks[task_id].status != TaskStatus::Completed ==> r == Err::<
            Payout,
            DevAsignError,
        >(DevAsignError::InvalidState) && after == before,
{
}

/// Applying, assigning, starting and completing leave the escrow ledger and
/// every task's compensation as they were.
pub proof fn law_transitions_keep_escrow(
    before: ContractView,
    after: ContractView,
    task_id: Id,
    developer: Identity,
    manager: Identity,
    now: u64,
    r: Result<(), DevAsignError>,
)
    requires
        apply_outcome(before, after, task_id, developer, r) || assign_outcome(
            before,
            after,
            task_id,
            developer,
            manager,
            r,
        ) || start_outcome(before, after, task_id, developer, r) || complete_outcome(
            before,
            after,
            task_id,
            developer,
            now,
            r,
        ),
    ensures
        after.escrow == before.escrow,
        after.tasks.dom() == before.tasks.dom(),
        forall|k: Id| #[trigger]
            after.tasks.contains_key(k) ==> after.tasks[k].compensation
                == before.tasks[k].compensation,
{
    if before.tasks.contains_key(task_id) {
        assert(before.tasks.insert(task_id, before.tasks[task_id]).dom() =~= before.tasks.dom());
        assert(after.tasks.dom() =~= before.tasks.dom());
    }
}

/// Escrow conservation: what creating a task deposits for the manager,
/// approving it releases again, exactly once, to the assigned developer; a
/// second approval is refused with an invalid state and pays nothing.
pub proof fn law_escrow_conservation(
    s0: ContractView,
    s1: ContractView,
    s2: ContractView,
    s3: ContractView,
    s4: ContractView,
    task_id: Id,
    project_id: Id,
    title: Seq<char>,
    description: Seq<char>,
    compensation: i128,
    manager: Identity,
    r1: Result<Id, DevAsignError>,
    r3: Result<Payout, DevAsignError>,
    r4: Result<Payout, DevAsignError>,
)
    requires
        task_outcome(s0, s1, task_id, project_id, title, description, compensation, manager, r1),
        r1 is Ok,
        s2.escrow == s1.escrow,
        s2.tasks.contains_key(task_id),
        s2.tasks[task_id].compensation == compensation,
        approve_outcome(s2, s3, task_id, manager, r3),
        r3 is Ok,
        approve_outcome(s3, s4, task_id, manager, r4),
    ensures
        balance_in(s1.escrow, manager) == balance_in(s0.escrow, manager) + compensation,
        balance_in(s3.escrow, manager) == balance_in(s2.escrow, manager) - compensation,
        balance_in(s3.escrow, manager) == balance_in(s0.escrow, manager),
        r3.unwrap().from == manager,
        r3.unwrap().to == s2.tasks[task_id].assigned_developer.unwrap(),
        r3.unwrap().amount == compensation,
        r4 == Err::<Payout, DevAsignError>(DevAsignError::InvalidState),
        s4 == s3,
{
}

/// Only the project's manager assigns a task: any other caller is refused as
/// unauthorized and the task, its status included, stays as it was.
pub proof fn law_assignment_needs_manager(
    before: ContractView,
    after: ContractView,
    task_id: Id,
    developer: Identity,
    caller: Identity,
    r: Result<(), DevAsignError>,
)
    requires
        assign_outcome(before, after, task_id, developer, caller, r),
        before.tasks.contains_key(task_id),
        before.projects[before.tasks[task_id].project_id].manager != caller,
    ensures
        r == Err::<(), DevAsignError>(DevAsignError::Unauthorized),
        after == before,
        after.tasks[task_id].status == before.tasks[task_id].status,
{
}

/// Reading a task twice from the same state gives the same record.
pub proof fn law_task_read_repeats(v: ContractView, task_id: Id, r1: Option<Task>, r2: Option<Task>)
    requires
        task_read(v, task_id, r1),
        task_read(v, task_id, r2),
    ensures
        r1 is Some <==> r2 is Some,
        r1 is Some ==> r1.unwrap()@ == r2.unwrap()@,
{
}

/// Reading a project twice from the same state gives the same record.
pub proof fn law_project_read_repeats(
    v: ContractView,
    project_id: Id,
    r1: Option<Project>,
    r2: Option<Project>,
)
    requires
        project_read(v, project_id, r1),
        project_read(v, project_id, r2),
    ensures
        r1 is Some <==> r2 is Some,
        r1 is Some ==> r1.unwrap()@ == r2.unwrap()@,
{
}

/// Position of a status along the lifecycle; the two terminal statuses
/// share the last place.
pub open spec fn stage(s: TaskStatus) -> int {
    match s {
        TaskStatus::Open => 0,
        TaskStatus::Assigned => 1,
        TaskStatus::InProgress => 2,
        TaskStatus::Completed => 3,
        TaskStatus::Approved => 4,
        TaskStatus::Rejected => 4,
    }
}

/// No transition sends a task back: every task that existed still exists,
/// at the same or a later stage of the lifecycle.
pub proof fn law_status_moves_forward(
    before: ContractView,
    after: ContractView,
    task_id: Id,
    developer: Identity,
    manager: Identity,
    now: u64,
    r: Result<(), DevAsignError>,
    payout: Result<Payout, DevAsignError>,
)
    requires
        apply_outcome(before, after, task_id, developer, r) || assign_outcome(
            before,
            after,
            task_id,
            developer,
            manager,
            r,
        ) || start_outcome(before, after, task_id, developer, r) || complete_outcome(
            before,
            after,
            task_id,
            developer,
            now,
            r,
        ) || approve_outcome(before, after, task_id, manager, payout),
    ensures
        forall|k: Id| #[trigger]
            before.tasks.contains_key(k) ==> after.tasks.contains_key(k) && stage(
                after.tasks[k].status,
            ) >= stage(before.tasks[k].status),
{
}

} // verus!
