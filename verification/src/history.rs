//! What holds of a run from its beginning to its end.
//!
//! A history is the sequence of the events that a run was told.

use crate::bpf;
use crate::command;
use crate::compiler;
use crate::identity;
use crate::mounts;
use crate::mounts::StepView;
use crate::run;
use crate::run::{ActionView, ConfigView, EventView, Namespaces, Progress, Stage};
use crate::seccomp;
use crate::text;
use vstd::prelude::*;

verus! {

/// How far a run has come after these events, and what it does next.
pub open spec fn after(c: ConfigView, events: Seq<EventView>) -> (Progress, ActionView)
    decreases events.len(),
{
    if events.len() == 0 {
        run::first_of(c)
    } else {
        run::next_of(c, after(c, events.drop_last()).0, events.last())
    }
}

/// How far a run has come after these events.
pub open spec fn reached(c: ConfigView, events: Seq<EventView>) -> Progress {
    after(c, events).0
}

/// What a run does after these events.
pub open spec fn doing(c: ConfigView, events: Seq<EventView>) -> ActionView {
    after(c, events).1
}

/// Whether each of the events can come of the action before it.
pub open spec fn possible(c: ConfigView, events: Seq<EventView>) -> bool {
    forall|k: int|
        0 <= k < events.len() ==> run::expects(
            reached(c, #[trigger] events.take(k)).stage,
            events[k],
        )
}

/// Whether the event at this position answered this action.
pub open spec fn answered(
    c: ConfigView,
    events: Seq<EventView>,
    k: int,
    action: ActionView,
    event: EventView,
) -> bool {
    0 <= k < events.len() && doing(c, events.take(k)) == action && events[k] == event
}

/// Whether the step was performed at this position, with success where it is
/// required.
pub open spec fn performed(c: ConfigView, events: Seq<EventView>, k: int, step: StepView) -> bool {
    &&& 0 <= k < events.len()
    &&& doing(c, events.take(k)) == ActionView::Perform(step.task)
    &&& step.required ==> events[k] == EventView::Done
}

/// A number that no plan of a run exceeds in length.
pub open spec fn plan_bound(c: ConfigView) -> nat {
    (3 * c.dirs.len() + 7) as nat
}

/// How many events a run can still take.
pub open spec fn rank(c: ConfigView, stage: Stage) -> int {
    let bound = plan_bound(c) as int;
    match stage {
        Stage::Over => 0,
        Stage::Filtering => 1,
        Stage::Pathing => 2,
        Stage::Waiting => 1,
        Stage::Mounting(i) => 2 + bound - i,
        Stage::Forking => 3 + bound,
        Stage::Mapping(i) => 6 + bound - i,
        Stage::OtherNamespaces => 4 + bound,
        Stage::UserNamespace => 7 + bound,
        Stage::Ids => 8 + bound,
        Stage::Exe => 9 + bound,
    }
}

/// The position of the event that told the identity.
pub open spec fn ids_at(c: ConfigView) -> int {
    if c.shims {
        1
    } else {
        0
    }
}

/// The position of the event that told of the fork: without privileges, behind
/// the user namespace and three writes; with them, behind the attempt at a user
/// namespace and the other namespaces.
pub open spec fn fork_at(c: ConfigView, rootless: bool) -> int {
    ids_at(c) + (if rootless {
        5
    } else {
        3int
    })
}

/// All namespaces that a run leaves without privileges.
pub open spec fn every_namespace() -> Namespaces {
    Namespaces { user: true, mount: true, pid: true }
}

/// The namespaces that a run leaves with privileges.
pub open spec fn no_user_namespace() -> Namespaces {
    Namespaces { user: false, mount: true, pid: true }
}

/// The executable was looked up first, where there are shims.
pub open spec fn found_exe(c: ConfigView, events: Seq<EventView>, p: Progress) -> bool {
    &&& c.shims <==> p.exe is Some
    &&& p.exe matches Some(exe) ==> answered(c, events, 0, ActionView::ReadExe, EventView::Exe(exe))
}

/// The identity was read.
pub open spec fn read_ids(c: ConfigView, events: Seq<EventView>, p: Progress) -> bool {
    answered(c, events, ids_at(c), ActionView::ReadIds, EventView::Ids { uid: p.uid, gid: p.gid })
}

/// The user namespace was asked for and granted.
pub open spec fn got_user_namespace(c: ConfigView, events: Seq<EventView>) -> bool {
    answered(c, events, ids_at(c) + 1, ActionView::Unshare(every_namespace()), EventView::Done)
}

/// The user namespace was asked for and not granted.
pub open spec fn lacked_user_namespace(c: ConfigView, events: Seq<EventView>) -> bool {
    let k = ids_at(c) + 1;
    &&& k < events.len()
    &&& doing(c, events.take(k)) == ActionView::Unshare(every_namespace())
    &&& events[k] is Failed
}

/// The first writes of the identity map were made, in order.
pub open spec fn wrote_map(c: ConfigView, events: Seq<EventView>, p: Progress, count: nat) -> bool {
    forall|j: int|
        0 <= j < count ==> answered(
            c,
            events,
            ids_at(c) + 2 + j,
            ActionView::Write(#[trigger] identity::id_map(p.uid, p.gid)[j]),
            EventView::Done,
        )
}

/// Everything that comes before the fork was done.
pub open spec fn isolated(c: ConfigView, events: Seq<EventView>, p: Progress) -> bool {
    &&& found_exe(c, events, p)
    &&& read_ids(c, events, p)
    &&& p.rootless ==> got_user_namespace(c, events) && wrote_map(c, events, p, 3)
    &&& !p.rootless ==> lacked_user_namespace(c, events) && answered(
        c,
        events,
        ids_at(c) + 2,
        ActionView::Unshare(no_user_namespace()),
        EventView::Done,
    )
}

/// The fork was made, this is the child, and the first steps of the mounts were
/// performed, in order.
pub open spec fn performed_steps(
    c: ConfigView,
    events: Seq<EventView>,
    p: Progress,
    count: nat,
) -> bool {
    let fork = fork_at(c, p.rootless);
    &&& answered(c, events, fork, ActionView::Fork, EventView::Child)
    &&& forall|j: int|
        0 <= j < count ==> performed(c, events, fork + 1 + j, #[trigger] run::steps_of(c, p)[j])
}

/// The position behind the mounts.
pub open spec fn mounted_at(c: ConfigView, p: Progress) -> int {
    fork_at(c, p.rootless) + 1 + run::steps_of(c, p).len()
}

/// The position of the event that told of the filter.
pub open spec fn filter_at(c: ConfigView, p: Progress) -> int {
    mounted_at(c, p) + (if p.exe is Some {
        1
    } else {
        0int
    })
}

/// The search path was set, where there are shims.
pub open spec fn set_path(c: ConfigView, events: Seq<EventView>, p: Progress) -> bool {
    p.exe is Some ==> answered(
        c,
        events,
        mounted_at(c, p),
        ActionView::SetPath(run::path_of(c, p)),
        EventView::Done,
    )
}

/// Whether the run ends with this action.
pub open spec fn is_final(action: ActionView) -> bool {
    action is Exec || action is ReturnError || action is Exit || action is Die
}

/// What is known of a run by the stage that it has reached.
spec fn inv(c: ConfigView, events: Seq<EventView>) -> bool {
    let p = reached(c, events);
    let action = doing(c, events);
    let m = events.len() as int;
    let n = run::steps_of(c, p).len();
    match p.stage {
        Stage::Exe => {
            &&& action is ReadExe
            &&& m == 0
            &&& c.shims
            &&& p.exe is None
            &&& !p.rootless
        },
        Stage::Ids => {
            &&& action is ReadIds
            &&& m == ids_at(c)
            &&& found_exe(c, events, p)
            &&& !p.rootless
        },
        Stage::UserNamespace => {
            &&& action == ActionView::Unshare(every_namespace())
            &&& m == ids_at(c) + 1
            &&& found_exe(c, events, p)
            &&& read_ids(c, events, p)
            &&& !p.rootless
        },
        Stage::OtherNamespaces => {
            &&& action == ActionView::Unshare(no_user_namespace())
            &&& m == ids_at(c) + 2
            &&& found_exe(c, events, p)
            &&& read_ids(c, events, p)
            &&& lacked_user_namespace(c, events)
            &&& !p.rootless
        },
        Stage::Mapping(i) => {
            &&& i < 3
            &&& action == ActionView::Write(identity::id_map(p.uid, p.gid)[i as int])
            &&& m == ids_at(c) + 2 + i
            &&& found_exe(c, events, p)
            &&& read_ids(c, events, p)
            &&& got_user_namespace(c, events)
            &&& wrote_map(c, events, p, i)
            &&& p.rootless
        },
        Stage::Forking => {
            &&& action is Fork
            &&& m == fork_at(c, p.rootless)
            &&& isolated(c, events, p)
        },
        Stage::Waiting => {
            &&& action is Wait
            &&& m == fork_at(c, p.rootless) + 1
            &&& isolated(c, events, p)
        },
        Stage::Mounting(i) => {
            &&& i < n
            &&& action == ActionView::Perform(run::steps_of(c, p)[i as int].task)
            &&& m == fork_at(c, p.rootless) + 1 + i
            &&& isolated(c, events, p)
            &&& performed_steps(c, events, p, i)
        },
        Stage::Pathing => {
            &&& action == ActionView::SetPath(run::path_of(c, p))
            &&& m == mounted_at(c, p)
            &&& p.exe is Some
            &&& isolated(c, events, p)
            &&& performed_steps(c, events, p, n)
        },
        Stage::Filtering => {
            &&& action matches ActionView::ApplyFilter(program)
            &&& seccomp::seccomp_outcome(c.numbers, c.arch) == Ok::<_, Seq<char>>(program)
            &&& m == filter_at(c, p)
            &&& isolated(c, events, p)
            &&& performed_steps(c, events, p, n)
            &&& set_path(c, events, p)
        },
        Stage::Over => {
            &&& is_final(action)
            &&& action matches ActionView::Exec(argv) ==> {
                &&& argv == command::command_line_of(c.command, c.shell)
                &&& m == filter_at(c, p) + 1
                &&& isolated(c, events, p)
                &&& performed_steps(c, events, p, n)
                &&& set_path(c, events, p)
                &&& seccomp::seccomp_outcome(c.numbers, c.arch) matches Ok(program) && answered(
                    c,
                    events,
                    filter_at(c, p),
                    ActionView::ApplyFilter(program),
                    EventView::Done,
                )
            }
        },
    }
}

/// What a history says of its past stays true as it grows.
proof fn kept(c: ConfigView, before: Seq<EventView>, e: EventView)
    ensures
        forall|k: int, action: ActionView, event: EventView|
            answered(c, before, k, action, event) ==> #[trigger] answered(
                c,
                before.push(e),
                k,
                action,
                event,
            ),
        forall|k: int, step: StepView|
            performed(c, before, k, step) ==> #[trigger] performed(c, before.push(e), k, step),
        lacked_user_namespace(c, before) ==> lacked_user_namespace(c, before.push(e)),
        before.push(e).take(before.len() as int) == before,
{
    let events = before.push(e);
    assert(events.take(before.len() as int) =~= before);
    assert forall|k: int| 0 <= k < before.len() implies #[trigger] events.take(k) == before.take(k)
        && events[k] == before[k] by {
        assert(events.take(k) =~= before.take(k));
    }
}

/// A history without its last event is possible where the history is, and the
/// last event was expected behind it.
proof fn shorter(c: ConfigView, events: Seq<EventView>)
    requires
        possible(c, events),
        events.len() > 0,
    ensures
        possible(c, events.drop_last()),
        run::expects(reached(c, events.drop_last()).stage, events.last()),
        events == events.drop_last().push(events.last()),
{
    let before = events.drop_last();
    assert(events =~= before.push(events.last()));
    assert forall|k: int| 0 <= k < before.len() implies run::expects(
        reached(c, #[trigger] before.take(k)).stage,
        before[k],
    ) by {
        assert(before.take(k) =~= events.take(k));
    }
    assert(events.take(before.len() as int) =~= before);
}

/// The invariant holds of every possible history.
proof fn inv_holds(c: ConfigView, events: Seq<EventView>)
    requires
        possible(c, events),
    ensures
        inv(c, events),
    decreases events.len(),
{
    if events.len() > 0 {
        let before = events.drop_last();
        shorter(c, events);
        inv_holds(c, before);
        inv_step(c, before, events.last());
    }
}

/// What the predicates say of a shorter history, they say of a longer one.
proof fn facts_kept(c: ConfigView, before: Seq<EventView>, e: EventView, p: Progress, count: nat)
    ensures
        found_exe(c, before, p) ==> found_exe(c, before.push(e), p),
        read_ids(c, before, p) ==> read_ids(c, before.push(e), p),
        got_user_namespace(c, before) ==> got_user_namespace(c, before.push(e)),
        lacked_user_namespace(c, before) ==> lacked_user_namespace(c, before.push(e)),
        wrote_map(c, before, p, count) ==> wrote_map(c, before.push(e), p, count),
        isolated(c, before, p) ==> isolated(c, before.push(e), p),
        performed_steps(c, before, p, count) ==> performed_steps(c, before.push(e), p, count),
        set_path(c, before, p) ==> set_path(c, before.push(e), p),
{
    kept(c, before, e);
}

/// The invariant is kept on the way to the namespaces.
#[verifier::spinoff_prover]
proof fn step_early(c: ConfigView, before: Seq<EventView>, e: EventView)
    requires
        inv(c, before),
        ({
            let stage = reached(c, before).stage;
            stage is Exe || stage is Ids || stage is UserNamespace || stage is OtherNamespaces
        }),
        run::expects(reached(c, before).stage, e),
    ensures
        inv(c, before.push(e)),
{
    let p = reached(c, before);
    assert(before.push(e).drop_last() =~= before);
    assert(after(c, before.push(e)) == run::next_of(c, p, e));
    kept(c, before, e);
    facts_kept(c, before, e, p, run::steps_of(c, p).len());
}

/// The invariant is kept at the fork and behind the mounts.
#[verifier::spinoff_prover]
proof fn step_late(c: ConfigView, before: Seq<EventView>, e: EventView)
    requires
        inv(c, before),
        ({
            let stage = reached(c, before).stage;
            stage is Forking || stage is Waiting || stage is Pathing || stage is Filtering
        }),
        run::expects(reached(c, before).stage, e),
    ensures
        inv(c, before.push(e)),
{
    let p = reached(c, before);
    assert(before.push(e).drop_last() =~= before);
    assert(after(c, before.push(e)) == run::next_of(c, p, e));
    kept(c, before, e);
    facts_kept(c, before, e, p, run::steps_of(c, p).len());
}

/// A write that was just made joins those before it.
proof fn write_made(c: ConfigView, before: Seq<EventView>, e: EventView, p: Progress, i: nat)
    requires
        i < 3,
        before.len() == ids_at(c) + 2 + i,
        wrote_map(c, before, p, i),
        doing(c, before) == ActionView::Write(identity::id_map(p.uid, p.gid)[i as int]),
        e is Done,
    ensures
        wrote_map(c, before.push(e), p, i + 1),
{
    facts_kept(c, before, e, p, i);
    kept(c, before, e);
}

/// The invariant is kept at each write of the identity map.
#[verifier::spinoff_prover]
proof fn step_mapping(c: ConfigView, before: Seq<EventView>, e: EventView)
    requires
        inv(c, before),
        reached(c, before).stage is Mapping,
        run::expects(reached(c, before).stage, e),
    ensures
        inv(c, before.push(e)),
{
    let p = reached(c, before);
    assert(before.push(e).drop_last() =~= before);
    assert(after(c, before.push(e)) == run::next_of(c, p, e));
    kept(c, before, e);
    let i = p.stage->Mapping_0;
    let events = before.push(e);
    facts_kept(c, before, e, p, i);
    if e is Done {
        write_made(c, before, e, p, i);
        let q = reached(c, events);
        assert(run::next_of(c, p, e) == run::to_write(p, i + 1));
        assert(q.exe == p.exe && q.rootless == p.rootless && q.uid == p.uid && q.gid == p.gid);
        assert(found_exe(c, events, q) && read_ids(c, events, q));
        assert(wrote_map(c, events, q, i + 1));
    }
}

/// A step that was just performed joins those before it.
proof fn step_performed(c: ConfigView, before: Seq<EventView>, e: EventView, p: Progress, i: nat)
    requires
        i < run::steps_of(c, p).len(),
        before.len() == fork_at(c, p.rootless) + 1 + i,
        performed_steps(c, before, p, i),
        doing(c, before) == ActionView::Perform(run::steps_of(c, p)[i as int].task),
        e is Done || !run::steps_of(c, p)[i as int].required,
    ensures
        performed_steps(c, before.push(e), p, i + 1),
{
    let steps = run::steps_of(c, p);
    facts_kept(c, before, e, p, i);
    kept(c, before, e);
    assert(performed(c, before.push(e), fork_at(c, p.rootless) + 1 + i, steps[i as int]));
}

/// The invariant is kept at each step of the mounts.
#[verifier::spinoff_prover]
proof fn step_mounting(c: ConfigView, before: Seq<EventView>, e: EventView)
    requires
        inv(c, before),
        reached(c, before).stage is Mounting,
        run::expects(reached(c, before).stage, e),
    ensures
        inv(c, before.push(e)),
{
    let p = reached(c, before);
    assert(before.push(e).drop_last() =~= before);
    assert(after(c, before.push(e)) == run::next_of(c, p, e));
    kept(c, before, e);
    let i = p.stage->Mounting_0;
    let events = before.push(e);
    let steps = run::steps_of(c, p);
    facts_kept(c, before, e, p, i);
    if !(e is Failed && steps[i as int].required) {
        step_performed(c, before, e, p, i);
        let q = reached(c, events);
        assert(run::next_of(c, p, e) == run::to_step(c, p, i + 1));
        assert(q.exe == p.exe && q.rootless == p.rootless && q.uid == p.uid && q.gid == p.gid);
        assert(isolated(c, events, q));
        if i + 1 < steps.len() {
            assert(performed_steps(c, events, q, i + 1));
        } else {
            assert(performed_steps(c, events, q, steps.len()));
        }
    }
}

/// The invariant is kept by every expected event.
proof fn inv_step(c: ConfigView, before: Seq<EventView>, e: EventView)
    requires
        inv(c, before),
        run::expects(reached(c, before).stage, e),
    ensures
        inv(c, before.push(e)),
{
    match reached(c, before).stage {
        Stage::Mapping(_) => step_mapping(c, before, e),
        Stage::Mounting(_) => step_mounting(c, before, e),
        Stage::Forking | Stage::Waiting | Stage::Pathing | Stage::Filtering => step_late(
            c,
            before,
            e,
        ),
        _ => step_early(c, before, e),
    }
}

// ---------------------------------------------------------------------------
// Laws
// ---------------------------------------------------------------------------

/// A possible history that is followed by an expected event is possible, and it
/// leads where one more step of the run leads.
pub proof fn history_grows(c: ConfigView, events: Seq<EventView>, e: EventView)
    requires
        possible(c, events),
        run::expects(reached(c, events).stage, e),
    ensures
        possible(c, events.push(e)),
        after(c, events.push(e)) == run::next_of(c, reached(c, events), e),
{
    let longer = events.push(e);
    assert(longer.drop_last() =~= events);
    assert forall|k: int| 0 <= k < longer.len() implies run::expects(
        reached(c, #[trigger] longer.take(k)).stage,
        longer[k],
    ) by {
        if k < events.len() {
            assert(longer.take(k) =~= events.take(k));
        } else {
            assert(longer.take(k) =~= events);
        }
    }
}

/// A plan is no longer than the bound.
proof fn plan_is_bounded(c: ConfigView, p: Progress)
    ensures
        run::steps_of(c, p).len() <= plan_bound(c),
{
    c.dirs.lemma_filter_len(|d: mounts::DirectoryView| mounts::in_fresh_tmp(d));
    c.dirs.lemma_filter_len(|d: mounts::DirectoryView| mounts::gets_mount(d, p.rootless));
}

/// Every run ends: a history has no more events than the number of stages and
/// steps allows, and a run that is over takes no more of them.
pub proof fn run_ends(c: ConfigView, events: Seq<EventView>)
    requires
        possible(c, events),
    ensures
        events.len() + rank(c, reached(c, events).stage) <= rank(c, Stage::Exe),
        rank(c, reached(c, events).stage) >= 0,
    decreases events.len(),
{
    inv_holds(c, events);
    plan_is_bounded(c, reached(c, events));
    if events.len() > 0 {
        let before = events.drop_last();
        shorter(c, events);
        run_ends(c, before);
        inv_holds(c, before);
        plan_is_bounded(c, reached(c, before));
    }
}

/// A run is over exactly when it is about to end, and then no event can come.
pub proof fn over_is_final(c: ConfigView, events: Seq<EventView>, e: EventView)
    requires
        possible(c, events),
    ensures
        reached(c, events).stage is Over <==> is_final(doing(c, events)),
        is_final(doing(c, events)) ==> !run::expects(reached(c, events).stage, e),
{
    inv_holds(c, events);
}

/// The command runs only in a finished sandbox. Where a run is about to execute
/// something, that is the command line asked for, and before it, in this order:
/// the namespaces were left, the fork was made and this is the child, each step
/// of the mounts was performed with success where it is required, the search
/// path was set where there are shims, and the filter was installed.
pub proof fn command_runs_confined(c: ConfigView, events: Seq<EventView>)
    requires
        possible(c, events),
        doing(c, events) is Exec,
    ensures
        ({
            let p = reached(c, events);
            &&& doing(c, events) == ActionView::Exec(
                command::command_line_of(c.command, c.shell),
            )
            &&& isolated(c, events, p)
            &&& performed_steps(c, events, p, run::steps_of(c, p).len())
            &&& set_path(c, events, p)
            &&& seccomp::seccomp_outcome(c.numbers, c.arch) matches Ok(program) && answered(
                c,
                events,
                filter_at(c, p),
                ActionView::ApplyFilter(program),
                EventView::Done,
            )
            &&& events.len() == filter_at(c, p) + 1
        }),
{
    inv_holds(c, events);
}

/// Where a run is about to execute the command, the root was made read-only and
/// a fresh tmpfs was mounted on `/tmp`, in this order and with success.
pub proof fn command_sees_read_only_root(c: ConfigView, events: Seq<EventView>)
    requires
        possible(c, events),
        doing(c, events) is Exec,
    ensures
        exists|i: int, j: int|
            #![trigger events[i], events[j]]
            i < j && answered(
                c,
                events,
                i,
                ActionView::Perform(mounts::TaskView::Mount(mounts::read_only_root())),
                EventView::Done,
            ) && answered(
                c,
                events,
                j,
                ActionView::Perform(
                    mounts::TaskView::Mount(mounts::tmpfs("/tmp"@, c.tmpfs_size)),
                ),
                EventView::Done,
            ),
{
    command_runs_confined(c, events);
    let p = reached(c, events);
    let steps = run::steps_of(c, p);
    mounts::root_becomes_read_only(c.dirs, c.tmpfs_size, p.exe, p.rootless, c.system_shims);
    mounts::tmp_is_fresh(c.dirs, c.tmpfs_size, p.exe, p.rootless, c.system_shims);
    let read_only = mounts::read_only_at(c.dirs, p.rootless);
    let fresh = mounts::fresh_tmp_at(c.dirs, p.exe, p.rootless);
    let start = fork_at(c, p.rootless) + 1;
    assert(performed(c, events, start + read_only, steps[read_only]));
    assert(performed(c, events, start + fresh, steps[fresh]));
    assert(events[start + read_only] == EventView::Done);
    assert(events[start + fresh] == EventView::Done);
}

/// The executable is looked up and the identity is read before any namespace is
/// left, and the identity that was read is the one that is mapped.
pub proof fn identity_before_namespaces(c: ConfigView, events: Seq<EventView>)
    requires
        possible(c, events),
        doing(c, events) is Unshare || doing(c, events) is Write || doing(c, events) is Fork,
    ensures
        found_exe(c, events, reached(c, events)),
        read_ids(c, events, reached(c, events)),
        doing(c, events) matches ActionView::Write(w) ==> exists|i: int|
            0 <= i < 3 && w == #[trigger] identity::id_map(
                reached(c, events).uid,
                reached(c, events).gid,
            )[i] && wrote_map(c, events, reached(c, events), i as nat),
{
    inv_holds(c, events);
}

/// A run gives up setting groups before it writes the group map.
pub proof fn groups_denied_before_group_map(c: ConfigView, events: Seq<EventView>)
    requires
        possible(c, events),
        doing(c, events) matches ActionView::Write(w) && w.path == "/proc/self/gid_map"@,
    ensures
        answered(
            c,
            events,
            ids_at(c) + 2,
            ActionView::Write(
                identity::FileWriteView { path: "/proc/self/setgroups"@, contents: "deny"@ },
            ),
            EventView::Done,
        ),
{
    inv_holds(c, events);
    let p = reached(c, events);
    reveal_strlit("/proc/self/setgroups");
    reveal_strlit("/proc/self/uid_map");
    reveal_strlit("/proc/self/gid_map");
    assert("/proc/self/setgroups"@.len() != "/proc/self/gid_map"@.len());
    assert("/proc/self/uid_map"@[11] != "/proc/self/gid_map"@[11]);
    let i = p.stage->Mapping_0;
    assert(i == 2);
    assert(identity::id_map(p.uid, p.gid)[0].path == "/proc/self/setgroups"@);
}

/// A user namespace is tried first. A run goes on with privileges only once it
/// was not granted, and forks only once the namespaces were left; without
/// privileges also only once the identity map was written.
pub proof fn rootless_first(c: ConfigView, events: Seq<EventView>)
    requires
        possible(c, events),
    ensures
        doing(c, events) == ActionView::Unshare(no_user_namespace()) ==> lacked_user_namespace(
            c,
            events,
        ),
        doing(c, events) is Fork ==> isolated(c, events, reached(c, events)),
        doing(c, events) matches ActionView::Unshare(n) ==> n == every_namespace() || n
            == no_user_namespace(),
{
    inv_holds(c, events);
}

/// A failure ends the run, but for that of the user namespace, which is followed
/// by an attempt without it, and that of a step that need not succeed. None of
/// these ends executes the command.
pub proof fn failure_ends_run(c: ConfigView, events: Seq<EventView>, text: Seq<char>)
    requires
        possible(c, events),
        run::expects(reached(c, events).stage, EventView::Failed(text)),
    ensures
        ({
            let p = reached(c, events);
            let failed = events.push(EventView::Failed(text));
            match p.stage {
                Stage::UserNamespace => doing(c, failed) == ActionView::Unshare(no_user_namespace()),
                Stage::Mounting(i) => if run::steps_of(c, p)[i as int].required {
                    doing(c, failed) == ActionView::Die("ronly: mounts: "@ + text)
                } else {
                    after(c, failed) == run::to_step(c, p, i + 1)
                },
                Stage::Filtering => doing(c, failed) == ActionView::Die("ronly: seccomp: "@ + text),
                Stage::Mapping(_) => doing(c, failed) == (ActionView::Exit {
                    code: 1,
                    message: Some("ronly: uid/gid map: "@ + text),
                }),
                Stage::OtherNamespaces => doing(c, failed) == (ActionView::Exit {
                    code: 1,
                    message: Some("ronly: requires unprivileged user namespaces or root"@),
                }),
                _ => doing(c, failed) == ActionView::ReturnError,
            }
        }),
{
    history_grows(c, events, EventView::Failed(text));
}

/// A run that is at a step of the mounts has done everything that comes before
/// the fork and performed exactly the steps before that one, in order.
pub proof fn steps_in_order(c: ConfigView, events: Seq<EventView>, i: nat)
    requires
        possible(c, events),
        reached(c, events).stage == Stage::Mounting(i),
    ensures
        ({
            let p = reached(c, events);
            &&& i < run::steps_of(c, p).len()
            &&& doing(c, events) == ActionView::Perform(run::steps_of(c, p)[i as int].task)
            &&& isolated(c, events, p)
            &&& performed_steps(c, events, p, i)
            &&& events.len() == fork_at(c, p.rootless) + 1 + i
        }),
{
    inv_holds(c, events);
}

/// A run that a failing step stops had performed exactly the steps before it, in
/// order, and performs no other.
pub proof fn failed_step_is_the_last(
    c: ConfigView,
    events: Seq<EventView>,
    i: nat,
    text: Seq<char>,
)
    requires
        possible(c, events),
        reached(c, events).stage == Stage::Mounting(i),
        run::steps_of(c, reached(c, events))[i as int].required,
    ensures
        ({
            let failed = events.push(EventView::Failed(text));
            let p = reached(c, failed);
            &&& possible(c, failed)
            &&& p.stage is Over
            &&& doing(c, failed) == ActionView::Die("ronly: mounts: "@ + text)
            &&& isolated(c, failed, p)
            &&& performed_steps(c, failed, p, i)
            &&& answered(
                c,
                failed,
                fork_at(c, p.rootless) + 1 + i,
                ActionView::Perform(run::steps_of(c, p)[i as int].task),
                EventView::Failed(text),
            )
            &&& failed.len() == fork_at(c, p.rootless) + 2 + i
        }),
{
    let e = EventView::Failed(text);
    let p = reached(c, events);
    steps_in_order(c, events, i);
    history_grows(c, events, e);
    kept(c, events, e);
    facts_kept(c, events, e, p, i);
    let q = reached(c, events.push(e));
    assert(q.exe == p.exe && q.rootless == p.rootless && q.uid == p.uid && q.gid == p.gid);
}

/// The parent exits with the code that the child exited with, or with 1 where
/// the child ended in another way.
pub proof fn exit_code_is_the_childs(c: ConfigView, events: Seq<EventView>, code: i32)
    requires
        possible(c, events),
        doing(c, events) is Wait,
    ensures
        possible(c, events.push(EventView::Exited(code))),
        doing(c, events.push(EventView::Exited(code))) == (ActionView::Exit {
            code,
            message: None,
        }),
        possible(c, events.push(EventView::Ended)),
        doing(c, events.push(EventView::Ended)) == (ActionView::Exit { code: 1, message: None }),
{
    inv_holds(c, events);
    history_grows(c, events, EventView::Exited(code));
    history_grows(c, events, EventView::Ended);
}

/// In the child a run in which nothing fails ends by executing the command,
/// where a filter can be built for the architecture.
pub proof fn success_runs_command(c: ConfigView, events: Seq<EventView>)
    requires
        possible(c, events),
        seccomp::seccomp_outcome(c.numbers, c.arch) is Ok,
        forall|k: int| 0 <= k < events.len() ==> !(#[trigger] events[k] is Failed || events[k] is Parent),
    ensures
        !(reached(c, events).stage is OtherNamespaces),
        !(reached(c, events).stage is Waiting),
        reached(c, events).stage is Over ==> doing(c, events) is Exec,
    decreases events.len(),
{
    if events.len() > 0 {
        let before = events.drop_last();
        shorter(c, events);
        assert forall|k: int| 0 <= k < before.len() implies !(#[trigger] before[k] is Failed
            || before[k] is Parent) by {
            assert(before[k] == events[k]);
        }
        success_runs_command(c, before);
        assert(events.last() == events[events.len() - 1]);
    }
}

// ---------------------------------------------------------------------------
// What a run does, action by action
// ---------------------------------------------------------------------------

/// A run begins by looking up the executable where there are shims, and by
/// reading the identity where there are none.
pub proof fn run_begins(c: ConfigView)
    ensures
        doing(c, Seq::empty()) == (if c.shims {
            ActionView::ReadExe
        } else {
            ActionView::ReadIds
        }),
{
}

/// The events that can come of each action, and no others: a lookup gives a path
/// or fails, the identity is always there, a fork tells which of the two this is
/// or fails, a wait tells how the child ended or fails, the search path can
/// always be set, and everything else is done or fails. An action that ends the
/// run has no outcome.
pub proof fn outcomes_of_an_action(c: ConfigView, events: Seq<EventView>, e: EventView)
    requires
        possible(c, events),
    ensures
        run::expects(reached(c, events).stage, e) <==> match doing(c, events) {
            ActionView::ReadExe => e is Exe || e is Failed,
            ActionView::ReadIds => e is Ids,
            ActionView::Unshare(_) => e is Done || e is Failed,
            ActionView::Write(_) => e is Done || e is Failed,
            ActionView::Fork => e is Parent || e is Child || e is Failed,
            ActionView::Wait => e is Exited || e is Ended || e is Failed,
            ActionView::Perform(_) => e is Done || e is Failed,
            ActionView::SetPath(_) => e is Done,
            ActionView::ApplyFilter(_) => e is Done || e is Failed,
            ActionView::Exec(_) => false,
            ActionView::ReturnError => false,
            ActionView::Exit { .. } => false,
            ActionView::Die(_) => false,
        },
{
    inv_holds(c, events);
}

/// What a run does behind each action outside the child, by what came of it.
pub proof fn action_behind_an_action(c: ConfigView, events: Seq<EventView>, e: EventView)
    requires
        possible(c, events),
        run::expects(reached(c, events).stage, e),
    ensures
        ({
            let next = doing(c, events.push(e));
            match doing(c, events) {
                ActionView::ReadExe => next == (if e is Exe {
                    ActionView::ReadIds
                } else {
                    ActionView::ReturnError
                }),
                ActionView::ReadIds => next == ActionView::Unshare(
                    Namespaces { user: true, mount: true, pid: true },
                ),
                ActionView::Unshare(n) => {
                    &&& n.mount && n.pid
                    &&& n.user ==> next == (if e is Done {
                        ActionView::Write(
                            identity::FileWriteView {
                                path: "/proc/self/setgroups"@,
                                contents: "deny"@,
                            },
                        )
                    } else {
                        ActionView::Unshare(Namespaces { user: false, mount: true, pid: true })
                    })
                    &&& !n.user ==> next == (if e is Done {
                        ActionView::Fork
                    } else {
                        ActionView::Exit {
                            code: 1,
                            message: Some("ronly: requires unprivileged user namespaces or root"@),
                        }
                    })
                },
                ActionView::Write(w) => {
                    &&& events[ids_at(c)] is Ids
                    &&& w.path == "/proc/self/setgroups"@ || w.path == "/proc/self/uid_map"@ || w.path
                        == "/proc/self/gid_map"@
                    &&& e is Done && w.path == "/proc/self/setgroups"@ ==> next == ActionView::Write(
                        identity::FileWriteView {
                            path: "/proc/self/uid_map"@,
                            contents: "0 "@ + text::decimal(events[ids_at(c)]->uid as nat)
                                + " 1\n"@,
                        },
                    )
                    &&& e is Done && w.path == "/proc/self/uid_map"@ ==> next == ActionView::Write(
                        identity::FileWriteView {
                            path: "/proc/self/gid_map"@,
                            contents: "0 "@ + text::decimal(events[ids_at(c)]->gid as nat)
                                + " 1\n"@,
                        },
                    )
                    &&& e is Done && w.path == "/proc/self/gid_map"@ ==> next == ActionView::Fork
                    &&& e matches EventView::Failed(text) ==> next == (ActionView::Exit {
                        code: 1,
                        message: Some("ronly: uid/gid map: "@ + text),
                    })
                },
                ActionView::Fork => {
                    &&& e is Parent ==> next == ActionView::Wait
                    &&& e is Failed ==> next == ActionView::ReturnError
                },
                ActionView::Wait => match e {
                    EventView::Exited(code) => next == (ActionView::Exit { code, message: None }),
                    EventView::Ended => next == (ActionView::Exit { code: 1, message: None }),
                    _ => next == ActionView::ReturnError,
                },
                _ => true,
            }
        }),
{
    inv_holds(c, events);
    history_grows(c, events, e);
    let p = reached(c, events);
    identity::each_file_is_written_once(p.uid, p.gid);
}

/// Before a run forks without privileges, it has written the user map with the
/// user and the group map with the group that it was told, each exactly once and
/// with success, behind the giving up of groups; and it has written nothing else.
pub proof fn identity_is_mapped_once(c: ConfigView, events: Seq<EventView>)
    requires
        possible(c, events),
        doing(c, events) is Fork,
        events[ids_at(c) + 1] is Done,
    ensures
        ({
            let at = ids_at(c) + 2;
            &&& events.len() == at + 3
            &&& events[ids_at(c)] is Ids
            &&& events[at] is Done && events[at + 1] is Done && events[at + 2] is Done
            &&& doing(c, events.take(at)) == ActionView::Write(
                identity::FileWriteView { path: "/proc/self/setgroups"@, contents: "deny"@ },
            )
            &&& doing(c, events.take(at + 1)) == ActionView::Write(
                identity::FileWriteView {
                    path: "/proc/self/uid_map"@,
                    contents: "0 "@ + text::decimal(events[ids_at(c)]->uid as nat) + " 1\n"@,
                },
            )
            &&& doing(c, events.take(at + 2)) == ActionView::Write(
                identity::FileWriteView {
                    path: "/proc/self/gid_map"@,
                    contents: "0 "@ + text::decimal(events[ids_at(c)]->gid as nat) + " 1\n"@,
                },
            )
            &&& forall|k: int|
                0 <= k < events.len() && doing(c, #[trigger] events.take(k)) is Write ==> at <= k < at
                    + 3
        }),
{
    inv_holds(c, events);
    let p = reached(c, events);
    let map = identity::id_map(p.uid, p.gid);
    identity::each_file_is_written_once(p.uid, p.gid);
    assert(answered(c, events, ids_at(c) + 2, ActionView::Write(map[0]), EventView::Done));
    assert(answered(c, events, ids_at(c) + 3, ActionView::Write(map[1]), EventView::Done));
    assert(answered(c, events, ids_at(c) + 4, ActionView::Write(map[2]), EventView::Done));
    let at = ids_at(c) + 2;
    assert forall|k: int| 0 <= k < events.len() && doing(c, #[trigger] events.take(k)) is Write implies at
        <= k < at + 3 by {
        prefix_is_possible(c, events, k);
        inv_holds(c, events.take(k));
    }
}

/// The beginning of a possible history is possible.
proof fn prefix_is_possible(c: ConfigView, events: Seq<EventView>, k: int)
    requires
        possible(c, events),
        0 <= k <= events.len(),
    ensures
        possible(c, events.take(k)),
{
    let first = events.take(k);
    assert forall|j: int| 0 <= j < first.len() implies run::expects(
        reached(c, #[trigger] first.take(j)).stage,
        first[j],
    ) by {
        assert(first.take(j) =~= events.take(j));
    }
}

/// Where the executable lies, as the run was told, if it asked.
pub open spec fn told_exe(c: ConfigView, events: Seq<EventView>) -> Option<Seq<u8>> {
    if c.shims {
        Some(events[0]->Exe_0)
    } else {
        None
    }
}

/// Whether the run was told that it left the user namespace.
pub open spec fn told_rootless(c: ConfigView, events: Seq<EventView>) -> bool {
    events[ids_at(c) + 1] is Done
}

/// The mounts of a run that was told these events.
pub open spec fn told_plan(c: ConfigView, events: Seq<EventView>) -> Seq<StepView> {
    mounts::mount_plan(
        c.dirs,
        c.tmpfs_size,
        told_exe(c, events),
        told_rootless(c, events),
        c.system_shims,
    )
}

/// Whether this is the child, and nothing failed in it but steps of the mounts
/// that need not succeed.
pub open spec fn in_child(c: ConfigView, events: Seq<EventView>) -> bool {
    let fork = fork_at(c, told_rootless(c, events));
    &&& fork < events.len()
    &&& events[fork] is Child
    &&& forall|j: int|
        fork < j < events.len() && #[trigger] events[j] is Failed ==> {
            &&& j - fork - 1 < told_plan(c, events).len()
            &&& !told_plan(c, events)[j - fork - 1].required
        }
}

/// How far a run in the child has come, by the number of events behind the fork.
#[verifier::spinoff_prover]
#[verifier::rlimit(40)]
proof fn child_stage(c: ConfigView, events: Seq<EventView>)
    requires
        possible(c, events),
        in_child(c, events),
    ensures
        ({
            let p = reached(c, events);
            let plan = told_plan(c, events);
            let k = events.len() - fork_at(c, told_rootless(c, events)) - 1;
            let filter = plan.len() + (if c.shims {
                1int
            } else {
                0int
            });
            &&& p.exe == told_exe(c, events)
            &&& p.rootless == told_rootless(c, events)
            &&& run::steps_of(c, p) == plan
            &&& 0 <= k <= filter + 1
            &&& k < plan.len() ==> p.stage == Stage::Mounting(k as nat)
            &&& c.shims && k == plan.len() ==> p.stage is Pathing
            &&& k == filter ==> after(c, events).1 == run::to_filter(c, p).1
            &&& k == filter ==> p.stage == run::to_filter(c, p).0.stage
            &&& k == filter + 1 ==> p.stage is Over && doing(c, events) is Exec
        }),
    decreases events.len(),
{
    let before = events.drop_last();
    let e = events.last();
    let fork = fork_at(c, told_rootless(c, events));
    shorter(c, events);
    inv_holds(c, before);
    let p = reached(c, before);
    assert(after(c, events) == run::next_of(c, p, e));
    if events.len() == fork + 1 {
        assert(p.stage is Forking);
        assert(before[ids_at(c) + 1] == events[ids_at(c) + 1]);
        assert(before[0] == events[0]);
        assert(p.exe == told_exe(c, events));
        assert(p.rootless == told_rootless(c, events));
    } else {
        assert(before[ids_at(c) + 1] == events[ids_at(c) + 1]);
        assert(before[0] == events[0]);
        assert(told_plan(c, before) == told_plan(c, events));
        assert forall|j: int| fork < j < before.len() && #[trigger] before[j] is Failed implies j - fork
            - 1 < told_plan(c, before).len() && !told_plan(c, before)[j - fork - 1].required by {
            assert(events[j] is Failed);
        }
        child_stage(c, before);
        assert(events[events.len() - 1] == e);
    }
}

/// What a run does in the child, in full, where nothing fails but steps that need
/// not succeed: the steps of the mounts one after the other; where there are
/// shims, the setting of the search path, made of the extra shims, the directory
/// of the shims and the whole of what was there before; the installation of the
/// filter, or the end where none can be built; and the execution of the command
/// with all its arguments, or of the shell where there is no command.
pub proof fn child_in_full(c: ConfigView, events: Seq<EventView>)
    requires
        possible(c, events),
        in_child(c, events),
    ensures
        ({
            let plan = told_plan(c, events);
            let k = events.len() - fork_at(c, told_rootless(c, events)) - 1;
            let filter = plan.len() + (if c.shims {
                1int
            } else {
                0int
            });
            &&& 0 <= k <= filter + 1
            &&& k < plan.len() ==> doing(c, events) == ActionView::Perform(plan[k].task)
            &&& c.shims && k == plan.len() ==> doing(c, events) == ActionView::SetPath(
                text::joined(
                    c.extra_shims + seq![
                    if told_rootless(c, events) {
                        "/tmp/.ronly-shims"@
                    } else {
                        c.system_shims
                    },
                    match c.path {
                        Some(before) => before,
                        None => Seq::empty(),
                    },
                ],
                    ":"@,
                ),
            )
            &&& k == filter ==> doing(c, events) == (match seccomp::seccomp_outcome(
                c.numbers,
                c.arch,
            ) {
                Ok(program) => ActionView::ApplyFilter(program),
                Err(text) => ActionView::Die("ronly: seccomp: "@ + text),
            })
            &&& k == filter + 1 ==> doing(c, events) == ActionView::Exec(
                if c.command.len() > 0 {
                    c.command
                } else {
                    seq![
                        match c.shell {
                            Some(shell) => shell,
                            None => "/bin/bash"@,
                        },
                    ]
                },
            )
        }),
{
    child_stage(c, events);
    inv_holds(c, events);
    let before = events.drop_last();
    shorter(c, events);
    run::path_and_command(c, reached(c, before), events.last());
    let q = reached(c, before);
    if doing(c, events) is SetPath {
        assert(q.rootless == reached(c, events).rootless);
    }
}

/// A required step of the mounts that fails ends the child with a message, and so
/// does the installation of the filter.
pub proof fn failure_in_the_child(c: ConfigView, events: Seq<EventView>, text: Seq<char>)
    requires
        possible(c, events),
        in_child(c, events),
        run::expects(reached(c, events).stage, EventView::Failed(text)),
    ensures
        ({
            let plan = told_plan(c, events);
            let k = events.len() - fork_at(c, told_rootless(c, events)) - 1;
            let next = doing(c, events.push(EventView::Failed(text)));
            &&& k < plan.len() && plan[k].required ==> next == ActionView::Die(
                "ronly: mounts: "@ + text,
            )
            &&& k >= plan.len() ==> next == ActionView::Die("ronly: seccomp: "@ + text)
        }),
{
    child_stage(c, events);
    history_grows(c, events, EventView::Failed(text));
}

/// The filter that a run installs answers every call in full: one of another
/// architecture has the process killed; a ptrace call fails with "operation not
/// permitted" exactly when it asks for a write; another call fails so exactly
/// when its number is one of those that are refused, written out here; every
/// other call is allowed.
pub proof fn installed_filter_in_full(
    c: ConfigView,
    events: Seq<EventView>,
    arch: seccomp::Arch,
    call: bpf::Call,
)
    requires
        possible(c, events),
        doing(c, events) is ApplyFilter,
        run::filter_enforces(c),
        compiler::named_arch(c.arch) == Some(arch),
        call.args.len() == 6,
    ensures
        ({
            let program = doing(c, events)->ApplyFilter_0;
            let b = c.numbers.base;
            let native = call.arch == (match arch {
                seccomp::Arch::X86_64 => 0xC000_003Eu32,
                seccomp::Arch::Aarch64 => 0xC000_00B7u32,
                seccomp::Arch::Riscv64 => 0xC000_00F3u32,
            });
            let request = call.args[0] as int % 0x1_0000_0000;
            let refused = if call.number == b.ptrace {
                ||| request == 4 || request == 5 || request == 6 || request == 0x4205
                ||| c.numbers.x86 matches Some(x) && (request == x.ptrace_setregs as int
                    % 0x1_0000_0000 || request == x.ptrace_setfpregs as int % 0x1_0000_0000)
            } else {
                ||| call.number == b.kill || call.number == b.tkill || call.number == b.tgkill
                ||| call.number == b.unlinkat || call.number == b.renameat || call.number
                    == b.renameat2
                ||| call.number == b.truncate || call.number == b.ftruncate
                ||| call.number == b.mount || call.number == b.umount2 || call.number == b.reboot
                ||| c.numbers.x86 matches Some(x) && (call.number == x.unlink || call.number
                    == x.rmdir || call.number == x.rename)
            };
            bpf::result_of(program, call) == Some(
                if !native {
                    0x8000_0000u32
                } else if refused {
                    0x0005_0001u32
                } else {
                    0x7fff_0000u32
                },
            )
        }),
{
    inv_holds(c, events);
    seccomp::filter_answers_in_full(doing(c, events)->ApplyFilter_0, c.numbers, arch, call);
}

} // verus!
