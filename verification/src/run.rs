//! A run of the sandbox, as a machine that is told what came of each action and
//! says what to do next.

use crate::command;
use crate::compiler;
use crate::identity;
use crate::identity::{FileWrite, FileWriteView};
use crate::mounts;
use crate::mounts::{Directory, DirectoryView, Step, StepView, Task, TaskView};
use crate::path;
use crate::seccomp;
use crate::seccomp::{Instruction, Numbers};
use crate::text;
use vstd::prelude::*;

verus! {

/// What the user asked for.
#[derive(Debug)]
pub struct Args {
    /// The directories that are to be writable.
    pub writable: Vec<Vec<u8>>,
    /// The size of each tmpfs.
    pub tmpfs_size: String,
    /// Whether the shims are left out.
    pub no_shims: bool,
    /// The directories that come before the shims in the search path.
    pub extra_shims: Vec<Vec<u8>>,
    /// The command and its arguments.
    pub command: Vec<String>,
}

/// What the run finds around it.
#[derive(Debug)]
pub struct Host {
    /// The directory for the shims of a privileged run.
    pub system_shims: String,
    /// The name of the architecture.
    pub arch: String,
    /// The numbers that the filter is built from.
    pub numbers: Numbers,
    /// The search path.
    pub path: Option<String>,
    /// The user's shell.
    pub shell: Option<String>,
}

/// What a run is made from: the request, with the text of each path, and the
/// surroundings.
#[derive(Debug)]
pub struct Config {
    pub dirs: Vec<Directory>,
    pub tmpfs_size: String,
    pub shims: bool,
    pub extra_shims: Vec<String>,
    pub command: Vec<String>,
    pub host: Host,
}

/// What a configuration says.
pub struct ConfigView {
    pub dirs: Seq<DirectoryView>,
    pub tmpfs_size: Seq<char>,
    pub shims: bool,
    pub extra_shims: Seq<Seq<char>>,
    pub command: Seq<Seq<char>>,
    pub system_shims: Seq<char>,
    pub arch: Seq<char>,
    pub numbers: Numbers,
    pub path: Option<Seq<char>>,
    pub shell: Option<Seq<char>>,
}

impl View for Config {
    type V = ConfigView;

    open spec fn view(&self) -> ConfigView {
        ConfigView {
            dirs: mounts::directory_views(self.dirs@),
            tmpfs_size: self.tmpfs_size@,
            shims: self.shims,
            extra_shims: text::texts(self.extra_shims@),
            command: text::texts(self.command@),
            system_shims: self.host.system_shims@,
            arch: self.host.arch@,
            numbers: self.host.numbers,
            path: text::text_of(self.host.path),
            shell: text::text_of(self.host.shell),
        }
    }
}

/// The directories of these paths.
pub open spec fn directories_of(paths: Seq<Vec<u8>>) -> Seq<DirectoryView> {
    Seq::new(
        paths.len(),
        |i: int| DirectoryView { raw: paths[i]@, text: text::lossy_text(paths[i]@) },
    )
}

/// The texts of these paths.
pub open spec fn path_texts(paths: Seq<Vec<u8>>) -> Seq<Seq<char>> {
    Seq::new(paths.len(), |i: int| text::lossy_text(paths[i]@))
}

/// The namespaces that a process leaves.
#[derive(Clone, Copy, Debug, PartialEq, Eq, Structural)]
pub struct Namespaces {
    pub user: bool,
    pub mount: bool,
    pub pid: bool,
}

/// What to do next.
#[derive(Debug)]
pub enum Action {
    /// Read where the executable lies.
    ReadExe,
    /// Read the identity of the user and the group.
    ReadIds,
    /// Leave the namespaces.
    Unshare(Namespaces),
    /// Write a file.
    Write(FileWrite),
    /// Fork.
    Fork,
    /// Wait for the child.
    Wait,
    /// Do something on the file system.
    Perform(Task),
    /// Set the search path.
    SetPath(String),
    /// Install the filter.
    ApplyFilter(Vec<Instruction>),
    /// Replace the process by the command. The run ends here.
    Exec(Vec<String>),
    /// Return the error of the last action. The run ends here.
    ReturnError,
    /// Print the message, if any, and exit with the code. The run ends here.
    Exit { code: i32, message: Option<String> },
    /// Print the message and leave the child at once with the code 1. The run
    /// ends here.
    Die(String),
}

/// What an action says.
pub enum ActionView {
    ReadExe,
    ReadIds,
    Unshare(Namespaces),
    Write(FileWriteView),
    Fork,
    Wait,
    Perform(TaskView),
    SetPath(Seq<char>),
    ApplyFilter(Seq<Instruction>),
    Exec(Seq<Seq<char>>),
    ReturnError,
    Exit { code: i32, message: Option<Seq<char>> },
    Die(Seq<char>),
}

impl View for Action {
    type V = ActionView;

    open spec fn view(&self) -> ActionView {
        match *self {
            Action::ReadExe => ActionView::ReadExe,
            Action::ReadIds => ActionView::ReadIds,
            Action::Unshare(n) => ActionView::Unshare(n),
            Action::Write(w) => ActionView::Write(w@),
            Action::Fork => ActionView::Fork,
            Action::Wait => ActionView::Wait,
            Action::Perform(t) => ActionView::Perform(t@),
            Action::SetPath(p) => ActionView::SetPath(p@),
            Action::ApplyFilter(p) => ActionView::ApplyFilter(p@),
            Action::Exec(c) => ActionView::Exec(text::texts(c@)),
            Action::ReturnError => ActionView::ReturnError,
            Action::Exit { code, message } => ActionView::Exit {
                code,
                message: text::text_of(message),
            },
            Action::Die(m) => ActionView::Die(m@),
        }
    }
}

/// What came of an action.
#[derive(Debug)]
pub enum Event {
    /// It was done.
    Done,
    /// It failed, with this text.
    Failed(String),
    /// The executable lies here.
    Exe(Vec<u8>),
    /// The user and the group are these.
    Ids { uid: u32, gid: u32 },
    /// The fork was made, and this is the parent.
    Parent,
    /// The fork was made, and this is the child.
    Child,
    /// The child exited with this code.
    Exited(i32),
    /// The child ended in another way.
    Ended,
}

/// What an event says.
pub enum EventView {
    Done,
    Failed(Seq<char>),
    Exe(Seq<u8>),
    Ids { uid: u32, gid: u32 },
    Parent,
    Child,
    Exited(i32),
    Ended,
}

impl View for Event {
    type V = EventView;

    open spec fn view(&self) -> EventView {
        match *self {
            Event::Done => EventView::Done,
            Event::Failed(t) => EventView::Failed(t@),
            Event::Exe(p) => EventView::Exe(p@),
            Event::Ids { uid, gid } => EventView::Ids { uid, gid },
            Event::Parent => EventView::Parent,
            Event::Child => EventView::Child,
            Event::Exited(code) => EventView::Exited(code),
            Event::Ended => EventView::Ended,
        }
    }
}

// ---------------------------------------------------------------------------
// The model
// ---------------------------------------------------------------------------

/// What a run is waiting for. A write and a step are known by their position.
pub enum Stage {
    Exe,
    Ids,
    UserNamespace,
    OtherNamespaces,
    Mapping(nat),
    Forking,
    Waiting,
    Mounting(nat),
    Pathing,
    Filtering,
    Over,
}

/// How far a run has come, and what it has learnt.
pub struct Progress {
    pub stage: Stage,
    pub exe: Option<Seq<u8>>,
    pub uid: u32,
    pub gid: u32,
    pub rootless: bool,
}

/// The mounts of a run.
pub open spec fn steps_of(c: ConfigView, p: Progress) -> Seq<StepView> {
    mounts::mount_plan(c.dirs, c.tmpfs_size, p.exe, p.rootless, c.system_shims)
}

/// The search path of a run.
pub open spec fn path_of(c: ConfigView, p: Progress) -> Seq<char> {
    command::search_path_of(
        c.extra_shims,
        mounts::shims_place(p.rootless, c.system_shims),
        c.path,
    )
}

/// The end of a run.
pub open spec fn over(p: Progress, action: ActionView) -> (Progress, ActionView) {
    (Progress { stage: Stage::Over, ..p }, action)
}

/// Reading the identity.
pub open spec fn to_ids(p: Progress) -> (Progress, ActionView) {
    (Progress { stage: Stage::Ids, ..p }, ActionView::ReadIds)
}

/// Forking.
pub open spec fn to_fork(p: Progress) -> (Progress, ActionView) {
    (Progress { stage: Stage::Forking, ..p }, ActionView::Fork)
}

/// The write of the identity map at this position, or forking behind the last.
pub open spec fn to_write(p: Progress, i: nat) -> (Progress, ActionView) {
    let writes = identity::id_map(p.uid, p.gid);
    if i < writes.len() {
        (Progress { stage: Stage::Mapping(i), ..p }, ActionView::Write(writes[i as int]))
    } else {
        to_fork(p)
    }
}

/// What is done with the compiled filter.
pub open spec fn filter_action_of(built: Result<Seq<Instruction>, Seq<char>>) -> ActionView {
    match built {
        Ok(program) => ActionView::ApplyFilter(program),
        Err(text) => ActionView::Die("ronly: seccomp: "@ + text),
    }
}

/// Building and installing the filter.
pub open spec fn to_filter(c: ConfigView, p: Progress) -> (Progress, ActionView) {
    let built = seccomp::seccomp_outcome(c.numbers, c.arch);
    (
        Progress {
            stage: if built is Ok {
                Stage::Filtering
            } else {
                Stage::Over
            },
            ..p
        },
        filter_action_of(built),
    )
}

/// What comes behind the mounts: the search path, where there are shims, and
/// then the filter.
pub open spec fn mounted(c: ConfigView, p: Progress) -> (Progress, ActionView) {
    if p.exe is Some {
        (Progress { stage: Stage::Pathing, ..p }, ActionView::SetPath(path_of(c, p)))
    } else {
        to_filter(c, p)
    }
}

/// The step of the mounts at this position, or what comes behind the last.
pub open spec fn to_step(c: ConfigView, p: Progress, i: nat) -> (Progress, ActionView) {
    let steps = steps_of(c, p);
    if i < steps.len() {
        (Progress { stage: Stage::Mounting(i), ..p }, ActionView::Perform(steps[i as int].task))
    } else {
        mounted(c, p)
    }
}

/// How a run begins.
pub open spec fn first_of(c: ConfigView) -> (Progress, ActionView) {
    let p = Progress { stage: Stage::Exe, exe: None, uid: 0, gid: 0, rootless: false };
    if c.shims {
        (p, ActionView::ReadExe)
    } else {
        to_ids(p)
    }
}

/// Whether the event can come of the action that the run is waiting for.
pub open spec fn expects(stage: Stage, e: EventView) -> bool {
    match stage {
        Stage::Exe => e is Exe || e is Failed,
        Stage::Ids => e is Ids,
        Stage::UserNamespace | Stage::OtherNamespaces | Stage::Mapping(_) | Stage::Mounting(_)
        | Stage::Filtering => e is Done || e is Failed,
        Stage::Forking => e is Parent || e is Child || e is Failed,
        Stage::Waiting => e is Exited || e is Ended || e is Failed,
        Stage::Pathing => e is Done,
        Stage::Over => false,
    }
}

/// What a run does next, once it knows what came of the last action.
pub open spec fn next_of(c: ConfigView, p: Progress, e: EventView) -> (Progress, ActionView) {
    match p.stage {
        Stage::Exe => match e {
            EventView::Exe(exe) => to_ids(Progress { exe: Some(exe), ..p }),
            _ => over(p, ActionView::ReturnError),
        },
        Stage::Ids => match e {
            EventView::Ids { uid, gid } => (
                Progress { stage: Stage::UserNamespace, uid, gid, ..p },
                ActionView::Unshare(Namespaces { user: true, mount: true, pid: true }),
            ),
            _ => over(p, ActionView::ReturnError),
        },
        Stage::UserNamespace => if e is Done {
            to_write(Progress { rootless: true, ..p }, 0)
        } else {
            (
                Progress { stage: Stage::OtherNamespaces, ..p },
                ActionView::Unshare(Namespaces { user: false, mount: true, pid: true }),
            )
        },
        Stage::OtherNamespaces => if e is Done {
            to_fork(Progress { rootless: false, ..p })
        } else {
            over(
                p,
                ActionView::Exit {
                    code: 1,
                    message: Some("ronly: requires unprivileged user namespaces or root"@),
                },
            )
        },
        Stage::Mapping(i) => match e {
            EventView::Failed(text) => over(
                p,
                ActionView::Exit { code: 1, message: Some("ronly: uid/gid map: "@ + text) },
            ),
            _ => to_write(p, i + 1),
        },
        Stage::Forking => match e {
            EventView::Parent => (Progress { stage: Stage::Waiting, ..p }, ActionView::Wait),
            EventView::Child => to_step(c, p, 0),
            _ => over(p, ActionView::ReturnError),
        },
        Stage::Waiting => match e {
            EventView::Exited(code) => over(p, ActionView::Exit { code, message: None }),
            EventView::Ended => over(p, ActionView::Exit { code: 1, message: None }),
            _ => over(p, ActionView::ReturnError),
        },
        Stage::Mounting(i) => match e {
            EventView::Failed(text) if steps_of(c, p)[i as int].required => over(
                p,
                ActionView::Die("ronly: mounts: "@ + text),
            ),
            _ => to_step(c, p, i + 1),
        },
        Stage::Pathing => to_filter(c, p),
        Stage::Filtering => match e {
            EventView::Failed(text) => over(p, ActionView::Die("ronly: seccomp: "@ + text)),
            _ => over(p, ActionView::Exec(command::command_line_of(c.command, c.shell))),
        },
        Stage::Over => over(p, ActionView::ReturnError),
    }
}

/// Whether the filter can be built, and the program that it is built to enforces
/// the sandbox's rules.
pub open spec fn filter_enforces(c: ConfigView) -> bool {
    &&& seccomp::seccomp_outcome(c.numbers, c.arch) matches Ok(program)
    &&& compiler::named_arch(c.arch) matches Some(arch)
    &&& seccomp::enforces(program, c.numbers, arch)
}

// ---------------------------------------------------------------------------
// The machine
// ---------------------------------------------------------------------------

/// The stage without its position, which the work that is left tells.
#[derive(Clone, Copy, Debug, PartialEq, Eq, Structural)]
enum Phase {
    Exe,
    Ids,
    UserNamespace,
    OtherNamespaces,
    Mapping,
    Forking,
    Waiting,
    Mounting,
    Pathing,
    Filtering,
    Over,
}

/// A run of the sandbox.
#[derive(Debug)]
pub struct Run {
    config: Config,
    phase: Phase,
    exe: Option<Vec<u8>>,
    uid: u32,
    gid: u32,
    rootless: bool,
    /// The writes that follow the one that is being made, the next one last.
    writes: Vec<FileWrite>,
    /// The steps that follow the one that is being performed, the next one last.
    steps: Vec<Step>,
    /// Whether the step that is being performed has to succeed.
    required: bool,
    shims_dir: String,
}

/// What is done with the compiled filter.
pub fn filter_action(built: Result<Vec<Instruction>, String>) -> (action: Action)
    ensures
        action@ == filter_action_of(compiler::program_view(built)),
        built matches Ok(program) ==> action == Action::ApplyFilter(program),
        built matches Err(text) ==> {
            &&& action matches Action::Die(m)
            &&& m@ == "ronly: seccomp: "@ + text@
        },
{
    match built {
        Ok(program) => Action::ApplyFilter(program),
        Err(text) => Action::Die(text::prefixed("ronly: seccomp: ", text.as_str())),
    }
}

/// Turns a vector round.
fn reversed<T>(v: Vec<T>) -> (r: Vec<T>)
    ensures
        r@ == v@.reverse(),
{
    let mut v = v;
    let ghost all = v@;
    let mut r: Vec<T> = Vec::new();
    while v.len() > 0
        invariant
            v.len() + r.len() == all.len(),
            forall|i: int| 0 <= i < v.len() ==> v[i] == all[i],
            forall|i: int| 0 <= i < r.len() ==> r[i] == all[all.len() - 1 - i],
        decreases v.len(),
    {
        if let Some(x) = v.pop() {
            r.push(x);
        }
    }
    assert(r@ =~= all.reverse());
    r
}

impl Run {
    /// What the run was made from.
    pub closed spec fn config(&self) -> ConfigView {
        self.config@
    }

    /// How far the run has come.
    pub closed spec fn progress(&self) -> Progress {
        Progress {
            stage: match self.phase {
                Phase::Exe => Stage::Exe,
                Phase::Ids => Stage::Ids,
                Phase::UserNamespace => Stage::UserNamespace,
                Phase::OtherNamespaces => Stage::OtherNamespaces,
                Phase::Mapping => Stage::Mapping(
                    (identity::id_map(self.uid, self.gid).len() - 1 - self.writes@.len()) as nat,
                ),
                Phase::Forking => Stage::Forking,
                Phase::Waiting => Stage::Waiting,
                Phase::Mounting => Stage::Mounting(
                    (self.plan().len() - 1 - self.steps@.len()) as nat,
                ),
                Phase::Pathing => Stage::Pathing,
                Phase::Filtering => Stage::Filtering,
                Phase::Over => Stage::Over,
            },
            exe: path::path_of(self.exe),
            uid: self.uid,
            gid: self.gid,
            rootless: self.rootless,
        }
    }

    spec fn plan(&self) -> Seq<StepView> {
        mounts::mount_plan(
            self.config@.dirs,
            self.config@.tmpfs_size,
            path::path_of(self.exe),
            self.rootless,
            self.config@.system_shims,
        )
    }

    /// Whether the work that is left is the end of what there is to do, and a
    /// filter that is being installed enforces the rules.
    pub closed spec fn well_formed(&self) -> bool {
        &&& self.phase == Phase::Mapping ==> {
            let all = identity::id_map(self.uid, self.gid);
            let left = identity::write_views(self.writes@);
            &&& left.len() < all.len()
            &&& forall|i: int|
                0 <= i < left.len() ==> #[trigger] left[i] == all[all.len() - 1 - i]
        }
        &&& self.phase == Phase::Mounting ==> {
            let all = self.plan();
            let left = mounts::step_views(self.steps@);
            &&& left.len() < all.len()
            &&& forall|i: int|
                0 <= i < left.len() ==> #[trigger] left[i] == all[all.len() - 1 - i]
            &&& self.required == all[all.len() - 1 - left.len()].required
            &&& self.shims_dir@ == mounts::shims_place(self.rootless, self.config@.system_shims)
        }
        &&& self.phase == Phase::Filtering ==> filter_enforces(self.config@)
    }

    /// Begins a run.
    pub fn new(config: Config) -> (r: (Run, Action))
        ensures
            r.0.well_formed(),
            r.0.config() == config@,
            (r.0.progress(), r.1@) == first_of(config@),
            r.1 == (if config.shims {
                Action::ReadExe
            } else {
                Action::ReadIds
            }),
    {
        let shims = config.shims;
        let run = Run {
            config,
            phase: if shims {
                Phase::Exe
            } else {
                Phase::Ids
            },
            exe: None,
            uid: 0,
            gid: 0,
            rootless: false,
            writes: Vec::new(),
            steps: Vec::new(),
            required: false,
            shims_dir: String::new(),
        };
        if shims {
            (run, Action::ReadExe)
        } else {
            (run, Action::ReadIds)
        }
    }

    /// Whether the event can come of the action that the run is waiting for.
    pub fn accepts(&self, event: &Event) -> (r: bool)
        ensures
            r == expects(self.progress().stage, event@),
    {
        match self.phase {
            Phase::Exe => matches!(event, Event::Exe(_) | Event::Failed(_)),
            Phase::Ids => matches!(event, Event::Ids { .. }),
            Phase::UserNamespace
            | Phase::OtherNamespaces
            | Phase::Mapping
            | Phase::Mounting
            | Phase::Filtering => matches!(event, Event::Done | Event::Failed(_)),
            Phase::Forking => matches!(event, Event::Parent | Event::Child | Event::Failed(_)),
            Phase::Waiting => matches!(event, Event::Exited(_) | Event::Ended | Event::Failed(_)),
            Phase::Pathing => matches!(event, Event::Done),
            Phase::Over => false,
        }
    }

    fn end(&mut self, action: Action) -> (r: Action)
        ensures
            final(self).well_formed(),
            final(self).config() == old(self).config(),
            (final(self).progress(), r@) == over(old(self).progress(), action@),
            r == action,
    {
        self.phase = Phase::Over;
        action
    }

    /// Makes the next write, or forks behind the last.
    fn next_write(&mut self) -> (r: Action)
        requires
            forall|i: int|
                0 <= i < old(self).writes@.len() ==> #[trigger] identity::write_views(old(self).writes@)[i]
                    == identity::id_map(old(self).uid, old(self).gid)[2 - i],
            old(self).writes@.len() <= 3,
        ensures
            final(self).well_formed(),
            final(self).config() == old(self).config(),
            (final(self).progress(), r@) == to_write(
                old(self).progress(),
                (3 - old(self).writes@.len()) as nat,
            ),
    {
        let ghost left = identity::write_views(self.writes@);
        match self.writes.pop() {
            Some(write) => {
                self.phase = Phase::Mapping;
                proof {
                    let rest = identity::write_views(self.writes@);
                    assert(left[left.len() - 1] == write@);
                    assert forall|i: int| 0 <= i < rest.len() implies #[trigger] rest[i]
                        == identity::id_map(self.uid, self.gid)[2 - i] by {
                        assert(rest[i] == left[i]);
                    }
                }
                Action::Write(write)
            },
            None => {
                self.phase = Phase::Forking;
                Action::Fork
            },
        }
    }

    /// Builds the filter and installs it.
    fn filter(&mut self) -> (r: Action)
        ensures
            final(self).well_formed(),
            final(self).config() == old(self).config(),
            (final(self).progress(), r@) == to_filter(old(self).config(), old(self).progress()),
            r@ is ApplyFilter ==> filter_enforces(old(self).config()),
    {
        let built = seccomp::setup_seccomp(&self.config.host.numbers, self.config.host.arch.as_str());
        self.phase = if built.is_ok() {
            Phase::Filtering
        } else {
            Phase::Over
        };
        filter_action(built)
    }

    /// Performs the next step of the mounts, or goes on behind the last.
    fn next_step(&mut self) -> (r: Action)
        requires
            old(self).steps@.len() <= old(self).plan().len(),
            forall|i: int|
                0 <= i < old(self).steps@.len() ==> #[trigger] mounts::step_views(old(self).steps@)[i]
                    == old(self).plan()[old(self).plan().len() - 1 - i],
            old(self).shims_dir@ == mounts::shims_place(
                old(self).rootless,
                old(self).config@.system_shims,
            ),
        ensures
            final(self).well_formed(),
            final(self).config() == old(self).config(),
            (final(self).progress(), r@) == to_step(
                old(self).config(),
                old(self).progress(),
                (old(self).plan().len() - old(self).steps@.len()) as nat,
            ),
            r@ is ApplyFilter ==> filter_enforces(old(self).config()),
    {
        let ghost left = mounts::step_views(self.steps@);
        let ghost all = self.plan();
        match self.steps.pop() {
            Some(step) => {
                self.phase = Phase::Mounting;
                self.required = step.required;
                proof {
                    let rest = mounts::step_views(self.steps@);
                    assert(left[left.len() - 1] == step@);
                    assert forall|i: int| 0 <= i < rest.len() implies #[trigger] rest[i]
                        == all[all.len() - 1 - i] by {
                        assert(rest[i] == left[i]);
                    }
                }
                Action::Perform(step.task)
            },
            None => {
                if self.exe.is_some() {
                    self.phase = Phase::Pathing;
                    Action::SetPath(
                        command::search_path(
                            &self.config.extra_shims,
                            self.shims_dir.as_str(),
                            &self.config.host.path,
                        ),
                    )
                } else {
                    self.filter()
                }
            },
        }
    }

    /// Makes the plan of the mounts and performs its first step.
    fn enter(&mut self) -> (r: Action)
        ensures
            final(self).well_formed(),
            final(self).config() == old(self).config(),
            (final(self).progress(), r@) == to_step(old(self).config(), old(self).progress(), 0),
            r@ is ApplyFilter ==> filter_enforces(old(self).config()),
    {
        let (steps, shims_dir) = mounts::setup_mounts(
            &self.config.dirs,
            self.config.tmpfs_size.as_str(),
            &self.exe,
            self.rootless,
            self.config.host.system_shims.as_str(),
        );
        let ghost all = self.plan();
        assert(mounts::step_views(steps@) == all);
        let ghost planned = steps@;
        self.phase = Phase::Forking;
        self.steps = reversed(steps);
        self.shims_dir = shims_dir;
        proof {
            let turned = mounts::step_views(self.steps@);
            assert forall|i: int| 0 <= i < turned.len() implies #[trigger] turned[i]
                == all[all.len() - 1 - i] by {
                assert(turned[i] == planned[planned.len() - 1 - i]@);
                assert(mounts::step_views(planned)[planned.len() - 1 - i] == planned[planned.len() - 1
                    - i]@);
            }
        }
        self.next_step()
    }

    /// Says what to do next, once it is known what came of the last action.
    pub fn next(&mut self, event: Event) -> (r: Action)
        requires
            old(self).well_formed(),
            expects(old(self).progress().stage, event@),
        ensures
            final(self).well_formed(),
            final(self).config() == old(self).config(),
            (final(self).progress(), r@) == next_of(
                old(self).config(),
                old(self).progress(),
                event@,
            ),
            r@ is ApplyFilter || r@ is Exec ==> filter_enforces(old(self).config()),
    {
        match self.phase {
            Phase::Exe => match event {
                Event::Exe(exe) => {
                    self.exe = Some(exe);
                    self.phase = Phase::Ids;
                    Action::ReadIds
                },
                _ => self.end(Action::ReturnError),
            },
            Phase::Ids => match event {
                Event::Ids { uid, gid } => {
                    self.uid = uid;
                    self.gid = gid;
                    self.phase = Phase::UserNamespace;
                    Action::Unshare(Namespaces { user: true, mount: true, pid: true })
                },
                _ => self.end(Action::ReturnError),
            },
            Phase::UserNamespace => match event {
                Event::Done => {
                    self.rootless = true;
                    let writes = identity::setup_id_map(self.uid, self.gid);
                    let ghost planned = writes@;
                    let ghost all = identity::id_map(self.uid, self.gid);
                    self.writes = reversed(writes);
                    proof {
                        assert(identity::write_views(planned).len() == 3);
                        let turned = identity::write_views(self.writes@);
                        assert forall|i: int| 0 <= i < turned.len() implies #[trigger] turned[i]
                            == all[2 - i] by {
                            assert(turned[i] == planned[2 - i]@);
                            assert(identity::write_views(planned)[2 - i] == planned[2 - i]@);
                        }
                    }
                    self.next_write()
                },
                _ => {
                    self.phase = Phase::OtherNamespaces;
                    Action::Unshare(Namespaces { user: false, mount: true, pid: true })
                },
            },
            Phase::OtherNamespaces => match event {
                Event::Done => {
                    self.rootless = false;
                    self.phase = Phase::Forking;
                    Action::Fork
                },
                _ => self.end(
                    Action::Exit {
                        code: 1,
                        message: Some(
                            "ronly: requires unprivileged user namespaces or root".to_owned(),
                        ),
                    },
                ),
            },
            Phase::Mapping => match event {
                Event::Failed(text) => self.end(
                    Action::Exit {
                        code: 1,
                        message: Some(text::prefixed("ronly: uid/gid map: ", text.as_str())),
                    },
                ),
                _ => self.next_write(),
            },
            Phase::Forking => match event {
                Event::Parent => {
                    self.phase = Phase::Waiting;
                    Action::Wait
                },
                Event::Child => self.enter(),
                _ => self.end(Action::ReturnError),
            },
            Phase::Waiting => match event {
                Event::Exited(code) => self.end(Action::Exit { code, message: None }),
                Event::Ended => self.end(Action::Exit { code: 1, message: None }),
                _ => self.end(Action::ReturnError),
            },
            Phase::Mounting => match event {
                Event::Failed(text) => if self.required {
                    self.end(Action::Die(text::prefixed("ronly: mounts: ", text.as_str())))
                } else {
                    self.next_step()
                },
                _ => self.next_step(),
            },
            Phase::Pathing => self.filter(),
            Phase::Filtering => match event {
                Event::Failed(text) => self.end(
                    Action::Die(text::prefixed("ronly: seccomp: ", text.as_str())),
                ),
                _ => {
                    let argv = command::command_line(&self.config.command, &self.config.host.shell);
                    self.end(Action::Exec(argv))
                },
            },
            Phase::Over => self.end(Action::ReturnError),
        }
    }
}

/// Finds the text of each path of a request. A path that is UTF-8 has its own
/// text.
pub fn resolve(args: Args, host: Host) -> (c: Config)
    ensures
        c@.dirs == directories_of(args.writable@),
        c@.tmpfs_size == args.tmpfs_size@,
        c@.shims == !args.no_shims,
        c@.extra_shims == path_texts(args.extra_shims@),
        c@.command == text::texts(args.command@),
        c.host == host,
        c.dirs@.len() == args.writable@.len(),
        forall|i: int|
            0 <= i < args.writable@.len() ==> (#[trigger] c.dirs@[i]).raw@ == args.writable@[i]@
                && c.dirs@[i].text@ == text::lossy_text(args.writable@[i]@),
        c.tmpfs_size == args.tmpfs_size,
        c.extra_shims@.len() == args.extra_shims@.len(),
        forall|i: int|
            0 <= i < args.extra_shims@.len() ==> (#[trigger] c.extra_shims@[i])@ == text::lossy_text(
                args.extra_shims@[i]@,
            ),
        c.command == args.command,
        forall|i: int|
            0 <= i < args.writable@.len() && vstd::utf8::valid_utf8(args.writable@[i]@)
                ==> (#[trigger] c@.dirs[i]).text == vstd::utf8::decode_utf8(args.writable@[i]@),
        forall|i: int|
            0 <= i < args.extra_shims@.len() && vstd::utf8::valid_utf8(args.extra_shims@[i]@)
                ==> #[trigger] c@.extra_shims[i] == vstd::utf8::decode_utf8(args.extra_shims@[i]@),
{
    let ghost asked = args.writable@;
    let mut dirs: Vec<Directory> = Vec::new();
    let mut i: usize = 0;
    while i < args.writable.len()
        invariant
            i <= args.writable.len(),
            dirs.len() == i,
            forall|j: int|
                0 <= j < i ==> (#[trigger] dirs[j])@ == (DirectoryView {
                    raw: args.writable[j]@,
                    text: text::lossy_text(args.writable[j]@),
                }),
            forall|j: int|
                0 <= j < i && vstd::utf8::valid_utf8(args.writable[j]@) ==> (#[trigger] dirs[j]).text@
                    == vstd::utf8::decode_utf8(args.writable[j]@),
        decreases args.writable.len() - i,
    {
        let raw = args.writable[i].clone();
        assert(raw@ =~= args.writable[i as int]@);
        let name = text::lossy(&raw);
        dirs.push(Directory { raw, text: name });
        i += 1;
    }
    let mut extra_shims: Vec<String> = Vec::new();
    let mut k: usize = 0;
    while k < args.extra_shims.len()
        invariant
            k <= args.extra_shims.len(),
            extra_shims.len() == k,
            forall|j: int|
                0 <= j < k ==> (#[trigger] extra_shims[j])@ == text::lossy_text(args.extra_shims[j]@),
            forall|j: int|
                0 <= j < k && vstd::utf8::valid_utf8(args.extra_shims[j]@)
                    ==> (#[trigger] extra_shims[j])@ == vstd::utf8::decode_utf8(args.extra_shims[j]@),
        decreases args.extra_shims.len() - k,
    {
        extra_shims.push(text::lossy(&args.extra_shims[k]));
        k += 1;
    }
    assert(mounts::directory_views(dirs@) =~= directories_of(asked));
    assert(text::texts(extra_shims@) =~= path_texts(args.extra_shims@));
    Config {
        dirs,
        tmpfs_size: args.tmpfs_size,
        shims: !args.no_shims,
        extra_shims,
        command: args.command,
        host,
    }
}

// ---------------------------------------------------------------------------
// Laws
// ---------------------------------------------------------------------------

/// What a configuration says is what its parts say, one by one.
pub proof fn config_by_parts(c: Config, i: int)
    ensures
        c@.dirs.len() == c.dirs@.len(),
        0 <= i < c.dirs@.len() ==> c@.dirs[i].raw == c.dirs@[i].raw@ && c@.dirs[i].text
            == c.dirs@[i].text@,
        c@.tmpfs_size == c.tmpfs_size@,
        c@.shims == c.shims,
        c@.extra_shims.len() == c.extra_shims@.len(),
        0 <= i < c.extra_shims@.len() ==> c@.extra_shims[i] == c.extra_shims@[i]@,
        c@.command.len() == c.command@.len(),
        0 <= i < c.command@.len() ==> c@.command[i] == c.command@[i]@,
        c@.system_shims == c.host.system_shims@,
        c@.arch == c.host.arch@,
        c@.numbers == c.host.numbers,
        c@.path == (match c.host.path {
            Some(p) => Some(p@),
            None => None,
        }),
        c@.shell == (match c.host.shell {
            Some(s) => Some(s@),
            None => None,
        }),
{
}

/// Whatever a run has come to, the search path that it sets is made of the extra
/// shims, the directory of the shims and the whole of what was there before, with
/// colons between them; and what it executes is the command with all its
/// arguments, or, where there is none, the shell.
pub proof fn path_and_command(c: ConfigView, p: Progress, e: EventView)
    ensures
        next_of(c, p, e).1 matches ActionView::SetPath(path) ==> path == text::joined(
            c.extra_shims + seq![
                if p.rootless {
                    "/tmp/.ronly-shims"@
                } else {
                    c.system_shims
                },
                match c.path {
                    Some(before) => before,
                    None => Seq::empty(),
                },
            ],
            ":"@,
        ),
        next_of(c, p, e).1 matches ActionView::Exec(argv) ==> argv == (if c.command.len() > 0 {
            c.command
        } else {
            seq![
                match c.shell {
                    Some(shell) => shell,
                    None => "/bin/bash"@,
                },
            ]
        }),
{
    let parts = c.extra_shims + seq![
        if p.rootless {
            "/tmp/.ronly-shims"@
        } else {
            c.system_shims
        },
        match c.path {
            Some(before) => before,
            None => Seq::empty(),
        },
    ];
    assert(parts =~= c.extra_shims + seq![
        mounts::shims_place(p.rootless, c.system_shims),
        command::given_or(c.path, Seq::empty()),
    ]);
    assert(path_of(c, p) == text::joined(parts, ":"@));
}

/// What an action says is what its parts say, one by one, and no two kinds of
/// action say the same.
pub proof fn action_by_parts(action: Action, i: int)
    ensures
        action is ReadExe <==> action@ is ReadExe,
        action is ReadIds <==> action@ is ReadIds,
        action is Unshare <==> action@ is Unshare,
        action is Write <==> action@ is Write,
        action is Fork <==> action@ is Fork,
        action is Wait <==> action@ is Wait,
        action is Perform <==> action@ is Perform,
        action is SetPath <==> action@ is SetPath,
        action is ApplyFilter <==> action@ is ApplyFilter,
        action is Exec <==> action@ is Exec,
        action is ReturnError <==> action@ is ReturnError,
        action is Exit <==> action@ is Exit,
        action is Die <==> action@ is Die,
        match action {
            Action::Unshare(n) => action@ == ActionView::Unshare(n),
            Action::Write(w) => action@ matches ActionView::Write(v) && v.path == w.path@
                && v.contents == w.contents@,
            Action::Perform(t) => action@ == ActionView::Perform(t@),
            Action::SetPath(p) => action@ == ActionView::SetPath(p@),
            Action::ApplyFilter(p) => action@ == ActionView::ApplyFilter(p@),
            Action::Exec(c) => action@ matches ActionView::Exec(argv) && argv.len() == c@.len() && (0
                <= i < c@.len() ==> argv[i] == c@[i]@),
            Action::Exit { code, message } => action@ == (ActionView::Exit {
                code,
                message: match message {
                    Some(m) => Some(m@),
                    None => None,
                },
            }),
            Action::Die(m) => action@ == ActionView::Die(m@),
            _ => true,
        },
{
}

/// What an event says is what its parts say, and no two kinds of event say the
/// same.
pub proof fn event_by_parts(event: Event)
    ensures
        event is Done <==> event@ is Done,
        event is Failed <==> event@ is Failed,
        event is Exe <==> event@ is Exe,
        event is Ids <==> event@ is Ids,
        event is Parent <==> event@ is Parent,
        event is Child <==> event@ is Child,
        event is Exited <==> event@ is Exited,
        event is Ended <==> event@ is Ended,
        match event {
            Event::Failed(t) => event@ == EventView::Failed(t@),
            Event::Exe(p) => event@ == EventView::Exe(p@),
            Event::Ids { uid, gid } => event@ == (EventView::Ids { uid, gid }),
            Event::Exited(code) => event@ == EventView::Exited(code),
            _ => true,
        },
{
}

} // verus!
