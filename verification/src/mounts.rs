//! The mounts of the sandbox.
//!
//! A plan is a sequence of steps. They are performed in order; a required step
//! that fails ends the plan, another one that fails is passed over.

use crate::path;
use crate::text;
use vstd::prelude::*;
use vstd::string::StrSliceExecFns;

verus! {

/// Where the shims go when the sandbox was made without privileges.
pub const ROOTLESS_SHIMS_DIR: &'static str = "/tmp/.ronly-shims";

/// The flags of a mount request.
#[derive(Clone, Copy, Debug, PartialEq, Eq, Structural)]
pub struct MountFlags {
    pub bind: bool,
    pub nodev: bool,
    pub nosuid: bool,
    pub private: bool,
    pub rdonly: bool,
    pub rec: bool,
    pub remount: bool,
}

/// A mount request.
#[derive(Debug)]
pub struct Mount {
    pub source: Option<String>,
    pub target: String,
    pub fstype: Option<String>,
    pub flags: MountFlags,
    pub data: Option<String>,
}

/// What a mount request says.
pub struct MountView {
    pub source: Option<Seq<char>>,
    pub target: Seq<char>,
    pub fstype: Option<Seq<char>>,
    pub flags: MountFlags,
    pub data: Option<Seq<char>>,
}

impl View for Mount {
    type V = MountView;

    open spec fn view(&self) -> MountView {
        MountView {
            source: text::text_of(self.source),
            target: self.target@,
            fstype: text::text_of(self.fstype),
            flags: self.flags,
            data: text::text_of(self.data),
        }
    }
}

/// Something to do on the file system.
#[derive(Debug)]
pub enum Task {
    /// Create a directory and its parents.
    CreateDir(Vec<u8>),
    /// Make a mount.
    Mount(Mount),
    /// Copy the executable into the directory as each of the shims.
    CopyShims { exe: Vec<u8>, dir: String },
    /// Bind the executable into the directory as each of the shims.
    InstallShims { exe: Vec<u8>, dir: String },
}

/// What a task says.
pub enum TaskView {
    CreateDir(Seq<u8>),
    Mount(MountView),
    CopyShims { exe: Seq<u8>, dir: Seq<char> },
    InstallShims { exe: Seq<u8>, dir: Seq<char> },
}

impl View for Task {
    type V = TaskView;

    open spec fn view(&self) -> TaskView {
        match *self {
            Task::CreateDir(p) => TaskView::CreateDir(p@),
            Task::Mount(m) => TaskView::Mount(m@),
            Task::CopyShims { exe, dir } => TaskView::CopyShims { exe: exe@, dir: dir@ },
            Task::InstallShims { exe, dir } => TaskView::InstallShims { exe: exe@, dir: dir@ },
        }
    }
}

/// A step of a plan.
#[derive(Debug)]
pub struct Step {
    pub task: Task,
    pub required: bool,
}

/// What a step says.
pub struct StepView {
    pub task: TaskView,
    pub required: bool,
}

impl View for Step {
    type V = StepView;

    open spec fn view(&self) -> StepView {
        StepView { task: self.task@, required: self.required }
    }
}

/// A directory that is to be writable: its path, and the text of it that a
/// mount request takes.
#[derive(Debug)]
pub struct Directory {
    pub raw: Vec<u8>,
    pub text: String,
}

/// What a directory says.
pub struct DirectoryView {
    pub raw: Seq<u8>,
    pub text: Seq<char>,
}

impl View for Directory {
    type V = DirectoryView;

    open spec fn view(&self) -> DirectoryView {
        DirectoryView { raw: self.raw@, text: self.text@ }
    }
}

/// The steps of a vector, taken by their views.
pub open spec fn step_views(v: Seq<Step>) -> Seq<StepView> {
    Seq::new(v.len(), |i: int| v[i]@)
}

/// The directories of a vector, taken by their views.
pub open spec fn directory_views(v: Seq<Directory>) -> Seq<DirectoryView> {
    Seq::new(v.len(), |i: int| v[i]@)
}

// ---------------------------------------------------------------------------
// What the plan is
// ---------------------------------------------------------------------------

/// No flag at all.
pub open spec fn no_flags() -> MountFlags {
    MountFlags {
        bind: false,
        nodev: false,
        nosuid: false,
        private: false,
        rdonly: false,
        rec: false,
        remount: false,
    }
}

/// The request for a tmpfs of this size at this place.
pub open spec fn tmpfs(target: Seq<char>, size: Seq<char>) -> MountView {
    MountView {
        source: Some("tmpfs"@),
        target,
        fstype: Some("tmpfs"@),
        flags: MountFlags { nosuid: true, nodev: true, ..no_flags() },
        data: Some("size="@ + size),
    }
}

/// The request that parts the mount tree from the one outside.
pub open spec fn private_root() -> MountView {
    MountView {
        source: None,
        target: "/"@,
        fstype: None,
        flags: MountFlags { rec: true, private: true, ..no_flags() },
        data: None,
    }
}

/// The request that makes the root read-only.
pub open spec fn read_only_root() -> MountView {
    MountView {
        source: Some("/"@),
        target: "/"@,
        fstype: None,
        flags: MountFlags { bind: true, remount: true, rdonly: true, rec: true, ..no_flags() },
        data: None,
    }
}

/// A step that has to succeed.
pub open spec fn needed(task: TaskView) -> StepView {
    StepView { task, required: true }
}

/// A step that may fail.
pub open spec fn tried(task: TaskView) -> StepView {
    StepView { task, required: false }
}

/// The bytes of a text.
pub open spec fn bytes_of(text: Seq<char>) -> Seq<u8> {
    vstd::utf8::encode_utf8(text)
}

/// Whether the directory is `/tmp` or lies below it, and is not the one for the
/// shims.
pub open spec fn in_fresh_tmp(d: DirectoryView) -> bool {
    path::is_within(d.raw, bytes_of("/tmp/"@)) && !path::is_same(d.raw, bytes_of(ROOTLESS_SHIMS_DIR@))
}

/// Whether a mount is made for the directory: without privileges, the one for
/// the shims is left alone.
pub open spec fn gets_mount(d: DirectoryView, rootless: bool) -> bool {
    !(rootless && d.text == ROOTLESS_SHIMS_DIR@)
}

/// Before anything is read-only: create the directories that mounts go to.
pub open spec fn prepare_steps(
    dirs: Seq<DirectoryView>,
    rootless: bool,
    system_shims: Seq<char>,
) -> Seq<StepView> {
    (if rootless {
        Seq::empty()
    } else {
        seq![tried(TaskView::CreateDir(bytes_of(system_shims)))]
    }) + dirs.map_values(|d: DirectoryView| tried(TaskView::CreateDir(d.raw)))
}

/// The two steps that make the root private and read-only.
pub open spec fn root_steps() -> Seq<StepView> {
    seq![needed(TaskView::Mount(private_root())), needed(TaskView::Mount(read_only_root()))]
}

/// Without privileges: a fresh `/tmp`, in it the writable directories that
/// belong there, and the shims copied into it.
pub open spec fn rootless_steps(
    dirs: Seq<DirectoryView>,
    size: Seq<char>,
    exe: Option<Seq<u8>>,
) -> Seq<StepView> {
    seq![needed(TaskView::Mount(tmpfs("/tmp"@, size)))]
        + dirs.filter(|d: DirectoryView| in_fresh_tmp(d)).map_values(
        |d: DirectoryView| needed(TaskView::CreateDir(d.raw)),
    ) + seq![needed(TaskView::CreateDir(bytes_of(ROOTLESS_SHIMS_DIR@)))] + (if exe is Some {
        seq![
            needed(
                TaskView::CopyShims { exe: bytes_of("/proc/self/exe"@), dir: ROOTLESS_SHIMS_DIR@ },
            ),
        ]
    } else {
        Seq::empty()
    })
}

/// With privileges: the shims first, while the executable is still visible,
/// and then a fresh `/tmp`.
pub open spec fn privileged_steps(
    size: Seq<char>,
    exe: Option<Seq<u8>>,
    system_shims: Seq<char>,
) -> Seq<StepView> {
    seq![needed(TaskView::Mount(tmpfs(system_shims, "1m"@)))] + (match exe {
        Some(exe) => seq![needed(TaskView::InstallShims { exe, dir: system_shims })],
        None => Seq::empty(),
    }) + seq![needed(TaskView::Mount(tmpfs("/tmp"@, size)))]
}

/// A tmpfs for each directory that is to be writable.
pub open spec fn writable_steps(
    dirs: Seq<DirectoryView>,
    size: Seq<char>,
    rootless: bool,
) -> Seq<StepView> {
    dirs.filter(|d: DirectoryView| gets_mount(d, rootless)).map_values(
        |d: DirectoryView| needed(TaskView::Mount(tmpfs(d.text, size))),
    )
}

/// The whole plan.
pub open spec fn mount_plan(
    dirs: Seq<DirectoryView>,
    size: Seq<char>,
    exe: Option<Seq<u8>>,
    rootless: bool,
    system_shims: Seq<char>,
) -> Seq<StepView> {
    prepare_steps(dirs, rootless, system_shims) + root_steps() + (if rootless {
        rootless_steps(dirs, size, exe)
    } else {
        privileged_steps(size, exe, system_shims)
    }) + writable_steps(dirs, size, rootless)
}

/// The directory that the shims are in.
pub open spec fn shims_place(rootless: bool, system_shims: Seq<char>) -> Seq<char> {
    if rootless {
        ROOTLESS_SHIMS_DIR@
    } else {
        system_shims
    }
}

// ---------------------------------------------------------------------------
// Making the plan
// ---------------------------------------------------------------------------

/// The request for a tmpfs of this size at this place.
pub fn mount_tmpfs(target: &str, size: &str) -> (m: Mount)
    ensures
        m@ == tmpfs(target@, size@),
        m.source matches Some(s) && s@ == "tmpfs"@,
        m.target@ == target@,
        m.fstype matches Some(s) && s@ == "tmpfs"@,
        m.flags == (MountFlags {
            bind: false,
            nodev: true,
            nosuid: true,
            private: false,
            rdonly: false,
            rec: false,
            remount: false,
        }),
        m.data matches Some(s) && s@ == "size="@ + size@,
{
    Mount {
        source: Some("tmpfs".to_owned()),
        target: target.to_owned(),
        fstype: Some("tmpfs".to_owned()),
        flags: MountFlags {
            bind: false,
            nodev: true,
            nosuid: true,
            private: false,
            rdonly: false,
            rec: false,
            remount: false,
        },
        data: Some(text::prefixed("size=", size)),
    }
}

/// Adding a step to a vector adds its view to the views.
proof fn pushed(before: Seq<Step>, step: Step)
    ensures
        step_views(before.push(step)) == step_views(before).push(step@),
{
    assert(step_views(before.push(step)) =~= step_views(before).push(step@));
}

/// Adds the steps that come before the root is read-only.
fn add_prepare(steps: &mut Vec<Step>, dirs: &Vec<Directory>, rootless: bool, system_shims: &str)
    ensures
        step_views(final(steps)@) == step_views(old(steps)@) + prepare_steps(
            directory_views(dirs@),
            rootless,
            system_shims@,
        ),
{
    let ghost start = step_views(steps@);
    let ghost views = directory_views(dirs@);
    let ghost create = |d: DirectoryView| tried(TaskView::CreateDir(d.raw));
    let ghost first: Seq<StepView> = if rootless {
        Seq::empty()
    } else {
        seq![tried(TaskView::CreateDir(bytes_of(system_shims@)))]
    };
    if !rootless {
        let step = Step { task: Task::CreateDir(system_shims.as_bytes_vec()), required: false };
        proof {
            pushed(steps@, step);
        }
        steps.push(step);
    }
    assert(step_views(steps@) =~= start + first + views.take(0).map_values(create));
    let mut i: usize = 0;
    while i < dirs.len()
        invariant
            i <= dirs.len(),
            views == directory_views(dirs@),
            create == (|d: DirectoryView| tried(TaskView::CreateDir(d.raw))),
            step_views(steps@) == start + first + views.take(i as int).map_values(create),
        decreases dirs.len() - i,
    {
        let step = Step { task: Task::CreateDir(dirs[i].raw.clone()), required: false };
        proof {
            pushed(steps@, step);
            assert(step@ == create(views[i as int]));
            assert(views.take(i + 1).map_values(create) =~= views.take(i as int).map_values(
                create,
            ).push(step@));
        }
        steps.push(step);
        i += 1;
        assert(step_views(steps@) =~= start + first + views.take(i as int).map_values(create));
    }
    proof {
        assert(views.take(views.len() as int) =~= views);
        assert(step_views(steps@) =~= start + prepare_steps(views, rootless, system_shims@));
    }
}

/// Adds the steps that make the root private and read-only.
fn add_root(steps: &mut Vec<Step>)
    ensures
        step_views(final(steps)@) == step_views(old(steps)@) + root_steps(),
{
    let ghost start = step_views(steps@);
    let private = Mount {
        source: None,
        target: "/".to_owned(),
        fstype: None,
        flags: MountFlags {
            bind: false,
            nodev: false,
            nosuid: false,
            private: true,
            rdonly: false,
            rec: true,
            remount: false,
        },
        data: None,
    };
    let read_only = Mount {
        source: Some("/".to_owned()),
        target: "/".to_owned(),
        fstype: None,
        flags: MountFlags {
            bind: true,
            nodev: false,
            nosuid: false,
            private: false,
            rdonly: true,
            rec: true,
            remount: true,
        },
        data: None,
    };
    steps.push(Step { task: Task::Mount(private), required: true });
    steps.push(Step { task: Task::Mount(read_only), required: true });
    assert(step_views(steps@) =~= start + root_steps());
}

/// Adds the creation of the directories that lie in the fresh `/tmp`.
fn add_tmp_dirs(steps: &mut Vec<Step>, dirs: &Vec<Directory>)
    ensures
        step_views(final(steps)@) == step_views(old(steps)@) + directory_views(dirs@).filter(
            |d: DirectoryView| in_fresh_tmp(d),
        ).map_values(|d: DirectoryView| needed(TaskView::CreateDir(d.raw))),
{
    let ghost start = step_views(steps@);
    let ghost views = directory_views(dirs@);
    let ghost chosen = |d: DirectoryView| in_fresh_tmp(d);
    let ghost create = |d: DirectoryView| needed(TaskView::CreateDir(d.raw));
    proof {
        reveal(Seq::filter);
        assert(views.take(0).filter(chosen) =~= Seq::empty());
        assert(step_views(steps@) =~= start + views.take(0).filter(chosen).map_values(create));
    }
    let mut i: usize = 0;
    while i < dirs.len()
        invariant
            i <= dirs.len(),
            views == directory_views(dirs@),
            chosen == (|d: DirectoryView| in_fresh_tmp(d)),
            create == (|d: DirectoryView| needed(TaskView::CreateDir(d.raw))),
            step_views(steps@) == start + views.take(i as int).filter(chosen).map_values(create),
        decreases dirs.len() - i,
    {
        let ghost before = views.take(i as int).filter(chosen);
        proof {
            reveal(Seq::filter);
            assert(views.take(i + 1).drop_last() =~= views.take(i as int));
            assert(views.take(i + 1).last() == dirs[i as int]@);
        }
        let raw = &dirs[i].raw;
        if path::starts_with(raw, "/tmp/".as_bytes()) && !path::same_path(
            raw,
            ROOTLESS_SHIMS_DIR.as_bytes(),
        ) {
            let step = Step { task: Task::CreateDir(raw.clone()), required: true };
            proof {
                pushed(steps@, step);
                assert(step@ == create(views[i as int]));
                assert(before.push(views[i as int]).map_values(create) =~= before.map_values(
                    create,
                ).push(step@));
            }
            steps.push(step);
        }
        i += 1;
        assert(step_views(steps@) =~= start + views.take(i as int).filter(chosen).map_values(create));
    }
    assert(views.take(views.len() as int) =~= views);
}

/// Adds the mounts of the directories that are to be writable.
fn add_writable(steps: &mut Vec<Step>, dirs: &Vec<Directory>, size: &str, rootless: bool)
    ensures
        step_views(final(steps)@) == step_views(old(steps)@) + writable_steps(
            directory_views(dirs@),
            size@,
            rootless,
        ),
{
    let ghost start = step_views(steps@);
    let ghost views = directory_views(dirs@);
    let ghost chosen = |d: DirectoryView| gets_mount(d, rootless);
    let ghost mount = |d: DirectoryView| needed(TaskView::Mount(tmpfs(d.text, size@)));
    let shims_dir: String = ROOTLESS_SHIMS_DIR.to_owned();
    proof {
        reveal(Seq::filter);
        assert(views.take(0).filter(chosen) =~= Seq::empty());
        assert(step_views(steps@) =~= start + views.take(0).filter(chosen).map_values(mount));
    }
    let mut i: usize = 0;
    while i < dirs.len()
        invariant
            i <= dirs.len(),
            views == directory_views(dirs@),
            shims_dir@ == ROOTLESS_SHIMS_DIR@,
            chosen == (|d: DirectoryView| gets_mount(d, rootless)),
            mount == (|d: DirectoryView| needed(TaskView::Mount(tmpfs(d.text, size@)))),
            step_views(steps@) == start + views.take(i as int).filter(chosen).map_values(mount),
        decreases dirs.len() - i,
    {
        let ghost before = views.take(i as int).filter(chosen);
        proof {
            reveal(Seq::filter);
            assert(views.take(i + 1).drop_last() =~= views.take(i as int));
            assert(views.take(i + 1).last() == dirs[i as int]@);
        }
        if !(rootless && dirs[i].text == shims_dir) {
            let step = Step {
                task: Task::Mount(mount_tmpfs(dirs[i].text.as_str(), size)),
                required: true,
            };
            proof {
                pushed(steps@, step);
                assert(step@ == mount(views[i as int]));
                assert(before.push(views[i as int]).map_values(mount) =~= before.map_values(
                    mount,
                ).push(step@));
            }
            steps.push(step);
        }
        i += 1;
        assert(step_views(steps@) =~= start + views.take(i as int).filter(chosen).map_values(mount));
    }
    assert(views.take(views.len() as int) =~= views);
}

/// The plan of the mounts, and the directory that the shims are in.
pub fn setup_mounts(
    dirs: &Vec<Directory>,
    tmpfs_size: &str,
    self_exe: &Option<Vec<u8>>,
    rootless: bool,
    system_shims: &str,
) -> (r: (Vec<Step>, String))
    ensures
        step_views(r.0@) == mount_plan(
            directory_views(dirs@),
            tmpfs_size@,
            path::path_of(*self_exe),
            rootless,
            system_shims@,
        ),
        r.1@ == shims_place(rootless, system_shims@),
        rootless ==> r.1@ == "/tmp/.ronly-shims"@,
        !rootless ==> r.1@ == system_shims@,
{
    let mut steps: Vec<Step> = Vec::new();
    let ghost views = directory_views(dirs@);
    let ghost exe = path::path_of(*self_exe);
    assert(step_views(steps@) =~= Seq::empty());
    add_prepare(&mut steps, dirs, rootless, system_shims);
    add_root(&mut steps);
    let ghost before = step_views(steps@);
    assert(before =~= prepare_steps(views, rootless, system_shims@) + root_steps());
    let shims_dir: String;
    if rootless {
        steps.push(Step { task: Task::Mount(mount_tmpfs("/tmp", tmpfs_size)), required: true });
        assert(step_views(steps@) =~= before + seq![
            needed(TaskView::Mount(tmpfs("/tmp"@, tmpfs_size@))),
        ]);
        add_tmp_dirs(&mut steps, dirs);
        shims_dir = ROOTLESS_SHIMS_DIR.to_owned();
        let ghost made = step_views(steps@);
        steps.push(
            Step { task: Task::CreateDir(ROOTLESS_SHIMS_DIR.as_bytes_vec()), required: true },
        );
        let ghost place = needed(TaskView::CreateDir(bytes_of(ROOTLESS_SHIMS_DIR@)));
        assert(step_views(steps@) =~= made.push(place));
        if self_exe.is_some() {
            steps.push(
                Step {
                    task: Task::CopyShims {
                        exe: "/proc/self/exe".as_bytes_vec(),
                        dir: shims_dir.clone(),
                    },
                    required: true,
                },
            );
        }
        let ghost copy = TaskView::CopyShims {
            exe: bytes_of("/proc/self/exe"@),
            dir: ROOTLESS_SHIMS_DIR@,
        };
        assert(exe is Some ==> step_views(steps@) =~= made.push(place).push(needed(copy)));
        assert(step_views(steps@) =~= before + rootless_steps(views, tmpfs_size@, exe));
    } else {
        shims_dir = system_shims.to_owned();
        steps.push(Step { task: Task::Mount(mount_tmpfs(system_shims, "1m")), required: true });
        if let Some(found) = self_exe {
            steps.push(
                Step {
                    task: Task::InstallShims { exe: found.clone(), dir: shims_dir.clone() },
                    required: true,
                },
            );
        }
        steps.push(Step { task: Task::Mount(mount_tmpfs("/tmp", tmpfs_size)), required: true });
        assert(step_views(steps@) =~= before + privileged_steps(tmpfs_size@, exe, system_shims@));
    }
    add_writable(&mut steps, dirs, tmpfs_size, rootless);
    assert(step_views(steps@) =~= mount_plan(views, tmpfs_size@, exe, rootless, system_shims@));
    (steps, shims_dir)
}

// ---------------------------------------------------------------------------
// Laws
// ---------------------------------------------------------------------------

/// The position of the step that makes the root read-only.
pub open spec fn read_only_at(dirs: Seq<DirectoryView>, rootless: bool) -> int {
    dirs.len() + (if rootless {
        1
    } else {
        2int
    })
}

/// The position of the step that mounts the fresh `/tmp`.
pub open spec fn fresh_tmp_at(
    dirs: Seq<DirectoryView>,
    exe: Option<Seq<u8>>,
    rootless: bool,
) -> int {
    read_only_at(dirs, rootless) + (if rootless {
        1
    } else if exe is Some {
        3
    } else {
        2int
    })
}

/// The plan makes the root read-only. Before that it only tries to create
/// directories, each writable one among them, and parts the mount tree from the
/// one outside; from there on every step has to succeed, and every mount is a
/// tmpfs without devices and set-user-id programs, so that nothing makes the
/// root writable again.
pub proof fn root_becomes_read_only(
    dirs: Seq<DirectoryView>,
    size: Seq<char>,
    exe: Option<Seq<u8>>,
    rootless: bool,
    system_shims: Seq<char>,
)
    ensures
        ({
            let plan = mount_plan(dirs, size, exe, rootless, system_shims);
            let at = read_only_at(dirs, rootless);
            &&& 1 <= at < plan.len()
            &&& plan[at] == needed(TaskView::Mount(read_only_root()))
            &&& plan[at - 1] == needed(TaskView::Mount(private_root()))
            &&& forall|i: int|
                0 <= i < at - 1 ==> (#[trigger] plan[i]).task is CreateDir && !plan[i].required
            &&& forall|j: int|
                0 <= j < dirs.len() ==> #[trigger] plan[at - 1 - dirs.len() + j] == tried(
                    TaskView::CreateDir(dirs[j].raw),
                )
            &&& forall|i: int| at <= i < plan.len() ==> (#[trigger] plan[i]).required
            &&& forall|i: int|
                at < i < plan.len() ==> ((#[trigger] plan[i]).task matches TaskView::Mount(m) ==> {
                    &&& m.fstype == Some("tmpfs"@)
                    &&& m.flags == MountFlags { nosuid: true, nodev: true, ..no_flags() }
                })
        }),
{
    let plan = mount_plan(dirs, size, exe, rootless, system_shims);
    let prepare = prepare_steps(dirs, rootless, system_shims);
    let at = read_only_at(dirs, rootless);
    assert(prepare.len() == at - 1);
    assert forall|j: int| 0 <= j < dirs.len() implies #[trigger] plan[at - 1 - dirs.len() + j]
        == tried(TaskView::CreateDir(dirs[j].raw)) by {
        assert(plan[at - 1 - dirs.len() + j] == prepare[at - 1 - dirs.len() + j]);
    }
    assert forall|i: int| 0 <= i < at - 1 implies (#[trigger] plan[i]).task is CreateDir
        && !plan[i].required by {
        assert(plan[i] == prepare[i]);
    }
}

/// In either mode the plan mounts a tmpfs of the asked size on `/tmp`, behind
/// the step that makes the root read-only.
pub proof fn tmp_is_fresh(
    dirs: Seq<DirectoryView>,
    size: Seq<char>,
    exe: Option<Seq<u8>>,
    rootless: bool,
    system_shims: Seq<char>,
)
    ensures
        ({
            let plan = mount_plan(dirs, size, exe, rootless, system_shims);
            let at = fresh_tmp_at(dirs, exe, rootless);
            &&& read_only_at(dirs, rootless) < at < plan.len()
            &&& plan[at] == needed(TaskView::Mount(tmpfs("/tmp"@, size)))
        }),
{
    let plan = mount_plan(dirs, size, exe, rootless, system_shims);
    let at = fresh_tmp_at(dirs, exe, rootless);
    let start = read_only_at(dirs, rootless) + 1;
    if rootless {
        assert(plan[at] == rootless_steps(dirs, size, exe)[at - start]);
    } else {
        assert(plan[at] == privileged_steps(size, exe, system_shims)[at - start]);
    }
}

/// With privileges the shims are mounted and installed before `/tmp` is
/// mounted, so that an executable that lies there can still be found.
pub proof fn privileged_shims_before_tmp(
    dirs: Seq<DirectoryView>,
    size: Seq<char>,
    exe: Seq<u8>,
    system_shims: Seq<char>,
)
    ensures
        ({
            let plan = mount_plan(dirs, size, Some(exe), false, system_shims);
            let at = fresh_tmp_at(dirs, Some(exe), false);
            &&& at >= 2
            &&& plan[at - 2] == needed(TaskView::Mount(tmpfs(system_shims, "1m"@)))
            &&& plan[at - 1] == needed(TaskView::InstallShims { exe, dir: system_shims })
        }),
{
    let plan = mount_plan(dirs, size, Some(exe), false, system_shims);
    let start = read_only_at(dirs, false) + 1;
    let steps = privileged_steps(size, Some(exe), system_shims);
    assert(plan[start] == steps[0]);
    assert(plan[start + 1] == steps[1]);
}

/// A filtered sequence holds an element exactly where the sequence does and the
/// element is chosen.
proof fn filter_holds(dirs: Seq<DirectoryView>, chosen: spec_fn(DirectoryView) -> bool, d: DirectoryView)
    ensures
        dirs.filter(chosen).contains(d) <==> dirs.contains(d) && chosen(d),
    decreases dirs.len(),
{
    reveal(Seq::filter);
    if dirs.len() > 0 {
        let rest = dirs.drop_last();
        filter_holds(rest, chosen, d);
        assert(dirs =~= rest.push(dirs.last()));
        if dirs.contains(d) {
            let i = choose|i: int| 0 <= i < dirs.len() && dirs[i] == d;
            if i < rest.len() {
                assert(rest[i] == d);
            }
        }
        if rest.contains(d) {
            let i = choose|i: int| 0 <= i < rest.len() && rest[i] == d;
            assert(dirs[i] == d);
        }
        let kept = rest.filter(chosen);
        let all = dirs.filter(chosen);
        if all.contains(d) {
            let i = choose|i: int| 0 <= i < all.len() && all[i] == d;
            if i < kept.len() {
                assert(kept[i] == d);
            }
        }
        if kept.contains(d) {
            let i = choose|i: int| 0 <= i < kept.len() && kept[i] == d;
            assert(all[i] == d);
        }
        if chosen(dirs.last()) {
            assert(all[all.len() - 1] == dirs.last());
        }
    }
}

/// Each directory that is to be writable gets a tmpfs of the asked size, behind
/// the fresh `/tmp`; without privileges only the one whose text is that of the
/// shims' directory gets none.
pub proof fn writable_is_mounted(
    dirs: Seq<DirectoryView>,
    size: Seq<char>,
    exe: Option<Seq<u8>>,
    rootless: bool,
    system_shims: Seq<char>,
    d: DirectoryView,
)
    requires
        dirs.contains(d),
        gets_mount(d, rootless),
    ensures
        exists|i: int|
            fresh_tmp_at(dirs, exe, rootless) < i < mount_plan(
                dirs,
                size,
                exe,
                rootless,
                system_shims,
            ).len() && #[trigger] mount_plan(dirs, size, exe, rootless, system_shims)[i] == needed(
                TaskView::Mount(tmpfs(d.text, size)),
            ),
{
    let plan = mount_plan(dirs, size, exe, rootless, system_shims);
    let chosen = |d: DirectoryView| gets_mount(d, rootless);
    let kept = dirs.filter(chosen);
    filter_holds(dirs, chosen, d);
    let k = choose|k: int| 0 <= k < kept.len() && kept[k] == d;
    let last = writable_steps(dirs, size, rootless);
    assert(last[k] == needed(TaskView::Mount(tmpfs(d.text, size))));
    let i = plan.len() - last.len() + k;
    assert(plan[i] == last[k]);
}

/// Without privileges, a writable directory in `/tmp` other than the shims' is
/// created in the fresh `/tmp` before its own tmpfs is mounted.
pub proof fn tmp_dir_is_created(
    dirs: Seq<DirectoryView>,
    size: Seq<char>,
    exe: Option<Seq<u8>>,
    system_shims: Seq<char>,
    d: DirectoryView,
)
    requires
        dirs.contains(d),
        in_fresh_tmp(d),
        gets_mount(d, true),
    ensures
        exists|i: int, j: int|
            #![trigger mount_plan(dirs, size, exe, true, system_shims)[i], mount_plan(dirs, size, exe, true, system_shims)[j]]
            fresh_tmp_at(dirs, exe, true) < i < j < mount_plan(
                dirs,
                size,
                exe,
                true,
                system_shims,
            ).len() && mount_plan(dirs, size, exe, true, system_shims)[i] == needed(
                TaskView::CreateDir(d.raw),
            ) && mount_plan(dirs, size, exe, true, system_shims)[j] == needed(
                TaskView::Mount(tmpfs(d.text, size)),
            ),
{
    let plan = mount_plan(dirs, size, exe, true, system_shims);
    let chosen = |d: DirectoryView| in_fresh_tmp(d);
    let kept = dirs.filter(chosen);
    filter_holds(dirs, chosen, d);
    let k = choose|k: int| 0 <= k < kept.len() && kept[k] == d;
    let steps = rootless_steps(dirs, size, exe);
    assert(steps[1 + k] == needed(TaskView::CreateDir(d.raw)));
    let i = read_only_at(dirs, true) + 1 + 1 + k;
    assert(plan[i] == steps[1 + k]);
    let mounting = |d: DirectoryView| gets_mount(d, true);
    let late = dirs.filter(mounting);
    filter_holds(dirs, mounting, d);
    let l = choose|l: int| 0 <= l < late.len() && late[l] == d;
    let last = writable_steps(dirs, size, true);
    assert(last[l] == needed(TaskView::Mount(tmpfs(d.text, size))));
    let j = plan.len() - last.len() + l;
    assert(plan[j] == last[l]);
}

/// Without privileges the shims go into the fresh `/tmp`: their directory is
/// created behind its mount, the executable is copied there where there are
/// shims, and no mount has the text of that directory as its target.
pub proof fn rootless_shims_in_fresh_tmp(
    dirs: Seq<DirectoryView>,
    size: Seq<char>,
    exe: Option<Seq<u8>>,
    system_shims: Seq<char>,
)
    ensures
        ({
            let plan = mount_plan(dirs, size, exe, true, system_shims);
            let tmp = fresh_tmp_at(dirs, exe, true);
            &&& exists|i: int|
                tmp < i < plan.len() && #[trigger] plan[i] == needed(
                    TaskView::CreateDir(bytes_of(ROOTLESS_SHIMS_DIR@)),
                ) && (exe is Some ==> i + 1 < plan.len() && plan[i + 1] == needed(
                    TaskView::CopyShims {
                        exe: bytes_of("/proc/self/exe"@),
                        dir: ROOTLESS_SHIMS_DIR@,
                    },
                ))
            &&& forall|i: int|
                0 <= i < plan.len() ==> ((#[trigger] plan[i]).task matches TaskView::Mount(m)
                    ==> m.target != ROOTLESS_SHIMS_DIR@)
        }),
{
    let plan = mount_plan(dirs, size, exe, true, system_shims);
    let start = read_only_at(dirs, true) + 1;
    let steps = rootless_steps(dirs, size, exe);
    let kept = dirs.filter(|d: DirectoryView| in_fresh_tmp(d));
    let k = 1 + kept.len() as int;
    assert(steps[k] == needed(TaskView::CreateDir(bytes_of(ROOTLESS_SHIMS_DIR@))));
    assert(plan[start + k] == steps[k]);
    if exe is Some {
        assert(plan[start + k + 1] == steps[k + 1]);
    }
    reveal_strlit("/tmp/.ronly-shims");
    reveal_strlit("/");
    reveal_strlit("/tmp");
    let chosen = |d: DirectoryView| gets_mount(d, true);
    let late = dirs.filter(chosen);
    let last = writable_steps(dirs, size, true);
    let before = plan.len() - last.len();
    assert forall|i: int| 0 <= i < plan.len() implies ((#[trigger] plan[i]).task matches TaskView::Mount(
        m,
    ) ==> m.target != ROOTLESS_SHIMS_DIR@) by {
        if i >= before {
            assert(plan[i] == last[i - before]);
            assert(late.contains(late[i - before]));
            filter_holds(dirs, chosen, late[i - before]);
        } else if i >= start {
            assert(plan[i] == steps[i - start]);
        } else if i < start - 2 {
            assert(plan[i] == prepare_steps(dirs, true, system_shims)[i]);
        } else {
            assert(plan[i] == root_steps()[i - (start - 2)]);
        }
    }
}

/// A step is told by what it asks for and by whether it has to succeed.
pub proof fn step_by_parts(step: Step)
    ensures
        step@.required == step.required,
        match step.task {
            Task::CreateDir(p) => step@.task == TaskView::CreateDir(p@),
            Task::Mount(m) => step@.task == TaskView::Mount(m@)
                && m@.target == m.target@
                && m@.flags
                == m.flags && m@.source == (match m.source {
                Some(s) => Some(s@),
                None => None,
            }) && m@.fstype == (match m.fstype {
                Some(s) => Some(s@),
                None => None,
            }) && m@.data == (match m.data {
                Some(s) => Some(s@),
                None => None,
            }),
            Task::CopyShims { exe, dir } => step@.task == (TaskView::CopyShims {
                exe: exe@,
                dir: dir@,
            }),
            Task::InstallShims { exe, dir } => step@.task == (TaskView::InstallShims {
                exe: exe@,
                dir: dir@,
            }),
        },
{
}

/// There is one view for each step and each directory of a vector, at its
/// position.
pub proof fn views_by_position(steps: Seq<Step>, dirs: Seq<Directory>, i: int)
    ensures
        step_views(steps).len() == steps.len(),
        0 <= i < steps.len() ==> step_views(steps)[i] == steps[i]@,
        directory_views(dirs).len() == dirs.len(),
        0 <= i < dirs.len() ==> directory_views(dirs)[i].raw == dirs[i].raw@,
        0 <= i < dirs.len() ==> directory_views(dirs)[i].text == dirs[i].text@,
{
}

/// The bytes of the texts that tell where the fresh `/tmp` and the shims are.
proof fn known_bytes()
    ensures
        vstd::utf8::encode_utf8("/"@) == seq![47u8],
        vstd::utf8::encode_utf8("tmp"@) == seq![116u8, 109, 112],
        vstd::utf8::encode_utf8("/tmp/"@) == seq![47u8, 116, 109, 112, 47],
        vstd::utf8::encode_utf8(".ronly-shims"@).len() == 12,
        forall|i: int|
            0 <= i < 12 ==> #[trigger] vstd::utf8::encode_utf8(".ronly-shims"@)[i] != 47,
        vstd::utf8::encode_utf8(".ronly-shims"@) != seq![46u8],
        vstd::utf8::encode_utf8("/tmp/.ronly-shims"@) == seq![47u8, 116, 109, 112, 47]
            + vstd::utf8::encode_utf8(".ronly-shims"@),
{
    reveal_strlit("/");
    reveal_strlit("tmp");
    reveal_strlit("/tmp/");
    reveal_strlit(".ronly-shims");
    reveal_strlit("/tmp/.ronly-shims");
    vstd::utf8::is_ascii_chars_encode_utf8("/"@);
    vstd::utf8::is_ascii_chars_encode_utf8("tmp"@);
    vstd::utf8::is_ascii_chars_encode_utf8("/tmp/"@);
    vstd::utf8::is_ascii_chars_encode_utf8(".ronly-shims"@);
    vstd::utf8::is_ascii_chars_encode_utf8("/tmp/.ronly-shims"@);
    let name = vstd::utf8::encode_utf8(".ronly-shims"@);
    assert(name =~= seq![46u8, 114, 111, 110, 108, 121, 45, 115, 104, 105, 109, 115]);
    assert(vstd::utf8::encode_utf8("/"@) =~= seq![47u8]);
    assert(vstd::utf8::encode_utf8("tmp"@) =~= seq![116u8, 109, 112]);
    assert(vstd::utf8::encode_utf8("/tmp/"@) =~= seq![47u8, 116, 109, 112, 47]);
    assert(vstd::utf8::encode_utf8("/tmp/.ronly-shims"@) =~= seq![47u8, 116, 109, 112, 47] + name);
}

/// The components of `/tmp/` and of the shims' directory in it.
proof fn known_components()
    ensures
        path::components(vstd::utf8::encode_utf8("/tmp/"@)) == seq![
            vstd::utf8::encode_utf8("/"@),
            vstd::utf8::encode_utf8("tmp"@),
        ],
        path::components(vstd::utf8::encode_utf8("/tmp/.ronly-shims"@)) == seq![
            vstd::utf8::encode_utf8("/"@),
            vstd::utf8::encode_utf8("tmp"@),
            vstd::utf8::encode_utf8(".ronly-shims"@),
        ],
{
    known_bytes();
    let none: Seq<u8> = Seq::empty();
    let tmp = vstd::utf8::encode_utf8("tmp"@);
    let name = vstd::utf8::encode_utf8(".ronly-shims"@);
    path::components_by_last_piece(none, tmp);
    let path = none + seq![47u8] + tmp;
    assert(path::components(path) =~= seq![seq![47u8], tmp]);
    path::components_by_last_piece(path, none);
    assert(path + seq![47u8] + none =~= vstd::utf8::encode_utf8("/tmp/"@));
    assert(path::components(path) + Seq::empty() =~= path::components(path));
    path::components_by_last_piece(path, name);
    assert(path + seq![47u8] + name =~= vstd::utf8::encode_utf8("/tmp/.ronly-shims"@));
    assert(path::components(path) + seq![name] =~= seq![seq![47u8], tmp, name]);
}

/// What lies in the fresh `/tmp`, by components.
proof fn in_tmp_by_components(d: DirectoryView)
    ensures
        in_fresh_tmp(d) <==> path::components(d.raw).len() >= 2
            && path::components(d.raw)[0] == vstd::utf8::encode_utf8("/"@)
            && path::components(d.raw)[1] == vstd::utf8::encode_utf8("tmp"@)
            && !(path::components(d.raw).len() == 3
                && path::components(d.raw)[2] == vstd::utf8::encode_utf8(".ronly-shims"@)),
{
    known_components();
    path::within_by_components(d.raw, vstd::utf8::encode_utf8("/tmp/"@));
    let parts = path::components(d.raw);
    let shims = path::components(vstd::utf8::encode_utf8("/tmp/.ronly-shims"@));
    if parts.len() == 3 && parts[0] == shims[0] && parts[1] == shims[1] && parts[2] == shims[2] {
        assert(parts =~= shims);
    }
}

/// Whether these positions, in increasing order, are exactly the chosen ones of
/// the first so many.
pub open spec fn picks(positions: Seq<int>, count: nat, chosen: spec_fn(int) -> bool) -> bool {
    &&& forall|k: int|
        0 <= k < positions.len() ==> 0 <= (#[trigger] positions[k]) < count && chosen(positions[k])
    &&& forall|k: int, l: int|
        0 <= k < l < positions.len() ==> #[trigger] positions[k] < #[trigger] positions[l]
    &&& forall|j: int| 0 <= j < count && #[trigger] chosen(j) ==> positions.contains(j)
}

/// A filtered sequence holds the chosen elements in their order.
proof fn filter_picks(
    dirs: Seq<DirectoryView>,
    chosen: spec_fn(DirectoryView) -> bool,
) -> (positions: Seq<
    int,
>)
    ensures
        picks(positions, dirs.len(), |j: int| chosen(dirs[j])),
        positions.len() == dirs.filter(chosen).len(),
        forall|k: int|
            0 <= k < positions.len() ==> dirs.filter(chosen)[k] == dirs[#[trigger] positions[k]],
    decreases dirs.len(),
{
    reveal(Seq::filter);
    let own = |j: int| chosen(dirs[j]);
    if dirs.len() == 0 {
        let positions: Seq<int> = Seq::empty();
        assert(picks(positions, dirs.len(), own));
        positions
    } else {
        let rest = dirs.drop_last();
        let last = dirs.len() - 1;
        let before = filter_picks(rest, chosen);
        let positions = if chosen(dirs.last()) {
            before.push(last)
        } else {
            before
        };
        let inner = |j: int| chosen(rest[j]);
        assert(picks(before, rest.len(), inner));
        assert forall|k: int| 0 <= k < positions.len() implies 0 <= (#[trigger] positions[k])
            < dirs.len() && own(positions[k]) && dirs.filter(chosen)[k] == dirs[positions[k]] by {
            if k < before.len() {
                assert(positions[k] == before[k]);
                assert(inner(before[k]));
                assert(rest[before[k]] == dirs[before[k]]);
            }
        }
        assert forall|j: int| 0 <= j < dirs.len() && #[trigger] own(j) implies positions.contains(
            j,
        ) by {
            if j < last {
                assert(rest[j] == dirs[j]);
                assert(inner(j));
                let k = choose|k: int| 0 <= k < before.len() && before[k] == j;
                assert(positions[k] == j);
            } else {
                assert(positions[positions.len() - 1] == j);
            }
        }
        assert(picks(positions, dirs.len(), own));
        positions
    }
}

/// The whole plan without privileges, step by step. Each writable directory is
/// tried to be created; the root is made private and then read-only; a tmpfs
/// comes on `/tmp`, and in it each writable directory that lies below `/tmp`,
/// however deep, is created, but for the one for the shims; that one is created
/// next, and filled where there are shims; last, each writable directory but the
/// one with the text of the shims' gets a tmpfs. The directories keep their
/// order throughout: what comes out are the positions of those that are created
/// in the fresh `/tmp`, and of those that get a tmpfs.
pub proof fn rootless_plan_in_full(
    dirs: Seq<DirectoryView>,
    size: Seq<char>,
    exe: Option<Seq<u8>>,
    system_shims: Seq<char>,
) -> (r: (Seq<int>, Seq<int>))
    ensures
        picks(
            r.0,
            dirs.len(),
            |j: int| path::components(dirs[j].raw).len() >= 2
                && path::components(dirs[j].raw)[0] == vstd::utf8::encode_utf8("/"@)
                && path::components(dirs[j].raw)[1] == vstd::utf8::encode_utf8("tmp"@)
                && !(path::components(dirs[j].raw).len() == 3
                    && path::components(dirs[j].raw)[2] == vstd::utf8::encode_utf8(".ronly-shims"@)),
        ),
        picks(r.1, dirs.len(), |j: int| dirs[j].text != "/tmp/.ronly-shims"@),
        ({
            let plan = mount_plan(dirs, size, exe, true, system_shims);
            let n = dirs.len() as int;
            let shims = n + 3 + r.0.len();
            let late = shims + (if exe is Some {
                2int
            } else {
                1int
            });
            &&& plan.len() == late + r.1.len()
            &&& forall|j: int|
                0 <= j < n ==> #[trigger] plan[j] == (StepView {
                    task: TaskView::CreateDir(dirs[j].raw),
                    required: false,
                })
            &&& plan[n] == (StepView {
                task: TaskView::Mount(MountView {
                    source: None,
                    target: "/"@,
                    fstype: None,
                    flags: MountFlags {
                        bind: false,
                        nodev: false,
                        nosuid: false,
                        private: true,
                        rdonly: false,
                        rec: true,
                        remount: false,
                    },
                    data: None,
                }),
                required: true,
            })
            &&& plan[n + 1] == (StepView {
                task: TaskView::Mount(MountView {
                    source: Some("/"@),
                    target: "/"@,
                    fstype: None,
                    flags: MountFlags {
                        bind: true,
                        nodev: false,
                        nosuid: false,
                        private: false,
                        rdonly: true,
                        rec: true,
                        remount: true,
                    },
                    data: None,
                }),
                required: true,
            })
            &&& plan[n + 2] == (StepView {
                task: TaskView::Mount(MountView {
                    source: Some("tmpfs"@),
                    target: "/tmp"@,
                    fstype: Some("tmpfs"@),
                    flags: MountFlags {
                        bind: false,
                        nodev: true,
                        nosuid: true,
                        private: false,
                        rdonly: false,
                        rec: false,
                        remount: false,
                    },
                    data: Some("size="@ + size),
                }),
                required: true,
            })
            &&& forall|k: int|
                0 <= k < r.0.len() ==> #[trigger] plan[n + 3 + k] == (StepView {
                    task: TaskView::CreateDir(dirs[r.0[k]].raw),
                    required: true,
                })
            &&& plan[shims] == (StepView {
                task: TaskView::CreateDir(vstd::utf8::encode_utf8("/tmp/.ronly-shims"@)),
                required: true,
            })
            &&& exe is Some ==> plan[shims + 1] == (StepView {
                task: TaskView::CopyShims {
                    exe: vstd::utf8::encode_utf8("/proc/self/exe"@),
                    dir: "/tmp/.ronly-shims"@,
                },
                required: true,
            })
            &&& forall|k: int|
                0 <= k < r.1.len() ==> plan[late + k] == (StepView {
                    task: TaskView::Mount(MountView {
                        source: Some("tmpfs"@),
                        target: dirs[#[trigger] r.1[k]].text,
                        fstype: Some("tmpfs"@),
                        flags: MountFlags {
                            bind: false,
                            nodev: true,
                            nosuid: true,
                            private: false,
                            rdonly: false,
                            rec: false,
                            remount: false,
                        },
                        data: Some("size="@ + size),
                    }),
                    required: true,
                })
        }),
{
    let plan = mount_plan(dirs, size, exe, true, system_shims);
    let n = dirs.len() as int;
    let in_tmp = |d: DirectoryView| in_fresh_tmp(d);
    let mounting = |d: DirectoryView| gets_mount(d, true);
    let inside = filter_picks(dirs, in_tmp);
    let mounted = filter_picks(dirs, mounting);
    let prepare = prepare_steps(dirs, true, system_shims);
    let steps = rootless_steps(dirs, size, exe);
    let last = writable_steps(dirs, size, true);
    let late = n + 2 + steps.len();
    let below = |j: int| path::components(dirs[j].raw).len() >= 2
        && path::components(dirs[j].raw)[0] == vstd::utf8::encode_utf8("/"@)
        && path::components(dirs[j].raw)[1] == vstd::utf8::encode_utf8("tmp"@)
        && !(path::components(dirs[j].raw).len() == 3
            && path::components(dirs[j].raw)[2] == vstd::utf8::encode_utf8(".ronly-shims"@));
    let other = |j: int| dirs[j].text != "/tmp/.ronly-shims"@;
    let chosen = |j: int| in_tmp(dirs[j]);
    let kept = |j: int| mounting(dirs[j]);
    assert forall|j: int| chosen(j) == #[trigger] below(j) by {
        in_tmp_by_components(dirs[j]);
    }
    assert forall|j: int| kept(j) == #[trigger] other(j) by {
    }
    assert(chosen =~= below);
    assert(kept =~= other);
    assert(prepare.len() == n);
    assert(plan.len() == late + last.len());
    assert forall|j: int| 0 <= j < n implies #[trigger] plan[j] == tried(
        TaskView::CreateDir(dirs[j].raw),
    ) by {
        assert(plan[j] == prepare[j]);
    }
    assert(plan[n] == root_steps()[0]);
    assert(plan[n + 1] == root_steps()[1]);
    assert(plan[n + 2] == steps[0]);
    assert forall|k: int| 0 <= k < inside.len() implies #[trigger] plan[n + 3 + k] == needed(
        TaskView::CreateDir(dirs[inside[k]].raw),
    ) by {
        assert(plan[n + 3 + k] == steps[1 + k]);
        assert(dirs.filter(in_tmp)[k] == dirs[inside[k]]);
    }
    assert(plan[n + 3 + inside.len()] == steps[1 + inside.len() as int]);
    if exe is Some {
        assert(plan[n + 4 + inside.len()] == steps[2 + inside.len() as int]);
    }
    assert forall|k: int| 0 <= k < mounted.len() implies plan[late + k] == needed(TaskView::Mount(tmpfs(
        dirs[#[trigger] mounted[k]].text,
        size,
    ))) by {
        assert(plan[late + k] == last[k]);
        assert(dirs.filter(mounting)[k] == dirs[mounted[k]]);
    }
    (inside, mounted)
}

/// A sequence that is filtered by what always holds stays as it is.
proof fn filter_keeps_all(dirs: Seq<DirectoryView>, chosen: spec_fn(DirectoryView) -> bool)
    requires
        forall|d: DirectoryView| #[trigger] chosen(d),
    ensures
        dirs.filter(chosen) == dirs,
    decreases dirs.len(),
{
    reveal(Seq::filter);
    if dirs.len() > 0 {
        filter_keeps_all(dirs.drop_last(), chosen);
        assert(dirs =~= dirs.drop_last().push(dirs.last()));
    }
}

/// The whole plan with privileges, step by step. The system's directory for the
/// shims and each writable directory are tried to be created; the root is made
/// private and then read-only; a tmpfs comes on the shims' directory, and the
/// shims are installed there where there are any; a tmpfs comes on `/tmp`; last,
/// each writable directory gets a tmpfs, in order.
pub proof fn privileged_plan_in_full(
    dirs: Seq<DirectoryView>,
    size: Seq<char>,
    exe: Option<Seq<u8>>,
    system_shims: Seq<char>,
)
    ensures
        ({
            let plan = mount_plan(dirs, size, exe, false, system_shims);
            let n = dirs.len() as int;
            let tmp = n + (if exe is Some {
                5int
            } else {
                4int
            });
            &&& plan.len() == tmp + 1 + n
            &&& plan[0] == (StepView {
                task: TaskView::CreateDir(vstd::utf8::encode_utf8(system_shims)),
                required: false,
            })
            &&& forall|j: int|
                0 <= j < n ==> #[trigger] plan[1 + j] == (StepView {
                    task: TaskView::CreateDir(dirs[j].raw),
                    required: false,
                })
            &&& plan[n + 1] == (StepView {
                task: TaskView::Mount(MountView {
                    source: None,
                    target: "/"@,
                    fstype: None,
                    flags: MountFlags {
                        bind: false,
                        nodev: false,
                        nosuid: false,
                        private: true,
                        rdonly: false,
                        rec: true,
                        remount: false,
                    },
                    data: None,
                }),
                required: true,
            })
            &&& plan[n + 2] == (StepView {
                task: TaskView::Mount(MountView {
                    source: Some("/"@),
                    target: "/"@,
                    fstype: None,
                    flags: MountFlags {
                        bind: true,
                        nodev: false,
                        nosuid: false,
                        private: false,
                        rdonly: true,
                        rec: true,
                        remount: true,
                    },
                    data: None,
                }),
                required: true,
            })
            &&& plan[n + 3] == (StepView {
                task: TaskView::Mount(MountView {
                    source: Some("tmpfs"@),
                    target: system_shims,
                    fstype: Some("tmpfs"@),
                    flags: MountFlags {
                        bind: false,
                        nodev: true,
                        nosuid: true,
                        private: false,
                        rdonly: false,
                        rec: false,
                        remount: false,
                    },
                    data: Some("size="@ + "1m"@),
                }),
                required: true,
            })
            &&& exe matches Some(found) ==> plan[n + 4] == (StepView {
                task: TaskView::InstallShims { exe: found, dir: system_shims },
                required: true,
            })
            &&& plan[tmp] == (StepView {
                task: TaskView::Mount(MountView {
                    source: Some("tmpfs"@),
                    target: "/tmp"@,
                    fstype: Some("tmpfs"@),
                    flags: MountFlags {
                        bind: false,
                        nodev: true,
                        nosuid: true,
                        private: false,
                        rdonly: false,
                        rec: false,
                        remount: false,
                    },
                    data: Some("size="@ + size),
                }),
                required: true,
            })
            &&& forall|j: int|
                0 <= j < n ==> plan[tmp + 1 + j] == (StepView {
                    task: TaskView::Mount(MountView {
                        source: Some("tmpfs"@),
                        target: (#[trigger] dirs[j]).text,
                        fstype: Some("tmpfs"@),
                        flags: MountFlags {
                            bind: false,
                            nodev: true,
                            nosuid: true,
                            private: false,
                            rdonly: false,
                            rec: false,
                            remount: false,
                        },
                        data: Some("size="@ + size),
                    }),
                    required: true,
                })
        }),
{
    let plan = mount_plan(dirs, size, exe, false, system_shims);
    let n = dirs.len() as int;
    filter_keeps_all(dirs, |d: DirectoryView| gets_mount(d, false));
    let prepare = prepare_steps(dirs, false, system_shims);
    let steps = privileged_steps(size, exe, system_shims);
    let last = writable_steps(dirs, size, false);
    let tmp = n + 2 + steps.len();
    assert(prepare.len() == n + 1);
    assert(last.len() == n);
    assert(plan[0] == prepare[0]);
    assert forall|j: int| 0 <= j < n implies #[trigger] plan[1 + j] == tried(
        TaskView::CreateDir(dirs[j].raw),
    ) by {
        assert(plan[1 + j] == prepare[1 + j]);
    }
    assert(plan[n + 1] == root_steps()[0]);
    assert(plan[n + 2] == root_steps()[1]);
    assert(plan[n + 3] == steps[0]);
    assert(plan[n + 4] == steps[1]);
    assert(plan[tmp] == steps[steps.len() - 1]);
    assert forall|j: int| 0 <= j < n implies plan[tmp + 1 + j] == needed(TaskView::Mount(tmpfs(
        (#[trigger] dirs[j]).text,
        size,
    ))) by {
        assert(plan[tmp + 1 + j] == last[j]);
    }
}

/// Without privileges, each directory that is to be writable and whose first
/// components are `/` and `tmp`, however many follow, is created with success
/// behind the mount of the fresh `/tmp` and before every later mount, the one on
/// the directory itself among them. Only the directory for the shims, by its
/// components, is left out.
pub proof fn directory_below_tmp_is_created(
    dirs: Seq<DirectoryView>,
    size: Seq<char>,
    exe: Option<Seq<u8>>,
    system_shims: Seq<char>,
    d: DirectoryView,
)
    requires
        dirs.contains(d),
        path::components(d.raw).len() >= 2,
        path::components(d.raw)[0] == vstd::utf8::encode_utf8("/"@),
        path::components(d.raw)[1] == vstd::utf8::encode_utf8("tmp"@),
        path::components(d.raw).len() == 3 ==> path::components(d.raw)[2]
            != vstd::utf8::encode_utf8(".ronly-shims"@),
    ensures
        ({
            let plan = mount_plan(dirs, size, exe, true, system_shims);
            let tmp = dirs.len() as int + 2;
            &&& tmp < plan.len()
            &&& plan[tmp] == (StepView {
                task: TaskView::Mount(MountView {
                    source: Some("tmpfs"@),
                    target: "/tmp"@,
                    fstype: Some("tmpfs"@),
                    flags: MountFlags {
                        bind: false,
                        nodev: true,
                        nosuid: true,
                        private: false,
                        rdonly: false,
                        rec: false,
                        remount: false,
                    },
                    data: Some("size="@ + size),
                }),
                required: true,
            })
            &&& exists|i: int|
                tmp < i < plan.len() && #[trigger] plan[i] == (StepView {
                    task: TaskView::CreateDir(d.raw),
                    required: true,
                }) && forall|j: int|
                    tmp < j < plan.len() && (#[trigger] plan[j]).task is Mount ==> i < j
            &&& d.text != "/tmp/.ronly-shims"@ ==> exists|j: int|
                tmp < j < plan.len()
                    && #[trigger] plan[j] == (StepView {
                        task: TaskView::Mount(MountView {
                            source: Some("tmpfs"@),
                            target: d.text,
                            fstype: Some("tmpfs"@),
                            flags: MountFlags {
                                bind: false,
                                nodev: true,
                                nosuid: true,
                                private: false,
                                rdonly: false,
                                rec: false,
                                remount: false,
                            },
                            data: Some("size="@ + size),
                        }),
                        required: true,
                    })
        }),
{
    let plan = mount_plan(dirs, size, exe, true, system_shims);
    let tmp = dirs.len() as int + 2;
    let (inside, mounted) = rootless_plan_in_full(dirs, size, exe, system_shims);
    let below = |j: int| path::components(dirs[j].raw).len() >= 2
        && path::components(dirs[j].raw)[0] == vstd::utf8::encode_utf8("/"@)
        && path::components(dirs[j].raw)[1] == vstd::utf8::encode_utf8("tmp"@)
        && !(path::components(dirs[j].raw).len() == 3
            && path::components(dirs[j].raw)[2] == vstd::utf8::encode_utf8(".ronly-shims"@));
    let other = |j: int| dirs[j].text != "/tmp/.ronly-shims"@;
    let at = choose|at: int| 0 <= at < dirs.len() && dirs[at] == d;
    assert(below(at));
    let k = choose|k: int| 0 <= k < inside.len() && inside[k] == at;
    let i = tmp + 1 + k;
    assert(plan[tmp + 1 + k] == (StepView { task: TaskView::CreateDir(d.raw), required: true }));
    let shims = tmp + 1 + inside.len();
    assert forall|j: int| tmp < j < plan.len()
        && (#[trigger] plan[j]).task is Mount implies i < j by {
        if j < shims {
            assert(plan[tmp + 1 + (j - tmp - 1)].task is CreateDir);
        }
    }
    if d.text != "/tmp/.ronly-shims"@ {
        assert(other(at));
        let l = choose|l: int| 0 <= l < mounted.len() && mounted[l] == at;
        let late = shims + (if exe is Some {
            2int
        } else {
            1int
        });
        assert(mounted[l] == at);
        assert(plan[late + l] == needed(TaskView::Mount(tmpfs(d.text, size))));
    }
}

/// A path whose bytes begin with `/tmp/` has `/` and `tmp` for its first
/// components, whatever follows.
pub proof fn bytes_below_tmp(path: Seq<u8>, rest: Seq<u8>)
    requires
        path == vstd::utf8::encode_utf8("/tmp/"@) + rest,
    ensures
        path::components(path).len() >= 2,
        path::components(path)[0] == vstd::utf8::encode_utf8("/"@),
        path::components(path)[1] == vstd::utf8::encode_utf8("tmp"@),
{
    known_bytes();
    let tail = path.skip(1);
    let tmp = seq![116u8, 109, 112];
    assert(tail =~= tmp + seq![47u8] + rest);
    assert(tail[0] == 116 && tail[1] == 109 && tail[2] == 112 && tail[3] == 47);
    reveal_with_fuel(path::piece_end, 4);
    assert(tail.skip(1)[0] == 109 && tail.skip(1).skip(1)[0] == 112
        && tail.skip(1).skip(1).skip(1)[0] == 47);
    assert(path::piece_end(tail) == 3);
    assert(tail.take(3) =~= tmp);
    assert(path[0] == 47);
    let parts = path::relative_components(tail, false);
    assert(parts[0] == tmp);
    assert(path::components(path) =~= seq![seq![47u8]] + parts);
}

} // verus!
