use ronly::mounts::Task;
use ronly::run::{filter_action, resolve, Action, Args, Config, Event, Host, Namespaces, Run};
use ronly::seccomp::{filter_program, native_numbers, Arch, Instruction};

fn host() -> Host {
    Host {
        system_shims: "/run/shims".to_string(),
        arch: "x86_64".to_string(),
        numbers: native_numbers(None),
        path: Some("/usr/bin:/bin".to_string()),
        shell: Some("/bin/zsh".to_string()),
    }
}

fn args(command: &[&str]) -> Args {
    Args {
        writable: vec![b"/data".to_vec()],
        tmpfs_size: "64m".to_string(),
        no_shims: false,
        extra_shims: vec![b"/extra".to_vec()],
        command: command.iter().map(|c| c.to_string()).collect(),
    }
}

fn config(command: &[&str]) -> Config {
    resolve(args(command), host())
}

fn without_shims() -> Config {
    let mut a = args(&["true"]);
    a.no_shims = true;
    resolve(a, host())
}

fn tell(run: &mut Run, event: Event) -> Action {
    assert!(run.accepts(&event));
    run.next(event)
}

fn failed() -> Event {
    Event::Failed("no luck".to_string())
}

fn exe() -> Event {
    Event::Exe(b"/usr/bin/ronly".to_vec())
}

fn ids() -> Event {
    Event::Ids { uid: 1000, gid: 100 }
}

/// Brings a run with shims to the fork.
fn to_fork(c: Config, rootless: bool) -> (Run, Action) {
    let (mut run, first) = Run::new(c);
    assert!(matches!(first, Action::ReadExe));
    assert!(matches!(tell(&mut run, exe()), Action::ReadIds));
    tell(&mut run, ids());
    let last = if rootless {
        tell(&mut run, Event::Done);
        tell(&mut run, Event::Done);
        tell(&mut run, Event::Done);
        tell(&mut run, Event::Done)
    } else {
        tell(&mut run, failed());
        tell(&mut run, Event::Done)
    };
    (run, last)
}

/// Performs the steps of the mounts, and gives what comes behind them.
fn through_mounts(run: &mut Run) -> (usize, Action) {
    let mut action = tell(run, Event::Child);
    let mut count: usize = 0;
    while let Action::Perform(_) = action {
        count += 1;
        action = tell(run, Event::Done);
    }
    (count, action)
}

fn is_over(run: &Run) -> bool {
    ![
        Event::Done,
        failed(),
        exe(),
        ids(),
        Event::Parent,
        Event::Child,
        Event::Exited(0),
        Event::Ended,
    ]
    .iter()
    .any(|e| run.accepts(e))
}

fn message(action: Action) -> String {
    match action {
        Action::Die(m) => m,
        Action::Exit { code: 1, message: Some(m) } => m,
        other => panic!("{:?}", other),
    }
}

#[test]
fn a_rootless_run_executes_the_command_last() {
    let (mut run, fork) = to_fork(config(&["echo", "hello"]), true);
    assert!(matches!(fork, Action::Fork));
    let (count, action) = through_mounts(&mut run);
    assert_eq!(count, 7);
    match action {
        Action::SetPath(p) => assert_eq!(p, "/extra:/tmp/.ronly-shims:/usr/bin:/bin"),
        other => panic!("{:?}", other),
    }
    match tell(&mut run, Event::Done) {
        Action::ApplyFilter(program) => {
            assert_eq!(program, filter_program(&native_numbers(None), Arch::X86_64).unwrap())
        }
        other => panic!("{:?}", other),
    }
    match tell(&mut run, Event::Done) {
        Action::Exec(argv) => assert_eq!(argv, vec!["echo", "hello"]),
        other => panic!("{:?}", other),
    }
    assert!(is_over(&run));
}

#[test]
fn a_privileged_run_has_the_shims_of_the_system() {
    let (mut run, fork) = to_fork(config(&[]), false);
    assert!(matches!(fork, Action::Fork));
    let (count, action) = through_mounts(&mut run);
    assert_eq!(count, 8);
    match action {
        Action::SetPath(p) => assert_eq!(p, "/extra:/run/shims:/usr/bin:/bin"),
        other => panic!("{:?}", other),
    }
    assert!(matches!(tell(&mut run, Event::Done), Action::ApplyFilter(_)));
    match tell(&mut run, Event::Done) {
        Action::Exec(argv) => assert_eq!(argv, vec!["/bin/zsh"]),
        other => panic!("{:?}", other),
    }
}

#[test]
fn a_run_without_shims_leaves_the_search_path_alone() {
    let (mut run, first) = Run::new(without_shims());
    assert!(matches!(first, Action::ReadIds));
    tell(&mut run, ids());
    for _ in 0..4 {
        tell(&mut run, Event::Done);
    }
    let (count, action) = through_mounts(&mut run);
    assert_eq!(count, 6);
    assert!(matches!(action, Action::ApplyFilter(_)));
}

#[test]
fn a_run_takes_no_more_events_than_its_steps_allow() {
    let (mut run, _) = to_fork(config(&["true"]), true);
    let mut told: usize = 6;
    let mut event = Event::Child;
    while run.accepts(&event) {
        run.next(event);
        told += 1;
        event = Event::Done;
    }
    assert!(is_over(&run));
    assert_eq!(told, 6 + 1 + 7 + 2);
    assert!(told <= 9 + 3 + 7);
}

#[test]
fn a_user_namespace_is_tried_first() {
    let (mut run, _) = Run::new(without_shims());
    let every = Namespaces { user: true, mount: true, pid: true };
    let other = Namespaces { user: false, mount: true, pid: true };
    assert!(matches!(tell(&mut run, ids()), Action::Unshare(n) if n == every));
    assert!(matches!(tell(&mut run, failed()), Action::Unshare(n) if n == other));
    assert!(matches!(tell(&mut run, Event::Done), Action::Fork));
}

#[test]
fn the_identity_is_mapped_before_the_fork() {
    let (mut run, _) = Run::new(without_shims());
    tell(&mut run, ids());
    let mut seen: Vec<(String, String)> = vec![];
    let mut action = tell(&mut run, Event::Done);
    while let Action::Write(w) = action {
        seen.push((w.path, w.contents));
        action = tell(&mut run, Event::Done);
    }
    assert!(matches!(action, Action::Fork));
    assert_eq!(seen.len(), 3);
    assert_eq!(seen[0], ("/proc/self/setgroups".to_string(), "deny".to_string()));
    assert_eq!(seen[1], ("/proc/self/uid_map".to_string(), "0 1000 1\n".to_string()));
    assert_eq!(seen[2], ("/proc/self/gid_map".to_string(), "0 100 1\n".to_string()));
}

#[test]
fn an_executable_that_is_not_found_is_an_error() {
    let (mut run, _) = Run::new(config(&["true"]));
    assert!(matches!(tell(&mut run, failed()), Action::ReturnError));
    assert!(is_over(&run));
}

#[test]
fn without_any_namespace_the_run_exits() {
    let (mut run, _) = Run::new(without_shims());
    tell(&mut run, ids());
    tell(&mut run, failed());
    assert_eq!(
        message(tell(&mut run, failed())),
        "ronly: requires unprivileged user namespaces or root"
    );
    assert!(is_over(&run));
}

#[test]
fn a_map_that_cannot_be_written_ends_the_run() {
    for done in 0..3 {
        let (mut run, _) = Run::new(without_shims());
        tell(&mut run, ids());
        tell(&mut run, Event::Done);
        for _ in 0..done {
            tell(&mut run, Event::Done);
        }
        assert_eq!(message(tell(&mut run, failed())), "ronly: uid/gid map: no luck");
        assert!(is_over(&run));
    }
}

#[test]
fn a_fork_that_fails_is_an_error() {
    let (mut run, _) = to_fork(config(&["true"]), true);
    assert!(matches!(tell(&mut run, failed()), Action::ReturnError));
    assert!(is_over(&run));
}

#[test]
fn the_exit_code_is_the_childs() {
    for code in [0, 1, 42] {
        let (mut run, _) = to_fork(config(&["true"]), true);
        assert!(matches!(tell(&mut run, Event::Parent), Action::Wait));
        assert!(
            matches!(tell(&mut run, Event::Exited(code)), Action::Exit { code: c, message: None } if c == code)
        );
        assert!(is_over(&run));
    }
}

#[test]
fn a_child_that_ends_in_another_way_gives_one() {
    let (mut run, _) = to_fork(config(&["true"]), false);
    tell(&mut run, Event::Parent);
    assert!(matches!(tell(&mut run, Event::Ended), Action::Exit { code: 1, message: None }));
}

#[test]
fn a_wait_that_fails_is_an_error() {
    let (mut run, _) = to_fork(config(&["true"]), false);
    tell(&mut run, Event::Parent);
    assert!(matches!(tell(&mut run, failed()), Action::ReturnError));
}

#[test]
fn a_directory_that_cannot_be_created_beforehand_is_passed_over() {
    let (mut run, _) = to_fork(config(&["true"]), true);
    assert!(matches!(tell(&mut run, Event::Child), Action::Perform(Task::CreateDir(_))));
    assert!(matches!(tell(&mut run, failed()), Action::Perform(Task::Mount(_))));
}

#[test]
fn a_required_step_that_fails_ends_the_child() {
    for done in 1..7 {
        let (mut run, _) = to_fork(config(&["true"]), true);
        tell(&mut run, Event::Child);
        for _ in 0..done {
            tell(&mut run, Event::Done);
        }
        assert_eq!(message(tell(&mut run, failed())), "ronly: mounts: no luck");
        assert!(is_over(&run));
    }
}

#[test]
fn a_filter_that_cannot_be_installed_ends_the_child() {
    let (mut run, _) = to_fork(config(&["true"]), true);
    through_mounts(&mut run);
    tell(&mut run, Event::Done);
    assert_eq!(message(tell(&mut run, failed())), "ronly: seccomp: no luck");
    assert!(is_over(&run));
}

#[test]
fn a_filter_that_cannot_be_built_ends_the_child() {
    let mut c = config(&["true"]);
    c.host.arch = "vax".to_string();
    let (mut run, _) = to_fork(c, true);
    through_mounts(&mut run);
    assert_eq!(
        message(tell(&mut run, Event::Done)),
        "ronly: seccomp: unsupported arch: Invalid target arch: vax."
    );
    assert!(is_over(&run));
}

#[test]
fn a_built_filter_is_installed_as_it_is() {
    let program = vec![Instruction { code: 6, jt: 0, jf: 0, k: 7 }];
    assert!(matches!(filter_action(Ok(program.clone())), Action::ApplyFilter(p) if p == program));
    assert_eq!(message(filter_action(Err("x".to_string()))), "ronly: seccomp: x");
}

#[test]
fn an_event_that_cannot_come_is_not_accepted() {
    let (run, _) = Run::new(config(&["true"]));
    assert!(!run.accepts(&Event::Done));
    assert!(!run.accepts(&ids()));
    assert!(run.accepts(&exe()));
    assert!(run.accepts(&failed()));
}

#[test]
fn paths_that_are_not_utf8_get_a_text() {
    let mut a = args(&["true"]);
    a.writable = vec![b"/d\xff".to_vec(), "/\u{e9}".as_bytes().to_vec()];
    a.extra_shims = vec![b"/e\xff".to_vec()];
    let c = resolve(a, host());
    assert_eq!(c.dirs[0].raw, b"/d\xff".to_vec());
    assert_eq!(c.dirs[0].text, "/d\u{fffd}");
    assert_eq!(c.dirs[1].text, "/\u{e9}");
    assert_eq!(c.extra_shims, vec!["/e\u{fffd}"]);
    assert!(c.shims);
}
