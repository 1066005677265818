use ronly::mounts::{mount_tmpfs, setup_mounts, Directory, Mount, Step, Task};

fn dir(path: &str) -> Directory {
    Directory { raw: path.as_bytes().to_vec(), text: path.to_string() }
}

fn flags(m: &Mount) -> String {
    let f = m.flags;
    let mut s = String::new();
    for (on, name) in [
        (f.bind, "bind "),
        (f.nodev, "nodev "),
        (f.nosuid, "nosuid "),
        (f.private, "private "),
        (f.rdonly, "rdonly "),
        (f.rec, "rec "),
        (f.remount, "remount "),
    ] {
        if on {
            s.push_str(name);
        }
    }
    s
}

fn shown(step: &Step) -> String {
    let mark = if step.required { "" } else { "?" };
    match &step.task {
        Task::CreateDir(p) => format!("{}mkdir {}", mark, String::from_utf8_lossy(p)),
        Task::Mount(m) => format!(
            "{}mount {} {} {} {}{}",
            mark,
            m.source.clone().unwrap_or("-".to_string()),
            m.target,
            m.fstype.clone().unwrap_or("-".to_string()),
            flags(m),
            m.data.clone().unwrap_or("-".to_string())
        ),
        Task::CopyShims { exe, dir } => {
            format!("{}copy {} {}", mark, String::from_utf8_lossy(exe), dir)
        }
        Task::InstallShims { exe, dir } => {
            format!("{}install {} {}", mark, String::from_utf8_lossy(exe), dir)
        }
    }
}

fn plan(dirs: Vec<Directory>, exe: Option<&str>, rootless: bool) -> (Vec<String>, String) {
    let exe = exe.map(|e| e.as_bytes().to_vec());
    let (steps, place) = setup_mounts(&dirs, "64m", &exe, rootless, "/run/shims");
    (steps.iter().map(shown).collect(), place)
}

const PRIVATE: &str = "mount - / - private rec -";
const READ_ONLY: &str = "mount / / - bind rdonly rec remount -";

fn tmpfs(target: &str, size: &str) -> String {
    format!("mount tmpfs {} tmpfs nodev nosuid size={}", target, size)
}

#[test]
fn a_tmpfs_has_a_size_and_no_devices_or_set_user_id_programs() {
    let m = mount_tmpfs("/data", "10%");
    assert_eq!(m.source, Some("tmpfs".to_string()));
    assert_eq!(m.target, "/data");
    assert_eq!(m.fstype, Some("tmpfs".to_string()));
    assert_eq!(flags(&m), "nodev nosuid ");
    assert_eq!(m.data, Some("size=10%".to_string()));
}

#[test]
fn a_privileged_plan() {
    let (steps, place) = plan(vec![dir("/var/tmp/w"), dir("/tmp/x")], Some("/tmp/ronly"), false);
    assert_eq!(
        steps,
        vec![
            "?mkdir /run/shims".to_string(),
            "?mkdir /var/tmp/w".to_string(),
            "?mkdir /tmp/x".to_string(),
            PRIVATE.to_string(),
            READ_ONLY.to_string(),
            tmpfs("/run/shims", "1m"),
            "install /tmp/ronly /run/shims".to_string(),
            tmpfs("/tmp", "64m"),
            tmpfs("/var/tmp/w", "64m"),
            tmpfs("/tmp/x", "64m"),
        ]
    );
    assert_eq!(place, "/run/shims");
}

#[test]
fn a_privileged_plan_without_shims() {
    let (steps, place) = plan(vec![], None, false);
    assert_eq!(
        steps,
        vec![
            "?mkdir /run/shims".to_string(),
            PRIVATE.to_string(),
            READ_ONLY.to_string(),
            tmpfs("/run/shims", "1m"),
            tmpfs("/tmp", "64m"),
        ]
    );
    assert_eq!(place, "/run/shims");
}

#[test]
fn a_rootless_plan() {
    let (steps, place) = plan(vec![dir("/var/tmp/w"), dir("/tmp/x")], Some("/tmp/ronly"), true);
    assert_eq!(
        steps,
        vec![
            "?mkdir /var/tmp/w".to_string(),
            "?mkdir /tmp/x".to_string(),
            PRIVATE.to_string(),
            READ_ONLY.to_string(),
            tmpfs("/tmp", "64m"),
            "mkdir /tmp/x".to_string(),
            "mkdir /tmp/.ronly-shims".to_string(),
            "copy /proc/self/exe /tmp/.ronly-shims".to_string(),
            tmpfs("/var/tmp/w", "64m"),
            tmpfs("/tmp/x", "64m"),
        ]
    );
    assert_eq!(place, "/tmp/.ronly-shims");
}

#[test]
fn a_rootless_plan_without_shims() {
    let (steps, _) = plan(vec![], None, true);
    assert_eq!(
        steps,
        vec![
            PRIVATE.to_string(),
            READ_ONLY.to_string(),
            tmpfs("/tmp", "64m"),
            "mkdir /tmp/.ronly-shims".to_string(),
        ]
    );
}

#[test]
fn a_rootless_plan_leaves_the_shims_alone() {
    let (steps, _) = plan(vec![dir("/tmp/.ronly-shims")], None, true);
    assert_eq!(
        steps,
        vec![
            "?mkdir /tmp/.ronly-shims".to_string(),
            PRIVATE.to_string(),
            READ_ONLY.to_string(),
            tmpfs("/tmp", "64m"),
            "mkdir /tmp/.ronly-shims".to_string(),
        ]
    );
}

#[test]
fn the_shims_are_compared_as_a_path_when_created_and_as_a_text_when_mounted() {
    let (steps, _) = plan(vec![dir("/tmp//.ronly-shims/")], None, true);
    assert_eq!(
        steps[1..],
        [
            PRIVATE.to_string(),
            READ_ONLY.to_string(),
            tmpfs("/tmp", "64m"),
            "mkdir /tmp/.ronly-shims".to_string(),
            tmpfs("/tmp//.ronly-shims/", "64m"),
        ]
    );
}

#[test]
fn a_privileged_plan_mounts_what_would_be_the_rootless_shims() {
    let (steps, _) = plan(vec![dir("/tmp/.ronly-shims")], None, false);
    assert_eq!(steps.last(), Some(&tmpfs("/tmp/.ronly-shims", "64m")));
}

#[test]
fn directories_are_in_tmp_by_component() {
    let (steps, _) = plan(vec![dir("/tmp"), dir("/tmpfoo"), dir("tmp/a"), dir("//tmp/b")], None, true);
    let made: Vec<&String> = steps.iter().filter(|s| s.starts_with("mkdir")).collect();
    assert_eq!(made, vec!["mkdir /tmp", "mkdir //tmp/b", "mkdir /tmp/.ronly-shims"]);
}
