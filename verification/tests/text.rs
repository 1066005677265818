use ronly::command::{command_line, search_path};
use ronly::identity::setup_id_map;
use ronly::text::{join, prefixed, to_decimal};

fn strings(parts: &[&str]) -> Vec<String> {
    parts.iter().map(|p| p.to_string()).collect()
}

#[test]
fn numbers_are_written_in_decimal() {
    for n in [0u32, 1, 9, 10, 99, 100, 1000, 65_534, 4_294_967_295] {
        assert_eq!(to_decimal(n), n.to_string());
        assert_eq!(to_decimal(n).parse::<u32>(), Ok(n));
    }
}

#[test]
fn texts_are_put_together() {
    assert_eq!(prefixed("a", "b"), "ab");
    assert_eq!(join(&strings(&[]), ":"), "");
    assert_eq!(join(&strings(&["a"]), ":"), "a");
    assert_eq!(join(&strings(&["a", "", "b"]), ":"), "a::b");
}

#[test]
fn the_identity_map_is_three_writes() {
    let writes = setup_id_map(1000, 65_534);
    let seen: Vec<(&str, &str)> =
        writes.iter().map(|w| (w.path.as_str(), w.contents.as_str())).collect();
    assert_eq!(
        seen,
        vec![
            ("/proc/self/setgroups", "deny"),
            ("/proc/self/uid_map", "0 1000 1\n"),
            ("/proc/self/gid_map", "0 65534 1\n"),
        ]
    );
}

#[test]
fn extra_shims_come_before_the_shims_and_the_system() {
    assert_eq!(
        search_path(&strings(&["/e1", "/e2"]), "/shims", &Some("/usr/bin:/bin".to_string())),
        "/e1:/e2:/shims:/usr/bin:/bin"
    );
    assert_eq!(search_path(&strings(&[]), "/shims", &None), "/shims:");
}

#[test]
fn the_shell_runs_where_there_is_no_command() {
    let shell = Some("/bin/zsh".to_string());
    assert_eq!(command_line(&strings(&["echo", "hello"]), &shell), strings(&["echo", "hello"]));
    assert_eq!(command_line(&strings(&[]), &shell), strings(&["/bin/zsh"]));
    assert_eq!(command_line(&strings(&[]), &None), strings(&["/bin/bash"]));
}
