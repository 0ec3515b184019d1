use openloom::commands::pty::{pty_kill, pty_resize, pty_spawn, pty_write};
use openloom::commands::ssh::{begin_connect, finish_connect, SSHConfigHost, SSHManager};
use openloom::pty::{
    default_size, local_shell, no_number_left_message, not_found_message, reader_event,
    remote_shell, strip_verbatim_prefix, Platform, PtyManager, ReaderEvent, SpawnPlan,
    TerminalSize,
};

fn env(plan: &SpawnPlan) -> Vec<(String, String)> {
    plan.env.iter().map(|e| (e.name.clone(), e.value.clone())).collect()
}

#[test]
fn session_ids_start_at_one_and_increase() {
    let mut m: PtyManager<&str> = PtyManager::new();
    assert_eq!(m.spawn(Ok("a")), Ok(1));
    assert_eq!(m.spawn(Ok("b")), Ok(2));
    assert_eq!(m.spawn(Ok("c")), Ok(3));
    assert_eq!(m.kill(2), Ok("b"));
    assert_eq!(m.spawn(Ok("d")), Ok(4));
}

#[test]
fn failed_spawn_registers_nothing_but_uses_the_id() {
    let mut m: PtyManager<u8> = PtyManager::new();
    assert_eq!(m.spawn(Err("openpty failed".to_string())), Err("openpty failed".to_string()));
    assert_eq!(m.write_input(1).unwrap_err(), "PTY 1 not found");
    assert_eq!(m.spawn(Ok(9)), Ok(2));
    assert_eq!(m.write_input(2), Ok(&9));
}

#[test]
fn unknown_session_is_not_found() {
    let mut m: PtyManager<u8> = PtyManager::new();
    assert_eq!(m.write_input(7).unwrap_err(), "PTY 7 not found");
    assert_eq!(m.resize(7, 80, 24).unwrap_err(), "PTY 7 not found");
    assert_eq!(m.kill(7).unwrap_err(), "PTY 7 not found");
    assert_eq!(m.kill(0).unwrap_err(), "PTY 0 not found");
    assert_eq!(not_found_message(4294967295), "PTY 4294967295 not found");
}

#[test]
fn write_after_kill_is_not_found() {
    let mut m: PtyManager<String> = PtyManager::new();
    let id = m.spawn(Ok("h".to_string())).unwrap();
    assert!(m.write_input(id).is_ok());
    assert_eq!(m.kill(id), Ok("h".to_string()));
    assert_eq!(m.write_input(id).unwrap_err(), "PTY 1 not found");
    assert_eq!(m.resize(id, 1, 1).unwrap_err(), "PTY 1 not found");
    assert_eq!(m.kill(id).unwrap_err(), "PTY 1 not found");
}

#[test]
fn resize_right_after_spawn_succeeds() {
    let mut m: PtyManager<u8> = PtyManager::new();
    let id = m.spawn(Ok(5)).unwrap();
    let (h, size) = m.resize(id, 132, 43).unwrap();
    assert_eq!(*h, 5);
    assert_eq!(size, TerminalSize { rows: 43, cols: 132, pixel_width: 0, pixel_height: 0 });
    assert_eq!(m.write_input(id), Ok(&5));
}

#[test]
fn bridge_functions_forward_to_the_table() {
    let mut m: PtyManager<u8> = PtyManager::new();
    let id = m.spawn(Ok(1)).unwrap();
    assert_eq!(pty_write(&m, id), Ok(&1));
    assert_eq!(pty_resize(&m, id, 10, 20).unwrap().1.rows, 20);
    assert_eq!(pty_resize(&m, id, 10, 20).unwrap().1.cols, 10);
    assert_eq!(pty_kill(&mut m, id), Ok(1));
    assert_eq!(pty_write(&m, id).unwrap_err(), "PTY 1 not found");
    assert_eq!(pty_kill(&mut m, id).unwrap_err(), "PTY 1 not found");
}

#[test]
fn default_geometry_is_80_by_24() {
    assert_eq!(default_size(), TerminalSize { rows: 24, cols: 80, pixel_width: 0, pixel_height: 0 });
}

#[test]
fn verbatim_prefix_is_stripped_on_windows_only() {
    assert_eq!(strip_verbatim_prefix(r"\\?\C:\proj", Platform::Windows), r"C:\proj");
    assert_eq!(strip_verbatim_prefix(r"C:\proj", Platform::Windows), r"C:\proj");
    assert_eq!(strip_verbatim_prefix(r"\\?\C:\proj", Platform::Other), r"\\?\C:\proj");
    assert_eq!(strip_verbatim_prefix(r"\\?\", Platform::Windows), "");
    assert_eq!(strip_verbatim_prefix("/home/u", Platform::MacOs), "/home/u");
}

#[test]
fn local_shell_sets_terminal_and_locale() {
    let p = local_shell("/home/u/proj", Platform::Other);
    assert_eq!(p.program, None);
    assert!(p.args.is_empty());
    assert_eq!(p.cwd.as_deref(), Some("/home/u/proj"));
    assert_eq!(env(&p), vec![("TERM".to_string(), "xterm-256color".to_string())]);
    assert_eq!(p.size, default_size());
    let p = local_shell("/Users/u", Platform::MacOs);
    assert_eq!(
        env(&p),
        vec![
            ("TERM".to_string(), "xterm-256color".to_string()),
            ("LANG".to_string(), "en_US.UTF-8".to_string()),
            ("LC_ALL".to_string(), "en_US.UTF-8".to_string()),
        ]
    );
    let p = local_shell(r"\\?\D:\w", Platform::Windows);
    assert_eq!(p.cwd.as_deref(), Some(r"D:\w"));
}

#[test]
fn remote_shell_points_ssh_at_the_target() {
    let p = remote_shell("h.example", 2222, "deploy", &Some("/k".to_string()), Platform::Other);
    assert_eq!(p.program.as_deref(), Some("ssh"));
    assert_eq!(p.args, vec!["-p", "2222", "-i", "/k", "deploy@h.example"]);
    assert_eq!(p.cwd, None);
    assert_eq!(p.size, default_size());
    let p = remote_shell("h", 22, "u", &None, Platform::MacOs);
    assert_eq!(p.args, vec!["-p", "22", "u@h"]);
    assert_eq!(env(&p).len(), 3);
}

#[test]
fn terminal_follows_the_active_session() {
    let mut ssh = SSHManager::new(vec![SSHConfigHost {
        name: "web".to_string(),
        host: "web.example.org".to_string(),
        port: 2222,
        username: "deploy".to_string(),
        identity_file: None,
    }]);
    let p = pty_spawn(&ssh, "/proj", Platform::Other);
    assert_eq!(p.program, None);
    assert_eq!(p.cwd.as_deref(), Some("/proj"));
    let conn = begin_connect(&mut ssh, "config-web").unwrap();
    finish_connect(&mut ssh, "config-web".into(), conn, Ok("/home/deploy".into())).unwrap();
    let p = pty_spawn(&ssh, "/proj", Platform::Other);
    assert_eq!(p.program.as_deref(), Some("ssh"));
    assert_eq!(p.args, vec!["-p", "2222", "deploy@web.example.org"]);
}

#[test]
fn reader_reports_output_then_exit() {
    match reader_event(3, Some("héllo".as_bytes())) {
        ReaderEvent::Output(p) => {
            assert_eq!(p.id, 3);
            assert_eq!(p.data, "héllo");
            let q = p.clone();
            assert_eq!((q.id, q.data), (3, "héllo".to_string()));
        }
        ReaderEvent::Exit(_) => panic!("output expected"),
    }
    match reader_event(3, Some(&[0x61, 0xff, 0x62])) {
        ReaderEvent::Output(p) => assert_eq!(p.data, "a\u{fffd}b"),
        ReaderEvent::Exit(_) => panic!("output expected"),
    }
    assert!(matches!(reader_event(3, Some(&[])), ReaderEvent::Exit(p) if p.id == 3));
    assert!(matches!(reader_event(4, None), ReaderEvent::Exit(p) if p.id == 4));
}

#[test]
fn spawn_fails_once_the_numbers_are_used_up() {
    let mut m: PtyManager<&str> = PtyManager::with_spent(u32::MAX - 2);
    assert!(m.has_number_left());
    assert_eq!(m.spawn(Ok("a")), Ok(u32::MAX - 1));
    assert_eq!(m.spawn(Err("no pty".to_string())), Err("no pty".to_string()));
    assert!(!m.has_number_left());
    assert_eq!(m.spawn(Ok("b")), Err("PTY numbers are used up".to_string()));
    assert_eq!(m.spawn(Err("no pty".to_string())), Err("PTY numbers are used up".to_string()));
    assert_eq!(m.write_input(u32::MAX - 1), Ok(&"a"));
    assert_eq!(m.write_input(u32::MAX).unwrap_err(), "PTY 4294967295 not found");
    assert_eq!(m.write_input(0).unwrap_err(), "PTY 0 not found");
    assert_eq!(m.kill(u32::MAX - 1), Ok("a"));
    assert_eq!(m.spawn(Ok("c")), Err("PTY numbers are used up".to_string()));
    assert_eq!(no_number_left_message(), "PTY numbers are used up");
}

#[test]
fn last_number_is_handed_out_once() {
    let mut m: PtyManager<u8> = PtyManager::with_spent(u32::MAX - 1);
    assert_eq!(m.spawn(Ok(1)), Ok(u32::MAX));
    assert_eq!(m.spawn(Ok(2)), Err("PTY numbers are used up".to_string()));
    assert_eq!(m.write_input(u32::MAX), Ok(&1));
    let mut full: PtyManager<u8> = PtyManager::with_spent(u32::MAX);
    assert!(!full.has_number_left());
    assert_eq!(full.spawn(Ok(1)), Err("PTY numbers are used up".to_string()));
    let mut fresh: PtyManager<u8> = PtyManager::with_spent(0);
    assert_eq!(fresh.spawn(Ok(1)), Ok(1));
}

#[test]
fn numbers_are_not_given_again_after_kill() {
    let mut m: PtyManager<u8> = PtyManager::new();
    let mut seen = Vec::new();
    for round in 0..50u8 {
        let id = m.spawn(Ok(round)).unwrap();
        assert!(seen.iter().all(|old| *old < id));
        seen.push(id);
        if round % 2 == 0 {
            m.kill(id).unwrap();
        }
        if round % 5 == 0 {
            let _ = m.spawn(Err("x".to_string()));
        }
    }
}
