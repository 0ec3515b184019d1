use openloom::commands::ssh::{
    add_connection_at, begin_connect, begin_connect_with_password, check_password_test,
    finish_connect, home_failure, open_session, password_home_call, password_test_call,
    probe_call, relay_start_failure, ssh_create_dir, ssh_delete_dir, ssh_delete_file,
    ssh_disconnect, ssh_get_file_tree, ssh_get_session, ssh_get_working_dir, ssh_git_branches,
    ssh_git_commit, ssh_git_log, ssh_git_stage, ssh_git_status, ssh_read_file, ssh_rename,
    ssh_set_working_dir, ssh_write_file, SSHConfigHost, SSHManager,
};
use openloom::remote::{build_ssh_args, command_outcome, run_ssh_command, RemoteCall};

fn manager() -> SSHManager {
    let mut m = SSHManager::new(vec![SSHConfigHost {
        name: "web".to_string(),
        host: "web.example.org".to_string(),
        port: 2222,
        username: "deploy".to_string(),
        identity_file: Some("~/.ssh/web".to_string()),
    }]);
    add_connection_at(
        &mut m,
        1,
        "box".to_string(),
        "10.0.0.1".to_string(),
        None,
        "root".to_string(),
        "key".to_string(),
        None,
        None,
    );
    m
}

fn connected() -> SSHManager {
    let mut m = manager();
    let conn = begin_connect(&mut m, "config-web").unwrap();
    finish_connect(&mut m, "config-web".to_string(), conn, Ok("/home/deploy\n".to_string()))
        .unwrap();
    m
}

fn command(call: &RemoteCall) -> String {
    call.args.last().unwrap().clone()
}

const NO_CONNECTION: &str = "No active SSH connection";

#[test]
fn ssh_args_for_auto_endpoint_with_key_file() {
    let mut m = manager();
    let conn = begin_connect(&mut m, "config-web").unwrap();
    assert_eq!(
        build_ssh_args(&conn, Some("ls")),
        vec![
            "-p",
            "2222",
            "-o",
            "StrictHostKeyChecking=accept-new",
            "-o",
            "ConnectTimeout=30",
            "-i",
            "~/.ssh/web",
            "deploy@web.example.org",
            "ls"
        ]
    );
}

#[test]
fn ssh_args_force_batch_mode_for_key_auth_only() {
    let mut m = manager();
    let conn = begin_connect(&mut m, "manual-1").unwrap();
    assert_eq!(
        build_ssh_args(&conn, None),
        vec![
            "-p",
            "22",
            "-o",
            "StrictHostKeyChecking=accept-new",
            "-o",
            "ConnectTimeout=30",
            "-o",
            "BatchMode=yes",
            "root@10.0.0.1"
        ]
    );
    let pw = begin_connect_with_password(&mut m, "manual-1", "s3cret".to_string()).unwrap();
    assert!(!build_ssh_args(&pw, None).contains(&"BatchMode=yes".to_string()));
}

#[test]
fn run_ssh_command_is_one_ssh_call() {
    let mut m = manager();
    let conn = begin_connect(&mut m, "config-web").unwrap();
    let call = run_ssh_command(&conn, "cat > 'f'", Some("data".to_string()));
    assert_eq!(call.program, "ssh");
    assert_eq!(call.args, build_ssh_args(&conn, Some("cat > 'f'")));
    assert_eq!(call.input.as_deref(), Some("data"));
}

#[test]
fn failed_command_surfaces_stderr_exactly() {
    let r = command_outcome(false, "partial".to_string(), "permission denied".to_string());
    assert_eq!(r, Err("permission denied".to_string()));
}

#[test]
fn failed_command_without_stderr_gets_generic_message() {
    let r = command_outcome(false, "out".to_string(), String::new());
    assert_eq!(r, Err("命令执行失败".to_string()));
}

#[test]
fn successful_command_gives_stdout_even_with_stderr() {
    let r = command_outcome(true, "out\n".to_string(), "warning".to_string());
    assert_eq!(r, Ok("out\n".to_string()));
    assert_eq!(command_outcome(true, String::new(), String::new()), Ok(String::new()));
}

#[test]
fn connect_to_unknown_endpoint_keeps_the_session() {
    let mut m = connected();
    assert_eq!(begin_connect(&mut m, "nope").unwrap_err(), "Connection not found");
    assert!(ssh_get_session(&m).unwrap().is_some());
    let e = begin_connect_with_password(&mut m, "nope", "pw".to_string()).unwrap_err();
    assert_eq!(e, "Connection not found");
    assert!(ssh_get_session(&m).unwrap().is_some());
}

#[test]
fn connect_clears_then_opens_the_session() {
    let mut m = connected();
    let conn = begin_connect(&mut m, "manual-1").unwrap();
    assert!(ssh_get_session(&m).unwrap().is_none());
    let probe = probe_call(&conn);
    assert_eq!(probe.program, "ssh");
    assert_eq!(command(&probe), "echo $HOME");
    assert_eq!(probe.input, None);
    let s = finish_connect(&mut m, "manual-1".to_string(), conn, Ok("  /root \r\n".to_string()))
        .unwrap();
    assert_eq!(s.connection_id, "manual-1");
    assert_eq!(s.status, "connected");
    assert_eq!(s.last_error, None);
    let at = s.connected_at.unwrap();
    assert!(at.len() >= 20 && at.contains('T'));
    assert_eq!(ssh_get_working_dir(&m).unwrap().as_deref(), Some("/root"));
    let info = m.get_active_session_info().unwrap();
    assert_eq!(info, ("10.0.0.1".to_string(), 22, "root".to_string(), None));
    let seen = ssh_get_session(&m).unwrap().unwrap();
    assert_eq!(seen.connection_id, "manual-1");
    assert_eq!(seen.status, "connected");
    assert_eq!(seen.connected_at, None);
}

#[test]
fn failed_probe_keeps_the_reason_and_no_session() {
    let mut m = connected();
    let conn = begin_connect(&mut m, "manual-1").unwrap();
    let e = finish_connect(
        &mut m,
        "manual-1".to_string(),
        conn,
        Err("ssh: connect to host 10.0.0.1 port 22: Connection refused\n".to_string()),
    )
    .unwrap_err();
    assert_eq!(e, "连接失败: ssh: connect to host 10.0.0.1 port 22: Connection refused\n");
    assert!(ssh_get_session(&m).unwrap().is_none());
    assert_eq!(ssh_read_file(&m, "/f".to_string()).unwrap_err(), NO_CONNECTION);
}

#[test]
fn password_connect_uses_the_relay() {
    let mut m = manager();
    let conn = begin_connect_with_password(&mut m, "config-web", "p w'd".to_string()).unwrap();
    assert_eq!(conn.auth_type, "password");
    assert_eq!(conn.password.as_deref(), Some("p w'd"));
    let test = password_test_call(&conn);
    assert_eq!(test.program, "sshpass");
    assert_eq!(&test.args[..3], &["-p".to_string(), "p w'd".to_string(), "ssh".to_string()]);
    assert_eq!(
        test.args[3..].to_vec(),
        build_ssh_args(&conn, Some("echo 'SSH_CONNECTION_TEST_OK'"))
    );
    assert_eq!(test.input, None);
    let home = password_home_call(&conn);
    assert_eq!(home.args[3..].to_vec(), build_ssh_args(&conn, Some("echo $HOME")));
    let s = open_session(&mut m, "config-web".to_string(), conn, "/home/deploy\n", "now".into());
    assert_eq!(s.connected_at.as_deref(), Some("now"));
    assert_eq!(m.get_working_dir().as_deref(), Some("/home/deploy"));
}

#[test]
fn password_failures_are_told_apart() {
    assert_eq!(
        relay_start_failure(true, "No such file"),
        "需要安装 sshpass 来支持密码认证。在 Windows 上可以使用: scoop install sshpass 或使用私钥认证"
    );
    assert_eq!(relay_start_failure(false, "denied"), "执行失败: denied");
    assert_eq!(check_password_test(true, "noise"), Ok(()));
    assert_eq!(check_password_test(false, ""), Err("密码认证失败".to_string()));
    assert_eq!(
        check_password_test(false, "Permission denied"),
        Err("密码认证失败: Permission denied".to_string())
    );
    assert_eq!(home_failure("gone"), "获取主目录失败: gone");
}

#[test]
fn working_dir_needs_a_session() {
    let mut m = manager();
    assert_eq!(ssh_get_working_dir(&m).unwrap(), None);
    assert_eq!(ssh_set_working_dir(&mut m, "/x".to_string()).unwrap_err(), "No active SSH session");
    assert_eq!(m.set_working_dir("/x".to_string()).unwrap_err(), "No active SSH session");
    let mut m = connected();
    ssh_set_working_dir(&mut m, "/srv/app".to_string()).unwrap();
    assert_eq!(m.get_working_dir().as_deref(), Some("/srv/app"));
    assert_eq!(ssh_get_session(&m).unwrap().unwrap().connection_id, "config-web");
}

#[test]
fn disconnect_is_idempotent() {
    let mut m = connected();
    ssh_disconnect(&mut m).unwrap();
    assert!(ssh_get_session(&m).unwrap().is_none());
    ssh_disconnect(&mut m).unwrap();
    assert!(ssh_get_session(&m).unwrap().is_none());
    assert!(m.get_active_session_info().is_none());
}

#[test]
fn remote_operations_fail_without_a_session_and_work_after_reconnect() {
    let mut m = connected();
    ssh_disconnect(&mut m).unwrap();
    assert_eq!(ssh_get_file_tree(&m, None).unwrap_err(), NO_CONNECTION);
    assert_eq!(ssh_read_file(&m, "/f".into()).unwrap_err(), NO_CONNECTION);
    assert_eq!(ssh_write_file(&m, "/f".into(), "c".into()).unwrap_err(), NO_CONNECTION);
    assert_eq!(ssh_create_dir(&m, "/d".into()).unwrap_err(), NO_CONNECTION);
    assert_eq!(ssh_delete_file(&m, "/f".into()).unwrap_err(), NO_CONNECTION);
    assert_eq!(ssh_delete_dir(&m, "/d".into()).unwrap_err(), NO_CONNECTION);
    assert_eq!(ssh_rename(&m, "/a".into(), "/b".into()).unwrap_err(), NO_CONNECTION);
    assert_eq!(ssh_git_status(&m).unwrap_err(), NO_CONNECTION);
    assert_eq!(ssh_git_log(&m).unwrap_err(), NO_CONNECTION);
    assert_eq!(ssh_git_branches(&m).unwrap_err(), NO_CONNECTION);
    assert_eq!(ssh_git_stage(&m, vec!["a".into()]).unwrap_err(), NO_CONNECTION);
    assert_eq!(ssh_git_commit(&m, "m".into()).unwrap_err(), NO_CONNECTION);
    let conn = begin_connect(&mut m, "config-web").unwrap();
    finish_connect(&mut m, "config-web".into(), conn, Ok("/home/deploy\n".into())).unwrap();
    assert!(ssh_read_file(&m, "/f".into()).is_ok());
    assert!(ssh_git_status(&m).is_ok());
}

#[test]
fn file_operations_build_quoted_commands() {
    let m = connected();
    let conn_args = ssh_read_file(&m, "x".into()).unwrap().args;
    assert_eq!(conn_args[..conn_args.len() - 1].to_vec(), {
        let mut m2 = manager();
        let c = begin_connect(&mut m2, "config-web").unwrap();
        build_ssh_args(&c, None)
    });
    assert_eq!(command(&ssh_read_file(&m, "/etc/it's here".into()).unwrap()), "cat '/etc/it'\\''s here'");
    let w = ssh_write_file(&m, "/tmp/a b".into(), "line1\nline2".into()).unwrap();
    assert_eq!(command(&w), "cat > '/tmp/a b'");
    assert_eq!(w.input.as_deref(), Some("line1\nline2"));
    assert_eq!(command(&ssh_create_dir(&m, "/a/b".into()).unwrap()), "mkdir -p '/a/b'");
    assert_eq!(command(&ssh_delete_file(&m, "/a".into()).unwrap()), "rm -f '/a'");
    assert_eq!(command(&ssh_delete_dir(&m, "/a".into()).unwrap()), "rm -rf '/a'");
    assert_eq!(command(&ssh_rename(&m, "/a'".into(), "/b".into()).unwrap()), "mv '/a'\\''' '/b'");
    assert_eq!(ssh_read_file(&m, "/f".into()).unwrap().input, None);
}

#[test]
fn file_tree_lists_an_absolute_path() {
    let m = connected();
    let c = |d: Option<&str>| command(&ssh_get_file_tree(&m, d.map(|s| s.to_string())).unwrap());
    assert_eq!(c(None), "ls -la '/' 2>/dev/null | tail -n +2");
    assert_eq!(c(Some("")), "ls -la '/' 2>/dev/null | tail -n +2");
    assert_eq!(c(Some("/srv")), "ls -la '/srv' 2>/dev/null | tail -n +2");
    assert_eq!(c(Some("srv/x y")), "ls -la '/srv/x y' 2>/dev/null | tail -n +2");
}

#[test]
fn git_operations_run_in_the_working_dir() {
    let mut m = connected();
    ssh_set_working_dir(&mut m, "/srv/it's".into()).unwrap();
    assert_eq!(command(&ssh_git_status(&m).unwrap()), "cd '/srv/it'\\''s' && git status --porcelain");
    assert_eq!(
        command(&ssh_git_log(&m).unwrap()),
        "cd '/srv/it'\\''s' && git log --oneline -50 --pretty=format:'%H|%h|%s|%an|%ar'"
    );
    assert_eq!(command(&ssh_git_branches(&m).unwrap()), "cd '/srv/it'\\''s' && git branch -a");
    assert_eq!(
        command(&ssh_git_stage(&m, vec!["a b".into(), "c'd".into()]).unwrap()),
        "cd '/srv/it'\\''s' && git add 'a b' 'c'\\''d'"
    );
    assert_eq!(command(&ssh_git_stage(&m, vec![]).unwrap()), "cd '/srv/it'\\''s' && git add ");
    assert_eq!(
        command(&ssh_git_commit(&m, "fix: it's done".into()).unwrap()),
        "cd '/srv/it'\\''s' && git commit -m 'fix: it'\\''s done'"
    );
}
