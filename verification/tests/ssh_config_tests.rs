use openloom::commands::ssh::SSHConfigHost;
use openloom::ssh_config::{parse_hosts, parse_ssh_config, read_directive};

fn cs(s: &str) -> Vec<char> {
    s.chars().collect()
}

fn st(v: &Vec<char>) -> String {
    v.iter().collect()
}

fn host(h: &SSHConfigHost) -> (String, String, u16, String, Option<String>) {
    (h.name.clone(), h.host.clone(), h.port, h.username.clone(), h.identity_file.clone())
}

#[test]
fn directive_of_a_line() {
    let (k, v) = read_directive(&cs("  HostName   example.org  ")).unwrap();
    assert_eq!((st(&k), st(&v)), ("HostName".to_string(), "example.org".to_string()));
    let (k, v) = read_directive(&cs("Port = \"2222\"")).unwrap();
    assert_eq!((st(&k), st(&v)), ("Port".to_string(), "2222".to_string()));
    let (k, v) = read_directive(&cs("IdentityFile '~/.ssh/id'")).unwrap();
    assert_eq!((st(&k), st(&v)), ("IdentityFile".to_string(), "~/.ssh/id".to_string()));
    assert!(read_directive(&cs("# Host x")).is_none());
    assert!(read_directive(&cs("   ")).is_none());
    assert!(read_directive(&cs("Host\tx")).is_none());
    assert!(read_directive(&cs("Compression")).is_none());
}

#[test]
fn parses_host_blocks_in_order() {
    let text = "# servers\nHost web\n  HostName web.example.org\n  User deploy\n  Port 2222\n  IdentityFile ~/.ssh/web\n\nHost db\n  hostname=10.0.0.5\n";
    let hosts = parse_hosts(text, "me");
    assert_eq!(hosts.len(), 2);
    assert_eq!(
        host(&hosts[0]),
        ("web".into(), "web.example.org".into(), 2222, "deploy".into(), Some("~/.ssh/web".into()))
    );
    assert_eq!(host(&hosts[1]), ("db".into(), "10.0.0.5".into(), 22, "me".into(), None));
}

#[test]
fn wildcard_block_is_skipped() {
    let text = "Host a\n  User alice\nHost *\n  User everyone\n  Port 99\nHost b\n";
    let hosts = parse_hosts(text, "me");
    assert_eq!(hosts.len(), 2);
    assert_eq!(host(&hosts[0]), ("a".into(), "a".into(), 22, "alice".into(), None));
    assert_eq!(host(&hosts[1]), ("b".into(), "b".into(), 22, "me".into(), None));
}

#[test]
fn bad_port_falls_back_to_22() {
    let hosts = parse_hosts("Host a\nPort 70000\nHost b\nPort x\nHost c\nPort +8022\n", "me");
    assert_eq!(hosts[0].port, 22);
    assert_eq!(hosts[1].port, 22);
    assert_eq!(hosts[2].port, 8022);
}

#[test]
fn directives_before_any_host_are_dropped() {
    let hosts = parse_hosts("User root\nPort 1\n", "me");
    assert!(hosts.is_empty());
    assert!(parse_hosts("", "me").is_empty());
}

#[test]
fn keywords_ignore_case_and_crlf() {
    let hosts = parse_hosts("HOST box\r\nHOSTNAME h.example\r\nuSeR u\r\n", "me");
    assert_eq!(hosts.len(), 1);
    assert_eq!(host(&hosts[0]), ("box".into(), "h.example".into(), 22, "u".into(), None));
}

#[test]
fn default_user_is_the_process_user() {
    let hosts = parse_ssh_config("Host a\nHost b\nUser x\n");
    assert_eq!(hosts.len(), 2);
    assert_eq!(hosts[0].name, "a");
    assert_eq!(hosts[0].username, whoami::username());
    assert_eq!(hosts[1].username, "x");
}

#[test]
fn keyword_letters_have_no_other_upper_case_forms() {
    let letters = "hostnameportuseridentityfile";
    for code in 0..=0x10FFFFu32 {
        let Some(c) = char::from_u32(code) else { continue };
        let lowered = c.to_string().to_lowercase();
        let ascii_only = lowered.chars().all(|l| l.is_ascii());
        if !ascii_only {
            continue;
        }
        let folded: String = c.to_ascii_lowercase().to_string();
        if lowered != folded {
            assert!(lowered.chars().all(|l| !letters.contains(l)), "{:?} -> {:?}", c, lowered);
        }
        for k in letters.chars() {
            let word = k.to_string();
            assert_eq!(
                openloom::text::folds_to(&vec![c], &word),
                lowered == word,
                "{:?} against {:?}",
                c,
                k
            );
        }
    }
}
