use openloom::commands::files::{binary_content, is_ignored};
use openloom::commands::ssh::FileNode;
use openloom::tree::{path_to_list, read_file_tree};
use openloom::watcher::{file_event, is_ignored_path, slashes};

fn brief(n: &FileNode) -> (String, String, bool, Option<usize>) {
    (n.name.clone(), n.path.clone(), n.is_directory, n.children.as_ref().map(|c| c.len()))
}

const LISTING: &str = "drwxr-xr-x  5 u g 4096 Jan  1 00:00 .\n\
drwxr-xr-x 20 u g 4096 Jan  1 00:00 ..\n\
-rw-r--r--  1 u g   12 Jan  1 00:00 zeta.txt\n\
drwxr-xr-x  2 u g 4096 Jan  1 00:00 src\n\
-rw-r--r--  1 u g   12 Jan  1 00:00 my  notes.md\n\
drwxr-xr-x  2 u g 4096 Jan  1 00:00 node_modules\n\
-rw-r--r--  1 u g    0 Jan  1 00:00 .DS_Store\n\
drwxr-xr-x  2 u g 4096 Jan  1 00:00 Assets\n\
short line\n\
lrwxrwxrwx  1 u g    3 Jan  1 00:00 link -> src\n";

#[test]
fn listing_becomes_sorted_nodes() {
    let nodes = read_file_tree(&Some("/srv/app/".to_string()), LISTING);
    let got: Vec<_> = nodes.iter().map(brief).collect();
    assert_eq!(
        got,
        vec![
            ("Assets".to_string(), "/srv/app/Assets".to_string(), true, Some(0)),
            ("src".to_string(), "/srv/app/src".to_string(), true, Some(0)),
            ("link -> src".to_string(), "/srv/app/link -> src".to_string(), false, None),
            ("my notes.md".to_string(), "/srv/app/my notes.md".to_string(), false, None),
            ("zeta.txt".to_string(), "/srv/app/zeta.txt".to_string(), false, None),
        ]
    );
}

#[test]
fn listing_of_the_root_has_single_slashes() {
    let nodes = read_file_tree(&None, "-rw-r--r-- 1 u g 1 Jan 1 00:00 a\r\n");
    assert_eq!(brief(&nodes[0]), ("a".to_string(), "/a".to_string(), false, None));
    let nodes = read_file_tree(&Some("etc".to_string()), "-rw-r--r-- 1 u g 1 Jan 1 00:00 a");
    assert_eq!(nodes[0].path, "/etc/a");
    assert!(read_file_tree(&None, "").is_empty());
}

#[test]
fn ignored_names_depend_on_kind() {
    let text = "-rw-r--r-- 1 u g 1 Jan 1 00:00 dist\n\
drwxr-xr-x 1 u g 1 Jan 1 00:00 dist\n\
drwxr-xr-x 1 u g 1 Jan 1 00:00 Thumbs.db\n\
-rw-r--r-- 1 u g 1 Jan 1 00:00 Thumbs.db\n";
    let nodes = read_file_tree(&Some("/p".to_string()), text);
    let got: Vec<_> = nodes.iter().map(|n| (n.name.clone(), n.is_directory)).collect();
    assert_eq!(got, vec![("Thumbs.db".to_string(), true), ("dist".to_string(), false)]);
}

#[test]
fn path_to_list_is_absolute() {
    assert_eq!(path_to_list(&None), "/");
    assert_eq!(path_to_list(&Some(String::new())), "/");
    assert_eq!(path_to_list(&Some("/a/b".to_string())), "/a/b");
    assert_eq!(path_to_list(&Some("a/b".to_string())), "/a/b");
}

#[test]
fn ignore_set_is_exact() {
    for d in ["node_modules", ".git", "dist", ".next", ".nuxt", ".output", "coverage", "__pycache__"] {
        assert!(is_ignored(d, true), "{}", d);
        assert!(!is_ignored(d, false), "{}", d);
    }
    for f in [".DS_Store", "Thumbs.db"] {
        assert!(is_ignored(f, false));
        assert!(!is_ignored(f, true));
    }
    assert!(!is_ignored("src", true));
    assert!(!is_ignored("Node_modules", true));
    assert!(!is_ignored("", true));
    assert!(!is_ignored(".gitignore", false));
}

#[test]
fn ignored_path_looks_at_every_part() {
    assert!(is_ignored_path("node_modules/x/y.js"));
    assert!(is_ignored_path("a/.git/HEAD"));
    assert!(is_ignored_path("a/b/dist"));
    assert!(is_ignored_path("coverage"));
    assert!(!is_ignored_path("src/main.rs"));
    assert!(!is_ignored_path("a/distribution/x"));
    assert!(!is_ignored_path(""));
    assert!(!is_ignored_path("a/.DS_Store"));
}

#[test]
fn file_events_use_slashes_and_skip_ignored() {
    assert_eq!(slashes("a\\b\\c.txt"), "a/b/c.txt");
    let c = file_event("src\\main.rs", true).unwrap();
    assert_eq!((c.event.as_str(), c.path.as_str()), ("change", "src/main.rs"));
    let c = file_event("src/gone.rs", false).unwrap();
    assert_eq!((c.event.as_str(), c.path.as_str()), ("unlink", "src/gone.rs"));
    assert!(file_event("node_modules\\x.js", true).is_none());
    assert!(file_event(".git/index", false).is_none());
}

#[test]
fn binary_content_is_standard_base64() {
    assert_eq!(binary_content(b"").unwrap(), "");
    assert_eq!(binary_content(b"f").unwrap(), "Zg==");
    assert_eq!(binary_content(b"fo").unwrap(), "Zm8=");
    assert_eq!(binary_content(b"foo").unwrap(), "Zm9v");
    assert_eq!(binary_content(b"hello world~").unwrap(), "aGVsbG8gd29ybGR+");
    assert_eq!(binary_content(&[0xff, 0xfe, 0xfd]).unwrap(), "//79");
}
