use openloom::commands::ai::{chat_completions_url, AiSettings};
use openloom::commands::config::{
    default_base_url, default_font_size, default_git_commit, default_global_search,
    default_model, default_quick_open, default_save_file, default_toggle_sidebar, keep_api_key,
    mask_api_key, try_mask_api_key, AiConfig, AppConfig, Shortcuts,
};
use openloom::pty::Platform;
use openloom::state::{project_name_from, AppState, MAX_RECENT};

fn v(items: &[&str]) -> Vec<String> {
    items.iter().map(|s| s.to_string()).collect()
}

#[test]
fn new_state_starts_the_recent_list() {
    let s = AppState::new(None, "/p".to_string(), vec![]);
    assert_eq!(s.get_root(), "/p");
    assert_eq!(s.get_recent(), v(&["/p"]));
    assert_eq!(s.config_path, None);
    let s = AppState::new(Some("/c/workspace.json".into()), "/p".to_string(), v(&["/a", "/b"]));
    assert_eq!(s.get_recent(), v(&["/a", "/b"]));
    assert_eq!(s.config_path.as_deref(), Some("/c/workspace.json"));
}

#[test]
fn add_recent_moves_to_front_and_caps_at_five() {
    let mut s = AppState::new(None, "/1".to_string(), v(&["/1", "/2", "/3", "/4", "/5"]));
    s.add_recent("/3".to_string());
    assert_eq!(s.get_recent(), v(&["/3", "/1", "/2", "/4", "/5"]));
    s.add_recent("/6".to_string());
    assert_eq!(s.get_recent(), v(&["/6", "/3", "/1", "/2", "/4"]));
    assert_eq!(s.get_recent().len(), MAX_RECENT);
    let mut s = AppState::new(None, "/1".to_string(), v(&["/x", "/y", "/x"]));
    s.add_recent("/x".to_string());
    assert_eq!(s.get_recent(), v(&["/x", "/y"]));
}

#[test]
fn set_root_changes_only_for_a_new_root() {
    let mut s = AppState::new(None, "/a".to_string(), v(&["/a", "/b"]));
    assert!(!s.set_root("/a", Platform::Other));
    assert_eq!(s.get_recent(), v(&["/a", "/b"]));
    assert!(s.set_root("/b", Platform::Other));
    assert_eq!(s.get_root(), "/b");
    assert_eq!(s.get_recent(), v(&["/b", "/a"]));
    assert!(s.set_root(r"\\?\C:\w", Platform::Windows));
    assert_eq!(s.get_root(), r"C:\w");
    assert!(!s.set_root(r"\\?\C:\w", Platform::Windows));
}

#[test]
fn project_name_is_the_last_part_of_the_root() {
    let s = AppState::new(None, "/home/u/my-project".to_string(), vec![]);
    assert_eq!(s.get_project_name(), "my-project");
    let s = AppState::new(None, "/".to_string(), vec![]);
    assert_eq!(s.get_project_name(), "");
    for root in ["/home/u/my-project", "/usr/bin/", "tmp/foo.txt/.", "a/b/..", "..", "", "x"] {
        let name = AppState::new(None, root.to_string(), vec![]).get_project_name();
        assert!(root.contains(&name), "{:?} in {:?}", name, root);
        assert_ne!(name, "..");
    }
    assert_eq!(AppState::new(None, "a/b/..".to_string(), vec![]).get_project_name(), "");
    assert_eq!(project_name_from(Some("x".to_string())), "x");
    assert_eq!(project_name_from(None), "");
}

#[test]
fn defaults_of_the_settings() {
    assert_eq!(default_save_file(), "Ctrl+S");
    assert_eq!(default_quick_open(), "Ctrl+P");
    assert_eq!(default_global_search(), "Ctrl+Shift+F");
    assert_eq!(default_toggle_sidebar(), "Ctrl+B");
    assert_eq!(default_git_commit(), "Ctrl+Enter");
    assert_eq!(default_base_url(), "https://api.openai.com");
    assert_eq!(default_model(), "gpt-4o-mini");
    assert_eq!(default_font_size(), 15);
    let s = Shortcuts::default();
    assert_eq!(
        (s.save_file, s.quick_open, s.global_search, s.toggle_sidebar, s.git_commit),
        ("Ctrl+S".into(), "Ctrl+P".into(), "Ctrl+Shift+F".into(), "Ctrl+B".into(), "Ctrl+Enter".into())
    );
    let a = AiConfig::default();
    assert_eq!(
        (a.base_url, a.api_key, a.model, a.custom_prompt),
        ("https://api.openai.com".into(), String::new(), "gpt-4o-mini".into(), String::new())
    );
    let c = AppConfig::default();
    assert_eq!(c.terminal_font_size, 15);
    assert_eq!(c.shortcuts.save_file, "Ctrl+S");
    assert_eq!(c.ai.model, "gpt-4o-mini");
    let s = AiSettings::default();
    assert_eq!(
        (s.base_url, s.api_key, s.model, s.custom_prompt),
        ("https://api.openai.com".into(), String::new(), "gpt-4o-mini".into(), String::new())
    );
}

#[test]
fn api_key_is_masked() {
    assert_eq!(mask_api_key("sk-abcdefghijkl"), "sk-***ijkl");
    assert_eq!(mask_api_key("12345678"), "123***5678");
    assert_eq!(mask_api_key("1234567"), "***");
    assert_eq!(mask_api_key("x"), "***");
    assert_eq!(mask_api_key(""), "");
    assert_eq!(mask_api_key("ééé"), "***");
    assert_eq!(try_mask_api_key("sk-abcdefghijkl").as_deref(), Some("sk-***ijkl"));
    assert_eq!(try_mask_api_key("abécdefgh"), None);
    assert_eq!(try_mask_api_key("abcdefgéh").as_deref(), Some("abc***géh"));
    assert_eq!(try_mask_api_key("abcdefgéhij"), None);
    assert_eq!(try_mask_api_key("abcé--éxfgh").as_deref(), Some("abc***xfgh"));
    assert_eq!(try_mask_api_key("éé").as_deref(), Some("***"));
}

#[test]
fn masked_or_empty_key_keeps_the_current_one() {
    assert_eq!(keep_api_key("".into(), "old".into()), "old");
    assert_eq!(keep_api_key("sk-***ijkl".into(), "old".into()), "old");
    assert_eq!(keep_api_key("***".into(), "old".into()), "old");
    assert_eq!(keep_api_key("new-key".into(), "old".into()), "new-key");
    assert_eq!(keep_api_key("a**b*".into(), "old".into()), "a**b*");
}

#[test]
fn chat_url_adds_the_version_where_missing() {
    assert_eq!(chat_completions_url("https://api.openai.com"), "https://api.openai.com/v1/chat/completions");
    assert_eq!(chat_completions_url("https://api.openai.com///"), "https://api.openai.com/v1/chat/completions");
    assert_eq!(chat_completions_url("https://x.test/v1/"), "https://x.test/v1/chat/completions");
    assert_eq!(chat_completions_url("https://x.test/api/v3"), "https://x.test/api/v3/chat/completions");
    assert_eq!(chat_completions_url("https://x.test/api"), "https://x.test/api/v1/chat/completions");
    assert_eq!(chat_completions_url(""), "/v1/chat/completions");
}
