use openloom::commands::ai::{
    api_failure, generate_commit_message, get_ai_settings, message_text, save_ai_settings,
    system_prompt, AiSettings, MAX_PROMPT_DIFF_BYTES,
};
use openloom::commands::config::{get_config, save_config, AppConfig};
use openloom::commands::files::{
    get_file_tree, is_binary_ext, is_binary_name, join_path, search_limit, search_line, DirItem,
    LineHit,
};
use openloom::commands::workspace::browse_dirs;

fn item(name: &str, is_dir: bool) -> DirItem {
    DirItem { name: name.to_string(), is_dir }
}

#[test]
fn project_tree_sorts_without_case_and_drops_ignored() {
    let items = vec![
        item("zeta.txt", false),
        item("node_modules", true),
        item("Beta", true),
        item("alpha", true),
        item(".DS_Store", false),
        item("Apple.md", false),
        item("apple.md", false),
        item(".git", true),
        item(".gitignore", false),
        item("dist", false),
    ];
    let got: Vec<(String, String, bool)> =
        get_file_tree("src", &items).into_iter().map(|n| (n.name, n.path, n.is_directory)).collect();
    let want = vec![
        ("alpha", "src/alpha", true),
        ("Beta", "src/Beta", true),
        (".gitignore", "src/.gitignore", false),
        ("Apple.md", "src/Apple.md", false),
        ("apple.md", "src/apple.md", false),
        ("dist", "src/dist", false),
        ("zeta.txt", "src/zeta.txt", false),
    ];
    let want: Vec<(String, String, bool)> =
        want.into_iter().map(|(a, b, c)| (a.to_string(), b.to_string(), c)).collect();
    assert_eq!(got, want);
    let top = get_file_tree("", &[item("a", false)].into_iter().collect());
    assert_eq!(top[0].path, "a");
    assert!(get_file_tree("x", &vec![]).is_empty());
}

#[test]
fn join_path_puts_a_slash_between() {
    assert_eq!(join_path("", "a"), "a");
    assert_eq!(join_path("src", "a"), "src/a");
    assert_eq!(join_path("a/b", "c d"), "a/b/c d");
}

#[test]
fn search_limit_defaults_and_caps() {
    assert_eq!(search_limit(None), 100);
    assert_eq!(search_limit(Some(0)), 0);
    assert_eq!(search_limit(Some(7)), 7);
    assert_eq!(search_limit(Some(500)), 500);
    assert_eq!(search_limit(Some(501)), 500);
    assert_eq!(search_limit(Some(usize::MAX)), 500);
}

#[test]
fn binary_names_by_extension() {
    for n in ["a.png", "A.PNG", "x.tar.gz", "lib.so", "f.woff2", "archive.7Z", ".hidden.Jpg"] {
        assert!(is_binary_name(n), "{}", n);
    }
    for n in ["a.rs", "png", ".png", "a.", "a.pngx", "", "..", "a.png.txt", "Makefile"] {
        assert!(!is_binary_name(n), "{}", n);
    }
    assert!(is_binary_ext("pdf"));
    assert!(!is_binary_ext("PDF"));
    assert!(!is_binary_ext(""));
    for n in ["a.png", "x.tar.gz", ".png", "a.", "..", "", ".a.b", "é.MP3"] {
        let ext = std::path::Path::new(n)
            .extension()
            .and_then(|e| e.to_str())
            .unwrap_or("")
            .to_lowercase();
        assert_eq!(is_binary_name(n), is_binary_ext(&ext), "{:?}", n);
    }
}

#[test]
fn search_line_reports_byte_column() {
    match search_line("src/a.rs", "let é = needle;", 7, "needle") {
        LineHit::Hit(hit) => {
            assert_eq!(hit.column, "let é = needle;".find("needle").unwrap());
            assert_eq!(hit.column, 9);
            assert_eq!(hit.line, "let é = needle;");
            assert_eq!(hit.file, "src/a.rs");
            assert_eq!(hit.line_number, 7);
        }
        other => panic!("hit expected, got {:?}", other),
    }
    assert!(matches!(search_line("f", "nothing here", 1, "needle"), LineHit::Miss));
    assert!(matches!(search_line("f", "", 1, "needle"), LineHit::Miss));
    assert!(matches!(search_line("f", "", 1, ""), LineHit::Hit(h) if h.column == 0));
    assert!(matches!(search_line("f", "abc", 1, ""), LineHit::Hit(h) if h.column == 0));
}

#[test]
fn search_line_shows_at_most_200_bytes() {
    let long = format!("{}needle{}", "a".repeat(150), "b".repeat(150));
    match search_line("f", &long, 1, "needle") {
        LineHit::Hit(hit) => {
            assert_eq!(hit.column, 150);
            assert_eq!(hit.line, long[..200]);
        }
        other => panic!("hit expected, got {:?}", other),
    }
    let exact = "x".repeat(200);
    assert!(matches!(search_line("f", &exact, 1, "x"), LineHit::Hit(h) if h.line == exact));
    let split = format!("{}é needle", "a".repeat(199));
    assert!(matches!(search_line("f", &split, 1, "needle"), LineHit::Uncut));
    assert!(matches!(search_line("f", &split, 1, "absent"), LineHit::Miss));
}

#[test]
fn browse_offers_visible_directories_by_name() {
    let items = vec![
        item("work", true),
        item(".cache", true),
        item("notes.txt", false),
        item("Archive", true),
        item("ähnlich", true),
        item("Zoo", true),
        item("archive", true),
    ];
    let mut want: Vec<String> =
        ["work", "Archive", "ähnlich", "Zoo", "archive"].iter().map(|s| s.to_string()).collect();
    want.sort_by(|a, b| a.to_lowercase().cmp(&b.to_lowercase()));
    assert_eq!(browse_dirs(&items), want);
    assert_eq!(browse_dirs(&items), vec!["Archive", "archive", "work", "Zoo", "ähnlich"]);
    assert!(browse_dirs(&vec![]).is_empty());
}

#[test]
fn saving_ai_settings_replaces_what_is_given() {
    let current = AiSettings {
        base_url: "u".into(),
        api_key: "k".into(),
        model: "m".into(),
        custom_prompt: "p".into(),
    };
    let r = save_ai_settings(current, Some("u2".into()), None, Some("m2".into()), Some("".into()));
    assert_eq!((r.base_url, r.api_key, r.model, r.custom_prompt), ("u2".into(), "k".into(), "m2".into(), String::new()));
}

#[test]
fn commit_request_is_assembled() {
    let mut s = AiSettings::default();
    assert_eq!(generate_commit_message(&s, "d", "st").unwrap_err(), "No API Key configured");
    s.api_key = "sk-1".into();
    s.custom_prompt = "Be brief.".into();
    let q = generate_commit_message(&s, "diff body", " a | 1 +").unwrap().unwrap();
    assert_eq!(q.url, "https://api.openai.com/v1/chat/completions");
    assert_eq!(q.authorization, "Bearer sk-1");
    assert_eq!(q.model, "gpt-4o-mini");
    assert_eq!(q.max_tokens, 500);
    assert_eq!(q.user, "Git diff stat:\n a | 1 +\n\nDiff content:\ndiff body");
    assert!(q.system.starts_with("你是一个专业的 Git 提交信息生成器。"));
    assert!(q.system.ends_with("只回复提交信息本身，不要有任何其他内容。\n\nBe brief."));
    assert_eq!(system_prompt("").chars().count() + 2 + 9, q.system.chars().count());
    assert!(system_prompt("").ends_with("不要有任何其他内容。"));
}

#[test]
fn long_diff_is_cut_for_the_prompt() {
    let mut s = AiSettings::default();
    s.api_key = "k".into();
    let long = "y".repeat(MAX_PROMPT_DIFF_BYTES + 5);
    let q = generate_commit_message(&s, &long, "").unwrap().unwrap();
    assert_eq!(
        q.user,
        format!("Git diff stat:\n\n\nDiff content:\n{}...\n[diff truncated]", "y".repeat(8000))
    );
    let split = format!("{}é!", "y".repeat(MAX_PROMPT_DIFF_BYTES - 1));
    assert!(generate_commit_message(&s, &split, "").unwrap().is_none());
}

#[test]
fn answers_and_failures_of_the_service() {
    assert_eq!(api_failure("quota"), "AI API error: quota");
    assert_eq!(message_text(Some("  feat: x \n")), "feat: x");
    assert_eq!(message_text(None), "");
}

#[test]
fn shown_settings_mask_the_key() {
    let mut s = AiSettings::default();
    s.api_key = "sk-abcdefghijkl".into();
    s.model = "m".into();
    let shown = get_ai_settings(s).unwrap();
    assert_eq!(shown.api_key, "sk-***ijkl");
    assert_eq!(shown.model, "m");
    assert_eq!(shown.base_url, "https://api.openai.com");
    let mut bad = AiSettings::default();
    bad.api_key = "abcdefgéhij".into();
    assert!(get_ai_settings(bad).is_none());

    let mut c = AppConfig::default();
    c.terminal_font_size = 18;
    c.ai.api_key = "12345678".into();
    let shown = get_config(c).unwrap();
    assert_eq!(shown.ai.api_key, "123***5678");
    assert_eq!(shown.terminal_font_size, 18);
    assert_eq!(shown.shortcuts.save_file, "Ctrl+S");
}

#[test]
fn saved_settings_keep_a_key_that_was_not_entered() {
    let mut current = AppConfig::default();
    current.ai.api_key = "secret-key".into();
    let mut updated = AppConfig::default();
    updated.terminal_font_size = 20;
    updated.ai.api_key = "sec***-key".into();
    updated.ai.model = "other".into();
    let kept = save_config(updated, current);
    assert_eq!(kept.ai.api_key, "secret-key");
    assert_eq!(kept.ai.model, "other");
    assert_eq!(kept.terminal_font_size, 20);

    let mut current = AppConfig::default();
    current.ai.api_key = "old".into();
    let mut updated = AppConfig::default();
    updated.ai.api_key = "new".into();
    assert_eq!(save_config(updated, current).ai.api_key, "new");
}
