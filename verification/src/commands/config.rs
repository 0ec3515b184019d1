//! The editor's settings: their defaults, and how the key of the AI
//! service is shown and kept.

use crate::scan::{contains_text, occurs};
use crate::text::chars_of;
use vstd::prelude::*;
use vstd::string::StringExecFns;
use vstd::utf8::{decode_utf8, encode_utf8, is_char_boundary};

verus! {

broadcast use vstd::utf8::encode_utf8_decode_utf8;

/// The key bindings.
#[derive(Debug)]
pub struct Shortcuts {
    pub save_file: String,
    pub quick_open: String,
    pub global_search: String,
    pub toggle_sidebar: String,
    pub git_commit: String,
}

pub fn default_save_file() -> (r: String)
    ensures
        r@ == "Ctrl+S"@,
{
    "Ctrl+S".to_owned()
}

pub fn default_quick_open() -> (r: String)
    ensures
        r@ == "Ctrl+P"@,
{
    "Ctrl+P".to_owned()
}

pub fn default_global_search() -> (r: String)
    ensures
        r@ == "Ctrl+Shift+F"@,
{
    "Ctrl+Shift+F".to_owned()
}

pub fn default_toggle_sidebar() -> (r: String)
    ensures
        r@ == "Ctrl+B"@,
{
    "Ctrl+B".to_owned()
}

pub fn default_git_commit() -> (r: String)
    ensures
        r@ == "Ctrl+Enter"@,
{
    "Ctrl+Enter".to_owned()
}

impl Default for Shortcuts {
    fn default() -> (r: Self)
        ensures
            r.save_file@ == "Ctrl+S"@,
            r.quick_open@ == "Ctrl+P"@,
            r.global_search@ == "Ctrl+Shift+F"@,
            r.toggle_sidebar@ == "Ctrl+B"@,
            r.git_commit@ == "Ctrl+Enter"@,
    {
        Shortcuts {
            save_file: default_save_file(),
            quick_open: default_quick_open(),
            global_search: default_global_search(),
            toggle_sidebar: default_toggle_sidebar(),
            git_commit: default_git_commit(),
        }
    }
}

/// How the AI service is reached.
#[derive(Debug)]
pub struct AiConfig {
    pub base_url: String,
    pub api_key: String,
    pub model: String,
    pub custom_prompt: String,
}

pub fn default_base_url() -> (r: String)
    ensures
        r@ == "https://api.openai.com"@,
{
    "https://api.openai.com".to_owned()
}

pub fn default_model() -> (r: String)
    ensures
        r@ == "gpt-4o-mini"@,
{
    "gpt-4o-mini".to_owned()
}

impl Default for AiConfig {
    fn default() -> (r: Self)
        ensures
            r.base_url@ == "https://api.openai.com"@,
            r.api_key@ == Seq::<char>::empty(),
            r.model@ == "gpt-4o-mini"@,
            r.custom_prompt@ == Seq::<char>::empty(),
    {
        AiConfig {
            base_url: default_base_url(),
            api_key: String::new(),
            model: default_model(),
            custom_prompt: String::new(),
        }
    }
}

/// The settings of a project.
#[derive(Debug)]
pub struct AppConfig {
    pub terminal_font_size: u16,
    pub shortcuts: Shortcuts,
    pub ai: AiConfig,
}

pub fn default_font_size() -> (r: u16)
    ensures
        r == 15,
{
    15
}

impl Default for AppConfig {
    fn default() -> (r: Self)
        ensures
            r.terminal_font_size == 15,
            r.shortcuts.save_file@ == "Ctrl+S"@,
            r.shortcuts.quick_open@ == "Ctrl+P"@,
            r.shortcuts.global_search@ == "Ctrl+Shift+F"@,
            r.shortcuts.toggle_sidebar@ == "Ctrl+B"@,
            r.shortcuts.git_commit@ == "Ctrl+Enter"@,
            r.ai.base_url@ == "https://api.openai.com"@,
            r.ai.api_key@ == Seq::<char>::empty(),
            r.ai.model@ == "gpt-4o-mini"@,
            r.ai.custom_prompt@ == Seq::<char>::empty(),
    {
        AppConfig {
            terminal_font_size: default_font_size(),
            shortcuts: Shortcuts::default(),
            ai: AiConfig::default(),
        }
    }
}

/// Whether `key` can be masked: a key of more than seven bytes must not
/// have a character that reaches over its third byte or over the fourth
/// byte from its end.
pub open spec fn maskable(key: Seq<char>) -> bool {
    let b = encode_utf8(key);
    b.len() > 7 ==> is_char_boundary(b, 3) && is_char_boundary(b, b.len() - 4)
}

/// The key as it is shown. Of a key of more than seven bytes the first
/// three and the last four stay, with three stars between them; a shorter
/// key is three stars; no key is shown as nothing.
pub open spec fn masked_key(key: Seq<char>) -> Seq<char> {
    let b = encode_utf8(key);
    if b.len() > 7 {
        decode_utf8(b.subrange(0, 3)) + "***"@ + decode_utf8(
            b.subrange(b.len() - 4, b.len() as int),
        )
    } else if key.len() > 0 {
        "***"@
    } else {
        Seq::empty()
    }
}

/// The key as it is shown.
pub fn mask_api_key(key: &str) -> (r: String)
    requires
        maskable(key@),
    ensures
        r@ == masked_key(key@),
{
    let n = key.as_bytes().len();
    if n > 7 {
        let (head, _) = key.split_at(3);
        let (_, tail) = key.split_at(n - 4);
        let ghost b = encode_utf8(key@);
        assert(decode_utf8(encode_utf8(head@)) == head@);
        assert(decode_utf8(encode_utf8(tail@)) == tail@);
        assert(head@ == decode_utf8(b.subrange(0, 3)));
        assert(tail@ == decode_utf8(b.subrange(b.len() - 4, b.len() as int)));
        let mut r = head.to_owned();
        r.append("***");
        r.append(tail);
        r
    } else if !key.is_empty() {
        "***".to_owned()
    } else {
        String::new()
    }
}

/// The key as it is shown, and `None` for a key that cannot be masked.
pub fn try_mask_api_key(key: &str) -> (r: Option<String>)
    ensures
        match r {
            Some(m) => maskable(key@) && m@ == masked_key(key@),
            None => !maskable(key@),
        },
{
    let n = key.as_bytes().len();
    if n > 7 && !(key.is_char_boundary(3) && key.is_char_boundary(n - 4)) {
        None
    } else {
        Some(mask_api_key(key))
    }
}

/// The key that is kept when settings are saved with the key `entered`:
/// an empty key, and a key that holds three stars in a row, which is a
/// masked key handed back, leave the key `current` in place.
pub open spec fn kept_key(entered: Seq<char>, current: Seq<char>) -> Seq<char> {
    if entered.len() == 0 || occurs(entered, "***"@) {
        current
    } else {
        entered
    }
}

/// The key that is kept when settings are saved with the key `entered`.
pub fn keep_api_key(entered: String, current: String) -> (r: String)
    ensures
        r@ == kept_key(entered@, current@),
{
    let text = chars_of(entered.as_str());
    let stars = chars_of("***");
    if text.len() == 0 || contains_text(&text, &stars) {
        current
    } else {
        entered
    }
}

/// The settings as they are shown: the key of the AI service is masked.
/// `None` stands for settings whose key cannot be masked.
pub fn get_config(config: AppConfig) -> (r: Option<AppConfig>)
    ensures
        match r {
            Some(c) => {
                &&& maskable(config.ai.api_key@)
                &&& c.ai.api_key@ == masked_key(config.ai.api_key@)
                &&& c.ai.base_url == config.ai.base_url
                &&& c.ai.model == config.ai.model
                &&& c.ai.custom_prompt == config.ai.custom_prompt
                &&& c.terminal_font_size == config.terminal_font_size
                &&& c.shortcuts == config.shortcuts
            },
            None => !maskable(config.ai.api_key@),
        },
{
    match try_mask_api_key(config.ai.api_key.as_str()) {
        Some(masked) => Some(
            AppConfig {
                terminal_font_size: config.terminal_font_size,
                shortcuts: config.shortcuts,
                ai: AiConfig {
                    base_url: config.ai.base_url,
                    api_key: masked,
                    model: config.ai.model,
                    custom_prompt: config.ai.custom_prompt,
                },
            },
        ),
        None => None,
    }
}

/// The settings that are kept when `updated` is saved over `current`: all
/// of `updated`, but for the key of the AI service where `updated` holds
/// none or a masked one.
pub fn save_config(updated: AppConfig, current: AppConfig) -> (r: AppConfig)
    ensures
        r.ai.api_key@ == kept_key(updated.ai.api_key@, current.ai.api_key@),
        r.ai.base_url == updated.ai.base_url,
        r.ai.model == updated.ai.model,
        r.ai.custom_prompt == updated.ai.custom_prompt,
        r.terminal_font_size == updated.terminal_font_size,
        r.shortcuts == updated.shortcuts,
{
    AppConfig {
        terminal_font_size: updated.terminal_font_size,
        shortcuts: updated.shortcuts,
        ai: AiConfig {
            base_url: updated.ai.base_url,
            api_key: keep_api_key(updated.ai.api_key, current.ai.api_key),
            model: updated.ai.model,
            custom_prompt: updated.ai.custom_prompt,
        },
    }
}

} // verus!
