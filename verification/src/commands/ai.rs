//! The settings of the AI service and the address of its chat endpoint.

use crate::bytes::{byte_len, cuts_at, shorten, shortened};
use crate::commands::config::{maskable, masked_key, try_mask_api_key};
use crate::scan::{contains_text, ends_with, occurs};
use crate::shell::push_text;
use crate::text::{chars_of, glue, strip_chars, strip_end, strip_end_chars, text_of, trimmed, CharClass};
use vstd::prelude::*;
use vstd::string::StringExecFns;

verus! {

/// How the AI service is reached.
#[derive(Debug)]
pub struct AiSettings {
    pub base_url: String,
    pub api_key: String,
    pub model: String,
    pub custom_prompt: String,
}

impl Default for AiSettings {
    fn default() -> (r: Self)
        ensures
            r.base_url@ == "https://api.openai.com"@,
            r.api_key@ == Seq::<char>::empty(),
            r.model@ == "gpt-4o-mini"@,
            r.custom_prompt@ == Seq::<char>::empty(),
    {
        AiSettings {
            base_url: "https://api.openai.com".to_owned(),
            api_key: String::new(),
            model: "gpt-4o-mini".to_owned(),
            custom_prompt: String::new(),
        }
    }
}

/// The address of the chat endpoint of the service at `base_url`. Slashes
/// at the end of the base are dropped. A base that ends with `/v1`, or
/// that holds `/api/`, is taken to name the version already; any other
/// gets `/v1`.
pub open spec fn chat_url(base_url: Seq<char>) -> Seq<char> {
    let base = strip_end(base_url, CharClass::Only('/'));
    if "/v1"@.is_suffix_of(base) || occurs(base, "/api/"@) {
        base + "/chat/completions"@
    } else {
        base + "/v1/chat/completions"@
    }
}

/// The address of the chat endpoint of the service at `base_url`.
pub fn chat_completions_url(base_url: &str) -> (r: String)
    ensures
        r@ == chat_url(base_url@),
{
    let text = chars_of(base_url);
    let mut base = strip_end_chars(&text, CharClass::Only('/'));
    let v1 = chars_of("/v1");
    let api = chars_of("/api/");
    if ends_with(&base, &v1) || contains_text(&base, &api) {
        push_text(&mut base, "/chat/completions");
    } else {
        push_text(&mut base, "/v1/chat/completions");
    }
    text_of(&base)
}

/// The settings after a save: each one that is given replaces the current
/// one.
pub fn save_ai_settings(
    current: AiSettings,
    base_url: Option<String>,
    api_key: Option<String>,
    model: Option<String>,
    custom_prompt: Option<String>,
) -> (r: AiSettings)
    ensures
        r.base_url == base_url.unwrap_or(current.base_url),
        r.api_key == api_key.unwrap_or(current.api_key),
        r.model == model.unwrap_or(current.model),
        r.custom_prompt == custom_prompt.unwrap_or(current.custom_prompt),
{
    AiSettings {
        base_url: match base_url {
            Some(v) => v,
            None => current.base_url,
        },
        api_key: match api_key {
            Some(v) => v,
            None => current.api_key,
        },
        model: match model {
            Some(v) => v,
            None => current.model,
        },
        custom_prompt: match custom_prompt {
            Some(v) => v,
            None => current.custom_prompt,
        },
    }
}

/// The most bytes of a diff that are sent to the service.
pub const MAX_PROMPT_DIFF_BYTES: usize = 8000;

/// The instructions that every request for a commit message begins with.
pub open spec fn base_prompt() -> Seq<char> {
    "你是一个专业的 Git 提交信息生成器。请根据提供的 git diff 生成高质量的中文提交信息。\n\n规则：\n1. 使用 Conventional Commits 格式：<type>(<scope>): <中文描述>\n2. type 类型：feat、fix、refactor、docs、style、test、chore、perf、ci、build\n3. scope 为受影响的模块/组件（可选但推荐）\n4. 主题行：祈使语气，不加句号，最多 72 字符\n5. 如果变更较大，空一行后用要点说明关键变更\n6. 要点以 '- ' 开头，解释「为什么」而非仅描述「做了什么」\n7. 如果有多个不相关的变更，主题行聚焦最重要的那个\n8. 提交信息的描述部分必须使用中文\n\n只回复提交信息本身，不要有任何其他内容。"@
}

/// The instructions of a request: the fixed ones, and behind them, after
/// an empty line, those of the user where there are any.
pub open spec fn instructions(custom: Seq<char>) -> Seq<char> {
    if custom.len() == 0 {
        base_prompt()
    } else {
        base_prompt() + "\n\n"@ + custom
    }
}

/// The instructions of a request.
pub fn system_prompt(custom: &str) -> (r: String)
    ensures
        r@ == instructions(custom@),
{
    let base = "你是一个专业的 Git 提交信息生成器。请根据提供的 git diff 生成高质量的中文提交信息。\n\n规则：\n1. 使用 Conventional Commits 格式：<type>(<scope>): <中文描述>\n2. type 类型：feat、fix、refactor、docs、style、test、chore、perf、ci、build\n3. scope 为受影响的模块/组件（可选但推荐）\n4. 主题行：祈使语气，不加句号，最多 72 字符\n5. 如果变更较大，空一行后用要点说明关键变更\n6. 要点以 '- ' 开头，解释「为什么」而非仅描述「做了什么」\n7. 如果有多个不相关的变更，主题行聚焦最重要的那个\n8. 提交信息的描述部分必须使用中文\n\n只回复提交信息本身，不要有任何其他内容。";
    if custom.is_empty() {
        base.to_owned()
    } else {
        let mut r = glue(base, "\n\n");
        r.append(custom);
        r
    }
}

/// What the user's part of the request says: the summary of the diff and
/// the diff itself.
pub open spec fn question(stat: Seq<char>, diff: Seq<char>) -> Seq<char> {
    "Git diff stat:\n"@ + stat + "\n\nDiff content:\n"@ + diff
}

/// A request to the chat endpoint, as a mathematical value.
pub struct RequestView {
    pub url: Seq<char>,
    pub authorization: Seq<char>,
    pub model: Seq<char>,
    pub system: Seq<char>,
    pub user: Seq<char>,
    pub max_tokens: u32,
}

/// A request to the chat endpoint.
#[derive(Debug)]
pub struct ChatRequest {
    pub url: String,
    pub authorization: String,
    pub model: String,
    pub system: String,
    pub user: String,
    pub max_tokens: u32,
}

impl View for ChatRequest {
    type V = RequestView;

    open spec fn view(&self) -> RequestView {
        RequestView {
            url: self.url@,
            authorization: self.authorization@,
            model: self.model@,
            system: self.system@,
            user: self.user@,
            max_tokens: self.max_tokens,
        }
    }
}

/// The request that asks for a commit message for `diff`, whose summary
/// is `stat`. A diff of more than 8000 bytes is cut there and marked as
/// cut.
pub open spec fn commit_request(
    base_url: Seq<char>,
    api_key: Seq<char>,
    model: Seq<char>,
    custom: Seq<char>,
    diff: Seq<char>,
    stat: Seq<char>,
) -> RequestView {
    RequestView {
        url: chat_url(base_url),
        authorization: "Bearer "@ + api_key,
        model,
        system: instructions(custom),
        user: question(
            stat,
            shortened(diff, MAX_PROMPT_DIFF_BYTES as nat, "...\n[diff truncated]"@),
        ),
        max_tokens: 500,
    }
}

/// Whether the diff can be sent: where it is longer than may be sent, a
/// character begins at the place of the cut.
pub open spec fn sendable(diff: Seq<char>) -> bool {
    byte_len(diff) > MAX_PROMPT_DIFF_BYTES ==> cuts_at(diff, MAX_PROMPT_DIFF_BYTES as int)
}

/// The request that asks for a commit message. Without a key it fails.
/// `Ok(None)` stands for a diff that cannot be sent.
pub fn generate_commit_message(settings: &AiSettings, diff: &str, stat: &str) -> (r: Result<
    Option<ChatRequest>,
    String,
>)
    ensures
        match r {
            Ok(Some(q)) => {
                &&& settings.api_key@.len() > 0
                &&& sendable(diff@)
                &&& q@ == commit_request(
                    settings.base_url@,
                    settings.api_key@,
                    settings.model@,
                    settings.custom_prompt@,
                    diff@,
                    stat@,
                )
            },
            Ok(None) => settings.api_key@.len() > 0 && !sendable(diff@),
            Err(e) => settings.api_key@.len() == 0 && e@ == "No API Key configured"@,
        },
{
    if settings.api_key.as_str().is_empty() {
        return Err("No API Key configured".to_owned());
    }
    let cut = match shorten(diff, MAX_PROMPT_DIFF_BYTES, "...\n[diff truncated]") {
        Some(c) => c,
        None => {
            return Ok(None);
        },
    };
    let mut user = glue("Git diff stat:\n", stat);
    user.append("\n\nDiff content:\n");
    user.append(cut.as_str());
    Ok(
        Some(
            ChatRequest {
                url: chat_completions_url(settings.base_url.as_str()),
                authorization: glue("Bearer ", settings.api_key.as_str()),
                model: settings.model.clone(),
                system: system_prompt(settings.custom_prompt.as_str()),
                user,
                max_tokens: 500,
            },
        ),
    )
}

/// The failure reported where the service refuses a request.
pub fn api_failure(detail: &str) -> (r: String)
    ensures
        r@ == "AI API error: "@ + detail@,
{
    glue("AI API error: ", detail)
}

/// The commit message that an answer holds: its content, trimmed, and the
/// empty text where it has none.
pub fn message_text(content: Option<&str>) -> (r: String)
    ensures
        r@ == match content {
            Some(c) => trimmed(c@),
            None => Seq::empty(),
        },
{
    match content {
        Some(c) => {
            let text = chars_of(c);
            let t = strip_chars(&text, CharClass::Space);
            text_of(&t)
        },
        None => String::new(),
    }
}

/// The settings as they are shown: the key is masked. `None` stands for
/// settings whose key cannot be masked.
pub fn get_ai_settings(settings: AiSettings) -> (r: Option<AiSettings>)
    ensures
        match r {
            Some(s) => {
                &&& maskable(settings.api_key@)
                &&& s.api_key@ == masked_key(settings.api_key@)
                &&& s.base_url == settings.base_url
                &&& s.model == settings.model
                &&& s.custom_prompt == settings.custom_prompt
            },
            None => !maskable(settings.api_key@),
        },
{
    match try_mask_api_key(settings.api_key.as_str()) {
        Some(masked) => Some(
            AiSettings {
                base_url: settings.base_url,
                api_key: masked,
                model: settings.model,
                custom_prompt: settings.custom_prompt,
            },
        ),
        None => None,
    }
}

} // verus!
