//! How yt-dlp's errors are read: which call for a retry with default
//! formats, which for a retry without cookies, and the explanations shown
//! in their place.
use vstd::prelude::*;
use crate::args::{is_youtube, is_youtube_url, opt_str};
use crate::settings::{english_spec, is_english};
use crate::text::{first_nonblank_line_of_text, lossy_decode, first_nonblank_line, has_text, lossy_text, occurs_at, str_contains, str_equal};

verus! {

// ---------------------------------------------------------------------------
// Specifications
// ---------------------------------------------------------------------------

/// yt-dlp's bot check.
pub open spec fn bot_check_text() -> Seq<char> {
    "Sign in to confirm you’re not a bot"@
}

/// The message reports that the requested format is not available.
pub open spec fn format_unavailable(message: Seq<char>) -> bool {
    has_text(message, "Requested format is not available"@) || has_text(
        message,
        "requested format not available"@,
    )
}

/// The message holds the opening of one of the explanations that stand for
/// the bot check or a login challenge, in either interface language.
pub open spec fn explanation_marked(error: Seq<char>) -> bool {
    ||| has_text(error, "当前已启用浏览器 Cookie"@)
    ||| has_text(error, "当前浏览器 Cookie 解析触发了 YouTube 登录挑战"@)
    ||| has_text(error, "当前链接需要登录态或浏览器 Cookie"@)
    ||| has_text(error, "This link requires a signed-in session or browser cookies"@)
    ||| has_text(error, "Browser-cookie parsing triggered a YouTube login challenge"@)
    ||| has_text(error, "Browser cookies are enabled and yt-dlp EJS remote components were also attempted"@)
}

/// An attempt with cookies is to be repeated without them: authentication
/// was on, the link is YouTube's, and the error is empty, a missing format,
/// the bot check, or one of the explanations that stand for them (in either
/// interface language).
pub open spec fn retry_without_auth_spec(url: Seq<char>, auth_mode: Seq<char>, error: Seq<char>) -> bool {
    &&& auth_mode != "none"@
    &&& is_youtube(url)
    &&& {
        ||| error.len() == 0
        ||| format_unavailable(error)
        ||| has_text(error, bot_check_text())
        ||| explanation_marked(error)
    }
}

/// Explanation for the bot check.
pub open spec fn sign_in_message(english: bool) -> Seq<char> {
    if english {
        "This link requires a signed-in session or browser cookies. Switch to Browser Cookies or import a cookie file and try again."@
    } else {
        "当前链接需要登录态或浏览器 Cookie。请切换到“从浏览器读取”或导入 Cookie 文件后重试。"@
    }
}

/// Explanation for a login challenge that only Node.js could not solve.
pub open spec fn node_only_message(english: bool) -> Seq<char> {
    if english {
        "Browser-cookie parsing triggered a YouTube login challenge, but only Node.js was detected on this machine and no downloadable formats could be resolved. Install Deno or Bun so the app can prefer it automatically, or retry without cookies / with a cookie file."@
    } else {
        "当前浏览器 Cookie 解析触发了 YouTube 登录挑战，但本机仅检测到 Node.js，未能解出可下载格式。请先安装 Deno 或 Bun，应用会自动优先使用；或者改用不使用 Cookie / 导入 Cookie 文件再试。"@
    }
}

/// Explanation for a login challenge that the remote solver did not solve.
pub open spec fn challenge_message(english: bool) -> Seq<char> {
    if english {
        "Browser cookies are enabled and yt-dlp EJS remote components were also attempted, but the YouTube login challenge still did not resolve into downloadable formats. This is more likely a yt-dlp challenge compatibility issue for this link than a GUI parameter problem."@
    } else {
        "当前已启用浏览器 Cookie，并已尝试加载 yt-dlp 的 EJS 远程组件，但 YouTube 登录挑战仍未解出可下载格式。更可能是 yt-dlp 当前对这条链接的 challenge 兼容问题，而不是界面参数配置错误。"@
    }
}

/// What a failed inspection reports: an explanation for the bot check and
/// for login challenges, the error itself otherwise.
pub open spec fn normalized_parse_error(
    error: Seq<char>,
    auth_mode: Seq<char>,
    url: Seq<char>,
    language: Seq<char>,
    runtime: Option<Seq<char>>,
) -> Seq<char> {
    let english = english_spec(language);
    if has_text(error, bot_check_text()) {
        sign_in_message(english)
    } else if auth_mode != "none"@ && has_text(error, "Requested format is not available"@) {
        if runtime == Some("node"@) {
            node_only_message(english)
        } else if is_youtube(url) {
            challenge_message(english)
        } else {
            error
        }
    } else {
        error
    }
}

/// The message when yt-dlp printed nothing readable.
pub open spec fn unreadable_failure() -> Seq<char> {
    "yt-dlp 执行失败，但没有返回可读错误"@
}

/// The error of a failed command: the first non-blank line of its standard
/// error, else of its standard output.
pub open spec fn command_error_text(stderr: Seq<u8>, stdout: Seq<u8>) -> Seq<char> {
    command_error_of_texts(lossy_text(stderr), lossy_text(stdout))
}

/// `command_error_text` of the decoded error output and output.
pub open spec fn command_error_of_texts(err: Seq<char>, out: Seq<char>) -> Seq<char> {
    match first_nonblank_line(err) {
        Some(l) => l,
        None => match first_nonblank_line(out) {
            Some(l) => l,
            None => unreadable_failure(),
        },
    }
}

// ---------------------------------------------------------------------------
// Executable functions
// ---------------------------------------------------------------------------

/// `should_retry_with_fallback`: the attempt failed for a missing format.
pub fn should_retry_with_fallback(error: &Option<String>) -> (r: bool)
    ensures
        r == match error {
            Some(m) => format_unavailable(m@),
            None => false,
        },
{
    match error {
        Some(message) => str_contains(message.as_str(), "Requested format is not available")
            || str_contains(message.as_str(), "requested format not available"),
        None => false,
    }
}

/// `should_retry_without_auth`.
pub fn should_retry_without_auth(url: &str, auth_mode: &str, error: &str) -> (r: bool)
    ensures
        r == retry_without_auth_spec(url@, auth_mode@, error@),
{
    if str_equal(auth_mode, "none") || !is_youtube_url(url) {
        return false;
    }
    error.is_empty() || str_contains(error, "Requested format is not available") || str_contains(
        error,
        "requested format not available",
    ) || str_contains(error, "Sign in to confirm you’re not a bot") || str_contains(
        error,
        "当前已启用浏览器 Cookie",
    ) || str_contains(error, "当前浏览器 Cookie 解析触发了 YouTube 登录挑战") || str_contains(
        error,
        "当前链接需要登录态或浏览器 Cookie",
    ) || str_contains(error, "This link requires a signed-in session or browser cookies") || str_contains(
        error,
        "Browser-cookie parsing triggered a YouTube login challenge",
    ) || str_contains(error, "Browser cookies are enabled and yt-dlp EJS remote components were also attempted")
}

/// `normalize_parse_error`, with the JavaScript runtime that was found.
pub fn normalize_parse_error(
    error: String,
    auth_mode: &str,
    url: &str,
    language: &str,
    runtime: Option<&str>,
) -> (r: String)
    ensures
        r@ == normalized_parse_error(error@, auth_mode@, url@, language@, opt_str(runtime)),
{
    let english = is_english(language);
    if str_contains(error.as_str(), "Sign in to confirm you’re not a bot") {
        return if english {
            "This link requires a signed-in session or browser cookies. Switch to Browser Cookies or import a cookie file and try again.".to_string()
        } else {
            "当前链接需要登录态或浏览器 Cookie。请切换到“从浏览器读取”或导入 Cookie 文件后重试。".to_string()
        };
    }
    if !str_equal(auth_mode, "none") && str_contains(error.as_str(), "Requested format is not available") {
        let node = match runtime {
            Some(rt) => str_equal(rt, "node"),
            None => false,
        };
        if node {
            return if english {
                "Browser-cookie parsing triggered a YouTube login challenge, but only Node.js was detected on this machine and no downloadable formats could be resolved. Install Deno or Bun so the app can prefer it automatically, or retry without cookies / with a cookie file.".to_string()
            } else {
                "当前浏览器 Cookie 解析触发了 YouTube 登录挑战，但本机仅检测到 Node.js，未能解出可下载格式。请先安装 Deno 或 Bun，应用会自动优先使用；或者改用不使用 Cookie / 导入 Cookie 文件再试。".to_string()
            };
        }
        if is_youtube_url(url) {
            return if english {
                "Browser cookies are enabled and yt-dlp EJS remote components were also attempted, but the YouTube login challenge still did not resolve into downloadable formats. This is more likely a yt-dlp challenge compatibility issue for this link than a GUI parameter problem.".to_string()
            } else {
                "当前已启用浏览器 Cookie，并已尝试加载 yt-dlp 的 EJS 远程组件，但 YouTube 登录挑战仍未解出可下载格式。更可能是 yt-dlp 当前对这条链接的 challenge 兼容问题，而不是界面参数配置错误。".to_string()
            };
        }
    }
    error
}

/// `command_error`: the first readable line of standard error, else of
/// standard output, else a generic message.
pub fn command_error(stderr: &[u8], stdout: &[u8]) -> (r: String)
    ensures
        r@ == command_error_text(stderr@, stdout@),
{
    let err = lossy_decode(stderr);
    let out = lossy_decode(stdout);
    command_error_from_texts(err.as_str(), out.as_str())
}

/// `command_error` of the decoded error output and output.
pub fn command_error_from_texts(err: &str, out: &str) -> (r: String)
    ensures
        r@ == command_error_of_texts(err@, out@),
{
    match first_nonblank_line_of_text(err) {
        Some(line) => line,
        None => match first_nonblank_line_of_text(out) {
            Some(line) => line,
            None => "yt-dlp 执行失败，但没有返回可读错误".to_string(),
        },
    }
}

/// `message_primary_fallback`.
pub fn message_primary_fallback(language: &str) -> (r: String)
    ensures
        r@ == (if english_spec(language@) {
            "The selected format is unavailable. Retrying with a compatible fallback format."@
        } else {
            "首选格式不可用，正在自动回退到兼容格式重新尝试。"@
        }),
{
    if is_english(language) {
        "The selected format is unavailable. Retrying with a compatible fallback format.".to_string()
    } else {
        "首选格式不可用，正在自动回退到兼容格式重新尝试。".to_string()
    }
}

/// `message_retry_without_auth`.
pub fn message_retry_without_auth(language: &str) -> (r: String)
    ensures
        r@ == (if english_spec(language@) {
            "Browser-cookie download failed. Retrying without cookies."@
        } else {
            "浏览器 Cookie 下载失败，正在自动回退到无 Cookie 重试。"@
        }),
{
    if is_english(language) {
        "Browser-cookie download failed. Retrying without cookies.".to_string()
    } else {
        "浏览器 Cookie 下载失败，正在自动回退到无 Cookie 重试。".to_string()
    }
}

/// `message_no_auth_fallback`.
pub fn message_no_auth_fallback(language: &str) -> (r: String)
    ensures
        r@ == (if english_spec(language@) {
            "The preferred no-cookie format is unavailable. Retrying with a compatible fallback format."@
        } else {
            "无 Cookie 首选格式不可用，正在自动回退到兼容格式重新尝试。"@
        }),
{
    if is_english(language) {
        "The preferred no-cookie format is unavailable. Retrying with a compatible fallback format.".to_string()
    } else {
        "无 Cookie 首选格式不可用，正在自动回退到兼容格式重新尝试。".to_string()
    }
}

// ---------------------------------------------------------------------------
// Laws
// ---------------------------------------------------------------------------

proof fn lemma_starts_with_text(s: Seq<char>, p: Seq<char>)
    requires
        p.len() <= s.len(),
        s.subrange(0, p.len() as int) == p,
    ensures
        has_text(s, p),
{
    assert(occurs_at(s, p, 0));
}

/// Every explanation, in either language, holds its marker.
proof fn lemma_explanations_marked(english: bool)
    ensures
        explanation_marked(sign_in_message(english)),
        explanation_marked(node_only_message(english)),
        explanation_marked(challenge_message(english)),
{
    reveal_strlit("当前链接需要登录态或浏览器 Cookie。请切换到“从浏览器读取”或导入 Cookie 文件后重试。");
    reveal_strlit("当前链接需要登录态或浏览器 Cookie");
    reveal_strlit("当前浏览器 Cookie 解析触发了 YouTube 登录挑战，但本机仅检测到 Node.js，未能解出可下载格式。请先安装 Deno 或 Bun，应用会自动优先使用；或者改用不使用 Cookie / 导入 Cookie 文件再试。");
    reveal_strlit("当前浏览器 Cookie 解析触发了 YouTube 登录挑战");
    reveal_strlit("当前已启用浏览器 Cookie，并已尝试加载 yt-dlp 的 EJS 远程组件，但 YouTube 登录挑战仍未解出可下载格式。更可能是 yt-dlp 当前对这条链接的 challenge 兼容问题，而不是界面参数配置错误。");
    reveal_strlit("当前已启用浏览器 Cookie");
    reveal_strlit("This link requires a signed-in session or browser cookies. Switch to Browser Cookies or import a cookie file and try again.");
    reveal_strlit("This link requires a signed-in session or browser cookies");
    reveal_strlit("Browser-cookie parsing triggered a YouTube login challenge, but only Node.js was detected on this machine and no downloadable formats could be resolved. Install Deno or Bun so the app can prefer it automatically, or retry without cookies / with a cookie file.");
    reveal_strlit("Browser-cookie parsing triggered a YouTube login challenge");
    reveal_strlit("Browser cookies are enabled and yt-dlp EJS remote components were also attempted, but the YouTube login challenge still did not resolve into downloadable formats. This is more likely a yt-dlp challenge compatibility issue for this link than a GUI parameter problem.");
    reveal_strlit("Browser cookies are enabled and yt-dlp EJS remote components were also attempted");
    let a = sign_in_message(english);
    let b = node_only_message(english);
    let c = challenge_message(english);
    let pa = if english { "This link requires a signed-in session or browser cookies"@ } else { "当前链接需要登录态或浏览器 Cookie"@ };
    let pb = if english { "Browser-cookie parsing triggered a YouTube login challenge"@ } else { "当前浏览器 Cookie 解析触发了 YouTube 登录挑战"@ };
    let pc = if english {
        "Browser cookies are enabled and yt-dlp EJS remote components were also attempted"@
    } else {
        "当前已启用浏览器 Cookie"@
    };
    assert(a.subrange(0, pa.len() as int) =~= pa);
    lemma_starts_with_text(a, pa);
    assert(b.subrange(0, pb.len() as int) =~= pb);
    lemma_starts_with_text(b, pb);
    assert(c.subrange(0, pc.len() as int) =~= pc);
    lemma_starts_with_text(c, pc);
}

/// Explaining an inspection error never hides that it calls for a retry
/// without cookies, in either interface language: the explanation is retried
/// whenever the raw error would have been.
pub proof fn law_explained_error_still_retried(
    error: Seq<char>,
    auth_mode: Seq<char>,
    url: Seq<char>,
    language: Seq<char>,
    runtime: Option<Seq<char>>,
)
    requires
        retry_without_auth_spec(url, auth_mode, error),
    ensures
        retry_without_auth_spec(
            url,
            auth_mode,
            normalized_parse_error(error, auth_mode, url, language, runtime),
        ),
{
    lemma_explanations_marked(english_spec(language));
}

/// The interface language changes the texts shown, not whether a failed
/// inspection is retried without cookies.
pub proof fn law_retry_independent_of_language(
    error: Seq<char>,
    auth_mode: Seq<char>,
    url: Seq<char>,
    language: Seq<char>,
    other_language: Seq<char>,
    runtime: Option<Seq<char>>,
)
    ensures
        retry_without_auth_spec(url, auth_mode, normalized_parse_error(error, auth_mode, url, language, runtime))
            == retry_without_auth_spec(
            url,
            auth_mode,
            normalized_parse_error(error, auth_mode, url, other_language, runtime),
        ),
{
    lemma_explanations_marked(true);
    lemma_explanations_marked(false);
}

} // verus!
