//! User settings: the interface language, the output directory and the
//! defaults for new downloads, and how stored settings are made valid.
use vstd::prelude::*;
use crate::text::{ascii_lower, begins_with, is_space, lemma_trimmed_edges, lemma_trimmed_fixed, lemma_trimmed_idempotent, concat, is_blank, str_equal, str_strip_prefix, to_ascii_lowercase, trim, trimmed};

verus! {

/// The settings the user can change.
#[derive(Debug)]
pub struct AppSettings {
    pub output_dir: String,
    pub default_download_mode: String,
    pub default_playlist_scope: String,
    pub default_auth_mode: String,
    pub default_browser: String,
    pub default_cookie_file: String,
    pub language: String,
}

// ---------------------------------------------------------------------------
// Specifications
// ---------------------------------------------------------------------------

/// The language setting asks for English: trimmed and ASCII-lowercased it is
/// `en`, `en-us` or `english`.
pub open spec fn english_spec(language: Seq<char>) -> bool {
    let l = ascii_lower(trimmed(language));
    l == "en"@ || l == "en-us"@ || l == "english"@
}

/// The canonical language tag for a language setting.
pub open spec fn language_tag(language: Seq<char>) -> Seq<char> {
    if english_spec(language) {
        "en-US"@
    } else {
        "zh-CN"@
    }
}

/// The home directory as a text, when it is known.
pub open spec fn home_view(home: Option<&str>) -> Option<Seq<char>> {
    match home {
        Some(h) => Some(h@),
        None => None,
    }
}

/// The default download directory under the home directory.
pub open spec fn recommended_dir(home: Option<Seq<char>>) -> Seq<char> {
    match home {
        Some(h) => h + "/Downloads/拾流下载器"@,
        None => "./Downloads/拾流下载器"@,
    }
}

/// `~` and a leading `~/` replaced by the home directory.
pub open spec fn expanded_home(path: Seq<char>, home: Option<Seq<char>>) -> Seq<char> {
    if path == "~"@ {
        match home {
            Some(h) => h,
            None => "."@,
        }
    } else if begins_with(path, "~/"@) {
        match home {
            Some(h) => h + "/"@ + path.skip(2),
            None => path,
        }
    } else {
        path
    }
}

/// The directory a download goes to for what the user typed.
pub open spec fn normalized_output_dir(path: Seq<char>, home: Option<Seq<char>>) -> Seq<char> {
    if is_blank(path) {
        recommended_dir(home)
    } else {
        expanded_home(trimmed(path), home)
    }
}

/// The download modes the settings accept.
pub open spec fn valid_download_mode(m: Seq<char>) -> bool {
    m == "video"@ || m == "audio"@ || m == "subtitles"@ || m == "video+subtitles"@
}

/// The playlist scopes the settings accept.
pub open spec fn valid_playlist_scope(m: Seq<char>) -> bool {
    m == "video"@ || m == "playlist"@
}

/// The authentication modes the settings accept.
pub open spec fn valid_auth_mode(m: Seq<char>) -> bool {
    m == "none"@ || m == "browser"@ || m == "file"@
}

/// The browsers whose cookies can be read.
pub open spec fn valid_browser(m: Seq<char>) -> bool {
    ||| m == "chrome"@
    ||| m == "chromium"@
    ||| m == "edge"@
    ||| m == "firefox"@
    ||| m == "safari"@
    ||| m == "brave"@
    ||| m == "opera"@
    ||| m == "vivaldi"@
    ||| m == "whale"@
}

/// `value` when `ok`, else `fallback`.
pub open spec fn kept_or(ok: bool, value: Seq<char>, fallback: Seq<char>) -> Seq<char> {
    if ok {
        value
    } else {
        fallback
    }
}

/// `s` is what `sanitize_settings` makes of `input`.
pub open spec fn is_sanitized_from(s: AppSettings, input: AppSettings, home: Option<Seq<char>>) -> bool {
    &&& s.output_dir@ == normalized_output_dir(input.output_dir@, home)
    &&& s.default_download_mode@ == kept_or(
        valid_download_mode(input.default_download_mode@),
        input.default_download_mode@,
        "video"@,
    )
    &&& s.default_playlist_scope@ == kept_or(
        valid_playlist_scope(input.default_playlist_scope@),
        input.default_playlist_scope@,
        "video"@,
    )
    &&& s.default_auth_mode@ == kept_or(
        valid_auth_mode(input.default_auth_mode@),
        input.default_auth_mode@,
        "none"@,
    )
    &&& s.default_browser@ == kept_or(
        valid_browser(input.default_browser@),
        input.default_browser@,
        "chrome"@,
    )
    &&& s.default_cookie_file@ == trimmed(input.default_cookie_file@)
    &&& s.language@ == language_tag(input.language@)
}

/// The settings view of the same values.
pub open spec fn same_settings(a: AppSettings, b: AppSettings) -> bool {
    &&& a.output_dir@ == b.output_dir@
    &&& a.default_download_mode@ == b.default_download_mode@
    &&& a.default_playlist_scope@ == b.default_playlist_scope@
    &&& a.default_auth_mode@ == b.default_auth_mode@
    &&& a.default_browser@ == b.default_browser@
    &&& a.default_cookie_file@ == b.default_cookie_file@
    &&& a.language@ == b.language@
}

/// A home directory that expands to itself: no surrounding whitespace, not
/// empty, and not starting with `~`.
pub open spec fn plain_home(home: Option<Seq<char>>) -> bool {
    match home {
        Some(h) => h.len() > 0 && trimmed(h) == h && h[0] != '~',
        None => true,
    }
}

// ---------------------------------------------------------------------------
// Executable functions
// ---------------------------------------------------------------------------

/// `sanitize_language`: `en-US` for an English setting, else `zh-CN`.
pub fn sanitize_language(language: &str) -> (r: &'static str)
    ensures
        r@ == language_tag(language@),
{
    let t = trim(language);
    let l = to_ascii_lowercase(t.as_str());
    if str_equal(l.as_str(), "en") || str_equal(l.as_str(), "en-us") || str_equal(
        l.as_str(),
        "english",
    ) {
        "en-US"
    } else {
        "zh-CN"
    }
}

/// `is_english`: the language setting asks for English.
pub fn is_english(language: &str) -> (r: bool)
    ensures
        r == english_spec(language@),
{
    let tag = sanitize_language(language);
    proof {
        reveal_strlit("en-US");
        reveal_strlit("zh-CN");
        assert("en-US"@[0] != "zh-CN"@[0]);
    }
    str_equal(tag, "en-US")
}

/// The default download directory for a home directory (`HOME`).
pub fn recommended_output_dir(home: Option<&str>) -> (r: String)
    ensures
        r@ == recommended_dir(home_view(home)),
{
    match home {
        Some(h) => concat(h, "/Downloads/拾流下载器"),
        None => "./Downloads/拾流下载器".to_string(),
    }
}

/// `expand_home_path`: `~` and `~/...` resolved against the home directory.
pub fn expand_home_path(path: &str, home: Option<&str>) -> (r: String)
    ensures
        r@ == expanded_home(path@, home_view(home)),
{
    proof {
        reveal_strlit("~/");
    }
    if str_equal(path, "~") {
        return match home {
            Some(h) => h.to_string(),
            None => ".".to_string(),
        };
    }
    match str_strip_prefix(path, "~/") {
        Some(rest) => match home {
            Some(h) => {
                let with_slash = concat(h, "/");
                concat(with_slash.as_str(), rest.as_str())
            },
            None => path.to_string(),
        },
        None => path.to_string(),
    }
}

/// `normalize_output_dir`: the recommended directory for a blank entry, the
/// trimmed entry with `~` expanded otherwise.
pub fn normalize_output_dir(path: &str, home: Option<&str>) -> (r: String)
    ensures
        r@ == normalized_output_dir(path@, home_view(home)),
{
    let trimmed_path = trim(path);
    if trimmed_path.as_str().is_empty() {
        return recommended_output_dir(home);
    }
    expand_home_path(trimmed_path.as_str(), home)
}

/// `value` if it is one of `allowed`, else `fallback`.
fn keep_if_allowed(value: String, allowed: &Vec<&'static str>, fallback: &'static str) -> (r: String)
    ensures
        (exists|i: int| 0 <= i < allowed.len() && allowed@[i]@ == value@) ==> r@ == value@,
        !(exists|i: int| 0 <= i < allowed.len() && allowed@[i]@ == value@) ==> r@ == fallback@,
{
    let mut i: usize = 0;
    while i < allowed.len()
        invariant
            i <= allowed.len(),
            forall|k: int| 0 <= k < i ==> allowed@[k]@ != value@,
        decreases allowed.len() - i,
    {
        if str_equal(value.as_str(), allowed[i]) {
            return value;
        }
        i = i + 1;
    }
    fallback.to_string()
}

/// `sanitize_settings`: every field replaced by its default when it is not
/// one of the accepted values, paths trimmed and expanded, language made canonical.
pub fn sanitize_settings(settings: AppSettings, home: Option<&str>) -> (r: AppSettings)
    ensures
        is_sanitized_from(r, settings, home_view(home)),
{
    let output_dir = if trim(settings.output_dir.as_str()).as_str().is_empty() {
        recommended_output_dir(home)
    } else {
        normalize_output_dir(settings.output_dir.as_str(), home)
    };
    let modes = vec!["video", "audio", "subtitles", "video+subtitles"];
    let scopes = vec!["video", "playlist"];
    let auths = vec!["none", "browser", "file"];
    let browsers = vec![
        "chrome",
        "chromium",
        "edge",
        "firefox",
        "safari",
        "brave",
        "opera",
        "vivaldi",
        "whale",
    ];
    let ghost input = settings;
    let mode = keep_if_allowed(settings.default_download_mode, &modes, "video");
    let scope = keep_if_allowed(settings.default_playlist_scope, &scopes, "video");
    let auth = keep_if_allowed(settings.default_auth_mode, &auths, "none");
    let browser = keep_if_allowed(settings.default_browser, &browsers, "chrome");
    proof {
        let m = input.default_download_mode@;
        if valid_download_mode(m) {
            if m == "video"@ { assert(modes@[0]@ == m); }
            if m == "audio"@ { assert(modes@[1]@ == m); }
            if m == "subtitles"@ { assert(modes@[2]@ == m); }
            if m == "video+subtitles"@ { assert(modes@[3]@ == m); }
        }
        let p = input.default_playlist_scope@;
        if valid_playlist_scope(p) {
            if p == "video"@ { assert(scopes@[0]@ == p); }
            if p == "playlist"@ { assert(scopes@[1]@ == p); }
        }
        let a = input.default_auth_mode@;
        if valid_auth_mode(a) {
            if a == "none"@ { assert(auths@[0]@ == a); }
            if a == "browser"@ { assert(auths@[1]@ == a); }
            if a == "file"@ { assert(auths@[2]@ == a); }
        }
        let b = input.default_browser@;
        if valid_browser(b) {
            if b == "chrome"@ { assert(browsers@[0]@ == b); }
            if b == "chromium"@ { assert(browsers@[1]@ == b); }
            if b == "edge"@ { assert(browsers@[2]@ == b); }
            if b == "firefox"@ { assert(browsers@[3]@ == b); }
            if b == "safari"@ { assert(browsers@[4]@ == b); }
            if b == "brave"@ { assert(browsers@[5]@ == b); }
            if b == "opera"@ { assert(browsers@[6]@ == b); }
            if b == "vivaldi"@ { assert(browsers@[7]@ == b); }
            if b == "whale"@ { assert(browsers@[8]@ == b); }
        }
    }
    AppSettings {
        output_dir,
        default_download_mode: mode,
        default_playlist_scope: scope,
        default_auth_mode: auth,
        default_browser: browser,
        default_cookie_file: trim(settings.default_cookie_file.as_str()),
        language: sanitize_language(settings.language.as_str()).to_string(),
    }
}

/// `default_settings`: the settings of a first start.
pub fn default_settings(home: Option<&str>) -> (r: AppSettings)
    ensures
        r.output_dir@ == recommended_dir(home_view(home)),
        r.default_download_mode@ == "video"@,
        r.default_playlist_scope@ == "video"@,
        r.default_auth_mode@ == "none"@,
        r.default_browser@ == "chrome"@,
        r.default_cookie_file@ == Seq::<char>::empty(),
        r.language@ == "zh-CN"@,
{
    AppSettings {
        output_dir: recommended_output_dir(home),
        default_download_mode: "video".to_string(),
        default_playlist_scope: "video".to_string(),
        default_auth_mode: "none".to_string(),
        default_browser: "chrome".to_string(),
        default_cookie_file: String::new(),
        language: "zh-CN".to_string(),
    }
}

/// The explanation on a task left unfinished by a restart.
pub open spec fn unfinished_after_restart_text(language: Seq<char>) -> Seq<char> {
    if english_spec(language) {
        "The app was restarted before this "@
            + "task finished. Incomplete tasks are not resumed automatically. Please retry manually."@
    } else {
        "应用重新启动后，未完成任务不会自动恢复。请手动重试。"@
    }
}

/// `message_unfinished_after_restart`.
pub fn message_unfinished_after_restart(language: &str) -> (r: String)
    ensures
        r@ == unfinished_after_restart_text(language@),
{
    if is_english(language) {
        concat(
            "The app was restarted before this ",
            "task finished. Incomplete tasks are not resumed automatically. Please retry manually.",
        )
    } else {
        "应用重新启动后，未完成任务不会自动恢复。请手动重试。".to_string()
    }
}


// ---------------------------------------------------------------------------
// Laws
// ---------------------------------------------------------------------------

/// A directory text that expansion and trimming leave alone.
pub open spec fn settled_dir(q: Seq<char>, home: Option<Seq<char>>) -> bool {
    &&& q.len() > 0
    &&& !is_space(q[0])
    &&& !is_space(q.last())
    &&& q != "~"@
    &&& (home is Some ==> !begins_with(q, "~/"@))
}

proof fn lemma_settled_dir_fixed(q: Seq<char>, home: Option<Seq<char>>)
    requires
        settled_dir(q, home),
    ensures
        normalized_output_dir(q, home) == q,
{
    lemma_trimmed_fixed(q);
    reveal_strlit("~");
    reveal_strlit("~/");
}

proof fn lemma_no_tilde_start(q: Seq<char>)
    requires
        q.len() > 0,
        q[0] != '~',
    ensures
        q != "~"@,
        !begins_with(q, "~/"@),
{
    reveal_strlit("~");
    reveal_strlit("~/");
    if begins_with(q, "~/"@) {
        assert(q.subrange(0, 2)[0] == q[0]);
    }
}

proof fn lemma_normalized_dir_settled(p: Seq<char>, home: Option<Seq<char>>)
    requires
        plain_home(home),
    ensures
        settled_dir(normalized_output_dir(p, home), home),
{
    reveal_strlit("~");
    reveal_strlit("~/");
    reveal_strlit("/");
    reveal_strlit(".");
    reveal_strlit("/Downloads/拾流下载器");
    reveal_strlit("./Downloads/拾流下载器");
    match home {
        Some(h) => {
            lemma_trimmed_edges(h);
        },
        None => {},
    }
    let q = normalized_output_dir(p, home);
    if is_blank(p) {
        match home {
            Some(h) => {
                let r = h + "/Downloads/拾流下载器"@;
                assert(r[0] == h[0]);
                assert(r.last() == '器');
                lemma_no_tilde_start(r);
            },
            None => {
                let r = "./Downloads/拾流下载器"@;
                assert(r[0] == '.');
                assert(r.last() == '器');
                lemma_no_tilde_start(r);
            },
        }
        assert(settled_dir(q, home));
    } else {
        let t = trimmed(p);
        lemma_trimmed_edges(p);
        if t == "~"@ {
            match home {
                Some(h) => {
                    lemma_no_tilde_start(h);
                },
                None => {},
            }
        } else if begins_with(t, "~/"@) {
            match home {
                Some(h) => {
                    let r = h + "/"@ + t.skip(2);
                    assert(r[0] == h[0]);
                    lemma_no_tilde_start(r);
                    if t.len() > 2 {
                        assert(r.last() == t.last());
                    } else {
                        assert(r.last() == '/');
                    }
                },
                None => {
                    assert(t[0] == t.subrange(0, 2)[0]);
                },
            }
        } else {
        }
    }
}

/// Sanitizing settings that were already sanitized changes nothing, for any
/// home directory that is non-empty, has no surrounding whitespace and does
/// not start with `~` (or is unknown).
pub proof fn law_sanitize_idempotent(
    input: AppSettings,
    once: AppSettings,
    twice: AppSettings,
    home: Option<Seq<char>>,
)
    requires
        plain_home(home),
        is_sanitized_from(once, input, home),
        is_sanitized_from(twice, once, home),
    ensures
        same_settings(once, twice),
{
    lemma_normalized_dir_settled(input.output_dir@, home);
    lemma_settled_dir_fixed(once.output_dir@, home);
    lemma_trimmed_idempotent(input.default_cookie_file@);
    lemma_language_tag_stable(input.language@);
}

/// A canonical language tag names the same language again.
pub proof fn lemma_language_tag_stable(language: Seq<char>)
    ensures
        language_tag(language_tag(language)) == language_tag(language),
{
    reveal_strlit("en-US");
    reveal_strlit("zh-CN");
    reveal_strlit("en-us");
    reveal_strlit("en");
    reveal_strlit("english");
    let a = "en-US"@;
    lemma_trimmed_fixed(a);
    assert(ascii_lower(a) =~= "en-us"@);
    let b = "zh-CN"@;
    lemma_trimmed_fixed(b);
    assert(ascii_lower(b)[0] == 'z');
}

/// Sanitized settings hold only modes, scopes, authentication modes and
/// browsers the app knows, and a language it has a text for.
pub proof fn law_sanitized_settings_known(s: AppSettings, input: AppSettings, home: Option<Seq<char>>)
    requires
        is_sanitized_from(s, input, home),
    ensures
        valid_download_mode(s.default_download_mode@),
        valid_playlist_scope(s.default_playlist_scope@),
        valid_auth_mode(s.default_auth_mode@),
        valid_browser(s.default_browser@),
        s.language@ == "en-US"@ || s.language@ == "zh-CN"@,
{
}

/// Sanitizing keeps every choice the app offers and replaces any other by
/// the default: the four download modes, the two playlist scopes, the three
/// cookie modes and the nine browsers stay as they are; anything else becomes
/// video, video, none and chrome.
pub proof fn law_sanitize_keeps_offered_choices(s: AppSettings, input: AppSettings, home: Option<Seq<char>>)
    requires
        is_sanitized_from(s, input, home),
    ensures
        ({
            let m = input.default_download_mode@;
            if m == "video"@ || m == "audio"@ || m == "subtitles"@ || m == "video+subtitles"@ {
                s.default_download_mode@ == m
            } else {
                s.default_download_mode@ == "video"@
            }
        }),
        ({
            let c = input.default_playlist_scope@;
            if c == "video"@ || c == "playlist"@ {
                s.default_playlist_scope@ == c
            } else {
                s.default_playlist_scope@ == "video"@
            }
        }),
        ({
            let a = input.default_auth_mode@;
            if a == "none"@ || a == "browser"@ || a == "file"@ {
                s.default_auth_mode@ == a
            } else {
                s.default_auth_mode@ == "none"@
            }
        }),
        ({
            let b = input.default_browser@;
            if b == "chrome"@ || b == "chromium"@ || b == "edge"@ || b == "firefox"@ || b == "safari"@ || b
                == "brave"@ || b == "opera"@ || b == "vivaldi"@ || b == "whale"@ {
                s.default_browser@ == b
            } else {
                s.default_browser@ == "chrome"@
            }
        }),
{
}

} // verus!
