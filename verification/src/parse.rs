//! Inspecting a link: the order of yt-dlp runs (with cookies, without them,
//! and a single-video run for the formats of a playlist), and the messages
//! of failed runs.
use vstd::prelude::*;
use crate::args::{is_youtube, opt_str, ParseUrlRequest};
use crate::json::JsonValue;
use crate::preview::{build_preview, collect_formats, format_list_view, is_preview_of, preview_formats, MediaPreview};
use crate::retry::{command_error, command_error_text, normalize_parse_error, normalized_parse_error, retry_without_auth_spec, should_retry_without_auth};
use crate::settings::{english_spec, is_english};
use crate::text::{concat, is_blank, trim, trimmed};

verus! {

/// Where the inspection of a link stands: which run it waits for.
pub enum ParseState {
    /// The first run, with the request's cookies.
    Primary { url: String },
    /// The first run again without cookies; the first run's error.
    PrimaryWithoutAuth { url: String, first_error: String },
    /// A single-video run for the formats of a playlist that listed none.
    Reference { url: String, preview: MediaPreview },
    /// The same without cookies.
    ReferenceWithoutAuth { url: String, preview: MediaPreview },
}

/// What to do next.
pub enum ParseAction {
    /// Run yt-dlp on the link for the scope, with or without the request's cookies.
    Run { scope: String, without_auth: bool },
    /// The inspection is over.
    Done(Result<MediaPreview, String>),
}

/// How a run that asked yt-dlp to describe a link failed.
pub enum ParseRunFailure {
    /// yt-dlp could not be started; the system's message.
    SpawnFailed(String),
    /// yt-dlp failed; what it printed.
    Exited { stderr: Vec<u8>, stdout: Vec<u8> },
    /// Its output was not UTF-8; the decoder's message.
    InvalidText(String),
    /// Its output was not JSON; the parser's message.
    InvalidJson(String),
}

// ---------------------------------------------------------------------------
// Specifications
// ---------------------------------------------------------------------------

/// The message for a blank link.
pub open spec fn blank_link_message(language: Seq<char>) -> Seq<char> {
    if english_spec(language) {
        "Enter at least one valid link first"@
    } else {
        "请先输入至少一个有效链接"@
    }
}

/// The link of the state.
pub open spec fn state_url(s: ParseState) -> Seq<char> {
    match s {
        ParseState::Primary { url } => url@,
        ParseState::PrimaryWithoutAuth { url, .. } => url@,
        ParseState::Reference { url, .. } => url@,
        ParseState::ReferenceWithoutAuth { url, .. } => url@,
    }
}

/// The position of a state in the order of runs.
pub open spec fn parse_rank(s: ParseState) -> int {
    match s {
        ParseState::Primary { .. } => 0,
        ParseState::PrimaryWithoutAuth { .. } => 1,
        ParseState::Reference { .. } => 2,
        ParseState::ReferenceWithoutAuth { .. } => 3,
    }
}

/// `b` is `a` with its formats replaced by `formats` when these are not empty.
pub open spec fn with_formats_if_any(b: MediaPreview, a: MediaPreview, formats: Seq<crate::preview::PreviewFormatView>) -> bool {
    &&& b.title == a.title
    &&& b.creator == a.creator
    &&& b.duration == a.duration
    &&& b.platform == a.platform
    &&& b.published_at == a.published_at
    &&& b.thumbnail == a.thumbnail
    &&& b.subtitles == a.subtitles
    &&& b.playlist_entries == a.playlist_entries
    &&& b.source_url == a.source_url
    &&& b.is_playlist == a.is_playlist
    &&& b.total_entries == a.total_entries
    &&& format_list_view(b.formats@) == (if formats.len() > 0 {
        formats
    } else {
        format_list_view(a.formats@)
    })
}

// ---------------------------------------------------------------------------
// Executable functions
// ---------------------------------------------------------------------------

/// `normalize_url`: the trimmed link, or an error for a blank one.
pub fn normalize_url(url: &str, language: &str) -> (r: Result<String, String>)
    ensures
        !is_blank(url@) ==> (r matches Ok(u) && u@ == trimmed(url@)),
        is_blank(url@) ==> (r matches Err(e) && e@ == blank_link_message(language@)),
{
    let normalized = trim(url);
    if normalized.as_str().is_empty() {
        return Err(
            if is_english(language) {
                "Enter at least one valid link first".to_string()
            } else {
                "请先输入至少一个有效链接".to_string()
            },
        );
    }
    Ok(normalized)
}

/// The link a parsing state runs yt-dlp on.
pub fn state_link(state: &ParseState) -> (r: &str)
    ensures
        r@ == state_url(*state),
{
    match state {
        ParseState::Primary { url } => url.as_str(),
        ParseState::PrimaryWithoutAuth { url, .. } => url.as_str(),
        ParseState::Reference { url, .. } => url.as_str(),
        ParseState::ReferenceWithoutAuth { url, .. } => url.as_str(),
    }
}

/// The error a failed description run reports (`execute_parse_request`).
pub fn parse_failure_message(
    failure: ParseRunFailure,
    payload: &ParseUrlRequest,
    normalized_url: &str,
    runtime: Option<&str>,
) -> (r: String)
    ensures
        r@ == match failure {
            ParseRunFailure::SpawnFailed(m) => if english_spec(payload.language@) {
                "Failed to start yt-dlp: "@ + m@
            } else {
                "无法启动 yt-dlp："@ + m@
            },
            ParseRunFailure::Exited { stderr, stdout } => normalized_parse_error(
                command_error_text(stderr@, stdout@),
                payload.auth_mode@,
                normalized_url@,
                payload.language@,
                opt_str(runtime),
            ),
            ParseRunFailure::InvalidText(m) => if english_spec(payload.language@) {
                "yt-dlp returned invalid JSON: "@ + m@
            } else {
                "yt-dlp 返回了无效 JSON："@ + m@
            },
            ParseRunFailure::InvalidJson(m) => if english_spec(payload.language@) {
                "Failed to parse yt-dlp JSON: "@ + m@
            } else {
                "解析 yt-dlp JSON 失败："@ + m@
            },
        },
{
    let english = is_english(payload.language.as_str());
    match failure {
        ParseRunFailure::SpawnFailed(m) => if english {
            concat("Failed to start yt-dlp: ", m.as_str())
        } else {
            concat("无法启动 yt-dlp：", m.as_str())
        },
        ParseRunFailure::Exited { stderr, stdout } => normalize_parse_error(
            command_error(stderr.as_slice(), stdout.as_slice()),
            payload.auth_mode.as_str(),
            normalized_url,
            payload.language.as_str(),
            runtime,
        ),
        ParseRunFailure::InvalidText(m) => if english {
            concat("yt-dlp returned invalid JSON: ", m.as_str())
        } else {
            concat("yt-dlp 返回了无效 JSON：", m.as_str())
        },
        ParseRunFailure::InvalidJson(m) => if english {
            concat("Failed to parse yt-dlp JSON: ", m.as_str())
        } else {
            concat("解析 yt-dlp JSON 失败：", m.as_str())
        },
    }
}

/// The error when waiting for the inspection in the background failed.
pub fn parse_wait_error(language: &str, error: &str) -> (r: String)
    ensures
        r@ == (if english_spec(language@) {
            "Failed to wait for the parsing task: "@ + error@
        } else {
            "等待解析任务结束失败："@ + error@
        }),
{
    if is_english(language) {
        concat("Failed to wait for the parsing task: ", error)
    } else {
        concat("等待解析任务结束失败：", error)
    }
}

/// `parse_url_blocking`, first step: the trimmed link and a run for the
/// request's scope with its cookies, or the error for a blank link.
pub fn parse_url_blocking(payload: &ParseUrlRequest) -> (r: (Option<ParseState>, ParseAction))
    ensures
        !is_blank(payload.url@) ==> {
            &&& r.0 matches Some(ParseState::Primary { url }) && url@ == trimmed(payload.url@)
            &&& r.1 matches ParseAction::Run { scope, without_auth } && scope@ == payload.playlist_scope@
                && !without_auth
        },
        is_blank(payload.url@) ==> {
            &&& r.0 is None
            &&& r.1 matches ParseAction::Done(Err(e)) && e@ == blank_link_message(payload.language@)
        },
{
    match normalize_url(payload.url.as_str(), payload.language.as_str()) {
        Ok(url) => (
            Some(ParseState::Primary { url }),
            ParseAction::Run { scope: payload.playlist_scope.clone(), without_auth: false },
        ),
        Err(e) => (None, ParseAction::Done(Err(e))),
    }
}

/// The step after a described link: the preview, or a single-video run for
/// the formats of a playlist that listed none.
fn after_description(url: String, root: &JsonValue, payload: &ParseUrlRequest) -> (r: (Option<ParseState>, ParseAction))
    ensures
        match r.1 {
            ParseAction::Done(Ok(p)) => r.0 is None && is_preview_of(p, *root, url@, payload.language@)
                && !(p.is_playlist && p.formats@.len() == 0),
            ParseAction::Run { scope, without_auth } => {
                &&& scope@ == "video"@
                &&& !without_auth
                &&& r.0 matches Some(ParseState::Reference { url: u, preview: p }) && u@ == url@
                    && is_preview_of(p, *root, url@, payload.language@) && p.is_playlist && p.formats@.len()
                    == 0
            },
            _ => false,
        },
{
    let preview = build_preview(root, url.clone(), payload.language.as_str());
    if preview.is_playlist && preview.formats.len() == 0 {
        (Some(ParseState::Reference { url, preview }), ParseAction::Run { scope: "video".to_string(), without_auth: false })
    } else {
        (None, ParseAction::Done(Ok(preview)))
    }
}

/// The preview with the formats of a single-video description, when it lists any.
fn with_reference_formats(preview: MediaPreview, root: &JsonValue, language: &str) -> (r: MediaPreview)
    ensures
        with_formats_if_any(r, preview, preview_formats(*root, language@)),
{
    let formats = collect_formats(root, language);
    if formats.len() > 0 {
        MediaPreview { formats, ..preview }
    } else {
        preview
    }
}

/// `parse_url_blocking`, later steps: what follows a run's outcome (a
/// description, or the run's error message).
pub fn parse_url_next(state: ParseState, outcome: Result<JsonValue, String>, payload: &ParseUrlRequest) -> (r: (
    Option<ParseState>,
    ParseAction,
))
    ensures
        r.0 matches Some(s) ==> parse_rank(s) > parse_rank(state) && state_url(s) == state_url(state),
        r.1 is Run ==> r.0 is Some,
        r.1 is Done ==> r.0 is None,
        match (state, outcome) {
            (ParseState::Primary { url }, Err(e)) => if retry_without_auth_spec(url@, payload.auth_mode@, e@) {
                &&& r.0 matches Some(ParseState::PrimaryWithoutAuth { first_error, .. }) && first_error@ == e@
                &&& r.1 matches ParseAction::Run { scope, without_auth } && scope@ == payload.playlist_scope@
                    && without_auth
            } else {
                r.1 matches ParseAction::Done(Err(m)) && m@ == e@
            },
            (ParseState::PrimaryWithoutAuth { first_error, .. }, Err(_)) => r.1 matches ParseAction::Done(
                Err(m),
            ) && m@ == first_error@,
            (ParseState::Primary { url }, Ok(root)) | (ParseState::PrimaryWithoutAuth { url, .. }, Ok(root)) => {
                ||| (r.1 matches ParseAction::Done(Ok(p)) && is_preview_of(p, root, url@, payload.language@)
                    && !(p.is_playlist && p.formats@.len() == 0))
                ||| ((r.1 matches ParseAction::Run { scope, without_auth } && scope@ == "video"@ && !without_auth)
                    && (r.0 matches Some(ParseState::Reference { preview: p, .. }) && is_preview_of(
                    p,
                    root,
                    url@,
                    payload.language@,
                ) && p.is_playlist && p.formats@.len() == 0))
            },
            (ParseState::Reference { url, preview }, Err(_)) => if retry_without_auth_spec(
                url@,
                payload.auth_mode@,
                Seq::empty(),
            ) {
                &&& r.0 matches Some(ParseState::ReferenceWithoutAuth { preview: p, .. }) && p == preview
                &&& r.1 matches ParseAction::Run { scope, without_auth } && scope@ == payload.playlist_scope@
                    && without_auth
            } else {
                r.1 matches ParseAction::Done(Ok(p)) && p == preview
            },
            (ParseState::ReferenceWithoutAuth { preview, .. }, Err(_)) => r.1 matches ParseAction::Done(Ok(p))
                && p == preview,
            (ParseState::Reference { preview, .. }, Ok(root)) | (ParseState::ReferenceWithoutAuth {
                preview,
                ..
            }, Ok(root)) => r.1 matches ParseAction::Done(Ok(p)) && with_formats_if_any(
                p,
                preview,
                preview_formats(root, payload.language@),
            ),
        },
{
    match state {
        ParseState::Primary { url } => match outcome {
            Ok(root) => after_description(url, &root, payload),
            Err(e) => {
                if should_retry_without_auth(url.as_str(), payload.auth_mode.as_str(), e.as_str()) {
                    (
                        Some(ParseState::PrimaryWithoutAuth { url, first_error: e }),
                        ParseAction::Run { scope: payload.playlist_scope.clone(), without_auth: true },
                    )
                } else {
                    (None, ParseAction::Done(Err(e)))
                }
            },
        },
        ParseState::PrimaryWithoutAuth { url, first_error } => match outcome {
            Ok(root) => after_description(url, &root, payload),
            Err(_) => (None, ParseAction::Done(Err(first_error))),
        },
        ParseState::Reference { url, preview } => match outcome {
            Ok(root) => (None, ParseAction::Done(Ok(with_reference_formats(preview, &root, payload.language.as_str())))),
            Err(_) => {
                proof {
                    reveal_strlit("");
                }
                if should_retry_without_auth(url.as_str(), payload.auth_mode.as_str(), "") {
                    (
                        Some(ParseState::ReferenceWithoutAuth { url, preview }),
                        ParseAction::Run { scope: payload.playlist_scope.clone(), without_auth: true },
                    )
                } else {
                    (None, ParseAction::Done(Ok(preview)))
                }
            },
        },
        ParseState::ReferenceWithoutAuth { url, preview } => match outcome {
            Ok(root) => (None, ParseAction::Done(Ok(with_reference_formats(preview, &root, payload.language.as_str())))),
            Err(_) => (None, ParseAction::Done(Ok(preview))),
        },
    }
}

} // verus!
