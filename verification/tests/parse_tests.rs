use ytdownloader::args::ParseUrlRequest;
use ytdownloader::json::{JsonNumber, JsonValue};
use ytdownloader::parse::{
    normalize_url, parse_failure_message, parse_url_blocking, parse_url_next, parse_wait_error, state_link, ParseAction,
    ParseRunFailure, ParseState,
};
use ytdownloader::preview::MediaPreview;

fn s(text: &str) -> JsonValue {
    JsonValue::Str(text.to_string())
}

fn n(value: u64) -> JsonValue {
    JsonValue::Number(JsonNumber { unsigned: Some(value), rounded: value })
}

fn obj(members: Vec<(&str, JsonValue)>) -> JsonValue {
    JsonValue::Object(members.into_iter().map(|(k, v)| (k.to_string(), v)).collect())
}

fn video_root() -> JsonValue {
    obj(vec![
        ("title", s("Clip")),
        ("formats", JsonValue::Array(vec![obj(vec![("format_id", s("22")), ("ext", s("mp4")), ("height", n(720))])])),
    ])
}

fn playlist_root() -> JsonValue {
    obj(vec![
        ("title", s("List")),
        ("entries", JsonValue::Array(vec![obj(vec![("title", s("One"))]), obj(vec![("title", s("Two"))])])),
    ])
}

fn payload(url: &str, auth: &str, language: &str) -> ParseUrlRequest {
    ParseUrlRequest {
        url: url.to_string(),
        playlist_scope: "playlist".to_string(),
        auth_mode: auth.to_string(),
        browser: Some("chrome".to_string()),
        cookie_file: None,
        language: language.to_string(),
    }
}

/// Runs the parsing steps, answering each run from `answers` in turn, and
/// records the runs that were asked for.
fn run(p: &ParseUrlRequest, answers: Vec<Result<JsonValue, String>>) -> (Result<MediaPreview, String>, Vec<(String, bool)>) {
    let mut runs = Vec::new();
    let mut answers = answers.into_iter();
    let (mut state, mut action) = parse_url_blocking(p);
    loop {
        match action {
            ParseAction::Done(result) => return (result, runs),
            ParseAction::Run { scope, without_auth } => {
                runs.push((scope, without_auth));
                let outcome = answers.next().expect("an answer for each run");
                let current = state.take().expect("a state while running");
                let (next_state, next_action) = parse_url_next(current, outcome, p);
                state = next_state;
                action = next_action;
            }
        }
    }
}

#[test]
fn links_are_trimmed() {
    assert_eq!(normalize_url("  https://x  ", "en"), Ok("https://x".to_string()));
    assert_eq!(normalize_url(" \n ", "en"), Err("Enter at least one valid link first".to_string()));
    assert_eq!(normalize_url("", "zh"), Err("请先输入至少一个有效链接".to_string()));
}

#[test]
fn blank_link_fails_without_running() {
    let (r, runs) = run(&payload("   ", "none", "en"), vec![]);
    assert_eq!(r.err(), Some("Enter at least one valid link first".to_string()));
    assert!(runs.is_empty());
}

#[test]
fn described_video_gives_its_preview() {
    let (r, runs) = run(&payload(" https://youtu.be/x ", "browser", "en"), vec![Ok(video_root())]);
    let p = r.unwrap();
    assert_eq!(p.title, "Clip");
    assert_eq!(p.source_url, "https://youtu.be/x");
    assert_eq!(p.formats.len(), 1);
    assert_eq!(runs, vec![("playlist".to_string(), false)]);
}

#[test]
fn failure_on_youtube_with_cookies_retries_without_them() {
    let (r, runs) = run(
        &payload("https://youtube.com/watch?v=1", "browser", "en"),
        vec![Err("Sign in to confirm you’re not a bot".to_string()), Ok(video_root())],
    );
    assert_eq!(r.unwrap().title, "Clip");
    assert_eq!(runs, vec![("playlist".to_string(), false), ("playlist".to_string(), true)]);

    let (r, runs) = run(
        &payload("https://youtube.com/watch?v=1", "browser", "en"),
        vec![Err("first failure: Requested format is not available".to_string()), Err("second".to_string())],
    );
    assert_eq!(r.err(), Some("first failure: Requested format is not available".to_string()));
    assert_eq!(runs.len(), 2);
}

#[test]
fn other_failures_are_reported() {
    let (r, runs) = run(&payload("https://youtube.com/watch?v=1", "browser", "en"), vec![Err("HTTP Error 404".to_string())]);
    assert_eq!(r.err(), Some("HTTP Error 404".to_string()));
    assert_eq!(runs.len(), 1);
    let (r, _) = run(&payload("https://vimeo.com/1", "browser", "en"), vec![Err("Sign in to confirm you’re not a bot".to_string())]);
    assert_eq!(r.err(), Some("Sign in to confirm you’re not a bot".to_string()));
}

#[test]
fn playlist_without_formats_borrows_them_from_a_single_video_run() {
    let (r, runs) = run(&payload("https://example.com/list", "none", "en"), vec![Ok(playlist_root()), Ok(video_root())]);
    let p = r.unwrap();
    assert_eq!(p.title, "List");
    assert!(p.is_playlist);
    assert_eq!(p.playlist_entries.len(), 2);
    assert_eq!(p.formats.len(), 1);
    assert_eq!(p.formats[0].format_id, "22");
    assert_eq!(runs, vec![("playlist".to_string(), false), ("video".to_string(), false)]);

    let (r, _) = run(&payload("https://example.com/list", "none", "en"), vec![Ok(playlist_root()), Ok(obj(vec![]))]);
    let p = r.unwrap();
    assert!(p.formats.is_empty());
    assert_eq!(p.title, "List");
}

#[test]
fn failed_reference_run_keeps_the_playlist() {
    let (r, runs) = run(&payload("https://example.com/list", "browser", "en"), vec![Ok(playlist_root()), Err("x".to_string())]);
    assert!(r.unwrap().formats.is_empty());
    assert_eq!(runs.len(), 2);

    let (r, runs) = run(
        &payload("https://www.youtube.com/playlist?list=1", "browser", "zh"),
        vec![Ok(playlist_root()), Err("x".to_string()), Ok(video_root())],
    );
    let p = r.unwrap();
    assert_eq!(p.formats.len(), 1);
    assert_eq!(
        runs,
        vec![("playlist".to_string(), false), ("video".to_string(), false), ("playlist".to_string(), true)]
    );

    let (r, _) = run(
        &payload("https://www.youtube.com/playlist?list=1", "browser", "zh"),
        vec![Ok(playlist_root()), Err("x".to_string()), Err("y".to_string())],
    );
    assert!(r.unwrap().formats.is_empty());
}

#[test]
fn states_only_move_forward() {
    let p = payload("https://youtube.com/watch?v=1", "file", "en");
    let (state, _) = parse_url_blocking(&p);
    let state = state.unwrap();
    assert_eq!(state_link(&state), "https://youtube.com/watch?v=1");
    let (next, _) = parse_url_next(state, Err(String::new()), &p);
    assert_eq!(next.as_ref().map(state_link), Some("https://youtube.com/watch?v=1"));
    assert!(matches!(next, Some(ParseState::PrimaryWithoutAuth { .. })));
}

#[test]
fn run_failures() {
    let p = payload("https://youtube.com/watch?v=1", "browser", "en");
    assert_eq!(
        parse_failure_message(ParseRunFailure::SpawnFailed("not found".to_string()), &p, "https://youtube.com/watch?v=1", None),
        "Failed to start yt-dlp: not found"
    );
    assert_eq!(
        parse_failure_message(
            ParseRunFailure::Exited { stderr: b"\nERROR: Requested format is not available\n".to_vec(), stdout: Vec::new() },
            &p,
            "https://youtube.com/watch?v=1",
            Some("node"),
        ),
        "Browser-cookie parsing triggered a YouTube login challenge, but only Node.js was detected on this machine and no downloadable formats could be resolved. Install Deno or Bun so the app can prefer it automatically, or retry without cookies / with a cookie file."
    );
    assert_eq!(
        parse_failure_message(
            ParseRunFailure::Exited { stderr: Vec::new(), stdout: Vec::new() },
            &p,
            "https://youtube.com/watch?v=1",
            None,
        ),
        "yt-dlp 执行失败，但没有返回可读错误"
    );
    let zh = payload("u", "none", "zh");
    assert_eq!(
        parse_failure_message(ParseRunFailure::InvalidText("bad utf-8".to_string()), &zh, "u", None),
        "yt-dlp 返回了无效 JSON：bad utf-8"
    );
    assert_eq!(
        parse_failure_message(ParseRunFailure::InvalidText("bad utf-8".to_string()), &p, "u", None),
        "yt-dlp returned invalid JSON: bad utf-8"
    );
    assert_eq!(
        parse_failure_message(ParseRunFailure::InvalidJson("EOF".to_string()), &zh, "u", None),
        "解析 yt-dlp JSON 失败：EOF"
    );
    assert_eq!(
        parse_failure_message(ParseRunFailure::InvalidJson("EOF".to_string()), &p, "u", None),
        "Failed to parse yt-dlp JSON: EOF"
    );
    assert_eq!(
        parse_failure_message(ParseRunFailure::SpawnFailed("x".to_string()), &zh, "u", None),
        "无法启动 yt-dlp：x"
    );
    assert_eq!(parse_wait_error("en", "panicked"), "Failed to wait for the parsing task: panicked");
    assert_eq!(parse_wait_error("zh", "panicked"), "等待解析任务结束失败：panicked");
}

#[test]
fn english_interface_also_retries_without_cookies() {
    let p = payload("https://youtube.com/watch?v=1", "browser", "en");
    let (state, _) = parse_url_blocking(&p);
    let explained = ytdownloader::retry::normalize_parse_error(
        "ERROR: Sign in to confirm you’re not a bot".to_string(),
        "browser",
        "https://youtube.com/watch?v=1",
        "en",
        None,
    );
    let (next, action) = parse_url_next(state.unwrap(), Err(explained), &p);
    assert!(matches!(next, Some(ParseState::PrimaryWithoutAuth { .. })));
    assert!(matches!(action, ParseAction::Run { without_auth: true, .. }));
}
