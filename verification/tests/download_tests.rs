use ytdownloader::args::StartDownloadRequest;
use ytdownloader::download::{
    apply_retry_notice, cancel_task_record, cleared_transfer, mark_running, with_task_message, download_attempt_result, finish_download, infer_title_from_url,
    new_task_record, next_download_step, output_dir_error, restart_task_record, signed_decimal_string, task_id,
    AttemptOutcome, DownloadAttemptResult, DownloadStage, DownloadStep, FinalStatus, TaskRecord,
};
use ytdownloader::retry::{
    command_error, command_error_from_texts, message_no_auth_fallback, message_primary_fallback, message_retry_without_auth,
    normalize_parse_error, should_retry_with_fallback, should_retry_without_auth,
};

const YT: &str = "https://www.youtube.com/watch?v=abc";
const UNAVAILABLE: &str = "ERROR: Requested format is not available. Use --list-formats";

fn task(status: &str, error: Option<&str>) -> TaskRecord {
    TaskRecord {
        id: "task-1".to_string(),
        title: "Clip".to_string(),
        status: status.to_string(),
        speed: "1.0MiB/s".to_string(),
        eta: "00:10".to_string(),
        output: "/tmp/out".to_string(),
        profile: "Video / Auto Best / No Cookies".to_string(),
        source_url: YT.to_string(),
        error: error.map(|e| e.to_string()),
    }
}

fn result(success: bool, error: Option<&str>) -> DownloadAttemptResult {
    DownloadAttemptResult { success, error: error.map(|e| e.to_string()) }
}

fn step(stage: DownloadStage, r: &DownloadAttemptResult, auth: &str, language: &str) -> Option<(DownloadStage, String, bool)> {
    match next_download_step(stage, r, YT, auth, language) {
        DownloadStep::Run { stage, notice, publish_before_reset } => Some((stage, notice, publish_before_reset)),
        DownloadStep::Finish => None,
    }
}

#[test]
fn task_ids_and_titles() {
    assert_eq!(task_id(1700000000123), "task-1700000000123");
    assert_eq!(task_id(0), "task-0");
    assert_eq!(infer_title_from_url("https://example.com/videos/clip.mp4", "en"), "clip.mp4");
    assert_eq!(infer_title_from_url("https://example.com/videos/", "en"), "New download");
    assert_eq!(infer_title_from_url("https://example.com/videos/", "zh"), "新建下载");
    assert_eq!(infer_title_from_url("no-slash", "zh"), "no-slash");
    assert_eq!(infer_title_from_url("", "en-US"), "New download");
}

#[test]
fn new_tasks_are_queued() {
    let p = StartDownloadRequest {
        url: " https://example.com/a/b ".to_string(),
        title: Some("   ".to_string()),
        mode: "audio".to_string(),
        format_id: None,
        output_dir: "~/x".to_string(),
        playlist_scope: "video".to_string(),
        auth_mode: "browser".to_string(),
        browser: Some("chrome".to_string()),
        cookie_file: None,
        language: "en".to_string(),
    };
    let t = new_task_record("task-5", &p, "https://example.com/a/b", "/home/x");
    assert_eq!(t.id, "task-5");
    assert_eq!(t.title, "b");
    assert_eq!(t.status, "queued");
    assert_eq!(t.speed, "--");
    assert_eq!(t.eta, "--");
    assert_eq!(t.output, "/home/x");
    assert_eq!(t.profile, "Audio Only / Auto Best / Browser Cookies");
    assert_eq!(t.source_url, "https://example.com/a/b");
    assert_eq!(t.error, None);

    let p2 = StartDownloadRequest { title: Some(" My Clip ".to_string()), ..p };
    let t2 = new_task_record("task-6", &p2, "https://example.com/a/b", "/home/x");
    assert_eq!(t2.title, " My Clip ");
}

#[test]
fn unfinished_tasks_fail_after_restart() {
    let t = restart_task_record(task("running", None), "en");
    assert_eq!(t.status, "failed");
    assert_eq!(
        t.error,
        Some(["The app was restarted before this ", "task finished. Incomplete tasks are not resumed automatically. Please retry manually."].join(""))
    );
    assert_eq!(t.speed, "--");
    assert_eq!(t.eta, "--");
    let q = restart_task_record(task("queued", None), "zh-CN");
    assert_eq!(q.status, "failed");
    assert_eq!(q.error, Some("应用重新启动后，未完成任务不会自动恢复。请手动重试。".to_string()));
    let d = restart_task_record(task("done", None), "en");
    assert_eq!(d.status, "done");
    assert_eq!(d.error, None);
    assert_eq!(d.speed, "1.0MiB/s");
    assert_eq!(d.eta, "00:10");
}

#[test]
fn attempt_order_with_cookies() {
    let r = result(false, Some(UNAVAILABLE));
    assert_eq!(
        step(DownloadStage::Primary, &r, "browser", "en"),
        Some((DownloadStage::Fallback, message_primary_fallback("en"), true))
    );
    let r2 = result(false, Some("ERROR: Sign in to confirm you’re not a bot"));
    assert_eq!(
        step(DownloadStage::Fallback, &r2, "browser", "en"),
        Some((DownloadStage::NoAuthPrimary, message_retry_without_auth("en"), false))
    );
    assert_eq!(
        step(DownloadStage::NoAuthPrimary, &r, "browser", "zh"),
        Some((DownloadStage::NoAuthFallback, message_no_auth_fallback("zh"), false))
    );
    assert_eq!(step(DownloadStage::NoAuthFallback, &r, "browser", "zh"), None);
    assert_eq!(step(DownloadStage::NoAuthPrimary, &r2, "browser", "en"), None);
}

#[test]
fn attempt_order_without_cookies() {
    let r = result(false, Some(UNAVAILABLE));
    assert_eq!(
        step(DownloadStage::Primary, &r, "none", "zh"),
        Some((DownloadStage::Fallback, message_primary_fallback("zh"), true))
    );
    assert_eq!(step(DownloadStage::Fallback, &r, "none", "zh"), None);
    let other = result(false, Some("ERROR: HTTP Error 403"));
    assert_eq!(step(DownloadStage::Primary, &other, "none", "en"), None);
    assert_eq!(step(DownloadStage::Primary, &other, "browser", "en"), None);
}

#[test]
fn successful_cookie_download_on_youtube_is_run_again_without_cookies() {
    let ok = result(true, None);
    assert_eq!(
        step(DownloadStage::Primary, &ok, "browser", "en"),
        Some((DownloadStage::NoAuthPrimary, message_retry_without_auth("en"), false))
    );
    assert_eq!(step(DownloadStage::Primary, &ok, "none", "en"), None);
    assert_eq!(step(DownloadStage::NoAuthPrimary, &ok, "browser", "en"), None);
}

#[test]
fn retry_decisions() {
    assert!(should_retry_with_fallback(&Some("x Requested format is not available y".to_string())));
    assert!(should_retry_with_fallback(&Some("requested format not available".to_string())));
    assert!(!should_retry_with_fallback(&Some("format missing".to_string())));
    assert!(!should_retry_with_fallback(&None));

    assert!(should_retry_without_auth(YT, "browser", ""));
    assert!(should_retry_without_auth(YT, "file", "当前已启用浏览器 Cookie，blah"));
    assert!(should_retry_without_auth(YT, "file", "当前浏览器 Cookie 解析触发了 YouTube 登录挑战"));
    assert!(should_retry_without_auth(YT, "file", "当前链接需要登录态或浏览器 Cookie。"));
    assert!(!should_retry_without_auth(YT, "none", ""));
    assert!(!should_retry_without_auth("https://vimeo.com/1", "browser", ""));
    assert!(!should_retry_without_auth(YT, "browser", "HTTP Error 404"));
}

#[test]
fn parse_errors_are_explained() {
    let bot = "ERROR: [youtube] x: Sign in to confirm you’re not a bot".to_string();
    assert_eq!(
        normalize_parse_error(bot.clone(), "none", YT, "en", None),
        "This link requires a signed-in session or browser cookies. Switch to Browser Cookies or import a cookie file and try again."
    );
    assert_eq!(
        normalize_parse_error(bot, "browser", YT, "zh", Some("deno")),
        "当前链接需要登录态或浏览器 Cookie。请切换到“从浏览器读取”或导入 Cookie 文件后重试。"
    );
    let unavailable = UNAVAILABLE.to_string();
    assert_eq!(
        normalize_parse_error(unavailable.clone(), "browser", "https://vimeo.com/1", "en", Some("node")),
        "Browser-cookie parsing triggered a YouTube login challenge, but only Node.js was detected on this machine and no downloadable formats could be resolved. Install Deno or Bun so the app can prefer it automatically, or retry without cookies / with a cookie file."
    );
    assert_eq!(
        normalize_parse_error(unavailable.clone(), "browser", YT, "en", Some("deno")),
        "Browser cookies are enabled and yt-dlp EJS remote components were also attempted, but the YouTube login challenge still did not resolve into downloadable formats. This is more likely a yt-dlp challenge compatibility issue for this link than a GUI parameter problem."
    );
    assert_eq!(
        normalize_parse_error(unavailable.clone(), "file", YT, "zh-CN", None),
        "当前已启用浏览器 Cookie，并已尝试加载 yt-dlp 的 EJS 远程组件，但 YouTube 登录挑战仍未解出可下载格式。更可能是 yt-dlp 当前对这条链接的 challenge 兼容问题，而不是界面参数配置错误。"
    );
    assert_eq!(normalize_parse_error(unavailable.clone(), "none", YT, "en", Some("node")), unavailable);
    assert_eq!(normalize_parse_error(unavailable.clone(), "browser", "https://vimeo.com/1", "en", None), unavailable);
}

#[test]
fn explained_errors_still_lead_to_a_retry_without_cookies() {
    let explained = normalize_parse_error(UNAVAILABLE.to_string(), "browser", YT, "zh", Some("node"));
    assert!(should_retry_without_auth(YT, "browser", &explained));
    let explained = normalize_parse_error("Sign in to confirm you’re not a bot".to_string(), "browser", YT, "zh", None);
    assert!(should_retry_without_auth(YT, "browser", &explained));
}

#[test]
fn command_errors() {
    assert_eq!(command_error(b"\n  ERROR: bad  \nmore", b"out"), "ERROR: bad");
    assert_eq!(command_error(b"  \n", b"\nfrom stdout\n"), "from stdout");
    assert_eq!(command_error(b"", b""), "yt-dlp 执行失败，但没有返回可读错误");
}

#[test]
fn retry_messages() {
    assert_eq!(message_primary_fallback("en"), "The selected format is unavailable. Retrying with a compatible fallback format.");
    assert_eq!(message_primary_fallback("zh"), "首选格式不可用，正在自动回退到兼容格式重新尝试。");
    assert_eq!(message_retry_without_auth("en-us"), "Browser-cookie download failed. Retrying without cookies.");
    assert_eq!(message_retry_without_auth(""), "浏览器 Cookie 下载失败，正在自动回退到无 Cookie 重试。");
    assert_eq!(
        message_no_auth_fallback("English"),
        "The preferred no-cookie format is unavailable. Retrying with a compatible fallback format."
    );
    assert_eq!(message_no_auth_fallback("zh"), "无 Cookie 首选格式不可用，正在自动回退到兼容格式重新尝试。");
}

#[test]
fn attempt_results() {
    let r = download_attempt_result(AttemptOutcome::SpawnFailed("No such file".to_string()), None);
    assert!(!r.success);
    assert_eq!(r.error, Some("无法启动下载任务：No such file".to_string()));

    let r = download_attempt_result(AttemptOutcome::Exited { success: true, code: Some(0) }, Some("old".to_string()));
    assert!(r.success);
    assert_eq!(r.error, None);

    let r = download_attempt_result(AttemptOutcome::Exited { success: false, code: Some(2) }, None);
    assert_eq!(r.error, Some("yt-dlp 退出码异常：2".to_string()));
    let r = download_attempt_result(AttemptOutcome::Exited { success: false, code: None }, None);
    assert_eq!(r.error, Some("yt-dlp 退出码异常：-1".to_string()));
    let r = download_attempt_result(AttemptOutcome::Exited { success: false, code: Some(1) }, Some("bad url".to_string()));
    assert!(!r.success);
    assert_eq!(r.error, Some("bad url".to_string()));

    let r = download_attempt_result(AttemptOutcome::WaitFailed("interrupted".to_string()), None);
    assert_eq!(r.error, Some("等待下载进程结束失败：interrupted".to_string()));
}

#[test]
fn signed_decimals() {
    for n in [0, 7, -1, 255, -128, i32::MAX, i32::MIN] {
        assert_eq!(signed_decimal_string(n), n.to_string());
    }
}

#[test]
fn output_dir_errors() {
    assert_eq!(output_dir_error("en", "/x", "denied"), "Failed to create output directory `/x`: denied");
    assert_eq!(output_dir_error("zh", "/x", "denied"), "无法创建下载目录 `/x`：denied");
}

#[test]
fn final_states() {
    let (t, s) = finish_download(task("running", Some("notice")), true, result(true, None));
    assert_eq!(s, FinalStatus::Cancelled);
    assert_eq!(t.status, "cancelled");
    assert_eq!(t.error, None);
    assert_eq!((t.speed.as_str(), t.eta.as_str()), ("--", "--"));

    let (t, s) = finish_download(task("running", Some("notice")), false, result(true, None));
    assert_eq!(s, FinalStatus::Done);
    assert_eq!(t.status, "done");
    assert_eq!(t.error, None);
    assert_eq!((t.speed.as_str(), t.eta.as_str()), ("--", "00:00"));

    let (t, s) = finish_download(task("running", Some("notice")), false, result(false, Some("boom")));
    assert_eq!(s, FinalStatus::Failed);
    assert_eq!(t.status, "failed");
    assert_eq!(t.error, Some("notice".to_string()));
    assert_eq!(t.speed, "1.0MiB/s");

    let (t, _) = finish_download(task("running", None), false, result(false, Some("boom")));
    assert_eq!(t.error, Some("boom".to_string()));
    assert_eq!(t.id, "task-1");
    assert_eq!(t.title, "Clip");
}

#[test]
fn notices_and_cancellation() {
    let t = apply_retry_notice(task("running", None), "retrying".to_string());
    assert_eq!(t.error, Some("retrying".to_string()));
    assert_eq!((t.speed.as_str(), t.eta.as_str()), ("--", "--"));
    assert_eq!(t.status, "running");

    let c = cancel_task_record(task("running", Some("x")));
    assert_eq!(c.status, "cancelled");
    assert_eq!(c.error, None);
    assert_eq!(c.speed, "1.0MiB/s");
}

#[test]
fn task_field_updates() {
    let r = mark_running(task("queued", Some("m")));
    assert_eq!(r.status, "running");
    assert_eq!(r.error, Some("m".to_string()));
    assert_eq!(r.speed, "1.0MiB/s");

    let m = with_task_message(task("running", None), "notice".to_string());
    assert_eq!(m.error, Some("notice".to_string()));
    assert_eq!((m.speed.as_str(), m.eta.as_str()), ("1.0MiB/s", "00:10"));

    let c = cleared_transfer(m);
    assert_eq!((c.speed.as_str(), c.eta.as_str()), ("--", "--"));
    assert_eq!(c.error, Some("notice".to_string()));
    assert_eq!(c.status, "running");
}

#[test]
fn command_errors_from_texts() {
    assert_eq!(command_error_from_texts("\n E1 \n", "O"), "E1");
    assert_eq!(command_error_from_texts(" ", " O1\n"), "O1");
    assert_eq!(command_error_from_texts("", ""), "yt-dlp 执行失败，但没有返回可读错误");
}

#[test]
fn retry_without_cookies_does_not_depend_on_language() {
    let errors = [
        "ERROR: Sign in to confirm you’re not a bot",
        UNAVAILABLE,
        "ERROR: HTTP Error 403",
        "",
    ];
    for e in errors {
        for (url, auth, runtime) in [
            (YT, "browser", Some("node")),
            (YT, "file", None),
            (YT, "none", Some("deno")),
            ("https://vimeo.com/1", "browser", Some("node")),
        ] {
            let en = normalize_parse_error(e.to_string(), auth, url, "en-US", runtime);
            let zh = normalize_parse_error(e.to_string(), auth, url, "zh-CN", runtime);
            assert_eq!(should_retry_without_auth(url, auth, &en), should_retry_without_auth(url, auth, &zh), "{:?}", e);
            if should_retry_without_auth(url, auth, e) {
                assert!(should_retry_without_auth(url, auth, &en));
            }
        }
    }
    let explained = normalize_parse_error("Sign in to confirm you’re not a bot".to_string(), "browser", YT, "en", None);
    assert!(should_retry_without_auth(YT, "browser", &explained));
}
