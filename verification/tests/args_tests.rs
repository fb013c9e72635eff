use ytdownloader::args::{
    apply_auth_args, apply_js_runtime_args, apply_playlist_scope_args, apply_remote_component_args,
    apply_runtime_support_args, base_download_args, build_download_args, build_fallback_download_args,
    build_profile_label, copy_request, is_youtube_url, names_youtube_host, parse_request_args, selected_or_default_format,
    without_auth_download_payload, without_auth_parse_payload, ParseUrlRequest, StartDownloadRequest,
};

const BEST: &str = "bv*+bestaudio[acodec^=mp4a]/bestaudio[ext=m4a]/bestaudio/best";

fn strings(items: &[&str]) -> Vec<String> {
    items.iter().map(|s| s.to_string()).collect()
}

fn request(mode: &str, format_id: Option<&str>, auth: &str, browser: Option<&str>, cookie: Option<&str>) -> StartDownloadRequest {
    StartDownloadRequest {
        url: "https://www.youtube.com/watch?v=abc".to_string(),
        title: Some("Clip".to_string()),
        mode: mode.to_string(),
        format_id: format_id.map(|s| s.to_string()),
        output_dir: "/tmp/out".to_string(),
        playlist_scope: "video".to_string(),
        auth_mode: auth.to_string(),
        browser: browser.map(|s| s.to_string()),
        cookie_file: cookie.map(|s| s.to_string()),
        language: "en".to_string(),
    }
}

fn base(url: &str, runtime: Option<&str>) -> Vec<String> {
    base_download_args("/tmp/out", url, runtime)
}

#[test]
fn youtube_links_are_recognised_in_any_case() {
    assert!(is_youtube_url("https://www.youtube.com/watch?v=1"));
    assert!(is_youtube_url("HTTPS://WWW.YOUTUBE.COM/watch?v=1"));
    assert!(is_youtube_url("https://YouTu.Be/xyz"));
    assert!(!is_youtube_url("https://youtube.com"));
    assert!(!is_youtube_url("https://vimeo.com/1"));
}

#[test]
fn browser_auth() {
    let mut args = strings(&["x"]);
    assert_eq!(apply_auth_args(&mut args, "browser", Some("  firefox "), None, "en", None), Ok(()));
    assert_eq!(args, strings(&["x", "--cookies-from-browser", "firefox"]));

    let mut args = Vec::new();
    assert_eq!(
        apply_auth_args(&mut args, "browser", Some("   "), None, "en", None),
        Err("Browser-cookie authentication was selected, but no browser was chosen".to_string())
    );
    assert!(args.is_empty());
    assert_eq!(
        apply_auth_args(&mut args, "browser", None, None, "zh-CN", None),
        Err("认证模式为浏览器 Cookie，但没有选择浏览器".to_string())
    );
}

#[test]
fn cookie_file_auth() {
    let mut args = Vec::new();
    assert_eq!(apply_auth_args(&mut args, "file", None, Some(" ~/cookies.txt "), "en", Some("/home/ann")), Ok(()));
    assert_eq!(args, strings(&["--cookies", "/home/ann/cookies.txt"]));

    let mut args = Vec::new();
    assert_eq!(apply_auth_args(&mut args, "file", None, Some("~/c.txt"), "en", None), Ok(()));
    assert_eq!(args, strings(&["--cookies", "~/c.txt"]));

    let mut args = Vec::new();
    assert_eq!(
        apply_auth_args(&mut args, "file", None, Some(""), "en", None),
        Err("Cookie-file authentication was selected, but no file path was provided".to_string())
    );
    assert_eq!(
        apply_auth_args(&mut args, "file", Some("chrome"), None, "zh", None),
        Err("认证模式为 Cookie 文件，但没有填写文件路径".to_string())
    );
    assert!(args.is_empty());
}

#[test]
fn no_auth_adds_nothing() {
    let mut args = strings(&["a"]);
    assert_eq!(apply_auth_args(&mut args, "none", Some("chrome"), Some("f"), "en", None), Ok(()));
    assert_eq!(apply_auth_args(&mut args, "token", None, None, "en", None), Ok(()));
    assert_eq!(args, strings(&["a"]));
}

#[test]
fn playlist_scope_and_runtime() {
    let mut args = Vec::new();
    apply_playlist_scope_args(&mut args, "video");
    apply_playlist_scope_args(&mut args, "playlist");
    assert_eq!(args, strings(&["--no-playlist"]));

    let mut args = Vec::new();
    apply_js_runtime_args(&mut args, Some("deno"));
    apply_js_runtime_args(&mut args, None);
    assert_eq!(args, strings(&["--js-runtimes", "deno"]));

    let mut args = Vec::new();
    apply_remote_component_args(&mut args, "https://youtu.be/x");
    apply_remote_component_args(&mut args, "https://example.com/x");
    assert_eq!(args, strings(&["--remote-components", "ejs:github"]));

    let mut args = Vec::new();
    apply_runtime_support_args(&mut args, "https://youtu.be/x", Some("bun"));
    assert_eq!(args, strings(&["--js-runtimes", "bun", "--remote-components", "ejs:github"]));
}

#[test]
fn base_arguments() {
    assert_eq!(
        base("https://example.com/v", None),
        strings(&["--newline", "-P", "/tmp/out", "-o", "%(title)s [%(id)s].%(ext)s", "--progress", "--no-warnings"])
    );
    assert_eq!(
        base("https://youtube.com/watch?v=1", Some("node")),
        strings(&[
            "--newline", "-P", "/tmp/out", "-o", "%(title)s [%(id)s].%(ext)s", "--progress", "--no-warnings",
            "--js-runtimes", "node", "--remote-components", "ejs:github",
        ])
    );
    assert_eq!(selected_or_default_format(Some("137"), "best"), strings(&["-f", "137"]));
    assert_eq!(selected_or_default_format(None, "best"), strings(&["-f", "best"]));
}

#[test]
fn primary_arguments_per_mode() {
    let url = "https://example.com/v";
    let mut expected = base(url, None);
    expected.extend(strings(&["--no-playlist", "-f", BEST]));
    assert_eq!(build_download_args(&request("video", None, "none", None, None), "/tmp/out", url, None, None), Ok(expected));

    let mut expected = base(url, None);
    expected.extend(strings(&["--no-playlist", "-f", "140", "--extract-audio", "--audio-format", "mp3", "--audio-quality", "0"]));
    assert_eq!(build_download_args(&request("audio", Some("140"), "none", None, None), "/tmp/out", url, None, None), Ok(expected));

    let mut expected = base(url, None);
    expected.extend(strings(&["--no-playlist", "-f", "bestaudio/best", "--extract-audio", "--audio-format", "mp3", "--audio-quality", "0"]));
    assert_eq!(build_download_args(&request("audio", None, "none", None, None), "/tmp/out", url, None, None), Ok(expected));

    let mut expected = base(url, None);
    expected.extend(strings(&[
        "--no-playlist", "--skip-download", "--write-subs", "--write-auto-subs", "--sub-langs", "all", "--convert-subs", "srt",
    ]));
    assert_eq!(build_download_args(&request("subtitles", Some("22"), "none", None, None), "/tmp/out", url, None, None), Ok(expected));

    let mut expected = base(url, None);
    expected.extend(strings(&[
        "--cookies-from-browser", "chrome", "--no-playlist", "-f", "22", "--write-subs", "--write-auto-subs", "--sub-langs", "all",
        "--embed-subs",
    ]));
    assert_eq!(
        build_download_args(&request("video+subtitles", Some("22"), "browser", Some("chrome"), None), "/tmp/out", url, None, None),
        Ok(expected)
    );
}

#[test]
fn fallback_arguments_per_mode() {
    let url = "https://example.com/v";
    let mut expected = base(url, None);
    expected.extend(strings(&["--no-playlist", "-f", BEST]));
    assert_eq!(build_fallback_download_args(&request("video", Some("137"), "none", None, None), "/tmp/out", url, None, None), Ok(expected));

    let mut expected = base(url, None);
    expected.extend(strings(&["--no-playlist", "-f", "bestaudio/best", "--extract-audio", "--audio-format", "mp3", "--audio-quality", "0"]));
    assert_eq!(build_fallback_download_args(&request("audio", Some("140"), "none", None, None), "/tmp/out", url, None, None), Ok(expected));

    let mut expected = base(url, None);
    expected.extend(strings(&["--no-playlist", "-f", BEST, "--write-subs", "--write-auto-subs", "--sub-langs", "all"]));
    assert_eq!(
        build_fallback_download_args(&request("video+subtitles", Some("1"), "none", None, None), "/tmp/out", url, None, None),
        Ok(expected)
    );
}

#[test]
fn arguments_fail_on_missing_credentials() {
    let url = "https://example.com/v";
    assert_eq!(
        build_download_args(&request("video", None, "browser", None, None), "/tmp/out", url, None, None),
        Err("Browser-cookie authentication was selected, but no browser was chosen".to_string())
    );
    assert_eq!(
        build_fallback_download_args(&request("video", None, "file", None, None), "/tmp/out", url, None, None),
        Err("Cookie-file authentication was selected, but no file path was provided".to_string())
    );
}

#[test]
fn parse_arguments() {
    let payload = ParseUrlRequest {
        url: " https://youtu.be/x ".to_string(),
        playlist_scope: "playlist".to_string(),
        auth_mode: "browser".to_string(),
        browser: Some("edge".to_string()),
        cookie_file: None,
        language: "en".to_string(),
    };
    assert_eq!(
        parse_request_args("https://youtu.be/x", "video", &payload, Some("deno"), None),
        Ok(strings(&[
            "--dump-single-json", "--skip-download", "--no-warnings", "--playlist-end", "8", "--js-runtimes", "deno",
            "--remote-components", "ejs:github", "--no-playlist", "--cookies-from-browser", "edge",
        ]))
    );
    assert_eq!(
        parse_request_args("https://example.com/x", "playlist", &payload, None, None),
        Ok(strings(&[
            "--dump-single-json", "--skip-download", "--no-warnings", "--playlist-end", "8", "--cookies-from-browser", "edge",
        ]))
    );
}

#[test]
fn profile_labels() {
    assert_eq!(build_profile_label("audio", None, "browser", "en"), "Audio Only / Auto Best / Browser Cookies");
    assert_eq!(build_profile_label("video", Some("137"), "file", "en-US"), "Video / 137 / Cookie File");
    assert_eq!(build_profile_label("subtitles", None, "none", "en"), "Subtitles Only / Auto Best / No Cookies");
    assert_eq!(build_profile_label("video+subtitles", Some("22"), "x", "en"), "Video + Subtitles / 22 / No Cookies");
    assert_eq!(build_profile_label("weird", None, "browser", "zh-CN"), "视频 / 自动最佳 / 浏览器 Cookie");
    assert_eq!(build_profile_label("audio", Some("140"), "file", "zh"), "仅音频 / 140 / Cookie 文件");
    assert_eq!(build_profile_label("subtitles", None, "none", "zh"), "仅字幕 / 自动最佳 / 无 Cookie");
    assert_eq!(build_profile_label("video+subtitles", None, "none", ""), "视频 + 字幕 / 自动最佳 / 无 Cookie");
}

#[test]
fn without_auth_payloads() {
    let p = request("audio", Some("140"), "browser", Some("chrome"), Some("c.txt"));
    let q = without_auth_download_payload(&p);
    assert_eq!(q.auth_mode, "none");
    assert_eq!(q.browser, None);
    assert_eq!(q.cookie_file, None);
    assert_eq!(q.url, p.url);
    assert_eq!(q.title, p.title);
    assert_eq!(q.mode, p.mode);
    assert_eq!(q.format_id, p.format_id);
    assert_eq!(q.output_dir, p.output_dir);
    assert_eq!(q.playlist_scope, p.playlist_scope);
    assert_eq!(q.language, p.language);

    let c = copy_request(&p);
    assert_eq!(c.auth_mode, "browser");
    assert_eq!(c.browser, Some("chrome".to_string()));
    assert_eq!(c.cookie_file, Some("c.txt".to_string()));

    let parse = ParseUrlRequest {
        url: "u".to_string(),
        playlist_scope: "video".to_string(),
        auth_mode: "file".to_string(),
        browser: None,
        cookie_file: Some("c".to_string()),
        language: "zh".to_string(),
    };
    let r = without_auth_parse_payload(&parse);
    assert_eq!(r.auth_mode, "none");
    assert_eq!(r.cookie_file, None);
    assert_eq!(r.browser, None);
    assert_eq!(r.url, "u");
    assert_eq!(r.playlist_scope, "video");
    assert_eq!(r.language, "zh");
}

#[test]
fn without_auth_arguments_always_build() {
    let url = "https://youtube.com/watch?v=1";
    let p = request("video+subtitles", None, "file", None, None);
    assert!(build_download_args(&p, "/tmp/out", url, None, None).is_err());
    let q = without_auth_download_payload(&p);
    assert!(build_download_args(&q, "/tmp/out", url, None, None).is_ok());
    assert!(build_fallback_download_args(&q, "/tmp/out", url, None, None).is_ok());
}

#[test]
fn youtube_hosts_in_lowercased_links() {
    assert!(names_youtube_host("https://www.youtube.com/watch?v=1"));
    assert!(names_youtube_host("youtu.be/abc"));
    assert!(!names_youtube_host("https://WWW.YOUTUBE.COM/watch"));
    assert!(!names_youtube_host("youtube.com"));
}
