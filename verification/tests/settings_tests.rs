use ytdownloader::settings::{
    default_settings, expand_home_path, is_english, message_unfinished_after_restart,
    normalize_output_dir, recommended_output_dir, sanitize_language, sanitize_settings, AppSettings,
};

fn settings(
    output_dir: &str,
    mode: &str,
    scope: &str,
    auth: &str,
    browser: &str,
    cookie: &str,
    language: &str,
) -> AppSettings {
    AppSettings {
        output_dir: output_dir.to_string(),
        default_download_mode: mode.to_string(),
        default_playlist_scope: scope.to_string(),
        default_auth_mode: auth.to_string(),
        default_browser: browser.to_string(),
        default_cookie_file: cookie.to_string(),
        language: language.to_string(),
    }
}

#[test]
fn language_is_english_or_chinese() {
    assert_eq!(sanitize_language("en"), "en-US");
    assert_eq!(sanitize_language(" EN-us "), "en-US");
    assert_eq!(sanitize_language("English"), "en-US");
    assert_eq!(sanitize_language("en-GB"), "zh-CN");
    assert_eq!(sanitize_language(""), "zh-CN");
    assert_eq!(sanitize_language("zh-CN"), "zh-CN");
    assert!(is_english("en-US"));
    assert!(!is_english("fr"));
}

#[test]
fn recommended_dir_under_home() {
    assert_eq!(recommended_output_dir(Some("/home/ann")), "/home/ann/Downloads/拾流下载器");
    assert_eq!(recommended_output_dir(None), "./Downloads/拾流下载器");
}

#[test]
fn home_expansion() {
    assert_eq!(expand_home_path("~", Some("/home/ann")), "/home/ann");
    assert_eq!(expand_home_path("~", None), ".");
    assert_eq!(expand_home_path("~/Movies", Some("/home/ann")), "/home/ann/Movies");
    assert_eq!(expand_home_path("~/Movies", None), "~/Movies");
    assert_eq!(expand_home_path("~other", Some("/home/ann")), "~other");
    assert_eq!(expand_home_path("/abs/path", Some("/home/ann")), "/abs/path");
}

#[test]
fn output_dir_normalization() {
    assert_eq!(normalize_output_dir("  ", Some("/h")), "/h/Downloads/拾流下载器");
    assert_eq!(normalize_output_dir(" ~/Videos ", Some("/h")), "/h/Videos");
    assert_eq!(normalize_output_dir(" /data ", Some("/h")), "/data");
}

#[test]
fn defaults() {
    let d = default_settings(Some("/home/ann"));
    assert_eq!(d.output_dir, "/home/ann/Downloads/拾流下载器");
    assert_eq!(d.default_download_mode, "video");
    assert_eq!(d.default_playlist_scope, "video");
    assert_eq!(d.default_auth_mode, "none");
    assert_eq!(d.default_browser, "chrome");
    assert_eq!(d.default_cookie_file, "");
    assert_eq!(d.language, "zh-CN");
}

#[test]
fn sanitize_keeps_known_values() {
    let s = sanitize_settings(
        settings("~/dl", "video+subtitles", "playlist", "file", "vivaldi", "  ~/c.txt  ", "english"),
        Some("/home/ann"),
    );
    assert_eq!(s.output_dir, "/home/ann/dl");
    assert_eq!(s.default_download_mode, "video+subtitles");
    assert_eq!(s.default_playlist_scope, "playlist");
    assert_eq!(s.default_auth_mode, "file");
    assert_eq!(s.default_browser, "vivaldi");
    assert_eq!(s.default_cookie_file, "~/c.txt");
    assert_eq!(s.language, "en-US");
}

#[test]
fn sanitize_replaces_unknown_values() {
    let s = sanitize_settings(settings("   ", "8k", "channel", "token", "netscape", "", "de"), None);
    assert_eq!(s.output_dir, "./Downloads/拾流下载器");
    assert_eq!(s.default_download_mode, "video");
    assert_eq!(s.default_playlist_scope, "video");
    assert_eq!(s.default_auth_mode, "none");
    assert_eq!(s.default_browser, "chrome");
    assert_eq!(s.default_cookie_file, "");
    assert_eq!(s.language, "zh-CN");
}

#[test]
fn sanitize_twice_changes_nothing() {
    let inputs = [
        settings(" ~/a ", "audio", "video", "browser", "safari", " f ", "EN"),
        settings("", "x", "y", "z", "w", "", ""),
        settings("~", "subtitles", "playlist", "none", "whale", "", "en-us"),
    ];
    for input in inputs {
        let once = sanitize_settings(input, Some("/home/ann"));
        let copy = settings(
            &once.output_dir,
            &once.default_download_mode,
            &once.default_playlist_scope,
            &once.default_auth_mode,
            &once.default_browser,
            &once.default_cookie_file,
            &once.language,
        );
        let again = sanitize_settings(copy, Some("/home/ann"));
        assert_eq!(again.output_dir, once.output_dir);
        assert_eq!(again.default_download_mode, once.default_download_mode);
        assert_eq!(again.default_playlist_scope, once.default_playlist_scope);
        assert_eq!(again.default_auth_mode, once.default_auth_mode);
        assert_eq!(again.default_browser, once.default_browser);
        assert_eq!(again.default_cookie_file, once.default_cookie_file);
        assert_eq!(again.language, once.language);
    }
}

#[test]
fn restart_message_by_language() {
    assert_eq!(
        message_unfinished_after_restart("en"),
        ["The app was restarted before this ", "task finished. Incomplete tasks are not resumed automatically. Please retry manually."].join("")
    );
    assert_eq!(message_unfinished_after_restart("zh-CN"), "应用重新启动后，未完成任务不会自动恢复。请手动重试。");
}
