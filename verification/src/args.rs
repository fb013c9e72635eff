//! The requests the user interface sends, and the yt-dlp command lines built
//! from them: authentication, playlist scope, JavaScript runtime, output
//! template and the format selection of each download mode.
use vstd::prelude::*;
use crate::settings::{english_spec, expanded_home, expand_home_path, home_view, is_english};
use crate::text::{concat, has_text, is_blank, str_contains, str_equal, to_lowercase, trim, trimmed, unicode_lowercase, views};

verus! {

/// A request to inspect a link before downloading.
#[derive(Debug)]
pub struct ParseUrlRequest {
    pub url: String,
    pub playlist_scope: String,
    pub auth_mode: String,
    pub browser: Option<String>,
    pub cookie_file: Option<String>,
    pub language: String,
}

/// A request to download a link.
#[derive(Debug)]
pub struct StartDownloadRequest {
    pub url: String,
    pub title: Option<String>,
    pub mode: String,
    pub format_id: Option<String>,
    pub output_dir: String,
    pub playlist_scope: String,
    pub auth_mode: String,
    pub browser: Option<String>,
    pub cookie_file: Option<String>,
    pub language: String,
}

// ---------------------------------------------------------------------------
// Specifications
// ---------------------------------------------------------------------------

/// The text of an optional string.
pub open spec fn opt_text(o: Option<String>) -> Option<Seq<char>> {
    match o {
        Some(s) => Some(s@),
        None => None,
    }
}

/// The text of an optional string slice.
pub open spec fn opt_str(o: Option<&str>) -> Option<Seq<char>> {
    match o {
        Some(s) => Some(s@),
        None => None,
    }
}

/// The link points at YouTube: its lowercase form holds `youtube.com/` or `youtu.be/`.
pub open spec fn is_youtube(url: Seq<char>) -> bool {
    youtube_host(unicode_lowercase(url))
}

/// A lowercased link names YouTube's hosts.
pub open spec fn youtube_host(lowercased: Seq<char>) -> bool {
    has_text(lowercased, "youtube.com/"@) || has_text(lowercased, "youtu.be/"@)
}

/// The format selector used when the user picked none.
pub open spec fn best_video_selector() -> Seq<char> {
    "bv*+bestaudio[acodec^=mp4a]/bestaudio[ext=m4a]/bestaudio/best"@
}

/// The cookie arguments for an authentication mode; `None` when the mode
/// needs a browser or a file that was not given.
pub open spec fn auth_args(
    auth_mode: Seq<char>,
    browser: Option<Seq<char>>,
    cookie_file: Option<Seq<char>>,
    home: Option<Seq<char>>,
) -> Option<Seq<Seq<char>>> {
    if auth_mode == "browser"@ {
        match browser {
            Some(b) => if is_blank(b) {
                None
            } else {
                Some(seq!["--cookies-from-browser"@, trimmed(b)])
            },
            None => None,
        }
    } else if auth_mode == "file"@ {
        match cookie_file {
            Some(f) => if is_blank(f) || expanded_home(trimmed(f), home).len() == 0 {
                None
            } else {
                Some(seq!["--cookies"@, expanded_home(trimmed(f), home)])
            },
            None => None,
        }
    } else {
        Some(Seq::empty())
    }
}

/// The message for a missing browser or cookie file.
pub open spec fn auth_error(auth_mode: Seq<char>, language: Seq<char>) -> Seq<char> {
    if auth_mode == "browser"@ {
        if english_spec(language) {
            "Browser-cookie authentication was selected, but no browser was chosen"@
        } else {
            "认证模式为浏览器 Cookie，但没有选择浏览器"@
        }
    } else if english_spec(language) {
        "Cookie-file authentication was selected, but no file path was provided"@
    } else {
        "认证模式为 Cookie 文件，但没有填写文件路径"@
    }
}

/// `--no-playlist` for the single-video scope.
pub open spec fn playlist_scope_args(scope: Seq<char>) -> Seq<Seq<char>> {
    if scope == "video"@ {
        seq!["--no-playlist"@]
    } else {
        Seq::empty()
    }
}

/// The JavaScript runtime yt-dlp is told to use, when one was found.
pub open spec fn js_runtime_args(runtime: Option<Seq<char>>) -> Seq<Seq<char>> {
    match runtime {
        Some(r) => seq!["--js-runtimes"@, r],
        None => Seq::empty(),
    }
}

/// The remote challenge solver, for YouTube links.
pub open spec fn remote_component_args(url: Seq<char>) -> Seq<Seq<char>> {
    if is_youtube(url) {
        seq!["--remote-components"@, "ejs:github"@]
    } else {
        Seq::empty()
    }
}

/// Runtime and remote-component arguments.
pub open spec fn runtime_support_args(url: Seq<char>, runtime: Option<Seq<char>>) -> Seq<Seq<char>> {
    js_runtime_args(runtime) + remote_component_args(url)
}

/// The arguments every download starts with.
pub open spec fn base_args(output_dir: Seq<char>, url: Seq<char>, runtime: Option<Seq<char>>) -> Seq<Seq<char>> {
    seq![
        "--newline"@,
        "-P"@,
        output_dir,
        "-o"@,
        "%(title)s [%(id)s].%(ext)s"@,
        "--progress"@,
        "--no-warnings"@,
    ] + runtime_support_args(url, runtime)
}

/// The chosen format, or `fallback` when none was chosen.
pub open spec fn chosen_or(selected: Option<Seq<char>>, fallback: Seq<char>) -> Seq<char> {
    match selected {
        Some(s) => s,
        None => fallback,
    }
}

/// The subtitle arguments of the subtitles-only mode.
pub open spec fn subtitle_only_args() -> Seq<Seq<char>> {
    seq![
        "--skip-download"@,
        "--write-subs"@,
        "--write-auto-subs"@,
        "--sub-langs"@,
        "all"@,
        "--convert-subs"@,
        "srt"@,
    ]
}

/// The audio extraction arguments for a format selector.
pub open spec fn audio_args(selector: Seq<char>) -> Seq<Seq<char>> {
    seq![
        "-f"@,
        selector,
        "--extract-audio"@,
        "--audio-format"@,
        "mp3"@,
        "--audio-quality"@,
        "0"@,
    ]
}

/// The mode arguments of a first download attempt.
pub open spec fn primary_mode_args(mode: Seq<char>, format_id: Option<Seq<char>>) -> Seq<Seq<char>> {
    if mode == "audio"@ {
        audio_args(chosen_or(format_id, "bestaudio/best"@))
    } else if mode == "subtitles"@ {
        subtitle_only_args()
    } else if mode == "video+subtitles"@ {
        seq!["-f"@, chosen_or(format_id, best_video_selector())] + seq![
            "--write-subs"@,
            "--write-auto-subs"@,
            "--sub-langs"@,
            "all"@,
            "--embed-subs"@,
        ]
    } else {
        seq!["-f"@, chosen_or(format_id, best_video_selector())]
    }
}

/// The mode arguments of a retry with the default formats.
pub open spec fn fallback_mode_args(mode: Seq<char>) -> Seq<Seq<char>> {
    if mode == "audio"@ {
        audio_args("bestaudio/best"@)
    } else if mode == "subtitles"@ {
        subtitle_only_args()
    } else if mode == "video+subtitles"@ {
        seq![
            "-f"@,
            best_video_selector(),
            "--write-subs"@,
            "--write-auto-subs"@,
            "--sub-langs"@,
            "all"@,
        ]
    } else {
        seq!["-f"@, best_video_selector()]
    }
}

/// The authentication arguments of a download request.
pub open spec fn request_auth_args(p: StartDownloadRequest, home: Option<Seq<char>>) -> Option<Seq<Seq<char>>> {
    auth_args(p.auth_mode@, opt_text(p.browser), opt_text(p.cookie_file), home)
}

/// The command line of a first download attempt, `None` when authentication
/// is incomplete.
pub open spec fn download_args(
    p: StartDownloadRequest,
    output_dir: Seq<char>,
    url: Seq<char>,
    runtime: Option<Seq<char>>,
    home: Option<Seq<char>>,
) -> Option<Seq<Seq<char>>> {
    match request_auth_args(p, home) {
        Some(a) => Some(
            base_args(output_dir, url, runtime) + a + playlist_scope_args(p.playlist_scope@)
                + primary_mode_args(p.mode@, opt_text(p.format_id)),
        ),
        None => None,
    }
}

/// The command line of a retry with the default formats.
pub open spec fn fallback_download_args(
    p: StartDownloadRequest,
    output_dir: Seq<char>,
    url: Seq<char>,
    runtime: Option<Seq<char>>,
    home: Option<Seq<char>>,
) -> Option<Seq<Seq<char>>> {
    match request_auth_args(p, home) {
        Some(a) => Some(
            base_args(output_dir, url, runtime) + a + playlist_scope_args(p.playlist_scope@)
                + fallback_mode_args(p.mode@),
        ),
        None => None,
    }
}

/// The command line that asks yt-dlp to describe a link.
pub open spec fn parse_args(
    url: Seq<char>,
    playlist_scope: Seq<char>,
    p: ParseUrlRequest,
    runtime: Option<Seq<char>>,
    home: Option<Seq<char>>,
) -> Option<Seq<Seq<char>>> {
    match auth_args(p.auth_mode@, opt_text(p.browser), opt_text(p.cookie_file), home) {
        Some(a) => Some(
            seq![
                "--dump-single-json"@,
                "--skip-download"@,
                "--no-warnings"@,
                "--playlist-end"@,
                "8"@,
            ] + runtime_support_args(url, runtime) + playlist_scope_args(playlist_scope) + a,
        ),
        None => None,
    }
}

/// `r` holds the arguments `expected`, or the authentication error.
pub open spec fn args_result(
    r: Result<Vec<String>, String>,
    expected: Option<Seq<Seq<char>>>,
    auth_mode: Seq<char>,
    language: Seq<char>,
) -> bool {
    match expected {
        Some(e) => r matches Ok(v) && views(v@) == e,
        None => r matches Err(m) && m@ == auth_error(auth_mode, language),
    }
}

/// The label of a download mode.
pub open spec fn mode_label(mode: Seq<char>, english: bool) -> Seq<char> {
    if english {
        if mode == "audio"@ {
            "Audio Only"@
        } else if mode == "subtitles"@ {
            "Subtitles Only"@
        } else if mode == "video+subtitles"@ {
            "Video + Subtitles"@
        } else {
            "Video"@
        }
    } else if mode == "audio"@ {
        "仅音频"@
    } else if mode == "subtitles"@ {
        "仅字幕"@
    } else if mode == "video+subtitles"@ {
        "视频 + 字幕"@
    } else {
        "视频"@
    }
}

/// The label of an authentication mode.
pub open spec fn auth_label(auth_mode: Seq<char>, english: bool) -> Seq<char> {
    if english {
        if auth_mode == "browser"@ {
            "Browser Cookies"@
        } else if auth_mode == "file"@ {
            "Cookie File"@
        } else {
            "No Cookies"@
        }
    } else if auth_mode == "browser"@ {
        "浏览器 Cookie"@
    } else if auth_mode == "file"@ {
        "Cookie 文件"@
    } else {
        "无 Cookie"@
    }
}

/// The profile line shown for a task: mode, format and authentication.
pub open spec fn profile_label(
    mode: Seq<char>,
    format_id: Option<Seq<char>>,
    auth_mode: Seq<char>,
    language: Seq<char>,
) -> Seq<char> {
    let english = english_spec(language);
    let format_label = chosen_or(format_id, if english { "Auto Best"@ } else { "自动最佳"@ });
    mode_label(mode, english) + " / "@ + format_label + " / "@ + auth_label(auth_mode, english)
}

// ---------------------------------------------------------------------------
// Executable functions
// ---------------------------------------------------------------------------

proof fn lemma_views_push(s: Seq<String>, x: String)
    ensures
        views(s.push(x)) == views(s).push(x@),
{
    assert(views(s.push(x)) =~= views(s).push(x@));
}

/// Appends a copy of `s` to the arguments.
fn push_arg(args: &mut Vec<String>, s: &str)
    ensures
        views(final(args)@) == views(old(args)@).push(s@),
{
    let ghost before = args@;
    args.push(s.to_string());
    proof {
        lemma_views_push(before, args@.last());
    }
}

/// The arguments for a list of literals.
fn args_of(items: &Vec<&'static str>) -> (r: Vec<String>)
    ensures
        views(r@) == items@.map_values(|s: &str| s@),
{
    let mut r: Vec<String> = Vec::new();
    let mut i: usize = 0;
    while i < items.len()
        invariant
            i <= items.len(),
            views(r@) == items@.take(i as int).map_values(|s: &str| s@),
        decreases items.len() - i,
    {
        push_arg(&mut r, items[i]);
        assert(items@.take(i + 1).map_values(|s: &str| s@) =~= items@.take(i as int).map_values(
            |s: &str| s@,
        ).push(items@[i as int]@));
        i = i + 1;
    }
    assert(items@.take(items.len() as int) =~= items@);
    r
}

/// Appends all of `extra` to the arguments.
fn extend_args(args: &mut Vec<String>, extra: Vec<String>)
    ensures
        views(final(args)@) == views(old(args)@) + views(extra@),
{
    let mut i: usize = 0;
    let ghost start = views(args@);
    while i < extra.len()
        invariant
            i <= extra.len(),
            views(args@) == start + views(extra@).take(i as int),
        decreases extra.len() - i,
    {
        push_arg(args, extra[i].as_str());
        assert(start + views(extra@).take(i + 1) =~= (start + views(extra@).take(i as int)).push(
            extra@[i as int]@,
        ));
        i = i + 1;
    }
    assert(views(extra@).take(extra.len() as int) =~= views(extra@));
}

/// `is_youtube_url`.
pub fn is_youtube_url(url: &str) -> (r: bool)
    ensures
        r == is_youtube(url@),
{
    let lowercased = to_lowercase(url);
    names_youtube_host(lowercased.as_str())
}

/// The lowercased link names `youtube.com/` or `youtu.be/`.
pub fn names_youtube_host(lowercased: &str) -> (r: bool)
    ensures
        r == youtube_host(lowercased@),
{
    str_contains(lowercased, "youtube.com/") || str_contains(lowercased, "youtu.be/")
}

/// `apply_auth_args`: appends the cookie arguments of the authentication
/// mode, or leaves the arguments alone and reports what is missing.
pub fn apply_auth_args(
    args: &mut Vec<String>,
    auth_mode: &str,
    browser: Option<&str>,
    cookie_file: Option<&str>,
    language: &str,
    home: Option<&str>,
) -> (r: Result<(), String>)
    ensures
        match auth_args(auth_mode@, opt_str(browser), opt_str(cookie_file), home_view(home)) {
            Some(a) => r is Ok && views(final(args)@) == views(old(args)@) + a,
            None => (r matches Err(m) && m@ == auth_error(auth_mode@, language@)) && final(args)@
                == old(args)@,
        },
{
    let ghost before = views(args@);
    if str_equal(auth_mode, "browser") {
        let chosen = match browser {
            Some(b) => {
                let t = trim(b);
                if t.as_str().is_empty() {
                    None
                } else {
                    Some(t)
                }
            },
            None => None,
        };
        match chosen {
            Some(name) => {
                push_arg(args, "--cookies-from-browser");
                push_arg(args, name.as_str());
                assert(views(args@) =~= before + seq!["--cookies-from-browser"@, name@]);
                Ok(())
            },
            None => Err(
                if is_english(language) {
                    "Browser-cookie authentication was selected, but no browser was chosen".to_string()
                } else {
                    "认证模式为浏览器 Cookie，但没有选择浏览器".to_string()
                },
            ),
        }
    } else if str_equal(auth_mode, "file") {
        let chosen = match cookie_file {
            Some(f) => {
                let t = trim(f);
                if t.as_str().is_empty() {
                    None
                } else {
                    let expanded = expand_home_path(t.as_str(), home);
                    if expanded.as_str().is_empty() {
                        None
                    } else {
                        Some(expanded)
                    }
                }
            },
            None => None,
        };
        match chosen {
            Some(path) => {
                push_arg(args, "--cookies");
                push_arg(args, path.as_str());
                assert(views(args@) =~= before + seq!["--cookies"@, path@]);
                Ok(())
            },
            None => Err(
                if is_english(language) {
                    "Cookie-file authentication was selected, but no file path was provided".to_string()
                } else {
                    "认证模式为 Cookie 文件，但没有填写文件路径".to_string()
                },
            ),
        }
    } else {
        assert(views(args@) =~= before + Seq::<Seq<char>>::empty());
        Ok(())
    }
}

/// `apply_playlist_scope_args`: `--no-playlist` for the single-video scope.
pub fn apply_playlist_scope_args(args: &mut Vec<String>, playlist_scope: &str)
    ensures
        views(final(args)@) == views(old(args)@) + playlist_scope_args(playlist_scope@),
{
    let ghost before = views(args@);
    if str_equal(playlist_scope, "video") {
        push_arg(args, "--no-playlist");
        assert(views(args@) =~= before + seq!["--no-playlist"@]);
    } else {
        assert(views(args@) =~= before + Seq::<Seq<char>>::empty());
    }
}

/// `apply_js_runtime_args`: names the JavaScript runtime that was found.
pub fn apply_js_runtime_args(args: &mut Vec<String>, runtime: Option<&str>)
    ensures
        views(final(args)@) == views(old(args)@) + js_runtime_args(opt_str(runtime)),
{
    let ghost before = views(args@);
    match runtime {
        Some(r) => {
            push_arg(args, "--js-runtimes");
            push_arg(args, r);
            assert(views(args@) =~= before + seq!["--js-runtimes"@, r@]);
        },
        None => {
            assert(views(args@) =~= before + Seq::<Seq<char>>::empty());
        },
    }
}

/// `apply_remote_component_args`: the remote challenge solver for YouTube links.
pub fn apply_remote_component_args(args: &mut Vec<String>, url: &str)
    ensures
        views(final(args)@) == views(old(args)@) + remote_component_args(url@),
{
    let ghost before = views(args@);
    if is_youtube_url(url) {
        push_arg(args, "--remote-components");
        push_arg(args, "ejs:github");
        assert(views(args@) =~= before + seq!["--remote-components"@, "ejs:github"@]);
    } else {
        assert(views(args@) =~= before + Seq::<Seq<char>>::empty());
    }
}

/// `apply_runtime_support_args`.
pub fn apply_runtime_support_args(args: &mut Vec<String>, url: &str, runtime: Option<&str>)
    ensures
        views(final(args)@) == views(old(args)@) + runtime_support_args(url@, opt_str(runtime)),
{
    let ghost before = views(args@);
    apply_js_runtime_args(args, runtime);
    apply_remote_component_args(args, url);
    assert(views(args@) =~= before + runtime_support_args(url@, opt_str(runtime)));
}

/// `base_download_args`: output directory, file name template, progress
/// lines and runtime support.
pub fn base_download_args(output_dir: &str, url: &str, runtime: Option<&str>) -> (r: Vec<String>)
    ensures
        views(r@) == base_args(output_dir@, url@, opt_str(runtime)),
{
    let mut args: Vec<String> = Vec::new();
    push_arg(&mut args, "--newline");
    push_arg(&mut args, "-P");
    push_arg(&mut args, output_dir);
    push_arg(&mut args, "-o");
    push_arg(&mut args, "%(title)s [%(id)s].%(ext)s");
    push_arg(&mut args, "--progress");
    push_arg(&mut args, "--no-warnings");
    let ghost head = views(args@);
    apply_runtime_support_args(&mut args, url, runtime);
    assert(views(args@) =~= base_args(output_dir@, url@, opt_str(runtime)));
    args
}

/// `selected_or_default_format`: `-f` with the chosen or the default selector.
pub fn selected_or_default_format(selected: Option<&str>, fallback: &str) -> (r: Vec<String>)
    ensures
        views(r@) == seq!["-f"@, chosen_or(opt_str(selected), fallback@)],
{
    let mut args: Vec<String> = Vec::new();
    push_arg(&mut args, "-f");
    match selected {
        Some(s) => push_arg(&mut args, s),
        None => push_arg(&mut args, fallback),
    }
    assert(views(args@) =~= seq!["-f"@, chosen_or(opt_str(selected), fallback@)]);
    args
}

/// The optional string as a string slice.
fn opt_as_str(o: &Option<String>) -> (r: Option<&str>)
    ensures
        opt_str(r) == opt_text(*o),
{
    match o {
        Some(s) => Some(s.as_str()),
        None => None,
    }
}

/// The mode arguments of a first attempt.
fn primary_mode_arg_list(mode: &str, format_id: Option<&str>) -> (r: Vec<String>)
    ensures
        views(r@) == primary_mode_args(mode@, opt_str(format_id)),
{
    if str_equal(mode, "audio") {
        let mut args: Vec<String> = Vec::new();
        push_arg(&mut args, "-f");
        match format_id {
            Some(f) => push_arg(&mut args, f),
            None => push_arg(&mut args, "bestaudio/best"),
        }
        let rest = args_of(&vec!["--extract-audio", "--audio-format", "mp3", "--audio-quality", "0"]);
        extend_args(&mut args, rest);
        assert(views(args@) =~= primary_mode_args(mode@, opt_str(format_id)));
        args
    } else if str_equal(mode, "subtitles") {
        let r = args_of(
            &vec![
                "--skip-download",
                "--write-subs",
                "--write-auto-subs",
                "--sub-langs",
                "all",
                "--convert-subs",
                "srt",
            ],
        );
        assert(views(r@) =~= primary_mode_args(mode@, opt_str(format_id)));
        r
    } else if str_equal(mode, "video+subtitles") {
        let mut args = selected_or_default_format(
            format_id,
            "bv*+bestaudio[acodec^=mp4a]/bestaudio[ext=m4a]/bestaudio/best",
        );
        let rest = args_of(&vec!["--write-subs", "--write-auto-subs", "--sub-langs", "all", "--embed-subs"]);
        extend_args(&mut args, rest);
        assert(views(args@) =~= primary_mode_args(mode@, opt_str(format_id)));
        args
    } else {
        selected_or_default_format(
            format_id,
            "bv*+bestaudio[acodec^=mp4a]/bestaudio[ext=m4a]/bestaudio/best",
        )
    }
}

/// The mode arguments of a retry with default formats.
fn fallback_mode_arg_list(mode: &str) -> (r: Vec<String>)
    ensures
        views(r@) == fallback_mode_args(mode@),
{
    let r = if str_equal(mode, "audio") {
        args_of(&vec!["-f", "bestaudio/best", "--extract-audio", "--audio-format", "mp3", "--audio-quality", "0"])
    } else if str_equal(mode, "subtitles") {
        args_of(
            &vec![
                "--skip-download",
                "--write-subs",
                "--write-auto-subs",
                "--sub-langs",
                "all",
                "--convert-subs",
                "srt",
            ],
        )
    } else if str_equal(mode, "video+subtitles") {
        args_of(
            &vec![
                "-f",
                "bv*+bestaudio[acodec^=mp4a]/bestaudio[ext=m4a]/bestaudio/best",
                "--write-subs",
                "--write-auto-subs",
                "--sub-langs",
                "all",
            ],
        )
    } else {
        args_of(&vec!["-f", "bv*+bestaudio[acodec^=mp4a]/bestaudio[ext=m4a]/bestaudio/best"])
    };
    assert(views(r@) =~= fallback_mode_args(mode@));
    r
}

/// `build_download_args`: the command line of a first download attempt.
pub fn build_download_args(
    payload: &StartDownloadRequest,
    output_dir: &str,
    url: &str,
    runtime: Option<&str>,
    home: Option<&str>,
) -> (r: Result<Vec<String>, String>)
    ensures
        args_result(
            r,
            download_args(*payload, output_dir@, url@, opt_str(runtime), home_view(home)),
            payload.auth_mode@,
            payload.language@,
        ),
{
    let mut args = base_download_args(output_dir, url, runtime);
    let ghost base = views(args@);
    match apply_auth_args(
        &mut args,
        payload.auth_mode.as_str(),
        opt_as_str(&payload.browser),
        opt_as_str(&payload.cookie_file),
        payload.language.as_str(),
        home,
    ) {
        Ok(()) => {},
        Err(e) => {
            return Err(e);
        },
    }
    apply_playlist_scope_args(&mut args, payload.playlist_scope.as_str());
    let mode_args = primary_mode_arg_list(payload.mode.as_str(), opt_as_str(&payload.format_id));
    extend_args(&mut args, mode_args);
    Ok(args)
}

/// `build_fallback_download_args`: the command line of a retry with the
/// default formats for the mode.
pub fn build_fallback_download_args(
    payload: &StartDownloadRequest,
    output_dir: &str,
    url: &str,
    runtime: Option<&str>,
    home: Option<&str>,
) -> (r: Result<Vec<String>, String>)
    ensures
        args_result(
            r,
            fallback_download_args(*payload, output_dir@, url@, opt_str(runtime), home_view(home)),
            payload.auth_mode@,
            payload.language@,
        ),
{
    let mut args = base_download_args(output_dir, url, runtime);
    match apply_auth_args(
        &mut args,
        payload.auth_mode.as_str(),
        opt_as_str(&payload.browser),
        opt_as_str(&payload.cookie_file),
        payload.language.as_str(),
        home,
    ) {
        Ok(()) => {},
        Err(e) => {
            return Err(e);
        },
    }
    apply_playlist_scope_args(&mut args, payload.playlist_scope.as_str());
    let mode_args = fallback_mode_arg_list(payload.mode.as_str());
    extend_args(&mut args, mode_args);
    Ok(args)
}

/// The arguments of `execute_parse_request`, before the link itself.
pub fn parse_request_args(
    normalized_url: &str,
    playlist_scope: &str,
    payload: &ParseUrlRequest,
    runtime: Option<&str>,
    home: Option<&str>,
) -> (r: Result<Vec<String>, String>)
    ensures
        args_result(
            r,
            parse_args(normalized_url@, playlist_scope@, *payload, opt_str(runtime), home_view(home)),
            payload.auth_mode@,
            payload.language@,
        ),
{
    let mut args = args_of(
        &vec!["--dump-single-json", "--skip-download", "--no-warnings", "--playlist-end", "8"],
    );
    assert(views(args@) =~= seq![
        "--dump-single-json"@,
        "--skip-download"@,
        "--no-warnings"@,
        "--playlist-end"@,
        "8"@,
    ]);
    apply_runtime_support_args(&mut args, normalized_url, runtime);
    apply_playlist_scope_args(&mut args, playlist_scope);
    match apply_auth_args(
        &mut args,
        payload.auth_mode.as_str(),
        opt_as_str(&payload.browser),
        opt_as_str(&payload.cookie_file),
        payload.language.as_str(),
        home,
    ) {
        Ok(()) => Ok(args),
        Err(e) => Err(e),
    }
}

/// `build_profile_label`: `mode / format / authentication`, in the
/// interface language.
pub fn build_profile_label(mode: &str, format_id: Option<&str>, auth_mode: &str, language: &str) -> (r: String)
    ensures
        r@ == profile_label(mode@, opt_str(format_id), auth_mode@, language@),
{
    let english = is_english(language);
    let mode_text: &str = if english {
        if str_equal(mode, "audio") {
            "Audio Only"
        } else if str_equal(mode, "subtitles") {
            "Subtitles Only"
        } else if str_equal(mode, "video+subtitles") {
            "Video + Subtitles"
        } else {
            "Video"
        }
    } else if str_equal(mode, "audio") {
        "仅音频"
    } else if str_equal(mode, "subtitles") {
        "仅字幕"
    } else if str_equal(mode, "video+subtitles") {
        "视频 + 字幕"
    } else {
        "视频"
    };
    let auth_text: &str = if english {
        if str_equal(auth_mode, "browser") {
            "Browser Cookies"
        } else if str_equal(auth_mode, "file") {
            "Cookie File"
        } else {
            "No Cookies"
        }
    } else if str_equal(auth_mode, "browser") {
        "浏览器 Cookie"
    } else if str_equal(auth_mode, "file") {
        "Cookie 文件"
    } else {
        "无 Cookie"
    };
    let format_text: &str = match format_id {
        Some(f) => f,
        None => if english {
            "Auto Best"
        } else {
            "自动最佳"
        },
    };
    let a = concat(mode_text, " / ");
    let b = concat(a.as_str(), format_text);
    let c = concat(b.as_str(), " / ");
    concat(c.as_str(), auth_text)
}

/// `r` is `p` with authentication turned off.
pub open spec fn is_parse_without_auth(r: ParseUrlRequest, p: ParseUrlRequest) -> bool {
    &&& r.url@ == p.url@
    &&& r.playlist_scope@ == p.playlist_scope@
    &&& r.auth_mode@ == "none"@
    &&& r.browser is None
    &&& r.cookie_file is None
    &&& r.language@ == p.language@
}

/// `r` is `p` with authentication turned off.
pub open spec fn is_download_without_auth(r: StartDownloadRequest, p: StartDownloadRequest) -> bool {
    &&& r.url@ == p.url@
    &&& opt_text(r.title) == opt_text(p.title)
    &&& r.mode@ == p.mode@
    &&& opt_text(r.format_id) == opt_text(p.format_id)
    &&& r.output_dir@ == p.output_dir@
    &&& r.playlist_scope@ == p.playlist_scope@
    &&& r.auth_mode@ == "none"@
    &&& r.browser is None
    &&& r.cookie_file is None
    &&& r.language@ == p.language@
}

fn copy_opt(o: &Option<String>) -> (r: Option<String>)
    ensures
        opt_text(r) == opt_text(*o),
{
    match o {
        Some(s) => Some(s.clone()),
        None => None,
    }
}

/// A copy of a download request.
pub fn copy_request(p: &StartDownloadRequest) -> (r: StartDownloadRequest)
    ensures
        r == *p,
{
    let title = match &p.title {
        Some(s) => Some(s.clone()),
        None => None,
    };
    let format_id = match &p.format_id {
        Some(s) => Some(s.clone()),
        None => None,
    };
    let browser = match &p.browser {
        Some(s) => Some(s.clone()),
        None => None,
    };
    let cookie_file = match &p.cookie_file {
        Some(s) => Some(s.clone()),
        None => None,
    };
    StartDownloadRequest {
        url: p.url.clone(),
        title,
        mode: p.mode.clone(),
        format_id,
        output_dir: p.output_dir.clone(),
        playlist_scope: p.playlist_scope.clone(),
        auth_mode: p.auth_mode.clone(),
        browser,
        cookie_file,
        language: p.language.clone(),
    }
}

/// `without_auth_parse_payload`.
pub fn without_auth_parse_payload(payload: &ParseUrlRequest) -> (r: ParseUrlRequest)
    ensures
        is_parse_without_auth(r, *payload),
{
    ParseUrlRequest {
        url: payload.url.clone(),
        playlist_scope: payload.playlist_scope.clone(),
        auth_mode: "none".to_string(),
        browser: None,
        cookie_file: None,
        language: payload.language.clone(),
    }
}

/// `without_auth_download_payload`.
pub fn without_auth_download_payload(payload: &StartDownloadRequest) -> (r: StartDownloadRequest)
    ensures
        is_download_without_auth(r, *payload),
{
    StartDownloadRequest {
        url: payload.url.clone(),
        title: copy_opt(&payload.title),
        mode: payload.mode.clone(),
        format_id: copy_opt(&payload.format_id),
        output_dir: payload.output_dir.clone(),
        playlist_scope: payload.playlist_scope.clone(),
        auth_mode: "none".to_string(),
        browser: None,
        cookie_file: None,
        language: payload.language.clone(),
    }
}

// ---------------------------------------------------------------------------
// Laws
// ---------------------------------------------------------------------------

/// A request with authentication turned off always yields both command
/// lines, and they are those of the request it was made from, without cookie
/// arguments.
pub proof fn law_without_auth_args_never_fail(
    p: StartDownloadRequest,
    q: StartDownloadRequest,
    output_dir: Seq<char>,
    url: Seq<char>,
    runtime: Option<Seq<char>>,
    home: Option<Seq<char>>,
)
    requires
        is_download_without_auth(q, p),
    ensures
        download_args(q, output_dir, url, runtime, home) == Some(
            base_args(output_dir, url, runtime) + playlist_scope_args(p.playlist_scope@)
                + primary_mode_args(p.mode@, opt_text(p.format_id)),
        ),
        fallback_download_args(q, output_dir, url, runtime, home) == Some(
            base_args(output_dir, url, runtime) + playlist_scope_args(p.playlist_scope@)
                + fallback_mode_args(p.mode@),
        ),
{
    reveal_strlit("none");
    reveal_strlit("browser");
    reveal_strlit("file");
    let e = Seq::<Seq<char>>::empty();
    let b = base_args(output_dir, url, runtime);
    let pl = playlist_scope_args(p.playlist_scope@);
    assert("none"@[0] != "browser"@[0]);
    assert("none"@[0] != "file"@[0]);
    assert(auth_args(q.auth_mode@, opt_text(q.browser), opt_text(q.cookie_file), home) == Some(e));
    assert(b + e + pl + primary_mode_args(p.mode@, opt_text(p.format_id)) =~= b + pl
        + primary_mode_args(p.mode@, opt_text(p.format_id)));
    assert(b + e + pl + fallback_mode_args(p.mode@) =~= b + pl + fallback_mode_args(p.mode@));
}

/// The mode arguments end the command line of a first attempt.
proof fn lemma_mode_args_last(p: StartDownloadRequest, output_dir: Seq<char>, url: Seq<char>, runtime: Option<Seq<char>>, home: Option<Seq<char>>)
    requires
        download_args(p, output_dir, url, runtime, home) is Some,
    ensures
        ({
            let a = download_args(p, output_dir, url, runtime, home)->0;
            let m = primary_mode_args(p.mode@, opt_text(p.format_id));
            a.len() >= m.len() && a.subrange(a.len() - m.len(), a.len() as int) == m
        }),
{
    let a = download_args(p, output_dir, url, runtime, home)->0;
    let m = primary_mode_args(p.mode@, opt_text(p.format_id));
    let front = base_args(output_dir, url, runtime) + request_auth_args(p, home)->0 + playlist_scope_args(
        p.playlist_scope@,
    );
    assert(a == front + m);
    assert(a.subrange(a.len() - m.len(), a.len() as int) =~= m);
}

/// The format the user picked is the one downloaded on the first attempt: a
/// video download ends with `-f` and that format, an audio download extracts
/// the audio of that format, and a video with subtitles downloads that
/// format with the subtitles; only without a pick are the default selectors
/// used.
pub proof fn law_chosen_format_downloaded(
    p: StartDownloadRequest,
    output_dir: Seq<char>,
    url: Seq<char>,
    runtime: Option<Seq<char>>,
    home: Option<Seq<char>>,
)
    requires
        download_args(p, output_dir, url, runtime, home) is Some,
    ensures
        ({
            let a = download_args(p, output_dir, url, runtime, home)->0;
            let f = match p.format_id {
                Some(x) => x@,
                None => Seq::empty(),
            };
            let plain_video = p.mode@ != "audio"@ && p.mode@ != "subtitles"@ && p.mode@ != "video+subtitles"@;
            &&& (plain_video && p.format_id is Some) ==> a.len() >= 2 && a.subrange(a.len() - 2, a.len() as int)
                == seq!["-f"@, f]
            &&& (plain_video && p.format_id is None) ==> a.len() >= 2 && a.subrange(a.len() - 2, a.len() as int)
                == seq!["-f"@, "bv*+bestaudio[acodec^=mp4a]/bestaudio[ext=m4a]/bestaudio/best"@]
            &&& (p.mode@ == "audio"@) ==> a.len() >= 7 && a.subrange(a.len() - 7, a.len() as int) == seq![
                "-f"@,
                if p.format_id is Some { f } else { "bestaudio/best"@ },
                "--extract-audio"@,
                "--audio-format"@,
                "mp3"@,
                "--audio-quality"@,
                "0"@,
            ]
            &&& (p.mode@ == "video+subtitles"@) ==> a.len() >= 7 && a.subrange(a.len() - 7, a.len() as int)
                == seq![
                "-f"@,
                if p.format_id is Some { f } else { "bv*+bestaudio[acodec^=mp4a]/bestaudio[ext=m4a]/bestaudio/best"@ },
                "--write-subs"@,
                "--write-auto-subs"@,
                "--sub-langs"@,
                "all"@,
                "--embed-subs"@,
            ]
            &&& (p.mode@ == "subtitles"@) ==> a.len() >= 7 && a.subrange(a.len() - 7, a.len() as int) == seq![
                "--skip-download"@,
                "--write-subs"@,
                "--write-auto-subs"@,
                "--sub-langs"@,
                "all"@,
                "--convert-subs"@,
                "srt"@,
            ]
        }),
{
    lemma_mode_args_last(p, output_dir, url, runtime, home);
    assert("audio"@[0] != "subtitles"@[0]) by {
        reveal_strlit("audio");
        reveal_strlit("subtitles");
    }
    let m = primary_mode_args(p.mode@, opt_text(p.format_id));
    reveal_strlit("audio");
    reveal_strlit("subtitles");
    reveal_strlit("video+subtitles");
    assert("audio"@[0] != "video+subtitles"@[0] && "subtitles"@[0] != "video+subtitles"@[0]);
    if p.mode@ == "video+subtitles"@ {
        assert(m =~= seq![
            "-f"@,
            chosen_or(opt_text(p.format_id), best_video_selector()),
            "--write-subs"@,
            "--write-auto-subs"@,
            "--sub-langs"@,
            "all"@,
            "--embed-subs"@,
        ]);
    }
}

/// A retry with the default formats ignores the format the user picked: a
/// video is retried with the default video selector, audio with the best
/// audio, a video with subtitles with the default selector and the subtitles
/// (without embedding them); subtitles only are fetched as before.
pub proof fn law_fallback_uses_default_formats(
    p: StartDownloadRequest,
    output_dir: Seq<char>,
    url: Seq<char>,
    runtime: Option<Seq<char>>,
    home: Option<Seq<char>>,
)
    requires
        fallback_download_args(p, output_dir, url, runtime, home) is Some,
    ensures
        ({
            let a = fallback_download_args(p, output_dir, url, runtime, home)->0;
            let best = "bv*+bestaudio[acodec^=mp4a]/bestaudio[ext=m4a]/bestaudio/best"@;
            &&& (p.mode@ != "audio"@ && p.mode@ != "subtitles"@ && p.mode@ != "video+subtitles"@) ==> a.len()
                >= 2 && a.subrange(a.len() - 2, a.len() as int) == seq!["-f"@, best]
            &&& (p.mode@ == "audio"@) ==> a.len() >= 7 && a.subrange(a.len() - 7, a.len() as int) == seq![
                "-f"@,
                "bestaudio/best"@,
                "--extract-audio"@,
                "--audio-format"@,
                "mp3"@,
                "--audio-quality"@,
                "0"@,
            ]
            &&& (p.mode@ == "video+subtitles"@) ==> a.len() >= 6 && a.subrange(a.len() - 6, a.len() as int)
                == seq!["-f"@, best, "--write-subs"@, "--write-auto-subs"@, "--sub-langs"@, "all"@]
            &&& (p.mode@ == "subtitles"@) ==> a.len() >= 7 && a.subrange(a.len() - 7, a.len() as int) == seq![
                "--skip-download"@,
                "--write-subs"@,
                "--write-auto-subs"@,
                "--sub-langs"@,
                "all"@,
                "--convert-subs"@,
                "srt"@,
            ]
        }),
{
    let a = fallback_download_args(p, output_dir, url, runtime, home)->0;
    let m = fallback_mode_args(p.mode@);
    let front = base_args(output_dir, url, runtime) + request_auth_args(p, home)->0 + playlist_scope_args(
        p.playlist_scope@,
    );
    assert(a == front + m);
    assert(a.subrange(a.len() - m.len(), a.len() as int) =~= m);
    reveal_strlit("audio");
    reveal_strlit("subtitles");
    reveal_strlit("video+subtitles");
    assert("audio"@[0] != "video+subtitles"@[0] && "subtitles"@[0] != "video+subtitles"@[0]);
    assert("audio"@[0] != "subtitles"@[0]);
}

} // verus!
