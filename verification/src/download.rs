//! A download task from the request to its final state: how it is created,
//! which attempts run in which order, and how the outcome is recorded.
use vstd::prelude::*;
use crate::args::{opt_str, opt_text, profile_label, build_profile_label, StartDownloadRequest};
use crate::retry::{
    format_unavailable, retry_without_auth_spec, should_retry_with_fallback, should_retry_without_auth,
    message_primary_fallback, message_retry_without_auth, message_no_auth_fallback,
};
use crate::settings::{english_spec, is_english, message_unfinished_after_restart, unfinished_after_restart_text};
use crate::text::{has_text, concat, decimal, decimal_string, is_blank, str_equal, trim, chars_of, slice_chars, string_of};

verus! {

/// A download task as the task list shows it (its progress percentage is
/// kept beside it by the caller).
#[derive(Debug)]
pub struct TaskRecord {
    pub id: String,
    pub title: String,
    pub status: String,
    pub speed: String,
    pub eta: String,
    pub output: String,
    pub profile: String,
    pub source_url: String,
    pub error: Option<String>,
}

/// The outcome of one run of yt-dlp.
#[derive(Debug)]
pub struct DownloadAttemptResult {
    pub success: bool,
    pub error: Option<String>,
}

/// The attempts of a download, in the order they may run.
#[derive(PartialEq, Eq, Structural, Clone, Copy, Debug)]
pub enum DownloadStage {
    Primary,
    Fallback,
    NoAuthPrimary,
    NoAuthFallback,
}

/// What to do after an attempt.
pub enum DownloadStep {
    /// Run another attempt after recording `notice` as the task's message;
    /// `publish_before_reset` says whether the task is published before its
    /// progress, speed and ETA are reset (else after).
    Run { stage: DownloadStage, notice: String, publish_before_reset: bool },
    /// No further attempt.
    Finish,
}

/// How a run of yt-dlp ended.
pub enum AttemptOutcome {
    /// The process could not be started; the system's message.
    SpawnFailed(String),
    /// The process ended; its exit code, when it has one.
    Exited { success: bool, code: Option<i32> },
    /// Waiting for the process failed; the system's message.
    WaitFailed(String),
}

// ---------------------------------------------------------------------------
// Specifications
// ---------------------------------------------------------------------------

/// The position of an attempt in the order of attempts.
pub open spec fn stage_rank(s: DownloadStage) -> int {
    match s {
        DownloadStage::Primary => 0,
        DownloadStage::Fallback => 1,
        DownloadStage::NoAuthPrimary => 2,
        DownloadStage::NoAuthFallback => 3,
    }
}

/// The text of an optional error, empty when there is none.
pub open spec fn error_text(e: Option<String>) -> Seq<char> {
    match e {
        Some(m) => m@,
        None => Seq::empty(),
    }
}

/// The error calls for a retry with default formats.
pub open spec fn wants_fallback(e: Option<String>) -> bool {
    match e {
        Some(m) => format_unavailable(m@),
        None => false,
    }
}

/// The attempt that follows `stage` after `result`, with its notice and
/// publishing order; `None` when the download is over.
pub open spec fn next_step(
    stage: DownloadStage,
    result: DownloadAttemptResult,
    url: Seq<char>,
    auth_mode: Seq<char>,
    language: Seq<char>,
) -> Option<(DownloadStage, Seq<char>, bool)> {
    let english = english_spec(language);
    let no_auth = retry_without_auth_spec(url, auth_mode, error_text(result.error));
    let retry_notice = if english {
        "Browser-cookie download failed. Retrying without cookies."@
    } else {
        "浏览器 Cookie 下载失败，正在自动回退到无 Cookie 重试。"@
    };
    match stage {
        DownloadStage::Primary => if wants_fallback(result.error) {
            Some(
                (
                    DownloadStage::Fallback,
                    if english {
                        "The selected format is unavailable. Retrying with a compatible fallback format."@
                    } else {
                        "首选格式不可用，正在自动回退到兼容格式重新尝试。"@
                    },
                    true,
                ),
            )
        } else if no_auth {
            Some((DownloadStage::NoAuthPrimary, retry_notice, false))
        } else {
            None
        },
        DownloadStage::Fallback => if no_auth {
            Some((DownloadStage::NoAuthPrimary, retry_notice, false))
        } else {
            None
        },
        DownloadStage::NoAuthPrimary => if wants_fallback(result.error) {
            Some(
                (
                    DownloadStage::NoAuthFallback,
                    if english {
                        "The preferred no-cookie format is unavailable. Retrying with a compatible fallback format."@
                    } else {
                        "无 Cookie 首选格式不可用，正在自动回退到兼容格式重新尝试。"@
                    },
                    false,
                ),
            )
        } else {
            None
        },
        DownloadStage::NoAuthFallback => None,
    }
}

/// The text after the last `/` (the whole text when there is none).
pub open spec fn last_segment(s: Seq<char>) -> Seq<char>
    decreases s.len(),
{
    if s.len() == 0 {
        s
    } else if s.last() == '/' {
        Seq::empty()
    } else {
        last_segment(s.drop_last()).push(s.last())
    }
}

/// The title guessed from a link: its last path segment, or a placeholder.
pub open spec fn inferred_title(url: Seq<char>, language: Seq<char>) -> Seq<char> {
    if last_segment(url).len() > 0 {
        last_segment(url)
    } else if english_spec(language) {
        "New download"@
    } else {
        "新建下载"@
    }
}

/// The title of a new task: the requested one when it is not blank, else
/// the one guessed from the link.
pub open spec fn task_title(title: Option<Seq<char>>, url: Seq<char>, language: Seq<char>) -> Seq<char> {
    match title {
        Some(t) => if is_blank(t) {
            inferred_title(url, language)
        } else {
            t
        },
        None => inferred_title(url, language),
    }
}

/// The identifier of a task created at `millis` milliseconds after the epoch.
pub open spec fn task_id_text(millis: nat) -> Seq<char> {
    "task-"@ + decimal(millis)
}

/// The decimal text of a signed integer.
pub open spec fn signed_decimal(n: int) -> Seq<char> {
    if n < 0 {
        "-"@ + decimal((-n) as nat)
    } else {
        decimal(n as nat)
    }
}

/// `t` is a newly queued task.
pub open spec fn is_new_task(
    t: TaskRecord,
    id: Seq<char>,
    p: StartDownloadRequest,
    url: Seq<char>,
    output_dir: Seq<char>,
) -> bool {
    &&& t.id@ == id
    &&& t.title@ == task_title(opt_text(p.title), url, p.language@)
    &&& t.status@ == "queued"@
    &&& t.speed@ == "--"@
    &&& t.eta@ == "--"@
    &&& t.output@ == output_dir
    &&& t.profile@ == profile_label(p.mode@, opt_text(p.format_id), p.auth_mode@, p.language@)
    &&& t.source_url@ == url
    &&& t.error is None
}

// ---------------------------------------------------------------------------
// Executable functions
// ---------------------------------------------------------------------------

/// `task_id`: `task-` and the creation time in milliseconds.
pub fn task_id(millis: u128) -> (r: String)
    ensures
        r@ == task_id_text(millis as nat),
{
    let digits = decimal_string(millis);
    concat("task-", digits.as_str())
}

/// `infer_title_from_url`: the last path segment of the link, or a placeholder.
pub fn infer_title_from_url(url: &str, language: &str) -> (r: String)
    ensures
        r@ == inferred_title(url@, language@),
{
    let v = chars_of(url);
    let mut i: usize = v.len();
    assert(v@.take(v.len() as int) =~= v@);
    assert(last_segment(url@) + v@.subrange(v.len() as int, v.len() as int) =~= last_segment(url@));
    while i > 0 && v[i - 1] != '/'
        invariant
            i <= v.len(),
            v@ == url@,
            last_segment(url@) == last_segment(v@.take(i as int)) + v@.subrange(i as int, v.len() as int),
        decreases i,
    {
        assert(v@.take(i as int).drop_last() =~= v@.take(i - 1));
        assert(v@.subrange(i - 1, v.len() as int) =~= seq![v@[i - 1]] + v@.subrange(i as int, v.len() as int));
        assert(last_segment(v@.take(i as int)) == last_segment(v@.take(i - 1)).push(v@[i - 1]));
        assert(last_segment(v@.take(i - 1)).push(v@[i - 1]) + v@.subrange(i as int, v.len() as int)
            =~= last_segment(v@.take(i - 1)) + v@.subrange(i - 1, v.len() as int));
        i = i - 1;
    }
    proof {
        assert(v@.take(v.len() as int) =~= v@);
        assert(v@.subrange(v.len() as int, v.len() as int) =~= Seq::<char>::empty());
        if i == 0 {
            assert(v@.take(0) =~= Seq::<char>::empty());
        } else {
            assert(v@.take(i as int).last() == '/');
        }
        assert(last_segment(url@) =~= v@.subrange(i as int, v.len() as int));
    }
    let segment = slice_chars(&v, i, v.len());
    if segment.len() > 0 {
        string_of(&segment)
    } else if is_english(language) {
        "New download".to_string()
    } else {
        "新建下载".to_string()
    }
}

/// The task a download request starts as.
pub fn new_task_record(id: &str, payload: &StartDownloadRequest, url: &str, output_dir: &str) -> (r: TaskRecord)
    ensures
        is_new_task(r, id@, *payload, url@, output_dir@),
{
    let title = match &payload.title {
        Some(t) => if trim(t.as_str()).as_str().is_empty() {
            infer_title_from_url(url, payload.language.as_str())
        } else {
            t.clone()
        },
        None => infer_title_from_url(url, payload.language.as_str()),
    };
    let format_id = match &payload.format_id {
        Some(f) => Some(f.as_str()),
        None => None,
    };
    TaskRecord {
        id: id.to_string(),
        title,
        status: "queued".to_string(),
        speed: "--".to_string(),
        eta: "--".to_string(),
        output: output_dir.to_string(),
        profile: build_profile_label(
            payload.mode.as_str(),
            format_id,
            payload.auth_mode.as_str(),
            payload.language.as_str(),
        ),
        source_url: url.to_string(),
        error: None,
    }
}

/// A task found unfinished after a restart is marked failed with an
/// explanation; others are kept.
pub fn restart_task_record(task: TaskRecord, language: &str) -> (r: TaskRecord)
    ensures
        (task.status@ == "queued"@ || task.status@ == "running"@) ==> {
            &&& r.status@ == "failed"@
            &&& r.error matches Some(e) && e@ == unfinished_after_restart_text(language@)
            &&& r.speed@ == "--"@
            &&& r.eta@ == "--"@
            &&& r.id@ == task.id@ && r.title@ == task.title@ && r.output@ == task.output@
            &&& r.profile@ == task.profile@ && r.source_url@ == task.source_url@
        },
        !(task.status@ == "queued"@ || task.status@ == "running"@) ==> r == task,
        r.status@ != "queued"@ && r.status@ != "running"@,
{
    proof {
        reveal_strlit("failed");
        reveal_strlit("queued");
        reveal_strlit("running");
        assert("failed"@[0] != "queued"@[0] && "failed"@[0] != "running"@[0]);
    }
    if str_equal(task.status.as_str(), "queued") || str_equal(task.status.as_str(), "running") {
        TaskRecord {
            status: "failed".to_string(),
            error: Some(message_unfinished_after_restart(language)),
            speed: "--".to_string(),
            eta: "--".to_string(),
            ..task
        }
    } else {
        task
    }
}

/// The step after an attempt of a download: a retry with default formats
/// after a missing format, a retry without cookies when
/// `should_retry_without_auth` calls for it, or the end.
pub fn next_download_step(
    stage: DownloadStage,
    result: &DownloadAttemptResult,
    url: &str,
    auth_mode: &str,
    language: &str,
) -> (r: DownloadStep)
    ensures
        match r {
            DownloadStep::Run { stage: s, notice, publish_before_reset } => next_step(
                stage,
                *result,
                url@,
                auth_mode@,
                language@,
            ) == Some((s, notice@, publish_before_reset)),
            DownloadStep::Finish => next_step(stage, *result, url@, auth_mode@, language@) is None,
        },
{
    let error: &str = match &result.error {
        Some(e) => e.as_str(),
        None => "",
    };
    proof {
        reveal_strlit("");
    }
    let no_auth = should_retry_without_auth(url, auth_mode, error);
    match stage {
        DownloadStage::Primary => {
            if should_retry_with_fallback(&result.error) {
                DownloadStep::Run {
                    stage: DownloadStage::Fallback,
                    notice: message_primary_fallback(language),
                    publish_before_reset: true,
                }
            } else if no_auth {
                DownloadStep::Run {
                    stage: DownloadStage::NoAuthPrimary,
                    notice: message_retry_without_auth(language),
                    publish_before_reset: false,
                }
            } else {
                DownloadStep::Finish
            }
        },
        DownloadStage::Fallback => {
            if no_auth {
                DownloadStep::Run {
                    stage: DownloadStage::NoAuthPrimary,
                    notice: message_retry_without_auth(language),
                    publish_before_reset: false,
                }
            } else {
                DownloadStep::Finish
            }
        },
        DownloadStage::NoAuthPrimary => {
            if should_retry_with_fallback(&result.error) {
                DownloadStep::Run {
                    stage: DownloadStage::NoAuthFallback,
                    notice: message_no_auth_fallback(language),
                    publish_before_reset: false,
                }
            } else {
                DownloadStep::Finish
            }
        },
        DownloadStage::NoAuthFallback => DownloadStep::Finish,
    }
}

/// The decimal text of a signed 32-bit integer.
pub fn signed_decimal_string(n: i32) -> (r: String)
    ensures
        r@ == signed_decimal(n as int),
{
    if n < 0 {
        let m: i64 = -(n as i64);
        let digits = decimal_string(m as u128);
        concat("-", digits.as_str())
    } else {
        decimal_string(n as u128)
    }
}

/// The result of one run of yt-dlp (`run_download_attempt`): success, or
/// the error the task recorded, else one that says how the run ended.
pub fn download_attempt_result(outcome: AttemptOutcome, task_error: Option<String>) -> (r: DownloadAttemptResult)
    ensures
        match outcome {
            AttemptOutcome::SpawnFailed(m) => !r.success && (r.error matches Some(e) && e@
                == "无法启动下载任务："@ + m@),
            AttemptOutcome::Exited { success, code } => if success {
                r.success && r.error is None
            } else {
                &&& !r.success
                &&& match task_error {
                    Some(t) => r.error matches Some(e) && e@ == t@,
                    None => r.error matches Some(e) && e@ == "yt-dlp 退出码异常："@ + signed_decimal(
                        match code {
                            Some(c) => c as int,
                            None => -1,
                        },
                    ),
                }
            },
            AttemptOutcome::WaitFailed(m) => !r.success && (r.error matches Some(e) && e@
                == "等待下载进程结束失败："@ + m@),
        },
{
    match outcome {
        AttemptOutcome::SpawnFailed(m) => DownloadAttemptResult {
            success: false,
            error: Some(concat("无法启动下载任务：", m.as_str())),
        },
        AttemptOutcome::Exited { success, code } => {
            if success {
                DownloadAttemptResult { success: true, error: None }
            } else {
                let error = match task_error {
                    Some(t) => t,
                    None => {
                        let c: i32 = match code {
                            Some(c) => c,
                            None => -1,
                        };
                        let digits = signed_decimal_string(c);
                        concat("yt-dlp 退出码异常：", digits.as_str())
                    },
                };
                DownloadAttemptResult { success: false, error: Some(error) }
            }
        },
        AttemptOutcome::WaitFailed(m) => DownloadAttemptResult {
            success: false,
            error: Some(concat("等待下载进程结束失败：", m.as_str())),
        },
    }
}

/// The error when the output directory cannot be created.
pub fn output_dir_error(language: &str, output_dir: &str, error: &str) -> (r: String)
    ensures
        r@ == (if english_spec(language@) {
            "Failed to create output directory `"@ + output_dir@ + "`: "@ + error@
        } else {
            "无法创建下载目录 `"@ + output_dir@ + "`："@ + error@
        }),
{
    let (head, middle) = if is_english(language) {
        ("Failed to create output directory `", "`: ")
    } else {
        ("无法创建下载目录 `", "`：")
    };
    let a = concat(head, output_dir);
    let b = concat(a.as_str(), middle);
    concat(b.as_str(), error)
}

/// A queued task that starts running.
pub fn mark_running(task: TaskRecord) -> (r: TaskRecord)
    ensures
        r.status@ == "running"@,
        r.id == task.id && r.title == task.title && r.speed == task.speed && r.eta == task.eta,
        r.output == task.output && r.profile == task.profile && r.source_url == task.source_url,
        r.error == task.error,
{
    TaskRecord { status: "running".to_string(), ..task }
}

/// A task's message set, nothing else changed.
pub fn with_task_message(task: TaskRecord, message: String) -> (r: TaskRecord)
    ensures
        r.error matches Some(e) && e@ == message@,
        r.id == task.id && r.title == task.title && r.status == task.status,
        r.speed == task.speed && r.eta == task.eta,
        r.output == task.output && r.profile == task.profile && r.source_url == task.source_url,
{
    TaskRecord { error: Some(message), ..task }
}

/// A task's speed and ETA cleared before another attempt.
pub fn cleared_transfer(task: TaskRecord) -> (r: TaskRecord)
    ensures
        r.speed@ == "--"@,
        r.eta@ == "--"@,
        r.id == task.id && r.title == task.title && r.status == task.status && r.error == task.error,
        r.output == task.output && r.profile == task.profile && r.source_url == task.source_url,
{
    TaskRecord { speed: "--".to_string(), eta: "--".to_string(), ..task }
}

/// A task's message set to a retry notice, with its speed and ETA cleared.
pub fn apply_retry_notice(task: TaskRecord, notice: String) -> (r: TaskRecord)
    ensures
        r.error matches Some(e) && e@ == notice@,
        r.speed@ == "--"@,
        r.eta@ == "--"@,
        r.id == task.id && r.title == task.title && r.status == task.status,
        r.output == task.output && r.profile == task.profile && r.source_url == task.source_url,
{
    TaskRecord { error: Some(notice), speed: "--".to_string(), eta: "--".to_string(), ..task }
}

/// How a download ended.
#[derive(PartialEq, Eq, Structural, Clone, Copy, Debug)]
pub enum FinalStatus {
    Cancelled,
    Done,
    Failed,
}

/// The final state of a task after its last attempt: cancelled when the
/// user cancelled it, done when the last attempt succeeded, failed otherwise
/// (keeping the task's own message, else the attempt's error).
pub fn finish_download(task: TaskRecord, cancelled: bool, result: DownloadAttemptResult) -> (r: (TaskRecord, FinalStatus))
    ensures
        r.0.id == task.id && r.0.title == task.title && r.0.output == task.output,
        r.0.profile == task.profile && r.0.source_url == task.source_url,
        cancelled ==> {
            &&& r.1 == FinalStatus::Cancelled
            &&& r.0.status@ == "cancelled"@
            &&& r.0.error is None
            &&& r.0.speed@ == "--"@
            &&& r.0.eta@ == "--"@
        },
        !cancelled && result.success ==> {
            &&& r.1 == FinalStatus::Done
            &&& r.0.status@ == "done"@
            &&& r.0.error is None
            &&& r.0.speed@ == "--"@
            &&& r.0.eta@ == "00:00"@
        },
        !cancelled && !result.success ==> {
            &&& r.1 == FinalStatus::Failed
            &&& r.0.status@ == "failed"@
            &&& r.0.error == (if task.error is Some { task.error } else { result.error })
            &&& r.0.speed == task.speed
            &&& r.0.eta == task.eta
        },
{
    if cancelled {
        (
            TaskRecord {
                status: "cancelled".to_string(),
                error: None,
                speed: "--".to_string(),
                eta: "--".to_string(),
                ..task
            },
            FinalStatus::Cancelled,
        )
    } else if result.success {
        (
            TaskRecord {
                status: "done".to_string(),
                speed: "--".to_string(),
                eta: "00:00".to_string(),
                error: None,
                ..task
            },
            FinalStatus::Done,
        )
    } else {
        let error = if task.error.is_some() {
            task.error
        } else {
            result.error
        };
        (TaskRecord { status: "failed".to_string(), error, ..task }, FinalStatus::Failed)
    }
}

/// A task cancelled by the user.
pub fn cancel_task_record(task: TaskRecord) -> (r: TaskRecord)
    ensures
        r.status@ == "cancelled"@,
        r.error is None,
        r.id == task.id && r.title == task.title && r.speed == task.speed && r.eta == task.eta,
        r.output == task.output && r.profile == task.profile && r.source_url == task.source_url,
{
    TaskRecord { status: "cancelled".to_string(), error: None, ..task }
}

// ---------------------------------------------------------------------------
// Laws
// ---------------------------------------------------------------------------

/// Each step moves to a later attempt, so a download runs at most four
/// attempts.
pub proof fn law_steps_advance(
    stage: DownloadStage,
    result: DownloadAttemptResult,
    url: Seq<char>,
    auth_mode: Seq<char>,
    language: Seq<char>,
)
    ensures
        next_step(stage, result, url, auth_mode, language) matches Some(n) ==> stage_rank(n.0)
            > stage_rank(stage),
        0 <= stage_rank(stage) <= 3,
{
}

/// The first attempt without cookies runs only for a YouTube link whose
/// request used cookies (the second one only follows the first).
pub proof fn law_no_auth_retry_needs_cookies(
    stage: DownloadStage,
    result: DownloadAttemptResult,
    url: Seq<char>,
    auth_mode: Seq<char>,
    language: Seq<char>,
)
    ensures
        next_step(stage, result, url, auth_mode, language) matches Some(n) && n.0
            == DownloadStage::NoAuthPrimary ==> auth_mode
            != "none"@ && crate::args::is_youtube(url),
{
}

/// A retry with default formats follows only an attempt that failed for a
/// missing format.
pub proof fn law_fallback_needs_missing_format(
    stage: DownloadStage,
    result: DownloadAttemptResult,
    url: Seq<char>,
    auth_mode: Seq<char>,
    language: Seq<char>,
)
    ensures
        next_step(stage, result, url, auth_mode, language) matches Some(n) && (n.0
            == DownloadStage::Fallback || n.0 == DownloadStage::NoAuthFallback) ==> wants_fallback(
            result.error,
        ),
{
}

/// After an attempt with cookies (the first one or the retry with default
/// formats) that did not call for the default formats, the download is
/// retried without cookies exactly when the error calls for it, with the
/// notice that says so; in particular a YouTube download with cookies whose
/// attempts failed for a missing format is retried without cookies.
pub proof fn law_no_cookie_retry_after_cookie_attempts(
    stage: DownloadStage,
    result: DownloadAttemptResult,
    url: Seq<char>,
    auth_mode: Seq<char>,
    language: Seq<char>,
)
    requires
        stage == DownloadStage::Fallback || (stage == DownloadStage::Primary && !(result.error matches Some(m)
            && (has_text(m@, "Requested format is not available"@) || has_text(
            m@,
            "requested format not available"@,
        )))),
    ensures
        retry_without_auth_spec(url, auth_mode, error_text(result.error)) ==> next_step(
            stage,
            result,
            url,
            auth_mode,
            language,
        ) == Some(
            (
                DownloadStage::NoAuthPrimary,
                if english_spec(language) {
                    "Browser-cookie download failed. Retrying without cookies."@
                } else {
                    "浏览器 Cookie 下载失败，正在自动回退到无 Cookie 重试。"@
                },
                false,
            ),
        ),
        !retry_without_auth_spec(url, auth_mode, error_text(result.error)) ==> next_step(
            stage,
            result,
            url,
            auth_mode,
            language,
        ) is None,
        (stage == DownloadStage::Fallback && auth_mode != "none"@ && crate::args::is_youtube(url) && (
        result.error matches Some(m) && has_text(m@, "Requested format is not available"@))) ==> (next_step(
            stage,
            result,
            url,
            auth_mode,
            language,
        ) matches Some(n) && n.0 == DownloadStage::NoAuthPrimary),
{
}

} // verus!
