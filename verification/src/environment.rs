//! The environment check: which helper programs were found, which can be
//! installed with Homebrew, and how an installation's output is read.
use vstd::prelude::*;
use crate::settings::{home_view, recommended_dir, recommended_output_dir};
use crate::text::{
    chars_of, concat, first_nonblank_line, first_nonblank_line_of_text, lossy_decode, has_text, index_of_char, lemma_index_of_char_bound,
    lossy_text, slice_chars, str_contains, str_equal, str_strip_prefix, to_lowercase, trim, trim_chars, trimmed,
    unicode_lowercase, views,
};

verus! {

/// How running a program ended.
pub enum CommandOutcome {
    /// The program could not be started.
    NotStarted,
    /// The program ran; its exit status and output.
    Finished { success: bool, stdout: Vec<u8>, stderr: Vec<u8> },
}

/// What was found out about one helper program.
pub struct BinaryProbe {
    /// Running it with its version flag.
    pub outcome: CommandOutcome,
    /// A copy ships with the application.
    pub bundled: bool,
}

/// Everything the environment check looks at.
pub struct EnvironmentProbes {
    pub brew: CommandOutcome,
    pub yt_dlp: BinaryProbe,
    pub ffmpeg: BinaryProbe,
    pub ffprobe: BinaryProbe,
    pub node: BinaryProbe,
    pub deno: BinaryProbe,
    pub bun: BinaryProbe,
    pub qjs: BinaryProbe,
}

/// One line of the environment check.
#[derive(Debug)]
pub struct EnvironmentCheck {
    pub id: String,
    pub label: String,
    pub status: String,
    pub version: Option<String>,
    pub detail: String,
    pub required: bool,
    pub auto_install_available: bool,
    pub auto_install_label: Option<String>,
    pub manual_install_hint: Option<String>,
}

/// The environment check.
#[derive(Debug)]
pub struct EnvironmentSnapshot {
    pub checks: Vec<EnvironmentCheck>,
    pub recommended_output_dir: String,
    pub note: String,
    pub installer_available: bool,
    pub installer_name: Option<String>,
}

/// The next step of choosing a JavaScript runtime.
pub enum RuntimeProbeStep {
    /// Find out whether this runtime runs, then ask again.
    Probe(&'static str),
    /// This runtime is the one to use.
    Found(&'static str),
    /// None of the runtimes runs.
    NoneFound,
}

// ---------------------------------------------------------------------------
// Specifications
// ---------------------------------------------------------------------------

/// The program ran and succeeded.
pub open spec fn ran_ok(o: CommandOutcome) -> bool {
    o matches CommandOutcome::Finished { success, .. } && success
}

/// The version line of a program that ran: the first readable line of its
/// output, else of its error output, marked when the copy is bundled.
pub open spec fn version_of(o: CommandOutcome, bundled: bool) -> Option<Seq<char>> {
    match o {
        CommandOutcome::Finished { stdout, stderr, .. } => version_of_texts(
            lossy_text(stdout@),
            lossy_text(stderr@),
            bundled,
        ),
        CommandOutcome::NotStarted => None,
    }
}

/// The version line from a program's decoded output and error output.
pub open spec fn version_of_texts(out: Seq<char>, err: Seq<char>, bundled: bool) -> Option<Seq<char>> {
    let line = match first_nonblank_line(out) {
        Some(l) => Some(l),
        None => first_nonblank_line(err),
    };
    match line {
        Some(l) => Some(if bundled { l + "（内置）"@ } else { l }),
        None => None,
    }
}

/// The text of an optional string.
pub open spec fn opt_view(o: Option<String>) -> Option<Seq<char>> {
    match o {
        Some(s) => Some(s@),
        None => None,
    }
}

/// The text of an optional string slice.
pub open spec fn opt_str_view(o: Option<&str>) -> Option<Seq<char>> {
    match o {
        Some(s) => Some(s@),
        None => None,
    }
}

/// `c` is the check line `binary_check` makes for a program.
pub open spec fn is_binary_check(
    c: EnvironmentCheck,
    id: Seq<char>,
    label: Seq<char>,
    required: bool,
    detail: Seq<char>,
    formula: Option<Seq<char>>,
    hint: Option<Seq<char>>,
    probe: BinaryProbe,
) -> bool {
    &&& c.id@ == id
    &&& c.label@ == label
    &&& c.detail@ == detail
    &&& c.required == required
    &&& opt_view(c.auto_install_label) == match formula {
        Some(f) => Some("brew install "@ + f),
        None => None,
    }
    &&& opt_view(c.manual_install_hint) == hint
    &&& if ran_ok(probe.outcome) {
        &&& c.status@ == "ready"@
        &&& opt_view(c.version) == version_of(probe.outcome, probe.bundled)
        &&& !c.auto_install_available
    } else {
        &&& c.status@ == (if required { "missing"@ } else { "warning"@ })
        &&& c.version is None
        &&& c.auto_install_available == formula is Some
    }
}

/// One of the runtimes that solve YouTube's challenges better than Node.js runs.
pub open spec fn stronger_runtime_ready(p: EnvironmentProbes) -> bool {
    ran_ok(p.deno.outcome) || ran_ok(p.bun.outcome) || ran_ok(p.qjs.outcome)
}

/// The version of the first runtime that runs, in the order Node.js, Deno,
/// Bun, QuickJS.
pub open spec fn first_runtime_version(p: EnvironmentProbes) -> Option<Seq<char>> {
    if ran_ok(p.node.outcome) {
        version_of(p.node.outcome, p.node.bundled)
    } else if ran_ok(p.deno.outcome) {
        version_of(p.deno.outcome, p.deno.bundled)
    } else if ran_ok(p.bun.outcome) {
        version_of(p.bun.outcome, p.bun.bundled)
    } else if ran_ok(p.qjs.outcome) {
        version_of(p.qjs.outcome, p.qjs.bundled)
    } else {
        None
    }
}

/// Detail texts of the checks.
pub open spec fn runtime_detail() -> Seq<char> {
    "可作为 YouTube 支持的外部 JavaScript runtime。"@
}

/// The summary line for the JavaScript runtimes.
pub open spec fn is_runtime_check(c: EnvironmentCheck, p: EnvironmentProbes) -> bool {
    &&& c.id@ == "runtime"@
    &&& c.label@ == "JS Runtime"@
    &&& c.status@ == (if stronger_runtime_ready(p) { "ready"@ } else { "warning"@ })
    &&& opt_view(c.version) == first_runtime_version(p)
    &&& c.detail@ == (if stronger_runtime_ready(p) {
        "已检测到 Deno / Bun / QuickJS，可优先用于 YouTube 登录态挑战求解。"@
    } else if ran_ok(p.node.outcome) {
        "当前仅检测到 Node.js。普通解析可用，但 YouTube 登录态在部分链接上仍可能失败，建议补装 Deno 或 Bun。"@
    } else {
        "未检测到 Node.js / Deno / Bun / QuickJS。YouTube 部分能力可能不可用。"@
    })
    &&& !c.required
    &&& !c.auto_install_available
    &&& c.auto_install_label is None
    &&& opt_view(c.manual_install_hint) == Some(
        "建议优先安装 Deno 或 Bun；仅有 Node.js 时，YouTube 登录态解析可能不稳定。"@,
    )
}

/// The Homebrew formula offered for a program, when Homebrew is available.
pub open spec fn offered(brew: bool, formula: Seq<char>) -> Option<Seq<char>> {
    if brew {
        Some(formula)
    } else {
        None
    }
}

/// `s` is the environment check `build_environment_snapshot` makes.
pub open spec fn is_snapshot(s: EnvironmentSnapshot, p: EnvironmentProbes, home: Option<Seq<char>>) -> bool {
    let brew = ran_ok(p.brew);
    &&& s.checks@.len() == 8
    &&& is_binary_check(
        s.checks@[0],
        "yt-dlp"@,
        "yt-dlp"@,
        true,
        "下载内核。缺失时无法解析链接或执行下载。"@,
        offered(brew, "yt-dlp"@),
        Some("手动安装：brew install yt-dlp"@),
        p.yt_dlp,
    )
    &&& is_binary_check(
        s.checks@[1],
        "ffmpeg"@,
        "ffmpeg"@,
        true,
        "音视频合并、转码、封面嵌入依赖 ffmpeg。"@,
        offered(brew, "ffmpeg"@),
        Some("手动安装：brew install ffmpeg"@),
        p.ffmpeg,
    )
    &&& is_binary_check(
        s.checks@[2],
        "ffprobe"@,
        "ffprobe"@,
        false,
        "用于媒体信息探测与部分后处理。"@,
        None,
        None,
        p.ffprobe,
    )
    &&& is_runtime_check(s.checks@[3], p)
    &&& is_binary_check(
        s.checks@[4],
        "node"@,
        "Node.js"@,
        false,
        runtime_detail(),
        offered(brew, "node"@),
        Some("手动安装：brew install node"@),
        p.node,
    )
    &&& is_binary_check(
        s.checks@[5],
        "deno"@,
        "Deno"@,
        false,
        runtime_detail(),
        None,
        Some("手动安装：参考 https://deno.com/"@),
        p.deno,
    )
    &&& is_binary_check(
        s.checks@[6],
        "bun"@,
        "Bun"@,
        false,
        runtime_detail(),
        None,
        Some("手动安装：brew tap oven-sh/bun && brew install oven-sh/bun/bun"@),
        p.bun,
    )
    &&& is_binary_check(
        s.checks@[7],
        "qjs"@,
        "QuickJS"@,
        false,
        "轻量级 JavaScript runtime，可用于 yt-dlp-ejs。"@,
        None,
        None,
        p.qjs,
    )
    &&& s.recommended_output_dir@ == recommended_dir(home)
    &&& s.note@ == (if p.yt_dlp.bundled && p.ffmpeg.bundled && p.ffprobe.bundled {
        "已检测到应用内置下载内核。打包后的桌面版可直接使用，仅在特殊站点场景下可能需要额外运行时。"@
    } else if brew {
        "已检测到 Homebrew。缺失依赖可以直接在首次安装区自动安装。"@
    } else {
        "未检测到 Homebrew。自动安装不可用，请按手动安装提示补齐依赖。"@
    })
    &&& s.installer_available == brew
    &&& opt_view(s.installer_name) == (if brew { Some("Homebrew"@) } else { None })
}

/// Some check has this identifier and satisfies `ready == status is ready`.
pub open spec fn has_check(checks: Seq<EnvironmentCheck>, id: Seq<char>, ready: bool) -> bool {
    exists|i: int| 0 <= i < checks.len() && checks[i].id@ == id && (checks[i].status@ == "ready"@) == ready
}

/// The formulas `install_missing_dependencies` installs, in order.
pub open spec fn missing_formula_list(checks: Seq<EnvironmentCheck>) -> Seq<Seq<char>> {
    let a: Seq<Seq<char>> = if has_check(checks, "yt-dlp"@, false) { seq!["yt-dlp"@] } else { Seq::empty() };
    let b: Seq<Seq<char>> = if has_check(checks, "ffmpeg"@, false) { seq!["ffmpeg"@] } else { Seq::empty() };
    let stronger = has_check(checks, "deno"@, true) || has_check(checks, "bun"@, true) || has_check(
        checks,
        "qjs"@,
        true,
    );
    let c: Seq<Seq<char>> = if stronger { Seq::empty() } else { seq!["oven-sh/bun/bun"@] };
    a + b + c
}

/// The message shown for a line of Homebrew's output.
pub open spec fn install_message_text(line: Seq<char>, label: Seq<char>) -> Seq<char> {
    message_of_line(trimmed(line), unicode_lowercase(trimmed(line)), label)
}

/// The message for a trimmed line of Homebrew's output, given the line
/// lowercased.
pub open spec fn message_of_line(normalized: Seq<char>, lowered: Seq<char>, label: Seq<char>) -> Seq<char> {
    let p = "==>"@;
    if has_text(lowered, "already installed"@) {
        label + " 已安装，正在校验状态。"@
    } else if normalized.len() >= p.len() && normalized.take(p.len() as int) == p && trimmed(
        normalized.skip(p.len() as int),
    ).len() > 0 {
        trimmed(normalized.skip(p.len() as int))
    } else {
        normalized
    }
}

/// How far into installing a formula a line of Homebrew's output is, in
/// hundredths of the step; `None` for lines that say nothing of it.
pub open spec fn install_step_hundredths(line: Seq<char>) -> Option<u32> {
    step_of_lowercase(unicode_lowercase(line))
}

/// `install_step_hundredths` of a line already lowercased.
pub open spec fn step_of_lowercase(n: Seq<char>) -> Option<u32> {
    if has_text(n, "downloading"@) || has_text(n, "fetching"@) || has_text(n, "curl"@) {
        Some(22)
    } else if has_text(n, "installing"@) || has_text(n, "building"@) || has_text(n, "compiling"@) {
        Some(58)
    } else if has_text(n, "pouring"@) || has_text(n, "moving"@) {
        Some(78)
    } else if has_text(n, "linking"@) || has_text(n, "caveats"@) {
        Some(90)
    } else if has_text(n, "summary"@) || has_text(n, "installed"@) || has_text(n, "already installed"@) {
        Some(98)
    } else {
        None
    }
}

/// Some line of `s` (as `str::lines` splits it) is `t` once trimmed.
pub open spec fn some_line_trims_to(s: Seq<char>, t: Seq<char>) -> bool
    decreases s.len(),
{
    if s.len() == 0 {
        false
    } else {
        let k = index_of_char(s, '\n');
        if trimmed(s.take(k as int)) == t {
            true
        } else if k >= s.len() {
            false
        } else {
            proof {
                lemma_index_of_char_bound(s, '\n');
            }
            some_line_trims_to(s.skip(k + 1int), t)
        }
    }
}

/// The runtimes in the order they are preferred.
pub open spec fn runtime_candidates() -> Seq<Seq<char>> {
    seq!["deno"@, "bun"@, "qjs"@, "node"@]
}

/// The first `k` with `k < min(probed.len(), 4)` where the runtime runs, or -1.
pub open spec fn first_available(probed: Seq<bool>, k: int) -> int
    decreases 4 - k,
{
    if k >= 4 || k >= probed.len() {
        -1
    } else if probed[k] {
        k
    } else {
        first_available(probed, k + 1)
    }
}

/// The next step after probing the first runtimes (in preference order).
pub open spec fn runtime_step(probed: Seq<bool>) -> (int, Option<Seq<char>>) {
    let f = first_available(probed, 0);
    if f >= 0 {
        (1, Some(runtime_candidates()[f]))
    } else if probed.len() >= 4 {
        (2, None)
    } else {
        (0, Some(runtime_candidates()[probed.len() as int]))
    }
}

/// The target name of an operating system and architecture.
pub open spec fn target_triple(os: Seq<char>, arch: Seq<char>) -> Seq<char> {
    if os == "macos"@ && arch == "aarch64"@ {
        "aarch64-apple-darwin"@
    } else if os == "macos"@ && arch == "x86_64"@ {
        "x86_64-apple-darwin"@
    } else if os == "windows"@ && arch == "x86_64"@ {
        "x86_64-pc-windows-msvc"@
    } else if os == "windows"@ && arch == "aarch64"@ {
        "aarch64-pc-windows-msvc"@
    } else if os == "linux"@ && arch == "x86_64"@ {
        "x86_64-unknown-linux-gnu"@
    } else if os == "linux"@ && arch == "aarch64"@ {
        "aarch64-unknown-linux-gnu"@
    } else {
        "unsupported-target"@
    }
}

// ---------------------------------------------------------------------------
// Executable functions
// ---------------------------------------------------------------------------

/// `command_exists`: the program ran and succeeded.
pub fn command_exists(outcome: &CommandOutcome) -> (r: bool)
    ensures
        r == ran_ok(*outcome),
{
    match outcome {
        CommandOutcome::Finished { success, .. } => *success,
        CommandOutcome::NotStarted => false,
    }
}

fn opt_string(o: Option<&str>) -> (r: Option<String>)
    ensures
        opt_view(r) == opt_str_view(o),
{
    match o {
        Some(s) => Some(s.to_string()),
        None => None,
    }
}

/// The version line from a program's decoded output and error output: the
/// first non-blank line of the output, else of the error output, marked when
/// the program is the bundled copy.
pub fn version_label(out: &str, err: &str, bundled: bool) -> (r: Option<String>)
    ensures
        opt_view(r) == version_of_texts(out@, err@, bundled),
{
    let line = match first_nonblank_line_of_text(out) {
        Some(l) => Some(l),
        None => first_nonblank_line_of_text(err),
    };
    match line {
        Some(v) => if bundled {
            Some(concat(v.as_str(), "（内置）"))
        } else {
            Some(v)
        },
        None => None,
    }
}

/// `binary_check`: the check line for a program from how running it went.
pub fn binary_check(
    id: &str,
    label: &str,
    required: bool,
    detail: &str,
    auto_install_formula: Option<&str>,
    manual_install_hint: Option<&str>,
    probe: &BinaryProbe,
) -> (r: EnvironmentCheck)
    ensures
        is_binary_check(
            r,
            id@,
            label@,
            required,
            detail@,
            opt_str_view(auto_install_formula),
            opt_str_view(manual_install_hint),
            *probe,
        ),
{
    let auto_install_label = match auto_install_formula {
        Some(f) => Some(concat("brew install ", f)),
        None => None,
    };
    match &probe.outcome {
        CommandOutcome::Finished { success, stdout, stderr } => {
            if *success {
                let out = lossy_decode(stdout.as_slice());
                let err = lossy_decode(stderr.as_slice());
                let version = version_label(out.as_str(), err.as_str(), probe.bundled);
                return EnvironmentCheck {
                    id: id.to_string(),
                    label: label.to_string(),
                    status: "ready".to_string(),
                    version,
                    detail: detail.to_string(),
                    required,
                    auto_install_available: false,
                    auto_install_label,
                    manual_install_hint: opt_string(manual_install_hint),
                };
            }
        },
        CommandOutcome::NotStarted => {},
    }
    EnvironmentCheck {
        id: id.to_string(),
        label: label.to_string(),
        status: if required {
            "missing".to_string()
        } else {
            "warning".to_string()
        },
        version: None,
        detail: detail.to_string(),
        required,
        auto_install_available: auto_install_formula.is_some(),
        auto_install_label,
        manual_install_hint: opt_string(manual_install_hint),
    }
}

fn copy_opt_string(o: &Option<String>) -> (r: Option<String>)
    ensures
        opt_view(r) == opt_view(*o),
{
    match o {
        Some(s) => Some(s.clone()),
        None => None,
    }
}

/// `build_environment_snapshot`: the check lines of all helper programs,
/// the runtime summary, and the note on how to install what is missing.
pub fn build_environment_snapshot(probes: &EnvironmentProbes, home: Option<&str>) -> (r: EnvironmentSnapshot)
    ensures
        is_snapshot(r, *probes, home_view(home)),
{
    let brew_available = command_exists(&probes.brew);
    let bundled_core_ready = probes.yt_dlp.bundled && probes.ffmpeg.bundled && probes.ffprobe.bundled;
    let yt_dlp = binary_check(
        "yt-dlp",
        "yt-dlp",
        true,
        "下载内核。缺失时无法解析链接或执行下载。",
        if brew_available { Some("yt-dlp") } else { None },
        Some("手动安装：brew install yt-dlp"),
        &probes.yt_dlp,
    );
    let ffmpeg = binary_check(
        "ffmpeg",
        "ffmpeg",
        true,
        "音视频合并、转码、封面嵌入依赖 ffmpeg。",
        if brew_available { Some("ffmpeg") } else { None },
        Some("手动安装：brew install ffmpeg"),
        &probes.ffmpeg,
    );
    let ffprobe = binary_check(
        "ffprobe",
        "ffprobe",
        false,
        "用于媒体信息探测与部分后处理。",
        None,
        None,
        &probes.ffprobe,
    );
    let node = binary_check(
        "node",
        "Node.js",
        false,
        "可作为 YouTube 支持的外部 JavaScript runtime。",
        if brew_available { Some("node") } else { None },
        Some("手动安装：brew install node"),
        &probes.node,
    );
    let deno = binary_check(
        "deno",
        "Deno",
        false,
        "可作为 YouTube 支持的外部 JavaScript runtime。",
        None,
        Some("手动安装：参考 https://deno.com/"),
        &probes.deno,
    );
    let bun = binary_check(
        "bun",
        "Bun",
        false,
        "可作为 YouTube 支持的外部 JavaScript runtime。",
        None,
        Some("手动安装：brew tap oven-sh/bun && brew install oven-sh/bun/bun"),
        &probes.bun,
    );
    let qjs = binary_check(
        "qjs",
        "QuickJS",
        false,
        "轻量级 JavaScript runtime，可用于 yt-dlp-ejs。",
        None,
        None,
        &probes.qjs,
    );
    let node_ready = command_exists(&probes.node.outcome);
    let stronger = command_exists(&probes.deno.outcome) || command_exists(&probes.bun.outcome)
        || command_exists(&probes.qjs.outcome);
    let version = if node_ready {
        copy_opt_string(&node.version)
    } else if command_exists(&probes.deno.outcome) {
        copy_opt_string(&deno.version)
    } else if command_exists(&probes.bun.outcome) {
        copy_opt_string(&bun.version)
    } else if command_exists(&probes.qjs.outcome) {
        copy_opt_string(&qjs.version)
    } else {
        None
    };
    let runtime = EnvironmentCheck {
        id: "runtime".to_string(),
        label: "JS Runtime".to_string(),
        status: if stronger {
            "ready".to_string()
        } else {
            "warning".to_string()
        },
        version,
        detail: if stronger {
            "已检测到 Deno / Bun / QuickJS，可优先用于 YouTube 登录态挑战求解。".to_string()
        } else if node_ready {
            "当前仅检测到 Node.js。普通解析可用，但 YouTube 登录态在部分链接上仍可能失败，建议补装 Deno 或 Bun。".to_string()
        } else {
            "未检测到 Node.js / Deno / Bun / QuickJS。YouTube 部分能力可能不可用。".to_string()
        },
        required: false,
        auto_install_available: false,
        auto_install_label: None,
        manual_install_hint: Some(
            "建议优先安装 Deno 或 Bun；仅有 Node.js 时，YouTube 登录态解析可能不稳定。".to_string(),
        ),
    };
    let mut checks: Vec<EnvironmentCheck> = Vec::new();
    checks.push(yt_dlp);
    checks.push(ffmpeg);
    checks.push(ffprobe);
    checks.push(runtime);
    checks.push(node);
    checks.push(deno);
    checks.push(bun);
    checks.push(qjs);
    EnvironmentSnapshot {
        checks,
        recommended_output_dir: recommended_output_dir(home),
        note: if bundled_core_ready {
            "已检测到应用内置下载内核。打包后的桌面版可直接使用，仅在特殊站点场景下可能需要额外运行时。".to_string()
        } else if brew_available {
            "已检测到 Homebrew。缺失依赖可以直接在首次安装区自动安装。".to_string()
        } else {
            "未检测到 Homebrew。自动安装不可用，请按手动安装提示补齐依赖。".to_string()
        },
        installer_available: brew_available,
        installer_name: if brew_available {
            Some("Homebrew".to_string())
        } else {
            None
        },
    }
}

/// Some check has this identifier and the given readiness.
fn any_check(checks: &Vec<EnvironmentCheck>, id: &str, ready: bool) -> (r: bool)
    ensures
        r == has_check(checks@, id@, ready),
{
    let mut i: usize = 0;
    while i < checks.len()
        invariant
            i <= checks.len(),
            forall|k: int|
                0 <= k < i ==> !(checks@[k].id@ == id@ && (checks@[k].status@ == "ready"@) == ready),
        decreases checks.len() - i,
    {
        if str_equal(checks[i].id.as_str(), id) && str_equal(checks[i].status.as_str(), "ready") == ready {
            return true;
        }
        i = i + 1;
    }
    false
}

/// The Homebrew formulas `install_missing_dependencies` installs: yt-dlp and
/// FFmpeg when their checks are not ready, and Bun when no runtime stronger
/// than Node.js is ready.
pub fn missing_formulas(checks: &Vec<EnvironmentCheck>) -> (r: Vec<&'static str>)
    ensures
        r@.map_values(|s: &str| s@) == missing_formula_list(checks@),
{
    proof {
        reveal_strlit("bun");
        reveal_strlit("yt-dlp");
        reveal_strlit("ffmpeg");
        reveal_strlit("node");
        assert("bun"@[0] != "yt-dlp"@[0]);
        assert("bun"@[0] != "ffmpeg"@[0]);
        assert("bun"@[0] != "node"@[0]);
    }
    let mut formulas: Vec<&'static str> = Vec::new();
    if any_check(checks, "yt-dlp", false) {
        formulas.push("yt-dlp");
    }
    if any_check(checks, "ffmpeg", false) {
        formulas.push("ffmpeg");
    }
    let stronger = any_check(checks, "deno", true) || any_check(checks, "bun", true) || any_check(
        checks,
        "qjs",
        true,
    );
    if !stronger {
        let bun = match brew_formula("bun") {
            Some(f) => f,
            None => "oven-sh/bun/bun",
        };
        formulas.push(bun);
    }
    proof {
        reveal_strlit("bun");
        reveal_strlit("yt-dlp");
        reveal_strlit("ffmpeg");
        reveal_strlit("node");
    }
    assert(formulas@.map_values(|s: &str| s@) =~= missing_formula_list(checks@));
    formulas
}

/// `install_message`: what to show for a line of Homebrew's output.
pub fn install_message(line: &str, label: &str) -> (r: String)
    ensures
        r@ == install_message_text(line@, label@),
{
    let normalized = trim(line);
    let lower = to_lowercase(normalized.as_str());
    install_message_from(normalized.as_str(), lower.as_str(), label)
}

/// The message for a trimmed line of Homebrew's output, given the line
/// lowercased.
pub fn install_message_from(normalized: &str, lowered: &str, label: &str) -> (r: String)
    ensures
        r@ == message_of_line(normalized@, lowered@, label@),
{
    if str_contains(lowered, "already installed") {
        return concat(label, " 已安装，正在校验状态。");
    }
    proof {
        reveal_strlit("==>");
    }
    match str_strip_prefix(normalized, "==>") {
        Some(rest) => {
            let t = trim(rest.as_str());
            if t.as_str().is_empty() {
                normalized.to_string()
            } else {
                t
            }
        },
        None => normalized.to_string(),
    }
}

/// How far into installing a formula a line of Homebrew's output is, in
/// hundredths of the step (`install_progress_from_line` before the overall
/// percentage is computed).
pub fn install_step_from_line(line: &str) -> (r: Option<u32>)
    ensures
        r == install_step_hundredths(line@),
{
    let n = to_lowercase(line);
    install_step_from_lowercase(n.as_str())
}

/// `install_step_from_line` for a line already lowercased.
pub fn install_step_from_lowercase(s: &str) -> (r: Option<u32>)
    ensures
        r == step_of_lowercase(s@),
{
    if str_contains(s, "downloading") || str_contains(s, "fetching") || str_contains(s, "curl") {
        Some(22)
    } else if str_contains(s, "installing") || str_contains(s, "building") || str_contains(s, "compiling") {
        Some(58)
    } else if str_contains(s, "pouring") || str_contains(s, "moving") {
        Some(78)
    } else if str_contains(s, "linking") || str_contains(s, "caveats") {
        Some(90)
    } else if str_contains(s, "summary") || str_contains(s, "installed") || str_contains(s, "already installed") {
        Some(98)
    } else {
        None
    }
}

/// `formula_label`: the display name of a formula.
pub fn formula_label(formula: &str) -> (r: &'static str)
    ensures
        r@ == (if formula@ == "yt-dlp"@ {
            "yt-dlp"@
        } else if formula@ == "ffmpeg"@ {
            "FFmpeg"@
        } else if formula@ == "bun"@ || formula@ == "oven-sh/bun/bun"@ {
            "Bun"@
        } else if formula@ == "node"@ {
            "Node.js"@
        } else {
            "依赖项"@
        }),
{
    if str_equal(formula, "yt-dlp") {
        "yt-dlp"
    } else if str_equal(formula, "ffmpeg") {
        "FFmpeg"
    } else if str_equal(formula, "bun") || str_equal(formula, "oven-sh/bun/bun") {
        "Bun"
    } else if str_equal(formula, "node") {
        "Node.js"
    } else {
        "依赖项"
    }
}

/// `brew_formula`: the Homebrew formula of a dependency.
pub fn brew_formula(dependency_id: &str) -> (r: Option<&'static str>)
    ensures
        match r {
            Some(f) => (dependency_id@ == "yt-dlp"@ && f@ == "yt-dlp"@) || (dependency_id@ == "ffmpeg"@
                && f@ == "ffmpeg"@) || (dependency_id@ == "node"@ && f@ == "node"@) || (dependency_id@
                == "bun"@ && f@ == "oven-sh/bun/bun"@),
            None => !(dependency_id@ == "yt-dlp"@ || dependency_id@ == "ffmpeg"@ || dependency_id@
                == "node"@ || dependency_id@ == "bun"@),
        },
{
    if str_equal(dependency_id, "yt-dlp") {
        Some("yt-dlp")
    } else if str_equal(dependency_id, "ffmpeg") {
        Some("ffmpeg")
    } else if str_equal(dependency_id, "node") {
        Some("node")
    } else if str_equal(dependency_id, "bun") {
        Some("oven-sh/bun/bun")
    } else {
        None
    }
}

/// Some line of the text is `t` once trimmed.
/// Some line of `text` (as `str::lines` splits it) is `t` once trimmed.
pub fn text_has_line(text: &str, t: &str) -> (r: bool)
    ensures
        r == some_line_trims_to(text@, t@),
{
    let v = chars_of(text);
    let target = chars_of(t);
    let n = v.len();
    let mut start: usize = 0;
    assert(text@.skip(0) =~= text@);
    while start < n
        invariant
            n == v.len(),
            v@ == text@,
            target@ == t@,
            start <= n,
            some_line_trims_to(text@, t@) == some_line_trims_to(text@.skip(start as int), t@),
        decreases n - start,
    {
        let ghost rest = text@.skip(start as int);
        let mut k: usize = start;
        while k < n && v[k] != '\n'
            invariant
                n == v.len(),
                v@ == text@,
                start <= k <= n,
                forall|j: int| start <= j < k ==> v@[j] != '\n',
            decreases n - k,
        {
            k = k + 1;
        }
        proof {
            lemma_index_of_char_bound(rest, '\n');
            let m = index_of_char(rest, '\n');
            assert(m == k - start) by {
                if m < k - start {
                    assert(rest[m as int] == v@[start + m]);
                } else if m > k - start {
                    assert(rest[k - start] == v@[k as int]);
                }
            }
            assert(rest.take(m as int) =~= v@.subrange(start as int, k as int));
        }
        let line = slice_chars(&v, start, k);
        let tl = trim_chars(&line);
        let ghost m = index_of_char(rest, '\n');
        assert(rest.len() > 0);
        assert(line@ == v@.subrange(start as int, k as int));
        assert(m == k - start);
        assert(rest.take(m as int) == line@);
        assert(tl@ == trimmed(line@));
        if crate::text::chars_equal(&tl, &target) {
            assert(tl@ == t@);
            assert(trimmed(rest.take(m as int)) == t@);
            assert(some_line_trims_to(rest, t@));
            return true;
        }
        if k >= n {
            assert(!some_line_trims_to(rest, t@));
            return false;
        }
        assert(rest.skip(m + 1int) =~= text@.skip(k + 1));
        assert(some_line_trims_to(rest, t@) == some_line_trims_to(rest.skip(m + 1int), t@));
        start = k + 1;
    }
    assert(text@.skip(n as int).len() == 0);
    false
}

/// `tap_exists`: `brew tap` succeeded and listed the tap on a line of its own.
pub fn tap_exists(success: bool, stdout: &[u8], tap: &str) -> (r: bool)
    ensures
        r == (success && some_line_trims_to(lossy_text(stdout@), tap@)),
{
    if !success {
        return false;
    }
    let text = crate::text::lossy_decode(stdout);
    text_has_line(text.as_str(), tap)
}

/// `preferred_js_runtime`, one step at a time: given whether each of the
/// runtimes probed so far (Deno, Bun, QuickJS, Node.js, in this order) runs,
/// the runtime to use, or the next one to probe.
pub fn preferred_js_runtime(probed: &Vec<bool>) -> (r: RuntimeProbeStep)
    ensures
        match r {
            RuntimeProbeStep::Found(c) => runtime_step(probed@) == (1int, Some(c@)),
            RuntimeProbeStep::NoneFound => runtime_step(probed@) == (2int, None::<Seq<char>>),
            RuntimeProbeStep::Probe(c) => runtime_step(probed@) == (0int, Some(c@)),
        },
{
    let names: Vec<&'static str> = vec!["deno", "bun", "qjs", "node"];
    assert(names@.map_values(|s: &str| s@) =~= runtime_candidates());
    let mut k: usize = 0;
    while k < 4 && k < probed.len()
        invariant
            k <= 4,
            k <= probed.len(),
            names@.map_values(|s: &str| s@) == runtime_candidates(),
            names@.len() == 4,
            first_available(probed@, 0) == first_available(probed@, k as int),
        decreases 4 - k,
    {
        if probed[k] {
            assert(names@.map_values(|s: &str| s@)[k as int] == names@[k as int]@);
            return RuntimeProbeStep::Found(names[k]);
        }
        k = k + 1;
    }
    if probed.len() >= 4 {
        RuntimeProbeStep::NoneFound
    } else {
        assert(names@.map_values(|s: &str| s@)[probed.len() as int] == names@[probed.len() as int]@);
        RuntimeProbeStep::Probe(names[probed.len()])
    }
}

/// FFmpeg's programs are the ones that need the bundled libraries on their
/// library path (`apply_binary_runtime_env`).
pub fn uses_ffmpeg_libraries(binary: &str) -> (r: bool)
    ensures
        r == (binary@ == "ffmpeg"@ || binary@ == "ffprobe"@),
{
    str_equal(binary, "ffmpeg") || str_equal(binary, "ffprobe")
}

/// The message when Homebrew is not installed.
pub fn homebrew_missing_message() -> (r: String)
    ensures
        r@ == "未检测到 Homebrew。请先手动安装 Homebrew，再按提示安装缺失依赖。"@,
{
    "未检测到 Homebrew。请先手动安装 Homebrew，再按提示安装缺失依赖。".to_string()
}

/// `current_target_triple`, for the operating system and architecture names
/// of `std::env::consts`.
pub fn current_target_triple(os: &str, arch: &str) -> (r: &'static str)
    ensures
        r@ == target_triple(os@, arch@),
{
    if str_equal(os, "macos") && str_equal(arch, "aarch64") {
        "aarch64-apple-darwin"
    } else if str_equal(os, "macos") && str_equal(arch, "x86_64") {
        "x86_64-apple-darwin"
    } else if str_equal(os, "windows") && str_equal(arch, "x86_64") {
        "x86_64-pc-windows-msvc"
    } else if str_equal(os, "windows") && str_equal(arch, "aarch64") {
        "aarch64-pc-windows-msvc"
    } else if str_equal(os, "linux") && str_equal(arch, "x86_64") {
        "x86_64-unknown-linux-gnu"
    } else if str_equal(os, "linux") && str_equal(arch, "aarch64") {
        "aarch64-unknown-linux-gnu"
    } else {
        "unsupported-target"
    }
}

/// `ffmpeg_resource_dir_name`: the directory of the bundled FFmpeg libraries.
pub fn ffmpeg_resource_dir_name(target_triple: &str) -> (r: String)
    ensures
        r@ == (if target_triple@ == "x86_64-apple-darwin"@ {
            "ffmpeg-libs-x86_64-apple-darwin"@
        } else {
            "ffmpeg-libs"@
        }),
{
    if str_equal(target_triple, "x86_64-apple-darwin") {
        "ffmpeg-libs-x86_64-apple-darwin".to_string()
    } else {
        "ffmpeg-libs".to_string()
    }
}

/// `bundled_binary_name`: the file name of a bundled program.
pub fn bundled_binary_name(binary: &str, windows: bool) -> (r: String)
    ensures
        r@ == (if windows { binary@ + ".exe"@ } else { binary@ }),
{
    if windows {
        concat(binary, ".exe")
    } else {
        binary.to_string()
    }
}

/// `dev_binary_name`: the file name of a program in the development tree.
pub fn dev_binary_name(binary: &str, target_triple: &str, windows: bool) -> (r: String)
    ensures
        r@ == (if windows {
            binary@ + "-"@ + target_triple@ + ".exe"@
        } else {
            binary@ + "-"@ + target_triple@
        }),
{
    let a = concat(binary, "-");
    let b = concat(a.as_str(), target_triple);
    if windows {
        concat(b.as_str(), ".exe")
    } else {
        b
    }
}

/// The first candidate that exists (`resolve_binary_path` and
/// `resolve_ffmpeg_library_dir` after each candidate was looked up).
pub open spec fn first_present(candidates: Seq<String>, present: Seq<bool>, k: int) -> Option<Seq<char>>
    decreases candidates.len() - k,
{
    if k < 0 || k >= candidates.len() || k >= present.len() {
        None
    } else if present[k] {
        Some(candidates[k]@)
    } else {
        first_present(candidates, present, k + 1)
    }
}

fn first_present_path(candidates: &Vec<String>, present: &Vec<bool>) -> (r: Option<String>)
    ensures
        opt_view(r) == first_present(candidates@, present@, 0),
{
    let mut i: usize = 0;
    while i < candidates.len() && i < present.len()
        invariant
            i <= candidates.len(),
            first_present(candidates@, present@, 0) == first_present(candidates@, present@, i as int),
        decreases candidates.len() - i,
    {
        if present[i] {
            return Some(candidates[i].clone());
        }
        i = i + 1;
    }
    None
}

/// `resolve_binary_path`: the first candidate path that is a file.
pub fn resolve_binary_path(candidates: &Vec<String>, is_file: &Vec<bool>) -> (r: Option<String>)
    ensures
        opt_view(r) == first_present(candidates@, is_file@, 0),
{
    first_present_path(candidates, is_file)
}

/// `resolve_ffmpeg_library_dir`: the first candidate path that is a directory.
pub fn resolve_ffmpeg_library_dir(candidates: &Vec<String>, is_dir: &Vec<bool>) -> (r: Option<String>)
    ensures
        opt_view(r) == first_present(candidates@, is_dir@, 0),
{
    first_present_path(candidates, is_dir)
}

// ---------------------------------------------------------------------------
// Laws
// ---------------------------------------------------------------------------

/// Asking step by step with the answers for all four runtimes in turn
/// settles on the first one that runs (Deno, Bun, QuickJS, Node.js), and
/// never probes a runtime after one was found.
pub proof fn law_runtime_choice(answers: Seq<bool>, k: int)
    requires
        answers.len() == 4,
        0 <= k <= 4,
    ensures
        (forall|j: int| 0 <= j < k ==> !answers[j]) ==> if k < 4 {
            runtime_step(answers.take(k)) == (0int, Some(runtime_candidates()[k]))
        } else {
            runtime_step(answers) == (2int, None::<Seq<char>>)
        },
        0 <= k < 4 && answers[k] && (forall|j: int| 0 <= j < k ==> !answers[j]) ==> runtime_step(
            answers.take(k + 1),
        ) == (1int, Some(runtime_candidates()[k])),
{
    assert forall|m: int, j: int| 0 <= j <= m <= 4 && (forall|i: int| 0 <= i < m ==> !answers[i])
        implies first_available(answers.take(m), j) == -1 by {
        lemma_first_available_none(answers.take(m), j);
    }
    if 0 <= k < 4 && answers[k] && (forall|j: int| 0 <= j < k ==> !answers[j]) {
        lemma_first_available_at(answers.take(k + 1), k);
    }
    assert(answers.take(4) =~= answers);
}

proof fn lemma_first_available_none(p: Seq<bool>, j: int)
    requires
        0 <= j,
        forall|i: int| 0 <= i < p.len() ==> !p[i],
    ensures
        first_available(p, j) == -1,
    decreases 4 - j,
{
    if j >= 4 || j >= p.len() {
    } else {
        lemma_first_available_none(p, j + 1);
    }
}

proof fn lemma_first_available_at(p: Seq<bool>, k: int)
    requires
        0 <= k < 4,
        k < p.len(),
        p[k],
        forall|i: int| 0 <= i < k ==> !p[i],
    ensures
        first_available(p, 0) == k,
{
    assert forall|j: int| 0 <= j <= k implies first_available(p, j) == k by {
        lemma_first_available_from(p, j, k);
    }
}

proof fn lemma_first_available_from(p: Seq<bool>, j: int, k: int)
    requires
        0 <= j <= k < 4,
        k < p.len(),
        p[k],
        forall|i: int| 0 <= i < k ==> !p[i],
    ensures
        first_available(p, j) == k,
    decreases k - j,
{
    if j < k {
        lemma_first_available_from(p, j + 1, k);
    }
}

/// The summary line of the JavaScript runtimes is ready exactly when Deno,
/// Bun or QuickJS ran; it then says so, and otherwise it says whether only
/// Node.js was found or none at all. Each runtime's own line is ready exactly
/// when that runtime ran.
pub proof fn law_runtime_line(s: EnvironmentSnapshot, p: EnvironmentProbes, home: Option<Seq<char>>)
    requires
        is_snapshot(s, p, home),
    ensures
        s.checks@[3].id@ == "runtime"@,
        (ran_ok(p.deno.outcome) || ran_ok(p.bun.outcome) || ran_ok(p.qjs.outcome)) ==> {
            &&& s.checks@[3].status@ == "ready"@
            &&& s.checks@[3].detail@ == "已检测到 Deno / Bun / QuickJS，可优先用于 YouTube 登录态挑战求解。"@
        },
        !(ran_ok(p.deno.outcome) || ran_ok(p.bun.outcome) || ran_ok(p.qjs.outcome)) ==> {
            &&& s.checks@[3].status@ == "warning"@
            &&& s.checks@[3].detail@ == (if ran_ok(p.node.outcome) {
                "当前仅检测到 Node.js。普通解析可用，但 YouTube 登录态在部分链接上仍可能失败，建议补装 Deno 或 Bun。"@
            } else {
                "未检测到 Node.js / Deno / Bun / QuickJS。YouTube 部分能力可能不可用。"@
            })
        },
        s.checks@[4].id@ == "node"@ && (s.checks@[4].status@ == "ready"@ <==> ran_ok(p.node.outcome)),
        s.checks@[5].id@ == "deno"@ && (s.checks@[5].status@ == "ready"@ <==> ran_ok(p.deno.outcome)),
        s.checks@[6].id@ == "bun"@ && (s.checks@[6].status@ == "ready"@ <==> ran_ok(p.bun.outcome)),
        s.checks@[7].id@ == "qjs"@ && (s.checks@[7].status@ == "ready"@ <==> ran_ok(p.qjs.outcome)),
{
    reveal_strlit("ready");
    reveal_strlit("warning");
    assert("ready"@[0] != "warning"@[0]);
}

/// Bun's formula is installed exactly when no check of Deno, Bun or QuickJS
/// is ready, yt-dlp's exactly when some yt-dlp check is not ready, and
/// FFmpeg's exactly when some FFmpeg check is not ready.
pub proof fn law_missing_formulas(checks: Seq<EnvironmentCheck>)
    ensures
        missing_formula_list(checks).contains("oven-sh/bun/bun"@) <==> !exists|i: int|
            0 <= i < checks.len() && (checks[i].id@ == "deno"@ || checks[i].id@ == "bun"@ || checks[i].id@
                == "qjs"@) && checks[i].status@ == "ready"@,
        missing_formula_list(checks).contains("yt-dlp"@) <==> exists|i: int|
            0 <= i < checks.len() && checks[i].id@ == "yt-dlp"@ && checks[i].status@ != "ready"@,
        missing_formula_list(checks).contains("ffmpeg"@) <==> exists|i: int|
            0 <= i < checks.len() && checks[i].id@ == "ffmpeg"@ && checks[i].status@ != "ready"@,
{
    reveal_strlit("oven-sh/bun/bun");
    reveal_strlit("yt-dlp");
    reveal_strlit("ffmpeg");
    assert("oven-sh/bun/bun"@[0] != "yt-dlp"@[0]);
    assert("oven-sh/bun/bun"@[0] != "ffmpeg"@[0]);
    assert("yt-dlp"@[0] != "ffmpeg"@[0]);
    let l = missing_formula_list(checks);
    let stronger = exists|i: int|
        0 <= i < checks.len() && (checks[i].id@ == "deno"@ || checks[i].id@ == "bun"@ || checks[i].id@ == "qjs"@)
            && checks[i].status@ == "ready"@;
    if stronger {
        let i = choose|i: int|
            0 <= i < checks.len() && (checks[i].id@ == "deno"@ || checks[i].id@ == "bun"@ || checks[i].id@
                == "qjs"@) && checks[i].status@ == "ready"@;
        if checks[i].id@ == "deno"@ {
            assert(has_check(checks, "deno"@, true));
        } else if checks[i].id@ == "bun"@ {
            assert(has_check(checks, "bun"@, true));
        } else {
            assert(has_check(checks, "qjs"@, true));
        }
    }
    if l.contains("yt-dlp"@) {
        let k = choose|k: int| 0 <= k < l.len() && l[k] == "yt-dlp"@;
        assert(has_check(checks, "yt-dlp"@, false));
    }
    if l.contains("ffmpeg"@) {
        let k = choose|k: int| 0 <= k < l.len() && l[k] == "ffmpeg"@;
        assert(has_check(checks, "ffmpeg"@, false));
    }
    if has_check(checks, "yt-dlp"@, false) {
        assert(l[0] == "yt-dlp"@);
    }
    if has_check(checks, "ffmpeg"@, false) {
        let k = if has_check(checks, "yt-dlp"@, false) { 1int } else { 0int };
        assert(l[k] == "ffmpeg"@);
    }
    if !stronger {
        assert(l[l.len() - 1] == "oven-sh/bun/bun"@);
    }
    if l.contains("oven-sh/bun/bun"@) {
        let k = choose|k: int| 0 <= k < l.len() && l[k] == "oven-sh/bun/bun"@;
        if stronger {
            assert(l.len() <= 2);
        }
    }
}

/// A snapshot where Bun (or Deno, or QuickJS) runs leads to no installation
/// of Bun.
pub proof fn law_ready_runtime_not_reinstalled(s: EnvironmentSnapshot, p: EnvironmentProbes, home: Option<Seq<char>>)
    requires
        is_snapshot(s, p, home),
        ran_ok(p.deno.outcome) || ran_ok(p.bun.outcome) || ran_ok(p.qjs.outcome),
    ensures
        !missing_formula_list(s.checks@).contains("oven-sh/bun/bun"@),
{
    law_runtime_line(s, p, home);
    law_missing_formulas(s.checks@);
    if ran_ok(p.deno.outcome) {
        assert(s.checks@[5].id@ == "deno"@ && s.checks@[5].status@ == "ready"@);
    } else if ran_ok(p.bun.outcome) {
        assert(s.checks@[6].id@ == "bun"@ && s.checks@[6].status@ == "ready"@);
    } else {
        assert(s.checks@[7].id@ == "qjs"@ && s.checks@[7].status@ == "ready"@);
    }
}

} // verus!
