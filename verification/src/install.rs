//! Installing missing helper programs with Homebrew: the steps that need a
//! tap first, and the messages shown while a formula installs.
use vstd::prelude::*;
use crate::environment::{install_message, install_message_text};
use crate::text::{concat, has_text, is_blank, str_contains, str_equal, trim, trimmed};

verus! {

// ---------------------------------------------------------------------------
// Specifications
// ---------------------------------------------------------------------------

/// The message while a formula installs and nothing new was printed.
pub open spec fn heartbeat_text(last: Seq<char>, label: Seq<char>) -> Seq<char> {
    if has_text(last, "仍在安装"@) {
        last
    } else {
        label + " 仍在安装，请稍候..."@
    }
}

// ---------------------------------------------------------------------------
// Executable functions
// ---------------------------------------------------------------------------

/// Bun's formula needs its tap added first when the tap is not there yet.
pub fn needs_bun_tap(formula: &str, tap_present: bool) -> (r: bool)
    ensures
        r == (formula@ == "oven-sh/bun/bun"@ && !tap_present),
{
    str_equal(formula, "oven-sh/bun/bun") && !tap_present
}

/// The message for a line of Homebrew's output while a formula installs
/// (`spawn_install_output_reader`): nothing for a blank line.
pub fn install_output_line(line: &str, label: &str) -> (r: Option<String>)
    ensures
        is_blank(line@) ==> r is None,
        !is_blank(line@) ==> (r matches Some(m) && m@ == install_message_text(trimmed(line@), label@)),
{
    let trimmed_line = trim(line);
    if trimmed_line.as_str().is_empty() {
        None
    } else {
        Some(install_message(trimmed_line.as_str(), label))
    }
}

/// The message of the heartbeat while a formula installs
/// (`spawn_install_heartbeat`): the last message when it already says the
/// installation goes on, else a new one that says so.
pub fn heartbeat_message(last: &str, label: &str) -> (r: String)
    ensures
        r@ == heartbeat_text(last@, label@),
{
    if str_contains(last, "仍在安装") {
        last.to_string()
    } else {
        concat(label, " 仍在安装，请稍候...")
    }
}

/// `开始安装 {label}...`.
pub fn install_start_message(label: &str) -> (r: String)
    ensures
        r@ == "开始安装 "@ + label@ + "..."@,
{
    let a = concat("开始安装 ", label);
    concat(a.as_str(), "...")
}

/// `{label} 安装完成。`.
pub fn install_done_message(label: &str) -> (r: String)
    ensures
        r@ == label@ + " 安装完成。"@,
{
    concat(label, " 安装完成。")
}

/// `安装失败：{message}`.
pub fn install_failed_message(message: &str) -> (r: String)
    ensures
        r@ == "安装失败："@ + message@,
{
    concat("安装失败：", message)
}

/// `准备 {label} 失败：{error}`: a setup step before an installation failed.
pub fn setup_failed_message(install_label: &str, error: &str) -> (r: String)
    ensures
        r@ == "准备 "@ + install_label@ + " 失败："@ + error@,
{
    let a = concat("准备 ", install_label);
    let b = concat(a.as_str(), " 失败：");
    concat(b.as_str(), error)
}

/// `无法启动 Homebrew {action}：{error}`.
pub fn setup_start_error(action_label: &str, error: &str) -> (r: String)
    ensures
        r@ == "无法启动 Homebrew "@ + action_label@ + "："@ + error@,
{
    let a = concat("无法启动 Homebrew ", action_label);
    let b = concat(a.as_str(), "：");
    concat(b.as_str(), error)
}

/// ``无法启动 Homebrew 安装 `{formula}`：{error}``.
pub fn install_spawn_error(formula: &str, error: &str) -> (r: String)
    ensures
        r@ == "无法启动 Homebrew 安装 `"@ + formula@ + "`："@ + error@,
{
    let a = concat("无法启动 Homebrew 安装 `", formula);
    let b = concat(a.as_str(), "`：");
    concat(b.as_str(), error)
}

/// ``等待 Homebrew 安装 `{formula}` 结束失败：{error}``.
pub fn install_wait_error(formula: &str, error: &str) -> (r: String)
    ensures
        r@ == "等待 Homebrew 安装 `"@ + formula@ + "` 结束失败："@ + error@,
{
    let a = concat("等待 Homebrew 安装 `", formula);
    let b = concat(a.as_str(), "` 结束失败：");
    concat(b.as_str(), error)
}

/// The Homebrew tap that Bun's formula comes from.
pub fn bun_tap_name() -> (r: &'static str)
    ensures
        r@ == "oven-sh/bun"@,
{
    "oven-sh/bun"
}

/// The message while Bun's tap is added.
pub fn bun_tap_message() -> (r: String)
    ensures
        r@ == "正在准备 Bun tap..."@,
{
    "正在准备 Bun tap...".to_string()
}

/// The message before the missing dependencies are installed.
pub fn install_prepare_message() -> (r: String)
    ensures
        r@ == "正在准备安装缺失依赖..."@,
{
    "正在准备安装缺失依赖...".to_string()
}

/// The message once every missing dependency is installed.
pub fn install_all_done_message() -> (r: String)
    ensures
        r@ == "缺失依赖安装完成。"@,
{
    "缺失依赖安装完成。".to_string()
}

/// ``暂不支持自动安装 `{id}` ``: no formula is known for the dependency.
pub fn unsupported_dependency_message(dependency_id: &str) -> (r: String)
    ensures
        r@ == "暂不支持自动安装 `"@ + dependency_id@ + "`"@,
{
    let a = concat("暂不支持自动安装 `", dependency_id);
    concat(a.as_str(), "`")
}

} // verus!
