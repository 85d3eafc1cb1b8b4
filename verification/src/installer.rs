//! The decisions of the installer: which installation runs on which
//! system, what each outcome is reported as, and the steps of the install
//! scripts and of the configuration set-up.
use vstd::prelude::*;
use crate::environment::{platform_of, platform_spec, Platform};
use crate::model::{result_is, InstallResult, UpdateInfo};
use crate::text::{append_str, concat2, concat3, str_eq};
use crate::version::{compare_versions, opt_view, update_available};

verus! {

broadcast use vstd::string::group_string_axioms;

/// The result for a step that ran: success with `ok_message`, or failure
/// with `fail_message` and what went wrong.
fn ran_result(run: Result<String, String>, ok_message: String, fail_message: &str) -> (r: InstallResult)
    ensures
        match run {
            Ok(_) => result_is(r, true, ok_message@, None),
            Err(e) => result_is(r, false, fail_message@, Some(e@)),
        },
{
    match run {
        Ok(_) => InstallResult::succeeded(ok_message),
        Err(e) => InstallResult::failed(String::from_str(fail_message), Some(e)),
    }
}

/// `prefix` followed by what a step printed, when it ran.
fn with_output(run: &Result<String, String>, prefix: &str) -> (r: String)
    ensures
        run matches Ok(o) ==> r@ == prefix@ + o@,
{
    match run {
        Ok(o) => concat2(prefix, o.as_str()),
        Err(_) => String::from_str(prefix),
    }
}

// ---------------------------------------------------------------------------
// Installing Node.js
// ---------------------------------------------------------------------------

/// The result on a system that no installer supports.
pub open spec fn unsupported_os(r: InstallResult, os: Seq<char>) -> bool {
    result_is(r, false, "不支持的操作系统"@, Some("不支持的操作系统: "@ + os))
}

/// Which installer installs Node.js on the system named `os`: the Windows,
/// macOS (Homebrew) or Linux (NodeSource) one; on any other system none, and
/// the result that says so.
pub fn install_nodejs(os: &str) -> (r: Result<Platform, InstallResult>)
    ensures
        match platform_spec(os@) {
            Platform::Other => r is Err && unsupported_os(r->Err_0, os@),
            p => r == Ok::<Platform, InstallResult>(p),
        },
{
    match platform_of(os) {
        Platform::Other => Err(
            InstallResult::failed(
                String::from_str("不支持的操作系统"),
                Some(concat2("不支持的操作系统: ", os)),
            ),
        ),
        p => Ok(p),
    }
}

/// The result of installing Node.js on Windows, from the installer's run
/// and whether Node.js was found after it.
pub fn install_nodejs_windows(run: Result<String, String>, node_found: bool) -> (r: InstallResult)
    ensures
        match run {
            Ok(o) => if node_found {
                result_is(r, true, "Node.js 安装成功！请重启应用以使环境变量生效。"@, None)
            } else {
                result_is(r, false, "安装后需要重启应用"@, Some(o@))
            },
            Err(e) => result_is(r, false, "Node.js 安装失败"@, Some(e@)),
        },
{
    match run {
        Ok(o) => if node_found {
            InstallResult::succeeded(String::from_str("Node.js 安装成功！请重启应用以使环境变量生效。"))
        } else {
            InstallResult::failed(String::from_str("安装后需要重启应用"), Some(o))
        },
        Err(e) => InstallResult::failed(String::from_str("Node.js 安装失败"), Some(e)),
    }
}

/// The result of installing Node.js with the macOS or the Linux script: a
/// success that shows what the script printed, or the failure.
pub fn install_nodejs_unix(run: Result<String, String>) -> (r: InstallResult)
    ensures
        match run {
            Ok(o) => result_is(r, true, "Node.js 安装成功！"@ + o@, None),
            Err(e) => result_is(r, false, "Node.js 安装失败"@, Some(e@)),
        },
{
    let msg = with_output(&run, "Node.js 安装成功！");
    ran_result(run, msg, "Node.js 安装失败")
}

// ---------------------------------------------------------------------------
// Installing, removing and updating OpenClaw
// ---------------------------------------------------------------------------

/// The result of installing OpenClaw on Windows, from the script's run and
/// whether OpenClaw was found after it.
pub fn install_openclaw_windows(run: Result<String, String>, openclaw_found: bool) -> (r: InstallResult)
    ensures
        match run {
            Ok(o) => if openclaw_found {
                result_is(r, true, "OpenClaw 安装成功！"@, None)
            } else {
                result_is(r, false, "安装后需要重启应用"@, Some(o@))
            },
            Err(e) => result_is(r, false, "OpenClaw 安装失败"@, Some(e@)),
        },
{
    match run {
        Ok(o) => if openclaw_found {
            InstallResult::succeeded(String::from_str("OpenClaw 安装成功！"))
        } else {
            InstallResult::failed(String::from_str("安装后需要重启应用"), Some(o))
        },
        Err(e) => InstallResult::failed(String::from_str("OpenClaw 安装失败"), Some(e)),
    }
}

/// The result of installing OpenClaw with npm on macOS or Linux.
pub fn install_openclaw_unix(run: Result<String, String>) -> (r: InstallResult)
    ensures
        match run {
            Ok(o) => result_is(r, true, "OpenClaw 安装成功！"@ + o@, None),
            Err(e) => result_is(r, false, "OpenClaw 安装失败"@, Some(e@)),
        },
{
    let msg = with_output(&run, "OpenClaw 安装成功！");
    ran_result(run, msg, "OpenClaw 安装失败")
}

/// The result of removing OpenClaw on Windows, from `npm uninstall`'s run
/// and whether OpenClaw was still found after it.
pub fn uninstall_openclaw_windows(run: Result<String, String>, still_installed: bool) -> (r: InstallResult)
    ensures
        match run {
            Ok(o) => if !still_installed {
                result_is(r, true, "OpenClaw 已成功卸载！"@, None)
            } else {
                result_is(r, false, "卸载命令已执行，但 OpenClaw 仍然存在，请尝试手动卸载"@, Some(o@))
            },
            Err(e) => result_is(r, false, "OpenClaw 卸载失败"@, Some(e@)),
        },
{
    match run {
        Ok(o) => if !still_installed {
            InstallResult::succeeded(String::from_str("OpenClaw 已成功卸载！"))
        } else {
            InstallResult::failed(
                String::from_str("卸载命令已执行，但 OpenClaw 仍然存在，请尝试手动卸载"),
                Some(o),
            )
        },
        Err(e) => InstallResult::failed(String::from_str("OpenClaw 卸载失败"), Some(e)),
    }
}

/// The result of removing OpenClaw with npm on macOS or Linux.
pub fn uninstall_openclaw_unix(run: Result<String, String>) -> (r: InstallResult)
    ensures
        match run {
            Ok(o) => result_is(r, true, "OpenClaw 已成功卸载！"@ + o@, None),
            Err(e) => result_is(r, false, "OpenClaw 卸载失败"@, Some(e@)),
        },
{
    let msg = with_output(&run, "OpenClaw 已成功卸载！");
    ran_result(run, msg, "OpenClaw 卸载失败")
}

/// The result of `openclaw update` on Windows, naming the version found
/// after it (or "the latest version" when none was found).
pub fn update_openclaw_windows(run: Result<String, String>, new_version: Option<String>) -> (r: InstallResult)
    ensures
        match run {
            Ok(_) => result_is(
                r,
                true,
                "OpenClaw 已更新到 "@ + match new_version {
                    Some(v) => v@,
                    None => "最新版本"@,
                },
                None,
            ),
            Err(e) => result_is(r, false, "OpenClaw 更新失败"@, Some(e@)),
        },
{
    let msg = match &new_version {
        Some(v) => concat2("OpenClaw 已更新到 ", v.as_str()),
        None => concat2("OpenClaw 已更新到 ", "最新版本"),
    };
    ran_result(run, msg, "OpenClaw 更新失败")
}

/// The result of `openclaw update` on macOS or Linux.
pub fn update_openclaw_unix(run: Result<String, String>) -> (r: InstallResult)
    ensures
        match run {
            Ok(o) => result_is(r, true, "OpenClaw 已更新！"@ + o@, None),
            Err(e) => result_is(r, false, "OpenClaw 更新失败"@, Some(e@)),
        },
{
    let msg = with_output(&run, "OpenClaw 已更新！");
    ran_result(run, msg, "OpenClaw 更新失败")
}

// ---------------------------------------------------------------------------
// Checking for an update
// ---------------------------------------------------------------------------

/// What the update check reports, from the installed version (`None` when
/// OpenClaw is not installed) and the registry's newest version (`None` when
/// it could not be had; it is only asked for when OpenClaw is installed).
pub fn check_openclaw_update(current_version: Option<String>, latest_version: Option<String>) -> (r: Result<UpdateInfo, String>)
    ensures
        r is Ok,
        r matches Ok(info) && match (current_version, latest_version) {
            (None, _) => !info.update_available && info.current_version is None
                && info.latest_version is None && opt_view(info.error) == Some(
                "OpenClaw 未安装"@,
            ),
            (Some(c), None) => !info.update_available && opt_view(info.current_version) == Some(c@)
                && info.latest_version is None && opt_view(info.error) == Some(
                "无法获取最新版本信息"@,
            ),
            (Some(c), Some(l)) => info.update_available == update_available(c@, l@) && opt_view(
                info.current_version,
            ) == Some(c@) && opt_view(info.latest_version) == Some(l@) && info.error is None,
        },
{
    match (&current_version, &latest_version) {
        (None, _) => Ok(
            UpdateInfo {
                update_available: false,
                current_version: None,
                latest_version: None,
                error: Some(String::from_str("OpenClaw 未安装")),
            },
        ),
        (Some(_), None) => Ok(
            UpdateInfo {
                update_available: false,
                current_version,
                latest_version: None,
                error: Some(String::from_str("无法获取最新版本信息")),
            },
        ),
        (Some(c), Some(l)) => {
            let update_available = compare_versions(c.as_str(), l.as_str());
            Ok(UpdateInfo { update_available, current_version, latest_version, error: None })
        },
    }
}

// ---------------------------------------------------------------------------
// Opening an install terminal
// ---------------------------------------------------------------------------

/// What an install terminal installs.
#[derive(Debug, Clone, Copy, PartialEq, Eq, Structural)]
pub enum TerminalInstall {
    NodeJs,
    OpenClaw,
}

/// Which install terminal the request `install_type` opens: `nodejs` or
/// `openclaw`; any other request is refused.
pub fn open_install_terminal(install_type: &str) -> (r: Result<TerminalInstall, String>)
    ensures
        if install_type@ == "nodejs"@ {
            r == Ok::<TerminalInstall, String>(TerminalInstall::NodeJs)
        } else if install_type@ == "openclaw"@ {
            r == Ok::<TerminalInstall, String>(TerminalInstall::OpenClaw)
        } else {
            r matches Err(e) && e@ == "未知的安装类型: "@ + install_type@
        },
{
    if str_eq(install_type, "nodejs") {
        Ok(TerminalInstall::NodeJs)
    } else if str_eq(install_type, "openclaw") {
        Ok(TerminalInstall::OpenClaw)
    } else {
        Err(concat2("未知的安装类型: ", install_type))
    }
}

// ---------------------------------------------------------------------------
// The install scripts shipped with the manager
// ---------------------------------------------------------------------------

/// The jobs that run a script shipped with the manager.
#[derive(Debug, Clone, Copy, PartialEq, Eq, Structural)]
pub enum ScriptJob {
    /// Install Git (Windows).
    GitBat,
    /// Install Node.js (Windows).
    NodejsBat,
    /// Deploy Git, Node.js, the C++ runtime and OpenClaw (Windows, macOS).
    DeployAll,
    /// Remove all of them (Windows, macOS).
    CleanupAll,
}

/// The kind of a shipped script.
#[derive(Debug, Clone, Copy, PartialEq, Eq, Structural)]
pub enum ScriptKind {
    /// A batch file, started elevated through PowerShell.
    Bat,
    /// A shell script, run with bash.
    Sh,
}

/// What to do first for a job.
#[derive(Debug, Clone)]
pub enum ScriptStart {
    /// Find the script with this file name (see `script_file_candidates`).
    Locate { file: String, kind: ScriptKind },
    /// Nothing to run: the job is over with this result.
    Finish(InstallResult),
}

/// What to do once the script has been looked for.
#[derive(Debug, Clone)]
pub enum ScriptNext {
    /// Run this PowerShell script.
    RunPowerShell(String),
    /// Run this bash command.
    RunBash(String),
    /// Nothing to run: the job is over with this result.
    Finish(InstallResult),
}

/// The script of a job on a platform that has one.
pub open spec fn script_file(job: ScriptJob, kind: ScriptKind) -> Seq<char> {
    match (job, kind) {
        (ScriptJob::GitBat, _) => "setup-git-1.0.0.bat"@,
        (ScriptJob::NodejsBat, _) => "setup-nodejs-1.0.0.bat"@,
        (ScriptJob::DeployAll, ScriptKind::Bat) => "install-all.bat"@,
        (ScriptJob::DeployAll, ScriptKind::Sh) => "install-all-macos.sh"@,
        (ScriptJob::CleanupAll, ScriptKind::Bat) => "uninstall-all.bat"@,
        (ScriptJob::CleanupAll, ScriptKind::Sh) => "uninstall-all-macos.sh"@,
    }
}

/// Whether a job runs only on Windows.
pub open spec fn windows_only(job: ScriptJob) -> bool {
    job == ScriptJob::GitBat || job == ScriptJob::NodejsBat
}

/// What to do first for `job` on the system named `os`: find its batch file
/// on Windows, its shell script on macOS for the jobs that have one; on any
/// other system report that the job is not supported there.
pub fn script_job_start(job: ScriptJob, os: &str) -> (r: ScriptStart)
    ensures
        match platform_spec(os@) {
            Platform::Windows => r matches ScriptStart::Locate { file, kind } && kind
                == ScriptKind::Bat && file@ == script_file(job, ScriptKind::Bat),
            Platform::MacOs => if windows_only(job) {
                r matches ScriptStart::Finish(res) && result_is(
                    res,
                    false,
                    "此功能仅支持 Windows 系统"@,
                    Some("仅支持 Windows 系统"@),
                )
            } else {
                r matches ScriptStart::Locate { file, kind } && kind == ScriptKind::Sh && file@
                    == script_file(job, ScriptKind::Sh)
            },
            _ => if windows_only(job) {
                r matches ScriptStart::Finish(res) && result_is(
                    res,
                    false,
                    "此功能仅支持 Windows 系统"@,
                    Some("仅支持 Windows 系统"@),
                )
            } else {
                r matches ScriptStart::Finish(res) && result_is(
                    res,
                    false,
                    "此功能仅支持 Windows 和 macOS 系统"@,
                    Some("仅支持 Windows 和 macOS 系统"@),
                )
            },
        },
{
    let p = platform_of(os);
    let windows_only = job == ScriptJob::GitBat || job == ScriptJob::NodejsBat;
    match p {
        Platform::Windows => {
            let file = match job {
                ScriptJob::GitBat => String::from_str("setup-git-1.0.0.bat"),
                ScriptJob::NodejsBat => String::from_str("setup-nodejs-1.0.0.bat"),
                ScriptJob::DeployAll => String::from_str("install-all.bat"),
                ScriptJob::CleanupAll => String::from_str("uninstall-all.bat"),
            };
            ScriptStart::Locate { file, kind: ScriptKind::Bat }
        },
        Platform::MacOs if !windows_only => {
            let file = match job {
                ScriptJob::DeployAll => String::from_str("install-all-macos.sh"),
                _ => String::from_str("uninstall-all-macos.sh"),
            };
            ScriptStart::Locate { file, kind: ScriptKind::Sh }
        },
        _ => if windows_only {
            ScriptStart::Finish(
                InstallResult::failed(
                    String::from_str("此功能仅支持 Windows 系统"),
                    Some(String::from_str("仅支持 Windows 系统")),
                ),
            )
        } else {
            ScriptStart::Finish(
                InstallResult::failed(
                    String::from_str("此功能仅支持 Windows 和 macOS 系统"),
                    Some(String::from_str("仅支持 Windows 和 macOS 系统")),
                ),
            )
        },
    }
}

/// The message when a job's script cannot be found.
pub open spec fn missing_script_message(job: ScriptJob) -> Seq<char> {
    if job == ScriptJob::CleanupAll {
        "找不到卸载脚本"@
    } else {
        "找不到安装脚本"@
    }
}

/// The PowerShell command that starts a batch file elevated and waits.
pub open spec fn elevated_start(path: Seq<char>) -> Seq<char> {
    "Start-Process -FilePath '"@ + path + "' -Verb RunAs -Wait"@
}

/// The bash command that makes a shell script executable and runs it.
pub open spec fn bash_run(path: Seq<char>) -> Seq<char> {
    "chmod +x '"@ + path + "' && bash '"@ + path + "'"@
}

/// What to do once the script of `job` has been looked for: report it
/// missing, or run it at `path`.
pub fn script_job_located(job: ScriptJob, kind: ScriptKind, path: &str, exists: bool) -> (r: ScriptNext)
    ensures
        !exists ==> (r matches ScriptNext::Finish(res) && result_is(
            res,
            false,
            missing_script_message(job),
            Some("文件不存在: "@ + path@),
        )),
        exists && kind == ScriptKind::Bat ==> (r matches ScriptNext::RunPowerShell(s) && s@
            == elevated_start(path@)),
        exists && kind == ScriptKind::Sh ==> (r matches ScriptNext::RunBash(s) && s@ == bash_run(
            path@,
        )),
{
    if !exists {
        let message = if job == ScriptJob::CleanupAll {
            String::from_str("找不到卸载脚本")
        } else {
            String::from_str("找不到安装脚本")
        };
        return ScriptNext::Finish(
            InstallResult::failed(message, Some(concat2("文件不存在: ", path))),
        );
    }
    match kind {
        ScriptKind::Bat => {
            let s = concat3("Start-Process -FilePath '", path, "' -Verb RunAs -Wait");
            ScriptNext::RunPowerShell(s)
        },
        ScriptKind::Sh => {
            let mut s = concat3("chmod +x '", path, "' && bash '");
            append_str(&mut s, path);
            append_str(&mut s, "'");
            ScriptNext::RunBash(s)
        },
    }
}

/// The message when a job's script ran.
pub open spec fn script_done_message(job: ScriptJob) -> Seq<char> {
    match job {
        ScriptJob::GitBat => "Git 安装完成！请重启应用使环境变量生效。"@,
        ScriptJob::NodejsBat => "Node.js 安装完成！请重启应用使环境变量生效。"@,
        ScriptJob::DeployAll => "OpenClaw 部署完成！请重启应用使环境变量生效。"@,
        ScriptJob::CleanupAll => "OpenClaw 清理完成！请重启应用使环境变量生效。"@,
    }
}

/// The message when a job's script failed to run.
pub open spec fn script_failed_message(job: ScriptJob) -> Seq<char> {
    match job {
        ScriptJob::GitBat => "Git 安装失败"@,
        ScriptJob::NodejsBat => "Node.js 安装失败"@,
        ScriptJob::DeployAll => "OpenClaw 部署失败"@,
        ScriptJob::CleanupAll => "OpenClaw 清理失败"@,
    }
}

/// The result of a job whose script was run.
pub fn script_job_finished(job: ScriptJob, run: Result<String, String>) -> (r: InstallResult)
    ensures
        match run {
            Ok(_) => result_is(r, true, script_done_message(job), None),
            Err(e) => result_is(r, false, script_failed_message(job), Some(e@)),
        },
{
    let (done, failed) = match job {
        ScriptJob::GitBat => (String::from_str("Git 安装完成！请重启应用使环境变量生效。"), "Git 安装失败"),
        ScriptJob::NodejsBat => (
            String::from_str("Node.js 安装完成！请重启应用使环境变量生效。"),
            "Node.js 安装失败",
        ),
        ScriptJob::DeployAll => (
            String::from_str("OpenClaw 部署完成！请重启应用使环境变量生效。"),
            "OpenClaw 部署失败",
        ),
        ScriptJob::CleanupAll => (
            String::from_str("OpenClaw 清理完成！请重启应用使环境变量生效。"),
            "OpenClaw 清理失败",
        ),
    };
    ran_result(run, done, failed)
}

// ---------------------------------------------------------------------------
// Setting up the configuration directory
// ---------------------------------------------------------------------------

/// The subdirectories that the configuration needs.
pub open spec fn config_subdir(i: int) -> Seq<char> {
    if i == 0 {
        "agents/main/sessions"@
    } else if i == 1 {
        "agents/main/agent"@
    } else {
        "credentials"@
    }
}

/// How many subdirectories the configuration needs.
pub const CONFIG_SUBDIRS: usize = 3;

/// What the configuration set-up does next.
#[derive(Debug, Clone)]
pub enum ConfigStep {
    /// Create this directory (with its parents), then report how it went.
    CreateDir(String),
    /// Restrict the configuration directory to its owner (on Unix; a failure
    /// is only logged), then run `openclaw config set gateway.mode local`.
    SetGatewayMode,
    /// The set-up is over with this result.
    Finish(InstallResult),
}

/// The first step of setting up `config_dir`: create it.
pub fn init_openclaw_config(config_dir: &str) -> (r: ConfigStep)
    ensures
        r matches ConfigStep::CreateDir(d) && d@ == config_dir@,
{
    ConfigStep::CreateDir(String::from_str(config_dir))
}

/// The name of subdirectory `i`.
fn config_subdir_name(i: usize) -> (r: &'static str)
    requires
        i < 3,
    ensures
        r@ == config_subdir(i as int),
{
    if i == 0 {
        "agents/main/sessions"
    } else if i == 1 {
        "agents/main/agent"
    } else {
        "credentials"
    }
}

/// The next step of setting up `config_dir` once step `done` has been made
/// with `outcome`: step 0 creates the directory itself, steps 1 to 3 its
/// subdirectories `<config_dir>/<subdir>`. A failure ends the set-up with a
/// result that names what could not be created.
pub fn init_config_created(config_dir: &str, done: usize, outcome: Result<(), String>) -> (r: ConfigStep)
    requires
        done <= 3,
    ensures
        match outcome {
            Err(e) => r matches ConfigStep::Finish(res) && if done == 0 {
                result_is(res, false, "创建配置目录失败"@, Some(e@))
            } else {
                result_is(res, false, "创建目录失败: "@ + config_subdir(done - 1), Some(e@))
            },
            Ok(_) => if done < 3 {
                r matches ConfigStep::CreateDir(d) && d@ == config_dir@ + "/"@ + config_subdir(
                    done as int,
                )
            } else {
                r matches ConfigStep::SetGatewayMode
            },
        },
{
    match outcome {
        Err(e) => {
            if done == 0 {
                ConfigStep::Finish(InstallResult::failed(String::from_str("创建配置目录失败"), Some(e)))
            } else {
                let name = config_subdir_name(done - 1);
                ConfigStep::Finish(InstallResult::failed(concat2("创建目录失败: ", name), Some(e)))
            }
        },
        Ok(_) => {
            if done < 3 {
                let name = config_subdir_name(done);
                ConfigStep::CreateDir(concat3(config_dir, "/", name))
            } else {
                ConfigStep::SetGatewayMode
            }
        },
    }
}

/// The result of the set-up once the gateway mode was set.
pub fn init_config_finished(run: Result<String, String>) -> (r: InstallResult)
    ensures
        match run {
            Ok(_) => result_is(r, true, "配置初始化成功！"@, None),
            Err(e) => result_is(r, false, "配置初始化失败"@, Some(e@)),
        },
{
    ran_result(run, String::from_str("配置初始化成功！"), "配置初始化失败")
}

} // verus!
