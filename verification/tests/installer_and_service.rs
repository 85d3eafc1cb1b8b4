use openclaw_manager::environment::Platform;
use openclaw_manager::installer::{
    check_openclaw_update, init_config_created, init_config_finished, init_openclaw_config,
    install_nodejs, install_nodejs_unix, install_nodejs_windows, install_openclaw_unix,
    install_openclaw_windows, open_install_terminal, script_job_finished, script_job_located,
    script_job_start, uninstall_openclaw_unix, uninstall_openclaw_windows, update_openclaw_unix,
    update_openclaw_windows, ConfigStep, ScriptJob, ScriptKind, ScriptNext, ScriptStart,
    TerminalInstall,
};
use openclaw_manager::model::InstallResult;
use openclaw_manager::service::{
    format_log_record, console_log_record, restart_service, start_service, start_service_result,
    stop_service, stop_service_result, StartAction, StartEvent, StartOutcome, StopAction,
    StopEvent, StopOutcome,
};

fn check(r: &InstallResult, success: bool, message: &str, error: Option<&str>) {
    assert_eq!(r.success, success);
    assert_eq!(r.message, message);
    assert_eq!(r.error.as_deref(), error);
}

fn ok(s: &str) -> Result<String, String> {
    Ok(s.to_string())
}

fn err(s: &str) -> Result<String, String> {
    Err(s.to_string())
}

#[test]
fn nodejs_routes() {
    assert_eq!(install_nodejs("windows").ok(), Some(Platform::Windows));
    assert_eq!(install_nodejs("macos").ok(), Some(Platform::MacOs));
    assert_eq!(install_nodejs("linux").ok(), Some(Platform::Linux));
    let r = install_nodejs("haiku").unwrap_err();
    check(&r, false, "不支持的操作系统", Some("不支持的操作系统: haiku"));
}

#[test]
fn install_outcomes() {
    check(&install_nodejs_windows(ok("done"), true), true, "Node.js 安装成功！请重启应用以使环境变量生效。", None);
    check(&install_nodejs_windows(ok("done"), false), false, "安装后需要重启应用", Some("done"));
    check(&install_nodejs_windows(err("boom"), true), false, "Node.js 安装失败", Some("boom"));
    check(&install_nodejs_unix(ok("v22.1.0\n")), true, "Node.js 安装成功！v22.1.0\n", None);
    check(&install_nodejs_unix(err("no brew")), false, "Node.js 安装失败", Some("no brew"));
    check(&install_openclaw_windows(ok("x"), true), true, "OpenClaw 安装成功！", None);
    check(&install_openclaw_windows(ok("x"), false), false, "安装后需要重启应用", Some("x"));
    check(&install_openclaw_windows(err("npm"), false), false, "OpenClaw 安装失败", Some("npm"));
    check(&install_openclaw_unix(ok("1.0")), true, "OpenClaw 安装成功！1.0", None);
    check(&install_openclaw_unix(err("e")), false, "OpenClaw 安装失败", Some("e"));
}

#[test]
fn uninstall_and_update_outcomes() {
    check(&uninstall_openclaw_windows(ok("removed"), false), true, "OpenClaw 已成功卸载！", None);
    check(
        &uninstall_openclaw_windows(ok("removed"), true),
        false,
        "卸载命令已执行，但 OpenClaw 仍然存在，请尝试手动卸载",
        Some("removed"),
    );
    check(&uninstall_openclaw_windows(err("e"), false), false, "OpenClaw 卸载失败", Some("e"));
    check(&uninstall_openclaw_unix(ok("ok")), true, "OpenClaw 已成功卸载！ok", None);
    check(&uninstall_openclaw_unix(err("still")), false, "OpenClaw 卸载失败", Some("still"));
    check(&update_openclaw_windows(ok(""), Some("2026.4.1".into())), true, "OpenClaw 已更新到 2026.4.1", None);
    check(&update_openclaw_windows(ok(""), None), true, "OpenClaw 已更新到 最新版本", None);
    check(&update_openclaw_windows(err("e"), None), false, "OpenClaw 更新失败", Some("e"));
    check(&update_openclaw_unix(ok("2.0")), true, "OpenClaw 已更新！2.0", None);
    check(&update_openclaw_unix(err("e")), false, "OpenClaw 更新失败", Some("e"));
}

#[test]
fn update_checks() {
    let i = check_openclaw_update(None, None).unwrap();
    assert!(!i.update_available && i.current_version.is_none() && i.latest_version.is_none());
    assert_eq!(i.error.as_deref(), Some("OpenClaw 未安装"));
    let i = check_openclaw_update(Some("1.0.0".into()), None).unwrap();
    assert!(!i.update_available);
    assert_eq!(i.current_version.as_deref(), Some("1.0.0"));
    assert_eq!(i.error.as_deref(), Some("无法获取最新版本信息"));
    let i = check_openclaw_update(Some("OpenClaw 2026.3.13 (61d171a)".into()), Some("2026.3.14".into())).unwrap();
    assert!(i.update_available && i.error.is_none());
    assert_eq!(i.latest_version.as_deref(), Some("2026.3.14"));
    let i = check_openclaw_update(Some("2026.3.13".into()), Some("2026.3.13".into())).unwrap();
    assert!(!i.update_available && i.error.is_none());
}

#[test]
fn install_terminals() {
    assert_eq!(open_install_terminal("nodejs"), Ok(TerminalInstall::NodeJs));
    assert_eq!(open_install_terminal("openclaw"), Ok(TerminalInstall::OpenClaw));
    assert_eq!(open_install_terminal("git"), Err("未知的安装类型: git".to_string()));
}

fn finish_of_start(s: ScriptStart) -> InstallResult {
    match s {
        ScriptStart::Finish(r) => r,
        other => panic!("expected a result, got {:?}", other),
    }
}

#[test]
fn script_jobs_by_platform() {
    match script_job_start(ScriptJob::GitBat, "windows") {
        ScriptStart::Locate { file, kind } => {
            assert_eq!(file, "setup-git-1.0.0.bat");
            assert_eq!(kind, ScriptKind::Bat);
        },
        other => panic!("{:?}", other),
    }
    check(&finish_of_start(script_job_start(ScriptJob::NodejsBat, "macos")), false, "此功能仅支持 Windows 系统", Some("仅支持 Windows 系统"));
    check(&finish_of_start(script_job_start(ScriptJob::GitBat, "linux")), false, "此功能仅支持 Windows 系统", Some("仅支持 Windows 系统"));
    match script_job_start(ScriptJob::DeployAll, "macos") {
        ScriptStart::Locate { file, kind } => {
            assert_eq!(file, "install-all-macos.sh");
            assert_eq!(kind, ScriptKind::Sh);
        },
        other => panic!("{:?}", other),
    }
    match script_job_start(ScriptJob::CleanupAll, "windows") {
        ScriptStart::Locate { file, .. } => assert_eq!(file, "uninstall-all.bat"),
        other => panic!("{:?}", other),
    }
    check(
        &finish_of_start(script_job_start(ScriptJob::CleanupAll, "linux")),
        false,
        "此功能仅支持 Windows 和 macOS 系统",
        Some("仅支持 Windows 和 macOS 系统"),
    );
}

#[test]
fn script_jobs_running() {
    match script_job_located(ScriptJob::GitBat, ScriptKind::Bat, "C:\\m\\bat\\setup-git-1.0.0.bat", true) {
        ScriptNext::RunPowerShell(s) => assert_eq!(s, "Start-Process -FilePath 'C:\\m\\bat\\setup-git-1.0.0.bat' -Verb RunAs -Wait"),
        other => panic!("{:?}", other),
    }
    match script_job_located(ScriptJob::DeployAll, ScriptKind::Sh, "/m/bat/install-all-macos.sh", true) {
        ScriptNext::RunBash(s) => assert_eq!(s, "chmod +x '/m/bat/install-all-macos.sh' && bash '/m/bat/install-all-macos.sh'"),
        other => panic!("{:?}", other),
    }
    match script_job_located(ScriptJob::CleanupAll, ScriptKind::Bat, "", false) {
        ScriptNext::Finish(r) => check(&r, false, "找不到卸载脚本", Some("文件不存在: ")),
        other => panic!("{:?}", other),
    }
    match script_job_located(ScriptJob::NodejsBat, ScriptKind::Bat, "x", false) {
        ScriptNext::Finish(r) => check(&r, false, "找不到安装脚本", Some("文件不存在: x")),
        other => panic!("{:?}", other),
    }
    check(&script_job_finished(ScriptJob::GitBat, ok("")), true, "Git 安装完成！请重启应用使环境变量生效。", None);
    check(&script_job_finished(ScriptJob::NodejsBat, err("e")), false, "Node.js 安装失败", Some("e"));
    check(&script_job_finished(ScriptJob::DeployAll, ok("")), true, "OpenClaw 部署完成！请重启应用使环境变量生效。", None);
    check(&script_job_finished(ScriptJob::CleanupAll, err("e")), false, "OpenClaw 清理失败", Some("e"));
}

#[test]
fn config_set_up() {
    match init_openclaw_config("/h/.openclaw") {
        ConfigStep::CreateDir(d) => assert_eq!(d, "/h/.openclaw"),
        other => panic!("{:?}", other),
    }
    let expected = ["/h/.openclaw/agents/main/sessions", "/h/.openclaw/agents/main/agent", "/h/.openclaw/credentials"];
    for (done, want) in expected.iter().enumerate() {
        match init_config_created("/h/.openclaw", done, Ok(())) {
            ConfigStep::CreateDir(d) => assert_eq!(&d, want),
            other => panic!("{:?}", other),
        }
    }
    assert!(matches!(init_config_created("/h/.openclaw", 3, Ok(())), ConfigStep::SetGatewayMode));
    match init_config_created("/h/.openclaw", 0, Err("denied".into())) {
        ConfigStep::Finish(r) => check(&r, false, "创建配置目录失败", Some("denied")),
        other => panic!("{:?}", other),
    }
    match init_config_created("/h/.openclaw", 2, Err("denied".into())) {
        ConfigStep::Finish(r) => check(&r, false, "创建目录失败: agents/main/agent", Some("denied")),
        other => panic!("{:?}", other),
    }
    check(&init_config_finished(ok("set")), true, "配置初始化成功！", None);
    check(&init_config_finished(err("no")), false, "配置初始化失败", Some("no"));
}

/// Runs a start against a world where the port opens on poll `opens_at`
/// of attempt `attempt` (never when `None`), counting steps.
fn run_start(port_taken: bool, found: bool, spawn_ok: bool, opens: Option<(bool, u32)>, stale: Option<u32>) -> (StartOutcome, usize, Vec<StartAction>) {
    let (mut s, mut a) = start_service();
    let mut actions = vec![a];
    let mut steps = 0;
    let mut retry = false;
    let mut poll = 0u32;
    loop {
        let e = match a {
            StartAction::CheckPortInUse => StartEvent::PortInUse(port_taken),
            StartAction::FindOpenclaw => StartEvent::OpenclawFound(found),
            StartAction::SpawnGateway => {
                poll = 0;
                StartEvent::Spawned(spawn_ok)
            },
            StartAction::CleanupLocks => {
                if steps > 5 {
                    retry = true;
                }
                StartEvent::Done
            },
            StartAction::ReadErrorLog => {
                poll += 1;
                StartEvent::ErrorLogPid(stale)
            },
            StartAction::CheckListening => {
                let open = matches!(opens, Some((r, p)) if r == retry && p == poll);
                StartEvent::Listening(if open { Some(777) } else { None })
            },
            StartAction::Finish(o) => return (o, steps, actions),
            _ => StartEvent::Done,
        };
        assert!(s.expects(e));
        let (s2, a2) = s.step(e);
        s = s2;
        a = a2;
        actions.push(a);
        steps += 1;
        assert!(steps < 500);
    }
}

#[test]
fn start_machine() {
    let (o, _, acts) = run_start(false, true, true, Some((false, 1)), None);
    assert_eq!(o, StartOutcome::Started { pid: 777, retry: false });
    assert_eq!(acts[0], StartAction::CheckPortInUse);
    assert_eq!(acts[1], StartAction::FindOpenclaw);
    assert_eq!(acts[2], StartAction::CleanupLocks);
    assert_eq!(acts[3], StartAction::Sleep(2000));
    assert_eq!(acts[4], StartAction::KillOnPort);
    assert_eq!(acts[5], StartAction::SpawnGateway);
    let (o, _, acts) = run_start(true, true, true, Some((false, 3)), Some(99));
    assert_eq!(o, StartOutcome::Started { pid: 777, retry: false });
    assert_eq!(acts[1], StartAction::KillOnPort);
    assert!(acts.contains(&StartAction::KillPid(99)));
    assert!(acts.contains(&StartAction::EndScheduledTask));
    let (o, _, _) = run_start(false, false, true, None, None);
    assert_eq!(o, StartOutcome::OpenclawMissing);
    let (o, _, _) = run_start(false, true, false, None, None);
    assert_eq!(o, StartOutcome::SpawnFailed);
    let (o, _, _) = run_start(false, true, true, Some((true, 30)), None);
    assert_eq!(o, StartOutcome::Started { pid: 777, retry: true });
    let (o, steps, acts) = run_start(false, true, true, None, None);
    assert_eq!(o, StartOutcome::TimedOut);
    assert_eq!(acts.iter().filter(|a| **a == StartAction::CheckListening).count(), 60);
    assert_eq!(acts.iter().filter(|a| **a == StartAction::SpawnGateway).count(), 2);
    assert!(steps < 400);
}

#[test]
fn start_messages() {
    assert_eq!(start_service_result(StartOutcome::Started { pid: 4242, retry: false }, ""), Ok("服务已启动，PID: 4242".to_string()));
    assert_eq!(start_service_result(StartOutcome::Started { pid: 1, retry: true }, ""), Ok("服务已启动（重试），PID: 1".to_string()));
    assert_eq!(
        start_service_result(StartOutcome::OpenclawMissing, ""),
        Err("找不到 openclaw 命令，请先通过 npm install -g openclaw 安装".to_string())
    );
    assert_eq!(start_service_result(StartOutcome::SpawnFailed, "no such file"), Err("启动服务失败: no such file".to_string()));
    assert_eq!(start_service_result(StartOutcome::TimedOut, ""), Err("服务启动超时，请检查 openclaw 日志".to_string()));
}

fn run_stop(restart: bool, found: bool, pids_at: [bool; 3]) -> (StopOutcome, Vec<StopAction>) {
    let (mut s, mut a) = if restart { restart_service() } else { stop_service(false) };
    let mut acts = vec![a];
    let mut checks = 0;
    loop {
        let e = match a {
            StopAction::FindOpenclaw => StopEvent::OpenclawFound(found),
            StopAction::ListPortPids => {
                checks += 1;
                StopEvent::PortPids(pids_at[checks - 1])
            },
            StopAction::Finish(o) => return (o, acts),
            _ => StopEvent::Done,
        };
        assert!(s.expects(e));
        let (s2, a2) = s.step(e);
        s = s2;
        a = a2;
        acts.push(a);
        assert!(acts.len() < 50);
    }
}

#[test]
fn stop_machine() {
    let (o, acts) = run_stop(false, true, [false, false, false]);
    assert_eq!(o, StopOutcome::NotRunning);
    assert_eq!(acts[1], StopAction::StopGateway);
    let (o, acts) = run_stop(false, false, [true, false, false]);
    assert_eq!(o, StopOutcome::Stopped);
    assert!(!acts.contains(&StopAction::StopGateway));
    assert!(acts.contains(&StopAction::TerminateListed));
    assert!(!acts.contains(&StopAction::ForceKillListed));
    let (o, acts) = run_stop(false, true, [true, true, false]);
    assert_eq!(o, StopOutcome::Stopped);
    assert!(acts.contains(&StopAction::ForceKillListed));
    let (o, _) = run_stop(false, true, [true, true, true]);
    assert_eq!(o, StopOutcome::StillRunning);
    let (o, acts) = run_stop(true, true, [true, true, true]);
    assert_eq!(o, StopOutcome::ReadyToStart);
    assert!(acts.contains(&StopAction::KillOnPort));
    assert!(acts.contains(&StopAction::CleanupLocks));
    assert!(!acts.contains(&StopAction::ListPortPids));
}

#[test]
fn stop_messages() {
    assert_eq!(stop_service_result(StopOutcome::NotRunning, &vec![]), Ok("服务未在运行".to_string()));
    assert_eq!(stop_service_result(StopOutcome::Stopped, &vec![]), Ok("服务已停止".to_string()));
    assert_eq!(stop_service_result(StopOutcome::StillRunning, &vec![12, 34]), Err("无法停止服务，仍有进程: [12, 34]".to_string()));
}

#[test]
fn manager_log_records() {
    let r = format_log_record("2026-01-01T00:00:00Z", "INFO", "openclaw_manager", "started");
    assert_eq!(r, "[2026-01-01T00:00:00Z INFO openclaw_manager] started\n");
    assert_eq!(console_log_record(&r), "[2026-01-01T00:00:00Z INFO openclaw_manager] started");
}
