use std::io::Write;
use openclaw_manager::archive::{read_archive, unpack_plan, UnpackStep, ZipEntry};
use openclaw_manager::model::InstallResult;
use openclaw_manager::paths::{get_log_dir, get_log_file, LogFileCache};
use openclaw_manager::ports::{check_port_listening, get_pids_on_port, is_port_in_use};
use openclaw_manager::service::{
    kill_process_by_pid, kill_process_on_port, next_linux_terminal, port_holders, KillAction,
    PortCleanup, TerminalTry,
};
use openclaw_manager::skills::{
    check_skill_installed, get_installed_skills, skill_install_start, DownloadOutcome,
    ExtractOutcome, SkillAction, SkillEntry, SkillEvent,
};

/// The name of each action, for comparing runs.
fn action_name(a: &SkillAction) -> &'static str {
    match a {
        SkillAction::CheckSkillsDir => "check skills dir",
        SkillAction::CreateSkillsDir => "create skills dir",
        SkillAction::Download => "download",
        SkillAction::CheckOldDir => "check old dir",
        SkillAction::RemoveOldDir => "remove old dir",
        SkillAction::CreateSkillDir => "create skill dir",
        SkillAction::ReadArchive => "read archive",
        SkillAction::Unpack(_) => "unpack",
        SkillAction::RemoveArchive => "remove archive",
        SkillAction::Finish(_) => "finish",
    }
}

/// A zip archive with these directories and files.
fn make_zip(dirs: &[&str], files: &[(&str, &[u8])]) -> Vec<u8> {
    let mut w = zip::ZipWriter::new(std::io::Cursor::new(Vec::new()));
    for d in dirs {
        w.add_directory(*d, zip::write::SimpleFileOptions::default()).unwrap();
    }
    for (name, data) in files {
        w.start_file(*name, zip::write::SimpleFileOptions::default()).unwrap();
        w.write_all(data).unwrap();
    }
    w.finish().unwrap().into_inner()
}

#[test]
fn archive_entries_in_order() {
    let bytes = make_zip(&["docs/"], &[("SKILL.md", b"# skill"), ("docs/a.txt", b"")]);
    let entries = read_archive(&bytes).unwrap();
    let seen: Vec<(String, Vec<u8>)> = entries.iter().map(|e| (e.name.clone(), e.data.clone())).collect();
    assert_eq!(
        seen,
        vec![
            ("docs/".to_string(), vec![]),
            ("SKILL.md".to_string(), b"# skill".to_vec()),
            ("docs/a.txt".to_string(), vec![])
        ]
    );
    assert!(read_archive(&b"PK junk".to_vec()).unwrap_err().starts_with("读取 zip 归档失败: "));
    assert!(read_archive(&Vec::new()).is_err());
    assert!(read_archive(&make_zip(&[], &[])).unwrap().is_empty());
}

#[test]
fn unpack_steps_follow_entries() {
    let entries = vec![
        ZipEntry { name: "docs/".to_string(), data: vec![] },
        ZipEntry { name: "docs/a.txt".to_string(), data: b"hi".to_vec() },
        ZipEntry { name: "b".to_string(), data: vec![1, 2] },
    ];
    let steps = unpack_plan(false, "/s/x", entries);
    assert_eq!(steps.len(), 3);
    assert!(matches!(&steps[0], UnpackStep::CreateDir(p) if p == "/s/x/docs/"));
    assert!(matches!(&steps[1], UnpackStep::WriteFile(p, d) if p == "/s/x/docs/a.txt" && d == b"hi"));
    assert!(matches!(&steps[2], UnpackStep::WriteFile(p, d) if p == "/s/x/b" && *d == vec![1u8, 2]));
    let win = unpack_plan(true, "C:\\s\\x", vec![ZipEntry { name: "f".to_string(), data: vec![] }]);
    assert!(matches!(&win[0], UnpackStep::WriteFile(p, _) if p == "C:\\s\\x\\f"));
}

/// Runs an installation of skill `code`, answering each action with the
/// next of `events`; gives the actions taken and the answer.
fn run_install(code: &str, events: Vec<SkillEvent>) -> (Vec<&'static str>, Result<InstallResult, String>) {
    let (mut state, mut action) = skill_install_start();
    let mut taken = Vec::new();
    let mut events = events.into_iter();
    loop {
        taken.push(action_name(&action));
        if let SkillAction::Finish(answer) = action {
            assert!(state.is_done());
            assert!(events.next().is_none(), "events left over");
            return (taken, answer);
        }
        let e = events.next().expect("an event for each action");
        assert!(state.expects(&e));
        let (s, a) = state.step(e, code, false, "/skills/x");
        state = s;
        action = a;
    }
}

#[test]
fn skill_install_success_replaces_old_dir() {
    let (taken, answer) = run_install(
        "weather",
        vec![
            SkillEvent::Exists(true),
            SkillEvent::Downloaded(DownloadOutcome::Saved(120)),
            SkillEvent::Exists(true),
            SkillEvent::Removed(Ok(())),
            SkillEvent::Created(Ok(())),
            SkillEvent::ArchiveRead(Ok(make_zip(&["docs/"], &[("SKILL.md", b"# w")]))),
            SkillEvent::Unpacked(ExtractOutcome::Unpacked),
            SkillEvent::Done,
        ],
    );
    assert_eq!(
        taken,
        vec![
            "check skills dir",
            "download",
            "check old dir",
            "remove old dir",
            "create skill dir",
            "read archive",
            "unpack",
            "remove archive",
            "finish"
        ]
    );
    let r = answer.unwrap();
    assert!(r.success);
    assert_eq!(r.message, "技能 weather 安装成功！");
    assert!(r.error.is_none());
}

#[test]
fn skill_install_first_time() {
    let (taken, answer) = run_install(
        "x",
        vec![
            SkillEvent::Exists(false),
            SkillEvent::Created(Ok(())),
            SkillEvent::Downloaded(DownloadOutcome::Saved(1)),
            SkillEvent::Exists(false),
            SkillEvent::Created(Ok(())),
            SkillEvent::ArchiveRead(Ok(make_zip(&[], &[]))),
            SkillEvent::Unpacked(ExtractOutcome::Unpacked),
            SkillEvent::Done,
        ],
    );
    assert_eq!(
        taken,
        vec![
            "check skills dir",
            "create skills dir",
            "download",
            "check old dir",
            "create skill dir",
            "read archive",
            "unpack",
            "remove archive",
            "finish"
        ]
    );
    assert!(answer.unwrap().success);
}

#[test]
fn skill_install_bad_status_keeps_old_dir() {
    let (taken, answer) = run_install(
        "x",
        vec![SkillEvent::Exists(true), SkillEvent::Downloaded(DownloadOutcome::BadStatus("404 Not Found".to_string()))],
    );
    assert_eq!(taken, vec!["check skills dir", "download", "finish"]);
    let r = answer.unwrap();
    assert!(!r.success);
    assert_eq!(r.message, "下载失败，状态码: 404 Not Found");
    assert!(r.error.is_none());
}

#[test]
fn skill_install_failures() {
    let (taken, answer) = run_install("x", vec![SkillEvent::Exists(false), SkillEvent::Created(Err("denied".to_string()))]);
    assert_eq!(taken, vec!["check skills dir", "create skills dir", "finish"]);
    let r = answer.unwrap();
    assert_eq!((r.success, r.message.as_str(), r.error.as_deref()), (false, "创建技能目录失败", Some("denied")));

    let (taken, answer) = run_install(
        "x",
        vec![SkillEvent::Exists(true), SkillEvent::Downloaded(DownloadOutcome::RequestFailed("timeout".to_string()))],
    );
    assert_eq!(taken, vec!["check skills dir", "download", "finish"]);
    assert_eq!(answer.unwrap_err(), "下载请求失败: timeout");

    let (_, answer) = run_install("x", vec![SkillEvent::Exists(true), SkillEvent::Downloaded(DownloadOutcome::Saved(0))]);
    let r = answer.unwrap();
    assert_eq!((r.success, r.message.as_str(), r.error.as_deref()), (false, "下载的文件为空", Some("zip 文件大小为 0")));

    let (taken, answer) = run_install(
        "x",
        vec![
            SkillEvent::Exists(true),
            SkillEvent::Downloaded(DownloadOutcome::Saved(5)),
            SkillEvent::Exists(true),
            SkillEvent::Removed(Err("busy".to_string())),
        ],
    );
    assert_eq!(taken, vec!["check skills dir", "download", "check old dir", "remove old dir", "finish"]);
    let r = answer.unwrap();
    assert_eq!((r.success, r.message.as_str(), r.error.as_deref()), (false, "删除旧技能目录失败", Some("busy")));

    let (taken, answer) = run_install(
        "x",
        vec![
            SkillEvent::Exists(true),
            SkillEvent::Downloaded(DownloadOutcome::Saved(5)),
            SkillEvent::Exists(false),
            SkillEvent::Created(Ok(())),
            SkillEvent::ArchiveRead(Ok(b"not a zip".to_vec())),
        ],
    );
    assert_eq!(taken.last(), Some(&"finish"));
    assert!(!taken.contains(&"unpack"));
    assert!(answer.unwrap_err().starts_with("读取 zip 归档失败: "));

    let (taken, answer) = run_install(
        "x",
        vec![
            SkillEvent::Exists(true),
            SkillEvent::Downloaded(DownloadOutcome::Saved(5)),
            SkillEvent::Exists(false),
            SkillEvent::Created(Ok(())),
            SkillEvent::ArchiveRead(Err("gone".to_string())),
        ],
    );
    assert_eq!(taken.last(), Some(&"finish"));
    assert_eq!(answer.unwrap_err(), "打开 zip 文件失败: gone");

    let (taken, answer) = run_install(
        "x",
        vec![
            SkillEvent::Exists(true),
            SkillEvent::Downloaded(DownloadOutcome::Saved(5)),
            SkillEvent::Exists(false),
            SkillEvent::Created(Ok(())),
            SkillEvent::ArchiveRead(Ok(make_zip(&[], &[("a.txt", b"a")]))),
            SkillEvent::Unpacked(ExtractOutcome::FileFailed("denied".to_string())),
        ],
    );
    assert!(!taken.contains(&"remove archive"));
    assert_eq!(answer.unwrap_err(), "创建文件失败: denied");
}

/// Ends a process whose tools tell `told`, one answer per action.
fn run_kill(is_windows: bool, told: Vec<Option<bool>>) -> (bool, Vec<KillAction>) {
    let (mut state, mut action) = kill_process_by_pid(is_windows);
    let mut taken = Vec::new();
    let mut told = told.into_iter();
    loop {
        taken.push(action);
        if let KillAction::Finish(ended) = action {
            return (ended, taken);
        }
        let (s, a) = state.step(told.next().expect("an answer for each action"));
        state = s;
        action = a;
    }
}

#[test]
fn kill_when_tools_cannot_run() {
    // tasklist cannot run: kill all the same.
    let (ended, taken) = run_kill(true, vec![None, Some(true), Some(true), Some(false)]);
    assert!(ended);
    assert_eq!(
        taken,
        vec![KillAction::CheckExists, KillAction::ForceKill, KillAction::Sleep(500), KillAction::CheckExists, KillAction::Finish(true)]
    );
    // the kill itself cannot run: not ended.
    let (ended, _) = run_kill(true, vec![Some(true), None]);
    assert!(!ended);
    let (ended, _) = run_kill(false, vec![None]);
    assert!(!ended);
    // the second look cannot run: trust the kill.
    let (ended, taken) = run_kill(true, vec![Some(true), Some(true), Some(true), None]);
    assert!(ended);
    assert_eq!(taken.last(), Some(&KillAction::Finish(true)));
    // not shown: nothing to kill.
    let (ended, taken) = run_kill(true, vec![Some(false)]);
    assert!(ended);
    assert_eq!(taken, vec![KillAction::CheckExists, KillAction::Finish(true)]);
    // still shown after the kill: kill the tree.
    let (ended, taken) = run_kill(true, vec![Some(true), Some(true), Some(true), Some(true), Some(true)]);
    assert!(ended);
    assert!(taken.contains(&KillAction::ForceKillTree));
}

#[test]
fn linux_terminals_in_order() {
    let mut tried = 0;
    let mut names = Vec::new();
    loop {
        match next_linux_terminal(tried, false, "/tmp/s.sh") {
            TerminalTry::Launch { program, args } => {
                assert_eq!(args, vec!["--".to_string(), "/tmp/s.sh".to_string()]);
                names.push(program);
                tried += 1;
            },
            TerminalTry::Finish(answer) => {
                assert_eq!(answer, Err("无法启动终端，请手动运行: npm install -g openclaw".to_string()));
                break;
            },
        }
    }
    assert_eq!(names, vec!["gnome-terminal", "xfce4-terminal", "konsole", "xterm"]);
    match next_linux_terminal(2, true, "/tmp/s.sh") {
        TerminalTry::Finish(answer) => assert_eq!(answer, Ok("已打开安装终端".to_string())),
        TerminalTry::Launch { .. } => panic!("a terminal started"),
    }
}

#[test]
fn listening_means_in_use() {
    let netstat = "  TCP    0.0.0.0:18789    0.0.0.0:0    LISTENING    4242\r\n";
    assert_eq!(check_port_listening(true, true, netstat, 18789), Some(4242));
    assert!(is_port_in_use(true, true, netstat, 18789));
    assert_eq!(get_pids_on_port(true, true, netstat, 18789), vec![4242]);
    assert_eq!(check_port_listening(true, true, netstat, 1878), None);
    assert!(!is_port_in_use(true, true, netstat, 1878));
    assert_eq!(check_port_listening(false, true, "77\n", 18789), Some(77));
    assert!(is_port_in_use(false, true, "77\n", 18789));
    assert_eq!(get_pids_on_port(false, true, "77\n78\n", 18789), vec![77, 78]);
    assert_eq!(check_port_listening(false, false, "", 18789), None);
    assert!(!is_port_in_use(false, false, "", 18789));
}

#[test]
fn log_file_is_kept() {
    let mut cache = LogFileCache::new();
    let first = cache.get_or_init(false, Some("/home/u".to_string()));
    assert_eq!(first, "/home/u/.openclaw/logs/manager.log");
    assert_eq!(first, get_log_file(false, &get_log_dir(false, Some("/home/u".to_string()))));
    assert_eq!(cache.get_or_init(false, Some("/other".to_string())), first);
    assert_eq!(cache.get_or_init(false, None), first);
    let mut without_home = LogFileCache::new();
    assert_eq!(without_home.get_or_init(false, None), "logs/manager.log");
}

#[test]
fn installed_list_matches_check() {
    let entries = vec![
        SkillEntry { name: Some("a".to_string()), is_dir: true },
        SkillEntry { name: Some("notes.txt".to_string()), is_dir: false },
        SkillEntry { name: None, is_dir: true },
        SkillEntry { name: Some("b".to_string()), is_dir: true },
    ];
    let listed = get_installed_skills(&entries).unwrap();
    for e in &entries {
        if let Some(n) = &e.name {
            let installed = check_skill_installed(true, e.is_dir).unwrap();
            assert_eq!(listed.contains(n), installed);
        }
    }
    assert!(!listed.contains(&"c".to_string()));
    assert_eq!(check_skill_installed(false, false), Ok(false));
}

#[test]
fn port_cleanup_ends_listed_pids_in_order() {
    match kill_process_on_port(vec![30, 10, 20]) {
        PortCleanup::KillListed(ps) => assert_eq!(ps, vec![30, 10, 20]),
        PortCleanup::CheckInUse => panic!("pids were listed"),
    }
    assert!(matches!(kill_process_on_port(vec![]), PortCleanup::CheckInUse));
    let netstat = "  TCP 127.0.0.1:18789 1.2.3.4:5 TIME_WAIT 7\n  TCP 127.0.0.1:187890 0.0.0.0:0 LISTENING 8\n  TCP 1.2.3.4:5 127.0.0.1:18789 CLOSE_WAIT 9\n";
    assert_eq!(port_holders(true, true, netstat, 18789), vec![7, 9]);
    assert_eq!(port_holders(true, false, netstat, 18789), Vec::<u32>::new());
    assert_eq!(port_holders(false, true, netstat, 18789), Vec::<u32>::new());
}
