use openclaw_manager::model::SkillInstallParams;
use openclaw_manager::paths::{
    clean_url, error_log_path, get_log_dir, get_log_file, join, lock_file_paths, log_file_paths,
    pick_existing, script_file_candidates, skill_dir, skill_zip_path, skills_dir,
};
use openclaw_manager::skills::{
    check_skill_installed, get_installed_skills, install_skill, is_dir_entry, skill_dir_created,
    skill_downloaded, skill_old_dir_removed, skill_unpacked, uninstall_skill, DownloadOutcome,
    ExtractOutcome, SkillEntry, SkillNext,
};

#[test]
fn joining_paths() {
    assert_eq!(join(false, "/a", "b"), "/a/b");
    assert_eq!(join(false, "/a/", "b"), "/a/b");
    assert_eq!(join(false, "", "b"), "b");
    assert_eq!(join(true, "C:\\a", "b"), "C:\\a\\b");
    assert_eq!(join(true, "C:\\a\\", "b"), "C:\\a\\b");
    assert_eq!(join(true, "C:/a/", "b"), "C:/a/b");
    assert_eq!(join(false, "/a\\", "b"), "/a\\/b");
}

#[test]
fn joining_like_std_on_this_system() {
    let w = std::path::MAIN_SEPARATOR == '\\';
    for (base, comp) in [("/opt/app", "bat"), ("/opt/app/", "bat"), ("rel", "x.sh")] {
        let std = std::path::Path::new(base).join(comp).display().to_string();
        assert_eq!(join(w, base, comp), std);
    }
}

#[test]
fn script_candidates() {
    let c = script_file_candidates(
        false,
        Some("/opt/app/bin".to_string()),
        Some("/opt/app".to_string()),
        Some("/opt".to_string()),
        "install-all.bat",
        true,
    );
    assert_eq!(
        c,
        vec![
            "/opt/app/bin/bat/install-all.bat",
            "/opt/app/bin/resources/bat/install-all.bat",
            "/opt/bat/install-all.bat",
            "/opt/app/bin/app/bat/install-all.bat",
            "/opt/app/bat/install-all.bat",
        ]
    );
    let c = script_file_candidates(false, Some("/x".to_string()), Some("/".to_string()), None, "a.sh", false);
    assert_eq!(c, vec!["/x/bat/a.sh", "/x/resources/bat/a.sh", "/bat/a.sh"]);
    assert!(script_file_candidates(false, None, None, None, "a.sh", false).is_empty());
}

#[test]
fn picking_the_script() {
    let c: Vec<String> = vec!["a".into(), "b".into(), "c".into()];
    assert_eq!(pick_existing(&c, &vec![false, true, true]), "b");
    assert_eq!(pick_existing(&c, &vec![false, false, false]), "");
    assert_eq!(pick_existing(&vec![], &vec![]), "");
}

#[test]
fn log_and_lock_paths() {
    assert_eq!(get_log_dir(false, Some("/home/u".to_string())), "/home/u/.openclaw/logs");
    assert_eq!(get_log_dir(false, None), "logs");
    assert_eq!(get_log_file(false, "/home/u/.openclaw/logs"), "/home/u/.openclaw/logs/manager.log");
    assert_eq!(
        log_file_paths("/c"),
        vec!["/c/logs/gateway.log", "/c/logs/gateway.err.log", "/c/logs/manager.log"]
    );
    assert_eq!(error_log_path("/c"), "/c/logs/gateway.err.log");
    assert_eq!(lock_file_paths(false, "/h"), vec!["/h/.openclaw/gateway.lock", "/h/.openclaw/.gateway.lock"]);
    assert_eq!(
        lock_file_paths(true, "C:\\U"),
        vec![
            "C:\\U\\.openclaw\\gateway.lock",
            "C:\\U\\.openclaw\\.gateway.lock",
            "C:\\U\\AppData\\Local\\openclaw\\gateway.lock",
        ]
    );
}

#[test]
fn skill_paths() {
    assert_eq!(skills_dir(false, "/c"), "/c/skills");
    assert_eq!(skills_dir(true, "C:\\c"), "C:\\c\\skills");
    assert_eq!(skill_dir(false, "/c", "rag-query"), "/c/skills/rag-query");
    assert_eq!(skill_zip_path(true, "C:\\c", "rag"), "C:\\c\\skills\\rag.zip");
}

#[test]
fn cleaning_urls() {
    assert_eq!(clean_url("https://例子.com/a b?x=1&y=ü%20"), "https://.com/ab?x=1&y=%20");
    assert_eq!(clean_url("http://h:80/p_q-r~s.zip"), "http://h:80/p_q-r~s.zip");
    assert_eq!(clean_url("\"'<>"), "");
    let once = clean_url("ht tp://x/ä");
    assert_eq!(clean_url(&once), once);
}

#[test]
fn skill_plan() {
    let p = SkillInstallParams { skill_code: "rag-query".into(), download_url: " http://h/x.zip\n".into() };
    let plan = install_skill(&p, "/home/u/.openclaw", false);
    assert_eq!(plan.skills_dir, "/home/u/.openclaw/skills");
    assert_eq!(plan.zip_path, "/home/u/.openclaw/skills/rag-query.zip");
    assert_eq!(plan.extract_dir, "/home/u/.openclaw/skills/rag-query");
    assert_eq!(plan.url, "http://h/x.zip");
}

fn failed(n: SkillNext) -> (String, Option<String>) {
    match n {
        SkillNext::Finish(Ok(r)) => {
            assert!(!r.success);
            (r.message, r.error)
        },
        other => panic!("not a failure: {:?}", other),
    }
}

fn error(n: SkillNext) -> String {
    match n {
        SkillNext::Finish(Err(e)) => e,
        other => panic!("not an error: {:?}", other),
    }
}

#[test]
fn skill_steps() {
    assert!(matches!(skill_dir_created(Ok(())), SkillNext::Continue));
    assert_eq!(failed(skill_dir_created(Err("denied".into()))), ("创建技能目录失败".into(), Some("denied".into())));
    assert_eq!(error(skill_downloaded(DownloadOutcome::ClientFailed("tls".into()))), "创建 HTTP 客户端失败: tls");
    assert_eq!(error(skill_downloaded(DownloadOutcome::RequestFailed("dns".into()))), "下载请求失败: dns");
    assert_eq!(
        failed(skill_downloaded(DownloadOutcome::BadStatus("404 Not Found".into()))),
        ("下载失败，状态码: 404 Not Found".into(), None)
    );
    assert_eq!(error(skill_downloaded(DownloadOutcome::ReadFailed("eof".into()))), "读取下载内容失败: eof");
    assert_eq!(error(skill_downloaded(DownloadOutcome::CreateFailed("ro".into()))), "创建文件失败: ro");
    assert_eq!(error(skill_downloaded(DownloadOutcome::WriteFailed("full".into()))), "写入文件失败: full");
    assert_eq!(
        failed(skill_downloaded(DownloadOutcome::Saved(0))),
        ("下载的文件为空".into(), Some("zip 文件大小为 0".into()))
    );
    assert!(matches!(skill_downloaded(DownloadOutcome::Saved(10)), SkillNext::Continue));
    assert_eq!(failed(skill_old_dir_removed(Err("busy".into()))), ("删除旧技能目录失败".into(), Some("busy".into())));
    assert!(matches!(skill_old_dir_removed(Ok(())), SkillNext::Continue));
}

#[test]
fn skill_unpacking() {
    let ok = skill_unpacked("rag", ExtractOutcome::Unpacked).unwrap();
    assert!(ok.success && ok.error.is_none());
    assert_eq!(ok.message, "技能 rag 安装成功！");
    let cases = [
        (ExtractOutcome::DirFailed("e".into()), "创建目录失败: e"),
        (ExtractOutcome::ParentFailed("e".into()), "创建父目录失败: e"),
        (ExtractOutcome::FileFailed("e".into()), "创建文件失败: e"),
        (ExtractOutcome::WriteFailed("e".into()), "写入文件失败: e"),
    ];
    for (o, m) in cases {
        assert_eq!(skill_unpacked("rag", o).unwrap_err(), m);
    }
    assert!(is_dir_entry("scripts/"));
    assert!(!is_dir_entry("scripts/main.py"));
    assert!(!is_dir_entry(""));
}

#[test]
fn removing_skills() {
    let r = uninstall_skill("rag", None).unwrap();
    assert!(r.success && r.message == "技能 rag 未安装" && r.error.is_none());
    let r = uninstall_skill("rag", Some(Ok(()))).unwrap();
    assert!(r.success && r.message == "技能 rag 卸载成功！");
    let r = uninstall_skill("rag", Some(Err("busy".into()))).unwrap();
    assert!(!r.success && r.message == "技能 rag 卸载失败" && r.error.as_deref() == Some("busy"));
}

#[test]
fn listing_skills() {
    let entries = vec![
        SkillEntry { name: Some("a".into()), is_dir: true },
        SkillEntry { name: Some("file.zip".into()), is_dir: false },
        SkillEntry { name: None, is_dir: true },
        SkillEntry { name: Some("b".into()), is_dir: true },
    ];
    assert_eq!(get_installed_skills(&entries).unwrap(), vec!["a", "b"]);
    assert!(get_installed_skills(&vec![]).unwrap().is_empty());
    assert_eq!(check_skill_installed(true, true), Ok(true));
    assert_eq!(check_skill_installed(true, false), Ok(false));
    assert_eq!(check_skill_installed(false, false), Ok(false));
}
