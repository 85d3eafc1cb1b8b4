use openclaw_manager::environment::{
    check_environment, get_node_version, get_unix_node_paths, get_windows_node_paths, platform_of,
    NodeProbe, NodeProbeKind, Platform,
};
use openclaw_manager::text::{
    chars_of, decimal_string, lines_chars, parse_u32_chars, split_chars, split_ws_chars, str_eq,
    trim_str,
};
use openclaw_manager::version::{
    check_node_version_requirement, compare_versions, extract_version, get_latest_openclaw_version,
    get_openclaw_version,
};

fn strs(v: Vec<Vec<char>>) -> Vec<String> {
    v.into_iter().map(|c| c.into_iter().collect()).collect()
}

#[test]
fn trim_matches_std() {
    for s in ["", "  ", " a ", "\t\nx y\r\n", "\u{3000}全角\u{a0}", "\u{85}z\u{2028}", "abc"] {
        assert_eq!(trim_str(s), s.trim());
    }
}

#[test]
fn trim_twice_is_trim_once() {
    let s = " \u{2003} version 1 \n";
    let once = trim_str(s);
    assert_eq!(trim_str(&once), once);
}

#[test]
fn lines_match_std() {
    for s in ["", "\n", "a", "a\n", "a\r\nb\n\nc\r", "x\ry\n", "\n\n", "last\r\n"] {
        let ours = strs(lines_chars(&chars_of(s)));
        let std: Vec<String> = s.lines().map(|l| l.to_string()).collect();
        assert_eq!(ours, std, "lines of {:?}", s);
    }
}

#[test]
fn split_matches_std() {
    for s in ["", ".", "1.2.3", "a..b", ".x."] {
        let ours = strs(split_chars(&chars_of(s), '.'));
        let std: Vec<String> = s.split('.').map(|p| p.to_string()).collect();
        assert_eq!(ours, std);
    }
}

#[test]
fn split_whitespace_matches_std() {
    for s in ["", "   ", "a b", "  OpenClaw 2026.3.13 (61d171a) ", "x\u{3000}y\tz"] {
        let ours = strs(split_ws_chars(&chars_of(s)));
        let std: Vec<String> = s.split_whitespace().map(|p| p.to_string()).collect();
        assert_eq!(ours, std);
    }
}

#[test]
fn parse_matches_std() {
    for s in ["", "+", "-", "0", "+7", "-7", "42", "007", "4294967295", "4294967296", "99999999999", "1a", " 1", "１"] {
        assert_eq!(parse_u32_chars(&chars_of(s)), s.parse::<u32>().ok(), "parse of {:?}", s);
    }
}

#[test]
fn decimal_matches_to_string() {
    for n in [0u32, 7, 10, 18789, 4294967295] {
        assert_eq!(decimal_string(n), n.to_string());
    }
}

#[test]
fn decimal_parses_back() {
    for n in [0u32, 9, 10, 12345, 4294967295] {
        assert_eq!(parse_u32_chars(&chars_of(&decimal_string(n))), Some(n));
    }
}

#[test]
fn str_eq_compares_text() {
    assert!(str_eq("windows", "windows"));
    assert!(!str_eq("windows", "window"));
    assert!(!str_eq("macos", "linux"));
}

#[test]
fn node_requirement() {
    let some = |s: &str| Some(s.to_string());
    assert!(check_node_version_requirement(&some("v22.1.0")));
    assert!(check_node_version_requirement(&some("v23.0.0")));
    assert!(check_node_version_requirement(&some("22")));
    assert!(check_node_version_requirement(&some("vv24.1")));
    assert!(!check_node_version_requirement(&some("v21.9.9")));
    assert!(!check_node_version_requirement(&some("v18")));
    assert!(!check_node_version_requirement(&some("node")));
    assert!(!check_node_version_requirement(&some(" v22.1.0")));
    assert!(!check_node_version_requirement(&None));
}

#[test]
fn extract_version_from_reports() {
    assert_eq!(extract_version("OpenClaw 2026.3.13 (61d171a)"), "2026.3.13");
    assert_eq!(extract_version("1.0.0"), "1.0.0");
    assert_eq!(extract_version("  1.2.3\n"), "1.2.3");
    assert_eq!(extract_version("v1.2.3"), "v1.2.3");
    assert_eq!(extract_version("tool 1.2(beta) 3.4"), "1.2");
    assert_eq!(extract_version("no version here"), "no version here");
    assert_eq!(extract_version(""), "");
}

#[test]
fn compare_versions_cases() {
    assert!(compare_versions("1.0.0", "1.0.1"));
    assert!(compare_versions("OpenClaw 2026.3.13 (61d171a)", "2026.3.14"));
    assert!(compare_versions("1.9.9", " v2.0.0\n"));
    assert!(!compare_versions("2026.3.13", "v2026.3.13"));
    assert!(!compare_versions("2.0.0", "1.9.9"));
    assert!(!compare_versions("1.2.3.4", "1.2.3.9"));
    assert!(compare_versions("1.2", "1.2.1"));
    assert!(!compare_versions("1.2.1", "1.2"));
}

#[test]
fn same_version_offers_no_update() {
    for v in ["1.0.0", "2026.3.13", "3", "", "v1.0.0", "OpenClaw v2.1 (x)"] {
        assert!(!compare_versions(v, v));
    }
    assert!(!compare_versions("v1.0.0", "v1.0.0"));
    assert!(!compare_versions("v1.0.0", "1.0.0"));
    assert!(compare_versions("v1.0.0", "v1.0.1"));
}

#[test]
fn registry_version_is_only_trimmed() {
    // The registry's version is not searched for a version word.
    assert!(!compare_versions("1", "1.1("));
    assert!(!compare_versions("2.0", "tool 3.0"));
    assert!(compare_versions("1.0", "1.0 (x).5"));
    assert!(compare_versions("OpenClaw 1.0 (x)", " v1.1\n"));
}

#[test]
fn openclaw_version_outputs() {
    assert_eq!(get_openclaw_version(Ok(" 2026.3.13\n".to_string())), Some("2026.3.13".to_string()));
    assert_eq!(get_openclaw_version(Err("not found".to_string())), None);
    assert_eq!(get_latest_openclaw_version(Ok("1.2.3\n".to_string())), Some("1.2.3".to_string()));
    assert_eq!(get_latest_openclaw_version(Ok(" \n".to_string())), None);
    assert_eq!(get_latest_openclaw_version(Err("offline".to_string())), None);
}

#[test]
fn node_version_from_probes() {
    let p = |kind, out: Option<&str>| NodeProbe { kind, output: out.map(|s| s.to_string()) };
    // Windows wants a trimmed output that begins with `v`.
    let probes = vec![
        p(NodeProbeKind::OnPath, Some("'node' is not recognized")),
        p(NodeProbeKind::AtPath, None),
        p(NodeProbeKind::AtPath, Some(" v22.11.0\r\n")),
        p(NodeProbeKind::AtPath, Some("v20.0.0")),
    ];
    assert_eq!(get_node_version(true, &probes), Some("v22.11.0".to_string()));
    // Elsewhere the search path and install locations are taken as they are.
    let probes = vec![p(NodeProbeKind::OnPath, Some("weird\n")), p(NodeProbeKind::AtPath, Some("v22.0.0"))];
    assert_eq!(get_node_version(false, &probes), Some("weird".to_string()));
    // The login shell's output must begin with `v` before trimming.
    let probes = vec![p(NodeProbeKind::OnPath, None), p(NodeProbeKind::LoginShell, Some(" v22.0.0"))];
    assert_eq!(get_node_version(false, &probes), None);
    let probes = vec![p(NodeProbeKind::LoginShell, Some("v22.0.0\n"))];
    assert_eq!(get_node_version(false, &probes), Some("v22.0.0".to_string()));
    assert_eq!(get_node_version(false, &vec![]), None);
}

#[test]
fn node_version_later_probes_do_not_matter() {
    let p = |kind, out: Option<&str>| NodeProbe { kind, output: out.map(|s| s.to_string()) };
    let mut probes = vec![p(NodeProbeKind::OnPath, None), p(NodeProbeKind::AtPath, Some("v22.1.0"))];
    let first = get_node_version(false, &probes);
    probes.push(p(NodeProbeKind::AtPath, Some("v30.0.0")));
    assert_eq!(get_node_version(false, &probes), first);
}

#[test]
fn platforms() {
    assert_eq!(platform_of("windows"), Platform::Windows);
    assert_eq!(platform_of("macos"), Platform::MacOs);
    assert_eq!(platform_of("linux"), Platform::Linux);
    assert_eq!(platform_of("freebsd"), Platform::Other);
}

#[test]
fn environment_status() {
    let st = check_environment(
        "linux".to_string(),
        Some("v22.1.0".to_string()),
        Some("2026.3.13".to_string()),
        true,
    )
    .unwrap();
    assert!(st.node_installed && st.node_version_ok && st.openclaw_installed && st.ready);
    assert_eq!(st.os, "linux");
    let st = check_environment("windows".to_string(), Some("v20.0.0".to_string()), None, false).unwrap();
    assert!(st.node_installed && !st.node_version_ok && !st.openclaw_installed && !st.ready);
    assert!(!st.config_dir_exists);
    let st = check_environment("macos".to_string(), None, Some("1".to_string()), true).unwrap();
    assert!(!st.node_installed && !st.ready && st.openclaw_installed);
}

#[test]
fn unix_node_paths() {
    let none = get_unix_node_paths(None, None);
    assert_eq!(none, vec!["/opt/homebrew/bin/node", "/usr/local/bin/node", "/usr/bin/node"]);
    let with = get_unix_node_paths(Some("/home/u".to_string()), Some(" 22.3.0\n".to_string()));
    assert_eq!(with.len(), 14);
    assert_eq!(with[0], "/home/u/.nvm/versions/node/v22.3.0/bin/node");
    assert_eq!(with[1], "/opt/homebrew/bin/node");
    assert_eq!(with[4], "/home/u/.nvm/versions/node/v22.0.0/bin/node");
    assert_eq!(with[13], "/home/u/.local/share/mise/shims/node");
    let blank = get_unix_node_paths(Some("/h".to_string()), Some("  ".to_string()));
    assert_eq!(blank.len(), 13);
    assert_eq!(blank[0], "/opt/homebrew/bin/node");
}

#[test]
fn windows_node_paths() {
    let none = get_windows_node_paths(None, None, None, None, None, None);
    assert_eq!(none.len(), 3);
    assert_eq!(none[0], "C:\\Program Files\\nodejs\\node.exe");
    let all = get_windows_node_paths(
        Some("C:\\Users\\u".to_string()),
        Some("C:\\PF".to_string()),
        Some("C:\\PF86".to_string()),
        Some("C:\\nvm\\link".to_string()),
        Some("C:\\nvm".to_string()),
        Some("root: C:\\nvm\ncurrent: 22.1.0\r\ncurrent:   \ncurrent:23.0.0\n".to_string()),
    );
    assert_eq!(all[0], "C:\\nvm\\v23.0.0\\node.exe");
    assert_eq!(all[1], "C:\\nvm\\v22.1.0\\node.exe");
    assert_eq!(all[2], "C:\\nvm\\link\\node.exe");
    assert_eq!(all[3], "C:\\Program Files\\nodejs\\node.exe");
    assert_eq!(all[6], "C:\\Users\\u\\AppData\\Roaming\\nvm\\current\\node.exe");
    assert_eq!(all[13], "C:\\ProgramData\\chocolatey\\lib\\nodejs\\tools\\node.exe");
    assert_eq!(all[14], "C:\\PF\\nodejs\\node.exe");
    assert_eq!(all[15], "C:\\PF86\\nodejs\\node.exe");
    assert_eq!(all.len(), 16);
    // Settings are only read when NVM_HOME is set.
    let no_home = get_windows_node_paths(None, None, None, None, None, Some("current: 1".to_string()));
    assert_eq!(no_home.len(), 3);
}

#[test]
fn extracting_twice_is_extracting_once() {
    for r in ["OpenClaw 2026.3.13 (61d171a)", "tool 1.2(beta) 3.4", "x 1(.2 y", "  plain  ", "1.0.0"] {
        let once = extract_version(r);
        assert_eq!(extract_version(&once), once);
    }
}

#[test]
fn newer_is_a_strict_order() {
    let vs = ["1.0.0", "1.0.1", "1.1", "2", "0.9.9"];
    for a in vs {
        for b in vs {
            assert!(!(compare_versions(a, b) && compare_versions(b, a)));
            for c in vs {
                if compare_versions(a, b) && compare_versions(b, c) {
                    assert!(compare_versions(a, c));
                }
            }
        }
    }
}
