//! The environment check: which Node.js and OpenClaw are installed, where
//! Node.js may be found, and whether the system is ready.
use vstd::prelude::*;
use crate::model::EnvironmentStatus;
use crate::text::{
    append_str, chars_of, concat2, concat3, copy_range, lines, lines_chars, starts_with, starts_with_chars,
    str_eq, string_of, string_views, trim, trim_chars, trim_str, views,
};
use crate::version::{check_node_version_requirement, node_version_ok, opt_view};

verus! {

broadcast use vstd::string::group_string_axioms;

/// The operating systems that the manager tells apart.
#[derive(Debug, Clone, Copy, PartialEq, Eq, Structural)]
pub enum Platform {
    Windows,
    MacOs,
    Linux,
    Other,
}

/// The platform that an operating system name (`windows`, `macos`, `linux`)
/// stands for.
pub open spec fn platform_spec(os: Seq<char>) -> Platform {
    if os == "windows"@ {
        Platform::Windows
    } else if os == "macos"@ {
        Platform::MacOs
    } else if os == "linux"@ {
        Platform::Linux
    } else {
        Platform::Other
    }
}

/// The platform that an operating system name stands for.
pub fn platform_of(os: &str) -> (p: Platform)
    ensures
        p == platform_spec(os@),
{
    if str_eq(os, "windows") {
        Platform::Windows
    } else if str_eq(os, "macos") {
        Platform::MacOs
    } else if str_eq(os, "linux") {
        Platform::Linux
    } else {
        Platform::Other
    }
}

/// Whether the environment is ready: Node.js installed in a version that
/// meets the requirement, and OpenClaw installed.
pub open spec fn environment_ready(node_version: Option<Seq<char>>, openclaw_version: Option<Seq<char>>) -> bool {
    node_version is Some && node_version_ok(node_version) && openclaw_version is Some
}

/// The environment status from what was found: the operating system, the
/// Node.js and OpenClaw versions that were detected, and whether the
/// configuration directory exists.
pub fn check_environment(
    os: String,
    node_version: Option<String>,
    openclaw_version: Option<String>,
    config_dir_exists: bool,
) -> (r: Result<EnvironmentStatus, String>)
    ensures
        r is Ok,
        r matches Ok(st) && st.os@ == os@ && opt_view(st.node_version) == opt_view(node_version)
            && opt_view(st.openclaw_version) == opt_view(openclaw_version) && st.node_installed == (
        node_version is Some) && st.node_version_ok == node_version_ok(opt_view(node_version))
            && st.openclaw_installed == (openclaw_version is Some) && st.config_dir_exists
            == config_dir_exists && st.ready == environment_ready(
            opt_view(node_version),
            opt_view(openclaw_version),
        ),
{
    let node_installed = node_version.is_some();
    let node_version_ok = check_node_version_requirement(&node_version);
    let openclaw_installed = openclaw_version.is_some();
    let ready = node_installed && node_version_ok && openclaw_installed;
    Ok(
        EnvironmentStatus {
            node_installed,
            node_version,
            node_version_ok,
            openclaw_installed,
            openclaw_version,
            config_dir_exists,
            ready,
            os,
        },
    )
}

// ---------------------------------------------------------------------------
// Finding Node.js
// ---------------------------------------------------------------------------

/// How Node.js was looked for.
#[derive(Debug, Clone, Copy, PartialEq, Eq, Structural)]
pub enum NodeProbeKind {
    /// `node --version` through the search path.
    OnPath,
    /// A Node.js binary at a known install location.
    AtPath,
    /// `node --version` in the user's login shell profile.
    LoginShell,
}

/// One attempt to find Node.js: what was run, and what it printed when it
/// ran (`None` when it failed or the binary was not there).
#[derive(Debug, Clone)]
pub struct NodeProbe {
    pub kind: NodeProbeKind,
    pub output: Option<String>,
}

/// The version that a probe's output gives, when the manager accepts it.
/// On Windows the trimmed output must begin with `v`. Elsewhere the output
/// of the login shell must begin with `v`, and that of the other probes is
/// taken as it is (trimmed).
pub open spec fn accepted_node_output(is_windows: bool, kind: NodeProbeKind, out: Seq<char>) -> Option<Seq<char>> {
    if is_windows {
        let t = trim(out);
        if t.len() > 0 && t[0] == 'v' {
            Some(t)
        } else {
            None
        }
    } else {
        match kind {
            NodeProbeKind::LoginShell => if out.len() > 0 && out[0] == 'v' {
                Some(trim(out))
            } else {
                None
            },
            _ => Some(trim(out)),
        }
    }
}

/// What a probe gives.
pub open spec fn probe_result(is_windows: bool, p: NodeProbe) -> Option<Seq<char>> {
    match p.output {
        Some(o) => accepted_node_output(is_windows, p.kind, o@),
        None => None,
    }
}

/// The version given by the first probe that gives one.
pub open spec fn first_node_version(is_windows: bool, probes: Seq<NodeProbe>) -> Option<Seq<char>>
    decreases probes.len(),
{
    if probes.len() == 0 {
        None
    } else {
        match probe_result(is_windows, probes[0]) {
            Some(v) => Some(v),
            None => first_node_version(is_windows, probes.drop_first()),
        }
    }
}

/// What one probe gives.
fn node_probe_version(is_windows: bool, p: &NodeProbe) -> (r: Option<String>)
    ensures
        opt_view(r) == probe_result(is_windows, *p),
{
    match &p.output {
        None => None,
        Some(o) => {
            let raw = chars_of(o.as_str());
            if is_windows {
                let t = trim_chars(&raw);
                if t.len() > 0 && t[0] == 'v' {
                    Some(string_of(&t))
                } else {
                    None
                }
            } else {
                match p.kind {
                    NodeProbeKind::LoginShell => {
                        if raw.len() > 0 && raw[0] == 'v' {
                            Some(trim_str(o.as_str()))
                        } else {
                            None
                        }
                    },
                    _ => Some(trim_str(o.as_str())),
                }
            }
        },
    }
}

/// The installed Node.js version, from the probes made so far in the order
/// they were made: the version given by the first probe that gives one.
/// The probes go: the search path, then each known install location, then
/// (except on Windows) the login shell; one may stop at the first that
/// gives a version, since later probes do not change the answer.
pub fn get_node_version(is_windows: bool, probes: &Vec<NodeProbe>) -> (r: Option<String>)
    ensures
        opt_view(r) == first_node_version(is_windows, probes@),
{
    let mut i: usize = 0;
    assert(probes@.skip(0) == probes@);
    while i < probes.len()
        invariant
            i <= probes@.len(),
            first_node_version(is_windows, probes@) == first_node_version(
                is_windows,
                probes@.skip(i as int),
            ),
        decreases probes@.len() - i,
    {
        let ghost rest = probes@.skip(i as int);
        assert(rest[0] == probes@[i as int]);
        let v = node_probe_version(is_windows, &probes[i]);
        if v.is_some() {
            return v;
        }
        assert(rest.drop_first() == probes@.skip(i + 1));
        i = i + 1;
    }
    None
}

/// Probes made after one that gave a version do not change the answer.
pub proof fn lemma_node_version_prefix_stable(is_windows: bool, probes: Seq<NodeProbe>, more: Seq<NodeProbe>)
    requires
        first_node_version(is_windows, probes) is Some,
    ensures
        first_node_version(is_windows, probes + more) == first_node_version(is_windows, probes),
    decreases probes.len(),
{
    if probe_result(is_windows, probes[0]) is None {
        assert((probes + more).drop_first() == probes.drop_first() + more);
        lemma_node_version_prefix_stable(is_windows, probes.drop_first(), more);
    }
    assert((probes + more)[0] == probes[0]);
}

// ---------------------------------------------------------------------------
// Where Node.js may be installed
// ---------------------------------------------------------------------------

/// The places where Node.js may be installed on macOS and Linux: Homebrew
/// and the system first, then nvm's usual versions, fnm, volta, asdf and
/// mise under the home directory; nvm's default version, when its alias file
/// names one, before all others.
pub open spec fn unix_node_paths(home: Option<Seq<char>>, nvm_default: Option<Seq<char>>) -> Seq<Seq<char>> {
    let fixed = seq!["/opt/homebrew/bin/node"@, "/usr/local/bin/node"@, "/usr/bin/node"@];
    match home {
        None => fixed,
        Some(h) => {
            let nvm = seq![
                h + "/.nvm/versions/node/v22.0.0/bin/node"@,
                h + "/.nvm/versions/node/v22.1.0/bin/node"@,
                h + "/.nvm/versions/node/v22.2.0/bin/node"@,
                h + "/.nvm/versions/node/v22.11.0/bin/node"@,
                h + "/.nvm/versions/node/v22.12.0/bin/node"@,
                h + "/.nvm/versions/node/v23.0.0/bin/node"@,
            ];
            let managers = seq![
                h + "/.fnm/aliases/default/bin/node"@,
                h + "/.volta/bin/node"@,
                h + "/.asdf/shims/node"@,
                h + "/.local/share/mise/shims/node"@,
            ];
            let default = match nvm_default {
                Some(c) => if trim(c).len() > 0 {
                    seq![h + "/.nvm/versions/node/v"@ + trim(c) + "/bin/node"@]
                } else {
                    seq![]
                },
                None => seq![],
            };
            default + fixed + nvm + managers
        },
    }
}

/// The places where Node.js may be installed on macOS and Linux, given the
/// home directory and the contents of nvm's default alias file.
pub fn get_unix_node_paths(home: Option<String>, nvm_default: Option<String>) -> (r: Vec<String>)
    ensures
        string_views(r@) == unix_node_paths(opt_view(home), opt_view(nvm_default)),
{
    let mut paths: Vec<String> = Vec::new();
    match &home {
        None => {
            paths.push(String::from_str("/opt/homebrew/bin/node"));
            paths.push(String::from_str("/usr/local/bin/node"));
            paths.push(String::from_str("/usr/bin/node"));
            assert(string_views(paths@) =~= unix_node_paths(opt_view(home), opt_view(nvm_default)));
            paths
        },
        Some(h) => {
            let hs = h.as_str();
            match &nvm_default {
                Some(c) => {
                    let v = trim_str(c.as_str());
                    if !v.as_str().is_empty() {
                        let mut p = concat3(hs, "/.nvm/versions/node/v", v.as_str());
                        append_str(&mut p, "/bin/node");
                        paths.push(p);
                    }
                },
                None => {},
            }
            paths.push(String::from_str("/opt/homebrew/bin/node"));
            paths.push(String::from_str("/usr/local/bin/node"));
            paths.push(String::from_str("/usr/bin/node"));
            paths.push(concat2(hs, "/.nvm/versions/node/v22.0.0/bin/node"));
            paths.push(concat2(hs, "/.nvm/versions/node/v22.1.0/bin/node"));
            paths.push(concat2(hs, "/.nvm/versions/node/v22.2.0/bin/node"));
            paths.push(concat2(hs, "/.nvm/versions/node/v22.11.0/bin/node"));
            paths.push(concat2(hs, "/.nvm/versions/node/v22.12.0/bin/node"));
            paths.push(concat2(hs, "/.nvm/versions/node/v23.0.0/bin/node"));
            paths.push(concat2(hs, "/.fnm/aliases/default/bin/node"));
            paths.push(concat2(hs, "/.volta/bin/node"));
            paths.push(concat2(hs, "/.asdf/shims/node"));
            paths.push(concat2(hs, "/.local/share/mise/shims/node"));
            assert(string_views(paths@) =~= unix_node_paths(opt_view(home), opt_view(nvm_default)));
            paths
        },
    }
}

/// The prefix of the line of nvm-windows' `settings.txt` that names the
/// version in use.
pub open spec fn current_prefix() -> Seq<char> {
    "current:"@
}

/// The Node.js binary that one line of nvm-windows' settings names, when it
/// names one: `<nvm_home>\v<version>\node.exe`.
pub open spec fn nvm_settings_entry(nvm_home: Seq<char>, line: Seq<char>) -> Option<Seq<char>> {
    if starts_with(line, current_prefix()) {
        let version = trim(line.skip(current_prefix().len() as int));
        if version.len() > 0 {
            Some(nvm_home + "\\v"@ + version + "\\node.exe"@)
        } else {
            None
        }
    } else {
        None
    }
}

/// The binaries that the lines of the settings name, the last line's first
/// (each one goes in front of those before it).
pub open spec fn nvm_settings_paths(nvm_home: Seq<char>, ls: Seq<Seq<char>>) -> Seq<Seq<char>>
    decreases ls.len(),
{
    if ls.len() == 0 {
        seq![]
    } else {
        match nvm_settings_entry(nvm_home, ls.last()) {
            Some(p) => seq![p] + nvm_settings_paths(nvm_home, ls.drop_last()),
            None => nvm_settings_paths(nvm_home, ls.drop_last()),
        }
    }
}

/// The places where Node.js may be installed on Windows: the standard
/// install directories, then those under the home directory, then those that
/// `ProgramFiles` and `ProgramFiles(x86)` name; nvm-windows' symlink before
/// all of these, and before that the versions that nvm-windows' settings
/// name.
pub open spec fn windows_node_paths(
    home: Option<Seq<char>>,
    program_files: Option<Seq<char>>,
    program_files_x86: Option<Seq<char>>,
    nvm_symlink: Option<Seq<char>>,
    nvm_home: Option<Seq<char>>,
    nvm_settings: Option<Seq<char>>,
) -> Seq<Seq<char>> {
    let fixed = seq![
        "C:\\Program Files\\nodejs\\node.exe"@,
        "C:\\Program Files (x86)\\nodejs\\node.exe"@,
        "C:\\nvm4w\\nodejs\\node.exe"@,
    ];
    let in_home = match home {
        Some(h) => seq![
            h + "\\AppData\\Roaming\\nvm\\current\\node.exe"@,
            h + "\\AppData\\Roaming\\fnm\\aliases\\default\\node.exe"@,
            h + "\\AppData\\Local\\fnm\\aliases\\default\\node.exe"@,
            h + "\\.fnm\\aliases\\default\\node.exe"@,
            h + "\\AppData\\Local\\Volta\\bin\\node.exe"@,
            h + "\\scoop\\apps\\nodejs\\current\\node.exe"@,
            h + "\\scoop\\apps\\nodejs-lts\\current\\node.exe"@,
            "C:\\ProgramData\\chocolatey\\lib\\nodejs\\tools\\node.exe"@,
        ],
        None => seq![],
    };
    let pf = match program_files {
        Some(p) => seq![p + "\\nodejs\\node.exe"@],
        None => seq![],
    };
    let pf86 = match program_files_x86 {
        Some(p) => seq![p + "\\nodejs\\node.exe"@],
        None => seq![],
    };
    let symlink = match nvm_symlink {
        Some(s) => seq![s + "\\node.exe"@],
        None => seq![],
    };
    let settings = match (nvm_home, nvm_settings) {
        (Some(h), Some(c)) => nvm_settings_paths(h, lines(c)),
        _ => seq![],
    };
    settings + symlink + fixed + in_home + pf + pf86
}

/// The places where Node.js may be installed on Windows, given the home
/// directory, the variables `ProgramFiles`, `ProgramFiles(x86)`,
/// `NVM_SYMLINK` and `NVM_HOME`, and the contents of nvm-windows'
/// `settings.txt` (read only when `NVM_HOME` is set).
pub fn get_windows_node_paths(
    home: Option<String>,
    program_files: Option<String>,
    program_files_x86: Option<String>,
    nvm_symlink: Option<String>,
    nvm_home: Option<String>,
    nvm_settings: Option<String>,
) -> (r: Vec<String>)
    ensures
        string_views(r@) == windows_node_paths(
            opt_view(home),
            opt_view(program_files),
            opt_view(program_files_x86),
            opt_view(nvm_symlink),
            opt_view(nvm_home),
            opt_view(nvm_settings),
        ),
{
    let mut paths: Vec<String> = Vec::new();
    let ghost settings = match (opt_view(nvm_home), opt_view(nvm_settings)) {
        (Some(h), Some(c)) => nvm_settings_paths(h, lines(c)),
        _ => seq![],
    };
    match (&nvm_home, &nvm_settings) {
        (Some(h), Some(c)) => {
            let chars = chars_of(c.as_str());
            let ls = lines_chars(&chars);
            let mut i = ls.len();
            assert(views(ls@).take(i as int) == views(ls@));
            let mut rev: Vec<String> = Vec::new();
            while i > 0
                invariant
                    i <= ls@.len(),
                    views(ls@) == lines(c@),
                    string_views(rev@) + nvm_settings_paths(h@, views(ls@).take(i as int))
                        == nvm_settings_paths(h@, lines(c@)),
                decreases i,
            {
                let line = &ls[i - 1];
                let ghost pre = views(ls@).take(i as int);
                assert(pre.last() == line@);
                assert(pre.drop_last() == views(ls@).take(i - 1));
                let ghost before = string_views(rev@);
                if starts_with_chars(line, "current:") {
                    proof {
                        reveal_strlit("current:");
                    }
                    let rest = copy_range(line, 8, line.len());
                    assert(rest@ == line@.skip(current_prefix().len() as int));
                    let version = trim_chars(&rest);
                    if version.len() > 0 {
                        let vs = string_of(&version);
                        let mut p = concat3(h.as_str(), "\\v", vs.as_str());
                        append_str(&mut p, "\\node.exe");
                        rev.push(p);
                        assert(string_views(rev@) == before.push(p@));
                        assert(before.push(p@) + nvm_settings_paths(h@, pre.drop_last()) == before
                            + (seq![p@] + nvm_settings_paths(h@, pre.drop_last())));
                    }
                }
                i = i - 1;
            }
            assert(views(ls@).take(0) == Seq::<Seq<char>>::empty());
            assert(string_views(rev@) + Seq::<Seq<char>>::empty() == string_views(rev@));
            paths = rev;
        },
        _ => {},
    }
    assert(string_views(paths@) == settings);
    match &nvm_symlink {
        Some(s) => {
            paths.push(concat2(s.as_str(), "\\node.exe"));
        },
        None => {},
    }
    paths.push(String::from_str("C:\\Program Files\\nodejs\\node.exe"));
    paths.push(String::from_str("C:\\Program Files (x86)\\nodejs\\node.exe"));
    paths.push(String::from_str("C:\\nvm4w\\nodejs\\node.exe"));
    match &home {
        Some(h) => {
            let hs = h.as_str();
            paths.push(concat2(hs, "\\AppData\\Roaming\\nvm\\current\\node.exe"));
            paths.push(concat2(hs, "\\AppData\\Roaming\\fnm\\aliases\\default\\node.exe"));
            paths.push(concat2(hs, "\\AppData\\Local\\fnm\\aliases\\default\\node.exe"));
            paths.push(concat2(hs, "\\.fnm\\aliases\\default\\node.exe"));
            paths.push(concat2(hs, "\\AppData\\Local\\Volta\\bin\\node.exe"));
            paths.push(concat2(hs, "\\scoop\\apps\\nodejs\\current\\node.exe"));
            paths.push(concat2(hs, "\\scoop\\apps\\nodejs-lts\\current\\node.exe"));
            paths.push(String::from_str("C:\\ProgramData\\chocolatey\\lib\\nodejs\\tools\\node.exe"));
        },
        None => {},
    }
    match &program_files {
        Some(p) => {
            paths.push(concat2(p.as_str(), "\\nodejs\\node.exe"));
        },
        None => {},
    }
    match &program_files_x86 {
        Some(p) => {
            paths.push(concat2(p.as_str(), "\\nodejs\\node.exe"));
        },
        None => {},
    }
    assert(string_views(paths@) =~= windows_node_paths(
        opt_view(home),
        opt_view(program_files),
        opt_view(program_files_x86),
        opt_view(nvm_symlink),
        opt_view(nvm_home),
        opt_view(nvm_settings),
    ));
    paths
}

} // verus!
