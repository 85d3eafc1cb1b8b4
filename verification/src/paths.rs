//! The files and directories the manager works with: its install scripts,
//! its logs, the gateway's lock files, the skills directory, and the
//! download address of a skill.
use vstd::prelude::*;
use crate::text::{append_str, chars_of, concat2, push_char, string_of, string_views};
use crate::version::opt_view;

verus! {

broadcast use vstd::string::group_string_axioms;

/// The path separator: `\` on Windows, `/` elsewhere.
pub open spec fn separator(is_windows: bool) -> char {
    if is_windows {
        '\\'
    } else {
        '/'
    }
}

/// Whether `c` ends a path component: `/`, and also `\` on Windows.
pub open spec fn is_separator(is_windows: bool, c: char) -> bool {
    c == '/' || (is_windows && c == '\\')
}

/// `base` joined with the relative component `comp` (`Path::join` for a
/// component that is neither absolute nor prefixed): a separator goes
/// between them unless `base` is empty or already ends in one.
pub open spec fn join_path(is_windows: bool, base: Seq<char>, comp: Seq<char>) -> Seq<char> {
    if base.len() == 0 || is_separator(is_windows, base.last()) {
        base + comp
    } else {
        base + seq![separator(is_windows)] + comp
    }
}

/// `base` joined with the relative component `comp`.
pub fn join(is_windows: bool, base: &str, comp: &str) -> (r: String)
    ensures
        r@ == join_path(is_windows, base@, comp@),
{
    let b = chars_of(base);
    let mut out = string_of(&b);
    let n = b.len();
    if n > 0 && !(b[n - 1] == '/' || (is_windows && b[n - 1] == '\\')) {
        if is_windows {
            append_str(&mut out, "\\");
            proof {
                reveal_strlit("\\");
            }
        } else {
            append_str(&mut out, "/");
            proof {
                reveal_strlit("/");
            }
        }
    }
    append_str(&mut out, comp);
    out
}

/// `base` joined with `a`, then with `b`.
pub fn join2(is_windows: bool, base: &str, a: &str, b: &str) -> (r: String)
    ensures
        r@ == join_path(is_windows, join_path(is_windows, base@, a@), b@),
{
    let x = join(is_windows, base, a);
    join(is_windows, x.as_str(), b)
}

// ---------------------------------------------------------------------------
// The install scripts
// ---------------------------------------------------------------------------

/// Where an install script may lie, given the directory of the running
/// program, its parent and grandparent: `bat` beside the program, in
/// `resources`, in the grandparent (a development build), in `app` (a
/// portable build; only for `.bat` scripts) and in the parent.
pub open spec fn script_candidates(
    is_windows: bool,
    exe_dir: Option<Seq<char>>,
    parent: Option<Seq<char>>,
    grandparent: Option<Seq<char>>,
    file: Seq<char>,
    portable: bool,
) -> Seq<Seq<char>> {
    match exe_dir {
        None => seq![],
        Some(d) => {
            let in_bat = |base: Seq<char>| join_path(is_windows, join_path(is_windows, base, "bat"@), file);
            let first = seq![
                in_bat(d),
                join_path(is_windows, join_path(is_windows, join_path(is_windows, d, "resources"@), "bat"@), file),
            ];
            let dev = match grandparent {
                Some(g) => if parent is Some {
                    seq![in_bat(g)]
                } else {
                    seq![]
                },
                None => seq![],
            };
            let app = if portable {
                seq![join_path(is_windows, join_path(is_windows, join_path(is_windows, d, "app"@), "bat"@), file)]
            } else {
                seq![]
            };
            let up = match parent {
                Some(p) => seq![in_bat(p)],
                None => seq![],
            };
            first + dev + app + up
        },
    }
}

/// `base/bat/file`.
fn in_bat_dir(is_windows: bool, base: &str, file: &str) -> (r: String)
    ensures
        r@ == join_path(is_windows, join_path(is_windows, base@, "bat"@), file@),
{
    join2(is_windows, base, "bat", file)
}

/// `base/sub/bat/file`.
fn in_sub_bat_dir(is_windows: bool, base: &str, sub: &str, file: &str) -> (r: String)
    ensures
        r@ == join_path(is_windows, join_path(is_windows, join_path(is_windows, base@, sub@), "bat"@), file@),
{
    let x = join(is_windows, base, sub);
    join2(is_windows, x.as_str(), "bat", file)
}

/// The places where an install script may lie (see `script_candidates`);
/// `portable` adds the portable build's `app` directory, which is looked at
/// for `.bat` scripts only.
pub fn script_file_candidates(
    is_windows: bool,
    exe_dir: Option<String>,
    parent: Option<String>,
    grandparent: Option<String>,
    file: &str,
    portable: bool,
) -> (r: Vec<String>)
    ensures
        string_views(r@) == script_candidates(
            is_windows,
            opt_view(exe_dir),
            opt_view(parent),
            opt_view(grandparent),
            file@,
            portable,
        ),
{
    let mut out: Vec<String> = Vec::new();
    match &exe_dir {
        None => {
            assert(string_views(out@) =~= seq![]);
            out
        },
        Some(d) => {
            out.push(in_bat_dir(is_windows, d.as_str(), file));
            out.push(in_sub_bat_dir(is_windows, d.as_str(), "resources", file));
            match (&parent, &grandparent) {
                (Some(_), Some(g)) => {
                    out.push(in_bat_dir(is_windows, g.as_str(), file));
                },
                _ => {},
            }
            if portable {
                out.push(in_sub_bat_dir(is_windows, d.as_str(), "app", file));
            }
            match &parent {
                Some(p) => {
                    out.push(in_bat_dir(is_windows, p.as_str(), file));
                },
                None => {},
            }
            assert(string_views(out@) =~= script_candidates(
                is_windows,
                opt_view(exe_dir),
                opt_view(parent),
                opt_view(grandparent),
                file@,
                portable,
            ));
            out
        },
    }
}

/// The first of `candidates` that exists, where `exists[i]` tells whether
/// `candidates[i]` does; the empty path when none does.
pub open spec fn first_existing(candidates: Seq<Seq<char>>, exists: Seq<bool>) -> Seq<char>
    decreases candidates.len(),
{
    if candidates.len() == 0 || exists.len() == 0 {
        seq![]
    } else if exists[0] {
        candidates[0]
    } else {
        first_existing(candidates.drop_first(), exists.drop_first())
    }
}

/// The install script's path: the first candidate that exists, or the
/// empty path.
pub fn pick_existing(candidates: &Vec<String>, exists: &Vec<bool>) -> (r: String)
    ensures
        r@ == first_existing(string_views(candidates@), exists@),
{
    let mut i: usize = 0;
    assert(string_views(candidates@).skip(0) == string_views(candidates@));
    assert(exists@.skip(0) == exists@);
    while i < candidates.len() && i < exists.len()
        invariant
            i <= candidates@.len(),
            i <= exists@.len(),
            first_existing(string_views(candidates@), exists@) == first_existing(
                string_views(candidates@).skip(i as int),
                exists@.skip(i as int),
            ),
        decreases candidates@.len() - i,
    {
        let ghost c = string_views(candidates@).skip(i as int);
        let ghost e = exists@.skip(i as int);
        assert(c[0] == candidates@[i as int]@);
        assert(e[0] == exists@[i as int]);
        if exists[i] {
            return candidates[i].clone();
        }
        assert(c.drop_first() == string_views(candidates@).skip(i + 1));
        assert(e.drop_first() == exists@.skip(i + 1));
        i = i + 1;
    }
    String::new()
}

// ---------------------------------------------------------------------------
// Logs and lock files
// ---------------------------------------------------------------------------

/// The manager's log directory: `.openclaw/logs` under the home directory,
/// or `logs` when there is no home directory.
pub open spec fn log_dir_spec(is_windows: bool, home: Option<Seq<char>>) -> Seq<char> {
    match home {
        Some(h) => join_path(is_windows, join_path(is_windows, h, ".openclaw"@), "logs"@),
        None => "logs"@,
    }
}

/// The manager's log directory.
pub fn get_log_dir(is_windows: bool, home: Option<String>) -> (r: String)
    ensures
        r@ == log_dir_spec(is_windows, opt_view(home)),
{
    match &home {
        Some(h) => join2(is_windows, h.as_str(), ".openclaw", "logs"),
        None => String::from_str("logs"),
    }
}

/// The manager's own log file, `manager.log` in its log directory.
pub fn get_log_file(is_windows: bool, log_dir: &str) -> (r: String)
    ensures
        r@ == join_path(is_windows, log_dir@, "manager.log"@),
{
    join(is_windows, log_dir, "manager.log")
}

/// The manager's own log file, worked out on first use and kept from then
/// on.
#[derive(Debug)]
pub struct LogFileCache {
    /// The log file, once it was worked out.
    pub path: Option<String>,
}

/// The manager's log file under the home directory `home` (see
/// `log_dir_spec`).
pub open spec fn log_file_spec(is_windows: bool, home: Option<Seq<char>>) -> Seq<char> {
    join_path(is_windows, log_dir_spec(is_windows, home), "manager.log"@)
}

impl LogFileCache {
    /// A cache that holds no log file yet.
    pub fn new() -> (r: LogFileCache)
        ensures
            r.path is None,
    {
        LogFileCache { path: None }
    }

    /// The manager's log file: on the first call the one under the home
    /// directory `home`, which is kept; on every later call the kept one,
    /// whatever `home` is then.
    pub fn get_or_init(&mut self, is_windows: bool, home: Option<String>) -> (r: String)
        ensures
            old(self).path matches Some(p) ==> r == p && final(self).path == old(self).path,
            old(self).path is None ==> r@ == log_file_spec(is_windows, opt_view(home))
                && final(self).path == Some(r),
    {
        match &self.path {
            Some(p) => p.clone(),
            None => {
                let dir = get_log_dir(is_windows, home);
                let file = get_log_file(is_windows, dir.as_str());
                self.path = Some(file.clone());
                file
            },
        }
    }
}

/// The log files that the log view reads, in order: the gateway's log, its
/// error log and the manager's log, under `<config_dir>/logs`.
pub open spec fn log_files_spec(config_dir: Seq<char>) -> Seq<Seq<char>> {
    seq![
        config_dir + "/logs/gateway.log"@,
        config_dir + "/logs/gateway.err.log"@,
        config_dir + "/logs/manager.log"@,
    ]
}

/// The log files that the log view reads.
pub fn log_file_paths(config_dir: &str) -> (r: Vec<String>)
    ensures
        string_views(r@) == log_files_spec(config_dir@),
{
    let mut out: Vec<String> = Vec::new();
    out.push(concat2(config_dir, "/logs/gateway.log"));
    out.push(concat2(config_dir, "/logs/gateway.err.log"));
    out.push(concat2(config_dir, "/logs/manager.log"));
    assert(string_views(out@) =~= log_files_spec(config_dir@));
    out
}

/// The gateway's error log, in which a failed start reports the pid of the
/// gateway that is already running.
pub fn error_log_path(config_dir: &str) -> (r: String)
    ensures
        r@ == config_dir@ + "/logs/gateway.err.log"@,
{
    concat2(config_dir, "/logs/gateway.err.log")
}

/// The lock files that the gateway may leave behind: `gateway.lock` and
/// `.gateway.lock` in `.openclaw` under the home directory, and on Windows
/// also `AppData\Local\openclaw\gateway.lock`.
pub open spec fn lock_files_spec(is_windows: bool, home: Seq<char>) -> Seq<Seq<char>> {
    let dot = join_path(is_windows, home, ".openclaw"@);
    let common = seq![join_path(is_windows, dot, "gateway.lock"@), join_path(is_windows, dot, ".gateway.lock"@)];
    if is_windows {
        common + seq![
            join_path(
                is_windows,
                join_path(is_windows, join_path(is_windows, join_path(is_windows, home, "AppData"@), "Local"@), "openclaw"@),
                "gateway.lock"@,
            ),
        ]
    } else {
        common
    }
}

/// The lock files that the gateway may leave behind.
pub fn lock_file_paths(is_windows: bool, home: &str) -> (r: Vec<String>)
    ensures
        string_views(r@) == lock_files_spec(is_windows, home@),
{
    let dot = join(is_windows, home, ".openclaw");
    let mut out: Vec<String> = Vec::new();
    out.push(join(is_windows, dot.as_str(), "gateway.lock"));
    out.push(join(is_windows, dot.as_str(), ".gateway.lock"));
    if is_windows {
        let a = join2(is_windows, home, "AppData", "Local");
        let b = join2(is_windows, a.as_str(), "openclaw", "gateway.lock");
        out.push(b);
    }
    assert(string_views(out@) =~= lock_files_spec(is_windows, home@));
    out
}

// ---------------------------------------------------------------------------
// Skills
// ---------------------------------------------------------------------------

/// Where the skills live: `skills` in the configuration directory.
pub open spec fn skills_dir_spec(is_windows: bool, config_dir: Seq<char>) -> Seq<char> {
    config_dir + seq![separator(is_windows)] + "skills"@
}

/// Where a skill lives: a directory named by its code in the skills
/// directory.
pub open spec fn skill_dir_spec(is_windows: bool, config_dir: Seq<char>, code: Seq<char>) -> Seq<char> {
    skills_dir_spec(is_windows, config_dir) + seq![separator(is_windows)] + code
}

/// Where a skill's archive is downloaded to: `<code>.zip` in the skills
/// directory.
pub open spec fn skill_zip_spec(is_windows: bool, config_dir: Seq<char>, code: Seq<char>) -> Seq<char> {
    skill_dir_spec(is_windows, config_dir, code) + ".zip"@
}

/// The skills directory.
pub fn skills_dir(is_windows: bool, config_dir: &str) -> (r: String)
    ensures
        r@ == skills_dir_spec(is_windows, config_dir@),
{
    let mut s = String::from_str(config_dir);
    if is_windows {
        append_str(&mut s, "\\skills");
        proof {
            reveal_strlit("\\skills");
            reveal_strlit("skills");
        }
    } else {
        append_str(&mut s, "/skills");
        proof {
            reveal_strlit("/skills");
            reveal_strlit("skills");
        }
    }
    assert(s@ =~= skills_dir_spec(is_windows, config_dir@));
    s
}

/// A skill's directory.
pub fn skill_dir(is_windows: bool, config_dir: &str, code: &str) -> (r: String)
    ensures
        r@ == skill_dir_spec(is_windows, config_dir@, code@),
{
    let mut s = skills_dir(is_windows, config_dir);
    if is_windows {
        append_str(&mut s, "\\");
        proof {
            reveal_strlit("\\");
        }
    } else {
        append_str(&mut s, "/");
        proof {
            reveal_strlit("/");
        }
    }
    append_str(&mut s, code);
    s
}

/// A skill's downloaded archive.
pub fn skill_zip_path(is_windows: bool, config_dir: &str, code: &str) -> (r: String)
    ensures
        r@ == skill_zip_spec(is_windows, config_dir@, code@),
{
    let mut s = skill_dir(is_windows, config_dir, code);
    append_str(&mut s, ".zip");
    s
}

/// The characters that a download address keeps: ASCII letters and digits
/// and `: / . - _ ~ % ? = &`.
pub open spec fn url_char_allowed(c: char) -> bool {
    let u = c as u32;
    (48 <= u && u <= 57) || (65 <= u && u <= 90) || (97 <= u && u <= 122) || c == ':' || c == '/'
        || c == '.' || c == '-' || c == '_' || c == '~' || c == '%' || c == '?' || c == '='
        || c == '&'
}

/// A download address without the characters it may not keep (non-ASCII
/// characters among them).
pub open spec fn cleaned_url(s: Seq<char>) -> Seq<char>
    decreases s.len(),
{
    if s.len() == 0 {
        seq![]
    } else {
        cleaned_url(s.drop_last()) + if url_char_allowed(s.last()) {
            seq![s.last()]
        } else {
            seq![]
        }
    }
}

/// A download address without the characters it may not keep.
pub fn clean_url(url: &str) -> (r: String)
    ensures
        r@ == cleaned_url(url@),
{
    let v = chars_of(url);
    let mut out = String::new();
    let mut i: usize = 0;
    while i < v.len()
        invariant
            i <= v@.len(),
            v@ == url@,
            out@ == cleaned_url(v@.take(i as int)),
        decreases v@.len() - i,
    {
        let c = v[i];
        let u = c as u32;
        let keep = (48 <= u && u <= 57) || (65 <= u && u <= 90) || (97 <= u && u <= 122) || c == ':'
            || c == '/' || c == '.' || c == '-' || c == '_' || c == '~' || c == '%' || c == '?' || c
            == '=' || c == '&';
        proof {
            let pre = v@.take(i + 1);
            assert(pre.drop_last() == v@.take(i as int));
            assert(pre.last() == c);
        }
        if keep {
            push_char(&mut out, c);
        }
        i = i + 1;
    }
    assert(v@.take(v@.len() as int) == v@);
    out
}

/// A cleaned address keeps only allowed characters.
pub proof fn lemma_cleaned_url_allowed(s: Seq<char>)
    ensures
        forall|i: int| 0 <= i < cleaned_url(s).len() ==> url_char_allowed(#[trigger] cleaned_url(s)[i]),
    decreases s.len(),
{
    if s.len() > 0 {
        lemma_cleaned_url_allowed(s.drop_last());
        let a = cleaned_url(s.drop_last());
        assert forall|i: int| 0 <= i < cleaned_url(s).len() implies url_char_allowed(#[trigger] cleaned_url(s)[i]) by {
            if i < a.len() {
                assert(cleaned_url(s)[i] == a[i]);
            }
        }
    }
}

/// An address of allowed characters is kept as it is.
pub proof fn lemma_cleaned_url_keeps_allowed(s: Seq<char>)
    requires
        forall|i: int| 0 <= i < s.len() ==> url_char_allowed(#[trigger] s[i]),
    ensures
        cleaned_url(s) == s,
    decreases s.len(),
{
    if s.len() > 0 {
        let p = s.drop_last();
        assert forall|i: int| 0 <= i < p.len() implies url_char_allowed(#[trigger] p[i]) by {
            assert(p[i] == s[i]);
        }
        lemma_cleaned_url_keeps_allowed(p);
        assert(url_char_allowed(s[s.len() - 1]));
        assert(p + seq![s.last()] == s);
    }
}

/// Cleaning an address twice is cleaning it once.
pub proof fn lemma_clean_url_idempotent(s: Seq<char>)
    ensures
        cleaned_url(cleaned_url(s)) == cleaned_url(s),
{
    lemma_cleaned_url_allowed(s);
    lemma_cleaned_url_keeps_allowed(cleaned_url(s));
}

} // verus!
