//! What the port and process tools print: which processes listen on the
//! gateway's port, whether the port is taken, and how a process is ended.
use vstd::prelude::*;
use crate::text::{
    append_str, chars_of, contains, contains_chars, contains_str, decimal, decimal_string,
    has_word_ending, has_word_ending_chars,
    lines, lines_chars, parse_u32, parse_u32_chars, push_decimal, split_ws, split_ws_chars,
    string_views, trim, trim_chars, views,
};

verus! {

broadcast use vstd::string::group_string_axioms;

/// The port that the gateway listens on.
pub const SERVICE_PORT: u16 = 18789;

/// The text `:<port>` by which the tools name a port.
pub open spec fn port_pattern(port: u16) -> Seq<char> {
    seq![':'] + decimal(port as nat)
}

/// `:<port>` as characters.
fn port_pattern_exec(port: u16) -> (r: Vec<char>)
    ensures
        r@ == port_pattern(port),
{
    let mut s = String::new();
    append_str(&mut s, ":");
    push_decimal(&mut s, port as u32);
    proof {
        reveal_strlit(":");
    }
    assert(Seq::<char>::empty() + ":"@ == seq![':']);
    chars_of(s.as_str())
}

/// The last whitespace-separated word of a line.
pub open spec fn last_word(line: Seq<char>) -> Option<Seq<char>> {
    let w = split_ws(line);
    if w.len() > 0 {
        Some(w.last())
    } else {
        None
    }
}

/// The number that ends a line, when it ends in one.
pub open spec fn trailing_number(line: Seq<char>) -> Option<u32> {
    match last_word(line) {
        Some(w) => parse_u32(w),
        None => None,
    }
}

/// The number that ends `line`.
fn trailing_number_exec(line: &Vec<char>) -> (r: Option<u32>)
    ensures
        r == trailing_number(line@),
{
    let words = split_ws_chars(line);
    if words.len() == 0 {
        return None;
    }
    assert(views(words@).last() == words@[words@.len() - 1]@);
    parse_u32_chars(&words[words.len() - 1])
}

// ---------------------------------------------------------------------------
// netstat (Windows)
// ---------------------------------------------------------------------------

/// Whether a `netstat -ano` line names `port` in one of its addresses:
/// `:<port>` ends a word, so that `:18789` does not name port 1878.
pub open spec fn names_port(line: Seq<char>, port: u16) -> bool {
    has_word_ending(line, port_pattern(port))
}

/// The pid of a `netstat -ano` line that shows a socket listening on `port`.
pub open spec fn netstat_listening_pid(line: Seq<char>, port: u16) -> Option<u32> {
    if names_port(line, port) && contains(line, "LISTENING"@) {
        trailing_number(line)
    } else {
        None
    }
}

/// The pid of a `netstat -ano` line that names `port` at all.
pub open spec fn netstat_port_pid(line: Seq<char>, port: u16) -> Option<u32> {
    if names_port(line, port) {
        trailing_number(line)
    } else {
        None
    }
}

/// The pids of the lines that show a socket listening on `port`, in order.
pub open spec fn netstat_listening_pids(ls: Seq<Seq<char>>, port: u16) -> Seq<u32>
    decreases ls.len(),
{
    if ls.len() == 0 {
        seq![]
    } else {
        netstat_listening_pids(ls.drop_last(), port) + match netstat_listening_pid(ls.last(), port) {
            Some(p) => seq![p],
            None => seq![],
        }
    }
}

/// The pids of the lines that name `port`, in order.
pub open spec fn netstat_port_pids(ls: Seq<Seq<char>>, port: u16) -> Seq<u32>
    decreases ls.len(),
{
    if ls.len() == 0 {
        seq![]
    } else {
        netstat_port_pids(ls.drop_last(), port) + match netstat_port_pid(ls.last(), port) {
            Some(p) => seq![p],
            None => seq![],
        }
    }
}

/// Whether a `netstat -ano` line shows `port` in a state that keeps it taken.
pub open spec fn netstat_line_takes_port(line: Seq<char>, port: u16) -> bool {
    names_port(line, port) && (contains(line, "LISTENING"@) || contains(
        line,
        "ESTABLISHED"@,
    ) || contains(line, "TIME_WAIT"@) || contains(line, "CLOSE_WAIT"@))
}

/// The pids in `netstat -ano` output, taking only the lines that
/// `keep_listening_only` selects (listening on `port`) or every line that
/// names `port`.
fn netstat_pids_exec(stdout: &str, port: u16, listening_only: bool) -> (r: Vec<u32>)
    ensures
        r@ == (if listening_only {
            netstat_listening_pids(lines(stdout@), port)
        } else {
            netstat_port_pids(lines(stdout@), port)
        }),
{
    let chars = chars_of(stdout);
    let ls = lines_chars(&chars);
    let pat = port_pattern_exec(port);
    let mut out: Vec<u32> = Vec::new();
    let mut i: usize = 0;
    while i < ls.len()
        invariant
            i <= ls@.len(),
            views(ls@) == lines(stdout@),
            pat@ == port_pattern(port),
            out@ == (if listening_only {
                netstat_listening_pids(views(ls@).take(i as int), port)
            } else {
                netstat_port_pids(views(ls@).take(i as int), port)
            }),
        decreases ls@.len() - i,
    {
        let line = &ls[i];
        proof {
            let pre = views(ls@).take(i + 1);
            assert(pre.drop_last() == views(ls@).take(i as int));
            assert(pre.last() == line@);
        }
        let selected = has_word_ending_chars(line, &pat) && (!listening_only || contains_str(
            line,
            "LISTENING",
        ));
        if selected {
            match trailing_number_exec(line) {
                Some(p) => {
                    out.push(p);
                },
                None => {},
            }
        }
        i = i + 1;
    }
    assert(views(ls@).take(ls@.len() as int) == views(ls@));
    out
}

/// The pid listening on `port`, from `netstat -ano` (the first one shown),
/// when the tool ran successfully.
pub fn listening_pid_from_netstat(success: bool, stdout: &str, port: u16) -> (r: Option<u32>)
    ensures
        r == (if success && netstat_listening_pids(lines(stdout@), port).len() > 0 {
            Some(netstat_listening_pids(lines(stdout@), port)[0])
        } else {
            None
        }),
{
    if !success {
        return None;
    }
    let pids = netstat_pids_exec(stdout, port, true);
    if pids.len() > 0 {
        Some(pids[0])
    } else {
        None
    }
}

/// The pids listening on `port`, from `netstat -ano`, when it ran
/// successfully.
pub fn listening_pids_from_netstat(success: bool, stdout: &str, port: u16) -> (r: Vec<u32>)
    ensures
        r@ == (if success {
            netstat_listening_pids(lines(stdout@), port)
        } else {
            seq![]
        }),
{
    if !success {
        return Vec::new();
    }
    netstat_pids_exec(stdout, port, true)
}

/// The pids of every line of `netstat -ano` that names `port`.
pub fn port_pids_from_netstat(stdout: &str, port: u16) -> (r: Vec<u32>)
    ensures
        r@ == netstat_port_pids(lines(stdout@), port),
{
    netstat_pids_exec(stdout, port, false)
}

/// Whether `netstat -ano` shows `port` taken: some line names it in the
/// LISTENING, ESTABLISHED, TIME_WAIT or CLOSE_WAIT state.
pub fn port_in_use_from_netstat(success: bool, stdout: &str, port: u16) -> (r: bool)
    ensures
        r == (success && exists|i: int|
            0 <= i < lines(stdout@).len() && netstat_line_takes_port(
                #[trigger] lines(stdout@)[i],
                port,
            )),
{
    if !success {
        return false;
    }
    let chars = chars_of(stdout);
    let ls = lines_chars(&chars);
    let pat = port_pattern_exec(port);
    let mut i: usize = 0;
    while i < ls.len()
        invariant
            i <= ls@.len(),
            views(ls@) == lines(stdout@),
            pat@ == port_pattern(port),
            success,
            forall|j: int| 0 <= j < i ==> !netstat_line_takes_port(#[trigger] views(ls@)[j], port),
        decreases ls@.len() - i,
    {
        let line = &ls[i];
        assert(views(ls@)[i as int] == line@);
        if has_word_ending_chars(line, &pat) && (contains_str(line, "LISTENING") || contains_str(
            line,
            "ESTABLISHED",
        ) || contains_str(line, "TIME_WAIT") || contains_str(line, "CLOSE_WAIT")) {
            assert(lines(stdout@).len() == ls@.len());
            assert(lines(stdout@)[i as int] == line@);
            assert(netstat_line_takes_port(lines(stdout@)[i as int], port));
            return true;
        }
        i = i + 1;
    }
    assert(lines(stdout@).len() == ls@.len());
    false
}

// ---------------------------------------------------------------------------
// lsof (Unix)
// ---------------------------------------------------------------------------

/// The pid on a line of `lsof -ti` output.
pub open spec fn lsof_pid(line: Seq<char>) -> Option<u32> {
    parse_u32(trim(line))
}

/// The pids on the lines of `lsof -ti` output, in order.
pub open spec fn lsof_pids(ls: Seq<Seq<char>>) -> Seq<u32>
    decreases ls.len(),
{
    if ls.len() == 0 {
        seq![]
    } else {
        lsof_pids(ls.drop_last()) + match lsof_pid(ls.last()) {
            Some(p) => seq![p],
            None => seq![],
        }
    }
}

/// The pid that `lsof -ti :<port>` shows first, when it ran successfully
/// and its first line is a pid.
pub fn pid_from_lsof(success: bool, stdout: &str) -> (r: Option<u32>)
    ensures
        r == (if success && lines(stdout@).len() > 0 {
            lsof_pid(lines(stdout@)[0])
        } else {
            None
        }),
{
    if !success {
        return None;
    }
    let chars = chars_of(stdout);
    let ls = lines_chars(&chars);
    if ls.len() == 0 {
        return None;
    }
    assert(views(ls@)[0] == ls@[0]@);
    let t = trim_chars(&ls[0]);
    parse_u32_chars(&t)
}

/// The pids that `lsof -ti :<port>` shows, when it ran successfully.
pub fn pids_from_lsof(success: bool, stdout: &str) -> (r: Vec<u32>)
    ensures
        r@ == (if success {
            lsof_pids(lines(stdout@))
        } else {
            seq![]
        }),
{
    let mut out: Vec<u32> = Vec::new();
    if !success {
        return out;
    }
    let chars = chars_of(stdout);
    let ls = lines_chars(&chars);
    let mut i: usize = 0;
    while i < ls.len()
        invariant
            i <= ls@.len(),
            views(ls@) == lines(stdout@),
            out@ == lsof_pids(views(ls@).take(i as int)),
        decreases ls@.len() - i,
    {
        proof {
            let pre = views(ls@).take(i + 1);
            assert(pre.drop_last() == views(ls@).take(i as int));
            assert(pre.last() == ls@[i as int]@);
        }
        let t = trim_chars(&ls[i]);
        match parse_u32_chars(&t) {
            Some(p) => {
                out.push(p);
            },
            None => {},
        }
        i = i + 1;
    }
    assert(views(ls@).take(ls@.len() as int) == views(ls@));
    out
}

// ---------------------------------------------------------------------------
// The port tool of each platform
// ---------------------------------------------------------------------------

/// The pid listening on `port`, from what the port tool printed:
/// `netstat -ano` on Windows, `lsof -ti :<port>` elsewhere.
pub open spec fn listening_pid_of(is_windows: bool, success: bool, out: Seq<char>, port: u16) -> Option<u32> {
    if !success {
        None
    } else if is_windows {
        if netstat_listening_pids(lines(out), port).len() > 0 {
            Some(netstat_listening_pids(lines(out), port)[0])
        } else {
            None
        }
    } else if lines(out).len() > 0 {
        lsof_pid(lines(out)[0])
    } else {
        None
    }
}

/// Whether `port` is taken, from what the port tool printed: on Windows a
/// line of `netstat -ano` shows it in a state that keeps it taken;
/// elsewhere `lsof -ti :<port>` succeeds, which it does when some process
/// has the port open.
pub open spec fn port_taken(is_windows: bool, success: bool, out: Seq<char>, port: u16) -> bool {
    if is_windows {
        success && exists|i: int|
            0 <= i < lines(out).len() && netstat_line_takes_port(#[trigger] lines(out)[i], port)
    } else {
        success
    }
}

/// The pid of a service listening on `port`, from the port tool's output
/// (see `listening_pid_of`).
pub fn check_port_listening(is_windows: bool, success: bool, stdout: &str, port: u16) -> (r: Option<u32>)
    ensures
        r == listening_pid_of(is_windows, success, stdout@, port),
{
    if is_windows {
        listening_pid_from_netstat(success, stdout, port)
    } else {
        pid_from_lsof(success, stdout)
    }
}

/// Whether `port` is taken, from the port tool's output (see
/// `port_taken`).
pub fn is_port_in_use(is_windows: bool, success: bool, stdout: &str, port: u16) -> (r: bool)
    ensures
        r == port_taken(is_windows, success, stdout@, port),
{
    if is_windows {
        port_in_use_from_netstat(success, stdout, port)
    } else {
        success
    }
}

/// The pids of the processes listening on `port`, from the port tool's
/// output.
pub fn get_pids_on_port(is_windows: bool, success: bool, stdout: &str, port: u16) -> (r: Vec<u32>)
    ensures
        r@ == (if !success {
            seq![]
        } else if is_windows {
            netstat_listening_pids(lines(stdout@), port)
        } else {
            lsof_pids(lines(stdout@))
        }),
{
    if is_windows {
        listening_pids_from_netstat(success, stdout, port)
    } else {
        pids_from_lsof(success, stdout)
    }
}

// ---------------------------------------------------------------------------
// tasklist, kill and the pid list of an error
// ---------------------------------------------------------------------------

/// Whether `tasklist /FI "PID eq <pid>"` output shows the process: it holds
/// the pid's digits.
pub fn tasklist_shows_pid(stdout: &str, pid: u32) -> (r: bool)
    ensures
        r == contains(stdout@, decimal(pid as nat)),
{
    let chars = chars_of(stdout);
    let d = decimal_string(pid);
    let dv = chars_of(d.as_str());
    contains_chars(&chars, &dv)
}

/// The notation of a list of pids in an error message: `[a, b, c]`.
pub open spec fn pid_list_text(pids: Seq<u32>) -> Seq<char>
    decreases pids.len(),
{
    if pids.len() == 0 {
        "[]"@
    } else {
        pid_list_items(pids.drop_last()) + decimal(pids.last() as nat) + "]"@
    }
}

/// `[` and the pids of `pids`, each followed by `, `.
pub open spec fn pid_list_items(pids: Seq<u32>) -> Seq<char>
    decreases pids.len(),
{
    if pids.len() == 0 {
        "["@
    } else {
        pid_list_items(pids.drop_last()) + decimal(pids.last() as nat) + ", "@
    }
}

/// `[a, b, c]` for the pids `a`, `b`, `c` (their `Debug` notation).
pub fn format_pid_list(pids: &Vec<u32>) -> (r: String)
    ensures
        r@ == pid_list_text(pids@),
{
    if pids.len() == 0 {
        let mut e = String::new();
        append_str(&mut e, "[]");
        assert(Seq::<char>::empty() + "[]"@ == "[]"@);
        return e;
    }
    let mut s = String::new();
    append_str(&mut s, "[");
    assert(Seq::<char>::empty() + "["@ == "["@);
    assert(pids@.take(0) == Seq::<u32>::empty());
    let mut i: usize = 0;
    let last = pids.len() - 1;
    while i < last
        invariant
            i <= last,
            last + 1 == pids@.len(),
            s@ == pid_list_items(pids@.take(i as int)),
        decreases pids@.len() - i,
    {
        push_decimal(&mut s, pids[i]);
        append_str(&mut s, ", ");
        proof {
            let pre = pids@.take(i + 1);
            assert(pre.drop_last() == pids@.take(i as int));
        }
        i = i + 1;
    }
    push_decimal(&mut s, pids[i]);
    append_str(&mut s, "]");
    assert(pids@.drop_last() == pids@.take(i as int));
    s
}

/// The program and arguments that end process `pid`: gently (`TERM`) or by
/// force, with `taskkill` on Windows and `kill` elsewhere.
pub open spec fn kill_command(is_windows: bool, pid: u32, force: bool) -> (Seq<char>, Seq<Seq<char>>) {
    let p = decimal(pid as nat);
    if is_windows {
        ("taskkill"@, if force {
            seq!["/F"@, "/PID"@, p]
        } else {
            seq!["/PID"@, p]
        })
    } else {
        ("kill"@, seq![if force {
            "-9"@
        } else {
            "-TERM"@
        }, p])
    }
}

/// The program and arguments that end process `pid` (see `kill_command`).
pub fn kill_process(is_windows: bool, pid: u32, force: bool) -> (r: (String, Vec<String>))
    ensures
        (r.0@, string_views(r.1@)) == kill_command(is_windows, pid, force),
{
    let p = decimal_string(pid);
    let mut args: Vec<String> = Vec::new();
    let prog = if is_windows {
        if force {
            args.push(String::from_str("/F"));
        }
        args.push(String::from_str("/PID"));
        String::from_str("taskkill")
    } else {
        args.push(String::from_str(if force {
            "-9"
        } else {
            "-TERM"
        }));
        String::from_str("kill")
    };
    args.push(p);
    assert(string_views(args@) =~= kill_command(is_windows, pid, force).1);
    (prog, args)
}

} // verus!
