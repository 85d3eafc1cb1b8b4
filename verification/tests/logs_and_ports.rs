use openclaw_manager::logs::{collect_log_lines, extract_pid_from_error_log, last_n_lines};
use openclaw_manager::ports::{
    format_pid_list, kill_process, listening_pid_from_netstat, listening_pids_from_netstat,
    pid_from_lsof, pids_from_lsof, port_in_use_from_netstat, port_pids_from_netstat,
    tasklist_shows_pid, SERVICE_PORT,
};
use openclaw_manager::service::get_logs;

fn owned(v: &[&str]) -> Vec<String> {
    v.iter().map(|s| s.to_string()).collect()
}

/// The log view as the manager has always built it with std.
fn std_log_view(contents: &[&str], n: usize) -> Vec<String> {
    let mut all: Vec<String> = Vec::new();
    for c in contents {
        let ls: Vec<&str> = c.lines().collect();
        let start = if ls.len() > n { ls.len() - n } else { 0 };
        for l in &ls[start..] {
            let t = l.trim();
            if !t.is_empty() {
                all.push(t.to_string());
            }
        }
    }
    all.sort();
    all.dedup();
    let total = all.len();
    if total > n {
        all = all.split_off(total - n);
    }
    all
}

#[test]
fn last_lines() {
    assert_eq!(last_n_lines("a\nb\nc\n", 2), owned(&["b", "c"]));
    assert_eq!(last_n_lines("a\r\nb", 5), owned(&["a", "b"]));
    assert_eq!(last_n_lines("", 3), Vec::<String>::new());
    assert_eq!(last_n_lines("x\ny", 0), Vec::<String>::new());
}

#[test]
fn pid_from_error_log() {
    let lines = owned(&[
        "2026-01-01 gateway already running (pid 7604)",
        "other",
        "gateway already running (pid 8123)",
        "pid 1 but nothing else",
    ]);
    assert_eq!(extract_pid_from_error_log(&lines), Some(8123));
    // `pid ` followed by nothing counts as pid 0.
    assert_eq!(extract_pid_from_error_log(&owned(&["gateway already running pid "])), Some(0));
    // A word that is no number is passed over for an earlier line.
    let lines = owned(&["gateway already running (pid 42)", "gateway already running (pid abc)"]);
    assert_eq!(extract_pid_from_error_log(&lines), Some(42));
    let lines = owned(&["Error: gateway already running (pid 7604); lock held"]);
    assert_eq!(extract_pid_from_error_log(&lines), None);
    let lines = owned(&["gateway already running: pid 31 since 10:00"]);
    assert_eq!(extract_pid_from_error_log(&lines), Some(31));
    // Only the text up to a second `pid ` is looked at: here nothing, so 0.
    assert_eq!(
        extract_pid_from_error_log(&owned(&["gateway already running pid pid 5"])),
        Some(0)
    );
    assert_eq!(extract_pid_from_error_log(&owned(&["all good"])), None);
    assert_eq!(extract_pid_from_error_log(&vec![]), None);
}

#[test]
fn log_view_matches_std() {
    let files = [
        "2026-01-02T00:00:01Z b\n2026-01-02T00:00:00Z a\n\n  2026-01-02T00:00:01Z b  \n",
        "z last\r\n\t\n2026-01-01 first\n",
        "",
        "ü unicode\nä other\nZ upper\n",
    ];
    for n in [0usize, 1, 2, 3, 100] {
        let got = collect_log_lines(&owned(&files), n);
        assert_eq!(got, std_log_view(&files, n), "n = {}", n);
    }
}

#[test]
fn log_view_is_sorted_and_bounded() {
    let files = ["c\nb\na\nb\n", "d\na\n"];
    let got = collect_log_lines(&owned(&files), 3);
    assert_eq!(got, owned(&["a", "b", "d"]));
    for w in got.windows(2) {
        assert!(w[0] < w[1]);
    }
}

#[test]
fn logs_default_to_hundred_lines() {
    let content: String = (0..150).map(|i| format!("{:03}\n", i)).collect();
    let got = get_logs(None, &vec![content.clone()]).unwrap();
    assert_eq!(got.len(), 100);
    assert_eq!(got[0], "050");
    let got = get_logs(Some(5), &vec![content]).unwrap();
    assert_eq!(got, owned(&["145", "146", "147", "148", "149"]));
}

const NETSTAT: &str = "\
Active Connections\r\n\
  Proto  Local Address          Foreign Address        State           PID\r\n\
  TCP    127.0.0.1:18789        0.0.0.0:0              LISTENING       4242\r\n\
  TCP    127.0.0.1:18789        127.0.0.1:50000        ESTABLISHED     4242\r\n\
  TCP    [::1]:18789            [::]:0                 LISTENING       5151\r\n\
  TCP    127.0.0.1:187890       0.0.0.0:0              LISTENING       9\r\n\
  TCP    127.0.0.1:8080         0.0.0.0:0              LISTENING       77\r\n";

#[test]
fn netstat_parsing() {
    assert_eq!(listening_pid_from_netstat(true, NETSTAT, SERVICE_PORT), Some(4242));
    assert_eq!(listening_pid_from_netstat(false, NETSTAT, SERVICE_PORT), None);
    // `:187890` names another port.
    assert_eq!(listening_pids_from_netstat(true, NETSTAT, SERVICE_PORT), vec![4242, 5151]);
    assert_eq!(port_pids_from_netstat(NETSTAT, SERVICE_PORT), vec![4242, 4242, 5151]);
    assert_eq!(listening_pids_from_netstat(true, NETSTAT, 8080), vec![77]);
    assert!(port_in_use_from_netstat(true, NETSTAT, SERVICE_PORT));
    assert!(!port_in_use_from_netstat(true, NETSTAT, 9999));
    assert!(!port_in_use_from_netstat(false, NETSTAT, SERVICE_PORT));
    let waiting = "  TCP 127.0.0.1:3000 1.2.3.4:5 TIME_WAIT 0\n";
    assert!(port_in_use_from_netstat(true, waiting, 3000));
    let syn = "  TCP 127.0.0.1:3000 1.2.3.4:5 SYN_SENT 0\n";
    assert!(!port_in_use_from_netstat(true, syn, 3000));
}

#[test]
fn netstat_port_must_end_the_address() {
    let one = "  TCP    0.0.0.0:18789    0.0.0.0:0    LISTENING    4242\r\n";
    assert_eq!(listening_pid_from_netstat(true, one, 1878), None);
    assert_eq!(listening_pid_from_netstat(true, one, 18789), Some(4242));
    assert!(!port_in_use_from_netstat(true, one, 1878));
    assert!(port_pids_from_netstat(one, 1878).is_empty());
    let at_end = "TCP 0.0.0.0:0 LISTENING 12 0.0.0.0:3000";
    assert_eq!(port_pids_from_netstat(at_end, 3000), Vec::<u32>::new());
    assert!(port_in_use_from_netstat(true, at_end, 3000));
}

#[test]
fn lsof_parsing() {
    assert_eq!(pid_from_lsof(true, "1234\n5678\n"), Some(1234));
    assert_eq!(pid_from_lsof(true, " 99 \n"), Some(99));
    assert_eq!(pid_from_lsof(true, ""), None);
    assert_eq!(pid_from_lsof(true, "x\n5\n"), None);
    assert_eq!(pid_from_lsof(false, "1234\n"), None);
    assert_eq!(pids_from_lsof(true, "1234\nbad\n 5678\n"), vec![1234, 5678]);
    assert_eq!(pids_from_lsof(false, "1234\n"), Vec::<u32>::new());
}

#[test]
fn tasklist_and_kill() {
    let out = "Image Name  PID\nnode.exe    4242 Console\n";
    assert!(tasklist_shows_pid(out, 4242));
    assert!(!tasklist_shows_pid(out, 4243));
    assert!(!tasklist_shows_pid("INFO: No tasks are running", 4242));
    assert_eq!(kill_process(false, 42, false), ("kill".to_string(), owned(&["-TERM", "42"])));
    assert_eq!(kill_process(false, 42, true), ("kill".to_string(), owned(&["-9", "42"])));
    assert_eq!(kill_process(true, 42, true), ("taskkill".to_string(), owned(&["/F", "/PID", "42"])));
    assert_eq!(kill_process(true, 42, false), ("taskkill".to_string(), owned(&["/PID", "42"])));
}

#[test]
fn pid_lists_like_debug() {
    for pids in [vec![], vec![7u32], vec![1, 22, 333]] {
        assert_eq!(format_pid_list(&pids), format!("{:?}", pids));
    }
}
