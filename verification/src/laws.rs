//! Properties that hold across the library's operations.
use vstd::prelude::*;
use crate::logs::{
    file_log_lines, last_n, lemma_sort_dedup, merged_log, sort_dedup, strictly_sorted, text_lt,
};
use crate::service::{
    start_measure, start_transition, start_wf, stop_transition, StartAction, StartEvent,
    StartOutcome, StartPhase, StartService, StopAction, StopEvent, StopOutcome, StopService,
};
use crate::environment::environment_ready;
use crate::installer::{script_file, ScriptJob, ScriptKind};
use crate::paths::{cleaned_url, lemma_cleaned_url_keeps_allowed, url_char_allowed};
use crate::ports::{
    listening_pid_of, netstat_line_takes_port, netstat_listening_pid,
    netstat_listening_pids, port_taken,
};
use crate::skills::{
    skill_expects, skill_names, skill_next_phase, DownloadOutcome, SkillEntry, SkillEvent,
    SkillPhase,
};
use crate::text::{
    all_digits, count_until, decimal, digit_char, digit_value, digits_value, is_digit, is_ws,
    lemma_count_until, lemma_nonws_prefix, lemma_nonws_prefix_bound, lines, nonws_prefix, parse_u32,
    split, split_ws, strip_leading, trim, trim_end, trim_start, unsigned_digits,
};
use crate::version::{
    cut_at_paren, extracted_version, first_version_word, has_char, is_version_word,
    lemma_newer_asymmetric, lemma_newer_irreflexive, lemma_newer_transitive,
    node_version_ok, normalized_latest, normalized_version, numbers_of, update_available,
    version_numbers,
};

verus! {

// ---------------------------------------------------------------------------
// Trimming
// ---------------------------------------------------------------------------

/// `trim_start` leaves a text that is empty or begins with a character that
/// is not whitespace.
proof fn lemma_trim_start_shape(s: Seq<char>)
    ensures
        trim_start(s).len() == 0 || !is_ws(trim_start(s)[0]),
    decreases s.len(),
{
    if s.len() > 0 && is_ws(s[0]) {
        lemma_trim_start_shape(s.drop_first());
    }
}

/// `trim_end` leaves a prefix of the text that is empty or ends with a
/// character that is not whitespace, and keeps a first character that is
/// not whitespace.
proof fn lemma_trim_end_shape(s: Seq<char>)
    ensures
        trim_end(s).len() <= s.len(),
        trim_end(s) == s.take(trim_end(s).len() as int),
        trim_end(s).len() == 0 || !is_ws(trim_end(s).last()),
        s.len() > 0 && !is_ws(s[0]) ==> trim_end(s).len() > 0,
    decreases s.len(),
{
    if s.len() > 0 && is_ws(s.last()) {
        lemma_trim_end_shape(s.drop_last());
        let t = trim_end(s.drop_last());
        assert(s.drop_last().take(t.len() as int) == s.take(t.len() as int));
    } else {
        assert(s.take(s.len() as int) == s);
    }
}

/// Trimming a trimmed text changes nothing.
pub proof fn lemma_trim_idempotent(s: Seq<char>)
    ensures
        trim(trim(s)) == trim(s),
{
    let u = trim_start(s);
    lemma_trim_start_shape(s);
    let w = trim_end(u);
    lemma_trim_end_shape(u);
    if w.len() > 0 {
        assert(w[0] == u[0]);
    }
    assert(trim_start(w) == w);
    lemma_trim_end_shape(w);
    assert(trim_end(w) == w);
}

// ---------------------------------------------------------------------------
// Versions
// ---------------------------------------------------------------------------

/// Whether the version text `v` reads the same as a report and as a
/// registry version: true of a bare version such as `1.2.3` or `v1.2.3`.
pub open spec fn reads_alike(v: Seq<char>) -> bool {
    normalized_version(v) == normalized_latest(v)
}

/// No update is offered when the registry names the installed version:
/// comparing a version with itself finds nothing newer.
pub proof fn lemma_same_version_no_update(v: Seq<char>)
    requires
        reads_alike(v),
    ensures
        !update_available(v, v),
{
    lemma_newer_irreflexive(version_numbers(normalized_version(v)));
}

/// Offering an update orders versions strictly: never both ways between two
/// versions, and from `a` to `c` whenever from `a` to `b` and from `b` to
/// `c`.
pub proof fn lemma_update_order(a: Seq<char>, b: Seq<char>, c: Seq<char>)
    requires
        reads_alike(a),
        reads_alike(b),
        reads_alike(c),
    ensures
        !(update_available(a, b) && update_available(b, a)),
        update_available(a, b) && update_available(b, c) ==> update_available(a, c),
{
    let (va, vb, vc) = (
        version_numbers(normalized_version(a)),
        version_numbers(normalized_version(b)),
        version_numbers(normalized_version(c)),
    );
    lemma_newer_asymmetric(va, vb);
    if update_available(a, b) && update_available(b, c) {
        lemma_newer_transitive(va, vb, vc);
    }
}

/// A bare version, one word of digits and dots behind optional `v`s,
/// reads alike either way.
pub proof fn lemma_bare_version_reads_alike(v: Seq<char>)
    requires
        v.len() > 0,
        forall|i: int| 0 <= i < v.len() ==> is_digit(#[trigger] v[i]) || v[i] == '.',
    ensures
        reads_alike(v),
{
    assert(ws_free(v)) by {
        assert forall|i: int| 0 <= i < v.len() implies !is_ws(#[trigger] v[i]) by {
            assert(is_digit(v[i]) || v[i] == '.');
        }
    }
    lemma_trim_ws_free(v);
    lemma_split_ws_single(v);
    assert(seq![v][0] == v);
    assert(seq![v].drop_first() == Seq::<Seq<char>>::empty());
    if is_version_word(v) {
        assert forall|j: int| 0 <= j < v.len() implies #[trigger] v[j] != '(' by {
            assert(is_digit(v[j]) || v[j] == '.');
        }
        crate::text::lemma_count_until(v, '(', v.len() as int);
        assert(!has_char(v, '('));
        assert(cut_at_paren(v) == v);
        assert(first_version_word(seq![v]) == Some(v));
    } else {
        assert(first_version_word(seq![v]) == first_version_word(seq![v].drop_first()));
        assert(first_version_word(seq![v]) is None);
    }
    assert(extracted_version(v) == v);
}

/// Whether no character of `s` is whitespace.
pub open spec fn ws_free(s: Seq<char>) -> bool {
    forall|i: int| 0 <= i < s.len() ==> !is_ws(#[trigger] s[i])
}

/// A text without whitespace is its own trim.
proof fn lemma_trim_ws_free(s: Seq<char>)
    requires
        ws_free(s),
    ensures
        trim(s) == s,
{
    assert(trim_start(s) == s);
    if s.len() > 0 {
        assert(!is_ws(s[s.len() - 1]));
    }
    assert(trim_end(s) == s);
}

/// The characters before `nonws_prefix` are not whitespace.
proof fn lemma_nonws_prefix_chars(s: Seq<char>)
    ensures
        forall|j: int| 0 <= j < nonws_prefix(s) ==> !is_ws(#[trigger] s[j]),
    decreases s.len(),
{
    lemma_nonws_prefix_bound(s);
    if s.len() > 0 && !is_ws(s[0]) {
        let t = s.drop_first();
        lemma_nonws_prefix_chars(t);
        assert forall|j: int| 0 <= j < nonws_prefix(s) implies !is_ws(#[trigger] s[j]) by {
            if j > 0 {
                assert(s[j] == t[j - 1]);
            }
        }
    }
}

/// The words of a text are not empty and hold no whitespace.
proof fn lemma_split_ws_words(s: Seq<char>)
    ensures
        forall|i: int| 0 <= i < split_ws(s).len() ==> #[trigger] split_ws(s)[i].len() > 0 && ws_free(split_ws(s)[i]),
    decreases s.len(),
{
    if s.len() == 0 {
    } else if is_ws(s[0]) {
        lemma_split_ws_words(s.drop_first());
        assert(split_ws(s) == split_ws(s.drop_first()));
    } else {
        let k = nonws_prefix(s);
        lemma_nonws_prefix_bound(s);
        lemma_nonws_prefix_chars(s);
        let w = s.take(k as int);
        lemma_split_ws_words(s.skip(k as int));
        let rest = split_ws(s.skip(k as int));
        assert(split_ws(s) == seq![w] + rest);
        assert forall|i: int| 0 <= i < split_ws(s).len() implies #[trigger] split_ws(s)[i].len() > 0 && ws_free(split_ws(s)[i]) by {
            if i == 0 {
                assert(split_ws(s)[0] == w);
                assert forall|j: int| 0 <= j < w.len() implies !is_ws(#[trigger] w[j]) by {
                    assert(w[j] == s[j]);
                }
            } else {
                assert(split_ws(s)[i] == rest[i - 1]);
            }
        }
    }
}

/// A non-empty text without whitespace is one word.
proof fn lemma_split_ws_single(w: Seq<char>)
    requires
        w.len() > 0,
        ws_free(w),
    ensures
        split_ws(w) == seq![w],
{
    lemma_nonws_prefix(w, w.len() as int);
    assert(w.take(w.len() as int) == w);
    assert(w.skip(w.len() as int) == Seq::<char>::empty());
    assert(split_ws(Seq::<char>::empty()) == Seq::<Seq<char>>::empty());
}

/// The version word found is one of the words.
proof fn lemma_first_version_word_in(words: Seq<Seq<char>>)
    requires
        first_version_word(words) is Some,
    ensures
        words.contains(first_version_word(words)->0),
        is_version_word(first_version_word(words)->0),
    decreases words.len(),
{
    if !is_version_word(words[0]) {
        lemma_first_version_word_in(words.drop_first());
        let w = first_version_word(words)->0;
        let i = choose|i: int| 0 <= i < words.drop_first().len() && words.drop_first()[i] == w;
        assert(words[i + 1] == w);
    } else {
        assert(words[0] == first_version_word(words)->0);
    }
}

/// The characters before the first `c` are not `c`.
proof fn lemma_count_until_chars(s: Seq<char>, c: char)
    ensures
        count_until(s, c) <= s.len(),
        forall|j: int| 0 <= j < count_until(s, c) ==> #[trigger] s[j] != c,
    decreases s.len(),
{
    if s.len() > 0 && s[0] != c {
        let t = s.drop_first();
        lemma_count_until_chars(t, c);
        assert forall|j: int| 0 <= j < count_until(s, c) implies #[trigger] s[j] != c by {
            if j > 0 {
                assert(s[j] == t[j - 1]);
            }
        }
    }
}

/// Extracting the version number from an extracted version number changes
/// nothing.
pub proof fn lemma_extract_version_idempotent(report: Seq<char>)
    ensures
        extracted_version(extracted_version(report)) == extracted_version(report),
{
    let t = trim(report);
    lemma_trim_idempotent(report);
    match first_version_word(split_ws(t)) {
        None => {},
        Some(w) => {
            lemma_split_ws_words(t);
            lemma_first_version_word_in(split_ws(t));
            let i = choose|i: int| 0 <= i < split_ws(t).len() && split_ws(t)[i] == w;
            assert(split_ws(t)[i].len() > 0 && ws_free(split_ws(t)[i]));
            if has_char(w, '(') {
                let k = count_until(w, '(');
                lemma_count_until_chars(w, '(');
                let p = w.take(k as int);
                assert(ws_free(p)) by {
                    assert forall|j: int| 0 <= j < p.len() implies !is_ws(#[trigger] p[j]) by {
                        assert(p[j] == w[j]);
                    }
                }
                lemma_trim_ws_free(p);
                assert(cut_at_paren(w) == p);
                assert(k > 0) by {
                    assert(w[0] != '(') by {
                        assert(is_digit(w[0]));
                    }
                }
                assert(p[0] == w[0]);
                lemma_split_ws_single(p);
                assert(seq![p].drop_first() == Seq::<Seq<char>>::empty());
                assert(trim(p) == p);
                assert(extracted_version(report) == p);
                if is_version_word(p) {
                    assert forall|j: int| 0 <= j < p.len() implies #[trigger] p[j] != '(' by {
                        assert(p[j] == w[j]);
                    }
                    crate::text::lemma_count_until(p, '(', p.len() as int);
                    assert(!has_char(p, '('));
                    assert(cut_at_paren(p) == p);
                    assert(first_version_word(seq![p]) == Some(p));
                } else {
                    assert(first_version_word(seq![p]) == first_version_word(seq![p].drop_first()));
                    assert(first_version_word(seq![p]) is None);
                }
            } else {
                lemma_trim_ws_free(w);
                lemma_split_ws_single(w);
                assert(seq![w][0] == w);
                assert(cut_at_paren(w) == w);
                assert(extracted_version(report) == w);
                assert(first_version_word(seq![w]) == Some(w));
            }
        },
    }
}

/// The decimal notation of a number is made of ASCII digits and has its
/// value.
proof fn lemma_decimal_digits(n: nat)
    ensures
        all_digits(decimal(n)),
        digits_value(decimal(n)) == n,
        decimal(n).len() > 0,
    decreases n,
{
    if n < 10 {
        assert(digit_value(digit_char(n)) == n);
        assert(decimal(n).drop_last() == Seq::<char>::empty());
        assert(decimal(n).last() == digit_char(n));
        assert(digits_value(Seq::<char>::empty()) == 0);
    } else {
        lemma_decimal_digits(n / 10);
        let d = decimal(n / 10);
        let x = decimal(n);
        assert(x.drop_last() == d);
        assert(x.last() == digit_char(n % 10));
        assert(digit_value(digit_char(n % 10)) == n % 10);
        assert(digits_value(x) == digits_value(d) * 10 + digit_value(x.last()));
        assert(n == (n / 10) * 10 + n % 10) by (nonlinear_arith);
        assert forall|i: int| 0 <= i < x.len() implies is_digit(#[trigger] x[i]) by {
            if i < d.len() {
                assert(x[i] == d[i]);
            }
        }
    }
}

/// A number written out in decimal parses back to itself: the pids that
/// the manager prints are the pids it reads.
pub proof fn lemma_parse_decimal(n: u32)
    ensures
        parse_u32(decimal(n as nat)) == Some(n),
{
    lemma_decimal_digits(n as nat);
    let d = decimal(n as nat);
    assert(is_digit(d[0]));
    assert(unsigned_digits(d) == d);
}

// ---------------------------------------------------------------------------
// The log view
// ---------------------------------------------------------------------------

/// The log view is in strictly ascending order (so without repeats), holds
/// at most `n` lines, and each of its lines was taken from a log file.
pub proof fn lemma_merged_log(contents: Seq<Seq<char>>, n: nat)
    ensures
        strictly_sorted(merged_log(contents, n)),
        merged_log(contents, n).len() <= n,
        forall|i: int|
            0 <= i < merged_log(contents, n).len() ==> file_log_lines(contents, n).contains(
                #[trigger] merged_log(contents, n)[i],
            ),
{
    let all = sort_dedup(file_log_lines(contents, n));
    lemma_sort_dedup(file_log_lines(contents, n));
    let m = merged_log(contents, n);
    if all.len() > n {
        let k = all.len() - n;
        assert forall|i: int, j: int| 0 <= i < j < m.len() implies text_lt(#[trigger] m[i], #[trigger] m[j]) by {
            assert(m[i] == all[i + k] && m[j] == all[j + k]);
        }
        assert forall|i: int| 0 <= i < m.len() implies file_log_lines(contents, n).contains(#[trigger] m[i]) by {
            assert(m[i] == all[i + k]);
            assert(all.contains(all[i + k]));
        }
    } else {
        assert forall|i: int| 0 <= i < m.len() implies file_log_lines(contents, n).contains(#[trigger] m[i]) by {
            assert(all.contains(all[i]));
        }
    }
}

// ---------------------------------------------------------------------------
// Starting and stopping the gateway
// ---------------------------------------------------------------------------

/// A start reports the gateway started only after seeing a pid listen on
/// the port, and reports that pid.
pub proof fn lemma_start_reports_seen_pid(s: StartService, e: StartEvent, pid: u32, retry: bool)
    requires
        start_transition(s, e).1 == StartAction::Finish(StartOutcome::Started { pid, retry }),
    ensures
        s.phase == StartPhase::Polling,
        e == StartEvent::Listening(Some(pid)),
        retry == s.retry,
{
}

/// Once a start retries it stays in its retry: there are at most two
/// attempts.
pub proof fn lemma_start_retries_once(s: StartService, e: StartEvent)
    requires
        s.retry,
    ensures
        start_transition(s, e).0.retry,
{
}

/// Every start ends: each step lowers a bound on the steps left, and a
/// start that is not over always has a next step.
pub proof fn lemma_start_ends(s: StartService, e: StartEvent)
    requires
        start_wf(s),
        s.phase != StartPhase::Done,
        crate::service::start_expects(s.phase, e),
    ensures
        start_measure(start_transition(s, e).0) < start_measure(s),
        start_wf(start_transition(s, e).0),
{
    let ghost r = start_transition(s, e);
    assert(crate::service::START_POLLS == 30);
    if s.phase == StartPhase::Polling && s.poll < 30 {
        assert((30 - (s.poll + 1)) * 6 + 6 < (30 - s.poll) * 6 + 1) by (nonlinear_arith)
            requires
                s.poll < 30,
        ;
    }
    if s.phase == StartPhase::Polling && s.poll >= 30 && !s.retry {
        assert(((30 - 0) as nat) * 6 + 10 < 1 + 200) by (nonlinear_arith);
    }
    if s.phase == StartPhase::Spawning {
        assert(((30 - 1) as nat) * 6 + 6 < (30 - 0) * 6 + 7) by (nonlinear_arith);
    }
}

/// A stop forces processes to end only after asking them to end and
/// checking the port again.
pub proof fn lemma_stop_forces_after_asking(s: StopService, e: StopEvent)
    requires
        crate::service::stop_wf(s),
        stop_transition(s, e).1 == StopAction::ForceKillListed,
    ensures
        s.checks == 2,
{
}

/// A stop reports the service stopped (or not running) only after a check
/// of the port found no process on it.
pub proof fn lemma_stop_reports_checked(s: StopService, e: StopEvent)
    requires
        stop_transition(s, e).1 == StopAction::Finish(StopOutcome::Stopped)
            || stop_transition(s, e).1 == StopAction::Finish(StopOutcome::NotRunning),
    ensures
        e == StopEvent::PortPids(false),
{
}

// ---------------------------------------------------------------------------
// Installing a skill
// ---------------------------------------------------------------------------

/// The phases that an installation passes through from phase `p` when its
/// actions come to the events `es`, one after the other.
pub open spec fn skill_phases(p: SkillPhase, es: Seq<SkillEvent>) -> Seq<SkillPhase>
    decreases es.len(),
{
    if es.len() == 0 {
        seq![p]
    } else {
        seq![p] + skill_phases(skill_next_phase(p, es[0]), es.drop_first())
    }
}

/// Whether every event of `es` is what the action of the phase it answers
/// reports.
pub open spec fn skill_run_expected(p: SkillPhase, es: Seq<SkillEvent>) -> bool {
    forall|i: int| 0 <= i < es.len() ==> skill_expects(#[trigger] skill_phases(p, es)[i], es[i])
}

/// Each phase of a run follows from the one before and the event between.
proof fn lemma_skill_phases_step(p: SkillPhase, es: Seq<SkillEvent>, i: int)
    requires
        0 <= i < es.len(),
    ensures
        skill_phases(p, es).len() == es.len() + 1,
        skill_phases(p, es)[0] == p,
        skill_phases(p, es)[i + 1] == skill_next_phase(skill_phases(p, es)[i], es[i]),
    decreases es.len(),
{
    let rest = skill_phases(skill_next_phase(p, es[0]), es.drop_first());
    if es.len() == 1 {
        assert(rest == seq![skill_next_phase(p, es[0])]);
    } else if i == 0 {
        lemma_skill_phases_step(skill_next_phase(p, es[0]), es.drop_first(), 0);
    } else {
        lemma_skill_phases_step(skill_next_phase(p, es[0]), es.drop_first(), i - 1);
    }
}

/// The phase before the skill's directory is unpacked into, created, or
/// cleared: an installation unpacks only into a directory that it created
/// right before, after it removed the directory of an earlier install or
/// found none; and it touches that directory only after it saved a
/// non-empty archive.
pub proof fn lemma_skill_step_order(p: SkillPhase, e: SkillEvent)
    requires
        skill_expects(p, e),
    ensures
        skill_next_phase(p, e) == SkillPhase::Writing ==> p == SkillPhase::Unpacking && (
        e matches SkillEvent::ArchiveRead(Ok(_))),
        skill_next_phase(p, e) == SkillPhase::Unpacking ==> p == SkillPhase::CreatingSkillDir && (
        e matches SkillEvent::Created(Ok(_))),
        skill_next_phase(p, e) == SkillPhase::CreatingSkillDir ==> (p == SkillPhase::CheckingOldDir
            && e == SkillEvent::Exists(false)) || (p == SkillPhase::RemovingOldDir && (
        e matches SkillEvent::Removed(Ok(_)))),
        skill_next_phase(p, e) == SkillPhase::RemovingOldDir ==> p == SkillPhase::CheckingOldDir && e
            == SkillEvent::Exists(true),
        skill_next_phase(p, e) == SkillPhase::CheckingOldDir ==> p == SkillPhase::Downloading && (
        e matches SkillEvent::Downloaded(DownloadOutcome::Saved(n)) && n > 0),
{
}

/// In a run of an installation, the archive's entries are written into the
/// skill's directory only right after the archive was read, which comes
/// right after that directory was created, which comes right after the
/// directory of an earlier install was removed or found missing: what the
/// directory ends up holding is the archive alone.
pub proof fn lemma_install_unpacks_into_fresh_dir(es: Seq<SkillEvent>, k: int)
    requires
        0 <= k <= es.len(),
        skill_run_expected(SkillPhase::CheckingSkillsDir, es),
        skill_phases(SkillPhase::CheckingSkillsDir, es)[k] == SkillPhase::Writing,
    ensures
        k >= 3,
        skill_phases(SkillPhase::CheckingSkillsDir, es)[k - 1] == SkillPhase::Unpacking,
        es[k - 1] matches SkillEvent::ArchiveRead(Ok(_)),
        skill_phases(SkillPhase::CheckingSkillsDir, es)[k - 2] == SkillPhase::CreatingSkillDir,
        es[k - 2] matches SkillEvent::Created(Ok(_)),
        (skill_phases(SkillPhase::CheckingSkillsDir, es)[k - 3] == SkillPhase::RemovingOldDir && (
        es[k - 3] matches SkillEvent::Removed(Ok(_)))) || (skill_phases(
            SkillPhase::CheckingSkillsDir,
            es,
        )[k - 3] == SkillPhase::CheckingOldDir && es[k - 3] == SkillEvent::Exists(false)),
{
    let start = SkillPhase::CheckingSkillsDir;
    let ph = skill_phases(start, es);
    if k == 0 {
        if es.len() > 0 {
            lemma_skill_phases_step(start, es, 0);
        }
        assert(ph[0] == start);
    }
    lemma_skill_phases_step(start, es, k - 1);
    assert(skill_expects(ph[k - 1], es[k - 1]));
    lemma_skill_step_order(ph[k - 1], es[k - 1]);
    if k == 1 {
        assert(ph[0] == start);
    }
    lemma_skill_phases_step(start, es, k - 2);
    assert(skill_expects(ph[k - 2], es[k - 2]));
    lemma_skill_step_order(ph[k - 2], es[k - 2]);
    if k == 2 {
        assert(ph[0] == start);
    }
    lemma_skill_phases_step(start, es, k - 3);
    assert(skill_expects(ph[k - 3], es[k - 3]));
    lemma_skill_step_order(ph[k - 3], es[k - 3]);
}

/// A download that failed, was answered with a status that is no success,
/// or saved an empty archive ends the installation: the run has no step
/// after it, so no directory is removed, created or unpacked into.
pub proof fn lemma_failed_download_ends_install(es: Seq<SkillEvent>, j: int)
    requires
        0 <= j < es.len(),
        skill_run_expected(SkillPhase::CheckingSkillsDir, es),
        skill_phases(SkillPhase::CheckingSkillsDir, es)[j] == SkillPhase::Downloading,
        !(es[j] matches SkillEvent::Downloaded(DownloadOutcome::Saved(n)) && n > 0),
    ensures
        skill_phases(SkillPhase::CheckingSkillsDir, es)[j + 1] == SkillPhase::Done,
        es.len() == j + 1,
{
    let start = SkillPhase::CheckingSkillsDir;
    let ph = skill_phases(start, es);
    lemma_skill_phases_step(start, es, j);
    if es.len() > j + 1 {
        lemma_skill_phases_step(start, es, j + 1);
        assert(skill_expects(ph[j + 1], es[j + 1]));
    }
}

// ---------------------------------------------------------------------------
// Ports
// ---------------------------------------------------------------------------

/// A line that `netstat -ano` output lists as listening on `port` is a line
/// that shows the port taken.
proof fn lemma_listening_line_takes_port(ls: Seq<Seq<char>>, port: u16)
    requires
        netstat_listening_pids(ls, port).len() > 0,
    ensures
        exists|i: int| 0 <= i < ls.len() && netstat_line_takes_port(#[trigger] ls[i], port),
    decreases ls.len(),
{
    if netstat_listening_pid(ls.last(), port) is Some {
        assert(netstat_line_takes_port(ls[ls.len() - 1], port));
    } else {
        assert(netstat_listening_pids(ls, port) == netstat_listening_pids(ls.drop_last(), port));
        lemma_listening_line_takes_port(ls.drop_last(), port);
        let i = choose|i: int| 0 <= i < ls.drop_last().len() && netstat_line_takes_port(
            #[trigger] ls.drop_last()[i],
            port,
        );
        assert(ls[i] == ls.drop_last()[i]);
    }
}

/// The in-use check is the looser one: whatever the port tool printed, a
/// service found listening on a port means that the port is in use.
pub proof fn lemma_listening_port_in_use(is_windows: bool, success: bool, out: Seq<char>, port: u16)
    requires
        listening_pid_of(is_windows, success, out, port) is Some,
    ensures
        port_taken(is_windows, success, out, port),
{
    if is_windows {
        lemma_listening_line_takes_port(lines(out), port);
    }
}

/// Whether `entries` lists a directory named `c`.
pub open spec fn lists_dir(entries: Seq<SkillEntry>, c: Seq<char>) -> bool {
    exists|i: int|
        0 <= i < entries.len() && (#[trigger] entries[i]).is_dir && entries[i].name is Some
            && entries[i].name->0@ == c
}

/// The names of the installed skills are those of the listed directories.
proof fn lemma_skill_names_lists(entries: Seq<SkillEntry>, c: Seq<char>)
    ensures
        skill_names(entries).contains(c) <==> lists_dir(entries, c),
    decreases entries.len(),
{
    if entries.len() > 0 {
        let init = entries.drop_last();
        let e = entries.last();
        lemma_skill_names_lists(init, c);
        let tail: Seq<Seq<char>> = if e.is_dir && e.name is Some {
            seq![e.name->0@]
        } else {
            seq![]
        };
        assert(skill_names(entries) == skill_names(init) + tail);
        if skill_names(entries).contains(c) {
            let k = choose|k: int| 0 <= k < skill_names(entries).len() && skill_names(entries)[k] == c;
            if k < skill_names(init).len() {
                assert(skill_names(init)[k] == c);
                assert(skill_names(init).contains(c));
                let i = choose|i: int|
                    0 <= i < init.len() && (#[trigger] init[i]).is_dir && init[i].name is Some
                        && init[i].name->0@ == c;
                assert(entries[i] == init[i]);
            } else {
                assert(entries[entries.len() - 1] == e);
            }
        }
        if lists_dir(entries, c) {
            let i = choose|i: int|
                0 <= i < entries.len() && (#[trigger] entries[i]).is_dir && entries[i].name is Some
                    && entries[i].name->0@ == c;
            if i < init.len() {
                assert(init[i] == entries[i]);
                assert(lists_dir(init, c));
                let k = choose|k: int| 0 <= k < skill_names(init).len() && skill_names(init)[k] == c;
                assert(skill_names(entries)[k] == c);
            } else {
                assert(skill_names(entries)[skill_names(init).len() as int] == c);
            }
        }
    }
}

/// The installed-skill list agrees with the installed check: when the
/// skill's directory exists as a directory exactly when the skills
/// directory lists a directory of that name, the skill is in the list of
/// `get_installed_skills` exactly when `check_skill_installed` finds it.
pub proof fn lemma_installed_list_agrees(entries: Seq<SkillEntry>, c: Seq<char>, exists: bool, is_dir: bool)
    requires
        (exists && is_dir) == lists_dir(entries, c),
    ensures
        skill_names(entries).contains(c) <==> (exists && is_dir),
{
    lemma_skill_names_lists(entries, c);
}

// ---------------------------------------------------------------------------
// What each operation is for
// ---------------------------------------------------------------------------

/// The version `v<major>.<rest>` or `<major>.<rest>` that `node --version`
/// prints.
pub open spec fn node_version_text(tagged: bool, major: u32, rest: Seq<char>) -> Seq<char> {
    (if tagged {
        seq!['v']
    } else {
        seq![]
    }) + decimal(major as nat) + seq!['.'] + rest
}

/// The environment is ready exactly when Node.js and OpenClaw are both
/// installed and Node.js is at least version 22: with Node.js
/// `v<major>.<rest>` and any OpenClaw version, ready exactly when
/// `major >= 22`; and never without both installed.
pub proof fn lemma_ready_needs_node_22(tagged: bool, major: u32, rest: Seq<char>, openclaw: Option<Seq<char>>)
    ensures
        environment_ready(Some(node_version_text(tagged, major, rest)), openclaw) <==> (
        openclaw is Some && major >= 22),
        node_version_ok(Some(node_version_text(tagged, major, rest))) <==> major >= 22,
        !environment_ready(None, openclaw),
        environment_ready(Some(node_version_text(tagged, major, rest)), openclaw) ==> node_version_ok(
            Some(node_version_text(tagged, major, rest)),
        ),
{
    let d = decimal(major as nat);
    let v = node_version_text(tagged, major, rest);
    lemma_decimal_digits(major as nat);
    lemma_parse_decimal(major);
    let body = d + seq!['.'] + rest;
    assert(is_digit(body[0])) by {
        assert(body[0] == d[0]);
    }
    assert(strip_leading(body, 'v') == body);
    if tagged {
        assert(v[0] == 'v');
        assert(v.drop_first() == body);
    } else {
        assert(v == body);
    }
    assert(strip_leading(v, 'v') == body);
    assert forall|j: int| 0 <= j < d.len() implies #[trigger] body[j] != '.' by {
        assert(body[j] == d[j]);
        assert(is_digit(d[j]));
    }
    assert(body[d.len() as int] == '.');
    lemma_count_until(body, '.', d.len() as int);
    assert(body.take(d.len() as int) == d);
    assert(split(body, '.')[0] == d);
}

/// Whether `c` is an ASCII letter or digit (`char::is_ascii_alphanumeric`).
pub open spec fn ascii_alphanumeric(c: char) -> bool {
    ('0' <= c && c <= '9') || ('A' <= c && c <= 'Z') || ('a' <= c && c <= 'z')
}

/// Cleaning a download address keeps exactly its ASCII letters (of either
/// case) and digits and the characters `: / . - _ ~ % ? = &`: those
/// characters are kept, every other is dropped, and an address made of them
/// alone is left as it is.
pub proof fn lemma_clean_url_keeps_ascii(c: char, s: Seq<char>)
    ensures
        url_char_allowed(c) <==> (ascii_alphanumeric(c) || c == ':' || c == '/' || c == '.' || c
            == '-' || c == '_' || c == '~' || c == '%' || c == '?' || c == '=' || c == '&'),
        (forall|i: int| 0 <= i < s.len() ==> ascii_alphanumeric(#[trigger] s[i])) ==> cleaned_url(s)
            == s,
{
    if forall|i: int| 0 <= i < s.len() ==> ascii_alphanumeric(#[trigger] s[i]) {
        assert forall|i: int| 0 <= i < s.len() implies url_char_allowed(#[trigger] s[i]) by {
            assert(ascii_alphanumeric(s[i]));
        }
        lemma_cleaned_url_keeps_allowed(s);
    }
}

/// A report that names the registry's version offers no update: when the
/// version extracted from the installed report is the registry's version,
/// nothing newer is found.
pub proof fn lemma_report_naming_latest_no_update(report: Seq<char>, latest: Seq<char>)
    requires
        extracted_version(report) == trim(latest),
    ensures
        !update_available(report, latest),
{
    lemma_newer_irreflexive(version_numbers(normalized_version(report)));
}

/// Whether `w` is a word of digits and dots that begins with a digit and
/// holds a dot, such as `2026.3.13`.
pub open spec fn dotted_number(w: Seq<char>) -> bool {
    &&& w.len() > 0
    &&& is_digit(w[0])
    &&& exists|k: int| 0 <= k < w.len() && w[k] == '.'
    &&& forall|i: int| 0 <= i < w.len() ==> is_digit(#[trigger] w[i]) || w[i] == '.'
}

/// The words of a word followed by a space and more text.
proof fn lemma_split_ws_cons(a: Seq<char>, s: Seq<char>)
    requires
        a.len() > 0,
        ws_free(a),
    ensures
        split_ws(a + seq![' '] + s) == seq![a] + split_ws(s),
{
    let x = a + seq![' '] + s;
    assert forall|j: int| 0 <= j < a.len() implies !is_ws(#[trigger] x[j]) by {
        assert(x[j] == a[j]);
    }
    assert(is_ws(x[a.len() as int]));
    lemma_nonws_prefix(x, a.len() as int);
    assert(x.take(a.len() as int) == a);
    let y = x.skip(a.len() as int);
    assert(y =~= seq![' '] + s);
    assert(y.drop_first() =~= s);
    assert(y.len() > 0 && is_ws(y[0]));
    assert(split_ws(y) == split_ws(y.drop_first()));
    assert(!is_ws(x[0]));
    assert(split_ws(x) == seq![x.take(nonws_prefix(x) as int)] + split_ws(x.skip(nonws_prefix(x) as int)));
}

/// The version in a report such as `OpenClaw 2026.3.13 (61d171a)`: a name
/// without dots, a space, the dotted version number, a space and any word
/// after it. The version number is what is compared, so a report naming the
/// registry's version offers no update.
pub proof fn lemma_report_version(name: Seq<char>, w: Seq<char>, tail: Seq<char>, latest: Seq<char>)
    requires
        name.len() > 0,
        ws_free(name),
        forall|i: int| 0 <= i < name.len() ==> #[trigger] name[i] != '.',
        dotted_number(w),
        tail.len() > 0,
        ws_free(tail),
    ensures
        extracted_version(name + seq![' '] + w + seq![' '] + tail) == w,
        trim(latest) == w ==> !update_available(name + seq![' '] + w + seq![' '] + tail, latest),
{
    let r = name + seq![' '] + w + seq![' '] + tail;
    assert(ws_free(w)) by {
        assert forall|i: int| 0 <= i < w.len() implies !is_ws(#[trigger] w[i]) by {
            assert(is_digit(w[i]) || w[i] == '.');
        }
    }
    assert(!is_ws(r[0])) by {
        assert(r[0] == name[0]);
    }
    assert(!is_ws(r.last())) by {
        assert(r.last() == tail.last());
    }
    assert(trim_start(r) == r);
    assert(trim_end(r) == r);
    lemma_split_ws_cons(w, tail);
    lemma_split_ws_single(tail);
    assert(r == name + seq![' '] + (w + seq![' '] + tail));
    lemma_split_ws_cons(name, w + seq![' '] + tail);
    let words = split_ws(r);
    assert(words == seq![name, w, tail]);
    lemma_count_until(name, '.', name.len() as int);
    assert(!is_version_word(name));
    let k = choose|k: int| 0 <= k < w.len() && w[k] == '.';
    lemma_count_until_chars(w, '.');
    assert(count_until(w, '.') < w.len()) by {
        if count_until(w, '.') >= w.len() {
            assert(w[k] != '.');
        }
    }
    assert(is_version_word(w));
    assert(words.drop_first() == seq![w, tail]);
    assert(first_version_word(words) == first_version_word(words.drop_first()));
    assert(first_version_word(words) == Some(w));
    assert forall|j: int| 0 <= j < w.len() implies #[trigger] w[j] != '(' by {
        assert(is_digit(w[j]) || w[j] == '.');
    }
    lemma_count_until(w, '(', w.len() as int);
    assert(cut_at_paren(w) == w);
    if trim(latest) == w {
        lemma_report_naming_latest_no_update(r, latest);
    }
}

/// Each shipped-script job runs its own script: for either kind of script,
/// different jobs never run the same file, the clean-up script is the
/// deploy script's name with `un` in front, and a batch job's file ends in
/// `.bat`, a shell job's in `.sh`.
pub proof fn lemma_each_job_own_script(a: ScriptJob, b: ScriptJob, k: ScriptKind)
    ensures
        a != b ==> script_file(a, k) != script_file(b, k),
        script_file(ScriptJob::CleanupAll, k) == seq!['u', 'n'] + script_file(ScriptJob::DeployAll, k),
        k == ScriptKind::Bat ==> script_file(a, k).len() >= 4 && script_file(a, k).skip(
            script_file(a, k).len() - 4,
        ) == seq!['.', 'b', 'a', 't'],
        k == ScriptKind::Sh && (a == ScriptJob::DeployAll || a == ScriptJob::CleanupAll) ==> script_file(
            a,
            k,
        ).len() >= 3 && script_file(a, k).skip(script_file(a, k).len() - 3) == seq!['.', 's', 'h'],
{
    reveal_strlit("setup-git-1.0.0.bat");
    reveal_strlit("setup-nodejs-1.0.0.bat");
    reveal_strlit("install-all.bat");
    reveal_strlit("install-all-macos.sh");
    reveal_strlit("uninstall-all.bat");
    reveal_strlit("uninstall-all-macos.sh");
    let fa = script_file(a, k);
    let fb = script_file(b, k);
    if a != b {
        assert(fa.len() != fb.len() || fa[0] != fb[0] || fa[6] != fb[6]);
    }
    assert(script_file(ScriptJob::CleanupAll, k) =~= seq!['u', 'n'] + script_file(ScriptJob::DeployAll, k));
    if k == ScriptKind::Bat {
        assert(fa.skip(fa.len() - 4) =~= seq!['.', 'b', 'a', 't']);
    }
    if k == ScriptKind::Sh && (a == ScriptJob::DeployAll || a == ScriptJob::CleanupAll) {
        assert(fa.skip(fa.len() - 3) =~= seq!['.', 's', 'h']);
    }
}

/// A start gives up as timed out only after the last poll of its second
/// attempt; after a stale gateway is killed the start goes on to poll the
/// port (at once in the retry, after a pause and ending the scheduled task
/// in the first attempt).
pub proof fn lemma_start_times_out_last(s: StartService, e: StartEvent)
    requires
        start_wf(s),
        crate::service::start_expects(s.phase, e),
    ensures
        start_transition(s, e).1 == StartAction::Finish(StartOutcome::TimedOut) ==> s.phase
            == StartPhase::Polling && s.retry && s.poll >= crate::service::START_POLLS,
        s.phase == StartPhase::KillingStale ==> (s.retry && start_transition(s, e).0.phase
            == StartPhase::Polling && start_transition(s, e).1 == StartAction::CheckListening) || (
        !s.retry && start_transition(s, e).0.phase == StartPhase::StaleSettling),
{
}

/// The version `a.b.c`.
pub open spec fn dotted(a: u32, b: u32, c: u32) -> Seq<char> {
    decimal(a as nat) + seq!['.'] + decimal(b as nat) + seq!['.'] + decimal(c as nat)
}

/// The pieces of a dot-free word followed by a dot and more text.
proof fn lemma_split_dot_cons(d: Seq<char>, s: Seq<char>)
    requires
        forall|i: int| 0 <= i < d.len() ==> #[trigger] d[i] != '.',
    ensures
        split(d + seq!['.'] + s, '.') == seq![d] + split(s, '.'),
{
    let x = d + seq!['.'] + s;
    assert forall|j: int| 0 <= j < d.len() implies #[trigger] x[j] != '.' by {
        assert(x[j] == d[j]);
    }
    assert(x[d.len() as int] == '.');
    lemma_count_until(x, '.', d.len() as int);
    assert(x.take(d.len() as int) =~= d);
    assert(x.skip(d.len() + 1int) =~= s);
}

/// A dot-free word is a single piece.
proof fn lemma_split_dot_single(d: Seq<char>)
    requires
        forall|i: int| 0 <= i < d.len() ==> #[trigger] d[i] != '.',
    ensures
        split(d, '.') == seq![d],
{
    lemma_count_until(d, '.', d.len() as int);
}

/// A decimal number holds no dot.
proof fn lemma_decimal_dot_free(n: u32)
    ensures
        forall|i: int| 0 <= i < decimal(n as nat).len() ==> #[trigger] decimal(n as nat)[i] != '.',
        forall|i: int| 0 <= i < decimal(n as nat).len() ==> is_digit(#[trigger] decimal(n as nat)[i]),
        decimal(n as nat).len() > 0,
{
    lemma_decimal_digits(n as nat);
    assert forall|i: int| 0 <= i < decimal(n as nat).len() implies #[trigger] decimal(n as nat)[i] != '.' by {
        assert(is_digit(decimal(n as nat)[i]));
    }
}

/// The version `a.b.c` reads as the numbers `a`, `b`, `c`, both as an
/// installed version and as the registry's.
proof fn lemma_dotted_numbers(a: u32, b: u32, c: u32)
    ensures
        version_numbers(normalized_version(dotted(a, b, c))) == seq![a, b, c],
        version_numbers(normalized_latest(dotted(a, b, c))) == seq![a, b, c],
{
    let (da, db, dc) = (decimal(a as nat), decimal(b as nat), decimal(c as nat));
    lemma_decimal_dot_free(a);
    lemma_decimal_dot_free(b);
    lemma_decimal_dot_free(c);
    lemma_parse_decimal(a);
    lemma_parse_decimal(b);
    lemma_parse_decimal(c);
    let v = dotted(a, b, c);
    assert(v == da + seq!['.'] + (db + seq!['.'] + dc));
    lemma_split_dot_single(dc);
    lemma_split_dot_cons(db, dc);
    lemma_split_dot_cons(da, db + seq!['.'] + dc);
    let pieces = split(v, '.');
    assert(pieces == seq![da, db, dc]);
    assert(pieces.drop_first() == seq![db, dc]);
    assert(pieces.drop_first().drop_first() == seq![dc]);
    assert(seq![dc].drop_first() == Seq::<Seq<char>>::empty());
    assert(numbers_of(Seq::<Seq<char>>::empty()) == Seq::<u32>::empty());
    assert(seq![dc][0] == dc);
    assert(seq![c] + Seq::<u32>::empty() == seq![c]);
    assert(numbers_of(seq![dc]) == seq![c]);
    assert(seq![db, dc][0] == db);
    assert(pieces[0] == da);
    assert(numbers_of(seq![db, dc]) == seq![b, c]);
    assert(numbers_of(pieces) == seq![a, b, c]);
    assert forall|i: int| 0 <= i < v.len() implies is_digit(#[trigger] v[i]) || v[i] == '.' by {
        if i < da.len() {
            assert(v[i] == da[i]);
        } else if i == da.len() {
        } else if i < da.len() + 1 + db.len() {
            assert(v[i] == db[i - da.len() - 1]);
        } else if i == da.len() + 1 + db.len() {
        } else {
            assert(v[i] == dc[i - da.len() - 2 - db.len()]);
        }
    }
    lemma_bare_version_reads_alike(v);
    assert(ws_free(v)) by {
        assert forall|i: int| 0 <= i < v.len() implies !is_ws(#[trigger] v[i]) by {
            assert(is_digit(v[i]) || v[i] == '.');
        }
    }
    lemma_trim_ws_free(v);
    assert(is_digit(v[0]));
    assert(strip_leading(v, 'v') == v);
}

/// An update is offered for the installed version `a.b.c` exactly when the
/// registry's version `x.y.z` is newer: greater in its first number, or
/// equal there and greater in the second, or equal in both and greater in
/// the third.
pub proof fn lemma_update_compares_numbers(a: u32, b: u32, c: u32, x: u32, y: u32, z: u32)
    ensures
        update_available(dotted(a, b, c), dotted(x, y, z)) <==> (x > a || (x == a && (y > b || (y
            == b && z > c)))),
{
    lemma_dotted_numbers(a, b, c);
    lemma_dotted_numbers(x, y, z);
}

} // verus!
