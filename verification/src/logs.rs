//! Reading the gateway's logs: the last lines of a log, the pid that a
//! failed start reports, and the merged view that the log panel shows.
use vstd::prelude::*;
use crate::text::{
    chars_of, contains, contains_str, copy_range, find_chars, index_of, lines, lines_chars,
    parse_u32, parse_u32_chars, split_ws, split_ws_chars, string_of, string_views, strip_trailing,
    strip_trailing_chars, trim, trim_chars, views,
};

verus! {

broadcast use vstd::string::group_string_axioms;

/// The last `n` items of `s` (all of them when there are fewer).
pub open spec fn last_n<T>(s: Seq<T>, n: nat) -> Seq<T> {
    if s.len() > n {
        s.skip(s.len() - n)
    } else {
        s
    }
}

/// The last `n` lines of a text.
pub fn last_n_lines(content: &str, n: usize) -> (r: Vec<String>)
    ensures
        string_views(r@) == last_n(lines(content@), n as nat),
{
    let chars = chars_of(content);
    let all = lines_chars(&chars);
    let start: usize = if all.len() > n { all.len() - n } else { 0 };
    let mut out: Vec<String> = Vec::new();
    let mut i = start;
    while i < all.len()
        invariant
            start <= i <= all@.len(),
            views(all@) == lines(content@),
            start == (if all@.len() > n { all@.len() - n } else { 0 }),
            string_views(out@) == views(all@).subrange(start as int, i as int),
        decreases all@.len() - i,
    {
        let s = string_of(&all[i]);
        let ghost before = string_views(out@);
        out.push(s);
        assert(string_views(out@) == before.push(s@));
        assert(views(all@).subrange(start as int, i + 1) == views(all@).subrange(
            start as int,
            i as int,
        ).push(all@[i as int]@));
        i = i + 1;
    }
    assert(views(all@).subrange(start as int, all@.len() as int) == last_n(views(all@), n as nat));
    out
}

// ---------------------------------------------------------------------------
// The pid of a gateway that is already running
// ---------------------------------------------------------------------------

/// The marker of a failed start in the gateway's error log.
pub open spec fn already_running_marker() -> Seq<char> {
    "gateway already running"@
}

/// The text that precedes the pid in such a line.
pub open spec fn pid_marker() -> Seq<char> {
    "pid "@
}

/// The text between the first and the second `pid ` of a line
/// (`line.split("pid ").nth(1)`); the rest of the line when there is no
/// second one.
pub open spec fn after_pid_marker(line: Seq<char>) -> Seq<char> {
    let p = pid_marker();
    let rest = line.skip((index_of(line, p)->0 + p.len()) as int);
    match index_of(rest, p) {
        Some(j) => rest.take(j as int),
        None => rest,
    }
}

/// The pid that a line of the error log reports, when it is a line about a
/// gateway that is already running, as in `gateway already running (pid
/// 7604)`: the first word after `pid ` (`0` when there is none), without the
/// closing parentheses, as a number.
pub open spec fn pid_in_line(line: Seq<char>) -> Option<u32> {
    if contains(line, already_running_marker()) && contains(line, pid_marker()) {
        let words = split_ws(after_pid_marker(line));
        parse_u32(strip_trailing(if words.len() > 0 { words[0] } else { seq!['0'] }, ')'))
    } else {
        None
    }
}

/// The pid reported by the latest such line of `lines`.
pub open spec fn latest_reported_pid(lines: Seq<Seq<char>>) -> Option<u32>
    decreases lines.len(),
{
    if lines.len() == 0 {
        None
    } else {
        match pid_in_line(lines.last()) {
            Some(p) => Some(p),
            None => latest_reported_pid(lines.drop_last()),
        }
    }
}

/// The pid that one line of the error log reports.
fn pid_in_line_exec(line: &String) -> (r: Option<u32>)
    ensures
        r == pid_in_line(line@),
{
    let v = chars_of(line.as_str());
    if !(contains_str(&v, "gateway already running") && contains_str(&v, "pid ")) {
        return None;
    }
    let p = chars_of("pid ");
    let n = v.len();
    let m = p.len();
    let i = find_chars(&v, &p).unwrap();
    assert(i + m <= n);
    let rest = copy_range(&v, i + m, n);
    assert(rest@ == v@.skip((index_of(v@, p@)->0 + p@.len()) as int));
    let seg = match find_chars(&rest, &p) {
        Some(j) => copy_range(&rest, 0, j),
        None => rest,
    };
    assert(seg@ == after_pid_marker(line@)) by {
        if index_of(rest@, p@) is Some {
            assert(rest@.subrange(0, index_of(rest@, p@)->0 as int) == rest@.take(
                index_of(rest@, p@)->0 as int,
            ));
        }
    }
    let words = split_ws_chars(&seg);
    if words.len() > 0 {
        assert(views(words@)[0] == words@[0]@);
        let w = strip_trailing_chars(&words[0], ')');
        parse_u32_chars(&w)
    } else {
        let zero = chars_of("0");
        proof {
            reveal_strlit("0");
        }
        assert(zero@ == seq!['0']);
        let w = strip_trailing_chars(&zero, ')');
        parse_u32_chars(&w)
    }
}

/// The pid of a gateway that is already running, from the last lines of
/// the gateway's error log: the one that the latest line about it reports.
pub fn extract_pid_from_error_log(lines: &Vec<String>) -> (r: Option<u32>)
    ensures
        r == latest_reported_pid(string_views(lines@)),
{
    let mut i = lines.len();
    assert(string_views(lines@).take(i as int) == string_views(lines@));
    while i > 0
        invariant
            i <= lines@.len(),
            latest_reported_pid(string_views(lines@)) == latest_reported_pid(
                string_views(lines@).take(i as int),
            ),
        decreases i,
    {
        let ghost prefix = string_views(lines@).take(i as int);
        assert(prefix.last() == lines@[i - 1]@);
        assert(prefix.drop_last() == string_views(lines@).take(i - 1));
        match pid_in_line_exec(&lines[i - 1]) {
            Some(p) => {
                return Some(p);
            },
            None => {},
        }
        i = i - 1;
    }
    None
}

// ---------------------------------------------------------------------------
// The merged log view
// ---------------------------------------------------------------------------

/// The order of texts: code point by code point, a proper prefix first.
/// This is the order of `str`'s `Ord`, which compares the UTF-8 bytes, since
/// UTF-8 keeps the order of code points.
pub open spec fn text_lt(a: Seq<char>, b: Seq<char>) -> bool
    decreases a.len(),
{
    if a.len() == 0 {
        b.len() > 0
    } else if b.len() == 0 {
        false
    } else if a[0] != b[0] {
        (a[0] as int) < (b[0] as int)
    } else {
        text_lt(a.drop_first(), b.drop_first())
    }
}

/// No text comes before itself.
pub proof fn lemma_text_lt_irreflexive(a: Seq<char>)
    ensures
        !text_lt(a, a),
    decreases a.len(),
{
    if a.len() > 0 {
        lemma_text_lt_irreflexive(a.drop_first());
    }
}

/// Two texts are never each before the other.
pub proof fn lemma_text_lt_asymmetric(a: Seq<char>, b: Seq<char>)
    ensures
        !(text_lt(a, b) && text_lt(b, a)),
    decreases a.len(),
{
    if a.len() > 0 && b.len() > 0 && a[0] == b[0] {
        lemma_text_lt_asymmetric(a.drop_first(), b.drop_first());
    }
}

/// Of two different texts, one comes first.
pub proof fn lemma_text_lt_total(a: Seq<char>, b: Seq<char>)
    requires
        a != b,
    ensures
        text_lt(a, b) || text_lt(b, a),
    decreases a.len(),
{
    if a.len() == 0 {
        if b.len() == 0 {
            assert(a =~= b);
        }
    } else if b.len() == 0 {
    } else if a[0] != b[0] {
    } else {
        if a.drop_first() == b.drop_first() {
            assert(a == seq![a[0]] + a.drop_first());
            assert(b == seq![b[0]] + b.drop_first());
        }
        lemma_text_lt_total(a.drop_first(), b.drop_first());
    }
}

/// The order of texts is transitive.
pub proof fn lemma_text_lt_transitive(a: Seq<char>, b: Seq<char>, c: Seq<char>)
    requires
        text_lt(a, b),
        text_lt(b, c),
    ensures
        text_lt(a, c),
    decreases a.len(),
{
    if a.len() > 0 && b.len() > 0 && c.len() > 0 && a[0] == b[0] && b[0] == c[0] {
        lemma_text_lt_transitive(a.drop_first(), b.drop_first(), c.drop_first());
    }
}

/// `t` with `x` put in its place by the order of texts, unless `t` already
/// holds it there.
pub open spec fn insert_sorted(t: Seq<Seq<char>>, x: Seq<char>) -> Seq<Seq<char>>
    decreases t.len(),
{
    if t.len() == 0 {
        seq![x]
    } else if t[0] == x {
        t
    } else if text_lt(x, t[0]) {
        seq![x] + t
    } else {
        seq![t[0]] + insert_sorted(t.drop_first(), x)
    }
}

/// The distinct texts of `s` in ascending order (a sort followed by a
/// removal of repeats).
pub open spec fn sort_dedup(s: Seq<Seq<char>>) -> Seq<Seq<char>>
    decreases s.len(),
{
    if s.len() == 0 {
        seq![]
    } else {
        insert_sorted(sort_dedup(s.drop_last()), s.last())
    }
}

/// Whether `t` is in strictly ascending order.
pub open spec fn strictly_sorted(t: Seq<Seq<char>>) -> bool {
    forall|i: int, j: int| 0 <= i < j < t.len() ==> text_lt(#[trigger] t[i], #[trigger] t[j])
}

/// Where `insert_sorted` puts `x`: after the texts that come before it.
proof fn lemma_insert_sorted_at(t: Seq<Seq<char>>, x: Seq<char>, i: int)
    requires
        0 <= i <= t.len(),
        forall|j: int| 0 <= j < i ==> text_lt(#[trigger] t[j], x),
        i == t.len() || !text_lt(t[i], x),
    ensures
        insert_sorted(t, x) == (if i < t.len() && t[i] == x {
            t
        } else {
            t.take(i) + seq![x] + t.skip(i)
        }),
    decreases i,
{
    if i == 0 {
        assert(t.take(0) + seq![x] + t.skip(0) == seq![x] + t);
        if t.len() > 0 && t[0] != x {
            lemma_text_lt_total(t[0], x);
        }
    } else {
        assert(text_lt(t[0], x));
        lemma_text_lt_irreflexive(x);
        lemma_text_lt_asymmetric(t[0], x);
        let u = t.drop_first();
        assert forall|j: int| 0 <= j < i - 1 implies text_lt(#[trigger] u[j], x) by {
            assert(u[j] == t[j + 1]);
        }
        lemma_insert_sorted_at(u, x, i - 1);
        if i < t.len() && t[i] == x {
            assert(seq![t[0]] + u == t);
        } else {
            assert(seq![t[0]] + (u.take(i - 1) + seq![x] + u.skip(i - 1)) == t.take(i) + seq![x]
                + t.skip(i));
        }
    }
}

/// Inserting keeps a strictly ascending sequence strictly ascending, and
/// adds exactly `x` to its elements.
pub proof fn lemma_insert_sorted_sorted(t: Seq<Seq<char>>, x: Seq<char>)
    requires
        strictly_sorted(t),
    ensures
        strictly_sorted(insert_sorted(t, x)),
        forall|y: Seq<char>| #[trigger] insert_sorted(t, x).contains(y) <==> (t.contains(y) || y == x),
    decreases t.len(),
{
    if t.len() == 0 {
        assert(insert_sorted(t, x) == seq![x]);
        assert forall|y: Seq<char>| #[trigger] insert_sorted(t, x).contains(y) <==> (t.contains(y) || y == x) by {
            if y == x {
                assert(seq![x][0] == x);
            }
        }
    } else if t[0] == x {
        assert forall|y: Seq<char>| #[trigger] insert_sorted(t, x).contains(y) <==> (t.contains(y) || y == x) by {
            if y == x {
                assert(t[0] == y);
            }
        }
    } else if text_lt(x, t[0]) {
        let r = seq![x] + t;
        assert forall|i: int, j: int| 0 <= i < j < r.len() implies text_lt(#[trigger] r[i], #[trigger] r[j]) by {
            if i == 0 {
                if j > 1 {
                    lemma_text_lt_transitive(x, t[0], t[j - 1]);
                }
            } else {
                assert(r[i] == t[i - 1] && r[j] == t[j - 1]);
            }
        }
        assert forall|y: Seq<char>| #[trigger] r.contains(y) <==> (t.contains(y) || y == x) by {
            if r.contains(y) {
                let k = choose|k: int| 0 <= k < r.len() && r[k] == y;
                if k > 0 {
                    assert(t[k - 1] == y);
                }
            }
            if t.contains(y) {
                let k = choose|k: int| 0 <= k < t.len() && t[k] == y;
                assert(r[k + 1] == y);
            }
            if y == x {
                assert(r[0] == y);
            }
        }
    } else {
        let u = t.drop_first();
        assert forall|i: int, j: int| 0 <= i < j < u.len() implies text_lt(#[trigger] u[i], #[trigger] u[j]) by {
            assert(u[i] == t[i + 1] && u[j] == t[j + 1]);
        }
        lemma_insert_sorted_sorted(u, x);
        let ins = insert_sorted(u, x);
        let r = seq![t[0]] + ins;
        lemma_text_lt_total(x, t[0]);
        assert(text_lt(t[0], x));
        assert forall|y: Seq<char>| #[trigger] ins.contains(y) implies text_lt(t[0], y) by {
            if y != x {
                assert(u.contains(y));
                let k = choose|k: int| 0 <= k < u.len() && u[k] == y;
                assert(t[k + 1] == y);
            }
        }
        assert forall|i: int, j: int| 0 <= i < j < r.len() implies text_lt(#[trigger] r[i], #[trigger] r[j]) by {
            if i == 0 {
                assert(r[j] == ins[j - 1]);
                assert(ins.contains(ins[j - 1]));
            } else {
                assert(r[i] == ins[i - 1] && r[j] == ins[j - 1]);
            }
        }
        assert forall|y: Seq<char>| #[trigger] r.contains(y) <==> (t.contains(y) || y == x) by {
            if r.contains(y) {
                let k = choose|k: int| 0 <= k < r.len() && r[k] == y;
                if k > 0 {
                    assert(ins[k - 1] == y);
                    assert(ins.contains(y));
                    if u.contains(y) {
                        let m = choose|m: int| 0 <= m < u.len() && u[m] == y;
                        assert(t[m + 1] == y);
                    }
                } else {
                    assert(t[0] == y);
                }
            }
            if t.contains(y) {
                let k = choose|k: int| 0 <= k < t.len() && t[k] == y;
                if k == 0 {
                    assert(r[0] == y);
                } else {
                    assert(u[k - 1] == y);
                    assert(u.contains(y));
                    assert(ins.contains(y));
                    let m = choose|m: int| 0 <= m < ins.len() && ins[m] == y;
                    assert(r[m + 1] == y);
                }
            }
            if y == x {
                assert(ins.contains(x));
                let m = choose|m: int| 0 <= m < ins.len() && ins[m] == x;
                assert(r[m + 1] == x);
            }
        }
    }
}

/// What `sort_dedup` gives is in strictly ascending order and holds exactly
/// the texts of its input.
pub proof fn lemma_sort_dedup(s: Seq<Seq<char>>)
    ensures
        strictly_sorted(sort_dedup(s)),
        forall|y: Seq<char>| #[trigger] sort_dedup(s).contains(y) <==> s.contains(y),
    decreases s.len(),
{
    if s.len() > 0 {
        let p = s.drop_last();
        lemma_sort_dedup(p);
        lemma_insert_sorted_sorted(sort_dedup(p), s.last());
        assert forall|y: Seq<char>| #[trigger] sort_dedup(s).contains(y) <==> s.contains(y) by {
            if p.contains(y) {
                let k = choose|k: int| 0 <= k < p.len() && p[k] == y;
                assert(s[k] == y);
            }
            if s.contains(y) {
                let k = choose|k: int| 0 <= k < s.len() && s[k] == y;
                if k < s.len() - 1 {
                    assert(p[k] == y);
                }
            }
        }
    }
}

/// Whether `a` comes before `b`.
fn text_lt_exec(a: &Vec<char>, b: &Vec<char>) -> (r: bool)
    ensures
        r == text_lt(a@, b@),
{
    let mut i: usize = 0;
    assert(a@.skip(0) == a@ && b@.skip(0) == b@);
    loop
        invariant
            i <= a@.len(),
            i <= b@.len(),
            text_lt(a@, b@) == text_lt(a@.skip(i as int), b@.skip(i as int)),
        decreases a@.len() - i,
    {
        if i == a.len() {
            return i < b.len();
        }
        if i == b.len() {
            return false;
        }
        if a[i] != b[i] {
            let x = a[i];
            let y = b[i];
            return x < y;
        }
        assert(a@.skip(i as int).drop_first() == a@.skip(i + 1));
        assert(b@.skip(i as int).drop_first() == b@.skip(i + 1));
        i = i + 1;
    }
}

/// Whether `a` and `b` hold the same text.
fn text_eq_exec(a: &Vec<char>, b: &Vec<char>) -> (r: bool)
    ensures
        r == (a@ == b@),
{
    if a.len() != b.len() {
        return false;
    }
    let mut i: usize = 0;
    while i < a.len()
        invariant
            i <= a@.len() == b@.len(),
            forall|j: int| 0 <= j < i ==> a@[j] == b@[j],
        decreases a@.len() - i,
    {
        if a[i] != b[i] {
            return false;
        }
        i = i + 1;
    }
    assert(a@ =~= b@);
    true
}

/// Puts `x` in its place in the ascending sequence `t`.
fn insert_sorted_exec(t: &mut Vec<Vec<char>>, x: Vec<char>)
    ensures
        views(final(t)@) == insert_sorted(views(old(t)@), x@),
{
    let n = t.len();
    let mut i: usize = 0;
    while i < n && text_lt_exec(&t[i], &x)
        invariant
            i <= n == t@.len(),
            forall|j: int| 0 <= j < i ==> text_lt(#[trigger] views(t@)[j], x@),
        decreases n - i,
    {
        i = i + 1;
    }
    proof {
        lemma_insert_sorted_at(views(t@), x@, i as int);
    }
    if i < n && text_eq_exec(&t[i], &x) {
        return;
    }
    let ghost before = views(t@);
    t.insert(i, x);
    assert(views(t@) == before.take(i as int) + seq![x@] + before.skip(i as int));
}

/// The trimmed, non-empty texts of `ls`, in order.
pub open spec fn kept_lines(ls: Seq<Seq<char>>) -> Seq<Seq<char>>
    decreases ls.len(),
{
    if ls.len() == 0 {
        seq![]
    } else {
        let t = trim(ls.last());
        kept_lines(ls.drop_last()) + (if t.len() > 0 {
            seq![t]
        } else {
            seq![]
        })
    }
}

/// The lines that the log view takes from the contents of each log file in
/// turn: the last `n` lines of each, trimmed, without the empty ones.
pub open spec fn file_log_lines(contents: Seq<Seq<char>>, n: nat) -> Seq<Seq<char>>
    decreases contents.len(),
{
    if contents.len() == 0 {
        seq![]
    } else {
        file_log_lines(contents.drop_last(), n) + kept_lines(last_n(lines(contents.last()), n))
    }
}

/// The log view: the distinct lines taken from the log files, in ascending
/// order, of which the last `n`.
pub open spec fn merged_log(contents: Seq<Seq<char>>, n: nat) -> Seq<Seq<char>> {
    last_n(sort_dedup(file_log_lines(contents, n)), n)
}

/// Sorting one more text is inserting it among the others, sorted.
proof fn lemma_sort_dedup_append(a: Seq<Seq<char>>, x: Seq<char>)
    ensures
        sort_dedup(a.push(x)) == insert_sorted(sort_dedup(a), x),
{
    assert(a.push(x).drop_last() == a);
}

/// The log view built from the contents of the log files that exist and
/// could be read, in the order the files are looked at; `n` lines at most.
pub fn collect_log_lines(contents: &Vec<String>, n: usize) -> (r: Vec<String>)
    ensures
        string_views(r@) == merged_log(string_views(contents@), n as nat),
{
    let mut acc: Vec<Vec<char>> = Vec::new();
    let ghost mut seen: Seq<Seq<char>> = seq![];
    let mut f: usize = 0;
    while f < contents.len()
        invariant
            f <= contents@.len(),
            seen == file_log_lines(string_views(contents@).take(f as int), n as nat),
            views(acc@) == sort_dedup(seen),
        decreases contents@.len() - f,
    {
        let chars = chars_of(contents[f].as_str());
        let all = lines_chars(&chars);
        let start: usize = if all.len() > n { all.len() - n } else { 0 };
        let ghost tail = last_n(lines(contents@[f as int]@), n as nat);
        assert(tail == views(all@).skip(start as int));
        let ghost seen_before = seen;
        let mut i = start;
        assert(views(all@).skip(start as int).take(0) == Seq::<Seq<char>>::empty());
        assert(seen_before + kept_lines(Seq::<Seq<char>>::empty()) == seen_before);
        while i < all.len()
            invariant
                start <= i <= all@.len(),
                tail == views(all@).skip(start as int),
                seen == seen_before + kept_lines(tail.take(i - start)),
                views(acc@) == sort_dedup(seen),
            decreases all@.len() - i,
        {
            let t = trim_chars(&all[i]);
            proof {
                let pre = tail.take(i - start + 1);
                assert(pre.drop_last() == tail.take(i - start));
                assert(pre.last() == all@[i as int]@);
            }
            if t.len() > 0 {
                proof {
                    lemma_sort_dedup_append(seen, t@);
                    seen = seen.push(t@);
                }
                insert_sorted_exec(&mut acc, t);
            }
            i = i + 1;
        }
        proof {
            assert(tail.take(all@.len() - start) == tail);
            let taken = string_views(contents@).take(f + 1);
            assert(taken.drop_last() == string_views(contents@).take(f as int));
            assert(taken.last() == contents@[f as int]@);
        }
        f = f + 1;
    }
    assert(string_views(contents@).take(contents@.len() as int) == string_views(contents@));
    let total = acc.len();
    let first: usize = if total > n { total - n } else { 0 };
    let mut out: Vec<String> = Vec::new();
    let mut k = first;
    while k < total
        invariant
            first <= k <= total == acc@.len(),
            first == (if total > n { total - n } else { 0 }),
            string_views(out@) == views(acc@).subrange(first as int, k as int),
        decreases total - k,
    {
        let s = string_of(&acc[k]);
        let ghost before = string_views(out@);
        out.push(s);
        assert(string_views(out@) == before.push(s@));
        assert(views(acc@).subrange(first as int, k + 1) == views(acc@).subrange(
            first as int,
            k as int,
        ).push(acc@[k as int]@));
        k = k + 1;
    }
    assert(views(acc@).subrange(first as int, total as int) == last_n(views(acc@), n as nat));
    out
}

} // verus!
