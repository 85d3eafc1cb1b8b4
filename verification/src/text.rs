//! Character-level text handling: the whitespace, trimming, splitting,
//! line-breaking and integer-parsing rules that the manager applies to the
//! output of the tools it drives.
use vstd::prelude::*;

verus! {

broadcast use vstd::string::group_string_axioms;

// ---------------------------------------------------------------------------
// Conversions between strings and character vectors
// ---------------------------------------------------------------------------

/// The views of a sequence of character vectors.
pub open spec fn views(v: Seq<Vec<char>>) -> Seq<Seq<char>> {
    v.map_values(|x: Vec<char>| x@)
}

/// The views of a sequence of strings.
pub open spec fn string_views(v: Seq<String>) -> Seq<Seq<char>> {
    v.map_values(|x: String| x@)
}

/// The characters of `s`, in order.
pub fn chars_of(s: &str) -> (r: Vec<char>)
    ensures
        r@ == s@,
{
    let mut out: Vec<char> = Vec::new();
    for c in it: s.chars()
        invariant
            it.seq() == s@,
            out@ == it.seq().take(it.index()),
    {
        out.push(c);
    }
    out
}

/// `String::push`: appends one character.
#[verifier::external_body]
pub(crate) fn push_char(s: &mut String, c: char)
    ensures
        final(s)@ == old(s)@.push(c),
{
    s.push(c);
}

/// The string made of `v[from..to]`.
pub fn string_of_range(v: &Vec<char>, from: usize, to: usize) -> (r: String)
    requires
        from <= to <= v@.len(),
    ensures
        r@ == v@.subrange(from as int, to as int),
{
    let mut out = String::new();
    let mut i = from;
    while i < to
        invariant
            from <= i <= to <= v@.len(),
            out@ == v@.subrange(from as int, i as int),
        decreases to - i,
    {
        push_char(&mut out, v[i]);
        assert(v@.subrange(from as int, i + 1) == v@.subrange(from as int, i as int).push(v@[i as int]));
        i = i + 1;
    }
    out
}

/// The string made of all of `v`.
pub fn string_of(v: &Vec<char>) -> (r: String)
    ensures
        r@ == v@,
{
    let r = string_of_range(v, 0, v.len());
    assert(v@.subrange(0, v@.len() as int) == v@);
    r
}

/// `v[from..to]` as a new vector.
pub fn copy_range(v: &Vec<char>, from: usize, to: usize) -> (r: Vec<char>)
    requires
        from <= to <= v@.len(),
    ensures
        r@ == v@.subrange(from as int, to as int),
{
    let mut out: Vec<char> = Vec::new();
    let mut i = from;
    while i < to
        invariant
            from <= i <= to <= v@.len(),
            out@ == v@.subrange(from as int, i as int),
        decreases to - i,
    {
        out.push(v[i]);
        assert(v@.subrange(from as int, i + 1) == v@.subrange(from as int, i as int).push(v@[i as int]));
        i = i + 1;
    }
    out
}

/// Appends the characters of `t` to `s`.
pub fn append_chars(s: &mut String, t: &Vec<char>)
    ensures
        final(s)@ == old(s)@ + t@,
{
    let mut i: usize = 0;
    while i < t.len()
        invariant
            i <= t@.len(),
            s@ == old(s)@ + t@.take(i as int),
        decreases t@.len() - i,
    {
        push_char(s, t[i]);
        assert(t@.take(i + 1) == t@.take(i as int).push(t@[i as int]));
        i = i + 1;
    }
    assert(t@.take(t@.len() as int) == t@);
}

/// Appends `t` to `s`.
pub fn append_str(s: &mut String, t: &str)
    ensures
        final(s)@ == old(s)@ + t@,
{
    let v = chars_of(t);
    append_chars(s, &v);
}

/// A new string holding `a` followed by `b`.
pub fn concat2(a: &str, b: &str) -> (r: String)
    ensures
        r@ == a@ + b@,
{
    let mut s = String::new();
    append_str(&mut s, a);
    append_str(&mut s, b);
    assert(Seq::<char>::empty() + a@ + b@ == a@ + b@);
    s
}

/// A new string holding `a`, `b` and `c` in turn.
pub fn concat3(a: &str, b: &str, c: &str) -> (r: String)
    ensures
        r@ == a@ + b@ + c@,
{
    let mut s = concat2(a, b);
    append_str(&mut s, c);
    s
}

// ---------------------------------------------------------------------------
// Whitespace and trimming
// ---------------------------------------------------------------------------

/// The Unicode `White_Space` characters, which is what `char::is_whitespace`
/// and therefore `str::trim` and `str::split_whitespace` go by.
pub open spec fn is_ws(c: char) -> bool {
    let u = c as u32;
    (0x9 <= u && u <= 0xd) || u == 0x20 || u == 0x85 || u == 0xa0 || u == 0x1680
        || (0x2000 <= u && u <= 0x200a) || u == 0x2028 || u == 0x2029 || u == 0x202f
        || u == 0x205f || u == 0x3000
}

/// Whether `c` is a whitespace character.
pub fn is_whitespace(c: char) -> (b: bool)
    ensures
        b == is_ws(c),
{
    let u = c as u32;
    (0x9 <= u && u <= 0xd) || u == 0x20 || u == 0x85 || u == 0xa0 || u == 0x1680
        || (0x2000 <= u && u <= 0x200a) || u == 0x2028 || u == 0x2029 || u == 0x202f
        || u == 0x205f || u == 0x3000
}

/// `s` without its leading whitespace.
pub open spec fn trim_start(s: Seq<char>) -> Seq<char>
    decreases s.len(),
{
    if s.len() > 0 && is_ws(s[0]) {
        trim_start(s.drop_first())
    } else {
        s
    }
}

/// `s` without its trailing whitespace.
pub open spec fn trim_end(s: Seq<char>) -> Seq<char>
    decreases s.len(),
{
    if s.len() > 0 && is_ws(s.last()) {
        trim_end(s.drop_last())
    } else {
        s
    }
}

/// `s` without leading or trailing whitespace (`str::trim`).
pub open spec fn trim(s: Seq<char>) -> Seq<char> {
    trim_end(trim_start(s))
}

/// Skipping a run of leading whitespace does not change `trim_start`.
pub proof fn lemma_trim_start_skip(s: Seq<char>, i: int)
    requires
        0 <= i <= s.len(),
        forall|j: int| 0 <= j < i ==> is_ws(#[trigger] s[j]),
    ensures
        trim_start(s) == trim_start(s.skip(i)),
    decreases i,
{
    if i == 0 {
        assert(s.skip(0) == s);
    } else {
        assert(is_ws(s[0]));
        let t = s.drop_first();
        assert forall|j: int| 0 <= j < i - 1 implies is_ws(#[trigger] t[j]) by {
            assert(t[j] == s[j + 1]);
        }
        lemma_trim_start_skip(t, i - 1);
        assert(t.skip(i - 1) == s.skip(i));
    }
}

/// Dropping a run of trailing whitespace does not change `trim_end`.
pub proof fn lemma_trim_end_take(s: Seq<char>, i: int)
    requires
        0 <= i <= s.len(),
        forall|j: int| i <= j < s.len() ==> is_ws(#[trigger] s[j]),
    ensures
        trim_end(s) == trim_end(s.take(i)),
    decreases s.len() - i,
{
    if i == s.len() {
        assert(s.take(i) == s);
    } else {
        assert(is_ws(s.last()));
        let t = s.drop_last();
        assert forall|j: int| i <= j < t.len() implies is_ws(#[trigger] t[j]) by {
            assert(t[j] == s[j]);
        }
        lemma_trim_end_take(t, i);
        assert(t.take(i) == s.take(i));
    }
}

/// The bounds `(a, b)` of `trim(v)` inside `v`.
pub fn trim_bounds(v: &Vec<char>) -> (r: (usize, usize))
    ensures
        r.0 <= r.1 <= v@.len(),
        trim(v@) == v@.subrange(r.0 as int, r.1 as int),
        trim_start(v@) == v@.skip(r.0 as int),
{
    let n = v.len();
    let mut a: usize = 0;
    while a < n && is_whitespace(v[a])
        invariant
            a <= n == v@.len(),
            forall|j: int| 0 <= j < a ==> is_ws(#[trigger] v@[j]),
        decreases n - a,
    {
        a = a + 1;
    }
    proof {
        lemma_trim_start_skip(v@, a as int);
        let t = v@.skip(a as int);
        assert(t.len() == 0 || !is_ws(t[0]));
        assert(trim_start(t) == t);
    }
    let mut b: usize = n;
    while b > a && is_whitespace(v[b - 1])
        invariant
            a <= b <= n == v@.len(),
            forall|j: int| b <= j < n ==> is_ws(#[trigger] v@[j]),
        decreases b - a,
    {
        b = b - 1;
    }
    proof {
        let t = v@.skip(a as int);
        let k = (b - a) as int;
        assert forall|j: int| k <= j < t.len() implies is_ws(#[trigger] t[j]) by {
            assert(t[j] == v@[j + a]);
        }
        lemma_trim_end_take(t, k);
        let u = t.take(k);
        assert(u == v@.subrange(a as int, b as int));
        assert(u.len() == 0 || !is_ws(u.last()));
        assert(trim_end(u) == u);
    }
    (a, b)
}

/// `trim(v)` as a new vector.
pub fn trim_chars(v: &Vec<char>) -> (r: Vec<char>)
    ensures
        r@ == trim(v@),
{
    let (a, b) = trim_bounds(v);
    copy_range(v, a, b)
}

/// `str::trim`, as an owned string.
pub fn trim_str(s: &str) -> (r: String)
    ensures
        r@ == trim(s@),
{
    let v = chars_of(s);
    let (a, b) = trim_bounds(&v);
    string_of_range(&v, a, b)
}


/// `s` without its leading copies of `c` (`str::trim_start_matches` with a
/// character).
pub open spec fn strip_leading(s: Seq<char>, c: char) -> Seq<char>
    decreases s.len(),
{
    if s.len() > 0 && s[0] == c {
        strip_leading(s.drop_first(), c)
    } else {
        s
    }
}

/// `v` without its leading copies of `c`.
pub fn strip_leading_chars(v: &Vec<char>, c: char) -> (r: Vec<char>)
    ensures
        r@ == strip_leading(v@, c),
{
    let n = v.len();
    let mut a: usize = 0;
    assert(v@.skip(0) == v@);
    while a < n && v[a] == c
        invariant
            a <= n == v@.len(),
            strip_leading(v@, c) == strip_leading(v@.skip(a as int), c),
        decreases n - a,
    {
        proof {
            let t = v@.skip(a as int);
            assert(t.drop_first() == v@.skip(a + 1));
        }
        a = a + 1;
    }
    assert(v@.skip(a as int) == v@.subrange(a as int, n as int));
    copy_range(v, a, n)
}

/// `s` without its trailing copies of `c` (`str::trim_end_matches` with a
/// character).
pub open spec fn strip_trailing(s: Seq<char>, c: char) -> Seq<char>
    decreases s.len(),
{
    if s.len() > 0 && s.last() == c {
        strip_trailing(s.drop_last(), c)
    } else {
        s
    }
}

/// `v` without its trailing copies of `c`.
pub fn strip_trailing_chars(v: &Vec<char>, c: char) -> (r: Vec<char>)
    ensures
        r@ == strip_trailing(v@, c),
{
    let mut b = v.len();
    assert(v@.take(b as int) == v@);
    while b > 0 && v[b - 1] == c
        invariant
            b <= v@.len(),
            strip_trailing(v@, c) == strip_trailing(v@.take(b as int), c),
        decreases b,
    {
        proof {
            let t = v@.take(b as int);
            assert(t.drop_last() == v@.take(b - 1));
        }
        b = b - 1;
    }
    assert(v@.take(b as int) == v@.subrange(0, b as int));
    copy_range(v, 0, b)
}

// ---------------------------------------------------------------------------
// Splitting
// ---------------------------------------------------------------------------

/// The number of characters of `s` before the first `c` (all of them when
/// there is none).
pub open spec fn count_until(s: Seq<char>, c: char) -> nat
    decreases s.len(),
{
    if s.len() == 0 {
        0
    } else if s[0] == c {
        0
    } else {
        1 + count_until(s.drop_first(), c)
    }
}

/// `count_until` is the position of the first `c`.
pub proof fn lemma_count_until(s: Seq<char>, c: char, k: int)
    requires
        0 <= k <= s.len(),
        forall|j: int| 0 <= j < k ==> #[trigger] s[j] != c,
        k == s.len() || s[k] == c,
    ensures
        count_until(s, c) == k,
    decreases k,
{
    if k > 0 {
        let t = s.drop_first();
        assert forall|j: int| 0 <= j < k - 1 implies #[trigger] t[j] != c by {
            assert(t[j] == s[j + 1]);
        }
        lemma_count_until(t, c, k - 1);
    }
}

/// The pieces of `s` between the occurrences of `c` (`str::split` with a
/// character): there is always at least one piece.
pub open spec fn split(s: Seq<char>, c: char) -> Seq<Seq<char>>
    decreases s.len(),
{
    let k = count_until(s, c);
    if k >= s.len() {
        seq![s]
    } else {
        seq![s.take(k as int)] + split(s.skip(k + 1int), c)
    }
}

/// `split` always yields at least one piece.
pub proof fn lemma_split_nonempty(s: Seq<char>, c: char)
    ensures
        split(s, c).len() >= 1,
{
    let k = count_until(s, c);
    if k < s.len() {
        assert(split(s, c) == seq![s.take(k as int)] + split(s.skip(k + 1int), c));
    }
}

/// A line without the carriage return that ends it, if it has one.
pub open spec fn strip_cr(s: Seq<char>) -> Seq<char> {
    if s.len() > 0 && s.last() == '\r' {
        s.drop_last()
    } else {
        s
    }
}

/// The lines of `s` (`str::lines`): pieces ended by `\n` or `\r\n`, where
/// the last line needs no ending and an empty text has no lines.
pub open spec fn lines(s: Seq<char>) -> Seq<Seq<char>>
    decreases s.len(),
{
    if s.len() == 0 {
        seq![]
    } else {
        let k = count_until(s, '\n');
        if k >= s.len() {
            seq![s]
        } else {
            seq![strip_cr(s.take(k as int))] + lines(s.skip(k + 1int))
        }
    }
}

/// The bounds of the next piece of `v` that starts at `start` and ends
/// before the next `c` or at the end.
fn next_piece_end(v: &Vec<char>, start: usize, c: char) -> (k: usize)
    requires
        start <= v@.len(),
    ensures
        start <= k <= v@.len(),
        count_until(v@.skip(start as int), c) == k - start,
{
    let n = v.len();
    let mut i = start;
    while i < n && v[i] != c
        invariant
            start <= i <= n == v@.len(),
            forall|j: int| start <= j < i ==> #[trigger] v@[j] != c,
        decreases n - i,
    {
        i = i + 1;
    }
    proof {
        let t = v@.skip(start as int);
        assert forall|j: int| 0 <= j < i - start implies #[trigger] t[j] != c by {
            assert(t[j] == v@[j + start]);
        }
        lemma_count_until(t, c, i - start);
    }
    i
}

/// `split(v, c)` as vectors.
pub fn split_chars(v: &Vec<char>, c: char) -> (r: Vec<Vec<char>>)
    ensures
        views(r@) == split(v@, c),
{
    let n = v.len();
    let mut out: Vec<Vec<char>> = Vec::new();
    let mut start: usize = 0;
    assert(v@.skip(0) == v@);
    assert(views(out@) == Seq::<Seq<char>>::empty());
    loop
        invariant
            start <= n == v@.len(),
            views(out@) + split(v@.skip(start as int), c) == split(v@, c),
        decreases n - start,
    {
        let k = next_piece_end(v, start, c);
        let piece = copy_range(v, start, k);
        let ghost t = v@.skip(start as int);
        let ghost before = views(out@);
        assert(piece@ == t.take(k - start));
        out.push(piece);
        assert(views(out@) == before.push(piece@));
        if k == n {
            assert(t.take(k - start) == t);
            assert(split(t, c) == seq![t]);
            assert(views(out@) == before + split(t, c));
            return out;
        }
        assert(t.skip(k - start + 1) == v@.skip(k + 1));
        assert(split(t, c) == seq![piece@] + split(v@.skip(k + 1), c));
        assert(before + split(t, c) == views(out@) + split(v@.skip(k + 1), c));
        start = k + 1;
    }
}

/// `lines(v)` as vectors.
pub fn lines_chars(v: &Vec<char>) -> (r: Vec<Vec<char>>)
    ensures
        views(r@) == lines(v@),
{
    let n = v.len();
    let mut out: Vec<Vec<char>> = Vec::new();
    let mut start: usize = 0;
    assert(v@.skip(0) == v@);
    assert(views(out@) == Seq::<Seq<char>>::empty());
    while start < n
        invariant
            start <= n == v@.len(),
            views(out@) + lines(v@.skip(start as int)) == lines(v@),
        decreases n - start,
    {
        let k = next_piece_end(v, start, '\n');
        let ghost t = v@.skip(start as int);
        let ghost before = views(out@);
        if k == n {
            let piece = copy_range(v, start, k);
            assert(piece@ == t);
            out.push(piece);
            assert(views(out@) == before.push(piece@));
            assert(lines(t) == seq![t]);
            assert(views(out@) == before + lines(t));
            return out;
        }
        let end = if k > start && v[k - 1] == '\r' { k - 1 } else { k };
        let piece = copy_range(v, start, end);
        proof {
            let line = t.take(k - start);
            assert(line.len() > 0 ==> line.last() == v@[k - 1]);
            if end < k {
                assert(strip_cr(line) == line.drop_last());
            } else {
                assert(strip_cr(line) == line);
            }
            assert(piece@ == strip_cr(line));
            assert(t.skip(k - start + 1) == v@.skip(k + 1));
        }
        out.push(piece);
        assert(views(out@) == before.push(piece@));
        assert(lines(t) == seq![piece@] + lines(v@.skip(k + 1)));
        start = k + 1;
    }
    assert(v@.skip(start as int) == Seq::<char>::empty());
    assert(views(out@) + Seq::<Seq<char>>::empty() == views(out@));
    out
}

/// The number of leading characters of `s` that are not whitespace.
pub open spec fn nonws_prefix(s: Seq<char>) -> nat
    decreases s.len(),
{
    if s.len() == 0 || is_ws(s[0]) {
        0
    } else {
        1 + nonws_prefix(s.drop_first())
    }
}

/// `nonws_prefix` is at most the length and is the first whitespace position.
pub proof fn lemma_nonws_prefix(s: Seq<char>, k: int)
    requires
        0 <= k <= s.len(),
        forall|j: int| 0 <= j < k ==> !is_ws(#[trigger] s[j]),
        k == s.len() || is_ws(s[k]),
    ensures
        nonws_prefix(s) == k,
    decreases k,
{
    if k > 0 {
        let t = s.drop_first();
        assert forall|j: int| 0 <= j < k - 1 implies !is_ws(#[trigger] t[j]) by {
            assert(t[j] == s[j + 1]);
        }
        lemma_nonws_prefix(t, k - 1);
    }
}

/// `nonws_prefix(s)` never exceeds the length of `s`.
pub proof fn lemma_nonws_prefix_bound(s: Seq<char>)
    ensures
        nonws_prefix(s) <= s.len(),
    decreases s.len(),
{
    if s.len() > 0 && !is_ws(s[0]) {
        lemma_nonws_prefix_bound(s.drop_first());
    }
}

/// The whitespace-separated words of `s` (`str::split_whitespace`).
pub open spec fn split_ws(s: Seq<char>) -> Seq<Seq<char>>
    decreases s.len(),
{
    if s.len() == 0 {
        seq![]
    } else if is_ws(s[0]) {
        split_ws(s.drop_first())
    } else {
        let k = nonws_prefix(s);
        proof {
            lemma_nonws_prefix_bound(s);
        }
        seq![s.take(k as int)] + split_ws(s.skip(k as int))
    }
}

/// Skipping leading whitespace does not change the words.
pub proof fn lemma_split_ws_skip(s: Seq<char>, i: int)
    requires
        0 <= i <= s.len(),
        forall|j: int| 0 <= j < i ==> is_ws(#[trigger] s[j]),
    ensures
        split_ws(s) == split_ws(s.skip(i)),
    decreases i,
{
    if i == 0 {
        assert(s.skip(0) == s);
    } else {
        let t = s.drop_first();
        assert forall|j: int| 0 <= j < i - 1 implies is_ws(#[trigger] t[j]) by {
            assert(t[j] == s[j + 1]);
        }
        lemma_split_ws_skip(t, i - 1);
        assert(t.skip(i - 1) == s.skip(i));
    }
}

/// `split_ws(v)` as vectors.
pub fn split_ws_chars(v: &Vec<char>) -> (r: Vec<Vec<char>>)
    ensures
        views(r@) == split_ws(v@),
{
    let n = v.len();
    let mut out: Vec<Vec<char>> = Vec::new();
    let mut i: usize = 0;
    assert(v@.skip(0) == v@);
    assert(views(out@) == Seq::<Seq<char>>::empty());
    while i < n
        invariant
            i <= n == v@.len(),
            views(out@) + split_ws(v@.skip(i as int)) == split_ws(v@),
        decreases n - i,
    {
        let mut a = i;
        while a < n && is_whitespace(v[a])
            invariant
                i <= a <= n == v@.len(),
                forall|j: int| i <= j < a ==> is_ws(#[trigger] v@[j]),
            decreases n - a,
        {
            a = a + 1;
        }
        proof {
            let t = v@.skip(i as int);
            assert forall|j: int| 0 <= j < a - i implies is_ws(#[trigger] t[j]) by {
                assert(t[j] == v@[j + i]);
            }
            lemma_split_ws_skip(t, a - i);
            assert(t.skip(a - i) == v@.skip(a as int));
        }
        if a == n {
            assert(v@.skip(a as int) == Seq::<char>::empty());
            assert(views(out@) + Seq::<Seq<char>>::empty() == views(out@));
            return out;
        }
        let mut b = a;
        while b < n && !is_whitespace(v[b])
            invariant
                a <= b <= n == v@.len(),
                forall|j: int| a <= j < b ==> !is_ws(#[trigger] v@[j]),
            decreases n - b,
        {
            b = b + 1;
        }
        let piece = copy_range(v, a, b);
        let ghost before = views(out@);
        proof {
            let t = v@.skip(a as int);
            assert forall|j: int| 0 <= j < b - a implies !is_ws(#[trigger] t[j]) by {
                assert(t[j] == v@[j + a]);
            }
            lemma_nonws_prefix(t, b - a);
            assert(!is_ws(t[0]));
            assert(t.take(b - a) == piece@);
            assert(t.skip(b - a) == v@.skip(b as int));
            assert(split_ws(t) == seq![piece@] + split_ws(v@.skip(b as int)));
        }
        out.push(piece);
        assert(views(out@) == before.push(piece@));
        i = b;
    }
    assert(v@.skip(i as int) == Seq::<char>::empty());
    assert(views(out@) + Seq::<Seq<char>>::empty() == views(out@));
    out
}

// ---------------------------------------------------------------------------
// Searching
// ---------------------------------------------------------------------------

/// Whether `s` begins with `p`.
pub open spec fn starts_with(s: Seq<char>, p: Seq<char>) -> bool {
    p.len() <= s.len() && s.take(p.len() as int) == p
}

/// The position of the first occurrence of `p` in `s`.
pub open spec fn index_of(s: Seq<char>, p: Seq<char>) -> Option<nat>
    decreases s.len(),
{
    if starts_with(s, p) {
        Some(0)
    } else if s.len() == 0 {
        None
    } else {
        match index_of(s.drop_first(), p) {
            Some(i) => Some(i + 1),
            None => None,
        }
    }
}

/// An occurrence lies inside the text and matches the pattern.
pub proof fn lemma_index_of_match(s: Seq<char>, p: Seq<char>)
    requires
        index_of(s, p) is Some,
    ensures
        index_of(s, p)->0 + p.len() <= s.len(),
        starts_with(s.skip(index_of(s, p)->0 as int), p),
    decreases s.len(),
{
    if starts_with(s, p) {
        assert(s.skip(0) == s);
    } else {
        lemma_index_of_match(s.drop_first(), p);
        let i = index_of(s.drop_first(), p)->0;
        assert(s.drop_first().skip(i as int) == s.skip(i + 1int));
    }
}

/// Whether `p` occurs in `s` (`str::contains`).
pub open spec fn contains(s: Seq<char>, p: Seq<char>) -> bool {
    index_of(s, p) is Some
}

/// An occurrence found at a later start, moved back to the start of `s`.
pub open spec fn shifted(o: Option<nat>, by: nat) -> Option<nat> {
    match o {
        Some(i) => Some(i + by),
        None => None,
    }
}

/// Whether `v[at..]` begins with `p`.
fn matches_at(v: &Vec<char>, at: usize, p: &Vec<char>) -> (b: bool)
    requires
        at <= v@.len(),
    ensures
        b == starts_with(v@.skip(at as int), p@),
{
    let n = v.len();
    let m = p.len();
    if m > n - at {
        return false;
    }
    let mut j: usize = 0;
    while j < m
        invariant
            j <= m == p@.len(),
            at + m <= n == v@.len(),
            forall|k: int| 0 <= k < j ==> v@[at + k] == p@[k],
        decreases m - j,
    {
        if v[at + j] != p[j] {
            proof {
                let t = v@.skip(at as int);
                assert(t.take(m as int)[j as int] != p@[j as int]);
            }
            return false;
        }
        j = j + 1;
    }
    assert(v@.skip(at as int).take(m as int) =~= p@);
    true
}

/// `index_of(v, p)`.
pub fn find_chars(v: &Vec<char>, p: &Vec<char>) -> (r: Option<usize>)
    ensures
        match r {
            Some(i) => index_of(v@, p@) == Some(i as nat) && i + p@.len() <= v@.len(),
            None => index_of(v@, p@) is None,
        },
{
    proof {
        if index_of(v@, p@) is Some {
            lemma_index_of_match(v@, p@);
        }
    }
    let n = v.len();
    let mut i: usize = 0;
    assert(v@.skip(0) == v@);
    loop
        invariant
            i <= n == v@.len(),
            index_of(v@, p@) == shifted(index_of(v@.skip(i as int), p@), i as nat),
        decreases n - i,
    {
        if matches_at(v, i, p) {
            return Some(i);
        }
        if i == n {
            return None;
        }
        assert(v@.skip(i as int).drop_first() == v@.skip(i + 1));
        i = i + 1;
    }
}

/// `contains(v, p)`.
pub fn contains_chars(v: &Vec<char>, p: &Vec<char>) -> (b: bool)
    ensures
        b == contains(v@, p@),
{
    find_chars(v, p).is_some()
}

/// `contains(v, p@)` for a pattern given as a string slice.
pub fn contains_str(v: &Vec<char>, p: &str) -> (b: bool)
    ensures
        b == contains(v@, p@),
{
    let pv = chars_of(p);
    contains_chars(v, &pv)
}

/// Whether `p` occurs in `s` at `i` and that occurrence ends a word: the
/// text ends there or whitespace follows.
pub open spec fn ends_word_at(s: Seq<char>, p: Seq<char>, i: int) -> bool {
    &&& 0 <= i <= s.len()
    &&& starts_with(s.skip(i), p)
    &&& (i + p.len() == s.len() || is_ws(s[i + p.len()]))
}

/// Whether `p` occurs in `s` as the end of a word (see `ends_word_at`).
pub open spec fn has_word_ending(s: Seq<char>, p: Seq<char>) -> bool {
    exists|i: int| #[trigger] ends_word_at(s, p, i)
}

/// `has_word_ending(v, p)`.
pub fn has_word_ending_chars(v: &Vec<char>, p: &Vec<char>) -> (b: bool)
    ensures
        b == has_word_ending(v@, p@),
{
    let n = v.len();
    let mut i: usize = 0;
    loop
        invariant
            i <= n == v@.len(),
            forall|j: int| 0 <= j < i ==> !#[trigger] ends_word_at(v@, p@, j),
        decreases n - i,
    {
        if matches_at(v, i, p) {
            let m = p.len();
            if i + m == n || is_whitespace(v[i + m]) {
                assert(ends_word_at(v@, p@, i as int));
                return true;
            }
        }
        assert(!ends_word_at(v@, p@, i as int));
        if i == n {
            assert forall|j: int| !#[trigger] ends_word_at(v@, p@, j) by {
                if 0 <= j < i {
                }
            }
            return false;
        }
        i = i + 1;
    }
}

// ---------------------------------------------------------------------------
// Decimal numbers
// ---------------------------------------------------------------------------

/// Whether `c` is an ASCII digit.
pub open spec fn is_digit(c: char) -> bool {
    48 <= (c as u32) && (c as u32) <= 57
}

/// The value of the ASCII digit `c`.
pub open spec fn digit_value(c: char) -> nat {
    ((c as u32) - 48) as nat
}

/// The value of a string of ASCII digits.
pub open spec fn digits_value(s: Seq<char>) -> nat
    decreases s.len(),
{
    if s.len() == 0 {
        0
    } else {
        digits_value(s.drop_last()) * 10 + digit_value(s.last())
    }
}

/// Whether every character of `s` is an ASCII digit.
pub open spec fn all_digits(s: Seq<char>) -> bool {
    forall|i: int| 0 <= i < s.len() ==> is_digit(#[trigger] s[i])
}

/// The digits of an unsigned number: without its optional leading `+`.
pub open spec fn unsigned_digits(s: Seq<char>) -> Seq<char> {
    if s.len() > 0 && s[0] == '+' {
        s.drop_first()
    } else {
        s
    }
}

/// What `s.parse::<u32>()` gives: an optional `+`, then one or more ASCII
/// digits whose value fits in 32 bits.
pub open spec fn parse_u32(s: Seq<char>) -> Option<u32> {
    let d = unsigned_digits(s);
    if d.len() == 0 || !all_digits(d) || digits_value(d) > u32::MAX {
        None
    } else {
        Some(digits_value(d) as u32)
    }
}

/// Appending digits never lowers the value.
pub proof fn lemma_digits_value_monotone(s: Seq<char>, i: int)
    requires
        0 <= i <= s.len(),
    ensures
        digits_value(s.take(i)) <= digits_value(s),
    decreases s.len() - i,
{
    if i < s.len() {
        lemma_digits_value_monotone(s.drop_last(), i);
        assert(s.drop_last().take(i) == s.take(i));
    } else {
        assert(s.take(i) == s);
    }
}

/// `parse_u32(v)`.
pub fn parse_u32_chars(v: &Vec<char>) -> (r: Option<u32>)
    ensures
        r == parse_u32(v@),
{
    let n = v.len();
    let start: usize = if n > 0 && v[0] == '+' { 1 } else { 0 };
    let ghost d = unsigned_digits(v@);
    assert(d == v@.skip(start as int));
    if start == n {
        return None;
    }
    let mut acc: u64 = 0;
    let mut i = start;
    while i < n
        invariant
            start <= i <= n == v@.len(),
            d == v@.skip(start as int),
            d == unsigned_digits(v@),
            d.len() > 0,
            forall|k: int| 0 <= k < i - start ==> is_digit(#[trigger] d[k]),
            acc == digits_value(d.take(i - start)),
            acc <= u32::MAX,
        decreases n - i,
    {
        let c = v[i];
        let u = c as u32;
        assert(d[i - start] == c);
        if u < 48 || u > 57 {
            assert(!is_digit(d[i - start]));
            assert(!all_digits(d));
            return None;
        }
        proof {
            let t = d.take(i - start + 1);
            assert(t.drop_last() == d.take(i - start));
            assert(t.last() == c);
        }
        acc = acc * 10 + (u - 48) as u64;
        if acc > 4294967295u64 {
            proof {
                lemma_digits_value_monotone(d, i - start + 1);
            }
            return None;
        }
        i = i + 1;
    }
    assert(d.take(n - start) == d);
    Some(acc as u32)
}

/// The decimal digit character for `d < 10`.
pub open spec fn digit_char(d: nat) -> char {
    (d + 48) as char
}

/// The decimal notation of `n`, without leading zeros.
pub open spec fn decimal(n: nat) -> Seq<char>
    decreases n,
{
    if n < 10 {
        seq![digit_char(n)]
    } else {
        decimal(n / 10).push(digit_char(n % 10))
    }
}

/// Appends the decimal notation of `n` to `s`.
pub fn push_decimal(s: &mut String, n: u32)
    ensures
        final(s)@ == old(s)@ + decimal(n as nat),
    decreases n,
{
    if n >= 10 {
        push_decimal(s, n / 10);
    }
    let d: u8 = (n % 10) as u8;
    let c = (d + 48u8) as char;
    assert(c == digit_char((n % 10) as nat));
    push_char(s, c);
}

/// The decimal notation of `n` (`u32::to_string`).
pub fn decimal_string(n: u32) -> (r: String)
    ensures
        r@ == decimal(n as nat),
{
    let mut s = String::new();
    push_decimal(&mut s, n);
    assert(Seq::<char>::empty() + decimal(n as nat) == decimal(n as nat));
    s
}

/// Whether `a` and `b` hold the same text.
pub fn str_eq(a: &str, b: &str) -> (r: bool)
    ensures
        r == (a@ == b@),
{
    let x = chars_of(a);
    let y = chars_of(b);
    if x.len() != y.len() {
        return false;
    }
    let mut i: usize = 0;
    while i < x.len()
        invariant
            i <= x@.len() == y@.len(),
            x@ == a@,
            y@ == b@,
            forall|j: int| 0 <= j < i ==> x@[j] == y@[j],
        decreases x@.len() - i,
    {
        if x[i] != y[i] {
            return false;
        }
        i = i + 1;
    }
    assert(x@ =~= y@);
    true
}

/// Whether `v` begins with `p`.
pub fn starts_with_chars(v: &Vec<char>, p: &str) -> (r: bool)
    ensures
        r == starts_with(v@, p@),
{
    let pv = chars_of(p);
    if pv.len() > v.len() {
        return false;
    }
    let mut i: usize = 0;
    while i < pv.len()
        invariant
            i <= pv@.len() <= v@.len(),
            pv@ == p@,
            forall|j: int| 0 <= j < i ==> v@[j] == pv@[j],
        decreases pv@.len() - i,
    {
        if v[i] != pv[i] {
            assert(v@.take(pv@.len() as int)[i as int] != pv@[i as int]);
            return false;
        }
        i = i + 1;
    }
    assert(v@.take(pv@.len() as int) =~= pv@);
    true
}

} // verus!
