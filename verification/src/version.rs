//! Version strings: the Node.js requirement, the version that `openclaw
//! --version` reports, and whether the registry offers a newer one.
use vstd::prelude::*;
use crate::text::{
    chars_of, copy_range, count_until, is_digit, lemma_count_until, lemma_split_nonempty, parse_u32, parse_u32_chars,
    split, split_chars, split_ws, split_ws_chars, string_of, strip_leading, strip_leading_chars, trim,
    trim_chars, trim_str, views,
};

verus! {

broadcast use vstd::string::group_string_axioms;

// ---------------------------------------------------------------------------
// The Node.js requirement
// ---------------------------------------------------------------------------

/// The major number of a Node.js version such as `v22.1.0`: the first
/// dot-separated piece after the leading `v`s, or 0 when it is no number.
pub open spec fn node_major(v: Seq<char>) -> u32 {
    match parse_u32(split(strip_leading(v, 'v'), '.')[0]) {
        Some(m) => m,
        None => 0,
    }
}

/// Whether a detected Node.js version meets the requirement (major >= 22).
pub open spec fn node_version_ok(version: Option<Seq<char>>) -> bool {
    match version {
        Some(v) => node_major(v) >= 22,
        None => false,
    }
}

/// The view of an optional string.
pub open spec fn opt_view(o: Option<String>) -> Option<Seq<char>> {
    match o {
        Some(s) => Some(s@),
        None => None,
    }
}

/// Whether the detected Node.js version is at least 22.
pub fn check_node_version_requirement(version: &Option<String>) -> (ok: bool)
    ensures
        ok == node_version_ok(opt_view(*version)),
{
    match version {
        Some(v) => {
            let chars = chars_of(v.as_str());
            let stripped = strip_leading_chars(&chars, 'v');
            let pieces = split_chars(&stripped, '.');
            proof {
                lemma_split_nonempty(stripped@, '.');
            }
            assert(views(pieces@)[0] == pieces@[0]@);
            let major = match parse_u32_chars(&pieces[0]) {
                Some(m) => m,
                None => 0,
            };
            major >= 22
        },
        None => false,
    }
}

// ---------------------------------------------------------------------------
// Extracting the version number from a version report
// ---------------------------------------------------------------------------

/// Whether `s` holds the character `c`.
pub open spec fn has_char(s: Seq<char>, c: char) -> bool {
    count_until(s, c) < s.len()
}

/// A word that looks like a version number: it holds a dot and begins with
/// an ASCII digit.
pub open spec fn is_version_word(w: Seq<char>) -> bool {
    has_char(w, '.') && w.len() > 0 && is_digit(w[0])
}

/// The first version-like word of `words`.
pub open spec fn first_version_word(words: Seq<Seq<char>>) -> Option<Seq<char>>
    decreases words.len(),
{
    if words.len() == 0 {
        None
    } else if is_version_word(words[0]) {
        Some(words[0])
    } else {
        first_version_word(words.drop_first())
    }
}

/// A version word without what follows an opening parenthesis.
pub open spec fn cut_at_paren(w: Seq<char>) -> Seq<char> {
    if has_char(w, '(') {
        trim(w.take(count_until(w, '(') as int))
    } else {
        w
    }
}

/// The version number inside a version report such as
/// `OpenClaw 2026.3.13 (61d171a)`: its first version-like word, cut at a
/// parenthesis; the whole trimmed report when it has none.
pub open spec fn extracted_version(report: Seq<char>) -> Seq<char> {
    let t = trim(report);
    match first_version_word(split_ws(t)) {
        Some(w) => cut_at_paren(w),
        None => t,
    }
}

/// Whether `v` holds the character `c`.
fn has_char_exec(v: &Vec<char>, c: char) -> (b: bool)
    ensures
        b == has_char(v@, c),
{
    let mut i: usize = 0;
    while i < v.len() && v[i] != c
        invariant
            i <= v@.len(),
            forall|j: int| 0 <= j < i ==> #[trigger] v@[j] != c,
        decreases v@.len() - i,
    {
        i = i + 1;
    }
    proof {
        lemma_count_until(v@, c, i as int);
    }
    i < v.len()
}

/// The position of the first `c` in `v` (its length when there is none).
fn position_of(v: &Vec<char>, c: char) -> (k: usize)
    ensures
        k == count_until(v@, c),
        k <= v@.len(),
{
    let mut i: usize = 0;
    while i < v.len() && v[i] != c
        invariant
            i <= v@.len(),
            forall|j: int| 0 <= j < i ==> #[trigger] v@[j] != c,
        decreases v@.len() - i,
    {
        i = i + 1;
    }
    proof {
        lemma_count_until(v@, c, i as int);
    }
    i
}

/// The version number in a version report (see `extracted_version`).
pub fn extract_version(version: &str) -> (r: String)
    ensures
        r@ == extracted_version(version@),
{
    let all = chars_of(version);
    let t = trim_chars(&all);
    let words = split_ws_chars(&t);
    let mut i: usize = 0;
    assert(views(words@).skip(0) == views(words@));
    while i < words.len()
        invariant
            i <= words@.len(),
            t@ == trim(version@),
            views(words@) == split_ws(t@),
            first_version_word(views(words@)) == first_version_word(views(words@).skip(i as int)),
        decreases words@.len() - i,
    {
        let w = &words[i];
        let ghost rest = views(words@).skip(i as int);
        assert(rest[0] == w@);
        if has_char_exec(w, '.') && w.len() > 0 && (w[0] as u32) >= 48 && (w[0] as u32) <= 57 {
            assert(is_version_word(w@));
            if has_char_exec(w, '(') {
                let k = position_of(w, '(');
                let head = copy_range(w, 0, k);
                assert(head@ == w@.take(k as int));
                let cut = trim_chars(&head);
                return string_of(&cut);
            }
            return string_of(w);
        }
        assert(!is_version_word(w@));
        assert(rest.drop_first() == views(words@).skip(i + 1));
        i = i + 1;
    }
    assert(views(words@).skip(i as int) == Seq::<Seq<char>>::empty());
    string_of(&t)
}

// ---------------------------------------------------------------------------
// Comparing versions
// ---------------------------------------------------------------------------

/// The pieces of `pieces` that parse as numbers, in order
/// (`filter_map(|s| s.parse().ok())`).
pub open spec fn numbers_of(pieces: Seq<Seq<char>>) -> Seq<u32>
    decreases pieces.len(),
{
    if pieces.len() == 0 {
        seq![]
    } else {
        match parse_u32(pieces[0]) {
            Some(n) => seq![n] + numbers_of(pieces.drop_first()),
            None => numbers_of(pieces.drop_first()),
        }
    }
}

/// The numeric components of a dotted version.
pub open spec fn version_numbers(v: Seq<char>) -> Seq<u32> {
    numbers_of(split(v, '.'))
}

/// Component `i` of a version, 0 when it has fewer components.
pub open spec fn component(p: Seq<u32>, i: int) -> u32 {
    if 0 <= i < p.len() {
        p[i]
    } else {
        0
    }
}

/// Whether version `l` is newer than version `c` on their first three
/// components.
pub open spec fn newer(c: Seq<u32>, l: Seq<u32>) -> bool {
    component(l, 0) > component(c, 0) || (component(l, 0) == component(c, 0) && (
    component(l, 1) > component(c, 1) || (component(l, 1) == component(c, 1) && component(l, 2)
        > component(c, 2))))
}

/// The installed version as it is compared: the version named in the
/// report, without the leading `v`s of a tag such as `v1.0.0`.
pub open spec fn normalized_version(report: Seq<char>) -> Seq<char> {
    strip_leading(extracted_version(report), 'v')
}

/// The registry's version as it is compared: trimmed and without leading
/// `v`s.
pub open spec fn normalized_latest(latest: Seq<char>) -> Seq<char> {
    strip_leading(trim(latest), 'v')
}

/// Whether the registry's version `latest` is newer than the version in the
/// report `current`.
pub open spec fn update_available(current: Seq<char>, latest: Seq<char>) -> bool {
    newer(version_numbers(normalized_version(current)), version_numbers(normalized_latest(latest)))
}

/// The numeric components of a dotted version, as a vector.
fn version_numbers_exec(v: &Vec<char>) -> (r: Vec<u32>)
    ensures
        r@ == version_numbers(v@),
{
    let pieces = split_chars(v, '.');
    let mut out: Vec<u32> = Vec::new();
    let mut i: usize = 0;
    assert(views(pieces@).skip(0) == views(pieces@));
    while i < pieces.len()
        invariant
            i <= pieces@.len(),
            views(pieces@) == split(v@, '.'),
            out@ + numbers_of(views(pieces@).skip(i as int)) == version_numbers(v@),
        decreases pieces@.len() - i,
    {
        let ghost rest = views(pieces@).skip(i as int);
        assert(rest[0] == pieces@[i as int]@);
        assert(rest.drop_first() == views(pieces@).skip(i + 1));
        match parse_u32_chars(&pieces[i]) {
            Some(n) => {
                let ghost before = out@;
                out.push(n);
                assert(before + (seq![n] + numbers_of(rest.drop_first())) == out@ + numbers_of(
                    rest.drop_first(),
                ));
            },
            None => {},
        }
        i = i + 1;
    }
    assert(views(pieces@).skip(i as int) == Seq::<Seq<char>>::empty());
    assert(out@ + Seq::<u32>::empty() == out@);
    out
}

/// Component `i` of `p`, 0 when `p` has fewer components.
fn component_exec(p: &Vec<u32>, i: usize) -> (r: u32)
    ensures
        r == component(p@, i as int),
{
    if i < p.len() {
        p[i]
    } else {
        0
    }
}

/// The version named in the report `text`, as it is compared (see
/// `normalized_version`).
fn normalize_version(text: &str) -> (r: Vec<char>)
    ensures
        r@ == normalized_version(text@),
{
    let v = extract_version(text);
    let chars = chars_of(v.as_str());
    strip_leading_chars(&chars, 'v')
}

/// Whether the registry's version `latest` is newer than the installed one
/// named in the report `current` (such as `OpenClaw 2026.3.13 (61d171a)`).
pub fn compare_versions(current: &str, latest: &str) -> (r: bool)
    ensures
        r == update_available(current@, latest@),
{
    let cur = normalize_version(current);
    let lat_chars = chars_of(latest);
    let lat_trim = trim_chars(&lat_chars);
    let lat = strip_leading_chars(&lat_trim, 'v');
    let c = version_numbers_exec(&cur);
    let l = version_numbers_exec(&lat);
    let mut i: usize = 0;
    while i < 3
        invariant
            i <= 3,
            c@ == version_numbers(normalized_version(current@)),
            l@ == version_numbers(normalized_latest(latest@)),
            forall|j: int| 0 <= j < i ==> component(c@, j) == component(l@, j),
        decreases 3 - i,
    {
        let cv = component_exec(&c, i);
        let lv = component_exec(&l, i);
        if lv > cv {
            return true;
        } else if lv < cv {
            return false;
        }
        i = i + 1;
    }
    false
}

/// `newer` is a strict order: never reflexive.
pub proof fn lemma_newer_irreflexive(v: Seq<u32>)
    ensures
        !newer(v, v),
{
}

/// `newer` is a strict order: asymmetric.
pub proof fn lemma_newer_asymmetric(a: Seq<u32>, b: Seq<u32>)
    ensures
        !(newer(a, b) && newer(b, a)),
{
}

/// `newer` is a strict order: transitive.
pub proof fn lemma_newer_transitive(a: Seq<u32>, b: Seq<u32>, c: Seq<u32>)
    requires
        newer(a, b),
        newer(b, c),
    ensures
        newer(a, c),
{
}

// ---------------------------------------------------------------------------
// The versions that the tools report
// ---------------------------------------------------------------------------

/// The installed OpenClaw version: what `openclaw --version` printed,
/// trimmed, when it ran.
pub fn get_openclaw_version(output: Result<String, String>) -> (r: Option<String>)
    ensures
        match output {
            Ok(o) => r is Some && r->0@ == trim(o@),
            Err(_) => r is None,
        },
{
    match output {
        Ok(o) => Some(trim_str(o.as_str())),
        Err(_) => None,
    }
}

/// The newest OpenClaw version in the registry: what `npm view openclaw
/// version` printed, trimmed, when it ran and printed something.
pub fn get_latest_openclaw_version(output: Result<String, String>) -> (r: Option<String>)
    ensures
        match output {
            Ok(o) => if trim(o@).len() == 0 {
                r is None
            } else {
                r is Some && r->0@ == trim(o@)
            },
            Err(_) => r is None,
        },
{
    match output {
        Ok(o) => {
            let v = trim_str(o.as_str());
            if v.as_str().is_empty() {
                None
            } else {
                Some(v)
            }
        },
        Err(_) => None,
    }
}

} // verus!
