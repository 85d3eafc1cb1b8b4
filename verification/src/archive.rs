//! A skill's zip archive: the entries the `zip` crate reads from its bytes,
//! and the steps that unpack them into the skill's directory.
use vstd::prelude::*;
use crate::paths::{join, join_path};
use crate::skills::is_dir_entry;
use crate::text::concat2;

verus! {

broadcast use vstd::string::group_string_axioms;

/// What `zip::ZipArchive::new` makes of the bytes `archive`: the number of
/// entries its central directory lists, or the text of the error it gives.
pub uninterp spec fn zip_count_of(archive: Seq<u8>) -> Result<usize, Seq<char>>;

/// What entry `i` of the archive `archive` is, as `zip::ZipArchive::by_index`,
/// `ZipFile::name` and reading the entry to its end give it: its name and
/// its unpacked contents, or the text of the first error.
pub uninterp spec fn zip_entry_of(archive: Seq<u8>, i: usize) -> Result<(Seq<char>, Seq<u8>), Seq<char>>;

/// An entry of a zip archive: its name (a directory's ends with `/`) and
/// its unpacked contents.
#[derive(Debug)]
pub struct ZipEntry {
    pub name: String,
    pub data: Vec<u8>,
}

/// An entry as plain values.
pub open spec fn entry_view(e: ZipEntry) -> (Seq<char>, Seq<u8>) {
    (e.name@, e.data@)
}

/// Entries as plain values.
pub open spec fn entry_views(es: Seq<ZipEntry>) -> Seq<(Seq<char>, Seq<u8>)> {
    es.map_values(|e: ZipEntry| entry_view(e))
}

/// The number of entries of the archive `archive`.
///
/// Calls `zip::ZipArchive::new` on the bytes and `len` on the archive; the
/// contract says only that the answer is the one named by `zip_count_of`
/// for these bytes: the crate's reading of the format is not restated.
#[verifier::external_body]
fn zip_entry_count(archive: &Vec<u8>) -> (r: Result<usize, String>)
    ensures
        match r {
            Ok(n) => zip_count_of(archive@) == Ok::<usize, Seq<char>>(n),
            Err(e) => zip_count_of(archive@) == Err::<usize, Seq<char>>(e@),
        },
{
    match zip::ZipArchive::new(std::io::Cursor::new(archive.as_slice())) {
        Ok(a) => Ok(a.len()),
        Err(e) => Err(e.to_string()),
    }
}

/// Entry `i` of the archive `archive`: its name and unpacked contents.
///
/// Opens the archive with `zip::ZipArchive::new`, takes the entry with
/// `by_index`, its name with `name` and reads it to its end; the contract
/// says only that the answer is the one named by `zip_entry_of` for these
/// bytes and this index.
#[verifier::external_body]
fn zip_entry_at(archive: &Vec<u8>, i: usize) -> (r: Result<ZipEntry, String>)
    ensures
        match r {
            Ok(e) => zip_entry_of(archive@, i) == Ok::<(Seq<char>, Seq<u8>), Seq<char>>(entry_view(e)),
            Err(m) => zip_entry_of(archive@, i) == Err::<(Seq<char>, Seq<u8>), Seq<char>>(m@),
        },
{
    let mut a = match zip::ZipArchive::new(std::io::Cursor::new(archive.as_slice())) {
        Ok(a) => a,
        Err(e) => return Err(e.to_string()),
    };
    let mut f = match a.by_index(i) { Ok(f) => f, Err(e) => return Err(e.to_string()) };
    let name = match f.name() { Ok(n) => n.to_string(), Err(e) => return Err(e.to_string()) };
    let mut data: Vec<u8> = Vec::new();
    match std::io::Read::read_to_end(&mut f, &mut data) {
        Ok(_) => Ok(ZipEntry { name, data }),
        Err(e) => Err(e.to_string()),
    }
}

/// The first `n` entries of the archive, in order, or the error at the
/// first entry that cannot be read.
pub open spec fn entries_upto(archive: Seq<u8>, n: nat) -> Result<Seq<(Seq<char>, Seq<u8>)>, Seq<char>>
    decreases n,
{
    if n == 0 {
        Ok(seq![])
    } else {
        match entries_upto(archive, (n - 1) as nat) {
            Err(m) => Err(m),
            Ok(s) => match zip_entry_of(archive, (n - 1) as usize) {
                Ok(e) => Ok(s.push(e)),
                Err(m) => Err("读取 zip 内文件失败: "@ + m),
            },
        }
    }
}

/// The entries of the archive `archive`, in order: "读取 zip 归档失败" when
/// it cannot be read as a zip archive, "读取 zip 内文件失败" for the first
/// entry that cannot be read.
pub open spec fn archive_entries(archive: Seq<u8>) -> Result<Seq<(Seq<char>, Seq<u8>)>, Seq<char>> {
    match zip_count_of(archive) {
        Err(m) => Err("读取 zip 归档失败: "@ + m),
        Ok(n) => entries_upto(archive, n as nat),
    }
}

/// Once reading stops at an entry, reading further stops there too.
proof fn lemma_entries_error_stays(archive: Seq<u8>, k: nat, n: nat)
    requires
        k <= n,
        entries_upto(archive, k) is Err,
    ensures
        entries_upto(archive, n) == entries_upto(archive, k),
    decreases n,
{
    if n > k {
        lemma_entries_error_stays(archive, k, (n - 1) as nat);
    }
}

/// The entries of the zip archive `archive` (see `archive_entries`).
pub fn read_archive(archive: &Vec<u8>) -> (r: Result<Vec<ZipEntry>, String>)
    ensures
        match r {
            Ok(v) => archive_entries(archive@) == Ok::<Seq<(Seq<char>, Seq<u8>)>, Seq<char>>(
                entry_views(v@),
            ),
            Err(m) => archive_entries(archive@) == Err::<Seq<(Seq<char>, Seq<u8>)>, Seq<char>>(m@),
        },
{
    let n = match zip_entry_count(archive) {
        Ok(n) => n,
        Err(e) => return Err(concat2("读取 zip 归档失败: ", e.as_str())),
    };
    let mut out: Vec<ZipEntry> = Vec::new();
    let mut i: usize = 0;
    assert(entry_views(out@) =~= seq![]);
    while i < n
        invariant
            i <= n,
            out@.len() == i,
            zip_count_of(archive@) == Ok::<usize, Seq<char>>(n),
            entries_upto(archive@, i as nat) == Ok::<Seq<(Seq<char>, Seq<u8>)>, Seq<char>>(
                entry_views(out@),
            ),
        decreases n - i,
    {
        let ghost before = out@;
        assert(((i + 1) as nat - 1) as usize == i);
        match zip_entry_at(archive, i) {
            Ok(e) => {
                let ghost ev = entry_view(e);
                out.push(e);
                assert(entry_views(out@) =~= entry_views(before).push(ev));
            },
            Err(m) => {
                let msg = concat2("读取 zip 内文件失败: ", m.as_str());
                proof {
                    lemma_entries_error_stays(archive@, (i + 1) as nat, n as nat);
                }
                return Err(msg);
            },
        }
        i = i + 1;
    }
    Ok(out)
}

/// A step of unpacking an archive.
#[derive(Debug)]
pub enum UnpackStep {
    /// Create this directory, with its parents.
    CreateDir(String),
    /// Create this file (and its parent directory, when missing) with these
    /// contents.
    WriteFile(String, Vec<u8>),
}

/// A step as plain values: whether it creates a directory, its path, and
/// the contents it writes.
pub open spec fn step_view(s: UnpackStep) -> (bool, Seq<char>, Seq<u8>) {
    match s {
        UnpackStep::CreateDir(p) => (true, p@, seq![]),
        UnpackStep::WriteFile(p, d) => (false, p@, d@),
    }
}

/// Steps as plain values.
pub open spec fn step_views(s: Seq<UnpackStep>) -> Seq<(bool, Seq<char>, Seq<u8>)> {
    s.map_values(|x: UnpackStep| step_view(x))
}

/// The step that unpacks entry `e` into the directory `dir`: its name
/// joined to `dir` is the path; a name that ends with `/` is a directory to
/// create, any other a file to write with the entry's contents.
pub open spec fn unpack_step(is_windows: bool, dir: Seq<char>, e: (Seq<char>, Seq<u8>)) -> (bool, Seq<char>, Seq<u8>) {
    let is_dir = e.0.len() > 0 && e.0.last() == '/';
    (is_dir, join_path(is_windows, dir, e.0), if is_dir {
        seq![]
    } else {
        e.1
    })
}

/// The steps that unpack the entries `es` into `dir`, one per entry, in
/// order.
pub open spec fn unpack_steps(is_windows: bool, dir: Seq<char>, es: Seq<(Seq<char>, Seq<u8>)>) -> Seq<(bool, Seq<char>, Seq<u8>)> {
    es.map_values(|e: (Seq<char>, Seq<u8>)| unpack_step(is_windows, dir, e))
}

/// The steps that unpack `entries` into `extract_dir` (see `unpack_steps`).
pub fn unpack_plan(is_windows: bool, extract_dir: &str, entries: Vec<ZipEntry>) -> (r: Vec<UnpackStep>)
    ensures
        step_views(r@) == unpack_steps(is_windows, extract_dir@, entry_views(entries@)),
{
    let ghost all = entries@;
    let mut rest = entries;
    let mut out: Vec<UnpackStep> = Vec::new();
    while rest.len() > 0
        invariant
            out@.len() + rest@.len() == all.len(),
            rest@ == all.skip(out@.len() as int),
            forall|j: int|
                0 <= j < out@.len() ==> step_view(#[trigger] out@[j]) == unpack_step(
                    is_windows,
                    extract_dir@,
                    entry_view(all[j]),
                ),
        decreases rest@.len(),
    {
        let ghost k = out@.len() as int;
        let e = rest.remove(0);
        assert(e == all[k]);
        assert(rest@ =~= all.skip(k + 1));
        let path = join(is_windows, extract_dir, e.name.as_str());
        let step = if is_dir_entry(e.name.as_str()) {
            UnpackStep::CreateDir(path)
        } else {
            UnpackStep::WriteFile(path, e.data)
        };
        out.push(step);
    }
    assert(step_views(out@) =~= unpack_steps(is_windows, extract_dir@, entry_views(all)));
    out
}

} // verus!
