//! Installing and removing skills: the paths of a skill, the address it is
//! downloaded from, the order of an installation's steps and what each
//! of them comes to.
use vstd::prelude::*;
use crate::archive::{archive_entries, read_archive, step_views, unpack_plan, unpack_steps, UnpackStep};
use crate::model::{result_is, InstallResult, SkillInstallParams};
use crate::paths::{
    clean_url, cleaned_url, skill_dir, skill_dir_spec, skill_zip_path, skill_zip_spec, skills_dir,
    skills_dir_spec,
};
use crate::text::{concat2, concat3, string_views};
use crate::version::opt_view;

verus! {

broadcast use vstd::string::group_string_axioms;

/// Where a skill is put and where it comes from.
#[derive(Debug, Clone)]
pub struct SkillPlan {
    /// The skills directory (created when missing).
    pub skills_dir: String,
    /// Where the archive is downloaded to.
    pub zip_path: String,
    /// The skill's directory, into which the archive is unpacked.
    pub extract_dir: String,
    /// The download address, without the characters it may not keep.
    pub url: String,
}

/// Where skill `params` is put, under the configuration directory, and the
/// address it is downloaded from.
pub fn install_skill(params: &SkillInstallParams, config_dir: &str, is_windows: bool) -> (r: SkillPlan)
    ensures
        r.skills_dir@ == skills_dir_spec(is_windows, config_dir@),
        r.zip_path@ == skill_zip_spec(is_windows, config_dir@, params.skill_code@),
        r.extract_dir@ == skill_dir_spec(is_windows, config_dir@, params.skill_code@),
        r.url@ == cleaned_url(params.download_url@),
{
    SkillPlan {
        skills_dir: skills_dir(is_windows, config_dir),
        zip_path: skill_zip_path(is_windows, config_dir, params.skill_code.as_str()),
        extract_dir: skill_dir(is_windows, config_dir, params.skill_code.as_str()),
        url: clean_url(params.download_url.as_str()),
    }
}

/// What a step of a skill's installation leads to: go on, or end with this
/// answer (an `Err` is an error of the command itself).
#[derive(Debug)]
pub enum SkillNext {
    Continue,
    Finish(Result<InstallResult, String>),
}

/// The failed answer `message` with `error`.
pub open spec fn skill_failed(r: SkillNext, message: Seq<char>, error: Option<Seq<char>>) -> bool {
    r matches SkillNext::Finish(Ok(res)) && result_is(res, false, message, error)
}

/// The error answer `message`.
pub open spec fn skill_error(r: SkillNext, message: Seq<char>) -> bool {
    r matches SkillNext::Finish(Err(e)) && e@ == message
}

/// What creating a directory of the skill came to: go on, or fail with
/// "创建技能目录失败".
pub fn skill_dir_created(outcome: Result<(), String>) -> (r: SkillNext)
    ensures
        match outcome {
            Ok(_) => r is Continue,
            Err(e) => skill_failed(r, "创建技能目录失败"@, Some(e@)),
        },
{
    match outcome {
        Ok(_) => SkillNext::Continue,
        Err(e) => SkillNext::Finish(Ok(InstallResult::failed(String::from_str("创建技能目录失败"), Some(e)))),
    }
}

/// How a download went.
#[derive(Debug, Clone)]
pub enum DownloadOutcome {
    /// The HTTP client could not be made.
    ClientFailed(String),
    /// The request failed.
    RequestFailed(String),
    /// The server answered with this status, which is no success.
    BadStatus(String),
    /// The body could not be read.
    ReadFailed(String),
    /// The archive file could not be created.
    CreateFailed(String),
    /// The archive file could not be written.
    WriteFailed(String),
    /// The archive was saved, with this many bytes.
    Saved(usize),
}

/// What a download came to: an error of the command for a failed request,
/// read or save; a failed result for a status that is no success or an
/// empty archive; otherwise go on.
pub fn skill_downloaded(outcome: DownloadOutcome) -> (r: SkillNext)
    ensures
        match outcome {
            DownloadOutcome::ClientFailed(e) => skill_error(r, "创建 HTTP 客户端失败: "@ + e@),
            DownloadOutcome::RequestFailed(e) => skill_error(r, "下载请求失败: "@ + e@),
            DownloadOutcome::BadStatus(s) => skill_failed(r, "下载失败，状态码: "@ + s@, None),
            DownloadOutcome::ReadFailed(e) => skill_error(r, "读取下载内容失败: "@ + e@),
            DownloadOutcome::CreateFailed(e) => skill_error(r, "创建文件失败: "@ + e@),
            DownloadOutcome::WriteFailed(e) => skill_error(r, "写入文件失败: "@ + e@),
            DownloadOutcome::Saved(n) => if n == 0 {
                skill_failed(r, "下载的文件为空"@, Some("zip 文件大小为 0"@))
            } else {
                r is Continue
            },
        },
{
    match outcome {
        DownloadOutcome::ClientFailed(e) => SkillNext::Finish(Err(concat2("创建 HTTP 客户端失败: ", e.as_str()))),
        DownloadOutcome::RequestFailed(e) => SkillNext::Finish(Err(concat2("下载请求失败: ", e.as_str()))),
        DownloadOutcome::BadStatus(s) => SkillNext::Finish(
            Ok(InstallResult::failed(concat2("下载失败，状态码: ", s.as_str()), None)),
        ),
        DownloadOutcome::ReadFailed(e) => SkillNext::Finish(Err(concat2("读取下载内容失败: ", e.as_str()))),
        DownloadOutcome::CreateFailed(e) => SkillNext::Finish(Err(concat2("创建文件失败: ", e.as_str()))),
        DownloadOutcome::WriteFailed(e) => SkillNext::Finish(Err(concat2("写入文件失败: ", e.as_str()))),
        DownloadOutcome::Saved(n) => if n == 0 {
            SkillNext::Finish(
                Ok(
                    InstallResult::failed(
                        String::from_str("下载的文件为空"),
                        Some(String::from_str("zip 文件大小为 0")),
                    ),
                ),
            )
        } else {
            SkillNext::Continue
        },
    }
}

/// What removing the skill's old directory came to: go on, or fail with
/// "删除旧技能目录失败".
pub fn skill_old_dir_removed(outcome: Result<(), String>) -> (r: SkillNext)
    ensures
        match outcome {
            Ok(_) => r is Continue,
            Err(e) => skill_failed(r, "删除旧技能目录失败"@, Some(e@)),
        },
{
    match outcome {
        Ok(_) => SkillNext::Continue,
        Err(e) => SkillNext::Finish(Ok(InstallResult::failed(String::from_str("删除旧技能目录失败"), Some(e)))),
    }
}

/// How carrying out the steps that unpack the archive went.
#[derive(Debug, Clone)]
pub enum ExtractOutcome {
    /// A directory entry could not be created.
    DirFailed(String),
    /// The parent directory of a file could not be created.
    ParentFailed(String),
    /// A file could not be created.
    FileFailed(String),
    /// A file could not be written.
    WriteFailed(String),
    /// Every entry was unpacked.
    Unpacked,
}

/// What unpacking skill `code` came to: an error of the command when a
/// step failed, otherwise the skill is installed (the archive is removed
/// then).
pub fn skill_unpacked(code: &str, outcome: ExtractOutcome) -> (r: Result<InstallResult, String>)
    ensures
        match outcome {
            ExtractOutcome::DirFailed(e) => r matches Err(m) && m@ == "创建目录失败: "@ + e@,
            ExtractOutcome::ParentFailed(e) => r matches Err(m) && m@ == "创建父目录失败: "@ + e@,
            ExtractOutcome::FileFailed(e) => r matches Err(m) && m@ == "创建文件失败: "@ + e@,
            ExtractOutcome::WriteFailed(e) => r matches Err(m) && m@ == "写入文件失败: "@ + e@,
            ExtractOutcome::Unpacked => r matches Ok(res) && result_is(
                res,
                true,
                "技能 "@ + code@ + " 安装成功！"@,
                None,
            ),
        },
{
    match outcome {
        ExtractOutcome::DirFailed(e) => Err(concat2("创建目录失败: ", e.as_str())),
        ExtractOutcome::ParentFailed(e) => Err(concat2("创建父目录失败: ", e.as_str())),
        ExtractOutcome::FileFailed(e) => Err(concat2("创建文件失败: ", e.as_str())),
        ExtractOutcome::WriteFailed(e) => Err(concat2("写入文件失败: ", e.as_str())),
        ExtractOutcome::Unpacked => Ok(InstallResult::succeeded(concat3("技能 ", code, " 安装成功！"))),
    }
}

// ---------------------------------------------------------------------------
// The order of an installation's steps
// ---------------------------------------------------------------------------

/// Where a skill's installation stands, in the order its steps come.
#[derive(Debug, Clone, Copy, PartialEq, Eq, Structural)]
pub enum SkillPhase {
    /// Asking whether the skills directory exists.
    CheckingSkillsDir,
    /// Creating the skills directory.
    CreatingSkillsDir,
    /// Downloading the archive.
    Downloading,
    /// Asking whether the skill's directory exists from an earlier install.
    CheckingOldDir,
    /// Removing that directory with all it holds.
    RemovingOldDir,
    /// Creating the skill's directory afresh.
    CreatingSkillDir,
    /// Reading the archive's entries.
    Unpacking,
    /// Carrying out the steps that unpack them into the skill's directory.
    Writing,
    /// Removing the archive.
    RemovingArchive,
    /// The installation is over.
    Done,
}

/// A skill's installation: where it stands.
#[derive(Debug, Clone, Copy, PartialEq, Eq, Structural)]
pub struct SkillInstall {
    pub phase: SkillPhase,
}

/// What an installation does next.
#[derive(Debug)]
pub enum SkillAction {
    /// Tell whether the skills directory exists.
    CheckSkillsDir,
    /// Create the skills directory and tell how it went.
    CreateSkillsDir,
    /// Download the archive to its path and tell how it went.
    Download,
    /// Tell whether the skill's directory exists.
    CheckOldDir,
    /// Remove the skill's directory with all it holds and tell how it went.
    RemoveOldDir,
    /// Create the skill's directory and tell how it went.
    CreateSkillDir,
    /// Read the archive file and tell its bytes, or why it could not be
    /// read.
    ReadArchive,
    /// Carry out these steps, in order, stopping at the first that fails,
    /// and tell how it went.
    Unpack(Vec<UnpackStep>),
    /// Remove the archive (how that goes does not matter).
    RemoveArchive,
    /// The installation is over, with this answer.
    Finish(Result<InstallResult, String>),
}

/// What the last action of an installation came to.
#[derive(Debug)]
pub enum SkillEvent {
    /// Whether the directory asked about exists.
    Exists(bool),
    /// How creating a directory went.
    Created(Result<(), String>),
    /// How the download went.
    Downloaded(DownloadOutcome),
    /// How removing the old directory went.
    Removed(Result<(), String>),
    /// The archive file's bytes, or why it could not be read.
    ArchiveRead(Result<Vec<u8>, String>),
    /// How carrying out the unpacking steps went.
    Unpacked(ExtractOutcome),
    /// An action that tells nothing is done.
    Done,
}

/// Whether `e` is what the action of phase `p` reports.
pub open spec fn skill_expects(p: SkillPhase, e: SkillEvent) -> bool {
    match p {
        SkillPhase::CheckingSkillsDir | SkillPhase::CheckingOldDir => e is Exists,
        SkillPhase::CreatingSkillsDir | SkillPhase::CreatingSkillDir => e is Created,
        SkillPhase::Downloading => e is Downloaded,
        SkillPhase::RemovingOldDir => e is Removed,
        SkillPhase::Unpacking => e is ArchiveRead,
        SkillPhase::Writing => e is Unpacked,
        SkillPhase::RemovingArchive => e is Done,
        SkillPhase::Done => false,
    }
}

/// The phase that follows phase `p` when its action came to `e`: each step
/// goes on only when it succeeded, and a download goes on only when it saved
/// a non-empty archive.
pub open spec fn skill_next_phase(p: SkillPhase, e: SkillEvent) -> SkillPhase {
    match (p, e) {
        (SkillPhase::CheckingSkillsDir, SkillEvent::Exists(true)) => SkillPhase::Downloading,
        (SkillPhase::CheckingSkillsDir, _) => SkillPhase::CreatingSkillsDir,
        (SkillPhase::CreatingSkillsDir, SkillEvent::Created(Ok(_))) => SkillPhase::Downloading,
        (SkillPhase::Downloading, SkillEvent::Downloaded(DownloadOutcome::Saved(n))) => if n > 0 {
            SkillPhase::CheckingOldDir
        } else {
            SkillPhase::Done
        },
        (SkillPhase::CheckingOldDir, SkillEvent::Exists(true)) => SkillPhase::RemovingOldDir,
        (SkillPhase::CheckingOldDir, _) => SkillPhase::CreatingSkillDir,
        (SkillPhase::RemovingOldDir, SkillEvent::Removed(Ok(_))) => SkillPhase::CreatingSkillDir,
        (SkillPhase::CreatingSkillDir, SkillEvent::Created(Ok(_))) => SkillPhase::Unpacking,
        (SkillPhase::Unpacking, SkillEvent::ArchiveRead(Ok(bytes))) => if archive_entries(bytes@) is Ok {
            SkillPhase::Writing
        } else {
            SkillPhase::Done
        },
        (SkillPhase::Writing, SkillEvent::Unpacked(ExtractOutcome::Unpacked)) => SkillPhase::RemovingArchive,
        _ => SkillPhase::Done,
    }
}

/// The action that an installation in phase `p` takes, when it is neither
/// over nor writing an archive's entries.
pub open spec fn skill_action(p: SkillPhase) -> SkillAction {
    match p {
        SkillPhase::CheckingSkillsDir => SkillAction::CheckSkillsDir,
        SkillPhase::CreatingSkillsDir => SkillAction::CreateSkillsDir,
        SkillPhase::Downloading => SkillAction::Download,
        SkillPhase::CheckingOldDir => SkillAction::CheckOldDir,
        SkillPhase::RemovingOldDir => SkillAction::RemoveOldDir,
        SkillPhase::CreatingSkillDir => SkillAction::CreateSkillDir,
        SkillPhase::Unpacking => SkillAction::ReadArchive,
        _ => SkillAction::RemoveArchive,
    }
}

/// The failed answer `message` with `error`.
pub open spec fn answer_failed(a: Result<InstallResult, String>, message: Seq<char>, error: Option<Seq<char>>) -> bool {
    a matches Ok(res) && result_is(res, false, message, error)
}

/// The error answer `message`.
pub open spec fn answer_error(a: Result<InstallResult, String>, message: Seq<char>) -> bool {
    a matches Err(m) && m@ == message
}

/// The answer of an installation of skill `code` that ended on event `e`
/// (see `skill_dir_created`, `skill_downloaded`, `skill_old_dir_removed`
/// and `skill_unpacked`; an archive that cannot be read as a zip archive
/// ends it with the error of `archive_entries`; the success answer comes
/// once the archive is removed).
pub open spec fn skill_answer(e: SkillEvent, code: Seq<char>, a: Result<InstallResult, String>) -> bool {
    match e {
        SkillEvent::Created(Err(m)) => answer_failed(a, "创建技能目录失败"@, Some(m@)),
        SkillEvent::Downloaded(o) => match o {
            DownloadOutcome::ClientFailed(m) => answer_error(a, "创建 HTTP 客户端失败: "@ + m@),
            DownloadOutcome::RequestFailed(m) => answer_error(a, "下载请求失败: "@ + m@),
            DownloadOutcome::BadStatus(st) => answer_failed(a, "下载失败，状态码: "@ + st@, None),
            DownloadOutcome::ReadFailed(m) => answer_error(a, "读取下载内容失败: "@ + m@),
            DownloadOutcome::CreateFailed(m) => answer_error(a, "创建文件失败: "@ + m@),
            DownloadOutcome::WriteFailed(m) => answer_error(a, "写入文件失败: "@ + m@),
            DownloadOutcome::Saved(_) => answer_failed(a, "下载的文件为空"@, Some("zip 文件大小为 0"@)),
        },
        SkillEvent::Removed(Err(m)) => answer_failed(a, "删除旧技能目录失败"@, Some(m@)),
        SkillEvent::ArchiveRead(Err(m)) => answer_error(a, "打开 zip 文件失败: "@ + m@),
        SkillEvent::ArchiveRead(Ok(bytes)) => archive_entries(bytes@) matches Err(m) && answer_error(a, m),
        SkillEvent::Unpacked(o) => match o {
            ExtractOutcome::DirFailed(m) => answer_error(a, "创建目录失败: "@ + m@),
            ExtractOutcome::ParentFailed(m) => answer_error(a, "创建父目录失败: "@ + m@),
            ExtractOutcome::FileFailed(m) => answer_error(a, "创建文件失败: "@ + m@),
            ExtractOutcome::WriteFailed(m) => answer_error(a, "写入文件失败: "@ + m@),
            ExtractOutcome::Unpacked => false,
        },
        SkillEvent::Done => a matches Ok(res) && result_is(res, true, "技能 "@ + code + " 安装成功！"@, None),
        _ => false,
    }
}

/// How many steps an installation in phase `p` has left at most.
pub open spec fn skill_rank(p: SkillPhase) -> nat {
    match p {
        SkillPhase::CheckingSkillsDir => 9,
        SkillPhase::CreatingSkillsDir => 8,
        SkillPhase::Downloading => 7,
        SkillPhase::CheckingOldDir => 6,
        SkillPhase::RemovingOldDir => 5,
        SkillPhase::CreatingSkillDir => 4,
        SkillPhase::Unpacking => 3,
        SkillPhase::Writing => 2,
        SkillPhase::RemovingArchive => 1,
        SkillPhase::Done => 0,
    }
}

/// The first state and action of an installation: ask whether the skills
/// directory exists.
pub fn skill_install_start() -> (r: (SkillInstall, SkillAction))
    ensures
        r.0.phase == SkillPhase::CheckingSkillsDir,
        r.1 == skill_action(SkillPhase::CheckingSkillsDir),
{
    (SkillInstall { phase: SkillPhase::CheckingSkillsDir }, SkillAction::CheckSkillsDir)
}

/// The installation in phase `p`, with the action of that phase.
fn skill_go(p: SkillPhase) -> (r: (SkillInstall, SkillAction))
    requires
        p != SkillPhase::Done,
        p != SkillPhase::Writing,
    ensures
        r.0.phase == p,
        r.1 == skill_action(p),
{
    let a = match p {
        SkillPhase::CheckingSkillsDir => SkillAction::CheckSkillsDir,
        SkillPhase::CreatingSkillsDir => SkillAction::CreateSkillsDir,
        SkillPhase::Downloading => SkillAction::Download,
        SkillPhase::CheckingOldDir => SkillAction::CheckOldDir,
        SkillPhase::RemovingOldDir => SkillAction::RemoveOldDir,
        SkillPhase::CreatingSkillDir => SkillAction::CreateSkillDir,
        SkillPhase::Unpacking => SkillAction::ReadArchive,
        _ => SkillAction::RemoveArchive,
    };
    (SkillInstall { phase: p }, a)
}

/// The installation over, with answer `a`.
fn skill_end(a: Result<InstallResult, String>) -> (r: (SkillInstall, SkillAction))
    ensures
        r.0.phase == SkillPhase::Done,
        r.1 matches SkillAction::Finish(b) && b == a,
{
    (SkillInstall { phase: SkillPhase::Done }, SkillAction::Finish(a))
}

impl SkillInstall {
    /// Whether the installation is over.
    pub fn is_done(&self) -> (r: bool)
        ensures
            r == (self.phase == SkillPhase::Done),
    {
        self.phase == SkillPhase::Done
    }

    /// Whether `e` is what this state's last action reports.
    pub fn expects(&self, e: &SkillEvent) -> (r: bool)
        ensures
            r == skill_expects(self.phase, *e),
    {
        match self.phase {
            SkillPhase::CheckingSkillsDir | SkillPhase::CheckingOldDir => matches!(e, SkillEvent::Exists(_)),
            SkillPhase::CreatingSkillsDir | SkillPhase::CreatingSkillDir => matches!(e, SkillEvent::Created(_)),
            SkillPhase::Downloading => matches!(e, SkillEvent::Downloaded(_)),
            SkillPhase::RemovingOldDir => matches!(e, SkillEvent::Removed(_)),
            SkillPhase::Unpacking => matches!(e, SkillEvent::ArchiveRead(_)),
            SkillPhase::Writing => matches!(e, SkillEvent::Unpacked(_)),
            SkillPhase::RemovingArchive => matches!(e, SkillEvent::Done),
            SkillPhase::Done => false,
        }
    }

    /// The next state and action of the installation of skill `code` into
    /// the directory `extract_dir`, from what its last action came to.
    pub fn step(self, e: SkillEvent, code: &str, is_windows: bool, extract_dir: &str) -> (r: (SkillInstall, SkillAction))
        requires
            skill_expects(self.phase, e),
        ensures
            r.0.phase == skill_next_phase(self.phase, e),
            r.0.phase != SkillPhase::Done && r.0.phase != SkillPhase::Writing ==> r.1 == skill_action(
                r.0.phase,
            ),
            r.0.phase == SkillPhase::Writing ==> (e matches SkillEvent::ArchiveRead(Ok(bytes))
                && archive_entries(bytes@) matches Ok(es) && r.1 matches SkillAction::Unpack(steps)
                && step_views(steps@) == unpack_steps(is_windows, extract_dir@, es)),
            r.0.phase == SkillPhase::Done ==> (r.1 matches SkillAction::Finish(a) && skill_answer(e, code@, a)),
            skill_rank(r.0.phase) < skill_rank(self.phase),
    {
        match e {
            SkillEvent::Exists(found) => {
                if self.phase == SkillPhase::CheckingSkillsDir {
                    if found {
                        skill_go(SkillPhase::Downloading)
                    } else {
                        skill_go(SkillPhase::CreatingSkillsDir)
                    }
                } else if found {
                    skill_go(SkillPhase::RemovingOldDir)
                } else {
                    skill_go(SkillPhase::CreatingSkillDir)
                }
            },
            SkillEvent::Created(o) => {
                let next = if self.phase == SkillPhase::CreatingSkillsDir {
                    SkillPhase::Downloading
                } else {
                    SkillPhase::Unpacking
                };
                match skill_dir_created(o) {
                    SkillNext::Continue => skill_go(next),
                    SkillNext::Finish(a) => skill_end(a),
                }
            },
            SkillEvent::Downloaded(o) => {
                match skill_downloaded(o) {
                    SkillNext::Continue => skill_go(SkillPhase::CheckingOldDir),
                    SkillNext::Finish(a) => skill_end(a),
                }
            },
            SkillEvent::Removed(o) => {
                match skill_old_dir_removed(o) {
                    SkillNext::Continue => skill_go(SkillPhase::CreatingSkillDir),
                    SkillNext::Finish(a) => skill_end(a),
                }
            },
            SkillEvent::ArchiveRead(read) => match read {
                Err(m) => skill_end(Err(concat2("打开 zip 文件失败: ", m.as_str()))),
                Ok(bytes) => match read_archive(&bytes) {
                    Err(m) => skill_end(Err(m)),
                    Ok(entries) => {
                        let steps = unpack_plan(is_windows, extract_dir, entries);
                        (SkillInstall { phase: SkillPhase::Writing }, SkillAction::Unpack(steps))
                    },
                },
            },
            SkillEvent::Unpacked(o) => {
                let finished = matches!(o, ExtractOutcome::Unpacked);
                if finished {
                    skill_go(SkillPhase::RemovingArchive)
                } else {
                    skill_end(skill_unpacked(code, o))
                }
            },
            SkillEvent::Done => skill_end(Ok(InstallResult::succeeded(concat3("技能 ", code, " 安装成功！")))),
        }
    }
}

/// Whether an archive entry is a directory: its name ends with `/`.
pub fn is_dir_entry(name: &str) -> (r: bool)
    ensures
        r == (name@.len() > 0 && name@.last() == '/'),
{
    let v = crate::text::chars_of(name);
    v.len() > 0 && v[v.len() - 1] == '/'
}

/// The result of removing skill `code`: `removal` is `None` when it was not
/// installed, or how removing its directory went.
pub fn uninstall_skill(code: &str, removal: Option<Result<(), String>>) -> (r: Result<InstallResult, String>)
    ensures
        r matches Ok(res) && match removal {
            None => result_is(res, true, "技能 "@ + code@ + " 未安装"@, None),
            Some(Ok(_)) => result_is(res, true, "技能 "@ + code@ + " 卸载成功！"@, None),
            Some(Err(e)) => result_is(res, false, "技能 "@ + code@ + " 卸载失败"@, Some(e@)),
        },
{
    match removal {
        None => Ok(InstallResult::succeeded(concat3("技能 ", code, " 未安装"))),
        Some(Ok(_)) => Ok(InstallResult::succeeded(concat3("技能 ", code, " 卸载成功！"))),
        Some(Err(e)) => Ok(InstallResult::failed(concat3("技能 ", code, " 卸载失败"), Some(e))),
    }
}

/// An entry of the skills directory: its name when it is valid UTF-8, and
/// whether it is a directory.
#[derive(Debug, Clone)]
pub struct SkillEntry {
    pub name: Option<String>,
    pub is_dir: bool,
}

/// The names of the directories among `entries`, in order.
pub open spec fn skill_names(entries: Seq<SkillEntry>) -> Seq<Seq<char>>
    decreases entries.len(),
{
    if entries.len() == 0 {
        seq![]
    } else {
        let e = entries.last();
        skill_names(entries.drop_last()) + if e.is_dir && e.name is Some {
            seq![e.name->0@]
        } else {
            seq![]
        }
    }
}

/// The installed skills: the directories in the skills directory (none when
/// it does not exist), named in valid UTF-8.
pub fn get_installed_skills(entries: &Vec<SkillEntry>) -> (r: Result<Vec<String>, String>)
    ensures
        r matches Ok(v) && string_views(v@) == skill_names(entries@),
{
    let mut out: Vec<String> = Vec::new();
    let mut i: usize = 0;
    while i < entries.len()
        invariant
            i <= entries@.len(),
            string_views(out@) == skill_names(entries@.take(i as int)),
        decreases entries@.len() - i,
    {
        let e = &entries[i];
        proof {
            let pre = entries@.take(i + 1);
            assert(pre.drop_last() == entries@.take(i as int));
            assert(pre.last() == *e);
        }
        if e.is_dir {
            match &e.name {
                Some(n) => {
                    let ghost before = string_views(out@);
                    out.push(n.clone());
                    assert(string_views(out@) == before.push(n@));
                },
                None => {},
            }
        }
        i = i + 1;
    }
    assert(entries@.take(entries@.len() as int) == entries@);
    Ok(out)
}

/// Whether skill `code` is installed: its directory exists and is a
/// directory.
pub fn check_skill_installed(exists: bool, is_dir: bool) -> (r: Result<bool, String>)
    ensures
        r == Ok::<bool, String>(exists && is_dir),
{
    Ok(exists && is_dir)
}

} // verus!
