//! The values that the manager's commands hand back to the interface.
use vstd::prelude::*;
use crate::version::opt_view;

verus! {

/// What the environment check found.
#[derive(Debug, Clone)]
pub struct EnvironmentStatus {
    /// Whether Node.js is installed.
    pub node_installed: bool,
    /// The Node.js version.
    pub node_version: Option<String>,
    /// Whether the Node.js version meets the requirement (>= 22).
    pub node_version_ok: bool,
    /// Whether OpenClaw is installed.
    pub openclaw_installed: bool,
    /// The OpenClaw version.
    pub openclaw_version: Option<String>,
    /// Whether the configuration directory exists.
    pub config_dir_exists: bool,
    /// Whether everything is ready.
    pub ready: bool,
    /// The operating system.
    pub os: String,
}

/// The progress of an installation.
#[derive(Debug, Clone)]
pub struct InstallProgress {
    pub step: String,
    pub progress: u8,
    pub message: String,
    pub error: Option<String>,
}

/// The result of an installation step.
#[derive(Debug, Clone)]
pub struct InstallResult {
    pub success: bool,
    pub message: String,
    pub error: Option<String>,
}

/// Whether an update of OpenClaw is available.
#[derive(Debug, Clone)]
pub struct UpdateInfo {
    /// Whether an update is available.
    pub update_available: bool,
    /// The installed version.
    pub current_version: Option<String>,
    /// The newest version.
    pub latest_version: Option<String>,
    /// What went wrong.
    pub error: Option<String>,
}

/// What installing a skill needs.
#[derive(Debug, Clone)]
pub struct SkillInstallParams {
    /// The skill's code.
    pub skill_code: String,
    /// Where to download it from.
    pub download_url: String,
}

/// Whether `r` is the result with these fields.
pub open spec fn result_is(r: InstallResult, success: bool, message: Seq<char>, error: Option<Seq<char>>) -> bool {
    r.success == success && r.message@ == message && opt_view(r.error) == error
}

impl InstallResult {
    /// A successful result with this message.
    pub fn succeeded(message: String) -> (r: InstallResult)
        ensures
            result_is(r, true, message@, None),
    {
        InstallResult { success: true, message, error: None }
    }

    /// A failed result with this message and error.
    pub fn failed(message: String, error: Option<String>) -> (r: InstallResult)
        ensures
            result_is(r, false, message@, opt_view(error)),
    {
        InstallResult { success: false, message, error }
    }
}

} // verus!
