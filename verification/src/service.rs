//! Starting, stopping and restarting the gateway service, and the log view.
//!
//! Each operation alternates work on processes, ports and files with
//! decisions; the decisions stand here as state machines: from the current
//! state and what the last action came to, the next state and action.
use vstd::prelude::*;
use crate::logs::{collect_log_lines, merged_log};
use crate::ports::{format_pid_list, pid_list_text};
use crate::text::{append_str, concat2, decimal, push_decimal, string_views, trim};

verus! {

broadcast use vstd::string::group_string_axioms;

/// How many one-second polls one start attempt waits for the port.
pub const START_POLLS: u32 = 30;

// ---------------------------------------------------------------------------
// Starting the gateway
// ---------------------------------------------------------------------------

/// Where a start stands.
#[derive(Debug, Clone, Copy, PartialEq, Eq, Structural)]
pub enum StartPhase {
    /// Asking whether the port is taken.
    CheckingPort,
    /// Freeing a taken port before looking for OpenClaw.
    FreeingPort,
    /// Looking for the `openclaw` command.
    FindingOpenclaw,
    /// Clearing OpenClaw's lock files and registration.
    CleaningLocks,
    /// Waiting for the old gateway to go.
    Settling,
    /// Freeing the port once more.
    ClearingPort,
    /// Starting the gateway in the background.
    Spawning,
    /// Waiting a second before a poll.
    Waiting,
    /// Reading the error log for the pid of a gateway already running.
    ReadingErrorLog,
    /// Ending the gateway that the error log named.
    KillingStale,
    /// Waiting for it to end.
    StaleSettling,
    /// Ending the gateway's scheduled task.
    EndingTask,
    /// Asking whether the port is listening.
    Polling,
    /// The start is over.
    Done,
}

/// A start of the gateway in progress: its phase, whether this is the
/// retry, and which poll of the attempt this is (1 to 30).
#[derive(Debug, Clone, Copy, PartialEq, Eq, Structural)]
pub struct StartService {
    pub phase: StartPhase,
    pub retry: bool,
    pub poll: u32,
}

/// How a start ended.
#[derive(Debug, Clone, Copy, PartialEq, Eq, Structural)]
pub enum StartOutcome {
    /// The gateway listens, with this pid; `retry` tells whether it took the
    /// second attempt.
    Started { pid: u32, retry: bool },
    /// There is no `openclaw` command.
    OpenclawMissing,
    /// The gateway could not be started (the error goes with the message).
    SpawnFailed,
    /// The port did not open in either attempt.
    TimedOut,
}

/// What a start does next.
#[derive(Debug, Clone, Copy, PartialEq, Eq, Structural)]
pub enum StartAction {
    /// Tell whether the service port is taken.
    CheckPortInUse,
    /// End the processes that hold the service port.
    KillOnPort,
    /// Tell whether the `openclaw` command can be found.
    FindOpenclaw,
    /// Clear OpenClaw's lock files and registration.
    CleanupLocks,
    /// Wait this many milliseconds.
    Sleep(u32),
    /// Start the gateway in the background and tell whether that worked.
    SpawnGateway,
    /// Tell the pid that the error log reports (see
    /// `extract_pid_from_error_log`).
    ReadErrorLog,
    /// End this process.
    KillPid(u32),
    /// End and delete the gateway's scheduled task.
    EndScheduledTask,
    /// Tell the pid listening on the service port, if any.
    CheckListening,
    /// The start is over.
    Finish(StartOutcome),
}

/// What the last action came to.
#[derive(Debug, Clone, Copy, PartialEq, Eq, Structural)]
pub enum StartEvent {
    /// An action that tells nothing is done.
    Done,
    /// Whether the port is taken.
    PortInUse(bool),
    /// Whether the `openclaw` command was found.
    OpenclawFound(bool),
    /// Whether the gateway started.
    Spawned(bool),
    /// The pid that the error log reports.
    ErrorLogPid(Option<u32>),
    /// The pid that listens on the port.
    Listening(Option<u32>),
}

/// Whether `e` is what the action of phase `p` reports.
pub open spec fn start_expects(p: StartPhase, e: StartEvent) -> bool {
    match p {
        StartPhase::CheckingPort => e is PortInUse,
        StartPhase::FindingOpenclaw => e is OpenclawFound,
        StartPhase::Spawning => e is Spawned,
        StartPhase::ReadingErrorLog => e is ErrorLogPid,
        StartPhase::Polling => e is Listening,
        StartPhase::Done => false,
        _ => e is Done,
    }
}

/// The state of a start in phase `p` of the same attempt and poll.
pub open spec fn in_phase(s: StartService, p: StartPhase) -> StartService {
    StartService { phase: p, ..s }
}

/// The state of a start after one step: from state `s` and what its last
/// action came to, the next state and action.
pub open spec fn start_transition(s: StartService, e: StartEvent) -> (StartService, StartAction) {
    match (s.phase, e) {
        (StartPhase::CheckingPort, StartEvent::PortInUse(true)) => (
            in_phase(s, StartPhase::FreeingPort),
            StartAction::KillOnPort,
        ),
        (StartPhase::CheckingPort, StartEvent::PortInUse(false)) => (
            in_phase(s, StartPhase::FindingOpenclaw),
            StartAction::FindOpenclaw,
        ),
        (StartPhase::FreeingPort, _) => (
            in_phase(s, StartPhase::FindingOpenclaw),
            StartAction::FindOpenclaw,
        ),
        (StartPhase::FindingOpenclaw, StartEvent::OpenclawFound(false)) => (
            in_phase(s, StartPhase::Done),
            StartAction::Finish(StartOutcome::OpenclawMissing),
        ),
        (StartPhase::FindingOpenclaw, _) => (
            in_phase(s, StartPhase::CleaningLocks),
            StartAction::CleanupLocks,
        ),
        (StartPhase::CleaningLocks, _) => (
            in_phase(s, StartPhase::Settling),
            StartAction::Sleep(if s.retry {
                1000
            } else {
                2000
            }),
        ),
        (StartPhase::Settling, _) => (in_phase(s, StartPhase::ClearingPort), StartAction::KillOnPort),
        (StartPhase::ClearingPort, _) => (in_phase(s, StartPhase::Spawning), StartAction::SpawnGateway),
        (StartPhase::Spawning, StartEvent::Spawned(false)) => if s.retry {
            (StartService { phase: StartPhase::Waiting, retry: true, poll: 1 }, StartAction::Sleep(1000))
        } else {
            (in_phase(s, StartPhase::Done), StartAction::Finish(StartOutcome::SpawnFailed))
        },
        (StartPhase::Spawning, _) => (
            StartService { phase: StartPhase::Waiting, retry: s.retry, poll: 1 },
            StartAction::Sleep(1000),
        ),
        (StartPhase::Waiting, _) => (in_phase(s, StartPhase::ReadingErrorLog), StartAction::ReadErrorLog),
        (StartPhase::ReadingErrorLog, StartEvent::ErrorLogPid(Some(p))) => (
            in_phase(s, StartPhase::KillingStale),
            StartAction::KillPid(p),
        ),
        (StartPhase::ReadingErrorLog, _) => (in_phase(s, StartPhase::Polling), StartAction::CheckListening),
        (StartPhase::KillingStale, _) => if s.retry {
            (in_phase(s, StartPhase::Polling), StartAction::CheckListening)
        } else {
            (in_phase(s, StartPhase::StaleSettling), StartAction::Sleep(500))
        },
        (StartPhase::StaleSettling, _) => (in_phase(s, StartPhase::EndingTask), StartAction::EndScheduledTask),
        (StartPhase::EndingTask, _) => (in_phase(s, StartPhase::Polling), StartAction::CheckListening),
        (StartPhase::Polling, StartEvent::Listening(Some(pid))) => (
            in_phase(s, StartPhase::Done),
            StartAction::Finish(StartOutcome::Started { pid, retry: s.retry }),
        ),
        (StartPhase::Polling, _) => if s.poll < START_POLLS {
            (
                StartService { phase: StartPhase::Waiting, retry: s.retry, poll: (s.poll + 1) as u32 },
                StartAction::Sleep(1000),
            )
        } else if !s.retry {
            (StartService { phase: StartPhase::CleaningLocks, retry: true, poll: 0 }, StartAction::CleanupLocks)
        } else {
            (in_phase(s, StartPhase::Done), StartAction::Finish(StartOutcome::TimedOut))
        },
        _ => (in_phase(s, StartPhase::Done), StartAction::Finish(StartOutcome::TimedOut)),
    }
}

/// Whether a start's state is one that a start reaches: polls counted from
/// 1 to 30 while waiting for the port, and none before.
pub open spec fn start_wf(s: StartService) -> bool {
    s.poll <= START_POLLS && (match s.phase {
        StartPhase::Waiting | StartPhase::ReadingErrorLog | StartPhase::KillingStale
        | StartPhase::StaleSettling | StartPhase::EndingTask | StartPhase::Polling => s.poll >= 1,
        StartPhase::Done => true,
        _ => s.poll == 0,
    })
}

/// The number of phases left in the current poll, from phase `p`.
pub open spec fn phase_rank(p: StartPhase) -> nat {
    match p {
        StartPhase::CheckingPort => 13,
        StartPhase::FreeingPort => 12,
        StartPhase::FindingOpenclaw => 11,
        StartPhase::CleaningLocks => 10,
        StartPhase::Settling => 9,
        StartPhase::ClearingPort => 8,
        StartPhase::Spawning => 7,
        StartPhase::Waiting => 6,
        StartPhase::ReadingErrorLog => 5,
        StartPhase::KillingStale => 4,
        StartPhase::StaleSettling => 3,
        StartPhase::EndingTask => 2,
        StartPhase::Polling => 1,
        StartPhase::Done => 0,
    }
}

/// An upper bound on the steps a start has left.
pub open spec fn start_measure(s: StartService) -> nat {
    if s.phase == StartPhase::Done {
        0
    } else {
        let polls_left: nat = (START_POLLS - s.poll) as nat;
        let attempt_left: nat = polls_left * 6 + phase_rank(s.phase);
        if s.retry {
            attempt_left
        } else {
            attempt_left + 200
        }
    }
}

/// The first state and action of a start.
pub fn start_service() -> (r: (StartService, StartAction))
    ensures
        r.0 == (StartService { phase: StartPhase::CheckingPort, retry: false, poll: 0 }),
        r.1 == StartAction::CheckPortInUse,
        start_wf(r.0),
{
    (StartService { phase: StartPhase::CheckingPort, retry: false, poll: 0 }, StartAction::CheckPortInUse)
}

impl StartService {
    /// Whether the start is over.
    pub fn is_done(&self) -> (r: bool)
        ensures
            r == (self.phase == StartPhase::Done),
    {
        self.phase == StartPhase::Done
    }

    /// Whether `e` is what this state's last action reports.
    pub fn expects(&self, e: StartEvent) -> (r: bool)
        ensures
            r == start_expects(self.phase, e),
    {
        match self.phase {
            StartPhase::CheckingPort => matches!(e, StartEvent::PortInUse(_)),
            StartPhase::FindingOpenclaw => matches!(e, StartEvent::OpenclawFound(_)),
            StartPhase::Spawning => matches!(e, StartEvent::Spawned(_)),
            StartPhase::ReadingErrorLog => matches!(e, StartEvent::ErrorLogPid(_)),
            StartPhase::Polling => matches!(e, StartEvent::Listening(_)),
            StartPhase::Done => false,
            _ => matches!(e, StartEvent::Done),
        }
    }

    /// The next state and action of a start, from what its last action came
    /// to.
    pub fn step(self, e: StartEvent) -> (r: (StartService, StartAction))
        requires
            start_wf(self),
            start_expects(self.phase, e),
        ensures
            r == start_transition(self, e),
            start_wf(r.0),
            start_measure(r.0) < start_measure(self),
    {
        let s = self;
        let r = match (s.phase, e) {
            (StartPhase::CheckingPort, StartEvent::PortInUse(true)) => (
                StartService { phase: StartPhase::FreeingPort, ..s },
                StartAction::KillOnPort,
            ),
            (StartPhase::CheckingPort, StartEvent::PortInUse(false)) => (
                StartService { phase: StartPhase::FindingOpenclaw, ..s },
                StartAction::FindOpenclaw,
            ),
            (StartPhase::FreeingPort, _) => (
                StartService { phase: StartPhase::FindingOpenclaw, ..s },
                StartAction::FindOpenclaw,
            ),
            (StartPhase::FindingOpenclaw, StartEvent::OpenclawFound(false)) => (
                StartService { phase: StartPhase::Done, ..s },
                StartAction::Finish(StartOutcome::OpenclawMissing),
            ),
            (StartPhase::FindingOpenclaw, _) => (
                StartService { phase: StartPhase::CleaningLocks, ..s },
                StartAction::CleanupLocks,
            ),
            (StartPhase::CleaningLocks, _) => (
                StartService { phase: StartPhase::Settling, ..s },
                StartAction::Sleep(if s.retry {
                    1000
                } else {
                    2000
                }),
            ),
            (StartPhase::Settling, _) => (
                StartService { phase: StartPhase::ClearingPort, ..s },
                StartAction::KillOnPort,
            ),
            (StartPhase::ClearingPort, _) => (
                StartService { phase: StartPhase::Spawning, ..s },
                StartAction::SpawnGateway,
            ),
            (StartPhase::Spawning, StartEvent::Spawned(false)) => if s.retry {
                (
                    StartService { phase: StartPhase::Waiting, retry: true, poll: 1 },
                    StartAction::Sleep(1000),
                )
            } else {
                (
                    StartService { phase: StartPhase::Done, ..s },
                    StartAction::Finish(StartOutcome::SpawnFailed),
                )
            },
            (StartPhase::Spawning, _) => (
                StartService { phase: StartPhase::Waiting, retry: s.retry, poll: 1 },
                StartAction::Sleep(1000),
            ),
            (StartPhase::Waiting, _) => (
                StartService { phase: StartPhase::ReadingErrorLog, ..s },
                StartAction::ReadErrorLog,
            ),
            (StartPhase::ReadingErrorLog, StartEvent::ErrorLogPid(Some(p))) => (
                StartService { phase: StartPhase::KillingStale, ..s },
                StartAction::KillPid(p),
            ),
            (StartPhase::ReadingErrorLog, _) => (
                StartService { phase: StartPhase::Polling, ..s },
                StartAction::CheckListening,
            ),
            (StartPhase::KillingStale, _) => if s.retry {
                (StartService { phase: StartPhase::Polling, ..s }, StartAction::CheckListening)
            } else {
                (StartService { phase: StartPhase::StaleSettling, ..s }, StartAction::Sleep(500))
            },
            (StartPhase::StaleSettling, _) => (
                StartService { phase: StartPhase::EndingTask, ..s },
                StartAction::EndScheduledTask,
            ),
            (StartPhase::EndingTask, _) => (
                StartService { phase: StartPhase::Polling, ..s },
                StartAction::CheckListening,
            ),
            (StartPhase::Polling, StartEvent::Listening(Some(pid))) => (
                StartService { phase: StartPhase::Done, ..s },
                StartAction::Finish(StartOutcome::Started { pid, retry: s.retry }),
            ),
            (StartPhase::Polling, _) => if s.poll < START_POLLS {
                (
                    StartService { phase: StartPhase::Waiting, retry: s.retry, poll: s.poll + 1 },
                    StartAction::Sleep(1000),
                )
            } else if !s.retry {
                (
                    StartService { phase: StartPhase::CleaningLocks, retry: true, poll: 0 },
                    StartAction::CleanupLocks,
                )
            } else {
                (
                    StartService { phase: StartPhase::Done, ..s },
                    StartAction::Finish(StartOutcome::TimedOut),
                )
            },
            _ => (
                StartService { phase: StartPhase::Done, ..s },
                StartAction::Finish(StartOutcome::TimedOut),
            ),
        };
        proof {
            assert(START_POLLS == 30);
            if s.phase == StartPhase::Polling && s.poll < START_POLLS {
                assert((START_POLLS - (s.poll + 1)) * 6 + 6 < (START_POLLS - s.poll) * 6 + 1) by (nonlinear_arith)
                    requires
                        s.poll < 30,
                ;
            }
            if s.phase == StartPhase::Polling && s.poll >= START_POLLS && !s.retry {
                assert(((START_POLLS - 0) as nat) * 6 + 10 < 1 + 200) by (nonlinear_arith);
            }
            if s.phase == StartPhase::Spawning {
                assert(((START_POLLS - 1) as nat) * 6 + 6 < (START_POLLS - 0) * 6 + 7) by (nonlinear_arith);
            }
        }
        r
    }
}

/// The message that a start ends with: the pid of the started gateway, or
/// why it did not start (with the error of a failed spawn).
pub open spec fn start_message(outcome: StartOutcome, spawn_error: Seq<char>) -> Result<Seq<char>, Seq<char>> {
    match outcome {
        StartOutcome::Started { pid, retry } => Ok(
            (if retry {
                "服务已启动（重试），PID: "@
            } else {
                "服务已启动，PID: "@
            }) + decimal(pid as nat),
        ),
        StartOutcome::OpenclawMissing => Err("找不到 openclaw 命令，请先通过 npm install -g openclaw 安装"@),
        StartOutcome::SpawnFailed => Err("启动服务失败: "@ + spawn_error),
        StartOutcome::TimedOut => Err("服务启动超时，请检查 openclaw 日志"@),
    }
}

/// The message that a start ends with.
pub fn start_service_result(outcome: StartOutcome, spawn_error: &str) -> (r: Result<String, String>)
    ensures
        match (r, start_message(outcome, spawn_error@)) {
            (Ok(a), Ok(b)) => a@ == b,
            (Err(a), Err(b)) => a@ == b,
            _ => false,
        },
{
    match outcome {
        StartOutcome::Started { pid, retry } => {
            let mut s = if retry {
                String::from_str("服务已启动（重试），PID: ")
            } else {
                String::from_str("服务已启动，PID: ")
            };
            push_decimal(&mut s, pid);
            Ok(s)
        },
        StartOutcome::OpenclawMissing => Err(
            String::from_str("找不到 openclaw 命令，请先通过 npm install -g openclaw 安装"),
        ),
        StartOutcome::SpawnFailed => Err(concat2("启动服务失败: ", spawn_error)),
        StartOutcome::TimedOut => Err(String::from_str("服务启动超时，请检查 openclaw 日志")),
    }
}

// ---------------------------------------------------------------------------
// Stopping and restarting the gateway
// ---------------------------------------------------------------------------

/// Where a stop (or the clean-up before a restart) stands.
#[derive(Debug, Clone, Copy, PartialEq, Eq, Structural)]
pub enum StopPhase {
    /// Looking for the `openclaw` command.
    FindingOpenclaw,
    /// Asking the gateway to stop (`openclaw gateway stop`).
    StoppingGateway,
    /// Ending OpenClaw's processes and scheduled task (on Windows).
    KillingProcesses,
    /// Waiting for the service to go.
    Settling,
    /// Listing the processes that listen on the port (the check number is
    /// in the state).
    Listing,
    /// Asking the listed processes to end.
    Terminating,
    /// Waiting for them to end.
    AfterTerminate,
    /// Forcing the listed processes to end.
    ForceKilling,
    /// Waiting for them to end.
    AfterForceKill,
    /// Freeing the port (restart only).
    FreeingPort,
    /// Clearing OpenClaw's lock files (restart only).
    CleaningLocks,
    /// The stop is over.
    Done,
}

/// A stop in progress: its phase, whether it prepares a restart, and how
/// many times the port has been checked.
#[derive(Debug, Clone, Copy, PartialEq, Eq, Structural)]
pub struct StopService {
    pub phase: StopPhase,
    pub restart: bool,
    pub checks: u32,
}

/// How a stop ended.
#[derive(Debug, Clone, Copy, PartialEq, Eq, Structural)]
pub enum StopOutcome {
    /// Nothing listened on the port.
    NotRunning,
    /// The processes on the port ended.
    Stopped,
    /// Processes still listen on the port after being forced.
    StillRunning,
    /// The clean-up before a restart is done: now start the gateway.
    ReadyToStart,
}

/// What a stop does next.
#[derive(Debug, Clone, Copy, PartialEq, Eq, Structural)]
pub enum StopAction {
    /// Tell whether the `openclaw` command can be found.
    FindOpenclaw,
    /// Run `openclaw gateway stop`.
    StopGateway,
    /// End OpenClaw's processes and its scheduled task (on Windows).
    KillOpenclawProcesses,
    /// Wait this many milliseconds.
    Sleep(u32),
    /// List the pids that listen on the service port and tell whether there
    /// are any.
    ListPortPids,
    /// Ask the pids just listed to end.
    TerminateListed,
    /// Force the pids just listed to end.
    ForceKillListed,
    /// End the processes that hold the service port.
    KillOnPort,
    /// Clear OpenClaw's lock files and registration.
    CleanupLocks,
    /// The stop is over.
    Finish(StopOutcome),
}

/// What the last action of a stop came to.
#[derive(Debug, Clone, Copy, PartialEq, Eq, Structural)]
pub enum StopEvent {
    /// An action that tells nothing is done.
    Done,
    /// Whether the `openclaw` command was found.
    OpenclawFound(bool),
    /// Whether any pid listens on the port.
    PortPids(bool),
}

/// Whether `e` is what the action of phase `p` reports.
pub open spec fn stop_expects(p: StopPhase, e: StopEvent) -> bool {
    match p {
        StopPhase::FindingOpenclaw => e is OpenclawFound,
        StopPhase::Listing => e is PortPids,
        StopPhase::Done => false,
        _ => e is Done,
    }
}

/// The state of a stop in phase `p`.
pub open spec fn stop_in(s: StopService, p: StopPhase) -> StopService {
    StopService { phase: p, ..s }
}

/// The state of a stop after one step: from state `s` and what its last
/// action came to, the next state and action.
pub open spec fn stop_transition(s: StopService, e: StopEvent) -> (StopService, StopAction) {
    match (s.phase, e) {
        (StopPhase::FindingOpenclaw, StopEvent::OpenclawFound(true)) => (
            stop_in(s, StopPhase::StoppingGateway),
            StopAction::StopGateway,
        ),
        (StopPhase::FindingOpenclaw, _) => (
            stop_in(s, StopPhase::KillingProcesses),
            StopAction::KillOpenclawProcesses,
        ),
        (StopPhase::StoppingGateway, _) => (
            stop_in(s, StopPhase::KillingProcesses),
            StopAction::KillOpenclawProcesses,
        ),
        (StopPhase::KillingProcesses, _) => (stop_in(s, StopPhase::Settling), StopAction::Sleep(2000)),
        (StopPhase::Settling, _) => if s.restart {
            (stop_in(s, StopPhase::FreeingPort), StopAction::KillOnPort)
        } else {
            (StopService { phase: StopPhase::Listing, restart: false, checks: 1 }, StopAction::ListPortPids)
        },
        (StopPhase::Listing, StopEvent::PortPids(false)) => (
            stop_in(s, StopPhase::Done),
            StopAction::Finish(if s.checks <= 1 {
                StopOutcome::NotRunning
            } else {
                StopOutcome::Stopped
            }),
        ),
        (StopPhase::Listing, _) => if s.checks <= 1 {
            (stop_in(s, StopPhase::Terminating), StopAction::TerminateListed)
        } else if s.checks == 2 {
            (stop_in(s, StopPhase::ForceKilling), StopAction::ForceKillListed)
        } else {
            (stop_in(s, StopPhase::Done), StopAction::Finish(StopOutcome::StillRunning))
        },
        (StopPhase::Terminating, _) => (stop_in(s, StopPhase::AfterTerminate), StopAction::Sleep(2000)),
        (StopPhase::AfterTerminate, _) => (
            StopService { phase: StopPhase::Listing, restart: false, checks: 2 },
            StopAction::ListPortPids,
        ),
        (StopPhase::ForceKilling, _) => (stop_in(s, StopPhase::AfterForceKill), StopAction::Sleep(1000)),
        (StopPhase::AfterForceKill, _) => (
            StopService { phase: StopPhase::Listing, restart: false, checks: 3 },
            StopAction::ListPortPids,
        ),
        (StopPhase::FreeingPort, _) => (stop_in(s, StopPhase::CleaningLocks), StopAction::CleanupLocks),
        (StopPhase::CleaningLocks, _) => (
            stop_in(s, StopPhase::Done),
            StopAction::Finish(StopOutcome::ReadyToStart),
        ),
        _ => (stop_in(s, StopPhase::Done), StopAction::Finish(StopOutcome::StillRunning)),
    }
}

/// Whether a stop's state is one that a stop reaches: the port is checked
/// at most three times, only when stopping for good.
pub open spec fn stop_wf(s: StopService) -> bool {
    &&& s.checks <= 3
    &&& (s.phase == StopPhase::Listing ==> 1 <= s.checks && !s.restart)
    &&& (s.phase == StopPhase::Terminating || s.phase == StopPhase::AfterTerminate ==> s.checks == 1
        && !s.restart)
    &&& (s.phase == StopPhase::ForceKilling || s.phase == StopPhase::AfterForceKill ==> s.checks
        == 2 && !s.restart)
    &&& (s.phase == StopPhase::FindingOpenclaw || s.phase == StopPhase::StoppingGateway || s.phase
        == StopPhase::KillingProcesses || s.phase == StopPhase::Settling ==> s.checks == 0)
    &&& (s.phase == StopPhase::FreeingPort || s.phase == StopPhase::CleaningLocks ==> s.restart)
}

/// An upper bound on the steps a stop has left.
pub open spec fn stop_measure(s: StopService) -> nat {
    match s.phase {
        StopPhase::FindingOpenclaw => 20,
        StopPhase::StoppingGateway => 19,
        StopPhase::KillingProcesses => 18,
        StopPhase::Settling => 17,
        StopPhase::FreeingPort => 2,
        StopPhase::CleaningLocks => 1,
        StopPhase::Listing => (if s.checks <= 1 {
            16
        } else if s.checks == 2 {
            12
        } else {
            8
        }),
        StopPhase::Terminating => 15,
        StopPhase::AfterTerminate => 14,
        StopPhase::ForceKilling => 11,
        StopPhase::AfterForceKill => 10,
        StopPhase::Done => 0,
    }
}

/// The first state and action of stopping the gateway for good (`restart`
/// false) or of the clean-up before a restart (`restart` true).
pub fn stop_service(restart: bool) -> (r: (StopService, StopAction))
    ensures
        r.0 == (StopService { phase: StopPhase::FindingOpenclaw, restart, checks: 0 }),
        r.1 == StopAction::FindOpenclaw,
        stop_wf(r.0),
{
    (StopService { phase: StopPhase::FindingOpenclaw, restart, checks: 0 }, StopAction::FindOpenclaw)
}

/// The first state and action of a restart: the clean-up, after which the
/// gateway is started (see `start_service`).
pub fn restart_service() -> (r: (StopService, StopAction))
    ensures
        r.0 == (StopService { phase: StopPhase::FindingOpenclaw, restart: true, checks: 0 }),
        r.1 == StopAction::FindOpenclaw,
        stop_wf(r.0),
{
    stop_service(true)
}

impl StopService {
    /// Whether the stop is over.
    pub fn is_done(&self) -> (r: bool)
        ensures
            r == (self.phase == StopPhase::Done),
    {
        self.phase == StopPhase::Done
    }

    /// Whether `e` is what this state's last action reports.
    pub fn expects(&self, e: StopEvent) -> (r: bool)
        ensures
            r == stop_expects(self.phase, e),
    {
        match self.phase {
            StopPhase::FindingOpenclaw => matches!(e, StopEvent::OpenclawFound(_)),
            StopPhase::Listing => matches!(e, StopEvent::PortPids(_)),
            StopPhase::Done => false,
            _ => matches!(e, StopEvent::Done),
        }
    }

    /// The next state and action of a stop, from what its last action came
    /// to.
    pub fn step(self, e: StopEvent) -> (r: (StopService, StopAction))
        requires
            stop_wf(self),
            stop_expects(self.phase, e),
        ensures
            r == stop_transition(self, e),
            stop_wf(r.0),
            stop_measure(r.0) < stop_measure(self),
    {
        let s = self;
        match (s.phase, e) {
            (StopPhase::FindingOpenclaw, StopEvent::OpenclawFound(true)) => (
                StopService { phase: StopPhase::StoppingGateway, ..s },
                StopAction::StopGateway,
            ),
            (StopPhase::FindingOpenclaw, _) => (
                StopService { phase: StopPhase::KillingProcesses, ..s },
                StopAction::KillOpenclawProcesses,
            ),
            (StopPhase::StoppingGateway, _) => (
                StopService { phase: StopPhase::KillingProcesses, ..s },
                StopAction::KillOpenclawProcesses,
            ),
            (StopPhase::KillingProcesses, _) => (
                StopService { phase: StopPhase::Settling, ..s },
                StopAction::Sleep(2000),
            ),
            (StopPhase::Settling, _) => if s.restart {
                (StopService { phase: StopPhase::FreeingPort, ..s }, StopAction::KillOnPort)
            } else {
                (
                    StopService { phase: StopPhase::Listing, restart: false, checks: 1 },
                    StopAction::ListPortPids,
                )
            },
            (StopPhase::Listing, StopEvent::PortPids(false)) => (
                StopService { phase: StopPhase::Done, ..s },
                StopAction::Finish(if s.checks <= 1 {
                    StopOutcome::NotRunning
                } else {
                    StopOutcome::Stopped
                }),
            ),
            (StopPhase::Listing, _) => if s.checks <= 1 {
                (StopService { phase: StopPhase::Terminating, ..s }, StopAction::TerminateListed)
            } else if s.checks == 2 {
                (StopService { phase: StopPhase::ForceKilling, ..s }, StopAction::ForceKillListed)
            } else {
                (
                    StopService { phase: StopPhase::Done, ..s },
                    StopAction::Finish(StopOutcome::StillRunning),
                )
            },
            (StopPhase::Terminating, _) => (
                StopService { phase: StopPhase::AfterTerminate, ..s },
                StopAction::Sleep(2000),
            ),
            (StopPhase::AfterTerminate, _) => (
                StopService { phase: StopPhase::Listing, restart: false, checks: 2 },
                StopAction::ListPortPids,
            ),
            (StopPhase::ForceKilling, _) => (
                StopService { phase: StopPhase::AfterForceKill, ..s },
                StopAction::Sleep(1000),
            ),
            (StopPhase::AfterForceKill, _) => (
                StopService { phase: StopPhase::Listing, restart: false, checks: 3 },
                StopAction::ListPortPids,
            ),
            (StopPhase::FreeingPort, _) => (
                StopService { phase: StopPhase::CleaningLocks, ..s },
                StopAction::CleanupLocks,
            ),
            (StopPhase::CleaningLocks, _) => (
                StopService { phase: StopPhase::Done, ..s },
                StopAction::Finish(StopOutcome::ReadyToStart),
            ),
            _ => (
                StopService { phase: StopPhase::Done, ..s },
                StopAction::Finish(StopOutcome::StillRunning),
            ),
        }
    }
}

/// The message that a stop ends with; `still_running` are the pids that
/// still listen when the stop failed. The clean-up before a restart is not
/// reported on its own (the start that follows is); it reads as a stop.
pub open spec fn stop_message(outcome: StopOutcome, still_running: Seq<u32>) -> Result<Seq<char>, Seq<char>> {
    match outcome {
        StopOutcome::NotRunning => Ok("服务未在运行"@),
        StopOutcome::Stopped => Ok("服务已停止"@),
        StopOutcome::StillRunning => Err("无法停止服务，仍有进程: "@ + pid_list_text(still_running)),
        StopOutcome::ReadyToStart => Ok("服务已停止"@),
    }
}

/// The message that a stop ends with.
pub fn stop_service_result(outcome: StopOutcome, still_running: &Vec<u32>) -> (r: Result<String, String>)
    ensures
        match (r, stop_message(outcome, still_running@)) {
            (Ok(a), Ok(b)) => a@ == b,
            (Err(a), Err(b)) => a@ == b,
            _ => false,
        },
{
    match outcome {
        StopOutcome::NotRunning => Ok(String::from_str("服务未在运行")),
        StopOutcome::StillRunning => {
            let list = format_pid_list(still_running);
            Err(concat2("无法停止服务，仍有进程: ", list.as_str()))
        },
        _ => Ok(String::from_str("服务已停止")),
    }
}

// ---------------------------------------------------------------------------
// The log view
// ---------------------------------------------------------------------------

/// How many lines the log view shows when none is asked for.
pub const DEFAULT_LOG_LINES: u32 = 100;

/// The log view: the distinct lines of the log files that exist and could
/// be read (their contents, in the order of `log_file_paths`), in ascending
/// order, the last `lines` of them (100 when no number is given).
pub fn get_logs(lines: Option<u32>, contents: &Vec<String>) -> (r: Result<Vec<String>, String>)
    ensures
        r matches Ok(v) && string_views(v@) == merged_log(
            string_views(contents@),
            match lines {
                Some(n) => n as nat,
                None => 100,
            },
        ),
{
    let n: u32 = match lines {
        Some(k) => k,
        None => DEFAULT_LOG_LINES,
    };
    Ok(collect_log_lines(contents, n as usize))
}

// ---------------------------------------------------------------------------
// The manager's own log
// ---------------------------------------------------------------------------

/// A record of the manager's log: `[<time> <level> <target>] <message>`
/// and a line break.
pub open spec fn log_record(timestamp: Seq<char>, level: Seq<char>, target: Seq<char>, message: Seq<char>) -> Seq<char> {
    "["@ + timestamp + " "@ + level + " "@ + target + "] "@ + message + "\n"@
}

/// A record of the manager's log, as written to its log file.
pub fn format_log_record(timestamp: &str, level: &str, target: &str, message: &str) -> (r: String)
    ensures
        r@ == log_record(timestamp@, level@, target@, message@),
{
    let mut s = String::from_str("[");
    append_str(&mut s, timestamp);
    append_str(&mut s, " ");
    append_str(&mut s, level);
    append_str(&mut s, " ");
    append_str(&mut s, target);
    append_str(&mut s, "] ");
    append_str(&mut s, message);
    append_str(&mut s, "\n");
    s
}

/// A record as shown on the console: the file's record, trimmed.
pub fn console_log_record(record: &str) -> (r: String)
    ensures
        r@ == trim(record@),
{
    crate::text::trim_str(record)
}

// ---------------------------------------------------------------------------
// Ending one process, and freeing the port
// ---------------------------------------------------------------------------

/// What ending a process does next.
#[derive(Debug, Clone, Copy, PartialEq, Eq, Structural)]
pub enum KillAction {
    /// Tell whether `tasklist` shows the process (Windows).
    CheckExists,
    /// Force the process to end (`taskkill /F /PID` on Windows, `kill -9`
    /// elsewhere) and tell whether that worked.
    ForceKill,
    /// Wait this many milliseconds.
    Sleep(u32),
    /// Force the process and its children to end (`taskkill /F /T /PID`).
    ForceKillTree,
    /// It is over: whether the process is taken to have ended.
    Finish(bool),
}

/// Where ending a process stands.
#[derive(Debug, Clone, Copy, PartialEq, Eq, Structural)]
pub enum KillPhase {
    /// Asking whether the process exists (before the kill).
    Checking,
    /// Killing it.
    Killing,
    /// Waiting before checking again (Windows).
    Settling,
    /// Asking whether it still exists (after the kill).
    Verifying,
    /// Killing it with its children.
    KillingTree,
    /// It is over.
    Done,
}

/// Ending one process in progress.
#[derive(Debug, Clone, Copy, PartialEq, Eq, Structural)]
pub struct KillProcess {
    pub phase: KillPhase,
    pub is_windows: bool,
}

/// The first state and action of ending a process: on Windows look whether
/// it exists, elsewhere kill it at once.
pub fn kill_process_by_pid(is_windows: bool) -> (r: (KillProcess, KillAction))
    ensures
        is_windows ==> r == (KillProcess { phase: KillPhase::Checking, is_windows }, KillAction::CheckExists),
        !is_windows ==> r == (KillProcess { phase: KillPhase::Killing, is_windows }, KillAction::ForceKill),
{
    if is_windows {
        (KillProcess { phase: KillPhase::Checking, is_windows }, KillAction::CheckExists)
    } else {
        (KillProcess { phase: KillPhase::Killing, is_windows }, KillAction::ForceKill)
    }
}

/// The state after one step of ending a process: `told` is what the last
/// action told (whether the process was shown, whether the kill worked),
/// `None` when the tool could not be run at all; it is ignored after a
/// wait. A process that is not shown counts as ended; when the tool that
/// looks for it cannot run, it is killed all the same. A kill that failed or
/// could not run does not end it; on Windows a process still shown after the
/// kill is killed with its children, and counts as ended, as it does when the
/// second look cannot run.
pub open spec fn kill_transition(k: KillProcess, told: Option<bool>) -> (KillProcess, KillAction) {
    match k.phase {
        KillPhase::Checking => if told == Some(false) {
            (KillProcess { phase: KillPhase::Done, ..k }, KillAction::Finish(true))
        } else {
            (KillProcess { phase: KillPhase::Killing, ..k }, KillAction::ForceKill)
        },
        KillPhase::Killing => if told != Some(true) {
            (KillProcess { phase: KillPhase::Done, ..k }, KillAction::Finish(false))
        } else if k.is_windows {
            (KillProcess { phase: KillPhase::Settling, ..k }, KillAction::Sleep(500))
        } else {
            (KillProcess { phase: KillPhase::Done, ..k }, KillAction::Finish(true))
        },
        KillPhase::Settling => (KillProcess { phase: KillPhase::Verifying, ..k }, KillAction::CheckExists),
        KillPhase::Verifying => if told == Some(true) {
            (KillProcess { phase: KillPhase::KillingTree, ..k }, KillAction::ForceKillTree)
        } else {
            (KillProcess { phase: KillPhase::Done, ..k }, KillAction::Finish(true))
        },
        _ => (KillProcess { phase: KillPhase::Done, ..k }, KillAction::Finish(true)),
    }
}

impl KillProcess {
    /// The next state and action of ending a process, from what the last
    /// action told (`None`: its tool could not be run).
    pub fn step(self, told: Option<bool>) -> (r: (KillProcess, KillAction))
        requires
            self.phase != KillPhase::Done,
        ensures
            r == kill_transition(self, told),
    {
        let k = self;
        let shown = match told {
            Some(b) => b,
            None => false,
        };
        let ran = told.is_some();
        match k.phase {
            KillPhase::Checking => if ran && !shown {
                (KillProcess { phase: KillPhase::Done, ..k }, KillAction::Finish(true))
            } else {
                (KillProcess { phase: KillPhase::Killing, ..k }, KillAction::ForceKill)
            },
            KillPhase::Killing => if !shown {
                (KillProcess { phase: KillPhase::Done, ..k }, KillAction::Finish(false))
            } else if k.is_windows {
                (KillProcess { phase: KillPhase::Settling, ..k }, KillAction::Sleep(500))
            } else {
                (KillProcess { phase: KillPhase::Done, ..k }, KillAction::Finish(true))
            },
            KillPhase::Settling => (
                KillProcess { phase: KillPhase::Verifying, ..k },
                KillAction::CheckExists,
            ),
            KillPhase::Verifying => if shown {
                (KillProcess { phase: KillPhase::KillingTree, ..k }, KillAction::ForceKillTree)
            } else {
                (KillProcess { phase: KillPhase::Done, ..k }, KillAction::Finish(true))
            },
            _ => (KillProcess { phase: KillPhase::Done, ..k }, KillAction::Finish(true)),
        }
    }

    /// Whether ending the process is over.
    pub fn is_done(&self) -> (r: bool)
        ensures
            r == (self.phase == KillPhase::Done),
    {
        self.phase == KillPhase::Done
    }
}

/// How the port is freed, once the pids listening on it are known.
#[derive(Debug)]
pub enum PortCleanup {
    /// End each of these processes, in this order, then wait a second for
    /// the port.
    KillListed(Vec<u32>),
    /// Nothing listens: ask whether the port is taken at all, and end the
    /// processes that `port_holders` then names; no wait.
    CheckInUse,
}

/// How to free the port, from the pids that listen on it: end exactly
/// those, in their order, or look further when there are none.
pub fn kill_process_on_port(listening: Vec<u32>) -> (r: PortCleanup)
    ensures
        listening@.len() == 0 ==> r is CheckInUse,
        listening@.len() > 0 ==> (r matches PortCleanup::KillListed(ps) && ps@ == listening@),
{
    if listening.len() == 0 {
        PortCleanup::CheckInUse
    } else {
        PortCleanup::KillListed(listening)
    }
}

/// The processes to end when nothing listens on `port` but it may be taken:
/// on Windows, when the port is in use, every process of a `netstat -ano`
/// line that names the port, in the order of the lines; none otherwise.
pub fn port_holders(is_windows: bool, in_use: bool, netstat_stdout: &str, port: u16) -> (r: Vec<u32>)
    ensures
        r@ == (if is_windows && in_use {
            crate::ports::netstat_port_pids(crate::text::lines(netstat_stdout@), port)
        } else {
            seq![]
        }),
{
    if is_windows && in_use {
        crate::ports::port_pids_from_netstat(netstat_stdout, port)
    } else {
        Vec::new()
    }
}

// ---------------------------------------------------------------------------
// Install terminals
// ---------------------------------------------------------------------------

/// How an install terminal is opened.
#[derive(Debug, Clone)]
pub enum TerminalPlan {
    /// Run the PowerShell script that opens an elevated window (Windows).
    PowerShell,
    /// Write the install script to this path, make it executable and open
    /// it: with `open` on macOS, else with the first terminal that starts
    /// (`gnome-terminal`, `xfce4-terminal`, `konsole`, `xterm`).
    Script { path: String, with_open: bool },
    /// There is no terminal for this: install by hand, as the message says.
    Manual(String),
}

/// How the install terminal for `what` is opened on `platform`: Node.js has
/// none on Linux; OpenClaw's Linux script goes to the first terminal that
/// starts.
pub fn install_terminal_plan(what: crate::installer::TerminalInstall, platform: crate::environment::Platform) -> (r: TerminalPlan)
    ensures
        platform == crate::environment::Platform::Windows ==> r is PowerShell,
        platform == crate::environment::Platform::MacOs && what == crate::installer::TerminalInstall::NodeJs
            ==> (r matches TerminalPlan::Script { path, with_open } && with_open && path@
            == "/tmp/openclaw_install_nodejs.command"@),
        platform == crate::environment::Platform::MacOs && what
            == crate::installer::TerminalInstall::OpenClaw ==> (r matches TerminalPlan::Script {
            path,
            with_open,
        } && with_open && path@ == "/tmp/openclaw_install_openclaw.command"@),
        platform != crate::environment::Platform::Windows && platform
            != crate::environment::Platform::MacOs && what
            == crate::installer::TerminalInstall::NodeJs ==> (r matches TerminalPlan::Manual(m) && m@
            == "请手动安装 Node.js: https://nodejs.org/"@),
        platform != crate::environment::Platform::Windows && platform
            != crate::environment::Platform::MacOs && what
            == crate::installer::TerminalInstall::OpenClaw ==> (r matches TerminalPlan::Script {
            path,
            with_open,
        } && !with_open && path@ == "/tmp/openclaw_install_openclaw.sh"@),
{
    match platform {
        crate::environment::Platform::Windows => TerminalPlan::PowerShell,
        crate::environment::Platform::MacOs => match what {
            crate::installer::TerminalInstall::NodeJs => TerminalPlan::Script {
                path: String::from_str("/tmp/openclaw_install_nodejs.command"),
                with_open: true,
            },
            crate::installer::TerminalInstall::OpenClaw => TerminalPlan::Script {
                path: String::from_str("/tmp/openclaw_install_openclaw.command"),
                with_open: true,
            },
        },
        _ => match what {
            crate::installer::TerminalInstall::NodeJs => TerminalPlan::Manual(
                String::from_str("请手动安装 Node.js: https://nodejs.org/"),
            ),
            crate::installer::TerminalInstall::OpenClaw => TerminalPlan::Script {
                path: String::from_str("/tmp/openclaw_install_openclaw.sh"),
                with_open: false,
            },
        },
    }
}

/// The terminal programs that the Linux install script is opened with, tried
/// in this order.
pub open spec fn linux_terminal(i: int) -> Seq<char> {
    if i == 0 {
        "gnome-terminal"@
    } else if i == 1 {
        "xfce4-terminal"@
    } else if i == 2 {
        "konsole"@
    } else {
        "xterm"@
    }
}

/// What opening the Linux install script does next.
#[derive(Debug)]
pub enum TerminalTry {
    /// Start `program` with `args` and tell whether it started.
    Launch { program: String, args: Vec<String> },
    /// Opening is over, with this answer.
    Finish(Result<String, String>),
}

/// The next step of opening the Linux install script at `path`, after
/// `tried` terminals were tried and the last of them `started` or not: stop
/// at the first that starts, else try `gnome-terminal`, `xfce4-terminal`,
/// `konsole` and `xterm` in turn with `-- <path>`, and give up after the
/// four.
pub fn next_linux_terminal(tried: usize, started: bool, path: &str) -> (r: TerminalTry)
    ensures
        started ==> (r matches TerminalTry::Finish(Ok(m)) && m@ == "已打开安装终端"@),
        !started && tried < 4 ==> (r matches TerminalTry::Launch { program, args } && program@
            == linux_terminal(tried as int) && string_views(args@) == seq!["--"@, path@]),
        !started && tried >= 4 ==> (r matches TerminalTry::Finish(Err(m)) && m@
            == "无法启动终端，请手动运行: npm install -g openclaw"@),
{
    if started {
        return TerminalTry::Finish(Ok(terminal_opened()));
    }
    if tried >= 4 {
        return TerminalTry::Finish(Err(no_terminal_started()));
    }
    let program = if tried == 0 {
        String::from_str("gnome-terminal")
    } else if tried == 1 {
        String::from_str("xfce4-terminal")
    } else if tried == 2 {
        String::from_str("konsole")
    } else {
        String::from_str("xterm")
    };
    let mut args: Vec<String> = Vec::new();
    args.push(String::from_str("--"));
    args.push(String::from_str(path));
    assert(string_views(args@) =~= seq!["--"@, path@]);
    TerminalTry::Launch { program, args }
}

/// A step of opening an install terminal that can fail.
#[derive(Debug, Clone, Copy, PartialEq, Eq, Structural)]
pub enum TerminalStep {
    /// Writing the script.
    Write,
    /// Making it executable.
    Chmod,
    /// Opening it.
    Launch,
}

/// The answer when opening an install terminal failed at `step` with
/// `error`.
pub fn terminal_step_failed(step: TerminalStep, error: &str) -> (r: String)
    ensures
        r@ == (match step {
            TerminalStep::Write => "创建脚本失败: "@,
            TerminalStep::Chmod => "设置权限失败: "@,
            TerminalStep::Launch => "启动终端失败: "@,
        }) + error@,
{
    match step {
        TerminalStep::Write => concat2("创建脚本失败: ", error),
        TerminalStep::Chmod => concat2("设置权限失败: ", error),
        TerminalStep::Launch => concat2("启动终端失败: ", error),
    }
}

/// The answer when an install terminal was opened.
pub fn terminal_opened() -> (r: String)
    ensures
        r@ == "已打开安装终端"@,
{
    String::from_str("已打开安装终端")
}

/// The answer when no terminal could be started for the Linux script.
pub fn no_terminal_started() -> (r: String)
    ensures
        r@ == "无法启动终端，请手动运行: npm install -g openclaw"@,
{
    String::from_str("无法启动终端，请手动运行: npm install -g openclaw")
}

} // verus!
