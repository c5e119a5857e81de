//! A seeding run: check the time limit and the network, validate the
//! settings, settle the seed order, start the game, then seed the servers
//! one after another; at the end restore the frame rates (eco mode) and
//! close the game.
//!
//! As for one server, the decisions are a state machine: the caller performs
//! each [`RunAction`] and hands back its outcome as a [`RunEvent`], with
//! whether seeding was stopped by then. A [`RunAction::SeedServer`] is
//! carried out by the machine of `server_seed`.
use vstd::prelude::*;
use chrono::Timelike;
use crate::config::Config;
use crate::server_seed::SeedResult;

verus! {

/// The number of network checks before a run gives up.
pub const PING_TRIES: u8 = 20;

/// Seconds between two network checks.
pub const PING_RETRY_SECS: u64 = 15;

/// Where a seeding run stands.
#[derive(Clone, Copy, Debug, PartialEq, Eq, Structural)]
pub enum RunPhase {
    AwaitTimeLimit,
    /// Network check number `tries + 1` is running.
    AwaitPing { tries: u8 },
    /// The wait after failed network check number `tries + 1`.
    AwaitPingWait { tries: u8 },
    AwaitValidation,
    AwaitOrder,
    AwaitLaunch,
    /// Frame rates are restored after the game failed to start.
    AwaitLaunchRestore,
    /// The server at `idx` of the order is being seeded.
    AwaitSeed,
    /// The game is started again for the server at `idx`.
    AwaitRelaunch,
    /// Frame rates are restored at the end of the run.
    AwaitCleanupRestore,
    AwaitKill,
    /// The run is over; `completed` tells whether the after-seed action is due.
    Finished { completed: bool },
}

/// What the caller does next.
#[derive(Clone, Copy, Debug, PartialEq, Eq, Structural)]
pub enum RunAction {
    /// Check the time limit (`check_time_limit`).
    CheckTimeLimit,
    /// Check that the hub can be reached.
    Ping,
    /// Wait that many seconds, unless seeding is stopped first.
    Sleep(u64),
    /// Validate the settings (`validate_config`).
    Validate,
    /// Ask the hub for the seed order.
    FetchOrder,
    /// Start the game (and remove the intro video when the settings ask so).
    Launch,
    /// Write the preferred frame rates back into the game's settings.
    RestoreFps,
    /// Seed this server.
    SeedServer(u8),
    /// Close the game.
    KillSquad,
    /// The run is over; `true`: it ran its course and the after-seed action is due.
    Finish(bool),
}

/// The outcome of an action.
#[derive(Debug)]
pub enum RunEvent {
    /// Whether the time is within the limit.
    TimeLimit(bool),
    /// Whether the hub answered.
    Pinged(bool),
    /// A wait ended.
    Slept,
    /// Whether the settings are valid.
    Validated(bool),
    /// The order from the hub, or `None` when the request failed.
    Order(Option<Vec<u8>>),
    /// Whether the game started.
    Launched(bool),
    Restored,
    /// How seeding the server ended.
    Seeded(SeedResult),
    Killed,
}

/// What a run reports to the user.
#[derive(Clone, Copy, Debug, PartialEq, Eq, Structural)]
pub enum RunNotice {
    TooLate,
    NetworkUp,
    NetworkDown,
    NetworkGaveUp,
    ConfigInvalid,
    LocalOrder,
    RemoteOrder,
    DefaultOrder,
    LaunchFailed,
    Relaunching { server: u8 },
    RelaunchFailed,
    ServerFailed { server: u8 },
    StopServerReached { server: u8 },
    AllDone,
    Stopped,
}

/// A seeding run.
pub struct SeedRun {
    pub eco_mode: bool,
    pub stop_after_server: u8,
    pub local_order: Option<Vec<u8>>,
    /// The seed order, once settled.
    pub order: Vec<u8>,
    /// The position in `order` of the server being seeded.
    pub idx: usize,
    pub phase: RunPhase,
}

/// A run as a mathematical value.
pub struct RunModel {
    pub eco_mode: bool,
    pub stop_after_server: u8,
    pub local_order: Option<Seq<u8>>,
    pub order: Seq<u8>,
    pub idx: nat,
    pub phase: RunPhase,
}

impl View for SeedRun {
    type V = RunModel;

    open spec fn view(&self) -> RunModel {
        RunModel {
            eco_mode: self.eco_mode,
            stop_after_server: self.stop_after_server,
            local_order: match self.local_order {
                Some(v) => Some(v@),
                None => None,
            },
            order: self.order@,
            idx: self.idx as nat,
            phase: self.phase,
        }
    }
}

/// The order used when the hub cannot tell it.
pub open spec fn default_order() -> Seq<u8> {
    seq![1u8, 2u8, 3u8, 4u8]
}

pub open spec fn with_phase(m: RunModel, phase: RunPhase) -> RunModel {
    RunModel { phase, ..m }
}

pub open spec fn finish_run(m: RunModel, completed: bool, notes: Seq<RunNotice>) -> (
    RunModel,
    RunAction,
    Seq<RunNotice>,
) {
    (with_phase(m, RunPhase::Finished { completed }), RunAction::Finish(completed), notes)
}

/// A network check, unless seeding was stopped.
pub open spec fn ping_or_stop(m: RunModel, tries: u8, stopped: bool, notes: Seq<RunNotice>) -> (
    RunModel,
    RunAction,
    Seq<RunNotice>,
) {
    if stopped {
        finish_run(m, false, notes)
    } else {
        (with_phase(m, RunPhase::AwaitPing { tries }), RunAction::Ping, notes)
    }
}

/// The end of the run: restore the frame rates in eco mode, then close the
/// game unless seeding was stopped.
pub open spec fn cleanup(m: RunModel, stopped: bool, notes: Seq<RunNotice>) -> (
    RunModel,
    RunAction,
    Seq<RunNotice>,
) {
    if m.eco_mode {
        (with_phase(m, RunPhase::AwaitCleanupRestore), RunAction::RestoreFps, notes)
    } else {
        close_run(m, stopped, notes)
    }
}

pub open spec fn close_run(m: RunModel, stopped: bool, notes: Seq<RunNotice>) -> (
    RunModel,
    RunAction,
    Seq<RunNotice>,
) {
    if !stopped {
        (with_phase(m, RunPhase::AwaitKill), RunAction::KillSquad, notes.push(RunNotice::AllDone))
    } else {
        finish_run(m, false, notes.push(RunNotice::Stopped))
    }
}

/// Seeds the server at `idx`, unless the order is done or seeding was stopped.
pub open spec fn seed_at(m: RunModel, idx: nat, stopped: bool, notes: Seq<RunNotice>) -> (
    RunModel,
    RunAction,
    Seq<RunNotice>,
) {
    let m2 = RunModel { idx, ..m };
    if idx >= m.order.len() || stopped {
        cleanup(m2, stopped, notes)
    } else {
        (with_phase(m2, RunPhase::AwaitSeed), RunAction::SeedServer(m.order[idx as int]), notes)
    }
}

/// Which events each phase waits for.
pub open spec fn run_accepts(phase: RunPhase, e: RunEvent) -> bool {
    match phase {
        RunPhase::AwaitTimeLimit => e is TimeLimit,
        RunPhase::AwaitPing { .. } => e is Pinged,
        RunPhase::AwaitPingWait { .. } => e is Slept,
        RunPhase::AwaitValidation => e is Validated,
        RunPhase::AwaitOrder => e is Order,
        RunPhase::AwaitLaunch | RunPhase::AwaitRelaunch => e is Launched,
        RunPhase::AwaitLaunchRestore | RunPhase::AwaitCleanupRestore => e is Restored,
        RunPhase::AwaitSeed => e is Seeded,
        RunPhase::AwaitKill => e is Killed,
        RunPhase::Finished { .. } => false,
    }
}

/// What every reachable run satisfies.
pub open spec fn run_wf(m: RunModel) -> bool {
    &&& m.idx <= m.order.len()
    &&& (m.phase is AwaitSeed || m.phase is AwaitRelaunch) ==> m.idx < m.order.len()
    &&& m.phase matches RunPhase::AwaitPing { tries } ==> tries < PING_TRIES
    &&& m.phase matches RunPhase::AwaitPingWait { tries } ==> tries < PING_TRIES
}

/// The order a run seeds: the local order when the settings hold one,
/// otherwise the hub's, or 1-2-3-4 when the hub cannot tell it.
pub open spec fn settle_order(m: RunModel, fetched: Option<Seq<u8>>) -> Seq<u8> {
    match m.local_order {
        Some(o) => o,
        None => match fetched {
            Some(o) => o,
            None => default_order(),
        },
    }
}

/// One step of a run: the phase, the outcome of its action and whether
/// seeding was stopped give the next phase, the next action and what to report.
pub open spec fn run_next(m: RunModel, e: RunEvent, stopped: bool) -> (
    RunModel,
    RunAction,
    Seq<RunNotice>,
) {
    match (m.phase, e) {
        (RunPhase::AwaitTimeLimit, RunEvent::TimeLimit(ok)) => if ok {
            ping_or_stop(m, 0, stopped, Seq::empty())
        } else {
            finish_run(m, true, seq![RunNotice::TooLate])
        },
        (RunPhase::AwaitPing { tries }, RunEvent::Pinged(up)) => if up {
            (with_phase(m, RunPhase::AwaitValidation), RunAction::Validate, seq![RunNotice::NetworkUp])
        } else {
            (
                with_phase(m, RunPhase::AwaitPingWait { tries }),
                RunAction::Sleep(PING_RETRY_SECS),
                seq![RunNotice::NetworkDown],
            )
        },
        (RunPhase::AwaitPingWait { tries }, RunEvent::Slept) => if stopped {
            finish_run(m, false, Seq::empty())
        } else if tries + 1 >= PING_TRIES {
            finish_run(m, true, seq![RunNotice::NetworkGaveUp])
        } else {
            ping_or_stop(m, (tries + 1) as u8, stopped, Seq::empty())
        },
        (RunPhase::AwaitValidation, RunEvent::Validated(ok)) => if !ok {
            finish_run(m, true, seq![RunNotice::ConfigInvalid])
        } else {
            match m.local_order {
                Some(o) => (
                    RunModel { order: o, idx: 0, phase: RunPhase::AwaitLaunch, ..m },
                    RunAction::Launch,
                    seq![RunNotice::LocalOrder],
                ),
                None => (with_phase(m, RunPhase::AwaitOrder), RunAction::FetchOrder, Seq::empty()),
            }
        },
        (RunPhase::AwaitOrder, RunEvent::Order(fetched)) => match fetched {
            Some(o) => (
                RunModel { order: o@, idx: 0, phase: RunPhase::AwaitLaunch, ..m },
                RunAction::Launch,
                seq![RunNotice::RemoteOrder],
            ),
            None => (
                RunModel { order: default_order(), idx: 0, phase: RunPhase::AwaitLaunch, ..m },
                RunAction::Launch,
                seq![RunNotice::DefaultOrder],
            ),
        },
        (RunPhase::AwaitLaunch, RunEvent::Launched(ok)) => if !ok {
            if m.eco_mode {
                (
                    with_phase(m, RunPhase::AwaitLaunchRestore),
                    RunAction::RestoreFps,
                    seq![RunNotice::LaunchFailed],
                )
            } else {
                finish_run(m, !stopped, seq![RunNotice::LaunchFailed])
            }
        } else if stopped {
            finish_run(m, false, Seq::empty())
        } else {
            seed_at(m, 0, stopped, Seq::empty())
        },
        (RunPhase::AwaitLaunchRestore, RunEvent::Restored) => finish_run(m, !stopped, Seq::empty()),
        (RunPhase::AwaitSeed, RunEvent::Seeded(r)) => {
            let server = m.order[m.idx as int];
            match r {
                SeedResult::Cancelled => cleanup(m, stopped, Seq::empty()),
                SeedResult::Restart => (
                    with_phase(m, RunPhase::AwaitRelaunch),
                    RunAction::Launch,
                    seq![RunNotice::Relaunching { server }],
                ),
                SeedResult::Failed => seed_at(
                    m,
                    m.idx + 1,
                    stopped,
                    seq![RunNotice::ServerFailed { server }],
                ),
                SeedResult::Success => if m.stop_after_server != 0 && server
                    == m.stop_after_server {
                    cleanup(m, stopped, seq![RunNotice::StopServerReached { server }])
                } else {
                    seed_at(m, m.idx + 1, stopped, Seq::empty())
                },
            }
        },
        (RunPhase::AwaitRelaunch, RunEvent::Launched(ok)) => if !ok {
            cleanup(m, stopped, seq![RunNotice::RelaunchFailed])
        } else if stopped {
            cleanup(m, stopped, Seq::empty())
        } else {
            (
                with_phase(m, RunPhase::AwaitSeed),
                RunAction::SeedServer(m.order[m.idx as int]),
                Seq::empty(),
            )
        },
        (RunPhase::AwaitCleanupRestore, RunEvent::Restored) => close_run(m, stopped, Seq::empty()),
        (RunPhase::AwaitKill, RunEvent::Killed) => finish_run(m, true, Seq::empty()),
        _ => (m, RunAction::Finish(false), Seq::empty()),
    }
}

/// Every step keeps a run well formed.
pub proof fn lemma_run_next_wf(m: RunModel, e: RunEvent, stopped: bool)
    requires
        run_accepts(m.phase, e),
        run_wf(m),
    ensures
        run_wf(run_next(m, e, stopped).0),
{
    match (m.phase, e) {
        (RunPhase::AwaitSeed, RunEvent::Seeded(r)) => {
            assert(m.idx + 1 <= m.order.len());
            assert(run_wf(run_next(m, e, stopped).0));
        },
        (RunPhase::AwaitPingWait { tries }, RunEvent::Slept) => {
            assert(run_wf(run_next(m, e, stopped).0));
        },
        (RunPhase::AwaitLaunch, RunEvent::Launched(ok)) => {
            assert(run_wf(run_next(m, e, stopped).0));
        },
        (RunPhase::AwaitRelaunch, RunEvent::Launched(ok)) => {
            assert(run_wf(run_next(m, e, stopped).0));
        },
        (RunPhase::AwaitOrder, RunEvent::Order(o)) => {
            assert(run_wf(run_next(m, e, stopped).0));
        },
        (RunPhase::AwaitValidation, RunEvent::Validated(o)) => {
            assert(run_wf(run_next(m, e, stopped).0));
        },
        _ => {},
    }
}

impl SeedRun {
    /// A run with the settings of `cfg`; its first action checks the time limit.
    pub fn new(cfg: &Config) -> (r: (SeedRun, RunAction))
        ensures
            r.0@.eco_mode == cfg.eco_mode,
            r.0@.stop_after_server == cfg.stop_after_server,
            r.0@.local_order == (match cfg.seed_order_override {
                Some(v) => Some(v@),
                None => None::<Seq<u8>>,
            }),
            r.0@.order == Seq::<u8>::empty(),
            r.0@.idx == 0,
            r.0@.phase == RunPhase::AwaitTimeLimit,
            r.1 == RunAction::CheckTimeLimit,
            run_wf(r.0@),
    {
        let local_order = match &cfg.seed_order_override {
            Some(v) => {
                let c = v.clone();
                assert(c@ =~= v@);
                Some(c)
            },
            None => None,
        };
        (
            SeedRun {
                eco_mode: cfg.eco_mode,
                stop_after_server: cfg.stop_after_server,
                local_order,
                order: Vec::new(),
                idx: 0,
                phase: RunPhase::AwaitTimeLimit,
            },
            RunAction::CheckTimeLimit,
        )
    }

    fn finish(self, completed: bool, notes: Vec<RunNotice>) -> (r: (SeedRun, RunAction, Vec<RunNotice>))
        ensures
            (r.0@, r.1, r.2@) == finish_run(self@, completed, notes@),
    {
        (SeedRun { phase: RunPhase::Finished { completed }, ..self }, RunAction::Finish(completed), notes)
    }

    fn close(self, stopped: bool, notes: Vec<RunNotice>) -> (r: (SeedRun, RunAction, Vec<RunNotice>))
        ensures
            (r.0@, r.1, r.2@) == close_run(self@, stopped, notes@),
    {
        let mut notes = notes;
        if !stopped {
            notes.push(RunNotice::AllDone);
            (SeedRun { phase: RunPhase::AwaitKill, ..self }, RunAction::KillSquad, notes)
        } else {
            notes.push(RunNotice::Stopped);
            self.finish(false, notes)
        }
    }

    fn cleanup(self, stopped: bool, notes: Vec<RunNotice>) -> (r: (SeedRun, RunAction, Vec<RunNotice>))
        ensures
            (r.0@, r.1, r.2@) == cleanup(self@, stopped, notes@),
    {
        if self.eco_mode {
            (SeedRun { phase: RunPhase::AwaitCleanupRestore, ..self }, RunAction::RestoreFps, notes)
        } else {
            self.close(stopped, notes)
        }
    }

    fn seed_at(self, idx: usize, stopped: bool, notes: Vec<RunNotice>) -> (r: (
        SeedRun,
        RunAction,
        Vec<RunNotice>,
    ))
        ensures
            (r.0@, r.1, r.2@) == seed_at(self@, idx as nat, stopped, notes@),
    {
        let s = SeedRun { idx, ..self };
        if idx >= s.order.len() || stopped {
            s.cleanup(stopped, notes)
        } else {
            let server = s.order[idx];
            (SeedRun { phase: RunPhase::AwaitSeed, ..s }, RunAction::SeedServer(server), notes)
        }
    }

    /// One step of a run, as `run_next` states.
    pub fn step(self, e: RunEvent, stopped: bool) -> (r: (SeedRun, RunAction, Vec<RunNotice>))
        requires
            run_accepts(self.phase, e),
            run_wf(self@),
        ensures
            r.0@ == run_next(self@, e, stopped).0,
            r.1 == run_next(self@, e, stopped).1,
            r.2@ == run_next(self@, e, stopped).2,
            run_wf(r.0@),
            self.phase is AwaitSeed && (e == RunEvent::Seeded(SeedResult::Success) || e
                == RunEvent::Seeded(SeedResult::Failed)) && !stopped && self.idx + 1 < self.order.len()
                && !(e == RunEvent::Seeded(SeedResult::Success) && self.stop_after_server != 0
                && self.order@[self.idx as int] == self.stop_after_server) ==> r.1
                == RunAction::SeedServer(self.order@[self.idx + 1]) && r.0.idx == self.idx + 1,
    {
        let ghost m = self@;
        let ghost spec = run_next(m, e, stopped);
        proof {
            lemma_run_next_wf(m, e, stopped);
        }
        let len = self.order.len();
        let mut notes: Vec<RunNotice> = Vec::new();
        let phase = self.phase;
        match (phase, e) {
            (RunPhase::AwaitTimeLimit, RunEvent::TimeLimit(ok)) => if ok {
                if stopped {
                    self.finish(false, notes)
                } else {
                    (SeedRun { phase: RunPhase::AwaitPing { tries: 0 }, ..self }, RunAction::Ping, notes)
                }
            } else {
                notes.push(RunNotice::TooLate);
                self.finish(true, notes)
            },
            (RunPhase::AwaitPing { tries }, RunEvent::Pinged(up)) => if up {
                notes.push(RunNotice::NetworkUp);
                (SeedRun { phase: RunPhase::AwaitValidation, ..self }, RunAction::Validate, notes)
            } else {
                notes.push(RunNotice::NetworkDown);
                (
                    SeedRun { phase: RunPhase::AwaitPingWait { tries }, ..self },
                    RunAction::Sleep(PING_RETRY_SECS),
                    notes,
                )
            },
            (RunPhase::AwaitPingWait { tries }, RunEvent::Slept) => if stopped {
                self.finish(false, notes)
            } else if tries + 1 >= PING_TRIES {
                notes.push(RunNotice::NetworkGaveUp);
                self.finish(true, notes)
            } else {
                (
                    SeedRun { phase: RunPhase::AwaitPing { tries: tries + 1 }, ..self },
                    RunAction::Ping,
                    notes,
                )
            },
            (RunPhase::AwaitValidation, RunEvent::Validated(ok)) => if !ok {
                notes.push(RunNotice::ConfigInvalid);
                self.finish(true, notes)
            } else {
                match &self.local_order {
                    Some(o) => {
                        let order = o.clone();
                        assert(order@ =~= o@);
                        notes.push(RunNotice::LocalOrder);
                        (SeedRun { order, idx: 0, phase: RunPhase::AwaitLaunch, ..self }, RunAction::Launch, notes)
                    },
                    None => (SeedRun { phase: RunPhase::AwaitOrder, ..self }, RunAction::FetchOrder, notes),
                }
            },
            (RunPhase::AwaitOrder, RunEvent::Order(fetched)) => match fetched {
                Some(order) => {
                    notes.push(RunNotice::RemoteOrder);
                    (SeedRun { order, idx: 0, phase: RunPhase::AwaitLaunch, ..self }, RunAction::Launch, notes)
                },
                None => {
                    let mut order = Vec::new();
                    order.push(1u8);
                    order.push(2u8);
                    order.push(3u8);
                    order.push(4u8);
                    assert(order@ =~= default_order());
                    notes.push(RunNotice::DefaultOrder);
                    (SeedRun { order, idx: 0, phase: RunPhase::AwaitLaunch, ..self }, RunAction::Launch, notes)
                },
            },
            (RunPhase::AwaitLaunch, RunEvent::Launched(ok)) => if !ok {
                notes.push(RunNotice::LaunchFailed);
                if self.eco_mode {
                    (SeedRun { phase: RunPhase::AwaitLaunchRestore, ..self }, RunAction::RestoreFps, notes)
                } else {
                    self.finish(!stopped, notes)
                }
            } else if stopped {
                self.finish(false, notes)
            } else {
                self.seed_at(0, stopped, notes)
            },
            (RunPhase::AwaitLaunchRestore, RunEvent::Restored) => self.finish(!stopped, notes),
            (RunPhase::AwaitSeed, RunEvent::Seeded(r)) => {
                let server = self.order[self.idx];
                match r {
                    SeedResult::Cancelled => self.cleanup(stopped, notes),
                    SeedResult::Restart => {
                        notes.push(RunNotice::Relaunching { server });
                        (SeedRun { phase: RunPhase::AwaitRelaunch, ..self }, RunAction::Launch, notes)
                    },
                    SeedResult::Failed => {
                        notes.push(RunNotice::ServerFailed { server });
                        let next = self.idx + 1;
                        self.seed_at(next, stopped, notes)
                    },
                    SeedResult::Success => if self.stop_after_server != 0 && server
                        == self.stop_after_server {
                        notes.push(RunNotice::StopServerReached { server });
                        self.cleanup(stopped, notes)
                    } else {
                        let next = self.idx + 1;
                        self.seed_at(next, stopped, notes)
                    },
                }
            },
            (RunPhase::AwaitRelaunch, RunEvent::Launched(ok)) => if !ok {
                notes.push(RunNotice::RelaunchFailed);
                self.cleanup(stopped, notes)
            } else if stopped {
                self.cleanup(stopped, notes)
            } else {
                let server = self.order[self.idx];
                (SeedRun { phase: RunPhase::AwaitSeed, ..self }, RunAction::SeedServer(server), notes)
            },
            (RunPhase::AwaitCleanupRestore, RunEvent::Restored) => self.close(stopped, notes),
            (RunPhase::AwaitKill, RunEvent::Killed) => self.finish(true, notes),
            _ => (self, RunAction::Finish(false), notes),
        }
    }
}


// ── laws of a run ────────────────────────────────────────────────────────────

/// A stop is never reported as a completed run, except where the run ends
/// without having looked at the stop: at the time-limit check, at the
/// validation, and once the game was closed.
pub proof fn lemma_stop_is_not_completion(m: RunModel, e: RunEvent)
    requires
        run_accepts(m.phase, e),
        run_wf(m),
        !(m.phase is AwaitTimeLimit),
        !(m.phase is AwaitValidation),
        !(m.phase is AwaitKill),
    ensures
        run_next(m, e, true).1 != RunAction::Finish(true),
{
}

/// After the stop-after server was seeded, no further server is seeded:
/// the run goes to its end.
pub proof fn lemma_stop_after_server_ends_run(m: RunModel, stopped: bool)
    requires
        run_wf(m),
        m.phase is AwaitSeed,
        m.stop_after_server != 0,
        m.order[m.idx as int] == m.stop_after_server,
    ensures
        !(run_next(m, RunEvent::Seeded(SeedResult::Success), stopped).1 is SeedServer),
        run_next(m, RunEvent::Seeded(SeedResult::Success), stopped).2 == seq![
            RunNotice::StopServerReached { server: m.stop_after_server },
        ] + (if !m.eco_mode {
            if stopped {
                seq![RunNotice::Stopped]
            } else {
                seq![RunNotice::AllDone]
            }
        } else {
            Seq::<RunNotice>::empty()
        }),
{
    let r = run_next(m, RunEvent::Seeded(SeedResult::Success), stopped);
    assert(r.2 =~= seq![RunNotice::StopServerReached { server: m.stop_after_server }] + (if !m.eco_mode {
        if stopped {
            seq![RunNotice::Stopped]
        } else {
            seq![RunNotice::AllDone]
        }
    } else {
        Seq::<RunNotice>::empty()
    }));
}

/// Servers are seeded in the settled order: while servers are being seeded
/// the order stays, the position never moves back, a server is always the
/// one at the position, and a restart seeds the same server again.
pub proof fn lemma_servers_in_order(m: RunModel, e: RunEvent, stopped: bool)
    requires
        run_accepts(m.phase, e),
        run_wf(m),
        m.phase is AwaitSeed || m.phase is AwaitRelaunch,
    ensures
        run_next(m, e, stopped).0.order == m.order,
        run_next(m, e, stopped).0.idx >= m.idx,
        run_next(m, e, stopped).1 matches RunAction::SeedServer(s) ==> s == m.order[run_next(
            m,
            e,
            stopped,
        ).0.idx as int],
        m.phase is AwaitRelaunch ==> run_next(m, e, stopped).0.idx == m.idx,
        e == RunEvent::Seeded(SeedResult::Restart) ==> run_next(m, e, stopped).1 == RunAction::Launch
            && run_next(m, e, stopped).0.idx == m.idx,
{
}

/// A seeded or failed server moves the run on to the next server of the
/// order: unless seeding was stopped, or the server just filled is the
/// stop-after server, the next action seeds the server right after it, and a
/// run ends only after the last server of the order. A filled server is
/// reported by nothing; a failed one as failed.
pub proof fn lemma_next_server_follows(m: RunModel, r: SeedResult)
    requires
        run_wf(m),
        m.phase is AwaitSeed,
        r == SeedResult::Success || r == SeedResult::Failed,
        !(r == SeedResult::Success && m.stop_after_server != 0 && m.order[m.idx as int]
            == m.stop_after_server),
    ensures
        m.idx + 1 < m.order.len() ==> ({
            let s = run_next(m, RunEvent::Seeded(r), false);
            &&& s.1 == RunAction::SeedServer(m.order[m.idx + 1 as int])
            &&& s.0.idx == m.idx + 1
            &&& s.0.order == m.order
            &&& s.0.phase == RunPhase::AwaitSeed
            &&& s.2 == (if r == SeedResult::Success {
                Seq::<RunNotice>::empty()
            } else {
                seq![RunNotice::ServerFailed { server: m.order[m.idx as int] }]
            })
        }),
        m.idx + 1 == m.order.len() ==> run_next(m, RunEvent::Seeded(r), false).1 == (if m.eco_mode {
            RunAction::RestoreFps
        } else {
            RunAction::KillSquad
        }),
        m.idx + 1 == m.order.len() && !m.eco_mode ==> run_next(m, RunEvent::Seeded(r), false).2.last()
            == RunNotice::AllDone,
{
}

/// The opening of a run, step by step: a run past the time limit ends at
/// once (as a completed run, reported too late); otherwise the network is
/// checked, retried after fifteen seconds while it is down, and the settings
/// are validated once it is up; invalid settings end the run; valid ones
/// take the local order when there is one, else ask the hub, whose answer
/// (or 1-2-3-4 without one) becomes the order; the game is then started, and
/// once it runs the first server of the order is seeded.
pub proof fn lemma_run_opening(m: RunModel, stopped: bool, o: Vec<u8>)
    ensures
        m.phase is AwaitTimeLimit ==> run_next(m, RunEvent::TimeLimit(false), stopped).1
            == RunAction::Finish(true) && run_next(m, RunEvent::TimeLimit(false), stopped).2 == seq![
            RunNotice::TooLate,
        ],
        m.phase is AwaitTimeLimit && !stopped ==> run_next(m, RunEvent::TimeLimit(true), stopped).1
            == RunAction::Ping,
        m.phase is AwaitPing ==> run_next(m, RunEvent::Pinged(true), stopped).1
            == RunAction::Validate,
        m.phase is AwaitPing ==> run_next(m, RunEvent::Pinged(false), stopped).1 == RunAction::Sleep(
            PING_RETRY_SECS,
        ),
        m.phase is AwaitValidation ==> run_next(m, RunEvent::Validated(false), stopped).1
            == RunAction::Finish(true),
        m.phase is AwaitValidation && m.local_order is Some ==> run_next(
            m,
            RunEvent::Validated(true),
            stopped,
        ).1 == RunAction::Launch && run_next(m, RunEvent::Validated(true), stopped).0.order
            == m.local_order->0,
        m.phase is AwaitValidation && m.local_order is None ==> run_next(
            m,
            RunEvent::Validated(true),
            stopped,
        ).1 == RunAction::FetchOrder,
        m.phase is AwaitOrder ==> run_next(m, RunEvent::Order(Some(o)), stopped).1 == RunAction::Launch
            && run_next(m, RunEvent::Order(Some(o)), stopped).0.order == o@ && run_next(
            m,
            RunEvent::Order(Some(o)),
            stopped,
        ).0.idx == 0,
        m.phase is AwaitOrder ==> run_next(m, RunEvent::Order(None), stopped).1 == RunAction::Launch
            && run_next(m, RunEvent::Order(None), stopped).0.order == seq![1u8, 2u8, 3u8, 4u8],
        m.phase is AwaitLaunch && m.idx == 0 && m.order.len() > 0 && !stopped ==> run_next(
            m,
            RunEvent::Launched(true),
            stopped,
        ).1 == RunAction::SeedServer(m.order[0]) && run_next(m, RunEvent::Launched(true), stopped).0.idx
            == 0,
{
}

/// The end of a run: closing the game ends a completed run, and a stop
/// while seeding a server ends the run as stopped (after restoring the frame
/// rates in eco mode) without closing anything else.
pub proof fn lemma_run_closing(m: RunModel)
    requires
        run_wf(m),
    ensures
        m.phase is AwaitKill ==> run_next(m, RunEvent::Killed, false).1 == RunAction::Finish(true),
        m.phase is AwaitSeed && !m.eco_mode ==> run_next(
            m,
            RunEvent::Seeded(SeedResult::Cancelled),
            true,
        ).1 == RunAction::Finish(false),
        m.phase is AwaitSeed && m.eco_mode ==> run_next(
            m,
            RunEvent::Seeded(SeedResult::Cancelled),
            true,
        ).1 == RunAction::RestoreFps,
        m.phase is AwaitCleanupRestore ==> run_next(m, RunEvent::Restored, false).1
            == RunAction::KillSquad && run_next(m, RunEvent::Restored, true).1 == RunAction::Finish(
            false,
        ),
{
}

/// In eco mode a run that started the game (or tried to) never ends
/// without restoring the frame rates first.
pub proof fn lemma_eco_restores_before_end(m: RunModel, e: RunEvent, stopped: bool)
    requires
        run_accepts(m.phase, e),
        run_wf(m),
        m.eco_mode,
        m.phase is AwaitLaunch || m.phase is AwaitSeed || m.phase is AwaitRelaunch,
        !(m.phase is AwaitLaunch && e == RunEvent::Launched(true) && stopped),
    ensures
        !(run_next(m, e, stopped).1 is Finish),
{
}

/// The network is checked at most twenty times: each check is a new try.
pub proof fn lemma_network_tries(m: RunModel, stopped: bool)
    requires
        run_wf(m),
        m.phase matches RunPhase::AwaitPingWait { .. },
    ensures
        run_next(m, RunEvent::Slept, stopped).0.phase matches RunPhase::AwaitPing { tries } ==> (
        m.phase matches RunPhase::AwaitPingWait { tries: t } && tries == t + 1 && tries
            < PING_TRIES),
{
}

// ── the time limit ───────────────────────────────────────────────────────────

/// Minutes since midnight of the limit.
pub open spec fn limit_minutes(cfg: Config) -> int {
    cfg.time_limit_hour * 60 + cfg.time_limit_minute
}

/// Whether a run may start at `hour:minute`: always when the limit is off,
/// otherwise only before the limit.
pub open spec fn within_time_limit(cfg: Config, hour: u32, minute: u32) -> bool {
    !cfg.time_limit_enabled || hour * 60 + minute < limit_minutes(cfg)
}

/// The limit in minutes must fit a `u32` (std's arithmetic checks it).
pub open spec fn limit_fits(cfg: Config) -> bool {
    cfg.time_limit_enabled ==> limit_minutes(cfg) <= u32::MAX
}

/// Whether a run may start at `hour:minute` of the day.
pub fn time_allows(cfg: &Config, hour: u32, minute: u32) -> (r: bool)
    requires
        limit_fits(*cfg),
        hour < 24,
        minute < 60,
    ensures
        r == within_time_limit(*cfg, hour, minute),
{
    if !cfg.time_limit_enabled {
        return true;
    }
    let now_min = hour * 60 + minute;
    let limit_min = cfg.time_limit_hour * 60 + cfg.time_limit_minute;
    now_min < limit_min
}

/// The system clock against the Unix epoch (std's
/// `SystemTime::now().duration_since(UNIX_EPOCH)`): whether it reads at or
/// after the epoch, and the distance from the epoch in seconds and
/// nanoseconds (taken from the error's duration when it reads before). Only
/// the range of the nanoseconds is claimed: the value depends on the clock.
#[verifier::external_body]
fn unix_time() -> (r: (bool, u64, u32))
    ensures
        r.2 < 1_000_000_000,
{
    match std::time::SystemTime::now().duration_since(std::time::UNIX_EPOCH) {
        Ok(d) => (true, d.as_secs(), d.subsec_nanos()),
        Err(e) => (false, e.duration().as_secs(), e.duration().subsec_nanos()),
    }
}

/// The hour and minute in Moscow at a Unix time.
pub uninterp spec fn moscow_hour_minute(secs: i64, nanos: u32) -> Option<(u32, u32)>;

/// The hour and minute in Moscow at `secs` seconds and `nanos` nanoseconds
/// after the Unix epoch (chrono's `DateTime::from_timestamp`, shown in
/// chrono-tz's `Europe::Moscow`), or `None` when chrono cannot represent that
/// time. The result depends on the arguments alone; it is an hour of the day
/// and a minute of the hour.
#[verifier::external_body]
fn moscow_clock(secs: i64, nanos: u32) -> (r: Option<(u32, u32)>)
    ensures
        r == moscow_hour_minute(secs, nanos),
        r matches Some((hour, minute)) ==> hour < 24 && minute < 60,
{
    let moscow = chrono::DateTime::from_timestamp(secs, nanos)?.with_timezone(&chrono_tz::Europe::Moscow);
    Some((moscow.hour(), moscow.minute()))
}

/// A clock reading as a Unix timestamp: seconds (negative before the epoch)
/// and the nanoseconds after them; `None` beyond what an `i64` holds.
pub open spec fn timestamp_of(after: bool, secs: u64, nanos: u32) -> Option<(i64, u32)> {
    if after {
        if secs <= i64::MAX {
            Some((secs as i64, nanos))
        } else {
            None
        }
    } else if nanos == 0 {
        if secs <= i64::MAX {
            Some(((0 - secs) as i64, 0))
        } else {
            None
        }
    } else if secs < i64::MAX {
        Some(((0 - secs - 1) as i64, (1_000_000_000 - nanos) as u32))
    } else {
        None
    }
}

/// The hour and minute in Moscow that a clock reading gives.
pub open spec fn moscow_reading(after: bool, secs: u64, nanos: u32) -> Option<(u32, u32)> {
    match timestamp_of(after, secs, nanos) {
        Some((t, n)) => moscow_hour_minute(t, n),
        None => None,
    }
}

/// Whether the limit of `cfg` lets a run start at a clock reading: always
/// when the limit is off; otherwise when the reading's Moscow time is before
/// the limit, and not when the reading gives no time.
pub open spec fn allows_at_reading(cfg: Config, after: bool, secs: u64, nanos: u32) -> bool {
    if !cfg.time_limit_enabled {
        true
    } else {
        match moscow_reading(after, secs, nanos) {
            Some((h, m)) => within_time_limit(cfg, h, m),
            None => false,
        }
    }
}

/// With the limit on, a clock reading of `h:m` in Moscow allows a run exactly
/// when `h:m` comes before the limit's hour and minute; and whatever is
/// allowed at some time is allowed at every earlier time of the day.
pub proof fn lemma_limit_at_reading(
    cfg: Config,
    after: bool,
    secs: u64,
    nanos: u32,
    h: u32,
    m: u32,
    h2: u32,
    m2: u32,
)
    requires
        cfg.time_limit_enabled,
        moscow_reading(after, secs, nanos) == Some((h, m)),
    ensures
        allows_at_reading(cfg, after, secs, nanos) == (h * 60 + m < cfg.time_limit_hour * 60
            + cfg.time_limit_minute),
        h2 * 60 + m2 <= h * 60 + m && allows_at_reading(cfg, after, secs, nanos)
            ==> within_time_limit(cfg, h2, m2),
{
}

/// The current hour and minute in Moscow, from the system clock's reading,
/// or `None` when the reading is beyond what chrono represents.
fn moscow_now() -> (r: Option<(u32, u32)>)
    ensures
        r matches Some((hour, minute)) ==> hour < 24 && minute < 60,
        exists|after: bool, secs: u64, nanos: u32| r == #[trigger] moscow_reading(after, secs, nanos),
{
    let (after, secs, nanos) = unix_time();
    let r = if after {
        if secs <= i64::MAX as u64 {
            moscow_clock(secs as i64, nanos)
        } else {
            None
        }
    } else if nanos == 0 {
        if secs <= i64::MAX as u64 {
            moscow_clock(0 - (secs as i64), 0)
        } else {
            None
        }
    } else if secs < i64::MAX as u64 {
        moscow_clock(0 - (secs as i64) - 1, 1_000_000_000 - nanos)
    } else {
        None
    };
    assert(r == moscow_reading(after, secs, nanos));
    r
}

/// Whether a run may start now, by Moscow time: the limit is checked against
/// the hour and minute the clock reads. When the reading gives no time and
/// the limit is on, the run does not start.
pub fn check_time_limit(cfg: &Config) -> (r: bool)
    requires
        limit_fits(*cfg),
    ensures
        !cfg.time_limit_enabled ==> r,
        cfg.time_limit_enabled && limit_minutes(*cfg) == 0 ==> !r,
        r ==> exists|h: u32, m: u32| h < 24 && m < 60 && within_time_limit(*cfg, h, m),
        exists|after: bool, secs: u64, nanos: u32| r == #[trigger] allows_at_reading(*cfg, after, secs, nanos),
{
    if !cfg.time_limit_enabled {
        assert(within_time_limit(*cfg, 0, 0));
        assert(allows_at_reading(*cfg, true, 0, 0));
        return true;
    }
    let reading = moscow_now();
    let r = match reading {
        Some((h, m)) => {
            let r = time_allows(cfg, h, m);
            assert(r == within_time_limit(*cfg, h, m));
            r
        },
        None => false,
    };
    proof {
        let (after, secs, nanos) = choose|after: bool, secs: u64, nanos: u32| reading == moscow_reading(after, secs, nanos);
        assert(r == allows_at_reading(*cfg, after, secs, nanos));
    }
    r
}

} // verus!
