//! Joining a server from the window: start Squad through Steam, wait up to
//! five minutes for its process, wait for the main menu, then open the
//! server's join link.
//!
//! A state machine, driven as the seeding machines are: the caller performs
//! each [`JoinAction`] and hands back its outcome as a [`JoinEvent`], with
//! whether the user cancelled by then.
use vstd::prelude::*;

verus! {

/// The number of checks for the game's process (one every five seconds).
pub const SQUAD_POLLS: u8 = 60;

/// Seconds between two checks for the game's process.
pub const SQUAD_POLL_SECS: u64 = 5;

#[derive(Clone, Copy, Debug, PartialEq, Eq, Structural)]
pub enum JoinPhase {
    AwaitGameOpen,
    /// The wait before check number `poll`.
    AwaitPollWait { poll: u8 },
    /// Check number `poll` for the game's process.
    AwaitSquadCheck { poll: u8 },
    AwaitMenuWait,
    AwaitJoinUrl,
    AwaitJoinOpen,
    Done,
}

#[derive(Debug, PartialEq, Eq)]
pub enum JoinAction {
    /// Open `steam://run/393380//`.
    OpenGame,
    /// Wait that many seconds, unless the user cancels first.
    Sleep(u64),
    /// Check whether the game's process runs.
    CheckSquad,
    /// Ask the hub for the server's join link.
    RequestJoinUrl,
    /// Open the join link in Steam.
    OpenUrl(String),
    /// The flow is over.
    Finish,
}

#[derive(Debug)]
pub enum JoinEvent {
    /// A link was handed to Steam (whether that worked does not matter).
    Opened,
    Slept,
    /// Whether the game's process runs.
    SquadRunning(bool),
    /// The join link, or `None` when the request failed.
    JoinUrl(Option<String>),
}

#[derive(Clone, Copy, Debug, PartialEq, Eq, Structural)]
pub enum JoinNotice {
    Launching,
    NotStarted,
    Loading,
    Opening,
    JoinFailed,
}

#[derive(Clone, Copy, Debug)]
pub struct JoinFlow {
    /// Seconds to wait for the main menu (`join_delay_secs`).
    pub menu_delay_secs: u64,
    pub phase: JoinPhase,
}

pub open spec fn join_accepts(phase: JoinPhase, e: JoinEvent) -> bool {
    match phase {
        JoinPhase::AwaitGameOpen | JoinPhase::AwaitJoinOpen => e is Opened,
        JoinPhase::AwaitPollWait { .. } | JoinPhase::AwaitMenuWait => e is Slept,
        JoinPhase::AwaitSquadCheck { .. } => e is SquadRunning,
        JoinPhase::AwaitJoinUrl => e is JoinUrl,
        JoinPhase::Done => false,
    }
}

pub open spec fn polls_in_range(phase: JoinPhase) -> bool {
    match phase {
        JoinPhase::AwaitPollWait { poll } => 1 <= poll <= SQUAD_POLLS,
        JoinPhase::AwaitSquadCheck { poll } => 1 <= poll <= SQUAD_POLLS,
        _ => true,
    }
}

pub open spec fn at(f: JoinFlow, phase: JoinPhase) -> JoinFlow {
    JoinFlow { phase, ..f }
}

pub open spec fn done(f: JoinFlow, notes: Seq<JoinNotice>) -> (JoinFlow, JoinAction, Seq<JoinNotice>) {
    (at(f, JoinPhase::Done), JoinAction::Finish, notes)
}

/// One step of the flow.
pub open spec fn join_next(f: JoinFlow, e: JoinEvent, cancelled: bool) -> (
    JoinFlow,
    JoinAction,
    Seq<JoinNotice>,
) {
    match (f.phase, e) {
        (JoinPhase::AwaitGameOpen, JoinEvent::Opened) => (
            at(f, JoinPhase::AwaitPollWait { poll: 1 }),
            JoinAction::Sleep(SQUAD_POLL_SECS),
            Seq::empty(),
        ),
        (JoinPhase::AwaitPollWait { poll }, JoinEvent::Slept) => if cancelled {
            done(f, Seq::empty())
        } else {
            (at(f, JoinPhase::AwaitSquadCheck { poll }), JoinAction::CheckSquad, Seq::empty())
        },
        (JoinPhase::AwaitSquadCheck { poll }, JoinEvent::SquadRunning(running)) => if running {
            if cancelled {
                done(f, Seq::empty())
            } else {
                (
                    at(f, JoinPhase::AwaitMenuWait),
                    JoinAction::Sleep(f.menu_delay_secs),
                    seq![JoinNotice::Loading],
                )
            }
        } else if poll < SQUAD_POLLS {
            (
                at(f, JoinPhase::AwaitPollWait { poll: (poll + 1) as u8 }),
                JoinAction::Sleep(SQUAD_POLL_SECS),
                Seq::empty(),
            )
        } else if cancelled {
            done(f, Seq::empty())
        } else {
            done(f, seq![JoinNotice::NotStarted])
        },
        (JoinPhase::AwaitMenuWait, JoinEvent::Slept) => if cancelled {
            done(f, Seq::empty())
        } else {
            (at(f, JoinPhase::AwaitJoinUrl), JoinAction::RequestJoinUrl, Seq::empty())
        },
        (JoinPhase::AwaitJoinUrl, JoinEvent::JoinUrl(u)) => match u {
            Some(url) => (
                at(f, JoinPhase::AwaitJoinOpen),
                JoinAction::OpenUrl(url),
                seq![JoinNotice::Opening],
            ),
            None => done(f, seq![JoinNotice::JoinFailed]),
        },
        (JoinPhase::AwaitJoinOpen, JoinEvent::Opened) => done(f, Seq::empty()),
        _ => (f, JoinAction::Finish, Seq::empty()),
    }
}

/// Joining from the window, step by step: once Steam was asked to start the
/// game, its process is checked every five seconds, up to sixty times; once
/// it runs, the helper waits for the main menu, asks the hub for the join
/// link and opens it; a game that never starts, or a link the hub does not
/// give, ends the flow with a report.
pub proof fn lemma_join_steps(f: JoinFlow, poll: u8, url: String)
    requires
        1 <= poll <= SQUAD_POLLS,
    ensures
        f.phase is AwaitGameOpen ==> join_next(f, JoinEvent::Opened, false).1 == JoinAction::Sleep(
            SQUAD_POLL_SECS,
        ),
        f.phase == (JoinPhase::AwaitPollWait { poll }) ==> join_next(f, JoinEvent::Slept, false).1
            == JoinAction::CheckSquad,
        f.phase == (JoinPhase::AwaitSquadCheck { poll }) ==> join_next(
            f,
            JoinEvent::SquadRunning(true),
            false,
        ).1 == JoinAction::Sleep(f.menu_delay_secs),
        f.phase == (JoinPhase::AwaitSquadCheck { poll }) && poll < SQUAD_POLLS ==> join_next(
            f,
            JoinEvent::SquadRunning(false),
            false,
        ).1 == JoinAction::Sleep(SQUAD_POLL_SECS),
        f.phase == (JoinPhase::AwaitSquadCheck { poll: SQUAD_POLLS }) ==> join_next(
            f,
            JoinEvent::SquadRunning(false),
            false,
        ).1 == JoinAction::Finish && join_next(f, JoinEvent::SquadRunning(false), false).2 == seq![
            JoinNotice::NotStarted,
        ],
        f.phase is AwaitMenuWait ==> join_next(f, JoinEvent::Slept, false).1
            == JoinAction::RequestJoinUrl,
        f.phase is AwaitJoinUrl ==> join_next(f, JoinEvent::JoinUrl(Some(url)), false).1
            == JoinAction::OpenUrl(url) && join_next(f, JoinEvent::JoinUrl(None), false).2 == seq![
            JoinNotice::JoinFailed,
        ],
{
}

/// A cancel is honoured at every wait: the flow ends there.
pub proof fn lemma_join_cancel_at_wait(f: JoinFlow)
    requires
        f.phase is AwaitPollWait || f.phase is AwaitMenuWait,
    ensures
        join_next(f, JoinEvent::Slept, true).1 == JoinAction::Finish,
{
}

/// The game's process is checked at most sixty times: each wait for a check
/// is numbered one higher than the check before it, up to sixty.
pub proof fn lemma_join_polls_bounded(f: JoinFlow, e: JoinEvent, cancelled: bool)
    requires
        join_accepts(f.phase, e),
        polls_in_range(f.phase),
        join_next(f, e, cancelled).0.phase matches JoinPhase::AwaitPollWait { .. },
    ensures
        join_next(f, e, cancelled).0.phase matches JoinPhase::AwaitPollWait { poll } && poll
            <= SQUAD_POLLS && ((f.phase is AwaitGameOpen && poll == 1) || (
        f.phase matches JoinPhase::AwaitSquadCheck { poll: p } && poll == p + 1)),
{
}

impl JoinFlow {
    /// Starts the flow: its first action starts the game through Steam.
    pub fn new(menu_delay_secs: u64) -> (r: (JoinFlow, JoinAction, Vec<JoinNotice>))
        ensures
            r.0.menu_delay_secs == menu_delay_secs,
            r.0.phase == JoinPhase::AwaitGameOpen,
            r.1 == JoinAction::OpenGame,
            r.2@ == seq![JoinNotice::Launching],
    {
        let mut notes = Vec::new();
        notes.push(JoinNotice::Launching);
        assert(notes@ =~= seq![JoinNotice::Launching]);
        (JoinFlow { menu_delay_secs, phase: JoinPhase::AwaitGameOpen }, JoinAction::OpenGame, notes)
    }

    /// One step of the flow, as `join_next` states.
    pub fn step(self, e: JoinEvent, cancelled: bool) -> (r: (JoinFlow, JoinAction, Vec<JoinNotice>))
        requires
            join_accepts(self.phase, e),
            polls_in_range(self.phase),
        ensures
            r.0 == join_next(self, e, cancelled).0,
            r.1 == join_next(self, e, cancelled).1,
            r.2@ == join_next(self, e, cancelled).2,
            polls_in_range(r.0.phase),
    {
        let ghost spec = join_next(self, e, cancelled);
        let mut notes: Vec<JoinNotice> = Vec::new();
        let (phase, action) = match (self.phase, e) {
            (JoinPhase::AwaitGameOpen, JoinEvent::Opened) => (
                JoinPhase::AwaitPollWait { poll: 1 },
                JoinAction::Sleep(SQUAD_POLL_SECS),
            ),
            (JoinPhase::AwaitPollWait { poll }, JoinEvent::Slept) => if cancelled {
                (JoinPhase::Done, JoinAction::Finish)
            } else {
                (JoinPhase::AwaitSquadCheck { poll }, JoinAction::CheckSquad)
            },
            (JoinPhase::AwaitSquadCheck { poll }, JoinEvent::SquadRunning(running)) => if running {
                if cancelled {
                    (JoinPhase::Done, JoinAction::Finish)
                } else {
                    notes.push(JoinNotice::Loading);
                    (JoinPhase::AwaitMenuWait, JoinAction::Sleep(self.menu_delay_secs))
                }
            } else if poll < SQUAD_POLLS {
                (JoinPhase::AwaitPollWait { poll: poll + 1 }, JoinAction::Sleep(SQUAD_POLL_SECS))
            } else {
                if !cancelled {
                    notes.push(JoinNotice::NotStarted);
                }
                (JoinPhase::Done, JoinAction::Finish)
            },
            (JoinPhase::AwaitMenuWait, JoinEvent::Slept) => if cancelled {
                (JoinPhase::Done, JoinAction::Finish)
            } else {
                (JoinPhase::AwaitJoinUrl, JoinAction::RequestJoinUrl)
            },
            (JoinPhase::AwaitJoinUrl, JoinEvent::JoinUrl(u)) => match u {
                Some(url) => {
                    notes.push(JoinNotice::Opening);
                    (JoinPhase::AwaitJoinOpen, JoinAction::OpenUrl(url))
                },
                None => {
                    notes.push(JoinNotice::JoinFailed);
                    (JoinPhase::Done, JoinAction::Finish)
                },
            },
            (JoinPhase::AwaitJoinOpen, JoinEvent::Opened) => (JoinPhase::Done, JoinAction::Finish),
            _ => (self.phase, JoinAction::Finish),
        };
        proof {
            assert(notes@ =~= spec.2);
        }
        (JoinFlow { phase, ..self }, action, notes)
    }
}

} // verus!
