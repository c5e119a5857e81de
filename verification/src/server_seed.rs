//! Seeding one server: find its player count, join it, confirm the
//! connection (up to three attempts), optionally create a squad, then watch
//! the server until it holds the wanted number of players.
//!
//! The decisions are a state machine: the caller performs each
//! [`ServerAction`] (a hub request, opening a Steam link, an interruptible
//! wait, typing into the game) and hands the outcome back as a
//! [`ServerEvent`], with whether seeding was stopped by then.
use vstd::prelude::*;
use crate::config::Config;

verus! {

/// How the seeding of one server ended.
#[derive(Clone, Copy, Debug, PartialEq, Eq, Structural)]
pub enum SeedResult {
    /// The server holds the wanted number of players.
    Success,
    /// The player lost the connection: the game must be started again.
    Restart,
    /// The server could not be joined.
    Failed,
    /// Seeding was stopped.
    Cancelled,
}

/// Where the seeding of one server stands.
#[derive(Clone, Copy, Debug, PartialEq, Eq, Structural)]
pub enum ServerPhase {
    Start,
    AwaitStatus,
    AwaitJoinUrl,
    AwaitOpen,
    AwaitFirstWait,
    /// A connection check of attempt `attempt` (1 to 3) is running.
    AwaitCheck { attempt: u8 },
    AwaitRetryUrl { attempt: u8 },
    AwaitRetryOpen { attempt: u8 },
    AwaitRetryWait { attempt: u8 },
    AwaitSquad,
    AwaitMonitorWait,
    AwaitMonitorCheck,
    AwaitMonitorStatus,
    Done { result: SeedResult },
}

/// What the caller does next.
#[derive(Debug, PartialEq, Eq)]
pub enum ServerAction {
    /// Ask the hub for the server's status.
    FetchStatus,
    /// Ask the hub for a Steam join link.
    RequestJoinUrl,
    /// Open the link in Steam.
    OpenUrl(String),
    /// Wait that many seconds, unless seeding is stopped first.
    Sleep(u64),
    /// Ask the hub whether the player is connected to the server.
    CheckPlayer,
    /// Create a squad in the game.
    CreateSquad,
    /// Seeding of this server is over.
    Finish(SeedResult),
}

/// The outcome of an action.
#[derive(Debug)]
pub enum ServerEvent {
    /// The player count, or `None` when the request failed.
    Status(Option<u32>),
    /// The join link, or `None` when the request failed.
    JoinUrl(Option<String>),
    /// Whether the link could be opened.
    Opened(bool),
    /// A wait ended (whether it was cut short is the `stopped` flag).
    Slept,
    /// Whether the player is connected, or `None` when the request failed.
    Player(Option<bool>),
    /// Squad creation ended.
    SquadDone,
}

/// What the seeding of a server reports to the user.
#[derive(Clone, Copy, Debug, PartialEq, Eq, Structural)]
pub enum ServerNotice {
    Seeding { server: u8 },
    StatusFailed,
    AlreadyFull { players: u32 },
    JoinUrlFailed,
    Connecting,
    OpenFailed,
    WaitingBeforeCheck,
    NotConfirmed { attempt: u8 },
    CheckFailed,
    NotConnected,
    Monitoring,
    ConnectionLost,
    Progress { players: u32 },
    Reached,
    /// A check of the connection failed while the server was watched.
    MonitorCheckFailed,
    /// A status request failed while the server was watched.
    MonitorStatusFailed,
}

/// The seeding of one server.
#[derive(Clone, Copy, Debug)]
pub struct ServerSeeder {
    pub server: u8,
    pub desired_players: u32,
    pub checkup_interval: u64,
    /// Whether a squad is created once connected.
    pub create_squad: bool,
    pub phase: ServerPhase,
}

/// Squad creation needs a game window the helper can type into: the game
/// runs without rendering only in eco mode with rendering switched off.
pub open spec fn wants_squad(cfg: Config) -> bool {
    cfg.auto_create_squad && (!cfg.eco_mode || !cfg.render_toggle)
}

pub open spec fn seeder_with(s: ServerSeeder, phase: ServerPhase) -> ServerSeeder {
    ServerSeeder { phase, ..s }
}

/// Which events each phase waits for.
pub open spec fn server_accepts(phase: ServerPhase, e: ServerEvent) -> bool {
    match phase {
        ServerPhase::AwaitStatus | ServerPhase::AwaitMonitorStatus => e is Status,
        ServerPhase::AwaitJoinUrl | ServerPhase::AwaitRetryUrl { .. } => e is JoinUrl,
        ServerPhase::AwaitOpen | ServerPhase::AwaitRetryOpen { .. } => e is Opened,
        ServerPhase::AwaitFirstWait | ServerPhase::AwaitRetryWait { .. }
        | ServerPhase::AwaitMonitorWait => e is Slept,
        ServerPhase::AwaitCheck { .. } | ServerPhase::AwaitMonitorCheck => e is Player,
        ServerPhase::AwaitSquad => e is SquadDone,
        _ => false,
    }
}

pub open spec fn attempts_in_range(phase: ServerPhase) -> bool {
    match phase {
        ServerPhase::AwaitCheck { attempt } => 1 <= attempt <= 3,
        ServerPhase::AwaitRetryUrl { attempt } => 1 <= attempt < 3,
        ServerPhase::AwaitRetryOpen { attempt } => 1 <= attempt < 3,
        ServerPhase::AwaitRetryWait { attempt } => 1 <= attempt < 3,
        _ => true,
    }
}

/// Begins connection attempt `attempt`, unless seeding was stopped.
pub open spec fn begin_attempt(s: ServerSeeder, attempt: u8, stopped: bool) -> (
    ServerSeeder,
    ServerAction,
    Seq<ServerNotice>,
) {
    if stopped {
        (
            seeder_with(s, ServerPhase::Done { result: SeedResult::Cancelled }),
            ServerAction::Finish(SeedResult::Cancelled),
            Seq::empty(),
        )
    } else {
        (seeder_with(s, ServerPhase::AwaitCheck { attempt }), ServerAction::CheckPlayer, Seq::empty())
    }
}

pub open spec fn finish_with(s: ServerSeeder, r: SeedResult, notes: Seq<ServerNotice>) -> (
    ServerSeeder,
    ServerAction,
    Seq<ServerNotice>,
) {
    (seeder_with(s, ServerPhase::Done { result: r }), ServerAction::Finish(r), notes)
}

/// Starts monitoring: wait one check-up interval.
pub open spec fn begin_monitor(s: ServerSeeder, notes: Seq<ServerNotice>) -> (
    ServerSeeder,
    ServerAction,
    Seq<ServerNotice>,
) {
    (
        seeder_with(s, ServerPhase::AwaitMonitorWait),
        ServerAction::Sleep(s.checkup_interval),
        notes,
    )
}

/// One step: the phase, the outcome of its action and whether seeding was
/// stopped give the next phase, the next action and what to report.
pub open spec fn server_next(s: ServerSeeder, e: ServerEvent, stopped: bool) -> (
    ServerSeeder,
    ServerAction,
    Seq<ServerNotice>,
) {
    match (s.phase, e) {
        (ServerPhase::AwaitStatus, ServerEvent::Status(st)) => match st {
            None => finish_with(s, SeedResult::Failed, seq![ServerNotice::StatusFailed]),
            Some(players) => if players >= s.desired_players {
                finish_with(s, SeedResult::Success, seq![ServerNotice::AlreadyFull { players }])
            } else {
                (seeder_with(s, ServerPhase::AwaitJoinUrl), ServerAction::RequestJoinUrl, Seq::empty())
            },
        },
        (ServerPhase::AwaitJoinUrl, ServerEvent::JoinUrl(u)) => match u {
            None => finish_with(s, SeedResult::Failed, seq![ServerNotice::JoinUrlFailed]),
            Some(url) => (
                seeder_with(s, ServerPhase::AwaitOpen),
                ServerAction::OpenUrl(url),
                seq![ServerNotice::Connecting],
            ),
        },
        (ServerPhase::AwaitOpen, ServerEvent::Opened(ok)) => if ok {
            (
                seeder_with(s, ServerPhase::AwaitFirstWait),
                ServerAction::Sleep(120),
                seq![ServerNotice::WaitingBeforeCheck],
            )
        } else {
            finish_with(s, SeedResult::Failed, seq![ServerNotice::OpenFailed])
        },
        (ServerPhase::AwaitFirstWait, ServerEvent::Slept) => begin_attempt(s, 1, stopped),
        (ServerPhase::AwaitCheck { attempt }, ServerEvent::Player(p)) => match p {
            Some(true) => if s.create_squad {
                (seeder_with(s, ServerPhase::AwaitSquad), ServerAction::CreateSquad, Seq::empty())
            } else {
                begin_monitor(s, seq![ServerNotice::Monitoring])
            },
            Some(false) => if attempt < 3 {
                (
                    seeder_with(s, ServerPhase::AwaitRetryUrl { attempt }),
                    ServerAction::RequestJoinUrl,
                    seq![ServerNotice::NotConfirmed { attempt }],
                )
            } else {
                finish_with(
                    s,
                    SeedResult::Failed,
                    seq![ServerNotice::NotConfirmed { attempt }, ServerNotice::NotConnected],
                )
            },
            None => if attempt < 3 {
                let (s2, a, n) = begin_attempt(s, (attempt + 1) as u8, stopped);
                (s2, a, seq![ServerNotice::CheckFailed] + n)
            } else {
                finish_with(
                    s,
                    SeedResult::Failed,
                    seq![ServerNotice::CheckFailed, ServerNotice::NotConnected],
                )
            },
        },
        (ServerPhase::AwaitRetryUrl { attempt }, ServerEvent::JoinUrl(u)) => match u {
            Some(url) => (
                seeder_with(s, ServerPhase::AwaitRetryOpen { attempt }),
                ServerAction::OpenUrl(url),
                Seq::empty(),
            ),
            None => (
                seeder_with(s, ServerPhase::AwaitRetryWait { attempt }),
                ServerAction::Sleep(120),
                Seq::empty(),
            ),
        },
        (ServerPhase::AwaitRetryOpen { attempt }, ServerEvent::Opened(_)) => (
            seeder_with(s, ServerPhase::AwaitRetryWait { attempt }),
            ServerAction::Sleep(120),
            Seq::empty(),
        ),
        (ServerPhase::AwaitRetryWait { attempt }, ServerEvent::Slept) => if stopped {
            finish_with(s, SeedResult::Cancelled, Seq::empty())
        } else {
            begin_attempt(s, (attempt + 1) as u8, stopped)
        },
        (ServerPhase::AwaitSquad, ServerEvent::SquadDone) => begin_monitor(
            s,
            seq![ServerNotice::Monitoring],
        ),
        (ServerPhase::AwaitMonitorWait, ServerEvent::Slept) => if stopped {
            finish_with(s, SeedResult::Cancelled, Seq::empty())
        } else {
            (seeder_with(s, ServerPhase::AwaitMonitorCheck), ServerAction::CheckPlayer, Seq::empty())
        },
        (ServerPhase::AwaitMonitorCheck, ServerEvent::Player(p)) => match p {
            Some(false) => finish_with(s, SeedResult::Restart, seq![ServerNotice::ConnectionLost]),
            Some(true) => (
                seeder_with(s, ServerPhase::AwaitMonitorStatus),
                ServerAction::FetchStatus,
                Seq::empty(),
            ),
            None => (
                seeder_with(s, ServerPhase::AwaitMonitorStatus),
                ServerAction::FetchStatus,
                seq![ServerNotice::MonitorCheckFailed],
            ),
        },
        (ServerPhase::AwaitMonitorStatus, ServerEvent::Status(st)) => match st {
            Some(players) => if players >= s.desired_players {
                finish_with(
                    s,
                    SeedResult::Success,
                    seq![ServerNotice::Progress { players }, ServerNotice::Reached],
                )
            } else {
                begin_monitor(s, seq![ServerNotice::Progress { players }])
            },
            None => begin_monitor(s, seq![ServerNotice::MonitorStatusFailed]),
        },
        _ => (s, ServerAction::Finish(SeedResult::Failed), Seq::empty()),
    }
}

/// Two seeding states with the same server and settings.
pub open spec fn same_settings(a: ServerSeeder, b: ServerSeeder) -> bool {
    &&& a.server == b.server
    &&& a.desired_players == b.desired_players
    &&& a.checkup_interval == b.checkup_interval
    &&& a.create_squad == b.create_squad
}

// ── laws of seeding a server ─────────────────────────────────────────────────

/// A server counts as seeded only when the hub reported at least the wanted
/// number of players on it.
pub proof fn lemma_success_needs_players(s: ServerSeeder, e: ServerEvent, stopped: bool)
    requires
        server_accepts(s.phase, e),
        server_next(s, e, stopped).1 == ServerAction::Finish(SeedResult::Success),
    ensures
        e matches ServerEvent::Status(Some(players)) && players >= s.desired_players,
{
}

/// A squad is created once the connection is confirmed exactly when the
/// settings ask for it and the game has a window to type into: everywhere
/// but in eco mode without rendering.
pub proof fn lemma_squad_unless_headless(cfg: Config, s: ServerSeeder, attempt: u8, stopped: bool)
    requires
        s.create_squad == wants_squad(cfg),
        s.phase == (ServerPhase::AwaitCheck { attempt }),
    ensures
        (server_next(s, ServerEvent::Player(Some(true)), stopped).1 == ServerAction::CreateSquad)
            == (cfg.auto_create_squad && !(cfg.eco_mode && cfg.render_toggle)),
        cfg.auto_create_squad && !cfg.render_toggle ==> server_next(
            s,
            ServerEvent::Player(Some(true)),
            stopped,
        ).1 == ServerAction::CreateSquad,
{
}

/// Joining a server, step by step: a server already holding the wanted
/// players counts as seeded at once, a failed status request fails it,
/// otherwise a join link is asked for and opened; failing to get or open it
/// fails the server; once it is open the helper waits two minutes before
/// the first connection check.
pub proof fn lemma_server_joining(s: ServerSeeder, players: u32, url: String, stopped: bool)
    ensures
        s.phase is AwaitStatus ==> server_next(s, ServerEvent::Status(Some(players)), stopped).1 == (
        if players >= s.desired_players {
            ServerAction::Finish(SeedResult::Success)
        } else {
            ServerAction::RequestJoinUrl
        }),
        s.phase is AwaitStatus ==> server_next(s, ServerEvent::Status(None), stopped).1
            == ServerAction::Finish(SeedResult::Failed),
        s.phase is AwaitJoinUrl ==> server_next(s, ServerEvent::JoinUrl(None), stopped).1
            == ServerAction::Finish(SeedResult::Failed),
        s.phase is AwaitJoinUrl ==> server_next(s, ServerEvent::JoinUrl(Some(url)), stopped).1
            == ServerAction::OpenUrl(url),
        s.phase is AwaitOpen ==> server_next(s, ServerEvent::Opened(false), stopped).1
            == ServerAction::Finish(SeedResult::Failed),
        s.phase is AwaitOpen ==> server_next(s, ServerEvent::Opened(true), stopped).1
            == ServerAction::Sleep(120),
        s.phase is AwaitFirstWait && !stopped ==> server_next(s, ServerEvent::Slept, stopped).1
            == ServerAction::CheckPlayer && server_next(s, ServerEvent::Slept, stopped).0.phase
            == (ServerPhase::AwaitCheck { attempt: 1 }),
{
}

/// Confirming the connection: an unconfirmed attempt before the third asks
/// for a new join link, which is opened (or not) before a two-minute wait and
/// the next attempt; a failed check goes straight to the next attempt; the
/// third attempt without a confirmation fails the server.
pub proof fn lemma_server_confirming(s: ServerSeeder, attempt: u8, url: String, ok: bool)
    requires
        1 <= attempt <= 3,
    ensures
        s.phase == (ServerPhase::AwaitCheck { attempt }) && attempt < 3 ==> server_next(
            s,
            ServerEvent::Player(Some(false)),
            false,
        ).1 == ServerAction::RequestJoinUrl,
        s.phase == (ServerPhase::AwaitCheck { attempt }) && attempt < 3 ==> server_next(
            s,
            ServerEvent::Player(None),
            false,
        ).1 == ServerAction::CheckPlayer && server_next(s, ServerEvent::Player(None), false).0.phase
            == (ServerPhase::AwaitCheck { attempt: (attempt + 1) as u8 }),
        s.phase == (ServerPhase::AwaitCheck { attempt: 3 }) ==> server_next(
            s,
            ServerEvent::Player(Some(false)),
            false,
        ).1 == ServerAction::Finish(SeedResult::Failed) && server_next(
            s,
            ServerEvent::Player(None),
            false,
        ).1 == ServerAction::Finish(SeedResult::Failed),
        s.phase == (ServerPhase::AwaitRetryUrl { attempt }) ==> server_next(
            s,
            ServerEvent::JoinUrl(Some(url)),
            false,
        ).1 == ServerAction::OpenUrl(url) && server_next(s, ServerEvent::JoinUrl(None), false).1
            == ServerAction::Sleep(120),
        s.phase == (ServerPhase::AwaitRetryOpen { attempt }) ==> server_next(
            s,
            ServerEvent::Opened(ok),
            false,
        ).1 == ServerAction::Sleep(120),
        s.phase == (ServerPhase::AwaitRetryWait { attempt }) ==> server_next(
            s,
            ServerEvent::Slept,
            false,
        ).1 == ServerAction::CheckPlayer && server_next(s, ServerEvent::Slept, false).0.phase == (
        ServerPhase::AwaitCheck { attempt: (attempt + 1) as u8 }),
{
}

/// Watching the server: every check-up interval the connection is checked
/// and then the player count; the server is seeded when the count reaches
/// the wanted number, and otherwise the next interval is waited, also when a
/// request failed.
pub proof fn lemma_server_watching(s: ServerSeeder, players: u32, ok: Option<bool>)
    ensures
        s.phase is AwaitSquad ==> server_next(s, ServerEvent::SquadDone, false).1
            == ServerAction::Sleep(s.checkup_interval),
        s.phase is AwaitMonitorWait ==> server_next(s, ServerEvent::Slept, false).1
            == ServerAction::CheckPlayer,
        s.phase is AwaitMonitorCheck && ok != Some(false) ==> server_next(
            s,
            ServerEvent::Player(ok),
            false,
        ).1 == ServerAction::FetchStatus,
        s.phase is AwaitMonitorStatus ==> server_next(s, ServerEvent::Status(Some(players)), false).1
            == (if players >= s.desired_players {
            ServerAction::Finish(SeedResult::Success)
        } else {
            ServerAction::Sleep(s.checkup_interval)
        }),
        s.phase is AwaitMonitorStatus ==> server_next(s, ServerEvent::Status(None), false).1
            == ServerAction::Sleep(s.checkup_interval),
{
}

/// A stop is honoured at every wait: the seeding of the server ends as
/// cancelled.
pub proof fn lemma_stop_at_wait(s: ServerSeeder)
    requires
        s.phase is AwaitFirstWait || s.phase is AwaitRetryWait || s.phase is AwaitMonitorWait,
    ensures
        server_next(s, ServerEvent::Slept, true).1 == ServerAction::Finish(SeedResult::Cancelled),
{
}

/// Connection checks are numbered 1, 2, 3: a new check is always the next
/// attempt, so at most three are made before the connection is confirmed.
pub proof fn lemma_attempts_count_up(s: ServerSeeder, e: ServerEvent, stopped: bool)
    requires
        server_accepts(s.phase, e),
        attempts_in_range(s.phase),
        server_next(s, e, stopped).0.phase matches ServerPhase::AwaitCheck { .. },
    ensures
        server_next(s, e, stopped).0.phase matches ServerPhase::AwaitCheck { attempt } && (
        (s.phase is AwaitFirstWait && attempt == 1) || (s.phase matches ServerPhase::AwaitCheck {
            attempt: a,
        } && attempt == a + 1) || (s.phase matches ServerPhase::AwaitRetryWait { attempt: a }
            && attempt == a + 1)),
        attempts_in_range(server_next(s, e, stopped).0.phase),
{
}

/// While the server is watched, a player who dropped out of it makes the
/// game start again.
pub proof fn lemma_lost_connection_restarts(s: ServerSeeder, stopped: bool)
    requires
        s.phase is AwaitMonitorCheck,
    ensures
        server_next(s, ServerEvent::Player(Some(false)), stopped).1 == ServerAction::Finish(
            SeedResult::Restart,
        ),
{
}

/// The settings of a server's seeding never change while it runs.
pub proof fn lemma_settings_kept(s: ServerSeeder, e: ServerEvent, stopped: bool)
    ensures
        same_settings(s, server_next(s, e, stopped).0),
{
}

impl ServerSeeder {
    /// Starts seeding `server` with the settings of `cfg`: the first action
    /// asks for the server's status.
    pub fn new(server: u8, cfg: &Config) -> (r: (ServerSeeder, ServerAction, Vec<ServerNotice>))
        ensures
            r.0.server == server,
            r.0.desired_players == cfg.desired_players,
            r.0.checkup_interval == cfg.checkup_interval,
            r.0.create_squad == wants_squad(*cfg),
            r.0.create_squad == (cfg.auto_create_squad && !(cfg.eco_mode && cfg.render_toggle)),
            r.0.phase == ServerPhase::AwaitStatus,
            r.1 == ServerAction::FetchStatus,
            r.2@ == seq![ServerNotice::Seeding { server }],
    {
        let s = ServerSeeder {
            server,
            desired_players: cfg.desired_players,
            checkup_interval: cfg.checkup_interval,
            create_squad: cfg.auto_create_squad && (!cfg.eco_mode || !cfg.render_toggle),
            phase: ServerPhase::AwaitStatus,
        };
        let mut notes = Vec::new();
        notes.push(ServerNotice::Seeding { server });
        assert(notes@ =~= seq![ServerNotice::Seeding { server }]);
        (s, ServerAction::FetchStatus, notes)
    }

    /// One step of the seeding of a server, as `server_next` states.
    pub fn step(self, e: ServerEvent, stopped: bool) -> (r: (
        ServerSeeder,
        ServerAction,
        Vec<ServerNotice>,
    ))
        requires
            server_accepts(self.phase, e),
            attempts_in_range(self.phase),
        ensures
            r.0 == server_next(self, e, stopped).0,
            r.1 == server_next(self, e, stopped).1,
            r.2@ == server_next(self, e, stopped).2,
            attempts_in_range(r.0.phase),
    {
        let ghost spec = server_next(self, e, stopped);
        let mut notes: Vec<ServerNotice> = Vec::new();
        let s = self;
        let phase = s.phase;
        let (phase2, action) = match (phase, e) {
            (ServerPhase::AwaitStatus, ServerEvent::Status(st)) => match st {
                None => {
                    notes.push(ServerNotice::StatusFailed);
                    (ServerPhase::Done { result: SeedResult::Failed }, ServerAction::Finish(SeedResult::Failed))
                },
                Some(players) => if players >= s.desired_players {
                    notes.push(ServerNotice::AlreadyFull { players });
                    (ServerPhase::Done { result: SeedResult::Success }, ServerAction::Finish(SeedResult::Success))
                } else {
                    (ServerPhase::AwaitJoinUrl, ServerAction::RequestJoinUrl)
                },
            },
            (ServerPhase::AwaitJoinUrl, ServerEvent::JoinUrl(u)) => match u {
                None => {
                    notes.push(ServerNotice::JoinUrlFailed);
                    (ServerPhase::Done { result: SeedResult::Failed }, ServerAction::Finish(SeedResult::Failed))
                },
                Some(url) => {
                    notes.push(ServerNotice::Connecting);
                    (ServerPhase::AwaitOpen, ServerAction::OpenUrl(url))
                },
            },
            (ServerPhase::AwaitOpen, ServerEvent::Opened(ok)) => if ok {
                notes.push(ServerNotice::WaitingBeforeCheck);
                (ServerPhase::AwaitFirstWait, ServerAction::Sleep(120))
            } else {
                notes.push(ServerNotice::OpenFailed);
                (ServerPhase::Done { result: SeedResult::Failed }, ServerAction::Finish(SeedResult::Failed))
            },
            (ServerPhase::AwaitFirstWait, ServerEvent::Slept) => if stopped {
                (ServerPhase::Done { result: SeedResult::Cancelled }, ServerAction::Finish(SeedResult::Cancelled))
            } else {
                (ServerPhase::AwaitCheck { attempt: 1 }, ServerAction::CheckPlayer)
            },
            (ServerPhase::AwaitCheck { attempt }, ServerEvent::Player(p)) => match p {
                Some(true) => if s.create_squad {
                    (ServerPhase::AwaitSquad, ServerAction::CreateSquad)
                } else {
                    notes.push(ServerNotice::Monitoring);
                    (ServerPhase::AwaitMonitorWait, ServerAction::Sleep(s.checkup_interval))
                },
                Some(false) => {
                    notes.push(ServerNotice::NotConfirmed { attempt });
                    if attempt < 3 {
                        (ServerPhase::AwaitRetryUrl { attempt }, ServerAction::RequestJoinUrl)
                    } else {
                        notes.push(ServerNotice::NotConnected);
                        (ServerPhase::Done { result: SeedResult::Failed }, ServerAction::Finish(SeedResult::Failed))
                    }
                },
                None => {
                    notes.push(ServerNotice::CheckFailed);
                    if attempt < 3 {
                        if stopped {
                            (ServerPhase::Done { result: SeedResult::Cancelled }, ServerAction::Finish(SeedResult::Cancelled))
                        } else {
                            (ServerPhase::AwaitCheck { attempt: attempt + 1 }, ServerAction::CheckPlayer)
                        }
                    } else {
                        notes.push(ServerNotice::NotConnected);
                        (ServerPhase::Done { result: SeedResult::Failed }, ServerAction::Finish(SeedResult::Failed))
                    }
                },
            },
            (ServerPhase::AwaitRetryUrl { attempt }, ServerEvent::JoinUrl(u)) => match u {
                Some(url) => (ServerPhase::AwaitRetryOpen { attempt }, ServerAction::OpenUrl(url)),
                None => (ServerPhase::AwaitRetryWait { attempt }, ServerAction::Sleep(120)),
            },
            (ServerPhase::AwaitRetryOpen { attempt }, ServerEvent::Opened(_)) => (
                ServerPhase::AwaitRetryWait { attempt },
                ServerAction::Sleep(120),
            ),
            (ServerPhase::AwaitRetryWait { attempt }, ServerEvent::Slept) => if stopped {
                (ServerPhase::Done { result: SeedResult::Cancelled }, ServerAction::Finish(SeedResult::Cancelled))
            } else {
                (ServerPhase::AwaitCheck { attempt: attempt + 1 }, ServerAction::CheckPlayer)
            },
            (ServerPhase::AwaitSquad, ServerEvent::SquadDone) => {
                notes.push(ServerNotice::Monitoring);
                (ServerPhase::AwaitMonitorWait, ServerAction::Sleep(s.checkup_interval))
            },
            (ServerPhase::AwaitMonitorWait, ServerEvent::Slept) => if stopped {
                (ServerPhase::Done { result: SeedResult::Cancelled }, ServerAction::Finish(SeedResult::Cancelled))
            } else {
                (ServerPhase::AwaitMonitorCheck, ServerAction::CheckPlayer)
            },
            (ServerPhase::AwaitMonitorCheck, ServerEvent::Player(p)) => match p {
                Some(false) => {
                    notes.push(ServerNotice::ConnectionLost);
                    (ServerPhase::Done { result: SeedResult::Restart }, ServerAction::Finish(SeedResult::Restart))
                },
                Some(true) => (ServerPhase::AwaitMonitorStatus, ServerAction::FetchStatus),
                None => {
                    notes.push(ServerNotice::MonitorCheckFailed);
                    (ServerPhase::AwaitMonitorStatus, ServerAction::FetchStatus)
                },
            },
            (ServerPhase::AwaitMonitorStatus, ServerEvent::Status(st)) => match st {
                Some(players) => {
                    notes.push(ServerNotice::Progress { players });
                    if players >= s.desired_players {
                        notes.push(ServerNotice::Reached);
                        (ServerPhase::Done { result: SeedResult::Success }, ServerAction::Finish(SeedResult::Success))
                    } else {
                        (ServerPhase::AwaitMonitorWait, ServerAction::Sleep(s.checkup_interval))
                    }
                },
                None => {
                    notes.push(ServerNotice::MonitorStatusFailed);
                    (ServerPhase::AwaitMonitorWait, ServerAction::Sleep(s.checkup_interval))
                },
            },
            _ => (phase, ServerAction::Finish(SeedResult::Failed)),
        };
        let next = ServerSeeder { phase: phase2, ..s };
        proof {
            assert(notes@ =~= spec.2);
        }
        (next, action, notes)
    }
}

} // verus!
