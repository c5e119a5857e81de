//! Starting the game for a run: remove the intro video when the settings ask
//! so, then start Squad as [`LaunchPlan`] says. In eco mode with rendering
//! the frame rates are limited to 6 (menu 100) before the start and, after a
//! ten-second settling wait, the preferred frame rates and resolution are
//! written back and the restore toast is shown. Last comes the wait for the
//! game to load.
//!
//! A state machine, driven as the seeding machines are: the caller performs
//! each [`LaunchAction`] and hands back its outcome as a [`LaunchEvent`],
//! with whether seeding was stopped by then.
use vstd::prelude::*;
use crate::config::Config;
use crate::game::{launch_plan, plan_of, LaunchPlan};

verus! {

/// The frame-rate limit while the game reads its settings.
pub const LIMIT_FPS: u32 = 6;

/// The menu frame-rate limit while the game reads its settings.
pub const LIMIT_MENU_FPS: u32 = 100;

/// Seconds the game is given to read its limited settings.
pub const SETTLE_SECS: u64 = 10;

/// Why a start failed.
#[derive(Clone, Copy, Debug, PartialEq, Eq, Structural)]
pub enum LaunchError {
    /// `squad_launcher.exe` was not found.
    LauncherMissing,
    /// Writing the game's settings file failed.
    SettingsFailed,
    /// The launcher could not be started.
    SpawnFailed,
    /// Steam's link could not be opened.
    SteamFailed,
}

#[derive(Clone, Copy, Debug, PartialEq, Eq, Structural)]
pub enum LaunchPhase {
    AwaitVideo,
    AwaitLauncher,
    /// The frame rates are being limited before the start.
    AwaitLimit,
    AwaitStart,
    /// The settling wait.
    AwaitSettle,
    /// The preferred frame rates are written back; `cancelled`: the settling
    /// wait was cut short, and failures no longer count.
    AwaitFpsBack { cancelled: bool },
    /// The preferred resolution is written back.
    AwaitResBack { cancelled: bool },
    /// The restore toast is shown.
    AwaitToast { cancelled: bool },
    /// The wait for the game to load.
    AwaitLoad,
    Done,
}

#[derive(Clone, Copy, Debug, PartialEq, Eq, Structural)]
pub enum LaunchAction {
    /// Remove the intro video.
    RemoveVideo,
    /// Look for `squad_launcher.exe`.
    FindLauncher,
    /// Write these frame rates into the game's settings (`write_fps_keys`).
    WriteFps(Option<u32>, Option<u32>),
    /// Write this resolution into the game's settings (`write_resolution_keys`).
    WriteResolution(Option<u32>, Option<u32>),
    /// Start the launcher with the plan's arguments.
    StartLauncher,
    /// Open Steam's link that starts the game.
    OpenSteam,
    /// Show the toast that says the settings were restored.
    Toast,
    /// Wait that many seconds, unless seeding is stopped first.
    Sleep(u64),
    /// The start is over: without error (`None`), or with this error.
    Finish(Option<LaunchError>),
}

#[derive(Clone, Copy, Debug, PartialEq, Eq, Structural)]
pub enum LaunchEvent {
    /// The video was removed, or the toast shown.
    Done,
    /// Whether the launcher was found.
    Launcher(bool),
    /// Whether writing the settings worked.
    Written(bool),
    /// Whether the game was started.
    Started(bool),
    Slept,
}

/// What a start reports to the user.
#[derive(Clone, Copy, Debug, PartialEq, Eq, Structural)]
pub enum LaunchNotice {
    /// Eco mode without rendering.
    NoRender,
    /// Eco mode in a 1x1 window.
    EcoWindow,
    /// Started through the launcher, without sound.
    LaunchedNoSound,
    /// Started through Steam.
    LaunchedSteam,
    /// The settling wait begins.
    Settling,
    /// The wait for the game to load; `rest`: the settling wait counted already.
    Loading { secs: u64, rest: bool },
}

/// A start of the game.
pub struct LaunchFlow {
    pub plan: LaunchPlan,
    pub eco: bool,
    pub fps: Option<u32>,
    pub menu_fps: Option<u32>,
    pub res_x: Option<u32>,
    pub res_y: Option<u32>,
    pub phase: LaunchPhase,
}

pub type LaunchStep = (LaunchFlow, LaunchAction, Seq<LaunchNotice>);

pub open spec fn launch_accepts(phase: LaunchPhase, e: LaunchEvent) -> bool {
    match phase {
        LaunchPhase::AwaitVideo | LaunchPhase::AwaitToast { .. } => e is Done,
        LaunchPhase::AwaitLauncher => e is Launcher,
        LaunchPhase::AwaitLimit | LaunchPhase::AwaitFpsBack { .. }
        | LaunchPhase::AwaitResBack { .. } => e is Written,
        LaunchPhase::AwaitStart => e is Started,
        LaunchPhase::AwaitSettle | LaunchPhase::AwaitLoad => e is Slept,
        LaunchPhase::Done => false,
    }
}

pub open spec fn launch_at(f: LaunchFlow, phase: LaunchPhase) -> LaunchFlow {
    LaunchFlow { phase, ..f }
}

pub open spec fn launch_done(f: LaunchFlow, r: Option<LaunchError>, notes: Seq<LaunchNotice>) -> LaunchStep {
    (launch_at(f, LaunchPhase::Done), LaunchAction::Finish(r), notes)
}

/// What eco mode reports as it starts.
pub open spec fn begin_notes(f: LaunchFlow) -> Seq<LaunchNotice> {
    if f.eco {
        seq![
            if f.plan.limit_fps_first {
                LaunchNotice::EcoWindow
            } else {
                LaunchNotice::NoRender
            },
        ]
    } else {
        Seq::empty()
    }
}

/// The start proper: look for the launcher, or open Steam's link.
pub open spec fn launch_begin(f: LaunchFlow) -> LaunchStep {
    if f.plan.via_launcher {
        (launch_at(f, LaunchPhase::AwaitLauncher), LaunchAction::FindLauncher, begin_notes(f))
    } else {
        (launch_at(f, LaunchPhase::AwaitStart), LaunchAction::OpenSteam, begin_notes(f))
    }
}

/// The wait for the game to load, where there is one.
pub open spec fn launch_load(f: LaunchFlow, notes: Seq<LaunchNotice>) -> LaunchStep {
    if f.plan.delay_secs > 0 {
        (
            launch_at(f, LaunchPhase::AwaitLoad),
            LaunchAction::Sleep(f.plan.delay_secs),
            notes.push(LaunchNotice::Loading { secs: f.plan.delay_secs, rest: f.eco }),
        )
    } else {
        launch_done(f, None, notes)
    }
}

/// After the game was started: the settling wait, or the wait to load.
pub open spec fn launch_started(f: LaunchFlow, notes: Seq<LaunchNotice>) -> LaunchStep {
    if f.plan.limit_fps_first {
        (
            launch_at(f, LaunchPhase::AwaitSettle),
            LaunchAction::Sleep(SETTLE_SECS),
            notes.push(LaunchNotice::Settling),
        )
    } else {
        launch_load(f, notes)
    }
}

/// The first step: the intro video, or the start proper.
pub open spec fn launch_first(f: LaunchFlow, delete_video: bool) -> LaunchStep {
    if delete_video {
        (launch_at(f, LaunchPhase::AwaitVideo), LaunchAction::RemoveVideo, Seq::empty())
    } else {
        launch_begin(f)
    }
}

/// A start with the settings of `cfg`, following `plan`.
pub open spec fn flow_of(cfg: Config, plan: LaunchPlan) -> LaunchFlow {
    LaunchFlow {
        plan,
        eco: cfg.eco_mode,
        fps: cfg.preferred_fps,
        menu_fps: cfg.preferred_menu_fps,
        res_x: cfg.preferred_res_x,
        res_y: cfg.preferred_res_y,
        phase: LaunchPhase::AwaitVideo,
    }
}

/// One step of a start.
pub open spec fn launch_next(f: LaunchFlow, e: LaunchEvent, cancelled: bool) -> LaunchStep {
    match (f.phase, e) {
        (LaunchPhase::AwaitVideo, LaunchEvent::Done) => launch_begin(f),
        (LaunchPhase::AwaitLauncher, LaunchEvent::Launcher(found)) => if !found {
            launch_done(f, Some(LaunchError::LauncherMissing), Seq::empty())
        } else if f.plan.limit_fps_first {
            (
                launch_at(f, LaunchPhase::AwaitLimit),
                LaunchAction::WriteFps(Some(LIMIT_FPS), Some(LIMIT_MENU_FPS)),
                Seq::empty(),
            )
        } else {
            (launch_at(f, LaunchPhase::AwaitStart), LaunchAction::StartLauncher, Seq::empty())
        },
        (LaunchPhase::AwaitLimit, LaunchEvent::Written(ok)) => if ok {
            (launch_at(f, LaunchPhase::AwaitStart), LaunchAction::StartLauncher, Seq::empty())
        } else {
            launch_done(f, Some(LaunchError::SettingsFailed), Seq::empty())
        },
        (LaunchPhase::AwaitStart, LaunchEvent::Started(ok)) => if !ok {
            launch_done(
                f,
                Some(
                    if f.plan.via_launcher {
                        LaunchError::SpawnFailed
                    } else {
                        LaunchError::SteamFailed
                    },
                ),
                Seq::empty(),
            )
        } else if f.eco {
            launch_started(f, Seq::empty())
        } else if f.plan.via_launcher {
            launch_started(f, seq![LaunchNotice::LaunchedNoSound])
        } else {
            launch_started(f, seq![LaunchNotice::LaunchedSteam])
        },
        (LaunchPhase::AwaitSettle, LaunchEvent::Slept) => (
            launch_at(f, LaunchPhase::AwaitFpsBack { cancelled }),
            LaunchAction::WriteFps(f.fps, f.menu_fps),
            Seq::empty(),
        ),
        (LaunchPhase::AwaitFpsBack { cancelled: c }, LaunchEvent::Written(ok)) => if c || ok {
            (
                launch_at(f, LaunchPhase::AwaitResBack { cancelled: c }),
                LaunchAction::WriteResolution(f.res_x, f.res_y),
                Seq::empty(),
            )
        } else {
            launch_done(f, Some(LaunchError::SettingsFailed), Seq::empty())
        },
        (LaunchPhase::AwaitResBack { cancelled: c }, LaunchEvent::Written(ok)) => if c || ok {
            (launch_at(f, LaunchPhase::AwaitToast { cancelled: c }), LaunchAction::Toast, Seq::empty())
        } else {
            launch_done(f, Some(LaunchError::SettingsFailed), Seq::empty())
        },
        (LaunchPhase::AwaitToast { cancelled: c }, LaunchEvent::Done) => if c {
            launch_done(f, None, Seq::empty())
        } else {
            launch_load(f, Seq::empty())
        },
        (LaunchPhase::AwaitLoad, LaunchEvent::Slept) => launch_done(f, None, Seq::empty()),
        _ => launch_done(f, None, Seq::empty()),
    }
}

/// The actions of a start fed `es`, with no stop.
pub open spec fn launch_actions(f: LaunchFlow, es: Seq<LaunchEvent>) -> Seq<LaunchAction>
    decreases es.len(),
{
    if es.len() == 0 {
        Seq::empty()
    } else {
        let s = launch_next(f, es[0], false);
        seq![s.1] + launch_actions(s.0, es.drop_first())
    }
}

/// The game is started only after the frame rates were limited, when the
/// plan limits them first; and they are limited to 6, menu 100.
pub proof fn lemma_launch_limits_first(f: LaunchFlow, e: LaunchEvent, cancelled: bool)
    requires
        launch_accepts(f.phase, e),
    ensures
        launch_next(f, e, cancelled).1 is StartLauncher && f.plan.limit_fps_first ==> f.phase
            is AwaitLimit && e == LaunchEvent::Written(true),
        launch_next(f, e, cancelled).0.phase is AwaitLimit ==> launch_next(f, e, cancelled).1
            == LaunchAction::WriteFps(Some(LIMIT_FPS), Some(LIMIT_MENU_FPS)),
{
}

/// A start that is not in eco mode waits the full launch delay once the game
/// was started, whether through the launcher or through Steam, and says how
/// it was started and how long it waits.
pub proof fn lemma_plain_start_waits(f: LaunchFlow, cancelled: bool)
    requires
        !f.eco,
        !f.plan.limit_fps_first,
        f.phase is AwaitStart,
        f.plan.delay_secs > 0,
    ensures
        launch_next(f, LaunchEvent::Started(true), cancelled).1 == LaunchAction::Sleep(f.plan.delay_secs),
        launch_next(f, LaunchEvent::Started(true), cancelled).0.phase is AwaitLoad,
        launch_next(f, LaunchEvent::Started(true), cancelled).2 == seq![
            if f.plan.via_launcher {
                LaunchNotice::LaunchedNoSound
            } else {
                LaunchNotice::LaunchedSteam
            },
            LaunchNotice::Loading { secs: f.plan.delay_secs, rest: false },
        ],
        launch_next(
            launch_next(f, LaunchEvent::Started(true), cancelled).0,
            LaunchEvent::Slept,
            cancelled,
        ).1 == LaunchAction::Finish(None),
{
}

/// Every start whose game was started waits before it ends: the settling
/// wait when the frame rates were limited, otherwise the load wait when
/// there is a delay.
pub proof fn lemma_started_waits(f: LaunchFlow, cancelled: bool)
    requires
        f.phase is AwaitStart,
        f.plan.limit_fps_first || f.plan.delay_secs > 0,
    ensures
        launch_next(f, LaunchEvent::Started(true), cancelled).1 == LaunchAction::Sleep(
            if f.plan.limit_fps_first {
                SETTLE_SECS
            } else {
                f.plan.delay_secs
            },
        ),
{
}

/// A stop during the settling wait still writes back the preferred frame
/// rates and resolution, shows the toast, and ends the start without error,
/// whatever the writes give.
pub proof fn lemma_settle_stop_restores(
    f: LaunchFlow,
    fps_ok: bool,
    res_ok: bool,
    c2: bool,
    c3: bool,
    c4: bool,
)
    requires
        f.phase is AwaitSettle,
    ensures
        ({
            let s1 = launch_next(f, LaunchEvent::Slept, true);
            let s2 = launch_next(s1.0, LaunchEvent::Written(fps_ok), c2);
            let s3 = launch_next(s2.0, LaunchEvent::Written(res_ok), c3);
            let s4 = launch_next(s3.0, LaunchEvent::Done, c4);
            &&& s1.1 == LaunchAction::WriteFps(f.fps, f.menu_fps)
            &&& s2.1 == LaunchAction::WriteResolution(f.res_x, f.res_y)
            &&& s3.1 == LaunchAction::Toast
            &&& s4.1 == LaunchAction::Finish(None)
        }),
{
}

/// An eco start with rendering, where everything works and nothing stops it:
/// look for the launcher, limit the frame rates to 6 (menu 100), start the
/// launcher, wait ten seconds, write back the preferred frame rates and
/// resolution, show the toast, wait the rest of the launch delay (if any),
/// and end without error.
pub proof fn lemma_eco_launch_sequence(cfg: Config, plan: LaunchPlan)
    requires
        plan_of(cfg, plan),
        cfg.eco_mode,
        !cfg.render_toggle,
        !cfg.delete_startup_video,
    ensures
        ({
            let f0 = flow_of(cfg, plan);
            let s0 = launch_first(f0, false);
            let ok = seq![
                LaunchEvent::Launcher(true),
                LaunchEvent::Written(true),
                LaunchEvent::Started(true),
                LaunchEvent::Slept,
                LaunchEvent::Written(true),
                LaunchEvent::Written(true),
                LaunchEvent::Done,
            ];
            let restored = seq![
                LaunchAction::WriteFps(Some(LIMIT_FPS), Some(LIMIT_MENU_FPS)),
                LaunchAction::StartLauncher,
                LaunchAction::Sleep(SETTLE_SECS),
                LaunchAction::WriteFps(cfg.preferred_fps, cfg.preferred_menu_fps),
                LaunchAction::WriteResolution(cfg.preferred_res_x, cfg.preferred_res_y),
                LaunchAction::Toast,
            ];
            &&& s0.1 == LaunchAction::FindLauncher
            &&& plan.delay_secs > 0 ==> launch_actions(s0.0, ok.push(LaunchEvent::Slept))
                == restored + seq![
                LaunchAction::Sleep(plan.delay_secs),
                LaunchAction::Finish(None),
            ]
            &&& plan.delay_secs == 0 ==> launch_actions(s0.0, ok) == restored.push(
                LaunchAction::Finish(None),
            )
        }),
{
    let f0 = flow_of(cfg, plan);
    let s0 = launch_first(f0, false);
    let ok = seq![
        LaunchEvent::Launcher(true),
        LaunchEvent::Written(true),
        LaunchEvent::Started(true),
        LaunchEvent::Slept,
        LaunchEvent::Written(true),
        LaunchEvent::Written(true),
        LaunchEvent::Done,
    ];
    let es = ok.push(LaunchEvent::Slept);
    reveal_with_fuel(launch_actions, 9);
    assert(es.drop_first().drop_first().drop_first().drop_first().drop_first().drop_first().drop_first().drop_first() =~= Seq::<LaunchEvent>::empty());
    assert(ok.drop_first().drop_first().drop_first().drop_first().drop_first().drop_first().drop_first() =~= Seq::<LaunchEvent>::empty());
    assert(launch_actions(s0.0, es) =~= seq![
        LaunchAction::WriteFps(Some(LIMIT_FPS), Some(LIMIT_MENU_FPS)),
        LaunchAction::StartLauncher,
        LaunchAction::Sleep(SETTLE_SECS),
        LaunchAction::WriteFps(cfg.preferred_fps, cfg.preferred_menu_fps),
        LaunchAction::WriteResolution(cfg.preferred_res_x, cfg.preferred_res_y),
        LaunchAction::Toast,
        if plan.delay_secs > 0 { LaunchAction::Sleep(plan.delay_secs) } else { LaunchAction::Finish(None) },
        LaunchAction::Finish(None),
    ]);
    assert(launch_actions(s0.0, ok) =~= seq![
        LaunchAction::WriteFps(Some(LIMIT_FPS), Some(LIMIT_MENU_FPS)),
        LaunchAction::StartLauncher,
        LaunchAction::Sleep(SETTLE_SECS),
        LaunchAction::WriteFps(cfg.preferred_fps, cfg.preferred_menu_fps),
        LaunchAction::WriteResolution(cfg.preferred_res_x, cfg.preferred_res_y),
        LaunchAction::Toast,
        if plan.delay_secs > 0 { LaunchAction::Sleep(plan.delay_secs) } else { LaunchAction::Finish(None) },
    ]);
}

impl LaunchFlow {
    /// Starts a start of the game with the settings of `cfg`.
    pub fn new(cfg: &Config) -> (r: (LaunchFlow, LaunchAction, Vec<LaunchNotice>))
        ensures
            plan_of(*cfg, r.0.plan),
            ({
                let s = launch_first(flow_of(*cfg, r.0.plan), cfg.delete_startup_video);
                &&& r.0 == s.0
                &&& r.1 == s.1
                &&& r.2@ == s.2
            }),
    {
        let plan = launch_plan(cfg);
        let f = LaunchFlow {
            plan,
            eco: cfg.eco_mode,
            fps: cfg.preferred_fps,
            menu_fps: cfg.preferred_menu_fps,
            res_x: cfg.preferred_res_x,
            res_y: cfg.preferred_res_y,
            phase: LaunchPhase::AwaitVideo,
        };
        if cfg.delete_startup_video {
            (f, LaunchAction::RemoveVideo, Vec::new())
        } else {
            f.begin()
        }
    }

    fn begin(self) -> (r: (LaunchFlow, LaunchAction, Vec<LaunchNotice>))
        ensures
            r.0 == launch_begin(self).0,
            r.1 == launch_begin(self).1,
            r.2@ == launch_begin(self).2,
    {
        let mut notes: Vec<LaunchNotice> = Vec::new();
        if self.eco {
            if self.plan.limit_fps_first {
                notes.push(LaunchNotice::EcoWindow);
            } else {
                notes.push(LaunchNotice::NoRender);
            }
        }
        proof {
            assert(notes@ =~= begin_notes(self));
        }
        if self.plan.via_launcher {
            (LaunchFlow { phase: LaunchPhase::AwaitLauncher, ..self }, LaunchAction::FindLauncher, notes)
        } else {
            (LaunchFlow { phase: LaunchPhase::AwaitStart, ..self }, LaunchAction::OpenSteam, notes)
        }
    }

    fn load(self, notes: Vec<LaunchNotice>) -> (r: (LaunchFlow, LaunchAction, Vec<LaunchNotice>))
        ensures
            r.0 == launch_load(self, notes@).0,
            r.1 == launch_load(self, notes@).1,
            r.2@ == launch_load(self, notes@).2,
    {
        let mut notes = notes;
        if self.plan.delay_secs > 0 {
            let secs = self.plan.delay_secs;
            notes.push(LaunchNotice::Loading { secs, rest: self.eco });
            (LaunchFlow { phase: LaunchPhase::AwaitLoad, ..self }, LaunchAction::Sleep(secs), notes)
        } else {
            (LaunchFlow { phase: LaunchPhase::Done, ..self }, LaunchAction::Finish(None), notes)
        }
    }

    fn started(self, notes: Vec<LaunchNotice>) -> (r: (LaunchFlow, LaunchAction, Vec<LaunchNotice>))
        ensures
            r.0 == launch_started(self, notes@).0,
            r.1 == launch_started(self, notes@).1,
            r.2@ == launch_started(self, notes@).2,
    {
        if self.plan.limit_fps_first {
            let mut notes = notes;
            notes.push(LaunchNotice::Settling);
            (
                LaunchFlow { phase: LaunchPhase::AwaitSettle, ..self },
                LaunchAction::Sleep(SETTLE_SECS),
                notes,
            )
        } else {
            self.load(notes)
        }
    }

    /// One step of a start, as `launch_next` states.
    pub fn step(self, e: LaunchEvent, cancelled: bool) -> (r: (
        LaunchFlow,
        LaunchAction,
        Vec<LaunchNotice>,
    ))
        requires
            launch_accepts(self.phase, e),
        ensures
            r.0 == launch_next(self, e, cancelled).0,
            r.1 == launch_next(self, e, cancelled).1,
            r.2@ == launch_next(self, e, cancelled).2,
            self.phase is AwaitStart && e == LaunchEvent::Started(true) && !self.plan.limit_fps_first
                && self.plan.delay_secs > 0 ==> r.1 == LaunchAction::Sleep(self.plan.delay_secs),
            self.phase is AwaitStart && e == LaunchEvent::Started(true) && self.plan.limit_fps_first
                ==> r.1 == LaunchAction::Sleep(SETTLE_SECS),
    {
        let phase = self.phase;
        match (phase, e) {
            (LaunchPhase::AwaitVideo, LaunchEvent::Done) => self.begin(),
            (LaunchPhase::AwaitLauncher, LaunchEvent::Launcher(found)) => if !found {
                (
                    LaunchFlow { phase: LaunchPhase::Done, ..self },
                    LaunchAction::Finish(Some(LaunchError::LauncherMissing)),
                    Vec::new(),
                )
            } else if self.plan.limit_fps_first {
                (
                    LaunchFlow { phase: LaunchPhase::AwaitLimit, ..self },
                    LaunchAction::WriteFps(Some(LIMIT_FPS), Some(LIMIT_MENU_FPS)),
                    Vec::new(),
                )
            } else {
                (LaunchFlow { phase: LaunchPhase::AwaitStart, ..self }, LaunchAction::StartLauncher, Vec::new())
            },
            (LaunchPhase::AwaitLimit, LaunchEvent::Written(ok)) => if ok {
                (LaunchFlow { phase: LaunchPhase::AwaitStart, ..self }, LaunchAction::StartLauncher, Vec::new())
            } else {
                (
                    LaunchFlow { phase: LaunchPhase::Done, ..self },
                    LaunchAction::Finish(Some(LaunchError::SettingsFailed)),
                    Vec::new(),
                )
            },
            (LaunchPhase::AwaitStart, LaunchEvent::Started(ok)) => if !ok {
                let err = if self.plan.via_launcher {
                    LaunchError::SpawnFailed
                } else {
                    LaunchError::SteamFailed
                };
                (LaunchFlow { phase: LaunchPhase::Done, ..self }, LaunchAction::Finish(Some(err)), Vec::new())
            } else {
                let mut notes: Vec<LaunchNotice> = Vec::new();
                if !self.eco {
                    if self.plan.via_launcher {
                        notes.push(LaunchNotice::LaunchedNoSound);
                    } else {
                        notes.push(LaunchNotice::LaunchedSteam);
                    }
                }
                proof {
                    if self.eco {
                        assert(notes@ =~= Seq::<LaunchNotice>::empty());
                    } else if self.plan.via_launcher {
                        assert(notes@ =~= seq![LaunchNotice::LaunchedNoSound]);
                    } else {
                        assert(notes@ =~= seq![LaunchNotice::LaunchedSteam]);
                    }
                }
                self.started(notes)
            },
            (LaunchPhase::AwaitSettle, LaunchEvent::Slept) => {
                let a = LaunchAction::WriteFps(self.fps, self.menu_fps);
                (LaunchFlow { phase: LaunchPhase::AwaitFpsBack { cancelled }, ..self }, a, Vec::new())
            },
            (LaunchPhase::AwaitFpsBack { cancelled: c }, LaunchEvent::Written(ok)) => if c || ok {
                let a = LaunchAction::WriteResolution(self.res_x, self.res_y);
                (LaunchFlow { phase: LaunchPhase::AwaitResBack { cancelled: c }, ..self }, a, Vec::new())
            } else {
                (
                    LaunchFlow { phase: LaunchPhase::Done, ..self },
                    LaunchAction::Finish(Some(LaunchError::SettingsFailed)),
                    Vec::new(),
                )
            },
            (LaunchPhase::AwaitResBack { cancelled: c }, LaunchEvent::Written(ok)) => if c || ok {
                (LaunchFlow { phase: LaunchPhase::AwaitToast { cancelled: c }, ..self }, LaunchAction::Toast, Vec::new())
            } else {
                (
                    LaunchFlow { phase: LaunchPhase::Done, ..self },
                    LaunchAction::Finish(Some(LaunchError::SettingsFailed)),
                    Vec::new(),
                )
            },
            (LaunchPhase::AwaitToast { cancelled: c }, LaunchEvent::Done) => if c {
                (LaunchFlow { phase: LaunchPhase::Done, ..self }, LaunchAction::Finish(None), Vec::new())
            } else {
                self.load(Vec::new())
            },
            _ => (LaunchFlow { phase: LaunchPhase::Done, ..self }, LaunchAction::Finish(None), Vec::new()),
        }
    }
}

} // verus!
