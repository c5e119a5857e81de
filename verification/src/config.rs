//! The user's settings, their defaults, and where the settings live.
use vstd::prelude::*;

verus! {

/// What to do once every server was seeded.
#[derive(Clone, Copy, Debug, PartialEq, Eq, Structural)]
pub enum AfterSeedAction {
    Nothing,
    CloseAndExit,
    Shutdown,
    Sleep,
}

impl Default for AfterSeedAction {
    fn default() -> (a: Self)
        ensures
            a == AfterSeedAction::Nothing,
    {
        AfterSeedAction::Nothing
    }
}

/// The window theme.
#[derive(Clone, Copy, Debug, PartialEq, Eq, Structural)]
pub enum Theme {
    Dark,
    Light,
}

impl Default for Theme {
    fn default() -> (t: Self)
        ensures
            t == Theme::Dark,
    {
        Theme::Dark
    }
}

/// The settings of the seeding helper.
#[derive(Clone, Debug)]
pub struct Config {
    pub launcher_path: String,
    pub steam_id: String,
    /// `None`: the order is fetched from the hub on each run; `Some`: a local
    /// order, used instead.
    pub seed_order_override: Option<Vec<u8>>,
    pub desired_players: u32,
    pub checkup_interval: u64,
    pub start_on_startup: bool,
    pub auto_start_seeding: bool,
    pub startup_wait_minutes: u32,
    pub game_launch_delay: u32,
    pub time_limit_hour: u32,
    pub after_seed_action: AfterSeedAction,
    pub stop_after_server: u8,
    pub time_limit_minute: u32,
    pub time_limit_enabled: bool,
    pub preferred_fps: Option<u32>,
    pub preferred_menu_fps: Option<u32>,
    pub preferred_res_x: Option<u32>,
    pub preferred_res_y: Option<u32>,
    pub render_toggle: bool,
    pub auto_create_squad: bool,
    pub disable_sound: bool,
    pub delete_startup_video: bool,
    pub eco_mode: bool,
    pub advanced_mode: bool,
    pub theme: Theme,
    /// `None`: no scheduled shutdown; `Some("HH:MM")`: shut the computer down then.
    pub scheduled_shutdown: Option<String>,
}

/// The settings of a fresh installation.
pub open spec fn is_default_config(c: Config) -> bool {
    &&& c.launcher_path@ == Seq::<char>::empty()
    &&& c.steam_id@ == Seq::<char>::empty()
    &&& c.seed_order_override is None
    &&& c.desired_players == 65
    &&& c.checkup_interval == 60
    &&& !c.start_on_startup
    &&& !c.auto_start_seeding
    &&& c.startup_wait_minutes == 2
    &&& c.game_launch_delay == 3
    &&& c.time_limit_hour == 17
    &&& c.time_limit_minute == 0
    &&& c.time_limit_enabled
    &&& c.after_seed_action == AfterSeedAction::Nothing
    &&& c.stop_after_server == 0
    &&& c.preferred_fps is None
    &&& c.preferred_menu_fps is None
    &&& c.preferred_res_x is None
    &&& c.preferred_res_y is None
    &&& !c.render_toggle
    &&& c.auto_create_squad
    &&& c.disable_sound
    &&& !c.delete_startup_video
    &&& !c.eco_mode
    &&& !c.advanced_mode
    &&& c.theme == Theme::Dark
    &&& c.scheduled_shutdown is None
}

impl Default for Config {
    fn default() -> (c: Self)
        ensures
            is_default_config(c),
    {
        Config {
            launcher_path: String::new(),
            steam_id: String::new(),
            seed_order_override: None,
            desired_players: 65,
            checkup_interval: 60,
            start_on_startup: false,
            auto_start_seeding: false,
            startup_wait_minutes: 2,
            game_launch_delay: 3,
            time_limit_hour: 17,
            time_limit_minute: 0,
            time_limit_enabled: true,
            after_seed_action: AfterSeedAction::Nothing,
            stop_after_server: 0,
            preferred_fps: None,
            preferred_menu_fps: None,
            preferred_res_x: None,
            preferred_res_y: None,
            render_toggle: false,
            auto_create_squad: true,
            disable_sound: true,
            delete_startup_video: false,
            eco_mode: false,
            advanced_mode: false,
            theme: Theme::Dark,
            scheduled_shutdown: None,
        }
    }
}


// ── where the settings live ──────────────────────────────────────────────────

/// A path as its components, first to last.
pub open spec fn parts_view(v: Seq<String>) -> Seq<Seq<char>> {
    Seq::new(v.len(), |i: int| v[i]@)
}

/// The settings folder: `%LOCALAPPDATA%\Temp\sqseeder`, or `sqseeder`
/// (relative) when `LOCALAPPDATA` is not set.
pub open spec fn config_dir_parts(local_app_data: Option<Seq<char>>) -> Seq<Seq<char>> {
    match local_app_data {
        Some(p) => seq![p, "Temp"@, "sqseeder"@],
        None => seq!["sqseeder"@],
    }
}

/// The game's settings file:
/// `%LOCALAPPDATA%\SquadGame\Saved\Config\Windows\GameUserSettings.ini`, or
/// `GameUserSettings.ini` when `LOCALAPPDATA` is not set.
pub open spec fn game_settings_parts(local_app_data: Option<Seq<char>>) -> Seq<Seq<char>> {
    match local_app_data {
        Some(p) => seq![
            p,
            "SquadGame"@,
            "Saved"@,
            "Config"@,
            "Windows"@,
            "GameUserSettings.ini"@,
        ],
        None => seq!["GameUserSettings.ini"@],
    }
}

pub open spec fn opt_view(v: Option<&str>) -> Option<Seq<char>> {
    match v {
        Some(s) => Some(s@),
        None => None,
    }
}

fn part(s: &str) -> (r: String)
    ensures
        r@ == s@,
{
    String::from_str(s)
}

/// The components of the settings folder, given `LOCALAPPDATA`.
pub fn config_dir(local_app_data: Option<&str>) -> (r: Vec<String>)
    ensures
        parts_view(r@) == config_dir_parts(opt_view(local_app_data)),
{
    let mut r: Vec<String> = Vec::new();
    match local_app_data {
        Some(p) => {
            r.push(part(p));
            r.push(part("Temp"));
            r.push(part("sqseeder"));
        },
        None => {
            r.push(part("sqseeder"));
        },
    }
    assert(parts_view(r@) =~= config_dir_parts(opt_view(local_app_data)));
    r
}

/// The components of `config.json` in the settings folder.
pub fn config_path(local_app_data: Option<&str>) -> (r: Vec<String>)
    ensures
        parts_view(r@) == config_dir_parts(opt_view(local_app_data)).push("config.json"@),
{
    let mut r = config_dir(local_app_data);
    let ghost before = parts_view(r@);
    r.push(part("config.json"));
    assert(parts_view(r@) =~= before.push("config.json"@));
    r
}

/// The components of the log file in the settings folder.
pub fn log_path(local_app_data: Option<&str>) -> (r: Vec<String>)
    ensures
        parts_view(r@) == config_dir_parts(opt_view(local_app_data)).push("seed_debug.log"@),
{
    let mut r = config_dir(local_app_data);
    let ghost before = parts_view(r@);
    r.push(part("seed_debug.log"));
    assert(parts_view(r@) =~= before.push("seed_debug.log"@));
    r
}

/// The components of the game's settings file, given `LOCALAPPDATA`.
pub fn game_settings_path(local_app_data: Option<&str>) -> (r: Vec<String>)
    ensures
        parts_view(r@) == game_settings_parts(opt_view(local_app_data)),
{
    let mut r: Vec<String> = Vec::new();
    match local_app_data {
        Some(p) => {
            r.push(part(p));
            r.push(part("SquadGame"));
            r.push(part("Saved"));
            r.push(part("Config"));
            r.push(part("Windows"));
            r.push(part("GameUserSettings.ini"));
        },
        None => {
            r.push(part("GameUserSettings.ini"));
        },
    }
    assert(parts_view(r@) =~= game_settings_parts(opt_view(local_app_data)));
    r
}

// ── reading stored settings ─────────────────────────────────────────────────

/// A stored scheduled shutdown: an empty text (older files) means none.
pub fn normalize_scheduled_shutdown(stored: Option<String>) -> (r: Option<String>)
    ensures
        r == (match stored {
            Some(s) => if s@.len() > 0 {
                Some(s)
            } else {
                None
            },
            None => None,
        }),
{
    match stored {
        Some(s) => if s.as_str().is_empty() {
            None
        } else {
            Some(s)
        },
        None => None,
    }
}

/// The settings from a stored file: what it held, or the defaults when it
/// could not be read or parsed.
pub fn config_or_default(parsed: Option<Config>) -> (c: Config)
    ensures
        match parsed {
            Some(p) => c == p,
            None => is_default_config(c),
        },
{
    match parsed {
        Some(p) => p,
        None => Config::default(),
    }
}

} // verus!
