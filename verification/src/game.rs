//! Game-side decisions: validating the settings before a run, the Steam
//! links and the game's command line, and reading where Steam keeps Squad.
use vstd::prelude::*;
use crate::config::Config;
use crate::text::{
    all_digits, chars_of, copy_range, fields, find_from, find_in, join_strs, join_with, lines_of,
    nth_field, push_str, range_starts_with, split_lines, starts_with, string_of, trim,
    trim_bounds,
};

verus! {

/// Steam's application id of Squad.
pub const SQUAD_APP_ID: &'static str = "393380";

/// Why the settings cannot start a run.
#[derive(Clone, Copy, Debug, PartialEq, Eq, Structural)]
pub enum ConfigError {
    /// Eco mode needs the game's settings file, which is not there.
    SettingsMissing,
    /// Eco mode needs `squad_launcher.exe`, which was not found.
    LauncherMissing,
    /// The SteamID is not 17 digits.
    BadSteamId,
}

/// A SteamID64 as the hub takes it: 17 ASCII digits.
pub open spec fn valid_steam_id(s: Seq<char>) -> bool {
    s.len() == 17 && all_digits(s)
}

/// What validation answers: in eco mode the settings file, then the
/// launcher must be there; then the SteamID must be 17 digits.
pub open spec fn validation(cfg: Config, settings_exists: bool, launcher_found: bool) -> Result<
    (),
    ConfigError,
> {
    if cfg.eco_mode && !settings_exists {
        Err(ConfigError::SettingsMissing)
    } else if cfg.eco_mode && !launcher_found {
        Err(ConfigError::LauncherMissing)
    } else if !valid_steam_id(cfg.steam_id@) {
        Err(ConfigError::BadSteamId)
    } else {
        Ok(())
    }
}

/// Validation passes exactly when the SteamID is 17 ASCII digits and, in eco
/// mode, the settings file and the launcher are both there; outside eco mode
/// the files do not matter; in eco mode a missing settings file is reported
/// before a missing launcher, and both before a bad SteamID.
pub proof fn lemma_validation_passes(cfg: Config, settings_exists: bool, launcher_found: bool, e2: bool, f2: bool)
    ensures
        (validation(cfg, settings_exists, launcher_found) is Ok) == (cfg.steam_id@.len() == 17
            && (forall|k: int| 0 <= k < 17 ==> '0' <= #[trigger] cfg.steam_id@[k] <= '9') && (
        !cfg.eco_mode || (settings_exists && launcher_found))),
        !cfg.eco_mode ==> validation(cfg, settings_exists, launcher_found) == validation(cfg, e2, f2),
        cfg.eco_mode && !settings_exists ==> validation(cfg, settings_exists, launcher_found) == Err::<
            (),
            ConfigError,
        >(ConfigError::SettingsMissing),
        cfg.eco_mode && settings_exists && !launcher_found ==> validation(
            cfg,
            settings_exists,
            launcher_found,
        ) == Err::<(), ConfigError>(ConfigError::LauncherMissing),
{
    if cfg.steam_id@.len() == 17 && (forall|k: int| 0 <= k < 17 ==> '0' <= #[trigger] cfg.steam_id@[k] <= '9') {
        assert(crate::text::all_digits(cfg.steam_id@));
    }
}

/// Checks the settings before a run. `settings_exists` tells whether the
/// game's settings file exists and `launcher_found` whether
/// `squad_launcher.exe` was found; both matter in eco mode only.
pub fn validate_config(cfg: &Config, settings_exists: bool, launcher_found: bool) -> (r: Result<
    (),
    ConfigError,
>)
    ensures
        r == validation(*cfg, settings_exists, launcher_found),
{
    if cfg.eco_mode {
        if !settings_exists {
            return Err(ConfigError::SettingsMissing);
        }
        if !launcher_found {
            return Err(ConfigError::LauncherMissing);
        }
    }
    let id = chars_of(cfg.steam_id.as_str());
    if id.len() != 17 {
        return Err(ConfigError::BadSteamId);
    }
    let mut i: usize = 0;
    while i < id.len()
        invariant
            0 <= i <= id@.len(),
            id@ == cfg.steam_id@,
            id@.len() == 17,
            !(cfg.eco_mode && !settings_exists),
            !(cfg.eco_mode && !launcher_found),
            forall|k: int| 0 <= k < i ==> crate::text::is_digit(#[trigger] id@[k]),
        decreases id@.len() - i,
    {
        if !('0' <= id[i] && id[i] <= '9') {
            assert(!crate::text::is_digit(id@[i as int]));
            return Err(ConfigError::BadSteamId);
        }
        i = i + 1;
    }
    Ok(())
}

// ── Steam links ──────────────────────────────────────────────────────────────

/// `steam://run/393380//`, followed by the arguments joined with `%20` and a
/// `/` when there are any.
pub open spec fn steam_run_url(args: Seq<Seq<char>>) -> Seq<char> {
    if args.len() == 0 {
        "steam://run/393380//"@
    } else {
        "steam://run/393380//"@ + join_with(args, "%20"@) + "/"@
    }
}

/// The Steam link that starts Squad with `args`.
pub fn steam_url(args: &[&str]) -> (r: String)
    ensures
        r@ == steam_run_url(Seq::new(args@.len(), |i: int| args@[i]@)),
{
    let mut v: Vec<char> = Vec::new();
    push_str(&mut v, "steam://run/393380//");
    if args.len() > 0 {
        let joined = join_strs(args, "%20");
        crate::text::push_all(&mut v, &joined);
        push_str(&mut v, "/");
    }
    string_of(&v)
}

// ── starting the game ────────────────────────────────────────────────────────

/// How the game is started.
pub struct LaunchPlan {
    /// Start `squad_launcher.exe` directly (otherwise through Steam's link).
    pub via_launcher: bool,
    /// The command-line arguments for the launcher.
    pub args: Vec<&'static str>,
    /// Eco mode with rendering: limit the frame rates to 6 (menu 100) before
    /// the start, and write the preferred frame rates and resolution back
    /// after a ten-second settling wait.
    pub limit_fps_first: bool,
    /// Seconds to wait afterwards for the game to load.
    pub delay_secs: u64,
}

pub open spec fn strs(v: Seq<&str>) -> Seq<Seq<char>> {
    Seq::new(v.len(), |i: int| v[i]@)
}

/// Eco mode's arguments: without rendering, or in a 1x1 window; `-nosound`
/// when sound is off.
pub open spec fn eco_args(cfg: Config) -> Seq<Seq<char>> {
    let base = if cfg.render_toggle {
        seq![
            "-nullrhi"@,
            "-NoAsyncPostLoad"@,
            "-noshaderworker"@,
            "-norenderthread"@,
            "-NoShaderCompile"@,
            "-log"@,
            "-nosplash"@,
        ]
    } else {
        seq!["-windowed"@, "-ResX=1"@, "-ResY=1"@]
    };
    if cfg.disable_sound {
        base.push("-nosound"@)
    } else {
        base
    }
}

/// The plan of a start: eco mode starts the launcher with `eco_args` and
/// waits the launch delay less the ten seconds already waited (saturating);
/// otherwise the launcher is started with `-nosound` when sound is off, or
/// Steam's link when it is on, and the full launch delay is waited.
pub open spec fn plan_of(cfg: Config, p: LaunchPlan) -> bool {
    let minutes = cfg.game_launch_delay as int;
    if cfg.eco_mode {
        &&& p.via_launcher
        &&& strs(p.args@) == eco_args(cfg)
        &&& p.limit_fps_first == !cfg.render_toggle
        &&& p.delay_secs == (if minutes * 60 >= 10 {
            minutes * 60 - 10
        } else {
            0
        })
    } else {
        &&& p.via_launcher == cfg.disable_sound
        &&& strs(p.args@) == (if cfg.disable_sound {
            seq!["-nosound"@]
        } else {
            Seq::<Seq<char>>::empty()
        })
        &&& !p.limit_fps_first
        &&& p.delay_secs == minutes * 60
    }
}

/// What a start plan does: outside eco mode it waits the full launch delay
/// and goes through the launcher exactly when sound is off (to pass
/// `-nosound`), through Steam otherwise; eco mode always uses the launcher,
/// passes `-nosound` exactly when sound is off, opens a 1x1 window and limits
/// the frame rates first exactly when rendering is on, and waits the launch
/// delay less the ten seconds already spent settling.
pub proof fn lemma_plan_facts(cfg: Config, p: LaunchPlan)
    requires
        plan_of(cfg, p),
    ensures
        !cfg.eco_mode ==> p.delay_secs == cfg.game_launch_delay * 60 && p.via_launcher
            == cfg.disable_sound && !p.limit_fps_first,
        !cfg.eco_mode ==> (strs(p.args@).len() > 0) == cfg.disable_sound,
        cfg.eco_mode ==> p.via_launcher && p.limit_fps_first == !cfg.render_toggle,
        cfg.eco_mode && cfg.game_launch_delay > 0 ==> p.delay_secs + 10 == cfg.game_launch_delay
            * 60,
        cfg.eco_mode && cfg.game_launch_delay == 0 ==> p.delay_secs == 0,
        cfg.eco_mode ==> (strs(p.args@).last() == "-nosound"@) == cfg.disable_sound,
        cfg.eco_mode && !cfg.render_toggle ==> strs(p.args@).take(3) == seq![
            "-windowed"@,
            "-ResX=1"@,
            "-ResY=1"@,
        ],
{
    reveal_strlit("-nosound");
    reveal_strlit("-nosplash");
    reveal_strlit("-ResY=1");
    if cfg.eco_mode {
        let a = strs(p.args@);
        if !cfg.render_toggle {
            assert(a.take(3) =~= seq!["-windowed"@, "-ResX=1"@, "-ResY=1"@]);
        }
        if !cfg.disable_sound {
            if cfg.render_toggle {
                assert(a.last() == "-nosplash"@);
                assert("-nosplash"@.len() != "-nosound"@.len());
            } else {
                assert(a.last() == "-ResY=1"@);
                assert("-ResY=1"@.len() != "-nosound"@.len());
            }
        }
    }
}

/// How to start the game with the settings of `cfg`.
pub fn launch_plan(cfg: &Config) -> (p: LaunchPlan)
    ensures
        plan_of(*cfg, p),
{
    let delay: u64 = (cfg.game_launch_delay as u64) * 60;
    let mut args: Vec<&'static str> = Vec::new();
    if cfg.eco_mode {
        if cfg.render_toggle {
            args.push("-nullrhi");
            args.push("-NoAsyncPostLoad");
            args.push("-noshaderworker");
            args.push("-norenderthread");
            args.push("-NoShaderCompile");
            args.push("-log");
            args.push("-nosplash");
        } else {
            args.push("-windowed");
            args.push("-ResX=1");
            args.push("-ResY=1");
        }
        if cfg.disable_sound {
            args.push("-nosound");
        }
        assert(strs(args@) =~= eco_args(*cfg));
        LaunchPlan {
            via_launcher: true,
            args,
            limit_fps_first: !cfg.render_toggle,
            delay_secs: if delay >= 10 {
                delay - 10
            } else {
                0
            },
        }
    } else {
        if cfg.disable_sound {
            args.push("-nosound");
        }
        assert(strs(args@) =~= (if cfg.disable_sound {
            seq!["-nosound"@]
        } else {
            Seq::<Seq<char>>::empty()
        }));
        LaunchPlan { via_launcher: cfg.disable_sound, args, limit_fps_first: false, delay_secs: delay }
    }
}

// ── where Steam keeps Squad ──────────────────────────────────────────────────

/// The piece of `s` between the first and the second occurrence of `p`
/// (or the end), as `s.split(p).nth(1)` gives it.
pub open spec fn second_piece(s: Seq<char>, p: Seq<char>) -> Option<Seq<char>> {
    match find_from(s, p, 0) {
        None => None,
        Some(i) => {
            let rest = s.skip(i + p.len());
            match find_from(rest, p, 0) {
                Some(j) => Some(rest.take(j)),
                None => Some(rest),
            }
        },
    }
}

/// The index of the first line that contains `SteamPath`.
pub open spec fn first_steam_path_line(ls: Seq<Seq<char>>, k: int) -> Option<int>
    decreases ls.len() - k,
{
    if k < 0 || k >= ls.len() {
        None
    } else if find_from(ls[k], "SteamPath"@, 0) is Some {
        Some(k)
    } else {
        first_steam_path_line(ls, k + 1)
    }
}

/// Steam's install folder from the output of
/// `reg query HKCU\Software\Valve\Steam /v SteamPath`: the first line that
/// names `SteamPath`, the text after its `REG_SZ`, trimmed.
pub open spec fn steam_path_of(out: Seq<char>) -> Option<Seq<char>> {
    let ls = lines_of(out);
    match first_steam_path_line(ls, 0) {
        None => None,
        Some(k) => match second_piece(ls[k], "REG_SZ"@) {
            None => None,
            Some(v) => Some(trim(v)),
        },
    }
}

/// Reads Steam's install folder from the registry query's output.
pub fn parse_steam_path(reg_output: &str) -> (r: Option<String>)
    ensures
        match r {
            Some(p) => steam_path_of(reg_output@) == Some(p@),
            None => steam_path_of(reg_output@) is None,
        },
{
    let chars = chars_of(reg_output);
    let lines = split_lines(&chars, 0);
    proof {
        assert(chars@.skip(0) == chars@);
    }
    let ghost ls = lines.deep_view();
    let key = chars_of("SteamPath");
    let sep = chars_of("REG_SZ");
    let mut k: usize = 0;
    while k < lines.len()
        invariant
            0 <= k <= lines@.len(),
            ls == lines.deep_view(),
            ls == lines_of(reg_output@),
            key@ == "SteamPath"@,
            sep@ == "REG_SZ"@,
            first_steam_path_line(ls, 0) == first_steam_path_line(ls, k as int),
        decreases lines@.len() - k,
    {
        let line = &lines[k];
        proof {
            assert(line.deep_view() =~= line@);
            assert(ls[k as int] == line@);
        }
        if find_in(line, 0, &key).is_some() {
            let i = find_in(line, 0, &sep);
            match i {
                None => return None,
                Some(i) => {
                    proof {
                        crate::text::lemma_find_from_bounds(line@, sep@, 0);
                        assert(crate::text::occurs_at(line@, sep@, i as int));
                        assert(i + sep@.len() <= line@.len());
                    }
                    let llen = line.len();
                    let start = i + sep.len();
                    let j = find_in(line, start, &sep);
                    let ghost rest = line@.skip(start as int);
                    let end = match j {
                        Some(j) => {
                            proof {
                                crate::text::lemma_find_from_bounds(line@, sep@, start as int);
                                lemma_find_shift(line@, sep@, start as int);
                            }
                            j
                        },
                        None => {
                            proof {
                                lemma_find_shift(line@, sep@, start as int);
                            }
                            line.len()
                        },
                    };
                    proof {
                        lemma_find_shift(line@, sep@, start as int);
                    }
                    let (a, b) = trim_bounds(line, start, end);
                    let v = copy_range(line, a, b);
                    proof {
                        if j is Some {
                            assert(rest.take(end - start) == line@.subrange(start as int, end as int));
                        } else {
                            assert(rest == line@.subrange(start as int, end as int));
                        }
                    }
                    return Some(string_of(&v));
                },
            }
        }
        k = k + 1;
    }
    None
}

/// A search in `s` from `start` is a search in `s.skip(start)` from 0, shifted.
proof fn lemma_find_shift(s: Seq<char>, p: Seq<char>, start: int)
    requires
        0 <= start <= s.len(),
    ensures
        match find_from(s, p, start) {
            Some(j) => find_from(s.skip(start), p, 0) == Some(j - start),
            None => find_from(s.skip(start), p, 0) is None,
        },
{
    lemma_find_shift_from(s, p, start, start);
}

proof fn lemma_find_shift_from(s: Seq<char>, p: Seq<char>, start: int, i: int)
    requires
        0 <= start <= i,
        start <= s.len(),
    ensures
        match find_from(s, p, i) {
            Some(j) => find_from(s.skip(start), p, i - start) == Some(j - start),
            None => find_from(s.skip(start), p, i - start) is None,
        },
    decreases s.len() + 1 - i,
{
    let t = s.skip(start);
    if i + p.len() <= s.len() {
        assert(t.subrange(i - start, i - start + p.len()) =~= s.subrange(i, i + p.len()));
        if !crate::text::occurs_at(s, p, i) {
            lemma_find_shift_from(s, p, start, i + 1);
        }
    }
}

/// The library folders listed in Steam's `libraryfolders.vdf`: for each
/// line whose trimmed text starts with `"path"`, the fourth piece of it split
/// at `"` (the quoted folder), in order.
pub open spec fn library_paths_of(ls: Seq<Seq<char>>) -> Seq<Seq<char>>
    decreases ls.len(),
{
    if ls.len() == 0 {
        Seq::empty()
    } else {
        let rest = library_paths_of(ls.drop_last());
        let t = trim(ls.last());
        if starts_with(t, "\"path\""@) && fields(t, '"').len() > 3 {
            rest.push(fields(t, '"')[3])
        } else {
            rest
        }
    }
}

/// The Steam library folders named in `vdf`, in the order of the file.
pub fn library_paths(vdf: &str) -> (r: Vec<String>)
    ensures
        Seq::new(r@.len(), |i: int| r@[i]@) == library_paths_of(lines_of(vdf@)),
{
    let chars = chars_of(vdf);
    let lines = split_lines(&chars, 0);
    proof {
        assert(chars@.skip(0) == chars@);
    }
    let ghost ls = lines.deep_view();
    let key = chars_of("\"path\"");
    let mut r: Vec<String> = Vec::new();
    let mut k: usize = 0;
    while k < lines.len()
        invariant
            0 <= k <= lines@.len(),
            ls == lines.deep_view(),
            key@ == "\"path\""@,
            Seq::new(r@.len(), |i: int| r@[i]@) == library_paths_of(ls.take(k as int)),
        decreases lines@.len() - k,
    {
        let line = &lines[k];
        proof {
            assert(line.deep_view() =~= line@);
            assert(ls[k as int] == line@);
            assert(ls.take(k + 1).drop_last() == ls.take(k as int));
            assert(ls.take(k + 1).last() == line@);
        }
        let ghost before = Seq::new(r@.len(), |i: int| r@[i]@);
        let (a, b) = trim_bounds(line, 0, line.len());
        proof {
            assert(line@.subrange(0, line@.len() as int) == line@);
        }
        if range_starts_with(line, a, b, &key) {
            match nth_field(line, a, b, '"', 3) {
                Some(f) => {
                    let s = string_of(&f);
                    r.push(s);
                    assert(Seq::new(r@.len(), |i: int| r@[i]@) =~= before.push(f@));
                },
                None => {},
            }
        }
        k = k + 1;
    }
    assert(ls.take(lines@.len() as int) == ls);
    r
}

} // verus!
