use seed_helper::config::Config;
use seed_helper::game::{
    launch_plan, library_paths, parse_steam_path, steam_url, validate_config, ConfigError,
};

fn cfg_with_id(id: &str) -> Config {
    let mut c = Config::default();
    c.steam_id = id.to_string();
    c
}

#[test]
fn steam_id_must_be_17_digits() {
    assert_eq!(validate_config(&cfg_with_id("76561198000000000"), false, false), Ok(()));
    assert_eq!(
        validate_config(&cfg_with_id("7656119800000000"), true, true),
        Err(ConfigError::BadSteamId)
    );
    assert_eq!(
        validate_config(&cfg_with_id("7656119800000000a"), true, true),
        Err(ConfigError::BadSteamId)
    );
    assert_eq!(validate_config(&cfg_with_id(""), true, true), Err(ConfigError::BadSteamId));
    // 17 characters, one not ASCII
    assert_eq!(
        validate_config(&cfg_with_id("7656119800000000٣"), true, true),
        Err(ConfigError::BadSteamId)
    );
}

#[test]
fn eco_mode_needs_settings_then_launcher() {
    let mut c = cfg_with_id("bad");
    c.eco_mode = true;
    assert_eq!(validate_config(&c, false, false), Err(ConfigError::SettingsMissing));
    assert_eq!(validate_config(&c, true, false), Err(ConfigError::LauncherMissing));
    assert_eq!(validate_config(&c, true, true), Err(ConfigError::BadSteamId));
    c.steam_id = "76561198000000000".to_string();
    assert_eq!(validate_config(&c, true, true), Ok(()));
}

#[test]
fn steam_links() {
    assert_eq!(steam_url(&[]), "steam://run/393380//");
    assert_eq!(steam_url(&["-nosound"]), "steam://run/393380//-nosound/");
    assert_eq!(steam_url(&["-a", "-b", "-c"]), "steam://run/393380//-a%20-b%20-c/");
}

#[test]
fn eco_launch_plans() {
    let mut c = Config::default();
    c.eco_mode = true;
    c.render_toggle = false;
    c.disable_sound = true;
    c.game_launch_delay = 3;
    let p = launch_plan(&c);
    assert!(p.via_launcher);
    assert_eq!(p.args, vec!["-windowed", "-ResX=1", "-ResY=1", "-nosound"]);
    assert!(p.limit_fps_first);
    assert_eq!(p.delay_secs, 170);

    c.render_toggle = true;
    c.disable_sound = false;
    c.game_launch_delay = 0;
    let p = launch_plan(&c);
    assert_eq!(
        p.args,
        vec![
            "-nullrhi",
            "-NoAsyncPostLoad",
            "-noshaderworker",
            "-norenderthread",
            "-NoShaderCompile",
            "-log",
            "-nosplash"
        ]
    );
    assert!(!p.limit_fps_first);
    assert_eq!(p.delay_secs, 0);
}

#[test]
fn steam_launch_plans() {
    let mut c = Config::default();
    c.eco_mode = false;
    c.disable_sound = true;
    c.game_launch_delay = 2;
    let p = launch_plan(&c);
    assert!(p.via_launcher);
    assert_eq!(p.args, vec!["-nosound"]);
    assert_eq!(p.delay_secs, 120);
    c.disable_sound = false;
    let p = launch_plan(&c);
    assert!(!p.via_launcher);
    assert!(p.args.is_empty());
    assert!(!p.limit_fps_first);
}

#[test]
fn steam_path_from_registry() {
    let out = "\r\nHKEY_CURRENT_USER\\Software\\Valve\\Steam\r\n    SteamPath    REG_SZ    c:/program files (x86)/steam\r\n\r\n";
    assert_eq!(parse_steam_path(out), Some("c:/program files (x86)/steam".to_string()));
    assert_eq!(parse_steam_path("nothing here\n"), None);
    assert_eq!(parse_steam_path("SteamPath without type\n"), None);
    assert_eq!(
        parse_steam_path("SteamPath REG_SZ a REG_SZ b\n"),
        Some("a".to_string())
    );
}

#[test]
fn library_folders() {
    let vdf = "\"libraryfolders\"\n{\n\t\"0\"\n\t{\n\t\t\"path\"\t\t\"C:\\\\Program Files (x86)\\\\Steam\"\n\t}\n\t\"1\"\n\t{\n\t\t\"path\"\t\t\"D:\\\\SteamLibrary\"\n\t\t\"label\"\t\t\"\"\n\t}\n\t\"path\"\n}";
    assert_eq!(
        library_paths(vdf),
        vec![
            "C:\\\\Program Files (x86)\\\\Steam".to_string(),
            "D:\\\\SteamLibrary".to_string()
        ]
    );
}
