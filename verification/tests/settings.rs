use seed_helper::config::{
    config_dir, config_or_default, config_path, game_settings_path, log_path,
    normalize_scheduled_shutdown, AfterSeedAction, Config, Theme,
};
use seed_helper::form::{
    after_action_str, optional_number_text, parse_after_action, parse_optional_number,
    parse_seed_order, save_form, seed_order_text, shutdown_fields, shutdown_text, SettingsForm,
};

#[test]
fn defaults() {
    let c = Config::default();
    assert_eq!(c.launcher_path, "");
    assert_eq!(c.steam_id, "");
    assert_eq!(c.seed_order_override, None);
    assert_eq!(c.desired_players, 65);
    assert_eq!(c.checkup_interval, 60);
    assert!(!c.start_on_startup);
    assert!(!c.auto_start_seeding);
    assert_eq!(c.startup_wait_minutes, 2);
    assert_eq!(c.game_launch_delay, 3);
    assert_eq!(c.time_limit_hour, 17);
    assert_eq!(c.time_limit_minute, 0);
    assert!(c.time_limit_enabled);
    assert_eq!(c.after_seed_action, AfterSeedAction::Nothing);
    assert_eq!(c.stop_after_server, 0);
    assert_eq!(c.preferred_fps, None);
    assert_eq!(c.preferred_menu_fps, None);
    assert!(!c.render_toggle);
    assert!(c.auto_create_squad);
    assert!(c.disable_sound);
    assert!(!c.delete_startup_video);
    assert!(!c.eco_mode);
    assert!(!c.advanced_mode);
    assert_eq!(c.theme, Theme::Dark);
    assert_eq!(c.scheduled_shutdown, None);
    assert_eq!(AfterSeedAction::default(), AfterSeedAction::Nothing);
    assert_eq!(Theme::default(), Theme::Dark);
}

#[test]
fn settings_paths() {
    assert_eq!(config_dir(Some("C:\\Users\\u\\AppData\\Local")), vec!["C:\\Users\\u\\AppData\\Local", "Temp", "sqseeder"]);
    assert_eq!(config_dir(None), vec!["sqseeder"]);
    assert_eq!(config_path(None), vec!["sqseeder", "config.json"]);
    assert_eq!(log_path(Some("L")), vec!["L", "Temp", "sqseeder", "seed_debug.log"]);
    assert_eq!(
        game_settings_path(Some("L")),
        vec!["L", "SquadGame", "Saved", "Config", "Windows", "GameUserSettings.ini"]
    );
    assert_eq!(game_settings_path(None), vec!["GameUserSettings.ini"]);
}

#[test]
fn stored_settings() {
    assert_eq!(normalize_scheduled_shutdown(Some(String::new())), None);
    assert_eq!(normalize_scheduled_shutdown(Some("23:00".to_string())), Some("23:00".to_string()));
    assert_eq!(normalize_scheduled_shutdown(None), None);
    let mut c = Config::default();
    c.desired_players = 80;
    assert_eq!(config_or_default(Some(c)).desired_players, 80);
    assert_eq!(config_or_default(None).desired_players, 65);
}

#[test]
fn after_action_labels() {
    assert_eq!(after_action_str(AfterSeedAction::Nothing), "Ничего");
    assert_eq!(
        after_action_str(AfterSeedAction::CloseAndExit),
        "Закрыть игру и Выйти (Рекомендуется)"
    );
    assert_eq!(parse_after_action("Закрыть игру и Выйти"), AfterSeedAction::CloseAndExit);
    assert_eq!(parse_after_action("Завершение Работы"), AfterSeedAction::Shutdown);
    assert_eq!(parse_after_action("Спящий Режим"), AfterSeedAction::Sleep);
    assert_eq!(parse_after_action("что-то"), AfterSeedAction::Nothing);
    for a in [
        AfterSeedAction::Nothing,
        AfterSeedAction::CloseAndExit,
        AfterSeedAction::Shutdown,
        AfterSeedAction::Sleep,
    ] {
        assert_eq!(parse_after_action(after_action_str(a)), a);
    }
}

#[test]
fn seed_order_in_the_form() {
    assert_eq!(seed_order_text(&Some(vec![1, 2, 3, 4])), "1,2,3,4");
    assert_eq!(seed_order_text(&None), "");
    assert_eq!(seed_order_text(&Some(vec![])), "");
    assert_eq!(parse_seed_order("  "), None);
    assert_eq!(parse_seed_order("3, 1,x,,256, 4 "), Some(vec![3, 1, 4]));
    assert_eq!(parse_seed_order("+2"), Some(vec![2]));
    let v = vec![4u8, 200, 0];
    assert_eq!(parse_seed_order(&seed_order_text(&Some(v.clone()))), Some(v));
}

#[test]
fn numbers_in_the_form() {
    assert_eq!(optional_number_text(Some(144)), "144");
    assert_eq!(optional_number_text(None), "");
    assert_eq!(parse_optional_number(" 60 "), Some(60));
    assert_eq!(parse_optional_number(""), None);
    assert_eq!(parse_optional_number("-1"), None);
    assert_eq!(parse_optional_number("4294967296"), None);
    assert_eq!(parse_optional_number("4294967295"), Some(u32::MAX));
}

#[test]
fn shutdown_time_in_the_form() {
    assert_eq!(shutdown_text(7, 5), "07:05");
    assert_eq!(shutdown_text(23, 59), "23:59");
    assert_eq!(shutdown_text(-3, 100), "-3:100");
    assert_eq!(shutdown_fields("07:05"), (7, 5));
    assert_eq!(shutdown_fields("12"), (12, 0));
    assert_eq!(shutdown_fields("x:30"), (0, 30));
    assert_eq!(shutdown_fields("1:2:3"), (1, 0));
    assert_eq!(shutdown_fields(&shutdown_text(-3, 9)), (-3, 9));
}

fn form() -> SettingsForm {
    SettingsForm {
        preferred_fps: " 144 ".to_string(),
        preferred_menu_fps: "abc".to_string(),
        steam_id: "76561198000000000".to_string(),
        seed_order_override: "3, 1,x,2".to_string(),
        desired_players: 70,
        checkup_interval: 30,
        game_launch_delay: -1,
        time_limit_hour: 18,
        time_limit_minute: 30,
        time_limit_enabled: false,
        startup_wait: 4,
        start_on_startup: true,
        auto_start: true,
        render_toggle: true,
        auto_create_squad: false,
        disable_sound: false,
        delete_startup_video: true,
        eco_mode: true,
        after_action: "Спящий Режим".to_string(),
        stop_after: 2,
        shutdown_enabled: true,
        shutdown_hour: 7,
        shutdown_minute: 5,
    }
}

#[test]
fn saving_the_form() {
    let mut c = Config::default();
    c.preferred_res_x = Some(800);
    let changed = save_form(&mut c, &form());
    assert!(changed);
    assert_eq!(c.preferred_fps, Some(144));
    assert_eq!(c.preferred_menu_fps, None);
    assert_eq!(c.steam_id, "76561198000000000");
    assert_eq!(c.seed_order_override, Some(vec![3, 1, 2]));
    assert_eq!(c.desired_players, 70);
    assert_eq!(c.checkup_interval, 30);
    assert_eq!(c.game_launch_delay, u32::MAX);
    assert_eq!((c.time_limit_hour, c.time_limit_minute, c.time_limit_enabled), (18, 30, false));
    assert_eq!(c.startup_wait_minutes, 4);
    assert!(c.start_on_startup && c.auto_start_seeding && c.render_toggle && c.eco_mode);
    assert!(!c.auto_create_squad && !c.disable_sound && c.delete_startup_video);
    assert_eq!(c.after_seed_action, AfterSeedAction::Sleep);
    assert_eq!(c.stop_after_server, 2);
    assert_eq!(c.scheduled_shutdown.as_deref(), Some("07:05"));
    assert_eq!(c.preferred_res_x, Some(800));
    // saving the same form again does not touch the startup entry
    assert!(!save_form(&mut c, &form()));
    let mut f = form();
    f.shutdown_enabled = false;
    f.seed_order_override = "  ".to_string();
    f.start_on_startup = false;
    assert!(save_form(&mut c, &f));
    assert_eq!(c.scheduled_shutdown, None);
    assert_eq!(c.seed_order_override, None);
}
