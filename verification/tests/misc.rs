use seed_helper::config::{AfterSeedAction, Config};
use seed_helper::input::{console_strokes, KeyStroke, SQUAD_COMMAND};
use seed_helper::join::{JoinAction, JoinEvent, JoinFlow, JoinNotice};
use seed_helper::process::{check_processes, is_squad_client_running, kill_targets};
use seed_helper::schedule::{
    after_seed_prompt, autostart_delay_secs, classify_log_line, health_step, join_delay_secs,
    parse_shutdown_time, restore_toast_message, shutdown_tick, LogLine,
};
use seed_helper::updater::{is_newer, parse_version};

#[test]
fn versions() {
    assert_eq!(parse_version("v4.1.2"), (4, 1, 2));
    assert_eq!(parse_version("4.1"), (4, 1, 0));
    assert_eq!(parse_version("vv5"), (5, 0, 0));
    assert_eq!(parse_version("1.x.3"), (1, 0, 3));
    assert_eq!(parse_version("1.2.3.4"), (1, 2, 0));
    assert_eq!(parse_version(""), (0, 0, 0));
    assert!(is_newer("4.0.1", "4.0.0"));
    assert!(is_newer("v5.0.0", "4.9.9"));
    assert!(!is_newer("4.0.0", "4.0.0"));
    assert!(!is_newer("3.9.9", "4.0.0"));
    assert!(is_newer("4.1", "4.0.9"));
}

#[test]
fn processes() {
    let procs = vec![
        "explorer.exe".to_string(),
        "SquadGame-Win64-Shipping.exe".to_string(),
        "Steam.EXE".to_string(),
        "SquadGameServer.exe".to_string(),
        "squad_launcher.exe".to_string(),
    ];
    assert_eq!(check_processes(&procs), (true, true));
    assert!(is_squad_client_running(&procs));
    assert_eq!(kill_targets(&procs), vec![1, 4]);
    let none = vec!["steamwebhelper.exe".to_string()];
    assert_eq!(check_processes(&none), (false, false));
    assert_eq!(check_processes(&vec!["steam".to_string()]), (false, true));
    assert!(kill_targets(&none).is_empty());
}

#[test]
fn squad_command_strokes() {
    let s = console_strokes(SQUAD_COMMAND);
    assert_eq!(s.len(), 16);
    assert_eq!(s[0], KeyStroke { vk: 0x43, shift: true });
    assert_eq!(s[1], KeyStroke { vk: 0x52, shift: false });
    assert_eq!(s[11], KeyStroke { vk: 0x20, shift: false });
    assert_eq!(s[12], KeyStroke { vk: 0x31, shift: false });
    assert_eq!(console_strokes("a-B"), vec![KeyStroke { vk: 0x41, shift: false }, KeyStroke { vk: 0x42, shift: true }]);
}

#[test]
fn shutdown_scheduler() {
    assert_eq!(parse_shutdown_time("23:05"), Some((23, 5)));
    assert_eq!(parse_shutdown_time("23"), None);
    assert_eq!(parse_shutdown_time("x:05"), None);
    assert_eq!(shutdown_tick(Some(3), None, 1, 1, 9), (None, false));
    assert_eq!(shutdown_tick(None, Some("bad"), 1, 1, 9), (None, false));
    assert_eq!(shutdown_tick(None, Some("22:30"), 22, 30, 9), (Some(9), true));
    assert_eq!(shutdown_tick(Some(9), Some("22:30"), 22, 30, 9), (Some(9), false));
    assert_eq!(shutdown_tick(Some(8), Some("22:30"), 22, 30, 9), (Some(9), true));
    assert_eq!(shutdown_tick(Some(8), Some("22:30"), 22, 31, 9), (Some(8), false));
}

#[test]
fn health_and_delays() {
    assert_eq!(health_step(0, true), (1, false));
    assert_eq!(health_step(1, true), (2, true));
    assert_eq!(health_step(health_step(0, false).0, true), (1, false));
    assert_eq!(health_step(255, true), (255, true));
    assert_eq!(health_step(7, false), (0, false));
    let mut c = Config::default();
    c.game_launch_delay = 0;
    assert_eq!(join_delay_secs(&c), 60);
    c.game_launch_delay = 3;
    assert_eq!(join_delay_secs(&c), 180);
    c.startup_wait_minutes = 0;
    assert_eq!(autostart_delay_secs(&c), 5);
    c.startup_wait_minutes = 2;
    assert_eq!(autostart_delay_secs(&c), 120);
}

#[test]
fn after_seed_prompts() {
    assert!(after_seed_prompt(AfterSeedAction::Nothing, false).is_none());
    let p = after_seed_prompt(AfterSeedAction::Shutdown, false).unwrap();
    assert_eq!(p.message, "Завершение Работы");
    assert_eq!(p.auto_proceed_secs, Some(60));
    let p = after_seed_prompt(AfterSeedAction::CloseAndExit, true).unwrap();
    assert_eq!(p.message, "Закрыть игру и Выйти");
    assert_eq!(p.auto_proceed_secs, None);
}

#[test]
fn log_lines() {
    assert_eq!(classify_log_line(restore_toast_message()), LogLine::RestoreToast);
    assert_eq!(classify_log_line("\u{0}other"), LogLine::Control);
    assert_eq!(classify_log_line("hello"), LogLine::Text);
    assert_eq!(classify_log_line(""), LogLine::Text);
}

#[test]
fn join_flow() {
    let (f, a, n) = JoinFlow::new(120);
    assert_eq!(a, JoinAction::OpenGame);
    assert_eq!(n, vec![JoinNotice::Launching]);
    let (f, a, _) = f.step(JoinEvent::Opened, false);
    assert_eq!(a, JoinAction::Sleep(5));
    let (f, a, _) = f.step(JoinEvent::Slept, false);
    assert_eq!(a, JoinAction::CheckSquad);
    let (f, a, _) = f.step(JoinEvent::SquadRunning(false), false);
    assert_eq!(a, JoinAction::Sleep(5));
    let (f, _, _) = f.step(JoinEvent::Slept, false);
    let (f, a, n) = f.step(JoinEvent::SquadRunning(true), false);
    assert_eq!(a, JoinAction::Sleep(120));
    assert_eq!(n, vec![JoinNotice::Loading]);
    let (f, a, _) = f.step(JoinEvent::Slept, false);
    assert_eq!(a, JoinAction::RequestJoinUrl);
    let (f, a, n) = f.step(JoinEvent::JoinUrl(Some("steam://x".to_string())), false);
    assert_eq!(a, JoinAction::OpenUrl("steam://x".to_string()));
    assert_eq!(n, vec![JoinNotice::Opening]);
    let (_, a, _) = f.step(JoinEvent::Opened, false);
    assert_eq!(a, JoinAction::Finish);
}

#[test]
fn join_flow_gives_up_after_sixty_checks() {
    let (f, _, _) = JoinFlow::new(60);
    let (mut f, _, _) = f.step(JoinEvent::Opened, false);
    let mut checks = 0;
    loop {
        let (g, a, _) = f.step(JoinEvent::Slept, false);
        assert_eq!(a, JoinAction::CheckSquad);
        checks += 1;
        let (h, a, n) = g.step(JoinEvent::SquadRunning(false), false);
        if a == JoinAction::Finish {
            assert_eq!(n, vec![JoinNotice::NotStarted]);
            break;
        }
        f = h;
    }
    assert_eq!(checks, 60);
}

#[test]
fn join_flow_cancelled_while_waiting() {
    let (f, _, _) = JoinFlow::new(60);
    let (f, _, _) = f.step(JoinEvent::Opened, false);
    let (_, a, n) = f.step(JoinEvent::Slept, true);
    assert_eq!(a, JoinAction::Finish);
    assert!(n.is_empty());
}
