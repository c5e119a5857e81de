use seed_helper::config::Config;
use seed_helper::seeder::{time_allows, RunAction, RunEvent, RunNotice, RunPhase, SeedRun};
use seed_helper::server_seed::{SeedResult, ServerAction, ServerEvent, ServerNotice, ServerPhase, ServerSeeder};

fn run_until_servers(cfg: &Config) -> SeedRun {
    let (run, a) = SeedRun::new(cfg);
    assert_eq!(a, RunAction::CheckTimeLimit);
    let (run, a, _) = run.step(RunEvent::TimeLimit(true), false);
    assert_eq!(a, RunAction::Ping);
    let (run, a, n) = run.step(RunEvent::Pinged(true), false);
    assert_eq!(a, RunAction::Validate);
    assert_eq!(n, vec![RunNotice::NetworkUp]);
    let (run, a, _) = run.step(RunEvent::Validated(true), false);
    assert_eq!(a, RunAction::FetchOrder);
    let (run, a, n) = run.step(RunEvent::Order(Some(vec![3, 1])), false);
    assert_eq!(a, RunAction::Launch);
    assert_eq!(n, vec![RunNotice::RemoteOrder]);
    let (run, a, _) = run.step(RunEvent::Launched(true), false);
    assert_eq!(a, RunAction::SeedServer(3));
    run
}

#[test]
fn run_seeds_servers_in_order_and_closes_game() {
    let cfg = Config::default();
    let run = run_until_servers(&cfg);
    let (run, a, n) = run.step(RunEvent::Seeded(SeedResult::Failed), false);
    assert_eq!(a, RunAction::SeedServer(1));
    assert_eq!(n, vec![RunNotice::ServerFailed { server: 3 }]);
    let (run, a, n) = run.step(RunEvent::Seeded(SeedResult::Success), false);
    assert_eq!(a, RunAction::KillSquad);
    assert_eq!(n, vec![RunNotice::AllDone]);
    let (run, a, _) = run.step(RunEvent::Killed, false);
    assert_eq!(a, RunAction::Finish(true));
    assert_eq!(run.phase, RunPhase::Finished { completed: true });
}

#[test]
fn restart_relaunches_same_server() {
    let cfg = Config::default();
    let run = run_until_servers(&cfg);
    let (run, a, n) = run.step(RunEvent::Seeded(SeedResult::Restart), false);
    assert_eq!(a, RunAction::Launch);
    assert_eq!(n, vec![RunNotice::Relaunching { server: 3 }]);
    let (run, a, _) = run.step(RunEvent::Launched(true), false);
    assert_eq!(a, RunAction::SeedServer(3));
    let (_run, a, n) = run.step(RunEvent::Seeded(SeedResult::Cancelled), true);
    assert_eq!(a, RunAction::Finish(false));
    assert_eq!(n, vec![RunNotice::Stopped]);
}

#[test]
fn stop_after_server_ends_run_in_eco_mode() {
    let mut cfg = Config::default();
    cfg.eco_mode = true;
    cfg.stop_after_server = 3;
    let run = run_until_servers(&cfg);
    let (run, a, n) = run.step(RunEvent::Seeded(SeedResult::Success), false);
    assert_eq!(a, RunAction::RestoreFps);
    assert_eq!(n, vec![RunNotice::StopServerReached { server: 3 }]);
    let (run, a, n) = run.step(RunEvent::Restored, false);
    assert_eq!(a, RunAction::KillSquad);
    assert_eq!(n, vec![RunNotice::AllDone]);
    let (_, a, _) = run.step(RunEvent::Killed, false);
    assert_eq!(a, RunAction::Finish(true));
}

#[test]
fn too_late_finishes_completed() {
    let (run, _) = SeedRun::new(&Config::default());
    let (_, a, n) = run.step(RunEvent::TimeLimit(false), false);
    assert_eq!(a, RunAction::Finish(true));
    assert_eq!(n, vec![RunNotice::TooLate]);
}

#[test]
fn network_gives_up_after_twenty_tries() {
    let (run, _) = SeedRun::new(&Config::default());
    let (mut run, mut a, _) = run.step(RunEvent::TimeLimit(true), false);
    let mut pings = 0;
    loop {
        match a {
            RunAction::Ping => {
                pings += 1;
                let r = run.step(RunEvent::Pinged(false), false);
                run = r.0;
                a = r.1;
                assert_eq!(a, RunAction::Sleep(15));
            }
            RunAction::Sleep(_) => {
                let r = run.step(RunEvent::Slept, false);
                run = r.0;
                a = r.1;
                if let RunAction::Finish(done) = a {
                    assert!(done);
                    assert_eq!(r.2, vec![RunNotice::NetworkGaveUp]);
                    break;
                }
            }
            other => panic!("unexpected {other:?}"),
        }
    }
    assert_eq!(pings, 20);
}

#[test]
fn stop_during_network_wait_is_not_completion() {
    let (run, _) = SeedRun::new(&Config::default());
    let (run, _, _) = run.step(RunEvent::TimeLimit(true), false);
    let (run, _, _) = run.step(RunEvent::Pinged(false), false);
    let (_, a, _) = run.step(RunEvent::Slept, true);
    assert_eq!(a, RunAction::Finish(false));
}

#[test]
fn local_order_and_default_order() {
    let mut cfg = Config::default();
    cfg.seed_order_override = Some(vec![4, 2]);
    let (run, _) = SeedRun::new(&cfg);
    let (run, _, _) = run.step(RunEvent::TimeLimit(true), false);
    let (run, _, _) = run.step(RunEvent::Pinged(true), false);
    let (run, a, n) = run.step(RunEvent::Validated(true), false);
    assert_eq!(a, RunAction::Launch);
    assert_eq!(n, vec![RunNotice::LocalOrder]);
    assert_eq!(run.order, vec![4, 2]);

    let (run, _) = SeedRun::new(&Config::default());
    let (run, _, _) = run.step(RunEvent::TimeLimit(true), false);
    let (run, _, _) = run.step(RunEvent::Pinged(true), false);
    let (run, _, _) = run.step(RunEvent::Validated(true), false);
    let (run, _, n) = run.step(RunEvent::Order(None), false);
    assert_eq!(n, vec![RunNotice::DefaultOrder]);
    assert_eq!(run.order, vec![1, 2, 3, 4]);
}

#[test]
fn failed_launch_in_eco_mode_restores_first() {
    let mut cfg = Config::default();
    cfg.eco_mode = true;
    let (run, _) = SeedRun::new(&cfg);
    let (run, _, _) = run.step(RunEvent::TimeLimit(true), false);
    let (run, _, _) = run.step(RunEvent::Pinged(true), false);
    let (run, _, _) = run.step(RunEvent::Validated(true), false);
    let (run, _, _) = run.step(RunEvent::Order(Some(vec![1])), false);
    let (run, a, n) = run.step(RunEvent::Launched(false), false);
    assert_eq!(a, RunAction::RestoreFps);
    assert_eq!(n, vec![RunNotice::LaunchFailed]);
    let (_, a, _) = run.step(RunEvent::Restored, false);
    assert_eq!(a, RunAction::Finish(true));
}

#[test]
fn invalid_config_ends_run() {
    let (run, _) = SeedRun::new(&Config::default());
    let (run, _, _) = run.step(RunEvent::TimeLimit(true), false);
    let (run, _, _) = run.step(RunEvent::Pinged(true), false);
    let (_, a, n) = run.step(RunEvent::Validated(false), false);
    assert_eq!(a, RunAction::Finish(true));
    assert_eq!(n, vec![RunNotice::ConfigInvalid]);
}

#[test]
fn time_limit_arithmetic() {
    let mut cfg = Config::default();
    cfg.time_limit_hour = 17;
    cfg.time_limit_minute = 30;
    assert!(time_allows(&cfg, 17, 29));
    assert!(!time_allows(&cfg, 17, 30));
    assert!(!time_allows(&cfg, 23, 0));
    cfg.time_limit_enabled = false;
    assert!(time_allows(&cfg, 23, 59));
}

fn seeder(cfg: &Config) -> ServerSeeder {
    let (s, a, n) = ServerSeeder::new(2, cfg);
    assert_eq!(a, ServerAction::FetchStatus);
    assert_eq!(n, vec![ServerNotice::Seeding { server: 2 }]);
    s
}

#[test]
fn full_server_is_already_seeded() {
    let cfg = Config::default();
    let (s, a, n) = seeder(&cfg).step(ServerEvent::Status(Some(65)), false);
    assert_eq!(a, ServerAction::Finish(SeedResult::Success));
    assert_eq!(n, vec![ServerNotice::AlreadyFull { players: 65 }]);
    assert_eq!(s.phase, ServerPhase::Done { result: SeedResult::Success });
}

#[test]
fn server_join_confirm_monitor() {
    let mut cfg = Config::default();
    cfg.checkup_interval = 30;
    cfg.auto_create_squad = true;
    let (s, a, _) = seeder(&cfg).step(ServerEvent::Status(Some(10)), false);
    assert_eq!(a, ServerAction::RequestJoinUrl);
    let (s, a, n) = s.step(ServerEvent::JoinUrl(Some("steam://joinlobby/1".to_string())), false);
    assert_eq!(a, ServerAction::OpenUrl("steam://joinlobby/1".to_string()));
    assert_eq!(n, vec![ServerNotice::Connecting]);
    let (s, a, _) = s.step(ServerEvent::Opened(true), false);
    assert_eq!(a, ServerAction::Sleep(120));
    let (s, a, _) = s.step(ServerEvent::Slept, false);
    assert_eq!(a, ServerAction::CheckPlayer);
    let (s, a, _) = s.step(ServerEvent::Player(Some(true)), false);
    assert_eq!(a, ServerAction::CreateSquad);
    let (s, a, n) = s.step(ServerEvent::SquadDone, false);
    assert_eq!(a, ServerAction::Sleep(30));
    assert_eq!(n, vec![ServerNotice::Monitoring]);
    let (s, a, _) = s.step(ServerEvent::Slept, false);
    assert_eq!(a, ServerAction::CheckPlayer);
    let (s, a, _) = s.step(ServerEvent::Player(Some(true)), false);
    assert_eq!(a, ServerAction::FetchStatus);
    let (s, a, n) = s.step(ServerEvent::Status(Some(40)), false);
    assert_eq!(a, ServerAction::Sleep(30));
    assert_eq!(n, vec![ServerNotice::Progress { players: 40 }]);
    let (s, _, _) = s.step(ServerEvent::Slept, false);
    let (s, _, _) = s.step(ServerEvent::Player(Some(true)), false);
    let (_, a, n) = s.step(ServerEvent::Status(Some(70)), false);
    assert_eq!(a, ServerAction::Finish(SeedResult::Success));
    assert_eq!(n, vec![ServerNotice::Progress { players: 70 }, ServerNotice::Reached]);
}

#[test]
fn three_unconfirmed_attempts_fail() {
    let mut cfg = Config::default();
    cfg.eco_mode = true;
    cfg.render_toggle = true;
    let (s, _, _) = seeder(&cfg).step(ServerEvent::Status(Some(0)), false);
    let (s, _, _) = s.step(ServerEvent::JoinUrl(Some("u".to_string())), false);
    let (mut s, _, _) = s.step(ServerEvent::Opened(true), false);
    let r = s.step(ServerEvent::Slept, false);
    s = r.0;
    let mut checks = 1;
    loop {
        let (s2, a, n) = s.step(ServerEvent::Player(Some(false)), false);
        if a == ServerAction::Finish(SeedResult::Failed) {
            assert_eq!(n, vec![ServerNotice::NotConfirmed { attempt: 3 }, ServerNotice::NotConnected]);
            break;
        }
        assert_eq!(a, ServerAction::RequestJoinUrl);
        let (s3, a, _) = s2.step(ServerEvent::JoinUrl(None), false);
        assert_eq!(a, ServerAction::Sleep(120));
        let (s4, a, _) = s3.step(ServerEvent::Slept, false);
        assert_eq!(a, ServerAction::CheckPlayer);
        checks += 1;
        s = s4;
    }
    assert_eq!(checks, 3);
}

#[test]
fn lost_connection_restarts_and_stop_cancels() {
    let mut cfg = Config::default();
    cfg.auto_create_squad = false;
    let (s, _, _) = seeder(&cfg).step(ServerEvent::Status(Some(0)), false);
    let (s, _, _) = s.step(ServerEvent::JoinUrl(Some("u".to_string())), false);
    let (s, _, _) = s.step(ServerEvent::Opened(true), false);
    let (s, _, _) = s.step(ServerEvent::Slept, false);
    let (s, a, n) = s.step(ServerEvent::Player(Some(true)), false);
    assert_eq!(a, ServerAction::Sleep(60));
    assert_eq!(n, vec![ServerNotice::Monitoring]);
    let (s2, _, _) = s.step(ServerEvent::Slept, false);
    let (_, a, n) = s2.step(ServerEvent::Player(Some(false)), false);
    assert_eq!(a, ServerAction::Finish(SeedResult::Restart));
    assert_eq!(n, vec![ServerNotice::ConnectionLost]);
    let (_, a, _) = s.step(ServerEvent::Slept, true);
    assert_eq!(a, ServerAction::Finish(SeedResult::Cancelled));
}

#[test]
fn failed_requests_fail_the_server() {
    let cfg = Config::default();
    let (_, a, n) = seeder(&cfg).step(ServerEvent::Status(None), false);
    assert_eq!(a, ServerAction::Finish(SeedResult::Failed));
    assert_eq!(n, vec![ServerNotice::StatusFailed]);
    let (s, _, _) = seeder(&cfg).step(ServerEvent::Status(Some(1)), false);
    let (_, a, _) = s.step(ServerEvent::JoinUrl(None), false);
    assert_eq!(a, ServerAction::Finish(SeedResult::Failed));
}
