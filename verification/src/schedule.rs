//! Timing decisions of the window: the scheduled shutdown, the hub's health
//! indicator, start delays and the prompt after a run.
use vstd::prelude::*;
use crate::config::{AfterSeedAction, Config};
use crate::form::{lemma_pad2_parses, pad2};
use crate::text::{
    all_digits, decimal, is_digit, lemma_char_pos_concat, lemma_decimal, lemma_leading_zero,
    lemma_parse_decimal,
    chars_of, char_pos, lemma_char_pos, parse_unsigned, parse_unsigned_range, str_eq};

verus! {

/// `HH:MM` of a scheduled shutdown: the two numbers around the first `:`,
/// both of which must parse as `u32`.
pub open spec fn shutdown_time_of(s: Seq<char>) -> Option<(nat, nat)> {
    let p = char_pos(s, ':');
    if p >= s.len() {
        None
    } else {
        match (
            parse_unsigned(s.take(p as int), u32::MAX as nat),
            parse_unsigned(s.skip(p as int + 1), u32::MAX as nat),
        ) {
            (Some(h), Some(m)) => Some((h, m)),
            _ => None,
        }
    }
}

pub fn parse_shutdown_time(s: &str) -> (r: Option<(u32, u32)>)
    ensures
        match shutdown_time_of(s@) {
            Some((h, m)) => r == Some((h as u32, m as u32)),
            None => r is None,
        },
{
    let cs = chars_of(s);
    let mut p: usize = 0;
    while p < cs.len() && cs[p] != ':'
        invariant
            0 <= p <= cs@.len(),
            forall|k: int| 0 <= k < p ==> #[trigger] cs@[k] != ':',
        decreases cs@.len() - p,
    {
        p = p + 1;
    }
    proof {
        lemma_char_pos(cs@, ':', p as int);
    }
    if p == cs.len() {
        return None;
    }
    proof {
        assert(cs@.take(p as int) == cs@.subrange(0, p as int));
        assert(cs@.skip(p + 1) == cs@.subrange(p + 1, cs@.len() as int));
    }
    let h = parse_unsigned_range(&cs, 0, p, 0xffff_ffff);
    let m = parse_unsigned_range(&cs, p + 1, cs.len(), 0xffff_ffff);
    match (h, m) {
        (Some(h), Some(m)) => Some((h as u32, m as u32)),
        _ => None,
    }
}

/// One check of the shutdown scheduler, every half minute: with no schedule
/// the memory of the last shutdown day is dropped; an unreadable schedule
/// changes nothing; the computer is shut down when the clock shows the
/// scheduled hour and minute and it was not shut down by it that day.
/// Gives the day remembered next and whether to shut down now.
pub open spec fn shutdown_decision(
    last_fired: Option<u64>,
    scheduled: Option<Seq<char>>,
    hour: u32,
    minute: u32,
    today: u64,
) -> (Option<u64>, bool) {
    match scheduled {
        None => (None, false),
        Some(s) => match shutdown_time_of(s) {
            None => (last_fired, false),
            Some((h, m)) => if hour == h && minute == m && last_fired != Some(today) {
                (Some(today), true)
            } else {
                (last_fired, false)
            },
        },
    }
}

/// The computer is shut down exactly when a readable schedule names the
/// clock's hour and minute, both of them, and it was not shut down by the
/// schedule that day; the day of that shutdown is remembered.
pub proof fn lemma_shutdown_only_at_time(
    last_fired: Option<u64>,
    s: Seq<char>,
    hour: u32,
    minute: u32,
    today: u64,
)
    ensures
        shutdown_decision(last_fired, Some(s), hour, minute, today).1 == (shutdown_time_of(s)
            == Some((hour as nat, minute as nat)) && last_fired != Some(today)),
        shutdown_decision(last_fired, Some(s), hour, minute, today).0 == (if shutdown_decision(
            last_fired,
            Some(s),
            hour,
            minute,
            today,
        ).1 {
            Some(today)
        } else {
            last_fired
        }),
        !shutdown_decision(last_fired, None, hour, minute, today).1,
{
}

pub fn shutdown_tick(
    last_fired: Option<u64>,
    scheduled: Option<&str>,
    hour: u32,
    minute: u32,
    today: u64,
) -> (r: (Option<u64>, bool))
    ensures
        r == shutdown_decision(
            last_fired,
            match scheduled {
                Some(s) => Some(s@),
                None => None,
            },
            hour,
            minute,
            today,
        ),
        r.1 ==> (scheduled matches Some(s) && shutdown_time_of(s@) == Some((hour as nat, minute as nat))),
        r.1 ==> r.0 == Some(today) && last_fired != Some(today),
{
    match scheduled {
        None => (None, false),
        Some(s) => match parse_shutdown_time(s) {
            None => (last_fired, false),
            Some((h, m)) => {
                let fired_today = match last_fired {
                    Some(d) => d == today,
                    None => false,
                };
                if hour == h && minute == m && !fired_today {
                    (Some(today), true)
                } else {
                    (last_fired, false)
                }
            },
        },
    }
}

/// The number of answers in a row before the indicator shows the hub as up.
pub const HEALTH_OK_AFTER: u8 = 2;

/// One health check of the hub: the count of answers in a row (kept from
/// overflowing) and whether the indicator shows the hub as up, which takes
/// two answers in a row.
pub open spec fn health_next(consecutive_ok: u8, ok: bool) -> (u8, bool) {
    let c: u8 = if !ok {
        0
    } else if consecutive_ok == 255 {
        255
    } else {
        (consecutive_ok + 1) as u8
    };
    (c, c >= HEALTH_OK_AFTER)
}

/// The indicator shows the hub as up exactly when the last two checks
/// answered: after any count, two checks give `a && b`; from the start, one
/// check is not enough.
pub proof fn lemma_health_needs_two(consecutive_ok: u8, a: bool, b: bool)
    ensures
        health_next(health_next(consecutive_ok, a).0, b).1 == (a && b),
        !health_next(0, b).1,
{
}

/// One health check of the hub, as `health_next` states.
pub fn health_step(consecutive_ok: u8, ok: bool) -> (r: (u8, bool))
    ensures
        r == health_next(consecutive_ok, ok),
{
    let c = if ok {
        if consecutive_ok == 255 {
            255
        } else {
            consecutive_ok + 1
        }
    } else {
        0
    };
    (c, c >= HEALTH_OK_AFTER)
}

/// Seconds to wait for the game's main menu before joining a server from
/// the window: the launch delay, at least one minute.
pub fn join_delay_secs(cfg: &Config) -> (r: u64)
    ensures
        r == (if cfg.game_launch_delay * 60 >= 60 {
            cfg.game_launch_delay * 60
        } else {
            60
        }),
{
    let d = (cfg.game_launch_delay as u64) * 60;
    if d >= 60 {
        d
    } else {
        60
    }
}

/// Seconds to wait before an automatic start: the startup wait, at least
/// five seconds.
pub fn autostart_delay_secs(cfg: &Config) -> (r: u64)
    ensures
        r == (if cfg.startup_wait_minutes * 60 >= 5 {
            cfg.startup_wait_minutes * 60
        } else {
            5
        }),
{
    let d = (cfg.startup_wait_minutes as u64) * 60;
    if d >= 5 {
        d
    } else {
        5
    }
}

/// The prompt after a completed run: what it names, and after how many
/// seconds it proceeds by itself (none after a start forced outside the
/// time limit, when the user must confirm).
pub struct AfterSeedPrompt {
    pub message: &'static str,
    pub auto_proceed_secs: Option<u64>,
}

pub open spec fn prompt_message(a: AfterSeedAction) -> Option<Seq<char>> {
    match a {
        AfterSeedAction::Nothing => None,
        AfterSeedAction::CloseAndExit => Some("Закрыть игру и Выйти"@),
        AfterSeedAction::Shutdown => Some("Завершение Работы"@),
        AfterSeedAction::Sleep => Some("Спящий Режим"@),
    }
}

/// The prompt for `action` after a completed run; none when there is
/// nothing to do.
pub fn after_seed_prompt(action: AfterSeedAction, forced_after_hours: bool) -> (r: Option<
    AfterSeedPrompt,
>)
    ensures
        match r {
            None => prompt_message(action) is None,
            Some(p) => prompt_message(action) == Some(p.message@) && p.auto_proceed_secs == (if forced_after_hours {
                None
            } else {
                Some(60u64)
            }),
        },
{
    let message = match action {
        AfterSeedAction::Nothing => return None,
        AfterSeedAction::CloseAndExit => "Закрыть игру и Выйти",
        AfterSeedAction::Shutdown => "Завершение Работы",
        AfterSeedAction::Sleep => "Спящий Режим",
    };
    Some(
        AfterSeedPrompt {
            message,
            auto_proceed_secs: if forced_after_hours {
                None
            } else {
                Some(60)
            },
        },
    )
}

/// How the log window treats a message.
#[derive(Clone, Copy, Debug, PartialEq, Eq, Structural)]
pub enum LogLine {
    /// The control message that shows the "settings restored" toast.
    RestoreToast,
    /// Another control message (starting with NUL): ignored.
    Control,
    /// Text to show and to append to the log file.
    Text,
}

pub open spec fn log_line_of(raw: Seq<char>) -> LogLine {
    if raw.len() > 0 && raw[0] == '\u{0}' {
        if raw == "\u{0}restore_toast"@ {
            LogLine::RestoreToast
        } else {
            LogLine::Control
        }
    } else {
        LogLine::Text
    }
}

/// The control message that asks for the "settings restored" toast.
pub fn restore_toast_message() -> (r: &'static str)
    ensures
        log_line_of(r@) == LogLine::RestoreToast,
{
    proof {
        reveal_strlit("\u{0}restore_toast");
    }
    "\u{0}restore_toast"
}

pub fn classify_log_line(raw: &str) -> (r: LogLine)
    ensures
        r == log_line_of(raw@),
{
    let cs = chars_of(raw);
    if cs.len() > 0 && cs[0] == '\u{0}' {
        if str_eq(raw, "\u{0}restore_toast") {
            LogLine::RestoreToast
        } else {
            LogLine::Control
        }
    } else {
        LogLine::Text
    }
}


/// `{:02}` of a number that is not negative parses back as a `u32`.
proof fn lemma_pad2_unsigned(x: i32)
    requires
        x >= 0,
    ensures
        parse_unsigned(pad2(x as int), u32::MAX as nat) == Some(x as nat),
{
    let p = pad2(x as int);
    lemma_decimal(x as nat);
    if x < 10 {
        let d = decimal(x as nat);
        lemma_leading_zero(d);
        assert forall|k: int| 0 <= k < p.len() implies is_digit(#[trigger] p[k]) by {
            if k > 0 {
                assert(p[k] == d[k - 1]);
            }
        }
        assert(all_digits(p));
        assert(p[0] == '0');
    } else {
        lemma_parse_decimal(x as nat, u32::MAX as nat);
    }
}

/// The scheduler reads a shutdown time set in the form as the same hour and
/// minute (for the hours and minutes a clock has, which are not negative).
pub proof fn lemma_scheduler_reads_form(hour: i32, minute: i32)
    requires
        hour >= 0,
        minute >= 0,
    ensures
        shutdown_time_of(pad2(hour as int) + seq![':'] + pad2(minute as int)) == Some(
            (hour as nat, minute as nat),
        ),
{
    lemma_pad2_parses(hour);
    lemma_pad2_unsigned(hour);
    lemma_pad2_unsigned(minute);
    lemma_char_pos_concat(pad2(hour as int), ':', pad2(minute as int));
}

/// The computer is shut down at most once a day: right after a shutdown,
/// the next check on the same day does not shut it down again.
pub proof fn lemma_shutdown_once_a_day(
    last_fired: Option<u64>,
    scheduled: Option<Seq<char>>,
    hour: u32,
    minute: u32,
    today: u64,
    hour2: u32,
    minute2: u32,
)
    requires
        shutdown_decision(last_fired, scheduled, hour, minute, today).1,
    ensures
        !shutdown_decision(
            shutdown_decision(last_fired, scheduled, hour, minute, today).0,
            scheduled,
            hour2,
            minute2,
            today,
        ).1,
{
}

} // verus!
