//! The settings as the settings form shows and reads them: labels,
//! comma-separated seed orders, optional numbers and `HH:MM` times.
use vstd::prelude::*;
use crate::config::{AfterSeedAction, Config};
use crate::text::{
    all_digits, is_digit, lemma_char_pos_concat, lemma_decimal, lemma_fields_join,
    lemma_leading_zero, lemma_parse_decimal, lemma_trim_digits, lemma_trim_nonempty, digits_value,
    chars_of, char_pos, decimal, decimal_of, digits_upto, fields, join_with, lemma_char_pos,
    parse_i32, parse_i32_range, parse_unsigned, parse_unsigned_range, push_all, push_str,
    str_eq, string_of, trim, trim_bounds,
};

verus! {

/// The label the form shows for an after-seed action.
pub open spec fn action_label(a: AfterSeedAction) -> Seq<char> {
    match a {
        AfterSeedAction::Nothing => "Ничего"@,
        AfterSeedAction::CloseAndExit => "Закрыть игру и Выйти (Рекомендуется)"@,
        AfterSeedAction::Shutdown => "Завершение Работы"@,
        AfterSeedAction::Sleep => "Спящий Режим"@,
    }
}

pub fn after_action_str(a: AfterSeedAction) -> (r: &'static str)
    ensures
        r@ == action_label(a),
{
    match a {
        AfterSeedAction::Nothing => "Ничего",
        AfterSeedAction::CloseAndExit => "Закрыть игру и Выйти (Рекомендуется)",
        AfterSeedAction::Shutdown => "Завершение Работы",
        AfterSeedAction::Sleep => "Спящий Режим",
    }
}

/// The action a label of the form stands for; unknown labels mean nothing.
pub open spec fn action_of_label(s: Seq<char>) -> AfterSeedAction {
    if s == "Закрыть игру и Выйти (Рекомендуется)"@ || s == "Закрыть игру и Выйти"@ {
        AfterSeedAction::CloseAndExit
    } else if s == "Завершение Работы"@ {
        AfterSeedAction::Shutdown
    } else if s == "Спящий Режим"@ {
        AfterSeedAction::Sleep
    } else {
        AfterSeedAction::Nothing
    }
}

pub fn parse_after_action(s: &str) -> (r: AfterSeedAction)
    ensures
        r == action_of_label(s@),
{
    if str_eq(s, "Закрыть игру и Выйти (Рекомендуется)") || str_eq(s, "Закрыть игру и Выйти") {
        AfterSeedAction::CloseAndExit
    } else if str_eq(s, "Завершение Работы") {
        AfterSeedAction::Shutdown
    } else if str_eq(s, "Спящий Режим") {
        AfterSeedAction::Sleep
    } else {
        AfterSeedAction::Nothing
    }
}

/// The text of a seed order: its numbers joined with commas; empty when
/// there is no local order.
pub open spec fn order_text(o: Option<Seq<u8>>) -> Seq<char> {
    match o {
        None => Seq::empty(),
        Some(v) => join_with(Seq::new(v.len(), |i: int| decimal(v[i] as nat)), ","@),
    }
}

pub fn seed_order_text(o: &Option<Vec<u8>>) -> (r: String)
    ensures
        r@ == order_text(
            match o {
                Some(v) => Some(v@),
                None => None,
            },
        ),
{
    let mut out: Vec<char> = Vec::new();
    match o {
        None => {},
        Some(v) => {
            let ghost parts = Seq::new(v@.len(), |i: int| decimal(v@[i] as nat));
            let mut i: usize = 0;
            while i < v.len()
                invariant
                    0 <= i <= v@.len(),
                    parts == Seq::new(v@.len(), |i: int| decimal(v@[i] as nat)),
                    out@ == join_with(parts.take(i as int), ","@),
                decreases v@.len() - i,
            {
                proof {
                    assert(parts.take(i + 1).drop_last() == parts.take(i as int));
                    assert(parts.take(i + 1).last() == decimal(v@[i as int] as nat));
                }
                if i > 0 {
                    push_str(&mut out, ",");
                } else {
                    assert(parts.take(0) =~= Seq::<Seq<char>>::empty());
                    assert(out@ =~= Seq::<char>::empty());
                }
                let d = decimal_of(v[i] as u64);
                push_all(&mut out, &d);
                i = i + 1;
                proof {
                    if i == 1 {
                        assert(out@ =~= parts.take(1)[0]);
                    }
                }
            }
            assert(parts.take(v@.len() as int) =~= parts);
        },
    }
    string_of(&out)
}

/// The numbers of the pieces that parse as a `u8` once trimmed, in order.
pub open spec fn parsed_pieces(ps: Seq<Seq<char>>) -> Seq<u8>
    decreases ps.len(),
{
    if ps.len() == 0 {
        Seq::empty()
    } else {
        let rest = parsed_pieces(ps.drop_first());
        match parse_unsigned(trim(ps[0]), 255) {
            Some(n) => seq![n as u8] + rest,
            None => rest,
        }
    }
}

/// A seed order typed in the form: none when the text is blank, otherwise
/// the comma-separated pieces that are numbers of at most 255.
pub open spec fn order_of_text(raw: Seq<char>) -> Option<Seq<u8>> {
    if trim(raw).len() == 0 {
        None
    } else {
        Some(parsed_pieces(fields(raw, ',')))
    }
}

pub fn parse_seed_order(raw: &str) -> (r: Option<Vec<u8>>)
    ensures
        match r {
            Some(v) => order_of_text(raw@) == Some(v@),
            None => order_of_text(raw@) is None,
        },
{
    let s = chars_of(raw);
    let (a, b) = trim_bounds(&s, 0, s.len());
    assert(s@.subrange(0, s@.len() as int) == s@);
    if a == b {
        return None;
    }
    assert(trim(s@).len() > 0);
    let mut out: Vec<u8> = Vec::new();
    let mut start: usize = 0;
    assert(s@.skip(0) == s@);
    loop
        invariant
            0 <= start <= s@.len(),
            s@ == raw@,
            trim(s@).len() > 0,
            parsed_pieces(fields(s@, ',')) == out@ + parsed_pieces(fields(s@.skip(start as int), ',')),
        decreases s@.len() - start,
    {
        let mut e = start;
        while e < s.len() && s[e] != ','
            invariant
                start <= e <= s@.len(),
                forall|k: int| start <= k < e ==> #[trigger] s@[k] != ',',
            decreases s@.len() - e,
        {
            e = e + 1;
        }
        let ghost t = s@.skip(start as int);
        proof {
            assert forall|k: int| 0 <= k < e - start implies #[trigger] t[k] != ',' by {
                assert(t[k] == s@[start + k]);
            }
            if e < s@.len() {
                assert(t[e - start] == s@[e as int]);
            }
            lemma_char_pos(t, ',', e - start);
            assert(t.take(e - start) == s@.subrange(start as int, e as int));
        }
        let (pa, pb) = trim_bounds(&s, start, e);
        let parsed = parse_unsigned_range(&s, pa, pb, 255);
        let ghost before = out@;
        let ghost piece = if e < s@.len() {
            t.take(e - start)
        } else {
            t
        };
        proof {
            assert(fields(t, ',')[0] == piece);
            assert(fields(t, ',').drop_first() == (if e < s@.len() {
                fields(t.skip(e - start + 1), ',')
            } else {
                Seq::<Seq<char>>::empty()
            }));
            if e == s@.len() {
                assert(t == s@.subrange(start as int, e as int));
            }
        }
        match parsed {
            Some(n) => {
                out.push(n as u8);
            },
            None => {},
        }
        if e == s.len() {
            proof {
                assert(parsed_pieces(Seq::<Seq<char>>::empty()) == Seq::<u8>::empty());
                assert(out@ == before + parsed_pieces(fields(t, ',')));
                assert(out@ + Seq::<u8>::empty() =~= out@);
            }
            return Some(out);
        }
        proof {
            assert(t.skip(e - start + 1) == s@.skip(e + 1));
            assert(out@ + parsed_pieces(fields(s@.skip(e + 1), ',')) =~= before + parsed_pieces(
                fields(t, ','),
            ));
        }
        start = e + 1;
    }
}

/// The text of an optional number: its digits, or nothing.
pub open spec fn number_text(v: Option<u32>) -> Seq<char> {
    match v {
        Some(n) => decimal(n as nat),
        None => Seq::empty(),
    }
}

pub fn optional_number_text(v: Option<u32>) -> (r: String)
    ensures
        r@ == number_text(v),
{
    match v {
        Some(n) => string_of(&decimal_of(n as u64)),
        None => string_of(&Vec::new()),
    }
}

/// An optional number typed in the form: the trimmed text parsed as a `u32`.
pub fn parse_optional_number(raw: &str) -> (r: Option<u32>)
    ensures
        match parse_unsigned(trim(raw@), u32::MAX as nat) {
            Some(n) => r == Some(n as u32),
            None => r is None,
        },
{
    let s = chars_of(raw);
    let (a, b) = trim_bounds(&s, 0, s.len());
    assert(s@.subrange(0, s@.len() as int) == s@);
    match parse_unsigned_range(&s, a, b, 0xffff_ffff) {
        Some(n) => Some(n as u32),
        None => None,
    }
}

/// The hour and the minute of a scheduled shutdown `HH:MM` as the form
/// shows them: the text before the first `:` and the rest after it, each
/// parsed as an `i32`, 0 where that fails.
pub open spec fn clock_fields(s: Seq<char>) -> (int, int) {
    let p = char_pos(s, ':');
    let h = match parse_i32(s.take(p as int)) {
        Some(n) => n,
        None => 0,
    };
    let m = if p < s.len() {
        match parse_i32(s.skip(p as int + 1)) {
            Some(n) => n,
            None => 0,
        }
    } else {
        0
    };
    (h, m)
}

pub fn shutdown_fields(s: &str) -> (r: (i32, i32))
    ensures
        (r.0 as int, r.1 as int) == clock_fields(s@),
{
    let cs = chars_of(s);
    let mut p: usize = 0;
    while p < cs.len() && cs[p] != ':'
        invariant
            0 <= p <= cs@.len(),
            forall|k: int| 0 <= k < p ==> #[trigger] cs@[k] != ':',
        decreases cs@.len() - p,
    {
        p = p + 1;
    }
    proof {
        lemma_char_pos(cs@, ':', p as int);
        assert(cs@.take(p as int) == cs@.subrange(0, p as int));
    }
    let h = match parse_i32_range(&cs, 0, p) {
        Some(n) => n,
        None => 0,
    };
    let m = if p < cs.len() {
        assert(cs@.skip(p + 1) == cs@.subrange(p + 1, cs@.len() as int));
        match parse_i32_range(&cs, p + 1, cs.len()) {
            Some(n) => n,
            None => 0,
        }
    } else {
        0
    };
    (h, m)
}

/// `n` as `{:02}` formats it: at least two characters, zero-padded after
/// the sign.
pub open spec fn pad2(n: int) -> Seq<char> {
    if n < 0 {
        seq!['-'] + decimal((-n) as nat)
    } else if n < 10 {
        seq!['0'] + decimal(n as nat)
    } else {
        decimal(n as nat)
    }
}

/// The `HH:MM` text of a scheduled shutdown set in the form.
pub fn shutdown_text(hour: i32, minute: i32) -> (r: String)
    ensures
        r@ == pad2(hour as int) + seq![':'] + pad2(minute as int),
{
    let mut v: Vec<char> = Vec::new();
    push_pad2(&mut v, hour);
    v.push(':');
    push_pad2(&mut v, minute);
    string_of(&v)
}

fn push_pad2(v: &mut Vec<char>, n: i32)
    ensures
        final(v)@ == old(v)@ + pad2(n as int),
{
    let w = n as i64;
    if w < 0 {
        v.push('-');
        let d = decimal_of((0 - w) as u64);
        push_all(v, &d);
        assert(final(v)@ =~= old(v)@ + pad2(n as int));
    } else {
        if w < 10 {
            v.push('0');
        }
        let d = decimal_of(w as u64);
        push_all(v, &d);
        assert(final(v)@ =~= old(v)@ + pad2(n as int));
    }
}


// ── laws: what the form shows, it reads back ─────────────────────────────────

pub open spec fn decimals(v: Seq<u8>) -> Seq<Seq<char>> {
    Seq::new(v.len(), |i: int| decimal(v[i] as nat))
}

proof fn lemma_parsed_decimals(v: Seq<u8>)
    ensures
        parsed_pieces(decimals(v)) == v,
    decreases v.len(),
{
    if v.len() > 0 {
        let d = decimals(v);
        lemma_decimal(v[0] as nat);
        lemma_trim_digits(d[0]);
        lemma_parse_decimal(v[0] as nat, 255);
        assert(d.drop_first() =~= decimals(v.drop_first()));
        lemma_parsed_decimals(v.drop_first());
        assert(seq![v[0]] + v.drop_first() =~= v);
    } else {
        assert(decimals(v) =~= Seq::<Seq<char>>::empty());
        assert(v =~= Seq::<u8>::empty());
    }
}

/// A local seed order survives the settings form: the text it is shown as
/// reads back as the same order.
pub proof fn lemma_seed_order_roundtrip(v: Seq<u8>)
    requires
        v.len() >= 1,
    ensures
        order_of_text(order_text(Some(v))) == Some(v),
{
    reveal_strlit(",");
    let d = decimals(v);
    assert(","@ == seq![',']);
    assert(Seq::new(v.len(), |i: int| decimal(v[i] as nat)) == d);
    assert forall|i: int, k: int| 0 <= i < d.len() && 0 <= k < d[i].len() implies #[trigger] d[i][k]
        != ',' by {
        lemma_decimal(v[i] as nat);
        assert(is_digit(d[i][k]));
    }
    lemma_fields_join(d, ',');
    lemma_parsed_decimals(v);
    let text = join_with(d, seq![',']);
    lemma_decimal(v[0] as nat);
    assert(is_digit(d[0][0]));
    if d.len() >= 2 {
        crate::text::lemma_join_front(d, seq![',']);
        assert(text[0] == d[0][0]);
    } else {
        assert(text == d[0]);
    }
    lemma_trim_nonempty(text);
}

/// An optional number survives the settings form.
pub proof fn lemma_number_roundtrip(v: Option<u32>)
    ensures
        parse_unsigned(trim(number_text(v)), u32::MAX as nat) == (match v {
            Some(n) => Some(n as nat),
            None => None::<nat>,
        }),
{
    match v {
        Some(n) => {
            lemma_decimal(n as nat);
            lemma_trim_digits(decimal(n as nat));
            lemma_parse_decimal(n as nat, u32::MAX as nat);
        },
        None => {
            assert(trim(Seq::<char>::empty()) == Seq::<char>::empty());
        },
    }
}

/// `{:02}` of an `i32` parses back as the same number.
pub proof fn lemma_pad2_parses(x: i32)
    ensures
        parse_i32(pad2(x as int)) == Some(x as int),
        forall|k: int| 0 <= k < pad2(x as int).len() ==> #[trigger] pad2(x as int)[k] != ':',
        pad2(x as int).len() > 0,
{
    let p = pad2(x as int);
    if x < 0 {
        let n = (-(x as int)) as nat;
        lemma_decimal(n);
        lemma_parse_decimal(n, 0x8000_0000);
        assert(p.drop_first() =~= decimal(n));
        assert forall|k: int| 0 <= k < p.len() implies #[trigger] p[k] != ':' by {
            if k > 0 {
                assert(p[k] == decimal(n)[k - 1]);
                assert(is_digit(decimal(n)[k - 1]));
            }
        }
    } else if x < 10 {
        let d = decimal(x as nat);
        lemma_decimal(x as nat);
        lemma_leading_zero(d);
        assert(p == seq!['0'] + d);
        assert forall|k: int| 0 <= k < p.len() implies is_digit(#[trigger] p[k]) by {
            if k > 0 {
                assert(p[k] == d[k - 1]);
            }
        }
        assert(all_digits(p));
        assert(p[0] == '0');
    } else {
        lemma_decimal(x as nat);
        lemma_parse_decimal(x as nat, 0x7fff_ffff);
        assert(is_digit(p[0]));
        assert forall|k: int| 0 <= k < p.len() implies #[trigger] p[k] != ':' by {
            assert(is_digit(p[k]));
        }
    }
}

/// A scheduled shutdown set in the form shows again as the same hour and minute.
pub proof fn lemma_shutdown_roundtrip(hour: i32, minute: i32)
    ensures
        clock_fields(pad2(hour as int) + seq![':'] + pad2(minute as int)) == (
            hour as int,
            minute as int,
        ),
{
    lemma_pad2_parses(hour);
    lemma_pad2_parses(minute);
    lemma_char_pos_concat(pad2(hour as int), ':', pad2(minute as int));
}


/// The label of each after-seed action reads back as that action.
pub proof fn lemma_action_label_roundtrip(a: AfterSeedAction)
    ensures
        action_of_label(action_label(a)) == a,
{
    reveal_strlit("Ничего");
    reveal_strlit("Закрыть игру и Выйти (Рекомендуется)");
    reveal_strlit("Закрыть игру и Выйти");
    reveal_strlit("Завершение Работы");
    reveal_strlit("Спящий Режим");
    assert("Ничего"@.len() == 6);
    assert("Закрыть игру и Выйти (Рекомендуется)"@.len() == 36);
    assert("Закрыть игру и Выйти"@.len() == 20);
    assert("Завершение Работы"@.len() == 17);
    assert("Спящий Режим"@.len() == 12);
}

// ── saving the form ──────────────────────────────────────────────────────────

/// The settings form as the window holds it: texts, whole numbers and ticks.
pub struct SettingsForm {
    pub preferred_fps: String,
    pub preferred_menu_fps: String,
    pub steam_id: String,
    pub seed_order_override: String,
    pub desired_players: i32,
    pub checkup_interval: i32,
    pub game_launch_delay: i32,
    pub time_limit_hour: i32,
    pub time_limit_minute: i32,
    pub time_limit_enabled: bool,
    pub startup_wait: i32,
    pub start_on_startup: bool,
    pub auto_start: bool,
    pub render_toggle: bool,
    pub auto_create_squad: bool,
    pub disable_sound: bool,
    pub delete_startup_video: bool,
    pub eco_mode: bool,
    pub after_action: String,
    pub stop_after: i32,
    pub shutdown_enabled: bool,
    pub shutdown_hour: i32,
    pub shutdown_minute: i32,
}

/// An optional number as the form reads it.
pub open spec fn number_of_text(raw: Seq<char>) -> Option<u32> {
    match parse_unsigned(trim(raw), u32::MAX as nat) {
        Some(n) => Some(n as u32),
        None => None,
    }
}

pub open spec fn order_view(o: Option<Vec<u8>>) -> Option<Seq<u8>> {
    match o {
        Some(v) => Some(v@),
        None => None,
    }
}

pub open spec fn text_view(o: Option<String>) -> Option<Seq<char>> {
    match o {
        Some(s) => Some(s@),
        None => None,
    }
}

/// The settings after saving form `f` over `old`: every field of the form is
/// read into its setting (whole numbers converted as `as` converts them), and
/// the settings the form does not show keep their values.
pub open spec fn form_saved(old: Config, f: SettingsForm, new: Config) -> bool {
    &&& new.preferred_fps == number_of_text(f.preferred_fps@)
    &&& new.preferred_menu_fps == number_of_text(f.preferred_menu_fps@)
    &&& new.steam_id@ == f.steam_id@
    &&& order_view(new.seed_order_override) == order_of_text(f.seed_order_override@)
    &&& new.desired_players == f.desired_players as u32
    &&& new.checkup_interval == f.checkup_interval as u64
    &&& new.game_launch_delay == f.game_launch_delay as u32
    &&& new.time_limit_hour == f.time_limit_hour as u32
    &&& new.time_limit_minute == f.time_limit_minute as u32
    &&& new.time_limit_enabled == f.time_limit_enabled
    &&& new.startup_wait_minutes == f.startup_wait as u32
    &&& new.start_on_startup == f.start_on_startup
    &&& new.auto_start_seeding == f.auto_start
    &&& new.render_toggle == f.render_toggle
    &&& new.auto_create_squad == f.auto_create_squad
    &&& new.disable_sound == f.disable_sound
    &&& new.delete_startup_video == f.delete_startup_video
    &&& new.eco_mode == f.eco_mode
    &&& new.after_seed_action == action_of_label(f.after_action@)
    &&& new.stop_after_server == f.stop_after as u8
    &&& text_view(new.scheduled_shutdown) == (if f.shutdown_enabled {
        Some(pad2(f.shutdown_hour as int) + seq![':'] + pad2(f.shutdown_minute as int))
    } else {
        None
    })
    &&& new.launcher_path@ == old.launcher_path@
    &&& new.preferred_res_x == old.preferred_res_x
    &&& new.preferred_res_y == old.preferred_res_y
    &&& new.advanced_mode == old.advanced_mode
    &&& new.theme == old.theme
}

/// Saves the form into the settings; `true` when starting with the computer
/// was switched on or off, so that the startup entry must change.
pub fn save_form(cfg: &mut Config, form: &SettingsForm) -> (startup_changed: bool)
    ensures
        form_saved(*old(cfg), *form, *final(cfg)),
        startup_changed == (old(cfg).start_on_startup != form.start_on_startup),
        final(cfg).steam_id@ == form.steam_id@,
        final(cfg).desired_players == form.desired_players as u32,
        final(cfg).checkup_interval == form.checkup_interval as u64,
        final(cfg).game_launch_delay == form.game_launch_delay as u32,
        final(cfg).time_limit_hour == form.time_limit_hour as u32,
        final(cfg).time_limit_minute == form.time_limit_minute as u32,
        final(cfg).time_limit_enabled == form.time_limit_enabled,
        final(cfg).startup_wait_minutes == form.startup_wait as u32,
        final(cfg).start_on_startup == form.start_on_startup,
        final(cfg).auto_start_seeding == form.auto_start,
        final(cfg).render_toggle == form.render_toggle,
        final(cfg).auto_create_squad == form.auto_create_squad,
        final(cfg).disable_sound == form.disable_sound,
        final(cfg).delete_startup_video == form.delete_startup_video,
        final(cfg).eco_mode == form.eco_mode,
        final(cfg).stop_after_server == form.stop_after as u8,
        final(cfg).scheduled_shutdown is Some == form.shutdown_enabled,
        final(cfg).preferred_res_x == old(cfg).preferred_res_x,
        final(cfg).preferred_res_y == old(cfg).preferred_res_y,
{
    let old_startup = cfg.start_on_startup;
    let seed_override = parse_seed_order(form.seed_order_override.as_str());
    cfg.preferred_fps = parse_optional_number(form.preferred_fps.as_str());
    cfg.preferred_menu_fps = parse_optional_number(form.preferred_menu_fps.as_str());
    cfg.steam_id = form.steam_id.clone();
    cfg.seed_order_override = seed_override;
    cfg.desired_players = form.desired_players as u32;
    cfg.checkup_interval = form.checkup_interval as u64;
    cfg.game_launch_delay = form.game_launch_delay as u32;
    cfg.time_limit_hour = form.time_limit_hour as u32;
    cfg.startup_wait_minutes = form.startup_wait as u32;
    cfg.start_on_startup = form.start_on_startup;
    cfg.auto_start_seeding = form.auto_start;
    cfg.render_toggle = form.render_toggle;
    cfg.auto_create_squad = form.auto_create_squad;
    cfg.disable_sound = form.disable_sound;
    cfg.delete_startup_video = form.delete_startup_video;
    cfg.eco_mode = form.eco_mode;
    cfg.time_limit_minute = form.time_limit_minute as u32;
    cfg.time_limit_enabled = form.time_limit_enabled;
    cfg.after_seed_action = parse_after_action(form.after_action.as_str());
    cfg.stop_after_server = form.stop_after as u8;
    cfg.scheduled_shutdown = if form.shutdown_enabled {
        Some(shutdown_text(form.shutdown_hour, form.shutdown_minute))
    } else {
        None
    };
    old_startup != cfg.start_on_startup
}

} // verus!
