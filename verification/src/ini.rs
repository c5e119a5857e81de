//! Rewriting keys of Squad's `GameUserSettings.ini` inside the section
//! `[/Script/Squad.SQGameUserSettings]`.
//!
//! The file is read as lines (after leading byte-order marks are dropped);
//! inside the target section a line whose trimmed text starts with `Key=`
//! is replaced by `Key=value`, or dropped when the key has no value; keys
//! with a value that the section did not hold are inserted where the
//! section ends. The lines are joined again with `'\n'`.
use vstd::prelude::*;
use crate::config::Config;
use crate::text::{
    is_ws, trim_end, trim_start, lemma_decimal, is_digit,
    chars_of, decimal, decimal_of, push_str, copy_range, join_lines, join_with_newlines, lines_of, push_all, range_equals,
    range_starts_with, split_lines, starts_with, string_of, trim, trim_bounds,
};

verus! {

/// One key to write: its name, and the value to write (`None`: remove it).
pub struct KeyRule {
    pub name: Seq<char>,
    pub value: Option<Seq<char>>,
}

/// An executable key rule.
pub struct IniKey {
    pub name: Vec<char>,
    pub value: Option<Vec<char>>,
}

impl View for IniKey {
    type V = KeyRule;

    open spec fn view(&self) -> KeyRule {
        KeyRule {
            name: self.name@,
            value: match self.value {
                Some(v) => Some(v@),
                None => None,
            },
        }
    }
}

pub open spec fn rules_view(rules: Seq<IniKey>) -> Seq<KeyRule> {
    Seq::new(rules.len(), |i: int| rules[i]@)
}

pub open spec fn section_header() -> Seq<char> {
    "[/Script/Squad.SQGameUserSettings]"@
}

/// `name=`
pub open spec fn key_prefix(r: KeyRule) -> Seq<char> {
    r.name.push('=')
}

/// `name=value`
pub open spec fn key_line(r: KeyRule) -> Seq<char> {
    r.name.push('=') + r.value.unwrap()
}

/// Index of the first rule whose `name=` begins `t`, or `rules.len()`.
pub open spec fn first_match(rules: Seq<KeyRule>, t: Seq<char>) -> nat
    decreases rules.len(),
{
    if rules.len() == 0 {
        0
    } else if starts_with(t, key_prefix(rules[0])) {
        0
    } else {
        1 + first_match(rules.drop_first(), t)
    }
}

/// State of the line-by-line pass.
pub struct Scan {
    /// The lines written so far.
    pub out: Seq<Seq<char>>,
    /// Whether the pass is inside the target section.
    pub in_section: bool,
    /// For each rule, whether a line of it was written in the section.
    pub found: Seq<bool>,
    /// Where the target section last ended, as an index into `out`.
    pub end: Option<nat>,
}

pub open spec fn scan_init(n: nat) -> Scan {
    Scan { out: Seq::empty(), in_section: false, found: Seq::new(n, |i: int| false), end: None }
}

/// One line of the pass.
pub open spec fn scan_step(rules: Seq<KeyRule>, st: Scan, line: Seq<char>) -> Scan {
    let t = trim(line);
    if t == section_header() {
        Scan { out: st.out.push(line), in_section: true, found: st.found, end: st.end }
    } else {
        let leaving = st.in_section && t.len() > 0 && t[0] == '[';
        let in_s = st.in_section && !leaving;
        let end = if leaving {
            Some(st.out.len())
        } else {
            st.end
        };
        let i = first_match(rules, t);
        if in_s && i < rules.len() {
            match rules[i as int].value {
                Some(v) => Scan {
                    out: st.out.push(key_line(rules[i as int])),
                    in_section: in_s,
                    found: st.found.update(i as int, true),
                    end,
                },
                None => Scan { out: st.out, in_section: in_s, found: st.found, end },
            }
        } else {
            Scan { out: st.out.push(line), in_section: in_s, found: st.found, end }
        }
    }
}

/// The pass over all of `lines`.
pub open spec fn scan(rules: Seq<KeyRule>, lines: Seq<Seq<char>>) -> Scan
    decreases lines.len(),
{
    if lines.len() == 0 {
        scan_init(rules.len())
    } else {
        scan_step(rules, scan(rules, lines.drop_last()), lines.last())
    }
}

/// The lines of the rules with a value that were not written, in rule order.
pub open spec fn missing_lines(rules: Seq<KeyRule>, found: Seq<bool>) -> Seq<Seq<char>>
    decreases rules.len(),
{
    if rules.len() == 0 {
        Seq::empty()
    } else {
        let i = rules.len() - 1;
        let rest = missing_lines(rules.drop_last(), found);
        if rules[i].value is Some && !found[i] {
            rest.push(key_line(rules[i]))
        } else {
            rest
        }
    }
}

/// The lines after the pass, with the missing key lines inserted where the
/// target section ended (the section last seen, or the end of the file).
pub open spec fn finish(rules: Seq<KeyRule>, st: Scan) -> Seq<Seq<char>> {
    let end = if st.in_section {
        Some(st.out.len())
    } else {
        st.end
    };
    match end {
        Some(idx) => st.out.take(idx as int) + missing_lines(rules, st.found) + st.out.skip(
            idx as int,
        ),
        None => st.out,
    }
}

/// `s` without its leading byte-order marks.
pub open spec fn strip_bom(s: Seq<char>) -> Seq<char>
    decreases s.len(),
{
    if s.len() > 0 && s[0] == '\u{feff}' {
        strip_bom(s.drop_first())
    } else {
        s
    }
}

/// The lines of the settings file after the rules were applied.
pub open spec fn rewritten_lines(content: Seq<char>, rules: Seq<KeyRule>) -> Seq<Seq<char>> {
    finish(rules, scan(rules, lines_of(strip_bom(content))))
}

/// The settings file after the rules were applied.
pub open spec fn rewrite_keys(content: Seq<char>, rules: Seq<KeyRule>) -> Seq<char> {
    join_lines(rewritten_lines(content, rules))
}

// ── executable pass ──────────────────────────────────────────────────────────

proof fn lemma_deep_chars(v: &Vec<char>)
    ensures
        v.deep_view() == v@,
{
    assert(v.deep_view() =~= v@);
}

proof fn lemma_first_match(rules: Seq<KeyRule>, t: Seq<char>, p: int)
    requires
        0 <= p <= rules.len(),
        forall|k: int| 0 <= k < p ==> !starts_with(t, key_prefix(#[trigger] rules[k])),
        p == rules.len() || starts_with(t, key_prefix(rules[p])),
    ensures
        first_match(rules, t) == p,
    decreases p,
{
    if p > 0 {
        let r = rules.drop_first();
        assert forall|k: int| 0 <= k < p - 1 implies !starts_with(t, key_prefix(#[trigger] r[k])) by {
            assert(r[k] == rules[k + 1]);
        }
        if p < rules.len() {
            assert(r[p - 1] == rules[p]);
        }
        lemma_first_match(r, t, p - 1);
    }
}

fn key_prefix_of(k: &IniKey) -> (v: Vec<char>)
    ensures
        v@ == key_prefix(k@),
{
    let mut v = copy_range(&k.name, 0, k.name.len());
    assert(k.name@.subrange(0, k.name@.len() as int) == k.name@);
    v.push('=');
    v
}

fn key_line_of(k: &IniKey) -> (v: Vec<char>)
    requires
        k.value is Some,
    ensures
        v@ == key_line(k@),
{
    let mut v = key_prefix_of(k);
    match &k.value {
        Some(val) => push_all(&mut v, val),
        None => {},
    }
    v
}

/// The index of the first rule whose `name=` begins `line[from..to]`.
fn find_rule(rules: &Vec<IniKey>, line: &Vec<char>, from: usize, to: usize) -> (i: usize)
    requires
        from <= to <= line@.len(),
    ensures
        i == first_match(rules_view(rules@), line@.subrange(from as int, to as int)),
{
    let ghost rv = rules_view(rules@);
    let ghost t = line@.subrange(from as int, to as int);
    let mut i: usize = 0;
    while i < rules.len()
        invariant
            0 <= i <= rules@.len(),
            rv == rules_view(rules@),
            t == line@.subrange(from as int, to as int),
            from <= to <= line@.len(),
            forall|k: int| 0 <= k < i ==> !starts_with(t, key_prefix(#[trigger] rv[k])),
        decreases rules@.len() - i,
    {
        let p = key_prefix_of(&rules[i]);
        if range_starts_with(line, from, to, &p) {
            proof {
                lemma_first_match(rv, t, i as int);
            }
            return i;
        }
        i = i + 1;
    }
    proof {
        lemma_first_match(rv, t, i as int);
    }
    i
}

pub open spec fn end_view(e: Option<usize>) -> Option<nat> {
    match e {
        Some(x) => Some(x as nat),
        None => None,
    }
}

proof fn lemma_scan_end_bound(rules: Seq<KeyRule>, lines: Seq<Seq<char>>)
    ensures
        scan(rules, lines).found.len() == rules.len(),
        scan(rules, lines).end matches Some(e) ==> e <= scan(rules, lines).out.len(),
    decreases lines.len(),
{
    if lines.len() > 0 {
        lemma_scan_end_bound(rules, lines.drop_last());
    }
}

/// Applies `rules` to the text `content`, as `rewrite_keys` states.
pub fn rewrite_with(content: &str, rules: &Vec<IniKey>) -> (r: String)
    ensures
        r@ == rewrite_keys(content@, rules_view(rules@)),
{
    let ghost rv = rules_view(rules@);
    let chars = chars_of(content);
    // leading byte-order marks
    let mut b: usize = 0;
    assert(chars@.skip(0) == chars@);
    while b < chars.len() && chars[b] == '\u{feff}'
        invariant
            0 <= b <= chars@.len(),
            strip_bom(chars@) == strip_bom(chars@.skip(b as int)),
        decreases chars@.len() - b,
    {
        proof {
            let w = chars@.skip(b as int);
            assert(w.drop_first() == chars@.skip(b + 1));
        }
        b = b + 1;
    }
    proof {
        let w = chars@.skip(b as int);
        if w.len() > 0 {
            assert(w[0] == chars@[b as int]);
        }
        assert(strip_bom(w) == w);
    }
    let lines = split_lines(&chars, b);
    let ghost ls = lines.deep_view();
    let section = chars_of("[/Script/Squad.SQGameUserSettings]");

    let mut out: Vec<Vec<char>> = Vec::new();
    let mut in_section = false;
    let mut found: Vec<bool> = Vec::new();
    let mut k: usize = 0;
    while k < rules.len()
        invariant
            0 <= k <= rules@.len(),
            found@ == Seq::new(k as nat, |i: int| false),
        decreases rules@.len() - k,
    {
        found.push(false);
        k = k + 1;
        assert(found@ =~= Seq::new(k as nat, |i: int| false));
    }
    let mut end: Option<usize> = None;
    let mut li: usize = 0;
    proof {
        assert(ls.take(0) =~= Seq::<Seq<char>>::empty());
        assert(out.deep_view() =~= Seq::<Seq<char>>::empty());
    }
    while li < lines.len()
        invariant
            0 <= li <= lines@.len(),
            ls == lines.deep_view(),
            section@ == section_header(),
            rv == rules_view(rules@),
            ({
                let st = scan(rv, ls.take(li as int));
                &&& st.out == out.deep_view()
                &&& st.in_section == in_section
                &&& st.found == found@
                &&& st.end == end_view(end)
            }),
            found@.len() == rules@.len(),
            end matches Some(e) ==> e <= out@.len(),
        decreases lines@.len() - li,
    {
        let line = &lines[li];
        let ghost st = scan(rv, ls.take(li as int));
        proof {
            lemma_deep_chars(line);
            assert(ls[li as int] == line@);
            assert(ls.take(li + 1).drop_last() == ls.take(li as int));
            assert(ls.take(li + 1).last() == line@);
        }
        let ghost t = trim(line@);
        let (ts, te) = trim_bounds(line, 0, line.len());
        proof {
            assert(line@.subrange(0, line@.len() as int) == line@);
        }
        let ghost before = out.deep_view();
        if range_equals(line, ts, te, &section) {
            let copy = copy_range(line, 0, line.len());
            proof {
                lemma_deep_chars(&copy);
            }
            out.push(copy);
            in_section = true;
            proof {
                assert(out.deep_view() =~= before.push(line@));
            }
        } else {
            let leaving = in_section && ts < te && line[ts] == '[';
            proof {
                if ts < te {
                    assert(t[0] == line@[ts as int]);
                }
            }
            if leaving {
                end = Some(out.len());
            }
            let in_s = in_section && !leaving;
            in_section = in_s;
            let i = find_rule(rules, line, ts, te);
            if in_s && i < rules.len() {
                assert(rv[i as int] == rules@[i as int]@);
                match &rules[i].value {
                    Some(_) => {
                        let kl = key_line_of(&rules[i]);
                        proof {
                            lemma_deep_chars(&kl);
                        }
                        out.push(kl);
                        found.set(i, true);
                        proof {
                            assert(out.deep_view() =~= before.push(key_line(rv[i as int])));
                        }
                    },
                    None => {},
                }
            } else {
                let copy = copy_range(line, 0, line.len());
                proof {
                    lemma_deep_chars(&copy);
                }
                out.push(copy);
                proof {
                    assert(out.deep_view() =~= before.push(line@));
                }
            }
        }
        li = li + 1;
    }
    proof {
        assert(ls.take(li as int) == ls);
        lemma_scan_end_bound(rv, ls);
    }
    let ghost st = scan(rv, ls);
    let idx_opt = if in_section {
        Some(out.len())
    } else {
        end
    };
    let result = match idx_opt {
        Some(idx) => {
            let mut res: Vec<Vec<char>> = Vec::new();
            let mut j: usize = 0;
            while j < idx
                invariant
                    0 <= j <= idx <= out@.len(),
                    res.deep_view() == out.deep_view().take(j as int),
                decreases idx - j,
            {
                let ghost before = res.deep_view();
                let copy = copy_range(&out[j], 0, out[j].len());
                proof {
                    assert(out[j as int]@.subrange(0, out[j as int]@.len() as int) == out[j as int]@);
                    lemma_deep_chars(&copy);
                    lemma_deep_chars(&out[j as int]);
                }
                res.push(copy);
                proof {
                    let d = out.deep_view();
                    assert(d[j as int] == copy@);
                    assert(d.take(j + 1) =~= d.take(j as int).push(d[j as int]));
                    assert(res.deep_view() =~= before.push(copy@));
                }
                j = j + 1;
            }
            // missing key lines, in rule order
            let mut m: usize = 0;
            while m < rules.len()
                invariant
                    0 <= m <= rules@.len(),
                    idx <= out@.len(),
                    rv == rules_view(rules@),
                    found@.len() == rules@.len(),
                    res.deep_view() == out.deep_view().take(idx as int) + missing_lines(
                        rv.take(m as int),
                        found@,
                    ),
                decreases rules@.len() - m,
            {
                let ghost before = res.deep_view();
                proof {
                    assert(rv.take(m + 1).drop_last() == rv.take(m as int));
                    assert(rv.take(m + 1)[m as int] == rules@[m as int]@);
                }
                if rules[m].value.is_some() && !found[m] {
                    let kl = key_line_of(&rules[m]);
                    proof {
                        lemma_deep_chars(&kl);
                    }
                    res.push(kl);
                    proof {
                        assert(res.deep_view() =~= before.push(kl@));
                    }
                }
                m = m + 1;
            }
            proof {
                assert(rv.take(rules@.len() as int) == rv);
            }
            let mut j2: usize = idx;
            while j2 < out.len()
                invariant
                    idx <= j2 <= out@.len(),
                    res.deep_view() == out.deep_view().take(idx as int) + missing_lines(rv, found@)
                        + out.deep_view().subrange(idx as int, j2 as int),
                decreases out@.len() - j2,
            {
                let ghost before = res.deep_view();
                let copy = copy_range(&out[j2], 0, out[j2].len());
                proof {
                    assert(out[j2 as int]@.subrange(0, out[j2 as int]@.len() as int)
                        == out[j2 as int]@);
                    lemma_deep_chars(&copy);
                    lemma_deep_chars(&out[j2 as int]);
                }
                res.push(copy);
                proof {
                    let d = out.deep_view();
                    assert(d[j2 as int] == copy@);
                    assert(d.subrange(idx as int, j2 + 1) =~= d.subrange(idx as int, j2 as int).push(
                        d[j2 as int],
                    ));
                    assert(res.deep_view() =~= before.push(copy@));
                }
                j2 = j2 + 1;
            }
            proof {
                assert(out.deep_view().subrange(idx as int, out@.len() as int)
                    == out.deep_view().skip(idx as int));
            }
            res
        },
        None => out,
    };
    let joined = join_with_newlines(&result);
    string_of(&joined)
}


// ── the two key sets ─────────────────────────────────────────────────────────

/// `n` as `{:.6}` renders it as a float: the digits of `n` and six zeros.
pub open spec fn fixed6(n: nat) -> Seq<char> {
    decimal(n) + ".000000"@
}

pub open spec fn fps_value(v: Option<u32>) -> Option<Seq<char>> {
    match v {
        Some(n) => Some(fixed6(n as nat)),
        None => None,
    }
}

pub open spec fn int_value(v: Option<u32>) -> Option<Seq<char>> {
    match v {
        Some(n) => Some(decimal(n as nat)),
        None => None,
    }
}

pub open spec fn rule(name: Seq<char>, value: Option<Seq<char>>) -> KeyRule {
    KeyRule { name, value }
}

/// The frame-rate keys: `FrameRateLimit`, then `MenuFrameRateLimit`.
pub open spec fn fps_rules(fps: Option<u32>, menu_fps: Option<u32>) -> Seq<KeyRule> {
    seq![
        rule("FrameRateLimit"@, fps_value(fps)),
        rule("MenuFrameRateLimit"@, fps_value(menu_fps)),
    ]
}

/// The resolution keys: eight integer keys that take the width or the
/// height, then the two recommendation keys, always reset to `-1.000000`.
pub open spec fn resolution_rules(res_x: Option<u32>, res_y: Option<u32>) -> Seq<KeyRule> {
    seq![
        rule("ResolutionSizeX"@, int_value(res_x)),
        rule("ResolutionSizeY"@, int_value(res_y)),
        rule("LastUserConfirmedResolutionSizeX"@, int_value(res_x)),
        rule("LastUserConfirmedResolutionSizeY"@, int_value(res_y)),
        rule("DesiredScreenWidth"@, int_value(res_x)),
        rule("DesiredScreenHeight"@, int_value(res_y)),
        rule("LastUserConfirmedDesiredScreenWidth"@, int_value(res_x)),
        rule("LastUserConfirmedDesiredScreenHeight"@, int_value(res_y)),
        rule("LastRecommendedScreenWidth"@, Some("-1.000000"@)),
        rule("LastRecommendedScreenHeight"@, Some("-1.000000"@)),
    ]
}

fn fixed6_of(n: u32) -> (v: Vec<char>)
    ensures
        v@ == fixed6(n as nat),
{
    let mut v = decimal_of(n as u64);
    push_str(&mut v, ".000000");
    v
}

fn fps_value_of(n: Option<u32>) -> (v: Option<Vec<char>>)
    ensures
        match v {
            Some(t) => fps_value(n) == Some(t@),
            None => fps_value(n) is None,
        },
{
    match n {
        Some(n) => Some(fixed6_of(n)),
        None => None,
    }
}

fn int_value_of(n: Option<u32>) -> (v: Option<Vec<char>>)
    ensures
        match v {
            Some(t) => int_value(n) == Some(t@),
            None => int_value(n) is None,
        },
{
    match n {
        Some(n) => Some(decimal_of(n as u64)),
        None => None,
    }
}

fn key_of(name: &str, value: Option<Vec<char>>) -> (k: IniKey)
    ensures
        k@.name == name@,
        match value {
            Some(t) => k@.value == Some(t@),
            None => k@.value is None,
        },
{
    IniKey { name: chars_of(name), value }
}

/// The settings file `content` with the frame-rate keys written or removed:
/// `None` removes a key (Squad then uses its own default), `Some(n)` writes
/// `n.000000`.
pub fn write_fps_keys(content: &str, fps: Option<u32>, menu_fps: Option<u32>) -> (r: String)
    ensures
        r@ == rewrite_keys(content@, fps_rules(fps, menu_fps)),
{
    let mut rules: Vec<IniKey> = Vec::new();
    rules.push(key_of("FrameRateLimit", fps_value_of(fps)));
    rules.push(key_of("MenuFrameRateLimit", fps_value_of(menu_fps)));
    assert(rules_view(rules@) =~= fps_rules(fps, menu_fps));
    rewrite_with(content, &rules)
}

/// The settings file `content` with the resolution keys written or removed
/// (`None` removes a key, `Some(n)` writes the integer), and the two
/// recommendation keys reset to `-1.000000`.
pub fn write_resolution_keys(content: &str, res_x: Option<u32>, res_y: Option<u32>) -> (r: String)
    ensures
        r@ == rewrite_keys(content@, resolution_rules(res_x, res_y)),
{
    let mut rules: Vec<IniKey> = Vec::new();
    rules.push(key_of("ResolutionSizeX", int_value_of(res_x)));
    rules.push(key_of("ResolutionSizeY", int_value_of(res_y)));
    rules.push(key_of("LastUserConfirmedResolutionSizeX", int_value_of(res_x)));
    rules.push(key_of("LastUserConfirmedResolutionSizeY", int_value_of(res_y)));
    rules.push(key_of("DesiredScreenWidth", int_value_of(res_x)));
    rules.push(key_of("DesiredScreenHeight", int_value_of(res_y)));
    rules.push(key_of("LastUserConfirmedDesiredScreenWidth", int_value_of(res_x)));
    rules.push(key_of("LastUserConfirmedDesiredScreenHeight", int_value_of(res_y)));
    rules.push(key_of("LastRecommendedScreenWidth", Some(chars_of("-1.000000"))));
    rules.push(key_of("LastRecommendedScreenHeight", Some(chars_of("-1.000000"))));
    assert(rules_view(rules@) =~= resolution_rules(res_x, res_y));
    rewrite_with(content, &rules)
}

/// The settings file `content` once the preferred frame rates and
/// resolution of `cfg` were written back, as the two writes in turn give it.
pub fn restore_ini_keys(cfg: &Config, content: &str) -> (r: String)
    ensures
        r@ == rewrite_keys(
            rewrite_keys(content@, fps_rules(cfg.preferred_fps, cfg.preferred_menu_fps)),
            resolution_rules(cfg.preferred_res_x, cfg.preferred_res_y),
        ),
{
    let after_fps = write_fps_keys(content, cfg.preferred_fps, cfg.preferred_menu_fps);
    write_resolution_keys(after_fps.as_str(), cfg.preferred_res_x, cfg.preferred_res_y)
}


// ── laws ─────────────────────────────────────────────────────────────────────

/// The lines of the settings file as they are read (byte-order marks dropped).
pub open spec fn file_lines(content: Seq<char>) -> Seq<Seq<char>> {
    lines_of(strip_bom(content))
}

/// Whether some line is the target section's header.
pub open spec fn has_section(ls: Seq<Seq<char>>) -> bool {
    exists|k: int| 0 <= k < ls.len() && trim(#[trigger] ls[k]) == section_header()
}

proof fn lemma_scan_without_section(rules: Seq<KeyRule>, ls: Seq<Seq<char>>)
    requires
        !has_section(ls),
    ensures
        scan(rules, ls).out == ls,
        !scan(rules, ls).in_section,
        scan(rules, ls).end is None,
    decreases ls.len(),
{
    if ls.len() > 0 {
        let p = ls.drop_last();
        assert(!has_section(p)) by {
            if has_section(p) {
                let k = choose|k: int| 0 <= k < p.len() && trim(#[trigger] p[k]) == section_header();
                assert(ls[k] == p[k]);
            }
        }
        lemma_scan_without_section(rules, p);
        assert(trim(ls[ls.len() - 1]) != section_header());
        assert(p.push(ls.last()) =~= ls);
    }
}

/// A file without the target section keeps all its lines: only byte-order
/// marks and line endings change.
pub proof fn lemma_no_section_keeps_lines(content: Seq<char>, rules: Seq<KeyRule>)
    requires
        !has_section(file_lines(content)),
    ensures
        rewritten_lines(content, rules) == file_lines(content),
{
    lemma_scan_without_section(rules, file_lines(content));
}

/// The key lines that were written stay, and a section once seen is either
/// still open or has an end.
proof fn lemma_scan_found(rules: Seq<KeyRule>, ls: Seq<Seq<char>>)
    ensures
        scan(rules, ls).found.len() == rules.len(),
        forall|i: int| 0 <= i < rules.len() && #[trigger] scan(rules, ls).found[i] ==> rules[i].value is Some
            && scan(rules, ls).out.contains(key_line(rules[i])),
        has_section(ls) ==> scan(rules, ls).in_section || scan(rules, ls).end is Some,
        scan(rules, ls).end matches Some(e) ==> e <= scan(rules, ls).out.len(),
    decreases ls.len(),
{
    if ls.len() > 0 {
        let p = ls.drop_last();
        lemma_scan_found(rules, p);
        let st = scan(rules, p);
        let nx = scan(rules, ls);
        assert(nx == scan_step(rules, st, ls.last()));
        assert forall|i: int| 0 <= i < rules.len() && #[trigger] nx.found[i] implies rules[i].value is Some
            && nx.out.contains(key_line(rules[i])) by {
            if st.found[i] {
                let j = choose|j: int| 0 <= j < st.out.len() && st.out[j] == key_line(rules[i]);
                assert(nx.out.len() >= st.out.len());
                assert(nx.out[j] == st.out[j]);
            } else {
                assert(nx.out.last() == key_line(rules[i]));
            }
        }
        if has_section(ls) && !has_section(p) {
            let k = choose|k: int| 0 <= k < ls.len() && trim(#[trigger] ls[k]) == section_header();
            if k < p.len() {
                assert(p[k] == ls[k]);
            }
        }
    }
}

/// The missing lines hold the line of every rule with a value whose line
/// was not written.
proof fn lemma_missing_has(rules: Seq<KeyRule>, found: Seq<bool>, i: int)
    requires
        0 <= i < rules.len(),
        rules[i].value is Some,
        !found[i],
    ensures
        missing_lines(rules, found).contains(key_line(rules[i])),
    decreases rules.len(),
{
    let n = rules.len() - 1;
    if i == n {
        assert(missing_lines(rules, found).last() == key_line(rules[i]));
    } else {
        let r = rules.drop_last();
        assert(r[i] == rules[i]);
        lemma_missing_has(r, found, i);
        let m = missing_lines(r, found);
        let j = choose|j: int| 0 <= j < m.len() && m[j] == key_line(rules[i]);
        if rules[n].value is Some && !found[n] {
            assert(missing_lines(rules, found)[j] == m[j]);
        }
    }
}

/// In a file with the target section, every key with a value ends up with
/// its line `Key=value`.
pub proof fn lemma_written_keys_present(content: Seq<char>, rules: Seq<KeyRule>, i: int)
    requires
        has_section(file_lines(content)),
        0 <= i < rules.len(),
        rules[i].value is Some,
    ensures
        rewritten_lines(content, rules).contains(key_line(rules[i])),
{
    let ls = file_lines(content);
    lemma_scan_found(rules, ls);
    let st = scan(rules, ls);
    let idx: int = if st.in_section {
        st.out.len() as int
    } else {
        st.end->0 as int
    };
    let miss = missing_lines(rules, st.found);
    let res = st.out.take(idx) + miss + st.out.skip(idx);
    assert(rewritten_lines(content, rules) == res);
    if st.found[i] {
        let j = choose|j: int| 0 <= j < st.out.len() && st.out[j] == key_line(rules[i]);
        if j < idx {
            assert(res[j] == st.out[j]);
        } else {
            assert(res[j + miss.len()] == st.out[j]);
        }
    } else {
        lemma_missing_has(rules, st.found, i);
        let j = choose|j: int| 0 <= j < miss.len() && miss[j] == key_line(rules[i]);
        assert(res[idx + j] == miss[j]);
    }
}


/// Key names that cannot be confused: each is non-empty, starts with neither
/// whitespace nor `[`, holds no `=`, and no two are equal; each value is
/// non-empty and does not end in whitespace.
pub open spec fn distinct_keys(rules: Seq<KeyRule>) -> bool {
    &&& forall|i: int| 0 <= i < rules.len() ==> #[trigger] rules[i].name.len() > 0 && !is_ws(
        rules[i].name[0],
    ) && rules[i].name[0] != '['
    &&& forall|i: int, k: int| 0 <= i < rules.len() && 0 <= k < rules[i].name.len() ==> #[trigger] rules[i].name[k]
        != '='
    &&& forall|i: int, j: int| 0 <= i < rules.len() && 0 <= j < rules.len() && i != j ==> #[trigger] rules[i].name
        != #[trigger] rules[j].name
    &&& forall|i: int| 0 <= i < rules.len() ==> (#[trigger] rules[i].value matches Some(v) ==> v.len()
        > 0 && !is_ws(v.last()))
}

/// A file that is the target section alone: its header, then lines none of
/// which starts another section.
pub open spec fn single_section(ls: Seq<Seq<char>>) -> bool {
    &&& ls.len() > 0
    &&& trim(ls[0]) == section_header()
    &&& forall|k: int| 1 <= k < ls.len() ==> trim(#[trigger] ls[k]) != section_header() && !(trim(
        ls[k],
    ).len() > 0 && trim(ls[k])[0] == '[')
}

/// A line that does not give a value to any key without one.
pub open spec fn free_of_removed(rules: Seq<KeyRule>, line: Seq<char>) -> bool {
    forall|i: int| 0 <= i < rules.len() && #[trigger] rules[i].value is None ==> !starts_with(
        trim(line),
        key_prefix(rules[i]),
    )
}

proof fn lemma_key_line_trimmed(r: KeyRule)
    requires
        r.name.len() > 0,
        !is_ws(r.name[0]),
        r.value matches Some(v) && v.len() > 0 && !is_ws(v.last()),
    ensures
        trim(key_line(r)) == key_line(r),
{
    let l = key_line(r);
    assert(l[0] == r.name[0]);
    assert(l.last() == r.value->0.last());
}

proof fn lemma_key_line_prefix(a: KeyRule, b: KeyRule)
    requires
        forall|k: int| 0 <= k < a.name.len() ==> #[trigger] a.name[k] != '=',
        forall|k: int| 0 <= k < b.name.len() ==> #[trigger] b.name[k] != '=',
        b.value is Some,
        starts_with(key_line(b), key_prefix(a)),
    ensures
        a.name == b.name,
{
    let la = a.name.len();
    let lb = b.name.len();
    let kl = key_line(b);
    let p = key_prefix(a);
    if la < lb {
        assert(kl.take(p.len() as int)[la as int] == p[la as int]);
        assert(kl[la as int] == b.name[la as int]);
    } else if la > lb {
        assert(kl.take(p.len() as int)[lb as int] == p[lb as int]);
        assert(kl[lb as int] == '=');
        assert(p[lb as int] == a.name[lb as int]);
    } else {
        assert forall|k: int| 0 <= k < la implies a.name[k] == b.name[k] by {
            assert(kl.take(p.len() as int)[k] == p[k]);
        }
        assert(a.name =~= b.name);
    }
}

proof fn lemma_first_match_none(rules: Seq<KeyRule>, t: Seq<char>, i: int)
    requires
        first_match(rules, t) >= rules.len(),
        0 <= i < rules.len(),
    ensures
        !starts_with(t, key_prefix(rules[i])),
    decreases rules.len(),
{
    if i > 0 {
        assert(rules.drop_first()[i - 1] == rules[i]);
        lemma_first_match_none(rules.drop_first(), t, i - 1);
    }
}

proof fn lemma_key_line_free(rules: Seq<KeyRule>, j: int)
    requires
        distinct_keys(rules),
        0 <= j < rules.len(),
        rules[j].value is Some,
    ensures
        free_of_removed(rules, key_line(rules[j])),
{
    let rj = rules[j];
    assert(rj.name.len() > 0);
    lemma_key_line_trimmed(rj);
    assert forall|i: int| 0 <= i < rules.len() && #[trigger] rules[i].value is None implies !starts_with(
        trim(key_line(rj)),
        key_prefix(rules[i]),
    ) by {
        if starts_with(key_line(rj), key_prefix(rules[i])) {
            assert forall|k: int| 0 <= k < rules[i].name.len() implies #[trigger] rules[i].name[k]
                != '=' by {}
            assert forall|k: int| 0 <= k < rj.name.len() implies #[trigger] rj.name[k] != '=' by {}
            lemma_key_line_prefix(rules[i], rj);
            assert(i != j);
        }
    }
}

proof fn lemma_header_free(rules: Seq<KeyRule>, line: Seq<char>)
    requires
        distinct_keys(rules),
        trim(line) == section_header(),
    ensures
        free_of_removed(rules, line),
{
    reveal_strlit("[/Script/Squad.SQGameUserSettings]");
    assert forall|i: int| 0 <= i < rules.len() && #[trigger] rules[i].value is None implies !starts_with(
        trim(line),
        key_prefix(rules[i]),
    ) by {
        assert(rules[i].name.len() > 0);
        if starts_with(trim(line), key_prefix(rules[i])) {
            assert(trim(line).take(key_prefix(rules[i]).len() as int)[0] == key_prefix(rules[i])[0]);
        }
    }
}

proof fn lemma_scan_single(rules: Seq<KeyRule>, ls: Seq<Seq<char>>)
    requires
        distinct_keys(rules),
        single_section(ls),
    ensures
        scan(rules, ls).in_section,
        forall|k: int| 0 <= k < scan(rules, ls).out.len() ==> free_of_removed(
            rules,
            #[trigger] scan(rules, ls).out[k],
        ),
    decreases ls.len(),
{
    let p = ls.drop_last();
    let st = scan(rules, p);
    let line = ls.last();
    if ls.len() == 1 {
        assert(p.len() == 0);
        lemma_header_free(rules, line);
        assert(scan(rules, ls).out =~= seq![line]);
    } else {
        assert(single_section(p)) by {
            assert(p[0] == ls[0]);
            assert forall|k: int| 1 <= k < p.len() implies trim(#[trigger] p[k]) != section_header()
                && !(trim(p[k]).len() > 0 && trim(p[k])[0] == '[') by {
                assert(p[k] == ls[k]);
            }
        }
        lemma_scan_single(rules, p);
        let t = trim(line);
        assert(t == trim(ls[ls.len() - 1]));
        let nx = scan(rules, ls);
        let i = first_match(rules, t);
        if i < rules.len() {
            if rules[i as int].value is Some {
                lemma_key_line_free(rules, i as int);
            }
        } else {
            assert forall|r: int| 0 <= r < rules.len() && #[trigger] rules[r].value is None implies !starts_with(
                trim(line),
                key_prefix(rules[r]),
            ) by {
                lemma_first_match_none(rules, t, r);
            }
        }
        assert forall|k: int| 0 <= k < nx.out.len() implies free_of_removed(rules, #[trigger] nx.out[k]) by {
            if k < st.out.len() {
                assert(nx.out[k] == st.out[k]);
            }
        }
    }
}

proof fn lemma_missing_free(rules: Seq<KeyRule>, found: Seq<bool>)
    requires
        distinct_keys(rules),
    ensures
        forall|k: int| 0 <= k < missing_lines(rules, found).len() ==> free_of_removed(
            rules,
            #[trigger] missing_lines(rules, found)[k],
        ),
{
    lemma_missing_free_upto(rules, found, rules.len() as int);
    assert(rules.take(rules.len() as int) == rules);
}

proof fn lemma_missing_free_upto(rules: Seq<KeyRule>, found: Seq<bool>, n: int)
    requires
        distinct_keys(rules),
        0 <= n <= rules.len(),
    ensures
        forall|k: int| 0 <= k < missing_lines(rules.take(n), found).len() ==> free_of_removed(
            rules,
            #[trigger] missing_lines(rules.take(n), found)[k],
        ),
    decreases n,
{
    if n > 0 {
        lemma_missing_free_upto(rules, found, n - 1);
        let r = rules.take(n);
        assert(r.drop_last() == rules.take(n - 1));
        assert(r[n - 1] == rules[n - 1]);
        if rules[n - 1].value is Some && !found[n - 1] {
            lemma_key_line_free(rules, n - 1);
            let m0 = missing_lines(rules.take(n - 1), found);
            assert forall|k: int| 0 <= k < missing_lines(r, found).len() implies free_of_removed(
                rules,
                #[trigger] missing_lines(r, found)[k],
            ) by {
                if k < m0.len() {
                    assert(missing_lines(r, found)[k] == m0[k]);
                }
            }
        }
    }
}

/// In a file that is the target section alone, a key written without a
/// value is gone: no line of the result gives it a value.
pub proof fn lemma_removed_keys_absent(content: Seq<char>, rules: Seq<KeyRule>, i: int, k: int)
    requires
        distinct_keys(rules),
        single_section(file_lines(content)),
        0 <= i < rules.len(),
        rules[i].value is None,
        0 <= k < rewritten_lines(content, rules).len(),
    ensures
        !starts_with(trim(rewritten_lines(content, rules)[k]), key_prefix(rules[i])),
{
    let ls = file_lines(content);
    lemma_scan_single(rules, ls);
    lemma_missing_free(rules, scan(rules, ls).found);
    let st = scan(rules, ls);
    let miss = missing_lines(rules, st.found);
    let res = rewritten_lines(content, rules);
    assert(res == st.out.take(st.out.len() as int) + miss + st.out.skip(st.out.len() as int));
    if k < st.out.len() {
        assert(res[k] == st.out[k]);
        assert(free_of_removed(rules, st.out[k]));
    } else {
        assert(res[k] == miss[k - st.out.len()]);
        assert(free_of_removed(rules, miss[k - st.out.len()]));
    }
}


proof fn lemma_values_ok(v: Option<u32>)
    ensures
        fps_value(v) matches Some(t) ==> t.len() > 0 && !is_ws(t.last()),
        int_value(v) matches Some(t) ==> t.len() > 0 && !is_ws(t.last()),
{
    reveal_strlit(".000000");
    if let Some(n) = v {
        lemma_decimal(n as nat);
        let d = decimal(n as nat);
        assert(is_digit(d[d.len() - 1]));
        assert(fixed6(n as nat).last() == ".000000"@.last());
    }
}

/// The frame-rate keys cannot be confused with each other.
pub proof fn lemma_fps_keys_distinct(fps: Option<u32>, menu_fps: Option<u32>)
    ensures
        distinct_keys(fps_rules(fps, menu_fps)),
{
    reveal_strlit("FrameRateLimit");
    reveal_strlit("MenuFrameRateLimit");
    lemma_values_ok(fps);
    lemma_values_ok(menu_fps);
    let r = fps_rules(fps, menu_fps);
    assert(r[0].name.len() != r[1].name.len());
}

/// The resolution keys cannot be confused with each other.
pub proof fn lemma_resolution_keys_distinct(res_x: Option<u32>, res_y: Option<u32>)
    ensures
        distinct_keys(resolution_rules(res_x, res_y)),
{
    reveal_strlit("ResolutionSizeX");
    reveal_strlit("ResolutionSizeY");
    reveal_strlit("LastUserConfirmedResolutionSizeX");
    reveal_strlit("LastUserConfirmedResolutionSizeY");
    reveal_strlit("DesiredScreenWidth");
    reveal_strlit("DesiredScreenHeight");
    reveal_strlit("LastUserConfirmedDesiredScreenWidth");
    reveal_strlit("LastUserConfirmedDesiredScreenHeight");
    reveal_strlit("LastRecommendedScreenWidth");
    reveal_strlit("LastRecommendedScreenHeight");
    reveal_strlit("-1.000000");
    lemma_values_ok(res_x);
    lemma_values_ok(res_y);
    let r = resolution_rules(res_x, res_y);
    assert(r[0].name[14] != r[1].name[14]);
    assert(r[2].name[31] != r[3].name[31]);
    assert forall|i: int| 0 <= i < r.len() implies #[trigger] r[i].name.len() > 0 && !is_ws(
        r[i].name[0],
    ) && r[i].name[0] != '[' by {}
    assert forall|i: int, k: int| 0 <= i < r.len() && 0 <= k < r[i].name.len() implies #[trigger] r[i].name[k]
        != '=' by {}
    assert forall|i: int, j: int| 0 <= i < r.len() && 0 <= j < r.len() && i != j implies #[trigger] r[i].name
        != #[trigger] r[j].name by {
        if r[i].name.len() == r[j].name.len() {
            if i == 0 || i == 1 {
                assert(r[i].name[14] != r[j].name[14]);
            } else {
                assert(r[i].name[31] != r[j].name[31]);
            }
        }
    }
    assert forall|i: int| 0 <= i < r.len() implies (#[trigger] r[i].value matches Some(v) ==> v.len()
        > 0 && !is_ws(v.last())) by {}
}


// ── rewriting twice ──────────────────────────────────────────────────────────

/// The pass continued from `st` over `ls`.
pub open spec fn scan_from(rules: Seq<KeyRule>, st: Scan, ls: Seq<Seq<char>>) -> Scan
    decreases ls.len(),
{
    if ls.len() == 0 {
        st
    } else {
        scan_step(rules, scan_from(rules, st, ls.drop_last()), ls.last())
    }
}

proof fn lemma_scan_concat(rules: Seq<KeyRule>, x: Seq<Seq<char>>, y: Seq<Seq<char>>)
    ensures
        scan(rules, x + y) == scan_from(rules, scan(rules, x), y),
    decreases y.len(),
{
    if y.len() == 0 {
        assert(x + y =~= x);
    } else {
        lemma_scan_concat(rules, x, y.drop_last());
        assert((x + y).drop_last() =~= x + y.drop_last());
        assert((x + y).last() == y.last());
    }
}

/// What the distinct keys give for a key line: it is its own trimmed text,
/// it is no section header, and its own rule is the first to match it.
proof fn lemma_key_line_facts(rules: Seq<KeyRule>, j: int)
    requires
        distinct_keys(rules),
        0 <= j < rules.len(),
        rules[j].value is Some,
    ensures
        trim(key_line(rules[j])) == key_line(rules[j]),
        key_line(rules[j]) != section_header(),
        !(key_line(rules[j]).len() > 0 && key_line(rules[j])[0] == '['),
        first_match(rules, key_line(rules[j])) == j,
{
    let rj = rules[j];
    let kl = key_line(rj);
    assert(rj.name.len() > 0);
    lemma_key_line_trimmed(rj);
    assert(kl[0] == rj.name[0]);
    reveal_strlit("[/Script/Squad.SQGameUserSettings]");
    assert(section_header()[0] == '[');
    assert forall|i: int| 0 <= i < j implies !starts_with(kl, key_prefix(#[trigger] rules[i])) by {
        if starts_with(kl, key_prefix(rules[i])) {
            assert forall|k: int| 0 <= k < rules[i].name.len() implies #[trigger] rules[i].name[k]
                != '=' by {}
            assert forall|k: int| 0 <= k < rj.name.len() implies #[trigger] rj.name[k] != '=' by {}
            lemma_key_line_prefix(rules[i], rj);
        }
    }
    assert(kl.take(key_prefix(rj).len() as int) =~= key_prefix(rj));
    lemma_first_match(rules, kl, j);
}

/// The pass reads its own output back unchanged: the lines it wrote lead it
/// through the same states.
proof fn lemma_scan_fixpoint(rules: Seq<KeyRule>, p: Seq<Seq<char>>)
    requires
        distinct_keys(rules),
    ensures
        scan(rules, scan(rules, p).out) == scan(rules, p),
    decreases p.len(),
{
    if p.len() == 0 {
        assert(scan(rules, p).out.len() == 0);
    } else {
        let q = p.drop_last();
        let l = p.last();
        lemma_scan_fixpoint(rules, q);
        let s1 = scan(rules, q);
        let s2 = scan(rules, p);
        assert(s2 == scan_step(rules, s1, l));
        let t = trim(l);
        let i = first_match(rules, t);
        let leaving = s1.in_section && t.len() > 0 && t[0] == '[';
        let in_s = s1.in_section && !leaving;
        if t != section_header() && in_s && i < rules.len() {
            if rules[i as int].value is Some {
                lemma_key_line_facts(rules, i as int);
                let kl = key_line(rules[i as int]);
                assert(s2.out == s1.out.push(kl));
                assert(s2.out.drop_last() == s1.out);
                assert(scan(rules, s2.out) == scan_step(rules, s1, kl));
            } else {
                assert(s2.out == s1.out);
                assert(s2 == s1);
            }
        } else {
            assert(s2.out == s1.out.push(l));
            assert(s2.out.drop_last() == s1.out);
            assert(scan(rules, s2.out) == scan_step(rules, s1, l));
        }
    }
}

/// Where the section was left for the last time: the state before the line
/// that left it, and the input lines from there on, which hold no header.
proof fn lemma_last_exit(rules: Seq<KeyRule>, p: Seq<Seq<char>>) -> (m: int)
    requires
        !scan(rules, p).in_section,
        scan(rules, p).end is Some,
    ensures
        0 <= m < p.len(),
        scan(rules, p.take(m)).in_section,
        scan(rules, p.take(m)).out.len() == scan(rules, p).end->0,
        scan(rules, p).out == scan(rules, p.take(m)).out + p.skip(m),
        scan(rules, p).found == scan(rules, p.take(m)).found,
        trim(p[m]).len() > 0 && trim(p[m])[0] == '[',
        forall|k: int| m <= k < p.len() ==> trim(#[trigger] p[k]) != section_header(),
    decreases p.len(),
{
    let q = p.drop_last();
    let l = p.last();
    let s1 = scan(rules, q);
    let s2 = scan(rules, p);
    assert(p.len() > 0) by {
        if p.len() == 0 {
            assert(s2.end is None);
        }
    }
    assert(s2 == scan_step(rules, s1, l));
    let t = trim(l);
    let leaving = s1.in_section && t.len() > 0 && t[0] == '[';
    if t != section_header() && leaving {
        let m = q.len() as int;
        assert(p.take(m) == q);
        assert(p.skip(m) =~= seq![l]);
        m
    } else {
        assert(t != section_header());
        assert(!s1.in_section);
        assert(s2.end == s1.end);
        assert(s2.out == s1.out.push(l));
        let m = lemma_last_exit(rules, q);
        assert(p.take(m) == q.take(m));
        assert(p.skip(m) =~= q.skip(m).push(l));
        assert(p[m] == q[m]);
        assert forall|k: int| m <= k < p.len() implies trim(#[trigger] p[k]) != section_header() by {
            if k < q.len() {
                assert(p[k] == q[k]);
            }
        }
        m
    }
}

/// Writing the missing key lines inside the open section keeps them and
/// marks their keys as written.
proof fn lemma_scan_missing(rules: Seq<KeyRule>, st: Scan, found: Seq<bool>, n: int)
    requires
        distinct_keys(rules),
        0 <= n <= rules.len(),
        st.in_section,
        st.found.len() == rules.len(),
        found.len() == rules.len(),
        forall|j: int| 0 <= j < rules.len() && #[trigger] found[j] ==> st.found[j],
    ensures
        scan_from(rules, st, missing_lines(rules.take(n), found)).in_section,
        scan_from(rules, st, missing_lines(rules.take(n), found)).out == st.out + missing_lines(
            rules.take(n),
            found,
        ),
        scan_from(rules, st, missing_lines(rules.take(n), found)).end == st.end,
        scan_from(rules, st, missing_lines(rules.take(n), found)).found.len() == rules.len(),
        forall|j: int| 0 <= j < rules.len() && #[trigger] st.found[j] ==> scan_from(
            rules,
            st,
            missing_lines(rules.take(n), found),
        ).found[j],
        forall|j: int| 0 <= j < n && rules[j].value is Some && !found[j] ==> #[trigger] scan_from(
            rules,
            st,
            missing_lines(rules.take(n), found),
        ).found[j],
    decreases n,
{
    let r = rules.take(n);
    if n == 0 {
        assert(missing_lines(r, found) == Seq::<Seq<char>>::empty());
        assert(st.out + Seq::<Seq<char>>::empty() =~= st.out);
    } else {
        lemma_scan_missing(rules, st, found, n - 1);
        assert(r.drop_last() == rules.take(n - 1));
        assert(r[n - 1] == rules[n - 1]);
        let m0 = missing_lines(rules.take(n - 1), found);
        let s0 = scan_from(rules, st, m0);
        if rules[n - 1].value is Some && !found[n - 1] {
            let kl = key_line(rules[n - 1]);
            let m1 = missing_lines(r, found);
            assert(m1 == m0.push(kl));
            assert(m1.drop_last() == m0);
            lemma_key_line_facts(rules, n - 1);
            let s1 = scan_from(rules, st, m1);
            assert(s1 == scan_step(rules, s0, kl));
            assert(s1.out == s0.out.push(kl));
            assert(st.out + m1 =~= (st.out + m0).push(kl));
        } else {
            assert(missing_lines(r, found) == m0);
        }
    }
}

/// Lines outside the target section, with no header among them, are kept.
proof fn lemma_scan_outside(rules: Seq<KeyRule>, st: Scan, ls: Seq<Seq<char>>)
    requires
        !st.in_section,
        forall|k: int| 0 <= k < ls.len() ==> trim(#[trigger] ls[k]) != section_header(),
    ensures
        scan_from(rules, st, ls) == (Scan { out: st.out + ls, ..st }),
    decreases ls.len(),
{
    if ls.len() == 0 {
        assert(st.out + ls =~= st.out);
    } else {
        let q = ls.drop_last();
        assert forall|k: int| 0 <= k < q.len() implies trim(#[trigger] q[k]) != section_header() by {
            assert(q[k] == ls[k]);
        }
        lemma_scan_outside(rules, st, q);
        assert(trim(ls[ls.len() - 1]) != section_header());
        assert(st.out + ls =~= (st.out + q).push(ls.last()));
    }
}

/// With every key that has a value written, nothing is missing.
proof fn lemma_nothing_missing(rules: Seq<KeyRule>, found: Seq<bool>)
    requires
        forall|j: int| 0 <= j < rules.len() && #[trigger] rules[j].value is Some ==> found[j],
    ensures
        missing_lines(rules, found) == Seq::<Seq<char>>::empty(),
    decreases rules.len(),
{
    if rules.len() > 0 {
        let r = rules.drop_last();
        assert forall|j: int| 0 <= j < r.len() && #[trigger] r[j].value is Some implies found[j] by {
            assert(r[j] == rules[j]);
        }
        lemma_nothing_missing(r, found);
    }
}

/// The rewritten lines, read by a second rewrite, come out unchanged.
proof fn lemma_rewritten_fixpoint(rules: Seq<KeyRule>, p: Seq<Seq<char>>)
    requires
        distinct_keys(rules),
    ensures
        finish(rules, scan(rules, finish(rules, scan(rules, p)))) == finish(rules, scan(rules, p)),
{
    let s = scan(rules, p);
    let l = finish(rules, s);
    lemma_scan_end_bound(rules, p);
    lemma_scan_fixpoint(rules, p);
    if s.in_section {
        let miss = missing_lines(rules, s.found);
        assert(s.out.take(s.out.len() as int) == s.out);
        assert(s.out.skip(s.out.len() as int) =~= Seq::<Seq<char>>::empty());
        assert(l =~= s.out + miss);
        lemma_scan_concat(rules, s.out, miss);
        assert(rules.take(rules.len() as int) == rules);
        lemma_scan_missing(rules, s, s.found, rules.len() as int);
        let s2 = scan(rules, l);
        assert forall|j: int| 0 <= j < rules.len() && #[trigger] rules[j].value is Some implies s2.found[j] by {
            if s.found[j] {
            } else {
            }
        }
        lemma_nothing_missing(rules, s2.found);
        assert(s2.out.take(s2.out.len() as int) == s2.out);
        assert(s2.out.skip(s2.out.len() as int) =~= Seq::<Seq<char>>::empty());
        assert(finish(rules, s2) =~= s2.out);
    } else if s.end is Some {
        let e = s.end->0;
        let m = lemma_last_exit(rules, p);
        let pm = p.take(m);
        let sm = scan(rules, pm);
        lemma_scan_fixpoint(rules, pm);
        lemma_scan_end_bound(rules, pm);
        let a = s.out.take(e as int);
        let b = s.out.skip(e as int);
        assert(a =~= sm.out);
        assert(b =~= p.skip(m));
        let miss = missing_lines(rules, s.found);
        assert(l == a + miss + b);
        lemma_scan_concat(rules, a + miss, b);
        lemma_scan_concat(rules, a, miss);
        assert(rules.take(rules.len() as int) == rules);
        lemma_scan_missing(rules, sm, s.found, rules.len() as int);
        let s3 = scan(rules, a + miss);
        assert(s3 == scan_from(rules, sm, miss));
        // the line that leaves the section
        let first = b[0];
        assert(first == p[m]);
        let bt = b.drop_first();
        assert(b =~= seq![first] + bt);
        lemma_scan_concat(rules, a + miss, seq![first]);
        let s4 = scan(rules, a + miss + seq![first]);
        let one = seq![first];
        assert(one.drop_last() =~= Seq::<Seq<char>>::empty());
        assert(one.last() == first);
        assert(scan_from(rules, s3, one.drop_last()) == s3);
        assert(scan_from(rules, s3, one) == scan_step(rules, s3, first));
        assert(!s4.in_section);
        assert(s4.out == s3.out.push(first));
        assert forall|k: int| 0 <= k < bt.len() implies trim(#[trigger] bt[k]) != section_header() by {
            assert(bt[k] == p[m + 1 + k]);
        }
        lemma_scan_outside(rules, s4, bt);
        lemma_scan_concat(rules, a + miss + seq![first], bt);
        assert(a + miss + b =~= a + miss + seq![first] + bt);
        let s5 = scan(rules, l);
        assert(s5 == scan_from(rules, s4, bt));
        assert forall|j: int| 0 <= j < rules.len() && #[trigger] rules[j].value is Some implies s5.found[j] by {
            if s.found[j] {
            } else {
            }
        }
        lemma_nothing_missing(rules, s5.found);
        assert(s5.out =~= a + miss + b);
        let e5 = s5.end->0;
        assert(e5 == (a + miss).len());
        assert(finish(rules, s5) =~= s5.out.take(e5 as int) + Seq::<Seq<char>>::empty() + s5.out.skip(
            e5 as int,
        ));
        assert(finish(rules, s5) =~= l);
    } else {
        assert(l == s.out);
    }
}

/// A rewritten file whose text reads back as the same lines.
pub open spec fn reads_back(ls: Seq<Seq<char>>) -> bool {
    lines_of(strip_bom(join_lines(ls))) == ls
}

/// Writing the same keys twice gives the file that writing them once gives,
/// whenever the once-written text reads back line for line, or is a single
/// empty line. It does not hold, for example, when the file ends with an
/// empty line after other lines, which reading drops.
pub proof fn lemma_rewrite_idempotent(content: Seq<char>, rules: Seq<KeyRule>)
    requires
        distinct_keys(rules),
        reads_back(rewritten_lines(content, rules)) || rewritten_lines(content, rules) == seq![
            Seq::<char>::empty(),
        ],
    ensures
        rewrite_keys(rewrite_keys(content, rules), rules) == rewrite_keys(content, rules),
{
    if reads_back(rewritten_lines(content, rules)) {
        lemma_rewritten_fixpoint(rules, file_lines(content));
    } else {
        let e = Seq::<char>::empty();
        assert(rewrite_keys(content, rules) == e);
        assert(strip_bom(e) == e);
        assert(lines_of(e) == Seq::<Seq<char>>::empty());
        assert(scan(rules, Seq::<Seq<char>>::empty()) == scan_init(rules.len()));
        assert(rewritten_lines(e, rules) == Seq::<Seq<char>>::empty());
    }
}

} // verus!
