//! Character-level text model: whitespace, trimming, line splitting and
//! joining, decimal rendering and parsing, all stated over `Seq<char>`.
use vstd::prelude::*;

verus! {

// ── conversions between strings and character vectors ──────────────────────

/// Copies the characters of a string slice into a vector.
pub fn chars_of(s: &str) -> (v: Vec<char>)
    ensures
        v@ == s@,
{
    broadcast use vstd::string::group_string_axioms;
    let mut v: Vec<char> = Vec::new();
    for c in it: s.chars()
        invariant
            it.seq() == s@,
            v@ == it.seq().take(it.index()),
    {
        v.push(c);
        assert(v@ == it.seq().take(it.index() + 1));
    }
    v
}

/// Builds a `String` from a vector of characters
/// (std's `FromIterator<&char> for String`, through `Iterator::collect`):
/// the string holds exactly those characters, in order.
#[verifier::external_body]
pub(crate) fn string_of(v: &Vec<char>) -> (s: String)
    ensures
        s@ == v@,
{
    v.iter().collect()
}

/// Appends the characters of a string slice to a vector.
pub fn push_str(v: &mut Vec<char>, s: &str)
    ensures
        final(v)@ == old(v)@ + s@,
{
    let cs = chars_of(s);
    let mut i: usize = 0;
    while i < cs.len()
        invariant
            0 <= i <= cs@.len(),
            cs@ == s@,
            v@ == old(v)@ + cs@.take(i as int),
        decreases cs@.len() - i,
    {
        v.push(cs[i]);
        i = i + 1;
        assert(cs@.take(i as int) == cs@.take(i - 1).push(cs@[i - 1]));
    }
    assert(cs@.take(cs@.len() as int) == cs@);
}

/// Appends all characters of `w` to `v`.
pub fn push_all(v: &mut Vec<char>, w: &Vec<char>)
    ensures
        final(v)@ == old(v)@ + w@,
{
    let mut i: usize = 0;
    while i < w.len()
        invariant
            0 <= i <= w@.len(),
            v@ == old(v)@ + w@.take(i as int),
        decreases w@.len() - i,
    {
        v.push(w[i]);
        i = i + 1;
        assert(w@.take(i as int) == w@.take(i - 1).push(w@[i - 1]));
    }
    assert(w@.take(w@.len() as int) == w@);
}

// ── whitespace and trimming ───────────────────────────────────────────────────

/// Unicode `White_Space`, the set that std's `char::is_whitespace` accepts.
pub open spec fn is_ws(c: char) -> bool {
    let u = c as u32;
    ||| 0x9 <= u <= 0xd
    ||| u == 0x20
    ||| u == 0x85
    ||| u == 0xa0
    ||| u == 0x1680
    ||| 0x2000 <= u <= 0x200a
    ||| u == 0x2028
    ||| u == 0x2029
    ||| u == 0x202f
    ||| u == 0x205f
    ||| u == 0x3000
}

pub fn is_whitespace(c: char) -> (b: bool)
    ensures
        b == is_ws(c),
{
    let u = c as u32;
    (0x9 <= u && u <= 0xd) || u == 0x20 || u == 0x85 || u == 0xa0 || u == 0x1680 || (0x2000 <= u
        && u <= 0x200a) || u == 0x2028 || u == 0x2029 || u == 0x202f || u == 0x205f || u == 0x3000
}

/// `s` without its leading whitespace.
pub open spec fn trim_start(s: Seq<char>) -> Seq<char>
    decreases s.len(),
{
    if s.len() > 0 && is_ws(s[0]) {
        trim_start(s.drop_first())
    } else {
        s
    }
}

/// `s` without its trailing whitespace.
pub open spec fn trim_end(s: Seq<char>) -> Seq<char>
    decreases s.len(),
{
    if s.len() > 0 && is_ws(s.last()) {
        trim_end(s.drop_last())
    } else {
        s
    }
}

/// `s` without whitespace at either end, as std's `str::trim` gives it.
pub open spec fn trim(s: Seq<char>) -> Seq<char> {
    trim_end(trim_start(s))
}

proof fn lemma_trim_start_skip(s: Seq<char>, i: int)
    requires
        0 <= i <= s.len(),
        forall|k: int| 0 <= k < i ==> is_ws(#[trigger] s[k]),
    ensures
        trim_start(s) == trim_start(s.skip(i)),
    decreases i,
{
    if i > 0 {
        assert(is_ws(s[0]));
        let t = s.drop_first();
        assert forall|k: int| 0 <= k < i - 1 implies is_ws(#[trigger] t[k]) by {
            assert(t[k] == s[k + 1]);
        }
        lemma_trim_start_skip(t, i - 1);
        assert(t.skip(i - 1) == s.skip(i));
    } else {
        assert(s.skip(0) == s);
    }
}

proof fn lemma_trim_end_take(s: Seq<char>, j: int)
    requires
        0 <= j <= s.len(),
        forall|k: int| j <= k < s.len() ==> is_ws(#[trigger] s[k]),
    ensures
        trim_end(s) == trim_end(s.take(j)),
    decreases s.len() - j,
{
    if j < s.len() {
        assert(is_ws(s.last()));
        let t = s.drop_last();
        assert forall|k: int| j <= k < t.len() implies is_ws(#[trigger] t[k]) by {
            assert(t[k] == s[k]);
        }
        lemma_trim_end_take(t, j);
        assert(t.take(j) == s.take(j));
    } else {
        assert(s.take(j) == s);
    }
}

/// The bounds `(start, end)` of `trim(s[from..to])` inside `s`.
pub fn trim_bounds(s: &Vec<char>, from: usize, to: usize) -> (r: (usize, usize))
    requires
        from <= to <= s@.len(),
    ensures
        from <= r.0 <= r.1 <= to,
        s@.subrange(r.0 as int, r.1 as int) == trim(s@.subrange(from as int, to as int)),
{
    let ghost w = s@.subrange(from as int, to as int);
    let mut i = from;
    while i < to && is_whitespace(s[i])
        invariant
            from <= i <= to <= s@.len(),
            w == s@.subrange(from as int, to as int),
            forall|k: int| from <= k < i ==> is_ws(#[trigger] s@[k]),
        decreases to - i,
    {
        i = i + 1;
    }
    proof {
        assert forall|k: int| 0 <= k < i - from implies is_ws(#[trigger] w[k]) by {
            assert(w[k] == s@[from + k]);
        }
        lemma_trim_start_skip(w, i - from);
        let u = w.skip(i - from);
        assert(u == s@.subrange(i as int, to as int));
        if i < to {
            assert(!is_ws(u[0]));
        }
        assert(trim_start(u) == u);
    }
    let mut j = to;
    while j > i && is_whitespace(s[j - 1])
        invariant
            from <= i <= j <= to <= s@.len(),
            forall|k: int| j <= k < to ==> is_ws(#[trigger] s@[k]),
        decreases j - i,
    {
        j = j - 1;
    }
    proof {
        let u = s@.subrange(i as int, to as int);
        assert forall|k: int| j - i <= k < u.len() implies is_ws(#[trigger] u[k]) by {
            assert(u[k] == s@[i + k]);
        }
        lemma_trim_end_take(u, j - i);
        let v = u.take(j - i);
        assert(v == s@.subrange(i as int, j as int));
        if j > i {
            assert(!is_ws(v.last()));
        }
        assert(trim_end(v) == v);
    }
    (i, j)
}

// ── prefixes ────────────────────────────────────────────────────────────────

pub open spec fn starts_with(s: Seq<char>, p: Seq<char>) -> bool {
    p.len() <= s.len() && s.take(p.len() as int) == p
}

/// Whether `s[from..to]` starts with `p`.
pub fn range_starts_with(s: &Vec<char>, from: usize, to: usize, p: &Vec<char>) -> (b: bool)
    requires
        from <= to <= s@.len(),
    ensures
        b == starts_with(s@.subrange(from as int, to as int), p@),
{
    let ghost w = s@.subrange(from as int, to as int);
    if p.len() > to - from {
        return false;
    }
    let mut k: usize = 0;
    while k < p.len()
        invariant
            from <= to <= s@.len(),
            p@.len() <= to - from,
            0 <= k <= p@.len(),
            w == s@.subrange(from as int, to as int),
            forall|m: int| 0 <= m < k ==> s@[from + m] == p@[m],
        decreases p@.len() - k,
    {
        if s[from + k] != p[k] {
            assert(w[k as int] == s@[from + k]);
            assert(w.take(p@.len() as int)[k as int] != p@[k as int]);
            return false;
        }
        k = k + 1;
    }
    assert(w.take(p@.len() as int) =~= p@);
    true
}

/// Whether the two ranges `s[from..to]` and `p` hold the same characters.
pub fn range_equals(s: &Vec<char>, from: usize, to: usize, p: &Vec<char>) -> (b: bool)
    requires
        from <= to <= s@.len(),
    ensures
        b == (s@.subrange(from as int, to as int) == p@),
{
    if p.len() != to - from {
        return false;
    }
    let r = range_starts_with(s, from, to, p);
    proof {
        let w = s@.subrange(from as int, to as int);
        assert(w.take(p@.len() as int) == w);
    }
    r
}

/// A copy of `s[from..to]`.
pub fn copy_range(s: &Vec<char>, from: usize, to: usize) -> (r: Vec<char>)
    requires
        from <= to <= s@.len(),
    ensures
        r@ == s@.subrange(from as int, to as int),
{
    let mut r: Vec<char> = Vec::new();
    let mut k = from;
    while k < to
        invariant
            from <= k <= to <= s@.len(),
            r@ == s@.subrange(from as int, k as int),
        decreases to - k,
    {
        r.push(s[k]);
        k = k + 1;
        assert(r@ =~= s@.subrange(from as int, k as int));
    }
    r
}


// ── lines ───────────────────────────────────────────────────────────────────

/// Index of the first `'\n'` in `s`, or `s.len()` when there is none.
pub open spec fn newline_pos(s: Seq<char>) -> nat
    decreases s.len(),
{
    if s.len() == 0 {
        0
    } else if s[0] == '\n' {
        0
    } else {
        1 + newline_pos(s.drop_first())
    }
}

proof fn lemma_newline_pos(s: Seq<char>, p: int)
    requires
        0 <= p <= s.len(),
        forall|k: int| 0 <= k < p ==> #[trigger] s[k] != '\n',
        p == s.len() || s[p] == '\n',
    ensures
        newline_pos(s) == p,
    decreases p,
{
    if p > 0 {
        let t = s.drop_first();
        assert forall|k: int| 0 <= k < p - 1 implies #[trigger] t[k] != '\n' by {
            assert(t[k] == s[k + 1]);
        }
        if p < s.len() {
            assert(t[p - 1] == s[p]);
        }
        lemma_newline_pos(t, p - 1);
    }
}

/// The first line break lies within the text, where there is one.
pub proof fn lemma_newline_pos_bound(s: Seq<char>)
    ensures
        newline_pos(s) <= s.len(),
        newline_pos(s) < s.len() ==> s[newline_pos(s) as int] == '\n',
    decreases s.len(),
{
    if s.len() > 0 && s[0] != '\n' {
        lemma_newline_pos_bound(s.drop_first());
    }
}

/// `s` without one final carriage return.
pub open spec fn strip_cr(s: Seq<char>) -> Seq<char> {
    if s.len() > 0 && s.last() == '\r' {
        s.drop_last()
    } else {
        s
    }
}

/// The lines of `s` as std's `str::lines` yields them: pieces ended by
/// `'\n'`, each without its `'\n'` and then without one `'\r'` before it; a
/// last piece with no `'\n'` is kept as it is when it is not empty.
pub open spec fn lines_of(s: Seq<char>) -> Seq<Seq<char>>
    decreases s.len(),
{
    if s.len() == 0 {
        Seq::empty()
    } else {
        let p = newline_pos(s);
        if p >= s.len() {
            seq![s]
        } else {
            seq![strip_cr(s.take(p as int))] + lines_of(s.skip(p as int + 1))
        }
    }
}

/// The characters of the text joined from `ls` with `'\n'` between lines.
pub open spec fn join_lines(ls: Seq<Seq<char>>) -> Seq<char>
    decreases ls.len(),
{
    if ls.len() == 0 {
        Seq::empty()
    } else if ls.len() == 1 {
        ls[0]
    } else {
        join_lines(ls.drop_last()) + seq!['\n'] + ls.last()
    }
}

/// Splits `s[from..]` into lines, as `lines_of` states.
pub fn split_lines(s: &Vec<char>, from: usize) -> (out: Vec<Vec<char>>)
    requires
        from <= s@.len(),
    ensures
        out.deep_view() == lines_of(s@.skip(from as int)),
{
    let mut out: Vec<Vec<char>> = Vec::new();
    let mut start = from;
    let mut i = from;
    while i < s.len()
        invariant
            from <= start <= i <= s@.len(),
            forall|k: int| start <= k < i ==> #[trigger] s@[k] != '\n',
            lines_of(s@.skip(from as int)) == out.deep_view() + lines_of(s@.skip(start as int)),
        decreases s@.len() - i,
    {
        if s[i] == '\n' {
            let piece_end = if i > start && s[i - 1] == '\r' {
                i - 1
            } else {
                i
            };
            let line = copy_range(s, start, piece_end);
            proof {
                let rest = s@.skip(start as int);
                assert forall|k: int| 0 <= k < i - start implies #[trigger] rest[k] != '\n' by {
                    assert(rest[k] == s@[start + k]);
                }
                assert(rest[i - start] == s@[i as int]);
                lemma_newline_pos(rest, i - start);
                assert(rest.take(i - start) == s@.subrange(start as int, i as int));
                assert(rest.skip(i - start + 1) == s@.skip(i + 1));
                assert(line@ == strip_cr(rest.take(i - start)));
                let ghost old_out = out.deep_view();
                assert(lines_of(rest) == seq![line@] + lines_of(s@.skip(i + 1)));
            }
            let ghost before = out.deep_view();
            proof {
                assert(line.deep_view() =~= line@);
            }
            out.push(line);
            proof {
                assert(out.deep_view() =~= before.push(line@));
                assert(before + (seq![line@] + lines_of(s@.skip(i + 1))) =~= before.push(line@)
                    + lines_of(s@.skip(i + 1)));
            }
            start = i + 1;
        }
        i = i + 1;
    }
    let ghost rest = s@.skip(start as int);
    if start < s.len() {
        let line = copy_range(s, start, s.len());
        proof {
            assert forall|k: int| 0 <= k < rest.len() implies #[trigger] rest[k] != '\n' by {
                assert(rest[k] == s@[start + k]);
            }
            lemma_newline_pos(rest, rest.len() as int);
            assert(line@ == rest);
            assert(lines_of(rest) == seq![rest]);
        }
        let ghost before = out.deep_view();
        proof {
            assert(line.deep_view() =~= line@);
        }
        out.push(line);
        proof {
            assert(out.deep_view() =~= before.push(line@));
            assert(before + seq![rest] =~= before.push(line@));
        }
    } else {
        assert(rest.len() == 0);
        assert(lines_of(rest) == Seq::<Seq<char>>::empty());
        assert(out.deep_view() + Seq::<Seq<char>>::empty() =~= out.deep_view());
    }
    out
}

/// Joins lines with `'\n'` between them, as `join_lines` states.
pub fn join_with_newlines(ls: &Vec<Vec<char>>) -> (r: Vec<char>)
    ensures
        r@ == join_lines(ls.deep_view()),
{
    let mut r: Vec<char> = Vec::new();
    let mut i: usize = 0;
    while i < ls.len()
        invariant
            0 <= i <= ls@.len(),
            r@ == join_lines(ls.deep_view().take(i as int)),
        decreases ls@.len() - i,
    {
        let ghost d = ls.deep_view();
        proof {
            assert(d.take(i + 1).drop_last() == d.take(i as int));
            assert(d.take(i + 1).last() == ls@[i as int]@);
        }
        if i > 0 {
            r.push('\n');
        } else {
            assert(d.take(0) =~= Seq::<Seq<char>>::empty());
            assert(r@ =~= Seq::<char>::empty());
        }
        push_all(&mut r, &ls[i]);
        i = i + 1;
        proof {
            if i == 1 {
                assert(d.take(1).len() == 1);
                assert(r@ =~= d.take(1)[0]);
            }
        }
    }
    assert(ls.deep_view().take(ls@.len() as int) =~= ls.deep_view());
    r
}

// ── decimal numbers ──────────────────────────────────────────────────────────

/// The ASCII digit for `d < 10`.
pub open spec fn digit_char(d: nat) -> char {
    (48 + d) as char
}

pub open spec fn is_digit(c: char) -> bool {
    '0' <= c && c <= '9'
}

/// The value of an ASCII digit.
pub open spec fn digit_value(c: char) -> nat {
    (c as nat - 48) as nat
}

/// Decimal digits of `n`, without leading zeros ("0" for zero).
pub open spec fn decimal(n: nat) -> Seq<char>
    decreases n,
{
    if n < 10 {
        seq![digit_char(n)]
    } else {
        decimal(n / 10).push(digit_char(n % 10))
    }
}

/// The number that the ASCII digits `s` spell.
pub open spec fn digits_value(s: Seq<char>) -> nat
    decreases s.len(),
{
    if s.len() == 0 {
        0
    } else {
        digits_value(s.drop_last()) * 10 + digit_value(s.last())
    }
}

pub open spec fn all_digits(s: Seq<char>) -> bool {
    forall|k: int| 0 <= k < s.len() ==> is_digit(#[trigger] s[k])
}

/// What std's `str::parse` gives for an unsigned integer type whose largest
/// value is `max`: an optional `'+'`, then one or more ASCII digits whose
/// value does not exceed `max`.
pub open spec fn parse_unsigned(s: Seq<char>, max: nat) -> Option<nat> {
    let body = if s.len() > 0 && s[0] == '+' {
        s.drop_first()
    } else {
        s
    };
    if body.len() > 0 && all_digits(body) && digits_value(body) <= max {
        Some(digits_value(body))
    } else {
        None
    }
}

pub fn digit_of(d: u64) -> (c: char)
    requires
        d < 10,
    ensures
        c == digit_char(d as nat),
        is_digit(c),
{
    let b: u8 = 48u8 + (d as u8);
    b as char
}

/// Decimal rendering of `n`, as `{}` formats an unsigned integer.
pub fn decimal_of(n: u64) -> (v: Vec<char>)
    ensures
        v@ == decimal(n as nat),
    decreases n,
{
    if n < 10 {
        let mut v = Vec::new();
        v.push(digit_of(n));
        v
    } else {
        let mut v = decimal_of(n / 10);
        v.push(digit_of(n % 10));
        v
    }
}

proof fn lemma_digits_value_prefix(s: Seq<char>, k: int)
    requires
        0 <= k <= s.len(),
    ensures
        digits_value(s.take(k)) <= digits_value(s),
    decreases s.len() - k,
{
    if k < s.len() {
        lemma_digits_value_prefix(s, k + 1);
        assert(s.take(k + 1).drop_last() == s.take(k));
    } else {
        assert(s.take(k) == s);
    }
}

/// The value of `body` when it is one or more ASCII digits with a value of
/// at most `max`.
pub open spec fn digits_upto(body: Seq<char>, max: nat) -> Option<nat> {
    if body.len() > 0 && all_digits(body) && digits_value(body) <= max {
        Some(digits_value(body))
    } else {
        None
    }
}

/// Parses `s[from..to]` as ASCII digits of value at most `max`.
pub fn parse_digits_range(s: &Vec<char>, from: usize, to: usize, max: u64) -> (r: Option<u64>)
    requires
        from <= to <= s@.len(),
        max <= u32::MAX,
    ensures
        match digits_upto(s@.subrange(from as int, to as int), max as nat) {
            Some(n) => r == Some(n as u64),
            None => r is None,
        },
{
    let ghost body = s@.subrange(from as int, to as int);
    if from == to {
        return None;
    }
    let mut acc: u64 = 0;
    let mut k = from;
    while k < to
        invariant
            from < to <= s@.len(),
            from <= k <= to,
            body == s@.subrange(from as int, to as int),
            acc as nat == digits_value(body.take(k - from)),
            acc <= max,
            max <= u32::MAX,
            forall|m: int| 0 <= m < k - from ==> is_digit(#[trigger] body[m]),
        decreases to - k,
    {
        let c = s[k];
        assert(c == body[k - from]);
        if !('0' <= c && c <= '9') {
            assert(!is_digit(body[k - from]));
            assert(!all_digits(body));
            return None;
        }
        let d = (c as u32 - 48) as u64;
        proof {
            assert(body.take(k - from + 1).drop_last() == body.take(k - from));
            assert(body.take(k - from + 1).last() == c);
        }
        acc = acc * 10 + d;
        k = k + 1;
        if acc > max {
            proof {
                lemma_digits_value_prefix(body, k - from);
                assert(digits_value(body) > max);
            }
            return None;
        }
    }
    assert(body.take(body.len() as int) == body);
    Some(acc)
}

/// Parses `s[from..to]` as std parses an unsigned integer of largest value `max`.
pub fn parse_unsigned_range(s: &Vec<char>, from: usize, to: usize, max: u64) -> (r: Option<u64>)
    requires
        from <= to <= s@.len(),
        max <= u32::MAX,
    ensures
        match parse_unsigned(s@.subrange(from as int, to as int), max as nat) {
            Some(n) => r == Some(n as u64),
            None => r is None,
        },
{
    let ghost w = s@.subrange(from as int, to as int);
    let mut i = from;
    if i < to && s[i] == '+' {
        i = i + 1;
    }
    proof {
        let body = s@.subrange(i as int, to as int);
        if w.len() > 0 && w[0] == '+' {
            assert(body == w.drop_first());
        } else {
            assert(body == w);
        }
    }
    parse_digits_range(s, i, to, max)
}

/// What std's `str::parse::<i32>` gives: an optional sign, then one or more
/// ASCII digits, with the value in the range of `i32`.
pub open spec fn parse_i32(s: Seq<char>) -> Option<int> {
    if s.len() > 0 && s[0] == '-' {
        match digits_upto(s.drop_first(), 0x8000_0000) {
            Some(n) => Some(-n),
            None => None,
        }
    } else {
        let body = if s.len() > 0 && s[0] == '+' {
            s.drop_first()
        } else {
            s
        };
        match digits_upto(body, 0x7fff_ffff) {
            Some(n) => Some(n as int),
            None => None,
        }
    }
}

/// Parses `s[from..to]` as std parses an `i32`.
pub fn parse_i32_range(s: &Vec<char>, from: usize, to: usize) -> (r: Option<i32>)
    requires
        from <= to <= s@.len(),
    ensures
        match parse_i32(s@.subrange(from as int, to as int)) {
            Some(n) => r == Some(n as i32),
            None => r is None,
        },
{
    let ghost w = s@.subrange(from as int, to as int);
    if from < to && s[from] == '-' {
        assert(s@.subrange(from + 1, to as int) == w.drop_first());
        match parse_digits_range(s, from + 1, to, 0x8000_0000) {
            Some(n) => {
                let v: i64 = 0 - (n as i64);
                Some(v as i32)
            },
            None => None,
        }
    } else {
        let mut i = from;
        if i < to && s[i] == '+' {
            i = i + 1;
        }
        proof {
            let body = s@.subrange(i as int, to as int);
            if w.len() > 0 && w[0] == '+' {
                assert(body == w.drop_first());
            } else {
                assert(body == w);
            }
        }
        match parse_digits_range(s, i, to, 0x7fff_ffff) {
            Some(n) => Some(n as i32),
            None => None,
        }
    }
}

// ── searching and splitting ──────────────────────────────────────────────────

/// Whether `p` occurs in `s` at index `i`.
pub open spec fn occurs_at(s: Seq<char>, p: Seq<char>, i: int) -> bool {
    0 <= i && i + p.len() <= s.len() && s.subrange(i, i + p.len() as int) == p
}

/// The first index `j >= i` where `p` occurs in `s`.
pub open spec fn find_from(s: Seq<char>, p: Seq<char>, i: int) -> Option<int>
    decreases s.len() + 1 - i,
{
    if i < 0 || i + p.len() > s.len() {
        None
    } else if occurs_at(s, p, i) {
        Some(i)
    } else {
        find_from(s, p, i + 1)
    }
}

/// A match found from `i` on lies at or after `i`, and the pattern occurs there.
pub proof fn lemma_find_from_bounds(s: Seq<char>, p: Seq<char>, i: int)
    ensures
        find_from(s, p, i) matches Some(j) ==> i <= j && occurs_at(s, p, j),
    decreases s.len() + 1 - i,
{
    if !(i < 0 || i + p.len() > s.len()) && !occurs_at(s, p, i) {
        lemma_find_from_bounds(s, p, i + 1);
    }
}

/// `find_from` gives the first match from `i` on: none before it, and none
/// at all from `i` on when it gives nothing.
pub proof fn lemma_find_from_first(s: Seq<char>, p: Seq<char>, i: int)
    requires
        0 <= i,
    ensures
        match find_from(s, p, i) {
            Some(j) => forall|k: int| i <= k < j ==> !#[trigger] occurs_at(s, p, k),
            None => forall|k: int| i <= k ==> !#[trigger] occurs_at(s, p, k),
        },
    decreases s.len() + 1 - i,
{
    if !(i + p.len() > s.len()) && !occurs_at(s, p, i) {
        lemma_find_from_first(s, p, i + 1);
    }
}

/// Where `p` occurs nowhere from `i` on, `find_from` finds nothing.
pub proof fn lemma_find_from_none(s: Seq<char>, p: Seq<char>, i: int)
    requires
        0 <= i,
        forall|k: int| i <= k ==> !#[trigger] occurs_at(s, p, k),
    ensures
        find_from(s, p, i) is None,
    decreases s.len() + 1 - i,
{
    if !(i + p.len() > s.len()) {
        assert(!occurs_at(s, p, i));
        lemma_find_from_none(s, p, i + 1);
    }
}

/// `trim_end(s)` is the beginning of `s`.
pub proof fn lemma_trim_end_prefix(s: Seq<char>)
    ensures
        trim_end(s).len() <= s.len(),
        trim_end(s) == s.take(trim_end(s).len() as int),
    decreases s.len(),
{
    if s.len() > 0 && is_ws(s.last()) {
        lemma_trim_end_prefix(s.drop_last());
        assert(s.drop_last().take(trim_end(s).len() as int) =~= s.take(trim_end(s).len() as int));
    } else {
        assert(s.take(s.len() as int) =~= s);
    }
}

/// The first index at or after `from` where `p` occurs in `s`.
pub fn find_in(s: &Vec<char>, from: usize, p: &Vec<char>) -> (r: Option<usize>)
    requires
        from <= s@.len(),
    ensures
        match r {
            Some(j) => find_from(s@, p@, from as int) == Some(j as int),
            None => find_from(s@, p@, from as int) is None,
        },
{
    let mut j = from;
    let plen = p.len();
    while j <= s.len() && plen <= s.len() - j
        invariant
            from <= j,
            find_from(s@, p@, from as int) == find_from(s@, p@, j as int),
            plen == p@.len(),
        decreases s@.len() + 1 - j,
    {
        if range_equals(s, j, j + plen, p) {
            return Some(j);
        }
        if plen == 0 {
            assert(s@.subrange(j as int, j as int) =~= p@);
        }
        j = j + 1;
    }
    None
}

/// The index of the first `c` in `s`, or `s.len()`.
pub open spec fn char_pos(s: Seq<char>, c: char) -> nat
    decreases s.len(),
{
    if s.len() == 0 {
        0
    } else if s[0] == c {
        0
    } else {
        1 + char_pos(s.drop_first(), c)
    }
}

/// The first occurrence of `c` is at `p` when `c` is at `p` (or `p` is the end) and nowhere before.
pub proof fn lemma_char_pos(s: Seq<char>, c: char, p: int)
    requires
        0 <= p <= s.len(),
        forall|k: int| 0 <= k < p ==> #[trigger] s[k] != c,
        p == s.len() || s[p] == c,
    ensures
        char_pos(s, c) == p,
    decreases p,
{
    if p > 0 {
        let t = s.drop_first();
        assert forall|k: int| 0 <= k < p - 1 implies #[trigger] t[k] != c by {
            assert(t[k] == s[k + 1]);
        }
        if p < s.len() {
            assert(t[p - 1] == s[p]);
        }
        lemma_char_pos(t, c, p - 1);
    }
}

/// The first occurrence of `c` lies within the text, or is its end.
pub proof fn lemma_char_pos_bound(s: Seq<char>, c: char)
    ensures
        char_pos(s, c) <= s.len(),
    decreases s.len(),
{
    if s.len() > 0 && s[0] != c {
        lemma_char_pos_bound(s.drop_first(), c);
    }
}

/// The pieces of `s` between occurrences of `c`, as std's `str::split`
/// with a `char` pattern gives them (one more piece than occurrences).
pub open spec fn fields(s: Seq<char>, c: char) -> Seq<Seq<char>>
    decreases s.len(),
{
    let p = char_pos(s, c);
    if p >= s.len() {
        seq![s]
    } else {
        seq![s.take(p as int)] + fields(s.skip(p as int + 1), c)
    }
}

/// Piece `n` of `s[from..to]` split at `c`, if there is one.
pub fn nth_field(s: &Vec<char>, from: usize, to: usize, c: char, n: usize) -> (r: Option<Vec<char>>)
    requires
        from <= to <= s@.len(),
    ensures
        match r {
            Some(f) => n < fields(s@.subrange(from as int, to as int), c).len() && f@ == fields(
                s@.subrange(from as int, to as int),
                c,
            )[n as int],
            None => n >= fields(s@.subrange(from as int, to as int), c).len(),
        },
    decreases to - from,
{
    let ghost w = s@.subrange(from as int, to as int);
    let mut i = from;
    while i < to && s[i] != c
        invariant
            from <= i <= to <= s@.len(),
            forall|k: int| from <= k < i ==> #[trigger] s@[k] != c,
        decreases to - i,
    {
        i = i + 1;
    }
    proof {
        assert forall|k: int| 0 <= k < i - from implies #[trigger] w[k] != c by {
            assert(w[k] == s@[from + k]);
        }
        if i < to {
            assert(w[i - from] == s@[i as int]);
        }
        lemma_char_pos(w, c, i - from);
    }
    if i == to {
        if n == 0 {
            let f = copy_range(s, from, to);
            return Some(f);
        } else {
            return None;
        }
    }
    proof {
        assert(w.take(i - from) == s@.subrange(from as int, i as int));
        assert(w.skip(i - from + 1) == s@.subrange(i + 1, to as int));
    }
    if n == 0 {
        Some(copy_range(s, from, i))
    } else {
        nth_field(s, i + 1, to, c, n - 1)
    }
}

/// The text `parts` joined with `sep` between them.
pub open spec fn join_with(parts: Seq<Seq<char>>, sep: Seq<char>) -> Seq<char>
    decreases parts.len(),
{
    if parts.len() == 0 {
        Seq::empty()
    } else if parts.len() == 1 {
        parts[0]
    } else {
        join_with(parts.drop_last(), sep) + sep + parts.last()
    }
}


/// Joins `parts` with `sep` between them, as `join_with` states.
pub fn join_strs(parts: &[&str], sep: &str) -> (r: Vec<char>)
    ensures
        r@ == join_with(Seq::new(parts@.len(), |i: int| parts@[i]@), sep@),
{
    let ghost ps = Seq::new(parts@.len(), |i: int| parts@[i]@);
    let mut r: Vec<char> = Vec::new();
    let mut i: usize = 0;
    while i < parts.len()
        invariant
            0 <= i <= parts@.len(),
            ps == Seq::new(parts@.len(), |i: int| parts@[i]@),
            r@ == join_with(ps.take(i as int), sep@),
        decreases parts@.len() - i,
    {
        proof {
            assert(ps.take(i + 1).drop_last() == ps.take(i as int));
            assert(ps.take(i + 1).last() == parts@[i as int]@);
        }
        if i > 0 {
            push_str(&mut r, sep);
        } else {
            assert(ps.take(0) =~= Seq::<Seq<char>>::empty());
            assert(r@ =~= Seq::<char>::empty());
        }
        push_str(&mut r, parts[i]);
        i = i + 1;
        proof {
            if i == 1 {
                assert(r@ =~= ps.take(1)[0]);
            }
        }
    }
    assert(ps.take(parts@.len() as int) =~= ps);
    r
}


/// Whether two string slices hold the same characters.
pub fn str_eq(a: &str, b: &str) -> (r: bool)
    ensures
        r == (a@ == b@),
{
    let av = chars_of(a);
    let bv = chars_of(b);
    let r = range_equals(&av, 0, av.len(), &bv);
    assert(av@.subrange(0, av@.len() as int) == av@);
    r
}


/// The end of `trim_end(s[from..to])` inside `s`.
pub fn trim_end_bound(s: &Vec<char>, from: usize, to: usize) -> (r: usize)
    requires
        from <= to <= s@.len(),
    ensures
        from <= r <= to,
        s@.subrange(from as int, r as int) == trim_end(s@.subrange(from as int, to as int)),
{
    let mut j = to;
    while j > from && is_whitespace(s[j - 1])
        invariant
            from <= j <= to <= s@.len(),
            forall|k: int| j <= k < to ==> is_ws(#[trigger] s@[k]),
        decreases j - from,
    {
        j = j - 1;
    }
    proof {
        let u = s@.subrange(from as int, to as int);
        assert forall|k: int| j - from <= k < u.len() implies is_ws(#[trigger] u[k]) by {
            assert(u[k] == s@[from + k]);
        }
        lemma_trim_end_take(u, j - from);
        let v = u.take(j - from);
        assert(v == s@.subrange(from as int, j as int));
        if j > from {
            assert(!is_ws(v.last()));
        }
        assert(trim_end(v) == v);
    }
    j
}


// ── facts about decimal digits ───────────────────────────────────────────────

/// The decimal digits of `n` are one or more ASCII digits spelling `n`.
pub proof fn lemma_decimal(n: nat)
    ensures
        decimal(n).len() >= 1,
        all_digits(decimal(n)),
        digits_value(decimal(n)) == n,
        decimal(n).len() == 1 <==> n < 10,
    decreases n,
{
    if n >= 10 {
        lemma_decimal(n / 10);
        let d = decimal(n);
        assert(d.drop_last() == decimal(n / 10));
        assert forall|k: int| 0 <= k < d.len() implies is_digit(#[trigger] d[k]) by {
            if k < d.len() - 1 {
                assert(d[k] == decimal(n / 10)[k]);
            }
        }
    } else {
        assert(digits_value(decimal(n).drop_last()) == 0);
    }
}

/// A leading zero does not change the value of digits.
pub proof fn lemma_leading_zero(t: Seq<char>)
    ensures
        digits_value(seq!['0'] + t) == digits_value(t),
    decreases t.len(),
{
    if t.len() == 0 {
        let z = seq!['0'];
        assert(z.drop_last() =~= Seq::<char>::empty());
        assert(z.last() == '0');
        assert(digit_value('0') == 0);
        assert(digits_value(Seq::<char>::empty()) == 0);
        assert(digits_value(z) == digits_value(z.drop_last()) * 10 + digit_value(z.last()));
        assert(seq!['0'] + t =~= z);
    } else {
        let u = seq!['0'] + t;
        assert(u.drop_last() =~= seq!['0'] + t.drop_last());
        assert(u.last() == t.last());
        lemma_leading_zero(t.drop_last());
        assert(digits_value(u) == digits_value(u.drop_last()) * 10 + digit_value(u.last()));
        assert(digits_value(t) == digits_value(t.drop_last()) * 10 + digit_value(t.last()));
    }
}

/// Digits hold no whitespace, so trimming keeps them.
pub proof fn lemma_trim_digits(s: Seq<char>)
    requires
        all_digits(s),
    ensures
        trim(s) == s,
{
    if s.len() > 0 {
        assert(is_digit(s[0]));
        assert(is_digit(s.last()));
    }
}

/// Digits parse as the number they spell, when it is small enough.
pub proof fn lemma_parse_decimal(n: nat, max: nat)
    requires
        n <= max,
    ensures
        parse_unsigned(decimal(n), max) == Some(n),
        digits_upto(decimal(n), max) == Some(n),
{
    lemma_decimal(n);
    assert(is_digit(decimal(n)[0]));
}

/// Where `c` does not occur in `a`, the first `c` of `a + [c] + b` follows `a`.
pub proof fn lemma_char_pos_concat(a: Seq<char>, c: char, b: Seq<char>)
    requires
        forall|k: int| 0 <= k < a.len() ==> #[trigger] a[k] != c,
    ensures
        char_pos(a + seq![c] + b, c) == a.len(),
        (a + seq![c] + b).take(a.len() as int) == a,
        (a + seq![c] + b).skip(a.len() as int + 1) == b,
{
    let s = a + seq![c] + b;
    assert forall|k: int| 0 <= k < a.len() implies #[trigger] s[k] != c by {
        assert(s[k] == a[k]);
    }
    assert(s[a.len() as int] == c);
    lemma_char_pos(s, c, a.len() as int);
    assert(s.take(a.len() as int) =~= a);
    assert(s.skip(a.len() as int + 1) =~= b);
}

/// `join_with` seen from the front.
pub proof fn lemma_join_front(parts: Seq<Seq<char>>, sep: Seq<char>)
    requires
        parts.len() >= 2,
    ensures
        join_with(parts, sep) == parts[0] + sep + join_with(parts.drop_first(), sep),
    decreases parts.len(),
{
    if parts.len() == 2 {
        assert(parts.drop_last().len() == 1);
        assert(parts.drop_first().len() == 1);
        assert(join_with(parts.drop_first(), sep) == parts[1]);
        assert(join_with(parts.drop_last(), sep) == parts[0]);
    } else {
        lemma_join_front(parts.drop_last(), sep);
        assert(parts.drop_last().drop_first() == parts.drop_first().drop_last());
        assert(parts.drop_first().last() == parts.last());
    }
}

/// Splitting text joined with `c` at `c` gives the parts back, when no part
/// holds `c`.
pub proof fn lemma_fields_join(parts: Seq<Seq<char>>, c: char)
    requires
        parts.len() >= 1,
        forall|i: int, k: int| 0 <= i < parts.len() && 0 <= k < parts[i].len() ==> #[trigger] parts[i][k]
            != c,
    ensures
        fields(join_with(parts, seq![c]), c) == parts,
    decreases parts.len(),
{
    if parts.len() == 1 {
        let p = parts[0];
        assert(join_with(parts, seq![c]) == p);
        assert forall|k: int| 0 <= k < p.len() implies #[trigger] p[k] != c by {
            assert(parts[0][k] != c);
        }
        lemma_char_pos(p, c, p.len() as int);
        assert(fields(p, c) == seq![p]);
        assert(seq![p] =~= parts);
    } else {
        lemma_join_front(parts, seq![c]);
        let a = parts[0];
        let rest = parts.drop_first();
        assert forall|k: int| 0 <= k < a.len() implies #[trigger] a[k] != c by {
            assert(parts[0][k] != c);
        }
        assert forall|i: int, k: int| 0 <= i < rest.len() && 0 <= k < rest[i].len() implies #[trigger] rest[i][k]
            != c by {
            assert(rest[i] == parts[i + 1]);
        }
        lemma_fields_join(rest, c);
        let b = join_with(rest, seq![c]);
        lemma_char_pos_concat(a, c, b);
        assert(seq![a] + rest =~= parts);
    }
}


/// Text that starts with a character other than whitespace keeps at least
/// that character when trimmed.
pub proof fn lemma_trim_nonempty(s: Seq<char>)
    requires
        s.len() > 0,
        !is_ws(s[0]),
    ensures
        trim(s).len() > 0,
        trim_start(s) == s,
    decreases s.len(),
{
    lemma_trim_end_keeps_first(s);
}

proof fn lemma_trim_end_keeps_first(s: Seq<char>)
    requires
        s.len() > 0,
        !is_ws(s[0]),
    ensures
        trim_end(s).len() > 0,
    decreases s.len(),
{
    if is_ws(s.last()) {
        assert(s.len() >= 2);
        let t = s.drop_last();
        assert(t[0] == s[0]);
        lemma_trim_end_keeps_first(t);
    }
}

} // verus!
