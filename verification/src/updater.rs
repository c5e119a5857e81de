//! Comparing release versions for the update notice.
use vstd::prelude::*;
use crate::text::{
    chars_of, char_pos, decimal, is_digit, lemma_char_pos, lemma_char_pos_concat,
    lemma_decimal, lemma_parse_decimal, parse_unsigned, parse_unsigned_range,
};

verus! {

/// `s` without its leading `c`s.
pub open spec fn strip_leading(s: Seq<char>, c: char) -> Seq<char>
    decreases s.len(),
{
    if s.len() > 0 && s[0] == c {
        strip_leading(s.drop_first(), c)
    } else {
        s
    }
}

/// The number a version part stands for: its value when std parses it as a
/// `u32`, 0 otherwise.
pub open spec fn part_value(p: Option<Seq<char>>) -> nat {
    match p {
        Some(t) => match parse_unsigned(t, u32::MAX as nat) {
            Some(n) => n,
            None => 0,
        },
        None => 0,
    }
}

/// Part `n` (0, 1 or 2) of `t` split at `'.'` into at most three parts, as
/// `splitn(3, '.')` gives them: the third part keeps any further dots.
pub open spec fn version_part(t: Seq<char>, n: nat) -> Option<Seq<char>> {
    let p0 = char_pos(t, '.');
    let rest1 = t.skip(p0 as int + 1);
    let p1 = char_pos(rest1, '.');
    if n == 0 {
        Some(t.take(p0 as int))
    } else if p0 >= t.len() {
        None
    } else if n == 1 {
        Some(rest1.take(p1 as int))
    } else if p1 >= rest1.len() {
        None
    } else {
        Some(rest1.skip(p1 as int + 1))
    }
}

/// The `(major, minor, patch)` of a version string such as `v4.1.0`:
/// leading `v`s dropped, parts that are missing or not numbers count 0.
pub open spec fn version_of(s: Seq<char>) -> (nat, nat, nat) {
    let t = strip_leading(s, 'v');
    (part_value(version_part(t, 0)), part_value(version_part(t, 1)), part_value(version_part(t, 2)))
}

/// Whether version `a` comes after version `b`, part by part.
pub open spec fn later(a: (nat, nat, nat), b: (nat, nat, nat)) -> bool {
    a.0 > b.0 || (a.0 == b.0 && (a.1 > b.1 || (a.1 == b.1 && a.2 > b.2)))
}

/// The index of the first `c` in `s[from..]`, or `s.len()`.
fn pos_from(s: &Vec<char>, from: usize, c: char) -> (r: usize)
    requires
        from <= s@.len(),
    ensures
        from <= r <= s@.len(),
        r - from == char_pos(s@.skip(from as int), c),
{
    let mut i = from;
    while i < s.len() && s[i] != c
        invariant
            from <= i <= s@.len(),
            forall|k: int| from <= k < i ==> #[trigger] s@[k] != c,
        decreases s@.len() - i,
    {
        i = i + 1;
    }
    proof {
        let w = s@.skip(from as int);
        assert forall|k: int| 0 <= k < i - from implies #[trigger] w[k] != c by {
            assert(w[k] == s@[from + k]);
        }
        if i < s@.len() {
            assert(w[i - from] == s@[i as int]);
        }
        lemma_char_pos(w, c, i - from);
    }
    i
}

fn value_of(s: &Vec<char>, from: usize, to: usize) -> (r: u64)
    requires
        from <= to <= s@.len(),
    ensures
        r as nat == part_value(Some(s@.subrange(from as int, to as int))),
{
    match parse_unsigned_range(s, from, to, 0xffff_ffff) {
        Some(n) => n,
        None => 0,
    }
}

/// The `(major, minor, patch)` of a version string, as `version_of` states.
pub fn parse_version(s: &str) -> (r: (u64, u64, u64))
    ensures
        (r.0 as nat, r.1 as nat, r.2 as nat) == version_of(s@),
{
    let cs = chars_of(s);
    let mut b: usize = 0;
    assert(cs@.skip(0) == cs@);
    while b < cs.len() && cs[b] == 'v'
        invariant
            0 <= b <= cs@.len(),
            strip_leading(cs@, 'v') == strip_leading(cs@.skip(b as int), 'v'),
        decreases cs@.len() - b,
    {
        assert(cs@.skip(b as int).drop_first() == cs@.skip(b + 1));
        b = b + 1;
    }
    let ghost t = cs@.skip(b as int);
    proof {
        if t.len() > 0 {
            assert(t[0] == cs@[b as int]);
        }
        assert(strip_leading(t, 'v') == t);
    }
    let n = cs.len();
    let e0 = pos_from(&cs, b, '.');
    proof {
        assert(t.take(e0 - b) == cs@.subrange(b as int, e0 as int));
    }
    let a = value_of(&cs, b, e0);
    if e0 == n {
        return (a, 0, 0);
    }
    let s1 = e0 + 1;
    let ghost rest1 = t.skip(e0 - b + 1);
    assert(rest1 == cs@.skip(s1 as int));
    let e1 = pos_from(&cs, s1, '.');
    proof {
        assert(rest1.take(e1 - s1) == cs@.subrange(s1 as int, e1 as int));
    }
    let m = value_of(&cs, s1, e1);
    if e1 == n {
        return (a, m, 0);
    }
    proof {
        assert(rest1.skip(e1 - s1 + 1) == cs@.subrange(e1 + 1, n as int));
    }
    let p = value_of(&cs, e1 + 1, n);
    (a, m, p)
}

/// Whether `remote` is a later version than `current`.
pub fn is_newer(remote: &str, current: &str) -> (r: bool)
    ensures
        r == later(version_of(remote@), version_of(current@)),
{
    let a = parse_version(remote);
    let b = parse_version(current);
    a.0 > b.0 || (a.0 == b.0 && (a.1 > b.1 || (a.1 == b.1 && a.2 > b.2)))
}


/// No version is later than itself, so the running version never announces
/// itself as an update.
pub proof fn lemma_not_newer_than_itself(s: Seq<char>)
    ensures
        !later(version_of(s), version_of(s)),
{
}

/// Of two versions at most one is later than the other.
pub proof fn lemma_newer_asymmetric(a: Seq<char>, b: Seq<char>)
    ensures
        !(later(version_of(a), version_of(b)) && later(version_of(b), version_of(a))),
{
}

/// Being later is transitive.
pub proof fn lemma_newer_transitive(a: Seq<char>, b: Seq<char>, c: Seq<char>)
    requires
        later(version_of(a), version_of(b)),
        later(version_of(b), version_of(c)),
    ensures
        later(version_of(a), version_of(c)),
{
}

/// Versions are ordered part by part: of two different versions one is
/// later; a later major version wins whatever the rest, and with equal major
/// versions a later minor one wins whatever the patch.
pub proof fn lemma_later_orders_parts(a: (nat, nat, nat), b: (nat, nat, nat))
    ensures
        a != b ==> later(a, b) || later(b, a),
        a.0 > b.0 ==> later(a, b),
        a.0 == b.0 && a.1 > b.1 ==> later(a, b),
        a.0 == b.0 && a.1 == b.1 ==> (later(a, b) <==> a.2 > b.2),
        a.0 < b.0 ==> !later(a, b),
{
}

proof fn lemma_no_dot(n: nat)
    ensures
        forall|k: int| 0 <= k < decimal(n).len() ==> #[trigger] decimal(n)[k] != '.',
        decimal(n).len() > 0 && decimal(n)[0] != 'v',
{
    lemma_decimal(n);
    assert forall|k: int| 0 <= k < decimal(n).len() implies #[trigger] decimal(n)[k] != '.' by {
        assert(is_digit(decimal(n)[k]));
    }
    assert(is_digit(decimal(n)[0]));
}

/// A version written as `major.minor.patch`, with or without a leading `v`,
/// reads back as those three numbers.
pub proof fn lemma_version_roundtrip(x: u32, y: u32, z: u32, with_v: bool)
    ensures
        version_of(
            (if with_v {
                seq!['v']
            } else {
                Seq::<char>::empty()
            }) + decimal(x as nat) + seq!['.'] + decimal(y as nat) + seq!['.'] + decimal(z as nat),
        ) == (x as nat, y as nat, z as nat),
{
    let dx = decimal(x as nat);
    let dy = decimal(y as nat);
    let dz = decimal(z as nat);
    lemma_no_dot(x as nat);
    lemma_no_dot(y as nat);
    lemma_no_dot(z as nat);
    let rest1 = dy + seq!['.'] + dz;
    let t = dx + seq!['.'] + rest1;
    let pre = if with_v {
        seq!['v']
    } else {
        Seq::<char>::empty()
    };
    let s = pre + dx + seq!['.'] + dy + seq!['.'] + dz;
    assert(s =~= pre + t);
    assert(t[0] == dx[0]);
    if with_v {
        assert((pre + t)[0] == 'v');
        assert((pre + t).drop_first() =~= t);
    } else {
        assert(pre + t =~= t);
    }
    assert(strip_leading(t, 'v') == t);
    assert(strip_leading(s, 'v') == t);
    lemma_char_pos_concat(dx, '.', rest1);
    lemma_char_pos_concat(dy, '.', dz);
    lemma_parse_decimal(x as nat, u32::MAX as nat);
    lemma_parse_decimal(y as nat, u32::MAX as nat);
    lemma_parse_decimal(z as nat, u32::MAX as nat);
    assert(char_pos(t, '.') == dx.len());
    assert(t.skip(dx.len() as int + 1) == rest1);
    assert(version_part(t, 0) == Some(dx));
    assert(version_part(t, 1) == Some(dy));
    assert(version_part(t, 2) == Some(dz));
}

} // verus!
