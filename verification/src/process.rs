//! Recognising the game's and Steam's processes by name.
use vstd::prelude::*;
use crate::text::{chars_of, find_from, find_in};

verus! {

/// Whether `p` occurs in `s`.
pub open spec fn contains(s: Seq<char>, p: Seq<char>) -> bool {
    find_from(s, p, 0) is Some
}

/// `c` with ASCII upper-case letters made lower-case.
pub open spec fn ascii_lower(c: char) -> char {
    if 'A' <= c && c <= 'Z' {
        ((c as u32) + 32) as char
    } else {
        c
    }
}

/// Whether `s` equals the lower-case ASCII text `t`, ignoring ASCII case.
pub open spec fn eq_ignore_ascii_case(s: Seq<char>, t: Seq<char>) -> bool {
    s.len() == t.len() && forall|k: int| 0 <= k < s.len() ==> ascii_lower(#[trigger] s[k]) == t[k]
}

/// The game client's process.
pub open spec fn is_squad_client(name: Seq<char>) -> bool {
    contains(name, "SquadGame-Win64-Shipping"@)
}

/// Steam's process.
pub open spec fn is_steam(name: Seq<char>) -> bool {
    eq_ignore_ascii_case(name, "steam.exe"@) || eq_ignore_ascii_case(name, "steam"@)
}

/// A process to close when seeding ends: the client or the launcher, never
/// a dedicated server.
pub open spec fn is_kill_target(name: Seq<char>) -> bool {
    !contains(name, "SquadGameServer"@) && (is_squad_client(name) || contains(
        name,
        "squad_launcher"@,
    ))
}

pub open spec fn names(v: Seq<String>) -> Seq<Seq<char>> {
    Seq::new(v.len(), |i: int| v[i]@)
}

fn holds(name: &Vec<char>, p: &str) -> (r: bool)
    ensures
        r == contains(name@, p@),
{
    let pv = chars_of(p);
    find_in(name, 0, &pv).is_some()
}

fn lower(c: char) -> (r: char)
    ensures
        r == ascii_lower(c),
{
    if 'A' <= c && c <= 'Z' {
        ((c as u8) + 32) as char
    } else {
        c
    }
}

fn same_ignoring_case(name: &Vec<char>, t: &str) -> (r: bool)
    ensures
        r == eq_ignore_ascii_case(name@, t@),
{
    let tv = chars_of(t);
    if name.len() != tv.len() {
        return false;
    }
    let mut k: usize = 0;
    while k < name.len()
        invariant
            0 <= k <= name@.len(),
            name@.len() == tv@.len(),
            tv@ == t@,
            forall|m: int| 0 <= m < k ==> ascii_lower(#[trigger] name@[m]) == tv@[m],
        decreases name@.len() - k,
    {
        if lower(name[k]) != tv[k] {
            return false;
        }
        k = k + 1;
    }
    true
}

/// Whether the game client and Steam run, among the process names `procs`.
pub fn check_processes(procs: &Vec<String>) -> (r: (bool, bool))
    ensures
        r.0 == (exists|i: int| 0 <= i < procs@.len() && is_squad_client(#[trigger] procs@[i]@)),
        r.1 == (exists|i: int| 0 <= i < procs@.len() && is_steam(#[trigger] procs@[i]@)),
{
    let mut squad = false;
    let mut steam = false;
    let mut k: usize = 0;
    while k < procs.len()
        invariant
            0 <= k <= procs@.len(),
            squad == (exists|i: int| 0 <= i < k && is_squad_client(#[trigger] procs@[i]@)),
            steam == (exists|i: int| 0 <= i < k && is_steam(#[trigger] procs@[i]@)),
        decreases procs@.len() - k,
    {
        let name = chars_of(procs[k].as_str());
        if holds(&name, "SquadGame-Win64-Shipping") {
            squad = true;
        }
        if same_ignoring_case(&name, "steam.exe") || same_ignoring_case(&name, "steam") {
            steam = true;
        }
        k = k + 1;
    }
    (squad, steam)
}

/// Whether the game client runs, among the process names `procs`.
pub fn is_squad_client_running(procs: &Vec<String>) -> (r: bool)
    ensures
        r == (exists|i: int| 0 <= i < procs@.len() && is_squad_client(#[trigger] procs@[i]@)),
{
    check_processes(procs).0
}

/// The positions in `procs` of the processes to close at the end of seeding.
pub fn kill_targets(procs: &Vec<String>) -> (r: Vec<usize>)
    ensures
        forall|j: int| 0 <= j < r@.len() ==> r@[j] < procs@.len() && is_kill_target(
            procs@[r@[j] as int]@,
        ),
        forall|i: int| 0 <= i < procs@.len() && is_kill_target(#[trigger] procs@[i]@) ==> r@.contains(
            i as usize,
        ),
        forall|a: int, b: int| 0 <= a < b < r@.len() ==> r@[a] < r@[b],
{
    let mut r: Vec<usize> = Vec::new();
    let mut k: usize = 0;
    while k < procs.len()
        invariant
            0 <= k <= procs@.len(),
            forall|j: int| 0 <= j < r@.len() ==> r@[j] < k && is_kill_target(procs@[r@[j] as int]@),
            forall|i: int| 0 <= i < k && is_kill_target(#[trigger] procs@[i]@) ==> r@.contains(i as usize),
            forall|a: int, b: int| 0 <= a < b < r@.len() ==> r@[a] < r@[b],
        decreases procs@.len() - k,
    {
        let name = chars_of(procs[k].as_str());
        if !holds(&name, "SquadGameServer") && (holds(&name, "SquadGame-Win64-Shipping") || holds(
            &name,
            "squad_launcher",
        )) {
            let ghost before = r@;
            r.push(k);
            proof {
                assert forall|i: int| 0 <= i < k + 1 && is_kill_target(#[trigger] procs@[i]@) implies r@.contains(
                    i as usize,
                ) by {
                    if i < k {
                        let j = choose|j: int| 0 <= j < before.len() && before[j] == i as usize;
                        assert(r@[j] == i as usize);
                    } else {
                        assert(r@[before.len() as int] == k);
                    }
                }
            }
        }
        k = k + 1;
    }
    r
}

proof fn lemma_contains_at(pre: Seq<char>, p: Seq<char>, post: Seq<char>)
    ensures
        contains(pre + p + post, p),
{
    let s = pre + p + post;
    crate::text::lemma_find_from_first(s, p, 0);
    assert(s.subrange(pre.len() as int, pre.len() + p.len() as int) =~= p);
    assert(crate::text::occurs_at(s, p, pre.len() as int));
}

/// Which processes count: any name that holds the client's name is the game
/// client; Steam's process is `steam.exe` or `steam` in any ASCII case; what
/// is closed at the end of seeding is the client or the launcher, but never a
/// name that holds the dedicated server's name.
pub proof fn lemma_process_kinds(pre: Seq<char>, post: Seq<char>, name: Seq<char>)
    ensures
        is_squad_client(pre + "SquadGame-Win64-Shipping"@ + post),
        !contains(pre + "squad_launcher"@ + post, "SquadGameServer"@) ==> is_kill_target(
            pre + "squad_launcher"@ + post,
        ),
        !contains(pre + "SquadGame-Win64-Shipping"@ + post, "SquadGameServer"@) ==> is_kill_target(
            pre + "SquadGame-Win64-Shipping"@ + post,
        ),
        contains(name, "SquadGameServer"@) ==> !is_kill_target(name),
        is_steam("steam.exe"@) && is_steam("Steam.exe"@) && is_steam("STEAM"@) && is_steam("steam"@),
        !is_steam("steamwebhelper.exe"@),
{
    lemma_contains_at(pre, "SquadGame-Win64-Shipping"@, post);
    lemma_contains_at(pre, "squad_launcher"@, post);
    reveal_strlit("steam.exe");
    reveal_strlit("Steam.exe");
    reveal_strlit("STEAM");
    reveal_strlit("steam");
    reveal_strlit("steamwebhelper.exe");
}

} // verus!
