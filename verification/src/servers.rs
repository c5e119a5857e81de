//! The PSTN servers: their tags and names on the hub, the status the hub
//! reports for each, and what the window shows of it.
use vstd::prelude::*;
use crate::text::{
    chars_of, find_from, find_in, join_with, push_str, str_eq, string_of, trim_end, trim_end_bound,
};

verus! {

/// The hub's tag of a server number.
pub open spec fn tag_of(n: u8) -> Option<Seq<char>> {
    if n == 1 {
        Some("A"@)
    } else if n == 2 {
        Some("B"@)
    } else if n == 3 {
        Some("C"@)
    } else if n == 4 {
        Some("D"@)
    } else {
        None
    }
}

/// The hub's tag (`A` to `D`) of server `server_num` (1 to 4).
pub fn tag_for(server_num: u8) -> (r: Option<&'static str>)
    ensures
        match r {
            Some(t) => tag_of(server_num) == Some(t@),
            None => tag_of(server_num) is None,
        },
{
    if server_num == 1 {
        Some("A")
    } else if server_num == 2 {
        Some("B")
    } else if server_num == 3 {
        Some("C")
    } else if server_num == 4 {
        Some("D")
    } else {
        None
    }
}

/// The server number of a hub tag.
pub open spec fn num_of_tag(tag: Seq<char>) -> Option<u8> {
    if tag == "A"@ {
        Some(1u8)
    } else if tag == "B"@ {
        Some(2u8)
    } else if tag == "C"@ {
        Some(3u8)
    } else if tag == "D"@ {
        Some(4u8)
    } else {
        None
    }
}

/// The server number (1 to 4) of a hub tag (`A` to `D`).
pub fn num_from_tag(tag: &str) -> (r: Option<u8>)
    ensures
        r == num_of_tag(tag@),
{
    if str_eq(tag, "A") {
        Some(1)
    } else if str_eq(tag, "B") {
        Some(2)
    } else if str_eq(tag, "C") {
        Some(3)
    } else if str_eq(tag, "D") {
        Some(4)
    } else {
        None
    }
}

/// The display name of a server number.
pub open spec fn name_of(n: u8) -> Seq<char> {
    if n == 1 {
        "PSTN #1 Первый Сервер"@
    } else if n == 2 {
        "PSTN #2 Инвага"@
    } else if n == 3 {
        "PSTN #3 ВС РФ vs ВСУ 24/7"@
    } else if n == 4 {
        "PSTN #4 Все режимы"@
    } else {
        "Unknown"@
    }
}

/// The display name of server `server_num`, `Unknown` for other numbers.
pub fn name_for(server_num: u8) -> (r: &'static str)
    ensures
        r@ == name_of(server_num),
{
    if server_num == 1 {
        "PSTN #1 Первый Сервер"
    } else if server_num == 2 {
        "PSTN #2 Инвага"
    } else if server_num == 3 {
        "PSTN #3 ВС РФ vs ВСУ 24/7"
    } else if server_num == 4 {
        "PSTN #4 Все режимы"
    } else {
        "Unknown"
    }
}

/// A server name without the trailing `| pstnsquad…` domain part and the
/// whitespace before it.
pub open spec fn cleaned(name: Seq<char>) -> Seq<char> {
    match find_from(name, "| pstnsquad"@, 0) {
        Some(i) => trim_end(name.take(i)),
        None => name,
    }
}

/// A cleaned name is the beginning of the name, and cleaning it again
/// changes nothing.
pub proof fn lemma_cleaned_prefix_idempotent(name: Seq<char>)
    ensures
        cleaned(name).len() <= name.len(),
        cleaned(name) == name.take(cleaned(name).len() as int),
        cleaned(cleaned(name)) == cleaned(name),
{
    let p = "| pstnsquad"@;
    match find_from(name, p, 0) {
        Some(j) => {
            crate::text::lemma_find_from_bounds(name, p, 0);
            crate::text::lemma_find_from_first(name, p, 0);
            let t = name.take(j);
            crate::text::lemma_trim_end_prefix(t);
            let r = trim_end(t);
            let m = r.len() as int;
            assert(r =~= name.take(m));
            assert forall|k: int| 0 <= k implies !#[trigger] crate::text::occurs_at(r, p, k) by {
                if crate::text::occurs_at(r, p, k) {
                    reveal_strlit("| pstnsquad");
                    assert(r.subrange(k, k + p.len()) =~= name.subrange(k, k + p.len()));
                    assert(crate::text::occurs_at(name, p, k));
                }
            }
            crate::text::lemma_find_from_none(r, p, 0);
        },
        None => {
            assert(name.take(name.len() as int) =~= name);
        },
    }
}

/// Strips `| pstnsquad.ru` (and what follows it) from a server name.
pub fn clean_name(name: &str) -> (r: &str)
    ensures
        r@ == cleaned(name@),
{
    let cs = chars_of(name);
    let pat = chars_of("| pstnsquad");
    match find_in(&cs, 0, &pat) {
        Some(i) => {
            proof {
                crate::text::lemma_find_from_bounds(cs@, pat@, 0);
                assert(crate::text::occurs_at(cs@, pat@, i as int));
            }
            let b = trim_end_bound(&cs, 0, i);
            assert(cs@.subrange(0, i as int) == cs@.take(i as int));
            name.substring_char(0, b)
        },
        None => name,
    }
}

/// What the hub reports of one server.
#[derive(Clone, Debug)]
pub struct ServerData {
    pub name: String,
    pub state: String,
    pub players: u32,
    pub max_players: u32,
    pub queue: u32,
    pub layer: String,
    pub team1_faction: String,
    pub team2_faction: String,
}

/// The player limit assumed when the hub does not report one.
pub fn default_max() -> (r: u32)
    ensures
        r == 100,
{
    100
}

impl ServerData {
    /// Whether the hub reports the server as `online`.
    pub fn is_online(&self) -> (r: bool)
        ensures
            r == (self.state@ == "online"@),
    {
        str_eq(self.state.as_str(), "online")
    }
}


/// Why a server's status is not in the hub's answer.
#[derive(Clone, Copy, Debug, PartialEq, Eq, Structural)]
pub enum LookupError {
    /// The number is not one of the four servers.
    UnknownServer,
    /// The hub's answer has no entry for the server's tag.
    NotInResponse,
}

/// The first index of `servers` whose key is `tag`.
pub open spec fn first_key(servers: Seq<(String, ServerData)>, tag: Seq<char>, k: int) -> Option<int>
    decreases servers.len() - k,
{
    if k < 0 || k >= servers.len() {
        None
    } else if servers[k].0@ == tag {
        Some(k)
    } else {
        first_key(servers, tag, k + 1)
    }
}

/// No two entries share a key, as in the hub's answer, which is a map.
pub open spec fn unique_keys(servers: Seq<(String, ServerData)>) -> bool {
    forall|i: int, j: int|
        0 <= i < servers.len() && 0 <= j < servers.len() && i != j ==> #[trigger] servers[i].0@
            != #[trigger] servers[j].0@
}

proof fn lemma_first_key_at(servers: Seq<(String, ServerData)>, tag: Seq<char>, i: int, k: int)
    requires
        0 <= i <= k < servers.len(),
        servers[k].0@ == tag,
        forall|j: int| i <= j < k ==> #[trigger] servers[j].0@ != tag,
    ensures
        first_key(servers, tag, i) == Some(k),
    decreases k - i,
{
    if i < k {
        lemma_first_key_at(servers, tag, i + 1, k);
    }
}

/// With keys that are unique, as the hub's map gives them, the entry found
/// for a tag is the one entry with that tag: a lookup by key.
pub proof fn lemma_first_key_is_lookup(servers: Seq<(String, ServerData)>, tag: Seq<char>, k: int)
    requires
        unique_keys(servers),
        0 <= k < servers.len(),
        servers[k].0@ == tag,
    ensures
        first_key(servers, tag, 0) == Some(k),
{
    assert forall|j: int| 0 <= j < k implies #[trigger] servers[j].0@ != tag by {
        assert(servers[j].0@ != servers[k].0@);
    }
    lemma_first_key_at(servers, tag, 0, k);
}

/// The position of server `server_num`'s status in the hub's answer
/// (status by tag): the first entry with the server's tag.
pub fn pick_server(servers: &Vec<(String, ServerData)>, server_num: u8) -> (r: Result<
    usize,
    LookupError,
>)
    ensures
        match tag_of(server_num) {
            None => r == Err::<usize, LookupError>(LookupError::UnknownServer),
            Some(tag) => match first_key(servers@, tag, 0) {
                Some(k) => r == Ok::<usize, LookupError>(k as usize),
                None => r == Err::<usize, LookupError>(LookupError::NotInResponse),
            },
        },
        r matches Ok(k) ==> k < servers@.len() && servers@[k as int].0@ == tag_of(server_num)->0,
{
    let tag = match tag_for(server_num) {
        Some(t) => t,
        None => return Err(LookupError::UnknownServer),
    };
    let mut k: usize = 0;
    while k < servers.len()
        invariant
            0 <= k <= servers@.len(),
            tag_of(server_num) == Some(tag@),
            first_key(servers@, tag@, 0) == first_key(servers@, tag@, k as int),
        decreases servers@.len() - k,
    {
        if str_eq(servers[k].0.as_str(), tag) {
            assert(first_key(servers@, tag@, k as int) == Some(k as int));
            return Ok(k);
        }
        k = k + 1;
    }
    Err(LookupError::NotInResponse)
}

/// The server numbers of `tags`, skipping the tags that name no server.
pub open spec fn order_of_tags(tags: Seq<Seq<char>>) -> Seq<u8>
    decreases tags.len(),
{
    if tags.len() == 0 {
        Seq::empty()
    } else {
        let rest = order_of_tags(tags.drop_last());
        match num_of_tag(tags.last()) {
            Some(n) => rest.push(n),
            None => rest,
        }
    }
}

/// The seed order from the hub's list of tags.
pub fn seed_order_from_tags(tags: &Vec<String>) -> (r: Vec<u8>)
    ensures
        r@ == order_of_tags(Seq::new(tags@.len(), |i: int| tags@[i]@)),
{
    let ghost ts = Seq::new(tags@.len(), |i: int| tags@[i]@);
    let mut r: Vec<u8> = Vec::new();
    let mut k: usize = 0;
    while k < tags.len()
        invariant
            0 <= k <= tags@.len(),
            ts == Seq::new(tags@.len(), |i: int| tags@[i]@),
            r@ == order_of_tags(ts.take(k as int)),
        decreases tags@.len() - k,
    {
        proof {
            assert(ts.take(k + 1).drop_last() == ts.take(k as int));
            assert(ts.take(k + 1).last() == tags@[k as int]@);
        }
        match num_from_tag(tags[k].as_str()) {
            Some(n) => r.push(n),
            None => {},
        }
        k = k + 1;
    }
    assert(ts.take(tags@.len() as int) == ts);
    r
}

/// What the window shows of one server.
#[derive(Clone, Debug)]
pub struct ServerCard {
    pub name: String,
    pub online: bool,
    pub players: i32,
    pub max_players: i32,
    pub queue: i32,
    pub map: String,
    pub faction1: String,
    pub faction2: String,
}

/// The card of server `num` given its status: an online server shows its
/// reported name (or its own name when the hub sends none) without the
/// domain part, and the hub's figures; otherwise the card shows the server's
/// name, offline, with no players of 100.
pub open spec fn card_of(num: u8, data: Option<ServerData>, c: ServerCard) -> bool {
    match data {
        Some(d) if d.state@ == "online"@ => {
            &&& c.name@ == cleaned(
                if d.name@.len() == 0 {
                    name_of(num)
                } else {
                    d.name@
                },
            )
            &&& c.online
            &&& c.players == d.players as i32
            &&& c.max_players == d.max_players as i32
            &&& c.queue == d.queue as i32
            &&& c.map@ == d.layer@
            &&& c.faction1@ == d.team1_faction@
            &&& c.faction2@ == d.team2_faction@
        },
        _ => {
            &&& c.name@ == name_of(num)
            &&& !c.online
            &&& c.players == 0
            &&& c.max_players == 100
            &&& c.queue == 0
            &&& c.map@ == Seq::<char>::empty()
            &&& c.faction1@ == Seq::<char>::empty()
            &&& c.faction2@ == Seq::<char>::empty()
        },
    }
}

/// The card of server `num` from its status in the hub's answer, if any.
pub fn server_card(num: u8, data: Option<&ServerData>) -> (c: ServerCard)
    ensures
        c.online == (data matches Some(d) && d.state@ == "online"@),
        !c.online ==> c.name@ == name_of(num) && c.players == 0 && c.max_players == 100 && c.queue == 0,
        c.online ==> (data matches Some(d) && c.players == d.players as i32 && c.max_players
            == d.max_players as i32 && c.queue == d.queue as i32 && c.map@ == d.layer@),
        card_of(
            num,
            match data {
                Some(d) => Some(*d),
                None => None,
            },
            c,
        ),
{
    match data {
        Some(d) => {
            if d.is_online() {
                let shown = if d.name.as_str().unicode_len() == 0 {
                    name_for(num)
                } else {
                    d.name.as_str()
                };
                let cleaned_name = clean_name(shown);
                return ServerCard {
                    name: String::from_str(cleaned_name),
                    online: true,
                    players: d.players as i32,
                    max_players: d.max_players as i32,
                    queue: d.queue as i32,
                    map: d.layer.clone(),
                    faction1: d.team1_faction.clone(),
                    faction2: d.team2_faction.clone(),
                };
            }
        },
        None => {},
    }
    ServerCard {
        name: String::from_str(name_for(num)),
        online: false,
        players: 0,
        max_players: 100,
        queue: 0,
        map: String::new(),
        faction1: String::new(),
        faction2: String::new(),
    }
}


/// The seed order as the window shows it: the servers' names joined with ` → `.
pub open spec fn order_display(order: Seq<u8>) -> Seq<char> {
    join_with(Seq::new(order.len(), |i: int| name_of(order[i])), " → "@)
}

pub fn seed_order_display(order: &Vec<u8>) -> (r: String)
    ensures
        r@ == order_display(order@),
{
    let ghost parts = Seq::new(order@.len(), |i: int| name_of(order@[i]));
    let mut out: Vec<char> = Vec::new();
    let mut i: usize = 0;
    while i < order.len()
        invariant
            0 <= i <= order@.len(),
            parts == Seq::new(order@.len(), |i: int| name_of(order@[i])),
            out@ == join_with(parts.take(i as int), " → "@),
        decreases order@.len() - i,
    {
        proof {
            assert(parts.take(i + 1).drop_last() == parts.take(i as int));
            assert(parts.take(i + 1).last() == name_of(order@[i as int]));
        }
        if i > 0 {
            push_str(&mut out, " → ");
        } else {
            assert(parts.take(0) =~= Seq::<Seq<char>>::empty());
            assert(out@ =~= Seq::<char>::empty());
        }
        push_str(&mut out, name_for(order[i]));
        i = i + 1;
        proof {
            if i == 1 {
                assert(out@ =~= parts.take(1)[0]);
            }
        }
    }
    assert(parts.take(order@.len() as int) =~= parts);
    string_of(&out)
}


/// The tag of each of the four servers names that server again.
pub proof fn lemma_tag_roundtrip(n: u8)
    requires
        1 <= n <= 4,
    ensures
        tag_of(n) is Some,
        num_of_tag(tag_of(n)->0) == Some(n),
{
    reveal_strlit("A");
    reveal_strlit("B");
    reveal_strlit("C");
    reveal_strlit("D");
    assert("A"@[0] != "B"@[0] && "A"@[0] != "C"@[0] && "A"@[0] != "D"@[0]);
    assert("B"@[0] != "C"@[0] && "B"@[0] != "D"@[0] && "C"@[0] != "D"@[0]);
}

/// The numbers of the servers' tags, in order, are the order itself.
pub proof fn lemma_order_of_tags_roundtrip(order: Seq<u8>)
    requires
        forall|i: int| 0 <= i < order.len() ==> 1 <= #[trigger] order[i] <= 4,
    ensures
        order_of_tags(Seq::new(order.len(), |i: int| tag_of(order[i])->0)) == order,
    decreases order.len(),
{
    let tags = Seq::new(order.len(), |i: int| tag_of(order[i])->0);
    if order.len() > 0 {
        let o = order.drop_last();
        lemma_order_of_tags_roundtrip(o);
        assert(tags.drop_last() =~= Seq::new(o.len(), |i: int| tag_of(o[i])->0));
        lemma_tag_roundtrip(order.last());
        assert(o.push(order.last()) =~= order);
    } else {
        assert(order =~= Seq::<u8>::empty());
    }
}

// ── the player's server ──────────────────────────────────────────────────────

/// The next step in finding the server the player is on.
#[derive(Clone, Copy, Debug, PartialEq, Eq, Structural)]
pub enum PlayerQuery {
    /// Ask the hub whether the player is on this server.
    Ask(u8),
    /// The player is on this server.
    Found(u8),
    /// The player is on none of the servers (or the SteamID is not 17 bytes long).
    NotFound,
}

/// The servers are asked in turn, 1 to 4, for a SteamID of 17 bytes;
/// `answers[k]` tells whether the hub said the player is on server `k + 1`
/// (a failed request counts as no). The search ends at the first yes.
pub open spec fn player_query(id_bytes: nat, answers: Seq<bool>) -> PlayerQuery {
    if id_bytes != 17 {
        PlayerQuery::NotFound
    } else if answers.len() > 0 && answers.last() {
        PlayerQuery::Found(answers.len() as u8)
    } else if answers.len() < 4 {
        PlayerQuery::Ask((answers.len() + 1) as u8)
    } else {
        PlayerQuery::NotFound
    }
}

/// The number the window shows for the player's server: the first server
/// that answered yes, 0 for none.
pub open spec fn player_server_of(id_bytes: nat, yes: Seq<bool>) -> u8
    decreases yes.len(),
{
    if id_bytes != 17 || yes.len() == 0 {
        0
    } else {
        let rest = player_server_of(id_bytes, yes.drop_last());
        if rest != 0 {
            rest
        } else if yes.last() {
            yes.len() as u8
        } else {
            0
        }
    }
}

/// Driving the search with the answers of servers 1 to 4 finds the first
/// server that answered yes: each server is asked only while the earlier
/// ones said no, and the search ends with that server or with none.
pub proof fn lemma_player_query_first_yes(id_bytes: nat, yes: Seq<bool>, k: int)
    requires
        yes.len() == 4,
        0 <= k <= 4,
        forall|j: int| 0 <= j < k ==> !#[trigger] yes[j],
    ensures
        k < 4 && id_bytes == 17 ==> player_query(id_bytes, yes.take(k)) == PlayerQuery::Ask((k + 1) as u8),
        k < 4 && yes[k] && id_bytes == 17 ==> player_query(id_bytes, yes.take(k + 1)) == PlayerQuery::Found((k + 1) as u8)
            && player_server_of(id_bytes, yes) == k + 1,
        k == 4 ==> player_query(id_bytes, yes.take(k)) == PlayerQuery::NotFound
            && player_server_of(id_bytes, yes) == 0,
        id_bytes != 17 ==> player_query(id_bytes, yes.take(k)) == PlayerQuery::NotFound
            && player_server_of(id_bytes, yes) == 0,
{
    assert(yes.take(4) == yes);
    if k < 4 && yes[k] && id_bytes == 17 {
        assert(yes.take(k + 1).last() == yes[k]);
        lemma_player_server_prefix(id_bytes, yes, k + 1);
    }
    if k == 4 || id_bytes != 17 {
        lemma_player_server_none(id_bytes, yes, k);
    }
}

proof fn lemma_player_server_prefix(id_bytes: nat, yes: Seq<bool>, n: int)
    requires
        id_bytes == 17,
        1 <= n <= yes.len() <= 4,
        yes[n - 1],
        forall|j: int| 0 <= j < n - 1 ==> !#[trigger] yes[j],
    ensures
        player_server_of(id_bytes, yes) == n,
    decreases yes.len(),
{
    if yes.len() > n {
        assert(yes.drop_last()[n - 1] == yes[n - 1]);
        assert forall|j: int| 0 <= j < n - 1 implies !#[trigger] yes.drop_last()[j] by {
            assert(yes.drop_last()[j] == yes[j]);
        }
        lemma_player_server_prefix(id_bytes, yes.drop_last(), n);
    } else {
        lemma_player_server_none(id_bytes, yes.drop_last(), n - 1);
    }
}

proof fn lemma_player_server_none(id_bytes: nat, yes: Seq<bool>, k: int)
    requires
        0 <= k <= yes.len() <= 4,
        k == yes.len() || id_bytes != 17,
        forall|j: int| 0 <= j < k ==> !#[trigger] yes[j],
    ensures
        player_server_of(id_bytes, yes) == 0,
    decreases yes.len(),
{
    if id_bytes == 17 && yes.len() > 0 {
        assert forall|j: int| 0 <= j < k - 1 implies !#[trigger] yes.drop_last()[j] by {
            assert(yes.drop_last()[j] == yes[j]);
        }
        lemma_player_server_none(id_bytes, yes.drop_last(), k - 1);
    }
}

/// The next step in finding the player's server, after `answers`.
pub fn next_player_query(steam_id: &str, answers: &Vec<bool>) -> (q: PlayerQuery)
    requires
        answers.len() <= 4,
    ensures
        q == player_query(steam_id.len() as nat, answers@),
{
    if steam_id.len() != 17 {
        PlayerQuery::NotFound
    } else if answers.len() > 0 && answers[answers.len() - 1] {
        PlayerQuery::Found(answers.len() as u8)
    } else if answers.len() < 4 {
        PlayerQuery::Ask((answers.len() + 1) as u8)
    } else {
        PlayerQuery::NotFound
    }
}

} // verus!
