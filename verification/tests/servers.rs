use seed_helper::servers::{
    clean_name, default_max, name_for, num_from_tag, pick_server, seed_order_display,
    seed_order_from_tags, server_card, tag_for, next_player_query, LookupError, PlayerQuery,
    ServerData,
};

fn data(name: &str, state: &str, players: u32) -> ServerData {
    ServerData {
        name: name.to_string(),
        state: state.to_string(),
        players,
        max_players: 100,
        queue: 3,
        layer: "Narva_RAAS_v1".to_string(),
        team1_faction: "RGF".to_string(),
        team2_faction: "USA".to_string(),
    }
}

#[test]
fn clean_name_strips_domain() {
    assert_eq!(clean_name("PSTN #1 Первый Сервер | pstnsquad.ru"), "PSTN #1 Первый Сервер");
    assert_eq!(clean_name("PSTN #2   | pstnsquad.ru | discord"), "PSTN #2");
    assert_eq!(clean_name("Plain name"), "Plain name");
    assert_eq!(clean_name("| pstnsquad.ru"), "");
}

#[test]
fn tags_and_numbers() {
    assert_eq!(tag_for(1), Some("A"));
    assert_eq!(tag_for(4), Some("D"));
    assert_eq!(tag_for(0), None);
    assert_eq!(tag_for(5), None);
    assert_eq!(num_from_tag("B"), Some(2));
    assert_eq!(num_from_tag("C"), Some(3));
    assert_eq!(num_from_tag("E"), None);
    assert_eq!(num_from_tag("a"), None);
    for n in 1u8..=4 {
        assert_eq!(num_from_tag(tag_for(n).unwrap()), Some(n));
    }
}

#[test]
fn names_of_servers() {
    assert_eq!(name_for(1), "PSTN #1 Первый Сервер");
    assert_eq!(name_for(2), "PSTN #2 Инвага");
    assert_eq!(name_for(3), "PSTN #3 ВС РФ vs ВСУ 24/7");
    assert_eq!(name_for(4), "PSTN #4 Все режимы");
    assert_eq!(name_for(9), "Unknown");
}

#[test]
fn online_state() {
    assert!(data("", "online", 1).is_online());
    assert!(!data("", "offline", 1).is_online());
    assert!(!data("", "Online", 1).is_online());
    assert_eq!(default_max(), 100);
}

#[test]
fn pick_server_by_tag() {
    let servers = vec![
        ("B".to_string(), data("b", "online", 10)),
        ("A".to_string(), data("a", "online", 20)),
    ];
    assert_eq!(pick_server(&servers, 1), Ok(1));
    assert_eq!(pick_server(&servers, 2), Ok(0));
    assert_eq!(pick_server(&servers, 3), Err(LookupError::NotInResponse));
    assert_eq!(pick_server(&servers, 7), Err(LookupError::UnknownServer));
}

#[test]
fn seed_order_from_hub_tags() {
    let tags = vec!["C".to_string(), "X".to_string(), "A".to_string(), "D".to_string()];
    assert_eq!(seed_order_from_tags(&tags), vec![3, 1, 4]);
    assert_eq!(seed_order_from_tags(&vec![]), Vec::<u8>::new());
}

#[test]
fn cards_of_servers() {
    let d = data("PSTN #2 Инвага | pstnsquad.ru", "online", 42);
    let c = server_card(2, Some(&d));
    assert_eq!(c.name, "PSTN #2 Инвага");
    assert!(c.online);
    assert_eq!(c.players, 42);
    assert_eq!(c.max_players, 100);
    assert_eq!(c.queue, 3);
    assert_eq!(c.map, "Narva_RAAS_v1");
    assert_eq!(c.faction1, "RGF");
    assert_eq!(c.faction2, "USA");

    let unnamed = data("", "online", 5);
    assert_eq!(server_card(3, Some(&unnamed)).name, "PSTN #3 ВС РФ vs ВСУ 24/7");

    let off = data("x", "offline", 70);
    let c = server_card(1, Some(&off));
    assert_eq!(c.name, "PSTN #1 Первый Сервер");
    assert!(!c.online);
    assert_eq!((c.players, c.max_players, c.queue), (0, 100, 0));
    assert_eq!(c.map, "");

    let c = server_card(4, None);
    assert_eq!(c.name, "PSTN #4 Все режимы");
    assert!(!c.online);
}

#[test]
fn order_display() {
    assert_eq!(
        seed_order_display(&vec![2, 1]),
        "PSTN #2 Инвага → PSTN #1 Первый Сервер"
    );
    assert_eq!(seed_order_display(&vec![]), "");
    assert_eq!(seed_order_display(&vec![7]), "Unknown");
}

#[test]
fn cleaning_twice_changes_nothing() {
    for n in ["PSTN #2 Инвага   | pstnsquad.ru | pstnsquad.ru", "plain", "| pstnsquad", "a |pstnsquad"] {
        let once = clean_name(n);
        assert!(n.starts_with(once));
        assert_eq!(clean_name(once), once);
    }
    assert_eq!(clean_name("PSTN #2 Инвага   | pstnsquad.ru"), "PSTN #2 Инвага");
    assert_eq!(clean_name("| pstnsquad"), "");
}

#[test]
fn player_server_search() {
    let id = "76561198000000000";
    assert_eq!(next_player_query(id, &vec![]), PlayerQuery::Ask(1));
    assert_eq!(next_player_query(id, &vec![false, false]), PlayerQuery::Ask(3));
    assert_eq!(next_player_query(id, &vec![false, true]), PlayerQuery::Found(2));
    assert_eq!(next_player_query(id, &vec![false, false, false, false]), PlayerQuery::NotFound);
    assert_eq!(next_player_query("123", &vec![]), PlayerQuery::NotFound);
    // 17 characters but more bytes
    assert_eq!(next_player_query("7656119800000000٣", &vec![]), PlayerQuery::NotFound);
}
