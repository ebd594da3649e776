use steam_broker::protocol::Relationship;
use steam_broker::response::{connect_response, player_response};
use steam_broker::steam::PlayerSnapshot;

fn snapshot() -> PlayerSnapshot {
    PlayerSnapshot {
        steamid: 0x0110_0001_0000_0002,
        name: None,
        avatar_small: None,
        avatar_medium: None,
        avatar_large: None,
        relationship: Relationship::NoRelation,
        game_app_id: None,
        persona_state: None,
        country: None,
        rich_presence: None,
    }
}

fn number(bytes: &[u8]) -> u64 {
    bytes.iter().rev().fold(0, |x, b| x << 8 | *b as u64)
}

fn flags(payload: &[u8]) -> u64 {
    number(&payload[19..23])
}

fn fields(payload: &[u8]) -> Vec<(u8, Vec<u8>)> {
    let mut found = Vec::new();
    let mut at = 23;
    while at < payload.len() {
        let len = number(&payload[at + 1..at + 5]) as usize;
        found.push((payload[at], payload[at + 5..at + 5 + len].to_vec()));
        at += 5 + len;
    }
    assert_eq!(at, payload.len());
    found
}

#[test]
fn connect_response_spells_out_its_parts() {
    assert_eq!(
        connect_response(0x01020304, 0x0110000100000002, b"tick"),
        b"sb_connect\n\x04\x03\x02\x01\x02\x00\x00\x00\x01\x00\x10\x01\x04\x00\x00\x00tick"
    );
}

#[test]
fn negative_challenge_keeps_its_bits() {
    let payload = connect_response(-2, 0, b"");
    assert_eq!(&payload[11..15], b"\xfe\xff\xff\xff");
    assert_eq!(payload.len(), 27);
    assert_eq!(
        connect_response(i32::MIN, 0, b"")[11..15],
        *b"\x00\x00\x00\x80"
    );
}

#[test]
fn different_challenges_differ_on_the_wire() {
    let challenges = [0, 1, -1, i32::MIN, i32::MAX];
    for x in challenges {
        for y in challenges {
            assert_eq!(
                connect_response(x, 7, b"t") == connect_response(y, 7, b"t"),
                x == y
            );
        }
    }
}

#[test]
fn connect_response_reads_back() {
    let ticket = vec![9; 300];
    let payload = connect_response(77, 123456789, &ticket);
    assert_eq!(number(&payload[11..15]), 77);
    assert_eq!(number(&payload[15..23]), 123456789);
    assert_eq!(number(&payload[23..27]), 300);
    assert_eq!(payload[27..], ticket[..]);
}

#[test]
fn bare_player_has_a_relationship_only() {
    assert_eq!(
        player_response(&snapshot()),
        b"sb_playerx\n\x02\x00\x00\x00\x01\x00\x10\x01\x10\x00\x00\x00\x05\x01\x00\x00\x00\x00"
    );
}

#[test]
fn all_fields_come_in_their_order() {
    let mut all = snapshot();
    all.name = Some("n\u{e9}".to_string());
    all.avatar_small = Some(vec![1, 2, 3]);
    all.avatar_medium = Some(vec![4]);
    all.avatar_large = Some(vec![]);
    all.relationship = Relationship::RequestingFriendship;
    all.country = Some("de".to_string());
    all.game_app_id = Some(0x01020304);
    all.rich_presence = Some(vec![("k".to_string(), "vv".to_string())]);
    all.persona_state = Some(6);
    let payload = player_response(&all);
    assert_eq!(&payload[..11], b"sb_playerx\n");
    assert_eq!(number(&payload[11..19]), all.steamid);
    assert_eq!(flags(&payload), 0x1ff);
    assert_eq!(
        fields(&payload),
        vec![
            (1, "n\u{e9}".as_bytes().to_vec()),
            (2, vec![1, 2, 3]),
            (3, vec![4]),
            (4, vec![]),
            (5, vec![4]),
            (6, b"de".to_vec()),
            (7, vec![4, 3, 2, 1]),
            (8, b"\x01\x00k\x02\x00vv".to_vec()),
            (9, vec![6]),
        ]
    );
}

#[test]
fn field_too_long_is_left_out_and_later_ones_still_come() {
    let mut big = snapshot();
    big.name = Some("ok".to_string());
    big.avatar_small = Some(vec![0; 4096]);
    big.persona_state = Some(1);
    let payload = player_response(&big);
    assert_eq!(flags(&payload), 0x111);
    assert_eq!(
        fields(&payload),
        vec![(1, b"ok".to_vec()), (5, vec![0]), (9, vec![1])]
    );
}

#[test]
fn response_may_fill_the_payload_to_its_limit() {
    let mut full = snapshot();
    full.avatar_small = Some(vec![3; 4096 - 23 - 5 - 6]);
    let payload = player_response(&full);
    assert_eq!(payload.len(), 4096);
    assert_eq!(flags(&payload), 0x12);
    full.avatar_small = Some(vec![3; 4096 - 23 - 5 - 5]);
    let payload = player_response(&full);
    assert_eq!(payload.len(), 4091);
    assert_eq!(flags(&payload), 0x02);
}

#[test]
fn flags_tell_which_fields_are_there() {
    for bits in 0..32u32 {
        let mut some = snapshot();
        if bits & 1 != 0 {
            some.name = Some("a".to_string());
        }
        if bits & 2 != 0 {
            some.avatar_small = Some(vec![0; 5000]);
        }
        if bits & 4 != 0 {
            some.country = Some("b".to_string());
        }
        if bits & 8 != 0 {
            some.game_app_id = Some(3);
        }
        if bits & 16 != 0 {
            some.persona_state = Some(0);
        }
        let payload = player_response(&some);
        let told = fields(&payload).iter().fold(0u64, |x, f| x | 1 << (f.0 - 1));
        assert_eq!(flags(&payload), told);
        assert_eq!(told & 2, 0);
    }
}

#[test]
fn rich_presence_reads_back_without_what_is_too_long() {
    let long = "x".repeat(65536);
    let mut rich = snapshot();
    rich.rich_presence = Some(vec![
        ("status".to_string(), "In lobby".to_string()),
        (long.clone(), "v".to_string()),
        ("k".to_string(), long.clone()),
        ("".to_string(), "".to_string()),
    ]);
    let payload = player_response(&rich);
    let found = fields(&payload);
    assert_eq!(
        found[1],
        (8, b"\x06\x00status\x08\x00In lobby\x00\x00\x00\x00".to_vec())
    );
}

#[test]
fn rich_presence_with_nothing_to_tell_is_left_out() {
    let mut none = snapshot();
    none.rich_presence = Some(vec![]);
    assert_eq!(flags(&player_response(&none)), 0x10);
    none.rich_presence = Some(vec![("y".repeat(65536), String::new())]);
    assert_eq!(flags(&player_response(&none)), 0x10);
}
