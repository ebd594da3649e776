use steam_broker::avatar::{
    encode_avatar_png, report_encoding, AvatarFetchState, PngFailure, AVATAR_PENDING_TIMEOUT,
    AVATAR_SIZE,
};
use steam_broker::protocol::Relationship;
use steam_broker::steam::{
    persona_state_byte, AvatarDelivery, FriendInfo, FriendState, PlayerFacts, PlayerSnapshot,
    SteamService,
};
use steam_broker::BrokerError;

const PLAYER: u64 = 76561197960287930;
const OTHER: u64 = 76561197960265728;

fn friend(name: &str) -> FriendInfo {
    FriendInfo {
        name: name.to_string(),
        immediate: false,
        blocked: false,
        friendship_requested: false,
        requesting_friendship: false,
        state: FriendState::Online,
        game_played: None,
    }
}

fn picture() -> Vec<u8> {
    (0..32 * 32 * 4).map(|i| (i * 7 % 251) as u8).collect()
}

fn delivery(steamid: u64, name: &str) -> AvatarDelivery {
    AvatarDelivery { steamid, rgba: picture(), friend: friend(name) }
}

fn decoded(file: &[u8]) -> (u32, u32, Vec<u8>) {
    let mut reader = png::Decoder::new(std::io::Cursor::new(file)).read_info().unwrap();
    let mut pixels = vec![0; 1 << 16];
    let info = reader.next_frame(&mut pixels).unwrap();
    assert_eq!(info.color_type, png::ColorType::Rgba);
    assert_eq!(info.bit_depth, png::BitDepth::Eight);
    pixels.truncate(info.buffer_size());
    (info.width, info.height, pixels)
}

fn snapshot_with(info: FriendInfo) -> PlayerSnapshot {
    let mut steam = SteamService::new(70);
    steam.request_player_snapshot(PLAYER, Some(info), 0);
    let (snapshot, _) = steam.try_finalize_player_snapshot(PLAYER, AVATAR_PENDING_TIMEOUT + 1);
    snapshot.unwrap()
}

#[test]
fn avatar_becomes_a_png_file_of_its_pixels() {
    assert_eq!(AVATAR_SIZE, 32);
    let file = encode_avatar_png(&picture(), 32, 32).unwrap();
    assert_eq!(&file[..8], b"\x89PNG\r\n\x1a\n");
    assert_eq!(&file[12..26], b"IHDR\x00\x00\x00\x20\x00\x00\x00\x20\x08\x06");
    assert_eq!(&file[file.len() - 8..file.len() - 4], b"IEND");
    assert_eq!(decoded(&file), (32, 32, picture()));
}

#[test]
fn width_and_height_are_told_apart() {
    let pixels: Vec<u8> = (0..24).collect();
    let file = encode_avatar_png(&pixels, 3, 2).unwrap();
    assert_eq!(decoded(&file), (3, 2, pixels));
}

#[test]
fn encoding_depends_on_its_arguments_alone() {
    assert_eq!(
        encode_avatar_png(&picture(), 32, 32),
        encode_avatar_png(&picture(), 32, 32)
    );
}

#[test]
fn picture_of_another_size_is_refused() {
    for len in [0, 1, 32 * 32 * 4 - 1, 32 * 32 * 4 + 1, 32 * 32 * 3] {
        assert_eq!(
            encode_avatar_png(&vec![0; len], 32, 32),
            Err(BrokerError::Custom("unexpected avatar buffer size"))
        );
    }
}

#[test]
fn picture_without_pixels_gets_no_header() {
    for (width, height) in [(0, 0), (0, 5), (5, 0)] {
        assert_eq!(
            encode_avatar_png(&[], width, height),
            Err(BrokerError::Custom("png header write failed"))
        );
    }
}

#[test]
fn failures_of_the_encoder_are_reported() {
    assert_eq!(report_encoding(Ok(vec![1, 2])), Ok(vec![1, 2]));
    assert_eq!(
        report_encoding(Err(PngFailure::Header)),
        Err(BrokerError::Custom("png header write failed"))
    );
    assert_eq!(
        report_encoding(Err(PngFailure::Data)),
        Err(BrokerError::Custom("png data write failed"))
    );
}

#[test]
fn bytes_of_the_persona_states() {
    assert_eq!(persona_state_byte(FriendState::Offline), 0);
    assert_eq!(persona_state_byte(FriendState::Online), 1);
    assert_eq!(persona_state_byte(FriendState::Busy), 2);
    assert_eq!(persona_state_byte(FriendState::Away), 3);
    assert_eq!(persona_state_byte(FriendState::Snooze), 4);
    assert_eq!(persona_state_byte(FriendState::LookingToTrade), 5);
    assert_eq!(persona_state_byte(FriendState::LookingToPlay), 6);
    assert_eq!(persona_state_byte(FriendState::Invisible), 7);
}

#[test]
fn first_flag_set_decides_the_relationship() {
    let cases = [
        ((false, false, false, false), Relationship::NoRelation),
        ((false, false, false, true), Relationship::RequestingFriendship),
        ((false, false, true, true), Relationship::FriendshipRequested),
        ((false, true, true, true), Relationship::Blocked),
        ((true, true, true, true), Relationship::Friend),
        ((true, false, false, false), Relationship::Friend),
    ];
    for ((immediate, blocked, requested, requesting), expected) in cases {
        let mut info = friend("x");
        info.immediate = immediate;
        info.blocked = blocked;
        info.friendship_requested = requested;
        info.requesting_friendship = requesting;
        assert_eq!(snapshot_with(info).relationship, expected);
    }
}

#[test]
fn facts_are_captured_from_what_steam_tells() {
    let mut info = friend("Gordon");
    info.state = FriendState::Away;
    info.game_played = Some(70);
    let snapshot = snapshot_with(info);
    assert_eq!(snapshot.steamid, PLAYER);
    assert_eq!(snapshot.name.as_deref(), Some("Gordon"));
    assert_eq!(snapshot.persona_state, Some(3));
    assert_eq!(snapshot.game_app_id, Some(70));
    assert_eq!(snapshot.avatar_small, None);
    assert_eq!(snapshot.avatar_medium, None);
    assert_eq!(snapshot.avatar_large, None);
    assert_eq!(snapshot.country, None);
    assert_eq!(snapshot.rich_presence, None);
}

#[test]
fn empty_name_and_no_game_are_left_out() {
    let snapshot = snapshot_with(friend(""));
    assert_eq!(snapshot.name, None);
    assert_eq!(snapshot.game_app_id, None);
}

#[test]
fn application_is_the_low_part_of_a_game_id() {
    let mut info = friend("x");
    info.game_played = Some(0x8123_4567_0200_000a);
    assert_eq!(snapshot_with(info).game_app_id, Some(10));
    let mut info = friend("x");
    info.game_played = Some(u64::MAX);
    assert_eq!(snapshot_with(info).game_app_id, Some(0xff_ffff));
}

#[test]
fn service_remembers_its_application_and_players() {
    let mut steam = SteamService::new(10);
    assert_eq!(steam.app_id(), 10);
    assert!(!steam.tracks(PLAYER));
    assert!(steam.request_player_snapshot(PLAYER, Some(friend("a")), 5));
    assert!(steam.tracks(PLAYER));
    assert!(!steam.tracks(OTHER));
    assert_eq!(steam.app_id(), 10);
}

#[test]
fn steam_is_asked_once_while_a_fetch_is_under_way() {
    let mut steam = SteamService::new(10);
    assert!(steam.request_player_snapshot(PLAYER, Some(friend("a")), 0));
    assert!(!steam.request_player_snapshot(PLAYER, None, 1));
    assert!(!steam.request_player_snapshot(PLAYER, None, AVATAR_PENDING_TIMEOUT));
    assert_eq!(steam.pending_avatars(), vec![PLAYER]);
}

#[test]
fn request_restarts_an_overdue_fetch() {
    let mut steam = SteamService::new(10);
    steam.request_player_snapshot(PLAYER, Some(friend("a")), 0);
    let again = AVATAR_PENDING_TIMEOUT + 1;
    assert!(steam.request_player_snapshot(PLAYER, None, again));
    let end = again + AVATAR_PENDING_TIMEOUT;
    assert!(steam.try_finalize_player_snapshot(PLAYER, end).0.is_none());
    assert!(steam.try_finalize_player_snapshot(PLAYER, end + 1).0.is_some());
}

#[test]
fn request_restarts_a_fetch_that_was_given_up() {
    let mut steam = SteamService::new(10);
    steam.request_player_snapshot(PLAYER, Some(friend("a")), 0);
    let (state, _) = steam.poll_avatar(PLAYER, AVATAR_PENDING_TIMEOUT + 1);
    assert!(matches!(state, AvatarFetchState::Unavailable));
    assert!(steam.request_player_snapshot(PLAYER, None, 7));
    assert_eq!(steam.pending_avatars(), vec![PLAYER]);
    let (state, ask) = steam.poll_avatar(PLAYER, 7 + AVATAR_PENDING_TIMEOUT);
    assert!(matches!(state, AvatarFetchState::Pending));
    assert!(!ask);
    steam.process_pending_avatars(vec![delivery(PLAYER, "b")]);
    let snapshot = steam.try_finalize_player_snapshot(PLAYER, 8).0.unwrap();
    assert!(snapshot.avatar_small.is_some());
}

#[test]
fn request_leaves_an_avatar_that_came() {
    let mut steam = SteamService::new(10);
    steam.request_player_snapshot(PLAYER, Some(friend("a")), 0);
    steam.process_pending_avatars(vec![delivery(PLAYER, "a")]);
    assert!(!steam.request_player_snapshot(PLAYER, None, u128::MAX));
    assert!(steam.pending_avatars().is_empty());
    let snapshot = steam.try_finalize_player_snapshot(PLAYER, u128::MAX).0.unwrap();
    assert!(snapshot.avatar_small.is_some());
}

#[test]
fn picture_without_a_pending_fetch_is_ignored() {
    let mut steam = SteamService::new(10);
    steam.process_pending_avatars(vec![delivery(PLAYER, "nobody")]);
    assert!(!steam.tracks(PLAYER));
    steam.capture_player_snapshot(PLAYER, &friend("captured"));
    steam.process_pending_avatars(vec![delivery(PLAYER, "early")]);
    assert!(steam.request_player_snapshot(PLAYER, None, 0));
    let late = AVATAR_PENDING_TIMEOUT + 1;
    assert!(steam.try_finalize_player_snapshot(PLAYER, late).0.is_some());
    steam.process_pending_avatars(vec![delivery(PLAYER, "late")]);
    let snapshot = steam.try_finalize_player_snapshot(PLAYER, late).0.unwrap();
    assert_eq!(snapshot.name.as_deref(), Some("captured"));
    assert_eq!(snapshot.avatar_small, None);
}

#[test]
fn avatar_that_came_is_final() {
    let mut steam = SteamService::new(10);
    steam.request_player_snapshot(PLAYER, Some(friend("a")), 0);
    let mut other = delivery(PLAYER, "second");
    other.rgba = vec![0; 32 * 32 * 4];
    steam.process_pending_avatars(vec![delivery(PLAYER, "first"), other]);
    steam.capture_player_snapshot(PLAYER, &friend("third"));
    for now in [0, u128::MAX] {
        let (state, ask) = steam.poll_avatar(PLAYER, now);
        assert!(matches!(state, AvatarFetchState::Ready(file) if decoded(&file).2 == picture()));
        assert!(!ask);
    }
    let snapshot = steam.try_finalize_player_snapshot(PLAYER, 0).0.unwrap();
    assert_eq!(snapshot.name.as_deref(), Some("third"));
}

#[test]
fn look_at_someone_unknown_asks_and_waits() {
    let mut steam = SteamService::new(10);
    let (state, ask) = steam.poll_avatar(PLAYER, 3);
    assert!(matches!(state, AvatarFetchState::Pending));
    assert!(ask);
    assert!(!steam.tracks(PLAYER));
    let (snapshot, ask) = steam.try_finalize_player_snapshot(PLAYER, 3);
    assert!(snapshot.is_none());
    assert!(ask);
}

#[test]
fn snapshot_waits_for_the_avatar_up_to_the_timeout() {
    let mut steam = SteamService::new(10);
    let begun = 1_000;
    steam.request_player_snapshot(PLAYER, Some(friend("a")), begun);
    for now in [begun, begun + 1, begun + 100_000_000, 0] {
        let (snapshot, ask) = steam.try_finalize_player_snapshot(PLAYER, now);
        assert!(snapshot.is_none());
        assert!(!ask);
    }
    let (snapshot, ask) = steam.try_finalize_player_snapshot(PLAYER, begun + 100_000_001);
    assert_eq!(snapshot.unwrap().avatar_small, None);
    assert!(!ask);
}

#[test]
fn avatar_once_given_up_stays_so() {
    let mut steam = SteamService::new(10);
    steam.request_player_snapshot(PLAYER, Some(friend("a")), 0);
    let (state, _) = steam.poll_avatar(PLAYER, AVATAR_PENDING_TIMEOUT + 1);
    assert!(matches!(state, AvatarFetchState::Unavailable));
    let (state, ask) = steam.poll_avatar(PLAYER, 0);
    assert!(matches!(state, AvatarFetchState::Unavailable));
    assert!(!ask);
    assert!(steam.pending_avatars().is_empty());
}

#[test]
fn delivered_avatar_shows_with_renewed_facts() {
    let mut steam = SteamService::new(10);
    steam.request_player_snapshot(PLAYER, Some(friend("before")), 0);
    steam.process_pending_avatars(vec![delivery(PLAYER, "after")]);
    let (snapshot, ask) = steam.try_finalize_player_snapshot(PLAYER, 1);
    let snapshot = snapshot.unwrap();
    assert!(!ask);
    assert_eq!(snapshot.name.as_deref(), Some("after"));
    assert_eq!(
        snapshot.avatar_small,
        Some(encode_avatar_png(&picture(), 32, 32).unwrap())
    );
    let (state, ask) = steam.poll_avatar(PLAYER, u128::MAX);
    assert!(matches!(state, AvatarFetchState::Ready(file) if decoded(&file).2 == picture()));
    assert!(!ask);
}

#[test]
fn avatar_that_cannot_be_encoded_is_given_up() {
    let mut steam = SteamService::new(10);
    steam.request_player_snapshot(PLAYER, Some(friend("before")), 0);
    let mut bad = delivery(PLAYER, "after");
    bad.rgba.pop();
    steam.process_pending_avatars(vec![bad]);
    let (snapshot, _) = steam.try_finalize_player_snapshot(PLAYER, 1);
    let snapshot = snapshot.unwrap();
    assert_eq!(snapshot.name.as_deref(), Some("before"));
    assert_eq!(snapshot.avatar_small, None);
}

#[test]
fn pending_avatars_are_those_asked_for_and_not_over() {
    let mut steam = SteamService::new(10);
    assert!(steam.pending_avatars().is_empty());
    steam.request_player_snapshot(PLAYER, Some(friend("a")), 0);
    steam.request_player_snapshot(OTHER, Some(friend("b")), 0);
    steam.capture_player_snapshot(3, &friend("c"));
    let mut ids = steam.pending_avatars();
    ids.sort();
    assert_eq!(ids, vec![OTHER, PLAYER]);
    steam.process_pending_avatars(vec![delivery(OTHER, "b")]);
    assert_eq!(steam.pending_avatars(), vec![PLAYER]);
}

#[test]
fn deliveries_for_different_players_come_in_either_order() {
    let mut results = Vec::new();
    for order in [[PLAYER, OTHER], [OTHER, PLAYER]] {
        let mut steam = SteamService::new(10);
        steam.request_player_snapshot(PLAYER, Some(friend("p")), 0);
        steam.request_player_snapshot(OTHER, Some(friend("o")), 0);
        let deliveries = order.iter().map(|id| delivery(*id, &id.to_string())).collect();
        steam.process_pending_avatars(deliveries);
        let names: Vec<Option<String>> = [PLAYER, OTHER]
            .iter()
            .map(|id| steam.try_finalize_player_snapshot(*id, 1).0.unwrap().name)
            .collect();
        results.push(names);
    }
    assert_eq!(results[0], results[1]);
    assert_eq!(
        results[0],
        vec![Some(PLAYER.to_string()), Some(OTHER.to_string())]
    );
}

#[test]
fn recapturing_keeps_the_avatar_and_renews_the_facts() {
    let mut steam = SteamService::new(10);
    steam.request_player_snapshot(PLAYER, Some(friend("old")), 0);
    steam.process_pending_avatars(vec![delivery(PLAYER, "old")]);
    steam.capture_player_snapshot(PLAYER, &friend("new"));
    let snapshot = steam.try_finalize_player_snapshot(PLAYER, 1).0.unwrap();
    assert_eq!(snapshot.name.as_deref(), Some("new"));
    assert!(snapshot.avatar_small.is_some());
}

#[test]
fn player_already_known_keeps_their_facts_on_a_request() {
    let mut steam = SteamService::new(10);
    steam.capture_player_snapshot(PLAYER, &friend("first"));
    assert!(steam.request_player_snapshot(PLAYER, Some(friend("second")), 0));
    let snapshot = steam
        .try_finalize_player_snapshot(PLAYER, AVATAR_PENDING_TIMEOUT + 1)
        .0
        .unwrap();
    assert_eq!(snapshot.name.as_deref(), Some("first"));
}

#[test]
fn snapshot_copies_every_fact() {
    let facts = PlayerFacts {
        name: Some("n".to_string()),
        relationship: Relationship::Blocked,
        game_app_id: Some(1),
        persona_state: Some(2),
        country: Some("de".to_string()),
        rich_presence: Some(vec![("k".to_string(), "v".to_string())]),
    };
    let snapshot = PlayerSnapshot::from_entry(9, &facts, Some(vec![5]));
    assert_eq!(snapshot.steamid, 9);
    assert_eq!(snapshot.name, facts.name);
    assert_eq!(snapshot.relationship, facts.relationship);
    assert_eq!(snapshot.game_app_id, facts.game_app_id);
    assert_eq!(snapshot.persona_state, facts.persona_state);
    assert_eq!(snapshot.country, facts.country);
    assert_eq!(snapshot.rich_presence, facts.rich_presence);
    assert_eq!(snapshot.avatar_small, Some(vec![5]));
    assert_eq!(snapshot.avatar_medium, None);
    assert_eq!(snapshot.avatar_large, None);
}
