use steam_broker::args::SocketAddrV4;
use steam_broker::avatar::{encode_avatar_png, AVATAR_PENDING_TIMEOUT};
use steam_broker::protocol::build_frame;
use steam_broker::response::{connect_response, player_response};
use steam_broker::session::{Action, Event, Session, SessionResult, State};
use steam_broker::steam::{AvatarDelivery, FriendInfo, FriendState, SteamService};
use steam_broker::BrokerError;

const SERVER: SocketAddrV4 = SocketAddrV4 { a: 10, b: 0, c: 0, d: 1, port: 27015 };
const OTHER_SERVER: SocketAddrV4 = SocketAddrV4 { a: 10, b: 0, c: 0, d: 2, port: 27016 };
const HELD: State = State::TicketRequested { challenge: 42, serveradr: SERVER };

fn friend(name: &str) -> FriendInfo {
    FriendInfo {
        name: name.to_string(),
        immediate: true,
        blocked: false,
        friendship_requested: false,
        requesting_friendship: false,
        state: FriendState::Online,
        game_played: None,
    }
}

fn picture() -> Vec<u8> {
    vec![0x55; 32 * 32 * 4]
}

fn frame(command: &str) -> Vec<u8> {
    build_frame(command.as_bytes()).unwrap()
}

/// Steps on until the session wants to read. Returns what it has sent and whose avatars it has
/// looked for.
fn to_read(s: &mut Session, now: u128, found: Vec<AvatarDelivery>) -> (Vec<Vec<u8>>, Vec<u64>) {
    let (mut sent, mut sought) = (Vec::new(), Vec::new());
    let mut found = Some(found);
    let mut event = Event::Done;
    loop {
        event = match s.run(event, now).unwrap() {
            Action::Proceed | Action::RunCallbacks => Event::Done,
            Action::FetchAvatars(ids) => {
                sought = ids;
                Event::Avatars(found.take().unwrap())
            }
            Action::Send(bytes) => {
                sent.push(bytes);
                Event::Done
            }
            Action::Read => return (sent, sought),
            _ => panic!("unexpected action"),
        };
    }
}

/// Hands bytes to a session that reads, and steps on until it wants something or reads again.
fn receive(s: &mut Session, bytes: &[u8], now: u128) -> Result<Action, BrokerError> {
    let mut event = Event::Read(Some(bytes.to_vec()));
    loop {
        event = match s.run(event, now)? {
            Action::Proceed | Action::RunCallbacks => Event::Done,
            Action::FetchAvatars(_) => Event::Avatars(vec![]),
            action => return Ok(action),
        };
    }
}

/// Hands a command to a session that reads.
fn command(s: &mut Session, text: &str, now: u128) -> Result<Action, BrokerError> {
    receive(s, &frame(text), now)
}

/// A session that reads, in the given state.
fn reading(steam: Option<SteamService>) -> Session {
    let mut s = Session::new(steam);
    to_read(&mut s, 0, vec![]);
    s
}

fn active() -> Session {
    let mut s = reading(None);
    assert!(matches!(
        command(&mut s, "sb_gamedir cstrike", 0),
        Ok(Action::StartSteam(10))
    ));
    to_read(&mut s, 0, vec![]);
    assert_eq!(s.state(), State::Active);
    s
}

fn holding() -> Session {
    let mut s = active();
    command(&mut s, "sb_connect 10.0.0.1:27015 99 1 42", 0).unwrap();
    assert!(matches!(
        s.run(Event::Ticket(Some((vec![1, 2], 5))), 0),
        Ok(Action::Send(_))
    ));
    to_read(&mut s, 0, vec![]);
    assert_eq!(s.state(), HELD);
    s
}

/// A session that is about to carry out commands, with nothing received.
fn at_commands(mut s: Session) -> Session {
    assert!(matches!(s.run(Event::Read(None), 0), Ok(Action::Proceed)));
    s
}

fn custom<T>(r: Result<T, BrokerError>) -> &'static str {
    match r {
        Err(BrokerError::Custom(message)) => message,
        _ => panic!("no such error"),
    }
}

#[test]
fn fresh_session_without_steam_goes_straight_to_reading() {
    let mut s = Session::new(None);
    assert_eq!(s.state(), State::Idle);
    assert!(matches!(s.run(Event::Done, 0), Ok(Action::Proceed)));
    assert!(matches!(s.run(Event::Done, 0), Ok(Action::Proceed)));
    assert!(matches!(s.run(Event::Done, 0), Ok(Action::Read)));
}

#[test]
fn session_with_steam_runs_callbacks_and_looks_for_avatars_first() {
    let mut s = Session::new(Some(SteamService::new(10)));
    assert!(matches!(s.run(Event::Done, 0), Ok(Action::RunCallbacks)));
    assert!(matches!(s.run(Event::Done, 0), Ok(Action::FetchAvatars(ids)) if ids.is_empty()));
    assert!(matches!(s.run(Event::Avatars(vec![]), 0), Ok(Action::Proceed)));
    assert!(matches!(s.run(Event::Done, 0), Ok(Action::Proceed)));
    assert!(matches!(s.run(Event::Done, 0), Ok(Action::Read)));
}

#[test]
fn nothing_to_read_starts_a_new_turn() {
    let mut s = reading(None);
    assert!(matches!(s.run(Event::Read(None), 0), Ok(Action::Proceed)));
    to_read(&mut s, 0, vec![]);
    assert_eq!(s.state(), State::Idle);
}

#[test]
fn gamedir_starts_steam_for_its_application() {
    let mut s = reading(None);
    assert!(matches!(
        command(&mut s, "sb_gamedir nosuchmod", 0),
        Ok(Action::StartSteam(70))
    ));
    assert_eq!(s.state(), State::Idle);
    to_read(&mut s, 0, vec![]);
    assert_eq!(s.state(), State::Active);
    assert_eq!(s.into_steam().unwrap().app_id(), 70);
}

#[test]
fn gamedir_of_the_running_application_needs_no_start() {
    let mut s = reading(Some(SteamService::new(10)));
    assert!(matches!(command(&mut s, "sb_gamedir CSTRIKE", 0), Ok(Action::Read)));
    assert_eq!(s.state(), State::Active);
}

#[test]
fn gamedir_of_another_application_is_refused() {
    let mut s = reading(Some(SteamService::new(10)));
    assert_eq!(
        custom(command(&mut s, "sb_gamedir valve", 0)),
        "broker already initialized with a different AppID; sb_terminate first"
    );
    assert_eq!(s.state(), State::Idle);
    assert_eq!(s.into_steam().unwrap().app_id(), 10);
}

#[test]
fn second_gamedir_is_refused() {
    let mut s = active();
    assert_eq!(
        custom(command(&mut s, "sb_gamedir cstrike", 0)),
        "session already active"
    );
    assert_eq!(s.state(), State::Active);
}

#[test]
fn idle_session_refuses_the_other_commands() {
    for (text, message) in [
        ("sb_connect 10.0.0.1:27015 1 1 1", "session not active"),
        ("sb_get_player 1", "session not active"),
        ("sb_disconnect 10.0.0.1:27015 1", "no ticket requested"),
        ("sb_what", "unknown command"),
    ] {
        let mut s = reading(None);
        assert_eq!(custom(command(&mut s, text, 0)), message);
        assert_eq!(s.state(), State::Idle);
    }
}

#[test]
fn bad_arguments_are_refused_by_name() {
    let mut s = reading(None);
    assert!(matches!(
        command(&mut s, "sb_gamedir", 0),
        Err(BrokerError::Missing("gamedir"))
    ));
    let mut s = active();
    assert!(matches!(
        command(&mut s, "sb_connect here", 0),
        Err(BrokerError::Parse("ip addr"))
    ));
    let mut s = active();
    assert!(matches!(
        command(&mut s, "sb_get_player", 0),
        Err(BrokerError::Missing("steam id"))
    ));
    let mut s = holding();
    assert!(matches!(
        command(&mut s, "sb_disconnect 10.0.0.1:27015", 0),
        Err(BrokerError::Missing("challenge"))
    ));
    assert_eq!(s.state(), HELD);
    let mut s = active();
    assert!(matches!(
        receive(&mut s, &build_frame(b"\xff").unwrap(), 0),
        Err(BrokerError::Utf8(_))
    ));
}

#[test]
fn connect_asks_steam_and_hands_out_the_ticket() {
    let mut s = active();
    let action = command(&mut s, "sb_connect 10.0.0.1:27015 99 1 42", 0);
    match action {
        Ok(Action::InitiateConnection { server_steam_id, serveradr, secure }) => {
            assert_eq!(server_steam_id, 99);
            assert_eq!(serveradr, SERVER);
            assert!(secure);
        }
        _ => panic!("no request for a ticket"),
    }
    assert_eq!(s.state(), State::Active);
    match s.run(Event::Ticket(Some((b"ticket".to_vec(), 1234))), 0) {
        Ok(Action::Send(bytes)) => {
            assert_eq!(bytes, build_frame(&connect_response(42, 1234, b"ticket")).unwrap());
        }
        _ => panic!("no ticket sent"),
    }
    assert_eq!(s.state(), HELD);
}

#[test]
fn refused_ticket_leaves_no_ticket() {
    let mut s = active();
    command(&mut s, "sb_connect 10.0.0.1:27015 99 0 42", 0).unwrap();
    assert_eq!(
        custom(s.run(Event::Ticket(None), 0)),
        "steam refused to issue auth ticket"
    );
    assert_eq!(s.state(), State::Active);
}

#[test]
fn ticket_too_long_for_a_frame_is_held_but_not_sent() {
    let mut s = active();
    command(&mut s, "sb_connect 10.0.0.1:27015 99 0 42", 0).unwrap();
    assert_eq!(
        custom(s.run(Event::Ticket(Some((vec![0; 4096 - 26], 1))), 0)),
        "response payload too large"
    );
    assert_eq!(s.state(), HELD);
}

#[test]
fn longest_ticket_that_fits_is_sent() {
    let mut s = active();
    command(&mut s, "sb_connect 10.0.0.1:27015 99 0 42", 0).unwrap();
    match s.run(Event::Ticket(Some((vec![0; 4096 - 27], 1))), 0) {
        Ok(Action::Send(bytes)) => assert_eq!(bytes.len(), 4102),
        _ => panic!("no ticket sent"),
    }
}

#[test]
fn second_connect_is_refused_while_a_ticket_is_held() {
    let mut s = holding();
    assert_eq!(
        custom(command(&mut s, "sb_connect 10.0.0.1:27015 99 1 43", 0)),
        "session not active"
    );
    assert_eq!(s.state(), HELD);
}

#[test]
fn disconnect_undoes_connect() {
    let mut s = holding();
    assert!(matches!(
        command(&mut s, "sb_disconnect 10.0.0.2:27016 42", 0),
        Ok(Action::TerminateConnection(OTHER_SERVER))
    ));
    assert_eq!(s.state(), State::Active);
    to_read(&mut s, 0, vec![]);
    assert!(matches!(
        command(&mut s, "sb_connect 10.0.0.1:27015 99 1 43", 0),
        Ok(Action::InitiateConnection { .. })
    ));
}

#[test]
fn disconnect_with_another_challenge_keeps_the_ticket() {
    let mut s = holding();
    assert_eq!(
        custom(command(&mut s, "sb_disconnect 10.0.0.1:27015 41", 0)),
        "challenge mismatch"
    );
    assert_eq!(s.state(), HELD);
}

#[test]
fn disconnect_without_a_ticket_is_refused() {
    let mut s = active();
    assert_eq!(
        custom(command(&mut s, "sb_disconnect 10.0.0.1:27015 42", 0)),
        "no ticket requested"
    );
}

#[test]
fn terminate_ends_the_session() {
    let mut s = reading(None);
    assert!(matches!(
        command(&mut s, "sb_terminate", 0),
        Ok(Action::End(SessionResult::Terminate))
    ));
}

#[test]
fn terminate_gives_a_held_ticket_back_first() {
    let mut s = holding();
    assert!(matches!(
        command(&mut s, "sb_terminate", 0),
        Ok(Action::TerminateConnection(SERVER))
    ));
    assert_eq!(s.state(), State::Active);
    assert!(matches!(
        s.run(Event::Done, 0),
        Ok(Action::End(SessionResult::Terminate))
    ));
}

#[test]
fn peer_that_leaves_before_steam_runs_lets_the_broker_go_on() {
    let mut s = reading(None);
    assert!(matches!(
        receive(&mut s, b"", 0),
        Ok(Action::End(SessionResult::Continue))
    ));
}

#[test]
fn peer_that_leaves_once_steam_runs_terminates_the_broker() {
    let mut s = active();
    assert!(matches!(
        receive(&mut s, b"", 0),
        Ok(Action::End(SessionResult::Terminate))
    ));
    let mut s = holding();
    assert!(matches!(
        receive(&mut s, b"", 0),
        Ok(Action::TerminateConnection(SERVER))
    ));
    assert!(matches!(
        s.run(Event::Done, 0),
        Ok(Action::End(SessionResult::Terminate))
    ));
}

#[test]
fn player_is_asked_for_once_and_answered_for_after_the_timeout() {
    let mut s = active();
    assert!(matches!(
        command(&mut s, "sb_get_player 7", 1000),
        Ok(Action::QueryFriend(7))
    ));
    assert!(matches!(
        s.run(Event::Friend(friend("Gordon")), 1000),
        Ok(Action::RequestUserInformation(7))
    ));
    let (sent, sought) = to_read(&mut s, 1000 + AVATAR_PENDING_TIMEOUT, vec![]);
    assert!(sent.is_empty());
    assert_eq!(sought, vec![7]);
    assert!(matches!(
        command(&mut s, "sb_get_player 7", 1000 + AVATAR_PENDING_TIMEOUT),
        Ok(Action::Read)
    ));
    s.run(Event::Read(None), 0).unwrap();
    let (sent, sought) = to_read(&mut s, 1001 + AVATAR_PENDING_TIMEOUT, vec![]);
    assert_eq!(sought, vec![7]);
    assert_eq!(sent.len(), 1);
    let mut steam = SteamService::new(10);
    steam.request_player_snapshot(7, Some(friend("Gordon")), 0);
    let snapshot = steam
        .try_finalize_player_snapshot(7, AVATAR_PENDING_TIMEOUT + 1)
        .0
        .unwrap();
    assert_eq!(sent[0], build_frame(&player_response(&snapshot)).unwrap());
    assert_eq!(sent[0], Session::send_player_snapshot_response(&snapshot));
    s.run(Event::Read(None), 0).unwrap();
    let (sent, sought) = to_read(&mut s, 2000 + AVATAR_PENDING_TIMEOUT, vec![]);
    assert!(sent.is_empty());
    assert!(sought.is_empty());
}

#[test]
fn arrived_avatar_is_sent_at_once() {
    let mut s = active();
    command(&mut s, "sb_get_player 7", 0).unwrap();
    s.run(Event::Friend(friend("before")), 0).unwrap();
    let found = vec![AvatarDelivery { steamid: 7, rgba: picture(), friend: friend("after") }];
    let (sent, _) = to_read(&mut s, 1, found);
    assert_eq!(sent.len(), 1);
    let file = encode_avatar_png(&picture(), 32, 32).unwrap();
    assert!(sent[0].windows(file.len()).any(|w| w == file));
    assert!(sent[0].windows(5).any(|w| w == b"after"));
}

#[test]
fn player_whose_avatar_came_is_answered_for_without_asking_again() {
    let mut s = active();
    command(&mut s, "sb_get_player 7", 0).unwrap();
    s.run(Event::Friend(friend("a")), 0).unwrap();
    let found = vec![AvatarDelivery { steamid: 7, rgba: picture(), friend: friend("a") }];
    to_read(&mut s, 1, found);
    let mut event = Event::Read(Some(frame("sb_get_player 7")));
    for _ in 0..2 {
        assert!(matches!(s.run(event, 2), Ok(Action::Proceed)));
        event = Event::Done;
    }
    let (sent, sought) = to_read(&mut s, 2, vec![]);
    assert_eq!(sent.len(), 1);
    assert!(sought.is_empty());
}

#[test]
fn avatar_given_up_is_fetched_anew_on_the_next_request() {
    let mut s = active();
    command(&mut s, "sb_get_player 7", 0).unwrap();
    s.run(Event::Friend(friend("a")), 0).unwrap();
    let (sent, _) = to_read(&mut s, AVATAR_PENDING_TIMEOUT + 1, vec![]);
    assert_eq!(sent.len(), 1);
    let again = AVATAR_PENDING_TIMEOUT + 2;
    assert!(matches!(
        command(&mut s, "sb_get_player 7", again),
        Ok(Action::RequestUserInformation(7))
    ));
    let (sent, sought) = to_read(&mut s, again + AVATAR_PENDING_TIMEOUT, vec![]);
    assert!(sent.is_empty());
    assert_eq!(sought, vec![7]);
    s.run(Event::Read(None), 0).unwrap();
    let (sent, _) = to_read(&mut s, again + AVATAR_PENDING_TIMEOUT + 1, vec![]);
    assert_eq!(sent.len(), 1);
}

#[test]
fn ticket_is_taken_back_once() {
    let mut s = at_commands(holding());
    assert_eq!(s.cleanup_active_ticket(), Some(SERVER));
    assert_eq!(s.state(), State::Active);
    assert_eq!(s.cleanup_active_ticket(), None);
    assert_eq!(s.state(), State::Active);
    let mut s = at_commands(reading(None));
    assert_eq!(s.cleanup_active_ticket(), None);
    assert_eq!(s.state(), State::Idle);
}

#[test]
fn every_cut_of_the_stream_carries_out_the_same_commands() {
    let mut stream = frame("sb_gamedir dod");
    let long = format!("sb_connect 10.0.0.1:27015 1 1 42{}", " ".repeat(4059));
    assert_eq!(long.len(), 4091);
    stream.extend_from_slice(&frame(&long));
    stream.extend_from_slice(&frame(&long.replace("sb_connect", "sb_conn3ct")));
    for size in [1, 5, 6, 7, 100, 4091, 4095, 4096] {
        let mut s = reading(None);
        let mut done = Vec::new();
        for chunk in stream.chunks(size) {
            let mut event = Event::Read(Some(chunk.to_vec()));
            loop {
                event = match s.run(event, 0) {
                    Ok(Action::Read) => break,
                    Ok(Action::FetchAvatars(_)) => Event::Avatars(vec![]),
                    Ok(Action::StartSteam(app_id)) => {
                        done.push(app_id.to_string());
                        Event::Done
                    }
                    Ok(Action::InitiateConnection { .. }) => {
                        done.push("connect".to_string());
                        Event::Ticket(Some((vec![], 1)))
                    }
                    Ok(_) => Event::Done,
                    Err(BrokerError::Custom(message)) => {
                        done.push(message.to_string());
                        break;
                    }
                    Err(_) => panic!("unexpected error"),
                };
            }
        }
        assert_eq!(done, vec!["30", "connect", "unknown command"]);
    }
}

#[test]
fn replies_come_in_the_order_asked_for_and_none_is_lost() {
    let mut s = active();
    for id in [30, 10, 20] {
        command(&mut s, &format!("sb_get_player {id}"), id as u128).unwrap();
        s.run(Event::Friend(friend(&id.to_string())), id as u128).unwrap();
        to_read(&mut s, id as u128, vec![]);
    }
    s.run(Event::Read(None), 0).unwrap();
    let (sent, _) = to_read(&mut s, 21 + AVATAR_PENDING_TIMEOUT, vec![]);
    assert_eq!(sent.len(), 2);
    assert_eq!(sent[0][17..25], 10u64.to_le_bytes());
    assert_eq!(sent[1][17..25], 20u64.to_le_bytes());
    s.run(Event::Read(None), 0).unwrap();
    let (sent, _) = to_read(&mut s, 31 + AVATAR_PENDING_TIMEOUT, vec![]);
    assert_eq!(sent.len(), 1);
    assert_eq!(sent[0][17..25], 30u64.to_le_bytes());
}

#[test]
fn player_can_be_asked_for_while_a_ticket_is_held() {
    let mut s = holding();
    assert!(matches!(
        command(&mut s, "sb_get_player 7", 0),
        Ok(Action::QueryFriend(7))
    ));
    assert_eq!(s.state(), HELD);
}

#[test]
fn commands_may_come_in_pieces() {
    let mut s = reading(None);
    let bytes = frame("sb_gamedir dod");
    for b in &bytes[..bytes.len() - 1] {
        assert!(matches!(receive(&mut s, &[*b], 0), Ok(Action::Read)));
        assert_eq!(s.state(), State::Idle);
    }
    assert!(matches!(
        receive(&mut s, &bytes[bytes.len() - 1..], 0),
        Ok(Action::StartSteam(30))
    ));
}

#[test]
fn commands_in_one_piece_are_carried_out_in_turn() {
    let mut s = reading(None);
    let mut bytes = frame("sb_gamedir dod");
    bytes.extend_from_slice(&frame("sb_connect 10.0.0.1:27015 1 1 42"));
    bytes.extend_from_slice(&frame("sb_disconnect 10.0.0.1:27015 42"));
    assert!(matches!(receive(&mut s, &bytes, 0), Ok(Action::StartSteam(30))));
    assert!(matches!(s.run(Event::Done, 0), Ok(Action::Proceed)));
    assert!(matches!(s.run(Event::Done, 0), Ok(Action::InitiateConnection { .. })));
    assert!(matches!(
        s.run(Event::Ticket(Some((vec![], 1))), 0),
        Ok(Action::Send(_))
    ));
    assert!(matches!(s.run(Event::Done, 0), Ok(Action::Proceed)));
    assert!(matches!(
        s.run(Event::Done, 0),
        Ok(Action::TerminateConnection(SERVER))
    ));
    to_read(&mut s, 0, vec![]);
    assert_eq!(s.state(), State::Active);
}

#[test]
fn broken_frames_end_the_session() {
    let mut s = reading(None);
    assert_eq!(custom(receive(&mut s, b"GET / HTTP/1.1", 0)), "invalid frame magic");
    let mut s = reading(None);
    assert_eq!(custom(receive(&mut s, b"SBRK\xff\xff", 0)), "frame too large");
}

#[test]
fn reads_that_fill_the_buffer_are_taken_up_to_the_limit() {
    let mut s = reading(None);
    let mut start = b"SBRK\x00\x10".to_vec();
    start.extend_from_slice(&[b'x'; 4095]);
    assert!(matches!(receive(&mut s, &start, 0), Ok(Action::Read)));
    assert_eq!(custom(receive(&mut s, &[b'x'; 4092], 0)), "rx buffer overflow");
    assert_eq!(custom(receive(&mut s, &[b'x'; 4091], 0)), "unknown command");
}

#[test]
fn handlers_can_be_called_one_by_one() {
    let mut s = at_commands(reading(Some(SteamService::new(10))));
    assert!(matches!(s.handle_gamedir(b"cstrike"), Ok(Action::Proceed)));
    assert!(matches!(
        s.handle_get_player(b"5", 0),
        Ok(Action::QueryFriend(5))
    ));
    let mut s = at_commands(active());
    assert!(matches!(
        s.handle_connect(b"10.0.0.1:27015 1 1 42"),
        Ok(Action::InitiateConnection { .. })
    ));
    let mut s = at_commands(holding());
    assert!(matches!(
        s.handle_disconnect(b"10.0.0.1:27015 42"),
        Ok(Action::TerminateConnection(SERVER))
    ));
    let mut s = at_commands(holding());
    assert!(matches!(
        s.handle_command(b"sb_terminate", 0),
        Ok(Action::TerminateConnection(SERVER))
    ));
}

#[test]
fn frames_are_taken_off_one_by_one() {
    let mut s = reading(None);
    let mut bytes = frame("a");
    bytes.extend_from_slice(&frame("b"));
    bytes.extend_from_slice(b"SB");
    s.read_chunk(Some(bytes)).unwrap();
    assert_eq!(s.try_parse_frame(), Ok(Some(b"a".to_vec())));
    assert_eq!(s.try_parse_frame(), Ok(Some(b"b".to_vec())));
    assert_eq!(s.try_parse_frame(), Ok(None));
}
