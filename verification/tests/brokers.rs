use steam_broker::broker::{Broker, BrokerAction, BrokerEvent, Ending};
use steam_broker::scratch::ScratchDir;
use steam_broker::session::{Action, Event, Session, SessionResult, State};
use steam_broker::steam::SteamService;

fn idle() -> Session {
    Session::new(None)
}

fn with_steam() -> Session {
    Session::new(Some(SteamService::new(30)))
}

#[test]
fn broker_without_steam_looks_for_connections() {
    let mut broker = Broker::new();
    assert!(matches!(broker.run(BrokerEvent::Started), BrokerAction::Accept));
    assert!(matches!(broker.run(BrokerEvent::NoConnection), BrokerAction::Accept));
    assert!(matches!(broker.run(BrokerEvent::CallbacksRun), BrokerAction::Accept));
}

#[test]
fn accepted_connection_is_served_by_a_fresh_session() {
    let mut broker = Broker::new();
    match broker.run(BrokerEvent::Accepted) {
        BrokerAction::Serve(mut session) => {
            assert_eq!(session.state(), State::Idle);
            assert!(matches!(session.run(Event::Done, 0), Ok(Action::Proceed)));
            assert!(session.into_steam().is_none());
        }
        _ => panic!("connection not served"),
    }
}

#[test]
fn broker_goes_on_after_sessions_without_steam() {
    for ending in [Ending::Finished(SessionResult::Continue), Ending::Failed] {
        let mut broker = Broker::new();
        assert!(matches!(
            broker.run(BrokerEvent::Ended(idle(), ending)),
            BrokerAction::Accept
        ));
    }
}

#[test]
fn broker_exits_when_told_to() {
    let mut broker = Broker::new();
    let ending = Ending::Finished(SessionResult::Terminate);
    assert!(matches!(
        broker.run(BrokerEvent::Ended(idle(), ending)),
        BrokerAction::Exit
    ));
}

#[test]
fn broker_exits_when_a_session_with_steam_fails() {
    let mut broker = Broker::new();
    assert!(matches!(
        broker.run(BrokerEvent::Ended(with_steam(), Ending::Failed)),
        BrokerAction::Exit
    ));
}

#[test]
fn broker_keeps_steam_between_connections() {
    let mut broker = Broker::new();
    let ending = Ending::Finished(SessionResult::Continue);
    assert!(matches!(
        broker.run(BrokerEvent::Ended(with_steam(), ending)),
        BrokerAction::RunCallbacks
    ));
    assert!(matches!(broker.run(BrokerEvent::CallbacksRun), BrokerAction::Accept));
    assert!(matches!(
        broker.run(BrokerEvent::NoConnection),
        BrokerAction::RunCallbacks
    ));
    match broker.run(BrokerEvent::Accepted) {
        BrokerAction::Serve(session) => assert_eq!(session.into_steam().unwrap().app_id(), 30),
        _ => panic!("connection not served"),
    }
}

#[test]
fn broker_serves_nobody_once_a_session_has_started_steam() {
    let mut broker = Broker::new();
    for round in 0..2 {
        let mut session = match broker.run(BrokerEvent::Accepted) {
            BrokerAction::Serve(session) => session,
            _ => panic!("connection not served"),
        };
        for _ in 0..3 {
            session.run(Event::Done, 0).unwrap();
        }
        if round == 1 {
            let frame = steam_broker::protocol::build_frame(b"sb_gamedir dod").unwrap();
            session.run(Event::Read(Some(frame)), 0).unwrap();
            assert!(matches!(session.run(Event::Done, 0), Ok(Action::StartSteam(30))));
            let mut event = Event::Done;
            loop {
                event = match session.run(event, 0).unwrap() {
                    Action::FetchAvatars(_) => Event::Avatars(vec![]),
                    Action::Read => break,
                    _ => Event::Done,
                };
            }
        }
        let result = match session.run(Event::Read(Some(vec![])), 0) {
            Ok(Action::End(result)) => result,
            _ => panic!("session not over"),
        };
        let action = broker.run(BrokerEvent::Ended(session, Ending::Finished(result)));
        assert_eq!(matches!(action, BrokerAction::Exit), round == 1);
        assert_eq!(matches!(action, BrokerAction::Accept), round == 0);
    }
}

#[test]
fn scratch_directories_are_named_by_eight_digits() {
    assert_eq!(ScratchDir::numbered(0).path(), "/tmp/steam-broker-00000000");
    assert_eq!(
        ScratchDir::numbered(0x0123abcd).path(),
        "/tmp/steam-broker-0123abcd"
    );
    assert_eq!(
        ScratchDir::numbered(0x456789ef).path(),
        "/tmp/steam-broker-456789ef"
    );
    assert_eq!(
        ScratchDir::numbered(u32::MAX).path(),
        "/tmp/steam-broker-ffffffff"
    );
    for n in [1, 16, 0xdead_beef] {
        assert_eq!(
            ScratchDir::numbered(n).path(),
            format!("/tmp/steam-broker-{n:08x}")
        );
    }
}

#[test]
fn different_numbers_name_different_directories() {
    let numbers = [0, 1, 0x10, 0x1000_0000, u32::MAX];
    for m in numbers {
        for n in numbers {
            let same = ScratchDir::numbered(m).path() == ScratchDir::numbered(n).path();
            assert_eq!(same, m == n);
        }
    }
}

#[test]
fn random_scratch_directory_is_one_of_the_numbered_ones() {
    let mut seen = Vec::new();
    for _ in 0..8 {
        let dir = ScratchDir::new();
        let digits = dir.path().strip_prefix("/tmp/steam-broker-").unwrap().to_string();
        let n = u32::from_str_radix(&digits, 16).unwrap();
        assert_eq!(ScratchDir::numbered(n).path(), dir.path());
        seen.push(n);
    }
    seen.sort();
    seen.dedup();
    assert!(seen.len() > 1);
}
