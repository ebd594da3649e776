//! Per-connection state machine: framed commands come in, and what is to be done in the
//! outside world comes out.
//!
//! [`Session::run`] takes one step. It answers with an [`Action`] for the caller to carry
//! out, and the caller reports back with the [`Event`] that the action calls for.

use crate::args::SocketAddrV4;
use crate::avatar;
use crate::bytes::{append_bytes, copy_range};
use crate::commands::{
    self, read_connect, read_disconnect, read_gamedir, read_get_player, understand, Command,
};
use crate::error::BrokerError;
use crate::protocol::{self, build_frame, parse_frame, Parsed, MAX_PAYLOAD_SIZE};
use crate::response::{self, connect_response, player_response};
use crate::steam::{
    self, AvatarDelivery, EntryView, FriendInfo, PlayerSnapshot, SteamService, SteamView,
};
use vstd::prelude::*;

verus! {

/// How far a session has come.
#[derive(Clone, Copy, Debug, PartialEq, Eq, Structural)]
pub enum State {
    Idle,
    Active,
    /// A ticket for a game server has been handed out.
    TicketRequested { challenge: i32, serveradr: SocketAddrV4 },
}

/// What is to become of the broker after a session.
#[derive(Clone, Copy, Debug, PartialEq, Eq, Structural)]
pub enum SessionResult {
    Continue,
    Terminate,
}

/// What the outside world is to do next.
pub enum Action {
    /// Nothing: step on.
    Proceed,
    /// Run the callbacks of the Steam client.
    RunCallbacks,
    /// Look for the small avatars of these players.
    FetchAvatars(Vec<u64>),
    /// Ask the Steam client about this player.
    QueryFriend(u64),
    /// Have the Steam client request this player's data.
    RequestUserInformation(u64),
    /// Send these bytes to the peer.
    Send(Vec<u8>),
    /// Read from the peer.
    Read,
    /// Start the Steam client for this application.
    StartSteam(u32),
    /// Ask the Steam client for a ticket.
    InitiateConnection { server_steam_id: u64, serveradr: SocketAddrV4, secure: bool },
    /// Tell the Steam client that the ticket for this server is no longer used.
    TerminateConnection(SocketAddrV4),
    /// The session is over.
    End(SessionResult),
}

/// What the outside world has done.
pub enum Event {
    /// It has done what the last action asked for, which has no other answer.
    Done,
    /// The avatars that [`Action::FetchAvatars`] found.
    Avatars(Vec<AvatarDelivery>),
    /// The answer to [`Action::QueryFriend`].
    Friend(FriendInfo),
    /// What [`Action::Read`] brought: nothing for now, or some bytes. No bytes at all mean
    /// that the peer has closed the connection.
    Read(Option<Vec<u8>>),
    /// The answer to [`Action::InitiateConnection`]: the ticket and the local user, or a
    /// refusal.
    Ticket(Option<(Vec<u8>, u64)>),
}

/// What reading from the peer has come to.
#[derive(Clone, Copy, Debug, PartialEq, Eq, Structural)]
pub enum ReadOutcome {
    DataOrIdle,
    Closed,
}

/// What a session is about to do or is waiting for.
pub enum Phase {
    /// A turn begins.
    Turn,
    /// The callbacks of the Steam client are being run.
    Callbacks,
    /// Avatars are being looked for.
    Avatars,
    /// Replies that have become ready are to be collected.
    Flush,
    /// These frames are to be sent.
    Sending(Vec<Vec<u8>>),
    /// The peer is being read from.
    Reading,
    /// The commands received are to be carried out.
    Commands,
    /// The Steam client is being started for this application.
    Starting(u32),
    /// A ticket has been asked for.
    Connecting { challenge: i32, serveradr: SocketAddrV4 },
    /// The Steam client is being asked about this player.
    Capturing(u64),
    /// The last act of a command is being done.
    Settling,
    /// The last act of the session is being done.
    Closing(SessionResult),
    /// Nothing is left to do.
    Ended,
}

/// What the outside world is to do next.
#[verifier::ext_equal]
pub enum ActionView {
    Proceed,
    RunCallbacks,
    FetchAvatars(Seq<u64>),
    QueryFriend(u64),
    RequestUserInformation(u64),
    Send(Seq<u8>),
    Read,
    StartSteam(u32),
    InitiateConnection { server_steam_id: u64, serveradr: SocketAddrV4, secure: bool },
    TerminateConnection(SocketAddrV4),
    End(SessionResult),
}

impl View for Action {
    type V = ActionView;

    open spec fn view(&self) -> ActionView {
        match self {
            Action::Proceed => ActionView::Proceed,
            Action::RunCallbacks => ActionView::RunCallbacks,
            Action::FetchAvatars(ids) => ActionView::FetchAvatars(ids@),
            Action::QueryFriend(id) => ActionView::QueryFriend(*id),
            Action::RequestUserInformation(id) => ActionView::RequestUserInformation(*id),
            Action::Send(frame) => ActionView::Send(frame@),
            Action::Read => ActionView::Read,
            Action::StartSteam(app_id) => ActionView::StartSteam(*app_id),
            Action::InitiateConnection { server_steam_id, serveradr, secure } => {
                ActionView::InitiateConnection {
                    server_steam_id: *server_steam_id,
                    serveradr: *serveradr,
                    secure: *secure,
                }
            },
            Action::TerminateConnection(serveradr) => ActionView::TerminateConnection(*serveradr),
            Action::End(result) => ActionView::End(*result),
        }
    }
}

/// What a session is about to do or is waiting for.
#[verifier::ext_equal]
pub enum PhaseView {
    Turn,
    Callbacks,
    Avatars,
    Flush,
    Sending(Seq<Seq<u8>>),
    Reading,
    Commands,
    Starting(u32),
    Connecting { challenge: i32, serveradr: SocketAddrV4 },
    Capturing(u64),
    Settling,
    Closing(SessionResult),
    Ended,
}

/// Byte vectors as sequences.
pub open spec fn all_bytes(v: Seq<Vec<u8>>) -> Seq<Seq<u8>> {
    v.map_values(|b: Vec<u8>| b@)
}

impl View for Phase {
    type V = PhaseView;

    open spec fn view(&self) -> PhaseView {
        match self {
            Phase::Turn => PhaseView::Turn,
            Phase::Callbacks => PhaseView::Callbacks,
            Phase::Avatars => PhaseView::Avatars,
            Phase::Flush => PhaseView::Flush,
            Phase::Sending(frames) => PhaseView::Sending(all_bytes(frames@)),
            Phase::Reading => PhaseView::Reading,
            Phase::Commands => PhaseView::Commands,
            Phase::Starting(app_id) => PhaseView::Starting(*app_id),
            Phase::Connecting { challenge, serveradr } => {
                PhaseView::Connecting { challenge: *challenge, serveradr: *serveradr }
            },
            Phase::Capturing(id) => PhaseView::Capturing(*id),
            Phase::Settling => PhaseView::Settling,
            Phase::Closing(result) => PhaseView::Closing(*result),
            Phase::Ended => PhaseView::Ended,
        }
    }
}

/// One connection.
pub struct Session {
    rx_buffer: Vec<u8>,
    state: State,
    steam: Option<SteamService>,
    pending_player_replies: Vec<u64>,
    phase: Phase,
}

/// One connection: the bytes received and not yet used up, how far it has come, what is kept
/// for the Steam client, the players whose snapshots are still owed, and what comes next.
#[verifier::ext_equal]
pub struct SessionView {
    pub rx: Seq<u8>,
    pub state: State,
    pub steam: Option<SteamView>,
    pub pending: Seq<u64>,
    pub phase: PhaseView,
}

/// What is kept for the Steam client, if it runs.
pub open spec fn opt_steam(s: Option<SteamService>) -> Option<SteamView> {
    match s {
        Some(steam) => Some(steam@),
        None => None,
    }
}

impl View for Session {
    type V = SessionView;

    closed spec fn view(&self) -> SessionView {
        SessionView {
            rx: self.rx_buffer@,
            state: self.state,
            steam: opt_steam(self.steam),
            pending: self.pending_player_replies@,
            phase: self.phase@,
        }
    }
}

/// The most bytes that may wait to be used up.
pub open spec fn max_buffered() -> nat {
    2 * MAX_PAYLOAD_SIZE as nat
}

/// What holds of a session at all times.
pub open spec fn sound(s: SessionView) -> bool {
    &&& s.rx.len() <= max_buffered()
    // A session that has got anywhere has a running Steam client.
    &&& s.state != State::Idle ==> s.steam is Some
    // Each reply is owed once, for a player whose avatar has been asked for.
    &&& s.pending.no_duplicates()
    &&& forall|id: u64| #[trigger]
        s.pending.contains(id) ==> {
            &&& s.steam is Some
            &&& s.steam->0.players.contains_key(id)
            &&& !(s.steam->0.players[id].avatar is NotRequested)
        }
    // Only while commands are carried out can a whole frame be waiting.
    &&& match s.phase {
        PhaseView::Turn
        | PhaseView::Callbacks
        | PhaseView::Avatars
        | PhaseView::Flush
        | PhaseView::Sending(_)
        | PhaseView::Reading => protocol::parsed(s.rx) is Incomplete,
        _ => true,
    }
    &&& match s.phase {
        PhaseView::Callbacks => s.steam is Some,
        PhaseView::Avatars => s.steam is Some,
        PhaseView::Starting(_) => s.state == State::Idle && s.steam is None,
        PhaseView::Connecting { .. } => s.state == State::Active,
        PhaseView::Capturing(id) => s.state != State::Idle && s.steam is Some
            && !s.steam->0.players.contains_key(id),
        PhaseView::Closing(result) => s.state == State::Active && result
            == SessionResult::Terminate,
        _ => true,
    }
}

/// A new connection, on top of what earlier ones have left.
pub open spec fn fresh(steam: Option<SteamView>) -> SessionView {
    SessionView {
        rx: Seq::empty(),
        state: State::Idle,
        steam,
        pending: Seq::empty(),
        phase: PhaseView::Turn,
    }
}

/// What a step comes to: the action to carry out next, or the error that ends the session.
pub type Outcome = Result<ActionView, BrokerError>;

/// What a step comes to.
pub open spec fn outcome(r: Result<Action, BrokerError>) -> Outcome {
    match r {
        Ok(action) => Ok(action@),
        Err(e) => Err(e),
    }
}

/// What `sb_gamedir` does.
pub open spec fn gamedir_step(s: SessionView, args: Seq<u8>) -> (SessionView, Outcome) {
    if s.state != State::Idle {
        (s, Err(BrokerError::Custom("session already active")))
    } else {
        match commands::gamedir_args(args) {
            Err(e) => (s, Err(e)),
            Ok(app_id) => match s.steam {
                None => (
                    SessionView { phase: PhaseView::Starting(app_id), ..s },
                    Ok(ActionView::StartSteam(app_id)),
                ),
                Some(steam) => if steam.app_id != app_id {
                    (
                        s,
                        Err(
                            BrokerError::Custom(
                                "broker already initialized with a different AppID; sb_terminate first",
                            ),
                        ),
                    )
                } else {
                    (
                        SessionView { state: State::Active, phase: PhaseView::Commands, ..s },
                        Ok(ActionView::Proceed),
                    )
                },
            },
        }
    }
}

/// What `sb_connect` does.
pub open spec fn connect_step(s: SessionView, args: Seq<u8>) -> (SessionView, Outcome) {
    if s.state != State::Active {
        (s, Err(BrokerError::Custom("session not active")))
    } else {
        match commands::connect_args(args) {
            Err(e) => (s, Err(e)),
            Ok(request) => (
                SessionView {
                    phase: PhaseView::Connecting {
                        challenge: request.challenge,
                        serveradr: request.serveradr,
                    },
                    ..s
                },
                Ok(
                    ActionView::InitiateConnection {
                        server_steam_id: request.server_steam_id,
                        serveradr: request.serveradr,
                        secure: request.secure,
                    },
                ),
            ),
        }
    }
}

/// What the answer to a request for a ticket does.
pub open spec fn ticket_step(
    s: SessionView,
    challenge: i32,
    serveradr: SocketAddrV4,
    answer: Option<(Vec<u8>, u64)>,
) -> (SessionView, Outcome) {
    match answer {
        None => (s, Err(BrokerError::Custom("steam refused to issue auth ticket"))),
        Some((ticket, steam_id)) => {
            let payload = response::connect_payload(challenge, steam_id, ticket@);
            let t = SessionView {
                state: State::TicketRequested { challenge, serveradr },
                phase: PhaseView::Settling,
                ..s
            };
            if payload.len() > MAX_PAYLOAD_SIZE {
                (t, Err(BrokerError::Custom("response payload too large")))
            } else {
                (t, Ok(ActionView::Send(protocol::frame(payload))))
            }
        },
    }
}

/// What `sb_disconnect` does.
pub open spec fn disconnect_step(s: SessionView, args: Seq<u8>) -> (SessionView, Outcome) {
    match s.state {
        State::TicketRequested { challenge: requested, .. } => match commands::disconnect_args(
            args,
        ) {
            Err(e) => (s, Err(e)),
            Ok((serveradr, challenge)) => if challenge != requested {
                (s, Err(BrokerError::Custom("challenge mismatch")))
            } else {
                (
                    SessionView { state: State::Active, phase: PhaseView::Settling, ..s },
                    Ok(ActionView::TerminateConnection(serveradr)),
                )
            },
        },
        _ => (s, Err(BrokerError::Custom("no ticket requested"))),
    }
}

/// `pending` with a reply for `id` owed, too.
pub open spec fn owing(pending: Seq<u64>, id: u64) -> Seq<u64> {
    if pending.contains(id) {
        pending
    } else {
        pending.push(id)
    }
}

/// The session after a snapshot of `id` has been requested, and what is to be done then.
pub open spec fn requested(
    s: SessionView,
    id: u64,
    friend: Option<FriendInfo>,
    now: u128,
) -> (SessionView, Outcome) {
    let steam = s.steam->0;
    let asks = steam::begins_fetch(steam::avatar_of(steam, id), now);
    (
        SessionView {
            steam: Some(steam::after_request(steam::ensured(steam, id, friend), id, now)),
            pending: owing(s.pending, id),
            phase: if asks {
                PhaseView::Settling
            } else {
                PhaseView::Commands
            },
            ..s
        },
        Ok(
            if asks {
                ActionView::RequestUserInformation(id)
            } else {
                ActionView::Proceed
            },
        ),
    )
}

/// What `sb_get_player` does.
pub open spec fn get_player_step(s: SessionView, args: Seq<u8>, now: u128) -> (
    SessionView,
    Outcome,
) {
    if s.state == State::Idle {
        (s, Err(BrokerError::Custom("session not active")))
    } else {
        match commands::get_player_args(args) {
            Err(e) => (s, Err(e)),
            Ok(id) => if s.steam->0.players.contains_key(id) {
                requested(s, id, None, now)
            } else {
                (
                    SessionView { phase: PhaseView::Capturing(id), ..s },
                    Ok(ActionView::QueryFriend(id)),
                )
            },
        }
    }
}

/// The session once it holds no ticket, and the server whose ticket the Steam client is to be
/// told about.
pub open spec fn cleaned(s: SessionView) -> (SessionView, Option<SocketAddrV4>) {
    match s.state {
        State::TicketRequested { serveradr, .. } => (
            SessionView { state: State::Active, ..s },
            if s.steam is Some {
                Some(serveradr)
            } else {
                None
            },
        ),
        _ => (s, None),
    }
}

/// How a session ends: a ticket still handed out is given back first.
pub open spec fn ending(s: SessionView, result: SessionResult) -> (SessionView, Outcome) {
    match cleaned(s) {
        (t, Some(serveradr)) => (
            SessionView { phase: PhaseView::Closing(result), ..t },
            Ok(ActionView::TerminateConnection(serveradr)),
        ),
        (t, None) => (SessionView { phase: PhaseView::Ended, ..t }, Ok(ActionView::End(result))),
    }
}

/// What a command does.
pub open spec fn command_step(s: SessionView, payload: Seq<u8>, now: u128) -> (
    SessionView,
    Outcome,
) {
    match commands::understood(payload) {
        Err(e) => (s, Err(e)),
        Ok((Command::Gamedir, args)) => gamedir_step(s, args),
        Ok((Command::Connect, args)) => connect_step(s, args),
        Ok((Command::Disconnect, args)) => disconnect_step(s, args),
        Ok((Command::GetPlayer, args)) => get_player_step(s, args, now),
        Ok((Command::Terminate, _)) => ending(s, SessionResult::Terminate),
    }
}

/// The players of `steam` after a look at the avatars of those in `ids`.
pub open spec fn all_looked_at(steam: SteamView, ids: Seq<u64>, now: u128) -> SteamView {
    SteamView {
        players: Map::new(
            |id: u64| steam.players.contains_key(id),
            |id: u64|
                if ids.contains(id) {
                    EntryView {
                        avatar: avatar::looked_at(steam.players[id].avatar, now),
                        facts: steam.players[id].facts,
                    }
                } else {
                    steam.players[id]
                },
        ),
        ..steam
    }
}

/// Those of `ids` whose snapshots are not ready.
pub open spec fn unready(steam: SteamView, ids: Seq<u64>, now: u128) -> Seq<u64> {
    ids.filter(|id: u64| steam::snapshot_of(steam, id, now) is None)
}

/// The reply for a player, if their snapshot is ready.
pub open spec fn reply(steam: SteamView, id: u64, now: u128) -> Option<Seq<u8>> {
    match steam::snapshot_of(steam, id, now) {
        Some(snapshot) => Some(protocol::frame(response::player_payload(snapshot))),
        None => None,
    }
}

/// The replies for those of `ids` whose snapshots are ready, in their order.
pub open spec fn replies(steam: SteamView, ids: Seq<u64>, now: u128) -> Seq<Seq<u8>> {
    ids.filter_map(|id: u64| reply(steam, id, now))
}

/// Whether `event` is the answer that a session in `phase` waits for.
pub open spec fn expects(phase: PhaseView, event: Event) -> bool {
    match phase {
        PhaseView::Avatars => event is Avatars,
        PhaseView::Capturing(_) => event is Friend,
        PhaseView::Reading => event is Read,
        PhaseView::Connecting { .. } => event is Ticket,
        PhaseView::Ended => false,
        _ => event is Done,
    }
}

/// Whether `event` is an answer to `action`.
pub open spec fn answers(event: Event, action: ActionView) -> bool {
    match action {
        ActionView::FetchAvatars(_) => event is Avatars,
        ActionView::QueryFriend(_) => event is Friend,
        ActionView::Read => event is Read,
        ActionView::InitiateConnection { .. } => event is Ticket,
        ActionView::End(_) => false,
        _ => event is Done,
    }
}

/// Whether `ids` are the players whose avatars are pending, each once.
pub open spec fn lists_pending(ids: Seq<u64>, steam: SteamView) -> bool {
    &&& ids.no_duplicates()
    &&& forall|id: u64|
        ids.contains(id) <==> (steam.players.contains_key(id)
            && steam.players[id].avatar is Pending)
}

/// What a read from the peer does.
pub open spec fn read_step(s: SessionView, chunk: Option<Vec<u8>>) -> (SessionView, Outcome) {
    match chunk {
        None => (SessionView { phase: PhaseView::Commands, ..s }, Ok(ActionView::Proceed)),
        Some(data) => if data@.len() == 0 {
            ending(
                s,
                if s.steam is Some {
                    SessionResult::Terminate
                } else {
                    SessionResult::Continue
                },
            )
        } else if s.rx.len() + data@.len() > max_buffered() {
            (s, Err(BrokerError::Custom("rx buffer overflow")))
        } else {
            (
                SessionView { rx: s.rx + data@, phase: PhaseView::Commands, ..s },
                Ok(ActionView::Proceed),
            )
        },
    }
}

/// What is done about the bytes received: the next whole frame is carried out, and a new turn
/// begins when there is none.
pub open spec fn frame_step(s: SessionView, now: u128) -> (SessionView, Outcome) {
    match protocol::parsed(s.rx) {
        Parsed::Incomplete => (SessionView { phase: PhaseView::Turn, ..s }, Ok(ActionView::Proceed)),
        Parsed::BadMagic => (s, Err(BrokerError::Custom("invalid frame magic"))),
        Parsed::TooLarge => (s, Err(BrokerError::Custom("frame too large"))),
        Parsed::Frame { consumed, payload } => command_step(
            SessionView { rx: s.rx.skip(consumed as int), ..s },
            payload,
            now,
        ),
    }
}

/// One step of a session: from `s`, on `event` at the time `now`, to `t` with `r` as its
/// outcome. Only the order in which pending avatars are listed is left open.
pub open spec fn step(
    s: SessionView,
    event: Event,
    now: u128,
    t: SessionView,
    r: Outcome,
) -> bool {
    match s.phase {
        PhaseView::Turn => if s.steam is Some {
            &&& t == SessionView { phase: PhaseView::Callbacks, ..s }
            &&& r == Ok::<_, BrokerError>(ActionView::RunCallbacks)
        } else {
            &&& t == SessionView { phase: PhaseView::Flush, ..s }
            &&& r == Ok::<_, BrokerError>(ActionView::Proceed)
        },
        PhaseView::Callbacks => {
            &&& t == SessionView { phase: PhaseView::Avatars, ..s }
            &&& r matches Ok(ActionView::FetchAvatars(ids))
            &&& lists_pending(ids, s.steam->0)
        },
        PhaseView::Avatars => {
            &&& t == SessionView {
                steam: Some(steam::after_deliveries(s.steam->0, event->Avatars_0@)),
                phase: PhaseView::Flush,
                ..s
            }
            &&& r == Ok::<_, BrokerError>(ActionView::Proceed)
        },
        PhaseView::Flush => {
            &&& t == SessionView {
                phase: PhaseView::Sending(ready_replies(s, now)),
                ..flushed(s, now)
            }
            &&& r == Ok::<_, BrokerError>(ActionView::Proceed)
        },
        PhaseView::Sending(frames) => if frames.len() == 0 {
            &&& t == SessionView { phase: PhaseView::Reading, ..s }
            &&& r == Ok::<_, BrokerError>(ActionView::Read)
        } else {
            &&& t == SessionView { phase: PhaseView::Sending(frames.drop_first()), ..s }
            &&& r == Ok::<_, BrokerError>(ActionView::Send(frames[0]))
        },
        PhaseView::Reading => (t, r) == read_step(s, event->Read_0),
        PhaseView::Commands => (t, r) == frame_step(s, now),
        PhaseView::Starting(app_id) => {
            &&& t == SessionView {
                steam: Some(SteamView { app_id, players: Map::empty() }),
                state: State::Active,
                phase: PhaseView::Commands,
                ..s
            }
            &&& r == Ok::<_, BrokerError>(ActionView::Proceed)
        },
        PhaseView::Connecting { challenge, serveradr } => (t, r) == ticket_step(
            s,
            challenge,
            serveradr,
            event->Ticket_0,
        ),
        PhaseView::Capturing(id) => (t, r) == requested(s, id, Some(event->Friend_0), now),
        PhaseView::Settling => {
            &&& t == SessionView { phase: PhaseView::Commands, ..s }
            &&& r == Ok::<_, BrokerError>(ActionView::Proceed)
        },
        PhaseView::Closing(result) => {
            &&& t == SessionView { phase: PhaseView::Ended, ..s }
            &&& r == Ok::<_, BrokerError>(ActionView::End(result))
        },
        PhaseView::Ended => false,
    }
}

/// How the outcome of a flush grows by one more player.
proof fn one_more_looked_at(steam: SteamView, ids: Seq<u64>, i: int, now: u128)
    requires
        0 <= i < ids.len(),
        ids.no_duplicates(),
    ensures
        ({
            let looked = all_looked_at(steam, ids.take(i), now);
            let id = ids[i];
            &&& steam::snapshot_of(looked, id, now) == steam::snapshot_of(steam, id, now)
            &&& all_looked_at(steam, ids.take(i + 1), now) == steam::after_poll(looked, id, now)
            &&& unready(steam, ids.take(i + 1), now) == if reply(steam, id, now) is None {
                unready(steam, ids.take(i), now).push(id)
            } else {
                unready(steam, ids.take(i), now)
            }
            &&& replies(steam, ids.take(i + 1), now) == match reply(steam, id, now) {
                Some(frame) => replies(steam, ids.take(i), now).push(frame),
                None => replies(steam, ids.take(i), now),
            }
        }),
{
    let id = ids[i];
    let (some, more) = (ids.take(i), ids.take(i + 1));
    let looked = all_looked_at(steam, some, now);
    assert(more.drop_last() =~= some);
    assert(more.last() == id);
    assert(!some.contains(id)) by {
        if some.contains(id) {
            let k = choose|k: int| 0 <= k < some.len() && some[k] == id;
            assert(ids[k] == id);
        }
    }
    assert forall|other: u64| more.contains(other) <==> (some.contains(other) || other == id) by {
        if more.contains(other) {
            let k = choose|k: int| 0 <= k < more.len() && more[k] == other;
            if k < i {
                assert(some[k] == other);
            }
        }
        if some.contains(other) {
            let k = choose|k: int| 0 <= k < some.len() && some[k] == other;
            assert(more[k] == other);
        }
        assert(more[i] == id);
    }
    assert(all_looked_at(steam, more, now).players =~= steam::after_poll(
        looked,
        id,
        now,
    ).players);
    reveal(Seq::filter);
    reveal_with_fuel(Seq::filter_map, 2);
    assert(replies(steam, more, now) =~= match reply(steam, id, now) {
        Some(frame) => replies(steam, some, now).push(frame),
        None => replies(steam, some, now),
    });
}

/// The session after the replies that are ready have been collected.
pub open spec fn flushed(s: SessionView, now: u128) -> SessionView {
    match s.steam {
        None => s,
        Some(steam) => SessionView {
            steam: Some(all_looked_at(steam, s.pending, now)),
            pending: unready(steam, s.pending, now),
            ..s
        },
    }
}

/// The replies that are ready, as frames.
pub open spec fn ready_replies(s: SessionView, now: u128) -> Seq<Seq<u8>> {
    match s.steam {
        None => Seq::empty(),
        Some(steam) => replies(steam, s.pending, now),
    }
}

/// A request for a player leaves a session sound.
pub proof fn request_keeps_sound(s: SessionView, id: u64, friend: Option<FriendInfo>, now: u128)
    requires
        sound(s),
        s.steam is Some,
    ensures
        sound(requested(s, id, friend, now).0),
{
    let t = requested(s, id, friend, now).0;
    assert forall|other: u64| #[trigger] t.pending.contains(other) implies steam::asked_for(
        t.steam->0,
        other,
    ) by {
        steam::request_asks(s.steam->0, id, friend, now, other);
        if other != id {
            let k = choose|k: int| 0 <= k < t.pending.len() && t.pending[k] == other;
            assert(s.pending[k] == other);
            assert(s.pending.contains(other));
        }
    }
}

/// Collecting replies leaves a session sound.
pub proof fn flush_keeps_sound(s: SessionView, now: u128)
    requires
        sound(s),
    ensures
        sound(flushed(s, now)),
{
    if let Some(steam) = s.steam {
        let pred = |id: u64| steam::snapshot_of(steam, id, now) is None;
        let t = flushed(s, now);
        filter_keeps_distinct(s.pending, pred);
        assert forall|id: u64| #[trigger] t.pending.contains(id) implies {
            &&& t.steam is Some
            &&& t.steam->0.players.contains_key(id)
            &&& !(t.steam->0.players[id].avatar is NotRequested)
        } by {
            s.pending.lemma_filter_contains_rev(pred, id);
            assert(s.pending.contains(id));
        }
    }
}

/// Leaving some items out leaves the others distinct.
proof fn filter_keeps_distinct(ids: Seq<u64>, pred: spec_fn(u64) -> bool)
    requires
        ids.no_duplicates(),
    ensures
        ids.filter(pred).no_duplicates(),
    decreases ids.len(),
{
    reveal(Seq::filter);
    if ids.len() > 0 {
        let rest = ids.drop_last();
        filter_keeps_distinct(rest, pred);
        if rest.filter(pred).contains(ids.last()) {
            rest.lemma_filter_contains_rev(pred, ids.last());
            let k = choose|k: int| 0 <= k < rest.len() && rest[k] == ids.last();
            assert(ids[k] == ids.last());
        }
    }
}

impl Session {
    /// What holds of a session at all times.
    pub open spec fn wf(self) -> bool {
        sound(self@)
    }

    /// A new connection, on top of what earlier ones have left.
    pub fn new(steam: Option<SteamService>) -> (r: Self)
        ensures
            r.wf(),
            r@ == fresh(opt_steam(steam)),
    {
        Session {
            rx_buffer: Vec::with_capacity(MAX_PAYLOAD_SIZE),
            state: State::Idle,
            steam,
            pending_player_replies: Vec::new(),
            phase: Phase::Turn,
        }
    }

    /// What the connection leaves to later ones.
    pub fn into_steam(self) -> (r: Option<SteamService>)
        ensures
            opt_steam(r) == self@.steam,
    {
        self.steam
    }

    /// How far the session has come.
    pub fn state(&self) -> (r: State)
        ensures
            r == self@.state,
    {
        self.state
    }

    /// The first steps of a session: `sb_gamedir <gamedir>`.
    pub fn handle_gamedir(&mut self, args: &[u8]) -> (r: Result<Action, BrokerError>)
        requires
            old(self).wf(),
            old(self)@.phase is Commands,
        ensures
            final(self).wf(),
            (final(self)@, outcome(r)) == gamedir_step(old(self)@, args@),
    {
        if self.state != State::Idle {
            return Err(BrokerError::Custom("session already active"));
        }
        let app_id: u32 = match read_gamedir(args) {
            Ok(app_id) => app_id,
            Err(e) => {
                return Err(e);
            },
        };
        match &self.steam {
            Some(existing) => {
                if existing.app_id() != app_id {
                    // The Steam client can't be re-initialized under a different AppID in-process.
                    return Err(
                        BrokerError::Custom(
                            "broker already initialized with a different AppID; sb_terminate first",
                        ),
                    );
                }
            },
            None => {
                self.phase = Phase::Starting(app_id);
                return Ok(Action::StartSteam(app_id));
            },
        }
        self.state = State::Active;
        self.phase = Phase::Commands;
        Ok(Action::Proceed)
    }

    /// Asks for a ticket: `sb_connect <ip:port> <server_steamid> <secure 0|1> <challenge>`.
    pub fn handle_connect(&mut self, args: &[u8]) -> (r: Result<Action, BrokerError>)
        requires
            old(self).wf(),
            old(self)@.phase is Commands,
        ensures
            final(self).wf(),
            (final(self)@, outcome(r)) == connect_step(old(self)@, args@),
    {
        if self.state != State::Active {
            return Err(BrokerError::Custom("session not active"));
        }
        match read_connect(args) {
            Err(e) => Err(e),
            Ok(request) => {
                self.phase = Phase::Connecting {
                    challenge: request.challenge,
                    serveradr: request.serveradr,
                };
                Ok(
                    Action::InitiateConnection {
                        server_steam_id: request.server_steam_id,
                        serveradr: request.serveradr,
                        secure: request.secure,
                    },
                )
            },
        }
    }

    /// Hands out the ticket that the Steam client has issued, if it has.
    fn handle_ticket(
        &mut self,
        challenge: i32,
        serveradr: SocketAddrV4,
        answer: Option<(Vec<u8>, u64)>,
    ) -> (r: Result<Action, BrokerError>)
        requires
            old(self).wf(),
            old(self)@.steam is Some,
        ensures
            final(self).wf(),
            (final(self)@, outcome(r)) == ticket_step(old(self)@, challenge, serveradr, answer),
    {
        match answer {
            None => Err(BrokerError::Custom("steam refused to issue auth ticket")),
            Some((ticket, steam_id)) => {
                self.state = State::TicketRequested { challenge, serveradr };
                self.phase = Phase::Settling;
                let payload = connect_response(challenge, steam_id, &ticket);
                match build_frame(&payload) {
                    Ok(frame) => Ok(Action::Send(frame)),
                    Err(e) => Err(e),
                }
            },
        }
    }

    /// Gives a ticket back: `sb_disconnect <ip:port> <challenge>`.
    pub fn handle_disconnect(&mut self, args: &[u8]) -> (r: Result<Action, BrokerError>)
        requires
            old(self).wf(),
            old(self)@.phase is Commands,
        ensures
            final(self).wf(),
            (final(self)@, outcome(r)) == disconnect_step(old(self)@, args@),
    {
        match self.state {
            State::TicketRequested { challenge: requested, serveradr: _ } => {
                match read_disconnect(args) {
                    Err(e) => Err(e),
                    Ok((serveradr, challenge)) => {
                        if challenge != requested {
                            return Err(BrokerError::Custom("challenge mismatch"));
                        }
                        self.state = State::Active;
                        self.phase = Phase::Settling;
                        Ok(Action::TerminateConnection(serveradr))
                    },
                }
            },
            _ => Err(BrokerError::Custom("no ticket requested")),
        }
    }

    /// Requests the snapshot of a player and notes that a reply is owed.
    fn request_player(&mut self, id: u64, friend: Option<FriendInfo>, now: u128) -> (r: Result<
        Action,
        BrokerError,
    >)
        requires
            old(self).wf(),
            old(self)@.steam is Some,
            old(self)@.steam->0.players.contains_key(id) || friend is Some,
        ensures
            final(self).wf(),
            (final(self)@, outcome(r)) == requested(old(self)@, id, friend, now),
    {
        let ghost before = self@;
        let mut ask = false;
        if let Some(steam) = &mut self.steam {
            ask = steam.request_player_snapshot(id, friend, now);
        }
        let mut owed = false;
        let mut i: usize = 0;
        while i < self.pending_player_replies.len()
            invariant
                i <= self.pending_player_replies@.len(),
                owed <==> exists|k: int| 0 <= k < i && self.pending_player_replies@[k] == id,
            decreases self.pending_player_replies@.len() - i,
        {
            if self.pending_player_replies[i] == id {
                owed = true;
            }
            i = i + 1;
        }
        if !owed {
            self.pending_player_replies.push(id);
        }
        self.phase = if ask {
            Phase::Settling
        } else {
            Phase::Commands
        };
        proof {
            request_keeps_sound(before, id, friend, now);
        }
        if ask {
            Ok(Action::RequestUserInformation(id))
        } else {
            Ok(Action::Proceed)
        }
    }

    /// Asks for a player: `sb_get_player <steamid>`.
    pub fn handle_get_player(&mut self, args: &[u8], now: u128) -> (r: Result<Action, BrokerError>)
        requires
            old(self).wf(),
            old(self)@.phase is Commands,
        ensures
            final(self).wf(),
            (final(self)@, outcome(r)) == get_player_step(old(self)@, args@, now),
    {
        if self.state == State::Idle {
            return Err(BrokerError::Custom("session not active"));
        }
        let id: u64 = match read_get_player(args) {
            Ok(id) => id,
            Err(e) => {
                return Err(e);
            },
        };
        let known = match &self.steam {
            Some(steam) => steam.tracks(id),
            None => false,
        };
        if known {
            self.request_player(id, None, now)
        } else {
            self.phase = Phase::Capturing(id);
            Ok(Action::QueryFriend(id))
        }
    }

    /// Takes back a ticket that is still handed out. Returns the server that it was for, for
    /// the Steam client to be told.
    pub fn cleanup_active_ticket(&mut self) -> (r: Option<SocketAddrV4>)
        requires
            old(self).wf(),
        ensures
            final(self).wf(),
            (final(self)@, r) == cleaned(old(self)@),
    {
        match self.state {
            State::TicketRequested { challenge: _, serveradr } => {
                self.state = State::Active;
                if self.steam.is_some() {
                    Some(serveradr)
                } else {
                    None
                }
            },
            _ => None,
        }
    }

    /// Ends the session.
    fn end(&mut self, result: SessionResult) -> (r: Result<Action, BrokerError>)
        requires
            old(self).wf(),
            old(self)@.steam is Some ==> result == SessionResult::Terminate,
        ensures
            final(self).wf(),
            (final(self)@, outcome(r)) == ending(old(self)@, result),
    {
        match self.cleanup_active_ticket() {
            Some(serveradr) => {
                self.phase = Phase::Closing(result);
                Ok(Action::TerminateConnection(serveradr))
            },
            None => {
                self.phase = Phase::Ended;
                Ok(Action::End(result))
            },
        }
    }

    /// Carries out one command.
    pub fn handle_command(&mut self, payload: &[u8], now: u128) -> (r: Result<Action, BrokerError>)
        requires
            old(self).wf(),
            old(self)@.phase is Commands,
        ensures
            final(self).wf(),
            (final(self)@, outcome(r)) == command_step(old(self)@, payload@, now),
    {
        match understand(payload) {
            Err(e) => Err(e),
            Ok((command, rest)) => match command {
                Command::Gamedir => self.handle_gamedir(rest),
                Command::Connect => self.handle_connect(rest),
                Command::Disconnect => self.handle_disconnect(rest),
                Command::GetPlayer => self.handle_get_player(rest, now),
                Command::Terminate => self.end(SessionResult::Terminate),
            },
        }
    }

    /// Takes in what a read from the peer has brought: nothing for now, or some bytes.
    pub fn read_chunk(&mut self, chunk: Option<Vec<u8>>) -> (r: Result<ReadOutcome, BrokerError>)
        requires
            old(self).wf(),
            old(self)@.phase is Reading,
        ensures
            final(self).wf(),
            match chunk {
                None => {
                    &&& r == Ok::<_, BrokerError>(ReadOutcome::DataOrIdle)
                    &&& final(self)@ == (SessionView { phase: PhaseView::Commands, ..old(self)@ })
                },
                Some(data) => if data@.len() == 0 {
                    &&& r == Ok::<_, BrokerError>(ReadOutcome::Closed)
                    &&& final(self)@ == old(self)@
                } else if old(self)@.rx.len() + data@.len() > max_buffered() {
                    &&& r == Err::<ReadOutcome, _>(BrokerError::Custom("rx buffer overflow"))
                    &&& final(self)@ == old(self)@
                } else {
                    &&& r == Ok::<_, BrokerError>(ReadOutcome::DataOrIdle)
                    &&& final(self)@ == (SessionView {
                        rx: old(self)@.rx + data@,
                        phase: PhaseView::Commands,
                        ..old(self)@
                    })
                },
            },
    {
        let data = match chunk {
            None => {
                self.phase = Phase::Commands;
                return Ok(ReadOutcome::DataOrIdle);
            },
            Some(data) => data,
        };
        if data.len() == 0 {
            return Ok(ReadOutcome::Closed);
        }
        if data.len() > MAX_PAYLOAD_SIZE * 2 || self.rx_buffer.len() + data.len() > MAX_PAYLOAD_SIZE
            * 2 {
            return Err(BrokerError::Custom("rx buffer overflow"));
        }
        append_bytes(&mut self.rx_buffer, &data);
        self.phase = Phase::Commands;
        Ok(ReadOutcome::DataOrIdle)
    }

    /// Takes the next whole frame off the bytes received, if there is one.
    pub fn try_parse_frame(&mut self) -> (r: Result<Option<Vec<u8>>, BrokerError>)
        requires
            old(self).wf(),
            old(self)@.phase is Commands,
        ensures
            final(self).wf(),
            match protocol::parsed(old(self)@.rx) {
                Parsed::Incomplete => r matches Ok(None) && final(self)@ == old(self)@,
                Parsed::Frame { consumed, payload } => {
                    &&& r matches Ok(Some(p))
                    &&& p@ == payload
                    &&& final(self)@ == (SessionView {
                        rx: old(self)@.rx.skip(consumed as int),
                        ..old(self)@
                    })
                },
                Parsed::BadMagic => r == Err::<Option<Vec<u8>>, _>(
                    BrokerError::Custom("invalid frame magic"),
                ) && final(self)@ == old(self)@,
                Parsed::TooLarge => r == Err::<Option<Vec<u8>>, _>(
                    BrokerError::Custom("frame too large"),
                ) && final(self)@ == old(self)@,
            },
    {
        match parse_frame(&self.rx_buffer) {
            Err(e) => Err(e),
            Ok(None) => Ok(None),
            Ok(Some((consumed, payload))) => {
                let rest = copy_range(&self.rx_buffer, consumed, self.rx_buffer.len());
                assert(rest@ =~= self.rx_buffer@.skip(consumed as int));
                self.rx_buffer = rest;
                Ok(Some(payload))
            },
        }
    }

    /// The frame that replies with a snapshot. It never exceeds the limit for a payload.
    pub fn send_player_snapshot_response(snapshot: &PlayerSnapshot) -> (r: Vec<u8>)
        ensures
            r@ == protocol::frame(response::player_payload(snapshot@)),
    {
        let payload = player_response(snapshot);
        match build_frame(&payload) {
            Ok(frame) => frame,
            Err(_) => {
                assert(false);
                Vec::new()
            },
        }
    }

    /// Collects a `sb_playerx` response for any queued `sb_get_player` request whose avatar
    /// fetch has since finished (or given up).
    pub fn flush_ready_player_replies(&mut self, now: u128) -> (r: Vec<Vec<u8>>)
        requires
            old(self).wf(),
        ensures
            final(self).wf(),
            all_bytes(r@) == ready_replies(old(self)@, now),
            final(self)@ == flushed(old(self)@, now),
    {
        let mut frames: Vec<Vec<u8>> = Vec::new();
        let ghost before = self@;
        let ghost ids = before.pending;
        let mut service = match self.steam.take() {
            None => {
                assert(all_bytes(frames@) =~= Seq::empty());
                return frames;
            },
            Some(service) => service,
        };
        let ghost steam = service@;
        let mut still_pending: Vec<u64> = Vec::new();
        let mut i: usize = 0;
        proof {
            assert(all_looked_at(steam, ids.take(0), now).players =~= steam.players);
            reveal(Seq::filter);
            assert(unready(steam, ids.take(0), now) =~= Seq::empty());
            assert(all_bytes(frames@) =~= replies(steam, ids.take(0), now));
        }
        while i < self.pending_player_replies.len()
            invariant
                i <= ids.len(),
                ids == self.pending_player_replies@,
                ids == before.pending,
                sound(before),
                before.steam == Some(steam),
                service@ == all_looked_at(steam, ids.take(i as int), now),
                still_pending@ == unready(steam, ids.take(i as int), now),
                all_bytes(frames@) == replies(steam, ids.take(i as int), now),
            decreases ids.len() - i,
        {
            let id: u64 = self.pending_player_replies[i];
            let ghost frames_before = frames@;
            proof {
                one_more_looked_at(steam, ids, i as int, now);
                assert(before.pending.contains(id));
                assert(service@.players.contains_key(id));
            }
            let (found, ask) = service.try_finalize_player_snapshot(id, now);
            // Each of these avatars has been asked for, so there is nothing to ask for now.
            assert(!ask);
            match found {
                Some(snapshot) => {
                    frames.push(Self::send_player_snapshot_response(&snapshot));
                    assert(all_bytes(frames@) =~= all_bytes(frames_before).push(
                        reply(steam, id, now)->0,
                    ));
                },
                None => {
                    still_pending.push(id);
                },
            }
            i = i + 1;
        }
        assert(ids.take(i as int) =~= ids);
        self.steam = Some(service);
        self.pending_player_replies = still_pending;
        proof {
            flush_keeps_sound(before, now);
        }
        frames
    }

    /// Takes one step, on the answer to the last action. The first step is taken on
    /// [`Event::Done`]. `now` is the time, in nanoseconds since any fixed point.
    ///
    /// An error ends the session, and so does [`Action::End`].
    pub fn run(&mut self, event: Event, now: u128) -> (r: Result<Action, BrokerError>)
        requires
            old(self).wf(),
            expects(old(self)@.phase, event),
        ensures
            final(self).wf(),
            step(old(self)@, event, now, final(self)@, outcome(r)),
            r matches Ok(action) ==> forall|e: Event|
                answers(e, action@) <==> #[trigger] expects(final(self)@.phase, e),
    {
        let ghost before = self@;
        match event {
            Event::Avatars(deliveries) => {
                if let Some(steam) = &mut self.steam {
                    steam.process_pending_avatars(deliveries);
                }
                self.phase = Phase::Flush;
                proof {
                    assert forall|id: u64| #[trigger] self@.pending.contains(id) implies {
                        &&& self@.steam is Some
                        &&& steam::asked_for(self@.steam->0, id)
                    } by {
                        assert(before.pending.contains(id));
                        steam::deliveries_keep_players(before.steam->0, deliveries@, id);
                    }
                }
                Ok(Action::Proceed)
            },
            Event::Friend(info) => {
                let id: u64 = match self.phase {
                    Phase::Capturing(id) => id,
                    _ => 0,
                };
                self.request_player(id, Some(info), now)
            },
            Event::Read(chunk) => match self.read_chunk(chunk) {
                Err(e) => Err(e),
                Ok(ReadOutcome::DataOrIdle) => Ok(Action::Proceed),
                Ok(ReadOutcome::Closed) => {
                    let result = if self.steam.is_some() {
                        SessionResult::Terminate
                    } else {
                        SessionResult::Continue
                    };
                    self.end(result)
                },
            },
            Event::Ticket(answer) => {
                if let Phase::Connecting { challenge, serveradr } = self.phase {
                    self.handle_ticket(challenge, serveradr, answer)
                } else {
                    Ok(Action::Proceed)
                }
            },
            Event::Done => self.step_on(now),
        }
    }

    /// Takes a step that needs no other answer than that the last action has been done.
    fn step_on(&mut self, now: u128) -> (r: Result<Action, BrokerError>)
        requires
            old(self).wf(),
            expects(old(self)@.phase, Event::Done),
        ensures
            final(self).wf(),
            step(old(self)@, Event::Done, now, final(self)@, outcome(r)),
            r matches Ok(action) ==> forall|e: Event|
                answers(e, action@) <==> #[trigger] expects(final(self)@.phase, e),
    {
        let mut phase = Phase::Ended;
        core::mem::swap(&mut phase, &mut self.phase);
        match phase {
            Phase::Turn => {
                if self.steam.is_some() {
                    self.phase = Phase::Callbacks;
                    Ok(Action::RunCallbacks)
                } else {
                    self.phase = Phase::Flush;
                    Ok(Action::Proceed)
                }
            },
            Phase::Callbacks => {
                self.phase = Phase::Avatars;
                let ids = match &self.steam {
                    Some(steam) => steam.pending_avatars(),
                    None => Vec::new(),
                };
                Ok(Action::FetchAvatars(ids))
            },
            Phase::Flush => {
                self.phase = Phase::Flush;
                let frames = self.flush_ready_player_replies(now);
                self.phase = Phase::Sending(frames);
                Ok(Action::Proceed)
            },
            Phase::Sending(frames) => {
                if frames.len() == 0 {
                    self.phase = Phase::Reading;
                    return Ok(Action::Read);
                }
                let mut rest = frames;
                let frame = rest.remove(0);
                assert(all_bytes(rest@) =~= all_bytes(frames@).drop_first());
                self.phase = Phase::Sending(rest);
                Ok(Action::Send(frame))
            },
            Phase::Commands => {
                self.phase = Phase::Commands;
                match self.try_parse_frame() {
                    Err(e) => Err(e),
                    Ok(None) => {
                        self.phase = Phase::Turn;
                        Ok(Action::Proceed)
                    },
                    Ok(Some(payload)) => self.handle_command(&payload, now),
                }
            },
            Phase::Starting(app_id) => {
                self.steam = Some(SteamService::new(app_id));
                self.state = State::Active;
                self.phase = Phase::Commands;
                Ok(Action::Proceed)
            },
            Phase::Settling => {
                self.phase = Phase::Commands;
                Ok(Action::Proceed)
            },
            Phase::Closing(result) => Ok(Action::End(result)),
            _ => Ok(Action::Proceed),
        }
    }
}

} // verus!
