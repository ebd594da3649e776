//! What holds of every step of a session, whatever its peer and the Steam client do.

use crate::args::SocketAddrV4;
use crate::avatar::{self, AvatarView};
use crate::commands;
use crate::error::BrokerError;
use crate::protocol::{self, Parsed, MAX_PAYLOAD_SIZE};
use crate::response;
use crate::session::{
    self, ActionView, Event, Outcome, PhaseView, SessionResult, SessionView, State,
};
use crate::steam::{self, FriendInfo, SteamView};
use vstd::prelude::*;

verus! {

/// A step leaves a session sound.
pub proof fn step_keeps_sound(
    s: SessionView,
    event: Event,
    now: u128,
    t: SessionView,
    r: Outcome,
)
    requires
        session::sound(s),
        session::expects(s.phase, event),
        session::step(s, event, now, t, r),
    ensures
        session::sound(t),
{
    if s.phase is Avatars {
        assert forall|id: u64| #[trigger] t.pending.contains(id) implies steam::asked_for(
            t.steam->0,
            id,
        ) by {
            assert(s.pending.contains(id));
            steam::deliveries_keep_players(s.steam->0, event->Avatars_0@, id);
        }
    } else if s.phase is Flush {
        session::flush_keeps_sound(s, now);
    } else if s.phase is Capturing {
        session::request_keeps_sound(s, s.phase->Capturing_0, Some(event->Friend_0), now);
    } else if s.phase is Commands {
        if let Parsed::Frame { consumed, payload } = protocol::parsed(s.rx) {
            let u = SessionView { rx: s.rx.skip(consumed as int), ..s };
            if let Ok((commands::Command::GetPlayer, args)) = commands::understood(payload) {
                if let Ok(id) = commands::get_player_args(args) {
                    if u.state != State::Idle {
                        session::request_keeps_sound(u, id, None, now);
                    }
                }
            }
        }
    }
}

/// A session that has been given its game directory is never without one again, and its Steam
/// client runs.
pub proof fn session_never_goes_back(
    s: SessionView,
    event: Event,
    now: u128,
    t: SessionView,
    r: Outcome,
)
    requires
        session::sound(s),
        session::expects(s.phase, event),
        session::step(s, event, now, t, r),
        s.state != State::Idle,
    ensures
        t.state != State::Idle,
        t.steam is Some,
{
    step_keeps_sound(s, event, now, t, r);
}

/// What a command can do to the state. It leaves idleness only by `sb_gamedir`, with the Steam
/// client running, and never goes back. It gives a ticket up only by `sb_disconnect` with the
/// challenge of the ticket or by `sb_terminate`, and is active then. It never hands one out
/// itself, and asks for one only by `sb_connect` while active.
pub proof fn commands_change_the_state_so(s: SessionView, payload: Seq<u8>, now: u128)
    requires
        session::sound(s),
        s.phase is Commands,
    ensures
        ({
            let t = session::command_step(s, payload, now).0;
            let said = commands::understood(payload);
            &&& t.state != State::Idle ==> t.steam is Some
            &&& s.state != State::Idle ==> t.state != State::Idle
            &&& s.state == State::Idle && t.state != State::Idle ==> t.state == State::Active
                && said is Ok && said->Ok_0.0 == commands::Command::Gamedir
            &&& s.state is TicketRequested && t.state != s.state ==> {
                &&& t.state == State::Active
                &&& said is Ok
                &&& said->Ok_0.0 == commands::Command::Terminate || {
                    &&& said->Ok_0.0 == commands::Command::Disconnect
                    &&& commands::disconnect_args(said->Ok_0.1) matches Ok((_, challenge))
                    &&& challenge == s.state->challenge
                }
            }
            &&& t.state is TicketRequested ==> t.state == s.state
            &&& t.phase is Connecting ==> s.state == State::Active && said is Ok && said->Ok_0.0
                == commands::Command::Connect
        }),
{
}

/// Once the Steam client runs for an application, it stays so, and no player tracked is
/// forgotten.
pub proof fn application_and_players_stay(
    s: SessionView,
    event: Event,
    now: u128,
    t: SessionView,
    r: Outcome,
    id: u64,
)
    requires
        session::sound(s),
        session::step(s, event, now, t, r),
        s.steam is Some,
    ensures
        t.steam is Some,
        t.steam->0.app_id == s.steam->0.app_id,
        s.steam->0.players.contains_key(id) ==> t.steam->0.players.contains_key(id),
        steam::asked_for(s.steam->0, id) ==> steam::asked_for(t.steam->0, id),
{
    if s.phase is Avatars {
        steam::deliveries_keep_players(s.steam->0, event->Avatars_0@, id);
    }
}

/// A command that is refused changes nothing but that its frame is used up.
pub proof fn refused_command_changes_nothing(s: SessionView, payload: Seq<u8>, now: u128)
    requires
        session::command_step(s, payload, now).1 is Err,
    ensures
        session::command_step(s, payload, now).0 == s,
{
}

/// A session that has not been given its game directory refuses everything else but to be
/// terminated.
pub proof fn idle_session_refuses(s: SessionView, args: Seq<u8>, now: u128)
    requires
        s.state == State::Idle,
    ensures
        session::connect_step(s, args) == (
            s,
            Err::<ActionView, _>(BrokerError::Custom("session not active")),
        ),
        session::get_player_step(s, args, now) == (
            s,
            Err::<ActionView, _>(BrokerError::Custom("session not active")),
        ),
        session::disconnect_step(s, args) == (
            s,
            Err::<ActionView, _>(BrokerError::Custom("no ticket requested")),
        ),
{
}

/// A broker whose Steam client runs for one application refuses a game directory of another.
pub proof fn other_application_is_refused(s: SessionView, args: Seq<u8>)
    requires
        s.state == State::Idle,
        s.steam is Some,
        commands::gamedir_args(args) is Ok,
        commands::gamedir_args(args)->Ok_0 != s.steam->0.app_id,
    ensures
        session::gamedir_step(s, args) == (
            s,
            Err::<ActionView, _>(
                BrokerError::Custom(
                    "broker already initialized with a different AppID; sb_terminate first",
                ),
            ),
        ),
{
}

/// A ticket is asked for only by `sb_connect` in an active session, with what the arguments of
/// that command say.
pub proof fn ticket_is_asked_for_by_connect(
    s: SessionView,
    event: Event,
    now: u128,
    t: SessionView,
    r: Outcome,
)
    requires
        session::step(s, event, now, t, r),
        r is Ok,
        t.phase is Connecting,
    ensures
        s.phase is Commands,
        s.state == State::Active,
        t.state == State::Active,
        protocol::parsed(s.rx) matches Parsed::Frame { payload, .. } && {
            &&& commands::understood(payload) matches Ok((command, args))
            &&& command == commands::Command::Connect
            &&& commands::connect_args(args) matches Ok(request)
            &&& t.phase == (PhaseView::Connecting {
                challenge: request.challenge,
                serveradr: request.serveradr,
            })
            &&& r == Ok::<_, BrokerError>(
                ActionView::InitiateConnection {
                    server_steam_id: request.server_steam_id,
                    serveradr: request.serveradr,
                    secure: request.secure,
                },
            )
        },
{
}

/// A ticket is handed out only when the Steam client has issued one, and for the challenge
/// and the server of the request that it was issued for.
pub proof fn ticket_comes_from_the_client(
    s: SessionView,
    event: Event,
    now: u128,
    t: SessionView,
    r: Outcome,
)
    requires
        session::sound(s),
        session::step(s, event, now, t, r),
        !(s.state is TicketRequested),
        t.state is TicketRequested,
    ensures
        s.state == State::Active,
        s.phase == (PhaseView::Connecting {
            challenge: t.state->challenge,
            serveradr: t.state->serveradr,
        }),
        event->Ticket_0 is Some,
{
}

/// A ticket that is no longer handed out has been given back: in the same step, the Steam
/// client is told so. A session that is ending gives back the very ticket that it holds.
pub proof fn ticket_is_given_back(
    s: SessionView,
    event: Event,
    now: u128,
    t: SessionView,
    r: Outcome,
)
    requires
        session::sound(s),
        session::step(s, event, now, t, r),
        s.state is TicketRequested,
        !(t.state is TicketRequested),
    ensures
        r matches Ok(ActionView::TerminateConnection(serveradr)) && (t.phase is Closing
            ==> serveradr == s.state->serveradr),
{
}

/// To take a ticket back twice is to take it back once: the second time there is nothing to
/// take back, and the Steam client is told nothing.
pub proof fn cleaning_up_twice_is_cleaning_up_once(s: SessionView)
    ensures
        ({
            let (t, told) = session::cleaned(s);
            &&& session::cleaned(t) == (t, None::<SocketAddrV4>)
            &&& !(t.state is TicketRequested)
            &&& s.state matches State::TicketRequested { serveradr, .. } ==> t.state
                == State::Active && (told == Some(serveradr) <==> s.steam is Some)
            &&& !(s.state is TicketRequested) ==> t == s && told is None
        }),
{
}

/// No ticket is left handed out when a session comes to its end.
pub proof fn no_ticket_is_left_behind(
    s: SessionView,
    event: Event,
    now: u128,
    t: SessionView,
    r: Outcome,
)
    requires
        session::sound(s),
        session::step(s, event, now, t, r),
        r matches Ok(action) && action is End,
    ensures
        !(t.state is TicketRequested),
        t.phase is Ended,
{
}

/// A session that lets the broker go on has not had the Steam client started: once it runs,
/// every session that comes to its end terminates the broker.
pub proof fn broker_goes_on_only_without_steam(
    s: SessionView,
    event: Event,
    now: u128,
    t: SessionView,
    result: SessionResult,
)
    requires
        session::sound(s),
        session::step(s, event, now, t, Ok(ActionView::End(result))),
    ensures
        result == SessionResult::Continue ==> t.steam is None,
{
}

/// `sb_disconnect` undoes `sb_connect`: with the challenge that the ticket was asked for, the
/// session is back where it was before, and the ticket is given back for the server named.
pub proof fn disconnect_undoes_connect(
    s: SessionView,
    connect: Seq<u8>,
    ticket: Vec<u8>,
    steam_id: u64,
    disconnect: Seq<u8>,
)
    requires
        s.state == State::Active,
        s.phase is Commands,
        commands::connect_args(connect) is Ok,
        commands::disconnect_args(disconnect) is Ok,
        commands::disconnect_args(disconnect)->Ok_0.1 == commands::connect_args(
            connect,
        )->Ok_0.challenge,
    ensures
        ({
            let request = commands::connect_args(connect)->Ok_0;
            let asked = session::connect_step(s, connect).0;
            let granted = session::ticket_step(
                asked,
                request.challenge,
                request.serveradr,
                Some((ticket, steam_id)),
            ).0;
            let (t, r) = session::disconnect_step(
                SessionView { phase: PhaseView::Commands, ..granted },
                disconnect,
            );
            &&& t == SessionView { phase: PhaseView::Settling, ..s }
            &&& r == Ok::<_, BrokerError>(
                ActionView::TerminateConnection(commands::disconnect_args(disconnect)->Ok_0.0),
            )
        }),
{
}

/// With any other challenge the ticket stays handed out.
pub proof fn other_challenge_keeps_the_ticket(s: SessionView, args: Seq<u8>)
    requires
        s.state is TicketRequested,
        commands::disconnect_args(args) is Ok,
        commands::disconnect_args(args)->Ok_0.1 != s.state->challenge,
    ensures
        session::disconnect_step(s, args) == (
            s,
            Err::<ActionView, _>(BrokerError::Custom("challenge mismatch")),
        ),
{
}

/// Where a ticket that is not too long has been issued, the peer gets it, together with its
/// challenge and the local user, in one frame.
pub proof fn ticket_reaches_the_peer(
    s: SessionView,
    challenge: i32,
    serveradr: SocketAddrV4,
    ticket: Vec<u8>,
    steam_id: u64,
    rest: Seq<u8>,
)
    requires
        27 + ticket@.len() <= MAX_PAYLOAD_SIZE,
    ensures
        ({
            let (t, r) = session::ticket_step(s, challenge, serveradr, Some((ticket, steam_id)));
            &&& t.state == (State::TicketRequested { challenge, serveradr })
            &&& r matches Ok(ActionView::Send(frame))
            &&& protocol::parsed(frame + rest) == (Parsed::Frame {
                consumed: frame.len(),
                payload: response::connect_payload(challenge, steam_id, ticket@),
            })
        }),
{
    response::connect_payload_reads_back(challenge, steam_id, ticket@);
    protocol::frame_parses_back(
        response::connect_payload(challenge, steam_id, ticket@),
        rest,
    );
}

/// A reply is owed for every player asked for, and once however often they are asked for.
pub proof fn reply_is_owed_once(
    s: SessionView,
    id: u64,
    friend: Option<FriendInfo>,
    now: u128,
    other: u64,
)
    requires
        session::sound(s),
    ensures
        ({
            let t = session::requested(s, id, friend, now).0;
            &&& t.pending.contains(id)
            &&& t.pending.no_duplicates()
            &&& s.pending.contains(other) ==> t.pending.contains(other)
            &&& t.pending.contains(other) ==> s.pending.contains(other) || other == id
            &&& session::owing(t.pending, id) == t.pending
        }),
{
    let t = session::requested(s, id, friend, now).0;
    if !s.pending.contains(id) {
        assert(t.pending[s.pending.len() as int] == id);
    }
    if s.pending.contains(other) {
        let k = choose|k: int| 0 <= k < s.pending.len() && s.pending[k] == other;
        assert(t.pending[k] == other);
    }
    if t.pending.contains(other) {
        let k = choose|k: int| 0 <= k < t.pending.len() && t.pending[k] == other;
        if k < s.pending.len() {
            assert(s.pending[k] == other);
        }
    }
}

/// The session once `sb_get_player` has been carried out, and what the last step of it has come
/// to. `friend` is what the Steam client tells about a player who is not tracked.
pub open spec fn player_asked_for(
    s: SessionView,
    args: Seq<u8>,
    friend: FriendInfo,
    now: u128,
) -> (SessionView, Outcome) {
    let (t, r) = session::get_player_step(s, args, now);
    match t.phase {
        PhaseView::Capturing(id) => session::requested(t, id, Some(friend), now),
        _ => (t, r),
    }
}

/// `sb_get_player` with an id in its arguments. An idle session refuses it. Any other owes one
/// reply for that player, behind those already owed, and none more when they are asked for
/// again. Nothing is sent, and nothing else changes but what is kept about the player.
pub proof fn get_player_owes_one_reply(
    s: SessionView,
    args: Seq<u8>,
    friend: FriendInfo,
    now: u128,
    again: FriendInfo,
    later: u128,
)
    requires
        session::sound(s),
        s.phase is Commands,
        commands::get_player_args(args) is Ok,
    ensures
        s.state == State::Idle ==> session::get_player_step(s, args, now) == (
            s,
            Err::<ActionView, _>(BrokerError::Custom("session not active")),
        ),
        s.state != State::Idle ==> {
            let id = commands::get_player_args(args)->Ok_0;
            let (t, r) = player_asked_for(s, args, friend, now);
            let next = SessionView { phase: PhaseView::Commands, ..t };
            &&& r is Ok
            &&& !(r->Ok_0 is Send)
            &&& !(session::get_player_step(s, args, now).1->Ok_0 is Send)
            &&& t.pending == if s.pending.contains(id) {
                s.pending
            } else {
                s.pending.push(id)
            }
            &&& t.pending.no_duplicates()
            &&& t.state == s.state
            &&& t.rx == s.rx
            &&& t.steam == Some(
                steam::after_request(
                    steam::ensured(s.steam->0, id, Some(friend)),
                    id,
                    now,
                ),
            )
            &&& player_asked_for(next, args, again, later).0.pending == t.pending
        },
{
    if s.state != State::Idle {
        let id = commands::get_player_args(args)->Ok_0;
        let t = player_asked_for(s, args, friend, now).0;
        reply_is_owed_once(s, id, Some(friend), now, id);
        steam::request_asks(s.steam->0, id, Some(friend), now, id);
        session::request_keeps_sound(s, id, Some(friend), now);
        assert(t.pending.contains(id)) by {
            if !s.pending.contains(id) {
                assert(t.pending[s.pending.len() as int] == id);
            }
        }
    }
}

/// The Steam client is asked for a player's data exactly when a fetch of their avatar begins,
/// so a second request asks for nothing while a fetch is under way or has brought the avatar.
pub proof fn client_is_asked_when_a_fetch_begins(
    s: SessionView,
    id: u64,
    friend: Option<FriendInfo>,
    now: u128,
    again: u128,
)
    requires
        session::sound(s),
        s.steam is Some,
    ensures
        ({
            let (t, r) = session::requested(s, id, friend, now);
            let avatar = steam::avatar_of(t.steam->0, id);
            &&& r == Ok::<_, BrokerError>(ActionView::RequestUserInformation(id))
                <==> steam::begins_fetch(steam::avatar_of(s.steam->0, id), now)
            &&& steam::asked_for(t.steam->0, id)
            &&& !(avatar::seen(avatar, again) is Unavailable) ==> session::requested(
                t,
                id,
                friend,
                again,
            ).1 == Ok::<_, BrokerError>(ActionView::Proceed)
        }),
{
    steam::request_asks(s.steam->0, id, friend, now, id);
}

/// The replies collected and those still owed make up those owed before.
proof fn replies_and_unready_add_up(steam: SteamView, ids: Seq<u64>, now: u128)
    ensures
        session::replies(steam, ids, now).len() + session::unready(steam, ids, now).len()
            == ids.len(),
    decreases ids.len(),
{
    reveal(Seq::filter);
    if ids.len() > 0 {
        replies_and_unready_add_up(steam, ids.drop_last(), now);
    }
}

/// The reply for each of `ids` is collected if it is ready, and still owed if it is not.
proof fn reply_is_collected(steam: SteamView, ids: Seq<u64>, id: u64, now: u128)
    requires
        ids.contains(id),
    ensures
        session::reply(steam, id, now) is Some ==> session::replies(steam, ids, now).contains(
            session::reply(steam, id, now)->0,
        ),
        session::reply(steam, id, now) is None <==> session::unready(steam, ids, now).contains(id),
    decreases ids.len(),
{
    reveal(Seq::filter);
    let rest = ids.drop_last();
    let (all, some) = (session::replies(steam, ids, now), session::replies(steam, rest, now));
    let (owed, before) = (session::unready(steam, ids, now), session::unready(steam, rest, now));
    let k = choose|k: int| 0 <= k < ids.len() && ids[k] == id;
    if k < rest.len() {
        assert(rest[k] == id);
        reply_is_collected(steam, rest, id, now);
        if session::reply(steam, id, now) is Some {
            let f = session::reply(steam, id, now)->0;
            let j = choose|j: int| 0 <= j < some.len() && some[j] == f;
            assert(all[j] == f);
        } else {
            let j = choose|j: int| 0 <= j < before.len() && before[j] == id;
            assert(owed[j] == id);
        }
    } else {
        if session::reply(steam, id, now) is Some {
            assert(all.last() == session::reply(steam, id, now)->0);
        } else {
            assert(owed.last() == id);
        }
    }
    if owed.contains(id) {
        let pred = |x: u64| steam::snapshot_of(steam, x, now) is None;
        let j = choose|j: int| 0 <= j < owed.len() && owed[j] == id;
        ids.lemma_filter_pred(pred, j);
    }
}

/// No reply is lost, and none is sent twice: a reply stops being owed only in the step that
/// collects it for sending, and as many are collected as stop being owed.
pub proof fn owed_reply_is_sent(
    s: SessionView,
    event: Event,
    now: u128,
    t: SessionView,
    r: Outcome,
    id: u64,
)
    requires
        session::sound(s),
        session::step(s, event, now, t, r),
        s.pending.contains(id),
    ensures
        !t.pending.contains(id) ==> {
            &&& session::reply(s.steam->0, id, now) is Some
            &&& t.phase matches PhaseView::Sending(frames)
            &&& frames.contains(session::reply(s.steam->0, id, now)->0)
            &&& frames.len() + t.pending.len() == s.pending.len()
        },
{
    if s.phase is Flush {
        let steam = s.steam->0;
        reply_is_collected(steam, s.pending, id, now);
        replies_and_unready_add_up(steam, s.pending, now);
    } else if s.phase is Capturing {
        reply_is_owed_once(s, s.phase->Capturing_0, Some(event->Friend_0), now, id);
    } else if s.phase is Commands {
        if let Parsed::Frame { consumed, payload } = protocol::parsed(s.rx) {
            if let Ok((commands::Command::GetPlayer, args)) = commands::understood(payload) {
                if let Ok(player) = commands::get_player_args(args) {
                    reply_is_owed_once(s, player, None, now, id);
                }
            }
        }
    }
}

/// No reply waits for an avatar longer than the timeout: the first collection later than that
/// after the fetch began sends it, with or without the avatar.
pub proof fn overdue_reply_is_sent(
    s: SessionView,
    now: u128,
    t: SessionView,
    r: Outcome,
    id: u64,
)
    requires
        session::sound(s),
        s.phase is Flush,
        session::step(s, Event::Done, now, t, r),
        s.pending.contains(id),
        s.steam->0.players[id].avatar matches AvatarView::Pending(started) ==> now > started
            + avatar::AVATAR_PENDING_TIMEOUT,
    ensures
        !t.pending.contains(id),
        session::reply(s.steam->0, id, now) is Some,
{
    reply_is_collected(s.steam->0, s.pending, id, now);
}

/// Every reply that is sent is a good frame that carries the snapshot of a player owed.
pub proof fn replies_are_good_frames(steam: SteamView, id: u64, now: u128, rest: Seq<u8>)
    requires
        session::reply(steam, id, now) is Some,
    ensures
        ({
            let frame = session::reply(steam, id, now)->0;
            protocol::parsed(frame + rest) == (Parsed::Frame {
                consumed: frame.len(),
                payload: response::player_payload(steam::snapshot_of(steam, id, now)->0),
            })
        }),
{
    let snapshot = steam::snapshot_of(steam, id, now)->0;
    response::player_payload_reads_back(snapshot);
    protocol::frame_parses_back(response::player_payload(snapshot), rest);
}

/// Carrying out a command uses up exactly its frame.
pub proof fn command_uses_up_its_frame(
    s: SessionView,
    event: Event,
    now: u128,
    t: SessionView,
    r: Outcome,
)
    requires
        session::step(s, event, now, t, r),
        s.phase is Commands,
    ensures
        protocol::parsed(s.rx) matches Parsed::Frame { consumed, payload } ==> s.rx
            == protocol::frame(payload) + t.rx,
        !(protocol::parsed(s.rx) is Frame) ==> t.rx == s.rx,
{
    protocol::parsed_frame_is_a_frame(s.rx);
    if let Parsed::Frame { consumed, payload } = protocol::parsed(s.rx) {
        assert(s.rx =~= protocol::frame(payload) + s.rx.skip(consumed as int));
    }
}

/// By the time a session reads, less than a frame of the longest kind is waiting, so that
/// reading up to 4091 bytes at once never overflows the buffer.
pub proof fn reading_has_room(s: SessionView, chunk: Vec<u8>)
    requires
        session::sound(s),
        s.phase is Reading,
        0 < chunk@.len() <= 4091,
    ensures
        s.rx.len() < 6 + MAX_PAYLOAD_SIZE,
        session::read_step(s, Some(chunk)) == (
            SessionView { rx: s.rx + chunk@, phase: PhaseView::Commands, ..s },
            Ok::<_, BrokerError>(ActionView::Proceed),
        ),
{
}

} // verus!
