//! What a session does about each thing that its peer says and each thing that happens to it.

use crate::avatar;
use crate::command_laws;
use crate::commands;
use crate::error::{self, BrokerError};
use crate::protocol;
use crate::response;
use crate::session::{
    self, Action, ActionView, Event, Outcome, PhaseView, SessionResult, SessionView, State,
};
use crate::steam::{self, FriendInfo, SteamService, SteamView};
use crate::text;
use crate::word_laws;
use vstd::prelude::*;
use vstd::utf8::*;

verus! {

/// Whether the next thing that the peer says is `name` and, behind it, `rest`, with `tail`
/// received after that.
pub open spec fn says(s: SessionView, name: Seq<char>, rest: Seq<char>, tail: Seq<u8>) -> bool {
    &&& s.phase is Commands
    &&& forall|i: int| 0 <= i < name.len() ==> !text::is_white(#[trigger] name[i])
    &&& word_laws::is_apart(rest)
    &&& encode_utf8(name + rest).len() <= 4096
    &&& s.rx == protocol::frame(encode_utf8(name + rest)) + tail
}

/// The session once it has heard that.
pub open spec fn heard(s: SessionView, tail: Seq<u8>) -> SessionView {
    SessionView { rx: tail, ..s }
}

/// A session with nothing changed but what it does next.
pub open spec fn turned_to(s: SessionView, phase: PhaseView) -> SessionView {
    SessionView { phase, ..s }
}

/// Whether a session comes to `t` and `r` by hearing `name` and, behind it, `rest`: in a step,
/// with `tail` received after that, or as a command that it is handed, with `tail` waiting.
pub open spec fn hears(
    s: SessionView,
    name: Seq<char>,
    rest: Seq<char>,
    tail: Seq<u8>,
    event: Event,
    now: u128,
    t: SessionView,
    r: Outcome,
) -> bool {
    ||| says(s, name, rest, tail) && session::step(s, event, now, t, r)
    ||| {
        &&& s.phase is Commands
        &&& forall|i: int| 0 <= i < name.len() ==> !text::is_white(#[trigger] name[i])
        &&& word_laws::is_apart(rest)
        &&& (t, r) == session::command_step(heard(s, tail), encode_utf8(name + rest), now)
    }
}

/// What is said is carried out as a command.
proof fn said_is_carried_out(
    s: SessionView,
    name: Seq<char>,
    rest: Seq<char>,
    tail: Seq<u8>,
    now: u128,
)
    requires
        says(s, name, rest, tail),
    ensures
        session::frame_step(s, now) == session::command_step(
            heard(s, tail),
            encode_utf8(name + rest),
            now,
        ),
{
    let payload = encode_utf8(name + rest);
    protocol::frame_parses_back(payload, tail);
    command_laws::payload_is_the_command_it_names(name, rest);
    assert(s.rx.skip(protocol::frame(payload).len() as int) =~= tail);
}

/// `sb_terminate` ends every session, whatever state it is in and whatever follows the name. One
/// that holds no ticket is over at once, and the broker is to be terminated. One that holds a
/// ticket first has the Steam client told about it.
pub proof fn terminate_ends_the_session(
    s: SessionView,
    rest: Seq<char>,
    tail: Seq<u8>,
    event: Event,
    now: u128,
    t: SessionView,
    r: Outcome,
)
    requires
        session::sound(s),
        hears(s, "sb_terminate"@, rest, tail, event, now, t, r),
    ensures
        !(s.state is TicketRequested) ==> {
            &&& r == Ok::<_, BrokerError>(ActionView::End(SessionResult::Terminate))
            &&& t == turned_to(heard(s, tail), PhaseView::Ended)
        },
        s.state matches State::TicketRequested { serveradr, .. } ==> {
            &&& r == Ok::<_, BrokerError>(ActionView::TerminateConnection(serveradr))
            &&& t == (SessionView {
                state: State::Active,
                phase: PhaseView::Closing(SessionResult::Terminate),
                ..heard(s, tail)
            })
        },
{
    if says(s, "sb_terminate"@, rest, tail) {
        said_is_carried_out(s, "sb_terminate"@, rest, tail, now);
    }
    command_laws::payload_is_the_command_it_names("sb_terminate"@, rest);
}

/// Once its ticket is given back, a session that was to end is over, and the broker is to be
/// terminated. A session that is over takes no further step.
pub proof fn closing_session_is_over(
    s: SessionView,
    event: Event,
    now: u128,
    t: SessionView,
    r: Outcome,
)
    requires
        session::sound(s),
    ensures
        s.phase is Closing && session::step(s, event, now, t, r) ==> {
            &&& r == Ok::<_, BrokerError>(ActionView::End(SessionResult::Terminate))
            &&& t == turned_to(s, PhaseView::Ended)
        },
        s.phase is Ended ==> !session::step(s, event, now, t, r) && !session::expects(
            s.phase,
            event,
        ),
{
}

/// `sb_gamedir` with the words behind it. Only an idle session takes it, and only with a word.
/// It has the Steam client started for the application of the game directory, which is 70 where
/// none belongs to it. Where the client runs for that application already, the session is active
/// at once. Where it runs for another, the command is refused.
pub proof fn gamedir_activates_the_session(
    s: SessionView,
    rest: Seq<char>,
    words: Seq<Seq<char>>,
    app_id: u32,
    tail: Seq<u8>,
    event: Event,
    now: u128,
    t: SessionView,
    r: Outcome,
)
    requires
        hears(s, "sb_gamedir"@, rest, tail, event, now, t, r),
        word_laws::consists_of(command_laws::behind_name(rest), words),
        words.len() > 0 ==> command_laws::belongs(words[0], app_id) || (app_id == 70 && forall|
            other: u32,
        |
            !command_laws::belongs(words[0], other)),
    ensures
        ({
            let u = heard(s, tail);
            if s.state != State::Idle {
                t == u && r == Err::<ActionView, _>(BrokerError::Custom("session already active"))
            } else if words.len() == 0 {
                t == u && r == Err::<ActionView, _>(BrokerError::Missing("gamedir"))
            } else if s.steam is None {
                &&& t == turned_to(u, PhaseView::Starting(app_id))
                &&& r == Ok::<_, BrokerError>(ActionView::StartSteam(app_id))
            } else if s.steam->0.app_id == app_id {
                &&& t == (SessionView { state: State::Active, ..u })
                &&& r == Ok::<_, BrokerError>(ActionView::Proceed)
            } else {
                t == u && r == Err::<ActionView, _>(
                    BrokerError::Custom(
                        "broker already initialized with a different AppID; sb_terminate first",
                    ),
                )
            }
        }),
{
    if says(s, "sb_gamedir"@, rest, tail) {
        said_is_carried_out(s, "sb_gamedir"@, rest, tail, now);
    }
    command_laws::payload_is_the_command_it_names("sb_gamedir"@, rest);
    command_laws::gamedir_asks_for_the_application_it_names(
        command_laws::behind_name(rest),
        words,
    );
}

/// Once the Steam client has been started, the session is active, and the client is remembered
/// to run for that application, with no players known.
pub proof fn started_client_is_remembered(
    s: SessionView,
    event: Event,
    now: u128,
    t: SessionView,
    r: Outcome,
)
    requires
        session::step(s, event, now, t, r),
        s.phase is Starting,
    ensures
        r == Ok::<_, BrokerError>(ActionView::Proceed),
        t.state == State::Active,
        t.phase is Commands,
        t.steam is Some,
        t.steam->0.app_id == s.phase->Starting_0,
        forall|id: u64| !t.steam->0.players.contains_key(id),
        t.rx == s.rx,
        t.pending == s.pending,
{
}

/// `sb_connect` with what is said behind it. Only an active session takes it. It has the Steam
/// client asked for a ticket for just the server and the security that is asked for, and
/// remembers the server and the challenge.
pub proof fn connect_asks_for_a_ticket(
    s: SessionView,
    rest: Seq<char>,
    tail: Seq<u8>,
    event: Event,
    now: u128,
    t: SessionView,
    r: Outcome,
)
    requires
        hears(s, "sb_connect"@, rest, tail, event, now, t, r),
    ensures
        ({
            let u = heard(s, tail);
            let asked = commands::connect_args(encode_utf8(command_laws::behind_name(rest)));
            if s.state != State::Active {
                t == u && r == Err::<ActionView, _>(BrokerError::Custom("session not active"))
            } else if asked is Err {
                t == u && r == Err::<ActionView, _>(asked->Err_0)
            } else {
                let request = asked->Ok_0;
                &&& t == turned_to(
                    u,
                    (PhaseView::Connecting {
                        challenge: request.challenge,
                        serveradr: request.serveradr,
                    }),
                )
                &&& r == Ok::<_, BrokerError>(
                    ActionView::InitiateConnection {
                        server_steam_id: request.server_steam_id,
                        serveradr: request.serveradr,
                        secure: request.secure,
                    },
                )
            }
        }),
{
    if says(s, "sb_connect"@, rest, tail) {
        said_is_carried_out(s, "sb_connect"@, rest, tail, now);
    }
    command_laws::payload_is_the_command_it_names("sb_connect"@, rest);
}

/// What the Steam client answers. A refusal is an error. A ticket is held from then on, for the
/// challenge and the server that it was asked for, and is sent to the peer with the challenge
/// and the local user, unless it is too long for a frame.
pub proof fn ticket_is_held_and_sent(
    s: SessionView,
    event: Event,
    now: u128,
    t: SessionView,
    r: Outcome,
)
    requires
        session::step(s, event, now, t, r),
        s.phase is Connecting,
        event is Ticket,
    ensures
        event->Ticket_0 is None ==> t == s && r == Err::<ActionView, _>(
            BrokerError::Custom("steam refused to issue auth ticket"),
        ),
        event->Ticket_0 matches Some((ticket, user)) ==> {
            let challenge = s.phase->Connecting_challenge;
            &&& t == (SessionView {
                state: State::TicketRequested {
                    challenge,
                    serveradr: s.phase->Connecting_serveradr,
                },
                phase: PhaseView::Settling,
                ..s
            })
            &&& 27 + ticket@.len() <= 4096 ==> r == Ok::<_, BrokerError>(
                ActionView::Send(
                    protocol::frame(response::connect_payload(challenge, user, ticket@)),
                ),
            )
            &&& 27 + ticket@.len() > 4096 ==> r == Err::<ActionView, _>(
                BrokerError::Custom("response payload too large"),
            )
        },
{
    if let Some((ticket, user)) = event->Ticket_0 {
        response::connect_payload_reads_back(s.phase->Connecting_challenge, user, ticket@);
    }
}

/// `sb_disconnect` with what is said behind it. Only a session that holds a ticket takes it, and
/// only with the challenge of that ticket. It has the Steam client told about the server that is
/// named, and holds no ticket then.
pub proof fn disconnect_gives_the_ticket_back(
    s: SessionView,
    rest: Seq<char>,
    tail: Seq<u8>,
    event: Event,
    now: u128,
    t: SessionView,
    r: Outcome,
)
    requires
        hears(s, "sb_disconnect"@, rest, tail, event, now, t, r),
    ensures
        ({
            let u = heard(s, tail);
            let said = commands::disconnect_args(encode_utf8(command_laws::behind_name(rest)));
            if !(s.state is TicketRequested) {
                t == u && r == Err::<ActionView, _>(BrokerError::Custom("no ticket requested"))
            } else if said is Err {
                t == u && r == Err::<ActionView, _>(said->Err_0)
            } else if said->Ok_0.1 != s.state->challenge {
                t == u && r == Err::<ActionView, _>(BrokerError::Custom("challenge mismatch"))
            } else {
                &&& t == (SessionView { state: State::Active, phase: PhaseView::Settling, ..u })
                &&& r == Ok::<_, BrokerError>(ActionView::TerminateConnection(said->Ok_0.0))
            }
        }),
{
    if says(s, "sb_disconnect"@, rest, tail) {
        said_is_carried_out(s, "sb_disconnect"@, rest, tail, now);
    }
    command_laws::payload_is_the_command_it_names("sb_disconnect"@, rest);
}

/// `pending` and, behind it, `id`, unless it is there.
pub open spec fn with_owed(pending: Seq<u64>, id: u64) -> Seq<u64> {
    if pending.contains(id) {
        pending
    } else {
        pending.push(id)
    }
}

/// Whether `t` is `s` with a reply owed for a player who has just been requested, and whether
/// the Steam client is asked for the player's data exactly if a fetch of their avatar begins.
pub open spec fn player_is_requested(
    s: SessionView,
    id: u64,
    friend: Option<FriendInfo>,
    now: u128,
    t: SessionView,
    r: Outcome,
) -> bool {
    let kept = s.steam->0;
    let asks = steam::begins_fetch(steam::avatar_of(kept, id), now);
    &&& t.steam == Some(steam::after_request(steam::ensured(kept, id, friend), id, now))
    &&& t.pending == with_owed(s.pending, id)
    &&& t.state == s.state
    &&& t.rx == s.rx
    &&& if asks {
        t.phase is Settling && r == Ok::<_, BrokerError>(ActionView::RequestUserInformation(id))
    } else {
        t.phase is Commands && r == Ok::<_, BrokerError>(ActionView::Proceed)
    }
}

/// `sb_get_player` with what is said behind it. An idle session refuses it. Any other requests
/// a player who is tracked, and has the Steam client asked about one who is not.
pub proof fn get_player_requests_the_player(
    s: SessionView,
    rest: Seq<char>,
    tail: Seq<u8>,
    event: Event,
    now: u128,
    t: SessionView,
    r: Outcome,
)
    requires
        hears(s, "sb_get_player"@, rest, tail, event, now, t, r),
    ensures
        ({
            let u = heard(s, tail);
            let asked = commands::get_player_args(encode_utf8(command_laws::behind_name(rest)));
            if s.state == State::Idle {
                t == u && r == Err::<ActionView, _>(BrokerError::Custom("session not active"))
            } else if asked is Err {
                t == u && r == Err::<ActionView, _>(asked->Err_0)
            } else if s.steam->0.players.contains_key(asked->Ok_0) {
                player_is_requested(u, asked->Ok_0, None, now, t, r)
            } else {
                &&& t == turned_to(u, PhaseView::Capturing(asked->Ok_0))
                &&& r == Ok::<_, BrokerError>(ActionView::QueryFriend(asked->Ok_0))
            }
        }),
{
    if says(s, "sb_get_player"@, rest, tail) {
        said_is_carried_out(s, "sb_get_player"@, rest, tail, now);
    }
    command_laws::payload_is_the_command_it_names("sb_get_player"@, rest);
}

/// What the handlers of the commands do about arguments that do not say what they should, be
/// they text or not: in a state in which the command is taken, the first thing wrong is the
/// error, and nothing changes.
pub proof fn wrong_arguments_are_refused(s: SessionView, args: Seq<u8>, now: u128)
    ensures
        s.state == State::Idle ==> (commands::gamedir_args(args) matches Err(e)
            ==> session::gamedir_step(s, args) == (s, Err::<ActionView, _>(e))),
        s.state == State::Active ==> (commands::connect_args(args) matches Err(e)
            ==> session::connect_step(s, args) == (s, Err::<ActionView, _>(e))),
        s.state is TicketRequested ==> (commands::disconnect_args(args) matches Err(e)
            ==> session::disconnect_step(s, args) == (s, Err::<ActionView, _>(e))),
        s.state != State::Idle ==> (commands::get_player_args(args) matches Err(e)
            ==> session::get_player_step(s, args, now) == (s, Err::<ActionView, _>(e))),
{
}

/// What the Steam client tells about a player who was not tracked goes into the request.
pub proof fn player_told_about_is_requested(
    s: SessionView,
    event: Event,
    now: u128,
    t: SessionView,
    r: Outcome,
)
    requires
        session::step(s, event, now, t, r),
        s.phase is Capturing,
        event is Friend,
    ensures
        player_is_requested(s, s.phase->Capturing_0, Some(event->Friend_0), now, t, r),
{
}

/// Anything else that the peer says is refused, and so is a payload that is not text.
pub proof fn anything_else_is_refused(
    s: SessionView,
    name: Seq<char>,
    rest: Seq<char>,
    payload: Seq<u8>,
    tail: Seq<u8>,
    event: Event,
    now: u128,
    t: SessionView,
    r: Outcome,
)
    ensures
        hears(s, name, rest, tail, event, now, t, r) && name != "sb_gamedir"@ && name != "sb_connect"@ && name
            != "sb_disconnect"@ && name != "sb_get_player"@ && name != "sb_terminate"@ ==> t
            == heard(s, tail) && r == Err::<ActionView, _>(BrokerError::Custom("unknown command")),
        session::step(s, event, now, t, r) && s.phase is Commands && payload.len() <= 4096
            && !valid_utf8(payload) && s.rx == protocol::frame(payload) + tail ==> t == heard(s, tail) && r == Err::<
            ActionView,
            _,
        >(BrokerError::Utf8(error::utf8_error(payload))),
        !valid_utf8(payload) ==> session::command_step(s, payload, now) == (
            s,
            Err::<ActionView, _>(BrokerError::Utf8(error::utf8_error(payload))),
        ),
{
    if says(s, name, rest, tail) {
        said_is_carried_out(s, name, rest, tail, now);
    }
    if hears(s, name, rest, tail, event, now, t, r) {
        command_laws::payload_is_the_command_it_names(name, rest);
    }
    if s.phase is Commands && payload.len() <= 4096 && !valid_utf8(payload) && s.rx
        == protocol::frame(payload) + tail {
        protocol::frame_parses_back(payload, tail);
        command_laws::only_text_is_understood(payload);
        assert(s.rx.skip(protocol::frame(payload).len() as int) =~= tail);
    }
}

/// Without a whole frame a session begins a new turn. Bytes that cannot become a frame end it.
pub proof fn without_a_frame_a_turn_begins(
    s: SessionView,
    event: Event,
    now: u128,
    t: SessionView,
    r: Outcome,
)
    requires
        session::step(s, event, now, t, r),
        s.phase is Commands,
    ensures
        protocol::parsed(s.rx) is Incomplete ==> t == turned_to(s, PhaseView::Turn)
            && r == Ok::<_, BrokerError>(ActionView::Proceed),
        protocol::parsed(s.rx) is BadMagic ==> t == s && r == Err::<ActionView, _>(
            BrokerError::Custom("invalid frame magic"),
        ),
        protocol::parsed(s.rx) is TooLarge ==> t == s && r == Err::<ActionView, _>(
            BrokerError::Custom("frame too large"),
        ),
{
}

/// What a read brings. Nothing for now lets the session go on. Bytes are kept behind those that
/// wait, as long as these are 8192 together. The end of the connection ends the session: the
/// broker goes on only if the Steam client does not run, and a ticket that is held is given back
/// first.
pub proof fn read_is_taken_in(
    s: SessionView,
    event: Event,
    now: u128,
    t: SessionView,
    r: Outcome,
)
    requires
        session::sound(s),
        session::step(s, event, now, t, r),
        s.phase is Reading,
        event is Read,
    ensures
        event->Read_0 is None ==> t == turned_to(s, PhaseView::Commands) && r == Ok::<
            _,
            BrokerError,
        >(ActionView::Proceed),
        event->Read_0 matches Some(data) ==> {
            &&& data@.len() > 0 && s.rx.len() + data@.len() <= 8192 ==> t == turned_to(
                heard(s, s.rx + data@),
                PhaseView::Commands,
            ) && r == Ok::<_, BrokerError>(ActionView::Proceed)
            &&& s.rx.len() + data@.len() > 8192 ==> t == s && r == Err::<ActionView, _>(
                BrokerError::Custom("rx buffer overflow"),
            )
            &&& data@.len() == 0 && s.steam is None ==> t == turned_to(s, PhaseView::Ended) && r == Ok::<_, BrokerError>(ActionView::End(SessionResult::Continue))
            &&& data@.len() == 0 && s.steam is Some && !(s.state is TicketRequested) ==> t
                == turned_to(s, PhaseView::Ended) && r == Ok::<_, BrokerError>(
                ActionView::End(SessionResult::Terminate),
            )
            &&& data@.len() == 0 ==> (s.state matches State::TicketRequested { serveradr, .. } ==> t
                == (SessionView {
                state: State::Active,
                phase: PhaseView::Closing(SessionResult::Terminate),
                ..s
            }) && r == Ok::<_, BrokerError>(ActionView::TerminateConnection(serveradr)))
        },
{
}

/// How a turn goes. Where the Steam client runs, its callbacks are run and then the avatars that
/// are pending are looked for. What they bring is dealt with before replies are collected.
pub proof fn turn_looks_after_steam_first(
    s: SessionView,
    event: Event,
    now: u128,
    t: SessionView,
    r: Outcome,
)
    requires
        session::step(s, event, now, t, r),
    ensures
        s.phase is Turn && s.steam is Some ==> t == turned_to(s, PhaseView::Callbacks)
            && r == Ok::<_, BrokerError>(ActionView::RunCallbacks),
        s.phase is Turn && s.steam is None ==> t == turned_to(s, PhaseView::Flush)
            && r == Ok::<_, BrokerError>(ActionView::Proceed),
        s.phase is Callbacks ==> {
            &&& t == turned_to(s, PhaseView::Avatars)
            &&& r matches Ok(ActionView::FetchAvatars(ids))
            &&& ids.no_duplicates()
            &&& forall|id: u64| #[trigger]
                ids.contains(id) <==> s.steam->0.players.contains_key(id)
                    && s.steam->0.players[id].avatar is Pending
        },
        s.phase is Avatars && event is Avatars ==> t == (SessionView {
            steam: Some(steam::after_deliveries(s.steam->0, event->Avatars_0@)),
            phase: PhaseView::Flush,
            ..s
        }) && r == Ok::<_, BrokerError>(ActionView::Proceed),
        s.phase is Settling ==> t == turned_to(s, PhaseView::Commands) && r == Ok::<
            _,
            BrokerError,
        >(ActionView::Proceed),
{
}

/// The replies for those players whose snapshots are ready, in their order.
pub open spec fn replies_ready(kept: SteamView, ids: Seq<u64>, now: u128) -> Seq<Seq<u8>> {
    ids.filter(|id: u64| steam::snapshot_of(kept, id, now) is Some).map_values(
        |id: u64|
            protocol::frame(response::player_payload(steam::snapshot_of(kept, id, now)->0)),
    )
}

/// What is collected are these replies.
proof fn collected_are_the_ready(kept: SteamView, ids: Seq<u64>, now: u128)
    ensures
        session::replies(kept, ids, now) == replies_ready(kept, ids, now),
    decreases ids.len(),
{
    reveal(Seq::filter);
    if ids.len() > 0 {
        collected_are_the_ready(kept, ids.drop_last(), now);
    }
    assert(session::replies(kept, ids, now) =~= replies_ready(kept, ids, now));
}

/// How replies are collected. A reply is collected for each player whose snapshot is ready, in
/// the order in which they were asked for, and stays owed for the others. It is the frame of the
/// response for that snapshot. The avatars of those who were asked for have been looked at, and
/// nothing else changes.
pub proof fn ready_replies_are_collected(
    s: SessionView,
    event: Event,
    now: u128,
    t: SessionView,
    r: Outcome,
)
    requires
        session::step(s, event, now, t, r),
        s.phase is Flush,
    ensures
        r == Ok::<_, BrokerError>(ActionView::Proceed),
        t.rx == s.rx,
        t.state == s.state,
        s.steam is None ==> t.steam is None && t.pending == s.pending && t.phase
            == PhaseView::Sending(Seq::empty()),
        s.steam matches Some(kept) ==> {
            &&& t.phase == PhaseView::Sending(replies_ready(kept, s.pending, now))
            &&& t.pending == s.pending.filter(
                |id: u64| steam::snapshot_of(kept, id, now) is None,
            )
            &&& t.steam matches Some(after)
            &&& after.app_id == kept.app_id
            &&& forall|id: u64| #[trigger]
                after.players.contains_key(id) <==> kept.players.contains_key(id)
            &&& forall|id: u64| #[trigger]
                kept.players.contains_key(id) ==> {
                    &&& after.players[id].facts == kept.players[id].facts
                    &&& s.pending.contains(id) ==> after.players[id].avatar == avatar::looked_at(
                        kept.players[id].avatar,
                        now,
                    )
                    &&& !s.pending.contains(id) ==> after.players[id] == kept.players[id]
                }
        },
{
    if let Some(kept) = s.steam {
        collected_are_the_ready(kept, s.pending, now);
    }
}

/// The replies collected are sent, the first of them first and every one, before the session
/// reads again.
pub proof fn collected_replies_are_sent(
    s: SessionView,
    event: Event,
    now: u128,
    t: SessionView,
    r: Outcome,
)
    requires
        session::step(s, event, now, t, r),
        s.phase is Sending,
    ensures
        ({
            let frames = s.phase->Sending_0;
            &&& frames.len() > 0 ==> {
                &&& r == Ok::<_, BrokerError>(ActionView::Send(frames[0]))
                &&& t.phase matches PhaseView::Sending(left)
                &&& frames == seq![frames[0]] + left
            }
            &&& frames.len() == 0 ==> r == Ok::<_, BrokerError>(ActionView::Read)
                && t.phase is Reading
            &&& t == turned_to(s, t.phase)
        }),
{
    let frames = s.phase->Sending_0;
    if frames.len() > 0 {
        assert(frames =~= seq![frames[0]] + frames.drop_first());
    }
}

/// A new session has received nothing, is idle and owes nothing.
pub proof fn new_session_is_idle(steam: Option<SteamView>)
    ensures
        session::fresh(steam).rx.len() == 0,
        session::fresh(steam).state == State::Idle,
        session::fresh(steam).steam == steam,
        session::fresh(steam).pending.len() == 0,
        session::fresh(steam).phase is Turn,
{
}

/// What is kept for the Steam client is seen as it is, and so are the replies collected.
pub proof fn parts_are_seen_as_they_are(kept: Option<SteamService>, frames: Seq<Vec<u8>>)
    ensures
        kept is None <==> session::opt_steam(kept) is None,
        kept matches Some(service) ==> session::opt_steam(kept) == Some(service@),
        session::all_bytes(frames).len() == frames.len(),
        forall|i: int|
            0 <= i < frames.len() ==> #[trigger] session::all_bytes(frames)[i] == frames[i]@,
{
}

/// Actions are seen as they are, and each has its answer.
pub proof fn actions_are_seen_as_they_are(action: Action, event: Event)
    ensures
        action is Proceed <==> action@ is Proceed,
        action is RunCallbacks <==> action@ is RunCallbacks,
        action matches Action::FetchAvatars(ids) ==> action@ == ActionView::FetchAvatars(ids@),
        action matches Action::QueryFriend(id) ==> action@ == ActionView::QueryFriend(id),
        action matches Action::RequestUserInformation(id) ==> action@
            == ActionView::RequestUserInformation(id),
        action matches Action::Send(frame) ==> action@ == ActionView::Send(frame@),
        action is Read <==> action@ is Read,
        action matches Action::StartSteam(app_id) ==> action@ == ActionView::StartSteam(app_id),
        action matches Action::InitiateConnection { server_steam_id, serveradr, secure } ==> action@
            == (ActionView::InitiateConnection { server_steam_id, serveradr, secure }),
        action matches Action::TerminateConnection(serveradr) ==> action@
            == ActionView::TerminateConnection(serveradr),
        action matches Action::End(result) ==> action@ == ActionView::End(result),
        session::answers(event, action@) ==> {
            &&& action is FetchAvatars <==> event is Avatars
            &&& action is QueryFriend <==> event is Friend
            &&& action is Read <==> event is Read
            &&& action is InitiateConnection <==> event is Ticket
            &&& !(action is End)
        },
{
}

} // verus!
