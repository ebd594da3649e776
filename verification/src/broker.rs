//! The broker between connections: it serves one at a time and stops when the Steam client
//! has to be started afresh.
//!
//! [`Broker::run`] takes one step, as [`Session::run`] does.

use crate::error::BrokerError;
use crate::session::{self, ActionView, Event, Outcome, Session, SessionResult, SessionView, State};
use crate::session_laws;
use crate::session_runs::{self, Step};
use crate::steam::{SteamService, SteamView};
use vstd::prelude::*;

verus! {

/// The broker between connections.
pub struct Broker {
    steam: Option<SteamService>,
}

impl View for Broker {
    type V = Option<SteamView>;

    closed spec fn view(&self) -> Option<SteamView> {
        session::opt_steam(self.steam)
    }
}

/// How a connection has ended.
#[derive(Clone, Copy, Debug, PartialEq, Eq, Structural)]
pub enum Ending {
    /// The session came to its end.
    Finished(SessionResult),
    /// An error cut the session short.
    Failed,
}

/// What has happened outside.
pub enum BrokerEvent {
    /// The broker has been started.
    Started,
    /// The callbacks of the Steam client have been run.
    CallbacksRun,
    /// No connection is waiting to be accepted.
    NoConnection,
    /// A connection has been accepted.
    Accepted,
    /// A connection has ended, in the state that its session was left in.
    Ended(Session, Ending),
}

/// What is to be done outside.
pub enum BrokerAction {
    /// Run the callbacks of the Steam client.
    RunCallbacks,
    /// Look for a connection to accept.
    Accept,
    /// Serve the connection accepted.
    Serve(Session),
    /// Exit for a restart.
    Exit,
}

/// Whether `action` begins a new round, which looks for a connection: the callbacks of the
/// Steam client are run first, if there is one.
pub open spec fn begins_round(steam: Option<SteamView>, action: BrokerAction) -> bool {
    if steam is Some {
        action is RunCallbacks
    } else {
        action is Accept
    }
}

/// Whether the broker has to stop after a connection that has ended so.
pub open spec fn stops_after(steam: Option<SteamView>, ending: Ending) -> bool {
    match ending {
        Ending::Finished(SessionResult::Continue) => false,
        Ending::Finished(SessionResult::Terminate) => true,
        Ending::Failed => steam is Some,
    }
}

/// One step of a broker: from what it holds in `before`, on `event`, to what it holds in
/// `after`, with `action` to be done outside.
pub open spec fn broker_step(
    before: Option<SteamView>,
    event: BrokerEvent,
    after: Option<SteamView>,
    action: BrokerAction,
) -> bool {
    match event {
        BrokerEvent::Started => begins_round(before, action) && after == before,
        BrokerEvent::NoConnection => begins_round(before, action) && after == before,
        BrokerEvent::CallbacksRun => action is Accept && after == before,
        // What the broker holds goes to the session for as long as that lasts.
        BrokerEvent::Accepted => {
            &&& action matches BrokerAction::Serve(session)
            &&& session.wf()
            &&& session@ == session::fresh(before)
            &&& after is None
        },
        BrokerEvent::Ended(session, ending) => {
            &&& after == session@.steam
            &&& if stops_after(session@.steam, ending) {
                action is Exit
            } else {
                begins_round(session@.steam, action)
            }
        },
    }
}

/// What the broker decides. It serves on top of what it holds, and then holds nothing. It exits
/// after a session that terminates it, and after one that failed once the Steam client runs.
/// After any other, and whenever there is no connection, it looks for the next one, and has the
/// callbacks of the Steam client run first if that runs.
pub proof fn broker_decides(
    before: Option<SteamView>,
    event: BrokerEvent,
    after: Option<SteamView>,
    action: BrokerAction,
)
    requires
        broker_step(before, event, after, action),
    ensures
        event is Started || event is NoConnection ==> {
            &&& after == before
            &&& before is Some ==> action is RunCallbacks
            &&& before is None ==> action is Accept
        },
        event is CallbacksRun ==> action is Accept && after == before,
        event is Accepted ==> {
            &&& action matches BrokerAction::Serve(session)
            &&& session@.rx.len() == 0
            &&& session@.state == State::Idle
            &&& session@.steam == before
            &&& session@.pending.len() == 0
            &&& session@.phase is Turn
            &&& after is None
        },
        event matches BrokerEvent::Ended(session, ending) ==> {
            &&& after == session@.steam
            &&& ending == Ending::Finished(SessionResult::Terminate) ==> action is Exit
            &&& ending is Failed && session@.steam is Some ==> action is Exit
            &&& ending is Failed && session@.steam is None ==> action is Accept
            &&& ending == Ending::Finished(SessionResult::Continue) ==> if session@.steam is Some {
                action is RunCallbacks
            } else {
                action is Accept
            }
        },
{
}

/// In whatever way a session with a running Steam client is over, the broker stops.
pub proof fn stops_once_steam_runs(
    s: SessionView,
    event: Event,
    now: u128,
    t: SessionView,
    r: Outcome,
)
    requires
        session::sound(s),
        session::step(s, event, now, t, r),
        t.steam is Some,
    ensures
        r matches Ok(ActionView::End(result)) ==> stops_after(t.steam, Ending::Finished(result)),
        r is Err ==> stops_after(t.steam, Ending::Failed),
{
    if let Ok(ActionView::End(result)) = r {
        session_laws::broker_goes_on_only_without_steam(s, event, now, t, result);
    }
}

/// Whether a session can have come to its end in `s`, with this result.
pub open spec fn can_finish(s: SessionView, result: SessionResult) -> bool {
    exists|steam: Option<SteamView>, run: Seq<Step>|
        #![trigger session_runs::is_run(session::fresh(steam), run)]
        {
            &&& session_runs::is_run(session::fresh(steam), run)
            &&& run.len() > 0
            &&& run.last().after == s
            &&& run.last().outcome == Ok::<_, BrokerError>(ActionView::End(result))
        }
}

/// Whether `event` tells truly how a session has ended. An error can cut one short at any time.
pub open spec fn is_true(event: BrokerEvent) -> bool {
    event matches BrokerEvent::Ended(session, Ending::Finished(result)) ==> can_finish(
        session@,
        result,
    )
}

/// One step of a broker: the event that it was taken on, what the broker holds behind it and
/// what is to be done outside.
pub struct BrokerStep {
    pub event: BrokerEvent,
    pub after: Option<SteamView>,
    pub action: BrokerAction,
}

/// What a new broker holds behind the steps of `run`.
pub open spec fn held_after(run: Seq<BrokerStep>) -> Option<SteamView> {
    if run.len() == 0 {
        None
    } else {
        run.last().after
    }
}

/// Whether `run` is a run of a new broker: each step is taken on a true event, and none after
/// the broker was to exit.
pub open spec fn is_broker_run(run: Seq<BrokerStep>) -> bool
    decreases run.len(),
{
    run.len() == 0 || {
        let before = run.drop_last();
        let last = run.last();
        &&& is_broker_run(before)
        &&& before.len() > 0 ==> !(before.last().action is Exit)
        &&& is_true(last.event)
        &&& broker_step(held_after(before), last.event, last.after, last.action)
    }
}

/// Where the broker does not exit after a session, it holds nothing for the Steam client.
pub proof fn goes_on_without_steam(
    before: Option<SteamView>,
    event: BrokerEvent,
    after: Option<SteamView>,
    action: BrokerAction,
)
    requires
        event is Ended,
        is_true(event),
        broker_step(before, event, after, action),
    ensures
        !(action is Exit) ==> after is None,
{
    if let BrokerEvent::Ended(session, Ending::Finished(result)) = event {
        let (steam, run) = choose|steam: Option<SteamView>, run: Seq<Step>|
            #![trigger session_runs::is_run(session::fresh(steam), run)]
            {
                &&& session_runs::is_run(session::fresh(steam), run)
                &&& run.len() > 0
                &&& run.last().after == session@
                &&& run.last().outcome == Ok::<_, BrokerError>(ActionView::End(result))
            };
        let earlier = run.drop_last();
        let last = run.last();
        session_runs::run_stays_sound(session::fresh(steam), earlier);
        session_laws::broker_goes_on_only_without_steam(
            session_runs::reached(session::fresh(steam), earlier),
            last.event,
            last.now,
            session@,
            result,
        );
    }
}

/// No connection is ever served on top of what another one has left with the Steam client:
/// every session that a broker serves starts afresh and without one. Once a session ends with
/// the Steam client running, the broker exits, and no further connection is accepted.
pub proof fn every_session_starts_without_steam(run: Seq<BrokerStep>, i: int)
    requires
        is_broker_run(run),
        0 <= i < run.len(),
    ensures
        run[i].event is Accepted ==> {
            &&& run[i].action matches BrokerAction::Serve(session)
            &&& session.wf()
            &&& session@ == session::fresh(None)
        },
        run[i].event matches BrokerEvent::Ended(session, _) && session@.steam is Some
            ==> run[i].action is Exit,
        run[i].action is Exit ==> i == run.len() - 1,
        !(run[i].action is Exit) ==> run[i].after is None,
    decreases run.len(),
{
    let before = run.drop_last();
    let last = run.last();
    if i < before.len() {
        every_session_starts_without_steam(before, i);
    } else {
        if before.len() > 0 {
            every_session_starts_without_steam(before, before.len() - 1);
        }
        if last.event is Ended {
            goes_on_without_steam(held_after(before), last.event, last.after, last.action);
        }
    }
}

impl Broker {
    /// A broker that has not served anyone yet.
    pub fn new() -> (r: Self)
        ensures
            r@ is None,
    {
        Broker { steam: None }
    }

    /// Takes one step.
    pub fn run(&mut self, event: BrokerEvent) -> (r: BrokerAction)
        ensures
            broker_step(old(self)@, event, final(self)@, r),
    {
        match event {
            BrokerEvent::CallbacksRun => BrokerAction::Accept,
            BrokerEvent::Accepted => BrokerAction::Serve(Session::new(self.steam.take())),
            BrokerEvent::Ended(session, ending) => {
                self.steam = session.into_steam();
                let stop = match ending {
                    Ending::Finished(SessionResult::Continue) => false,
                    Ending::Finished(SessionResult::Terminate) => true,
                    Ending::Failed => self.steam.is_some(),
                };
                if stop {
                    BrokerAction::Exit
                } else {
                    self.next_round()
                }
            },
            _ => self.next_round(),
        }
    }

    /// Begins a new round.
    fn next_round(&self) -> (r: BrokerAction)
        ensures
            begins_round(self@, r),
    {
        if self.steam.is_some() {
            BrokerAction::RunCallbacks
        } else {
            BrokerAction::Accept
        }
    }
}

} // verus!
