//! What holds of a session from its first step to its last, however the bytes of its peer
//! arrive.

use crate::protocol::{self, Parsed, MAX_PAYLOAD_SIZE};
use crate::session::{self, Event, Outcome, SessionView, State};
use crate::session_laws;
use vstd::prelude::*;

verus! {

/// One step of a session: the event and the time that it was taken on, where it led and what
/// it came to.
pub struct Step {
    pub event: Event,
    pub now: u128,
    pub after: SessionView,
    pub outcome: Outcome,
}

/// Where the steps of `run` lead from `start`.
pub open spec fn reached(start: SessionView, run: Seq<Step>) -> SessionView {
    if run.len() == 0 {
        start
    } else {
        run.last().after
    }
}

/// Whether `run` is a run of a session from `start` on: each step is taken on an event that is
/// waited for, and none after an error.
pub open spec fn is_run(start: SessionView, run: Seq<Step>) -> bool
    decreases run.len(),
{
    run.len() == 0 || {
        let before = run.drop_last();
        let s = reached(start, before);
        let last = run.last();
        &&& is_run(start, before)
        &&& before.len() > 0 ==> before.last().outcome is Ok
        &&& session::expects(s.phase, last.event)
        &&& session::step(s, last.event, last.now, last.after, last.outcome)
    }
}

/// The bytes that an event brings.
pub open spec fn bytes_read(event: Event) -> Seq<u8> {
    match event {
        Event::Read(Some(data)) => data@,
        _ => Seq::empty(),
    }
}

/// All the bytes that a run brings.
pub open spec fn received(run: Seq<Step>) -> Seq<u8>
    decreases run.len(),
{
    if run.len() == 0 {
        Seq::empty()
    } else {
        received(run.drop_last()) + bytes_read(run.last().event)
    }
}

/// The payload that the next step of a session carries out as a command, if it does.
pub open spec fn next_command(s: SessionView) -> Seq<Seq<u8>> {
    match protocol::parsed(s.rx) {
        Parsed::Frame { payload, .. } => if s.phase is Commands {
            seq![payload]
        } else {
            Seq::empty()
        },
        _ => Seq::empty(),
    }
}

/// The payloads that a run carries out as commands, in their order.
pub open spec fn carried_out(start: SessionView, run: Seq<Step>) -> Seq<Seq<u8>>
    decreases run.len(),
{
    if run.len() == 0 {
        Seq::empty()
    } else {
        carried_out(start, run.drop_last()) + next_command(reached(start, run.drop_last()))
    }
}

/// Whether a run ends with a read that overflows the buffer.
pub open spec fn overflows(start: SessionView, run: Seq<Step>) -> bool {
    &&& run.len() > 0
    &&& reached(start, run.drop_last()).phase is Reading
    &&& run.last().outcome is Err
}

/// Whether no further command can be carried out behind `run`: it has come upon an error, or
/// the session is at its end or about to be.
pub open spec fn is_over(start: SessionView, run: Seq<Step>) -> bool {
    ||| run.len() > 0 && run.last().outcome is Err
    ||| reached(start, run).phase is Closing
    ||| reached(start, run).phase is Ended
}

/// A session stays sound for as long as it runs.
pub proof fn run_stays_sound(start: SessionView, run: Seq<Step>)
    requires
        session::sound(start),
        is_run(start, run),
    ensures
        session::sound(reached(start, run)),
    decreases run.len(),
{
    if run.len() > 0 {
        let before = run.drop_last();
        let last = run.last();
        run_stays_sound(start, before);
        session_laws::step_keeps_sound(
            reached(start, before),
            last.event,
            last.now,
            last.after,
            last.outcome,
        );
    }
}

/// However long a session runs, it never becomes idle again, and its Steam client runs for as
/// long as it is not idle.
pub proof fn run_never_goes_back(start: SessionView, run: Seq<Step>)
    requires
        session::sound(start),
        is_run(start, run),
    ensures
        start.state != State::Idle ==> reached(start, run).state != State::Idle,
        reached(start, run).state != State::Idle ==> reached(start, run).steam is Some,
    decreases run.len(),
{
    run_stays_sound(start, run);
    if run.len() > 0 {
        let before = run.drop_last();
        let last = run.last();
        let s = reached(start, before);
        run_never_goes_back(start, before);
        run_stays_sound(start, before);
        if s.state != State::Idle {
            session_laws::session_never_goes_back(
                s,
                last.event,
                last.now,
                last.after,
                last.outcome,
            );
        }
    }
}

/// Nothing that the peer sends is lost, added or taken out of turn: the bytes received are the
/// frames of the commands carried out and, behind them, the bytes that still wait.
pub proof fn received_is_carried_out_and_waiting(start: SessionView, run: Seq<Step>)
    requires
        start.rx.len() == 0,
        is_run(start, run),
        !overflows(start, run),
    ensures
        protocol::stream(carried_out(start, run)) + reached(start, run).rx == received(run),
        forall|i: int|
            0 <= i < carried_out(start, run).len() ==> (#[trigger] carried_out(start, run)[i]).len()
                <= MAX_PAYLOAD_SIZE,
    decreases run.len(),
{
    let done = carried_out(start, run);
    if run.len() == 0 {
        assert(protocol::stream(done) + start.rx =~= received(run));
    } else {
        let before = run.drop_last();
        let last = run.last();
        let s = reached(start, before);
        let t = last.after;
        let some = carried_out(start, before);
        received_is_carried_out_and_waiting(start, before);
        if s.phase is Commands {
            protocol::parsed_frame_is_a_frame(s.rx);
            session_laws::command_uses_up_its_frame(s, last.event, last.now, t, last.outcome);
            assert(received(run) =~= received(before));
            if let Parsed::Frame { payload, .. } = protocol::parsed(s.rx) {
                assert(done =~= some.push(payload));
                protocol::stream_grows(some, payload);
                assert(protocol::stream(done) + t.rx =~= protocol::stream(some) + (protocol::frame(
                    payload,
                ) + t.rx));
            } else {
                assert(done =~= some);
            }
        } else {
            assert(done =~= some);
            assert(t.rx =~= s.rx + bytes_read(last.event));
            assert(protocol::stream(done) + t.rx =~= (protocol::stream(some) + s.rx) + bytes_read(
                last.event,
            ));
        }
    }
}

/// What waits of a stream of frames without a whole one is shorter than the longest of them.
proof fn waiting_is_short(waiting: Seq<u8>, rest: Seq<u8>, sent: Seq<Seq<u8>>, most: nat)
    requires
        forall|i: int| 0 <= i < sent.len() ==> (#[trigger] sent[i]).len() <= most,
        most <= MAX_PAYLOAD_SIZE,
        waiting + rest == protocol::stream(sent),
        protocol::parsed(waiting) is Incomplete,
    ensures
        waiting.len() < 6 + most,
{
    assert(waiting.len() <= protocol::stream(sent).len());
    if sent.len() > 0 {
        let first = protocol::frame(sent[0]);
        let all = protocol::stream(sent);
        crate::bytes::le_bytes_len(sent[0].len(), 2);
        if waiting.len() >= first.len() {
            let tail = waiting.skip(first.len() as int);
            assert(waiting.take(first.len() as int) =~= all.take(first.len() as int));
            assert(all.take(first.len() as int) =~= first);
            assert(waiting =~= first + tail);
            protocol::frame_parses_back(sent[0], tail);
        }
    }
}

/// How reads cut the bytes of a peer does not matter. Where the peer sends frames of up to
/// 4091 bytes of payload and each read brings up to 4096 bytes, no read ever overflows the
/// buffer, and the commands carried out are the first of those sent, in their order, each once.
/// Whenever the session reads, it has carried out every command that has arrived whole.
pub proof fn commands_do_not_depend_on_the_cuts(
    start: SessionView,
    run: Seq<Step>,
    sent: Seq<Seq<u8>>,
    rest: Seq<u8>,
)
    requires
        session::sound(start),
        start.rx.len() == 0,
        is_run(start, run),
        forall|i: int| 0 <= i < sent.len() ==> (#[trigger] sent[i]).len() <= 4091,
        forall|i: int| 0 <= i < run.len() ==> bytes_read((#[trigger] run[i]).event).len() <= 4096,
        received(run) + rest == protocol::stream(sent),
    ensures
        ({
            let done = carried_out(start, run);
            &&& !overflows(start, run)
            &&& done.len() <= sent.len()
            &&& done == sent.take(done.len() as int)
            &&& reached(start, run).phase is Reading ==> done == protocol::payloads(received(run))
            &&& reached(start, run).phase is Reading && rest.len() == 0 ==> done == sent
        }),
{
    let done = carried_out(start, run);
    let t = reached(start, run);
    if run.len() > 0 {
        let before = run.drop_last();
        let last = run.last();
        let s = reached(start, before);
        let some = carried_out(start, before);
        let ahead = bytes_read(last.event) + rest;
        if s.phase is Reading {
            run_stays_sound(start, before);
            received_is_carried_out_and_waiting(start, before);
            assert(protocol::stream(some) + (s.rx + ahead) =~= received(run) + rest);
            protocol::front_is_what_was_sent(some, s.rx + ahead, sent);
            waiting_is_short(s.rx, ahead, sent.skip(some.len() as int), 4091);
            assert(bytes_read(run[run.len() - 1].event).len() <= 4096);
        }
    }
    run_stays_sound(start, run);
    received_is_carried_out_and_waiting(start, run);
    assert(protocol::stream(done) + (t.rx + rest) =~= received(run) + rest);
    protocol::front_is_what_was_sent(done, t.rx + rest, sent);
    if t.phase is Reading {
        protocol::stream_reads_back(done, t.rx);
        assert(done + protocol::payloads(t.rx) =~= done);
        if rest.len() == 0 {
            assert(received(run) =~= protocol::stream(sent) + Seq::empty());
            protocol::stream_reads_back(sent, Seq::empty());
            assert(sent + protocol::payloads(Seq::empty()) =~= sent);
        }
    }
}

/// No command is carried out behind one that has been refused or has ended the session.
pub proof fn nothing_is_carried_out_once_over(
    start: SessionView,
    run: Seq<Step>,
    more: Seq<Step>,
)
    requires
        is_run(start, run + more),
        is_over(start, run),
    ensures
        is_over(start, run + more),
        carried_out(start, run + more) == carried_out(start, run),
    decreases more.len(),
{
    let whole = run + more;
    if more.len() == 0 {
        assert(whole =~= run);
    } else {
        let before = whole.drop_last();
        assert(before =~= run + more.drop_last());
        nothing_is_carried_out_once_over(start, run, more.drop_last());
        assert(carried_out(start, whole) =~= carried_out(start, before));
    }
}

} // verus!
