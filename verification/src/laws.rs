//! What holds of the capture loop as a whole, over every run of answers.
use crate::hertz::Hertz;
use crate::iq::IqPacketView;
use crate::model::{
    abandoned, accepts, initial, inv, next, request, Device, Dwell, EventView, Outcome, Phase,
    RequestView, ScanState, MAX_CONSECUTIVE_STREAM_FAILURES, MAX_CONSECUTIVE_SWEEP_FAILURES,
    STREAM_FAILURE_BACKOFF_MS,
};
use crate::rate::usable_rate;
use crate::source::HackRfSource;
use vstd::arithmetic::div_mod::*;
use vstd::prelude::*;

verus! {

/// The state after a run of events.
pub open spec fn run(s: ScanState, events: Seq<EventView>) -> ScanState
    decreases events.len(),
{
    if events.len() == 0 {
        s
    } else {
        next(run(s, events.drop_last()), events.last())
    }
}

/// Whether each event of a run answers what the loop asks for when it comes.
pub open spec fn answers(s: ScanState, events: Seq<EventView>) -> bool
    decreases events.len(),
{
    events.len() == 0 || (answers(s, events.drop_last()) && accepts(
        run(s, events.drop_last()).phase,
        events.last(),
    ))
}

/// How many events of a run come in a state with which `pred` holds of them.
pub open spec fn count(
    s: ScanState,
    events: Seq<EventView>,
    pred: spec_fn(ScanState, EventView) -> bool,
) -> nat
    decreases events.len(),
{
    if events.len() == 0 {
        0
    } else {
        count(s, events.drop_last(), pred) + if pred(run(s, events.drop_last()), events.last()) {
            1nat
        } else {
            0
        }
    }
}

/// Whether every event of a run satisfies `pred`.
pub open spec fn all(events: Seq<EventView>, pred: spec_fn(EventView) -> bool) -> bool {
    forall|i: int| 0 <= i < events.len() ==> #[trigger] pred(events[i])
}

/// Whether `pred` holds of every event of a run and the state in which it comes.
pub open spec fn all_in(
    s: ScanState,
    events: Seq<EventView>,
    pred: spec_fn(ScanState, EventView) -> bool,
) -> bool
    decreases events.len(),
{
    events.len() == 0 || (all_in(s, events.drop_last(), pred) && pred(
        run(s, events.drop_last()),
        events.last(),
    ))
}

proof fn lemma_all_drop_last(events: Seq<EventView>, pred: spec_fn(EventView) -> bool)
    requires
        all(events, pred),
        events.len() > 0,
    ensures
        all(events.drop_last(), pred),
        pred(events.last()),
{
    assert forall|i: int| 0 <= i < events.drop_last().len() implies #[trigger] pred(
        events.drop_last()[i],
    ) by {
        assert(events.drop_last()[i] == events[i]);
    }
}

/// Every answer to what a state asks for leads to a state that is in order again.
pub proof fn law_invariant_is_kept(s: ScanState, event: EventView)
    requires
        inv(s),
        accepts(s.phase, event),
    ensures
        inv(next(s, event)),
{
}

/// Every state of every run is in order.
pub proof fn law_every_state_is_in_order(s: ScanState, events: Seq<EventView>)
    requires
        inv(s),
        answers(s, events),
    ensures
        inv(run(s, events)),
    decreases events.len(),
{
    if events.len() > 0 {
        law_every_state_is_in_order(s, events.drop_last());
        law_invariant_is_kept(run(s, events.drop_last()), events.last());
    }
}

/// A run keeps what the loop was given: the gains, the channels and the rate.
pub proof fn law_the_plan_is_fixed(s: ScanState, events: Seq<EventView>)
    ensures
        run(s, events).source == s.source,
        run(s, events).channels == s.channels,
        run(s, events).sample_rate == s.sample_rate,
    decreases events.len(),
{
    if events.len() > 0 {
        law_the_plan_is_fixed(s, events.drop_last());
    }
}

/// A loop that has ended takes no further event, and one that has not ended
/// always takes one.
pub proof fn law_only_the_end_is_the_end(s: ScanState, event: EventView)
    ensures
        s.phase is Finished ==> !accepts(s.phase, event),
        !(s.phase is Finished) ==> exists|answer: EventView| accepts(s.phase, answer),
{
    if !(s.phase is Finished) {
        let answer = match s.phase {
            Phase::PassStart | Phase::DwellPoll(_) => EventView::StopPolled(true),
            Phase::StreamPause
            | Phase::SweepPause
            | Phase::ReopenPause
            | Phase::RecoverPause => EventView::Paused,
            Phase::Reopen | Phase::Recover => EventView::Opened(true),
            Phase::ReopenSetting(_) | Phase::RecoverSetting(_) => EventView::Applied(true),
            Phase::ChooseFrequency | Phase::DwellOverride(_) => EventView::OverrideRead(None),
            Phase::Tuning(_) => EventView::Tuned(true),
            Phase::EnteringRx(_) => EventView::EnteredRx(true),
            Phase::DwellStart(_) => EventView::DwellStarted,
            Phase::DwellDeadline(_) => EventView::DeadlineChecked {
                elapsed_ns: 0,
                deadline_ns: 0,
            },
            Phase::Reading(_) => EventView::ReadFailed,
            Phase::Delivering(_) => EventView::Delivered(true),
            Phase::ReportCheck(_) => EventView::ReportChecked(0),
            Phase::Reporting(_) => EventView::Reported,
            _ => EventView::RxStopped(true),
        };
        assert(accepts(s.phase, answer));
    }
}

/// The mode in which the device has to be for a request.
pub open spec fn legal(device: Device, request: RequestView) -> bool {
    match request {
        RequestView::OpenDevice => device is Absent,
        RequestView::Apply(_) | RequestView::Tune(_) | RequestView::EnterRx => device is Idle,
        RequestView::Read | RequestView::StopRx => device is Receiving,
        _ => true,
    }
}

/// The device is only asked for what its mode allows: it is opened only when there
/// is none, set and tuned only out of receive mode, and read only in it. A retune
/// therefore always goes through leaving receive mode and entering it again.
pub proof fn law_requests_fit_the_device(s: ScanState, event: EventView)
    requires
        inv(s),
        accepts(s.phase, event),
    ensures
        legal(next(s, event).device, request(next(s, event), event)),
{
}

/// The count of read failures goes back only when a packet is delivered; tuning
/// and entering receive mode leave it as it is.
pub proof fn law_only_delivery_clears_stream_failures(s: ScanState, event: EventView)
    requires
        inv(s),
        accepts(s.phase, event),
    ensures
        next(s, event).stream_failures < s.stream_failures ==> event == EventView::Delivered(true),
        event == EventView::Delivered(true) ==> next(s, event).stream_failures == 0,
        event == EventView::ReadFailed ==> next(s, event).stream_failures == s.stream_failures + 1,
        event != EventView::Delivered(true) && event != EventView::ReadFailed ==> next(
            s,
            event,
        ).stream_failures == s.stream_failures,
{
}

/// Whether an event is a read failure.
pub open spec fn read_failure() -> spec_fn(ScanState, EventView) -> bool {
    |s: ScanState, event: EventView| event is ReadFailed
}

/// Whether an event is anything but a packet delivered.
pub open spec fn nothing_delivered() -> spec_fn(EventView) -> bool {
    |event: EventView| event != EventView::Delivered(true)
}

/// While no packet is delivered, every read failure counts: a run without a delivery
/// has at most as many read failures as are left to the limit, and once the limit is
/// reached, the next time that the loop reads the stop flag is the last.
pub proof fn law_a_device_that_never_streams_is_abandoned(s: ScanState, events: Seq<EventView>)
    requires
        inv(s),
        answers(s, events),
        all(events, nothing_delivered()),
    ensures
        run(s, events).stream_failures == s.stream_failures + count(s, events, read_failure()),
        s.stream_failures + count(s, events, read_failure()) <= MAX_CONSECUTIVE_STREAM_FAILURES,
        s.stream_failures + count(s, events, read_failure()) == MAX_CONSECUTIVE_STREAM_FAILURES
            ==> {
            let last = run(s, events);
            ||| last.phase is Stopping
            ||| last.phase is Finished
            ||| last.phase is PassStart && next(last, EventView::StopPolled(false)).phase
                == Phase::Finished(Outcome::StreamFailures(MAX_CONSECUTIVE_STREAM_FAILURES))
        },
    decreases events.len(),
{
    law_every_state_is_in_order(s, events);
    if events.len() > 0 {
        lemma_all_drop_last(events, nothing_delivered());
        law_a_device_that_never_streams_is_abandoned(s, events.drop_last());
        law_every_state_is_in_order(s, events.drop_last());
        law_only_delivery_clears_stream_failures(run(s, events.drop_last()), events.last());
    }
}

/// A pass after a read failure asks for nothing of the device before it has either
/// ended the loop or paused.
pub proof fn law_retries_are_paced(s: ScanState)
    requires
        inv(s),
        s.phase is PassStart,
        s.stream_failures > 0,
    ensures
        ({
            let event = EventView::StopPolled(false);
            ||| request(next(s, event), event) == RequestView::Pause(STREAM_FAILURE_BACKOFF_MS)
            ||| next(s, event).phase == Phase::Finished(
                Outcome::StreamFailures(MAX_CONSECUTIVE_STREAM_FAILURES),
            )
        }),
{
}

/// Passes in a row that failed before receive mode, by the loop's two counts.
pub open spec fn failed_passes(s: ScanState) -> int {
    let swept = s.phase is SweepPause || s.phase matches Phase::Finished(
        Outcome::SweepFailures(_),
    );
    s.sweep_failures * s.channels.len() + if swept {
        0
    } else {
        s.failures
    }
}

/// Whether an event is the one by which a pass fails before receive mode: no device
/// could be had, it was not tuned, or it did not enter receive mode.
pub open spec fn pass_failure() -> spec_fn(ScanState, EventView) -> bool {
    |s: ScanState, event: EventView|
        {
            ||| s.phase is ReopenPause && event is Paused
            ||| event == EventView::Tuned(false)
            ||| event == EventView::EnteredRx(false)
        }
}

/// A failed pass adds one to the count of failed passes, entering receive mode
/// clears it, and nothing else changes it.
pub proof fn law_failed_passes_are_counted(s: ScanState, event: EventView)
    requires
        inv(s),
        accepts(s.phase, event),
    ensures
        pass_failure()(s, event) ==> failed_passes(next(s, event)) == failed_passes(s) + 1,
        event == EventView::EnteredRx(true) ==> failed_passes(next(s, event)) == 0,
        !pass_failure()(s, event) && event != EventView::EnteredRx(true) ==> failed_passes(
            next(s, event),
        ) == failed_passes(s),
{
    let n = s.channels.len() as int;
    assert((s.sweep_failures + 1) * n == s.sweep_failures * n + n) by (nonlinear_arith);
}

/// Whether an event is anything but entering receive mode.
pub open spec fn never_entered_rx() -> spec_fn(EventView) -> bool {
    |event: EventView| event != EventView::EnteredRx(true)
}

/// Whether an event ends a pause for a failed sweep.
pub open spec fn sweep_pause() -> spec_fn(ScanState, EventView) -> bool {
    |s: ScanState, event: EventView| s.phase is SweepPause
}

/// The pauses for failed sweeps that the loop has made since it last entered receive
/// mode: one for each failed sweep, but for one that is pending or never comes.
pub open spec fn sweep_pauses(s: ScanState) -> int {
    let pending = s.phase is SweepPause || s.phase matches Phase::Finished(
        Outcome::SweepFailures(_),
    );
    s.sweep_failures - if pending {
        1int
    } else {
        0
    }
}

/// A device that never enters receive mode is given up after exactly ten sweeps: no
/// run has more failed passes than ten times the number of channels, the loop ends
/// for failed sweeps only with that many and after a pause for each sweep but the
/// last, and with that many it ends the next time that it reads the stop flag at the
/// start of a pass or, where a read failure is pending, after the pause that follows.
/// Read failures from before neither end such a run nor change in it.
pub proof fn law_a_device_that_never_tunes_is_abandoned(s: ScanState, events: Seq<EventView>)
    requires
        inv(s),
        s.phase is PassStart,
        s.failures == 0,
        s.sweep_failures == 0,
        s.stream_failures < MAX_CONSECUTIVE_STREAM_FAILURES,
        answers(s, events),
        all(events, never_entered_rx()),
    ensures
        count(s, events, pass_failure()) == failed_passes(run(s, events)),
        count(s, events, pass_failure()) <= MAX_CONSECUTIVE_SWEEP_FAILURES * s.channels.len(),
        run(s, events).phase matches Phase::Finished(Outcome::SweepFailures(n)) ==> n
            == MAX_CONSECUTIVE_SWEEP_FAILURES && count(s, events, pass_failure())
            == MAX_CONSECUTIVE_SWEEP_FAILURES * s.channels.len() && count(s, events, sweep_pause())
            == MAX_CONSECUTIVE_SWEEP_FAILURES - 1,
        count(s, events, pass_failure()) == MAX_CONSECUTIVE_SWEEP_FAILURES * s.channels.len() ==> {
            let last = run(s, events);
            let polled = next(last, EventView::StopPolled(false));
            let given_up = Phase::Finished(Outcome::SweepFailures(MAX_CONSECUTIVE_SWEEP_FAILURES));
            &&& last.phase is PassStart && s.stream_failures == 0 ==> polled.phase == given_up
            &&& last.phase is PassStart && s.stream_failures > 0 ==> polled.phase is StreamPause
                && next(polled, EventView::Paused).phase == given_up
            &&& last.phase is StreamPause ==> next(last, EventView::Paused).phase == given_up
        },
        run(s, events).phase matches Phase::Finished(outcome) ==> outcome is Stopped
            || outcome is SweepFailures,
        run(s, events).stream_failures == s.stream_failures,
        !(run(s, events).device is Receiving),
        count(s, events, sweep_pause()) == sweep_pauses(run(s, events)),
    decreases events.len(),
{
    if events.len() > 0 {
        let earlier = events.drop_last();
        lemma_all_drop_last(events, never_entered_rx());
        law_a_device_that_never_tunes_is_abandoned(s, earlier);
        law_every_state_is_in_order(s, earlier);
        law_failed_passes_are_counted(run(s, earlier), events.last());
        lemma_never_tunes_step(run(s, earlier), events.last());
    }
    law_every_state_is_in_order(s, events);
    law_the_plan_is_fixed(s, events);
    assert(0 * s.channels.len() == 0);
    lemma_never_tunes_end(run(s, events));
}

proof fn lemma_never_tunes_step(s: ScanState, event: EventView)
    requires
        inv(s),
        accepts(s.phase, event),
        event != EventView::EnteredRx(true),
        !(s.device is Receiving),
        !abandoned(s.stream_failures),
    ensures
        !(next(s, event).device is Receiving),
        next(s, event).stream_failures == s.stream_failures,
        next(s, event).phase matches Phase::Finished(outcome) ==> outcome is Stopped
            || outcome is SweepFailures,
        sweep_pauses(next(s, event)) == sweep_pauses(s) + if s.phase is SweepPause {
            1int
        } else {
            0
        },
{
}

proof fn lemma_never_tunes_end(s: ScanState)
    requires
        inv(s),
        !(s.device is Receiving),
        !abandoned(s.stream_failures),
    ensures
        failed_passes(s) <= MAX_CONSECUTIVE_SWEEP_FAILURES * s.channels.len(),
        s.phase matches Phase::Finished(Outcome::SweepFailures(_)) && s.sweep_failures
            == MAX_CONSECUTIVE_SWEEP_FAILURES ==> failed_passes(s) == MAX_CONSECUTIVE_SWEEP_FAILURES
            * s.channels.len(),
        failed_passes(s) == MAX_CONSECUTIVE_SWEEP_FAILURES * s.channels.len() ==> {
            let polled = next(s, EventView::StopPolled(false));
            let given_up = Phase::Finished(Outcome::SweepFailures(MAX_CONSECUTIVE_SWEEP_FAILURES));
            &&& s.phase is PassStart && s.stream_failures == 0 ==> polled.phase == given_up
            &&& s.phase is PassStart && s.stream_failures > 0 ==> polled.phase is StreamPause
                && next(polled, EventView::Paused).phase == given_up
            &&& s.phase is StreamPause ==> next(s, EventView::Paused).phase == given_up
        },
{
    let n = s.channels.len() as int;
    let limit = MAX_CONSECUTIVE_SWEEP_FAILURES as int;
    assert(s.sweep_failures < limit ==> s.sweep_failures * n + n <= limit * n)
        by (nonlinear_arith)
        requires
            n > 0,
            limit > 0,
    ;
    assert(s.sweep_failures < limit - 1 ==> s.sweep_failures * n + n < limit * n)
        by (nonlinear_arith)
        requires
            n > 0,
            limit > 0,
    ;
}

/// Whether an event is one of a device that tunes and enters receive mode but
/// cannot be read, with nobody interfering.
pub open spec fn dead_stream() -> spec_fn(EventView) -> bool {
    |event: EventView|
        match event {
            EventView::StopPolled(stop) => !stop,
            EventView::OverrideRead(wanted) => wanted is None,
            EventView::Tuned(ok) => ok,
            EventView::EnteredRx(ok) => ok,
            EventView::DeadlineChecked { elapsed_ns, deadline_ns } => elapsed_ns < deadline_ns,
            EventView::RxStopped(ok) => ok,
            EventView::Paused | EventView::DwellStarted | EventView::ReadFailed => true,
            _ => false,
        }
}

/// Whether an event ends a pause for a read failure.
pub open spec fn stream_pause() -> spec_fn(ScanState, EventView) -> bool {
    |s: ScanState, event: EventView| s.phase is StreamPause
}

/// The answers that a pass has had when it comes to a phase, at most.
spec fn pass_position(phase: Phase) -> int {
    match phase {
        Phase::PassStart => 0,
        Phase::StreamPause => 1,
        Phase::ChooseFrequency => 2,
        Phase::Tuning(_) => 3,
        Phase::EnteringRx(_) => 4,
        Phase::DwellStart(_) => 5,
        Phase::DwellPoll(_) => 6,
        Phase::DwellOverride(_) => 7,
        Phase::DwellDeadline(_) => 8,
        Phase::Reading(_) => 9,
        Phase::Stopping(_) => 10,
        _ => 1,
    }
}

/// How a run of a device that cannot be read stands after so many answers, so many of
/// them to pauses for read failures.
spec fn dead_stream_progress(s: ScanState, pauses: int, answered: int) -> bool {
    let failures = s.stream_failures;
    &&& s.failures == 0
    &&& s.sweep_failures == 0
    &&& match s.phase {
        Phase::PassStart | Phase::StreamPause => {
            &&& s.device is Idle
            &&& pauses == if failures == 0 {
                0
            } else {
                failures - 1
            }
            &&& answered <= 11 * failures + pass_position(s.phase)
        },
        Phase::ChooseFrequency
        | Phase::Tuning(_)
        | Phase::EnteringRx(_)
        | Phase::DwellStart(_)
        | Phase::DwellPoll(_)
        | Phase::DwellOverride(_)
        | Phase::DwellDeadline(_)
        | Phase::Reading(_) => {
            &&& pauses == failures
            &&& answered <= 11 * failures + pass_position(s.phase)
            &&& pass_dwell(s.phase) matches Some(dwell) ==> !dwell.parked
        },
        Phase::Stopping(_) => {
            &&& failures > 0
            &&& pauses == failures - 1
            &&& answered <= 11 * (failures - 1) + 10
        },
        Phase::Finished(outcome) => {
            &&& outcome == Outcome::StreamFailures(MAX_CONSECUTIVE_STREAM_FAILURES)
            &&& failures == MAX_CONSECUTIVE_STREAM_FAILURES
            &&& pauses == failures - 1
            &&& answered <= 11 * failures + 1
        },
        _ => false,
    }
}

proof fn lemma_dead_stream_step(s: ScanState, event: EventView, pauses: int, answered: int)
    requires
        inv(s),
        accepts(s.phase, event),
        dead_stream()(event),
        dead_stream_progress(s, pauses, answered),
    ensures
        dead_stream_progress(
            next(s, event),
            pauses + if s.phase is StreamPause {
                1int
            } else {
                0
            },
            answered + 1,
        ),
{
}

proof fn lemma_dead_stream_progress(s: ScanState, events: Seq<EventView>)
    requires
        inv(s),
        s.phase is PassStart,
        s.device is Idle,
        s.failures == 0,
        s.sweep_failures == 0,
        s.stream_failures == 0,
        answers(s, events),
        all(events, dead_stream()),
    ensures
        dead_stream_progress(
            run(s, events),
            count(s, events, stream_pause()) as int,
            events.len() as int,
        ),
    decreases events.len(),
{
    if events.len() > 0 {
        let earlier = events.drop_last();
        lemma_all_drop_last(events, dead_stream());
        lemma_dead_stream_progress(s, earlier);
        law_every_state_is_in_order(s, earlier);
        lemma_dead_stream_step(
            run(s, earlier),
            events.last(),
            count(s, earlier, stream_pause()) as int,
            earlier.len() as int,
        );
    }
}

/// A device that tunes and enters receive mode but cannot be read is given up after
/// a bounded number of answers and a bounded time of pauses: a run of such answers
/// is never longer than eleven for each tolerated failure and one more, its pauses
/// for read failures stay below two seconds in all, and until it has ended for read
/// failures it goes on.
pub proof fn law_giving_up_is_bounded(
    source: HackRfSource,
    channels: Seq<Hertz>,
    sample_rate: Hertz,
    events: Seq<EventView>,
)
    requires
        usable_rate(sample_rate),
        channels.len() > 0,
        answers(initial(source, channels, sample_rate), events),
        all(events, dead_stream()),
    ensures
        ({
            let s = initial(source, channels, sample_rate);
            &&& events.len() <= 11 * MAX_CONSECUTIVE_STREAM_FAILURES + 1
            &&& count(s, events, stream_pause()) * STREAM_FAILURE_BACKOFF_MS < 2000
            &&& run(s, events).phase matches Phase::Finished(outcome) ==> outcome
                == Outcome::StreamFailures(MAX_CONSECUTIVE_STREAM_FAILURES)
            &&& !(run(s, events).phase is Finished) ==> exists|event: EventView|
                #![trigger accepts(run(s, events).phase, event)]
                dead_stream()(event) && accepts(run(s, events).phase, event)
        }),
{
    let s = initial(source, channels, sample_rate);
    lemma_dead_stream_progress(s, events);
    law_every_state_is_in_order(s, events);
    let last = run(s, events);
    if !(last.phase is Finished) {
        let event = match last.phase {
            Phase::PassStart | Phase::DwellPoll(_) => EventView::StopPolled(false),
            Phase::StreamPause => EventView::Paused,
            Phase::ChooseFrequency | Phase::DwellOverride(_) => EventView::OverrideRead(None),
            Phase::Tuning(_) => EventView::Tuned(true),
            Phase::EnteringRx(_) => EventView::EnteredRx(true),
            Phase::DwellStart(_) => EventView::DwellStarted,
            Phase::DwellDeadline(_) => EventView::DeadlineChecked {
                elapsed_ns: 0,
                deadline_ns: 1,
            },
            Phase::Reading(_) => EventView::ReadFailed,
            _ => EventView::RxStopped(true),
        };
        assert(dead_stream()(event) && accepts(last.phase, event));
    }
}

/// Whether an event moves the hop list on.
pub open spec fn hop() -> spec_fn(ScanState, EventView) -> bool {
    |s: ScanState, event: EventView|
        match (s.phase, event) {
            (Phase::ReopenPause, _) => true,
            (Phase::Tuning(_), EventView::Tuned(ok)) => !ok,
            (Phase::Recover, EventView::Opened(found)) => !found,
            (Phase::RecoverSetting(index), _) => index + 1 == 5,
            (Phase::Stopping(dwell), EventView::RxStopped(ok)) => ok && !dwell.parked,
            _ => false,
        }
}

/// The hop list is walked round-robin: every failed pass and every dwell that was
/// not parked moves it on by one place, and nothing else moves it.
pub proof fn law_channels_are_visited_in_turn(s: ScanState, events: Seq<EventView>)
    requires
        inv(s),
        answers(s, events),
    ensures
        run(s, events).channel_idx == (s.channel_idx + count(s, events, hop()))
            % s.channels.len() as int,
    decreases events.len(),
{
    let n = s.channels.len() as int;
    law_the_plan_is_fixed(s, events);
    if events.len() == 0 {
        lemma_small_mod(s.channel_idx as nat, n as nat);
    } else {
        let earlier = events.drop_last();
        let before = run(s, earlier);
        law_channels_are_visited_in_turn(s, earlier);
        law_every_state_is_in_order(s, earlier);
        law_the_plan_is_fixed(s, earlier);
        let total = s.channel_idx + count(s, earlier, hop());
        assert((total % n + 1) % n == (total + 1) % n) by {
            lemma_add_mod_noop(total, 1, n);
            lemma_add_mod_noop(total % n, 1, n);
            lemma_mod_twice(total, n);
        }
        if hop()(before, events.last()) {
            assert(next(before, events.last()).channel_idx == (before.channel_idx + 1) % n);
        } else {
            assert(next(before, events.last()).channel_idx == before.channel_idx);
        }
    }
}

/// The dwell that a phase in receive mode belongs to.
pub open spec fn dwell_of(phase: Phase) -> Option<Dwell> {
    match phase {
        Phase::DwellStart(dwell)
        | Phase::DwellPoll(dwell)
        | Phase::DwellOverride(dwell)
        | Phase::DwellDeadline(dwell)
        | Phase::Reading(dwell)
        | Phase::Delivering(dwell)
        | Phase::ReportCheck(dwell)
        | Phase::Reporting(dwell)
        | Phase::Stopping(dwell) => Some(dwell),
        _ => None,
    }
}

/// A dwell stays on its frequency from the moment receive mode is entered until it
/// is left, and one that is parked leaves the hop list where it is.
pub proof fn law_parking_keeps_the_hop_list(s: ScanState, event: EventView, dwell: Dwell)
    requires
        inv(s),
        accepts(s.phase, event),
        dwell_of(s.phase) == Some(dwell),
    ensures
        ({
            let after = next(s, event);
            &&& dwell_of(after.phase) == Some(dwell) || after.phase is PassStart
                || after.phase is Disconnecting || after.phase is Finished
            &&& dwell.parked ==> after.channel_idx == s.channel_idx
            &&& !dwell.parked && after.phase is PassStart ==> after.channel_idx == (s.channel_idx
                + 1) % s.channels.len() as int
        }),
{
}

/// Whether an event, where a pass chooses its frequency, is a viewer's wish.
pub open spec fn viewer_asks() -> spec_fn(ScanState, EventView) -> bool {
    |s: ScanState, event: EventView|
        s.phase is ChooseFrequency ==> event matches EventView::OverrideRead(Some(_))
}

/// Whether an event lets a viewer's wish be met: every pass finds one, and the device
/// tunes and enters receive mode for it.
pub open spec fn viewer_served() -> spec_fn(ScanState, EventView) -> bool {
    |s: ScanState, event: EventView|
        {
            &&& viewer_asks()(s, event)
            &&& event != EventView::Tuned(false)
            &&& event != EventView::EnteredRx(false)
        }
}

/// Whether an event moves the hop list on because a pass failed.
pub open spec fn failed_hop() -> spec_fn(ScanState, EventView) -> bool {
    |s: ScanState, event: EventView| hop()(s, event) && !(s.phase is Stopping)
}

/// While every pass finds a viewer's wish, whatever the device does, every dwell is
/// parked and the hop list is moved on by failed passes alone, one place for each.
/// The first pass that finds none tunes to the channel at which the hop list stands.
pub proof fn law_only_failed_passes_hop_under_a_viewer(s: ScanState, events: Seq<EventView>)
    requires
        inv(s),
        s.phase is ChooseFrequency,
        answers(s, events),
        all_in(s, events, viewer_asks()),
    ensures
        ({
            let last = run(s, events);
            &&& pass_dwell(last.phase) matches Some(dwell) ==> dwell.parked
            &&& last.channel_idx == (s.channel_idx + count(s, events, failed_hop()))
                % s.channels.len() as int
            &&& last.phase is ChooseFrequency ==> next(last, EventView::OverrideRead(None)).phase
                == Phase::Tuning(
                Dwell { frequency: s.channels[last.channel_idx], parked: false },
            )
        }),
{
    lemma_viewer_hops(s, events);
    law_channels_are_visited_in_turn(s, events);
    law_the_plan_is_fixed(s, events);
}

proof fn lemma_viewer_hops(s: ScanState, events: Seq<EventView>)
    requires
        inv(s),
        s.phase is ChooseFrequency,
        answers(s, events),
        all_in(s, events, viewer_asks()),
    ensures
        pass_dwell(run(s, events).phase) matches Some(dwell) ==> dwell.parked,
        count(s, events, hop()) == count(s, events, failed_hop()),
    decreases events.len(),
{
    if events.len() > 0 {
        let before = run(s, events.drop_last());
        lemma_viewer_hops(s, events.drop_last());
        law_every_state_is_in_order(s, events.drop_last());
        law_a_pass_has_one_frequency(before, events.last());
    }
}

/// The answers up to the next tuning when a viewer is found to have gone: the
/// override is empty, receive mode is left, there is no stop, an earlier read
/// failure is waited out, and the override is still empty.
pub open spec fn viewer_leaves(s: ScanState) -> Seq<EventView> {
    let left = seq![
        EventView::OverrideRead(None),
        EventView::RxStopped(true),
        EventView::StopPolled(false),
    ];
    if s.stream_failures > 0 {
        left.push(EventView::Paused).push(EventView::OverrideRead(None))
    } else {
        left.push(EventView::OverrideRead(None))
    }
}

/// While every pass finds a viewer's wish and the device meets it, on one frequency
/// after another and over stops and read failures between them, every dwell is parked
/// and the hop list stays where it was. The first pass that finds no wish tunes to
/// the channel that was next before the viewer came; a viewer who goes during a dwell
/// ends it, and that pass is the next one.
pub proof fn law_hopping_resumes_where_it_left_off(s: ScanState, events: Seq<EventView>)
    requires
        inv(s),
        s.phase is ChooseFrequency,
        answers(s, events),
        all_in(s, events, viewer_served()),
    ensures
        ({
            let last = run(s, events);
            &&& last.channel_idx == s.channel_idx
            &&& dwell_of(last.phase) matches Some(dwell) ==> dwell.parked
            &&& last.phase is ChooseFrequency ==> next(last, EventView::OverrideRead(None)).phase
                == Phase::Tuning(
                Dwell { frequency: s.channels[s.channel_idx], parked: false },
            )
            &&& last.phase is DwellOverride ==> run(last, viewer_leaves(last)).phase
                == Phase::Tuning(
                Dwell { frequency: s.channels[s.channel_idx], parked: false },
            )
        }),
{
    lemma_viewer_stays(s, events);
    law_every_state_is_in_order(s, events);
    law_the_plan_is_fixed(s, events);
    let last = run(s, events);
    if last.phase is DwellOverride {
        lemma_viewer_leaves(last, dwell_of(last.phase)->Some_0);
    }
}

proof fn lemma_viewer_leaves(s: ScanState, dwell: Dwell)
    requires
        inv(s),
        s.phase == Phase::DwellOverride(dwell),
        dwell.parked,
    ensures
        run(s, viewer_leaves(s)).phase == Phase::Tuning(
            Dwell { frequency: s.channels[s.channel_idx], parked: false },
        ),
{
    let e0 = Seq::<EventView>::empty();
    let e1 = e0.push(EventView::OverrideRead(None));
    let e2 = e1.push(EventView::RxStopped(true));
    let e3 = e2.push(EventView::StopPolled(false));
    assert(e3 =~= seq![
        EventView::OverrideRead(None),
        EventView::RxStopped(true),
        EventView::StopPolled(false),
    ]);
    lemma_run_push(s, e0, EventView::OverrideRead(None));
    let s1 = run(s, e1);
    assert(s1 == s.at(Phase::Stopping(dwell)));
    lemma_run_push(s, e1, EventView::RxStopped(true));
    let s2 = run(s, e2);
    assert(s2 == ScanState { device: Device::Idle, ..s }.at(Phase::PassStart));
    lemma_run_push(s, e2, EventView::StopPolled(false));
    let s3 = run(s, e3);
    if s.stream_failures > 0 {
        assert(s3 == s2.at(Phase::StreamPause));
        let e4 = e3.push(EventView::Paused);
        lemma_run_push(s, e3, EventView::Paused);
        assert(run(s, e4) == s2.at(Phase::ChooseFrequency));
        lemma_run_push(s, e4, EventView::OverrideRead(None));
    } else {
        assert(s3 == s2.at(Phase::ChooseFrequency));
        lemma_run_push(s, e3, EventView::OverrideRead(None));
    }
}

proof fn lemma_run_push(s: ScanState, events: Seq<EventView>, event: EventView)
    ensures
        run(s, events.push(event)) == next(run(s, events), event),
{
    assert(events.push(event).drop_last() =~= events);
}

proof fn lemma_viewer_stays(s: ScanState, events: Seq<EventView>)
    requires
        inv(s),
        s.phase is ChooseFrequency,
        answers(s, events),
        all_in(s, events, viewer_served()),
    ensures
        run(s, events).channel_idx == s.channel_idx,
        dwell_of(run(s, events).phase) matches Some(dwell) ==> dwell.parked,
        match run(s, events).phase {
            Phase::Tuning(dwell) | Phase::EnteringRx(dwell) => dwell.parked,
            Phase::SweepPause
            | Phase::Reopen
            | Phase::ReopenSetting(_)
            | Phase::ReopenPause
            | Phase::RecoverPause
            | Phase::Recover
            | Phase::RecoverSetting(_) => false,
            Phase::PassStart | Phase::StreamPause => run(s, events).device is Idle && run(
                s,
                events,
            ).failures < s.channels.len(),
            _ => true,
        },
    decreases events.len(),
{
    law_the_plan_is_fixed(s, events);
    if events.len() > 0 {
        lemma_viewer_stays(s, events.drop_last());
        law_every_state_is_in_order(s, events.drop_last());
        law_the_plan_is_fixed(s, events.drop_last());
    }
}

/// Whether an event disturbs a dwell in nothing: no stop, no change of what the
/// viewer wants, no read failure, and a receiver that takes its packets.
pub open spec fn undisturbed(dwell: Dwell) -> spec_fn(EventView) -> bool {
    |event: EventView|
        match event {
            EventView::StopPolled(stop) => !stop,
            EventView::OverrideRead(wanted) => dwell.parked == (wanted is Some
                && wanted->Some_0.same(dwell.frequency)),
            EventView::ReadFailed => false,
            EventView::Delivered(ok) => ok,
            _ => true,
        }
}

/// A parked dwell, and every dwell when there is only one channel, streams on
/// without a break for as long as it is undisturbed, however long that is: the
/// device stays in receive mode and the dwell's deadline is never asked for.
pub proof fn law_streaming_is_continuous(s: ScanState, events: Seq<EventView>, dwell: Dwell)
    requires
        inv(s),
        s.phase == Phase::DwellStart(dwell),
        dwell.parked || s.channels.len() == 1,
        answers(s, events),
        all(events, undisturbed(dwell)),
    ensures
        run(s, events).device is Receiving,
        dwell_of(run(s, events).phase) == Some(dwell),
        !(run(s, events).phase is DwellDeadline),
        !(run(s, events).phase is Stopping),
        run(s, events).channel_idx == s.channel_idx,
    decreases events.len(),
{
    if events.len() > 0 {
        lemma_all_drop_last(events, undisturbed(dwell));
        law_streaming_is_continuous(s, events.drop_last(), dwell);
        law_the_plan_is_fixed(s, events.drop_last());
        law_every_state_is_in_order(s, events.drop_last());
    }
}

/// With a single channel the deadline of a dwell is never asked for, whatever
/// happens.
pub proof fn law_a_single_channel_has_no_deadline(s: ScanState, events: Seq<EventView>)
    requires
        inv(s),
        s.channels.len() == 1,
        answers(s, events),
    ensures
        !(run(s, events).phase is DwellDeadline),
{
    law_every_state_is_in_order(s, events);
    law_the_plan_is_fixed(s, events);
}

/// A viewer who asks for the frequency that the loop is hopping over ends the dwell
/// at once, and one who wants the same frequency at the next pass is parked on it.
pub proof fn law_a_viewer_is_served_promptly(s: ScanState, dwell: Dwell, frequency: Hertz)
    requires
        inv(s),
        s.phase == Phase::DwellOverride(dwell),
        !dwell.parked,
        frequency.same(dwell.frequency),
    ensures
        next(s, EventView::OverrideRead(Some(frequency))).phase == Phase::Stopping(dwell),
        forall|later: ScanState|
            #![trigger next(later, EventView::OverrideRead(Some(frequency)))]
            later.phase is ChooseFrequency ==> next(
                later,
                EventView::OverrideRead(Some(frequency)),
            ).phase == Phase::Tuning(Dwell { frequency, parked: true }),
{
}

/// A parked dwell ends as soon as the viewer wants another frequency or none.
pub proof fn law_a_parked_dwell_ends_with_the_view(
    s: ScanState,
    dwell: Dwell,
    wanted: Option<Hertz>,
)
    requires
        inv(s),
        s.phase == Phase::DwellOverride(dwell),
        dwell.parked,
    ensures
        next(s, EventView::OverrideRead(wanted)).phase == if wanted is Some
            && wanted->Some_0.same(dwell.frequency) {
            Phase::Reading(dwell)
        } else {
            Phase::Stopping(dwell)
        },
{
}

/// The dwell that a pass has chosen, from tuning on.
pub open spec fn pass_dwell(phase: Phase) -> Option<Dwell> {
    match phase {
        Phase::Tuning(dwell) | Phase::EnteringRx(dwell) => Some(dwell),
        _ => dwell_of(phase),
    }
}

/// A pass keeps the dwell that it chose: what the device is tuned to, what the dwell
/// is timed for and what its packets name is one frequency.
pub proof fn law_a_pass_has_one_frequency(s: ScanState, event: EventView)
    requires
        inv(s),
        accepts(s.phase, event),
    ensures
        ({
            let after = next(s, event);
            &&& pass_dwell(after.phase) is Some && !(s.phase is ChooseFrequency) ==> pass_dwell(
                after.phase,
            ) == pass_dwell(s.phase)
            &&& s.phase is ChooseFrequency ==> {
                let wanted = event->OverrideRead_0;
                let frequency = if wanted is Some {
                    wanted->Some_0
                } else {
                    s.channels[s.channel_idx]
                };
                &&& pass_dwell(after.phase) == Some(Dwell { frequency, parked: wanted is Some })
                &&& request(after, event) == RequestView::Tune(
                    frequency.whole(u64::MAX as nat) as u64,
                )
            }
        }),
{
}

/// Whether an event that reads the stop flag finds it set.
pub open spec fn stop_set() -> spec_fn(EventView) -> bool {
    |event: EventView| event matches EventView::StopPolled(stop) ==> stop
}

/// Once the loop reads that it is to stop, it does nothing but leave receive mode:
/// it ends within three answers and reads, tunes and delivers nothing more.
pub proof fn law_a_stop_ends_the_loop(s: ScanState, events: Seq<EventView>)
    requires
        inv(s),
        s.phase is PassStart || s.phase is DwellPoll,
        answers(s, events),
        all(events, stop_set()),
    ensures
        s.phase is PassStart ==> events.len() <= 1,
        events.len() <= 3,
        events.len() == 1 && s.phase is PassStart || events.len() == 3 ==> run(s, events).phase
            == Phase::Finished(Outcome::Stopped),
        events.len() == 1 && s.phase is DwellPoll ==> run(s, events).phase is Stopping,
        events.len() == 2 ==> run(s, events).phase is PassStart || run(s, events).phase
            == Phase::Finished(Outcome::StopRxFailed),
    decreases events.len(),
{
    if events.len() > 0 {
        lemma_all_drop_last(events, stop_set());
        law_a_stop_ends_the_loop(s, events.drop_last());
    }
}

/// The answers that come before the stop flag is read again, at most.
pub open spec fn poll_distance(phase: Phase) -> int {
    match phase {
        Phase::PassStart | Phase::DwellPoll(_) | Phase::Finished(_) => 0,
        Phase::ReopenPause
        | Phase::DwellStart(_)
        | Phase::Stopping(_)
        | Phase::Disconnecting
        | Phase::Reporting(_) => 1,
        Phase::ReportCheck(_) => 2,
        Phase::Delivering(_) => 3,
        Phase::Reading(_) => 4,
        Phase::DwellDeadline(_) => 5,
        Phase::DwellOverride(_) => 6,
        Phase::RecoverSetting(index) => 5 - index,
        Phase::Recover => 6,
        Phase::RecoverPause => 7,
        Phase::EnteringRx(_) => 8,
        Phase::Tuning(_) => 9,
        Phase::ChooseFrequency => 10,
        Phase::ReopenSetting(index) => 15 - index,
        Phase::Reopen => 16,
        Phase::SweepPause => 17,
        Phase::StreamPause => 18,
    }
}

/// The loop never runs on without reading the stop flag: no run of more than
/// eighteen answers is without one that reads it.
pub proof fn law_the_stop_flag_is_read_again(s: ScanState, events: Seq<EventView>)
    requires
        inv(s),
        answers(s, events),
        all(events, |event: EventView| !(event is StopPolled)),
    ensures
        events.len() + poll_distance(run(s, events).phase) <= poll_distance(s.phase),
        events.len() <= 18,
    decreases events.len(),
{
    law_every_state_is_in_order(s, events);
    if events.len() > 0 {
        lemma_all_drop_last(events, |event: EventView| !(event is StopPolled));
        law_the_stop_flag_is_read_again(s, events.drop_last());
        law_every_state_is_in_order(s, events.drop_last());
    }
}

/// A packet is delivered only for a read that gave at least one sample. It holds
/// the samples of that read, the frequency that the device was tuned to and the
/// sample rate, and is never marked as an overrun.
pub proof fn law_packets_say_what_was_read(s: ScanState, bytes: Seq<u8>, dwell: Dwell)
    requires
        inv(s),
        s.phase == Phase::Reading(dwell),
    ensures
        ({
            let event = EventView::Received(bytes);
            let after = request(next(s, event), event);
            &&& after is Deliver <==> bytes.len() >= 2
            &&& after matches RequestView::Deliver(packet) ==> {
                &&& packet.samples == crate::iq::decoded(bytes)
                &&& packet.samples.len() == bytes.len() / 2
                &&& packet.center_frequency_hz == dwell.frequency
                &&& packet.sample_rate_hz == s.sample_rate
                &&& !packet.overrun
            }
        }),
{
}

/// The packets that a run asks to deliver, in order.
pub open spec fn delivered(s: ScanState, events: Seq<EventView>) -> Seq<IqPacketView>
    decreases events.len(),
{
    if events.len() == 0 {
        Seq::empty()
    } else {
        let earlier = delivered(s, events.drop_last());
        match request(run(s, events), events.last()) {
            RequestView::Deliver(packet) => earlier.push(packet),
            _ => earlier,
        }
    }
}

/// The frequency that the device was last tuned to in a run, if it was.
pub open spec fn tuned(s: ScanState, events: Seq<EventView>) -> Option<Hertz>
    decreases events.len(),
{
    if events.len() == 0 {
        None
    } else {
        match (run(s, events.drop_last()).phase, events.last()) {
            (Phase::Tuning(dwell), EventView::Tuned(true)) => Some(dwell.frequency),
            _ => tuned(s, events.drop_last()),
        }
    }
}

/// What a run read, in order: for each read of at least one whole sample, its samples
/// with the frequency that the device was last tuned to before it and the loop's rate.
pub open spec fn received(s: ScanState, events: Seq<EventView>) -> Seq<IqPacketView>
    decreases events.len(),
{
    if events.len() == 0 {
        Seq::empty()
    } else {
        let earlier = received(s, events.drop_last());
        match events.last() {
            EventView::Received(bytes) => if bytes.len() >= 2 {
                earlier.push(
                    IqPacketView {
                        samples: crate::iq::decoded(bytes),
                        center_frequency_hz: tuned(s, events.drop_last())->Some_0,
                        sample_rate_hz: s.sample_rate,
                        overrun: false,
                    },
                )
            } else {
                earlier
            },
            _ => earlier,
        }
    }
}

/// Over a whole run the packets to deliver are exactly what was read: one for each
/// read of at least two bytes, in the order of the reads, none lost, made up or said
/// to be from another frequency than the one that the device was last tuned to.
pub proof fn law_every_read_is_delivered_in_order(s: ScanState, events: Seq<EventView>)
    requires
        inv(s),
        s.phase is PassStart,
        answers(s, events),
    ensures
        delivered(s, events) == received(s, events),
        run(s, events).device is Receiving ==> tuned(s, events) is Some,
        run(s, events).phase matches Phase::Reading(dwell) ==> tuned(s, events) == Some(
            dwell.frequency,
        ),
    decreases events.len(),
{
    lemma_tuned_to_the_dwell(s, events);
    if events.len() > 0 {
        let earlier = events.drop_last();
        law_every_read_is_delivered_in_order(s, earlier);
        law_every_state_is_in_order(s, earlier);
        law_the_plan_is_fixed(s, earlier);
        lemma_delivery_follows_a_read(run(s, earlier), events.last());
    }
}

proof fn lemma_delivery_follows_a_read(s: ScanState, event: EventView)
    requires
        inv(s),
        accepts(s.phase, event),
    ensures
        ({
            let after = request(next(s, event), event);
            match event {
                EventView::Received(bytes) => {
                    &&& s.phase is Reading
                    &&& after == RequestView::Deliver(
                        IqPacketView {
                            samples: crate::iq::decoded(bytes),
                            center_frequency_hz: s.phase->Reading_0.frequency,
                            sample_rate_hz: s.sample_rate,
                            overrun: false,
                        },
                    ) || (bytes.len() < 2 && !(after is Deliver))
                    &&& after is Deliver ==> bytes.len() >= 2
                },
                _ => !(after is Deliver),
            }
        }),
{
    if let EventView::Received(bytes) = event {
        law_packets_say_what_was_read(s, bytes, s.phase->Reading_0);
    }
}

proof fn lemma_tuned_to_the_dwell(s: ScanState, events: Seq<EventView>)
    requires
        inv(s),
        s.phase is PassStart,
        answers(s, events),
    ensures
        pass_dwell(run(s, events).phase) matches Some(dwell) ==> run(s, events).phase is Tuning
            || tuned(s, events) == Some(dwell.frequency),
        run(s, events).device is Receiving ==> tuned(s, events) is Some,
    decreases events.len(),
{
    if events.len() > 0 {
        lemma_tuned_to_the_dwell(s, events.drop_last());
        law_every_state_is_in_order(s, events.drop_last());
        law_every_state_is_in_order(s, events);
        law_a_pass_has_one_frequency(run(s, events.drop_last()), events.last());
    }
}

} // verus!
