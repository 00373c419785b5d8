//! What the capture loop does at each point, for every state and every answer: when it
//! stops, waits, gives up, reopens, tunes, dwells, reads, delivers and reports.
use crate::hertz::{law_whole_hertz_do_not_exceed_the_value, Hertz};
use crate::laws::{answers, count, law_every_state_is_in_order, run};
use crate::model::{
    abandoned, accepts, initial, inv, next, request, Device, Dwell, Event, EventView, Outcome,
    Phase, Request, RequestView, ScanState,
};
use crate::rate::usable_rate;
use crate::source::{
    law_a_device_gets_what_the_source_holds, sets, HackRfSource, StartPhase, StartRequest, Startup,
};
use vstd::arithmetic::power2::pow2;
use vstd::prelude::*;

verus! {

/// A loop starts with an idle device at the first channel, with nothing counted, by
/// reading the stop flag.
pub proof fn law_a_loop_starts_fresh(
    source: HackRfSource,
    channels: Seq<Hertz>,
    sample_rate: Hertz,
    event: EventView,
)
    ensures
        ({
            let s = initial(source, channels, sample_rate);
            &&& s.source == source && s.channels == channels && s.sample_rate == sample_rate
            &&& s.channel_idx == 0 && s.channel_switches == 0
            &&& s.failures == 0 && s.sweep_failures == 0 && s.stream_failures == 0
            &&& s.device == Device::Idle && s.phase == Phase::PassStart
            &&& request(s, event) == RequestView::PollStop
            &&& usable_rate(sample_rate) && channels.len() > 0 ==> inv(s)
        }),
{
}

/// A device is given up for read failures from the twentieth in a row on, and not
/// before it.
pub proof fn law_twenty_read_failures_are_too_many(failures: int)
    ensures
        abandoned(failures) <==> failures > 19,
{
}

/// Each phase takes the answers to what it asks for, whatever they say, and no others.
pub proof fn law_every_answer_is_taken(s: ScanState, event: EventView)
    ensures
        ({
            let asked = request(s, event);
            match event {
                EventView::StopPolled(_) => accepts(s.phase, event) <==> asked is PollStop,
                EventView::Paused => accepts(s.phase, event) <==> asked is Pause,
                EventView::Opened(_) => accepts(s.phase, event) <==> asked is OpenDevice,
                EventView::Applied(_) => accepts(s.phase, event) <==> asked is Apply,
                EventView::OverrideRead(_) => accepts(s.phase, event) <==> asked is ReadOverride,
                EventView::Tuned(_) => accepts(s.phase, event) <==> asked is Tune,
                EventView::EnteredRx(_) => accepts(s.phase, event) <==> asked is EnterRx,
                EventView::DwellStarted => accepts(s.phase, event) <==> asked is StartDwell,
                EventView::DeadlineChecked { .. } => accepts(s.phase, event)
                    <==> asked is CheckDeadline,
                EventView::Received(_) => accepts(s.phase, event) <==> asked is Read,
                EventView::ReadFailed => accepts(s.phase, event) <==> asked is Read,
                EventView::Delivered(_) => accepts(s.phase, event) <==> asked is Deliver,
                EventView::ReportChecked(_) => accepts(s.phase, event) <==> asked is CheckReport,
                EventView::Reported => accepts(s.phase, event) <==> asked is Report,
                EventView::RxStopped(_) => accepts(s.phase, event) <==> asked is StopRx,
            }
        }),
        request(s, event) is Finish <==> s.phase is Finished,
{
}

/// An answer ends the loop exactly for one of five reasons, and the loop says which: at
/// the start of a pass a stop, or else the twentieth read failure, or else, at once or
/// after the pause for a read failure, the tenth sweep in a row of which every pass
/// failed; after a dwell a device that does not leave receive mode; or a receiver that
/// has gone, once the device has been told to leave receive mode.
pub proof fn law_the_loop_ends_only_for_a_reason(s: ScanState, event: EventView)
    requires
        inv(s),
        accepts(s.phase, event),
    ensures
        ({
            let after = next(s, event);
            let stopped = s.phase is PassStart && event == EventView::StopPolled(true);
            let starved = s.phase is PassStart && event == EventView::StopPolled(false)
                && s.stream_failures >= 20;
            let swept = s.failures >= s.channels.len() && s.sweep_failures >= 9 && (
            (s.phase is PassStart && event == EventView::StopPolled(false) && s.stream_failures
                == 0) || s.phase is StreamPause);
            let stuck = s.phase is Stopping && event == EventView::RxStopped(false);
            let deserted = s.phase is Disconnecting;
            &&& after.phase is Finished <==> stopped || starved || swept || stuck || deserted
            &&& after.phase is Finished ==> request(after, event) == RequestView::Finish(
                after.phase->Finished_0,
            )
            &&& stopped ==> after.phase == Phase::Finished(Outcome::Stopped)
            &&& starved ==> after.phase == Phase::Finished(Outcome::StreamFailures(20))
            &&& swept ==> after.phase == Phase::Finished(Outcome::SweepFailures(10))
            &&& stuck ==> after.phase == Phase::Finished(Outcome::StopRxFailed)
            &&& deserted ==> after.phase == Phase::Finished(Outcome::ReceiverGone)
        }),
{
}

/// What a pass does next once no pause is due any more: with a device it reads what a
/// viewer wants, without one it opens one, and nothing else of the loop changes.
pub open spec fn goes_on(before: ScanState, after: ScanState, event: EventView) -> bool {
    &&& before.device is Absent ==> after == (ScanState { phase: Phase::Reopen, ..before })
        && request(after, event) == RequestView::OpenDevice
    &&& !(before.device is Absent) ==> after == (ScanState {
        phase: Phase::ChooseFrequency,
        ..before
    }) && request(after, event) == RequestView::ReadOverride
}

/// A pass that is not the last waits out what failed before it and then goes on. With a
/// read failure pending it pauses for 50 ms first; when every channel has failed since
/// the last sweep it counts a sweep and pauses for 500 ms, and starts the next sweep
/// from nothing; with neither it goes on at once.
pub proof fn law_failures_are_waited_out(s: ScanState, event: EventView)
    requires
        inv(s),
        accepts(s.phase, event),
        !(next(s, event).phase is Finished),
    ensures
        ({
            let after = next(s, event);
            let paced = s.phase is PassStart && s.stream_failures > 0;
            let checked = (s.phase is PassStart && s.stream_failures == 0)
                || s.phase is StreamPause;
            &&& paced ==> after == (ScanState { phase: Phase::StreamPause, ..s }) && request(
                after,
                event,
            ) == RequestView::Pause(50)
            &&& checked && s.failures < s.channels.len() ==> goes_on(s, after, event)
            &&& checked && s.failures >= s.channels.len() ==> after == (ScanState {
                sweep_failures: s.sweep_failures + 1,
                phase: Phase::SweepPause,
                ..s
            }) && request(after, event) == RequestView::Pause(500)
            &&& s.phase is SweepPause ==> goes_on(ScanState { failures: 0, ..s }, after, event)
        }),
{
}

/// The position after one in the hop list.
pub open spec fn place_after(s: ScanState) -> int {
    if s.channel_idx + 1 == s.channels.len() {
        0
    } else {
        s.channel_idx + 1
    }
}

/// A pass without a device opens one. One that is found is given its settings and then
/// used; one that is not costs the pass, after a pause of 100 ms, and the next pass
/// tries the next channel.
pub proof fn law_a_missing_device_is_reopened(s: ScanState, found: bool)
    requires
        inv(s),
    ensures
        s.phase is Reopen && found ==> next(s, EventView::Opened(found)) == (ScanState {
            device: Device::Idle,
            phase: Phase::ReopenSetting(0),
            ..s
        }),
        s.phase is Reopen && !found ==> next(s, EventView::Opened(found)) == (ScanState {
            phase: Phase::ReopenPause,
            ..s
        }) && request(next(s, EventView::Opened(found)), EventView::Opened(found))
            == RequestView::Pause(100),
        s.phase is ReopenPause ==> next(s, EventView::Paused) == (ScanState {
            failures: s.failures + 1,
            channel_idx: place_after(s),
            phase: Phase::PassStart,
            ..s
        }) && request(next(s, EventView::Paused), EventView::Paused) == RequestView::PollStop,
{
    if s.phase is ReopenPause {
        lemma_place_after(s);
    }
}

proof fn lemma_place_after(s: ScanState)
    requires
        inv(s),
    ensures
        (s.channel_idx + 1) % s.channels.len() as int == place_after(s),
{
    let n = s.channels.len() as int;
    if s.channel_idx + 1 == n {
        vstd::arithmetic::div_mod::lemma_mod_self_0(n);
    } else {
        vstd::arithmetic::div_mod::lemma_small_mod((s.channel_idx + 1) as nat, n as nat);
    }
}

/// A pass tunes to the frequency that a viewer wants, or to the channel at which the
/// hop list stands when nobody wants one; the device is told the most whole hertz that
/// do not exceed the frequency.
pub proof fn law_a_pass_tunes_to_the_viewer_or_the_hop_list(s: ScanState, wanted: Option<Hertz>)
    requires
        s.phase is ChooseFrequency,
    ensures
        ({
            let event = EventView::OverrideRead(wanted);
            let after = next(s, event);
            let frequency = if wanted is Some {
                wanted->Some_0
            } else {
                s.channels[s.channel_idx]
            };
            &&& after == (ScanState {
                phase: Phase::Tuning(Dwell { frequency, parked: wanted is Some }),
                ..s
            })
            &&& request(after, event) matches RequestView::Tune(hz) && {
                &&& frequency.is_nan() || frequency.scaled() <= 0 ==> hz == 0
                &&& !frequency.is_nan() && frequency.scaled() > 0 ==> hz * pow2(1074)
                    <= frequency.scaled() && (hz < u64::MAX ==> frequency.scaled() < (hz + 1)
                    * pow2(1074))
            }
        }),
{
    let frequency = if wanted is Some {
        wanted->Some_0
    } else {
        s.channels[s.channel_idx]
    };
    law_whole_hertz_do_not_exceed_the_value(frequency, u64::MAX as nat);
}

/// A device that is tuned is put into receive mode; one that is not costs the pass, and
/// the next pass tries the next channel. Receive mode clears the counts of failed passes
/// and starts the dwell on the frequency tuned to; a device that refuses it is lost.
pub proof fn law_tuning_leads_to_receive_mode_or_the_next_channel(
    s: ScanState,
    dwell: Dwell,
    ok: bool,
)
    requires
        inv(s),
    ensures
        ({
            let event = EventView::Tuned(ok);
            let after = next(s, event);
            &&& s.phase == Phase::Tuning(dwell) && ok ==> after == (ScanState {
                phase: Phase::EnteringRx(dwell),
                ..s
            }) && request(after, event) == RequestView::EnterRx
            &&& s.phase == Phase::Tuning(dwell) && !ok ==> after == (ScanState {
                failures: s.failures + 1,
                channel_idx: place_after(s),
                phase: Phase::PassStart,
                ..s
            }) && request(after, event) == RequestView::PollStop
        }),
        ({
            let event = EventView::EnteredRx(ok);
            let after = next(s, event);
            &&& s.phase == Phase::EnteringRx(dwell) && ok ==> after == (ScanState {
                failures: 0,
                sweep_failures: 0,
                device: Device::Receiving,
                phase: Phase::DwellStart(dwell),
                ..s
            }) && request(after, event) == RequestView::StartDwell(dwell.frequency)
            &&& s.phase == Phase::EnteringRx(dwell) && !ok ==> after == (ScanState {
                failures: s.failures + 1,
                device: Device::Absent,
                phase: Phase::RecoverPause,
                ..s
            }) && request(after, event) == RequestView::Pause(100)
        }),
{
    lemma_place_after(s);
}

/// A lost device is replaced after a pause of 100 ms. One that is found is given its
/// settings; with or without one, the next pass tries the next channel.
pub proof fn law_a_lost_device_is_replaced(s: ScanState, found: bool)
    requires
        inv(s),
    ensures
        s.phase is RecoverPause ==> next(s, EventView::Paused) == (ScanState {
            phase: Phase::Recover,
            ..s
        }) && request(next(s, EventView::Paused), EventView::Paused) == RequestView::OpenDevice,
        s.phase is Recover && found ==> next(s, EventView::Opened(found)) == (ScanState {
            device: Device::Idle,
            phase: Phase::RecoverSetting(0),
            ..s
        }),
        s.phase is Recover && !found ==> next(s, EventView::Opened(found)) == (ScanState {
            channel_idx: place_after(s),
            phase: Phase::PassStart,
            ..s
        }) && request(next(s, EventView::Opened(found)), EventView::Opened(found))
            == RequestView::PollStop,
{
    lemma_place_after(s);
}

/// What a run asks for, in order.
pub open spec fn asked(s: ScanState, events: Seq<EventView>) -> Seq<RequestView>
    decreases events.len(),
{
    if events.len() == 0 {
        Seq::empty()
    } else {
        asked(s, events.drop_last()).push(request(run(s, events), events.last()))
    }
}

/// A device that was reopened is given everything that the source holds, whatever is
/// refused on the way: in every run that starts with it, the first five requests are
/// the sample rate, the LNA gain, the VGA gain, the amplifier switch and the antenna
/// power, each once and in this order, and the sixth is something else: to choose a
/// frequency where a pass had no device, and to begin the next pass, at the next
/// channel, where a device was lost. Nothing else of the loop changes meanwhile.
pub proof fn law_a_reopened_device_is_set_again(s: ScanState, events: Seq<EventView>)
    requires
        inv(s),
        s.phase is Reopen || s.phase is Recover,
        answers(s, events),
        events.len() == 6,
        events[0] == EventView::Opened(true),
    ensures
        forall|place: int|
            0 <= place < 5 ==> (#[trigger] asked(s, events)[place] matches RequestView::Apply(
                setting,
            ) && sets(s.source, s.sample_rate, place, setting)),
        asked(s, events).len() == 6,
        s.phase is Reopen ==> asked(s, events)[5] == RequestView::ReadOverride && run(s, events)
            == (ScanState { device: Device::Idle, phase: Phase::ChooseFrequency, ..s }),
        s.phase is Recover ==> asked(s, events)[5] == RequestView::PollStop && run(s, events) == (
        ScanState {
            device: Device::Idle,
            channel_idx: place_after(s),
            phase: Phase::PassStart,
            ..s
        }),
{
    let e5 = events.drop_last();
    let e4 = e5.drop_last();
    let e3 = e4.drop_last();
    let e2 = e3.drop_last();
    let e1 = e2.drop_last();
    let e0 = e1.drop_last();
    assert(e0 =~= Seq::<EventView>::empty());
    assert(e1.last() == events[0]);
    assert(run(s, e0) == s);
    lemma_place_after(s);
    law_a_device_gets_what_the_source_holds(s.source, s.sample_rate);
    let open = ScanState { device: Device::Idle, ..s };
    assert(answers(s, e5) && answers(s, e4) && answers(s, e3) && answers(s, e2) && answers(s, e1));
    let reopen = s.phase is Reopen;
    let at = |index: usize|
        if reopen {
            open.at(Phase::ReopenSetting(index))
        } else {
            open.at(Phase::RecoverSetting(index))
        };
    assert(run(s, e1) == at(0));
    assert(run(s, e2) == at(1));
    assert(run(s, e3) == at(2));
    assert(run(s, e4) == at(3));
    assert(run(s, e5) == at(4));
    assert(asked(s, e0).len() == 0);
    assert(asked(s, e1).len() == 1);
    assert(asked(s, e2).len() == 2);
    assert(asked(s, e3).len() == 3);
    assert(asked(s, e4).len() == 4);
    assert(asked(s, e5).len() == 5);
    let all = asked(s, events);
    assert(all[0] == request(at(0), e1.last()));
    assert(all[1] == request(at(1), e2.last()));
    assert(all[2] == request(at(2), e3.last()));
    assert(all[3] == request(at(3), e4.last()));
    assert(all[4] == request(at(4), e5.last()));
}

/// A device that is reopened gets the same settings, place by place, as the one with
/// which the source was started, and so does one in place of a lost device.
pub proof fn law_reopening_sets_what_the_start_set(startup: Startup, s: ScanState, place: usize)
    requires
        place < 5,
        startup.phase == StartPhase::Applying(place),
        s.source == startup.plan.source,
        s.sample_rate == startup.plan.sample_rate,
    ensures
        forall|event: EventView|
            #![trigger request(s, event)]
            s.phase == Phase::ReopenSetting(place) || s.phase == Phase::RecoverSetting(place) ==> (
            startup.asks() matches StartRequest::Apply(setting) && request(s, event)
                == RequestView::Apply(setting)),
{
}

/// Settings are asked for only right after a device was opened or another setting was
/// tried, and a device that was opened is always set.
pub proof fn law_settings_follow_an_opened_device(s: ScanState, event: EventView)
    requires
        inv(s),
        accepts(s.phase, event),
    ensures
        request(next(s, event), event) is Apply ==> event == EventView::Opened(true)
            || event is Applied,
        event == EventView::Opened(true) ==> request(next(s, event), event) is Apply,
{
}

/// A dwell's clock starts before its first poll, and every turn of a dwell begins by
/// reading the stop flag: a stop ends the dwell, and otherwise the viewer's wish is read.
pub proof fn law_a_dwell_polls_before_it_reads(s: ScanState, dwell: Dwell, stop: bool)
    ensures
        s.phase == Phase::DwellStart(dwell) ==> next(s, EventView::DwellStarted) == (ScanState {
            phase: Phase::DwellPoll(dwell),
            ..s
        }) && request(next(s, EventView::DwellStarted), EventView::DwellStarted)
            == RequestView::PollStop,
        s.phase == Phase::DwellPoll(dwell) ==> {
            let event = EventView::StopPolled(stop);
            let after = next(s, event);
            &&& stop ==> after == (ScanState { phase: Phase::Stopping(dwell), ..s }) && request(
                after,
                event,
            ) == RequestView::StopRx
            &&& !stop ==> after == (ScanState { phase: Phase::DwellOverride(dwell), ..s })
                && request(after, event) == RequestView::ReadOverride
        },
{
}

/// A parked dwell goes on to read exactly as long as the viewer wants the very frequency
/// that it is on: a wish for any other frequency, for none, or for what is no number
/// ends it at once.
pub proof fn law_a_parked_dwell_follows_the_viewer(
    s: ScanState,
    dwell: Dwell,
    wanted: Option<Hertz>,
)
    requires
        s.phase == Phase::DwellOverride(dwell),
        dwell.parked,
    ensures
        ({
            let event = EventView::OverrideRead(wanted);
            let after = next(s, event);
            let held = wanted is Some && wanted->Some_0.same(dwell.frequency);
            &&& held ==> after == (ScanState { phase: Phase::Reading(dwell), ..s }) && request(
                after,
                event,
            ) == RequestView::Read
            &&& !held ==> after == (ScanState { phase: Phase::Stopping(dwell), ..s }) && request(
                after,
                event,
            ) == RequestView::StopRx
        }),
{
}

/// A dwell of the hop list ends at once when a viewer wants its frequency. Otherwise
/// its deadline is asked for whenever there is more than one channel, and with one
/// channel it reads on.
pub proof fn law_a_hop_dwell_asks_for_its_deadline(
    s: ScanState,
    dwell: Dwell,
    wanted: Option<Hertz>,
)
    requires
        inv(s),
        s.phase == Phase::DwellOverride(dwell),
        !dwell.parked,
    ensures
        ({
            let event = EventView::OverrideRead(wanted);
            let after = next(s, event);
            let viewed = wanted is Some && wanted->Some_0.same(dwell.frequency);
            &&& viewed ==> after == (ScanState { phase: Phase::Stopping(dwell), ..s }) && request(
                after,
                event,
            ) == RequestView::StopRx
            &&& !viewed && s.channels.len() >= 2 ==> after == (ScanState {
                phase: Phase::DwellDeadline(dwell),
                ..s
            }) && request(after, event) == RequestView::CheckDeadline
            &&& !viewed && s.channels.len() < 2 ==> after == (ScanState {
                phase: Phase::Reading(dwell),
                ..s
            }) && request(after, event) == RequestView::Read
        }),
{
}

/// A dwell whose deadline is reached ends; one whose deadline lies ahead reads on.
pub proof fn law_a_reached_deadline_ends_the_dwell(
    s: ScanState,
    dwell: Dwell,
    elapsed_ns: u128,
    deadline_ns: u128,
)
    requires
        s.phase == Phase::DwellDeadline(dwell),
    ensures
        ({
            let event = EventView::DeadlineChecked { elapsed_ns, deadline_ns };
            let after = next(s, event);
            &&& elapsed_ns >= deadline_ns ==> after == (ScanState {
                phase: Phase::Stopping(dwell),
                ..s
            }) && request(after, event) == RequestView::StopRx
            &&& elapsed_ns < deadline_ns ==> after == (ScanState {
                phase: Phase::Reading(dwell),
                ..s
            }) && request(after, event) == RequestView::Read
        }),
{
}

/// A read is asked for only in three cases: a parked dwell whose viewer wants its
/// frequency, a dwell of the hop list whose deadline lies ahead, and a dwell of the only
/// channel that no viewer wants.
pub proof fn law_reads_have_a_reason(s: ScanState, event: EventView)
    requires
        inv(s),
        accepts(s.phase, event),
    ensures
        request(next(s, event), event) is Read ==> {
            let dwell = next(s, event).phase->Reading_0;
            ||| dwell.parked && (event matches EventView::OverrideRead(Some(wanted)) && wanted.same(
                dwell.frequency,
            ))
            ||| !dwell.parked && s.channels.len() >= 2 && (event matches EventView::DeadlineChecked {
                elapsed_ns,
                deadline_ns,
            } && elapsed_ns < deadline_ns)
            ||| !dwell.parked && s.channels.len() == 1 && (event matches EventView::OverrideRead(
                wanted,
            ) && !(wanted is Some && wanted->Some_0.same(dwell.frequency)))
        },
{
}

/// A read that gives at least one whole sample is delivered; one that gives less goes on
/// to the report. A failed read counts and ends the dwell.
pub proof fn law_a_read_is_delivered_or_counted(s: ScanState, dwell: Dwell, bytes: Seq<u8>)
    requires
        s.phase == Phase::Reading(dwell),
    ensures
        ({
            let event = EventView::Received(bytes);
            let after = next(s, event);
            &&& bytes.len() >= 2 ==> after == (ScanState { phase: Phase::Delivering(dwell), ..s })
                && (request(after, event) matches RequestView::Deliver(packet)
                && packet.samples.len() == bytes.len() / 2 && packet.center_frequency_hz.bits
                == dwell.frequency.bits && packet.sample_rate_hz.bits == s.sample_rate.bits
                && !packet.overrun && (forall|i: int|
                #![trigger packet.samples[i]]
                0 <= i < packet.samples.len() ==> (bytes[2 * i] - packet.samples[i].re) % 256 == 0
                    && (bytes[2 * i + 1] - packet.samples[i].im) % 256 == 0))
            &&& bytes.len() < 2 ==> after == (ScanState { phase: Phase::ReportCheck(dwell), ..s })
                && request(after, event) == RequestView::CheckReport
        }),
        ({
            let after = next(s, EventView::ReadFailed);
            &&& after == (ScanState {
                stream_failures: s.stream_failures + 1,
                phase: Phase::Stopping(dwell),
                ..s
            })
            &&& request(after, EventView::ReadFailed) == RequestView::StopRx
        }),
{
    assert forall|i: int| 0 <= i < bytes.len() / 2 implies (bytes[2 * i]
        - #[trigger] crate::iq::decoded(bytes)[i].re) % 256 == 0 && (bytes[2 * i + 1]
        - crate::iq::decoded(bytes)[i].im) % 256 == 0 by {
        crate::iq::law_pairs_are_decoded_in_order(bytes, i);
    }
}

/// A packet that is taken clears the read failures and the dwell goes on; one that is
/// not ends the loop by way of leaving receive mode, with the device kept if it does.
pub proof fn law_a_delivery_goes_on_or_winds_down(s: ScanState, dwell: Dwell, ok: bool)
    ensures
        s.phase == Phase::Delivering(dwell) ==> {
            let event = EventView::Delivered(ok);
            let after = next(s, event);
            &&& ok ==> after == (ScanState {
                stream_failures: 0,
                phase: Phase::ReportCheck(dwell),
                ..s
            }) && request(after, event) == RequestView::CheckReport
            &&& !ok ==> after == (ScanState { phase: Phase::Disconnecting, ..s }) && request(
                after,
                event,
            ) == RequestView::StopRx
        },
        s.phase is Disconnecting ==> next(s, EventView::RxStopped(ok)) == (ScanState {
            device: if ok {
                Device::Idle
            } else {
                Device::Absent
            },
            phase: Phase::Finished(Outcome::ReceiverGone),
            ..s
        }),
{
}

/// The hops are reported when a minute or more has passed since the last report, with
/// their number and that of the channels, and are then counted from nothing; either way
/// the dwell goes on.
pub proof fn law_hops_are_reported_every_minute(s: ScanState, dwell: Dwell, secs: u64)
    requires
        inv(s),
    ensures
        s.phase == Phase::ReportCheck(dwell) ==> {
            let event = EventView::ReportChecked(secs);
            let after = next(s, event);
            &&& secs >= 60 ==> after == (ScanState { phase: Phase::Reporting(dwell), ..s }) && (
            request(after, event) matches RequestView::Report { switches, channels } && switches
                == s.channel_switches && channels == s.channels.len())
            &&& secs < 60 ==> after == (ScanState { phase: Phase::DwellPoll(dwell), ..s })
                && request(after, event) == RequestView::PollStop
        },
        s.phase == Phase::Reporting(dwell) ==> {
            let after = next(s, EventView::Reported);
            &&& after == (ScanState { channel_switches: 0, phase: Phase::DwellPoll(dwell), ..s })
            &&& request(after, EventView::Reported) == RequestView::PollStop
        },
{
}

/// A dwell that has left receive mode leads to the next pass with the device idle. One
/// of the hop list is a hop: it moves to the next channel and counts; one that was
/// parked does neither. A device that does not leave receive mode is gone.
pub proof fn law_a_dwell_ends_in_a_hop_unless_parked(s: ScanState, dwell: Dwell, ok: bool)
    requires
        inv(s),
        s.phase == Phase::Stopping(dwell),
    ensures
        ({
            let event = EventView::RxStopped(ok);
            let after = next(s, event);
            &&& ok && dwell.parked ==> after == (ScanState {
                device: Device::Idle,
                phase: Phase::PassStart,
                ..s
            })
            &&& ok && !dwell.parked ==> after == (ScanState {
                channel_idx: place_after(s),
                channel_switches: (s.channel_switches + 1) % 0x1_0000_0000_0000_0000,
                device: Device::Idle,
                phase: Phase::PassStart,
                ..s
            })
            &&& ok ==> request(after, event) == RequestView::PollStop
            &&& !ok ==> after == (ScanState {
                device: Device::Absent,
                phase: Phase::Finished(Outcome::StopRxFailed),
                ..s
            })
        }),
{
    lemma_place_after(s);
}

/// A viewer is followed to every other frequency, higher or lower: as soon as a parked
/// dwell reads a wish for one, the loop asks for nothing but to leave receive mode, to
/// poll the stop flag, to wait out a read failure and to read the wish again, and then
/// tunes to the new frequency, parked on it as on the one before, with the hop list
/// where it was. A wish that is withdrawn leads to the hop list in the same way.
pub proof fn law_a_viewer_is_followed(s: ScanState, dwell: Dwell, wish: Option<Hertz>)
    requires
        inv(s),
        s.phase == Phase::DwellOverride(dwell),
        dwell.parked,
        wish is Some ==> !wish->Some_0.same(dwell.frequency),
    ensures
        ({
            let left = next(s, EventView::OverrideRead(wish));
            let idle = next(left, EventView::RxStopped(true));
            let polled = next(idle, EventView::StopPolled(false));
            let ready = if s.stream_failures > 0 {
                next(polled, EventView::Paused)
            } else {
                polled
            };
            let tuning = next(ready, EventView::OverrideRead(wish));
            let frequency = if wish is Some {
                wish->Some_0
            } else {
                s.channels[s.channel_idx]
            };
            &&& request(left, EventView::OverrideRead(wish)) == RequestView::StopRx
            &&& request(idle, EventView::RxStopped(true)) == RequestView::PollStop
            &&& s.stream_failures > 0 ==> request(polled, EventView::StopPolled(false))
                == RequestView::Pause(50)
            &&& request(ready, EventView::Paused) == RequestView::ReadOverride
            &&& tuning == (ScanState {
                device: Device::Idle,
                phase: Phase::Tuning(Dwell { frequency, parked: wish is Some }),
                ..s
            })
        }),
{
    let left = next(s, EventView::OverrideRead(wish));
    assert(left == s.at(Phase::Stopping(dwell)));
    let idle = next(left, EventView::RxStopped(true));
    let rest = ScanState { device: Device::Idle, ..s };
    assert(idle == rest.at(Phase::PassStart));
    let polled = next(idle, EventView::StopPolled(false));
    if s.stream_failures > 0 {
        assert(polled == rest.at(Phase::StreamPause));
        assert(next(polled, EventView::Paused) == rest.at(Phase::ChooseFrequency));
    } else {
        assert(polled == rest.at(Phase::ChooseFrequency));
    }
}

/// Two wishes for the same frequency, or two for frequencies that are not the dwell's,
/// have the same effect on a dwell.
pub proof fn law_wishes_count_by_their_frequency(
    s: ScanState,
    dwell: Dwell,
    a: Option<Hertz>,
    b: Option<Hertz>,
)
    requires
        s.phase == Phase::DwellOverride(dwell),
        (a is Some && a->Some_0.same(dwell.frequency)) == (b is Some && b->Some_0.same(
            dwell.frequency,
        )),
    ensures
        next(s, EventView::OverrideRead(a)) == next(s, EventView::OverrideRead(b)),
{
}

/// With more than one channel a dwell of the hop list comes to its end at its deadline,
/// however many channels there are: once the deadline is reached nothing more is read,
/// receive mode is left, and the next pass starts at the next channel. Until a dwell is
/// at its deadline it reads again after every poll.
pub proof fn law_nothing_is_read_after_the_deadline(
    s: ScanState,
    dwell: Dwell,
    wanted: Option<Hertz>,
    elapsed_ns: u128,
    deadline_ns: u128,
)
    requires
        inv(s),
        s.phase == Phase::DwellPoll(dwell),
        !dwell.parked,
        s.channels.len() > 1,
        wanted is Some ==> !wanted->Some_0.same(dwell.frequency),
    ensures
        ({
            let check = EventView::DeadlineChecked { elapsed_ns, deadline_ns };
            let polled = next(s, EventView::StopPolled(false));
            let timed = next(polled, EventView::OverrideRead(wanted));
            let checked = next(timed, check);
            let ended = next(checked, EventView::RxStopped(true));
            &&& request(polled, EventView::StopPolled(false)) == RequestView::ReadOverride
            &&& request(timed, EventView::OverrideRead(wanted)) == RequestView::CheckDeadline
            &&& elapsed_ns < deadline_ns ==> request(checked, check) == RequestView::Read
            &&& elapsed_ns >= deadline_ns ==> {
                &&& request(checked, check) == RequestView::StopRx
                &&& request(ended, EventView::RxStopped(true)) == RequestView::PollStop
                &&& ended.phase is PassStart
                &&& ended.channel_idx == place_after(s)
                &&& ended.device is Idle
            }
        }),
{
    let polled = next(s, EventView::StopPolled(false));
    assert(polled == s.at(Phase::DwellOverride(dwell)));
    let timed = next(polled, EventView::OverrideRead(wanted));
    assert(timed == s.at(Phase::DwellDeadline(dwell)));
    lemma_place_after(s);
}

/// Whether an event ends a dwell of the hop list.
pub open spec fn dwell_hop() -> spec_fn(ScanState, EventView) -> bool {
    |s: ScanState, event: EventView|
        event == EventView::RxStopped(true) && (s.phase matches Phase::Stopping(dwell)
            && !dwell.parked)
}

/// Whether an event is a report that was made.
pub open spec fn report_made() -> spec_fn(ScanState, EventView) -> bool {
    |s: ScanState, event: EventView| event is Reported
}

/// The hops to report are counted one by one, in a 64-bit count that starts again from
/// zero behind its largest value: over a run without a report it grows by the number of
/// dwells of the hop list that ended, and a report names exactly that count.
pub proof fn law_every_hop_is_counted(s: ScanState, events: Seq<EventView>)
    requires
        inv(s),
        answers(s, events),
        count(s, events, report_made()) == 0,
    ensures
        run(s, events).channel_switches == (s.channel_switches + count(s, events, dwell_hop()))
            % 0x1_0000_0000_0000_0000,
        events.len() > 0 && asked(s, events).last() is Report ==> asked(
            s,
            events,
        ).last()->switches == run(s, events).channel_switches,
    decreases events.len(),
{
    law_every_state_is_in_order(s, events);
    if events.len() > 0 {
        let earlier = events.drop_last();
        law_every_hop_is_counted(s, earlier);
        law_every_state_is_in_order(s, earlier);
        lemma_switch_step(run(s, earlier), events.last());
    }
}

proof fn lemma_switch_step(s: ScanState, event: EventView)
    requires
        inv(s),
        accepts(s.phase, event),
        !(event is Reported),
    ensures
        next(s, event).channel_switches == (s.channel_switches + if dwell_hop()(s, event) {
            1int
        } else {
            0
        }) % 0x1_0000_0000_0000_0000,
{
}

/// A request is seen as what it is, with the numbers that it holds.
pub proof fn law_requests_are_seen_as_they_are(r: Request)
    ensures
        r is PollStop <==> r@ is PollStop,
        r is OpenDevice <==> r@ is OpenDevice,
        r is ReadOverride <==> r@ is ReadOverride,
        r is EnterRx <==> r@ is EnterRx,
        r is CheckDeadline <==> r@ is CheckDeadline,
        r is Read <==> r@ is Read,
        r is CheckReport <==> r@ is CheckReport,
        r is StopRx <==> r@ is StopRx,
        r matches Request::Pause(ms) ==> r@ == RequestView::Pause(ms),
        r matches Request::Apply(setting) ==> r@ == RequestView::Apply(setting),
        r matches Request::Tune(hz) ==> r@ == RequestView::Tune(hz),
        r matches Request::StartDwell(frequency) ==> r@ == RequestView::StartDwell(frequency),
        r matches Request::Report { switches, channels } ==> r@ == (RequestView::Report {
            switches,
            channels: channels as nat,
        }),
        r matches Request::Finish(outcome) ==> r@ == RequestView::Finish(outcome),
        r matches Request::Deliver(packet) ==> (r@ matches RequestView::Deliver(seen)
            && seen.samples == packet.samples@ && seen.center_frequency_hz
            == packet.center_frequency_hz && seen.sample_rate_hz == packet.sample_rate_hz
            && seen.overrun == packet.overrun),
{
}

/// An event is seen as what it is, with what it holds.
pub proof fn law_events_are_seen_as_they_are(e: Event)
    ensures
        e is Paused <==> e@ is Paused,
        e is DwellStarted <==> e@ is DwellStarted,
        e is ReadFailed <==> e@ is ReadFailed,
        e is Reported <==> e@ is Reported,
        e matches Event::StopPolled(stop) ==> e@ == EventView::StopPolled(stop),
        e matches Event::Opened(found) ==> e@ == EventView::Opened(found),
        e matches Event::Applied(ok) ==> e@ == EventView::Applied(ok),
        e matches Event::OverrideRead(wanted) ==> e@ == EventView::OverrideRead(wanted),
        e matches Event::Tuned(ok) ==> e@ == EventView::Tuned(ok),
        e matches Event::EnteredRx(ok) ==> e@ == EventView::EnteredRx(ok),
        e matches Event::DeadlineChecked { elapsed_ns, deadline_ns } ==> (
        e@ matches EventView::DeadlineChecked { elapsed_ns: at, deadline_ns: by } && at
            == elapsed_ns && by == deadline_ns),
        e matches Event::Received(bytes) ==> e@ == EventView::Received(bytes@),
        e matches Event::Delivered(ok) ==> e@ == EventView::Delivered(ok),
        e matches Event::ReportChecked(secs) ==> e@ == EventView::ReportChecked(secs),
        e matches Event::RxStopped(ok) ==> e@ == EventView::RxStopped(ok),
{
}

} // verus!
