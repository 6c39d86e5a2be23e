//! What holds of a run step by step: in which order a job goes about its work,
//! which answers count, when something is said, and what is said.

use crate::attempt;
use crate::attempt::{Attempt, Job, Phase, Step};
use crate::bluez;
use crate::bluez::ManagedObject;
use crate::config;
use crate::connect;
use crate::connect::{ConnectAction, ConnectEvent};
use crate::device_laws;
use crate::error;
use crate::error::{CachedField, NumberError};
use crate::hex;
use crate::listen;
use crate::listen::{PollEvent, PollPlan};
use crate::packet;
use crate::packet_laws;
use crate::retry;
use crate::retry::Reporting;
use crate::search;
use crate::search::SearchEvent;
use crate::write::{Reading, WriteAll, WriteOne};
use vstd::prelude::*;

verus! {

// ------------------------------------------------------------------------ jobs

/// One phase of the job comes at some time before the one with this index.
pub open spec fn comes_before(job: Job, phase: Phase, i: int) -> bool {
    exists|j: int| 0 <= j < i && #[trigger] attempt::phases(job)[j] == phase
}

/// A job goes through a phase.
pub open spec fn goes_through(job: Job, phase: Phase) -> bool {
    exists|j: int|
        0 <= j < attempt::phases(job).len() && #[trigger] attempt::phases(job)[j] == phase
}

proof fn lemma_phases(job: Job)
    ensures
        ({
            let all = attempt::phases(job);
            match job {
                Job::Send => all.len() == 4 && all[0] == Phase::FindDevice && all[1]
                    == Phase::Connect && all[2] == Phase::FindWritable && all[3]
                    == Phase::WritePackets,
                Job::Disconnect => all.len() == 3 && all[0] == Phase::FindDevice && all[1]
                    == Phase::Disconnect && all[2] == Phase::Forget,
                Job::Probe => all.len() == 3 && all[0] == Phase::FindDevice && all[1]
                    == Phase::Connect && all[2] == Phase::DumpGatt,
                Job::State => all.len() == 10 && all[0] == Phase::FindDevice && all[1]
                    == Phase::ReportDevice && all[2] == Phase::EnsureConnected && all[3]
                    == Phase::FindNotifying && all[4] == Phase::Subscribe && all[5]
                    == Phase::FindWritable && all[6] == Phase::RequestState && all[7]
                    == Phase::AwaitState && all[8] == Phase::ReadAll && all[9]
                    == Phase::ReportStored,
                Job::Listen => all.len() == 6 && all[0] == Phase::FindDevice && all[1]
                    == Phase::EnsureConnected && all[2] == Phase::FindEndpoints && all[3]
                    == Phase::Subscribe && all[4] == Phase::PrintValues && all[5]
                    == Phase::ReadAll,
                Job::RawWrite => all.len() == 8 && all[0] == Phase::FindDevice && all[1]
                    == Phase::EnsureConnected && all[2] == Phase::FindNotifying && all[3]
                    == Phase::Subscribe && all[4] == Phase::FindByUuid && all[5] == Phase::WriteRaw
                    && all[6] == Phase::PrintValues && all[7] == Phase::ReadAll,
            }
        }),
{
}

/// Each job does its own work and no other's.
pub proof fn law_a_job_does_its_work(job: Job)
    ensures
        goes_through(job, Phase::WritePackets) <==> job == Job::Send,
        goes_through(job, Phase::Disconnect) <==> job == Job::Disconnect,
        goes_through(job, Phase::Forget) <==> job == Job::Disconnect,
        goes_through(job, Phase::DumpGatt) <==> job == Job::Probe,
        goes_through(job, Phase::ReportDevice) <==> job == Job::State,
        goes_through(job, Phase::RequestState) <==> job == Job::State,
        goes_through(job, Phase::AwaitState) <==> job == Job::State,
        goes_through(job, Phase::ReportStored) <==> job == Job::State,
        goes_through(job, Phase::WriteRaw) <==> job == Job::RawWrite,
        goes_through(job, Phase::PrintValues) <==> job == Job::Listen || job == Job::RawWrite,
        goes_through(job, Phase::ReadAll) <==> job == Job::State || job == Job::Listen || job
            == Job::RawWrite,
        goes_through(job, Phase::Connect) <==> job == Job::Send || job == Job::Probe,
        goes_through(job, Phase::EnsureConnected) <==> job == Job::State || job == Job::Listen
            || job == Job::RawWrite,
{
    lemma_phases(job);
    let all = attempt::phases(job);
    assert(all.len() >= 3 && all[0] == all[0] && all[1] == all[1] && all[2] == all[2]);
    assert(all[3] == all[3] && all[4] == all[4] && all[5] == all[5] && all[6] == all[6]);
    assert(all[7] == all[7] && all[8] == all[8] && all[9] == all[9]);
}

/// What a phase needs comes before it: a characteristic is found before it is
/// written, notifications are asked for before they are waited for, and the
/// state is waited for once it has been requested. A phase is gone through once.
pub proof fn law_what_is_needed_comes_first(job: Job, i: int, k: int)
    requires
        0 <= i < attempt::phases(job).len(),
        0 <= k < attempt::phases(job).len(),
    ensures
        ({
            let phase = attempt::phases(job)[i];
            &&& phase != Phase::FindDevice ==> comes_before(job, Phase::FindDevice, i)
            &&& phase == Phase::WritePackets || phase == Phase::RequestState ==> comes_before(
                job,
                Phase::FindWritable,
                i,
            )
            &&& phase == Phase::WriteRaw ==> comes_before(job, Phase::FindByUuid, i)
            &&& phase == Phase::Subscribe ==> comes_before(job, Phase::FindNotifying, i)
                || comes_before(job, Phase::FindEndpoints, i)
            &&& phase == Phase::RequestState || phase == Phase::PrintValues || phase
                == Phase::WriteRaw ==> comes_before(job, Phase::Subscribe, i)
            &&& phase == Phase::AwaitState ==> i > 0 && attempt::phases(job)[i - 1]
                == Phase::RequestState
            &&& phase == Phase::PrintValues && job == Job::RawWrite ==> i > 0 && attempt::phases(
                job,
            )[i - 1] == Phase::WriteRaw
            &&& phase == Phase::Forget ==> comes_before(job, Phase::Disconnect, i)
            &&& i != k ==> phase != attempt::phases(job)[k]
        }),
{
    lemma_phases(job);
    let all = attempt::phases(job);
    assert(all.len() >= 3 && all[0] == all[0] && all[1] == all[1] && all[2] == all[2]);
    assert(all[3] == all[3] && all[4] == all[4] && all[5] == all[5] && all[6] == all[6]);
    assert(all[7] == all[7] && all[8] == all[8] && all[9] == all[9]);
}

/// A phase that succeeds is behind the attempt, one that fails ends it, and an
/// attempt that has ended does not change.
pub proof fn law_an_attempt_advances(before: Attempt, succeeded: bool)
    ensures
        ({
            let after = attempt::advanced(before, succeeded);
            let ended = before.done >= attempt::phases(before.job).len() || before.failed;
            &&& after.job == before.job
            &&& ended ==> after == before
            &&& !ended && succeeded ==> after.done == before.done + 1 && !after.failed
            &&& !ended && !succeeded ==> after.done == before.done && after.failed
            &&& attempt::step(before) is Perform <==> !ended
            &&& attempt::step(before) == Step::Succeed <==> before.done >= attempt::phases(
                before.job,
            ).len()
        }),
{
    lemma_phases(before.job);
}

/// That the state was being queried is said exactly if the connection is dropped
/// for it, and then the stored path is forgotten as well.
pub proof fn law_failed_queries(job: Job, phase: Phase)
    ensures
        ({
            let cleanup = attempt::cleanup_after(job, phase);
            &&& cleanup.while_querying == cleanup.disconnect
            &&& cleanup.disconnect ==> cleanup.forget
            &&& cleanup.disconnect ==> job == Job::State
        }),
{
}

/// A device that was found by its stored path is given the time that is meant
/// for it, and any other the time that is meant for calls.
pub proof fn law_time_for_calls(config: config::ConfigView)
    ensures
        attempt::call_seconds(config, true) == config.cached_connect_call_seconds,
        attempt::call_seconds(config, false) == config.connect_call_seconds,
{
}

/// What is printed before a phase. Nothing is said before most of them.
pub proof fn law_headings(job: Job, phase: Phase)
    ensures
        attempt::heading_text(job, phase) is Some <==> phase == Phase::ReportDevice || phase
            == Phase::RequestState || (phase == Phase::ReadAll && job != Job::State),
        phase == Phase::ReportDevice ==> attempt::heading_text(job, phase) == Some("live_state:"@),
        phase == Phase::RequestState ==> attempt::heading_text(job, phase) == Some(
            "request decoded floor state "@ + hex::hex_text(packet::get_state_packet()),
        ),
        phase == Phase::ReadAll && job != Job::State ==> attempt::heading_text(job, phase) == Some(
            "final readable values:"@,
        ),
{
    let bytes = packet::get_state_packet();
    reveal_strlit("request decoded floor state ");
    reveal_strlit("request decoded floor state 5f0100f5");
    reveal_with_fuel(hex::hex_text, 5);
    assert(bytes =~= seq![0x5fu8, 0x01, 0x00, 0xf5]);
    assert(hex::hex_text(bytes) =~= seq!['5', 'f', '0', '1', '0', '0', 'f', '5']);
    assert("request decoded floor state "@ + hex::hex_text(bytes)
        =~= "request decoded floor state 5f0100f5"@);
}

/// The message is always the last line, and the only one unless a state has been
/// stored and more is asked for.
pub proof fn law_lines_after_sending(stores: bool, message: Seq<char>, verbose: bool)
    ensures
        attempt::completion_lines(stores, message, verbose).last() == message,
        attempt::completion_lines(stores, message, verbose).len() == (if stores && verbose {
            2int
        } else {
            1
        }),
        stores && verbose ==> attempt::completion_lines(stores, message, verbose)[0]
            == "cached last-commanded state"@,
{
}

// -------------------------------------------------------------------- attempts

/// An attempt is announced with its number if everything is reported or more is
/// asked for, and not otherwise.
pub proof fn law_attempts_are_announced(verbose: bool, attempt: u32)
    ensures
        retry::announcement(Reporting::Full, verbose, attempt) is Some,
        retry::announcement(Reporting::Full, verbose, attempt) == retry::announcement(
            Reporting::Brief,
            true,
            attempt,
        ),
        retry::announcement(Reporting::Brief, false, attempt) is None,
        packet_laws::tells(
            retry::announcement(Reporting::Full, verbose, attempt)->0,
            "attempt "@,
            attempt as nat,
        ),
{
    packet_laws::lemma_tells("attempt "@, attempt as nat);
}

/// What a failed attempt is reported with: the whole reason after the last
/// attempt, or if everything is reported or more is asked for, and else the
/// short one. Either way the line says which attempt it was, and a short one of
/// how many.
pub proof fn law_failures_are_reported(
    reporting: Reporting,
    verbose: bool,
    attempt: u32,
    total: u32,
    brief: Seq<char>,
    full: Seq<char>,
)
    ensures
        ({
            let line = retry::failure_report(reporting, verbose, attempt, total, brief, full);
            let whole = reporting == Reporting::Full || verbose || attempt == total;
            &&& whole ==> exists|start: Seq<char>|
                packet_laws::tells(start, "attempt "@, attempt as nat) && line == #[trigger] (start
                    + " failed: "@) + full
            &&& !whole ==> exists|start: Seq<char>, of: Seq<char>|
                packet_laws::tells(start, "retrying after BLE error ("@, attempt as nat)
                    && packet_laws::tells(of, "/"@, total as nat) && line == #[trigger] (start + of)
                    + "): "@ + brief
        }),
{
    let whole = reporting == Reporting::Full || verbose || attempt == total;
    let line = retry::failure_report(reporting, verbose, attempt, total, brief, full);
    let n = crate::number::decimal(attempt as nat);
    if whole {
        packet_laws::lemma_tells("attempt "@, attempt as nat);
        let start = "attempt "@ + n;
        assert(line == (start + " failed: "@) + full);
    } else {
        packet_laws::lemma_tells("retrying after BLE error ("@, attempt as nat);
        packet_laws::lemma_tells("/"@, total as nat);
        let start = "retrying after BLE error ("@ + n;
        let of = "/"@ + crate::number::decimal(total as nat);
        assert(line =~= (start + of) + "): "@ + brief);
    }
}

/// How long is waited, and where.
pub proof fn law_times()
    ensures
        retry::RETRY_PAUSE_SECONDS == 2,
        connect::STATUS_SECONDS == 5,
        listen::STATE_SECONDS == 3,
        listen::PROCESS_MILLIS == 100,
        listen::POLL_PAUSE_MILLIS == 150,
        crate::write::WRITE_PAUSE_MILLIS == 250,
{
}

// --------------------------------------------------------------------- writing

/// A packet is handed to BlueZ as a command first and then as a request, and not
/// any more once it has been written or has failed.
pub proof fn law_how_a_packet_is_written(write: WriteOne, succeeded: bool)
    ensures
        crate::write::write_type(WriteOne::AsCommand) == Some("command"@),
        crate::write::write_type(WriteOne::AsRequest) == Some("request"@),
        crate::write::write_type(write) is None <==> write == WriteOne::Written || write
            == WriteOne::Failed,
        crate::write::write_type(write) is None <==> crate::write::after_call(write, true)
            == crate::write::after_call(write, false),
        crate::write::write_type(write) is Some ==> crate::write::after_call(write, true)
            == WriteOne::Written,
        crate::write::write_type(write) is None ==> crate::write::after_call(write, succeeded)
            == write,
{
}

/// No packet is skipped or repeated: a packet is followed by a pause once it has
/// been written, the pause by the next packet, and the last pause by the end, at
/// which the characteristic is read if more is asked for.
pub proof fn law_no_packet_is_skipped(index: usize, succeeded: bool, total: nat, verbose: bool)
    requires
        index < total <= usize::MAX,
    ensures
        crate::write::from_packet(0, total, verbose) == (WriteAll::Packet {
            index: 0,
            write: WriteOne::AsCommand,
        }),
        crate::write::from_packet(0, 0, verbose) == (if verbose {
            WriteAll::ReadBack
        } else {
            WriteAll::Written
        }),
        crate::write::after_step(
            WriteAll::Packet { index, write: WriteOne::AsCommand },
            succeeded,
            total,
            verbose,
        ) == (if succeeded {
            WriteAll::Pause { index }
        } else {
            WriteAll::Packet { index, write: WriteOne::AsRequest }
        }),
        crate::write::after_step(
            WriteAll::Packet { index, write: WriteOne::AsRequest },
            succeeded,
            total,
            verbose,
        ) == (if succeeded {
            WriteAll::Pause { index }
        } else {
            WriteAll::Failed { index }
        }),
        index + 1 < total ==> crate::write::after_step(
            WriteAll::Pause { index },
            succeeded,
            total,
            verbose,
        ) == (WriteAll::Packet { index: (index + 1) as usize, write: WriteOne::AsCommand }),
        index + 1 == total ==> crate::write::after_step(
            WriteAll::Pause { index },
            succeeded,
            total,
            verbose,
        ) == (if verbose {
            WriteAll::ReadBack
        } else {
            WriteAll::Written
        }),
        crate::write::after_step(WriteAll::ReadBack, succeeded, total, verbose)
            == WriteAll::Written,
        crate::write::after_step(WriteAll::Written, succeeded, total, verbose) == WriteAll::Written,
        crate::write::after_step(WriteAll::Failed { index }, succeeded, total, verbose)
            == (WriteAll::Failed { index }),
{
}

/// A value that has been read is printed in hexadecimal, so that two values are
/// printed differently, and a refusal with its reason.
pub proof fn law_readings(label: Seq<char>, bytes: Vec<u8>, others: Vec<u8>, reason: String)
    ensures
        crate::write::reading_text(label, Reading::Value(bytes)) == label + " "@ + hex::hex_text(
            bytes@,
        ),
        crate::write::reading_text(label, Reading::Refused(reason)) == label + " failed: "@
            + reason@,
        crate::write::reading_text(label, Reading::Value(bytes)) == crate::write::reading_text(
            label,
            Reading::Value(others),
        ) ==> bytes@ == others@,
{
    hex::lemma_hex_text(bytes@);
    hex::lemma_hex_text(others@);
    let start = label + " "@;
    let left = start + hex::hex_text(bytes@);
    let right = start + hex::hex_text(others@);
    if left == right {
        assert(left.skip(start.len() as int) =~= hex::hex_text(bytes@));
        assert(right.skip(start.len() as int) =~= hex::hex_text(others@));
    }
}

// ------------------------------------------------------------------ connecting

/// What is asked for at each point of connecting.
pub proof fn law_what_connecting_asks(
    progress: connect::Progress,
    event: ConnectEvent,
    seconds: u64,
)
    ensures
        ({
            let action = connect::action(progress);
            &&& action == ConnectAction::ReadConnected <==> progress is AskConnected
            &&& action == ConnectAction::ReadResolved <==> progress is AskServices
                || progress is AskResolved || progress is Poll
            &&& action == ConnectAction::LookForCharacteristics <==> progress is AskObjects
            &&& action == ConnectAction::CallConnect <==> progress is Call
            &&& action == ConnectAction::ReadClock <==> progress is Wait || progress is Report
            &&& action == ConnectAction::Pause <==> progress is Pause
            &&& action == ConnectAction::CallDisconnect <==> progress is Leave
            &&& action == ConnectAction::Stop <==> progress is Connected || progress is Failed
            &&& action == ConnectAction::Stop ==> connect::after(progress, event, seconds)
                == progress
        }),
{
}

/// Only what was asked for counts: a property is answered, the clock tells the
/// time, and the calls and the pause are done or refused. Anything else changes
/// nothing.
pub proof fn law_other_answers_do_not_count(
    progress: connect::Progress,
    event: ConnectEvent,
    seconds: u64,
)
    requires
        connect::after(progress, event, seconds) != progress,
    ensures
        match connect::action(progress) {
            ConnectAction::ReadConnected
            | ConnectAction::ReadResolved
            | ConnectAction::LookForCharacteristics => event is Answer,
            ConnectAction::CallConnect => event is Done || event is Refused,
            ConnectAction::ReadClock => event is Elapsed,
            ConnectAction::Pause | ConnectAction::CallDisconnect => event is Done,
            ConnectAction::Stop => false,
        },
{
}

/// The device counts as connected only by an answer that says yes.
pub proof fn law_connected_by_an_answer(
    progress: connect::Progress,
    event: ConnectEvent,
    seconds: u64,
)
    requires
        !(progress is Connected),
        connect::after(progress, event, seconds) is Connected,
    ensures
        event == ConnectEvent::Answer(Some(true)),
        progress is AskObjects || progress is AskResolved || progress is Poll,
        connect::after(progress, event, seconds) == (connect::Progress::Connected {
            before: if progress is AskObjects {
                None
            } else {
                Some(progress is AskResolved)
            },
        }),
{
}

/// The services are asked for again while there is time left, and not later. A
/// line is due when five more seconds have passed, one in each round.
pub proof fn law_waiting_for_services(lines: u64, elapsed: u64, seconds: u64)
    ensures
        connect::after(
            connect::Progress::Wait { lines },
            ConnectEvent::Elapsed(elapsed),
            seconds,
        ) is Poll <==> elapsed < seconds,
        connect::after(
            connect::Progress::Wait { lines },
            ConnectEvent::Elapsed(elapsed),
            seconds,
        ) is Leave <==> elapsed >= seconds,
        connect::after(
            connect::Progress::Report { lines },
            ConnectEvent::Elapsed(elapsed),
            seconds,
        ) == (connect::Progress::Pause {
            lines: if elapsed as int >= 5 * lines + 5 {
                (lines + 1) as u64
            } else {
                lines
            },
            due: elapsed as int >= 5 * lines + 5,
        }),
{
}

/// How long BlueZ is given for a call: little for a look, what is configured for
/// connecting, and five seconds to drop a connection.
pub proof fn law_time_for_connecting(progress: connect::Progress, call_seconds: u64)
    ensures
        progress is AskConnected || progress is AskServices ==> connect::timeout(
            progress,
            call_seconds,
        ) == 2,
        progress is AskObjects ==> connect::timeout(progress, call_seconds) == 10,
        connect::action(progress) == ConnectAction::CallDisconnect ==> connect::timeout(
            progress,
            call_seconds,
        ) == 5,
        connect::action(progress) == ConnectAction::CallConnect || progress is AskResolved
            || progress is Poll ==> connect::timeout(progress, call_seconds) == call_seconds,
{
}

/// What is said while connecting, and that nothing is said unless more is asked
/// for.
pub proof fn law_status_lines(progress: connect::Progress, lines: u64, due: bool)
    ensures
        connect::status(progress, false) is None,
        connect::status(connect::Progress::Connected { before: Some(true) }, true) == Some(
            "services already resolved"@,
        ),
        connect::status(connect::Progress::Connected { before: Some(false) }, true) == Some(
            "services resolved"@,
        ),
        connect::status(connect::Progress::Pause { lines, due }, true) == (if due {
            Some("waiting for GATT services"@)
        } else {
            None
        }),
        connect::status(progress, true) is Some ==> progress is Connected || progress is Pause,
        connect::status(connect::Progress::Connected { before: None }, true) is None,
{
}

// ------------------------------------------------------------------- searching

/// What is asked for at each point of the search. What is named is what was
/// found before.
pub proof fn law_what_the_search_asks(
    progress: search::Progress,
    event: SearchEvent,
    config: config::ConfigView,
)
    ensures
        ({
            let request = search::request(progress);
            &&& request == search::Request::RecallPath <==> progress is Recall
            &&& request == search::Request::ListObjects <==> progress is FindAdapter
                || progress is Look
            &&& request == search::Request::ReadClock <==> progress is Wait
            &&& request == search::Request::Pause <==> progress is Pause
            &&& request == search::Request::Stop <==> progress is Found || progress is Failed
            &&& request is StartDiscovery <==> progress is StartScan
            &&& request is StopDiscovery <==> progress is StopScan
            &&& request is StorePath <==> progress is Remember
            &&& request == search::Request::Stop ==> search::after(progress, event, config)
                == progress
        }),
{
}

/// Only what was asked for counts. Anything else changes nothing.
pub proof fn law_other_events_do_not_count(
    progress: search::Progress,
    event: SearchEvent,
    config: config::ConfigView,
)
    requires
        search::after(progress, event, config) != progress,
    ensures
        match search::request(progress) {
            search::Request::RecallPath => event is Recalled,
            search::Request::ListObjects => event is Objects,
            search::Request::ReadClock => event is Elapsed,
            search::Request::Stop => false,
            _ => event is Done,
        },
{
}

/// The adapter that scans is the first there is, and a search without one fails
/// for this reason.
pub proof fn law_the_first_adapter_scans(
    objects: Vec<ManagedObject>,
    config: config::ConfigView,
)
    ensures
        match search::after(
            search::Progress::FindAdapter,
            SearchEvent::Objects(objects),
            config,
        ) {
            search::Progress::StartScan { adapter } => exists|n: int|
                0 <= n < objects@.len() && (#[trigger] objects@[n]).path@ == adapter
                    && bluez::is_adapter(objects@[n]) && (forall|j: int|
                    0 <= j < n ==> !bluez::is_adapter(#[trigger] objects@[j])),
            search::Progress::Failed { error } => error == error::Failure::NoAdapter && forall|
                j: int,
            |
                0 <= j < objects@.len() ==> !bluez::is_adapter(#[trigger] objects@[j]),
            _ => false,
        },
{
    let condition = |object: ManagedObject| bluez::is_adapter(object);
    device_laws::law_the_first_is_chosen(objects@, condition);
    let chosen = bluez::first_object(objects@, condition);
    assert(search::first_adapter(objects@) == (match chosen {
        Some(object) => Some(object.path@),
        None => None,
    }));
    if chosen is Some {
        let n = choose|n: int|
            0 <= n < objects@.len() && #[trigger] objects@[n] == chosen->0 && condition(chosen->0)
                && (forall|j: int| 0 <= j < n ==> !condition(#[trigger] objects@[j]));
        assert forall|j: int| 0 <= j < n implies !bluez::is_adapter(#[trigger] objects@[j]) by {
            assert(!condition(objects@[j]));
        }
        assert(objects@[n].path@ == search::first_adapter(objects@)->0);
    } else {
        assert forall|j: int| 0 <= j < objects@.len() implies !bluez::is_adapter(
            #[trigger] objects@[j],
        ) by {
            assert(!condition(objects@[j]));
        }
    }
}

/// The lamp that a look at the objects finds is the first there is. If there is
/// none, the scan goes on after a pause.
pub proof fn law_the_first_lamp_is_seen(
    adapter: Seq<char>,
    objects: Vec<ManagedObject>,
    config: config::ConfigView,
)
    ensures
        match search::after(
            search::Progress::Look { adapter },
            SearchEvent::Objects(objects),
            config,
        ) {
            search::Progress::StopScan { adapter: scanning, chosen: Some(path) } => scanning
                == adapter && exists|n: int|
                0 <= n < objects@.len() && (#[trigger] objects@[n]).path@ == path
                    && bluez::is_lamp_object(objects@[n], config) && (forall|j: int|
                    0 <= j < n ==> !bluez::is_lamp_object(#[trigger] objects@[j], config)),
            search::Progress::Pause { adapter: scanning } => scanning == adapter && forall|j: int|
                0 <= j < objects@.len() ==> !bluez::is_lamp_object(
                    #[trigger] objects@[j],
                    config,
                ),
            _ => false,
        },
{
    let condition = |object: ManagedObject| bluez::is_lamp_object(object, config);
    device_laws::law_the_first_is_chosen(objects@, condition);
    let chosen = bluez::first_object(objects@, condition);
    assert(search::first_lamp(objects@, config) == (match chosen {
        Some(object) => Some(object.path@),
        None => None,
    }));
    if chosen is Some {
        let n = choose|n: int|
            0 <= n < objects@.len() && #[trigger] objects@[n] == chosen->0 && condition(chosen->0)
                && (forall|j: int| 0 <= j < n ==> !condition(#[trigger] objects@[j]));
        assert forall|j: int| 0 <= j < n implies !bluez::is_lamp_object(
            #[trigger] objects@[j],
            config,
        ) by {
            assert(!condition(objects@[j]));
        }
        assert(objects@[n].path@ == search::first_lamp(objects@, config)->0);
    } else {
        assert forall|j: int| 0 <= j < objects@.len() implies !bluez::is_lamp_object(
            #[trigger] objects@[j],
            config,
        ) by {
            assert(!condition(objects@[j]));
        }
    }
}

/// A lamp is found by its stored path, or by a scan and then only after its path
/// has been stored.
pub proof fn law_how_a_lamp_is_found(
    progress: search::Progress,
    event: SearchEvent,
    config: config::ConfigView,
)
    requires
        !(progress is Found),
        search::after(progress, event, config) is Found,
    ensures
        match search::after(progress, event, config) {
            search::Progress::Found { path, from_cache } => if from_cache {
                progress is Recall && (event matches SearchEvent::Recalled(Some(recalled))
                    && recalled@ == path)
            } else {
                search::request(progress) == search::Request::StorePath(path) && event
                    == SearchEvent::Done
            },
            _ => false,
        },
{
}

/// The objects are looked through again while there is time left, and not later.
pub proof fn law_how_long_is_scanned(
    adapter: Seq<char>,
    elapsed: u64,
    config: config::ConfigView,
)
    ensures
        search::after(search::Progress::Wait { adapter }, SearchEvent::Elapsed(elapsed), config)
            == (if elapsed < config.scan_seconds {
            search::Progress::Look { adapter }
        } else {
            search::Progress::StopScan { adapter, chosen: None }
        }),
{
}

/// Where the lamp was found is said if more is asked for, and then also whether
/// it was by its stored path.
pub proof fn law_what_is_said_of_a_found_lamp(path: Seq<char>, from_cache: bool)
    ensures
        search::found_lines(path, from_cache, false).len() == 0,
        search::found_lines(path, from_cache, true).last() == "found "@ + path,
        search::found_lines(path, false, true).len() == 1,
        search::found_lines(path, true, true) == seq!["using cached path "@ + path]
            + search::found_lines(path, false, true),
{
    assert(search::found_lines(path, true, true) =~= seq!["using cached path "@ + path]
        + search::found_lines(path, false, true));
}

// ------------------------------------------------------------------- listening

/// In a round each characteristic is read, in their order, and a value is read
/// before the next only where it does not end the poll.
pub proof fn law_each_characteristic_is_read(index: int, value: Option<Vec<u8>>, plan: PollPlan)
    requires
        0 <= index < plan.endpoints,
    ensures
        listen::after(listen::Progress::Process, PollEvent::Done, plan)
            == (listen::Progress::Read { index: 0 }),
        ({
            let after = listen::after(
                listen::Progress::Read { index },
                PollEvent::Value(value),
                plan,
            );
            if after is Decoded {
                plan.until_state
            } else if index + 1 < plan.endpoints {
                after == (listen::Progress::Read { index: index + 1 })
            } else {
                after == listen::Progress::Pause
            }
        }),
        listen::after(listen::Progress::Pause, PollEvent::Done, plan) == listen::Progress::Wait,
{
}

/// Where there is nothing to read, a round is a pause.
pub proof fn law_nothing_to_read(plan: PollPlan)
    requires
        plan.endpoints == 0,
    ensures
        listen::after(listen::Progress::Process, PollEvent::Done, plan) == listen::Progress::Pause,
{
}

/// A value ends the poll exactly if the state is waited for and the value holds
/// it, and it is this value that is kept.
pub proof fn law_what_ends_the_poll(index: int, value: Option<Vec<u8>>, plan: PollPlan)
    ensures
        ({
            let after = listen::after(
                listen::Progress::Read { index },
                PollEvent::Value(value),
                plan,
            );
            &&& after is Decoded <==> plan.until_state && value is Some && packet::live_floor_state(
                value->0@,
            ) is Some
            &&& after is Decoded ==> after == (listen::Progress::Decoded { value: value->0@ })
        }),
{
}

/// Only what was asked for counts. Anything else changes nothing.
pub proof fn law_other_poll_events_do_not_count(
    progress: listen::Progress,
    event: PollEvent,
    plan: PollPlan,
)
    requires
        listen::after(progress, event, plan) != progress,
    ensures
        progress is Wait ==> event is Elapsed,
        progress is Read ==> event is Value,
        progress is Process || progress is Pause ==> event is Done,
        !(progress is Over) && !(progress is Decoded),
{
}

/// What is reported of the state: the bytes and what they say where it came, and
/// one line where it did not.
pub proof fn law_the_state_is_reported(value: Seq<u8>, progress: listen::Progress)
    ensures
        packet::live_floor_state(value) matches Some(state) ==> listen::state_lines(
            listen::Progress::Decoded { value },
        ) == seq!["  raw_floor_state="@ + hex::hex_text(value)] + packet::live_floor_state_lines(
            state,
        ),
        !(progress is Decoded) ==> listen::state_lines(progress) == seq![
            "  decoded_floor_state=unavailable"@,
        ],
{
}

/// The first value of a characteristic is printed, whatever has been printed of
/// others.
pub proof fn law_a_first_value_is_printed(
    log: Map<Seq<char>, Seq<char>>,
    path: Seq<char>,
    value: Seq<u8>,
)
    requires
        !log.dom().contains(path),
    ensures
        listen::value_line(log, path, value) == Some(
            "value "@ + path + " "@ + hex::hex_text(value),
        ),
{
}

// ---------------------------------------------------------------------- errors

/// What is said of a failure names what failed.
pub proof fn law_failures_name_what_failed(
    key: Seq<char>,
    cause: NumberError,
    field: CachedField,
)
    ensures
        error::failure_message(error::Failure::BadNumber { key, cause }) == "parse "@ + key,
        error::failure_message(error::Failure::BadHexByte { piece: key }) == "parse hex byte "@
            + key,
        error::failure_message(error::Failure::CharacteristicNotFound { uuid: key })
            == "GATT characteristic not found for UUID "@ + key,
        error::failure_message(error::Failure::ConnectFailed { reason: key }) == "connect failed: "@
            + key,
        error::failure_message(error::Failure::CachedValueMissing { field }) == "cached "@
            + error::field_mode(field) + " mode is missing "@ + error::field_name(field)
            + " value"@,
        error::failure_cause(error::Failure::BadNumber { key, cause }) == Some(
            error::number_error_message(cause),
        ),
        error::failure_cause(error::Failure::BadHexByte { piece: key }) == Some(
            "invalid digit found in string"@,
        ),
{
}

/// Only numbers that cannot be read have a cause of their own.
pub proof fn law_which_failures_have_a_cause(failure: error::Failure)
    ensures
        error::failure_cause(failure) is Some <==> failure is BadNumber || failure is BadHexByte,
{
}

/// The values that a mode needs are named after it.
pub proof fn law_modes_and_their_values(field: CachedField)
    ensures
        error::field_mode(field) == "cw"@ <==> field == CachedField::Cw,
        error::field_mode(field) == "temp"@ <==> field == CachedField::Warm || field
            == CachedField::Cool,
        error::field_mode(field) == "rgb"@ <==> field == CachedField::Red || field
            == CachedField::Green || field == CachedField::Blue,
        error::field_name(field) == (match field {
            CachedField::Cw => "CW"@,
            CachedField::Red => "RED"@,
            CachedField::Green => "GREEN"@,
            CachedField::Blue => "BLUE"@,
            CachedField::Warm => "WARM"@,
            CachedField::Cool => "COOL"@,
        }),
{
    reveal_strlit("cw");
    reveal_strlit("temp");
    reveal_strlit("rgb");
    assert("cw"@.len() == 2 && "temp"@.len() == 4 && "rgb"@.len() == 3);
}

} // verus!
