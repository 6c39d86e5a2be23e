use keepsmile_lamp::attempt::{
    connect_call_seconds, fallback_line, heading, plan, reporting, run_succeeded, send_job, sent, Attempt, Cleanup,
    Completion, Job, Phase, Step,
};
use keepsmile_lamp::bluez::{Interface, ManagedObject, PropValue, Property};
use keepsmile_lamp::cache::{CachedLampState, SendJob};
use keepsmile_lamp::config::Config;
use keepsmile_lamp::connect::{Connect, ConnectAction, ConnectEvent};
use keepsmile_lamp::error::LampError;
use keepsmile_lamp::listen::{
    notify_line, subscribing_line, Poll, PollAction, PollEvent, PollPlan, ValueLog,
};
use keepsmile_lamp::retry::{attempt_line, failure_line, Reporting, Retry};
use keepsmile_lamp::search::{
    found_report, stored_path_text, DeviceTarget, Search, SearchAction, SearchEvent,
};
use keepsmile_lamp::write::{
    raw_write_line, read_characteristic, readback_characteristic, write_line, Reading, WriteAll,
    WriteOne,
};

fn config() -> Config {
    Config::load(Some("SCAN_SECONDS=2\n"), Some("/h")).unwrap()
}

fn retried(total: u32, outcomes: &[bool]) -> Retry {
    outcomes
        .iter()
        .fold(Retry::start(total), |retry, ok| retry.next(total, *ok))
}

#[test]
fn attempts_stop_at_the_first_success() {
    assert_eq!(retried(3, &[]), Retry::Attempting { attempt: 1 });
    assert_eq!(retried(3, &[false, false]), Retry::Attempting { attempt: 3 });
    assert_eq!(retried(3, &[false, true]), Retry::Succeeded);
    assert_eq!(retried(3, &[false, true, false, false]), Retry::Succeeded);
    assert_eq!(retried(3, &[false, false, false]), Retry::GaveUp);
    assert_eq!(retried(3, &[false, false, false, true]), Retry::GaveUp);
    assert_eq!(retried(0, &[]), Retry::GaveUp);
}

#[test]
fn attempts_are_reported_as_asked_for() {
    assert_eq!(attempt_line(Reporting::Brief, false, 1), None);
    assert_eq!(attempt_line(Reporting::Brief, true, 1), Some("attempt 1".to_string()));
    assert_eq!(attempt_line(Reporting::Full, false, 12), Some("attempt 12".to_string()));
    let line = |reporting, verbose, attempt| {
        failure_line(reporting, verbose, attempt, 3, "short", "short: because")
    };
    assert_eq!(
        line(Reporting::Brief, false, 2),
        "retrying after BLE error (2/3): short"
    );
    assert_eq!(line(Reporting::Brief, false, 3), "attempt 3 failed: short: because");
    assert_eq!(line(Reporting::Brief, true, 1), "attempt 1 failed: short: because");
    assert_eq!(line(Reporting::Full, false, 1), "attempt 1 failed: short: because");
    assert_eq!(reporting(Job::Send), Reporting::Brief);
    assert_eq!(reporting(Job::Disconnect), Reporting::Brief);
    assert_eq!(reporting(Job::State), Reporting::Full);
}

#[test]
fn jobs_have_their_phases() {
    assert_eq!(
        plan(Job::Send),
        vec![Phase::FindDevice, Phase::Connect, Phase::FindWritable, Phase::WritePackets]
    );
    assert_eq!(
        plan(Job::Disconnect),
        vec![Phase::FindDevice, Phase::Disconnect, Phase::Forget]
    );
    assert_eq!(plan(Job::Probe), vec![Phase::FindDevice, Phase::Connect, Phase::DumpGatt]);
    assert_eq!(plan(Job::State).len(), 10);
    assert_eq!(plan(Job::Listen)[2], Phase::FindEndpoints);
    assert_eq!(plan(Job::RawWrite)[5], Phase::WriteRaw);
    for job in [Job::Disconnect, Job::Probe, Job::Listen] {
        for phase in plan(job) {
            assert!(!matches!(
                phase,
                Phase::WritePackets | Phase::WriteRaw | Phase::RequestState
            ));
        }
    }
}

#[test]
fn phases_have_their_headings() {
    assert_eq!(heading(Job::State, Phase::ReportDevice), Some("live_state:"));
    assert_eq!(
        heading(Job::State, Phase::RequestState),
        Some("request decoded floor state 5f0100f5")
    );
    assert_eq!(heading(Job::State, Phase::ReadAll), None);
    assert_eq!(heading(Job::Listen, Phase::ReadAll), Some("final readable values:"));
    assert_eq!(heading(Job::RawWrite, Phase::ReadAll), Some("final readable values:"));
    assert_eq!(heading(Job::Send, Phase::Connect), None);
}

fn attempted(job: Job, outcomes: &[bool]) -> Step {
    outcomes
        .iter()
        .fold(Attempt::start(job), |attempt, ok| attempt.next(*ok))
        .step()
}

#[test]
fn an_attempt_goes_through_its_phases() {
    assert_eq!(attempted(Job::Send, &[]), Step::Perform(Phase::FindDevice));
    assert_eq!(attempted(Job::Send, &[true, true]), Step::Perform(Phase::FindWritable));
    assert_eq!(attempted(Job::Send, &[true; 4]), Step::Succeed);
    assert_eq!(attempted(Job::Send, &[true; 9]), Step::Succeed);
    let nothing = Cleanup { disconnect: false, forget: false, while_querying: false };
    let forget = Cleanup { forget: true, ..nothing };
    let query = Cleanup { disconnect: true, forget: true, while_querying: true };
    assert_eq!(attempted(Job::Send, &[false]), Step::Fail(nothing));
    assert_eq!(attempted(Job::Send, &[true, false]), Step::Fail(forget));
    assert_eq!(attempted(Job::Send, &[true, false, true]), Step::Fail(forget));
    assert_eq!(attempted(Job::Send, &[true, true, false]), Step::Fail(nothing));
    assert_eq!(attempted(Job::Probe, &[true, false]), Step::Fail(forget));
    assert_eq!(attempted(Job::State, &[true, true, false]), Step::Fail(forget));
    assert_eq!(attempted(Job::State, &[true, true, true, false]), Step::Fail(query));
    assert_eq!(
        attempted(Job::State, &[true, true, true, true, true, true, true, false]),
        Step::Fail(query)
    );
    assert_eq!(
        attempted(Job::State, &[true, true, true, true, true, true, true, true, false]),
        Step::Fail(nothing)
    );
    assert_eq!(attempted(Job::Listen, &[true, false]), Step::Fail(nothing));
    assert_eq!(attempted(Job::RawWrite, &[true, false]), Step::Fail(nothing));
}

#[test]
fn the_stored_state_stands_in_only_for_the_state() {
    assert!(run_succeeded(Job::State, Retry::GaveUp, true));
    assert!(!run_succeeded(Job::State, Retry::GaveUp, false));
    assert!(!run_succeeded(Job::Probe, Retry::GaveUp, true));
    assert!(run_succeeded(Job::Send, Retry::Succeeded, false));
    assert_eq!(
        fallback_line(Job::State, Retry::GaveUp, "x: y"),
        Some("live_state unavailable: x: y".to_string())
    );
    assert_eq!(fallback_line(Job::State, Retry::Succeeded, "x"), None);
    assert_eq!(fallback_line(Job::Listen, Retry::GaveUp, "x"), None);
}

#[test]
fn a_state_is_stored_only_after_success() {
    let send = SendJob {
        commands: Vec::new(),
        state: Some(CachedLampState { cw: Some(4), ..CachedLampState::default() }),
        message: "ok".to_string(),
    };
    assert_eq!(
        sent(&send, Retry::Succeeded, true),
        Some(Completion {
            stored: Some("CW=4\n".to_string()),
            lines: vec!["cached last-commanded state".to_string(), "ok".to_string()],
        })
    );
    assert_eq!(sent(&send, Retry::Succeeded, false).unwrap().lines, vec!["ok"]);
    assert_eq!(sent(&send, Retry::GaveUp, true), None);
    assert_eq!(send_job(&send), Job::Disconnect);
    let send = SendJob { state: None, commands: vec![vec![1]], ..send };
    assert_eq!(send_job(&send), Job::Send);
    assert_eq!(
        sent(&send, Retry::Succeeded, true),
        Some(Completion { stored: None, lines: vec!["ok".to_string()] })
    );
}

#[test]
fn a_device_known_from_its_path_gets_less_time() {
    assert_eq!(connect_call_seconds(&config(), true), 5);
    assert_eq!(connect_call_seconds(&config(), false), 12);
}

fn late_error() -> Connect {
    Connect::Leave { error: LampError::ServicesNotResolved }
}

fn connecting(start: Connect, events: Vec<ConnectEvent>) -> Connect {
    events.into_iter().fold(start, |connect, event| connect.next(event, 10))
}

const YES: ConnectEvent = ConnectEvent::Answer(Some(true));
const NO: ConnectEvent = ConnectEvent::Answer(Some(false));
const UNKNOWN: ConnectEvent = ConnectEvent::Answer(None);

#[test]
fn a_ready_device_is_not_told_to_connect() {
    let known = connecting(Connect::connect_device(), vec![YES]);
    assert_eq!(known.action(), ConnectAction::Stop);
    assert_eq!(known.status_line(true), Some("services already resolved"));
    assert_eq!(known.status_line(false), None);
    let ready = connecting(Connect::ensure_connected_or_gatt(), vec![YES, YES, YES]);
    assert_eq!(ready, Connect::Connected { before: None });
    assert_eq!(ready.status_line(true), None);
    for events in [vec![NO, YES], vec![YES, UNKNOWN], vec![UNKNOWN, NO], vec![YES, YES, NO]] {
        let then = connecting(Connect::ensure_connected_or_gatt(), events);
        assert_eq!(then, Connect::AskResolved);
    }
    assert_eq!(
        Connect::ensure_connected_or_gatt().action(),
        ConnectAction::ReadConnected
    );
}

#[test]
fn a_refused_connection_is_dropped() {
    let refused = connecting(
        Connect::connect_device(),
        vec![UNKNOWN, ConnectEvent::Refused("busy".to_string())],
    );
    assert_eq!(refused.action(), ConnectAction::CallDisconnect);
    assert_eq!(
        refused.next(ConnectEvent::Done, 10),
        Connect::Failed { error: LampError::ConnectFailed { reason: "busy".to_string() } }
    );
}

#[test]
fn services_are_waited_for() {
    let waiting = connecting(Connect::connect_device(), vec![NO, ConnectEvent::Done]);
    assert_eq!(waiting.action(), ConnectAction::ReadClock);
    let quiet = connecting(
        waiting,
        vec![ConnectEvent::Elapsed(0), NO, ConnectEvent::Elapsed(4)],
    );
    assert_eq!(quiet.action(), ConnectAction::Pause);
    assert_eq!(quiet.status_line(true), None);
    let loud = connecting(
        quiet,
        vec![ConnectEvent::Done, ConnectEvent::Elapsed(5), NO, ConnectEvent::Elapsed(5)],
    );
    assert_eq!(loud.status_line(true), Some("waiting for GATT services"));
    assert_eq!(loud.status_line(false), None);
    let again = connecting(
        loud,
        vec![ConnectEvent::Done, ConnectEvent::Elapsed(6), NO, ConnectEvent::Elapsed(9)],
    );
    assert_eq!(again.status_line(true), None);
    let polling = connecting(again, vec![ConnectEvent::Done, ConnectEvent::Elapsed(9)]);
    assert_eq!(polling.action(), ConnectAction::ReadResolved);
    let resolved = polling.next(YES, 10);
    assert_eq!(resolved.status_line(true), Some("services resolved"));
}

#[test]
fn services_that_do_not_come_are_given_up() {
    let late = connecting(
        Connect::connect_device(),
        vec![NO, ConnectEvent::Done, ConnectEvent::Elapsed(10)],
    );
    assert_eq!(late.action(), ConnectAction::CallDisconnect);
    assert_eq!(
        late.next(ConnectEvent::Done, 10),
        Connect::Failed { error: LampError::ServicesNotResolved }
    );
    assert_eq!(Connect::Call.next(YES, 10), Connect::Call);
    assert_eq!(Connect::AskObjects.next(UNKNOWN, 10), Connect::AskObjects);
    assert_eq!(Connect::AskObjects.action(), ConnectAction::LookForCharacteristics);
    assert_eq!(Connect::Call.action(), ConnectAction::CallConnect);
    assert_eq!(Connect::AskConnected.timeout_seconds(12), 2);
    assert_eq!(Connect::AskServices { connected: true }.timeout_seconds(12), 2);
    assert_eq!(Connect::AskObjects.timeout_seconds(12), 10);
    assert_eq!(late_error().timeout_seconds(12), 5);
    assert_eq!(Connect::Call.timeout_seconds(12), 12);
}

fn named(path: &str, interface: &str, name: &str) -> ManagedObject {
    ManagedObject {
        path: path.to_string(),
        interfaces: vec![Interface {
            name: interface.to_string(),
            props: vec![Property {
                name: "Name".to_string(),
                value: PropValue {
                    text: Some(name.to_string()),
                    int: None,
                    uint: None,
                    items: None,
                },
            }],
        }],
    }
}

fn adapter() -> ManagedObject {
    named("/hci0", "org.bluez.Adapter1", "adapter")
}

fn searching(events: Vec<SearchEvent>) -> Search {
    let config = config();
    events
        .into_iter()
        .fold(Search::find_device(), |search, event| search.next(event, &config))
}

#[test]
fn a_stored_lamp_needs_no_scan() {
    assert_eq!(Search::find_device().action(), SearchAction::RecallPath);
    let found = searching(vec![SearchEvent::Recalled(Some("/d".to_string()))]);
    assert_eq!(
        found,
        Search::Found {
            target: DeviceTarget { path: "/d".to_string(), from_cache: true }
        }
    );
    assert_eq!(found.action(), SearchAction::Stop);
}

#[test]
fn a_scan_finds_the_lamp() {
    let scanning = searching(vec![
        SearchEvent::Recalled(None),
        SearchEvent::Objects(vec![adapter()]),
    ]);
    assert_eq!(scanning.action(), SearchAction::StartDiscovery("/hci0"));
    let looking = searching(vec![
        SearchEvent::Recalled(None),
        SearchEvent::Objects(vec![adapter()]),
        SearchEvent::Done,
        SearchEvent::Elapsed(0),
        SearchEvent::Objects(vec![adapter()]),
        SearchEvent::Done,
        SearchEvent::Elapsed(1),
    ]);
    assert_eq!(looking.action(), SearchAction::ListObjects);
    let seen = looking.next(
        SearchEvent::Objects(vec![
            named("/x", "org.bluez.Device1", "phone"),
            named("/d", "org.bluez.Device1", "KS05"),
        ]),
        &config(),
    );
    assert_eq!(seen.action(), SearchAction::StopDiscovery("/hci0"));
    let stopped = seen.next(SearchEvent::Done, &config());
    assert_eq!(stopped.action(), SearchAction::StorePath("/d"));
    assert_eq!(
        stopped.next(SearchEvent::Done, &config()),
        Search::Found {
            target: DeviceTarget { path: "/d".to_string(), from_cache: false }
        }
    );
}

#[test]
fn a_scan_ends_in_time() {
    let late = searching(vec![
        SearchEvent::Recalled(None),
        SearchEvent::Objects(vec![adapter()]),
        SearchEvent::Done,
        SearchEvent::Elapsed(2),
    ]);
    assert_eq!(late.action(), SearchAction::StopDiscovery("/hci0"));
    assert_eq!(
        late.next(SearchEvent::Done, &config()),
        Search::Failed { error: LampError::LampNotFound }
    );
    assert_eq!(
        searching(vec![SearchEvent::Recalled(None), SearchEvent::Objects(vec![])]),
        Search::Failed { error: LampError::NoAdapter }
    );
    assert_eq!(searching(vec![SearchEvent::Done]), Search::Recall);
}

#[test]
fn the_found_lamp_is_reported_and_stored() {
    let target = DeviceTarget { path: "/d".to_string(), from_cache: true };
    assert_eq!(found_report(&target, true), vec!["using cached path /d", "found /d"]);
    assert!(found_report(&target, false).is_empty());
    let target = DeviceTarget { from_cache: false, ..target };
    assert_eq!(found_report(&target, true), vec!["found /d"]);
    assert_eq!(stored_path_text("/d"), "/d\n");
}

#[test]
fn a_packet_is_a_command_or_else_a_request() {
    let start = WriteOne::write_one_command();
    assert_eq!(start.option(), Some("command"));
    assert_eq!(start.next(true), WriteOne::Written);
    assert_eq!(start.next(false).option(), Some("request"));
    assert_eq!(start.next(false).next(true), WriteOne::Written);
    assert_eq!(start.next(false).next(false), WriteOne::Failed);
    assert_eq!(WriteOne::Failed.next(true), WriteOne::Failed);
    assert_eq!(WriteOne::Written.option(), None);
}

#[test]
fn packets_are_written_one_after_the_other() {
    let packets = vec![vec![1], vec![2]];
    let written = |outcomes: &[bool], verbose: bool| {
        outcomes.iter().fold(
            WriteAll::write_commands(&packets, verbose),
            |write, ok| write.next(*ok, &packets, verbose),
        )
    };
    let command = WriteOne::AsCommand;
    assert_eq!(written(&[], false), WriteAll::Packet { index: 0, write: command });
    assert_eq!(written(&[true], false), WriteAll::Pause { index: 0 });
    assert_eq!(written(&[true, true], false), WriteAll::Packet { index: 1, write: command });
    assert_eq!(written(&[true; 4], false), WriteAll::Written);
    assert_eq!(written(&[true; 4], true), WriteAll::ReadBack);
    assert_eq!(written(&[true; 5], true), WriteAll::Written);
    assert_eq!(
        written(&[true, true, false], false),
        WriteAll::Packet { index: 1, write: WriteOne::AsRequest }
    );
    assert_eq!(written(&[true, true, false, false], false), WriteAll::Failed { index: 1 });
    assert_eq!(written(&[false, false, true], false), WriteAll::Failed { index: 0 });
}

#[test]
fn writes_and_reads_are_reported() {
    assert_eq!(write_line(&[0x5F, 1]), "write 5f01");
    assert_eq!(raw_write_line("u", &[255]), "raw write u ff");
    let value = Reading::Value(vec![10, 11]);
    let refused = Reading::Refused("no".to_string());
    assert_eq!(read_characteristic(&value), "  read 0a0b");
    assert_eq!(read_characteristic(&refused), "  read failed: no");
    assert_eq!(
        readback_characteristic(true, Some(&value)),
        Some("readback 0a0b".to_string())
    );
    assert_eq!(
        readback_characteristic(true, Some(&refused)),
        Some("readback failed: no".to_string())
    );
    assert_eq!(
        readback_characteristic(false, None),
        Some("readback unavailable: characteristic lacks read flag".to_string())
    );
    assert_eq!(readback_characteristic(true, None), None);
}

fn state_packet() -> Vec<u8> {
    vec![0x5F, 0x02, 2, 0, 0, 0, 0, 9, 50, 60, 128, 0xF0, 0x0F]
}

#[test]
fn the_state_is_waited_for() {
    let plan = PollPlan::query_live_floor_state(2);
    assert_eq!(plan.seconds, 3);
    let polled = |events: Vec<PollEvent>| {
        events.into_iter().fold(Poll::start(), |poll, event| poll.next(event, &plan))
    };
    assert_eq!(polled(vec![]).action(), PollAction::ReadClock);
    assert_eq!(polled(vec![PollEvent::Elapsed(2)]).action(), PollAction::Process);
    let reading = polled(vec![
        PollEvent::Elapsed(0),
        PollEvent::Done,
        PollEvent::Value(None),
        PollEvent::Value(Some(vec![1])),
    ]);
    assert_eq!(reading.action(), PollAction::Pause);
    assert_eq!(reading.next(PollEvent::Done, &plan).action(), PollAction::ReadClock);
    let decoded = polled(vec![
        PollEvent::Elapsed(0),
        PollEvent::Done,
        PollEvent::Value(Some(vec![1])),
        PollEvent::Value(Some(state_packet())),
    ]);
    assert_eq!(decoded.action(), PollAction::Stop);
    let report = decoded.state_report();
    assert_eq!(report[0], "  raw_floor_state=5f02020000000009323c80f00f");
    assert_eq!(report[1], "  decoded_floor_state=available");
    assert_eq!(report[2], "  top=on");
    assert_eq!(report[10], "  speed=40");
    let over = polled(vec![PollEvent::Elapsed(3)]);
    assert_eq!(over.action(), PollAction::Stop);
    assert_eq!(over.state_report(), vec!["  decoded_floor_state=unavailable"]);
}

#[test]
fn listening_does_not_end_at_the_state() {
    let plan = PollPlan::listen_for_values(1, 60);
    let poll = Poll::start()
        .next(PollEvent::Elapsed(59), &plan)
        .next(PollEvent::Done, &plan);
    assert_eq!(poll.action(), PollAction::ReadValue { index: 0 });
    let poll = poll.next(PollEvent::Value(Some(state_packet())), &plan);
    assert_eq!(poll.action(), PollAction::Pause);
    let none = PollPlan::listen_for_values(0, 60);
    let poll = Poll::start()
        .next(PollEvent::Elapsed(0), &none)
        .next(PollEvent::Done, &none);
    assert_eq!(poll, Poll::Pause);
    assert_eq!(Poll::Over.next(PollEvent::Done, &none), Poll::Over);
}

#[test]
fn values_are_printed_when_they_change() {
    let log = ValueLog::new();
    let (log, line) = log.observe("/c", &[1]);
    assert_eq!(line, Some("value /c 01".to_string()));
    let (log, line) = log.observe("/c", &[1]);
    assert_eq!(line, None);
    let (log, line) = log.observe("/e", &[1]);
    assert_eq!(line, Some("value /e 01".to_string()));
    let (log, line) = log.observe("/c", &[2]);
    assert_eq!(line, Some("value /c 02".to_string()));
    let (log, line) = log.observe("/e", &[1]);
    assert_eq!(line, None);
    let (_, line) = log.observe("/c", &[1]);
    assert_eq!(line, Some("value /c 01".to_string()));
}

#[test]
fn notifications_are_announced() {
    assert_eq!(subscribing_line(12), "subscribing to 12 notify endpoints");
    assert_eq!(notify_line("/c", None), "notify started /c");
    assert_eq!(notify_line("/c", Some("no")), "notify start failed /c: no");
}
