//! Connecting to the lamp: what is asked of BlueZ, how long its services are
//! waited for, and when the connection is dropped again.

use crate::error;
use crate::error::LampError;
use crate::text;
use vstd::prelude::*;

verus! {

/// The time between two lines that say what is waited for, in seconds.
pub const STATUS_SECONDS: u64 = 5;

/// How far the connection has come.
#[derive(Debug, PartialEq, Eq)]
pub enum Connect {
    /// The device is asked whether it is connected.
    AskConnected,
    /// The device is asked whether its services are known as well.
    AskServices { connected: bool },
    /// The objects of the device are looked through for characteristics.
    AskObjects,
    /// The device is asked whether its services are known already.
    AskResolved,
    /// The device is told to connect.
    Call,
    /// It is looked whether there is time left. So many lines have said what is
    /// waited for.
    Wait { lines: u64 },
    /// The device is asked whether its services are known by now.
    Poll { lines: u64 },
    /// It is looked whether another line is due.
    Report { lines: u64 },
    /// There is a pause before the next look, and a line if it is due.
    Pause { lines: u64, due: bool },
    /// The connection is dropped.
    Leave { error: LampError },
    /// The device is connected and its services are known. They were known
    /// before, or became so.
    Connected { before: Option<bool> },
    /// The device could not be connected.
    Failed { error: LampError },
}

/// What is to be done next.
#[derive(Clone, Copy, Debug, PartialEq, Eq, Structural)]
pub enum ConnectAction {
    /// Read the device's `Connected` property.
    ReadConnected,
    /// Read the device's `ServicesResolved` property.
    ReadResolved,
    /// Look for GATT characteristics among the objects of the device.
    LookForCharacteristics,
    /// Call the device's `Connect` method.
    CallConnect,
    /// Look how much time has passed since that call.
    ReadClock,
    /// Pause for a second.
    Pause,
    /// Call the device's `Disconnect` method.
    CallDisconnect,
    /// Nothing: the connection has been made, or has failed.
    Stop,
}

/// What came of it.
#[derive(Debug, PartialEq, Eq)]
pub enum ConnectEvent {
    /// A property said yes or no or could not be read, or a look at the objects
    /// said yes or no.
    Answer(Option<bool>),
    /// So many whole seconds have passed.
    Elapsed(u64),
    /// It is done.
    Done,
    /// The call failed.
    Refused(String),
}

/// A `Connect` with its error as a view.
#[verifier::ext_equal]
pub ghost enum Progress {
    AskConnected,
    AskServices { connected: bool },
    AskObjects,
    AskResolved,
    Call,
    Wait { lines: u64 },
    Poll { lines: u64 },
    Report { lines: u64 },
    Pause { lines: u64, due: bool },
    Leave { error: error::Failure },
    Connected { before: Option<bool> },
    Failed { error: error::Failure },
}

impl View for Connect {
    type V = Progress;

    open spec fn view(&self) -> Progress {
        match *self {
            Connect::AskConnected => Progress::AskConnected,
            Connect::AskServices { connected } => Progress::AskServices { connected },
            Connect::AskObjects => Progress::AskObjects,
            Connect::AskResolved => Progress::AskResolved,
            Connect::Call => Progress::Call,
            Connect::Wait { lines } => Progress::Wait { lines },
            Connect::Poll { lines } => Progress::Poll { lines },
            Connect::Report { lines } => Progress::Report { lines },
            Connect::Pause { lines, due } => Progress::Pause { lines, due },
            Connect::Leave { error } => Progress::Leave { error: error@ },
            Connect::Connected { before } => Progress::Connected { before },
            Connect::Failed { error } => Progress::Failed { error: error@ },
        }
    }
}

/// What is to be done next.
pub open spec fn action(progress: Progress) -> ConnectAction {
    match progress {
        Progress::AskConnected => ConnectAction::ReadConnected,
        Progress::AskServices { .. } | Progress::AskResolved | Progress::Poll { .. } =>
            ConnectAction::ReadResolved,
        Progress::AskObjects => ConnectAction::LookForCharacteristics,
        Progress::Call => ConnectAction::CallConnect,
        Progress::Wait { .. } | Progress::Report { .. } => ConnectAction::ReadClock,
        Progress::Pause { .. } => ConnectAction::Pause,
        Progress::Leave { .. } => ConnectAction::CallDisconnect,
        Progress::Connected { .. } | Progress::Failed { .. } => ConnectAction::Stop,
    }
}

/// How far the connection is after an event, if the services are waited for so
/// many seconds. An event that answers something else changes nothing.
pub open spec fn after(progress: Progress, event: ConnectEvent, seconds: u64) -> Progress {
    match (progress, event) {
        (Progress::AskConnected, ConnectEvent::Answer(answer)) => Progress::AskServices {
            connected: answer == Some(true),
        },
        (Progress::AskServices { connected }, ConnectEvent::Answer(answer)) => if connected
            && answer == Some(true) {
            Progress::AskObjects
        } else {
            Progress::AskResolved
        },
        (Progress::AskObjects, ConnectEvent::Answer(Some(answer))) => if answer {
            Progress::Connected { before: None }
        } else {
            Progress::AskResolved
        },
        (Progress::AskResolved, ConnectEvent::Answer(answer)) => if answer == Some(true) {
            Progress::Connected { before: Some(true) }
        } else {
            Progress::Call
        },
        (Progress::Call, ConnectEvent::Done) => Progress::Wait { lines: 0 },
        (Progress::Call, ConnectEvent::Refused(reason)) => Progress::Leave {
            error: error::Failure::ConnectFailed { reason: reason@ },
        },
        (Progress::Wait { lines }, ConnectEvent::Elapsed(elapsed)) => if elapsed < seconds {
            Progress::Poll { lines }
        } else {
            Progress::Leave { error: error::Failure::ServicesNotResolved }
        },
        (Progress::Poll { lines }, ConnectEvent::Answer(answer)) => if answer == Some(true) {
            Progress::Connected { before: Some(false) }
        } else {
            Progress::Report { lines }
        },
        (Progress::Report { lines }, ConnectEvent::Elapsed(elapsed)) => if elapsed
            >= STATUS_SECONDS * (lines + 1) {
            Progress::Pause { lines: (lines + 1) as u64, due: true }
        } else {
            Progress::Pause { lines, due: false }
        },
        (Progress::Pause { lines, .. }, ConnectEvent::Done) => Progress::Wait { lines },
        (Progress::Leave { error }, ConnectEvent::Done) => Progress::Failed { error },
        _ => progress,
    }
}

/// How far the connection is after a number of events.
pub open spec fn after_events(
    progress: Progress,
    events: Seq<ConnectEvent>,
    seconds: u64,
) -> Progress
    decreases events.len(),
{
    if events.len() == 0 {
        progress
    } else {
        after(after_events(progress, events.drop_last(), seconds), events.last(), seconds)
    }
}

/// The time that BlueZ is given for the next call, in seconds, if it is given
/// `call_seconds` while connecting.
pub open spec fn timeout(progress: Progress, call_seconds: u64) -> u64 {
    match progress {
        Progress::AskConnected | Progress::AskServices { .. } => 2,
        Progress::AskObjects => 10,
        Progress::Leave { .. } => 5,
        _ => call_seconds,
    }
}

/// What is said about how far the connection has come, if more is asked for.
pub open spec fn status(progress: Progress, verbose: bool) -> Option<Seq<char>> {
    match progress {
        Progress::Connected { before: Some(true) } if verbose => Some(
            "services already resolved"@,
        ),
        Progress::Connected { before: Some(false) } if verbose => Some("services resolved"@),
        Progress::Pause { due: true, .. } if verbose => Some("waiting for GATT services"@),
        _ => None,
    }
}

impl Connect {
    /// Connects to the device.
    pub fn connect_device() -> (r: Connect)
        ensures
            r@ == Progress::AskResolved,
    {
        Connect::AskResolved
    }

    /// Connects to the device unless it is connected, its services are known and
    /// it has characteristics.
    pub fn ensure_connected_or_gatt() -> (r: Connect)
        ensures
            r@ == Progress::AskConnected,
    {
        Connect::AskConnected
    }

    /// What is to be done next.
    pub fn action(&self) -> (r: ConnectAction)
        ensures
            r == action(self@),
    {
        match self {
            Connect::AskConnected => ConnectAction::ReadConnected,
            Connect::AskServices { .. } | Connect::AskResolved | Connect::Poll { .. } =>
                ConnectAction::ReadResolved,
            Connect::AskObjects => ConnectAction::LookForCharacteristics,
            Connect::Call => ConnectAction::CallConnect,
            Connect::Wait { .. } | Connect::Report { .. } => ConnectAction::ReadClock,
            Connect::Pause { .. } => ConnectAction::Pause,
            Connect::Leave { .. } => ConnectAction::CallDisconnect,
            Connect::Connected { .. } | Connect::Failed { .. } => ConnectAction::Stop,
        }
    }

    /// The time that BlueZ is given for the next call, in seconds.
    pub fn timeout_seconds(&self, call_seconds: u64) -> (r: u64)
        ensures
            r == timeout(self@, call_seconds),
    {
        match self {
            Connect::AskConnected | Connect::AskServices { .. } => 2,
            Connect::AskObjects => 10,
            Connect::Leave { .. } => 5,
            _ => call_seconds,
        }
    }

    /// How far the connection is after an event.
    pub fn next(self, event: ConnectEvent, seconds: u64) -> (r: Connect)
        ensures
            r@ == after(self@, event, seconds),
    {
        match (self, event) {
            (Connect::AskConnected, ConnectEvent::Answer(answer)) => Connect::AskServices {
                connected: answer == Some(true),
            },
            (Connect::AskServices { connected }, ConnectEvent::Answer(answer)) => if connected
                && answer == Some(true) {
                Connect::AskObjects
            } else {
                Connect::AskResolved
            },
            (Connect::AskObjects, ConnectEvent::Answer(Some(answer))) => if answer {
                Connect::Connected { before: None }
            } else {
                Connect::AskResolved
            },
            (Connect::AskResolved, ConnectEvent::Answer(answer)) => if answer == Some(true) {
                Connect::Connected { before: Some(true) }
            } else {
                Connect::Call
            },
            (Connect::Call, ConnectEvent::Done) => Connect::Wait { lines: 0 },
            (Connect::Call, ConnectEvent::Refused(reason)) => Connect::Leave {
                error: LampError::ConnectFailed { reason },
            },
            (Connect::Wait { lines }, ConnectEvent::Elapsed(elapsed)) => if elapsed < seconds {
                Connect::Poll { lines }
            } else {
                Connect::Leave { error: LampError::ServicesNotResolved }
            },
            (Connect::Poll { lines }, ConnectEvent::Answer(answer)) => if answer == Some(true) {
                Connect::Connected { before: Some(false) }
            } else {
                Connect::Report { lines }
            },
            (Connect::Report { lines }, ConnectEvent::Elapsed(elapsed)) => if elapsed
                / STATUS_SECONDS > lines {
                Connect::Pause { lines: lines + 1, due: true }
            } else {
                Connect::Pause { lines, due: false }
            },
            (Connect::Pause { lines, .. }, ConnectEvent::Done) => Connect::Wait { lines },
            (Connect::Leave { error }, ConnectEvent::Done) => Connect::Failed { error },
            (unchanged, _) => unchanged,
        }
    }

    /// What is said about how far the connection has come, if more is asked for.
    pub fn status_line(&self, verbose: bool) -> (r: Option<&'static str>)
        ensures
            text::opt_str(r) == status(self@, verbose),
    {
        if !verbose {
            return None;
        }
        match self {
            Connect::Connected { before: Some(true) } => Some("services already resolved"),
            Connect::Connected { before: Some(false) } => Some("services resolved"),
            Connect::Pause { due: true, .. } => Some("waiting for GATT services"),
            _ => None,
        }
    }
}

// ----------------------------------------------------------------------- laws

/// One round of waiting: a look at the clock, the device's answer, a second
/// look at the clock, and a pause.
pub ghost struct Round {
    pub elapsed: u64,
    pub answer: Option<bool>,
    pub elapsed_then: u64,
}

/// The events of a number of rounds.
pub open spec fn round_events(rounds: Seq<Round>) -> Seq<ConnectEvent>
    decreases rounds.len(),
{
    if rounds.len() == 0 {
        Seq::empty()
    } else {
        round_events(rounds.drop_last()) + seq![
            ConnectEvent::Elapsed(rounds.last().elapsed),
            ConnectEvent::Answer(rounds.last().answer),
            ConnectEvent::Elapsed(rounds.last().elapsed_then),
            ConnectEvent::Done,
        ]
    }
}

/// The number of lines that have been said after a number of rounds: in each
/// round one more, if it is due.
pub open spec fn lines_after(rounds: Seq<Round>) -> int
    decreases rounds.len(),
{
    if rounds.len() == 0 {
        0
    } else {
        let before = lines_after(rounds.drop_last());
        if rounds.last().elapsed_then >= STATUS_SECONDS * (before + 1) {
            before + 1
        } else {
            before
        }
    }
}

/// In every round there was time left and the services were not known.
pub open spec fn all_in_vain(rounds: Seq<Round>, seconds: u64) -> bool {
    forall|i: int|
        0 <= i < rounds.len() ==> (#[trigger] rounds[i]).elapsed < seconds && rounds[i].answer
            != Some(true)
}

proof fn lemma_after_events_append(
    progress: Progress,
    first: Seq<ConnectEvent>,
    then: Seq<ConnectEvent>,
    seconds: u64,
)
    ensures
        after_events(progress, first + then, seconds) == after_events(
            after_events(progress, first, seconds),
            then,
            seconds,
        ),
    decreases then.len(),
{
    if then.len() == 0 {
        assert(first + then =~= first);
    } else {
        lemma_after_events_append(progress, first, then.drop_last(), seconds);
        assert((first + then).drop_last() =~= first + then.drop_last());
        assert((first + then).last() == then.last());
    }
}

proof fn lemma_rounds(rounds: Seq<Round>, seconds: u64)
    requires
        all_in_vain(rounds, seconds),
    ensures
        0 <= lines_after(rounds) <= u64::MAX,
        after_events(Progress::Wait { lines: 0 }, round_events(rounds), seconds) == (
        Progress::Wait { lines: lines_after(rounds) as u64 }),
    decreases rounds.len(),
{
    if rounds.len() > 0 {
        let before = rounds.drop_last();
        let round = rounds.last();
        assert(all_in_vain(before, seconds)) by {
            assert forall|i: int| 0 <= i < before.len() implies (#[trigger] before[i]).elapsed
                < seconds && before[i].answer != Some(true) by {
                assert(before[i] == rounds[i]);
            }
        }
        assert(rounds[rounds.len() - 1].elapsed < seconds);
        lemma_rounds(before, seconds);
        let start = Progress::Wait { lines: lines_after(before) as u64 };
        let events = seq![
            ConnectEvent::Elapsed(round.elapsed),
            ConnectEvent::Answer(round.answer),
            ConnectEvent::Elapsed(round.elapsed_then),
            ConnectEvent::Done,
        ];
        lemma_after_events_append(
            Progress::Wait { lines: 0 },
            round_events(before),
            events,
            seconds,
        );
        assert(after_events(start, events, seconds) == (Progress::Wait {
            lines: lines_after(rounds) as u64,
        })) by {
            reveal_with_fuel(after_events, 5);
            assert(events.drop_last().drop_last().drop_last().drop_last() =~= Seq::empty());
        }
    }
}

/// A device that is connected, whose services are known and that has
/// characteristics is used as it is. Any other is connected to.
pub proof fn law_a_ready_device_is_used(
    connected: Option<bool>,
    resolved: Option<bool>,
    has_characteristics: bool,
    seconds: u64,
)
    ensures
        ({
            let then = after(
                after(Progress::AskConnected, ConnectEvent::Answer(connected), seconds),
                ConnectEvent::Answer(resolved),
                seconds,
            );
            if connected == Some(true) && resolved == Some(true) {
                then == Progress::AskObjects && after(
                    then,
                    ConnectEvent::Answer(Some(has_characteristics)),
                    seconds,
                ) == (if has_characteristics {
                    Progress::Connected { before: None }
                } else {
                    Progress::AskResolved
                })
            } else {
                then == Progress::AskResolved
            }
        }),
{
}

/// A device is told to connect only if its services are not known. If it
/// refuses, the connection is dropped and the reason is reported.
pub proof fn law_a_refusal_is_reported(answer: Option<bool>, reason: String, seconds: u64)
    ensures
        ({
            let asked = after(Progress::AskResolved, ConnectEvent::Answer(answer), seconds);
            if answer == Some(true) {
                asked == (Progress::Connected { before: Some(true) })
            } else {
                let refused = after(asked, ConnectEvent::Refused(reason), seconds);
                &&& action(asked) == ConnectAction::CallConnect
                &&& action(refused) == ConnectAction::CallDisconnect
                &&& after(refused, ConnectEvent::Done, seconds) == (Progress::Failed {
                    error: error::Failure::ConnectFailed { reason: reason@ },
                })
            }
        }),
{
}

/// After the call the services are asked for as long as there is time. If they
/// become known in time, the device is connected.
pub proof fn law_services_that_come_in_time(rounds: Seq<Round>, elapsed: u64, seconds: u64)
    requires
        all_in_vain(rounds, seconds),
        elapsed < seconds,
    ensures
        after_events(
            Progress::Call,
            seq![ConnectEvent::Done] + round_events(rounds) + seq![
                ConnectEvent::Elapsed(elapsed),
                ConnectEvent::Answer(Some(true)),
            ],
            seconds,
        ) == (Progress::Connected { before: Some(false) }),
{
    let end = seq![ConnectEvent::Elapsed(elapsed), ConnectEvent::Answer(Some(true))];
    lemma_call_and_rounds(rounds, end, seconds);
    reveal_with_fuel(after_events, 3);
    assert(end.drop_last().drop_last() =~= Seq::empty());
}

/// If the services do not become known in time, the connection is dropped and
/// this is reported.
pub proof fn law_services_that_do_not_come(rounds: Seq<Round>, elapsed: u64, seconds: u64)
    requires
        all_in_vain(rounds, seconds),
        elapsed >= seconds,
    ensures
        ({
            let late = after_events(
                Progress::Call,
                seq![ConnectEvent::Done] + round_events(rounds) + seq![
                    ConnectEvent::Elapsed(elapsed),
                ],
                seconds,
            );
            &&& action(late) == ConnectAction::CallDisconnect
            &&& after(late, ConnectEvent::Done, seconds) == (Progress::Failed {
                error: error::Failure::ServicesNotResolved,
            })
        }),
{
    let end = seq![ConnectEvent::Elapsed(elapsed)];
    lemma_call_and_rounds(rounds, end, seconds);
    reveal_with_fuel(after_events, 2);
    assert(end.drop_last() =~= Seq::empty());
}

proof fn lemma_call_and_rounds(rounds: Seq<Round>, end: Seq<ConnectEvent>, seconds: u64)
    requires
        all_in_vain(rounds, seconds),
    ensures
        after_events(
            Progress::Call,
            seq![ConnectEvent::Done] + round_events(rounds) + end,
            seconds,
        ) == after_events(
            Progress::Wait { lines: lines_after(rounds) as u64 },
            end,
            seconds,
        ),
{
    let call = seq![ConnectEvent::Done];
    lemma_after_events_append(Progress::Call, call + round_events(rounds), end, seconds);
    lemma_after_events_append(Progress::Call, call, round_events(rounds), seconds);
    assert(after_events(Progress::Call, call, seconds) == (Progress::Wait { lines: 0 })) by {
        reveal_with_fuel(after_events, 2);
        assert(call.drop_last() =~= Seq::empty());
    }
    lemma_rounds(rounds, seconds);
}

/// The connection fails only after it has been dropped.
pub proof fn law_a_failed_connection_is_dropped(
    progress: Progress,
    event: ConnectEvent,
    seconds: u64,
)
    requires
        !(progress is Failed),
        after(progress, event, seconds) is Failed,
    ensures
        action(progress) == ConnectAction::CallDisconnect,
        event == ConnectEvent::Done,
{
}

/// After `n` lines that say what is waited for, at least `n` times the time
/// between two of them has passed.
pub proof fn law_status_lines_are_spaced(rounds: Seq<Round>, elapsed: u64)
    requires
        forall|i: int| 0 <= i < rounds.len() ==> (#[trigger] rounds[i]).elapsed_then <= elapsed,
    ensures
        STATUS_SECONDS * lines_after(rounds) <= elapsed,
    decreases rounds.len(),
{
    if rounds.len() > 0 {
        let before = rounds.drop_last();
        assert forall|i: int| 0 <= i < before.len() implies (#[trigger] before[i]).elapsed_then
            <= elapsed by {
            assert(before[i] == rounds[i]);
        }
        assert(rounds[rounds.len() - 1].elapsed_then <= elapsed);
        law_status_lines_are_spaced(before, elapsed);
    }
}

} // verus!
