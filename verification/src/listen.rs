//! Notifications: how they are polled for, what is printed of them, and how the
//! one that holds the lamp's state is waited for.

use crate::error::concat2;
use crate::hex;
use crate::number;
use crate::number::decimal_text;
use crate::packet;
use crate::packet::{live_floor_state_report, parse_live_floor_state};
use crate::text;
use crate::text::same_text;
use crate::textmap::TextMap;
use vstd::prelude::*;

verus! {

/// The time for which BlueZ may deliver events in one round, in milliseconds.
pub const PROCESS_MILLIS: u64 = 100;

/// The pause after one round, in milliseconds.
pub const POLL_PAUSE_MILLIS: u64 = 150;

/// The time for which the lamp's state is waited for, in seconds.
pub const STATE_SECONDS: u64 = 3;

/// What is polled for.
#[derive(Clone, Copy, Debug, PartialEq, Eq, Structural)]
pub struct PollPlan {
    /// The time for which it is polled, in seconds.
    pub seconds: u64,
    /// The number of characteristics that are polled.
    pub endpoints: usize,
    /// The first notification that holds the lamp's state ends the poll.
    pub until_state: bool,
}

/// How far the poll has come.
#[derive(Debug, PartialEq, Eq)]
pub enum Poll {
    /// It is looked whether there is time left.
    Wait,
    /// BlueZ delivers events.
    Process,
    /// The value of the characteristic with this index is read.
    Read { index: usize },
    /// There is a pause before the next round.
    Pause,
    /// The time is over.
    Over,
    /// This notification holds the lamp's state.
    Decoded { value: Vec<u8> },
}

/// What is to be done next.
#[derive(Clone, Copy, Debug, PartialEq, Eq, Structural)]
pub enum PollAction {
    /// Look how much time has passed.
    ReadClock,
    /// Let BlueZ deliver events.
    Process,
    /// Read the value of the characteristic with this index.
    ReadValue { index: usize },
    /// Pause.
    Pause,
    /// Nothing: the poll is over.
    Stop,
}

/// What came of it.
#[derive(Debug, PartialEq, Eq)]
pub enum PollEvent {
    /// So many whole seconds have passed.
    Elapsed(u64),
    /// The characteristic has this value, or none that can be read.
    Value(Option<Vec<u8>>),
    /// It is done.
    Done,
}

/// A `Poll` with its value as a sequence.
#[verifier::ext_equal]
pub ghost enum Progress {
    Wait,
    Process,
    Read { index: int },
    Pause,
    Over,
    Decoded { value: Seq<u8> },
}

impl View for Poll {
    type V = Progress;

    open spec fn view(&self) -> Progress {
        match *self {
            Poll::Wait => Progress::Wait,
            Poll::Process => Progress::Process,
            Poll::Read { index } => Progress::Read { index: index as int },
            Poll::Pause => Progress::Pause,
            Poll::Over => Progress::Over,
            Poll::Decoded { value } => Progress::Decoded { value: value@ },
        }
    }
}

/// The notification, if there is one and it holds the lamp's state.
pub open spec fn state_value(value: Option<Vec<u8>>) -> Option<Seq<u8>> {
    match value {
        Some(bytes) => if packet::live_floor_state(bytes@) is Some {
            Some(bytes@)
        } else {
            None
        },
        None => None,
    }
}

/// The characteristic with this index, or the end of the round.
pub open spec fn from_endpoint(index: int, plan: PollPlan) -> Progress {
    if index < plan.endpoints {
        Progress::Read { index }
    } else {
        Progress::Pause
    }
}

/// How far the poll is after an event. An event that answers something else
/// changes nothing.
pub open spec fn after(progress: Progress, event: PollEvent, plan: PollPlan) -> Progress {
    match (progress, event) {
        (Progress::Wait, PollEvent::Elapsed(elapsed)) => if elapsed < plan.seconds {
            Progress::Process
        } else {
            Progress::Over
        },
        (Progress::Process, PollEvent::Done) => from_endpoint(0, plan),
        (Progress::Read { index }, PollEvent::Value(value)) => match state_value(value) {
            Some(bytes) if plan.until_state => Progress::Decoded { value: bytes },
            _ => from_endpoint(index + 1, plan),
        },
        (Progress::Pause, PollEvent::Done) => Progress::Wait,
        _ => progress,
    }
}

/// How far the poll is after a number of events.
pub open spec fn after_events(
    progress: Progress,
    events: Seq<PollEvent>,
    plan: PollPlan,
) -> Progress
    decreases events.len(),
{
    if events.len() == 0 {
        progress
    } else {
        after(after_events(progress, events.drop_last(), plan), events.last(), plan)
    }
}

impl PollPlan {
    /// Every value is looked at for some time.
    pub fn listen_for_values(endpoints: usize, seconds: u64) -> (r: PollPlan)
        ensures
            r == (PollPlan { seconds, endpoints, until_state: false }),
    {
        PollPlan { seconds, endpoints, until_state: false }
    }

    /// The lamp's state is waited for.
    pub fn query_live_floor_state(endpoints: usize) -> (r: PollPlan)
        ensures
            r == (PollPlan { seconds: STATE_SECONDS, endpoints, until_state: true }),
    {
        PollPlan { seconds: STATE_SECONDS, endpoints, until_state: true }
    }
}

impl Poll {
    /// The beginning of the poll.
    pub fn start() -> (r: Poll)
        ensures
            r@ == Progress::Wait,
    {
        Poll::Wait
    }

    /// What is to be done next.
    pub fn action(&self) -> (r: PollAction)
        ensures
            r == (match self@ {
                Progress::Wait => PollAction::ReadClock,
                Progress::Process => PollAction::Process,
                Progress::Read { index } => PollAction::ReadValue { index: index as usize },
                Progress::Pause => PollAction::Pause,
                Progress::Over | Progress::Decoded { .. } => PollAction::Stop,
            }),
    {
        match self {
            Poll::Wait => PollAction::ReadClock,
            Poll::Process => PollAction::Process,
            Poll::Read { index } => PollAction::ReadValue { index: *index },
            Poll::Pause => PollAction::Pause,
            Poll::Over | Poll::Decoded { .. } => PollAction::Stop,
        }
    }

    fn endpoint(index: usize, plan: &PollPlan) -> (r: Poll)
        ensures
            r@ == from_endpoint(index as int, *plan),
    {
        if index < plan.endpoints {
            Poll::Read { index }
        } else {
            Poll::Pause
        }
    }

    /// How far the poll is after an event.
    pub fn next(self, event: PollEvent, plan: &PollPlan) -> (r: Poll)
        ensures
            r@ == after(self@, event, *plan),
    {
        match (self, event) {
            (Poll::Wait, PollEvent::Elapsed(elapsed)) => if elapsed < plan.seconds {
                Poll::Process
            } else {
                Poll::Over
            },
            (Poll::Process, PollEvent::Done) => Poll::endpoint(0, plan),
            (Poll::Read { index }, PollEvent::Value(value)) => {
                if plan.until_state {
                    match value {
                        Some(bytes) => {
                            if parse_live_floor_state(bytes.as_slice()).is_some() {
                                return Poll::Decoded { value: bytes };
                            }
                        },
                        None => {},
                    }
                }
                if index < plan.endpoints {
                    Poll::endpoint(index + 1, plan)
                } else {
                    Poll::Pause
                }
            },
            (Poll::Pause, PollEvent::Done) => Poll::Wait,
            (unchanged, _) => unchanged,
        }
    }
}

// ------------------------------------------------------------------ the state

/// The lines that report what came of waiting for the lamp's state.
pub open spec fn state_lines(progress: Progress) -> Seq<Seq<char>> {
    match progress {
        Progress::Decoded { value } => match packet::live_floor_state(value) {
            Some(state) => seq!["  raw_floor_state="@ + hex::hex_text(value)]
                + packet::live_floor_state_lines(state),
            None => seq!["  decoded_floor_state=unavailable"@],
        },
        _ => seq!["  decoded_floor_state=unavailable"@],
    }
}

impl Poll {
    /// The lines that report what came of waiting for the lamp's state.
    pub fn state_report(&self) -> (r: Vec<String>)
        ensures
            text::texts(r@) == state_lines(self@),
    {
        let mut lines: Vec<String> = Vec::new();
        match self {
            Poll::Decoded { value } => {
                match parse_live_floor_state(value.as_slice()) {
                    Some(state) => {
                        lines.push(
                            concat2("  raw_floor_state=", hex::hex(value.as_slice()).as_str()),
                        );
                        let mut report = live_floor_state_report(&state);
                        let ghost report_lines = text::texts(report@);
                        lines.append(&mut report);
                        assert(text::texts(lines@) =~= seq![
                            "  raw_floor_state="@ + hex::hex_text(value@),
                        ] + report_lines);
                        return lines;
                    },
                    None => {},
                }
            },
            _ => {},
        }
        lines.push("  decoded_floor_state=unavailable".to_owned());
        assert(text::texts(lines@) =~= seq!["  decoded_floor_state=unavailable"@]);
        lines
    }
}

// ------------------------------------------------------------------- the values

/// The last value of each characteristic that has been printed, in
/// hexadecimal.
#[derive(Debug)]
pub struct ValueLog {
    last_values: TextMap,
}

impl View for ValueLog {
    type V = Map<Seq<char>, Seq<char>>;

    closed spec fn view(&self) -> Map<Seq<char>, Seq<char>> {
        self.last_values@
    }
}

/// The last printed values after a value has been seen.
pub open spec fn logged(
    log: Map<Seq<char>, Seq<char>>,
    path: Seq<char>,
    value: Seq<u8>,
) -> Map<Seq<char>, Seq<char>> {
    log.insert(path, hex::hex_text(value))
}

/// The line for a value: there is one if it is not the last that was printed.
pub open spec fn value_line(
    log: Map<Seq<char>, Seq<char>>,
    path: Seq<char>,
    value: Seq<u8>,
) -> Option<Seq<char>> {
    if log.dom().contains(path) && log[path] == hex::hex_text(value) {
        None
    } else {
        Some("value "@ + path + " "@ + hex::hex_text(value))
    }
}

impl ValueLog {
    #[verifier::type_invariant]
    closed spec fn well_formed(&self) -> bool {
        self.last_values.well_formed()
    }

    /// Nothing has been printed.
    pub fn new() -> (r: ValueLog)
        ensures
            r@ == Map::<Seq<char>, Seq<char>>::empty(),
    {
        ValueLog { last_values: TextMap::new() }
    }

    /// Takes note of a value, and says what is printed of it.
    pub fn observe(self, path: &str, value: &[u8]) -> (r: (ValueLog, Option<String>))
        ensures
            r.0@ == logged(self@, path@, value@),
            text::opt_text(r.1) == value_line(self@, path@, value@),
    {
        proof {
            use_type_invariant(&self);
        }
        let digits = hex::hex(value);
        let same = match self.last_values.get(path) {
            Some(last) => same_text(last.as_str(), digits.as_str()),
            None => false,
        };
        let line = if same {
            None
        } else {
            let mut out = concat2("value ", path);
            out.append(" ");
            out.append(digits.as_str());
            Some(out)
        };
        let mut last_values = self.last_values;
        last_values.insert(path.to_owned(), digits);
        (ValueLog { last_values }, line)
    }
}

// ---------------------------------------------------------------------- lines

/// The line that says how many characteristics are asked for notifications.
pub fn subscribing_line(endpoints: usize) -> (r: String)
    ensures
        r@ == "subscribing to "@ + number::decimal(endpoints as nat) + " notify endpoints"@,
{
    let mut out = concat2("subscribing to ", decimal_text(endpoints as u64).as_str());
    out.append(" notify endpoints");
    out
}

/// The line that says what came of asking a characteristic for notifications.
pub fn notify_line(path: &str, refused: Option<&str>) -> (r: String)
    ensures
        r@ == (match refused {
            Some(reason) => "notify start failed "@ + path@ + ": "@ + reason@,
            None => "notify started "@ + path@,
        }),
{
    match refused {
        Some(reason) => {
            let mut out = concat2("notify start failed ", path);
            out.append(": ");
            out.append(reason);
            out
        },
        None => concat2("notify started ", path),
    }
}

// ----------------------------------------------------------------------- laws

/// A value that is seen again is not printed again.
pub proof fn law_a_value_is_printed_once(
    log: Map<Seq<char>, Seq<char>>,
    path: Seq<char>,
    value: Seq<u8>,
)
    ensures
        value_line(logged(log, path, value), path, value) is None,
{
}

/// A value that differs from the last one of the characteristic is printed.
pub proof fn law_a_changed_value_is_printed(
    log: Map<Seq<char>, Seq<char>>,
    path: Seq<char>,
    before: Seq<u8>,
    value: Seq<u8>,
)
    requires
        before != value,
    ensures
        value_line(logged(log, path, before), path, value) == Some(
            "value "@ + path + " "@ + hex::hex_text(value),
        ),
{
    hex::lemma_hex_text(before);
    hex::lemma_hex_text(value);
}

/// What is printed of one characteristic does not depend on another.
pub proof fn law_characteristics_do_not_interfere(
    log: Map<Seq<char>, Seq<char>>,
    path: Seq<char>,
    value: Seq<u8>,
    other: Seq<char>,
    other_value: Seq<u8>,
)
    requires
        other != path,
    ensures
        value_line(logged(log, other, other_value), path, value) == value_line(log, path, value),
{
}

/// One round of the poll: a look at the clock, and a value from each
/// characteristic.
pub ghost struct Round {
    pub elapsed: u64,
    pub values: Seq<Option<Vec<u8>>>,
}

/// The events of the values.
pub open spec fn value_events(values: Seq<Option<Vec<u8>>>) -> Seq<PollEvent> {
    values.map_values(|value: Option<Vec<u8>>| PollEvent::Value(value))
}

/// The events of a number of rounds.
pub open spec fn round_events(rounds: Seq<Round>) -> Seq<PollEvent>
    decreases rounds.len(),
{
    if rounds.len() == 0 {
        Seq::empty()
    } else {
        round_events(rounds.drop_last()) + seq![
            PollEvent::Elapsed(rounds.last().elapsed),
            PollEvent::Done,
        ] + value_events(rounds.last().values) + seq![PollEvent::Done]
    }
}

/// None of the values ends the poll.
pub open spec fn none_ends(values: Seq<Option<Vec<u8>>>, plan: PollPlan) -> bool {
    plan.until_state ==> forall|i: int|
        0 <= i < values.len() ==> state_value(#[trigger] values[i]) is None
}

/// In every round there was time left, each characteristic was read, and none
/// of the values ended the poll.
pub open spec fn all_in_vain(rounds: Seq<Round>, plan: PollPlan) -> bool {
    forall|i: int|
        0 <= i < rounds.len() ==> (#[trigger] rounds[i]).elapsed < plan.seconds
            && rounds[i].values.len() == plan.endpoints && none_ends(rounds[i].values, plan)
}

proof fn lemma_after_events_append(
    progress: Progress,
    first: Seq<PollEvent>,
    then: Seq<PollEvent>,
    plan: PollPlan,
)
    ensures
        after_events(progress, first + then, plan) == after_events(
            after_events(progress, first, plan),
            then,
            plan,
        ),
    decreases then.len(),
{
    if then.len() == 0 {
        assert(first + then =~= first);
    } else {
        lemma_after_events_append(progress, first, then.drop_last(), plan);
        assert((first + then).drop_last() =~= first + then.drop_last());
        assert((first + then).last() == then.last());
    }
}

proof fn lemma_values(values: Seq<Option<Vec<u8>>>, plan: PollPlan)
    requires
        values.len() <= plan.endpoints,
        none_ends(values, plan),
    ensures
        after_events(from_endpoint(0, plan), value_events(values), plan) == from_endpoint(
            values.len() as int,
            plan,
        ),
    decreases values.len(),
{
    if values.len() > 0 {
        let before = values.drop_last();
        assert(none_ends(before, plan)) by {
            assert forall|i: int| plan.until_state && 0 <= i < before.len() implies state_value(
                #[trigger] before[i],
            ) is None by {
                assert(before[i] == values[i]);
            }
        }
        lemma_values(before, plan);
        assert(plan.until_state ==> state_value(values[values.len() - 1]) is None);
        assert(value_events(values).drop_last() =~= value_events(before));
        assert(value_events(values).last() == PollEvent::Value(values.last()));
    }
}

proof fn lemma_round(
    elapsed: u64,
    values: Seq<Option<Vec<u8>>>,
    end: Seq<PollEvent>,
    plan: PollPlan,
)
    requires
        elapsed < plan.seconds,
        values.len() <= plan.endpoints,
        none_ends(values, plan),
    ensures
        after_events(
            Progress::Wait,
            seq![PollEvent::Elapsed(elapsed), PollEvent::Done] + value_events(values) + end,
            plan,
        ) == after_events(from_endpoint(values.len() as int, plan), end, plan),
{
    let begin = seq![PollEvent::Elapsed(elapsed), PollEvent::Done];
    lemma_after_events_append(Progress::Wait, begin + value_events(values), end, plan);
    lemma_after_events_append(Progress::Wait, begin, value_events(values), plan);
    assert(after_events(Progress::Wait, begin, plan) == from_endpoint(0, plan)) by {
        reveal_with_fuel(after_events, 3);
        assert(begin.drop_last().drop_last() =~= Seq::empty());
    }
    lemma_values(values, plan);
}

proof fn lemma_rounds(rounds: Seq<Round>, plan: PollPlan)
    requires
        all_in_vain(rounds, plan),
    ensures
        after_events(Progress::Wait, round_events(rounds), plan) == Progress::Wait,
    decreases rounds.len(),
{
    if rounds.len() > 0 {
        let before = rounds.drop_last();
        let round = rounds.last();
        assert(all_in_vain(before, plan)) by {
            assert forall|i: int| 0 <= i < before.len() implies (#[trigger] before[i]).elapsed
                < plan.seconds && before[i].values.len() == plan.endpoints && none_ends(
                before[i].values,
                plan,
            ) by {
                assert(before[i] == rounds[i]);
            }
        }
        assert(rounds[rounds.len() - 1].elapsed < plan.seconds);
        lemma_rounds(before, plan);
        let end = seq![PollEvent::Done];
        let events = seq![PollEvent::Elapsed(round.elapsed), PollEvent::Done] + value_events(
            round.values,
        ) + end;
        assert(round_events(rounds) =~= round_events(before) + events);
        lemma_after_events_append(Progress::Wait, round_events(before), events, plan);
        lemma_round(round.elapsed, round.values, end, plan);
        assert(after_events(Progress::Pause, end, plan) == Progress::Wait) by {
            reveal_with_fuel(after_events, 2);
            assert(end.drop_last() =~= Seq::empty());
        }
    }
}

/// The lamp's state is taken from the first notification that holds it, if one
/// comes while there is time left.
pub proof fn law_the_first_state_is_taken(
    rounds: Seq<Round>,
    elapsed: u64,
    values: Seq<Option<Vec<u8>>>,
    value: Option<Vec<u8>>,
    plan: PollPlan,
)
    requires
        plan.until_state,
        all_in_vain(rounds, plan),
        elapsed < plan.seconds,
        values.len() < plan.endpoints,
        none_ends(values, plan),
        state_value(value) is Some,
    ensures
        after_events(
            Progress::Wait,
            round_events(rounds) + (seq![PollEvent::Elapsed(elapsed), PollEvent::Done]
                + value_events(values) + seq![PollEvent::Value(value)]),
            plan,
        ) == (Progress::Decoded { value: state_value(value)->0 }),
{
    let end = seq![PollEvent::Value(value)];
    let events = seq![PollEvent::Elapsed(elapsed), PollEvent::Done] + value_events(values) + end;
    lemma_rounds(rounds, plan);
    lemma_after_events_append(Progress::Wait, round_events(rounds), events, plan);
    lemma_round(elapsed, values, end, plan);
    reveal_with_fuel(after_events, 2);
    assert(end.drop_last() =~= Seq::empty());
}

/// The poll goes on as long as there is time left, and no longer. Where every
/// value is looked at, none ends it.
pub proof fn law_the_poll_ends_in_time(rounds: Seq<Round>, elapsed: u64, plan: PollPlan)
    requires
        all_in_vain(rounds, plan),
    ensures
        after_events(Progress::Wait, round_events(rounds).push(PollEvent::Elapsed(elapsed)), plan)
            == (if elapsed < plan.seconds {
            Progress::Process
        } else {
            Progress::Over
        }),
{
    lemma_rounds(rounds, plan);
    let events = round_events(rounds).push(PollEvent::Elapsed(elapsed));
    assert(events.drop_last() =~= round_events(rounds));
}

} // verus!
