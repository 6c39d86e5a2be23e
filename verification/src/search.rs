//! Finding the lamp: by its stored path, or by a scan that is made for some
//! time.

use crate::bluez;
use crate::bluez::{adapter_path, find_lamp, ManagedObject};
use crate::bluez_laws;
use crate::config;
use crate::config::Config;
use crate::error;
use crate::error::{concat2, LampError};
use crate::text;
use vstd::prelude::*;

verus! {

/// The lamp's device object, and whether it was found by its stored path.
#[derive(Debug, PartialEq, Eq)]
pub struct DeviceTarget {
    pub path: String,
    pub from_cache: bool,
}

/// How far the search has come.
#[derive(Debug, PartialEq, Eq)]
pub enum Search {
    /// The stored path is looked at.
    Recall,
    /// An adapter is looked for.
    FindAdapter,
    /// The adapter is told to start a scan.
    StartScan { adapter: String },
    /// It is looked whether there is time left.
    Wait { adapter: String },
    /// The objects are looked through for the lamp.
    Look { adapter: String },
    /// There is a pause before the next look.
    Pause { adapter: String },
    /// The adapter is told to stop the scan.
    StopScan { adapter: String, chosen: Option<String> },
    /// The lamp's path is stored.
    Remember { path: String },
    /// The lamp was found.
    Found { target: DeviceTarget },
    /// The lamp was not found.
    Failed { error: LampError },
}

/// What is to be done next.
#[derive(Debug, PartialEq, Eq)]
pub enum SearchAction<'a> {
    /// Look whether the object at the stored path is the lamp.
    RecallPath,
    /// List the objects that BlueZ manages.
    ListObjects,
    /// Tell the adapter to start a scan for low-energy devices.
    StartDiscovery(&'a str),
    /// Look how much time has passed since the start of the scan.
    ReadClock,
    /// Pause for a second.
    Pause,
    /// Tell the adapter to stop the scan.
    StopDiscovery(&'a str),
    /// Store the path.
    StorePath(&'a str),
    /// Nothing: the lamp has been found, or has not.
    Stop,
}

/// What came of it.
#[derive(Debug, PartialEq, Eq)]
pub enum SearchEvent {
    /// The stored path is that of the lamp, or there is none of which this holds.
    Recalled(Option<String>),
    /// BlueZ manages these objects.
    Objects(Vec<ManagedObject>),
    /// So many whole seconds have passed.
    Elapsed(u64),
    /// It is done.
    Done,
}

/// A `Search` with its strings as character sequences.
#[verifier::ext_equal]
pub ghost enum Progress {
    Recall,
    FindAdapter,
    StartScan { adapter: Seq<char> },
    Wait { adapter: Seq<char> },
    Look { adapter: Seq<char> },
    Pause { adapter: Seq<char> },
    StopScan { adapter: Seq<char>, chosen: Option<Seq<char>> },
    Remember { path: Seq<char> },
    Found { path: Seq<char>, from_cache: bool },
    Failed { error: error::Failure },
}

/// A `SearchAction` with its strings as character sequences.
#[verifier::ext_equal]
pub ghost enum Request {
    RecallPath,
    ListObjects,
    StartDiscovery(Seq<char>),
    ReadClock,
    Pause,
    StopDiscovery(Seq<char>),
    StorePath(Seq<char>),
    Stop,
}

impl View for Search {
    type V = Progress;

    open spec fn view(&self) -> Progress {
        match *self {
            Search::Recall => Progress::Recall,
            Search::FindAdapter => Progress::FindAdapter,
            Search::StartScan { adapter } => Progress::StartScan { adapter: adapter@ },
            Search::Wait { adapter } => Progress::Wait { adapter: adapter@ },
            Search::Look { adapter } => Progress::Look { adapter: adapter@ },
            Search::Pause { adapter } => Progress::Pause { adapter: adapter@ },
            Search::StopScan { adapter, chosen } => Progress::StopScan {
                adapter: adapter@,
                chosen: text::opt_text(chosen),
            },
            Search::Remember { path } => Progress::Remember { path: path@ },
            Search::Found { target } => Progress::Found {
                path: target.path@,
                from_cache: target.from_cache,
            },
            Search::Failed { error } => Progress::Failed { error: error@ },
        }
    }
}

impl<'a> View for SearchAction<'a> {
    type V = Request;

    open spec fn view(&self) -> Request {
        match *self {
            SearchAction::RecallPath => Request::RecallPath,
            SearchAction::ListObjects => Request::ListObjects,
            SearchAction::StartDiscovery(adapter) => Request::StartDiscovery(adapter@),
            SearchAction::ReadClock => Request::ReadClock,
            SearchAction::Pause => Request::Pause,
            SearchAction::StopDiscovery(adapter) => Request::StopDiscovery(adapter@),
            SearchAction::StorePath(path) => Request::StorePath(path@),
            SearchAction::Stop => Request::Stop,
        }
    }
}

/// What is to be done next.
pub open spec fn request(progress: Progress) -> Request {
    match progress {
        Progress::Recall => Request::RecallPath,
        Progress::FindAdapter | Progress::Look { .. } => Request::ListObjects,
        Progress::StartScan { adapter } => Request::StartDiscovery(adapter),
        Progress::Wait { .. } => Request::ReadClock,
        Progress::Pause { .. } => Request::Pause,
        Progress::StopScan { adapter, .. } => Request::StopDiscovery(adapter),
        Progress::Remember { path } => Request::StorePath(path),
        Progress::Found { .. } | Progress::Failed { .. } => Request::Stop,
    }
}

/// The path of the first object that is an adapter.
pub open spec fn first_adapter(objects: Seq<ManagedObject>) -> Option<Seq<char>> {
    match bluez::first_object(objects, |object: ManagedObject| bluez::is_adapter(object)) {
        Some(object) => Some(object.path@),
        None => None,
    }
}

/// The path of the first object that is the lamp.
pub open spec fn first_lamp(objects: Seq<ManagedObject>, config: config::ConfigView) -> Option<
    Seq<char>,
> {
    match bluez::first_object(
        objects,
        |object: ManagedObject| bluez::is_lamp_object(object, config),
    ) {
        Some(object) => Some(object.path@),
        None => None,
    }
}

/// How far the search is after an event. An event that answers something else
/// changes nothing.
pub open spec fn after(
    progress: Progress,
    event: SearchEvent,
    config: config::ConfigView,
) -> Progress {
    match (progress, event) {
        (Progress::Recall, SearchEvent::Recalled(path)) => match path {
            Some(path) => Progress::Found { path: path@, from_cache: true },
            None => Progress::FindAdapter,
        },
        (Progress::FindAdapter, SearchEvent::Objects(objects)) => match first_adapter(objects@) {
            Some(adapter) => Progress::StartScan { adapter },
            None => Progress::Failed { error: error::Failure::NoAdapter },
        },
        (Progress::StartScan { adapter }, SearchEvent::Done) => Progress::Wait { adapter },
        (Progress::Wait { adapter }, SearchEvent::Elapsed(elapsed)) => if elapsed
            < config.scan_seconds {
            Progress::Look { adapter }
        } else {
            Progress::StopScan { adapter, chosen: None }
        },
        (Progress::Look { adapter }, SearchEvent::Objects(objects)) => match first_lamp(
            objects@,
            config,
        ) {
            Some(path) => Progress::StopScan { adapter, chosen: Some(path) },
            None => Progress::Pause { adapter },
        },
        (Progress::Pause { adapter }, SearchEvent::Done) => Progress::Wait { adapter },
        (Progress::StopScan { chosen, .. }, SearchEvent::Done) => match chosen {
            Some(path) => Progress::Remember { path },
            None => Progress::Failed { error: error::Failure::LampNotFound },
        },
        (Progress::Remember { path }, SearchEvent::Done) => Progress::Found {
            path,
            from_cache: false,
        },
        _ => progress,
    }
}

/// How far the search is after a number of events.
pub open spec fn after_events(
    progress: Progress,
    events: Seq<SearchEvent>,
    config: config::ConfigView,
) -> Progress
    decreases events.len(),
{
    if events.len() == 0 {
        progress
    } else {
        after(after_events(progress, events.drop_last(), config), events.last(), config)
    }
}

impl Search {
    /// The beginning of the search.
    pub fn find_device() -> (r: Search)
        ensures
            r@ == Progress::Recall,
    {
        Search::Recall
    }

    /// What is to be done next.
    pub fn action(&self) -> (r: SearchAction<'_>)
        ensures
            r@ == request(self@),
    {
        match self {
            Search::Recall => SearchAction::RecallPath,
            Search::FindAdapter | Search::Look { .. } => SearchAction::ListObjects,
            Search::StartScan { adapter } => SearchAction::StartDiscovery(adapter.as_str()),
            Search::Wait { .. } => SearchAction::ReadClock,
            Search::Pause { .. } => SearchAction::Pause,
            Search::StopScan { adapter, .. } => SearchAction::StopDiscovery(adapter.as_str()),
            Search::Remember { path } => SearchAction::StorePath(path.as_str()),
            Search::Found { .. } | Search::Failed { .. } => SearchAction::Stop,
        }
    }

    /// How far the search is after an event.
    pub fn next(self, event: SearchEvent, config: &Config) -> (r: Search)
        ensures
            r@ == after(self@, event, config@),
    {
        match (self, event) {
            (Search::Recall, SearchEvent::Recalled(path)) => match path {
                Some(path) => Search::Found { target: DeviceTarget { path, from_cache: true } },
                None => Search::FindAdapter,
            },
            (Search::FindAdapter, SearchEvent::Objects(objects)) => match adapter_path(
                objects.as_slice(),
            ) {
                Ok(adapter) => Search::StartScan { adapter },
                Err(error) => Search::Failed { error },
            },
            (Search::StartScan { adapter }, SearchEvent::Done) => Search::Wait { adapter },
            (Search::Wait { adapter }, SearchEvent::Elapsed(elapsed)) => if elapsed
                < config.scan_seconds {
                Search::Look { adapter }
            } else {
                Search::StopScan { adapter, chosen: None }
            },
            (Search::Look { adapter }, SearchEvent::Objects(objects)) => match find_lamp(
                objects.as_slice(),
                config,
            ) {
                Some(path) => Search::StopScan { adapter, chosen: Some(path) },
                None => Search::Pause { adapter },
            },
            (Search::Pause { adapter }, SearchEvent::Done) => Search::Wait { adapter },
            (Search::StopScan { adapter: _, chosen }, SearchEvent::Done) => match chosen {
                Some(path) => Search::Remember { path },
                None => Search::Failed { error: LampError::LampNotFound },
            },
            (Search::Remember { path }, SearchEvent::Done) => Search::Found {
                target: DeviceTarget { path, from_cache: false },
            },
            (unchanged, _) => unchanged,
        }
    }
}

/// The text that is stored to find the lamp at its path again.
pub fn stored_path_text(path: &str) -> (r: String)
    ensures
        r@ == path@ + "\n"@,
{
    concat2(path, "\n")
}

/// The lines that say where the lamp was found, if more is asked for.
pub open spec fn found_lines(path: Seq<char>, from_cache: bool, verbose: bool) -> Seq<Seq<char>> {
    if !verbose {
        Seq::empty()
    } else if from_cache {
        seq!["using cached path "@ + path, "found "@ + path]
    } else {
        seq!["found "@ + path]
    }
}

/// The lines that say where the lamp was found, if more is asked for.
pub fn found_report(target: &DeviceTarget, verbose: bool) -> (r: Vec<String>)
    ensures
        text::texts(r@) == found_lines(target.path@, target.from_cache, verbose),
{
    let mut lines: Vec<String> = Vec::new();
    if verbose {
        if target.from_cache {
            lines.push(concat2("using cached path ", target.path.as_str()));
        }
        lines.push(concat2("found ", target.path.as_str()));
    }
    assert(text::texts(lines@) =~= found_lines(target.path@, target.from_cache, verbose));
    lines
}

// ----------------------------------------------------------------------- laws

/// One round of the scan: a look at the clock, the objects at that time, and a
/// pause.
pub ghost struct Round {
    pub elapsed: u64,
    pub objects: Vec<ManagedObject>,
}

/// The events of a number of rounds.
pub open spec fn round_events(rounds: Seq<Round>) -> Seq<SearchEvent>
    decreases rounds.len(),
{
    if rounds.len() == 0 {
        Seq::empty()
    } else {
        round_events(rounds.drop_last()) + seq![
            SearchEvent::Elapsed(rounds.last().elapsed),
            SearchEvent::Objects(rounds.last().objects),
            SearchEvent::Done,
        ]
    }
}

/// In every round there was time left and the lamp was not seen.
pub open spec fn all_in_vain(rounds: Seq<Round>, config: config::ConfigView) -> bool {
    forall|i: int|
        0 <= i < rounds.len() ==> (#[trigger] rounds[i]).elapsed < config.scan_seconds
            && first_lamp(rounds[i].objects@, config) is None
}

proof fn lemma_after_events_append(
    progress: Progress,
    first: Seq<SearchEvent>,
    then: Seq<SearchEvent>,
    config: config::ConfigView,
)
    ensures
        after_events(progress, first + then, config) == after_events(
            after_events(progress, first, config),
            then,
            config,
        ),
    decreases then.len(),
{
    if then.len() == 0 {
        assert(first + then =~= first);
    } else {
        lemma_after_events_append(progress, first, then.drop_last(), config);
        assert((first + then).drop_last() =~= first + then.drop_last());
        assert((first + then).last() == then.last());
    }
}

proof fn lemma_rounds(adapter: Seq<char>, rounds: Seq<Round>, config: config::ConfigView)
    requires
        all_in_vain(rounds, config),
    ensures
        after_events(Progress::Wait { adapter }, round_events(rounds), config) == (Progress::Wait {
            adapter,
        }),
    decreases rounds.len(),
{
    if rounds.len() > 0 {
        let before = rounds.drop_last();
        let round = rounds.last();
        assert(all_in_vain(before, config)) by {
            assert forall|i: int| 0 <= i < before.len() implies (#[trigger] before[i]).elapsed
                < config.scan_seconds && first_lamp(before[i].objects@, config) is None by {
                assert(before[i] == rounds[i]);
            }
        }
        assert(rounds[rounds.len() - 1].elapsed < config.scan_seconds);
        lemma_rounds(adapter, before, config);
        let events = seq![
            SearchEvent::Elapsed(round.elapsed),
            SearchEvent::Objects(round.objects),
            SearchEvent::Done,
        ];
        lemma_after_events_append(
            Progress::Wait { adapter },
            round_events(before),
            events,
            config,
        );
        reveal_with_fuel(after_events, 4);
        assert(events.drop_last().drop_last().drop_last() =~= Seq::empty());
    }
}

/// The path that is stored for a lamp is recalled as long as the object at it
/// is the lamp.
pub proof fn law_a_remembered_lamp_is_recalled(
    path: Seq<char>,
    objects: Seq<ManagedObject>,
    config: config::ConfigView,
)
    requires
        bluez::is_object_path(path),
        bluez::object_at(objects, path) is Some,
    ensures
        bluez::is_usable_path(path + "\n"@),
        bluez::stored_lamp(path + "\n"@, objects, config) == (if bluez::is_lamp_object(
            bluez::object_at(objects, path)->0,
            config,
        ) {
            Some(path)
        } else {
            None
        }),
{
    reveal_strlit("\n");
    let raw = path + "\n"@;
    assert(raw.drop_last() =~= path);
    assert(bluez::is_path_char(path.last()) || path.last() == '/');
    assert(text::trim(raw) == path) by {
        assert(text::trim_start(raw) == raw);
        assert(text::trim_end(raw) == text::trim_end(path));
        assert(text::trim_end(path) == path);
    }
    assert forall|i: int| 0 <= i < path.len() implies path[i] != '\0' by {
        assert(bluez::is_path_char(path[i]) || path[i] == '/');
    }
    text::lemma_first_index_is(path, '\0', path.len() as int);
    assert(bluez::until_null(path) =~= path);
}

/// A recalled path is that of an object that is the lamp.
pub proof fn law_a_recalled_lamp_is_the_lamp(
    raw: Seq<char>,
    objects: Seq<ManagedObject>,
    path: Seq<char>,
    config: config::ConfigView,
)
    requires
        bluez::stored_lamp(raw, objects, config) == Some(path),
    ensures
        exists|i: int|
            0 <= i < objects.len() && (#[trigger] objects[i]).path@ == path
                && bluez::is_lamp_object(objects[i], config),
{
    let n = bluez::lemma_object_at_index(objects, path);
    assert(objects[n].path@ == path);
}

/// A lamp that one search has found by its stored path is found by it in the
/// next search, as long as the stored text and the objects are the same. That
/// search neither scans nor stores anything.
pub proof fn law_a_recalled_lamp_is_recalled_again(
    raw: Seq<char>,
    objects: Seq<ManagedObject>,
    recalled: Option<String>,
    recalled_again: Option<String>,
    config: config::ConfigView,
)
    requires
        recalled is Some,
        text::opt_text(recalled) == bluez::stored_lamp(raw, objects, config),
        text::opt_text(recalled_again) == bluez::stored_lamp(raw, objects, config),
    ensures
        ({
            let found = after(Progress::Recall, SearchEvent::Recalled(recalled), config);
            let again = after(Progress::Recall, SearchEvent::Recalled(recalled_again), config);
            &&& found == (Progress::Found { path: recalled->0@, from_cache: true })
            &&& again == found
            &&& request(again) == Request::Stop
        }),
{
}

/// The path that is stored for a lamp which a scan has seen is recalled as long
/// as BlueZ manages the same objects, whose paths are distinct.
pub proof fn law_a_seen_lamp_is_recalled(
    objects: Seq<ManagedObject>,
    path: Seq<char>,
    config: config::ConfigView,
)
    requires
        bluez_laws::has_distinct_paths(objects),
        first_lamp(objects, config) == Some(path),
        bluez::is_object_path(path),
    ensures
        bluez::is_usable_path(path + "\n"@),
        bluez::stored_lamp(path + "\n"@, objects, config) == Some(path),
{
    let n = bluez::lemma_first_object_index(
        objects,
        |object: ManagedObject| bluez::is_lamp_object(object, config),
    );
    assert forall|i: int| 0 <= i < n implies (#[trigger] objects[i]).path@ != path by {
        assert(objects[n].path@ == path);
    }
    bluez::lemma_object_at(objects, path, n);
    law_a_remembered_lamp_is_recalled(path, objects, config);
}

/// A lamp that one search has found by a scan, and whose path has been stored,
/// is found by its stored path in the next search, as long as BlueZ manages the
/// same objects, whose paths are distinct. That search neither scans nor stores
/// anything.
pub proof fn law_a_found_lamp_is_found_again(
    known: Vec<ManagedObject>,
    rounds: Seq<Round>,
    elapsed: u64,
    objects: Vec<ManagedObject>,
    recalled: Option<String>,
    config: config::ConfigView,
)
    requires
        first_adapter(known@) is Some,
        all_in_vain(rounds, config),
        elapsed < config.scan_seconds,
        bluez_laws::has_distinct_paths(objects@),
        first_lamp(objects@, config) is Some,
        bluez::is_object_path(first_lamp(objects@, config)->0),
        text::opt_text(recalled) == bluez::stored_lamp(
            first_lamp(objects@, config)->0 + "\n"@,
            objects@,
            config,
        ),
    ensures
        ({
            let path = first_lamp(objects@, config)->0;
            let seen = after_events(
                Progress::Recall,
                seq![
                    SearchEvent::Recalled(None),
                    SearchEvent::Objects(known),
                    SearchEvent::Done,
                ] + round_events(rounds) + seq![
                    SearchEvent::Elapsed(elapsed),
                    SearchEvent::Objects(objects),
                ],
                config,
            );
            let stopped = after(seen, SearchEvent::Done, config);
            let again = after(Progress::Recall, SearchEvent::Recalled(recalled), config);
            &&& request(stopped) == Request::StorePath(path)
            &&& after(stopped, SearchEvent::Done, config) == (Progress::Found {
                path,
                from_cache: false,
            })
            &&& again == (Progress::Found { path, from_cache: true })
            &&& request(again) == Request::Stop
        }),
{
    let adapter = first_adapter(known@)->0;
    let path = first_lamp(objects@, config)->0;
    let head = seq![SearchEvent::Recalled(None), SearchEvent::Objects(known)];
    let begin = seq![SearchEvent::Done];
    let end = seq![SearchEvent::Elapsed(elapsed), SearchEvent::Objects(objects)];
    let tail = begin + round_events(rounds) + end;
    assert(seq![SearchEvent::Recalled(None), SearchEvent::Objects(known), SearchEvent::Done]
        + round_events(rounds) + end =~= head + tail);
    lemma_after_events_append(Progress::Recall, head, tail, config);
    assert(after_events(Progress::Recall, head, config) == (Progress::StartScan { adapter })) by {
        reveal_with_fuel(after_events, 3);
        assert(head.drop_last().drop_last() =~= Seq::empty());
    }
    law_the_first_lamp_seen_is_found(adapter, rounds, elapsed, objects, config);
    law_a_seen_lamp_is_recalled(objects@, path, config);
}

/// A stored path that is the lamp's is used, and nothing is scanned.
pub proof fn law_a_stored_path_is_used(path: String, config: config::ConfigView)
    ensures
        after(Progress::Recall, SearchEvent::Recalled(Some(path)), config) == (Progress::Found {
            path: path@,
            from_cache: true,
        }),
{
}

/// The lamp that the scan finds is the one that was first seen while there was
/// time left. The scan is stopped and the path is stored before it is used.
pub proof fn law_the_first_lamp_seen_is_found(
    adapter: Seq<char>,
    rounds: Seq<Round>,
    elapsed: u64,
    objects: Vec<ManagedObject>,
    config: config::ConfigView,
)
    requires
        all_in_vain(rounds, config),
        elapsed < config.scan_seconds,
        first_lamp(objects@, config) is Some,
    ensures
        ({
            let path = first_lamp(objects@, config)->0;
            let seen = after_events(
                Progress::StartScan { adapter },
                seq![SearchEvent::Done] + round_events(rounds) + seq![
                    SearchEvent::Elapsed(elapsed),
                    SearchEvent::Objects(objects),
                ],
                config,
            );
            let stopped = after(seen, SearchEvent::Done, config);
            &&& request(seen) == Request::StopDiscovery(adapter)
            &&& request(stopped) == Request::StorePath(path)
            &&& after(stopped, SearchEvent::Done, config) == (Progress::Found {
                path,
                from_cache: false,
            })
        }),
{
    let end = seq![SearchEvent::Elapsed(elapsed), SearchEvent::Objects(objects)];
    lemma_start_and_rounds(adapter, rounds, end, config);
    reveal_with_fuel(after_events, 3);
    assert(end.drop_last().drop_last() =~= Seq::empty());
}

/// If the lamp is not seen while there is time left, the scan is stopped and
/// the lamp is not found.
pub proof fn law_a_lamp_that_is_not_seen(
    adapter: Seq<char>,
    rounds: Seq<Round>,
    elapsed: u64,
    config: config::ConfigView,
)
    requires
        all_in_vain(rounds, config),
        elapsed >= config.scan_seconds,
    ensures
        ({
            let late = after_events(
                Progress::StartScan { adapter },
                seq![SearchEvent::Done] + round_events(rounds) + seq![
                    SearchEvent::Elapsed(elapsed),
                ],
                config,
            );
            &&& request(late) == Request::StopDiscovery(adapter)
            &&& after(late, SearchEvent::Done, config) == (Progress::Failed {
                error: error::Failure::LampNotFound,
            })
        }),
{
    let end = seq![SearchEvent::Elapsed(elapsed)];
    lemma_start_and_rounds(adapter, rounds, end, config);
    reveal_with_fuel(after_events, 2);
    assert(end.drop_last() =~= Seq::empty());
}

proof fn lemma_start_and_rounds(
    adapter: Seq<char>,
    rounds: Seq<Round>,
    end: Seq<SearchEvent>,
    config: config::ConfigView,
)
    requires
        all_in_vain(rounds, config),
    ensures
        after_events(
            Progress::StartScan { adapter },
            seq![SearchEvent::Done] + round_events(rounds) + end,
            config,
        ) == after_events(Progress::Wait { adapter }, end, config),
{
    let start = Progress::StartScan { adapter };
    let begin = seq![SearchEvent::Done];
    lemma_after_events_append(start, begin + round_events(rounds), end, config);
    lemma_after_events_append(start, begin, round_events(rounds), config);
    assert(after_events(start, begin, config) == (Progress::Wait { adapter })) by {
        reveal_with_fuel(after_events, 2);
        assert(begin.drop_last() =~= Seq::empty());
    }
    lemma_rounds(adapter, rounds, config);
}

} // verus!
