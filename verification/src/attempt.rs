//! One attempt at a job: the phases that it goes through, in their order, and
//! what is done about a phase that fails.

use crate::config;
use crate::config::Config;
use crate::cache;
use crate::cache::{serialize_cached_lamp_state, SendJob};
use crate::error::concat2;
use crate::retry;
use crate::retry::{Reporting, Retry};
use crate::text;
use vstd::prelude::*;

verus! {

/// What is attempted.
#[derive(Clone, Copy, Debug, PartialEq, Eq, Structural)]
pub enum Job {
    /// Write packets.
    Send,
    /// Drop the connection and forget where the lamp was: there are no packets
    /// to write.
    Disconnect,
    /// List the GATT endpoints.
    Probe,
    /// Report the state of the lamp.
    State,
    /// Print notifications for some time.
    Listen,
    /// Write one packet as it is given, and print notifications for some time.
    RawWrite,
}

/// A part of an attempt. Each is one exchange with BlueZ or the file system.
#[derive(Clone, Copy, Debug, PartialEq, Eq, Structural)]
pub enum Phase {
    /// Find the lamp's device object.
    FindDevice,
    /// Drop the connection to the lamp.
    Disconnect,
    /// Forget the stored device path.
    Forget,
    /// Print the properties of the device.
    ReportDevice,
    /// Connect to the lamp.
    Connect,
    /// Connect to the lamp unless it is connected and its services are known.
    EnsureConnected,
    /// Find the characteristic that packets are written to.
    FindWritable,
    /// Find the characteristic with the given UUID.
    FindByUuid,
    /// Find the characteristics that send notifications.
    FindNotifying,
    /// The same, of which there must be one.
    FindEndpoints,
    /// Ask for notifications.
    Subscribe,
    /// Write the packets.
    WritePackets,
    /// Write the given packet.
    WriteRaw,
    /// Write the packet that asks for the state.
    RequestState,
    /// Wait for the notification that holds the state, and print it.
    AwaitState,
    /// Print notifications.
    PrintValues,
    /// List the GATT endpoints.
    DumpGatt,
    /// Read all characteristics that can be read.
    ReadAll,
    /// Print the state that was stored after the last command.
    ReportStored,
}

/// What is done after a phase has failed.
#[derive(Clone, Copy, Debug, PartialEq, Eq, Structural)]
pub struct Cleanup {
    /// Drop the connection to the lamp.
    pub disconnect: bool,
    /// Forget the stored device path.
    pub forget: bool,
    /// Say that the failure came while the decoded state was queried.
    pub while_querying: bool,
}

/// The phases that ask for the lamp's state and wait for the reply.
pub open spec fn query_phases() -> Seq<Phase> {
    seq![
        Phase::FindNotifying,
        Phase::Subscribe,
        Phase::FindWritable,
        Phase::RequestState,
        Phase::AwaitState,
    ]
}

/// The phases of a job.
pub open spec fn phases(job: Job) -> Seq<Phase> {
    match job {
        Job::Send => seq![
            Phase::FindDevice,
            Phase::Connect,
            Phase::FindWritable,
            Phase::WritePackets,
        ],
        Job::Disconnect => seq![Phase::FindDevice, Phase::Disconnect, Phase::Forget],
        Job::Probe => seq![Phase::FindDevice, Phase::Connect, Phase::DumpGatt],
        Job::State => seq![Phase::FindDevice, Phase::ReportDevice, Phase::EnsureConnected]
            + query_phases() + seq![Phase::ReadAll, Phase::ReportStored],
        Job::Listen => seq![
            Phase::FindDevice,
            Phase::EnsureConnected,
            Phase::FindEndpoints,
            Phase::Subscribe,
            Phase::PrintValues,
            Phase::ReadAll,
        ],
        Job::RawWrite => seq![
            Phase::FindDevice,
            Phase::EnsureConnected,
            Phase::FindNotifying,
            Phase::Subscribe,
            Phase::FindByUuid,
            Phase::WriteRaw,
            Phase::PrintValues,
            Phase::ReadAll,
        ],
    }
}

/// The phase connects to the lamp.
pub open spec fn connects(phase: Phase) -> bool {
    phase == Phase::Connect || phase == Phase::EnsureConnected
}

/// The phase writes to the lamp.
pub open spec fn writes(phase: Phase) -> bool {
    phase == Phase::WritePackets || phase == Phase::WriteRaw || phase == Phase::RequestState
}

/// What is done after a phase has failed. If the lamp cannot be reached, its
/// stored path is forgotten, but not while listening or after a raw packet. If
/// its state cannot be queried, the connection is dropped as well.
pub open spec fn cleanup_after(job: Job, phase: Phase) -> Cleanup {
    let querying = job == Job::State && query_phases().contains(phase);
    let unreachable = connects(phase) && job != Job::Listen && job != Job::RawWrite;
    Cleanup { disconnect: querying, forget: querying || unreachable, while_querying: querying }
}

/// How far an attempt has come.
#[derive(Clone, Copy, Debug, PartialEq, Eq, Structural)]
pub struct Attempt {
    pub job: Job,
    /// The number of phases that have succeeded.
    pub done: usize,
    /// The phase after these has failed.
    pub failed: bool,
}

/// What is to be done next.
#[derive(Clone, Copy, Debug, PartialEq, Eq, Structural)]
pub enum Step {
    /// Go through a phase.
    Perform(Phase),
    /// Nothing: the attempt succeeded.
    Succeed,
    /// Clean up: the attempt failed.
    Fail(Cleanup),
}

/// What is to be done next.
pub open spec fn step(attempt: Attempt) -> Step {
    if attempt.done >= phases(attempt.job).len() {
        Step::Succeed
    } else if attempt.failed {
        Step::Fail(cleanup_after(attempt.job, phases(attempt.job)[attempt.done as int]))
    } else {
        Step::Perform(phases(attempt.job)[attempt.done as int])
    }
}

/// How far the attempt is after a phase has succeeded or failed.
pub open spec fn advanced(attempt: Attempt, succeeded: bool) -> Attempt {
    if step(attempt) is Perform {
        if succeeded {
            Attempt { done: (attempt.done + 1) as usize, ..attempt }
        } else {
            Attempt { failed: true, ..attempt }
        }
    } else {
        attempt
    }
}

/// How far the attempt is after a number of phases.
pub open spec fn after_phases(job: Job, outcomes: Seq<bool>) -> Attempt
    decreases outcomes.len(),
{
    if outcomes.len() == 0 {
        Attempt { job, done: 0, failed: false }
    } else {
        advanced(after_phases(job, outcomes.drop_last()), outcomes.last())
    }
}

/// The phases of a job.
pub fn plan(job: Job) -> (r: Vec<Phase>)
    ensures
        r@ == phases(job),
{
    let r = match job {
        Job::Send => vec![
            Phase::FindDevice,
            Phase::Connect,
            Phase::FindWritable,
            Phase::WritePackets,
        ],
        Job::Disconnect => vec![Phase::FindDevice, Phase::Disconnect, Phase::Forget],
        Job::Probe => vec![Phase::FindDevice, Phase::Connect, Phase::DumpGatt],
        Job::State => vec![
            Phase::FindDevice,
            Phase::ReportDevice,
            Phase::EnsureConnected,
            Phase::FindNotifying,
            Phase::Subscribe,
            Phase::FindWritable,
            Phase::RequestState,
            Phase::AwaitState,
            Phase::ReadAll,
            Phase::ReportStored,
        ],
        Job::Listen => vec![
            Phase::FindDevice,
            Phase::EnsureConnected,
            Phase::FindEndpoints,
            Phase::Subscribe,
            Phase::PrintValues,
            Phase::ReadAll,
        ],
        Job::RawWrite => vec![
            Phase::FindDevice,
            Phase::EnsureConnected,
            Phase::FindNotifying,
            Phase::Subscribe,
            Phase::FindByUuid,
            Phase::WriteRaw,
            Phase::PrintValues,
            Phase::ReadAll,
        ],
    };
    assert(r@ =~= phases(job));
    r
}

proof fn lemma_query_phases(phase: Phase)
    ensures
        query_phases().contains(phase) == (phase == Phase::FindNotifying || phase
            == Phase::Subscribe || phase == Phase::FindWritable || phase == Phase::RequestState
            || phase == Phase::AwaitState),
{
    let all = query_phases();
    assert(all[0] == Phase::FindNotifying);
    assert(all[1] == Phase::Subscribe);
    assert(all[2] == Phase::FindWritable);
    assert(all[3] == Phase::RequestState);
    assert(all[4] == Phase::AwaitState);
}

/// What is done after a phase has failed.
pub fn cleanup(job: Job, phase: Phase) -> (r: Cleanup)
    ensures
        r == cleanup_after(job, phase),
{
    proof {
        lemma_query_phases(phase);
    }
    let querying = job == Job::State && (phase == Phase::FindNotifying || phase
        == Phase::Subscribe || phase == Phase::FindWritable || phase == Phase::RequestState || phase
        == Phase::AwaitState);
    let unreachable = (phase == Phase::Connect || phase == Phase::EnsureConnected) && job
        != Job::Listen && job != Job::RawWrite;
    Cleanup { disconnect: querying, forget: querying || unreachable, while_querying: querying }
}

impl Attempt {
    /// The beginning of an attempt.
    pub fn start(job: Job) -> (r: Attempt)
        ensures
            r == after_phases(job, Seq::empty()),
    {
        Attempt { job, done: 0, failed: false }
    }

    /// What is to be done next.
    pub fn step(&self) -> (r: Step)
        ensures
            r == step(*self),
    {
        let phases = plan(self.job);
        if self.done >= phases.len() {
            Step::Succeed
        } else if self.failed {
            Step::Fail(cleanup(self.job, phases[self.done]))
        } else {
            Step::Perform(phases[self.done])
        }
    }

    /// How far the attempt is after a phase has succeeded or failed.
    pub fn next(self, succeeded: bool) -> (r: Attempt)
        ensures
            r == advanced(self, succeeded),
    {
        match self.step() {
            Step::Perform(_) => if succeeded {
                Attempt { job: self.job, done: self.done + 1, failed: false }
            } else {
                Attempt { job: self.job, done: self.done, failed: true }
            },
            _ => self,
        }
    }
}

/// The job of writing packets, of which there may be none.
pub fn send_job(send: &SendJob) -> (r: Job)
    ensures
        r == (if send.commands@.len() == 0 {
            Job::Disconnect
        } else {
            Job::Send
        }),
{
    if send.commands.len() == 0 {
        Job::Disconnect
    } else {
        Job::Send
    }
}

/// How much is said about the attempts at a job.
pub fn reporting(job: Job) -> (r: Reporting)
    ensures
        r == (if job == Job::Send || job == Job::Disconnect {
            Reporting::Brief
        } else {
            Reporting::Full
        }),
{
    match job {
        Job::Send | Job::Disconnect => Reporting::Brief,
        _ => Reporting::Full,
    }
}

/// The time that BlueZ is given to answer a call while connecting, in seconds:
/// less for a device that was found by its stored path.
pub open spec fn call_seconds(config: config::ConfigView, from_cache: bool) -> u64 {
    if from_cache {
        config.cached_connect_call_seconds
    } else {
        config.connect_call_seconds
    }
}

/// The time that BlueZ is given to answer a call while connecting, in seconds.
pub fn connect_call_seconds(config: &Config, from_cache: bool) -> (r: u64)
    ensures
        r == call_seconds(config@, from_cache),
{
    if from_cache {
        config.cached_connect_call_seconds
    } else {
        config.connect_call_seconds
    }
}

/// The line that is printed before a phase, if there is one.
pub open spec fn heading_text(job: Job, phase: Phase) -> Option<Seq<char>> {
    match phase {
        Phase::ReportDevice => Some("live_state:"@),
        Phase::RequestState => Some("request decoded floor state 5f0100f5"@),
        Phase::ReadAll => if job == Job::State {
            None
        } else {
            Some("final readable values:"@)
        },
        _ => None,
    }
}

/// The line that is printed before a phase, if there is one.
pub fn heading(job: Job, phase: Phase) -> (r: Option<&'static str>)
    ensures
        text::opt_str(r) == heading_text(job, phase),
{
    match phase {
        Phase::ReportDevice => Some("live_state:"),
        Phase::RequestState => Some("request decoded floor state 5f0100f5"),
        Phase::ReadAll => if job == Job::State {
            None
        } else {
            Some("final readable values:")
        },
        _ => None,
    }
}

// ----------------------------------------------------------- after the attempts

/// A run ends well if an attempt succeeded. A report of the lamp's state also
/// ends well if a stored state could be reported in its place.
pub open spec fn ends_well(job: Job, retry: Retry, stored_reported: bool) -> bool {
    retry == Retry::Succeeded || (retry == Retry::GaveUp && job == Job::State && stored_reported)
}

/// Whether a run ends well.
pub fn run_succeeded(job: Job, retry: Retry, stored_reported: bool) -> (r: bool)
    ensures
        r == ends_well(job, retry, stored_reported),
{
    retry == Retry::Succeeded || (retry == Retry::GaveUp && job == Job::State && stored_reported)
}

/// The line that introduces the stored state where the lamp's own state could
/// not be read.
pub fn fallback_line(job: Job, retry: Retry, full: &str) -> (r: Option<String>)
    ensures
        text::opt_text(r) == (if job == Job::State && retry == Retry::GaveUp {
            Some("live_state unavailable: "@ + full@)
        } else {
            None
        }),
{
    if job == Job::State && retry == Retry::GaveUp {
        Some(concat2("live_state unavailable: ", full))
    } else {
        None
    }
}

/// What follows once packets have been written: a text to store, and lines to
/// print when it is stored.
#[derive(Debug, PartialEq, Eq)]
pub struct Completion {
    pub stored: Option<String>,
    pub lines: Vec<String>,
}

/// The lines that are printed once packets have been written.
pub open spec fn completion_lines(stores: bool, message: Seq<char>, verbose: bool) -> Seq<
    Seq<char>,
> {
    if stores && verbose {
        seq!["cached last-commanded state"@, message]
    } else {
        seq![message]
    }
}

/// What follows the attempts to send: only if one of them succeeded is anything
/// stored, or success reported.
pub fn sent(send: &SendJob, retry: Retry, verbose: bool) -> (r: Option<Completion>)
    ensures
        match r {
            Some(completion) => {
                &&& retry == Retry::Succeeded
                &&& text::opt_text(completion.stored) == (match cache::opt_state(send.state) {
                    Some(state) => Some(cache::state_text(state)),
                    None => None,
                })
                &&& text::texts(completion.lines@) == completion_lines(
                    send.state is Some,
                    send.message@,
                    verbose,
                )
            },
            None => retry != Retry::Succeeded,
        },
{
    if retry != Retry::Succeeded {
        return None;
    }
    let mut lines: Vec<String> = Vec::new();
    let stored = match &send.state {
        Some(state) => {
            if verbose {
                lines.push("cached last-commanded state".to_owned());
            }
            Some(serialize_cached_lamp_state(state))
        },
        None => None,
    };
    lines.push(send.message.clone());
    assert(text::texts(lines@) =~= completion_lines(send.state is Some, send.message@, verbose));
    Some(Completion { stored, lines })
}

// ----------------------------------------------------------------------- laws

/// While every phase succeeds, the next one in the job's order is gone through,
/// and after the last one the attempt has succeeded.
pub proof fn law_phases_follow_in_order(job: Job, outcomes: Seq<bool>)
    requires
        outcomes.len() <= phases(job).len(),
        forall|i: int| 0 <= i < outcomes.len() ==> #[trigger] outcomes[i],
    ensures
        step(after_phases(job, outcomes)) == (if outcomes.len() < phases(job).len() {
            Step::Perform(phases(job)[outcomes.len() as int])
        } else {
            Step::Succeed
        }),
        after_phases(job, outcomes) == (Attempt {
            job,
            done: outcomes.len() as usize,
            failed: false,
        }),
    decreases outcomes.len(),
{
    if outcomes.len() > 0 {
        law_phases_follow_in_order(job, outcomes.drop_last());
    }
}

/// The first phase that fails ends the attempt, with the cleanup for that
/// phase, whatever would have come after it.
pub proof fn law_first_failure_ends_the_attempt(job: Job, outcomes: Seq<bool>, i: int)
    requires
        0 <= i < outcomes.len(),
        i < phases(job).len(),
        !outcomes[i],
        forall|j: int| 0 <= j < i ==> #[trigger] outcomes[j],
    ensures
        step(after_phases(job, outcomes)) == Step::Fail(cleanup_after(job, phases(job)[i])),
        after_phases(job, outcomes) == (Attempt { job, done: i as usize, failed: true }),
    decreases outcomes.len(),
{
    if i < outcomes.len() - 1 {
        law_first_failure_ends_the_attempt(job, outcomes.drop_last(), i);
    } else {
        law_phases_follow_in_order(job, outcomes.drop_last());
    }
}

/// The state of the lamp is reported, live or as it was stored, unless every
/// attempt to read it failed and nothing was stored. Any other run ends well
/// exactly if one of its attempts succeeded.
pub proof fn law_when_a_run_ends_well(
    job: Job,
    total: u32,
    outcomes: Seq<bool>,
    stored_reported: bool,
)
    requires
        outcomes.len() == total,
    ensures
        ends_well(job, retry::after_attempts(total, outcomes), stored_reported) <==> (
        exists|i: int| 0 <= i < outcomes.len() && #[trigger] outcomes[i]) || (job == Job::State
            && stored_reported),
{
    retry::law_all_failures_give_up(total, outcomes);
}

/// Every attempt begins with finding the device.
pub proof fn law_the_device_is_found_first(job: Job)
    ensures
        phases(job).len() > 0,
        phases(job)[0] == Phase::FindDevice,
{
}

/// Nothing is written to the lamp before it has been connected.
pub proof fn law_nothing_is_written_before_connecting(job: Job, i: int)
    requires
        0 <= i < phases(job).len(),
        writes(phases(job)[i]),
    ensures
        exists|j: int| 0 <= j < i && connects(#[trigger] phases(job)[j]),
{
    let witness: int = match job {
        Job::State => 2,
        _ => 1,
    };
    assert(connects(phases(job)[witness]));
}

/// Dropping the connection, listing the endpoints and listening change nothing
/// about the lamp, and to report its state only the request for it is written.
pub proof fn law_examining_changes_nothing(job: Job, i: int)
    requires
        0 <= i < phases(job).len(),
    ensures
        job == Job::Disconnect || job == Job::Probe || job == Job::Listen ==> !writes(
            phases(job)[i],
        ),
        job == Job::State && writes(phases(job)[i]) ==> phases(job)[i] == Phase::RequestState,
{
}

/// The stored device path is forgotten when the connection has been dropped on
/// demand, and otherwise exactly if the lamp could not be connected in an attempt
/// to send, probe or report its state, or if its state could not be queried. Of
/// these failures only the last drops the connection.
pub proof fn law_when_the_stored_path_is_forgotten(job: Job, i: int)
    requires
        0 <= i < phases(job).len(),
    ensures
        phases(job)[i] == Phase::Forget <==> job == Job::Disconnect && i == 2,
        phases(Job::Disconnect).len() == 3,
        phases(Job::Disconnect)[1] == Phase::Disconnect,
        cleanup_after(job, phases(job)[i]).forget <==> (match job {
            Job::Send | Job::Probe => i == 1,
            Job::State => 2 <= i <= 7,
            _ => false,
        }),
        cleanup_after(job, phases(job)[i]).disconnect <==> job == Job::State && 3 <= i <= 7,
{
    lemma_query_phases(phases(job)[i]);
}

} // verus!
