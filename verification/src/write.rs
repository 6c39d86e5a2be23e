//! Writing packets to a characteristic: each as a command or else as a request,
//! one after the other.

use crate::error::concat2;
use crate::hex;
use crate::text;
use vstd::prelude::*;

verus! {

/// The pause after each packet of a command, in milliseconds.
pub const WRITE_PAUSE_MILLIS: u64 = 250;

/// How one packet is written.
#[derive(Clone, Copy, Debug, PartialEq, Eq, Structural)]
pub enum WriteOne {
    /// As a command, which the lamp does not answer.
    AsCommand,
    /// As a request, which the lamp answers.
    AsRequest,
    /// It has been written.
    Written,
    /// It could not be written in either way.
    Failed,
}

/// What follows a call that succeeded or failed: a packet that cannot be
/// written as a command is written as a request.
pub open spec fn after_call(write: WriteOne, succeeded: bool) -> WriteOne {
    match write {
        WriteOne::AsCommand => if succeeded {
            WriteOne::Written
        } else {
            WriteOne::AsRequest
        },
        WriteOne::AsRequest => if succeeded {
            WriteOne::Written
        } else {
            WriteOne::Failed
        },
        _ => write,
    }
}

/// The `type` option of the call that writes the packet.
pub open spec fn write_type(write: WriteOne) -> Option<Seq<char>> {
    match write {
        WriteOne::AsCommand => Some("command"@),
        WriteOne::AsRequest => Some("request"@),
        _ => None,
    }
}

impl WriteOne {
    /// The beginning of a write.
    pub fn write_one_command() -> (r: WriteOne)
        ensures
            r == WriteOne::AsCommand,
    {
        WriteOne::AsCommand
    }

    /// What follows a call that succeeded or failed.
    pub fn next(self, succeeded: bool) -> (r: WriteOne)
        ensures
            r == after_call(self, succeeded),
    {
        match self {
            WriteOne::AsCommand => if succeeded {
                WriteOne::Written
            } else {
                WriteOne::AsRequest
            },
            WriteOne::AsRequest => if succeeded {
                WriteOne::Written
            } else {
                WriteOne::Failed
            },
            _ => self,
        }
    }

    /// The `type` option of the call that writes the packet, unless it has been
    /// written or has failed.
    pub fn option(self) -> (r: Option<&'static str>)
        ensures
            text::opt_str(r) == write_type(self),
    {
        match self {
            WriteOne::AsCommand => Some("command"),
            WriteOne::AsRequest => Some("request"),
            _ => None,
        }
    }
}

/// How far the packets have been written.
#[derive(Clone, Copy, Debug, PartialEq, Eq, Structural)]
pub enum WriteAll {
    /// The packet with this index is being written.
    Packet { index: usize, write: WriteOne },
    /// There is a pause after the packet with this index.
    Pause { index: usize },
    /// What the characteristic holds is read.
    ReadBack,
    /// All packets have been written.
    Written,
    /// The packet with this index could not be written.
    Failed { index: usize },
}

/// The write of the packet with this index, or what follows the last one:
/// more is read back if more is asked for.
pub open spec fn from_packet(index: nat, total: nat, verbose: bool) -> WriteAll {
    if index < total {
        WriteAll::Packet { index: index as usize, write: WriteOne::AsCommand }
    } else if verbose {
        WriteAll::ReadBack
    } else {
        WriteAll::Written
    }
}

/// What follows a call or a pause, if there are so many packets.
pub open spec fn after_step(
    write: WriteAll,
    succeeded: bool,
    total: nat,
    verbose: bool,
) -> WriteAll {
    match write {
        WriteAll::Packet { index, write } => match after_call(write, succeeded) {
            WriteOne::Written => WriteAll::Pause { index },
            WriteOne::Failed => WriteAll::Failed { index },
            then => WriteAll::Packet { index, write: then },
        },
        WriteAll::Pause { index } => from_packet((index + 1) as nat, total, verbose),
        WriteAll::ReadBack => WriteAll::Written,
        _ => write,
    }
}

/// What follows a number of calls and pauses.
pub open spec fn after_steps(total: nat, verbose: bool, outcomes: Seq<bool>) -> WriteAll
    decreases outcomes.len(),
{
    if outcomes.len() == 0 {
        from_packet(0, total, verbose)
    } else {
        after_step(
            after_steps(total, verbose, outcomes.drop_last()),
            outcomes.last(),
            total,
            verbose,
        )
    }
}

impl WriteAll {
    fn packet(index: usize, total: usize, verbose: bool) -> (r: WriteAll)
        ensures
            r == from_packet(index as nat, total as nat, verbose),
    {
        if index < total {
            WriteAll::Packet { index, write: WriteOne::write_one_command() }
        } else if verbose {
            WriteAll::ReadBack
        } else {
            WriteAll::Written
        }
    }

    /// The beginning of the writes.
    pub fn write_commands(commands: &[Vec<u8>], verbose: bool) -> (r: WriteAll)
        ensures
            r == from_packet(0, commands@.len(), verbose),
    {
        WriteAll::packet(0, commands.len(), verbose)
    }

    /// What follows a call or a pause.
    pub fn next(self, succeeded: bool, commands: &[Vec<u8>], verbose: bool) -> (r: WriteAll)
        ensures
            r == after_step(self, succeeded, commands@.len(), verbose),
    {
        match self {
            WriteAll::Packet { index, write } => match write.next(succeeded) {
                WriteOne::Written => WriteAll::Pause { index },
                WriteOne::Failed => WriteAll::Failed { index },
                then => WriteAll::Packet { index, write: then },
            },
            WriteAll::Pause { index } => if index < commands.len() {
                WriteAll::packet(index + 1, commands.len(), verbose)
            } else {
                WriteAll::packet(index, commands.len(), verbose)
            },
            WriteAll::ReadBack => WriteAll::Written,
            _ => self,
        }
    }
}

// ---------------------------------------------------------------------- lines

/// A line with bytes in it.
fn bytes_line(label: &str, bytes: &[u8]) -> (r: String)
    ensures
        r@ == label@ + hex::hex_text(bytes@),
{
    concat2(label, hex::hex(bytes).as_str())
}

/// The line that says which packet is written, which is also what is said of a
/// packet that could not be written.
pub fn write_line(packet: &[u8]) -> (r: String)
    ensures
        r@ == "write "@ + hex::hex_text(packet@),
{
    bytes_line("write ", packet)
}

/// The line that says which packet is written to which characteristic.
pub fn raw_write_line(uuid: &str, packet: &[u8]) -> (r: String)
    ensures
        r@ == "raw write "@ + uuid@ + " "@ + hex::hex_text(packet@),
{
    let mut out = concat2("raw write ", uuid);
    out.append(" ");
    out.append(hex::hex(packet).as_str());
    out
}

/// What came of reading a characteristic.
#[derive(Debug, PartialEq, Eq)]
pub enum Reading {
    Value(Vec<u8>),
    Refused(String),
}

/// The line that says what came of reading a characteristic.
pub open spec fn reading_text(label: Seq<char>, reading: Reading) -> Seq<char> {
    match reading {
        Reading::Value(bytes) => label + " "@ + hex::hex_text(bytes@),
        Reading::Refused(reason) => label + " failed: "@ + reason@,
    }
}

fn reading_line(label: &str, reading: &Reading) -> (r: String)
    ensures
        r@ == reading_text(label@, *reading),
{
    let mut out = label.to_owned();
    match reading {
        Reading::Value(bytes) => {
            out.append(" ");
            out.append(hex::hex(bytes.as_slice()).as_str());
        },
        Reading::Refused(reason) => {
            out.append(" failed: ");
            out.append(reason.as_str());
        },
    }
    out
}

/// The line that says what came of reading a characteristic in a report.
pub fn read_characteristic(reading: &Reading) -> (r: String)
    ensures
        r@ == reading_text("  read"@, *reading),
{
    reading_line("  read", reading)
}

/// The line that says what the characteristic holds after the writes. It is
/// read only if it can be.
pub fn readback_characteristic(can_read: bool, reading: Option<&Reading>) -> (r: Option<String>)
    ensures
        text::opt_text(r) == (if !can_read {
            Some("readback unavailable: characteristic lacks read flag"@)
        } else {
            match reading {
                Some(reading) => Some(reading_text("readback"@, *reading)),
                None => None,
            }
        }),
{
    if !can_read {
        return Some("readback unavailable: characteristic lacks read flag".to_owned());
    }
    match reading {
        Some(reading) => Some(reading_line("readback", reading)),
        None => None,
    }
}

// ----------------------------------------------------------------------- laws

/// A packet counts as written exactly if it could be written as a command or
/// as a request, and the request is made only if the command failed.
pub proof fn law_a_command_or_else_a_request(as_command: bool, as_request: bool)
    ensures
        as_command ==> after_call(WriteOne::AsCommand, as_command) == WriteOne::Written,
        !as_command ==> after_call(WriteOne::AsCommand, as_command) == WriteOne::AsRequest,
        after_call(after_call(WriteOne::AsCommand, as_command), as_request) == (if as_command
            || as_request {
            WriteOne::Written
        } else {
            WriteOne::Failed
        }),
{
}

/// The packets are written in their order, each once and with a pause after it,
/// as long as they can be written as commands.
pub proof fn law_packets_are_written_in_order(total: nat, verbose: bool, outcomes: Seq<bool>)
    requires
        total <= usize::MAX,
        outcomes.len() <= 2 * total,
        forall|i: int| 0 <= i < outcomes.len() ==> #[trigger] outcomes[i],
    ensures
        after_steps(total, verbose, outcomes) == (if outcomes.len() % 2 == 0 {
            from_packet((outcomes.len() / 2) as nat, total, verbose)
        } else {
            WriteAll::Pause { index: (outcomes.len() / 2) as usize }
        }),
    decreases outcomes.len(),
{
    if outcomes.len() > 0 {
        law_packets_are_written_in_order(total, verbose, outcomes.drop_last());
    }
}

/// A packet that can be written in neither way is the last that is tried.
pub proof fn law_a_failed_packet_is_the_last(
    index: usize,
    total: nat,
    verbose: bool,
    succeeded: bool,
)
    ensures
        ({
            let refused = after_step(
                WriteAll::Packet { index, write: WriteOne::AsCommand },
                false,
                total,
                verbose,
            );
            let failed = after_step(refused, false, total, verbose);
            &&& refused == (WriteAll::Packet { index, write: WriteOne::AsRequest })
            &&& failed == (WriteAll::Failed { index })
            &&& after_step(failed, succeeded, total, verbose) == failed
        }),
{
}

} // verus!
