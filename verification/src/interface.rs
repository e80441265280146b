//! The command interface: instruction codes, the error taxonomy, and
//! the command header check.
use vstd::prelude::*;

verus! {

/// The recognized instructions.
#[derive(Clone, Copy, PartialEq, Eq, Structural, Debug)]
pub enum Ins {
    /// Version query; served without touching the operation slot.
    GetVersion,
    /// Address query with on-screen confirmation.
    VerifyAddress,
    /// Address query, silent.
    GetPubkey,
    /// Transaction signing.
    Sign,
    /// Diagnostic: exercises every primitive and combinator kind.
    TestParsers,
    /// Version string query; served without touching the operation slot.
    GetVersionStr,
    /// Leave the application.
    Exit,
}

/// The error taxonomy. `Suspend` is not here: needing more input is a
/// successful, empty-payload exchange, not an error.
#[derive(Clone, Copy, PartialEq, Eq, Structural, Debug)]
pub enum Status {
    /// Structural or semantic parse failure, or the user declined.
    Reject,
    /// The parser finished before the chunk ended, or a chunk claimed
    /// more than the operation may consume.
    ChunkOverrun,
    /// Unknown instruction code, or a malformed header.
    UnrecognizedInstruction,
    /// Zero-length payload where data was required.
    EmptyCommand,
    /// The external cryptographic primitive reported a failure.
    CryptoFailure,
}

impl Status {
    /// The distinct wire code for each taxonomy bucket.
    pub open spec fn spec_code(self) -> u16 {
        match self {
            Status::Reject => 0x6985,
            Status::ChunkOverrun => 0x6700,
            Status::UnrecognizedInstruction => 0x6e01,
            Status::EmptyCommand => 0x6982,
            Status::CryptoFailure => 0x6f42,
        }
    }

    /// The distinct wire code for each taxonomy bucket.
    pub fn code(self) -> (r: u16)
        ensures
            r == self.spec_code(),
    {
        match self {
            Status::Reject => 0x6985,
            Status::ChunkOverrun => 0x6700,
            Status::UnrecognizedInstruction => 0x6e01,
            Status::EmptyCommand => 0x6982,
            Status::CryptoFailure => 0x6f42,
        }
    }
}

/// Which instruction a code byte names, if any.
pub open spec fn spec_ins_of_code(code: u8) -> Option<Ins> {
    if code == 0 {
        Some(Ins::GetVersion)
    } else if code == 1 {
        Some(Ins::VerifyAddress)
    } else if code == 2 {
        Some(Ins::GetPubkey)
    } else if code == 3 {
        Some(Ins::Sign)
    } else if code == 4 {
        Some(Ins::TestParsers)
    } else if code == 0xfe {
        Some(Ins::GetVersionStr)
    } else if code == 0xff {
        Some(Ins::Exit)
    } else {
        None
    }
}

/// What a command header resolves to: the class byte and both
/// parameter bytes must be zero, and the instruction must be known.
pub open spec fn spec_ins_of_header(cla: u8, ins: u8, p1: u8, p2: u8) -> Option<Ins> {
    if cla == 0 && p1 == 0 && p2 == 0 {
        spec_ins_of_code(ins)
    } else {
        None
    }
}

/// Resolve a command header, exactly as `spec_ins_of_header` says.
pub fn ins_of_header(cla: u8, ins: u8, p1: u8, p2: u8) -> (r: Option<Ins>)
    ensures
        r == spec_ins_of_header(cla, ins, p1, p2),
{
    if cla != 0 || p1 != 0 || p2 != 0 {
        return None;
    }
    match ins {
        0 => Some(Ins::GetVersion),
        1 => Some(Ins::VerifyAddress),
        2 => Some(Ins::GetPubkey),
        3 => Some(Ins::Sign),
        4 => Some(Ins::TestParsers),
        0xfe => Some(Ins::GetVersionStr),
        0xff => Some(Ins::Exit),
        _ => None,
    }
}

} // verus!
