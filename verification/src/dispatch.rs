//! The command dispatcher and operation slot.
//!
//! One slot holds the suspended state of the single in-flight
//! operation. Every command routes through `handle_command`; prompt
//! answers and cryptographic results come back through `handle_event`.
//! Any reject, overrun or cryptographic failure collapses the slot to
//! idle before returning.
use vstd::prelude::*;

use crate::engine::{gfeed, ginit, grun, GState, PState};
use crate::format::{dec_of, hex_of};
use crate::interface::{spec_ins_of_header, Ins, Status};
use crate::payload::{
    spec_len_schema, spec_observed_of, spec_path_of, spec_path_schema, spec_tx_body_schema,
    TX_CAP,
};
use crate::respbuf::address_payload;
use crate::schema::Schema;
use crate::txcheck::{spec_validate_tx, GTxSummary, TxSummary};

verus! {

/// Largest number of payload bytes one operation may consume in
/// total; a chunk that would take an operation past this bound is a
/// hard protocol reject.
pub const MAX_MESSAGE_BYTES: usize = 65536;

/// Version reported by the version query.
pub const VERSION_MAJOR: u8 = 0;

/// Version reported by the version query.
pub const VERSION_MINOR: u8 = 1;

/// Version reported by the version query.
pub const VERSION_PATCH: u8 = 0;

/// What the approval pipeline asks its surroundings to do; the
/// answer comes back as an `Event`.
pub enum Action {
    /// Show one fact and await accept or reject.
    ShowPrompt { title: String, body: String },
    /// Digest these bytes with the device's hash primitive, show the
    /// digest, and await accept or reject.
    ShowDigest { bytes: Vec<u8> },
    /// Derive the public key and address for this path.
    DeriveKeys { path: Vec<u32> },
    /// Sign the digest of these bytes with the key for this path.
    SignDigest { path: Vec<u32>, bytes: Vec<u8> },
    /// Leave the application.
    Exit,
}

/// Mathematical model of an action.
pub enum GAction {
    ShowPrompt { title: Seq<char>, body: Seq<char> },
    ShowDigest { bytes: Seq<u8> },
    DeriveKeys { path: Seq<u32> },
    SignDigest { path: Seq<u32>, bytes: Seq<u8> },
    Exit,
}

impl View for Action {
    type V = GAction;

    open spec fn view(&self) -> GAction {
        match self {
            Action::ShowPrompt { title, body } => GAction::ShowPrompt {
                title: title@,
                body: body@,
            },
            Action::ShowDigest { bytes } => GAction::ShowDigest { bytes: bytes@ },
            Action::DeriveKeys { path } => GAction::DeriveKeys { path: path@ },
            Action::SignDigest { path, bytes } => GAction::SignDigest {
                path: path@,
                bytes: bytes@,
            },
            Action::Exit => GAction::Exit,
        }
    }
}

/// How one exchange ends.
pub enum Outcome {
    /// Success: reply with this payload; the slot is idle again.
    Reply(Vec<u8>),
    /// Success with no payload: the parser needs more input.
    Pending,
    /// The operation continues: perform the action, then call
    /// `handle_event` with what came of it.
    Act(Action),
    /// Failure: reply with this status; the slot is idle again.
    Fail(Status),
}

/// Mathematical model of an outcome.
pub enum GOutcome {
    Reply(Seq<u8>),
    Pending,
    Act(GAction),
    Fail(Status),
}

impl View for Outcome {
    type V = GOutcome;

    open spec fn view(&self) -> GOutcome {
        match self {
            Outcome::Reply(bs) => GOutcome::Reply(bs@),
            Outcome::Pending => GOutcome::Pending,
            Outcome::Act(a) => GOutcome::Act(a@),
            Outcome::Fail(s) => GOutcome::Fail(*s),
        }
    }
}

/// What the surroundings hand back after performing an action.
pub enum Event {
    /// The user accepted (true) or declined (false) the prompt.
    Prompt(bool),
    /// The derived public key and address, or a definite failure.
    Keys(Option<(Vec<u8>, Vec<u8>)>),
    /// The signature, or a definite failure.
    Signature(Option<Vec<u8>>),
}

/// The confirmation steps of a displayed address query.
pub enum AddrStage {
    /// Announce that a public key will be provided.
    Intro,
    /// Show the address.
    Address,
    /// Final confirmation.
    Confirm,
}

/// The approval steps of a signing operation.
pub enum SignStage {
    /// Structured: show the recipient.
    Recipient,
    /// Structured: show the summed amount.
    Amount,
    /// Structured: show the gas budget.
    Budget,
    /// Structured: final confirmation.
    FinalKnown,
    /// Unrecognized transaction and blind signing disabled: the
    /// warning is shown, then the operation rejects.
    BlindRefuse,
    /// Blind: warn that the transaction was not recognized.
    BlindWarn,
    /// Blind: show the transaction digest.
    BlindDigest,
    /// Blind: await the derived key for the address prompt.
    BlindKeys,
    /// Blind: show the signing address.
    BlindAddr,
    /// Blind: final confirmation.
    FinalBlind,
}

/// The operation slot: at most one operation is ever in flight.
pub enum Op {
    /// No operation in flight.
    Idle,
    /// Address query: parsing the derivation path.
    GetAddr { silent: bool, used: usize, ps: PState },
    /// Address query: awaiting the derived key and address.
    AwaitKeys { silent: bool, path: Vec<u32> },
    /// Address query: walking the confirmation prompts.
    ConfirmAddr { stage: AddrStage, pk: Vec<u8>, addr: Vec<u8> },
    /// Signing: parsing the transaction length field.
    SignLen { used: usize, ps: PState },
    /// Signing: streaming the transaction bytes through the digest.
    SignTx { used: usize, body: Schema, ps: PState },
    /// Signing: parsing the derivation path, the digest input done.
    SignPath { used: usize, digest: Vec<u8>, ps: PState },
    /// Signing: walking the approval prompts.
    SignApprove {
        stage: SignStage,
        digest: Vec<u8>,
        path: Vec<u32>,
        summary: Option<TxSummary>,
        addr: Vec<u8>,
    },
    /// Signing: awaiting the signature.
    AwaitSig,
    /// Diagnostic: parsing the all-primitives payload.
    TestParse { used: usize, ps: PState },
    /// Diagnostic: awaiting the final prompt.
    ConfirmDiag,
}

/// Mathematical model of the operation slot.
pub enum GOp {
    Idle,
    GetAddr { silent: bool, used: nat, ps: GState },
    AwaitKeys { silent: bool, path: Seq<u32> },
    ConfirmAddr { stage: AddrStage, pk: Seq<u8>, addr: Seq<u8> },
    SignLen { used: nat, ps: GState },
    SignTx { used: nat, body: Schema, ps: GState },
    SignPath { used: nat, digest: Seq<u8>, ps: GState },
    SignApprove {
        stage: SignStage,
        digest: Seq<u8>,
        path: Seq<u32>,
        summary: Option<GTxSummary>,
        addr: Seq<u8>,
    },
    AwaitSig,
    TestParse { used: nat, ps: GState },
    ConfirmDiag,
}

impl View for Op {
    type V = GOp;

    open spec fn view(&self) -> GOp {
        match self {
            Op::Idle => GOp::Idle,
            Op::GetAddr { silent, used, ps } => GOp::GetAddr {
                silent: *silent,
                used: *used as nat,
                ps: ps@,
            },
            Op::AwaitKeys { silent, path } => GOp::AwaitKeys { silent: *silent, path: path@ },
            Op::ConfirmAddr { stage, pk, addr } => GOp::ConfirmAddr {
                stage: *stage,
                pk: pk@,
                addr: addr@,
            },
            Op::SignLen { used, ps } => GOp::SignLen { used: *used as nat, ps: ps@ },
            Op::SignTx { used, body, ps } => GOp::SignTx {
                used: *used as nat,
                body: *body,
                ps: ps@,
            },
            Op::SignPath { used, digest, ps } => GOp::SignPath {
                used: *used as nat,
                digest: digest@,
                ps: ps@,
            },
            Op::SignApprove { stage, digest, path, summary, addr } => GOp::SignApprove {
                stage: *stage,
                digest: digest@,
                path: path@,
                summary: crate::txcheck::summary_view(*summary),
                addr: addr@,
            },
            Op::AwaitSig => GOp::AwaitSig,
            Op::TestParse { used, ps } => GOp::TestParse { used: *used as nat, ps: ps@ },
            Op::ConfirmDiag => GOp::ConfirmDiag,
        }
    }
}

/// The signing core: the operation slot and the two fixed schemas of
/// the structured decode and the diagnostic.
pub struct Core {
    /// The single operation slot.
    pub op: Op,
    /// The structured transaction schema the signing flow decodes
    /// against.
    pub tx_schema: Schema,
    /// The diagnostic schema.
    pub diag_schema: Schema,
}

/// Mathematical model of the signing core.
pub struct GCore {
    pub op: GOp,
    pub tx_schema: Schema,
    pub diag_schema: Schema,
}

impl View for Core {
    type V = GCore;

    open spec fn view(&self) -> GCore {
        GCore { op: self.op@, tx_schema: self.tx_schema, diag_schema: self.diag_schema }
    }
}

impl Core {
    /// A fresh core: slot idle, schemas fixed.
    pub fn new() -> (r: Core)
        ensures
            r@.op == GOp::Idle,
            crate::txschema::is_tx_schema(r@.tx_schema),
            crate::txschema::is_diag_schema(r@.diag_schema),
    {
        Core {
            op: Op::Idle,
            tx_schema: crate::txschema::tx_schema(),
            diag_schema: crate::txschema::diag_schema(),
        }
    }

    /// The explicit cancel path: discard whatever is in flight.
    pub fn cancel(&mut self)
        ensures
            final(self)@ == (GCore { op: GOp::Idle, ..old(self)@ }),
    {
        self.op = Op::Idle;
    }
}

/// The instruction an in-flight operation belongs to.
pub open spec fn spec_op_ins(op: GOp) -> Option<Ins> {
    match op {
        GOp::Idle => None,
        GOp::GetAddr { silent, .. } => Some(
            if silent {
                Ins::GetPubkey
            } else {
                Ins::VerifyAddress
            },
        ),
        GOp::AwaitKeys { silent, .. } => Some(
            if silent {
                Ins::GetPubkey
            } else {
                Ins::VerifyAddress
            },
        ),
        GOp::ConfirmAddr { .. } => Some(Ins::VerifyAddress),
        GOp::SignLen { .. } => Some(Ins::Sign),
        GOp::SignTx { .. } => Some(Ins::Sign),
        GOp::SignPath { .. } => Some(Ins::Sign),
        GOp::SignApprove { .. } => Some(Ins::Sign),
        GOp::AwaitSig => Some(Ins::Sign),
        GOp::TestParse { .. } => Some(Ins::TestParsers),
        GOp::ConfirmDiag => Some(Ins::TestParsers),
    }
}

/// Whether the slot is in a phase that consumes command chunks.
pub open spec fn spec_op_parsing(op: GOp) -> bool {
    op matches GOp::GetAddr { .. } || op matches GOp::SignLen { .. } || op matches GOp::SignTx {
        ..
    } || op matches GOp::SignPath { .. } || op matches GOp::TestParse { .. }
}

/// Bytes the in-flight operation has consumed in earlier exchanges.
pub open spec fn spec_op_used(op: GOp) -> nat {
    match op {
        GOp::GetAddr { used, .. } => used,
        GOp::SignLen { used, .. } => used,
        GOp::SignTx { used, .. } => used,
        GOp::SignPath { used, .. } => used,
        GOp::TestParse { used, .. } => used,
        _ => 0,
    }
}

/// The version-query payload: the three version bytes, then the
/// application name.
pub open spec fn spec_version_payload() -> Seq<u8> {
    seq![VERSION_MAJOR, VERSION_MINOR, VERSION_PATCH] + spec_name_bytes()
}

/// The application name, as bytes.
pub open spec fn spec_name_bytes() -> Seq<u8> {
    seq![115u8, 117u8, 105u8]
}

/// One new idle core with everything else unchanged.
pub open spec fn idle(c: GCore) -> GCore {
    GCore { op: GOp::Idle, ..c }
}

/// Routing of one command exchange: version and exit paths never
/// touch the slot; an operation command continues its own operation
/// and discards any other; chunks are fed to the operation's parser
/// and the outcome is classified.
pub open spec fn spec_handle_command(
    c: GCore,
    settings: u8,
    cla: u8,
    ins: u8,
    p1: u8,
    p2: u8,
    data: Seq<u8>,
) -> (GCore, GOutcome) {
    match spec_ins_of_header(cla, ins, p1, p2) {
        None => (c, GOutcome::Fail(Status::UnrecognizedInstruction)),
        Some(Ins::GetVersion) => (c, GOutcome::Reply(spec_version_payload())),
        Some(Ins::GetVersionStr) => (c, GOutcome::Reply(spec_name_bytes())),
        Some(Ins::Exit) => (c, GOutcome::Act(GAction::Exit)),
        Some(i) => {
            let op = if spec_op_ins(c.op) == Some(i) {
                c.op
            } else {
                GOp::Idle
            };
            spec_op_chunk(c, settings, i, op, data)
        },
    }
}

/// Feed one chunk to the operation `op` (fresh or resumed) of
/// instruction `i`.
pub open spec fn spec_op_chunk(c: GCore, settings: u8, i: Ins, op: GOp, data: Seq<u8>) -> (
    GCore,
    GOutcome,
) {
    if op is Idle && data.len() == 0 {
        (idle(c), GOutcome::Fail(Status::EmptyCommand))
    } else if !(op is Idle) && !spec_op_parsing(op) {
        // a chunk arrived while the operation awaited a prompt or a
        // cryptographic result
        (idle(c), GOutcome::Fail(Status::Reject))
    } else if spec_op_used(op) + data.len() > MAX_MESSAGE_BYTES {
        (idle(c), GOutcome::Fail(Status::ChunkOverrun))
    } else {
        let used = (spec_op_used(op) + data.len()) as nat;
        match op {
            GOp::Idle => match i {
                Ins::GetPubkey => spec_feed_addr(
                    c,
                    true,
                    used,
                    ginit(spec_path_schema()),
                    data,
                ),
                Ins::VerifyAddress => spec_feed_addr(
                    c,
                    false,
                    used,
                    ginit(spec_path_schema()),
                    data,
                ),
                Ins::Sign => spec_feed_sign_len(c, settings, used, ginit(spec_len_schema()), data),
                Ins::TestParsers => spec_feed_diag(c, used, ginit(c.diag_schema), data),
                _ => (idle(c), GOutcome::Fail(Status::Reject)),
            },
            GOp::GetAddr { silent, ps, .. } => spec_feed_addr(c, silent, used, ps, data),
            GOp::SignLen { ps, .. } => spec_feed_sign_len(c, settings, used, ps, data),
            GOp::SignTx { body, ps, .. } => spec_feed_sign_tx(c, settings, used, body, ps, data),
            GOp::SignPath { digest, ps, .. } => spec_feed_sign_path(
                c,
                settings,
                used,
                digest,
                ps,
                data,
            ),
            GOp::TestParse { ps, .. } => spec_feed_diag(c, used, ps, data),
            _ => (idle(c), GOutcome::Fail(Status::Reject)),
        }
    }
}

/// Address flow, parsing phase: on completion exactly at the chunk's
/// end, ask for the keys; a parse failure, trailing bytes, or a value
/// that is no path reject.
pub open spec fn spec_feed_addr(c: GCore, silent: bool, used: nat, ps: GState, data: Seq<u8>) -> (
    GCore,
    GOutcome,
) {
    let (st, n) = gfeed(spec_path_schema(), ps, data);
    match st {
        GState::RejectG => (idle(c), GOutcome::Fail(Status::Reject)),
        GState::DoneG(v) => {
            if n < data.len() {
                (idle(c), GOutcome::Fail(Status::ChunkOverrun))
            } else {
                match spec_path_of(v) {
                    Some(path) => (
                        GCore { op: GOp::AwaitKeys { silent, path }, ..c },
                        GOutcome::Act(GAction::DeriveKeys { path }),
                    ),
                    None => (idle(c), GOutcome::Fail(Status::Reject)),
                }
            }
        },
        _ => (GCore { op: GOp::GetAddr { silent, used, ps: st }, ..c }, GOutcome::Pending),
    }
}

/// Signing flow, length phase: read the four length bytes; a length
/// above the transaction cap is a hard reject; whatever of the chunk
/// is left flows into the transaction phase.
pub open spec fn spec_feed_sign_len(
    c: GCore,
    settings: u8,
    used: nat,
    ps: GState,
    data: Seq<u8>,
) -> (GCore, GOutcome) {
    let (st, n) = gfeed(spec_len_schema(), ps, data);
    match st {
        GState::RejectG => (idle(c), GOutcome::Fail(Status::Reject)),
        GState::DoneG(v) => match v {
            crate::schema::GValue::Int(len) => {
                if len > TX_CAP as u64 {
                    (idle(c), GOutcome::Fail(Status::ChunkOverrun))
                } else {
                    let body = spec_tx_body_schema(len as usize);
                    spec_feed_sign_tx(
                        c,
                        settings,
                        used,
                        body,
                        ginit(body),
                        data.subrange(n as int, data.len() as int),
                    )
                }
            },
            _ => (idle(c), GOutcome::Fail(Status::Reject)),
        },
        _ => (GCore { op: GOp::SignLen { used, ps: st }, ..c }, GOutcome::Pending),
    }
}

/// Signing flow, transaction phase: stream the declared number of
/// bytes through the digest; whatever of the chunk is left flows into
/// the path phase.
pub open spec fn spec_feed_sign_tx(
    c: GCore,
    settings: u8,
    used: nat,
    body: Schema,
    ps: GState,
    data: Seq<u8>,
) -> (GCore, GOutcome) {
    let (st, n) = gfeed(body, ps, data);
    match st {
        GState::RejectG => (idle(c), GOutcome::Fail(Status::Reject)),
        GState::DoneG(v) => match spec_observed_of(v) {
            Some(digest) => spec_feed_sign_path(
                c,
                settings,
                used,
                digest,
                ginit(spec_path_schema()),
                data.subrange(n as int, data.len() as int),
            ),
            None => (idle(c), GOutcome::Fail(Status::Reject)),
        },
        _ => (GCore { op: GOp::SignTx { used, body, ps: st }, ..c }, GOutcome::Pending),
    }
}

/// Signing flow, path phase: on completion exactly at the chunk's
/// end, attempt the structured decode and enter approval.
pub open spec fn spec_feed_sign_path(
    c: GCore,
    settings: u8,
    used: nat,
    digest: Seq<u8>,
    ps: GState,
    data: Seq<u8>,
) -> (GCore, GOutcome) {
    let (st, n) = gfeed(spec_path_schema(), ps, data);
    match st {
        GState::RejectG => (idle(c), GOutcome::Fail(Status::Reject)),
        GState::DoneG(v) => {
            if n < data.len() {
                (idle(c), GOutcome::Fail(Status::ChunkOverrun))
            } else {
                match spec_path_of(v) {
                    Some(path) => spec_sign_approve_enter(c, settings, digest, path),
                    None => (idle(c), GOutcome::Fail(Status::Reject)),
                }
            }
        },
        _ => (GCore { op: GOp::SignPath { used, digest, ps: st }, ..c }, GOutcome::Pending),
    }
}

/// The structural decode the signing flow attempts once the whole
/// payload is in: the digest input must parse to completion with
/// nothing left over.
pub open spec fn spec_structural_decode(c: GCore, digest: Seq<u8>) -> Option<
    crate::schema::GValue,
> {
    let (st, n) = gfeed(c.tx_schema, ginit(c.tx_schema), digest);
    match st {
        GState::DoneG(v) => {
            if n == digest.len() {
                Some(v)
            } else {
                None
            }
        },
        _ => None,
    }
}

/// Enter the approval pipeline. A transaction that decodes and
/// passes semantic validation walks the structured prompts; one that
/// decodes but fails validation — a duplicated or missing recipient,
/// a dangling reference, an overflowing total — rejects outright; one
/// that does not decode at all falls back to blind signing, which the
/// persisted setting must permit.
pub open spec fn spec_sign_approve_enter(
    c: GCore,
    settings: u8,
    digest: Seq<u8>,
    path: Seq<u32>,
) -> (GCore, GOutcome) {
    match spec_structural_decode(c, digest) {
        Some(decoded) => match spec_validate_tx(decoded) {
            None => (idle(c), GOutcome::Fail(Status::Reject)),
            Some(s) => spec_structured_prompts(c, digest, path, s),
        },
        None => spec_blind_entry(c, settings, digest, path),
    }
}

/// The first structured prompt: the recipient.
pub open spec fn spec_structured_prompts(
    c: GCore,
    digest: Seq<u8>,
    path: Seq<u32>,
    s: GTxSummary,
) -> (GCore, GOutcome) {
    (
            GCore {
                op: GOp::SignApprove {
                    stage: SignStage::Recipient,
                    digest,
                    path,
                    summary: Some(s),
                    addr: Seq::empty(),
                },
                ..c
            },
            GOutcome::Act(
                GAction::ShowPrompt { title: "Transfer"@, body: hex_of(s.recipient) },
            ),
        )
}

/// Enter the blind-signing fallback.
pub open spec fn spec_blind_entry(c: GCore, settings: u8, digest: Seq<u8>, path: Seq<u32>) -> (
    GCore,
    GOutcome,
) {
    {
            if settings == 0 {
                (
                    GCore {
                        op: GOp::SignApprove {
                            stage: SignStage::BlindRefuse,
                            digest,
                            path,
                            summary: None,
                            addr: Seq::empty(),
                        },
                        ..c
                    },
                    GOutcome::Act(
                        GAction::ShowPrompt {
                            title: "WARNING"@,
                            body:
                                "Transaction not recognized, enable blind signing to sign unknown transactions"@,
                        },
                    ),
                )
            } else {
                (
                    GCore {
                        op: GOp::SignApprove {
                            stage: SignStage::BlindWarn,
                            digest,
                            path,
                            summary: None,
                            addr: Seq::empty(),
                        },
                        ..c
                    },
                    GOutcome::Act(
                        GAction::ShowPrompt {
                            title: "WARNING"@,
                            body: "Transaction not recognized"@,
                        },
                    ),
                )
            }
        }
}

/// Diagnostic flow: parse the all-primitives payload, then one final
/// prompt.
pub open spec fn spec_feed_diag(c: GCore, used: nat, ps: GState, data: Seq<u8>) -> (
    GCore,
    GOutcome,
) {
    let (st, n) = gfeed(c.diag_schema, ps, data);
    match st {
        GState::RejectG => (idle(c), GOutcome::Fail(Status::Reject)),
        GState::DoneG(v) => {
            if n < data.len() {
                (idle(c), GOutcome::Fail(Status::ChunkOverrun))
            } else {
                (
                    GCore { op: GOp::ConfirmDiag, ..c },
                    GOutcome::Act(GAction::ShowPrompt { title: "Parse done"@, body: ""@ }),
                )
            }
        },
        _ => (GCore { op: GOp::TestParse { used, ps: st }, ..c }, GOutcome::Pending),
    }
}

/// Routing of one returned event. A declined prompt, an event of the
/// wrong kind, or an event while nothing awaited one all reject and
/// leave the slot idle.
pub open spec fn spec_handle_event(c: GCore, settings: u8, ev: Event) -> (GCore, GOutcome) {
    match c.op {
        GOp::AwaitKeys { silent, path } => match ev {
            Event::Keys(None) => (idle(c), GOutcome::Fail(Status::CryptoFailure)),
            Event::Keys(Some((pk, addr))) => {
                if pk@.len() > 255 || addr@.len() > 255 || 2 + pk@.len() + addr@.len()
                    > crate::respbuf::RESPONSE_CAP {
                    (idle(c), GOutcome::Fail(Status::Reject))
                } else if silent {
                    (idle(c), GOutcome::Reply(address_payload(pk@, addr@)))
                } else {
                    (
                        GCore {
                            op: GOp::ConfirmAddr { stage: AddrStage::Intro, pk: pk@, addr: addr@ },
                            ..c
                        },
                        GOutcome::Act(
                            GAction::ShowPrompt { title: "Provide Public Key"@, body: ""@ },
                        ),
                    )
                }
            },
            _ => (idle(c), GOutcome::Fail(Status::Reject)),
        },
        GOp::ConfirmAddr { stage, pk, addr } => match ev {
            Event::Prompt(true) => match stage {
                AddrStage::Intro => (
                    GCore {
                        op: GOp::ConfirmAddr { stage: AddrStage::Address, pk, addr },
                        ..c
                    },
                    GOutcome::Act(GAction::ShowPrompt { title: "Address"@, body: hex_of(addr) }),
                ),
                AddrStage::Address => (
                    GCore {
                        op: GOp::ConfirmAddr { stage: AddrStage::Confirm, pk, addr },
                        ..c
                    },
                    GOutcome::Act(GAction::ShowPrompt { title: "Confirm"@, body: ""@ }),
                ),
                AddrStage::Confirm => {
                    if pk.len() > 255 || addr.len() > 255 || 2 + pk.len() + addr.len()
                        > crate::respbuf::RESPONSE_CAP {
                        (idle(c), GOutcome::Fail(Status::Reject))
                    } else {
                        (idle(c), GOutcome::Reply(address_payload(pk, addr)))
                    }
                },
            },
            _ => (idle(c), GOutcome::Fail(Status::Reject)),
        },
        GOp::SignApprove { stage, digest, path, summary, addr } => spec_sign_event(
            c,
            stage,
            digest,
            path,
            summary,
            addr,
            ev,
        ),
        GOp::AwaitSig => match ev {
            Event::Signature(Some(sig)) => (idle(c), GOutcome::Reply(sig@)),
            Event::Signature(None) => (idle(c), GOutcome::Fail(Status::CryptoFailure)),
            _ => (idle(c), GOutcome::Fail(Status::Reject)),
        },
        GOp::ConfirmDiag => match ev {
            Event::Prompt(true) => (idle(c), GOutcome::Reply(Seq::empty())),
            _ => (idle(c), GOutcome::Fail(Status::Reject)),
        },
        _ => (idle(c), GOutcome::Fail(Status::Reject)),
    }
}

/// One approval step of the signing flow.
pub open spec fn spec_sign_event(
    c: GCore,
    stage: SignStage,
    digest: Seq<u8>,
    path: Seq<u32>,
    summary: Option<GTxSummary>,
    addr: Seq<u8>,
    ev: Event,
) -> (GCore, GOutcome) {
    match stage {
        SignStage::BlindKeys => match ev {
            Event::Keys(Some((pk, a))) => (
                GCore {
                    op: GOp::SignApprove {
                        stage: SignStage::BlindAddr,
                        digest,
                        path,
                        summary,
                        addr: a@,
                    },
                    ..c
                },
                GOutcome::Act(
                    GAction::ShowPrompt { title: "Sign for Address"@, body: hex_of(a@) },
                ),
            ),
            Event::Keys(None) => (idle(c), GOutcome::Fail(Status::CryptoFailure)),
            _ => (idle(c), GOutcome::Fail(Status::Reject)),
        },
        _ => match ev {
            Event::Prompt(true) => match stage {
                SignStage::Recipient => match summary {
                    Some(s) => (
                        GCore {
                            op: GOp::SignApprove {
                                stage: SignStage::Amount,
                                digest,
                                path,
                                summary,
                                addr,
                            },
                            ..c
                        },
                        GOutcome::Act(
                            GAction::ShowPrompt {
                                title: "Amount"@,
                                body: dec_of(s.total_amount as nat),
                            },
                        ),
                    ),
                    None => (idle(c), GOutcome::Fail(Status::Reject)),
                },
                SignStage::Amount => match summary {
                    Some(s) => (
                        GCore {
                            op: GOp::SignApprove {
                                stage: SignStage::Budget,
                                digest,
                                path,
                                summary,
                                addr,
                            },
                            ..c
                        },
                        GOutcome::Act(
                            GAction::ShowPrompt {
                                title: "Gas Budget"@,
                                body: dec_of(s.gas_budget as nat),
                            },
                        ),
                    ),
                    None => (idle(c), GOutcome::Fail(Status::Reject)),
                },
                SignStage::Budget => (
                    GCore {
                        op: GOp::SignApprove {
                            stage: SignStage::FinalKnown,
                            digest,
                            path,
                            summary,
                            addr,
                        },
                        ..c
                    },
                    GOutcome::Act(
                        GAction::ShowPrompt { title: "Sign Transaction?"@, body: ""@ },
                    ),
                ),
                SignStage::FinalKnown => (
                    GCore { op: GOp::AwaitSig, ..c },
                    GOutcome::Act(GAction::SignDigest { path, bytes: digest }),
                ),
                SignStage::BlindRefuse => (idle(c), GOutcome::Fail(Status::Reject)),
                SignStage::BlindWarn => (
                    GCore {
                        op: GOp::SignApprove {
                            stage: SignStage::BlindDigest,
                            digest,
                            path,
                            summary,
                            addr,
                        },
                        ..c
                    },
                    GOutcome::Act(GAction::ShowDigest { bytes: digest }),
                ),
                SignStage::BlindDigest => (
                    GCore {
                        op: GOp::SignApprove {
                            stage: SignStage::BlindKeys,
                            digest,
                            path,
                            summary,
                            addr,
                        },
                        ..c
                    },
                    GOutcome::Act(GAction::DeriveKeys { path }),
                ),
                SignStage::BlindAddr => (
                    GCore {
                        op: GOp::SignApprove {
                            stage: SignStage::FinalBlind,
                            digest,
                            path,
                            summary,
                            addr,
                        },
                        ..c
                    },
                    GOutcome::Act(
                        GAction::ShowPrompt { title: "Blind Sign Transaction?"@, body: ""@ },
                    ),
                ),
                SignStage::FinalBlind => (
                    GCore { op: GOp::AwaitSig, ..c },
                    GOutcome::Act(GAction::SignDigest { path, bytes: digest }),
                ),
                SignStage::BlindKeys => (idle(c), GOutcome::Fail(Status::Reject)),
            },
            _ => (idle(c), GOutcome::Fail(Status::Reject)),
        },
    }
}

/// At most one operation: a command that starts or continues some
/// other instruction than the one in flight behaves exactly as if the
/// slot had been idle — whatever state the old operation had is
/// discarded entirely, never consulted.
pub proof fn lemma_one_operation(
    c: GCore,
    settings: u8,
    cla: u8,
    ins: u8,
    p1: u8,
    p2: u8,
    data: Seq<u8>,
)
    requires
        spec_ins_of_header(cla, ins, p1, p2) matches Some(i) && (i == Ins::GetPubkey || i
            == Ins::VerifyAddress || i == Ins::Sign || i == Ins::TestParsers) && spec_op_ins(c.op)
            != Some(i),
    ensures
        spec_handle_command(c, settings, cla, ins, p1, p2, data) == spec_handle_command(
            idle(c),
            settings,
            cla,
            ins,
            p1,
            p2,
            data,
        ),
{
}

/// Reject resets: every failing exchange other than an unrecognized
/// instruction leaves the operation slot idle — no partially applied
/// state survives an error.
pub proof fn lemma_reject_resets_command(
    c: GCore,
    settings: u8,
    cla: u8,
    ins: u8,
    p1: u8,
    p2: u8,
    data: Seq<u8>,
)
    ensures
        ({
            let (c2, o2) = spec_handle_command(c, settings, cla, ins, p1, p2, data);
            (o2 matches GOutcome::Fail(s) && s != Status::UnrecognizedInstruction) ==> c2.op
                == GOp::Idle
        }),
{
}

/// Reject resets, event side: every failing event leaves the
/// operation slot idle.
pub proof fn lemma_reject_resets_event(c: GCore, settings: u8, ev: Event)
    ensures
        ({
            let (c2, o2) = spec_handle_event(c, settings, ev);
            o2 is Fail ==> c2.op == GOp::Idle
        }),
{
}

/// A version query succeeds immediately whatever is in flight, and
/// touches nothing: in particular, right after any rejected exchange.
pub proof fn lemma_version_always_replies(c: GCore, settings: u8, data: Seq<u8>)
    ensures
        spec_handle_command(c, settings, 0, 0, 0, 0, data) == (
            c,
            GOutcome::Reply(spec_version_payload()),
        ),
{
}

/// A whole signing exchange is exact: for any transaction bytes and
/// any path, the single-exchange payload — length field, transaction
/// bytes, encoded path — takes an idle core straight to the approval
/// pipeline holding exactly those transaction bytes as the digest
/// input and exactly that path, with nothing dropped, duplicated or
/// reordered on the way.
pub proof fn lemma_sign_exchange_exact(c: GCore, settings: u8, tx: Seq<u8>, ps: Seq<u32>)
    requires
        c.op == GOp::Idle,
        1 <= tx.len() <= TX_CAP,
        ps.len() <= crate::payload::PATH_CAP,
        4 + tx.len() + crate::payload::encode_path(ps).len() <= MAX_MESSAGE_BYTES,
    ensures
        ({
            let data = crate::payload::u32_le_bytes(tx.len() as u32) + tx
                + crate::payload::encode_path(ps);
            spec_handle_command(c, settings, 0, 3, 0, 0, data) == spec_sign_approve_enter(
                c,
                settings,
                tx,
                ps,
            )
        }),
{
    let lenb = crate::payload::u32_le_bytes(tx.len() as u32);
    let enc = crate::payload::encode_path(ps);
    let data = lenb + tx + enc;
    let lsch = spec_len_schema();
    let used = data.len() as nat;

    // the length field parses to the declared length, consuming
    // exactly its four bytes
    assert forall|j: int| 0 <= j < 4 implies !(#[trigger] grun(
        lsch,
        ginit(lsch),
        data.subrange(0, j),
    )).is_halt() by {
        assert(data.subrange(0, j) =~= lenb.subrange(0, j));
        crate::engine::lemma_uint_le_decode(4, lenb.subrange(0, j));
    }
    assert(data.subrange(0, 4) =~= lenb);
    crate::engine::lemma_uint_le_decode(4, lenb);
    crate::payload::lemma_u32_le_bytes_value(tx.len() as u32);
    crate::engine::lemma_gfeed_count(lsch, ginit(lsch), data, 4);
    assert(gfeed(lsch, ginit(lsch), data) == (
        GState::DoneG(crate::schema::GValue::Int((tx.len() as u32) as u64)),
        4nat,
    ));

    // the remainder of the exchange after the length field
    let rest = data.subrange(4, data.len() as int);
    assert(rest =~= tx + enc);
    let n = tx.len() as int;
    let body = spec_tx_body_schema(((tx.len() as u32) as u64) as usize);
    assert(((tx.len() as u32) as u64) as usize == tx.len());

    // the transaction bytes stream through the digest, consuming
    // exactly the declared number of bytes
    assert forall|j: int| 0 <= j < n implies !(#[trigger] grun(
        body,
        ginit(body),
        rest.subrange(0, j),
    )).is_halt() by {
        assert(rest.subrange(0, j) =~= tx.subrange(0, j));
        crate::payload::lemma_tx_body_digest(tx.len() as usize, tx.subrange(0, j));
    }
    assert(rest.subrange(0, n) =~= tx);
    crate::payload::lemma_tx_body_digest(tx.len() as usize, tx);
    crate::engine::lemma_gfeed_count(body, ginit(body), rest, n);
    assert(gfeed(body, ginit(body), rest) == (
        GState::DoneG(crate::engine::obs_value(tx, crate::schema::GValue::Unit)),
        tx.len() as nat,
    ));
    assert(spec_observed_of(crate::engine::obs_value(tx, crate::schema::GValue::Unit)) == Some(
        tx,
    )) by {
        let vs = seq![crate::schema::GValue::Bytes(tx), crate::schema::GValue::Unit];
        assert(vs.len() == 2);
        assert(vs[0] == crate::schema::GValue::Bytes(tx));
    }

    // the path parses to its components, consuming the rest exactly
    let rest2 = rest.subrange(n, rest.len() as int);
    assert(rest2 =~= enc);
    let psch = spec_path_schema();
    assert forall|j: int| 0 <= j < rest2.len() implies !(#[trigger] grun(
        psch,
        ginit(psch),
        rest2.subrange(0, j),
    )).is_halt() by {
        assert(rest2.subrange(0, j) =~= enc.subrange(0, j));
        crate::payload::lemma_path_enc_prefix(ps, j);
    }
    crate::engine::lemma_gfeed_count(psch, ginit(psch), rest2, rest2.len() as int);
    assert(rest2.subrange(0, rest2.len() as int) =~= enc);
    crate::payload::lemma_path_roundtrip(ps);
    assert(gfeed(psch, ginit(psch), rest2) == (
        GState::DoneG(crate::schema::GValue::List(crate::payload::path_values(ps))),
        rest2.len() as nat,
    ));
    assert(spec_path_of(crate::schema::GValue::List(crate::payload::path_values(ps))) == Some(
        ps,
    ));
}

/// The version-query payload (see `spec_version_payload`).
fn version_payload_x() -> (r: Vec<u8>)
    ensures
        r@ == spec_version_payload(),
{
    let mut out: Vec<u8> = Vec::new();
    out.push(VERSION_MAJOR);
    out.push(VERSION_MINOR);
    out.push(VERSION_PATCH);
    out.push(115);
    out.push(117);
    out.push(105);
    proof {
        assert(out@ =~= spec_version_payload());
    }
    out
}

/// The application name payload (see `spec_name_bytes`).
fn name_payload_x() -> (r: Vec<u8>)
    ensures
        r@ == spec_name_bytes(),
{
    let mut out: Vec<u8> = Vec::new();
    out.push(115);
    out.push(117);
    out.push(105);
    proof {
        assert(out@ =~= spec_name_bytes());
    }
    out
}

/// The instruction an in-flight operation belongs to (see
/// `spec_op_ins`).
fn op_ins_x(op: &Op) -> (r: Option<Ins>)
    ensures
        r == spec_op_ins(op@),
{
    match op {
        Op::Idle => None,
        Op::GetAddr { silent, .. } => Some(
            if *silent {
                Ins::GetPubkey
            } else {
                Ins::VerifyAddress
            },
        ),
        Op::AwaitKeys { silent, .. } => Some(
            if *silent {
                Ins::GetPubkey
            } else {
                Ins::VerifyAddress
            },
        ),
        Op::ConfirmAddr { .. } => Some(Ins::VerifyAddress),
        Op::SignLen { .. } => Some(Ins::Sign),
        Op::SignTx { .. } => Some(Ins::Sign),
        Op::SignPath { .. } => Some(Ins::Sign),
        Op::SignApprove { .. } => Some(Ins::Sign),
        Op::AwaitSig => Some(Ins::Sign),
        Op::TestParse { .. } => Some(Ins::TestParsers),
        Op::ConfirmDiag => Some(Ins::TestParsers),
    }
}

/// Whether the slot is in a chunk-consuming phase (see
/// `spec_op_parsing`).
fn op_parsing_x(op: &Op) -> (r: bool)
    ensures
        r == spec_op_parsing(op@),
{
    match op {
        Op::GetAddr { .. } => true,
        Op::SignLen { .. } => true,
        Op::SignTx { .. } => true,
        Op::SignPath { .. } => true,
        Op::TestParse { .. } => true,
        _ => false,
    }
}

/// Bytes the in-flight operation has consumed so far (see
/// `spec_op_used`).
fn op_used_x(op: &Op) -> (r: usize)
    ensures
        r as nat == spec_op_used(op@),
{
    match op {
        Op::GetAddr { used, .. } => *used,
        Op::SignLen { used, .. } => *used,
        Op::SignTx { used, .. } => *used,
        Op::SignPath { used, .. } => *used,
        Op::TestParse { used, .. } => *used,
        _ => 0,
    }
}

impl Core {
    /// Handle one command exchange, exactly as `spec_handle_command`
    /// says: version and exit paths leave the slot alone; an
    /// operation command continues its own operation and discards any
    /// other; the chunk is fed to the operation's parser and the
    /// outcome classified.
    pub fn handle_command(
        &mut self,
        settings: u8,
        cla: u8,
        ins: u8,
        p1: u8,
        p2: u8,
        data: &[u8],
    ) -> (r: Outcome)
        ensures
            ({
                let (c2, o2) = spec_handle_command(old(self)@, settings, cla, ins, p1, p2, data@);
                final(self)@ == c2 && r@ == o2
            }),
    {
        let code = crate::interface::ins_of_header(cla, ins, p1, p2);
        match code {
            None => Outcome::Fail(Status::UnrecognizedInstruction),
            Some(Ins::GetVersion) => Outcome::Reply(version_payload_x()),
            Some(Ins::GetVersionStr) => Outcome::Reply(name_payload_x()),
            Some(Ins::Exit) => Outcome::Act(Action::Exit),
            Some(i) => {
                let mut cur = Op::Idle;
                core::mem::swap(&mut self.op, &mut cur);
                let same = match op_ins_x(&cur) {
                    Some(j) => j == i,
                    None => false,
                };
                let base = if same {
                    cur
                } else {
                    Op::Idle
                };
                self.op_chunk(settings, i, base, data)
            },
        }
    }

    /// Feed one chunk to the operation (see `spec_op_chunk`). The
    /// slot must have been taken out before the call; this writes the
    /// new slot state.
    fn op_chunk(&mut self, settings: u8, i: Ins, base: Op, data: &[u8]) -> (r: Outcome)
        requires
            spec_op_ins(base@) == Some(i) || base@ == GOp::Idle,
        ensures
            ({
                let (c2, o2) = spec_op_chunk(old(self)@, settings, i, base@, data@);
                final(self)@ == c2 && r@ == o2
            }),
    {
        let is_idle = match &base {
            Op::Idle => true,
            _ => false,
        };
        if is_idle && data.len() == 0 {
            self.op = Op::Idle;
            return Outcome::Fail(Status::EmptyCommand);
        }
        if !is_idle && !op_parsing_x(&base) {
            self.op = Op::Idle;
            return Outcome::Fail(Status::Reject);
        }
        let used0 = op_used_x(&base);
        if used0 > MAX_MESSAGE_BYTES || data.len() > MAX_MESSAGE_BYTES - used0 {
            self.op = Op::Idle;
            return Outcome::Fail(Status::ChunkOverrun);
        }
        let used = used0 + data.len();
        proof {
            assert(data@.subrange(0, data@.len() as int) =~= data@);
        }
        match base {
            Op::Idle => match i {
                Ins::GetPubkey => {
                    let ps = crate::engine::init_state(&crate::payload::path_schema());
                    self.feed_addr(true, used, ps, data, 0)
                },
                Ins::VerifyAddress => {
                    let ps = crate::engine::init_state(&crate::payload::path_schema());
                    self.feed_addr(false, used, ps, data, 0)
                },
                Ins::Sign => {
                    let ps = crate::engine::init_state(&crate::payload::len_schema());
                    self.feed_sign_len(settings, used, ps, data, 0)
                },
                Ins::TestParsers => {
                    let ps = crate::engine::init_state(&self.diag_schema);
                    self.feed_diag(used, ps, data, 0)
                },
                _ => {
                    self.op = Op::Idle;
                    Outcome::Fail(Status::Reject)
                },
            },
            Op::GetAddr { silent, ps, .. } => self.feed_addr(silent, used, ps, data, 0),
            Op::SignLen { ps, .. } => self.feed_sign_len(settings, used, ps, data, 0),
            Op::SignTx { body, ps, .. } => self.feed_sign_tx(settings, used, body, ps, data, 0),
            Op::SignPath { digest, ps, .. } => self.feed_sign_path(
                settings,
                used,
                digest,
                ps,
                data,
                0,
            ),
            Op::TestParse { ps, .. } => self.feed_diag(used, ps, data, 0),
            _ => {
                self.op = Op::Idle;
                Outcome::Fail(Status::Reject)
            },
        }
    }

    /// Address flow, parsing phase (see `spec_feed_addr`).
    fn feed_addr(
        &mut self,
        silent: bool,
        used: usize,
        ps: PState,
        data: &[u8],
        start: usize,
    ) -> (r: Outcome)
        requires
            start <= data@.len(),
        ensures
            ({
                let (c2, o2) = spec_feed_addr(
                    old(self)@,
                    silent,
                    used as nat,
                    ps@,
                    data@.subrange(start as int, data@.len() as int),
                );
                final(self)@ == c2 && r@ == o2
            }),
    {
        let rest = vstd::slice::slice_subrange(data, start, data.len());
        let sch = crate::payload::path_schema();
        let (st, n) = crate::engine::feed(&sch, ps, rest);
        match st {
            PState::RejectP => {
                self.op = Op::Idle;
                Outcome::Fail(Status::Reject)
            },
            PState::DoneP(v) => {
                if n < rest.len() {
                    self.op = Op::Idle;
                    Outcome::Fail(Status::ChunkOverrun)
                } else {
                    match crate::payload::extract_path(&v) {
                        Some(path) => {
                            let mut out_path: Vec<u32> = Vec::new();
                            let mut k: usize = 0;
                            #[verifier::loop_isolation(false)]
                            while k < path.len()
                                invariant
                                    k <= path@.len(),
                                    out_path@ == path@.subrange(0, k as int),
                                decreases path@.len() - k,
                            {
                                out_path.push(path[k]);
                                proof {
                                    assert(out_path@ =~= path@.subrange(0, k as int + 1));
                                }
                                k = k + 1;
                            }
                            proof {
                                assert(path@.subrange(0, path@.len() as int) =~= path@);
                            }
                            self.op = Op::AwaitKeys { silent, path };
                            Outcome::Act(Action::DeriveKeys { path: out_path })
                        },
                        None => {
                            self.op = Op::Idle;
                            Outcome::Fail(Status::Reject)
                        },
                    }
                }
            },
            st2 => {
                self.op = Op::GetAddr { silent, used, ps: st2 };
                Outcome::Pending
            },
        }
    }

    /// Signing flow, length phase (see `spec_feed_sign_len`).
    fn feed_sign_len(
        &mut self,
        settings: u8,
        used: usize,
        ps: PState,
        data: &[u8],
        start: usize,
    ) -> (r: Outcome)
        requires
            start <= data@.len(),
        ensures
            ({
                let (c2, o2) = spec_feed_sign_len(
                    old(self)@,
                    settings,
                    used as nat,
                    ps@,
                    data@.subrange(start as int, data@.len() as int),
                );
                final(self)@ == c2 && r@ == o2
            }),
    {
        let rest = vstd::slice::slice_subrange(data, start, data.len());
        let sch = crate::payload::len_schema();
        let (st, n) = crate::engine::feed(&sch, ps, rest);
        match st {
            PState::RejectP => {
                self.op = Op::Idle;
                Outcome::Fail(Status::Reject)
            },
            PState::DoneP(v) => match v {
                crate::schema::Value::Int(len) => {
                    if len > crate::payload::TX_CAP as u64 {
                        self.op = Op::Idle;
                        Outcome::Fail(Status::ChunkOverrun)
                    } else {
                        let body = crate::payload::tx_body_schema(len as usize);
                        let st0 = crate::engine::init_state(&body);
                        proof {
                            assert(data@.subrange(start as int, data@.len() as int).subrange(
                                n as int,
                                rest@.len() as int,
                            ) =~= data@.subrange(start as int + n as int, data@.len() as int));
                        }
                        self.feed_sign_tx(settings, used, body, st0, data, start + n)
                    }
                },
                _ => {
                    self.op = Op::Idle;
                    Outcome::Fail(Status::Reject)
                },
            },
            st2 => {
                self.op = Op::SignLen { used, ps: st2 };
                Outcome::Pending
            },
        }
    }

    /// Signing flow, transaction phase (see `spec_feed_sign_tx`).
    fn feed_sign_tx(
        &mut self,
        settings: u8,
        used: usize,
        body: Schema,
        ps: PState,
        data: &[u8],
        start: usize,
    ) -> (r: Outcome)
        requires
            start <= data@.len(),
        ensures
            ({
                let (c2, o2) = spec_feed_sign_tx(
                    old(self)@,
                    settings,
                    used as nat,
                    body,
                    ps@,
                    data@.subrange(start as int, data@.len() as int),
                );
                final(self)@ == c2 && r@ == o2
            }),
    {
        let rest = vstd::slice::slice_subrange(data, start, data.len());
        let (st, n) = crate::engine::feed(&body, ps, rest);
        match st {
            PState::RejectP => {
                self.op = Op::Idle;
                Outcome::Fail(Status::Reject)
            },
            PState::DoneP(v) => match crate::payload::extract_observed(&v) {
                Some(digest) => {
                    let st0 = crate::engine::init_state(&crate::payload::path_schema());
                    proof {
                        assert(data@.subrange(start as int, data@.len() as int).subrange(
                            n as int,
                            rest@.len() as int,
                        ) =~= data@.subrange(start as int + n as int, data@.len() as int));
                    }
                    self.feed_sign_path(settings, used, digest, st0, data, start + n)
                },
                None => {
                    self.op = Op::Idle;
                    Outcome::Fail(Status::Reject)
                },
            },
            st2 => {
                self.op = Op::SignTx { used, body, ps: st2 };
                Outcome::Pending
            },
        }
    }

    /// Signing flow, path phase (see `spec_feed_sign_path`).
    fn feed_sign_path(
        &mut self,
        settings: u8,
        used: usize,
        digest: Vec<u8>,
        ps: PState,
        data: &[u8],
        start: usize,
    ) -> (r: Outcome)
        requires
            start <= data@.len(),
        ensures
            ({
                let (c2, o2) = spec_feed_sign_path(
                    old(self)@,
                    settings,
                    used as nat,
                    digest@,
                    ps@,
                    data@.subrange(start as int, data@.len() as int),
                );
                final(self)@ == c2 && r@ == o2
            }),
    {
        let rest = vstd::slice::slice_subrange(data, start, data.len());
        let sch = crate::payload::path_schema();
        let (st, n) = crate::engine::feed(&sch, ps, rest);
        match st {
            PState::RejectP => {
                self.op = Op::Idle;
                Outcome::Fail(Status::Reject)
            },
            PState::DoneP(v) => {
                if n < rest.len() {
                    self.op = Op::Idle;
                    Outcome::Fail(Status::ChunkOverrun)
                } else {
                    match crate::payload::extract_path(&v) {
                        Some(path) => self.sign_approve_enter(settings, digest, path),
                        None => {
                            self.op = Op::Idle;
                            Outcome::Fail(Status::Reject)
                        },
                    }
                }
            },
            st2 => {
                self.op = Op::SignPath { used, digest, ps: st2 };
                Outcome::Pending
            },
        }
    }

    /// Enter the approval pipeline (see `spec_sign_approve_enter`).
    fn sign_approve_enter(&mut self, settings: u8, digest: Vec<u8>, path: Vec<u32>) -> (r:
        Outcome)
        ensures
            ({
                let (c2, o2) = spec_sign_approve_enter(old(self)@, settings, digest@, path@);
                final(self)@ == c2 && r@ == o2
            }),
    {
        let st0 = crate::engine::init_state(&self.tx_schema);
        let (st, n) = crate::engine::feed(&self.tx_schema, st0, digest.as_slice());
        let decoded: Option<crate::schema::Value> = match st {
            PState::DoneP(v) => {
                if n == digest.len() {
                    Some(v)
                } else {
                    None
                }
            },
            _ => None,
        };
        let mut structural = false;
        let mut summary: Option<TxSummary> = None;
        match decoded {
            Some(v) => {
                structural = true;
                summary = crate::txcheck::validate_tx(&v);
            },
            None => {},
        }
        if structural && summary.is_none() {
            self.op = Op::Idle;
            return Outcome::Fail(Status::Reject);
        }
        match summary {
            Some(s) => {
                let body = crate::format::hex_string(s.recipient.as_slice());
                self.op = Op::SignApprove {
                    stage: SignStage::Recipient,
                    digest,
                    path,
                    summary: Some(s),
                    addr: Vec::new(),
                };
                Outcome::Act(
                    Action::ShowPrompt { title: String::from_str("Transfer"), body },
                )
            },
            None => {
                if settings == 0 {
                    self.op = Op::SignApprove {
                        stage: SignStage::BlindRefuse,
                        digest,
                        path,
                        summary: None,
                        addr: Vec::new(),
                    };
                    Outcome::Act(
                        Action::ShowPrompt {
                            title: String::from_str("WARNING"),
                            body: String::from_str(
                                "Transaction not recognized, enable blind signing to sign unknown transactions",
                            ),
                        },
                    )
                } else {
                    self.op = Op::SignApprove {
                        stage: SignStage::BlindWarn,
                        digest,
                        path,
                        summary: None,
                        addr: Vec::new(),
                    };
                    Outcome::Act(
                        Action::ShowPrompt {
                            title: String::from_str("WARNING"),
                            body: String::from_str("Transaction not recognized"),
                        },
                    )
                }
            },
        }
    }

    /// Diagnostic flow, parsing phase (see `spec_feed_diag`).
    fn feed_diag(&mut self, used: usize, ps: PState, data: &[u8], start: usize) -> (r: Outcome)
        requires
            start <= data@.len(),
        ensures
            ({
                let (c2, o2) = spec_feed_diag(
                    old(self)@,
                    used as nat,
                    ps@,
                    data@.subrange(start as int, data@.len() as int),
                );
                final(self)@ == c2 && r@ == o2
            }),
    {
        let rest = vstd::slice::slice_subrange(data, start, data.len());
        let (st, n) = crate::engine::feed(&self.diag_schema, ps, rest);
        match st {
            PState::RejectP => {
                self.op = Op::Idle;
                Outcome::Fail(Status::Reject)
            },
            PState::DoneP(_) => {
                if n < rest.len() {
                    self.op = Op::Idle;
                    Outcome::Fail(Status::ChunkOverrun)
                } else {
                    self.op = Op::ConfirmDiag;
                    Outcome::Act(
                        Action::ShowPrompt {
                            title: String::from_str("Parse done"),
                            body: String::from_str(""),
                        },
                    )
                }
            },
            st2 => {
                self.op = Op::TestParse { used, ps: st2 };
                Outcome::Pending
            },
        }
    }

    /// Handle one returned event, exactly as `spec_handle_event`
    /// says.
    pub fn handle_event(&mut self, settings: u8, ev: Event) -> (r: Outcome)
        ensures
            ({
                let (c2, o2) = spec_handle_event(old(self)@, settings, ev);
                final(self)@ == c2 && r@ == o2
            }),
    {
        let mut cur = Op::Idle;
        core::mem::swap(&mut self.op, &mut cur);
        match cur {
            Op::AwaitKeys { silent, path } => match ev {
                Event::Keys(None) => {
                    self.op = Op::Idle;
                    Outcome::Fail(Status::CryptoFailure)
                },
                Event::Keys(Some((pk, addr))) => {
                    if pk.len() > 255 || addr.len() > 255 || 2 + pk.len() + addr.len()
                        > crate::respbuf::RESPONSE_CAP {
                        self.op = Op::Idle;
                        Outcome::Fail(Status::Reject)
                    } else if silent {
                        self.op = Op::Idle;
                        match crate::respbuf::address_response(&pk, &addr) {
                            Some(out) => Outcome::Reply(out),
                            None => Outcome::Fail(Status::Reject),
                        }
                    } else {
                        self.op = Op::ConfirmAddr { stage: AddrStage::Intro, pk, addr };
                        Outcome::Act(
                            Action::ShowPrompt {
                                title: String::from_str("Provide Public Key"),
                                body: String::from_str(""),
                            },
                        )
                    }
                },
                _ => {
                    self.op = Op::Idle;
                    Outcome::Fail(Status::Reject)
                },
            },
            Op::ConfirmAddr { stage, pk, addr } => match ev {
                Event::Prompt(true) => match stage {
                    AddrStage::Intro => {
                        let body = crate::format::hex_string(addr.as_slice());
                        self.op = Op::ConfirmAddr { stage: AddrStage::Address, pk, addr };
                        Outcome::Act(
                            Action::ShowPrompt { title: String::from_str("Address"), body },
                        )
                    },
                    AddrStage::Address => {
                        self.op = Op::ConfirmAddr { stage: AddrStage::Confirm, pk, addr };
                        Outcome::Act(
                            Action::ShowPrompt {
                                title: String::from_str("Confirm"),
                                body: String::from_str(""),
                            },
                        )
                    },
                    AddrStage::Confirm => {
                        self.op = Op::Idle;
                        if pk.len() > 255 || addr.len() > 255 || 2 + pk.len() + addr.len()
                            > crate::respbuf::RESPONSE_CAP {
                            Outcome::Fail(Status::Reject)
                        } else {
                            match crate::respbuf::address_response(&pk, &addr) {
                                Some(out) => Outcome::Reply(out),
                                None => Outcome::Fail(Status::Reject),
                            }
                        }
                    },
                },
                _ => {
                    self.op = Op::Idle;
                    Outcome::Fail(Status::Reject)
                },
            },
            Op::SignApprove { stage, digest, path, summary, addr } => self.sign_event(
                stage,
                digest,
                path,
                summary,
                addr,
                ev,
            ),
            Op::AwaitSig => match ev {
                Event::Signature(Some(sig)) => {
                    self.op = Op::Idle;
                    Outcome::Reply(sig)
                },
                Event::Signature(None) => {
                    self.op = Op::Idle;
                    Outcome::Fail(Status::CryptoFailure)
                },
                _ => {
                    self.op = Op::Idle;
                    Outcome::Fail(Status::Reject)
                },
            },
            Op::ConfirmDiag => match ev {
                Event::Prompt(true) => {
                    self.op = Op::Idle;
                    Outcome::Reply(Vec::new())
                },
                _ => {
                    self.op = Op::Idle;
                    Outcome::Fail(Status::Reject)
                },
            },
            _ => {
                self.op = Op::Idle;
                Outcome::Fail(Status::Reject)
            },
        }
    }

    /// One approval step of the signing flow (see `spec_sign_event`).
    fn sign_event(
        &mut self,
        stage: SignStage,
        digest: Vec<u8>,
        path: Vec<u32>,
        summary: Option<TxSummary>,
        addr: Vec<u8>,
        ev: Event,
    ) -> (r: Outcome)
        ensures
            ({
                let (c2, o2) = spec_sign_event(
                    old(self)@,
                    stage,
                    digest@,
                    path@,
                    crate::txcheck::summary_view(summary),
                    addr@,
                    ev,
                );
                final(self)@ == c2 && r@ == o2
            }),
    {
        match stage {
            SignStage::BlindKeys => match ev {
                Event::Keys(Some((pk, a))) => {
                    let body = crate::format::hex_string(a.as_slice());
                    self.op = Op::SignApprove {
                        stage: SignStage::BlindAddr,
                        digest,
                        path,
                        summary,
                        addr: a,
                    };
                    Outcome::Act(
                        Action::ShowPrompt { title: String::from_str("Sign for Address"), body },
                    )
                },
                Event::Keys(None) => {
                    self.op = Op::Idle;
                    Outcome::Fail(Status::CryptoFailure)
                },
                _ => {
                    self.op = Op::Idle;
                    Outcome::Fail(Status::Reject)
                },
            },
            _ => match ev {
                Event::Prompt(true) => match stage {
                    SignStage::Recipient => match summary {
                        Some(s) => {
                            let body = crate::format::dec_string(s.total_amount);
                            self.op = Op::SignApprove {
                                stage: SignStage::Amount,
                                digest,
                                path,
                                summary: Some(s),
                                addr,
                            };
                            Outcome::Act(
                                Action::ShowPrompt { title: String::from_str("Amount"), body },
                            )
                        },
                        None => {
                            self.op = Op::Idle;
                            Outcome::Fail(Status::Reject)
                        },
                    },
                    SignStage::Amount => match summary {
                        Some(s) => {
                            let body = crate::format::dec_string(s.gas_budget);
                            self.op = Op::SignApprove {
                                stage: SignStage::Budget,
                                digest,
                                path,
                                summary: Some(s),
                                addr,
                            };
                            Outcome::Act(
                                Action::ShowPrompt {
                                    title: String::from_str("Gas Budget"),
                                    body,
                                },
                            )
                        },
                        None => {
                            self.op = Op::Idle;
                            Outcome::Fail(Status::Reject)
                        },
                    },
                    SignStage::Budget => {
                        self.op = Op::SignApprove {
                            stage: SignStage::FinalKnown,
                            digest,
                            path,
                            summary,
                            addr,
                        };
                        Outcome::Act(
                            Action::ShowPrompt {
                                title: String::from_str("Sign Transaction?"),
                                body: String::from_str(""),
                            },
                        )
                    },
                    SignStage::FinalKnown => {
                        self.op = Op::AwaitSig;
                        Outcome::Act(Action::SignDigest { path, bytes: digest })
                    },
                    SignStage::BlindRefuse => {
                        self.op = Op::Idle;
                        Outcome::Fail(Status::Reject)
                    },
                    SignStage::BlindWarn => {
                        let mut shown: Vec<u8> = Vec::new();
                        let mut k: usize = 0;
                        #[verifier::loop_isolation(false)]
                        while k < digest.len()
                            invariant
                                k <= digest@.len(),
                                shown@ == digest@.subrange(0, k as int),
                            decreases digest@.len() - k,
                        {
                            shown.push(digest[k]);
                            proof {
                                assert(shown@ =~= digest@.subrange(0, k as int + 1));
                            }
                            k = k + 1;
                        }
                        proof {
                            assert(digest@.subrange(0, digest@.len() as int) =~= digest@);
                        }
                        self.op = Op::SignApprove {
                            stage: SignStage::BlindDigest,
                            digest,
                            path,
                            summary,
                            addr,
                        };
                        Outcome::Act(Action::ShowDigest { bytes: shown })
                    },
                    SignStage::BlindDigest => {
                        let mut out_path: Vec<u32> = Vec::new();
                        let mut k: usize = 0;
                        #[verifier::loop_isolation(false)]
                        while k < path.len()
                            invariant
                                k <= path@.len(),
                                out_path@ == path@.subrange(0, k as int),
                            decreases path@.len() - k,
                        {
                            out_path.push(path[k]);
                            proof {
                                assert(out_path@ =~= path@.subrange(0, k as int + 1));
                            }
                            k = k + 1;
                        }
                        proof {
                            assert(path@.subrange(0, path@.len() as int) =~= path@);
                        }
                        self.op = Op::SignApprove {
                            stage: SignStage::BlindKeys,
                            digest,
                            path,
                            summary,
                            addr,
                        };
                        Outcome::Act(Action::DeriveKeys { path: out_path })
                    },
                    SignStage::BlindAddr => {
                        self.op = Op::SignApprove {
                            stage: SignStage::FinalBlind,
                            digest,
                            path,
                            summary,
                            addr,
                        };
                        Outcome::Act(
                            Action::ShowPrompt {
                                title: String::from_str("Blind Sign Transaction?"),
                                body: String::from_str(""),
                            },
                        )
                    },
                    SignStage::FinalBlind => {
                        self.op = Op::AwaitSig;
                        Outcome::Act(Action::SignDigest { path, bytes: digest })
                    },
                    SignStage::BlindKeys => {
                        self.op = Op::Idle;
                        Outcome::Fail(Status::Reject)
                    },
                },
                _ => {
                    self.op = Op::Idle;
                    Outcome::Fail(Status::Reject)
                },
            },
        }
    }
}

} // verus!
