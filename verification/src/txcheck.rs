//! Semantic validation of a structurally decoded transaction.
//!
//! The policy: a transaction must name exactly one recipient — a
//! duplicated or absent recipient rejects; every argument that points
//! at an input slot must resolve to an input of the expected kind; and
//! repeated amounts are aggregated with an overflow check.
use vstd::prelude::*;

use crate::schema::{GValue, Value};

verus! {

broadcast use vstd::std_specs::vec::group_vec_axioms;

/// Variant tag of a transfer command (objects, recipient).
pub const CMD_TRANSFER: u32 = 0;

/// Variant tag of a coin-split command (coin, amounts).
pub const CMD_SPLIT: u32 = 1;

/// Variant tag of the gas-coin argument.
pub const ARG_GAS: u32 = 0;

/// Variant tag of an argument naming an input slot.
pub const ARG_INPUT: u32 = 1;

/// Variant tag of an argument naming an earlier command's result.
pub const ARG_RESULT: u32 = 2;

/// Variant tag of a plain-bytes call input.
pub const CALLARG_PURE: u32 = 0;

/// Variant tag of an object-reference call input.
pub const CALLARG_OBJECT: u32 = 1;

/// What the validated transaction means to its approver.
#[derive(Debug, PartialEq, Eq)]
pub struct TxSummary {
    /// The single recipient address.
    pub recipient: Vec<u8>,
    /// The sum of all amounts split off for the transfer.
    pub total_amount: u64,
    /// The declared gas budget.
    pub gas_budget: u64,
}

/// Mathematical model of a validated transaction summary.
pub struct GTxSummary {
    pub recipient: Seq<u8>,
    pub total_amount: u64,
    pub gas_budget: u64,
}

impl View for TxSummary {
    type V = GTxSummary;

    open spec fn view(&self) -> GTxSummary {
        GTxSummary {
            recipient: self.recipient@,
            total_amount: self.total_amount,
            gas_budget: self.gas_budget,
        }
    }
}

/// The input slot an argument names, if it names one.
pub open spec fn spec_arg_input(a: GValue) -> Option<u64> {
    match a {
        GValue::Tagged(t, inner) => {
            if t == ARG_INPUT {
                match *inner {
                    GValue::Int(n) => Some(n),
                    _ => None,
                }
            } else {
                None
            }
        },
        _ => None,
    }
}

/// Whether an argument is the gas coin.
pub open spec fn spec_arg_is_gas(a: GValue) -> bool {
    a matches GValue::Tagged(t, _) && t == ARG_GAS
}

/// The byte values of a list of small integers, if that is what it is.
pub open spec fn spec_bytes_of_ints(vs: Seq<GValue>) -> Option<Seq<u8>>
    decreases vs.len(),
{
    if vs.len() == 0 {
        Some(Seq::empty())
    } else {
        match spec_bytes_of_ints(vs.drop_last()) {
            Some(front) => match vs.last() {
                GValue::Int(n) => {
                    if n <= 255 {
                        Some(front.push(n as u8))
                    } else {
                        None
                    }
                },
                _ => None,
            },
            None => None,
        }
    }
}

/// The plain bytes of a pure call input, if the value is one.
pub open spec fn spec_pure_bytes(ca: GValue) -> Option<Seq<u8>> {
    match ca {
        GValue::Tagged(t, inner) => {
            if t == CALLARG_PURE {
                match *inner {
                    GValue::List(vs) => spec_bytes_of_ints(vs),
                    _ => None,
                }
            } else {
                None
            }
        },
        _ => None,
    }
}

/// Whether a call input is an object reference.
pub open spec fn spec_is_object(ca: GValue) -> bool {
    ca matches GValue::Tagged(t, _) && t == CALLARG_OBJECT
}

/// Little-endian integer value of the bytes from position `i` on.
pub open spec fn spec_le_from(bs: Seq<u8>, i: int) -> u64
    decreases bs.len() - i,
{
    if i < 0 || i >= bs.len() {
        0
    } else {
        (bs[i] as u64) | (spec_le_from(bs, i + 1) << 8u64)
    }
}

/// The recipient address an argument resolves to: the argument must
/// name an input slot holding exactly 32 plain bytes.
pub open spec fn spec_resolve_recipient(inputs: Seq<GValue>, a: GValue) -> Option<Seq<u8>> {
    match spec_arg_input(a) {
        Some(i) => {
            if i < inputs.len() {
                match spec_pure_bytes(inputs[i as int]) {
                    Some(bs) => {
                        if bs.len() == 32 {
                            Some(bs)
                        } else {
                            None
                        }
                    },
                    None => None,
                }
            } else {
                None
            }
        },
        None => None,
    }
}

/// The amount an argument resolves to: the argument must name an input
/// slot holding exactly 8 plain bytes, read little-endian.
pub open spec fn spec_resolve_amount(inputs: Seq<GValue>, a: GValue) -> Option<u64> {
    match spec_arg_input(a) {
        Some(i) => {
            if i < inputs.len() {
                match spec_pure_bytes(inputs[i as int]) {
                    Some(bs) => {
                        if bs.len() == 8 {
                            Some(spec_le_from(bs, 0))
                        } else {
                            None
                        }
                    },
                    None => None,
                }
            } else {
                None
            }
        },
        None => None,
    }
}

/// Whether an argument may stand for a coin or object: the gas coin,
/// or a reference that resolves to an object-reference input.
pub open spec fn spec_object_arg_ok(inputs: Seq<GValue>, a: GValue) -> bool {
    spec_arg_is_gas(a) || (match spec_arg_input(a) {
        Some(i) => i < inputs.len() && spec_is_object(inputs[i as int]),
        None => false,
    })
}

/// Whether every argument of a list stands for a coin or object.
pub open spec fn spec_objects_ok(inputs: Seq<GValue>, args: Seq<GValue>) -> bool
    decreases args.len(),
{
    if args.len() == 0 {
        true
    } else {
        spec_objects_ok(inputs, args.drop_last()) && spec_object_arg_ok(inputs, args.last())
    }
}

/// Add up a list of amount arguments, rejecting any that does not
/// resolve and any sum that overflows.
pub open spec fn spec_sum_amounts(inputs: Seq<GValue>, args: Seq<GValue>, total: u64) -> Option<
    u64,
>
    decreases args.len(),
{
    if args.len() == 0 {
        Some(total)
    } else {
        match spec_sum_amounts(inputs, args.drop_last(), total) {
            Some(t) => match spec_resolve_amount(inputs, args.last()) {
                Some(a) => {
                    if t + a <= u64::MAX {
                        Some((t + a) as u64)
                    } else {
                        None
                    }
                },
                None => None,
            },
            None => None,
        }
    }
}

/// Walk the command list front to back, carrying the recipient seen so
/// far and the running amount total. A second recipient, an argument
/// that does not resolve to the expected kind of input, an unknown
/// command, or an overflowing total all reject.
pub open spec fn spec_walk_cmds(
    inputs: Seq<GValue>,
    cmds: Seq<GValue>,
) -> Option<(Option<Seq<u8>>, u64)>
    decreases cmds.len(),
{
    if cmds.len() == 0 {
        Some((None, 0u64))
    } else {
        match spec_walk_cmds(inputs, cmds.drop_last()) {
            Some((recip, total)) => spec_apply_cmd(inputs, cmds.last(), recip, total),
            None => None,
        }
    }
}

/// Apply one command to the walk state.
pub open spec fn spec_apply_cmd(
    inputs: Seq<GValue>,
    cmd: GValue,
    recip: Option<Seq<u8>>,
    total: u64,
) -> Option<(Option<Seq<u8>>, u64)> {
    match cmd {
        GValue::Tagged(t, inner) => {
            if t == CMD_TRANSFER {
                match *inner {
                    GValue::List(parts) => {
                        if parts.len() == 2 {
                            match parts[0] {
                                GValue::List(objs) => {
                                    if recip is Some {
                                        // a required unique field appears twice
                                        None
                                    } else if !spec_objects_ok(inputs, objs) {
                                        None
                                    } else {
                                        match spec_resolve_recipient(inputs, parts[1]) {
                                            Some(bs) => Some((Some(bs), total)),
                                            None => None,
                                        }
                                    }
                                },
                                _ => None,
                            }
                        } else {
                            None
                        }
                    },
                    _ => None,
                }
            } else if t == CMD_SPLIT {
                match *inner {
                    GValue::List(parts) => {
                        if parts.len() == 2 {
                            match parts[1] {
                                GValue::List(amounts) => {
                                    if !spec_object_arg_ok(inputs, parts[0]) {
                                        None
                                    } else {
                                        match spec_sum_amounts(inputs, amounts, total) {
                                            Some(t2) => Some((recip, t2)),
                                            None => None,
                                        }
                                    }
                                },
                                _ => None,
                            }
                        } else {
                            None
                        }
                    },
                    _ => None,
                }
            } else {
                None
            }
        },
        _ => None,
    }
}

/// Validate a decoded transaction value and summarize it, or reject.
/// The value shape is the one the transaction schema produces: the
/// three intent integers, then the tagged transaction body holding the
/// programmable commands, the sender, the gas data and the expiration.
pub open spec fn spec_validate_tx(v: GValue) -> Option<GTxSummary> {
    match v {
        GValue::List(top) => {
            if top.len() == 4 {
                match top[3] {
                    GValue::Tagged(vt, body) => {
                        if vt == 0 {
                            match *body {
                                GValue::List(fields) => {
                                    if fields.len() == 4 {
                                        spec_validate_body(fields)
                                    } else {
                                        None
                                    }
                                },
                                _ => None,
                            }
                        } else {
                            None
                        }
                    },
                    _ => None,
                }
            } else {
                None
            }
        },
        _ => None,
    }
}

/// Validate the four fields of a version-one transaction body.
pub open spec fn spec_validate_body(fields: Seq<GValue>) -> Option<GTxSummary> {
    match fields[0] {
        GValue::Tagged(kt, kind) => {
            if kt == 0 {
                match *kind {
                    GValue::List(pt) => {
                        if pt.len() == 2 {
                            match (pt[0], pt[1], fields[2]) {
                                (
                                    GValue::List(inputs),
                                    GValue::List(cmds),
                                    GValue::List(gas),
                                ) => {
                                    if gas.len() == 4 {
                                        match gas[3] {
                                            GValue::Int(budget) => {
                                                match spec_walk_cmds(inputs, cmds) {
                                                    Some((Some(recip), total)) => Some(
                                                        GTxSummary {
                                                            recipient: recip,
                                                            total_amount: total,
                                                            gas_budget: budget,
                                                        },
                                                    ),
                                                    // the required recipient is absent
                                                    Some((None, _)) => None,
                                                    None => None,
                                                }
                                            },
                                            _ => None,
                                        }
                                    } else {
                                        None
                                    }
                                },
                                _ => None,
                            }
                        } else {
                            None
                        }
                    },
                    _ => None,
                }
            } else {
                None
            }
        },
        _ => None,
    }
}

/// The model of an optional byte vector.
pub open spec fn recip_view(r: Option<Vec<u8>>) -> Option<Seq<u8>> {
    match r {
        Some(v) => Some(v@),
        None => None,
    }
}

/// The input slot an argument names (see `spec_arg_input`).
fn arg_input_x(a: &Value) -> (r: Option<u64>)
    ensures
        r == spec_arg_input(a@),
{
    match a {
        Value::Tagged(t, inner) => {
            proof {
                assert(a@ == GValue::Tagged(*t, Box::new((**inner)@)));
            }
            if *t == ARG_INPUT {
                match &**inner {
                    Value::Int(n) => {
                        proof {
                            assert((**inner)@ == GValue::Int(*n));
                        }
                        Some(*n)
                    },
                    _ => None,
                }
            } else {
                None
            }
        },
        _ => None,
    }
}

/// Whether an argument is the gas coin (see `spec_arg_is_gas`).
fn arg_is_gas_x(a: &Value) -> (r: bool)
    ensures
        r == spec_arg_is_gas(a@),
{
    match a {
        Value::Tagged(t, _) => *t == ARG_GAS,
        _ => false,
    }
}

/// If any element of the list is not a byte-sized integer, the list
/// has no byte reading.
proof fn lemma_bytes_of_ints_bad(vs: Seq<GValue>, j: int)
    requires
        0 <= j < vs.len(),
        !(vs[j] matches GValue::Int(n) && n <= 255),
    ensures
        spec_bytes_of_ints(vs) is None,
    decreases vs.len(),
{
    if j < vs.len() - 1 {
        lemma_bytes_of_ints_bad(vs.drop_last(), j);
    }
}

/// The plain bytes of a pure call input (see `spec_pure_bytes`).
#[verifier::loop_isolation(false)]
fn pure_bytes_x(ca: &Value) -> (r: Option<Vec<u8>>)
    ensures
        recip_view(r) == spec_pure_bytes(ca@),
{
    match ca {
        Value::Tagged(t, inner) => {
            proof {
                assert(ca@ == GValue::Tagged(*t, Box::new((**inner)@)));
            }
            if *t != CALLARG_PURE {
                return None;
            }
            match &**inner {
                Value::List(items) => {
                    proof {
                        assert((**inner)@ == GValue::List(crate::schema::vals_view(items@)));
                        crate::schema::lemma_vals_view_index(items@);
                    }
                    let mut out: Vec<u8> = Vec::new();
                    let mut i: usize = 0;
                    proof {
                        assert(crate::schema::vals_view(items@).subrange(0, 0)
                            =~= Seq::<GValue>::empty());
                    }
                    while i < items.len()
                        invariant
                            i <= items@.len(),
                            spec_bytes_of_ints(
                                crate::schema::vals_view(items@).subrange(0, i as int),
                            ) == Some(out@),
                        decreases items@.len() - i,
                    {
                        let ghost pre = crate::schema::vals_view(items@).subrange(0, i as int);
                        let ghost now = crate::schema::vals_view(items@).subrange(
                            0,
                            i as int + 1,
                        );
                        proof {
                            assert(now.drop_last() =~= pre);
                            assert(now.last() == items@[i as int]@);
                        }
                        match &items[i] {
                            Value::Int(n) => {
                                if *n <= 255 {
                                    out.push(*n as u8);
                                } else {
                                    proof {
                                        lemma_bytes_of_ints_bad(
                                            crate::schema::vals_view(items@),
                                            i as int,
                                        );
                                    }
                                    return None;
                                }
                            },
                            _ => {
                                proof {
                                    lemma_bytes_of_ints_bad(
                                        crate::schema::vals_view(items@),
                                        i as int,
                                    );
                                }
                                return None;
                            },
                        }
                        i = i + 1;
                    }
                    proof {
                        assert(crate::schema::vals_view(items@).subrange(
                            0,
                            items@.len() as int,
                        ) =~= crate::schema::vals_view(items@));
                    }
                    Some(out)
                },
                _ => None,
            }
        },
        _ => None,
    }
}

/// Whether a call input is an object reference (see `spec_is_object`).
fn is_object_x(ca: &Value) -> (r: bool)
    ensures
        r == spec_is_object(ca@),
{
    match ca {
        Value::Tagged(t, _) => *t == CALLARG_OBJECT,
        _ => false,
    }
}

/// Little-endian value of the bytes from position `i` on (see
/// `spec_le_from`).
fn le_from_x(bs: &Vec<u8>, i: usize) -> (r: u64)
    ensures
        r == spec_le_from(bs@, i as int),
    decreases bs@.len() - i,
{
    if i >= bs.len() {
        0
    } else {
        (bs[i] as u64) | (le_from_x(bs, i + 1) << 8u64)
    }
}

/// Resolve a recipient argument (see `spec_resolve_recipient`).
fn resolve_recipient_x(inputs: &Vec<Value>, a: &Value) -> (r: Option<Vec<u8>>)
    ensures
        recip_view(r) == spec_resolve_recipient(crate::schema::vals_view(inputs@), a@),
{
    proof {
        crate::schema::lemma_vals_view_index(inputs@);
    }
    match arg_input_x(a) {
        Some(i) => {
            if i < inputs.len() as u64 {
                match pure_bytes_x(&inputs[i as usize]) {
                    Some(bs) => {
                        if bs.len() == 32 {
                            Some(bs)
                        } else {
                            None
                        }
                    },
                    None => None,
                }
            } else {
                None
            }
        },
        None => None,
    }
}

/// Resolve an amount argument (see `spec_resolve_amount`).
fn resolve_amount_x(inputs: &Vec<Value>, a: &Value) -> (r: Option<u64>)
    ensures
        r == spec_resolve_amount(crate::schema::vals_view(inputs@), a@),
{
    proof {
        crate::schema::lemma_vals_view_index(inputs@);
    }
    match arg_input_x(a) {
        Some(i) => {
            if i < inputs.len() as u64 {
                match pure_bytes_x(&inputs[i as usize]) {
                    Some(bs) => {
                        if bs.len() == 8 {
                            Some(le_from_x(&bs, 0))
                        } else {
                            None
                        }
                    },
                    None => None,
                }
            } else {
                None
            }
        },
        None => None,
    }
}

/// Whether an argument stands for a coin or object (see
/// `spec_object_arg_ok`).
fn object_arg_ok_x(inputs: &Vec<Value>, a: &Value) -> (r: bool)
    ensures
        r == spec_object_arg_ok(crate::schema::vals_view(inputs@), a@),
{
    proof {
        crate::schema::lemma_vals_view_index(inputs@);
    }
    if arg_is_gas_x(a) {
        return true;
    }
    match arg_input_x(a) {
        Some(i) => i < inputs.len() as u64 && is_object_x(&inputs[i as usize]),
        None => false,
    }
}

/// Whether every argument stands for a coin or object (see
/// `spec_objects_ok`).
#[verifier::loop_isolation(false)]
fn objects_ok_x(inputs: &Vec<Value>, args: &Vec<Value>) -> (r: bool)
    ensures
        r == spec_objects_ok(crate::schema::vals_view(inputs@), crate::schema::vals_view(args@)),
{
    proof {
        crate::schema::lemma_vals_view_index(args@);
        assert(crate::schema::vals_view(args@).subrange(0, 0) =~= Seq::<GValue>::empty());
    }
    let mut ok = true;
    let mut i: usize = 0;
    while i < args.len()
        invariant
            i <= args@.len(),
            ok == spec_objects_ok(
                crate::schema::vals_view(inputs@),
                crate::schema::vals_view(args@).subrange(0, i as int),
            ),
        decreases args@.len() - i,
    {
        let ghost pre = crate::schema::vals_view(args@).subrange(0, i as int);
        let ghost now = crate::schema::vals_view(args@).subrange(0, i as int + 1);
        proof {
            assert(now.drop_last() =~= pre);
            assert(now.last() == args@[i as int]@);
        }
        let this_ok = object_arg_ok_x(inputs, &args[i]);
        ok = ok && this_ok;
        i = i + 1;
    }
    proof {
        assert(crate::schema::vals_view(args@).subrange(
            0,
            args@.len() as int,
        ) =~= crate::schema::vals_view(args@));
    }
    ok
}

/// Add up a list of amount arguments (see `spec_sum_amounts`).
#[verifier::loop_isolation(false)]
fn sum_amounts_x(inputs: &Vec<Value>, args: &Vec<Value>, total: u64) -> (r: Option<u64>)
    ensures
        r == spec_sum_amounts(
            crate::schema::vals_view(inputs@),
            crate::schema::vals_view(args@),
            total,
        ),
{
    proof {
        crate::schema::lemma_vals_view_index(args@);
        assert(crate::schema::vals_view(args@).subrange(0, 0) =~= Seq::<GValue>::empty());
    }
    let mut acc: Option<u64> = Some(total);
    let mut i: usize = 0;
    while i < args.len()
        invariant
            i <= args@.len(),
            acc == spec_sum_amounts(
                crate::schema::vals_view(inputs@),
                crate::schema::vals_view(args@).subrange(0, i as int),
                total,
            ),
        decreases args@.len() - i,
    {
        let ghost pre = crate::schema::vals_view(args@).subrange(0, i as int);
        let ghost now = crate::schema::vals_view(args@).subrange(0, i as int + 1);
        proof {
            assert(now.drop_last() =~= pre);
            assert(now.last() == args@[i as int]@);
        }
        acc = match acc {
            Some(t) => match resolve_amount_x(inputs, &args[i]) {
                Some(a) => {
                    if a <= u64::MAX - t {
                        Some(t + a)
                    } else {
                        None
                    }
                },
                None => None,
            },
            None => None,
        };
        i = i + 1;
    }
    proof {
        assert(crate::schema::vals_view(args@).subrange(
            0,
            args@.len() as int,
        ) =~= crate::schema::vals_view(args@));
    }
    acc
}

/// The model of a walk state.
pub open spec fn walk_view(r: Option<(Option<Vec<u8>>, u64)>) -> Option<(Option<Seq<u8>>, u64)> {
    match r {
        Some((recip, total)) => Some((recip_view(recip), total)),
        None => None,
    }
}

/// Apply one command to the walk state (see `spec_apply_cmd`).
fn apply_cmd_x(inputs: &Vec<Value>, cmd: &Value, recip: Option<Vec<u8>>, total: u64) -> (r:
    Option<(Option<Vec<u8>>, u64)>)
    ensures
        walk_view(r) == spec_apply_cmd(
            crate::schema::vals_view(inputs@),
            cmd@,
            recip_view(recip),
            total,
        ),
{
    match cmd {
        Value::Tagged(t, inner) => {
            proof {
                assert(cmd@ == GValue::Tagged(*t, Box::new((**inner)@)));
            }
            if *t == CMD_TRANSFER {
                match &**inner {
                    Value::List(parts) => {
                        proof {
                            assert((**inner)@ == GValue::List(crate::schema::vals_view(parts@)));
                            crate::schema::lemma_vals_view_index(parts@);
                        }
                        if parts.len() != 2 {
                            return None;
                        }
                        match &parts[0] {
                            Value::List(objs) => {
                                proof {
                                    assert(parts@[0]@ == GValue::List(
                                        crate::schema::vals_view(objs@),
                                    ));
                                }
                                if recip.is_some() {
                                    None
                                } else if !objects_ok_x(inputs, objs) {
                                    None
                                } else {
                                    match resolve_recipient_x(inputs, &parts[1]) {
                                        Some(bs) => Some((Some(bs), total)),
                                        None => None,
                                    }
                                }
                            },
                            _ => None,
                        }
                    },
                    _ => None,
                }
            } else if *t == CMD_SPLIT {
                match &**inner {
                    Value::List(parts) => {
                        proof {
                            assert((**inner)@ == GValue::List(crate::schema::vals_view(parts@)));
                            crate::schema::lemma_vals_view_index(parts@);
                        }
                        if parts.len() != 2 {
                            return None;
                        }
                        match &parts[1] {
                            Value::List(amounts) => {
                                proof {
                                    assert(parts@[1]@ == GValue::List(
                                        crate::schema::vals_view(amounts@),
                                    ));
                                }
                                if !object_arg_ok_x(inputs, &parts[0]) {
                                    None
                                } else {
                                    match sum_amounts_x(inputs, amounts, total) {
                                        Some(t2) => Some((recip, t2)),
                                        None => None,
                                    }
                                }
                            },
                            _ => None,
                        }
                    },
                    _ => None,
                }
            } else {
                None
            }
        },
        _ => None,
    }
}

/// Walk the whole command list (see `spec_walk_cmds`).
#[verifier::loop_isolation(false)]
fn walk_cmds_x(inputs: &Vec<Value>, cmds: &Vec<Value>) -> (r: Option<(Option<Vec<u8>>, u64)>)
    ensures
        walk_view(r) == spec_walk_cmds(
            crate::schema::vals_view(inputs@),
            crate::schema::vals_view(cmds@),
        ),
{
    proof {
        crate::schema::lemma_vals_view_index(cmds@);
        assert(crate::schema::vals_view(cmds@).subrange(0, 0) =~= Seq::<GValue>::empty());
    }
    let mut acc: Option<(Option<Vec<u8>>, u64)> = Some((None, 0u64));
    let mut i: usize = 0;
    while i < cmds.len()
        invariant
            i <= cmds@.len(),
            walk_view(acc) == spec_walk_cmds(
                crate::schema::vals_view(inputs@),
                crate::schema::vals_view(cmds@).subrange(0, i as int),
            ),
        decreases cmds@.len() - i,
    {
        let ghost pre = crate::schema::vals_view(cmds@).subrange(0, i as int);
        let ghost now = crate::schema::vals_view(cmds@).subrange(0, i as int + 1);
        proof {
            assert(now.drop_last() =~= pre);
            assert(now.last() == cmds@[i as int]@);
        }
        acc = match acc {
            Some((recip, total)) => apply_cmd_x(inputs, &cmds[i], recip, total),
            None => None,
        };
        i = i + 1;
    }
    proof {
        assert(crate::schema::vals_view(cmds@).subrange(
            0,
            cmds@.len() as int,
        ) =~= crate::schema::vals_view(cmds@));
    }
    acc
}

/// The model of an optional summary.
pub open spec fn summary_view(r: Option<TxSummary>) -> Option<GTxSummary> {
    match r {
        Some(s) => Some(s@),
        None => None,
    }
}

/// Validate a decoded transaction value and summarize it, exactly as
/// `spec_validate_tx` says.
pub fn validate_tx(v: &Value) -> (r: Option<TxSummary>)
    ensures
        summary_view(r) == spec_validate_tx(v@),
{
    match v {
        Value::List(top) => {
            proof {
                assert(v@ == GValue::List(crate::schema::vals_view(top@)));
                crate::schema::lemma_vals_view_index(top@);
            }
            if top.len() != 4 {
                return None;
            }
            match &top[3] {
                Value::Tagged(vt, body) => {
                    proof {
                        assert(top@[3]@ == GValue::Tagged(*vt, Box::new((**body)@)));
                    }
                    if *vt != 0 {
                        return None;
                    }
                    match &**body {
                        Value::List(fields) => {
                            proof {
                                assert((**body)@ == GValue::List(
                                    crate::schema::vals_view(fields@),
                                ));
                                crate::schema::lemma_vals_view_index(fields@);
                            }
                            if fields.len() != 4 {
                                return None;
                            }
                            validate_body_x(fields)
                        },
                        _ => None,
                    }
                },
                _ => None,
            }
        },
        _ => None,
    }
}

/// Validate the four fields of a version-one transaction body (see
/// `spec_validate_body`).
fn validate_body_x(fields: &Vec<Value>) -> (r: Option<TxSummary>)
    requires
        fields@.len() == 4,
    ensures
        summary_view(r) == spec_validate_body(crate::schema::vals_view(fields@)),
{
    proof {
        crate::schema::lemma_vals_view_index(fields@);
    }
    match &fields[0] {
        Value::Tagged(kt, kind) => {
            proof {
                assert(fields@[0]@ == GValue::Tagged(*kt, Box::new((**kind)@)));
            }
            if *kt != 0 {
                return None;
            }
            match &**kind {
                Value::List(pt) => {
                    proof {
                        assert((**kind)@ == GValue::List(crate::schema::vals_view(pt@)));
                        crate::schema::lemma_vals_view_index(pt@);
                    }
                    if pt.len() != 2 {
                        return None;
                    }
                    match (&pt[0], &pt[1], &fields[2]) {
                        (Value::List(inputs), Value::List(cmds), Value::List(gas)) => {
                            proof {
                                assert(pt@[0]@ == GValue::List(
                                    crate::schema::vals_view(inputs@),
                                ));
                                assert(pt@[1]@ == GValue::List(crate::schema::vals_view(cmds@)));
                                assert(fields@[2]@ == GValue::List(
                                    crate::schema::vals_view(gas@),
                                ));
                                crate::schema::lemma_vals_view_index(gas@);
                            }
                            if gas.len() != 4 {
                                return None;
                            }
                            match &gas[3] {
                                Value::Int(budget) => {
                                    proof {
                                        assert(gas@[3]@ == GValue::Int(*budget));
                                    }
                                    match walk_cmds_x(inputs, cmds) {

                                        Some((Some(recip), total)) => Some(
                                            TxSummary {
                                                recipient: recip,
                                                total_amount: total,
                                                gas_budget: *budget,
                                            },
                                        ),
                                        Some((None, _)) => None,
                                        None => None,
                                    }
                                },
                                _ => None,
                            }
                        },
                        _ => None,
                    }
                },
                _ => None,
            }
        },
        _ => None,
    }
}

/// Any walk that accepted a command list records a recipient as soon
/// as the list holds a transfer command.
proof fn lemma_walk_transfer_records_recipient(inputs: Seq<GValue>, cmds: Seq<GValue>, i: int)
    requires
        0 <= i < cmds.len(),
        cmds[i] matches GValue::Tagged(t, _) && t == CMD_TRANSFER,
        spec_walk_cmds(inputs, cmds) is Some,
    ensures
        spec_walk_cmds(inputs, cmds)->Some_0.0 is Some,
    decreases cmds.len(),
{
    if i == cmds.len() - 1 {
    } else {
        lemma_walk_transfer_records_recipient(inputs, cmds.drop_last(), i);
    }
}

/// A recipient named twice rejects: any command list holding two
/// transfer commands — each of which names the transaction's unique
/// recipient — fails validation, whatever else the list holds.
pub proof fn lemma_duplicate_recipient_rejects(
    inputs: Seq<GValue>,
    cmds: Seq<GValue>,
    i: int,
    j: int,
)
    requires
        0 <= i < j < cmds.len(),
        cmds[i] matches GValue::Tagged(ti, _) && ti == CMD_TRANSFER,
        cmds[j] matches GValue::Tagged(tj, _) && tj == CMD_TRANSFER,
    ensures
        spec_walk_cmds(inputs, cmds) is None,
    decreases cmds.len(),
{
    if j == cmds.len() - 1 {
        if spec_walk_cmds(inputs, cmds.drop_last()) is Some {
            lemma_walk_transfer_records_recipient(inputs, cmds.drop_last(), i);
        }
    } else {
        lemma_duplicate_recipient_rejects(inputs, cmds.drop_last(), i, j);
    }
}

} // verus!
