//! The structured transaction encoding and the diagnostic encoding.
//!
//! Each builder returns a schema value whose exact shape its predicate
//! pins down, so contracts elsewhere can speak of "the" schema.
use vstd::prelude::*;

use crate::schema::{LenSrc, Schema};

verus! {

broadcast use vstd::std_specs::vec::group_vec_axioms;

/// A pure call input carries at most this many bytes.
pub const PURE_CAP: usize = 64;

/// Bound on the call inputs, the commands, the arguments of one
/// command, and the gas payment objects of one transaction.
pub const LIST_CAP: usize = 8;

/// A command argument: the gas coin, an input slot, or an earlier
/// command's result.
pub open spec fn is_arg_schema(s: Schema) -> bool {
    &&& s matches Schema::Variant { branches }
    &&& branches.len() == 3
    &&& branches[0] matches Schema::Tuple { subs } && subs.len() == 0
    &&& branches[1] == (Schema::UInt { width: 2, little: true })
    &&& branches[2] == (Schema::UInt { width: 2, little: true })
}

/// A list of command arguments, counted by a leading variable-length
/// integer.
pub open spec fn is_args_schema(s: Schema) -> bool {
    &&& s matches Schema::Rep { len: LenSrc::ULeb, elem, cap }
    &&& cap == LIST_CAP
    &&& is_arg_schema(*elem)
}

/// An object reference: identifier, sequence number, digest.
pub open spec fn is_object_schema(s: Schema) -> bool {
    &&& s matches Schema::Tuple { subs }
    &&& subs.len() == 3
    &&& subs[0] == (Schema::Bytes { n: 32 })
    &&& subs[1] == (Schema::UInt { width: 8, little: true })
    &&& subs[2] == (Schema::Bytes { n: 33 })
}

/// A call input: plain bytes, or an object reference.
pub open spec fn is_callarg_schema(s: Schema) -> bool {
    &&& s matches Schema::Variant { branches }
    &&& branches.len() == 2
    &&& branches[0] matches Schema::Rep { len: LenSrc::ULeb, elem, cap } && cap == PURE_CAP
        && *elem == (Schema::UInt { width: 1, little: true })
    &&& is_object_schema(branches[1])
}

/// A command: transfer (objects, recipient) or coin split (coin,
/// amounts).
pub open spec fn is_command_schema(s: Schema) -> bool {
    &&& s matches Schema::Variant { branches }
    &&& branches.len() == 2
    &&& branches[0] matches Schema::Tuple { subs } && subs.len() == 2 && is_args_schema(subs[0])
        && is_arg_schema(subs[1])
    &&& branches[1] matches Schema::Tuple { subs } && subs.len() == 2 && is_arg_schema(subs[0])
        && is_args_schema(subs[1])
}

/// The gas data: payment objects, owner, price, budget.
pub open spec fn is_gas_schema(s: Schema) -> bool {
    &&& s matches Schema::Tuple { subs }
    &&& subs.len() == 4
    &&& subs[0] matches Schema::Rep { len: LenSrc::ULeb, elem, cap } && cap == LIST_CAP
        && is_object_schema(*elem)
    &&& subs[1] == (Schema::Bytes { n: 32 })
    &&& subs[2] == (Schema::UInt { width: 8, little: true })
    &&& subs[3] == (Schema::UInt { width: 8, little: true })
}

/// The expiration: none, or an epoch number.
pub open spec fn is_expiration_schema(s: Schema) -> bool {
    &&& s matches Schema::Variant { branches }
    &&& branches.len() == 2
    &&& branches[0] matches Schema::Tuple { subs } && subs.len() == 0
    &&& branches[1] == (Schema::UInt { width: 8, little: true })
}

/// The transaction kind: one variant, the programmable transaction of
/// call inputs and commands.
pub open spec fn is_kind_schema(s: Schema) -> bool {
    &&& s matches Schema::Variant { branches }
    &&& branches.len() == 1
    &&& branches[0] matches Schema::Tuple { subs }
    &&& {
        let subs = branches[0]->Tuple_subs;
        &&& subs.len() == 2
        &&& subs[0] matches Schema::Rep { len: LenSrc::ULeb, elem, cap } && cap == LIST_CAP
            && is_callarg_schema(*elem)
        &&& subs[1] matches Schema::Rep { len: LenSrc::ULeb, elem, cap } && cap == LIST_CAP
            && is_command_schema(*elem)
    }
}

/// The version-one transaction body: kind, sender, gas, expiration.
pub open spec fn is_txv1_schema(s: Schema) -> bool {
    &&& s matches Schema::Tuple { subs }
    &&& subs.len() == 4
    &&& is_kind_schema(subs[0])
    &&& subs[1] == (Schema::Bytes { n: 32 })
    &&& is_gas_schema(subs[2])
    &&& is_expiration_schema(subs[3])
}

/// The whole structured signing payload: the three intent integers,
/// then the versioned transaction body.
pub open spec fn is_tx_schema(s: Schema) -> bool {
    &&& s matches Schema::Tuple { subs }
    &&& subs.len() == 4
    &&& subs[0] == Schema::ULeb
    &&& subs[1] == Schema::ULeb
    &&& subs[2] == Schema::ULeb
    &&& subs[3] matches Schema::Variant { branches } && branches.len() == 1 && is_txv1_schema(
        branches[0],
    )
}

fn arg_schema() -> (r: Schema)
    ensures
        is_arg_schema(r),
{
    let mut branches: Vec<Schema> = Vec::new();
    branches.push(Schema::Tuple { subs: Vec::new() });
    branches.push(Schema::UInt { width: 2, little: true });
    branches.push(Schema::UInt { width: 2, little: true });
    Schema::Variant { branches }
}

fn args_schema() -> (r: Schema)
    ensures
        is_args_schema(r),
{
    Schema::Rep { len: LenSrc::ULeb, elem: Box::new(arg_schema()), cap: LIST_CAP }
}

fn object_schema() -> (r: Schema)
    ensures
        is_object_schema(r),
{
    let mut subs: Vec<Schema> = Vec::new();
    subs.push(Schema::Bytes { n: 32 });
    subs.push(Schema::UInt { width: 8, little: true });
    subs.push(Schema::Bytes { n: 33 });
    Schema::Tuple { subs }
}

fn callarg_schema() -> (r: Schema)
    ensures
        is_callarg_schema(r),
{
    let mut branches: Vec<Schema> = Vec::new();
    branches.push(
        Schema::Rep {
            len: LenSrc::ULeb,
            elem: Box::new(Schema::UInt { width: 1, little: true }),
            cap: PURE_CAP,
        },
    );
    branches.push(object_schema());
    Schema::Variant { branches }
}

fn command_schema() -> (r: Schema)
    ensures
        is_command_schema(r),
{
    let mut transfer: Vec<Schema> = Vec::new();
    transfer.push(args_schema());
    transfer.push(arg_schema());
    let mut split: Vec<Schema> = Vec::new();
    split.push(arg_schema());
    split.push(args_schema());
    let mut branches: Vec<Schema> = Vec::new();
    branches.push(Schema::Tuple { subs: transfer });
    branches.push(Schema::Tuple { subs: split });
    Schema::Variant { branches }
}

fn gas_schema() -> (r: Schema)
    ensures
        is_gas_schema(r),
{
    let mut subs: Vec<Schema> = Vec::new();
    subs.push(Schema::Rep { len: LenSrc::ULeb, elem: Box::new(object_schema()), cap: LIST_CAP });
    subs.push(Schema::Bytes { n: 32 });
    subs.push(Schema::UInt { width: 8, little: true });
    subs.push(Schema::UInt { width: 8, little: true });
    Schema::Tuple { subs }
}

fn expiration_schema() -> (r: Schema)
    ensures
        is_expiration_schema(r),
{
    let mut branches: Vec<Schema> = Vec::new();
    branches.push(Schema::Tuple { subs: Vec::new() });
    branches.push(Schema::UInt { width: 8, little: true });
    Schema::Variant { branches }
}

fn kind_schema() -> (r: Schema)
    ensures
        is_kind_schema(r),
{
    let mut pt: Vec<Schema> = Vec::new();
    pt.push(Schema::Rep { len: LenSrc::ULeb, elem: Box::new(callarg_schema()), cap: LIST_CAP });
    pt.push(Schema::Rep { len: LenSrc::ULeb, elem: Box::new(command_schema()), cap: LIST_CAP });
    let mut branches: Vec<Schema> = Vec::new();
    branches.push(Schema::Tuple { subs: pt });
    Schema::Variant { branches }
}

fn txv1_schema() -> (r: Schema)
    ensures
        is_txv1_schema(r),
{
    let mut subs: Vec<Schema> = Vec::new();
    subs.push(kind_schema());
    subs.push(Schema::Bytes { n: 32 });
    subs.push(gas_schema());
    subs.push(expiration_schema());
    Schema::Tuple { subs }
}

/// Build the structured signing payload schema.
pub fn tx_schema() -> (r: Schema)
    ensures
        is_tx_schema(r),
{
    let mut branches: Vec<Schema> = Vec::new();
    branches.push(txv1_schema());
    let mut subs: Vec<Schema> = Vec::new();
    subs.push(Schema::ULeb);
    subs.push(Schema::ULeb);
    subs.push(Schema::ULeb);
    subs.push(Schema::Variant { branches });
    Schema::Tuple { subs }
}

/// The diagnostic encoding: one field of every primitive kind and
/// every combinator kind — fixed integers of both byte orders and all
/// widths in use, fixed and count-prefixed byte arrays, and a nested
/// bounded repetition of composite elements.
pub open spec fn is_diag_schema(s: Schema) -> bool {
    &&& s matches Schema::Tuple { subs }
    &&& subs.len() == 2
    &&& subs[0] matches Schema::Tuple { subs } && subs.len() == 2 && is_bytes_params(subs[0])
        && is_pair_schema(subs[1], 2)
    &&& subs[1] matches Schema::Tuple { subs } && subs.len() == 2 && is_pair_schema(subs[0], 8)
        && is_darray_params(subs[1])
}

/// A single byte, then a 32-byte array.
pub open spec fn is_bytes_params(s: Schema) -> bool {
    &&& s matches Schema::Tuple { subs }
    &&& subs.len() == 2
    &&& subs[0] == (Schema::UInt { width: 1, little: true })
    &&& subs[1] == (Schema::Bytes { n: 32 })
}

/// A big-endian then a little-endian integer of the same width.
pub open spec fn is_pair_schema(s: Schema, w: usize) -> bool {
    &&& s matches Schema::Tuple { subs }
    &&& subs.len() == 2
    &&& subs[0] == (Schema::UInt { width: w, little: false })
    &&& subs[1] == (Schema::UInt { width: w, little: true })
}

/// A counted byte array, then a counted list of integer pairs.
pub open spec fn is_darray_params(s: Schema) -> bool {
    &&& s matches Schema::Tuple { subs }
    &&& subs.len() == 2
    &&& subs[0] matches Schema::Rep { len: LenSrc::Byte, elem, cap } && cap == 24 && *elem
        == (Schema::UInt { width: 1, little: true })
    &&& subs[1] matches Schema::Rep { len: LenSrc::Byte, elem, cap } && cap == 4 && is_pair_schema(
        *elem,
        4,
    )
}

/// Build the diagnostic schema.
pub fn diag_schema() -> (r: Schema)
    ensures
        is_diag_schema(r),
{
    let mut bytes_params: Vec<Schema> = Vec::new();
    bytes_params.push(Schema::UInt { width: 1, little: true });
    bytes_params.push(Schema::Bytes { n: 32 });
    let mut first: Vec<Schema> = Vec::new();
    first.push(Schema::Tuple { subs: bytes_params });
    first.push(pair_schema(2));
    let mut darray_params: Vec<Schema> = Vec::new();
    darray_params.push(
        Schema::Rep {
            len: LenSrc::Byte,
            elem: Box::new(Schema::UInt { width: 1, little: true }),
            cap: 24,
        },
    );
    darray_params.push(Schema::Rep { len: LenSrc::Byte, elem: Box::new(pair_schema(4)), cap: 4 });
    let mut second: Vec<Schema> = Vec::new();
    second.push(pair_schema(8));
    second.push(Schema::Tuple { subs: darray_params });
    let mut subs: Vec<Schema> = Vec::new();
    subs.push(Schema::Tuple { subs: first });
    subs.push(Schema::Tuple { subs: second });
    Schema::Tuple { subs }
}

fn pair_schema(w: usize) -> (r: Schema)
    ensures
        is_pair_schema(r, w),
{
    let mut subs: Vec<Schema> = Vec::new();
    subs.push(Schema::UInt { width: w, little: false });
    subs.push(Schema::UInt { width: w, little: true });
    Schema::Tuple { subs }
}

} // verus!
