//! The incremental parser engine.
//!
//! Every parser is an explicit state value advanced one byte at a time;
//! a parse therefore suspends for free at any chunk boundary, and the
//! state reached after feeding a byte sequence is a pure function of the
//! schema and of the concatenation of everything fed so far.
use vstd::prelude::*;

use crate::schema::{GValue, LenSrc, Schema, Value};

verus! {

broadcast use vstd::std_specs::vec::group_vec_axioms;

/// A variable-length unsigned integer carries at most this many groups
/// of 7 value bits; the fifth group may only hold 4 bits, so decoded
/// values fit in 32 bits.
pub const ULEB_MAX_GROUPS: usize = 5;

/// Mathematical model of a suspended parse: exactly the information
/// needed to resume, plus the two terminal outcomes.
pub enum GState {
    /// Fixed-width integer: `got` bytes already read into `acc`.
    UIntG { got: nat, acc: u64 },
    /// Fixed-length byte array: bytes read so far.
    BytesG { buf: Seq<u8> },
    /// Fixed-length skip: number of bytes already discarded.
    SkipG { got: nat },
    /// Variable-length integer: `got` groups already read into `acc`.
    ULebG { got: nat, acc: u64 },
    /// Ordered tuple: values of the finished members, state of the
    /// active one.
    TupleG { done: Seq<GValue>, cur: Box<GState> },
    /// Bounded repetition, still reading its count field.
    RepLenG { got: nat, acc: u64 },
    /// Bounded repetition: `todo` elements remain (the active one
    /// included), `done` holds the finished ones.
    RepG { todo: nat, done: Seq<GValue>, cur: Box<GState> },
    /// Variant dispatch, still reading the tag.
    VarTagG { got: nat, acc: u64 },
    /// Variant dispatch: branch `tag` was selected and is in progress.
    VarG { tag: u32, cur: Box<GState> },
    /// Byte observation: bytes already fed to the digest, inner state.
    ObserveG { seen: Seq<u8>, cur: Box<GState> },
    /// Terminal: the parse finished and produced a value.
    DoneG(GValue),
    /// Terminal: the parse failed; the surrounding operation resets.
    RejectG,
}

impl GState {
    /// A terminal state: no further byte changes it.
    pub open spec fn is_halt(self) -> bool {
        self is DoneG || self is RejectG
    }
}

/// One step of a fixed-width integer: fold byte `b` into `acc` as byte
/// number `got` (little- or big-endian).
pub open spec fn uint_acc(little: bool, got: nat, acc: u64, b: u8) -> u64 {
    if little {
        acc | ((b as u64) << ((8 * got) as u64))
    } else {
        (acc << 8u64) | (b as u64)
    }
}

/// Outcome of folding one group of a variable-length integer.
pub enum ULebStep {
    More { got: nat, acc: u64 },
    Fin { val: u64 },
    Bad,
}

/// One step of the variable-length unsigned integer: 7 value bits per
/// byte, little-endian group order, rejecting encodings past 32 bits.
pub open spec fn uleb_acc(got: nat, acc: u64, b: u8) -> ULebStep {
    let group = (b & 0x7f) as u64;
    if got >= ULEB_MAX_GROUPS || (got == ULEB_MAX_GROUPS - 1 && group > 0x0f) {
        ULebStep::Bad
    } else {
        let acc2 = acc | (group << ((7 * got) as u64));
        if b & 0x80 == 0 {
            ULebStep::Fin { val: acc2 }
        } else {
            ULebStep::More { got: got + 1, acc: acc2 }
        }
    }
}

/// The value an observation wraps around its inner value: the observed
/// bytes first, the inner value second.
pub open spec fn obs_value(seen: Seq<u8>, inner: GValue) -> GValue {
    GValue::List(seq![GValue::Bytes(seen), inner])
}

/// Initial state for a schema. Schemas that consume no bytes at all are
/// already `DoneG`, so a state that is not terminal always wants input.
pub open spec fn ginit(sch: Schema) -> GState
    decreases sch, 0int,
{
    match sch {
        Schema::UInt { width, little } => {
            if 1 <= width <= 8 {
                GState::UIntG { got: 0, acc: 0 }
            } else {
                GState::RejectG
            }
        },
        Schema::Bytes { n } => {
            if n == 0 {
                GState::DoneG(GValue::Bytes(Seq::empty()))
            } else {
                GState::BytesG { buf: Seq::empty() }
            }
        },
        Schema::Skip { n } => {
            if n == 0 {
                GState::DoneG(GValue::Unit)
            } else {
                GState::SkipG { got: 0 }
            }
        },
        Schema::ULeb => GState::ULebG { got: 0, acc: 0 },
        Schema::Tuple { subs } => tuple_fill(subs, Seq::empty()),
        Schema::Rep { len, elem, cap } => match len {
            LenSrc::Byte => GState::RepLenG { got: 0, acc: 0 },
            LenSrc::ULeb => GState::RepLenG { got: 0, acc: 0 },
            LenSrc::Exact(n) => {
                if n > cap {
                    GState::RejectG
                } else {
                    rep_fill(*elem, n as nat, Seq::empty())
                }
            },
        },
        Schema::Variant { branches } => GState::VarTagG { got: 0, acc: 0 },
        Schema::Observe { inner } => {
            let ist = ginit(*inner);
            match ist {
                GState::DoneG(v) => GState::DoneG(obs_value(Seq::empty(), v)),
                GState::RejectG => GState::RejectG,
                _ => GState::ObserveG { seen: Seq::empty(), cur: Box::new(ist) },
            }
        },
    }
}

/// Advance a tuple past every member that completes without input,
/// starting from the member at position `done.len()`.
pub open spec fn tuple_fill(subs: Vec<Schema>, done: Seq<GValue>) -> GState
    decreases subs, subs.len() - done.len(),
{
    if done.len() >= subs.len() {
        GState::DoneG(GValue::List(done))
    } else {
        let ist = ginit(subs[done.len() as int]);
        match ist {
            GState::DoneG(v) => tuple_fill(subs, done.push(v)),
            GState::RejectG => GState::RejectG,
            _ => GState::TupleG { done, cur: Box::new(ist) },
        }
    }
}

/// Advance a repetition past every element that completes without
/// input, with `todo` elements still owed.
pub open spec fn rep_fill(elem: Schema, todo: nat, done: Seq<GValue>) -> GState
    decreases elem, todo,
{
    if todo == 0 {
        GState::DoneG(GValue::List(done))
    } else {
        let ist = ginit(elem);
        match ist {
            GState::DoneG(v) => rep_fill(elem, (todo - 1) as nat, done.push(v)),
            GState::RejectG => GState::RejectG,
            _ => GState::RepG { todo, done, cur: Box::new(ist) },
        }
    }
}

/// Feed one byte to a suspended parse. Terminal states absorb every
/// byte; a state that does not match its schema rejects, so the
/// function is total and needs no well-formedness side condition.
pub open spec fn gstep(sch: Schema, st: GState, b: u8) -> GState
    decreases sch, 1int,
{
    if st.is_halt() {
        st
    } else {
        match sch {
            Schema::UInt { width, little } => match st {
                GState::UIntG { got, acc } => {
                    if got < width <= 8 {
                        let acc2 = uint_acc(little, got, acc, b);
                        if got + 1 == width {
                            GState::DoneG(GValue::Int(acc2))
                        } else {
                            GState::UIntG { got: got + 1, acc: acc2 }
                        }
                    } else {
                        GState::RejectG
                    }
                },
                _ => GState::RejectG,
            },
            Schema::Bytes { n } => match st {
                GState::BytesG { buf } => {
                    if buf.len() + 1 < n {
                        GState::BytesG { buf: buf.push(b) }
                    } else {
                        GState::DoneG(GValue::Bytes(buf.push(b)))
                    }
                },
                _ => GState::RejectG,
            },
            Schema::Skip { n } => match st {
                GState::SkipG { got } => {
                    if got + 1 < n {
                        GState::SkipG { got: got + 1 }
                    } else {
                        GState::DoneG(GValue::Unit)
                    }
                },
                _ => GState::RejectG,
            },
            Schema::ULeb => match st {
                GState::ULebG { got, acc } => match uleb_acc(got, acc, b) {
                    ULebStep::More { got, acc } => GState::ULebG { got, acc },
                    ULebStep::Fin { val } => GState::DoneG(GValue::Int(val)),
                    ULebStep::Bad => GState::RejectG,
                },
                _ => GState::RejectG,
            },
            Schema::Tuple { subs } => match st {
                GState::TupleG { done, cur } => {
                    if done.len() < subs.len() {
                        let sub2 = gstep(subs[done.len() as int], *cur, b);
                        match sub2 {
                            GState::DoneG(v) => tuple_fill(subs, done.push(v)),
                            GState::RejectG => GState::RejectG,
                            _ => GState::TupleG { done, cur: Box::new(sub2) },
                        }
                    } else {
                        GState::RejectG
                    }
                },
                _ => GState::RejectG,
            },
            Schema::Rep { len, elem, cap } => match st {
                GState::RepLenG { got, acc } => match len {
                    LenSrc::Byte => {
                        if b as nat > cap {
                            GState::RejectG
                        } else {
                            rep_fill(*elem, b as nat, Seq::empty())
                        }
                    },
                    LenSrc::ULeb => match uleb_acc(got, acc, b) {
                        ULebStep::More { got, acc } => GState::RepLenG { got, acc },
                        ULebStep::Fin { val } => {
                            if val as nat > cap {
                                GState::RejectG
                            } else {
                                rep_fill(*elem, val as nat, Seq::empty())
                            }
                        },
                        ULebStep::Bad => GState::RejectG,
                    },
                    LenSrc::Exact(n) => GState::RejectG,
                },
                GState::RepG { todo, done, cur } => {
                    if todo == 0 {
                        GState::RejectG
                    } else {
                        let sub2 = gstep(*elem, *cur, b);
                        match sub2 {
                            GState::DoneG(v) => rep_fill(*elem, (todo - 1) as nat, done.push(v)),
                            GState::RejectG => GState::RejectG,
                            _ => GState::RepG { todo, done, cur: Box::new(sub2) },
                        }
                    }
                },
                _ => GState::RejectG,
            },
            Schema::Variant { branches } => match st {
                GState::VarTagG { got, acc } => match uleb_acc(got, acc, b) {
                    ULebStep::More { got, acc } => GState::VarTagG { got, acc },
                    ULebStep::Fin { val } => {
                        if val > 0xffff_ffffu64 || val as nat >= branches.len() {
                            GState::RejectG
                        } else {
                            let ist = ginit(branches[val as int]);
                            match ist {
                                GState::DoneG(v) => GState::DoneG(
                                    GValue::Tagged(val as u32, Box::new(v)),
                                ),
                                GState::RejectG => GState::RejectG,
                                _ => GState::VarG { tag: val as u32, cur: Box::new(ist) },
                            }
                        }
                    },
                    ULebStep::Bad => GState::RejectG,
                },
                GState::VarG { tag, cur } => {
                    if (tag as nat) < branches.len() {
                        let sub2 = gstep(branches[tag as int], *cur, b);
                        match sub2 {
                            GState::DoneG(v) => GState::DoneG(
                                GValue::Tagged(tag, Box::new(v)),
                            ),
                            GState::RejectG => GState::RejectG,
                            _ => GState::VarG { tag, cur: Box::new(sub2) },
                        }
                    } else {
                        GState::RejectG
                    }
                },
                _ => GState::RejectG,
            },
            Schema::Observe { inner } => match st {
                GState::ObserveG { seen, cur } => {
                    let sub2 = gstep(*inner, *cur, b);
                    match sub2 {
                        GState::DoneG(v) => GState::DoneG(obs_value(seen.push(b), v)),
                        GState::RejectG => GState::RejectG,
                        _ => GState::ObserveG { seen: seen.push(b), cur: Box::new(sub2) },
                    }
                },
                _ => GState::RejectG,
            },
        }
    }
}

/// Feed a whole byte sequence, first byte first.
pub open spec fn grun(sch: Schema, st: GState, bs: Seq<u8>) -> GState
    decreases bs.len(),
{
    if bs.len() == 0 {
        st
    } else {
        grun(sch, gstep(sch, st, bs[0]), bs.subrange(1, bs.len() as int))
    }
}

/// Feed bytes until the parse halts or the sequence is exhausted; the
/// second component counts the bytes consumed.
pub open spec fn gfeed(sch: Schema, st: GState, bs: Seq<u8>) -> (GState, nat)
    decreases bs.len(),
{
    if bs.len() == 0 || st.is_halt() {
        (st, 0)
    } else {
        let (s, c) = gfeed(sch, gstep(sch, st, bs[0]), bs.subrange(1, bs.len() as int));
        (s, c + 1)
    }
}

/// A terminal state absorbs any further input.
pub proof fn lemma_halt_absorbs(sch: Schema, st: GState, bs: Seq<u8>)
    requires
        st.is_halt(),
    ensures
        grun(sch, st, bs) == st,
    decreases bs.len(),
{
    if bs.len() > 0 {
        lemma_halt_absorbs(sch, gstep(sch, st, bs[0]), bs.subrange(1, bs.len() as int));
    }
}

/// Feeding `a` then `b` is feeding `a + b`.
pub proof fn lemma_run_append(sch: Schema, st: GState, a: Seq<u8>, b: Seq<u8>)
    ensures
        grun(sch, st, a + b) == grun(sch, grun(sch, st, a), b),
    decreases a.len(),
{
    if a.len() == 0 {
        assert(a + b =~= b);
    } else {
        assert((a + b)[0] == a[0]);
        assert((a + b).subrange(1, (a + b).len() as int) =~= a.subrange(1, a.len() as int) + b);
        lemma_run_append(sch, gstep(sch, st, a[0]), a.subrange(1, a.len() as int), b);
    }
}

/// Feed a list of chunks, one after the other.
pub open spec fn run_chunks(sch: Schema, st: GState, chunks: Seq<Seq<u8>>) -> GState
    decreases chunks.len(),
{
    if chunks.len() == 0 {
        st
    } else {
        run_chunks(sch, grun(sch, st, chunks[0]), chunks.subrange(1, chunks.len() as int))
    }
}

/// Chunk invariance: splitting a byte sequence into arbitrary chunks
/// and feeding them one at a time reaches exactly the state — hence the
/// same decoded value and the same observed digest input — as feeding
/// all the bytes at once.
pub proof fn lemma_chunk_invariance(sch: Schema, st: GState, chunks: Seq<Seq<u8>>)
    ensures
        run_chunks(sch, st, chunks) == grun(sch, st, chunks.flatten()),
    decreases chunks.len(),
{
    if chunks.len() == 0 {
    } else {
        let rest = chunks.subrange(1, chunks.len() as int);
        assert(chunks.first() == chunks[0]);
        assert(chunks.drop_first() =~= rest);
        lemma_run_append(sch, st, chunks[0], rest.flatten());
        lemma_chunk_invariance(sch, grun(sch, st, chunks[0]), rest);
    }
}

/// Stopping early only happens in a terminal state, and the state a
/// whole chunk reaches is the same whether or not the trailing bytes
/// after the halt are counted: terminal states absorb them.
pub proof fn lemma_gfeed_run(sch: Schema, st: GState, bs: Seq<u8>)
    ensures
        gfeed(sch, st, bs).0 == grun(sch, st, bs),
        gfeed(sch, st, bs).1 <= bs.len(),
        gfeed(sch, st, bs).1 < bs.len() ==> gfeed(sch, st, bs).0.is_halt(),
    decreases bs.len(),
{
    if bs.len() == 0 {
    } else if st.is_halt() {
        lemma_halt_absorbs(sch, st, bs);
    } else {
        lemma_gfeed_run(sch, gstep(sch, st, bs[0]), bs.subrange(1, bs.len() as int));
    }
}

/// The little-endian positional value of a byte sequence: the first
/// byte is least significant.
pub open spec fn le_value(bs: Seq<u8>) -> nat
    decreases bs.len(),
{
    if bs.len() == 0 {
        0
    } else {
        (bs[0] + 256 * le_value(bs.subrange(1, bs.len() as int))) as nat
    }
}

/// The big-endian positional value of a byte sequence: the last byte
/// is least significant.
pub open spec fn be_value(bs: Seq<u8>) -> nat
    decreases bs.len(),
{
    if bs.len() == 0 {
        0
    } else {
        (256 * be_value(bs.drop_last()) + bs.last()) as nat
    }
}

proof fn lemma_le_value_bound(bs: Seq<u8>)
    ensures
        le_value(bs) < vstd::arithmetic::power2::pow2(8 * bs.len()),
    decreases bs.len(),
{
    vstd::arithmetic::power2::lemma2_to64();
    vstd::arithmetic::power2::lemma2_to64_rest();
    if bs.len() == 0 {
    } else {
        let rest = bs.subrange(1, bs.len() as int);
        lemma_le_value_bound(rest);
        let p = vstd::arithmetic::power2::pow2(8 * rest.len());
        assert(256 * le_value(rest) <= 256 * (p - 1)) by (nonlinear_arith)
            requires
                le_value(rest) <= p - 1,
                p >= 1,
        ;
        vstd::arithmetic::power2::lemma_pow2_adds(8, 8 * rest.len());
        assert(vstd::arithmetic::power2::pow2(8) == 256);
    }
}

proof fn lemma_be_value_bound(bs: Seq<u8>)
    ensures
        be_value(bs) < vstd::arithmetic::power2::pow2(8 * bs.len()),
    decreases bs.len(),
{
    vstd::arithmetic::power2::lemma2_to64();
    vstd::arithmetic::power2::lemma2_to64_rest();
    if bs.len() == 0 {
    } else {
        let front = bs.drop_last();
        lemma_be_value_bound(front);
        let p = vstd::arithmetic::power2::pow2(8 * front.len());
        assert(256 * be_value(front) <= 256 * (p - 1)) by (nonlinear_arith)
            requires
                be_value(front) <= p - 1,
                p >= 1,
        ;
        vstd::arithmetic::power2::lemma_pow2_adds(8, 8 * front.len());
        assert(vstd::arithmetic::power2::pow2(8) == 256);
    }
}

proof fn lemma_le_value_push(s: Seq<u8>, b: u8)
    ensures
        le_value(s.push(b)) == le_value(s) + (b as nat) * vstd::arithmetic::power2::pow2(
            8 * s.len(),
        ),
    decreases s.len(),
{
    vstd::arithmetic::power2::lemma2_to64();
    vstd::arithmetic::power2::lemma2_to64_rest();
    if s.len() == 0 {
        assert(s.push(b)[0] == b);
        assert(s.push(b).subrange(1, 1) =~= Seq::<u8>::empty());
        assert(le_value(Seq::<u8>::empty()) == 0);
        assert(le_value(s.push(b)) == b);
        assert(le_value(s) == 0);
        assert(8 * s.len() == 0);
        assert(vstd::arithmetic::power2::pow2(8 * s.len()) == 1);
        assert((b as nat) * vstd::arithmetic::power2::pow2(8 * s.len()) == b)
            by (nonlinear_arith)
            requires
                vstd::arithmetic::power2::pow2(8 * s.len()) == 1,
        ;
        assert(le_value(s.push(b)) == le_value(s) + (b as nat)
            * vstd::arithmetic::power2::pow2(8 * s.len()));
    } else {
        let t = s.subrange(1, s.len() as int);
        assert(s.push(b)[0] == s[0]);
        assert(s.push(b).subrange(1, s.push(b).len() as int) =~= t.push(b));
        lemma_le_value_push(t, b);
        let p = vstd::arithmetic::power2::pow2(8 * t.len());
        vstd::arithmetic::power2::lemma_pow2_adds(8, 8 * t.len());
        assert(vstd::arithmetic::power2::pow2(8) == 256);
        assert(256 * (le_value(t) + (b as nat) * p) == 256 * le_value(t) + (b as nat) * (256
            * p)) by (nonlinear_arith);
        assert(le_value(t.push(b)) == le_value(t) + (b as nat) * p);
        assert(le_value(s.push(b)) == s[0] + 256 * le_value(t.push(b)));
        assert(le_value(s) == s[0] + 256 * le_value(t));
        assert(vstd::arithmetic::power2::pow2(8 * s.len()) == 256 * p);
        assert(le_value(s.push(b)) == le_value(s) + (b as nat)
            * vstd::arithmetic::power2::pow2(8 * s.len()));
    }
}

/// What a little-endian fixed-width integer parse means: after any
/// prefix of its bytes the accumulator holds exactly the positional
/// value of those bytes, and the final value is the positional value
/// of all of them — for every width and every byte sequence.
pub proof fn lemma_uint_le_decode(width: usize, bs: Seq<u8>)
    requires
        1 <= width <= 8,
        bs.len() <= width,
    ensures
        grun(
            Schema::UInt { width, little: true },
            ginit(Schema::UInt { width, little: true }),
            bs,
        ) == if bs.len() < width {
            GState::UIntG { got: bs.len() as nat, acc: le_value(bs) as u64 }
        } else {
            GState::DoneG(GValue::Int(le_value(bs) as u64))
        },
    decreases bs.len(),
{
    let sch = Schema::UInt { width, little: true };
    vstd::arithmetic::power2::lemma2_to64();
    vstd::arithmetic::power2::lemma2_to64_rest();
    lemma_le_value_bound(bs);
    vstd::arithmetic::power2::lemma_pow2_adds(8 * bs.len(), (64 - 8 * bs.len()) as nat);
    vstd::arithmetic::power2::lemma_pow2_pos((64 - 8 * bs.len()) as nat);
    assert(vstd::arithmetic::power2::pow2(8 * bs.len()) <= vstd::arithmetic::power2::pow2(64))
        by (nonlinear_arith)
        requires
            vstd::arithmetic::power2::pow2(64) == vstd::arithmetic::power2::pow2(8 * bs.len())
                * vstd::arithmetic::power2::pow2((64 - 8 * bs.len()) as nat),
            vstd::arithmetic::power2::pow2((64 - 8 * bs.len()) as nat) >= 1,
            vstd::arithmetic::power2::pow2(8 * bs.len()) >= 0,
    ;
    if bs.len() == 0 {
    } else {
        let front = bs.drop_last();
        let b = bs.last();
        lemma_uint_le_decode(width, front);
        lemma_run_append(sch, ginit(sch), front, seq![b]);
        assert(front + seq![b] =~= bs);
        assert(front.push(b) =~= bs);
        let st1 = grun(sch, ginit(sch), front);
        let k = front.len();
        let s64 = (8 * k) as u64;
        let acc = le_value(front) as u64;
        let b64 = b as u64;
        lemma_le_value_bound(front);
        lemma_le_value_push(front, b);
        let p = vstd::arithmetic::power2::pow2(8 * k);
        assert(p <= vstd::arithmetic::power2::pow2(56)) by {
            if k < 7 {
                vstd::arithmetic::power2::lemma_pow2_strictly_increases(8 * k, 56);
            }
        }
        // the shifted byte is the byte times its place value
        assert(b64 * p <= u64::MAX) by (nonlinear_arith)
            requires
                b64 <= 255,
                p <= vstd::arithmetic::power2::pow2(56),
                vstd::arithmetic::power2::pow2(56) * 256 == 0x1_0000_0000_0000_0000,
        ;
        vstd::bits::lemma_u64_shl_is_mul(b64, s64);
        vstd::bits::lemma_u64_shl_is_mul(1u64, s64);
        // the accumulator occupies the low bits only, so the bitwise
        // or is an addition
        assert(acc | (b64 << s64) == acc + (b64 << s64)) by (bit_vector)
            requires
                s64 <= 56u64,
                b64 <= 255u64,
                acc < (1u64 << s64),
        ;
        assert(vstd::arithmetic::power2::pow2(8 * (k + 1)) == 256 * p) by {
            vstd::arithmetic::power2::lemma_pow2_adds(8, 8 * k);
        }
        assert(acc + b64 * p < vstd::arithmetic::power2::pow2(8 * (k + 1))) by (nonlinear_arith)
            requires
                acc < p,
                b64 <= 255,
                vstd::arithmetic::power2::pow2(8 * (k + 1)) == 256 * p,
        ;
        assert(vstd::arithmetic::power2::pow2(8 * (k + 1)) <= vstd::arithmetic::power2::pow2(64))
            by {
            if 8 * (k + 1) < 64 {
                vstd::arithmetic::power2::lemma_pow2_strictly_increases(8 * (k + 1), 64);
            }
        }
        assert(uint_acc(true, k as nat, acc, b) == (le_value(bs) as u64));
        assert(grun(sch, gstep(sch, st1, b), seq![b].subrange(1, 1)) == gstep(sch, st1, b));
    }
}

/// What a big-endian fixed-width integer parse means: the value is
/// the positional value of the bytes with the last byte least
/// significant — for every width and every byte sequence.
pub proof fn lemma_uint_be_decode(width: usize, bs: Seq<u8>)
    requires
        1 <= width <= 8,
        bs.len() <= width,
    ensures
        grun(
            Schema::UInt { width, little: false },
            ginit(Schema::UInt { width, little: false }),
            bs,
        ) == if bs.len() < width {
            GState::UIntG { got: bs.len() as nat, acc: be_value(bs) as u64 }
        } else {
            GState::DoneG(GValue::Int(be_value(bs) as u64))
        },
    decreases bs.len(),
{
    let sch = Schema::UInt { width, little: false };
    vstd::arithmetic::power2::lemma2_to64();
    vstd::arithmetic::power2::lemma2_to64_rest();
    if bs.len() == 0 {
    } else {
        let front = bs.drop_last();
        let b = bs.last();
        lemma_uint_be_decode(width, front);
        lemma_run_append(sch, ginit(sch), front, seq![b]);
        assert(front + seq![b] =~= bs);
        let st1 = grun(sch, ginit(sch), front);
        let k = front.len();
        let acc = be_value(front) as u64;
        let b64 = b as u64;
        lemma_be_value_bound(front);
        lemma_be_value_bound(bs);
        let p = vstd::arithmetic::power2::pow2(8 * k);
        assert(p <= vstd::arithmetic::power2::pow2(56)) by {
            if k < 7 {
                vstd::arithmetic::power2::lemma_pow2_strictly_increases(8 * k, 56);
            }
        }
        assert(acc * 256 <= u64::MAX) by (nonlinear_arith)
            requires
                acc < p,
                p <= vstd::arithmetic::power2::pow2(56),
                vstd::arithmetic::power2::pow2(56) * 256 == 0x1_0000_0000_0000_0000,
        ;
        vstd::bits::lemma_u64_shl_is_mul(acc, 8u64);
        assert(vstd::arithmetic::power2::pow2(8) == 256);
        // the low eight bits of the shifted accumulator are clear, so
        // the bitwise or is an addition
        assert((acc << 8u64) | b64 == (acc << 8u64) + b64) by (bit_vector)
            requires
                b64 < 256u64,
                acc <= 0xff_ffff_ffff_ffffu64,
        ;
        assert(uint_acc(false, k as nat, acc, b) == (be_value(bs) as u64));
        assert(grun(sch, gstep(sch, st1, b), seq![b].subrange(1, 1)) == gstep(sch, st1, b));
    }
}

/// The wire encoding of a variable-length unsigned integer: seven
/// bits per byte, least significant group first, a continuation bit
/// on every group but the last.
pub open spec fn encode_uleb(x: u32) -> Seq<u8>
    decreases x,
    via encode_uleb_decreases
{
    if x < 0x80 {
        seq![x as u8]
    } else {
        seq![((x & 0x7f) | 0x80) as u8] + encode_uleb(x >> 7u32)
    }
}

#[via_fn]
proof fn encode_uleb_decreases(x: u32) {
    assert(x >= 0x80 ==> (x >> 7u32) < x) by (bit_vector);
}

proof fn lemma_uleb_run(x: u32, got: nat, acc: u64)
    requires
        got <= 4,
        acc < (1u64 << ((7 * got) as u64)),
        (x as u64) < (1u64 << ((32 - 7 * got) as u64)),
    ensures
        grun(Schema::ULeb, GState::ULebG { got, acc }, encode_uleb(x)) == GState::DoneG(
            GValue::Int(acc | ((x as u64) << ((7 * got) as u64))),
        ),
    decreases x,
{
    let s64 = (7 * got) as u64;
    let r64 = (32 - 7 * got) as u64;
    assert(s64 == 7 * got && r64 == 32 - 7 * got && s64 + r64 == 32);
    let x64 = x as u64;
    if x < 0x80 {
        let b = x as u8;
        assert(b & 0x80 == 0 && (b & 0x7f) as u64 == x as u64) by (bit_vector)
            requires
                b == x as u8,
                x < 0x80,
        ;
        if got == 4 {
            assert((b & 0x7f) <= 0x0f) by (bit_vector)
                requires
                    b == x as u8,
                    x64 == x as u64,
                    x64 < (1u64 << r64),
                    r64 == 4u64,
            ;
        }
        assert(uleb_acc(got, acc, b) == (ULebStep::Fin {
            val: acc | (((b & 0x7f) as u64) << s64),
        }));
        assert(grun(
            Schema::ULeb,
            gstep(Schema::ULeb, GState::ULebG { got, acc }, b),
            encode_uleb(x).subrange(1, 1),
        ) == gstep(Schema::ULeb, GState::ULebG { got, acc }, b)) by {
            assert(encode_uleb(x).subrange(1, 1).len() == 0);
        }
        assert(encode_uleb(x)[0] == b);
    } else {
        let b = ((x & 0x7f) | 0x80) as u8;
        assert(b & 0x80 != 0 && (b & 0x7f) as u64 == (x as u64) & 0x7f) by (bit_vector)
            requires
                b == ((x & 0x7f) | 0x80) as u8,
        ;
        assert(got <= 3) by {
            if got == 4 {
                assert(x64 < (1u64 << r64) && r64 == 4u64 ==> x64 < 0x80) by (bit_vector);
            }
        }
        let group = (b & 0x7f) as u64;
        let acc2 = acc | (group << s64);
        assert(uleb_acc(got, acc, b) == (ULebStep::More { got: got + 1, acc: acc2 }));
        let x2 = x >> 7u32;
        assert(x2 < x) by (bit_vector)
            requires
                x2 == x >> 7u32,
                x >= 0x80,
        ;
        let r7 = (r64 - 7) as u64;
        assert((7 * (got + 1)) as u64 == s64 + 7 && (32 - 7 * (got + 1)) as u64 == r7);
        // the new accumulator stays below the next group boundary and
        // the remaining value fits the remaining groups
        assert(acc2 < (1u64 << (s64 + 7)) && (x2 as u64) < (1u64 << r7)) by (bit_vector)
            requires
                acc2 == acc | ((x64 & 0x7f) << s64),
                acc < (1u64 << s64),
                x64 < (1u64 << r64),
                x2 == x >> 7u32,
                x64 == x as u64,
                s64 <= 21u64,
                r7 + 7 == r64,
                7u64 <= r64 <= 32u64,
        ;
        lemma_uleb_run(x2, got + 1, acc2);
        lemma_run_append(Schema::ULeb, GState::ULebG { got, acc }, seq![b], encode_uleb(x2));
        assert(seq![b] + encode_uleb(x2) =~= encode_uleb(x));
        assert(grun(Schema::ULeb, GState::ULebG { got, acc }, seq![b]) == (GState::ULebG {
            got: got + 1,
            acc: acc2,
        })) by {
            assert(seq![b][0] == b);
            assert(seq![b].subrange(1, 1).len() == 0);
            assert(grun(
                Schema::ULeb,
                gstep(Schema::ULeb, GState::ULebG { got, acc }, b),
                seq![b].subrange(1, 1),
            ) == gstep(Schema::ULeb, GState::ULebG { got, acc }, b));
        }
        // folding the low group into the running value commutes with
        // shifting the rest seven bits further
        assert(acc2 | ((x2 as u64) << (s64 + 7)) == acc | (x64 << s64)) by (bit_vector)
            requires
                acc2 == acc | ((x64 & 0x7f) << s64),
                x2 == x >> 7u32,
                x64 == x as u64,
                s64 <= 21u64,
                acc < (1u64 << s64),
        ;
    }
}

/// What a variable-length unsigned integer parse means: parsing the
/// wire encoding of any 32-bit value yields exactly that value.
pub proof fn lemma_uleb_roundtrip(x: u32)
    ensures
        grun(Schema::ULeb, ginit(Schema::ULeb), encode_uleb(x)) == GState::DoneG(
            GValue::Int(x as u64),
        ),
{
    assert(0u64 < (1u64 << 0u64) && (x as u64) < (1u64 << 32u64) && 0u64 | ((x as u64) << 0u64)
        == x as u64) by (bit_vector);
    lemma_uleb_run(x, 0, 0);
}

/// Chunk consumption is exact: feeding stops at the first terminal
/// state, so when the parse first halts after `k` bytes (or never
/// within the chunk, with `k` its length), exactly `k` bytes are
/// consumed.
pub proof fn lemma_gfeed_count(sch: Schema, st: GState, bs: Seq<u8>, k: int)
    requires
        0 <= k <= bs.len(),
        k < bs.len() ==> grun(sch, st, bs.subrange(0, k)).is_halt(),
        forall|j: int|
            0 <= j < k ==> !(#[trigger] grun(sch, st, bs.subrange(0, j))).is_halt(),
    ensures
        gfeed(sch, st, bs) == (grun(sch, st, bs.subrange(0, k)), k as nat),
    decreases bs.len(),
{
    if k == 0 {
        assert(bs.subrange(0, 0) =~= Seq::<u8>::empty());
        if bs.len() == 0 {
            assert(bs =~= Seq::<u8>::empty());
        } else {
            assert(grun(sch, st, bs.subrange(0, 0)) == st);
        }
    } else {
        assert(!grun(sch, st, bs.subrange(0, 0)).is_halt());
        assert(bs.subrange(0, 0) =~= Seq::<u8>::empty());
        assert(!st.is_halt());
        let st2 = gstep(sch, st, bs[0]);
        let rest = bs.subrange(1, bs.len() as int);
        assert forall|j: int| 0 <= j < k - 1 implies !(#[trigger] grun(
            sch,
            st2,
            rest.subrange(0, j),
        )).is_halt() by {
            let p = bs.subrange(0, j + 1);
            assert(p[0] == bs[0]);
            assert(p.subrange(1, p.len() as int) =~= rest.subrange(0, j));
            assert(grun(sch, st, p) == grun(sch, st2, rest.subrange(0, j)));
        }
        if k < bs.len() {
            let p = bs.subrange(0, k);
            assert(p[0] == bs[0]);
            assert(p.subrange(1, p.len() as int) =~= rest.subrange(0, k - 1));
            assert(grun(sch, st, p) == grun(sch, st2, rest.subrange(0, k - 1)));
        }
        lemma_gfeed_count(sch, st2, rest, k - 1);
        let p = bs.subrange(0, k);
        assert(p[0] == bs[0]);
        assert(p.subrange(1, p.len() as int) =~= rest.subrange(0, k - 1));
        assert(grun(sch, st, p) == grun(sch, st2, rest.subrange(0, k - 1)));
    }
}

/// What a fixed-length byte array parse means: the value is the bytes
/// themselves, verbatim — for every length and every byte sequence.
pub proof fn lemma_bytes_decode(n: usize, bs: Seq<u8>)
    requires
        n >= 1,
        bs.len() <= n,
    ensures
        grun(Schema::Bytes { n }, ginit(Schema::Bytes { n }), bs) == if bs.len() < n {
            GState::BytesG { buf: bs }
        } else {
            GState::DoneG(GValue::Bytes(bs))
        },
    decreases bs.len(),
{
    let sch = Schema::Bytes { n };
    if bs.len() == 0 {
        assert(bs =~= Seq::<u8>::empty());
    } else {
        let front = bs.drop_last();
        let b = bs.last();
        lemma_bytes_decode(n, front);
        lemma_run_append(sch, ginit(sch), front, seq![b]);
        assert(front + seq![b] =~= bs);
        assert(front.push(b) =~= bs);
        let st1 = grun(sch, ginit(sch), front);
        assert(grun(sch, gstep(sch, st1, b), seq![b].subrange(1, 1)) == gstep(sch, st1, b));
    }
}

/// Running bytes into a repetition that is inside an element mirrors
/// running them into the element parser itself, as long as the
/// element does not halt before the last byte: on completion the
/// element's value joins the finished ones and the next element
/// starts.
pub proof fn lemma_rep_inner_run(
    len: LenSrc,
    elem: Schema,
    cap: usize,
    todo: nat,
    done: Seq<GValue>,
    bs: Seq<u8>,
)
    requires
        todo >= 1,
        forall|i: int|
            0 < i < bs.len() ==> !(#[trigger] grun(
                elem,
                ginit(elem),
                bs.subrange(0, i),
            )).is_halt(),
        !ginit(elem).is_halt(),
    ensures
        grun(
            Schema::Rep { len, elem: Box::new(elem), cap },
            GState::RepG { todo, done, cur: Box::new(ginit(elem)) },
            bs,
        ) == (match grun(elem, ginit(elem), bs) {
            GState::DoneG(v) => rep_fill(elem, (todo - 1) as nat, done.push(v)),
            GState::RejectG => GState::RejectG,
            st => GState::RepG { todo, done, cur: Box::new(st) },
        }),
    decreases bs.len(),
{
    let sch = Schema::Rep { len, elem: Box::new(elem), cap };
    let st0 = GState::RepG { todo, done, cur: Box::new(ginit(elem)) };
    if bs.len() == 0 {
    } else {
        let front = bs.drop_last();
        let b = bs.last();
        assert(forall|i: int|
            0 < i < front.len() ==> front.subrange(0, i) =~= bs.subrange(0, i));
        lemma_rep_inner_run(len, elem, cap, todo, done, front);
        lemma_run_append(sch, st0, front, seq![b]);
        lemma_run_append(elem, ginit(elem), front, seq![b]);
        assert(front + seq![b] =~= bs);
        let ist = grun(elem, ginit(elem), front);
        if front.len() > 0 {
            assert(!ist.is_halt()) by {
                assert(bs.subrange(0, front.len() as int) =~= front);
            }
        }
        let wrapped = grun(sch, st0, front);
        assert(wrapped == (GState::RepG { todo, done, cur: Box::new(ist) }));
        assert(gstep(elem, ist, b) == grun(elem, ginit(elem), bs)) by {
            assert(grun(elem, gstep(elem, ist, b), seq![b].subrange(1, 1)) == gstep(
                elem,
                ist,
                b,
            ));
        }
        assert(grun(sch, gstep(sch, wrapped, b), seq![b].subrange(1, 1)) == gstep(
            sch,
            wrapped,
            b,
        ));
    }
}

/// Bounded-repetition safety, first half: a repetition whose declared
/// count exceeds its static cap rejects on the very byte that completes
/// the count field, before consuming any element byte.
pub proof fn lemma_rep_count_over_cap_rejects(
    len: LenSrc,
    elem: Schema,
    cap: usize,
    st: GState,
    b: u8,
)
    requires
        match len {
            LenSrc::Byte => st == (GState::RepLenG { got: 0nat, acc: 0u64 }) && b as nat > cap,
            LenSrc::ULeb => st matches GState::RepLenG { got, acc } && uleb_acc(got, acc, b)
                matches ULebStep::Fin { val } && val as nat > cap,
            LenSrc::Exact(n) => st == ginit(
                Schema::Rep { len, elem: Box::new(elem), cap },
            ) && n as nat > cap,
        },
    ensures
        match len {
            LenSrc::Exact(n) => st == GState::RejectG,
            _ => gstep(Schema::Rep { len, elem: Box::new(elem), cap }, st, b)
                == GState::RejectG,
        },
{
}

/// Everywhere inside a state, a repetition holds no more than its cap:
/// the finished elements and those still owed together never exceed it.
pub open spec fn rep_bounded(sch: Schema, st: GState) -> bool
    decreases sch,
{
    match sch {
        Schema::Tuple { subs } => match st {
            GState::TupleG { done, cur } => done.len() < subs.len() && rep_bounded(
                subs[done.len() as int],
                *cur,
            ),
            _ => true,
        },
        Schema::Rep { len, elem, cap } => match st {
            GState::RepG { todo, done, cur } => done.len() + todo <= cap && rep_bounded(
                *elem,
                *cur,
            ),
            _ => true,
        },
        Schema::Variant { branches } => match st {
            GState::VarG { tag, cur } => (tag as nat) < branches.len() && rep_bounded(
                branches[tag as int],
                *cur,
            ),
            _ => true,
        },
        Schema::Observe { inner } => match st {
            GState::ObserveG { seen, cur } => rep_bounded(*inner, *cur),
            _ => true,
        },
        _ => true,
    }
}

proof fn lemma_tuple_fill_bounded(subs: Vec<Schema>, done: Seq<GValue>)
    ensures
        rep_bounded(Schema::Tuple { subs }, tuple_fill(subs, done)),
    decreases subs, subs@.len() - done.len(),
{
    if done.len() >= subs.len() {
    } else {
        let ist = ginit(subs[done.len() as int]);
        match ist {
            GState::DoneG(v) => lemma_tuple_fill_bounded(subs, done.push(v)),
            GState::RejectG => {},
            _ => lemma_init_bounded(subs[done.len() as int]),
        }
    }
}

proof fn lemma_rep_fill_bounded(len: LenSrc, elem: Schema, cap: usize, todo: nat, done: Seq<GValue>)
    requires
        done.len() + todo <= cap,
    ensures
        rep_bounded(
            Schema::Rep { len, elem: Box::new(elem), cap },
            rep_fill(elem, todo, done),
        ),
    decreases elem, todo,
{
    if todo == 0 {
    } else {
        let ist = ginit(elem);
        match ist {
            GState::DoneG(v) => lemma_rep_fill_bounded(len, elem, cap, (todo - 1) as nat, done.push(v)),
            GState::RejectG => {},
            _ => lemma_init_bounded(elem),
        }
    }
}

/// The initial state of any schema respects every repetition cap.
pub proof fn lemma_init_bounded(sch: Schema)
    ensures
        rep_bounded(sch, ginit(sch)),
    decreases sch, 0int,
{
    match sch {
        Schema::Tuple { subs } => lemma_tuple_fill_bounded(subs, Seq::empty()),
        Schema::Rep { len, elem, cap } => match len {
            LenSrc::Exact(n) => {
                if n <= cap {
                    lemma_rep_fill_bounded(len, *elem, cap, n as nat, Seq::empty());
                }
            },
            _ => {},
        },
        Schema::Observe { inner } => lemma_init_bounded(*inner),
        _ => {},
    }
}

/// One byte preserves every repetition cap.
pub proof fn lemma_step_bounded(sch: Schema, st: GState, b: u8)
    requires
        rep_bounded(sch, st),
    ensures
        rep_bounded(sch, gstep(sch, st, b)),
    decreases sch, 1int,
{
    if st.is_halt() {
    } else {
        match sch {
            Schema::Tuple { subs } => match st {
                GState::TupleG { done, cur } => {
                    if done.len() < subs.len() {
                        lemma_step_bounded(subs[done.len() as int], *cur, b);
                        match gstep(subs[done.len() as int], *cur, b) {
                            GState::DoneG(v) => lemma_tuple_fill_bounded(subs, done.push(v)),
                            _ => {},
                        }
                    }
                },
                _ => {},
            },
            Schema::Rep { len, elem, cap } => match st {
                GState::RepLenG { got, acc } => match len {
                    LenSrc::Byte => {
                        if b as nat <= cap {
                            lemma_rep_fill_bounded(len, *elem, cap, b as nat, Seq::empty());
                        }
                    },
                    LenSrc::ULeb => match uleb_acc(got, acc, b) {
                        ULebStep::Fin { val } => {
                            if val as nat <= cap {
                                lemma_rep_fill_bounded(len, *elem, cap, val as nat, Seq::empty());
                            }
                        },
                        _ => {},
                    },
                    LenSrc::Exact(n) => {},
                },
                GState::RepG { todo, done, cur } => {
                    if todo > 0 {
                        lemma_step_bounded(*elem, *cur, b);
                        match gstep(*elem, *cur, b) {
                            GState::DoneG(v) => lemma_rep_fill_bounded(
                                len,
                                *elem,
                                cap,
                                (todo - 1) as nat,
                                done.push(v),
                            ),
                            _ => {},
                        }
                    }
                },
                _ => {},
            },
            Schema::Variant { branches } => match st {
                GState::VarTagG { got, acc } => match uleb_acc(got, acc, b) {
                    ULebStep::Fin { val } => {
                        if (val as nat) < branches.len() {
                            lemma_init_bounded(branches[val as int]);
                        }
                    },
                    _ => {},
                },
                GState::VarG { tag, cur } => {
                    if (tag as nat) < branches.len() {
                        lemma_step_bounded(branches[tag as int], *cur, b);
                    }
                },
                _ => {},
            },
            Schema::Observe { inner } => match st {
                GState::ObserveG { seen, cur } => lemma_step_bounded(*inner, *cur, b),
                _ => {},
            },
            _ => {},
        }
    }
}

/// Bounded-repetition safety, second half: every state reachable from
/// the initial one respects every repetition cap, so no repetition ever
/// accumulates more elements than its backing storage holds.
pub proof fn lemma_reachable_bounded(sch: Schema, bs: Seq<u8>)
    ensures
        rep_bounded(sch, grun(sch, ginit(sch), bs)),
{
    lemma_init_bounded(sch);
    lemma_run_preserves_bounded(sch, ginit(sch), bs);
}

proof fn lemma_run_preserves_bounded(sch: Schema, st: GState, bs: Seq<u8>)
    requires
        rep_bounded(sch, st),
    ensures
        rep_bounded(sch, grun(sch, st, bs)),
    decreases bs.len(),
{
    if bs.len() > 0 {
        lemma_step_bounded(sch, st, bs[0]);
        lemma_run_preserves_bounded(sch, gstep(sch, st, bs[0]), bs.subrange(1, bs.len() as int));
    }
}

/// A suspended parse, resumable on the next chunk of input.
pub enum PState {
    UIntP { got: usize, acc: u64 },
    BytesP { buf: Vec<u8> },
    SkipP { got: usize },
    ULebP { got: usize, acc: u64 },
    TupleP { done: Vec<Value>, cur: Box<PState> },
    RepLenP { got: usize, acc: u64 },
    RepP { todo: usize, done: Vec<Value>, cur: Box<PState> },
    VarTagP { got: usize, acc: u64 },
    VarP { tag: u32, cur: Box<PState> },
    ObserveP { seen: Vec<u8>, cur: Box<PState> },
    DoneP(Value),
    RejectP,
}

impl View for PState {
    type V = GState;

    open spec fn view(&self) -> GState
        decreases self,
    {
        match self {
            PState::UIntP { got, acc } => GState::UIntG { got: *got as nat, acc: *acc },
            PState::BytesP { buf } => GState::BytesG { buf: buf@ },
            PState::SkipP { got } => GState::SkipG { got: *got as nat },
            PState::ULebP { got, acc } => GState::ULebG { got: *got as nat, acc: *acc },
            PState::TupleP { done, cur } => GState::TupleG {
                done: crate::schema::vals_view(done@),
                cur: Box::new((**cur)@),
            },
            PState::RepLenP { got, acc } => GState::RepLenG { got: *got as nat, acc: *acc },
            PState::RepP { todo, done, cur } => GState::RepG {
                todo: *todo as nat,
                done: crate::schema::vals_view(done@),
                cur: Box::new((**cur)@),
            },
            PState::VarTagP { got, acc } => GState::VarTagG { got: *got as nat, acc: *acc },
            PState::VarP { tag, cur } => GState::VarG { tag: *tag, cur: Box::new((**cur)@) },
            PState::ObserveP { seen, cur } => GState::ObserveG {
                seen: seen@,
                cur: Box::new((**cur)@),
            },
            PState::DoneP(v) => GState::DoneG(v@),
            PState::RejectP => GState::RejectG,
        }
    }
}

impl PState {
    /// Whether the parse has reached a terminal state.
    pub fn is_halted(&self) -> (r: bool)
        ensures
            r == self@.is_halt(),
    {
        match self {
            PState::DoneP(_) => true,
            PState::RejectP => true,
            _ => false,
        }
    }
}

/// Build the value an observation yields: observed bytes, inner value.
fn obs_done(seen: Vec<u8>, v: Value) -> (r: Value)
    ensures
        r@ == obs_value(seen@, v@),
{
    let ghost seen_view = seen@;
    let ghost v_view = v@;
    let mut items: Vec<Value> = Vec::new();
    let first = Value::Bytes(seen);
    let ghost first_view = first@;
    items.push(first);
    items.push(v);
    proof {
        crate::schema::lemma_vals_view_index(items@);
        let rhs = seq![GValue::Bytes(seen_view), v_view];
        assert(items@.len() == 2);
        assert(items@[0]@ == first_view);
        assert(items@[1]@ == v_view);
        assert(rhs[0] == GValue::Bytes(seen_view));
        assert(rhs[1] == v_view);
        assert(crate::schema::vals_view(items@) =~= rhs);
    }
    Value::List(items)
}

/// Initial state for a schema.
pub fn init_state(sch: &Schema) -> (r: PState)
    ensures
        r@ == ginit(*sch),
    decreases *sch, 0int,
{
    match sch {
        Schema::UInt { width, little } => {
            if 1 <= *width && *width <= 8 {
                PState::UIntP { got: 0, acc: 0 }
            } else {
                PState::RejectP
            }
        },
        Schema::Bytes { n } => {
            if *n == 0 {
                PState::DoneP(Value::Bytes(Vec::new()))
            } else {
                PState::BytesP { buf: Vec::new() }
            }
        },
        Schema::Skip { n } => {
            if *n == 0 {
                PState::DoneP(Value::Unit)
            } else {
                PState::SkipP { got: 0 }
            }
        },
        Schema::ULeb => PState::ULebP { got: 0, acc: 0 },
        Schema::Tuple { subs } => tuple_fill_x(subs, Vec::new()),
        Schema::Rep { len, elem, cap } => match len {
            LenSrc::Byte => PState::RepLenP { got: 0, acc: 0 },
            LenSrc::ULeb => PState::RepLenP { got: 0, acc: 0 },
            LenSrc::Exact(n) => {
                if *n > *cap {
                    PState::RejectP
                } else {
                    rep_fill_x(elem, *n, Vec::new())
                }
            },
        },
        Schema::Variant { branches } => PState::VarTagP { got: 0, acc: 0 },
        Schema::Observe { inner } => {
            let ist = init_state(inner);
            match ist {
                PState::DoneP(v) => PState::DoneP(obs_done(Vec::new(), v)),
                PState::RejectP => PState::RejectP,
                _ => PState::ObserveP { seen: Vec::new(), cur: Box::new(ist) },
            }
        },
    }
}

/// Advance a tuple past every member that completes without input.
fn tuple_fill_x(subs: &Vec<Schema>, done: Vec<Value>) -> (r: PState)
    ensures
        r@ == tuple_fill(*subs, crate::schema::vals_view(done@)),
    decreases *subs, subs@.len() - done@.len(),
{
    proof {
        crate::schema::lemma_vals_view_index(done@);
    }
    if done.len() >= subs.len() {
        PState::DoneP(Value::List(done))
    } else {
        let idx = done.len();
        let ist = init_state(&subs[idx]);
        match ist {
            PState::DoneP(v) => {
                proof {
                    crate::schema::lemma_vals_view_push(done@, v);
                }
                let mut done2 = done;
                done2.push(v);
                tuple_fill_x(subs, done2)
            },
            PState::RejectP => PState::RejectP,
            _ => PState::TupleP { done, cur: Box::new(ist) },
        }
    }
}

/// Advance a repetition past every element that completes without input.
fn rep_fill_x(elem: &Schema, todo: usize, done: Vec<Value>) -> (r: PState)
    ensures
        r@ == rep_fill(*elem, todo as nat, crate::schema::vals_view(done@)),
    decreases *elem, todo,
{
    if todo == 0 {
        PState::DoneP(Value::List(done))
    } else {
        let ist = init_state(elem);
        match ist {
            PState::DoneP(v) => {
                proof {
                    crate::schema::lemma_vals_view_push(done@, v);
                }
                let mut done2 = done;
                done2.push(v);
                rep_fill_x(elem, todo - 1, done2)
            },
            PState::RejectP => PState::RejectP,
            _ => PState::RepP { todo, done, cur: Box::new(ist) },
        }
    }
}

/// Outcome of folding one group of a variable-length integer (resumable
/// form).
enum ULebX {
    MoreX { got: usize, acc: u64 },
    FinX { val: u64 },
    BadX,
}

/// Fold one byte of a variable-length unsigned integer.
fn uleb_step_x(got: usize, acc: u64, b: u8) -> (r: ULebX)
    ensures
        match r {
            ULebX::MoreX { got: g, acc: a } => uleb_acc(got as nat, acc, b) == (ULebStep::More {
                got: g as nat,
                acc: a,
            }),
            ULebX::FinX { val } => uleb_acc(got as nat, acc, b) == (ULebStep::Fin { val }),
            ULebX::BadX => uleb_acc(got as nat, acc, b) == ULebStep::Bad,
        },
{
    let group = (b & 0x7f) as u64;
    if got >= ULEB_MAX_GROUPS || (got == ULEB_MAX_GROUPS - 1 && group > 0x0f) {
        ULebX::BadX
    } else {
        let acc2 = acc | (group << ((7 * got) as u64));
        if b & 0x80 == 0 {
            ULebX::FinX { val: acc2 }
        } else {
            ULebX::MoreX { got: got + 1, acc: acc2 }
        }
    }
}

/// Feed one byte to a suspended parse.
pub fn pstep(sch: &Schema, st: PState, b: u8) -> (r: PState)
    ensures
        r@ == gstep(*sch, st@, b),
    decreases *sch, 1int,
{
    if st.is_halted() {
        return st;
    }
    match sch {
        Schema::UInt { width, little } => match st {
            PState::UIntP { got, acc } => {
                if got < *width && *width <= 8 {
                    let acc2: u64 = if *little {
                        acc | ((b as u64) << ((8 * got) as u64))
                    } else {
                        (acc << 8u64) | (b as u64)
                    };
                    if got + 1 == *width {
                        PState::DoneP(Value::Int(acc2))
                    } else {
                        PState::UIntP { got: got + 1, acc: acc2 }
                    }
                } else {
                    PState::RejectP
                }
            },
            _ => PState::RejectP,
        },
        Schema::Bytes { n } => match st {
            PState::BytesP { buf } => {
                let mut buf2 = buf;
                buf2.push(b);
                if buf2.len() < *n {
                    PState::BytesP { buf: buf2 }
                } else {
                    PState::DoneP(Value::Bytes(buf2))
                }
            },
            _ => PState::RejectP,
        },
        Schema::Skip { n } => match st {
            PState::SkipP { got } => {
                if got < usize::MAX && got + 1 < *n {
                    PState::SkipP { got: got + 1 }
                } else {
                    PState::DoneP(Value::Unit)
                }
            },
            _ => PState::RejectP,
        },
        Schema::ULeb => match st {
            PState::ULebP { got, acc } => match uleb_step_x(got, acc, b) {
                ULebX::MoreX { got, acc } => PState::ULebP { got, acc },
                ULebX::FinX { val } => PState::DoneP(Value::Int(val)),
                ULebX::BadX => PState::RejectP,
            },
            _ => PState::RejectP,
        },
        Schema::Tuple { subs } => match st {
            PState::TupleP { done, cur } => {
                proof {
                    crate::schema::lemma_vals_view_index(done@);
                }
                if done.len() < subs.len() {
                    let idx = done.len();
                    let sub2 = pstep(&subs[idx], *cur, b);
                    match sub2 {
                        PState::DoneP(v) => {
                            proof {
                                crate::schema::lemma_vals_view_push(done@, v);
                            }
                            let mut done2 = done;
                            done2.push(v);
                            tuple_fill_x(subs, done2)
                        },
                        PState::RejectP => PState::RejectP,
                        _ => PState::TupleP { done, cur: Box::new(sub2) },
                    }
                } else {
                    PState::RejectP
                }
            },
            _ => PState::RejectP,
        },
        Schema::Rep { len, elem, cap } => match st {
            PState::RepLenP { got, acc } => match len {
                LenSrc::Byte => {
                    if (b as usize) > *cap {
                        PState::RejectP
                    } else {
                        rep_fill_x(elem, b as usize, Vec::new())
                    }
                },
                LenSrc::ULeb => match uleb_step_x(got, acc, b) {
                    ULebX::MoreX { got, acc } => PState::RepLenP { got, acc },
                    ULebX::FinX { val } => {
                        if val > (*cap as u64) {
                            PState::RejectP
                        } else {
                            rep_fill_x(elem, val as usize, Vec::new())
                        }
                    },
                    ULebX::BadX => PState::RejectP,
                },
                LenSrc::Exact(n) => PState::RejectP,
            },
            PState::RepP { todo, done, cur } => {
                if todo == 0 {
                    PState::RejectP
                } else {
                    let sub2 = pstep(elem, *cur, b);
                    match sub2 {
                        PState::DoneP(v) => {
                            proof {
                                crate::schema::lemma_vals_view_push(done@, v);
                            }
                            let mut done2 = done;
                            done2.push(v);
                            rep_fill_x(elem, todo - 1, done2)
                        },
                        PState::RejectP => PState::RejectP,
                        _ => PState::RepP { todo, done, cur: Box::new(sub2) },
                    }
                }
            },
            _ => PState::RejectP,
        },
        Schema::Variant { branches } => match st {
            PState::VarTagP { got, acc } => match uleb_step_x(got, acc, b) {
                ULebX::MoreX { got, acc } => PState::VarTagP { got, acc },
                ULebX::FinX { val } => {
                    if val > 0xffff_ffffu64 || val >= (branches.len() as u64) {
                        PState::RejectP
                    } else {
                        let ist = init_state(&branches[val as usize]);
                        match ist {
                            PState::DoneP(v) => PState::DoneP(
                                Value::Tagged(val as u32, Box::new(v)),
                            ),
                            PState::RejectP => PState::RejectP,
                            _ => PState::VarP { tag: val as u32, cur: Box::new(ist) },
                        }
                    }
                },
                ULebX::BadX => PState::RejectP,
            },
            PState::VarP { tag, cur } => {
                if (tag as usize) < branches.len() {
                    let sub2 = pstep(&branches[tag as usize], *cur, b);
                    match sub2 {
                        PState::DoneP(v) => PState::DoneP(Value::Tagged(tag, Box::new(v))),
                        PState::RejectP => PState::RejectP,
                        _ => PState::VarP { tag, cur: Box::new(sub2) },
                    }
                } else {
                    PState::RejectP
                }
            },
            _ => PState::RejectP,
        },
        Schema::Observe { inner } => match st {
            PState::ObserveP { seen, cur } => {
                let mut seen2 = seen;
                seen2.push(b);
                let sub2 = pstep(inner, *cur, b);
                match sub2 {
                    PState::DoneP(v) => PState::DoneP(obs_done(seen2, v)),
                    PState::RejectP => PState::RejectP,
                    _ => PState::ObserveP { seen: seen2, cur: Box::new(sub2) },
                }
            },
            _ => PState::RejectP,
        },
    }
}

/// Whether the parse can advance: the chunk has bytes left and the
/// state is not terminal.
fn can_advance(cursor: &crate::cursor::Cursor<'_>, st: &PState) -> (r: bool)
    requires
        cursor.wf(),
    ensures
        r == (cursor.remaining_view().len() > 0 && !st@.is_halt()),
{
    cursor.remaining_in_chunk() > 0 && !st.is_halted()
}

/// Feed one chunk to a suspended parse: bytes are consumed in order
/// until the parse halts or the chunk is exhausted. Returns the new
/// state and how many bytes were consumed.
pub fn feed(sch: &Schema, st: PState, chunk: &[u8]) -> (r: (PState, usize))
    ensures
        r.0@ == gfeed(*sch, st@, chunk@).0,
        r.1 as nat == gfeed(*sch, st@, chunk@).1,
        r.1 <= chunk@.len(),
{
    let ghost st0 = st@;
    proof {
        vstd::slice::axiom_spec_len(chunk);
    }
    let mut cursor = crate::cursor::Cursor::new(chunk);
    let mut cur = st;
    let mut n: usize = 0;
    while can_advance(&cursor, &cur)
        invariant
            cursor.wf(),
            n == cursor.taken_view().len(),
            n <= chunk@.len() <= usize::MAX,
            chunk@ == cursor.taken_view() + cursor.remaining_view(),
            gfeed(*sch, st0, chunk@) == {
                let (s, c) = gfeed(*sch, cur@, cursor.remaining_view());
                (s, (c + n) as nat)
            },
        decreases cursor.remaining_view().len(),
    {
        let ghost rest = cursor.remaining_view();
        let ghost taken = cursor.taken_view();
        match cursor.next_byte() {
            Some(b) => {
                proof {
                    assert(rest[0] == b);
                    assert(cursor.remaining_view() =~= rest.subrange(1, rest.len() as int));
                    assert(cursor.taken_view() + cursor.remaining_view() =~= taken + rest);
                }
                cur = pstep(sch, cur, b);
                n = n + 1;
            },
            None => {
                proof {
                    assert(false);
                }
            },
        }
    }
    proof {
        assert(chunk@ =~= Seq::<u8>::empty() + chunk@);
    }
    (cur, n)
}

} // verus!
