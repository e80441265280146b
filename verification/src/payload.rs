//! The concrete wire encodings the commands use, and the extraction of
//! typed data from decoded values.
use vstd::prelude::*;

use crate::engine::obs_value;
use crate::schema::{GValue, LenSrc, Schema, Value};

verus! {

broadcast use vstd::std_specs::vec::group_vec_axioms;

/// A key-derivation path holds at most this many components.
pub const PATH_CAP: usize = 10;

/// A transaction may hold at most this many bytes; longer length
/// claims are a hard reject before any transaction byte is read.
pub const TX_CAP: usize = 4096;

/// Key-derivation path encoding: a count byte, then that many 32-bit
/// little-endian components.
pub open spec fn spec_path_schema() -> Schema {
    Schema::Rep {
        len: LenSrc::Byte,
        elem: Box::new(Schema::UInt { width: 4, little: true }),
        cap: PATH_CAP,
    }
}

/// Key-derivation path encoding (see `spec_path_schema`).
pub fn path_schema() -> (r: Schema)
    ensures
        r == spec_path_schema(),
{
    Schema::Rep {
        len: LenSrc::Byte,
        elem: Box::new(Schema::UInt { width: 4, little: true }),
        cap: PATH_CAP,
    }
}

/// The signing payload's leading length field: 32-bit little-endian.
pub open spec fn spec_len_schema() -> Schema {
    Schema::UInt { width: 4, little: true }
}

/// The signing payload's leading length field (see `spec_len_schema`).
pub fn len_schema() -> (r: Schema)
    ensures
        r == spec_len_schema(),
{
    Schema::UInt { width: 4, little: true }
}

/// The transaction body: exactly `n` raw bytes, every one fed to the
/// digest, none kept as a value beyond the observation itself.
pub open spec fn spec_tx_body_schema(n: usize) -> Schema {
    Schema::Observe { inner: Box::new(Schema::Skip { n }) }
}

/// The transaction body (see `spec_tx_body_schema`).
pub fn tx_body_schema(n: usize) -> (r: Schema)
    ensures
        r == spec_tx_body_schema(n),
{
    Schema::Observe { inner: Box::new(Schema::Skip { n }) }
}

/// The path components, if the value is a list of 32-bit integers.
pub open spec fn spec_path_of(v: GValue) -> Option<Seq<u32>> {
    match v {
        GValue::List(vs) => spec_ints_of(vs),
        _ => None,
    }
}

/// The 32-bit integers of a value list, if that is what it holds.
pub open spec fn spec_ints_of(vs: Seq<GValue>) -> Option<Seq<u32>>
    decreases vs.len(),
{
    if vs.len() == 0 {
        Some(Seq::empty())
    } else {
        match spec_ints_of(vs.drop_last()) {
            Some(front) => match vs.last() {
                GValue::Int(n) => {
                    if n <= u32::MAX {
                        Some(front.push(n as u32))
                    } else {
                        None
                    }
                },
                _ => None,
            },
            None => None,
        }
    }
}

/// If any element of the list is not a 32-bit integer, the whole list
/// has no path reading.
pub proof fn lemma_ints_of_bad(vs: Seq<GValue>, j: int)
    requires
        0 <= j < vs.len(),
        !(vs[j] matches GValue::Int(n) && n <= u32::MAX),
    ensures
        spec_ints_of(vs) is None,
    decreases vs.len(),
{
    if j == vs.len() - 1 {
    } else {
        lemma_ints_of_bad(vs.drop_last(), j);
    }
}

/// Extract a derivation path from a decoded value, exactly when the
/// value is a list of 32-bit integers.
#[verifier::loop_isolation(false)]
pub fn extract_path(v: &Value) -> (r: Option<Vec<u32>>)
    ensures
        match r {
            Some(path) => spec_path_of(v@) == Some(path@),
            None => spec_path_of(v@) is None,
        },
{
    match v {
        Value::List(items) => {
            proof {
                assert(v@ == GValue::List(crate::schema::vals_view(items@)));
                crate::schema::lemma_vals_view_index(items@);
            }
            let mut out: Vec<u32> = Vec::new();
            let mut i: usize = 0;
            proof {
                assert(crate::schema::vals_view(items@).subrange(0, 0) =~= Seq::<GValue>::empty());
                assert(out@ =~= Seq::<u32>::empty());
            }
            while i < items.len()
                invariant
                    i <= items@.len(),
                    crate::schema::vals_view(items@).len() == items@.len(),
                    forall|j: int|
                        0 <= j < items@.len() ==> crate::schema::vals_view(items@)[j]
                            == #[trigger] items@[j]@,
                    spec_ints_of(crate::schema::vals_view(items@).subrange(0, i as int)) == Some(
                        out@,
                    ),
                decreases items@.len() - i,
            {
                let ghost pre = crate::schema::vals_view(items@).subrange(0, i as int);
                let ghost now = crate::schema::vals_view(items@).subrange(0, i as int + 1);
                proof {
                    assert(now.drop_last() =~= pre);
                    assert(now.last() == items@[i as int]@);
                }
                match &items[i] {
                    Value::Int(n) => {
                        if *n <= 0xffff_ffffu64 {
                            out.push(*n as u32);
                        } else {
                            proof {
                                assert(crate::schema::vals_view(items@)[i as int] == items@[
                                    i as int
                                ]@);
                                lemma_ints_of_bad(crate::schema::vals_view(items@), i as int);
                                assert(spec_ints_of(crate::schema::vals_view(items@)) is None);
                                assert(v@ == GValue::List(crate::schema::vals_view(items@)));
                                assert(spec_path_of(v@) is None);
                            }
                            return None;
                        }
                    },
                    _ => {
                        proof {
                            assert(crate::schema::vals_view(items@)[i as int] == items@[
                                i as int
                            ]@);
                            lemma_ints_of_bad(crate::schema::vals_view(items@), i as int);
                            assert(spec_ints_of(crate::schema::vals_view(items@)) is None);
                            assert(v@ == GValue::List(crate::schema::vals_view(items@)));
                            assert(spec_path_of(v@) is None);
                        }
                        return None;
                    },
                }
                i = i + 1;
            }
            proof {
                assert(crate::schema::vals_view(items@).subrange(
                    0,
                    items@.len() as int,
                ) =~= crate::schema::vals_view(items@));
            }
            Some(out)
        },
        _ => None,
    }
}

/// The bytes an observation saw, paired with nothing else of interest.
pub open spec fn spec_observed_of(v: GValue) -> Option<Seq<u8>> {
    match v {
        GValue::List(vs) => {
            if vs.len() == 2 {
                match vs[0] {
                    GValue::Bytes(bs) => Some(bs),
                    _ => None,
                }
            } else {
                None
            }
        },
        _ => None,
    }
}

/// Extract the observed bytes from a completed observation value.
#[verifier::loop_isolation(false)]
pub fn extract_observed(v: &Value) -> (r: Option<Vec<u8>>)
    ensures
        match r {
            Some(bs) => spec_observed_of(v@) == Some(bs@),
            None => spec_observed_of(v@) is None,
        },
{
    match v {
        Value::List(items) => {
            proof {
                crate::schema::lemma_vals_view_index(items@);
            }
            if items.len() != 2 {
                proof {
                    assert(spec_observed_of(v@) is None);
                }
                return None;
            }
            match &items[0] {
                Value::Bytes(bs) => {
                    let mut out: Vec<u8> = Vec::new();
                    let mut i: usize = 0;
                    proof {
                        assert(out@ =~= bs@.subrange(0, 0));
                    }
                    while i < bs.len()
                        invariant
                            i <= bs@.len(),
                            out@ == bs@.subrange(0, i as int),
                        decreases bs@.len() - i,
                    {
                        out.push(bs[i]);
                        proof {
                            assert(out@ =~= bs@.subrange(0, i as int + 1));
                        }
                        i = i + 1;
                    }
                    proof {
                        assert(bs@.subrange(0, bs@.len() as int) =~= bs@);
                        assert(out@ == bs@);
                        assert(v@ == GValue::List(crate::schema::vals_view(items@)));
                        assert(crate::schema::vals_view(items@)[0] == items@[0]@);
                        assert(spec_observed_of(v@) == Some(bs@));
                    }
                    Some(out)
                },
                _ => {
                    proof {
                        assert(crate::schema::vals_view(items@)[0] == items@[0]@);
                        assert(spec_observed_of(v@) is None);
                    }
                    None
                },
            }
        },
        _ => None,
    }
}

/// The four little-endian bytes of a 32-bit path component.
pub open spec fn u32_le_bytes(x: u32) -> Seq<u8> {
    seq![
        (x & 0xff) as u8,
        ((x >> 8u32) & 0xff) as u8,
        ((x >> 16u32) & 0xff) as u8,
        ((x >> 24u32) & 0xff) as u8,
    ]
}

/// The wire encoding of a derivation path: a count byte, then each
/// component as four little-endian bytes.
pub open spec fn encode_path(ps: Seq<u32>) -> Seq<u8> {
    seq![ps.len() as u8] + encode_path_elems(ps)
}

/// The component bytes of a derivation path, in order.
pub open spec fn encode_path_elems(ps: Seq<u32>) -> Seq<u8>
    decreases ps.len(),
{
    if ps.len() == 0 {
        Seq::empty()
    } else {
        u32_le_bytes(ps[0]) + encode_path_elems(ps.subrange(1, ps.len() as int))
    }
}

/// The little-endian positional value of a component's four bytes is
/// the component.
pub proof fn lemma_u32_le_bytes_value(x: u32)
    ensures
        crate::engine::le_value(u32_le_bytes(x)) == x,
{
    let s = u32_le_bytes(x);
    let b0 = (x & 0xff) as u8;
    let b1 = ((x >> 8u32) & 0xff) as u8;
    let b2 = ((x >> 16u32) & 0xff) as u8;
    let b3 = ((x >> 24u32) & 0xff) as u8;
    assert((x & 0xff) < 256 && ((x >> 8u32) & 0xff) < 256 && ((x >> 16u32) & 0xff) < 256 && ((x
        >> 24u32) & 0xff) < 256) by (bit_vector);
    let t3 = seq![b3];
    let t2 = seq![b2, b3];
    let t1 = seq![b1, b2, b3];
    assert(s.subrange(1, 4) =~= t1);
    assert(t1.subrange(1, 3) =~= t2);
    assert(t2.subrange(1, 2) =~= t3);
    assert(t3.subrange(1, 1) =~= Seq::<u8>::empty());
    assert(crate::engine::le_value(Seq::<u8>::empty()) == 0);
    assert(crate::engine::le_value(t3) == b3);
    assert(crate::engine::le_value(t2) == b2 + 256 * (b3 as nat));
    assert(crate::engine::le_value(t1) == b1 + 256 * (b2 + 256 * (b3 as nat)));
    assert(crate::engine::le_value(s) == b0 + 256 * (b1 + 256 * (b2 + 256 * (b3 as nat))));
    assert((x & 0xff) + 256 * (((x >> 8u32) & 0xff) + 256 * (((x >> 16u32) & 0xff) + 256 * ((x
        >> 24u32) & 0xff))) == x) by (bit_vector);
}

/// The decoded values a path's components become.
pub open spec fn path_values(ps: Seq<u32>) -> Seq<GValue> {
    ps.map_values(|x: u32| GValue::Int(x as u64))
}

/// Parsing the encoded components from a repetition state that still
/// owes exactly those components finishes with their values appended.
proof fn lemma_path_elems_run(ps: Seq<u32>, done: Seq<GValue>)
    ensures
        crate::engine::grun(
            spec_path_schema(),
            crate::engine::rep_fill(
                Schema::UInt { width: 4, little: true },
                ps.len(),
                done,
            ),
            encode_path_elems(ps),
        ) == crate::engine::GState::DoneG(GValue::List(done + path_values(ps))),
    decreases ps.len(),
{
    let elem = Schema::UInt { width: 4, little: true };
    let sch = spec_path_schema();
    if ps.len() == 0 {
        assert(encode_path_elems(ps).len() == 0);
        assert(done + path_values(ps) =~= done);
    } else {
        let x = ps[0];
        let rest = ps.subrange(1, ps.len() as int);
        let first = u32_le_bytes(x);
        assert(crate::engine::rep_fill(elem, ps.len(), done)
            == (crate::engine::GState::RepG {
            todo: ps.len(),
            done,
            cur: Box::new(crate::engine::ginit(elem)),
        }));
        assert(forall|i: int|
            0 < i < first.len() ==> !(#[trigger] crate::engine::grun(
                elem,
                crate::engine::ginit(elem),
                first.subrange(0, i),
            )).is_halt()) by {
            assert forall|i: int|
                0 < i < first.len() implies !(#[trigger] crate::engine::grun(
                elem,
                crate::engine::ginit(elem),
                first.subrange(0, i),
            )).is_halt() by {
                crate::engine::lemma_uint_le_decode(4, first.subrange(0, i));
            }
        }
        crate::engine::lemma_rep_inner_run(
            LenSrc::Byte,
            elem,
            PATH_CAP,
            ps.len(),
            done,
            first,
        );
        crate::engine::lemma_uint_le_decode(4, first);
        lemma_u32_le_bytes_value(x);
        crate::engine::lemma_run_append(
            sch,
            crate::engine::rep_fill(elem, ps.len(), done),
            first,
            encode_path_elems(rest),
        );
        assert(first + encode_path_elems(rest) =~= encode_path_elems(ps));
        lemma_path_elems_run(rest, done.push(GValue::Int(x as u64)));
        assert(done.push(GValue::Int(x as u64)) + path_values(rest) =~= done + path_values(ps));
    }
}

/// Round trip: parsing the wire encoding of any derivation path that
/// fits the cap recovers exactly that path — the decoded value is the
/// list of the path's components, and nothing else.
pub proof fn lemma_path_roundtrip(ps: Seq<u32>)
    requires
        ps.len() <= PATH_CAP,
    ensures
        crate::engine::grun(
            spec_path_schema(),
            crate::engine::ginit(spec_path_schema()),
            encode_path(ps),
        ) == crate::engine::GState::DoneG(GValue::List(path_values(ps))),
        spec_path_of(GValue::List(path_values(ps))) == Some(ps),
    decreases ps.len(),
{
    let elem = Schema::UInt { width: 4, little: true };
    let sch = spec_path_schema();
    let enc = encode_path(ps);
    assert(enc[0] == ps.len() as u8);
    assert(enc.subrange(1, enc.len() as int) =~= encode_path_elems(ps));
    assert(crate::engine::gstep(sch, crate::engine::ginit(sch), enc[0])
        == crate::engine::rep_fill(elem, ps.len(), Seq::empty()));
    crate::engine::lemma_run_append(
        sch,
        crate::engine::ginit(sch),
        seq![enc[0]],
        encode_path_elems(ps),
    );
    assert(seq![enc[0]] + encode_path_elems(ps) =~= enc);
    assert(crate::engine::grun(sch, crate::engine::ginit(sch), seq![enc[0]])
        == crate::engine::gstep(sch, crate::engine::ginit(sch), enc[0])) by {
        assert(seq![enc[0]][0] == enc[0]);
        assert(seq![enc[0]].subrange(1, 1).len() == 0);
        assert(crate::engine::grun(
            sch,
            crate::engine::gstep(sch, crate::engine::ginit(sch), enc[0]),
            seq![enc[0]].subrange(1, 1),
        ) == crate::engine::gstep(sch, crate::engine::ginit(sch), enc[0]));
    }
    lemma_path_elems_run(ps, Seq::empty());
    assert(Seq::empty() + path_values(ps) =~= path_values(ps));
    lemma_ints_of_values(ps);
}

/// No proper prefix of the encoded components completes or fails the
/// repetition that still owes exactly those components.
proof fn lemma_path_elems_prefix(ps: Seq<u32>, done: Seq<GValue>, t: int)
    requires
        0 <= t < encode_path_elems(ps).len(),
    ensures
        !crate::engine::grun(
            spec_path_schema(),
            crate::engine::rep_fill(
                Schema::UInt { width: 4, little: true },
                ps.len(),
                done,
            ),
            encode_path_elems(ps).subrange(0, t),
        ).is_halt(),
    decreases ps.len(),
{
    let elem = Schema::UInt { width: 4, little: true };
    let sch = spec_path_schema();
    let enc = encode_path_elems(ps);
    assert(ps.len() >= 1);
    let first = u32_le_bytes(ps[0]);
    let rest = ps.subrange(1, ps.len() as int);
    assert(enc =~= first + encode_path_elems(rest));
    let st0 = crate::engine::rep_fill(elem, ps.len(), done);
    assert(st0 == (crate::engine::GState::RepG {
        todo: ps.len(),
        done,
        cur: Box::new(crate::engine::ginit(elem)),
    }));
    assert(forall|i: int|
        0 < i < 4 ==> !(#[trigger] crate::engine::grun(
            elem,
            crate::engine::ginit(elem),
            first.subrange(0, i),
        )).is_halt()) by {
        assert forall|i: int|
            0 < i < 4 implies !(#[trigger] crate::engine::grun(
            elem,
            crate::engine::ginit(elem),
            first.subrange(0, i),
        )).is_halt() by {
            crate::engine::lemma_uint_le_decode(4, first.subrange(0, i));
        }
    }
    if t < 4 {
        let p = enc.subrange(0, t);
        assert(p =~= first.subrange(0, t));
        assert forall|i: int|
            0 < i < p.len() implies !(#[trigger] crate::engine::grun(
            elem,
            crate::engine::ginit(elem),
            p.subrange(0, i),
        )).is_halt() by {
            assert(p.subrange(0, i) =~= first.subrange(0, i));
            crate::engine::lemma_uint_le_decode(4, first.subrange(0, i));
        }
        crate::engine::lemma_rep_inner_run(LenSrc::Byte, elem, PATH_CAP, ps.len(), done, p);
        crate::engine::lemma_uint_le_decode(4, first.subrange(0, t));
        if t > 0 {
            assert(first.subrange(0, t) =~= p);
        } else {
            assert(p =~= Seq::<u8>::empty());
        }
    } else {
        crate::engine::lemma_rep_inner_run(LenSrc::Byte, elem, PATH_CAP, ps.len(), done, first);
        crate::engine::lemma_uint_le_decode(4, first);
        let st1 = crate::engine::rep_fill(
            elem,
            (ps.len() - 1) as nat,
            done.push(GValue::Int(crate::engine::le_value(first) as u64)),
        );
        crate::engine::lemma_run_append(sch, st0, first, enc.subrange(0, t).subrange(4, t));
        assert(enc.subrange(0, t).subrange(0, 4) =~= first);
        assert(first + enc.subrange(0, t).subrange(4, t) =~= enc.subrange(0, t));
        assert(enc.subrange(0, t).subrange(4, t) =~= encode_path_elems(rest).subrange(0, t - 4));
        lemma_path_elems_prefix(rest, done.push(GValue::Int(crate::engine::le_value(first) as u64)), t - 4);
    }
}

/// No proper prefix of an encoded path completes or fails the path
/// parse: the parse suspends until the very last byte arrives.
pub proof fn lemma_path_enc_prefix(ps: Seq<u32>, j: int)
    requires
        ps.len() <= PATH_CAP,
        0 <= j < encode_path(ps).len(),
    ensures
        !crate::engine::grun(
            spec_path_schema(),
            crate::engine::ginit(spec_path_schema()),
            encode_path(ps).subrange(0, j),
        ).is_halt(),
{
    let elem = Schema::UInt { width: 4, little: true };
    let sch = spec_path_schema();
    let enc = encode_path(ps);
    if j == 0 {
        assert(enc.subrange(0, 0) =~= Seq::<u8>::empty());
    } else {
        assert(ps.len() >= 1) by {
            if ps.len() == 0 {
                assert(encode_path_elems(ps).len() == 0);
            }
        }
        assert(enc[0] == ps.len() as u8);
        assert(crate::engine::gstep(sch, crate::engine::ginit(sch), enc[0])
            == crate::engine::rep_fill(elem, ps.len(), Seq::empty()));
        let p = enc.subrange(0, j);
        assert(p[0] == enc[0]);
        crate::engine::lemma_run_append(
            sch,
            crate::engine::ginit(sch),
            seq![enc[0]],
            p.subrange(1, j),
        );
        assert(seq![enc[0]] + p.subrange(1, j) =~= p);
        assert(crate::engine::grun(sch, crate::engine::ginit(sch), seq![enc[0]])
            == crate::engine::gstep(sch, crate::engine::ginit(sch), enc[0])) by {
            assert(seq![enc[0]][0] == enc[0]);
            assert(seq![enc[0]].subrange(1, 1).len() == 0);
            assert(crate::engine::grun(
                sch,
                crate::engine::gstep(sch, crate::engine::ginit(sch), enc[0]),
                seq![enc[0]].subrange(1, 1),
            ) == crate::engine::gstep(sch, crate::engine::ginit(sch), enc[0]));
        }
        assert(p.subrange(1, j) =~= encode_path_elems(ps).subrange(0, j - 1));
        lemma_path_elems_prefix(ps, Seq::empty(), j - 1);
    }
}

/// Reading the integer list of a path's decoded values gives back the
/// path.
proof fn lemma_ints_of_values(ps: Seq<u32>)
    ensures
        spec_ints_of(path_values(ps)) == Some(ps),
    decreases ps.len(),
{
    if ps.len() == 0 {
        assert(path_values(ps) =~= Seq::<GValue>::empty());
        assert(Seq::<u32>::empty() =~= ps);
    } else {
        let front = ps.drop_last();
        lemma_ints_of_values(front);
        assert(path_values(ps).drop_last() =~= path_values(front));
        assert(path_values(ps).last() == GValue::Int(ps.last() as u64));
        assert(front.push(ps.last()) =~= ps);
    }
}

/// Every observed byte sequence the engine can produce for a body of
/// `n` bytes is exactly the bytes fed: the digest input is determined
/// by the transaction bytes alone, however they were chunked.
pub proof fn lemma_tx_body_digest(n: usize, bs: Seq<u8>)
    requires
        n > 0,
        bs.len() <= n,
    ensures
        crate::engine::grun(spec_tx_body_schema(n), crate::engine::ginit(spec_tx_body_schema(n)), bs)
            == if bs.len() < n {
            crate::engine::GState::ObserveG {
                seen: bs,
                cur: Box::new(crate::engine::GState::SkipG { got: bs.len() as nat }),
            }
        } else {
            crate::engine::GState::DoneG(obs_value(bs, GValue::Unit))
        },
    decreases bs.len(),
{
    reveal_with_fuel(crate::engine::gstep, 3);
    let sch = spec_tx_body_schema(n);
    if bs.len() == 0 {
        proof_init_tx_body(n);
        assert(bs =~= Seq::<u8>::empty());
    } else {
        let front = bs.drop_last();
        let last = bs.last();
        lemma_tx_body_digest(n, front);
        crate::engine::lemma_run_append(sch, crate::engine::ginit(sch), front, seq![last]);
        assert(front + seq![last] =~= bs);
        assert(front.push(last) =~= bs);
        let st1 = crate::engine::grun(sch, crate::engine::ginit(sch), front);
        let stepped = crate::engine::gstep(sch, st1, last);
        assert(seq![last][0] == last);
        assert(seq![last].subrange(1, 1).len() == 0);
        assert(crate::engine::grun(sch, st1, seq![last]) == crate::engine::grun(
            sch,
            stepped,
            seq![last].subrange(1, 1),
        ));
        if front.len() + 1 < n {
            assert(stepped == (crate::engine::GState::ObserveG {
                seen: bs,
                cur: Box::new(crate::engine::GState::SkipG { got: bs.len() as nat }),
            }));
        } else {
            assert(stepped == crate::engine::GState::DoneG(obs_value(bs, GValue::Unit)));
        }
    }
}

/// The initial state of a transaction body parse: nothing observed,
/// nothing skipped.
proof fn proof_init_tx_body(n: usize)
    requires
        n > 0,
    ensures
        crate::engine::ginit(spec_tx_body_schema(n)) == (crate::engine::GState::ObserveG {
            seen: Seq::<u8>::empty(),
            cur: Box::new(crate::engine::GState::SkipG { got: 0nat }),
        }),
{
    assert(crate::engine::ginit(Schema::Skip { n }) == (crate::engine::GState::SkipG {
        got: 0nat,
    }));
}

} // verus!
