//! The parser engine on concrete inputs: primitives, combinators,
//! chunk invariance, bounded repetition, and the digest accumulator.
use sui::engine::{feed, init_state, PState};
use sui::payload::{path_schema, tx_body_schema};
use sui::schema::{LenSrc, Schema, Value};

fn run_all(sch: &Schema, bytes: &[u8]) -> (PState, usize) {
    feed(sch, init_state(sch), bytes)
}

fn done_value(st: PState) -> Value {
    match st {
        PState::DoneP(v) => v,
        other => panic!("parse not done: {:?}", matches!(other, PState::RejectP)),
    }
}

#[test]
fn uint_little_endian() {
    let sch = Schema::UInt { width: 4, little: true };
    let (st, used) = run_all(&sch, &[0x78, 0x56, 0x34, 0x12]);
    assert_eq!(used, 4);
    assert_eq!(done_value(st), Value::Int(0x12345678));
}

#[test]
fn uint_big_endian() {
    let sch = Schema::UInt { width: 2, little: false };
    let (st, _) = run_all(&sch, &[0xab, 0xcd]);
    assert_eq!(done_value(st), Value::Int(0xabcd));
}

#[test]
fn uint_eight_bytes_both_orders() {
    let be = Schema::UInt { width: 8, little: false };
    let (st, _) = run_all(&be, &[1, 2, 3, 4, 5, 6, 7, 8]);
    assert_eq!(done_value(st), Value::Int(0x0102030405060708));
    let le = Schema::UInt { width: 8, little: true };
    let (st, _) = run_all(&le, &[1, 2, 3, 4, 5, 6, 7, 8]);
    assert_eq!(done_value(st), Value::Int(0x0807060504030201));
}

#[test]
fn fixed_bytes_kept_verbatim() {
    let sch = Schema::Bytes { n: 3 };
    let (st, _) = run_all(&sch, &[9, 8, 7]);
    assert_eq!(done_value(st), Value::Bytes(vec![9, 8, 7]));
}

#[test]
fn skip_discards() {
    let sch = Schema::Skip { n: 2 };
    let (st, used) = run_all(&sch, &[1, 2]);
    assert_eq!(used, 2);
    assert_eq!(done_value(st), Value::Unit);
}

#[test]
fn uleb_single_byte() {
    let (st, _) = run_all(&Schema::ULeb, &[0x05]);
    assert_eq!(done_value(st), Value::Int(5));
}

#[test]
fn uleb_multi_byte() {
    // 0x96 0x01 = 150
    let (st, _) = run_all(&Schema::ULeb, &[0x96, 0x01]);
    assert_eq!(done_value(st), Value::Int(150));
    // largest 32-bit value
    let (st, _) = run_all(&Schema::ULeb, &[0xff, 0xff, 0xff, 0xff, 0x0f]);
    assert_eq!(done_value(st), Value::Int(0xffff_ffff));
}

#[test]
fn uleb_overlong_rejects() {
    // a fifth group carrying more than four bits exceeds 32 bits
    let (st, _) = run_all(&Schema::ULeb, &[0xff, 0xff, 0xff, 0xff, 0x10]);
    assert!(matches!(st, PState::RejectP));
    // a sixth group is always overlong
    let (st, _) = run_all(&Schema::ULeb, &[0x80, 0x80, 0x80, 0x80, 0x80, 0x01]);
    assert!(matches!(st, PState::RejectP));
}

#[test]
fn tuple_in_declared_order() {
    let sch = Schema::Tuple {
        subs: vec![
            Schema::UInt { width: 1, little: true },
            Schema::UInt { width: 2, little: false },
        ],
    };
    let (st, used) = run_all(&sch, &[7, 0x01, 0x02]);
    assert_eq!(used, 3);
    assert_eq!(done_value(st), Value::List(vec![Value::Int(7), Value::Int(0x0102)]));
}

#[test]
fn rep_counted_by_byte() {
    let sch = path_schema();
    // two little-endian 32-bit components
    let (st, used) = run_all(&sch, &[2, 1, 0, 0, 0, 2, 0, 0, 0]);
    assert_eq!(used, 9);
    assert_eq!(done_value(st), Value::List(vec![Value::Int(1), Value::Int(2)]));
}

#[test]
fn rep_count_over_cap_rejects_immediately() {
    // the path cap is 10; a count of 11 must reject on the count byte
    // itself, before any element byte is consumed
    let sch = path_schema();
    let (st, used) = feed(&sch, init_state(&sch), &[11, 1, 0, 0, 0]);
    assert!(matches!(st, PState::RejectP));
    assert_eq!(used, 1);
}

#[test]
fn rep_zero_count_is_empty() {
    let sch = path_schema();
    let (st, used) = run_all(&sch, &[0]);
    assert_eq!(used, 1);
    assert_eq!(done_value(st), Value::List(vec![]));
}

#[test]
fn variant_selects_branch() {
    let sch = Schema::Variant {
        branches: vec![
            Schema::UInt { width: 1, little: true },
            Schema::UInt { width: 2, little: true },
        ],
    };
    let (st, _) = run_all(&sch, &[1, 0x34, 0x12]);
    assert_eq!(done_value(st), Value::Tagged(1, Box::new(Value::Int(0x1234))));
}

#[test]
fn variant_unknown_tag_rejects() {
    let sch = Schema::Variant { branches: vec![Schema::UInt { width: 1, little: true }] };
    let (st, _) = run_all(&sch, &[2, 0]);
    assert!(matches!(st, PState::RejectP));
}

#[test]
fn observe_records_every_byte_once() {
    let sch = tx_body_schema(4);
    let (st, used) = run_all(&sch, &[0xde, 0xad, 0xbe, 0xef]);
    assert_eq!(used, 4);
    assert_eq!(
        done_value(st),
        Value::List(vec![Value::Bytes(vec![0xde, 0xad, 0xbe, 0xef]), Value::Unit])
    );
}

#[test]
fn chunk_invariance_on_a_path() {
    // every split of the same bytes yields the same decoded value
    let bytes: Vec<u8> = vec![3, 1, 0, 0, 0, 2, 0, 0, 0, 3, 0, 0, 0];
    let sch = path_schema();
    let (whole, _) = run_all(&sch, &bytes);
    let expected = done_value(whole);
    for cut1 in 1..bytes.len() {
        for cut2 in cut1..bytes.len() {
            let mut st = init_state(&sch);
            let (a, b, c) = (&bytes[..cut1], &bytes[cut1..cut2], &bytes[cut2..]);
            let r1 = feed(&sch, st, a);
            st = r1.0;
            assert_eq!(r1.1, a.len());
            let r2 = feed(&sch, st, b);
            st = r2.0;
            assert_eq!(r2.1, b.len());
            let r3 = feed(&sch, st, c);
            assert_eq!(done_value(r3.0), expected);
        }
    }
}

#[test]
fn digest_input_deterministic_across_chunking() {
    // the recorded digest input for a fixed body is a fixed, known
    // byte sequence, however the body is chunked
    let bytes: Vec<u8> = vec![10, 20, 30, 40, 50];
    let sch = tx_body_schema(5);
    let expected = Value::List(vec![Value::Bytes(bytes.clone()), Value::Unit]);
    for cut in 1..bytes.len() {
        let st = init_state(&sch);
        let (st, used) = feed(&sch, st, &bytes[..cut]);
        assert_eq!(used, cut);
        let (st, _) = feed(&sch, st, &bytes[cut..]);
        assert_eq!(done_value(st), expected);
    }
}

#[test]
fn rep_exact_count_from_caller() {
    let sch = Schema::Rep {
        len: LenSrc::Exact(3),
        elem: Box::new(Schema::UInt { width: 1, little: true }),
        cap: 4,
    };
    let (st, _) = run_all(&sch, &[5, 6, 7]);
    assert_eq!(
        done_value(st),
        Value::List(vec![Value::Int(5), Value::Int(6), Value::Int(7)])
    );
}

#[test]
fn rep_exact_count_over_cap_rejects_without_input() {
    let sch = Schema::Rep {
        len: LenSrc::Exact(5),
        elem: Box::new(Schema::UInt { width: 1, little: true }),
        cap: 4,
    };
    assert!(matches!(init_state(&sch), PState::RejectP));
}

#[test]
fn uleb_counted_rep() {
    let sch = Schema::Rep {
        len: LenSrc::ULeb,
        elem: Box::new(Schema::UInt { width: 1, little: true }),
        cap: 8,
    };
    let (st, _) = run_all(&sch, &[2, 0xaa, 0xbb]);
    assert_eq!(done_value(st), Value::List(vec![Value::Int(0xaa), Value::Int(0xbb)]));
    let (st, used) = run_all(&sch, &[9]);
    assert!(matches!(st, PState::RejectP));
    assert_eq!(used, 1);
}
