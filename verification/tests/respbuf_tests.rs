//! The response buffer: length-prefixed assembly in the fixed-capacity
//! vector, including its failure cases.
use sui::respbuf::address_response;
use sui::utils::{mkfn, mkmvfn};

#[test]
fn address_response_layout() {
    let pk = vec![1u8, 2, 3];
    let addr = vec![9u8, 8];
    let out = address_response(&pk, &addr).expect("fits");
    assert_eq!(out, vec![3, 1, 2, 3, 2, 9, 8]);
}

#[test]
fn address_response_empty_parts() {
    let out = address_response(&vec![], &vec![]).expect("fits");
    assert_eq!(out, vec![0, 0]);
}

#[test]
fn address_response_largest_fit() {
    let pk = vec![0xAAu8; 255];
    let addr = vec![0xBBu8; 3];
    let out = address_response(&pk, &addr).expect("fits");
    assert_eq!(out.len(), 260);
    assert_eq!(out[0], 255);
    assert_eq!(out[256], 3);
}

#[test]
fn address_response_too_long_fails_whole() {
    assert!(address_response(&vec![0u8; 256], &vec![]).is_none());
    assert!(address_response(&vec![0u8; 255], &vec![0u8; 4]).is_none());
}

#[test]
fn type_ascription_helpers_are_identities() {
    assert_eq!(mkfn(7u32), 7);
    assert_eq!(mkmvfn("abc"), "abc");
}
