//! The dispatcher end to end: command routing, the address and
//! signing flows, the single-operation discipline, and reset on
//! failure.
use sui::dispatch::{Action, Core, Event, Outcome};
use sui::interface::Status;

fn cmd(core: &mut Core, settings: u8, ins: u8, data: &[u8]) -> Outcome {
    core.handle_command(settings, 0, ins, 0, 0, data)
}

fn expect_act(o: Outcome) -> Action {
    match o {
        Outcome::Act(a) => a,
        Outcome::Reply(_) => panic!("expected an action, got a reply"),
        Outcome::Pending => panic!("expected an action, got pending"),
        Outcome::Fail(s) => panic!("expected an action, got failure {:?}", s),
    }
}

fn expect_reply(o: Outcome) -> Vec<u8> {
    match o {
        Outcome::Reply(p) => p,
        Outcome::Pending => panic!("expected a reply, got pending"),
        Outcome::Act(_) => panic!("expected a reply, got an action"),
        Outcome::Fail(s) => panic!("expected a reply, got failure {:?}", s),
    }
}

fn expect_fail(o: Outcome) -> Status {
    match o {
        Outcome::Fail(s) => s,
        _ => panic!("expected a failure"),
    }
}

fn expect_prompt(o: Outcome) -> (String, String) {
    match expect_act(o) {
        Action::ShowPrompt { title, body } => (title, body),
        _ => panic!("expected a prompt"),
    }
}

fn accept(core: &mut Core, settings: u8) -> Outcome {
    core.handle_event(settings, Event::Prompt(true))
}

/// A structured transaction: one coin split of `amount`, one transfer
/// of the split coin to `recipient`, the given gas budget.
fn structured_tx(recipient: &[u8; 32], amount: u64, budget: u64, transfers: usize) -> Vec<u8> {
    let mut tx: Vec<u8> = Vec::new();
    tx.extend_from_slice(&[0, 0, 0]); // intent
    tx.push(0); // transaction data version
    tx.push(0); // kind: programmable transaction
    // inputs: the recipient address and the amount, as plain bytes
    tx.push(2);
    tx.push(0); // pure
    tx.push(32);
    tx.extend_from_slice(recipient);
    tx.push(0); // pure
    tx.push(8);
    tx.extend_from_slice(&amount.to_le_bytes());
    // commands: one split, then the transfer(s)
    tx.push((1 + transfers) as u8);
    tx.push(1); // split coins
    tx.push(0); // coin: the gas coin
    tx.push(1); // one amount
    tx.push(1); // argument: input slot
    tx.extend_from_slice(&[1, 0]); // slot 1
    for _ in 0..transfers {
        tx.push(0); // transfer objects
        tx.push(1); // one object
        tx.push(0); // the gas coin
        tx.push(1); // recipient argument: input slot
        tx.extend_from_slice(&[0, 0]); // slot 0
    }
    // sender
    tx.extend_from_slice(&[0x11; 32]);
    // gas: no payment objects, owner, price, budget
    tx.push(0);
    tx.extend_from_slice(&[0x22; 32]);
    tx.extend_from_slice(&1u64.to_le_bytes());
    tx.extend_from_slice(&budget.to_le_bytes());
    // expiration: none
    tx.push(0);
    tx
}

/// The sign payload: length field, transaction bytes, then the path.
fn sign_payload(tx: &[u8], path: &[u8]) -> Vec<u8> {
    let mut data: Vec<u8> = Vec::new();
    data.extend_from_slice(&(tx.len() as u32).to_le_bytes());
    data.extend_from_slice(tx);
    data.extend_from_slice(path);
    data
}

#[test]
fn version_query_replies_exactly() {
    let mut core = Core::new();
    let payload = expect_reply(cmd(&mut core, 0, 0, &[]));
    assert_eq!(payload, vec![0u8, 1, 0, 115, 117, 105]);
}

#[test]
fn version_string_query_replies_exactly() {
    let mut core = Core::new();
    let payload = expect_reply(cmd(&mut core, 0, 0xfe, &[]));
    assert_eq!(payload, vec![115u8, 117, 105]);
}

#[test]
fn unknown_instruction_and_bad_header() {
    let mut core = Core::new();
    assert_eq!(expect_fail(cmd(&mut core, 0, 0x42, &[])), Status::UnrecognizedInstruction);
    let r = core.handle_command(0, 1, 0, 0, 0, &[]);
    assert_eq!(expect_fail(r), Status::UnrecognizedInstruction);
    let r = core.handle_command(0, 0, 2, 1, 0, &[1, 0, 0, 0, 0]);
    assert_eq!(expect_fail(r), Status::UnrecognizedInstruction);
}

#[test]
fn empty_payload_where_data_required() {
    let mut core = Core::new();
    assert_eq!(expect_fail(cmd(&mut core, 0, 2, &[])), Status::EmptyCommand);
}

#[test]
fn silent_address_for_zero_path() {
    // path [0], silently: the derived pair comes back length-prefixed
    let mut core = Core::new();
    let act = expect_act(cmd(&mut core, 0, 2, &[1, 0, 0, 0, 0]));
    match act {
        Action::DeriveKeys { path } => assert_eq!(path, vec![0u32]),
        _ => panic!("expected a key derivation"),
    }
    let pk = vec![0xAA; 32];
    let addr = vec![0xBB; 32];
    let reply = expect_reply(
        core.handle_event(0, Event::Keys(Some((pk.clone(), addr.clone())))),
    );
    let mut expected = vec![32u8];
    expected.extend_from_slice(&pk);
    expected.push(32);
    expected.extend_from_slice(&addr);
    assert_eq!(reply, expected);
}

#[test]
fn verified_address_walks_three_prompts() {
    let mut core = Core::new();
    let _ = expect_act(cmd(&mut core, 0, 1, &[1, 0, 0, 0, 0]));
    let o = core.handle_event(0, Event::Keys(Some((vec![0x0F; 33], vec![0xAB, 0xCD]))));
    let (title, body) = expect_prompt(o);
    assert_eq!(title, "Provide Public Key");
    assert_eq!(body, "");
    let (title, body) = expect_prompt(accept(&mut core, 0));
    assert_eq!(title, "Address");
    assert_eq!(body, "abcd");
    let (title, _) = expect_prompt(accept(&mut core, 0));
    assert_eq!(title, "Confirm");
    let reply = expect_reply(accept(&mut core, 0));
    assert_eq!(reply[0], 33);
    assert_eq!(reply[34], 2);
    assert_eq!(&reply[35..], &[0xAB, 0xCD]);
}

#[test]
fn declined_address_prompt_rejects_and_resets() {
    let mut core = Core::new();
    let _ = expect_act(cmd(&mut core, 0, 1, &[1, 0, 0, 0, 0]));
    let _ = core.handle_event(0, Event::Keys(Some((vec![1], vec![2]))));
    let s = expect_fail(core.handle_event(0, Event::Prompt(false)));
    assert_eq!(s, Status::Reject);
    // the slot is idle again: a fresh operation starts cleanly
    let _ = expect_act(cmd(&mut core, 0, 2, &[1, 0, 0, 0, 0]));
}

#[test]
fn derivation_failure_is_a_crypto_failure() {
    let mut core = Core::new();
    let _ = expect_act(cmd(&mut core, 0, 2, &[1, 0, 0, 0, 0]));
    let s = expect_fail(core.handle_event(0, Event::Keys(None)));
    assert_eq!(s, Status::CryptoFailure);
}

#[test]
fn path_over_cap_rejects() {
    let mut core = Core::new();
    let s = expect_fail(cmd(&mut core, 0, 2, &[11, 1, 0, 0, 0]));
    assert_eq!(s, Status::Reject);
}

#[test]
fn trailing_bytes_after_path_overrun() {
    let mut core = Core::new();
    let s = expect_fail(cmd(&mut core, 0, 2, &[1, 0, 0, 0, 0, 9]));
    assert_eq!(s, Status::ChunkOverrun);
}

#[test]
fn sign_suspends_until_every_declared_byte_arrived() {
    // length field says five bytes, but only four arrive at first:
    // the engine stays suspended, never rejecting early
    let mut core = Core::new();
    let o = cmd(&mut core, 1, 3, &[5, 0, 0, 0]);
    assert!(matches!(o, Outcome::Pending));
    let o = cmd(&mut core, 1, 3, &[1, 2, 3, 4]);
    assert!(matches!(o, Outcome::Pending));
    // the fifth byte and the path arrive; the bytes are no known
    // transaction, so the blind warning follows
    let o = cmd(&mut core, 1, 3, &[5, 1, 0, 0, 0, 0]);
    let (title, body) = expect_prompt(o);
    assert_eq!(title, "WARNING");
    assert_eq!(body, "Transaction not recognized");
}

#[test]
fn blind_signing_disabled_refuses() {
    let mut core = Core::new();
    let data = sign_payload(&[9, 9, 9], &[1, 0, 0, 0, 0]);
    let (title, body) = expect_prompt(cmd(&mut core, 0, 3, &data));
    assert_eq!(title, "WARNING");
    assert!(body.contains("enable blind signing"));
    let s = expect_fail(core.handle_event(0, Event::Prompt(true)));
    assert_eq!(s, Status::Reject);
}

#[test]
fn blind_signing_full_walk() {
    let mut core = Core::new();
    let tx = [7u8, 7, 7, 7];
    let data = sign_payload(&tx, &[1, 0, 0, 0, 0]);
    let (title, _) = expect_prompt(cmd(&mut core, 1, 3, &data));
    assert_eq!(title, "WARNING");
    let o = accept(&mut core, 1);
    match expect_act(o) {
        Action::ShowDigest { bytes } => assert_eq!(bytes, tx.to_vec()),
        _ => panic!("expected the digest display"),
    }
    let o = accept(&mut core, 1);
    match expect_act(o) {
        Action::DeriveKeys { path } => assert_eq!(path, vec![0u32]),
        _ => panic!("expected a key derivation"),
    }
    let o = core.handle_event(1, Event::Keys(Some((vec![0xAA; 32], vec![0x01, 0x02]))));
    let (title, body) = expect_prompt(o);
    assert_eq!(title, "Sign for Address");
    assert_eq!(body, "0102");
    let (title, _) = expect_prompt(accept(&mut core, 1));
    assert_eq!(title, "Blind Sign Transaction?");
    let o = accept(&mut core, 1);
    match expect_act(o) {
        Action::SignDigest { path, bytes } => {
            assert_eq!(path, vec![0u32]);
            assert_eq!(bytes, tx.to_vec());
        },
        _ => panic!("expected the signing request"),
    }
    let sig = vec![0x5A; 64];
    let reply = expect_reply(core.handle_event(1, Event::Signature(Some(sig.clone()))));
    assert_eq!(reply, sig);
}

#[test]
fn structured_transaction_full_walk() {
    let mut core = Core::new();
    let recipient = [0xC4u8; 32];
    let tx = structured_tx(&recipient, 1000, 2000, 1);
    let data = sign_payload(&tx, &[1, 0, 0, 0, 0]);
    let (title, body) = expect_prompt(cmd(&mut core, 0, 3, &data));
    assert_eq!(title, "Transfer");
    assert_eq!(body, "c4".repeat(32));
    let (title, body) = expect_prompt(accept(&mut core, 0));
    assert_eq!(title, "Amount");
    assert_eq!(body, "1000");
    let (title, body) = expect_prompt(accept(&mut core, 0));
    assert_eq!(title, "Gas Budget");
    assert_eq!(body, "2000");
    let (title, _) = expect_prompt(accept(&mut core, 0));
    assert_eq!(title, "Sign Transaction?");
    let o = accept(&mut core, 0);
    match expect_act(o) {
        Action::SignDigest { bytes, .. } => assert_eq!(bytes, tx),
        _ => panic!("expected the signing request"),
    }
    let reply = expect_reply(core.handle_event(0, Event::Signature(Some(vec![1, 2, 3]))));
    assert_eq!(reply, vec![1, 2, 3]);
}

#[test]
fn duplicated_recipient_rejects_semantically() {
    // two transfer commands both naming the recipient: a semantic
    // reject, whatever the blind-signing setting says
    for settings in [0u8, 1u8] {
        let mut core = Core::new();
        let tx = structured_tx(&[0xC4; 32], 1000, 2000, 2);
        let data = sign_payload(&tx, &[1, 0, 0, 0, 0]);
        let s = expect_fail(cmd(&mut core, settings, 3, &data));
        assert_eq!(s, Status::Reject);
    }
}

#[test]
fn declared_length_over_cap_is_a_hard_reject() {
    let mut core = Core::new();
    let s = expect_fail(cmd(&mut core, 1, 3, &[0xff, 0xff, 0, 0]));
    assert_eq!(s, Status::ChunkOverrun);
}

#[test]
fn second_operation_discards_the_first() {
    let mut core = Core::new();
    // first operation: a two-component path, one component short
    let o = cmd(&mut core, 0, 2, &[2, 1, 0, 0, 0]);
    assert!(matches!(o, Outcome::Pending));
    // an unrelated signing command arrives before it completes
    let o = cmd(&mut core, 0, 3, &[9, 9]);
    assert!(matches!(o, Outcome::Pending));
    // the bytes that would have completed the first operation now
    // start a fresh one instead of finishing the old parse
    let o = cmd(&mut core, 0, 2, &[2, 0, 0, 0]);
    assert!(matches!(o, Outcome::Pending));
    // and that fresh parse is genuinely fresh: one more component
    // completes it
    let o = cmd(&mut core, 0, 2, &[0, 7, 0, 0, 0]);
    match expect_act(o) {
        Action::DeriveKeys { path } => assert_eq!(path, vec![0u32, 7]),
        _ => panic!("expected a key derivation"),
    }
}

#[test]
fn reject_resets_and_version_still_answers() {
    let mut core = Core::new();
    let s = expect_fail(cmd(&mut core, 0, 2, &[11]));
    assert_eq!(s, Status::Reject);
    // an independent version exchange succeeds immediately
    let payload = expect_reply(cmd(&mut core, 0, 0, &[]));
    assert_eq!(payload, vec![0u8, 1, 0, 115, 117, 105]);
    // and the slot really is idle: a fresh operation parses cleanly
    let o = cmd(&mut core, 0, 2, &[1, 1, 0, 0, 0]);
    assert!(matches!(o, Outcome::Act(Action::DeriveKeys { .. })));
}

#[test]
fn cancel_discards_the_operation() {
    let mut core = Core::new();
    let o = cmd(&mut core, 0, 2, &[2, 1, 0, 0, 0]);
    assert!(matches!(o, Outcome::Pending));
    core.cancel();
    // the next chunk is no continuation: it starts a fresh parse
    let o = cmd(&mut core, 0, 2, &[1, 5, 0, 0, 0]);
    match expect_act(o) {
        Action::DeriveKeys { path } => assert_eq!(path, vec![5u32]),
        _ => panic!("expected a key derivation"),
    }
}

#[test]
fn provide_pubkey_twice_in_a_row() {
    // the slot is reusable: two independent silent address queries,
    // each with its own path, each answered from a clean slot
    let mut core = Core::new();
    for (payload, want_path) in [
        (vec![1u8, 0, 0, 0, 0], vec![0u32]),
        (vec![2u8, 0, 0, 0, 0, 0, 1, 0, 0], vec![0u32, 256]),
    ] {
        let act = expect_act(cmd(&mut core, 0, 2, &payload));
        match act {
            Action::DeriveKeys { path } => assert_eq!(path, want_path),
            _ => panic!("expected a key derivation"),
        }
        let reply = expect_reply(
            core.handle_event(0, Event::Keys(Some((vec![0x0A; 4], vec![0x0B; 4])))),
        );
        assert_eq!(reply, vec![4, 0x0A, 0x0A, 0x0A, 0x0A, 4, 0x0B, 0x0B, 0x0B, 0x0B]);
    }
}

#[test]
fn sign_digest_input_is_chunking_independent() {
    // however the exchanges cut the payload, the bytes handed to the
    // signer are exactly the declared transaction bytes
    let recipient = [0x5Eu8; 32];
    let tx = structured_tx(&recipient, 42, 9, 1);
    let data = sign_payload(&tx, &[1, 0, 0, 0, 0]);
    for cut in [1usize, 3, 4, 5, data.len() - 1] {
        let mut core = Core::new();
        let o = cmd(&mut core, 0, 3, &data[..cut]);
        assert!(matches!(o, Outcome::Pending));
        let _ = expect_prompt(cmd(&mut core, 0, 3, &data[cut..]));
        let _ = expect_prompt(accept(&mut core, 0));
        let _ = expect_prompt(accept(&mut core, 0));
        let _ = expect_prompt(accept(&mut core, 0));
        match expect_act(accept(&mut core, 0)) {
            Action::SignDigest { bytes, .. } => assert_eq!(bytes, tx),
            _ => panic!("expected the signing request"),
        }
    }
}

#[test]
fn path_may_straddle_exchanges_after_the_transaction() {
    let mut core = Core::new();
    let tx = [1u8, 2, 3];
    let data = sign_payload(&tx, &[2, 7, 0, 0, 0]);
    // the second path component arrives in its own exchange
    let o = cmd(&mut core, 1, 3, &data);
    assert!(matches!(o, Outcome::Pending));
    let (title, _) = expect_prompt(cmd(&mut core, 1, 3, &[8, 0, 0, 0]));
    assert_eq!(title, "WARNING");
}

#[test]
fn version_query_leaves_the_operation_alone() {
    // an idle-path query between two chunks of a path parse does not
    // disturb the suspended operation
    let mut core = Core::new();
    let o = cmd(&mut core, 0, 2, &[1, 9, 0]);
    assert!(matches!(o, Outcome::Pending));
    let payload = expect_reply(cmd(&mut core, 0, 0, &[]));
    assert_eq!(payload, vec![0u8, 1, 0, 115, 117, 105]);
    let o = cmd(&mut core, 0, 2, &[0, 0]);
    match expect_act(o) {
        Action::DeriveKeys { path } => assert_eq!(path, vec![9u32]),
        _ => panic!("expected a key derivation"),
    }
}

#[test]
fn diagnostic_rejects_oversized_nested_count() {
    // the nested repetition of the diagnostic payload caps its count
    // at 24; a larger count rejects on the count byte
    let mut core = Core::new();
    let mut data: Vec<u8> = Vec::new();
    data.push(0x42);
    data.extend_from_slice(&[0x33; 32]);
    data.extend_from_slice(&[0, 0, 0, 0]); // both 16-bit fields
    data.extend_from_slice(&[0; 16]); // both 64-bit fields
    data.push(25); // counted byte array: count over cap
    let s = expect_fail(cmd(&mut core, 0, 4, &data));
    assert_eq!(s, Status::Reject);
}

#[test]
fn exit_is_an_action() {
    let mut core = Core::new();
    let o = cmd(&mut core, 0, 0xff, &[]);
    assert!(matches!(o, Outcome::Act(Action::Exit)));
}

#[test]
fn diagnostic_payload_exercises_every_parser() {
    let mut core = Core::new();
    let mut data: Vec<u8> = Vec::new();
    data.push(0x42); // single byte
    data.extend_from_slice(&[0x33; 32]); // fixed array
    data.extend_from_slice(&[0x12, 0x34]); // 16-bit big-endian
    data.extend_from_slice(&[0x34, 0x12]); // 16-bit little-endian
    data.extend_from_slice(&[1, 2, 3, 4, 5, 6, 7, 8]); // 64-bit big-endian
    data.extend_from_slice(&[8, 7, 6, 5, 4, 3, 2, 1]); // 64-bit little-endian
    data.push(3); // counted byte array
    data.extend_from_slice(&[0xAA, 0xBB, 0xCC]);
    data.push(2); // counted list of 32-bit pairs
    data.extend_from_slice(&[0, 0, 0, 1, 1, 0, 0, 0]);
    data.extend_from_slice(&[0, 0, 0, 2, 2, 0, 0, 0]);
    // feed it in two chunks to cross a combinator boundary mid-parse
    let cut = 17;
    let o = cmd(&mut core, 0, 4, &data[..cut]);
    assert!(matches!(o, Outcome::Pending));
    let (title, _) = expect_prompt(cmd(&mut core, 0, 4, &data[cut..]));
    assert_eq!(title, "Parse done");
    let reply = expect_reply(accept(&mut core, 0));
    assert_eq!(reply, Vec::<u8>::new());
}
