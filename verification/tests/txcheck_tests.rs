//! Semantic validation on hand-built decoded values: the unique
//! recipient rule, reference resolution, and overflow on aggregation.
use sui::schema::Value;
use sui::txcheck::validate_tx;

fn pure_input(bytes: &[u8]) -> Value {
    let ints: Vec<Value> = bytes.iter().map(|b| Value::Int(*b as u64)).collect();
    Value::Tagged(0, Box::new(Value::List(ints)))
}

fn input_arg(slot: u64) -> Value {
    Value::Tagged(1, Box::new(Value::Int(slot)))
}

fn gas_arg() -> Value {
    Value::Tagged(0, Box::new(Value::List(vec![])))
}

fn transfer_cmd(recipient_slot: u64) -> Value {
    Value::Tagged(
        0,
        Box::new(Value::List(vec![
            Value::List(vec![gas_arg()]),
            input_arg(recipient_slot),
        ])),
    )
}

fn split_cmd(amount_slots: &[u64]) -> Value {
    let amounts: Vec<Value> = amount_slots.iter().map(|s| input_arg(*s)).collect();
    Value::Tagged(1, Box::new(Value::List(vec![gas_arg(), Value::List(amounts)])))
}

fn tx_value(inputs: Vec<Value>, commands: Vec<Value>, budget: u64) -> Value {
    let kind = Value::Tagged(
        0,
        Box::new(Value::List(vec![Value::List(inputs), Value::List(commands)])),
    );
    let gas = Value::List(vec![
        Value::List(vec![]),
        Value::Bytes(vec![0x22; 32]),
        Value::Int(1),
        Value::Int(budget),
    ]);
    let body = Value::List(vec![kind, Value::Bytes(vec![0x11; 32]), gas, Value::Tagged(
        0,
        Box::new(Value::List(vec![])),
    )]);
    Value::List(vec![Value::Int(0), Value::Int(0), Value::Int(0), Value::Tagged(
        0,
        Box::new(body),
    )])
}

fn amount_bytes(n: u64) -> Vec<u8> {
    n.to_le_bytes().to_vec()
}

#[test]
fn valid_transfer_summarizes() {
    let inputs = vec![pure_input(&[0xC4; 32]), pure_input(&amount_bytes(1500))];
    let cmds = vec![split_cmd(&[1]), transfer_cmd(0)];
    let s = validate_tx(&tx_value(inputs, cmds, 4242)).expect("valid transaction");
    assert_eq!(s.recipient, vec![0xC4; 32]);
    assert_eq!(s.total_amount, 1500);
    assert_eq!(s.gas_budget, 4242);
}

#[test]
fn amounts_aggregate_over_repeated_splits() {
    let inputs = vec![
        pure_input(&[0xC4; 32]),
        pure_input(&amount_bytes(100)),
        pure_input(&amount_bytes(23)),
    ];
    let cmds = vec![split_cmd(&[1, 2]), split_cmd(&[2]), transfer_cmd(0)];
    let s = validate_tx(&tx_value(inputs, cmds, 1)).expect("valid transaction");
    assert_eq!(s.total_amount, 146);
}

#[test]
fn duplicate_recipient_rejects() {
    let inputs = vec![pure_input(&[0xC4; 32]), pure_input(&amount_bytes(5))];
    let cmds = vec![transfer_cmd(0), split_cmd(&[1]), transfer_cmd(0)];
    assert_eq!(validate_tx(&tx_value(inputs, cmds, 1)), None);
}

#[test]
fn absent_recipient_rejects() {
    let inputs = vec![pure_input(&amount_bytes(5))];
    let cmds = vec![split_cmd(&[0])];
    assert_eq!(validate_tx(&tx_value(inputs, cmds, 1)), None);
}

#[test]
fn overflowing_total_rejects() {
    let inputs = vec![
        pure_input(&[0xC4; 32]),
        pure_input(&amount_bytes(u64::MAX)),
        pure_input(&amount_bytes(1)),
    ];
    let cmds = vec![split_cmd(&[1]), split_cmd(&[2]), transfer_cmd(0)];
    assert_eq!(validate_tx(&tx_value(inputs, cmds, 1)), None);
}

#[test]
fn dangling_input_reference_rejects() {
    let inputs = vec![pure_input(&[0xC4; 32])];
    let cmds = vec![transfer_cmd(7)];
    assert_eq!(validate_tx(&tx_value(inputs, cmds, 1)), None);
}

#[test]
fn recipient_must_be_an_address_sized_input() {
    // a recipient argument pointing at an 8-byte input is no address
    let inputs = vec![pure_input(&amount_bytes(5))];
    let cmds = vec![transfer_cmd(0)];
    assert_eq!(validate_tx(&tx_value(inputs, cmds, 1)), None);
}

#[test]
fn amount_must_be_eight_bytes() {
    let inputs = vec![pure_input(&[0xC4; 32]), pure_input(&[1, 2, 3])];
    let cmds = vec![split_cmd(&[1]), transfer_cmd(0)];
    assert_eq!(validate_tx(&tx_value(inputs, cmds, 1)), None);
}

#[test]
fn malformed_top_value_rejects() {
    assert_eq!(validate_tx(&Value::Int(3)), None);
    assert_eq!(validate_tx(&Value::List(vec![])), None);
}
