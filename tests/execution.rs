use rustry::abi::{AbiEntry, AbiParam, EntryKind, Mutability};
use rustry::bindings::generate;
use rustry::contract::{encode_call, method_result, selector, CallError};
use rustry::provider::{classify, created_address, EngineOutcome, ExecRes, Provider};

// Counter: `increment()` adds one to slot 0, `number()` returns it.
const COUNTER: &str = "603480600b6000396000f360003560e01c8063d09de08a14601d57638381f58a1460285760008\
0fd5b600054600101600055005b60005460005260206000f3";
// Returns the word at call-data offset 4.
const ECHO_FIRST: &str = "600b80600b6000396000f360043560005260206000f3";
// Returns the word at call-data offset 36.
const ECHO_SECOND: &str = "600b80600b6000396000f360243560005260206000f3";
// Reverts during creation.
const REVERTS: &str = "60006000fd";

fn param(tag: &str) -> AbiParam {
    AbiParam { name: "x".to_string(), type_tag: tag.to_string() }
}

fn entry(name: &str, inputs: Vec<AbiParam>, outputs: Vec<AbiParam>, m: Mutability) -> AbiEntry {
    AbiEntry { name: name.to_string(), inputs, outputs, state_mutability: m, entry_type: EntryKind::Function }
}

fn counter_abi() -> Vec<AbiEntry> {
    vec![
        entry("increment", vec![], vec![], Mutability::NonPayable),
        entry("number", vec![], vec![param("uint256")], Mutability::View),
    ]
}

fn word(last: u8) -> Vec<u8> {
    let mut w = vec![0u8; 32];
    w[31] = last;
    w
}

fn address(b: u8) -> Vec<u8> {
    let mut a = vec![0u8; 20];
    a[19] = b;
    a
}

#[test]
fn selectors_come_from_the_digest() {
    assert_eq!(selector("increment()"), vec![0xd0, 0x9d, 0xe0, 0x8a]);
    assert_eq!(selector("number()"), vec![0x83, 0x81, 0xf5, 0x8a]);
    assert_eq!(selector("transfer(address,uint256)"), vec![0xa9, 0x05, 0x9c, 0xbb]);
}

#[test]
fn call_data_is_selector_then_words() {
    let sel = vec![1u8, 2, 3, 4];
    let data = encode_call(&sel, &vec![word(7), vec![0xff; 32]]);
    assert_eq!(data.len(), 68);
    assert_eq!(&data[..4], &[1, 2, 3, 4]);
    assert_eq!(&data[4..36], &word(7)[..]);
    assert_eq!(&data[36..], &[0xff; 32][..]);
    assert_eq!(encode_call(&sel, &vec![]), sel);
}

#[test]
fn counter_state_belongs_to_the_ledger() {
    let mut p = Provider::default();
    let c = generate(&counter_abi(), COUNTER).unwrap().deploy(&mut p).unwrap();
    assert_eq!(c.address.len(), 20);
    assert_eq!(c.invoke(&mut p, "number", &vec![]), Ok(Some(word(0))));
    assert_eq!(c.invoke(&mut p, "increment", &vec![]), Ok(None));
    assert_eq!(c.invoke(&mut p, "number", &vec![]), Ok(Some(word(1))));
    p.impersonate(address(2));
    assert_eq!(p.sender, address(2));
    assert_eq!(c.invoke(&mut p, "increment", &vec![]), Ok(None));
    assert_eq!(c.invoke(&mut p, "number", &vec![]), Ok(Some(word(2))));
}

#[test]
fn calls_do_not_commit() {
    let mut p = Provider::new();
    let c = generate(&counter_abi(), COUNTER).unwrap().deploy(&mut p).unwrap();
    let inc = selector("increment()");
    assert_eq!(p.call(&c.address, inc.clone()), ExecRes::Success(vec![]));
    assert_eq!(p.staticcall(&c.address, inc.clone()), ExecRes::Success(vec![]));
    assert_eq!(c.invoke(&mut p, "number", &vec![]), Ok(Some(word(0))));
    assert_eq!(p.send(&c.address, inc), ExecRes::Success(vec![]));
    assert_eq!(c.invoke(&mut p, "number", &vec![]), Ok(Some(word(1))));
}

#[test]
fn repeated_sends_succeed_and_deployments_get_fresh_addresses() {
    let mut p = Provider::new();
    let c = generate(&counter_abi(), COUNTER).unwrap().deploy(&mut p).unwrap();
    for _ in 0..3 {
        assert_eq!(c.invoke(&mut p, "increment", &vec![]), Ok(None));
    }
    assert_eq!(c.invoke(&mut p, "number", &vec![]), Ok(Some(word(3))));
    let d = generate(&counter_abi(), COUNTER).unwrap().deploy(&mut p).unwrap();
    assert_ne!(c.address, d.address);
    assert_eq!(d.invoke(&mut p, "number", &vec![]), Ok(Some(word(0))));
}

#[test]
fn reverting_creation_gives_no_address() {
    let mut p = Provider::new();
    assert_eq!(p.deploy(hex::decode(REVERTS).unwrap()), None);
    assert_eq!(p.deploy_with_value(hex::decode(REVERTS).unwrap(), 0), None);
}

#[test]
fn unknown_selector_reverts() {
    let mut p = Provider::new();
    let c = generate(&counter_abi(), COUNTER).unwrap().deploy(&mut p).unwrap();
    assert_eq!(p.send(&c.address, vec![0, 0, 0, 0]), ExecRes::Revert(vec![]));
}

#[test]
fn arguments_reach_the_engine_unchanged() {
    let mut p = Provider::new();
    let abi = vec![entry("first", vec![param("uint256")], vec![param("uint256")], Mutability::View)];
    let c = generate(&abi, ECHO_FIRST).unwrap().deploy(&mut p).unwrap();
    assert_eq!(c.invoke(&mut p, "first", &vec![word(0)]), Ok(Some(word(0))));
    assert_eq!(c.invoke(&mut p, "first", &vec![vec![0xff; 32]]), Ok(Some(vec![0xff; 32])));
    let abi = vec![entry("second", vec![param("uint256"), param("uint256")], vec![param("uint256")], Mutability::View)];
    let c = generate(&abi, ECHO_SECOND).unwrap().deploy(&mut p).unwrap();
    let mut mixed = vec![0u8; 32];
    mixed[0] = 0x80;
    mixed[31] = 0x01;
    assert_eq!(c.invoke(&mut p, "second", &vec![word(9), mixed.clone()]), Ok(Some(mixed)));
}

#[test]
fn invocation_errors() {
    let mut p = Provider::new();
    let c = generate(&counter_abi(), COUNTER).unwrap().deploy(&mut p).unwrap();
    assert_eq!(c.invoke(&mut p, "missing", &vec![]), Err(CallError::UnknownMethod));
    assert_eq!(c.invoke(&mut p, "number", &vec![word(1)]), Err(CallError::ArgumentCount));
    let abi = vec![entry("first", vec![param("uint256")], vec![param("uint256")], Mutability::View)];
    let e = generate(&abi, ECHO_FIRST).unwrap().deploy(&mut p).unwrap();
    assert_eq!(e.invoke(&mut p, "first", &vec![vec![1, 2]]), Err(CallError::BadArgument(0)));
    // a view with an output that returns nothing
    let abi = vec![entry("increment", vec![], vec![param("uint256")], Mutability::View)];
    let c2 = generate(&abi, COUNTER).unwrap().deploy(&mut p).unwrap();
    assert_eq!(c2.invoke(&mut p, "increment", &vec![]), Err(CallError::ShortReturn(vec![])));
}

#[test]
fn outcomes_are_classified() {
    let ok = EngineOutcome::Success { output: vec![1], created: None };
    assert_eq!(classify(ok), ExecRes::Success(vec![1]));
    assert_eq!(classify(EngineOutcome::Revert(vec![2])), ExecRes::Revert(vec![2]));
    assert_eq!(classify(EngineOutcome::Halt("OutOfGas".to_string())), ExecRes::Halt("OutOfGas".to_string()));
    assert_eq!(classify(EngineOutcome::Rejected("bad".to_string())), ExecRes::Halt("bad".to_string()));
    let made = EngineOutcome::Success { output: vec![], created: Some(address(5)) };
    assert_eq!(created_address(made), Some(address(5)));
    assert_eq!(created_address(EngineOutcome::Revert(vec![])), None);
    assert_eq!(created_address(EngineOutcome::Halt("x".to_string())), None);
}

#[test]
fn returned_data_is_decoded_by_output() {
    let mut long = word(4);
    long.extend_from_slice(&[9, 9]);
    assert_eq!(method_result(true, ExecRes::Success(long.clone())), Ok(Some(word(4))));
    assert_eq!(method_result(false, ExecRes::Success(long)), Ok(None));
    assert_eq!(method_result(true, ExecRes::Success(vec![1; 31])), Err(CallError::ShortReturn(vec![1; 31])));
    assert_eq!(method_result(false, ExecRes::Revert(vec![3])), Err(CallError::Reverted(vec![3])));
    assert_eq!(method_result(true, ExecRes::Halt("OutOfGas".to_string())), Err(CallError::Halted("OutOfGas".to_string())));
}

#[test]
fn value_from_an_empty_account_is_not_moved() {
    let mut p = Provider::new();
    let c = generate(&counter_abi(), COUNTER).unwrap().deploy(&mut p).unwrap();
    assert_eq!(p.deploy_with_value(hex::decode(COUNTER).unwrap(), 1), None);
    assert!(matches!(p.send_value(&c.address, selector("increment()"), 1), ExecRes::Halt(_)));
    assert_eq!(c.invoke(&mut p, "number", &vec![]), Ok(Some(word(0))));
}
