use rustry::abi::{map_type, AbiEntry, AbiParam, AbiType, EntryKind, Mutability};
use rustry::bindings::{artifact_from_bytecode, generate, signature, Dispatch, GenError};

fn param(name: &str, tag: &str) -> AbiParam {
    AbiParam { name: name.to_string(), type_tag: tag.to_string() }
}

fn entry(name: &str, inputs: Vec<AbiParam>, outputs: Vec<AbiParam>, m: Mutability) -> AbiEntry {
    AbiEntry {
        name: name.to_string(),
        inputs,
        outputs,
        state_mutability: m,
        entry_type: EntryKind::Function,
    }
}

fn idents(abi: &Vec<AbiEntry>) -> Vec<String> {
    let d = generate(abi, "00").unwrap();
    d.methods.iter().map(|m| m.ident.clone()).collect()
}

#[test]
fn type_tags_map_to_kinds() {
    assert_eq!(map_type("uint256"), Some(AbiType::Uint(256)));
    assert_eq!(map_type("uint"), Some(AbiType::Uint(256)));
    assert_eq!(map_type("uint8"), Some(AbiType::Uint(8)));
    assert_eq!(map_type("int64"), Some(AbiType::Int(64)));
    assert_eq!(map_type("int"), Some(AbiType::Int(256)));
    assert_eq!(map_type("address"), Some(AbiType::Address));
    assert_eq!(map_type("bool"), Some(AbiType::Bool));
    assert_eq!(map_type("bytes32"), Some(AbiType::FixedBytes(32)));
    assert_eq!(map_type("bytes1"), Some(AbiType::FixedBytes(1)));
}

#[test]
fn unsupported_type_tags_are_refused() {
    for tag in ["uint7", "uint08", "uint264", "uint0", "bytes", "bytes33", "bytes0", "string", "uint256[]", "tuple", "", "uint2560"] {
        assert_eq!(map_type(tag), None, "{}", tag);
    }
}

#[test]
fn overloads_get_suffixes_and_last_keeps_bare_name() {
    let abi = vec![
        entry("f", vec![param("x", "uint256")], vec![], Mutability::NonPayable),
        entry("f", vec![], vec![], Mutability::NonPayable),
        entry("g", vec![], vec![], Mutability::View),
        entry("f", vec![param("b", "bool")], vec![], Mutability::NonPayable),
    ];
    assert_eq!(idents(&abi), vec!["f0", "f1", "g", "f"]);
}

#[test]
fn entries_other_than_functions_are_not_bound() {
    let mut ctor = entry("", vec![param("x", "uint256")], vec![], Mutability::NonPayable);
    ctor.entry_type = EntryKind::Constructor;
    let mut ev = entry("Moved", vec![], vec![], Mutability::NonPayable);
    ev.entry_type = EntryKind::Event;
    let abi = vec![ctor, entry("number", vec![], vec![param("", "uint256")], Mutability::View), ev];
    let d = generate(&abi, "0x6000").unwrap();
    assert_eq!(d.code, vec![0x60, 0x00]);
    assert_eq!(d.methods.len(), 1);
    assert_eq!(d.methods[0].ident, "number");
    assert_eq!(d.methods[0].signature, "number()");
    assert_eq!(d.methods[0].dispatch, Dispatch::Static);
    assert_eq!(d.methods[0].output, Some(AbiType::Uint(256)));
}

#[test]
fn dispatch_follows_mutability() {
    let abi = vec![
        entry("a", vec![], vec![], Mutability::View),
        entry("b", vec![], vec![], Mutability::NonPayable),
        entry("c", vec![], vec![], Mutability::Payable),
    ];
    let d = generate(&abi, "").unwrap();
    let ds: Vec<Dispatch> = d.methods.iter().map(|m| m.dispatch).collect();
    assert_eq!(ds, vec![Dispatch::Static, Dispatch::Send, Dispatch::Send]);
    assert!(d.code.is_empty());
}

#[test]
fn view_with_two_outputs_is_refused() {
    let abi = vec![entry(
        "pair",
        vec![],
        vec![param("a", "uint256"), param("b", "uint256")],
        Mutability::View,
    )];
    assert_eq!(generate(&abi, "00").err(), Some(GenError::MultipleOutputs("pair".to_string())));
}

#[test]
fn pure_functions_are_refused() {
    let abi = vec![entry("p", vec![], vec![], Mutability::Pure)];
    assert_eq!(generate(&abi, "00").err(), Some(GenError::UnsupportedMutability("p".to_string())));
}

#[test]
fn unsupported_parameter_type_is_refused() {
    let abi = vec![
        entry("ok", vec![param("x", "uint256")], vec![], Mutability::NonPayable),
        entry("name", vec![param("x", "uint8"), param("s", "string")], vec![], Mutability::NonPayable),
    ];
    assert_eq!(generate(&abi, "00").err(), Some(GenError::UnsupportedType("string".to_string())));
    let abi = vec![entry("get", vec![], vec![param("", "bytes")], Mutability::View)];
    assert_eq!(generate(&abi, "00").err(), Some(GenError::UnsupportedType("bytes".to_string())));
}

#[test]
fn first_failing_entry_decides_the_error() {
    let abi = vec![
        entry("two", vec![], vec![param("", "uint256"), param("", "uint256")], Mutability::View),
        entry("p", vec![], vec![], Mutability::Pure),
    ];
    assert_eq!(generate(&abi, "zz").err(), Some(GenError::MultipleOutputs("two".to_string())));
}

#[test]
fn clashing_identifiers_are_refused() {
    let abi = vec![
        entry("f", vec![], vec![], Mutability::NonPayable),
        entry("f", vec![param("x", "uint256")], vec![], Mutability::NonPayable),
        entry("f0", vec![], vec![], Mutability::NonPayable),
    ];
    assert_eq!(generate(&abi, "00").err(), Some(GenError::NameClash("f0".to_string())));
}

#[test]
fn bad_bytecode_is_refused() {
    let abi = vec![entry("f", vec![], vec![], Mutability::NonPayable)];
    assert_eq!(generate(&abi, "0xzz").err(), Some(GenError::InvalidBytecode));
    assert_eq!(generate(&abi, "abc").err(), Some(GenError::InvalidBytecode));
    assert_eq!(artifact_from_bytecode("6g").err(), Some(GenError::InvalidBytecode));
}

#[test]
fn bytecode_text_is_decoded() {
    let d = artifact_from_bytecode("0x60FFaa").unwrap();
    assert_eq!(d.code, vec![0x60, 0xff, 0xaa]);
    assert!(d.methods.is_empty());
    let d = artifact_from_bytecode("0x0x00").unwrap();
    assert_eq!(d.code, vec![0x00]);
    assert_eq!(artifact_from_bytecode("0x").unwrap().code, Vec::<u8>::new());
    assert_eq!(artifact_from_bytecode("00x0").err(), Some(GenError::InvalidBytecode));
    let d = artifact_from_bytecode("deadBEEF").unwrap();
    assert_eq!(d.code, vec![0xde, 0xad, 0xbe, 0xef]);
}

#[test]
fn signatures_are_canonical() {
    let e = entry("transfer", vec![param("to", "address"), param("amount", "uint256")], vec![], Mutability::NonPayable);
    assert_eq!(signature(&e), "transfer(address,uint256)");
    let e = entry("number", vec![], vec![], Mutability::View);
    assert_eq!(signature(&e), "number()");
}

#[test]
fn many_overloads_count_up_from_zero() {
    let abi: Vec<AbiEntry> = (0..12).map(|_| entry("h", vec![], vec![], Mutability::NonPayable)).collect();
    let ids = idents(&abi);
    let mut want: Vec<String> = (0..11).map(|k| format!("h{}", k)).collect();
    want.push("h".to_string());
    assert_eq!(ids, want);
}
