use ckb_std::ckb_types::packed::{Byte, Script};
use ckb_std::ckb_types::prelude::{Builder, Entity, Pack, Unpack};
use standard_udt_contracts::chain::{CellView, ScriptView, TxView};
use standard_udt_contracts::enhanced_xudt::extensions::{
    extension_call as enhanced_extension_call, next_after_run as next_enhanced_after_run,
    next_extension as next_enhanced, EnhancedCall, NextEnhanced,
};
use standard_udt_contracts::enhanced_xudt::run::{Operation as EnhancedOperation, ScriptAttr};
use standard_udt_contracts::types::Extension;
use standard_udt_contracts::xudt::error::Error;
use standard_udt_contracts::xudt::extensions::{extension_call, next_after_run, next_extension, ExtensionCall, NextExtension, ScriptHashKind};
use standard_udt_contracts::xudt::validation::Operation;

fn script(code: [u8; 32], hash_type: u8, args: Vec<u8>) -> (Vec<u8>, [u8; 32]) {
    let s = Script::new_builder().code_hash(code.pack()).hash_type(Byte::new(hash_type)).args(args.pack()).build();
    let hash: [u8; 32] = s.calc_script_hash().unpack();
    (s.as_slice().to_vec(), hash)
}

fn empty_tx() -> TxView {
    TxView {
        script_args: vec![],
        script_hash: [0u8; 32],
        inputs: vec![],
        outputs: vec![],
        cell_deps: vec![],
        group_inputs: vec![],
        group_outputs: vec![],
    }
}

fn holder(lock_hash: [u8; 32]) -> CellView {
    CellView {
        lock_hash,
        lock: ScriptView { code_hash: [9u8; 32], hash_type: 1, args: vec![] },
        type_script: None,
        type_hash: None,
        data: vec![],
    }
}

fn argv(call: &ExtensionCall) -> Vec<Vec<u8>> {
    match call {
        ExtensionCall::Spawn { argv, .. } => argv.clone(),
        _ => panic!("not a spawned call"),
    }
}

#[test]
fn spawned_extension_receives_four_text_arguments() {
    let (bytes, _) = script([0x21u8; 32], 2, vec![0xab, 0x01, 0xff]);
    let ext = Extension { extension_type: 4, script: bytes };
    let call = extension_call(Operation::Mint, 12, &ext, Some(true)).unwrap();
    match &call {
        ExtensionCall::Spawn { code_hash, hash_type, .. } => {
            assert_eq!(*code_hash, [0x21u8; 32]);
            assert_eq!(*hash_type, ScriptHashKind::Data1);
        }
        _ => panic!("not a spawned call"),
    }
    assert_eq!(argv(&call), vec![b"1".to_vec(), b"12".to_vec(), b"ab01ff".to_vec(), b"1".to_vec()]);
    let transfer = extension_call(Operation::Transfer, 0, &ext, None).unwrap();
    assert_eq!(argv(&transfer), vec![b"0".to_vec(), b"0".to_vec(), b"ab01ff".to_vec(), b"2".to_vec()]);
    let burn = extension_call(Operation::ProtocolBurn, 3, &ext, Some(false)).unwrap();
    assert_eq!(argv(&burn), vec![b"2".to_vec(), b"3".to_vec(), b"ab01ff".to_vec(), b"0".to_vec()]);
}

#[test]
fn linked_extension_receives_script_hash_and_codes() {
    let (bytes, hash) = script([0x22u8; 32], 1, vec![5, 6]);
    let ext = Extension { extension_type: 3, script: bytes };
    match extension_call(Operation::Mint, 2, &ext, Some(false)).unwrap() {
        ExtensionCall::DynamicLink { code_hash, hash_type, script_hash, operation_code, index_code, args, context_code } => {
            assert_eq!(code_hash, [0x22u8; 32]);
            assert_eq!(hash_type, ScriptHashKind::Type);
            assert_eq!(script_hash, hash);
            assert_eq!((operation_code, index_code, context_code), (1, 2, 0));
            assert_eq!(args, vec![5u8, 6]);
        }
        _ => panic!("not a linked call"),
    }
}

#[test]
fn unbuildable_calls_are_invalid_metadata() {
    let malformed = Extension { extension_type: 4, script: vec![1, 2, 3] };
    assert!(matches!(extension_call(Operation::Transfer, 0, &malformed, None), Err(Error::InvalidMetaData)));
    let (bytes, _) = script([0x23u8; 32], 3, vec![]);
    let unknown_hash_type = Extension { extension_type: 4, script: bytes };
    assert!(matches!(extension_call(Operation::Transfer, 0, &unknown_hash_type, None), Err(Error::InvalidMetaData)));
}

#[test]
fn stepping_stops_at_first_presence_failure() {
    let (present, present_hash) = script([0x31u8; 32], 1, vec![]);
    let (absent, _) = script([0x32u8; 32], 1, vec![]);
    let (spawned, _) = script([0x33u8; 32], 4, vec![7]);
    let mut t = empty_tx();
    t.inputs = vec![holder(present_hash)];
    let exts = vec![
        Extension { extension_type: 0, script: present },
        Extension { extension_type: 4, script: spawned.clone() },
        Extension { extension_type: 0, script: absent },
        Extension { extension_type: 4, script: spawned },
    ];
    match next_extension(&t, Operation::Transfer, &exts, None, 0) {
        NextExtension::Execute { index, call } => {
            assert_eq!(index, 1);
            assert_eq!(argv(&call), vec![b"0".to_vec(), b"1".to_vec(), b"07".to_vec(), b"2".to_vec()]);
        }
        _ => panic!("expected a run"),
    }
    assert!(matches!(next_extension(&t, Operation::Transfer, &exts, None, 2), NextExtension::Finished(Err(Error::ExtensionFailed))));
    assert!(matches!(next_extension(&t, Operation::Transfer, &exts, None, 4), NextExtension::Finished(Ok(()))));
    let unknown = vec![Extension { extension_type: 9, script: vec![] }];
    assert!(matches!(next_extension(&t, Operation::Transfer, &unknown, None, 0), NextExtension::Finished(Err(Error::InvalidMetaData))));
}

#[test]
fn enhanced_spawn_receives_flag_argument() {
    let (bytes, hash) = script([0x41u8; 32], 0, vec![0x0f]);
    let attr = ScriptAttr { location: 4, script_hash: hash, script: Some(bytes.clone()) };
    match enhanced_extension_call(EnhancedOperation::Mint, 1, &attr, true).unwrap() {
        EnhancedCall::Spawn { code_hash, hash_type, argv } => {
            assert_eq!(code_hash, [0x41u8; 32]);
            assert_eq!(hash_type, ScriptHashKind::Data);
            assert_eq!(argv, vec![b"1".to_vec(), b"1".to_vec(), b"0f".to_vec(), b"1".to_vec()]);
        }
        _ => panic!("not a spawned call"),
    }
    let linked = ScriptAttr { location: 3, script_hash: [0x55u8; 32], script: Some(bytes) };
    match enhanced_extension_call(EnhancedOperation::Transfer, 0, &linked, false).unwrap() {
        EnhancedCall::DynamicLink { code_hash, script_hash, operation_code, index_code, args, checked } => {
            assert_eq!(code_hash, [0x41u8; 32]);
            assert_eq!(script_hash, [0x55u8; 32]);
            assert_eq!((operation_code, index_code, checked), (0, 0, 0));
            assert_eq!(args, vec![0x0fu8]);
        }
        _ => panic!("not a linked call"),
    }
}

#[test]
fn enhanced_stepping_stops_at_unrunnable_extension() {
    let (bytes, hash) = script([0x42u8; 32], 1, vec![]);
    let exts = vec![
        ScriptAttr { location: 4, script_hash: hash, script: Some(bytes) },
        ScriptAttr { location: 1, script_hash: hash, script: None },
    ];
    assert!(matches!(next_enhanced(EnhancedOperation::Transfer, &exts, false, 0), NextEnhanced::Execute { index: 0, .. }));
    assert!(matches!(next_enhanced(EnhancedOperation::Transfer, &exts, false, 1), NextEnhanced::Finished(Err(Error::InvalidMetaData))));
    assert!(matches!(next_enhanced(EnhancedOperation::Transfer, &exts, false, 2), NextEnhanced::Finished(Ok(()))));
}

#[test]
fn failed_run_stops_the_flow() {
    let (present, present_hash) = script([0x51u8; 32], 1, vec![]);
    let (spawned, _) = script([0x52u8; 32], 4, vec![]);
    let mut t = empty_tx();
    t.inputs = vec![holder(present_hash)];
    let exts = vec![
        Extension { extension_type: 4, script: spawned.clone() },
        Extension { extension_type: 0, script: present },
        Extension { extension_type: 4, script: spawned },
    ];
    assert!(matches!(
        next_after_run(&t, Operation::Transfer, &exts, None, 0, Err(Error::ExtensionFailed)),
        NextExtension::Finished(Err(Error::ExtensionFailed))
    ));
    assert!(matches!(next_after_run(&t, Operation::Transfer, &exts, None, 0, Ok(())), NextExtension::Execute { index: 2, .. }));
    assert!(matches!(next_after_run(&t, Operation::Transfer, &exts, None, 2, Ok(())), NextExtension::Finished(Ok(()))));
    let attrs = vec![ScriptAttr { location: 4, script_hash: present_hash, script: None }];
    assert!(matches!(
        next_enhanced_after_run(EnhancedOperation::Mint, &attrs, true, 0, Err(Error::ExtensionFailed)),
        NextEnhanced::Finished(Err(Error::ExtensionFailed))
    ));
    assert!(matches!(next_enhanced_after_run(EnhancedOperation::Mint, &attrs, true, 0, Ok(())), NextEnhanced::Finished(Ok(()))));
}
