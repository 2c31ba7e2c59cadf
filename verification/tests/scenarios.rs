use evm::word::Word;

fn w(x: u64) -> Word {
    Word { l0: x, l1: 0, l2: 0, l3: 0 }
}

fn run(code: Vec<u8>) -> evm::EvmResult {
    evm::evm(code, vec![], vec![], vec![])
}

#[test]
fn push_push_add_stop() {
    let result = run(vec![0x60, 0x01, 0x60, 0x02, 0x01, 0x00]);
    assert!(result.success);
    assert_eq!(result.stack, vec![w(0x03)]);
}

#[test]
fn return_empty() {
    let result = run(vec![0x60, 0x00, 0x60, 0x00, 0xF3]);
    assert!(result.success);
    assert!(result.stack.is_empty());
    assert!(result.ret.is_empty());
}

#[test]
fn return_stored_word() {
    let result = run(vec![0x60, 0x05, 0x60, 0x00, 0x52, 0x60, 0x20, 0x60, 0x00, 0xF3]);
    assert!(result.success);
    let mut expected = vec![0u8; 32];
    expected[31] = 0x05;
    assert_eq!(result.ret, expected);
}

#[test]
fn jump_over_push() {
    // PUSH1 6; JUMP; three skipped bytes; JUMPDEST; PUSH1 1; STOP
    let result = run(vec![0x60, 0x06, 0x56, 0x00, 0x00, 0x00, 0x5B, 0x60, 0x01, 0x00]);
    assert!(result.success);
    assert_eq!(result.stack, vec![w(0x01)]);
}

#[test]
fn jump_to_jumpdest() {
    // PUSH1 3; JUMP; JUMPDEST; PUSH1 1; STOP
    let result = run(vec![0x60, 0x03, 0x56, 0x5B, 0x60, 0x01, 0x00]);
    assert!(result.success);
    assert_eq!(result.stack, vec![w(0x01)]);
}

#[test]
fn eq_pushes_zero() {
    let result = run(vec![0x60, 0x01, 0x5F, 0x14, 0x00]);
    assert!(result.success);
    assert_eq!(result.stack, vec![w(0x00)]);
}

#[test]
fn unknown_opcode_reverts() {
    let result = run(vec![0xFE]);
    assert!(!result.success);
    assert!(result.stack.is_empty());
}

#[test]
fn revert_clears_stack() {
    let result = run(vec![0x60, 0x07, 0x60, 0x00, 0x60, 0x00, 0xFD]);
    assert!(!result.success);
    assert!(result.stack.is_empty());
    assert!(result.ret.is_empty());
}

#[test]
fn jump_into_push_immediate_reverts() {
    // The byte at position 1 is 0x5B, but it is PUSH1's immediate.
    let result = run(vec![0x60, 0x5B, 0x60, 0x01, 0x56, 0x00]);
    assert!(!result.success);
}

#[test]
fn jump_to_non_jumpdest_reverts() {
    let result = run(vec![0x60, 0x02, 0x56, 0x5B, 0x00]);
    assert!(!result.success);
}

#[test]
fn push_without_data_reverts() {
    let result = run(vec![0x60]);
    assert!(!result.success);
}

#[test]
fn add_on_empty_stack_reverts() {
    let result = run(vec![0x01]);
    assert!(!result.success);
}

#[test]
fn stack_overflow_reverts() {
    // 1025 pushes: the last one exceeds the 1024-entry cap.
    let mut code = vec![0x5F; 1025];
    code.push(0x00);
    let result = run(code);
    assert!(!result.success);
    assert_eq!(result.stack.len(), 1024);
}

#[test]
fn mstore_huge_offset_reverts() {
    // PUSH1 5 (value); PUSH32 all-ones (offset); MSTORE.
    let mut code = vec![0x60, 0x05, 0x7F];
    code.extend(vec![0xFF; 32]);
    code.push(0x52);
    let result = run(code);
    assert!(!result.success);
}

#[test]
fn mstore_mload_roundtrip_program() {
    // PUSH1 42; PUSH1 9; MSTORE; PUSH1 9; MLOAD; STOP
    let result = run(vec![0x60, 0x2A, 0x60, 0x09, 0x52, 0x60, 0x09, 0x51, 0x00]);
    assert!(result.success);
    assert_eq!(result.stack, vec![w(0x2A)]);
}

#[test]
fn push32_pop_restores_stack() {
    // PUSH1 7; PUSH32 <32 bytes>; POP; STOP
    let mut code = vec![0x60, 0x07, 0x7F];
    code.extend((0u8..32u8).collect::<Vec<u8>>());
    code.push(0x50);
    code.push(0x00);
    let result = run(code);
    assert!(result.success);
    assert_eq!(result.stack, vec![w(0x07)]);
}

#[test]
fn msize_after_mstore8() {
    // PUSH1 1; PUSH1 0x21; MSTORE8; MSIZE; STOP -> memory grew to 64.
    let result = run(vec![0x60, 0x01, 0x60, 0x21, 0x53, 0x59, 0x00]);
    assert!(result.success);
    assert_eq!(result.stack, vec![w(0x40)]);
}

#[test]
fn dup2_copies_deep_element() {
    // PUSH1 1; PUSH1 2; DUP2; STOP -> top-first [1, 2, 1]
    let result = run(vec![0x60, 0x01, 0x60, 0x02, 0x81, 0x00]);
    assert!(result.success);
    assert_eq!(result.stack, vec![w(0x01), w(0x02), w(0x01)]);
}

#[test]
fn swap1_exchanges_top_two() {
    // PUSH1 1; PUSH1 2; SWAP1; STOP -> top-first [1, 2]
    let result = run(vec![0x60, 0x01, 0x60, 0x02, 0x90, 0x00]);
    assert!(result.success);
    assert_eq!(result.stack, vec![w(0x01), w(0x02)]);
}

#[test]
fn sstore_sload_roundtrip_program() {
    // PUSH1 7 (value); PUSH1 1 (key); SSTORE; PUSH1 1; SLOAD; STOP
    let result = run(vec![0x60, 0x07, 0x60, 0x01, 0x55, 0x60, 0x01, 0x54, 0x00]);
    assert!(result.success);
    assert_eq!(result.stack, vec![w(0x07)]);
}

#[test]
fn log0_emits_record() {
    // PUSH1 0 (size); PUSH1 0 (offset); LOG0; STOP
    let result = run(vec![0x60, 0x00, 0x60, 0x00, 0xA0, 0x00]);
    assert!(result.success);
    assert_eq!(result.logs.len(), 1);
    assert!(result.logs[0].data.is_empty());
    assert!(result.logs[0].topics.is_empty());
}

#[test]
fn sha3_of_empty_input() {
    // PUSH1 0 (size); PUSH1 0 (offset); SHA3; STOP
    let result = run(vec![0x60, 0x00, 0x60, 0x00, 0x20, 0x00]);
    assert!(result.success);
    let digest = vec![
        0xC5, 0xD2, 0x46, 0x01, 0x86, 0xF7, 0x23, 0x3C, 0x92, 0x7E, 0x7D, 0xB2, 0xDC, 0xC7,
        0x03, 0xC0, 0xE5, 0x00, 0xB6, 0x53, 0xCA, 0x82, 0x27, 0x3B, 0x7B, 0xFA, 0xD8, 0x04,
        0x5D, 0x85, 0xA4, 0x70,
    ];
    let expected = evm::word::word_from_be_bytes(&digest);
    assert_eq!(result.stack, vec![expected]);
}

#[test]
fn call_into_account_code() {
    // The callee returns the 32-byte word 42; the caller loads it back.
    let callee_code = vec![
        0x60, 0x2A, 0x60, 0x00, 0x52, // PUSH1 42; PUSH1 0; MSTORE
        0x60, 0x20, 0x60, 0x00, 0xF3, // PUSH1 32; PUSH1 0; RETURN
    ];
    let address = vec![0x10, 0x00];
    let state = vec![(address, (0u64, vec![], callee_code))];
    // pushes: ret_size, ret_offset, args_size, args_offset, value, address, gas
    let code = vec![
        0x60, 0x20, // PUSH1 32 (ret_size)
        0x60, 0x00, // PUSH1 0 (ret_offset)
        0x60, 0x00, // PUSH1 0 (args_size)
        0x60, 0x00, // PUSH1 0 (args_offset)
        0x60, 0x00, // PUSH1 0 (value)
        0x61, 0x10, 0x00, // PUSH2 0x1000 (address)
        0x60, 0x00, // PUSH1 0 (gas)
        0xF1, // CALL
        0x60, 0x00, 0x51, // PUSH1 0; MLOAD
        0x00, // STOP
    ];
    let result = evm::evm(code, vec![], vec![], state);
    assert!(result.success);
    assert_eq!(result.stack, vec![w(0x2A), w(0x01)]);
}

#[test]
fn staticcall_blocks_sstore() {
    // The callee tries SSTORE and must revert, so the caller sees 0.
    let callee_code = vec![0x60, 0x01, 0x60, 0x01, 0x55, 0x00];
    let address = vec![0x20];
    let state = vec![(address, (0u64, vec![], callee_code))];
    let code = vec![
        0x60, 0x00, // ret_size
        0x60, 0x00, // ret_offset
        0x60, 0x00, // args_size
        0x60, 0x00, // args_offset
        0x60, 0x20, // PUSH1 0x20 (address)
        0x60, 0x00, // gas
        0xFA, // STATICCALL
        0x00,
    ];
    let result = evm::evm(code, vec![], vec![], state);
    assert!(result.success);
    assert_eq!(result.stack, vec![w(0x00)]);
}

#[test]
fn revert_in_subcall_preserves_parent_storage() {
    // Parent stores 9 at slot 1, then calls a child that stores and reverts;
    // the parent's slot still reads 9.
    let callee_code = vec![
        0x60, 0x05, 0x60, 0x01, 0x55, // SSTORE slot 1 := 5
        0x60, 0x00, 0x60, 0x00, 0xFD, // REVERT
    ];
    let address = vec![0x30];
    let state = vec![(address, (0u64, vec![], callee_code))];
    let code = vec![
        0x60, 0x09, 0x60, 0x01, 0x55, // SSTORE slot 1 := 9
        0x60, 0x00, // ret_size
        0x60, 0x00, // ret_offset
        0x60, 0x00, // args_size
        0x60, 0x00, // args_offset
        0x60, 0x00, // value
        0x60, 0x30, // address
        0x60, 0x00, // gas
        0xF1, // CALL
        0x60, 0x01, 0x54, // PUSH1 1; SLOAD
        0x00,
    ];
    let result = evm::evm(code, vec![], vec![], state);
    assert!(result.success);
    assert_eq!(result.stack, vec![w(0x09), w(0x00)]);
}

#[test]
fn delegatecall_writes_parent_storage() {
    // The callee stores 5 at slot 1; under DELEGATECALL that write lands in
    // the parent's own storage, so the parent reads it back.
    let callee_code = vec![0x60, 0x05, 0x60, 0x01, 0x55, 0x00];
    let address = vec![0x40];
    let state = vec![(address, (0u64, vec![], callee_code))];
    let code = vec![
        0x60, 0x00, // ret_size
        0x60, 0x00, // ret_offset
        0x60, 0x00, // args_size
        0x60, 0x00, // args_offset
        0x60, 0x40, // address
        0x60, 0x00, // gas
        0xF4, // DELEGATECALL
        0x60, 0x01, 0x54, // PUSH1 1; SLOAD
        0x00,
    ];
    let result = evm::evm(code, vec![], vec![], state);
    assert!(result.success);
    assert_eq!(result.stack, vec![w(0x05), w(0x01)]);
}

#[test]
fn create_pushes_derived_address() {
    // CREATE with empty init code: a fresh account with empty code appears
    // and its address lands on the stack.
    let code = vec![
        0x60, 0x00, // size
        0x60, 0x00, // offset
        0x60, 0x00, // value
        0xF0, // CREATE
        0x80, // DUP1
        0x3B, // EXTCODESIZE
        0x00,
    ];
    let result = run(code);
    assert!(result.success);
    assert_eq!(result.stack.len(), 2);
    assert_eq!(result.stack[0], w(0));
    assert_ne!(result.stack[1], w(0));
}

#[test]
fn addmod_program_uses_full_width() {
    // PUSH1 7 (n); PUSH32 MAX (b); PUSH32 MAX (a); ADDMOD; STOP
    let mut code = vec![0x60, 0x07, 0x7F];
    code.extend(vec![0xFF; 32]);
    code.push(0x7F);
    code.extend(vec![0xFF; 32]);
    code.push(0x08);
    code.push(0x00);
    let result = run(code);
    assert!(result.success);
    assert_eq!(result.stack, vec![w(0x02)]);
}

#[test]
fn committed_subcall_logs_join_in_order() {
    // The parent logs, calls an account whose code logs, then logs again:
    // the child's record sits between the parent's two.
    let callee_code = vec![0x60, 0x00, 0x60, 0x00, 0xA0, 0x00];
    let address = vec![0x50];
    let state = vec![(address, (0u64, vec![], callee_code))];
    let code = vec![
        0x60, 0x00, 0x60, 0x00, 0xA0, // LOG0
        0x60, 0x00, // ret_size
        0x60, 0x00, // ret_offset
        0x60, 0x00, // args_size
        0x60, 0x00, // args_offset
        0x60, 0x00, // value
        0x60, 0x50, // address
        0x60, 0x00, // gas
        0xF1, // CALL
        0x50, // POP the call result
        0x60, 0x00, 0x60, 0x00, 0xA0, // LOG0
        0x00,
    ];
    let result = evm::evm(code, vec![], vec![], state);
    assert!(result.success);
    assert_eq!(result.logs.len(), 3);
    // The result lists logs most recent first; the middle one is the child's.
    assert_eq!(result.logs[1].address, w(0x50));
    assert_eq!(result.logs[0].address, w(0x00));
    assert_eq!(result.logs[2].address, w(0x00));
}
