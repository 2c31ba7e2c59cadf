use evm::errors::ExecutionError;
use evm::opcode::OpCode;
use evm::memory::Memory;
use evm::state_data::State;
use evm::storage::Storage;
use evm::word::Word;

fn w(x: u64) -> Word {
    Word { l0: x, l1: 0, l2: 0, l3: 0 }
}

#[test]
fn memory_starts_empty_and_grows_aligned() {
    let mut memory = Memory::new();
    assert_eq!(memory.store.len(), 0);
    memory.save_byte(0, 0xAA).unwrap();
    assert_eq!(memory.store.len(), 32);
    memory.save_byte(32, 0xBB).unwrap();
    assert_eq!(memory.store.len(), 64);
    memory.save_word(70, w(1)).unwrap();
    assert_eq!(memory.store.len(), 128);
    assert_eq!(memory.store.len() % 32, 0);
}

#[test]
fn memory_word_roundtrip() {
    let mut memory = Memory::new();
    let value = Word { l0: 1, l1: 2, l2: 3, l3: 4 };
    memory.save_word(5, value).unwrap();
    assert_eq!(memory.get_word(5).unwrap(), value);
}

#[test]
fn memory_reads_zero_beyond_writes() {
    let mut memory = Memory::new();
    assert_eq!(memory.get_byte(10).unwrap(), 0);
    assert_eq!(memory.get_word(0).unwrap(), w(0));
}

#[test]
fn storage_reads_back_and_defaults_to_zero() {
    let mut storage = Storage::new_empty();
    let address = w(0x99);
    assert_eq!(storage.load_word(address, w(1)), w(0));
    storage.set_word(address, w(1), w(55));
    storage.set_word(address, w(2), w(66));
    storage.set_word(address, w(1), w(77));
    assert_eq!(storage.load_word(address, w(1)), w(77));
    assert_eq!(storage.load_word(address, w(2)), w(66));
    assert_eq!(storage.load_word(w(0x98), w(1)), w(0));
}

#[test]
fn state_lookups_and_defaults() {
    let entries = vec![
        (vec![0x11], (3u64, vec![0x05], vec![0xAA, 0xBB])),
    ];
    let state = State::new(entries);
    assert_eq!(state.get_balance(w(0x11)), w(0x05));
    assert_eq!(state.get_nonce(w(0x11)), 3);
    assert_eq!(state.get_code(w(0x11)), vec![0xAA, 0xBB]);
    assert_eq!(state.get_balance(w(0x12)), w(0));
    assert_eq!(state.get_nonce(w(0x12)), 0);
    assert!(state.get_code(w(0x12)).is_empty());
}

#[test]
fn state_save_code_collides_once() {
    let mut state = State::new(vec![]);
    assert!(state.save_code(w(7), vec![0x00], w(1)).is_ok());
    assert_eq!(
        state.save_code(w(7), vec![0x01], w(2)),
        Err(ExecutionError::ContractAddressCollision)
    );
}

#[test]
fn state_transfer_and_delete() {
    let mut state = State::new(vec![(vec![0x01], (0u64, vec![0x0A], vec![]))]);
    state.transfer_balance(w(5), w(0x02));
    assert_eq!(state.get_balance(w(0x02)), w(5));
    state.transfer_balance(w(1), w(0x02));
    assert_eq!(state.get_balance(w(0x02)), w(6));
    state.delete_account(w(0x01));
    assert_eq!(state.get_balance(w(0x01)), w(0));
    assert_eq!(state.get_balance(w(0x02)), w(6));
}

#[test]
fn selfdestruct_moves_balance() {
    let mut state = State::new(vec![(vec![0x01], (0u64, vec![0x0A], vec![0x00]))]);
    let mut stack = vec![w(0x02)];
    evm::utility::selfdestruct(&mut stack, &mut state, &vec![0x01], false).unwrap();
    assert_eq!(state.get_balance(w(0x01)), w(0));
    assert_eq!(state.get_balance(w(0x02)), w(0x0A));
    assert!(state.get_code(w(0x01)).is_empty());
}

#[test]
fn sstore_read_only_fails() {
    let mut storage = Storage::new_empty();
    let mut stack = vec![w(1), w(2)];
    assert_eq!(
        evm::utility::sstore(&mut stack, &mut storage, &vec![0x01], true),
        Err(ExecutionError::ReadOnly)
    );
}

#[test]
fn log_read_only_fails() {
    let mut memory = Memory::new();
    let mut logs: Vec<evm::Log> = Vec::new();
    let mut stack = vec![w(0), w(0)];
    assert_eq!(
        evm::utility::logx(0, &mut stack, &mut memory, &vec![0x01], &mut logs, true),
        Err(ExecutionError::ReadOnly)
    );
    assert!(logs.is_empty());
}

#[test]
fn is_code_distinguishes_push_data() {
    // PUSH1 0x5B; JUMPDEST
    let code = vec![0x60, 0x5B, 0x5B];
    assert!(!evm::jumpdest::is_code(1, &code).unwrap());
    assert!(evm::jumpdest::is_code(2, &code).unwrap());
}

#[test]
fn code_bitmap_rejects_unknown_opcode() {
    let code = vec![0x5B, 0xFE];
    assert!(evm::jumpdest::code_bitmap(&code).is_err());
}

#[test]
fn valid_jumpdest_checks_byte_and_bitmap() {
    let code = vec![0x5B, 0x60, 0x5B, 0x00];
    assert!(evm::jumpdest::valid_jumpdest(&w(0), &code).unwrap());
    assert_eq!(
        evm::jumpdest::valid_jumpdest(&w(1), &code),
        Err(ExecutionError::NotValidJumpDestination)
    );
    assert!(!evm::jumpdest::valid_jumpdest(&w(2), &code).unwrap());
    assert_eq!(
        evm::jumpdest::valid_jumpdest(&w(9), &code),
        Err(ExecutionError::NotValidJumpDestination)
    );
}

#[test]
fn sha3_hash_matches_known_digest() {
    // keccak256("abc")
    let digest = evm::utility::sha3_hash(&vec![0x61, 0x62, 0x63]);
    let expected = vec![
        0x4E, 0x03, 0x65, 0x7A, 0xEA, 0x45, 0xA9, 0x4F, 0xC7, 0xD4, 0x7B, 0xA8, 0x26, 0xC8,
        0xD6, 0x67, 0xC0, 0xD1, 0xE6, 0xE3, 0x3A, 0x64, 0xA0, 0x36, 0xEC, 0x44, 0xF5, 0x8F,
        0xA1, 0x2D, 0x6C, 0x45,
    ];
    assert_eq!(digest, expected);
}

#[test]
fn calculate_address_takes_hash_tail() {
    let sender = vec![0x00, 0x00, 0x00, 0x01];
    let derived = evm::utility::calculate_address(&sender, 0);
    // The address is the 20-byte tail of the digest of sender ++ nonce bytes.
    let mut preimage = sender.clone();
    preimage.extend(vec![0u8; 8]);
    let digest = evm::utility::sha3_hash(&preimage);
    let expected = evm::word::word_from_be_bytes(&digest[12..32].to_vec());
    assert_eq!(derived, expected);
    // A different nonce moves the address.
    assert_ne!(derived, evm::utility::calculate_address(&sender, 1));
}

#[test]
fn word_byte_conversions_roundtrip() {
    let value = Word {
        l0: 0x0102_0304_0506_0708,
        l1: 0x1112_1314_1516_1718,
        l2: 0x2122_2324_2526_2728,
        l3: 0x3132_3334_3536_3738,
    };
    let bytes = evm::word::word_to_be_bytes(&value);
    assert_eq!(bytes.len(), 32);
    assert_eq!(bytes[0], 0x31);
    assert_eq!(bytes[31], 0x08);
    assert_eq!(evm::word::word_from_be_bytes(&bytes), value);
}

#[test]
fn word_from_short_bytes_left_pads() {
    let value = evm::word::word_from_be_bytes(&vec![0x01, 0x02]);
    assert_eq!(value, w(0x0102));
}

#[test]
fn opcode_table_helpers() {
    assert_eq!(OpCode::new(0x00), Some(OpCode::Stop));
    assert_eq!(OpCode::new(0x60), Some(OpCode::Push1));
    assert_eq!(OpCode::new(0x5F), Some(OpCode::Push0));
    assert_eq!(OpCode::new(0xFE), None);
    assert_eq!(OpCode::Push32.push_data_size(), 32);
    assert_eq!(OpCode::Push0.push_data_size(), 0);
    assert_eq!(OpCode::Dup16.data_index(), 16);
    assert_eq!(OpCode::Swap3.data_index(), 3);
    assert_eq!(OpCode::Log4.topics(), 4);
    assert!(OpCode::Push0.is_push());
    assert!(OpCode::Push32.is_push());
    assert!(!OpCode::Dup1.is_push());
}

#[test]
fn tx_and_block_context_reads() {
    // ADDRESS; CALLER; STOP with padded context fields.
    let mut to = vec![0u8; 32];
    to[31] = 0x42;
    let mut from = vec![0u8; 32];
    from[31] = 0x43;
    let tx = vec![to, from, vec![0u8; 32], vec![0u8; 32], vec![0u8; 32], vec![]];
    let result = evm::evm(vec![0x30, 0x33, 0x00], tx, vec![], vec![]);
    assert!(result.success);
    assert_eq!(result.stack, vec![w(0x43), w(0x42)]);
}

#[test]
fn calldata_reads_zero_padded() {
    // CALLDATALOAD at offset 0 with two bytes of calldata.
    let tx = vec![
        vec![0u8; 32],
        vec![0u8; 32],
        vec![0u8; 32],
        vec![0u8; 32],
        vec![0u8; 32],
        vec![0xAB, 0xCD],
    ];
    // PUSH1 0; CALLDATALOAD; CALLDATASIZE; STOP
    let result = evm::evm(vec![0x60, 0x00, 0x35, 0x36, 0x00], tx, vec![], vec![]);
    assert!(result.success);
    let mut expected_bytes = vec![0u8; 32];
    expected_bytes[0] = 0xAB;
    expected_bytes[1] = 0xCD;
    let expected = evm::word::word_from_be_bytes(&expected_bytes);
    assert_eq!(result.stack, vec![w(2), expected]);
}
