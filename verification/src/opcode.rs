use vstd::prelude::*;

verus! {

/// One decoded EVM instruction. Byte assignments follow the canonical
/// opcode table; bytes outside this list fail decoding.
#[derive(Clone, Copy, PartialEq, Eq, Structural, Debug)]
pub enum OpCode {
    Stop,
    Add,
    Mul,
    Sub,
    Div,
    Sdiv,
    Mod,
    Smod,
    Addmod,
    Mulmod,
    Exp,
    Signextend,
    Lt,
    Gt,
    Slt,
    Sgt,
    Eq,
    Iszero,
    And,
    Or,
    Xor,
    Not,
    Byte,
    Shl,
    Shr,
    Sar,
    Sha3,
    Address,
    Balance,
    Origin,
    Caller,
    Callvalue,
    Calldataload,
    Calldatasize,
    Calldatacopy,
    Codesize,
    Codecopy,
    Gasprice,
    Extcodesize,
    Extcodecopy,
    Returndatasize,
    Returndatacopy,
    Extcodehash,
    Blockhash,
    Coinbase,
    Timestamp,
    Number,
    Difficulty,
    Gaslimit,
    Chainid,
    Selfbalance,
    Basfee,
    Pop,
    Mload,
    Mstore,
    Mstore8,
    Sload,
    Sstore,
    Jump,
    Jumpi,
    Pc,
    Msize,
    Gas,
    Jumpdest,
    Push0,
    Push1,
    Push2,
    Push3,
    Push4,
    Push5,
    Push6,
    Push7,
    Push8,
    Push9,
    Push10,
    Push11,
    Push12,
    Push13,
    Push14,
    Push15,
    Push16,
    Push17,
    Push18,
    Push19,
    Push20,
    Push21,
    Push22,
    Push23,
    Push24,
    Push25,
    Push26,
    Push27,
    Push28,
    Push29,
    Push30,
    Push31,
    Push32,
    Dup1,
    Dup2,
    Dup3,
    Dup4,
    Dup5,
    Dup6,
    Dup7,
    Dup8,
    Dup9,
    Dup10,
    Dup11,
    Dup12,
    Dup13,
    Dup14,
    Dup15,
    Dup16,
    Swap1,
    Swap2,
    Swap3,
    Swap4,
    Swap5,
    Swap6,
    Swap7,
    Swap8,
    Swap9,
    Swap10,
    Swap11,
    Swap12,
    Swap13,
    Swap14,
    Swap15,
    Swap16,
    Log0,
    Log1,
    Log2,
    Log3,
    Log4,
    Create,
    Call,
    Return,
    Delegatecall,
    Staticcall,
    Revert,
    Selfdestruct,
}

/// The opcode a byte denotes, or None for an unassigned byte.
pub open spec fn decode(b: u8) -> Option<OpCode> {
    match b {
        0u8 => Some(OpCode::Stop),
        1u8 => Some(OpCode::Add),
        2u8 => Some(OpCode::Mul),
        3u8 => Some(OpCode::Sub),
        4u8 => Some(OpCode::Div),
        5u8 => Some(OpCode::Sdiv),
        6u8 => Some(OpCode::Mod),
        7u8 => Some(OpCode::Smod),
        8u8 => Some(OpCode::Addmod),
        9u8 => Some(OpCode::Mulmod),
        10u8 => Some(OpCode::Exp),
        11u8 => Some(OpCode::Signextend),
        16u8 => Some(OpCode::Lt),
        17u8 => Some(OpCode::Gt),
        18u8 => Some(OpCode::Slt),
        19u8 => Some(OpCode::Sgt),
        20u8 => Some(OpCode::Eq),
        21u8 => Some(OpCode::Iszero),
        22u8 => Some(OpCode::And),
        23u8 => Some(OpCode::Or),
        24u8 => Some(OpCode::Xor),
        25u8 => Some(OpCode::Not),
        26u8 => Some(OpCode::Byte),
        27u8 => Some(OpCode::Shl),
        28u8 => Some(OpCode::Shr),
        29u8 => Some(OpCode::Sar),
        32u8 => Some(OpCode::Sha3),
        48u8 => Some(OpCode::Address),
        49u8 => Some(OpCode::Balance),
        50u8 => Some(OpCode::Origin),
        51u8 => Some(OpCode::Caller),
        52u8 => Some(OpCode::Callvalue),
        53u8 => Some(OpCode::Calldataload),
        54u8 => Some(OpCode::Calldatasize),
        55u8 => Some(OpCode::Calldatacopy),
        56u8 => Some(OpCode::Codesize),
        57u8 => Some(OpCode::Codecopy),
        58u8 => Some(OpCode::Gasprice),
        59u8 => Some(OpCode::Extcodesize),
        60u8 => Some(OpCode::Extcodecopy),
        61u8 => Some(OpCode::Returndatasize),
        62u8 => Some(OpCode::Returndatacopy),
        63u8 => Some(OpCode::Extcodehash),
        64u8 => Some(OpCode::Blockhash),
        65u8 => Some(OpCode::Coinbase),
        66u8 => Some(OpCode::Timestamp),
        67u8 => Some(OpCode::Number),
        68u8 => Some(OpCode::Difficulty),
        69u8 => Some(OpCode::Gaslimit),
        70u8 => Some(OpCode::Chainid),
        71u8 => Some(OpCode::Selfbalance),
        72u8 => Some(OpCode::Basfee),
        80u8 => Some(OpCode::Pop),
        81u8 => Some(OpCode::Mload),
        82u8 => Some(OpCode::Mstore),
        83u8 => Some(OpCode::Mstore8),
        84u8 => Some(OpCode::Sload),
        85u8 => Some(OpCode::Sstore),
        86u8 => Some(OpCode::Jump),
        87u8 => Some(OpCode::Jumpi),
        88u8 => Some(OpCode::Pc),
        89u8 => Some(OpCode::Msize),
        90u8 => Some(OpCode::Gas),
        91u8 => Some(OpCode::Jumpdest),
        95u8 => Some(OpCode::Push0),
        96u8 => Some(OpCode::Push1),
        97u8 => Some(OpCode::Push2),
        98u8 => Some(OpCode::Push3),
        99u8 => Some(OpCode::Push4),
        100u8 => Some(OpCode::Push5),
        101u8 => Some(OpCode::Push6),
        102u8 => Some(OpCode::Push7),
        103u8 => Some(OpCode::Push8),
        104u8 => Some(OpCode::Push9),
        105u8 => Some(OpCode::Push10),
        106u8 => Some(OpCode::Push11),
        107u8 => Some(OpCode::Push12),
        108u8 => Some(OpCode::Push13),
        109u8 => Some(OpCode::Push14),
        110u8 => Some(OpCode::Push15),
        111u8 => Some(OpCode::Push16),
        112u8 => Some(OpCode::Push17),
        113u8 => Some(OpCode::Push18),
        114u8 => Some(OpCode::Push19),
        115u8 => Some(OpCode::Push20),
        116u8 => Some(OpCode::Push21),
        117u8 => Some(OpCode::Push22),
        118u8 => Some(OpCode::Push23),
        119u8 => Some(OpCode::Push24),
        120u8 => Some(OpCode::Push25),
        121u8 => Some(OpCode::Push26),
        122u8 => Some(OpCode::Push27),
        123u8 => Some(OpCode::Push28),
        124u8 => Some(OpCode::Push29),
        125u8 => Some(OpCode::Push30),
        126u8 => Some(OpCode::Push31),
        127u8 => Some(OpCode::Push32),
        128u8 => Some(OpCode::Dup1),
        129u8 => Some(OpCode::Dup2),
        130u8 => Some(OpCode::Dup3),
        131u8 => Some(OpCode::Dup4),
        132u8 => Some(OpCode::Dup5),
        133u8 => Some(OpCode::Dup6),
        134u8 => Some(OpCode::Dup7),
        135u8 => Some(OpCode::Dup8),
        136u8 => Some(OpCode::Dup9),
        137u8 => Some(OpCode::Dup10),
        138u8 => Some(OpCode::Dup11),
        139u8 => Some(OpCode::Dup12),
        140u8 => Some(OpCode::Dup13),
        141u8 => Some(OpCode::Dup14),
        142u8 => Some(OpCode::Dup15),
        143u8 => Some(OpCode::Dup16),
        144u8 => Some(OpCode::Swap1),
        145u8 => Some(OpCode::Swap2),
        146u8 => Some(OpCode::Swap3),
        147u8 => Some(OpCode::Swap4),
        148u8 => Some(OpCode::Swap5),
        149u8 => Some(OpCode::Swap6),
        150u8 => Some(OpCode::Swap7),
        151u8 => Some(OpCode::Swap8),
        152u8 => Some(OpCode::Swap9),
        153u8 => Some(OpCode::Swap10),
        154u8 => Some(OpCode::Swap11),
        155u8 => Some(OpCode::Swap12),
        156u8 => Some(OpCode::Swap13),
        157u8 => Some(OpCode::Swap14),
        158u8 => Some(OpCode::Swap15),
        159u8 => Some(OpCode::Swap16),
        160u8 => Some(OpCode::Log0),
        161u8 => Some(OpCode::Log1),
        162u8 => Some(OpCode::Log2),
        163u8 => Some(OpCode::Log3),
        164u8 => Some(OpCode::Log4),
        240u8 => Some(OpCode::Create),
        241u8 => Some(OpCode::Call),
        243u8 => Some(OpCode::Return),
        244u8 => Some(OpCode::Delegatecall),
        250u8 => Some(OpCode::Staticcall),
        253u8 => Some(OpCode::Revert),
        255u8 => Some(OpCode::Selfdestruct),
        _ => None,
    }
}

/// The width in bytes of the immediate operand of a push; 0 elsewhere.
pub open spec fn spec_push_data_size(op: OpCode) -> nat {
    match op {
        OpCode::Push1 => 1nat,
        OpCode::Push2 => 2nat,
        OpCode::Push3 => 3nat,
        OpCode::Push4 => 4nat,
        OpCode::Push5 => 5nat,
        OpCode::Push6 => 6nat,
        OpCode::Push7 => 7nat,
        OpCode::Push8 => 8nat,
        OpCode::Push9 => 9nat,
        OpCode::Push10 => 10nat,
        OpCode::Push11 => 11nat,
        OpCode::Push12 => 12nat,
        OpCode::Push13 => 13nat,
        OpCode::Push14 => 14nat,
        OpCode::Push15 => 15nat,
        OpCode::Push16 => 16nat,
        OpCode::Push17 => 17nat,
        OpCode::Push18 => 18nat,
        OpCode::Push19 => 19nat,
        OpCode::Push20 => 20nat,
        OpCode::Push21 => 21nat,
        OpCode::Push22 => 22nat,
        OpCode::Push23 => 23nat,
        OpCode::Push24 => 24nat,
        OpCode::Push25 => 25nat,
        OpCode::Push26 => 26nat,
        OpCode::Push27 => 27nat,
        OpCode::Push28 => 28nat,
        OpCode::Push29 => 29nat,
        OpCode::Push30 => 30nat,
        OpCode::Push31 => 31nat,
        OpCode::Push32 => 32nat,
        _ => 0nat,
    }
}

/// The depth index N of a DUPN or SWAPN; 0 elsewhere.
pub open spec fn spec_data_index(op: OpCode) -> nat {
    match op {
        OpCode::Dup1 | OpCode::Swap1 => 1nat,
        OpCode::Dup2 | OpCode::Swap2 => 2nat,
        OpCode::Dup3 | OpCode::Swap3 => 3nat,
        OpCode::Dup4 | OpCode::Swap4 => 4nat,
        OpCode::Dup5 | OpCode::Swap5 => 5nat,
        OpCode::Dup6 | OpCode::Swap6 => 6nat,
        OpCode::Dup7 | OpCode::Swap7 => 7nat,
        OpCode::Dup8 | OpCode::Swap8 => 8nat,
        OpCode::Dup9 | OpCode::Swap9 => 9nat,
        OpCode::Dup10 | OpCode::Swap10 => 10nat,
        OpCode::Dup11 | OpCode::Swap11 => 11nat,
        OpCode::Dup12 | OpCode::Swap12 => 12nat,
        OpCode::Dup13 | OpCode::Swap13 => 13nat,
        OpCode::Dup14 | OpCode::Swap14 => 14nat,
        OpCode::Dup15 | OpCode::Swap15 => 15nat,
        OpCode::Dup16 | OpCode::Swap16 => 16nat,
        _ => 0nat,
    }
}

/// The topic count of a LOGN opcode; 0 elsewhere.
pub open spec fn spec_topics(op: OpCode) -> nat {
    match op {
        OpCode::Log0 => 0nat,
        OpCode::Log1 => 1nat,
        OpCode::Log2 => 2nat,
        OpCode::Log3 => 3nat,
        OpCode::Log4 => 4nat,
        _ => 0nat,
    }
}

/// True for PUSH0 through PUSH32.
pub open spec fn spec_is_push(op: OpCode) -> bool {
    match op {
        OpCode::Push0 | OpCode::Push1 | OpCode::Push2 | OpCode::Push3 | OpCode::Push4 | OpCode::Push5 | OpCode::Push6 | OpCode::Push7 | OpCode::Push8 | OpCode::Push9 | OpCode::Push10 | OpCode::Push11 | OpCode::Push12 | OpCode::Push13 | OpCode::Push14 | OpCode::Push15 | OpCode::Push16 | OpCode::Push17 | OpCode::Push18 | OpCode::Push19 | OpCode::Push20 | OpCode::Push21 | OpCode::Push22 | OpCode::Push23 | OpCode::Push24 | OpCode::Push25 | OpCode::Push26 | OpCode::Push27 | OpCode::Push28 | OpCode::Push29 | OpCode::Push30 | OpCode::Push31 | OpCode::Push32 => true,
        _ => false,
    }
}

impl OpCode {
    /// Decodes one byte of code.
    pub fn new(opcode: u8) -> (r: Option<OpCode>)
        ensures
            r == decode(opcode),
    {
        match opcode {
            0u8 => Some(OpCode::Stop),
            1u8 => Some(OpCode::Add),
            2u8 => Some(OpCode::Mul),
            3u8 => Some(OpCode::Sub),
            4u8 => Some(OpCode::Div),
            5u8 => Some(OpCode::Sdiv),
            6u8 => Some(OpCode::Mod),
            7u8 => Some(OpCode::Smod),
            8u8 => Some(OpCode::Addmod),
            9u8 => Some(OpCode::Mulmod),
            10u8 => Some(OpCode::Exp),
            11u8 => Some(OpCode::Signextend),
            16u8 => Some(OpCode::Lt),
            17u8 => Some(OpCode::Gt),
            18u8 => Some(OpCode::Slt),
            19u8 => Some(OpCode::Sgt),
            20u8 => Some(OpCode::Eq),
            21u8 => Some(OpCode::Iszero),
            22u8 => Some(OpCode::And),
            23u8 => Some(OpCode::Or),
            24u8 => Some(OpCode::Xor),
            25u8 => Some(OpCode::Not),
            26u8 => Some(OpCode::Byte),
            27u8 => Some(OpCode::Shl),
            28u8 => Some(OpCode::Shr),
            29u8 => Some(OpCode::Sar),
            32u8 => Some(OpCode::Sha3),
            48u8 => Some(OpCode::Address),
            49u8 => Some(OpCode::Balance),
            50u8 => Some(OpCode::Origin),
            51u8 => Some(OpCode::Caller),
            52u8 => Some(OpCode::Callvalue),
            53u8 => Some(OpCode::Calldataload),
            54u8 => Some(OpCode::Calldatasize),
            55u8 => Some(OpCode::Calldatacopy),
            56u8 => Some(OpCode::Codesize),
            57u8 => Some(OpCode::Codecopy),
            58u8 => Some(OpCode::Gasprice),
            59u8 => Some(OpCode::Extcodesize),
            60u8 => Some(OpCode::Extcodecopy),
            61u8 => Some(OpCode::Returndatasize),
            62u8 => Some(OpCode::Returndatacopy),
            63u8 => Some(OpCode::Extcodehash),
            64u8 => Some(OpCode::Blockhash),
            65u8 => Some(OpCode::Coinbase),
            66u8 => Some(OpCode::Timestamp),
            67u8 => Some(OpCode::Number),
            68u8 => Some(OpCode::Difficulty),
            69u8 => Some(OpCode::Gaslimit),
            70u8 => Some(OpCode::Chainid),
            71u8 => Some(OpCode::Selfbalance),
            72u8 => Some(OpCode::Basfee),
            80u8 => Some(OpCode::Pop),
            81u8 => Some(OpCode::Mload),
            82u8 => Some(OpCode::Mstore),
            83u8 => Some(OpCode::Mstore8),
            84u8 => Some(OpCode::Sload),
            85u8 => Some(OpCode::Sstore),
            86u8 => Some(OpCode::Jump),
            87u8 => Some(OpCode::Jumpi),
            88u8 => Some(OpCode::Pc),
            89u8 => Some(OpCode::Msize),
            90u8 => Some(OpCode::Gas),
            91u8 => Some(OpCode::Jumpdest),
            95u8 => Some(OpCode::Push0),
            96u8 => Some(OpCode::Push1),
            97u8 => Some(OpCode::Push2),
            98u8 => Some(OpCode::Push3),
            99u8 => Some(OpCode::Push4),
            100u8 => Some(OpCode::Push5),
            101u8 => Some(OpCode::Push6),
            102u8 => Some(OpCode::Push7),
            103u8 => Some(OpCode::Push8),
            104u8 => Some(OpCode::Push9),
            105u8 => Some(OpCode::Push10),
            106u8 => Some(OpCode::Push11),
            107u8 => Some(OpCode::Push12),
            108u8 => Some(OpCode::Push13),
            109u8 => Some(OpCode::Push14),
            110u8 => Some(OpCode::Push15),
            111u8 => Some(OpCode::Push16),
            112u8 => Some(OpCode::Push17),
            113u8 => Some(OpCode::Push18),
            114u8 => Some(OpCode::Push19),
            115u8 => Some(OpCode::Push20),
            116u8 => Some(OpCode::Push21),
            117u8 => Some(OpCode::Push22),
            118u8 => Some(OpCode::Push23),
            119u8 => Some(OpCode::Push24),
            120u8 => Some(OpCode::Push25),
            121u8 => Some(OpCode::Push26),
            122u8 => Some(OpCode::Push27),
            123u8 => Some(OpCode::Push28),
            124u8 => Some(OpCode::Push29),
            125u8 => Some(OpCode::Push30),
            126u8 => Some(OpCode::Push31),
            127u8 => Some(OpCode::Push32),
            128u8 => Some(OpCode::Dup1),
            129u8 => Some(OpCode::Dup2),
            130u8 => Some(OpCode::Dup3),
            131u8 => Some(OpCode::Dup4),
            132u8 => Some(OpCode::Dup5),
            133u8 => Some(OpCode::Dup6),
            134u8 => Some(OpCode::Dup7),
            135u8 => Some(OpCode::Dup8),
            136u8 => Some(OpCode::Dup9),
            137u8 => Some(OpCode::Dup10),
            138u8 => Some(OpCode::Dup11),
            139u8 => Some(OpCode::Dup12),
            140u8 => Some(OpCode::Dup13),
            141u8 => Some(OpCode::Dup14),
            142u8 => Some(OpCode::Dup15),
            143u8 => Some(OpCode::Dup16),
            144u8 => Some(OpCode::Swap1),
            145u8 => Some(OpCode::Swap2),
            146u8 => Some(OpCode::Swap3),
            147u8 => Some(OpCode::Swap4),
            148u8 => Some(OpCode::Swap5),
            149u8 => Some(OpCode::Swap6),
            150u8 => Some(OpCode::Swap7),
            151u8 => Some(OpCode::Swap8),
            152u8 => Some(OpCode::Swap9),
            153u8 => Some(OpCode::Swap10),
            154u8 => Some(OpCode::Swap11),
            155u8 => Some(OpCode::Swap12),
            156u8 => Some(OpCode::Swap13),
            157u8 => Some(OpCode::Swap14),
            158u8 => Some(OpCode::Swap15),
            159u8 => Some(OpCode::Swap16),
            160u8 => Some(OpCode::Log0),
            161u8 => Some(OpCode::Log1),
            162u8 => Some(OpCode::Log2),
            163u8 => Some(OpCode::Log3),
            164u8 => Some(OpCode::Log4),
            240u8 => Some(OpCode::Create),
            241u8 => Some(OpCode::Call),
            243u8 => Some(OpCode::Return),
            244u8 => Some(OpCode::Delegatecall),
            250u8 => Some(OpCode::Staticcall),
            253u8 => Some(OpCode::Revert),
            255u8 => Some(OpCode::Selfdestruct),
            _ => None,
        }
    }

    /// Helper giving the push data size for each `Push` opcode.
    pub fn push_data_size(&self) -> (r: usize)
        ensures
            r == spec_push_data_size(*self),
    {
        match self {
            OpCode::Push1 => 1,
            OpCode::Push2 => 2,
            OpCode::Push3 => 3,
            OpCode::Push4 => 4,
            OpCode::Push5 => 5,
            OpCode::Push6 => 6,
            OpCode::Push7 => 7,
            OpCode::Push8 => 8,
            OpCode::Push9 => 9,
            OpCode::Push10 => 10,
            OpCode::Push11 => 11,
            OpCode::Push12 => 12,
            OpCode::Push13 => 13,
            OpCode::Push14 => 14,
            OpCode::Push15 => 15,
            OpCode::Push16 => 16,
            OpCode::Push17 => 17,
            OpCode::Push18 => 18,
            OpCode::Push19 => 19,
            OpCode::Push20 => 20,
            OpCode::Push21 => 21,
            OpCode::Push22 => 22,
            OpCode::Push23 => 23,
            OpCode::Push24 => 24,
            OpCode::Push25 => 25,
            OpCode::Push26 => 26,
            OpCode::Push27 => 27,
            OpCode::Push28 => 28,
            OpCode::Push29 => 29,
            OpCode::Push30 => 30,
            OpCode::Push31 => 31,
            OpCode::Push32 => 32,
            _ => 0,
        }
    }

    /// Helper giving the stack index touched by each `Dup` and `Swap` opcode.
    pub fn data_index(&self) -> (r: usize)
        ensures
            r == spec_data_index(*self),
    {
        match self {
            OpCode::Dup1 | OpCode::Swap1 => 1,
            OpCode::Dup2 | OpCode::Swap2 => 2,
            OpCode::Dup3 | OpCode::Swap3 => 3,
            OpCode::Dup4 | OpCode::Swap4 => 4,
            OpCode::Dup5 | OpCode::Swap5 => 5,
            OpCode::Dup6 | OpCode::Swap6 => 6,
            OpCode::Dup7 | OpCode::Swap7 => 7,
            OpCode::Dup8 | OpCode::Swap8 => 8,
            OpCode::Dup9 | OpCode::Swap9 => 9,
            OpCode::Dup10 | OpCode::Swap10 => 10,
            OpCode::Dup11 | OpCode::Swap11 => 11,
            OpCode::Dup12 | OpCode::Swap12 => 12,
            OpCode::Dup13 | OpCode::Swap13 => 13,
            OpCode::Dup14 | OpCode::Swap14 => 14,
            OpCode::Dup15 | OpCode::Swap15 => 15,
            OpCode::Dup16 | OpCode::Swap16 => 16,
            _ => 0,
        }
    }

    /// Helper giving the number of topics of a `Log` opcode.
    pub fn topics(&self) -> (r: usize)
        ensures
            r == spec_topics(*self),
    {
        match self {
            OpCode::Log0 => 0,
            OpCode::Log1 => 1,
            OpCode::Log2 => 2,
            OpCode::Log3 => 3,
            OpCode::Log4 => 4,
            _ => 0,
        }
    }

    pub fn is_push(&self) -> (r: bool)
        ensures
            r == spec_is_push(*self),
    {
        match self {
            OpCode::Push0 | OpCode::Push1 | OpCode::Push2 | OpCode::Push3 | OpCode::Push4 | OpCode::Push5 | OpCode::Push6 | OpCode::Push7 | OpCode::Push8 | OpCode::Push9 | OpCode::Push10 | OpCode::Push11 | OpCode::Push12 | OpCode::Push13 | OpCode::Push14 | OpCode::Push15 | OpCode::Push16 | OpCode::Push17 | OpCode::Push18 | OpCode::Push19 | OpCode::Push20 | OpCode::Push21 | OpCode::Push22 | OpCode::Push23 | OpCode::Push24 | OpCode::Push25 | OpCode::Push26 | OpCode::Push27 | OpCode::Push28 | OpCode::Push29 | OpCode::Push30 | OpCode::Push31 | OpCode::Push32 => true,
            _ => false,
        }
    }
}

} // verus!
