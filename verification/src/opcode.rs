//! The instruction set: the operations that have a mnemonic, each with its
//! four-bit code, and the packing of two nibbles into one byte.

use vstd::prelude::*;

verus! {

/// The operations that the assembler knows by name. Each variant is named
/// after its mnemonic.
#[derive(Debug, Clone, Copy, PartialEq, Eq, Structural)]
pub enum Opcode {
    Lmem,
    Lcon,
    Stor,
    Move,
    Addr,
    Or,
    And,
    Xor,
    Rot,
    Jump,
    Halt,
    Char,
    Less,
    Disp,
}

/// How many operations have a mnemonic.
pub const MNEMONICS: usize = 14;

impl DeepView for Opcode {
    type V = Opcode;

    open spec fn deep_view(&self) -> Opcode {
        *self
    }
}

impl Opcode {
    /// The four-bit code of the operation.
    pub open spec fn spec_code(self) -> u8 {
        match self {
            Opcode::Lmem => 0x1,
            Opcode::Lcon => 0x2,
            Opcode::Stor => 0x3,
            Opcode::Move => 0x4,
            Opcode::Addr => 0x5,
            Opcode::Or => 0x7,
            Opcode::And => 0x8,
            Opcode::Xor => 0x9,
            Opcode::Rot => 0xA,
            Opcode::Jump => 0xB,
            Opcode::Halt => 0xC,
            Opcode::Char => 0xD,
            Opcode::Less => 0xE,
            Opcode::Disp => 0xF,
        }
    }

    /// The name of the operation in source text.
    pub open spec fn spec_mnemonic(self) -> Seq<char> {
        match self {
            Opcode::Lmem => "LMEM"@,
            Opcode::Lcon => "LCON"@,
            Opcode::Stor => "STOR"@,
            Opcode::Move => "MOVE"@,
            Opcode::Addr => "ADDR"@,
            Opcode::Or => "OR"@,
            Opcode::And => "AND"@,
            Opcode::Xor => "XOR"@,
            Opcode::Rot => "ROT"@,
            Opcode::Jump => "JUMP"@,
            Opcode::Halt => "HALT"@,
            Opcode::Char => "CHAR"@,
            Opcode::Less => "LESS"@,
            Opcode::Disp => "DISP"@,
        }
    }

    /// The operations in the order in which source text is tried against
    /// their mnemonics.
    pub open spec fn table() -> Seq<Opcode> {
        seq![
            Opcode::Lmem,
            Opcode::Lcon,
            Opcode::Stor,
            Opcode::Move,
            Opcode::Addr,
            Opcode::Or,
            Opcode::And,
            Opcode::Xor,
            Opcode::Rot,
            Opcode::Jump,
            Opcode::Halt,
            Opcode::Char,
            Opcode::Less,
            Opcode::Disp,
        ]
    }

    /// The four-bit code of the operation.
    #[verifier::when_used_as_spec(spec_code)]
    pub fn code(self) -> (code: u8)
        ensures
            code == self.spec_code(),
            1 <= code <= 15,
    {
        match self {
            Opcode::Lmem => 0x1,
            Opcode::Lcon => 0x2,
            Opcode::Stor => 0x3,
            Opcode::Move => 0x4,
            Opcode::Addr => 0x5,
            Opcode::Or => 0x7,
            Opcode::And => 0x8,
            Opcode::Xor => 0x9,
            Opcode::Rot => 0xA,
            Opcode::Jump => 0xB,
            Opcode::Halt => 0xC,
            Opcode::Char => 0xD,
            Opcode::Less => 0xE,
            Opcode::Disp => 0xF,
        }
    }

    /// The name of the operation in source text.
    pub fn mnemonic(self) -> (name: &'static str)
        ensures
            name@ == self.spec_mnemonic(),
    {
        match self {
            Opcode::Lmem => "LMEM",
            Opcode::Lcon => "LCON",
            Opcode::Stor => "STOR",
            Opcode::Move => "MOVE",
            Opcode::Addr => "ADDR",
            Opcode::Or => "OR",
            Opcode::And => "AND",
            Opcode::Xor => "XOR",
            Opcode::Rot => "ROT",
            Opcode::Jump => "JUMP",
            Opcode::Halt => "HALT",
            Opcode::Char => "CHAR",
            Opcode::Less => "LESS",
            Opcode::Disp => "DISP",
        }
    }

    /// The entry of the table at `index`, if the table is that long.
    pub fn nth(index: usize) -> (entry: Option<Opcode>)
        ensures
            entry == if index < MNEMONICS {
                Some(Opcode::table()[index as int])
            } else {
                None
            },
    {
        match index {
            0 => Some(Opcode::Lmem),
            1 => Some(Opcode::Lcon),
            2 => Some(Opcode::Stor),
            3 => Some(Opcode::Move),
            4 => Some(Opcode::Addr),
            5 => Some(Opcode::Or),
            6 => Some(Opcode::And),
            7 => Some(Opcode::Xor),
            8 => Some(Opcode::Rot),
            9 => Some(Opcode::Jump),
            10 => Some(Opcode::Halt),
            11 => Some(Opcode::Char),
            12 => Some(Opcode::Less),
            13 => Some(Opcode::Disp),
            _ => None,
        }
    }
}

/// Two nibbles packed into one byte, `hi` in the upper four bits.
pub open spec fn packed(hi: u8, lo: u8) -> u8 {
    (hi * 16 + lo) as u8
}

/// Packing loses nothing: shifting the byte right by four gives the upper
/// nibble back, and masking it with `0xF` gives the lower one.
pub proof fn lemma_packed_nibbles(hi: u8, lo: u8)
    requires
        hi <= 15,
        lo <= 15,
    ensures
        packed(hi, lo) == hi * 16 + lo,
        packed(hi, lo) >> 4 == hi,
        packed(hi, lo) & 0xF == lo,
{
    let byte = packed(hi, lo);
    assert(byte >> 4 == hi && byte & 0xF == lo) by (bit_vector)
        requires
            hi <= 15,
            lo <= 15,
            byte == hi * 16 + lo,
    ;
}

/// Packs two nibbles into one byte, `hi` in the upper four bits. Shifting the
/// byte right by four and masking it with `0xF` give the nibbles back.
pub fn concat_nibbles(hi: u8, lo: u8) -> (byte: u8)
    requires
        hi <= 15,
        lo <= 15,
    ensures
        byte == packed(hi, lo),
        byte == hi * 16 + lo,
        byte >> 4 == hi,
        byte & 0xF == lo,
{
    proof {
        lemma_packed_nibbles(hi, lo);
    }
    hi * 16 + lo
}

} // verus!
