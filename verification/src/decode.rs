//! Bitfield decoder: extracts the opcode class and the operand fields from a
//! raw 32-bit instruction word.

use vstd::prelude::*;

verus! {

/// Primary opcode value of `addi` (bits 31-26).
pub const OPCODE_ADDI: u32 = 8;

/// Primary opcode value of `beq` (bits 31-26).
pub const OPCODE_BEQ: u32 = 4;

/// Primary opcode value of `bne` (bits 31-26).
pub const OPCODE_BNE: u32 = 5;

/// A decoded instruction: the closed set of operations this core implements,
/// plus a marker for every other opcode, which the dispatcher rejects.
/// Register numbers are always below 32 (they come from 5-bit fields) and the
/// immediate is the 16-bit field sign-extended to the register width.
#[derive(Clone, Copy, PartialEq, Eq, Structural, Debug)]
pub enum Instr {
    Addi { rs: u32, rt: u32, imm: i32 },
    Beq { rs: u32, rt: u32, imm: i32 },
    Bne { rs: u32, rt: u32, imm: i32 },
    Unimplemented { opcode: u32 },
}

/// All operand fields of an instruction word, including the ones no
/// implemented handler consumes (`rd`, `funct`).
#[derive(Clone, Copy, PartialEq, Eq, Structural, Debug)]
pub struct Fields {
    pub opcode: u32,
    pub rs: u32,
    pub rt: u32,
    pub rd: u32,
    pub imm: i32,
    pub funct: u32,
}

/// The primary opcode: bits 31-26 of the word.
pub open spec fn opcode_of(w: u32) -> u32 {
    w >> 26
}

/// The source register field: bits 25-21.
pub open spec fn rs_of(w: u32) -> u32 {
    (w >> 21) & 0x1f
}

/// The target register field: bits 20-16.
pub open spec fn rt_of(w: u32) -> u32 {
    (w >> 16) & 0x1f
}

/// The destination register field: bits 15-11 (reserved for R-type words).
pub open spec fn rd_of(w: u32) -> u32 {
    (w >> 11) & 0x1f
}

/// The function code field: bits 10-0 (reserved for R-type words).
pub open spec fn funct_of(w: u32) -> u32 {
    w & 0x7ff
}

/// The raw 16-bit immediate field: bits 15-0, before sign extension.
pub open spec fn imm_field_of(w: u32) -> u32 {
    w & 0xffff
}

/// Sign extension of a 16-bit value to a signed integer.
pub open spec fn sign_extend_16(x: u32) -> int {
    if x < 0x8000 {
        x as int
    } else {
        x as int - 0x10000
    }
}

/// The sign-extended immediate of the word, as a 32-bit register value.
pub open spec fn imm_of(w: u32) -> i32 {
    sign_extend_16(imm_field_of(w)) as i32
}

/// The register fields of any word are valid register numbers (they are 5-bit
/// fields), and the immediate field is a 16-bit value.
pub proof fn lemma_field_bounds(w: u32)
    ensures
        opcode_of(w) < 64,
        rs_of(w) < 32,
        rt_of(w) < 32,
        rd_of(w) < 32,
        funct_of(w) < 0x800,
        imm_field_of(w) < 0x10000,
        -0x8000 <= sign_extend_16(imm_field_of(w)) < 0x8000,
        imm_of(w) as int == sign_extend_16(imm_field_of(w)),
{
    assert(w >> 26 < 64) by (bit_vector);
    assert((w >> 21) & 0x1f < 32) by (bit_vector);
    assert((w >> 16) & 0x1f < 32) by (bit_vector);
    assert((w >> 11) & 0x1f < 32) by (bit_vector);
    assert(w & 0x7ff < 0x800) by (bit_vector);
    assert(w & 0xffff < 0x10000) by (bit_vector);
}

/// What the decoder yields for a word: the three implemented operations by
/// their opcodes, everything else (the R-type encoding, opcode 0, included)
/// marked unimplemented.
pub open spec fn decode_spec(w: u32) -> Instr {
    let op = opcode_of(w);
    if op == OPCODE_ADDI {
        Instr::Addi { rs: rs_of(w), rt: rt_of(w), imm: imm_of(w) }
    } else if op == OPCODE_BEQ {
        Instr::Beq { rs: rs_of(w), rt: rt_of(w), imm: imm_of(w) }
    } else if op == OPCODE_BNE {
        Instr::Bne { rs: rs_of(w), rt: rt_of(w), imm: imm_of(w) }
    } else {
        Instr::Unimplemented { opcode: op }
    }
}

/// Extracts every operand field of a word at its fixed bit position.
pub fn decode_fields(w: u32) -> (f: Fields)
    ensures
        f.opcode == opcode_of(w),
        f.rs == rs_of(w),
        f.rt == rt_of(w),
        f.rd == rd_of(w),
        f.imm == imm_of(w),
        f.funct == funct_of(w),
        f.rs < 32,
        f.rt < 32,
        f.rd < 32,
{
    proof {
        lemma_field_bounds(w);
    }
    let imm_raw: u32 = w & 0xffff;
    let imm: i32 = if imm_raw >= 0x8000 {
        (imm_raw as i32) - 0x10000
    } else {
        imm_raw as i32
    };
    Fields {
        opcode: w >> 26,
        rs: (w >> 21) & 0x1f,
        rt: (w >> 16) & 0x1f,
        rd: (w >> 11) & 0x1f,
        imm,
        funct: w & 0x7ff,
    }
}

/// Decodes a word into the closed instruction set.
pub fn decode(w: u32) -> (i: Instr)
    ensures
        i == decode_spec(w),
{
    let f = decode_fields(w);
    if f.opcode == OPCODE_ADDI {
        Instr::Addi { rs: f.rs, rt: f.rt, imm: f.imm }
    } else if f.opcode == OPCODE_BEQ {
        Instr::Beq { rs: f.rs, rt: f.rt, imm: f.imm }
    } else if f.opcode == OPCODE_BNE {
        Instr::Bne { rs: f.rs, rt: f.rt, imm: f.imm }
    } else {
        Instr::Unimplemented { opcode: f.opcode }
    }
}

} // verus!
