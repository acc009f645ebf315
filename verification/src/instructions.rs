//! Opcode identifiers of the VM and their constant characteristics.
use vstd::prelude::*;

verus! {

/// Constant characteristics of an opcode.
#[derive(Debug, Clone, Copy, PartialEq, Eq, Structural, Hash)]
pub struct OpcodeInfo {
    /// Number of data memory cells the instruction reads or writes.
    pub memory_accesses: usize,
}

/// The opcodes of the VM, numbered `0x00..=0x1F`.
#[derive(Debug, Clone, Copy, PartialEq, Eq, Structural, Hash)]
pub enum Opcode {
    /// `[fp + off2] = [fp + off0] + [fp + off1]`
    StoreAddFpFp,
    /// `[fp + off2] = [fp + off0] + imm`
    StoreAddFpImm,
    /// `[fp + off2] = [fp + off0] - [fp + off1]`
    StoreSubFpFp,
    /// `[fp + off2] = [fp + off0] - imm`
    StoreSubFpImm,
    /// `[fp + off2] = [fp + off0]`
    StoreDerefFp,
    /// `[fp + off2] = [[fp + off0] + off1]`
    StoreDoubleDerefFp,
    /// `[fp + off2] = imm`
    StoreImm,
    /// `[fp + off2] = [fp + off0] * [fp + off1]`
    StoreMulFpFp,
    /// `[fp + off2] = [fp + off0] * imm`
    StoreMulFpImm,
    /// `[fp + off2] = [fp + off0] / [fp + off1]`
    StoreDivFpFp,
    /// `[fp + off2] = [fp + off0] / imm`
    StoreDivFpImm,
    /// `call abs [fp + off0]`
    CallAbsFp,
    /// `call abs imm`
    CallAbsImm,
    /// `call rel [fp + off0]`
    CallRelFp,
    /// `call rel imm`
    CallRelImm,
    /// `ret`
    Ret,
    /// `jmp abs [fp + off0] + [fp + off1]`
    JmpAbsAddFpFp,
    /// `jmp abs [fp + off0] + imm`
    JmpAbsAddFpImm,
    /// `jmp abs [fp + off0]`
    JmpAbsDerefFp,
    /// `jmp abs [[fp + off0] + off1]`
    JmpAbsDoubleDerefFp,
    /// `jmp abs imm`
    JmpAbsImm,
    /// `jmp abs [fp + off0] * [fp + off1]`
    JmpAbsMulFpFp,
    /// `jmp abs [fp + off0] * imm`
    JmpAbsMulFpImm,
    /// `jmp rel [fp + off0] + [fp + off1]`
    JmpRelAddFpFp,
    /// `jmp rel [fp + off0] + imm`
    JmpRelAddFpImm,
    /// `jmp rel [fp + off0]`
    JmpRelDerefFp,
    /// `jmp rel [[fp + off0] + off1]`
    JmpRelDoubleDerefFp,
    /// `jmp rel imm`
    JmpRelImm,
    /// `jmp rel [fp + off0] * [fp + off1]`
    JmpRelMulFpFp,
    /// `jmp rel [fp + off0] * imm`
    JmpRelMulFpImm,
    /// `jmp rel [fp + off1] if [fp + off0] != 0`
    JnzFpFp,
    /// `jmp rel imm if [fp + off0] != 0`
    JnzFpImm,
}

/// Error returned when a number names no opcode.
#[derive(Debug, PartialEq, Eq, Structural, Clone, Copy)]
pub struct InvalidOpcodeError {
    /// The rejected number.
    pub id: u32,
}

impl InvalidOpcodeError {
    /// Wraps the rejected number.
    pub fn new(id: u32) -> (r: Self)
        ensures
            r.id == id,
    {
        Self { id }
    }

    /// The error's message: `Invalid opcode ID: 0x` and the number in
    /// upper-case hexadecimal, on at least two digits.
    pub fn message(&self) -> (r: String)
        ensures
            r@ == message_bytes(self.id).map_values(|b: u8| b as char),
    {
        let mut out: Vec<u8> = vec![
            73u8, 110, 118, 97, 108, 105, 100, 32, 111, 112, 99, 111, 100, 101, 32, 73, 68, 58, 32, 48, 120,
        ];
        assert(out@ =~= message_prefix());
        if self.id < 16 {
            out.push(48u8);
        }
        push_hex(self.id, &mut out);
        proof {
            lemma_hex_bytes_ascii(self.id as nat);
            if self.id < 16 {
                assert(out@ =~= message_prefix() + seq![48u8] + hex_bytes(self.id as nat));
            } else {
                assert(out@ =~= message_prefix() + hex_bytes(self.id as nat));
            }
        }
        ascii_to_string(out)
    }
}

/// The ASCII code of the upper-case hexadecimal digit `d`, `0 <= d < 16`.
pub open spec fn hex_digit(d: nat) -> u8 {
    if d < 10 {
        (48 + d) as u8
    } else {
        (55 + d) as u8
    }
}

/// The upper-case hexadecimal digits of `x`, most significant first, with no
/// leading zero.
pub open spec fn hex_bytes(x: nat) -> Seq<u8>
    decreases x,
{
    if x < 16 {
        seq![hex_digit(x)]
    } else {
        hex_bytes(x / 16).push(hex_digit(x % 16))
    }
}

/// `Invalid opcode ID: 0x`, in ASCII.
pub open spec fn message_prefix() -> Seq<u8> {
    seq![73u8, 110, 118, 97, 108, 105, 100, 32, 111, 112, 99, 111, 100, 101, 32, 73, 68, 58, 32, 48, 120]
}

/// The message of the error for `id`, in ASCII: the prefix, then the digits
/// of `id` padded with a zero to two digits.
pub open spec fn message_bytes(id: u32) -> Seq<u8> {
    if id < 16 {
        message_prefix() + seq![48u8] + hex_bytes(id as nat)
    } else {
        message_prefix() + hex_bytes(id as nat)
    }
}

/// Every hexadecimal digit is ASCII.
proof fn lemma_hex_bytes_ascii(x: nat)
    ensures
        forall|i: int| 0 <= i < hex_bytes(x).len() ==> #[trigger] hex_bytes(x)[i] < 128,
    decreases x,
{
    assert(hex_digit(x % 16) < 128);
    if x >= 16 {
        lemma_hex_bytes_ascii(x / 16);
        assert(hex_bytes(x) == hex_bytes(x / 16).push(hex_digit(x % 16)));
    } else {
        assert(x % 16 == x);
    }
}

/// Appends the upper-case hexadecimal digits of `x` to `out`.
fn push_hex(x: u32, out: &mut Vec<u8>)
    ensures
        final(out)@ == old(out)@ + hex_bytes(x as nat),
    decreases x,
{
    if x >= 16 {
        push_hex(x / 16, out);
    }
    let d = x % 16;
    let digit: u8 = if d < 10 {
        48 + d as u8
    } else {
        55 + d as u8
    };
    out.push(digit);
    proof {
        if x >= 16 {
            assert(hex_bytes(x as nat) == hex_bytes((x / 16) as nat).push(hex_digit((x % 16) as nat)));
        }
    }
    assert(out@ =~= old(out)@ + hex_bytes(x as nat));
}

/// The string of the characters of ASCII `bytes`, one per byte, through
/// std's `String::from_utf8`: ASCII is valid UTF-8, so the call succeeds, and
/// each ASCII byte is the character of the same code.
#[verifier::external_body]
fn ascii_to_string(bytes: Vec<u8>) -> (r: String)
    requires
        forall|i: int| 0 <= i < bytes@.len() ==> bytes@[i] < 128,
    ensures
        r@ == bytes@.map_values(|b: u8| b as char),
{
    String::from_utf8(bytes).unwrap()
}

/// The largest opcode number.
pub const MAX_OPCODE_ID: u32 = 0x1F;

impl Opcode {
    /// The number of an opcode.
    pub open spec fn spec_id(self) -> u32 {
        match self {
            Opcode::StoreAddFpFp => 0x00,
            Opcode::StoreAddFpImm => 0x01,
            Opcode::StoreSubFpFp => 0x02,
            Opcode::StoreSubFpImm => 0x03,
            Opcode::StoreDerefFp => 0x04,
            Opcode::StoreDoubleDerefFp => 0x05,
            Opcode::StoreImm => 0x06,
            Opcode::StoreMulFpFp => 0x07,
            Opcode::StoreMulFpImm => 0x08,
            Opcode::StoreDivFpFp => 0x09,
            Opcode::StoreDivFpImm => 0x0A,
            Opcode::CallAbsFp => 0x0B,
            Opcode::CallAbsImm => 0x0C,
            Opcode::CallRelFp => 0x0D,
            Opcode::CallRelImm => 0x0E,
            Opcode::Ret => 0x0F,
            Opcode::JmpAbsAddFpFp => 0x10,
            Opcode::JmpAbsAddFpImm => 0x11,
            Opcode::JmpAbsDerefFp => 0x12,
            Opcode::JmpAbsDoubleDerefFp => 0x13,
            Opcode::JmpAbsImm => 0x14,
            Opcode::JmpAbsMulFpFp => 0x15,
            Opcode::JmpAbsMulFpImm => 0x16,
            Opcode::JmpRelAddFpFp => 0x17,
            Opcode::JmpRelAddFpImm => 0x18,
            Opcode::JmpRelDerefFp => 0x19,
            Opcode::JmpRelDoubleDerefFp => 0x1A,
            Opcode::JmpRelImm => 0x1B,
            Opcode::JmpRelMulFpFp => 0x1C,
            Opcode::JmpRelMulFpImm => 0x1D,
            Opcode::JnzFpFp => 0x1E,
            Opcode::JnzFpImm => 0x1F,
        }
    }

    /// The number of data memory accesses of an opcode.
    pub open spec fn spec_memory_accesses(self) -> usize {
        match self {
            Opcode::StoreAddFpFp => 3,
            Opcode::StoreAddFpImm => 2,
            Opcode::StoreSubFpFp => 3,
            Opcode::StoreSubFpImm => 2,
            Opcode::StoreDerefFp => 2,
            Opcode::StoreDoubleDerefFp => 3,
            Opcode::StoreImm => 1,
            Opcode::StoreMulFpFp => 3,
            Opcode::StoreMulFpImm => 2,
            Opcode::StoreDivFpFp => 3,
            Opcode::StoreDivFpImm => 2,
            Opcode::CallAbsFp => 3,
            Opcode::CallAbsImm => 2,
            Opcode::CallRelFp => 3,
            Opcode::CallRelImm => 2,
            Opcode::Ret => 2,
            Opcode::JmpAbsAddFpFp => 2,
            Opcode::JmpAbsAddFpImm => 1,
            Opcode::JmpAbsDerefFp => 1,
            Opcode::JmpAbsDoubleDerefFp => 2,
            Opcode::JmpAbsImm => 0,
            Opcode::JmpAbsMulFpFp => 2,
            Opcode::JmpAbsMulFpImm => 1,
            Opcode::JmpRelAddFpFp => 2,
            Opcode::JmpRelAddFpImm => 1,
            Opcode::JmpRelDerefFp => 1,
            Opcode::JmpRelDoubleDerefFp => 2,
            Opcode::JmpRelImm => 0,
            Opcode::JmpRelMulFpFp => 2,
            Opcode::JmpRelMulFpImm => 1,
            Opcode::JnzFpFp => 2,
            Opcode::JnzFpImm => 1,
        }
    }

    /// The number of an opcode.
    pub fn id(self) -> (r: u32)
        ensures
            r == self.spec_id(),
            r <= MAX_OPCODE_ID,
    {
        match self {
            Opcode::StoreAddFpFp => 0x00,
            Opcode::StoreAddFpImm => 0x01,
            Opcode::StoreSubFpFp => 0x02,
            Opcode::StoreSubFpImm => 0x03,
            Opcode::StoreDerefFp => 0x04,
            Opcode::StoreDoubleDerefFp => 0x05,
            Opcode::StoreImm => 0x06,
            Opcode::StoreMulFpFp => 0x07,
            Opcode::StoreMulFpImm => 0x08,
            Opcode::StoreDivFpFp => 0x09,
            Opcode::StoreDivFpImm => 0x0A,
            Opcode::CallAbsFp => 0x0B,
            Opcode::CallAbsImm => 0x0C,
            Opcode::CallRelFp => 0x0D,
            Opcode::CallRelImm => 0x0E,
            Opcode::Ret => 0x0F,
            Opcode::JmpAbsAddFpFp => 0x10,
            Opcode::JmpAbsAddFpImm => 0x11,
            Opcode::JmpAbsDerefFp => 0x12,
            Opcode::JmpAbsDoubleDerefFp => 0x13,
            Opcode::JmpAbsImm => 0x14,
            Opcode::JmpAbsMulFpFp => 0x15,
            Opcode::JmpAbsMulFpImm => 0x16,
            Opcode::JmpRelAddFpFp => 0x17,
            Opcode::JmpRelAddFpImm => 0x18,
            Opcode::JmpRelDerefFp => 0x19,
            Opcode::JmpRelDoubleDerefFp => 0x1A,
            Opcode::JmpRelImm => 0x1B,
            Opcode::JmpRelMulFpFp => 0x1C,
            Opcode::JmpRelMulFpImm => 0x1D,
            Opcode::JnzFpFp => 0x1E,
            Opcode::JnzFpImm => 0x1F,
        }
    }

    /// Converts an opcode number into an opcode; numbers above `0x1F` are rejected.
    pub fn try_from(id: u32) -> (r: Result<Opcode, InvalidOpcodeError>)
        ensures
            id <= MAX_OPCODE_ID <==> r is Ok,
            r matches Ok(op) ==> op.spec_id() == id,
            r matches Err(e) ==> e.id == id,
    {
        match id {
            0x00 => Ok(Opcode::StoreAddFpFp),
            0x01 => Ok(Opcode::StoreAddFpImm),
            0x02 => Ok(Opcode::StoreSubFpFp),
            0x03 => Ok(Opcode::StoreSubFpImm),
            0x04 => Ok(Opcode::StoreDerefFp),
            0x05 => Ok(Opcode::StoreDoubleDerefFp),
            0x06 => Ok(Opcode::StoreImm),
            0x07 => Ok(Opcode::StoreMulFpFp),
            0x08 => Ok(Opcode::StoreMulFpImm),
            0x09 => Ok(Opcode::StoreDivFpFp),
            0x0A => Ok(Opcode::StoreDivFpImm),
            0x0B => Ok(Opcode::CallAbsFp),
            0x0C => Ok(Opcode::CallAbsImm),
            0x0D => Ok(Opcode::CallRelFp),
            0x0E => Ok(Opcode::CallRelImm),
            0x0F => Ok(Opcode::Ret),
            0x10 => Ok(Opcode::JmpAbsAddFpFp),
            0x11 => Ok(Opcode::JmpAbsAddFpImm),
            0x12 => Ok(Opcode::JmpAbsDerefFp),
            0x13 => Ok(Opcode::JmpAbsDoubleDerefFp),
            0x14 => Ok(Opcode::JmpAbsImm),
            0x15 => Ok(Opcode::JmpAbsMulFpFp),
            0x16 => Ok(Opcode::JmpAbsMulFpImm),
            0x17 => Ok(Opcode::JmpRelAddFpFp),
            0x18 => Ok(Opcode::JmpRelAddFpImm),
            0x19 => Ok(Opcode::JmpRelDerefFp),
            0x1A => Ok(Opcode::JmpRelDoubleDerefFp),
            0x1B => Ok(Opcode::JmpRelImm),
            0x1C => Ok(Opcode::JmpRelMulFpFp),
            0x1D => Ok(Opcode::JmpRelMulFpImm),
            0x1E => Ok(Opcode::JnzFpFp),
            0x1F => Ok(Opcode::JnzFpImm),
            _ => Err(InvalidOpcodeError::new(id)),
        }
    }

    /// The constant characteristics of an opcode.
    pub fn info(self) -> (r: OpcodeInfo)
        ensures
            r.memory_accesses == self.spec_memory_accesses(),
            r.memory_accesses <= 3,
    {
        match self {
            Opcode::StoreAddFpFp => OpcodeInfo { memory_accesses: 3 },
            Opcode::StoreAddFpImm => OpcodeInfo { memory_accesses: 2 },
            Opcode::StoreSubFpFp => OpcodeInfo { memory_accesses: 3 },
            Opcode::StoreSubFpImm => OpcodeInfo { memory_accesses: 2 },
            Opcode::StoreDerefFp => OpcodeInfo { memory_accesses: 2 },
            Opcode::StoreDoubleDerefFp => OpcodeInfo { memory_accesses: 3 },
            Opcode::StoreImm => OpcodeInfo { memory_accesses: 1 },
            Opcode::StoreMulFpFp => OpcodeInfo { memory_accesses: 3 },
            Opcode::StoreMulFpImm => OpcodeInfo { memory_accesses: 2 },
            Opcode::StoreDivFpFp => OpcodeInfo { memory_accesses: 3 },
            Opcode::StoreDivFpImm => OpcodeInfo { memory_accesses: 2 },
            Opcode::CallAbsFp => OpcodeInfo { memory_accesses: 3 },
            Opcode::CallAbsImm => OpcodeInfo { memory_accesses: 2 },
            Opcode::CallRelFp => OpcodeInfo { memory_accesses: 3 },
            Opcode::CallRelImm => OpcodeInfo { memory_accesses: 2 },
            Opcode::Ret => OpcodeInfo { memory_accesses: 2 },
            Opcode::JmpAbsAddFpFp => OpcodeInfo { memory_accesses: 2 },
            Opcode::JmpAbsAddFpImm => OpcodeInfo { memory_accesses: 1 },
            Opcode::JmpAbsDerefFp => OpcodeInfo { memory_accesses: 1 },
            Opcode::JmpAbsDoubleDerefFp => OpcodeInfo { memory_accesses: 2 },
            Opcode::JmpAbsImm => OpcodeInfo { memory_accesses: 0 },
            Opcode::JmpAbsMulFpFp => OpcodeInfo { memory_accesses: 2 },
            Opcode::JmpAbsMulFpImm => OpcodeInfo { memory_accesses: 1 },
            Opcode::JmpRelAddFpFp => OpcodeInfo { memory_accesses: 2 },
            Opcode::JmpRelAddFpImm => OpcodeInfo { memory_accesses: 1 },
            Opcode::JmpRelDerefFp => OpcodeInfo { memory_accesses: 1 },
            Opcode::JmpRelDoubleDerefFp => OpcodeInfo { memory_accesses: 2 },
            Opcode::JmpRelImm => OpcodeInfo { memory_accesses: 0 },
            Opcode::JmpRelMulFpFp => OpcodeInfo { memory_accesses: 2 },
            Opcode::JmpRelMulFpImm => OpcodeInfo { memory_accesses: 1 },
            Opcode::JnzFpFp => OpcodeInfo { memory_accesses: 2 },
            Opcode::JnzFpImm => OpcodeInfo { memory_accesses: 1 },
        }
    }
}

/// How an instruction obtains its operand: from two frame cells, a frame
/// cell and an immediate, one frame cell, a cell addressed through a frame
/// cell (`[[fp + off0] + off1]`), an immediate alone, or no operand.
#[derive(Debug, Clone, Copy, PartialEq, Eq, Structural)]
pub enum OperandForm {
    /// `[fp + off0]` and `[fp + off1]`.
    FpFp,
    /// `[fp + off0]` and an immediate.
    FpImm,
    /// `[fp + off0]`.
    Fp,
    /// `[[fp + off0] + off1]`.
    DoubleDerefFp,
    /// An immediate.
    Imm,
    /// Nothing.
    NoOperand,
}

/// What an instruction does with its operand.
#[derive(Debug, Clone, Copy, PartialEq, Eq, Structural)]
pub enum Effect {
    /// Writes it to `[fp + off2]`.
    Store,
    /// Saves the frame pointer and the return address, then jumps.
    Call,
    /// Restores the saved frame pointer and return address.
    Return,
    /// Jumps to it.
    Jump,
    /// Jumps when a frame cell is not zero.
    JumpIfNotZero,
}

impl Opcode {
    /// The operand form the instruction's semantics names.
    pub open spec fn operand_form(self) -> OperandForm {
        match self {
            Opcode::StoreAddFpFp | Opcode::StoreSubFpFp | Opcode::StoreMulFpFp | Opcode::StoreDivFpFp
            | Opcode::JmpAbsAddFpFp | Opcode::JmpAbsMulFpFp | Opcode::JmpRelAddFpFp
            | Opcode::JmpRelMulFpFp | Opcode::JnzFpFp => OperandForm::FpFp,
            Opcode::StoreAddFpImm | Opcode::StoreSubFpImm | Opcode::StoreMulFpImm | Opcode::StoreDivFpImm
            | Opcode::JmpAbsAddFpImm | Opcode::JmpAbsMulFpImm | Opcode::JmpRelAddFpImm
            | Opcode::JmpRelMulFpImm | Opcode::JnzFpImm => OperandForm::FpImm,
            Opcode::StoreDerefFp | Opcode::CallAbsFp | Opcode::CallRelFp | Opcode::JmpAbsDerefFp
            | Opcode::JmpRelDerefFp => OperandForm::Fp,
            Opcode::StoreDoubleDerefFp | Opcode::JmpAbsDoubleDerefFp
            | Opcode::JmpRelDoubleDerefFp => OperandForm::DoubleDerefFp,
            Opcode::StoreImm | Opcode::CallAbsImm | Opcode::CallRelImm | Opcode::JmpAbsImm
            | Opcode::JmpRelImm => OperandForm::Imm,
            Opcode::Ret => OperandForm::NoOperand,
        }
    }

    /// The effect the instruction's semantics names.
    pub open spec fn effect(self) -> Effect {
        match self {
            Opcode::StoreAddFpFp | Opcode::StoreAddFpImm | Opcode::StoreSubFpFp | Opcode::StoreSubFpImm
            | Opcode::StoreDerefFp | Opcode::StoreDoubleDerefFp | Opcode::StoreImm
            | Opcode::StoreMulFpFp | Opcode::StoreMulFpImm | Opcode::StoreDivFpFp
            | Opcode::StoreDivFpImm => Effect::Store,
            Opcode::CallAbsFp | Opcode::CallAbsImm | Opcode::CallRelFp | Opcode::CallRelImm => Effect::Call,
            Opcode::Ret => Effect::Return,
            Opcode::JnzFpFp | Opcode::JnzFpImm => Effect::JumpIfNotZero,
            _ => Effect::Jump,
        }
    }
}

/// The data cells an operand form reads: each frame cell named, and for a
/// double dereference both the frame cell and the cell it points into.
pub open spec fn operand_cells(f: OperandForm) -> nat {
    match f {
        OperandForm::FpFp => 2,
        OperandForm::FpImm => 1,
        OperandForm::Fp => 1,
        OperandForm::DoubleDerefFp => 2,
        OperandForm::Imm => 0,
        OperandForm::NoOperand => 0,
    }
}

/// The data cells an effect touches besides the operand's: a store writes
/// its destination, a call writes the saved frame pointer and return
/// address, a return reads them, a jump touches none.
pub open spec fn effect_cells(e: Effect) -> nat {
    match e {
        Effect::Store => 1,
        Effect::Call => 2,
        Effect::Return => 2,
        Effect::Jump => 0,
        Effect::JumpIfNotZero => 0,
    }
}

/// The number of data memory accesses of an opcode is the number of cells
/// its semantics reads or writes: the operand's cells plus those of its
/// effect. In particular every store between two frame cells (`*FpFp`)
/// accesses three cells, and every jump to an immediate none.
pub proof fn lemma_memory_accesses_count_cells(op: Opcode)
    ensures
        op.spec_memory_accesses() == operand_cells(op.operand_form()) + effect_cells(op.effect()),
{
}

/// Distinct opcodes have distinct numbers, all at most `0x1F`.
pub proof fn lemma_opcode_id_injective(a: Opcode, b: Opcode)
    ensures
        a.spec_id() <= MAX_OPCODE_ID,
        a.spec_id() == b.spec_id() ==> a == b,
{
}

/// Every number up to `0x1F` is the number of some opcode.
pub proof fn lemma_opcode_id_surjective(id: u32)
    requires
        id <= MAX_OPCODE_ID,
    ensures
        exists|op: Opcode| op.spec_id() == id,
{
    if id == 0x00 { assert(Opcode::StoreAddFpFp.spec_id() == id); }
    if id == 0x01 { assert(Opcode::StoreAddFpImm.spec_id() == id); }
    if id == 0x02 { assert(Opcode::StoreSubFpFp.spec_id() == id); }
    if id == 0x03 { assert(Opcode::StoreSubFpImm.spec_id() == id); }
    if id == 0x04 { assert(Opcode::StoreDerefFp.spec_id() == id); }
    if id == 0x05 { assert(Opcode::StoreDoubleDerefFp.spec_id() == id); }
    if id == 0x06 { assert(Opcode::StoreImm.spec_id() == id); }
    if id == 0x07 { assert(Opcode::StoreMulFpFp.spec_id() == id); }
    if id == 0x08 { assert(Opcode::StoreMulFpImm.spec_id() == id); }
    if id == 0x09 { assert(Opcode::StoreDivFpFp.spec_id() == id); }
    if id == 0x0A { assert(Opcode::StoreDivFpImm.spec_id() == id); }
    if id == 0x0B { assert(Opcode::CallAbsFp.spec_id() == id); }
    if id == 0x0C { assert(Opcode::CallAbsImm.spec_id() == id); }
    if id == 0x0D { assert(Opcode::CallRelFp.spec_id() == id); }
    if id == 0x0E { assert(Opcode::CallRelImm.spec_id() == id); }
    if id == 0x0F { assert(Opcode::Ret.spec_id() == id); }
    if id == 0x10 { assert(Opcode::JmpAbsAddFpFp.spec_id() == id); }
    if id == 0x11 { assert(Opcode::JmpAbsAddFpImm.spec_id() == id); }
    if id == 0x12 { assert(Opcode::JmpAbsDerefFp.spec_id() == id); }
    if id == 0x13 { assert(Opcode::JmpAbsDoubleDerefFp.spec_id() == id); }
    if id == 0x14 { assert(Opcode::JmpAbsImm.spec_id() == id); }
    if id == 0x15 { assert(Opcode::JmpAbsMulFpFp.spec_id() == id); }
    if id == 0x16 { assert(Opcode::JmpAbsMulFpImm.spec_id() == id); }
    if id == 0x17 { assert(Opcode::JmpRelAddFpFp.spec_id() == id); }
    if id == 0x18 { assert(Opcode::JmpRelAddFpImm.spec_id() == id); }
    if id == 0x19 { assert(Opcode::JmpRelDerefFp.spec_id() == id); }
    if id == 0x1A { assert(Opcode::JmpRelDoubleDerefFp.spec_id() == id); }
    if id == 0x1B { assert(Opcode::JmpRelImm.spec_id() == id); }
    if id == 0x1C { assert(Opcode::JmpRelMulFpFp.spec_id() == id); }
    if id == 0x1D { assert(Opcode::JmpRelMulFpImm.spec_id() == id); }
    if id == 0x1E { assert(Opcode::JnzFpFp.spec_id() == id); }
    if id == 0x1F { assert(Opcode::JnzFpImm.spec_id() == id); }
}

} // verus!
