//! The bytecode instruction set of the register machine.

use vstd::prelude::*;

verus! {

/// Index of a register in the current frame.
pub type Register = u8;

/// Index of an upvalue of the running closure.
pub type UpvalueIndex = u8;

/// Index into the constant table of the running function.
pub type ConstantIndex = u16;

/// Number of opcodes, and so the exclusive upper bound of every discriminant.
pub const OPCODE_COUNT: u8 = 49;

/// One instruction of the register machine.
#[allow(inconsistent_fields)]
#[derive(Debug, Clone, Copy)]
pub enum Instruction {
    MOVE { dst: Register, src: Register },
    LOAD { dst: Register, idx: ConstantIndex },
    LFALSESKIP { src: Register },
    GETUPVAL { dst: Register, idx: UpvalueIndex },
    SETUPVAL { src: Register, idx: UpvalueIndex },
    GETTABUP { dst: Register, idx: UpvalueIndex, key: ConstantIndex },
    SETTABUP { src: Register, idx: UpvalueIndex, key: ConstantIndex },
    GETTABLE { dst: Register, table: Register, key: Register },
    SETTABLE { src: Register, table: Register, key: Register },
    NEWTABLE { dst: Register },
    ADD { dst: Register, lhs: Register, rhs: Register },
    SUB { dst: Register, lhs: Register, rhs: Register },
    MUL { dst: Register, lhs: Register, rhs: Register },
    MOD { dst: Register, lhs: Register, rhs: Register },
    POW { dst: Register, lhs: Register, rhs: Register },
    DIV { dst: Register, lhs: Register, rhs: Register },
    IDIV { dst: Register, lhs: Register, rhs: Register },
    BAND { dst: Register, lhs: Register, rhs: Register },
    BOR { dst: Register, lhs: Register, rhs: Register },
    BXOR { dst: Register, lhs: Register, rhs: Register },
    SHL { dst: Register, lhs: Register, rhs: Register },
    SHR { dst: Register, lhs: Register, rhs: Register },
    MMBIN { lhs: Register, rhs: Register, metamethod: MetaMethod },
    UNM { dst: Register, src: Register },
    BNOT { dst: Register, src: Register },
    NOT { dst: Register, src: Register },
    LEN { dst: Register, src: Register },
    CONCAT { dst: Register, lhs: Register, rhs: Register },
    CLOSE { start: Register },
    TBC { val: Register },
    JMP { offset: i32 },
    EQ { lhs: Register, rhs: Register, inverted: bool },
    LT { lhs: Register, rhs: Register, inverted: bool },
    LE { lhs: Register, rhs: Register, inverted: bool },
    TEST { src: Register, inverted: bool },
    CALL { func: Register, args: u8, returns: u8 },
    TAILCALL { func: Register, args: u8 },
    RETURN { values: Register, count: u8 },
    FORLOOP {},
    FORPREP {},
    TFORPREP {},
    TFORCALL {},
    TFORLOOP {},
    SETLIST {},
    CLOSURE {},
    VARARG {},
    VARARGPREP {},
    NOP,
    STOP,
}

impl Instruction {
    /// The opcode number of an instruction: its position in the declaration
    /// order of the instruction set, starting at zero.
    pub open spec fn opcode(self) -> u8 {
        match self {
            Instruction::MOVE { .. } => 0,
            Instruction::LOAD { .. } => 1,
            Instruction::LFALSESKIP { .. } => 2,
            Instruction::GETUPVAL { .. } => 3,
            Instruction::SETUPVAL { .. } => 4,
            Instruction::GETTABUP { .. } => 5,
            Instruction::SETTABUP { .. } => 6,
            Instruction::GETTABLE { .. } => 7,
            Instruction::SETTABLE { .. } => 8,
            Instruction::NEWTABLE { .. } => 9,
            Instruction::ADD { .. } => 10,
            Instruction::SUB { .. } => 11,
            Instruction::MUL { .. } => 12,
            Instruction::MOD { .. } => 13,
            Instruction::POW { .. } => 14,
            Instruction::DIV { .. } => 15,
            Instruction::IDIV { .. } => 16,
            Instruction::BAND { .. } => 17,
            Instruction::BOR { .. } => 18,
            Instruction::BXOR { .. } => 19,
            Instruction::SHL { .. } => 20,
            Instruction::SHR { .. } => 21,
            Instruction::MMBIN { .. } => 22,
            Instruction::UNM { .. } => 23,
            Instruction::BNOT { .. } => 24,
            Instruction::NOT { .. } => 25,
            Instruction::LEN { .. } => 26,
            Instruction::CONCAT { .. } => 27,
            Instruction::CLOSE { .. } => 28,
            Instruction::TBC { .. } => 29,
            Instruction::JMP { .. } => 30,
            Instruction::EQ { .. } => 31,
            Instruction::LT { .. } => 32,
            Instruction::LE { .. } => 33,
            Instruction::TEST { .. } => 34,
            Instruction::CALL { .. } => 35,
            Instruction::TAILCALL { .. } => 36,
            Instruction::RETURN { .. } => 37,
            Instruction::FORLOOP { .. } => 38,
            Instruction::FORPREP { .. } => 39,
            Instruction::TFORPREP { .. } => 40,
            Instruction::TFORCALL { .. } => 41,
            Instruction::TFORLOOP { .. } => 42,
            Instruction::SETLIST { .. } => 43,
            Instruction::CLOSURE { .. } => 44,
            Instruction::VARARG { .. } => 45,
            Instruction::VARARGPREP { .. } => 46,
            Instruction::NOP => 47,
            Instruction::STOP => 48,
        }
    }

    /// Returns the opcode number, which a dispatcher uses to index its table of
    /// handlers.
    pub fn discriminant(self) -> (d: u8)
        ensures
            d == self.opcode(),
            d < OPCODE_COUNT,
    {
        match self {
            Instruction::MOVE { .. } => 0,
            Instruction::LOAD { .. } => 1,
            Instruction::LFALSESKIP { .. } => 2,
            Instruction::GETUPVAL { .. } => 3,
            Instruction::SETUPVAL { .. } => 4,
            Instruction::GETTABUP { .. } => 5,
            Instruction::SETTABUP { .. } => 6,
            Instruction::GETTABLE { .. } => 7,
            Instruction::SETTABLE { .. } => 8,
            Instruction::NEWTABLE { .. } => 9,
            Instruction::ADD { .. } => 10,
            Instruction::SUB { .. } => 11,
            Instruction::MUL { .. } => 12,
            Instruction::MOD { .. } => 13,
            Instruction::POW { .. } => 14,
            Instruction::DIV { .. } => 15,
            Instruction::IDIV { .. } => 16,
            Instruction::BAND { .. } => 17,
            Instruction::BOR { .. } => 18,
            Instruction::BXOR { .. } => 19,
            Instruction::SHL { .. } => 20,
            Instruction::SHR { .. } => 21,
            Instruction::MMBIN { .. } => 22,
            Instruction::UNM { .. } => 23,
            Instruction::BNOT { .. } => 24,
            Instruction::NOT { .. } => 25,
            Instruction::LEN { .. } => 26,
            Instruction::CONCAT { .. } => 27,
            Instruction::CLOSE { .. } => 28,
            Instruction::TBC { .. } => 29,
            Instruction::JMP { .. } => 30,
            Instruction::EQ { .. } => 31,
            Instruction::LT { .. } => 32,
            Instruction::LE { .. } => 33,
            Instruction::TEST { .. } => 34,
            Instruction::CALL { .. } => 35,
            Instruction::TAILCALL { .. } => 36,
            Instruction::RETURN { .. } => 37,
            Instruction::FORLOOP { .. } => 38,
            Instruction::FORPREP { .. } => 39,
            Instruction::TFORPREP { .. } => 40,
            Instruction::TFORCALL { .. } => 41,
            Instruction::TFORLOOP { .. } => 42,
            Instruction::SETLIST { .. } => 43,
            Instruction::CLOSURE { .. } => 44,
            Instruction::VARARG { .. } => 45,
            Instruction::VARARGPREP { .. } => 46,
            Instruction::NOP => 47,
            Instruction::STOP => 48,
        }
    }
}

/// The metamethods an object's metatable may define.
#[derive(Debug, Clone, Copy)]
pub enum MetaMethod {
    INDEX,
    NEWINDEX,
    GC,
    MODE,
    LEN,
    EQ,
    ADD,
    SUB,
    MUL,
    MOD,
    POW,
    DIV,
    IDIV,
    BAND,
    BOR,
    BXOR,
    SHL,
    SHR,
    UNM,
    BNOT,
    LT,
    LE,
    CONCAT,
    CALL,
    CLOSE,
}

} // verus!
