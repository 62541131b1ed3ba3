//! Instruction set: opcode tables and the decoder from 16-bit instruction
//! words to structured instructions.
use vstd::prelude::*;

verus! {

/// Field `(w >> 4) & 0xF` of an instruction word.
pub open spec fn nibble1(w: u16) -> u16 {
    (w / 16) % 16
}

/// Field `w & 0xF` of an instruction word.
pub open spec fn nibble0(w: u16) -> u16 {
    w % 16
}

/// Field `(w >> 8) & 0xF` of an instruction word.
pub open spec fn nibble2(w: u16) -> u16 {
    (w / 256) % 16
}

proof fn lemma_fields(w: u16)
    ensures
        (w >> 4u16) & 0xFu16 == nibble1(w),
        w & 0xFu16 == nibble0(w),
        (w >> 8u16) & 0xFu16 == nibble2(w),
        (w >> 8u16) & 0x3u16 == nibble2(w) % 4,
        w & 0x03FFu16 == w % 1024,
{
    assert((w >> 4u16) & 0xFu16 == (w / 16) % 16) by (bit_vector);
    assert(w & 0xFu16 == w % 16) by (bit_vector);
    assert((w >> 8u16) & 0xFu16 == (w / 256) % 16) by (bit_vector);
    assert((w >> 8u16) & 0x3u16 == ((w / 256) % 16) % 4) by (bit_vector);
    assert(w & 0x03FFu16 == w % 1024) by (bit_vector);
}

/// A decoded instruction.
#[derive(Clone, Copy, Debug, PartialEq, Eq, Structural)]
pub enum InstructionFormat {
    Misc(Misc),
    Memory(Memory),
    Alu(Alu),
    If(If),
    Offset(Offset),
    Error(u16),
}

impl InstructionFormat {
    pub open spec fn spec_cycles(self) -> i32 {
        match self {
            InstructionFormat::Misc(m) => m.opcode.spec_cycles(),
            InstructionFormat::Memory(m) => m.opcode.spec_cycles(),
            InstructionFormat::Alu(a) => a.opcode.spec_cycles(),
            InstructionFormat::If(i) => i.opcode.spec_cycles(),
            InstructionFormat::Offset(o) => o.opcode.spec_cycles(),
            InstructionFormat::Error(_) => 1,
        }
    }

    /// Number of cycles the instruction takes.
    pub fn cycles(&self) -> (r: i32)
        ensures
            r == self.spec_cycles(),
    {
        match self {
            InstructionFormat::Misc(misc) => misc.cycles(),
            InstructionFormat::Memory(memory) => memory.cycles(),
            InstructionFormat::Alu(alu) => alu.cycles(),
            InstructionFormat::If(iff) => iff.cycles(),
            InstructionFormat::Offset(offset) => offset.cycles(),
            InstructionFormat::Error(_) => 1,
        }
    }

    pub open spec fn spec_has_immediate_value(self) -> bool {
        match self {
            InstructionFormat::Misc(m) => m.opcode == MiscOpcode::CALLI,
            InstructionFormat::Memory(m) => m.address_mode.spec_has_immediate(),
            InstructionFormat::Alu(a) => a.parameter == Parameter::Immediate,
            InstructionFormat::If(i) => i.parameter == Parameter::Immediate,
            InstructionFormat::Offset(_) => false,
            InstructionFormat::Error(_) => false,
        }
    }

    /// Whether an immediate word follows the instruction word.
    pub fn has_immediate_value(&self) -> (r: bool)
        ensures
            r == self.spec_has_immediate_value(),
    {
        match self {
            InstructionFormat::Misc(misc) => misc.has_immediate_value(),
            InstructionFormat::Memory(memory) => memory.has_immedaite_value(),
            InstructionFormat::Alu(alu) => alu.has_immediate_value(),
            InstructionFormat::If(iff) => iff.has_immediate_value(),
            InstructionFormat::Offset(offset) => offset.has_immediate_value(),
            InstructionFormat::Error(_) => false,
        }
    }

    pub open spec fn spec_resets_skip_flag(self) -> bool {
        !(self is If)
    }

    /// Whether skipping this instruction clears the skip flag; conditionals
    /// keep it so that they can be chained.
    pub fn resets_skip_flag(&self) -> (r: bool)
        ensures
            r == self.spec_resets_skip_flag(),
    {
        match self {
            InstructionFormat::If(_) => false,
            _ => true,
        }
    }

    pub open spec fn spec_trap() -> InstructionFormat {
        InstructionFormat::Misc(Misc { opcode: MiscOpcode::TRAP, p1: 0, p2: 0 })
    }

    /// The trap instruction, with both parameters zero.
    pub fn trap() -> (r: Self)
        ensures
            r == Self::spec_trap(),
    {
        InstructionFormat::Misc(Misc { opcode: MiscOpcode::TRAP, p1: 0, p2: 0 })
    }
}

#[derive(Clone, Copy, Debug, PartialEq, Eq, Structural)]
pub struct Misc {
    pub opcode: MiscOpcode,
    pub p1: u8,
    pub p2: u8,
}

impl Misc {
    pub fn has_immediate_value(&self) -> (r: bool)
        ensures
            r == (self.opcode == MiscOpcode::CALLI),
    {
        match self.opcode {
            MiscOpcode::CALLI => true,
            _ => false,
        }
    }

    pub fn cycles(&self) -> (r: i32)
        ensures
            r == self.opcode.spec_cycles(),
    {
        self.opcode.cycles()
    }
}

#[derive(Clone, Copy, Debug, PartialEq, Eq, Structural)]
pub enum MiscOpcode {
    TRAP,
    CLI,
    STI,
    IRET,
    RET,
    CALLI,
    DBG,
    HALT,
    INT,
    CALLR,
    NEG,
}

impl MiscOpcode {
    /// The instruction word that encodes the opcode.
    pub open spec fn spec_code(self) -> u16 {
        match self {
            MiscOpcode::TRAP => 0x0000,
            MiscOpcode::CLI => 0x0100,
            MiscOpcode::STI => 0x0200,
            MiscOpcode::IRET => 0x0300,
            MiscOpcode::RET => 0x0400,
            MiscOpcode::CALLI => 0x0500,
            MiscOpcode::DBG => 0x0600,
            MiscOpcode::HALT => 0x0700,
            MiscOpcode::INT => 0x0800,
            MiscOpcode::CALLR => 0x0900,
            MiscOpcode::NEG => 0x0A00,
        }
    }

    pub open spec fn spec_from_u16(v: u16) -> Option<MiscOpcode> {
        if v == 0x0000 {
            Some(MiscOpcode::TRAP)
        } else if v == 0x0100 {
            Some(MiscOpcode::CLI)
        } else if v == 0x0200 {
            Some(MiscOpcode::STI)
        } else if v == 0x0300 {
            Some(MiscOpcode::IRET)
        } else if v == 0x0400 {
            Some(MiscOpcode::RET)
        } else if v == 0x0500 {
            Some(MiscOpcode::CALLI)
        } else if v == 0x0600 {
            Some(MiscOpcode::DBG)
        } else if v == 0x0700 {
            Some(MiscOpcode::HALT)
        } else if v == 0x0800 {
            Some(MiscOpcode::INT)
        } else if v == 0x0900 {
            Some(MiscOpcode::CALLR)
        } else if v == 0x0A00 {
            Some(MiscOpcode::NEG)
        } else {
            None
        }
    }

    /// The opcode whose code is exactly `v`, if any.
    pub fn try_from_u16(v: u16) -> (r: Option<MiscOpcode>)
        ensures
            r == Self::spec_from_u16(v),
    {
        match v {
            0x0000 => Some(MiscOpcode::TRAP),
            0x0100 => Some(MiscOpcode::CLI),
            0x0200 => Some(MiscOpcode::STI),
            0x0300 => Some(MiscOpcode::IRET),
            0x0400 => Some(MiscOpcode::RET),
            0x0500 => Some(MiscOpcode::CALLI),
            0x0600 => Some(MiscOpcode::DBG),
            0x0700 => Some(MiscOpcode::HALT),
            0x0800 => Some(MiscOpcode::INT),
            0x0900 => Some(MiscOpcode::CALLR),
            0x0A00 => Some(MiscOpcode::NEG),
            _ => None,
        }
    }

    pub open spec fn spec_cycles(self) -> i32 {
        1
    }

    pub fn cycles(&self) -> (r: i32)
        ensures
            r == self.spec_cycles(),
    {
        1
    }
}


#[derive(Clone, Copy, Debug, PartialEq, Eq, Structural)]
pub struct Memory {
    pub opcode: MemoryOpcode,
    pub address_mode: AddressMode,
    pub register: usize,
}

impl Memory {
    pub fn has_immedaite_value(&self) -> (r: bool)
        ensures
            r == self.address_mode.spec_has_immediate(),
    {
        match self.address_mode {
            AddressMode::Offset(_) => true,
            AddressMode::Absolute => true,
            _ => false,
        }
    }

    pub fn cycles(&self) -> (r: i32)
        ensures
            r == self.opcode.spec_cycles(),
    {
        self.opcode.cycles()
    }
}

#[derive(Clone, Copy, Debug, PartialEq, Eq, Structural)]
pub enum MemoryOpcode {
    LDX,
    LRX,
    STX,
}

impl MemoryOpcode {
    pub open spec fn spec_code(self) -> u16 {
        match self {
            MemoryOpcode::LDX => 0x1000,
            MemoryOpcode::LRX => 0x2000,
            MemoryOpcode::STX => 0x3000,
        }
    }

    pub open spec fn spec_from_u16(v: u16) -> Option<MemoryOpcode> {
        if v == 0x1000 {
            Some(MemoryOpcode::LDX)
        } else if v == 0x2000 {
            Some(MemoryOpcode::LRX)
        } else if v == 0x3000 {
            Some(MemoryOpcode::STX)
        } else {
            None
        }
    }

    /// The opcode whose code is exactly `v`, if any.
    pub fn try_from_u16(v: u16) -> (r: Option<MemoryOpcode>)
        ensures
            r == Self::spec_from_u16(v),
    {
        match v {
            0x1000 => Some(MemoryOpcode::LDX),
            0x2000 => Some(MemoryOpcode::LRX),
            0x3000 => Some(MemoryOpcode::STX),
            _ => None,
        }
    }

    pub open spec fn spec_cycles(self) -> i32 {
        1
    }

    pub fn cycles(&self) -> (r: i32)
        ensures
            r == self.spec_cycles(),
    {
        1
    }
}

#[derive(Clone, Copy, Debug, PartialEq, Eq, Structural)]
pub struct Alu {
    pub opcode: AluOpcode,
    pub parameter: Parameter,
    pub register: usize,
}

impl Alu {
    pub fn has_immediate_value(&self) -> (r: bool)
        ensures
            r == (self.parameter == Parameter::Immediate),
    {
        match self.parameter {
            Parameter::Immediate => true,
            _ => false,
        }
    }

    pub fn cycles(&self) -> (r: i32)
        ensures
            r == self.opcode.spec_cycles(),
    {
        self.opcode.cycles()
    }
}

#[derive(Clone, Copy, Debug, PartialEq, Eq, Structural)]
pub enum AluOpcode {
    ADD,
    ADDC,
    SUB,
    SUBC,
    MUL,
    MULS,
    DIV,
    DIVS,
    SHL,
    SHLC,
    SHR,
    SHRC,
    SHA,
    MOV,
    AND,
    OR,
    XOR,
    BCL,
}

impl AluOpcode {
    pub open spec fn spec_code(self) -> u16 {
        match self {
            AluOpcode::ADD => 0x4000,
            AluOpcode::ADDC => 0x4400,
            AluOpcode::SUB => 0x4800,
            AluOpcode::SUBC => 0x4C00,
            AluOpcode::MUL => 0x5000,
            AluOpcode::MULS => 0x5400,
            AluOpcode::DIV => 0x5800,
            AluOpcode::DIVS => 0x5C00,
            AluOpcode::SHL => 0x6000,
            AluOpcode::SHLC => 0x6400,
            AluOpcode::SHR => 0x6800,
            AluOpcode::SHRC => 0x6C00,
            AluOpcode::SHA => 0x7000,
            AluOpcode::MOV => 0x7400,
            AluOpcode::AND => 0x7800,
            AluOpcode::OR => 0x7C00,
            AluOpcode::XOR => 0x8000,
            AluOpcode::BCL => 0x8400,
        }
    }

    pub open spec fn spec_from_u16(v: u16) -> Option<AluOpcode> {
        if v == 0x4000 {
            Some(AluOpcode::ADD)
        } else if v == 0x4400 {
            Some(AluOpcode::ADDC)
        } else if v == 0x4800 {
            Some(AluOpcode::SUB)
        } else if v == 0x4C00 {
            Some(AluOpcode::SUBC)
        } else if v == 0x5000 {
            Some(AluOpcode::MUL)
        } else if v == 0x5400 {
            Some(AluOpcode::MULS)
        } else if v == 0x5800 {
            Some(AluOpcode::DIV)
        } else if v == 0x5C00 {
            Some(AluOpcode::DIVS)
        } else if v == 0x6000 {
            Some(AluOpcode::SHL)
        } else if v == 0x6400 {
            Some(AluOpcode::SHLC)
        } else if v == 0x6800 {
            Some(AluOpcode::SHR)
        } else if v == 0x6C00 {
            Some(AluOpcode::SHRC)
        } else if v == 0x7000 {
            Some(AluOpcode::SHA)
        } else if v == 0x7400 {
            Some(AluOpcode::MOV)
        } else if v == 0x7800 {
            Some(AluOpcode::AND)
        } else if v == 0x7C00 {
            Some(AluOpcode::OR)
        } else if v == 0x8000 {
            Some(AluOpcode::XOR)
        } else if v == 0x8400 {
            Some(AluOpcode::BCL)
        } else {
            None
        }
    }

    /// The opcode whose code is exactly `v`, if any.
    pub fn try_from_u16(v: u16) -> (r: Option<AluOpcode>)
        ensures
            r == Self::spec_from_u16(v),
    {
        match v {
            0x4000 => Some(AluOpcode::ADD),
            0x4400 => Some(AluOpcode::ADDC),
            0x4800 => Some(AluOpcode::SUB),
            0x4C00 => Some(AluOpcode::SUBC),
            0x5000 => Some(AluOpcode::MUL),
            0x5400 => Some(AluOpcode::MULS),
            0x5800 => Some(AluOpcode::DIV),
            0x5C00 => Some(AluOpcode::DIVS),
            0x6000 => Some(AluOpcode::SHL),
            0x6400 => Some(AluOpcode::SHLC),
            0x6800 => Some(AluOpcode::SHR),
            0x6C00 => Some(AluOpcode::SHRC),
            0x7000 => Some(AluOpcode::SHA),
            0x7400 => Some(AluOpcode::MOV),
            0x7800 => Some(AluOpcode::AND),
            0x7C00 => Some(AluOpcode::OR),
            0x8000 => Some(AluOpcode::XOR),
            0x8400 => Some(AluOpcode::BCL),
            _ => None,
        }
    }

    pub open spec fn spec_cycles(self) -> i32 {
        1
    }

    pub fn cycles(&self) -> (r: i32)
        ensures
            r == self.spec_cycles(),
    {
        1
    }
}

#[derive(Clone, Copy, Debug, PartialEq, Eq, Structural)]
pub struct If {
    pub opcode: IfOpcode,
    pub parameter: Parameter,
    pub register: usize,
}

impl If {
    pub fn has_immediate_value(&self) -> (r: bool)
        ensures
            r == (self.parameter == Parameter::Immediate),
    {
        match self.parameter {
            Parameter::Immediate => true,
            _ => false,
        }
    }

    pub fn cycles(&self) -> (r: i32)
        ensures
            r == self.opcode.spec_cycles(),
    {
        self.opcode.cycles()
    }
}

#[derive(Clone, Copy, Debug, PartialEq, Eq, Structural)]
pub enum IfOpcode {
    IFE,
    IFNE,
    IFL,
    IFLE,
    IFG,
    IFGE,
    IFB,
    IFBE,
    IFA,
    IFAE,
}

impl IfOpcode {
    pub open spec fn spec_code(self) -> u16 {
        match self {
            IfOpcode::IFE => 0x8800,
            IfOpcode::IFNE => 0x8C00,
            IfOpcode::IFL => 0x9000,
            IfOpcode::IFLE => 0x9400,
            IfOpcode::IFG => 0x9800,
            IfOpcode::IFGE => 0x9C00,
            IfOpcode::IFB => 0xA000,
            IfOpcode::IFBE => 0xA400,
            IfOpcode::IFA => 0xA800,
            IfOpcode::IFAE => 0xAC00,
        }
    }

    pub open spec fn spec_from_u16(v: u16) -> Option<IfOpcode> {
        if v == 0x8800 {
            Some(IfOpcode::IFE)
        } else if v == 0x8C00 {
            Some(IfOpcode::IFNE)
        } else if v == 0x9000 {
            Some(IfOpcode::IFL)
        } else if v == 0x9400 {
            Some(IfOpcode::IFLE)
        } else if v == 0x9800 {
            Some(IfOpcode::IFG)
        } else if v == 0x9C00 {
            Some(IfOpcode::IFGE)
        } else if v == 0xA000 {
            Some(IfOpcode::IFB)
        } else if v == 0xA400 {
            Some(IfOpcode::IFBE)
        } else if v == 0xA800 {
            Some(IfOpcode::IFA)
        } else if v == 0xAC00 {
            Some(IfOpcode::IFAE)
        } else {
            None
        }
    }

    /// The opcode whose code is exactly `v`, if any.
    pub fn try_from_u16(v: u16) -> (r: Option<IfOpcode>)
        ensures
            r == Self::spec_from_u16(v),
    {
        match v {
            0x8800 => Some(IfOpcode::IFE),
            0x8C00 => Some(IfOpcode::IFNE),
            0x9000 => Some(IfOpcode::IFL),
            0x9400 => Some(IfOpcode::IFLE),
            0x9800 => Some(IfOpcode::IFG),
            0x9C00 => Some(IfOpcode::IFGE),
            0xA000 => Some(IfOpcode::IFB),
            0xA400 => Some(IfOpcode::IFBE),
            0xA800 => Some(IfOpcode::IFA),
            0xAC00 => Some(IfOpcode::IFAE),
            _ => None,
        }
    }

    pub open spec fn spec_cycles(self) -> i32 {
        1
    }

    pub fn cycles(&self) -> (r: i32)
        ensures
            r == self.spec_cycles(),
    {
        1
    }
}

#[derive(Clone, Copy, Debug, PartialEq, Eq, Structural)]
pub struct Offset {
    pub opcode: OffsetOpcode,
    pub offset: u16,
}

impl Offset {
    pub fn has_immediate_value(&self) -> (r: bool)
        ensures
            !r,
    {
        false
    }

    pub fn cycles(&self) -> (r: i32)
        ensures
            r == self.opcode.spec_cycles(),
    {
        self.opcode.cycles()
    }
}

#[derive(Clone, Copy, Debug, PartialEq, Eq, Structural)]
pub enum OffsetOpcode {
    JMP,
    CALL,
}

impl OffsetOpcode {
    pub open spec fn spec_code(self) -> u16 {
        match self {
            OffsetOpcode::JMP => 0,
            OffsetOpcode::CALL => 1,
        }
    }

    pub open spec fn spec_from_u16(v: u16) -> Option<OffsetOpcode> {
        if v == 0 {
            Some(OffsetOpcode::JMP)
        } else if v == 1 {
            Some(OffsetOpcode::CALL)
        } else {
            None
        }
    }

    /// The opcode whose code is exactly `v`, if any.
    pub fn try_from_u16(v: u16) -> (r: Option<OffsetOpcode>)
        ensures
            r == Self::spec_from_u16(v),
    {
        match v {
            0 => Some(OffsetOpcode::JMP),
            1 => Some(OffsetOpcode::CALL),
            _ => None,
        }
    }

    pub open spec fn spec_cycles(self) -> i32 {
        1
    }

    pub fn cycles(&self) -> (r: i32)
        ensures
            r == self.spec_cycles(),
    {
        1
    }
}

/// The decoded form of an instruction word, for words up to `0xACFF`.
pub open spec fn spec_decode_instruction(inst: u16) -> InstructionFormat {
    if inst <= 0x0FFF {
        match MiscOpcode::spec_from_u16(inst) {
            Some(opcode) => InstructionFormat::Misc(
                Misc { opcode, p1: nibble1(inst) as u8, p2: nibble0(inst) as u8 },
            ),
            None => InstructionFormat::Error(inst),
        }
    } else if inst <= 0x3FFF {
        match MemoryOpcode::spec_from_u16(inst) {
            Some(opcode) => InstructionFormat::Memory(
                Memory {
                    opcode,
                    address_mode: spec_decode_address_mode(inst),
                    register: nibble0(inst) as usize,
                },
            ),
            None => InstructionFormat::Error(inst),
        }
    } else if inst <= 0x7FFF {
        match AluOpcode::spec_from_u16(inst) {
            Some(opcode) => InstructionFormat::Alu(
                Alu {
                    opcode,
                    parameter: spec_decode_parameter(inst),
                    register: nibble0(inst) as usize,
                },
            ),
            None => InstructionFormat::Error(inst),
        }
    } else if inst <= 0xA7FF {
        match IfOpcode::spec_from_u16(inst) {
            Some(opcode) => InstructionFormat::If(
                If {
                    opcode,
                    parameter: spec_decode_parameter(inst),
                    register: nibble0(inst) as usize,
                },
            ),
            None => InstructionFormat::Error(inst),
        }
    } else {
        match OffsetOpcode::spec_from_u16(inst) {
            Some(opcode) => InstructionFormat::Offset(Offset { opcode, offset: inst % 1024 }),
            None => InstructionFormat::Error(inst),
        }
    }
}

/// Decodes one instruction word. Words above `0xACFF` have no format yet.
pub fn decode_instruction(inst: u16) -> (r: InstructionFormat)
    requires
        inst <= 0xACFF,
    ensures
        r == spec_decode_instruction(inst),
{
    proof {
        lemma_fields(inst);
    }
    if inst <= 0x0FFF {
        let opcode = match MiscOpcode::try_from_u16(inst) {
            Some(op) => op,
            None => {
                return InstructionFormat::Error(inst);
            },
        };
        let p1: u8 = (inst >> 4 & 0xF) as u8;
        let p2: u8 = (inst & 0xF) as u8;
        InstructionFormat::Misc(Misc { opcode, p1, p2 })
    } else if inst <= 0x3FFF {
        let opcode = match MemoryOpcode::try_from_u16(inst) {
            Some(op) => op,
            None => {
                return InstructionFormat::Error(inst);
            },
        };
        let address_mode = decode_address_mode(inst);
        let register: usize = (inst & 0x000F) as usize;
        InstructionFormat::Memory(Memory { opcode, address_mode, register })
    } else if inst <= 0x7FFF {
        let opcode = match AluOpcode::try_from_u16(inst) {
            Some(op) => op,
            None => {
                return InstructionFormat::Error(inst);
            },
        };
        let parameter = decode_parameter(inst);
        let register: usize = (inst & 0x000F) as usize;
        InstructionFormat::Alu(Alu { opcode, parameter, register })
    } else if inst <= 0xA7FF {
        let opcode = match IfOpcode::try_from_u16(inst) {
            Some(op) => op,
            None => {
                return InstructionFormat::Error(inst);
            },
        };
        let parameter = decode_parameter(inst);
        let register: usize = (inst & 0x000F) as usize;
        InstructionFormat::If(If { opcode, parameter, register })
    } else {
        let opcode = match OffsetOpcode::try_from_u16(inst) {
            Some(op) => op,
            None => {
                return InstructionFormat::Error(inst);
            },
        };
        let offset: u16 = inst & 0x03FF;
        InstructionFormat::Offset(Offset { opcode, offset })
    }
}

/// The second operand of ALU and conditional instructions.
#[derive(Clone, Copy, Debug, PartialEq, Eq, Structural)]
pub enum Parameter {
    Register(usize),
    Immediate,
    Value(u16),
}

/// The constant selected by the 4-bit field of the "special constant" mode.
pub open spec fn special_constant(pv: u16) -> u16 {
    if pv == 1 {
        0xFFFF
    } else if pv == 2 {
        0
    } else if pv == 3 {
        0x00FF
    } else if pv == 4 {
        0xFF00
    } else if pv == 5 {
        0x0020
    } else if pv == 6 {
        0x0040
    } else if pv == 7 {
        0x0080
    } else if pv == 8 {
        0x0100
    } else if pv == 9 {
        0x0200
    } else if pv == 10 {
        0x0400
    } else if pv == 11 {
        0x0800
    } else if pv == 12 {
        0x1000
    } else if pv == 13 {
        0x2000
    } else if pv == 14 {
        0x4000
    } else {
        0x8000
    }
}

/// Mode bits 9..8 select a register, the special constants (with 0 meaning
/// "immediate word follows"), a small value 0..15, or a value 16..31; bits
/// 7..4 are the field.
pub open spec fn spec_decode_parameter(w: u16) -> Parameter {
    let pm = nibble2(w) % 4;
    let pv = nibble1(w);
    if pm == 0 {
        Parameter::Register(pv as usize)
    } else if pm == 1 {
        if pv == 0 {
            Parameter::Immediate
        } else {
            Parameter::Value(special_constant(pv))
        }
    } else if pm == 2 {
        Parameter::Value(pv)
    } else {
        Parameter::Value((16 + pv) as u16)
    }
}

/// Decodes the parameter field of an ALU or conditional instruction word.
pub fn decode_parameter(instruction_word: u16) -> (r: Parameter)
    ensures
        r == spec_decode_parameter(instruction_word),
{
    proof {
        lemma_fields(instruction_word);
    }
    let pm: u16 = instruction_word >> 8 & 0x3;
    let pv: u16 = instruction_word >> 4 & 0xF;
    if pm == 0 {
        Parameter::Register(pv as usize)
    } else if pm == 1 {
        match pv {
            0 => Parameter::Immediate,
            1 => Parameter::Value(0xFFFF),
            2 => Parameter::Value(0),
            3 => Parameter::Value(0x00FF),
            4 => Parameter::Value(0xFF00),
            5 => Parameter::Value(0x0020),
            6 => Parameter::Value(0x0040),
            7 => Parameter::Value(0x0080),
            8 => Parameter::Value(0x0100),
            9 => Parameter::Value(0x0200),
            10 => Parameter::Value(0x0400),
            11 => Parameter::Value(0x0800),
            12 => Parameter::Value(0x1000),
            13 => Parameter::Value(0x2000),
            14 => Parameter::Value(0x4000),
            _ => Parameter::Value(0x8000),
        }
    } else if pm == 2 {
        Parameter::Value(pv)
    } else {
        Parameter::Value(16 + pv)
    }
}

/// Addressing mode of a memory instruction; the strides are in bytes.
#[derive(Clone, Copy, Debug, PartialEq, Eq, Structural)]
pub enum AddressMode {
    Register(usize),
    PostIncrement(usize, u16),
    PreDecrement(usize, u16),
    Offset(usize),
    Absolute,
    Reserved,
}

impl AddressMode {
    pub open spec fn spec_has_immediate(self) -> bool {
        self is Offset || self is Absolute
    }

    /// Whether the mode reads an immediate word after the instruction.
    pub fn has_immediate(&self) -> (r: bool)
        ensures
            r == self.spec_has_immediate(),
    {
        match self {
            AddressMode::Register(_) => false,
            AddressMode::PostIncrement(_, _) => false,
            AddressMode::PreDecrement(_, _) => false,
            AddressMode::Offset(_) => true,
            AddressMode::Absolute => true,
            AddressMode::Reserved => false,
        }
    }
}

/// Bits 11..8 select the mode: five modes repeat three times with word stride
/// first, then byte stride twice; 15 is reserved. Bits 7..4 name the register.
pub open spec fn spec_decode_address_mode(w: u16) -> AddressMode {
    let mode = nibble2(w);
    let reg_a = nibble1(w) as usize;
    if mode == 15 {
        AddressMode::Reserved
    } else {
        let kind = mode % 5;
        let stride: u16 = if mode < 5 { 2 } else { 1 };
        if kind == 0 {
            AddressMode::Register(reg_a)
        } else if kind == 1 {
            AddressMode::PostIncrement(reg_a, stride)
        } else if kind == 2 {
            AddressMode::PreDecrement(reg_a, stride)
        } else if kind == 3 {
            AddressMode::Offset(reg_a)
        } else {
            AddressMode::Absolute
        }
    }
}

/// Decodes the addressing-mode field of a memory instruction word.
pub fn decode_address_mode(instruction_word: u16) -> (r: AddressMode)
    ensures
        r == spec_decode_address_mode(instruction_word),
{
    proof {
        lemma_fields(instruction_word);
    }
    let mode: u16 = instruction_word >> 8 & 0xF;
    let reg_a: usize = (instruction_word >> 4 & 0xF) as usize;
    match mode {
        0 => AddressMode::Register(reg_a),
        1 => AddressMode::PostIncrement(reg_a, 2),
        2 => AddressMode::PreDecrement(reg_a, 2),
        3 => AddressMode::Offset(reg_a),
        4 => AddressMode::Absolute,
        5 => AddressMode::Register(reg_a),
        6 => AddressMode::PostIncrement(reg_a, 1),
        7 => AddressMode::PreDecrement(reg_a, 1),
        8 => AddressMode::Offset(reg_a),
        9 => AddressMode::Absolute,
        10 => AddressMode::Register(reg_a),
        11 => AddressMode::PostIncrement(reg_a, 1),
        12 => AddressMode::PreDecrement(reg_a, 1),
        13 => AddressMode::Offset(reg_a),
        14 => AddressMode::Absolute,
        _ => AddressMode::Reserved,
    }
}

/// Every instruction, errors included, takes one cycle.
pub proof fn lemma_one_cycle(i: InstructionFormat)
    ensures
        i.spec_cycles() == 1,
{
}

/// Decoding an opcode's code gives back the opcode, and only codes decode.
pub proof fn lemma_opcode_codes_round_trip(
    m: MiscOpcode,
    mem: MemoryOpcode,
    a: AluOpcode,
    i: IfOpcode,
    o: OffsetOpcode,
    v: u16,
)
    ensures
        MiscOpcode::spec_from_u16(m.spec_code()) == Some(m),
        MemoryOpcode::spec_from_u16(mem.spec_code()) == Some(mem),
        AluOpcode::spec_from_u16(a.spec_code()) == Some(a),
        IfOpcode::spec_from_u16(i.spec_code()) == Some(i),
        OffsetOpcode::spec_from_u16(o.spec_code()) == Some(o),
        MiscOpcode::spec_from_u16(v) matches Some(x) ==> x.spec_code() == v,
        MemoryOpcode::spec_from_u16(v) matches Some(x) ==> x.spec_code() == v,
        AluOpcode::spec_from_u16(v) matches Some(x) ==> x.spec_code() == v,
        IfOpcode::spec_from_u16(v) matches Some(x) ==> x.spec_code() == v,
        OffsetOpcode::spec_from_u16(v) matches Some(x) ==> x.spec_code() == v,
{
}

/// Register numbers in decoded instructions are below 16.
pub open spec fn registers_in_range(i: InstructionFormat) -> bool {
    match i {
        InstructionFormat::Memory(m) => m.register < 16 && match m.address_mode {
            AddressMode::Register(r) | AddressMode::PostIncrement(r, _) | AddressMode::PreDecrement(
                r,
                _,
            ) | AddressMode::Offset(r) => r < 16,
            _ => true,
        },
        InstructionFormat::Alu(a) => a.register < 16 && (a.parameter matches Parameter::Register(
            r,
        ) ==> r < 16),
        InstructionFormat::If(f) => f.register < 16 && (f.parameter matches Parameter::Register(
            r,
        ) ==> r < 16),
        InstructionFormat::Misc(m) => m.p1 < 16 && m.p2 < 16,
        InstructionFormat::Offset(o) => o.offset < 1024,
        InstructionFormat::Error(_) => true,
    }
}

/// Every field the decoder extracts fits its width: register numbers and the
/// two miscellaneous parameters are below 16, offsets below 1024. Words that
/// match no opcode exactly decode as errors carrying the word.
pub proof fn lemma_decoded_fields_in_range(w: u16)
    requires
        w <= 0xACFF,
    ensures
        registers_in_range(spec_decode_instruction(w)),
        spec_decode_instruction(w) matches InstructionFormat::Error(x) ==> x == w,
{
}

/// The immediate parameter is the only one that reads an immediate word, and
/// it is selected by exactly one field value.
pub proof fn lemma_parameter_immediate(w: u16)
    ensures
        (spec_decode_parameter(w) == Parameter::Immediate) <==> (nibble2(w) % 4 == 1 && nibble1(w)
            == 0),
{
}

} // verus!
