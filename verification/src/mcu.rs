//! The emulated core: sixteen 16-bit registers, 64 KiB of RAM, a ROM image,
//! and a cycle-stepped fetch/execute loop.
use std::sync::Arc;
use vstd::prelude::*;

use crate::isa::{
    decode_instruction, spec_decode_instruction, AluOpcode, IfOpcode, InstructionFormat,
    Parameter,
};

verus! {

/// The abstract state of the core.
pub struct McuState {
    pub register: Seq<u16>,
    pub ram: Seq<u8>,
    pub rom: Seq<u8>,
    pub interrupts_disabled: bool,
    pub step_mode: bool,
    pub halted: bool,
    pub skip_flag: bool,
    /// A carry word that no instruction reads or writes: an add with carry
    /// takes its carry from the carry flag of the status register.
    pub carry: u16,
    pub current_inst: InstructionFormat,
    pub current_inst_cycles: i32,
    pub imm16: Option<u16>,
    pub last_inst: InstructionFormat,
    pub cycles: u32,
    pub serial_out: Seq<u8>,
}

/// A core. Register 13 is the status register, 14 the stack pointer and 15
/// the program counter; `rom` holds the program image as bytes.
pub struct MCU {
    pub register: [u16; 16],
    pub ram: [u8; 65536],
    pub rom: Arc<Vec<u8>>,
    pub interrupts_disabled: bool,
    pub step_mode: bool,
    pub halted: bool,
    pub skip_flag: bool,
    /// A carry word that no instruction reads or writes: an add with carry
    /// takes its carry from the carry flag of the status register.
    pub carry: u16,
    pub current_inst: InstructionFormat,
    pub current_inst_cycles: i32,
    pub imm16: Option<u16>,
    pub last_inst: InstructionFormat,
    pub cycles: u32,
    pub serial_out: Vec<u8>,
}

impl View for MCU {
    type V = McuState;

    open spec fn view(&self) -> McuState {
        McuState {
            register: self.register@,
            ram: self.ram@,
            rom: self.rom@,
            interrupts_disabled: self.interrupts_disabled,
            step_mode: self.step_mode,
            halted: self.halted,
            skip_flag: self.skip_flag,
            carry: self.carry,
            current_inst: self.current_inst,
            current_inst_cycles: self.current_inst_cycles,
            imm16: self.imm16,
            last_inst: self.last_inst,
            cycles: self.cycles,
            serial_out: self.serial_out@,
        }
    }
}

/// Little-endian word from two bytes.
pub open spec fn le_word(lo: u8, hi: u8) -> u16 {
    (lo + 256 * hi) as u16
}

proof fn lemma_le_word(lo: u8, hi: u8)
    ensures
        (lo as u16) | ((hi as u16) << 8u16) == le_word(lo, hi),
        ((lo as u16) | ((hi as u16) << 8u16)) & 0xFFu16 == lo,
        ((lo as u16) | ((hi as u16) << 8u16)) >> 8u16 == hi,
{
    assert((lo as u16) | ((hi as u16) << 8u16) == lo + 256 * hi) by (bit_vector);
    assert(((lo as u16) | ((hi as u16) << 8u16)) & 0xFFu16 == lo) by (bit_vector);
    assert(((lo as u16) | ((hi as u16) << 8u16)) >> 8u16 == hi) by (bit_vector);
}

/// Byte `a` of the ROM image; bytes beyond its end read as zero.
pub open spec fn rom_byte(rom: Seq<u8>, a: int) -> u8 {
    if 0 <= a < rom.len() {
        rom[a]
    } else {
        0
    }
}

/// The ROM word at `addr`, the address first rounded down to even.
pub open spec fn rom_word(rom: Seq<u8>, addr: u16) -> u16 {
    let a = addr - addr % 2;
    le_word(rom_byte(rom, a), rom_byte(rom, a + 1))
}

/// `x + y` modulo 2^16.
pub open spec fn wrap_add(x: u16, y: u16) -> u16 {
    ((x + y) % 65536) as u16
}

/// `x - y` modulo 2^16.
pub open spec fn wrap_sub(x: u16, y: u16) -> u16 {
    ((x - y + 65536) % 65536) as u16
}

/// The two's-complement value of a 16-bit word.
pub open spec fn signed16(x: u16) -> int {
    if x < 0x8000 {
        x as int
    } else {
        x - 0x10000
    }
}

/// A byte sign-extended to 16 bits.
pub open spec fn sign_extend(b: u8) -> u16 {
    if b < 128 {
        b as u16
    } else {
        (b + 0xFF00) as u16
    }
}

proof fn lemma_signed16(x: u16)
    ensures
        (x as i16) as int == signed16(x),
{
    assert(x < 0x8000 ==> (x as i16) as int == x as int) by (bit_vector);
    assert(x >= 0x8000 ==> (x as i16) as int == x as int - 0x10000) by (bit_vector);
}

proof fn lemma_sign_extend(b: u8)
    ensures
        ((b as i8) as u16) == sign_extend(b),
{
    assert(b < 128 ==> ((b as i8) as u16) == b as u16) by (bit_vector);
    assert(b >= 128 ==> ((b as i8) as u16) == b as u16 + 0xFF00u16) by (bit_vector);
}

/// The RAM byte a load sees: the top 4 KiB, `0xF000..=0xFFFF`, read as zero.
pub open spec fn ram_read_byte(ram: Seq<u8>, addr: u16) -> u8 {
    if addr >= 0xF000 {
        0
    } else {
        ram[addr as int]
    }
}

/// What a RAM load at `addr` yields: a byte, zero- or sign-extended, or a
/// little-endian word whose high byte is at `addr + 1` (wrapping).
pub open spec fn ram_load(ram: Seq<u8>, addr: u16, byte_mode: bool, signed: bool) -> u16 {
    let raw = ram_read_byte(ram, addr);
    if byte_mode {
        if signed {
            sign_extend(raw)
        } else {
            raw as u16
        }
    } else {
        le_word(raw, ram_read_byte(ram, wrap_add(addr, 1)))
    }
}

/// What a ROM load at `addr` yields: the byte at `addr` of the aligned word,
/// zero- or sign-extended, or the aligned word itself.
pub open spec fn rom_load(rom: Seq<u8>, addr: u16, byte_mode: bool, signed: bool) -> u16 {
    let raw = rom_word(rom, addr);
    if byte_mode {
        let value: u8 = if addr % 2 != 0 {
            (raw / 256) as u8
        } else {
            (raw % 256) as u8
        };
        if signed {
            sign_extend(value)
        } else {
            value as u16
        }
    } else {
        raw
    }
}

/// The new status word after `set_flags`: bits 3..0 are overflow, carry,
/// negative and zero; the other bits are kept.
pub open spec fn status_with_flags(st: u16, zero: bool, negative: bool, carry: bool, overflow: bool) -> u16 {
    (st & 0xFFF0) | (if zero { 1u16 } else { 0u16 }) | (if negative { 2u16 } else { 0u16 }) | (
    if carry {
        4u16
    } else {
        0u16
    }) | (if overflow { 8u16 } else { 0u16 })
}

/// Whether the status bit selected by `mask` is set.
pub open spec fn flag_is_set(st: u16, mask: u16) -> bool {
    st & mask != 0
}

/// The result of an implemented ALU operation; `carry` is the incoming carry
/// flag as 0 or 1.
pub open spec fn spec_alu_result(op: AluOpcode, r: u16, p: u16, carry: u16) -> u16 {
    match op {
        AluOpcode::ADD => wrap_add(r, p),
        AluOpcode::ADDC => wrap_add(wrap_add(r, p), carry),
        AluOpcode::SUB => wrap_sub(r, p),
        AluOpcode::MOV => p,
        AluOpcode::AND => r & p,
        AluOpcode::OR => r | p,
        AluOpcode::XOR => r ^ p,
        AluOpcode::BCL => r & !p,
        _ => r,
    }
}

/// Whether a word is negative as a signed value (bit 15 set).
pub open spec fn sign_bit(x: u16) -> bool {
    x >= 0x8000
}

/// The two-operand overflow rule: both operands have the same sign and the
/// result has the other one.
pub open spec fn two_operand_overflow(a: u16, b: u16, res: u16) -> bool {
    sign_bit(a) == sign_bit(b) && sign_bit(a) != sign_bit(res)
}

/// The status word after an ALU operation on `r` and `p` with incoming carry
/// `carry`. All operations set zero and negative from the result. Addition
/// and subtraction set carry when the result lost bits past 16 (a borrow for
/// subtraction) and overflow by the two-operand rule; the bitwise operations
/// clear carry and overflow; a move keeps them.
pub open spec fn alu_status(op: AluOpcode, st: u16, r: u16, p: u16, carry: u16) -> u16 {
    let res = spec_alu_result(op, r, p, carry);
    let zero = res == 0;
    let negative = sign_bit(res);
    match op {
        AluOpcode::ADD => status_with_flags(st, zero, negative, r + p > 0xFFFF, two_operand_overflow(r, p, res)),
        AluOpcode::ADDC => status_with_flags(
            st,
            zero,
            negative,
            r + p + carry > 0xFFFF,
            two_operand_overflow(r, p, res),
        ),
        AluOpcode::SUB => status_with_flags(st, zero, negative, r < p, two_operand_overflow(r, p, res)),
        AluOpcode::MOV => status_with_flags(st, zero, negative, flag_is_set(st, 0x0004), flag_is_set(st, 0x0008)),
        _ => status_with_flags(st, zero, negative, false, false),
    }
}

/// The ALU operations that the core executes; the others are not built yet.
pub open spec fn alu_implemented(op: AluOpcode) -> bool {
    match op {
        AluOpcode::ADD | AluOpcode::ADDC | AluOpcode::SUB | AluOpcode::MOV | AluOpcode::AND
        | AluOpcode::OR | AluOpcode::XOR | AluOpcode::BCL => true,
        _ => false,
    }
}

/// The condition a conditional instruction tests; it becomes the skip flag.
/// `L`/`G` compare as signed words, `B`/`A` as unsigned.
pub open spec fn spec_if_holds(op: IfOpcode, r: u16, p: u16) -> bool {
    match op {
        IfOpcode::IFE => r == p,
        IfOpcode::IFNE => r != p,
        IfOpcode::IFL => signed16(r) < signed16(p),
        IfOpcode::IFLE => signed16(r) <= signed16(p),
        IfOpcode::IFG => signed16(r) > signed16(p),
        IfOpcode::IFGE => signed16(r) >= signed16(p),
        IfOpcode::IFB => r < p,
        IfOpcode::IFBE => r <= p,
        IfOpcode::IFA => r > p,
        IfOpcode::IFAE => r >= p,
    }
}

impl McuState {
    /// The shape every core state has: sixteen registers and 64 KiB of RAM.
    pub open spec fn wf(self) -> bool {
        &&& self.register.len() == 16
        &&& self.ram.len() == 65536
    }

    pub open spec fn pc(self) -> u16 {
        self.register[15]
    }

    pub open spec fn sp(self) -> u16 {
        self.register[14]
    }

    pub open spec fn status(self) -> u16 {
        self.register[13]
    }

    /// The state with register `i` set to `v`.
    pub open spec fn with_register(self, i: int, v: u16) -> McuState {
        McuState { register: self.register.update(i, v), ..self }
    }

    /// The ROM word the program counter points at.
    pub open spec fn fetched_word(self) -> u16 {
        rom_word(self.rom, self.pc())
    }

    /// The state after the program counter moved past one word.
    pub open spec fn after_fetch(self) -> McuState {
        self.with_register(15, wrap_add(self.pc(), 2))
    }

    /// The word at the top of the stack.
    pub open spec fn stack_top(self) -> u16 {
        le_word(self.ram[self.sp() as int], self.ram[self.sp() + 1])
    }

    /// The state after a pop: the stack pointer moved up one word.
    pub open spec fn after_pop(self) -> McuState {
        self.with_register(14, wrap_add(self.sp(), 2))
    }

    /// The state after pushing `v`: the stack pointer moved down one word
    /// and the word stored there, low byte first.
    pub open spec fn after_push(self, v: u16) -> McuState {
        let sp = wrap_sub(self.sp(), 2);
        McuState {
            register: self.register.update(14, sp),
            ram: self.ram.update(sp as int, (v % 256) as u8).update(sp + 1, (v / 256) as u8),
            ..self
        }
    }

    /// The state after storing one byte; see [`MCU::write_ram_byte`].
    pub open spec fn after_write_ram_byte(self, addr: u16, value: u8) -> McuState {
        if addr == 0xFFFF {
            McuState { serial_out: self.serial_out.push(value), ..self }
        } else if addr >= 0xF000 {
            self
        } else {
            McuState { ram: self.ram.update(addr as int, value), ..self }
        }
    }

    /// The state after storing a byte or a word; see [`MCU::write_ram`].
    pub open spec fn after_write_ram(self, addr: u16, value: u16, byte_mode: bool) -> McuState {
        let first = self.after_write_ram_byte(addr, (value % 256) as u8);
        if byte_mode {
            first
        } else {
            first.after_write_ram_byte(wrap_add(addr, 1), (value / 256) as u8)
        }
    }

    /// Whether the operand can be read: a register that exists, or an
    /// immediate word that was fetched.
    pub open spec fn param_defined(self, p: Parameter) -> bool {
        match p {
            Parameter::Register(ri) => ri < 16,
            Parameter::Immediate => self.imm16 is Some,
            Parameter::Value(_) => true,
        }
    }

    /// What reading register `i` gives: register 0 always reads 0.
    pub open spec fn reg_value(self, i: int) -> u16 {
        if i == 0 {
            0
        } else {
            self.register[i]
        }
    }

    /// The register file after writing `v` to register `i`; writes to
    /// register 0 do nothing.
    pub open spec fn written(self, i: int, v: u16) -> Seq<u16> {
        if i == 0 {
            self.register
        } else {
            self.register.update(i, v)
        }
    }

    /// The incoming carry of an add with carry: the carry flag as 0 or 1.
    pub open spec fn carry_in(self) -> u16 {
        if flag_is_set(self.status(), 0x0004) {
            1
        } else {
            0
        }
    }

    /// The operand's value.
    pub open spec fn param_value(self, p: Parameter) -> u16 {
        match p {
            Parameter::Register(ri) => self.reg_value(ri as int),
            Parameter::Immediate => self.imm16->0,
            Parameter::Value(v) => v,
        }
    }

    /// Whether `execute_current_instruction` is defined here: the cycle count
    /// can be decremented, and if the instruction completes, it is an
    /// implemented ALU operation or a conditional with its operands present.
    pub open spec fn execute_defined(self) -> bool {
        &&& self.current_inst_cycles > i32::MIN
        &&& (self.current_inst_cycles - 1 > 0 || match self.current_inst {
            InstructionFormat::Alu(a) => alu_implemented(a.opcode) && a.register < 16
                && self.param_defined(a.parameter),
            InstructionFormat::If(i) => i.register < 16 && self.param_defined(i.parameter),
            _ => false,
        })
    }

    /// The state after the ALU operation `a` wrote its register and the
    /// status flags.
    pub open spec fn alu_done(self, a: crate::isa::Alu) -> McuState {
        let r = self.reg_value(a.register as int);
        let p = self.param_value(a.parameter);
        let res = spec_alu_result(a.opcode, r, p, self.carry_in());
        let regs = self.written(a.register as int, res);
        McuState { register: regs.update(13, alu_status(a.opcode, regs[13], r, p, self.carry_in())), ..self }
    }

    /// The state after `execute_current_instruction`.
    pub open spec fn executed(self) -> McuState {
        let s = McuState { current_inst_cycles: (self.current_inst_cycles - 1) as i32, ..self };
        if s.current_inst_cycles > 0 {
            s
        } else {
            match s.current_inst {
                InstructionFormat::Alu(a) => McuState { last_inst: s.current_inst, ..s.alu_done(a) },
                InstructionFormat::If(i) => McuState {
                    skip_flag: spec_if_holds(
                        i.opcode,
                        s.reg_value(i.register as int),
                        s.param_value(i.parameter),
                    ),
                    last_inst: s.current_inst,
                    ..s
                },
                _ => s,
            }
        }
    }

    /// The state after the immediate word, if the instruction needs one and
    /// has none yet, has been fetched.
    pub open spec fn with_immediate(self) -> McuState {
        if self.current_inst.spec_has_immediate_value() && self.imm16 is None {
            McuState { imm16: Some(self.fetched_word()), ..self.after_fetch() }
        } else {
            self
        }
    }

    /// The state right after a new instruction word was fetched and decoded.
    pub open spec fn decoded(self) -> McuState {
        McuState {
            current_inst: spec_decode_instruction(self.fetched_word()),
            ..self.after_fetch()
        }
    }

    /// A skipped instruction: its immediate word is stepped over, and the skip
    /// flag is cleared unless the instruction is a conditional.
    pub open spec fn skipped(self) -> McuState {
        let s = if self.current_inst.spec_has_immediate_value() {
            self.after_fetch()
        } else {
            self
        };
        McuState {
            current_inst_cycles: 0,
            skip_flag: if self.current_inst.spec_resets_skip_flag() {
                false
            } else {
                s.skip_flag
            },
            ..s
        }
    }

    /// A freshly decoded instruction that is not skipped starts its cycles.
    pub open spec fn started(self) -> McuState {
        McuState {
            current_inst_cycles: self.current_inst.spec_cycles(),
            imm16: None,
            ..self
        }
    }

    /// Whether `run_one_cycle` is defined from this state: the fetched word
    /// has a format, and what is then executed is defined.
    pub open spec fn cycle_defined(self) -> bool {
        if self.halted {
            true
        } else if self.current_inst_cycles == 0 {
            &&& self.fetched_word() <= 0xACFF
            &&& (self.decoded().skip_flag || self.decoded().current_inst.spec_has_immediate_value()
                || self.decoded().started().execute_defined())
        } else {
            self.with_immediate().execute_defined()
        }
    }

    /// The state after one clock cycle.
    pub open spec fn cycle(self) -> McuState {
        if self.halted {
            self
        } else if self.current_inst_cycles == 0 {
            let d = self.decoded();
            if d.skip_flag {
                d.skipped()
            } else if d.current_inst.spec_has_immediate_value() {
                d.started()
            } else {
                d.started().executed()
            }
        } else {
            self.with_immediate().executed()
        }
    }
}

/// Computes [`spec_alu_result`].
fn alu_value(op: AluOpcode, r: u16, p: u16, cin: u16) -> (res: u16)
    requires
        cin <= 1,
    ensures
        res == spec_alu_result(op, r, p, cin),
{
    match op {
        AluOpcode::ADD => r.wrapping_add(p),
        AluOpcode::ADDC => r.wrapping_add(p).wrapping_add(cin),
        AluOpcode::SUB => r.wrapping_sub(p),
        AluOpcode::MOV => p,
        AluOpcode::AND => r & p,
        AluOpcode::OR => r | p,
        AluOpcode::XOR => r ^ p,
        AluOpcode::BCL => r & !p,
        _ => r,
    }
}

/// Computes [`status_with_flags`].
fn status_word(st: u16, zero: bool, negative: bool, carry: bool, overflow: bool) -> (r: u16)
    ensures
        r == status_with_flags(st, zero, negative, carry, overflow),
{
    let z: u16 = if zero {
        0x0001
    } else {
        0
    };
    let n: u16 = if negative {
        0x0002
    } else {
        0
    };
    let c: u16 = if carry {
        0x0004
    } else {
        0
    };
    let o: u16 = if overflow {
        0x0008
    } else {
        0
    };
    (st & 0xFFF0) | z | n | c | o
}

/// Computes [`alu_status`].
fn alu_status_word(op: AluOpcode, st: u16, r: u16, p: u16, cin: u16) -> (res: u16)
    requires
        cin <= 1,
    ensures
        res == alu_status(op, st, r, p, cin),
{
    let result: u16 = alu_value(op, r, p, cin);
    let zero: bool = result == 0;
    let negative: bool = result >= 0x8000;
    let overflow: bool = (r >= 0x8000) == (p >= 0x8000) && (r >= 0x8000) != negative;
    let wide: u32 = r as u32 + p as u32;
    match op {
        AluOpcode::ADD => status_word(st, zero, negative, wide > 0xFFFF, overflow),
        AluOpcode::ADDC => status_word(st, zero, negative, wide + cin as u32 > 0xFFFF, overflow),
        AluOpcode::SUB => status_word(st, zero, negative, r < p, overflow),
        AluOpcode::MOV => status_word(st, zero, negative, st & 0x0004 != 0, st & 0x0008 != 0),
        _ => status_word(st, zero, negative, false, false),
    }
}

impl MCU {
    /// A core with cleared registers and RAM, the stack pointer at `0xF000`,
    /// and the given ROM image.
    pub fn new(program: Arc<Vec<u8>>) -> (r: Self)
        ensures
            r@.register == seq![0u16, 0, 0, 0, 0, 0, 0, 0, 0, 0, 0, 0, 0, 0, 0xF000, 0],
            r@.ram == Seq::new(65536, |i: int| 0u8),
            r@.rom == program@,
            !r@.interrupts_disabled,
            !r@.step_mode,
            !r@.halted,
            !r@.skip_flag,
            r@.carry == 0,
            r@.cycles == 0,
            r@.current_inst == InstructionFormat::spec_trap(),
            r@.current_inst_cycles == 0,
            r@.imm16 == None::<u16>,
            r@.last_inst == InstructionFormat::spec_trap(),
            r@.serial_out == Seq::<u8>::empty(),
    {
        let r = MCU {
            register: [0, 0, 0, 0, 0, 0, 0, 0, 0, 0, 0, 0, 0, 0, 0xF000, 0],
            ram: [0u8; 65536],
            rom: program,
            interrupts_disabled: false,
            step_mode: false,
            halted: false,
            skip_flag: false,
            carry: 0,
            cycles: 0,
            current_inst: InstructionFormat::trap(),
            current_inst_cycles: 0,
            imm16: None,
            last_inst: InstructionFormat::trap(),
            serial_out: Vec::new(),
        };
        assert(r@.register == seq![0u16, 0, 0, 0, 0, 0, 0, 0, 0, 0, 0, 0, 0, 0, 0xF000, 0]);
        assert(r@.ram == Seq::new(65536, |i: int| 0u8));
        r
    }

    /// Pops a little-endian word off the stack. The stack pointer must not be
    /// `0xFFFF`, where the word would run past the end of RAM.
    pub fn pop(&mut self) -> (v: u16)
        requires
            old(self)@.sp() != 0xFFFF,
        ensures
            v == old(self)@.stack_top(),
            final(self)@ == old(self)@.after_pop(),
    {
        let sp: usize = self.register[14] as usize;
        let lo: u8 = self.ram[sp];
        let hi: u8 = self.ram[sp + 1];
        proof {
            lemma_le_word(lo, hi);
        }
        let v: u16 = lo as u16 | (hi as u16) << 8;
        self.register[14] = self.register[14].wrapping_add(2);
        v
    }

    /// Pushes a word, low byte first, below the stack pointer. The stack
    /// pointer must not be 1, where the high byte would land past RAM.
    pub fn push(&mut self, v: u16)
        requires
            old(self)@.sp() != 1,
        ensures
            final(self)@ == old(self)@.after_push(v),
    {
        self.register[14] = self.register[14].wrapping_sub(2);
        let lo: u8 = (v & 0xFF) as u8;
        let hi: u8 = (v >> 8) as u8;
        assert(v & 0xFFu16 == v % 256) by (bit_vector);
        assert(v >> 8u16 == v / 256) by (bit_vector);
        let sp: usize = self.register[14] as usize;
        self.ram[sp] = lo;
        self.ram[sp + 1] = hi;
    }

    pub fn sp(&self) -> (r: u16)
        ensures
            r == self@.sp(),
    {
        self.register[14]
    }

    /// Returns the program counter and advances it by one word.
    pub fn postincrement_pc(&mut self) -> (r: u16)
        ensures
            r == old(self)@.pc(),
            final(self)@ == old(self)@.after_fetch(),
    {
        let pc: u16 = self.register[15];
        self.register[15] = pc.wrapping_add(2);
        pc
    }

    pub fn set_pc(&mut self, addr: u16)
        ensures
            final(self)@ == old(self)@.with_register(15, addr),
    {
        self.register[15] = addr;
    }

    pub fn pc(&self) -> (r: u16)
        ensures
            r == self@.pc(),
    {
        self.register[15]
    }

    /// Reads the ROM word at the program counter and advances past it.
    pub fn fetch_next_rom_word(&mut self) -> (r: u16)
        ensures
            r == old(self)@.fetched_word(),
            final(self)@ == old(self)@.after_fetch(),
    {
        let addr: u16 = self.postincrement_pc();
        self.read_rom(addr)
    }

    /// Reads the ROM word at `addr`, rounded down to an even address; bytes
    /// past the end of the image read as zero.
    pub fn read_rom(&self, addr: u16) -> (r: u16)
        ensures
            r == rom_word(self.rom@, addr),
    {
        let mut aligned: u16 = addr;
        if addr % 2 != 0 {
            aligned &= 0xFFFE;
        }
        assert(addr % 2 != 0 ==> addr & 0xFFFEu16 == addr - addr % 2) by (bit_vector);
        let a: usize = aligned as usize;
        let lo: u8 = if a < self.rom.len() {
            self.rom[a]
        } else {
            0
        };
        let hi: u8 = if a + 1 < self.rom.len() {
            self.rom[a + 1]
        } else {
            0
        };
        proof {
            lemma_le_word(lo, hi);
        }
        lo as u16 | (hi as u16) << 8
    }

    /// Runs one clock cycle: with no instruction in flight, fetches and
    /// decodes the next word (a pending skip discards it, with its immediate
    /// word); otherwise fetches a missing immediate word and executes. Does
    /// nothing while halted.
    pub fn run_one_cycle(&mut self)
        requires
            old(self)@.cycle_defined(),
        ensures
            final(self)@ == old(self)@.cycle(),
    {
        if self.halted {
            return;
        }
        if self.current_inst_cycles == 0 {
            let word: u16 = self.fetch_next_rom_word();
            self.current_inst = decode_instruction(word);
            if self.skip_flag {
                if self.current_inst.has_immediate_value() {
                    self.fetch_next_rom_word();
                }
                self.current_inst_cycles = 0;
                if self.current_inst.resets_skip_flag() {
                    self.skip_flag = false;
                }
                return;
            }
            self.current_inst_cycles = self.current_inst.cycles();
            self.imm16 = None;
            if self.current_inst.has_immediate_value() {
                return;
            } else {
                self.execute_current_instruction();
            }
        } else {
            if self.current_inst.has_immediate_value() && self.imm16.is_none() {
                let w: u16 = self.fetch_next_rom_word();
                self.imm16 = Some(w);
            }
            self.execute_current_instruction();
        }
    }

    /// Whether the next clock cycle is defined; see [`McuState::cycle_defined`].
    pub fn next_cycle_defined(&self) -> (r: bool)
        ensures
            r == self@.cycle_defined(),
    {
        if self.halted {
            return true;
        }
        if self.current_inst_cycles == 0 {
            let word: u16 = self.read_rom(self.register[15]);
            if word > 0xACFF {
                return false;
            }
            let inst = decode_instruction(word);
            if self.skip_flag || inst.has_immediate_value() {
                return true;
            }
            let cycles: i32 = inst.cycles();
            Self::execute_defined_for(
                inst,
                cycles,
                None,
                Ghost(self@.decoded().started()),
            )
        } else {
            let imm: Option<u16> = if self.current_inst.has_immediate_value()
                && self.imm16.is_none() {
                Some(self.read_rom(self.register[15]))
            } else {
                self.imm16
            };
            Self::execute_defined_for(
                self.current_inst,
                self.current_inst_cycles,
                imm,
                Ghost(self@.with_immediate()),
            )
        }
    }

    fn execute_defined_for(
        inst: InstructionFormat,
        cycles: i32,
        imm16: Option<u16>,
        Ghost(s): Ghost<McuState>,
    ) -> (r: bool)
        requires
            s.current_inst == inst,
            s.current_inst_cycles == cycles,
            s.imm16 == imm16,
        ensures
            r == s.execute_defined(),
    {
        if cycles == i32::MIN {
            return false;
        }
        if cycles - 1 > 0 {
            return true;
        }
        match inst {
            InstructionFormat::Alu(a) => {
                let implemented: bool = match a.opcode {
                    AluOpcode::ADD | AluOpcode::ADDC | AluOpcode::SUB | AluOpcode::MOV
                    | AluOpcode::AND | AluOpcode::OR | AluOpcode::XOR | AluOpcode::BCL => true,
                    _ => false,
                };
                implemented && a.register < 16 && Self::param_defined_for(
                    a.parameter,
                    imm16,
                    Ghost(s),
                )
            },
            InstructionFormat::If(i) => i.register < 16 && Self::param_defined_for(
                i.parameter,
                imm16,
                Ghost(s),
            ),
            _ => false,
        }
    }

    fn param_defined_for(p: Parameter, imm16: Option<u16>, Ghost(s): Ghost<McuState>) -> (r: bool)
        requires
            s.imm16 == imm16,
        ensures
            r == s.param_defined(p),
    {
        match p {
            Parameter::Register(ri) => ri < 16,
            Parameter::Immediate => imm16.is_some(),
            Parameter::Value(_) => true,
        }
    }

    /// Runs one clock cycle if it is defined, and reports whether it ran; an
    /// undefined cycle leaves the core unchanged.
    pub fn try_run_one_cycle(&mut self) -> (ran: bool)
        ensures
            ran == old(self)@.cycle_defined(),
            ran ==> final(self)@ == old(self)@.cycle(),
            !ran ==> final(self)@ == old(self)@,
    {
        if self.next_cycle_defined() {
            self.run_one_cycle();
            true
        } else {
            false
        }
    }

    /// Reads a register; register 0 always reads 0.
    pub fn read_register(&self, i: usize) -> (r: u16)
        requires
            i < 16,
        ensures
            r == self@.reg_value(i as int),
    {
        if i == 0 {
            0
        } else {
            self.register[i]
        }
    }

    fn parameter_value(&self, p: Parameter) -> (r: u16)
        requires
            self@.param_defined(p),
        ensures
            r == self@.param_value(p),
    {
        match p {
            Parameter::Register(ri) => self.read_register(ri),
            Parameter::Immediate => self.imm16.unwrap(),
            Parameter::Value(v) => v,
        }
    }

    /// Performs the ALU operation `alu`: writes the result (register 0
    /// ignores writes) and sets the flags.
    fn execute_alu(&mut self, alu: crate::isa::Alu)
        requires
            alu_implemented(alu.opcode),
            alu.register < 16,
            old(self)@.param_defined(alu.parameter),
        ensures
            final(self)@ == old(self)@.alu_done(alu),
    {
        let p: u16 = self.parameter_value(alu.parameter);
        let r: u16 = self.read_register(alu.register);
        let cin: u16 = if self.is_carry_flag_set() {
            1
        } else {
            0
        };
        let result: u16 = alu_value(alu.opcode, r, p, cin);
        if alu.register != 0 {
            self.register[alu.register] = result;
        }
        let st: u16 = self.register[13];
        self.register[13] = alu_status_word(alu.opcode, st, r, p, cin);
    }

    /// Counts down the cycles of the current instruction and, on its last
    /// cycle, performs it: an ALU operation writes its register (register 0
    /// ignores writes) and sets the flags, a conditional
    /// sets the skip flag.
    pub fn execute_current_instruction(&mut self)
        requires
            old(self)@.execute_defined(),
        ensures
            final(self)@ == old(self)@.executed(),
    {
        self.current_inst_cycles -= 1;
        if self.current_inst_cycles > 0 {
            return;
        }
        let inst = self.current_inst;
        match inst {
            InstructionFormat::Alu(alu) => {
                self.execute_alu(alu);
            },
            InstructionFormat::If(iff) => {
                let p: u16 = self.parameter_value(iff.parameter);
                let r: u16 = self.read_register(iff.register);
                proof {
                    lemma_signed16(r);
                    lemma_signed16(p);
                }
                self.skip_flag = match iff.opcode {
                    IfOpcode::IFE => r == p,
                    IfOpcode::IFNE => r != p,
                    IfOpcode::IFL => (r as i16) < (p as i16),
                    IfOpcode::IFLE => (r as i16) <= (p as i16),
                    IfOpcode::IFG => (r as i16) > (p as i16),
                    IfOpcode::IFGE => (r as i16) >= (p as i16),
                    IfOpcode::IFB => r < p,
                    IfOpcode::IFBE => r <= p,
                    IfOpcode::IFA => r > p,
                    IfOpcode::IFAE => r >= p,
                };
            },
            _ => {},
        }
        self.last_inst = self.current_inst;
    }

    /// Loads from RAM; see [`ram_load`].
    pub fn load_from_ram(&self, addr: u16, byte_mode: bool, signed: bool) -> (r: u16)
        ensures
            r == ram_load(self.ram@, addr, byte_mode, signed),
    {
        let raw: u8 = self.read_ram_byte(addr);
        if byte_mode {
            if signed {
                proof {
                    lemma_sign_extend(raw);
                }
                raw as i8 as u16
            } else {
                raw as u16
            }
        } else {
            let hi: u8 = self.read_ram_byte(addr.wrapping_add(1));
            proof {
                lemma_le_word(raw, hi);
            }
            raw as u16 | (hi as u16) << 8
        }
    }

    pub fn read_ram_byte(&self, addr: u16) -> (r: u8)
        ensures
            r == ram_read_byte(self.ram@, addr),
    {
        if addr >= 0xF000 {
            0
        } else {
            self.ram[addr as usize]
        }
    }

    /// Stores the low byte, and in word mode the high byte at `addr + 1`.
    pub fn write_ram(&mut self, addr: u16, value: u16, byte_mode: bool)
        ensures
            final(self)@ == old(self)@.after_write_ram(addr, value, byte_mode),
    {
        let lo: u8 = (value & 0xFF) as u8;
        let hi: u8 = (value >> 8) as u8;
        assert(value & 0xFFu16 == value % 256) by (bit_vector);
        assert(value >> 8u16 == value / 256) by (bit_vector);
        if byte_mode {
            self.write_ram_byte(addr, lo);
        } else {
            self.write_ram_byte(addr, lo);
            self.write_ram_byte(addr.wrapping_add(1), hi);
        }
    }

    /// Stores one byte: `0xFFFF` is the serial port, which appends the byte to
    /// the serial output; the rest of `0xF000..=0xFFFF` ignores writes.
    pub fn write_ram_byte(&mut self, addr: u16, value: u8)
        ensures
            final(self)@ == old(self)@.after_write_ram_byte(addr, value),
    {
        if addr == 0xFFFF {
            self.serial_out.push(value);
        } else if addr >= 0xF000 {
        } else {
            self.ram[addr as usize] = value;
        }
    }

    /// Loads from ROM; see [`rom_load`].
    pub fn load_from_rom(&self, addr: u16, byte_mode: bool, signed: bool) -> (r: u16)
        ensures
            r == rom_load(self.rom@, addr, byte_mode, signed),
    {
        let raw: u16 = self.read_rom(addr);
        if byte_mode {
            assert(raw >> 8u16 == raw / 256) by (bit_vector);
            assert(raw & 0x00FFu16 == raw % 256) by (bit_vector);
            assert(addr & 0x0001u16 == addr % 2) by (bit_vector);
            let value: u8 = if addr & 0x0001 != 0 {
                raw >> 8
            } else {
                raw & 0x00FF
            } as u8;
            if signed {
                proof {
                    lemma_sign_extend(value);
                }
                value as i8 as u16
            } else {
                value as u16
            }
        } else {
            raw
        }
    }

    /// Sets the four arithmetic flags in the status register.
    pub fn set_flags(&mut self, zero: bool, negative: bool, carry: bool, overflow: bool)
        ensures
            final(self)@ == old(self)@.with_register(
                13,
                status_with_flags(old(self)@.status(), zero, negative, carry, overflow),
            ),
    {
        let z: u16 = if zero {
            0x0001
        } else {
            0
        };
        let n: u16 = if negative {
            0x0002
        } else {
            0
        };
        let c: u16 = if carry {
            0x0004
        } else {
            0
        };
        let o: u16 = if overflow {
            0x0008
        } else {
            0
        };
        let st: u16 = self.register[13] & 0xFFF0;
        self.register[13] = st | z | n | c | o;
    }

    /// Sets zero and negative from a written value; carry and overflow keep
    /// their state.
    pub fn set_flags_on_write(&mut self, value: u16)
        ensures
            final(self)@ == old(self)@.with_register(
                13,
                status_with_flags(
                    old(self)@.status(),
                    value == 0,
                    value & 0x8000 != 0,
                    flag_is_set(old(self)@.status(), 0x0004),
                    flag_is_set(old(self)@.status(), 0x0008),
                ),
            ),
    {
        let carry: bool = self.is_carry_flag_set();
        let overflow: bool = self.is_overflow_flag_set();
        self.set_flags(value == 0, value & 0x8000 != 0, carry, overflow);
    }

    pub fn is_halted(&self) -> (r: bool)
        ensures
            r == flag_is_set(self@.status(), 0x0040),
    {
        self.register[13] & 0x0040 != 0
    }

    pub fn set_halted(&mut self)
        ensures
            final(self)@ == old(self)@.with_register(13, old(self)@.status() | 0x0040),
    {
        self.register[13] |= 0x0040;
    }

    pub fn unset_halted(&mut self)
        ensures
            final(self)@ == old(self)@.with_register(13, old(self)@.status() & !0x0040u16),
    {
        self.register[13] &= !0x0040;
    }

    pub fn is_dbg_flag_set(&self) -> (r: bool)
        ensures
            r == flag_is_set(self@.status(), 0x0020),
    {
        self.register[13] & 0x0020 != 0
    }

    pub fn set_dbg_flag(&mut self)
        ensures
            final(self)@ == old(self)@.with_register(13, old(self)@.status() | 0x0020),
    {
        self.register[13] |= 0x0020;
    }

    pub fn unset_dbg_flag(&mut self)
        ensures
            final(self)@ == old(self)@.with_register(13, old(self)@.status() & !0x0020u16),
    {
        self.register[13] &= !0x0020;
    }

    pub fn is_zero_flag_set(&self) -> (r: bool)
        ensures
            r == flag_is_set(self@.status(), 0x0001),
    {
        self.register[13] & 0x0001 != 0
    }

    pub fn is_negative_flag_set(&self) -> (r: bool)
        ensures
            r == flag_is_set(self@.status(), 0x0002),
    {
        self.register[13] & 0x0002 != 0
    }

    pub fn is_carry_flag_set(&self) -> (r: bool)
        ensures
            r == flag_is_set(self@.status(), 0x0004),
    {
        self.register[13] & 0x0004 != 0
    }

    pub fn is_overflow_flag_set(&self) -> (r: bool)
        ensures
            r == flag_is_set(self@.status(), 0x0008),
    {
        self.register[13] & 0x0008 != 0
    }

    pub fn is_interrupt_request_enabled_flag_set(&self) -> (r: bool)
        ensures
            r == flag_is_set(self@.status(), 0x0010),
    {
        self.register[13] & 0x0010 != 0
    }
}

/// Whether the debug or the halt bit of the status register is set; a free
/// run of the core stops at either.
pub open spec fn run_stopped(s: McuState) -> bool {
    flag_is_set(s.status(), 0x0020) || flag_is_set(s.status(), 0x0040)
}

/// Up to `n` cycles from `s`, stopping after a cycle that sets the debug or
/// halt bit, and before a cycle that is not defined: the state reached,
/// whether every cycle that was due could run, and how many cycles ran.
pub open spec fn burst(s: McuState, n: nat) -> (McuState, bool, nat)
    decreases n,
{
    if n == 0 {
        (s, true, 0)
    } else if !s.cycle_defined() {
        (s, false, 0)
    } else if run_stopped(s.cycle()) {
        (s.cycle(), true, 1)
    } else {
        let b = burst(s.cycle(), (n - 1) as nat);
        (b.0, b.1, b.2 + 1)
    }
}

/// The little-endian words of a byte string of even length.
pub open spec fn le_words(bytes: Seq<u8>) -> Seq<u16> {
    Seq::new(bytes.len() / 2, |i: int| le_word(bytes[2 * i], bytes[2 * i + 1]))
}

/// Pairs bytes into little-endian words; a byte string of odd length has no
/// such reading.
pub fn words_from_le_bytes(bytes: &[u8]) -> (r: Option<Vec<u16>>)
    ensures
        match r {
            Some(v) => bytes@.len() % 2 == 0 && v@ == le_words(bytes@),
            None => bytes@.len() % 2 != 0,
        },
{
    if bytes.len() % 2 != 0 {
        return None;
    }
    let mut out: Vec<u16> = Vec::new();
    let mut i: usize = 0;
    while i < bytes.len() / 2
        invariant
            bytes@.len() % 2 == 0,
            i <= bytes@.len() / 2,
            out@.len() == i,
            forall|k: int| 0 <= k < i ==> out@[k] == le_word(bytes@[2 * k], bytes@[2 * k + 1]),
        decreases bytes@.len() / 2 - i,
    {
        let lo: u8 = bytes[2 * i];
        let hi: u8 = bytes[2 * i + 1];
        proof {
            lemma_le_word(lo, hi);
        }
        out.push(lo as u16 | (hi as u16) << 8);
        i = i + 1;
    }
    assert(out@ =~= le_words(bytes@));
    Some(out)
}

impl MCU {
    /// Runs up to `max` cycles while neither the debug nor the halt bit is
    /// set, checking after each cycle. Returns the number of cycles run, or
    /// `Err` with that number when the next cycle is not defined.
    pub fn run_burst(&mut self, max: u32) -> (r: Result<u32, u32>)
        ensures
            final(self)@ == burst(old(self)@, max as nat).0,
            r is Ok == burst(old(self)@, max as nat).1,
            match r {
                Ok(k) => k as nat == burst(old(self)@, max as nat).2,
                Err(k) => k as nat == burst(old(self)@, max as nat).2,
            },
    {
        let mut k: u32 = 0;
        while k < max
            invariant
                k <= max,
                ({
                    let b = burst(self@, (max - k) as nat);
                    burst(old(self)@, max as nat) == (b.0, b.1, (b.2 + k) as nat)
                }),
            decreases max - k,
        {
            if !self.next_cycle_defined() {
                return Err(k);
            }
            self.run_one_cycle();
            k = k + 1;
            if self.is_dbg_flag_set() || self.is_halted() {
                return Ok(k);
            }
        }
        Ok(k)
    }
}

/// Every state of a core has sixteen registers and 64 KiB of RAM.
pub proof fn lemma_view_wf(m: &MCU)
    ensures
        m@.wf(),
{
}

/// A halted core does nothing on a clock cycle.
pub proof fn lemma_halted_cycle_is_identity(s: McuState)
    requires
        s.halted,
    ensures
        s.cycle_defined(),
        s.cycle() == s,
{
}

/// Popping right after a push gives back the pushed word and restores the
/// stack pointer; nothing but the two stack bytes changes.
pub proof fn lemma_push_then_pop(s: McuState, v: u16)
    requires
        s.wf(),
        s.sp() != 1,
    ensures
        s.after_push(v).sp() != 0xFFFF,
        s.after_push(v).stack_top() == v,
        s.after_push(v).after_pop().register == s.register,
        forall|a: int|
            0 <= a < 65536 && a != wrap_sub(s.sp(), 2) && a != wrap_sub(s.sp(), 2) + 1
                ==> #[trigger] s.after_push(v).ram[a] == s.ram[a],
{
    let t = s.after_push(v);
    let sp = wrap_sub(s.sp(), 2);
    assert(t.register[14] == sp);
    assert(t.ram[sp as int] == (v % 256) as u8);
    assert(t.ram[sp + 1] == (v / 256) as u8);
    assert(((v % 256) as u8) + 256 * ((v / 256) as u8) == v);
    assert(t.after_pop().register =~= s.register);
}

/// A byte written below `0xF000` reads back; a byte written to `0xFFFF` goes
/// to the serial output and leaves RAM as it was; other writes at or above
/// `0xF000` change nothing.
pub proof fn lemma_write_then_read_byte(s: McuState, addr: u16, value: u8)
    requires
        s.wf(),
    ensures
        addr < 0xF000 ==> ram_read_byte(s.after_write_ram_byte(addr, value).ram, addr) == value,
        addr == 0xFFFF ==> s.after_write_ram_byte(addr, value).serial_out == s.serial_out.push(
            value,
        ) && s.after_write_ram_byte(addr, value).ram == s.ram,
        0xF000 <= addr < 0xFFFF ==> s.after_write_ram_byte(addr, value) == s,
        forall|other: u16|
            other != addr ==> #[trigger] ram_read_byte(s.after_write_ram_byte(addr, value).ram, other)
                == ram_read_byte(s.ram, other),
        addr != 0xFFFF ==> s.after_write_ram_byte(addr, value).serial_out == s.serial_out,
{
}

/// A word stored below `0xEFFF` loads back whole; a byte stored below `0xF000`
/// loads back as the low byte of the stored value.
pub proof fn lemma_write_then_load(s: McuState, addr: u16, value: u16, signed: bool)
    requires
        s.wf(),
    ensures
        addr < 0xEFFF ==> ram_load(s.after_write_ram(addr, value, false).ram, addr, false, signed)
            == value,
        addr < 0xF000 ==> ram_load(s.after_write_ram(addr, value, true).ram, addr, true, false)
            == value % 256,
{
    assert(((value % 256) as u8) + 256 * ((value / 256) as u8) == value);
    if addr < 0xEFFF {
        assert(wrap_add(addr, 1) == addr + 1);
    }
}

/// After `set_flags` each of the four arithmetic flags reads as given, and
/// the other status bits are kept.
pub proof fn lemma_set_flags_then_read(st: u16, zero: bool, negative: bool, carry: bool, overflow: bool)
    ensures
        flag_is_set(status_with_flags(st, zero, negative, carry, overflow), 0x0001) == zero,
        flag_is_set(status_with_flags(st, zero, negative, carry, overflow), 0x0002) == negative,
        flag_is_set(status_with_flags(st, zero, negative, carry, overflow), 0x0004) == carry,
        flag_is_set(status_with_flags(st, zero, negative, carry, overflow), 0x0008) == overflow,
        status_with_flags(st, zero, negative, carry, overflow) & 0xFFF0 == st & 0xFFF0,
{
    let z: u16 = if zero { 1u16 } else { 0u16 };
    let n: u16 = if negative { 2u16 } else { 0u16 };
    let c: u16 = if carry { 4u16 } else { 0u16 };
    let o: u16 = if overflow { 8u16 } else { 0u16 };
    let r: u16 = status_with_flags(st, zero, negative, carry, overflow);
    assert(r == (st & 0xFFF0) | z | n | c | o);
    assert(z == 0 || z == 1);
    assert(n == 0 || n == 2);
    assert(c == 0 || c == 4);
    assert(o == 0 || o == 8);
    assert((z == 0 || z == 1) && (n == 0 || n == 2) && (c == 0 || c == 4) && (o == 0 || o == 8) ==> {
        let r = (st & 0xFFF0u16) | z | n | c | o;
        &&& (r & 1u16 != 0) == (z == 1)
        &&& (r & 2u16 != 0) == (n == 2)
        &&& (r & 4u16 != 0) == (c == 4)
        &&& (r & 8u16 != 0) == (o == 8)
        &&& r & 0xFFF0u16 == st & 0xFFF0u16
    }) by (bit_vector);
}

/// Setting a status bit makes it read as set, clearing makes it read as
/// clear, and neither touches the other bits.
pub proof fn lemma_status_bit_set_clear(st: u16, mask: u16)
    requires
        mask == 0x0020 || mask == 0x0040,
    ensures
        flag_is_set(st | mask, mask),
        !flag_is_set(st & !mask, mask),
        (st | mask) & !mask == st & !mask,
        (st & !mask) | (st & mask) == st,
{
    assert(mask == 0x0020u16 || mask == 0x0040u16 ==> {
        &&& (st | mask) & mask != 0
        &&& (st & !mask) & mask == 0
        &&& (st | mask) & !mask == st & !mask
        &&& (st & !mask) | (st & mask) == st
    }) by (bit_vector);
}

/// A skipped instruction other than a conditional clears the skip flag and
/// changes nothing but the program counter, which moves past the instruction
/// and its immediate word.
pub proof fn lemma_skip_changes_only_pc(s: McuState)
    requires
        s.wf(),
        !s.halted,
        s.current_inst_cycles == 0,
        s.skip_flag,
        !(spec_decode_instruction(s.fetched_word()) is If),
    ensures
        s.cycle_defined() <==> s.fetched_word() <= 0xACFF,
        s.cycle().register == s.register.update(
            15,
            if spec_decode_instruction(s.fetched_word()).spec_has_immediate_value() {
                wrap_add(wrap_add(s.pc(), 2), 2)
            } else {
                wrap_add(s.pc(), 2)
            },
        ),
        !s.cycle().skip_flag,
        s.cycle().ram == s.ram,
        s.cycle().serial_out == s.serial_out,
        s.cycle().current_inst_cycles == 0,
{
    let d = s.decoded();
    if d.current_inst.spec_has_immediate_value() {
        assert(s.cycle().register =~= s.register.update(15, wrap_add(wrap_add(s.pc(), 2), 2)));
    } else {
        assert(s.cycle().register =~= s.register.update(15, wrap_add(s.pc(), 2)));
    }
}

/// An instruction without an immediate word completes in the cycle that
/// fetches it: afterwards no instruction is in flight.
pub proof fn lemma_single_cycle_instructions(s: McuState)
    requires
        s.wf(),
        !s.halted,
        s.current_inst_cycles == 0,
        !s.skip_flag,
        s.cycle_defined(),
        !spec_decode_instruction(s.fetched_word()).spec_has_immediate_value(),
    ensures
        s.cycle().current_inst_cycles == 0,
        s.cycle().last_inst == spec_decode_instruction(s.fetched_word()),
{
    crate::isa::lemma_one_cycle(spec_decode_instruction(s.fetched_word()));
}

/// A clock cycle leaves the ROM, the RAM and the serial output as they were,
/// and keeps the shape of the state.
pub proof fn lemma_cycle_keeps_memory(s: McuState)
    requires
        s.wf(),
        s.cycle_defined(),
    ensures
        s.cycle().wf(),
        s.cycle().rom == s.rom,
        s.cycle().ram == s.ram,
        s.cycle().serial_out == s.serial_out,
        s.cycle().cycles == s.cycles,
{
}

/// Subtracting what was added gives the register back, and exclusive-or
/// with the same operand twice does too.
pub proof fn lemma_alu_inverses(r: u16, p: u16, carry: u16)
    ensures
        spec_alu_result(AluOpcode::SUB, spec_alu_result(AluOpcode::ADD, r, p, carry), p, carry) == r,
        spec_alu_result(AluOpcode::XOR, spec_alu_result(AluOpcode::XOR, r, p, carry), p, carry) == r,
        spec_alu_result(AluOpcode::MOV, r, p, carry) == p,
{
    assert((r ^ p) ^ p == r) by (bit_vector);
}

/// Register 0 is the constant zero: it reads as 0 and executing an
/// instruction never changes it.
pub proof fn lemma_register_zero_constant(s: McuState)
    requires
        s.wf(),
        s.execute_defined(),
    ensures
        s.reg_value(0) == 0,
        s.executed().register[0] == s.register[0],
{
}

/// After an ALU operation the zero and negative flags describe the result,
/// carry and overflow follow the table of each operation, and the bits
/// above the four flags are kept.
pub proof fn lemma_alu_flags(op: AluOpcode, st: u16, r: u16, p: u16, carry: u16)
    requires
        alu_implemented(op),
    ensures
        ({
            let res = spec_alu_result(op, r, p, carry);
            let out = alu_status(op, st, r, p, carry);
            &&& flag_is_set(out, 0x0001) == (res == 0)
            &&& flag_is_set(out, 0x0002) == sign_bit(res)
            &&& flag_is_set(out, 0x0004) == match op {
                AluOpcode::ADD => r + p > 0xFFFF,
                AluOpcode::ADDC => r + p + carry > 0xFFFF,
                AluOpcode::SUB => r < p,
                AluOpcode::MOV => flag_is_set(st, 0x0004),
                _ => false,
            }
            &&& flag_is_set(out, 0x0008) == match op {
                AluOpcode::ADD | AluOpcode::ADDC | AluOpcode::SUB => two_operand_overflow(r, p, res),
                AluOpcode::MOV => flag_is_set(st, 0x0008),
                _ => false,
            }
            &&& out & 0xFFF0 == st & 0xFFF0
        }),
{
    let res = spec_alu_result(op, r, p, carry);
    let c = match op {
        AluOpcode::ADD => r + p > 0xFFFF,
        AluOpcode::ADDC => r + p + carry > 0xFFFF,
        AluOpcode::SUB => r < p,
        AluOpcode::MOV => flag_is_set(st, 0x0004),
        _ => false,
    };
    let o = match op {
        AluOpcode::ADD | AluOpcode::ADDC | AluOpcode::SUB => two_operand_overflow(r, p, res),
        AluOpcode::MOV => flag_is_set(st, 0x0008),
        _ => false,
    };
    lemma_set_flags_then_read(st, res == 0, sign_bit(res), c, o);
}

/// An instruction with an immediate word takes two clock cycles: the first
/// fetches and decodes it and executes nothing, the second fetches the
/// immediate word that follows it and executes the instruction with it.
pub proof fn lemma_fetch_then_execute(s: McuState)
    requires
        s.wf(),
        !s.halted,
        !s.skip_flag,
        s.current_inst_cycles == 0,
        spec_decode_instruction(s.fetched_word()).spec_has_immediate_value(),
        spec_decode_instruction(s.fetched_word()).spec_cycles() == 1,
    ensures
        ({
            let p = s.pc();
            let s1 = s.cycle();
            let w = rom_word(s.rom, wrap_add(p, 2));
            let e = McuState { imm16: Some(w), ..s1.after_fetch() };
            &&& s1.pc() == wrap_add(p, 2)
            &&& s1.imm16 is None
            &&& s1.current_inst == spec_decode_instruction(s.fetched_word())
            &&& s1.current_inst_cycles == 1
            &&& s1.register.subrange(0, 15) == s.register.subrange(0, 15)
            &&& s1.ram == s.ram
            &&& s1.serial_out == s.serial_out
            &&& s1.skip_flag == s.skip_flag
            &&& e.pc() == wrap_add(wrap_add(p, 2), 2)
            &&& e.register.subrange(0, 15) == s.register.subrange(0, 15)
            &&& s1.cycle() == e.executed()
            &&& s1.cycle().imm16 == Some(w)
            &&& s1.cycle().current_inst_cycles == 0
        }),
{
    let p = s.pc();
    let s1 = s.cycle();
    let w = rom_word(s.rom, wrap_add(p, 2));
    let e = McuState { imm16: Some(w), ..s1.after_fetch() };
    assert(s1.register.subrange(0, 15) =~= s.register.subrange(0, 15));
    assert(e.register.subrange(0, 15) =~= s.register.subrange(0, 15));
    assert(s1.with_immediate() == e);
}

/// The conditions of the conditional instructions come in complementary
/// pairs, and the signed comparisons are the unsigned ones on words whose
/// sign bit was flipped.
pub proof fn lemma_if_condition_pairs(r: u16, p: u16)
    ensures
        spec_if_holds(IfOpcode::IFE, r, p) == !spec_if_holds(IfOpcode::IFNE, r, p),
        spec_if_holds(IfOpcode::IFL, r, p) == !spec_if_holds(IfOpcode::IFGE, r, p),
        spec_if_holds(IfOpcode::IFG, r, p) == !spec_if_holds(IfOpcode::IFLE, r, p),
        spec_if_holds(IfOpcode::IFB, r, p) == !spec_if_holds(IfOpcode::IFAE, r, p),
        spec_if_holds(IfOpcode::IFA, r, p) == !spec_if_holds(IfOpcode::IFBE, r, p),
        spec_if_holds(IfOpcode::IFL, r, p) == spec_if_holds(IfOpcode::IFB, r ^ 0x8000, p ^ 0x8000),
        spec_if_holds(IfOpcode::IFG, r, p) == spec_if_holds(IfOpcode::IFA, r ^ 0x8000, p ^ 0x8000),
{
    assert(r < 0x8000 ==> r ^ 0x8000 == r + 0x8000) by (bit_vector);
    assert(r >= 0x8000 ==> r ^ 0x8000 == r - 0x8000) by (bit_vector);
    assert(p < 0x8000 ==> p ^ 0x8000 == p + 0x8000) by (bit_vector);
    assert(p >= 0x8000 ==> p ^ 0x8000 == p - 0x8000) by (bit_vector);
}

/// The last cycle of a conditional instruction sets the skip flag to its
/// condition and changes no register, no memory and no output.
pub proof fn lemma_if_sets_only_skip(s: McuState)
    requires
        s.wf(),
        s.current_inst_cycles == 1,
        s.current_inst is If,
    ensures
        ({
            let i = s.current_inst->If_0;
            let e = s.executed();
            &&& e.skip_flag == spec_if_holds(i.opcode, s.reg_value(i.register as int), s.param_value(i.parameter))
            &&& e.register == s.register
            &&& e.ram == s.ram
            &&& e.serial_out == s.serial_out
            &&& e.imm16 == s.imm16
            &&& e.current_inst_cycles == 0
        }),
{
}

/// The comparisons of the conditional instructions: `B`/`A` compare the
/// words as unsigned numbers and `L`/`G` as two's-complement numbers; the
/// strict ones never hold between a word and itself and the others always
/// do; of less, equal and greater exactly one holds; the non-strict ones are
/// the strict ones or equality; and swapping the operands swaps less and
/// greater.
pub proof fn lemma_if_condition_order(r: u16, p: u16)
    ensures
        spec_if_holds(IfOpcode::IFB, r, p) == ((r as nat) < (p as nat)),
        spec_if_holds(IfOpcode::IFA, r, p) == ((r as nat) > (p as nat)),
        spec_if_holds(IfOpcode::IFL, r, p) == ((r as i16) < (p as i16)),
        spec_if_holds(IfOpcode::IFG, r, p) == ((r as i16) > (p as i16)),
        spec_if_holds(IfOpcode::IFE, r, p) == (r == p),
        !spec_if_holds(IfOpcode::IFL, r, r),
        !spec_if_holds(IfOpcode::IFG, r, r),
        !spec_if_holds(IfOpcode::IFB, r, r),
        !spec_if_holds(IfOpcode::IFA, r, r),
        !spec_if_holds(IfOpcode::IFNE, r, r),
        spec_if_holds(IfOpcode::IFE, r, r),
        spec_if_holds(IfOpcode::IFLE, r, r),
        spec_if_holds(IfOpcode::IFGE, r, r),
        spec_if_holds(IfOpcode::IFBE, r, r),
        spec_if_holds(IfOpcode::IFAE, r, r),
        spec_if_holds(IfOpcode::IFL, r, p) as int + spec_if_holds(IfOpcode::IFE, r, p) as int
            + spec_if_holds(IfOpcode::IFG, r, p) as int == 1,
        spec_if_holds(IfOpcode::IFB, r, p) as int + spec_if_holds(IfOpcode::IFE, r, p) as int
            + spec_if_holds(IfOpcode::IFA, r, p) as int == 1,
        spec_if_holds(IfOpcode::IFLE, r, p) == (spec_if_holds(IfOpcode::IFL, r, p) || r == p),
        spec_if_holds(IfOpcode::IFGE, r, p) == (spec_if_holds(IfOpcode::IFG, r, p) || r == p),
        spec_if_holds(IfOpcode::IFBE, r, p) == (spec_if_holds(IfOpcode::IFB, r, p) || r == p),
        spec_if_holds(IfOpcode::IFAE, r, p) == (spec_if_holds(IfOpcode::IFA, r, p) || r == p),
        spec_if_holds(IfOpcode::IFL, r, p) == spec_if_holds(IfOpcode::IFG, p, r),
        spec_if_holds(IfOpcode::IFB, r, p) == spec_if_holds(IfOpcode::IFA, p, r),
{
    lemma_signed16(r);
    lemma_signed16(p);
}

/// What each implemented ALU operation computes, bit by bit or modulo 2^16:
/// an add or subtract wraps around, a move takes the operand, and bit clear
/// clears exactly the bits set in the operand and keeps every other bit.
pub proof fn lemma_alu_results(r: u16, p: u16, carry: u16)
    requires
        carry <= 1,
    ensures
        spec_alu_result(AluOpcode::ADD, r, p, carry) as int == (r + p) % 0x10000,
        spec_alu_result(AluOpcode::ADDC, r, p, carry) as int == (r + p + carry) % 0x10000,
        (spec_alu_result(AluOpcode::SUB, r, p, carry) + p) % 0x10000 == r as int,
        spec_alu_result(AluOpcode::MOV, r, p, carry) == p,
        spec_alu_result(AluOpcode::BCL, r, p, carry) & p == 0,
        spec_alu_result(AluOpcode::BCL, r, p, carry) & !p == r & !p,
        spec_alu_result(AluOpcode::AND, r, p, carry) & !p == 0,
        spec_alu_result(AluOpcode::AND, r, p, carry) & p == r & p,
        spec_alu_result(AluOpcode::OR, r, p, carry) & p == p,
        spec_alu_result(AluOpcode::OR, r, p, carry) & !p == r & !p,
        spec_alu_result(AluOpcode::XOR, r, p, carry) & !p == r & !p,
        spec_alu_result(AluOpcode::XOR, r, p, carry) & p == !r & p,
{
    let bcl = spec_alu_result(AluOpcode::BCL, r, p, carry);
    let and = spec_alu_result(AluOpcode::AND, r, p, carry);
    let or = spec_alu_result(AluOpcode::OR, r, p, carry);
    let xor = spec_alu_result(AluOpcode::XOR, r, p, carry);
    assert(bcl == r & !p);
    assert(and == r & p);
    assert(or == r | p);
    assert(xor == r ^ p);
    assert(((r & !p) & p == 0) && ((r & !p) & !p == r & !p) && ((r & p) & !p == 0) && ((r & p) & p
        == r & p) && ((r | p) & p == p) && ((r | p) & !p == r & !p) && ((r ^ p) & !p == r & !p) && ((
    r ^ p) & p == !r & p)) by (bit_vector);
}

/// Words are little-endian: the first byte is the low byte and the second
/// the high byte, so the two bytes come back from the word; a byte image
/// pairs into its words in order.
pub proof fn lemma_little_endian(lo: u8, hi: u8, bytes: Seq<u8>, i: int)
    requires
        bytes.len() % 2 == 0,
        0 <= i < bytes.len() / 2,
    ensures
        le_word(lo, hi) % 256 == lo,
        le_word(lo, hi) / 256 == hi,
        le_words(bytes).len() == bytes.len() / 2,
        le_words(bytes)[i] as int == bytes[2 * i] + 256 * bytes[2 * i + 1],
{
}

} // verus!
