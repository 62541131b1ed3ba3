use std::sync::Arc;

use archie::isa::{Alu, AluOpcode, If, IfOpcode, InstructionFormat, Parameter};
use archie::mcu::{words_from_le_bytes, MCU};

fn core_with(program: Vec<u8>) -> MCU {
    MCU::new(Arc::new(program))
}

#[test]
fn a_new_core_starts_cleared_with_the_stack_at_f000() {
    let m = core_with(vec![1, 2]);
    assert_eq!(m.register, [0, 0, 0, 0, 0, 0, 0, 0, 0, 0, 0, 0, 0, 0, 0xF000, 0]);
    assert!(m.ram.iter().all(|b| *b == 0));
    assert_eq!(*m.rom, vec![1, 2]);
    assert!(!m.halted && !m.skip_flag && !m.step_mode && !m.interrupts_disabled);
    assert_eq!(m.current_inst, InstructionFormat::trap());
    assert_eq!(m.last_inst, InstructionFormat::trap());
    assert_eq!(m.current_inst_cycles, 0);
    assert_eq!(m.imm16, None);
    assert!(m.serial_out.is_empty());
}

#[test]
fn push_then_pop_returns_the_word() {
    let mut m = core_with(vec![]);
    m.push(0x1234);
    assert_eq!(m.sp(), 0xEFFE);
    assert_eq!(m.ram[0xEFFE], 0x34);
    assert_eq!(m.ram[0xEFFF], 0x12);
    assert_eq!(m.pop(), 0x1234);
    assert_eq!(m.sp(), 0xF000);
}

#[test]
fn pop_wraps_the_stack_pointer() {
    let mut m = core_with(vec![]);
    m.register[14] = 0xFFFE;
    m.ram[0xFFFE] = 0xCD;
    m.ram[0xFFFF] = 0xAB;
    assert_eq!(m.pop(), 0xABCD);
    assert_eq!(m.sp(), 0x0000);
}

#[test]
fn words_and_bytes_written_to_ram_load_back() {
    let mut m = core_with(vec![]);
    m.write_ram(0x10, 0xBEEF, false);
    assert_eq!(m.ram[0x10], 0xEF);
    assert_eq!(m.ram[0x11], 0xBE);
    assert_eq!(m.load_from_ram(0x10, false, false), 0xBEEF);
    assert_eq!(m.load_from_ram(0x10, true, false), 0x00EF);
    assert_eq!(m.load_from_ram(0x10, true, true), 0xFFEF);
    assert_eq!(m.load_from_ram(0x11, true, true), 0xFFBE);
    m.write_ram(0x20, 0x1234, true);
    assert_eq!(m.load_from_ram(0x20, false, false), 0x0034);
    m.write_ram(0x30, 0x007F, true);
    assert_eq!(m.load_from_ram(0x30, true, true), 0x007F);
}

#[test]
fn the_top_of_ram_reads_zero_and_ignores_writes_but_the_serial_port() {
    let mut m = core_with(vec![]);
    m.write_ram_byte(0xF000, 7);
    assert_eq!(m.ram[0xF000], 0);
    m.ram[0xF001] = 9;
    assert_eq!(m.read_ram_byte(0xF001), 0);
    m.write_ram_byte(0xFFFF, b'A');
    assert_eq!(m.serial_out, vec![b'A']);
    m.write_ram(0xFFFF, 0x4241, false);
    assert_eq!(m.serial_out, vec![b'A', 0x41]);
    assert_eq!(m.ram[0x0000], 0x42);
}

#[test]
fn rom_reads_are_aligned_and_zero_past_the_image() {
    let m = core_with(vec![1, 2, 3]);
    assert_eq!(m.read_rom(0), 0x0201);
    assert_eq!(m.read_rom(1), 0x0201);
    assert_eq!(m.read_rom(2), 0x0003);
    assert_eq!(m.read_rom(4), 0x0000);
    assert_eq!(m.load_from_rom(1, true, false), 0x0002);
    assert_eq!(m.load_from_rom(0, true, false), 0x0001);
    assert_eq!(m.load_from_rom(3, false, false), 0x0003);
    let m = core_with(vec![0x80, 0x90]);
    assert_eq!(m.load_from_rom(0, true, true), 0xFF80);
    assert_eq!(m.load_from_rom(1, true, true), 0xFF90);
    assert_eq!(m.load_from_rom(1, true, false), 0x0090);
}

#[test]
fn fetching_advances_the_program_counter() {
    let mut m = core_with(vec![0x34, 0x12, 0x78, 0x56]);
    assert_eq!(m.fetch_next_rom_word(), 0x1234);
    assert_eq!(m.pc(), 2);
    assert_eq!(m.postincrement_pc(), 2);
    assert_eq!(m.pc(), 4);
    m.set_pc(0xFFFE);
    assert_eq!(m.postincrement_pc(), 0xFFFE);
    assert_eq!(m.pc(), 0);
}

#[test]
fn flags_read_back_as_set() {
    let mut m = core_with(vec![]);
    m.register[13] = 0x00F0;
    m.set_flags(true, false, true, false);
    assert_eq!(m.register[13], 0x00F5);
    assert!(m.is_zero_flag_set());
    assert!(!m.is_negative_flag_set());
    assert!(m.is_carry_flag_set());
    assert!(!m.is_overflow_flag_set());
    assert!(m.is_interrupt_request_enabled_flag_set());
    m.set_flags_on_write(0x8000);
    assert_eq!(m.register[13], 0x00F6);
    m.set_flags_on_write(0);
    assert_eq!(m.register[13], 0x00F5);
    m.set_flags(false, false, false, true);
    m.set_flags_on_write(5);
    assert_eq!(m.register[13], 0x00F8);
}

#[test]
fn halt_and_debug_bits_set_and_clear() {
    let mut m = core_with(vec![]);
    assert!(!m.is_halted());
    m.set_halted();
    assert!(m.is_halted());
    assert_eq!(m.register[13], 0x0040);
    m.set_dbg_flag();
    assert!(m.is_dbg_flag_set());
    m.unset_halted();
    assert!(!m.is_halted());
    assert!(m.is_dbg_flag_set());
    m.unset_dbg_flag();
    assert_eq!(m.register[13], 0);
}

#[test]
fn a_true_conditional_skips_the_next_instruction() {
    // IFE R0, R0; ADD R0, R0; IFNE R0, R0
    let mut m = core_with(vec![0x00, 0x88, 0x00, 0x40, 0x00, 0x8C]);
    assert!(m.try_run_one_cycle());
    assert!(m.skip_flag);
    assert_eq!(m.pc(), 2);
    assert_eq!(
        m.last_inst,
        InstructionFormat::If(If { opcode: IfOpcode::IFE, parameter: Parameter::Register(0), register: 0 })
    );
    assert!(m.try_run_one_cycle());
    assert!(!m.skip_flag);
    assert_eq!(m.pc(), 4);
    assert_eq!(m.current_inst_cycles, 0);
    assert!(m.try_run_one_cycle());
    assert!(!m.skip_flag);
    assert_eq!(m.pc(), 6);
}

#[test]
fn a_trap_cannot_run_yet_and_leaves_the_core_unchanged() {
    let mut m = core_with(vec![]);
    assert!(!m.next_cycle_defined());
    assert!(!m.try_run_one_cycle());
    assert_eq!(m.pc(), 0);
}

#[test]
fn words_beyond_the_formats_cannot_run() {
    let mut m = core_with(vec![0x00, 0xB0]);
    assert!(!m.next_cycle_defined());
    assert!(!m.try_run_one_cycle());
}

#[test]
fn a_halted_core_does_nothing() {
    let mut m = core_with(vec![0x00, 0x88]);
    m.halted = true;
    assert!(m.try_run_one_cycle());
    assert_eq!(m.pc(), 0);
    assert!(!m.skip_flag);
}

#[test]
fn alu_instructions_write_their_register() {
    let mut m = core_with(vec![]);
    m.register[2] = 0xFFFF;
    m.register[13] = 0x0004;
    m.current_inst = InstructionFormat::Alu(Alu {
        opcode: AluOpcode::ADDC,
        parameter: Parameter::Value(3),
        register: 2,
    });
    m.current_inst_cycles = 1;
    m.execute_current_instruction();
    assert_eq!(m.register[2], 3);
    assert_eq!(m.current_inst_cycles, 0);
    assert_eq!(m.last_inst, m.current_inst);

    for (op, r, p, expected) in [
        (AluOpcode::ADD, 5u16, 7u16, 12u16),
        (AluOpcode::SUB, 5, 7, 0xFFFE),
        (AluOpcode::MOV, 5, 7, 7),
        (AluOpcode::AND, 0b1100, 0b1010, 0b1000),
        (AluOpcode::OR, 0b1100, 0b1010, 0b1110),
        (AluOpcode::XOR, 0b1100, 0b1010, 0b0110),
        (AluOpcode::BCL, 0b1100, 0b1010, 0b0100),
    ] {
        let mut m = core_with(vec![]);
        m.register[4] = r;
        m.register[5] = p;
        m.current_inst = InstructionFormat::Alu(Alu { opcode: op, parameter: Parameter::Register(5), register: 4 });
        m.current_inst_cycles = 1;
        m.execute_current_instruction();
        assert_eq!(m.register[4], expected);
    }
}

#[test]
fn conditionals_compare_signed_and_unsigned() {
    for (op, r, p, expected) in [
        (IfOpcode::IFE, 3u16, 3u16, true),
        (IfOpcode::IFNE, 3, 3, false),
        (IfOpcode::IFL, 0xFFFF, 1, true),
        (IfOpcode::IFLE, 1, 1, true),
        (IfOpcode::IFG, 0xFFFF, 1, false),
        (IfOpcode::IFGE, 0x8000, 0x7FFF, false),
        (IfOpcode::IFB, 0xFFFF, 1, false),
        (IfOpcode::IFBE, 1, 1, true),
        (IfOpcode::IFA, 0xFFFF, 1, true),
        (IfOpcode::IFAE, 0, 1, false),
    ] {
        let mut m = core_with(vec![]);
        m.register[1] = r;
        m.current_inst = InstructionFormat::If(If { opcode: op, parameter: Parameter::Value(p), register: 1 });
        m.current_inst_cycles = 1;
        m.execute_current_instruction();
        assert_eq!(m.skip_flag, expected);
    }
}

#[test]
fn an_immediate_operand_is_fetched_in_the_second_cycle() {
    let mut m = core_with(vec![0x07, 0x00]);
    m.register[1] = 5;
    m.current_inst = InstructionFormat::Alu(Alu {
        opcode: AluOpcode::ADD,
        parameter: Parameter::Immediate,
        register: 1,
    });
    m.current_inst_cycles = 1;
    assert!(m.try_run_one_cycle());
    assert_eq!(m.imm16, Some(7));
    assert_eq!(m.register[1], 12);
    assert_eq!(m.pc(), 2);
}

#[test]
fn a_call_waits_a_cycle_for_its_immediate_word() {
    let mut m = core_with(vec![0x00, 0x05, 0x34, 0x12]);
    assert!(m.try_run_one_cycle());
    assert_eq!(m.current_inst_cycles, 1);
    assert_eq!(m.pc(), 2);
    assert!(!m.try_run_one_cycle());
}

#[test]
fn a_skipped_call_steps_over_its_immediate_word() {
    let mut m = core_with(vec![0x00, 0x05, 0x34, 0x12, 0x00, 0x88]);
    m.skip_flag = true;
    assert!(m.try_run_one_cycle());
    assert_eq!(m.pc(), 4);
    assert!(!m.skip_flag);
}

#[test]
fn a_burst_stops_at_the_debug_flag_or_after_max_cycles() {
    let program = vec![0x00, 0x8C, 0x00, 0x8C, 0x00, 0x8C, 0x00, 0x8C];
    let mut m = core_with(program.clone());
    assert_eq!(m.run_burst(3), Ok(3));
    assert_eq!(m.pc(), 6);
    let mut m = core_with(program);
    m.set_dbg_flag();
    assert_eq!(m.run_burst(3), Ok(1));
    assert_eq!(m.pc(), 2);
    let mut m = core_with(vec![0x00, 0x8C]);
    assert_eq!(m.run_burst(5), Err(1));
    assert_eq!(m.pc(), 2);
}

#[test]
fn byte_images_pair_into_little_endian_words() {
    assert_eq!(words_from_le_bytes(&[1, 2, 3, 4]), Some(vec![0x0201, 0x0403]));
    assert_eq!(words_from_le_bytes(&[]), Some(vec![]));
    assert_eq!(words_from_le_bytes(&[1, 2, 3]), None);
}

#[test]
fn subtracting_what_was_added_restores_the_register() {
    let mut m = core_with(vec![]);
    m.register[3] = 0xFFF0;
    for op in [AluOpcode::ADD, AluOpcode::SUB] {
        m.current_inst = InstructionFormat::Alu(Alu { opcode: op, parameter: Parameter::Value(0x0123), register: 3 });
        m.current_inst_cycles = 1;
        m.execute_current_instruction();
    }
    assert_eq!(m.register[3], 0xFFF0);
}

#[test]
fn cycles_leave_rom_ram_and_serial_output_alone() {
    let program = vec![0x00, 0x88, 0x00, 0x40, 0x00, 0x8C];
    let mut m = core_with(program.clone());
    m.ram[5] = 9;
    for _ in 0..3 {
        assert!(m.try_run_one_cycle());
    }
    assert_eq!(*m.rom, program);
    assert_eq!(m.ram[5], 9);
    assert!(m.serial_out.is_empty());
    assert_eq!(m.cycles, 0);
}

#[test]
fn register_zero_reads_zero_and_ignores_writes() {
    let mut m = core_with(vec![]);
    m.current_inst = InstructionFormat::Alu(Alu { opcode: AluOpcode::MOV, parameter: Parameter::Value(0x00FF), register: 0 });
    m.current_inst_cycles = 1;
    m.execute_current_instruction();
    assert_eq!(m.register[0], 0);
    assert_eq!(m.current_inst_cycles, 0);

    // ADD R0, R0 with a stray value stored in register 0.
    let mut m = core_with(vec![0x00, 0x40]);
    m.register[0] = 0x9000;
    assert!(m.try_run_one_cycle());
    assert_eq!(m.register[0], 0x9000);
    assert!(m.is_zero_flag_set());
    assert_eq!(m.read_register(0), 0);
    m.register[4] = 7;
    m.current_inst = InstructionFormat::Alu(Alu { opcode: AluOpcode::MOV, parameter: Parameter::Register(0), register: 4 });
    m.current_inst_cycles = 1;
    m.execute_current_instruction();
    assert_eq!(m.register[4], 0);
}

fn alu(op: AluOpcode, r: u16, p: u16, status: u16) -> MCU {
    let mut m = core_with(vec![]);
    m.register[1] = r;
    m.register[13] = status;
    m.current_inst = InstructionFormat::Alu(Alu { opcode: op, parameter: Parameter::Value(p), register: 1 });
    m.current_inst_cycles = 1;
    m.execute_current_instruction();
    m
}

#[test]
fn alu_operations_set_the_flags() {
    let m = alu(AluOpcode::ADD, 0xFFFF, 1, 0);
    assert_eq!(m.register[1], 0);
    assert!(m.is_zero_flag_set() && !m.is_negative_flag_set() && m.is_carry_flag_set() && !m.is_overflow_flag_set());

    let m = alu(AluOpcode::ADD, 0x7FFF, 1, 0);
    assert_eq!(m.register[1], 0x8000);
    assert!(!m.is_zero_flag_set() && m.is_negative_flag_set() && !m.is_carry_flag_set() && m.is_overflow_flag_set());

    let m = alu(AluOpcode::ADDC, 0xFFFE, 1, 0x0004);
    assert_eq!(m.register[1], 0);
    assert!(m.is_zero_flag_set() && m.is_carry_flag_set());

    // Both operands positive and the result negative: the two-operand rule sets OF.
    let m = alu(AluOpcode::SUB, 1, 2, 0);
    assert_eq!(m.register[1], 0xFFFF);
    assert!(m.is_negative_flag_set() && m.is_carry_flag_set() && m.is_overflow_flag_set());

    let m = alu(AluOpcode::SUB, 0x8000, 0xFFFF, 0);
    assert_eq!(m.register[1], 0x8001);
    assert!(m.is_carry_flag_set() && !m.is_overflow_flag_set());

    let m = alu(AluOpcode::XOR, 0x00FF, 0x00FF, 0x00FC);
    assert_eq!(m.register[1], 0);
    assert_eq!(m.register[13], 0x00F1);

    let m = alu(AluOpcode::MOV, 0, 0x8000, 0x000C);
    assert_eq!(m.register[1], 0x8000);
    assert_eq!(m.register[13], 0x000E);
}

fn condition_holds(op: IfOpcode, r: u16, p: u16) -> bool {
    let mut m = core_with(vec![]);
    m.register[1] = r;
    m.current_inst = InstructionFormat::If(If { opcode: op, parameter: Parameter::Value(p), register: 1 });
    m.current_inst_cycles = 1;
    let before = m.register;
    m.execute_current_instruction();
    assert_eq!(m.register, before);
    m.skip_flag
}

#[test]
fn conditions_come_in_complementary_pairs() {
    let values = [0u16, 1, 2, 0x7FFF, 0x8000, 0x8001, 0xFFFF];
    for r in values {
        for p in values {
            let pairs = [
                (IfOpcode::IFE, IfOpcode::IFNE),
                (IfOpcode::IFL, IfOpcode::IFGE),
                (IfOpcode::IFG, IfOpcode::IFLE),
                (IfOpcode::IFB, IfOpcode::IFAE),
                (IfOpcode::IFA, IfOpcode::IFBE),
            ];
            for (a, b) in pairs {
                assert_eq!(condition_holds(a, r, p), !condition_holds(b, r, p));
            }
            assert_eq!(
                condition_holds(IfOpcode::IFL, r, p),
                condition_holds(IfOpcode::IFB, r ^ 0x8000, p ^ 0x8000)
            );
            assert_eq!(
                condition_holds(IfOpcode::IFG, r, p),
                condition_holds(IfOpcode::IFA, r ^ 0x8000, p ^ 0x8000)
            );
        }
    }
}

#[test]
fn a_burst_counts_the_cycles_it_ran() {
    let mut m = core_with(vec![0x00, 0x8C, 0x00, 0x8C, 0x00, 0x8C, 0x00, 0x8C]);
    assert_eq!(m.run_burst(2), Ok(2));
    assert_eq!(m.run_burst(10), Err(2));
    assert_eq!(m.pc(), 8);
    assert_eq!(m.run_burst(0), Ok(0));
}
