use archie::isa::{
    decode_address_mode, decode_instruction, decode_parameter, AddressMode, Alu, AluOpcode, If,
    IfOpcode, InstructionFormat, Memory, MemoryOpcode, Misc, MiscOpcode, Parameter,
};

#[test]
fn misc_opcodes_decode_with_their_parameters() {
    assert_eq!(
        decode_instruction(0x0000),
        InstructionFormat::Misc(Misc { opcode: MiscOpcode::TRAP, p1: 0, p2: 0 })
    );
    assert_eq!(
        decode_instruction(0x0500),
        InstructionFormat::Misc(Misc { opcode: MiscOpcode::CALLI, p1: 0, p2: 0 })
    );
    assert_eq!(
        decode_instruction(0x0A00),
        InstructionFormat::Misc(Misc { opcode: MiscOpcode::NEG, p1: 0, p2: 0 })
    );
}

#[test]
fn words_that_are_not_exactly_an_opcode_are_errors() {
    assert_eq!(decode_instruction(0x0501), InstructionFormat::Error(0x0501));
    assert_eq!(decode_instruction(0x0B00), InstructionFormat::Error(0x0B00));
    assert_eq!(decode_instruction(0x1010), InstructionFormat::Error(0x1010));
    assert_eq!(decode_instruction(0x4001), InstructionFormat::Error(0x4001));
    assert_eq!(decode_instruction(0x8000), InstructionFormat::Error(0x8000));
    assert_eq!(decode_instruction(0xA800), InstructionFormat::Error(0xA800));
    assert_eq!(decode_instruction(0xACFF), InstructionFormat::Error(0xACFF));
}

#[test]
fn memory_alu_and_conditional_opcodes_decode() {
    assert_eq!(
        decode_instruction(0x2000),
        InstructionFormat::Memory(Memory {
            opcode: MemoryOpcode::LRX,
            address_mode: AddressMode::Register(0),
            register: 0
        })
    );
    assert_eq!(
        decode_instruction(0x4400),
        InstructionFormat::Alu(Alu {
            opcode: AluOpcode::ADDC,
            parameter: Parameter::Register(0),
            register: 0
        })
    );
    assert_eq!(
        decode_instruction(0x7C00),
        InstructionFormat::Alu(Alu {
            opcode: AluOpcode::OR,
            parameter: Parameter::Register(0),
            register: 0
        })
    );
    assert_eq!(
        decode_instruction(0x9C00),
        InstructionFormat::If(If {
            opcode: IfOpcode::IFGE,
            parameter: Parameter::Register(0),
            register: 0
        })
    );
}

#[test]
fn parameter_field_selects_register_constant_or_value() {
    assert_eq!(decode_parameter(0x0070), Parameter::Register(7));
    assert_eq!(decode_parameter(0x0100), Parameter::Immediate);
    assert_eq!(decode_parameter(0x0110), Parameter::Value(0xFFFF));
    assert_eq!(decode_parameter(0x0120), Parameter::Value(0));
    assert_eq!(decode_parameter(0x0130), Parameter::Value(0x00FF));
    assert_eq!(decode_parameter(0x0140), Parameter::Value(0xFF00));
    assert_eq!(decode_parameter(0x0150), Parameter::Value(0x0020));
    assert_eq!(decode_parameter(0x01F0), Parameter::Value(0x8000));
    assert_eq!(decode_parameter(0x0250), Parameter::Value(5));
    assert_eq!(decode_parameter(0x0350), Parameter::Value(21));
    assert_eq!(decode_parameter(0x43F0), Parameter::Value(31));
}

#[test]
fn address_mode_field_selects_mode_and_stride() {
    assert_eq!(decode_address_mode(0x0030), AddressMode::Register(3));
    assert_eq!(decode_address_mode(0x0130), AddressMode::PostIncrement(3, 2));
    assert_eq!(decode_address_mode(0x0230), AddressMode::PreDecrement(3, 2));
    assert_eq!(decode_address_mode(0x0330), AddressMode::Offset(3));
    assert_eq!(decode_address_mode(0x0400), AddressMode::Absolute);
    assert_eq!(decode_address_mode(0x0520), AddressMode::Register(2));
    assert_eq!(decode_address_mode(0x0620), AddressMode::PostIncrement(2, 1));
    assert_eq!(decode_address_mode(0x0C20), AddressMode::PreDecrement(2, 1));
    assert_eq!(decode_address_mode(0x0D20), AddressMode::Offset(2));
    assert_eq!(decode_address_mode(0x0E00), AddressMode::Absolute);
    assert_eq!(decode_address_mode(0x0F00), AddressMode::Reserved);
}

#[test]
fn every_instruction_takes_one_cycle() {
    for w in [0x0000u16, 0x0500, 0x1000, 0x4000, 0x8800, 0x0501, 0xACFF] {
        assert_eq!(decode_instruction(w).cycles(), 1);
    }
}

#[test]
fn immediate_words_follow_calli_and_immediate_parameters() {
    assert!(decode_instruction(0x0500).has_immediate_value());
    assert!(!decode_instruction(0x0000).has_immediate_value());
    assert!(!decode_instruction(0x4000).has_immediate_value());
    assert!(!decode_instruction(0x0501).has_immediate_value());
    let alu = Alu { opcode: AluOpcode::ADD, parameter: Parameter::Immediate, register: 1 };
    assert!(InstructionFormat::Alu(alu).has_immediate_value());
    let mem = Memory { opcode: MemoryOpcode::LDX, address_mode: AddressMode::Absolute, register: 1 };
    assert!(InstructionFormat::Memory(mem).has_immediate_value());
    assert!(AddressMode::Offset(2).has_immediate());
    assert!(!AddressMode::Reserved.has_immediate());
}

#[test]
fn only_conditionals_keep_the_skip_flag() {
    assert!(!decode_instruction(0x8800).resets_skip_flag());
    assert!(decode_instruction(0x4000).resets_skip_flag());
    assert!(InstructionFormat::trap().resets_skip_flag());
}

#[test]
fn opcodes_convert_from_exact_codes() {
    assert_eq!(MiscOpcode::try_from_u16(0x0700), Some(MiscOpcode::HALT));
    assert_eq!(MiscOpcode::try_from_u16(0x0701), None);
    assert_eq!(AluOpcode::try_from_u16(0x8400), Some(AluOpcode::BCL));
    assert_eq!(IfOpcode::try_from_u16(0xAC00), Some(IfOpcode::IFAE));
    assert_eq!(MemoryOpcode::try_from_u16(0x3000), Some(MemoryOpcode::STX));
    assert_eq!(archie::isa::OffsetOpcode::try_from_u16(1), Some(archie::isa::OffsetOpcode::CALL));
    assert_eq!(archie::isa::OffsetOpcode::try_from_u16(2), None);
}
