# archie

A fictional 16-bit microcontroller for programming rockets and robots: its
instruction decoder, a cycle-stepped emulator of its core, and an assembler
front end, written in Verus with their contracts proved.

Layout:

- `src/isa.rs` — opcode tables and the decoder from instruction words to
  instructions.
- `src/mcu.rs` — the core: registers, RAM with its memory-mapped top page and
  serial port, ROM reads, the stack, status flags, and one clock cycle as a
  transition of an abstract state (`McuState::cycle`).
- `src/assembler.rs` — the line tokenizer, the operand parsers and the
  encoder of one source instruction.
- `src/token.rs` — the lexer for identifiers, numbers with `_` separators in
  three bases, and symbols, with byte offsets.
- `src/text.rs` — character classes, number parsing and string building.
- `src/console.rs` — screen selection, key commands, key hints and the
  addresses of the program listing in the emulator console.
- `app/` — the command-line program: `assemble <file>` writes `out.bin`,
  `run <file>` opens the terminal console on a ROM image.

Encoding notes:

- `CMP Ra, Rb` is encoded in the compare block `0x6F00 | Ra << 4 | Rb`,
  which the one-register forms `NEG`, `INCB`, `INCW`, `DECB` and `DECW`
  (`0x6F00`, `0x6F20`, `0x6F30`, `0x6F40`, `0x6F50` plus the register) also
  occupy. So `CMP R0, Rb`, `CMP R2, Rb`, `CMP R3, Rb`, `CMP R4, Rb` and
  `CMP R5, Rb` give the same words as `NEG Rb`, `INCB Rb`, `INCW Rb`,
  `DECB Rb` and `DECW Rb`.
- The assembler (`src/assembler.rs`) and the emulator's decoder
  (`src/isa.rs`) use different opcode tables (`ADD` is `0x6000` in the one,
  `0x4000` in the other), so assembled programs do not yet run on the
  emulator as written.
