# chipper8

A CHIP-8 interpreter whose core is verified with Verus.

- `src/machine`: the virtual machine (memory, registers, stack, display,
  timers), the instruction set, and the decoding and encoding of opcodes.
- `src/assembler`: a small textual syntax for instructions: the tokenizer,
  the parser, the writer of instruction text, and the proofs that text reads
  back as what it was written from.
- `src/command.rs`: the lines of an interactive session: instructions and
  meta commands such as `:load`, `:tick` or `:play`.
- `src/repl.rs`: the interactive session as a state machine; `src/emulator.rs`
  runs a loaded program one instruction per frame.
- `app/`: the program around the library: command-line arguments, files,
  timing, standard input and output, and JSON dumps of the machine state.

Every function in `src/` carries a contract that Verus checks; `tests/` runs
the library on concrete inputs.
