# nvm_core

The core of NVM, a small register virtual machine, written in Verus with its
behaviour stated in contracts and proved.

- `src/isa` — the instruction set: opcodes (with their byte values and
  mnemonics), operands, registers, instructions and their byte encoding.
- `src/loader` — the loader of `.nb` bytecode files: header, version check and
  instruction stream, specified by `load_spec`.
- `src/vm` — the machine: memory, register file, the meaning of each
  instruction (`semantics`), the direct-threaded executor (`NVM::run`), the
  executor that decodes while it runs (`NVM::match_execute`), and the proof
  that the two agree (`agreement`) on programs that pass the encoding and
  whose instructions have their operands first, for every sequence of
  floating-point answers, and so for a unit that gives one answer to each
  question.
- `src/error.rs` — the crate-wide error and the text of its report.
- `app/` — what touches the host: IEEE 754 arithmetic for the machine's
  floating-point unit, files and printing.

Floating-point operations are computed by a unit that the caller supplies, a
function from `FloatQuery` (an operation or comparison on two values' bits) to
an answer. The executors' contracts say which questions are asked, in which
order, and what is done with each answer; the answers themselves are the
unit's.
