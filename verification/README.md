# dex-bytecode

A Dalvik bytecode decoder and assembler, written in Verus: every function of the
library carries a contract that Verus proves, except `text::push_char`, a trusted
wrapper of std's `String::push` whose contract (the character is appended) Verus
takes as given.

- `src/opcodes.rs`: the opcode table (mnemonic, instruction format, kind of
  constant-pool reference) and the size of each format.
- `src/decoder.rs`: decoding one instruction, or a whole buffer, into mnemonic and
  operand text; `spec_decode` states what each byte pattern decodes to.
- `src/encode.rs`: encoding an instruction from mnemonic and operand text, with a
  resolver for constant-pool references; `spec_encode_instruction` states the bytes
  or the error for every input.
- `src/operands.rs`, `src/text.rs`, `src/number.rs`: reading operand text
  (registers, ranges, literals, references, the comma-splitting of operands).
- `src/hex.rs`, `src/cli.rs`: reading hexadecimal input and the color choice of the
  command-line tool.
- `src/readback.rs`: laws that written registers, register lists, indexed
  references and hex text read back to the values they spell.
- `src/roundtrip.rs`: the laws that relate encoding and decoding, above all that
  what the encoder produces decodes to the same mnemonic and re-encodes, from the
  decoded text, to the same bytes.
- `app/`: the command-line disassembler and the Python bindings, unverified glue
  around the library.
