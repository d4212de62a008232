# dexlib_oxide

A library for Dalvik Executable (DEX) files, written in Verus: every function of the library
carries a contract that the verifier proves.

- `src/base`: LEB128 and MUTF-8 encodings, access flags, the opcode table, text helpers.
- `src/iface`: references, instructions, method bodies, prototypes, debug items.
- `src/dexbacked`: reading a DEX file from its bytes (header, id tables, class data, code items,
  instruction decoding).
- `src/immutable`, `src/builder`: in-memory classes, methods, fields and instructions, and a
  method body that can be edited instruction by instruction.
- `src/writer`: the pools that collect what a file names, and the writer that lays the file out,
  with the file size, the Adler-32 checksum and the SHA-1 signature in its header
  (`src/writer/checksum.rs`). Laws in `src/writer/dex_pool.rs` show that a written file reads
  back: its header, strings, types, prototypes, fields, methods and class definitions. The ids are
  laid out in the order the pools collected them, not sorted.
- `src/smali`: a smali parser and an assembler from smali text to DEX bytes.
- `src/rewriter`: rewriting classes member by member.
- `tests/`: the test suite.
- `app/`: the parts that stay outside the verified library: constants and annotations that hold
  floating-point values, and object-safe trait views of classes, methods and fields.

Verify with `verus` on `src/lib.rs`; the outside crate `indexmap` backs the writer's pools.
