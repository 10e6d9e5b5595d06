# rustretto

A Java class file reader and the front half of a bytecode-to-LLVM compiler,
written in Verus: every function of the library carries a `requires`/`ensures`
contract that Verus proves.

## Layout

- `src/classfile/` — the class file format: byte reading (`buffer`), the
  constant pool, field and method descriptors (with the law that printing a
  field type and parsing it back gives the same type), access flags,
  attributes (`Code`, `StackMapTable`, `LineNumberTable`, `SourceFile`,
  `ConstantValue`), the instruction decoder (`Disassembler`), the `Debug`
  text of instructions and constant pool entries (`debug_text`) and whole
  class files.
- `src/compiler/` — what the compiler derives from class files: value types,
  frames of SSA variables with the symbolic execution of instructions
  (`translate`: statements and branch stubs of a basic block), symbol
  mangling, field layouts, and the lookup of loaded classes.
- `src/backend/` — LLVM IR text helpers, virtual method tables, the
  declaration database of a class's code (`decls`), the text of expressions
  (`expr`: method calls, integer, reference, long and floating-point
  comparisons) and of a class's method table (`codegen`).
- `src/frontend/` — the types of the newer front end and its phi-operand map.
- `src/opt/` — instruction blocks and the block map built from a method's
  code (blocks in order of start, found by following the branches from the
  start), and a priority queue.
- `src/jar/` — the main section of a JAR manifest.
- `src/javap.rs` — text formatting of constants, instructions and methods in
  the style of `javap`.
- `app/` — a `javap`-like command line tool: file reading and printing around
  the library. It also formats the values of `float` and `double` constants,
  which the library holds as bit patterns and shows by the text it is given.
- `tests/` — tests of the library, run with the outside crates linked.

Calls into outside crates (`byteorder`, `cesu8`, `fnv`, `indexmap`) stand
behind small trusted wrappers whose doc comments say what each one assumes of
the crate it calls. Functions whose `requires` a caller cannot check by
itself have checking companions (`parse_checked`, `decode_checked`,
`build_checked`, `instr_is_formattable`, `next_resolvable`).
