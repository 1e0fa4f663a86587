# rune

A compiler for a small language with structs, enums, traits, generics and
reference-counted values. It is a Verus crate: each stage has a contract that
says what it gives for every input, over a mathematical model of its data.

| stage | code | what it is held to |
| --- | --- | --- |
| text to tokens | `lexer` | `lexed` in the same file |
| files to one token list | `modules` | `expanded` in the same file |
| tokens to a tree | `parser`, `parse_*` | `grammar`, over the trees of `tree` |
| names | `resolver`, `names` | `after_module` and the steps below it |
| types | `checker`, `facts` | `typing` |
| tree to typed code | `lower` | `lowered_items` and the rules below it |
| generics to concrete functions | `monomorphize`, `hir_walk` | `monomorphized` |
| typed code to operations | `codegen`, `code` | `rules` |
| executables | `aot`, `runtime` | in the same files |

The `*_laws` files state what holds throughout: that spans never overlap, that a
block leaves no names behind, that a match with an arm for each variant is
complete, that code refers only to what was made before it, and the like. Laws
about lowering, types and reference counts stand beside the
code they are about.

Operations are plain values. `app/` is the `rune` command, and hands them to
Cranelift: `emit` for either kind of output, `jit` to run a program in the same
process, `object` and `link` to make an executable.

A float literal is kept as the digits it was written with; only `app/` turns
digits into a number.
