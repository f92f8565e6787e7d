# Hone

Hone is a small statically typed scripting language: a script is read, its types are inferred
and locked, and it then runs step by step, or its exported functions are written in C.

The library (`src/`) is verified with Verus: each function states what it returns over a
mathematical model of its arguments, and the laws of the language (`law_*`) are proved from
those statements.

| Module | What it holds |
| --- | --- |
| `lexer`, `parser`, `ast`, `scan` | tokens, the grammar and the tree of a script, and what its tokens name |
| `checker` | type inference, and the rule that a variable keeps its type |
| `interp` | the machine that runs a script: one step at a time, with what it wants of the system handed out |
| `builtins` | the built-in functions |
| `ptrmod`, `memory`, `srvmod`, `archmod`, `gunzip`, `pluginmod` | memory blocks and their bytes, the local server, archives, plugins |
| `codegen` | exported functions in C |
| `bundle`, `cli` | executables that carry a script, and the commands |
| `error` | error codes, their explanations and the way an error is shown |
| `value`, `table`, `text`, `texts`, `words`, `bytes` | values and the basics below everything else |

`app/` is the `hone` program around the library: files, threads, the network, dynamic libraries
and floating-point arithmetic. A running script never touches the system itself. It hands out a
`Want`, `app/` does it and hands back an `Answer`.

`tests/` runs whole programs (`programs.rs`), the built-in functions (`library.rs`) and the
commands (`tools.rs`).
