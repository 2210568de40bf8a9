# luar_lir

A typed intermediate form for a small language: SSA with block parameters, the
lowering of checked modules into it, and the passes that run over it.

- `src/` is the library. Every function in it carries a contract that Verus
  proves, but for two: what `quote_char` and `quote_str` in `text` say of the
  standard library's quoting of characters and strings is believed. The laws that
  relate several functions are public proof functions beside them.
- `app/` is ordinary Rust around it: floating-point literals, file paths, and
  `Display`.
- `tests/` runs the library on concrete programs.

## Where things are

| Module | What it holds |
| --- | --- |
| `ty`, `inst`, `program` | types, instructions, and programs, with their views |
| `print` | the text of a program |
| `span`, `ast`, `sema` | what the lowering reads: source, and what the checker found out |
| `lower` | lowering: `types`, `names`, `throws`, `declared`, `declare`, `bodies`, and `body` for one function body; `order`, `sound`, `flat` and `body::laws` say what holds of the program it gives |
| `mono` | filling type parameters in |
| `devirt` | calling the one implementation an interface has |
| `inline`, `escape`, `bounds` | inlining, placing values, removing index checks; `bounds::running` says what a run is, and that an access without a check is in range on each |
| `deferred`, `protocols` | requests left for whole programs, and the protocols of builtin types |
| `tasks` | turning asynchronous functions into tasks over a scheduler |

A value of a type such as `Program` has a view, `ProgramView`, in which its lists
are sequences and its texts sequences of characters. Contracts speak of views.
