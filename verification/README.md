# rde — a debugger engine with a verified core

`rde` is the engine of a native Windows debugger for Rust programs: the
decisions for launching and attaching, runtime breakpoints, single-stepping,
registers, memory, stack traces with DbgHelp symbols and Rust demangling,
Capstone disassembly, a GDB-style REPL and a terminal UI. The engine talks
to the debuggee through a backend trait and to DbgHelp through a service
trait.

The library under `src/` is written in Verus and verified: the contracts of
its functions state what they return and change, and Verus proves them. `app/` is the command-line program around it:
argument handling, the engine task, standard input and output and the
terminal. This build carries no Windows debugging backend and no DbgHelp
loader: in `app/`, process requests (launch, attach and the rest) fail with
an explanation, and DbgHelp calls report that they are not supported.

## Layout

| module | what it holds |
|---|---|
| `types` | commands, events, registers, threads, modules, errors |
| `table` | keyed tables (threads, modules, saved contexts) |
| `breakpoint` | the breakpoint manager: ids, INT3 bookkeeping, hits |
| `engine` | the engine's decisions for each command and debug event, with its laws |
| `disasm` | Capstone decoding and the disassembly view |
| `expr` | expression evaluation for `print` |
| `budget`, `printers` | pretty-printers for `Vec`, `String`, `Option`, `Result`, `HashMap` within a budget |
| `repl` | command parsing, command echo, output formatting |
| `console` | the REPL loop's decisions: what to print, send, and when the prompt returns |
| `tui`, `pane_text` | terminal UI state, keys, focus, layout and the text of each pane |
| `cargo` | Cargo metadata, target resolution, artifact paths, build arguments |
| `tasks` | Tokio task listing |
| `pdbfile`, `symbols` | PDB reading, the symbol table, DbgHelp resolution, stack walking |
| `text`, `numparse` | text rendering and integer parsing |

Trusted items (calls into `capstone`, `pdb`, `rustc-demangle`, `ratatui`'s
layout and a few `std` functions) carry doc comments that say what
their contracts claim.
