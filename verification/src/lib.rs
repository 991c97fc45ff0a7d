//! A debugger engine's verified core: breakpoint bookkeeping, command
//! parsing, output formatting, pretty-printing budgets and the engine's
//! event-handling decisions.

pub mod text;
pub mod numparse;
pub mod types;
pub mod table;
pub mod expr;
pub mod breakpoint;
pub mod disasm;
pub mod engine;
pub mod cargo;
pub mod tasks;
pub mod tui;
pub mod budget;
pub mod printers;
pub mod registry;

pub mod repl;
pub mod console;
pub mod pdbfile;
pub mod symbols;
pub mod pane_text;
