//! The REPL: command parsing, command echo, output formatting and the
//! decisions of the read-eval-print loop.

use vstd::prelude::*;
use crate::numparse::{parse_unsigned, parse_unsigned_str};
use crate::text::{decimal, hex, join, push_decimal, push_hex, push_part, lemma_join_push, split_words, str_eq, string_views, words};
use crate::budget::FormatBudget;
use crate::printers::{built_in_registry, exhausted, header, element_read, element_reads_ok, elements_ok, le_u64, vec_limit, vec_outcome, string_outcome, vec_format_ok, string_format_ok, MemoryReader, PrettyPrinter, BuiltinPrinter};
use crate::types::{AsyncTask, BreakpointKind, EngineCommand, EngineEvent, PrettyValue, RegisterContext, StackFrame, TaskState};
use crate::text::{pad_left, pad_right, push_padded_right};

verus! {

/// `s` without a leading `0x`.
pub open spec fn strip_0x(s: Seq<char>) -> Seq<char> {
    if s.len() >= 2 && s[0] == '0' && s[1] == 'x' {
        s.subrange(2, s.len() as int)
    } else {
        s
    }
}

/// Parses a hexadecimal address, with or without a `0x` prefix.
pub fn parse_hex(s: &str) -> (r: Result<u64, String>)
    ensures
        r is Ok <==> parse_unsigned(strip_0x(s@), 16, u64::MAX as nat) is Some,
        r matches Ok(v) ==> parse_unsigned(strip_0x(s@), 16, u64::MAX as nat) == Some(v as nat),
        r matches Err(m) ==> m@ == "invalid hex address: "@ + strip_0x(s@),
{
    let n = s.unicode_len();
    let body = if n >= 2 && s.get_char(0) == '0' && s.get_char(1) == 'x' {
        s.substring_char(2, n)
    } else {
        s
    };
    match parse_unsigned_str(body, 16, u64::MAX) {
        Some(v) => Ok(v),
        None => {
            let mut m = String::from_str("invalid hex address: ");
            m.append(body);
            Err(m)
        },
    }
}

/// `r` is the error `m`.
pub open spec fn err_is<T>(r: Result<T, String>, m: Seq<char>) -> bool {
    r matches Err(e) && e@ == m
}

/// The bytes `setmem` writes: every word from the third on, as a hex byte.
pub open spec fn hex_byte(w: Seq<char>) -> Option<nat> {
    parse_unsigned(w, 16, 255)
}

/// What `parse` makes of the words of a command line.
pub open spec fn parse_result(ws: Seq<Seq<char>>, r: Result<EngineCommand, String>) -> bool {
    if ws.len() == 0 {
        err_is(r, "empty command"@)
    } else {
        let w = ws[0];
        if w == "launch"@ {
            if ws.len() < 2 {
                err_is(r, "usage: launch <path> [args...]"@)
            } else {
                r matches Ok(EngineCommand::Launch { path, args }) && path@ == ws[1] && string_views(args@)
                    == ws.subrange(2, ws.len() as int)
            }
        } else if w == "attach"@ {
            if ws.len() < 2 {
                err_is(r, "usage: attach <pid>"@)
            } else {
                match parse_unsigned(ws[1], 10, u32::MAX as nat) {
                    Some(pid) => r == Ok::<EngineCommand, String>(
                        (EngineCommand::Attach { pid: pid as u32 }),
                    ),
                    None => err_is(r, "invalid pid"@),
                }
            }
        } else if w == "continue"@ || w == "c"@ {
            r == Ok::<EngineCommand, String>(EngineCommand::Continue)
        } else if w == "step"@ || w == "s"@ {
            r == Ok::<EngineCommand, String>(EngineCommand::StepInto)
        } else if w == "break"@ {
            if ws.len() < 2 {
                err_is(r, "usage: break <address|symbol>"@)
            } else {
                match parse_unsigned(strip_0x(ws[1]), 16, u64::MAX as nat) {
                    Some(a) => r == Ok::<EngineCommand, String>(
                        (EngineCommand::SetBreakpoint { address: Some(a as u64), symbol: None }),
                    ),
                    None => r matches Ok(EngineCommand::SetBreakpoint { address: None, symbol: Some(sym) })
                        && sym@ == ws[1],
                }
            }
        } else if w == "delbreak"@ {
            if ws.len() < 2 {
                err_is(r, "usage: delbreak <id>"@)
            } else {
                match parse_unsigned(ws[1], 10, u64::MAX as nat) {
                    Some(id) => r == Ok::<EngineCommand, String>(
                        (EngineCommand::DeleteBreakpoint { id: id as u64 }),
                    ),
                    None => err_is(r, "invalid breakpoint id"@),
                }
            }
        } else if w == "regs"@ || w == "registers"@ {
            r == Ok::<EngineCommand, String>((EngineCommand::ReadRegisters { thread_id: None }))
        } else if w == "x"@ {
            if ws.len() < 2 {
                err_is(r, "usage: x <address> [size]"@)
            } else {
                match parse_unsigned(strip_0x(ws[1]), 16, u64::MAX as nat) {
                    None => err_is(r, "invalid hex address: "@ + strip_0x(ws[1])),
                    Some(a) => {
                        let size = if ws.len() > 2 && parse_unsigned(ws[2], 10, usize::MAX as nat) is Some {
                            parse_unsigned(ws[2], 10, usize::MAX as nat)->0
                        } else {
                            16
                        };
                        r == Ok::<EngineCommand, String>(
                            (EngineCommand::ReadMemory {
                                address: a as u64,
                                size: size as usize,
                                expression: None,
                            }),
                        )
                    },
                }
            }
        } else if w == "setmem"@ {
            if ws.len() < 3 {
                err_is(r, "usage: setmem <address> <byte>..."@)
            } else {
                match parse_unsigned(strip_0x(ws[1]), 16, u64::MAX as nat) {
                    None => err_is(r, "invalid hex address: "@ + strip_0x(ws[1])),
                    Some(a) => if forall|i: int| 2 <= i < ws.len() ==> #[trigger] hex_byte(ws[i]) is Some {
                        r matches Ok(EngineCommand::WriteMemory { address, bytes }) && address == a
                            && bytes@.len() == ws.len() - 2 && forall|i: int|
                            0 <= i < bytes@.len() ==> Some(#[trigger] bytes@[i] as nat) == hex_byte(ws[i + 2])
                    } else {
                        err_is(r, "invalid byte"@)
                    },
                }
            }
        } else if w == "bt"@ || w == "backtrace"@ {
            r == Ok::<EngineCommand, String>((EngineCommand::Backtrace { thread_id: None }))
        } else if (w == "threads"@ || w == "info"@) && ws.len() > 1 && ws[1] == "threads"@ {
            r == Ok::<EngineCommand, String>(EngineCommand::ListThreads)
        } else if (w == "modules"@ || w == "info"@) && ws.len() > 1 && ws[1] == "modules"@ {
            r == Ok::<EngineCommand, String>(EngineCommand::ListModules)
        } else if w == "quit"@ || w == "q"@ || w == "exit"@ {
            r == Ok::<EngineCommand, String>(EngineCommand::Quit)
        } else {
            err_is(r, "comando desconhecido: "@ + w)
        }
    }
}

/// Two parse results agree: the same error text, or the same command with
/// the same field values (texts compared by their characters).
pub open spec fn parse_agrees(a: Result<EngineCommand, String>, b: Result<EngineCommand, String>) -> bool {
    match a {
        Err(x) => b matches Err(y) && x@ == y@,
        Ok(c) => b matches Ok(d) && match c {
            EngineCommand::Launch { path, args } => d matches EngineCommand::Launch { path: p2, args: a2 } && path@
                == p2@ && string_views(args@) == string_views(a2@),
            EngineCommand::SetBreakpoint { address, symbol } => d matches EngineCommand::SetBreakpoint {
                address: a2,
                symbol: s2,
            } && address == a2 && match symbol {
                Some(t) => s2 matches Some(t2) && t@ == t2@,
                None => s2 is None,
            },
            EngineCommand::WriteMemory { address, bytes } => d matches EngineCommand::WriteMemory {
                address: a2,
                bytes: b2,
            } && address == a2 && bytes@ == b2@,
            _ => c == d,
        },
    }
}

/// A command line is read by its words alone: two inputs with the same
/// words, however spaced, parse to results that agree.
pub proof fn law_parse_by_words(a: Seq<char>, b: Seq<char>, ra: Result<EngineCommand, String>, rb: Result<EngineCommand, String>)
    requires
        words(a) == words(b),
        parse_result(words(a), ra),
        parse_result(words(b), rb),
    ensures
        parse_agrees(ra, rb),
{
    let ws = words(a);
    if ws.len() > 0 && ws[0] == "setmem"@ && ws.len() >= 3 {
        if let (Ok(EngineCommand::WriteMemory { bytes: x, .. }), Ok(EngineCommand::WriteMemory { bytes: y, .. })) = (ra, rb) {
            assert forall|i: int| 0 <= i < x@.len() implies x@[i] == y@[i] by {
                assert(Some(x@[i] as nat) == hex_byte(ws[i + 2]));
                assert(Some(y@[i] as nat) == hex_byte(ws[i + 2]));
            }
            assert(x@ =~= y@);
        }
    }
}

/// The words from the third on as hex bytes, if they all are.
fn hex_bytes(parts: &Vec<String>) -> (r: Option<Vec<u8>>)
    requires
        parts@.len() >= 2,
    ensures
        r is Some <==> forall|i: int| 2 <= i < parts@.len() ==> #[trigger] hex_byte(parts@[i]@) is Some,
        r matches Some(bytes) ==> bytes@.len() == parts@.len() - 2 && forall|k: int|
            0 <= k < bytes@.len() ==> Some(#[trigger] bytes@[k] as nat) == hex_byte(parts@[k + 2]@),
{
    let n = parts.len();
    let mut bytes: Vec<u8> = Vec::new();
    let mut i: usize = 2;
    while i < n
        invariant
            2 <= i <= n,
            n == parts@.len(),
            bytes@.len() == i - 2,
            forall|k: int| 2 <= k < i ==> #[trigger] hex_byte(parts@[k]@) is Some,
            forall|k: int| 0 <= k < bytes@.len() ==> Some(#[trigger] bytes@[k] as nat) == hex_byte(parts@[k + 2]@),
        decreases n - i,
    {
        match parse_unsigned_str(parts[i].as_str(), 16, 255) {
            Some(b) => {
                bytes.push(b as u8);
            },
            None => {
                assert(hex_byte(parts@[i as int]@) is None);
                return None;
            },
        }
        i = i + 1;
    }
    Some(bytes)
}

fn err(m: &str) -> (r: Result<EngineCommand, String>)
    ensures
        err_is(r, m@),
{
    Err(String::from_str(m))
}

/// Parse a REPL command line.
pub fn parse(input: &str) -> (r: Result<EngineCommand, String>)
    ensures
        parse_result(words(input@), r),
{
    let parts = split_words(input);
    let ghost ws = words(input@);
    assert(forall|i: int| 0 <= i < parts@.len() ==> #[trigger] parts@[i]@ == ws[i]);
    if parts.len() == 0 {
        return err("empty command");
    }
    let w = parts[0].as_str();
    let n = parts.len();
    if str_eq(w, "launch") {
        if n < 2 {
            return err("usage: launch <path> [args...]");
        }
        let mut args: Vec<String> = Vec::new();
        let mut i: usize = 2;
        while i < n
            invariant
                2 <= i <= n,
                n == parts@.len(),
                n == ws.len(),
                forall|k: int| 0 <= k < parts@.len() ==> #[trigger] parts@[k]@ == ws[k],
                string_views(args@) == ws.subrange(2, i as int),
            decreases n - i,
        {
            let ghost before = string_views(args@);
            let c = parts[i].clone();
            assert(c@ == ws[i as int]);
            args.push(c);
            assert(string_views(args@) =~= before.push(ws[i as int]));
            assert(string_views(args@) =~= ws.subrange(2, i + 1));
            i = i + 1;
        }
        return Ok(EngineCommand::Launch { path: parts[1].clone(), args });
    }
    if str_eq(w, "attach") {
        if n < 2 {
            return err("usage: attach <pid>");
        }
        return match parse_unsigned_str(parts[1].as_str(), 10, u32::MAX as u64) {
            Some(pid) => Ok(EngineCommand::Attach { pid: pid as u32 }),
            None => err("invalid pid"),
        };
    }
    if str_eq(w, "continue") || str_eq(w, "c") {
        return Ok(EngineCommand::Continue);
    }
    if str_eq(w, "step") || str_eq(w, "s") {
        return Ok(EngineCommand::StepInto);
    }
    if str_eq(w, "break") {
        if n < 2 {
            return err("usage: break <address|symbol>");
        }
        return match parse_hex(parts[1].as_str()) {
            Ok(addr) => Ok(EngineCommand::SetBreakpoint { address: Some(addr), symbol: None }),
            Err(_) => Ok(EngineCommand::SetBreakpoint { address: None, symbol: Some(parts[1].clone()) }),
        };
    }
    if str_eq(w, "delbreak") {
        if n < 2 {
            return err("usage: delbreak <id>");
        }
        return match parse_unsigned_str(parts[1].as_str(), 10, u64::MAX) {
            Some(id) => Ok(EngineCommand::DeleteBreakpoint { id }),
            None => err("invalid breakpoint id"),
        };
    }
    if str_eq(w, "regs") || str_eq(w, "registers") {
        return Ok(EngineCommand::ReadRegisters { thread_id: None });
    }
    if str_eq(w, "x") {
        if n < 2 {
            return err("usage: x <address> [size]");
        }
        let address = match parse_hex(parts[1].as_str()) {
            Ok(a) => a,
            Err(e) => return Err(e),
        };
        let size: usize = if n > 2 {
            match parse_unsigned_str(parts[2].as_str(), 10, usize::MAX as u64) {
                Some(v) => v as usize,
                None => 16,
            }
        } else {
            16
        };
        return Ok(EngineCommand::ReadMemory { address, size, expression: None });
    }
    if str_eq(w, "setmem") {
        if n < 3 {
            return err("usage: setmem <address> <byte>...");
        }
        let address = match parse_hex(parts[1].as_str()) {
            Ok(a) => a,
            Err(e) => return Err(e),
        };
        return match hex_bytes(&parts) {
            Some(bytes) => Ok(EngineCommand::WriteMemory { address, bytes }),
            None => err("invalid byte"),
        };
    }
    if str_eq(w, "bt") || str_eq(w, "backtrace") {
        return Ok(EngineCommand::Backtrace { thread_id: None });
    }
    if (str_eq(w, "threads") || str_eq(w, "info")) && n > 1 && str_eq(parts[1].as_str(), "threads") {
        return Ok(EngineCommand::ListThreads);
    }
    if (str_eq(w, "modules") || str_eq(w, "info")) && n > 1 && str_eq(parts[1].as_str(), "modules") {
        return Ok(EngineCommand::ListModules);
    }
    if str_eq(w, "quit") || str_eq(w, "q") || str_eq(w, "exit") {
        return Ok(EngineCommand::Quit);
    }
    let mut m = String::from_str("comando desconhecido: ");
    m.append(w);
    Err(m)
}

/// `"on"` or `"off"`.
pub open spec fn on_off(b: bool) -> Seq<char> {
    if b {
        "on"@
    } else {
        "off"@
    }
}

/// `"true"` or `"false"`, as `{}` prints a `bool`.
pub open spec fn bool_text(b: bool) -> Seq<char> {
    if b {
        "true"@
    } else {
        "false"@
    }
}

/// The settings `SetPrintConfig` names, as `key=value` parts.
pub open spec fn print_config_parts(limit: Option<usize>, depth: Option<usize>, pretty: Option<bool>) -> Seq<Seq<char>> {
    let a = match limit {
        Some(l) => seq!["limit="@ + decimal(l as nat)],
        None => Seq::empty(),
    };
    let b = match depth {
        Some(d) => seq!["depth="@ + decimal(d as nat)],
        None => Seq::empty(),
    };
    let c = match pretty {
        Some(p) => seq!["pretty="@ + bool_text(p)],
        None => Seq::empty(),
    };
    a + b + c
}

/// The line the REPL echoes for a command.
pub open spec fn execute_text(cmd: EngineCommand) -> Seq<char> {
    match cmd {
        EngineCommand::Launch { path, .. } => "Launching: "@ + path@,
        EngineCommand::Attach { pid } => "Attaching to PID: "@ + decimal(pid as nat),
        EngineCommand::Continue => "Continuing execution..."@,
        EngineCommand::StepInto => "Stepping..."@,
        EngineCommand::SetBreakpoint { address, symbol } => match address {
            Some(a) => "Setting breakpoint at 0x"@ + hex(a as nat, false),
            None => match symbol {
                Some(s) => "Setting breakpoint at "@ + s@,
                None => "Invalid breakpoint"@,
            },
        },
        EngineCommand::DeleteBreakpoint { id } => "Deleting breakpoint "@ + decimal(id as nat),
        EngineCommand::ReadRegisters { .. } => "Reading registers..."@,
        EngineCommand::ReadMemory { address, size, expression } => match expression {
            Some(e) => "Reading "@ + decimal(size as nat) + " bytes from "@ + e@,
            None => "Reading "@ + decimal(size as nat) + " bytes from 0x"@ + hex(address as nat, false),
        },
        EngineCommand::WriteMemory { address, bytes } => "Writing "@ + decimal(bytes@.len()) + " bytes to 0x"@
            + hex(address as nat, false),
        EngineCommand::Backtrace { .. } => "Generating backtrace..."@,
        EngineCommand::ListThreads => "Listing threads..."@,
        EngineCommand::ListModules => "Listing modules..."@,
        EngineCommand::SelectThread { id } => "Selecting thread "@ + decimal(id as nat) + "..."@,
        EngineCommand::Disassemble { address, symbol, .. } => match address {
            Some(a) => "Disassembling at 0x"@ + hex(a as nat, false) + "..."@,
            None => match symbol {
                Some(s) => "Disassembling symbol "@ + s@ + "..."@,
                None => "Disassembling at RIP..."@,
            },
        },
        EngineCommand::SetDisassemblyConfig { auto_show, count } => match auto_show {
            Some(a) => "auto-disassemble = "@ + on_off(a),
            None => match count {
                Some(c) => "disassembly-count = "@ + decimal(c as nat),
                None => "No config change"@,
            },
        },
        EngineCommand::Print { frame_id, expression } => "Printing "@ + expression@ + " @ frame "@
            + decimal(frame_id as nat) + "..."@,
        EngineCommand::ListTasks => "Listing Tokio tasks..."@,
        EngineCommand::CargoLaunch { manifest_path, .. } => "Launching Cargo project: "@ + manifest_path@,
        EngineCommand::StepOver => "Avançando uma instrução (next)..."@,
        EngineCommand::StepOut => "Executando até o retorno (finish)..."@,
        EngineCommand::SetPrintConfig { limit, depth, pretty } => "Print config: "@ + join(
            print_config_parts(limit, depth, pretty),
            ", "@,
        ),
        EngineCommand::Quit => "Quitting..."@,
    }
}

/// Execute a command and return a human-readable result.
pub fn execute(cmd: &EngineCommand) -> (r: String)
    ensures
        r@ == execute_text(*cmd),
{
    let mut out = String::new();
    match cmd {
        EngineCommand::Launch { path, .. } => {
            out.append("Launching: ");
            out.append(path.as_str());
        },
        EngineCommand::Attach { pid } => {
            out.append("Attaching to PID: ");
            push_decimal(&mut out, *pid as u64);
        },
        EngineCommand::Continue => out.append("Continuing execution..."),
        EngineCommand::StepInto => out.append("Stepping..."),
        EngineCommand::SetBreakpoint { address, symbol } => {
            if let Some(addr) = address {
                out.append("Setting breakpoint at 0x");
                push_hex(&mut out, *addr, 0, false);
            } else if let Some(sym) = symbol {
                out.append("Setting breakpoint at ");
                out.append(sym.as_str());
            } else {
                out.append("Invalid breakpoint");
            }
        },
        EngineCommand::DeleteBreakpoint { id } => {
            out.append("Deleting breakpoint ");
            push_decimal(&mut out, *id);
        },
        EngineCommand::ReadRegisters { .. } => out.append("Reading registers..."),
        EngineCommand::ReadMemory { address, size, expression } => {
            out.append("Reading ");
            push_decimal(&mut out, *size as u64);
            if let Some(expr) = expression {
                out.append(" bytes from ");
                out.append(expr.as_str());
            } else {
                out.append(" bytes from 0x");
                push_hex(&mut out, *address, 0, false);
            }
        },
        EngineCommand::WriteMemory { address, bytes } => {
            out.append("Writing ");
            push_decimal(&mut out, bytes.len() as u64);
            out.append(" bytes to 0x");
            push_hex(&mut out, *address, 0, false);
        },
        EngineCommand::Backtrace { .. } => out.append("Generating backtrace..."),
        EngineCommand::ListThreads => out.append("Listing threads..."),
        EngineCommand::ListModules => out.append("Listing modules..."),
        EngineCommand::SelectThread { id } => {
            out.append("Selecting thread ");
            push_decimal(&mut out, *id as u64);
            out.append("...");
        },
        EngineCommand::Disassemble { address, symbol, .. } => {
            if let Some(addr) = address {
                out.append("Disassembling at 0x");
                push_hex(&mut out, *addr, 0, false);
                out.append("...");
            } else if let Some(sym) = symbol {
                out.append("Disassembling symbol ");
                out.append(sym.as_str());
                out.append("...");
            } else {
                out.append("Disassembling at RIP...");
            }
        },
        EngineCommand::SetDisassemblyConfig { auto_show, count } => {
            if let Some(auto) = auto_show {
                out.append("auto-disassemble = ");
                out.append(if *auto { "on" } else { "off" });
            } else if let Some(c) = count {
                out.append("disassembly-count = ");
                push_decimal(&mut out, *c as u64);
            } else {
                out.append("No config change");
            }
        },
        EngineCommand::Print { frame_id, expression } => {
            out.append("Printing ");
            out.append(expression.as_str());
            out.append(" @ frame ");
            push_decimal(&mut out, *frame_id);
            out.append("...");
        },
        EngineCommand::ListTasks => out.append("Listing Tokio tasks..."),
        EngineCommand::CargoLaunch { manifest_path, .. } => {
            out.append("Launching Cargo project: ");
            out.append(manifest_path.as_str());
        },
        EngineCommand::StepOver => out.append("Avançando uma instrução (next)..."),
        EngineCommand::StepOut => out.append("Executando até o retorno (finish)..."),
        EngineCommand::SetPrintConfig { limit, depth, pretty } => {
            out.append("Print config: ");
            let ghost start = out@;
            let ghost mut parts: Seq<Seq<char>> = Seq::empty();
            let mut count: usize = 0;
            if let Some(l) = limit {
                let mut part = String::from_str("limit=");
                push_decimal(&mut part, *l as u64);
                push_part(&mut out, count, ", ", part.as_str());
                proof {
                    lemma_join_push(parts, ", "@, part@);
                    parts = parts.push(part@);
                }
                count = count + 1;
            }
            if let Some(d) = depth {
                let mut part = String::from_str("depth=");
                push_decimal(&mut part, *d as u64);
                push_part(&mut out, count, ", ", part.as_str());
                proof {
                    lemma_join_push(parts, ", "@, part@);
                    parts = parts.push(part@);
                }
                count = count + 1;
            }
            if let Some(p) = pretty {
                let mut part = String::from_str("pretty=");
                part.append(if *p { "true" } else { "false" });
                push_part(&mut out, count, ", ", part.as_str());
                proof {
                    lemma_join_push(parts, ", "@, part@);
                    parts = parts.push(part@);
                }
                count = count + 1;
            }
            proof {
                assert(parts =~= print_config_parts(*limit, *depth, *pretty));
                assert(out@ =~= start + join(parts, ", "@));
            }
        },
        EngineCommand::Quit => out.append("Quitting..."),
    }
    assert(out@ =~= execute_text(*cmd));
    out
}

/// The text of a pretty-printed value.
pub open spec fn pretty_text(v: PrettyValue) -> Seq<char>
    decreases v, 0nat,
{
    match v {
        PrettyValue::Scalar(s) => s@,
        PrettyValue::Enum { name, payload } => match payload {
            None => name@,
            Some(p) => name@ + "("@ + pretty_text(*p) + ")"@,
        },
        PrettyValue::Sequence(items) => {
            proof {
                assert(decreases_to!(v => items));
                assert(decreases_to!(items => items@));
            }
            "["@ + pretty_items(items@, items@.len()) + "]"@
        },
        PrettyValue::Mapping(items) => {
            proof {
                assert(decreases_to!(v => items));
                assert(decreases_to!(items => items@));
            }
            "{"@ + pretty_pairs(items@, items@.len()) + "}"@
        },
        PrettyValue::Raw(s) => s@,
        PrettyValue::Truncated => "..."@,
    }
}

/// The first `n` items' texts joined with `", "`.
pub open spec fn pretty_items(items: Seq<PrettyValue>, n: nat) -> Seq<char>
    decreases items, n,
{
    if n == 0 || n > items.len() {
        Seq::empty()
    } else {
        proof {
            assert(decreases_to!(items => items[n - 1]));
        }
        if n == 1 {
            pretty_text(items[0])
        } else {
            pretty_items(items, (n - 1) as nat) + ", "@ + pretty_text(items[n - 1])
        }
    }
}

/// The first `n` pairs, each as `key: value`, joined with `", "`.
pub open spec fn pretty_pairs(items: Seq<(PrettyValue, PrettyValue)>, n: nat) -> Seq<char>
    decreases items, n,
{
    if n == 0 || n > items.len() {
        Seq::empty()
    } else {
        proof {
            assert(decreases_to!(items => items[n - 1]));
            assert(decreases_to!(items[n - 1] => items[n - 1].0));
            assert(decreases_to!(items[n - 1] => items[n - 1].1));
        }
        let pair = pretty_text(items[n - 1].0) + ": "@ + pretty_text(items[n - 1].1);
        if n == 1 {
            pair
        } else {
            pretty_pairs(items, (n - 1) as nat) + ", "@ + pair
        }
    }
}

/// Render a pretty-printed value as text.
pub fn format_pretty_value(value: &PrettyValue) -> (r: String)
    ensures
        r@ == pretty_text(*value),
    decreases value,
{
    match value {
        PrettyValue::Scalar(s) => s.clone(),
        PrettyValue::Enum { name, payload } => match payload {
            None => name.clone(),
            Some(p) => {
                let mut out = name.clone();
                out.append("(");
                let inner = format_pretty_value(&**p);
                out.append(inner.as_str());
                out.append(")");
                out
            },
        },
        PrettyValue::Sequence(items) => {
            let mut out = String::from_str("[");
            let ghost start = out@;
            let mut i: usize = 0;
            while i < items.len()
                invariant
                    i <= items@.len(),
                    *value == PrettyValue::Sequence(*items),
                    out@ == start + pretty_items(items@, i as nat),
                decreases items@.len() - i,
            {
                assert(decreases_to!(value => value->Sequence_0));
                assert(decreases_to!(value->Sequence_0 => value->Sequence_0@));
                assert(decreases_to!(value->Sequence_0@ => value->Sequence_0@[i as int]));
                let t = format_pretty_value(&items[i]);
                if i > 0 {
                    out.append(", ");
                }
                out.append(t.as_str());
                proof {
                    if i == 0 {
                        assert(out@ =~= start + pretty_items(items@, 1));
                    } else {
                        assert(out@ =~= start + pretty_items(items@, (i + 1) as nat));
                    }
                }
                i = i + 1;
            }
            out.append("]");
            assert(out@ =~= pretty_text(*value));
            out
        },
        PrettyValue::Mapping(items) => {
            let mut out = String::from_str("{");
            let ghost start = out@;
            let mut i: usize = 0;
            while i < items.len()
                invariant
                    i <= items@.len(),
                    *value == PrettyValue::Mapping(*items),
                    out@ == start + pretty_pairs(items@, i as nat),
                decreases items@.len() - i,
            {
                assert(decreases_to!(value => value->Mapping_0));
                assert(decreases_to!(value->Mapping_0 => value->Mapping_0@));
                assert(decreases_to!(value->Mapping_0@ => value->Mapping_0@[i as int]));
                assert(decreases_to!(value->Mapping_0@[i as int] => value->Mapping_0@[i as int].0));
                assert(decreases_to!(value->Mapping_0@[i as int] => value->Mapping_0@[i as int].1));
                let k = format_pretty_value(&items[i].0);
                let v = format_pretty_value(&items[i].1);
                if i > 0 {
                    out.append(", ");
                }
                out.append(k.as_str());
                out.append(": ");
                out.append(v.as_str());
                proof {
                    if i == 0 {
                        assert(out@ =~= start + pretty_pairs(items@, 1));
                    } else {
                        assert(out@ =~= start + pretty_pairs(items@, (i + 1) as nat));
                    }
                }
                i = i + 1;
            }
            out.append("}");
            assert(out@ =~= pretty_text(*value));
            out
        },
        PrettyValue::Raw(s) => s.clone(),
        PrettyValue::Truncated => String::from_str("..."),
    }
}

/// A register value as `{:016X}` prints it.
pub open spec fn hex16(v: u64) -> Seq<char> {
    pad_left(hex(v as nat, true), 16, '0')
}

/// The register table, one line per pair of registers.
pub open spec fn register_lines(c: RegisterContext) -> Seq<Seq<char>> {
    seq![
        "RAX: "@ + hex16(c.rax) + "  RBX: "@ + hex16(c.rbx),
        "RCX: "@ + hex16(c.rcx) + "  RDX: "@ + hex16(c.rdx),
        "RSI: "@ + hex16(c.rsi) + "  RDI: "@ + hex16(c.rdi),
        "RBP: "@ + hex16(c.rbp) + "  RSP: "@ + hex16(c.rsp),
        "RIP: "@ + hex16(c.rip) + "  RFLAGS: "@ + hex16(c.rflags),
        "R8:  "@ + hex16(c.r8) + "  R9:  "@ + hex16(c.r9),
        "R10: "@ + hex16(c.r10) + "  R11: "@ + hex16(c.r11),
        "R12: "@ + hex16(c.r12) + "  R13: "@ + hex16(c.r13),
        "R14: "@ + hex16(c.r14) + "  R15: "@ + hex16(c.r15)
    ]
}

fn push_register_pair(out: &mut String, count: usize, l1: &str, v1: u64, l2: &str, v2: u64)
    ensures
        final(out)@ == old(out)@ + (if count == 0 {
            Seq::<char>::empty()
        } else {
            "\n"@
        }) + l1@ + hex16(v1) + l2@ + hex16(v2),
{
    let ghost start = out@;
    if count > 0 {
        out.append("\n");
    }
    out.append(l1);
    push_hex(out, v1, 16, true);
    out.append(l2);
    push_hex(out, v2, 16, true);
    proof {
        if count == 0 {
            assert(out@ =~= start + Seq::<char>::empty() + l1@ + hex16(v1) + l2@ + hex16(v2));
        } else {
            assert(out@ =~= start + "\n"@ + l1@ + hex16(v1) + l2@ + hex16(v2));
        }
    }
}

fn push_register_line(
    out: &mut String,
    first: bool,
    Ghost(parts): Ghost<Seq<Seq<char>>>,
    l1: &str,
    v1: u64,
    l2: &str,
    v2: u64,
)
    requires
        old(out)@ == join(parts, "\n"@),
        first == (parts.len() == 0),
    ensures
        final(out)@ == join(parts.push(l1@ + hex16(v1) + l2@ + hex16(v2)), "\n"@),
{
    proof {
        lemma_join_push(parts, "\n"@, l1@ + hex16(v1) + l2@ + hex16(v2));
    }
    push_register_pair(out, if first { 0 } else { 1 }, l1, v1, l2, v2);
    proof {
        if parts.len() == 0 {
            assert(out@ =~= old(out)@ + (l1@ + hex16(v1) + l2@ + hex16(v2)));
        } else {
            assert(out@ =~= old(out)@ + "\n"@ + (l1@ + hex16(v1) + l2@ + hex16(v2)));
        }
    }
}

/// Format register context as a table.
pub fn format_registers(ctx: &RegisterContext) -> (r: String)
    ensures
        r@ == join(register_lines(*ctx), "\n"@),
{
    let mut out = String::new();
    let ghost c = *ctx;
    let ghost p0: Seq<Seq<char>> = Seq::empty();
    push_register_line(&mut out, true, Ghost(p0), "RAX: ", ctx.rax, "  RBX: ", ctx.rbx);
    let ghost p1 = p0.push("RAX: "@ + hex16(c.rax) + "  RBX: "@ + hex16(c.rbx));
    push_register_line(&mut out, false, Ghost(p1), "RCX: ", ctx.rcx, "  RDX: ", ctx.rdx);
    let ghost p2 = p1.push("RCX: "@ + hex16(c.rcx) + "  RDX: "@ + hex16(c.rdx));
    push_register_line(&mut out, false, Ghost(p2), "RSI: ", ctx.rsi, "  RDI: ", ctx.rdi);
    let ghost p3 = p2.push("RSI: "@ + hex16(c.rsi) + "  RDI: "@ + hex16(c.rdi));
    push_register_line(&mut out, false, Ghost(p3), "RBP: ", ctx.rbp, "  RSP: ", ctx.rsp);
    let ghost p4 = p3.push("RBP: "@ + hex16(c.rbp) + "  RSP: "@ + hex16(c.rsp));
    push_register_line(&mut out, false, Ghost(p4), "RIP: ", ctx.rip, "  RFLAGS: ", ctx.rflags);
    let ghost p5 = p4.push("RIP: "@ + hex16(c.rip) + "  RFLAGS: "@ + hex16(c.rflags));
    push_register_line(&mut out, false, Ghost(p5), "R8:  ", ctx.r8, "  R9:  ", ctx.r9);
    let ghost p6 = p5.push("R8:  "@ + hex16(c.r8) + "  R9:  "@ + hex16(c.r9));
    push_register_line(&mut out, false, Ghost(p6), "R10: ", ctx.r10, "  R11: ", ctx.r11);
    let ghost p7 = p6.push("R10: "@ + hex16(c.r10) + "  R11: "@ + hex16(c.r11));
    push_register_line(&mut out, false, Ghost(p7), "R12: ", ctx.r12, "  R13: ", ctx.r13);
    let ghost p8 = p7.push("R12: "@ + hex16(c.r12) + "  R13: "@ + hex16(c.r13));
    push_register_line(&mut out, false, Ghost(p8), "R14: ", ctx.r14, "  R15: ", ctx.r15);
    let ghost p9 = p8.push("R14: "@ + hex16(c.r14) + "  R15: "@ + hex16(c.r15));
    assert(p9 =~= register_lines(c));
    out
}

/// Each byte as two upper-case hex digits and a space.
pub open spec fn byte_hex_text(chunk: Seq<u8>) -> Seq<char>
    decreases chunk.len(),
{
    if chunk.len() == 0 {
        Seq::empty()
    } else {
        byte_hex_text(chunk.drop_last()) + pad_left(hex(chunk.last() as nat, true), 2, '0') + " "@
    }
}

/// The character the ASCII column shows for a byte: printable ASCII and
/// space as themselves, anything else as `.`.
pub open spec fn ascii_of(b: u8) -> char {
    if (0x21 <= b <= 0x7e) || b == 0x20 {
        b as char
    } else {
        '.'
    }
}

/// The ASCII column of a chunk.
pub open spec fn ascii_text(chunk: Seq<u8>) -> Seq<char> {
    chunk.map_values(|b: u8| ascii_of(b))
}

/// One hex-dump line: the (fixed) start address, the bytes in hex padded to
/// 48 columns, and the ASCII column.
pub open spec fn dump_line(address: u64, chunk: Seq<u8>) -> Seq<char> {
    "0x"@ + hex16(address) + ": "@ + pad_right(byte_hex_text(chunk), 48, ' ') + " |"@ + ascii_text(chunk)
        + "|"@
}

/// The `k`-th chunk of sixteen bytes (the last one may be shorter).
pub open spec fn chunk_at(bytes: Seq<u8>, k: int) -> Seq<u8> {
    let start = 16 * k;
    let end = if start + 16 <= bytes.len() {
        start + 16
    } else {
        bytes.len() as int
    };
    bytes.subrange(start, end)
}

/// The hex dump's lines, one per chunk of sixteen bytes.
pub open spec fn dump_lines(address: u64, bytes: Seq<u8>) -> Seq<Seq<char>> {
    Seq::new(((bytes.len() + 15) / 16) as nat, |k: int| dump_line(address, chunk_at(bytes, k)))
}

fn push_dump_line(out: &mut String, address: u64, bytes: &[u8], start: usize, end: usize)
    requires
        start <= end <= bytes@.len(),
    ensures
        final(out)@ == old(out)@ + dump_line(address, bytes@.subrange(start as int, end as int)),
{
    let ghost chunk = bytes@.subrange(start as int, end as int);
    let mut hex_part = String::new();
    let mut ascii = String::new();
    let mut i = start;
    while i < end
        invariant
            start <= i <= end <= bytes@.len(),
            hex_part@ == byte_hex_text(bytes@.subrange(start as int, i as int)),
            ascii@ == ascii_text(bytes@.subrange(start as int, i as int)),
        decreases end - i,
    {
        let b = bytes[i];
        push_hex(&mut hex_part, b as u64, 2, true);
        hex_part.append(" ");
        let c = if (0x21 <= b && b <= 0x7e) || b == 0x20 {
            b as char
        } else {
            '.'
        };
        crate::text::push_char(&mut ascii, c);
        proof {
            let next = bytes@.subrange(start as int, i + 1);
            assert(next.drop_last() =~= bytes@.subrange(start as int, i as int));
            assert(ascii_text(next) =~= ascii_text(bytes@.subrange(start as int, i as int)).push(c));
        }
        i = i + 1;
    }
    out.append("0x");
    push_hex(out, address, 16, true);
    out.append(": ");
    push_padded_right(out, hex_part.as_str(), 48, ' ');
    out.append(" |");
    out.append(ascii.as_str());
    out.append("|");
    assert(out@ =~= old(out)@ + dump_line(address, chunk));
}

/// Format a hex dump with ASCII sidebar: sixteen bytes per line, each line
/// labelled with `address`.
pub fn format_hex_dump(address: u64, bytes: &[u8]) -> (r: String)
    ensures
        r@ == join(dump_lines(address, bytes@), "\n"@),
{
    let n = bytes.len();
    let mut out = String::new();
    let mut start: usize = 0;
    let mut k: usize = 0;
    let ghost lines = dump_lines(address, bytes@);
    while start < n
        invariant
            n == bytes@.len(),
            start == (if 16 * k <= n {
                16 * k
            } else {
                n as int
            }),
            16 * k <= n + 15,
            lines.len() == (n + 15) / 16,
            k <= lines.len(),
            start < n ==> k < lines.len(),
            start >= n ==> k == lines.len(),
            lines == dump_lines(address, bytes@),
            out@ == join(lines.subrange(0, k as int), "\n"@),
        decreases n - start,
    {
        let end = if n - start >= 16 {
            start + 16
        } else {
            n
        };
        let ghost before = out@;
        if k > 0 {
            out.append("\n");
        }
        push_dump_line(&mut out, address, bytes, start, end);
        proof {
            assert(lines[k as int] == dump_line(address, bytes@.subrange(start as int, end as int)));
            lemma_join_push(lines.subrange(0, k as int), "\n"@, lines[k as int]);
            assert(lines.subrange(0, k + 1) =~= lines.subrange(0, k as int).push(lines[k as int]));
            if k == 0 {
                assert(out@ =~= before + lines[k as int]);
            } else {
                assert(out@ =~= before + "\n"@ + lines[k as int]);
            }
        }
        start = end;
        k = k + 1;
    }
    assert(lines.subrange(0, k as int) =~= lines);
    out
}

/// One backtrace line: frame number, then the symbol and its address, or
/// the return address when no symbol is known.
pub open spec fn backtrace_line(f: StackFrame) -> Seq<char> {
    "#"@ + decimal(f.frame_number as nat) + " "@ + match f.symbol {
        Some(s) => s.name@ + " + 0x"@ + hex(s.address as nat, false),
        None => "0x"@ + hex(f.return_address as nat, false),
    }
}

/// Format a stack trace.
pub fn format_backtrace(frames: &[StackFrame]) -> (r: String)
    ensures
        r@ == join(frames@.map_values(|f: StackFrame| backtrace_line(f)), "\n"@),
{
    let ghost lines = frames@.map_values(|f: StackFrame| backtrace_line(f));
    let mut out = String::new();
    let mut i: usize = 0;
    while i < frames.len()
        invariant
            i <= frames@.len(),
            lines == frames@.map_values(|f: StackFrame| backtrace_line(f)),
            out@ == join(lines.subrange(0, i as int), "\n"@),
        decreases frames@.len() - i,
    {
        let frame = &frames[i];
        let mut line = String::from_str("#");
        push_decimal(&mut line, frame.frame_number as u64);
        line.append(" ");
        match &frame.symbol {
            Some(sym) => {
                line.append(sym.name.as_str());
                line.append(" + 0x");
                push_hex(&mut line, sym.address, 0, false);
            },
            None => {
                line.append("0x");
                push_hex(&mut line, frame.return_address, 0, false);
            },
        }
        assert(line@ =~= lines[i as int]);
        push_part(&mut out, i, "\n", line.as_str());
        proof {
            lemma_join_push(lines.subrange(0, i as int), "\n"@, lines[i as int]);
            assert(lines.subrange(0, i + 1) =~= lines.subrange(0, i as int).push(lines[i as int]));
        }
        i = i + 1;
    }
    assert(lines.subrange(0, i as int) =~= lines);
    out
}

/// A task state as `{:?}` prints it.
pub open spec fn task_state_text(s: TaskState) -> Seq<char> {
    match s {
        TaskState::Running => "Running"@,
        TaskState::Idle => "Idle"@,
        TaskState::Sleeping => "Sleeping"@,
        TaskState::Completed => "Completed"@,
    }
}

/// One row of the task table.
pub open spec fn task_line(t: AsyncTask) -> Seq<char> {
    pad_right(decimal(t.task_id as nat), 4, ' ') + "  "@ + pad_right(task_state_text(t.state), 9, ' ')
        + "  "@ + pad_right(
        match t.function_name {
            Some(n) => n@,
            None => "unknown"@,
        },
        22,
        ' ',
    ) + "  "@ + match t.runtime_thread_id {
        Some(tid) => decimal(tid as nat),
        None => "-"@,
    }
}

/// The task table: a note when there are no tasks, otherwise a header, a
/// rule and one row per task.
pub open spec fn task_list_text(tasks: Seq<AsyncTask>) -> Seq<char> {
    if tasks.len() == 0 {
        "No tasks found."@
    } else {
        join(
            seq![
                "ID    State      Function                Thread"@,
                "----  ---------  ----------------------  ------"@,
            ] + tasks.map_values(|t: AsyncTask| task_line(t)),
            "\n"@,
        )
    }
}

/// Format the list of async tasks as a table.
pub fn format_task_list(tasks: &[AsyncTask]) -> (r: String)
    ensures
        r@ == task_list_text(tasks@),
{
    if tasks.len() == 0 {
        return String::from_str("No tasks found.");
    }
    let ghost head = seq![
        "ID    State      Function                Thread"@,
        "----  ---------  ----------------------  ------"@,
    ];
    let ghost rows = tasks@.map_values(|t: AsyncTask| task_line(t));
    let mut out = String::from_str("ID    State      Function                Thread");
    out.append("\n");
    out.append("----  ---------  ----------------------  ------");
    proof {
        reveal_with_fuel(join, 3);
        assert(head.drop_last() =~= seq![head[0]]);
        assert(out@ =~= join(head, "\n"@));
    }
    let mut i: usize = 0;
    while i < tasks.len()
        invariant
            i <= tasks@.len(),
            rows == tasks@.map_values(|t: AsyncTask| task_line(t)),
            head.len() == 2,
            out@ == join(head + rows.subrange(0, i as int), "\n"@),
        decreases tasks@.len() - i,
    {
        let task = &tasks[i];
        let mut line = String::new();
        let mut id = String::new();
        push_decimal(&mut id, task.task_id);
        push_padded_right(&mut line, id.as_str(), 4, ' ');
        line.append("  ");
        let state = match task.state {
            TaskState::Running => "Running",
            TaskState::Idle => "Idle",
            TaskState::Sleeping => "Sleeping",
            TaskState::Completed => "Completed",
        };
        push_padded_right(&mut line, state, 9, ' ');
        line.append("  ");
        match &task.function_name {
            Some(n) => push_padded_right(&mut line, n.as_str(), 22, ' '),
            None => push_padded_right(&mut line, "unknown", 22, ' '),
        }
        line.append("  ");
        match task.runtime_thread_id {
            Some(t) => push_decimal(&mut line, t as u64),
            None => line.append("-"),
        }
        assert(line@ =~= rows[i as int]);
        proof {
            let prev = head + rows.subrange(0, i as int);
            lemma_join_push(prev, "\n"@, rows[i as int]);
            assert(head + rows.subrange(0, i + 1) =~= prev.push(rows[i as int]));
        }
        out.append("\n");
        out.append(line.as_str());
        i = i + 1;
    }
    assert(rows.subrange(0, i as int) =~= rows);
    out
}

/// Execution commands start or resume the process: the prompt comes back
/// only when it pauses again.
pub open spec fn is_execution(cmd: EngineCommand) -> bool {
    cmd is Continue || cmd is StepInto || cmd is StepOver || cmd is StepOut || cmd is Launch
        || cmd is Attach
}

/// Whether a command starts or resumes the process.
pub fn is_execution_command(cmd: &EngineCommand) -> (r: bool)
    ensures
        r == is_execution(*cmd),
{
    match cmd {
        EngineCommand::Continue | EngineCommand::StepInto | EngineCommand::StepOver
        | EngineCommand::StepOut | EngineCommand::Launch { .. } | EngineCommand::Attach { .. } => true,
        _ => false,
    }
}

/// Pausing events: the process has stopped, so the prompt follows.
pub open spec fn is_pausing(event: EngineEvent) -> bool {
    event is BreakpointHit || event is SingleStep || event is StepCompleted || event is ProcessExited
        || event is Exception
}

/// Whether an event means the process has paused.
pub fn is_pausing_event(event: &EngineEvent) -> (r: bool)
    ensures
        r == is_pausing(*event),
{
    match event {
        EngineEvent::BreakpointHit { .. } | EngineEvent::SingleStep { .. }
        | EngineEvent::StepCompleted { .. } | EngineEvent::ProcessExited { .. }
        | EngineEvent::Exception { .. } => true,
        _ => false,
    }
}

/// The thread an event names, for the events that stop a thread.
pub fn thread_id_of(event: &EngineEvent) -> (r: Option<u32>)
    ensures
        r == match *event {
            EngineEvent::BreakpointHit { thread_id, .. } => Some(thread_id),
            EngineEvent::SingleStep { thread_id, .. } => Some(thread_id),
            EngineEvent::StepCompleted { thread_id, .. } => Some(thread_id),
            _ => None,
        },
{
    match event {
        EngineEvent::BreakpointHit { thread_id, .. } => Some(*thread_id),
        EngineEvent::SingleStep { thread_id, .. } => Some(*thread_id),
        EngineEvent::StepCompleted { thread_id, .. } => Some(*thread_id),
        _ => None,
    }
}

/// REPL configuration state.
#[derive(Debug, Clone, Copy, PartialEq, Eq, Structural)]
pub struct ReplConfig {
    pub auto_disassemble: bool,
    pub disassembly_count: usize,
    pub pretty_print: bool,
    pub print_limit: u32,
    pub print_depth: u32,
}

impl Default for ReplConfig {
    /// No auto-disassembly, ten lines of disassembly, pretty-printing on
    /// with a limit of 100 elements and depth 5.
    fn default() -> (r: Self)
        ensures
            r == (ReplConfig {
                auto_disassemble: false,
                disassembly_count: 10,
                pretty_print: true,
                print_limit: 100,
                print_depth: 5,
            }),
    {
        ReplConfig {
            auto_disassemble: false,
            disassembly_count: 10,
            pretty_print: true,
            print_limit: 100,
            print_depth: 5,
        }
    }
}

/// A memory reader over bytes already fetched from the debuggee, starting
/// at offset zero. Reads past the end yield zeros; reads that start inside
/// but run past the end are cut at the end.
pub struct MemoryBytesReader {
    pub bytes: Vec<u8>,
}

/// `n` zero bytes.
pub open spec fn zeros(n: nat) -> Seq<u8> {
    Seq::new(n, |i: int| 0u8)
}

impl MemoryBytesReader {
    /// A reader over `bytes`.
    pub fn new(bytes: Vec<u8>) -> (r: Self)
        ensures
            r.bytes == bytes,
    {
        MemoryBytesReader { bytes }
    }
}

impl MemoryReader for MemoryBytesReader {
    open spec fn spec_read_bytes(&self, address: usize, len: usize) -> Option<Seq<u8>> {
        let n = self.bytes@.len();
        if address >= n {
            Some(zeros(len as nat))
        } else {
            let end = if address + len <= n {
                address + len
            } else {
                n as int
            };
            Some(self.bytes@.subrange(address as int, end))
        }
    }

    fn read_bytes(&self, address: usize, len: usize) -> (r: Result<Vec<u8>, crate::types::DebugError>) {
        let n = self.bytes.len();
        if address >= n {
            let mut z: Vec<u8> = Vec::new();
            let mut i: usize = 0;
            while i < len
                invariant
                    i <= len,
                    z@ == zeros(i as nat),
                decreases len - i,
            {
                z.push(0u8);
                i = i + 1;
                assert(z@ =~= zeros(i as nat));
            }
            return Ok(z);
        }
        let end = if len <= n - address {
            address + len
        } else {
            n
        };
        let mut out: Vec<u8> = Vec::new();
        let mut i = address;
        while i < end
            invariant
                address <= i <= end <= n,
                n == self.bytes@.len(),
                out@ == self.bytes@.subrange(address as int, i as int),
            decreases end - i,
        {
            out.push(self.bytes[i]);
            i = i + 1;
            assert(out@ =~= self.bytes@.subrange(address as int, i as int));
        }
        Ok(out)
    }
}

/// The budget the REPL pretty-prints memory with.
pub open spec fn print_budget(config: ReplConfig) -> FormatBudget {
    FormatBudget { max_depth: config.print_depth, max_elements: config.print_limit, max_bytes: 4096 }
}

/// Whether the `Vec` printer fails on the reader (a read it needs fails).
pub open spec fn vec_fails<R: MemoryReader>(reader: &R, b: FormatBudget) -> bool {
    !exhausted(b) && match header(reader, 0) {
        None => true,
        Some((ptr, len)) => {
            let limit = vec_limit(len, b);
            limit > 0 && limit != b.max_elements && !element_reads_ok(reader, ptr, limit)
        },
    }
}

/// Whether the `String` printer fails on the reader.
pub open spec fn string_fails<R: MemoryReader>(reader: &R, b: FormatBudget) -> bool {
    !exhausted(b) && match header(reader, 0) {
        None => true,
        Some((ptr, len)) => reader.spec_read_bytes(
            ptr as usize,
            crate::budget::min_nat(len, b.max_bytes as nat) as usize,
        ) is None,
    }
}

/// The summary line for fetched memory.
pub open spec fn memory_summary(address: u64, n: nat) -> Seq<char> {
    "Memory @ 0x"@ + hex(address as nat, false) + ": "@ + decimal(n) + " bytes"@
}

/// What the REPL shows for fetched memory: with pretty-printing on, the
/// bytes read as a `Vec` header, or else as a `String` header, whichever
/// succeeds first; otherwise a summary of the byte count.
pub open spec fn memory_text(address: u64, bytes: Vec<u8>, config: ReplConfig, s: Seq<char>) -> bool {
    let reader = MemoryBytesReader { bytes };
    let b = print_budget(config);
    let prefix = "Pretty-print @ 0x"@ + hex(address as nat, false) + ":\n"@;
    if !config.pretty_print {
        s == memory_summary(address, bytes@.len())
    } else if !vec_fails(&reader, b) {
        exists|v: PrettyValue, b2: FormatBudget|
            #[trigger] vec_outcome(&reader, 0, b, b2, Ok(v)) && s == prefix + pretty_text(v)
    } else if !string_fails(&reader, b) {
        exists|v: PrettyValue, b2: FormatBudget|
            #[trigger] string_outcome(&reader, 0, b, b2, Ok(v)) && s == prefix + pretty_text(v)
    } else {
        s == memory_summary(address, bytes@.len())
    }
}

/// The fetched memory can be pretty-printed without the printers' address
/// arithmetic leaving the address range.
pub open spec fn memory_text_ok(bytes: Vec<u8>, config: ReplConfig) -> bool {
    let reader = MemoryBytesReader { bytes };
    let b = print_budget(config);
    config.pretty_print ==> vec_format_ok(&reader, 0, b) && string_format_ok(&reader, 0, b)
}

/// The text shown for a `MemoryBytes` event.
pub fn format_memory(address: u64, bytes: Vec<u8>, config: &ReplConfig) -> (r: String)
    requires
        memory_text_ok(bytes, *config),
    ensures
        memory_text(address, bytes, *config, r@),
{
    let mut summary = String::from_str("Memory @ 0x");
    push_hex(&mut summary, address, 0, false);
    summary.append(": ");
    push_decimal(&mut summary, bytes.len() as u64);
    summary.append(" bytes");
    if !config.pretty_print {
        return summary;
    }
    let reader = MemoryBytesReader { bytes };
    let mut budget = FormatBudget::new(config.print_depth, config.print_limit, 4096);
    let mut prefix = String::from_str("Pretty-print @ 0x");
    push_hex(&mut prefix, address, 0, false);
    prefix.append(":\n");
    match BuiltinPrinter::VecPrinter.format(&reader, 0, &mut budget) {
        Ok(v) => {
            let t = format_pretty_value(&v);
            prefix.append(t.as_str());
            return prefix;
        },
        Err(_) => {},
    }
    let mut budget2 = FormatBudget::new(config.print_depth, config.print_limit, 4096);
    match BuiltinPrinter::StringPrinter.format(&reader, 0, &mut budget2) {
        Ok(v) => {
            let t = format_pretty_value(&v);
            prefix.append(t.as_str());
            prefix
        },
        Err(_) => summary,
    }
}

/// Whether fetched memory can be shown, that is `memory_text_ok` decided:
/// with pretty-printing on and budget left, the header words must be whole
/// and the element addresses of the `Vec` reading must stay in range.
pub fn memory_printable(bytes: &Vec<u8>, config: &ReplConfig) -> (r: bool)
    ensures
        r == memory_text_ok(*bytes, *config),
{
    if !config.pretty_print {
        return true;
    }
    let budget = FormatBudget::new(config.print_depth, config.print_limit, 4096);
    if budget.is_exhausted() {
        return true;
    }
    let copy = bytes.clone();
    assert(copy@ =~= bytes@);
    let reader = MemoryBytesReader { bytes: copy };
    let ghost source = MemoryBytesReader { bytes: *bytes };
    assert(forall|a: usize, l: usize| #[trigger] reader.spec_read_bytes(a, l) == source.spec_read_bytes(a, l));
    let p = match reader.read_bytes(0, 8) {
        Ok(p) => p,
        Err(_) => {
            return false;
        },
    };
    if p.len() != 8 {
        return false;
    }
    let l = match reader.read_bytes(8, 8) {
        Ok(l) => l,
        Err(_) => {
            return false;
        },
    };
    if l.len() != 8 {
        return false;
    }
    let ptr = le_u64(&p);
    let len = le_u64(&l);
    assert(header(&source, 0) == Some((ptr as nat, len as nat)));
    let cut = len % 0x1_0000_0000;
    let limit: u64 = if cut < config.print_limit as u64 {
        cut
    } else {
        config.print_limit as u64
    };
    assert(limit == vec_limit(len as nat, print_budget(*config)));
    if (ptr as u128) > (usize::MAX as u128) {
        return false;
    }
    if limit != config.print_limit as u64 && limit > 0 {
        if (ptr as u128) + ((limit - 1) as u128) > (usize::MAX as u128) {
            let ghost last = (limit - 1) as nat;
            assert(element_reads_ok(&source, ptr as nat, last)) by {
                assert forall|i: nat| i < last implies (#[trigger] element_read(&source, ptr as nat, i)) is Some by {}
            }
            assert(!elements_ok(&source, ptr as nat, limit as nat)) by {
                assert(element_read(&source, ptr as nat, last) == element_read(&source, ptr as nat, last));
            }
            return false;
        }
        assert(elements_ok(&source, ptr as nat, limit as nat)) by {
            assert forall|i: nat| i < limit && element_reads_ok(&source, ptr as nat, i) implies ptr + i <= usize::MAX && (
                #[trigger] element_read(&source, ptr as nat, i) matches Some(b) ==> b.len() >= 1) by {}
        }
    }
    true
}

/// Whether the REPL can print `event` (`event_text_ok` decided).
pub fn event_printable(event: &EngineEvent, config: &ReplConfig) -> (r: bool)
    ensures
        r == event_text_ok(*event, *config),
{
    match event {
        EngineEvent::MemoryBytes { bytes, .. } => memory_printable(bytes, config),
        _ => true,
    }
}

/// The line a stop event prints: where, and on which thread.
pub open spec fn stop_text(label: Seq<char>, address: u64, tid: u32) -> Seq<char> {
    label + " Hit em 0x"@ + hex(address as nat, false) + " — Thread "@ + decimal(tid as nat)
}

/// What the REPL prints for an event, if anything.
pub open spec fn event_text(event: EngineEvent, config: ReplConfig, r: Option<String>) -> bool {
    match event {
        EngineEvent::ProcessLaunched { pid, .. } => r matches Some(t) && t@ == "Processo iniciado: PID "@
            + decimal(pid as nat),
        EngineEvent::ProcessAttached { pid } => r matches Some(t) && t@ == "Anexado ao processo: PID "@
            + decimal(pid as nat),
        EngineEvent::BreakpointHit { kind, address, thread_id } => match kind {
            BreakpointKind::SystemInitial => r matches Some(t) && t@ == stop_text(
                "[System Breakpoint]"@,
                address,
                thread_id,
            ),
            BreakpointKind::UserDefined(id) => r matches Some(t) && t@ == stop_text(
                "[Breakpoint "@ + decimal(id as nat) + "]"@,
                address,
                thread_id,
            ),
            BreakpointKind::Unknown => r matches Some(t) && t@ == stop_text(
                "[Unknown Breakpoint]"@,
                address,
                thread_id,
            ),
            BreakpointKind::Temporary => r is None,
        },
        EngineEvent::SingleStep { address, thread_id } => r matches Some(t) && t@ == "[Single Step] 0x"@
            + hex(address as nat, false) + " — Thread "@ + decimal(thread_id as nat),
        EngineEvent::Exception { code, address } => r matches Some(t) && t@ == "[Exception 0x"@ + pad_left(
            hex(code as nat, true),
            8,
            '0',
        ) + "] em 0x"@ + hex(address as nat, false),
        EngineEvent::ProcessExited { code } => r matches Some(t) && t@ == "[Processo encerrado] código: "@
            + decimal(code as nat),
        EngineEvent::ThreadCreated { id, .. } => r matches Some(t) && t@ == "[Thread criada] TID "@
            + decimal(id as nat),
        EngineEvent::ThreadExited { id, code } => r matches Some(t) && t@ == "[Thread encerrada] TID "@
            + decimal(id as nat) + " (código: "@ + decimal(code as nat) + ")"@,
        EngineEvent::ModuleLoaded { name, base } => r matches Some(t) && t@ == "[Módulo carregado] "@
            + name@ + " em 0x"@ + hex(base as nat, false),
        EngineEvent::ModuleUnloaded { base } => r matches Some(t) && t@ == "[Módulo descarregado] 0x"@
            + hex(base as nat, false),
        EngineEvent::Error { message } => r matches Some(t) && t@ == "Erro: "@ + message@,
        EngineEvent::Output { message } => r matches Some(t) && t@ == message@,
        EngineEvent::PrettyValue { value } => r matches Some(t) && t@ == pretty_text(value),
        EngineEvent::TaskList { tasks } => r matches Some(t) && t@ == task_list_text(tasks@),
        EngineEvent::MemoryBytes { address, bytes } => r matches Some(t) && memory_text(
            address,
            bytes,
            config,
            t@,
        ),
        EngineEvent::StepCompleted { thread_id, address } => r matches Some(t) && t@
            == "[Step] Instrução executada. IP=0x"@ + hex(address as nat, false) + " — Thread "@ + decimal(
            thread_id as nat,
        ),
        _ => r is None,
    }
}

/// The events the REPL can print: fetched memory must be decodable within
/// the address range.
pub open spec fn event_text_ok(event: EngineEvent, config: ReplConfig) -> bool {
    event matches EngineEvent::MemoryBytes { bytes, .. } ==> memory_text_ok(bytes, config)
}

fn stop_line(label: &str, address: u64, tid: u32) -> (r: String)
    ensures
        r@ == stop_text(label@, address, tid),
{
    let mut t = String::from_str(label);
    t.append(" Hit em 0x");
    push_hex(&mut t, address, 0, false);
    t.append(" — Thread ");
    push_decimal(&mut t, tid as u64);
    t
}

/// The line the REPL prints for an engine event; `None` for the structured
/// events that only the TUI consumes and for temporary breakpoints.
pub fn event_line(event: EngineEvent, config: &ReplConfig) -> (r: Option<String>)
    requires
        event_text_ok(event, *config),
    ensures
        event_text(event, *config, r),
{
    let mut t = String::new();
    match event {
        EngineEvent::ProcessLaunched { pid, .. } => {
            t.append("Processo iniciado: PID ");
            push_decimal(&mut t, pid as u64);
        },
        EngineEvent::ProcessAttached { pid } => {
            t.append("Anexado ao processo: PID ");
            push_decimal(&mut t, pid as u64);
        },
        EngineEvent::BreakpointHit { kind, address, thread_id } => {
            match kind {
                BreakpointKind::SystemInitial => {
                    return Some(stop_line("[System Breakpoint]", address, thread_id));
                },
                BreakpointKind::UserDefined(id) => {
                    let mut label = String::from_str("[Breakpoint ");
                    push_decimal(&mut label, id);
                    label.append("]");
                    return Some(stop_line(label.as_str(), address, thread_id));
                },
                BreakpointKind::Unknown => {
                    return Some(stop_line("[Unknown Breakpoint]", address, thread_id));
                },
                BreakpointKind::Temporary => {
                    return None;
                },
            }
        },
        EngineEvent::SingleStep { address, thread_id } => {
            t.append("[Single Step] 0x");
            push_hex(&mut t, address, 0, false);
            t.append(" — Thread ");
            push_decimal(&mut t, thread_id as u64);
        },
        EngineEvent::Exception { code, address } => {
            t.append("[Exception 0x");
            push_hex(&mut t, code as u64, 8, true);
            t.append("] em 0x");
            push_hex(&mut t, address, 0, false);
        },
        EngineEvent::ProcessExited { code } => {
            t.append("[Processo encerrado] código: ");
            push_decimal(&mut t, code as u64);
        },
        EngineEvent::ThreadCreated { id, .. } => {
            t.append("[Thread criada] TID ");
            push_decimal(&mut t, id as u64);
        },
        EngineEvent::ThreadExited { id, code } => {
            t.append("[Thread encerrada] TID ");
            push_decimal(&mut t, id as u64);
            t.append(" (código: ");
            push_decimal(&mut t, code as u64);
            t.append(")");
        },
        EngineEvent::ModuleLoaded { name, base } => {
            t.append("[Módulo carregado] ");
            t.append(name.as_str());
            t.append(" em 0x");
            push_hex(&mut t, base, 0, false);
        },
        EngineEvent::ModuleUnloaded { base } => {
            t.append("[Módulo descarregado] 0x");
            push_hex(&mut t, base, 0, false);
        },
        EngineEvent::Error { message } => {
            t.append("Erro: ");
            t.append(message.as_str());
        },
        EngineEvent::Output { message } => {
            return Some(message);
        },
        EngineEvent::PrettyValue { value } => {
            return Some(format_pretty_value(&value));
        },
        EngineEvent::TaskList { tasks } => {
            return Some(format_task_list(tasks.as_slice()));
        },
        EngineEvent::MemoryBytes { address, bytes } => {
            return Some(format_memory(address, bytes, config));
        },
        EngineEvent::StepCompleted { thread_id, address } => {
            t.append("[Step] Instrução executada. IP=0x");
            push_hex(&mut t, address, 0, false);
            t.append(" — Thread ");
            push_decimal(&mut t, thread_id as u64);
        },
        _ => {
            return None;
        },
    }
    Some(t)
}

} // verus!

verus! {

proof fn lemma_byte_hex_len(chunk: Seq<u8>)
    ensures
        byte_hex_text(chunk).len() == 3 * chunk.len(),
    decreases chunk.len(),
{
    reveal_strlit(" ");
    if chunk.len() > 0 {
        lemma_byte_hex_len(chunk.drop_last());
        crate::text::lemma_hex_len_bounds(chunk.last(), 0, true);
        crate::text::lemma_pad_len(hex(chunk.last() as nat, true), 2, '0');
    }
}

/// One line of a hex dump, for up to sixteen bytes: 70 columns of address
/// and hex digits, then ` |`, one character per byte, and `|`. Each
/// byte's character is the byte itself when it is ASCII graphic (`!` to
/// `~`) or a space, and `.` otherwise.
pub proof fn law_dump_line_ascii(address: u64, chunk: Seq<u8>)
    requires
        chunk.len() <= 16,
    ensures
        dump_line(address, chunk).len() == 71 + chunk.len(),
        dump_line(address, chunk).subrange(68, 70) == " |"@,
        dump_line(address, chunk).last() == '|',
        forall|i: int|
            0 <= i < chunk.len() ==> dump_line(address, chunk)[70 + i] == if (0x21 <= #[trigger] chunk[i] <= 0x7e)
                || chunk[i] == 0x20 {
                chunk[i] as char
            } else {
                '.'
            },
{
    reveal_strlit("0x");
    reveal_strlit(": ");
    reveal_strlit(" |");
    reveal_strlit("|");
    lemma_byte_hex_len(chunk);
    crate::text::lemma_pad_len(byte_hex_text(chunk), 48, ' ');
    crate::text::lemma_hex_len_bounds(0, address, true);
    crate::text::lemma_pad_len(hex(address as nat, true), 16, '0');
    let a = ascii_text(chunk);
    let head = "0x"@ + hex16(address) + ": "@ + pad_right(byte_hex_text(chunk), 48, ' ') + " |"@;
    assert(head.len() == 70);
    let t = dump_line(address, chunk);
    assert(t =~= head + a + "|"@);
    assert(t.subrange(68, 70) =~= " |"@) by {
        assert(t.subrange(68, 70) =~= head.subrange(68, 70));
    }
    assert forall|i: int| 0 <= i < chunk.len() implies t[70 + i] == if (0x21 <= #[trigger] chunk[i] <= 0x7e)
        || chunk[i] == 0x20 {
        chunk[i] as char
    } else {
        '.'
    } by {
        assert(t[70 + i] == a[i]);
    }
}

/// Every byte of a hex dump shows in the ASCII column of its line: byte
/// `j` is on line `j / 16`, in column `70 + j % 16`, as itself when it is
/// ASCII graphic or a space and as `.` otherwise.
pub proof fn law_hex_dump_ascii_column(address: u64, bytes: Seq<u8>)
    ensures
        forall|j: int|
            0 <= j < bytes.len() ==> dump_lines(address, bytes)[j / 16][70 + j % 16] == if (0x21
                <= #[trigger] bytes[j] <= 0x7e) || bytes[j] == 0x20 {
                bytes[j] as char
            } else {
                '.'
            },
{
    assert forall|j: int| 0 <= j < bytes.len() implies dump_lines(address, bytes)[j / 16][70 + j % 16] == if (0x21
        <= #[trigger] bytes[j] <= 0x7e) || bytes[j] == 0x20 {
        bytes[j] as char
    } else {
        '.'
    } by {
        let k = j / 16;
        let i = j % 16;
        assert(j == 16 * k + i);
        let c = chunk_at(bytes, k);
        assert(k < (bytes.len() + 15) / 16);
        assert(dump_lines(address, bytes)[k] == dump_line(address, c));
        assert(c.len() <= 16);
        assert(i < c.len());
        assert(c[i] == bytes[j]);
        law_dump_line_ascii(address, c);
    }
}

} // verus!

verus! {

/// `line` shows the label `name` at column `at`, followed by the sixteen
/// upper-case hexadecimal digits of `v` (zero-padded).
pub open spec fn shows_register(line: Seq<char>, at: int, name: Seq<char>, v: u64) -> bool {
    &&& 0 <= at
    &&& at + name.len() + 16 <= line.len()
    &&& line.subrange(at, at + name.len()) == name
    &&& line.subrange(at + name.len(), at + name.len() + 16) == pad_left(hex(v as nat, true), 16, '0')
}

proof fn lemma_register_pair(n1: Seq<char>, v1: u64, n2: Seq<char>, v2: u64)
    ensures
        shows_register(n1 + hex16(v1) + n2 + hex16(v2), 0, n1, v1),
        shows_register(n1 + hex16(v1) + n2 + hex16(v2), n1.len() as int + 16, n2, v2),
{
    crate::text::lemma_hex_len_bounds(0, v1, true);
    crate::text::lemma_pad_len(hex(v1 as nat, true), 16, '0');
    crate::text::lemma_hex_len_bounds(0, v2, true);
    crate::text::lemma_pad_len(hex(v2 as nat, true), 16, '0');
    let t = n1 + hex16(v1) + n2 + hex16(v2);
    let a: int = n1.len() as int;
    let b: int = a + 16 + n2.len();
    assert(t.subrange(0, n1.len() as int) =~= n1);
    assert(t.subrange(a, a + 16) =~= hex16(v1));
    assert(t.subrange(a + 16, b) =~= n2);
    assert(t.subrange(b, b + 16) =~= hex16(v2));
}

/// The register table shows every register under its own name: on each
/// line, the label at column 0 and the label at column 21 are each
/// followed by the sixteen hex digits of that same register of the
/// context (RBP's value after `RBP: `, RSP's after `  RSP: `, and so on).
pub proof fn law_register_lines_show_each_register(c: RegisterContext)
    ensures
        register_lines(c).len() == 9,
        shows_register(register_lines(c)[0], 0, "RAX: "@, c.rax),
        shows_register(register_lines(c)[0], 21, "  RBX: "@, c.rbx),
        shows_register(register_lines(c)[1], 0, "RCX: "@, c.rcx),
        shows_register(register_lines(c)[1], 21, "  RDX: "@, c.rdx),
        shows_register(register_lines(c)[2], 0, "RSI: "@, c.rsi),
        shows_register(register_lines(c)[2], 21, "  RDI: "@, c.rdi),
        shows_register(register_lines(c)[3], 0, "RBP: "@, c.rbp),
        shows_register(register_lines(c)[3], 21, "  RSP: "@, c.rsp),
        shows_register(register_lines(c)[4], 0, "RIP: "@, c.rip),
        shows_register(register_lines(c)[4], 21, "  RFLAGS: "@, c.rflags),
        shows_register(register_lines(c)[5], 0, "R8:  "@, c.r8),
        shows_register(register_lines(c)[5], 21, "  R9:  "@, c.r9),
        shows_register(register_lines(c)[6], 0, "R10: "@, c.r10),
        shows_register(register_lines(c)[6], 21, "  R11: "@, c.r11),
        shows_register(register_lines(c)[7], 0, "R12: "@, c.r12),
        shows_register(register_lines(c)[7], 21, "  R13: "@, c.r13),
        shows_register(register_lines(c)[8], 0, "R14: "@, c.r14),
        shows_register(register_lines(c)[8], 21, "  R15: "@, c.r15),
{
    reveal_strlit("RAX: ");
    reveal_strlit("  RBX: ");
    reveal_strlit("RCX: ");
    reveal_strlit("  RDX: ");
    reveal_strlit("RSI: ");
    reveal_strlit("  RDI: ");
    reveal_strlit("RBP: ");
    reveal_strlit("  RSP: ");
    reveal_strlit("RIP: ");
    reveal_strlit("  RFLAGS: ");
    reveal_strlit("R8:  ");
    reveal_strlit("  R9:  ");
    reveal_strlit("R10: ");
    reveal_strlit("  R11: ");
    reveal_strlit("R12: ");
    reveal_strlit("  R13: ");
    reveal_strlit("R14: ");
    reveal_strlit("  R15: ");
    lemma_register_pair("RAX: "@, c.rax, "  RBX: "@, c.rbx);
    lemma_register_pair("RCX: "@, c.rcx, "  RDX: "@, c.rdx);
    lemma_register_pair("RSI: "@, c.rsi, "  RDI: "@, c.rdi);
    lemma_register_pair("RBP: "@, c.rbp, "  RSP: "@, c.rsp);
    lemma_register_pair("RIP: "@, c.rip, "  RFLAGS: "@, c.rflags);
    lemma_register_pair("R8:  "@, c.r8, "  R9:  "@, c.r9);
    lemma_register_pair("R10: "@, c.r10, "  R11: "@, c.r11);
    lemma_register_pair("R12: "@, c.r12, "  R13: "@, c.r13);
    lemma_register_pair("R14: "@, c.r14, "  R15: "@, c.r15);
}

} // verus!
