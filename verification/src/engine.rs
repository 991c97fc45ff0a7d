//! The debug engine: the state machine that turns user commands and debug
//! events into backend requests, state changes and events for the user.

use vstd::prelude::*;
use crate::breakpoint::{Breakpoint, BreakpointManager};
use crate::disasm::{comment_ok, line_of, view_text, x86_decoding, DecodedInstruction, DisassemblyConfig, DisassemblyView, Disassembler};
use std::collections::HashMap;
use std::collections::HashSet;
use crate::table::{Keyed, Table, key_index, keys_unique, table_get, table_put, table_delete};
use crate::text::{
    decimal, hex, join, lemma_join_push, pad_left, pad_right, push_decimal, push_hex,
    push_padded_right, push_part, str_eq,
};
use crate::expr::{evaluate_expression, eval_result};
use crate::repl::{bool_text, dump_lines, format_hex_dump, format_pretty_value, format_registers, pretty_text, register_lines};
use crate::types::{
    debug_error_text, PrettyValue,
    DebugError, DebugLoopCommand, EngineCommand, EngineEvent, BreakpointKind, Module,
    ProcessHandle, RawHandle, RegisterContext, StackFrame, Thread, ThreadState,
};

verus! {

impl Keyed for Thread {
    open spec fn key(&self) -> u64 {
        self.id as u64
    }

    fn key_of(&self) -> (r: u64) {
        self.id as u64
    }
}

impl Keyed for Module {
    open spec fn key(&self) -> u64 {
        self.base_address
    }

    fn key_of(&self) -> (r: u64) {
        self.base_address
    }
}

/// The register context saved for a thread when it stopped at a breakpoint.
#[derive(Debug, Clone, Copy)]
pub struct SavedContext {
    pub thread_id: u32,
    pub ctx: RegisterContext,
}

impl Keyed for SavedContext {
    open spec fn key(&self) -> u64 {
        self.thread_id as u64
    }

    fn key_of(&self) -> (r: u64) {
        self.thread_id as u64
    }
}

/// Name of a thread state as the thread list shows it.
pub open spec fn thread_state_name(s: ThreadState) -> Seq<char> {
    match s {
        ThreadState::Running => "Running"@,
        ThreadState::Suspended => "Suspended"@,
        ThreadState::Exited { .. } => "Exited"@,
    }
}

/// One line of the thread list.
pub open spec fn thread_line(t: Thread, selected: Option<u32>) -> Seq<char> {
    " "@ + pad_right(decimal(t.id as nat), 8, ' ') + " "@ + pad_right(
        thread_state_name(t.state),
        11,
        ' ',
    ) + " "@ + (if selected == Some(t.id) {
        " *"@
    } else {
        ""@
    })
}

/// Header of the thread list.
pub open spec fn thread_list_header() -> Seq<char> {
    " TID      Estado      Selecionada"@
}

/// The thread list: a header, then one line per thread.
pub open spec fn thread_list_text(ts: Seq<Thread>, selected: Option<u32>) -> Seq<char> {
    join(
        seq![thread_list_header()] + Seq::new(ts.len(), |i: int| thread_line(ts[i], selected)),
        "\n"@,
    )
}

/// One line of the module list.
pub open spec fn module_line(m: Module) -> Seq<char> {
    " "@ + pad_right(m.name@, 19, ' ') + " 0x"@ + pad_left(hex(m.base_address as nat, true), 16, '0')
        + " 0x"@ + pad_left(hex(m.size as nat, true), 8, '0') + " "@ + (if m.symbols_loaded {
        "✓"@
    } else {
        "✗"@
    })
}

/// Header of the module list.
pub open spec fn module_list_header() -> Seq<char> {
    " Nome                Base              Tamanho    Símbolos"@
}

/// The module list: a header, then one line per module.
pub open spec fn module_list_text(ms: Seq<Module>) -> Seq<char> {
    join(seq![module_list_header()] + Seq::new(ms.len(), |i: int| module_line(ms[i])), "\n"@)
}

/// One line of a backtrace: frame number, return address and symbol name.
pub open spec fn frame_line(f: StackFrame) -> Seq<char> {
    "#"@ + pad_right(decimal(f.frame_number as nat), 4, ' ') + " 0x"@ + pad_left(
        hex(f.return_address as nat, false),
        16,
        '0',
    ) + " "@ + match f.symbol {
        Some(s) => s.name@,
        None => "??"@,
    }
}

/// The backtrace text: one line per frame, or a note that there are none.
pub open spec fn stack_text(frames: Seq<StackFrame>) -> Seq<char> {
    if frames.len() == 0 {
        "(no stack frames)"@
    } else {
        join(Seq::new(frames.len(), |i: int| frame_line(frames[i])), "\n"@)
    }
}

/// The register that `$name` stands for in a memory-read expression.
pub open spec fn register_named(ctx: RegisterContext, name: Seq<char>) -> Option<u64> {
    if name == "$rsp"@ {
        Some(ctx.rsp)
    } else if name == "$rip"@ {
        Some(ctx.rip)
    } else if name == "$rax"@ {
        Some(ctx.rax)
    } else if name == "$rbx"@ {
        Some(ctx.rbx)
    } else if name == "$rcx"@ {
        Some(ctx.rcx)
    } else if name == "$rdx"@ {
        Some(ctx.rdx)
    } else if name == "$rsi"@ {
        Some(ctx.rsi)
    } else if name == "$rdi"@ {
        Some(ctx.rdi)
    } else if name == "$rbp"@ {
        Some(ctx.rbp)
    } else if name == "$r8"@ {
        Some(ctx.r8)
    } else if name == "$r9"@ {
        Some(ctx.r9)
    } else if name == "$r10"@ {
        Some(ctx.r10)
    } else if name == "$r11"@ {
        Some(ctx.r11)
    } else if name == "$r12"@ {
        Some(ctx.r12)
    } else if name == "$r13"@ {
        Some(ctx.r13)
    } else if name == "$r14"@ {
        Some(ctx.r14)
    } else if name == "$r15"@ {
        Some(ctx.r15)
    } else {
        None
    }
}

/// The register a memory-read expression such as `$rsp` names.
pub fn register_by_name(ctx: &RegisterContext, name: &str) -> (r: Option<u64>)
    ensures
        r == register_named(*ctx, name@),
{
    if str_eq(name, "$rsp") {
        Some(ctx.rsp)
    } else if str_eq(name, "$rip") {
        Some(ctx.rip)
    } else if str_eq(name, "$rax") {
        Some(ctx.rax)
    } else if str_eq(name, "$rbx") {
        Some(ctx.rbx)
    } else if str_eq(name, "$rcx") {
        Some(ctx.rcx)
    } else if str_eq(name, "$rdx") {
        Some(ctx.rdx)
    } else if str_eq(name, "$rsi") {
        Some(ctx.rsi)
    } else if str_eq(name, "$rdi") {
        Some(ctx.rdi)
    } else if str_eq(name, "$rbp") {
        Some(ctx.rbp)
    } else if str_eq(name, "$r8") {
        Some(ctx.r8)
    } else if str_eq(name, "$r9") {
        Some(ctx.r9)
    } else if str_eq(name, "$r10") {
        Some(ctx.r10)
    } else if str_eq(name, "$r11") {
        Some(ctx.r11)
    } else if str_eq(name, "$r12") {
        Some(ctx.r12)
    } else if str_eq(name, "$r13") {
        Some(ctx.r13)
    } else if str_eq(name, "$r14") {
        Some(ctx.r14)
    } else if str_eq(name, "$r15") {
        Some(ctx.r15)
    } else {
        None
    }
}

/// The number of instructions a disassembly shows: the requested count, or
/// the configured one, kept within 1 to 100.
pub open spec fn disasm_count(requested: Option<usize>, configured: usize) -> usize {
    let c = match requested {
        Some(c) => c,
        None => configured,
    };
    if c < 1 {
        1
    } else if c > 100 {
        100
    } else {
        c
    }
}

/// Computes `disasm_count`.
pub fn clamp_disasm_count(requested: Option<usize>, configured: usize) -> (r: usize)
    ensures
        r == disasm_count(requested, configured),
        1 <= r <= 100,
{
    let c = match requested {
        Some(c) => c,
        None => configured,
    };
    if c < 1 {
        1
    } else if c > 100 {
        100
    } else {
        c
    }
}

/// Where a disassembly around `rip` starts: eight bytes back for each of
/// half the lines, stopping at address zero.
pub open spec fn disasm_start(rip: u64, count: usize) -> u64 {
    let back = (count / 2) * 8;
    if rip >= back {
        (rip - back) as u64
    } else {
        0
    }
}

/// Computes `disasm_start`.
pub fn disassembly_start(rip: u64, count: usize) -> (r: u64)
    requires
        count <= 100,
    ensures
        r == disasm_start(rip, count),
{
    let back = ((count / 2) * 8) as u64;
    rip.saturating_sub(back)
}

/// How many bytes a disassembly of `count` instructions reads: 64 per
/// instruction, at most 4096.
pub open spec fn disasm_buffer(count: usize) -> usize {
    if 64 * count > 4096 {
        4096
    } else {
        (64 * count) as usize
    }
}

/// Computes `disasm_buffer`.
pub fn disassembly_buffer_size(count: usize) -> (r: usize)
    ensures
        r == disasm_buffer(count),
        r <= 4096,
{
    if count > 64 {
        4096
    } else {
        let b = 64 * count;
        if b > 4096 {
            4096
        } else {
            b
        }
    }
}

/// The smallest id among threads that have not exited.
pub open spec fn min_live_thread(ts: Seq<Thread>) -> Option<u32>
    decreases ts.len(),
{
    if ts.len() == 0 {
        None
    } else {
        let r = min_live_thread(ts.drop_last());
        let t = ts.last();
        if !(t.state is Exited) {
            match r {
                None => Some(t.id),
                Some(m) => Some(
                    if t.id < m {
                        t.id
                    } else {
                        m
                    },
                ),
            }
        } else {
            r
        }
    }
}

/// Computes `min_live_thread`.
pub fn fallback_thread(ts: &[Thread]) -> (r: Option<u32>)
    ensures
        r == min_live_thread(ts@),
{
    let mut best: Option<u32> = None;
    let mut i: usize = 0;
    while i < ts.len()
        invariant
            i <= ts@.len(),
            best == min_live_thread(ts@.subrange(0, i as int)),
        decreases ts@.len() - i,
    {
        assert(ts@.subrange(0, i + 1).drop_last() =~= ts@.subrange(0, i as int));
        let t = ts[i];
        let live = match t.state {
            ThreadState::Exited { .. } => false,
            _ => true,
        };
        if live {
            best = match best {
                None => Some(t.id),
                Some(m) => Some(
                    if t.id < m {
                        t.id
                    } else {
                        m
                    },
                ),
            };
        }
        i = i + 1;
    }
    assert(ts@.subrange(0, ts@.len() as int) =~= ts@);
    best
}

fn push_thread_line(out: &mut String, t: &Thread, selected: Option<u32>)
    ensures
        final(out)@ == old(out)@ + thread_line(*t, selected),
{
    out.append(" ");
    let id = crate::text::decimal_string(t.id as u64);
    push_padded_right(out, id.as_str(), 8, ' ');
    out.append(" ");
    let name = match t.state {
        ThreadState::Running => "Running",
        ThreadState::Suspended => "Suspended",
        ThreadState::Exited { .. } => "Exited",
    };
    push_padded_right(out, name, 11, ' ');
    out.append(" ");
    if selected == Some(t.id) {
        out.append(" *");
    } else {
        out.append("");
    }
    assert(out@ =~= old(out)@ + thread_line(*t, selected));
}

/// The text of the thread list.
pub fn format_thread_list(ts: &[Thread], selected: Option<u32>) -> (r: String)
    ensures
        r@ == thread_list_text(ts@, selected),
{
    let mut out = String::new();
    out.append(" TID      Estado      Selecionada");
    let ghost lines = |n: int| seq![thread_list_header()] + Seq::new(
        n as nat,
        |i: int| thread_line(ts@[i], selected),
    );
    proof {
        assert(lines(0) =~= seq![thread_list_header()]);
        assert(join(lines(0), "\n"@) == thread_list_header());
    }
    let mut i: usize = 0;
    while i < ts.len()
        invariant
            i <= ts@.len(),
            out@ == join(lines(i as int), "\n"@),
            lines == (|n: int| seq![thread_list_header()] + Seq::new(
                n as nat,
                |i: int| thread_line(ts@[i], selected),
            )),
        decreases ts@.len() - i,
    {
        let mut line = String::new();
        push_thread_line(&mut line, &ts[i], selected);
        proof {
            assert(lines(i + 1) =~= lines(i as int).push(thread_line(ts@[i as int], selected)));
            lemma_join_push(lines(i as int), "\n"@, line@);
        }
        out.append("\n");
        out.append(line.as_str());
        i = i + 1;
    }
    proof {
        assert(lines(ts@.len() as int) =~= seq![thread_list_header()] + Seq::new(
            ts@.len(),
            |i: int| thread_line(ts@[i], selected),
        ));
    }
    out
}

fn push_module_line(out: &mut String, m: &Module)
    ensures
        final(out)@ == old(out)@ + module_line(*m),
{
    out.append(" ");
    push_padded_right(out, m.name.as_str(), 19, ' ');
    out.append(" 0x");
    push_hex(out, m.base_address, 16, true);
    out.append(" 0x");
    push_hex(out, m.size, 8, true);
    out.append(" ");
    if m.symbols_loaded {
        out.append("✓");
    } else {
        out.append("✗");
    }
    assert(out@ =~= old(out)@ + module_line(*m));
}

/// The text of the module list.
pub fn format_module_list(ms: &[Module]) -> (r: String)
    ensures
        r@ == module_list_text(ms@),
{
    let mut out = String::new();
    out.append(" Nome                Base              Tamanho    Símbolos");
    let ghost lines = |n: int| seq![module_list_header()] + Seq::new(
        n as nat,
        |i: int| module_line(ms@[i]),
    );
    proof {
        assert(lines(0) =~= seq![module_list_header()]);
        assert(join(lines(0), "\n"@) == module_list_header());
    }
    let mut i: usize = 0;
    while i < ms.len()
        invariant
            i <= ms@.len(),
            out@ == join(lines(i as int), "\n"@),
            lines == (|n: int| seq![module_list_header()] + Seq::new(
                n as nat,
                |i: int| module_line(ms@[i]),
            )),
        decreases ms@.len() - i,
    {
        let mut line = String::new();
        push_module_line(&mut line, &ms[i]);
        proof {
            assert(lines(i + 1) =~= lines(i as int).push(module_line(ms@[i as int])));
            lemma_join_push(lines(i as int), "\n"@, line@);
        }
        out.append("\n");
        out.append(line.as_str());
        i = i + 1;
    }
    proof {
        assert(lines(ms@.len() as int) =~= seq![module_list_header()] + Seq::new(
            ms@.len(),
            |i: int| module_line(ms@[i]),
        ));
    }
    out
}

fn push_frame_line(out: &mut String, f: &StackFrame)
    ensures
        final(out)@ == old(out)@ + frame_line(*f),
{
    out.append("#");
    let n = crate::text::decimal_string(f.frame_number as u64);
    push_padded_right(out, n.as_str(), 4, ' ');
    out.append(" 0x");
    push_hex(out, f.return_address, 16, false);
    out.append(" ");
    match &f.symbol {
        Some(s) => out.append(s.name.as_str()),
        None => out.append("??"),
    }
    assert(out@ =~= old(out)@ + frame_line(*f));
}

/// The text of a backtrace.
pub fn format_stack(frames: &[StackFrame]) -> (r: String)
    ensures
        r@ == stack_text(frames@),
{
    if frames.len() == 0 {
        return "(no stack frames)".to_owned();
    }
    let mut out = String::new();
    let ghost lines = |n: int| Seq::new(n as nat, |i: int| frame_line(frames@[i]));
    proof {
        assert(lines(0) =~= Seq::<Seq<char>>::empty());
    }
    let mut i: usize = 0;
    while i < frames.len()
        invariant
            i <= frames@.len(),
            out@ == join(lines(i as int), "\n"@),
            lines == (|n: int| Seq::new(n as nat, |i: int| frame_line(frames@[i]))),
        decreases frames@.len() - i,
    {
        let mut line = String::new();
        push_frame_line(&mut line, &frames[i]);
        proof {
            assert(lines(i + 1) =~= lines(i as int).push(frame_line(frames@[i as int])));
            lemma_join_push(lines(i as int), "\n"@, line@);
        }
        push_part(&mut out, i, "\n", line.as_str());
        i = i + 1;
    }
    out
}

} // verus!

verus! {

/// The debugger backend: the platform layer that launches and attaches to
/// processes and reads and writes their memory and registers.
///
/// Implementations talk to a live process, so nothing is promised of what
/// they return: the engine is verified for every outcome.
pub trait DebugBackend {
    /// Launches `path` with `args` under the debugger.
    fn launch(&self, path: &str, args: &[String]) -> Result<ProcessHandle, DebugError>;

    /// Attaches to the running process `pid`.
    fn attach(&self, pid: u32) -> Result<ProcessHandle, DebugError>;

    /// Lets the process run.
    fn continue_execution(&self, handle: &ProcessHandle) -> Result<(), DebugError>;

    /// Arms a single step of `thread_id`.
    fn single_step(&self, handle: &ProcessHandle, thread_id: u32) -> Result<(), DebugError>;

    /// Reads `size` bytes at `address`.
    fn read_memory(&self, handle: &ProcessHandle, address: u64, size: usize) -> Result<
        Vec<u8>,
        DebugError,
    >;

    /// Writes `bytes` at `address`.
    fn write_memory(&self, handle: &ProcessHandle, address: u64, bytes: &[u8]) -> Result<
        (),
        DebugError,
    >;

    /// The register context of `thread_id`.
    fn get_registers(&self, handle: &ProcessHandle, thread_id: u32) -> Result<
        RegisterContext,
        DebugError,
    >;

    /// Replaces the register context of `thread_id`.
    fn set_registers(&self, handle: &ProcessHandle, thread_id: u32, ctx: &RegisterContext) -> Result<
        (),
        DebugError,
    >;

    /// Suspends `thread_id`.
    fn suspend_thread(&self, handle: &ProcessHandle, thread_id: u32) -> Result<(), DebugError>;

    /// Resumes `thread_id`.
    fn resume_thread(&self, handle: &ProcessHandle, thread_id: u32) -> Result<(), DebugError>;

    /// The address of the instruction after the one at `rip`.
    fn next_instruction_address(&self, handle: &ProcessHandle, rip: u64) -> Result<u64, DebugError>;

    /// The return address of the current function of `thread_id`.
    fn read_return_address(&self, handle: &ProcessHandle, thread_id: u32) -> Result<u64, DebugError>;

    /// The addresses a symbol name resolves to.
    fn resolve_symbol(&self, name: &str) -> Result<Vec<u64>, DebugError>;

    /// The call stack of `thread_id`.
    fn walk_stack(&self, handle: &ProcessHandle, thread_id: u32) -> Result<
        Vec<StackFrame>,
        DebugError,
    >;

    /// The call stack starting from a saved instruction and frame pointer.
    fn walk_stack_with_context(&self, rip: u64, rbp: u64) -> Result<Vec<StackFrame>, DebugError>;

    /// Loads the symbols of the process `pid`.
    fn init_symbols(
        &self,
        pid: u32,
        exe_path: Option<&str>,
        base_address: Option<u64>,
        handle: Option<RawHandle>,
    ) -> Result<(), DebugError>;
}

/// A request the engine made of its backend, as the engine's request log
/// records it.
#[derive(Debug, Clone, Copy, PartialEq, Eq, Structural)]
pub enum BackendRequest {
    Launch,
    Attach { pid: u32 },
    SingleStep { thread_id: u32 },
    ReadMemory { address: u64, size: usize },
    WriteByte { address: u64, value: u8 },
    WriteBlock { address: u64, len: usize },
    /// A register read, with the registers it returned (`None` when it failed).
    GetRegisters { thread_id: u32, reply: Option<RegisterContext> },
    SetRegisters { thread_id: u32, ctx: RegisterContext },
    /// The address of the instruction after the one at `rip`, with the
    /// address the backend answered (`None` when it failed).
    NextInstruction { rip: u64, reply: Option<u64> },
    /// The return address of the thread's current frame, with the address
    /// the backend answered (`None` when it failed).
    ReturnAddress { thread_id: u32, reply: Option<u64> },
    ResolveSymbol,
    WalkStack { thread_id: u32 },
    WalkStackFrom { rip: u64, rbp: u64 },
    InitSymbols { pid: u32 },
}

/// Whether the debuggee is running or stopped in a debug event.
#[derive(Debug, Clone, Copy, PartialEq, Eq, Structural)]
pub enum ProcessState {
    /// Stopped in a debug event: commands that inspect state are accepted.
    Paused,
    /// Let run: awaiting the next debug event.
    Running,
}

/// Kind of user-initiated step command.
#[derive(Debug, Clone, Copy, PartialEq, Eq, Structural)]
pub enum StepKind {
    Into,
    Over,
    Out,
}

/// Pretty-printing settings.
#[derive(Debug, Clone, Copy, PartialEq, Eq, Structural)]
pub struct PrintConfig {
    pub limit: usize,
    pub depth: usize,
    pub pretty: bool,
}

impl Default for PrintConfig {
    /// A hundred elements, five levels deep, pretty-printing on.
    fn default() -> (r: Self)
        ensures
            r == (PrintConfig { limit: 100, depth: 5, pretty: true }),
    {
        PrintConfig { limit: 100, depth: 5, pretty: true }
    }
}

/// The debuggee as the engine knows it.
#[derive(Debug)]
pub struct Session {
    pub handle: ProcessHandle,
    pub threads: Table<Thread>,
    pub modules: Table<Module>,
    pub selected_thread: Option<u32>,
    /// The register context of each thread when it last stopped at a user
    /// breakpoint, for backtraces after it has been let run again.
    pub last_context: Table<SavedContext>,
}

impl Session {
    /// A session for a freshly launched or attached process.
    pub fn new(handle: ProcessHandle) -> (r: Self)
        ensures
            r.wf(),
            r.handle == handle,
            r.threads@.len() == 0,
            r.modules@.len() == 0,
            r.selected_thread is None,
            r.last_context@.len() == 0,
    {
        Session {
            handle,
            threads: Table::new(),
            modules: Table::new(),
            selected_thread: None,
            last_context: Table::new(),
        }
    }

    /// Its tables have distinct keys.
    pub open spec fn wf(&self) -> bool {
        self.threads.wf() && self.modules.wf() && self.last_context.wf()
    }
}

/// What one step of the engine sends out: events for the user and, at most
/// once, a command that lets the debug loop go on.
#[derive(Debug)]
pub struct EngineOutput {
    pub events: Vec<EngineEvent>,
    pub resume: Option<DebugLoopCommand>,
}

impl EngineOutput {
    /// Nothing sent yet.
    pub fn new() -> (r: Self)
        ensures
            r.events@.len() == 0,
            r.resume is None,
    {
        EngineOutput { events: Vec::new(), resume: None }
    }
}

/// Orchestrates a debug session.
pub struct DebugEngine<B> {
    pub backend: B,
    pub session: Option<Session>,
    pub breakpoints: BreakpointManager,
    /// Whether a debug loop is there to be let go on.
    pub loop_connected: bool,
    /// Address of the breakpoint being stepped over, or of the temporary
    /// breakpoint a step-over planted.
    pub stepping_over_breakpoint: Option<u64>,
    pub stepping_over_saved_byte: Option<u8>,
    /// Address of the temporary breakpoint a step-out planted.
    pub stepping_out_breakpoint: Option<u64>,
    pub stepping_out_saved_byte: Option<u8>,
    pub disasm_config: DisassemblyConfig,
    pub print_config: PrintConfig,
    pub process_state: ProcessState,
    /// Path of the executable being launched, until the launch event.
    pub pending_exe_path: Option<String>,
    /// Whether the debug loop waits for a command before it goes on.
    pub debug_loop_waiting: bool,
    /// The user step in progress, if any.
    pub pending_step: Option<StepKind>,
    /// Every request made of the backend, in order.
    pub requests: Ghost<Seq<BackendRequest>>,
}

impl<B: DebugBackend> DebugEngine<B> {
    /// The engine's invariant: a consistent breakpoint manager and session.
    pub open spec fn wf(&self) -> bool {
        &&& self.breakpoints.wf()
        &&& (self.session matches Some(s) ==> s.wf())
    }

    /// A new engine over `backend`: no session, no breakpoints, paused,
    /// default settings, nothing asked of the backend yet.
    pub fn new(backend: B) -> (r: Self)
        ensures
            r.wf(),
            r.session is None,
            r.breakpoints@ == Map::<u64, Breakpoint>::empty(),
            r.breakpoints.next_id() == 0,
            !r.loop_connected,
            r.stepping_over_breakpoint is None,
            r.stepping_over_saved_byte is None,
            r.stepping_out_breakpoint is None,
            r.stepping_out_saved_byte is None,
            r.disasm_config == (DisassemblyConfig { count: 10, auto_show: false }),
            r.print_config == (PrintConfig { limit: 100, depth: 5, pretty: true }),
            r.process_state == ProcessState::Paused,
            r.pending_exe_path is None,
            !r.debug_loop_waiting,
            r.pending_step is None,
            r.requests@ == Seq::<BackendRequest>::empty(),
    {
        DebugEngine {
            backend,
            session: None,
            breakpoints: BreakpointManager::new(),
            loop_connected: false,
            stepping_over_breakpoint: None,
            stepping_over_saved_byte: None,
            stepping_out_breakpoint: None,
            stepping_out_saved_byte: None,
            disasm_config: DisassemblyConfig::default(),
            print_config: PrintConfig::default(),
            process_state: ProcessState::Paused,
            pending_exe_path: None,
            debug_loop_waiting: false,
            pending_step: None,
            requests: Ghost(Seq::empty()),
        }
    }

    /// Lets the debug loop go on with `Continue` if one is connected and
    /// waiting.
    fn continue_debug_loop(&mut self, out: &mut EngineOutput)
        ensures
            final(self).debug_loop_waiting == (old(self).debug_loop_waiting && !old(self).loop_connected),
            final(out).resume == if old(self).loop_connected && old(self).debug_loop_waiting {
                Some(DebugLoopCommand::Continue)
            } else {
                old(out).resume
            },
            final(out).events == old(out).events,
            *final(self) == (DebugEngine { debug_loop_waiting: final(self).debug_loop_waiting, ..*old(self) }),
    {
        if self.loop_connected && self.debug_loop_waiting {
            out.resume = Some(DebugLoopCommand::Continue);
            self.debug_loop_waiting = false;
        }
    }
}

} // verus!

verus! {

/// `e` is an error event whose message starts with `prefix`.
pub open spec fn error_starting(e: EngineEvent, prefix: Seq<char>) -> bool {
    e matches EngineEvent::Error { message } && prefix.len() <= message@.len() && message@.subrange(
        0,
        prefix.len() as int,
    ) == prefix
}

/// `e` is an error event with exactly `text`.
pub open spec fn error_text(e: EngineEvent, text: Seq<char>) -> bool {
    e matches EngineEvent::Error { message } && message@ == text
}

/// `e` is an output event with exactly `text`.
pub open spec fn output_text(e: EngineEvent, text: Seq<char>) -> bool {
    e matches EngineEvent::Output { message } && message@ == text
}

/// The debug events after which the debug loop waits for the engine.
pub open spec fn loop_waits_after(evt: EngineEvent) -> bool {
    evt is ProcessLaunched || evt is BreakpointHit || evt is SingleStep || evt is Exception
}

/// The same session with `tid` selected.
pub open spec fn selecting(s: Option<Session>, tid: u32) -> Option<Session> {
    match s {
        Some(x) => Some(Session { selected_thread: Some(tid), ..x }),
        None => None,
    }
}

/// The context a user breakpoint hit leaves for the single step over the
/// restored instruction: the instruction pointer back on the breakpoint and
/// the trap flag set.
pub open spec fn rewound_for_step(c: RegisterContext, address: u64) -> RegisterContext {
    RegisterContext { rip: address, rflags: c.rflags | 0x100, ..c }
}

/// `c` with the instruction pointer set to `address`.
pub open spec fn at_rip(c: RegisterContext, address: u64) -> RegisterContext {
    RegisterContext { rip: address, ..c }
}

/// The requests that completing a temporary-breakpoint step makes: with a
/// session, the saved byte written back (when there is one), the registers
/// read and, when that succeeded, written back with the instruction pointer
/// on the breakpoint; without a session, none.
pub open spec fn temp_step_requests(
    before: Seq<BackendRequest>,
    after: Seq<BackendRequest>,
    has_session: bool,
    saved: Option<u8>,
    address: u64,
    thread_id: u32,
) -> bool {
    if !has_session {
        after == before
    } else {
        let base = before + match saved {
            Some(b) => seq![BackendRequest::WriteByte { address, value: b }],
            None => Seq::empty(),
        };
        after =~= base.push(BackendRequest::GetRegisters { thread_id, reply: None }) || exists|c: RegisterContext|
            after =~= base + seq![
                BackendRequest::GetRegisters { thread_id, reply: Some(c) },
                BackendRequest::SetRegisters { thread_id, ctx: #[trigger] at_rip(c, address) },
            ]
    }
}

/// The breakpoint at `address` with the smallest id, if any.
pub open spec fn first_breakpoint_at(m: Map<u64, Breakpoint>, address: u64) -> Option<Breakpoint> {
    if exists|k: u64| #[trigger] m.dom().contains(k) && m[k].address == address {
        Some(
            m[choose|k: u64|
                #[trigger] m.dom().contains(k) && m[k].address == address && forall|k2: u64|
                    #[trigger] m.dom().contains(k2) && k2 < k ==> m[k2].address != address],
        )
    } else {
        None
    }
}

/// How a breakpoint hit is classified: an unknown kind becomes the user
/// breakpoint at that address, or the system's initial breakpoint.
pub open spec fn resolved_kind(kind: BreakpointKind, m: Map<u64, Breakpoint>, address: u64) -> BreakpointKind {
    match kind {
        BreakpointKind::Unknown => match first_breakpoint_at(m, address) {
            Some(b) => BreakpointKind::UserDefined(b.id),
            None => BreakpointKind::SystemInitial,
        },
        other => other,
    }
}

/// Issues `write_memory` of one byte and records it.
fn write_byte<B: DebugBackend>(
    backend: &B,
    log: &mut Ghost<Seq<BackendRequest>>,
    handle: &ProcessHandle,
    address: u64,
    value: u8,
) -> (r: Result<(), DebugError>)
    ensures
        final(log)@ == old(log)@.push(BackendRequest::WriteByte { address, value }),
{
    let buf: Vec<u8> = vec![value];
    let r = backend.write_memory(handle, address, buf.as_slice());
    proof {
        log@ = log@.push(BackendRequest::WriteByte { address, value });
    }
    r
}

/// Issues `get_registers` and records it.
fn get_registers<B: DebugBackend>(
    backend: &B,
    log: &mut Ghost<Seq<BackendRequest>>,
    handle: &ProcessHandle,
    thread_id: u32,
) -> (r: Result<RegisterContext, DebugError>)
    ensures
        final(log)@ == old(log)@.push(BackendRequest::GetRegisters { thread_id, reply: regs_reply(r) }),
{
    let r = backend.get_registers(handle, thread_id);
    proof {
        log@ = log@.push(BackendRequest::GetRegisters { thread_id, reply: regs_reply(r) });
    }
    r
}

/// The registers a read returned, if it succeeded.
pub open spec fn regs_reply(r: Result<RegisterContext, DebugError>) -> Option<RegisterContext> {
    match r {
        Ok(c) => Some(c),
        Err(_) => None,
    }
}

/// Issues `set_registers` and records it.
fn set_registers<B: DebugBackend>(
    backend: &B,
    log: &mut Ghost<Seq<BackendRequest>>,
    handle: &ProcessHandle,
    thread_id: u32,
    ctx: RegisterContext,
) -> (r: Result<(), DebugError>)
    ensures
        final(log)@ == old(log)@.push(BackendRequest::SetRegisters { thread_id, ctx }),
{
    let r = backend.set_registers(handle, thread_id, &ctx);
    proof {
        log@ = log@.push(BackendRequest::SetRegisters { thread_id, ctx });
    }
    r
}

/// Appends an error event `prefix` followed by the error's message.
fn push_error(out: &mut EngineOutput, prefix: &str, e: &DebugError)
    ensures
        final(out).events@ == old(out).events@.push(final(out).events@.last()),
        error_starting(final(out).events@.last(), prefix@),
        final(out).resume == old(out).resume,
{
    let mut m = prefix.to_owned();
    let t = e.message();
    m.append(t.as_str());
    assert(m@.subrange(0, prefix@.len() as int) =~= prefix@);
    out.events.push(EngineEvent::Error { message: m });
}

} // verus!

verus! {

/// The breakpoint `find_by_address` finds is `first_breakpoint_at`.
proof fn lemma_first_breakpoint(m: Map<u64, Breakpoint>, address: u64, k: u64)
    requires
        m.dom().contains(k),
        m[k].address == address,
        forall|k2: u64| #[trigger] m.dom().contains(k2) && k2 < k ==> m[k2].address != address,
    ensures
        first_breakpoint_at(m, address) == Some(m[k]),
{
    let c = choose|c: u64|
        #[trigger] m.dom().contains(c) && m[c].address == address && forall|k2: u64|
            #[trigger] m.dom().contains(k2) && k2 < c ==> m[k2].address != address;
    assert(m.dom().contains(c) && m[c].address == address);
    if c < k {
        assert(m.dom().contains(c));
    }
    if k < c {
        assert(m.dom().contains(k));
    }
    assert(c == k);
}

impl<B: DebugBackend> DebugEngine<B> {
    /// The handle of the session's process, if there is a session.
    fn session_handle(&self) -> (r: Option<ProcessHandle>)
        ensures
            r == match self.session {
                Some(s) => Some(s.handle),
                None => None,
            },
    {
        match &self.session {
            Some(s) => Some(s.handle),
            None => None,
        }
    }

    fn select_thread(&mut self, thread_id: u32)
        ensures
            final(self).session == selecting(old(self).session, thread_id),
            *final(self) == (DebugEngine { session: final(self).session, ..*old(self) }),
    {
        match &mut self.session {
            Some(s) => {
                s.selected_thread = Some(thread_id);
            },
            None => {},
        }
    }

    /// Completes a step-over or step-out whose temporary breakpoint was hit:
    /// puts the saved byte back and rewinds the instruction pointer onto it.
    fn finish_temporary_step(&mut self, saved: Option<u8>, address: u64, thread_id: u32) -> (consumed: bool)
        ensures
            consumed == old(self).session is Some,
            temp_step_requests(
                old(self).requests@,
                final(self).requests@,
                old(self).session is Some,
                saved,
                address,
                thread_id,
            ),
            *final(self) == (DebugEngine { requests: final(self).requests, ..*old(self) }),
    {
        let handle = match self.session_handle() {
            Some(h) => h,
            None => return false,
        };
        let ghost r0 = self.requests@;
        match saved {
            Some(b) => {
                let _ = write_byte(&self.backend, &mut self.requests, &handle, address, b);
            },
            None => {},
        }
        let ghost r1 = self.requests@;
        assert(r1 == r0 + match saved {
            Some(b) => seq![BackendRequest::WriteByte { address, value: b }],
            None => Seq::<BackendRequest>::empty(),
        });
        match get_registers(&self.backend, &mut self.requests, &handle, thread_id) {
            Ok(ctx) => {
                let mut c = ctx;
                c.rip = address;
                let _ = set_registers(&self.backend, &mut self.requests, &handle, thread_id, c);
                assert(c == at_rip(ctx, address));
                assert(self.requests@ =~= r1 + seq![
                    BackendRequest::GetRegisters { thread_id, reply: Some(ctx) },
                    BackendRequest::SetRegisters { thread_id, ctx: at_rip(ctx, address) },
                ]);
            },
            Err(_) => {
                assert(self.requests@ =~= r1.push(BackendRequest::GetRegisters { thread_id, reply: None }));
            },
        }
        true
    }
}

} // verus!

verus! {

/// `after` is `before` with only error events appended.
pub open spec fn errors_appended(before: Seq<EngineEvent>, after: Seq<EngineEvent>) -> bool {
    &&& before.len() <= after.len()
    &&& after.subrange(0, before.len() as int) =~= before
    &&& forall|i: int| before.len() <= i < after.len() ==> #[trigger] after[i] is Error
}

/// The restore-byte request a user breakpoint hit makes: the breakpoint's
/// original byte back at its address, when the breakpoint is known.
pub open spec fn restore_request(m: Map<u64, Breakpoint>, id: u64, address: u64) -> Seq<BackendRequest> {
    if m.dom().contains(id) {
        seq![BackendRequest::WriteByte { address, value: m[id].original_byte }]
    } else {
        Seq::empty()
    }
}

proof fn lemma_errors_appended_push(a: Seq<EngineEvent>, b: Seq<EngineEvent>, e: EngineEvent)
    requires
        errors_appended(a, b),
        e is Error,
    ensures
        errors_appended(a, b.push(e)),
{
    assert(b.push(e).subrange(0, a.len() as int) =~= b.subrange(0, a.len() as int));
}

impl<B: DebugBackend> DebugEngine<B> {
    /// The user-breakpoint protocol: restore the original byte, rewind the
    /// instruction pointer onto it, set the trap flag for a single step, and
    /// remember the breakpoint so the step can reinstall it. Returns whether
    /// the registers could be read; when not, nothing after that is done.
    fn apply_user_breakpoint(&mut self, id: u64, address: u64, thread_id: u32, out: &mut EngineOutput) -> (ok: bool)
        requires
            old(self).wf(),
            old(self).session is Some,
        ensures
            final(self).wf(),
            errors_appended(old(out).events@, final(out).events@),
            final(out).resume == old(out).resume,
            ({
                let s = old(self).session->0;
                let base = old(self).requests@ + restore_request(old(self).breakpoints@, id, address);
                &&& !ok ==> final(self).requests@ == base.push(BackendRequest::GetRegisters { thread_id, reply: None })
                    && *final(self) == (DebugEngine { requests: final(self).requests, ..*old(self) })
                &&& ok ==> exists|c: RegisterContext| #![trigger rewound_for_step(c, address)] {
                    let ctx = rewound_for_step(c, address);
                    &&& final(self).requests@ == base + seq![
                        BackendRequest::GetRegisters { thread_id, reply: Some(c) },
                        BackendRequest::SetRegisters { thread_id, ctx },
                    ]
                    &&& final(self).stepping_over_breakpoint == Some(address)
                    &&& final(self).session matches Some(s2) && s2.handle == s.handle
                        && s2.threads == s.threads && s2.modules == s.modules && s2.selected_thread
                        == s.selected_thread && s2.last_context@ == table_put(
                        s.last_context@,
                        SavedContext { thread_id, ctx },
                    )
                    &&& *final(self) == (DebugEngine {
                        requests: final(self).requests,
                        session: final(self).session,
                        stepping_over_breakpoint: final(self).stepping_over_breakpoint,
                        ..*old(self)
                    })
                }
            }),
    {
        let handle = match self.session_handle() {
            Some(h) => h,
            None => return false,
        };
        let ghost r0 = self.requests@;
        match self.breakpoints.get(id) {
            Some(bp) => {
                let original = bp.original_byte;
                match write_byte(&self.backend, &mut self.requests, &handle, address, original) {
                    Ok(()) => {},
                    Err(e) => {
                        push_error(out, "Failed to restore breakpoint byte: ", &e);
                    },
                }
                assert(self.requests@ =~= r0 + restore_request(self.breakpoints@, id, address));
            },
            None => {
                assert(r0 + restore_request(self.breakpoints@, id, address) =~= r0);
            },
        }
        assert(self.requests@ == r0 + restore_request(self.breakpoints@, id, address));
        let ghost ev1 = out.events@;
        assert(ev1.subrange(0, old(out).events@.len() as int) =~= old(out).events@);
        let ghost base = self.requests@;
        let c = match get_registers(&self.backend, &mut self.requests, &handle, thread_id) {
            Ok(c) => c,
            Err(e) => {
                push_error(out, "Failed to get registers: ", &e);
                proof {
                    lemma_errors_appended_push(old(out).events@, ev1, out.events@.last());
                    assert(out.events@ == ev1.push(out.events@.last()));
                }
                return false;
            },
        };
        let mut ctx = c;
        ctx.rip = address;
        ctx.rflags = ctx.rflags | 0x100;
        assert(ctx == rewound_for_step(c, address));
        let ghost ev2 = out.events@;
        let sr = set_registers(&self.backend, &mut self.requests, &handle, thread_id, ctx);
        assert(self.requests@ =~= base + seq![
            BackendRequest::GetRegisters { thread_id, reply: Some(c) },
            BackendRequest::SetRegisters { thread_id, ctx },
        ]);
        match sr {
            Ok(()) => {},
            Err(e) => {
                push_error(out, "Failed to set registers: ", &e);
                proof {
                    lemma_errors_appended_push(old(out).events@, ev2, out.events@.last());
                    assert(out.events@ == ev2.push(out.events@.last()));
                }
            },
        }
        self.stepping_over_breakpoint = Some(address);
        match &mut self.session {
            Some(s) => {
                s.last_context.put(SavedContext { thread_id, ctx });
            },
            None => {},
        }
        true
    }
}

} // verus!

verus! {

impl<B: DebugBackend> DebugEngine<B> {
    /// What continuing the debug loop sends, from a fresh output.
    pub open spec fn continue_command(&self) -> Option<DebugLoopCommand> {
        if self.loop_connected && self.debug_loop_waiting {
            Some(DebugLoopCommand::Continue)
        } else {
            None
        }
    }

    /// What a breakpoint hit on `thread_id` at `address` does, from this state to `post`.
    pub open spec fn breakpoint_hit_outcome(&self, post: &Self, kind: BreakpointKind, address: u64, thread_id: u32, events: Seq<EngineEvent>, resume: Option<DebugLoopCommand>) -> bool {
        &&& self.stepping_over_breakpoint == Some(address) ==> {
                &&& events =~= seq![EngineEvent::StepCompleted { thread_id, address }]
                &&& resume is None
                &&& post.session == selecting(self.session, thread_id)
                &&& temp_step_requests(
                    self.requests@,
                    post.requests@,
                    self.session is Some,
                    self.stepping_over_saved_byte,
                    address,
                    thread_id,
                )
                &&& *post == (DebugEngine {
                    session: post.session,
                    stepping_over_breakpoint: None,
                    stepping_over_saved_byte: if self.session is Some {
                        None
                    } else {
                        self.stepping_over_saved_byte
                    },
                    requests: post.requests,
                    ..*self
                })
            }
        &&& self.stepping_over_breakpoint != Some(address) && self.stepping_out_breakpoint == Some(address) ==> {
                &&& events =~= seq![EngineEvent::StepCompleted { thread_id, address }]
                &&& resume is None
                &&& post.session == selecting(self.session, thread_id)
                &&& temp_step_requests(
                    self.requests@,
                    post.requests@,
                    self.session is Some,
                    self.stepping_out_saved_byte,
                    address,
                    thread_id,
                )
                &&& *post == (DebugEngine {
                    session: post.session,
                    stepping_out_breakpoint: None,
                    stepping_out_saved_byte: if self.session is Some {
                        None
                    } else {
                        self.stepping_out_saved_byte
                    },
                    requests: post.requests,
                    ..*self
                })
            }
        &&& self.stepping_over_breakpoint != Some(address) && self.stepping_out_breakpoint != Some(address) ==> {
                let k = resolved_kind(kind, self.breakpoints@, address);
                &&& !(k is Unknown)
                &&& k is Temporary ==> events.len() == 0 && resume is None
                    && *post == (DebugEngine {
                    session: selecting(self.session, thread_id),
                    ..*self
                })
                &&& k is SystemInitial ==> events =~= seq![
                    EngineEvent::BreakpointHit { kind: BreakpointKind::SystemInitial, address, thread_id },
                ] && resume is None && *post == (DebugEngine {
                    session: selecting(self.session, thread_id),
                    ..*self
                })
                &&& k matches BreakpointKind::UserDefined(id) ==> {
                    let hit = EngineEvent::BreakpointHit { kind: BreakpointKind::UserDefined(id), address, thread_id };
                    let s = selecting(self.session, thread_id);
                    let base = self.requests@ + restore_request(self.breakpoints@, id, address);
                    &&& events.len() >= 1
                    &&& events.last() == hit
                    &&& errors_appended(Seq::empty(), events.drop_last())
                    &&& self.session is None ==> resume == self.continue_command()
                        && *post == (DebugEngine {
                        debug_loop_waiting: self.debug_loop_waiting && !self.loop_connected,
                        ..*self
                    })
                    &&& self.session is Some ==> {
                        ||| resume is None && post.requests@ =~= base.push(
                            BackendRequest::GetRegisters { thread_id, reply: None },
                        ) && *post == (DebugEngine { session: s, requests: post.requests, ..*self })
                        ||| exists|c: RegisterContext| #![trigger rewound_for_step(c, address)] {
                            let ctx = rewound_for_step(c, address);
                            &&& post.requests@ =~= base + seq![
                                BackendRequest::GetRegisters { thread_id, reply: Some(c) },
                                BackendRequest::SetRegisters { thread_id, ctx },
                            ]
                            &&& resume == self.continue_command()
                            &&& post.stepping_over_breakpoint == Some(address)
                            &&& post.debug_loop_waiting == (self.debug_loop_waiting && !self.loop_connected)
                            &&& post.session matches Some(s2) && s matches Some(s1) && s2.handle
                                == s1.handle && s2.threads == s1.threads && s2.modules == s1.modules
                                && s2.selected_thread == s1.selected_thread && s2.last_context@ == table_put(
                                s1.last_context@,
                                SavedContext { thread_id, ctx },
                            )
                            &&& *post == (DebugEngine {
                                requests: post.requests,
                                session: post.session,
                                stepping_over_breakpoint: post.stepping_over_breakpoint,
                                debug_loop_waiting: post.debug_loop_waiting,
                                ..*self
                            })
                        }
                    }
                }
            }
    }

    /// A breakpoint hit on `thread_id` at `address`.
    fn on_breakpoint_hit(&mut self, kind: BreakpointKind, address: u64, thread_id: u32, out: &mut EngineOutput)
        requires
            old(self).wf(),
            old(out).events@.len() == 0,
            old(out).resume is None,
        ensures
            final(self).wf(),
            old(self).breakpoint_hit_outcome(final(self), kind, address, thread_id, final(out).events@, final(out).resume),

    {
        self.select_thread(thread_id);
        if self.stepping_over_breakpoint == Some(address) {
            let saved = self.stepping_over_saved_byte;
            if self.finish_temporary_step(saved, address, thread_id) {
                self.stepping_over_saved_byte = None;
            }
            self.stepping_over_breakpoint = None;
            out.events.push(EngineEvent::StepCompleted { thread_id, address });
            return ;
        }
        if self.stepping_out_breakpoint == Some(address) {
            let saved = self.stepping_out_saved_byte;
            if self.finish_temporary_step(saved, address, thread_id) {
                self.stepping_out_saved_byte = None;
            }
            self.stepping_out_breakpoint = None;
            out.events.push(EngineEvent::StepCompleted { thread_id, address });
            return ;
        }
        let resolved = match kind {
            BreakpointKind::Unknown => match self.breakpoints.find_by_address(address) {
                Some(bp) => {
                    proof {
                        let m = self.breakpoints@;
                        let k = choose|k: u64| #[trigger] m.dom().contains(k) && m[k] == *bp
                            && forall|k2: u64| #[trigger] m.dom().contains(k2) && k2 < k ==> m[k2].address != address;
                        lemma_first_breakpoint(m, address, k);
                    }
                    BreakpointKind::UserDefined(bp.id)
                },
                None => BreakpointKind::SystemInitial,
            },
            other => other,
        };
        assert(resolved == resolved_kind(kind, old(self).breakpoints@, address));
        match resolved {
            BreakpointKind::Temporary => {},
            BreakpointKind::SystemInitial => {
                self.select_thread(thread_id);
                out.events.push(
                    EngineEvent::BreakpointHit { kind: BreakpointKind::SystemInitial, address, thread_id },
                );
            },
            BreakpointKind::UserDefined(id) => {
                let ghost pre = *self;
                if self.session.is_some() {
                    let ok = self.apply_user_breakpoint(id, address, thread_id, out);
                    let hit = EngineEvent::BreakpointHit { kind: BreakpointKind::UserDefined(id), address, thread_id };
                    let ghost errs = out.events@;
                    out.events.push(hit);
                    assert(out.events@.drop_last() == errs);
                    assert(errs.subrange(0, 0) =~= Seq::<EngineEvent>::empty());
                    if !ok {
                        return ;
                    }
                } else {
                    out.events.push(
                        EngineEvent::BreakpointHit { kind: BreakpointKind::UserDefined(id), address, thread_id },
                    );
                    assert(out.events@.drop_last() =~= Seq::<EngineEvent>::empty());
                    assert(out.events@.drop_last().subrange(0, 0) =~= Seq::<EngineEvent>::empty());
                }
                self.continue_debug_loop(out);
            },
            BreakpointKind::Unknown => {},
        }
    }
}

} // verus!

verus! {

/// `c` with the trap flag cleared.
pub open spec fn trap_cleared(c: RegisterContext) -> RegisterContext {
    RegisterContext { rflags: c.rflags & !0x100u64, ..c }
}

/// The events of a single step: errors, then the step itself when the user
/// asked for it.
pub open spec fn step_events(events: Seq<EngineEvent>, user: bool, address: u64, thread_id: u32) -> bool {
    if user {
        &&& events.len() >= 1
        &&& events.last() == (EngineEvent::SingleStep { address, thread_id })
        &&& errors_appended(Seq::empty(), events.drop_last())
    } else {
        errors_appended(Seq::empty(), events)
    }
}

impl<B: DebugBackend> DebugEngine<B> {
    /// What a finished single step of `thread_id` at `address` does, from this state to `post`.
    pub open spec fn single_step_outcome(&self, post: &Self, address: u64, thread_id: u32, events: Seq<EngineEvent>, resume: Option<DebugLoopCommand>) -> bool {
        &&& step_events(events, self.pending_step is Some, address, thread_id)
        &&& post.session == selecting(self.session, thread_id)
        &&& post.pending_step is None
        &&& self.session is None ==> resume is None && *post == (DebugEngine {
                session: post.session,
                pending_step: None,
                ..*self
            })
        &&& self.session is Some ==> {
                let user = self.pending_step is Some;
                let base = self.requests@ + match self.stepping_over_breakpoint {
                    Some(bp) => seq![BackendRequest::WriteByte { address: bp, value: 0xCC }],
                    None => Seq::empty(),
                };
                let resumed = resume == self.continue_command() && post.debug_loop_waiting
                    == (self.debug_loop_waiting && !self.loop_connected);
                &&& post.stepping_over_breakpoint is None
                &&& *post == (DebugEngine {
                    session: post.session,
                    pending_step: None,
                    stepping_over_breakpoint: None,
                    requests: post.requests,
                    debug_loop_waiting: post.debug_loop_waiting,
                    ..*self
                })
                &&& {
                    ||| post.requests@ =~= base.push(BackendRequest::GetRegisters { thread_id, reply: None }) && resumed
                    ||| exists|c: RegisterContext|
                        post.requests@ =~= base + seq![
                            BackendRequest::GetRegisters { thread_id, reply: Some(c) },
                            BackendRequest::SetRegisters { thread_id, ctx: #[trigger] trap_cleared(c) },
                        ] && if user {
                            resume is None && post.debug_loop_waiting == self.debug_loop_waiting
                        } else {
                            resumed
                        }
                }
            }
    }

    /// A single step of `thread_id` ended at `address`.
    fn on_single_step(&mut self, address: u64, thread_id: u32, out: &mut EngineOutput)
        requires
            old(self).wf(),
            old(out).events@.len() == 0,
            old(out).resume is None,
        ensures
            final(self).wf(),
            old(self).single_step_outcome(final(self), address, thread_id, final(out).events@, final(out).resume),

    {
        self.select_thread(thread_id);
        let user = self.pending_step.is_some();
        match self.session_handle() {
            Some(handle) => {
                let ghost r0 = self.requests@;
                match self.stepping_over_breakpoint {
                    Some(bp) => {
                        self.stepping_over_breakpoint = None;
                        match write_byte(&self.backend, &mut self.requests, &handle, bp, 0xCC) {
                            Ok(()) => {},
                            Err(e) => {
                                push_error(out, "Failed to reinstall breakpoint: ", &e);
                                assert(out.events@.subrange(0, 0) =~= Seq::<EngineEvent>::empty());
                            },
                        }
                    },
                    None => {},
                }
                let ghost r1 = self.requests@;
                assert(r1 =~= r0 + match old(self).stepping_over_breakpoint {
                    Some(bp) => seq![BackendRequest::WriteByte { address: bp, value: 0xCC }],
                    None => Seq::<BackendRequest>::empty(),
                });
                let ghost errs = out.events@;
                assert(errors_appended(Seq::empty(), errs)) by {
                    assert(errs.subrange(0, 0) =~= Seq::<EngineEvent>::empty());
                }
                match get_registers(&self.backend, &mut self.requests, &handle, thread_id) {
                    Err(_) => {
                        assert(self.requests@ =~= r1.push(BackendRequest::GetRegisters { thread_id, reply: None }));
                        if user {
                            self.pending_step = None;
                            out.events.push(EngineEvent::SingleStep { address, thread_id });
                            assert(out.events@.drop_last() == errs);
                        }
                        self.continue_debug_loop(out);
                        return ;
                    },
                    Ok(c) => {
                        let mut ctx = c;
                        ctx.rflags = ctx.rflags & !0x100u64;
                        assert(ctx == trap_cleared(c));
                        let _ = set_registers(&self.backend, &mut self.requests, &handle, thread_id, ctx);
                        assert(self.requests@ =~= r1 + seq![
                            BackendRequest::GetRegisters { thread_id, reply: Some(c) },
                            BackendRequest::SetRegisters { thread_id, ctx },
                        ]);
                        if !user {
                            self.continue_debug_loop(out);
                        }
                    },
                }
            },
            None => {},
        }
        if user {
            self.pending_step = None;
            let ghost errs = out.events@;
            out.events.push(EngineEvent::SingleStep { address, thread_id });
            assert(out.events@.drop_last() == errs);
            assert(errs.subrange(0, 0) =~= Seq::<EngineEvent>::empty());
        } else {
            assert(out.events@.subrange(0, 0) =~= Seq::<EngineEvent>::empty());
        }
    }
}

} // verus!

verus! {

/// A thread the engine has just learned of: running, no saved context.
pub open spec fn new_thread(id: u32, handle: usize) -> Thread {
    Thread { id, handle: RawHandle(handle), state: ThreadState::Running, context: None }
}

/// A module the engine has just learned of; its symbols are taken to be
/// loaded.
pub open spec fn new_module(name: String, base: u64) -> Module {
    Module { name, base_address: base, size: 0, path: None, symbols_loaded: true }
}

/// The threads after `id` exited with `code`: its state becomes `Exited`.
pub open spec fn threads_after_exit(ts: Seq<Thread>, id: u32, code: u32) -> Seq<Thread> {
    match table_get(ts, id as u64) {
        Some(t) => table_put(ts, Thread { state: ThreadState::Exited { exit_code: code }, ..t }),
        None => ts,
    }
}

impl<B: DebugBackend> DebugEngine<B> {
    /// The state in which an event is handled: paused, and with the debug
    /// loop waiting if the event is one it waits after.
    pub open spec fn entering_event(&self, evt: EngineEvent) -> Self {
        DebugEngine {
            process_state: ProcessState::Paused,
            debug_loop_waiting: self.debug_loop_waiting || loop_waits_after(evt),
            ..*self
        }
    }

    /// What handling `evt` does, from this state (already entered, see
    /// `entering_event`) to `post`.
    pub open spec fn event_outcome(
        &self,
        post: &Self,
        evt: EngineEvent,
        events: Seq<EngineEvent>,
        resume: Option<DebugLoopCommand>,
    ) -> bool {
        match evt {
            EngineEvent::BreakpointHit { kind, address, thread_id } => self.breakpoint_hit_outcome(
                post,
                kind,
                address,
                thread_id,
                events,
                resume,
            ),
            EngineEvent::SingleStep { address, thread_id } => self.single_step_outcome(
                post,
                address,
                thread_id,
                events,
                resume,
            ),
            EngineEvent::Exception { code, address } => {
                &&& events =~= seq![evt]
                &&& resume == if self.loop_connected && self.debug_loop_waiting {
                    Some(DebugLoopCommand::ContinueException)
                } else {
                    None
                }
                &&& *post == (DebugEngine {
                    debug_loop_waiting: self.debug_loop_waiting && !self.loop_connected,
                    ..*self
                })
            },
            EngineEvent::ProcessExited { code } => {
                &&& events =~= seq![evt]
                &&& resume is None
                &&& *post == (DebugEngine { session: None, loop_connected: false, ..*self })
            },
            EngineEvent::ProcessLaunched { pid, base_address } => {
                &&& events =~= seq![evt]
                &&& resume == self.continue_command()
                &&& post.requests@ =~= self.requests@.push(BackendRequest::InitSymbols { pid })
                &&& *post == (DebugEngine {
                    pending_exe_path: None,
                    requests: post.requests,
                    debug_loop_waiting: self.debug_loop_waiting && !self.loop_connected,
                    ..*self
                })
            },
            EngineEvent::ProcessAttached { pid } => {
                &&& events =~= seq![evt]
                &&& resume == self.continue_command()
                &&& post.requests@ =~= self.requests@.push(BackendRequest::InitSymbols { pid })
                &&& *post == (DebugEngine {
                    requests: post.requests,
                    debug_loop_waiting: self.debug_loop_waiting && !self.loop_connected,
                    ..*self
                })
            },
            EngineEvent::ThreadCreated { id, handle } => {
                &&& events =~= seq![evt]
                &&& resume is None
                &&& *post == (DebugEngine { session: post.session, ..*self })
                &&& match self.session {
                    None => post.session is None,
                    Some(s) => post.session matches Some(s2) && s2.threads@ =~= table_put(
                        s.threads@,
                        new_thread(id, handle),
                    ) && s2.selected_thread == (if s.selected_thread is None {
                        Some(id)
                    } else {
                        s.selected_thread
                    }) && s2.handle == s.handle && s2.modules == s.modules && s2.last_context
                        == s.last_context,
                }
            },
            EngineEvent::ThreadExited { id, code } => {
                &&& events =~= seq![evt]
                &&& resume is None
                &&& *post == (DebugEngine { session: post.session, ..*self })
                &&& match self.session {
                    None => post.session is None,
                    Some(s) => {
                        let ts = threads_after_exit(s.threads@, id, code);
                        post.session matches Some(s2) && s2.threads@ =~= ts && s2.selected_thread == (
                        if s.selected_thread == Some(id) {
                            min_live_thread(ts)
                        } else {
                            s.selected_thread
                        }) && s2.handle == s.handle && s2.modules == s.modules && s2.last_context
                            == s.last_context
                    },
                }
            },
            EngineEvent::ModuleLoaded { name, base } => {
                &&& events =~= seq![evt]
                &&& resume is None
                &&& *post == (DebugEngine { session: post.session, ..*self })
                &&& match self.session {
                    None => post.session is None,
                    Some(s) => post.session matches Some(s2) && s2.modules@ =~= table_put(
                        s.modules@,
                        new_module(name, base),
                    ) && s2.handle == s.handle && s2.threads == s.threads && s2.selected_thread
                        == s.selected_thread && s2.last_context == s.last_context,
                }
            },
            EngineEvent::ModuleUnloaded { base } => {
                &&& events =~= seq![evt]
                &&& resume is None
                &&& *post == (DebugEngine { session: post.session, ..*self })
                &&& match self.session {
                    None => post.session is None,
                    Some(s) => post.session matches Some(s2) && s2.modules@ =~= table_delete(
                        s.modules@,
                        base,
                    ) && s2.handle == s.handle && s2.threads == s.threads && s2.selected_thread
                        == s.selected_thread && s2.last_context == s.last_context,
                }
            },
            _ => events =~= seq![evt] && resume is None && *post == *self,
        }
    }

    /// Handles a debug event coming from the debug loop. Every event leaves
    /// the process paused.
    pub fn on_event(&mut self, evt: EngineEvent) -> (out: EngineOutput)
        requires
            old(self).wf(),
        ensures
            final(self).wf(),
            final(self).process_state == ProcessState::Paused,
            old(self).entering_event(evt).event_outcome(final(self), evt, out.events@, out.resume),
    {
        let mut out = EngineOutput::new();
        self.process_state = ProcessState::Paused;
        match &evt {
            EngineEvent::ProcessLaunched { .. } | EngineEvent::BreakpointHit { .. }
            | EngineEvent::SingleStep { .. } | EngineEvent::Exception { .. } => {
                self.debug_loop_waiting = true;
            },
            _ => {},
        }
        assert(*self == old(self).entering_event(evt));
        match evt {
            EngineEvent::BreakpointHit { kind, address, thread_id } => {
                self.on_breakpoint_hit(kind, address, thread_id, &mut out);
            },
            EngineEvent::SingleStep { address, thread_id } => {
                self.on_single_step(address, thread_id, &mut out);
            },
            EngineEvent::Exception { code, address } => {
                out.events.push(EngineEvent::Exception { code, address });
                if self.loop_connected && self.debug_loop_waiting {
                    out.resume = Some(DebugLoopCommand::ContinueException);
                    self.debug_loop_waiting = false;
                }
            },
            EngineEvent::ProcessExited { code } => {
                self.session = None;
                self.loop_connected = false;
                out.events.push(EngineEvent::ProcessExited { code });
            },
            EngineEvent::ProcessLaunched { pid, base_address } => {
                let exe = self.pending_exe_path.take();
                let raw = match self.session_handle() {
                    Some(h) => Some(h.process_handle),
                    None => None,
                };
                let path: Option<&str> = match &exe {
                    Some(p) => Some(p.as_str()),
                    None => None,
                };
                let _ = self.backend.init_symbols(pid, path, Some(base_address), raw);
                proof {
                    self.requests@ = self.requests@.push(BackendRequest::InitSymbols { pid });
                }
                out.events.push(EngineEvent::ProcessLaunched { pid, base_address });
                self.continue_debug_loop(&mut out);
            },
            EngineEvent::ProcessAttached { pid } => {
                let raw = match self.session_handle() {
                    Some(h) => Some(h.process_handle),
                    None => None,
                };
                let _ = self.backend.init_symbols(pid, None, None, raw);
                proof {
                    self.requests@ = self.requests@.push(BackendRequest::InitSymbols { pid });
                }
                out.events.push(EngineEvent::ProcessAttached { pid });
                self.continue_debug_loop(&mut out);
            },
            EngineEvent::ThreadCreated { id, handle } => {
                match &mut self.session {
                    Some(s) => {
                        s.threads.put(
                            Thread { id, handle: RawHandle(handle), state: ThreadState::Running, context: None },
                        );
                        if s.selected_thread.is_none() {
                            s.selected_thread = Some(id);
                        }
                    },
                    None => {},
                }
                out.events.push(EngineEvent::ThreadCreated { id, handle });
            },
            EngineEvent::ThreadExited { id, code } => {
                match &mut self.session {
                    Some(s) => {
                        match s.threads.get(id as u64) {
                            Some(t) => {
                                let mut t2 = *t;
                                t2.state = ThreadState::Exited { exit_code: code };
                                s.threads.put(t2);
                            },
                            None => {},
                        }
                        if s.selected_thread == Some(id) {
                            s.selected_thread = fallback_thread(s.threads.entries());
                        }
                    },
                    None => {},
                }
                out.events.push(EngineEvent::ThreadExited { id, code });
            },
            EngineEvent::ModuleLoaded { name, base } => {
                match &mut self.session {
                    Some(s) => {
                        s.modules.put(
                            Module {
                                name: name.clone(),
                                base_address: base,
                                size: 0,
                                path: None,
                                symbols_loaded: true,
                            },
                        );
                    },
                    None => {},
                }
                out.events.push(EngineEvent::ModuleLoaded { name, base });
            },
            EngineEvent::ModuleUnloaded { base } => {
                match &mut self.session {
                    Some(s) => {
                        let _ = s.modules.delete(base);
                    },
                    None => {},
                }
                out.events.push(EngineEvent::ModuleUnloaded { base });
            },
            other => {
                out.events.push(other);
            },
        }
        out
    }
}

} // verus!

verus! {

/// The error shown when a command that needs a stopped process comes while
/// it runs.
pub open spec fn running_message() -> Seq<char> {
    "Processo em execução — aguarde um evento de pausa."@
}

/// The error shown when there is no debug session.
pub open spec fn no_session_message() -> Seq<char> {
    "No active debug session"@
}

/// The commands refused while the process runs.
pub open spec fn needs_pause(cmd: EngineCommand) -> bool {
    ||| cmd is StepOver
    ||| cmd is StepOut
    ||| cmd is StepInto
    ||| cmd is ReadRegisters
    ||| cmd is ReadMemory
    ||| cmd is Backtrace
    ||| cmd is Print
}

/// `events` is `n` events followed by the command-complete marker.
pub open spec fn then_complete(events: Seq<EngineEvent>, n: nat) -> bool {
    events.len() == n + 1 && events[n as int] is CommandComplete
}

/// `events` ends with the command-complete marker.
pub open spec fn ends_complete(events: Seq<EngineEvent>) -> bool {
    events.len() > 0 && events.last() is CommandComplete
}

/// `events` is a single error with `text`, without the command-complete
/// marker (the command was cut short).
pub open spec fn cut_short(events: Seq<EngineEvent>, text: Seq<char>) -> bool {
    events.len() == 1 && error_text(events[0], text)
}

/// `events` is a single error, the message of `e`, without the
/// command-complete marker: the command failed with `e`.
pub open spec fn failed_with(events: Seq<EngineEvent>, e: DebugError) -> bool {
    cut_short(events, debug_error_text(e))
}

/// The message confirming a thread selection.
pub open spec fn selected_message(id: u32) -> Seq<char> {
    "Thread "@ + decimal(id as nat) + " selecionada."@
}

/// The message refusing a thread selection.
pub open spec fn unknown_thread_message(id: u32) -> Seq<char> {
    "Thread "@ + decimal(id as nat) + " não existe ou já foi encerrada."@
}

/// The message showing the disassembly settings.
pub open spec fn disasm_config_message(c: DisassemblyConfig) -> Seq<char> {
    "Disassembly config: count="@ + decimal(c.count as nat) + ", auto_show="@ + bool_text(c.auto_show)
}

/// The message showing the pretty-printing settings.
pub open spec fn print_config_message(c: PrintConfig) -> Seq<char> {
    "Print config: limit="@ + decimal(c.limit as nat) + ", depth="@ + decimal(c.depth as nat)
        + ", pretty="@ + bool_text(c.pretty)
}

/// The message for an expression `print` does not understand.
pub open spec fn unknown_variable_message(expr: Seq<char>) -> Seq<char> {
    "Variável '"@ + expr + "' não encontrada."@
}

/// The task list shown when no Tokio runtime is inspected.
pub open spec fn no_tasks_message() -> Seq<char> {
    " ID    State    Function\n(Nenhuma task Tokio encontrada no processo atual)"@
}

/// The message acknowledging a Cargo launch request.
pub open spec fn cargo_launch_message(manifest: Seq<char>) -> Seq<char> {
    "Cargo launch from "@ + manifest + " — integration ready in rde-cargo crate"@
}

/// A thread may be selected: it is known and has not exited.
pub open spec fn selectable(ts: Seq<Thread>, id: u32) -> bool {
    table_get(ts, id as u64) matches Some(t) && !(t.state is Exited)
}

fn push_output(out: &mut EngineOutput, message: String)
    ensures
        final(out).events@.len() == old(out).events@.len() + 1,
        final(out).events@.drop_last() == old(out).events@,
        output_text(final(out).events@.last(), message@),
        final(out).resume == old(out).resume,
{
    out.events.push(EngineEvent::Output { message });
}

fn push_error_text(out: &mut EngineOutput, message: String)
    ensures
        final(out).events@.len() == old(out).events@.len() + 1,
        final(out).events@.drop_last() == old(out).events@,
        error_text(final(out).events@.last(), message@),
        final(out).resume == old(out).resume,
{
    out.events.push(EngineEvent::Error { message });
}

fn complete(out: &mut EngineOutput)
    ensures
        final(out).events@ == old(out).events@.push(EngineEvent::CommandComplete),
        final(out).resume == old(out).resume,
{
    out.events.push(EngineEvent::CommandComplete);
}

/// Appends `first`, an output event with `text`, and the command-complete
/// marker.
fn emit_pair(out: &mut EngineOutput, first: EngineEvent, text: String)
    ensures
        final(out).events@.len() == old(out).events@.len() + 3,
        final(out).events@.subrange(0, old(out).events@.len() as int) == old(out).events@,
        final(out).events@[old(out).events@.len() as int] == first,
        output_text(final(out).events@[old(out).events@.len() + 1int], text@),
        final(out).events@[old(out).events@.len() + 2int] is CommandComplete,
        final(out).resume == old(out).resume,
{
    let ghost e0 = out.events@;
    let ghost t = text@;
    out.events.push(first);
    out.events.push(EngineEvent::Output { message: text });
    out.events.push(EngineEvent::CommandComplete);
    assert(out.events@.subrange(0, e0.len() as int) =~= e0);
}

fn fail(out: &mut EngineOutput, e: DebugError)
    ensures
        final(out).events@.len() == old(out).events@.len() + 1,
        final(out).events@.drop_last() == old(out).events@,
        error_text(final(out).events@.last(), debug_error_text(e)),
        final(out).resume == old(out).resume,
{
    let m = e.message();
    out.events.push(EngineEvent::Error { message: m });
}

fn decimal_message(a: &str, n: u64, b: &str) -> (r: String)
    ensures
        r@ == a@ + decimal(n as nat) + b@,
{
    let mut m = a.to_owned();
    push_decimal(&mut m, n);
    m.append(b);
    m
}

fn bool_str(b: bool) -> (r: &'static str)
    ensures
        r@ == bool_text(b),
{
    if b {
        "true"
    } else {
        "false"
    }
}

impl<B: DebugBackend> DebugEngine<B> {
    /// What `Continue` does: the process runs, the debug loop goes on.
    pub open spec fn continue_outcome(&self, post: &Self, events: Seq<EngineEvent>, resume: Option<DebugLoopCommand>) -> bool {
        &&& events =~= seq![EngineEvent::CommandComplete]
        &&& resume == self.continue_command()
        &&& *post == (DebugEngine {
            process_state: ProcessState::Running,
            debug_loop_waiting: self.debug_loop_waiting && !self.loop_connected,
            ..*self
        })
    }

    /// What a listing command (`ListThreads`, `ListModules`) shows: the
    /// list of the session, or that there is none.
    pub open spec fn listing_outcome(&self, post: &Self, text: Seq<char>, events: Seq<EngineEvent>, resume: Option<DebugLoopCommand>) -> bool {
        &&& then_complete(events, 1)
        &&& resume is None
        &&& *post == *self
        &&& match self.session {
            Some(s) => output_text(events[0], text),
            None => error_text(events[0], no_session_message()),
        }
    }

    /// What `SelectThread` does.
    pub open spec fn select_outcome(&self, post: &Self, id: u32, events: Seq<EngineEvent>, resume: Option<DebugLoopCommand>) -> bool {
        &&& then_complete(events, 1)
        &&& resume is None
        &&& match self.session {
            Some(s) => if selectable(s.threads@, id) {
                output_text(events[0], selected_message(id)) && *post == (DebugEngine {
                    session: Some(Session { selected_thread: Some(id), ..s }),
                    ..*self
                })
            } else {
                error_text(events[0], unknown_thread_message(id)) && *post == *self
            },
            None => error_text(events[0], no_session_message()) && *post == *self,
        }
    }

    /// What `SetDisassemblyConfig` does: the given settings replace the
    /// current ones, and the result is shown.
    pub open spec fn disasm_config_outcome(
        &self,
        post: &Self,
        auto_show: Option<bool>,
        count: Option<usize>,
        events: Seq<EngineEvent>,
        resume: Option<DebugLoopCommand>,
    ) -> bool {
        let c = DisassemblyConfig {
            count: match count {
                Some(n) => n,
                None => self.disasm_config.count,
            },
            auto_show: match auto_show {
                Some(a) => a,
                None => self.disasm_config.auto_show,
            },
        };
        &&& then_complete(events, 1)
        &&& output_text(events[0], disasm_config_message(c))
        &&& resume is None
        &&& *post == (DebugEngine { disasm_config: c, ..*self })
    }

    /// What `SetPrintConfig` does: the given settings replace the current
    /// ones, and the result is shown.
    pub open spec fn print_config_outcome(
        &self,
        post: &Self,
        limit: Option<usize>,
        depth: Option<usize>,
        pretty: Option<bool>,
        events: Seq<EngineEvent>,
        resume: Option<DebugLoopCommand>,
    ) -> bool {
        let c = PrintConfig {
            limit: match limit {
                Some(n) => n,
                None => self.print_config.limit,
            },
            depth: match depth {
                Some(n) => n,
                None => self.print_config.depth,
            },
            pretty: match pretty {
                Some(p) => p,
                None => self.print_config.pretty,
            },
        };
        &&& then_complete(events, 1)
        &&& output_text(events[0], print_config_message(c))
        &&& resume is None
        &&& *post == (DebugEngine { print_config: c, ..*self })
    }

    /// What `Print` does while paused: the value of the expression, or that
    /// it is unknown.
    pub open spec fn print_outcome(&self, post: &Self, expression: Seq<char>, events: Seq<EngineEvent>, resume: Option<DebugLoopCommand>) -> bool {
        &&& resume is None
        &&& *post == *self
        &&& {
            ||| then_complete(events, 1) && eval_result(expression, None) && error_text(
                events[0],
                unknown_variable_message(expression),
            )
            ||| then_complete(events, 2) && (events[0] matches EngineEvent::PrettyValue { value } && eval_result(
                expression,
                Some(value),
            ) && output_text(events[1], pretty_text(value)))
        }
    }

    fn cmd_continue(&mut self, out: &mut EngineOutput)
        requires
            old(out).events@.len() == 0,
            old(out).resume is None,
        ensures
            old(self).continue_outcome(final(self), final(out).events@, final(out).resume),
    {
        self.continue_debug_loop(out);
        self.process_state = ProcessState::Running;
        complete(out);
    }

    fn cmd_list_threads(&mut self, out: &mut EngineOutput)
        requires
            old(out).events@.len() == 0,
            old(out).resume is None,
        ensures
            old(self).listing_outcome(
                final(self),
                match old(self).session {
                    Some(s) => thread_list_text(s.threads@, s.selected_thread),
                    None => Seq::empty(),
                },
                final(out).events@,
                final(out).resume,
            ),
    {
        match &self.session {
            Some(s) => {
                let text = format_thread_list(s.threads.entries(), s.selected_thread);
                push_output(out, text);
            },
            None => {
                push_error_text(out, "No active debug session".to_owned());
            },
        }
        complete(out);
    }

    fn cmd_list_modules(&mut self, out: &mut EngineOutput)
        requires
            old(out).events@.len() == 0,
            old(out).resume is None,
        ensures
            old(self).listing_outcome(
                final(self),
                match old(self).session {
                    Some(s) => module_list_text(s.modules@),
                    None => Seq::empty(),
                },
                final(out).events@,
                final(out).resume,
            ),
    {
        match &self.session {
            Some(s) => {
                let text = format_module_list(s.modules.entries());
                push_output(out, text);
            },
            None => {
                push_error_text(out, "No active debug session".to_owned());
            },
        }
        complete(out);
    }

    fn cmd_select_thread(&mut self, id: u32, out: &mut EngineOutput)
        requires
            old(out).events@.len() == 0,
            old(out).resume is None,
        ensures
            old(self).select_outcome(final(self), id, final(out).events@, final(out).resume),
    {
        match &mut self.session {
            Some(s) => {
                let valid = match s.threads.get(id as u64) {
                    Some(t) => match t.state {
                        ThreadState::Exited { .. } => false,
                        _ => true,
                    },
                    None => false,
                };
                if valid {
                    s.selected_thread = Some(id);
                    push_output(out, decimal_message("Thread ", id as u64, " selecionada."));
                } else {
                    push_error_text(
                        out,
                        decimal_message("Thread ", id as u64, " não existe ou já foi encerrada."),
                    );
                }
            },
            None => {
                push_error_text(out, "No active debug session".to_owned());
            },
        }
        complete(out);
    }

    fn cmd_set_disasm_config(&mut self, auto_show: Option<bool>, count: Option<usize>, out: &mut EngineOutput)
        requires
            old(out).events@.len() == 0,
            old(out).resume is None,
        ensures
            old(self).disasm_config_outcome(final(self), auto_show, count, final(out).events@, final(out).resume),
    {
        match auto_show {
            Some(a) => {
                self.disasm_config.auto_show = a;
            },
            None => {},
        }
        match count {
            Some(c) => {
                self.disasm_config.count = c;
            },
            None => {},
        }
        let mut m = decimal_message("Disassembly config: count=", self.disasm_config.count as u64, ", auto_show=");
        m.append(bool_str(self.disasm_config.auto_show));
        push_output(out, m);
        complete(out);
    }

    fn cmd_set_print_config(
        &mut self,
        limit: Option<usize>,
        depth: Option<usize>,
        pretty: Option<bool>,
        out: &mut EngineOutput,
    )
        requires
            old(out).events@.len() == 0,
            old(out).resume is None,
        ensures
            old(self).print_config_outcome(final(self), limit, depth, pretty, final(out).events@, final(out).resume),
    {
        match limit {
            Some(l) => {
                self.print_config.limit = l;
            },
            None => {},
        }
        match depth {
            Some(d) => {
                self.print_config.depth = d;
            },
            None => {},
        }
        match pretty {
            Some(p) => {
                self.print_config.pretty = p;
            },
            None => {},
        }
        let mut m = decimal_message("Print config: limit=", self.print_config.limit as u64, ", depth=");
        push_decimal(&mut m, self.print_config.depth as u64);
        m.append(", pretty=");
        m.append(bool_str(self.print_config.pretty));
        push_output(out, m);
        complete(out);
    }

    fn cmd_print(&mut self, expression: String, out: &mut EngineOutput)
        requires
            old(out).events@.len() == 0,
            old(out).resume is None,
        ensures
            old(self).print_outcome(final(self), expression@, final(out).events@, final(out).resume),
    {
        match evaluate_expression(expression.as_str()) {
            Some(value) => {
                let text = format_pretty_value(&value);
                let ghost v = value;
                emit_pair(out, EngineEvent::PrettyValue { value }, text);
                assert(out.events@[0] == EngineEvent::PrettyValue { value: v });
                assert(output_text(out.events@[1], pretty_text(v)));
            },
            None => {
                let mut m = "Variável '".to_owned();
                m.append(expression.as_str());
                m.append("' não encontrada.");
                assert(m@ =~= unknown_variable_message(expression@));
                push_error_text(out, m);
                complete(out);
                assert(error_text(out.events@[0], unknown_variable_message(expression@)));
            },
        }
    }
}

} // verus!

verus! {

fn req_launch<B: DebugBackend>(backend: &B, log: &mut Ghost<Seq<BackendRequest>>, path: &str, args: &[String]) -> (r: Result<ProcessHandle, DebugError>)
    ensures
        final(log)@ == old(log)@.push(BackendRequest::Launch),
{
    let r = backend.launch(path, args);
    proof {
        log@ = log@.push(BackendRequest::Launch);
    }
    r
}

fn req_attach<B: DebugBackend>(backend: &B, log: &mut Ghost<Seq<BackendRequest>>, pid: u32) -> (r: Result<ProcessHandle, DebugError>)
    ensures
        final(log)@ == old(log)@.push(BackendRequest::Attach { pid }),
{
    let r = backend.attach(pid);
    proof {
        log@ = log@.push(BackendRequest::Attach { pid });
    }
    r
}

fn req_single_step<B: DebugBackend>(
    backend: &B,
    log: &mut Ghost<Seq<BackendRequest>>,
    handle: &ProcessHandle,
    thread_id: u32,
) -> (r: Result<(), DebugError>)
    ensures
        final(log)@ == old(log)@.push(BackendRequest::SingleStep { thread_id }),
{
    let r = backend.single_step(handle, thread_id);
    proof {
        log@ = log@.push(BackendRequest::SingleStep { thread_id });
    }
    r
}

fn req_read_memory<B: DebugBackend>(
    backend: &B,
    log: &mut Ghost<Seq<BackendRequest>>,
    handle: &ProcessHandle,
    address: u64,
    size: usize,
) -> (r: Result<Vec<u8>, DebugError>)
    ensures
        final(log)@ == old(log)@.push(BackendRequest::ReadMemory { address, size }),
{
    let r = backend.read_memory(handle, address, size);
    proof {
        log@ = log@.push(BackendRequest::ReadMemory { address, size });
    }
    r
}

fn req_write_block<B: DebugBackend>(
    backend: &B,
    log: &mut Ghost<Seq<BackendRequest>>,
    handle: &ProcessHandle,
    address: u64,
    bytes: &[u8],
) -> (r: Result<(), DebugError>)
    ensures
        final(log)@ == old(log)@.push(BackendRequest::WriteBlock { address, len: bytes@.len() as usize }),
{
    let r = backend.write_memory(handle, address, bytes);
    proof {
        log@ = log@.push(BackendRequest::WriteBlock { address, len: bytes@.len() as usize });
    }
    r
}

fn req_next_instruction<B: DebugBackend>(
    backend: &B,
    log: &mut Ghost<Seq<BackendRequest>>,
    handle: &ProcessHandle,
    rip: u64,
) -> (r: Result<u64, DebugError>)
    ensures
        final(log)@ == old(log)@.push(BackendRequest::NextInstruction { rip, reply: address_reply(r) }),
{
    let r = backend.next_instruction_address(handle, rip);
    proof {
        log@ = log@.push(BackendRequest::NextInstruction { rip, reply: address_reply(r) });
    }
    r
}

/// The address a backend call answered, if it succeeded.
pub open spec fn address_reply(r: Result<u64, DebugError>) -> Option<u64> {
    match r {
        Ok(a) => Some(a),
        Err(_) => None,
    }
}

fn req_return_address<B: DebugBackend>(
    backend: &B,
    log: &mut Ghost<Seq<BackendRequest>>,
    handle: &ProcessHandle,
    thread_id: u32,
) -> (r: Result<u64, DebugError>)
    ensures
        final(log)@ == old(log)@.push(BackendRequest::ReturnAddress { thread_id, reply: address_reply(r) }),
{
    let r = backend.read_return_address(handle, thread_id);
    proof {
        log@ = log@.push(BackendRequest::ReturnAddress { thread_id, reply: address_reply(r) });
    }
    r
}

fn req_resolve_symbol<B: DebugBackend>(backend: &B, log: &mut Ghost<Seq<BackendRequest>>, name: &str) -> (r: Result<
    Vec<u64>,
    DebugError,
>)
    ensures
        final(log)@ == old(log)@.push(BackendRequest::ResolveSymbol),
{
    let r = backend.resolve_symbol(name);
    proof {
        log@ = log@.push(BackendRequest::ResolveSymbol);
    }
    r
}

fn req_walk_stack<B: DebugBackend>(
    backend: &B,
    log: &mut Ghost<Seq<BackendRequest>>,
    handle: &ProcessHandle,
    thread_id: u32,
) -> (r: Result<Vec<StackFrame>, DebugError>)
    ensures
        final(log)@ == old(log)@.push(BackendRequest::WalkStack { thread_id }),
{
    let r = backend.walk_stack(handle, thread_id);
    proof {
        log@ = log@.push(BackendRequest::WalkStack { thread_id });
    }
    r
}

fn req_walk_stack_from<B: DebugBackend>(backend: &B, log: &mut Ghost<Seq<BackendRequest>>, rip: u64, rbp: u64) -> (r: Result<
    Vec<StackFrame>,
    DebugError,
>)
    ensures
        final(log)@ == old(log)@.push(BackendRequest::WalkStackFrom { rip, rbp }),
{
    let r = backend.walk_stack_with_context(rip, rbp);
    proof {
        log@ = log@.push(BackendRequest::WalkStackFrom { rip, rbp });
    }
    r
}

/// A session that knows nothing yet of its process.
pub open spec fn fresh_session(s: Session) -> bool {
    &&& s.wf()
    &&& s.threads@.len() == 0
    &&& s.modules@.len() == 0
    &&& s.selected_thread is None
    &&& s.last_context@.len() == 0
}

/// The error that a command needing a selected thread gets, if any.
pub open spec fn target_error(s: Option<Session>) -> Option<Seq<char>> {
    match s {
        None => Some(no_session_message()),
        Some(x) => match x.selected_thread {
            None => Some("Internal error: No thread selected"@),
            Some(_) => None,
        },
    }
}

/// The requests a successful step-over makes: read the registers, find the
/// next instruction (the backend answering `target`), read the byte there
/// and plant a breakpoint on it.
pub open spec fn step_over_requests(thread_id: u32, ctx: RegisterContext, target: u64) -> Seq<BackendRequest> {
    seq![
        BackendRequest::GetRegisters { thread_id, reply: Some(ctx) },
        BackendRequest::NextInstruction { rip: ctx.rip, reply: Some(target) },
        BackendRequest::ReadMemory { address: target, size: 1 },
        BackendRequest::WriteByte { address: target, value: 0xCC },
    ]
}

/// The requests a successful step-out makes: read the registers, find the
/// return address (the backend answering `target`), read the byte there
/// and plant a breakpoint on it.
pub open spec fn step_out_requests(thread_id: u32, ctx: RegisterContext, target: u64) -> Seq<BackendRequest> {
    seq![
        BackendRequest::GetRegisters { thread_id, reply: Some(ctx) },
        BackendRequest::ReturnAddress { thread_id, reply: Some(target) },
        BackendRequest::ReadMemory { address: target, size: 1 },
        BackendRequest::WriteByte { address: target, value: 0xCC },
    ]
}

impl<B: DebugBackend> DebugEngine<B> {
    /// A failed command: one error event, nothing sent to the debug loop,
    /// and nothing changed but requests added to the log.
    pub open spec fn failed_outcome(&self, post: &Self, events: Seq<EngineEvent>, resume: Option<DebugLoopCommand>) -> bool {
        &&& events.len() == 1
        &&& events[0] is Error
        &&& resume is None
        &&& self.requests@.is_prefix_of(post.requests@)
        &&& *post == (DebugEngine { requests: post.requests, ..*self })
    }

    /// What `Launch` does: on success a new session with the launched
    /// process, its path kept for the launch event, the debug loop
    /// connected.
    pub open spec fn launch_outcome(&self, post: &Self, path: Seq<char>, events: Seq<EngineEvent>, resume: Option<DebugLoopCommand>) -> bool {
        &&& post.requests@ =~= self.requests@.push(BackendRequest::Launch)
        &&& {
            ||| self.failed_outcome(post, events, resume)
            ||| {
                &&& events =~= seq![EngineEvent::CommandComplete]
                &&& resume is None
                &&& post.session matches Some(s) && fresh_session(s)
                &&& post.pending_exe_path matches Some(p) && p@ == path
                &&& *post == (DebugEngine {
                    session: post.session,
                    loop_connected: true,
                    pending_exe_path: post.pending_exe_path,
                    requests: post.requests,
                    ..*self
                })
            }
        }
    }

    /// What `Attach` does: on success a new session with the process and
    /// the debug loop connected.
    pub open spec fn attach_outcome(&self, post: &Self, pid: u32, events: Seq<EngineEvent>, resume: Option<DebugLoopCommand>) -> bool {
        &&& post.requests@ =~= self.requests@.push(BackendRequest::Attach { pid })
        &&& {
            ||| self.failed_outcome(post, events, resume)
            ||| {
                &&& events =~= seq![EngineEvent::ProcessAttached { pid }, EngineEvent::CommandComplete]
                &&& resume is None
                &&& post.session matches Some(s) && fresh_session(s)
                &&& *post == (DebugEngine {
                    session: post.session,
                    loop_connected: true,
                    requests: post.requests,
                    ..*self
                })
            }
        }
    }

    /// A successful step command: the process runs with the step pending.
    pub open spec fn stepping(&self, post: &Self, kind: StepKind, events: Seq<EngineEvent>, resume: Option<DebugLoopCommand>) -> bool {
        &&& events =~= seq![EngineEvent::CommandComplete]
        &&& resume == self.continue_command()
        &&& post.pending_step == Some(kind)
        &&& post.process_state == ProcessState::Running
        &&& post.debug_loop_waiting == (self.debug_loop_waiting && !self.loop_connected)
    }

    /// What `StepInto` does while paused.
    pub open spec fn step_into_outcome(&self, post: &Self, events: Seq<EngineEvent>, resume: Option<DebugLoopCommand>) -> bool {
        match target_error(self.session) {
            Some(m) => cut_short(events, m) && resume is None && *post == *self,
            None => {
                let tid = self.session->0.selected_thread->0;
                &&& post.requests@ =~= self.requests@.push(BackendRequest::SingleStep { thread_id: tid })
                &&& {
                    ||| self.failed_outcome(post, events, resume)
                    ||| self.stepping(post, StepKind::Into, events, resume) && *post == (DebugEngine {
                        requests: post.requests,
                        pending_step: post.pending_step,
                        process_state: post.process_state,
                        debug_loop_waiting: post.debug_loop_waiting,
                        ..*self
                    })
                }
            },
        }
    }

    /// What `StepOver` does while paused: plants a temporary breakpoint on
    /// the next instruction and lets the process run to it.
    pub open spec fn step_over_outcome(&self, post: &Self, events: Seq<EngineEvent>, resume: Option<DebugLoopCommand>) -> bool {
        match target_error(self.session) {
            Some(m) => cut_short(events, m) && resume is None && *post == *self,
            None => {
                let tid = self.session->0.selected_thread->0;
                ||| self.failed_outcome(post, events, resume)
                ||| exists|ctx: RegisterContext, target: u64|
                    {
                        &&& post.requests@ =~= self.requests@ + #[trigger] step_over_requests(tid, ctx, target)
                        &&& self.stepping(post, StepKind::Over, events, resume)
                        &&& post.stepping_over_saved_byte is Some
                        &&& *post == (DebugEngine {
                            stepping_over_breakpoint: Some(target),
                            stepping_over_saved_byte: post.stepping_over_saved_byte,
                            requests: post.requests,
                            pending_step: post.pending_step,
                            process_state: post.process_state,
                            debug_loop_waiting: post.debug_loop_waiting,
                            ..*self
                        })
                    }
            },
        }
    }

    /// What `StepOut` does while paused: plants a temporary breakpoint on
    /// the return address and lets the process run to it.
    pub open spec fn step_out_outcome(&self, post: &Self, events: Seq<EngineEvent>, resume: Option<DebugLoopCommand>) -> bool {
        match target_error(self.session) {
            Some(m) => cut_short(events, m) && resume is None && *post == *self,
            None => {
                let tid = self.session->0.selected_thread->0;
                ||| self.failed_outcome(post, events, resume)
                ||| exists|ctx: RegisterContext, target: u64|
                    {
                        &&& ctx.rsp != 0
                        &&& post.requests@ =~= self.requests@ + #[trigger] step_out_requests(tid, ctx, target)
                        &&& self.stepping(post, StepKind::Out, events, resume)
                        &&& post.stepping_out_saved_byte is Some
                        &&& *post == (DebugEngine {
                            stepping_out_breakpoint: Some(target),
                            stepping_out_saved_byte: post.stepping_out_saved_byte,
                            requests: post.requests,
                            pending_step: post.pending_step,
                            process_state: post.process_state,
                            debug_loop_waiting: post.debug_loop_waiting,
                            ..*self
                        })
                    }
            },
        }
    }

    /// The process handle and selected thread a step needs, or the error.
    fn step_target(&self) -> (r: Result<(ProcessHandle, u32), DebugError>)
        ensures
            match target_error(self.session) {
                Some(m) => r matches Err(e) && debug_error_text(e) == m,
                None => r == Ok::<(ProcessHandle, u32), DebugError>(
                    (self.session->0.handle, self.session->0.selected_thread->0),
                ),
            },
    {
        match &self.session {
            None => {
                proof {
                    reveal_strlit("No active debug session");
                }
                Err(DebugError::SessionNotActive)
            },
            Some(s) => match s.selected_thread {
                None => {
                    let e = DebugError::Internal("No thread selected".to_owned());
                    proof {
                        reveal_strlit("Internal error: ");
                        reveal_strlit("No thread selected");
                        reveal_strlit("Internal error: No thread selected");
                        assert(debug_error_text(e) =~= "Internal error: No thread selected"@);
                    }
                    Err(e)
                },
                Some(t) => Ok((s.handle, t)),
            },
        }
    }

    fn cmd_launch(&mut self, path: String, args: Vec<String>, out: &mut EngineOutput)
        requires
            old(self).wf(),
            old(out).events@.len() == 0,
            old(out).resume is None,
        ensures
            final(self).wf(),
            old(self).launch_outcome(final(self), path@, final(out).events@, final(out).resume),
    {
        match req_launch(&self.backend, &mut self.requests, path.as_str(), args.as_slice()) {
            Ok(handle) => {
                self.pending_exe_path = Some(path);
                self.loop_connected = true;
                self.session = Some(Session::new(handle));
                complete(out);
            },
            Err(e) => {
                fail(out, e);
            },
        }
    }

    fn cmd_attach(&mut self, pid: u32, out: &mut EngineOutput)
        requires
            old(self).wf(),
            old(out).events@.len() == 0,
            old(out).resume is None,
        ensures
            final(self).wf(),
            old(self).attach_outcome(final(self), pid, final(out).events@, final(out).resume),
    {
        match req_attach(&self.backend, &mut self.requests, pid) {
            Ok(handle) => {
                self.loop_connected = true;
                self.session = Some(Session::new(handle));
                out.events.push(EngineEvent::ProcessAttached { pid });
                complete(out);
            },
            Err(e) => {
                fail(out, e);
            },
        }
    }

    fn cmd_step_into(&mut self, out: &mut EngineOutput)
        requires
            old(self).wf(),
            old(out).events@.len() == 0,
            old(out).resume is None,
        ensures
            final(self).wf(),
            old(self).step_into_outcome(final(self), final(out).events@, final(out).resume),
    {
        let (handle, tid) = match self.step_target() {
            Ok(t) => t,
            Err(e) => {
                fail(out, e);
                return ;
            },
        };
        match req_single_step(&self.backend, &mut self.requests, &handle, tid) {
            Ok(()) => {},
            Err(e) => {
                fail(out, e);
                return ;
            },
        }
        self.pending_step = Some(StepKind::Into);
        self.continue_debug_loop(out);
        self.process_state = ProcessState::Running;
        complete(out);
    }

    fn cmd_step_over(&mut self, out: &mut EngineOutput)
        requires
            old(self).wf(),
            old(out).events@.len() == 0,
            old(out).resume is None,
        ensures
            final(self).wf(),
            old(self).step_over_outcome(final(self), final(out).events@, final(out).resume),
    {
        let (handle, tid) = match self.step_target() {
            Ok(t) => t,
            Err(e) => {
                fail(out, e);
                return ;
            },
        };
        let ghost r0 = self.requests@;
        let ctx = match get_registers(&self.backend, &mut self.requests, &handle, tid) {
            Ok(c) => c,
            Err(e) => {
                fail(out, e);
                assert(r0.is_prefix_of(self.requests@));
                return ;
            },
        };
        let rip = ctx.rip;
        let target = match req_next_instruction(&self.backend, &mut self.requests, &handle, rip) {
            Ok(a) => a,
            Err(e) => {
                fail(out, e);
                assert(r0.is_prefix_of(self.requests@));
                return ;
            },
        };
        let bytes = match req_read_memory(&self.backend, &mut self.requests, &handle, target, 1) {
            Ok(b) => b,
            Err(e) => {
                fail(out, e);
                assert(r0.is_prefix_of(self.requests@));
                return ;
            },
        };
        if bytes.len() != 1 {
            fail(out, DebugError::Internal("Failed to read byte for temp BP".to_owned()));
            assert(r0.is_prefix_of(self.requests@));
            return ;
        }
        let saved = bytes[0];
        match write_byte(&self.backend, &mut self.requests, &handle, target, 0xCC) {
            Ok(()) => {},
            Err(e) => {
                fail(out, e);
                assert(r0.is_prefix_of(self.requests@));
                return ;
            },
        }
        assert(self.requests@ =~= r0 + step_over_requests(tid, ctx, target));
        self.stepping_over_breakpoint = Some(target);
        self.stepping_over_saved_byte = Some(saved);
        self.pending_step = Some(StepKind::Over);
        self.continue_debug_loop(out);
        self.process_state = ProcessState::Running;
        complete(out);
    }

    fn cmd_step_out(&mut self, out: &mut EngineOutput)
        requires
            old(self).wf(),
            old(out).events@.len() == 0,
            old(out).resume is None,
        ensures
            final(self).wf(),
            old(self).step_out_outcome(final(self), final(out).events@, final(out).resume),
    {
        let (handle, tid) = match self.step_target() {
            Ok(t) => t,
            Err(e) => {
                fail(out, e);
                return ;
            },
        };
        let ghost r0 = self.requests@;
        let ctx = match get_registers(&self.backend, &mut self.requests, &handle, tid) {
            Ok(c) => c,
            Err(e) => {
                fail(out, e);
                assert(r0.is_prefix_of(self.requests@));
                return ;
            },
        };
        if ctx.rsp == 0 {
            fail(out, DebugError::Internal("invalid stack pointer".to_owned()));
            assert(r0.is_prefix_of(self.requests@));
            return ;
        }
        let target = match req_return_address(&self.backend, &mut self.requests, &handle, tid) {
            Ok(a) => a,
            Err(e) => {
                fail(out, e);
                assert(r0.is_prefix_of(self.requests@));
                return ;
            },
        };
        let bytes = match req_read_memory(&self.backend, &mut self.requests, &handle, target, 1) {
            Ok(b) => b,
            Err(e) => {
                fail(out, e);
                assert(r0.is_prefix_of(self.requests@));
                return ;
            },
        };
        if bytes.len() != 1 {
            fail(out, DebugError::Internal("Failed to read byte at return address".to_owned()));
            assert(r0.is_prefix_of(self.requests@));
            return ;
        }
        let saved = bytes[0];
        match write_byte(&self.backend, &mut self.requests, &handle, target, 0xCC) {
            Ok(()) => {},
            Err(e) => {
                fail(out, e);
                assert(r0.is_prefix_of(self.requests@));
                return ;
            },
        }
        assert(self.requests@ =~= r0 + step_out_requests(tid, ctx, target));
        self.stepping_out_breakpoint = Some(target);
        self.stepping_out_saved_byte = Some(saved);
        self.pending_step = Some(StepKind::Out);
        self.continue_debug_loop(out);
        self.process_state = ProcessState::Running;
        complete(out);
    }
}

} // verus!

verus! {

/// The breakpoints of `m`, in id order.
/// The addresses of the enabled breakpoints in a list.
pub open spec fn enabled_set(list: Seq<Breakpoint>) -> Set<u64>
    decreases list.len(),
{
    if list.len() == 0 {
        Set::empty()
    } else {
        let s = enabled_set(list.drop_last());
        if list.last().state == crate::breakpoint::BreakpointState::Enabled {
            s.insert(list.last().address)
        } else {
            s
        }
    }
}

/// The byte each enabled breakpoint of a list replaced, by address; a
/// later breakpoint at the same address wins.
pub open spec fn enabled_bytes(list: Seq<Breakpoint>) -> Map<u64, u8>
    decreases list.len(),
{
    if list.len() == 0 {
        Map::empty()
    } else {
        let m = enabled_bytes(list.drop_last());
        if list.last().state == crate::breakpoint::BreakpointState::Enabled {
            m.insert(list.last().address, list.last().original_byte)
        } else {
            m
        }
    }
}

pub open spec fn listed(m: BreakpointManager) -> Seq<Breakpoint> {
    Seq::new(m.ids().len(), |i: int| m@[m.ids()[i]])
}

/// The message confirming a new breakpoint, with the symbol it was set by
/// when there is one.
pub open spec fn set_message(id: u64, address: u64, symbol: Seq<char>) -> Seq<char> {
    if symbol.len() == 0 {
        "Breakpoint "@ + decimal(id as nat) + " definido em 0x"@ + hex(address as nat, false)
    } else {
        "Breakpoint "@ + decimal(id as nat) + " definido em "@ + symbol + " (0x"@ + hex(address as nat, false)
            + ")"@
    }
}

/// The message for a symbol that resolves to nothing.
pub open spec fn unknown_symbol_message(symbol: Seq<char>) -> Seq<char> {
    "Símbolo '"@ + symbol + "' não encontrado"@
}

/// The message confirming a deletion.
pub open spec fn removed_message(id: u64) -> Seq<char> {
    "Breakpoint "@ + decimal(id as nat) + " removido."@
}

/// The message confirming a memory write.
pub open spec fn written_message(address: u64, len: nat) -> Seq<char> {
    "Memória escrita em 0x"@ + hex(address as nat, false) + " ("@ + decimal(len) + " bytes)"@
}

/// A breakpoint just set: enabled, never hit.
pub open spec fn new_breakpoint(id: u64, address: u64, original_byte: u8) -> Breakpoint {
    Breakpoint { id, address, original_byte, state: crate::breakpoint::BreakpointState::Enabled, hit_count: 0 }
}

fn breakpoint_list(m: &BreakpointManager) -> (r: Vec<Breakpoint>)
    requires
        m.wf(),
    ensures
        r@ == listed(*m),
{
    let refs = m.list();
    let mut v: Vec<Breakpoint> = Vec::new();
    let mut i: usize = 0;
    while i < refs.len()
        invariant
            i <= refs@.len(),
            refs@.len() == m.ids().len(),
            forall|j: int| 0 <= j < refs@.len() ==> *#[trigger] refs@[j] == m@[m.ids()[j]],
            v@.len() == i,
            forall|j: int| 0 <= j < i ==> #[trigger] v@[j] == m@[m.ids()[j]],
        decreases refs@.len() - i,
    {
        v.push(*refs[i]);
        i = i + 1;
    }
    assert(v@ =~= listed(*m));
    v
}

} // verus!

verus! {

/// The thread a command for `thread_id` (or, without one, the selected
/// thread) acts on.
pub open spec fn chosen_thread(s: Session, thread_id: Option<u32>) -> Option<u32> {
    match thread_id {
        Some(t) => Some(t),
        None => s.selected_thread,
    }
}

/// The error that a command for `thread_id` gets before anything is asked
/// of the backend, if any.
pub open spec fn thread_error(s: Option<Session>, thread_id: Option<u32>) -> Option<Seq<char>> {
    match s {
        None => Some(no_session_message()),
        Some(x) => match chosen_thread(x, thread_id) {
            None => Some("Internal error: No thread selected"@),
            Some(_) => None,
        },
    }
}

impl<B: DebugBackend> DebugEngine<B> {
    /// What setting one breakpoint at `address` does, from this state to
    /// `post`, with `added` the events it adds.
    pub open spec fn breakpoint_set(&self, post: &Self, address: u64, symbol: Seq<char>, added: Seq<EngineEvent>) -> bool {
        let id = self.breakpoints.next_id();
        exists|b: u8|
            {
                &&& post.breakpoints@ == self.breakpoints@.insert(id, #[trigger] new_breakpoint(id, address, b))
                &&& post.breakpoints.next_id() == id + 1
                &&& post.breakpoints.ids() == self.breakpoints.ids().push(id)
                &&& post.requests@ =~= self.requests@ + seq![
                    BackendRequest::ReadMemory { address, size: 1 },
                    BackendRequest::WriteByte { address, value: 0xCC },
                ]
                &&& added.len() == 2
                &&& added[0] matches EngineEvent::BreakpointList { list } && list@ == listed(post.breakpoints)
                &&& output_text(added[1], set_message(id, address, symbol))
                &&& *post == (DebugEngine { breakpoints: post.breakpoints, requests: post.requests, ..*self })
            }
    }

    /// Breakpoints set at each of `addrs` in turn, from this state to
    /// `post` through `states`, each adding its two events.
    pub open spec fn sets_in_order(
        &self,
        post: &Self,
        addrs: Seq<u64>,
        symbol: Seq<char>,
        events: Seq<EngineEvent>,
        states: Seq<Self>,
    ) -> bool {
        &&& states.len() == addrs.len() + 1
        &&& events.len() == 2 * addrs.len()
        &&& states[0] == *self
        &&& states.last() == *post
        &&& forall|i: int|
            0 <= i < addrs.len() ==> #[trigger] states[i].breakpoint_set(
                &states[i + 1],
                addrs[i],
                symbol,
                events.subrange(2 * i, 2 * i + 2),
            )
    }

    /// What setting breakpoints at a symbol does once the symbol has been
    /// looked up: when it names no address, the error and the completion
    /// marker; otherwise a breakpoint at each address in turn, then the
    /// completion marker, or an error where one could not be set, which
    /// ends the command.
    pub open spec fn symbol_breakpoints(&self, post: &Self, symbol: Seq<char>, events: Seq<EngineEvent>) -> bool {
        ||| {
            &&& events.len() == 2
            &&& error_text(events[0], unknown_symbol_message(symbol))
            &&& events[1] is CommandComplete
            &&& *post == *self
        }
        ||| exists|addrs: Seq<u64>, k: int, mid: Self, states: Seq<Self>|
            {
                &&& 0 < addrs.len()
                &&& 0 <= k <= addrs.len()
                &&& #[trigger] self.sets_in_order(&mid, addrs.take(k), symbol, events.take(2 * k), states)
                &&& events.len() == 2 * k + 1
                &&& if k == addrs.len() {
                    events[2 * k] is CommandComplete && *post == mid
                } else {
                    &&& events[2 * k] is Error
                    &&& mid.requests@.is_prefix_of(post.requests@)
                    &&& *post == (DebugEngine { requests: post.requests, ..mid })
                }
            }
    }

    /// What `SetBreakpoint` does.
    pub open spec fn set_breakpoint_outcome(
        &self,
        post: &Self,
        address: Option<u64>,
        symbol: Option<String>,
        events: Seq<EngineEvent>,
        resume: Option<DebugLoopCommand>,
    ) -> bool {
        &&& resume is None
        &&& match address {
            Some(a) => {
                ||| self.failed_outcome(post, events, resume)
                ||| then_complete(events, 2) && self.breakpoint_set(post, a, ""@, events.subrange(0, 2))
            },
            None => match symbol {
                None => events =~= seq![EngineEvent::CommandComplete] && *post == *self,
                Some(sym) => exists|start: Self|
                    {
                        &&& #[trigger] start.requests@ == self.requests@.push(BackendRequest::ResolveSymbol)
                        &&& start == (DebugEngine { requests: start.requests, ..*self })
                        &&& start.symbol_breakpoints(post, sym@, events)
                    },
            },
        }
    }

    /// What `DeleteBreakpoint` does: the breakpoint goes, its original byte
    /// is written back, and the remaining list is shown.
    pub open spec fn delete_breakpoint_outcome(&self, post: &Self, id: u64, events: Seq<EngineEvent>, resume: Option<DebugLoopCommand>) -> bool {
        &&& resume is None
        &&& if self.breakpoints@.dom().contains(id) {
            let bp = self.breakpoints@[id];
            &&& post.breakpoints@ == self.breakpoints@.remove(id)
            &&& post.breakpoints.wf()
            &&& post.requests@ =~= self.requests@ + if self.session is Some {
                seq![BackendRequest::WriteByte { address: bp.address, value: bp.original_byte }]
            } else {
                Seq::empty()
            }
            &&& then_complete(events, 2)
            &&& events[0] matches EngineEvent::BreakpointList { list } && list@ == listed(post.breakpoints)
            &&& output_text(events[1], removed_message(id))
            &&& *post == (DebugEngine { breakpoints: post.breakpoints, requests: post.requests, ..*self })
        } else {
            failed_with(events, DebugError::BreakpointNotFound { id }) && *post == *self
        }
    }

    /// What `ReadRegisters` does while paused: the thread's registers, as a
    /// structured event and as text.
    pub open spec fn read_registers_outcome(
        &self,
        post: &Self,
        thread_id: Option<u32>,
        events: Seq<EngineEvent>,
        resume: Option<DebugLoopCommand>,
    ) -> bool {
        &&& resume is None
        &&& match thread_error(self.session, thread_id) {
            Some(m) => cut_short(events, m) && *post == *self,
            None => {
                let tid = chosen_thread(self.session->0, thread_id)->0;
                &&& *post == (DebugEngine { requests: post.requests, ..*self })
                &&& {
                    ||| post.requests@ =~= self.requests@.push(BackendRequest::GetRegisters { thread_id: tid, reply: None })
                        && events.len() == 1 && events[0] is Error
                    ||| exists|c: RegisterContext| {
                        &&& post.requests@ =~= self.requests@.push(
                            BackendRequest::GetRegisters { thread_id: tid, reply: Some(c) },
                        )
                        &&& then_complete(events, 2)
                        &&& events[0] == (EngineEvent::Registers { ctx: c })
                        &&& output_text(events[1], join(register_lines(c), "\n"@))
                    }
                }
            },
        }
    }

    /// What `WriteMemory` does: the bytes are written and the write is
    /// confirmed.
    pub open spec fn write_memory_outcome(
        &self,
        post: &Self,
        address: u64,
        len: nat,
        events: Seq<EngineEvent>,
        resume: Option<DebugLoopCommand>,
    ) -> bool {
        &&& resume is None
        &&& match self.session {
            None => cut_short(events, no_session_message()) && *post == *self,
            Some(s) => {
                &&& post.requests@ =~= self.requests@.push(
                    BackendRequest::WriteBlock { address, len: len as usize },
                )
                &&& *post == (DebugEngine { requests: post.requests, ..*self })
                &&& {
                    ||| events.len() == 1 && events[0] is Error
                    ||| then_complete(events, 1) && output_text(events[0], written_message(address, len))
                }
            },
        }
    }

    /// What `Backtrace` does while paused: the stack of the thread, walked
    /// from its saved context when it stopped at a breakpoint.
    pub open spec fn backtrace_outcome(
        &self,
        post: &Self,
        thread_id: Option<u32>,
        events: Seq<EngineEvent>,
        resume: Option<DebugLoopCommand>,
    ) -> bool {
        &&& resume is None
        &&& match thread_error(self.session, thread_id) {
            Some(m) => cut_short(events, m) && *post == *self,
            None => {
                let s = self.session->0;
                let tid = chosen_thread(s, thread_id)->0;
                let walk = match table_get(s.last_context@, tid as u64) {
                    Some(saved) => BackendRequest::WalkStackFrom { rip: saved.ctx.rip, rbp: saved.ctx.rbp },
                    None => BackendRequest::WalkStack { thread_id: tid },
                };
                &&& post.requests@ =~= self.requests@.push(walk)
                &&& *post == (DebugEngine { requests: post.requests, ..*self })
                &&& then_complete(events, 2) || then_complete(events, 1)
                &&& then_complete(events, 2) ==> (events[0] matches EngineEvent::StackTrace { frames }
                    && output_text(events[1], stack_text(frames@)))
                &&& then_complete(events, 1) ==> error_starting(events[0], "Failed to walk stack: "@)
            },
        }
    }

    /// Sets one breakpoint at `address`: reads the byte there, writes INT3
    /// over it, records the breakpoint and shows the new list.
    fn set_breakpoint_at(&mut self, address: u64, symbol: &str, out: &mut EngineOutput) -> (r: Result<(), DebugError>)
        requires
            old(self).wf(),
        ensures
            final(self).wf(),
            final(out).resume == old(out).resume,
            r is Err ==> final(out).events@ == old(out).events@ && old(self).requests@.is_prefix_of(
                final(self).requests@,
            ) && *final(self) == (DebugEngine { requests: final(self).requests, ..*old(self) }),
            old(self).session is None ==> r == Err::<(), DebugError>(DebugError::SessionNotActive)
                && final(self).requests@ == old(self).requests@,
            old(self).session is Some && old(self).breakpoints.next_id() == u64::MAX ==> (r matches Err(
                DebugError::Internal(m),
            ) && m@ == "breakpoint ids exhausted"@) && final(self).requests@ == old(self).requests@,
            old(self).session is Some && old(self).breakpoints.next_id() != u64::MAX ==> {
                ||| final(self).requests@ == old(self).requests@.push(BackendRequest::ReadMemory { address, size: 1 })
                    && r is Err
                ||| final(self).requests@ == old(self).requests@ + seq![
                    BackendRequest::ReadMemory { address, size: 1 },
                    BackendRequest::WriteByte { address, value: 0xCC },
                ]
            },
            r is Ok ==> final(out).events@.len() == old(out).events@.len() + 2 && final(out).events@.subrange(
                0,
                old(out).events@.len() as int,
            ) == old(out).events@ && old(self).breakpoint_set(
                final(self),
                address,
                symbol@,
                final(out).events@.subrange(old(out).events@.len() as int, final(out).events@.len() as int),
            ),
    {
        let handle = match self.session_handle() {
            Some(h) => h,
            None => return Err(DebugError::SessionNotActive),
        };
        if self.breakpoints.ids_exhausted() {
            let m = "breakpoint ids exhausted".to_owned();
            proof {
                reveal_strlit("breakpoint ids exhausted");
            }
            return Err(DebugError::Internal(m));
        }
        let ghost r0 = self.requests@;
        let read = match req_read_memory(&self.backend, &mut self.requests, &handle, address, 1) {
            Ok(b) => b,
            Err(e) => {
                assert(r0.is_prefix_of(self.requests@));
                return Err(e);
            },
        };
        if read.len() != 1 {
            assert(r0.is_prefix_of(self.requests@));
            return Err(
                DebugError::Win32Error { code: 0, message: "Failed to read byte for breakpoint".to_owned() },
            );
        }
        let original = read[0];
        match write_byte(&self.backend, &mut self.requests, &handle, address, 0xCC) {
            Ok(()) => {},
            Err(e) => {
                assert(r0.is_prefix_of(self.requests@));
                assert(self.requests@ =~= r0 + seq![
                    BackendRequest::ReadMemory { address, size: 1 },
                    BackendRequest::WriteByte { address, value: 0xCC },
                ]);
                return Err(e);
            },
        }
        let ghost e0 = out.events@;
        let id = self.breakpoints.set(address, original);
        let list = breakpoint_list(&self.breakpoints);
        let ghost l = list;
        out.events.push(EngineEvent::BreakpointList { list });
        let ghost e1 = out.events@;
        assert(e1[e0.len() as int] == EngineEvent::BreakpointList { list: l });
        let mut m: String;
        if symbol.unicode_len() == 0 {
            m = decimal_message("Breakpoint ", id, " definido em 0x");
            push_hex(&mut m, address, 0, false);
            assert(m@ =~= set_message(id, address, symbol@));
        } else {
            m = decimal_message("Breakpoint ", id, " definido em ");
            m.append(symbol);
            m.append(" (0x");
            push_hex(&mut m, address, 0, false);
            m.append(")");
            assert(m@ =~= set_message(id, address, symbol@));
        }
        push_output(out, m);
        proof {
            let added = out.events@.subrange(e0.len() as int, out.events@.len() as int);
            assert(added[0] == out.events@[e0.len() as int]);
            assert(out.events@.drop_last() == e1);
            assert(out.events@[e0.len() as int] == e1[e0.len() as int]);
            assert(added[0] == EngineEvent::BreakpointList { list: l });
            assert(l@ == listed(self.breakpoints));
            assert(added[1] == out.events@.last());
            assert(output_text(added[1], set_message(id, address, symbol@)));
            assert(*self == (DebugEngine { breakpoints: self.breakpoints, requests: self.requests, ..*old(self) }));
            assert(out.events@.subrange(0, e0.len() as int) =~= e0);
            assert(self.breakpoints@ == old(self).breakpoints@.insert(
                id,
                new_breakpoint(id, address, original),
            ));
            assert(self.requests@ =~= r0 + seq![
                BackendRequest::ReadMemory { address, size: 1 },
                BackendRequest::WriteByte { address, value: 0xCC },
            ]);
        }
        Ok(())
    }

    fn cmd_set_breakpoint(&mut self, address: Option<u64>, symbol: Option<String>, out: &mut EngineOutput)
        requires
            old(self).wf(),
            old(out).events@.len() == 0,
            old(out).resume is None,
        ensures
            final(self).wf(),
            old(self).set_breakpoint_outcome(final(self), address, symbol, final(out).events@, final(out).resume),
    {
        match address {
            Some(a) => {
                match self.set_breakpoint_at(a, "", out) {
                    Ok(()) => {
                        complete(out);
                        assert(out.events@.subrange(0, 2) =~= out.events@.drop_last());
                    },
                    Err(e) => {
                        fail(out, e);
                    },
                }
            },
            None => match symbol {
                Some(sym) => {
                    let resolved = req_resolve_symbol(&self.backend, &mut self.requests, sym.as_str());
                    let ghost start = *self;
                    let addrs = match resolved {
                        Ok(v) => v,
                        Err(_) => Vec::new(),
                    };
                    if addrs.len() == 0 {
                        let mut m = "Símbolo '".to_owned();
                        m.append(sym.as_str());
                        m.append("' não encontrado");
                        push_error_text(out, m);
                        complete(out);
                        assert(start.symbol_breakpoints(self, sym@, out.events@));
                        assert(start.requests@ == old(self).requests@.push(BackendRequest::ResolveSymbol));
                        return ;
                    }
                    let mut i: usize = 0;
                    let ghost mut states: Seq<Self> = seq![start];
                    assert(addrs@.take(0) =~= Seq::<u64>::empty());
                    assert(out.events@ =~= Seq::<EngineEvent>::empty());
                    while i < addrs.len()
                        invariant
                            self.wf(),
                            i <= addrs@.len(),
                            addrs@.len() > 0,
                            start.sets_in_order(self, addrs@.take(i as int), sym@, out.events@, states),
                            start.requests@ == old(self).requests@.push(BackendRequest::ResolveSymbol),
                            start == (DebugEngine { requests: start.requests, ..*old(self) }),
                            address is None,
                            symbol == Some(sym),
                            out.resume is None,
                        decreases addrs@.len() - i,
                    {
                        let ghost before = *self;
                        let ghost before_events = out.events@;
                        let name = sym.as_str();
                        assert(name@ == sym@);
                        match self.set_breakpoint_at(addrs[i], name, out) {
                            Ok(()) => {
                                proof {
                                    let t = addrs@.take(i + 1);
                                    let old_states = states;
                                    states = states.push(*self);
                                    let ev = out.events@;
                                    assert(ev.subrange(0, 2 * i as int) =~= before_events);
                                    assert forall|j: int| 0 <= j < t.len() implies #[trigger] states[j].breakpoint_set(
                                        &states[j + 1],
                                        t[j],
                                        sym@,
                                        ev.subrange(2 * j, 2 * j + 2),
                                    ) by {
                                        if j < i {
                                            assert(ev.subrange(2 * j, 2 * j + 2) =~= before_events.subrange(2 * j, 2 * j + 2));
                                            assert(old_states[j].breakpoint_set(
                                                &old_states[j + 1],
                                                addrs@.take(i as int)[j],
                                                sym@,
                                                before_events.subrange(2 * j, 2 * j + 2),
                                            ));
                                        } else {
                                            assert(states[j] == before);
                                        }
                                    }
                                }
                            },
                            Err(e) => {
                                fail(out, e);
                                proof {
                                    assert(out.events@.take(2 * i) =~= before_events);
                                    assert(start.sets_in_order(&before, addrs@.take(i as int), sym@, out.events@.take(2 * i), states));
                                    assert(start.symbol_breakpoints(self, sym@, out.events@));
                                    assert(start.requests@ == old(self).requests@.push(BackendRequest::ResolveSymbol));
                                }
                                return ;
                            },
                        }
                        i = i + 1;
                    }
                    let ghost run_events = out.events@;
                    complete(out);
                    proof {
                        let k = addrs@.len() as int;
                        assert(out.events@.take(2 * k) =~= run_events);
                        assert(start.sets_in_order(self, addrs@.take(k), sym@, out.events@.take(2 * k), states));
                        assert(start.symbol_breakpoints(self, sym@, out.events@));
                        assert(start.requests@ == old(self).requests@.push(BackendRequest::ResolveSymbol));
                    }
                },
                None => {
                    complete(out);
                },
            },
        }
    }

    fn cmd_delete_breakpoint(&mut self, id: u64, out: &mut EngineOutput)
        requires
            old(self).wf(),
            old(out).events@.len() == 0,
            old(out).resume is None,
        ensures
            final(self).wf(),
            old(self).delete_breakpoint_outcome(final(self), id, final(out).events@, final(out).resume),
    {
        let bp = match self.breakpoints.remove(id) {
            Ok(b) => b,
            Err(e) => {
                fail(out, e);
                return ;
            },
        };
        let ghost r0 = self.requests@;
        match self.session_handle() {
            Some(handle) => {
                let _ = write_byte(&self.backend, &mut self.requests, &handle, bp.address, bp.original_byte);
                assert(self.requests@ =~= r0 + seq![
                    BackendRequest::WriteByte { address: bp.address, value: bp.original_byte },
                ]);
            },
            None => {
                assert(r0 + Seq::<BackendRequest>::empty() =~= r0);
            },
        }
        let list = breakpoint_list(&self.breakpoints);
        let ghost l = list;
        emit_pair(out, EngineEvent::BreakpointList { list }, decimal_message("Breakpoint ", id, " removido."));
        assert(out.events@[0] == EngineEvent::BreakpointList { list: l });
    }

    fn cmd_read_registers(&mut self, thread_id: Option<u32>, out: &mut EngineOutput)
        requires
            old(self).wf(),
            old(out).events@.len() == 0,
            old(out).resume is None,
        ensures
            final(self).wf(),
            old(self).read_registers_outcome(final(self), thread_id, final(out).events@, final(out).resume),
    {
        let (handle, tid) = match &self.session {
            None => {
                fail(out, DebugError::SessionNotActive);
                proof {
                    reveal_strlit("No active debug session");
                }
                return ;
            },
            Some(s) => {
                let t = match thread_id {
                    Some(t) => Some(t),
                    None => s.selected_thread,
                };
                match t {
                    Some(t) => (s.handle, t),
                    None => {
                        let e = DebugError::Internal("No thread selected".to_owned());
                        proof {
                            reveal_strlit("Internal error: ");
                            reveal_strlit("No thread selected");
                            reveal_strlit("Internal error: No thread selected");
                            assert(debug_error_text(e) =~= "Internal error: No thread selected"@);
                        }
                        fail(out, e);
                        return ;
                    },
                }
            },
        };
        match get_registers(&self.backend, &mut self.requests, &handle, tid) {
            Ok(regs) => {
                let text = format_registers(&regs);
                emit_pair(out, EngineEvent::Registers { ctx: regs }, text);
            },
            Err(e) => {
                fail(out, e);
            },
        }
    }

    fn cmd_write_memory(&mut self, address: u64, bytes: Vec<u8>, out: &mut EngineOutput)
        requires
            old(self).wf(),
            old(out).events@.len() == 0,
            old(out).resume is None,
        ensures
            final(self).wf(),
            old(self).write_memory_outcome(final(self), address, bytes@.len(), final(out).events@, final(out).resume),
    {
        let handle = match self.session_handle() {
            Some(h) => h,
            None => {
                fail(out, DebugError::SessionNotActive);
                proof {
                    reveal_strlit("No active debug session");
                }
                return ;
            },
        };
        match req_write_block(&self.backend, &mut self.requests, &handle, address, bytes.as_slice()) {
            Ok(()) => {
                let mut m = "Memória escrita em 0x".to_owned();
                push_hex(&mut m, address, 0, false);
                m.append(" (");
                push_decimal(&mut m, bytes.len() as u64);
                m.append(" bytes)");
                assert(m@ =~= written_message(address, bytes@.len()));
                push_output(out, m);
                complete(out);
            },
            Err(e) => {
                fail(out, e);
            },
        }
    }

    fn cmd_backtrace(&mut self, thread_id: Option<u32>, out: &mut EngineOutput)
        requires
            old(self).wf(),
            old(out).events@.len() == 0,
            old(out).resume is None,
        ensures
            final(self).wf(),
            old(self).backtrace_outcome(final(self), thread_id, final(out).events@, final(out).resume),
    {
        let (handle, tid, saved) = match &self.session {
            None => {
                fail(out, DebugError::SessionNotActive);
                proof {
                    reveal_strlit("No active debug session");
                }
                return ;
            },
            Some(s) => {
                let t = match thread_id {
                    Some(t) => Some(t),
                    None => s.selected_thread,
                };
                match t {
                    Some(t) => {
                        let saved = match s.last_context.get(t as u64) {
                            Some(c) => Some(*c),
                            None => None,
                        };
                        (s.handle, t, saved)
                    },
                    None => {
                        let e = DebugError::Internal("No thread selected".to_owned());
                        proof {
                            reveal_strlit("Internal error: ");
                            reveal_strlit("No thread selected");
                            reveal_strlit("Internal error: No thread selected");
                            assert(debug_error_text(e) =~= "Internal error: No thread selected"@);
                        }
                        fail(out, e);
                        return ;
                    },
                }
            },
        };
        let frames = match saved {
            Some(c) => req_walk_stack_from(&self.backend, &mut self.requests, c.ctx.rip, c.ctx.rbp),
            None => req_walk_stack(&self.backend, &mut self.requests, &handle, tid),
        };
        match frames {
            Ok(frames) => {
                let text = format_stack(frames.as_slice());
                let ghost f = frames;
                emit_pair(out, EngineEvent::StackTrace { frames }, text);
                assert(out.events@[0] == EngineEvent::StackTrace { frames: f });
            },
            Err(e) => {
                push_error(out, "Failed to walk stack: ", &e);
                complete(out);
            },
        }
    }
}

} // verus!

verus! {

/// The outcome of reading `size` bytes at `a` after the requests `before`:
/// a null address is refused; otherwise the bytes as a structured event and
/// as a hex dump, or the read error.
pub open spec fn memory_read_result(
    a: u64,
    size: usize,
    before: Seq<BackendRequest>,
    after: Seq<BackendRequest>,
    events: Seq<EngineEvent>,
) -> bool {
    if a == 0 {
        cut_short(events, "Cannot read from null address"@) && after =~= before
    } else {
        &&& after =~= before.push(BackendRequest::ReadMemory { address: a, size })
        &&& {
            ||| then_complete(events, 2) && (events[0] matches EngineEvent::MemoryBytes { address, bytes }
                && address == a && output_text(events[1], join(dump_lines(a, bytes@), "\n"@)))
            ||| then_complete(events, 1) && error_starting(events[0], "Failed to read memory: "@)
        }
    }
}

/// The message for a symbol that a disassembly cannot resolve.
pub open spec fn unresolved_symbol_message(symbol: Seq<char>) -> Seq<char> {
    "Internal error: Symbol '"@ + symbol + "' not found (symbol resolution not yet integrated)"@
}

/// The disassembly shown for `address`: the lines the decoding of some
/// fetched bytes gives (at most `n`, marked against the current instruction
/// and the enabled breakpoints of `bps`), then their text.
pub open spec fn disassembly_shown(events: Seq<EngineEvent>, address: u64, rip: Option<u64>, n: usize, bps: Seq<Breakpoint>) -> bool {
    exists|bytes: Seq<u8>, view: DisassemblyView, comments: Seq<Seq<char>>|
        #![trigger x86_decoding(bytes, address), view_text(view, comments)]
        {
            &&& bytes.len() > 0
            &&& (x86_decoding(bytes, address) matches Ok(insns) && {
                let k = if insns.len() < n {
                    insns.len()
                } else {
                    n as nat
                };
                &&& view.lines@.len() == k
                &&& forall|j: int|
                    0 <= j < k ==> line_of(insns[j], rip, enabled_set(bps), enabled_bytes(bps), #[trigger] view.lines@[j])
                &&& view.base_address == address
                &&& view.rip == rip
                &&& view.truncated == (k < n)
            })
            &&& comments.len() == view.lines@.len()
            &&& forall|j: int| 0 <= j < comments.len() ==> comment_ok(view.lines@[j], #[trigger] comments[j])
            &&& events[0] == (EngineEvent::Disassembly { lines: view.lines })
            &&& output_text(events[1], view_text(view, comments))
        }
}

/// Where the shown disassembly starts, and the instruction marked current:
/// the given address and none, or around the thread's instruction pointer.
pub open spec fn disassembly_origin(address: Option<u64>, shown_at: u64, rip: Option<u64>, n: usize) -> bool {
    match address {
        Some(a) => shown_at == a && rip is None,
        None => rip matches Some(p) && shown_at == disasm_start(p, n),
    }
}

impl<B: DebugBackend> DebugEngine<B> {
    /// What `ReadMemory` does while paused: the address, or the register
    /// named by the expression, is read and shown.
    pub open spec fn read_memory_outcome(
        &self,
        post: &Self,
        address: u64,
        size: usize,
        expression: Option<String>,
        events: Seq<EngineEvent>,
        resume: Option<DebugLoopCommand>,
    ) -> bool {
        &&& resume is None
        &&& *post == (DebugEngine { requests: post.requests, ..*self })
        &&& match self.session {
            None => cut_short(events, no_session_message()) && post.requests@ == self.requests@,
            Some(s) => match expression {
                None => memory_read_result(address, size, self.requests@, post.requests@, events),
                Some(e) => match s.selected_thread {
                    None => cut_short(events, "Internal error: No thread selected"@) && post.requests@
                        == self.requests@,
                    Some(tid) => {
                        let failed = self.requests@.push(BackendRequest::GetRegisters { thread_id: tid, reply: None });
                        ||| post.requests@ =~= failed && events.len() == 1 && events[0] is Error
                        ||| exists|c: RegisterContext| {
                            let r1 = self.requests@.push(BackendRequest::GetRegisters { thread_id: tid, reply: Some(c) });
                            match #[trigger] register_named(c, e@) {
                                None => post.requests@ =~= r1 && cut_short(
                                    events,
                                    "Unknown register: "@ + e@,
                                ),
                                Some(a) => memory_read_result(a, size, r1, post.requests@, events),
                            }
                        }
                    },
                },
            },
        }
    }

    /// What `Disassemble` does: the instructions around the given address,
    /// or around the thread's instruction pointer, read in one block of at
    /// most 4096 bytes; any failure is shown as an error. It always
    /// completes.
    pub open spec fn disassemble_outcome(
        &self,
        post: &Self,
        address: Option<u64>,
        symbol: Option<String>,
        count: Option<usize>,
        events: Seq<EngineEvent>,
        resume: Option<DebugLoopCommand>,
    ) -> bool {
        let n = disasm_count(count, self.disasm_config.count);
        &&& resume is None
        &&& *post == (DebugEngine { requests: post.requests, ..*self })
        &&& self.requests@.is_prefix_of(post.requests@)
        &&& {
            ||| then_complete(events, 1) && events[0] is Error
            ||| then_complete(events, 2) && exists|at: u64, rip: Option<u64>|
                #[trigger] disassembly_shown(events, at, rip, n, listed(self.breakpoints)) && disassembly_origin(
                    address,
                    at,
                    rip,
                    n,
                )
        }
        &&& self.session is None ==> then_complete(events, 1) && error_text(events[0], no_session_message())
        &&& self.session is Some ==> match address {
            Some(a) => post.requests@ =~= self.requests@.push(
                BackendRequest::ReadMemory { address: a, size: disasm_buffer(n) },
            ),
            None => match symbol {
                Some(sym) => then_complete(events, 1) && error_text(
                    events[0],
                    unresolved_symbol_message(sym@),
                ) && post.requests@ == self.requests@,
                None => true,
            },
        }
    }

    fn cmd_read_memory(&mut self, address: u64, size: usize, expression: Option<String>, out: &mut EngineOutput)
        requires
            old(self).wf(),
            old(out).events@.len() == 0,
            old(out).resume is None,
        ensures
            final(self).wf(),
            old(self).read_memory_outcome(final(self), address, size, expression, final(out).events@, final(out).resume),
    {
        let handle = match self.session_handle() {
            Some(h) => h,
            None => {
                fail(out, DebugError::SessionNotActive);
                proof {
                    reveal_strlit("No active debug session");
                }
                return ;
            },
        };
        let ghost r0 = self.requests@;
        let mut address = address;
        match &expression {
            Some(expr) => {
                let tid = match &self.session {
                    Some(s) => match s.selected_thread {
                        Some(t) => t,
                        None => {
                            let e = DebugError::Internal("No thread selected".to_owned());
                            proof {
                                reveal_strlit("Internal error: ");
                                reveal_strlit("No thread selected");
                                reveal_strlit("Internal error: No thread selected");
                                assert(debug_error_text(e) =~= "Internal error: No thread selected"@);
                            }
                            fail(out, e);
                            return ;
                        },
                    },
                    None => {
                        return ;
                    },
                };
                let ctx = match get_registers(&self.backend, &mut self.requests, &handle, tid) {
                    Ok(c) => c,
                    Err(e) => {
                        fail(out, e);
                        return ;
                    },
                };
                match register_by_name(&ctx, expr.as_str()) {
                    Some(a) => {
                        address = a;
                    },
                    None => {
                        let mut m = "Unknown register: ".to_owned();
                        m.append(expr.as_str());
                        push_error_text(out, m);
                        assert(register_named(ctx, expr@) is None);
                        return ;
                    },
                }
                assert(register_named(ctx, expr@) == Some(address));
            },
            None => {},
        }
        let ghost r1 = self.requests@;
        if address == 0 {
            push_error_text(out, "Cannot read from null address".to_owned());
            return ;
        }
        match req_read_memory(&self.backend, &mut self.requests, &handle, address, size) {
            Ok(bytes) => {
                let text = format_hex_dump(address, bytes.as_slice());
                let ghost b = bytes;
                emit_pair(out, EngineEvent::MemoryBytes { address, bytes }, text);
                assert(out.events@[0] == EngineEvent::MemoryBytes { address, bytes: b });
            },
            Err(e) => {
                push_error(out, "Failed to read memory: ", &e);
                complete(out);
            },
        }
    }

    /// The addresses of the enabled breakpoints, and the byte each replaced.
    fn active_breakpoints(&self) -> (r: (HashSet<u64>, HashMap<u64, u8>))
        requires
            self.breakpoints.wf(),
        ensures
            r.0@ == enabled_set(listed(self.breakpoints)),
            r.1@ == enabled_bytes(listed(self.breakpoints)),
    {
        broadcast use vstd::std_specs::hash::group_hash_axioms;
        let list = self.breakpoints.list();
        let ghost bps = listed(self.breakpoints);
        assert(list@.len() == bps.len());
        let mut active: HashSet<u64> = HashSet::new();
        let mut originals: HashMap<u64, u8> = HashMap::new();
        let mut i: usize = 0;
        assert(bps.subrange(0, 0) =~= Seq::<Breakpoint>::empty());
        assert(active@ =~= Set::<u64>::empty());
        assert(originals@ =~= Map::<u64, u8>::empty());
        while i < list.len()
            invariant
                i <= list@.len(),
                list@.len() == bps.len(),
                forall|k: int| 0 <= k < list@.len() ==> *#[trigger] list@[k] == bps[k],
                active@ == enabled_set(bps.subrange(0, i as int)),
                originals@ == enabled_bytes(bps.subrange(0, i as int)),
            decreases list@.len() - i,
        {
            let bp = list[i];
            assert(*bp == bps[i as int]);
            assert(bps.subrange(0, i + 1).drop_last() =~= bps.subrange(0, i as int));
            if bp.state == crate::breakpoint::BreakpointState::Enabled {
                active.insert(bp.address);
                originals.insert(bp.address, bp.original_byte);
            }
            i = i + 1;
        }
        assert(bps.subrange(0, i as int) =~= bps);
        (active, originals)
    }

    /// Reads and disassembles the instructions a `Disassemble` command
    /// asks for, adding the structured lines and their text to `out`.
    fn handle_disassemble(
        &mut self,
        address: Option<u64>,
        symbol: Option<String>,
        thread_id: Option<u32>,
        count: Option<usize>,
        out: &mut EngineOutput,
    ) -> (r: Result<(), DebugError>)
        requires
            old(self).wf(),
            old(out).events@.len() == 0,
            old(out).resume is None,
        ensures
            final(self).wf(),
            final(out).resume is None,
            *final(self) == (DebugEngine { requests: final(self).requests, ..*old(self) }),
            old(self).requests@.is_prefix_of(final(self).requests@),
            r is Err ==> final(out).events@.len() == 0,
            r is Ok ==> final(out).events@.len() == 2 && exists|at: u64, rip: Option<u64>|
                #[trigger] disassembly_shown(
                    final(out).events@,
                    at,
                    rip,
                    disasm_count(count, old(self).disasm_config.count),
                    listed(old(self).breakpoints),
                ) && disassembly_origin(address, at, rip, disasm_count(count, old(self).disasm_config.count)),
            old(self).session is None ==> r == Err::<(), DebugError>(DebugError::SessionNotActive),
            old(self).session is Some ==> match address {
                Some(a) => final(self).requests@ =~= old(self).requests@.push(
                    BackendRequest::ReadMemory {
                        address: a,
                        size: disasm_buffer(disasm_count(count, old(self).disasm_config.count)),
                    },
                ),
                None => match symbol {
                    Some(sym) => (r matches Err(e) && debug_error_text(e) == unresolved_symbol_message(sym@))
                        && final(self).requests@ == old(self).requests@,
                    None => true,
                },
            },
    {
        let (handle, selected, first) = match &self.session {
            Some(s) => {
                let first = if s.threads.entries().len() > 0 {
                    Some(s.threads.entries()[0].id)
                } else {
                    None
                };
                (s.handle, s.selected_thread, first)
            },
            None => return Err(DebugError::SessionNotActive),
        };
        let n = clamp_disasm_count(count, self.disasm_config.count);
        let ghost r0 = self.requests@;
        let (addr, rip) = match address {
            Some(a) => (a, None),
            None => match symbol {
                Some(sym) => {
                    let mut m = "Symbol '".to_owned();
                    m.append(sym.as_str());
                    m.append("' not found (symbol resolution not yet integrated)");
                    let e = DebugError::Internal(m);
                    proof {
                        reveal_strlit("Internal error: ");
                        reveal_strlit("Symbol '");
                        reveal_strlit("Internal error: Symbol '");
                    }
                    assert(debug_error_text(e) =~= unresolved_symbol_message(sym@));
                    return Err(e);
                },
                None => {
                    let tid = match thread_id {
                        Some(t) => t,
                        None => match selected {
                            Some(t) => t,
                            None => match first {
                                Some(t) => t,
                                None => return Err(DebugError::Internal("No threads available".to_owned())),
                            },
                        },
                    };
                    let ctx = get_registers(&self.backend, &mut self.requests, &handle, tid)?;
                    (disassembly_start(ctx.rip, n), Some(ctx.rip))
                },
            },
        };
        let ghost r1 = self.requests@;
        let size = disassembly_buffer_size(n);
        let bytes = match req_read_memory(&self.backend, &mut self.requests, &handle, addr, size) {
            Ok(b) => b,
            Err(e) => {
                assert(r0.is_prefix_of(self.requests@));
                return Err(e);
            },
        };
        assert(r0.is_prefix_of(self.requests@));
        let (active, originals) = self.active_breakpoints();
        let mut d = Disassembler::new()?;
        let view = d.disassemble_at(addr, n, rip, bytes.as_slice(), &active, &originals)?;
        let text = view.format();
        let ghost v = view;
        let ghost comments = choose|comments: Seq<Seq<char>>|
            {
                &&& comments.len() == v.lines@.len()
                &&& forall|i: int| 0 <= i < comments.len() ==> comment_ok(v.lines@[i], #[trigger] comments[i])
                &&& text@ == view_text(v, comments)
            };
        let lines = view.lines;
        out.events.push(EngineEvent::Disassembly { lines });
        let ghost e1 = out.events@;
        push_output(out, text);
        assert(out.events@[0] == e1[0]);
        proof {
            let bs = bytes@;
            assert(x86_decoding(bs, addr) == x86_decoding(bs, addr));
            assert(view_text(v, comments) == view_text(v, comments));
            assert(disassembly_shown(out.events@, addr, rip, n, listed(self.breakpoints)));
        }
        Ok(())
    }

    fn cmd_disassemble(
        &mut self,
        address: Option<u64>,
        symbol: Option<String>,
        thread_id: Option<u32>,
        count: Option<usize>,
        out: &mut EngineOutput,
    )
        requires
            old(self).wf(),
            old(out).events@.len() == 0,
            old(out).resume is None,
        ensures
            final(self).wf(),
            old(self).disassemble_outcome(final(self), address, symbol, count, final(out).events@, final(out).resume),
    {
        let ghost n = disasm_count(count, self.disasm_config.count);
        let ghost bps = listed(self.breakpoints);
        match self.handle_disassemble(address, symbol, thread_id, count, out) {
            Ok(()) => {
                let ghost shown = out.events@;
                complete(out);
                proof {
                    let (at, rip) = choose|at: u64, rip: Option<u64>|
                        #[trigger] disassembly_shown(shown, at, rip, n, bps) && disassembly_origin(address, at, rip, n);
                    let (bytes, view, comments) = choose|bytes: Seq<u8>, view: DisassemblyView, comments: Seq<Seq<char>>|
                        #![trigger x86_decoding(bytes, at), view_text(view, comments)]
                        {
                            &&& bytes.len() > 0
                            &&& (x86_decoding(bytes, at) matches Ok(insns) && {
                                let k = if insns.len() < n {
                                    insns.len()
                                } else {
                                    n as nat
                                };
                                &&& view.lines@.len() == k
                                &&& forall|j: int|
                                    0 <= j < k ==> line_of(insns[j], rip, enabled_set(bps), enabled_bytes(bps), #[trigger] view.lines@[j])
                                &&& view.base_address == at
                                &&& view.rip == rip
                                &&& view.truncated == (k < n)
                            })
                            &&& comments.len() == view.lines@.len()
                            &&& forall|j: int| 0 <= j < comments.len() ==> comment_ok(view.lines@[j], #[trigger] comments[j])
                            &&& shown[0] == (EngineEvent::Disassembly { lines: view.lines })
                            &&& output_text(shown[1], view_text(view, comments))
                        };
                    assert(out.events@[0] == shown[0] && out.events@[1] == shown[1]);
                    assert(x86_decoding(bytes, at) == x86_decoding(bytes, at));
                    assert(view_text(view, comments) == view_text(view, comments));
                    assert(disassembly_shown(out.events@, at, rip, n, bps));
                }
            },
            Err(e) => {
                proof {
                    reveal_strlit("No active debug session");
                }
                fail(out, e);
                complete(out);
            },
        }
    }
}

} // verus!

verus! {

impl<B: DebugBackend> DebugEngine<B> {
    /// What handling `cmd` does: what its handler does (see
    /// `dispatch_outcome`), and then exactly one command-complete marker,
    /// appended when the handler ended otherwise (an error or a refusal).
    pub open spec fn command_outcome(
        &self,
        post: &Self,
        cmd: EngineCommand,
        events: Seq<EngineEvent>,
        resume: Option<DebugLoopCommand>,
    ) -> bool {
        &&& events.len() > 0
        &&& events.last() is CommandComplete
        &&& self.dispatch_outcome(post, cmd, events, resume) || (self.dispatch_outcome(
            post,
            cmd,
            events.drop_last(),
            resume,
        ) && !ends_complete(events.drop_last()))
    }

    /// What the handler of `cmd` does, from this state to `post`. While the
    /// process runs, commands that need it stopped are refused and change
    /// nothing.
    pub open spec fn dispatch_outcome(
        &self,
        post: &Self,
        cmd: EngineCommand,
        events: Seq<EngineEvent>,
        resume: Option<DebugLoopCommand>,
    ) -> bool {
        if self.process_state == ProcessState::Running && needs_pause(cmd) {
            cut_short(events, running_message()) && resume is None && *post == *self
        } else {
            match cmd {
                EngineCommand::Launch { path, args } => self.launch_outcome(post, path@, events, resume),
                EngineCommand::Attach { pid } => self.attach_outcome(post, pid, events, resume),
                EngineCommand::Continue => self.continue_outcome(post, events, resume),
                EngineCommand::StepInto => self.step_into_outcome(post, events, resume),
                EngineCommand::StepOver => self.step_over_outcome(post, events, resume),
                EngineCommand::StepOut => self.step_out_outcome(post, events, resume),
                EngineCommand::SetBreakpoint { address, symbol } => self.set_breakpoint_outcome(
                    post,
                    address,
                    symbol,
                    events,
                    resume,
                ),
                EngineCommand::DeleteBreakpoint { id } => self.delete_breakpoint_outcome(post, id, events, resume),
                EngineCommand::ReadRegisters { thread_id } => self.read_registers_outcome(
                    post,
                    thread_id,
                    events,
                    resume,
                ),
                EngineCommand::ReadMemory { address, size, expression } => self.read_memory_outcome(
                    post,
                    address,
                    size,
                    expression,
                    events,
                    resume,
                ),
                EngineCommand::WriteMemory { address, bytes } => self.write_memory_outcome(
                    post,
                    address,
                    bytes@.len(),
                    events,
                    resume,
                ),
                EngineCommand::Backtrace { thread_id } => self.backtrace_outcome(post, thread_id, events, resume),
                EngineCommand::ListThreads => self.listing_outcome(
                    post,
                    match self.session {
                        Some(s) => thread_list_text(s.threads@, s.selected_thread),
                        None => Seq::empty(),
                    },
                    events,
                    resume,
                ),
                EngineCommand::ListModules => self.listing_outcome(
                    post,
                    match self.session {
                        Some(s) => module_list_text(s.modules@),
                        None => Seq::empty(),
                    },
                    events,
                    resume,
                ),
                EngineCommand::Print { frame_id, expression } => self.print_outcome(
                    post,
                    expression@,
                    events,
                    resume,
                ),
                EngineCommand::ListTasks => then_complete(events, 1) && output_text(events[0], no_tasks_message())
                    && resume is None && *post == *self,
                EngineCommand::CargoLaunch { manifest_path, .. } => then_complete(events, 1) && output_text(
                    events[0],
                    cargo_launch_message(manifest_path@),
                ) && resume is None && *post == *self,
                EngineCommand::SelectThread { id } => self.select_outcome(post, id, events, resume),
                EngineCommand::Disassemble { address, symbol, thread_id, count } => self.disassemble_outcome(
                    post,
                    address,
                    symbol,
                    count,
                    events,
                    resume,
                ),
                EngineCommand::SetDisassemblyConfig { auto_show, count } => self.disasm_config_outcome(
                    post,
                    auto_show,
                    count,
                    events,
                    resume,
                ),
                EngineCommand::SetPrintConfig { limit, depth, pretty } => self.print_config_outcome(
                    post,
                    limit,
                    depth,
                    pretty,
                    events,
                    resume,
                ),
                EngineCommand::Quit => events =~= seq![EngineEvent::CommandComplete] && resume is None
                    && *post == *self,
            }
        }
    }

    /// Handles a command from the user: the events it produces, always
    /// ending with the command-complete marker (after the error when it
    /// failed or was cut short), and at most one command letting the debug
    /// loop go on.
    pub fn on_command(&mut self, cmd: EngineCommand) -> (out: EngineOutput)
        requires
            old(self).wf(),
        ensures
            final(self).wf(),
            old(self).command_outcome(final(self), cmd, out.events@, out.resume),
    {
        let mut out = self.dispatch(cmd);
        let n = out.events.len();
        let ended = n > 0 && match &out.events[n - 1] {
            EngineEvent::CommandComplete => true,
            _ => false,
        };
        if !ended {
            let ghost inner = out.events@;
            complete(&mut out);
            assert(out.events@.drop_last() == inner);
        }
        out
    }

    /// Runs the handler of a command.
    fn dispatch(&mut self, cmd: EngineCommand) -> (out: EngineOutput)
        requires
            old(self).wf(),
        ensures
            final(self).wf(),
            old(self).dispatch_outcome(final(self), cmd, out.events@, out.resume),
    {
        let mut out = EngineOutput::new();
        let needs_pause = match &cmd {
            EngineCommand::StepOver | EngineCommand::StepOut | EngineCommand::StepInto
            | EngineCommand::ReadRegisters { .. } | EngineCommand::ReadMemory { .. }
            | EngineCommand::Backtrace { .. } | EngineCommand::Print { .. } => true,
            _ => false,
        };
        if needs_pause && self.process_state == ProcessState::Running {
            push_error_text(&mut out, "Processo em execução — aguarde um evento de pausa.".to_owned());
            return out;
        }
        match cmd {
            EngineCommand::Launch { path, args } => self.cmd_launch(path, args, &mut out),
            EngineCommand::Attach { pid } => self.cmd_attach(pid, &mut out),
            EngineCommand::Continue => self.cmd_continue(&mut out),
            EngineCommand::StepInto => self.cmd_step_into(&mut out),
            EngineCommand::StepOver => self.cmd_step_over(&mut out),
            EngineCommand::StepOut => self.cmd_step_out(&mut out),
            EngineCommand::SetBreakpoint { address, symbol } => self.cmd_set_breakpoint(address, symbol, &mut out),
            EngineCommand::DeleteBreakpoint { id } => self.cmd_delete_breakpoint(id, &mut out),
            EngineCommand::ReadRegisters { thread_id } => self.cmd_read_registers(thread_id, &mut out),
            EngineCommand::ReadMemory { address, size, expression } => self.cmd_read_memory(
                address,
                size,
                expression,
                &mut out,
            ),
            EngineCommand::WriteMemory { address, bytes } => self.cmd_write_memory(address, bytes, &mut out),
            EngineCommand::Backtrace { thread_id } => self.cmd_backtrace(thread_id, &mut out),
            EngineCommand::ListThreads => self.cmd_list_threads(&mut out),
            EngineCommand::ListModules => self.cmd_list_modules(&mut out),
            EngineCommand::Print { frame_id, expression } => self.cmd_print(expression, &mut out),
            EngineCommand::ListTasks => {
                push_output(
                    &mut out,
                    " ID    State    Function\n(Nenhuma task Tokio encontrada no processo atual)".to_owned(),
                );
                complete(&mut out);
            },
            EngineCommand::CargoLaunch { manifest_path, .. } => {
                let mut m = "Cargo launch from ".to_owned();
                m.append(manifest_path.as_str());
                m.append(" — integration ready in rde-cargo crate");
                assert(m@ =~= cargo_launch_message(manifest_path@));
                push_output(&mut out, m);
                complete(&mut out);
            },
            EngineCommand::SelectThread { id } => self.cmd_select_thread(id, &mut out),
            EngineCommand::Disassemble { address, symbol, thread_id, count } => self.cmd_disassemble(
                address,
                symbol,
                thread_id,
                count,
                &mut out,
            ),
            EngineCommand::SetDisassemblyConfig { auto_show, count } => self.cmd_set_disasm_config(
                auto_show,
                count,
                &mut out,
            ),
            EngineCommand::SetPrintConfig { limit, depth, pretty } => self.cmd_set_print_config(
                limit,
                depth,
                pretty,
                &mut out,
            ),
            EngineCommand::Quit => complete(&mut out),
        }
        out
    }
}

} // verus!

verus! {

/// The request that read `c` from `thread_id`'s registers.
pub open spec fn registers_read(thread_id: u32, c: RegisterContext) -> BackendRequest {
    BackendRequest::GetRegisters { thread_id, reply: Some(c) }
}

/// The request that writes `ctx` into `thread_id`'s registers.
pub open spec fn set_registers_request(thread_id: u32, ctx: RegisterContext) -> BackendRequest {
    BackendRequest::SetRegisters { thread_id, ctx }
}

/// The request that writes `value` at `address`.
pub open spec fn write_byte_request(address: u64, value: u8) -> BackendRequest {
    BackendRequest::WriteByte { address, value }
}

/// A temporary breakpoint (planted by step-over or step-out) is never shown
/// to the user as a breakpoint hit: hitting it completes the step.
pub proof fn law_temporary_breakpoints_hidden<B: DebugBackend>(
    pre: DebugEngine<B>,
    post: DebugEngine<B>,
    kind: BreakpointKind,
    address: u64,
    thread_id: u32,
    events: Seq<EngineEvent>,
    resume: Option<DebugLoopCommand>,
)
    requires
        pre.stepping_over_breakpoint == Some(address) || pre.stepping_out_breakpoint == Some(address),
        pre.breakpoint_hit_outcome(&post, kind, address, thread_id, events, resume),
    ensures
        events == seq![EngineEvent::StepCompleted { thread_id, address }],
        forall|i: int| 0 <= i < events.len() ==> !(#[trigger] events[i] is BreakpointHit),
        resume is None,
{
}

/// The system's initial breakpoint is left alone: nothing is asked of the
/// backend (no byte restored, no register changed), the debug loop is not
/// let go on, and the hit is shown as a system breakpoint.
pub proof fn law_system_breakpoint_untouched<B: DebugBackend>(
    pre: DebugEngine<B>,
    post: DebugEngine<B>,
    kind: BreakpointKind,
    address: u64,
    thread_id: u32,
    events: Seq<EngineEvent>,
    resume: Option<DebugLoopCommand>,
)
    requires
        pre.stepping_over_breakpoint != Some(address),
        pre.stepping_out_breakpoint != Some(address),
        resolved_kind(kind, pre.breakpoints@, address) == BreakpointKind::SystemInitial,
        pre.breakpoint_hit_outcome(&post, kind, address, thread_id, events, resume),
    ensures
        post.requests@ == pre.requests@,
        resume is None,
        post.stepping_over_breakpoint == pre.stepping_over_breakpoint,
        post.breakpoints == pre.breakpoints,
        events == seq![
            EngineEvent::BreakpointHit { kind: BreakpointKind::SystemInitial, address, thread_id },
        ],
{
}

/// A user breakpoint hit follows the protocol: the original byte is
/// written back (when the breakpoint is known), the registers are read,
/// and, if that worked, written back with the instruction pointer on the
/// breakpoint and the trap flag set; the breakpoint is then remembered for
/// reinstalling after the single step. The hit is shown last.
pub proof fn law_user_breakpoint_protocol<B: DebugBackend>(
    pre: DebugEngine<B>,
    post: DebugEngine<B>,
    kind: BreakpointKind,
    id: u64,
    address: u64,
    thread_id: u32,
    events: Seq<EngineEvent>,
    resume: Option<DebugLoopCommand>,
)
    requires
        pre.stepping_over_breakpoint != Some(address),
        pre.stepping_out_breakpoint != Some(address),
        pre.session is Some,
        resolved_kind(kind, pre.breakpoints@, address) == BreakpointKind::UserDefined(id),
        pre.breakpoint_hit_outcome(&post, kind, address, thread_id, events, resume),
    ensures
        ({
            let base = pre.requests@ + restore_request(pre.breakpoints@, id, address);
            ||| post.requests@ == base.push(BackendRequest::GetRegisters { thread_id, reply: None }) && resume is None
            ||| exists|c: RegisterContext, ctx: RegisterContext|
                #![trigger set_registers_request(thread_id, ctx), registers_read(thread_id, c)]
                post.requests@ == base + seq![
                    registers_read(thread_id, c),
                    set_registers_request(thread_id, ctx),
                ] && ctx.rip == address && ctx.rflags & 0x100 == 0x100 && ctx.rflags & !0x100u64 == c.rflags
                    & !0x100u64 && ctx == (RegisterContext { rip: ctx.rip, rflags: ctx.rflags, ..c })
                    && post.stepping_over_breakpoint == Some(address)
        }),
        events.len() >= 1,
        events.last() == (EngineEvent::BreakpointHit { kind: BreakpointKind::UserDefined(id), address, thread_id }),
        post.breakpoints == pre.breakpoints,
{
    let base = pre.requests@ + restore_request(pre.breakpoints@, id, address);
    if post.requests@ != base.push(BackendRequest::GetRegisters { thread_id, reply: None }) {
        let c = choose|c: RegisterContext| #![trigger rewound_for_step(c, address)]
            {
                let ctx = rewound_for_step(c, address);
                &&& post.requests@ =~= base + seq![
                    BackendRequest::GetRegisters { thread_id, reply: Some(c) },
                    BackendRequest::SetRegisters { thread_id, ctx },
                ]
                &&& resume == pre.continue_command()
                &&& post.stepping_over_breakpoint == Some(address)
                &&& post.debug_loop_waiting == (pre.debug_loop_waiting && !pre.loop_connected)
                &&& post.session matches Some(s2) && selecting(pre.session, thread_id) matches Some(s1)
                    && s2.handle == s1.handle && s2.threads == s1.threads && s2.modules == s1.modules
                    && s2.selected_thread == s1.selected_thread && s2.last_context@ == table_put(
                    s1.last_context@,
                    SavedContext { thread_id, ctx },
                )
                &&& post == (DebugEngine {
                    requests: post.requests,
                    session: post.session,
                    stepping_over_breakpoint: post.stepping_over_breakpoint,
                    debug_loop_waiting: post.debug_loop_waiting,
                    ..pre
                })
            };
        let ctx = rewound_for_step(c, address);
        let f = c.rflags;
        assert((f | 0x100u64) & 0x100u64 == 0x100u64) by (bit_vector);
        assert((f | 0x100u64) & !0x100u64 == f & !0x100u64) by (bit_vector);
        assert(post.requests@ == base + seq![
            registers_read(thread_id, c),
            set_registers_request(thread_id, ctx),
        ]);
    }
}

/// After a single step the trap flag is cleared, and the breakpoint that
/// was stepped over is put back (INT3 written at its address). A step the
/// user asked for stays stopped and is shown; one the engine made to step
/// over a breakpoint lets the debug loop go on and shows nothing.
pub proof fn law_single_step_restores<B: DebugBackend>(
    pre: DebugEngine<B>,
    post: DebugEngine<B>,
    address: u64,
    thread_id: u32,
    events: Seq<EngineEvent>,
    resume: Option<DebugLoopCommand>,
)
    requires
        pre.session is Some,
        pre.single_step_outcome(&post, address, thread_id, events, resume),
    ensures
        ({
            let reinstall = match pre.stepping_over_breakpoint {
                Some(bp) => seq![BackendRequest::WriteByte { address: bp, value: 0xCC }],
                None => Seq::empty(),
            };
            let base = pre.requests@ + reinstall;
            ||| post.requests@ == base.push(BackendRequest::GetRegisters { thread_id, reply: None })
            ||| exists|c: RegisterContext, ctx: RegisterContext|
                #![trigger set_registers_request(thread_id, ctx), registers_read(thread_id, c)]
                post.requests@ == base + seq![
                    registers_read(thread_id, c),
                    set_registers_request(thread_id, ctx),
                ] && ctx.rflags & 0x100 == 0 && ctx.rflags | 0x100u64 == c.rflags | 0x100u64 && ctx == (
                RegisterContext { rflags: ctx.rflags, ..c })
        }),
        post.stepping_over_breakpoint is None,
        post.pending_step is None,
        pre.pending_step is Some ==> events.len() >= 1 && events.last() == (EngineEvent::SingleStep {
            address,
            thread_id,
        }),
        pre.pending_step is None ==> forall|i: int| 0 <= i < events.len() ==> #[trigger] events[i] is Error,
{
    let reinstall = match pre.stepping_over_breakpoint {
        Some(bp) => seq![BackendRequest::WriteByte { address: bp, value: 0xCC }],
        None => Seq::<BackendRequest>::empty(),
    };
    let base = pre.requests@ + reinstall;
    if post.requests@ != base.push(BackendRequest::GetRegisters { thread_id, reply: None }) {
        let c = choose|c: RegisterContext|
            post.requests@ == base + seq![
                BackendRequest::GetRegisters { thread_id, reply: Some(c) },
                BackendRequest::SetRegisters { thread_id, ctx: #[trigger] trap_cleared(c) },
            ] && if pre.pending_step is Some {
                resume is None && post.debug_loop_waiting == pre.debug_loop_waiting
            } else {
                resume == pre.continue_command() && post.debug_loop_waiting == (pre.debug_loop_waiting
                    && !pre.loop_connected)
            };
        let ctx = trap_cleared(c);
        let f = c.rflags;
        assert((f & !0x100u64) & 0x100u64 == 0) by (bit_vector);
        assert((f & !0x100u64) | 0x100u64 == f | 0x100u64) by (bit_vector);
        assert(post.requests@ == base + seq![
            registers_read(thread_id, c),
            set_registers_request(thread_id, ctx),
        ]);
    }
    if pre.pending_step is None {
        assert forall|i: int| 0 <= i < events.len() implies #[trigger] events[i] is Error by {
            assert(events.subrange(0, 0).len() == 0);
        }
    }
}

/// The request that asked for the instruction after `rip` and was
/// answered `a`.
pub open spec fn next_instruction_answered(rip: u64, a: u64) -> BackendRequest {
    BackendRequest::NextInstruction { rip, reply: Some(a) }
}

/// The request that asked for the thread's return address and was
/// answered `a`.
pub open spec fn return_address_answered(thread_id: u32, a: u64) -> BackendRequest {
    BackendRequest::ReturnAddress { thread_id, reply: Some(a) }
}

/// A step-over that goes ahead plants its temporary breakpoint at the
/// instruction after the current one: it reads the selected thread's
/// registers, asks the backend for the instruction after their `rip`, and
/// reads and overwrites with INT3 the byte at exactly the address the
/// backend answered, which becomes the step-over breakpoint; then the
/// process runs.
pub proof fn law_step_over_plants_at_next_instruction<B: DebugBackend>(
    pre: DebugEngine<B>,
    post: DebugEngine<B>,
    events: Seq<EngineEvent>,
    resume: Option<DebugLoopCommand>,
)
    requires
        pre.step_over_outcome(&post, events, resume),
        events == seq![EngineEvent::CommandComplete],
    ensures
        pre.session matches Some(s) && s.selected_thread matches Some(tid) && exists|c: RegisterContext, a: u64|
            #![trigger registers_read(tid, c), next_instruction_answered(c.rip, a)]
            {
                &&& post.requests@ == pre.requests@ + seq![
                    registers_read(tid, c),
                    next_instruction_answered(c.rip, a),
                    BackendRequest::ReadMemory { address: a, size: 1 },
                    BackendRequest::WriteByte { address: a, value: 0xCC },
                ]
                &&& post.stepping_over_breakpoint == Some(a)
                &&& post.pending_step == Some(StepKind::Over)
                &&& post.process_state == ProcessState::Running
            },
{
    let tid = pre.session->0.selected_thread->0;
    let (c, a) = choose|ctx: RegisterContext, target: u64|
        {
            &&& post.requests@ =~= pre.requests@ + #[trigger] step_over_requests(tid, ctx, target)
            &&& pre.stepping(&post, StepKind::Over, events, resume)
            &&& post.stepping_over_saved_byte is Some
            &&& post == (DebugEngine {
                stepping_over_breakpoint: Some(target),
                stepping_over_saved_byte: post.stepping_over_saved_byte,
                requests: post.requests,
                pending_step: post.pending_step,
                process_state: post.process_state,
                debug_loop_waiting: post.debug_loop_waiting,
                ..pre
            })
        };
    assert(post.requests@ == pre.requests@ + seq![
        registers_read(tid, c),
        next_instruction_answered(c.rip, a),
        BackendRequest::ReadMemory { address: a, size: 1 },
        BackendRequest::WriteByte { address: a, value: 0xCC },
    ]);
}

/// A step-out that goes ahead plants its temporary breakpoint at the
/// return address: it reads the selected thread's registers (whose stack
/// pointer is not null), asks the backend for the thread's return address,
/// and reads and overwrites with INT3 the byte at exactly the address the
/// backend answered, which becomes the step-out breakpoint; then the
/// process runs.
pub proof fn law_step_out_plants_at_return_address<B: DebugBackend>(
    pre: DebugEngine<B>,
    post: DebugEngine<B>,
    events: Seq<EngineEvent>,
    resume: Option<DebugLoopCommand>,
)
    requires
        pre.step_out_outcome(&post, events, resume),
        events == seq![EngineEvent::CommandComplete],
    ensures
        pre.session matches Some(s) && s.selected_thread matches Some(tid) && exists|c: RegisterContext, a: u64|
            #![trigger registers_read(tid, c), return_address_answered(tid, a)]
            {
                &&& c.rsp != 0
                &&& post.requests@ == pre.requests@ + seq![
                    registers_read(tid, c),
                    return_address_answered(tid, a),
                    BackendRequest::ReadMemory { address: a, size: 1 },
                    BackendRequest::WriteByte { address: a, value: 0xCC },
                ]
                &&& post.stepping_out_breakpoint == Some(a)
                &&& post.pending_step == Some(StepKind::Out)
                &&& post.process_state == ProcessState::Running
            },
{
    let tid = pre.session->0.selected_thread->0;
    let (c, a) = choose|ctx: RegisterContext, target: u64|
        {
            &&& ctx.rsp != 0
            &&& post.requests@ =~= pre.requests@ + #[trigger] step_out_requests(tid, ctx, target)
            &&& pre.stepping(&post, StepKind::Out, events, resume)
            &&& post.stepping_out_saved_byte is Some
            &&& post == (DebugEngine {
                stepping_out_breakpoint: Some(target),
                stepping_out_saved_byte: post.stepping_out_saved_byte,
                requests: post.requests,
                pending_step: post.pending_step,
                process_state: post.process_state,
                debug_loop_waiting: post.debug_loop_waiting,
                ..pre
            })
        };
    assert(post.requests@ == pre.requests@ + seq![
        registers_read(tid, c),
        return_address_answered(tid, a),
        BackendRequest::ReadMemory { address: a, size: 1 },
        BackendRequest::WriteByte { address: a, value: 0xCC },
    ]);
}

/// While the process runs, the commands that need it stopped are refused
/// with one error and the command-complete marker: nothing is asked of
/// the backend and nothing changes.
pub proof fn law_refused_while_running<B: DebugBackend>(
    pre: DebugEngine<B>,
    post: DebugEngine<B>,
    cmd: EngineCommand,
    events: Seq<EngineEvent>,
    resume: Option<DebugLoopCommand>,
)
    requires
        pre.process_state == ProcessState::Running,
        needs_pause(cmd),
        pre.command_outcome(&post, cmd, events, resume),
    ensures
        post == pre,
        events.len() == 2,
        error_text(events[0], running_message()),
        events[1] is CommandComplete,
        resume is None,
{
}

/// When the selected thread exits, the selection falls back to the thread
/// with the smallest id among those that have not exited; there is none
/// only when every thread has exited.
pub proof fn law_exit_fallback(ts: Seq<Thread>)
    ensures
        min_live_thread(ts) matches Some(m) ==> exists|i: int|
            0 <= i < ts.len() && #[trigger] ts[i].id == m && !(ts[i].state is Exited),
        min_live_thread(ts) matches Some(m) ==> forall|i: int|
            0 <= i < ts.len() && !(ts[i].state is Exited) ==> m <= #[trigger] ts[i].id,
        min_live_thread(ts) is None ==> forall|i: int| 0 <= i < ts.len() ==> #[trigger] ts[i].state is Exited,
    decreases ts.len(),
{
    if ts.len() > 0 {
        let t = ts.drop_last();
        law_exit_fallback(t);
        assert forall|i: int| 0 <= i < t.len() implies #[trigger] t[i] == ts[i] by {}
        if let Some(m) = min_live_thread(ts) {
            assert forall|i: int| 0 <= i < ts.len() && !(ts[i].state is Exited) implies m <= #[trigger] ts[i].id by {
                if i < t.len() {
                    assert(!(t[i].state is Exited));
                    assert(min_live_thread(t) is Some);
                }
            }
            if min_live_thread(t) is Some && m == min_live_thread(t)->0 {
                let i = choose|i: int| 0 <= i < t.len() && #[trigger] t[i].id == m && !(t[i].state is Exited);
                assert(ts[i].id == m);
            } else {
                assert(ts[ts.len() - 1].id == m);
            }
        } else {
            assert forall|i: int| 0 <= i < ts.len() implies #[trigger] ts[i].state is Exited by {
                if i < t.len() {
                    assert(t[i].state is Exited);
                }
            }
        }
    }
}

/// Only a known thread that has not exited can be selected.
pub proof fn law_select_only_live<B: DebugBackend>(
    pre: DebugEngine<B>,
    post: DebugEngine<B>,
    id: u32,
    events: Seq<EngineEvent>,
    resume: Option<DebugLoopCommand>,
)
    requires
        pre.select_outcome(&post, id, events, resume),
        post.session matches Some(s) && s.selected_thread == Some(id),
        pre.session matches Some(s) && s.selected_thread != Some(id),
    ensures
        pre.session matches Some(s) && selectable(s.threads@, id),
{
}

/// A disassembly shows between 1 and 100 instructions and reads at most
/// 4096 bytes, 64 for each instruction up to that limit.
pub proof fn law_disassembly_bounds(requested: Option<usize>, configured: usize)
    ensures
        1 <= disasm_count(requested, configured) <= 100,
        disasm_buffer(disasm_count(requested, configured)) <= 4096,
        disasm_count(requested, configured) <= 64 ==> disasm_buffer(disasm_count(requested, configured))
            == 64 * disasm_count(requested, configured),
{
}

/// Deleting the breakpoint that setting one just added gives back the
/// breakpoints there were, and writes back the very byte the INT3 replaced.
pub proof fn law_set_then_delete<B: DebugBackend>(
    pre: DebugEngine<B>,
    mid: DebugEngine<B>,
    post: DebugEngine<B>,
    address: u64,
    symbol: Seq<char>,
    added: Seq<EngineEvent>,
    events: Seq<EngineEvent>,
    resume: Option<DebugLoopCommand>,
)
    requires
        pre.wf(),
        pre.session is Some,
        pre.breakpoint_set(&mid, address, symbol, added),
        mid.delete_breakpoint_outcome(&post, pre.breakpoints.next_id(), events, resume),
    ensures
        post.breakpoints@ == pre.breakpoints@,
        exists|b: u8|
            #![trigger write_byte_request(address, b)]
            post.requests@ == pre.requests@ + seq![
                BackendRequest::ReadMemory { address, size: 1 },
                BackendRequest::WriteByte { address, value: 0xCC },
                write_byte_request(address, b),
            ] && mid.breakpoints@[pre.breakpoints.next_id()] == new_breakpoint(
                pre.breakpoints.next_id(),
                address,
                b,
            ),
{
    let id = pre.breakpoints.next_id();
    let b = choose|b: u8|
        {
            &&& mid.breakpoints@ == pre.breakpoints@.insert(id, #[trigger] new_breakpoint(id, address, b))
            &&& mid.breakpoints.next_id() == id + 1
            &&& mid.breakpoints.ids() == pre.breakpoints.ids().push(id)
            &&& mid.requests@ =~= pre.requests@ + seq![
                BackendRequest::ReadMemory { address, size: 1 },
                BackendRequest::WriteByte { address, value: 0xCC },
            ]
            &&& added.len() == 2
            &&& added[0] matches EngineEvent::BreakpointList { list } && list@ == listed(mid.breakpoints)
            &&& output_text(added[1], set_message(id, address, symbol))
            &&& mid == (DebugEngine { breakpoints: mid.breakpoints, requests: mid.requests, ..pre })
        };
    pre.breakpoints.lemma_wf();
    assert(!pre.breakpoints@.dom().contains(id));
    assert(mid.breakpoints@.dom().contains(id));
    assert(pre.breakpoints@.insert(id, new_breakpoint(id, address, b)).remove(id) =~= pre.breakpoints@);
    assert(post.requests@ =~= pre.requests@ + seq![
        BackendRequest::ReadMemory { address, size: 1 },
        BackendRequest::WriteByte { address, value: 0xCC },
        write_byte_request(address, b),
    ]);
}

} // verus!

verus! {

/// In the thread list, a thread's line is marked with a trailing `*`
/// exactly when it is the selected thread: the selected thread's line ends
/// in " *", every other line ends in a space. Each line starts with a
/// space and the thread's id.
pub proof fn law_thread_line_marks_selected(t: Thread, selected: Option<u32>)
    ensures
        thread_line(t, selected).len() >= 2,
        (thread_line(t, selected).last() == '*') <==> (selected == Some(t.id)),
        selected == Some(t.id) ==> thread_line(t, selected).subrange(
            thread_line(t, selected).len() - 2,
            thread_line(t, selected).len() as int,
        ) == " *"@,
        selected != Some(t.id) ==> thread_line(t, selected).last() == ' ',
        thread_line(t, selected).subrange(0, 1 + decimal(t.id as nat).len() as int) == " "@ + decimal(t.id as nat),
{
    reveal_strlit(" *");
    reveal_strlit(" ");
    reveal_strlit("");
    let l = thread_line(t, selected);
    let id = decimal(t.id as nat);
    let p = pad_right(id, 8, ' ');
    let head = " "@ + p + " "@ + pad_right(thread_state_name(t.state), 11, ' ') + " "@;
    assert(head.len() >= 1);
    assert(head.last() == ' ');
    if selected == Some(t.id) {
        assert(l == head + " *"@);
        assert(l.subrange(l.len() - 2, l.len() as int) =~= " *"@);
        assert(l.last() == '*');
    } else {
        assert(l == head + ""@);
        assert(l =~= head);
    }
    assert(p.len() >= id.len());
    assert(p.subrange(0, id.len() as int) =~= id) by {
        if id.len() < 8 {
            assert((id + crate::text::repeat(' ', (8 - id.len()) as nat)).subrange(0, id.len() as int) =~= id);
        }
    }
    assert(l.subrange(0, 1 + id.len() as int) =~= " "@ + id) by {
        assert forall|i: int| 0 <= i < 1 + id.len() implies l[i] == (" "@ + id)[i] by {
            if i > 0 {
                assert(l[i] == p[i - 1]);
                assert(p[i - 1] == p.subrange(0, id.len() as int)[i - 1]);
            }
        }
    }
}

} // verus!
