//! The debugger's shared data model: processes, threads, registers, modules,
//! stack frames, errors, Cargo targets, engine commands and events.

use vstd::prelude::*;
use crate::breakpoint::Breakpoint;
use crate::disasm::DisassemblyLine;
use crate::text::{decimal, hex, push_decimal, push_hex};

verus! {

/// `Clone::clone` of `Result`: the copy holds a clone of whichever payload
/// the cloned value holds. Nothing is claimed about the returned value here; the
/// declaration only lets derived `Clone` impls of types with a `Result` field
/// stand in verified code.
pub assume_specification<T: Clone, E: Clone>[ <Result<T, E> as Clone>::clone ](
    r: &Result<T, E>,
) -> Result<T, E>;

/// OS thread identifier.
pub type ThreadId = u32;

/// Unique identifier for a breakpoint.
pub type BreakpointId = u64;

/// Opaque handle to a debugged process.
#[derive(Debug, Clone, Copy, PartialEq, Eq, Structural)]
pub struct ProcessHandle {
    pub process_id: u32,
    pub process_handle: RawHandle,
}

/// Opaque raw handle wrapper.
#[derive(Debug, Clone, Copy, PartialEq, Eq, Structural)]
pub struct RawHandle(pub usize);

/// Target to debug: either launch a new process or attach to an existing one.
#[derive(Debug, Clone)]
pub enum Target {
    Launch { path: String, args: Vec<String>, working_dir: Option<String> },
    Attach { pid: u32 },
}

/// Current state of a debug session.
#[derive(Debug, Clone, Copy, PartialEq, Eq, Structural)]
pub enum SessionState {
    Running,
    Paused { reason: PauseReason },
    Exited { code: u32 },
}

/// Reason why the session entered the Paused state.
#[derive(Debug, Clone, Copy, PartialEq, Eq, Structural)]
pub enum PauseReason {
    BreakpointHit { address: u64, breakpoint_id: BreakpointId },
    SingleStepComplete { address: u64 },
    Exception { code: u32, address: u64 },
    ProcessExited,
}

/// CPU register context for x86-64.
#[derive(Debug, Clone, Copy, Default, PartialEq, Eq, Structural)]
pub struct RegisterContext {
    pub rax: u64,
    pub rbx: u64,
    pub rcx: u64,
    pub rdx: u64,
    pub rsi: u64,
    pub rdi: u64,
    pub rbp: u64,
    pub rsp: u64,
    pub rip: u64,
    pub r8: u64,
    pub r9: u64,
    pub r10: u64,
    pub r11: u64,
    pub r12: u64,
    pub r13: u64,
    pub r14: u64,
    pub r15: u64,
    pub rflags: u64,
}

/// Represents a thread in the target process.
#[derive(Debug, Clone, Copy)]
pub struct Thread {
    pub id: ThreadId,
    pub handle: RawHandle,
    pub state: ThreadState,
    pub context: Option<RegisterContext>,
}

/// Run state of a thread.
#[derive(Debug, Clone, Copy, PartialEq, Eq, Structural)]
pub enum ThreadState {
    Running,
    Suspended,
    Exited { exit_code: u32 },
}

/// Loaded module (DLL or EXE) in the target address space.
#[derive(Debug, Clone)]
pub struct Module {
    pub name: String,
    pub base_address: u64,
    pub size: u64,
    pub path: Option<String>,
    pub symbols_loaded: bool,
}

/// Stack frame with optional symbol info.
#[derive(Debug, Clone)]
pub struct StackFrame {
    pub frame_number: u32,
    pub return_address: u64,
    pub frame_pointer: u64,
    pub stack_pointer: u64,
    pub symbol: Option<SymbolInfo>,
}

/// A resolved symbol.
#[derive(Debug, Clone)]
pub struct SymbolInfo {
    pub name: String,
    pub module: String,
    pub file: Option<String>,
    pub line: Option<u32>,
    pub address: u64,
}

/// Core debugger errors.
#[derive(Debug, Clone, PartialEq)]
pub enum DebugError {
    ProcessNotFound { pid: u32 },
    AccessDenied { pid: u32 },
    InvalidAddress { address: u64 },
    BreakpointNotFound { id: BreakpointId },
    SessionNotActive,
    AlreadyRunning,
    NotPaused,
    Win32Error { code: u32, message: String },
    Internal(String),
}

/// The message an error displays.
pub open spec fn debug_error_text(e: DebugError) -> Seq<char> {
    match e {
        DebugError::ProcessNotFound { pid } => "Process not found: "@ + decimal(pid as nat),
        DebugError::AccessDenied { pid } => "Access denied to process "@ + decimal(pid as nat),
        DebugError::InvalidAddress { address } => "Invalid address: 0x"@ + hex(
            address as nat,
            false,
        ),
        DebugError::BreakpointNotFound { id } => "Breakpoint "@ + decimal(id as nat)
            + " not found"@,
        DebugError::SessionNotActive => "No active debug session"@,
        DebugError::AlreadyRunning => "Process is already running"@,
        DebugError::NotPaused => "Process is not paused"@,
        DebugError::Win32Error { code, message } => "Win32 error "@ + decimal(code as nat)
            + ": "@ + message@,
        DebugError::Internal(m) => "Internal error: "@ + m@,
    }
}

impl DebugError {
    /// The human-readable message of this error.
    pub fn message(&self) -> (r: String)
        ensures
            r@ == debug_error_text(*self),
    {
        let mut out = String::new();
        match self {
            DebugError::ProcessNotFound { pid } => {
                out.append("Process not found: ");
                push_decimal(&mut out, *pid as u64);
            },
            DebugError::AccessDenied { pid } => {
                out.append("Access denied to process ");
                push_decimal(&mut out, *pid as u64);
            },
            DebugError::InvalidAddress { address } => {
                out.append("Invalid address: 0x");
                push_hex(&mut out, *address, 0, false);
            },
            DebugError::BreakpointNotFound { id } => {
                out.append("Breakpoint ");
                push_decimal(&mut out, *id);
                out.append(" not found");
            },
            DebugError::SessionNotActive => {
                out.append("No active debug session");
            },
            DebugError::AlreadyRunning => {
                out.append("Process is already running");
            },
            DebugError::NotPaused => {
                out.append("Process is not paused");
            },
            DebugError::Win32Error { code, message } => {
                out.append("Win32 error ");
                push_decimal(&mut out, *code as u64);
                out.append(": ");
                out.append(message.as_str());
            },
            DebugError::Internal(m) => {
                out.append("Internal error: ");
                out.append(m.as_str());
            },
        }
        assert(out@ =~= debug_error_text(*self));
        out
    }
}

/// Kind of Cargo target.
#[derive(Debug, Clone, Copy, PartialEq, Eq, Structural)]
pub enum CargoTargetKind {
    Bin,
    Lib,
    Test,
    Bench,
    Example,
}

/// A resolved Cargo build target.
#[derive(Debug, Clone)]
pub struct CargoTarget {
    /// Package containing the target.
    pub package_name: String,
    /// Name of the target.
    pub target_name: String,
    /// Kind of target.
    pub target_kind: CargoTargetKind,
    /// Build profile (e.g., `dev`, `release`).
    pub profile: String,
    /// Active Cargo features.
    pub features: Vec<String>,
    /// Resolved path to the compiled executable.
    pub artifact_path: String,
}

/// Cargo launch request parameters.
#[derive(Debug, Clone)]
pub struct CargoLaunchRequest {
    /// Path to the `Cargo.toml` manifest.
    pub manifest_path: String,
    /// Specific package to build (for workspaces).
    pub package: Option<String>,
    /// Specific target to build.
    pub target: Option<String>,
    /// Build profile.
    pub profile: String,
    /// Features to enable.
    pub features: Vec<String>,
}

/// Commands sent from the REPL/UI to the debug engine.
#[derive(Debug, Clone)]
pub enum EngineCommand {
    Launch { path: String, args: Vec<String> },
    Attach { pid: u32 },
    Continue,
    StepInto,
    /// Advance one machine instruction without entering callees.
    StepOver,
    /// Run to the end of the current function and stop at the caller.
    StepOut,
    SetBreakpoint { address: Option<u64>, symbol: Option<String> },
    DeleteBreakpoint { id: BreakpointId },
    ReadRegisters { thread_id: Option<ThreadId> },
    ReadMemory { address: u64, size: usize, expression: Option<String> },
    WriteMemory { address: u64, bytes: Vec<u8> },
    Backtrace { thread_id: Option<ThreadId> },
    ListThreads,
    ListModules,
    Print { frame_id: u64, expression: String },
    ListTasks,
    CargoLaunch {
        manifest_path: String,
        package: Option<String>,
        target: Option<String>,
        profile: String,
        features: Vec<String>,
    },
    SelectThread { id: ThreadId },
    Disassemble {
        address: Option<u64>,
        symbol: Option<String>,
        thread_id: Option<ThreadId>,
        count: Option<usize>,
    },
    SetDisassemblyConfig { auto_show: Option<bool>, count: Option<usize> },
    /// Configure pretty-printer output limits.
    SetPrintConfig { limit: Option<usize>, depth: Option<usize>, pretty: Option<bool> },
    Quit,
}

/// Commands sent from the engine to the debug loop thread.
#[derive(Debug, Clone, Copy, PartialEq, Eq, Structural)]
pub enum DebugLoopCommand {
    Continue,
    ContinueException,
}

/// Classification of a breakpoint hit.
///
/// System-generated breakpoints (such as the initial breakpoint the OS plants
/// before the process entry point) are kept apart from user-defined ones: the
/// restore-byte / rewind-IP / trap-flag protocol applies to the latter only.
#[derive(Debug, Clone, Copy, PartialEq, Eq, Structural)]
pub enum BreakpointKind {
    /// The debug loop could not tell; the engine resolves it by address.
    Unknown,
    /// A system-generated breakpoint; continued as is, never manipulated.
    SystemInitial,
    /// A user-defined software breakpoint (INT3).
    UserDefined(BreakpointId),
    /// An internal breakpoint planted by step-over or step-out; never shown.
    Temporary,
}

/// State of a Tokio async task.
#[derive(Debug, Clone, Copy, PartialEq, Eq, Structural)]
pub enum TaskState {
    /// Task is actively executing on a worker thread.
    Running,
    /// Task is scheduled but not currently running.
    Idle,
    /// Task is waiting on I/O or a timer.
    Sleeping,
    /// Task has finished execution.
    Completed,
}

/// Represents a Tokio task in the debugged process.
#[derive(Debug, Clone)]
pub struct AsyncTask {
    /// Unique task identifier from the Tokio runtime.
    pub task_id: u64,
    /// Current execution state.
    pub state: TaskState,
    /// Name of the async function or spawn point (when available).
    pub function_name: Option<String>,
    /// OS thread ID of the Tokio worker thread currently running the task.
    pub runtime_thread_id: Option<u32>,
}

/// The result of pretty-printing a value from the debuggee.
#[derive(Debug, PartialEq)]
pub enum PrettyValue {
    /// A primitive or simple scalar value (e.g., `42`, `"hello"`).
    Scalar(String),
    /// An enum variant with optional payload.
    Enum { name: String, payload: Option<Box<PrettyValue>> },
    /// An ordered sequence of values.
    Sequence(Vec<PrettyValue>),
    /// A map of key-value pairs.
    Mapping(Vec<(PrettyValue, PrettyValue)>),
    /// Fallback raw memory representation when no printer matches.
    Raw(String),
    /// Indicator that the formatting budget was exhausted.
    Truncated,
}

impl Clone for PrettyValue {
    fn clone(&self) -> (r: Self)
        decreases self,
    {
        match self {
            PrettyValue::Scalar(s) => PrettyValue::Scalar(s.clone()),
            PrettyValue::Enum { name, payload } => {
                let p = match payload {
                    Some(b) => Some(Box::new((**b).clone())),
                    None => None,
                };
                PrettyValue::Enum { name: name.clone(), payload: p }
            },
            PrettyValue::Sequence(items) => {
                let mut out: Vec<PrettyValue> = Vec::new();
                let mut i: usize = 0;
                while i < items.len()
                    invariant
                        i <= items@.len(),
                        *self == PrettyValue::Sequence(*items),
                    decreases items@.len() - i,
                {
                    assert(decreases_to!(self => self->Sequence_0));
                    assert(decreases_to!(self->Sequence_0 => self->Sequence_0@));
                    assert(decreases_to!(self->Sequence_0@ => self->Sequence_0@[i as int]));
                    out.push(items[i].clone());
                    i = i + 1;
                }
                PrettyValue::Sequence(out)
            },
            PrettyValue::Mapping(items) => {
                let mut out: Vec<(PrettyValue, PrettyValue)> = Vec::new();
                let mut i: usize = 0;
                while i < items.len()
                    invariant
                        i <= items@.len(),
                        *self == PrettyValue::Mapping(*items),
                    decreases items@.len() - i,
                {
                    assert(decreases_to!(self => self->Mapping_0));
                    assert(decreases_to!(self->Mapping_0 => self->Mapping_0@));
                    assert(decreases_to!(self->Mapping_0@ => self->Mapping_0@[i as int]));
                    assert(decreases_to!(self->Mapping_0@[i as int] => self->Mapping_0@[i as int].0));
                    assert(decreases_to!(self->Mapping_0@[i as int] => self->Mapping_0@[i as int].1));
                    let k = items[i].0.clone();
                    let v = items[i].1.clone();
                    out.push((k, v));
                    i = i + 1;
                }
                PrettyValue::Mapping(out)
            },
            PrettyValue::Raw(s) => PrettyValue::Raw(s.clone()),
            PrettyValue::Truncated => PrettyValue::Truncated,
        }
    }
}

/// Events sent from the debug engine to the REPL/UI.
#[derive(Debug, Clone)]
pub enum EngineEvent {
    ProcessLaunched { pid: u32, base_address: u64 },
    ProcessAttached { pid: u32 },
    BreakpointHit { kind: BreakpointKind, address: u64, thread_id: ThreadId },
    SingleStep { address: u64, thread_id: ThreadId },
    ProcessExited { code: u32 },
    ThreadCreated { id: ThreadId, handle: usize },
    ThreadExited { id: ThreadId, code: u32 },
    ModuleLoaded { name: String, base: u64 },
    ModuleUnloaded { base: u64 },
    Exception { code: u32, address: u64 },
    Error { message: String },
    Output { message: String },
    /// Structured register context response.
    Registers { ctx: RegisterContext },
    /// Structured disassembly response.
    Disassembly { lines: Vec<DisassemblyLine> },
    /// Structured breakpoint list.
    BreakpointList { list: Vec<Breakpoint> },
    /// Structured stack trace response.
    StackTrace { frames: Vec<StackFrame> },
    /// Pretty-printed value response.
    PrettyValue { value: PrettyValue },
    /// Tokio async task list response.
    TaskList { tasks: Vec<AsyncTask> },
    /// Emitted after a StepOver or StepOut operation completes.
    StepCompleted { thread_id: ThreadId, address: u64 },
    /// Cargo launch result.
    CargoLaunchResult { result: Result<u32, String> },
    /// Raw memory bytes response (for pretty-print integration).
    MemoryBytes { address: u64, bytes: Vec<u8> },
    /// Emitted by the engine after every command completes.
    CommandComplete,
}

} // verus!
