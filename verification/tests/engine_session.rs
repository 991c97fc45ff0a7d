use std::cell::RefCell;
use std::collections::HashMap;

use rde::engine::{clamp_disasm_count, fallback_thread, DebugBackend, DebugEngine, ProcessState};
use rde::types::{
    BreakpointKind, DebugError, EngineCommand, EngineEvent, ProcessHandle, RawHandle, RegisterContext, StackFrame, Thread,
    ThreadState,
};

/// A process simulated in memory: its bytes, its registers, and the writes
/// the engine made.
struct FakeProcess {
    memory: RefCell<HashMap<u64, u8>>,
    registers: RefCell<RegisterContext>,
    writes: RefCell<Vec<(u64, Vec<u8>)>>,
}

impl FakeProcess {
    fn new() -> Self {
        let mut memory = HashMap::new();
        for a in 0x401000u64..0x401010 {
            memory.insert(a, 0x90);
        }
        FakeProcess {
            memory: RefCell::new(memory),
            registers: RefCell::new(RegisterContext { rip: 0x401000, rax: 7, ..Default::default() }),
            writes: RefCell::new(Vec::new()),
        }
    }
}

fn handle() -> ProcessHandle {
    ProcessHandle { process_id: 4242, process_handle: RawHandle(1) }
}

impl DebugBackend for FakeProcess {
    fn launch(&self, _path: &str, _args: &[String]) -> Result<ProcessHandle, DebugError> {
        Ok(handle())
    }
    fn attach(&self, pid: u32) -> Result<ProcessHandle, DebugError> {
        Err(DebugError::ProcessNotFound { pid })
    }
    fn continue_execution(&self, _handle: &ProcessHandle) -> Result<(), DebugError> {
        Ok(())
    }
    fn single_step(&self, _handle: &ProcessHandle, _thread_id: u32) -> Result<(), DebugError> {
        Ok(())
    }
    fn read_memory(&self, _handle: &ProcessHandle, address: u64, size: usize) -> Result<Vec<u8>, DebugError> {
        let m = self.memory.borrow();
        (0..size as u64).map(|i| m.get(&(address + i)).copied().ok_or(DebugError::InvalidAddress { address })).collect()
    }
    fn write_memory(&self, _handle: &ProcessHandle, address: u64, bytes: &[u8]) -> Result<(), DebugError> {
        let mut m = self.memory.borrow_mut();
        for (i, b) in bytes.iter().enumerate() {
            m.insert(address + i as u64, *b);
        }
        self.writes.borrow_mut().push((address, bytes.to_vec()));
        Ok(())
    }
    fn get_registers(&self, _handle: &ProcessHandle, _thread_id: u32) -> Result<RegisterContext, DebugError> {
        Ok(*self.registers.borrow())
    }
    fn set_registers(&self, _handle: &ProcessHandle, _thread_id: u32, ctx: &RegisterContext) -> Result<(), DebugError> {
        *self.registers.borrow_mut() = *ctx;
        Ok(())
    }
    fn suspend_thread(&self, _handle: &ProcessHandle, _thread_id: u32) -> Result<(), DebugError> {
        Ok(())
    }
    fn resume_thread(&self, _handle: &ProcessHandle, _thread_id: u32) -> Result<(), DebugError> {
        Ok(())
    }
    fn next_instruction_address(&self, _handle: &ProcessHandle, rip: u64) -> Result<u64, DebugError> {
        Ok(rip + 1)
    }
    fn read_return_address(&self, _handle: &ProcessHandle, _thread_id: u32) -> Result<u64, DebugError> {
        Ok(0x401008)
    }
    fn resolve_symbol(&self, name: &str) -> Result<Vec<u64>, DebugError> {
        if name == "main" { Ok(vec![0x401004]) } else { Ok(vec![]) }
    }
    fn walk_stack(&self, _handle: &ProcessHandle, _thread_id: u32) -> Result<Vec<StackFrame>, DebugError> {
        Ok(vec![])
    }
    fn walk_stack_with_context(&self, _rip: u64, _rbp: u64) -> Result<Vec<StackFrame>, DebugError> {
        Ok(vec![])
    }
    fn init_symbols(
        &self,
        _pid: u32,
        _exe_path: Option<&str>,
        _base_address: Option<u64>,
        _handle: Option<RawHandle>,
    ) -> Result<(), DebugError> {
        Ok(())
    }
}

fn outputs(events: &[EngineEvent]) -> Vec<String> {
    events
        .iter()
        .filter_map(|e| match e {
            EngineEvent::Output { message } => Some(message.clone()),
            EngineEvent::Error { message } => Some(format!("error: {message}")),
            _ => None,
        })
        .collect()
}

fn launched() -> DebugEngine<FakeProcess> {
    let mut engine = DebugEngine::new(FakeProcess::new());
    let out = engine.on_command(EngineCommand::Launch { path: "app.exe".to_string(), args: vec![] });
    assert!(matches!(out.events.last(), Some(EngineEvent::CommandComplete)));
    engine.on_event(EngineEvent::ProcessLaunched { pid: 4242, base_address: 0x400000 });
    engine.on_event(EngineEvent::ThreadCreated { id: 7, handle: 3 });
    engine
}

#[test]
fn commands_need_a_session() {
    let mut engine = DebugEngine::new(FakeProcess::new());
    let out = engine.on_command(EngineCommand::ListThreads);
    assert_eq!(outputs(&out.events), vec!["error: No active debug session".to_string()]);
    assert!(matches!(out.events.last(), Some(EngineEvent::CommandComplete)));
}

#[test]
fn failed_attach_is_reported() {
    let mut engine = DebugEngine::new(FakeProcess::new());
    let out = engine.on_command(EngineCommand::Attach { pid: 99 });
    assert_eq!(out.events.len(), 2);
    assert!(matches!(&out.events[0], EngineEvent::Error { .. }));
    assert!(matches!(&out.events[1], EngineEvent::CommandComplete));
    assert!(engine.session.is_none());
}

#[test]
fn launch_opens_a_session_and_threads_are_tracked() {
    let mut engine = launched();
    assert!(engine.session.is_some());
    let out = engine.on_command(EngineCommand::SelectThread { id: 7 });
    assert_eq!(outputs(&out.events), vec!["Thread 7 selecionada.".to_string()]);
    let out = engine.on_command(EngineCommand::SelectThread { id: 8 });
    assert_eq!(outputs(&out.events), vec!["error: Thread 8 não existe ou já foi encerrada.".to_string()]);
}

#[test]
fn breakpoints_patch_int3_and_restore_on_delete() {
    let mut engine = launched();
    let out = engine.on_command(EngineCommand::SetBreakpoint { address: Some(0x401004), symbol: None });
    assert_eq!(outputs(&out.events), vec!["Breakpoint 0 definido em 0x401004".to_string()]);
    assert_eq!(engine.backend.memory.borrow()[&0x401004], 0xCC);
    let out = engine.on_command(EngineCommand::DeleteBreakpoint { id: 0 });
    assert!(matches!(out.events.last(), Some(EngineEvent::CommandComplete)));
    assert_eq!(engine.backend.memory.borrow()[&0x401004], 0x90);
}

#[test]
fn breakpoint_by_symbol_resolves_first() {
    let mut engine = launched();
    let out = engine.on_command(EngineCommand::SetBreakpoint { address: None, symbol: Some("main".to_string()) });
    assert!(outputs(&out.events).contains(&"Breakpoint 0 definido em main (0x401004)".to_string()));
    assert_eq!(engine.backend.memory.borrow()[&0x401004], 0xCC);
}

#[test]
fn user_breakpoint_hit_rewinds_and_restores() {
    let mut engine = launched();
    engine.on_command(EngineCommand::SetBreakpoint { address: Some(0x401004), symbol: None });
    engine.backend.registers.borrow_mut().rip = 0x401005;
    let out = engine.on_event(EngineEvent::BreakpointHit { kind: BreakpointKind::Unknown, address: 0x401004, thread_id: 7 });
    assert!(out.events.iter().any(|e| matches!(e, EngineEvent::BreakpointHit { kind: BreakpointKind::UserDefined(0), .. })));
    assert_eq!(engine.backend.registers.borrow().rip, 0x401004);
    assert_eq!(engine.backend.memory.borrow()[&0x401004], 0x90);
    assert_eq!(engine.process_state, ProcessState::Paused);
}

#[test]
fn registers_are_read_while_paused_and_refused_while_running() {
    let mut engine = launched();
    let out = engine.on_command(EngineCommand::ReadRegisters { thread_id: Some(7) });
    assert!(matches!(&out.events[0], EngineEvent::Registers { ctx } if ctx.rax == 7));
    engine.on_command(EngineCommand::Continue);
    assert_eq!(engine.process_state, ProcessState::Running);
    let out = engine.on_command(EngineCommand::ReadRegisters { thread_id: Some(7) });
    assert_eq!(out.events.len(), 2);
    assert!(matches!(&out.events[0], EngineEvent::Error { .. }));
    assert!(matches!(&out.events[1], EngineEvent::CommandComplete));
}

#[test]
fn memory_is_read_and_written() {
    let mut engine = launched();
    let out = engine.on_command(EngineCommand::WriteMemory { address: 0x401000, bytes: vec![0x55, 0x48] });
    assert!(matches!(out.events.last(), Some(EngineEvent::CommandComplete)));
    assert_eq!(engine.backend.writes.borrow().last().unwrap(), &(0x401000, vec![0x55, 0x48]));
    let out = engine.on_command(EngineCommand::ReadMemory { address: 0x401000, size: 2, expression: None });
    assert!(out.events.iter().any(|e| matches!(e, EngineEvent::MemoryBytes { bytes, .. } if bytes == &vec![0x55, 0x48])));
}

#[test]
fn disassembly_settings_are_kept() {
    let mut engine = launched();
    let out = engine.on_command(EngineCommand::SetDisassemblyConfig { auto_show: Some(true), count: Some(4) });
    assert_eq!(outputs(&out.events), vec!["Disassembly config: count=4, auto_show=true".to_string()]);
    assert_eq!(engine.disasm_config.count, 4);
    assert!(engine.disasm_config.auto_show);
}

#[test]
fn system_breakpoint_is_left_alone() {
    let mut engine = launched();
    let writes_before = engine.backend.writes.borrow().len();
    let out = engine.on_event(EngineEvent::BreakpointHit {
        kind: BreakpointKind::SystemInitial,
        address: 0x7ff0_0000_1000,
        thread_id: 7,
    });
    assert_eq!(out.events.len(), 1);
    assert!(matches!(&out.events[0], EngineEvent::BreakpointHit { kind: BreakpointKind::SystemInitial, .. }));
    assert!(out.resume.is_none());
    assert_eq!(engine.backend.writes.borrow().len(), writes_before);
}

#[test]
fn single_step_after_a_hit_reinstalls_the_breakpoint() {
    let mut engine = launched();
    engine.on_command(EngineCommand::SetBreakpoint { address: Some(0x401004), symbol: None });
    engine.backend.registers.borrow_mut().rip = 0x401005;
    engine.on_event(EngineEvent::BreakpointHit { kind: BreakpointKind::Unknown, address: 0x401004, thread_id: 7 });
    assert_eq!(engine.backend.registers.borrow().rflags & 0x100, 0x100);
    let out = engine.on_event(EngineEvent::SingleStep { address: 0x401005, thread_id: 7 });
    assert_eq!(engine.backend.memory.borrow()[&0x401004], 0xCC);
    assert_eq!(engine.backend.registers.borrow().rflags & 0x100, 0);
    assert!(engine.stepping_over_breakpoint.is_none());
    assert!(out.events.iter().all(|e| matches!(e, EngineEvent::Error { .. })));
}

#[test]
fn disassembly_count_is_clamped() {
    assert_eq!(clamp_disasm_count(Some(0), 10), 1);
    assert_eq!(clamp_disasm_count(Some(500), 10), 100);
    assert_eq!(clamp_disasm_count(None, 10), 10);
}

#[test]
fn thread_exit_falls_back_to_the_lowest_live_thread() {
    let t = |id: u32, state: ThreadState| Thread { id, handle: RawHandle(0), state, context: None };
    let threads = vec![t(9, ThreadState::Exited { exit_code: 3 }), t(4, ThreadState::Running), t(6, ThreadState::Suspended)];
    assert_eq!(fallback_thread(&threads), Some(4));
    assert_eq!(fallback_thread(&threads[..1]), None);
    let others = vec![t(2, ThreadState::Exited { exit_code: 0 }), t(5, ThreadState::Running)];
    assert_eq!(fallback_thread(&others), Some(5));
}
