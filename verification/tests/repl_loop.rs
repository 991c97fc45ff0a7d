use rde::console::{ReplMode, ReplSession};
use rde::types::{BreakpointKind, EngineCommand, EngineEvent};

#[test]
fn blank_line_only_prompts() {
    let mut s = ReplSession::new();
    let r = s.on_input("   \n");
    assert!(r.lines.is_empty());
    assert!(r.prompt);
    assert!(r.command.is_none());
}

#[test]
fn local_settings_are_answered_without_the_engine() {
    let mut s = ReplSession::new();
    let r = s.on_input("set pretty-print off");
    assert_eq!(r.lines, vec!["pretty-print = off".to_string()]);
    assert!(!s.config.pretty_print);
    let r = s.on_input("set pretty-print maybe");
    assert_eq!(r.lines, vec!["usage: set pretty-print on|off".to_string()]);
    let r = s.on_input(" set print-limit 7 ");
    assert_eq!(r.lines, vec!["print-limit = 7".to_string()]);
    assert_eq!(s.config.print_limit, 7);
    let r = s.on_input("set print-depth many");
    assert_eq!(r.lines, vec!["usage: set print-depth <number>".to_string()]);
    assert_eq!(s.config.print_depth, 5);
    assert!(r.command.is_none() && r.prompt);
}

#[test]
fn parse_errors_are_reported() {
    let mut s = ReplSession::new();
    let r = s.on_input("frobnicate");
    assert_eq!(r.lines, vec!["Erro: comando desconhecido: frobnicate".to_string()]);
    assert!(r.prompt);
}

#[test]
fn execution_commands_wait_without_prompt() {
    let mut s = ReplSession::new();
    let r = s.on_input("continue");
    assert!(matches!(r.command, Some(EngineCommand::Continue)));
    assert!(!r.prompt);
    assert_eq!(s.mode, ReplMode::Waiting { for_execution: true, prompt_after: false });
    let r = s.on_event(EngineEvent::CommandComplete);
    assert!(!r.prompt);
    assert_eq!(s.mode, ReplMode::Ready);
    let r = s.on_event(EngineEvent::BreakpointHit { kind: BreakpointKind::UserDefined(1), address: 0x401000, thread_id: 7 });
    assert_eq!(r.lines, vec!["[Breakpoint 1] Hit em 0x401000 — Thread 7".to_string()]);
    assert!(r.prompt);
}

#[test]
fn info_commands_prompt_after_completion() {
    let mut s = ReplSession::new();
    let r = s.on_input("regs");
    assert!(r.command.is_some());
    assert!(!r.prompt);
    assert!(s.is_waiting());
    let r = s.on_event(EngineEvent::Output { message: "RAX=0".to_string() });
    assert_eq!(r.lines, vec!["RAX=0".to_string()]);
    assert!(!r.prompt);
    let r = s.on_event(EngineEvent::CommandComplete);
    assert!(r.prompt);
    assert!(!s.is_waiting());
}

#[test]
fn launch_records_the_process_and_tasks_are_listed_locally() {
    let mut s = ReplSession::new();
    let r = s.on_event(EngineEvent::ProcessAttached { pid: 42 });
    assert_eq!(r.lines, vec!["Anexado ao processo: PID 42".to_string()]);
    assert!(!r.prompt);
    assert_eq!(s.current_pid, Some(42));
    let r = s.on_parsed(Ok(EngineCommand::ListTasks));
    assert!(r.command.is_none());
    assert!(r.prompt);
    assert!(r.lines[0].contains("No Tokio runtime detected"));
}

#[test]
fn auto_disassembly_asks_before_prompting() {
    let mut s = ReplSession::new();
    s.config.auto_disassemble = true;
    s.config.disassembly_count = 4;
    let r = s.on_event(EngineEvent::SingleStep { address: 0x1000, thread_id: 3 });
    assert!(!r.prompt);
    match r.command {
        Some(EngineCommand::Disassemble { address: None, symbol: None, thread_id: Some(3), count: Some(4) }) => {}
        _ => panic!("expected a disassembly request"),
    }
    let r = s.on_event(EngineEvent::CommandComplete);
    assert!(r.prompt);
}

#[test]
fn quit_stops_the_loop() {
    let mut s = ReplSession::new();
    let r = s.on_input("quit");
    assert!(r.quit);
    assert!(matches!(r.command, Some(EngineCommand::Quit)));
}

#[test]
fn closed_event_stream_ends_a_wait() {
    let mut s = ReplSession::new();
    s.on_input("regs");
    let r = s.on_events_closed();
    assert!(r.prompt);
    assert_eq!(s.mode, ReplMode::Ready);
}
