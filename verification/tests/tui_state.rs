use rde::tui::{parse_address, parse_repl_input, KeyInput, PaneContext, PaneKey, PaneType, ReplPane, TuiApp, TuiKey};
use rde::types::EngineCommand;

#[test]
fn test_repl_pane_history_navigation() {
    let mut pane = ReplPane::new();
    pane.push_history("break 0x1000".to_string(), "OK".to_string());
    pane.push_history("continue".to_string(), "Running".to_string());

    assert_eq!(pane.history_up(), Some("continue".to_string()));
    assert_eq!(pane.history_up(), Some("break 0x1000".to_string()));
    assert_eq!(pane.history_down(), Some("continue".to_string()));
    assert_eq!(pane.history_down(), None);
}

#[test]
fn test_repl_pane_command_buffer() {
    let mut pane = ReplPane::new();
    let mut ctx = PaneContext { focused: true };
    pane.handle_key(PaneKey::Char('b'), &mut ctx);
    pane.handle_key(PaneKey::Char('r'), &mut ctx);
    assert_eq!(pane.input_buffer(), "br");
    pane.handle_key(PaneKey::Backspace, &mut ctx);
    assert_eq!(pane.input_buffer(), "b");
}

#[test]
fn tui_parses_commands() {
    assert!(matches!(parse_repl_input(""), EngineCommand::Continue));
    assert!(matches!(parse_repl_input("NEXT"), EngineCommand::StepOver));
    assert!(matches!(parse_repl_input("n"), EngineCommand::StepOver));
    assert!(matches!(parse_repl_input("step"), EngineCommand::StepInto));
    assert!(matches!(
        parse_repl_input("b 0x1000"),
        EngineCommand::SetBreakpoint { address: Some(0x1000), symbol: None }
    ));
    assert!(matches!(parse_repl_input("del"), EngineCommand::DeleteBreakpoint { id: 0 }));
    assert!(matches!(
        parse_repl_input("x 0X20 16"),
        EngineCommand::ReadMemory { address: 0x20, size: 16, expression: None }
    ));
    assert!(matches!(
        parse_repl_input("x"),
        EngineCommand::ReadMemory { address: 0, size: 64, expression: None }
    ));
    assert!(matches!(parse_repl_input("bogus"), EngineCommand::Continue));
    assert_eq!(parse_address("0x1f"), Some(31));
    assert_eq!(parse_address("31"), Some(31));
    assert_eq!(parse_address("0xzz"), None);
}

#[test]
fn tui_focus_cycles() {
    let mut app = TuiApp::new();
    let tab = TuiKey { code: KeyInput::Tab, ctrl: false, press: true };
    let back = TuiKey { code: KeyInput::BackTab, ctrl: false, press: true };
    assert!(app.handle_key(back).is_none());
    assert_eq!(app.focused_pane, PaneType::Repl);
    assert!(app.handle_key(tab).is_none());
    assert_eq!(app.focused_pane, PaneType::SourceAsm);
    for _ in 0..4 {
        app.handle_key(tab);
    }
    assert_eq!(app.focused_pane, PaneType::Repl);
}

#[test]
fn tui_repl_enter_sends_command() {
    let mut app = TuiApp::new();
    app.focused_pane = PaneType::Repl;
    for c in "regs".chars() {
        app.handle_key(TuiKey { code: KeyInput::Char(c), ctrl: false, press: true });
    }
    let cmd = app.handle_key(TuiKey { code: KeyInput::Enter, ctrl: false, press: true });
    assert!(matches!(cmd, Some(EngineCommand::ReadRegisters { thread_id: None })));
    assert_eq!(app.repl.input_buffer(), "");
    let quit = app.handle_key(TuiKey { code: KeyInput::Char('q'), ctrl: true, press: true });
    assert!(matches!(quit, Some(EngineCommand::Quit)));
    assert!(app.should_quit);
}

#[test]
fn function_keys_step_over_and_into() {
    let mut app = TuiApp::new();
    let over = app.handle_key(TuiKey { code: KeyInput::F(10), ctrl: false, press: true });
    assert!(matches!(over, Some(EngineCommand::StepOver)));
    let into = app.handle_key(TuiKey { code: KeyInput::F(11), ctrl: false, press: true });
    assert!(matches!(into, Some(EngineCommand::StepInto)));
}
