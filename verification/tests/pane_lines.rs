use rde::breakpoint::{Breakpoint, BreakpointState};
use rde::disasm::DisassemblyLine;
use rde::pane_text::{
    asm_pane_lines, border_color, breakpoint_pane_lines, pane_title, register_pane_lines, screen_regions,
    stack_pane_lines, terminal_too_small, SpanColor, StyledSpan,
};
use rde::tui::{HelpBar, LayoutConfig, PaneType, ReplPane, SessionMirror, SessionState, StatusBar};
use rde::types::{RegisterContext, StackFrame, SymbolInfo};

fn text(line: &[StyledSpan]) -> String {
    line.iter().map(|s| s.text.clone()).collect()
}

fn draw(lines: Vec<Vec<StyledSpan>>) {
    let backend = ratatui::backend::TestBackend::new(80, 24);
    let mut terminal = ratatui::Terminal::new(backend).unwrap();
    terminal
        .draw(|f| {
            let rendered: Vec<ratatui::text::Line> = lines
                .iter()
                .map(|l| {
                    ratatui::text::Line::from(
                        l.iter().map(|s| ratatui::text::Span::raw(s.text.clone())).collect::<Vec<_>>(),
                    )
                })
                .collect();
            f.render_widget(ratatui::widgets::Paragraph::new(rendered), f.area());
        })
        .unwrap();
}

#[test]
fn test_registers_pane_renders_without_panic() {
    let mut state = SessionMirror::new();
    state.registers = Some(RegisterContext { rax: 0x1234, rbx: 0x5678, ..Default::default() });
    draw(register_pane_lines(state.registers));
}

#[test]
fn test_source_asm_pane_renders_without_panic() {
    let mut state = SessionMirror::new();
    state.disassembly = vec![DisassemblyLine {
        address: 0x7ff6_0000_0000,
        bytes: vec![0x48, 0x89, 0x5c, 0x24, 0x08],
        mnemonic: "mov".to_string(),
        operands: "qword ptr [rsp+8], rbx".to_string(),
        is_current: true,
        has_breakpoint: false,
        original_bytes: None,
    }];
    draw(asm_pane_lines(&state.disassembly));
}

#[test]
fn test_layout_config_recalculates_for_sizes() {
    let layout = LayoutConfig::default();
    let areas_small = layout.calculate((0, 0, 80, 24));
    assert_eq!(areas_small.len(), 5);
    let areas_large = layout.calculate((0, 0, 120, 40));
    assert_eq!(areas_large.len(), 5);
}

#[test]
fn layout_places_panes_in_columns() {
    let layout = LayoutConfig::default();
    let areas = layout.calculate((0, 0, 100, 40));
    let order: Vec<PaneType> = areas.iter().map(|(p, _)| *p).collect();
    assert_eq!(
        order,
        vec![PaneType::SourceAsm, PaneType::Registers, PaneType::Stack, PaneType::Breakpoints, PaneType::Repl]
    );
    let (_, source) = areas[0];
    let (_, registers) = areas[1];
    let (_, repl) = areas[4];
    assert_eq!(source.0, 0);
    assert_eq!(source.2, 65);
    assert_eq!(registers.0, 65);
    assert_eq!(registers.2, 35);
    assert_eq!(repl.1, source.1 + source.3);
}

#[test]
fn screen_keeps_two_bar_rows() {
    let (content, status, help) = screen_regions((0, 0, 80, 24));
    assert_eq!(content, (0, 0, 80, 22));
    assert_eq!(status, (0, 22, 80, 1));
    assert_eq!(help, (0, 23, 80, 1));
}

#[test]
fn register_lines_show_hex_values() {
    let regs = RegisterContext { rax: 0x1234, rbx: 0x5678, rip: 0xabc, ..Default::default() };
    let lines = register_pane_lines(Some(regs));
    assert_eq!(lines.len(), 9);
    assert_eq!(text(&lines[0]), "RAX 0000000000001234  RBX 0000000000005678");
    assert_eq!(lines[0][1].color, SpanColor::Cyan);
    assert_eq!(text(&lines[4]), "RIP 0000000000000ABC  RFL 0000000000000000");
    assert_eq!(lines[4][1].color, SpanColor::Green);
    assert_eq!(lines[4][3].color, SpanColor::Magenta);
    let none = register_pane_lines(None);
    assert_eq!(text(&none[0]), "No register data available.");
}

#[test]
fn asm_lines_mark_current_and_breakpoint() {
    let line = DisassemblyLine {
        address: 0x1000,
        bytes: vec![0x90],
        mnemonic: "nop".to_string(),
        operands: String::new(),
        is_current: false,
        has_breakpoint: true,
        original_bytes: None,
    };
    let lines = asm_pane_lines(&[line]);
    assert_eq!(lines[0][0].text, "   b+ ");
    assert_eq!(lines[0][1].text, "0x0000000000001000: 90                   nop ");
    assert_eq!(lines[0][1].color, SpanColor::Red);
}

#[test]
fn breakpoint_lines_show_state_and_hits() {
    let bp = Breakpoint { id: 3, address: 0x401000, original_byte: 0x55, state: BreakpointState::Disabled, hit_count: 2 };
    let lines = breakpoint_pane_lines(&[bp]);
    assert_eq!(text(&lines[0]), "3    D 0x0000000000401000 (hits: 2)");
    let empty = breakpoint_pane_lines(&[]);
    assert_eq!(text(&empty[0]), "No breakpoints set.");
}

#[test]
fn stack_lines_prefer_symbol_names() {
    let frames = vec![
        StackFrame { frame_number: 0, return_address: 0x1000, frame_pointer: 0, stack_pointer: 0, symbol: None },
        StackFrame {
            frame_number: 1,
            return_address: 0x2000,
            frame_pointer: 0,
            stack_pointer: 0,
            symbol: Some(SymbolInfo {
                name: "main".to_string(),
                module: "app".to_string(),
                file: None,
                line: None,
                address: 0x2000,
            }),
        },
    ];
    let lines = stack_pane_lines(&frames);
    assert_eq!(text(&lines[0]), "#0   0x0000000000001000");
    assert_eq!(text(&lines[1]), "#1   main");
    assert_eq!(text(&stack_pane_lines(&[])[0]), "No stack trace available.");
}

#[test]
fn repl_pane_lines_show_history_and_prompt() {
    let mut pane = ReplPane::new();
    pane.push_history("continue".to_string(), "Running".to_string());
    pane.set_input_buffer("re");
    let lines = pane.render_lines();
    assert_eq!(lines.len(), 3);
    assert_eq!(text(&lines[0]), "> continue");
    assert_eq!(lines[0][0].color, SpanColor::Green);
    assert_eq!(text(&lines[1]), "Running");
    assert_eq!(text(&lines[2]), "> re▌");
}

#[test]
fn bars_and_titles() {
    let status = StatusBar::new().line(SessionState::Paused, Some(7), Some(0x10));
    assert_eq!(text(&status), "[Paused]  Thread: 7  RIP: 0x0000000000000010");
    assert_eq!(status[1].color, SpanColor::Yellow);
    let help = HelpBar::new().line(PaneType::Repl);
    assert_eq!(text(&help), "Help: Enter: send | ↑/↓: history | Tab: next pane | Ctrl+Q: quit");
    assert_eq!(pane_title(PaneType::SourceAsm), " Source / ASM ");
    assert_eq!(border_color(true), SpanColor::Yellow);
    assert!(terminal_too_small(79, 30));
    assert!(!terminal_too_small(80, 24));
}

#[test]
fn panes_and_regions_come_in_order() {
    let layout = LayoutConfig::default();
    let areas = layout.calculate((0, 0, 120, 40));
    let (_, source) = areas[0];
    let (_, registers) = areas[1];
    let (_, stack) = areas[2];
    let (_, breakpoints) = areas[3];
    let (_, repl) = areas[4];
    assert!(source.0 + source.2 <= registers.0);
    assert!(source.1 + source.3 <= repl.1);
    assert!(registers.1 + registers.3 <= stack.1);
    assert!(stack.1 + stack.3 <= breakpoints.1);
    let (content, status, help) = screen_regions((0, 0, 80, 24));
    assert!(content.1 + content.3 <= status.1);
    assert!(status.1 + status.3 <= help.1);
    assert!(help.1 + help.3 <= 24);
}
