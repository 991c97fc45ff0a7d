//! What the terminal UI draws, as styled text: each pane's title, border
//! and lines, the status line and the help line. Drawing them on a terminal
//! is left to the caller.

use vstd::prelude::*;
use crate::breakpoint::{Breakpoint, BreakpointState};
use crate::disasm::{first_bytes, first_bytes_string, DisassemblyLine};
use crate::text::{decimal, hex, pad_left, pad_right, push_decimal, push_hex, push_padded_right};
use crate::tui::{address_label, help_text, state_label, thread_label, HelpBar, LayoutConfig, LayoutDirection, PaneType, SessionState, StatusBar};
use ratatui::layout::{Constraint, Layout, Rect};
use crate::types::{RegisterContext, StackFrame};

verus! {

/// The colour a span is drawn in; `Plain` keeps the terminal's own.
#[derive(Debug, Clone, Copy, PartialEq, Eq, Structural)]
pub enum SpanColor {
    Plain,
    Cyan,
    Green,
    Magenta,
    Yellow,
    Red,
    DarkGray,
}

/// A run of text in one colour.
pub struct StyledSpan {
    pub text: String,
    pub color: SpanColor,
}

/// A span as text and colour.
pub open spec fn span_view(s: StyledSpan) -> (Seq<char>, SpanColor) {
    (s.text@, s.color)
}

/// A line as texts and colours.
pub open spec fn line_view(l: Seq<StyledSpan>) -> Seq<(Seq<char>, SpanColor)> {
    l.map_values(|s: StyledSpan| span_view(s))
}

/// Lines as texts and colours.
pub open spec fn lines_view(ls: Seq<Vec<StyledSpan>>) -> Seq<Seq<(Seq<char>, SpanColor)>> {
    ls.map_values(|l: Vec<StyledSpan>| line_view(l@))
}

fn span(text: String, color: SpanColor) -> (r: StyledSpan)
    ensures
        span_view(r) == (text@, color),
{
    StyledSpan { text, color }
}

fn plain(text: &str) -> (r: StyledSpan)
    ensures
        span_view(r) == (text@, SpanColor::Plain),
{
    StyledSpan { text: String::from_str(text), color: SpanColor::Plain }
}

fn one_line(s: StyledSpan) -> (r: Vec<StyledSpan>)
    ensures
        line_view(r@) == seq![span_view(s)],
{
    let mut v: Vec<StyledSpan> = Vec::new();
    v.push(s);
    assert(line_view(v@) =~= seq![span_view(s)]);
    v
}

/// A pane's title.
pub open spec fn title_of(p: PaneType) -> Seq<char> {
    match p {
        PaneType::SourceAsm => " Source / ASM "@,
        PaneType::Registers => " Registers "@,
        PaneType::Stack => " Stack "@,
        PaneType::Breakpoints => " Breakpoints "@,
        PaneType::Repl => " REPL "@,
    }
}

/// The title drawn in a pane's border.
pub fn pane_title(p: PaneType) -> (r: &'static str)
    ensures
        r@ == title_of(p),
{
    match p {
        PaneType::SourceAsm => " Source / ASM ",
        PaneType::Registers => " Registers ",
        PaneType::Stack => " Stack ",
        PaneType::Breakpoints => " Breakpoints ",
        PaneType::Repl => " REPL ",
    }
}

/// The border colour: yellow for the focused pane.
pub fn border_color(focus: bool) -> (r: SpanColor)
    ensures
        r == (if focus {
            SpanColor::Yellow
        } else {
            SpanColor::Plain
        }),
{
    if focus {
        SpanColor::Yellow
    } else {
        SpanColor::Plain
    }
}

/// The terminal is too small to lay the panes out.
pub fn terminal_too_small(width: u16, height: u16) -> (r: bool)
    ensures
        r == (width < 80 || height < 24),
{
    width < 80 || height < 24
}

/// A register value: sixteen upper-case hex digits.
pub open spec fn reg_hex(v: u64) -> Seq<char> {
    pad_left(hex(v as nat, true), 16, '0')
}

/// A row of two registers: label, value, label, value.
pub open spec fn reg_row(l1: Seq<char>, v1: u64, c1: SpanColor, l2: Seq<char>, v2: u64, c2: SpanColor) -> Seq<(Seq<char>, SpanColor)> {
    seq![(l1, SpanColor::Plain), (reg_hex(v1), c1), ("  "@ + l2, SpanColor::Plain), (reg_hex(v2), c2)]
}

/// The registers pane's lines.
pub open spec fn register_pane(regs: Option<RegisterContext>) -> Seq<Seq<(Seq<char>, SpanColor)>> {
    match regs {
        None => seq![seq![("No register data available."@, SpanColor::Plain)]],
        Some(r) => seq![
            reg_row("RAX "@, r.rax, SpanColor::Cyan, "RBX "@, r.rbx, SpanColor::Cyan),
            reg_row("RCX "@, r.rcx, SpanColor::Cyan, "RDX "@, r.rdx, SpanColor::Cyan),
            reg_row("RSI "@, r.rsi, SpanColor::Cyan, "RDI "@, r.rdi, SpanColor::Cyan),
            reg_row("RBP "@, r.rbp, SpanColor::Cyan, "RSP "@, r.rsp, SpanColor::Cyan),
            reg_row("RIP "@, r.rip, SpanColor::Green, "RFL "@, r.rflags, SpanColor::Magenta),
            reg_row("R8  "@, r.r8, SpanColor::Cyan, "R9  "@, r.r9, SpanColor::Cyan),
            reg_row("R10 "@, r.r10, SpanColor::Cyan, "R11 "@, r.r11, SpanColor::Cyan),
            reg_row("R12 "@, r.r12, SpanColor::Cyan, "R13 "@, r.r13, SpanColor::Cyan),
            reg_row("R14 "@, r.r14, SpanColor::Cyan, "R15 "@, r.r15, SpanColor::Cyan),
        ],
    }
}

fn hex16(v: u64) -> (r: String)
    ensures
        r@ == reg_hex(v),
{
    let mut s = String::new();
    push_hex(&mut s, v, 16, true);
    s
}

fn register_row(l1: &str, v1: u64, c1: SpanColor, l2: &str, v2: u64, c2: SpanColor) -> (r: Vec<StyledSpan>)
    ensures
        line_view(r@) == reg_row(l1@, v1, c1, l2@, v2, c2),
{
    let mut second = String::from_str("  ");
    second.append(l2);
    proof {
        reveal_strlit("  ");
    }
    let mut v: Vec<StyledSpan> = Vec::new();
    v.push(plain(l1));
    v.push(span(hex16(v1), c1));
    v.push(span(second, SpanColor::Plain));
    v.push(span(hex16(v2), c2));
    assert(line_view(v@) =~= reg_row(l1@, v1, c1, l2@, v2, c2));
    v
}

/// The lines of the registers pane.
pub fn register_pane_lines(regs: Option<RegisterContext>) -> (r: Vec<Vec<StyledSpan>>)
    ensures
        lines_view(r@) == register_pane(regs),
{
    let mut out: Vec<Vec<StyledSpan>> = Vec::new();
    match regs {
        None => {
            out.push(one_line(plain("No register data available.")));
        },
        Some(r) => {
            out.push(register_row("RAX ", r.rax, SpanColor::Cyan, "RBX ", r.rbx, SpanColor::Cyan));
            out.push(register_row("RCX ", r.rcx, SpanColor::Cyan, "RDX ", r.rdx, SpanColor::Cyan));
            out.push(register_row("RSI ", r.rsi, SpanColor::Cyan, "RDI ", r.rdi, SpanColor::Cyan));
            out.push(register_row("RBP ", r.rbp, SpanColor::Cyan, "RSP ", r.rsp, SpanColor::Cyan));
            out.push(register_row("RIP ", r.rip, SpanColor::Green, "RFL ", r.rflags, SpanColor::Magenta));
            out.push(register_row("R8  ", r.r8, SpanColor::Cyan, "R9  ", r.r9, SpanColor::Cyan));
            out.push(register_row("R10 ", r.r10, SpanColor::Cyan, "R11 ", r.r11, SpanColor::Cyan));
            out.push(register_row("R12 ", r.r12, SpanColor::Cyan, "R13 ", r.r13, SpanColor::Cyan));
            out.push(register_row("R14 ", r.r14, SpanColor::Cyan, "R15 ", r.r15, SpanColor::Cyan));
        },
    }
    assert(lines_view(out@) =~= register_pane(regs));
    out
}

/// A disassembly line in the source pane: the current-line and breakpoint
/// markers, then address, up to eight bytes, mnemonic and operands, in
/// green on the current line, red on a breakpoint.
pub open spec fn asm_line(l: DisassemblyLine) -> Seq<(Seq<char>, SpanColor)> {
    let marker = (if l.is_current {
        "=> "@
    } else {
        "   "@
    }) + (if l.has_breakpoint {
        "b+ "@
    } else {
        "   "@
    });
    let color = if l.is_current {
        SpanColor::Green
    } else if l.has_breakpoint {
        SpanColor::Red
    } else {
        SpanColor::Plain
    };
    seq![
        (marker, SpanColor::Plain),
        (
            "0x"@ + pad_left(hex(l.address as nat, false), 16, '0') + ": "@ + pad_right(first_bytes(l.bytes@), 20, ' ')
                + " "@ + l.mnemonic@ + " "@ + l.operands@,
            color,
        ),
    ]
}

fn asm_spans(l: &DisassemblyLine) -> (r: Vec<StyledSpan>)
    ensures
        line_view(r@) == asm_line(*l),
{
    proof {
        reveal_strlit("=> ");
        reveal_strlit("   ");
        reveal_strlit("b+ ");
        reveal_strlit("0x");
        reveal_strlit(": ");
        reveal_strlit(" ");
    }
    let mut marker = String::from_str(if l.is_current {
        "=> "
    } else {
        "   "
    });
    marker.append(if l.has_breakpoint {
        "b+ "
    } else {
        "   "
    });
    let color = if l.is_current {
        SpanColor::Green
    } else if l.has_breakpoint {
        SpanColor::Red
    } else {
        SpanColor::Plain
    };
    let mut body = String::from_str("0x");
    push_hex(&mut body, l.address, 16, false);
    body.append(": ");
    let b = first_bytes_string(l.bytes.as_slice());
    push_padded_right(&mut body, b.as_str(), 20, ' ');
    body.append(" ");
    body.append(l.mnemonic.as_str());
    body.append(" ");
    body.append(l.operands.as_str());
    let mut v: Vec<StyledSpan> = Vec::new();
    v.push(span(marker, SpanColor::Plain));
    v.push(span(body, color));
    assert(line_view(v@) =~= asm_line(*l));
    v
}

/// The lines of the source / disassembly pane.
pub fn asm_pane_lines(lines: &[DisassemblyLine]) -> (r: Vec<Vec<StyledSpan>>)
    ensures
        lines_view(r@) == lines@.map_values(|l: DisassemblyLine| asm_line(l)),
{
    let mut out: Vec<Vec<StyledSpan>> = Vec::new();
    let mut i: usize = 0;
    while i < lines.len()
        invariant
            i <= lines@.len(),
            lines_view(out@) == lines@.subrange(0, i as int).map_values(|l: DisassemblyLine| asm_line(l)),
        decreases lines@.len() - i,
    {
        let ghost prev = out@;
        let x = asm_spans(&lines[i]);
        out.push(x);
        assert(out@ == prev.push(x));
        assert(lines_view(out@) =~= lines_view(prev).push(line_view(x@)));
        assert(lines@.subrange(0, i + 1) =~= lines@.subrange(0, i as int).push(lines@[i as int]));
        assert(lines_view(out@) =~= lines@.subrange(0, i + 1).map_values(|l: DisassemblyLine| asm_line(l)));
        i = i + 1;
    }
    assert(lines@.subrange(0, i as int) =~= lines@);
    out
}

/// The one-letter state of a breakpoint.
pub open spec fn state_letter(s: BreakpointState) -> Seq<char> {
    match s {
        BreakpointState::Enabled => "E"@,
        BreakpointState::Disabled => "D"@,
        BreakpointState::Pending => "P"@,
    }
}

/// A breakpoint in the breakpoints pane: id, state, address, hits.
pub open spec fn breakpoint_line(bp: Breakpoint) -> Seq<(Seq<char>, SpanColor)> {
    seq![
        (pad_right(decimal(bp.id as nat), 4, ' '), SpanColor::Cyan),
        (" "@, SpanColor::Plain),
        (state_letter(bp.state), SpanColor::Green),
        (" "@, SpanColor::Plain),
        ("0x"@ + pad_left(hex(bp.address as nat, false), 16, '0'), SpanColor::Plain),
        (" (hits: "@ + decimal(bp.hit_count as nat) + ")"@, SpanColor::Plain),
    ]
}

/// The breakpoints pane's lines.
pub open spec fn breakpoint_pane(bps: Seq<Breakpoint>) -> Seq<Seq<(Seq<char>, SpanColor)>> {
    if bps.len() == 0 {
        seq![seq![("No breakpoints set."@, SpanColor::Plain)]]
    } else {
        bps.map_values(|b: Breakpoint| breakpoint_line(b))
    }
}

fn breakpoint_spans(bp: &Breakpoint) -> (r: Vec<StyledSpan>)
    ensures
        line_view(r@) == breakpoint_line(*bp),
{
    proof {
        reveal_strlit("E");
        reveal_strlit("D");
        reveal_strlit("P");
        reveal_strlit("0x");
        reveal_strlit(" (hits: ");
        reveal_strlit(")");
    }
    let mut id = String::new();
    let mut digits = String::new();
    push_decimal(&mut digits, bp.id);
    push_padded_right(&mut id, digits.as_str(), 4, ' ');
    let letter = match bp.state {
        BreakpointState::Enabled => "E",
        BreakpointState::Disabled => "D",
        BreakpointState::Pending => "P",
    };
    let mut addr = String::from_str("0x");
    push_hex(&mut addr, bp.address, 16, false);
    let mut hits = String::from_str(" (hits: ");
    push_decimal(&mut hits, bp.hit_count);
    hits.append(")");
    let mut v: Vec<StyledSpan> = Vec::new();
    v.push(span(id, SpanColor::Cyan));
    v.push(plain(" "));
    v.push(span(String::from_str(letter), SpanColor::Green));
    v.push(plain(" "));
    v.push(span(addr, SpanColor::Plain));
    v.push(span(hits, SpanColor::Plain));
    assert(line_view(v@) =~= breakpoint_line(*bp));
    v
}

/// The lines of the breakpoints pane.
pub fn breakpoint_pane_lines(bps: &[Breakpoint]) -> (r: Vec<Vec<StyledSpan>>)
    ensures
        lines_view(r@) == breakpoint_pane(bps@),
{
    let mut out: Vec<Vec<StyledSpan>> = Vec::new();
    if bps.len() == 0 {
        out.push(one_line(plain("No breakpoints set.")));
        assert(lines_view(out@) =~= breakpoint_pane(bps@));
        return out;
    }
    let mut i: usize = 0;
    while i < bps.len()
        invariant
            i <= bps@.len(),
            lines_view(out@) == bps@.subrange(0, i as int).map_values(|b: Breakpoint| breakpoint_line(b)),
        decreases bps@.len() - i,
    {
        let ghost prev = out@;
        let x = breakpoint_spans(&bps[i]);
        out.push(x);
        assert(out@ == prev.push(x));
        assert(lines_view(out@) =~= lines_view(prev).push(line_view(x@)));
        assert(bps@.subrange(0, i + 1) =~= bps@.subrange(0, i as int).push(bps@[i as int]));
        assert(lines_view(out@) =~= bps@.subrange(0, i + 1).map_values(|b: Breakpoint| breakpoint_line(b)));
        i = i + 1;
    }
    assert(bps@.subrange(0, i as int) =~= bps@);
    out
}

/// A frame in the stack pane: its number, then its symbol's name or its
/// return address.
pub open spec fn stack_line(f: StackFrame) -> Seq<(Seq<char>, SpanColor)> {
    seq![
        ("#"@ + pad_right(decimal(f.frame_number as nat), 3, ' ') + " "@, SpanColor::Yellow),
        (
            match f.symbol {
                Some(s) => s.name@,
                None => "0x"@ + pad_left(hex(f.return_address as nat, false), 16, '0'),
            },
            SpanColor::Plain,
        ),
    ]
}

/// The stack pane's lines.
pub open spec fn stack_pane(frames: Seq<StackFrame>) -> Seq<Seq<(Seq<char>, SpanColor)>> {
    if frames.len() == 0 {
        seq![seq![("No stack trace available."@, SpanColor::Plain)]]
    } else {
        frames.map_values(|f: StackFrame| stack_line(f))
    }
}

fn stack_spans(f: &StackFrame) -> (r: Vec<StyledSpan>)
    ensures
        line_view(r@) == stack_line(*f),
{
    proof {
        reveal_strlit("#");
        reveal_strlit(" ");
        reveal_strlit("0x");
    }
    let mut num = String::from_str("#");
    let mut digits = String::new();
    push_decimal(&mut digits, f.frame_number as u64);
    push_padded_right(&mut num, digits.as_str(), 3, ' ');
    num.append(" ");
    let name = match &f.symbol {
        Some(s) => s.name.clone(),
        None => {
            let mut t = String::from_str("0x");
            push_hex(&mut t, f.return_address, 16, false);
            t
        },
    };
    let mut v: Vec<StyledSpan> = Vec::new();
    v.push(span(num, SpanColor::Yellow));
    v.push(span(name, SpanColor::Plain));
    assert(line_view(v@) =~= stack_line(*f));
    v
}

/// The lines of the stack pane.
pub fn stack_pane_lines(frames: &[StackFrame]) -> (r: Vec<Vec<StyledSpan>>)
    ensures
        lines_view(r@) == stack_pane(frames@),
{
    let mut out: Vec<Vec<StyledSpan>> = Vec::new();
    if frames.len() == 0 {
        out.push(one_line(plain("No stack trace available.")));
        assert(lines_view(out@) =~= stack_pane(frames@));
        return out;
    }
    let mut i: usize = 0;
    while i < frames.len()
        invariant
            i <= frames@.len(),
            lines_view(out@) == frames@.subrange(0, i as int).map_values(|f: StackFrame| stack_line(f)),
        decreases frames@.len() - i,
    {
        let ghost prev = out@;
        let x = stack_spans(&frames[i]);
        out.push(x);
        assert(out@ == prev.push(x));
        assert(lines_view(out@) =~= lines_view(prev).push(line_view(x@)));
        assert(frames@.subrange(0, i + 1) =~= frames@.subrange(0, i as int).push(frames@[i as int]));
        assert(lines_view(out@) =~= frames@.subrange(0, i + 1).map_values(|f: StackFrame| stack_line(f)));
        i = i + 1;
    }
    assert(frames@.subrange(0, i as int) =~= frames@);
    out
}

/// The colour of the run state in the status line.
pub open spec fn state_color(s: SessionState) -> SpanColor {
    match s {
        SessionState::Running => SpanColor::Green,
        SessionState::Paused => SpanColor::Yellow,
        SessionState::Exited => SpanColor::Red,
    }
}

/// The status line: the run state in brackets, the thread, the address.
pub open spec fn status_line(s: SessionState, thread: Option<u32>, address: Option<u64>) -> Seq<(Seq<char>, SpanColor)> {
    seq![
        ("["@, SpanColor::Plain),
        (state_label(s), state_color(s)),
        ("]  "@, SpanColor::Plain),
        (thread_label(thread), SpanColor::Plain),
        ("  "@, SpanColor::Plain),
        (address_label(address), SpanColor::Plain),
    ]
}

impl StatusBar {
    /// The status line's spans.
    pub fn line(&self, state: SessionState, selected_thread: Option<u32>, current_address: Option<u64>) -> (r: Vec<StyledSpan>)
        ensures
            line_view(r@) == status_line(state, selected_thread, current_address),
    {
        let color = match state {
            SessionState::Running => SpanColor::Green,
            SessionState::Paused => SpanColor::Yellow,
            SessionState::Exited => SpanColor::Red,
        };
        let mut v: Vec<StyledSpan> = Vec::new();
        v.push(plain("["));
        v.push(span(String::from_str(self.state_text(state)), color));
        v.push(plain("]  "));
        v.push(span(self.thread_text(selected_thread), SpanColor::Plain));
        v.push(plain("  "));
        v.push(span(self.address_text(current_address), SpanColor::Plain));
        assert(line_view(v@) =~= status_line(state, selected_thread, current_address));
        v
    }
}

/// The help line: a grey `Help: ` and the keybindings.
pub open spec fn help_line(focused: PaneType) -> Seq<(Seq<char>, SpanColor)> {
    seq![("Help: "@, SpanColor::DarkGray), (help_text(focused), SpanColor::Plain)]
}

impl HelpBar {
    /// The help line's spans.
    pub fn line(&self, focused: PaneType) -> (r: Vec<StyledSpan>)
        ensures
            line_view(r@) == help_line(focused),
    {
        let mut v: Vec<StyledSpan> = Vec::new();
        v.push(span(String::from_str("Help: "), SpanColor::DarkGray));
        v.push(plain(self.text(focused)));
        assert(line_view(v@) =~= help_line(focused));
        v
    }
}

/// The two lines of a history entry: the command after a green prompt,
/// then its output.
pub open spec fn entry_lines(es: Seq<(Seq<char>, Seq<char>)>) -> Seq<Seq<(Seq<char>, SpanColor)>>
    decreases es.len(),
{
    if es.len() == 0 {
        Seq::empty()
    } else {
        entry_lines(es.drop_last()) + seq![
            seq![("> "@, SpanColor::Green), (es.last().0, SpanColor::Plain)],
            seq![(es.last().1, SpanColor::Plain)],
        ]
    }
}

/// The REPL pane's lines: the history from the scroll position on, then
/// the line being typed with a cursor block.
pub open spec fn repl_pane(entries: Seq<(Seq<char>, Seq<char>)>, scroll: nat, input: Seq<char>) -> Seq<Seq<(Seq<char>, SpanColor)>> {
    let shown = if scroll <= entries.len() {
        entries.subrange(scroll as int, entries.len() as int)
    } else {
        Seq::empty()
    };
    entry_lines(shown).push(seq![("> "@, SpanColor::Green), (input, SpanColor::Plain), ("▌"@, SpanColor::Green)])
}

/// The two lines of one history entry.
pub(crate) fn entry_spans(input: &String, output: &String, out: &mut Vec<Vec<StyledSpan>>)
    ensures
        lines_view(final(out)@) == lines_view(old(out)@) + seq![
            seq![("> "@, SpanColor::Green), (input@, SpanColor::Plain)],
            seq![(output@, SpanColor::Plain)],
        ],
{
    let mut first: Vec<StyledSpan> = Vec::new();
    first.push(span(String::from_str("> "), SpanColor::Green));
    first.push(span(input.clone(), SpanColor::Plain));
    let second = one_line(span(output.clone(), SpanColor::Plain));
    let ghost before = out@;
    out.push(first);
    out.push(second);
    assert(lines_view(out@) =~= lines_view(before) + seq![line_view(first@), line_view(second@)]);
    assert(line_view(first@) =~= seq![("> "@, SpanColor::Green), (input@, SpanColor::Plain)]);
}

/// The prompt line with what is being typed.
pub(crate) fn prompt_spans(input: &str) -> (r: Vec<StyledSpan>)
    ensures
        line_view(r@) == seq![("> "@, SpanColor::Green), (input@, SpanColor::Plain), ("▌"@, SpanColor::Green)],
{
    let mut v: Vec<StyledSpan> = Vec::new();
    v.push(span(String::from_str("> "), SpanColor::Green));
    v.push(plain(input));
    v.push(span(String::from_str("▌"), SpanColor::Green));
    assert(line_view(v@) =~= seq![("> "@, SpanColor::Green), (input@, SpanColor::Plain), ("▌"@, SpanColor::Green)]);
    v
}

/// A rectangle of terminal cells: column, row, width, height.
pub type Cells = (u16, u16, u16, u16);

/// A length from `start` cut at the last cell, as `Rect::new` cuts the
/// width and height of a rectangle.
pub open spec fn clamp_len(start: u16, len: u16) -> u16 {
    if len > u16::MAX - start {
        (u16::MAX - start) as u16
    } else {
        len
    }
}

/// `r` spans `area` across the direction of a split: the same column and
/// width (cut at the last cell) in a vertical split, the same row and
/// height in a horizontal one.
pub open spec fn spans_across(r: Cells, area: Cells, vertical: bool) -> bool {
    if vertical {
        r.0 == area.0 && r.2 == clamp_len(area.0, area.2)
    } else {
        r.1 == area.1 && r.3 == clamp_len(area.1, area.3)
    }
}

/// Where `r` starts along a split: its row in a vertical one, its column
/// in a horizontal one.
pub open spec fn start_along(r: Cells, vertical: bool) -> int {
    if vertical {
        r.1 as int
    } else {
        r.0 as int
    }
}

/// Where `r` ends along a split: its start plus its height (vertical) or
/// width (horizontal).
pub open spec fn end_along(r: Cells, vertical: bool) -> int {
    if vertical {
        r.1 + r.3
    } else {
        r.0 + r.2
    }
}

/// The end of `area` along a split, its height or width cut at the last
/// cell.
pub open spec fn area_end(area: Cells, vertical: bool) -> int {
    if vertical {
        area.1 + clamp_len(area.1, area.3)
    } else {
        area.0 + clamp_len(area.0, area.2)
    }
}

/// The areas of a split of `area`: each spans the area across the split,
/// lies within it along the split, and each ends where the next begins or
/// before.
pub open spec fn laid_along(r: Seq<Cells>, area: Cells, vertical: bool) -> bool {
    &&& forall|i: int| 0 <= i < r.len() ==> spans_across(#[trigger] r[i], area, vertical)
    &&& forall|i: int|
        0 <= i < r.len() ==> start_along(area, vertical) <= start_along(#[trigger] r[i], vertical) && end_along(
            r[i],
            vertical,
        ) <= area_end(area, vertical)
    &&& forall|i: int| 0 <= i < r.len() - 1 ==> end_along(#[trigger] r[i], vertical) <= start_along(r[i + 1], vertical)
}

/// `a` lies above `b`: it ends at or before the row where `b` starts.
pub open spec fn above(a: Cells, b: Cells) -> bool {
    a.1 + a.3 <= b.1
}

/// `a` lies left of `b`: it ends at or before the column where `b` starts.
pub open spec fn left_of(a: Cells, b: Cells) -> bool {
    a.0 + a.2 <= b.0
}

/// `a` and `b` lie in one column: same first column, same width.
pub open spec fn same_column(a: Cells, b: Cells) -> bool {
    a.0 == b.0 && a.2 == b.2
}

/// `Layout::vertical(..).split` with one `Constraint::Percentage` per
/// entry. Where exactly each area lies is what the constraint solver picks,
/// and it walks hash maps seeded per process, so that is not claimed.
/// Claimed, from the constraints `Layout::split` always imposes (every
/// boundary inside the area, boundaries in order) and its rounding to
/// cells: one area per constraint, top to bottom, each inside the given
/// area with its column and width.
#[verifier::external_body]
fn split_percent_vertical(percents: &Vec<u16>, area: Cells) -> (r: Vec<Cells>)
    ensures
        r@.len() == percents@.len(),
        laid_along(r@, area, true),
{
    let layout = Layout::vertical(percents.iter().map(|p| Constraint::Percentage(*p)));
    let rects = layout.split(Rect::new(area.0, area.1, area.2, area.3));
    rects.iter().map(|r| (r.x, r.y, r.width, r.height)).collect()
}

/// `Layout::horizontal(..).split` with one `Constraint::Percentage` per
/// entry. As for the vertical split, the exact positions are not claimed;
/// claimed: one area per constraint, left to right, each inside the given
/// area with its row and height.
#[verifier::external_body]
fn split_percent_horizontal(percents: &Vec<u16>, area: Cells) -> (r: Vec<Cells>)
    ensures
        r@.len() == percents@.len(),
        laid_along(r@, area, false),
{
    let layout = Layout::horizontal(percents.iter().map(|p| Constraint::Percentage(*p)));
    let rects = layout.split(Rect::new(area.0, area.1, area.2, area.3));
    rects.iter().map(|r| (r.x, r.y, r.width, r.height)).collect()
}

/// `Layout::split`, vertical, with `Min(content_min)`, `Length(bar)`,
/// `Length(bar)`. The exact rows are the constraint solver's choice and are
/// not claimed; claimed: three areas, top to bottom, each inside the given
/// area with its column and width.
#[verifier::external_body]
fn split_bars(area: Cells, content_min: u16, bar: u16) -> (r: Vec<Cells>)
    ensures
        r@.len() == 3,
        laid_along(r@, area, true),
{
    let layout = Layout::vertical([Constraint::Min(content_min), Constraint::Length(bar), Constraint::Length(bar)]);
    let rects = layout.split(Rect::new(area.0, area.1, area.2, area.3));
    rects.iter().map(|r| (r.x, r.y, r.width, r.height)).collect()
}

/// The panes placed in the two columns' areas: the primary column holds
/// the source pane over the REPL, the other registers, stack and
/// breakpoints.
pub open spec fn pane_placement(left: Seq<Cells>, right: Seq<Cells>) -> Seq<(PaneType, Cells)> {
    seq![
        (PaneType::SourceAsm, left[0]),
        (PaneType::Registers, right[0]),
        (PaneType::Stack, right[1]),
        (PaneType::Breakpoints, right[2]),
        (PaneType::Repl, left[1]),
    ]
}

/// Places the panes in the areas the two columns were split into.
pub fn place_panes(left: &Vec<Cells>, right: &Vec<Cells>) -> (r: Vec<(PaneType, Cells)>)
    requires
        left@.len() == 2,
        right@.len() == 3,
    ensures
        r@ == pane_placement(left@, right@),
{
    let mut out: Vec<(PaneType, Cells)> = Vec::new();
    out.push((PaneType::SourceAsm, left[0]));
    out.push((PaneType::Registers, right[0]));
    out.push((PaneType::Stack, right[1]));
    out.push((PaneType::Breakpoints, right[2]));
    out.push((PaneType::Repl, left[1]));
    assert(out@ =~= pane_placement(left@, right@));
    out
}

impl LayoutConfig {
    /// Calculate pane areas for the given terminal area: the area is split
    /// along the layout's direction between the primary column
    /// (`primary_ratio` percent) and the other; the primary column between
    /// the source pane (70 percent) and the REPL, the other between
    /// registers, stack and breakpoints (33, 34, 33 percent). Where exactly
    /// the splits fall is the layout solver's; the primary column comes
    /// first (left of the other, or above it in a vertical layout), each
    /// column's panes share its column and come in order from the top, and
    /// a vertical layout gives every pane the area's column.
    pub fn calculate(&self, area: Cells) -> (r: Vec<(PaneType, Cells)>)
        requires
            self.primary_ratio <= 100,
        ensures
            r@.len() == 5,
            r@[0].0 == PaneType::SourceAsm,
            r@[1].0 == PaneType::Registers,
            r@[2].0 == PaneType::Stack,
            r@[3].0 == PaneType::Breakpoints,
            r@[4].0 == PaneType::Repl,
            same_column(r@[0].1, r@[4].1),
            same_column(r@[1].1, r@[2].1),
            same_column(r@[1].1, r@[3].1),
            self.direction == LayoutDirection::Vertical ==> forall|i: int|
                0 <= i < 5 ==> spans_across(#[trigger] r@[i].1, area, true),
            above(r@[0].1, r@[4].1),
            above(r@[1].1, r@[2].1),
            above(r@[2].1, r@[3].1),
            self.direction == LayoutDirection::Horizontal ==> left_of(r@[0].1, r@[1].1) && left_of(r@[4].1, r@[1].1),
            self.direction == LayoutDirection::Vertical ==> above(r@[4].1, r@[1].1),
    {
        let mut main_percents: Vec<u16> = Vec::new();
        main_percents.push(self.primary_ratio);
        main_percents.push(100 - self.primary_ratio);
        let main = match self.direction {
            LayoutDirection::Vertical => split_percent_vertical(&main_percents, area),
            LayoutDirection::Horizontal => split_percent_horizontal(&main_percents, area),
        };
        let mut left_percents: Vec<u16> = Vec::new();
        left_percents.push(70);
        left_percents.push(30);
        let left = split_percent_vertical(&left_percents, main[0]);
        let mut right_percents: Vec<u16> = Vec::new();
        right_percents.push(33);
        right_percents.push(34);
        right_percents.push(33);
        let right = split_percent_vertical(&right_percents, main[1]);
        let r = place_panes(&left, &right);
        proof {
            let vertical = self.direction == LayoutDirection::Vertical;
            assert(spans_across(left@[0], main@[0], true) && spans_across(left@[1], main@[0], true));
            assert(spans_across(right@[0], main@[1], true) && spans_across(right@[1], main@[1], true));
            assert(spans_across(right@[2], main@[1], true));
            assert(spans_across(main@[0], area, vertical) && spans_across(main@[1], area, vertical));
            assert(end_along(left@[0], true) <= start_along(left@[1], true));
            assert(end_along(right@[0], true) <= start_along(right@[1], true));
            assert(end_along(right@[1], true) <= start_along(right@[2], true));
            assert(end_along(main@[0], vertical) <= start_along(main@[1], vertical));
            assert(end_along(main@[0], vertical) <= area_end(area, vertical));
            assert(end_along(main@[1], vertical) <= area_end(area, vertical));
            assert(start_along(main@[1], true) <= start_along(right@[0], true));
            assert(end_along(left@[1], true) <= area_end(main@[0], true));
        }
        r
    }
}

/// The screen's three regions, top to bottom: the panes (at least three
/// rows), the status line and the help line, one row each. Where exactly
/// the rows fall is the layout solver's; the regions come in that order
/// from the top, each with the area's column and width.
pub fn screen_regions(area: Cells) -> (r: (Cells, Cells, Cells))
    ensures
        spans_across(r.0, area, true),
        spans_across(r.1, area, true),
        spans_across(r.2, area, true),
        above(r.0, r.1),
        above(r.1, r.2),
{
    let parts = split_bars(area, 3, 1);
    assert(spans_across(parts@[0], area, true) && spans_across(parts@[1], area, true));
    assert(spans_across(parts@[2], area, true));
    assert(end_along(parts@[0], true) <= start_along(parts@[1], true));
    assert(end_along(parts@[1], true) <= start_along(parts@[2], true));
    (parts[0], parts[1], parts[2])
}

} // verus!
