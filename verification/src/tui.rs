//! The terminal UI's state and decisions: panes and focus, the REPL pane's
//! input and history, the session mirror fed by engine events, the text of
//! the status and help bars, and what each key does.

use vstd::prelude::*;
use crate::breakpoint::Breakpoint;
use crate::disasm::DisassemblyLine;
use crate::numparse::{parse_unsigned, parse_unsigned_str};
use crate::text::{hex, lowered, pad_left, push_char, push_hex, split_words, str_eq, string_views, to_lowercase, words};
use crate::types::{EngineCommand, EngineEvent, RawHandle, RegisterContext, StackFrame, Thread, ThreadState};

verus! {

/// Types of panes in the TUI layout.
#[derive(Debug, Clone, Copy, PartialEq, Eq, Structural)]
pub enum PaneType {
    SourceAsm,
    Registers,
    Stack,
    Breakpoints,
    Repl,
}

/// Context passed to pane handlers.
pub struct PaneContext {
    pub focused: bool,
}

/// A key as a pane sees it.
#[derive(Debug, Clone, Copy, PartialEq, Eq, Structural)]
pub enum PaneKey {
    Char(char),
    Backspace,
    Other,
}

/// The REPL pane: the line being typed and the commands sent so far, with
/// a cursor for recalling them.
pub struct ReplPane {
    input_buffer: String,
    history: Vec<(String, String)>,
    history_cursor: Option<usize>,
    scroll_offset: usize,
}

/// The inputs of a history.
pub open spec fn inputs_of(h: Seq<(String, String)>) -> Seq<Seq<char>> {
    h.map_values(|e: (String, String)| e.0@)
}

/// The history entry recalled by going up from cursor `c` in a history of
/// `n` entries: the previous one, the oldest staying put, the newest when
/// not recalling.
pub open spec fn up_index(n: nat, c: Option<usize>) -> int {
    match c {
        Some(i) => if i > 0 {
            i - 1
        } else {
            i as int
        },
        None => n - 1,
    }
}

/// The history entry recalled by going down from cursor `c`: the next one,
/// or none past the newest.
pub open spec fn down_index(n: nat, c: Option<usize>) -> Option<int> {
    match c {
        Some(i) => if i + 1 < n {
            Some(i + 1)
        } else {
            None
        },
        None => None,
    }
}

/// Going down undoes going up, and going up undoes going down, away from
/// the ends of the history.
pub proof fn law_history_round_trip(n: nat, i: usize)
    ensures
        0 < i < n ==> down_index(n, Some((up_index(n, Some(i))) as usize)) == Some(i as int),
        i + 1 < n && i < usize::MAX ==> up_index(n, Some((down_index(n, Some(i))->0) as usize)) == i,
{
}

impl ReplPane {
    /// The line being typed.
    pub closed spec fn input(&self) -> Seq<char> {
        self.input_buffer@
    }

    /// The inputs sent so far, oldest first.
    pub closed spec fn history(&self) -> Seq<Seq<char>> {
        inputs_of(self.history@)
    }

    /// The commands sent so far with their output, oldest first.
    pub closed spec fn entries(&self) -> Seq<(Seq<char>, Seq<char>)> {
        self.history@.map_values(|e: (String, String)| (e.0@, e.1@))
    }

    /// The history entry being recalled, if any.
    pub closed spec fn cursor(&self) -> Option<usize> {
        self.history_cursor
    }

    /// The first history entry shown.
    pub closed spec fn scroll(&self) -> usize {
        self.scroll_offset
    }

    /// The cursor, when set, is on an entry.
    pub closed spec fn wf(&self) -> bool {
        self.history_cursor matches Some(i) ==> i < self.history@.len()
    }

    /// An empty pane.
    pub fn new() -> (r: Self)
        ensures
            r.wf(),
            r.input() == Seq::<char>::empty(),
            r.history() == Seq::<Seq<char>>::empty(),
            r.entries() == Seq::<(Seq<char>, Seq<char>)>::empty(),
            r.cursor() is None,
            r.scroll() == 0,
    {
        let r = ReplPane { input_buffer: String::new(), history: Vec::new(), history_cursor: None, scroll_offset: 0 };
        assert(r.history() =~= Seq::<Seq<char>>::empty());
        assert(r.entries() =~= Seq::<(Seq<char>, Seq<char>)>::empty());
        r
    }

    /// The line being typed.
    pub fn input_buffer(&self) -> (r: &str)
        ensures
            r@ == self.input(),
    {
        self.input_buffer.as_str()
    }

    /// Replaces the line being typed.
    pub fn set_input_buffer(&mut self, text: &str)
        requires
            old(self).wf(),
        ensures
            final(self).wf(),
            final(self).input() == text@,
            final(self).history() == old(self).history(),
            final(self).entries() == old(self).entries(),
            final(self).cursor() == old(self).cursor(),
            final(self).scroll() == old(self).scroll(),
    {
        self.input_buffer = text.to_owned();
    }

    /// Empties the line being typed and stops recalling.
    pub fn clear_input(&mut self)
        requires
            old(self).wf(),
        ensures
            final(self).wf(),
            final(self).input() == Seq::<char>::empty(),
            final(self).history() == old(self).history(),
            final(self).entries() == old(self).entries(),
            final(self).cursor() is None,
            final(self).scroll() == old(self).scroll(),
    {
        self.input_buffer = String::new();
        self.history_cursor = None;
    }

    /// The lines the pane shows (see `repl_pane`).
    pub fn render_lines(&self) -> (r: Vec<Vec<crate::pane_text::StyledSpan>>)
        ensures
            crate::pane_text::lines_view(r@) == crate::pane_text::repl_pane(self.entries(), self.scroll() as nat, self.input()),
    {
        let ghost es = self.entries();
        let n = self.history.len();
        let start = self.scroll_offset;
        let mut out: Vec<Vec<crate::pane_text::StyledSpan>> = Vec::new();
        let ghost shown = if start <= n {
            es.subrange(start as int, n as int)
        } else {
            Seq::empty()
        };
        if start <= n {
            let mut i: usize = start;
            assert(shown.subrange(0, 0) =~= Seq::<(Seq<char>, Seq<char>)>::empty());
            while i < n
                invariant
                    n == self.history@.len(),
                    es == self.entries(),
                    start <= i <= n,
                    shown == es.subrange(start as int, n as int),
                    crate::pane_text::lines_view(out@) == crate::pane_text::entry_lines(shown.subrange(0, i - start)),
                decreases n - i,
            {
                assert(es[i as int] == (self.history@[i as int].0@, self.history@[i as int].1@));
                crate::pane_text::entry_spans(&self.history[i].0, &self.history[i].1, &mut out);
                assert(shown.subrange(0, i + 1 - start).drop_last() =~= shown.subrange(0, i - start));
                i = i + 1;
            }
            assert(shown.subrange(0, n - start) =~= shown);
        } else {
            assert(shown =~= Seq::<(Seq<char>, Seq<char>)>::empty());
        }
        let ghost before = out@;
        let last = crate::pane_text::prompt_spans(self.input_buffer.as_str());
        out.push(last);
        assert(crate::pane_text::lines_view(out@) =~= crate::pane_text::lines_view(before).push(
            crate::pane_text::line_view(last@),
        ));
        out
    }

    /// Records a command and its output; the view scrolls to it.
    pub fn push_history(&mut self, input: String, output: String)
        requires
            old(self).wf(),
        ensures
            final(self).wf(),
            final(self).history() == old(self).history().push(input@),
            final(self).entries() == old(self).entries().push((input@, output@)),
            final(self).input() == old(self).input(),
            final(self).cursor() == old(self).cursor(),
            final(self).scroll() == old(self).history().len(),
    {
        let ghost before = self.history@;
        self.history.push((input, output));
        assert(inputs_of(self.history@) =~= inputs_of(before).push(self.history@.last().0@));
        assert(self.history@.map_values(|e: (String, String)| (e.0@, e.1@)) =~= before.map_values(
            |e: (String, String)| (e.0@, e.1@),
        ).push((self.history@.last().0@, self.history@.last().1@)));
        self.scroll_offset = self.history.len() - 1;
    }

    /// Recalls the previous command: the newest when not recalling, and
    /// never past the oldest.
    pub fn history_up(&mut self) -> (r: Option<String>)
        requires
            old(self).wf(),
        ensures
            final(self).wf(),
            final(self).history() == old(self).history(),
            final(self).entries() == old(self).entries(),
            final(self).input() == old(self).input(),
            final(self).scroll() == old(self).scroll(),
            old(self).history().len() == 0 ==> r is None && final(self).cursor() == old(self).cursor(),
            old(self).history().len() > 0 ==> {
                let idx = up_index(old(self).history().len(), old(self).cursor());
                &&& final(self).cursor() matches Some(c) && c as int == idx
                &&& r matches Some(s) && s@ == old(self).history()[idx]
            },
    {
        if self.history.len() == 0 {
            return None;
        }
        let idx = match self.history_cursor {
            Some(i) => if i > 0 {
                i - 1
            } else {
                i
            },
            None => self.history.len() - 1,
        };
        self.history_cursor = Some(idx);
        Some(self.history[idx].0.clone())
    }

    /// Recalls the next command; past the newest, stops recalling.
    pub fn history_down(&mut self) -> (r: Option<String>)
        requires
            old(self).wf(),
        ensures
            final(self).wf(),
            final(self).history() == old(self).history(),
            final(self).entries() == old(self).entries(),
            final(self).input() == old(self).input(),
            final(self).scroll() == old(self).scroll(),
            match down_index(old(self).history().len(), old(self).cursor()) {
                Some(j) => (final(self).cursor() matches Some(c) && c as int == j) && (r matches Some(s)
                    && s@ == old(self).history()[j]),
                None => final(self).cursor() is None && r is None,
            },
    {
        let idx = match self.history_cursor {
            Some(i) => {
                if i < self.history.len() - 1 {
                    i + 1
                } else {
                    self.history_cursor = None;
                    return None;
                }
            },
            None => {
                self.history_cursor = None;
                return None;
            },
        };
        self.history_cursor = Some(idx);
        Some(self.history[idx].0.clone())
    }

    /// A key typed into the pane: a character is appended, backspace
    /// removes the last one.
    pub fn handle_key(&mut self, key: PaneKey, ctx: &mut PaneContext)
        requires
            old(self).wf(),
        ensures
            final(self).wf(),
            final(self).history() == old(self).history(),
            final(self).entries() == old(self).entries(),
            final(self).cursor() == old(self).cursor(),
            final(self).scroll() == old(self).scroll(),
            final(self).input() == match key {
                PaneKey::Char(c) => old(self).input().push(c),
                PaneKey::Backspace => if old(self).input().len() > 0 {
                    old(self).input().drop_last()
                } else {
                    old(self).input()
                },
                PaneKey::Other => old(self).input(),
            },
    {
        match key {
            PaneKey::Char(c) => {
                push_char(&mut self.input_buffer, c);
            },
            PaneKey::Backspace => {
                let n = self.input_buffer.unicode_len();
                if n > 0 {
                    let kept = self.input_buffer.as_str().substring_char(0, n - 1).to_owned();
                    assert(kept@ =~= old(self).input().drop_last());
                    self.input_buffer = kept;
                }
            },
            PaneKey::Other => {},
        }
    }

    /// This pane's type.
    pub fn pane_type(&self) -> (r: PaneType)
        ensures
            r == PaneType::Repl,
    {
        PaneType::Repl
    }
}

/// The registers pane.
pub struct RegistersPane;

/// The source / disassembly pane.
pub struct SourceAsmPane;

/// The call stack pane.
pub struct StackPane;

/// The breakpoints pane.
pub struct BreakpointsPane;

impl RegistersPane {
    /// The pane.
    pub fn new() -> (r: Self) {
        RegistersPane
    }

    /// This pane's type.
    pub fn pane_type(&self) -> (r: PaneType)
        ensures
            r == PaneType::Registers,
    {
        PaneType::Registers
    }
}

impl SourceAsmPane {
    /// The pane.
    pub fn new() -> (r: Self) {
        SourceAsmPane
    }

    /// This pane's type.
    pub fn pane_type(&self) -> (r: PaneType)
        ensures
            r == PaneType::SourceAsm,
    {
        PaneType::SourceAsm
    }
}

impl StackPane {
    /// The pane.
    pub fn new() -> (r: Self) {
        StackPane
    }

    /// This pane's type.
    pub fn pane_type(&self) -> (r: PaneType)
        ensures
            r == PaneType::Stack,
    {
        PaneType::Stack
    }
}

impl BreakpointsPane {
    /// The pane.
    pub fn new() -> (r: Self) {
        BreakpointsPane
    }

    /// This pane's type.
    pub fn pane_type(&self) -> (r: PaneType)
        ensures
            r == PaneType::Breakpoints,
    {
        PaneType::Breakpoints
    }
}

/// The direction the two columns of the layout are split in.
#[derive(Debug, Clone, Copy, PartialEq, Eq, Structural)]
pub enum LayoutDirection {
    Horizontal,
    Vertical,
}

/// Describes how terminal area is divided among panes.
#[derive(Debug, Clone, Copy, PartialEq, Eq, Structural)]
pub struct LayoutConfig {
    pub direction: LayoutDirection,
    pub primary_ratio: u16,
}

impl Default for LayoutConfig {
    /// Side by side, the first column taking 65 percent.
    fn default() -> (r: Self)
        ensures
            r == (LayoutConfig { direction: LayoutDirection::Horizontal, primary_ratio: 65 }),
    {
        LayoutConfig { direction: LayoutDirection::Horizontal, primary_ratio: 65 }
    }
}

/// The order panes take focus in.
pub open spec fn focus_order() -> Seq<PaneType> {
    seq![PaneType::SourceAsm, PaneType::Registers, PaneType::Stack, PaneType::Breakpoints, PaneType::Repl]
}

impl LayoutConfig {
    /// The panes in the order they take focus.
    pub fn pane_order(&self) -> (r: Vec<PaneType>)
        ensures
            r@ == focus_order(),
    {
        let r = vec![
            PaneType::SourceAsm,
            PaneType::Registers,
            PaneType::Stack,
            PaneType::Breakpoints,
            PaneType::Repl,
        ];
        assert(r@ =~= focus_order());
        r
    }
}

/// Position of `p` in `order`, or its length.
pub open spec fn position_of(order: Seq<PaneType>, p: PaneType) -> int
    decreases order.len(),
{
    if order.len() == 0 {
        0
    } else if order[0] == p {
        0
    } else {
        1 + position_of(order.drop_first(), p)
    }
}

proof fn lemma_position(order: Seq<PaneType>, p: PaneType)
    ensures
        0 <= position_of(order, p) <= order.len(),
        position_of(order, p) < order.len() ==> order[position_of(order, p)] == p,
        forall|j: int| 0 <= j < position_of(order, p) ==> #[trigger] order[j] != p,
    decreases order.len(),
{
    if order.len() > 0 && order[0] != p {
        lemma_position(order.drop_first(), p);
        assert forall|j: int| 0 <= j < position_of(order, p) implies #[trigger] order[j] != p by {
            if j > 0 {
                assert(order.drop_first()[j - 1] == order[j]);
            }
        }
    }
}

/// The pane after `p` in `order`, wrapping around; `p` itself when it is
/// not in the order.
pub open spec fn next_in(order: Seq<PaneType>, p: PaneType) -> PaneType {
    let i = position_of(order, p);
    if i < order.len() {
        order[(i + 1) % (order.len() as int)]
    } else {
        p
    }
}

/// The pane before `p` in `order`, wrapping around; `p` itself when it is
/// not in the order.
pub open spec fn prev_in(order: Seq<PaneType>, p: PaneType) -> PaneType {
    let i = position_of(order, p);
    if i < order.len() {
        order[if i == 0 {
            order.len() - 1
        } else {
            i - 1
        }]
    } else {
        p
    }
}

fn position(order: &Vec<PaneType>, p: PaneType) -> (r: Option<usize>)
    ensures
        r matches Some(i) ==> i as int == position_of(order@, p) && i < order@.len(),
        r is None ==> position_of(order@, p) == order@.len(),
{
    proof {
        lemma_position(order@, p);
    }
    let mut i: usize = 0;
    while i < order.len()
        invariant
            i <= order@.len(),
            forall|j: int| 0 <= j < i ==> #[trigger] order@[j] != p,
        decreases order@.len() - i,
    {
        if order[i] == p {
            proof {
                lemma_position(order@, p);
                let k = position_of(order@, p);
                if k < i {
                    assert(order@[k] != p);
                }
            }
            return Some(i);
        }
        i = i + 1;
    }
    None
}

/// The pane after `current` in `order`.
pub fn next_pane(order: &Vec<PaneType>, current: PaneType) -> (r: PaneType)
    ensures
        r == next_in(order@, current),
{
    proof {
        lemma_position(order@, current);
    }
    match position(order, current) {
        Some(idx) => {
            let j = if idx < order.len() - 1 {
                idx + 1
            } else {
                0
            };
            proof {
                let n = order@.len() as int;
                if idx + 1 < n {
                    assert((idx + 1) % n == idx + 1) by (nonlinear_arith)
                        requires
                            0 <= idx + 1 < n,
                    ;
                } else {
                    assert(idx + 1 == n);
                    assert(n % n == 0) by (nonlinear_arith)
                        requires
                            n > 0,
                    ;
                }
            }
            assert(j == (idx + 1) % (order@.len() as int));
            order[j]
        },
        None => current,
    }
}

/// The pane before `current` in `order`.
pub fn prev_pane(order: &Vec<PaneType>, current: PaneType) -> (r: PaneType)
    ensures
        r == prev_in(order@, current),
{
    proof {
        lemma_position(order@, current);
    }
    match position(order, current) {
        Some(idx) => {
            let j = if idx == 0 {
                order.len() - 1
            } else {
                idx - 1
            };
            assert(position_of(order@, current) == idx);
            order[j]
        },
        None => current,
    }
}

/// In the focus order, moving focus back undoes moving it forward, and
/// the other way round: every pane is reached from its neighbours.
pub proof fn law_focus_inverse(p: PaneType)
    ensures
        prev_in(focus_order(), next_in(focus_order(), p)) == p,
        next_in(focus_order(), prev_in(focus_order(), p)) == p,
{
    reveal_with_fuel(position_of, 6);
    let o = focus_order();
    assert(o.drop_first().drop_first().drop_first().drop_first() =~= seq![PaneType::Repl]);
    assert(o.drop_first().drop_first().drop_first() =~= seq![PaneType::Breakpoints, PaneType::Repl]);
    assert(o.drop_first().drop_first() =~= seq![PaneType::Stack, PaneType::Breakpoints, PaneType::Repl]);
    assert(o.drop_first() =~= seq![PaneType::Registers, PaneType::Stack, PaneType::Breakpoints, PaneType::Repl]);
}

} // verus!

verus! {

/// The value of an address: hexadecimal after `0x` or `0X`, decimal
/// otherwise.
pub open spec fn address_value(s: Seq<char>) -> Option<u64> {
    let v = if s.len() >= 2 && s[0] == '0' && (s[1] == 'x' || s[1] == 'X') {
        parse_unsigned(s.subrange(2, s.len() as int), 16, u64::MAX as nat)
    } else {
        parse_unsigned(s, 10, u64::MAX as nat)
    };
    match v {
        Some(n) => Some(n as u64),
        None => None,
    }
}

/// Parses an address (see `address_value`).
pub fn parse_address(s: &str) -> (r: Option<u64>)
    ensures
        r == address_value(s@),
{
    let n = s.unicode_len();
    let v = if n >= 2 && s.get_char(0) == '0' && (s.get_char(1) == 'x' || s.get_char(1) == 'X') {
        parse_unsigned_str(s.substring_char(2, n), 16, u64::MAX)
    } else {
        parse_unsigned_str(s, 10, u64::MAX)
    };
    v
}

/// A decimal `usize`, as `str::parse` reads it.
pub open spec fn usize_value(s: Seq<char>) -> Option<usize> {
    match parse_unsigned(s, 10, usize::MAX as nat) {
        Some(n) => Some(n as usize),
        None => None,
    }
}

/// The `i`-th word, when there is one.
pub open spec fn word_at(ws: Seq<Seq<char>>, i: int) -> Option<Seq<char>> {
    if 0 <= i < ws.len() {
        Some(ws[i])
    } else {
        None
    }
}

/// What the TUI's command line sends for the words `ws`, whose first word
/// lowered is `w`. Unknown commands continue.
pub open spec fn tui_command(w: Seq<char>, ws: Seq<Seq<char>>) -> EngineCommand {
    let addr = |i: int|
        match word_at(ws, i) {
            Some(x) => address_value(x),
            None => None,
        };
    let size = |i: int|
        match word_at(ws, i) {
            Some(x) => usize_value(x),
            None => None,
        };
    if w == "c"@ || w == "continue"@ {
        EngineCommand::Continue
    } else if w == "s"@ || w == "step"@ || w == "stepinto"@ {
        EngineCommand::StepInto
    } else if w == "n"@ || w == "next"@ || w == "stepover"@ {
        EngineCommand::StepOver
    } else if w == "b"@ || w == "break"@ || w == "bp"@ {
        EngineCommand::SetBreakpoint { address: addr(1), symbol: None }
    } else if w == "d"@ || w == "delete"@ || w == "del"@ {
        EngineCommand::DeleteBreakpoint {
            id: match word_at(ws, 1) {
                Some(x) => match parse_unsigned(x, 10, u64::MAX as nat) {
                    Some(n) => n as u64,
                    None => 0,
                },
                None => 0,
            },
        }
    } else if w == "r"@ || w == "regs"@ || w == "registers"@ {
        EngineCommand::ReadRegisters { thread_id: None }
    } else if w == "bt"@ || w == "backtrace"@ {
        EngineCommand::Backtrace { thread_id: None }
    } else if w == "m"@ || w == "modules"@ {
        EngineCommand::ListModules
    } else if w == "t"@ || w == "threads"@ {
        EngineCommand::ListThreads
    } else if w == "x"@ || w == "read"@ || w == "read_mem"@ {
        EngineCommand::ReadMemory {
            address: match addr(1) {
                Some(a) => a,
                None => 0,
            },
            size: match size(2) {
                Some(n) => n,
                None => 64,
            },
            expression: None,
        }
    } else if w == "disas"@ || w == "disassemble"@ {
        EngineCommand::Disassemble { address: addr(1), symbol: None, thread_id: None, count: size(2) }
    } else if w == "q"@ || w == "quit"@ {
        EngineCommand::Quit
    } else {
        EngineCommand::Continue
    }
}

fn addr_at(parts: &Vec<String>, i: usize) -> (r: Option<u64>)
    ensures
        r == match word_at(string_views(parts@), i as int) {
            Some(x) => address_value(x),
            None => None,
        },
{
    if i < parts.len() {
        parse_address(parts[i].as_str())
    } else {
        None
    }
}

fn size_at(parts: &Vec<String>, i: usize) -> (r: Option<usize>)
    ensures
        r == match word_at(string_views(parts@), i as int) {
            Some(x) => usize_value(x),
            None => None,
        },
{
    if i < parts.len() {
        match parse_unsigned_str(parts[i].as_str(), 10, usize::MAX as u64) {
            Some(n) => Some(n as usize),
            None => None,
        }
    } else {
        None
    }
}

fn is_any(w: &str, a: &str, b: &str, c: &str) -> (r: bool)
    ensures
        r == (w@ == a@ || w@ == b@ || w@ == c@),
{
    str_eq(w, a) || str_eq(w, b) || str_eq(w, c)
}

/// The command for the words `parts` of a command line whose first word,
/// lowered, is `w` (see `tui_command`).
pub fn repl_command(w: &str, parts: &Vec<String>) -> (r: EngineCommand)
    ensures
        r == tui_command(w@, string_views(parts@)),
{
    let ghost ws = string_views(parts@);
    if is_any(w, "c", "continue", "c") {
        EngineCommand::Continue
    } else if is_any(w, "s", "step", "stepinto") {
        EngineCommand::StepInto
    } else if is_any(w, "n", "next", "stepover") {
        EngineCommand::StepOver
    } else if is_any(w, "b", "break", "bp") {
        EngineCommand::SetBreakpoint { address: addr_at(parts, 1), symbol: None }
    } else if is_any(w, "d", "delete", "del") {
        let id = if 1 < parts.len() {
            match parse_unsigned_str(parts[1].as_str(), 10, u64::MAX) {
                Some(n) => n,
                None => 0,
            }
        } else {
            0
        };
        EngineCommand::DeleteBreakpoint { id }
    } else if is_any(w, "r", "regs", "registers") {
        EngineCommand::ReadRegisters { thread_id: None }
    } else if is_any(w, "bt", "backtrace", "bt") {
        EngineCommand::Backtrace { thread_id: None }
    } else if is_any(w, "m", "modules", "m") {
        EngineCommand::ListModules
    } else if is_any(w, "t", "threads", "t") {
        EngineCommand::ListThreads
    } else if is_any(w, "x", "read", "read_mem") {
        let address = match addr_at(parts, 1) {
            Some(a) => a,
            None => 0,
        };
        let size = match size_at(parts, 2) {
            Some(n) => n,
            None => 64,
        };
        EngineCommand::ReadMemory { address, size, expression: None }
    } else if is_any(w, "disas", "disassemble", "disas") {
        EngineCommand::Disassemble {
            address: addr_at(parts, 1),
            symbol: None,
            thread_id: None,
            count: size_at(parts, 2),
        }
    } else if is_any(w, "q", "quit", "q") {
        EngineCommand::Quit
    } else {
        EngineCommand::Continue
    }
}

/// What the TUI's command line sends for `input`: `Continue` for an empty
/// line, otherwise `tui_command` of its lowered first word.
pub open spec fn tui_input_command(input: Seq<char>) -> EngineCommand {
    let ws = words(input);
    if ws.len() == 0 {
        EngineCommand::Continue
    } else {
        tui_command(lowered(ws[0]), ws)
    }
}

/// Parses a line typed into the TUI's REPL pane.
pub fn parse_repl_input(input: &str) -> (r: EngineCommand)
    ensures
        r == tui_input_command(input@),
{
    let parts = split_words(input);
    if parts.len() == 0 {
        return EngineCommand::Continue;
    }
    let w = to_lowercase(parts[0].as_str());
    assert(w@ == lowered(parts@[0]@));
    repl_command(w.as_str(), &parts)
}

} // verus!

verus! {

/// Run state of the debuggee as the TUI shows it.
#[derive(Debug, Clone, Copy, PartialEq, Eq, Structural)]
pub enum SessionState {
    Running,
    Paused,
    Exited,
}

/// Aggregated debug session state mirrored from engine events.
#[derive(Debug)]
pub struct SessionMirror {
    pub state: SessionState,
    pub selected_thread: Option<u32>,
    pub threads: Vec<Thread>,
    pub breakpoints: Vec<Breakpoint>,
    pub registers: Option<RegisterContext>,
    pub disassembly: Vec<DisassemblyLine>,
    pub stack_trace: Vec<StackFrame>,
    pub current_address: Option<u64>,
    pub repl_history: Vec<(String, String)>,
    pub status_message: Option<String>,
}

/// Position of the first thread with `id`, or the number of threads.
pub open spec fn thread_pos(ts: Seq<Thread>, id: u32) -> int
    decreases ts.len(),
{
    if ts.len() == 0 {
        0
    } else if ts[0].id == id {
        0
    } else {
        1 + thread_pos(ts.drop_first(), id)
    }
}

proof fn lemma_thread_pos(ts: Seq<Thread>, id: u32)
    ensures
        0 <= thread_pos(ts, id) <= ts.len(),
        thread_pos(ts, id) < ts.len() ==> ts[thread_pos(ts, id)].id == id,
        forall|j: int| 0 <= j < thread_pos(ts, id) ==> #[trigger] ts[j].id != id,
    decreases ts.len(),
{
    if ts.len() > 0 && ts[0].id != id {
        lemma_thread_pos(ts.drop_first(), id);
        assert forall|j: int| 0 <= j < thread_pos(ts, id) implies #[trigger] ts[j].id != id by {
            if j > 0 {
                assert(ts.drop_first()[j - 1] == ts[j]);
            }
        }
    }
}

/// `b` is, element by element, a clone of `a`.
pub open spec fn cloned_all<T: Clone>(a: Seq<T>, b: Seq<T>) -> bool {
    a.len() == b.len() && forall|i: int| 0 <= i < a.len() ==> cloned::<T>(#[trigger] a[i], b[i])
}

/// The threads after one was created: added as running, unless a thread
/// with its id is already known.
pub open spec fn mirror_created(ts: Seq<Thread>, id: u32, handle: usize) -> Seq<Thread> {
    if thread_pos(ts, id) < ts.len() {
        ts
    } else {
        ts.push(Thread { id, handle: RawHandle(handle), state: ThreadState::Running, context: None })
    }
}

/// The threads after one exited: the first with its id is marked exited
/// with code 0.
pub open spec fn mirror_exited(ts: Seq<Thread>, id: u32) -> Seq<Thread> {
    let i = thread_pos(ts, id);
    if i < ts.len() {
        ts.update(i, Thread { state: ThreadState::Exited { exit_code: 0 }, ..ts[i] })
    } else {
        ts
    }
}

/// Position of the first thread with `id`, or the number of threads.
fn find_thread(ts: &Vec<Thread>, id: u32) -> (r: usize)
    ensures
        r == thread_pos(ts@, id),
        r <= ts@.len(),
{
    proof {
        lemma_thread_pos(ts@, id);
    }
    let mut i: usize = 0;
    while i < ts.len()
        invariant
            i <= ts@.len(),
            forall|j: int| 0 <= j < i ==> #[trigger] ts@[j].id != id,
        decreases ts@.len() - i,
    {
        if ts[i].id == id {
            proof {
                lemma_thread_pos(ts@, id);
                let k = thread_pos(ts@, id);
                if k > i {
                    assert(ts@[i as int].id != id);
                }
                if k < i {
                    assert(ts@[k].id != id);
                }
            }
            return i;
        }
        i = i + 1;
    }
    proof {
        lemma_thread_pos(ts@, id);
        if thread_pos(ts@, id) < ts@.len() {
            assert(ts@[thread_pos(ts@, id)].id != id);
        }
    }
    i
}

/// What folding `event` into the mirror `pre` gives.
pub open spec fn mirror_update(pre: SessionMirror, post: SessionMirror, event: EngineEvent) -> bool {
    match event {
        EngineEvent::ProcessLaunched { .. } => post == SessionMirror { state: SessionState::Running, ..pre },
        EngineEvent::ProcessAttached { .. } => post == SessionMirror { state: SessionState::Running, ..pre },
        EngineEvent::BreakpointHit { address, .. } => post == SessionMirror {
            state: SessionState::Paused,
            current_address: Some(address),
            ..pre
        },
        EngineEvent::SingleStep { address, .. } => post == SessionMirror {
            state: SessionState::Paused,
            current_address: Some(address),
            ..pre
        },
        EngineEvent::ProcessExited { .. } => post == SessionMirror { state: SessionState::Exited, ..pre },
        EngineEvent::Exception { .. } => post == SessionMirror { state: SessionState::Paused, ..pre },
        EngineEvent::Registers { ctx } => post == SessionMirror { registers: Some(ctx), ..pre },
        EngineEvent::Disassembly { lines } => cloned_all(lines@, post.disassembly@) && post == SessionMirror {
            disassembly: post.disassembly,
            ..pre
        },
        EngineEvent::BreakpointList { list } => cloned_all(list@, post.breakpoints@) && post == SessionMirror {
            breakpoints: post.breakpoints,
            ..pre
        },
        EngineEvent::StackTrace { frames } => cloned_all(frames@, post.stack_trace@) && post == SessionMirror {
            stack_trace: post.stack_trace,
            ..pre
        },
        EngineEvent::ThreadCreated { id, handle } => post.threads@ =~= mirror_created(pre.threads@, id, handle)
            && post == SessionMirror { threads: post.threads, ..pre },
        EngineEvent::ThreadExited { id, .. } => post.threads@ =~= mirror_exited(pre.threads@, id) && post
            == SessionMirror { threads: post.threads, ..pre },
        _ => post == pre,
    }
}

impl SessionMirror {
    /// An empty mirror: running, nothing known.
    pub fn new() -> (r: Self)
        ensures
            r.state == SessionState::Running,
            r.selected_thread is None,
            r.threads@.len() == 0,
            r.breakpoints@.len() == 0,
            r.registers is None,
            r.disassembly@.len() == 0,
            r.stack_trace@.len() == 0,
            r.current_address is None,
            r.repl_history@.len() == 0,
            r.status_message is None,
    {
        SessionMirror {
            state: SessionState::Running,
            selected_thread: None,
            threads: Vec::new(),
            breakpoints: Vec::new(),
            registers: None,
            disassembly: Vec::new(),
            stack_trace: Vec::new(),
            current_address: None,
            repl_history: Vec::new(),
            status_message: None,
        }
    }

    /// Folds an engine event into the mirror.
    pub fn update(&mut self, event: &EngineEvent)
        ensures
            mirror_update(*old(self), *final(self), *event),
    {
        match event {
            EngineEvent::ProcessLaunched { .. } | EngineEvent::ProcessAttached { .. } => {
                self.state = SessionState::Running;
            },
            EngineEvent::BreakpointHit { address, .. } => {
                self.state = SessionState::Paused;
                self.current_address = Some(*address);
            },
            EngineEvent::SingleStep { address, .. } => {
                self.state = SessionState::Paused;
                self.current_address = Some(*address);
            },
            EngineEvent::ProcessExited { .. } => {
                self.state = SessionState::Exited;
            },
            EngineEvent::Exception { .. } => {
                self.state = SessionState::Paused;
            },
            EngineEvent::Registers { ctx } => {
                self.registers = Some(*ctx);
            },
            EngineEvent::Disassembly { lines } => {
                self.disassembly = lines.clone();
            },
            EngineEvent::BreakpointList { list } => {
                self.breakpoints = list.clone();
            },
            EngineEvent::StackTrace { frames } => {
                self.stack_trace = frames.clone();
            },
            EngineEvent::ThreadCreated { id, handle } => {
                let i = find_thread(&self.threads, *id);
                if i == self.threads.len() {
                    self.threads.push(
                        Thread { id: *id, handle: RawHandle(*handle), state: ThreadState::Running, context: None },
                    );
                }
            },
            EngineEvent::ThreadExited { id, .. } => {
                let i = find_thread(&self.threads, *id);
                if i < self.threads.len() {
                    let mut t = self.threads[i];
                    t.state = ThreadState::Exited { exit_code: 0 };
                    self.threads.set(i, t);
                }
            },
            _ => {},
        }
    }
}

} // verus!

verus! {

/// The help line's text for the focused pane.
pub open spec fn help_text(focused: PaneType) -> Seq<char> {
    if focused == PaneType::Repl {
        "Enter: send | ↑/↓: history | Tab: next pane | Ctrl+Q: quit"@
    } else {
        "Tab: next pane | Shift+Tab: prev | F5: continue | F9: breakpoint | F10: step over | F11: step into | Ctrl+Q: quit"@
    }
}

/// Help bar widget showing context-sensitive keybindings.
pub struct HelpBar;

impl HelpBar {
    /// The bar.
    pub fn new() -> (r: Self) {
        HelpBar
    }

    /// The keybindings shown while `focused` has the focus.
    pub fn text(&self, focused: PaneType) -> (r: &'static str)
        ensures
            r@ == help_text(focused),
    {
        if focused == PaneType::Repl {
            "Enter: send | ↑/↓: history | Tab: next pane | Ctrl+Q: quit"
        } else {
            "Tab: next pane | Shift+Tab: prev | F5: continue | F9: breakpoint | F10: step over | F11: step into | Ctrl+Q: quit"
        }
    }
}

/// The label of a run state.
pub open spec fn state_label(s: SessionState) -> Seq<char> {
    match s {
        SessionState::Running => "Running"@,
        SessionState::Paused => "Paused"@,
        SessionState::Exited => "Exited"@,
    }
}

/// The thread part of the status line.
pub open spec fn thread_label(t: Option<u32>) -> Seq<char> {
    match t {
        Some(id) => "Thread: "@ + crate::text::decimal(id as nat),
        None => "No thread"@,
    }
}

/// The instruction-pointer part of the status line.
pub open spec fn address_label(a: Option<u64>) -> Seq<char> {
    match a {
        Some(x) => "RIP: 0x"@ + pad_left(hex(x as nat, false), 16, '0'),
        None => "RIP: —"@,
    }
}

/// Status bar widget.
pub struct StatusBar;

impl StatusBar {
    /// The bar.
    pub fn new() -> (r: Self) {
        StatusBar
    }

    /// The label of the run state.
    pub fn state_text(&self, state: SessionState) -> (r: &'static str)
        ensures
            r@ == state_label(state),
    {
        match state {
            SessionState::Running => "Running",
            SessionState::Paused => "Paused",
            SessionState::Exited => "Exited",
        }
    }

    /// The selected thread, or that there is none.
    pub fn thread_text(&self, selected_thread: Option<u32>) -> (r: String)
        ensures
            r@ == thread_label(selected_thread),
    {
        match selected_thread {
            Some(t) => {
                let mut s = "Thread: ".to_owned();
                crate::text::push_decimal(&mut s, t as u64);
                s
            },
            None => "No thread".to_owned(),
        }
    }

    /// The current instruction pointer, or a dash.
    pub fn address_text(&self, current_address: Option<u64>) -> (r: String)
        ensures
            r@ == address_label(current_address),
    {
        match current_address {
            Some(a) => {
                let mut s = "RIP: 0x".to_owned();
                push_hex(&mut s, a, 16, false);
                s
            },
            None => "RIP: —".to_owned(),
        }
    }
}

/// A key as the TUI sees it.
#[derive(Debug, Clone, Copy, PartialEq, Eq, Structural)]
pub enum KeyInput {
    Char(char),
    Tab,
    BackTab,
    F(u8),
    Enter,
    Up,
    Down,
    Backspace,
    Other,
}

/// A key event: the key, whether Control was held, and whether it is a
/// press (releases and repeats are ignored).
#[derive(Debug, Clone, Copy, PartialEq, Eq, Structural)]
pub struct TuiKey {
    pub code: KeyInput,
    pub ctrl: bool,
    pub press: bool,
}

/// How a pane sees a key.
pub open spec fn pane_key(k: KeyInput) -> PaneKey {
    match k {
        KeyInput::Char(c) => PaneKey::Char(c),
        KeyInput::Backspace => PaneKey::Backspace,
        _ => PaneKey::Other,
    }
}

/// The TUI's state: layout and focus, the session mirror, the REPL pane,
/// and whether to quit.
pub struct TuiApp {
    pub layout: LayoutConfig,
    pub focused_pane: PaneType,
    pub session: SessionMirror,
    pub should_quit: bool,
    pub terminal_size: (u16, u16),
    pub repl: ReplPane,
}

impl TuiApp {
    /// The state's invariant.
    pub open spec fn wf(&self) -> bool {
        self.repl.wf()
    }

    /// A fresh TUI: focus on the source pane, nothing known yet.
    pub fn new() -> (r: Self)
        ensures
            r.wf(),
            r.focused_pane == PaneType::SourceAsm,
            !r.should_quit,
            r.layout == (LayoutConfig { direction: LayoutDirection::Horizontal, primary_ratio: 65 }),
            r.terminal_size == (0u16, 0u16),
            r.repl.history().len() == 0,
            r.repl.input().len() == 0,
            r.repl.entries().len() == 0,
            r.repl.cursor() is None,
            r.repl.scroll() == 0,
            r.session.state == SessionState::Running,
            r.session.selected_thread is None,
            r.session.threads@.len() == 0,
            r.session.breakpoints@.len() == 0,
            r.session.registers is None,
            r.session.disassembly@.len() == 0,
            r.session.stack_trace@.len() == 0,
            r.session.current_address is None,
            r.session.repl_history@.len() == 0,
            r.session.status_message is None,
    {
        TuiApp {
            layout: LayoutConfig::default(),
            focused_pane: PaneType::SourceAsm,
            session: SessionMirror::new(),
            should_quit: false,
            terminal_size: (0, 0),
            repl: ReplPane::new(),
        }
    }

    /// Moves the focus to the next pane.
    pub fn focus_next(&mut self)
        ensures
            final(self).focused_pane == next_in(focus_order(), old(self).focused_pane),
            *final(self) == (TuiApp { focused_pane: final(self).focused_pane, ..*old(self) }),
    {
        let panes = self.layout.pane_order();
        self.focused_pane = next_pane(&panes, self.focused_pane);
    }

    /// Moves the focus to the previous pane.
    pub fn focus_prev(&mut self)
        ensures
            final(self).focused_pane == prev_in(focus_order(), old(self).focused_pane),
            *final(self) == (TuiApp { focused_pane: final(self).focused_pane, ..*old(self) }),
    {
        let panes = self.layout.pane_order();
        self.focused_pane = prev_pane(&panes, self.focused_pane);
    }

    /// What a key does: global shortcuts first (Ctrl+Q quits, Tab and
    /// Shift+Tab move the focus, F5 continues, F9 sets a breakpoint at the
    /// current address, F10 and F11 step), then the REPL pane's keys when it
    /// has the focus (Enter sends the line, Up and Down recall history).
    /// Returns the command to send to the engine, if any.
    pub fn handle_key(&mut self, key: TuiKey) -> (cmd: Option<EngineCommand>)
        requires
            old(self).wf(),
        ensures
            final(self).wf(),
            !key.press ==> cmd is None && *final(self) == *old(self),
            key.press && key.code == KeyInput::Char('q') && key.ctrl ==> cmd == Some(EngineCommand::Quit)
                && *final(self) == (TuiApp { should_quit: true, ..*old(self) }),
            key.press && !(key.code == KeyInput::Char('q') && key.ctrl) ==> match key.code {
                KeyInput::Tab => cmd is None && final(self).focused_pane == next_in(
                    focus_order(),
                    old(self).focused_pane,
                ) && *final(self) == (TuiApp { focused_pane: final(self).focused_pane, ..*old(self) }),
                KeyInput::BackTab => cmd is None && final(self).focused_pane == prev_in(
                    focus_order(),
                    old(self).focused_pane,
                ) && *final(self) == (TuiApp { focused_pane: final(self).focused_pane, ..*old(self) }),
                KeyInput::F(5) => cmd == Some(EngineCommand::Continue) && *final(self) == *old(self),
                KeyInput::F(9) => *final(self) == *old(self) && cmd == match old(self).session.current_address {
                    Some(a) => Some(EngineCommand::SetBreakpoint { address: Some(a), symbol: None }),
                    None => None,
                },
                KeyInput::F(10) => cmd == Some(EngineCommand::StepOver) && *final(self) == *old(self),
                KeyInput::F(11) => cmd == Some(EngineCommand::StepInto) && *final(self) == *old(self),
                _ => if old(self).focused_pane != PaneType::Repl {
                    cmd is None && *final(self) == *old(self)
                } else {
                    let r0 = old(self).repl;
                    let r1 = final(self).repl;
                    &&& *final(self) == (TuiApp { repl: final(self).repl, ..*old(self) })
                    &&& r1.scroll() == (if key.code == KeyInput::Enter && r0.input().len() > 0 {
                        r0.history().len() as usize
                    } else {
                        r0.scroll()
                    })
                    &&& match key.code {
                        KeyInput::Enter => if r0.input().len() > 0 {
                            &&& cmd == Some(tui_input_command(r0.input()))
                            &&& r1.history() == r0.history().push(r0.input())
                            &&& r1.input().len() == 0
                            &&& r1.cursor() is None
                        } else {
                            cmd is None && r1.history() == r0.history() && r1.input() == r0.input()
                                && r1.cursor() == r0.cursor()
                        },
                        KeyInput::Up => cmd is None && r1.history() == r0.history() && if r0.history().len()
                            == 0 {
                            r1.input() == r0.input() && r1.cursor() == r0.cursor()
                        } else {
                            r1.cursor() matches Some(i) && r1.input() == r0.history()[i as int]
                        },
                        KeyInput::Down => cmd is None && r1.history() == r0.history() && match down_index(
                            r0.history().len(),
                            r0.cursor(),
                        ) {
                            Some(j) => (r1.cursor() matches Some(c) && c as int == j) && r1.input()
                                == r0.history()[j],
                            None => r1.cursor() is None && r1.input().len() == 0,
                        },
                        _ => cmd is None && r1.history() == r0.history() && r1.cursor() == r0.cursor()
                            && r1.input() == match pane_key(key.code) {
                            PaneKey::Char(c) => r0.input().push(c),
                            PaneKey::Backspace => if r0.input().len() > 0 {
                                r0.input().drop_last()
                            } else {
                                r0.input()
                            },
                            PaneKey::Other => r0.input(),
                        },
                    }
                },
            },
    {
        if !key.press {
            return None;
        }
        match key.code {
            KeyInput::Char('q') if key.ctrl => {
                self.should_quit = true;
                return Some(EngineCommand::Quit);
            },
            KeyInput::Tab => {
                self.focus_next();
                return None;
            },
            KeyInput::BackTab => {
                self.focus_prev();
                return None;
            },
            KeyInput::F(5) => {
                return Some(EngineCommand::Continue);
            },
            KeyInput::F(9) => {
                return match self.session.current_address {
                    Some(a) => Some(EngineCommand::SetBreakpoint { address: Some(a), symbol: None }),
                    None => None,
                };
            },
            KeyInput::F(10) => {
                return Some(EngineCommand::StepOver);
            },
            KeyInput::F(11) => {
                return Some(EngineCommand::StepInto);
            },
            _ => {},
        }
        if self.focused_pane != PaneType::Repl {
            return None;
        }
        match key.code {
            KeyInput::Enter => {
                let input = self.repl.input_buffer().to_owned();
                if input.unicode_len() > 0 {
                    let cmd = parse_repl_input(input.as_str());
                    self.repl.push_history(input, String::new());
                    self.repl.clear_input();
                    Some(cmd)
                } else {
                    None
                }
            },
            KeyInput::Up => {
                match self.repl.history_up() {
                    Some(prev) => self.repl.set_input_buffer(prev.as_str()),
                    None => {},
                }
                None
            },
            KeyInput::Down => {
                match self.repl.history_down() {
                    Some(next) => self.repl.set_input_buffer(next.as_str()),
                    None => self.repl.clear_input(),
                }
                None
            },
            other => {
                let k = match other {
                    KeyInput::Char(c) => PaneKey::Char(c),
                    KeyInput::Backspace => PaneKey::Backspace,
                    _ => PaneKey::Other,
                };
                let mut ctx = PaneContext { focused: true };
                self.repl.handle_key(k, &mut ctx);
                None
            },
        }
    }
}

} // verus!
