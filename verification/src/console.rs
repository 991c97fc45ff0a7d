//! The decisions of the interactive read-eval-print loop: what to print,
//! what to send to the engine, when the prompt comes back. The loop itself,
//! which reads standard input and the engine's events, drives a
//! `ReplSession` with what it receives and carries out each `ReplReaction`.

use vstd::prelude::*;
use crate::numparse::{parse_unsigned, parse_unsigned_str};
use crate::repl::{
    event_line, event_text, event_text_ok, format_task_list, is_execution, is_execution_command,
    is_pausing, is_pausing_event, on_off, parse, parse_result, task_list_text, thread_id_of,
    ReplConfig,
};
use crate::tasks::{list_tokio_tasks, no_runtime_tasks};
use crate::text::{decimal, push_decimal, starts_with, str_eq, trim, trim_str, words};
use crate::types::{debug_error_text, AsyncTask, EngineCommand, EngineEvent};

verus! {

/// What the loop listens to next.
#[derive(Debug, Clone, Copy, PartialEq, Eq, Structural)]
pub enum ReplMode {
    /// User input and engine events alike.
    Ready,
    /// Only engine events, until the engine reports the command complete.
    /// After an execution command a pausing event brings the prompt back at
    /// once; otherwise the prompt follows completion when `prompt_after`.
    Waiting { for_execution: bool, prompt_after: bool },
}

/// The state of the loop: its settings, the process it debugs, and what
/// it listens to.
pub struct ReplSession {
    pub config: ReplConfig,
    pub current_pid: Option<u32>,
    pub mode: ReplMode,
}

/// What the loop does in answer to one input line or one event, in this
/// order: print the lines, send the command, print the prompt, stop.
pub struct ReplReaction {
    pub lines: Vec<String>,
    pub command: Option<EngineCommand>,
    pub prompt: bool,
    pub quit: bool,
}

/// `s` after the prefix `p`, when `s` starts with it.
pub open spec fn after_prefix(s: Seq<char>, p: Seq<char>) -> Option<Seq<char>> {
    if p.len() <= s.len() && s.subrange(0, p.len() as int) == p {
        Some(s.subrange(p.len() as int, s.len() as int))
    } else {
        None
    }
}

/// The views of some strings.
pub open spec fn views(v: Seq<String>) -> Seq<Seq<char>> {
    v.map_values(|s: String| s@)
}

/// The reaction prints `lines` and nothing else happens.
pub open spec fn prints(r: ReplReaction, lines: Seq<Seq<char>>, prompt: bool) -> bool {
    &&& views(r.lines@) == lines
    &&& r.command is None
    &&& r.prompt == prompt
    &&& !r.quit
}

/// The state is unchanged but for the settings.
pub open spec fn with_config(before: ReplSession, after: ReplSession, c: ReplConfig) -> bool {
    after.config == c && after.current_pid == before.current_pid && after.mode == before.mode
}

/// The value a `set print-limit` / `set print-depth` argument gives.
pub open spec fn setting_value(arg: Seq<char>) -> Option<nat> {
    parse_unsigned(trim(arg), 10, u32::MAX as nat)
}

/// The answer to a `set <name> <number>` line: the new value, or the usage
/// line when the argument is no `u32`.
pub open spec fn numeric_setting(name: Seq<char>, arg: Seq<char>) -> Seq<char> {
    match setting_value(arg) {
        Some(v) => name + " = "@ + decimal(v),
        None => "usage: set "@ + name + " <number>"@,
    }
}

/// What the loop does with a parsed command line.
pub open spec fn command_outcome(
    before: ReplSession,
    parsed: Result<EngineCommand, String>,
    after: ReplSession,
    r: ReplReaction,
) -> bool {
    match parsed {
        Err(e) => prints(r, seq!["Erro: "@ + e@], true) && after == before,
        Ok(cmd) => match cmd {
            EngineCommand::Quit => {
                &&& r.lines@.len() == 0
                &&& r.command == Some(EngineCommand::Quit)
                &&& !r.prompt
                &&& r.quit
                &&& after == before
            },
            EngineCommand::ListTasks => match before.current_pid {
                Some(pid) => after == before && r.lines@.len() == 1 && r.command is None && r.prompt
                    && !r.quit && exists|tasks: Seq<AsyncTask>|
                    no_runtime_tasks(tasks) && #[trigger] task_list_text(tasks) == r.lines@[0]@,
                None => waits_for(before, after, r, EngineCommand::ListTasks, false, true, seq![]),
            },
            EngineCommand::SetDisassemblyConfig { auto_show, count } => {
                let c1 = match auto_show {
                    Some(a) => ReplConfig { auto_disassemble: a, ..before.config },
                    None => before.config,
                };
                let c2 = match count {
                    Some(n) => ReplConfig { disassembly_count: n, ..c1 },
                    None => c1,
                };
                let l1: Seq<Seq<char>> = match auto_show {
                    Some(a) => seq!["auto-disassemble = "@ + on_off(a)],
                    None => seq![],
                };
                let l2: Seq<Seq<char>> = match count {
                    Some(n) => seq!["disassembly-count = "@ + decimal(n as nat)],
                    None => seq![],
                };
                waits_for(
                    ReplSession { config: c2, ..before },
                    after,
                    r,
                    EngineCommand::SetDisassemblyConfig { auto_show, count },
                    false,
                    true,
                    l1 + l2,
                )
            },
            _ => if is_execution(cmd) {
                waits_for(before, after, r, cmd, true, false, seq![])
            } else {
                waits_for(before, after, r, cmd, false, true, seq![])
            },
        },
    }
}

/// The reaction prints `lines`, sends `cmd` and waits for its completion.
pub open spec fn waits_for(
    before: ReplSession,
    after: ReplSession,
    r: ReplReaction,
    cmd: EngineCommand,
    for_execution: bool,
    prompt_after: bool,
    lines: Seq<Seq<char>>,
) -> bool {
    &&& views(r.lines@) == lines
    &&& r.command == Some(cmd)
    &&& !r.prompt
    &&& !r.quit
    &&& after.config == before.config
    &&& after.current_pid == before.current_pid
    &&& after.mode == ReplMode::Waiting { for_execution, prompt_after }
}

/// What the loop does with a line of input.
pub open spec fn input_outcome(before: ReplSession, line: Seq<char>, after: ReplSession, r: ReplReaction) -> bool {
    let t = trim(line);
    let c = before.config;
    if t.len() == 0 {
        prints(r, seq![], true) && after == before
    } else if let Some(rest) = after_prefix(t, "set pretty-print "@) {
        let arg = trim(rest);
        if arg == "on"@ || arg == "off"@ {
            let on = arg == "on"@;
            prints(r, seq!["pretty-print = "@ + on_off(on)], true) && with_config(
                before,
                after,
                ReplConfig { pretty_print: on, ..c },
            )
        } else {
            prints(r, seq!["usage: set pretty-print on|off"@], true) && after == before
        }
    } else if let Some(rest) = after_prefix(t, "set print-limit "@) {
        prints(r, seq![numeric_setting("print-limit"@, rest)], true) && with_config(
            before,
            after,
            match setting_value(rest) {
                Some(v) => ReplConfig { print_limit: v as u32, ..c },
                None => c,
            },
        )
    } else if let Some(rest) = after_prefix(t, "set print-depth "@) {
        prints(r, seq![numeric_setting("print-depth"@, rest)], true) && with_config(
            before,
            after,
            match setting_value(rest) {
                Some(v) => ReplConfig { print_depth: v as u32, ..c },
                None => c,
            },
        )
    } else {
        exists|parsed: Result<EngineCommand, String>|
            #[trigger] parse_result(words(t), parsed) && command_outcome(before, parsed, after, r)
    }
}

/// The lines printed for an event: the line the REPL shows for it, if any.
pub open spec fn event_lines(event: EngineEvent, config: ReplConfig, lines: Seq<String>) -> bool {
    ||| lines.len() == 0 && event_text(event, config, None)
    ||| lines.len() == 1 && event_text(event, config, Some(lines[0]))
}

/// The process an event names as the one now debugged.
pub open spec fn pid_after(event: EngineEvent, pid: Option<u32>) -> Option<u32> {
    match event {
        EngineEvent::ProcessLaunched { pid: p, .. } => Some(p),
        EngineEvent::ProcessAttached { pid: p } => Some(p),
        _ => pid,
    }
}

/// The thread a stop event names.
pub open spec fn stop_thread(event: EngineEvent) -> Option<u32> {
    match event {
        EngineEvent::BreakpointHit { thread_id, .. } => Some(thread_id),
        EngineEvent::SingleStep { thread_id, .. } => Some(thread_id),
        EngineEvent::StepCompleted { thread_id, .. } => Some(thread_id),
        _ => None,
    }
}

/// What the loop does with an engine event.
pub open spec fn event_outcome(before: ReplSession, event: EngineEvent, after: ReplSession, r: ReplReaction) -> bool {
    let c = before.config;
    match before.mode {
        ReplMode::Ready => {
            &&& event_lines(event, c, r.lines@)
            &&& !r.quit
            &&& after.config == c
            &&& after.current_pid == pid_after(event, before.current_pid)
            &&& if is_pausing(event) && c.auto_disassemble {
                &&& r.command == Some(
                    EngineCommand::Disassemble {
                        address: None,
                        symbol: None,
                        thread_id: stop_thread(event),
                        count: Some(c.disassembly_count),
                    },
                )
                &&& !r.prompt
                &&& after.mode == ReplMode::Waiting { for_execution: false, prompt_after: true }
            } else {
                &&& r.command is None
                &&& r.prompt == is_pausing(event)
                &&& after.mode == ReplMode::Ready
            }
        },
        ReplMode::Waiting { for_execution, prompt_after } => {
            &&& r.command is None
            &&& !r.quit
            &&& after.config == c
            &&& after.current_pid == before.current_pid
            &&& if event is CommandComplete {
                &&& r.lines@.len() == 0
                &&& r.prompt == prompt_after
                &&& after.mode == ReplMode::Ready
            } else {
                &&& event_lines(event, c, r.lines@)
                &&& r.prompt == (for_execution && is_pausing(event))
                &&& after.mode == before.mode
            }
        },
    }
}

fn single(s: String) -> (v: Vec<String>)
    ensures
        views(v@) == seq![s@],
        v@.len() == 1,
        v@[0]@ == s@,
{
    let mut v: Vec<String> = Vec::new();
    v.push(s);
    proof {
        assert(views(v@) =~= seq![s@]);
    }
    v
}

fn none() -> (v: Vec<String>)
    ensures
        views(v@) == Seq::<Seq<char>>::empty(),
        v@.len() == 0,
{
    let v: Vec<String> = Vec::new();
    proof {
        assert(views(v@) =~= Seq::<Seq<char>>::empty());
    }
    v
}

fn strip_prefix<'a>(s: &'a str, p: &str) -> (r: Option<&'a str>)
    ensures
        r is Some <==> after_prefix(s@, p@) is Some,
        r matches Some(t) ==> after_prefix(s@, p@) == Some(t@),
{
    if starts_with(s, p) {
        Some(s.substring_char(p.unicode_len(), s.unicode_len()))
    } else {
        None
    }
}

fn numeric_answer(name: &str, arg: &str) -> (r: (String, Option<u32>))
    ensures
        r.0@ == numeric_setting(name@, arg@),
        r.1 is Some <==> setting_value(arg@) is Some,
        r.1 matches Some(v) ==> setting_value(arg@) == Some(v as nat),
{
    let a = trim_str(arg);
    match parse_unsigned_str(a, 10, u32::MAX as u64) {
        Some(v) => {
            let mut t = String::from_str(name);
            t.append(" = ");
            push_decimal(&mut t, v);
            (t, Some(v as u32))
        },
        None => {
            let mut t = String::from_str("usage: set ");
            t.append(name);
            t.append(" <number>");
            (t, None)
        },
    }
}

fn on_off_text(b: bool) -> (r: &'static str)
    ensures
        r@ == on_off(b),
{
    proof {
        reveal_strlit("on");
        reveal_strlit("off");
    }
    if b {
        "on"
    } else {
        "off"
    }
}

impl ReplSession {
    /// A loop with the default settings, no process, ready for input.
    pub fn new() -> (r: Self)
        ensures
            r.config == (ReplConfig {
                auto_disassemble: false,
                disassembly_count: 10,
                pretty_print: true,
                print_limit: 100,
                print_depth: 5,
            }),
            r.current_pid is None,
            r.mode == ReplMode::Ready,
    {
        ReplSession { config: ReplConfig::default(), current_pid: None, mode: ReplMode::Ready }
    }

    /// Whether the loop only listens to engine events now.
    pub fn is_waiting(&self) -> (r: bool)
        ensures
            r == (self.mode is Waiting),
    {
        match self.mode {
            ReplMode::Ready => false,
            ReplMode::Waiting { .. } => true,
        }
    }

    fn wait(&mut self, cmd: EngineCommand, for_execution: bool, prompt_after: bool, lines: Vec<String>) -> (r: ReplReaction)
        ensures
            waits_for(*old(self), *final(self), r, cmd, for_execution, prompt_after, views(lines@)),
    {
        self.mode = ReplMode::Waiting { for_execution, prompt_after };
        ReplReaction { lines, command: Some(cmd), prompt: false, quit: false }
    }

    /// The loop's answer to a parsed command line.
    pub fn on_parsed(&mut self, parsed: Result<EngineCommand, String>) -> (r: ReplReaction)
        ensures
            command_outcome(*old(self), parsed, *final(self), r),
    {
        match parsed {
            Err(e) => {
                let mut t = String::from_str("Erro: ");
                t.append(e.as_str());
                ReplReaction { lines: single(t), command: None, prompt: true, quit: false }
            },
            Ok(cmd) => {
                match cmd {
                    EngineCommand::Quit => {
                        return ReplReaction {
                            lines: Vec::new(),
                            command: Some(EngineCommand::Quit),
                            prompt: false,
                            quit: true,
                        };
                    },
                    EngineCommand::ListTasks => {
                        match self.current_pid {
                            Some(pid) => {
                                let text = match list_tokio_tasks(pid) {
                                    Ok(tasks) => format_task_list(tasks.as_slice()),
                                    Err(e) => {
                                        let mut t = String::from_str("Erro: ");
                                        t.append(e.message().as_str());
                                        t
                                    },
                                };
                                let lines = single(text);
                                return ReplReaction { lines, command: None, prompt: true, quit: false };
                            },
                            None => {
                                return self.wait(EngineCommand::ListTasks, false, true, none());
                            },
                        }
                    },
                    EngineCommand::SetDisassemblyConfig { auto_show, count } => {
                        let mut lines: Vec<String> = Vec::new();
                        let ghost c0 = self.config;
                        match auto_show {
                            Some(a) => {
                                self.config.auto_disassemble = a;
                                let mut t = String::from_str("auto-disassemble = ");
                                t.append(on_off_text(a));
                                lines.push(t);
                            },
                            None => {},
                        }
                        match count {
                            Some(n) => {
                                self.config.disassembly_count = n;
                                let mut t = String::from_str("disassembly-count = ");
                                push_decimal(&mut t, n as u64);
                                lines.push(t);
                            },
                            None => {},
                        }
                        let ghost l1: Seq<Seq<char>> = match auto_show {
                            Some(a) => seq!["auto-disassemble = "@ + on_off(a)],
                            None => seq![],
                        };
                        let ghost l2: Seq<Seq<char>> = match count {
                            Some(n) => seq!["disassembly-count = "@ + decimal(n as nat)],
                            None => seq![],
                        };
                        assert(views(lines@) =~= l1 + l2);
                        return self.wait(
                            EngineCommand::SetDisassemblyConfig { auto_show, count },
                            false,
                            true,
                            lines,
                        );
                    },
                    _ => {},
                }
                if is_execution_command(&cmd) {
                    self.wait(cmd, true, false, none())
                } else {
                    self.wait(cmd, false, true, none())
                }
            },
        }
    }

    /// The loop's answer to a line of input.
    pub fn on_input(&mut self, line: &str) -> (r: ReplReaction)
        ensures
            input_outcome(*old(self), line@, *final(self), r),
    {
        let t = trim_str(line);
        if t.unicode_len() == 0 {
            return ReplReaction { lines: none(), command: None, prompt: true, quit: false };
        }
        proof {
            reveal_strlit("set pretty-print ");
            reveal_strlit("set print-limit ");
            reveal_strlit("set print-depth ");
        }
        match strip_prefix(t, "set pretty-print ") {
            Some(rest) => {
                let arg = trim_str(rest);
                proof {
                    reveal_strlit("on");
                    reveal_strlit("off");
                }
                let on = str_eq(arg, "on");
                if on || str_eq(arg, "off") {
                    self.config.pretty_print = on;
                    let mut m = String::from_str("pretty-print = ");
                    m.append(on_off_text(on));
                    return ReplReaction { lines: single(m), command: None, prompt: true, quit: false };
                }
                let m = String::from_str("usage: set pretty-print on|off");
                return ReplReaction { lines: single(m), command: None, prompt: true, quit: false };
            },
            None => {},
        }
        match strip_prefix(t, "set print-limit ") {
            Some(rest) => {
                let (m, v) = numeric_answer("print-limit", rest);
                match v {
                    Some(v) => {
                        self.config.print_limit = v;
                    },
                    None => {},
                }
                return ReplReaction { lines: single(m), command: None, prompt: true, quit: false };
            },
            None => {},
        }
        match strip_prefix(t, "set print-depth ") {
            Some(rest) => {
                let (m, v) = numeric_answer("print-depth", rest);
                match v {
                    Some(v) => {
                        self.config.print_depth = v;
                    },
                    None => {},
                }
                return ReplReaction { lines: single(m), command: None, prompt: true, quit: false };
            },
            None => {},
        }
        let parsed = parse(t);
        let r = self.on_parsed(parsed);
        r
    }

    /// The loop's answer to an engine event.
    pub fn on_event(&mut self, event: EngineEvent) -> (r: ReplReaction)
        requires
            event_text_ok(event, old(self).config),
        ensures
            event_outcome(*old(self), event, *final(self), r),
    {
        match self.mode {
            ReplMode::Ready => {
                let pausing = is_pausing_event(&event);
                let tid = thread_id_of(&event);
                match &event {
                    EngineEvent::ProcessLaunched { pid, .. } => {
                        self.current_pid = Some(*pid);
                    },
                    EngineEvent::ProcessAttached { pid } => {
                        self.current_pid = Some(*pid);
                    },
                    _ => {},
                }
                let lines = event_lines_of(event, &self.config);
                if pausing && self.config.auto_disassemble {
                    self.mode = ReplMode::Waiting { for_execution: false, prompt_after: true };
                    let cmd = EngineCommand::Disassemble {
                        address: None,
                        symbol: None,
                        thread_id: tid,
                        count: Some(self.config.disassembly_count),
                    };
                    ReplReaction { lines, command: Some(cmd), prompt: false, quit: false }
                } else {
                    ReplReaction { lines, command: None, prompt: pausing, quit: false }
                }
            },
            ReplMode::Waiting { for_execution, prompt_after } => {
                if let EngineEvent::CommandComplete = event {
                    self.mode = ReplMode::Ready;
                    return ReplReaction { lines: none(), command: None, prompt: prompt_after, quit: false };
                }
                let pausing = is_pausing_event(&event);
                let lines = event_lines_of(event, &self.config);
                ReplReaction { lines, command: None, prompt: for_execution && pausing, quit: false }
            },
        }
    }

    /// The loop's answer to the end of the engine's events: a wait ends,
    /// with the prompt it owed.
    pub fn on_events_closed(&mut self) -> (r: ReplReaction)
        ensures
            prints(r, seq![], old(self).mode matches ReplMode::Waiting { prompt_after, .. } && prompt_after),
            final(self).config == old(self).config,
            final(self).current_pid == old(self).current_pid,
            final(self).mode == ReplMode::Ready,
    {
        let prompt = match self.mode {
            ReplMode::Ready => false,
            ReplMode::Waiting { prompt_after, .. } => prompt_after,
        };
        self.mode = ReplMode::Ready;
        ReplReaction { lines: none(), command: None, prompt, quit: false }
    }
}

fn event_lines_of(event: EngineEvent, config: &ReplConfig) -> (lines: Vec<String>)
    requires
        event_text_ok(event, *config),
    ensures
        event_lines(event, *config, lines@),
{
    match event_line(event, config) {
        Some(t) => {
            let mut v: Vec<String> = Vec::new();
            v.push(t);
            v
        },
        None => Vec::new(),
    }
}

/// An execution command (continue, step, launch, attach) prints no prompt
/// when sent: the prompt comes back only when the process pauses, even if
/// the engine's completion notice arrives first.
pub proof fn law_execution_defers_prompt(
    before: ReplSession,
    cmd: EngineCommand,
    mid: ReplSession,
    r1: ReplReaction,
    after: ReplSession,
    r2: ReplReaction,
)
    requires
        is_execution(cmd),
        command_outcome(before, Ok(cmd), mid, r1),
        event_outcome(mid, EngineEvent::CommandComplete, after, r2),
    ensures
        r1.command == Some(cmd),
        !r1.prompt,
        !r2.prompt,
        after.mode == ReplMode::Ready,
{
}

/// While an execution command waits for completion, a pausing event
/// brings the prompt back at once.
pub proof fn law_execution_pause_prompts(
    before: ReplSession,
    cmd: EngineCommand,
    mid: ReplSession,
    r1: ReplReaction,
    event: EngineEvent,
    after: ReplSession,
    r2: ReplReaction,
)
    requires
        is_execution(cmd),
        is_pausing(event),
        command_outcome(before, Ok(cmd), mid, r1),
        event_outcome(mid, event, after, r2),
    ensures
        r2.prompt,
        after.mode == mid.mode,
{
}

/// Any other command sent to the engine prints the prompt once the engine
/// reports it complete, and only then.
pub proof fn law_info_command_prompts_on_completion(
    before: ReplSession,
    cmd: EngineCommand,
    mid: ReplSession,
    r1: ReplReaction,
    after: ReplSession,
    r2: ReplReaction,
)
    requires
        !is_execution(cmd),
        !(cmd is Quit),
        !(cmd is ListTasks && before.current_pid is Some),
        command_outcome(before, Ok(cmd), mid, r1),
        event_outcome(mid, EngineEvent::CommandComplete, after, r2),
    ensures
        r1.command == Some(cmd),
        !r1.prompt,
        r2.prompt,
        after.mode == ReplMode::Ready,
{
}

/// A pausing event while the loop is ready prints the prompt, unless
/// auto-disassembly is on: then the loop asks for the disassembly at the
/// stop and prints the prompt when it is complete.
pub proof fn law_pause_prompts(
    before: ReplSession,
    event: EngineEvent,
    mid: ReplSession,
    r1: ReplReaction,
    after: ReplSession,
    r2: ReplReaction,
)
    requires
        before.mode == ReplMode::Ready,
        is_pausing(event),
        event_outcome(before, event, mid, r1),
        event_outcome(mid, EngineEvent::CommandComplete, after, r2),
    ensures
        !before.config.auto_disassemble ==> r1.prompt && r1.command is None,
        before.config.auto_disassemble ==> (!r1.prompt && (r1.command matches Some(EngineCommand::Disassemble { .. })) && r2.prompt),
        after.mode == ReplMode::Ready,
{
}

/// A parse error is reported and the prompt follows; nothing is sent and
/// nothing changes.
pub proof fn law_parse_error_reported(before: ReplSession, e: String, after: ReplSession, r: ReplReaction)
    requires
        command_outcome(before, Err(e), after, r),
    ensures
        r.command is None,
        r.prompt,
        views(r.lines@) == seq!["Erro: "@ + e@],
        after == before,
{
}

} // verus!
