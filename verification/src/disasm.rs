//! Disassembly: x86-64 instruction decoding (Capstone), disassembly views
//! with current-instruction and breakpoint markers, and their text.

use vstd::prelude::*;
use std::collections::HashMap;
use std::collections::HashSet;
use capstone::Capstone;
use capstone::arch::BuildsCapstone;
use capstone::arch::BuildsCapstoneSyntax;
use capstone::arch::x86::ArchMode;
use capstone::arch::x86::ArchSyntax;
use crate::text::{hex, join, lemma_join_push, pad_left, pad_right, push_hex, push_padded_right, push_part};
use crate::types::DebugError;

verus! {

broadcast use vstd::std_specs::hash::group_hash_axioms;

/// A Capstone disassembler handle.
#[verifier::external_type_specification]
#[verifier::external_body]
pub struct ExCapstone(Capstone);

/// One decoded instruction, as Capstone reports it.
#[derive(Debug, Clone)]
pub struct DecodedInstruction {
    pub address: u64,
    pub bytes: Vec<u8>,
    pub mnemonic: Option<String>,
    pub operands: Option<String>,
}

/// What decoding `bytes` as x86-64 machine code (Intel syntax) placed at
/// `address` gives: the instructions, or Capstone's error message.
pub uninterp spec fn x86_decoding(bytes: Seq<u8>, address: u64) -> Result<Seq<DecodedInstruction>, Seq<char>>;

/// Builds a Capstone handle for x86-64 in Intel syntax
/// (`Capstone::new().x86().mode(Mode64).syntax(Intel).build()`); an error
/// comes back as its message. Whether the build succeeds is not stated.
#[verifier::external_body]
fn build_x86_64() -> (r: Result<Capstone, String>) {
    Capstone::new().x86().mode(ArchMode::Mode64).syntax(ArchSyntax::Intel).build().map_err(
        |e| e.to_string(),
    )
}

/// `Capstone::disasm_all` on a handle built by `build_x86_64`: the
/// instructions decoded from `bytes` placed at `address`, each with its
/// address, bytes, mnemonic and operand text, or the error's message. The
/// result is `x86_decoding(bytes, address)`.
#[verifier::external_body]
fn disasm_all(cs: &Capstone, bytes: &[u8], address: u64) -> (r: Result<Vec<DecodedInstruction>, String>)
    ensures
        match r {
            Ok(v) => x86_decoding(bytes@, address) == Ok::<Seq<DecodedInstruction>, Seq<char>>(v@),
            Err(e) => x86_decoding(bytes@, address) == Err::<Seq<DecodedInstruction>, Seq<char>>(e@),
        },
{
    let insns = cs.disasm_all(bytes, address).map_err(|e| e.to_string())?;
    Ok(
        insns.iter().map(
            |i|
                DecodedInstruction {
                    address: i.address(),
                    bytes: i.bytes().to_vec(),
                    mnemonic: i.mnemonic().map(String::from),
                    operands: i.op_str().map(String::from),
                },
        ).collect(),
    )
}

/// A single line of disassembly output.
#[derive(Debug, Clone)]
pub struct DisassemblyLine {
    pub address: u64,
    pub bytes: Vec<u8>,
    pub mnemonic: String,
    pub operands: String,
    pub is_current: bool,
    pub has_breakpoint: bool,
    pub original_bytes: Option<Vec<u8>>,
}

/// Collection of disassembly lines with context.
#[derive(Debug, Clone)]
pub struct DisassemblyView {
    pub lines: Vec<DisassemblyLine>,
    pub base_address: u64,
    pub rip: Option<u64>,
    pub truncated: bool,
}

/// Configuration for disassembly behavior.
#[derive(Debug, Clone, Copy, PartialEq, Eq, Structural)]
pub struct DisassemblyConfig {
    pub count: usize,
    pub auto_show: bool,
}

impl Default for DisassemblyConfig {
    /// Ten instructions, not shown automatically.
    fn default() -> (r: Self)
        ensures
            r == (DisassemblyConfig { count: 10, auto_show: false }),
    {
        DisassemblyConfig { count: 10, auto_show: false }
    }
}

/// `o`'s text, or `dflt` when there is none.
pub open spec fn text_or(o: Option<String>, dflt: Seq<char>) -> Seq<char> {
    match o {
        Some(s) => s@,
        None => dflt,
    }
}

/// The line a decoded instruction becomes: marked current when it is at
/// `rip`, marked as a breakpoint when its address is an active one (with the
/// byte the breakpoint replaced, when known).
pub open spec fn line_of(
    i: DecodedInstruction,
    rip: Option<u64>,
    active: Set<u64>,
    originals: Map<u64, u8>,
    l: DisassemblyLine,
) -> bool {
    &&& l.address == i.address
    &&& l.bytes@ == i.bytes@
    &&& l.mnemonic@ == text_or(i.mnemonic, "???"@)
    &&& l.operands@ == text_or(i.operands, ""@)
    &&& l.is_current == (rip == Some(i.address))
    &&& l.has_breakpoint == active.contains(i.address)
    &&& match l.original_bytes {
        Some(o) => active.contains(i.address) && originals.contains_key(i.address) && o@ == seq![
            originals[i.address],
        ],
        None => !(active.contains(i.address) && originals.contains_key(i.address)),
    }
}

/// Disassembler using Capstone Engine.
pub struct Disassembler {
    cs: Capstone,
}

impl Disassembler {
    /// Create a new x86-64 disassembler in Intel syntax; a failure to build
    /// Capstone comes back as an internal error.
    pub fn new() -> (r: Result<Self, DebugError>)
        ensures
            r matches Err(e) ==> (e matches DebugError::Internal(m) && "Capstone init failed: "@.len()
                <= m@.len() && m@.subrange(0, "Capstone init failed: "@.len() as int)
                == "Capstone init failed: "@),
    {
        match build_x86_64() {
            Ok(cs) => Ok(Disassembler { cs }),
            Err(e) => {
                let mut m = "Capstone init failed: ".to_owned();
                m.append(e.as_str());
                assert(m@.subrange(0, "Capstone init failed: "@.len() as int) =~= "Capstone init failed: "@);
                Err(DebugError::Internal(m))
            },
        }
    }

    /// Disassemble up to `count` instructions from `bytes`, which were read
    /// at `address`.
    pub fn disassemble_at(
        &mut self,
        address: u64,
        count: usize,
        rip: Option<u64>,
        bytes: &[u8],
        active_breakpoints: &HashSet<u64>,
        breakpoints: &HashMap<u64, u8>,
    ) -> (r: Result<DisassemblyView, DebugError>)
        ensures
            bytes@.len() == 0 ==> (r matches Err(DebugError::Internal(m)) && m@ == "Cannot read memory at 0x"@
                + hex(address as nat, false)),
            bytes@.len() > 0 ==> match x86_decoding(bytes@, address) {
                Err(msg) => (r matches Err(DebugError::Internal(m)) && m@ == "Capstone disassembly failed: "@
                    + msg),
                Ok(insns) => (r matches Ok(view) && {
                    let n = if insns.len() < count {
                        insns.len()
                    } else {
                        count as nat
                    };
                    &&& view.lines@.len() == n
                    &&& forall|k: int|
                        0 <= k < n ==> line_of(
                            insns[k],
                            rip,
                            active_breakpoints@,
                            breakpoints@,
                            #[trigger] view.lines@[k],
                        )
                    &&& view.base_address == address
                    &&& view.rip == rip
                    &&& view.truncated == (n < count)
                }),
            },
    {
        if bytes.len() == 0 {
            let mut m = "Cannot read memory at 0x".to_owned();
            push_hex(&mut m, address, 0, false);
            return Err(DebugError::Internal(m));
        }
        let insns = match disasm_all(&self.cs, bytes, address) {
            Ok(v) => v,
            Err(e) => {
                let mut m = "Capstone disassembly failed: ".to_owned();
                m.append(e.as_str());
                return Err(DebugError::Internal(m));
            },
        };
        let n = if insns.len() < count {
            insns.len()
        } else {
            count
        };
        let mut lines: Vec<DisassemblyLine> = Vec::new();
        let mut k: usize = 0;
        while k < n
            invariant
                n <= insns@.len(),
                k <= n,
                lines@.len() == k,
                forall|j: int|
                    0 <= j < k ==> line_of(
                        insns@[j],
                        rip,
                        active_breakpoints@,
                        breakpoints@,
                        #[trigger] lines@[j],
                    ),
            decreases n - k,
        {
            let insn = &insns[k];
            let addr = insn.address;
            let has_breakpoint = active_breakpoints.contains(&addr);
            let original_bytes = if has_breakpoint {
                match breakpoints.get(&addr) {
                    Some(b) => Some(vec![*b]),
                    None => None,
                }
            } else {
                None
            };
            let mnemonic = match &insn.mnemonic {
                Some(m) => m.clone(),
                None => "???".to_owned(),
            };
            let operands = match &insn.operands {
                Some(o) => o.clone(),
                None => "".to_owned(),
            };
            let line = DisassemblyLine {
                address: addr,
                bytes: insn.bytes.clone(),
                mnemonic,
                operands,
                is_current: rip == Some(addr),
                has_breakpoint,
                original_bytes,
            };
            proof {
                if line.original_bytes is Some {
                    assert(line.original_bytes->0@ =~= seq![breakpoints@[addr]]);
                }
            }
            lines.push(line);
            k = k + 1;
        }
        Ok(DisassemblyView { lines, base_address: address, rip, truncated: n < count })
    }
}

/// The marker column: `=>` on the current instruction, `b+` on a
/// breakpoint, four columns wide.
pub open spec fn marker_text(l: DisassemblyLine) -> Seq<char> {
    let m = (if l.is_current {
        "=>"@
    } else {
        ""@
    }) + (if l.has_breakpoint {
        (if l.is_current {
            " "@
        } else {
            ""@
        }) + "b+"@
    } else {
        ""@
    });
    if m.len() == 0 {
        "    "@
    } else {
        pad_right(m, 4, ' ')
    }
}

/// A byte as two lower-case hex digits.
pub open spec fn byte_pair(b: u8) -> Seq<char> {
    pad_left(hex(b as nat, false), 2, '0')
}

/// The first eight bytes in hex, space separated, with ` ..` when there
/// are more.
pub open spec fn bytes_text(b: Seq<u8>) -> Seq<char> {
    let h = first_bytes(b);
    if b.len() > 8 {
        h + " .."@
    } else {
        h
    }
}

/// The first eight bytes in hex, space separated.
pub open spec fn first_bytes(b: Seq<u8>) -> Seq<char> {
    let shown = if b.len() < 8 {
        b.len()
    } else {
        8
    };
    join(Seq::new(shown, |i: int| byte_pair(b[i])), " "@)
}

/// The comment naming the instruction a breakpoint replaced.
pub open spec fn was_text(i: DecodedInstruction) -> Seq<char> {
    let ops = text_or(i.operands, ""@);
    if ops.len() == 0 {
        " ; was: "@ + text_or(i.mnemonic, "???"@)
    } else {
        " ; was: "@ + text_or(i.mnemonic, "???"@) + " "@ + ops
    }
}

/// The comment a line may carry: on a breakpoint whose original byte is
/// known and decodes, the replaced instruction (left out only when no
/// decoder could be built); otherwise none.
pub open spec fn comment_ok(l: DisassemblyLine, c: Seq<char>) -> bool {
    if l.has_breakpoint && l.original_bytes is Some {
        match x86_decoding(l.original_bytes->0@, l.address) {
            Ok(insns) => if insns.len() > 0 {
                c == ""@ || c == was_text(insns[0])
            } else {
                c == ""@
            },
            Err(_) => c == ""@,
        }
    } else {
        c == ""@
    }
}

/// One line of disassembly text with its comment.
pub open spec fn line_text(l: DisassemblyLine, comment: Seq<char>) -> Seq<char> {
    marker_text(l) + " 0x"@ + pad_left(hex(l.address as nat, false), 16, '0') + ": "@ + pad_right(
        bytes_text(l.bytes@),
        22,
        ' ',
    ) + " "@ + pad_right(l.mnemonic@, 8, ' ') + " "@ + l.operands@ + comment
}

/// The text of a view, given each line's comment.
pub open spec fn view_text(v: DisassemblyView, comments: Seq<Seq<char>>) -> Seq<char> {
    if v.lines@.len() == 0 {
        "(no instructions)"@
    } else {
        join(
            Seq::new(v.lines@.len(), |i: int| line_text(v.lines@[i], comments[i])) + if v.truncated {
                seq!["(truncated)"@]
            } else {
                Seq::empty()
            },
            "\n"@,
        )
    }
}

fn push_marker(out: &mut String, l: &DisassemblyLine)
    ensures
        final(out)@ == old(out)@ + marker_text(*l),
{
    proof {
        reveal_strlit("");
    }
    let mut markers = String::new();
    if l.is_current {
        markers.append("=>");
    }
    if l.has_breakpoint {
        if l.is_current {
            markers.append(" ");
        }
        markers.append("b+");
    }
    assert(markers@ =~= (if l.is_current {
        "=>"@
    } else {
        ""@
    }) + (if l.has_breakpoint {
        (if l.is_current {
            " "@
        } else {
            ""@
        }) + "b+"@
    } else {
        ""@
    }));
    if markers.unicode_len() == 0 {
        out.append("    ");
    } else {
        push_padded_right(out, markers.as_str(), 4, ' ');
    }
}

/// The first eight bytes in hex, space separated.
pub(crate) fn first_bytes_string(b: &[u8]) -> (r: String)
    ensures
        r@ == first_bytes(b@),
{
    let shown: usize = if b.len() < 8 {
        b.len()
    } else {
        8
    };
    let mut h = String::new();
    let ghost parts = |n: int| Seq::new(n as nat, |i: int| byte_pair(b@[i]));
    let mut i: usize = 0;
    assert(parts(0) =~= Seq::<Seq<char>>::empty());
    while i < shown
        invariant
            shown <= b@.len(),
            i <= shown,
            h@ == join(parts(i as int), " "@),
            parts == (|n: int| Seq::new(n as nat, |i: int| byte_pair(b@[i]))),
        decreases shown - i,
    {
        let mut p = String::new();
        push_hex(&mut p, b[i] as u64, 2, false);
        proof {
            assert(parts(i + 1) =~= parts(i as int).push(byte_pair(b@[i as int])));
            lemma_join_push(parts(i as int), " "@, p@);
        }
        push_part(&mut h, i, " ", p.as_str());
        i = i + 1;
    }
    h
}

fn bytes_string(b: &[u8]) -> (r: String)
    ensures
        r@ == bytes_text(b@),
{
    let mut h = first_bytes_string(b);
    if b.len() > 8 {
        h.append(" ..");
    }
    h
}

impl DisassemblyView {
    /// The comment for one line: what the byte a breakpoint replaced
    /// decodes to.
    fn comment_for(l: &DisassemblyLine) -> (c: String)
        ensures
            comment_ok(*l, c@),
    {
        if l.has_breakpoint {
            match &l.original_bytes {
                Some(orig) => {
                    match Disassembler::new() {
                        Ok(d) => {
                            match disasm_all(&d.cs, orig.as_slice(), l.address) {
                                Ok(insns) => {
                                    if insns.len() > 0 {
                                        let mut c = " ; was: ".to_owned();
                                        match &insns[0].mnemonic {
                                            Some(m) => c.append(m.as_str()),
                                            None => c.append("???"),
                                        }
                                        let ops: &str = match &insns[0].operands {
                                            Some(o) => o.as_str(),
                                            None => "",
                                        };
                                        if ops.unicode_len() > 0 {
                                            c.append(" ");
                                            c.append(ops);
                                        }
                                        assert(c@ =~= was_text(insns@[0]));
                                        return c;
                                    }
                                },
                                Err(_) => {},
                            }
                        },
                        Err(_) => {},
                    }
                },
                None => {},
            }
        }
        "".to_owned()
    }

    /// Format the view as plain text for REPL output.
    pub fn format(&self) -> (r: String)
        ensures
            exists|comments: Seq<Seq<char>>|
                {
                    &&& comments.len() == self.lines@.len()
                    &&& forall|i: int|
                        0 <= i < comments.len() ==> comment_ok(self.lines@[i], #[trigger] comments[i])
                    &&& r@ == view_text(*self, comments)
                },
    {
        let n = self.lines.len();
        if n == 0 {
            let r = "(no instructions)".to_owned();
            assert(r@ == view_text(*self, Seq::empty()));
            return r;
        }
        let mut out = String::new();
        let ghost mut comments: Seq<Seq<char>> = Seq::empty();
        let mut i: usize = 0;
        while i < n
            invariant
                n == self.lines@.len(),
                i <= n,
                comments.len() == i,
                forall|j: int| 0 <= j < i ==> comment_ok(self.lines@[j], #[trigger] comments[j]),
                out@ == join(Seq::new(i as nat, |j: int| line_text(self.lines@[j], comments[j])), "\n"@),
            decreases n - i,
        {
            let l = &self.lines[i];
            let mut line = String::new();
            push_marker(&mut line, l);
            line.append(" 0x");
            push_hex(&mut line, l.address, 16, false);
            line.append(": ");
            let b = bytes_string(l.bytes.as_slice());
            push_padded_right(&mut line, b.as_str(), 22, ' ');
            line.append(" ");
            push_padded_right(&mut line, l.mnemonic.as_str(), 8, ' ');
            line.append(" ");
            line.append(l.operands.as_str());
            let c = DisassemblyView::comment_for(l);
            line.append(c.as_str());
            let ghost prev = comments;
            proof {
                comments = comments.push(c@);
                assert(line@ =~= line_text(*l, c@));
                assert(Seq::new((i + 1) as nat, |j: int| line_text(self.lines@[j], comments[j])) =~= Seq::new(
                    i as nat,
                    |j: int| line_text(self.lines@[j], prev[j]),
                ).push(line@));
                lemma_join_push(
                    Seq::new(i as nat, |j: int| line_text(self.lines@[j], prev[j])),
                    "\n"@,
                    line@,
                );
            }
            push_part(&mut out, i, "\n", line.as_str());
            i = i + 1;
        }
        let ghost body = Seq::new(n as nat, |j: int| line_text(self.lines@[j], comments[j]));
        if self.truncated {
            proof {
                lemma_join_push(body, "\n"@, "(truncated)"@);
                assert(body + seq!["(truncated)"@] =~= body.push("(truncated)"@));
            }
            out.append("\n");
            out.append("(truncated)");
            assert(out@ == view_text(*self, comments));
        } else {
            assert(body + Seq::<Seq<char>>::empty() =~= body);
            assert(out@ == view_text(*self, comments));
        }
        out
    }
}

} // verus!

verus! {

/// The marker column of a disassembly line: the line starts with `=>`
/// exactly when it is the current instruction, and shows `b+` (at its start,
/// or after `=> ` on the current instruction) exactly when a breakpoint is
/// set there; a line with neither starts with blanks.
pub proof fn law_disassembly_markers(l: DisassemblyLine, comment: Seq<char>)
    ensures
        line_text(l, comment).len() >= 5,
        (line_text(l, comment).subrange(0, 2) == "=>"@) <==> l.is_current,
        ({
            let t = line_text(l, comment);
            (t.subrange(0, 2) == "b+"@ || t.subrange(3, 5) == "b+"@) <==> l.has_breakpoint
        }),
        !l.is_current && !l.has_breakpoint ==> line_text(l, comment).subrange(0, 4) == "    "@,
{
    reveal_strlit("=>");
    reveal_strlit("b+");
    reveal_strlit(" ");
    reveal_strlit("");
    reveal_strlit("    ");
    reveal_strlit(" 0x");
    assert("=>"@ =~= seq!['=', '>']);
    assert("b+"@ =~= seq!['b', '+']);
    assert(crate::text::repeat(' ', 0) =~= Seq::<char>::empty());
    assert(crate::text::repeat(' ', 1) =~= seq![' ']);
    assert(crate::text::repeat(' ', 2) =~= seq![' ', ' ']);
    let t = line_text(l, comment);
    let m = marker_text(l);
    let rest = " 0x"@ + pad_left(hex(l.address as nat, false), 16, '0') + ": "@ + pad_right(
        bytes_text(l.bytes@),
        22,
        ' ',
    ) + " "@ + pad_right(l.mnemonic@, 8, ' ') + " "@ + l.operands@ + comment;
    assert(t =~= m + rest);
    assert(rest.len() >= 3);
    assert(rest[0] == ' ');
    if l.is_current && l.has_breakpoint {
        assert(m =~= seq!['=', '>', ' ', 'b', '+']);
    } else if l.is_current {
        assert(m =~= seq!['=', '>', ' ', ' ']);
    } else if l.has_breakpoint {
        assert(m =~= seq!['b', '+', ' ', ' ']);
    } else {
        assert(m =~= seq![' ', ' ', ' ', ' ']);
    }
    assert(t.subrange(0, 2) =~= m.subrange(0, 2));
    assert(t.subrange(0, 4) =~= m.subrange(0, 4));
    assert(t[3] == m[3] && t[4] == (m + rest)[4]);
    assert(t.subrange(3, 5) =~= seq![t[3], t[4]]);
    assert(t.subrange(0, 2) =~= seq![t[0], t[1]]);
}

} // verus!
