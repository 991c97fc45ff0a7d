use std::collections::{HashMap, HashSet};

use rde::disasm::Disassembler;

#[test]
fn test_disassemble_nop() {
    let mut disasm = Disassembler::new().unwrap();
    let bytes = vec![0x90, 0x90, 0x90]; // 3x nop
    let active = HashSet::new();
    let bp_bytes = HashMap::new();
    let view = disasm.disassemble_at(0x1000, 10, None, &bytes, &active, &bp_bytes).unwrap();
    assert_eq!(view.lines.len(), 3);
    assert_eq!(view.lines[0].mnemonic, "nop");
    assert!(!view.lines[0].is_current);
    assert!(!view.lines[0].has_breakpoint);
}

#[test]
fn test_disassemble_with_rip_marker() {
    let mut disasm = Disassembler::new().unwrap();
    let bytes = vec![0x90, 0x90, 0x90];
    let active = HashSet::new();
    let bp_bytes = HashMap::new();
    let view = disasm.disassemble_at(0x1000, 10, Some(0x1001), &bytes, &active, &bp_bytes).unwrap();
    assert!(!view.lines[0].is_current);
    assert!(view.lines[1].is_current);
    assert!(!view.lines[2].is_current);
}

#[test]
fn test_disassemble_with_breakpoint() {
    let mut disasm = Disassembler::new().unwrap();
    let bytes = vec![0x90, 0x90, 0x90];
    let mut active = HashSet::new();
    active.insert(0x1001);
    let mut bp_bytes = HashMap::new();
    bp_bytes.insert(0x1001, 0x90);
    let view = disasm.disassemble_at(0x1000, 10, None, &bytes, &active, &bp_bytes).unwrap();
    assert!(!view.lines[0].has_breakpoint);
    assert!(view.lines[1].has_breakpoint);
    assert!(!view.lines[2].has_breakpoint);
}

#[test]
fn test_format_output() {
    let mut disasm = Disassembler::new().unwrap();
    let bytes = vec![0x48, 0x89, 0x5c, 0x24, 0x08]; // mov qword ptr [rsp+8], rbx
    let active = HashSet::new();
    let bp_bytes = HashMap::new();
    let view = disasm.disassemble_at(0x7ff6_1234_0000, 10, None, &bytes, &active, &bp_bytes).unwrap();
    let formatted = view.format();
    assert!(formatted.contains("mov"));
    assert!(formatted.contains("0x00007ff612340000"));
}

#[test]
fn empty_memory_is_an_error() {
    let mut disasm = Disassembler::new().unwrap();
    let active = HashSet::new();
    let bp_bytes = HashMap::new();
    let r = disasm.disassemble_at(0x2000, 10, None, &[], &active, &bp_bytes);
    assert!(r.is_err());
}

#[test]
fn count_limits_the_lines() {
    let mut disasm = Disassembler::new().unwrap();
    let bytes = vec![0x90; 8];
    let active = HashSet::new();
    let bp_bytes = HashMap::new();
    let view = disasm.disassemble_at(0x1000, 2, None, &bytes, &active, &bp_bytes).unwrap();
    assert_eq!(view.lines.len(), 2);
    assert_eq!(view.lines[1].address, 0x1001);
}
