use std::collections::HashMap;

use rde::pdbfile::{PdbContents, PdbRecord};
use rde::symbols::{
    clean_image_path, demangle, load_pdb_table, next_frame, pdb_path_for, resolve_va, sorted_distinct, symbol_name, to_wide,
    DbgHelpApi, DbgHelpSymbolEngine, PdbSymbolTable, RawSymbol, StubSymbolEngine, SymbolEngine, ThreadContextError,
};
use rde::types::DebugError;

fn table(entries: &[(&str, u64)]) -> PdbSymbolTable {
    let mut t = PdbSymbolTable::new();
    for (n, a) in entries {
        t.insert(n.to_string(), *a);
    }
    t
}

#[test]
fn table_insert_replaces_and_get_finds() {
    let mut t = table(&[("main", 0x1000), ("helper", 0x2000)]);
    assert_eq!(t.get("main"), Some(0x1000));
    t.insert("main".to_string(), 0x1500);
    assert_eq!(t.get("main"), Some(0x1500));
    assert_eq!(t.get("helper"), Some(0x2000));
    assert_eq!(t.get("absent"), None);
    assert_eq!(t.len(), 2);
}

#[test]
fn nearest_symbol_within_64k() {
    let t = table(&[("a", 0x1000), ("b", 0x3000), ("zero", 0)]);
    let info = t.nearest(0x3010).unwrap();
    assert_eq!(info.name, "b");
    assert_eq!(info.module, "pdb_fallback");
    assert_eq!(info.address, 0x3000);
    assert!(info.file.is_none() && info.line.is_none());
    assert_eq!(t.nearest(0x2fff).unwrap().name, "a");
    assert!(t.nearest(0x3000 + 0x10000).is_none());
    assert!(t.nearest(0x500).is_none());
}

#[test]
fn lookup_prefers_exact_then_suffix_then_substring() {
    let t = table(&[("app::insert", 0x30), ("app::insert_left", 0x20), ("Insert", 0x10)]);
    assert_eq!(t.lookup_name("Insert", vec![]).unwrap(), vec![0x10]);
    assert_eq!(t.lookup_name("INSERT", vec![]).unwrap(), vec![0x10, 0x30]);
    assert_eq!(t.lookup_name("left", vec![]).unwrap(), vec![0x20]);
    assert_eq!(t.lookup_name("ser", vec![]).unwrap(), vec![0x10, 0x20, 0x30]);
    assert_eq!(t.lookup_name("x", vec![9, 3, 9]).unwrap(), vec![3, 9]);
    match t.lookup_name("nothing", vec![]) {
        Err(DebugError::Internal(m)) => assert_eq!(m, "Symbol 'nothing' not found in loaded modules"),
        other => panic!("unexpected {:?}", other),
    }
}

#[test]
fn sorted_distinct_sorts_and_dedups() {
    assert_eq!(sorted_distinct(&vec![5, 1, 5, 3, 1]), vec![1, 3, 5]);
    assert_eq!(sorted_distinct(&vec![]), Vec::<u64>::new());
}

#[test]
fn virtual_addresses_add_section_and_saturate() {
    let sections = vec![0x1000, 0x5000];
    assert_eq!(resolve_va(0, 0x10, &sections, 0x40_0000), 0x40_0010);
    assert_eq!(resolve_va(2, 0x10, &sections, 0x40_0000), 0x40_5010);
    assert_eq!(resolve_va(3, 0x10, &sections, 0x40_0000), 0x40_0010);
    assert_eq!(resolve_va(1, 0x10, &sections, u64::MAX - 1), u64::MAX);
}

#[test]
fn records_build_the_table() {
    let contents = PdbContents {
        sections: vec![0x1000],
        records: vec![
            PdbRecord::Public { function: true, name: "main".to_string(), section: 1, offset: 0x20 },
            PdbRecord::Public { function: false, name: "data".to_string(), section: 1, offset: 0x40 },
            PdbRecord::Procedure { name: "helper".to_string(), section: 1, offset: 0x80 },
            PdbRecord::Other,
        ],
    };
    let t = PdbSymbolTable::from_contents(&contents, 0x40_0000);
    assert_eq!(t.get("main"), Some(0x40_1020));
    assert_eq!(t.get("helper"), Some(0x40_1080));
    assert_eq!(t.get("data"), None);
    assert_eq!(t.len(), 2);
}

#[test]
fn demangles_rust_names_and_keeps_plain_ones() {
    assert_eq!(demangle("main"), "main");
    assert_eq!(demangle("_ZN4test4main17h0123456789abcdefE"), "test::main::h0123456789abcdef");
}

#[test]
fn symbol_names_in_narrow_and_wide_form() {
    assert_eq!(symbol_name(&b"main\0\0\0\0".to_vec(), 4), "main");
    let wide: Vec<u8> = "main".encode_utf16().flat_map(|u| u.to_le_bytes()).collect();
    assert_eq!(symbol_name(&wide, 4), "main");
}

#[test]
fn verbatim_prefix_is_stripped() {
    assert_eq!(clean_image_path(r"\\?\C:\app\app.exe"), r"C:\app\app.exe");
    assert_eq!(clean_image_path(r"C:\app\app.exe"), r"C:\app\app.exe");
}

#[test]
fn stub_engine_reports_not_implemented() {
    let mut stub = StubSymbolEngine;
    assert!(stub.initialize(1, None, None, None).is_ok());
    match stub.resolve(0x1000) {
        Err(DebugError::Internal(m)) => assert_eq!(m, "symbol resolution not yet implemented"),
        other => panic!("unexpected {:?}", other.is_ok()),
    }
    assert!(stub.walk_stack(1).unwrap().is_empty());
    assert!(stub.resolve_by_name("main").is_err());
    assert!(stub.cleanup().is_ok());
}

struct FakeWindows {
    memory: HashMap<u64, u64>,
    names: HashMap<u64, String>,
}

impl DbgHelpApi for FakeWindows {
    fn open_process(&self, process_id: u32) -> Result<isize, u32> {
        if process_id == 0 { Err(87) } else { Ok(44) }
    }
    fn last_error(&self) -> u32 {
        5
    }
    fn sym_initialize(&self, _process: isize, _search_path: Option<&Vec<u16>>) -> bool {
        true
    }
    fn sym_load_module(&self, _process: isize, _image_path: &Vec<u16>, base: u64) -> u64 {
        base
    }
    fn sym_unload_module(&self, _process: isize, _base: u64) -> bool {
        false
    }
    fn sym_from_addr(&self, _process: isize, address: u64) -> Option<RawSymbol> {
        self.names.get(&address).map(|n| RawSymbol {
            name: n.as_bytes().to_vec(),
            name_len: n.len() as u32,
            module_base: 0x40_0000,
            address,
        })
    }
    fn sym_line_from_addr(&self, _process: isize, _address: u64) -> Option<(String, u32)> {
        Some(("main.rs".to_string(), 12))
    }
    fn sym_from_name(&self, _process: isize, _name: &Vec<u16>) -> Option<u64> {
        None
    }
    fn sym_enum_symbols(&self, _process: isize, _mask: &Vec<u16>) -> Vec<u64> {
        vec![0, 0x7000]
    }
    fn sym_cleanup(&self, _process: isize) -> bool {
        true
    }
    fn close_handle(&self, _handle: isize) {}
    fn read_u64(&self, _process: isize, address: u64) -> Option<u64> {
        self.memory.get(&address).copied()
    }
    fn thread_context(&self, thread_id: u32) -> Result<(u64, u64), ThreadContextError> {
        if thread_id == 1 { Ok((0x40_1000, 0x10_0000)) } else { Err(ThreadContextError::OpenThread(6)) }
    }
    fn read_file(&self, _path: &str) -> Option<Vec<u8>> {
        None
    }
}

fn fake() -> FakeWindows {
    let mut memory = HashMap::new();
    memory.insert(0x10_0000, 0x10_0040);
    memory.insert(0x10_0008, 0x40_2000);
    memory.insert(0x10_0040, 0);
    memory.insert(0x10_0048, 0x40_3000);
    let mut names = HashMap::new();
    names.insert(0x40_1000, "main".to_string());
    FakeWindows { memory, names }
}

#[test]
fn engine_needs_initialization() {
    let engine = DbgHelpSymbolEngine::new(fake());
    match engine.walk_stack_from_context(0x40_1000, 0) {
        Err(DebugError::Internal(m)) => assert_eq!(m, "DbgHelp not initialized"),
        _ => panic!("expected an error"),
    }
    assert!(engine.resolve_by_name("main").is_err());
}

#[test]
fn engine_walks_the_frame_chain() {
    let mut engine = DbgHelpSymbolEngine::new(fake());
    engine.initialize(1234, None, None, None).unwrap();
    let frames = engine.walk_stack(1).unwrap();
    assert_eq!(frames.len(), 2);
    assert_eq!(frames[0].return_address, 0x40_1000);
    assert_eq!(frames[0].symbol.as_ref().unwrap().name, "main");
    assert_eq!(frames[0].symbol.as_ref().unwrap().module, "0x400000");
    assert_eq!(frames[0].symbol.as_ref().unwrap().line, Some(12));
    assert_eq!(frames[1].frame_number, 1);
    assert_eq!(frames[1].return_address, 0x40_2000);
    assert_eq!(frames[1].frame_pointer, 0x10_0040);
    assert!(frames[1].symbol.is_none());
    match engine.walk_stack(2) {
        Err(DebugError::Win32Error { code, message }) => {
            assert_eq!(code, 6);
            assert_eq!(message, "OpenThread failed for TID 2");
        }
        _ => panic!("expected an error"),
    }
}

#[test]
fn engine_reports_open_and_unload_failures() {
    let mut engine = DbgHelpSymbolEngine::new(fake());
    match engine.initialize(0, None, None, None) {
        Err(DebugError::Win32Error { code, message }) => {
            assert_eq!(code, 87);
            assert_eq!(message, "OpenProcess failed for PID 0");
        }
        _ => panic!("expected an error"),
    }
    engine.initialize(9, Some(r"\\?\C:\app\app.exe"), Some(0x40_0000), None).unwrap();
    assert_eq!(engine.main_module_base, Some(0x40_0000));
    match engine.unload_module(0x40_0000) {
        Err(DebugError::Win32Error { code, message }) => {
            assert_eq!(code, 5);
            assert_eq!(message, "SymUnloadModule64 failed");
        }
        _ => panic!("expected an error"),
    }
    assert_eq!(engine.resolve_by_name("anything").unwrap(), vec![0x7000]);
    engine.cleanup().unwrap();
    assert_eq!(engine.process_handle, 0);
}

#[test]
fn wide_strings_are_nul_terminated_utf16() {
    assert_eq!(to_wide("ab"), vec![97, 98, 0]);
    assert_eq!(to_wide("é"), vec![0xe9, 0]);
}

#[test]
fn pdb_lies_beside_the_image() {
    assert_eq!(pdb_path_for("build/app.exe"), Some("build/app.pdb".to_string()));
    assert_eq!(pdb_path_for("app.exe"), Some("app.pdb".to_string()));
}

#[test]
fn bytes_that_are_no_pdb_give_no_table() {
    assert!(load_pdb_table(vec![0u8; 64], 0x40_0000).is_none());
    assert!(load_pdb_table(Vec::new(), 0).is_none());
}

#[test]
fn engine_reports_module_load_failure_with_its_code() {
    let mut engine = DbgHelpSymbolEngine::new(fake());
    engine.initialize(9, None, None, None).unwrap();
    assert_eq!(engine.main_module_base, None);
    match engine.load_module(0, "C:\\app\\dep.dll") {
        Err(DebugError::Win32Error { code, message }) => {
            assert_eq!(code, 5);
            assert_eq!(message, "SymLoadModuleExW failed for C:\\app\\dep.dll");
        }
        _ => panic!("expected an error"),
    }
    assert!(engine.load_module(0x50_0000, "dep.dll").is_ok());
}

#[test]
fn wide_strings_use_surrogate_pairs_above_the_basic_plane() {
    assert_eq!(to_wide("a\u{1F600}"), vec![0x61, 0xD83D, 0xDE00, 0]);
}

#[test]
fn frame_chain_steps_only_on_a_valid_link() {
    assert_eq!(next_frame(0x10_0000, Some(0x10_0040), Some(0x40_2000)), Some((0x10_0040, 0x40_2000)));
    assert_eq!(next_frame(0x10_0000, Some(0x10_0041), Some(0x40_2000)), None);
    assert_eq!(next_frame(0x10_0000, Some(0x10_0040), Some(0x10)), None);
    assert_eq!(next_frame(0x10_0000, None, Some(0x40_2000)), None);
}
