use rde::breakpoint::BreakpointManager;
use rde::budget::FormatBudget;
use rde::printers::{BuiltinPrinter, PrinterRegistry};
use rde::repl::parse;
use rde::types::EngineCommand;

#[test]
fn spacing_does_not_change_a_parse() {
    assert!(matches!(parse("  c "), Ok(EngineCommand::Continue)));
    assert!(matches!(
        parse("x  0x10\t8"),
        Ok(EngineCommand::ReadMemory { address: 0x10, size: 8, expression: None })
    ));
    assert_eq!(parse("x 0x10 8").is_ok(), parse(" x\t0x10   8 ").is_ok());
    assert_eq!(parse("frobnicate  now").unwrap_err(), parse("frobnicate now").unwrap_err());
}

#[test]
fn successive_byte_takes_stay_within_the_budget() {
    let mut b = FormatBudget::new(4, 10, 100);
    let first = b.take_bytes(70);
    let second = b.take_bytes(50);
    assert_eq!(first, 70);
    assert_eq!(second, 30);
    assert_eq!(first + second, 100);
    assert_eq!(b.take_bytes(1), 0);
}

#[test]
fn listed_breakpoints_carry_their_ids() {
    let mut m = BreakpointManager::new();
    let a = m.set(0x1000, 0x55);
    let b = m.set(0x2000, 0x48);
    let c = m.set(0x3000, 0x90);
    m.remove(b).unwrap();
    m.hit(c).unwrap();
    let ids: Vec<u64> = m.list().iter().map(|bp| bp.id).collect();
    assert_eq!(ids, vec![a, c]);
    assert_eq!(m.get(c).unwrap().id, c);
}

#[test]
fn registering_again_replaces_the_printer() {
    let mut r = PrinterRegistry::new();
    r.register("my::Type", BuiltinPrinter::VecPrinter);
    r.register("other::Type", BuiltinPrinter::StringPrinter);
    assert_eq!(r.lookup("my::Type"), Some(&BuiltinPrinter::VecPrinter));
    r.register("my::Type", BuiltinPrinter::OptionPrinter);
    assert_eq!(r.lookup("my::Type"), Some(&BuiltinPrinter::OptionPrinter));
    assert_eq!(r.lookup("other::Type"), Some(&BuiltinPrinter::StringPrinter));
}
