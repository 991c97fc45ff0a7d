use rde::budget::FormatBudget;
use rde::printers::{built_in_registry, pretty_print_value, OptionPrinter, PrettyPrinter, StringPrinter, VecPrinter};
use rde::repl::MemoryBytesReader;
use rde::types::PrettyValue;
use std::time::Instant;

/// Memory of the debuggee: reads past the end yield zeros, reads running
/// past it are cut at the end.
struct MockReader;

impl MockReader {
    fn with(data: Vec<u8>) -> MemoryBytesReader {
        MemoryBytesReader::new(data)
    }
}

#[test]
fn test_option_none() {
    let reader = MockReader::with(vec![0u8; 8]);
    let printer = OptionPrinter;
    let mut budget = FormatBudget::default();
    let value = printer.format(&reader, 0, &mut budget).unwrap();
    assert_eq!(value, PrettyValue::Enum { name: "None".to_string(), payload: None });
}

#[test]
fn test_option_some() {
    let reader = MockReader::with(vec![1u8; 8]);
    let printer = OptionPrinter;
    let mut budget = FormatBudget::default();
    let value = printer.format(&reader, 0, &mut budget).unwrap();
    assert_eq!(
        value,
        PrettyValue::Enum {
            name: "Some".to_string(),
            payload: Some(Box::new(PrettyValue::Raw("(value at 0x1)".to_string()))),
        }
    );
}

#[test]
fn test_string_hello() {
    let mut data = vec![0u8; 64];
    let text = b"hello";
    let ptr = 32usize;
    data[0..8].copy_from_slice(&ptr.to_le_bytes());
    data[8..16].copy_from_slice(&text.len().to_le_bytes());
    data[ptr..ptr + text.len()].copy_from_slice(text);
    let reader = MockReader::with(data);
    let printer = StringPrinter;
    let mut budget = FormatBudget::default();
    let value = printer.format(&reader, 0, &mut budget).unwrap();
    assert_eq!(value, PrettyValue::Scalar("\"hello\"".to_string()));
}

#[test]
fn test_vec_empty() {
    let reader = MockReader::with(vec![0u8; 24]);
    let printer = VecPrinter;
    let mut budget = FormatBudget::default();
    let value = printer.format(&reader, 0, &mut budget).unwrap();
    assert_eq!(value, PrettyValue::Sequence(vec![]));
}

#[test]
fn test_vec_three_elements() {
    let mut data = vec![0u8; 64];
    data[0..8].copy_from_slice(&32usize.to_le_bytes());
    data[8..16].copy_from_slice(&3usize.to_le_bytes());
    data[32..35].copy_from_slice(&[10, 20, 30]);
    let reader = MockReader::with(data);
    let printer = VecPrinter;
    let mut budget = FormatBudget::default();
    let value = printer.format(&reader, 0, &mut budget).unwrap();
    assert_eq!(
        value,
        PrettyValue::Sequence(vec![
            PrettyValue::Scalar("10".to_string()),
            PrettyValue::Scalar("20".to_string()),
            PrettyValue::Scalar("30".to_string()),
        ])
    );
}

#[test]
fn test_pretty_print_vec_end_to_end() {
    let mut mem = vec![0u8; 64];
    mem[0..8].copy_from_slice(&32usize.to_le_bytes());
    mem[8..16].copy_from_slice(&3usize.to_le_bytes());
    mem[32..35].copy_from_slice(&[10, 20, 30]);

    let reader = MockReader::with(mem);
    let registry = built_in_registry();
    let mut budget = FormatBudget::default();

    let printer = registry.lookup("std::vec::Vec").expect("Vec printer registered");
    let value = printer.format(&reader, 0, &mut budget).unwrap();

    assert_eq!(
        value,
        PrettyValue::Sequence(vec![
            PrettyValue::Scalar("10".to_string()),
            PrettyValue::Scalar("20".to_string()),
            PrettyValue::Scalar("30".to_string()),
        ])
    );
}

#[test]
fn bench_vec_100_elements() {
    let mut mem = vec![0u8; 1024];
    let ptr = 128usize;
    let len = 100usize;
    mem[0..8].copy_from_slice(&ptr.to_le_bytes());
    mem[8..16].copy_from_slice(&len.to_le_bytes());
    for i in 0..len {
        mem[ptr + i] = (i % 256) as u8;
    }

    let reader = MockReader::with(mem);
    let registry = built_in_registry();
    let mut budget = FormatBudget::default();
    let printer = registry.lookup("std::vec::Vec").unwrap();

    let start = Instant::now();
    let _value = printer.format(&reader, 0, &mut budget).unwrap();
    let elapsed = start.elapsed();

    println!("Vec<100> pretty-print: {:?}", elapsed);
    assert!(elapsed.as_secs_f64() < 1.0, "Pretty-print took too long: {:?}", elapsed);
}

#[test]
fn bench_nested_option_vec() {
    let mut mem = vec![0u8; 512];
    let ptr = 64usize;
    let len = 10usize;
    mem[0..8].copy_from_slice(&ptr.to_le_bytes());
    mem[8..16].copy_from_slice(&len.to_le_bytes());
    for i in 0..len {
        mem[ptr + i] = (i % 256) as u8;
    }

    let reader = MockReader::with(mem);
    let registry = built_in_registry();
    let mut budget = FormatBudget::default();
    let printer = registry.lookup("std::vec::Vec").unwrap();

    let start = Instant::now();
    let _value = printer.format(&reader, 0, &mut budget).unwrap();
    let elapsed = start.elapsed();

    println!("Nested Vec<10> pretty-print: {:?}", elapsed);
    assert!(elapsed.as_secs_f64() < 1.0, "Pretty-print took too long: {:?}", elapsed);
}

#[test]
fn pretty_print_value_uses_the_registered_printer() {
    let reader = MockReader::with(vec![0u8; 8]);
    let mut budget = FormatBudget::default();
    let value = pretty_print_value(&reader, 0, "std::option::Option", &mut budget).unwrap();
    assert_eq!(value, PrettyValue::Enum { name: "None".to_string(), payload: None });
    let mut budget = FormatBudget::default();
    let raw = pretty_print_value(&reader, 0, "my::Thing", &mut budget).unwrap();
    assert_eq!(raw, PrettyValue::Raw("No pretty printer for type: my::Thing".to_string()));
}
