use transputer::assembler::{AsmError, Assemble};
use transputer::mem::{Mem, DRAM_SIZE};
use transputer::proc::Proc;
use transputer::text::{parse_int, tokenize};

fn assembler() -> Assemble {
    let proc = Proc::new(Mem::new(DRAM_SIZE));
    let mut assembler = Assemble::new();
    assembler.setup(&proc);
    assembler
}

#[test]
fn direct_and_secondary_mnemonics() {
    let mut assembler = assembler();
    assert_eq!(assembler.read_line("ldc 2"), Ok(Some(vec![0x42])));
    assert_eq!(assembler.read_line("stl 0"), Ok(Some(vec![0xD0])));
    assert_eq!(assembler.read_line("add"), Ok(Some(vec![0xF5])));
    assert_eq!(assembler.read_line("ret"), Ok(Some(vec![0x22, 0xF0])));
    assert_eq!(assembler.read_line("ldc -1"), Ok(Some(vec![0x60, 0x4F])));
    assert_eq!(assembler.read_line("ldc 300"), Ok(Some(vec![0x21, 0x22, 0x4C])));
}

#[test]
fn labels_record_byte_offsets() {
    let mut assembler = assembler();
    assert_eq!(assembler.read_line("ldc 0x432"), Ok(Some(vec![0x24, 0x23, 0x42])));
    assert_eq!(assembler.read_line("top: ldc 1"), Ok(Some(vec![0x41])));
    assert_eq!(assembler.read_line("j top"), Ok(Some(vec![0x03])));
}

#[test]
fn blank_and_comment_lines_give_nothing() {
    let mut assembler = assembler();
    assert_eq!(assembler.read_line(""), Ok(None));
    assert_eq!(assembler.read_line("   ; only a comment"), Ok(None));
    assert_eq!(assembler.read_line("here:"), Ok(None));
    assert_eq!(assembler.read_line("ldc 1 ; load one"), Ok(Some(vec![0x41])));
}

#[test]
fn assembler_errors() {
    let mut assembler = assembler();
    assert_eq!(assembler.read_line("frobnicate"), Err(AsmError::UnknownMnemonic));
    assert_eq!(assembler.read_line("ldc"), Err(AsmError::MissingOperand));
    assert_eq!(assembler.read_line("j nowhere"), Ok(Some(vec![0x20; 8])));
    assert_eq!(assembler.finish(), Err(AsmError::UnresolvedLabel));
}

#[test]
fn forward_labels_are_filled_in() {
    let mut assembler = assembler();
    assert_eq!(assembler.read_line("cj end"), Ok(Some(vec![0x20; 8])));
    assert_eq!(assembler.read_line("ldc 1"), Ok(Some(vec![0x41])));
    assert_eq!(assembler.read_line("end: ldc 300"), Ok(Some(vec![0x21, 0x22, 0x4C])));
    let mut expected = vec![0x20; 7];
    expected.extend([0xA9, 0x41, 0x21, 0x22, 0x4C]);
    assert_eq!(assembler.finish(), Ok(expected));
}

#[test]
fn forward_label_with_wide_value() {
    let mut assembler = assembler();
    assert_eq!(assembler.read_line("ldc far"), Ok(Some(vec![0x20; 8])));
    assert_eq!(assembler.read_line("ldc 0x12345"), Ok(Some(vec![0x21, 0x22, 0x23, 0x24, 0x45])));
    assert_eq!(assembler.read_line("far:"), Ok(None));
    // far is at offset 13
    assert_eq!(
        assembler.finish(),
        Ok(vec![0x20, 0x20, 0x20, 0x20, 0x20, 0x20, 0x20, 0x4D, 0x21, 0x22, 0x23, 0x24, 0x45])
    );
}

#[test]
fn whole_source_in_two_passes() {
    let mut assembler = assembler();
    let lines = vec![
        "start: ldc 2".to_string(),
        "cj done ; skip the store".to_string(),
        "stl 0".to_string(),
        "done: j start".to_string(),
    ];
    let mut expected = vec![0x42];
    expected.extend(vec![0x20; 7]);
    expected.extend([0xAA, 0xD0, 0x00]);
    assert_eq!(assembler.assemble_source(&lines), Ok(expected));
}

#[test]
fn whole_source_stops_at_first_bad_line() {
    let mut assembler = assembler();
    let lines = vec!["ldc 1".to_string(), "bogus".to_string(), "ldc".to_string()];
    assert_eq!(assembler.assemble_source(&lines), Err(AsmError::UnknownMnemonic));
}

#[test]
fn empty_assembler_knows_no_mnemonics() {
    let mut assembler = Assemble::new();
    assert_eq!(assembler.read_line("ldc 1"), Err(AsmError::UnknownMnemonic));
}

#[test]
fn words_of_a_line() {
    assert_eq!(tokenize("  ldc\t5  ; comment"), vec!["ldc".to_string(), "5".to_string()]);
    assert_eq!(tokenize(";"), Vec::<String>::new());
}

#[test]
fn integer_literals() {
    assert_eq!(parse_int("42"), Some(42));
    assert_eq!(parse_int("-42"), Some(-42));
    assert_eq!(parse_int("0x1F"), Some(31));
    assert_eq!(parse_int("-0x80000000"), Some(i32::MIN));
    assert_eq!(parse_int("2147483648"), None);
    assert_eq!(parse_int("12ab"), None);
    assert_eq!(parse_int("-"), None);
    assert_eq!(parse_int("label"), None);
}
