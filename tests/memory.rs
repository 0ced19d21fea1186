use transputer::bits::{bit_count, div_word, normalise_double, rem_word, reverse_low, sign_extend_bits};
use transputer::mem::{Mem, Stack, ADDRESS_SPACE, TERMINAL_OUT};
use transputer::parse::parse_op_from_hex;
use transputer::proc::workspace::WorkspaceCache;
use transputer::proc::{DirectOp, Proc};
use transputer::strings::direct_op_short_name;

#[test]
fn words_are_little_endian() {
    let mut m = Mem::new(0x100);
    m.write(8, 0x1234_5678);
    assert_eq!(m.read_byte(8), 0x78);
    assert_eq!(m.read_byte(11), 0x12);
    assert_eq!(m.read(8), 0x1234_5678);
    assert_eq!(m.read(12), 0);
}

#[test]
fn terminal_bytes_are_sent_out() {
    let mut m = Mem::new(ADDRESS_SPACE);
    m.write_byte(TERMINAL_OUT, b'h');
    m.write_byte(TERMINAL_OUT, b'i');
    assert_eq!(m.read_byte(TERMINAL_OUT), 0);
    assert_eq!(m.take_output(), vec![b'h', b'i']);
    assert_eq!(m.take_output(), Vec::<u8>::new());
}

#[test]
fn validity_of_addresses() {
    let m = Mem::new(0x100);
    assert!(m.is_valid(0xFF));
    assert!(!m.is_valid(0x100));
    assert!(m.is_word_valid(0xFC));
    assert!(!m.is_word_valid(0xFD));
    assert!(m.is_word_valid(0x1000_0008));
}

#[test]
fn stack_pop_keeps_c() {
    let mut s = Stack::new();
    s.push(1);
    s.push(2);
    s.push(3);
    assert_eq!((s.a(), s.b(), s.c()), (3, 2, 1));
    assert_eq!(s.pop(), 3);
    assert_eq!((s.a(), s.b(), s.c()), (2, 1, 1));
    s.swap();
    assert_eq!((s.get(0), s.get(1), s.get(2)), (1, 2, 1));
    s.set(2, 9);
    assert_eq!(s.c(), 9);
}

#[test]
fn workspace_slots() {
    let mut w = WorkspaceCache::new(Mem::new(0x1000));
    w.set_iptr(0x100, 77);
    w.set_link(0x100, 0x201);
    w.set_time(0x100, -5);
    w.set_guard_offset(0x100, -1);
    w.set_state(0x100, 3);
    w.set_tlink(0x100, 4);
    assert_eq!(w.get_iptr(0x100), 77);
    assert_eq!(w.get_link(0x100), 0x201);
    assert_eq!(w.get_time(0x100), -5);
    assert_eq!(w.get_guard_offset(0x100), -1);
    assert_eq!(w.get_state(0x100), 3);
    assert_eq!(w.get_tlink(0x100), 4);
    assert_eq!(w.mem().read(0x100 - 4), 77);
}

#[test]
fn instruction_bytes_split() {
    assert_eq!(parse_op_from_hex(0x42), (DirectOp::LDC, 2));
    assert_eq!(parse_op_from_hex(0xF7), (DirectOp::OPR, 7));
    assert_eq!(parse_op_from_hex(0x0A), (DirectOp::JUMP, 10));
    assert_eq!(direct_op_short_name(DirectOp::LDNLP), "ldnlp");
    assert_eq!(direct_op_short_name(DirectOp::JUMP), "jump");
}

#[test]
fn word_arithmetic() {
    assert_eq!(bit_count(0xFFFF_FFFF), 32);
    assert_eq!(bit_count(0b1011), 3);
    assert_eq!(reverse_low(1, 32), 0x8000_0000);
    assert_eq!(reverse_low(0b1101_0011, 4), 0b1101_1100);
    assert_eq!(sign_extend_bits(0xFF, 8), -1);
    assert_eq!(sign_extend_bits(0x7F, 8), 127);
    assert_eq!(div_word(-7, 2), -3);
    assert_eq!(rem_word(-7, 2), -1);
    assert_eq!(rem_word(7, -2), 1);
    assert_eq!(normalise_double(1, 0), (0, i32::MIN, 31));
    assert_eq!(normalise_double(0, 0), (0, 0, 64));
}

#[test]
fn secondary_table_names() {
    let p = Proc::new(Mem::new(0x100));
    let ops = p.get_indirect_ops();
    assert!(ops.contains(&("rev".to_string(), 0x00)));
    assert!(ops.contains(&("bitrevword".to_string(), 0x77)));
    assert!(ops.contains(&("and".to_string(), 0x46)));
}

#[test]
fn terminal_works_with_little_ram() {
    let mut m = Mem::new(0x100);
    assert!(m.is_valid(TERMINAL_OUT));
    m.write_byte(TERMINAL_OUT, b'x');
    assert_eq!(m.take_output(), vec![b'x']);
}
