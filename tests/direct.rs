use transputer::mem::{Mem, ADDRESS_SPACE};
use transputer::proc::{DirectOp, Flag, Proc};

fn memory() -> Mem {
    Mem::new(ADDRESS_SPACE)
}

#[test]
fn test_load_constant() {
    let mut p = Proc::new(memory());
    assert!(p.peek(0) == 0);
    let _ = p.run(DirectOp::LDC, 5);
    assert!(p.peek(0) == 5);
    assert!(p.peek(1) == 0);
    assert!(p.peek(2) == 0);
    let _ = p.run(DirectOp::LDC, 10);
    assert!(p.peek(0) == 10);
    assert!(p.peek(1) == 5);
    assert!(p.peek(2) == 0);
}

#[test]
fn test_add_constant() {
    let mut p = Proc::new(memory());

    // standard addition
    assert!(p.peek(0) == 0);
    p.poke(0, 5);
    let _ = p.run(DirectOp::LDC, 6);
    let _ = p.run(DirectOp::ADC, 3);
    assert!(p.peek(0) == 9);
    assert!(p.peek(1) == 5);

    // Overflow
    p.poke(0, 2_147_483_647);
    let _ = p.run(DirectOp::ADC, 3);
    assert!(p.flag(Flag::ERROR));
}

#[test]
fn test_load_local() {
    let mut m = memory();
    m.write(4, 9);
    m.write(8, 11);
    m.write(12, 13);

    let mut p = Proc::new(m);
    p.set_workspace_pointer(4);

    let _ = p.run(DirectOp::LDL, 0);
    assert!(p.peek(0) == 9);

    let _ = p.run(DirectOp::LDL, 1);
    assert!(p.peek(0) == 11);
    assert!(p.peek(1) == 9);

    let _ = p.run(DirectOp::LDL, 2);
    assert!(p.peek(0) == 13);
    assert!(p.peek(1) == 11);
    assert!(p.peek(2) == 9);
}

#[test]
fn test_store_local() {
    let mut m = memory();
    m.write(8, 10);
    m.write(12, 11);
    m.write(16, 13);

    let mut p = Proc::new(m);
    p.set_workspace_pointer(8);

    p.poke(0, 15);
    let _ = p.run(DirectOp::STL, 0);
    assert!(p.mem().read(8) == 15);

    let _ = p.run(DirectOp::STL, 1);
    assert!(p.mem().read(12) == 15);
}

#[test]
fn test_load_local_pointer() {
    let mut p = Proc::new(memory());

    p.set_workspace_pointer(1000);
    let _ = p.run(DirectOp::LDLP, 0);
    assert!(p.peek(0) == 1000);

    let _ = p.run(DirectOp::LDLP, 1);
    assert!(p.peek(0) == 1004);
    assert!(p.peek(1) == 1000);
}

#[test]
fn test_load_non_local() {
    let mut m = memory();
    m.write(0x10004000, 5);
    m.write(0x10004004, 7);
    let mut p = Proc::new(m);

    p.poke(0, 0x10004000);
    p.poke(1, 20);

    let _ = p.run(DirectOp::LDNL, 0);
    assert!(p.peek(0) == 5);
    assert!(p.peek(1) == 20);

    p.poke(0, 0x10004000);
    let _ = p.run(DirectOp::LDNL, 1);
    assert!(p.peek(0) == 7);
    assert!(p.peek(1) == 20);
}

#[test]
fn test_store_non_local() {
    let mut p = Proc::new(memory());

    p.poke(0, 0x10004000);
    p.poke(1, 20);

    let _ = p.run(DirectOp::STNL, 0);
    assert!(p.peek(0) == 0x10004000);
    assert!(p.mem().read(0x10004000) == 20);

    p.poke(0, 0x10004000);
    p.poke(1, 15);

    let _ = p.run(DirectOp::STNL, 1);
    assert!(p.peek(0) == 0x10004000);
    assert!(p.mem().read(0x10004004) == 15);
}

#[test]
fn test_load_non_local_pointer() {
    let mut p = Proc::new(memory());

    p.poke(0, 8);
    p.poke(1, 10);
    let _ = p.run(DirectOp::LDNLP, 1);
    assert!(p.peek(0) == 12);
    assert!(p.peek(1) == 10);
}
