use transputer::assembler::{prefix_constant, Assemble};
use transputer::mem::{Mem, ADDRESS_SPACE};
use transputer::proc::{DirectOp, Flag, OpErr, Proc, ProcState};

fn machine() -> Proc {
    Proc::new(Mem::new(ADDRESS_SPACE))
}

#[test]
fn operand_cleared_after_instruction() {
    let mut p = machine();
    let _ = p.run(DirectOp::PFIX, 1);
    let _ = p.run(DirectOp::LDC, 2);
    assert_eq!(p.get_reg(0), 0x12);
    let _ = p.run(DirectOp::LDC, 3);
    assert_eq!(p.get_reg(0), 3);
}

#[test]
fn prefix_then_operand_matches_wide_operand() {
    let mut p = machine();
    let _ = p.run(DirectOp::PFIX, 7);
    let _ = p.run(DirectOp::LDC, 9);
    let mut q = machine();
    let _ = q.run(DirectOp::LDC, (7 << 4) + 9);
    assert_eq!(p.get_reg(0), q.get_reg(0));
    assert_eq!(p.get_reg(0), 0x79);
}

#[test]
fn negative_prefix_load() {
    let mut p = machine();
    let _ = p.run(DirectOp::NFIX, 0);
    let _ = p.run(DirectOp::LDC, 0);
    assert_eq!(p.get_reg(0), (!0i32 << 4) + 0);
    assert_eq!(p.get_reg(0), -16);
    let _ = p.run(DirectOp::NFIX, 3);
    let _ = p.run(DirectOp::LDC, 5);
    assert_eq!(p.get_reg(0), (!3i32 << 4) + 5);
}

#[test]
fn reverse_twice_is_identity() {
    let mut p = machine();
    p.set_reg(0, 1);
    p.set_reg(1, 2);
    p.set_reg(2, 3);
    let _ = p.run(DirectOp::OPR, 0);
    let _ = p.run(DirectOp::OPR, 0);
    assert_eq!(p.get_stack(), vec![1, 2, 3]);
}

#[test]
fn store_then_load_local() {
    let mut p = machine();
    p.set_workspace_pointer(0x2000);
    p.set_reg(0, -77);
    let _ = p.run(DirectOp::STL, 3);
    let _ = p.run(DirectOp::LDL, 3);
    assert_eq!(p.get_reg(0), -77);
    assert_eq!(p.mem().read(0x200C), -77);
}

#[test]
fn load_then_compare_pushes_one() {
    let mut p = machine();
    p.set_reg(0, 42);
    p.set_reg(1, 43);
    let _ = p.run(DirectOp::LDC, 9);
    let _ = p.run(DirectOp::EQC, 9);
    assert_eq!(p.get_stack(), vec![1, 9, 42]);
}

#[test]
fn call_then_return_restores_registers() {
    let mut p = machine();
    p.set_workspace_pointer(0x4000);
    p.set_reg(0, 11);
    p.set_reg(1, 22);
    p.set_reg(2, 33);
    // CALL 5 from instruction 0
    assert_eq!(p.step(0x95), Ok(()));
    assert_eq!(p.program_counter(), 6);
    assert_eq!(p.workspace_pointer(), 0x4000 - 16);
    p.set_reg(0, 0);
    p.set_reg(1, 0);
    p.set_reg(2, 0);
    // RET is PFIX 2; OPR 0
    assert_eq!(p.step(0x22), Ok(()));
    assert_eq!(p.step(0xF0), Ok(()));
    assert_eq!(p.get_stack(), vec![11, 22, 33]);
    assert_eq!(p.program_counter(), 1);
    assert_eq!(p.workspace_pointer(), 0x4000);
}

#[test]
fn assemble_prefixed_constant() {
    assert_eq!(prefix_constant(0x4, 0x432), vec![0x24, 0x23, 0x42]);
    let mut assembler = Assemble::new();
    assembler.setup(&machine());
    assert_eq!(assembler.read_line("ldc 0x432"), Ok(Some(vec![0x24, 0x23, 0x42])));
}

#[test]
fn assembled_constants_load_back() {
    for v in [0, 5, 15, 16, 300, -1, -16, -17, -300, i32::MAX, i32::MIN] {
        let mut p = machine();
        for b in prefix_constant(0x4, v) {
            assert_eq!(p.step(b), Ok(()));
        }
        assert_eq!(p.get_reg(0), v);
    }
}

#[test]
fn negative_constant_encoding() {
    assert_eq!(prefix_constant(0x4, -1), vec![0x60, 0x4F]);
    assert_eq!(prefix_constant(0x4, -31), vec![0x61, 0x41]);
}

#[test]
fn hello_push() {
    let mut p = machine();
    p.set_workspace_pointer(0x1000);
    let _ = p.step(0x42);
    let _ = p.step(0xD0);
    assert_eq!(p.mem().read(0x1000), 2);
}

#[test]
fn prefixed_constant_store() {
    let mut p = machine();
    p.set_workspace_pointer(0x1000);
    for b in [0x24, 0x23, 0x42, 0xD0] {
        let _ = p.step(b);
    }
    assert_eq!(p.mem().read(0x1000), 0x432);
}

#[test]
fn add_with_overflow() {
    let mut p = machine();
    p.set_reg(0, 0x7FFF_FFFF);
    p.set_reg(1, 1);
    p.set_reg(2, 9);
    let _ = p.run(DirectOp::OPR, 0x05);
    assert_eq!(p.get_reg(0), -0x8000_0000);
    assert_eq!(p.get_reg(1), 9);
    assert!(p.flag(Flag::ERROR));
}

#[test]
fn conditional_jump_from_bytes() {
    let mut p = machine();
    for b in [0x41, 0xC1, 0xA4] {
        let _ = p.step(b);
    }
    assert_eq!(p.program_counter(), 3);
    for b in [0x42, 0xC1, 0xA4] {
        let _ = p.step(b);
    }
    assert_eq!(p.program_counter(), 10);
}

#[test]
fn misaligned_word_access_stops_process() {
    let mut p = machine();
    p.set_workspace_pointer(2);
    assert_eq!(p.run(DirectOp::LDL, 0), Err(OpErr::Misaligned));
    assert_eq!(p.state(), ProcState::HALTED);
}

#[test]
fn access_outside_memory_stops_process() {
    let mut p = Proc::new(Mem::new(0x100));
    p.set_workspace_pointer(0x1000);
    assert_eq!(p.run(DirectOp::STL, 0), Err(OpErr::OutOfRange));
    assert_eq!(p.state(), ProcState::HALTED);
}

#[test]
fn unknown_secondary_stops_process() {
    let mut p = machine();
    assert_eq!(p.run(DirectOp::OPR, 7), Err(OpErr::UnknownOp));
    assert_eq!(p.state(), ProcState::HALTED);
    assert!(p.flag(Flag::ERROR));
}

#[test]
fn reserved_secondary_is_refused() {
    let mut p = machine();
    let _ = p.run(DirectOp::PFIX, 4);
    assert_eq!(p.run(DirectOp::OPR, 3), Err(OpErr::Unimplemented));
    assert!(p.flag(Flag::ERROR));
}

#[test]
fn greater_than_pushes_result() {
    let mut p = machine();
    p.set_reg(0, 3);
    p.set_reg(1, 8);
    p.set_reg(2, 1);
    assert_eq!(p.run(DirectOp::OPR, 0x09), Ok(()));
    assert_eq!(p.get_stack(), vec![1, 3, 8]);
    let _ = p.run(DirectOp::OPR, 0x09);
    assert_eq!(p.get_stack(), vec![1, 1, 3]);
    p.set_reg(0, 9);
    let _ = p.run(DirectOp::OPR, 0x09);
    assert_eq!(p.get_stack(), vec![0, 9, 1]);
}

#[test]
fn jump_at_high_priority_keeps_running() {
    let mut p = machine();
    // A high priority workspace preempts the running low priority process.
    p.set_workspace_pointer(0x1000);
    p.set_reg(0, 0x2000);
    assert_eq!(p.run(DirectOp::OPR, 0x39), Ok(()));
    assert_eq!(p.workspace_pointer(), 0x2000);
    let _ = p.run(DirectOp::JUMP, 1);
    assert_eq!(p.state(), ProcState::ACTIVE);
}

#[test]
fn filled_slot_loads_label_value() {
    let mut assembler = Assemble::new();
    assembler.setup(&machine());
    let _ = assembler.read_line("ldc target");
    let _ = assembler.read_line("ldc 0x7FFF");
    let _ = assembler.read_line("target:");
    let program = assembler.finish().unwrap();
    let mut p = machine();
    for b in program {
        assert_eq!(p.step(b), Ok(()));
    }
    assert_eq!(p.get_reg(0), 0x7FFF);
    assert_eq!(p.get_reg(1), 12);
}
