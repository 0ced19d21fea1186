use transputer::mem::{Mem, DRAM_SIZE};
use transputer::proc::Proc;

fn machine_at(workspace: i32) -> Proc {
    let mut proc = Proc::new(Mem::new(DRAM_SIZE));
    proc.set_workspace_pointer(workspace);
    proc
}

#[test]
fn ldc() {
    let mut proc = machine_at(0x1000);

    let _ = proc.step(0x42);
    let _ = proc.step(0xD0);

    let m = proc.mem_reference();
    assert_eq!(m.read(0x1000), 0x2);
}

#[test]
fn pfix() {
    let mut proc = machine_at(0x1000);

    let _ = proc.step(0x24);
    let _ = proc.step(0x23);
    let _ = proc.step(0x42);
    let _ = proc.step(0xD0);
    let m = proc.mem_reference();
    assert_eq!(m.read(0x1000), 0x432);
}

#[test]
fn adc() {
    let mut proc = machine_at(0x1000);

    let _ = proc.step(0x46);
    let _ = proc.step(0x83);
    let _ = proc.step(0xD0);

    let m = proc.mem_reference();
    assert_eq!(m.read(0x1000), 0x9);
}

#[test]
fn ldlp() {
    let mut proc = machine_at(0x1000);

    // puts stack pointer + 4*operand
    let _ = proc.step(0x12);
    let _ = proc.step(0xD0);

    let m = proc.mem_reference();
    assert_eq!(m.read(0x1000), 0x1008);
}
