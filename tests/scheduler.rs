use transputer::mem::{Mem, ADDRESS_SPACE};
use transputer::proc::{DirectOp, Priority, Proc, ProcState, NOT_PROCESS_P};

#[test]
fn low_priority_queue_is_fifo() {
    let mut m = Mem::new(ADDRESS_SPACE);
    m.write(0x2000 - 4, 40);
    let mut p = Proc::new(m);
    p.set_workspace_pointer(0x1000);

    // RUNP a low priority process: it joins the queue
    p.set_reg(0, 0x2001);
    assert_eq!(p.run(DirectOp::OPR, 0x39), Ok(()));
    assert_eq!(p.get_front_pointer(Priority::Low), 0x2000);

    // J deschedules the running process behind it
    assert_eq!(p.run(DirectOp::JUMP, 0), Ok(()));
    assert_eq!(p.state(), ProcState::IDLE);
    assert_eq!(p.mem().read(0x1000 - 4), 2);
    assert_eq!(p.mem().read(0x2000 - 8), 0x1000);

    assert_eq!(p.dispatch(), Ok(()));
    assert_eq!(p.state(), ProcState::ACTIVE);
    assert_eq!(p.workspace_pointer(), 0x2000);
    assert_eq!(p.program_counter(), 40);

    assert_eq!(p.run(DirectOp::JUMP, 0), Ok(()));
    assert_eq!(p.dispatch(), Ok(()));
    assert_eq!(p.workspace_pointer(), 0x1000);
    assert_eq!(p.program_counter(), 2);
}

#[test]
fn preempted_process_resumes_after_high_priority_ends() {
    let mut m = Mem::new(ADDRESS_SPACE);
    m.write(0x3000 - 4, 100);
    m.write(0x5000 + 4, 2);
    let mut p = Proc::new(m);
    p.set_workspace_pointer(0x1000);
    p.set_reg(1, 7);
    p.set_reg(2, 8);

    // RUNP a high priority process: it preempts at once
    p.set_reg(0, 0x3000);
    assert_eq!(p.run(DirectOp::OPR, 0x39), Ok(()));
    assert_eq!(p.priority(), Priority::High);
    assert_eq!(p.workspace_pointer(), 0x3000);
    assert_eq!(p.program_counter(), 100);

    // The high priority process ends without being the last child
    p.set_reg(0, 0x5000);
    assert_eq!(p.run(DirectOp::OPR, 0x03), Ok(()));
    assert_eq!(p.state(), ProcState::IDLE);
    assert_eq!(p.mem().read(0x5000 + 4), 1);

    // The preempted process comes back with its registers
    assert_eq!(p.dispatch(), Ok(()));
    assert_eq!(p.priority(), Priority::Low);
    assert_eq!(p.workspace_pointer(), 0x1000);
    assert_eq!(p.program_counter(), 1);
    assert_eq!(p.get_stack(), vec![7, 8, 8]);
    assert_eq!(p.mem().read(-0x7FFF_FFD4), NOT_PROCESS_P);

    // Nothing is left to run
    assert_eq!(p.run(DirectOp::JUMP, 0), Ok(()));
    assert_eq!(p.dispatch(), Ok(()));
    assert_eq!(p.workspace_pointer(), 0x1000);
}

#[test]
fn start_process_joins_queue_at_callers_priority() {
    let mut p = Proc::new(Mem::new(ADDRESS_SPACE));
    p.set_workspace_pointer(0x1000);
    p.set_reg(0, 0x2000);
    p.set_reg(1, 10);
    let _ = p.run(DirectOp::PFIX, 0);
    assert_eq!(p.run(DirectOp::OPR, 0x0D), Ok(()));
    assert_eq!(p.mem().read(0x2000 - 4), 2 + 10);
    assert_eq!(p.get_front_pointer(Priority::Low), 0x2000);
    assert_eq!(p.get_back_pointer(Priority::Low), 0x2000);
}

#[test]
fn timer_queue_orders_by_wake_time() {
    let mut p = Proc::new(Mem::new(ADDRESS_SPACE));
    p.set_workspace_pointer(0x1000);
    p.set_reg(0, 50);
    let _ = p.run(DirectOp::PFIX, 2);
    assert_eq!(p.run(DirectOp::OPR, 0xB), Ok(()));
    assert_eq!(p.state(), ProcState::WAITING);
    assert_eq!(p.mem().read(0x1000 - 20), 50);
    assert_eq!(p.mem().read(0x1000 - 4), 2);

    p.set_workspace_pointer(0x2000);
    p.set_reg(0, 30);
    let _ = p.run(DirectOp::PFIX, 2);
    assert_eq!(p.run(DirectOp::OPR, 0xB), Ok(()));
    assert_eq!(p.mem().read(0x1000_001C), 0x2000);
    assert_eq!(p.mem().read(0x2000 - 16), 0x1000);
    assert_eq!(p.mem().read(0x1000 - 16), NOT_PROCESS_P);

    assert_eq!(p.timer_tick(Priority::Low, 40), Ok(()));
    assert_eq!(p.mem().read(0x1000_0000), 40);
    assert_eq!(p.mem().read(0x1000_001C), 0x1000);
    assert_eq!(p.get_front_pointer(Priority::Low), 0x2000);

    assert_eq!(p.timer_tick(Priority::Low, 60), Ok(()));
    assert_eq!(p.mem().read(0x1000_001C), NOT_PROCESS_P);
    assert_eq!(p.get_back_pointer(Priority::Low), 0x1000);

    // A time already passed does not wait
    p.set_reg(0, 10);
    let _ = p.run(DirectOp::PFIX, 2);
    assert_eq!(p.run(DirectOp::OPR, 0xB), Ok(()));
    assert_eq!(p.state(), ProcState::ACTIVE);
}

#[test]
fn queued_high_priority_process_preempts() {
    let mut m = Mem::new(ADDRESS_SPACE);
    m.write(0x3000 - 4, 200);
    let mut p = Proc::new(m);
    p.set_workspace_pointer(0x1000);
    // Put a high priority process straight into its queue
    p.set_reg(0, 0x3000);
    let _ = p.run(DirectOp::PFIX, 1);
    assert_eq!(p.run(DirectOp::OPR, 0x8), Ok(()));
    p.set_reg(0, 0x3000);
    let _ = p.run(DirectOp::PFIX, 5);
    assert_eq!(p.run(DirectOp::OPR, 0x0), Ok(()));
    assert_eq!(p.get_front_pointer(Priority::High), 0x3000);
    assert_eq!(p.state(), ProcState::ACTIVE);

    assert_eq!(p.dispatch(), Ok(()));
    assert_eq!(p.priority(), Priority::High);
    assert_eq!(p.workspace_pointer(), 0x3000);
    assert_eq!(p.program_counter(), 200);
    assert_eq!(p.get_front_pointer(Priority::High), NOT_PROCESS_P);
    assert_eq!(p.mem().read(-0x7FFF_FFD4), 0x1001);
}
