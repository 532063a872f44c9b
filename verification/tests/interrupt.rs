use redox_kernel::interrupt::{acknowledge, kernel, Fault, Interrupt, Regs};
use redox_kernel::scheduler::context::ContextStatus;
use redox_kernel::scheduler::table::{context_switch, ContextTable};

#[test]
fn the_timer_the_devices_and_the_calls() {
    assert_eq!(kernel(0x20), Interrupt::Timer);
    assert_eq!(kernel(0x21), Interrupt::Irq(0x1));
    assert_eq!(kernel(0x23), Interrupt::Irq(0x3));
    assert_eq!(kernel(0x24), Interrupt::Irq(0x4));
    assert_eq!(kernel(0x28), Interrupt::Irq(0x8));
    assert_eq!(kernel(0x2C), Interrupt::Irq(0xC));
    assert_eq!(kernel(0x2F), Interrupt::Irq(0xF));
    assert_eq!(kernel(0x80), Interrupt::Syscall);
    assert_eq!(kernel(0xFF), Interrupt::Init);
}

#[test]
fn the_exceptions_of_the_processor() {
    assert_eq!(kernel(0x0), Interrupt::Exception(Fault::DivideByZero));
    assert_eq!(kernel(0x6), Interrupt::Exception(Fault::InvalidOpcode));
    assert_eq!(kernel(0x8), Interrupt::Exception(Fault::DoubleFault));
    assert_eq!(kernel(0xD), Interrupt::Exception(Fault::GeneralProtection));
    assert_eq!(kernel(0xE), Interrupt::Exception(Fault::PageFault));
    assert_eq!(kernel(0x1E), Interrupt::Exception(Fault::Security));
    // The cascade of the second controller and what lies between are unknown.
    for interrupt in [0x9usize, 0xF, 0x15, 0x1F, 0x22, 0x30, 0x81, 0x100, usize::MAX] {
        assert_eq!(kernel(interrupt), Interrupt::Exception(Fault::Unknown));
    }
}

#[test]
fn names_and_error_codes_of_the_exceptions() {
    assert_eq!(Fault::DivideByZero.name(), "Divide by zero exception");
    assert_eq!(Fault::PageFault.name(), "Page fault");
    assert_eq!(Fault::FloatingPoint.name(), "x87 floating-point exception");
    assert_eq!(Fault::Unknown.name(), "Unknown Interrupt");
    let with_error = [
        Fault::DoubleFault,
        Fault::InvalidTss,
        Fault::SegmentNotPresent,
        Fault::StackSegment,
        Fault::GeneralProtection,
        Fault::PageFault,
        Fault::AlignmentCheck,
        Fault::Security,
    ];
    for fault in with_error {
        assert!(fault.has_error());
    }
    for fault in [Fault::DivideByZero, Fault::Breakpoint, Fault::MachineCheck, Fault::Unknown] {
        assert!(!fault.has_error());
    }
}

#[test]
fn which_controllers_are_acknowledged() {
    assert_eq!(acknowledge(0x1F), (false, false));
    assert_eq!(acknowledge(0x20), (true, false));
    assert_eq!(acknowledge(0x27), (true, false));
    assert_eq!(acknowledge(0x28), (true, true));
    assert_eq!(acknowledge(0x2F), (true, true));
    assert_eq!(acknowledge(0x30), (false, false));
    assert_eq!(acknowledge(0x80), (false, false));
}

#[test]
fn the_error_code_is_taken_from_below_the_registers() {
    let mut regs = Regs { ip: 0xE0, cs: 0x1000, flags: 0x08, sp: 0x202, ss: 0x7000 };
    assert_eq!(regs.take_error(), 0xE0);
    assert_eq!(regs, Regs { ip: 0x1000, cs: 0x08, flags: 0x202, sp: 0x7000, ss: 0 });
}

fn two_units() -> ContextTable {
    let mut table = ContextTable::new();
    table.add_root(0x9000);
    table.spawn(b"a".to_vec(), 0, &vec![], 0x100_0000);
    table.enable();
    table
}

#[test]
fn exit_marks_the_unit_and_tells_its_parent() {
    let mut table = two_units();
    context_switch(&mut table, false);
    assert_eq!(table.current().unwrap().pid, 1);
    assert!(table.exit(3));
    assert!(table.contexts[1].exited);
    // The parent of a spawned unit has the identifier 0: the idle unit.
    assert_eq!(table.contexts[0].statuses, vec![ContextStatus { pid: 1, status: 3 }]);
    context_switch(&mut table, false);
    assert_eq!(table.current().unwrap().pid, 0);
    context_switch(&mut table, false);
    assert_eq!(table.contexts.len(), 1);
}

#[test]
fn exit_without_a_parent_in_the_table() {
    let mut table = two_units();
    context_switch(&mut table, false);
    table.contexts[1].ppid = 77;
    assert!(table.exit(usize::MAX));
    assert!(table.contexts[1].exited);
    assert!(table.contexts[0].statuses.is_empty());
    let mut off = ContextTable::new();
    assert!(!off.exit(0));
}

#[test]
fn the_idle_unit_halts_when_nobody_was_interrupted() {
    let mut table = two_units();
    assert!(table.may_halt());
    table.contexts[0].interrupted = true;
    assert!(table.may_halt());
    table.contexts[1].interrupted = true;
    assert!(!table.may_halt());
    assert!(ContextTable::new().may_halt());
}

#[test]
fn a_tick_counts_the_slices_used() {
    let mut table = two_units();
    table.tick();
    table.tick();
    assert_eq!(table.contexts[0].slice_total, 2);
    assert_eq!(table.contexts[0].slices, 2);
    table.contexts[0].slices = 0;
    table.contexts[0].slice_total = usize::MAX;
    let outcome = table.tick();
    assert_eq!(outcome.transition.unwrap().to, 1);
    assert_eq!(table.contexts[0].slice_total, usize::MAX);
    assert_eq!(table.find_pid(1), Some(1));
    assert_eq!(table.find_pid(9), None);
}
