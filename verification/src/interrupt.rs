//! What the kernel does with an interrupt: which of them is the timer, a
//! device, a system call or an exception of the processor.

use vstd::prelude::*;

verus! {

/// The first interrupt of a device.
pub const IRQ_BASE: usize = 0x20;

/// The first interrupt of a device on the second controller.
pub const IRQ_SECOND: usize = 0x28;

/// The interrupt behind the last one of a device.
pub const IRQ_END: usize = 0x30;

/// The interrupt of a system call.
pub const SYSCALL_INTERRUPT: usize = 0x80;

/// The interrupt that starts the kernel.
pub const INIT_INTERRUPT: usize = 0xFF;

/// An exception of the processor.
#[derive(Clone, Copy, Debug, PartialEq, Eq, Structural)]
pub enum Fault {
    DivideByZero,
    Debug,
    NonMaskable,
    Breakpoint,
    Overflow,
    BoundRange,
    InvalidOpcode,
    DeviceNotAvailable,
    DoubleFault,
    InvalidTss,
    SegmentNotPresent,
    StackSegment,
    GeneralProtection,
    PageFault,
    FloatingPoint,
    AlignmentCheck,
    MachineCheck,
    Simd,
    Virtualization,
    Security,
    /// An interrupt that the kernel does not know.
    Unknown,
}

/// What an interrupt asks of the kernel.
#[derive(Clone, Copy, Debug, PartialEq, Eq, Structural)]
pub enum Interrupt {
    /// The timer has ticked: the clocks go on, and the current unit loses a
    /// slice.
    Timer,
    /// A device asks for attention: the schemes are told of its number.
    Irq(u8),
    /// A system call.
    Syscall,
    /// The kernel is to start.
    Init,
    /// The processor has raised an exception: the current unit is ended.
    Exception(Fault),
}

/// The registers that the processor has pushed at an interrupt.
#[derive(Clone, Copy, Debug, PartialEq, Eq, Structural)]
pub struct Regs {
    pub ip: usize,
    pub cs: usize,
    pub flags: usize,
    pub sp: usize,
    pub ss: usize,
}

/// The number of the device behind the interrupt `interrupt`, for the
/// interrupts that the schemes are told of: every device but the timer and
/// the cascade of the second controller.
pub open spec fn spec_irq(interrupt: usize) -> Option<u8> {
    if IRQ_BASE < interrupt < IRQ_END && interrupt != IRQ_BASE + 2 {
        Some((interrupt - IRQ_BASE) as u8)
    } else {
        None
    }
}

/// The exception behind the interrupt `interrupt`.
pub open spec fn spec_fault(interrupt: usize) -> Fault {
    if interrupt == 0x0 {
        Fault::DivideByZero
    } else if interrupt == 0x1 {
        Fault::Debug
    } else if interrupt == 0x2 {
        Fault::NonMaskable
    } else if interrupt == 0x3 {
        Fault::Breakpoint
    } else if interrupt == 0x4 {
        Fault::Overflow
    } else if interrupt == 0x5 {
        Fault::BoundRange
    } else if interrupt == 0x6 {
        Fault::InvalidOpcode
    } else if interrupt == 0x7 {
        Fault::DeviceNotAvailable
    } else if interrupt == 0x8 {
        Fault::DoubleFault
    } else if interrupt == 0xA {
        Fault::InvalidTss
    } else if interrupt == 0xB {
        Fault::SegmentNotPresent
    } else if interrupt == 0xC {
        Fault::StackSegment
    } else if interrupt == 0xD {
        Fault::GeneralProtection
    } else if interrupt == 0xE {
        Fault::PageFault
    } else if interrupt == 0x10 {
        Fault::FloatingPoint
    } else if interrupt == 0x11 {
        Fault::AlignmentCheck
    } else if interrupt == 0x12 {
        Fault::MachineCheck
    } else if interrupt == 0x13 {
        Fault::Simd
    } else if interrupt == 0x14 {
        Fault::Virtualization
    } else if interrupt == 0x1E {
        Fault::Security
    } else {
        Fault::Unknown
    }
}

/// What the interrupt `interrupt` asks of the kernel.
pub open spec fn spec_kernel(interrupt: usize) -> Interrupt {
    if interrupt == IRQ_BASE {
        Interrupt::Timer
    } else if spec_irq(interrupt) is Some {
        Interrupt::Irq(spec_irq(interrupt)->0)
    } else if interrupt == SYSCALL_INTERRUPT {
        Interrupt::Syscall
    } else if interrupt == INIT_INTERRUPT {
        Interrupt::Init
    } else {
        Interrupt::Exception(spec_fault(interrupt))
    }
}

/// The processor pushes an error code with the exception `fault`.
pub open spec fn spec_has_error(fault: Fault) -> bool {
    fault == Fault::DoubleFault || fault == Fault::InvalidTss || fault == Fault::SegmentNotPresent
        || fault == Fault::StackSegment || fault == Fault::GeneralProtection || fault
        == Fault::PageFault || fault == Fault::AlignmentCheck || fault == Fault::Security
}

/// Tells which interrupt controllers are to be told that the interrupt was
/// taken: the first for every interrupt of a device, the second as well for
/// the devices behind it.
pub fn acknowledge(interrupt: usize) -> (r: (bool, bool))
    ensures
        r.0 == (IRQ_BASE <= interrupt < IRQ_END),
        r.1 == (IRQ_SECOND <= interrupt < IRQ_END),
{
    (
        interrupt >= IRQ_BASE && interrupt < IRQ_END,
        interrupt >= IRQ_SECOND && interrupt < IRQ_END,
    )
}

/// Tells what the interrupt `interrupt` asks of the kernel.
pub fn kernel(interrupt: usize) -> (r: Interrupt)
    ensures
        r == spec_kernel(interrupt),
{
    if interrupt == IRQ_BASE {
        Interrupt::Timer
    } else if interrupt > IRQ_BASE && interrupt < IRQ_END && interrupt != IRQ_BASE + 2 {
        Interrupt::Irq((interrupt - IRQ_BASE) as u8)
    } else if interrupt == SYSCALL_INTERRUPT {
        Interrupt::Syscall
    } else if interrupt == INIT_INTERRUPT {
        Interrupt::Init
    } else {
        Interrupt::Exception(
            match interrupt {
                0x0 => Fault::DivideByZero,
                0x1 => Fault::Debug,
                0x2 => Fault::NonMaskable,
                0x3 => Fault::Breakpoint,
                0x4 => Fault::Overflow,
                0x5 => Fault::BoundRange,
                0x6 => Fault::InvalidOpcode,
                0x7 => Fault::DeviceNotAvailable,
                0x8 => Fault::DoubleFault,
                0xA => Fault::InvalidTss,
                0xB => Fault::SegmentNotPresent,
                0xC => Fault::StackSegment,
                0xD => Fault::GeneralProtection,
                0xE => Fault::PageFault,
                0x10 => Fault::FloatingPoint,
                0x11 => Fault::AlignmentCheck,
                0x12 => Fault::MachineCheck,
                0x13 => Fault::Simd,
                0x14 => Fault::Virtualization,
                0x1E => Fault::Security,
                _ => Fault::Unknown,
            },
        )
    }
}

impl Fault {
    /// Tells whether the processor pushes an error code with the exception.
    pub fn has_error(&self) -> (r: bool)
        ensures
            r == spec_has_error(*self),
    {
        match self {
            Fault::DoubleFault
            | Fault::InvalidTss
            | Fault::SegmentNotPresent
            | Fault::StackSegment
            | Fault::GeneralProtection
            | Fault::PageFault
            | Fault::AlignmentCheck
            | Fault::Security => true,
            _ => false,
        }
    }

    /// The name of the exception.
    pub fn name(&self) -> (r: &'static str)
        ensures
            r@ == (match *self {
                Fault::DivideByZero => "Divide by zero exception"@,
                Fault::Debug => "Debug exception"@,
                Fault::NonMaskable => "Non-maskable interrupt"@,
                Fault::Breakpoint => "Breakpoint exception"@,
                Fault::Overflow => "Overflow exception"@,
                Fault::BoundRange => "Bound range exceeded exception"@,
                Fault::InvalidOpcode => "Invalid opcode exception"@,
                Fault::DeviceNotAvailable => "Device not available exception"@,
                Fault::DoubleFault => "Double fault"@,
                Fault::InvalidTss => "Invalid TSS exception"@,
                Fault::SegmentNotPresent => "Segment not present exception"@,
                Fault::StackSegment => "Stack-segment fault"@,
                Fault::GeneralProtection => "General protection fault"@,
                Fault::PageFault => "Page fault"@,
                Fault::FloatingPoint => "x87 floating-point exception"@,
                Fault::AlignmentCheck => "Alignment check exception"@,
                Fault::MachineCheck => "Machine check exception"@,
                Fault::Simd => "SIMD floating-point exception"@,
                Fault::Virtualization => "Virtualization exception"@,
                Fault::Security => "Security exception"@,
                Fault::Unknown => "Unknown Interrupt"@,
            }),
    {
        match self {
            Fault::DivideByZero => "Divide by zero exception",
            Fault::Debug => "Debug exception",
            Fault::NonMaskable => "Non-maskable interrupt",
            Fault::Breakpoint => "Breakpoint exception",
            Fault::Overflow => "Overflow exception",
            Fault::BoundRange => "Bound range exceeded exception",
            Fault::InvalidOpcode => "Invalid opcode exception",
            Fault::DeviceNotAvailable => "Device not available exception",
            Fault::DoubleFault => "Double fault",
            Fault::InvalidTss => "Invalid TSS exception",
            Fault::SegmentNotPresent => "Segment not present exception",
            Fault::StackSegment => "Stack-segment fault",
            Fault::GeneralProtection => "General protection fault",
            Fault::PageFault => "Page fault",
            Fault::FloatingPoint => "x87 floating-point exception",
            Fault::AlignmentCheck => "Alignment check exception",
            Fault::MachineCheck => "Machine check exception",
            Fault::Simd => "SIMD floating-point exception",
            Fault::Virtualization => "Virtualization exception",
            Fault::Security => "Security exception",
            Fault::Unknown => "Unknown Interrupt",
        }
    }
}

impl Regs {
    /// Takes the error code that the processor has pushed below the
    /// registers: each register moves one place down, and the last is
    /// cleared. Returns the error code.
    pub fn take_error(&mut self) -> (error: usize)
        ensures
            error == old(self).ip,
            *final(self) == (Regs {
                ip: old(self).cs,
                cs: old(self).flags,
                flags: old(self).sp,
                sp: old(self).ss,
                ss: 0,
            }),
    {
        let error = self.ip;
        self.ip = self.cs;
        self.cs = self.flags;
        self.flags = self.sp;
        self.sp = self.ss;
        self.ss = 0;
        error
    }
}

} // verus!
