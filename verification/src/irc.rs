//! Interrupt controller services of the kernel, on a PL390.
use crate::pl390::{bit, Pl390, ICDICER, ICDIPR, ICDISER};
use crate::register::RegisterWrite;
use vstd::prelude::*;

verus! {

/// Enables interrupt `intno` at the controller.
pub fn interrupt_enable(controller: &Pl390, intno: usize) -> (w: RegisterWrite)
    requires
        controller.icd + ICDISER + 4 * (intno / 32) <= usize::MAX,
    ensures
        w == (RegisterWrite::Word {
            address: (controller.icd + ICDISER + 4 * (intno / 32)) as usize,
            value: bit((intno % 32) as u32),
        }),
{
    controller.interrupt_enable(intno)
}

/// Disables interrupt `intno` at the controller.
pub fn interrupt_disable(controller: &Pl390, intno: usize) -> (w: RegisterWrite)
    requires
        controller.icd + ICDICER + 4 * (intno / 32) <= usize::MAX,
    ensures
        w == (RegisterWrite::Word {
            address: (controller.icd + ICDICER + 4 * (intno / 32)) as usize,
            value: bit((intno % 32) as u32),
        }),
{
    controller.interrupt_disable(intno)
}

/// Sets the priority of interrupt `intno` at the controller.
pub fn interrupt_set_priority(controller: &Pl390, intno: usize, pri: u8) -> (w: RegisterWrite)
    requires
        controller.icd + ICDIPR + intno <= usize::MAX,
    ensures
        w == (RegisterWrite::Byte { address: (controller.icd + ICDIPR + intno) as usize, value: pri }),
{
    controller.interrupt_set_priority(intno, pri)
}

} // verus!
