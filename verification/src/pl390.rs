//! The register map of the PL390 generic interrupt controller.
//!
//! Each operation computes the register accesses it needs; the caller
//! performs them on the memory-mapped device.
use crate::register::RegisterWrite;
use vstd::prelude::*;

verus! {

/// CPU interface control register.
pub const ICCICR: usize = 0x000;
/// Interrupt priority mask register.
pub const ICCPMR: usize = 0x004;
/// Binary point register.
pub const ICCBPR: usize = 0x008;
/// Interrupt acknowledge register.
pub const ICCIAR: usize = 0x00C;
/// End of interrupt register.
pub const ICCEOIR: usize = 0x010;
/// Running priority register.
pub const ICCRPR: usize = 0x014;
/// Highest pending interrupt register.
pub const ICCHPIR: usize = 0x018;
/// Aliased non-secure binary point register.
pub const ICCABPR: usize = 0x01c;
/// CPU interface identification register.
pub const ICCIDR: usize = 0x0fc;

/// Distributor control register.
pub const ICDDCR: usize = 0x000;
/// Interrupt controller type register.
pub const ICDICTR: usize = 0x004;
/// Distributor implementer identification register.
pub const ICDIIDR: usize = 0x008;
/// Interrupt security registers.
pub const ICDISR: usize = 0x080;
/// Interrupt set-enable registers.
pub const ICDISER: usize = 0x100;
/// Interrupt clear-enable registers.
pub const ICDICER: usize = 0x180;
/// Interrupt set-pending registers.
pub const ICDISPR: usize = 0x200;
/// Interrupt clear-pending registers.
pub const ICDICPR: usize = 0x280;
/// Active bit registers.
pub const ICDABR: usize = 0x300;
/// Interrupt priority registers.
pub const ICDIPR: usize = 0x400;
/// Interrupt processor target registers.
pub const ICDIPTR: usize = 0x800;
/// Interrupt configuration registers.
pub const ICDICFR: usize = 0xc00;
/// Software generated interrupt register.
pub const ICDSGIR: usize = 0xf00;

/// The 32-bit word with only bit `n` set, for `n < 32`.
pub open spec fn bit(n: u32) -> u32 {
    (1u32 << n) as u32
}

/// The PL390: base addresses of its CPU interface and its distributor.
#[derive(Clone, Copy, PartialEq, Eq, Structural, Debug)]
pub struct Pl390 {
    pub icc: usize,
    pub icd: usize,
}

impl Pl390 {
    /// A controller at the given base addresses.
    pub fn new(icc: usize, icd: usize) -> (p: Self)
        ensures
            p == (Pl390 { icc, icd }),
    {
        Pl390 { icc, icd }
    }

    /// Moves the controller to other base addresses.
    pub fn set_base_address(&mut self, icc: usize, icd: usize)
        ensures
            *final(self) == (Pl390 { icc, icd }),
    {
        self.icc = icc;
        self.icd = icd;
    }

    /// Initialization: unmask priorities up to 0xf8, then enable the CPU
    /// interface.
    pub fn initialize(&self) -> (w: Vec<RegisterWrite>)
        requires
            self.icc + ICCPMR <= usize::MAX,
        ensures
            w@ == seq![
                RegisterWrite::Byte { address: (self.icc + ICCPMR) as usize, value: 0xf8 },
                RegisterWrite::Word { address: (self.icc + ICCICR) as usize, value: 0x07 },
            ],
    {
        let mut w = Vec::new();
        w.push(RegisterWrite::Byte { address: self.icc + ICCPMR, value: 0xf8 });
        w.push(RegisterWrite::Word { address: self.icc + ICCICR, value: 0x07 });
        proof {
            assert(w@ =~= seq![
                RegisterWrite::Byte { address: (self.icc + ICCPMR) as usize, value: 0xf8 },
                RegisterWrite::Word { address: (self.icc + ICCICR) as usize, value: 0x07 },
            ]);
        }
        w
    }

    /// Enables the distributor.
    pub fn icd_enable(&self) -> (w: RegisterWrite)
        ensures
            w == (RegisterWrite::Word { address: (self.icd + ICDDCR) as usize, value: 1 }),
    {
        RegisterWrite::Word { address: self.icd + ICDDCR, value: 1 }
    }

    /// Disables the distributor.
    pub fn icd_disable(&self) -> (w: RegisterWrite)
        ensures
            w == (RegisterWrite::Word { address: (self.icd + ICDDCR) as usize, value: 0 }),
    {
        RegisterWrite::Word { address: self.icd + ICDDCR, value: 0 }
    }

    /// Routes interrupt `intno` to the CPUs of `targetcpu`.
    pub fn icd_set_target(&self, intno: usize, targetcpu: u8) -> (w: RegisterWrite)
        requires
            self.icd + ICDIPTR + intno <= usize::MAX,
        ensures
            w == (RegisterWrite::Byte { address: (self.icd + ICDIPTR + intno) as usize, value: targetcpu }),
    {
        RegisterWrite::Byte { address: self.icd + ICDIPTR + intno, value: targetcpu }
    }

    /// The configuration register that holds the two bits of interrupt `intno`.
    pub fn icdicfr_address(&self, intno: usize) -> (a: usize)
        requires
            self.icd + ICDICFR + 4 * (intno / 16) <= usize::MAX,
        ensures
            a == self.icd + ICDICFR + 4 * (intno / 16),
    {
        proof {
            assert(intno >> 4 == intno / 16) by (bit_vector);
        }
        self.icd + ICDICFR + 4 * (intno >> 4)
    }

    /// Sets the two configuration bits of interrupt `intno` to the low two
    /// bits of `config`, given the current value `current` of its
    /// configuration register; the other bits keep their values.
    pub fn icd_set_config(&self, intno: usize, config: u8, current: u32) -> (w: RegisterWrite)
        requires
            self.icd + ICDICFR + 4 * (intno / 16) <= usize::MAX,
        ensures
            ({
                let s = (2 * (intno % 16)) as u32;
                w matches RegisterWrite::Word { address, value } && address == self.icd + ICDICFR + 4 * (intno / 16)
                    && (value >> s) & 3 == (config as u32) & 3
                    && value & !((3u32 << s) as u32) == current & !((3u32 << s) as u32)
            }),
    {
        let address = self.icdicfr_address(intno);
        proof {
            assert((intno & 0x0f) == intno % 16) by (bit_vector);
        }
        let s: u32 = ((intno & 0x0f) as u32) * 2;
        let mut val = current;
        val = val & !(0x03u32 << s);
        val = val | (((config as u32) & 0x03) << s);
        proof {
            let c = (config as u32) & 3;
            assert(s <= 30);
            assert(c <= 3) by (bit_vector)
                requires
                    c == (config as u32) & 3,
            ;
            assert(((current & !(3u32 << s)) | (c << s)) >> s & 3 == c) by (bit_vector)
                requires
                    s <= 30,
                    c <= 3,
            ;
            assert(((current & !(3u32 << s)) | (c << s)) & !(3u32 << s) == current & !(3u32 << s)) by (bit_vector)
                requires
                    s <= 30,
                    c <= 3,
            ;
        }
        RegisterWrite::Word { address, value: val }
    }

    /// Disables interrupt `intno`.
    pub fn interrupt_disable(&self, intno: usize) -> (w: RegisterWrite)
        requires
            self.icd + ICDICER + 4 * (intno / 32) <= usize::MAX,
        ensures
            w == (RegisterWrite::Word { address: (self.icd + ICDICER + 4 * (intno / 32)) as usize, value: bit((intno % 32) as u32) }),
    {
        let (n, b) = Self::bank_and_bit(intno);
        RegisterWrite::Word { address: self.icd + ICDICER + 4 * n, value: b }
    }

    /// Enables interrupt `intno`.
    pub fn interrupt_enable(&self, intno: usize) -> (w: RegisterWrite)
        requires
            self.icd + ICDISER + 4 * (intno / 32) <= usize::MAX,
        ensures
            w == (RegisterWrite::Word { address: (self.icd + ICDISER + 4 * (intno / 32)) as usize, value: bit((intno % 32) as u32) }),
    {
        let (n, b) = Self::bank_and_bit(intno);
        RegisterWrite::Word { address: self.icd + ICDISER + 4 * n, value: b }
    }

    /// Sets the priority of interrupt `intno`.
    pub fn interrupt_set_priority(&self, intno: usize, pri: u8) -> (w: RegisterWrite)
        requires
            self.icd + ICDIPR + intno <= usize::MAX,
        ensures
            w == (RegisterWrite::Byte { address: (self.icd + ICDIPR + intno) as usize, value: pri }),
    {
        RegisterWrite::Byte { address: self.icd + ICDIPR + intno, value: pri }
    }

    /// Clears the pending state of interrupt `intno`.
    pub fn interrupt_pending_clear(&self, intno: usize) -> (w: RegisterWrite)
        requires
            self.icd + ICDICPR + 4 * (intno / 32) <= usize::MAX,
        ensures
            w == (RegisterWrite::Word { address: (self.icd + ICDICPR + 4 * (intno / 32)) as usize, value: bit((intno % 32) as u32) }),
    {
        let n = intno / 32;
        let b: u32 = 1u32 << ((intno % 32) as u32);
        RegisterWrite::Word { address: self.icd + ICDICPR + 4 * n, value: b }
    }

    /// The 32-interrupt bank of `intno` and its bit in that bank.
    fn bank_and_bit(intno: usize) -> (r: (usize, u32))
        ensures
            r.0 == intno / 32,
            r.1 == bit((intno % 32) as u32),
    {
        proof {
            assert(intno >> 5 == intno / 32) by (bit_vector);
            assert(intno & 0x1f == intno % 32) by (bit_vector);
        }
        let b: u32 = 1u32 << ((intno & 0x1f) as u32);
        (intno >> 5, b)
    }

    /// Address of the interrupt acknowledge register.
    pub fn icciar_address(&self) -> (a: usize)
        requires
            self.icc + ICCIAR <= usize::MAX,
        ensures
            a == self.icc + ICCIAR,
    {
        self.icc + ICCIAR
    }

    /// Address of the priority mask register.
    pub fn iccpmr_address(&self) -> (a: usize)
        requires
            self.icc + ICCPMR <= usize::MAX,
        ensures
            a == self.icc + ICCPMR,
    {
        self.icc + ICCPMR
    }

    /// Address of the end of interrupt register.
    pub fn icceoir_address(&self) -> (a: usize)
        requires
            self.icc + ICCEOIR <= usize::MAX,
        ensures
            a == self.icc + ICCEOIR,
    {
        self.icc + ICCEOIR
    }

    /// Address of the priority register of interrupt `intno`.
    pub fn icdipr_address(&self, intno: usize) -> (a: usize)
        requires
            self.icd + ICDIPR + intno <= usize::MAX,
        ensures
            a == self.icd + ICDIPR + intno,
    {
        self.icd + ICDIPR + intno
    }
}

} // verus!
