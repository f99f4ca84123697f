//! The Cadence triple timer counter (TTC): its register map and the values its
//! control registers take.
use crate::register::RegisterWrite;
use vstd::prelude::*;

verus! {

/// The register block of a TTC: each register exists once per timer.
pub struct Regs {
    pub clock_control: [u32; 3],
    pub counter_control: [u32; 3],
    pub counter_value: [u32; 3],
    pub interval_counter: [u32; 3],
    pub match_1_counter: [u32; 3],
    pub match_2_counter: [u32; 3],
    pub match_3_counter: [u32; 3],
    pub interrupt_register: [u32; 3],
    pub interrupt_enable: [u32; 3],
    pub event_control_timer: [u32; 3],
    pub event_register: [u32; 3],
}

/// Offset of `Regs::clock_control`.
pub const CLOCK_CONTROL: usize = 0x00;
/// Offset of `Regs::counter_control`.
pub const COUNTER_CONTROL: usize = 0x0c;
/// Offset of `Regs::counter_value`.
pub const COUNTER_VALUE: usize = 0x18;
/// Offset of `Regs::interval_counter`.
pub const INTERVAL_COUNTER: usize = 0x24;
/// Offset of `Regs::match_1_counter`.
pub const MATCH_1_COUNTER: usize = 0x30;
/// Offset of `Regs::match_2_counter`.
pub const MATCH_2_COUNTER: usize = 0x3c;
/// Offset of `Regs::match_3_counter`.
pub const MATCH_3_COUNTER: usize = 0x48;
/// Offset of `Regs::interrupt_register`.
pub const INTERRUPT_REGISTER: usize = 0x54;
/// Offset of `Regs::interrupt_enable`.
pub const INTERRUPT_ENABLE: usize = 0x60;
/// Offset of `Regs::event_control_timer`.
pub const EVENT_CONTROL_TIMER: usize = 0x6c;
/// Offset of `Regs::event_register`.
pub const EVENT_REGISTER: usize = 0x78;

/// One of the three timers of a TTC.
#[derive(Clone, Copy, PartialEq, Eq, Structural, Debug)]
pub enum Timer {
    Timer1,
    Timer2,
    Timer3,
}

/// The index of a timer within the register arrays.
pub open spec fn timer_index(t: Timer) -> usize {
    match t {
        Timer::Timer1 => 0,
        Timer::Timer2 => 1,
        Timer::Timer3 => 2,
    }
}

impl Timer {
    /// The index of the timer within the register arrays.
    pub fn index(self) -> (i: usize)
        ensures
            i == timer_index(self),
    {
        match self {
            Timer::Timer1 => 0,
            Timer::Timer2 => 1,
            Timer::Timer3 => 2,
        }
    }
}

/// Clock control: prescaler enable.
pub const CLOCK_PRESCALER_ENABLE: u32 = 0x01;
/// Clock control: external clock source.
pub const CLOCK_SOURCE_EXTERNAL: u32 = 0x20;
/// Clock control: count on the negative edge of the external clock.
pub const CLOCK_EXTERNAL_CLOCK_EDGE_NEGATIVE: u32 = 0x40;
/// All clock control bits.
pub const CLOCK_CONTROL_ALL: u32 = 0x61;

/// Counter control: counter disabled.
pub const COUNTER_DISABLE: u32 = 0x01;
/// Counter control: interval mode.
pub const COUNTER_INTERVAL: u32 = 0x02;
/// Counter control: count down.
pub const COUNTER_DECREMENT: u32 = 0x04;
/// Counter control: match mode.
pub const COUNTER_MATCH: u32 = 0x08;
/// Counter control: reset the counter.
pub const COUNTER_RESET: u32 = 0x10;
/// Counter control: waveform output disabled.
pub const COUNTER_OUTPUT_WAVEFORM_DISABLE: u32 = 0x20;
/// Counter control: waveform polarity.
pub const COUNTER_OUTPUT_WAVEFORM_POLARITY: u32 = 0x40;
/// All counter control bits.
pub const COUNTER_CONTROL_ALL: u32 = 0x7f;

/// Interrupt: interval.
pub const INTERRUPT_INTERVAL: u32 = 0x01;
/// Interrupt: match 1.
pub const INTERRUPT_MATCH1: u32 = 0x02;
/// Interrupt: match 2.
pub const INTERRUPT_MATCH2: u32 = 0x04;
/// Interrupt: match 3.
pub const INTERRUPT_MATCH3: u32 = 0x08;
/// Interrupt: counter overflow.
pub const INTERRUPT_COUNTER_OVERFLOW: u32 = 0x10;
/// Interrupt: event timer overflow.
pub const INTERRUPT_EVENT_TIMER_OVERFLOW: u32 = 0x20;
/// All interrupt bits.
pub const INTERRUPT_ALL: u32 = 0x3f;

/// Event timer control: enable.
pub const EVENT_TIMER_ENABLE: u32 = 0x01;
/// Event timer control: count while the input is low.
pub const EVENT_TIMER_LOW_LEVEL: u32 = 0x02;
/// Event timer control: keep counting on overflow.
pub const EVENT_TIMER_CONTINUES_COUNTING_ON_OVERFLOW: u32 = 0x04;
/// Event timer control: test mode.
pub const EVENT_TIMER_TEST_MODE: u32 = 0x08;
/// All event timer control bits.
pub const EVENT_TIMER_CONTROL_ALL: u32 = 0x0f;

/// Clock control register flags.
#[derive(Clone, Copy, PartialEq, Eq, Structural, Debug)]
pub struct ClockControl {
    bits: u32,
}

/// Counter control register flags.
#[derive(Clone, Copy, PartialEq, Eq, Structural, Debug)]
pub struct CounterControl {
    bits: u32,
}

/// Interrupt register flags.
#[derive(Clone, Copy, PartialEq, Eq, Structural, Debug)]
pub struct Interrupt {
    bits: u32,
}

/// Event timer control register flags.
#[derive(Clone, Copy, PartialEq, Eq, Structural, Debug)]
pub struct EventTimerControl {
    bits: u32,
}

impl View for ClockControl {
    type V = u32;

    closed spec fn view(&self) -> u32 {
        self.bits
    }
}

impl View for CounterControl {
    type V = u32;

    closed spec fn view(&self) -> u32 {
        self.bits
    }
}

impl View for Interrupt {
    type V = u32;

    closed spec fn view(&self) -> u32 {
        self.bits
    }
}

impl View for EventTimerControl {
    type V = u32;

    closed spec fn view(&self) -> u32 {
        self.bits
    }
}

impl ClockControl {
    /// The flags of `bits`, if it holds no unknown bit.
    pub fn from_bits(bits: u32) -> (r: Option<Self>)
        ensures
            r matches Some(f) ==> f@ == bits,
            r is Some <==> bits & !CLOCK_CONTROL_ALL == 0,
    {
        if bits & !CLOCK_CONTROL_ALL == 0 {
            Some(ClockControl { bits })
        } else {
            None
        }
    }

    /// The flags of `bits`, unknown bits dropped.
    pub fn from_bits_truncate(bits: u32) -> (f: Self)
        ensures
            f@ == bits & CLOCK_CONTROL_ALL,
    {
        ClockControl { bits: bits & CLOCK_CONTROL_ALL }
    }

    /// The raw register value.
    pub fn bits(&self) -> (b: u32)
        ensures
            b == self@,
    {
        self.bits
    }

    /// Clears every flag.
    pub fn clear(&mut self)
        ensures
            final(self)@ == 0,
    {
        self.bits = 0;
    }
}

impl CounterControl {
    /// The flags of `bits`, if it holds no unknown bit.
    pub fn from_bits(bits: u32) -> (r: Option<Self>)
        ensures
            r matches Some(f) ==> f@ == bits,
            r is Some <==> bits & !COUNTER_CONTROL_ALL == 0,
    {
        if bits & !COUNTER_CONTROL_ALL == 0 {
            Some(CounterControl { bits })
        } else {
            None
        }
    }

    /// The flags of `bits`, unknown bits dropped.
    pub fn from_bits_truncate(bits: u32) -> (f: Self)
        ensures
            f@ == bits & COUNTER_CONTROL_ALL,
    {
        CounterControl { bits: bits & COUNTER_CONTROL_ALL }
    }

    /// The raw register value.
    pub fn bits(&self) -> (b: u32)
        ensures
            b == self@,
    {
        self.bits
    }

    /// Clears every flag.
    pub fn clear(&mut self)
        ensures
            final(self)@ == 0,
    {
        self.bits = 0;
    }
}

impl Interrupt {
    /// The flags of `bits`, if it holds no unknown bit.
    pub fn from_bits(bits: u32) -> (r: Option<Self>)
        ensures
            r matches Some(f) ==> f@ == bits,
            r is Some <==> bits & !INTERRUPT_ALL == 0,
    {
        if bits & !INTERRUPT_ALL == 0 {
            Some(Interrupt { bits })
        } else {
            None
        }
    }

    /// The flags of `bits`, unknown bits dropped.
    pub fn from_bits_truncate(bits: u32) -> (f: Self)
        ensures
            f@ == bits & INTERRUPT_ALL,
    {
        Interrupt { bits: bits & INTERRUPT_ALL }
    }

    /// The raw register value.
    pub fn bits(&self) -> (b: u32)
        ensures
            b == self@,
    {
        self.bits
    }

    /// Clears every flag.
    pub fn clear(&mut self)
        ensures
            final(self)@ == 0,
    {
        self.bits = 0;
    }
}

impl EventTimerControl {
    /// The flags of `bits`, if it holds no unknown bit.
    pub fn from_bits(bits: u32) -> (r: Option<Self>)
        ensures
            r matches Some(f) ==> f@ == bits,
            r is Some <==> bits & !EVENT_TIMER_CONTROL_ALL == 0,
    {
        if bits & !EVENT_TIMER_CONTROL_ALL == 0 {
            Some(EventTimerControl { bits })
        } else {
            None
        }
    }

    /// The flags of `bits`, unknown bits dropped.
    pub fn from_bits_truncate(bits: u32) -> (f: Self)
        ensures
            f@ == bits & EVENT_TIMER_CONTROL_ALL,
    {
        EventTimerControl { bits: bits & EVENT_TIMER_CONTROL_ALL }
    }

    /// The raw register value.
    pub fn bits(&self) -> (b: u32)
        ensures
            b == self@,
    {
        self.bits
    }

    /// Clears every flag.
    pub fn clear(&mut self)
        ensures
            final(self)@ == 0,
    {
        self.bits = 0;
    }
}

/// A TTC at a base address.
#[derive(Clone, Copy, PartialEq, Eq, Structural, Debug)]
pub struct Ttc {
    pub address: usize,
}

/// The address of register `offset` of timer `t` of the TTC at `base`.
pub open spec fn register_address(base: usize, offset: usize, t: Timer) -> int {
    base + offset + 4 * timer_index(t)
}

impl Ttc {
    /// A TTC at `address`.
    pub fn new(address: usize) -> (t: Self)
        ensures
            t.address == address,
    {
        Ttc { address }
    }

    /// Moves the TTC to another base address.
    pub fn set_base_address(&mut self, address: usize)
        ensures
            final(self).address == address,
    {
        self.address = address;
    }

    /// The address of register `offset` of `timer`.
    fn register(&self, offset: usize, timer: Timer) -> (a: usize)
        requires
            offset <= EVENT_REGISTER,
            self.address + EVENT_REGISTER + 8 <= usize::MAX,
        ensures
            a == register_address(self.address, offset, timer),
    {
        self.address + offset + 4 * timer.index()
    }

    /// Stops and resets `timer`: the write to its counter control register,
    /// then the address of its interrupt register, whose read clears it.
    pub fn reset(&self, timer: Timer) -> (r: (RegisterWrite, usize))
        requires
            self.address + EVENT_REGISTER + 8 <= usize::MAX,
        ensures
            r.0 == (RegisterWrite::Word { address: register_address(self.address, COUNTER_CONTROL, timer) as usize, value: 0x31 }),
            r.1 == register_address(self.address, INTERRUPT_REGISTER, timer),
    {
        (
            RegisterWrite::Word { address: self.register(COUNTER_CONTROL, timer), value: 0x31 },
            self.register(INTERRUPT_REGISTER, timer),
        )
    }

    /// Sets the clock control of `timer`: the flags, and the prescaler value
    /// `prescale` (below 16) in bits 1 to 4.
    pub fn set_clock_control(&self, timer: Timer, flags: ClockControl, prescale: u32) -> (w: RegisterWrite)
        requires
            self.address + EVENT_REGISTER + 8 <= usize::MAX,
            prescale & !0xfu32 == 0,
        ensures
            w == (RegisterWrite::Word {
                address: register_address(self.address, CLOCK_CONTROL, timer) as usize,
                value: flags@ | ((prescale << 1u32) as u32),
            }),
    {
        RegisterWrite::Word { address: self.register(CLOCK_CONTROL, timer), value: flags.bits() | (prescale << 1u32) }
    }

    /// Sets the counter control of `timer`.
    pub fn set_counter_control(&self, timer: Timer, flags: CounterControl) -> (w: RegisterWrite)
        requires
            self.address + EVENT_REGISTER + 8 <= usize::MAX,
        ensures
            w == (RegisterWrite::Word { address: register_address(self.address, COUNTER_CONTROL, timer) as usize, value: flags@ }),
    {
        RegisterWrite::Word { address: self.register(COUNTER_CONTROL, timer), value: flags.bits() }
    }

    /// The address of the counter value register of `timer`.
    pub fn get_counter_value(&self, timer: Timer) -> (a: usize)
        requires
            self.address + EVENT_REGISTER + 8 <= usize::MAX,
        ensures
            a == register_address(self.address, COUNTER_VALUE, timer),
    {
        self.register(COUNTER_VALUE, timer)
    }

    /// Sets the interval of `timer`.
    pub fn set_interval_counter(&self, timer: Timer, value: u32) -> (w: RegisterWrite)
        requires
            self.address + EVENT_REGISTER + 8 <= usize::MAX,
        ensures
            w == (RegisterWrite::Word { address: register_address(self.address, INTERVAL_COUNTER, timer) as usize, value }),
    {
        RegisterWrite::Word { address: self.register(INTERVAL_COUNTER, timer), value }
    }

    /// Sets the first match value of `timer`.
    pub fn set_match1_counter(&self, timer: Timer, value: u32) -> (w: RegisterWrite)
        requires
            self.address + EVENT_REGISTER + 8 <= usize::MAX,
        ensures
            w == (RegisterWrite::Word { address: register_address(self.address, MATCH_1_COUNTER, timer) as usize, value }),
    {
        RegisterWrite::Word { address: self.register(MATCH_1_COUNTER, timer), value }
    }

    /// Sets the second match value of `timer`.
    pub fn set_match2_counter(&self, timer: Timer, value: u32) -> (w: RegisterWrite)
        requires
            self.address + EVENT_REGISTER + 8 <= usize::MAX,
        ensures
            w == (RegisterWrite::Word { address: register_address(self.address, MATCH_2_COUNTER, timer) as usize, value }),
    {
        RegisterWrite::Word { address: self.register(MATCH_2_COUNTER, timer), value }
    }

    /// Sets the third match value of `timer`.
    pub fn set_match3_counter(&self, timer: Timer, value: u32) -> (w: RegisterWrite)
        requires
            self.address + EVENT_REGISTER + 8 <= usize::MAX,
        ensures
            w == (RegisterWrite::Word { address: register_address(self.address, MATCH_3_COUNTER, timer) as usize, value }),
    {
        RegisterWrite::Word { address: self.register(MATCH_3_COUNTER, timer), value }
    }

    /// The address of the interrupt register of `timer`; reading it clears the
    /// pending interrupts, and `Interrupt::from_bits` decodes the value read.
    pub fn clear_interrupt(&self, timer: Timer) -> (a: usize)
        requires
            self.address + EVENT_REGISTER + 8 <= usize::MAX,
        ensures
            a == register_address(self.address, INTERRUPT_REGISTER, timer),
    {
        self.register(INTERRUPT_REGISTER, timer)
    }

    /// Enables the interrupts of `flag` for `timer`.
    pub fn enable_interrupt(&self, timer: Timer, flag: Interrupt) -> (w: RegisterWrite)
        requires
            self.address + EVENT_REGISTER + 8 <= usize::MAX,
        ensures
            w == (RegisterWrite::Word { address: register_address(self.address, INTERRUPT_ENABLE, timer) as usize, value: flag@ }),
    {
        RegisterWrite::Word { address: self.register(INTERRUPT_ENABLE, timer), value: flag.bits() }
    }

    /// Writes the event timer control value of `flag` for `timer`; the value
    /// goes to the interrupt enable register.
    pub fn set_event_timer_control(&self, timer: Timer, flag: EventTimerControl) -> (w: RegisterWrite)
        requires
            self.address + EVENT_REGISTER + 8 <= usize::MAX,
        ensures
            w == (RegisterWrite::Word { address: register_address(self.address, INTERRUPT_ENABLE, timer) as usize, value: flag@ }),
    {
        RegisterWrite::Word { address: self.register(INTERRUPT_ENABLE, timer), value: flag.bits() }
    }
}

} // verus!
