use pudding_kernel::context::{Context, ContextControlBlock, CpuControlBlock};
use pudding_kernel::irc::{interrupt_disable, interrupt_enable, interrupt_set_priority};
use pudding_kernel::pl390::Pl390;
use pudding_kernel::random::{rand, rand_time};
use pudding_kernel::register::RegisterWrite;
use pudding_kernel::system::{
    disable_dispatch, disable_dispatch_service, enable_dispatch, enable_dispatch_service, lock_cpu_service,
    unlock_cpu_service, interrupt_end, interrupt_start, is_cpu_locked, is_dispatch_disabled,
    is_dispatch_pending_state, is_interrupt_state, lock_cpu, set_dispatch_reserve_flag, SystemControlBlock,
};
use pudding_kernel::ttc::{ClockControl, CounterControl, EventTimerControl, Interrupt, Timer, Ttc};

#[test]
fn pl390_enable_and_disable() {
    let pl390 = Pl390::new(0xf9001000, 0xf9000000);
    assert_eq!(pl390.interrupt_enable(74), RegisterWrite::Word { address: 0xf9000000 + 0x100 + 8, value: 1 << 10 });
    assert_eq!(interrupt_disable(&pl390, 31), RegisterWrite::Word { address: 0xf9000000 + 0x180, value: 1 << 31 });
    assert_eq!(interrupt_enable(&pl390, 32), RegisterWrite::Word { address: 0xf9000000 + 0x104, value: 1 });
    assert_eq!(interrupt_set_priority(&pl390, 74, 0xa0), RegisterWrite::Byte { address: 0xf9000000 + 0x400 + 74, value: 0xa0 });
    assert_eq!(pl390.interrupt_pending_clear(40), RegisterWrite::Word { address: 0xf9000000 + 0x284, value: 1 << 8 });
    assert_eq!(pl390.icd_set_target(121, 1), RegisterWrite::Byte { address: 0xf9000000 + 0x800 + 121, value: 1 });
    assert_eq!(pl390.icd_enable(), RegisterWrite::Word { address: 0xf9000000, value: 1 });
    assert_eq!(pl390.icd_disable(), RegisterWrite::Word { address: 0xf9000000, value: 0 });
    assert_eq!(
        pl390.initialize(),
        vec![
            RegisterWrite::Byte { address: 0xf9001004, value: 0xf8 },
            RegisterWrite::Word { address: 0xf9001000, value: 0x07 },
        ]
    );
    let mut moved = pl390;
    moved.set_base_address(1, 2);
    assert_eq!(moved, Pl390 { icc: 1, icd: 2 });
}

#[test]
fn pl390_set_config_changes_two_bits() {
    let pl390 = Pl390::new(0, 0x1000);
    // interrupt 121: register 7, bits 18 and 19
    assert_eq!(pl390.icdicfr_address(121), 0x1000 + 0xc00 + 28);
    assert_eq!(
        pl390.icd_set_config(121, 0x01, 0xffff_ffff),
        RegisterWrite::Word { address: 0x1000 + 0xc00 + 28, value: 0xfff7_ffff }
    );
    assert_eq!(pl390.icd_set_config(136, 0x03, 0), RegisterWrite::Word { address: 0x1000 + 0xc00 + 32, value: 0x0003_0000 });
}

#[test]
fn ttc_register_values() {
    let mut ttc = Ttc::new(0xFF110000);
    ttc.set_base_address(0xFF130000);
    assert_eq!(ttc.address, 0xFF130000);
    let (w, read) = ttc.reset(Timer::Timer2);
    assert_eq!(w, RegisterWrite::Word { address: 0xFF130000 + 0x0c + 4, value: 0x31 });
    assert_eq!(read, 0xFF130000 + 0x54 + 4);
    let flags = ClockControl::from_bits(0x01).unwrap();
    assert_eq!(ttc.set_clock_control(Timer::Timer1, flags, 0xa), RegisterWrite::Word { address: 0xFF130000, value: 0x15 });
    assert_eq!(ttc.get_counter_value(Timer::Timer3), 0xFF130000 + 0x18 + 8);
    assert_eq!(ttc.set_interval_counter(Timer::Timer1, 1000), RegisterWrite::Word { address: 0xFF130024, value: 1000 });
    assert_eq!(ttc.set_match1_counter(Timer::Timer1, 1), RegisterWrite::Word { address: 0xFF130030, value: 1 });
    assert_eq!(ttc.set_match2_counter(Timer::Timer1, 2), RegisterWrite::Word { address: 0xFF13003c, value: 2 });
    assert_eq!(ttc.set_match3_counter(Timer::Timer1, 3), RegisterWrite::Word { address: 0xFF130048, value: 3 });
    assert_eq!(ttc.clear_interrupt(Timer::Timer1), 0xFF130054);
    let irq = Interrupt::from_bits(0x01).unwrap();
    assert_eq!(ttc.enable_interrupt(Timer::Timer1, irq), RegisterWrite::Word { address: 0xFF130060, value: 1 });
    let ev = EventTimerControl::from_bits(0x01).unwrap();
    assert_eq!(ttc.set_event_timer_control(Timer::Timer1, ev), RegisterWrite::Word { address: 0xFF130060, value: 1 });
    let cc = CounterControl::from_bits_truncate(0xff);
    assert_eq!(ttc.set_counter_control(Timer::Timer1, cc), RegisterWrite::Word { address: 0xFF13000c, value: 0x7f });
}

#[test]
fn flags_decode_and_clear() {
    assert_eq!(Interrupt::from_bits(0x40), None);
    assert_eq!(Interrupt::from_bits(0x3f).map(|f| f.bits()), Some(0x3f));
    assert_eq!(ClockControl::from_bits(0x02), None);
    assert_eq!(CounterControl::from_bits(0x80), None);
    assert_eq!(EventTimerControl::from_bits_truncate(0xff).bits(), 0x0f);
    let mut c = ClockControl::from_bits_truncate(0x61);
    c.clear();
    assert_eq!(c.bits(), 0);
    let mut c = CounterControl::from_bits_truncate(0x31);
    c.clear();
    assert_eq!(c.bits(), 0);
    let mut c = Interrupt::from_bits_truncate(0x31);
    c.clear();
    assert_eq!(c.bits(), 0);
    let mut c = EventTimerControl::from_bits_truncate(0x3);
    c.clear();
    assert_eq!(c.bits(), 0);
}

#[test]
fn stack_pointers() {
    assert_eq!(Context::new().sp, 0);
    assert_eq!(Context::initial_stack_pointer(0x1000, 0x101), 0x1100);
    assert_eq!(ContextControlBlock::new().sp, 0);
    let w = std::mem::size_of::<isize>();
    assert_eq!(ContextControlBlock::initial_stack_pointer(0x1000, 256), 0x1000 + 256 * w);
    let mut cpu = CpuControlBlock::new();
    cpu.interrupt_initialize(0x2000, 0x1ff);
    assert_eq!(cpu.isp, 0x21f0);
    assert_eq!(cpu.imask, 0);
}

#[test]
fn random_sleep_times() {
    let mut seed: u32 = 0x1234;
    let r = rand(&mut seed);
    assert_eq!(r, (69069u64 * 0x1234 + 1) as u32);
    assert_eq!(seed, r);
    let mut s2: u32 = 0xffff_ffff;
    let r2 = rand(&mut s2);
    assert_eq!(r2, ((69069u64 * 0xffff_ffff + 1) & 0xffff_ffff) as u32);
    let mut s3: u32 = 0x1234;
    let t = rand_time(&mut s3);
    assert_eq!(t, r % 1000 + 500);
    for _ in 0..100 {
        let t = rand_time(&mut s3);
        assert!((500..1500).contains(&t));
    }
}

#[test]
fn system_flags() {
    let mut sys = SystemControlBlock::new();
    assert!(!is_cpu_locked(&sys));
    assert!(!is_dispatch_pending_state(&sys));
    disable_dispatch(&mut sys);
    assert!(is_dispatch_disabled(&sys));
    assert!(is_dispatch_pending_state(&sys));
    set_dispatch_reserve_flag(&mut sys);
    interrupt_start(&mut sys);
    assert!(is_interrupt_state(&sys));
    assert!(!interrupt_end(&mut sys));
    assert!(sys.dispatch_reserve);
    enable_dispatch(&mut sys);
    interrupt_start(&mut sys);
    assert!(interrupt_end(&mut sys));
    assert!(!sys.dispatch_reserve);
    assert!(!is_interrupt_state(&sys));
    lock_cpu(&mut sys);
    assert!(is_cpu_locked(&sys));
}

#[test]
fn system_services_end_with_the_dispatch_decision() {
    let mut sys = SystemControlBlock::new();
    let a = lock_cpu_service(&mut sys);
    assert!(!a.dispatch && !a.cpu_unlock);
    assert!(sys.cpu_lock);
    set_dispatch_reserve_flag(&mut sys);
    let a = unlock_cpu_service(&mut sys);
    assert!(a.dispatch && a.cpu_unlock);
    assert!(!sys.cpu_lock && !sys.dispatch_reserve);

    let a = disable_dispatch_service(&mut sys);
    assert!(!a.dispatch && a.cpu_unlock);
    set_dispatch_reserve_flag(&mut sys);
    let a = lock_cpu_service(&mut sys);
    assert!(!a.dispatch && !a.cpu_unlock);
    assert!(sys.dispatch_reserve);
    let a = enable_dispatch_service(&mut sys);
    // the CPU is still locked: the switch stays reserved
    assert!(!a.dispatch && !a.cpu_unlock);
    assert!(!sys.dispatch_disable && sys.dispatch_reserve);
    let a = unlock_cpu_service(&mut sys);
    assert!(a.dispatch && a.cpu_unlock);
    assert!(!sys.dispatch_reserve);
}
