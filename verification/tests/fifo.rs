use pudding_kernel::fifo::Fifo;
use pudding_kernel::register::RegisterWrite;

#[test]
fn fifo_test() {
    let mut fifo = Fifo::new(256);
    fifo.buf_size = 3;
    fifo.tx_ptr = 0;
    fifo.rx_ptr = 0;
    assert_eq!(fifo.recv_char(), None);
    assert_eq!(fifo.send_char('a' as u8), true);
    assert_eq!(fifo.send_char('b' as u8), true);
    assert_eq!(fifo.send_char('c' as u8), false);
    assert_eq!(fifo.recv_char().unwrap(), 'a' as u8);
    assert_eq!(fifo.send_char('c' as u8), true);
    assert_eq!(fifo.send_char('d' as u8), false);
    assert_eq!(fifo.recv_char().unwrap(), 'b' as u8);
    assert_eq!(fifo.recv_char().unwrap(), 'c' as u8);
    assert_eq!(fifo.recv_char(), None);
}

#[test]
fn reset_empties_the_ring() {
    let mut fifo = Fifo::new(64);
    fifo.reset(20);
    assert_eq!(fifo.buf_size, 8);
    for c in 0..7u8 {
        assert!(fifo.send_char(c));
    }
    assert!(!fifo.send_char(7));
    for c in 0..7u8 {
        assert_eq!(fifo.recv_char(), Some(c));
    }
    assert_eq!(fifo.recv_char(), None);
    fifo.reset(20);
    assert_eq!(fifo.tx_ptr, 0);
    assert_eq!(fifo.rx_ptr, 0);
}

#[test]
fn empty_ring_refuses_bytes() {
    let mut fifo = Fifo::new(16);
    assert!(!fifo.send_char(1));
    assert_eq!(fifo.recv_char(), None);
}

#[test]
fn reset_writes_clear_the_positions_before_the_size() {
    let w = Fifo::reset_writes(0x1000, 256);
    assert_eq!(
        w,
        vec![
            RegisterWrite::Word { address: 0x1000, value: 0 },
            RegisterWrite::Word { address: 0x1004, value: 0 },
            RegisterWrite::Word { address: 0x1008, value: 0 },
            RegisterWrite::Word { address: 0x1000, value: 244 },
        ]
    );
}
