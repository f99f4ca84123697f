//! A byte FIFO in shared memory: a ring buffer with a transmit and a receive
//! position. One slot is always left free, so a buffer of `buf_size` bytes
//! holds at most `buf_size - 1` of them.
use crate::register::RegisterWrite;
use vstd::prelude::*;

verus! {

/// The place of the `i`-th byte after position `rx` in a ring of `size` bytes.
pub open spec fn ring_index(rx: int, i: int, size: int) -> int {
    if rx + i < size {
        rx + i
    } else {
        rx + i - size
    }
}

/// A ring buffer of bytes over a block of memory.
pub struct Fifo {
    /// Size of the ring in bytes.
    pub buf_size: u32,
    /// Where the next byte sent is written.
    pub tx_ptr: u32,
    /// Where the next byte received is read.
    pub rx_ptr: u32,
    /// The memory the ring lives in; the ring is its first `buf_size` bytes.
    pub buf: Vec<u8>,
}

impl Fifo {
    /// The memory the ring lives in.
    pub open spec fn memory(&self) -> Seq<u8> {
        self.buf@
    }

    /// The positions are inside the ring and the ring inside the memory.
    pub open spec fn wf(&self) -> bool {
        &&& self.buf_size <= self.memory().len()
        &&& self.buf_size == 0 ==> self.tx_ptr == 0 && self.rx_ptr == 0
        &&& self.buf_size > 0 ==> self.tx_ptr < self.buf_size && self.rx_ptr < self.buf_size
    }

    /// The number of bytes waiting to be received.
    pub open spec fn count(&self) -> int {
        if self.tx_ptr >= self.rx_ptr {
            self.tx_ptr - self.rx_ptr
        } else {
            self.tx_ptr + self.buf_size - self.rx_ptr
        }
    }

    /// The bytes waiting to be received, oldest first.
    pub open spec fn contents(&self) -> Seq<u8> {
        Seq::new(
            self.count() as nat,
            |i: int| self.memory()[ring_index(self.rx_ptr as int, i, self.buf_size as int)],
        )
    }

    /// A FIFO over `memory_len` zeroed bytes, with an empty ring of size zero.
    pub fn new(memory_len: usize) -> (f: Self)
        ensures
            f.wf(),
            f.buf_size == 0,
            f.tx_ptr == 0,
            f.rx_ptr == 0,
            f.memory().len() == memory_len,
    {
        let mut buf: Vec<u8> = Vec::new();
        let mut i: usize = 0;
        while i < memory_len
            invariant
                i <= memory_len,
                buf@.len() == i,
            decreases memory_len - i,
        {
            buf.push(0);
            i = i + 1;
        }
        Fifo { buf_size: 0, tx_ptr: 0, rx_ptr: 0, buf }
    }

    /// Lays an empty ring over the memory: `size` bytes in all, of which the
    /// first 12 hold the ring's three positions.
    pub fn reset(&mut self, size: isize)
        requires
            12 <= size,
            size - 12 <= old(self).memory().len(),
            size - 12 <= u32::MAX,
        ensures
            final(self).wf(),
            final(self).buf_size == size - 12,
            final(self).tx_ptr == 0,
            final(self).rx_ptr == 0,
            final(self).contents().len() == 0,
            final(self).memory() == old(self).memory(),
    {
        let buf_size = (size - 12) as u32;
        self.buf_size = 0;
        self.tx_ptr = 0;
        self.rx_ptr = 0;
        self.buf_size = buf_size;
    }

    /// The header writes of `reset` for a ring whose header starts at `base`
    /// (size, transmit and receive positions, one 32-bit word each), in the
    /// order they must reach shared memory: the size is zeroed first, then
    /// both positions are cleared, and the new size is written last, so the
    /// other side never sees a size with stale positions.
    pub fn reset_writes(base: usize, size: isize) -> (w: Vec<RegisterWrite>)
        requires
            base + 8 <= usize::MAX,
            12 <= size,
            size - 12 <= u32::MAX,
        ensures
            w@ == seq![
                RegisterWrite::Word { address: base, value: 0 },
                RegisterWrite::Word { address: (base + 4) as usize, value: 0 },
                RegisterWrite::Word { address: (base + 8) as usize, value: 0 },
                RegisterWrite::Word { address: base, value: (size - 12) as u32 },
            ],
    {
        let buf_size = (size - 12) as u32;
        let mut w = Vec::new();
        w.push(RegisterWrite::Word { address: base, value: 0 });
        w.push(RegisterWrite::Word { address: base + 4, value: 0 });
        w.push(RegisterWrite::Word { address: base + 8, value: 0 });
        w.push(RegisterWrite::Word { address: base, value: buf_size });
        proof {
            assert(w@ =~= seq![
                RegisterWrite::Word { address: base, value: 0 },
                RegisterWrite::Word { address: (base + 4) as usize, value: 0 },
                RegisterWrite::Word { address: (base + 8) as usize, value: 0 },
                RegisterWrite::Word { address: base, value: (size - 12) as u32 },
            ]);
        }
        w
    }

    /// Sends byte `c`: it is appended unless the ring is full. Returns whether
    /// it was.
    pub fn send_char(&mut self, c: u8) -> (sent: bool)
        requires
            old(self).wf(),
        ensures
            final(self).wf(),
            sent == (old(self).count() + 1 < old(self).buf_size),
            sent ==> final(self).contents() == old(self).contents().push(c),
            !sent ==> final(self).contents() == old(self).contents(),
            final(self).buf_size == old(self).buf_size,
            final(self).rx_ptr == old(self).rx_ptr,
            sent ==> final(self).tx_ptr == (if old(self).tx_ptr + 1 < old(self).buf_size { old(self).tx_ptr + 1 } else { 0 }),
            sent ==> final(self).memory() == old(self).memory().update(old(self).tx_ptr as int, c),
            !sent ==> final(self).tx_ptr == old(self).tx_ptr && final(self).memory() == old(self).memory(),
    {
        let rx_ptr = self.rx_ptr;
        let tx_ptr = self.tx_ptr;
        let next_ptr = if tx_ptr + 1 < self.buf_size {
            tx_ptr + 1
        } else {
            0
        };
        if next_ptr != rx_ptr {
            let ghost old_contents = self.contents();
            self.buf.set(tx_ptr as usize, c);
            self.tx_ptr = next_ptr;
            proof {
                let n = old_contents.len() as int;
                let size = self.buf_size as int;
                let rx = rx_ptr as int;
                assert(ring_index(rx, n, size) == tx_ptr);
                assert forall|i: int| 0 <= i < n + 1 implies #[trigger] self.contents()[i] == old_contents.push(c)[i] by {
                    if i < n {
                        assert(ring_index(rx, i, size) != tx_ptr as int);
                    }
                }
                assert(self.contents() =~= old_contents.push(c));
            }
            true
        } else {
            false
        }
    }

    /// Receives the oldest byte, if any.
    pub fn recv_char(&mut self) -> (r: Option<u8>)
        requires
            old(self).wf(),
        ensures
            final(self).wf(),
            r == (if old(self).count() == 0 { None } else { Some(old(self).contents()[0]) }),
            final(self).contents() == (if old(self).count() == 0 {
                old(self).contents()
            } else {
                old(self).contents().drop_first()
            }),
            final(self).buf_size == old(self).buf_size,
            final(self).tx_ptr == old(self).tx_ptr,
            final(self).memory() == old(self).memory(),
            final(self).rx_ptr == (if old(self).count() == 0 {
                old(self).rx_ptr as int
            } else if old(self).rx_ptr + 1 < old(self).buf_size {
                old(self).rx_ptr + 1
            } else {
                0
            }),
    {
        let tx_ptr = self.tx_ptr;
        let rx_ptr = self.rx_ptr;
        if tx_ptr != rx_ptr {
            let ghost old_contents = self.contents();
            let c = self.buf[rx_ptr as usize];
            let next_ptr = if rx_ptr + 1 < self.buf_size {
                rx_ptr + 1
            } else {
                0
            };
            self.rx_ptr = next_ptr;
            proof {
                assert(old_contents[0] == c);
                assert(self.contents() =~= old_contents.drop_first());
            }
            Some(c)
        } else {
            None
        }
    }
}

} // verus!
