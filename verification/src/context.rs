//! Saved task contexts and the initial stack pointers they start from.
//!
//! The switch between contexts is machine code outside the library; here are
//! the values it starts from.
use vstd::prelude::*;

verus! {

/// The saved context of a task: its stack pointer.
#[derive(Clone, Copy, PartialEq, Eq, Structural, Debug)]
pub struct Context {
    pub sp: usize,
}

impl Context {
    /// An empty context.
    pub fn new() -> (c: Self)
        ensures
            c.sp == 0,
    {
        Context { sp: 0 }
    }

    /// The initial stack pointer of a task whose stack is the `stack_len`
    /// bytes at `stack_addr`: the end of the stack, rounded down to 8 bytes
    /// within the 32-bit address space.
    pub fn initial_stack_pointer(stack_addr: usize, stack_len: usize) -> (isp: usize)
        requires
            stack_len > 0,
            stack_addr + stack_len <= usize::MAX,
        ensures
            isp == ((stack_addr + stack_len) as usize & 0xfffffff8),
    {
        (stack_addr + stack_len) & 0xfffffff8
    }
}

/// A context control block: the stack pointer of a suspended context.
#[derive(Clone, Copy, PartialEq, Eq, Structural, Debug)]
pub struct ContextControlBlock {
    pub sp: usize,
}

impl ContextControlBlock {
    /// An empty context control block.
    pub fn new() -> (c: Self)
        ensures
            c.sp == 0,
    {
        ContextControlBlock { sp: 0 }
    }

    /// The initial stack pointer of a context whose stack is the `words`
    /// machine words at `stack_addr`: the end of the stack.
    pub fn initial_stack_pointer(stack_addr: usize, words: usize) -> (isp: usize)
        requires
            words > 0,
            stack_addr + words * vstd::layout::size_of::<isize>() <= usize::MAX,
        ensures
            isp == stack_addr + words * vstd::layout::size_of::<isize>(),
    {
        stack_addr + words * core::mem::size_of::<isize>()
    }
}

/// The CPU's interrupt state: mask, nesting depth and interrupt stack pointer.
#[derive(Clone, Copy, PartialEq, Eq, Structural, Debug)]
pub struct CpuControlBlock {
    pub imask: u32,
    pub inest: u32,
    pub isp: u32,
}

impl CpuControlBlock {
    /// No interrupt masked or nested, no interrupt stack.
    pub fn new() -> (c: Self)
        ensures
            c == (CpuControlBlock { imask: 0, inest: 0, isp: 0 }),
    {
        CpuControlBlock { imask: 0, inest: 0, isp: 0 }
    }

    /// Uses the `stack_len` bytes at `stack_addr` as interrupt stack: its
    /// initial pointer is the end of the stack, as a 32-bit address rounded
    /// down to 16 bytes.
    pub fn interrupt_initialize(&mut self, stack_addr: usize, stack_len: usize)
        requires
            stack_len > 0,
            stack_addr + stack_len <= usize::MAX,
        ensures
            *final(self) == (CpuControlBlock {
                isp: ((stack_addr + stack_len) as usize as u32) & 0xfffffff0,
                ..*old(self)
            }),
    {
        let isp = stack_addr + stack_len;
        self.isp = (isp as u32) & 0xfffffff0;
    }
}

} // verus!
