use vstd::prelude::*;

verus! {

/// Size in bytes of the stack of every process.
pub const STACK_SIZE: u64 = 0x10_0000;

/// Alignment in bytes of the stack of every process.
pub const STACK_ALIGN: u64 = 16;

/// The stack region that a process owns, known by the address of its lowest
/// byte.
#[derive(Clone, Copy, Debug, PartialEq, Eq, Structural)]
pub struct Stack {
    base: u64,
}

impl Stack {
    /// Whether a region of `STACK_SIZE` bytes can begin at `base`: the address
    /// is not null, it is aligned, and the region ends within the address
    /// space.
    pub open spec fn valid_base(base: u64) -> bool {
        &&& base != 0
        &&& base as int % STACK_ALIGN as int == 0
        &&& base + STACK_SIZE <= u64::MAX
    }

    /// The address of the lowest byte of the region.
    pub closed spec fn base(self) -> u64 {
        self.base
    }

    /// The stack whose region begins at `base`.
    pub closed spec fn at(base: u64) -> Stack {
        Stack { base }
    }

    /// The stack at an address begins there.
    pub proof fn lemma_at_base(base: u64)
        ensures
            Stack::at(base).base() == base,
    {
    }

    /// Every stack is the stack at its own base.
    pub proof fn lemma_base_at(self)
        ensures
            Stack::at(self.base()) == self,
    {
    }

    #[verifier::type_invariant]
    spec fn region_fits(self) -> bool {
        Stack::valid_base(self.base)
    }

    /// Takes the region of `STACK_SIZE` bytes that begins at `base` as a
    /// stack. There is no stack where the allocation failed and `base` is
    /// null, nor where the region is misaligned or would run past the end of
    /// the address space.
    pub fn new(base: u64) -> (stack: Option<Stack>)
        ensures
            stack is Some <==> Stack::valid_base(base),
            stack matches Some(s) ==> s == Stack::at(base) && s.base() == base,
    {
        if base != 0 && base % STACK_ALIGN == 0 && base <= u64::MAX - STACK_SIZE {
            Some(Stack { base })
        } else {
            None
        }
    }

    /// The address one past the highest byte of the stack, where an empty
    /// stack has its stack pointer.
    pub fn top(&self) -> (addr: u64)
        ensures
            addr == self.base() + STACK_SIZE,
            addr as int % STACK_ALIGN as int == 0,
    {
        proof {
            use_type_invariant(self);
        }
        self.base + STACK_SIZE
    }

    /// The address of the lowest byte of the stack.
    pub fn bottom(&self) -> (addr: u64)
        ensures
            addr == self.base(),
            Stack::valid_base(addr),
    {
        proof {
            use_type_invariant(self);
        }
        self.base
    }
}

} // verus!
