use vstd::arithmetic::power2::is_pow2;
use vstd::prelude::*;

verus! {

/// The nearest multiple of `align` at or below `addr`.
pub open spec fn aligned_down(addr: int, align: int) -> int {
    addr - addr % align
}

/// The nearest multiple of `align` at or above `addr`.
pub open spec fn aligned_up(addr: int, align: int) -> int {
    if addr % align == 0 {
        addr
    } else {
        addr - addr % align + align
    }
}

/// Tells whether `num` is a power of two.
pub fn is_power_of_two(num: usize) -> (power: bool)
    ensures
        power == is_pow2(num as int),
{
    let mut test: usize = num;
    while test & 1 == 0 && test > 1
        invariant
            is_pow2(test as int) == is_pow2(num as int),
        decreases test,
    {
        proof {
            let before = test;
            assert(before & 1 == 0 ==> before % 2 == 0) by (bit_vector);
            assert(before >> 1 == before / 2) by (bit_vector);
            reveal(is_pow2);
        }
        test = test >> 1;
    }
    proof {
        let last = test;
        assert(last & 1 != 0 ==> last % 2 == 1) by (bit_vector);
        reveal(is_pow2);
    }
    test == 1
}

/// Aligns `addr` downwards to the nearest multiple of `align`, which is a
/// power of two. The result is never above `addr`.
pub fn align_down(addr: usize, align: usize) -> (aligned: usize)
    requires
        is_pow2(align as int),
    ensures
        aligned == aligned_down(addr as int, align as int),
        aligned <= addr,
        aligned as int % align as int == 0,
        addr - aligned < align,
{
    proof {
        reveal(is_pow2);
        lemma_aligned_down(addr as int, align as int);
    }
    addr - (addr % align)
}

/// Aligns `addr` upwards to the nearest multiple of `align`, which is a power
/// of two. The result is never below `addr`, and lies within the address
/// space.
pub fn align_up(addr: usize, align: usize) -> (aligned: usize)
    requires
        is_pow2(align as int),
        aligned_up(addr as int, align as int) <= usize::MAX,
    ensures
        aligned == aligned_up(addr as int, align as int),
        aligned >= addr,
        aligned as int % align as int == 0,
        aligned - addr < align,
{
    proof {
        reveal(is_pow2);
        lemma_aligned_down(addr as int, align as int);
        lemma_aligned_up(addr as int, align as int);
    }
    if addr % align == 0 {
        addr
    } else {
        align_down(addr, align) + align
    }
}

/// The multiple of `align` below `addr` is a multiple of `align`, and less
/// than `align` away.
pub proof fn lemma_aligned_down(addr: int, align: int)
    requires
        0 <= addr,
        0 < align,
    ensures
        aligned_down(addr, align) % align == 0,
        0 <= aligned_down(addr, align) <= addr,
        addr - aligned_down(addr, align) < align,
{
    vstd::arithmetic::div_mod::lemma_fundamental_div_mod(addr, align);
    vstd::arithmetic::div_mod::lemma_mod_multiples_basic(addr / align, align);
    vstd::arithmetic::div_mod::lemma_mod_pos_bound(addr, align);
    assert(addr - addr % align == align * (addr / align));
    assert(align * (addr / align) == (addr / align) * align) by (nonlinear_arith);
}

/// The multiple of `align` above `addr` is a multiple of `align`, and less
/// than `align` away.
pub proof fn lemma_aligned_up(addr: int, align: int)
    requires
        0 <= addr,
        0 < align,
    ensures
        aligned_up(addr, align) % align == 0,
        addr <= aligned_up(addr, align),
        aligned_up(addr, align) - addr < align,
{
    lemma_aligned_down(addr, align);
    vstd::arithmetic::div_mod::lemma_mod_pos_bound(addr, align);
    if addr % align != 0 {
        let down = aligned_down(addr, align);
        vstd::arithmetic::div_mod::lemma_mod_add_multiples_vanish(down, align);
    }
}

} // verus!
