use vstd::arithmetic::power2::{
    is_pow2, is_pow2_equiv, lemma_pow2, lemma_pow2_pos, lemma_pow2_strictly_increases,
    lemma_pow2_unfold, pow2,
};
use vstd::prelude::*;
use crate::allocator::util::is_power_of_two;

verus! {

/// The number of binary digits of `num`: none for zero.
pub open spec fn bit_length(num: nat) -> nat
    decreases num,
{
    if num == 0 {
        0
    } else {
        bit_length(num / 2) + 1
    }
}

/// The number of the smallest bin whose blocks hold `size` bytes: the least
/// `k` for which `size` is at most two to the power `k`.
pub open spec fn bin_of(size: nat) -> nat {
    if size <= 1 {
        0
    } else {
        bit_length((size - 1) as nat)
    }
}

/// The number of the largest bin whose blocks fit into `size` bytes: the
/// greatest `k` for which two to the power `k` is at most `size`, and zero
/// for no bytes at all.
pub open spec fn floor_bin(size: nat) -> nat {
    if size <= 1 {
        0
    } else {
        (bit_length(size) - 1) as nat
    }
}

/// A number lies between the powers of two that its length names.
pub proof fn lemma_bit_length(num: nat)
    ensures
        num < pow2(bit_length(num)),
        num > 0 ==> pow2((bit_length(num) - 1) as nat) <= num,
    decreases num,
{
    if num == 0 {
        lemma_pow2_pos(0);
    } else {
        lemma_bit_length(num / 2);
        lemma_pow2_unfold(bit_length(num));
        if num / 2 > 0 {
            lemma_pow2_unfold((bit_length(num) - 1) as nat);
        } else {
            lemma_pow2_pos(0);
            assert(pow2(0) == 1) by {
                lemma_pow2(0);
                reveal(vstd::arithmetic::power::pow);
            }
        }
    }
}

/// The length of a number is the only exponent between whose power and the
/// power before it the number lies.
pub proof fn lemma_bit_length_is(num: nat, length: nat)
    requires
        length > 0,
        pow2((length - 1) as nat) <= num < pow2(length),
    ensures
        bit_length(num) == length,
{
    lemma_bit_length(num);
    lemma_pow2_pos((length - 1) as nat);
    let found = bit_length(num);
    if found < length {
        if found < length - 1 {
            lemma_pow2_strictly_increases(found, (length - 1) as nat);
        }
    } else if found > length {
        if found - 1 > length {
            lemma_pow2_strictly_increases(length, (found - 1) as nat);
        }
    }
}

/// The blocks of the bin of a size hold the size, and those of the bin
/// before it do not.
pub proof fn lemma_bin_of(size: nat)
    ensures
        size <= pow2(bin_of(size)),
        bin_of(size) > 0 ==> pow2((bin_of(size) - 1) as nat) < size,
{
    if size <= 1 {
        lemma_pow2_pos(0);
    } else {
        lemma_bit_length((size - 1) as nat);
    }
}

/// The blocks of the floor bin of a size fit into the size, and those of the
/// bin after it do not.
pub proof fn lemma_floor_bin(size: nat)
    ensures
        size >= 1 ==> pow2(floor_bin(size)) <= size,
        size < pow2(floor_bin(size) + 1),
{
    lemma_bit_length(size);
    if size <= 1 {
        assert(pow2(0) == 1) by {
            lemma_pow2(0);
            reveal(vstd::arithmetic::power::pow);
        }
        lemma_pow2_unfold(1);
    }
}

/// A power of two has the bin of its exponent, both ways.
pub proof fn lemma_bins_of_power(k: nat)
    ensures
        bin_of(pow2(k)) == k,
        floor_bin(pow2(k)) == k,
        is_pow2(pow2(k) as int),
{
    lemma_pow2_pos(k);
    assert(pow2(0) == 1) by {
        lemma_pow2(0);
        reveal(vstd::arithmetic::power::pow);
    }
    if k > 0 {
        lemma_pow2_unfold(k);
        lemma_pow2_pos((k - 1) as nat);
        lemma_pow2_unfold(k + 1);
        lemma_bit_length_is(pow2(k), k + 1);
        lemma_bit_length_is((pow2(k) - 1) as nat, k);
    }
    lemma_pow2(k);
    assert(vstd::arithmetic::power2::is_pow2_exists(pow2(k) as int));
    is_pow2_equiv(pow2(k) as int);
}

/// The floor bin of a size is its bin where the size is a power of two, and
/// the bin before it where it is not.
pub proof fn lemma_floor_and_bin(size: nat)
    requires
        size >= 1,
    ensures
        is_pow2(size as int) ==> floor_bin(size) == bin_of(size),
        !is_pow2(size as int) ==> floor_bin(size) + 1 == bin_of(size),
        size == pow2(floor_bin(size)) <==> is_pow2(size as int),
{
    lemma_floor_bin(size);
    lemma_bin_of(size);
    let low = floor_bin(size);
    lemma_bins_of_power(low);
    if size == pow2(low) {
    } else {
        if is_pow2(size as int) {
            is_pow2_equiv(size as int);
            let e = choose|e: nat| vstd::arithmetic::power::pow(2, e) == size as int;
            lemma_pow2(e);
            assert(pow2(e) == size);
            if e <= low {
                if e < low {
                    lemma_pow2_strictly_increases(e, low);
                }
            } else {
                if e > low + 1 {
                    lemma_pow2_strictly_increases(low + 1, e);
                }
            }
            assert(false);
        }
        // Strictly between two neighbouring powers.
        lemma_pow2_unfold(low + 1);
        lemma_pow2_pos(low);
        lemma_bit_length_is((size - 1) as nat, low + 1);
    }
}

/// Returns one more than the number of the bin of `num`: the position of the
/// binary digit of the least power of two that is not below `num`.
pub fn power_of_two_digit(num: usize) -> (digit: usize)
    ensures
        digit == bin_of(num as nat) + 1,
        digit <= usize::BITS + 1,
{
    let mut cursor: usize = num;
    let mut highest_bit_location: usize = 0;
    proof {
        lemma_pow2_zero();
    }
    while cursor > 0
        invariant
            bit_length(num as nat) == bit_length(cursor as nat) + highest_bit_location,
            highest_bit_location <= usize::BITS,
            cursor as nat * pow2(highest_bit_location as nat) <= num,
        decreases cursor,
    {
        proof {
            let before = cursor;
            assert(before >> 1 == before / 2) by (bit_vector);
            lemma_pow2_unfold((highest_bit_location + 1) as nat);
            assert((cursor / 2) as nat * pow2((highest_bit_location + 1) as nat) <= num) by (nonlinear_arith)
                requires
                    cursor as nat * pow2(highest_bit_location as nat) <= num,
                    pow2((highest_bit_location + 1) as nat) == 2 * pow2(highest_bit_location as nat),
            ;
            if highest_bit_location >= usize::BITS {
                // A digit beyond the width of the word would make the number too large.
                lemma_bit_length(num as nat);
                lemma_width(num);
                assert(cursor as nat * pow2(highest_bit_location as nat) >= pow2(
                    highest_bit_location as nat,
                )) by (nonlinear_arith)
                    requires
                        cursor >= 1,
                ;
                if highest_bit_location > usize::BITS {
                    lemma_pow2_strictly_increases(usize::BITS as nat, highest_bit_location as nat);
                }
                assert(false);
            }
        }
        cursor = cursor >> 1;
        highest_bit_location += 1;
    }
    proof {
        assert(bit_length(cursor as nat) == 0);
        if num >= 1 {
            lemma_floor_and_bin(num as nat);
            assert(bit_length(1) == 1) by {
                assert(bit_length(0) == 0);
                assert(1nat / 2 == 0);
            }
            assert(floor_bin(num as nat) == bit_length(num as nat) - 1);
        } else {
            reveal(is_pow2);
        }
    }
    if is_power_of_two(num) {
        highest_bit_location
    } else {
        highest_bit_location + 1
    }
}

/// Two to the power zero is one.
pub proof fn lemma_pow2_zero()
    ensures
        pow2(0) == 1,
{
    lemma_pow2(0);
    reveal(vstd::arithmetic::power::pow);
}

/// Every number of the width of a word is below two to the power of that
/// width.
pub proof fn lemma_width(num: usize)
    ensures
        num < pow2(usize::BITS as nat),
{
    vstd::arithmetic::power2::lemma2_to64();
}

/// Returns the number of the smallest bin whose blocks hold `size` bytes.
pub fn calculate_bin_num(size: usize) -> (bin: usize)
    ensures
        bin == bin_of(size as nat),
        bin <= usize::BITS,
{
    power_of_two_digit(size).saturating_sub(1)
}

/// Returns the size of the blocks of bin `bin`: two to the power `bin`.
pub fn block_size(bin: usize) -> (size: usize)
    requires
        bin < usize::BITS,
    ensures
        size == pow2(bin as nat),
        size >= 1,
{
    proof {
        vstd::bits::lemma_usize_pow2_no_overflow(bin as nat);
        vstd::bits::lemma_usize_shl_is_mul(1, bin);
    }
    1usize << bin
}

} // verus!
