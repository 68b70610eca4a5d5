use vstd::arithmetic::power2::{lemma_pow2_pos, pow2};
use vstd::prelude::*;

verus! {

/// Whether `bins` lists a free block at position `j` of bin `k`.
pub open spec fn listed(bins: Seq<Seq<usize>>, k: int, j: int) -> bool {
    0 <= k < bins.len() && 0 <= j < bins[k].len()
}

/// The address of the first byte of the block at position `j` of bin `k`.
pub open spec fn first(bins: Seq<Seq<usize>>, k: int, j: int) -> int {
    bins[k][j] as int
}

/// The address behind the last byte of the block at position `j` of bin
/// `k`: the blocks of bin `k` have two to the power `k` bytes.
pub open spec fn past(bins: Seq<Seq<usize>>, k: int, j: int) -> int {
    bins[k][j] + pow2(k as nat)
}

/// Whether the block at position `j` of bin `k` holds the address `addr`.
pub open spec fn covers(bins: Seq<Seq<usize>>, k: int, j: int, addr: int) -> bool {
    listed(bins, k, j) && first(bins, k, j) <= addr < past(bins, k, j)
}

/// Whether the address `addr` lies in a block that `bins` lists as free.
pub open spec fn free_in(bins: Seq<Seq<usize>>, addr: int) -> bool {
    exists|k: int, j: int| covers(bins, k, j, addr)
}

/// Whether every listed block lies between the addresses `lo` and `hi`, in
/// a bin whose block size the address space can express.
pub open spec fn within(bins: Seq<Seq<usize>>, lo: int, hi: int) -> bool {
    forall|k: int, j: int| #[trigger]
        listed(bins, k, j) ==> k < usize::BITS && lo <= first(bins, k, j) && past(bins, k, j)
            <= hi
}

/// Whether no two listed blocks share a byte.
pub open spec fn apart(bins: Seq<Seq<usize>>) -> bool {
    forall|k: int, j: int, k2: int, j2: int|
        #[trigger] listed(bins, k, j) && #[trigger] listed(bins, k2, j2) && (k != k2 || j != j2)
            ==> past(bins, k, j) <= first(bins, k2, j2) || past(bins, k2, j2) <= first(
            bins,
            k,
            j,
        )
}

/// The lists with the block at position `j` of bin `k` taken out.
pub open spec fn without(bins: Seq<Seq<usize>>, k: int, j: int) -> Seq<Seq<usize>> {
    bins.update(k, bins[k].remove(j))
}

/// The lists with a block at `addr` put at the head of bin `k`.
pub open spec fn with(bins: Seq<Seq<usize>>, k: int, addr: usize) -> Seq<Seq<usize>> {
    bins.update(k, bins[k].push(addr))
}

/// Taking a block out of the lists takes its bytes, and no others, out of
/// the free memory, and leaves the lists in order.
pub proof fn lemma_without(bins: Seq<Seq<usize>>, k: int, j: int, lo: int, hi: int)
    requires
        listed(bins, k, j),
        within(bins, lo, hi),
        apart(bins),
    ensures
        within(without(bins, k, j), lo, hi),
        apart(without(bins, k, j)),
        without(bins, k, j).len() == bins.len(),
        forall|addr: int| #[trigger]
            free_in(without(bins, k, j), addr) <==> free_in(bins, addr) && !(first(bins, k, j)
                <= addr < past(bins, k, j)),
{
    let after = without(bins, k, j);
    assert forall|a: int, b: int| #[trigger] listed(after, a, b) implies {
        let b0 = if a == k && b >= j {
            b + 1
        } else {
            b
        };
        &&& listed(bins, a, b0)
        &&& first(after, a, b) == first(bins, a, b0)
        &&& past(after, a, b) == past(bins, a, b0)
        &&& (a != k || b0 != j)
    } by {}
    assert(within(after, lo, hi)) by {
        assert forall|a: int, b: int| #[trigger] listed(after, a, b) implies a < usize::BITS && lo
            <= first(after, a, b) && past(after, a, b) <= hi by {
            let b0 = if a == k && b >= j {
                b + 1
            } else {
                b
            };
            assert(listed(bins, a, b0));
        }
    }
    assert(apart(after)) by {
        assert forall|a: int, b: int, a2: int, b2: int|
            #[trigger] listed(after, a, b) && #[trigger] listed(after, a2, b2) && (a != a2 || b
                != b2) implies past(after, a, b) <= first(after, a2, b2) || past(after, a2, b2)
            <= first(after, a, b) by {
            let b0 = if a == k && b >= j {
                b + 1
            } else {
                b
            };
            let b20 = if a2 == k && b2 >= j {
                b2 + 1
            } else {
                b2
            };
            assert(listed(bins, a, b0));
            assert(listed(bins, a2, b20));
        }
    }
    assert forall|addr: int| #[trigger]
        free_in(after, addr) <==> free_in(bins, addr) && !(first(bins, k, j) <= addr < past(
            bins,
            k,
            j,
        )) by {
        if free_in(after, addr) {
            let (a, b) = choose|a: int, b: int| covers(after, a, b, addr);
            let b0 = if a == k && b >= j {
                b + 1
            } else {
                b
            };
            assert(listed(after, a, b));
            assert(listed(bins, a, b0));
            assert(covers(bins, a, b0, addr));
        }
        if free_in(bins, addr) && !(first(bins, k, j) <= addr < past(bins, k, j)) {
            let (a, b0) = choose|a: int, b0: int| covers(bins, a, b0, addr);
            let b = if a == k && b0 > j {
                b0 - 1
            } else {
                b0
            };
            assert(listed(after, a, b));
            assert(first(after, a, b) == first(bins, a, b0));
            assert(covers(after, a, b, addr));
        }
    }
}

/// Putting a block of bytes that are not free into the lists adds its bytes,
/// and no others, to the free memory, and leaves the lists in order.
pub proof fn lemma_with(bins: Seq<Seq<usize>>, k: int, addr: usize, lo: int, hi: int)
    requires
        0 <= k < bins.len(),
        k < usize::BITS,
        within(bins, lo, hi),
        apart(bins),
        lo <= addr,
        addr + pow2(k as nat) <= hi,
        forall|byte: int| addr <= byte < addr + pow2(k as nat) ==> !free_in(bins, byte),
    ensures
        within(with(bins, k, addr), lo, hi),
        apart(with(bins, k, addr)),
        with(bins, k, addr).len() == bins.len(),
        forall|byte: int| #[trigger]
            free_in(with(bins, k, addr), byte) <==> free_in(bins, byte) || addr <= byte < addr
                + pow2(k as nat),
{
    let after = with(bins, k, addr);
    let last = bins[k].len() as int;
    lemma_pow2_pos(k as nat);
    assert forall|a: int, b: int| #[trigger] listed(after, a, b) implies {
        ||| (a == k && b == last && first(after, a, b) == addr && past(after, a, b) == addr
            + pow2(k as nat))
        ||| (listed(bins, a, b) && first(after, a, b) == first(bins, a, b) && past(after, a, b)
            == past(bins, a, b))
    } by {}
    assert(within(after, lo, hi)) by {
        assert forall|a: int, b: int| #[trigger] listed(after, a, b) implies a < usize::BITS && lo
            <= first(after, a, b) && past(after, a, b) <= hi by {
            if !(a == k && b == last) {
                assert(listed(bins, a, b));
            }
        }
    }
    assert(apart(after)) by {
        assert forall|a: int, b: int, a2: int, b2: int|
            #[trigger] listed(after, a, b) && #[trigger] listed(after, a2, b2) && (a != a2 || b
                != b2) implies past(after, a, b) <= first(after, a2, b2) || past(after, a2, b2)
            <= first(after, a, b) by {
            if a == k && b == last {
                assert(listed(bins, a2, b2));
                lemma_pow2_pos(a2 as nat);
                let other = first(bins, a2, b2);
                let shared = if other >= addr {
                    other
                } else {
                    addr as int
                };
                if !(past(after, a, b) <= other || past(bins, a2, b2) <= addr) {
                    assert(covers(bins, a2, b2, shared));
                    assert(free_in(bins, shared));
                }
            } else if a2 == k && b2 == last {
                assert(listed(bins, a, b));
                lemma_pow2_pos(a as nat);
                let other = first(bins, a, b);
                let shared = if other >= addr {
                    other
                } else {
                    addr as int
                };
                if !(past(after, a2, b2) <= other || past(bins, a, b) <= addr) {
                    assert(covers(bins, a, b, shared));
                    assert(free_in(bins, shared));
                }
            } else {
                assert(listed(bins, a, b));
                assert(listed(bins, a2, b2));
            }
        }
    }
    assert forall|byte: int| #[trigger]
        free_in(after, byte) <==> free_in(bins, byte) || addr <= byte < addr + pow2(
            k as nat,
        ) by {
        if free_in(after, byte) {
            let (a, b) = choose|a: int, b: int| covers(after, a, b, byte);
            assert(listed(after, a, b));
            if !(a == k && b == last) {
                assert(covers(bins, a, b, byte));
            }
        }
        if free_in(bins, byte) {
            let (a, b) = choose|a: int, b: int| covers(bins, a, b, byte);
            assert(listed(after, a, b));
            assert(covers(after, a, b, byte));
        }
        if addr <= byte < addr + pow2(k as nat) {
            assert(listed(after, k, last));
            assert(covers(after, k, last, byte));
        }
    }
}

} // verus!
