use vstd::arithmetic::power2::{
    is_pow2, lemma_pow2_strictly_increases, lemma_pow2_unfold, pow2,
};
use vstd::prelude::*;
use crate::allocator::blocks::{
    apart, covers, first, free_in, lemma_with, lemma_without, listed, past, with, within, without,
};
use crate::allocator::size::{
    bin_of, block_size, calculate_bin_num, floor_bin, lemma_bin_of, lemma_bins_of_power,
    lemma_floor_and_bin, lemma_floor_bin,
};
use crate::allocator::util::{
    align_down, aligned_down, aligned_up, is_power_of_two, lemma_aligned_down, lemma_aligned_up,
};

verus! {

/// The number of bins: bin `k` lists free blocks of two to the power `k`
/// bytes.
pub const NUM_BINS: usize = 39;

/// The least alignment of fresh memory.
pub const MIN_ALIGN: usize = 0x10;

/// The error of an allocation that cannot be served.
#[derive(Debug, PartialEq, Eq, Copy, Clone, Structural)]
pub struct AllocErr;

/// What is asked of a block of memory: its size in bytes and its
/// alignment, which is a power of two.
#[derive(Debug, PartialEq, Eq, Copy, Clone, Structural)]
pub struct Layout {
    size: usize,
    align: usize,
}

impl Layout {
    #[verifier::type_invariant]
    spec fn aligned_to_power(self) -> bool {
        is_pow2(self.align as int)
    }

    /// The size in bytes.
    pub closed spec fn bytes(self) -> usize {
        self.size
    }

    /// The alignment in bytes.
    pub closed spec fn alignment(self) -> usize {
        self.align
    }

    /// Makes a layout of `size` bytes aligned to `align` bytes. There is none
    /// where `align` is no power of two.
    pub fn from_size_align(size: usize, align: usize) -> (layout: Option<Layout>)
        ensures
            layout is Some <==> is_pow2(align as int),
            layout matches Some(made) ==> made.bytes() == size && made.alignment() == align,
    {
        if is_power_of_two(align) {
            Some(Layout { size, align })
        } else {
            None
        }
    }

    /// Returns the size in bytes.
    pub fn size(&self) -> (size: usize)
        ensures
            size == self.bytes(),
    {
        self.size
    }

    /// Returns the alignment in bytes, a power of two.
    pub fn align(&self) -> (align: usize)
        ensures
            align == self.alignment(),
            is_pow2(align as int),
            align >= 1,
    {
        proof {
            use_type_invariant(self);
            reveal(is_pow2);
        }
        self.align
    }
}

/// One size class: the size of its blocks and the list of those that are
/// free, the block freed last at the end.
#[derive(Debug)]
pub struct Bin {
    size: usize,
    freed: Vec<usize>,
}

/// The number of bins in use: those whose block size the address space can
/// express.
pub open spec fn usable_bins() -> int {
    if usize::BITS < NUM_BINS {
        usize::BITS as int
    } else {
        NUM_BINS as int
    }
}

/// Returns the number of bins in use.
pub fn bin_limit() -> (limit: usize)
    ensures
        limit == usable_bins(),
        0 < limit <= NUM_BINS,
        limit <= usize::BITS,
{
    if usize::BITS < 39 {
        usize::BITS as usize
    } else {
        NUM_BINS
    }
}

/// Whether the address `addr` is a multiple of `align`.
pub open spec fn is_aligned(addr: usize, align: usize) -> bool {
    addr as int % align as int == 0
}

/// Finds the block of `list` nearest its head that is aligned to `align`,
/// and returns its position.
pub fn find_aligned_node(list: &Vec<usize>, align: usize) -> (found: Option<usize>)
    requires
        align > 0,
    ensures
        match found {
            Some(j) => {
                &&& j < list@.len()
                &&& is_aligned(list@[j as int], align)
                &&& forall|later: int| j < later < list@.len() ==> !is_aligned(#[trigger] list@[later], align)
            },
            None => forall|j: int| 0 <= j < list@.len() ==> !is_aligned(#[trigger] list@[j], align),
        },
{
    let mut j: usize = list.len();
    while j > 0
        invariant
            j <= list@.len(),
            align > 0,
            forall|later: int| j <= later < list@.len() ==> !is_aligned(#[trigger] list@[later], align),
        decreases j,
    {
        j -= 1;
        if list[j] % align == 0 {
            return Some(j);
        }
    }
    None
}

/// The address within a block at `val` at which an allocation of alignment
/// `align` is placed when the block is cut: the last multiple of twice the
/// alignment that is not beyond `val + align`.
pub open spec fn cut_at(val: usize, align: usize) -> int {
    let reach = if val + align > usize::MAX {
        usize::MAX as int
    } else {
        val + align
    };
    aligned_down(reach, 2 * align)
}

/// Whether an allocation of `alloc_size` bytes aligned to `align` can be cut
/// out of the inside of the block of `bin_size` bytes at `val`: the place of
/// the cut lies behind the beginning of the block, and the allocation ends
/// within the block.
pub open spec fn contains(val: usize, align: usize, alloc_size: usize, bin_size: usize) -> bool {
    cut_at(val, align) > val && cut_at(val, align) + alloc_size <= val + bin_size
}

/// Finds the block of `list` nearest its head out of whose inside an
/// allocation of `alloc_size` bytes aligned to `align` can be cut, and
/// returns its position and the address of the allocation. The blocks of
/// the list have `bin_size` bytes.
pub fn find_containing_node(
    list: &Vec<usize>,
    align: usize,
    alloc_size: usize,
    bin_size: usize,
) -> (found: Option<(usize, usize)>)
    requires
        is_pow2(align as int),
        2 * align <= usize::MAX,
        forall|j: int| 0 <= j < list@.len() ==> #[trigger] list@[j] + bin_size <= usize::MAX,
    ensures
        match found {
            Some((j, next_aligned)) => {
                &&& j < list@.len()
                &&& next_aligned == cut_at(list@[j as int], align)
                &&& contains(list@[j as int], align, alloc_size, bin_size)
                &&& forall|later: int|
                    j < later < list@.len() ==> !contains(
                        #[trigger] list@[later],
                        align,
                        alloc_size,
                        bin_size,
                    )
            },
            None => forall|j: int|
                0 <= j < list@.len() ==> !contains(#[trigger] list@[j], align, alloc_size, bin_size),
        },
{
    proof {
        lemma_double_is_power(align);
    }
    let mut j: usize = list.len();
    while j > 0
        invariant
            j <= list@.len(),
            is_pow2(align as int),
            is_pow2(2 * align),
            2 * align <= usize::MAX,
            forall|k: int| 0 <= k < list@.len() ==> #[trigger] list@[k] + bin_size <= usize::MAX,
            forall|later: int|
                j <= later < list@.len() ==> !contains(
                    #[trigger] list@[later],
                    align,
                    alloc_size,
                    bin_size,
                ),
        decreases j,
    {
        j -= 1;
        let val: usize = list[j];
        let end: usize = val + bin_size;
        let next_aligned: usize = align_down(val.saturating_add(align), 2 * align);
        if next_aligned > val && next_aligned <= end && alloc_size <= end - next_aligned {
            return Some((j, next_aligned));
        }
    }
    None
}

/// Twice a power of two is a power of two.
pub proof fn lemma_double_is_power(align: usize)
    requires
        is_pow2(align as int),
    ensures
        is_pow2(2 * align),
        align >= 1,
{
    reveal(is_pow2);
    assert(is_pow2(2 * align)) by {
        assert((2 * align) / 2 == align as int);
        assert((2 * align) % 2 == 0);
    }
}

/// The least size in bytes of a block that can be listed as free: the list
/// is threaded through the free blocks, so a block has to hold an address.
pub open spec fn word_bytes() -> int {
    usize::BITS as int / 8
}

/// A simple allocator that allocates based on size classes.
///
/// Memory is taken from the region between two addresses. Fresh memory comes
/// from the beginning of the part of the region that was never handed out;
/// memory that was given back is kept in the bins and handed out again.
#[derive(Debug)]
pub struct Allocator {
    bins: Vec<Bin>,
    start: usize,
    current: usize,
    end: usize,
}

impl Allocator {
    /// The free blocks of each bin, the block freed last at the end.
    pub closed spec fn lists(&self) -> Seq<Seq<usize>> {
        Seq::new(self.bins@.len(), |k: int| self.bins@[k].freed@)
    }

    /// The address at which the region begins.
    pub closed spec fn start(&self) -> usize {
        self.start
    }

    /// The address at which the memory that was never handed out begins.
    pub closed spec fn current(&self) -> usize {
        self.current
    }

    /// The address at which the region ends.
    pub closed spec fn end(&self) -> usize {
        self.end
    }

    /// Whether the byte at `addr` is free: it lies in a listed block or was
    /// never handed out.
    pub open spec fn is_free(&self, addr: int) -> bool {
        free_in(self.lists(), addr) || self.current() <= addr < self.end()
    }

    /// Whether the allocator is well formed: it has all its bins, every
    /// listed block lies within the part of the region that was handed out,
    /// and no two listed blocks share a byte.
    pub open spec fn wf(&self) -> bool {
        &&& self.lists().len() == NUM_BINS
        &&& self.start() <= self.current()
        &&& within(self.lists(), self.start() as int, self.current() as int)
        &&& apart(self.lists())
    }

    /// Creates a new bin allocator that will allocate memory from the region
    /// starting at address `start` and ending at address `end`.
    pub fn new(start: usize, end: usize) -> (allocator: Allocator)
        ensures
            allocator.wf(),
            allocator.start() == start,
            allocator.current() == start,
            allocator.end() == end,
            forall|addr: int| allocator.is_free(addr) <==> start <= addr < end,
            forall|k: int| 0 <= k < NUM_BINS ==> (#[trigger] allocator.lists()[k]).len() == 0,
    {
        let limit: usize = bin_limit();
        let mut bins: Vec<Bin> = Vec::new();
        let mut i: usize = 0;
        while i < NUM_BINS
            invariant
                i <= NUM_BINS,
                limit == usable_bins(),
                limit <= usize::BITS,
                bins@.len() == i,
                forall|k: int| 0 <= k < i ==> (#[trigger] bins@[k]).freed@.len() == 0,
            decreases NUM_BINS - i,
        {
            let size: usize = if i < limit {
                block_size(i)
            } else {
                0
            };
            bins.push(Bin { size, freed: Vec::new() });
            i += 1;
        }
        let allocator = Allocator { current: start, start, end, bins };
        proof {
            assert forall|addr: int| !free_in(allocator.lists(), addr) by {
                if free_in(allocator.lists(), addr) {
                    let (k, j) = choose|k: int, j: int|
                        covers(allocator.lists(), k, j, addr);
                    assert(listed(allocator.lists(), k, j));
                    assert(allocator.lists()[k] == bins@[k].freed@);
                }
            }
            assert forall|k: int, j: int| !(#[trigger] listed(allocator.lists(), k, j)) by {
                if listed(allocator.lists(), k, j) {
                    assert(allocator.lists()[k] == bins@[k].freed@);
                }
            }
        }
        allocator
    }
}

impl Allocator {
    /// Takes the block at position `j` out of the list of bin `k` and
    /// returns its address.
    fn take_node(&mut self, k: usize, j: usize) -> (addr: usize)
        requires
            listed(old(self).lists(), k as int, j as int),
        ensures
            addr == old(self).lists()[k as int][j as int],
            final(self).lists() == without(old(self).lists(), k as int, j as int),
            final(self).start() == old(self).start(),
            final(self).current() == old(self).current(),
            final(self).end() == old(self).end(),
    {
        let addr = self.bins[k].freed.remove(j);
        assert(final(self).lists() =~= without(old(self).lists(), k as int, j as int));
        addr
    }

    /// Puts a block at `addr` at the head of the list of bin `k`.
    fn put_node(&mut self, k: usize, addr: usize)
        requires
            k < old(self).lists().len(),
        ensures
            final(self).lists() == with(old(self).lists(), k as int, addr),
            final(self).start() == old(self).start(),
            final(self).current() == old(self).current(),
            final(self).end() == old(self).end(),
    {
        self.bins[k].freed.push(addr);
        assert(final(self).lists() =~= with(old(self).lists(), k as int, addr));
    }
}

/// How far the merging of a freed block of `size` bytes can still go: the
/// number of bins above the one that the block goes to.
pub open spec fn bins_above(size: usize) -> int {
    if floor_bin(size as nat) < NUM_BINS {
        NUM_BINS - floor_bin(size as nat)
    } else {
        0
    }
}

impl Allocator {
    /// Gives the `size` bytes at `ptr` back to the bins.
    ///
    /// The bytes go to the largest bin whose blocks fit into them; what is
    /// left over behind such a block is given up. Where the list of the
    /// bin holds a block that borders on the new one, the two are taken
    /// together and given back as one block of the next bin. Fewer bytes
    /// than an address takes cannot be listed and are given up.
    fn release(&mut self, ptr: usize, size: usize)
        requires
            old(self).wf(),
            old(self).start() <= ptr,
            ptr + size <= old(self).current(),
            forall|addr: int| ptr <= addr < ptr + size ==> !free_in(old(self).lists(), addr),
        ensures
            final(self).wf(),
            final(self).start() == old(self).start(),
            final(self).current() == old(self).current(),
            final(self).end() == old(self).end(),
            forall|addr: int| #[trigger]
                free_in(final(self).lists(), addr) ==> free_in(old(self).lists(), addr) || ptr
                    <= addr < ptr + size,
            forall|addr: int|
                free_in(old(self).lists(), addr) ==> #[trigger] free_in(final(self).lists(), addr),
            is_pow2(size as int) && size >= word_bytes() && floor_bin(size as nat) < usable_bins()
                ==> forall|addr: int|
                ptr <= addr < ptr + size ==> #[trigger] free_in(final(self).lists(), addr),
        decreases bins_above(size),
    {
        let limit: usize = bin_limit();
        let mut bin_num: usize = calculate_bin_num(size);
        if !is_power_of_two(size) {
            bin_num = bin_num.saturating_sub(1);
        }
        proof {
            if size >= 1 {
                lemma_floor_and_bin(size as nat);
                lemma_floor_bin(size as nat);
            }
        }
        let ghost floor = bin_num;
        if bin_num >= limit {
            bin_num = limit - 1;
            proof {
                if size >= 1 && floor > bin_num {
                    lemma_pow2_strictly_increases(bin_num as nat, floor as nat);
                }
            }
        }
        let word: usize = (usize::BITS / 8) as usize;
        if size >= word {
            let bin_size: usize = block_size(bin_num);
            assert(bin_size <= size);
            let ghost lists = self.lists();
            let mut j: usize = self.bins[bin_num].freed.len();
            assert(self.bins@[bin_num as int].freed@ == lists[bin_num as int]);
            while j > 0
                invariant
                    j <= lists[bin_num as int].len(),
                    bin_num < limit,
                    limit == usable_bins(),
                    limit <= usize::BITS,
                    limit <= NUM_BINS,
                    bin_size == pow2(bin_num as nat),
                    1 <= bin_size <= size,
                    size >= word_bytes(),
                    word >= 1,
                    bin_num == floor || (bin_num + 1 == limit && floor >= limit),
                    floor == floor_bin(size as nat),
                    self.lists() == lists,
                    lists == old(self).lists(),
                    self.wf(),
                    self.start() == old(self).start(),
                    self.current() == old(self).current(),
                    self.end() == old(self).end(),
                    self.start() <= ptr,
                    ptr + size <= self.current(),
                    forall|addr: int| ptr <= addr < ptr + size ==> !free_in(lists, addr),
                    is_pow2(size as int) ==> size == pow2(floor as nat),
                    size < pow2((floor + 1) as nat),
                decreases j,
            {
                j -= 1;
                assert(self.bins@[bin_num as int].freed@ == lists[bin_num as int]);
                let node_val: usize = self.bins[bin_num].freed[j];
                assert(listed(lists, bin_num as int, j as int));
                assert(past(lists, bin_num as int, j as int) <= self.current());
                if bin_num + 1 < limit {
                    let merges_below = ptr > node_val && node_val + bin_size == ptr;
                    let merges_above = node_val > ptr && ptr + bin_size == node_val;
                    if merges_below || merges_above {
                        let merged: usize = if merges_below {
                            node_val
                        } else {
                            ptr
                        };
                        proof {
                            lemma_without(
                                lists,
                                bin_num as int,
                                j as int,
                                self.start() as int,
                                self.current() as int,
                            );
                            lemma_pow2_unfold((bin_num + 1) as nat);
                            lemma_bins_of_power((bin_num + 1) as nat);
                        }
                        self.take_node(bin_num, j);
                        let double: usize = block_size(bin_num + 1);
                        let ghost taken = self.lists();
                        assert forall|addr: int| merged <= addr < merged + double implies !free_in(
                            taken,
                            addr,
                        ) by {
                            if node_val <= addr < node_val + bin_size {
                            } else {
                                assert(ptr <= addr < ptr + size);
                            }
                        }
                        self.release(merged, double);
                        proof {
                            let after = self.lists();
                            assert forall|addr: int| #[trigger] free_in(after, addr) implies free_in(
                                lists,
                                addr,
                            ) || ptr <= addr < ptr + size by {
                                if free_in(taken, addr) {
                                } else {
                                    assert(merged <= addr < merged + double);
                                    if node_val <= addr < node_val + bin_size {
                                        assert(covers(lists, bin_num as int, j as int, addr));
                                    }
                                }
                            }
                            assert(is_pow2(double as int));
                            assert(double >= word_bytes());
                            assert(floor_bin(double as nat) < usable_bins());
                            assert forall|addr: int| free_in(lists, addr) implies #[trigger] free_in(
                                after,
                                addr,
                            ) by {
                                if node_val <= addr < node_val + bin_size {
                                    assert(merged <= addr < merged + double);
                                } else {
                                    assert(free_in(taken, addr));
                                }
                            }
                        }
                        return;
                    }
                }
            }
            proof {
                lemma_with(lists, bin_num as int, ptr, self.start() as int, self.current() as int);
            }
            self.put_node(bin_num, ptr);
        }
    }

    /// Deallocates the memory referenced by `ptr`.
    ///
    /// The block at `ptr` was handed out by this allocator for `layout`, and
    /// has not been given back since: it lies within the part of the region
    /// that was handed out, and none of its bytes is free.
    ///
    /// Afterwards every byte that was free is free still, and no byte is
    /// free that was neither free before nor part of the block. The whole
    /// block is free where its size is a power of two of at least the size of
    /// an address, as the sizes of the bins are.
    pub fn dealloc(&mut self, ptr: usize, layout: Layout)
        requires
            old(self).wf(),
            old(self).start() <= ptr,
            ptr + layout.bytes() <= old(self).current(),
            forall|addr: int| ptr <= addr < ptr + layout.bytes() ==> !old(self).is_free(addr),
        ensures
            final(self).wf(),
            final(self).start() == old(self).start(),
            final(self).current() == old(self).current(),
            final(self).end() == old(self).end(),
            forall|addr: int| #[trigger]
                final(self).is_free(addr) ==> old(self).is_free(addr) || ptr <= addr < ptr
                    + layout.bytes(),
            forall|addr: int| old(self).is_free(addr) ==> #[trigger] final(self).is_free(addr),
            is_pow2(layout.bytes() as int) && layout.bytes() >= word_bytes() && floor_bin(
                layout.bytes() as nat,
            ) < usable_bins() ==> forall|addr: int|
                ptr <= addr < ptr + layout.bytes() ==> #[trigger] final(self).is_free(addr),
    {
        assert forall|addr: int| ptr <= addr < ptr + layout.bytes() implies !free_in(
            self.lists(),
            addr,
        ) by {
            assert(!self.is_free(addr));
        }
        self.release(ptr, layout.size());
    }
}

/// Whether bin `k` lists a block that is aligned to `align`.
pub open spec fn aligned_in(lists: Seq<Seq<usize>>, k: int, align: usize) -> bool {
    exists|j: int| listed(lists, k, j) && is_aligned(#[trigger] lists[k][j], align)
}

/// Whether bin `k` lists a block out of whose inside an allocation of `size`
/// bytes aligned to `align` can be cut.
pub open spec fn cut_in(lists: Seq<Seq<usize>>, k: int, align: usize, size: usize) -> bool {
    exists|j: int|
        listed(lists, k, j) && contains(#[trigger] lists[k][j], align, size, pow2(k as nat) as usize)
}

/// The alignment of fresh memory for an allocation aligned to `align`.
pub open spec fn fresh_align(align: usize) -> usize {
    if align < MIN_ALIGN {
        MIN_ALIGN
    } else {
        align
    }
}

impl Allocator {
    /// The address at which fresh memory for an allocation aligned to `align`
    /// begins.
    pub open spec fn fresh_at(&self, align: usize) -> int {
        aligned_up(self.current() as int, fresh_align(align) as int)
    }

    /// Whether `layout` can be served from fresh memory: the allocation ends
    /// before the end of the region.
    pub open spec fn fresh_fits(&self, layout: Layout) -> bool {
        self.fresh_at(layout.alignment()) + layout.bytes() < self.end()
    }

    /// Whether `layout` can be served from the bins: a bin from that of the
    /// size on lists an aligned block, or a larger bin lists a block out of
    /// which the allocation can be cut.
    pub open spec fn reuses(&self, layout: Layout) -> bool {
        let bin = bin_of(layout.bytes() as nat) as int;
        let align = layout.alignment();
        ||| exists|k: int| bin <= k < usable_bins() && #[trigger] aligned_in(self.lists(), k, align)
        ||| 2 * align <= usize::MAX && exists|k: int|
            bin < k < usable_bins() && #[trigger] cut_in(self.lists(), k, align, layout.bytes())
    }

    /// Whether `layout` can be served. Its size has a bin, and either a bin
    /// from that one on lists an aligned block, or a larger bin lists a block
    /// out of which the allocation can be cut, or fresh memory is left for
    /// it.
    pub open spec fn serves(&self, layout: Layout) -> bool {
        let bin = bin_of(layout.bytes() as nat) as int;
        let align = layout.alignment();
        &&& bin < usable_bins()
        &&& {
            ||| exists|k: int| bin <= k < usable_bins() && #[trigger] aligned_in(self.lists(), k, align)
            ||| 2 * align <= usize::MAX && exists|k: int|
                bin < k < usable_bins() && #[trigger] cut_in(self.lists(), k, align, layout.bytes())
            ||| self.fresh_fits(layout)
        }
    }

    /// Whether `ptr` is the block that is handed out for `layout`: the
    /// aligned block nearest the head of the first bin, from the bin of the
    /// size on, that lists an aligned block; without such a block, the cut
    /// out of the block nearest the head of the first larger bin that lists
    /// a block to cut from; without that either, fresh memory.
    pub open spec fn hands_out(&self, layout: Layout, ptr: usize) -> bool {
        let bin = bin_of(layout.bytes() as nat) as int;
        let align = layout.alignment();
        let size = layout.bytes();
        let lists = self.lists();
        if exists|k: int| bin <= k < usable_bins() && #[trigger] aligned_in(lists, k, align) {
            exists|k: int, j: int|
                {
                    &&& bin <= k < usable_bins()
                    &&& #[trigger] listed(lists, k, j)
                    &&& lists[k][j] == ptr
                    &&& is_aligned(ptr, align)
                    &&& forall|later: int|
                        j < later < lists[k].len() ==> !is_aligned(#[trigger] lists[k][later], align)
                    &&& forall|lower: int|
                        bin <= lower < k ==> !(#[trigger] aligned_in(lists, lower, align))
                }
        } else if 2 * align <= usize::MAX && exists|k: int|
            bin < k < usable_bins() && #[trigger] cut_in(lists, k, align, size) {
            exists|k: int, j: int|
                {
                    &&& bin < k < usable_bins()
                    &&& #[trigger] listed(lists, k, j)
                    &&& ptr == cut_at(lists[k][j], align)
                    &&& contains(lists[k][j], align, size, pow2(k as nat) as usize)
                    &&& forall|later: int|
                        j < later < lists[k].len() ==> !contains(
                            #[trigger] lists[k][later],
                            align,
                            size,
                            pow2(k as nat) as usize,
                        )
                    &&& forall|lower: int|
                        bin < lower < k ==> !(#[trigger] cut_in(lists, lower, align, size))
                }
        } else {
            ptr == self.fresh_at(align)
        }
    }

    /// Allocates memory. Returns the address of a block that meets the size
    /// and alignment of `layout`.
    ///
    /// A block given back earlier is handed out again where one is found: the
    /// aligned block nearest the head of the list of the bin of the size, or
    /// else of the first larger bin that lists one, of which the part behind
    /// the allocation is given back; or else a block of a larger bin out of
    /// whose inside the allocation can be cut, of which the parts before and
    /// behind the allocation are given back. Otherwise the block is fresh
    /// memory, aligned to at least `MIN_ALIGN`.
    ///
    /// The bytes of the block were free and are free no longer, and no byte
    /// becomes free. An allocation that cannot be served leaves the allocator
    /// as it is and returns the error.
    pub fn allocate(&mut self, layout: Layout) -> (block: Result<usize, AllocErr>)
        requires
            old(self).wf(),
        ensures
            final(self).wf(),
            final(self).start() == old(self).start(),
            final(self).end() == old(self).end(),
            forall|addr: int| #[trigger] final(self).is_free(addr) ==> old(self).is_free(addr),
            block is Ok <==> old(self).serves(layout),
            block matches Ok(ptr) ==> {
                &&& old(self).hands_out(layout, ptr)
                &&& is_aligned(ptr, layout.alignment())
                &&& old(self).start() <= ptr
                &&& ptr + layout.bytes() <= final(self).current()
                &&& old(self).current() <= final(self).current()
                &&& forall|addr: int|
                    ptr <= addr < ptr + layout.bytes() ==> #[trigger] old(self).is_free(addr)
                        && !final(self).is_free(addr)
            },
            block is Err ==> final(self).lists() == old(self).lists() && final(self).current()
                == old(self).current(),
            block matches Ok(ptr) ==> final(self).current() == if old(self).reuses(layout) {
                old(self).current() as int
            } else {
                ptr + layout.bytes()
            },
            block is Ok && !old(self).reuses(layout) ==> final(self).lists() == old(self).lists(),
    {
        let size: usize = layout.size();
        let align: usize = layout.align();
        let limit: usize = bin_limit();
        let bin_num: usize = calculate_bin_num(size);
        let ghost lists = self.lists();
        if bin_num >= limit {
            return Err(AllocErr);
        }
        let bin_size: usize = block_size(bin_num);
        proof {
            lemma_bin_of(size as nat);
        }
        assert(self.bins@[bin_num as int].freed@ == lists[bin_num as int]);
        match find_aligned_node(&self.bins[bin_num].freed, align) {
            Some(j) => {
                proof {
                    assert(listed(lists, bin_num as int, j as int));
                    assert(aligned_in(lists, bin_num as int, align));
                    lemma_without(
                        lists,
                        bin_num as int,
                        j as int,
                        self.start() as int,
                        self.current() as int,
                    );
                }
                let val: usize = self.take_node(bin_num, j);
                proof {
                    assert forall|addr: int| val <= addr < val + size implies #[trigger] old(
                        self,
                    ).is_free(addr) && !self.is_free(addr) by {
                        assert(covers(lists, bin_num as int, j as int, addr));
                    }
                }
                return Ok(val);
            },
            None => {},
        }
        assert(!aligned_in(lists, bin_num as int, align));
        let mut bin_cursor: usize = bin_num + 1;
        while bin_cursor < limit
            invariant
                bin_num < bin_cursor <= limit,
                limit == usable_bins(),
                limit <= usize::BITS,
                limit <= NUM_BINS,
                align == layout.alignment(),
                align >= 1,
                size == layout.bytes(),
                size <= bin_size,
                bin_num == bin_of(size as nat),
                bin_size == pow2(bin_num as nat),
                self.lists() == lists,
                lists == old(self).lists(),
                self.wf(),
                self.start() == old(self).start(),
                self.current() == old(self).current(),
                self.end() == old(self).end(),
                forall|k: int| bin_num <= k < bin_cursor ==> !(#[trigger] aligned_in(lists, k, align)),
            decreases limit - bin_cursor,
        {
            assert(self.bins@[bin_cursor as int].freed@ == lists[bin_cursor as int]);
            match find_aligned_node(&self.bins[bin_cursor].freed, align) {
                Some(j) => {
                    proof {
                        assert(listed(lists, bin_cursor as int, j as int));
                        assert(aligned_in(lists, bin_cursor as int, align));
                        lemma_without(
                            lists,
                            bin_cursor as int,
                            j as int,
                            self.start() as int,
                            self.current() as int,
                        );
                        lemma_pow2_strictly_increases(bin_num as nat, bin_cursor as nat);
                    }
                    let val: usize = self.take_node(bin_cursor, j);
                    let cursor_bin_size: usize = block_size(bin_cursor);
                    let ghost taken = self.lists();
                    let new_segment_start: usize = val + bin_size;
                    let new_segment_end: usize = val + cursor_bin_size;
                    self.release(new_segment_start, new_segment_end - new_segment_start);
                    proof {
                        assert forall|addr: int| #[trigger] self.is_free(addr) implies old(
                            self,
                        ).is_free(addr) by {
                            if free_in(self.lists(), addr) {
                                if !free_in(taken, addr) {
                                    assert(covers(lists, bin_cursor as int, j as int, addr));
                                }
                            }
                        }
                        assert forall|addr: int| val <= addr < val + size implies #[trigger] old(
                            self,
                        ).is_free(addr) && !self.is_free(addr) by {
                            assert(covers(lists, bin_cursor as int, j as int, addr));
                            assert(!free_in(taken, addr));
                        }
                    }
                    return Ok(val);
                },
                None => {},
            }
            bin_cursor += 1;
        }
        let can_cut = align <= usize::MAX / 2;
        let mut bin_cursor: usize = bin_num + 1;
        while can_cut && bin_cursor < limit
            invariant
                bin_num < bin_cursor <= limit,
                limit == usable_bins(),
                limit <= usize::BITS,
                limit <= NUM_BINS,
                align == layout.alignment(),
                is_pow2(align as int),
                can_cut == (2 * align <= usize::MAX),
                size == layout.bytes(),
                size <= bin_size,
                bin_num == bin_of(size as nat),
                bin_size == pow2(bin_num as nat),
                self.lists() == lists,
                lists == old(self).lists(),
                self.wf(),
                self.start() == old(self).start(),
                self.current() == old(self).current(),
                self.end() == old(self).end(),
                forall|k: int| bin_num <= k < limit ==> !(#[trigger] aligned_in(lists, k, align)),
                forall|k: int| bin_num < k < bin_cursor ==> !(#[trigger] cut_in(lists, k, align, size)),
            decreases limit - bin_cursor,
        {
            let cursor_bin_size: usize = block_size(bin_cursor);
            assert(self.bins@[bin_cursor as int].freed@ == lists[bin_cursor as int]);
            assert forall|j: int| 0 <= j < lists[bin_cursor as int].len() implies #[trigger] lists[bin_cursor as int][j]
                + cursor_bin_size <= usize::MAX by {
                assert(listed(lists, bin_cursor as int, j));
                assert(past(lists, bin_cursor as int, j) <= self.current());
            }
            match find_containing_node(&self.bins[bin_cursor].freed, align, size, cursor_bin_size) {
                Some((j, next_aligned)) => {
                    proof {
                        assert(listed(lists, bin_cursor as int, j as int));
                        assert(cut_in(lists, bin_cursor as int, align, size));
                        lemma_without(
                            lists,
                            bin_cursor as int,
                            j as int,
                            self.start() as int,
                            self.current() as int,
                        );
                        lemma_double_is_power(align);
                        lemma_aligned_down(
                            if lists[bin_cursor as int][j as int] + align > usize::MAX {
                                usize::MAX as int
                            } else {
                                lists[bin_cursor as int][j as int] + align
                            },
                            2 * align,
                        );
                        lemma_multiple_of_double(next_aligned as int, align as int);
                    }
                    let val: usize = self.take_node(bin_cursor, j);
                    let ghost taken = self.lists();
                    let block_end: usize = val + cursor_bin_size;
                    self.release(val, next_aligned - val);
                    let ghost cut = self.lists();
                    if bin_size < block_end - next_aligned {
                        let new_segment_start: usize = next_aligned + bin_size;
                        assert forall|addr: int|
                            new_segment_start <= addr < block_end implies !free_in(cut, addr) by {
                            assert(!free_in(taken, addr));
                        }
                        self.release(new_segment_start, block_end - new_segment_start);
                    }
                    proof {
                        assert forall|addr: int| #[trigger] self.is_free(addr) implies old(
                            self,
                        ).is_free(addr) by {
                            if free_in(self.lists(), addr) {
                                if !free_in(taken, addr) {
                                    assert(covers(lists, bin_cursor as int, j as int, addr));
                                }
                            }
                        }
                        assert forall|addr: int|
                            next_aligned <= addr < next_aligned + size implies #[trigger] old(
                            self,
                        ).is_free(addr) && !self.is_free(addr) by {
                            assert(covers(lists, bin_cursor as int, j as int, addr));
                            assert(!free_in(taken, addr));
                            assert(!free_in(cut, addr));
                        }
                    }
                    return Ok(next_aligned);
                },
                None => {},
            }
            bin_cursor += 1;
        }
        let fresh: usize = if align < MIN_ALIGN {
            MIN_ALIGN
        } else {
            align
        };
        proof {
            lemma_fresh_align(align);
            lemma_aligned_down(self.current() as int, fresh as int);
            lemma_aligned_up(self.current() as int, fresh as int);
            lemma_multiple_of_multiple(self.fresh_at(align), fresh as int, align as int);
        }
        let down: usize = align_down(self.current, fresh);
        let next_aligned: usize = if down == self.current {
            down
        } else if down > usize::MAX - fresh {
            return Err(AllocErr);
        } else {
            down + fresh
        };
        if next_aligned.saturating_add(size) >= self.end {
            return Err(AllocErr);
        }
        proof {
            assert forall|addr: int| free_in(lists, addr) implies addr < self.current() by {
                let (k, j) = choose|k: int, j: int| covers(lists, k, j, addr);
                assert(listed(lists, k, j));
            }
        }
        self.current = next_aligned + size;
        proof {
            assert(self.lists() == lists);
            assert forall|k: int, j: int| #[trigger] listed(lists, k, j) implies k < usize::BITS
                && self.start() <= first(lists, k, j) && past(lists, k, j) <= self.current() by {
                assert(past(lists, k, j) <= old(self).current());
            }
        }
        Ok(next_aligned)
    }
}

/// A multiple of twice a number is a multiple of the number.
pub proof fn lemma_multiple_of_double(addr: int, align: int)
    requires
        align > 0,
        addr % (2 * align) == 0,
    ensures
        addr % align == 0,
{
    vstd::arithmetic::div_mod::lemma_mod_multiples_basic(2, align);
    lemma_multiple_of_multiple(addr, 2 * align, align);
}

/// The least alignment of fresh memory is a multiple of every smaller power
/// of two.
pub proof fn lemma_fresh_align(align: usize)
    requires
        is_pow2(align as int),
    ensures
        fresh_align(align) as int % align as int == 0,
        is_pow2(fresh_align(align) as int),
        fresh_align(align) >= 1,
{
    reveal_with_fuel(is_pow2, 6);
    if align < MIN_ALIGN {
        assert(align == 1 || align == 2 || align == 4 || align == 8);
        assert(16int % 1 == 0 && 16int % 2 == 0 && 16int % 4 == 0 && 16int % 8 == 0);
    } else {
        vstd::arithmetic::div_mod::lemma_mod_multiples_basic(1, align as int);
        assert(1 * (align as int) == align as int);
    }
}

/// A multiple of a number is a multiple of every power of two that is not
/// larger than the number, where the number is a power of two itself.
pub proof fn lemma_multiple_of_multiple(addr: int, large: int, small: int)
    requires
        small > 0,
        large > 0,
        addr % large == 0,
        large % small == 0,
    ensures
        addr % small == 0,
{
    vstd::arithmetic::div_mod::lemma_fundamental_div_mod(addr, large);
    vstd::arithmetic::div_mod::lemma_fundamental_div_mod(large, small);
    let q = addr / large;
    let r = large / small;
    assert(addr == small * (r * q)) by (nonlinear_arith)
        requires
            addr == large * q,
            large == small * r,
    ;
    vstd::arithmetic::div_mod::lemma_mod_multiples_basic(r * q, small);
    assert(small * (r * q) == (r * q) * small) by (nonlinear_arith);
}

} // verus!
