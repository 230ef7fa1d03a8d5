//! The blocks of a file that are still to come.

use vstd::prelude::*;

verus! {

/// The number of blocks of a file: its size divided by the block size, rounded
/// up.
pub open spec fn block_count(file_size: int, block_size: int) -> int {
    (file_size + block_size - 1) / block_size
}

/// A file that is not empty ends in its last block, and an empty file has no
/// blocks.
pub proof fn lemma_block_geometry(file_size: int, block_size: int)
    requires
        file_size >= 0,
        block_size > 0,
    ensures
        file_size == 0 ==> block_count(file_size, block_size) == 0,
        file_size > 0 ==> block_count(file_size, block_size) > 0,
        (block_count(file_size, block_size) - 1) * block_size < file_size || file_size == 0,
        file_size <= block_count(file_size, block_size) * block_size,
{
    let count = block_count(file_size, block_size);
    let sum = file_size + block_size - 1;
    vstd::arithmetic::div_mod::lemma_fundamental_div_mod(sum, block_size);
    vstd::arithmetic::div_mod::lemma_mod_bound(sum, block_size);
    let rest = sum % block_size;
    assert(sum == block_size * count + rest);
    assert(block_size * count == count * block_size) by (nonlinear_arith);
    assert((count - 1) * block_size == count * block_size - block_size) by (nonlinear_arith);
    assert(count >= 0) by (nonlinear_arith)
        requires
            count * block_size > -block_size,
            block_size > 0,
    ;
    if file_size == 0 {
        assert(count < 1) by (nonlinear_arith)
            requires
                count * block_size < block_size,
                block_size > 0,
        ;
    } else {
        assert(count > 0) by (nonlinear_arith)
            requires
                count * block_size > 0,
                block_size > 0,
        ;
    }
}

/// The number of blocks that are still to come.
pub open spec fn outstanding(blocks: Seq<bool>) -> nat
    decreases blocks.len(),
{
    if blocks.len() == 0 {
        0
    } else {
        outstanding(blocks.drop_last()) + if blocks.last() {
            1nat
        } else {
            0nat
        }
    }
}

/// No more blocks can be outstanding than there are. It is all of them where
/// each one is, and fewer where one is not.
pub proof fn lemma_outstanding_bounds(blocks: Seq<bool>)
    ensures
        outstanding(blocks) <= blocks.len(),
        (forall|i: int| 0 <= i < blocks.len() ==> blocks[i]) <==> outstanding(blocks)
            == blocks.len(),
        (forall|i: int| 0 <= i < blocks.len() ==> !blocks[i]) <==> outstanding(blocks) == 0,
    decreases blocks.len(),
{
    if blocks.len() > 0 {
        let front = blocks.drop_last();
        lemma_outstanding_bounds(front);
        assert forall|i: int| 0 <= i < front.len() implies front[i] == blocks[i] by {}
        if forall|i: int| 0 <= i < blocks.len() ==> blocks[i] {
            assert(blocks[blocks.len() - 1]);
            assert forall|i: int| 0 <= i < front.len() implies front[i] by {
                assert(blocks[i]);
            }
        }
        if forall|i: int| 0 <= i < blocks.len() ==> !blocks[i] {
            assert(!blocks[blocks.len() - 1]);
            assert forall|i: int| 0 <= i < front.len() implies !front[i] by {
                assert(!blocks[i]);
            }
        }
        if outstanding(blocks) == blocks.len() {
            assert forall|i: int| 0 <= i < blocks.len() implies blocks[i] by {
                if i < front.len() {
                    assert(front[i]);
                }
            }
        }
        if outstanding(blocks) == 0 {
            assert forall|i: int| 0 <= i < blocks.len() implies !blocks[i] by {
                if i < front.len() {
                    assert(!front[i]);
                }
            }
        }
    }
}

/// One block fewer is outstanding once it has come.
pub proof fn lemma_outstanding_clear(blocks: Seq<bool>, index: int)
    requires
        0 <= index < blocks.len(),
        blocks[index],
    ensures
        outstanding(blocks.update(index, false)) + 1 == outstanding(blocks),
    decreases blocks.len(),
{
    let after = blocks.update(index, false);
    if index == blocks.len() - 1 {
        assert(after.drop_last() =~= blocks.drop_last());
    } else {
        lemma_outstanding_clear(blocks.drop_last(), index);
        assert(after.drop_last() =~= blocks.drop_last().update(index, false));
    }
}

/// Whether bit `k` of a byte is set, counted from the least significant bit.
pub open spec fn bit_of(byte: u8, k: u8) -> bool {
    (byte >> k) & 1 == 1
}

/// Whether `bytes` hold a bit for each of `blocks`, eight to a byte, least
/// significant bit first, and no other bit.
pub open spec fn packs(bytes: Seq<u8>, blocks: Seq<bool>) -> bool {
    &&& bytes.len() == (blocks.len() + 7) / 8
    &&& forall|i: int, k: u8|
        0 <= i < bytes.len() && k < 8 ==> #[trigger] bit_of(bytes[i], k) == (8 * i + k
            < blocks.len() && blocks[8 * i + k])
}

/// Setting a bit of a byte leaves its other bits alone. No bit of zero is set.
proof fn lemma_bits(byte: u8, k: u8)
    requires
        k < 8,
    ensures
        forall|j: u8| j < 8 ==> #[trigger] bit_of(byte | (1u8 << k), j) == (j == k || bit_of(byte, j)),
        forall|j: u8| j < 8 ==> !#[trigger] bit_of(0u8, j),
{
    assert forall|j: u8| j < 8 implies #[trigger] bit_of(byte | (1u8 << k), j) == (j == k || bit_of(
        byte,
        j,
    )) by {
        assert((((byte | (1u8 << k)) >> j) & 1 == 1) == (j == k || (byte >> j) & 1 == 1))
            by (bit_vector)
            requires
                k < 8,
                j < 8,
        ;
    }
    assert forall|j: u8| j < 8 implies !#[trigger] bit_of(0u8, j) by {
        assert((0u8 >> j) & 1 == 0) by (bit_vector);
    }
}

/// Which blocks of a file are still to come.
#[derive(Debug, PartialEq, Eq)]
pub struct Bitmap {
    blocks: Vec<bool>,
}

impl View for Bitmap {
    type V = Seq<bool>;

    closed spec fn view(&self) -> Seq<bool> {
        self.blocks@
    }
}

impl Clone for Bitmap {
    fn clone(&self) -> (copy: Self)
        ensures
            copy@ == self@,
    {
        let mut blocks: Vec<bool> = Vec::new();
        let mut i: usize = 0;
        while i < self.blocks.len()
            invariant
                i <= self.blocks@.len(),
                blocks@ == self.blocks@.take(i as int),
            decreases self.blocks@.len() - i,
        {
            blocks.push(self.blocks[i]);
            i = i + 1;
            assert(blocks@ =~= self.blocks@.take(i as int));
        }
        assert(self.blocks@.take(i as int) =~= self.blocks@);
        Bitmap { blocks }
    }
}

impl Bitmap {
    /// All blocks of a file of the given size.
    pub fn new(file_size: usize, block_size: usize) -> (bitmap: Self)
        requires
            block_size > 0,
            file_size + block_size <= usize::MAX,
        ensures
            bitmap@ == Seq::new(
                block_count(file_size as int, block_size as int) as nat,
                |i: int| true,
            ),
            outstanding(bitmap@) == bitmap@.len(),
    {
        let count: usize = (file_size + block_size - 1) / block_size;
        let mut blocks: Vec<bool> = Vec::new();
        while blocks.len() < count
            invariant
                blocks@.len() <= count,
                forall|i: int| 0 <= i < blocks@.len() ==> blocks@[i],
            decreases count - blocks@.len(),
        {
            blocks.push(true);
        }
        proof {
            lemma_outstanding_bounds(blocks@);
        }
        Bitmap { blocks }
    }

    /// Whether a block is still to come.
    pub fn get(&self, index: usize) -> (outstanding: bool)
        requires
            index < self@.len(),
        ensures
            outstanding == self@[index as int],
    {
        self.blocks[index]
    }

    /// Takes note that a block is still to come, or that it has come.
    pub fn set(&mut self, index: usize, outstanding: bool)
        requires
            index < old(self)@.len(),
        ensures
            final(self)@ == old(self)@.update(index as int, outstanding),
    {
        self.blocks.set(index, outstanding);
    }

    /// The blocks as they are sent to a stream: a bit for each block, eight to a
    /// byte, least significant bit first.
    pub fn to_bytes(&self) -> (bytes: Vec<u8>)
        ensures
            packs(bytes@, self@),
    {
        let blocks: usize = self.blocks.len();
        let count: usize = blocks / 8 + if blocks % 8 == 0 {
            0
        } else {
            1
        };
        let mut bytes: Vec<u8> = Vec::new();
        while bytes.len() < count
            invariant
                blocks == self@.len(),
                count == (blocks + 7) / 8,
                bytes@.len() <= count,
                forall|i: int, k: u8|
                    0 <= i < bytes@.len() && k < 8 ==> #[trigger] bit_of(bytes@[i], k) == (8 * i
                        + k < self@.len() && self@[8 * i + k]),
            decreases count - bytes@.len(),
        {
            let start: usize = 8 * bytes.len();
            let mut byte: u8 = 0;
            let mut k: u8 = 0;
            proof {
                lemma_bits(0, 0);
            }
            while k < 8
                invariant
                    k <= 8,
                    start == 8 * bytes@.len(),
                    start < blocks,
                    blocks == self@.len(),
                    forall|j: u8|
                        j < 8 ==> #[trigger] bit_of(byte, j) == (j < k && start + j < self@.len()
                            && self@[start + j]),
                decreases 8 - k,
            {
                proof {
                    lemma_bits(byte, k);
                }
                if (k as usize) < blocks - start && self.blocks[start + k as usize] {
                    byte = byte | (1u8 << k);
                }
                k = k + 1;
            }
            bytes.push(byte);
        }
        bytes
    }
}

} // verus!
