//! The chain store: blocks indexed by the hash of their header, the head of
//! the chain, and the total difficulty that decides between forks.

use crate::block::spec_genesis_block;
use crate::block::Block;
use crate::block::BlockView;
use crate::error::Error;
use crate::hash::lemma_h256_eq;
use crate::hash::zeros;
use crate::hash::H256;
use crate::header::HeaderView;
use crate::uint::lemma_value_canonical;
use crate::uint::modulus;
use crate::uint::U256;
use vstd::prelude::*;

verus! {

/// Whether a header is that of a genesis block: its parent hash is all zero.
pub open spec fn is_genesis(header: HeaderView) -> bool {
    header.parent_hash == zeros(32)
}

/// The index of the first block whose header hash is `hash`.
pub open spec fn position(blocks: Seq<BlockView>, hash: Seq<u8>) -> Option<int>
    decreases blocks.len(),
{
    if blocks.len() == 0 {
        None
    } else {
        match position(blocks.drop_last(), hash) {
            Some(i) => Some(i),
            None => if blocks.last().header.hash() == hash {
                Some(blocks.len() - 1)
            } else {
                None
            },
        }
    }
}

/// The stored blocks are those of a chain store: no two have the same header
/// hash, and each but a genesis block comes after its parent.
pub open spec fn chain_ordered(blocks: Seq<BlockView>) -> bool {
    &&& forall|i: int, j: int|
        0 <= i < j < blocks.len() ==> blocks[i].header.hash() != blocks[j].header.hash()
    &&& forall|i: int|
        0 <= i < blocks.len() && !is_genesis(#[trigger] blocks[i].header) ==> (position(
            blocks,
            blocks[i].header.parent_hash,
        ) matches Some(j) && 0 <= j < i)
}

/// The total difficulty of the block at index `i`: the sum of the
/// difficulties on the way from it through the parent links back to a
/// genesis block.
pub open spec fn total_difficulty_at(blocks: Seq<BlockView>, i: int) -> nat
    decreases i,
{
    if 0 <= i < blocks.len() {
        let header = blocks[i].header;
        header.difficulty + if is_genesis(header) {
            0
        } else {
            match position(blocks, header.parent_hash) {
                Some(j) => if 0 <= j < i {
                    total_difficulty_at(blocks, j)
                } else {
                    0
                },
                None => 0,
            }
        }
    } else {
        0
    }
}

/// The block at index `head` is the heaviest, and the first of the heaviest.
pub open spec fn is_heaviest(blocks: Seq<BlockView>, head: int) -> bool {
    &&& 0 <= head < blocks.len()
    &&& forall|i: int|
        0 <= i < blocks.len() ==> #[trigger] total_difficulty_at(blocks, i) <= total_difficulty_at(
            blocks,
            head,
        )
    &&& forall|i: int|
        0 <= i < head ==> #[trigger] total_difficulty_at(blocks, i) < total_difficulty_at(
            blocks,
            head,
        )
}

/// What holds of every chain store: the blocks are ordered, every total
/// difficulty fits in 256 bits, and the head is the first of the heaviest
/// blocks.
pub open spec fn valid_chain(blocks: Seq<BlockView>, head: int) -> bool {
    &&& chain_ordered(blocks)
    &&& forall|i: int|
        0 <= i < blocks.len() ==> #[trigger] total_difficulty_at(blocks, i) < modulus()
    &&& is_heaviest(blocks, head)
}

/// The total difficulty of a block's parent in the store: zero for a genesis
/// block, none where the parent is not stored.
pub open spec fn parent_total(blocks: Seq<BlockView>, header: HeaderView) -> Option<nat> {
    if is_genesis(header) {
        Some(0)
    } else {
        match position(blocks, header.parent_hash) {
            Some(j) => Some(total_difficulty_at(blocks, j)),
            None => None,
        }
    }
}

/// What adding a block returns: `UnknownParent` where the block is no
/// genesis block and its parent is not stored; else `Ok` where its header
/// hash is stored already; else `Overflow` where its total difficulty does
/// not fit in 256 bits; else `Ok`.
pub open spec fn add_block_result(blocks: Seq<BlockView>, block: BlockView) -> Result<(), Error> {
    match parent_total(blocks, block.header) {
        None => Err(Error::UnknownParent),
        Some(total) => if position(blocks, block.header.hash()) is Some {
            Ok(())
        } else if total + block.header.difficulty >= modulus() {
            Err(Error::Overflow)
        } else {
            Ok(())
        },
    }
}

/// Whether adding a block stores it as a new block: it is accepted and its
/// header hash is not stored yet.
pub open spec fn stores_block(blocks: Seq<BlockView>, block: BlockView) -> bool {
    add_block_result(blocks, block) is Ok && position(blocks, block.header.hash()) is None
}

/// The index at which adding a block stores it in place of a stored block:
/// that of the stored block with its header hash, where the block is
/// accepted and the two headers are the same.
pub open spec fn replaces_block(blocks: Seq<BlockView>, block: BlockView) -> Option<int> {
    match position(blocks, block.header.hash()) {
        Some(i) => if add_block_result(blocks, block) is Ok && 0 <= i < blocks.len()
            && blocks[i].header == block.header {
            Some(i)
        } else {
            None
        },
        None => None,
    }
}

/// The stored blocks after adding a block: with the block at the end where
/// it is new, with the block in place of the stored block that has its
/// header, and else as they were.
pub open spec fn blocks_after_add(blocks: Seq<BlockView>, block: BlockView) -> Seq<BlockView> {
    if stores_block(blocks, block) {
        blocks.push(block)
    } else {
        match replaces_block(blocks, block) {
            Some(i) => blocks.update(i, block),
            None => blocks,
        }
    }
}

/// The head after adding a block: the new block where it is stored as a new
/// block and heavier than the head, else the head as it was.
pub open spec fn head_after_add(blocks: Seq<BlockView>, head: int, block: BlockView) -> int {
    if stores_block(blocks, block) && parent_total(blocks, block.header)->0
        + block.header.difficulty > total_difficulty_at(blocks, head) {
        blocks.len() as int
    } else {
        head
    }
}

/// The index of the nearest block numbered `number` on the way from the
/// block at index `i` back to its genesis block.
pub open spec fn ancestor_numbered(blocks: Seq<BlockView>, i: int, number: nat) -> Option<int>
    decreases i,
{
    if 0 <= i < blocks.len() {
        let header = blocks[i].header;
        if header.number == number {
            Some(i)
        } else if is_genesis(header) {
            None
        } else {
            match position(blocks, header.parent_hash) {
                Some(j) => if 0 <= j < i {
                    ancestor_numbered(blocks, j, number)
                } else {
                    None
                },
                None => None,
            }
        }
    } else {
        None
    }
}

/// What a position says: the block there has the hash, and no earlier block
/// has; without a position no block has the hash.
pub proof fn lemma_position(blocks: Seq<BlockView>, hash: Seq<u8>)
    ensures
        position(blocks, hash) matches Some(i) ==> 0 <= i < blocks.len()
            && blocks[i].header.hash() == hash && forall|k: int|
            0 <= k < i ==> (#[trigger] blocks[k]).header.hash() != hash,
        position(blocks, hash) is None ==> forall|k: int|
            0 <= k < blocks.len() ==> (#[trigger] blocks[k]).header.hash() != hash,
    decreases blocks.len(),
{
    if blocks.len() > 0 {
        lemma_position(blocks.drop_last(), hash);
        match position(blocks.drop_last(), hash) {
            Some(i) => {
                assert(blocks.drop_last()[i] == blocks[i]);
                assert forall|k: int| 0 <= k < i implies (#[trigger] blocks[k]).header.hash()
                    != hash by {
                    assert(blocks.drop_last()[k] == blocks[k]);
                }
            },
            None => {
                assert forall|k: int| 0 <= k < blocks.len() - 1 implies (
                #[trigger] blocks[k]).header.hash() != hash by {
                    assert(blocks.drop_last()[k] == blocks[k]);
                }
            },
        }
    }
}

/// The position of a hash is the index of the first block that has it.
pub proof fn lemma_position_first(blocks: Seq<BlockView>, hash: Seq<u8>, i: int)
    requires
        0 <= i < blocks.len(),
        blocks[i].header.hash() == hash,
        forall|k: int| 0 <= k < i ==> (#[trigger] blocks[k]).header.hash() != hash,
    ensures
        position(blocks, hash) == Some(i),
    decreases blocks.len(),
{
    lemma_position(blocks.drop_last(), hash);
    if i < blocks.len() - 1 {
        assert(blocks.drop_last()[i] == blocks[i]);
        assert forall|k: int| 0 <= k < i implies (#[trigger] blocks.drop_last()[k]).header.hash()
            != hash by {
            assert(blocks.drop_last()[k] == blocks[k]);
        }
        lemma_position_first(blocks.drop_last(), hash, i);
    } else {
        match position(blocks.drop_last(), hash) {
            Some(k) => {
                assert(blocks.drop_last()[k] == blocks[k]);
            },
            None => {},
        }
    }
}

/// Storing one more block keeps the position of every hash that had one.
pub proof fn lemma_position_push(blocks: Seq<BlockView>, block: BlockView, hash: Seq<u8>)
    ensures
        position(blocks, hash) is Some ==> position(blocks.push(block), hash) == position(
            blocks,
            hash,
        ),
        position(blocks, hash) is None ==> position(blocks.push(block), hash) == (if block.header.hash()
            == hash {
            Some(blocks.len() as int)
        } else {
            None
        }),
{
    assert(blocks.push(block).drop_last() =~= blocks);
}

/// Storing one more block keeps the total difficulty of the blocks stored
/// before it.
pub proof fn lemma_total_push(blocks: Seq<BlockView>, block: BlockView, i: int)
    requires
        chain_ordered(blocks),
        0 <= i < blocks.len(),
    ensures
        total_difficulty_at(blocks.push(block), i) == total_difficulty_at(blocks, i),
    decreases i,
{
    let header = blocks[i].header;
    assert(blocks.push(block)[i] == blocks[i]);
    if !is_genesis(header) {
        lemma_position_push(blocks, block, header.parent_hash);
        let j = position(blocks, header.parent_hash)->0;
        lemma_total_push(blocks, block, j);
    }
}

/// Putting a block in place of a stored block with the same header keeps the
/// position of every hash.
pub proof fn lemma_position_update(blocks: Seq<BlockView>, i: int, block: BlockView, hash: Seq<u8>)
    requires
        0 <= i < blocks.len(),
        block.header == blocks[i].header,
    ensures
        position(blocks.update(i, block), hash) == position(blocks, hash),
    decreases blocks.len(),
{
    let after = blocks.update(i, block);
    if i == blocks.len() - 1 {
        assert(after.drop_last() =~= blocks.drop_last());
    } else {
        assert(after.drop_last() =~= blocks.drop_last().update(i, block));
        assert(blocks.drop_last()[i] == blocks[i]);
        lemma_position_update(blocks.drop_last(), i, block, hash);
        assert(after.last() == blocks.last());
    }
}

/// Putting a block in place of a stored block with the same header keeps
/// every total difficulty.
pub proof fn lemma_total_update(blocks: Seq<BlockView>, i: int, block: BlockView, j: int)
    requires
        0 <= i < blocks.len(),
        block.header == blocks[i].header,
    ensures
        total_difficulty_at(blocks.update(i, block), j) == total_difficulty_at(blocks, j),
    decreases j,
{
    let after = blocks.update(i, block);
    if 0 <= j < blocks.len() {
        assert(after[j].header == blocks[j].header);
        let header = blocks[j].header;
        if !is_genesis(header) {
            lemma_position_update(blocks, i, block, header.parent_hash);
            match position(blocks, header.parent_hash) {
                Some(k) => {
                    if 0 <= k < j {
                        lemma_total_update(blocks, i, block, k);
                    }
                },
                None => {},
            }
        }
    }
}

/// Putting a block in place of a stored block with the same header leaves a
/// valid chain store.
pub proof fn lemma_update_keeps_valid(blocks: Seq<BlockView>, head: int, i: int, block: BlockView)
    requires
        valid_chain(blocks, head),
        0 <= i < blocks.len(),
        block.header == blocks[i].header,
    ensures
        valid_chain(blocks.update(i, block), head),
{
    let after = blocks.update(i, block);
    assert forall|k: int| 0 <= k < after.len() implies after[k].header == blocks[k].header by {}
    assert forall|k: int, l: int| 0 <= k < l < after.len() implies after[k].header.hash()
        != after[l].header.hash() by {
        assert(after[k].header == blocks[k].header && after[l].header == blocks[l].header);
    }
    assert forall|k: int| 0 <= k < after.len() && !is_genesis(
        #[trigger] after[k].header,
    ) implies (position(after, after[k].header.parent_hash) matches Some(j) && 0 <= j < k) by {
        assert(after[k].header == blocks[k].header);
        lemma_position_update(blocks, i, block, blocks[k].header.parent_hash);
    }
    assert forall|k: int| 0 <= k < after.len() implies #[trigger] total_difficulty_at(after, k)
        == total_difficulty_at(blocks, k) by {
        lemma_total_update(blocks, i, block, k);
    }
    lemma_total_update(blocks, i, block, head);
    assert forall|k: int| 0 <= k < after.len() implies #[trigger] total_difficulty_at(after, k)
        <= total_difficulty_at(after, head) by {
        assert(total_difficulty_at(blocks, k) <= total_difficulty_at(blocks, head));
    }
    assert forall|k: int| 0 <= k < head implies #[trigger] total_difficulty_at(after, k)
        < total_difficulty_at(after, head) by {
        assert(total_difficulty_at(blocks, k) < total_difficulty_at(blocks, head));
    }
    assert forall|k: int| 0 <= k < after.len() implies #[trigger] total_difficulty_at(after, k)
        < modulus() by {
        assert(total_difficulty_at(blocks, k) < modulus());
    }
}

/// Adding a block to a valid chain store leaves a valid chain store.
pub proof fn lemma_add_keeps_valid(blocks: Seq<BlockView>, head: int, block: BlockView)
    requires
        valid_chain(blocks, head),
    ensures
        valid_chain(blocks_after_add(blocks, block), head_after_add(blocks, head, block)),
        stores_block(blocks, block) ==> total_difficulty_at(
            blocks.push(block),
            blocks.len() as int,
        ) == parent_total(blocks, block.header)->0 + block.header.difficulty,
{
    if !stores_block(blocks, block) {
        match replaces_block(blocks, block) {
            Some(i) => {
                lemma_update_keeps_valid(blocks, head, i, block);
            },
            None => {},
        }
    } else {
        let after = blocks.push(block);
        let n = blocks.len() as int;
        let hash = block.header.hash();
        lemma_position(blocks, hash);
        assert forall|i: int, j: int| 0 <= i < j < after.len() implies after[i].header.hash()
            != after[j].header.hash() by {
            if j < n {
                assert(after[i] == blocks[i] && after[j] == blocks[j]);
            } else {
                assert(after[i] == blocks[i]);
            }
        }
        assert forall|i: int| 0 <= i < after.len() && !is_genesis(
            #[trigger] after[i].header,
        ) implies (position(after, after[i].header.parent_hash) matches Some(j) && 0 <= j < i) by {
            lemma_position_push(blocks, block, after[i].header.parent_hash);
            if i < n {
                assert(after[i] == blocks[i]);
            } else {
                lemma_position(blocks, block.header.parent_hash);
            }
        }
        assert forall|i: int| 0 <= i < n implies #[trigger] total_difficulty_at(after, i)
            == total_difficulty_at(blocks, i) by {
            lemma_total_push(blocks, block, i);
        }
        if !is_genesis(block.header) {
            lemma_position_push(blocks, block, block.header.parent_hash);
            lemma_position(blocks, block.header.parent_hash);
        }
        assert(after[n] == block);
        if !is_genesis(block.header) {
            let j = position(blocks, block.header.parent_hash)->0;
            assert(position(after, block.header.parent_hash) == Some(j));
            assert(0 <= j < n);
            assert(total_difficulty_at(after, j) == total_difficulty_at(blocks, j));
            assert(total_difficulty_at(after, n) == block.header.difficulty + total_difficulty_at(
                after,
                j,
            ));
        }
        assert(total_difficulty_at(after, n) == parent_total(blocks, block.header)->0
            + block.header.difficulty);
        let new_head = head_after_add(blocks, head, block);
        assert forall|i: int| 0 <= i < after.len() implies #[trigger] total_difficulty_at(after, i)
            <= total_difficulty_at(after, new_head) by {
            if i < n {
                assert(total_difficulty_at(blocks, i) <= total_difficulty_at(blocks, head));
            }
        }
        assert forall|i: int| 0 <= i < new_head implies #[trigger] total_difficulty_at(after, i)
            < total_difficulty_at(after, new_head) by {
            if new_head == n {
                assert(total_difficulty_at(blocks, i) <= total_difficulty_at(blocks, head));
            } else {
                assert(total_difficulty_at(blocks, i) < total_difficulty_at(blocks, head));
            }
        }
        assert forall|i: int| 0 <= i < after.len() implies #[trigger] total_difficulty_at(after, i)
            < modulus() by {
            if i < n {
                assert(total_difficulty_at(blocks, i) < modulus());
            }
        }
    }
}

/// An accepted block is found under the hash of its header afterwards,
/// unless that hash belonged to a stored block with another header, which
/// then stays.
pub proof fn lemma_added_block_is_stored(blocks: Seq<BlockView>, head: int, block: BlockView)
    requires
        valid_chain(blocks, head),
        add_block_result(blocks, block) is Ok,
    ensures
        match position(blocks_after_add(blocks, block), block.header.hash()) {
            Some(i) => {
                &&& 0 <= i < blocks_after_add(blocks, block).len()
                &&& (blocks_after_add(blocks, block)[i] == block || (blocks_after_add(
                    blocks,
                    block,
                )[i].header != block.header && blocks_after_add(blocks, block) == blocks))
            },
            None => false,
        },
{
    let hash = block.header.hash();
    lemma_position(blocks, hash);
    if stores_block(blocks, block) {
        lemma_position_push(blocks, block, hash);
    } else {
        match replaces_block(blocks, block) {
            Some(i) => {
                lemma_position_update(blocks, i, block, hash);
            },
            None => {},
        }
    }
}

/// The total difficulty of the last block of a chain is the sum of the
/// difficulties of the chain's blocks: for indices `path` into a valid store
/// that start at a genesis block and lead each from a block to a child of
/// it, the total difficulty at the end of the path is the sum along it.
pub proof fn lemma_total_difficulty_is_sum(blocks: Seq<BlockView>, path: Seq<int>)
    requires
        chain_ordered(blocks),
        path.len() > 0,
        forall|k: int| 0 <= k < path.len() ==> 0 <= #[trigger] path[k] < blocks.len(),
        is_genesis(blocks[path[0]].header),
        forall|k: int|
            0 < k < path.len() ==> !is_genesis(blocks[#[trigger] path[k]].header)
                && blocks[path[k]].header.parent_hash == blocks[path[k - 1]].header.hash(),
    ensures
        total_difficulty_at(blocks, path.last()) == difficulty_sum(blocks, path),
    decreases path.len(),
{
    let last = path.last();
    if path.len() == 1 {
        assert(path.drop_last().len() == 0);
        assert(difficulty_sum(blocks, path.drop_last()) == 0);
    } else {
        let before = path.drop_last();
        let parent = path[path.len() - 2];
        assert(before.last() == parent);
        assert forall|k: int| 0 < k < before.len() implies !is_genesis(
            blocks[#[trigger] before[k]].header,
        ) && blocks[before[k]].header.parent_hash == blocks[before[k - 1]].header.hash() by {
            assert(before[k] == path[k]);
            assert(before[k - 1] == path[k - 1]);
        }
        lemma_total_difficulty_is_sum(blocks, before);
        lemma_position(blocks, blocks[last].header.parent_hash);
        let j = position(blocks, blocks[last].header.parent_hash)->0;
        assert(blocks[j].header.hash() == blocks[parent].header.hash());
        assert(j == parent);
    }
}

/// The sum of the difficulties of the blocks at the indices of `path`.
pub open spec fn difficulty_sum(blocks: Seq<BlockView>, path: Seq<int>) -> nat
    decreases path.len(),
{
    if path.len() == 0 {
        0
    } else {
        difficulty_sum(blocks, path.drop_last()) + blocks[path.last()].header.difficulty
    }
}

/// How a block is asked for.
#[derive(Clone, Copy, Debug, PartialEq, Eq)]
pub enum BlockSelector {
    /// The block with this header hash.
    Hash(H256),
    /// The block with this number on the chain that ends at the head.
    Number(u64),
    /// The head of the chain.
    Latest,
}

/// The index of the block that a selector names, if there is one.
pub open spec fn select(blocks: Seq<BlockView>, head: int, selector: BlockSelector) -> Option<int> {
    match selector {
        BlockSelector::Hash(hash) => position(blocks, hash@),
        BlockSelector::Number(number) => ancestor_numbered(blocks, head, number as nat),
        BlockSelector::Latest => Some(head),
    }
}

#[derive(Clone, Debug)]
struct Entry {
    hash: H256,
    block: Block,
}

/// The chain store: the blocks in the order in which they were stored, each
/// under the hash of its header, and the head of the chain.
#[derive(Clone, Debug)]
pub struct BlockChain {
    entries: Vec<Entry>,
    head: usize,
}

impl BlockChain {
    /// The stored blocks, in the order in which they were stored.
    pub closed spec fn blocks(&self) -> Seq<BlockView> {
        Seq::new(self.entries@.len(), |i: int| self.entries@[i].block@)
    }

    /// The index of the head among the stored blocks.
    pub closed spec fn head_index(&self) -> int {
        self.head as int
    }

    /// The invariant of the representation: the store is a valid chain
    /// store, and each block is filed under the hash of its header.
    pub closed spec fn wf(&self) -> bool {
        &&& valid_chain(self.blocks(), self.head as int)
        &&& forall|i: int|
            0 <= i < self.entries@.len() ==> (#[trigger] self.entries@[i]).hash@
                == self.entries@[i].block@.header.hash()
    }

    /// A well-formed store is a valid chain store.
    pub proof fn lemma_wf(&self)
        requires
            self.wf(),
        ensures
            valid_chain(self.blocks(), self.head_index()),
    {
    }

    fn with_genesis(block: Block) -> (chain: BlockChain)
        requires
            is_genesis(block@.header),
        ensures
            chain.wf(),
            chain.blocks() == seq![block@],
            chain.head_index() == 0,
    {
        let hash = block.header.hash();
        let ghost view = block@;
        let mut entries: Vec<Entry> = Vec::new();
        proof {
            lemma_value_canonical(block.header.difficulty, block.header.difficulty);
        }
        entries.push(Entry { hash, block });
        let chain = BlockChain { entries, head: 0 };
        assert(chain.blocks() =~= seq![view]);
        proof {
            let blocks = chain.blocks();
            assert(is_genesis(blocks[0].header));
            assert(total_difficulty_at(blocks, 0) == blocks[0].header.difficulty);
        }
        chain
    }

    /// The store that holds the genesis block made at `timestamp`, which is
    /// its head.
    pub fn new_at(timestamp: u64) -> (chain: BlockChain)
        ensures
            chain.wf(),
            chain.blocks() == seq![spec_genesis_block(timestamp as nat)],
            chain.head_index() == 0,
    {
        BlockChain::with_genesis(Block::genesis_block_at(timestamp))
    }

    /// The store that holds the genesis block made now, by the system's
    /// clock, which is its head.
    pub fn new() -> (chain: BlockChain)
        ensures
            chain.wf(),
            chain.blocks().len() == 1,
            chain.blocks()[0] == spec_genesis_block(chain.blocks()[0].header.timestamp),
            chain.head_index() == 0,
    {
        BlockChain::with_genesis(Block::genesis_block())
    }

    /// The number of stored blocks.
    pub fn len(&self) -> (n: usize)
        requires
            self.wf(),
        ensures
            n == self.blocks().len(),
            n >= 1,
    {
        self.entries.len()
    }

    /// The stored block at index `i`, in the order of storing.
    pub fn block_at(&self, i: usize) -> (block: &Block)
        requires
            self.wf(),
            i < self.blocks().len(),
        ensures
            block@ == self.blocks()[i as int],
    {
        &self.entries[i].block
    }

    /// The hash of the header of the head of the chain.
    pub fn latest_block_hash(&self) -> (hash: H256)
        requires
            self.wf(),
        ensures
            hash@ == self.blocks()[self.head_index()].header.hash(),
            0 <= self.head_index() < self.blocks().len(),
    {
        self.entries[self.head].hash
    }

    fn find(&self, hash: &H256) -> (r: Option<usize>)
        requires
            self.wf(),
        ensures
            match r {
                Some(i) => i < self.entries@.len() && position(self.blocks(), hash@) == Some(
                    i as int,
                ),
                None => position(self.blocks(), hash@) is None,
            },
    {
        let mut i: usize = 0;
        while i < self.entries.len()
            invariant
                self.wf(),
                i <= self.entries@.len(),
                forall|k: int| 0 <= k < i ==> (#[trigger] self.blocks()[k]).header.hash() != hash@,
            decreases self.entries@.len() - i,
        {
            let same = self.entries[i].hash == *hash;
            proof {
                lemma_h256_eq(self.entries@[i as int].hash, *hash);
                assert(self.blocks()[i as int] == self.entries@[i as int].block@);
            }
            if same {
                proof {
                    lemma_position_first(self.blocks(), hash@, i as int);
                }
                return Some(i);
            }
            i += 1;
        }
        proof {
            lemma_position(self.blocks(), hash@);
        }
        None
    }

    fn total_at(&self, index: usize) -> (total: U256)
        requires
            self.wf(),
            index < self.entries@.len(),
        ensures
            total@ == total_difficulty_at(self.blocks(), index as int),
    {
        let ghost blocks = self.blocks();
        let mut current: usize = index;
        let mut total = U256::zero();
        loop
            invariant
                self.wf(),
                blocks == self.blocks(),
                index < self.entries@.len(),
                current <= index,
                total@ + total_difficulty_at(blocks, current as int) == total_difficulty_at(
                    blocks,
                    index as int,
                ),
            decreases current,
        {
            let header = &self.entries[current].block.header;
            proof {
                assert(blocks[current as int] == self.entries@[current as int].block@);
                assert(total_difficulty_at(blocks, index as int) < modulus());
            }
            total = total.checked_add(&header.difficulty).unwrap();
            if header.parent_hash.is_zero() {
                return total;
            }
            match self.find(&header.parent_hash) {
                Some(parent) => {
                    current = parent;
                },
                None => {
                    return total;
                },
            }
        }
    }

    /// The total difficulty of the block with header hash `block_hash`: the
    /// sum of the difficulties from it back to its genesis block. A hash
    /// that is not stored is refused.
    pub fn total_difficulty(&self, block_hash: &H256) -> (r: Result<U256, Error>)
        requires
            self.wf(),
        ensures
            match position(self.blocks(), block_hash@) {
                Some(i) => {
                    &&& r matches Ok(total)
                    &&& total@ == total_difficulty_at(self.blocks(), i)
                },
                None => r == Err::<U256, Error>(Error::UnknownBlock),
            },
    {
        match self.find(block_hash) {
            Some(i) => Ok(self.total_at(i)),
            None => Err(Error::UnknownBlock),
        }
    }

    /// Whether a block with header hash `block_hash` is stored.
    pub fn contains(&self, block_hash: &H256) -> (r: bool)
        requires
            self.wf(),
        ensures
            r == position(self.blocks(), block_hash@) is Some,
    {
        self.find(block_hash).is_some()
    }

    /// The block that `selector` names: the one with a given header hash,
    /// the head, or the nearest block with a given number on the way from
    /// the head back to its genesis block.
    pub fn get_block(&self, selector: &BlockSelector) -> (r: Option<&Block>)
        requires
            self.wf(),
        ensures
            match select(self.blocks(), self.head_index(), *selector) {
                Some(i) => {
                    &&& 0 <= i < self.blocks().len()
                    &&& r matches Some(block)
                    &&& block@ == self.blocks()[i]
                },
                None => r is None,
            },
    {
        match selector {
            BlockSelector::Hash(hash) => match self.find(hash) {
                Some(i) => Some(&self.entries[i].block),
                None => None,
            },
            BlockSelector::Latest => Some(&self.entries[self.head].block),
            BlockSelector::Number(number) => {
                let ghost blocks = self.blocks();
                let mut current: usize = self.head;
                loop
                    invariant
                        self.wf(),
                        blocks == self.blocks(),
                        *selector == BlockSelector::Number(*number),
                        current < self.entries@.len(),
                        ancestor_numbered(blocks, current as int, *number as nat)
                            == ancestor_numbered(blocks, self.head as int, *number as nat),
                    decreases current,
                {
                    let header = &self.entries[current].block.header;
                    proof {
                        assert(blocks[current as int] == self.entries@[current as int].block@);
                    }
                    if header.number == *number {
                        return Some(&self.entries[current].block);
                    }
                    if header.parent_hash.is_zero() {
                        return None;
                    }
                    match self.find(&header.parent_hash) {
                        Some(parent) => {
                            current = parent;
                        },
                        None => {
                            return None;
                        },
                    }
                }
            },
        }
    }

    /// Stores `block` under the hash of its header. A block that is no
    /// genesis block is refused unless its parent is stored. A block whose
    /// header hash is stored already takes the place of the stored block
    /// where the two headers are the same, and changes nothing where they
    /// differ. The head moves to a new block when its total difficulty is
    /// greater than the head's; a refusal leaves the store as it was.
    pub fn add_block(&mut self, block: Block) -> (r: Result<(), Error>)
        requires
            old(self).wf(),
        ensures
            final(self).wf(),
            r == add_block_result(old(self).blocks(), block@),
            final(self).blocks() == blocks_after_add(old(self).blocks(), block@),
            final(self).head_index() == head_after_add(
                old(self).blocks(),
                old(self).head_index(),
                block@,
            ),
    {
        let ghost blocks = self.blocks();
        let hash = block.header.hash();
        let parent_total = if block.header.parent_hash.is_zero() {
            U256::zero()
        } else {
            match self.total_difficulty(&block.header.parent_hash) {
                Ok(total) => total,
                Err(_) => {
                    return Err(Error::UnknownParent);
                },
            }
        };
        if let Some(i) = self.find(&hash) {
            proof {
                assert(blocks[i as int] == self.entries@[i as int].block@);
                lemma_add_keeps_valid(blocks, self.head as int, block@);
            }
            if self.entries[i].block.header.same_as(&block.header) {
                let ghost view = block@;
                self.entries[i] = Entry { hash, block };
                assert(self.blocks() =~= blocks.update(i as int, view));
            }
            return Ok(());
        }
        proof {
            lemma_value_canonical(parent_total, block.header.difficulty);
        }
        let total = match parent_total.checked_add(&block.header.difficulty) {
            Some(total) => total,
            None => {
                return Err(Error::Overflow);
            },
        };
        let heavier = total.gt(&self.total_at(self.head));
        proof {
            lemma_add_keeps_valid(blocks, self.head as int, block@);
        }
        let ghost view = block@;
        self.entries.push(Entry { hash, block });
        if heavier {
            self.head = self.entries.len() - 1;
        }
        assert(self.blocks() =~= blocks.push(view));
        Ok(())
    }

    /// Validates the header of `block` against the header of its parent in
    /// the store, given the verdict on its proof of work, and stores the
    /// block if it is valid. A genesis block has no parent to be held
    /// against. A refusal leaves the store as it was.
    pub fn import_block(&mut self, block: Block, proof_of_work_valid: bool) -> (r: Result<(), Error>)
        requires
            old(self).wf(),
        ensures
            final(self).wf(),
            r == import_block_result(old(self).blocks(), block@, proof_of_work_valid),
            r is Ok ==> final(self).blocks() == blocks_after_add(old(self).blocks(), block@)
                && final(self).head_index() == head_after_add(
                old(self).blocks(),
                old(self).head_index(),
                block@,
            ),
            r is Err ==> final(self).blocks() == old(self).blocks() && final(self).head_index()
                == old(self).head_index(),
    {
        if !block.header.parent_hash.is_zero() {
            match self.find(&block.header.parent_hash) {
                None => {
                    return Err(Error::UnknownParent);
                },
                Some(parent) => {
                    proof {
                        assert(self.blocks()[parent as int] == self.entries@[parent as int].block@);
                    }
                    let verdict = block.header.checks(
                        &self.entries[parent].block.header,
                        proof_of_work_valid,
                    ).verdict();
                    if let Err(e) = verdict {
                        return Err(e);
                    }
                },
            }
        }
        self.add_block(block)
    }
}

/// What importing a block returns: `UnknownParent` where the block is no
/// genesis block and its parent is not stored; else the first check of its
/// header against the parent's that fails; else what adding it returns.
pub open spec fn import_block_result(blocks: Seq<BlockView>, block: BlockView, proof_of_work_valid: bool) -> Result<
    (),
    Error,
> {
    if is_genesis(block.header) {
        add_block_result(blocks, block)
    } else {
        match position(blocks, block.header.parent_hash) {
            None => Err(Error::UnknownParent),
            Some(j) => match block.header.checks(blocks[j].header, proof_of_work_valid).spec_verdict() {
                Err(e) => Err(e),
                Ok(_) => add_block_result(blocks, block),
            },
        }
    }
}

} // verus!
