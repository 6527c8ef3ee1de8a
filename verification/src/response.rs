//! What a query server answers about a block and about a transaction.

use crate::block::Block;
use crate::block::BlockView;
use crate::chain::total_difficulty_at;
use crate::chain::BlockChain;
use crate::codec::opt_view;
use crate::hash::lemma_h256_eq;
use crate::hash::Address;
use crate::hash::Bloom;
use crate::hash::H256;
use crate::transaction::Transaction;
use crate::transaction::TransactionView;
use crate::uint::U256;
use vstd::prelude::*;

verus! {

/// The index of the first of `txs[from..]` that can be encoded and has the
/// hash `hash`.
pub open spec fn index_of_hash(txs: Seq<TransactionView>, hash: Seq<u8>, from: int) -> Option<int>
    decreases txs.len() - from,
{
    if from < 0 || from >= txs.len() {
        None
    } else if txs[from].rlp_fits() && txs[from].hash() == hash {
        Some(from)
    } else {
        index_of_hash(txs, hash, from + 1)
    }
}

/// What is answered about a transaction.
#[derive(Clone, Debug, PartialEq, Eq)]
pub struct TransactionResponse {
    /// Hash of the block where this transaction was in; none when pending.
    pub block_hash: Option<H256>,
    /// Number of the block where this transaction was in; none when pending.
    pub number: Option<u64>,
    /// Address of the sender.
    pub from: Address,
    /// Gas provided by the sender.
    pub gas: U256,
    /// Gas price provided by the sender, in Wei.
    pub gas_price: U256,
    /// Hash of the transaction.
    pub hash: H256,
    /// The data sent along with the transaction.
    pub input: Option<Vec<u8>>,
    /// The number of transactions made by the sender prior to this one.
    pub nonce: U256,
    /// Address of the receiver; none for a contract creation.
    pub to: Option<Address>,
    /// The transaction's index in the block; none when pending.
    pub transaction_index: Option<usize>,
    /// Value transferred, in Wei.
    pub value: U256,
    /// The signature's recovery identifier.
    pub v: u8,
    /// The signature's first component.
    pub r: U256,
    /// The signature's second component.
    pub s: U256,
}

impl TransactionResponse {
    /// Whether the response is the answer about `transaction`, sent by
    /// `sender`, as part of `block` where there is one: the transaction's
    /// fields and hash, and with a block the hash and the number of its
    /// header and the index of the first transaction in it with the same
    /// hash.
    pub open spec fn answers(
        &self,
        transaction: Transaction,
        sender: Address,
        block: Option<BlockView>,
    ) -> bool {
        &&& self.from == sender
        &&& self.gas == transaction.gas_limit
        &&& self.gas_price == transaction.gas_price
        &&& self.hash@ == transaction@.hash()
        &&& opt_view(self.input) == transaction@.data
        &&& self.nonce == transaction.nonce
        &&& self.to == transaction.to
        &&& self.value == transaction.value
        &&& self.v == transaction.signature.v
        &&& self.r == transaction.signature.r
        &&& self.s == transaction.signature.s
        &&& match block {
            None => self.block_hash is None && self.number is None && self.transaction_index is None,
            Some(b) => {
                &&& self.block_hash matches Some(h)
                &&& h@ == b.header.hash()
                &&& self.number == Some(b.header.number as u64)
                &&& match index_of_hash(b.transactions, transaction@.hash(), 0) {
                    Some(i) => self.transaction_index == Some(i as usize),
                    None => self.transaction_index is None,
                }
            },
        }
    }

    /// The answer about `transaction`, sent by `sender`, as part of `block`
    /// where there is one; `None` when the transaction cannot be encoded and
    /// so has no hash.
    pub fn new(transaction: &Transaction, sender: Address, block: Option<&Block>) -> (r: Option<
        TransactionResponse,
    >)
        ensures
            r is Some <==> transaction@.rlp_fits(),
            r matches Some(response) ==> response.answers(
                *transaction,
                sender,
                match block {
                    Some(b) => Some(b@),
                    None => None,
                },
            ),
    {
        let hash = match transaction.try_hash() {
            Some(hash) => hash,
            None => {
                return None;
            },
        };
        let input = match &transaction.data {
            Some(data) => Some(copy_bytes(data)),
            None => None,
        };
        let mut response = TransactionResponse {
            block_hash: None,
            number: None,
            from: sender,
            gas: transaction.gas_limit,
            gas_price: transaction.gas_price,
            hash,
            input,
            nonce: transaction.nonce,
            to: transaction.to,
            transaction_index: None,
            value: transaction.value,
            v: transaction.signature.v,
            r: transaction.signature.r,
            s: transaction.signature.s,
        };
        if let Some(block) = block {
            proof {
                block.header.lemma_view_wf();
            }
            response.block_hash = Some(block.header.hash());
            response.number = Some(block.header.number);
            response.transaction_index = find_hash(block, &hash);
        }
        Some(response)
    }
}

fn copy_bytes(bytes: &Vec<u8>) -> (out: Vec<u8>)
    ensures
        out@ == bytes@,
{
    let mut out: Vec<u8> = Vec::new();
    let mut i: usize = 0;
    while i < bytes.len()
        invariant
            i <= bytes@.len(),
            out@ == bytes@.take(i as int),
        decreases bytes@.len() - i,
    {
        out.push(bytes[i]);
        assert(out@ =~= bytes@.take(i + 1));
        i += 1;
    }
    assert(bytes@.take(i as int) =~= bytes@);
    out
}

fn find_hash(block: &Block, hash: &H256) -> (r: Option<usize>)
    ensures
        match index_of_hash(block@.transactions, hash@, 0) {
            Some(i) => r == Some(i as usize),
            None => r is None,
        },
{
    let mut i: usize = 0;
    while i < block.transactions.len()
        invariant
            i <= block.transactions@.len(),
            index_of_hash(block@.transactions, hash@, 0) == index_of_hash(
                block@.transactions,
                hash@,
                i as int,
            ),
        decreases block.transactions@.len() - i,
    {
        if let Some(other) = block.transactions[i].try_hash() {
            let same = other == *hash;
            proof {
                lemma_h256_eq(other, *hash);
            }
            if same {
                return Some(i);
            }
        }
        i += 1;
    }
    None
}

fn ommer_hashes(block: &Block) -> (uncles: Vec<H256>)
    ensures
        uncles@.len() == block.ommers@.len(),
        forall|i: int|
            0 <= i < uncles@.len() ==> (#[trigger] uncles@[i])@ == block.ommers@[i]@.hash(),
{
    let mut uncles: Vec<H256> = Vec::new();
    let mut k: usize = 0;
    while k < block.ommers.len()
        invariant
            k <= block.ommers@.len(),
            uncles@.len() == k,
            forall|i: int| 0 <= i < k ==> (#[trigger] uncles@[i])@ == block.ommers@[i]@.hash(),
        decreases block.ommers@.len() - k,
    {
        uncles.push(block.ommers[k].hash());
        k += 1;
    }
    uncles
}

fn hashes_of_transactions(block: &Block) -> (hashes: Vec<H256>)
    requires
        block@.rlp_fits(),
    ensures
        hashes@.len() == block.transactions@.len(),
        forall|i: int|
            0 <= i < hashes@.len() ==> (#[trigger] hashes@[i])@ == block.transactions@[i]@.hash(),
{
    let mut hashes: Vec<H256> = Vec::new();
    let mut i: usize = 0;
    while i < block.transactions.len()
        invariant
            i <= block.transactions@.len(),
            block@.rlp_fits(),
            hashes@.len() == i,
            forall|j: int|
                0 <= j < i ==> (#[trigger] hashes@[j])@ == block.transactions@[j]@.hash(),
        decreases block.transactions@.len() - i,
    {
        assert(block@.transactions[i as int].rlp_fits());
        assert(block@.transactions[i as int] == block.transactions@[i as int]@);
        hashes.push(block.transactions[i].hash());
        i += 1;
    }
    hashes
}

fn transaction_responses(block: &Block, senders: &Vec<Address>) -> (responses: Vec<
    TransactionResponse,
>)
    requires
        block@.rlp_fits(),
        senders@.len() == block.transactions@.len(),
    ensures
        responses@.len() == block.transactions@.len(),
        forall|i: int|
            0 <= i < responses@.len() ==> (#[trigger] responses@[i]).answers(
                block.transactions@[i],
                senders@[i],
                Some(block@),
            ),
{
    let mut responses: Vec<TransactionResponse> = Vec::new();
    let mut i: usize = 0;
    while i < block.transactions.len()
        invariant
            i <= block.transactions@.len(),
            block@.rlp_fits(),
            senders@.len() == block.transactions@.len(),
            responses@.len() == i,
            forall|j: int|
                0 <= j < i ==> (#[trigger] responses@[j]).answers(
                    block.transactions@[j],
                    senders@[j],
                    Some(block@),
                ),
        decreases block.transactions@.len() - i,
    {
        assert(block@.transactions[i as int].rlp_fits());
        assert(block@.transactions[i as int] == block.transactions@[i as int]@);
        let response = TransactionResponse::new(&block.transactions[i], senders[i], Some(block));
        responses.push(response.unwrap());
        i += 1;
    }
    responses
}

/// What is answered about a block.
#[derive(Clone, Debug, PartialEq, Eq)]
pub struct BlockResponse {
    /// The block number; none for a pending block.
    pub number: Option<u64>,
    /// The hash of the block's header; none for a pending block.
    pub hash: Option<H256>,
    /// The hash of the parent's header.
    pub parent_hash: H256,
    /// The proof-of-work nonce; none for a pending block.
    pub nonce: Option<u64>,
    /// The bloom filter for the logs of the block; none for a pending block.
    pub logs_bloom: Option<Bloom>,
    /// The root of the transaction trie of the block.
    pub transactions_root: H256,
    /// The root of the receipts trie of the block.
    pub receipts_root: H256,
    /// The address of the beneficiary.
    pub miner: Address,
    /// The difficulty of the block.
    pub difficulty: U256,
    /// The total difficulty of the head of the chain.
    pub total_difficulty: U256,
    /// The extra data of the block.
    pub extra_data: [u8; 32],
    /// The size of the encoded block, in bytes.
    pub size: usize,
    /// The gas limit of the block.
    pub gas_limit: U256,
    /// The gas used by the block.
    pub gas_used: U256,
    /// The timestamp of the block.
    pub timestamp: u64,
    /// The answers about the transactions, where they were asked for.
    pub full_transactions: Vec<TransactionResponse>,
    /// The hashes of the transactions, where no more was asked for.
    pub transaction_hashes: Vec<H256>,
    /// The hashes of the ommers' headers.
    pub uncles: Vec<H256>,
}

impl BlockResponse {
    /// Whether the response is the answer about `block`, given the total
    /// difficulty of the head of the chain: the fields of the header, the
    /// size of the encoding, the hashes of the ommers, and either the
    /// answers about the transactions, sent by `senders`, or their hashes.
    pub open spec fn answers(
        &self,
        block: Block,
        head_total_difficulty: nat,
        senders: Option<Seq<Address>>,
    ) -> bool {
        let header = block.header;
        &&& self.number == Some(header.number)
        &&& self.hash matches Some(h)
        &&& h@ == header@.hash()
        &&& self.parent_hash == header.parent_hash
        &&& self.nonce == Some(header.nonce)
        &&& self.logs_bloom == Some(header.logs_bloom)
        &&& self.transactions_root == header.transactions_root
        &&& self.receipts_root == header.receipts_root
        &&& self.miner == header.beneficiary
        &&& self.difficulty == header.difficulty
        &&& self.total_difficulty@ == head_total_difficulty
        &&& self.extra_data == header.extra_data
        &&& self.size == block@.rlp().len()
        &&& self.gas_limit == header.gas_limit
        &&& self.gas_used == header.gas_used
        &&& self.timestamp == header.timestamp
        &&& self.uncles@.len() == block.ommers@.len()
        &&& forall|i: int|
            0 <= i < self.uncles@.len() ==> (#[trigger] self.uncles@[i])@
                == block.ommers@[i]@.hash()
        &&& match senders {
            Some(from) => {
                &&& self.transaction_hashes@.len() == 0
                &&& self.full_transactions@.len() == block.transactions@.len()
                &&& forall|i: int|
                    0 <= i < self.full_transactions@.len() ==> (
                    #[trigger] self.full_transactions@[i]).answers(
                        block.transactions@[i],
                        from[i],
                        Some(block@),
                    )
            },
            None => {
                &&& self.full_transactions@.len() == 0
                &&& self.transaction_hashes@.len() == block.transactions@.len()
                &&& forall|i: int|
                    0 <= i < self.transaction_hashes@.len() ==> (
                    #[trigger] self.transaction_hashes@[i])@ == block.transactions@[i]@.hash()
            },
        }
    }

    /// The answer about `block` against the chain store. With `senders`, one
    /// for each transaction, the answer holds what is answered about each
    /// transaction, else the hashes of the transactions. `None` when the
    /// block cannot be encoded, or when there are not as many senders as
    /// transactions.
    pub fn new(block: &Block, block_chain: &BlockChain, senders: Option<&Vec<Address>>) -> (r:
        Option<BlockResponse>)
        requires
            block_chain.wf(),
        ensures
            r is Some <==> block@.rlp_fits() && (senders matches Some(from) ==> from@.len()
                == block.transactions@.len()),
            r matches Some(response) ==> response.answers(
                *block,
                total_difficulty_at(block_chain.blocks(), block_chain.head_index()),
                match senders {
                    Some(from) => Some(from@),
                    None => None,
                },
            ),
    {
        let size = match block.try_to_rlp() {
            Some(bytes) => bytes.len(),
            None => {
                return None;
            },
        };
        if let Some(from) = senders {
            if from.len() != block.transactions.len() {
                return None;
            }
        }
        let header = &block.header;
        let total_difficulty = match block_chain.total_difficulty(&block_chain.latest_block_hash()) {
            Ok(total) => total,
            Err(_) => {
                proof {
                    block_chain.lemma_wf();
                    crate::chain::lemma_position_first(
                        block_chain.blocks(),
                        block_chain.blocks()[block_chain.head_index()].header.hash(),
                        block_chain.head_index(),
                    );
                }
                return None;
            },
        };
        proof {
            block_chain.lemma_wf();
            crate::chain::lemma_position_first(
                block_chain.blocks(),
                block_chain.blocks()[block_chain.head_index()].header.hash(),
                block_chain.head_index(),
            );
        }
        let uncles = ommer_hashes(block);
        let mut full_transactions: Vec<TransactionResponse> = Vec::new();
        let mut transaction_hashes: Vec<H256> = Vec::new();
        match senders {
            Some(from) => {
                full_transactions = transaction_responses(block, from);
            },
            None => {
                transaction_hashes = hashes_of_transactions(block);
            },
        }
        let encoded_hash = header.hash();
        Some(
            BlockResponse {
                number: Some(header.number),
                hash: Some(encoded_hash),
                parent_hash: header.parent_hash,
                nonce: Some(header.nonce),
                logs_bloom: Some(header.logs_bloom),
                transactions_root: header.transactions_root,
                receipts_root: header.receipts_root,
                miner: header.beneficiary,
                difficulty: header.difficulty,
                total_difficulty,
                extra_data: header.extra_data,
                size,
                gas_limit: header.gas_limit,
                gas_used: header.gas_used,
                timestamp: header.timestamp,
                full_transactions,
                transaction_hashes,
                uncles,
            },
        )
    }
}

} // verus!
