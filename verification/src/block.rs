//! Blocks: a header, the transactions and the ommer headers; the genesis
//! block, the canonical encoding and the hash.

use crate::codec::concat;
use crate::codec::lemma_concat_push;
use crate::codec::list_item;
use crate::codec::try_encode_list;
use crate::codec::MAX_PAYLOAD;
use crate::feeschedule::TRANSACTION;
use crate::hash::keccak256;
use crate::hash::keccak256_digest;
use crate::hash::zeros;
use crate::hash::Address;
use crate::hash::Bloom;
use crate::hash::H256;
use crate::header::BlockHeader;
use crate::header::HeaderView;
use crate::header::MINIMUM_DIFFICULTY;
use crate::transaction::Signature;
use crate::transaction::Transaction;
use crate::transaction::TransactionView;
use crate::uint::U256;
use vstd::prelude::*;

verus! {

/// The gas limit of the genesis block.
pub const GENESIS_GAS_LIMIT: u64 = 3_141_592;

/// The proof-of-work nonce of the genesis block.
pub const GENESIS_NONCE: u64 = 42;

/// Calls `std::time::SystemTime::now` and converts the time to whole seconds
/// since the Unix epoch, zero standing for a clock set before the epoch.
/// Nothing is known of the number.
#[verifier::external_body]
fn ext_unix_time() -> (seconds: u64) {
    std::time::SystemTime::now().duration_since(std::time::SystemTime::UNIX_EPOCH).map(
        |d| d.as_secs(),
    ).unwrap_or(0)
}

/// The encoding of each transaction, in order.
pub open spec fn transaction_items(txs: Seq<TransactionView>) -> Seq<Seq<u8>> {
    Seq::new(txs.len(), |i: int| txs[i].rlp())
}

/// The encoding of each header, in order.
pub open spec fn header_items(headers: Seq<HeaderView>) -> Seq<Seq<u8>> {
    Seq::new(headers.len(), |i: int| headers[i].rlp())
}

/// What a block holds, as plain values.
#[verifier::ext_equal]
pub struct BlockView {
    /// The header.
    pub header: HeaderView,
    /// The transactions, in order.
    pub transactions: Seq<TransactionView>,
    /// The ommer headers, in order.
    pub ommers: Seq<HeaderView>,
}

impl BlockView {
    /// Whether the values are those of a block: a well-formed header,
    /// well-formed transactions and well-formed ommer headers.
    pub open spec fn wf(self) -> bool {
        &&& self.header.wf()
        &&& forall|i: int| 0 <= i < self.transactions.len() ==> (#[trigger] self.transactions[i]).wf()
        &&& forall|i: int| 0 <= i < self.ommers.len() ==> (#[trigger] self.ommers[i]).wf()
    }

    /// The items of the block's encoding, one after the other: the header,
    /// then each transaction, then each ommer header.
    pub open spec fn rlp_payload(self) -> Seq<u8> {
        self.header.rlp() + (concat(transaction_items(self.transactions)) + concat(
            header_items(self.ommers),
        ))
    }

    /// The canonical encoding: the flat list of the header, the transactions
    /// and the ommer headers.
    pub open spec fn rlp(self) -> Seq<u8> {
        list_item(self.rlp_payload())
    }

    /// Whether the block can be encoded: each transaction can, and the whole
    /// payload is short enough to be framed.
    pub open spec fn rlp_fits(self) -> bool {
        &&& forall|i: int| 0 <= i < self.transactions.len() ==> (#[trigger] self.transactions[i]).rlp_fits()
        &&& self.rlp_payload().len() <= MAX_PAYLOAD
    }

    /// The digest of the canonical encoding.
    pub open spec fn hash(self) -> Seq<u8> {
        keccak256_digest(self.rlp())
    }
}

/// The header of the genesis block made at `timestamp`.
pub open spec fn spec_genesis_header(timestamp: nat) -> HeaderView {
    HeaderView {
        parent_hash: zeros(32),
        ommers_hash: keccak256_digest(list_item(Seq::empty())),
        beneficiary: zeros(20),
        state_root: zeros(32),
        transactions_root: zeros(32),
        receipts_root: zeros(32),
        logs_bloom: zeros(256),
        difficulty: MINIMUM_DIFFICULTY as nat,
        number: 0,
        gas_limit: GENESIS_GAS_LIMIT as nat,
        gas_used: 0,
        timestamp,
        extra_data: zeros(32),
        mix_hash: zeros(32),
        nonce: GENESIS_NONCE as nat,
    }
}

/// The genesis block made at `timestamp`: the genesis header, no
/// transaction, no ommer.
pub open spec fn spec_genesis_block(timestamp: nat) -> BlockView {
    BlockView {
        header: spec_genesis_header(timestamp),
        transactions: Seq::empty(),
        ommers: Seq::empty(),
    }
}

/// The transfer that the sample block carries to `recipient`.
pub open spec fn spec_exodus_transaction(recipient: Seq<u8>) -> TransactionView {
    TransactionView {
        nonce: 1,
        gas_price: 2,
        gas_limit: 84_000,
        to: Some(recipient),
        value: 42_000,
        v: 0,
        r: 0,
        s: 0,
        init: None,
        data: Some(Seq::empty()),
    }
}

/// The sample block made at `timestamp` on the parent with hash
/// `parent_hash`: one transfer to `recipient`, whose intrinsic gas is the gas
/// the block has used.
pub open spec fn spec_exodus_block(parent_hash: Seq<u8>, recipient: Seq<u8>, timestamp: nat) -> BlockView {
    BlockView {
        header: HeaderView {
            parent_hash,
            number: 1,
            gas_used: TRANSACTION as nat,
            ..spec_genesis_header(timestamp)
        },
        transactions: seq![spec_exodus_transaction(recipient)],
        ommers: Seq::empty(),
    }
}

/// A block: its header, its transactions and the headers of its ommers.
#[derive(Clone, Debug, PartialEq, Eq)]
pub struct Block {
    /// The header.
    pub header: BlockHeader,
    /// The transactions.
    pub transactions: Vec<Transaction>,
    /// The headers of the ommers.
    pub ommers: Vec<BlockHeader>,
}

impl View for Block {
    type V = BlockView;

    open spec fn view(&self) -> BlockView {
        BlockView {
            header: self.header@,
            transactions: Seq::new(self.transactions@.len(), |i: int| self.transactions@[i]@),
            ommers: Seq::new(self.ommers@.len(), |i: int| self.ommers@[i]@),
        }
    }
}

fn empty_list_digest() -> (h: H256)
    ensures
        h@ == keccak256_digest(list_item(Seq::empty())),
{
    let empty: Vec<u8> = Vec::new();
    assert(empty@ =~= Seq::<u8>::empty());
    let encoded = crate::codec::encode_list(empty.as_slice());
    keccak256(encoded.as_slice())
}

impl Block {
    /// The values of a block are well-formed.
    pub proof fn lemma_view_wf(&self)
        ensures
            self@.wf(),
    {
        self.header.lemma_view_wf();
        assert forall|i: int| 0 <= i < self@.transactions.len() implies (
        #[trigger] self@.transactions[i]).wf() by {
            self.transactions@[i].lemma_view_wf();
        }
        assert forall|i: int| 0 <= i < self@.ommers.len() implies (#[trigger] self@.ommers[i]).wf() by {
            self.ommers@[i].lemma_view_wf();
        }
    }

    /// The genesis block made at `timestamp`.
    pub fn genesis_block_at(timestamp: u64) -> (block: Block)
        ensures
            block@ == spec_genesis_block(timestamp as nat),
    {
        let extra_data = [0u8; 32];
        assert(extra_data@ =~= zeros(32));
        let block = Block {
            header: BlockHeader {
                parent_hash: H256::zero(),
                ommers_hash: empty_list_digest(),
                beneficiary: Address::zero(),
                state_root: H256::zero(),
                transactions_root: H256::zero(),
                receipts_root: H256::zero(),
                logs_bloom: Bloom::zero(),
                difficulty: U256::from_u64(MINIMUM_DIFFICULTY),
                number: 0,
                gas_limit: U256::from_u64(GENESIS_GAS_LIMIT),
                gas_used: U256::zero(),
                timestamp,
                extra_data,
                mix_hash: H256::zero(),
                nonce: GENESIS_NONCE,
            },
            transactions: Vec::new(),
            ommers: Vec::new(),
        };
        assert(block@ =~= spec_genesis_block(timestamp as nat));
        block
    }

    /// The genesis block made now, by the system's clock.
    pub fn genesis_block() -> (block: Block)
        ensures
            block@ == spec_genesis_block(block@.header.timestamp),
    {
        Block::genesis_block_at(ext_unix_time())
    }

    /// The sample block made at `timestamp` on the parent with hash
    /// `parent_hash`, with one transfer to `recipient`.
    pub fn exodus_block_on(parent_hash: H256, recipient: Address, timestamp: u64) -> (block: Block)
        ensures
            block@ == spec_exodus_block(parent_hash@, recipient@, timestamp as nat),
    {
        let transaction = Transaction {
            nonce: U256::from_u64(1),
            gas_price: U256::from_u64(2),
            gas_limit: U256::from_u64(84_000),
            to: Some(recipient),
            value: U256::from_u64(42_000),
            signature: Signature::default(),
            init: None,
            data: Some(Vec::new()),
        };
        assert(transaction@.data->0 =~= Seq::<u8>::empty());
        assert(transaction@ == spec_exodus_transaction(recipient@));
        proof {
            reveal_with_fuel(crate::transaction::payload_gas, 1);
        }
        let gas_used = match transaction.intrinsic_gas() {
            Ok(gas) => U256::from_u128(gas),
            Err(_) => U256::zero(),
        };
        let genesis = Block::genesis_block_at(timestamp);
        let mut header = genesis.header;
        header.parent_hash = parent_hash;
        header.number = 1;
        header.gas_used = gas_used;
        let mut transactions: Vec<Transaction> = Vec::new();
        transactions.push(transaction);
        let block = Block { header, transactions, ommers: Vec::new() };
        assert(block@ =~= spec_exodus_block(parent_hash@, recipient@, timestamp as nat));
        block
    }

    /// The sample block made now on a genesis block made now, with one
    /// transfer to an address drawn at random.
    pub fn exodus_block() -> (block: Block)
        ensures
            exists|genesis_time: nat, recipient: Seq<u8>|
                block@ == spec_exodus_block(
                    spec_genesis_header(genesis_time).hash(),
                    recipient,
                    block@.header.timestamp,
                ),
    {
        let genesis = Block::genesis_block();
        let recipient = Address::random();
        let block = Block::exodus_block_on(genesis.header.hash(), recipient, ext_unix_time());
        assert(block@ == spec_exodus_block(
            spec_genesis_header(genesis@.header.timestamp).hash(),
            recipient@,
            block@.header.timestamp,
        ));
        block
    }

    /// The canonical encoding of the block, or `None` when a transaction or
    /// the whole payload is too long to be framed.
    pub fn try_to_rlp(&self) -> (out: Option<Vec<u8>>)
        ensures
            out is Some <==> self@.rlp_fits(),
            out matches Some(bytes) ==> bytes@ == self@.rlp(),
    {
        let ghost view = self@;
        let ghost tx_items = transaction_items(view.transactions);
        let ghost ommer_items = header_items(view.ommers);
        let mut items: Vec<u8> = Vec::new();
        let mut i: usize = 0;
        while i < self.transactions.len()
            invariant
                i <= self.transactions@.len(),
                view == self@,
                tx_items == transaction_items(view.transactions),
                items@ == concat(tx_items.take(i as int)),
                forall|j: int| 0 <= j < i ==> (#[trigger] view.transactions[j]).rlp_fits(),
            decreases self.transactions@.len() - i,
        {
            let mut encoded = match self.transactions[i].try_to_rlp() {
                Some(encoded) => encoded,
                None => {
                    assert(!view.transactions[i as int].rlp_fits());
                    return None;
                },
            };
            proof {
                lemma_concat_push(tx_items.take(i as int), tx_items[i as int]);
                assert(tx_items.take(i as int).push(tx_items[i as int]) =~= tx_items.take(i + 1));
            }
            items.append(&mut encoded);
            i += 1;
        }
        assert(tx_items.take(i as int) =~= tx_items);
        let mut ommers: Vec<u8> = Vec::new();
        let mut k: usize = 0;
        while k < self.ommers.len()
            invariant
                k <= self.ommers@.len(),
                view == self@,
                ommer_items == header_items(view.ommers),
                ommers@ == concat(ommer_items.take(k as int)),
            decreases self.ommers@.len() - k,
        {
            let mut encoded = self.ommers[k].to_rlp();
            proof {
                lemma_concat_push(ommer_items.take(k as int), ommer_items[k as int]);
                assert(ommer_items.take(k as int).push(ommer_items[k as int])
                    =~= ommer_items.take(k + 1));
            }
            ommers.append(&mut encoded);
            k += 1;
        }
        assert(ommer_items.take(k as int) =~= ommer_items);
        items.append(&mut ommers);
        let mut payload = self.header.to_rlp();
        payload.append(&mut items);
        try_encode_list(payload.as_slice())
    }

    /// The canonical encoding of the block.
    pub fn to_rlp(&self) -> (out: Vec<u8>)
        requires
            self@.rlp_fits(),
        ensures
            out@ == self@.rlp(),
    {
        self.try_to_rlp().unwrap()
    }

    /// The digest of the canonical encoding, or `None` when the block cannot
    /// be encoded.
    pub fn try_hash(&self) -> (h: Option<H256>)
        ensures
            h is Some <==> self@.rlp_fits(),
            h matches Some(digest) ==> digest@ == self@.hash(),
    {
        match self.try_to_rlp() {
            Some(bytes) => Some(keccak256(bytes.as_slice())),
            None => None,
        }
    }

    /// The hash of the block: the digest of its canonical encoding.
    pub fn hash(&self) -> (h: H256)
        requires
            self@.rlp_fits(),
        ensures
            h@ == self@.hash(),
    {
        keccak256(self.to_rlp().as_slice())
    }
}

impl Default for Block {
    fn default() -> (block: Block)
        ensures
            block@.transactions.len() == 0,
            block@.ommers.len() == 0,
            block@.header == BlockHeader::default_view(),
    {
        Block { header: BlockHeader::default(), transactions: Vec::new(), ommers: Vec::new() }
    }
}

} // verus!
