use teth::block::{Block, GENESIS_GAS_LIMIT, GENESIS_NONCE};
use teth::chain::{BlockChain, BlockSelector};
use teth::error::Error;
use teth::hash::{keccak256, Address, Bloom, H256};
use teth::header::BlockHeader;
use teth::ledger::Ledger;
use teth::transaction::Transaction;
use teth::uint::U256;
use teth::worldstate::WorldState;

const EMPTY_LIST_DIGEST: [u8; 32] = [
    0x1d, 0xcc, 0x4d, 0xe8, 0xde, 0xc7, 0x5d, 0x7a, 0xab, 0x85, 0xb5, 0x67, 0xb6, 0xcc, 0xd4, 0x1a,
    0xd3, 0x12, 0x45, 0x1b, 0x94, 0x8a, 0x74, 0x13, 0xf0, 0xa1, 0x42, 0xfd, 0x40, 0xd4, 0x93, 0x47,
];

fn n(v: u64) -> U256 {
    U256::from_u64(v)
}

fn addr(last: u8) -> Address {
    let mut bytes = [0u8; 20];
    bytes[19] = last;
    Address::from_bytes(bytes)
}

fn child_of(parent: &Block, difficulty: u64, nonce: u64) -> Block {
    let mut block = Block::genesis_block_at(parent.header.timestamp + 1);
    block.header.parent_hash = parent.header.hash();
    block.header.number = parent.header.number + 1;
    block.header.difficulty = n(difficulty);
    block.header.nonce = nonce;
    block
}

#[test]
fn the_genesis_block_has_the_canonical_header() {
    let block = Block::genesis_block_at(1_550_000_000);
    let h = block.header;
    assert_eq!(h.parent_hash, H256::zero());
    assert_eq!(h.ommers_hash, H256::from_bytes(EMPTY_LIST_DIGEST));
    assert_eq!(h.ommers_hash.bytes, tiny_keccak::keccak256(&rlp::EMPTY_LIST_RLP));
    assert_eq!(h.beneficiary, Address::zero());
    assert_eq!(h.state_root, H256::zero());
    assert_eq!(h.transactions_root, H256::zero());
    assert_eq!(h.receipts_root, H256::zero());
    assert_eq!(h.logs_bloom, Bloom::zero());
    assert_eq!(h.difficulty, n(131_072));
    assert_eq!(h.number, 0);
    assert_eq!(h.gas_limit, n(3_141_592));
    assert_eq!(h.gas_used, n(0));
    assert_eq!(h.timestamp, 1_550_000_000);
    assert_eq!(h.extra_data, [0u8; 32]);
    assert_eq!(h.mix_hash, H256::zero());
    assert_eq!(h.nonce, 42);
    assert!(block.transactions.is_empty());
    assert!(block.ommers.is_empty());
    assert_eq!(GENESIS_GAS_LIMIT, 3_141_592);
    assert_eq!(GENESIS_NONCE, 42);
}

#[test]
fn the_genesis_block_made_now_carries_the_time_of_the_clock() {
    let before = std::time::SystemTime::now()
        .duration_since(std::time::SystemTime::UNIX_EPOCH)
        .unwrap()
        .as_secs();
    let block = Block::genesis_block();
    let after = std::time::SystemTime::now()
        .duration_since(std::time::SystemTime::UNIX_EPOCH)
        .unwrap()
        .as_secs();
    assert!(before <= block.header.timestamp && block.header.timestamp <= after);
    assert_eq!(block, Block::genesis_block_at(block.header.timestamp));
}

#[test]
fn the_sample_block_carries_one_transfer() {
    let parent = keccak256(&[1]);
    let block = Block::exodus_block_on(parent, addr(5), 77);
    assert_eq!(block.header.parent_hash, parent);
    assert_eq!(block.header.number, 1);
    assert_eq!(block.header.gas_used, n(21_000));
    assert_eq!(block.header.timestamp, 77);
    assert_eq!(block.header.difficulty, n(131_072));
    assert_eq!(block.header.gas_limit, n(3_141_592));
    assert_eq!(block.header.nonce, 42);
    assert_eq!(block.ommers.len(), 0);
    assert_eq!(
        block.transactions,
        vec![Transaction {
            nonce: n(1),
            gas_price: n(2),
            gas_limit: n(84_000),
            to: Some(addr(5)),
            value: n(42_000),
            data: Some(vec![]),
            ..Transaction::default()
        }]
    );
}

#[test]
fn the_sample_block_made_now_follows_a_genesis_block() {
    let block = Block::exodus_block();
    assert_eq!(block.header.number, 1);
    assert_eq!(block.transactions.len(), 1);
    assert!(block.transactions[0].to.is_some());
    assert_ne!(block.header.parent_hash, H256::zero());
    let mut chain = BlockChain::new_at(0);
    assert_eq!(chain.add_block(block), Err(Error::UnknownParent));
}

#[test]
fn a_block_encodes_as_the_flat_list_of_header_transactions_and_ommers() {
    let genesis = Block::genesis_block_at(5);
    let bytes = genesis.to_rlp();
    let view = rlp::Rlp::new(&bytes);
    assert_eq!(view.item_count(), Ok(1));
    assert_eq!(view.at(0).unwrap().as_raw(), &genesis.header.to_rlp()[..]);

    let mut block = Block::exodus_block_on(genesis.header.hash(), addr(5), 6);
    block.transactions.push(Transaction::default());
    block.ommers.push(genesis.header);
    block.ommers.push(BlockHeader::default());
    let bytes = block.to_rlp();
    assert_eq!(block.try_to_rlp(), Some(bytes.clone()));
    let view = rlp::Rlp::new(&bytes);
    assert_eq!(view.item_count(), Ok(5));
    assert_eq!(view.at(0).unwrap().as_raw(), &block.header.to_rlp()[..]);
    assert_eq!(view.at(1).unwrap().as_raw(), &block.transactions[0].to_rlp()[..]);
    assert_eq!(view.at(2).unwrap().as_raw(), &block.transactions[1].to_rlp()[..]);
    assert_eq!(view.at(3).unwrap().as_raw(), &genesis.header.to_rlp()[..]);
    assert_eq!(view.at(4).unwrap().as_raw(), &BlockHeader::default().to_rlp()[..]);
}

#[test]
fn the_hash_of_a_block_is_the_digest_of_its_encoding() {
    let block = Block::exodus_block_on(keccak256(&[1]), addr(5), 6);
    assert_eq!(block.hash(), keccak256(&block.to_rlp()));
    assert_eq!(block.try_hash(), Some(block.hash()));
    assert_eq!(block.hash().bytes, tiny_keccak::keccak256(&block.to_rlp()));
    assert_ne!(block.hash(), block.header.hash());
}

#[test]
fn the_hash_of_a_block_changes_with_header_transactions_and_ommers() {
    let base = Block::exodus_block_on(keccak256(&[1]), addr(5), 6);
    let same = Block::exodus_block_on(keccak256(&[1]), addr(5), 6);
    assert_eq!(base.hash(), same.hash());

    let mut header = base.clone();
    header.header.gas_used = n(21_001);
    let mut transaction = base.clone();
    transaction.transactions[0].value = n(1);
    let mut more = base.clone();
    more.transactions.push(Transaction::default());
    let mut fewer = base.clone();
    fewer.transactions.clear();
    let mut ommer = base.clone();
    ommer.ommers.push(BlockHeader::default());
    let mut other_ommer = base.clone();
    other_ommer.ommers.push(BlockHeader { number: 1, ..BlockHeader::default() });
    let variants = vec![header, transaction, more, fewer, ommer, other_ommer];
    for (i, b) in variants.iter().enumerate() {
        assert_ne!(b.hash(), base.hash(), "variant {}", i);
        for other in variants.iter().skip(i + 1) {
            assert_ne!(b.hash(), other.hash());
        }
    }
}

#[test]
fn a_new_chain_holds_its_genesis_block() {
    let chain = BlockChain::new_at(100);
    let genesis = Block::genesis_block_at(100);
    assert_eq!(chain.len(), 1);
    assert_eq!(chain.latest_block_hash(), genesis.header.hash());
    assert_eq!(chain.block_at(0), &genesis);
    assert!(chain.contains(&genesis.header.hash()));
    assert_eq!(chain.total_difficulty(&genesis.header.hash()), Ok(n(131_072)));
    let now = BlockChain::new();
    assert_eq!(now.len(), 1);
    assert_eq!(now.latest_block_hash(), now.block_at(0).header.hash());
}

#[test]
fn the_total_difficulty_of_a_child_is_262144() {
    let mut chain = BlockChain::new_at(100);
    let genesis = Block::genesis_block_at(100);
    let child = child_of(&genesis, 131_072, 1);
    assert_eq!(chain.add_block(child.clone()), Ok(()));
    assert_eq!(chain.total_difficulty(&child.header.hash()), Ok(n(262_144)));
    assert_eq!(chain.latest_block_hash(), child.header.hash());
}

#[test]
fn the_total_difficulty_is_the_sum_along_the_chain() {
    let mut chain = BlockChain::new_at(100);
    let mut tip = Block::genesis_block_at(100);
    let difficulties = [5u64, 1_000, 131_072, 7, 99_999];
    let mut sum = 131_072u64;
    for (i, d) in difficulties.iter().enumerate() {
        let block = child_of(&tip, *d, i as u64);
        assert_eq!(chain.add_block(block.clone()), Ok(()));
        sum += d;
        assert_eq!(chain.total_difficulty(&block.header.hash()), Ok(n(sum)));
        tip = block;
    }
    assert_eq!(sum, 131_072 + 5 + 1_000 + 131_072 + 7 + 99_999);
    assert_eq!(chain.len(), 6);
    assert_eq!(chain.latest_block_hash(), tip.header.hash());
    assert_eq!(
        chain.total_difficulty(&Block::genesis_block_at(100).header.hash()),
        Ok(n(131_072))
    );
}

#[test]
fn an_unknown_hash_has_no_total_difficulty() {
    let chain = BlockChain::new_at(100);
    assert_eq!(chain.total_difficulty(&keccak256(&[1])), Err(Error::UnknownBlock));
    assert_eq!(chain.total_difficulty(&H256::zero()), Err(Error::UnknownBlock));
    assert!(!chain.contains(&H256::zero()));
}

#[test]
fn a_block_without_its_parent_is_refused() {
    let mut chain = BlockChain::new_at(100);
    let stranger = Block::genesis_block_at(5);
    let orphan = child_of(&stranger, 500_000, 1);
    assert_eq!(chain.add_block(orphan.clone()), Err(Error::UnknownParent));
    assert_eq!(chain.len(), 1);
    assert_eq!(chain.latest_block_hash(), Block::genesis_block_at(100).header.hash());
    assert!(!chain.contains(&orphan.header.hash()));
    assert_eq!(chain.add_block(stranger), Ok(()));
    assert_eq!(chain.add_block(orphan), Ok(()));
    assert_eq!(chain.len(), 3);
}

#[test]
fn a_second_genesis_block_is_stored_without_moving_the_head() {
    let mut chain = BlockChain::new_at(100);
    let other = Block::genesis_block_at(101);
    assert_eq!(chain.add_block(other.clone()), Ok(()));
    assert_eq!(chain.len(), 2);
    assert_eq!(chain.latest_block_hash(), Block::genesis_block_at(100).header.hash());
    assert_eq!(chain.total_difficulty(&other.header.hash()), Ok(n(131_072)));
}

#[test]
fn a_block_that_is_stored_already_changes_nothing() {
    let mut chain = BlockChain::new_at(100);
    assert_eq!(chain.add_block(Block::genesis_block_at(100)), Ok(()));
    assert_eq!(chain.len(), 1);
    let child = child_of(&Block::genesis_block_at(100), 5, 1);
    assert_eq!(chain.add_block(child.clone()), Ok(()));
    assert_eq!(chain.add_block(child.clone()), Ok(()));
    assert_eq!(chain.len(), 2);
    assert_eq!(chain.block_at(1), &child);
    assert_eq!(chain.latest_block_hash(), child.header.hash());
}

#[test]
fn a_block_with_a_stored_header_takes_the_place_of_the_stored_block() {
    let mut chain = BlockChain::new_at(100);
    let child = child_of(&Block::genesis_block_at(100), 5, 1);
    let grandchild = child_of(&child, 5, 1);
    assert_eq!(chain.add_block(child.clone()), Ok(()));
    assert_eq!(chain.add_block(grandchild.clone()), Ok(()));
    let mut twin = child.clone();
    twin.transactions.push(Transaction::default());
    assert_eq!(twin.header.hash(), child.header.hash());
    assert_eq!(chain.add_block(twin.clone()), Ok(()));
    assert_eq!(chain.len(), 3);
    assert_eq!(chain.block_at(1), &twin);
    assert_eq!(chain.get_block(&BlockSelector::Hash(child.header.hash())), Some(&twin));
    assert_eq!(chain.latest_block_hash(), grandchild.header.hash());
    assert_eq!(chain.total_difficulty(&grandchild.header.hash()), Ok(n(131_072 + 10)));
}

#[test]
fn the_head_is_the_heaviest_block() {
    let mut chain = BlockChain::new_at(100);
    let genesis = Block::genesis_block_at(100);
    let light = child_of(&genesis, 10, 1);
    let heavy = child_of(&genesis, 20, 2);
    let lighter = child_of(&genesis, 5, 3);
    assert_eq!(chain.add_block(light.clone()), Ok(()));
    assert_eq!(chain.latest_block_hash(), light.header.hash());
    assert_eq!(chain.add_block(heavy.clone()), Ok(()));
    assert_eq!(chain.latest_block_hash(), heavy.header.hash());
    assert_eq!(chain.add_block(lighter.clone()), Ok(()));
    assert_eq!(chain.latest_block_hash(), heavy.header.hash());
    let grandchild = child_of(&lighter, 16, 4);
    assert_eq!(chain.add_block(grandchild.clone()), Ok(()));
    assert_eq!(chain.latest_block_hash(), grandchild.header.hash());
    assert_eq!(chain.total_difficulty(&grandchild.header.hash()), Ok(n(131_072 + 5 + 16)));
}

#[test]
fn of_two_equally_heavy_blocks_the_first_stays_head() {
    let mut chain = BlockChain::new_at(100);
    let genesis = Block::genesis_block_at(100);
    let first = child_of(&genesis, 10, 1);
    let second = child_of(&genesis, 10, 2);
    assert_eq!(chain.add_block(first.clone()), Ok(()));
    assert_eq!(chain.add_block(second.clone()), Ok(()));
    assert_ne!(first.header.hash(), second.header.hash());
    assert_eq!(chain.latest_block_hash(), first.header.hash());
}

#[test]
fn a_total_difficulty_beyond_256_bits_is_refused() {
    let mut chain = BlockChain::new_at(100);
    let genesis = Block::genesis_block_at(100);
    let mut block = child_of(&genesis, 1, 1);
    block.header.difficulty = U256::max_value();
    assert_eq!(chain.add_block(block), Err(Error::Overflow));
    assert_eq!(chain.len(), 1);
    let mut block = child_of(&genesis, 1, 1);
    block.header.difficulty = U256::max_value().checked_sub(&n(131_072)).unwrap();
    assert_eq!(chain.add_block(block.clone()), Ok(()));
    assert_eq!(chain.total_difficulty(&block.header.hash()), Ok(U256::max_value()));
}

#[test]
fn blocks_are_found_by_hash_number_and_as_the_latest() {
    let mut chain = BlockChain::new_at(100);
    let genesis = Block::genesis_block_at(100);
    let a1 = child_of(&genesis, 10, 1);
    let a2 = child_of(&a1, 10, 1);
    let b1 = child_of(&genesis, 15, 2);
    for b in [&a1, &a2, &b1] {
        assert_eq!(chain.add_block(b.clone()), Ok(()));
    }
    assert_eq!(chain.get_block(&BlockSelector::Latest), Some(&a2));
    assert_eq!(chain.get_block(&BlockSelector::Hash(b1.header.hash())), Some(&b1));
    assert_eq!(chain.get_block(&BlockSelector::Hash(keccak256(&[9]))), None);
    assert_eq!(chain.get_block(&BlockSelector::Number(0)), Some(&genesis));
    assert_eq!(chain.get_block(&BlockSelector::Number(1)), Some(&a1));
    assert_eq!(chain.get_block(&BlockSelector::Number(2)), Some(&a2));
    assert_eq!(chain.get_block(&BlockSelector::Number(3)), None);
}

#[test]
fn importing_checks_the_header_against_its_parent() {
    let mut chain = BlockChain::new_at(100);
    let genesis = Block::genesis_block_at(100);
    let good = child_of(&genesis, 131_072, 1);
    assert_eq!(chain.import_block(good.clone(), false), Err(Error::ProofOfWorkInvalid));
    let mut bad = good.clone();
    bad.header.gas_used = n(3_141_593);
    assert_eq!(chain.import_block(bad, true), Err(Error::BlockGasExceeded));
    let mut bad = good.clone();
    bad.header.gas_limit = n(4_000_000);
    assert_eq!(chain.import_block(bad, true), Err(Error::InvalidGasLimit));
    let mut bad = good.clone();
    bad.header.timestamp = 100;
    assert_eq!(chain.import_block(bad, true), Err(Error::InvalidTimestamp));
    let mut bad = good.clone();
    bad.header.number = 2;
    assert_eq!(chain.import_block(bad, true), Err(Error::InvalidBlockNumber));
    let orphan = child_of(&good, 1, 1);
    assert_eq!(chain.import_block(orphan, true), Err(Error::UnknownParent));
    assert_eq!(chain.len(), 1);
    assert_eq!(chain.latest_block_hash(), genesis.header.hash());
    assert_eq!(chain.import_block(good.clone(), true), Ok(()));
    assert_eq!(chain.len(), 2);
    assert_eq!(chain.latest_block_hash(), good.header.hash());
    assert_eq!(chain.import_block(Block::genesis_block_at(7), false), Ok(()));
    assert_eq!(chain.len(), 3);
}

#[test]
fn the_ledger_answers_for_its_blocks() {
    let mut chain = BlockChain::new_at(100);
    let genesis = Block::genesis_block_at(100);
    let child = child_of(&genesis, 10, 1);
    assert_eq!(chain.add_block(child.clone()), Ok(()));
    let ledger = Ledger::new(WorldState::new(), chain);
    assert_eq!(ledger.get_block(&BlockSelector::Latest), Some(&child));
    assert_eq!(ledger.get_block(&BlockSelector::Number(0)), Some(&genesis));
    assert_eq!(ledger.get_block(&BlockSelector::Hash(H256::zero())), None);
    assert_eq!(ledger.total_difficulty(&child.header.hash()), Ok(n(131_082)));
    assert_eq!(ledger.total_difficulty(&H256::zero()), Err(Error::UnknownBlock));
}
