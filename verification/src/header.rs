//! Block headers: difficulty retargeting, the validity rule against the
//! parent header, the canonical encoding and the hash.

use crate::codec::encode_bytes;
use crate::codec::encode_list;
use crate::codec::encode_u256;
use crate::codec::encode_u64;
use crate::codec::join;
use crate::codec::lemma_scalar_item_len;
use crate::codec::lemma_str_item_len;
use crate::codec::list_item;
use crate::codec::scalar_item;
use crate::codec::str_item;
use crate::error::Error;
use crate::hash::bytes_eq;
use crate::hash::keccak256;
use crate::hash::lemma_address_eq;
use crate::hash::lemma_bloom_eq;
use crate::hash::lemma_h256_eq;
use crate::hash::keccak256_digest;
use crate::hash::zeros;
use crate::hash::Address;
use crate::hash::Bloom;
use crate::hash::H256;
use crate::uint::lemma_radix_pow2;
use crate::uint::lemma_value_canonical;
use crate::uint::modulus;
use crate::uint::U256;
use vstd::arithmetic::power2::lemma_pow2_strictly_increases;
use vstd::arithmetic::power2::pow2;
use vstd::prelude::*;

verus! {

/// The least difficulty a block can have, and the difficulty of every child
/// of a block numbered zero.
pub const MINIMUM_DIFFICULTY: u64 = 131072;

/// The least gas limit a block can have.
pub const MINIMUM_GAS_LIMIT: u64 = 5000;

/// The block number at which the difficulty bomb starts to count.
pub const BOMB_DELAY: u64 = 3_000_000;

/// The number of blocks after which the difficulty bomb doubles.
pub const BOMB_PERIOD: u64 = 100_000;

/// The bomb term of the difficulty of block `number`: two to the power
/// `max(number - 3000000, 0) / 100000 - 2`, rounded down to a whole number,
/// which is zero while the exponent is negative.
pub open spec fn difficulty_bomb(number: nat) -> nat {
    let delayed: int = if number >= BOMB_DELAY {
        number - BOMB_DELAY
    } else {
        0
    };
    let exponent: int = delayed / (BOMB_PERIOD as int) - 2;
    if exponent < 0 {
        0
    } else {
        pow2(exponent as nat)
    }
}

/// The factor by which a 2048th of the parent's difficulty is added: one, or
/// two where the parent has ommers, less a ninth of the time since the
/// parent, rounded down; never below -99.
pub open spec fn time_factor(num_parent_ommers: nat, parent_timestamp: nat, timestamp: nat) -> int {
    let y: int = if num_parent_ommers == 0 {
        1
    } else {
        2
    };
    let factor: int = y - (timestamp - parent_timestamp) / 9;
    if factor < -99 {
        -99
    } else {
        factor
    }
}

/// The difficulty of a block, from its parent's number, difficulty, count of
/// ommers and timestamp, and its own timestamp and number.
pub open spec fn spec_difficulty(
    parent_number: nat,
    parent_difficulty: nat,
    num_parent_ommers: nat,
    parent_timestamp: nat,
    timestamp: nat,
    number: nat,
) -> int {
    if parent_number == 0 {
        MINIMUM_DIFFICULTY as int
    } else {
        let raw: int = parent_difficulty + (parent_difficulty / 2048) * time_factor(
            num_parent_ommers,
            parent_timestamp,
            timestamp,
        ) + difficulty_bomb(number);
        if raw < MINIMUM_DIFFICULTY {
            MINIMUM_DIFFICULTY as int
        } else {
            raw
        }
    }
}

/// Whether a gas limit is admissible after a parent's: strictly within a
/// 1024th of the parent's, and at least 5000.
pub open spec fn spec_validate_gas_limit(gas_limit: nat, parent_gas_limit: nat) -> bool {
    &&& parent_gas_limit - parent_gas_limit / 1024 < gas_limit
    &&& gas_limit < parent_gas_limit + parent_gas_limit / 1024
    &&& gas_limit >= MINIMUM_GAS_LIMIT
}

/// The difficulty is never below the minimum, and it is the minimum for
/// every child of a block numbered zero, whatever the other arguments.
pub proof fn lemma_difficulty_floor(
    parent_number: nat,
    parent_difficulty: nat,
    num_parent_ommers: nat,
    parent_timestamp: nat,
    timestamp: nat,
    number: nat,
)
    ensures
        spec_difficulty(
            parent_number,
            parent_difficulty,
            num_parent_ommers,
            parent_timestamp,
            timestamp,
            number,
        ) >= MINIMUM_DIFFICULTY,
        parent_number == 0 ==> spec_difficulty(
            parent_number,
            parent_difficulty,
            num_parent_ommers,
            parent_timestamp,
            timestamp,
            number,
        ) == MINIMUM_DIFFICULTY,
{
}

/// What a block header holds, as plain values.
pub struct HeaderView {
    /// The hash of the parent block's header.
    pub parent_hash: Seq<u8>,
    /// The hash of the list of ommers.
    pub ommers_hash: Seq<u8>,
    /// The address that collects the fees.
    pub beneficiary: Seq<u8>,
    /// The root of the state trie.
    pub state_root: Seq<u8>,
    /// The root of the transactions trie.
    pub transactions_root: Seq<u8>,
    /// The root of the receipts trie.
    pub receipts_root: Seq<u8>,
    /// The bloom filter of the logs.
    pub logs_bloom: Seq<u8>,
    /// The difficulty of the block.
    pub difficulty: nat,
    /// The number of ancestors.
    pub number: nat,
    /// The limit of gas expenditure.
    pub gas_limit: nat,
    /// The gas used by the transactions.
    pub gas_used: nat,
    /// The time of the block's inception.
    pub timestamp: nat,
    /// Arbitrary data of the block.
    pub extra_data: Seq<u8>,
    /// The hash that, with the nonce, proves the work.
    pub mix_hash: Seq<u8>,
    /// The value that, with the mix hash, proves the work.
    pub nonce: nat,
}

/// The outcome of each check of a header against its parent.
#[derive(Clone, Copy, Debug, PartialEq, Eq, Structural)]
pub struct HeaderChecks {
    /// The proof of work was judged valid.
    pub proof_of_work: bool,
    /// No more gas was used than the limit allows.
    pub gas_used: bool,
    /// The gas limit is admissible after the parent's.
    pub gas_limit: bool,
    /// The header is younger than its parent.
    pub timestamp: bool,
    /// The number is the parent's plus one.
    pub number: bool,
}

impl HeaderChecks {
    /// Whether every check passed.
    pub open spec fn spec_all(&self) -> bool {
        self.proof_of_work && self.gas_used && self.gas_limit && self.timestamp && self.number
    }

    /// The first check that failed, as an error; the checks are taken in the
    /// order proof of work, gas used, gas limit, timestamp, number.
    pub open spec fn spec_verdict(&self) -> Result<(), Error> {
        if !self.proof_of_work {
            Err(Error::ProofOfWorkInvalid)
        } else if !self.gas_used {
            Err(Error::BlockGasExceeded)
        } else if !self.gas_limit {
            Err(Error::InvalidGasLimit)
        } else if !self.timestamp {
            Err(Error::InvalidTimestamp)
        } else if !self.number {
            Err(Error::InvalidBlockNumber)
        } else {
            Ok(())
        }
    }

    /// Whether every check passed.
    pub fn all(&self) -> (r: bool)
        ensures
            r == self.spec_all(),
    {
        self.proof_of_work && self.gas_used && self.gas_limit && self.timestamp && self.number
    }

    /// `Ok` when every check passed, else the error of the first that failed.
    pub fn verdict(&self) -> (r: Result<(), Error>)
        ensures
            r == self.spec_verdict(),
            r is Ok <==> self.spec_all(),
    {
        if !self.proof_of_work {
            Err(Error::ProofOfWorkInvalid)
        } else if !self.gas_used {
            Err(Error::BlockGasExceeded)
        } else if !self.gas_limit {
            Err(Error::InvalidGasLimit)
        } else if !self.timestamp {
            Err(Error::InvalidTimestamp)
        } else if !self.number {
            Err(Error::InvalidBlockNumber)
        } else {
            Ok(())
        }
    }
}

impl HeaderView {
    /// Whether the values are those of a header: hashes of 32 bytes, an
    /// address of 20, a bloom filter of 256, extra data of 32, scalars below
    /// `2^256`, and a number, a timestamp and a nonce below `2^64`.
    pub open spec fn wf(self) -> bool {
        &&& self.parent_hash.len() == 32
        &&& self.ommers_hash.len() == 32
        &&& self.beneficiary.len() == 20
        &&& self.state_root.len() == 32
        &&& self.transactions_root.len() == 32
        &&& self.receipts_root.len() == 32
        &&& self.logs_bloom.len() == 256
        &&& self.difficulty < modulus()
        &&& self.number <= u64::MAX
        &&& self.gas_limit < modulus()
        &&& self.gas_used < modulus()
        &&& self.timestamp <= u64::MAX
        &&& self.extra_data.len() == 32
        &&& self.mix_hash.len() == 32
        &&& self.nonce <= u64::MAX
    }

    /// The outcome of each check of the header against `parent`, given the
    /// verdict on its proof of work.
    pub open spec fn checks(self, parent: HeaderView, proof_of_work_valid: bool) -> HeaderChecks {
        HeaderChecks {
            proof_of_work: proof_of_work_valid,
            gas_used: self.gas_used <= self.gas_limit,
            gas_limit: spec_validate_gas_limit(self.gas_limit, parent.gas_limit),
            timestamp: self.timestamp > parent.timestamp,
            number: self.number == parent.number + 1,
        }
    }

    /// The concatenated encodings of the fifteen fields, in declaration
    /// order.
    pub open spec fn rlp_payload(self) -> Seq<u8> {
        str_item(self.parent_hash) + (str_item(self.ommers_hash) + (str_item(self.beneficiary) + (
        str_item(self.state_root) + (str_item(self.transactions_root) + (str_item(
            self.receipts_root,
        ) + (str_item(self.logs_bloom) + (scalar_item(self.difficulty) + (scalar_item(self.number)
            + (scalar_item(self.gas_limit) + (scalar_item(self.gas_used) + (scalar_item(
            self.timestamp,
        ) + (str_item(self.extra_data) + (str_item(self.mix_hash) + scalar_item(
            self.nonce,
        ))))))))))))))
    }

    /// The canonical encoding: the list of the fifteen fields.
    pub open spec fn rlp(self) -> Seq<u8> {
        list_item(self.rlp_payload())
    }

    /// The digest of the canonical encoding.
    pub open spec fn hash(self) -> Seq<u8> {
        keccak256_digest(self.rlp())
    }
}

/// The encoded fields of a header take at most 721 bytes, and so can always
/// be framed as a list.
pub proof fn lemma_header_payload_len(h: HeaderView)
    requires
        h.wf(),
    ensures
        h.rlp_payload().len() <= 721,
{
    lemma_str_item_len(h.parent_hash);
    lemma_str_item_len(h.ommers_hash);
    lemma_str_item_len(h.beneficiary);
    lemma_str_item_len(h.state_root);
    lemma_str_item_len(h.transactions_root);
    lemma_str_item_len(h.receipts_root);
    lemma_str_item_len(h.logs_bloom);
    lemma_scalar_item_len(h.difficulty);
    lemma_scalar_item_len(h.number);
    lemma_scalar_item_len(h.gas_limit);
    lemma_scalar_item_len(h.gas_used);
    lemma_scalar_item_len(h.timestamp);
    lemma_str_item_len(h.extra_data);
    lemma_str_item_len(h.mix_hash);
    lemma_scalar_item_len(h.nonce);
}

/// The header of a block.
#[derive(Clone, Copy, Debug, PartialEq, Eq)]
pub struct BlockHeader {
    /// The hash of the parent block's header.
    pub parent_hash: H256,
    /// The hash of the ommers list of this block.
    pub ommers_hash: H256,
    /// The address to which the fees of this block are transferred.
    pub beneficiary: Address,
    /// The root of the state trie after all transactions are executed.
    pub state_root: H256,
    /// The root of the trie of the block's transactions.
    pub transactions_root: H256,
    /// The root of the trie of the receipts of the block's transactions.
    pub receipts_root: H256,
    /// The bloom filter of the log entries of the block's receipts.
    pub logs_bloom: Bloom,
    /// The difficulty level of this block.
    pub difficulty: U256,
    /// The number of ancestor blocks; zero for the genesis block.
    pub number: u64,
    /// The current limit of gas expenditure per block.
    pub gas_limit: U256,
    /// The total gas used by the transactions of this block.
    pub gas_used: U256,
    /// The time of this block's inception, in seconds since the Unix epoch.
    pub timestamp: u64,
    /// Arbitrary data relevant to this block.
    pub extra_data: [u8; 32],
    /// The hash that, with the nonce, proves the work done on this block.
    pub mix_hash: H256,
    /// The value that, with the mix hash, proves the work done on this block.
    pub nonce: u64,
}

impl View for BlockHeader {
    type V = HeaderView;

    open spec fn view(&self) -> HeaderView {
        HeaderView {
            parent_hash: self.parent_hash@,
            ommers_hash: self.ommers_hash@,
            beneficiary: self.beneficiary@,
            state_root: self.state_root@,
            transactions_root: self.transactions_root@,
            receipts_root: self.receipts_root@,
            logs_bloom: self.logs_bloom@,
            difficulty: self.difficulty@,
            number: self.number as nat,
            gas_limit: self.gas_limit@,
            gas_used: self.gas_used@,
            timestamp: self.timestamp as nat,
            extra_data: self.extra_data@,
            mix_hash: self.mix_hash@,
            nonce: self.nonce as nat,
        }
    }
}

impl BlockHeader {
    /// The values of a header are well-formed.
    pub proof fn lemma_view_wf(&self)
        ensures
            self@.wf(),
    {
        lemma_value_canonical(self.difficulty, self.gas_limit);
        lemma_value_canonical(self.gas_limit, self.gas_used);
        lemma_value_canonical(self.gas_used, self.gas_limit);
    }

    /// Whether the two headers hold the same values.
    pub fn same_as(&self, other: &BlockHeader) -> (same: bool)
        ensures
            same == (self@ == other@),
    {
        proof {
            lemma_h256_eq(self.parent_hash, other.parent_hash);
            lemma_h256_eq(self.ommers_hash, other.ommers_hash);
            lemma_address_eq(self.beneficiary, other.beneficiary);
            lemma_h256_eq(self.state_root, other.state_root);
            lemma_h256_eq(self.transactions_root, other.transactions_root);
            lemma_h256_eq(self.receipts_root, other.receipts_root);
            lemma_bloom_eq(self.logs_bloom, other.logs_bloom);
            lemma_value_canonical(self.difficulty, other.difficulty);
            lemma_value_canonical(self.gas_limit, other.gas_limit);
            lemma_value_canonical(self.gas_used, other.gas_used);
            lemma_h256_eq(self.mix_hash, other.mix_hash);
        }
        self.parent_hash == other.parent_hash && self.ommers_hash == other.ommers_hash
            && self.beneficiary == other.beneficiary && self.state_root == other.state_root
            && self.transactions_root == other.transactions_root && self.receipts_root
            == other.receipts_root && self.logs_bloom == other.logs_bloom && self.difficulty
            == other.difficulty && self.number == other.number && self.gas_limit
            == other.gas_limit && self.gas_used == other.gas_used && self.timestamp
            == other.timestamp && bytes_eq(self.extra_data.as_slice(), other.extra_data.as_slice())
            && self.mix_hash == other.mix_hash && self.nonce == other.nonce
    }

    /// The difficulty of a block, or `None` when it does not fit in 256
    /// bits.
    pub fn checked_difficulty(
        parent_number: u64,
        parent_difficulty: U256,
        num_parent_ommers: u64,
        parent_timestamp: u64,
        timestamp: u64,
        number: u64,
    ) -> (r: Option<U256>)
        ensures
            r is Some <==> spec_difficulty(
                parent_number as nat,
                parent_difficulty@,
                num_parent_ommers as nat,
                parent_timestamp as nat,
                timestamp as nat,
                number as nat,
            ) < modulus(),
            r matches Some(d) ==> d@ == spec_difficulty(
                parent_number as nat,
                parent_difficulty@,
                num_parent_ommers as nat,
                parent_timestamp as nat,
                timestamp as nat,
                number as nat,
            ),
    {
        let minimum = U256::from_u64(MINIMUM_DIFFICULTY);
        if parent_number == 0 {
            return Some(minimum);
        }
        let ghost factor = time_factor(
            num_parent_ommers as nat,
            parent_timestamp as nat,
            timestamp as nat,
        );
        let ghost bomb = difficulty_bomb(number as nat);
        let x = parent_difficulty.checked_div(&U256::from_u64(2048)).unwrap();
        let y: u64 = if num_parent_ommers == 0 {
            1
        } else {
            2
        };
        proof {
            lemma_value_canonical(parent_difficulty, x);
        }
        let adjusted: U256 = if timestamp >= parent_timestamp {
            let elapsed: u64 = (timestamp - parent_timestamp) / 9;
            if elapsed <= y {
                let up: u64 = y - elapsed;
                assert(factor == up);
                assert(x@ * up <= parent_difficulty@) by (nonlinear_arith)
                    requires
                        x@ * 2048 <= parent_difficulty@,
                        up <= 2,
                ;
                let step = x.checked_mul(&U256::from_u64(up)).unwrap();
                match parent_difficulty.checked_add(&step) {
                    Some(sum) => sum,
                    None => {
                        return None;
                    },
                }
            } else {
                let down: u64 = if elapsed - y > 99 {
                    99
                } else {
                    elapsed - y
                };
                assert(factor == -down);
                assert(x@ * down <= parent_difficulty@) by (nonlinear_arith)
                    requires
                        x@ * 2048 <= parent_difficulty@,
                        down <= 99,
                ;
                assert(x@ * (-down) == -(x@ * down)) by (nonlinear_arith);
                let step = x.checked_mul(&U256::from_u64(down)).unwrap();
                parent_difficulty.checked_sub(&step).unwrap()
            }
        } else {
            let gap: u64 = parent_timestamp - timestamp;
            let up: u64 = (gap - 1) / 9 + 1 + y;
            assert(factor == up);
            assert(x@ * up >= 0) by (nonlinear_arith)
                requires
                    x@ >= 0,
                    up >= 0,
            ;
            let step = match x.checked_mul(&U256::from_u64(up)) {
                Some(step) => step,
                None => {
                    return None;
                },
            };
            match parent_difficulty.checked_add(&step) {
                Some(sum) => sum,
                None => {
                    return None;
                },
            }
        };
        assert(adjusted@ == parent_difficulty@ + x@ * factor);
        let raw: U256 = if number < BOMB_DELAY + 2 * BOMB_PERIOD {
            assert(bomb == 0);
            adjusted
        } else {
            let exponent: u64 = (number - BOMB_DELAY) / BOMB_PERIOD - 2;
            assert(bomb == pow2(exponent as nat));
            if exponent >= 256 {
                proof {
                    lemma_radix_pow2();
                    if exponent > 256 {
                        lemma_pow2_strictly_increases(256, exponent as nat);
                    }
                }
                return None;
            }
            match adjusted.checked_add(&U256::pow2(exponent)) {
                Some(sum) => sum,
                None => {
                    return None;
                },
            }
        };
        if raw.lt(&minimum) {
            Some(minimum)
        } else {
            Some(raw)
        }
    }

    /// The difficulty of a block. It is at least the minimum difficulty, and
    /// it is the minimum for every child of a block numbered zero.
    pub fn difficulty(
        parent_number: u64,
        parent_difficulty: U256,
        num_parent_ommers: u64,
        parent_timestamp: u64,
        timestamp: u64,
        number: u64,
    ) -> (d: U256)
        requires
            spec_difficulty(
                parent_number as nat,
                parent_difficulty@,
                num_parent_ommers as nat,
                parent_timestamp as nat,
                timestamp as nat,
                number as nat,
            ) < modulus(),
        ensures
            d@ == spec_difficulty(
                parent_number as nat,
                parent_difficulty@,
                num_parent_ommers as nat,
                parent_timestamp as nat,
                timestamp as nat,
                number as nat,
            ),
            d@ >= MINIMUM_DIFFICULTY,
            parent_number == 0 ==> d@ == MINIMUM_DIFFICULTY,
    {
        BlockHeader::checked_difficulty(
            parent_number,
            parent_difficulty,
            num_parent_ommers,
            parent_timestamp,
            timestamp,
            number,
        ).unwrap()
    }

    /// Whether a gas limit is admissible after a parent's gas limit.
    pub fn validate_gas_limit(gas_limit: U256, parent_gas_limit: U256) -> (valid: bool)
        ensures
            valid == spec_validate_gas_limit(gas_limit@, parent_gas_limit@),
    {
        proof {
            lemma_value_canonical(gas_limit, parent_gas_limit);
        }
        let bound = parent_gas_limit.checked_div(&U256::from_u64(1024)).unwrap();
        let lower = parent_gas_limit.checked_sub(&bound).unwrap();
        let below_upper = match parent_gas_limit.checked_add(&bound) {
            Some(upper) => gas_limit.lt(&upper),
            None => true,
        };
        below_upper && gas_limit.gt(&lower) && gas_limit.ge(&U256::from_u64(MINIMUM_GAS_LIMIT))
    }

    /// Whether the header uses no more gas than its gas limit allows.
    pub fn validate_gas_used(&self) -> (valid: bool)
        ensures
            valid == (self@.gas_used <= self@.gas_limit),
    {
        self.gas_used.le(&self.gas_limit)
    }

    /// Whether a timestamp is later than the parent's.
    pub fn validate_timestamp(timestamp: u64, parent_timestamp: u64) -> (valid: bool)
        ensures
            valid == (timestamp > parent_timestamp),
    {
        timestamp > parent_timestamp
    }

    /// Checks the header against its parent, given the verdict on its proof
    /// of work. Every check is made, whatever the others gave.
    pub fn checks(&self, parent: &BlockHeader, proof_of_work_valid: bool) -> (r: HeaderChecks)
        ensures
            r == self@.checks(parent@, proof_of_work_valid),
    {
        HeaderChecks {
            proof_of_work: proof_of_work_valid,
            gas_used: self.validate_gas_used(),
            gas_limit: BlockHeader::validate_gas_limit(self.gas_limit, parent.gas_limit),
            timestamp: BlockHeader::validate_timestamp(self.timestamp, parent.timestamp),
            number: parent.number < u64::MAX && self.number == parent.number + 1,
        }
    }

    /// Whether the header is valid after its parent, given the verdict on
    /// its proof of work: the work is valid, no more gas is used than the
    /// limit allows, the gas limit is admissible, the header is younger than
    /// its parent and its number is the parent's plus one.
    pub fn validate(&self, parent: &BlockHeader, proof_of_work_valid: bool) -> (valid: bool)
        ensures
            valid == self@.checks(parent@, proof_of_work_valid).spec_all(),
    {
        self.checks(parent, proof_of_work_valid).all()
    }

    /// The canonical encoding of the header.
    pub fn to_rlp(&self) -> (out: Vec<u8>)
        ensures
            out@ == self@.rlp(),
    {
        proof {
            self.lemma_view_wf();
            lemma_header_payload_len(self@);
        }
        let payload = join(encode_bytes(self.mix_hash.bytes.as_slice()), encode_u64(self.nonce));
        let payload = join(encode_bytes(self.extra_data.as_slice()), payload);
        let payload = join(encode_u64(self.timestamp), payload);
        let payload = join(encode_u256(&self.gas_used), payload);
        let payload = join(encode_u256(&self.gas_limit), payload);
        let payload = join(encode_u64(self.number), payload);
        let payload = join(encode_u256(&self.difficulty), payload);
        let payload = join(encode_bytes(self.logs_bloom.bytes.as_slice()), payload);
        let payload = join(encode_bytes(self.receipts_root.bytes.as_slice()), payload);
        let payload = join(encode_bytes(self.transactions_root.bytes.as_slice()), payload);
        let payload = join(encode_bytes(self.state_root.bytes.as_slice()), payload);
        let payload = join(encode_bytes(self.beneficiary.bytes.as_slice()), payload);
        let payload = join(encode_bytes(self.ommers_hash.bytes.as_slice()), payload);
        let payload = join(encode_bytes(self.parent_hash.bytes.as_slice()), payload);
        encode_list(payload.as_slice())
    }

    /// The hash of the header: the digest of its canonical encoding.
    pub fn hash(&self) -> (h: H256)
        ensures
            h@ == self@.hash(),
    {
        keccak256(self.to_rlp().as_slice())
    }
}

impl BlockHeader {
    /// The header whose every field is zero.
    pub open spec fn default_view() -> HeaderView {
        HeaderView {
            parent_hash: zeros(32),
            ommers_hash: zeros(32),
            beneficiary: zeros(20),
            state_root: zeros(32),
            transactions_root: zeros(32),
            receipts_root: zeros(32),
            logs_bloom: zeros(256),
            difficulty: 0,
            number: 0,
            gas_limit: 0,
            gas_used: 0,
            timestamp: 0,
            extra_data: zeros(32),
            mix_hash: zeros(32),
            nonce: 0,
        }
    }
}

impl Default for BlockHeader {
    fn default() -> (header: BlockHeader)
        ensures
            header@ == BlockHeader::default_view(),
    {
        let extra_data = [0u8; 32];
        assert(extra_data@ =~= zeros(32));
        BlockHeader {
            parent_hash: H256::zero(),
            ommers_hash: H256::zero(),
            beneficiary: Address::zero(),
            state_root: H256::zero(),
            transactions_root: H256::zero(),
            receipts_root: H256::zero(),
            logs_bloom: Bloom::zero(),
            difficulty: U256::zero(),
            number: 0,
            gas_limit: U256::zero(),
            gas_used: U256::zero(),
            timestamp: 0,
            extra_data,
            mix_hash: H256::zero(),
            nonce: 0,
        }
    }
}

} // verus!
