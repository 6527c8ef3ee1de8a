//! The canonical encoding is injective: accounts, transactions, headers and
//! blocks that differ have encodings that differ, and so, unless the digest
//! collides, hashes that differ.

use crate::accountstate::AccountView;
use crate::block::header_items;
use crate::block::transaction_items;
use crate::block::BlockView;
use crate::codec::concat;
use crate::codec::lemma_list_item_len;
use crate::codec::lemma_pow256_values;
use crate::codec::lemma_scalar_item_len;
use crate::codec::lemma_str_item_len;
use crate::codec::list_item;
use crate::codec::opt_str_fits;
use crate::codec::opt_str_item;
use crate::codec::scalar_item;
use crate::codec::str_item;
use crate::codec::MAX_PAYLOAD;
use crate::decode::lemma_list_item_injective;
use crate::decode::lemma_scalar_item_injective;
use crate::decode::lemma_str_is_no_list;
use crate::decode::lemma_str_item_injective;
use crate::hash::keccak256_digest;
use crate::header::lemma_header_payload_len;
use crate::header::HeaderView;
use crate::transaction::TransactionView;
use vstd::prelude::*;

verus! {

/// The encoding of optional byte strings is injective, and no encoded
/// optional string is the start of another.
pub proof fn lemma_opt_str_item_injective(
    a: Option<Seq<u8>>,
    rest_a: Seq<u8>,
    b: Option<Seq<u8>>,
    rest_b: Seq<u8>,
)
    requires
        opt_str_fits(a),
        opt_str_fits(b),
        opt_str_item(a) + rest_a == opt_str_item(b) + rest_b,
    ensures
        a == b,
        rest_a == rest_b,
{
    lemma_pow256_values();
    let inner_a = match a {
        Some(d) => str_item(d),
        None => Seq::empty(),
    };
    let inner_b = match b {
        Some(d) => str_item(d),
        None => Seq::empty(),
    };
    lemma_list_item_injective(inner_a, rest_a, inner_b, rest_b);
    match (a, b) {
        (Some(x), Some(y)) => {
            assert(str_item(x) + Seq::<u8>::empty() =~= str_item(x));
            assert(str_item(y) + Seq::<u8>::empty() =~= str_item(y));
            lemma_str_item_injective(x, Seq::empty(), y, Seq::empty());
        },
        (Some(x), None) => {
            lemma_str_item_len(x);
        },
        (None, Some(y)) => {
            lemma_str_item_len(y);
        },
        (None, None) => {},
    }
}

/// Accounts with the same encoded fields are the same account.
pub proof fn lemma_account_payload_injective(a: AccountView, b: AccountView)
    requires
        a.wf(),
        b.wf(),
        a.rlp_payload() == b.rlp_payload(),
    ensures
        a == b,
{
    lemma_pow256_values();
    let a3 = str_item(a.code_hash);
    let a2 = str_item(a.storage_root) + a3;
    let a1 = scalar_item(a.balance) + a2;
    let b3 = str_item(b.code_hash);
    let b2 = str_item(b.storage_root) + b3;
    let b1 = scalar_item(b.balance) + b2;
    assert(a.rlp_payload() == scalar_item(a.nonce) + a1);
    assert(b.rlp_payload() == scalar_item(b.nonce) + b1);
    lemma_scalar_item_injective(a.nonce, a1, b.nonce, b1);
    lemma_scalar_item_injective(a.balance, a2, b.balance, b2);
    lemma_str_item_injective(a.storage_root, a3, b.storage_root, b3);
    assert(a3 + Seq::<u8>::empty() =~= a3);
    assert(b3 + Seq::<u8>::empty() =~= b3);
    lemma_str_item_injective(a.code_hash, Seq::empty(), b.code_hash, Seq::empty());
}

/// Accounts with the same encoding are the same account.
pub proof fn lemma_account_rlp_injective(a: AccountView, b: AccountView)
    requires
        a.wf(),
        b.wf(),
        a.rlp() == b.rlp(),
    ensures
        a == b,
{
    lemma_pow256_values();
    lemma_scalar_item_len(a.nonce);
    lemma_scalar_item_len(a.balance);
    lemma_str_item_len(a.storage_root);
    lemma_str_item_len(a.code_hash);
    lemma_scalar_item_len(b.nonce);
    lemma_scalar_item_len(b.balance);
    lemma_str_item_len(b.storage_root);
    lemma_str_item_len(b.code_hash);
    assert(a.rlp() + Seq::<u8>::empty() =~= a.rlp());
    assert(b.rlp() + Seq::<u8>::empty() =~= b.rlp());
    lemma_list_item_injective(a.rlp_payload(), Seq::empty(), b.rlp_payload(), Seq::empty());
    lemma_account_payload_injective(a, b);
}

/// Headers with the same encoded fields are the same header.
pub proof fn lemma_header_payload_injective(a: HeaderView, b: HeaderView)
    requires
        a.wf(),
        b.wf(),
        a.rlp_payload() == b.rlp_payload(),
    ensures
        a == b,
{
    lemma_pow256_values();
    let a14 = scalar_item(a.nonce);
    let a13 = str_item(a.mix_hash) + a14;
    let a12 = str_item(a.extra_data) + a13;
    let a11 = scalar_item(a.timestamp) + a12;
    let a10 = scalar_item(a.gas_used) + a11;
    let a9 = scalar_item(a.gas_limit) + a10;
    let a8 = scalar_item(a.number) + a9;
    let a7 = scalar_item(a.difficulty) + a8;
    let a6 = str_item(a.logs_bloom) + a7;
    let a5 = str_item(a.receipts_root) + a6;
    let a4 = str_item(a.transactions_root) + a5;
    let a3 = str_item(a.state_root) + a4;
    let a2 = str_item(a.beneficiary) + a3;
    let a1 = str_item(a.ommers_hash) + a2;
    let b14 = scalar_item(b.nonce);
    let b13 = str_item(b.mix_hash) + b14;
    let b12 = str_item(b.extra_data) + b13;
    let b11 = scalar_item(b.timestamp) + b12;
    let b10 = scalar_item(b.gas_used) + b11;
    let b9 = scalar_item(b.gas_limit) + b10;
    let b8 = scalar_item(b.number) + b9;
    let b7 = scalar_item(b.difficulty) + b8;
    let b6 = str_item(b.logs_bloom) + b7;
    let b5 = str_item(b.receipts_root) + b6;
    let b4 = str_item(b.transactions_root) + b5;
    let b3 = str_item(b.state_root) + b4;
    let b2 = str_item(b.beneficiary) + b3;
    let b1 = str_item(b.ommers_hash) + b2;
    assert(a.rlp_payload() == str_item(a.parent_hash) + a1);
    assert(b.rlp_payload() == str_item(b.parent_hash) + b1);
    lemma_str_item_injective(a.parent_hash, a1, b.parent_hash, b1);
    lemma_str_item_injective(a.ommers_hash, a2, b.ommers_hash, b2);
    lemma_str_item_injective(a.beneficiary, a3, b.beneficiary, b3);
    lemma_str_item_injective(a.state_root, a4, b.state_root, b4);
    lemma_str_item_injective(a.transactions_root, a5, b.transactions_root, b5);
    lemma_str_item_injective(a.receipts_root, a6, b.receipts_root, b6);
    lemma_str_item_injective(a.logs_bloom, a7, b.logs_bloom, b7);
    lemma_scalar_item_injective(a.difficulty, a8, b.difficulty, b8);
    lemma_scalar_item_injective(a.number, a9, b.number, b9);
    lemma_scalar_item_injective(a.gas_limit, a10, b.gas_limit, b10);
    lemma_scalar_item_injective(a.gas_used, a11, b.gas_used, b11);
    lemma_scalar_item_injective(a.timestamp, a12, b.timestamp, b12);
    lemma_str_item_injective(a.extra_data, a13, b.extra_data, b13);
    lemma_str_item_injective(a.mix_hash, a14, b.mix_hash, b14);
    assert(a14 + Seq::<u8>::empty() =~= a14);
    assert(b14 + Seq::<u8>::empty() =~= b14);
    lemma_scalar_item_injective(a.nonce, Seq::empty(), b.nonce, Seq::empty());
}

/// Headers with the same encoding are the same header.
pub proof fn lemma_header_rlp_injective(a: HeaderView, b: HeaderView)
    requires
        a.wf(),
        b.wf(),
        a.rlp() == b.rlp(),
    ensures
        a == b,
{
    lemma_pow256_values();
    lemma_header_payload_len(a);
    lemma_header_payload_len(b);
    assert(a.rlp() + Seq::<u8>::empty() =~= a.rlp());
    assert(b.rlp() + Seq::<u8>::empty() =~= b.rlp());
    lemma_list_item_injective(a.rlp_payload(), Seq::empty(), b.rlp_payload(), Seq::empty());
    lemma_header_payload_injective(a, b);
}

/// Transactions with the same encoded fields are the same transaction.
pub proof fn lemma_transaction_payload_injective(a: TransactionView, b: TransactionView)
    requires
        a.wf(),
        b.wf(),
        a.rlp_fits(),
        b.rlp_fits(),
        a.rlp_payload() == b.rlp_payload(),
    ensures
        a == b,
{
    lemma_pow256_values();
    a.lemma_recipient_fits();
    b.lemma_recipient_fits();
    let a9 = opt_str_item(a.data);
    let a8 = opt_str_item(a.init) + a9;
    let a7 = scalar_item(a.s) + a8;
    let a6 = scalar_item(a.r) + a7;
    let a5 = scalar_item(a.v as nat) + a6;
    let a4 = scalar_item(a.value) + a5;
    let a3 = opt_str_item(a.to) + a4;
    let a2 = scalar_item(a.gas_limit) + a3;
    let a1 = scalar_item(a.gas_price) + a2;
    let b9 = opt_str_item(b.data);
    let b8 = opt_str_item(b.init) + b9;
    let b7 = scalar_item(b.s) + b8;
    let b6 = scalar_item(b.r) + b7;
    let b5 = scalar_item(b.v as nat) + b6;
    let b4 = scalar_item(b.value) + b5;
    let b3 = opt_str_item(b.to) + b4;
    let b2 = scalar_item(b.gas_limit) + b3;
    let b1 = scalar_item(b.gas_price) + b2;
    assert(a.rlp_payload() == scalar_item(a.nonce) + a1);
    assert(b.rlp_payload() == scalar_item(b.nonce) + b1);
    lemma_scalar_item_injective(a.nonce, a1, b.nonce, b1);
    lemma_scalar_item_injective(a.gas_price, a2, b.gas_price, b2);
    lemma_scalar_item_injective(a.gas_limit, a3, b.gas_limit, b3);
    lemma_opt_str_item_injective(a.to, a4, b.to, b4);
    lemma_scalar_item_injective(a.value, a5, b.value, b5);
    lemma_scalar_item_injective(a.v as nat, a6, b.v as nat, b6);
    lemma_scalar_item_injective(a.r, a7, b.r, b7);
    lemma_scalar_item_injective(a.s, a8, b.s, b8);
    lemma_opt_str_item_injective(a.init, a9, b.init, b9);
    assert(a9 + Seq::<u8>::empty() =~= a9);
    assert(b9 + Seq::<u8>::empty() =~= b9);
    lemma_opt_str_item_injective(a.data, Seq::empty(), b.data, Seq::empty());
}

/// Transactions with the same encoding are the same transaction.
pub proof fn lemma_transaction_rlp_injective(a: TransactionView, b: TransactionView)
    requires
        a.wf(),
        b.wf(),
        a.rlp_fits(),
        b.rlp_fits(),
        a.rlp() == b.rlp(),
    ensures
        a == b,
{
    lemma_pow256_values();
    assert(a.rlp() + Seq::<u8>::empty() =~= a.rlp());
    assert(b.rlp() + Seq::<u8>::empty() =~= b.rlp());
    lemma_list_item_injective(a.rlp_payload(), Seq::empty(), b.rlp_payload(), Seq::empty());
    lemma_transaction_payload_injective(a, b);
}

/// The encoded fields of a transaction are never those of a header: the
/// fourth field of a transaction is a list, that of a header is a string.
pub proof fn lemma_transaction_is_no_header(t: TransactionView, h: HeaderView)
    requires
        t.wf(),
        t.rlp_fits(),
        h.wf(),
    ensures
        t.rlp_payload() != h.rlp_payload(),
{
    lemma_pow256_values();
    t.lemma_recipient_fits();
    if t.rlp_payload() == h.rlp_payload() {
        let t4 = scalar_item(t.value) + (scalar_item(t.v as nat) + (scalar_item(t.r) + (scalar_item(
            t.s,
        ) + (opt_str_item(t.init) + opt_str_item(t.data)))));
        let t3 = opt_str_item(t.to) + t4;
        let t2 = scalar_item(t.gas_limit) + t3;
        let t1 = scalar_item(t.gas_price) + t2;
        let h4 = str_item(h.transactions_root) + (str_item(h.receipts_root) + (str_item(
            h.logs_bloom,
        ) + (scalar_item(h.difficulty) + (scalar_item(h.number) + (scalar_item(h.gas_limit) + (
        scalar_item(h.gas_used) + (scalar_item(h.timestamp) + (str_item(h.extra_data) + (str_item(
            h.mix_hash,
        ) + scalar_item(h.nonce))))))))));
        let h3 = str_item(h.state_root) + h4;
        let h2 = str_item(h.beneficiary) + h3;
        let h1 = str_item(h.ommers_hash) + h2;
        assert(t.rlp_payload() == scalar_item(t.nonce) + t1);
        assert(h.rlp_payload() == str_item(h.parent_hash) + h1);
        lemma_scalar_item_len(t.nonce);
        lemma_scalar_item_len(t.gas_price);
        lemma_scalar_item_len(t.gas_limit);
        crate::codec::lemma_be_bytes_len(t.nonce, 32);
        crate::codec::lemma_be_bytes_len(t.gas_price, 32);
        crate::codec::lemma_be_bytes_len(t.gas_limit, 32);
        lemma_str_item_injective(crate::codec::be_bytes(t.nonce), t1, h.parent_hash, h1);
        lemma_str_item_injective(crate::codec::be_bytes(t.gas_price), t2, h.ommers_hash, h2);
        lemma_str_item_injective(crate::codec::be_bytes(t.gas_limit), t3, h.beneficiary, h3);
        let inner = match t.to {
            Some(d) => str_item(d),
            None => Seq::empty(),
        };
        lemma_str_is_no_list(h.state_root, inner);
        assert(t3[0] == opt_str_item(t.to)[0]);
        assert(h3[0] == str_item(h.state_root)[0]);
    }
}

/// Each payload framed as a list.
pub open spec fn framed(payloads: Seq<Seq<u8>>) -> Seq<Seq<u8>> {
    Seq::new(payloads.len(), |i: int| list_item(payloads[i]))
}

/// Lists that are written one after the other can be told apart again: two
/// sequences of list payloads whose framed concatenations are the same bytes
/// are the same sequence.
pub proof fn lemma_framed_concat_injective(a: Seq<Seq<u8>>, b: Seq<Seq<u8>>)
    requires
        forall|i: int| 0 <= i < a.len() ==> (#[trigger] a[i]).len() <= MAX_PAYLOAD,
        forall|i: int| 0 <= i < b.len() ==> (#[trigger] b[i]).len() <= MAX_PAYLOAD,
        concat(framed(a)) == concat(framed(b)),
    ensures
        a == b,
    decreases a.len(),
{
    lemma_pow256_values();
    if a.len() == 0 {
        if b.len() > 0 {
            lemma_list_item_len(b[0]);
            assert(framed(b).first() == list_item(b[0]));
        }
        assert(a =~= b);
    } else if b.len() == 0 {
        lemma_list_item_len(a[0]);
        assert(framed(a).first() == list_item(a[0]));
    } else {
        assert(framed(a).first() == list_item(a[0]));
        assert(framed(b).first() == list_item(b[0]));
        assert(framed(a).drop_first() =~= framed(a.drop_first()));
        assert(framed(b).drop_first() =~= framed(b.drop_first()));
        lemma_list_item_injective(
            a[0],
            concat(framed(a.drop_first())),
            b[0],
            concat(framed(b.drop_first())),
        );
        assert forall|i: int| 0 <= i < a.drop_first().len() implies (#[trigger] a.drop_first()[i]).len()
            <= MAX_PAYLOAD by {
            assert(a.drop_first()[i] == a[i + 1]);
        }
        assert forall|i: int| 0 <= i < b.drop_first().len() implies (#[trigger] b.drop_first()[i]).len()
            <= MAX_PAYLOAD by {
            assert(b.drop_first()[i] == b[i + 1]);
        }
        lemma_framed_concat_injective(a.drop_first(), b.drop_first());
        assert(a =~= seq![a[0]] + a.drop_first());
        assert(b =~= seq![b[0]] + b.drop_first());
    }
}

/// The concatenation of two sequences of byte strings is the concatenation
/// of the first followed by that of the second.
pub proof fn lemma_concat_add(a: Seq<Seq<u8>>, b: Seq<Seq<u8>>)
    ensures
        concat(a + b) == concat(a) + concat(b),
    decreases a.len(),
{
    if a.len() == 0 {
        assert(a + b =~= b);
        assert(concat(a) + concat(b) =~= concat(b));
    } else {
        assert((a + b).first() == a.first());
        assert((a + b).drop_first() =~= a.drop_first() + b);
        lemma_concat_add(a.drop_first(), b);
        assert(concat(a + b) =~= concat(a) + concat(b));
    }
}

/// The encoded fields of each transaction, in order.
pub open spec fn transaction_payloads(txs: Seq<TransactionView>) -> Seq<Seq<u8>> {
    Seq::new(txs.len(), |i: int| txs[i].rlp_payload())
}

/// The encoded fields of each header, in order.
pub open spec fn header_payloads(headers: Seq<HeaderView>) -> Seq<Seq<u8>> {
    Seq::new(headers.len(), |i: int| headers[i].rlp_payload())
}

/// Blocks with the same encoding are the same block.
pub proof fn lemma_block_rlp_injective(a: BlockView, b: BlockView)
    requires
        a.wf(),
        b.wf(),
        a.rlp_fits(),
        b.rlp_fits(),
        a.rlp() == b.rlp(),
    ensures
        a == b,
{
    lemma_pow256_values();
    assert(a.rlp() + Seq::<u8>::empty() =~= a.rlp());
    assert(b.rlp() + Seq::<u8>::empty() =~= b.rlp());
    lemma_list_item_injective(a.rlp_payload(), Seq::empty(), b.rlp_payload(), Seq::empty());
    let items_a = concat(transaction_items(a.transactions)) + concat(header_items(a.ommers));
    let items_b = concat(transaction_items(b.transactions)) + concat(header_items(b.ommers));
    lemma_header_payload_len(a.header);
    lemma_header_payload_len(b.header);
    lemma_list_item_injective(a.header.rlp_payload(), items_a, b.header.rlp_payload(), items_b);
    lemma_header_payload_injective(a.header, b.header);
    let pa = transaction_payloads(a.transactions) + header_payloads(a.ommers);
    let pb = transaction_payloads(b.transactions) + header_payloads(b.ommers);
    assert(framed(pa) =~= transaction_items(a.transactions) + header_items(a.ommers));
    assert(framed(pb) =~= transaction_items(b.transactions) + header_items(b.ommers));
    lemma_concat_add(transaction_items(a.transactions), header_items(a.ommers));
    lemma_concat_add(transaction_items(b.transactions), header_items(b.ommers));
    assert forall|i: int| 0 <= i < pa.len() implies (#[trigger] pa[i]).len() <= MAX_PAYLOAD by {
        if i < a.transactions.len() {
            assert(a.transactions[i].rlp_fits());
        } else {
            lemma_header_payload_len(a.ommers[i - a.transactions.len()]);
        }
    }
    assert forall|i: int| 0 <= i < pb.len() implies (#[trigger] pb[i]).len() <= MAX_PAYLOAD by {
        if i < b.transactions.len() {
            assert(b.transactions[i].rlp_fits());
        } else {
            lemma_header_payload_len(b.ommers[i - b.transactions.len()]);
        }
    }
    lemma_framed_concat_injective(pa, pb);
    let na = a.transactions.len() as int;
    let nb = b.transactions.len() as int;
    if na < nb {
        assert(pa[na] == a.ommers[0].rlp_payload());
        assert(pb[na] == b.transactions[na].rlp_payload());
        lemma_transaction_is_no_header(b.transactions[na], a.ommers[0]);
    } else if nb < na {
        assert(pb[nb] == b.ommers[0].rlp_payload());
        assert(pa[nb] == a.transactions[nb].rlp_payload());
        lemma_transaction_is_no_header(a.transactions[nb], b.ommers[0]);
    }
    assert(na == nb);
    assert(a.ommers.len() == b.ommers.len());
    assert forall|i: int| 0 <= i < na implies a.transactions[i] == b.transactions[i] by {
        assert(pa[i] == a.transactions[i].rlp_payload());
        assert(pb[i] == b.transactions[i].rlp_payload());
        lemma_transaction_payload_injective(a.transactions[i], b.transactions[i]);
    }
    assert forall|i: int| 0 <= i < a.ommers.len() implies a.ommers[i] == b.ommers[i] by {
        assert(pa[na + i] == a.ommers[i].rlp_payload());
        assert(pb[na + i] == b.ommers[i].rlp_payload());
        lemma_header_payload_injective(a.ommers[i], b.ommers[i]);
    }
    assert(a.transactions =~= b.transactions);
    assert(a.ommers =~= b.ommers);
}

/// Whether the digest tells two byte strings apart: it gives them the same
/// value only if they are the same.
pub open spec fn digest_separates(x: Seq<u8>, y: Seq<u8>) -> bool {
    keccak256_digest(x) == keccak256_digest(y) ==> x == y
}

/// The hash of a header changes if and only if a field changes, as far as
/// the digest tells the two encodings apart.
pub proof fn lemma_header_hash_changes(a: HeaderView, b: HeaderView)
    requires
        a.wf(),
        b.wf(),
    ensures
        a.hash() != b.hash() ==> a != b,
        a != b ==> a.rlp() != b.rlp(),
        a != b && digest_separates(a.rlp(), b.rlp()) ==> a.hash() != b.hash(),
{
    if a.rlp() == b.rlp() {
        lemma_header_rlp_injective(a, b);
    }
}

/// The hash of a block changes if and only if a field of the header, a
/// transaction or an ommer header changes, as far as the digest tells the
/// two encodings apart.
pub proof fn lemma_block_hash_changes(a: BlockView, b: BlockView)
    requires
        a.wf(),
        b.wf(),
        a.rlp_fits(),
        b.rlp_fits(),
    ensures
        a.hash() != b.hash() ==> a != b,
        a != b ==> a.rlp() != b.rlp(),
        a != b && digest_separates(a.rlp(), b.rlp()) ==> a.hash() != b.hash(),
{
    if a.rlp() == b.rlp() {
        lemma_block_rlp_injective(a, b);
    }
}

} // verus!
