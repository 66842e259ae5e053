//! The records that the writer commits: for each kind of state the key and
//! the encoded value that go to the store together.

use crate::base16::hex_chars;
use crate::codec::{
    decimal_text, encode_code, encode_h256, encode_height, encode_location, encode_u256,
    h256_json_text, location_json_text, u256_json_text,
};
use crate::error::Error;
use crate::keys::{
    balance_key, balance_key_text, block_hash_key, block_hash_key_text, block_height_key,
    block_height_key_text, block_payload_key, block_payload_key_text, code_key, code_key_text,
    latest_height_key, latest_height_key_text, lemma_block_keys_differ,
    lemma_transaction_index_key_injective, nonce_key, nonce_key_text, receipt_key,
    receipt_key_text, state_key, state_key_text, status_key, status_key_text,
    transaction_index_key, transaction_index_key_text,
};
use crate::store::{
    all_set, lemma_all_set_found, lemma_all_set_versioned, Record, RecordText, StoreView,
    texts_of,
};
use crate::types::{Block, H160, H256, U256};
use vstd::prelude::*;

verus! {

/// The five records of a block itself: the hash under the block's number,
/// the number under the hash, and under the hash the payloads of the block,
/// of its receipts and of its transaction statuses.
pub open spec fn block_records(
    prefix: Seq<char>,
    block: Block,
    receipts: Seq<char>,
    statuses: Seq<char>,
) -> Seq<RecordText> {
    seq![
        RecordText {
            key: block_hash_key_text(prefix, block.number@),
            value: h256_json_text(block.hash@),
        },
        RecordText {
            key: block_height_key_text(prefix, block.hash@),
            value: u256_json_text(block.number@),
        },
        RecordText { key: block_payload_key_text(prefix, block.hash@), value: block.payload@ },
        RecordText { key: receipt_key_text(prefix, block.hash@), value: receipts },
        RecordText { key: status_key_text(prefix, block.hash@), value: statuses },
    ]
}

/// The location records of a block's transactions, in the order of the
/// transactions: under each one's hash the block's hash and the
/// transaction's position.
pub open spec fn location_records(prefix: Seq<char>, block: Block) -> Seq<RecordText> {
    Seq::new(
        block.transactions@.len(),
        |i: int|
            RecordText {
                key: transaction_index_key_text(prefix, block.transactions@[i]@),
                value: location_json_text(block.hash@, i as u32),
            },
    )
}

/// All records of a block, in the order in which they are written: the five
/// of the block itself, then the locations of its transactions.
pub open spec fn block_info_records_text(
    prefix: Seq<char>,
    block: Block,
    receipts: Seq<char>,
    statuses: Seq<char>,
) -> Seq<RecordText> {
    block_records(prefix, block, receipts, statuses) + location_records(prefix, block)
}

/// The record of the balance of `address`.
pub fn balance_record(prefix: &str, address: H160, balance: U256) -> (out: Result<Record, Error>)
    ensures
        out is Ok,
        out matches Ok(record) ==> record@ == (RecordText {
            key: balance_key_text(prefix@, address@),
            value: u256_json_text(balance@),
        }),
{
    let key = balance_key(prefix, address);
    match encode_u256(balance) {
        Ok(value) => Ok(Record { key, value }),
        Err(error) => Err(error),
    }
}

/// The record of the nonce of `address`.
pub fn nonce_record(prefix: &str, address: H160, nonce: U256) -> (out: Result<Record, Error>)
    ensures
        out is Ok,
        out matches Ok(record) ==> record@ == (RecordText {
            key: nonce_key_text(prefix@, address@),
            value: u256_json_text(nonce@),
        }),
{
    let key = nonce_key(prefix, address);
    match encode_u256(nonce) {
        Ok(value) => Ok(Record { key, value }),
        Err(error) => Err(error),
    }
}

/// The record of the contract code of `address`.
pub fn byte_code_record(prefix: &str, address: H160, code: &[u8]) -> (out: Record)
    ensures
        out@ == (RecordText { key: code_key_text(prefix@, address@), value: hex_chars(code@) }),
{
    Record { key: code_key(prefix, address), value: encode_code(code) }
}

/// The record of the storage slot `index` of `address`.
pub fn state_record(prefix: &str, address: H160, index: H256, value: H256) -> (out: Result<
    Record,
    Error,
>)
    ensures
        out is Ok,
        out matches Ok(record) ==> record@ == (RecordText {
            key: state_key_text(prefix@, address@, index@),
            value: h256_json_text(value@),
        }),
{
    let key = state_key(prefix, address, index);
    match encode_h256(value) {
        Ok(value) => Ok(Record { key, value }),
        Err(error) => Err(error),
    }
}

/// The record of the latest height that is processed in full.
pub fn height_record(prefix: &str, height: u32) -> (out: Record)
    ensures
        out@ == (RecordText {
            key: latest_height_key_text(prefix@),
            value: decimal_text(height as nat),
        }),
{
    Record { key: latest_height_key(prefix), value: encode_height(height) }
}

/// All records of a block, in the order in which they are written: the hash
/// under the block's number, the number under the hash, under the hash the
/// payloads of the block, of its receipts and of its transaction statuses,
/// and for each transaction, under its hash, the block's hash and the
/// transaction's position. `receipts` and `statuses` are the serialized
/// lists, in the order of the block's transactions.
pub fn block_info_records(prefix: &str, block: &Block, receipts: String, statuses: String) -> (out:
    Result<Vec<Record>, Error>)
    requires
        block.transactions@.len() <= u32::MAX,
    ensures
        out is Ok,
        out matches Ok(records) ==> texts_of(records@) == block_info_records_text(
            prefix@,
            *block,
            receipts@,
            statuses@,
        ),
{
    let block_hash = block.hash;
    let height = block.number;
    let mut records: Vec<Record> = Vec::new();

    let hash_text = match encode_h256(block_hash) {
        Ok(text) => text,
        Err(error) => {
            return Err(error);
        },
    };
    records.push(Record { key: block_hash_key(prefix, height), value: hash_text });

    let height_text = match encode_u256(height) {
        Ok(text) => text,
        Err(error) => {
            return Err(error);
        },
    };
    records.push(Record { key: block_height_key(prefix, block_hash), value: height_text });

    records.push(
        Record { key: block_payload_key(prefix, block_hash), value: block.payload.clone() },
    );
    records.push(Record { key: receipt_key(prefix, block_hash), value: receipts });
    records.push(Record { key: status_key(prefix, block_hash), value: statuses });
    assert(texts_of(records@) =~= block_records(prefix@, *block, receipts@, statuses@));

    let mut i: usize = 0;
    while i < block.transactions.len()
        invariant
            i <= block.transactions@.len() <= u32::MAX,
            block_hash == block.hash,
            texts_of(records@) == block_records(prefix@, *block, receipts@, statuses@)
                + location_records(prefix@, *block).subrange(0, i as int),
        decreases block.transactions@.len() - i,
    {
        let location = match encode_location(block_hash, i as u32) {
            Ok(text) => text,
            Err(error) => {
                return Err(error);
            },
        };
        let ghost before = texts_of(records@);
        records.push(
            Record { key: transaction_index_key(prefix, block.transactions[i]), value: location },
        );
        assert(texts_of(records@) =~= before.push(location_records(prefix@, *block)[i as int]));
        assert(location_records(prefix@, *block).subrange(0, i + 1) =~= location_records(
            prefix@,
            *block,
        ).subrange(0, i as int).push(location_records(prefix@, *block)[i as int]));
        i += 1;
    }
    assert(location_records(prefix@, *block).subrange(0, i as int) =~= location_records(
        prefix@,
        *block,
    ));
    Ok(records)
}

/// Whether no hash occurs twice among the transactions of `block`.
pub open spec fn distinct_transactions(block: Block) -> bool {
    forall|i: int, j: int|
        0 <= i < j < block.transactions@.len() ==> block.transactions@[i]@
            != block.transactions@[j]@
}

/// After the records of a block are set, each of them is found under its
/// key, where no hash occurs twice among the block's transactions: the hash
/// under the number, the number under the hash, the three payloads under
/// the hash, and under each transaction's hash the block's hash and the
/// transaction's position. No versioned record is changed.
pub proof fn lemma_block_info_found(
    store: StoreView,
    prefix: Seq<char>,
    block: Block,
    receipts: Seq<char>,
    statuses: Seq<char>,
)
    requires
        distinct_transactions(block),
    ensures
        ({
            let after = all_set(
                store,
                block_info_records_text(prefix, block, receipts, statuses),
            );
            &&& after.get(block_hash_key_text(prefix, block.number@)) == Some(
                h256_json_text(block.hash@),
            )
            &&& after.get(block_height_key_text(prefix, block.hash@)) == Some(
                u256_json_text(block.number@),
            )
            &&& after.get(block_payload_key_text(prefix, block.hash@)) == Some(block.payload@)
            &&& after.get(receipt_key_text(prefix, block.hash@)) == Some(receipts)
            &&& after.get(status_key_text(prefix, block.hash@)) == Some(statuses)
            &&& after.versioned == store.versioned
            &&& forall|i: int|
                0 <= i < block.transactions@.len() ==> after.get(
                    transaction_index_key_text(prefix, #[trigger] block.transactions@[i]@),
                ) == Some(location_json_text(block.hash@, i as u32))
        }),
{
    let records = block_info_records_text(prefix, block, receipts, statuses);
    let count = block.transactions@.len() as int;
    lemma_all_set_versioned(store, records);
    lemma_block_keys_differ(prefix, block.number@, block.hash@, block.hash@);
    assert forall|i: int| 0 <= i < count implies #[trigger] records[5 + i].key
        == transaction_index_key_text(prefix, block.transactions@[i]@) && records[5 + i].value
        == location_json_text(block.hash@, i as u32) by {
        assert(records[5 + i] == location_records(prefix, block)[i]);
    }
    assert forall|at: int, i: int|
        0 <= at < 5 && at < i < records.len() implies (#[trigger] records[i]).key
            != (#[trigger] records[at]).key by {
        if i >= 5 {
            assert(records[5 + (i - 5)].key == transaction_index_key_text(
                prefix,
                block.transactions@[i - 5]@,
            ));
            lemma_block_keys_differ(
                prefix,
                block.number@,
                block.hash@,
                block.transactions@[i - 5]@,
            );
        }
    }
    lemma_all_set_found(store, records, 0);
    lemma_all_set_found(store, records, 1);
    lemma_all_set_found(store, records, 2);
    lemma_all_set_found(store, records, 3);
    lemma_all_set_found(store, records, 4);
    assert forall|k: int| 0 <= k < count implies all_set(store, records).get(
        transaction_index_key_text(prefix, #[trigger] block.transactions@[k]@),
    ) == Some(location_json_text(block.hash@, k as u32)) by {
        assert(records[5 + k].key == transaction_index_key_text(prefix, block.transactions@[k]@));
        let own = records[5 + k].key;
        assert forall|i: int| 5 + k < i < records.len() implies (#[trigger] records[i]).key
            != own by {
            assert(records[5 + (i - 5)].key == transaction_index_key_text(
                prefix,
                block.transactions@[i - 5]@,
            ));
            lemma_transaction_index_key_injective(
                prefix,
                block.transactions@[k]@,
                block.transactions@[i - 5]@,
            );
        }
        lemma_all_set_found(store, records, 5 + k);
    }
}

} // verus!
