//! The writer: it commits the records of each kind of state to the store,
//! and publishes a height once the height's records are in.

use crate::base16::hex_chars;
use crate::codec::{decimal_text, h256_json_text, u256_json_text};
use crate::error::Error;
use crate::keys::{
    balance_key_text, code_key_text, latest_height_key_text, nonce_key_text, state_key_text,
};
use crate::records::{
    balance_record, block_info_records, block_info_records_text, byte_code_record,
    height_record, nonce_record, state_record,
};
use crate::store::{all_set, Store, StoreView};
use crate::types::{Block, H160, H256, U256};
use vstd::prelude::*;

verus! {

/// The writer of one chain's records.
pub struct Setter {
    conn: Store,
    pub prefix: String,
}

impl View for Setter {
    type V = StoreView;

    closed spec fn view(&self) -> StoreView {
        self.conn@
    }
}

impl Setter {
    /// The text that the writer's keys begin with.
    pub closed spec fn prefix_text(&self) -> Seq<char> {
        self.prefix@
    }

    /// A writer into `conn` whose keys begin with `prefix`.
    pub fn new(conn: Store, prefix: String) -> (out: Setter)
        ensures
            out@ == conn@,
            out.prefix_text() == prefix@,
    {
        Setter { conn, prefix }
    }

    /// The store that the writer writes into.
    pub fn conn(&self) -> (out: &Store)
        ensures
            out@ == self@,
    {
        &self.conn
    }

    /// Empties the store: every record of every height is gone. This is for
    /// a resync from the first block, not for the processing of blocks.
    pub fn clear(&mut self) -> (out: Result<(), Error>)
        ensures
            out is Ok,
            final(self)@ == StoreView::empty(),
            final(self).prefix_text() == old(self).prefix_text(),
    {
        self.conn.clear();
        Ok(())
    }

    /// Publishes `height` as the latest height that is processed in full.
    /// The writes of a height come first, this call last.
    pub fn set_height(&mut self, height: u32) -> (out: Result<(), Error>)
        ensures
            out is Ok,
            final(self)@ == old(self)@.set(
                latest_height_key_text(old(self).prefix_text()),
                decimal_text(height as nat),
            ),
            final(self).prefix_text() == old(self).prefix_text(),
    {
        let record = height_record(self.prefix.as_str(), height);
        self.conn.set(record.key, record.value);
        Ok(())
    }

    /// Records the balance of `address` as of `height`.
    pub fn set_balance(&mut self, height: u32, address: H160, balance: U256) -> (out: Result<
        (),
        Error,
    >)
        ensures
            out is Ok,
            final(self)@ == old(self)@.put(
                balance_key_text(old(self).prefix_text(), address@),
                height,
                u256_json_text(balance@),
            ),
            final(self).prefix_text() == old(self).prefix_text(),
    {
        match balance_record(self.prefix.as_str(), address, balance) {
            Ok(record) => {
                self.conn.put(record.key, height, record.value);
                Ok(())
            },
            Err(error) => Err(error),
        }
    }

    /// Records the nonce of `address` as of `height`.
    pub fn set_nonce(&mut self, height: u32, address: H160, nonce: U256) -> (out: Result<
        (),
        Error,
    >)
        ensures
            out is Ok,
            final(self)@ == old(self)@.put(
                nonce_key_text(old(self).prefix_text(), address@),
                height,
                u256_json_text(nonce@),
            ),
            final(self).prefix_text() == old(self).prefix_text(),
    {
        match nonce_record(self.prefix.as_str(), address, nonce) {
            Ok(record) => {
                self.conn.put(record.key, height, record.value);
                Ok(())
            },
            Err(error) => Err(error),
        }
    }

    /// Records the contract code of `address` as of `height`.
    pub fn set_byte_code(&mut self, height: u32, address: H160, code: Vec<u8>) -> (out: Result<
        (),
        Error,
    >)
        ensures
            out is Ok,
            final(self)@ == old(self)@.put(
                code_key_text(old(self).prefix_text(), address@),
                height,
                hex_chars(code@),
            ),
            final(self).prefix_text() == old(self).prefix_text(),
    {
        let record = byte_code_record(self.prefix.as_str(), address, code.as_slice());
        self.conn.put(record.key, height, record.value);
        Ok(())
    }

    /// Records the value of the storage slot `index` of `address` as of
    /// `height`.
    pub fn set_state(&mut self, height: u32, address: H160, index: H256, value: H256) -> (out:
        Result<(), Error>)
        ensures
            out is Ok,
            final(self)@ == old(self)@.put(
                state_key_text(old(self).prefix_text(), address@, index@),
                height,
                h256_json_text(value@),
            ),
            final(self).prefix_text() == old(self).prefix_text(),
    {
        match state_record(self.prefix.as_str(), address, index, value) {
            Ok(record) => {
                self.conn.put(record.key, height, record.value);
                Ok(())
            },
            Err(error) => Err(error),
        }
    }

    /// Indexes a block: the hash under its number, the number under its
    /// hash, under the hash the payloads of the block, of its receipts and
    /// of its transaction statuses, and for each transaction the block's
    /// hash and the transaction's position. `receipts` and `statuses` are the
    /// serialized lists, in the order of the block's transactions.
    pub fn set_block_info(&mut self, block: Block, receipts: String, statuses: String) -> (out:
        Result<(), Error>)
        requires
            block.transactions@.len() <= u32::MAX,
        ensures
            out is Ok,
            final(self)@ == all_set(
                old(self)@,
                block_info_records_text(old(self).prefix_text(), block, receipts@, statuses@),
            ),
            final(self).prefix_text() == old(self).prefix_text(),
    {
        match block_info_records(self.prefix.as_str(), &block, receipts, statuses) {
            Ok(records) => {
                self.conn.set_all(records);
                Ok(())
            },
            Err(error) => Err(error),
        }
    }
}

} // verus!
