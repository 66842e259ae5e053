//! The reader: it derives the key of each record as the writer does, reads
//! the store as of a height and decodes what it finds.

use crate::base16::{hex_bytes, hex_chars, is_hex_text};
use crate::codec::{
    decimal_digits_of, decimal_text, decimal_value, decode_code, decode_h256, decode_height,
    decode_location, decode_u256, h256_json_text, h256_json_value, is_height_text,
    location_json_text, location_json_value, u256_json_text, u256_json_value,
};
use crate::error::Error;
use crate::keys::{
    balance_key, balance_key_text, block_hash_key, block_hash_key_text, block_payload_key,
    block_payload_key_text, code_key, code_key_text, latest_height_key, latest_height_key_text,
    nonce_key, nonce_key_text, state_key, state_key_text, transaction_index_key,
    transaction_index_key_text,
};
use crate::store::{Store, StoreView};
use crate::types::{H160, H256, U256};
use vstd::prelude::*;

verus! {

/// What a read of a 256-bit number returns for the stored text `found`:
/// nothing for no text, the number of text that stands for one, an
/// `Error::SerdeJsonError` for any other text.
pub open spec fn read_u256(found: Option<Seq<char>>, out: Result<Option<U256>, Error>) -> bool {
    match found {
        None => out == Ok::<Option<U256>, Error>(None),
        Some(text) => match u256_json_value(text) {
            Some(n) => out matches Ok(Some(value)) && value@ == n,
            None => out matches Err(error) && error is SerdeJsonError,
        },
    }
}

/// What a read of 32 bytes returns for the stored text `found`: nothing for
/// no text, the bytes of text that stands for 32 bytes, an
/// `Error::SerdeJsonError` for any other text.
pub open spec fn read_h256(found: Option<Seq<char>>, out: Result<Option<H256>, Error>) -> bool {
    match found {
        None => out == Ok::<Option<H256>, Error>(None),
        Some(text) => match h256_json_value(text) {
            Some(bytes) => out matches Ok(Some(value)) && value@ == bytes,
            None => out matches Err(error) && error is SerdeJsonError,
        },
    }
}

/// The reader of one chain's records.
pub struct Getter<'a> {
    conn: &'a Store,
    pub prefix: String,
}

impl<'a> View for Getter<'a> {
    type V = StoreView;

    closed spec fn view(&self) -> StoreView {
        self.conn@
    }
}

impl<'a> Getter<'a> {
    /// The text that the reader's keys begin with.
    pub closed spec fn prefix_text(&self) -> Seq<char> {
        self.prefix@
    }

    /// A reader of `conn` whose keys begin with `prefix`.
    pub fn new(conn: &'a Store, prefix: String) -> (out: Getter<'a>)
        ensures
            out@ == conn@,
            out.prefix_text() == prefix@,
    {
        Getter { conn, prefix }
    }

    /// The latest height that is processed in full, or `None` where none
    /// was published yet. Stored text that is no decimal number is an
    /// `Error::ParseIntError`.
    pub fn latest_height(&self) -> (out: Result<Option<u32>, Error>)
        ensures
            match self@.get(latest_height_key_text(self.prefix_text())) {
                None => out == Ok::<Option<u32>, Error>(None),
                Some(text) => if is_height_text(text) {
                    out == Ok::<Option<u32>, Error>(
                        Some(decimal_value(decimal_digits_of(text)) as u32),
                    )
                } else {
                    out matches Err(error) && error is ParseIntError
                },
            },
            forall|height: u32|
                self@.get(latest_height_key_text(self.prefix_text())) == Some(
                    #[trigger] decimal_text(height as nat),
                ) ==> out == Ok::<Option<u32>, Error>(Some(height)),
    {
        let height_key = latest_height_key(self.prefix.as_str());
        match self.conn.get(height_key.as_str()) {
            None => Ok(None),
            Some(text) => match decode_height(text) {
                Ok(height) => Ok(Some(height)),
                Err(error) => Err(error),
            },
        }
    }

    /// The balance of `address` as of `height`, or `None` where the account
    /// has no balance recorded by then.
    pub fn balance_at(&self, address: H160, height: u32) -> (out: Result<Option<U256>, Error>)
        ensures
            read_u256(self@.as_of(balance_key_text(self.prefix_text(), address@), height), out),
            forall|value: U256|
                self@.as_of(balance_key_text(self.prefix_text(), address@), height) == Some(
                    #[trigger] u256_json_text(value@),
                ) ==> out == Ok::<Option<U256>, Error>(Some(value)),
    {
        let key = balance_key(self.prefix.as_str(), address);
        match self.conn.get_as_of(key.as_str(), height) {
            None => Ok(None),
            Some(text) => match decode_u256(text) {
                Ok(value) => Ok(Some(value)),
                Err(error) => Err(error),
            },
        }
    }

    /// The nonce of `address` as of `height`, or `None` where the account
    /// has no nonce recorded by then.
    pub fn nonce_at(&self, address: H160, height: u32) -> (out: Result<Option<U256>, Error>)
        ensures
            read_u256(self@.as_of(nonce_key_text(self.prefix_text(), address@), height), out),
            forall|value: U256|
                self@.as_of(nonce_key_text(self.prefix_text(), address@), height) == Some(
                    #[trigger] u256_json_text(value@),
                ) ==> out == Ok::<Option<U256>, Error>(Some(value)),
    {
        let key = nonce_key(self.prefix.as_str(), address);
        match self.conn.get_as_of(key.as_str(), height) {
            None => Ok(None),
            Some(text) => match decode_u256(text) {
                Ok(value) => Ok(Some(value)),
                Err(error) => Err(error),
            },
        }
    }

    /// The contract code of `address` as of `height`, or `None` where the
    /// account has no code recorded by then. Stored text that is not an
    /// even number of base-16 digits is an `Error::FromHexError`.
    pub fn code_at(&self, address: H160, height: u32) -> (out: Result<Option<Vec<u8>>, Error>)
        ensures
            match self@.as_of(code_key_text(self.prefix_text(), address@), height) {
                None => out == Ok::<Option<Vec<u8>>, Error>(None),
                Some(text) => if is_hex_text(text) {
                    out matches Ok(Some(code)) && code@ == hex_bytes(text)
                } else {
                    out matches Err(error) && error is FromHexError
                },
            },
            forall|code: Seq<u8>|
                self@.as_of(code_key_text(self.prefix_text(), address@), height) == Some(
                    #[trigger] hex_chars(code),
                ) ==> (out matches Ok(Some(found)) && found@ == code),
    {
        let key = code_key(self.prefix.as_str(), address);
        match self.conn.get_as_of(key.as_str(), height) {
            None => Ok(None),
            Some(text) => match decode_code(text) {
                Ok(code) => Ok(Some(code)),
                Err(error) => Err(error),
            },
        }
    }

    /// The value of the storage slot `index` of `address` as of `height`, or
    /// `None` where the slot has no value recorded by then.
    pub fn storage_at(&self, address: H160, index: H256, height: u32) -> (out: Result<
        Option<H256>,
        Error,
    >)
        ensures
            read_h256(
                self@.as_of(state_key_text(self.prefix_text(), address@, index@), height),
                out,
            ),
            forall|value: H256|
                self@.as_of(state_key_text(self.prefix_text(), address@, index@), height) == Some(
                    #[trigger] h256_json_text(value@),
                ) ==> out == Ok::<Option<H256>, Error>(Some(value)),
    {
        let key = state_key(self.prefix.as_str(), address, index);
        match self.conn.get_as_of(key.as_str(), height) {
            None => Ok(None),
            Some(text) => match decode_h256(text) {
                Ok(value) => Ok(Some(value)),
                Err(error) => Err(error),
            },
        }
    }

    /// The payload of the block `block_hash`, or `None` where no such block
    /// is indexed.
    pub fn block_by_hash(&self, block_hash: H256) -> (out: Option<&str>)
        ensures
            out is Some <==> self@.get(block_payload_key_text(self.prefix_text(), block_hash@))
                is Some,
            out matches Some(payload) ==> self@.get(
                block_payload_key_text(self.prefix_text(), block_hash@),
            ) == Some(payload@),
    {
        let key = block_payload_key(self.prefix.as_str(), block_hash);
        self.conn.get(key.as_str())
    }

    /// The hash of the block at `height`, or `None` where no block is
    /// indexed at that height.
    pub fn block_hash_at(&self, height: U256) -> (out: Result<Option<H256>, Error>)
        ensures
            read_h256(self@.get(block_hash_key_text(self.prefix_text(), height@)), out),
            forall|value: H256|
                self@.get(block_hash_key_text(self.prefix_text(), height@)) == Some(
                    #[trigger] h256_json_text(value@),
                ) ==> out == Ok::<Option<H256>, Error>(Some(value)),
    {
        let key = block_hash_key(self.prefix.as_str(), height);
        match self.conn.get(key.as_str()) {
            None => Ok(None),
            Some(text) => match decode_h256(text) {
                Ok(value) => Ok(Some(value)),
                Err(error) => Err(error),
            },
        }
    }

    /// The payload of the block at `height`: the payload of the block whose
    /// hash stands under that height. `None` where no block is indexed at
    /// that height, or none under that hash.
    pub fn block_by_height(&self, height: U256) -> (out: Result<Option<&str>, Error>)
        ensures
            match self@.get(block_hash_key_text(self.prefix_text(), height@)) {
                None => out == Ok::<Option<&str>, Error>(None),
                Some(text) => match h256_json_value(text) {
                    Some(bytes) => match self@.get(
                        block_payload_key_text(self.prefix_text(), bytes),
                    ) {
                        Some(payload) => out matches Ok(Some(found)) && found@ == payload,
                        None => out == Ok::<Option<&str>, Error>(None),
                    },
                    None => out matches Err(error) && error is SerdeJsonError,
                },
            },
    {
        match self.block_hash_at(height) {
            Ok(Some(block_hash)) => Ok(self.block_by_hash(block_hash)),
            Ok(None) => Ok(None),
            Err(error) => Err(error),
        }
    }

    /// The location of the transaction `tx_hash`: the hash of its block and
    /// its position in the block. `None` where no such transaction is
    /// indexed.
    pub fn transaction_location(&self, tx_hash: H256) -> (out: Result<Option<(H256, u32)>, Error>)
        ensures
            match self@.get(transaction_index_key_text(self.prefix_text(), tx_hash@)) {
                None => out == Ok::<Option<(H256, u32)>, Error>(None),
                Some(text) => match location_json_value(text) {
                    Some(location) => out matches Ok(Some(found)) && found.0@ == location.0
                        && found.1 == location.1,
                    None => out matches Err(error) && error is SerdeJsonError,
                },
            },
            forall|block_hash: H256, position: u32|
                self@.get(transaction_index_key_text(self.prefix_text(), tx_hash@)) == Some(
                    #[trigger] location_json_text(block_hash@, position),
                ) ==> out == Ok::<Option<(H256, u32)>, Error>(Some((block_hash, position))),
    {
        let key = transaction_index_key(self.prefix.as_str(), tx_hash);
        match self.conn.get(key.as_str()) {
            None => Ok(None),
            Some(text) => match decode_location(text) {
                Ok(location) => Ok(Some(location)),
                Err(error) => Err(error),
            },
        }
    }
}

} // verus!
