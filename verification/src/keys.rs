//! The key schema: the key string of each record, derived from the chain
//! prefix, the record's category and the identifiers it belongs to.

use crate::base16::{encode, hex_chars, hex_digits, lemma_hex_chars_injective, zero_digits};
use crate::types::{H160, H256, U256};
use vstd::prelude::*;
use vstd::string::StringExecFns;

verus! {

/// The key text of the balance of `addr`.
pub open spec fn balance_key_text(prefix: Seq<char>, addr: Seq<u8>) -> Seq<char> {
    prefix + ":balance:addr."@ + hex_chars(addr)
}

/// The key text of the contract code of `addr`.
pub open spec fn code_key_text(prefix: Seq<char>, addr: Seq<u8>) -> Seq<char> {
    prefix + ":code:addr."@ + hex_chars(addr)
}

/// The key text of the nonce of `addr`.
pub open spec fn nonce_key_text(prefix: Seq<char>, addr: Seq<u8>) -> Seq<char> {
    prefix + ":nonce:addr."@ + hex_chars(addr)
}

/// The text of a 256-bit number as a key part: `0x`, then its base-16 digits
/// with zeros before them up to 64 characters in all.
pub open spec fn hex_u256_text(value: nat) -> Seq<char> {
    "0x"@ + zero_digits(62 - hex_digits(value).len()) + hex_digits(value)
}

/// The key text of the storage slot `index` of `addr`.
pub open spec fn state_key_text(prefix: Seq<char>, addr: Seq<u8>, index: Seq<u8>) -> Seq<char> {
    prefix + ":state:addr."@ + hex_chars(addr) + ":index:u256."@ + hex_chars(index)
}

/// The key text of the latest processed height.
pub open spec fn latest_height_key_text(prefix: Seq<char>) -> Seq<char> {
    prefix + ":height"@
}

/// The key text of the transaction `tx_hash`.
pub open spec fn tx_key_text(prefix: Seq<char>, tx_hash: Seq<u8>) -> Seq<char> {
    prefix + ":tx:hash."@ + hex_chars(tx_hash)
}

/// The key text under which block records stand.
pub open spec fn block_key_text(prefix: Seq<char>) -> Seq<char> {
    prefix + ":block"@
}

/// The key text of the hash of the block at `height`.
pub open spec fn block_hash_key_text(prefix: Seq<char>, height: nat) -> Seq<char> {
    prefix + ":block_hash:height."@ + hex_u256_text(height)
}

/// The key text of the height of the block `block_hash`.
pub open spec fn block_height_key_text(prefix: Seq<char>, block_hash: Seq<u8>) -> Seq<char> {
    prefix + ":block_height:hash."@ + hex_chars(block_hash)
}

/// The key text of the payload of the block `block_hash`.
pub open spec fn block_payload_key_text(prefix: Seq<char>, block_hash: Seq<u8>) -> Seq<char> {
    block_key_text(prefix) + ":hash."@ + hex_chars(block_hash)
}

/// The key text of the receipts of the block `block_hash`.
pub open spec fn receipt_key_text(prefix: Seq<char>, block_hash: Seq<u8>) -> Seq<char> {
    prefix + ":receipt:hash."@ + hex_chars(block_hash)
}

/// The key text of the transaction statuses of the block `block_hash`.
pub open spec fn status_key_text(prefix: Seq<char>, block_hash: Seq<u8>) -> Seq<char> {
    prefix + ":status:hash."@ + hex_chars(block_hash)
}

/// The key text of the location of the transaction `tx_hash`.
pub open spec fn transaction_index_key_text(prefix: Seq<char>, tx_hash: Seq<u8>) -> Seq<char> {
    prefix + ":transaction_index:hash."@ + hex_chars(tx_hash)
}

/// `prefix`, then `label`, then the base-16 text of `id`.
fn labelled(prefix: &str, label: &str, id: &[u8]) -> (out: String)
    ensures
        out@ == prefix@ + label@ + hex_chars(id@),
{
    let mut out = String::from_str(prefix);
    out.append(label);
    let text = encode(id);
    out.append(text.as_str());
    out
}

/// The key of the balance of `addr`.
pub fn balance_key(prefix: &str, addr: H160) -> (out: String)
    ensures
        out@ == balance_key_text(prefix@, addr@),
{
    labelled(prefix, ":balance:addr.", &addr.0)
}

/// The key of the contract code of `addr`.
pub fn code_key(prefix: &str, addr: H160) -> (out: String)
    ensures
        out@ == code_key_text(prefix@, addr@),
{
    labelled(prefix, ":code:addr.", &addr.0)
}

/// The key of the nonce of `addr`.
pub fn nonce_key(prefix: &str, addr: H160) -> (out: String)
    ensures
        out@ == nonce_key_text(prefix@, addr@),
{
    labelled(prefix, ":nonce:addr.", &addr.0)
}

/// The `{:#064x}` format of `primitive_types::U256`: `0x`, then the lowercase
/// base-16 digits of the number without leading zeros, with zeros put
/// between the two until the whole is 64 characters long. A number of more
/// than 62 digits gets no padding.
#[verifier::external_body]
fn format_u256(value: &[u64; 4]) -> (out: String)
    ensures
        out@ == hex_u256_text(U256(*value)@),
{
    format!("{:#064x}", primitive_types::U256(*value))
}

/// The text of `u256` as a key part: `0x`, then base-16 digits, zero-padded
/// to 64 characters in all.
pub fn hex_u256(u256: U256) -> (out: String)
    ensures
        out@ == hex_u256_text(u256@),
{
    format_u256(&u256.0)
}

/// The key of the storage slot `index` of `addr`.
pub fn state_key(prefix: &str, addr: H160, index: H256) -> (out: String)
    ensures
        out@ == state_key_text(prefix@, addr@, index@),
{
    let mut out = labelled(prefix, ":state:addr.", &addr.0);
    out.append(":index:u256.");
    let text = encode(&index.0);
    out.append(text.as_str());
    out
}

/// The key of the latest processed height.
pub fn latest_height_key(prefix: &str) -> (out: String)
    ensures
        out@ == latest_height_key_text(prefix@),
{
    let mut out = String::from_str(prefix);
    out.append(":height");
    out
}

/// The key of the transaction `tx_hash`.
pub fn tx_key(prefix: &str, tx_hash: H256) -> (out: String)
    ensures
        out@ == tx_key_text(prefix@, tx_hash@),
{
    labelled(prefix, ":tx:hash.", &tx_hash.0)
}

/// The key under which block records stand.
pub fn block_key(prefix: &str) -> (out: String)
    ensures
        out@ == block_key_text(prefix@),
{
    let mut out = String::from_str(prefix);
    out.append(":block");
    out
}

/// The key of the hash of the block at `height`.
pub fn block_hash_key(prefix: &str, height: U256) -> (out: String)
    ensures
        out@ == block_hash_key_text(prefix@, height@),
{
    let mut out = String::from_str(prefix);
    out.append(":block_hash:height.");
    let text = hex_u256(height);
    out.append(text.as_str());
    out
}

/// The key of the height of the block `block_hash`.
pub fn block_height_key(prefix: &str, block_hash: H256) -> (out: String)
    ensures
        out@ == block_height_key_text(prefix@, block_hash@),
{
    labelled(prefix, ":block_height:hash.", &block_hash.0)
}

/// The key of the payload of the block `block_hash`.
pub fn block_payload_key(prefix: &str, block_hash: H256) -> (out: String)
    ensures
        out@ == block_payload_key_text(prefix@, block_hash@),
{
    let stem = block_key(prefix);
    labelled(stem.as_str(), ":hash.", &block_hash.0)
}

/// The key of the receipts of the block `block_hash`.
pub fn receipt_key(prefix: &str, block_hash: H256) -> (out: String)
    ensures
        out@ == receipt_key_text(prefix@, block_hash@),
{
    labelled(prefix, ":receipt:hash.", &block_hash.0)
}

/// The key of the transaction statuses of the block `block_hash`.
pub fn status_key(prefix: &str, block_hash: H256) -> (out: String)
    ensures
        out@ == status_key_text(prefix@, block_hash@),
{
    labelled(prefix, ":status:hash.", &block_hash.0)
}

/// The key of the location of the transaction `tx_hash`.
pub fn transaction_index_key(prefix: &str, tx_hash: H256) -> (out: String)
    ensures
        out@ == transaction_index_key_text(prefix@, tx_hash@),
{
    labelled(prefix, ":transaction_index:hash.", &tx_hash.0)
}

/// Under one prefix the balance key, the code key and the nonce key of any
/// addresses are three different keys.
pub proof fn lemma_account_keys_differ(
    prefix: Seq<char>,
    balance_of: Seq<u8>,
    code_of: Seq<u8>,
    nonce_of: Seq<u8>,
)
    ensures
        balance_key_text(prefix, balance_of) != code_key_text(prefix, code_of),
        code_key_text(prefix, code_of) != nonce_key_text(prefix, nonce_of),
        balance_key_text(prefix, balance_of) != nonce_key_text(prefix, nonce_of),
{
    reveal_strlit(":balance:addr.");
    reveal_strlit(":code:addr.");
    reveal_strlit(":nonce:addr.");
    let at = prefix.len() as int + 1;
    assert(balance_key_text(prefix, balance_of)[at] == 'b');
    assert(code_key_text(prefix, code_of)[at] == 'c');
    assert(nonce_key_text(prefix, nonce_of)[at] == 'n');
}

/// Under one prefix the storage key of any slot differs from the balance
/// key, the code key and the nonce key of any address.
pub proof fn lemma_state_key_differs(
    prefix: Seq<char>,
    addr: Seq<u8>,
    index: Seq<u8>,
    other: Seq<u8>,
)
    ensures
        state_key_text(prefix, addr, index) != balance_key_text(prefix, other),
        state_key_text(prefix, addr, index) != code_key_text(prefix, other),
        state_key_text(prefix, addr, index) != nonce_key_text(prefix, other),
{
    reveal_strlit(":balance:addr.");
    reveal_strlit(":code:addr.");
    reveal_strlit(":nonce:addr.");
    reveal_strlit(":state:addr.");
    let at = prefix.len() as int + 1;
    assert(state_key_text(prefix, addr, index)[at] == 's');
    assert(balance_key_text(prefix, other)[at] == 'b');
    assert(code_key_text(prefix, other)[at] == 'c');
    assert(nonce_key_text(prefix, other)[at] == 'n');
}

/// Under one prefix the six keys of the block index are six different
/// keys, whatever the number and the hashes: the hash of a number, the
/// number of a hash, a block's payload, its receipts, its statuses and a
/// transaction's location.
pub proof fn lemma_block_keys_differ(
    prefix: Seq<char>,
    number: nat,
    block_hash: Seq<u8>,
    tx_hash: Seq<u8>,
)
    ensures
        block_hash_key_text(prefix, number) != block_height_key_text(prefix, block_hash),
        block_hash_key_text(prefix, number) != block_payload_key_text(prefix, block_hash),
        block_hash_key_text(prefix, number) != receipt_key_text(prefix, block_hash),
        block_hash_key_text(prefix, number) != status_key_text(prefix, block_hash),
        block_hash_key_text(prefix, number) != transaction_index_key_text(prefix, tx_hash),
        block_height_key_text(prefix, block_hash) != block_payload_key_text(prefix, block_hash),
        block_height_key_text(prefix, block_hash) != receipt_key_text(prefix, block_hash),
        block_height_key_text(prefix, block_hash) != status_key_text(prefix, block_hash),
        block_height_key_text(prefix, block_hash) != transaction_index_key_text(prefix, tx_hash),
        block_payload_key_text(prefix, block_hash) != receipt_key_text(prefix, block_hash),
        block_payload_key_text(prefix, block_hash) != status_key_text(prefix, block_hash),
        block_payload_key_text(prefix, block_hash) != transaction_index_key_text(prefix, tx_hash),
        receipt_key_text(prefix, block_hash) != status_key_text(prefix, block_hash),
        receipt_key_text(prefix, block_hash) != transaction_index_key_text(prefix, tx_hash),
        status_key_text(prefix, block_hash) != transaction_index_key_text(prefix, tx_hash),
{
    reveal_strlit(":block_hash:height.");
    reveal_strlit(":block_height:hash.");
    reveal_strlit(":block");
    reveal_strlit(":hash.");
    reveal_strlit(":receipt:hash.");
    reveal_strlit(":status:hash.");
    reveal_strlit(":transaction_index:hash.");
    let first = prefix.len() as int + 1;
    let sixth = prefix.len() as int + 6;
    let eighth = prefix.len() as int + 8;
    let by_number = block_hash_key_text(prefix, number);
    let by_hash = block_height_key_text(prefix, block_hash);
    let payload = block_payload_key_text(prefix, block_hash);
    assert(by_number[first] == 'b' && by_number[sixth] == '_' && by_number[eighth] == 'a');
    assert(by_hash[first] == 'b' && by_hash[sixth] == '_' && by_hash[eighth] == 'e');
    assert(payload[first] == 'b' && payload[sixth] == ':');
    assert(receipt_key_text(prefix, block_hash)[first] == 'r');
    assert(status_key_text(prefix, block_hash)[first] == 's');
    assert(transaction_index_key_text(prefix, tx_hash)[first] == 't');
}

/// Two texts that begin alike and are equal end alike.
proof fn lemma_same_head(head: Seq<char>, a: Seq<char>, b: Seq<char>)
    requires
        head + a == head + b,
    ensures
        a == b,
{
    assert((head + a).subrange(head.len() as int, (head + a).len() as int) =~= a);
    assert((head + b).subrange(head.len() as int, (head + b).len() as int) =~= b);
}

/// Under one prefix, different addresses have different balance keys,
/// different code keys and different nonce keys.
pub proof fn lemma_account_keys_injective(prefix: Seq<char>, a: Seq<u8>, b: Seq<u8>)
    requires
        a != b,
    ensures
        balance_key_text(prefix, a) != balance_key_text(prefix, b),
        code_key_text(prefix, a) != code_key_text(prefix, b),
        nonce_key_text(prefix, a) != nonce_key_text(prefix, b),
{
    if hex_chars(a) == hex_chars(b) {
        lemma_hex_chars_injective(a, b);
    }
    if balance_key_text(prefix, a) == balance_key_text(prefix, b) {
        lemma_same_head(prefix + ":balance:addr."@, hex_chars(a), hex_chars(b));
    }
    if code_key_text(prefix, a) == code_key_text(prefix, b) {
        lemma_same_head(prefix + ":code:addr."@, hex_chars(a), hex_chars(b));
    }
    if nonce_key_text(prefix, a) == nonce_key_text(prefix, b) {
        lemma_same_head(prefix + ":nonce:addr."@, hex_chars(a), hex_chars(b));
    }
}

/// Under one prefix, different hashes have different location keys.
pub proof fn lemma_transaction_index_key_injective(prefix: Seq<char>, a: Seq<u8>, b: Seq<u8>)
    requires
        a != b,
    ensures
        transaction_index_key_text(prefix, a) != transaction_index_key_text(prefix, b),
{
    if hex_chars(a) == hex_chars(b) {
        lemma_hex_chars_injective(a, b);
    }
    if transaction_index_key_text(prefix, a) == transaction_index_key_text(prefix, b) {
        lemma_same_head(prefix + ":transaction_index:hash."@, hex_chars(a), hex_chars(b));
    }
}

} // verus!
