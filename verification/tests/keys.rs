use evm_exporter::keys::{
    balance_key, block_hash_key, block_height_key, block_key, block_payload_key, code_key,
    hex_u256, latest_height_key, nonce_key, receipt_key, state_key, status_key,
    transaction_index_key, tx_key,
};
use evm_exporter::types::{H160, H256, U256, PREFIX};

fn address(last: u8) -> H160 {
    let mut bytes = [0u8; 20];
    bytes[0] = 0xde;
    bytes[1] = 0xad;
    bytes[19] = last;
    H160(bytes)
}

fn hash(last: u8) -> H256 {
    let mut bytes = [0u8; 32];
    bytes[0] = 0xab;
    bytes[31] = last;
    H256(bytes)
}

#[test]
fn default_prefix_is_evm() {
    assert_eq!(PREFIX, "evm");
}

#[test]
fn balance_key_is_prefix_category_and_forty_digits() {
    let key = balance_key("evm", address(0x0f));
    assert_eq!(key, "evm:balance:addr.dead00000000000000000000000000000000000f");
    assert_eq!(key.len(), "evm:balance:addr.".len() + 40);
}

#[test]
fn code_key_has_its_own_category() {
    assert_eq!(
        code_key("evm", address(1)),
        "evm:code:addr.dead000000000000000000000000000000000001"
    );
}

#[test]
fn nonce_key_has_its_own_category() {
    assert_eq!(
        nonce_key("evm", address(1)),
        "evm:nonce:addr.dead000000000000000000000000000000000001"
    );
}

#[test]
fn state_key_holds_address_and_index() {
    assert_eq!(
        state_key("evm", address(2), hash(3)),
        "evm:state:addr.dead000000000000000000000000000000000002:index:u256.ab00000000000000000000000000000000000000000000000000000000000003"
    );
}

#[test]
fn latest_height_key_is_prefix_and_height() {
    assert_eq!(latest_height_key("evm"), "evm:height");
    assert_eq!(latest_height_key(""), ":height");
}

#[test]
fn tx_key_holds_the_hash() {
    assert_eq!(
        tx_key("evm", hash(0xff)),
        "evm:tx:hash.ab000000000000000000000000000000000000000000000000000000000000ff"
    );
}

#[test]
fn block_key_is_prefix_and_block() {
    assert_eq!(block_key("evm"), "evm:block");
}

#[test]
fn block_index_keys_have_their_categories() {
    let h = hash(7);
    let digits = "ab00000000000000000000000000000000000000000000000000000000000007";
    assert_eq!(block_height_key("evm", h), format!("evm:block_height:hash.{}", digits));
    assert_eq!(block_payload_key("evm", h), format!("evm:block:hash.{}", digits));
    assert_eq!(receipt_key("evm", h), format!("evm:receipt:hash.{}", digits));
    assert_eq!(status_key("evm", h), format!("evm:status:hash.{}", digits));
    assert_eq!(
        transaction_index_key("evm", h),
        format!("evm:transaction_index:hash.{}", digits)
    );
    assert_eq!(
        block_hash_key("evm", U256::from_u64(255)),
        format!("evm:block_hash:height.0x{}ff", "0".repeat(60))
    );
}

#[test]
fn hex_u256_pads_to_sixty_four_characters() {
    let text = hex_u256(U256::from_u64(0x1234));
    assert_eq!(text.len(), 64);
    assert_eq!(text, format!("0x{}1234", "0".repeat(58)));
}

#[test]
fn hex_u256_of_zero_is_all_zeros() {
    assert_eq!(hex_u256(U256::zero()), format!("0x{}", "0".repeat(62)));
}

#[test]
fn hex_u256_of_the_largest_value_is_not_cut() {
    assert_eq!(hex_u256(U256::max_value()), format!("0x{}", "f".repeat(64)));
}

#[test]
fn hex_u256_reads_the_limbs_least_significant_first() {
    let value = U256([1, 2, 0, 0]);
    assert_eq!(hex_u256(value), format!("0x{}20000000000000001", "0".repeat(45)));
}

#[test]
fn account_keys_of_one_address_differ() {
    let a = address(9);
    let balance = balance_key("evm", a);
    let code = code_key("evm", a);
    let nonce = nonce_key("evm", a);
    assert_ne!(balance, code);
    assert_ne!(code, nonce);
    assert_ne!(balance, nonce);
}

#[test]
fn keys_of_different_addresses_differ() {
    assert_ne!(balance_key("evm", address(1)), balance_key("evm", address(2)));
    assert_ne!(code_key("evm", address(1)), code_key("evm", address(2)));
    assert_ne!(nonce_key("evm", address(1)), nonce_key("evm", address(2)));
}

#[test]
fn keys_are_the_same_on_every_call() {
    assert_eq!(balance_key("chain", address(5)), balance_key("chain", address(5)));
    assert_eq!(state_key("chain", address(5), hash(6)), state_key("chain", address(5), hash(6)));
}
