use evm_exporter::codec::encode_u256;
use evm_exporter::error::Error;
use evm_exporter::getter::Getter;
use evm_exporter::keys::{
    balance_key, block_hash_key, code_key, latest_height_key, nonce_key, state_key,
    transaction_index_key,
};
use evm_exporter::records::{
    balance_record, block_info_records, byte_code_record, height_record, nonce_record,
    state_record,
};
use evm_exporter::setter::Setter;
use evm_exporter::store::Store;
use evm_exporter::types::{Block, H160, H256, U256};

fn text(s: &str) -> String {
    String::from(s)
}

fn address(last: u8) -> H160 {
    let mut bytes = [0u8; 20];
    bytes[19] = last;
    H160(bytes)
}

fn hash(first: u8, last: u8) -> H256 {
    let mut bytes = [0u8; 32];
    bytes[0] = first;
    bytes[31] = last;
    H256(bytes)
}

fn writer() -> Setter {
    Setter::new(Store::new(), text("evm"))
}

fn two_transaction_block() -> Block {
    Block {
        hash: hash(0xb1, 0),
        number: U256::from_u64(100),
        transactions: vec![hash(0x70, 0), hash(0x70, 1)],
        payload: text("{\"block\":100}"),
    }
}

#[test]
fn new_writer_keeps_store_and_prefix() {
    let mut store = Store::new();
    store.set(text("k"), text("v"));
    let setter = Setter::new(store, text("chain"));
    assert_eq!(setter.prefix, "chain");
    assert_eq!(setter.conn().get("k"), Some("v"));
}

#[test]
fn balance_is_read_as_of_each_height() {
    let mut setter = writer();
    let a = address(0xaa);
    setter.set_balance(10, a, U256::from_u64(100)).unwrap();
    setter.set_balance(20, a, U256::from_u64(200)).unwrap();
    let getter = Getter::new(setter.conn(), text("evm"));
    assert_eq!(getter.balance_at(a, 15).unwrap(), Some(U256::from_u64(100)));
    assert_eq!(getter.balance_at(a, 25).unwrap(), Some(U256::from_u64(200)));
    assert_eq!(getter.balance_at(a, 5).unwrap(), None);
    assert_eq!(getter.balance_at(a, 10).unwrap(), Some(U256::from_u64(100)));
    assert_eq!(getter.balance_at(a, 19).unwrap(), Some(U256::from_u64(100)));
    assert_eq!(getter.balance_at(a, 20).unwrap(), Some(U256::from_u64(200)));
}

#[test]
fn balance_is_stored_under_the_balance_key_as_json() {
    let mut setter = writer();
    let a = address(1);
    setter.set_balance(10, a, U256::from_u64(100)).unwrap();
    let key = balance_key("evm", a);
    assert_eq!(setter.conn().get_as_of(&key, 10), Some("\"0x64\""));
    assert_eq!(setter.conn().get_as_of(&nonce_key("evm", a), 10), None);
    assert_eq!(setter.conn().get_as_of(&code_key("evm", a), 10), None);
}

#[test]
fn nonce_code_and_state_are_read_back() {
    let mut setter = writer();
    let a = address(2);
    let slot = hash(0, 1);
    let value = hash(0xfe, 0xed);
    setter.set_nonce(7, a, U256::from_u64(3)).unwrap();
    setter.set_byte_code(7, a, vec![0x60, 0x80]).unwrap();
    setter.set_state(7, a, slot, value).unwrap();
    assert_eq!(setter.conn().get_as_of(&nonce_key("evm", a), 7), Some("\"0x3\""));
    assert_eq!(setter.conn().get_as_of(&code_key("evm", a), 7), Some("6080"));
    assert_eq!(
        setter.conn().get_as_of(&state_key("evm", a, slot), 7),
        Some(format!("\"0xfe{}ed\"", "0".repeat(60)).as_str())
    );
    let getter = Getter::new(setter.conn(), text("evm"));
    assert_eq!(getter.nonce_at(a, 7).unwrap(), Some(U256::from_u64(3)));
    assert_eq!(getter.nonce_at(a, 6).unwrap(), None);
    assert_eq!(getter.code_at(a, 8).unwrap(), Some(vec![0x60, 0x80]));
    assert_eq!(getter.code_at(a, 6).unwrap(), None);
    assert_eq!(getter.storage_at(a, slot, 7).unwrap(), Some(value));
    assert_eq!(getter.storage_at(a, hash(0, 2), 7).unwrap(), None);
    assert_eq!(getter.storage_at(address(3), slot, 7).unwrap(), None);
}

#[test]
fn accounts_do_not_see_each_other() {
    let mut setter = writer();
    setter.set_balance(1, address(1), U256::from_u64(11)).unwrap();
    setter.set_balance(1, address(2), U256::from_u64(22)).unwrap();
    let getter = Getter::new(setter.conn(), text("evm"));
    assert_eq!(getter.balance_at(address(1), 1).unwrap(), Some(U256::from_u64(11)));
    assert_eq!(getter.balance_at(address(2), 1).unwrap(), Some(U256::from_u64(22)));
    assert_eq!(getter.balance_at(address(3), 1).unwrap(), None);
    assert_eq!(getter.nonce_at(address(1), 1).unwrap(), None);
}

#[test]
fn reader_with_another_prefix_finds_nothing() {
    let mut setter = writer();
    setter.set_balance(1, address(1), U256::from_u64(11)).unwrap();
    setter.set_height(1).unwrap();
    let getter = Getter::new(setter.conn(), text("other"));
    assert_eq!(getter.balance_at(address(1), 1).unwrap(), None);
    assert_eq!(getter.latest_height().unwrap(), None);
}

#[test]
fn height_is_published_as_decimal_text() {
    let mut setter = writer();
    assert_eq!(Getter::new(setter.conn(), text("evm")).latest_height().unwrap(), None);
    setter.set_height(99).unwrap();
    assert_eq!(setter.conn().get(&latest_height_key("evm")), Some("99"));
    assert_eq!(Getter::new(setter.conn(), text("evm")).latest_height().unwrap(), Some(99));
    setter.set_height(100).unwrap();
    assert_eq!(Getter::new(setter.conn(), text("evm")).latest_height().unwrap(), Some(100));
}

#[test]
fn set_block_info_records_transaction_locations() {
    let mut setter = writer();
    let block = two_transaction_block();
    let (block_hash, tx0, tx1) = (block.hash, block.transactions[0], block.transactions[1]);
    setter.set_block_info(block, text("[\"r0\",\"r1\"]"), text("[\"s0\",\"s1\"]")).unwrap();
    let getter = Getter::new(setter.conn(), text("evm"));
    assert_eq!(getter.transaction_location(tx0).unwrap(), Some((block_hash, 0)));
    assert_eq!(getter.transaction_location(tx1).unwrap(), Some((block_hash, 1)));
    assert_eq!(getter.transaction_location(hash(0x70, 2)).unwrap(), None);
}

#[test]
fn set_block_info_records_the_block_both_ways() {
    let mut setter = writer();
    let block = two_transaction_block();
    let block_hash = block.hash;
    setter.set_block_info(block, text("[1]"), text("[2]")).unwrap();
    let getter = Getter::new(setter.conn(), text("evm"));
    assert_eq!(getter.block_by_hash(block_hash), Some("{\"block\":100}"));
    assert_eq!(getter.block_by_hash(hash(1, 1)), None);
    assert_eq!(getter.block_hash_at(U256::from_u64(100)).unwrap(), Some(block_hash));
    assert_eq!(getter.block_hash_at(U256::from_u64(101)).unwrap(), None);
    assert_eq!(getter.block_by_height(U256::from_u64(100)).unwrap(), Some("{\"block\":100}"));
    assert_eq!(getter.block_by_height(U256::from_u64(99)).unwrap(), None);
}

#[test]
fn block_info_records_are_in_writing_order() {
    let block = two_transaction_block();
    let records = block_info_records("evm", &block, text("R"), text("S")).unwrap();
    assert_eq!(records.len(), 7);
    let digits = format!("b1{}", "0".repeat(62));
    assert_eq!(records[0].key, format!("evm:block_hash:height.0x{}64", "0".repeat(60)));
    assert_eq!(records[0].value, format!("\"0x{}\"", digits));
    assert_eq!(records[1].key, format!("evm:block_height:hash.{}", digits));
    assert_eq!(records[1].value, "\"0x64\"");
    assert_eq!(records[2].key, format!("evm:block:hash.{}", digits));
    assert_eq!(records[2].value, "{\"block\":100}");
    assert_eq!(records[3].key, format!("evm:receipt:hash.{}", digits));
    assert_eq!(records[3].value, "R");
    assert_eq!(records[4].key, format!("evm:status:hash.{}", digits));
    assert_eq!(records[4].value, "S");
    assert_eq!(records[5].key, transaction_index_key("evm", block.transactions[0]));
    assert_eq!(records[5].value, format!("[\"0x{}\",0]", digits));
    assert_eq!(records[6].key, transaction_index_key("evm", block.transactions[1]));
    assert_eq!(records[6].value, format!("[\"0x{}\",1]", digits));
}

#[test]
fn block_without_transactions_has_five_records() {
    let block = Block {
        hash: hash(1, 2),
        number: U256::zero(),
        transactions: Vec::new(),
        payload: text("{}"),
    };
    let records = block_info_records("evm", &block, text("[]"), text("[]")).unwrap();
    assert_eq!(records.len(), 5);
    assert_eq!(records[0].key, block_hash_key("evm", U256::zero()));
}

#[test]
fn single_records_pair_key_and_value() {
    let a = address(4);
    let record = balance_record("evm", a, U256::from_u64(255)).unwrap();
    assert_eq!(record.key, balance_key("evm", a));
    assert_eq!(record.value, "\"0xff\"");
    let record = nonce_record("evm", a, U256::zero()).unwrap();
    assert_eq!(record.key, nonce_key("evm", a));
    assert_eq!(record.value, "\"0x0\"");
    let record = byte_code_record("evm", a, &[0xfe]);
    assert_eq!(record.key, code_key("evm", a));
    assert_eq!(record.value, "fe");
    let record = state_record("evm", a, hash(0, 1), hash(0, 2)).unwrap();
    assert_eq!(record.key, state_key("evm", a, hash(0, 1)));
    assert_eq!(record.value, format!("\"0x{}02\"", "0".repeat(62)));
    let record = height_record("evm", 12);
    assert_eq!(record.key, "evm:height");
    assert_eq!(record.value, "12");
}

#[test]
fn writer_failing_mid_block_leaves_the_published_height() {
    let mut setter = writer();
    setter.set_balance(99, address(1), U256::from_u64(1)).unwrap();
    setter.set_height(99).unwrap();
    // Block 100 begins: some of its writes are made, its height is not
    // published.
    setter.set_balance(100, address(1), U256::from_u64(2)).unwrap();
    setter.set_nonce(100, address(1), U256::from_u64(1)).unwrap();
    let getter = Getter::new(setter.conn(), text("evm"));
    assert_eq!(getter.latest_height().unwrap(), Some(99));
    assert_ne!(getter.latest_height().unwrap(), Some(100));
}

#[test]
fn reader_at_the_published_height_sees_nothing_later() {
    let mut setter = writer();
    let a = address(1);
    setter.set_balance(99, a, U256::from_u64(1)).unwrap();
    setter.set_height(99).unwrap();
    for next in 100u32..105 {
        // The writer is in the middle of `next`; a reader comes in.
        setter.set_balance(next, a, U256::from_u64(next as u64)).unwrap();
        {
            let getter = Getter::new(setter.conn(), text("evm"));
            let published = getter.latest_height().unwrap().unwrap();
            assert_eq!(published, next - 1);
            let seen = getter.balance_at(a, published).unwrap().unwrap();
            let expected = if published == 99 { 1 } else { published as u64 };
            assert_eq!(seen, U256::from_u64(expected));
        }
        setter.set_height(next).unwrap();
    }
}

#[test]
fn clear_drops_every_record() {
    let mut setter = writer();
    setter.set_balance(1, address(1), U256::from_u64(1)).unwrap();
    setter.set_height(1).unwrap();
    setter.set_block_info(two_transaction_block(), text("[]"), text("[]")).unwrap();
    setter.clear().unwrap();
    assert_eq!(setter.prefix, "evm");
    let getter = Getter::new(setter.conn(), text("evm"));
    assert_eq!(getter.balance_at(address(1), 1).unwrap(), None);
    assert_eq!(getter.latest_height().unwrap(), None);
    assert_eq!(getter.block_by_hash(hash(0xb1, 0)), None);
    assert_eq!(getter.transaction_location(hash(0x70, 0)).unwrap(), None);
}

#[test]
fn stored_text_that_is_no_number_is_a_json_error() {
    let mut store = Store::new();
    store.put(balance_key("evm", address(1)), 1, text("garbage"));
    store.put(state_key("evm", address(1), hash(0, 0)), 1, text("\"0x12\""));
    store.set(transaction_index_key("evm", hash(0, 0)), text("[]"));
    store.set(block_hash_key("evm", U256::from_u64(1)), text("{"));
    let getter = Getter::new(&store, text("evm"));
    assert!(matches!(getter.balance_at(address(1), 1), Err(Error::SerdeJsonError(_))));
    assert!(matches!(getter.balance_at(address(1), 0), Ok(None)));
    assert!(matches!(
        getter.storage_at(address(1), hash(0, 0), 1),
        Err(Error::SerdeJsonError(_))
    ));
    assert!(matches!(getter.transaction_location(hash(0, 0)), Err(Error::SerdeJsonError(_))));
    assert!(matches!(getter.block_hash_at(U256::from_u64(1)), Err(Error::SerdeJsonError(_))));
    assert!(matches!(getter.block_by_height(U256::from_u64(1)), Err(Error::SerdeJsonError(_))));
}

#[test]
fn stored_code_that_is_no_base16_is_a_hex_error() {
    let mut store = Store::new();
    store.put(code_key("evm", address(1)), 1, text("0x6080"));
    let getter = Getter::new(&store, text("evm"));
    assert!(matches!(getter.code_at(address(1), 1), Err(Error::FromHexError(_))));
}

#[test]
fn stored_height_that_is_no_number_is_a_parse_error() {
    let mut store = Store::new();
    store.set(latest_height_key("evm"), text("one hundred"));
    let getter = Getter::new(&store, text("evm"));
    assert!(matches!(getter.latest_height(), Err(Error::ParseIntError(_))));
}

#[test]
fn reader_accepts_what_the_writer_of_another_process_wrote() {
    // The same key and the same text, made apart from any writer.
    let mut store = Store::new();
    let a = address(0x42);
    store.put(
        text("evm:balance:addr.0000000000000000000000000000000000000042"),
        3,
        encode_u256(U256::from_u64(5)).unwrap(),
    );
    let getter = Getter::new(&store, text("evm"));
    assert_eq!(getter.balance_at(a, 3).unwrap(), Some(U256::from_u64(5)));
}
