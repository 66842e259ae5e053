//! The fixed-width identifiers and integers that keys and values are made of.

use vstd::prelude::*;

verus! {

/// The key prefix of the default deployment.
pub const PREFIX: &'static str = "evm";

/// An account address: 20 bytes.
#[derive(Clone, Copy, Debug, PartialEq, Eq)]
pub struct H160(pub [u8; 20]);

/// A 32-byte value: a hash, a storage index or a storage value, big-endian
/// where it is read as a number.
#[derive(Clone, Copy, Debug, PartialEq, Eq)]
pub struct H256(pub [u8; 32]);

/// A 256-bit unsigned integer as four 64-bit limbs, least significant first.
#[derive(Clone, Copy, Debug, PartialEq, Eq)]
pub struct U256(pub [u64; 4]);

/// What the block index keeps of a block: its hash and number, the hashes of
/// its transactions in their order, and the block's serialized payload.
#[derive(Debug)]
pub struct Block {
    pub hash: H256,
    pub number: U256,
    pub transactions: Vec<H256>,
    pub payload: String,
}

/// The state of one account.
#[derive(Debug)]
pub struct AccountBasic {
    pub balance: U256,
    pub code: Vec<u8>,
    pub nonce: U256,
}

/// One log entry of a transaction.
#[derive(Debug)]
pub struct Log {
    pub address: H160,
    pub topics: Vec<H256>,
    pub data: Vec<u8>,
}

/// The 2048-bit filter over the logs of a transaction.
#[derive(Clone, Copy, Debug, PartialEq, Eq)]
pub struct Bloom(pub [u8; 256]);

/// The outcome of one transaction: where it stands in its block, who sent
/// it to whom, the contract it created and what it logged.
#[derive(Debug)]
pub struct Transaction {
    pub transaction_hash: H256,
    pub transaction_index: u32,
    pub from: H160,
    pub to: Option<H160>,
    pub contract_address: Option<H160>,
    pub logs: Vec<Log>,
    pub logs_bloom: Bloom,
}

/// Two to the power 64: the weight of one limb.
pub open spec fn limb_base() -> nat {
    0x1_0000_0000_0000_0000
}

/// Two to the power 256: the first number that no `U256` holds.
pub open spec fn u256_limit() -> nat {
    limb_base() * limb_base() * limb_base() * limb_base()
}

impl View for H160 {
    type V = Seq<u8>;

    open spec fn view(&self) -> Seq<u8> {
        self.0@
    }
}

impl View for H256 {
    type V = Seq<u8>;

    open spec fn view(&self) -> Seq<u8> {
        self.0@
    }
}

impl View for U256 {
    type V = nat;

    /// The number that the four limbs stand for.
    open spec fn view(&self) -> nat {
        self.0@[0] as nat + limb_base() * (self.0@[1] as nat + limb_base() * (self.0@[2] as nat
            + limb_base() * (self.0@[3] as nat)))
    }
}

impl U256 {
    /// The integer zero.
    pub fn zero() -> (out: U256)
        ensures
            out@ == 0,
    {
        U256([0u64, 0u64, 0u64, 0u64])
    }

    /// The integer whose value is `n`.
    pub fn from_u64(n: u64) -> (out: U256)
        ensures
            out@ == n,
    {
        U256([n, 0u64, 0u64, 0u64])
    }

    /// The largest value: two to the power 256, less one.
    pub fn max_value() -> (out: U256)
        ensures
            out@ == u256_limit() - 1,
    {
        let out = U256([u64::MAX, u64::MAX, u64::MAX, u64::MAX]);
        assert(out@ == u256_limit() - 1) by (nonlinear_arith)
            requires
                out@ == 0xffff_ffff_ffff_ffff + limb_base() * (0xffff_ffff_ffff_ffff + limb_base()
                    * (0xffff_ffff_ffff_ffff + limb_base() * 0xffff_ffff_ffff_ffff)),
                limb_base() == 0x1_0000_0000_0000_0000,
                u256_limit() == limb_base() * limb_base() * limb_base() * limb_base(),
        ;
        out
    }
}

/// A number below the product of a base and a bound has one way to be a
/// digit below the base and a rest: equal numbers have equal digits and
/// equal rests.
proof fn lemma_digit_and_rest(base: nat, digit: nat, rest: nat, other_digit: nat, other_rest: nat)
    requires
        digit < base,
        other_digit < base,
        digit + base * rest == other_digit + base * other_rest,
    ensures
        digit == other_digit,
        rest == other_rest,
{
    if rest < other_rest {
        assert(base * other_rest >= base * rest + base) by (nonlinear_arith)
            requires
                rest < other_rest,
        ;
    } else if other_rest < rest {
        assert(base * rest >= base * other_rest + base) by (nonlinear_arith)
            requires
                other_rest < rest,
        ;
    }
}

/// Two `U256` that stand for the same number are the same value.
pub proof fn lemma_u256_view_injective(a: U256, b: U256)
    requires
        a@ == b@,
    ensures
        a == b,
{
    let base = limb_base();
    let (a0, a1, a2, a3) = (a.0@[0] as nat, a.0@[1] as nat, a.0@[2] as nat, a.0@[3] as nat);
    let (b0, b1, b2, b3) = (b.0@[0] as nat, b.0@[1] as nat, b.0@[2] as nat, b.0@[3] as nat);
    lemma_digit_and_rest(
        base,
        a0,
        a1 + base * (a2 + base * a3),
        b0,
        b1 + base * (b2 + base * b3),
    );
    lemma_digit_and_rest(base, a1, a2 + base * a3, b1, b2 + base * b3);
    lemma_digit_and_rest(base, a2, a3, b2, b3);
    assert(a.0@ =~= b.0@);
    assert(a.0 == b.0);
}

/// Two `H256` of the same bytes are the same value.
pub proof fn lemma_h256_view_injective(a: H256, b: H256)
    requires
        a@ == b@,
    ensures
        a == b,
{
    assert(a.0@ =~= b.0@);
    assert(a.0 == b.0);
}

/// Every `U256` is below two to the power 256.
pub proof fn lemma_u256_bounded(v: U256)
    ensures
        v@ < u256_limit(),
{
    let b = limb_base();
    let (a0, a1, a2, a3) = (v.0@[0] as nat, v.0@[1] as nat, v.0@[2] as nat, v.0@[3] as nat);
    assert(a0 + b * (a1 + b * (a2 + b * a3)) < b * b * b * b) by (nonlinear_arith)
        requires
            a0 < b,
            a1 < b,
            a2 < b,
            a3 < b,
            b > 0,
    ;
}

} // verus!
