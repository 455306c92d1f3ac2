//! Proof of work: the nonce search that seals a block, and the numeric
//! reading of a hash that decides whether the target is met.

use vstd::prelude::*;

verus! {

use vstd::arithmetic::power::pow;
use vstd::arithmetic::power2::pow2;
use vstd::arithmetic::power::lemma_pow_positive;
use vstd::arithmetic::mul::lemma_mul_inequality;
use vstd::utf8::encode_utf8;
use crate::TARGET_BITS;
use crate::block::{Block, BlockV, concat_ids};
use crate::codec::enc_u64;
use crate::crypto::{hex_encode, hex_lower_of, sha256_digest, sha256_of};

/// A failed mining attempt.
#[derive(Clone, Copy, Debug, PartialEq, Eq, Structural)]
pub enum MiningError {
    /// Every candidate nonce was tried without finding a qualifying hash.
    NonceExhausted,
}

/// A byte sequence read as a big-endian unsigned integer.
pub open spec fn be_uint(s: Seq<u8>) -> int
    decreases s.len(),
{
    if s.len() == 0 {
        0
    } else {
        s[0] * pow(256, (s.len() - 1) as nat) + be_uint(s.drop_first())
    }
}

/// The proof-of-work ceiling: a mined hash must read strictly below it.
pub open spec fn pow_target() -> int {
    pow(256, 31)
}

/// The target is `2^(256 - TARGET_BITS)`, as the difficulty is stated.
pub proof fn lemma_target_is_power_of_two()
    ensures
        pow_target() == pow2((256 - TARGET_BITS) as nat),
{
    vstd::arithmetic::power::lemma_pow_multiplies(2, 8, 31);
    vstd::arithmetic::power2::lemma2_to64();
    assert(pow2(8) == 256);
    assert(pow(2, 8) == 256) by {
        vstd::arithmetic::power2::lemma_pow2(8);
    }
    assert(pow(pow(2, 8), 31) == pow(256, 31));
    assert(pow2(248) == pow(2, 248)) by {
        vstd::arithmetic::power2::lemma_pow2(248);
    }
}

/// A big-endian reading is bounded by the count of its bytes.
pub proof fn lemma_be_uint_bound(s: Seq<u8>)
    ensures
        0 <= be_uint(s) < pow(256, s.len()),
    decreases s.len(),
{
    if s.len() == 0 {
        vstd::arithmetic::power::lemma_pow0(256);
    } else {
        let n = s.len();
        let p = pow(256, (n - 1) as nat);
        lemma_be_uint_bound(s.drop_first());
        lemma_pow_positive(256, (n - 1) as nat);
        lemma_mul_inequality(s[0] as int, 255, p);
        vstd::arithmetic::power::lemma_pow1(256);
        vstd::arithmetic::power::lemma_pow_adds(256, 1, (n - 1) as nat);
        assert(pow(256, n) == 256 * p);
    }
}

/// The data hashed for a candidate nonce: previous-block hash bytes, the
/// hash of the transaction ids, the timestamp, TARGET_BITS, and the nonce,
/// the integers as big-endian bytes.
pub open spec fn prepare_data_spec(b: BlockV, nonce: i64) -> Seq<u8> {
    encode_utf8(b.pre_block_hash) + sha256_of(concat_ids(b.transactions)) + enc_u64(
        b.timestamp as u64,
    ) + seq![0u8, 0u8, 0u8, TARGET_BITS as u8] + enc_u64(nonce as u64)
}

/// No candidate nonce seals this block: every prepared data in the whole
/// search space hashes at or above the target. Mining may fail with the
/// exhaustion error only when this holds.
pub open spec fn nonce_space_exhausted(b: BlockV) -> bool {
    forall|m: i64|
        0 <= m < i64::MAX ==> be_uint(sha256_of(#[trigger] prepare_data_spec(b, m)))
            >= pow_target()
}

/// A block is sealed by its proof of work: the nonce is the smallest one
/// whose prepared data hashes strictly below the target, and the block's
/// hash field is the lowercase hex encoding of that digest.
pub open spec fn mined_ok(b: BlockV) -> bool {
    &&& 0 <= b.nonce
    &&& be_uint(sha256_of(prepare_data_spec(b, b.nonce))) < pow_target()
    &&& b.hash == hex_lower_of(sha256_of(prepare_data_spec(b, b.nonce)))
    &&& forall|m: i64|
        0 <= m < b.nonce ==> be_uint(sha256_of(#[trigger] prepare_data_spec(b, m)))
            >= pow_target()
}

/// The prepared data reads neither the hash nor the nonce field of the
/// block, so sealing those fields leaves it unchanged.
pub proof fn lemma_prepare_data_same(a: BlockV, b: BlockV, nonce: i64)
    requires
        a.pre_block_hash == b.pre_block_hash,
        a.transactions == b.transactions,
        a.timestamp == b.timestamp,
    ensures
        prepare_data_spec(a, nonce) == prepare_data_spec(b, nonce),
{
}

/// Whether a 32-byte digest, read as a big-endian integer, is strictly
/// below the proof-of-work target.
pub fn meets_target(hash: &[u8]) -> (r: bool)
    requires
        hash@.len() == 32,
    ensures
        r == (be_uint(hash@) < pow_target()),
{
    let b0 = *vstd::slice::slice_index_get(hash, 0);
    proof {
        let s = hash@;
        let p = pow(256, 31);
        assert(be_uint(s) == s[0] * p + be_uint(s.drop_first()));
        lemma_be_uint_bound(s.drop_first());
        lemma_pow_positive(256, 31);
        if s[0] == 0 {
            assert(be_uint(s) < p);
        } else {
            lemma_mul_inequality(1, s[0] as int, p);
            assert(be_uint(s) >= p);
        }
    }
    b0 == 0
}

/// The nonce search over a candidate block.
pub struct ProofOfWork<'a> {
    pub block: &'a Block,
}

impl<'a> ProofOfWork<'a> {
    pub fn new(block: &'a Block) -> (r: Self)
        ensures
            r.block == block,
    {
        Self { block }
    }

    /// The bytes hashed for one candidate nonce.
    pub fn prepare_data(&self, nonce: i64) -> (r: Vec<u8>)
        ensures
            r@ == prepare_data_spec(self.block@, nonce),
    {
        let mut out: Vec<u8> = Vec::new();
        let pre = self.block.pre_block_hash.as_str().as_bytes_vec();
        crate::codec::push_all(&mut out, pre.as_slice());
        let tx_hash = self.block.hash_transactions();
        crate::codec::push_all(&mut out, tx_hash.as_slice());
        crate::codec::push_u64_be(&mut out, self.block.timestamp as u64);
        out.push(0);
        out.push(0);
        out.push(0);
        out.push(TARGET_BITS as u8);
        crate::codec::push_u64_be(&mut out, nonce as u64);
        assert(out@ =~= prepare_data_spec(self.block@, nonce));
        out
    }

    /// Scans nonces from zero upward and returns the first one whose hash
    /// meets the target, with that hash in lowercase hex; fails only if the
    /// whole nonce space is exhausted.
    pub fn run(&self) -> (r: Result<(i64, String), MiningError>)
        ensures
            r matches Ok(p) ==> 0 <= p.0 < i64::MAX && be_uint(
                sha256_of(prepare_data_spec(self.block@, p.0)),
            ) < pow_target() && p.1@ == hex_lower_of(sha256_of(prepare_data_spec(self.block@, p.0)))
                && (forall|m: i64|
                0 <= m < p.0 ==> be_uint(sha256_of(#[trigger] prepare_data_spec(self.block@, m)))
                    >= pow_target()),
            r is Err ==> r == Err::<(i64, String), MiningError>(MiningError::NonceExhausted)
                && nonce_space_exhausted(self.block@),
    {
        let mut nonce: i64 = 0;
        while nonce < i64::MAX
            invariant
                0 <= nonce,
                forall|m: i64|
                    0 <= m < nonce ==> be_uint(
                        sha256_of(#[trigger] prepare_data_spec(self.block@, m)),
                    ) >= pow_target(),
            decreases i64::MAX - nonce,
        {
            let data = self.prepare_data(nonce);
            let hash = sha256_digest(data.as_slice());
            if meets_target(hash.as_slice()) {
                let encoded = hex_encode(hash.as_slice());
                return Ok((nonce, encoded));
            }
            nonce = nonce + 1;
        }
        Err(MiningError::NonceExhausted)
    }
}

} // verus!
