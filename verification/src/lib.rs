use vstd::prelude::*;

pub mod block;
pub mod blockchain;
pub mod codec;
pub mod crypto;
pub mod proof_of_work;
pub mod transaction;
pub mod utxo_set;

verus! {

/// Number of leading bits that must be zero in a mined block hash: the
/// proof-of-work target is `2^(256 - TARGET_BITS)`.
pub const TARGET_BITS: u32 = 8;

/// Errors scoped to a single transaction or chain operation; none of them is
/// fatal to the node as a whole.
#[derive(Clone, Copy, Debug, PartialEq, Eq, Structural)]
pub enum TxError {
    /// A decoded address payload is too short to hold a version byte, a
    /// public-key hash and the trailing checksum.
    AddressInvalid,
    /// An input references a transaction id that no block of the chain holds,
    /// or an output index the referenced transaction does not have.
    PreviousTransactionMissing,
    /// A signature check failed while verifying a batch of transactions.
    SignatureInvalid,
    /// Input selection could not gather enough unspent value.
    InsufficientFunds,
    /// The supplied secret-key bytes do not form a usable signing key.
    KeyInvalid,
    /// A byte string does not decode to a value of the expected shape.
    SerializationError,
    /// Mining exhausted the nonce space without meeting the target.
    NonceExhausted,
}

} // verus!
