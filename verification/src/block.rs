//! Blocks: immutable once mined, linked to their parent by hash, sealed by
//! proof of work.

use vstd::prelude::*;

verus! {

use crate::crypto::{sha256_digest, sha256_of};
use crate::proof_of_work::{mined_ok, MiningError, ProofOfWork};
use crate::transaction::{Transaction, TransactionV};
use vstd::string::StrSliceExecFns;
use vstd::string::StringExecFns;
use vstd::utf8::encode_utf8;

/// The sentinel a genesis block carries in place of a parent hash.
pub const GENESIS_PRE_HASH: &'static str = "None";

/// Mathematical model of a block.
pub struct BlockV {
    pub timestamp: i64,
    pub pre_block_hash: Seq<char>,
    pub hash: Seq<char>,
    pub transactions: Seq<TransactionV>,
    pub nonce: i64,
    pub height: usize,
}

/// A block of the chain: its transactions, its link to the parent block,
/// and the nonce and hash its mining produced.
#[derive(Debug)]
pub struct Block {
    pub timestamp: i64,
    pub pre_block_hash: String,
    pub hash: String,
    pub transactions: Vec<Transaction>,
    pub nonce: i64,
    pub height: usize,
}

impl View for Block {
    type V = BlockV;

    open spec fn view(&self) -> BlockV {
        BlockV {
            timestamp: self.timestamp,
            pre_block_hash: self.pre_block_hash@,
            hash: self.hash@,
            transactions: self.transactions@.map_values(|t: Transaction| t@),
            nonce: self.nonce,
            height: self.height,
        }
    }
}

/// The draft a mining attempt works on: the supplied contents with an
/// empty hash and a zero nonce. The prepared data reads neither the hash
/// nor the nonce field, so the draft determines the whole nonce search.
pub open spec fn draft_view(
    timestamp: i64,
    pre_block_hash: Seq<char>,
    transactions: Seq<TransactionV>,
    height: usize,
) -> BlockV {
    BlockV {
        timestamp,
        pre_block_hash,
        hash: Seq::empty(),
        transactions,
        nonce: 0,
        height,
    }
}

/// The ids of a block's transactions, concatenated in block order; the
/// block commits to its transactions through one hash of this.
pub open spec fn concat_ids(ts: Seq<TransactionV>) -> Seq<u8>
    decreases ts.len(),
{
    if ts.len() == 0 {
        Seq::empty()
    } else {
        ts[0].id + concat_ids(ts.drop_first())
    }
}

pub proof fn lemma_concat_ids_push(ts: Seq<TransactionV>, x: TransactionV)
    ensures
        concat_ids(ts.push(x)) == concat_ids(ts) + x.id,
    decreases ts.len(),
{
    if ts.len() == 0 {
        assert(ts.push(x)[0] == x);
        assert(ts.push(x).drop_first() =~= Seq::<TransactionV>::empty());
        assert(concat_ids(ts.push(x).drop_first()) =~= Seq::<u8>::empty());
        assert(concat_ids(ts.push(x)) =~= x.id + Seq::<u8>::empty());
        assert(x.id + Seq::<u8>::empty() =~= x.id);
        assert(concat_ids(ts) + x.id =~= x.id);
    } else {
        assert(ts.push(x).drop_first() =~= ts.drop_first().push(x));
        lemma_concat_ids_push(ts.drop_first(), x);
        assert(ts.push(x)[0] == ts[0]);
        assert(ts[0].id + (concat_ids(ts.drop_first()) + x.id) =~= (ts[0].id + concat_ids(
            ts.drop_first(),
        )) + x.id);
    }
}

impl Block {
    pub fn get_pre_block_hash(&self) -> (r: &String)
        ensures
            r@ == self@.pre_block_hash,
    {
        &self.pre_block_hash
    }

    pub fn get_hash(&self) -> (r: &String)
        ensures
            r@ == self@.hash,
    {
        &self.hash
    }

    pub fn get_hash_bytes(&self) -> (r: Vec<u8>)
        ensures
            r@ == encode_utf8(self@.hash),
    {
        self.hash.as_str().as_bytes_vec()
    }

    pub fn get_timestamp(&self) -> (r: i64)
        ensures
            r == self@.timestamp,
    {
        self.timestamp
    }

    pub fn get_height(&self) -> (r: usize)
        ensures
            r == self@.height,
    {
        self.height
    }

    pub fn get_transactions(&self) -> (r: &[Transaction])
        ensures
            r@.map_values(|t: Transaction| t@) == self@.transactions,
    {
        self.transactions.as_slice()
    }

    /// One hash over the concatenated ids of this block's transactions.
    pub fn hash_transactions(&self) -> (r: Vec<u8>)
        ensures
            r@ == sha256_of(concat_ids(self@.transactions)),
            r@.len() == 32,
    {
        let mut ids: Vec<u8> = Vec::new();
        let n = self.transactions.len();
        let mut i: usize = 0;
        while i < n
            invariant
                i <= n,
                n == self.transactions@.len(),
                ids@ == concat_ids(self@.transactions.take(i as int)),
            decreases n - i,
        {
            crate::codec::push_all(&mut ids, self.transactions[i].id.as_slice());
            proof {
                lemma_concat_ids_push(
                    self@.transactions.take(i as int),
                    self@.transactions[i as int],
                );
                assert(self@.transactions.take(i + 1 as int) =~= self@.transactions.take(
                    i as int,
                ).push(self@.transactions[i as int]));
            }
            i = i + 1;
        }
        assert(self@.transactions.take(n as int) =~= self@.transactions);
        sha256_digest(ids.as_slice())
    }

    /// Assembles a draft block with the supplied contents, runs proof of
    /// work on it, and seals the found nonce and hash into the block.
    pub fn new(
        timestamp: i64,
        pre_block_hash: String,
        transactions: &Vec<Transaction>,
        height: usize,
    ) -> (r: Result<Block, MiningError>)
        ensures
            r matches Ok(b) ==> mined_ok(b@) && b@.timestamp == timestamp && b@.pre_block_hash
                == pre_block_hash@ && b@.transactions == transactions@.map_values(
                |t: Transaction| t@,
            ) && b@.height == height,
            r is Err ==> r == Err::<Block, MiningError>(MiningError::NonceExhausted)
                && crate::proof_of_work::nonce_space_exhausted(
                draft_view(
                    timestamp,
                    pre_block_hash@,
                    transactions@.map_values(|t: Transaction| t@),
                    height,
                ),
            ),
    {
        let mut block = Block {
            timestamp,
            pre_block_hash,
            hash: String::new(),
            transactions: crate::transaction::clone_transactions(transactions),
            nonce: 0,
            height,
        };
        let ghost draft = block@;
        let found = {
            let pow = ProofOfWork::new(&block);
            pow.run()
        };
        match found {
            Ok((nonce, hash)) => {
                block.nonce = nonce;
                block.hash = hash;
                proof {
                    crate::proof_of_work::lemma_prepare_data_same(draft, block@, nonce);
                    assert forall|m: i64| 0 <= m < nonce implies crate::proof_of_work::be_uint(
                        sha256_of(#[trigger] crate::proof_of_work::prepare_data_spec(block@, m)),
                    ) >= crate::proof_of_work::pow_target() by {
                        crate::proof_of_work::lemma_prepare_data_same(draft, block@, m);
                    }
                }
                Ok(block)
            },
            Err(e) => {
                proof {
                    assert(draft.hash =~= Seq::<char>::empty());
                    assert(draft == draft_view(
                        timestamp,
                        pre_block_hash@,
                        transactions@.map_values(|t: Transaction| t@),
                        height,
                    ));
                }
                Err(e)
            },
        }
    }

    /// The first block of a chain: height zero, parent sentinel `"None"`,
    /// and the one supplied transaction.
    pub fn generate_genesis_block(timestamp: i64, transaction: &Transaction) -> (r: Result<
        Block,
        MiningError,
    >)
        ensures
            r matches Ok(b) ==> mined_ok(b@) && b@.timestamp == timestamp && b@.pre_block_hash
                == GENESIS_PRE_HASH@ && b@.transactions == seq![transaction@] && b@.height == 0,
            r is Err ==> r == Err::<Block, MiningError>(MiningError::NonceExhausted)
                && crate::proof_of_work::nonce_space_exhausted(
                draft_view(timestamp, GENESIS_PRE_HASH@, seq![transaction@], 0),
            ),
    {
        let mut transactions: Vec<Transaction> = Vec::new();
        transactions.push(crate::transaction::clone_transaction(transaction));
        assert(transactions@.map_values(|t: Transaction| t@) =~= seq![transaction@]);
        let r = Block::new(timestamp, String::from_str(GENESIS_PRE_HASH), &transactions, 0);
        proof {
            if r is Err {
                assert(draft_view(
                    timestamp,
                    GENESIS_PRE_HASH@,
                    transactions@.map_values(|t: Transaction| t@),
                    0,
                ) == draft_view(timestamp, GENESIS_PRE_HASH@, seq![transaction@], 0));
            }
        }
        r
    }
}

} // verus!
