//! The append-only chain of blocks: creation with a genesis block, mining
//! and appending, backward traversal, and transaction lookup by id.

use vstd::prelude::*;

verus! {

use crate::TxError;
use crate::block::{Block, BlockV, GENESIS_PRE_HASH};
use crate::codec::bytes_equal;
use crate::proof_of_work::mined_ok;
use crate::transaction::{clone_transaction, Transaction, TransactionV};

/// The links of a chain: a genesis block at height zero carrying the parent
/// sentinel, and every later block at its index, naming its parent's hash.
pub open spec fn chain_linked(c: Seq<BlockV>) -> bool {
    &&& c.len() >= 1
    &&& c[0].height == 0
    &&& c[0].pre_block_hash == GENESIS_PRE_HASH@
    &&& forall|i: int|
        0 < i < c.len() ==> (#[trigger] c[i]).height == i && c[i].pre_block_hash == c[i - 1].hash
}

/// A well-formed chain: linked, and every block sealed by proof of work.
pub open spec fn wf_chain(c: Seq<BlockV>) -> bool {
    chain_linked(c) && forall|i: int| 0 <= i < c.len() ==> mined_ok(#[trigger] c[i])
}

/// In a well-formed chain every non-genesis block names its parent's hash:
/// the block at height `i` links to the block at height `i - 1`.
pub proof fn lemma_parent_links(c: Seq<BlockV>)
    requires
        wf_chain(c),
    ensures
        forall|i: int| 0 < i < c.len() ==> (#[trigger] c[i]).pre_block_hash == c[i - 1].hash,
{
}

/// The first transaction with the given id in a block's list, scanning
/// from the front.
pub open spec fn find_in_txs(ts: Seq<TransactionV>, txid: Seq<u8>) -> Option<TransactionV>
    decreases ts.len(),
{
    if ts.len() == 0 {
        None
    } else if ts[0].id == txid {
        Some(ts[0])
    } else {
        find_in_txs(ts.drop_first(), txid)
    }
}

/// The first transaction with the given id found scanning the chain from
/// the tip backward to genesis, each block's list from the front.
pub open spec fn spec_find_transaction(c: Seq<BlockV>, txid: Seq<u8>) -> Option<TransactionV>
    decreases c.len(),
{
    if c.len() == 0 {
        None
    } else {
        match find_in_txs(c.last().transactions, txid) {
            Some(t) => Some(t),
            None => spec_find_transaction(c.drop_last(), txid),
        }
    }
}

/// The chain: an append-only block log and the tip pointer naming the hash
/// of its best block.
#[derive(Debug)]
pub struct Blockchain {
    pub blocks: Vec<Block>,
    pub tip_hash: String,
}

impl View for Blockchain {
    type V = Seq<BlockV>;

    open spec fn view(&self) -> Seq<BlockV> {
        self.blocks@.map_values(|b: Block| b@)
    }
}

impl Blockchain {
    /// Validity of the whole structure: a well-formed chain whose tip
    /// pointer names the last block's hash.
    pub open spec fn wf(&self) -> bool {
        wf_chain(self@) && self.tip_hash@ == self@.last().hash
    }

    pub fn get_tip_hash(&self) -> (r: &String)
        requires
            self.wf(),
        ensures
            r@ == self@.last().hash,
    {
        &self.tip_hash
    }

    pub fn get_best_height(&self) -> (r: usize)
        requires
            self.wf(),
        ensures
            r == self@.last().height,
    {
        let n = self.blocks.len();
        self.blocks[n - 1].get_height()
    }

    /// The first transaction with the given id, scanning from the tip
    /// backward; `None` only after the whole chain has been scanned.
    pub fn find_transaction(&self, txid: &[u8]) -> (r: Option<Transaction>)
        ensures
            r matches Some(t) ==> spec_find_transaction(self@, txid@) == Some(t@),
            r is None ==> spec_find_transaction(self@, txid@) is None,
    {
        let ghost c = self@;
        let n = self.blocks.len();
        assert(c.take(n as int) =~= c);
        let mut k: usize = n;
        while k > 0
            invariant
                k <= n,
                n == self.blocks@.len(),
                c == self@,
                spec_find_transaction(c, txid@) == spec_find_transaction(
                    c.take(k as int),
                    txid@,
                ),
            decreases k,
        {
            let found = find_in_block(&self.blocks[k - 1], txid);
            proof {
                assert(c.take(k as int).last() == c[k - 1]);
                assert(c.take(k as int).drop_last() =~= c.take(k - 1 as int));
            }
            match found {
                Some(t) => {
                    return Some(t);
                },
                None => {
                },
            }
            k = k - 1;
        }
        assert(c.take(0) =~= Seq::<BlockV>::empty());
        None
    }

    /// A fresh backward traversal, starting at the current tip.
    pub fn iterator(&self) -> (r: BlockchainIterator<'_>)
        ensures
            r.blockchain == self,
            r.remaining == self@.len(),
    {
        BlockchainIterator { blockchain: self, remaining: self.blocks.len() }
    }

    /// A new chain holding only a genesis block that rewards the given
    /// address with the coinbase subsidy.
    pub fn create_blockchain(genesis_address_payload: &[u8], timestamp: i64) -> (r: Result<
        Blockchain,
        TxError,
    >)
        ensures
            r matches Ok(bc) ==> bc.wf() && bc@.len() == 1 && bc@[0].timestamp == timestamp
                && bc@[0].transactions.len() == 1 && crate::transaction::spec_is_coinbase(
                bc@[0].transactions[0],
            ) && bc@[0].transactions[0].vout == seq![
                crate::transaction::TXOutputV {
                    value: crate::transaction::SUBSIDY,
                    pub_key_hash: crate::transaction::spec_payload_pub_key_hash(
                        genesis_address_payload@,
                    ),
                },
            ],
            r == Err::<Blockchain, TxError>(TxError::AddressInvalid) <==> genesis_address_payload@
                .len() <= crate::transaction::ADDRESS_CHECK_SUM_LEN,
            r == Err::<Blockchain, TxError>(TxError::NonceExhausted) ==> exists|t: TransactionV|
                #[trigger] crate::transaction::spec_is_coinbase(t) && t.vout == seq![
                    crate::transaction::TXOutputV {
                        value: crate::transaction::SUBSIDY,
                        pub_key_hash: crate::transaction::spec_payload_pub_key_hash(
                            genesis_address_payload@,
                        ),
                    },
                ] && crate::proof_of_work::nonce_space_exhausted(
                    crate::block::draft_view(
                        timestamp,
                        crate::block::GENESIS_PRE_HASH@,
                        seq![t],
                        0,
                    ),
                ),
            r is Err ==> r == Err::<Blockchain, TxError>(TxError::AddressInvalid) || r == Err::<
                Blockchain,
                TxError,
            >(TxError::NonceExhausted),
    {
        let coinbase = match Transaction::new_coinbase_tx(genesis_address_payload) {
            Ok(t) => t,
            Err(e) => { return Err(e); },
        };
        let genesis = match Block::generate_genesis_block(timestamp, &coinbase) {
            Ok(b) => b,
            Err(_) => {
                proof {
                    assert(crate::transaction::spec_is_coinbase(coinbase@)
                        && coinbase@.vout == seq![
                        crate::transaction::TXOutputV {
                            value: crate::transaction::SUBSIDY,
                            pub_key_hash: crate::transaction::spec_payload_pub_key_hash(
                                genesis_address_payload@,
                            ),
                        },
                    ] && crate::proof_of_work::nonce_space_exhausted(
                        crate::block::draft_view(
                            timestamp,
                            crate::block::GENESIS_PRE_HASH@,
                            seq![coinbase@],
                            0,
                        ),
                    ));
                }
                return Err(TxError::NonceExhausted);
            },
        };
        let tip_hash = genesis.get_hash().clone();
        let mut blocks: Vec<Block> = Vec::new();
        blocks.push(genesis);
        let bc = Blockchain { blocks, tip_hash };
        assert(bc@ =~= seq![bc.blocks@[0]@]);
        Ok(bc)
    }

    /// Verifies every transaction of the batch against the current chain,
    /// mines a block holding the batch on top of the tip, appends it, and
    /// moves the tip to the new block's hash. On any error the chain is
    /// left exactly as it was.
    pub fn mine_block(&mut self, transactions: &Vec<Transaction>, timestamp: i64) -> (r: Result<
        Block,
        TxError,
    >)
        requires
            old(self).wf(),
        ensures
            final(self).wf(),
            r matches Ok(b) ==> final(self)@ == old(self)@.push(b@) && final(self).tip_hash@
                == b@.hash && b@.timestamp == timestamp && b@.height == old(self)@.len()
                && b@.pre_block_hash == old(self)@.last().hash && b@.transactions
                == transactions@.map_values(|t: Transaction| t@) && mined_ok(b@) && (forall|j: int|
                0 <= j < transactions@.len() ==> crate::transaction::spec_tx_valid(
                    old(self)@,
                    #[trigger] transactions@[j]@,
                )),
            r is Err ==> final(self)@ == old(self)@ && final(self).tip_hash == old(self).tip_hash,
            r == Err::<Block, TxError>(TxError::SignatureInvalid) ==> exists|j: int|
                0 <= j < transactions@.len() && crate::transaction::spec_verify(
                    old(self)@,
                    #[trigger] transactions@[j]@,
                ) == Ok::<bool, TxError>(false),
            r == Err::<Block, TxError>(TxError::PreviousTransactionMissing) ==> exists|j: int|
                0 <= j < transactions@.len() && crate::transaction::spec_verify(
                    old(self)@,
                    #[trigger] transactions@[j]@,
                ) is Err,
            r is Err ==> r == Err::<Block, TxError>(TxError::SignatureInvalid) || r == Err::<
                Block,
                TxError,
            >(TxError::PreviousTransactionMissing) || r == Err::<Block, TxError>(
                TxError::NonceExhausted,
            ),
            r == Err::<Block, TxError>(TxError::NonceExhausted)
                ==> crate::proof_of_work::nonce_space_exhausted(
                crate::block::draft_view(
                    timestamp,
                    old(self)@.last().hash,
                    transactions@.map_values(|t: Transaction| t@),
                    old(self)@.len() as usize,
                ),
            ),
    {
        let n = transactions.len();
        let mut k: usize = 0;
        while k < n
            invariant
                k <= n,
                n == transactions@.len(),
                *self == *old(self),
                old(self).wf(),
                forall|j: int|
                    0 <= j < k ==> crate::transaction::spec_tx_valid(
                        self@,
                        #[trigger] transactions@[j]@,
                    ),
            decreases n - k,
        {
            let tx = &transactions[k];
            if !tx.is_coinbase() {
                match tx.verify(self) {
                    Ok(true) => {
                    },
                    Ok(false) => {
                        return Err(TxError::SignatureInvalid);
                    },
                    Err(e) => {
                        return Err(TxError::PreviousTransactionMissing);
                    },
                }
            }
            k = k + 1;
        }
        let new_height = self.blocks.len();
        let pre_hash = self.tip_hash.clone();
        let block = match Block::new(timestamp, pre_hash, transactions, new_height) {
            Ok(b) => b,
            Err(_) => {
                proof {
                    assert(crate::proof_of_work::nonce_space_exhausted(
                        crate::block::draft_view(
                            timestamp,
                            old(self)@.last().hash,
                            transactions@.map_values(|t: Transaction| t@),
                            old(self)@.len() as usize,
                        ),
                    ));
                }
                return Err(TxError::NonceExhausted);
            },
        };
        let appended = clone_block(&block);
        let new_tip = block.get_hash().clone();
        self.blocks.push(appended);
        self.tip_hash = new_tip;
        proof {
            assert(self@ =~= old(self)@.push(block@));
            assert forall|i: int| 0 < i < self@.len() implies (#[trigger] self@[i]).height == i
                && self@[i].pre_block_hash == self@[i - 1].hash by {
                if i < self@.len() - 1 {
                    assert(self@[i] == old(self)@[i]);
                }
            }
        }
        Ok(block)
    }
}

/// A backward walk over a chain, yielding blocks from the tip to genesis.
pub struct BlockchainIterator<'a> {
    pub blockchain: &'a Blockchain,
    pub remaining: usize,
}

impl<'a> BlockchainIterator<'a> {
    /// The next block going backward, or `None` once genesis was yielded.
    pub fn next(&mut self) -> (r: Option<Block>)
        requires
            old(self).remaining <= old(self).blockchain@.len(),
        ensures
            final(self).blockchain == old(self).blockchain,
            old(self).remaining > 0 ==> (r matches Some(b) && b@ == old(self).blockchain@[old(
                self,
            ).remaining - 1] && final(self).remaining == old(self).remaining - 1),
            old(self).remaining == 0 ==> r is None && final(self).remaining == 0,
    {
        if self.remaining == 0 {
            return None;
        }
        let b = clone_block(&self.blockchain.blocks[self.remaining - 1]);
        self.remaining = self.remaining - 1;
        Some(b)
    }
}

/// A field-for-field copy of a block.
pub fn clone_block(b: &Block) -> (r: Block)
    ensures
        r@ == b@,
{
    Block {
        timestamp: b.timestamp,
        pre_block_hash: b.pre_block_hash.clone(),
        hash: b.hash.clone(),
        transactions: crate::transaction::clone_transactions(&b.transactions),
        nonce: b.nonce,
        height: b.height,
    }
}

/// The first transaction with the given id inside one block, scanning the
/// block's list from the front.
pub fn find_in_block(b: &Block, txid: &[u8]) -> (r: Option<Transaction>)
    ensures
        r matches Some(t) ==> find_in_txs(b@.transactions, txid@) == Some(t@),
        r is None ==> find_in_txs(b@.transactions, txid@) is None,
{
    let ghost ts = b@.transactions;
    let n = b.transactions.len();
    assert(ts.skip(0) =~= ts);
    let mut j: usize = 0;
    while j < n
        invariant
            j <= n,
            n == b.transactions@.len(),
            ts == b@.transactions,
            find_in_txs(ts, txid@) == find_in_txs(ts.skip(j as int), txid@),
        decreases n - j,
    {
        proof {
            assert(ts.skip(j as int)[0] == ts[j as int]);
            assert(ts.skip(j as int).drop_first() =~= ts.skip(j + 1 as int));
        }
        if bytes_equal(b.transactions[j].id.as_slice(), txid) {
            return Some(clone_transaction(&b.transactions[j]));
        }
        j = j + 1;
    }
    assert(ts.skip(n as int) =~= Seq::<TransactionV>::empty());
    None
}

} // verus!
