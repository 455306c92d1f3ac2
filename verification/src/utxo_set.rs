//! The unspent-output index derived from the chain: full rebuild, the
//! incremental update applied after each mined block, and the queries used
//! for balances and input selection.

use vstd::prelude::*;

verus! {

use crate::block::{Block, BlockV};
use crate::blockchain::Blockchain;
use crate::codec::bytes_equal;
use crate::transaction::{clone_output, spec_is_coinbase, TransactionV, TXInputV, TXOutput, TXOutputV};

/// Mathematical model of one output still held by an index entry.
pub struct IndexedOutputV {
    pub index: usize,
    pub output: TXOutputV,
}

/// One output of a transaction that is still unspent, kept under its
/// original output index.
pub struct IndexedOutput {
    pub index: usize,
    pub output: TXOutput,
}

impl View for IndexedOutput {
    type V = IndexedOutputV;

    open spec fn view(&self) -> IndexedOutputV {
        IndexedOutputV { index: self.index, output: self.output@ }
    }
}

/// Mathematical model of one index entry.
pub struct UtxoEntryV {
    pub txid: Seq<u8>,
    pub outputs: Seq<IndexedOutputV>,
}

/// All outputs of one transaction that are still unspent.
pub struct UtxoEntry {
    pub txid: Vec<u8>,
    pub outputs: Vec<IndexedOutput>,
}

impl View for UtxoEntry {
    type V = UtxoEntryV;

    open spec fn view(&self) -> UtxoEntryV {
        UtxoEntryV {
            txid: self.txid@,
            outputs: self.outputs@.map_values(|o: IndexedOutput| o@),
        }
    }
}

/// The position of the entry with the given transaction id, or `-1`.
pub open spec fn find_entry(es: Seq<UtxoEntryV>, txid: Seq<u8>) -> int
    decreases es.len(),
{
    if es.len() == 0 {
        -1
    } else if es[0].txid == txid {
        0
    } else {
        let r = find_entry(es.drop_first(), txid);
        if r < 0 {
            -1
        } else {
            r + 1
        }
    }
}

/// The outputs of an entry without the one at the spent index.
pub open spec fn outputs_without(os: Seq<IndexedOutputV>, idx: usize) -> Seq<IndexedOutputV>
    decreases os.len(),
{
    if os.len() == 0 {
        Seq::empty()
    } else {
        let rest = outputs_without(os.drop_first(), idx);
        if os[0].index == idx {
            rest
        } else {
            seq![os[0]] + rest
        }
    }
}

/// The index after one `(txid, vout)` reference is spent: the output leaves
/// its entry, and an entry left empty leaves the index entirely.
pub open spec fn remove_spent(es: Seq<UtxoEntryV>, txid: Seq<u8>, vout: usize) -> Seq<UtxoEntryV> {
    let i = find_entry(es, txid);
    if i < 0 {
        es
    } else {
        let outs = outputs_without(es[i].outputs, vout);
        if outs.len() == 0 {
            es.remove(i)
        } else {
            es.update(i, UtxoEntryV { txid: es[i].txid, outputs: outs })
        }
    }
}

/// The index after the inputs of a transaction, from position `i` on, have
/// all been spent.
pub open spec fn remove_inputs_from(es: Seq<UtxoEntryV>, vin: Seq<TXInputV>, i: int) -> Seq<
    UtxoEntryV,
>
    decreases vin.len() - i,
{
    if i < 0 || i >= vin.len() {
        es
    } else {
        remove_inputs_from(remove_spent(es, vin[i].txid, vin[i].vout), vin, i + 1)
    }
}

/// The fresh entry a transaction contributes: its full output set.
pub open spec fn entry_of_tx(t: TransactionV) -> UtxoEntryV {
    UtxoEntryV {
        txid: t.id,
        outputs: Seq::new(t.vout.len(), |k: int| IndexedOutputV { index: k as usize, output: t.vout[k] }),
    }
}

/// The index with a transaction's entry stored under its id, replacing any
/// entry that id already had.
pub open spec fn append_entry(es: Seq<UtxoEntryV>, t: TransactionV) -> Seq<UtxoEntryV> {
    let i = find_entry(es, t.id);
    if i < 0 {
        es.push(entry_of_tx(t))
    } else {
        es.update(i, entry_of_tx(t))
    }
}

/// The index after one transaction: its inputs are spent unless it is
/// coinbase, then its outputs enter as fresh unspent entries.
pub open spec fn apply_tx(es: Seq<UtxoEntryV>, t: TransactionV) -> Seq<UtxoEntryV> {
    if spec_is_coinbase(t) {
        append_entry(es, t)
    } else {
        append_entry(remove_inputs_from(es, t.vin, 0), t)
    }
}

/// The index after the transactions of a block, from position `i` on.
pub open spec fn apply_txs_from(es: Seq<UtxoEntryV>, ts: Seq<TransactionV>, i: int) -> Seq<
    UtxoEntryV,
>
    decreases ts.len() - i,
{
    if i < 0 || i >= ts.len() {
        es
    } else {
        apply_txs_from(apply_tx(es, ts[i]), ts, i + 1)
    }
}

/// The incremental maintenance step: the index after one whole block.
pub open spec fn apply_block(es: Seq<UtxoEntryV>, b: BlockV) -> Seq<UtxoEntryV> {
    apply_txs_from(es, b.transactions, 0)
}

/// The index a chain determines: every block applied in order, starting
/// from the empty index. This is what a rebuild computes and what repeated
/// incremental updates maintain.
pub open spec fn utxo_after(c: Seq<BlockV>) -> Seq<UtxoEntryV>
    decreases c.len(),
{
    if c.len() == 0 {
        Seq::empty()
    } else {
        apply_block(utxo_after(c.drop_last()), c.last())
    }
}

/// Rebuilding after one more block agrees with updating incrementally: the
/// index of the grown chain is the update step applied to the index of the
/// chain before it. Together with induction over the chain this says that
/// a full rebuild and repeated per-block updates from genesis produce the
/// same unspent-output set.
pub proof fn lemma_update_matches_reindex(c: Seq<BlockV>, b: BlockV)
    ensures
        utxo_after(c.push(b)) == apply_block(utxo_after(c), b),
{
    assert(c.push(b).drop_last() =~= c);
    assert(c.push(b).last() == b);
}

/// The matching outputs of one entry, in order.
pub open spec fn matching_outputs(os: Seq<IndexedOutputV>, pkh: Seq<u8>) -> Seq<TXOutputV>
    decreases os.len(),
{
    if os.len() == 0 {
        Seq::empty()
    } else {
        let rest = matching_outputs(os.drop_first(), pkh);
        if os[0].output.pub_key_hash == pkh {
            seq![os[0].output] + rest
        } else {
            rest
        }
    }
}

/// Every output in the index locked to the given public-key hash, in index
/// order.
pub open spec fn spec_find_utxo(es: Seq<UtxoEntryV>, pkh: Seq<u8>) -> Seq<TXOutputV>
    decreases es.len(),
{
    if es.len() == 0 {
        Seq::empty()
    } else {
        matching_outputs(es[0].outputs, pkh) + spec_find_utxo(es.drop_first(), pkh)
    }
}

/// Mathematical model of one spendable reference.
pub struct SpendableV {
    pub txid: Seq<u8>,
    pub index: usize,
    pub value: i32,
}

/// A reference to one unspent output a new transaction may consume.
pub struct Spendable {
    pub txid: Vec<u8>,
    pub index: usize,
    pub value: i32,
}

impl View for Spendable {
    type V = SpendableV;

    open spec fn view(&self) -> SpendableV {
        SpendableV { txid: self.txid@, index: self.index, value: self.value }
    }
}

/// The spendable references one entry offers to the given owner, in order.
pub open spec fn matching_candidates(txid: Seq<u8>, os: Seq<IndexedOutputV>, pkh: Seq<u8>) -> Seq<
    SpendableV,
>
    decreases os.len(),
{
    if os.len() == 0 {
        Seq::empty()
    } else {
        let rest = matching_candidates(txid, os.drop_first(), pkh);
        if os[0].output.pub_key_hash == pkh {
            seq![SpendableV { txid, index: os[0].index, value: os[0].output.value }] + rest
        } else {
            rest
        }
    }
}

/// Every spendable reference the index offers to the given owner, in the
/// index's stable enumeration order.
pub open spec fn spec_candidates(es: Seq<UtxoEntryV>, pkh: Seq<u8>) -> Seq<SpendableV>
    decreases es.len(),
{
    if es.len() == 0 {
        Seq::empty()
    } else {
        matching_candidates(es[0].txid, es[0].outputs, pkh) + spec_candidates(
            es.drop_first(),
            pkh,
        )
    }
}

/// The summed value of a list of spendable references.
pub open spec fn sum_values(s: Seq<SpendableV>) -> int
    decreases s.len(),
{
    if s.len() == 0 {
        0
    } else {
        s[0].value + sum_values(s.drop_first())
    }
}

/// First-fit selection: candidates are taken in order until their summed
/// value reaches the requested amount; `None` when the whole list cannot
/// cover it.
pub open spec fn spec_pick(cands: Seq<SpendableV>, amount: int) -> Option<Seq<SpendableV>>
    decreases cands.len(),
{
    if amount <= 0 {
        Some(Seq::empty())
    } else if cands.len() == 0 {
        None
    } else {
        match spec_pick(cands.drop_first(), amount - cands[0].value) {
            Some(rest) => Some(seq![cands[0]] + rest),
            None => None,
        }
    }
}

/// The derived index: the chain it follows and one entry per transaction
/// id that still has unspent outputs.
pub struct UTXOSet {
    pub blockchain: Blockchain,
    pub entries: Vec<UtxoEntry>,
}

impl UTXOSet {
    /// The model of the stored index.
    pub open spec fn index(&self) -> Seq<UtxoEntryV> {
        self.entries@.map_values(|e: UtxoEntry| e@)
    }

    /// Wraps a chain with an empty index; `reindex` fills it.
    pub fn new(blockchain: Blockchain) -> (r: UTXOSet)
        ensures
            r.blockchain == blockchain,
            r.index() == Seq::<UtxoEntryV>::empty(),
    {
        let r = UTXOSet { blockchain, entries: Vec::new() };
        assert(r.index() =~= Seq::<UtxoEntryV>::empty());
        r
    }

    /// Discards the index and rebuilds it by walking the whole chain.
    pub fn reindex(&mut self)
        ensures
            final(self).blockchain == old(self).blockchain,
            final(self).index() == utxo_after(old(self).blockchain@),
    {
        self.entries = Vec::new();
        let ghost c = self.blockchain@;
        let n = self.blockchain.blocks.len();
        assert(self.index() =~= utxo_after(c.take(0)));
        let mut i: usize = 0;
        while i < n
            invariant
                i <= n,
                n == self.blockchain.blocks@.len(),
                c == self.blockchain@,
                self.blockchain == old(self).blockchain,
                self.index() == utxo_after(c.take(i as int)),
            decreases n - i,
        {
            let ghost before = self.index();
            let b = crate::blockchain::clone_block(&self.blockchain.blocks[i]);
            apply_block_vec(&mut self.entries, &b);
            proof {
                assert(c.take(i + 1 as int).drop_last() =~= c.take(i as int));
                assert(c.take(i + 1 as int).last() == c[i as int]);
            }
            i = i + 1;
        }
        assert(c.take(n as int) =~= c);
    }

    /// The incremental step after a block is mined: spends the block's
    /// referenced outputs and records the block's new ones. Starting from
    /// genesis this maintains exactly what `reindex` would rebuild.
    pub fn update(&mut self, block: &Block)
        ensures
            final(self).blockchain == old(self).blockchain,
            final(self).index() == apply_block(old(self).index(), block@),
    {
        apply_block_vec(&mut self.entries, block);
    }

    /// Every stored output locked to the given public-key hash.
    pub fn find_utxo(&self, pub_key_hash: &[u8]) -> (r: Vec<TXOutput>)
        ensures
            r@.map_values(|o: TXOutput| o@) == spec_find_utxo(self.index(), pub_key_hash@),
    {
        let ghost es = self.index();
        let mut acc: Vec<TXOutput> = Vec::new();
        let n = self.entries.len();
        assert(es.skip(0) =~= es);
        let mut i: usize = 0;
        while i < n
            invariant
                i <= n,
                n == self.entries@.len(),
                es == self.index(),
                spec_find_utxo(es, pub_key_hash@) == acc@.map_values(|o: TXOutput| o@)
                    + spec_find_utxo(es.skip(i as int), pub_key_hash@),
            decreases n - i,
        {
            let ghost acc0 = acc@.map_values(|o: TXOutput| o@);
            proof {
                assert(es.skip(i as int)[0] == es[i as int]);
                assert(es.skip(i as int).drop_first() =~= es.skip(i + 1 as int));
            }
            let entry = &self.entries[i];
            let m = entry.outputs.len();
            let ghost os = entry@.outputs;
            assert(os.skip(0) =~= os);
            let mut j: usize = 0;
            while j < m
                invariant
                    j <= m,
                    m == entry.outputs@.len(),
                    os == entry@.outputs,
                    acc0 + matching_outputs(os, pub_key_hash@) == acc@.map_values(
                        |o: TXOutput| o@,
                    ) + matching_outputs(os.skip(j as int), pub_key_hash@),
                decreases m - j,
            {
                proof {
                    assert(os.skip(j as int)[0] == os[j as int]);
                    assert(os.skip(j as int).drop_first() =~= os.skip(j + 1 as int));
                }
                if bytes_equal(entry.outputs[j].output.pub_key_hash.as_slice(), pub_key_hash) {
                    let ghost before = acc@.map_values(|o: TXOutput| o@);
                    acc.push(clone_output(&entry.outputs[j].output));
                    proof {
                        assert(acc@.map_values(|o: TXOutput| o@) =~= before + seq![
                            os[j as int].output,
                        ]);
                        assert(before + (seq![os[j as int].output] + matching_outputs(
                            os.skip(j + 1 as int),
                            pub_key_hash@,
                        )) =~= (before + seq![os[j as int].output]) + matching_outputs(
                            os.skip(j + 1 as int),
                            pub_key_hash@,
                        ));
                    }
                }
                j = j + 1;
            }
            proof {
                assert(os.skip(m as int) =~= Seq::<IndexedOutputV>::empty());
                assert(acc@.map_values(|o: TXOutput| o@) + Seq::<TXOutputV>::empty() =~= acc@
                    .map_values(|o: TXOutput| o@));
                assert(acc0 + (matching_outputs(es[i as int].outputs, pub_key_hash@)
                    + spec_find_utxo(es.skip(i + 1 as int), pub_key_hash@)) =~= (acc0
                    + matching_outputs(es[i as int].outputs, pub_key_hash@)) + spec_find_utxo(
                    es.skip(i + 1 as int),
                    pub_key_hash@,
                ));
            }
            i = i + 1;
        }
        proof {
            assert(es.skip(n as int) =~= Seq::<UtxoEntryV>::empty());
            assert(acc@.map_values(|o: TXOutput| o@) + Seq::<TXOutputV>::empty() =~= acc@
                .map_values(|o: TXOutput| o@));
        }
        acc
    }

    /// Every spendable reference the index offers to the given owner, in
    /// the index's stable enumeration order.
    fn candidates(&self, pub_key_hash: &[u8]) -> (r: Vec<Spendable>)
        ensures
            r@.map_values(|s: Spendable| s@) == spec_candidates(self.index(), pub_key_hash@),
    {
        let ghost es = self.index();
        let mut acc: Vec<Spendable> = Vec::new();
        let n = self.entries.len();
        assert(es.skip(0) =~= es);
        let mut i: usize = 0;
        while i < n
            invariant
                i <= n,
                n == self.entries@.len(),
                es == self.index(),
                spec_candidates(es, pub_key_hash@) == acc@.map_values(|s: Spendable| s@)
                    + spec_candidates(es.skip(i as int), pub_key_hash@),
            decreases n - i,
        {
            let ghost acc0 = acc@.map_values(|s: Spendable| s@);
            proof {
                assert(es.skip(i as int)[0] == es[i as int]);
                assert(es.skip(i as int).drop_first() =~= es.skip(i + 1 as int));
            }
            let entry = &self.entries[i];
            let ghost txid = entry@.txid;
            let m = entry.outputs.len();
            let ghost os = entry@.outputs;
            assert(os.skip(0) =~= os);
            let mut j: usize = 0;
            while j < m
                invariant
                    j <= m,
                    m == entry.outputs@.len(),
                    os == entry@.outputs,
                    txid == entry@.txid,
                    acc0 + matching_candidates(txid, os, pub_key_hash@) == acc@.map_values(
                        |s: Spendable| s@,
                    ) + matching_candidates(txid, os.skip(j as int), pub_key_hash@),
                decreases m - j,
            {
                proof {
                    assert(os.skip(j as int)[0] == os[j as int]);
                    assert(os.skip(j as int).drop_first() =~= os.skip(j + 1 as int));
                }
                if bytes_equal(entry.outputs[j].output.pub_key_hash.as_slice(), pub_key_hash) {
                    let ghost before = acc@.map_values(|s: Spendable| s@);
                    let ghost c = SpendableV {
                        txid,
                        index: os[j as int].index,
                        value: os[j as int].output.value,
                    };
                    acc.push(
                        Spendable {
                            txid: vstd::slice::slice_to_vec(entry.txid.as_slice()),
                            index: entry.outputs[j].index,
                            value: entry.outputs[j].output.value,
                        },
                    );
                    proof {
                        assert(acc@.map_values(|s: Spendable| s@) =~= before + seq![c]);
                        assert(before + (seq![c] + matching_candidates(
                            txid,
                            os.skip(j + 1 as int),
                            pub_key_hash@,
                        )) =~= (before + seq![c]) + matching_candidates(
                            txid,
                            os.skip(j + 1 as int),
                            pub_key_hash@,
                        ));
                    }
                }
                j = j + 1;
            }
            proof {
                assert(os.skip(m as int) =~= Seq::<IndexedOutputV>::empty());
                assert(acc@.map_values(|s: Spendable| s@) + Seq::<SpendableV>::empty() =~= acc@
                    .map_values(|s: Spendable| s@));
                assert(acc0 + (matching_candidates(txid, os, pub_key_hash@) + spec_candidates(
                    es.skip(i + 1 as int),
                    pub_key_hash@,
                )) =~= (acc0 + matching_candidates(txid, os, pub_key_hash@)) + spec_candidates(
                    es.skip(i + 1 as int),
                    pub_key_hash@,
                ));
            }
            i = i + 1;
        }
        proof {
            assert(es.skip(n as int) =~= Seq::<UtxoEntryV>::empty());
            assert(acc@.map_values(|s: Spendable| s@) + Seq::<SpendableV>::empty() =~= acc@
                .map_values(|s: Spendable| s@));
        }
        acc
    }

    /// First-fit input selection: walks the index's candidates in order,
    /// accumulating spendable references until their summed value reaches
    /// the requested amount; `None` means the funds do not suffice.
    pub fn find_spendable_outputs(&self, pub_key_hash: &[u8], amount: i32) -> (r: Option<
        (Vec<Spendable>, i64),
    >)
        requires
            amount > 0,
        ensures
            r matches Some(p) ==> spec_pick(
                spec_candidates(self.index(), pub_key_hash@),
                amount as int,
            ) == Some(p.0@.map_values(|s: Spendable| s@)) && p.1 as int == sum_values(
                p.0@.map_values(|s: Spendable| s@),
            ) && p.1 >= amount as i64 && (p.1 as int) < amount + 0x8000_0000,
            r is None ==> spec_pick(
                spec_candidates(self.index(), pub_key_hash@),
                amount as int,
            ) is None,
    {
        let cands = self.candidates(pub_key_hash);
        let ghost cm = cands@.map_values(|s: Spendable| s@);
        let n = cands.len();
        let mut picked: Vec<Spendable> = Vec::new();
        let mut sum: i128 = 0;
        let mut i: usize = 0;
        assert(cm.skip(0) =~= cm);
        assert(cm.take(0) =~= Seq::<SpendableV>::empty());
        while sum < amount as i128 && i < n
            invariant
                i <= n,
                n == cands@.len(),
                cm == cands@.map_values(|s: Spendable| s@),
                picked@.map_values(|s: Spendable| s@) == cm.take(i as int),
                sum as int == sum_values(cm.take(i as int)),
                sum < amount as i128 + 0x8000_0000,
                sum as int >= (i as int) * (-0x8000_0000),
                spec_pick(cm, amount as int) == (match spec_pick(
                    cm.skip(i as int),
                    amount - sum,
                ) {
                    None => None::<Seq<SpendableV>>,
                    Some(l) => Some(cm.take(i as int) + l),
                }),
            decreases n - i,
        {
            proof {
                assert(cm.skip(i as int)[0] == cm[i as int]);
                assert(cm.skip(i as int).drop_first() =~= cm.skip(i + 1 as int));
                lemma_sum_values_push(cm.take(i as int), cm[i as int]);
                assert(cm.take(i + 1 as int) =~= cm.take(i as int).push(cm[i as int]));
            }
            let ghost before = picked@.map_values(|s: Spendable| s@);
            let v = cands[i].value;
            picked.push(
                Spendable {
                    txid: vstd::slice::slice_to_vec(cands[i].txid.as_slice()),
                    index: cands[i].index,
                    value: v,
                },
            );
            proof {
                assert(picked@.map_values(|s: Spendable| s@) =~= before.push(cm[i as int]));
                if spec_pick(cm.skip(i + 1 as int), amount - sum - v) is Some {
                    let l = spec_pick(cm.skip(i + 1 as int), amount - sum - v).unwrap();
                    assert(cm.take(i as int) + (seq![cm[i as int]] + l) =~= cm.take(i + 1 as int)
                        + l);
                }
            }
            proof {
                assert((i + 1 as int) * (-0x8000_0000) == (i as int) * (-0x8000_0000)
                    + (-0x8000_0000)) by (nonlinear_arith);
            }
            sum = sum + v as i128;
            i = i + 1;
        }
        if sum >= amount as i128 {
            proof {
                assert(spec_pick(cm.skip(i as int), amount - sum) == Some(
                    Seq::<SpendableV>::empty(),
                ));
                assert(cm.take(i as int) + Seq::<SpendableV>::empty() =~= cm.take(i as int));
            }
            Some((picked, sum as i64))
        } else {
            proof {
                assert(i == n);
                assert(cm.skip(n as int) =~= Seq::<SpendableV>::empty());
            }
            None
        }
    }

    /// How many transaction ids currently hold at least one stored output.
    pub fn count_transactions(&self) -> (r: usize)
        ensures
            r == self.index().len(),
    {
        self.entries.len()
    }
}

/// Summing distributes over appending one candidate at the end.
pub proof fn lemma_sum_values_push(s: Seq<SpendableV>, x: SpendableV)
    ensures
        sum_values(s.push(x)) == sum_values(s) + x.value,
    decreases s.len(),
{
    if s.len() == 0 {
        assert(s.push(x)[0] == x);
        assert(s.push(x).drop_first() =~= Seq::<SpendableV>::empty());
        assert(sum_values(s.push(x).drop_first()) == 0);
    } else {
        assert(s.push(x).drop_first() =~= s.drop_first().push(x));
        lemma_sum_values_push(s.drop_first(), x);
        assert(s.push(x)[0] == s[0]);
    }
}

/// The position of the entry with the given id in the stored index.
fn find_entry_vec(es: &Vec<UtxoEntry>, txid: &[u8]) -> (r: Option<usize>)
    ensures
        r matches Some(i) ==> i < es@.len() && find_entry(
            es@.map_values(|e: UtxoEntry| e@),
            txid@,
        ) == i as int,
        r is None ==> find_entry(es@.map_values(|e: UtxoEntry| e@), txid@) == -1,
{
    let ghost m = es@.map_values(|e: UtxoEntry| e@);
    let n = es.len();
    let mut i: usize = 0;
    while i < n
        invariant
            i <= n,
            n == es@.len(),
            m == es@.map_values(|e: UtxoEntry| e@),
            forall|k: int| 0 <= k < i ==> (#[trigger] m[k]).txid != txid@,
        decreases n - i,
    {
        if bytes_equal(es[i].txid.as_slice(), txid) {
            proof {
                lemma_find_entry_at(m, txid@, i as int);
            }
            return Some(i);
        }
        i = i + 1;
    }
    proof {
        lemma_find_entry_absent(m, txid@);
    }
    None
}

/// When every entry before `i` misses and entry `i` matches, the search
/// lands at `i`.
proof fn lemma_find_entry_at(es: Seq<UtxoEntryV>, txid: Seq<u8>, i: int)
    requires
        0 <= i < es.len(),
        forall|k: int| 0 <= k < i ==> (#[trigger] es[k]).txid != txid,
        es[i].txid == txid,
    ensures
        find_entry(es, txid) == i,
    decreases i,
{
    if i == 0 {
    } else {
        assert(es.drop_first()[i - 1] == es[i]);
        assert(forall|k: int| 0 <= k < i - 1 ==> (#[trigger] es.drop_first()[k]).txid != txid);
        lemma_find_entry_at(es.drop_first(), txid, i - 1);
    }
}

/// When no entry matches, the search reports `-1`.
proof fn lemma_find_entry_absent(es: Seq<UtxoEntryV>, txid: Seq<u8>)
    requires
        forall|k: int| 0 <= k < es.len() ==> (#[trigger] es[k]).txid != txid,
    ensures
        find_entry(es, txid) == -1,
    decreases es.len(),
{
    if es.len() > 0 {
        assert(forall|k: int|
            0 <= k < es.drop_first().len() ==> (#[trigger] es.drop_first()[k]).txid != txid);
        lemma_find_entry_absent(es.drop_first(), txid);
    }
}

/// Spends one `(txid, vout)` reference in the stored index.
fn remove_spent_vec(es: &mut Vec<UtxoEntry>, txid: &[u8], vout: usize)
    ensures
        final(es)@.map_values(|e: UtxoEntry| e@) == remove_spent(
            old(es)@.map_values(|e: UtxoEntry| e@),
            txid@,
            vout,
        ),
{
    let ghost m = es@.map_values(|e: UtxoEntry| e@);
    match find_entry_vec(es, txid) {
        None => {
        },
        Some(i) => {
            let ghost os = es@[i as int]@.outputs;
            let mut kept: Vec<IndexedOutput> = Vec::new();
            let entry_outputs_len = es[i].outputs.len();
            assert(os.skip(0) =~= os);
            let mut j: usize = 0;
            while j < entry_outputs_len
                invariant
                    j <= entry_outputs_len,
                    i < es@.len(),
                    entry_outputs_len == es@[i as int].outputs@.len(),
                    os == es@[i as int]@.outputs,
                    outputs_without(os, vout) == kept@.map_values(|o: IndexedOutput| o@)
                        + outputs_without(os.skip(j as int), vout),
                decreases entry_outputs_len - j,
            {
                proof {
                    assert(os.skip(j as int)[0] == os[j as int]);
                    assert(os.skip(j as int).drop_first() =~= os.skip(j + 1 as int));
                }
                if es[i].outputs[j].index != vout {
                    let ghost before = kept@.map_values(|o: IndexedOutput| o@);
                    let o = &es[i].outputs[j];
                    kept.push(IndexedOutput { index: o.index, output: clone_output(&o.output) });
                    proof {
                        assert(kept@.map_values(|o: IndexedOutput| o@) =~= before + seq![
                            os[j as int],
                        ]);
                        assert(before + (seq![os[j as int]] + outputs_without(
                            os.skip(j + 1 as int),
                            vout,
                        )) =~= (before + seq![os[j as int]]) + outputs_without(
                            os.skip(j + 1 as int),
                            vout,
                        ));
                    }
                }
                j = j + 1;
            }
            proof {
                assert(os.skip(entry_outputs_len as int) =~= Seq::<IndexedOutputV>::empty());
                assert(kept@.map_values(|o: IndexedOutput| o@) + Seq::<IndexedOutputV>::empty()
                    =~= kept@.map_values(|o: IndexedOutput| o@));
            }
            if kept.len() == 0 {
                es.remove(i);
                assert(es@.map_values(|e: UtxoEntry| e@) =~= m.remove(i as int));
            } else {
                let txid_copy = vstd::slice::slice_to_vec(es[i].txid.as_slice());
                vstd::pervasive::VecAdditionalExecFns::set(
                    es,
                    i,
                    UtxoEntry { txid: txid_copy, outputs: kept },
                );
                assert(es@.map_values(|e: UtxoEntry| e@) =~= m.update(
                    i as int,
                    UtxoEntryV { txid: m[i as int].txid, outputs: outputs_without(os, vout) },
                ));
            }
        },
    }
}

/// Stores a transaction's full output set under its id.
fn append_entry_vec(es: &mut Vec<UtxoEntry>, t: &crate::transaction::Transaction)
    ensures
        final(es)@.map_values(|e: UtxoEntry| e@) == append_entry(
            old(es)@.map_values(|e: UtxoEntry| e@),
            t@,
        ),
{
    let ghost m = es@.map_values(|e: UtxoEntry| e@);
    let mut outputs: Vec<IndexedOutput> = Vec::new();
    let count = t.vout.len();
    let mut j: usize = 0;
    while j < count
        invariant
            j <= count,
            count == t.vout@.len(),
            outputs@.len() == j,
            forall|k: int|
                0 <= k < j ==> #[trigger] outputs@[k]@ == (IndexedOutputV {
                    index: k as usize,
                    output: t@.vout[k],
                }),
        decreases count - j,
    {
        outputs.push(IndexedOutput { index: j, output: clone_output(&t.vout[j]) });
        j = j + 1;
    }
    let entry = UtxoEntry { txid: vstd::slice::slice_to_vec(t.id.as_slice()), outputs };
    assert(entry@.outputs =~= entry_of_tx(t@).outputs);
    assert(entry@ == entry_of_tx(t@));
    match find_entry_vec(es, t.id.as_slice()) {
        None => {
            es.push(entry);
            assert(es@.map_values(|e: UtxoEntry| e@) =~= m.push(entry_of_tx(t@)));
        },
        Some(i) => {
            vstd::pervasive::VecAdditionalExecFns::set(es, i, entry);
            assert(es@.map_values(|e: UtxoEntry| e@) =~= m.update(i as int, entry_of_tx(t@)));
        },
    }
}

/// Applies one whole block to the stored index: per transaction, spend its
/// inputs unless it is coinbase, then record its outputs.
fn apply_block_vec(es: &mut Vec<UtxoEntry>, b: &Block)
    ensures
        final(es)@.map_values(|e: UtxoEntry| e@) == apply_block(
            old(es)@.map_values(|e: UtxoEntry| e@),
            b@,
        ),
{
    let ghost m0 = es@.map_values(|e: UtxoEntry| e@);
    let ghost ts = b@.transactions;
    let n = b.transactions.len();
    let mut i: usize = 0;
    while i < n
        invariant
            i <= n,
            n == b.transactions@.len(),
            ts == b@.transactions,
            apply_txs_from(m0, ts, 0) == apply_txs_from(
                es@.map_values(|e: UtxoEntry| e@),
                ts,
                i as int,
            ),
        decreases n - i,
    {
        let tx = &b.transactions[i];
        let ghost before = es@.map_values(|e: UtxoEntry| e@);
        if !tx.is_coinbase() {
            let ghost vin = tx@.vin;
            let nv = tx.vin.len();
            let mut k: usize = 0;
            while k < nv
                invariant
                    k <= nv,
                    nv == tx.vin@.len(),
                    vin == tx@.vin,
                    remove_inputs_from(before, vin, 0) == remove_inputs_from(
                        es@.map_values(|e: UtxoEntry| e@),
                        vin,
                        k as int,
                    ),
                decreases nv - k,
            {
                remove_spent_vec(es, tx.vin[k].txid.as_slice(), tx.vin[k].vout);
                k = k + 1;
            }
        }
        append_entry_vec(es, tx);
        i = i + 1;
    }
}

} // verus!
