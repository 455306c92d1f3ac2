//! The transaction model: inputs, outputs, coinbase issuance, canonical id
//! hashing, and signature creation and verification.

use vstd::prelude::*;

verus! {

use crate::TxError;

/// Number of trailing checksum bytes in a decoded address payload.
pub const ADDRESS_CHECK_SUM_LEN: usize = 4;

/// The reward issued by every coinbase transaction.
pub const SUBSIDY: i32 = 10;

/// Mathematical model of a transaction input.
pub struct TXInputV {
    pub txid: Seq<u8>,
    pub vout: usize,
    pub signature: Seq<u8>,
    pub pub_key: Seq<u8>,
}

/// Mathematical model of a transaction output.
pub struct TXOutputV {
    pub value: i32,
    pub pub_key_hash: Seq<u8>,
}

/// Mathematical model of a transaction.
pub struct TransactionV {
    pub id: Seq<u8>,
    pub vin: Seq<TXInputV>,
    pub vout: Seq<TXOutputV>,
}

/// A reference to one output of an earlier transaction, together with the
/// material that authorizes spending it.
#[derive(Debug)]
pub struct TXInput {
    pub txid: Vec<u8>,
    pub vout: usize,
    pub signature: Vec<u8>,
    pub pub_key: Vec<u8>,
}

/// An amount locked to the holder of a public-key hash.
#[derive(Debug)]
pub struct TXOutput {
    pub value: i32,
    pub pub_key_hash: Vec<u8>,
}

/// A transfer of value: inputs consuming earlier outputs and new outputs.
#[derive(Debug)]
pub struct Transaction {
    pub id: Vec<u8>,
    pub vin: Vec<TXInput>,
    pub vout: Vec<TXOutput>,
}

impl View for TXInput {
    type V = TXInputV;

    open spec fn view(&self) -> TXInputV {
        TXInputV {
            txid: self.txid@,
            vout: self.vout,
            signature: self.signature@,
            pub_key: self.pub_key@,
        }
    }
}

impl View for TXOutput {
    type V = TXOutputV;

    open spec fn view(&self) -> TXOutputV {
        TXOutputV { value: self.value, pub_key_hash: self.pub_key_hash@ }
    }
}

impl View for Transaction {
    type V = TransactionV;

    open spec fn view(&self) -> TransactionV {
        TransactionV {
            id: self.id@,
            vin: self.vin@.map_values(|x: TXInput| x@),
            vout: self.vout@.map_values(|x: TXOutput| x@),
        }
    }
}

/// A transaction is coinbase exactly when it has one single input whose
/// public key is empty.
pub open spec fn spec_is_coinbase(t: TransactionV) -> bool {
    t.vin.len() == 1 && t.vin[0].pub_key.len() == 0
}

/// An output is well formed when its amount is not negative.
pub open spec fn wf_output(o: TXOutputV) -> bool {
    o.value >= 0
}

/// A transaction is well formed when all its outputs are.
pub open spec fn wf_tx(t: TransactionV) -> bool {
    forall|i: int| 0 <= i < t.vout.len() ==> wf_output(#[trigger] t.vout[i])
}

/// The public-key hash a decoded address payload carries: the payload minus
/// its one version byte and its trailing checksum.
pub open spec fn spec_payload_pub_key_hash(payload: Seq<u8>) -> Seq<u8> {
    payload.subrange(1, payload.len() - ADDRESS_CHECK_SUM_LEN as int)
}

/// A field-for-field copy of a transaction input.
pub fn clone_input(i: &TXInput) -> (r: TXInput)
    ensures
        r@ == i@,
{
    TXInput {
        txid: vstd::slice::slice_to_vec(i.txid.as_slice()),
        vout: i.vout,
        signature: vstd::slice::slice_to_vec(i.signature.as_slice()),
        pub_key: vstd::slice::slice_to_vec(i.pub_key.as_slice()),
    }
}

/// A field-for-field copy of a transaction output.
pub fn clone_output(o: &TXOutput) -> (r: TXOutput)
    ensures
        r@ == o@,
{
    TXOutput { value: o.value, pub_key_hash: vstd::slice::slice_to_vec(o.pub_key_hash.as_slice()) }
}

/// A deep copy of a list of inputs, in order.
pub fn clone_inputs(v: &Vec<TXInput>) -> (r: Vec<TXInput>)
    ensures
        r@.map_values(|x: TXInput| x@) == v@.map_values(|x: TXInput| x@),
{
    let mut vin: Vec<TXInput> = Vec::new();
    let n1 = v.len();
    let mut i: usize = 0;
    while i < n1
        invariant
            i <= n1,
            n1 == v@.len(),
            vin@.len() == i,
            forall|k: int| 0 <= k < i ==> #[trigger] vin@[k]@ == v@[k]@,
        decreases n1 - i,
    {
        vin.push(clone_input(&v[i]));
        i = i + 1;
    }
    assert(vin@.map_values(|x: TXInput| x@) =~= v@.map_values(|x: TXInput| x@));
    vin
}

/// A deep copy of a list of outputs, in order.
pub fn clone_outputs(v: &Vec<TXOutput>) -> (r: Vec<TXOutput>)
    ensures
        r@.map_values(|x: TXOutput| x@) == v@.map_values(|x: TXOutput| x@),
{
    let mut vout: Vec<TXOutput> = Vec::new();
    let n2 = v.len();
    let mut j: usize = 0;
    while j < n2
        invariant
            j <= n2,
            n2 == v@.len(),
            vout@.len() == j,
            forall|k: int| 0 <= k < j ==> #[trigger] vout@[k]@ == v@[k]@,
        decreases n2 - j,
    {
        vout.push(clone_output(&v[j]));
        j = j + 1;
    }
    assert(vout@.map_values(|x: TXOutput| x@) =~= v@.map_values(|x: TXOutput| x@));
    vout
}

/// A field-for-field copy of a transaction.
pub fn clone_transaction(t: &Transaction) -> (r: Transaction)
    ensures
        r@ == t@,
{
    Transaction {
        id: vstd::slice::slice_to_vec(t.id.as_slice()),
        vin: clone_inputs(&t.vin),
        vout: clone_outputs(&t.vout),
    }
}

/// A deep copy of a list of transactions, in order.
pub fn clone_transactions(ts: &Vec<Transaction>) -> (r: Vec<Transaction>)
    ensures
        r@.map_values(|t: Transaction| t@) == ts@.map_values(|t: Transaction| t@),
{
    let mut out: Vec<Transaction> = Vec::new();
    let n = ts.len();
    let mut i: usize = 0;
    while i < n
        invariant
            i <= n,
            n == ts@.len(),
            out@.len() == i,
            forall|k: int| 0 <= k < i ==> #[trigger] out@[k]@ == ts@[k]@,
        decreases n - i,
    {
        out.push(clone_transaction(&ts[i]));
        i = i + 1;
    }
    assert(out@.map_values(|t: Transaction| t@) =~= ts@.map_values(|t: Transaction| t@));
    out
}

/// The public-key hash a decoded address payload carries; fails when the
/// payload is too short to strip the version byte and the checksum.
pub fn payload_to_pub_key_hash(payload: &[u8]) -> (r: Result<Vec<u8>, crate::TxError>)
    ensures
        payload@.len() > ADDRESS_CHECK_SUM_LEN ==> (r matches Ok(v) && v@
            == spec_payload_pub_key_hash(payload@)),
        payload@.len() <= ADDRESS_CHECK_SUM_LEN ==> r == Err::<Vec<u8>, crate::TxError>(
            crate::TxError::AddressInvalid,
        ),
{
    let n = payload.len();
    if n <= ADDRESS_CHECK_SUM_LEN {
        return Err(crate::TxError::AddressInvalid);
    }
    let mut pub_key_hash: Vec<u8> = Vec::new();
    let mut i: usize = 1;
    while i < n - ADDRESS_CHECK_SUM_LEN
        invariant
            1 <= i <= n - ADDRESS_CHECK_SUM_LEN,
            n == payload@.len(),
            n > ADDRESS_CHECK_SUM_LEN,
            pub_key_hash@ == payload@.subrange(1, i as int),
        decreases n - ADDRESS_CHECK_SUM_LEN - i,
    {
        pub_key_hash.push(*vstd::slice::slice_index_get(payload, i));
        assert(pub_key_hash@ =~= payload@.subrange(1, i + 1 as int));
        i = i + 1;
    }
    Ok(pub_key_hash)
}

/// The shape of the spend a selection determines: one input per selected
/// output and the pay output, with change back to the sender when the
/// selection exceeds the amount. The signing message of each input is a
/// function of this shape alone (the trimming clears ids, signatures and
/// keys), so the messages are fixed before any signing happens.
pub open spec fn spec_spend_shape(
    picked: Seq<crate::utxo_set::SpendableV>,
    amount: i32,
    to_pkh: Seq<u8>,
    from_pkh: Seq<u8>,
    sender_pub_key: Seq<u8>,
) -> TransactionV {
    TransactionV {
        id: Seq::empty(),
        vin: Seq::new(
            picked.len(),
            |k: int| TXInputV {
                txid: picked[k].txid,
                vout: picked[k].index,
                signature: Seq::empty(),
                pub_key: sender_pub_key,
            },
        ),
        vout: if crate::utxo_set::sum_values(picked) > amount {
            seq![
                TXOutputV { value: amount, pub_key_hash: to_pkh },
                TXOutputV {
                    value: (crate::utxo_set::sum_values(picked) - amount) as i32,
                    pub_key_hash: from_pkh,
                },
            ]
        } else {
            seq![TXOutputV { value: amount, pub_key_hash: to_pkh }]
        },
    }
}

/// The signing message reads only each input's reference and the outputs,
/// so two transactions that agree on those have the same message.
pub proof fn lemma_message_same(a: TransactionV, b: TransactionV, i: int, pkh: Seq<u8>)
    requires
        a.vout == b.vout,
        a.vin.len() == b.vin.len(),
        forall|j: int|
            0 <= j < a.vin.len() ==> (#[trigger] a.vin[j]).txid == b.vin[j].txid && a.vin[j].vout
                == b.vin[j].vout,
        0 <= i < a.vin.len(),
    ensures
        spec_message(a, i, pkh) == spec_message(b, i, pkh),
{
    assert(spec_message_form(a, i, pkh).vin =~= spec_message_form(b, i, pkh).vin);
}

impl TXInput {
    /// A bare reference to an earlier output, with no signature and no
    /// public key yet.
    pub fn new(txid: &[u8], vout: usize) -> (r: TXInput)
        ensures
            r@ == (TXInputV { txid: txid@, vout, signature: Seq::<u8>::empty(), pub_key: Seq::<u8>::empty() }),
    {
        let r = TXInput {
            txid: vstd::slice::slice_to_vec(txid),
            vout,
            signature: Vec::new(),
            pub_key: Vec::new(),
        };
        assert(r@.signature =~= Seq::<u8>::empty());
        assert(r@.pub_key =~= Seq::<u8>::empty());
        r
    }

    pub fn get_txid(&self) -> (r: &[u8])
        ensures
            r@ == self@.txid,
    {
        self.txid.as_slice()
    }

    pub fn get_vout(&self) -> (r: usize)
        ensures
            r == self@.vout,
    {
        self.vout
    }

    pub fn get_pub_key(&self) -> (r: &[u8])
        ensures
            r@ == self@.pub_key,
    {
        self.pub_key.as_slice()
    }
}

impl TXOutput {
    /// An output of the given amount locked to the address whose decoded
    /// payload is supplied; fails when the payload is too short to strip.
    pub fn new(value: i32, address_payload: &[u8]) -> (r: Result<TXOutput, TxError>)
        ensures
            address_payload@.len() > ADDRESS_CHECK_SUM_LEN ==> (r matches Ok(o) && o@ == (TXOutputV {
                value,
                pub_key_hash: spec_payload_pub_key_hash(address_payload@),
            })),
            address_payload@.len() <= ADDRESS_CHECK_SUM_LEN ==> r == Err::<TXOutput, TxError>(
                TxError::AddressInvalid,
            ),
    {
        let mut output = TXOutput { value, pub_key_hash: Vec::new() };
        match output.lock(address_payload) {
            Ok(()) => Ok(output),
            Err(e) => Err(e),
        }
    }

    /// Locks this output to the owner of the supplied address payload by
    /// stripping the version byte and the checksum.
    pub fn lock(&mut self, address_payload: &[u8]) -> (r: Result<(), TxError>)
        ensures
            address_payload@.len() > ADDRESS_CHECK_SUM_LEN ==> r == Ok::<(), TxError>(())
                && final(self)@ == (TXOutputV {
                value: old(self)@.value,
                pub_key_hash: spec_payload_pub_key_hash(address_payload@),
            }),
            address_payload@.len() <= ADDRESS_CHECK_SUM_LEN ==> r == Err::<(), TxError>(
                TxError::AddressInvalid,
            ) && final(self)@ == old(self)@,
    {
        match payload_to_pub_key_hash(address_payload) {
            Ok(v) => {
                self.pub_key_hash = v;
                Ok(())
            },
            Err(e) => Err(e),
        }
    }

    pub fn get_value(&self) -> (r: i32)
        ensures
            r == self@.value,
    {
        self.value
    }

    pub fn get_pub_key_hash(&self) -> (r: &[u8])
        ensures
            r@ == self@.pub_key_hash,
    {
        self.pub_key_hash.as_slice()
    }
}

/// The same transaction with its id cleared: the form whose encoding is
/// hashed, so that the id is never part of its own hash input.
pub open spec fn spec_tx_cleared(t: TransactionV) -> TransactionV {
    TransactionV { id: Seq::empty(), vin: t.vin, vout: t.vout }
}

/// The canonical hash of a transaction: SHA-256 over the encoding of its
/// cleared form. This value is the transaction id, and, after the trimming
/// transformation, also the per-input signing message.
pub open spec fn spec_tx_hash(t: TransactionV) -> Seq<u8> {
    crate::crypto::sha256_of(crate::codec::enc_tx(spec_tx_cleared(t)))
}

/// An input reduced to its reference: signature and public key cleared.
pub open spec fn spec_trim_input(i: TXInputV) -> TXInputV {
    TXInputV { txid: i.txid, vout: i.vout, signature: Seq::empty(), pub_key: Seq::empty() }
}

/// The trimmed copy of a transaction: every input reduced to its reference,
/// outputs and id unchanged.
pub open spec fn spec_trimmed(t: TransactionV) -> TransactionV {
    TransactionV {
        id: t.id,
        vin: t.vin.map_values(|i: TXInputV| spec_trim_input(i)),
        vout: t.vout,
    }
}

/// The transaction form whose hash is the signing message for input `i`:
/// the trimmed copy with that one input's public key replaced by the
/// referenced output's public-key hash, and the id cleared.
pub open spec fn spec_message_form(t: TransactionV, i: int, pkh: Seq<u8>) -> TransactionV {
    TransactionV {
        id: Seq::empty(),
        vin: spec_trimmed(t).vin.update(
            i,
            TXInputV {
                txid: t.vin[i].txid,
                vout: t.vin[i].vout,
                signature: Seq::empty(),
                pub_key: pkh,
            },
        ),
        vout: t.vout,
    }
}

/// The signing message for input `i` of a transaction, given the public-key
/// hash of the output that input spends.
pub open spec fn spec_message(t: TransactionV, i: int, pkh: Seq<u8>) -> Seq<u8> {
    crate::crypto::sha256_of(crate::codec::enc_tx(spec_message_form(t, i, pkh)))
}

/// The verification verdict from input `i` onward: a missing or too-short
/// referenced transaction is an error, a failed signature check makes the
/// verdict false, and a transaction with no inputs left to check is valid.
pub open spec fn spec_verify_from(c: Seq<crate::block::BlockV>, t: TransactionV, i: int) -> Result<
    bool,
    crate::TxError,
>
    decreases t.vin.len() - i,
{
    if i < 0 || i >= t.vin.len() {
        Ok(true)
    } else {
        match crate::blockchain::spec_find_transaction(c, t.vin[i].txid) {
            None => Err(crate::TxError::PreviousTransactionMissing),
            Some(prev) => if t.vin[i].vout >= prev.vout.len() {
                Err(crate::TxError::PreviousTransactionMissing)
            } else {
                if crate::crypto::ecdsa_verifies(
                    t.vin[i].pub_key,
                    t.vin[i].signature,
                    spec_message(t, i, prev.vout[t.vin[i].vout as int].pub_key_hash),
                ) {
                    spec_verify_from(c, t, i + 1)
                } else {
                    Ok(false)
                }
            },
        }
    }
}

/// The verification verdict of a whole transaction against a chain:
/// coinbase transactions are trivially valid.
pub open spec fn spec_verify(c: Seq<crate::block::BlockV>, t: TransactionV) -> Result<
    bool,
    crate::TxError,
> {
    if spec_is_coinbase(t) {
        Ok(true)
    } else {
        spec_verify_from(c, t, 0)
    }
}

/// A transaction a block may carry: coinbase, or verified valid.
pub open spec fn spec_tx_valid(c: Seq<crate::block::BlockV>, t: TransactionV) -> bool {
    spec_verify(c, t) == Ok::<bool, crate::TxError>(true)
}

impl Transaction {
    /// The canonical hash: a copy with the id cleared is encoded and hashed.
    pub fn hash(&self) -> (r: Vec<u8>)
        ensures
            r@ == spec_tx_hash(self@),
            r@.len() == 32,
    {
        let tx_copy = Transaction {
            id: Vec::new(),
            vin: clone_inputs(&self.vin),
            vout: clone_outputs(&self.vout),
        };
        assert(tx_copy@.id =~= spec_tx_cleared(self@).id);
        assert(tx_copy@ == spec_tx_cleared(self@));
        let bytes = match tx_copy.serialize() {
            Ok(b) => b,
            Err(_) => { proof { assert(false); } Vec::new() },
        };
        crate::crypto::sha256_digest(bytes.as_slice())
    }

    /// Every input reduced to `(txid, vout)`; outputs and id kept.
    pub fn trimmed_copy(&self) -> (r: Transaction)
        ensures
            r@ == spec_trimmed(self@),
    {
        let mut inputs: Vec<TXInput> = Vec::new();
        let n = self.vin.len();
        let mut i: usize = 0;
        while i < n
            invariant
                i <= n,
                n == self.vin@.len(),
                inputs@.len() == i,
                forall|k: int|
                    0 <= k < i ==> #[trigger] inputs@[k]@ == spec_trim_input(self.vin@[k]@),
            decreases n - i,
        {
            inputs.push(TXInput::new(self.vin[i].txid.as_slice(), self.vin[i].vout));
            i = i + 1;
        }
        let r = Transaction {
            id: vstd::slice::slice_to_vec(self.id.as_slice()),
            vin: inputs,
            vout: clone_outputs(&self.vout),
        };
        assert(r@.vin =~= spec_trimmed(self@).vin);
        assert(r@ == spec_trimmed(self@));
        r
    }

    /// The subsidy-issuing transaction of a block: one input with empty
    /// reference and public key and a random signature seed (so that two
    /// rewards to the same address still get distinct ids), and one output
    /// locking the subsidy to the given address payload.
    pub fn new_coinbase_tx(to_address_payload: &[u8]) -> (r: Result<Transaction, crate::TxError>)
        ensures
            to_address_payload@.len() > ADDRESS_CHECK_SUM_LEN ==> (r matches Ok(t) && {
                &&& spec_is_coinbase(t@)
                &&& t@.vin[0].txid.len() == 0
                &&& t@.vin[0].vout == 0
                &&& t@.vin[0].signature.len() == 16
                &&& t@.vout == seq![
                    TXOutputV {
                        value: SUBSIDY,
                        pub_key_hash: spec_payload_pub_key_hash(to_address_payload@),
                    },
                ]
                &&& t@.id == spec_tx_hash(t@)
                &&& wf_tx(t@)
            }),
            to_address_payload@.len() <= ADDRESS_CHECK_SUM_LEN ==> r == Err::<
                Transaction,
                crate::TxError,
            >(crate::TxError::AddressInvalid),
    {
        let txout = match TXOutput::new(SUBSIDY, to_address_payload) {
            Ok(o) => o,
            Err(e) => { return Err(e); },
        };
        let tx_input = TXInput {
            txid: Vec::new(),
            vout: 0,
            signature: crate::crypto::random_signature_seed(),
            pub_key: Vec::new(),
        };
        let mut vin: Vec<TXInput> = Vec::new();
        vin.push(tx_input);
        let mut vout: Vec<TXOutput> = Vec::new();
        vout.push(txout);
        let mut tx = Transaction { id: Vec::new(), vin, vout };
        let id = tx.hash();
        let ghost before = tx@;
        tx.id = id;
        proof {
            assert(spec_tx_cleared(tx@).id =~= spec_tx_cleared(before).id);
            assert(spec_tx_cleared(tx@) == spec_tx_cleared(before));
            assert(tx@.vout =~= seq![
                TXOutputV {
                    value: SUBSIDY,
                    pub_key_hash: spec_payload_pub_key_hash(to_address_payload@),
                },
            ]);
        }
        Ok(tx)
    }

    pub fn get_id(&self) -> (r: &[u8])
        ensures
            r@ == self@.id,
    {
        self.id.as_slice()
    }

    /// Builds a spend of `amount` from one owner to another: unspent
    /// outputs of the sender are selected first-fit until they cover the
    /// amount, one input is made per selected output, one output pays the
    /// recipient, change (if any) returns to the sender, and every input is
    /// signed over its canonical signing message.
    pub fn new_utxo_transaction(
        from_payload: &[u8],
        to_payload: &[u8],
        amount: i32,
        utxo_set: &crate::utxo_set::UTXOSet,
        sender_pub_key: &[u8],
        sender_secret_key: &[u8],
    ) -> (r: Result<Transaction, crate::TxError>)
        requires
            amount > 0,
        ensures
            r == Err::<Transaction, crate::TxError>(crate::TxError::AddressInvalid) <==> (
            from_payload@.len() <= ADDRESS_CHECK_SUM_LEN || (to_payload@.len()
                <= ADDRESS_CHECK_SUM_LEN && crate::utxo_set::spec_pick(
                crate::utxo_set::spec_candidates(
                    utxo_set.index(),
                    spec_payload_pub_key_hash(from_payload@),
                ),
                amount as int,
            ) is Some)),
            r == Err::<Transaction, crate::TxError>(crate::TxError::InsufficientFunds) <==> (
            from_payload@.len() > ADDRESS_CHECK_SUM_LEN && crate::utxo_set::spec_pick(
                crate::utxo_set::spec_candidates(
                    utxo_set.index(),
                    spec_payload_pub_key_hash(from_payload@),
                ),
                amount as int,
            ) is None),
            r == Err::<Transaction, crate::TxError>(crate::TxError::KeyInvalid) <==> (
            from_payload@.len() > ADDRESS_CHECK_SUM_LEN && to_payload@.len()
                > ADDRESS_CHECK_SUM_LEN && crate::utxo_set::spec_pick(
                crate::utxo_set::spec_candidates(
                    utxo_set.index(),
                    spec_payload_pub_key_hash(from_payload@),
                ),
                amount as int,
            ) is Some && ({
                let pkh = spec_payload_pub_key_hash(from_payload@);
                let picked = crate::utxo_set::spec_pick(
                    crate::utxo_set::spec_candidates(utxo_set.index(), pkh),
                    amount as int,
                ).unwrap();
                exists|k: int|
                    0 <= k < picked.len() && !crate::crypto::p256_sign_ok(
                        sender_secret_key@,
                        spec_message(
                            spec_spend_shape(
                                picked,
                                amount,
                                spec_payload_pub_key_hash(to_payload@),
                                pkh,
                                sender_pub_key@,
                            ),
                            k,
                            pkh,
                        ),
                    )
            })),
            r is Err ==> r == Err::<Transaction, crate::TxError>(crate::TxError::AddressInvalid)
                || r == Err::<Transaction, crate::TxError>(crate::TxError::InsufficientFunds) || r
                == Err::<Transaction, crate::TxError>(crate::TxError::KeyInvalid),
            r matches Ok(t) ==> ({
                let pkh = spec_payload_pub_key_hash(from_payload@);
                let picked = crate::utxo_set::spec_pick(
                    crate::utxo_set::spec_candidates(utxo_set.index(), pkh),
                    amount as int,
                ).unwrap();
                let total = crate::utxo_set::sum_values(picked);
                &&& crate::utxo_set::spec_pick(
                    crate::utxo_set::spec_candidates(utxo_set.index(), pkh),
                    amount as int,
                ) is Some
                &&& total >= amount
                &&& t@.vin.len() == picked.len()
                &&& forall|k: int|
                    0 <= k < picked.len() ==> (#[trigger] t@.vin[k]).txid == picked[k].txid
                        && t@.vin[k].vout == picked[k].index && t@.vin[k].pub_key
                        == sender_pub_key@
                &&& forall|k: int|
                    0 <= k < picked.len() ==> (#[trigger] t@.vin[k]).signature
                        == crate::crypto::ecdsa_sign_of(
                        sender_secret_key@,
                        spec_message(t@, k, pkh),
                    )
                &&& t@.vout == (if total > amount {
                    seq![
                        TXOutputV {
                            value: amount,
                            pub_key_hash: spec_payload_pub_key_hash(to_payload@),
                        },
                        TXOutputV { value: (total - amount) as i32, pub_key_hash: pkh },
                    ]
                } else {
                    seq![
                        TXOutputV {
                            value: amount,
                            pub_key_hash: spec_payload_pub_key_hash(to_payload@),
                        },
                    ]
                })
            }),
    {
        let from_pkh = match payload_to_pub_key_hash(from_payload) {
            Ok(v) => v,
            Err(e) => { return Err(e); },
        };
        let ghost pkh = spec_payload_pub_key_hash(from_payload@);
        let (picked, total) = match utxo_set.find_spendable_outputs(from_pkh.as_slice(), amount) {
            None => { return Err(crate::TxError::InsufficientFunds); },
            Some(p) => p,
        };
        let ghost pm = picked@.map_values(|s: crate::utxo_set::Spendable| s@);
        let ghost to_pkh = spec_payload_pub_key_hash(to_payload@);
        let ghost shape = spec_spend_shape(pm, amount, to_pkh, pkh, sender_pub_key@);
        let to_out = match TXOutput::new(amount, to_payload) {
            Ok(o) => o,
            Err(e) => { return Err(e); },
        };
        let mut vout: Vec<TXOutput> = Vec::new();
        vout.push(to_out);
        if total > amount as i64 {
            let change: i32 = (total - amount as i64) as i32;
            vout.push(
                TXOutput { value: change, pub_key_hash: vstd::slice::slice_to_vec(from_pkh.as_slice()) },
            );
            assert(vout@.map_values(|o: TXOutput| o@) =~= seq![
                TXOutputV { value: amount, pub_key_hash: spec_payload_pub_key_hash(to_payload@) },
                TXOutputV {
                    value: (crate::utxo_set::sum_values(pm) - amount) as i32,
                    pub_key_hash: pkh,
                },
            ]);
            assert(vout@.map_values(|o: TXOutput| o@) == shape.vout);
        } else {
            assert(vout@.map_values(|o: TXOutput| o@) =~= seq![
                TXOutputV { value: amount, pub_key_hash: spec_payload_pub_key_hash(to_payload@) },
            ]);
            assert(vout@.map_values(|o: TXOutput| o@) == shape.vout);
        }
        let mut vin: Vec<TXInput> = Vec::new();
        let np = picked.len();
        let mut k: usize = 0;
        while k < np
            invariant
                k <= np,
                np == picked@.len(),
                pm == picked@.map_values(|s: crate::utxo_set::Spendable| s@),
                vin@.len() == k,
                forall|j: int|
                    0 <= j < k ==> #[trigger] vin@[j]@ == (TXInputV {
                        txid: pm[j].txid,
                        vout: pm[j].index,
                        signature: Seq::<u8>::empty(),
                        pub_key: sender_pub_key@,
                    }),
            decreases np - k,
        {
            vin.push(
                TXInput {
                    txid: vstd::slice::slice_to_vec(picked[k].txid.as_slice()),
                    vout: picked[k].index,
                    signature: Vec::new(),
                    pub_key: vstd::slice::slice_to_vec(sender_pub_key),
                },
            );
            k = k + 1;
        }
        let mut tx = Transaction { id: Vec::new(), vin, vout };
        let id = tx.hash();
        tx.id = id;
        let ghost t0 = tx@;
        let mut tx_copy = tx.trimmed_copy();
        proof {
            assert(t0.vin.len() == np);
            assert(tx_copy@.vin.len() == tx_copy.vin@.len());
            assert(shape.vin.len() == np);
            assert forall|j: int|
                0 <= j < np implies (#[trigger] shape.vin[j]).txid == t0.vin[j].txid
                && shape.vin[j].vout == t0.vin[j].vout by {
                assert(t0.vin[j] == (TXInputV {
                    txid: pm[j].txid,
                    vout: pm[j].index,
                    signature: Seq::<u8>::empty(),
                    pub_key: sender_pub_key@,
                }));
            }
        }
        let mut s: usize = 0;
        while s < np
            invariant
                s <= np,
                np == t0.vin.len(),
                np == tx.vin@.len(),
                pm == picked@.map_values(|st: crate::utxo_set::Spendable| st@),
                tx@.vout == t0.vout,
                tx@.id == t0.id,
                tx@.vin.len() == t0.vin.len(),
                forall|j: int|
                    0 <= j < np ==> (#[trigger] tx@.vin[j]).txid == t0.vin[j].txid && tx@.vin[j].vout
                        == t0.vin[j].vout && tx@.vin[j].pub_key == t0.vin[j].pub_key,
                forall|j: int|
                    0 <= j < s ==> (#[trigger] tx@.vin[j]).signature
                        == crate::crypto::ecdsa_sign_of(
                        sender_secret_key@,
                        spec_message(t0, j, pkh),
                    ),
                tx_copy.vin@.len() == np,
                tx_copy@.vin == spec_trimmed(t0).vin,
                tx_copy@.vout == t0.vout,
                from_pkh@ == pkh,
                pkh == spec_payload_pub_key_hash(from_payload@),
                from_payload@.len() > ADDRESS_CHECK_SUM_LEN,
                to_payload@.len() > ADDRESS_CHECK_SUM_LEN,
                crate::utxo_set::spec_pick(
                    crate::utxo_set::spec_candidates(utxo_set.index(), pkh),
                    amount as int,
                ) == Some(pm),
                to_pkh == spec_payload_pub_key_hash(to_payload@),
                shape == spec_spend_shape(pm, amount, to_pkh, pkh, sender_pub_key@),
                shape.vout == t0.vout,
                shape.vin.len() == np,
                forall|j: int|
                    0 <= j < np ==> (#[trigger] shape.vin[j]).txid == t0.vin[j].txid
                        && shape.vin[j].vout == t0.vin[j].vout,
                forall|j: int|
                    0 <= j < s ==> crate::crypto::p256_sign_ok(
                        sender_secret_key@,
                        #[trigger] spec_message(t0, j, pkh),
                    ),
            decreases np - s,
        {
            let msg_input = TXInput {
                txid: vstd::slice::slice_to_vec(tx.vin[s].txid.as_slice()),
                vout: tx.vin[s].vout,
                signature: Vec::new(),
                pub_key: vstd::slice::slice_to_vec(from_pkh.as_slice()),
            };
            vstd::pervasive::VecAdditionalExecFns::set(&mut tx_copy.vin, s, msg_input);
            proof {
                assert(tx@.vin[s as int].txid == t0.vin[s as int].txid && tx@.vin[s as int].vout
                    == t0.vin[s as int].vout);
                assert(tx_copy@.vin =~= spec_message_form(t0, s as int, pkh).vin);
                assert(spec_tx_cleared(tx_copy@).id =~= spec_message_form(t0, s as int, pkh).id);
                assert(spec_tx_cleared(tx_copy@) == spec_message_form(t0, s as int, pkh));
            }
            let msg = tx_copy.hash();
            assert(msg@ == spec_message(t0, s as int, pkh));
            vstd::pervasive::VecAdditionalExecFns::set(
                &mut tx_copy.vin,
                s,
                TXInput::new(tx.vin[s].txid.as_slice(), tx.vin[s].vout),
            );
            proof {
                assert(tx@.vin[s as int].txid == t0.vin[s as int].txid && tx@.vin[s as int].vout
                    == t0.vin[s as int].vout);
                assert(spec_trimmed(t0).vin[s as int] == spec_trim_input(t0.vin[s as int]));
                assert(tx_copy@.vin =~= spec_trimmed(t0).vin);
            }
            let sig = match crate::crypto::ecdsa_p256_sign(sender_secret_key, msg.as_slice()) {
                None => {
                    proof {
                        lemma_message_same(t0, shape, s as int, pkh);
                        assert(0 <= s < pm.len() && !crate::crypto::p256_sign_ok(
                            sender_secret_key@,
                            spec_message(shape, s as int, pkh),
                        ));
                    }
                    return Err(crate::TxError::KeyInvalid);
                },
                Some(sg) => sg,
            };
            let ghost prev_vin = tx@.vin;
            let ghost sigv = sig@;
            let signed_input = TXInput {
                txid: vstd::slice::slice_to_vec(tx.vin[s].txid.as_slice()),
                vout: tx.vin[s].vout,
                signature: sig,
                pub_key: vstd::slice::slice_to_vec(tx.vin[s].pub_key.as_slice()),
            };
            vstd::pervasive::VecAdditionalExecFns::set(&mut tx.vin, s, signed_input);
            proof {
                assert(tx@.vin =~= prev_vin.update(
                    s as int,
                    TXInputV {
                        txid: prev_vin[s as int].txid,
                        vout: prev_vin[s as int].vout,
                        signature: sigv,
                        pub_key: prev_vin[s as int].pub_key,
                    },
                ));
            }
            s = s + 1;
        }
        proof {
            assert forall|j: int| 0 <= j < np implies spec_message(t0, j, pkh) == spec_message(
                tx@,
                j,
                pkh,
            ) by {
                lemma_message_same(t0, tx@, j, pkh);
            }
            assert forall|j: int| 0 <= j < np implies crate::crypto::p256_sign_ok(
                sender_secret_key@,
                #[trigger] spec_message(shape, j, pkh),
            ) by {
                lemma_message_same(t0, shape, j, pkh);
            }
        }
        Ok(tx)
    }

    /// Verifies every input signature of this transaction against the
    /// chain, resolving each referenced transaction by id; a reference that
    /// cannot be resolved is a recoverable error, a bad signature makes the
    /// whole transaction invalid.
    pub fn verify(&self, blockchain: &crate::blockchain::Blockchain) -> (r: Result<
        bool,
        crate::TxError,
    >)
        ensures
            r == spec_verify(blockchain@, self@),
    {
        if self.is_coinbase() {
            return Ok(true);
        }
        let ghost c = blockchain@;
        let ghost t = self@;
        let mut tx_copy = self.trimmed_copy();
        let n = self.vin.len();
        let mut idx: usize = 0;
        while idx < n
            invariant
                idx <= n,
                n == self.vin@.len(),
                t == self@,
                c == blockchain@,
                !spec_is_coinbase(t),
                tx_copy@.vin == spec_trimmed(t).vin,
                tx_copy@.vout == t.vout,
                spec_verify_from(c, t, 0) == spec_verify_from(c, t, idx as int),
            decreases n - idx,
        {
            let prev = blockchain.find_transaction(self.vin[idx].txid.as_slice());
            match prev {
                None => {
                    return Err(crate::TxError::PreviousTransactionMissing);
                },
                Some(prev_tx) => {
                    let v = self.vin[idx].vout;
                    if v >= prev_tx.vout.len() {
                        return Err(crate::TxError::PreviousTransactionMissing);
                    }
                    let ghost pkh = prev_tx@.vout[v as int].pub_key_hash;
                    let msg_input = TXInput {
                        txid: vstd::slice::slice_to_vec(self.vin[idx].txid.as_slice()),
                        vout: v,
                        signature: Vec::new(),
                        pub_key: vstd::slice::slice_to_vec(
                            prev_tx.vout[v].pub_key_hash.as_slice(),
                        ),
                    };
                    vstd::pervasive::VecAdditionalExecFns::set(&mut tx_copy.vin, idx, msg_input);
                    proof {
                        assert(tx_copy@.vin =~= spec_message_form(t, idx as int, pkh).vin);
                        assert(spec_tx_cleared(tx_copy@).id =~= spec_message_form(
                            t,
                            idx as int,
                            pkh,
                        ).id);
                        assert(spec_tx_cleared(tx_copy@) == spec_message_form(t, idx as int, pkh));
                    }
                    let msg = tx_copy.hash();
                    assert(msg@ == spec_message(t, idx as int, pkh));
                    let ok = crate::crypto::ecdsa_p256_verify(
                        self.vin[idx].pub_key.as_slice(),
                        self.vin[idx].signature.as_slice(),
                        msg.as_slice(),
                    );
                    vstd::pervasive::VecAdditionalExecFns::set(
                        &mut tx_copy.vin,
                        idx,
                        TXInput::new(self.vin[idx].txid.as_slice(), v),
                    );
                    proof {
                        assert(tx_copy@.vin =~= spec_trimmed(t).vin);
                    }
                    if !ok {
                        return Ok(false);
                    }
                },
            }
            idx = idx + 1;
        }
        Ok(true)
    }

    /// Whether this transaction is the subsidy-issuing transaction of a
    /// block: one single input whose public key is empty.
    pub fn is_coinbase(&self) -> (r: bool)
        ensures
            r == spec_is_coinbase(self@),
    {
        self.vin.len() == 1 && self.vin[0].pub_key.len() == 0
    }

    pub fn get_vout(&self) -> (r: &[TXOutput])
        ensures
            r@.map_values(|x: TXOutput| x@) == self@.vout,
    {
        self.vout.as_slice()
    }

    pub fn get_vin(&self) -> (r: &[TXInput])
        ensures
            r@.map_values(|x: TXInput| x@) == self@.vin,
    {
        self.vin.as_slice()
    }
}

} // verus!
