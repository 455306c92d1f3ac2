//! Canonical byte encoding of transactions and blocks.
//!
//! Transaction ids and signing messages are hashes of this encoding, so it
//! must be deterministic; blocks are persisted through it, so it must
//! round-trip exactly. Every value is length-prefixed with eight big-endian
//! bytes, making the encoding self-delimiting.

use vstd::prelude::*;

verus! {

use crate::transaction::{TXInput, TXInputV, TXOutput, TXOutputV, Transaction, TransactionV};

/// The eight big-endian bytes of a 64-bit value.
pub open spec fn enc_u64(x: u64) -> Seq<u8> {
    seq![
        ((x >> 56) & 0xff) as u8,
        ((x >> 48) & 0xff) as u8,
        ((x >> 40) & 0xff) as u8,
        ((x >> 32) & 0xff) as u8,
        ((x >> 24) & 0xff) as u8,
        ((x >> 16) & 0xff) as u8,
        ((x >> 8) & 0xff) as u8,
        (x & 0xff) as u8,
    ]
}

/// The 64-bit value eight big-endian bytes hold.
pub open spec fn dec_u64(s: Seq<u8>) -> u64
    recommends
        s.len() == 8,
{
    ((s[0] as u64) << 56) | ((s[1] as u64) << 48) | ((s[2] as u64) << 40) | ((s[3] as u64) << 32)
        | ((s[4] as u64) << 24) | ((s[5] as u64) << 16) | ((s[6] as u64) << 8) | (s[7] as u64)
}

pub proof fn lemma_dec_enc_u64(x: u64)
    ensures
        dec_u64(enc_u64(x)) == x,
{
    assert(((((x >> 56) & 0xff) as u8 as u64) << 56) | ((((x >> 48) & 0xff) as u8 as u64) << 48)
        | ((((x >> 40) & 0xff) as u8 as u64) << 40) | ((((x >> 32) & 0xff) as u8 as u64) << 32)
        | ((((x >> 24) & 0xff) as u8 as u64) << 24) | ((((x >> 16) & 0xff) as u8 as u64) << 16)
        | ((((x >> 8) & 0xff) as u8 as u64) << 8) | ((x & 0xff) as u8 as u64) == x) by (bit_vector);
}

/// A 64-bit value followed by the rest of the input.
pub open spec fn parse_u64(s: Seq<u8>) -> Option<(u64, Seq<u8>)> {
    if s.len() >= 8 {
        Some((dec_u64(s.take(8)), s.skip(8)))
    } else {
        None
    }
}

pub proof fn lemma_parse_enc_u64(x: u64, rest: Seq<u8>)
    ensures
        parse_u64(enc_u64(x) + rest) == Some((x, rest)),
{
    let s = enc_u64(x) + rest;
    assert(s.take(8) =~= enc_u64(x));
    assert(s.skip(8) =~= rest);
    lemma_dec_enc_u64(x);
}

/// A byte string, length-prefixed.
pub open spec fn enc_bytes(b: Seq<u8>) -> Seq<u8> {
    enc_u64(b.len() as u64) + b
}

/// A length-prefixed byte string followed by the rest of the input.
pub open spec fn parse_bytes(s: Seq<u8>) -> Option<(Seq<u8>, Seq<u8>)> {
    match parse_u64(s) {
        Some((n, rest)) => if rest.len() >= n {
            Some((rest.take(n as int), rest.skip(n as int)))
        } else {
            None
        },
        None => None,
    }
}

pub proof fn lemma_parse_enc_bytes(b: Seq<u8>, rest: Seq<u8>)
    requires
        b.len() <= usize::MAX,
    ensures
        parse_bytes(enc_bytes(b) + rest) == Some((b, rest)),
{
    let s = enc_bytes(b) + rest;
    assert(s =~= enc_u64(b.len() as u64) + (b + rest));
    lemma_parse_enc_u64(b.len() as u64, b + rest);
    let n = b.len() as u64;
    assert((b + rest).take(n as int) =~= b);
    assert((b + rest).skip(n as int) =~= rest);
}

/// One transaction input: reference, output index, authorization material.
pub open spec fn enc_input(i: TXInputV) -> Seq<u8> {
    enc_bytes(i.txid) + enc_u64(i.vout as u64) + enc_bytes(i.signature) + enc_bytes(i.pub_key)
}

pub open spec fn parse_input(s: Seq<u8>) -> Option<(TXInputV, Seq<u8>)> {
    match parse_bytes(s) {
        None => None,
        Some((txid, s1)) => match parse_u64(s1) {
            None => None,
            Some((v, s2)) => if v <= usize::MAX as u64 {
                match parse_bytes(s2) {
                    None => None,
                    Some((sig, s3)) => match parse_bytes(s3) {
                        None => None,
                        Some((pk, s4)) => Some(
                            (
                                TXInputV {
                                    txid,
                                    vout: v as usize,
                                    signature: sig,
                                    pub_key: pk,
                                },
                                s4,
                            ),
                        ),
                    },
                }
            } else {
                None
            },
        },
    }
}

/// Whether an input's byte strings fit in memory; true of every input held
/// in an executable vector.
pub open spec fn bounded_input(i: TXInputV) -> bool {
    i.txid.len() <= usize::MAX && i.signature.len() <= usize::MAX && i.pub_key.len() <= usize::MAX
}

pub proof fn lemma_parse_enc_input(i: TXInputV, rest: Seq<u8>)
    requires
        bounded_input(i),
    ensures
        parse_input(enc_input(i) + rest) == Some((i, rest)),
{
    let t1 = enc_u64(i.vout as u64) + (enc_bytes(i.signature) + (enc_bytes(i.pub_key) + rest));
    assert(enc_input(i) + rest =~= enc_bytes(i.txid) + t1);
    lemma_parse_enc_bytes(i.txid, t1);
    let t2 = enc_bytes(i.signature) + (enc_bytes(i.pub_key) + rest);
    lemma_parse_enc_u64(i.vout as u64, t2);
    let t3 = enc_bytes(i.pub_key) + rest;
    lemma_parse_enc_bytes(i.signature, t3);
    lemma_parse_enc_bytes(i.pub_key, rest);
    assert((i.vout as u64) as usize == i.vout);
}

/// One transaction output: amount (in two's complement), then the owning
/// public-key hash.
pub open spec fn enc_output(o: TXOutputV) -> Seq<u8> {
    enc_u64((o.value as u32) as u64) + enc_bytes(o.pub_key_hash)
}

pub open spec fn parse_output(s: Seq<u8>) -> Option<(TXOutputV, Seq<u8>)> {
    match parse_u64(s) {
        None => None,
        Some((v, s1)) => if v <= u32::MAX as u64 {
            match parse_bytes(s1) {
                None => None,
                Some((pkh, s2)) => Some(
                    (TXOutputV { value: (v as u32) as i32, pub_key_hash: pkh }, s2),
                ),
            }
        } else {
            None
        },
    }
}

/// Whether an output's hash fits in memory; true of every executable output.
pub open spec fn bounded_output(o: TXOutputV) -> bool {
    o.pub_key_hash.len() <= usize::MAX
}

pub proof fn lemma_parse_enc_output(o: TXOutputV, rest: Seq<u8>)
    requires
        bounded_output(o),
    ensures
        parse_output(enc_output(o) + rest) == Some((o, rest)),
{
    let t1 = enc_bytes(o.pub_key_hash) + rest;
    assert(enc_output(o) + rest =~= enc_u64((o.value as u32) as u64) + t1);
    lemma_parse_enc_u64((o.value as u32) as u64, t1);
    lemma_parse_enc_bytes(o.pub_key_hash, rest);
    let x = o.value;
    assert((((x as u32) as u64) as u32) as i32 == x) by (bit_vector);
}

/// All inputs of a transaction, in order.
pub open spec fn enc_inputs(l: Seq<TXInputV>) -> Seq<u8>
    decreases l.len(),
{
    if l.len() == 0 {
        Seq::empty()
    } else {
        enc_input(l[0]) + enc_inputs(l.drop_first())
    }
}

pub open spec fn parse_inputs(s: Seq<u8>, n: nat) -> Option<(Seq<TXInputV>, Seq<u8>)>
    decreases n,
{
    if n == 0 {
        Some((Seq::empty(), s))
    } else {
        match parse_input(s) {
            None => None,
            Some((i, s1)) => match parse_inputs(s1, (n - 1) as nat) {
                None => None,
                Some((l, s2)) => Some((seq![i] + l, s2)),
            },
        }
    }
}

pub proof fn lemma_enc_inputs_push(l: Seq<TXInputV>, x: TXInputV)
    ensures
        enc_inputs(l.push(x)) == enc_inputs(l) + enc_input(x),
    decreases l.len(),
{
    if l.len() == 0 {
        assert(l.push(x)[0] == x);
        assert(l.push(x).drop_first() =~= Seq::<TXInputV>::empty());
        assert(enc_inputs(l.push(x).drop_first()) =~= Seq::<u8>::empty());
        assert(enc_inputs(l.push(x)) =~= enc_input(x) + Seq::<u8>::empty());
        assert(enc_input(x) + Seq::<u8>::empty() =~= enc_input(x));
        assert(enc_inputs(l) + enc_input(x) =~= enc_input(x));
    } else {
        assert(l.push(x).drop_first() =~= l.drop_first().push(x));
        lemma_enc_inputs_push(l.drop_first(), x);
        assert(l.push(x)[0] == l[0]);
        assert(enc_input(l[0]) + (enc_inputs(l.drop_first()) + enc_input(x)) =~= (enc_input(l[0])
            + enc_inputs(l.drop_first())) + enc_input(x));
    }
}

#[verifier::spinoff_prover]
#[verifier::rlimit(100)]
pub proof fn lemma_parse_enc_inputs(l: Seq<TXInputV>, rest: Seq<u8>)
    requires
        forall|k: int| 0 <= k < l.len() ==> bounded_input(#[trigger] l[k]),
    ensures
        parse_inputs(enc_inputs(l) + rest, l.len()) == Some((l, rest)),
    decreases l.len(),
{
    if l.len() == 0 {
        assert(enc_inputs(l) + rest =~= rest);
        assert(l =~= Seq::<TXInputV>::empty());
    } else {
        let tail = l.drop_first();
        assert(enc_inputs(l) + rest =~= enc_input(l[0]) + (enc_inputs(tail) + rest));
        lemma_parse_enc_input(l[0], enc_inputs(tail) + rest);
        lemma_parse_enc_inputs(tail, rest);
        assert(seq![l[0]] + tail =~= l);
    }
}

/// All outputs of a transaction, in order.
pub open spec fn enc_outputs(l: Seq<TXOutputV>) -> Seq<u8>
    decreases l.len(),
{
    if l.len() == 0 {
        Seq::empty()
    } else {
        enc_output(l[0]) + enc_outputs(l.drop_first())
    }
}

pub open spec fn parse_outputs(s: Seq<u8>, n: nat) -> Option<(Seq<TXOutputV>, Seq<u8>)>
    decreases n,
{
    if n == 0 {
        Some((Seq::empty(), s))
    } else {
        match parse_output(s) {
            None => None,
            Some((o, s1)) => match parse_outputs(s1, (n - 1) as nat) {
                None => None,
                Some((l, s2)) => Some((seq![o] + l, s2)),
            },
        }
    }
}

pub proof fn lemma_enc_outputs_push(l: Seq<TXOutputV>, x: TXOutputV)
    ensures
        enc_outputs(l.push(x)) == enc_outputs(l) + enc_output(x),
    decreases l.len(),
{
    if l.len() == 0 {
        assert(l.push(x)[0] == x);
        assert(l.push(x).drop_first() =~= Seq::<TXOutputV>::empty());
        assert(enc_outputs(l.push(x).drop_first()) =~= Seq::<u8>::empty());
        assert(enc_outputs(l.push(x)) =~= enc_output(x) + Seq::<u8>::empty());
        assert(enc_output(x) + Seq::<u8>::empty() =~= enc_output(x));
        assert(enc_outputs(l) + enc_output(x) =~= enc_output(x));
    } else {
        assert(l.push(x).drop_first() =~= l.drop_first().push(x));
        lemma_enc_outputs_push(l.drop_first(), x);
        assert(l.push(x)[0] == l[0]);
        assert(enc_output(l[0]) + (enc_outputs(l.drop_first()) + enc_output(x)) =~= (enc_output(
            l[0],
        ) + enc_outputs(l.drop_first())) + enc_output(x));
    }
}

#[verifier::spinoff_prover]
#[verifier::rlimit(100)]
pub proof fn lemma_parse_enc_outputs(l: Seq<TXOutputV>, rest: Seq<u8>)
    requires
        forall|k: int| 0 <= k < l.len() ==> bounded_output(#[trigger] l[k]),
    ensures
        parse_outputs(enc_outputs(l) + rest, l.len()) == Some((l, rest)),
    decreases l.len(),
{
    if l.len() == 0 {
        assert(enc_outputs(l) + rest =~= rest);
        assert(l =~= Seq::<TXOutputV>::empty());
    } else {
        let tail = l.drop_first();
        assert(enc_outputs(l) + rest =~= enc_output(l[0]) + (enc_outputs(tail) + rest));
        lemma_parse_enc_output(l[0], enc_outputs(tail) + rest);
        lemma_parse_enc_outputs(tail, rest);
        assert(seq![l[0]] + tail =~= l);
    }
}

/// A whole transaction: id, then inputs, then outputs, each list preceded by
/// its length.
pub open spec fn enc_tx(t: TransactionV) -> Seq<u8> {
    enc_bytes(t.id) + enc_u64(t.vin.len() as u64) + enc_inputs(t.vin) + enc_u64(
        t.vout.len() as u64,
    ) + enc_outputs(t.vout)
}

#[verifier::opaque]
pub open spec fn parse_tx(s: Seq<u8>) -> Option<(TransactionV, Seq<u8>)> {
    match parse_bytes(s) {
        None => None,
        Some((id, s1)) => match parse_u64(s1) {
            None => None,
            Some((n1, s2)) => match parse_inputs(s2, n1 as nat) {
                None => None,
                Some((vin, s3)) => match parse_u64(s3) {
                    None => None,
                    Some((n2, s4)) => match parse_outputs(s4, n2 as nat) {
                        None => None,
                        Some((vout, s5)) => Some((TransactionV { id, vin, vout }, s5)),
                    },
                },
            },
        },
    }
}

/// Whether a transaction's parts fit in memory; true of every executable
/// transaction.
pub open spec fn bounded_tx(t: TransactionV) -> bool {
    &&& t.id.len() <= usize::MAX
    &&& t.vin.len() <= usize::MAX
    &&& t.vout.len() <= usize::MAX
    &&& forall|k: int| 0 <= k < t.vin.len() ==> bounded_input(#[trigger] t.vin[k])
    &&& forall|k: int| 0 <= k < t.vout.len() ==> bounded_output(#[trigger] t.vout[k])
}

/// The canonical encoding round-trips: parsing what was encoded gives back
/// exactly the transaction and leaves exactly the trailing input.
pub proof fn lemma_parse_enc_tx(t: TransactionV, rest: Seq<u8>)
    requires
        bounded_tx(t),
    ensures
        parse_tx(enc_tx(t) + rest) == Some((t, rest)),
{
    reveal(parse_tx);
    let t4 = enc_outputs(t.vout) + rest;
    let t3 = enc_u64(t.vout.len() as u64) + t4;
    let t2 = enc_inputs(t.vin) + t3;
    let t1 = enc_u64(t.vin.len() as u64) + t2;
    assert(enc_tx(t) + rest =~= enc_bytes(t.id) + t1);
    lemma_parse_enc_bytes(t.id, t1);
    lemma_parse_enc_u64(t.vin.len() as u64, t2);
    assert((t.vin.len() as u64) as nat == t.vin.len());
    lemma_parse_enc_inputs(t.vin, t3);
    lemma_parse_enc_u64(t.vout.len() as u64, t4);
    assert((t.vout.len() as u64) as nat == t.vout.len());
    lemma_parse_enc_outputs(t.vout, rest);
}

/// Whether two byte strings hold the same bytes.
pub fn bytes_equal(a: &[u8], b: &[u8]) -> (r: bool)
    ensures
        r == (a@ == b@),
{
    let n = a.len();
    if n != b.len() {
        assert(a@.len() != b@.len());
        return false;
    }
    let mut i: usize = 0;
    while i < n
        invariant
            i <= n,
            n == a@.len(),
            n == b@.len(),
            forall|k: int| 0 <= k < i ==> a@[k] == b@[k],
        decreases n - i,
    {
        if *vstd::slice::slice_index_get(a, i) != *vstd::slice::slice_index_get(b, i) {
            return false;
        }
        i = i + 1;
    }
    assert(a@ =~= b@);
    true
}

pub(crate) fn push_all(out: &mut Vec<u8>, b: &[u8])
    ensures
        final(out)@ == old(out)@ + b@,
{
    let n = b.len();
    let mut i: usize = 0;
    while i < n
        invariant
            i <= n,
            n == b@.len(),
            out@ == old(out)@ + b@.take(i as int),
        decreases n - i,
    {
        out.push(*vstd::slice::slice_index_get(b, i));
        assert(b@.take(i + 1 as int) =~= b@.take(i as int).push(b@[i as int]));
        i = i + 1;
    }
    assert(b@.take(n as int) =~= b@);
    assert(out@ =~= old(out)@ + b@);
}

pub(crate) fn push_u64_be(out: &mut Vec<u8>, x: u64)
    ensures
        final(out)@ == old(out)@ + enc_u64(x),
{
    out.push(((x >> 56) & 0xff) as u8);
    out.push(((x >> 48) & 0xff) as u8);
    out.push(((x >> 40) & 0xff) as u8);
    out.push(((x >> 32) & 0xff) as u8);
    out.push(((x >> 24) & 0xff) as u8);
    out.push(((x >> 16) & 0xff) as u8);
    out.push(((x >> 8) & 0xff) as u8);
    out.push((x & 0xff) as u8);
    assert(out@ =~= old(out)@ + enc_u64(x));
}

pub(crate) fn push_bytes(out: &mut Vec<u8>, b: &[u8])
    ensures
        final(out)@ == old(out)@ + enc_bytes(b@),
{
    let n = b.len();
    push_u64_be(out, n as u64);
    let mut i: usize = 0;
    while i < n
        invariant
            i <= n,
            n == b@.len(),
            out@ == old(out)@ + enc_u64(b@.len() as u64) + b@.take(i as int),
        decreases n - i,
    {
        out.push(*vstd::slice::slice_index_get(b, i));
        assert(b@.take(i + 1 as int) =~= b@.take(i as int).push(b@[i as int]));
        i = i + 1;
    }
    assert(b@.take(n as int) =~= b@);
    assert(out@ =~= old(out)@ + enc_bytes(b@));
}

pub(crate) fn push_input(out: &mut Vec<u8>, inp: &TXInput)
    ensures
        final(out)@ == old(out)@ + enc_input(inp@),
{
    push_bytes(out, inp.txid.as_slice());
    push_u64_be(out, inp.vout as u64);
    push_bytes(out, inp.signature.as_slice());
    push_bytes(out, inp.pub_key.as_slice());
    assert(out@ =~= old(out)@ + enc_input(inp@));
}

pub(crate) fn push_output(out: &mut Vec<u8>, o: &TXOutput)
    ensures
        final(out)@ == old(out)@ + enc_output(o@),
{
    push_u64_be(out, (o.value as u32) as u64);
    push_bytes(out, o.pub_key_hash.as_slice());
    assert(out@ =~= old(out)@ + enc_output(o@));
}

pub(crate) fn read_u64_be(buf: &[u8], pos: usize) -> (r: Option<(u64, usize)>)
    requires
        pos <= buf@.len(),
    ensures
        r matches Some(p) ==> parse_u64(buf@.skip(pos as int)) == Some(
            (p.0, buf@.skip(p.1 as int)),
        ) && pos < p.1 <= buf@.len(),
        r is None ==> parse_u64(buf@.skip(pos as int)) is None,
{
    if buf.len() - pos >= 8 {
        let b0 = *vstd::slice::slice_index_get(buf, pos);
        let b1 = *vstd::slice::slice_index_get(buf, pos + 1);
        let b2 = *vstd::slice::slice_index_get(buf, pos + 2);
        let b3 = *vstd::slice::slice_index_get(buf, pos + 3);
        let b4 = *vstd::slice::slice_index_get(buf, pos + 4);
        let b5 = *vstd::slice::slice_index_get(buf, pos + 5);
        let b6 = *vstd::slice::slice_index_get(buf, pos + 6);
        let b7 = *vstd::slice::slice_index_get(buf, pos + 7);
        let x = ((b0 as u64) << 56) | ((b1 as u64) << 48) | ((b2 as u64) << 40) | ((b3 as u64)
            << 32) | ((b4 as u64) << 24) | ((b5 as u64) << 16) | ((b6 as u64) << 8) | (b7 as u64);
        proof {
            let s = buf@.skip(pos as int);
            assert(s.take(8) =~= seq![b0, b1, b2, b3, b4, b5, b6, b7]);
            assert(s.skip(8) =~= buf@.skip(pos + 8 as int));
        }
        Some((x, pos + 8))
    } else {
        None
    }
}

pub(crate) fn read_bytes(buf: &[u8], pos: usize) -> (r: Option<(Vec<u8>, usize)>)
    requires
        pos <= buf@.len(),
    ensures
        r matches Some(p) ==> parse_bytes(buf@.skip(pos as int)) == Some(
            (p.0@, buf@.skip(p.1 as int)),
        ) && pos < p.1 <= buf@.len(),
        r is None ==> parse_bytes(buf@.skip(pos as int)) is None,
{
    match read_u64_be(buf, pos) {
        None => None,
        Some((n, p1)) => {
            if n <= (buf.len() - p1) as u64 {
                let m = n as usize;
                let blen = buf.len();
                let mut v: Vec<u8> = Vec::new();
                let mut i: usize = 0;
                while i < m
                    invariant
                        i <= m,
                        blen == buf@.len(),
                        p1 + m <= blen,
                        v@ == buf@.skip(p1 as int).take(m as int).take(i as int),
                    decreases m - i,
                {
                    let ghost pre = buf@.skip(p1 as int).take(m as int);
                    v.push(*vstd::slice::slice_index_get(buf, p1 + i));
                    assert(pre.take(i + 1 as int) =~= pre.take(i as int).push(pre[i as int]));
                    i = i + 1;
                }
                proof {
                    let rest = buf@.skip(p1 as int);
                    assert(v@ =~= rest.take(n as int));
                    assert(rest.skip(n as int) =~= buf@.skip(p1 + m as int));
                }
                Some((v, p1 + m))
            } else {
                None
            }
        },
    }
}

pub(crate) fn read_input(buf: &[u8], pos: usize) -> (r: Option<(TXInput, usize)>)
    requires
        pos <= buf@.len(),
    ensures
        r matches Some(p) ==> parse_input(buf@.skip(pos as int)) == Some(
            (p.0@, buf@.skip(p.1 as int)),
        ) && pos < p.1 <= buf@.len(),
        r is None ==> parse_input(buf@.skip(pos as int)) is None,
{
    let (txid, p1) = match read_bytes(buf, pos) {
        None => { return None; },
        Some(x) => x,
    };
    let (v, p2) = match read_u64_be(buf, p1) {
        None => { return None; },
        Some(x) => x,
    };
    if !(v <= usize::MAX as u64) {
        return None;
    }
    let (sig, p3) = match read_bytes(buf, p2) {
        None => { return None; },
        Some(x) => x,
    };
    let (pk, p4) = match read_bytes(buf, p3) {
        None => { return None; },
        Some(x) => x,
    };
    Some((TXInput { txid, vout: v as usize, signature: sig, pub_key: pk }, p4))
}

pub(crate) fn read_output(buf: &[u8], pos: usize) -> (r: Option<(TXOutput, usize)>)
    requires
        pos <= buf@.len(),
    ensures
        r matches Some(p) ==> parse_output(buf@.skip(pos as int)) == Some(
            (p.0@, buf@.skip(p.1 as int)),
        ) && pos < p.1 <= buf@.len(),
        r is None ==> parse_output(buf@.skip(pos as int)) is None,
{
    let (v, p1) = match read_u64_be(buf, pos) {
        None => { return None; },
        Some(x) => x,
    };
    if !(v <= u32::MAX as u64) {
        return None;
    }
    let (pkh, p2) = match read_bytes(buf, p1) {
        None => { return None; },
        Some(x) => x,
    };
    Some((TXOutput { value: (v as u32) as i32, pub_key_hash: pkh }, p2))
}

impl Transaction {
    /// The canonical byte encoding of this transaction.
    pub fn serialize(&self) -> (r: Result<Vec<u8>, crate::TxError>)
        ensures
            r matches Ok(v) && v@ == enc_tx(self@),
    {
        let mut out: Vec<u8> = Vec::new();
        push_bytes(&mut out, self.id.as_slice());
        let n1 = self.vin.len();
        push_u64_be(&mut out, n1 as u64);
        let mut i: usize = 0;
        while i < n1
            invariant
                i <= n1,
                n1 == self.vin@.len(),
                out@ == enc_bytes(self@.id) + enc_u64(self@.vin.len() as u64) + enc_inputs(
                    self@.vin.take(i as int),
                ),
            decreases n1 - i,
        {
            push_input(&mut out, &self.vin[i]);
            proof {
                lemma_enc_inputs_push(self@.vin.take(i as int), self@.vin[i as int]);
                assert(self@.vin.take(i + 1 as int) =~= self@.vin.take(i as int).push(
                    self@.vin[i as int],
                ));
            }
            i = i + 1;
        }
        assert(self@.vin.take(n1 as int) =~= self@.vin);
        let n2 = self.vout.len();
        push_u64_be(&mut out, n2 as u64);
        let ghost mid = enc_bytes(self@.id) + enc_u64(self@.vin.len() as u64) + enc_inputs(
            self@.vin,
        ) + enc_u64(self@.vout.len() as u64);
        let mut j: usize = 0;
        while j < n2
            invariant
                j <= n2,
                n2 == self.vout@.len(),
                out@ == mid + enc_outputs(self@.vout.take(j as int)),
            decreases n2 - j,
        {
            push_output(&mut out, &self.vout[j]);
            proof {
                lemma_enc_outputs_push(self@.vout.take(j as int), self@.vout[j as int]);
                assert(self@.vout.take(j + 1 as int) =~= self@.vout.take(j as int).push(
                    self@.vout[j as int],
                ));
            }
            j = j + 1;
        }
        assert(self@.vout.take(n2 as int) =~= self@.vout);
        assert(out@ =~= enc_tx(self@));
        Ok(out)
    }

    /// Decodes a transaction from its canonical byte encoding; fails unless
    /// the whole input is exactly one encoded transaction.
    pub fn deserialize(bytes: &[u8]) -> (r: Result<Transaction, crate::TxError>)
        ensures
            r matches Ok(t) ==> parse_tx(bytes@) == Some((t@, Seq::<u8>::empty())),
            r is Err ==> r == Err::<Transaction, crate::TxError>(crate::TxError::SerializationError)
                && (parse_tx(bytes@) is None || (parse_tx(bytes@) matches Some(p) && p.1.len()
                != 0)),
    {
        proof {
            assert(bytes@.skip(0) =~= bytes@);
        }
        let (t, p) = match read_tx(bytes, 0) {
            None => { return Err(crate::TxError::SerializationError); },
            Some(x) => x,
        };
        if p != bytes.len() {
            return Err(crate::TxError::SerializationError);
        }
        proof {
            assert(bytes@.skip(p as int) =~= Seq::<u8>::empty());
        }
        Ok(t)
    }
}

pub(crate) fn read_tx(buf: &[u8], pos: usize) -> (r: Option<(Transaction, usize)>)
    requires
        pos <= buf@.len(),
    ensures
        r matches Some(p) ==> parse_tx(buf@.skip(pos as int)) == Some(
            (p.0@, buf@.skip(p.1 as int)),
        ) && pos < p.1 <= buf@.len(),
        r is None ==> parse_tx(buf@.skip(pos as int)) is None,
{
    proof {
        reveal(parse_tx);
    }
    let (id, p1) = match read_bytes(buf, pos) {
        None => { return None; },
        Some(x) => x,
    };
    let (n1, p2) = match read_u64_be(buf, p1) {
        None => { return None; },
        Some(x) => x,
    };
    let (vin, p3) = match read_input_list(buf, p2, n1) {
        None => { return None; },
        Some(x) => x,
    };
    let (n2, p4) = match read_u64_be(buf, p3) {
        None => { return None; },
        Some(x) => x,
    };
    let (vout, p5) = match read_output_list(buf, p4, n2) {
        None => { return None; },
        Some(x) => x,
    };
    Some((Transaction { id, vin, vout }, p5))
}

#[verifier::rlimit(50)]
/// All transactions of a block, in order.
pub open spec fn enc_txs(l: Seq<TransactionV>) -> Seq<u8>
    decreases l.len(),
{
    if l.len() == 0 {
        Seq::empty()
    } else {
        enc_tx(l[0]) + enc_txs(l.drop_first())
    }
}

pub open spec fn parse_txs(s: Seq<u8>, n: nat) -> Option<(Seq<TransactionV>, Seq<u8>)>
    decreases n,
{
    if n == 0 {
        Some((Seq::empty(), s))
    } else {
        match parse_tx(s) {
            None => None,
            Some((t, s1)) => match parse_txs(s1, (n - 1) as nat) {
                None => None,
                Some((l, s2)) => Some((seq![t] + l, s2)),
            },
        }
    }
}

pub proof fn lemma_enc_txs_push(l: Seq<TransactionV>, x: TransactionV)
    ensures
        enc_txs(l.push(x)) == enc_txs(l) + enc_tx(x),
    decreases l.len(),
{
    if l.len() == 0 {
        assert(l.push(x)[0] == x);
        assert(l.push(x).drop_first() =~= Seq::<TransactionV>::empty());
        assert(enc_txs(l.push(x).drop_first()) =~= Seq::<u8>::empty());
        assert(enc_txs(l.push(x)) =~= enc_tx(x) + Seq::<u8>::empty());
        assert(enc_tx(x) + Seq::<u8>::empty() =~= enc_tx(x));
        assert(enc_txs(l) + enc_tx(x) =~= enc_tx(x));
    } else {
        assert(l.push(x).drop_first() =~= l.drop_first().push(x));
        lemma_enc_txs_push(l.drop_first(), x);
        assert(l.push(x)[0] == l[0]);
        assert(enc_tx(l[0]) + (enc_txs(l.drop_first()) + enc_tx(x)) =~= (enc_tx(l[0]) + enc_txs(
            l.drop_first(),
        )) + enc_tx(x));
    }
}

#[verifier::spinoff_prover]
#[verifier::rlimit(100)]
pub proof fn lemma_parse_enc_txs(l: Seq<TransactionV>, rest: Seq<u8>)
    requires
        forall|k: int| 0 <= k < l.len() ==> bounded_tx(#[trigger] l[k]),
    ensures
        parse_txs(enc_txs(l) + rest, l.len()) == Some((l, rest)),
    decreases l.len(),
{
    if l.len() == 0 {
        assert(enc_txs(l) + rest =~= rest);
        assert(l =~= Seq::<TransactionV>::empty());
    } else {
        let tail = l.drop_first();
        assert(enc_txs(l) + rest =~= enc_tx(l[0]) + (enc_txs(tail) + rest));
        lemma_parse_enc_tx(l[0], enc_txs(tail) + rest);
        lemma_parse_enc_txs(tail, rest);
        assert(seq![l[0]] + tail =~= l);
    }
}

/// A whole block: timestamp, the two hash strings as UTF-8 bytes, nonce,
/// height, then the transactions preceded by their count.
pub open spec fn enc_block(b: crate::block::BlockV) -> Seq<u8> {
    enc_u64(b.timestamp as u64) + enc_bytes(vstd::utf8::encode_utf8(b.pre_block_hash))
        + enc_bytes(vstd::utf8::encode_utf8(b.hash)) + enc_u64(b.nonce as u64) + enc_u64(
        b.height as u64,
    ) + enc_u64(b.transactions.len() as u64) + enc_txs(b.transactions)
}

pub open spec fn parse_block(s: Seq<u8>) -> Option<(crate::block::BlockV, Seq<u8>)> {
    match parse_u64(s) {
        None => None,
        Some((ts, s1)) => match parse_bytes(s1) {
            None => None,
            Some((pre, s2)) => if vstd::utf8::valid_utf8(pre) {
                match parse_bytes(s2) {
                    None => None,
                    Some((hash, s3)) => if vstd::utf8::valid_utf8(hash) {
                        match parse_u64(s3) {
                            None => None,
                            Some((nonce, s4)) => match parse_u64(s4) {
                                None => None,
                                Some((height, s5)) => if height <= usize::MAX as u64 {
                                    match parse_u64(s5) {
                                        None => None,
                                        Some((n, s6)) => match parse_txs(s6, n as nat) {
                                            None => None,
                                            Some((txs, s7)) => Some(
                                                (
                                                    crate::block::BlockV {
                                                        timestamp: ts as i64,
                                                        pre_block_hash: vstd::utf8::decode_utf8(
                                                            pre,
                                                        ),
                                                        hash: vstd::utf8::decode_utf8(hash),
                                                        transactions: txs,
                                                        nonce: nonce as i64,
                                                        height: height as usize,
                                                    },
                                                    s7,
                                                ),
                                            ),
                                        },
                                    }
                                } else {
                                    None
                                },
                            },
                        }
                    } else {
                        None
                    },
                }
            } else {
                None
            },
        },
    }
}

/// Whether a block's parts fit in memory; true of every executable block.
pub open spec fn bounded_block(b: crate::block::BlockV) -> bool {
    &&& vstd::utf8::encode_utf8(b.pre_block_hash).len() <= usize::MAX
    &&& vstd::utf8::encode_utf8(b.hash).len() <= usize::MAX
    &&& b.transactions.len() <= usize::MAX
    &&& forall|k: int| 0 <= k < b.transactions.len() ==> bounded_tx(#[trigger] b.transactions[k])
}

/// The canonical block encoding round-trips: parsing what was encoded gives
/// back exactly the block and leaves exactly the trailing input.
#[verifier::spinoff_prover]
#[verifier::rlimit(100)]
pub proof fn lemma_parse_enc_block(b: crate::block::BlockV, rest: Seq<u8>)
    requires
        bounded_block(b),
    ensures
        parse_block(enc_block(b) + rest) == Some((b, rest)),
{
    let pre = vstd::utf8::encode_utf8(b.pre_block_hash);
    let hash = vstd::utf8::encode_utf8(b.hash);
    let t6 = enc_txs(b.transactions) + rest;
    let t5 = enc_u64(b.transactions.len() as u64) + t6;
    let t4 = enc_u64(b.height as u64) + t5;
    let t3 = enc_u64(b.nonce as u64) + t4;
    let t2 = enc_bytes(hash) + t3;
    let t1 = enc_bytes(pre) + t2;
    assert(enc_block(b) + rest =~= enc_u64(b.timestamp as u64) + t1);
    lemma_parse_enc_u64(b.timestamp as u64, t1);
    lemma_parse_enc_bytes(pre, t2);
    lemma_parse_enc_bytes(hash, t3);
    lemma_parse_enc_u64(b.nonce as u64, t4);
    lemma_parse_enc_u64(b.height as u64, t5);
    lemma_parse_enc_u64(b.transactions.len() as u64, t6);
    assert((b.transactions.len() as u64) as nat == b.transactions.len());
    lemma_parse_enc_txs(b.transactions, rest);
    vstd::utf8::encode_utf8_valid_utf8(b.pre_block_hash);
    vstd::utf8::encode_utf8_valid_utf8(b.hash);
    vstd::utf8::encode_utf8_decode_utf8(b.pre_block_hash);
    vstd::utf8::encode_utf8_decode_utf8(b.hash);
    let ts = b.timestamp;
    assert((ts as u64) as i64 == ts) by (bit_vector);
    let nn = b.nonce;
    assert((nn as u64) as i64 == nn) by (bit_vector);
}

pub(crate) fn read_input_list(buf: &[u8], pos: usize, n: u64) -> (r: Option<(Vec<TXInput>, usize)>)
    requires
        pos <= buf@.len(),
    ensures
        r matches Some(p) ==> parse_inputs(buf@.skip(pos as int), n as nat) == Some(
            (p.0@.map_values(|x: TXInput| x@), buf@.skip(p.1 as int)),
        ) && pos <= p.1 <= buf@.len(),
        r is None ==> parse_inputs(buf@.skip(pos as int), n as nat) is None,
{
    let mut acc: Vec<TXInput> = Vec::new();
    let mut i: u64 = 0;
    let mut pos2: usize = pos;
    while i < n
        invariant
            i <= n,
            pos <= pos2 <= buf@.len(),
            parse_inputs(buf@.skip(pos as int), n as nat) == (match parse_inputs(
                buf@.skip(pos2 as int),
                (n - i) as nat,
            ) {
                None => None::<(Seq<TXInputV>, Seq<u8>)>,
                Some((l, r)) => Some((acc@.map_values(|x: TXInput| x@) + l, r)),
            }),
        decreases n - i,
    {
        match read_input(buf, pos2) {
            None => {
                return None;
            },
            Some((inp, p)) => {
                proof {
                    let a = acc@.map_values(|x: TXInput| x@);
                    let rem = parse_inputs(buf@.skip(p as int), (n - i - 1) as nat);
                    if rem is Some {
                        let (l, r) = rem.unwrap();
                        assert(a + (seq![inp@] + l) =~= a.push(inp@) + l);
                        assert(acc@.push(inp).map_values(|x: TXInput| x@) =~= a.push(inp@));
                    }
                }
                acc.push(inp);
                pos2 = p;
                i = i + 1;
            },
        }
    }
    proof {
        let a = acc@.map_values(|x: TXInput| x@);
        assert(a + Seq::<TXInputV>::empty() =~= a);
    }
    Some((acc, pos2))
}

#[verifier::rlimit(50)]
pub(crate) fn read_output_list(buf: &[u8], pos: usize, n: u64) -> (r: Option<
    (Vec<TXOutput>, usize),
>)
    requires
        pos <= buf@.len(),
    ensures
        r matches Some(p) ==> parse_outputs(buf@.skip(pos as int), n as nat) == Some(
            (p.0@.map_values(|x: TXOutput| x@), buf@.skip(p.1 as int)),
        ) && pos <= p.1 <= buf@.len(),
        r is None ==> parse_outputs(buf@.skip(pos as int), n as nat) is None,
{
    let mut acc: Vec<TXOutput> = Vec::new();
    let mut i: u64 = 0;
    let mut pos2: usize = pos;
    while i < n
        invariant
            i <= n,
            pos <= pos2 <= buf@.len(),
            parse_outputs(buf@.skip(pos as int), n as nat) == (match parse_outputs(
                buf@.skip(pos2 as int),
                (n - i) as nat,
            ) {
                None => None::<(Seq<TXOutputV>, Seq<u8>)>,
                Some((l, r)) => Some((acc@.map_values(|x: TXOutput| x@) + l, r)),
            }),
        decreases n - i,
    {
        match read_output(buf, pos2) {
            None => {
                return None;
            },
            Some((o, p)) => {
                proof {
                    let a = acc@.map_values(|x: TXOutput| x@);
                    let rem = parse_outputs(buf@.skip(p as int), (n - i - 1) as nat);
                    if rem is Some {
                        let (l, r) = rem.unwrap();
                        assert(a + (seq![o@] + l) =~= a.push(o@) + l);
                        assert(acc@.push(o).map_values(|x: TXOutput| x@) =~= a.push(o@));
                    }
                }
                acc.push(o);
                pos2 = p;
                i = i + 1;
            },
        }
    }
    proof {
        let a = acc@.map_values(|x: TXOutput| x@);
        assert(a + Seq::<TXOutputV>::empty() =~= a);
    }
    Some((acc, pos2))
}

#[verifier::rlimit(100)]
pub(crate) fn read_tx_list(buf: &[u8], pos: usize, n: u64) -> (r: Option<(Vec<Transaction>, usize)>)
    requires
        pos <= buf@.len(),
    ensures
        r matches Some(p) ==> parse_txs(buf@.skip(pos as int), n as nat) == Some(
            (p.0@.map_values(|x: Transaction| x@), buf@.skip(p.1 as int)),
        ) && pos <= p.1 <= buf@.len(),
        r is None ==> parse_txs(buf@.skip(pos as int), n as nat) is None,
{
    let mut acc: Vec<Transaction> = Vec::new();
    let mut i: u64 = 0;
    let mut pos2: usize = pos;
    while i < n
        invariant
            i <= n,
            pos <= pos2 <= buf@.len(),
            parse_txs(buf@.skip(pos as int), n as nat) == (match parse_txs(
                buf@.skip(pos2 as int),
                (n - i) as nat,
            ) {
                None => None::<(Seq<TransactionV>, Seq<u8>)>,
                Some((l, r)) => Some((acc@.map_values(|x: Transaction| x@) + l, r)),
            }),
        decreases n - i,
    {
        match read_tx(buf, pos2) {
            None => {
                return None;
            },
            Some((t, p)) => {
                proof {
                    let a = acc@.map_values(|x: Transaction| x@);
                    let rem = parse_txs(buf@.skip(p as int), (n - i - 1) as nat);
                    if rem is Some {
                        let (l, r) = rem.unwrap();
                        assert(a + (seq![t@] + l) =~= a.push(t@) + l);
                        assert(acc@.push(t).map_values(|x: Transaction| x@) =~= a.push(t@));
                    }
                }
                acc.push(t);
                pos2 = p;
                i = i + 1;
            },
        }
    }
    proof {
        let a = acc@.map_values(|x: Transaction| x@);
        assert(a + Seq::<TransactionV>::empty() =~= a);
    }
    Some((acc, pos2))
}

impl crate::block::Block {
    /// The canonical byte encoding of this block.
    pub fn serialize(&self) -> (r: Result<Vec<u8>, crate::TxError>)
        ensures
            r matches Ok(v) && v@ == enc_block(self@),
    {
        let mut out: Vec<u8> = Vec::new();
        push_u64_be(&mut out, self.timestamp as u64);
        let pre_bytes = vstd::string::StrSliceExecFns::as_bytes_vec(self.pre_block_hash.as_str());
        push_bytes(&mut out, pre_bytes.as_slice());
        let hash_bytes = vstd::string::StrSliceExecFns::as_bytes_vec(self.hash.as_str());
        push_bytes(&mut out, hash_bytes.as_slice());
        push_u64_be(&mut out, self.nonce as u64);
        push_u64_be(&mut out, self.height as u64);
        let n = self.transactions.len();
        push_u64_be(&mut out, n as u64);
        let ghost mid = out@;
        let mut i: usize = 0;
        while i < n
            invariant
                i <= n,
                n == self.transactions@.len(),
                out@ == mid + enc_txs(self@.transactions.take(i as int)),
            decreases n - i,
        {
            let tx_bytes = match self.transactions[i].serialize() {
                Ok(b) => b,
                Err(_) => { proof { assert(false); } Vec::new() },
            };
            push_all(&mut out, tx_bytes.as_slice());
            proof {
                lemma_enc_txs_push(self@.transactions.take(i as int), self@.transactions[i as int]);
                assert(self@.transactions.take(i + 1 as int) =~= self@.transactions.take(
                    i as int,
                ).push(self@.transactions[i as int]));
            }
            i = i + 1;
        }
        assert(self@.transactions.take(n as int) =~= self@.transactions);
        assert(out@ =~= enc_block(self@));
        Ok(out)
    }

    /// Decodes a block from its canonical byte encoding; fails unless the
    /// whole input is exactly one encoded block.
    pub fn deserialize(bytes: &[u8]) -> (r: Result<crate::block::Block, crate::TxError>)
        ensures
            r matches Ok(b) ==> parse_block(bytes@) == Some((b@, Seq::<u8>::empty())),
            r is Err ==> r == Err::<crate::block::Block, crate::TxError>(
                crate::TxError::SerializationError,
            ) && (parse_block(bytes@) is None || (parse_block(bytes@) matches Some(p) && p.1.len()
                != 0)),
    {
        proof {
            assert(bytes@.skip(0) =~= bytes@);
        }
        let (ts, p1) = match read_u64_be(bytes, 0) {
            None => { return Err(crate::TxError::SerializationError); },
            Some(x) => x,
        };
        let (pre_bytes, p2) = match read_bytes(bytes, p1) {
            None => { return Err(crate::TxError::SerializationError); },
            Some(x) => x,
        };
        let pre_block_hash = match crate::crypto::string_from_utf8(pre_bytes) {
            None => { return Err(crate::TxError::SerializationError); },
            Some(s) => s,
        };
        let (hash_bytes, p3) = match read_bytes(bytes, p2) {
            None => { return Err(crate::TxError::SerializationError); },
            Some(x) => x,
        };
        let hash = match crate::crypto::string_from_utf8(hash_bytes) {
            None => { return Err(crate::TxError::SerializationError); },
            Some(s) => s,
        };
        let (nonce, p4) = match read_u64_be(bytes, p3) {
            None => { return Err(crate::TxError::SerializationError); },
            Some(x) => x,
        };
        let (height, p5) = match read_u64_be(bytes, p4) {
            None => { return Err(crate::TxError::SerializationError); },
            Some(x) => x,
        };
        if !(height <= usize::MAX as u64) {
            return Err(crate::TxError::SerializationError);
        }
        let (n, p6) = match read_u64_be(bytes, p5) {
            None => { return Err(crate::TxError::SerializationError); },
            Some(x) => x,
        };
        let (transactions, p7) = match read_tx_list(bytes, p6, n) {
            None => { return Err(crate::TxError::SerializationError); },
            Some(x) => x,
        };
        if p7 != bytes.len() {
            return Err(crate::TxError::SerializationError);
        }
        proof {
            assert(bytes@.skip(p7 as int) =~= Seq::<u8>::empty());
        }
        Ok(
            crate::block::Block {
                timestamp: ts as i64,
                pre_block_hash,
                hash,
                transactions,
                nonce: nonce as i64,
                height: height as usize,
            },
        )
    }
}

} // verus!
