use vstd::prelude::*;

use crate::model::{
    address_of, endpoint_of, is_empty_endpoint, DecodedTx, Endpoint, ResolutionError,
    TransactionRecord, TxMeta, TxOutput,
};

verus! {

/// The output pays the known recipient: its address is exactly that address.
pub open spec fn pays(o: TxOutput, recipient: Seq<char>) -> bool {
    address_of(o) == recipient
}

/// The output returns value elsewhere: it has an address, and not the
/// recipient's.
pub open spec fn is_change(o: TxOutput, recipient: Seq<char>) -> bool {
    address_of(o).len() > 0 && address_of(o) != recipient
}

/// Index of the last output that pays the recipient, or -1 when none does.
pub open spec fn last_paying(outs: Seq<TxOutput>, recipient: Seq<char>) -> int
    decreases outs.len(),
{
    if outs.len() == 0 {
        -1
    } else if pays(outs.last(), recipient) {
        outs.len() - 1
    } else {
        last_paying(outs.drop_last(), recipient)
    }
}

/// Index of the last change output, or -1 when there is none.
pub open spec fn last_change(outs: Seq<TxOutput>, recipient: Seq<char>) -> int
    decreases outs.len(),
{
    if outs.len() == 0 {
        -1
    } else if is_change(outs.last(), recipient) {
        outs.len() - 1
    } else {
        last_change(outs.drop_last(), recipient)
    }
}

/// `e` is the primary output of `outs`: the last output paying the recipient,
/// or the empty endpoint when no output does.
pub open spec fn is_primary_of(e: Endpoint, outs: Seq<TxOutput>, recipient: Seq<char>) -> bool {
    let i = last_paying(outs, recipient);
    if i < 0 {
        is_empty_endpoint(e)
    } else {
        endpoint_of(e, outs[i])
    }
}

/// `c` is the change output of `outs`: the last change output, if any.
pub open spec fn is_change_of(c: Option<Endpoint>, outs: Seq<TxOutput>, recipient: Seq<char>) -> bool {
    let i = last_change(outs, recipient);
    match c {
        Some(e) => i >= 0 && endpoint_of(e, outs[i]),
        None => i < 0,
    }
}

/// The previous output that the first input of `tx` spends, looked up in
/// `previous`, the transaction that input names; `None` when the input names
/// no output or the output is not there.
pub open spec fn spent_output(tx: DecodedTx, previous: Option<DecodedTx>) -> Option<TxOutput> {
    if tx.inputs@.len() > 0 && tx.inputs@[0].prev_txid is Some && tx.inputs@[0].prev_vout is Some
        && previous is Some && (tx.inputs@[0].prev_vout.unwrap() as int) < previous.unwrap().outputs@.len() {
        Some(previous.unwrap().outputs@[tx.inputs@[0].prev_vout.unwrap() as int])
    } else {
        None
    }
}

/// `e` is the origin of the first input: the spent output when it was found,
/// the empty endpoint otherwise.
pub open spec fn is_input_of(e: Endpoint, tx: DecodedTx, previous: Option<DecodedTx>) -> bool {
    match spent_output(tx, previous) {
        Some(o) => endpoint_of(e, o),
        None => is_empty_endpoint(e),
    }
}

pub open spec fn abs(x: int) -> int {
    if x < 0 {
        -x
    } else {
        x
    }
}

/// The metadata carries both a confirmation height and a confirming block.
pub open spec fn is_confirmed(meta: TxMeta) -> bool {
    meta.confirmed_height is Some && meta.confirmed_block_hash is Some
}

/// `rec` is the summary of transaction `txid` with metadata `meta`, decoded
/// form `tx`, and `previous` the transaction its first input spends from.
pub open spec fn summarises(
    rec: TransactionRecord,
    txid: Seq<char>,
    recipient: Seq<char>,
    meta: TxMeta,
    tx: DecodedTx,
    previous: Option<DecodedTx>,
) -> bool {
    &&& rec.txid@ == txid
    &&& is_input_of(rec.input, tx, previous)
    &&& is_primary_of(rec.primary_output, tx.outputs@, recipient)
    &&& is_change_of(rec.change_output, tx.outputs@, recipient)
    &&& rec.fee == abs(meta.raw_fee as int)
    &&& rec.confirmed_height == meta.confirmed_height.unwrap()
    &&& rec.confirmed_block_hash@ == meta.confirmed_block_hash.unwrap()@
}

/// What `resolve` returns: `NotConfirmed` exactly when the confirmation
/// metadata is incomplete, the summary otherwise.
pub open spec fn resolves_to(
    r: Result<TransactionRecord, ResolutionError>,
    txid: Seq<char>,
    recipient: Seq<char>,
    meta: TxMeta,
    tx: DecodedTx,
    previous: Option<DecodedTx>,
) -> bool {
    match r {
        Ok(rec) => is_confirmed(meta) && summarises(rec, txid, recipient, meta, tx, previous),
        Err(e) => !is_confirmed(meta) && e == ResolutionError::NotConfirmed,
    }
}

pub proof fn lemma_last_paying_bounds(outs: Seq<TxOutput>, recipient: Seq<char>)
    ensures
        -1 <= last_paying(outs, recipient) < outs.len(),
    decreases outs.len(),
{
    if outs.len() > 0 {
        lemma_last_paying_bounds(outs.drop_last(), recipient);
    }
}

pub proof fn lemma_last_change_bounds(outs: Seq<TxOutput>, recipient: Seq<char>)
    ensures
        -1 <= last_change(outs, recipient) < outs.len(),
    decreases outs.len(),
{
    if outs.len() > 0 {
        lemma_last_change_bounds(outs.drop_last(), recipient);
    }
}

/// The address an output resolves to, empty when it resolves to none.
pub fn output_address(o: &TxOutput) -> (r: String)
    ensures
        r@ == address_of(*o),
{
    match &o.address {
        Some(a) => a.clone(),
        None => String::new(),
    }
}

/// Scans the outputs in order and picks the payment to `recipient` and the
/// change; where several qualify, the last one seen wins.
pub fn scan_outputs(outputs: &Vec<TxOutput>, recipient: &String) -> (r: (Endpoint, Option<Endpoint>))
    ensures
        is_primary_of(r.0, outputs@, recipient@),
        is_change_of(r.1, outputs@, recipient@),
{
    let mut primary = Endpoint::empty();
    let mut change: Option<Endpoint> = None;
    let mut i: usize = 0;
    while i < outputs.len()
        invariant
            0 <= i <= outputs.len(),
            is_primary_of(primary, outputs@.subrange(0, i as int), recipient@),
            is_change_of(change, outputs@.subrange(0, i as int), recipient@),
        decreases outputs.len() - i,
    {
        let o = &outputs[i];
        let address = output_address(o);
        proof {
            let prefix = outputs@.subrange(0, i as int);
            let next = outputs@.subrange(0, i + 1);
            assert(next.drop_last() =~= prefix);
            assert(next.last() == *o);
            lemma_last_paying_bounds(prefix, recipient@);
            lemma_last_change_bounds(prefix, recipient@);
        }
        if address == *recipient {
            primary = Endpoint { address, amount: o.amount };
        } else if !address.as_str().is_empty() {
            change = Some(Endpoint { address, amount: o.amount });
        }
        i += 1;
    }
    proof {
        assert(outputs@.subrange(0, outputs@.len() as int) =~= outputs@);
    }
    (primary, change)
}

/// The transaction id and output index that the first input of `tx` spends,
/// when it names both: the transaction to look up for `resolve_input`.
pub fn previous_outpoint(tx: &DecodedTx) -> (r: Option<(String, u32)>)
    ensures
        match r {
            Some((id, n)) => tx.inputs@.len() > 0 && tx.inputs@[0].prev_txid == Some(id)
                && tx.inputs@[0].prev_vout == Some(n),
            None => tx.inputs@.len() == 0 || tx.inputs@[0].prev_txid is None
                || tx.inputs@[0].prev_vout is None,
        },
{
    if tx.inputs.len() == 0 {
        return None;
    }
    let first = &tx.inputs[0];
    match (&first.prev_txid, first.prev_vout) {
        (Some(id), Some(n)) => Some((id.clone(), n)),
        _ => None,
    }
}

/// The origin of the first input of `tx`, read from `previous`, the
/// transaction that input spends from (`None` when it could not be had).
/// Anything missing gives the empty endpoint.
pub fn resolve_input(tx: &DecodedTx, previous: Option<&DecodedTx>) -> (r: Endpoint)
    ensures
        is_input_of(r, *tx, match previous { Some(p) => Some(*p), None => None }),
{
    if tx.inputs.len() == 0 {
        return Endpoint::empty();
    }
    let first = &tx.inputs[0];
    if first.prev_txid.is_none() {
        return Endpoint::empty();
    }
    match (first.prev_vout, previous) {
        (Some(n), Some(p)) => {
            if (n as usize) < p.outputs.len() {
                let o = &p.outputs[n as usize];
                Endpoint { address: output_address(o), amount: o.amount }
            } else {
                Endpoint::empty()
            }
        },
        _ => Endpoint::empty(),
    }
}

/// The magnitude of a signed fee.
pub fn fee_magnitude(raw: i64) -> (r: u64)
    ensures
        r == abs(raw as int),
{
    if raw < 0 {
        (0 - (raw as i128)) as u64
    } else {
        raw as u64
    }
}

/// Summarises transaction `txid` from its wallet metadata `meta`, its decoded
/// form `tx` and `previous`, the decoded transaction that its first input
/// spends from (`None` when it names none or it could not be had).
/// `recipient` is the address of the deliberate payment; any other address
/// that an output resolves to is taken as change.
pub fn resolve(
    txid: &String,
    recipient: &String,
    meta: &TxMeta,
    tx: &DecodedTx,
    previous: Option<&DecodedTx>,
) -> (r: Result<TransactionRecord, ResolutionError>)
    ensures
        resolves_to(r, txid@, recipient@, *meta, *tx, match previous { Some(p) => Some(*p), None => None }),
{
    let height = match meta.confirmed_height {
        Some(h) => h,
        None => return Err(ResolutionError::NotConfirmed),
    };
    let block_hash = match &meta.confirmed_block_hash {
        Some(b) => b.clone(),
        None => return Err(ResolutionError::NotConfirmed),
    };
    let input = resolve_input(tx, previous);
    let (primary_output, change_output) = scan_outputs(&tx.outputs, recipient);
    Ok(TransactionRecord {
        txid: txid.clone(),
        input,
        primary_output,
        change_output,
        fee: fee_magnitude(meta.raw_fee),
        confirmed_height: height,
        confirmed_block_hash: block_hash,
    })
}

/// What `resolve_fetched` returns: a failed metadata request aborts first,
/// then missing confirmation, then a failed decode; otherwise `resolve`'s
/// result.
pub open spec fn resolves_fetched_to(
    r: Result<TransactionRecord, ResolutionError>,
    txid: Seq<char>,
    recipient: Seq<char>,
    meta: Result<TxMeta, String>,
    tx: Result<DecodedTx, String>,
    previous: Option<DecodedTx>,
) -> bool {
    match meta {
        Err(m) => r == Err::<TransactionRecord, ResolutionError>(ResolutionError::ChainAccess(m)),
        Ok(md) => if !is_confirmed(md) {
            r == Err::<TransactionRecord, ResolutionError>(ResolutionError::NotConfirmed)
        } else {
            match tx {
                Err(m) => r == Err::<TransactionRecord, ResolutionError>(ResolutionError::ChainAccess(m)),
                Ok(t) => resolves_to(r, txid, recipient, md, t, previous),
            }
        },
    }
}

/// Summarises transaction `txid` from the outcomes of the requests for its
/// metadata and for its decoded form, each either the data or the text of
/// the failure. A failed request aborts the whole resolution with
/// `ChainAccess`; the metadata's confirmation is checked before the decoded
/// form is looked at. `previous` is as for `resolve`: a failure to get it is
/// not an error.
pub fn resolve_fetched(
    txid: &String,
    recipient: &String,
    meta: Result<TxMeta, String>,
    tx: Result<DecodedTx, String>,
    previous: Option<&DecodedTx>,
) -> (r: Result<TransactionRecord, ResolutionError>)
    ensures
        resolves_fetched_to(r, txid@, recipient@, meta, tx, match previous { Some(p) => Some(*p), None => None }),
{
    let meta = match meta {
        Ok(m) => m,
        Err(m) => return Err(ResolutionError::ChainAccess(m)),
    };
    if meta.confirmed_height.is_none() || meta.confirmed_block_hash.is_none() {
        return Err(ResolutionError::NotConfirmed);
    }
    let tx = match tx {
        Ok(t) => t,
        Err(m) => return Err(ResolutionError::ChainAccess(m)),
    };
    resolve(txid, recipient, &meta, &tx, previous)
}

/// `last_paying` finds an output exactly when one pays the recipient, and the
/// one it finds pays the recipient and no later output does.
pub proof fn lemma_last_paying_is_last(outs: Seq<TxOutput>, recipient: Seq<char>)
    ensures
        (last_paying(outs, recipient) >= 0) == (exists|i: int| 0 <= i < outs.len() && pays(#[trigger] outs[i], recipient)),
        last_paying(outs, recipient) >= 0 ==> pays(outs[last_paying(outs, recipient)], recipient),
        forall|j: int| last_paying(outs, recipient) < j < outs.len() ==> !pays(#[trigger] outs[j], recipient),
    decreases outs.len(),
{
    if outs.len() > 0 {
        let rest = outs.drop_last();
        lemma_last_paying_is_last(rest, recipient);
        lemma_last_paying_bounds(rest, recipient);
        if !pays(outs.last(), recipient) {
            if exists|i: int| 0 <= i < outs.len() && pays(#[trigger] outs[i], recipient) {
                let i = choose|i: int| 0 <= i < outs.len() && pays(#[trigger] outs[i], recipient);
                assert(rest[i] == outs[i]);
            }
            assert forall|j: int| last_paying(outs, recipient) < j < outs.len() implies !pays(
                #[trigger] outs[j],
                recipient,
            ) by {
                if j < rest.len() {
                    assert(rest[j] == outs[j]);
                }
            }
        }
    }
}

/// With exactly one change output at `k`, `last_change` finds `k`.
pub proof fn lemma_single_change(outs: Seq<TxOutput>, recipient: Seq<char>, k: int)
    requires
        0 <= k < outs.len(),
        is_change(outs[k], recipient),
        forall|j: int| 0 <= j < outs.len() && j != k ==> !is_change(#[trigger] outs[j], recipient),
    ensures
        last_change(outs, recipient) == k,
    decreases outs.len(),
{
    if k < outs.len() - 1 {
        let rest = outs.drop_last();
        assert forall|j: int| 0 <= j < rest.len() && j != k implies !is_change(#[trigger] rest[j], recipient) by {
            assert(rest[j] == outs[j]);
        }
        assert(rest[k] == outs[k]);
        lemma_single_change(rest, recipient, k);
    }
}

/// Where an output pays the recipient and the transaction is confirmed, the
/// primary output carries the recipient's address and the value of the last
/// output paying it: it pays the recipient, and no later output does.
pub proof fn lemma_primary_is_last_payment(
    r: Result<TransactionRecord, ResolutionError>,
    txid: Seq<char>,
    recipient: Seq<char>,
    meta: TxMeta,
    tx: DecodedTx,
    previous: Option<DecodedTx>,
)
    requires
        resolves_to(r, txid, recipient, meta, tx, previous),
        is_confirmed(meta),
        exists|i: int| 0 <= i < tx.outputs@.len() && pays(#[trigger] tx.outputs@[i], recipient),
    ensures
        r is Ok,
        exists|i: int|
            0 <= i < tx.outputs@.len() && pays(#[trigger] tx.outputs@[i], recipient)
                && r->Ok_0.primary_output.amount == tx.outputs@[i].amount
                && r->Ok_0.primary_output.address@ == recipient
                && forall|j: int| i < j < tx.outputs@.len() ==> !pays(#[trigger] tx.outputs@[j], recipient),
{
    lemma_last_paying_is_last(tx.outputs@, recipient);
    lemma_last_paying_bounds(tx.outputs@, recipient);
    let i = last_paying(tx.outputs@, recipient);
    assert(pays(tx.outputs@[i], recipient) && forall|j: int|
        i < j < tx.outputs@.len() ==> !pays(#[trigger] tx.outputs@[j], recipient));
}

/// Where no output pays the recipient, the primary output is empty: no
/// address and a zero amount.
pub proof fn lemma_no_payment_gives_empty_primary(
    r: Result<TransactionRecord, ResolutionError>,
    txid: Seq<char>,
    recipient: Seq<char>,
    meta: TxMeta,
    tx: DecodedTx,
    previous: Option<DecodedTx>,
)
    requires
        resolves_to(r, txid, recipient, meta, tx, previous),
        is_confirmed(meta),
        forall|i: int| 0 <= i < tx.outputs@.len() ==> !pays(#[trigger] tx.outputs@[i], recipient),
    ensures
        r is Ok,
        r->Ok_0.primary_output.address@.len() == 0,
        r->Ok_0.primary_output.amount == 0,
{
    lemma_last_paying_is_last(tx.outputs@, recipient);
}

/// Where exactly one output has an address other than the recipient's, the
/// change output is that output: its address and its value.
pub proof fn lemma_single_change_output(
    r: Result<TransactionRecord, ResolutionError>,
    txid: Seq<char>,
    recipient: Seq<char>,
    meta: TxMeta,
    tx: DecodedTx,
    previous: Option<DecodedTx>,
    k: int,
)
    requires
        resolves_to(r, txid, recipient, meta, tx, previous),
        is_confirmed(meta),
        0 <= k < tx.outputs@.len(),
        is_change(tx.outputs@[k], recipient),
        forall|j: int| 0 <= j < tx.outputs@.len() && j != k ==> !is_change(#[trigger] tx.outputs@[j], recipient),
    ensures
        r is Ok,
        r->Ok_0.change_output is Some,
        endpoint_of(r->Ok_0.change_output.unwrap(), tx.outputs@[k]),
{
    lemma_single_change(tx.outputs@, recipient, k);
}

/// Where the output that the first input spends cannot be found (the
/// previous transaction was not had, or has no output at that index), a
/// confirmed transaction still resolves, with the empty endpoint as input.
pub proof fn lemma_missing_previous_output(
    r: Result<TransactionRecord, ResolutionError>,
    txid: Seq<char>,
    recipient: Seq<char>,
    meta: TxMeta,
    tx: DecodedTx,
    previous: Option<DecodedTx>,
)
    requires
        resolves_to(r, txid, recipient, meta, tx, previous),
        is_confirmed(meta),
        previous is None || (tx.inputs@[0].prev_vout is Some
            && tx.inputs@[0].prev_vout.unwrap() as int >= previous.unwrap().outputs@.len()),
    ensures
        r is Ok,
        r->Ok_0.input.address@.len() == 0,
        r->Ok_0.input.amount == 0,
{
}

/// A transaction without confirmation height or confirming block does not
/// resolve: the result is `NotConfirmed`, and no record.
pub proof fn lemma_unconfirmed_fails(
    r: Result<TransactionRecord, ResolutionError>,
    txid: Seq<char>,
    recipient: Seq<char>,
    meta: TxMeta,
    tx: DecodedTx,
    previous: Option<DecodedTx>,
)
    requires
        resolves_to(r, txid, recipient, meta, tx, previous),
        meta.confirmed_height is None || meta.confirmed_block_hash is None,
    ensures
        r == Err::<TransactionRecord, ResolutionError>(ResolutionError::NotConfirmed),
{
}

/// The fee of a resolved transaction is the magnitude of the raw fee,
/// whatever its sign.
pub proof fn lemma_fee_is_magnitude(
    r: Result<TransactionRecord, ResolutionError>,
    txid: Seq<char>,
    recipient: Seq<char>,
    meta: TxMeta,
    tx: DecodedTx,
    previous: Option<DecodedTx>,
)
    requires
        resolves_to(r, txid, recipient, meta, tx, previous),
        is_confirmed(meta),
    ensures
        r is Ok,
        r->Ok_0.fee == abs(meta.raw_fee as int),
        meta.raw_fee < 0 ==> r->Ok_0.fee == -meta.raw_fee,
{
}

} // verus!
