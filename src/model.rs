use vstd::prelude::*;

verus! {

/// Number of satoshis in one whole coin.
pub const SATS_PER_COIN: u64 = 100_000_000;

/// One side of a transfer: a display address (empty when the script could
/// not be decoded into an address) and an amount in satoshis.
#[derive(Clone, Debug, PartialEq, Eq)]
pub struct Endpoint {
    pub address: String,
    pub amount: u64,
}

/// What a decoded input says about the output it spends; both parts are
/// absent for a coinbase input.
#[derive(Clone, Debug, PartialEq, Eq)]
pub struct InputRef {
    pub prev_txid: Option<String>,
    pub prev_vout: Option<u32>,
}

/// A decoded output: the address its script resolved to, if any, and its
/// value in satoshis.
#[derive(Clone, Debug, PartialEq, Eq)]
pub struct TxOutput {
    pub address: Option<String>,
    pub amount: u64,
}

/// A decoded transaction: its inputs and outputs in order.
#[derive(Clone, Debug, PartialEq, Eq)]
pub struct DecodedTx {
    pub inputs: Vec<InputRef>,
    pub outputs: Vec<TxOutput>,
}

/// Wallet metadata of a transaction: the fee as the node reports it (signed,
/// in satoshis) and where it was confirmed, if it was.
#[derive(Clone, Debug, PartialEq, Eq)]
pub struct TxMeta {
    pub raw_fee: i64,
    pub confirmed_height: Option<u32>,
    pub confirmed_block_hash: Option<String>,
}

/// The economic summary of one confirmed transaction.
#[derive(Clone, Debug, PartialEq, Eq)]
pub struct TransactionRecord {
    pub txid: String,
    /// Origin of the coins spent by the first input.
    pub input: Endpoint,
    /// The payment to the known recipient address.
    pub primary_output: Endpoint,
    /// Value returned to some other address, if any output did so.
    pub change_output: Option<Endpoint>,
    /// Magnitude of the fee, in satoshis.
    pub fee: u64,
    pub confirmed_height: u32,
    pub confirmed_block_hash: String,
}

/// Why a transaction could not be summarised.
#[derive(Clone, Debug, PartialEq, Eq)]
pub enum ResolutionError {
    /// A request to the chain data source failed; the text describes it.
    ChainAccess(String),
    /// The transaction has no confirmation height or no confirming block.
    NotConfirmed,
}

/// The address an output resolves to, the empty text when it resolves to none.
pub open spec fn address_of(o: TxOutput) -> Seq<char> {
    match o.address {
        Some(a) => a@,
        None => Seq::empty(),
    }
}

/// An endpoint with no address and no amount.
pub open spec fn is_empty_endpoint(e: Endpoint) -> bool {
    e.address@.len() == 0 && e.amount == 0
}

/// `e` names the address of `o` and carries its value.
pub open spec fn endpoint_of(e: Endpoint, o: TxOutput) -> bool {
    e.address@ == address_of(o) && e.amount == o.amount
}

impl Endpoint {
    /// The endpoint with an empty address and a zero amount.
    pub fn empty() -> (r: Endpoint)
        ensures
            is_empty_endpoint(r),
    {
        Endpoint { address: String::new(), amount: 0 }
    }
}

} // verus!
