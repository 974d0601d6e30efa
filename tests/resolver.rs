use tx_resolver::model::{
    DecodedTx, Endpoint, InputRef, ResolutionError, TransactionRecord, TxMeta, TxOutput,
};
use tx_resolver::report::report_bytes;
use tx_resolver::resolver::{
    fee_magnitude, output_address, previous_outpoint, resolve, resolve_fetched, resolve_input,
    scan_outputs,
};

const R: &str = "bcrt1qrecipient";
const C: &str = "bcrt1qchange";
const SENDER: &str = "bcrt1qsender";

fn out(address: Option<&str>, amount: u64) -> TxOutput {
    TxOutput { address: address.map(|a| a.to_string()), amount }
}

fn spend(txid: &str, vout: u32) -> InputRef {
    InputRef { prev_txid: Some(txid.to_string()), prev_vout: Some(vout) }
}

fn confirmed(raw_fee: i64) -> TxMeta {
    TxMeta {
        raw_fee,
        confirmed_height: Some(102),
        confirmed_block_hash: Some("H".to_string()),
    }
}

fn endpoint(address: &str, amount: u64) -> Endpoint {
    Endpoint { address: address.to_string(), amount }
}

fn payment() -> (DecodedTx, DecodedTx) {
    let previous = DecodedTx {
        inputs: vec![InputRef { prev_txid: None, prev_vout: None }],
        outputs: vec![out(Some(SENDER), 5_000_000_000)],
    };
    let tx = DecodedTx {
        inputs: vec![spend("prev", 0)],
        outputs: vec![out(Some(R), 2_000_000_000), out(Some(C), 2_999_990_000)],
    };
    (tx, previous)
}

#[test]
fn end_to_end_payment_with_change() {
    let (tx, previous) = payment();
    let rec = resolve(
        &"T".to_string(),
        &R.to_string(),
        &confirmed(-10_000),
        &tx,
        Some(&previous),
    )
    .unwrap();
    assert_eq!(rec.txid, "T");
    assert_eq!(rec.input, endpoint(SENDER, 5_000_000_000));
    assert_eq!(rec.primary_output, endpoint(R, 2_000_000_000));
    assert_eq!(rec.change_output, Some(endpoint(C, 2_999_990_000)));
    assert_eq!(rec.fee, 10_000);
    assert_eq!(rec.confirmed_height, 102);
    assert_eq!(rec.confirmed_block_hash, "H");
}

#[test]
fn end_to_end_report_lines() {
    let (tx, previous) = payment();
    let rec = resolve(
        &"T".to_string(),
        &R.to_string(),
        &confirmed(-10_000),
        &tx,
        Some(&previous),
    )
    .unwrap();
    let text = String::from_utf8(report_bytes(&rec)).unwrap();
    let expected = format!("T\n{SENDER}\n50\n{R}\n20\n{C}\n29.9999\n0.0001\n102\nH\n");
    assert_eq!(text, expected);
}

#[test]
fn report_without_change_or_input() {
    let rec = TransactionRecord {
        txid: "ab".to_string(),
        input: endpoint("", 0),
        primary_output: endpoint("", 0),
        change_output: None,
        fee: 1,
        confirmed_height: 0,
        confirmed_block_hash: "cd".to_string(),
    };
    let text = String::from_utf8(report_bytes(&rec)).unwrap();
    assert_eq!(text, "ab\n\n0\n\n0\n\n0\n0.00000001\n0\ncd\n");
}

#[test]
fn report_fraction_digits() {
    let rec = TransactionRecord {
        txid: "x".to_string(),
        input: endpoint("a", 123_456_789),
        primary_output: endpoint("b", 100_000_000),
        change_output: Some(endpoint("c", 10_000_000)),
        fee: 2_100_000_000_000_000,
        confirmed_height: 4_294_967_295,
        confirmed_block_hash: "y".to_string(),
    };
    let text = String::from_utf8(report_bytes(&rec)).unwrap();
    assert_eq!(text, "x\na\n1.23456789\nb\n1\nc\n0.1\n21000000\n4294967295\ny\n");
}

#[test]
fn last_payment_to_recipient_wins() {
    let outputs = vec![out(Some(R), 1), out(Some(C), 2), out(Some(R), 3)];
    let (primary, change) = scan_outputs(&outputs, &R.to_string());
    assert_eq!(primary, endpoint(R, 3));
    assert_eq!(change, Some(endpoint(C, 2)));
}

#[test]
fn no_payment_gives_empty_primary() {
    let outputs = vec![out(Some(C), 7), out(None, 9)];
    let (primary, change) = scan_outputs(&outputs, &R.to_string());
    assert_eq!(primary, endpoint("", 0));
    assert_eq!(change, Some(endpoint(C, 7)));
}

#[test]
fn last_change_candidate_wins() {
    let outputs = vec![out(Some("c1"), 4), out(Some(R), 5), out(Some("c2"), 6), out(None, 8)];
    let (primary, change) = scan_outputs(&outputs, &R.to_string());
    assert_eq!(primary, endpoint(R, 5));
    assert_eq!(change, Some(endpoint("c2", 6)));
}

#[test]
fn unresolvable_outputs_are_neither_payment_nor_change() {
    let outputs = vec![out(None, 4)];
    let (primary, change) = scan_outputs(&outputs, &R.to_string());
    assert_eq!(primary, endpoint("", 0));
    assert_eq!(change, None);
}

#[test]
fn no_outputs() {
    let (primary, change) = scan_outputs(&Vec::new(), &R.to_string());
    assert_eq!(primary, endpoint("", 0));
    assert_eq!(change, None);
}

#[test]
fn missing_previous_transaction_gives_empty_input() {
    let (tx, _) = payment();
    let rec = resolve(&"T".to_string(), &R.to_string(), &confirmed(0), &tx, None).unwrap();
    assert_eq!(rec.input, endpoint("", 0));
    assert_eq!(rec.primary_output, endpoint(R, 2_000_000_000));
}

#[test]
fn previous_output_index_out_of_range_gives_empty_input() {
    let (mut tx, previous) = payment();
    tx.inputs = vec![spend("prev", 1)];
    assert_eq!(resolve_input(&tx, Some(&previous)), endpoint("", 0));
}

#[test]
fn previous_output_without_address() {
    let (tx, mut previous) = payment();
    previous.outputs = vec![out(None, 77)];
    assert_eq!(resolve_input(&tx, Some(&previous)), endpoint("", 77));
}

#[test]
fn coinbase_input_gives_empty_input() {
    let (mut tx, previous) = payment();
    tx.inputs = vec![InputRef { prev_txid: None, prev_vout: None }];
    assert_eq!(previous_outpoint(&tx), None);
    assert_eq!(resolve_input(&tx, Some(&previous)), endpoint("", 0));
}

#[test]
fn no_inputs_gives_empty_input() {
    let (mut tx, previous) = payment();
    tx.inputs = Vec::new();
    assert_eq!(previous_outpoint(&tx), None);
    assert_eq!(resolve_input(&tx, Some(&previous)), endpoint("", 0));
}

#[test]
fn outpoint_of_first_input() {
    let (mut tx, _) = payment();
    tx.inputs.push(spend("other", 5));
    assert_eq!(previous_outpoint(&tx), Some(("prev".to_string(), 0)));
}

#[test]
fn missing_height_is_not_confirmed() {
    let (tx, previous) = payment();
    let mut meta = confirmed(-10_000);
    meta.confirmed_height = None;
    let r = resolve(&"T".to_string(), &R.to_string(), &meta, &tx, Some(&previous));
    assert_eq!(r, Err(ResolutionError::NotConfirmed));
}

#[test]
fn missing_block_hash_is_not_confirmed() {
    let (tx, previous) = payment();
    let mut meta = confirmed(-10_000);
    meta.confirmed_block_hash = None;
    let r = resolve(&"T".to_string(), &R.to_string(), &meta, &tx, Some(&previous));
    assert_eq!(r, Err(ResolutionError::NotConfirmed));
}

#[test]
fn fee_is_magnitude() {
    assert_eq!(fee_magnitude(-10_000), 10_000);
    assert_eq!(fee_magnitude(10_000), 10_000);
    assert_eq!(fee_magnitude(0), 0);
    assert_eq!(fee_magnitude(i64::MIN), 9_223_372_036_854_775_808);
    assert_eq!(fee_magnitude(i64::MAX), 9_223_372_036_854_775_807);
}

#[test]
fn output_address_defaults_to_empty() {
    assert_eq!(output_address(&out(Some(C), 1)), C);
    assert_eq!(output_address(&out(None, 1)), "");
}

#[test]
fn empty_endpoint() {
    assert_eq!(Endpoint::empty(), endpoint("", 0));
}

#[test]
fn failed_metadata_request_is_chain_access() {
    let (tx, _) = payment();
    let r = resolve_fetched(&"T".to_string(), &R.to_string(), Err("timeout".to_string()), Ok(tx), None);
    assert_eq!(r, Err(ResolutionError::ChainAccess("timeout".to_string())));
}

#[test]
fn failed_decode_is_chain_access() {
    let r = resolve_fetched(
        &"T".to_string(),
        &R.to_string(),
        Ok(confirmed(-10_000)),
        Err("bad hex".to_string()),
        None,
    );
    assert_eq!(r, Err(ResolutionError::ChainAccess("bad hex".to_string())));
}

#[test]
fn unconfirmed_is_reported_before_decode_failure() {
    let mut meta = confirmed(-10_000);
    meta.confirmed_block_hash = None;
    let r = resolve_fetched(&"T".to_string(), &R.to_string(), Ok(meta), Err("bad hex".to_string()), None);
    assert_eq!(r, Err(ResolutionError::NotConfirmed));
}

#[test]
fn fetched_outcomes_resolve_like_resolve() {
    let (tx, previous) = payment();
    let direct = resolve(&"T".to_string(), &R.to_string(), &confirmed(-10_000), &tx, Some(&previous));
    let fetched = resolve_fetched(
        &"T".to_string(),
        &R.to_string(),
        Ok(confirmed(-10_000)),
        Ok(tx.clone()),
        Some(&previous),
    );
    assert_eq!(direct, fetched);
    assert_eq!(fetched.unwrap().change_output, Some(endpoint(C, 2_999_990_000)));
}
