use vstd::prelude::*;
use vstd::utf8::encode_utf8;

use crate::model::{TransactionRecord, SATS_PER_COIN};

verus! {

/// The ASCII digit for `d`, below ten.
pub open spec fn digit(d: nat) -> u8 {
    (48 + d) as u8
}

/// `n` in decimal, without leading zeros.
pub open spec fn decimal(n: nat) -> Seq<u8>
    decreases n,
{
    if n < 10 {
        seq![digit(n)]
    } else {
        decimal(n / 10).push(digit(n % 10))
    }
}

/// The last `width` decimal digits of `n`, padded with leading zeros.
pub open spec fn fixed_digits(n: nat, width: nat) -> Seq<u8>
    decreases width,
{
    if width == 0 {
        Seq::empty()
    } else {
        fixed_digits(n / 10, (width - 1) as nat).push(digit(n % 10))
    }
}

/// `s` without its trailing `'0'` characters.
pub open spec fn trim_zeros(s: Seq<u8>) -> Seq<u8>
    decreases s.len(),
{
    if s.len() > 0 && s.last() == 48u8 {
        trim_zeros(s.drop_last())
    } else {
        s
    }
}

/// An amount of satoshis written in whole coins: the integer part, then, when
/// the amount is not a whole number of coins, a point and the fraction's
/// eight digits without trailing zeros (`2999990000` is `29.9999`).
pub open spec fn coin_text(sats: nat) -> Seq<u8> {
    let whole = sats / (SATS_PER_COIN as nat);
    let frac = sats % (SATS_PER_COIN as nat);
    if frac == 0 {
        decimal(whole)
    } else {
        decimal(whole) + seq![46u8] + trim_zeros(fixed_digits(frac, 8))
    }
}

/// `s` followed by a newline.
pub open spec fn line(s: Seq<u8>) -> Seq<u8> {
    s.push(10u8)
}

/// The report of a record: ten lines, one field each, in a fixed order; an
/// absent change output shows as an empty address and a zero amount.
pub open spec fn report_text(rec: TransactionRecord) -> Seq<u8> {
    let (change_address, change_amount) = match rec.change_output {
        Some(e) => (encode_utf8(e.address@), e.amount),
        None => (Seq::<u8>::empty(), 0u64),
    };
    line(encode_utf8(rec.txid@))
        + line(encode_utf8(rec.input.address@))
        + line(coin_text(rec.input.amount as nat))
        + line(encode_utf8(rec.primary_output.address@))
        + line(coin_text(rec.primary_output.amount as nat))
        + line(change_address)
        + line(coin_text(change_amount as nat))
        + line(coin_text(rec.fee as nat))
        + line(decimal(rec.confirmed_height as nat))
        + line(encode_utf8(rec.confirmed_block_hash@))
}

fn push_all(out: &mut Vec<u8>, bytes: &[u8])
    ensures
        final(out)@ == old(out)@ + bytes@,
{
    let mut i: usize = 0;
    while i < bytes.len()
        invariant
            0 <= i <= bytes.len(),
            out@ == old(out)@ + bytes@.subrange(0, i as int),
        decreases bytes.len() - i,
    {
        out.push(bytes[i]);
        i += 1;
        proof {
            assert(bytes@.subrange(0, i as int) =~= bytes@.subrange(0, i - 1).push(bytes@[i - 1]));
        }
    }
    proof {
        assert(bytes@.subrange(0, bytes@.len() as int) =~= bytes@);
    }
}

fn push_text(out: &mut Vec<u8>, s: &String)
    ensures
        final(out)@ == old(out)@ + encode_utf8(s@),
{
    let t = s.as_str();
    push_all(out, t.as_bytes());
}

/// Appends `n` in decimal.
pub fn push_decimal(out: &mut Vec<u8>, n: u64)
    ensures
        final(out)@ == old(out)@ + decimal(n as nat),
    decreases n,
{
    if n >= 10 {
        push_decimal(out, n / 10);
    }
    out.push(48u8 + (n % 10) as u8);
    proof {
        assert(final(out)@ =~= old(out)@ + decimal(n as nat));
    }
}

fn push_fixed(out: &mut Vec<u8>, n: u64, width: u32)
    ensures
        final(out)@ == old(out)@ + fixed_digits(n as nat, width as nat),
    decreases width,
{
    if width > 0 {
        push_fixed(out, n / 10, width - 1);
        out.push(48u8 + (n % 10) as u8);
    }
    proof {
        assert(final(out)@ =~= old(out)@ + fixed_digits(n as nat, width as nat));
    }
}

/// Appends an amount of satoshis written in whole coins.
pub fn push_coins(out: &mut Vec<u8>, sats: u64)
    ensures
        final(out)@ == old(out)@ + coin_text(sats as nat),
{
    let whole = sats / SATS_PER_COIN;
    let frac = sats % SATS_PER_COIN;
    push_decimal(out, whole);
    if frac != 0 {
        out.push(46u8);
        let mut digits: Vec<u8> = Vec::new();
        push_fixed(&mut digits, frac, 8);
        assert(digits@ =~= fixed_digits(frac as nat, 8));
        while digits.len() > 0 && digits[digits.len() - 1] == 48u8
            invariant
                trim_zeros(digits@) == trim_zeros(fixed_digits(frac as nat, 8)),
            decreases digits.len(),
        {
            let ghost before = digits@;
            digits.pop();
            assert(digits@ =~= before.drop_last());
        }
        push_all(out, digits.as_slice());
    }
    proof {
        assert(final(out)@ =~= old(out)@ + coin_text(sats as nat));
    }
}

/// The report of `rec` as bytes: see `report_text`.
pub fn report_bytes(rec: &TransactionRecord) -> (r: Vec<u8>)
    ensures
        r@ == report_text(*rec),
{
    let mut out: Vec<u8> = Vec::new();
    push_text(&mut out, &rec.txid);
    out.push(10u8);
    push_text(&mut out, &rec.input.address);
    out.push(10u8);
    push_coins(&mut out, rec.input.amount);
    out.push(10u8);
    push_text(&mut out, &rec.primary_output.address);
    out.push(10u8);
    push_coins(&mut out, rec.primary_output.amount);
    out.push(10u8);
    match &rec.change_output {
        Some(e) => {
            push_text(&mut out, &e.address);
            out.push(10u8);
            push_coins(&mut out, e.amount);
        },
        None => {
            out.push(10u8);
            push_coins(&mut out, 0);
        },
    }
    out.push(10u8);
    push_coins(&mut out, rec.fee);
    out.push(10u8);
    push_decimal(&mut out, rec.confirmed_height as u64);
    out.push(10u8);
    push_text(&mut out, &rec.confirmed_block_hash);
    out.push(10u8);
    proof {
        assert(out@ =~= report_text(*rec));
    }
    out
}

} // verus!
