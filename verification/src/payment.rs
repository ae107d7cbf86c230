//! Observing a payment: the outputs of the transaction that accompanies a
//! call, the script they must pay to, and the amount they pay to it.

use bitcoin::consensus::Decodable;
use vstd::prelude::*;
use vstd::utf8::encode_utf8;

verus! {

/// The error of `hex::decode`. Nothing is read from it.
#[verifier::external_type_specification]
#[verifier::external_body]
pub struct ExFromHexError(hex::FromHexError);

/// The error of `bitcoin`'s consensus decoding. Nothing is read from it.
#[verifier::external_type_specification]
#[verifier::external_body]
pub struct ExConsensusError(bitcoin::consensus::encode::Error);

/// One output of a transaction: the script that locks it and its value in
/// the payment system's smallest unit.
#[derive(Clone, Debug)]
pub struct TxOutput {
    pub script_pubkey: Vec<u8>,
    pub value: u64,
}

/// An output as mathematics sees it: script bytes and value.
pub type OutputView = (Seq<u8>, u64);

/// The outputs of a list, each as script bytes and value.
pub open spec fn output_views(outputs: Seq<TxOutput>) -> Seq<OutputView> {
    Seq::new(outputs.len(), |i: int| (outputs[i].script_pubkey@, outputs[i].value))
}

/// The value of one hexadecimal digit, upper or lower case.
pub open spec fn hex_digit(c: u8) -> Option<int> {
    if 48 <= c <= 57 {
        Some(c - 48)
    } else if 65 <= c <= 70 {
        Some(c - 55)
    } else if 97 <= c <= 102 {
        Some(c - 87)
    } else {
        None
    }
}

/// Whether `text` is a hexadecimal string: an even number of digits and
/// nothing else.
pub open spec fn is_hex(text: Seq<u8>) -> bool {
    text.len() % 2 == 0 && forall|i: int| 0 <= i < text.len() ==> hex_digit(#[trigger] text[i]).is_some()
}

/// The bytes that a hexadecimal string stands for: each pair of digits
/// gives one byte, the first digit its upper half.
pub open spec fn hex_bytes(text: Seq<u8>) -> Seq<u8> {
    Seq::new(
        text.len() / 2,
        |i: int| (16 * hex_digit(text[2 * i]).unwrap() + hex_digit(text[2 * i + 1]).unwrap()) as u8,
    )
}

/// The outputs of the transaction that `bytes` encode, as `bitcoin`'s
/// consensus decoding reads them from the front of `bytes`; `None` where
/// it rejects them.
pub uninterp spec fn decoded_outputs(bytes: Seq<u8>) -> Option<Seq<OutputView>>;

/// Calls `hex::decode`. It accepts exactly the strings of an even number
/// of hexadecimal digits, either case, and returns one byte per pair of
/// digits, the first digit being the upper four bits.
#[verifier::external_body]
fn decode_hex(text: &[u8]) -> (decoded: Result<Vec<u8>, hex::FromHexError>)
    ensures
        decoded.is_ok() == is_hex(text@),
        decoded.is_ok() ==> decoded.unwrap()@ == hex_bytes(text@),
{
    hex::decode(text)
}

/// Calls `Transaction::consensus_decode` of `bitcoin` on `bytes` and hands
/// out the script and the value of each output, in the transaction's
/// order. The result depends on `bytes` alone; it is named, not spelled out.
#[verifier::external_body]
fn decode_transaction_outputs(bytes: &[u8]) -> (outputs: Result<
    Vec<TxOutput>,
    bitcoin::consensus::encode::Error,
>)
    ensures
        match outputs {
            Ok(list) => decoded_outputs(bytes@) == Some(output_views(list@)),
            Err(_) => decoded_outputs(bytes@).is_none(),
        },
{
    let mut reader = bytes;
    let tx = bitcoin::Transaction::consensus_decode(&mut reader)?;
    let mut list = Vec::new();
    for out in tx.output.iter() {
        list.push(TxOutput { script_pubkey: out.script_pubkey.as_bytes().to_vec(), value: out.value.to_sat() });
    }
    Ok(list)
}

/// What `outputs` pay to `script`: the sum of the values of the outputs
/// whose script is exactly `script`.
pub open spec fn paid_to(outputs: Seq<OutputView>, script: Seq<u8>) -> nat
    decreases outputs.len(),
{
    if outputs.len() == 0 {
        0
    } else {
        paid_to(outputs.drop_last(), script) + if outputs.last().0 == script {
            outputs.last().1 as nat
        } else {
            0
        }
    }
}

/// A payment is at most the largest value times the number of outputs.
pub proof fn lemma_paid_to_bound(outputs: Seq<OutputView>, script: Seq<u8>)
    ensures
        paid_to(outputs, script) <= outputs.len() * 0xffff_ffff_ffff_ffff,
    decreases outputs.len(),
{
    if outputs.len() > 0 {
        lemma_paid_to_bound(outputs.drop_last(), script);
        assert((outputs.len() - 1) * 0xffff_ffff_ffff_ffff + 0xffff_ffff_ffff_ffff == outputs.len()
            * 0xffff_ffff_ffff_ffff) by (nonlinear_arith);
    }
}

/// The buffer into which a transaction of `tx_len` bytes is loaded:
/// `tx_len` zero bytes. `None` where `tx_len` is not positive, which is how
/// the host says that no transaction can be had.
pub fn transaction_buffer(tx_len: i32) -> (buffer: Option<Vec<u8>>)
    ensures
        tx_len <= 0 ==> buffer.is_none(),
        tx_len > 0 ==> buffer.is_some() && buffer.unwrap()@ == Seq::new(
            tx_len as nat,
            |i: int| 0u8,
        ),
{
    if tx_len <= 0 {
        return None;
    }
    let buffer: Vec<u8> = vec![0u8; tx_len as usize];
    assert(buffer@ =~= Seq::new(tx_len as nat, |i: int| 0u8));
    Some(buffer)
}

/// Decodes a hexadecimal script. `None` where the text is not hexadecimal.
pub fn decode_script(script_hex: &str) -> (script: Option<Vec<u8>>)
    ensures
        match script {
            Some(bytes) => is_hex(encode_utf8(script_hex@)) && bytes@ == hex_bytes(
                encode_utf8(script_hex@),
            ),
            None => !is_hex(encode_utf8(script_hex@)),
        },
{
    match decode_hex(script_hex.as_bytes()) {
        Ok(bytes) => Some(bytes),
        Err(_) => None,
    }
}

/// Decodes the outputs of an encoded transaction. `None` where the bytes
/// are no transaction.
pub fn transaction_outputs(bytes: &[u8]) -> (outputs: Option<Vec<TxOutput>>)
    ensures
        match outputs {
            Some(list) => decoded_outputs(bytes@) == Some(output_views(list@)),
            None => decoded_outputs(bytes@).is_none(),
        },
{
    match decode_transaction_outputs(bytes) {
        Ok(list) => Some(list),
        Err(_) => None,
    }
}

/// Sums the values of the outputs locked by exactly `script`.
pub fn payment_to_script(outputs: &Vec<TxOutput>, script: &[u8]) -> (paid: u128)
    ensures
        paid == paid_to(output_views(outputs@), script@),
{
    let ghost views = output_views(outputs@);
    let mut paid: u128 = 0;
    let mut i: usize = 0;
    while i < outputs.len()
        invariant
            i <= outputs@.len(),
            views == output_views(outputs@),
            paid == paid_to(views.subrange(0, i as int), script@),
        decreases outputs@.len() - i,
    {
        proof {
            let next = views.subrange(0, i + 1);
            assert(next.drop_last() =~= views.subrange(0, i as int));
            assert(next.last() == views[i as int]);
            lemma_paid_to_bound(next, script@);
            assert(next.len() * 0xffff_ffff_ffff_ffff <= 0xffff_ffff_ffff_ffff
                * 0xffff_ffff_ffff_ffff) by (nonlinear_arith)
                requires
                    next.len() <= 0xffff_ffff_ffff_ffff,
            ;
        }
        if crate::store::bytes_equal(outputs[i].script_pubkey.as_slice(), script) {
            paid = paid + outputs[i].value as u128;
        }
        i += 1;
    }
    assert(views.subrange(0, i as int) =~= views);
    paid
}

} // verus!
