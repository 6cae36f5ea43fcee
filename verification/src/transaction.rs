//! Raw signed transactions: what a trace of one needs, and the price that orders it.
use alloy_consensus::crypto::RecoveryError;
use alloy_consensus::transaction::TxEnvelope;
use alloy_consensus::Transaction as _;
use alloy_primitives::Address;
use alloy_rlp::Decodable as _;
use reth_primitives_traits::SignerRecoverable as _;
use vstd::prelude::*;
use vstd::string::StringExecFns;
use vstd::utf8::{encode_utf8, is_ascii_chars};

use crate::hex::{
    be_value, encode, hex_bytes, hex_decode, hex_text, law_decode_inverts_encode,
    law_bytes_are_written_high_half_first, law_other_characters_are_refused, quantity, quantity_of,
    quantity_text,
};
use crate::json::{text_member, Json, JsonTree};
use crate::text::{law_prefix_comes_off_whole, strip_prefix, without_prefix};

verus! {

/// `alloy_consensus::EthereumTxEnvelope`, a signed transaction of any type.
#[verifier::external_type_specification]
#[verifier::external_body]
#[verifier::reject_recursive_types(Eip4844)]
pub struct ExEthereumTxEnvelope<Eip4844>(alloy_consensus::EthereumTxEnvelope<Eip4844>);

/// `alloy_consensus::TxEip4844Variant`, the blob transactions of an envelope.
#[verifier::external_type_specification]
#[verifier::external_body]
#[verifier::reject_recursive_types(T)]
pub struct ExTxEip4844Variant<T>(alloy_consensus::TxEip4844Variant<T>);

/// `alloy_consensus::BlobTransactionSidecarVariant`, the blobs that such a transaction may carry.
#[verifier::external_type_specification]
#[verifier::external_body]
pub struct ExBlobTransactionSidecarVariant(alloy_consensus::BlobTransactionSidecarVariant);

/// `alloy_rlp::Error`, the reason why bytes hold no transaction.
#[verifier::external_type_specification]
#[verifier::external_body]
pub struct ExRlpError(alloy_rlp::Error);

/// `alloy_consensus::crypto::RecoveryError`, the failure to find a signer.
#[verifier::external_type_specification]
#[verifier::external_body]
pub struct ExRecoveryError(alloy_consensus::crypto::RecoveryError);

/// Why a raw transaction could not be used.
#[derive(Debug)]
pub enum TxError {
    /// The text does not stand for bytes.
    InvalidHex,
    /// The bytes hold no transaction.
    Decode(alloy_rlp::Error),
    /// No signer could be recovered from the signature.
    Signer(RecoveryError),
}

/// What a transaction offers to pay per unit of gas, by its type: a gas price, or at most
/// `max_fee_per_gas` in all and `max_priority_fee_per_gas` of it as a tip.
#[derive(Debug, Clone, Copy, PartialEq, Eq, Structural)]
pub enum Pricing {
    Legacy { gas_price: u128 },
    Eip2930 { gas_price: u128 },
    Eip1559 { max_fee: u128, max_tip: u128 },
    Eip4844 { max_fee: u128, max_tip: u128 },
    Eip7702 { max_fee: u128, max_tip: u128 },
}

/// The signed transaction that `TxEnvelope::decode` reads at the start of `bytes`.
pub uninterp spec fn envelope_of(bytes: Seq<u8>) -> Option<TxEnvelope>;

/// The address that `SignerRecoverable::recover_signer` finds for an envelope.
pub uninterp spec fn envelope_signer(envelope: TxEnvelope) -> Option<Seq<u8>>;

/// The address that `Transaction::to` gives for an envelope.
pub uninterp spec fn envelope_to(envelope: TxEnvelope) -> Option<Seq<u8>>;

/// The amount that `Transaction::value` gives for an envelope.
pub uninterp spec fn envelope_value(envelope: TxEnvelope) -> nat;

/// The bytes that `Transaction::input` gives for an envelope.
pub uninterp spec fn envelope_input(envelope: TxEnvelope) -> Seq<u8>;

/// The limit that `Transaction::gas_limit` gives for an envelope.
pub uninterp spec fn envelope_gas_limit(envelope: TxEnvelope) -> u64;

/// The type of an envelope, with the prices that its transaction holds.
pub uninterp spec fn envelope_pricing(envelope: TxEnvelope) -> Pricing;

/// The text that an `alloy_primitives::Address` has when it is displayed.
pub uninterp spec fn address_text(address: Seq<u8>) -> Seq<char>;

/// `TxEnvelope::decode`: the signed transaction at the start of `bytes`, whatever follows it, or an
/// error where there is none. Which error it is, is not stated: lengths that the machine's `usize`
/// cannot hold are told apart from lengths that overrun the input.
#[verifier::external_body]
fn decode_envelope(bytes: &[u8]) -> (envelope: Result<TxEnvelope, alloy_rlp::Error>)
    ensures
        match envelope {
            Ok(e) => envelope_of(bytes@) == Some(e),
            Err(_) => envelope_of(bytes@) is None,
        },
{
    let mut rest = bytes;
    TxEnvelope::decode(&mut rest)
}

/// `SignerRecoverable::recover_signer`: the address whose key signed the transaction, or an error
/// where its signature is not valid.
#[verifier::external_body]
fn signer_of(envelope: &TxEnvelope) -> (signer: Result<[u8; 20], RecoveryError>)
    ensures
        match signer {
            Ok(address) => envelope_signer(*envelope) == Some(address@),
            Err(_) => envelope_signer(*envelope) is None,
        },
{
    envelope.recover_signer().map(Address::into_array)
}

/// `Transaction::to`: whom the transaction calls; `None` where it creates a contract.
#[verifier::external_body]
fn to_of(envelope: &TxEnvelope) -> (to: Option<[u8; 20]>)
    ensures
        match to {
            Some(address) => envelope_to(*envelope) == Some(address@),
            None => envelope_to(*envelope) is None,
        },
{
    envelope.to().map(Address::into_array)
}

/// `Transaction::value`: the amount that the transaction transfers, as a big-endian number.
#[verifier::external_body]
fn value_of(envelope: &TxEnvelope) -> (value: [u8; 32])
    ensures
        be_value(value@) == envelope_value(*envelope),
{
    envelope.value().to_be_bytes()
}

/// `Transaction::input`: the bytes that the transaction hands over.
#[verifier::external_body]
fn input_of(envelope: &TxEnvelope) -> (input: Vec<u8>)
    ensures
        input@ == envelope_input(*envelope),
{
    envelope.input().to_vec()
}

/// `Transaction::gas_limit`: the gas that the transaction may use.
#[verifier::external_body]
fn gas_limit_of(envelope: &TxEnvelope) -> (gas: u64)
    ensures
        gas == envelope_gas_limit(*envelope),
{
    envelope.gas_limit()
}

/// Tells the types of a `TxEnvelope` apart and takes the prices out of its transaction.
#[verifier::external_body]
fn pricing_of(envelope: &TxEnvelope) -> (pricing: Pricing)
    ensures
        pricing == envelope_pricing(*envelope),
{
    match envelope {
        TxEnvelope::Legacy(s) => Pricing::Legacy { gas_price: s.tx().gas_price },
        TxEnvelope::Eip2930(s) => Pricing::Eip2930 { gas_price: s.tx().gas_price },
        TxEnvelope::Eip1559(s) => Pricing::Eip1559 {
            max_fee: s.tx().max_fee_per_gas, max_tip: s.tx().max_priority_fee_per_gas,
        },
        TxEnvelope::Eip4844(s) => Pricing::Eip4844 {
            max_fee: s.tx().max_fee_per_gas(), max_tip: s.tx().tx().max_priority_fee_per_gas,
        },
        TxEnvelope::Eip7702(s) => Pricing::Eip7702 {
            max_fee: s.tx().max_fee_per_gas, max_tip: s.tx().max_priority_fee_per_gas,
        },
    }
}

/// `Display` of `alloy_primitives::Address`: `0x` and forty digits that stand for the address. Which
/// of the digits are upper case is a checksum, and is not stated.
#[verifier::external_body]
fn display_address(address: [u8; 20]) -> (text: String)
    ensures
        text@ == address_text(address@),
        text@.len() == 42,
        "0x"@.is_prefix_of(text@),
        hex_bytes(encode_utf8(text@.skip(2))) == Some(address@),
{
    Address::from(address).to_string()
}

/// The digits of a raw transaction: its text without one leading `0x`.
pub open spec fn raw_digits(raw_tx: Seq<char>) -> Seq<char> {
    match without_prefix(raw_tx, "0x"@) {
        Some(digits) => digits,
        None => raw_tx,
    }
}

/// The bytes that a raw transaction stands for.
pub open spec fn raw_bytes(raw_tx: Seq<char>) -> Option<Seq<u8>> {
    hex_bytes(encode_utf8(raw_digits(raw_tx)))
}

/// The call that a trace makes in place of a transaction: `to` is there unless it creates a contract.
pub open spec fn trace_object(
    from: Seq<u8>,
    to: Option<Seq<u8>>,
    value: nat,
    input: Seq<u8>,
    gas: nat,
) -> JsonTree {
    let fields = Map::<Seq<char>, JsonTree>::empty()
        .insert("from"@, JsonTree::Text(address_text(from)))
        .insert("value"@, JsonTree::Text(quantity_text(value)))
        .insert("data"@, JsonTree::Text("0x"@ + hex_text(input)))
        .insert("gas"@, JsonTree::Text(quantity_text(gas)));
    match to {
        Some(address) => JsonTree::Fields(
            fields.insert("to"@, JsonTree::Text(address_text(address))),
        ),
        None => JsonTree::Fields(fields),
    }
}

/// The price that orders a transaction among others: what it pays at most per unit of gas.
pub open spec fn ordering_price(pricing: Pricing) -> u128 {
    match pricing {
        Pricing::Legacy { gas_price } => gas_price,
        Pricing::Eip2930 { gas_price } => gas_price,
        Pricing::Eip1559 { max_fee, .. } => max_fee,
        Pricing::Eip4844 { max_fee, .. } => max_fee,
        Pricing::Eip7702 { max_fee, .. } => max_fee,
    }
}

fn digits_of<'a>(raw_tx: &'a str) -> (digits: &'a str)
    ensures
        digits@ == raw_digits(raw_tx@),
{
    match strip_prefix(raw_tx, "0x") {
        Some(digits) => digits,
        None => raw_tx,
    }
}

fn envelope_of_raw_tx(raw_tx: &str) -> (envelope: Result<TxEnvelope, TxError>)
    ensures
        match raw_bytes(raw_tx@) {
            None => envelope matches Err(TxError::InvalidHex),
            Some(bytes) => match envelope_of(bytes) {
                None => envelope matches Err(TxError::Decode(_)),
                Some(e) => envelope == Ok::<TxEnvelope, TxError>(e),
            },
        },
{
    match hex_decode(digits_of(raw_tx)) {
        None => Err(TxError::InvalidHex),
        Some(bytes) => match decode_envelope(bytes.as_slice()) {
            Ok(envelope) => Ok(envelope),
            Err(error) => Err(TxError::Decode(error)),
        },
    }
}

/// The call that a trace makes in place of a transaction with these fields.
pub fn trace_object_of(
    from: [u8; 20],
    to: Option<[u8; 20]>,
    value: [u8; 32],
    input: &[u8],
    gas: u64,
) -> (object: Json)
    ensures
        object@ == trace_object(
            from@,
            match to {
                Some(address) => Some(address@),
                None => None,
            },
            be_value(value@),
            input@,
            gas as nat,
        ),
{
    let mut data = String::from_str("0x");
    data.append(encode(input).as_str());
    let object = Json::object()
        .with("from", Json::Text(display_address(from)))
        .with("value", Json::Text(quantity(value.as_slice())))
        .with("data", Json::Text(data))
        .with("gas", Json::Text(quantity_of(gas)));
    match to {
        Some(address) => object.with("to", Json::Text(display_address(address))),
        None => object,
    }
}

/// Decode a raw signed transaction into a JSON object suitable for tracing.
pub fn decode_raw_tx_for_trace(raw_tx: &str) -> (object: Result<Json, TxError>)
    ensures
        match raw_bytes(raw_tx@) {
            None => object matches Err(TxError::InvalidHex),
            Some(bytes) => match envelope_of(bytes) {
                None => object matches Err(TxError::Decode(_)),
                Some(e) => match envelope_signer(e) {
                    None => object matches Err(TxError::Signer(_)),
                    Some(from) => {
                        &&& object matches Ok(json)
                        &&& json@ == trace_object(
                            from,
                            envelope_to(e),
                            envelope_value(e),
                            envelope_input(e),
                            envelope_gas_limit(e) as nat,
                        )
                    },
                },
            },
        },
{
    let envelope = match envelope_of_raw_tx(raw_tx) {
        Ok(envelope) => envelope,
        Err(error) => {
            return Err(error);
        },
    };
    match signer_of(&envelope) {
        Ok(from) => {
            let input = input_of(&envelope);
            Ok(
                trace_object_of(
                    from,
                    to_of(&envelope),
                    value_of(&envelope),
                    input.as_slice(),
                    gas_limit_of(&envelope),
                ),
            )
        },
        Err(error) => Err(TxError::Signer(error)),
    }
}

/// The price that orders a transaction with this pricing.
pub fn effective_gas_price(pricing: Pricing) -> (price: u128)
    ensures
        price == ordering_price(pricing),
{
    match pricing {
        Pricing::Legacy { gas_price } => gas_price,
        Pricing::Eip2930 { gas_price } => gas_price,
        Pricing::Eip1559 { max_fee, max_tip: _ } => max_fee,
        Pricing::Eip4844 { max_fee, max_tip: _ } => max_fee,
        Pricing::Eip7702 { max_fee, max_tip: _ } => max_fee,
    }
}

/// Extract the effective gas price from a raw signed transaction.
/// For EIP-1559 transactions this is `max_fee_per_gas` (the worst-case ordering price).
/// For legacy and EIP-2930 transactions it is `gas_price`.
pub fn extract_gas_price_from_raw_tx(raw_tx: &str) -> (price: Result<u128, TxError>)
    ensures
        match raw_bytes(raw_tx@) {
            None => price matches Err(TxError::InvalidHex),
            Some(bytes) => match envelope_of(bytes) {
                None => price matches Err(TxError::Decode(_)),
                Some(e) => price == Ok::<u128, TxError>(ordering_price(envelope_pricing(e))),
            },
        },
{
    match envelope_of_raw_tx(raw_tx) {
        Ok(envelope) => Ok(effective_gas_price(pricing_of(&envelope))),
        Err(error) => Err(error),
    }
}

/// A leading `0x` is optional: with it and without it a raw transaction has the same digits.
pub proof fn law_prefix_is_optional(raw_tx: Seq<char>)
    requires
        !"0x"@.is_prefix_of(raw_tx),
    ensures
        raw_digits("0x"@ + raw_tx) == raw_digits(raw_tx),
        raw_bytes("0x"@ + raw_tx) == raw_bytes(raw_tx),
{
    let prefixed = "0x"@ + raw_tx;
    assert("0x"@ =~= prefixed.subrange(0, "0x"@.len() as int));
    assert(prefixed.skip("0x"@.len() as int) =~= raw_tx);
}

/// A raw transaction with a character outside ASCII stands for no bytes, and so is refused by value.
pub proof fn law_other_characters_are_no_transaction(raw_tx: Seq<char>)
    requires
        !is_ascii_chars(raw_tx),
    ensures
        raw_bytes(raw_tx) is None,
{
    reveal_strlit("0x");
    let digits = raw_digits(raw_tx);
    if is_ascii_chars(digits) {
        assert forall|i: int| 0 <= i < raw_tx.len() implies '\0' <= #[trigger] raw_tx[i] <= '\u{7f}' by {
            if digits.len() < raw_tx.len() {
                if i < 2 {
                    assert(raw_tx[i] == "0x"@[i]);
                } else {
                    assert(raw_tx[i] == digits[i - 2]);
                }
            }
        }
    }
    law_other_characters_are_refused(digits);
}

/// The call that a trace makes hands over the bytes of the transaction: its `data` is `0x` and digits
/// that stand for them.
pub proof fn law_trace_object_keeps_the_input(
    from: Seq<u8>,
    to: Option<Seq<u8>>,
    value: nat,
    input: Seq<u8>,
    gas: nat,
)
    ensures
        ({
            let data = text_member(trace_object(from, to, value, input, gas), "data"@);
            &&& data matches Some(text)
            &&& raw_bytes(text) == Some(input)
        }),
{
    reveal_strlit("to");
    reveal_strlit("data");
    reveal_strlit("gas");
    assert("to"@.len() == 2 && "data"@.len() == 4 && "gas"@.len() == 3);
    let text = "0x"@ + hex_text(input);
    assert("0x"@ =~= text.subrange(0, "0x"@.len() as int));
    assert(text.skip("0x"@.len() as int) =~= hex_text(input));
    law_decode_inverts_encode(input);
}

/// The call that a trace makes has a destination exactly where the transaction has one.
pub proof fn law_trace_object_keeps_the_destination(
    from: Seq<u8>,
    to: Option<Seq<u8>>,
    value: nat,
    input: Seq<u8>,
    gas: nat,
)
    ensures
        text_member(trace_object(from, to, value, input, gas), "to"@) == match to {
            Some(address) => Some(address_text(address)),
            None => None,
        },
{
    reveal_strlit("to");
    reveal_strlit("from");
    reveal_strlit("value");
    reveal_strlit("data");
    reveal_strlit("gas");
    assert("to"@.len() == 2);
    assert("from"@.len() == 4 && "value"@.len() == 5 && "data"@.len() == 4 && "gas"@.len() == 3);
}

/// What a raw transaction has behind one leading `0x` are its digits, all of them; without a leading `0x`
/// all of it are. Its bytes are those that the digits stand for.
pub proof fn law_all_digits_of_a_raw_transaction_count(text: Seq<char>)
    ensures
        raw_digits(seq!['0', 'x'] + text) == text,
        raw_bytes(seq!['0', 'x'] + text) == hex_bytes(encode_utf8(text)),
        !(text.len() >= 2 && text[0] == '0' && text[1] == 'x') ==> raw_digits(text) == text
            && raw_bytes(text) == hex_bytes(encode_utf8(text)),
{
    reveal_strlit("0x");
    assert("0x"@ =~= seq!['0', 'x']);
    law_prefix_comes_off_whole(seq!['0', 'x'] + text, "0x"@);
    assert("0x"@ + text == seq!['0', 'x'] + text);
    if let Some(rest) = without_prefix(text, "0x"@) {
        law_prefix_comes_off_whole(text, "0x"@);
        assert(text[0] == '0' && text[1] == 'x');
    }
}

/// The bytes of any transaction come back from its text, written with `0x` or without.
pub proof fn law_raw_transaction_carries_its_bytes(bytes: Seq<u8>)
    ensures
        raw_bytes(seq!['0', 'x'] + hex_text(bytes)) == Some(bytes),
        raw_bytes(hex_text(bytes)) == Some(bytes),
{
    law_all_digits_of_a_raw_transaction_count(hex_text(bytes));
    law_decode_inverts_encode(bytes);
    if bytes.len() > 0 {
        law_bytes_are_written_high_half_first(bytes, 0);
    }
}

/// The call that a trace makes has the members `from`, `value`, `data` and `gas`, and `to` where there is
/// a destination; no others. Each is a text: the addresses as they are displayed, the amount and the
/// gas as quantities, and `data` as `0x` and the digits of the input.
pub proof fn law_trace_object_has_the_fields_of_the_transaction(
    from: Seq<u8>,
    to: Option<Seq<u8>>,
    value: nat,
    input: Seq<u8>,
    gas: nat,
)
    ensures
        ({
            &&& trace_object(from, to, value, input, gas) matches JsonTree::Fields(m)
            &&& m.dom() == if to is Some {
                set!["from"@, "to"@, "value"@, "data"@, "gas"@]
            } else {
                set!["from"@, "value"@, "data"@, "gas"@]
            }
            &&& m["from"@] == JsonTree::Text(address_text(from))
            &&& m["value"@] == JsonTree::Text(quantity_text(value))
            &&& m["data"@] == JsonTree::Text("0x"@ + hex_text(input))
            &&& m["gas"@] == JsonTree::Text(quantity_text(gas))
            &&& to matches Some(address) ==> m["to"@] == JsonTree::Text(address_text(address))
        }),
{
    reveal_strlit("to");
    reveal_strlit("from");
    reveal_strlit("value");
    reveal_strlit("data");
    reveal_strlit("gas");
    assert("to"@.len() == 2 && "value"@.len() == 5 && "gas"@.len() == 3);
    assert("from"@.len() == 4 && "data"@.len() == 4 && "from"@[0] == 'f' && "data"@[0] == 'd');
    let m = trace_object(from, to, value, input, gas)->Fields_0;
    if to is Some {
        assert(m.dom() =~= set!["from"@, "to"@, "value"@, "data"@, "gas"@]);
    } else {
        assert(m.dom() =~= set!["from"@, "value"@, "data"@, "gas"@]);
    }
}

/// What orders a transaction is the most that it pays per unit of gas, whatever its tip: its gas price,
/// or its fee cap.
pub proof fn law_price_is_the_most_that_is_paid(most: u128, tip: u128)
    ensures
        ordering_price(Pricing::Legacy { gas_price: most }) == most,
        ordering_price(Pricing::Eip2930 { gas_price: most }) == most,
        ordering_price(Pricing::Eip1559 { max_fee: most, max_tip: tip }) == most,
        ordering_price(Pricing::Eip4844 { max_fee: most, max_tip: tip }) == most,
        ordering_price(Pricing::Eip7702 { max_fee: most, max_tip: tip }) == most,
{
}

} // verus!
