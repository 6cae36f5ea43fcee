use alloy_consensus::transaction::TxEnvelope;
use alloy_consensus::{
    SignableTransaction, Signed, TxEip1559, TxEip2930, TxEip4844, TxEip4844Variant, TxEip7702,
    TxLegacy,
};
use alloy_eips::Encodable2718;
use alloy_primitives::{Address, Bytes, Signature, TxKind, B256, U256};
use alloy_signer::SignerSync;
use alloy_signer_local::PrivateKeySigner;
use l1_proxy::detection::{detect_request, handle_cross_chain_tx, traced_call, DetectAction};
use l1_proxy::hex::{encode, hex_decode};
use l1_proxy::json::{print, Json};
use l1_proxy::transaction::{
    decode_raw_tx_for_trace, effective_gas_price, extract_gas_price_from_raw_tx, trace_object_of,
    Pricing, TxError,
};

const SIGNER_TEXT: &str = "0x7E5F4552091A69125d5DfCb7b8C2659029395Bdf";
const TO: [u8; 20] = [
    0xd8, 0xda, 0x6b, 0xf2, 0x69, 0x64, 0xaf, 0x9d, 0x7e, 0xed, 0x9e, 0x03, 0xe5, 0x34, 0x15, 0xd3,
    0x7a, 0xa9, 0x60, 0x45,
];
const TO_TEXT: &str = "0xd8dA6BF26964aF9D7eEd9e03E53415D37aA96045";

fn signer() -> PrivateKeySigner {
    PrivateKeySigner::from_bytes(&B256::from(U256::from(1))).unwrap()
}

fn sign<T: SignableTransaction<Signature>>(tx: T) -> Signed<T> {
    let signature = signer().sign_hash_sync(&tx.signature_hash()).unwrap();
    tx.into_signed(signature)
}

fn raw(envelope: TxEnvelope) -> String {
    format!("0x{}", encode(&envelope.encoded_2718()))
}

fn legacy(to: TxKind) -> TxLegacy {
    TxLegacy {
        chain_id: Some(10200),
        nonce: 7,
        gas_price: 1_500_000_000,
        gas_limit: 21_000,
        to,
        value: U256::from(1_000_000_000_000_000_000u64),
        input: Bytes::from(vec![0x08, 0xc3, 0x79, 0xa0]),
    }
}

fn dynamic(to: TxKind) -> TxEip1559 {
    TxEip1559 {
        chain_id: 10200,
        nonce: 1,
        gas_limit: 100_000,
        max_fee_per_gas: 9_000,
        max_priority_fee_per_gas: 10,
        to,
        value: U256::ZERO,
        access_list: Default::default(),
        input: Bytes::new(),
    }
}

#[test]
fn a_legacy_transaction_becomes_a_trace_object() {
    let raw_tx = raw(TxEnvelope::Legacy(sign(legacy(TxKind::Call(Address::from(TO))))));
    let object = decode_raw_tx_for_trace(&raw_tx).unwrap();
    assert_eq!(
        print(object),
        format!(
            "{{\"data\":\"0x08c379a0\",\"from\":\"{SIGNER_TEXT}\",\"gas\":\"0x5208\",\
             \"to\":\"{TO_TEXT}\",\"value\":\"0xde0b6b3a7640000\"}}"
        )
    );
}

#[test]
fn a_contract_creation_has_no_destination() {
    let raw_tx = raw(TxEnvelope::Eip1559(sign(dynamic(TxKind::Create))));
    let object = decode_raw_tx_for_trace(&raw_tx).unwrap();
    assert!(object.get("to").is_none());
    assert_eq!(object.get_text("value"), Some("0x0"));
    assert_eq!(object.get_text("data"), Some("0x"));
    assert_eq!(object.get_text("from"), Some(SIGNER_TEXT));
    assert!(traced_call(&object).is_none());
    assert!(matches!(handle_cross_chain_tx(&raw_tx), Ok(None)));
}

#[test]
fn a_call_is_traced_with_the_fields_of_its_transaction() {
    let raw_tx = raw(TxEnvelope::Eip1559(sign(dynamic(TxKind::Call(Address::from(TO))))));
    let call = handle_cross_chain_tx(&raw_tx).unwrap().unwrap();
    assert_eq!(call.from, SIGNER_TEXT);
    assert_eq!(call.to, TO_TEXT);
    assert_eq!(call.data, "0x");
    assert_eq!(call.value, "0x0");
}

#[test]
fn the_prefix_is_optional() {
    let raw_tx = raw(TxEnvelope::Legacy(sign(legacy(TxKind::Call(Address::from(TO))))));
    let bare = &raw_tx[2..];
    assert_eq!(
        print(decode_raw_tx_for_trace(bare).unwrap()),
        print(decode_raw_tx_for_trace(&raw_tx).unwrap())
    );
    assert_eq!(extract_gas_price_from_raw_tx(bare).unwrap(), 1_500_000_000);
    assert_eq!(extract_gas_price_from_raw_tx(&raw_tx.to_uppercase()[2..]).unwrap(), 1_500_000_000);
}

#[test]
fn the_trace_object_keeps_the_input() {
    let input = [0u8, 1, 0xfe, 0xff];
    let object = trace_object_of([0; 20], None, [0; 32], &input, 0);
    let data = object.get_text("data").unwrap();
    assert_eq!(hex_decode(&data[2..]), Some(input.to_vec()));
    assert_eq!(object.get_text("from"), Some("0x0000000000000000000000000000000000000000"));
}

#[test]
fn the_trace_object_names_the_destination() {
    let object = trace_object_of([0; 20], Some(TO), [0; 32], &[], 0x2faf080);
    assert_eq!(object.get_text("to"), Some(TO_TEXT));
    assert_eq!(object.get_text("gas"), Some("0x2faf080"));
    assert_eq!(hex_decode(&object.get_text("to").unwrap()[2..]), Some(TO.to_vec()));
}

#[test]
fn each_type_of_transaction_has_its_price() {
    let to = TxKind::Call(Address::from(TO));
    let price = |envelope| extract_gas_price_from_raw_tx(&raw(envelope)).unwrap();
    assert_eq!(price(TxEnvelope::Legacy(sign(legacy(to)))), 1_500_000_000);
    assert_eq!(
        price(TxEnvelope::Eip2930(sign(TxEip2930 { gas_price: 77, to, ..Default::default() }))),
        77
    );
    assert_eq!(price(TxEnvelope::Eip1559(sign(dynamic(to)))), 9_000);
    let blob = TxEip4844 {
        max_fee_per_gas: 88,
        max_priority_fee_per_gas: 8,
        to: Address::from(TO),
        blob_versioned_hashes: vec![B256::ZERO],
        ..Default::default()
    };
    assert_eq!(price(TxEnvelope::Eip4844(sign(TxEip4844Variant::TxEip4844(blob)))), 88);
    let setting = TxEip7702 {
        max_fee_per_gas: 99,
        max_priority_fee_per_gas: 9,
        to: Address::from(TO),
        ..Default::default()
    };
    assert_eq!(price(TxEnvelope::Eip7702(sign(setting))), 99);
}

#[test]
fn the_price_is_what_is_paid_at_most() {
    assert_eq!(effective_gas_price(Pricing::Legacy { gas_price: 1 }), 1);
    assert_eq!(effective_gas_price(Pricing::Eip2930 { gas_price: 2 }), 2);
    assert_eq!(effective_gas_price(Pricing::Eip1559 { max_fee: 3, max_tip: 1 }), 3);
    assert_eq!(effective_gas_price(Pricing::Eip4844 { max_fee: 4, max_tip: 1 }), 4);
    assert_eq!(effective_gas_price(Pricing::Eip7702 { max_fee: 5, max_tip: 1 }), 5);
}

#[test]
fn bytes_after_a_transaction_are_ignored() {
    let raw_tx = raw(TxEnvelope::Legacy(sign(legacy(TxKind::Call(Address::from(TO))))));
    assert_eq!(extract_gas_price_from_raw_tx(&format!("{raw_tx}00ff")).unwrap(), 1_500_000_000);
}

#[test]
fn what_is_not_hexadecimal_is_refused() {
    assert!(matches!(decode_raw_tx_for_trace("0xzz"), Err(TxError::InvalidHex)));
    assert!(matches!(extract_gas_price_from_raw_tx("0x123"), Err(TxError::InvalidHex)));
    assert!(matches!(decode_raw_tx_for_trace("0x0x"), Err(TxError::InvalidHex)));
    assert!(matches!(handle_cross_chain_tx("xyz"), Err(TxError::InvalidHex)));
}

#[test]
fn a_raw_transaction_with_a_sign_is_refused() {
    let raw_tx = raw(TxEnvelope::Eip1559(sign(dynamic(TxKind::Call(Address::from(TO))))));
    assert!(raw_tx.starts_with("0x02"));
    let signed = format!("0x+2{}", &raw_tx[4..]);
    assert!(matches!(decode_raw_tx_for_trace(&signed), Err(TxError::InvalidHex)));
    assert!(matches!(extract_gas_price_from_raw_tx(&signed), Err(TxError::InvalidHex)));
    assert!(matches!(handle_cross_chain_tx(&signed), Err(TxError::InvalidHex)));
}

#[test]
fn the_request_traces_the_transactions_own_call() {
    let raw_tx = raw(TxEnvelope::Legacy(sign(legacy(TxKind::Call(Address::from(TO))))));
    let call = handle_cross_chain_tx(&raw_tx).unwrap().unwrap();
    let request = detect_request(DetectAction::Trace, &call).unwrap();
    assert_eq!(
        print(request),
        format!(
            "{{\"id\":1,\"jsonrpc\":\"2.0\",\"method\":\"debug_traceCall\",\"params\":[\
             {{\"data\":\"0x08c379a0\",\"from\":\"{SIGNER_TEXT}\",\"gas\":\"0x2faf080\",\
             \"to\":\"{TO_TEXT}\",\"value\":\"0xde0b6b3a7640000\"}},\
             \"latest\",{{\"tracer\":\"callTracer\"}}]}}"
        )
    );
    for action in [DetectAction::AwaitCode, DetectAction::Walk, DetectAction::NotCrossChain] {
        assert!(detect_request(action, &call).is_none());
    }
}

#[test]
fn bytes_that_hold_no_transaction_are_refused() {
    assert!(matches!(decode_raw_tx_for_trace("0x"), Err(TxError::Decode(_))));
    assert!(matches!(decode_raw_tx_for_trace(""), Err(TxError::Decode(_))));
    assert!(matches!(extract_gas_price_from_raw_tx("0x05c0"), Err(TxError::Decode(_))));
    assert!(matches!(handle_cross_chain_tx("0xc0"), Err(TxError::Decode(_))));
}

#[test]
fn a_signature_with_a_high_s_has_no_signer() {
    let tx = legacy(TxKind::Call(Address::from(TO)));
    let high = Signature::new(U256::from(1), U256::MAX >> 1, false);
    let raw_tx = raw(TxEnvelope::Legacy(tx.into_signed(high)));
    assert!(matches!(decode_raw_tx_for_trace(&raw_tx), Err(TxError::Signer(_))));
    assert!(matches!(handle_cross_chain_tx(&raw_tx), Err(TxError::Signer(_))));
    assert_eq!(extract_gas_price_from_raw_tx(&raw_tx).unwrap(), 1_500_000_000);
}

#[test]
fn a_raw_transaction_with_characters_outside_ascii_is_refused() {
    for raw_tx in ["0x€a", "€a", "0xffaé1", "0xffé"] {
        assert!(matches!(decode_raw_tx_for_trace(raw_tx), Err(TxError::InvalidHex)));
        assert!(matches!(extract_gas_price_from_raw_tx(raw_tx), Err(TxError::InvalidHex)));
        assert!(matches!(handle_cross_chain_tx(raw_tx), Err(TxError::InvalidHex)));
    }
}

#[test]
fn fields_that_are_missing_have_defaults() {
    let tx = Json::object().with("to", Json::text("0xabc")).with("data", Json::number(1));
    let call = traced_call(&tx).unwrap();
    assert_eq!(call.from, "0x0000000000000000000000000000000000000000");
    assert_eq!(call.to, "0xabc");
    assert_eq!(call.data, "0x");
    assert_eq!(call.value, "0x0");
    assert!(traced_call(&Json::object().with("to", Json::Null)).is_none());
}
