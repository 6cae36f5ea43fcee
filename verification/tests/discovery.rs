use l1_proxy::detection::TracedCall;
use l1_proxy::discovery::{builder_key, l1_to_l2, user_tx, ProxyConfig};
use l1_proxy::hex::encode;

fn key_text(last: &str) -> String {
    format!("{}{last}", "0".repeat(62))
}

#[test]
fn the_configured_key_is_used() {
    let mut expected = [0u8; 32];
    expected[31] = 0x2a;
    assert_eq!(builder_key(Some(&key_text("2a"))), expected);
    assert_eq!(builder_key(Some(&format!("0x{}", key_text("2A")))), expected);
    assert_eq!(builder_key(Some(&format!("0X{}", key_text("2a")))), expected);
    assert_eq!(builder_key(Some(&format!("0x0x{}", key_text("2a")))), expected);
}

#[test]
fn what_is_no_key_is_replaced_by_a_random_one() {
    let order = "fffffffffffffffffffffffffffffffebaaedce6af48a03bbfd25e8cd0364141";
    let zero = key_text("00");
    let signed = key_text("+1");
    let texts = [None, Some(""), Some("0x"), Some("not a key"), Some(signed.as_str()), Some(zero.as_str()), Some(order)];
    for text in texts {
        let first = builder_key(text);
        let second = builder_key(text);
        assert_ne!(first, [0u8; 32]);
        assert_ne!(first, second);
    }
}

#[test]
fn the_largest_number_below_the_order_is_a_key() {
    let largest = "fffffffffffffffffffffffffffffffebaaedce6af48a03bbfd25e8cd0364140";
    assert_eq!(encode(&builder_key(Some(largest))), largest);
}

#[test]
fn the_rollups_contract_manages_calls_on_l1() {
    let config = ProxyConfig {
        rollups_address: [1; 20],
        cross_chain_manager_address: [2; 20],
        rollup_id: 9,
        builder_private_key: Some(key_text("01")),
    };
    let direction = l1_to_l2(&config);
    assert_eq!(direction.l1_ccm, [1; 20]);
    assert_eq!(direction.l2_ccm, [2; 20]);
    assert_eq!(direction.rollup_id, 9);
    assert_eq!(direction.builder_key[31], 1);
}

#[test]
fn the_transaction_is_told_without_its_raw_bytes() {
    let call = TracedCall {
        from: "f".to_string(),
        to: "t".to_string(),
        data: "d".to_string(),
        value: "v".to_string(),
    };
    let tx = user_tx(&call);
    assert_eq!((tx.from, tx.to, tx.data, tx.value), (call.from, call.to, call.data, call.value));
    assert!(tx.raw_tx_bytes.is_empty());
}
