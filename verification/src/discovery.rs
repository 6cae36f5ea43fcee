//! What the search for hidden cross-chain calls is told: its direction and the transaction.
use alloy_signer_local::{LocalSignerError, PrivateKeySigner};
use vstd::prelude::*;
use vstd::utf8::encode_utf8;

use crate::detection::{TracedCall, TracedCallView};
use crate::hex::{
    be_value, hex_bytes, hex_text, law_bytes_are_written_high_half_first, law_decode_inverts_encode,
    law_only_digits_stand_for_bytes,
};
use crate::text::{law_prefix_comes_off_whole, strip_prefix, without_prefix};

verus! {

/// `alloy_signer_local::LocalSignerError`, the reason why a text is no private key.
#[verifier::external_type_specification]
#[verifier::external_body]
pub struct ExLocalSignerError(alloy_signer_local::LocalSignerError);

/// The order of the secp256k1 curve.
pub open spec fn curve_order() -> nat {
    0xffff_ffff_ffff_ffff_ffff_ffff_ffff_fffe_baae_dce6_af48_a03b_bfd2_5e8c_d036_4141nat
}

/// Whether 32 bytes are a private key: a number that is not zero and below the order of the curve.
pub open spec fn usable_key(key: Seq<u8>) -> bool {
    key.len() == 32 && 0 < be_value(key) < curve_order()
}

/// A key's digits: its text without one leading `0x` or `0X`.
pub open spec fn key_digits(text: Seq<u8>) -> Seq<u8> {
    if text.len() >= 2 && text[0] == 48 && (text[1] == 120 || text[1] == 88) {
        text.skip(2)
    } else {
        text
    }
}

/// The private key that a text stands for: the bytes of its digit pairs, where they are one.
pub open spec fn signing_key(text: Seq<char>) -> Option<Seq<u8>> {
    match hex_bytes(key_digits(encode_utf8(text))) {
        Some(key) => if usable_key(key) {
            Some(key)
        } else {
            None
        },
        None => None,
    }
}

/// `PrivateKeySigner::from_str`: the private key that `text` stands for, written as 64 digits with or
/// without a prefix, or an error where it stands for none. Which error it is, is not stated.
#[verifier::external_body]
fn parse_signer(text: &str) -> (key: Result<[u8; 32], LocalSignerError>)
    ensures
        match key {
            Ok(k) => signing_key(text@) == Some(k@),
            Err(_) => signing_key(text@) is None,
        },
{
    text.parse::<PrivateKeySigner>().map(|signer| signer.to_bytes().0)
}

/// `PrivateKeySigner::random`: some private key. Nothing says which.
#[verifier::external_body]
fn random_signer() -> (key: [u8; 32])
    ensures
        usable_key(key@),
{
    PrivateKeySigner::random().to_bytes().0
}

/// The text of the configured key, without one leading `0x`; empty where none is configured.
pub open spec fn configured_key(key: Option<Seq<char>>) -> Seq<char> {
    match key {
        Some(text) => match without_prefix(text, "0x"@) {
            Some(rest) => rest,
            None => text,
        },
        None => ""@,
    }
}

/// The key that the builder signs with: the configured one, or a random one where that is no key.
pub fn builder_key(key_hex: Option<&str>) -> (key: [u8; 32])
    ensures
        usable_key(key@),
        match signing_key(
            configured_key(
                match key_hex {
                    Some(text) => Some(text@),
                    None => None,
                },
            ),
        ) {
            Some(k) => key@ == k,
            None => true,
        },
{
    let text = match key_hex {
        Some(text) => text,
        None => "",
    };
    let key_clean = match strip_prefix(text, "0x") {
        Some(rest) => rest,
        None => text,
    };
    proof {
        reveal_strlit("");
        reveal_strlit("0x");
        assert(""@.len() == 0 && "0x"@.len() == 2);
    }
    match parse_signer(key_clean) {
        Ok(key) => key,
        Err(_) => random_signer(),
    }
}

/// A leading `0x` is optional in the configured key.
pub proof fn law_key_prefix_is_optional(key: Seq<char>)
    requires
        !"0x"@.is_prefix_of(key),
    ensures
        configured_key(Some("0x"@ + key)) == configured_key(Some(key)),
{
    let prefixed = "0x"@ + key;
    assert("0x"@ =~= prefixed.subrange(0, "0x"@.len() as int));
    assert(prefixed.skip("0x"@.len() as int) =~= key);
}

/// What the proxy is configured with, as far as it bears on the calls of a transaction.
pub struct ProxyConfig {
    pub rollups_address: [u8; 20],
    pub cross_chain_manager_address: [u8; 20],
    pub rollup_id: u64,
    pub builder_private_key: Option<String>,
}

/// The direction of a call from L1 to L2.
pub struct Direction {
    /// The cross-chain manager on L2.
    pub l2_ccm: [u8; 20],
    /// The cross-chain manager on L1.
    pub l1_ccm: [u8; 20],
    pub rollup_id: u64,
    pub builder_key: [u8; 32],
}

/// The direction of the calls that the proxy finds: on L1 the rollups contract manages them.
pub fn l1_to_l2(config: &ProxyConfig) -> (direction: Direction)
    ensures
        direction.l2_ccm == config.cross_chain_manager_address,
        direction.l1_ccm == config.rollups_address,
        direction.rollup_id == config.rollup_id,
        usable_key(direction.builder_key@),
        match signing_key(
            configured_key(
                match config.builder_private_key {
                    Some(text) => Some(text@),
                    None => None,
                },
            ),
        ) {
            Some(k) => direction.builder_key@ == k,
            None => true,
        },
{
    let key_hex = match &config.builder_private_key {
        Some(text) => Some(text.as_str()),
        None => None,
    };
    Direction {
        l2_ccm: config.cross_chain_manager_address,
        l1_ccm: config.rollups_address,
        rollup_id: config.rollup_id,
        builder_key: builder_key(key_hex),
    }
}

/// The transaction that hidden calls are searched for in.
pub struct UserTx {
    pub from: String,
    pub to: String,
    pub data: String,
    pub value: String,
    pub raw_tx_bytes: Vec<u8>,
}

/// The transaction that hidden calls are searched for in. Calls from L1 to L2 are found without its
/// raw bytes.
pub fn user_tx(call: &TracedCall) -> (tx: UserTx)
    ensures
        (TracedCallView { from: tx.from@, to: tx.to@, data: tx.data@, value: tx.value@ }) == call@,
        tx.from@ == call.from@,
        tx.to@ == call.to@,
        tx.data@ == call.data@,
        tx.value@ == call.value@,
        tx.raw_tx_bytes@.len() == 0,
{
    UserTx {
        from: call.from.clone(),
        to: call.to.clone(),
        data: call.data.clone(),
        value: call.value.clone(),
        raw_tx_bytes: Vec::new(),
    }
}

/// The configured key is what stands behind one leading `0x`, all of it, or the whole text where there
/// is no leading `0x`; where none is configured it is empty.
pub proof fn law_all_of_the_configured_key_counts(text: Seq<char>)
    ensures
        configured_key(Some(seq!['0', 'x'] + text)) == text,
        !(text.len() >= 2 && text[0] == '0' && text[1] == 'x') ==> configured_key(Some(text))
            == text,
        configured_key(None) == Seq::<char>::empty(),
{
    reveal_strlit("0x");
    reveal_strlit("");
    assert("0x"@ =~= seq!['0', 'x']);
    assert(""@ =~= Seq::<char>::empty());
    law_prefix_comes_off_whole(seq!['0', 'x'] + text, "0x"@);
    assert("0x"@ + text == seq!['0', 'x'] + text);
    if let Some(rest) = without_prefix(text, "0x"@) {
        law_prefix_comes_off_whole(text, "0x"@);
        assert(text[0] == '0' && text[1] == 'x');
    }
}

/// Every private key can be configured, and is then the one that is used: 32 bytes that are a number
/// above zero and below the order of the curve, written in digits, with a leading `0x` or without.
pub proof fn law_every_key_can_be_configured(key: Seq<u8>)
    requires
        key.len() == 32,
        0 < be_value(key)
            < 0xffff_ffff_ffff_ffff_ffff_ffff_ffff_fffe_baae_dce6_af48_a03b_bfd2_5e8c_d036_4141nat,
    ensures
        signing_key(configured_key(Some(hex_text(key)))) == Some(key),
        signing_key(configured_key(Some(seq!['0', 'x'] + hex_text(key)))) == Some(key),
{
    let text = hex_text(key);
    law_bytes_are_written_high_half_first(key, 0);
    law_all_of_the_configured_key_counts(text);
    law_decode_inverts_encode(key);
    law_only_digits_stand_for_bytes(encode_utf8(text));
    let bytes = encode_utf8(text);
    assert(bytes.len() >= 2);
    assert(48 <= bytes[1] <= 57 || 65 <= bytes[1] <= 70 || 97 <= bytes[1] <= 102);
}

/// Only a private key is signed with: what a text stands for as a key has 32 bytes, is a number above
/// zero and below the order of the curve, and is what the digits of the text stand for, behind a leading
/// `0x` or `0X` where there is one.
pub proof fn law_only_keys_are_signed_with(text: Seq<char>, key: Seq<u8>)
    requires
        signing_key(text) == Some(key),
    ensures
        usable_key(key),
        key.len() == 32,
        0 < be_value(key)
            < 0xffff_ffff_ffff_ffff_ffff_ffff_ffff_fffe_baae_dce6_af48_a03b_bfd2_5e8c_d036_4141nat,
        hex_bytes(encode_utf8(text)) == Some(key) || hex_bytes(encode_utf8(text).skip(2)) == Some(
            key,
        ) && encode_utf8(text)[0] == 48 && (encode_utf8(text)[1] == 120 || encode_utf8(text)[1]
            == 88),
{
}

/// Every text whose digits stand for a private key is that key, in either case, and behind a leading `0x`
/// or `0X` as well as without.
pub proof fn law_digits_of_a_key_are_the_key(text: Seq<char>, prefixed: Seq<char>, key: Seq<u8>)
    requires
        key.len() == 32,
        0 < be_value(key)
            < 0xffff_ffff_ffff_ffff_ffff_ffff_ffff_fffe_baae_dce6_af48_a03b_bfd2_5e8c_d036_4141nat,
        hex_bytes(encode_utf8(text)) == Some(key),
        encode_utf8(prefixed) == seq![48u8, 120u8] + encode_utf8(text) || encode_utf8(prefixed)
            == seq![48u8, 88u8] + encode_utf8(text),
    ensures
        signing_key(text) == Some(key),
        signing_key(prefixed) == Some(key),
{
    let bytes = encode_utf8(text);
    law_only_digits_stand_for_bytes(bytes);
    assert(48 <= bytes[1] <= 57 || 65 <= bytes[1] <= 70 || 97 <= bytes[1] <= 102);
    assert(encode_utf8(prefixed).skip(2) =~= bytes);
}

} // verus!
