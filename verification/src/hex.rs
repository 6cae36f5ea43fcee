//! Hexadecimal text: byte strings written as digit pairs, and numbers written as quantities.
use vstd::prelude::*;
use vstd::string::{StrSliceExecFns, StringExecFns};
use vstd::utf8::{encode_utf8, is_ascii_chars};

verus! {

/// The lower-case digit that stands for `n`, for `n` below sixteen.
pub open spec fn digit_char(n: int) -> char {
    "0123456789abcdef"@[n]
}

/// The `i`th half-byte of `bytes`, high half first.
pub open spec fn half_byte(bytes: Seq<u8>, i: int) -> int {
    if i % 2 == 0 {
        bytes[i / 2] as int / 16
    } else {
        bytes[i / 2] as int % 16
    }
}

/// `bytes` written as lower-case digit pairs.
pub open spec fn hex_text(bytes: Seq<u8>) -> Seq<char> {
    Seq::new(2 * bytes.len(), |i: int| digit_char(half_byte(bytes, i)))
}

/// The number that the ASCII digit `c` stands for, in either case.
pub open spec fn digit_value(c: u8) -> Option<u8> {
    if 48 <= c <= 57 {
        Some((c - 48) as u8)
    } else if 97 <= c <= 102 {
        Some((c - 87) as u8)
    } else if 65 <= c <= 70 {
        Some((c - 55) as u8)
    } else {
        None
    }
}

/// The byte that two digits stand for.
pub open spec fn pair_value(first: u8, second: u8) -> Option<u8> {
    match (digit_value(first), digit_value(second)) {
        (Some(h), Some(l)) => Some((16 * h + l) as u8),
        _ => None,
    }
}

/// The byte that the `k`th pair of `text` stands for.
pub open spec fn pair_at(text: Seq<u8>, k: int) -> Option<u8> {
    pair_value(text[2 * k], text[2 * k + 1])
}

/// Whether the first `n` pairs of `text` all stand for a byte.
pub open spec fn pairs_hold(text: Seq<u8>, n: int) -> bool {
    forall|k: int| 0 <= k < n ==> #[trigger] pair_at(text, k) is Some
}

/// The bytes that `text` stands for, where it is made of whole pairs of digits.
pub open spec fn hex_bytes(text: Seq<u8>) -> Option<Seq<u8>> {
    if text.len() % 2 == 0 && pairs_hold(text, text.len() as int / 2) {
        Some(Seq::new(text.len() / 2, |k: int| pair_at(text, k).unwrap()))
    } else {
        None
    }
}

/// The byte that a pair stands for as a number in base sixteen, which may begin with a plus sign.
pub open spec fn radix_value(first: u8, second: u8) -> Option<u8> {
    if first == 43 {
        digit_value(second)
    } else {
        pair_value(first, second)
    }
}

/// The byte that the `k`th pair of `text` stands for as a number in base sixteen.
pub open spec fn radix_at(text: Seq<u8>, k: int) -> Option<u8> {
    radix_value(text[2 * k], text[2 * k + 1])
}

/// The bytes that `text` stands for, where it is made of whole pairs that are numbers in base sixteen.
pub open spec fn radix_bytes(text: Seq<u8>) -> Option<Seq<u8>> {
    if text.len() % 2 == 0 && (forall|k: int|
        0 <= k < text.len() as int / 2 ==> #[trigger] radix_at(text, k) is Some) {
        Some(Seq::new(text.len() / 2, |k: int| radix_at(text, k).unwrap()))
    } else {
        None
    }
}

fn digit_of(c: u8) -> (value: Option<u8>)
    ensures
        value == digit_value(c),
{
    if 48 <= c && c <= 57 {
        Some(c - 48)
    } else if 97 <= c && c <= 102 {
        Some(c - 87)
    } else if 65 <= c && c <= 70 {
        Some(c - 55)
    } else {
        None
    }
}

fn pair_of(first: u8, second: u8) -> (value: Option<u8>)
    ensures
        value == pair_value(first, second),
{
    match (digit_of(first), digit_of(second)) {
        (Some(h), Some(l)) => Some(16 * h + l),
        _ => None,
    }
}

fn radix_of(first: u8, second: u8) -> (value: Option<u8>)
    ensures
        value == radix_value(first, second),
{
    if first == 43 {
        digit_of(second)
    } else {
        pair_of(first, second)
    }
}

/// Decode a hex string to bytes; `None` where it is not made of pairs of digits.
pub fn hex_decode(hex: &str) -> (bytes: Option<Vec<u8>>)
    ensures
        match bytes {
            Some(b) => hex_bytes(encode_utf8(hex@)) == Some(b@),
            None => hex_bytes(encode_utf8(hex@)) is None,
        },
{
    let text = hex.as_bytes();
    if text.len() % 2 != 0 {
        return None;
    }
    let mut bytes: Vec<u8> = Vec::with_capacity(text.len() / 2);
    let mut i: usize = 0;
    while i < text.len()
        invariant
            text@ == encode_utf8(hex@),
            text.len() % 2 == 0,
            i % 2 == 0,
            i <= text.len(),
            pairs_hold(text@, i as int / 2),
            bytes@.len() == i as int / 2,
            forall|k: int| 0 <= k < bytes@.len() ==> bytes@[k] == pair_at(text@, k).unwrap(),
        decreases text.len() - i,
    {
        match pair_of(text[i], text[i + 1]) {
            Some(byte) => {
                assert(pair_at(text@, i as int / 2) == Some(byte));
                bytes.push(byte);
            },
            None => {
                assert(pair_at(text@, i as int / 2) is None);
                return None;
            },
        }
        i = i + 2;
    }
    assert(bytes@ =~= hex_bytes(text@).unwrap());
    Some(bytes)
}

/// Decode pairs of base-sixteen digits to bytes; an error where `hex` is not made of them. In place of
/// its first digit a pair may have a plus sign.
pub fn decode(hex: &str) -> (bytes: Result<Vec<u8>, ()>)
    ensures
        match bytes {
            Ok(b) => radix_bytes(encode_utf8(hex@)) == Some(b@),
            Err(_) => radix_bytes(encode_utf8(hex@)) is None,
        },
{
    let text = hex.as_bytes();
    if text.len() % 2 != 0 {
        return Err(());
    }
    let mut bytes: Vec<u8> = Vec::with_capacity(text.len() / 2);
    let mut i: usize = 0;
    while i < text.len()
        invariant
            text@ == encode_utf8(hex@),
            text.len() % 2 == 0,
            i % 2 == 0,
            i <= text.len(),
            bytes@.len() == i as int / 2,
            forall|k: int|
                0 <= k < bytes@.len() ==> #[trigger] radix_at(text@, k) == Some(bytes@[k]),
        decreases text.len() - i,
    {
        match radix_of(text[i], text[i + 1]) {
            Some(byte) => {
                assert(radix_at(text@, i as int / 2) == Some(byte));
                bytes.push(byte);
            },
            None => {
                assert(radix_at(text@, i as int / 2) is None);
                return Err(());
            },
        }
        i = i + 2;
    }
    assert(bytes@ =~= radix_bytes(text@).unwrap());
    Ok(bytes)
}

fn append_digit(out: &mut String, n: u8)
    requires
        n < 16,
    ensures
        final(out)@ == old(out)@.push(digit_char(n as int)),
{
    proof {
        reveal_strlit("0123456789abcdef");
    }
    let digits = "0123456789abcdef";
    let digit = digits.substring_char(n as usize, n as usize + 1);
    out.append(digit);
    assert(out@ =~= old(out)@.push(digit_char(n as int)));
}

/// Write bytes as lower-case digit pairs.
pub fn encode(bytes: &[u8]) -> (hex: String)
    ensures
        hex@ == hex_text(bytes@),
{
    let mut s = String::new();
    let mut i: usize = 0;
    while i < bytes.len()
        invariant
            i <= bytes.len(),
            s@.len() == 2 * i,
            forall|j: int| 0 <= j < 2 * i ==> s@[j] == digit_char(half_byte(bytes@, j)),
        decreases bytes.len() - i,
    {
        let b = bytes[i];
        append_digit(&mut s, b / 16);
        append_digit(&mut s, b % 16);
        assert(half_byte(bytes@, 2 * i as int) == b / 16);
        assert(half_byte(bytes@, 2 * i as int + 1) == b % 16);
        i = i + 1;
    }
    assert(s@ =~= hex_text(bytes@));
    s
}

/// The number that big-endian `bytes` stand for.
pub open spec fn be_value(bytes: Seq<u8>) -> nat
    decreases bytes.len(),
{
    if bytes.len() == 0 {
        0
    } else {
        be_value(bytes.drop_last()) * 256 + bytes.last() as nat
    }
}

/// `n` in lower-case digits, without leading zeros.
pub open spec fn number_text(n: nat) -> Seq<char>
    decreases n,
{
    if n < 16 {
        seq![digit_char(n as int)]
    } else {
        number_text(n / 16).push(digit_char(n as int % 16))
    }
}

/// `n` as a JSON-RPC quantity: `0x`, then its digits without leading zeros.
pub open spec fn quantity_text(n: nat) -> Seq<char> {
    "0x"@ + number_text(n)
}

/// What has been written of a number once its leading part `n` is done: nothing while it is zero.
spec fn significant(n: nat) -> Seq<char> {
    if n == 0 {
        Seq::empty()
    } else {
        number_text(n)
    }
}

/// Appends the next digit of a number, unless it is a leading zero.
fn append_significant(out: &mut String, started: bool, digit: u8) -> (now_started: bool)
    requires
        digit < 16,
    ensures
        now_started == (started || digit != 0),
        final(out)@ == if started || digit != 0 {
            old(out)@.push(digit_char(digit as int))
        } else {
            old(out)@
        },
{
    if started || digit != 0 {
        append_digit(out, digit);
        true
    } else {
        false
    }
}

proof fn lemma_next_digit(n: nat, digit: nat)
    requires
        digit < 16,
    ensures
        significant(n * 16 + digit) == if n != 0 || digit != 0 {
            significant(n).push(digit_char(digit as int))
        } else {
            Seq::<char>::empty()
        },
{
    if n == 0 {
        assert(seq![digit_char(digit as int)] =~= Seq::<char>::empty().push(
            digit_char(digit as int),
        ));
    } else {
        assert((n * 16 + digit) / 16 == n);
        assert((n * 16 + digit) % 16 == digit);
    }
}

/// Write the big-endian number `bytes` as a JSON-RPC quantity.
pub fn quantity(bytes: &[u8]) -> (text: String)
    ensures
        text@ == quantity_text(be_value(bytes@)),
{
    let mut out = String::new();
    let mut started = false;
    let mut i: usize = 0;
    assert(bytes@.take(0).len() == 0);
    while i < bytes.len()
        invariant
            i <= bytes.len(),
            started == (be_value(bytes@.take(i as int)) != 0),
            out@ == significant(be_value(bytes@.take(i as int))),
        decreases bytes.len() - i,
    {
        let b = bytes[i];
        let ghost n = be_value(bytes@.take(i as int));
        started = append_significant(&mut out, started, b / 16);
        started = append_significant(&mut out, started, b % 16);
        proof {
            lemma_next_digit(n, b as nat / 16);
            lemma_next_digit(n * 16 + b as nat / 16, b as nat % 16);
            assert(bytes@.take(i + 1).drop_last() =~= bytes@.take(i as int));
            assert(bytes@.take(i + 1).last() == b);
            assert((n * 16 + b as nat / 16) * 16 + b as nat % 16 == n * 256 + b as nat);
        }
        i = i + 1;
    }
    assert(bytes@.take(i as int) =~= bytes@);
    if !started {
        append_digit(&mut out, 0);
        assert(out@ =~= number_text(0));
    }
    let mut text = String::from_str("0x");
    text.append(out.as_str());
    text
}

fn append_number(out: &mut String, n: u64)
    ensures
        final(out)@ == old(out)@ + number_text(n as nat),
    decreases n,
{
    if n >= 16 {
        append_number(out, n / 16);
    }
    append_digit(out, (n % 16) as u8);
    assert(out@ =~= old(out)@ + number_text(n as nat));
}

/// Write `n` as a JSON-RPC quantity.
pub fn quantity_of(n: u64) -> (text: String)
    ensures
        text@ == quantity_text(n as nat),
{
    let mut text = String::from_str("0x");
    append_number(&mut text, n);
    text
}

/// What [`hex_decode`] accepts, [`decode`] decodes to the same bytes, and on a text without a plus sign
/// the two agree.
pub proof fn law_decoders_agree(text: Seq<u8>)
    ensures
        hex_bytes(text) is Some ==> radix_bytes(text) == hex_bytes(text),
        !text.contains(43u8) ==> radix_bytes(text) == hex_bytes(text),
{
    let n = text.len() as int / 2;
    if text.len() % 2 == 0 {
        assert forall|k: int| 0 <= k < n && pair_at(text, k) is Some implies #[trigger] radix_at(
            text,
            k,
        ) == pair_at(text, k) by {}
        if hex_bytes(text) is Some {
            assert forall|k: int| 0 <= k < n implies #[trigger] radix_at(text, k) == pair_at(
                text,
                k,
            ) && radix_at(text, k) is Some by {
                assert(pair_at(text, k) is Some);
            }
            assert(radix_bytes(text).unwrap() =~= hex_bytes(text).unwrap());
        } else if !text.contains(43u8) {
            let k = choose|k: int| 0 <= k < n && #[trigger] pair_at(text, k) is None;
            assert(text.contains(text[2 * k]));
            assert(radix_at(text, k) is None);
        }
    }
}

/// A text with a plus sign is not made of digits: [`hex_decode`] refuses it.
pub proof fn law_signs_are_refused(text: Seq<u8>)
    requires
        text.contains(43u8),
    ensures
        hex_bytes(text) is None,
{
    if hex_bytes(text) is Some {
        let i = choose|i: int| 0 <= i < text.len() && text[i] == 43u8;
        assert(pair_at(text, i / 2) is Some);
    }
}

/// A text with a character outside ASCII stands for no bytes, wherever the character falls among the
/// pairs.
pub proof fn law_other_characters_are_refused(text: Seq<char>)
    requires
        !is_ascii_chars(text),
    ensures
        hex_bytes(encode_utf8(text)) is None,
        radix_bytes(encode_utf8(text)) is None,
{
    let bytes = encode_utf8(text);
    law_decoders_agree(bytes);
    if radix_bytes(bytes) is Some {
        let chars = Seq::new(bytes.len(), |i: int| bytes[i] as char);
        assert forall|i: int| 0 <= i < bytes.len() implies '\0' <= #[trigger] chars[i] <= '\u{7f}' by {
            assert(radix_at(bytes, i / 2) is Some);
        }
        assert(is_ascii_chars(chars));
        vstd::utf8::is_ascii_chars_encode_utf8(chars);
        assert(encode_utf8(chars) =~= bytes);
        vstd::utf8::encode_utf8_decode_utf8(text);
        vstd::utf8::encode_utf8_decode_utf8(chars);
    }
}

proof fn lemma_digit_round_trip(n: int)
    requires
        0 <= n < 16,
    ensures
        '\0' <= digit_char(n) <= '\u{7f}',
        digit_value(digit_char(n) as u8) == Some(n as u8),
{
    reveal_strlit("0123456789abcdef");
}

/// Decoding what was encoded gives the bytes back, with either decoder.
pub proof fn law_decode_inverts_encode(bytes: Seq<u8>)
    ensures
        hex_bytes(encode_utf8(hex_text(bytes))) == Some(bytes),
        radix_bytes(encode_utf8(hex_text(bytes))) == Some(bytes),
{
    let chars = hex_text(bytes);
    assert forall|i: int| 0 <= i < chars.len() implies '\0' <= #[trigger] chars[i] <= '\u{7f}' by {
        lemma_digit_round_trip(half_byte(bytes, i));
    }
    assert(is_ascii_chars(chars));
    vstd::utf8::is_ascii_chars_encode_utf8(chars);
    let text = encode_utf8(chars);
    assert forall|k: int| 0 <= k < text.len() as int / 2 implies #[trigger] pair_at(text, k) == Some(
        bytes[k],
    ) by {
        assert(chars[2 * k] as u8 == text[2 * k]);
        assert(chars[2 * k + 1] as u8 == text[2 * k + 1]);
        lemma_digit_round_trip(half_byte(bytes, 2 * k));
        lemma_digit_round_trip(half_byte(bytes, 2 * k + 1));
        assert(half_byte(bytes, 2 * k) == bytes[k] as int / 16);
        assert(half_byte(bytes, 2 * k + 1) == bytes[k] as int % 16);
    }
    assert(hex_bytes(text).unwrap() =~= bytes);
    law_decoders_agree(text);
}

/// The lower-case form of an ASCII letter; any other byte is left alone.
pub open spec fn lower(c: u8) -> u8 {
    if 65 <= c <= 90 {
        (c + 32) as u8
    } else {
        c
    }
}

/// Encoding what was decoded gives the text back in lower case.
pub proof fn law_encode_inverts_decode(text: Seq<u8>)
    requires
        hex_bytes(text) is Some,
    ensures
        hex_text(hex_bytes(text).unwrap()) == Seq::new(text.len(), |i: int| lower(text[i]) as char),
{
    reveal_strlit("0123456789abcdef");
    let bytes = hex_bytes(text).unwrap();
    assert forall|i: int| 0 <= i < text.len() implies digit_char(#[trigger] half_byte(bytes, i))
        == lower(text[i]) as char by {
        let k = i / 2;
        assert(pair_at(text, k) is Some);
        assert(bytes[k] == pair_at(text, k).unwrap());
    }
    assert(hex_text(bytes) =~= Seq::new(text.len(), |i: int| lower(text[i]) as char));
}

/// The case of the digits does not matter: texts that differ only in case stand for the same bytes.
pub proof fn law_case_does_not_matter(a: Seq<u8>, b: Seq<u8>)
    requires
        a.len() == b.len(),
        forall|i: int| 0 <= i < a.len() ==> lower(#[trigger] a[i]) == lower(b[i]),
    ensures
        hex_bytes(a) == hex_bytes(b),
{
    assert forall|k: int| 0 <= k < a.len() as int / 2 implies #[trigger] pair_at(a, k) == pair_at(
        b,
        k,
    ) by {
        assert(lower(a[2 * k]) == lower(b[2 * k]));
        assert(lower(a[2 * k + 1]) == lower(b[2 * k + 1]));
    }
    if hex_bytes(a) is Some {
        assert forall|k: int| 0 <= k < b.len() as int / 2 implies #[trigger] pair_at(
            b,
            k,
        ) is Some by {
            assert(pair_at(a, k) is Some);
        }
        assert(hex_bytes(a).unwrap() =~= hex_bytes(b).unwrap());
    }
    if hex_bytes(b) is Some {
        assert forall|k: int| 0 <= k < a.len() as int / 2 implies #[trigger] pair_at(
            a,
            k,
        ) is Some by {
            assert(pair_at(b, k) is Some);
        }
    }
}

/// The number that digits stand for, the most significant first.
pub open spec fn digits_value(digits: Seq<char>) -> nat
    decreases digits.len(),
{
    if digits.len() == 0 {
        0
    } else {
        digits_value(digits.drop_last()) * 16 + match digit_value(digits.last() as u8) {
            Some(d) => d as nat,
            None => 0,
        }
    }
}

/// A quantity reads back as its number, and begins with a zero only where the number is zero.
pub proof fn law_quantity_reads_back(n: nat)
    ensures
        "0x"@.is_prefix_of(quantity_text(n)),
        digits_value(quantity_text(n).skip(2)) == n,
        quantity_text(n).len() > 2,
        quantity_text(n)[2] == '0' <==> n == 0,
{
    reveal_strlit("0x");
    let text = quantity_text(n);
    assert("0x"@.len() == 2);
    assert("0x"@ =~= text.subrange(0, 2));
    assert(text.skip(2) =~= number_text(n));
    lemma_number_reads_back(n);
}

proof fn lemma_number_reads_back(n: nat)
    ensures
        number_text(n).len() > 0,
        digits_value(number_text(n)) == n,
        number_text(n)[0] == '0' <==> n == 0,
    decreases n,
{
    reveal_strlit("0123456789abcdef");
    let text = number_text(n);
    lemma_digit_round_trip(n as int % 16);
    if n < 16 {
        assert(text.drop_last() =~= Seq::<char>::empty());
        assert(digits_value(text.drop_last()) == 0);
    } else {
        lemma_number_reads_back(n / 16);
        assert(text.drop_last() =~= number_text(n / 16));
    }
}

/// Each byte is written as two digits, its high half first: `0` to `9`, then `a` to `f`, by their codes.
pub proof fn law_bytes_are_written_high_half_first(bytes: Seq<u8>, k: int)
    requires
        0 <= k < bytes.len(),
    ensures
        hex_text(bytes).len() == 2 * bytes.len(),
        hex_text(bytes)[2 * k] as int == if bytes[k] < 160 {
            48 + bytes[k] as int / 16
        } else {
            87 + bytes[k] as int / 16
        },
        hex_text(bytes)[2 * k + 1] as int == if bytes[k] % 16 < 10 {
            48 + bytes[k] as int % 16
        } else {
            87 + bytes[k] as int % 16
        },
{
    reveal_strlit("0123456789abcdef");
    assert(half_byte(bytes, 2 * k) == bytes[k] as int / 16);
    assert(half_byte(bytes, 2 * k + 1) == bytes[k] as int % 16);
}

/// A text stands for bytes exactly where it has an even number of characters and each is one of `0` to
/// `9`, `A` to `F` and `a` to `f`; and each of its pairs is then the high and the low half of its byte.
pub proof fn law_only_digits_stand_for_bytes(text: Seq<u8>)
    ensures
        hex_bytes(text) is Some <==> text.len() % 2 == 0 && forall|i: int|
            0 <= i < text.len() ==> 48 <= #[trigger] text[i] <= 57 || 65 <= text[i] <= 70 || 97
                <= text[i] <= 102,
        hex_bytes(text) matches Some(bytes) ==> {
            &&& text.len() == 2 * bytes.len()
            &&& forall|k: int|
                0 <= k < bytes.len() ==> {
                    let high = #[trigger] bytes[k] as int / 16;
                    let low = bytes[k] as int % 16;
                    &&& if high < 10 {
                        text[2 * k] == 48 + high
                    } else {
                        text[2 * k] == 55 + high || text[2 * k] == 87 + high
                    }
                    &&& if low < 10 {
                        text[2 * k + 1] == 48 + low
                    } else {
                        text[2 * k + 1] == 55 + low || text[2 * k + 1] == 87 + low
                    }
                }
        },
{
    if hex_bytes(text) is Some {
        assert forall|i: int| 0 <= i < text.len() implies 48 <= #[trigger] text[i] <= 57 || 65
            <= text[i] <= 70 || 97 <= text[i] <= 102 by {
            assert(pair_at(text, i / 2) is Some);
        }
        assert forall|k: int| 0 <= k < hex_bytes(text).unwrap().len() implies #[trigger] hex_bytes(
            text,
        ).unwrap()[k] == pair_at(text, k).unwrap() && pair_at(text, k) is Some by {}
    }
    if text.len() % 2 == 0 && forall|i: int|
        0 <= i < text.len() ==> 48 <= #[trigger] text[i] <= 57 || 65 <= text[i] <= 70 || 97
            <= text[i] <= 102 {
        assert forall|k: int| 0 <= k < text.len() as int / 2 implies #[trigger] pair_at(
            text,
            k,
        ) is Some by {
            assert(48 <= text[2 * k] <= 57 || 65 <= text[2 * k] <= 70 || 97 <= text[2 * k] <= 102);
            assert(48 <= text[2 * k + 1] <= 57 || 65 <= text[2 * k + 1] <= 70 || 97 <= text[2 * k
                + 1] <= 102);
        }
    }
}

/// A plus sign at the head of a pair counts as a zero to [`decode`], and as nothing else: it decodes any
/// text as [`hex_decode`] decodes it with a zero there.
pub proof fn law_leading_plus_counts_as_zero(text: Seq<u8>)
    ensures
        radix_bytes(text) == hex_bytes(
            Seq::new(
                text.len(),
                |i: int|
                    if i % 2 == 0 && text[i] == 43 {
                        48u8
                    } else {
                        text[i]
                    },
            ),
        ),
{
    let plain = Seq::new(
        text.len(),
        |i: int|
            if i % 2 == 0 && text[i] == 43 {
                48u8
            } else {
                text[i]
            },
    );
    let n = text.len() as int / 2;
    if text.len() % 2 == 0 {
        assert forall|k: int| 0 <= k < n implies #[trigger] radix_at(text, k) == pair_at(
            plain,
            k,
        ) by {
            assert((2 * k) % 2 == 0 && (2 * k + 1) % 2 == 1);
        }
        if hex_bytes(plain) is Some {
            assert forall|k: int| 0 <= k < n implies #[trigger] radix_at(text, k) is Some by {
                assert(pair_at(plain, k) is Some);
            }
            assert(radix_bytes(text).unwrap() =~= hex_bytes(plain).unwrap());
        } else {
            let k = choose|k: int| 0 <= k < n && #[trigger] pair_at(plain, k) is None;
            assert(radix_at(text, k) is None);
        }
    }
}

/// A quantity is `0x` and digits, `0` to `9` and `a` to `f` by their codes: one digit for a number below
/// sixteen, and for any other the digits of its sixteenth with that of the rest behind them.
pub proof fn law_quantity_is_written_digit_by_digit(n: nat)
    ensures
        n < 16 ==> {
            &&& quantity_text(n).len() == 3
            &&& quantity_text(n)[0] == '0'
            &&& quantity_text(n)[1] == 'x'
        },
        n >= 16 ==> quantity_text(n).drop_last() == quantity_text(n / 16),
        quantity_text(n).last() as int == if n % 16 < 10 {
            48 + n % 16
        } else {
            87 + n % 16
        },
{
    reveal_strlit("0123456789abcdef");
    reveal_strlit("0x");
    lemma_number_reads_back(n);
    assert("0x"@.len() == 2);
    assert(quantity_text(n).last() == number_text(n).last());
    if n >= 16 {
        assert(quantity_text(n).drop_last() =~= quantity_text(n / 16));
    }
}

/// In a big-endian number each further byte makes what stands before it count two hundred and fifty-six
/// times as much, and no bytes are zero.
pub proof fn law_later_bytes_count_less(bytes: Seq<u8>, last: u8)
    ensures
        be_value(Seq::empty()) == 0,
        be_value(bytes.push(last)) == 256 * be_value(bytes) + last,
{
    assert(bytes.push(last).drop_last() =~= bytes);
}

} // verus!
