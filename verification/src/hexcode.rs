//! Hexadecimal text for byte sequences, and byte-order reversal.

use vstd::prelude::*;

verus! {

/// The lower-case hexadecimal digit for a value below 16.
pub open spec fn hex_digit(n: int) -> char
    recommends
        0 <= n < 16,
{
    if n == 0 {
        '0'
    } else if n == 1 {
        '1'
    } else if n == 2 {
        '2'
    } else if n == 3 {
        '3'
    } else if n == 4 {
        '4'
    } else if n == 5 {
        '5'
    } else if n == 6 {
        '6'
    } else if n == 7 {
        '7'
    } else if n == 8 {
        '8'
    } else if n == 9 {
        '9'
    } else if n == 10 {
        'a'
    } else if n == 11 {
        'b'
    } else if n == 12 {
        'c'
    } else if n == 13 {
        'd'
    } else if n == 14 {
        'e'
    } else {
        'f'
    }
}

/// The value of a hexadecimal digit of either case, or -1 for any other
/// character.
pub open spec fn hex_value(c: char) -> int {
    if '0' <= c <= '9' {
        c as int - '0' as int
    } else if 'a' <= c <= 'f' {
        c as int - 'a' as int + 10
    } else if 'A' <= c <= 'F' {
        c as int - 'A' as int + 10
    } else {
        -1
    }
}

/// The hexadecimal text of `bytes`: two lower-case digits per byte, the
/// high nibble first.
pub open spec fn hex_encode_spec(bytes: Seq<u8>) -> Seq<char> {
    Seq::new(
        2 * bytes.len(),
        |i: int|
            if i % 2 == 0 {
                hex_digit(bytes[i / 2] as int / 16)
            } else {
                hex_digit(bytes[i / 2] as int % 16)
            },
    )
}

/// Whether `text` is hexadecimal: an even number of hexadecimal digits.
pub open spec fn is_hex(text: Seq<char>) -> bool {
    &&& text.len() % 2 == 0
    &&& forall|i: int| 0 <= i < text.len() ==> hex_value(#[trigger] text[i]) >= 0
}

/// The bytes that hexadecimal `text` stands for.
pub open spec fn hex_decode_spec(text: Seq<char>) -> Seq<u8>
    recommends
        is_hex(text),
{
    Seq::new(
        text.len() / 2,
        |i: int| (16 * hex_value(text[2 * i]) + hex_value(text[2 * i + 1])) as u8,
    )
}

/// Calls `hex::encode`. Trusted: the text returned holds two lower-case
/// hexadecimal digits for each byte of `bytes`, in order, high nibble first.
#[verifier::external_body]
pub(crate) fn hex_encode(bytes: &[u8]) -> (text: String)
    ensures
        text@ == hex_encode_spec(bytes@),
{
    hex::encode(bytes)
}

/// Calls `hex::decode`. Trusted: it succeeds exactly on an even number of
/// hexadecimal digits of either case, and then returns the byte that each
/// pair of digits stands for, in order.
#[verifier::external_body]
pub(crate) fn hex_decode(text: &str) -> (bytes: Option<Vec<u8>>)
    ensures
        bytes is Some <==> is_hex(text@),
        bytes is Some ==> bytes.unwrap()@ == hex_decode_spec(text@),
{
    hex::decode(text).ok()
}

/// The hexadecimal text of `bytes`.
pub fn encode(bytes: &[u8]) -> (text: String)
    ensures
        text@ == hex_encode_spec(bytes@),
        is_hex(text@),
        hex_decode_spec(text@) == bytes@,
{
    proof {
        lemma_hex_round_trip(bytes@);
    }
    hex_encode(bytes)
}

/// The bytes of hexadecimal `text`, or `None` where `text` is not
/// hexadecimal.
pub fn decode(text: &str) -> (bytes: Option<Vec<u8>>)
    ensures
        bytes is Some <==> is_hex(text@),
        bytes is Some ==> bytes.unwrap()@ == hex_decode_spec(text@),
{
    hex_decode(text)
}

/// `bytes` in the opposite order.
pub fn reversed(bytes: &[u8]) -> (out: Vec<u8>)
    ensures
        out@ == bytes@.reverse(),
{
    let len: usize = bytes.len();
    let mut out: Vec<u8> = Vec::new();
    let mut i: usize = 0;
    while i < len
        invariant
            0 <= i <= len,
            len == bytes@.len(),
            out@.len() == i,
            forall|j: int| 0 <= j < i ==> out@[j] == bytes@[len - 1 - j],
        decreases len - i,
    {
        out.push(bytes[len - 1 - i]);
        i = i + 1;
    }
    assert(out@ =~= bytes@.reverse());
    out
}

/// Every digit stands for the value it was made from.
pub proof fn lemma_digit_value(n: int)
    requires
        0 <= n < 16,
    ensures
        hex_value(hex_digit(n)) == n,
{
}

/// Encoding bytes as hexadecimal text and decoding that text gives the
/// bytes back.
pub proof fn lemma_hex_round_trip(bytes: Seq<u8>)
    ensures
        is_hex(hex_encode_spec(bytes)),
        hex_decode_spec(hex_encode_spec(bytes)) == bytes,
{
    let text = hex_encode_spec(bytes);
    assert forall|i: int| 0 <= i < text.len() implies hex_value(#[trigger] text[i]) >= 0 by {
        let b = bytes[i / 2] as int;
        lemma_digit_value(b / 16);
        lemma_digit_value(b % 16);
    }
    assert forall|i: int| 0 <= i < bytes.len() implies #[trigger] hex_decode_spec(text)[i]
        == bytes[i] by {
        let b = bytes[i] as int;
        lemma_digit_value(b / 16);
        lemma_digit_value(b % 16);
        assert((2 * i) / 2 == i && (2 * i) % 2 == 0);
        assert((2 * i + 1) / 2 == i && (2 * i + 1) % 2 == 1);
        assert(text[2 * i] == hex_digit(b / 16));
        assert(text[2 * i + 1] == hex_digit(b % 16));
        assert(16 * (b / 16) + b % 16 == b);
    }
    assert(hex_decode_spec(text) =~= bytes);
}

/// Reversing a sequence twice gives the sequence back.
pub proof fn lemma_reverse_twice(bytes: Seq<u8>)
    ensures
        bytes.reverse().reverse() == bytes,
{
    assert(bytes.reverse().reverse() =~= bytes);
}

} // verus!
