//! Bytes written as hexadecimal text.

use vstd::prelude::*;

verus! {

/// The error that the `hex` crate reports.
#[verifier::external_type_specification]
#[verifier::external_body]
pub struct ExFromHexError(hex::FromHexError);

/// The lower-case hexadecimal digit for a value below sixteen.
pub open spec fn hex_digit(value: nat) -> char {
    if value < 10 {
        (('0' as nat) + value) as char
    } else {
        (('a' as nat) + (value - 10)) as char
    }
}

/// The value of a hexadecimal digit of either case.
pub open spec fn hex_value(digit: char) -> Option<nat> {
    if '0' <= digit <= '9' {
        Some((digit as nat - '0' as nat) as nat)
    } else if 'a' <= digit <= 'f' {
        Some((digit as nat - 'a' as nat + 10) as nat)
    } else if 'A' <= digit <= 'F' {
        Some((digit as nat - 'A' as nat + 10) as nat)
    } else {
        None
    }
}

/// Two lower-case digits for each byte, the high half first.
pub open spec fn hex_text(bytes: Seq<u8>) -> Seq<char> {
    Seq::new(
        2 * bytes.len(),
        |i: int|
            if i % 2 == 0 {
                hex_digit((bytes[i / 2] / 16) as nat)
            } else {
                hex_digit((bytes[i / 2] % 16) as nat)
            },
    )
}

/// Whether `text` writes bytes: hexadecimal digits, and an even count of them.
pub open spec fn is_hex(text: Seq<char>) -> bool {
    text.len() % 2 == 0 && forall|i: int| 0 <= i < text.len() ==> hex_value(#[trigger] text[i]) is Some
}

/// The bytes that hexadecimal text writes.
pub open spec fn hex_bytes(text: Seq<char>) -> Seq<u8> {
    Seq::new(
        text.len() / 2,
        |i: int| (hex_value(text[2 * i])->0 * 16 + hex_value(text[2 * i + 1])->0) as u8,
    )
}

/// Bytes written as hexadecimal text are read back.
pub proof fn hex_text_is_read_back(bytes: Seq<u8>)
    ensures
        is_hex(hex_text(bytes)),
        hex_bytes(hex_text(bytes)) == bytes,
{
    let text = hex_text(bytes);
    assert forall|i: int| 0 <= i < text.len() implies hex_value(#[trigger] text[i]) is Some by {
        assert(bytes[i / 2] / 16 < 16 && bytes[i / 2] % 16 < 16);
    }
    assert forall|i: int| 0 <= i < bytes.len() implies #[trigger] hex_bytes(text)[i] == bytes[i] by {
        let b = bytes[i];
        assert((2 * i) / 2 == i && (2 * i) % 2 == 0);
        assert((2 * i + 1) / 2 == i && (2 * i + 1) % 2 == 1);
        assert(hex_value(text[2 * i]) == Some((b / 16) as nat));
        assert(hex_value(text[2 * i + 1]) == Some((b % 16) as nat));
        assert((b / 16) * 16 + b % 16 == b);
    }
    assert(hex_bytes(text) =~= bytes);
}

/// Hexadecimal text holds no white space.
pub proof fn hex_text_is_not_trimmed(bytes: Seq<u8>)
    ensures
        forall|i: int|
            0 <= i < hex_text(bytes).len() ==> !crate::text::white_space(
                #[trigger] hex_text(bytes)[i],
            ),
{
    assert forall|i: int| 0 <= i < hex_text(bytes).len() implies !crate::text::white_space(
        #[trigger] hex_text(bytes)[i],
    ) by {
        assert(bytes[i / 2] / 16 < 16 && bytes[i / 2] % 16 < 16);
    }
}

/// Hexadecimal text has two digits for each byte, of which the first is worth sixteen times the
/// second; bytes side by side have their text side by side.
pub proof fn hex_text_is_written_byte_by_byte(front: Seq<u8>, byte: u8)
    ensures
        hex_text(front + seq![byte]) == hex_text(front) + seq![
            hex_digit((byte / 16) as nat),
            hex_digit((byte % 16) as nat),
        ],
        hex_text(Seq::empty()).len() == 0,
        hex_value(hex_digit((byte / 16) as nat)) == Some((byte / 16) as nat),
        hex_value(hex_digit((byte % 16) as nat)) == Some((byte % 16) as nat),
        !('A' <= hex_digit((byte % 16) as nat) <= 'F'),
{
    let all = front + seq![byte];
    let joined = hex_text(front) + seq![
        hex_digit((byte / 16) as nat),
        hex_digit((byte % 16) as nat),
    ];
    assert forall|i: int| 0 <= i < joined.len() implies hex_text(all)[i] == joined[i] by {
        if i < 2 * front.len() {
            assert(all[i / 2] == front[i / 2]);
        } else {
            assert(i / 2 == front.len());
            assert(all[i / 2] == byte);
        }
    }
    assert(hex_text(all) =~= joined);
}

/// Calls `hex::encode`, which writes two lower-case digits for each byte.
#[verifier::external_body]
pub(crate) fn hex_encode(bytes: &[u8]) -> (text: String)
    ensures
        text@ == hex_text(bytes@),
{
    hex::encode(bytes)
}

/// Calls `hex::decode`, which reads an even count of digits of either case and nothing else.
#[verifier::external_body]
pub(crate) fn hex_decode(text: &str) -> (bytes: Result<Vec<u8>, hex::FromHexError>)
    ensures
        match bytes {
            Ok(b) => is_hex(text@) && b@ == hex_bytes(text@),
            Err(_) => !is_hex(text@),
        },
{
    hex::decode(text)
}

} // verus!
