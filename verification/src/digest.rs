//! SHA-256 digests and their lowercase hexadecimal text.

use sha2::Digest;
use vstd::prelude::*;
use vstd::string::StringExecFns;

verus! {

/// The SHA-256 digest of a message, as the `sha2` crate computes it.
pub uninterp spec fn sha256(message: Seq<u8>) -> Seq<u8>;

/// Calls `sha2::Sha256::digest` on the message and copies the digest out of
/// its fixed-size array. The digest is a function of the message alone and
/// is 32 bytes long.
#[verifier::external_body]
pub(crate) fn sha256_digest(message: &[u8]) -> (digest: Vec<u8>)
    ensures
        digest@ == sha256(message@),
        digest@.len() == 32,
{
    sha2::Sha256::digest(message).to_vec()
}

/// The hexadecimal digit for a value below sixteen.
pub open spec fn hex_digit(value: int) -> char {
    if value == 0 {
        '0'
    } else if value == 1 {
        '1'
    } else if value == 2 {
        '2'
    } else if value == 3 {
        '3'
    } else if value == 4 {
        '4'
    } else if value == 5 {
        '5'
    } else if value == 6 {
        '6'
    } else if value == 7 {
        '7'
    } else if value == 8 {
        '8'
    } else if value == 9 {
        '9'
    } else if value == 10 {
        'a'
    } else if value == 11 {
        'b'
    } else if value == 12 {
        'c'
    } else if value == 13 {
        'd'
    } else if value == 14 {
        'e'
    } else {
        'f'
    }
}

/// The lowercase hexadecimal text of a byte string: two digits for each
/// byte, the high half first.
pub open spec fn hex_text(bytes: Seq<u8>) -> Seq<char> {
    Seq::new(
        2 * bytes.len(),
        |i: int|
            if i % 2 == 0 {
                hex_digit(bytes[i / 2] as int / 16)
            } else {
                hex_digit(bytes[i / 2] as int % 16)
            },
    )
}

/// The one-letter text of a hexadecimal digit.
fn digit_text(value: u8) -> (text: &'static str)
    requires
        value < 16,
    ensures
        text@ == seq![hex_digit(value as int)],
{
    proof {
        reveal_strlit("0");
        reveal_strlit("1");
        reveal_strlit("2");
        reveal_strlit("3");
        reveal_strlit("4");
        reveal_strlit("5");
        reveal_strlit("6");
        reveal_strlit("7");
        reveal_strlit("8");
        reveal_strlit("9");
        reveal_strlit("a");
        reveal_strlit("b");
        reveal_strlit("c");
        reveal_strlit("d");
        reveal_strlit("e");
        reveal_strlit("f");
    }
    let text = if value == 0 {
        "0"
    } else if value == 1 {
        "1"
    } else if value == 2 {
        "2"
    } else if value == 3 {
        "3"
    } else if value == 4 {
        "4"
    } else if value == 5 {
        "5"
    } else if value == 6 {
        "6"
    } else if value == 7 {
        "7"
    } else if value == 8 {
        "8"
    } else if value == 9 {
        "9"
    } else if value == 10 {
        "a"
    } else if value == 11 {
        "b"
    } else if value == 12 {
        "c"
    } else if value == 13 {
        "d"
    } else if value == 14 {
        "e"
    } else {
        "f"
    };
    assert(text@ =~= seq![hex_digit(value as int)]);
    text
}

/// Writes a byte string as lowercase hexadecimal text.
pub fn hex_lower(bytes: &[u8]) -> (text: String)
    ensures
        text@ == hex_text(bytes@),
{
    let mut text = String::new();
    let mut i: usize = 0;
    while i < bytes.len()
        invariant
            i <= bytes@.len(),
            text@ == hex_text(bytes@.take(i as int)),
        decreases bytes@.len() - i,
    {
        let byte = bytes[i];
        let ghost before = text@;
        text.append(digit_text(byte / 16));
        text.append(digit_text(byte % 16));
        proof {
            let done = bytes@.take(i as int);
            let more = bytes@.take(i as int + 1);
            assert(more.len() == i + 1);
            assert forall|k: int| 0 <= k < 2 * more.len() implies text@[k] == hex_text(more)[k] by {
                if k < 2 * i {
                    assert(before[k] == hex_text(done)[k]);
                    assert(done[k / 2] == more[k / 2]);
                } else {
                    assert(more[i as int] == byte);
                }
            }
            assert(text@ =~= hex_text(more));
        }
        i += 1;
    }
    assert(bytes@.take(i as int) =~= bytes@);
    text
}

} // verus!
