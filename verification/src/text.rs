//! Comparisons on text and bytes that the rest of the crate builds on.

use vstd::prelude::*;
use vstd::std_specs::iter::IteratorSpec;
use vstd::string::{StringExecFns, StringSliceAdditionalSpecFns};
use vstd::utf8::encode_utf8_decode_utf8;

verus! {

/// Whether two byte slices hold the same bytes.
pub fn bytes_eq(a: &[u8], b: &[u8]) -> (same: bool)
    ensures
        same == (a@ == b@),
{
    if a.len() != b.len() {
        return false;
    }
    let mut i: usize = 0;
    while i < a.len()
        invariant
            a@.len() == b@.len(),
            i <= a@.len(),
            forall|k: int| 0 <= k < i ==> a@[k] == b@[k],
        decreases a@.len() - i,
    {
        if a[i] != b[i] {
            return false;
        }
        i += 1;
    }
    assert(a@ =~= b@);
    true
}

/// Appends the bytes of `piece` to `out`.
pub fn append_bytes(out: &mut Vec<u8>, piece: &[u8])
    ensures
        final(out)@ == old(out)@ + piece@,
{
    let mut i: usize = 0;
    while i < piece.len()
        invariant
            i <= piece@.len(),
            out@ == old(out)@ + piece@.take(i as int),
        decreases piece@.len() - i,
    {
        out.push(piece[i]);
        assert(out@ =~= old(out)@ + piece@.take(i as int + 1));
        i += 1;
    }
    assert(piece@.take(i as int) =~= piece@);
}

/// The decimal digit for a value below ten.
pub open spec fn decimal_digit(value: int) -> char {
    if value == 0 {
        '0'
    } else if value == 1 {
        '1'
    } else if value == 2 {
        '2'
    } else if value == 3 {
        '3'
    } else if value == 4 {
        '4'
    } else if value == 5 {
        '5'
    } else if value == 6 {
        '6'
    } else if value == 7 {
        '7'
    } else if value == 8 {
        '8'
    } else {
        '9'
    }
}

/// The decimal text of a natural number, without leading zeros.
pub open spec fn decimal_text(value: nat) -> Seq<char>
    decreases value,
{
    if value < 10 {
        seq![decimal_digit(value as int)]
    } else {
        decimal_text(value / 10).push(decimal_digit((value % 10) as int))
    }
}

/// The one-letter text of a decimal digit.
fn decimal_digit_text(value: usize) -> (text: &'static str)
    requires
        value < 10,
    ensures
        text@ == seq![decimal_digit(value as int)],
{
    proof {
        reveal_strlit("0");
        reveal_strlit("1");
        reveal_strlit("2");
        reveal_strlit("3");
        reveal_strlit("4");
        reveal_strlit("5");
        reveal_strlit("6");
        reveal_strlit("7");
        reveal_strlit("8");
        reveal_strlit("9");
    }
    let text = if value == 0 {
        "0"
    } else if value == 1 {
        "1"
    } else if value == 2 {
        "2"
    } else if value == 3 {
        "3"
    } else if value == 4 {
        "4"
    } else if value == 5 {
        "5"
    } else if value == 6 {
        "6"
    } else if value == 7 {
        "7"
    } else if value == 8 {
        "8"
    } else {
        "9"
    };
    assert(text@ =~= seq![decimal_digit(value as int)]);
    text
}

/// Writes a number in decimal, without leading zeros.
pub fn decimal(value: usize) -> (text: String)
    ensures
        text@ == decimal_text(value as nat),
    decreases value,
{
    if value < 10 {
        String::from_str(decimal_digit_text(value))
    } else {
        let mut text = decimal(value / 10);
        text.append(decimal_digit_text(value % 10));
        assert(text@ =~= decimal_text((value / 10) as nat).push(
            decimal_digit((value % 10) as int),
        ));
        text
    }
}

/// The characters of a text, one by one.
pub fn chars_of(text: &str) -> (chars: Vec<char>)
    ensures
        chars@ == text@,
{
    let mut chars: Vec<char> = Vec::new();
    let mut rest = text.chars();
    loop
        invariant
            chars@ + rest.remaining() == text@,
            rest.obeys_prophetic_iter_laws(),
            rest.decrease() is Some,
        ensures
            chars@ == text@,
        decreases rest.decrease()->0,
    {
        let ghost before = rest;
        match rest.next() {
            Some(c) => {
                proof {
                    vstd::string::next_postcondition(&before, &rest, Some(c));
                    assert(before.remaining() =~= seq![c] + rest.remaining());
                }
                chars.push(c);
                assert(chars@ + rest.remaining() =~= text@);
            },
            None => {
                proof {
                    vstd::string::next_postcondition(&before, &rest, None);
                    assert(chars@ =~= text@);
                }
                break ;
            },
        }
    }
    chars
}

/// Two texts are equal exactly when their UTF-8 encodings are.
pub proof fn lemma_utf8_injective(a: Seq<char>, b: Seq<char>)
    ensures
        (vstd::utf8::encode_utf8(a) == vstd::utf8::encode_utf8(b)) <==> a == b,
{
    encode_utf8_decode_utf8(a);
    encode_utf8_decode_utf8(b);
}

/// Whether two string slices hold the same text.
pub fn str_eq(a: &str, b: &str) -> (same: bool)
    ensures
        same == (a@ == b@),
{
    let same = bytes_eq(a.as_bytes(), b.as_bytes());
    proof {
        lemma_utf8_injective(a@, b@);
    }
    same
}

/// How one text stands to another in the byte order of their encodings.
#[derive(Debug, Clone, Copy, PartialEq, Eq, Structural)]
pub enum Order {
    /// The first comes before the second.
    Before,
    /// The two are the same.
    Same,
    /// The first comes after the second.
    After,
}

/// The two byte strings hold the same bytes at every index below `i`.
pub open spec fn agree_upto(a: Seq<u8>, b: Seq<u8>, i: int) -> bool {
    &&& 0 <= i <= a.len()
    &&& i <= b.len()
    &&& forall|k: int| 0 <= k < i ==> a[k] == b[k]
}

/// The two byte strings part at index `i`, and there `a` ends or holds the
/// smaller byte.
pub open spec fn precedes_at(a: Seq<u8>, b: Seq<u8>, i: int) -> bool {
    &&& agree_upto(a, b, i)
    &&& i < b.len()
    &&& (i == a.len() || a[i] < b[i])
}

/// Lexicographic order on byte strings: `a` comes strictly before `b`.
pub open spec fn precedes(a: Seq<u8>, b: Seq<u8>) -> bool {
    exists|i: int| precedes_at(a, b, i)
}

/// No byte string comes before itself.
pub proof fn lemma_precedes_irreflexive(a: Seq<u8>)
    ensures
        !precedes(a, a),
{
}

/// The order is transitive.
pub proof fn lemma_precedes_transitive(a: Seq<u8>, b: Seq<u8>, c: Seq<u8>)
    requires
        precedes(a, b),
        precedes(b, c),
    ensures
        precedes(a, c),
{
    let i = choose|i: int| precedes_at(a, b, i);
    let j = choose|j: int| precedes_at(b, c, j);
    if i <= j {
        assert(precedes_at(a, c, i));
    } else {
        assert(precedes_at(a, c, j));
    }
}

/// No two byte strings come before each other.
pub proof fn lemma_precedes_asymmetric(a: Seq<u8>, b: Seq<u8>)
    requires
        precedes(a, b),
    ensures
        !precedes(b, a),
{
    if precedes(b, a) {
        lemma_precedes_transitive(a, b, a);
    }
}

/// The bytes by which a text is ordered: its UTF-8 encoding.
pub open spec fn text_bytes(text: Seq<char>) -> Seq<u8> {
    vstd::utf8::encode_utf8(text)
}

/// How `a` stands to `b` in the byte order.
pub open spec fn spec_order(a: Seq<u8>, b: Seq<u8>) -> Order {
    if precedes(a, b) {
        Order::Before
    } else if a == b {
        Order::Same
    } else {
        Order::After
    }
}

/// Compares two byte slices in lexicographic order.
pub fn order_bytes(a: &[u8], b: &[u8]) -> (order: Order)
    ensures
        order == spec_order(a@, b@),
        order is After <==> precedes(b@, a@),
{
    let mut i: usize = 0;
    while i < a.len() && i < b.len()
        invariant
            agree_upto(a@, b@, i as int),
        decreases a@.len() - i,
    {
        if a[i] < b[i] {
            assert(precedes_at(a@, b@, i as int));
            proof {
                lemma_precedes_asymmetric(a@, b@);
            }
            return Order::Before;
        }
        if b[i] < a[i] {
            assert(precedes_at(b@, a@, i as int));
            proof {
                lemma_precedes_asymmetric(b@, a@);
            }
            return Order::After;
        }
        i += 1;
    }
    if i < b.len() {
        assert(precedes_at(a@, b@, i as int));
        proof {
            lemma_precedes_asymmetric(a@, b@);
        }
        Order::Before
    } else if i < a.len() {
        assert(precedes_at(b@, a@, i as int));
        proof {
            lemma_precedes_asymmetric(b@, a@);
        }
        Order::After
    } else {
        assert(a@ =~= b@);
        Order::Same
    }
}

/// Compares two texts in the byte order of their encodings.
pub fn order_text(a: &str, b: &str) -> (order: Order)
    ensures
        order == spec_order(text_bytes(a@), text_bytes(b@)),
        order is Same <==> a@ == b@,
        order is After <==> precedes(text_bytes(b@), text_bytes(a@)),
{
    proof {
        lemma_utf8_injective(a@, b@);
        lemma_precedes_irreflexive(text_bytes(a@));
    }
    order_bytes(a.as_bytes(), b.as_bytes())
}

} // verus!
