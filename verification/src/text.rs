//! Bytes as UTF-8 text, and numbers as decimal text.

use vstd::prelude::*;
use vstd::utf8::*;

verus! {

/// `String::from_utf8`, with its error dropped: the text that `bytes` encode,
/// if they are well-formed UTF-8, and nothing if they are not.
#[verifier::external_body]
pub(crate) fn string_from_utf8(bytes: Vec<u8>) -> (r: Option<String>)
    ensures
        r is Some <==> valid_utf8(bytes@),
        r matches Some(s) ==> s@ == decode_utf8(bytes@),
{
    String::from_utf8(bytes).ok()
}

/// The character of the decimal digit `d`.
pub open spec fn digit(d: nat) -> char {
    (d + 48) as u8 as char
}

/// The decimal digits of `n`, without leading zeros.
pub open spec fn decimal(n: nat) -> Seq<char>
    decreases n,
{
    if n < 10 {
        seq![digit(n)]
    } else {
        decimal(n / 10).push(digit(n % 10))
    }
}

/// The UTF-8 form of a text in two parts is the UTF-8 form of the first part,
/// then that of the second.
pub proof fn lemma_encode_utf8_concat(a: Seq<char>, b: Seq<char>)
    ensures
        encode_utf8(a + b) == encode_utf8(a) + encode_utf8(b),
    decreases a.len(),
{
    if a.len() > 0 {
        lemma_encode_utf8_concat(a.drop_first(), b);
        assert((a + b).drop_first() =~= a.drop_first() + b);
    }
}

/// A decimal digit is one byte in UTF-8: 48 and the digit.
pub proof fn lemma_digit_utf8(d: nat)
    requires
        d < 10,
    ensures
        encode_utf8(seq![digit(d)]) == seq![(d + 48) as u8],
{
    let one = seq![digit(d)];
    is_ascii_chars_encode_utf8(one);
}

/// Appends the decimal digits of `n` to `out`, as UTF-8.
pub fn push_decimal(out: &mut Vec<u8>, n: u16)
    ensures
        final(out)@ == old(out)@ + encode_utf8(decimal(n as nat)),
    decreases n,
{
    if n >= 10 {
        push_decimal(out, n / 10);
    }
    let last: u8 = 48 + (n % 10) as u8;
    out.push(last);
    proof {
        let d = (n % 10) as nat;
        lemma_digit_utf8(d);
        if n >= 10 {
            let head = decimal((n / 10) as nat);
            assert(decimal(n as nat) =~= head + seq![digit(d)]);
            lemma_encode_utf8_concat(head, seq![digit(d)]);
        }
    }
}

} // verus!
