//! Lowercase hexadecimal rendering of byte strings.
//!
//! Identifiers are written into request addresses in this form: two digits per
//! byte, most significant nibble first, digits `0`-`9` and `a`-`f`.

use vstd::prelude::*;
use vstd::string::*;

verus! {

/// The sixteen digits, in order of value.
pub open spec fn digits() -> Seq<char> {
    seq!['0', '1', '2', '3', '4', '5', '6', '7', '8', '9', 'a', 'b', 'c', 'd', 'e', 'f']
}

/// The digit that stands for the nibble `n`.
pub open spec fn digit(n: int) -> char
    recommends
        0 <= n < 16,
{
    digits()[n]
}

/// The nibble of `bytes` that the `k`-th digit of its rendering stands for:
/// even positions hold the high nibble of a byte, odd positions the low one.
pub open spec fn nibble(bytes: Seq<u8>, k: int) -> int
    recommends
        0 <= k < 2 * bytes.len(),
{
    if k % 2 == 0 {
        bytes[k / 2] as int / 16
    } else {
        bytes[k / 2] as int % 16
    }
}

/// The rendering of `bytes`: twice as many digits as bytes.
pub open spec fn base16(bytes: Seq<u8>) -> Seq<char> {
    Seq::new(2 * bytes.len(), |k: int| digit(nibble(bytes, k)))
}

/// Whether `c` is one of the sixteen lowercase digits.
pub open spec fn is_lower_hex(c: char) -> bool {
    ('0' <= c <= '9') || ('a' <= c <= 'f')
}

/// A rendering holds two digits for each byte and nothing else, and every
/// digit is a decimal digit or a lowercase letter from `a` to `f`.
pub proof fn lemma_base16_shape(bytes: Seq<u8>)
    ensures
        base16(bytes).len() == 2 * bytes.len(),
        forall|k: int| 0 <= k < 2 * bytes.len() ==> is_lower_hex(#[trigger] base16(bytes)[k]),
{
    assert forall|k: int| 0 <= k < 2 * bytes.len() implies is_lower_hex(
        #[trigger] base16(bytes)[k],
    ) by {
        let n = nibble(bytes, k);
        assert(0 <= n < 16);
        assert(base16(bytes)[k] == digits()[n]);
    }
}

/// Distinct nibbles have distinct digits.
pub proof fn lemma_digit_injective(m: int, n: int)
    requires
        0 <= m < 16,
        0 <= n < 16,
        digit(m) == digit(n),
    ensures
        m == n,
{
}

/// Distinct byte strings have distinct renderings.
pub proof fn lemma_base16_injective(a: Seq<u8>, b: Seq<u8>)
    requires
        base16(a) == base16(b),
    ensures
        a == b,
{
    assert(base16(a).len() == 2 * a.len());
    assert(base16(b).len() == 2 * b.len());
    assert(a.len() == b.len());
    assert forall|i: int| 0 <= i < a.len() implies a[i] == b[i] by {
        let hi = 2 * i;
        let lo = 2 * i + 1;
        assert(base16(a)[hi] == digit(nibble(a, hi)));
        assert(base16(b)[hi] == digit(nibble(b, hi)));
        assert(base16(a)[lo] == digit(nibble(a, lo)));
        assert(base16(b)[lo] == digit(nibble(b, lo)));
        lemma_digit_injective(nibble(a, hi), nibble(b, hi));
        lemma_digit_injective(nibble(a, lo), nibble(b, lo));
        assert(a[i] as int == 16 * (a[i] as int / 16) + a[i] as int % 16);
        assert(b[i] as int == 16 * (b[i] as int / 16) + b[i] as int % 16);
    }
    assert(a =~= b);
}

/// The text of the single digit for the nibble `n`.
fn digit_text(n: u8) -> (text: &'static str)
    requires
        n < 16,
    ensures
        text@ == seq![digit(n as int)],
{
    let all = "0123456789abcdef";
    proof {
        reveal_strlit("0123456789abcdef");
        assert(all@ =~= digits());
    }
    let at = n as usize;
    let text = all.substring_ascii(at, at + 1);
    assert(text@ =~= seq![digit(n as int)]);
    text
}

/// Renders `bytes` in lowercase hexadecimal.
pub fn to_base16(bytes: &[u8]) -> (text: String)
    ensures
        text@ == base16(bytes@),
{
    let mut text = String::new();
    let mut i: usize = 0;
    while i < bytes.len()
        invariant
            i <= bytes@.len(),
            text@ == base16(bytes@.take(i as int)),
        decreases bytes@.len() - i,
    {
        let byte = bytes[i];
        let ghost before = text@;
        text.append(digit_text(byte / 16));
        text.append(digit_text(byte % 16));
        proof {
            let done = bytes@.take(i as int);
            let next = bytes@.take(i as int + 1);
            assert(next =~= done.push(byte));
            assert(text@ =~= base16(next)) by {
                assert(text@.len() == 2 * next.len());
                assert forall|k: int| 0 <= k < text@.len() implies text@[k] == base16(next)[k] by {
                    if k < 2 * i {
                        assert(text@[k] == before[k]);
                        assert(nibble(done, k) == nibble(next, k));
                    } else if k == 2 * i {
                        assert(nibble(next, k) == byte as int / 16);
                    } else {
                        assert(nibble(next, k) == byte as int % 16);
                    }
                }
            }
        }
        i += 1;
    }
    assert(bytes@.take(i as int) =~= bytes@);
    text
}

} // verus!
