//! Base58 text of byte strings (the Bitcoin alphabet, as Solana addresses
//! use it) and SHA-256 digests.

use vstd::prelude::*;

use base64::Engine;
use sha2::Digest;

verus! {

/// The Bitcoin base58 alphabet: digit `d` is written `alphabet[d]`.
pub open spec fn base58_alphabet() -> Seq<char> {
    "123456789ABCDEFGHJKLMNPQRSTUVWXYZabcdefghijkmnopqrstuvwxyz"@
}

/// The digit that a base58 character stands for, read off its code point
/// (the alphabet runs through `1`-`9`, `A`-`Z` and `a`-`z` in order, skipping
/// `I`, `O` and `l`).
pub open spec fn base58_digit_value(c: char) -> int {
    let u = c as int;
    if u <= 57 {
        u - 49
    } else if u <= 72 {
        u - 56
    } else if u <= 78 {
        u - 57
    } else if u <= 90 {
        u - 58
    } else if u <= 107 {
        u - 64
    } else {
        u - 65
    }
}

/// Each digit of the alphabet reads back as itself, so no two digits share
/// a character.
pub proof fn lemma_alphabet_reads_back()
    ensures
        base58_alphabet().len() == 58,
        forall|d: int| 0 <= d < 58 ==> #[trigger] base58_digit_value(base58_alphabet()[d]) == d,
{
    reveal_strlit("123456789ABCDEFGHJKLMNPQRSTUVWXYZabcdefghijkmnopqrstuvwxyz");
    assert forall|d: int| 0 <= d < 58 implies #[trigger] base58_digit_value(base58_alphabet()[d]) == d by {
        assert(base58_alphabet()[d] == "123456789ABCDEFGHJKLMNPQRSTUVWXYZabcdefghijkmnopqrstuvwxyz"@[d]);
    }
}

/// The number of zero bytes that `b` starts with.
pub open spec fn leading_zero_count(b: Seq<u8>) -> nat
    decreases b.len(),
{
    if b.len() > 0 && b[0] == 0 {
        1 + leading_zero_count(b.drop_first())
    } else {
        0
    }
}

/// The value of `b` read as a big-endian number.
pub open spec fn big_endian_value(b: Seq<u8>) -> nat
    decreases b.len(),
{
    if b.len() == 0 {
        0
    } else {
        big_endian_value(b.drop_last()) * 256 + b.last() as nat
    }
}

/// The base58 digits of `n`, most significant first, without leading zeros
/// (none at all for zero).
pub open spec fn base58_digits(n: nat) -> Seq<char>
    decreases n,
{
    if n == 0 {
        Seq::empty()
    } else {
        base58_digits(n / 58).push(base58_alphabet()[(n % 58) as int])
    }
}

/// The base58 text of `b`: a `1` for each leading zero byte, then the digits
/// of its big-endian value.
pub open spec fn base58_text(b: Seq<u8>) -> Seq<char> {
    Seq::new(leading_zero_count(b), |_i: int| '1') + base58_digits(big_endian_value(b))
}

/// The base58 digits of a positive number: at least one, and the first is
/// not `1`, the digit zero.
proof fn lemma_digits_lead(n: nat)
    requires
        n > 0,
    ensures
        base58_digits(n).len() > 0,
        base58_digits(n)[0] != '1',
    decreases n,
{
    lemma_alphabet_reads_back();
    assert(base58_digit_value('1') == 0);
    if n / 58 == 0 {
        assert(base58_digits(n / 58) =~= Seq::<char>::empty());
        assert(base58_digits(n)[0] == base58_alphabet()[(n % 58) as int]);
        assert(base58_digit_value(base58_alphabet()[(n % 58) as int]) == n % 58);
    } else {
        lemma_digits_lead(n / 58);
        assert(base58_digits(n)[0] == base58_digits(n / 58)[0]);
    }
}

/// Different numbers have different base58 digits.
proof fn lemma_digits_injective(m: nat, n: nat)
    requires
        base58_digits(m) == base58_digits(n),
    ensures
        m == n,
    decreases n,
{
    lemma_alphabet_reads_back();
    if n == 0 || m == 0 {
        if m > 0 {
            lemma_digits_lead(m);
        }
        if n > 0 {
            lemma_digits_lead(n);
        }
    } else {
        let dm = base58_digits(m);
        let dn = base58_digits(n);
        assert(dm.last() == base58_alphabet()[(m % 58) as int]);
        assert(dn.last() == base58_alphabet()[(n % 58) as int]);
        assert(base58_digit_value(dm.last()) == m % 58);
        assert(base58_digit_value(dn.last()) == n % 58);
        assert(base58_digits(m / 58) =~= dm.drop_last());
        assert(base58_digits(n / 58) =~= dn.drop_last());
        lemma_digits_injective(m / 58, n / 58);
    }
}

/// The first `leading_zero_count(b)` bytes of `b` are zero, and the byte
/// after them, if there is one, is not.
proof fn lemma_leading_zeros(b: Seq<u8>)
    ensures
        leading_zero_count(b) <= b.len(),
        forall|i: int| 0 <= i < leading_zero_count(b) ==> b[i] == 0,
        leading_zero_count(b) < b.len() ==> b[leading_zero_count(b) as int] != 0,
    decreases b.len(),
{
    if b.len() > 0 && b[0] == 0 {
        let t = b.drop_first();
        lemma_leading_zeros(t);
        assert forall|i: int| 0 <= i < leading_zero_count(b) implies b[i] == 0 by {
            if i > 0 {
                assert(b[i] == t[i - 1]);
            }
        }
        let z = leading_zero_count(b);
        if z < b.len() {
            assert(b[z as int] == t[z - 1]);
        }
    }
}

/// A byte string that is empty or starts with a nonzero byte.
pub open spec fn no_leading_zero(b: Seq<u8>) -> bool {
    b.len() == 0 || b[0] != 0
}

/// Zero bytes have the value zero.
proof fn lemma_zeros_value(p: Seq<u8>)
    requires
        forall|i: int| 0 <= i < p.len() ==> p[i] == 0,
    ensures
        big_endian_value(p) == 0,
    decreases p.len(),
{
    if p.len() > 0 {
        lemma_zeros_value(p.drop_last());
    }
}

/// Zero bytes in front do not change the value.
proof fn lemma_zeros_prefix_value(p: Seq<u8>, r: Seq<u8>)
    requires
        forall|i: int| 0 <= i < p.len() ==> p[i] == 0,
    ensures
        big_endian_value(p + r) == big_endian_value(r),
    decreases r.len(),
{
    if r.len() == 0 {
        assert(p + r =~= p);
        lemma_zeros_value(p);
    } else {
        assert((p + r).drop_last() =~= p + r.drop_last());
        assert((p + r).last() == r.last());
        lemma_zeros_prefix_value(p, r.drop_last());
    }
}

/// A byte string that starts with a nonzero byte has a positive value.
proof fn lemma_value_positive(b: Seq<u8>)
    requires
        b.len() > 0,
        b[0] != 0,
    ensures
        big_endian_value(b) > 0,
    decreases b.len(),
{
    if b.len() > 1 {
        assert(b.drop_last()[0] == b[0]);
        lemma_value_positive(b.drop_last());
    }
}

/// Two numbers written in base 256 with equal values have equal last
/// digits and equal leading parts.
proof fn lemma_base256_split(v1: int, d1: int, v2: int, d2: int)
    requires
        0 <= d1 < 256,
        0 <= d2 < 256,
        v1 * 256 + d1 == v2 * 256 + d2,
    ensures
        v1 == v2,
        d1 == d2,
{
    assert(v1 == v2) by (nonlinear_arith)
        requires
            0 <= d1 < 256,
            0 <= d2 < 256,
            v1 * 256 + d1 == v2 * 256 + d2,
    ;
}

/// Byte strings without a leading zero are told apart by their values.
proof fn lemma_value_determines(r: Seq<u8>, s: Seq<u8>)
    requires
        no_leading_zero(r),
        no_leading_zero(s),
        big_endian_value(r) == big_endian_value(s),
    ensures
        r == s,
    decreases r.len(),
{
    if r.len() == 0 || s.len() == 0 {
        if r.len() > 0 {
            lemma_value_positive(r);
        }
        if s.len() > 0 {
            lemma_value_positive(s);
        }
        assert(r =~= s);
    } else {
        let r1 = r.drop_last();
        let s1 = s.drop_last();
        lemma_base256_split(
            big_endian_value(r1) as int,
            r.last() as int,
            big_endian_value(s1) as int,
            s.last() as int,
        );
        if r1.len() > 0 {
            assert(r1[0] == r[0]);
        }
        if s1.len() > 0 {
            assert(s1[0] == s[0]);
        }
        lemma_value_determines(r1, s1);
        assert(r =~= r1.push(r.last()));
        assert(s =~= s1.push(s.last()));
    }
}

/// Base58 text names one byte string: byte strings with the same text are
/// equal, so decoding a text has at most one answer.
pub proof fn lemma_base58_text_injective(a: Seq<u8>, b: Seq<u8>)
    requires
        base58_text(a) == base58_text(b),
    ensures
        a == b,
{
    let za = leading_zero_count(a);
    let zb = leading_zero_count(b);
    let va = big_endian_value(a);
    let vb = big_endian_value(b);
    let t = base58_text(a);
    assert(t == Seq::new(za, |_i: int| '1') + base58_digits(va));
    assert(t == Seq::new(zb, |_i: int| '1') + base58_digits(vb));
    if za < zb {
        assert(t[za as int] == '1');
        if va > 0 {
            lemma_digits_lead(va);
            assert(t[za as int] == base58_digits(va)[0]);
        }
    }
    if zb < za {
        assert(t[zb as int] == '1');
        if vb > 0 {
            lemma_digits_lead(vb);
            assert(t[zb as int] == base58_digits(vb)[0]);
        }
    }
    assert(za == zb);
    assert(base58_digits(va) =~= t.subrange(za as int, t.len() as int));
    assert(base58_digits(vb) =~= t.subrange(za as int, t.len() as int));
    lemma_digits_injective(va, vb);
    lemma_leading_zeros(a);
    lemma_leading_zeros(b);
    let pa = a.subrange(0, za as int);
    let pb = b.subrange(0, za as int);
    let ra = a.subrange(za as int, a.len() as int);
    let rb = b.subrange(za as int, b.len() as int);
    assert(a =~= pa + ra);
    assert(b =~= pb + rb);
    lemma_zeros_prefix_value(pa, ra);
    lemma_zeros_prefix_value(pb, rb);
    if ra.len() > 0 {
        assert(ra[0] == a[za as int]);
    }
    if rb.len() > 0 {
        assert(rb[0] == b[za as int]);
    }
    lemma_value_determines(ra, rb);
    assert(pa =~= pb);
}

/// `bs58::encode(bytes).into_string()`: the base58 text of the bytes in the
/// default (Bitcoin) alphabet. The crate writes one `1` per leading zero
/// byte and then the base58 digits of the remaining big-endian number, which
/// is what `base58_text` states.
#[verifier::external_body]
pub fn bs58_encode(bytes: &[u8]) -> (s: String)
    ensures
        s@ == base58_text(bytes@),
{
    bs58::encode(bytes).into_string()
}

/// Whether every character of `s` is a base58 digit.
pub open spec fn all_base58(s: Seq<char>) -> bool {
    forall|i: int| 0 <= i < s.len() ==> base58_alphabet().contains(#[trigger] s[i])
}

/// Every character of base58 text is a base58 digit.
pub proof fn lemma_text_all_base58(b: Seq<u8>)
    ensures
        all_base58(base58_text(b)),
{
    reveal_strlit("123456789ABCDEFGHJKLMNPQRSTUVWXYZabcdefghijkmnopqrstuvwxyz");
    assert(base58_alphabet()[0] == '1');
    lemma_digits_all_base58(big_endian_value(b));
    let t = base58_text(b);
    let z = leading_zero_count(b);
    assert forall|i: int| 0 <= i < t.len() implies base58_alphabet().contains(#[trigger] t[i]) by {
        if i < z {
            assert(t[i] == base58_alphabet()[0]);
        } else {
            assert(t[i] == base58_digits(big_endian_value(b))[i - z]);
        }
    }
}

/// The base58 digits of a number are digits of the alphabet.
proof fn lemma_digits_all_base58(n: nat)
    ensures
        all_base58(base58_digits(n)),
    decreases n,
{
    if n > 0 {
        lemma_digits_all_base58(n / 58);
        let d = base58_digits(n);
        let last = base58_alphabet()[(n % 58) as int];
        assert(base58_alphabet().contains(last)) by {
            lemma_alphabet_reads_back();
        }
        assert forall|i: int| 0 <= i < d.len() implies base58_alphabet().contains(#[trigger] d[i]) by {
            if i < d.len() - 1 {
                assert(d[i] == base58_digits(n / 58)[i]);
            }
        }
    }
}

/// `bs58::decode(text).into_vec()`: the crate reads one zero byte for each
/// leading `1` and then the big-endian number that the remaining digits
/// spell, so the bytes it gives back have `text` as their base58 text; it
/// fails exactly on a character outside the alphabet (a `Vec` target is
/// never too small).
#[verifier::external_body]
pub fn bs58_decode(text: &str) -> (r: Option<Vec<u8>>)
    ensures
        r is Some <==> all_base58(text@),
        r matches Some(b) ==> base58_text(b@) == text@,
{
    bs58::decode(text).into_vec().ok()
}

/// Why a base58 text does not stand for a value of a fixed size.
#[derive(Debug, Clone, Copy, PartialEq, Eq, Structural)]
pub enum FixedSizeError {
    /// The text is too long, or decodes to another number of bytes
    WrongSize,
    /// The text holds a character outside the base58 alphabet
    Invalid,
}

/// Decodes base58 text that stands for exactly `size` bytes. A text longer
/// than `max_text_len` bytes is the wrong size; one with a character
/// outside the alphabet is invalid; otherwise it is the wrong size unless it
/// decodes to `size` bytes, which are returned.
pub fn decode_base58_fixed(text: &str, max_text_len: usize, size: usize) -> (r: Result<Vec<u8>, FixedSizeError>)
    ensures
        text.len() > max_text_len ==> r == Err::<Vec<u8>, FixedSizeError>(FixedSizeError::WrongSize),
        text.len() <= max_text_len && !all_base58(text@) ==> r == Err::<Vec<u8>, FixedSizeError>(FixedSizeError::Invalid),
        text.len() <= max_text_len && all_base58(text@) ==> match r {
            Ok(b) => b@.len() == size && base58_text(b@) == text@,
            Err(e) => e == FixedSizeError::WrongSize
                && forall|b: Seq<u8>| base58_text(b) == text@ ==> b.len() != size,
        },
        forall|b: Seq<u8>| #![trigger base58_text(b)]
            text.len() <= max_text_len && b.len() == size && base58_text(b) == text@ ==> (r matches Ok(v) && v@ == b),
{
    proof {
        assert forall|b: Seq<u8>| #![trigger base58_text(b)] base58_text(b) == text@ implies all_base58(text@) by {
            lemma_text_all_base58(b);
        }
    }
    if text.len() > max_text_len {
        return Err(FixedSizeError::WrongSize);
    }
    match bs58_decode(text) {
        None => Err(FixedSizeError::Invalid),
        Some(bytes) => {
            proof {
                assert forall|b: Seq<u8>| #![trigger base58_text(b)] base58_text(b) == text@ implies bytes@ == b by {
                    lemma_base58_text_injective(b, bytes@);
                }
            }
            if bytes.len() != size {
                Err(FixedSizeError::WrongSize)
            } else {
                Ok(bytes)
            }
        }
    }
}

/// The bytes that base64 text stands for in the standard alphabet with
/// padding; nothing for text that is not such base64.
pub uninterp spec fn base64_standard_decoded(text: Seq<char>) -> Option<Seq<u8>>;

/// `base64::engine::general_purpose::STANDARD.decode(text)`: the result
/// depends on the text alone, so it is named rather than stated; an error
/// (a character outside the alphabet, bad padding or a bad length) is
/// nothing.
#[verifier::external_body]
pub fn base64_decode(text: &str) -> (r: Option<Vec<u8>>)
    ensures
        match r {
            Some(v) => base64_standard_decoded(text@) == Some(v@),
            None => base64_standard_decoded(text@) is None,
        },
{
    base64::engine::general_purpose::STANDARD.decode(text).ok()
}

/// The SHA-256 digest of a byte string.
pub uninterp spec fn sha256_digest(data: Seq<u8>) -> Seq<u8>;

/// `sha2::Sha256` over `data`: its 32-byte digest. The digest is named, not
/// stated: it depends on the data alone.
#[verifier::external_body]
pub fn sha256(data: &[u8]) -> (d: [u8; 32])
    ensures
        d@ == sha256_digest(data@),
{
    sha2::Sha256::digest(data).into()
}

} // verus!
