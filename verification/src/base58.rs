//! Base58 text (Bitcoin alphabet) of byte strings: one `1` per leading zero
//! byte, then the base-58 digits of the bytes read as a big-endian number.
//! Reading such text back gives the bytes again.

use vstd::prelude::*;
use rust_base58::ToBase58;

verus! {

/// The Base58 digit of value `d < 58`: `1-9`, `A-H`, `J-N`, `P-Z`, `a-k`, `m-z`.
pub open spec fn base58_char(d: int) -> char {
    if d < 9 {
        (49 + d) as char
    } else if d < 17 {
        (65 + d - 9) as char
    } else if d < 22 {
        (74 + d - 17) as char
    } else if d < 33 {
        (80 + d - 22) as char
    } else if d < 44 {
        (97 + d - 33) as char
    } else {
        (109 + d - 44) as char
    }
}

/// The value of a Base58 digit (58 for any other character).
pub open spec fn base58_char_value(c: char) -> int {
    let v = c as int;
    if 49 <= v <= 57 {
        v - 49
    } else if 65 <= v <= 72 {
        v - 65 + 9
    } else if 74 <= v <= 78 {
        v - 74 + 17
    } else if 80 <= v <= 90 {
        v - 80 + 22
    } else if 97 <= v <= 107 {
        v - 97 + 33
    } else if 109 <= v <= 122 {
        v - 109 + 44
    } else {
        58
    }
}

/// `bytes` read as a big-endian number.
pub open spec fn be_value(bytes: Seq<u8>) -> nat
    decreases bytes.len(),
{
    if bytes.len() == 0 {
        0
    } else {
        be_value(bytes.drop_last()) * 256 + bytes.last() as nat
    }
}

/// The shortest big-endian bytes of `n` (none for 0).
pub open spec fn be_bytes(n: nat) -> Seq<u8>
    decreases n,
{
    if n == 0 {
        Seq::empty()
    } else {
        be_bytes(n / 256).push((n % 256) as u8)
    }
}

/// The base-58 digits of `n`, most significant first (none for 0).
pub open spec fn base58_digits(n: nat) -> Seq<char>
    decreases n,
{
    if n == 0 {
        Seq::empty()
    } else {
        base58_digits(n / 58).push(base58_char((n % 58) as int))
    }
}

/// `text` read as a big-endian base-58 number.
pub open spec fn base58_value(text: Seq<char>) -> nat
    decreases text.len(),
{
    if text.len() == 0 {
        0
    } else {
        base58_value(text.drop_last()) * 58 + base58_char_value(text.last()) as nat
    }
}

/// How many zero bytes `bytes` starts with.
pub open spec fn leading_zero_bytes(bytes: Seq<u8>) -> nat
    decreases bytes.len(),
{
    if bytes.len() > 0 && bytes[0] == 0 {
        1 + leading_zero_bytes(bytes.drop_first())
    } else {
        0
    }
}

/// How many `1` characters `text` starts with.
pub open spec fn leading_ones(text: Seq<char>) -> nat
    decreases text.len(),
{
    if text.len() > 0 && text[0] == '1' {
        1 + leading_ones(text.drop_first())
    } else {
        0
    }
}

/// The Base58 text of `bytes`.
pub open spec fn base58_encoding(bytes: Seq<u8>) -> Seq<char> {
    Seq::new(leading_zero_bytes(bytes), |i: int| '1') + base58_digits(be_value(bytes))
}

/// The bytes that Base58 text stands for: a zero byte for each leading `1`,
/// then the shortest big-endian bytes of the value of the rest.
pub open spec fn base58_decoding(text: Seq<char>) -> Seq<u8> {
    Seq::new(leading_ones(text), |i: int| 0u8) + be_bytes(base58_value(text.skip(leading_ones(text) as int)))
}

/// Base58 text of `bytes`.
///
/// Trusted: `rust_base58::ToBase58::to_base58` on a byte slice (rust-base58
/// 0.0.4).  It reads the bytes as a big-endian number, pushes its base-58
/// digits least significant first from the alphabet
/// "123456789ABCDEFGHJKLMNPQRSTUVWXYZabcdefghijkmnopqrstuvwxyz", pushes a
/// `1` for each leading zero byte, and reverses the text.
#[verifier::external_body]
pub(crate) fn base58_encode(bytes: &[u8]) -> (res: String)
    ensures
        res@ == base58_encoding(bytes@),
{
    bytes.to_base58()
}

proof fn lemma_char_value(d: int)
    requires
        0 <= d < 58,
    ensures
        base58_char_value(base58_char(d)) == d,
        base58_char(d) == '1' <==> d == 0,
{
}

proof fn lemma_digits_value(n: nat)
    ensures
        base58_value(base58_digits(n)) == n,
        n > 0 ==> base58_digits(n).len() > 0 && base58_digits(n)[0] != '1',
    decreases n,
{
    if n > 0 {
        lemma_digits_value(n / 58);
        lemma_char_value((n % 58) as int);
        let d = base58_digits(n);
        assert(d.drop_last() =~= base58_digits(n / 58));
        if n / 58 == 0 {
            assert(d[0] == base58_char((n % 58) as int));
        } else {
            assert(d[0] == base58_digits(n / 58)[0]);
        }
    }
}

proof fn lemma_be_value_positive(bytes: Seq<u8>)
    requires
        bytes.len() > 0,
        bytes[0] != 0,
    ensures
        be_value(bytes) > 0,
    decreases bytes.len(),
{
    if bytes.len() > 1 {
        lemma_be_value_positive(bytes.drop_last());
    }
}

proof fn lemma_be_bytes_value(bytes: Seq<u8>)
    requires
        bytes.len() == 0 || bytes[0] != 0,
    ensures
        be_bytes(be_value(bytes)) == bytes,
    decreases bytes.len(),
{
    if bytes.len() > 0 {
        let rest = bytes.drop_last();
        lemma_be_value_positive(bytes);
        if rest.len() > 0 {
            assert(rest[0] == bytes[0]);
        }
        lemma_be_bytes_value(rest);
        let v = be_value(bytes);
        assert(v / 256 == be_value(rest));
        assert(v % 256 == bytes.last());
        assert(bytes =~= rest.push(bytes.last()));
    }
}

proof fn lemma_be_value_zeros(zeros: Seq<u8>, rest: Seq<u8>)
    requires
        forall|i: int| 0 <= i < zeros.len() ==> zeros[i] == 0,
    ensures
        be_value(zeros + rest) == be_value(rest),
    decreases rest.len(), zeros.len(),
{
    if rest.len() > 0 {
        assert((zeros + rest).drop_last() =~= zeros + rest.drop_last());
        lemma_be_value_zeros(zeros, rest.drop_last());
    } else if zeros.len() > 0 {
        assert(zeros + rest =~= zeros);
        assert(zeros.drop_last() + rest =~= zeros.drop_last());
        lemma_be_value_zeros(zeros.drop_last(), rest);
    } else {
        assert(zeros + rest =~= rest);
    }
}

proof fn lemma_leading_zeros_split(bytes: Seq<u8>)
    ensures
        leading_zero_bytes(bytes) <= bytes.len(),
        forall|i: int| 0 <= i < leading_zero_bytes(bytes) ==> bytes[i] == 0,
        leading_zero_bytes(bytes) < bytes.len() ==> bytes[leading_zero_bytes(bytes) as int] != 0,
    decreases bytes.len(),
{
    if bytes.len() > 0 && bytes[0] == 0 {
        lemma_leading_zeros_split(bytes.drop_first());
        assert forall|i: int| 0 <= i < leading_zero_bytes(bytes) implies bytes[i] == 0 by {
            if i > 0 {
                assert(bytes[i] == bytes.drop_first()[i - 1]);
            }
        }
    }
}

proof fn lemma_leading_ones(k: nat, digits: Seq<char>)
    requires
        digits.len() == 0 || digits[0] != '1',
    ensures
        leading_ones(Seq::new(k, |i: int| '1') + digits) == k,
    decreases k,
{
    let text = Seq::new(k, |i: int| '1') + digits;
    if k == 0 {
        assert(text =~= digits);
    } else {
        assert(text.drop_first() =~= Seq::new((k - 1) as nat, |i: int| '1') + digits);
        lemma_leading_ones((k - 1) as nat, digits);
    }
}

/// Reading Base58 text back gives the bytes it was written from.
pub proof fn lemma_base58_round_trip(bytes: Seq<u8>)
    ensures
        base58_decoding(base58_encoding(bytes)) == bytes,
{
    let k = leading_zero_bytes(bytes);
    lemma_leading_zeros_split(bytes);
    let zeros = bytes.take(k as int);
    let rest = bytes.skip(k as int);
    assert(bytes =~= zeros + rest);
    lemma_be_value_zeros(zeros, rest);
    if rest.len() > 0 {
        assert(rest[0] == bytes[k as int]);
    }
    lemma_be_bytes_value(rest);
    let n = be_value(bytes);
    lemma_digits_value(n);
    if n == 0 {
        assert(base58_digits(n) =~= Seq::<char>::empty());
    }
    let text = base58_encoding(bytes);
    lemma_leading_ones(k, base58_digits(n));
    assert(text.skip(k as int) =~= base58_digits(n));
    assert(Seq::new(k, |i: int| 0u8) =~= zeros);
}

} // verus!
