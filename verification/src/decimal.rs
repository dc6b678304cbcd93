//! Decimal text of unsigned numbers: writing it, and reading it back.
use vstd::prelude::*;
use vstd::string::StringSliceAdditionalSpecFns;

verus! {

/// The decimal digit `d`.
pub open spec fn digit_char(d: nat) -> char {
    (48 + d) as char
}

/// The decimal text of `n`, without leading zeros.
pub open spec fn decimal(n: nat) -> Seq<char>
    decreases n,
{
    if n < 10 {
        seq![digit_char(n)]
    } else {
        decimal(n / 10).push(digit_char(n % 10))
    }
}

/// Trusted: `String::push`, which its documentation says appends the char
/// to the end of the string.
#[verifier::external_body]
fn push_char(s: &mut String, c: char)
    ensures
        final(s)@ == old(s)@.push(c),
{
    s.push(c);
}

/// The decimal digit `d`.
fn digit(d: usize) -> (c: char)
    requires
        d < 10,
    ensures
        c == digit_char(d as nat),
{
    let b: u8 = 48u8 + (d as u8);
    b as char
}

/// Appends the decimal text of `n` to `s`.
pub fn push_decimal(s: &mut String, n: usize)
    ensures
        final(s)@ == old(s)@ + decimal(n as nat),
    decreases n,
{
    if n >= 10 {
        push_decimal(s, n / 10);
    }
    push_char(s, digit(n % 10));
    assert(final(s)@ =~= old(s)@ + decimal(n as nat));
}

/// The byte is an ASCII decimal digit.
pub open spec fn is_digit(b: u8) -> bool {
    48 <= b <= 57
}

/// The value of the decimal digits `s`, most significant first; zero for
/// no digits.
pub open spec fn digits_value(s: Seq<u8>) -> int
    decreases s.len(),
{
    if s.len() == 0 {
        0
    } else {
        digits_value(s.drop_last()) * 10 + (s.last() - 48)
    }
}

/// Reads the decimal number `text`: every byte must be a digit, and the
/// value must fit in a `u32`. Text without digits reads as zero.
pub fn parse_u32(text: &str) -> (res: Option<u32>)
    ensures
        res matches Some(n) ==> (forall|i: int| 0 <= i < text.spec_bytes().len() ==> is_digit(#[trigger] text.spec_bytes()[i]))
            && n == digits_value(text.spec_bytes()),
        res is None ==> (exists|i: int| 0 <= i < text.spec_bytes().len() && !is_digit(#[trigger] text.spec_bytes()[i]))
            || digits_value(text.spec_bytes()) > u32::MAX,
{
    let bytes = text.as_bytes();
    let mut n: u32 = 0;
    let mut i: usize = 0;
    assert(bytes@.take(0) =~= Seq::<u8>::empty());
    while i < bytes.len()
        invariant
            bytes@ == text.spec_bytes(),
            i <= bytes@.len(),
            n == digits_value(bytes@.take(i as int)),
            forall|k: int| 0 <= k < i ==> is_digit(#[trigger] bytes@[k]),
        decreases bytes@.len() - i,
    {
        let c = bytes[i];
        if c < 48 || c > 57 {
            return None;
        }
        assert(bytes@.take(i + 1).drop_last() =~= bytes@.take(i as int));
        let d = (c - 48) as u32;
        if n > (u32::MAX - d) / 10 {
            proof { lemma_digits_value_grows(bytes@, i as int + 1); }
            return None;
        }
        n = n * 10 + d;
        i = i + 1;
    }
    assert(bytes@.take(bytes@.len() as int) =~= bytes@);
    Some(n)
}

/// Appending digits never makes the value smaller.
proof fn lemma_digits_value_monotone(s: Seq<u8>, k: int)
    requires
        0 <= k <= s.len(),
        forall|i: int| 0 <= i < s.len() ==> is_digit(#[trigger] s[i]),
    ensures
        digits_value(s.take(k)) <= digits_value(s),
    decreases s.len() - k,
{
    if k < s.len() {
        lemma_digits_value_monotone(s, k + 1);
        assert(s.take(k + 1).drop_last() =~= s.take(k));
        assert(digits_value(s.take(k)) >= 0) by {
            lemma_digits_value_nonnegative(s.take(k));
        }
    } else {
        assert(s.take(k) =~= s);
    }
}

/// The value of digits is not negative.
proof fn lemma_digits_value_nonnegative(s: Seq<u8>)
    requires
        forall|i: int| 0 <= i < s.len() ==> is_digit(#[trigger] s[i]),
    ensures
        digits_value(s) >= 0,
    decreases s.len(),
{
    if s.len() > 0 {
        lemma_digits_value_nonnegative(s.drop_last());
    }
}

/// A prefix whose value exceeds `u32::MAX` makes the whole value exceed it,
/// or some later byte is not a digit.
proof fn lemma_digits_value_grows(s: Seq<u8>, k: int)
    requires
        0 < k <= s.len(),
        forall|i: int| 0 <= i < k ==> is_digit(#[trigger] s[i]),
        digits_value(s.take(k)) > u32::MAX,
    ensures
        (exists|i: int| 0 <= i < s.len() && !is_digit(#[trigger] s[i])) || digits_value(s) > u32::MAX,
{
    if forall|i: int| 0 <= i < s.len() ==> is_digit(#[trigger] s[i]) {
        lemma_digits_value_monotone(s, k);
    }
}

/// The bytes of ASCII text.
pub open spec fn ascii_bytes(s: Seq<char>) -> Seq<u8> {
    s.map_values(|c: char| c as u8)
}

/// Reading back the decimal text of `n` gives `n`: the text is all digits,
/// its UTF-8 bytes are its characters, and their value is `n`.
pub proof fn lemma_decimal_reads_back(n: nat)
    ensures
        forall|i: int| 0 <= i < ascii_bytes(decimal(n)).len() ==> is_digit(#[trigger] ascii_bytes(decimal(n))[i]),
        digits_value(ascii_bytes(decimal(n))) == n,
        vstd::utf8::encode_utf8(decimal(n)) == ascii_bytes(decimal(n)),
    decreases n,
{
    let d = digit_char(n % 10);
    assert(d as u8 == 48 + n % 10);
    if n < 10 {
        assert(ascii_bytes(decimal(n)) =~= seq![(48 + n) as u8]);
        assert(ascii_bytes(decimal(n)).drop_last() =~= Seq::<u8>::empty());
        assert(ascii_bytes(decimal(n)).last() == d as u8);
        assert(digits_value(ascii_bytes(decimal(n)).drop_last()) == 0);
        assert(digits_value(ascii_bytes(decimal(n))) == n);
    } else {
        lemma_decimal_reads_back(n / 10);
        assert(ascii_bytes(decimal(n)) =~= ascii_bytes(decimal(n / 10)).push(d as u8));
        assert(ascii_bytes(decimal(n)).drop_last() =~= ascii_bytes(decimal(n / 10)));
        assert(ascii_bytes(decimal(n)).last() == d as u8);
        assert(digits_value(ascii_bytes(decimal(n))) == digits_value(ascii_bytes(decimal(n / 10))) * 10 + (n % 10));
        assert((n / 10) * 10 + n % 10 == n);
        assert(digits_value(ascii_bytes(decimal(n))) == n);
    }
    assert(vstd::utf8::is_ascii_chars(decimal(n))) by {
        lemma_decimal_is_ascii(n);
    }
    vstd::utf8::is_ascii_chars_encode_utf8(decimal(n));
    assert(vstd::utf8::encode_utf8(decimal(n)) =~= ascii_bytes(decimal(n)));
}

/// Decimal text is ASCII.
proof fn lemma_decimal_is_ascii(n: nat)
    ensures
        vstd::utf8::is_ascii_chars(decimal(n)),
    decreases n,
{
    if n >= 10 {
        lemma_decimal_is_ascii(n / 10);
    }
}

} // verus!
