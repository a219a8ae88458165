//! Building the ASCII text that is hashed and signed: decimal numerals and
//! lower-case hexadecimal.
use vstd::prelude::*;

verus! {

/// The character that stands for the decimal digit `d`.
pub open spec fn decimal_digit(d: nat) -> char
    recommends
        d < 10,
{
    ((48 + d) as u8) as char
}

/// The decimal numeral of `n`, without sign or leading zeros.
pub open spec fn decimal(n: nat) -> Seq<char>
    decreases n,
{
    if n < 10 {
        seq![decimal_digit(n)]
    } else {
        decimal(n / 10).push(decimal_digit(n % 10))
    }
}

/// The character that stands for the hexadecimal digit `d`, in lower case.
pub open spec fn hex_digit(d: nat) -> char
    recommends
        d < 16,
{
    if d < 10 {
        ((48 + d) as u8) as char
    } else {
        ((87 + d) as u8) as char
    }
}

/// Two lower-case hexadecimal digits for each byte, most significant first.
pub open spec fn hex_lower(bytes: Seq<u8>) -> Seq<char> {
    Seq::new(
        2 * bytes.len(),
        |i: int|
            if i % 2 == 0 {
                hex_digit((bytes[i / 2] / 16) as nat)
            } else {
                hex_digit((bytes[i / 2] % 16) as nat)
            },
    )
}

/// Whether `c` is one of the ten decimal digits.
pub open spec fn is_decimal_digit(c: char) -> bool {
    '0' <= c && c <= '9'
}

/// A decimal numeral is not empty and holds nothing but digits.
pub proof fn lemma_decimal_is_digits(n: nat)
    ensures
        decimal(n).len() >= 1,
        forall|i: int| 0 <= i < decimal(n).len() ==> is_decimal_digit(#[trigger] decimal(n)[i]),
    decreases n,
{
    if n >= 10 {
        lemma_decimal_is_digits(n / 10);
    }
}

/// Different digits are written with different characters.
proof fn lemma_digit_is_injective(c: nat, d: nat)
    requires
        c < 10,
        d < 10,
        decimal_digit(c) == decimal_digit(d),
    ensures
        c == d,
{
    assert(decimal_digit(c) as u32 == 48 + c);
    assert(decimal_digit(d) as u32 == 48 + d);
}

/// Different numbers have different decimal numerals.
pub proof fn lemma_decimal_is_injective(a: nat, b: nat)
    requires
        decimal(a) == decimal(b),
    ensures
        a == b,
    decreases a,
{
    lemma_decimal_is_digits(a / 10);
    lemma_decimal_is_digits(b / 10);
    if a < 10 && b < 10 {
        assert(decimal(a)[0] == decimal_digit(a));
        assert(decimal(b)[0] == decimal_digit(b));
        lemma_digit_is_injective(a, b);
    } else if a >= 10 && b >= 10 {
        assert(decimal(a / 10) =~= decimal(a).drop_last());
        assert(decimal(b / 10) =~= decimal(b).drop_last());
        lemma_decimal_is_injective(a / 10, b / 10);
        assert(decimal(a).last() == decimal_digit(a % 10));
        assert(decimal(b).last() == decimal_digit(b % 10));
        lemma_digit_is_injective(a % 10, b % 10);
    } else if a < 10 {
        assert(decimal(a).len() == 1);
        assert(decimal(b).len() == decimal(b / 10).len() + 1);
    } else {
        assert(decimal(b).len() == 1);
        assert(decimal(a).len() == decimal(a / 10).len() + 1);
    }
}

/// Where two texts are each made of a digit run, a separator that is no
/// digit, and a rest, and the two texts are equal, the digit runs are equal
/// and the rests are equal.
pub proof fn lemma_digit_runs_split_alike(
    run1: Seq<char>,
    rest1: Seq<char>,
    run2: Seq<char>,
    rest2: Seq<char>,
    separator: char,
)
    requires
        !is_decimal_digit(separator),
        forall|i: int| 0 <= i < run1.len() ==> is_decimal_digit(#[trigger] run1[i]),
        forall|i: int| 0 <= i < run2.len() ==> is_decimal_digit(#[trigger] run2[i]),
        run1 + seq![separator] + rest1 == run2 + seq![separator] + rest2,
    ensures
        run1 == run2,
        rest1 == rest2,
{
    let left = run1 + seq![separator] + rest1;
    let right = run2 + seq![separator] + rest2;
    if run1.len() < run2.len() {
        assert(left[run1.len() as int] == separator);
        assert(right[run1.len() as int] == run2[run1.len() as int]);
    } else if run2.len() < run1.len() {
        assert(right[run2.len() as int] == separator);
        assert(left[run2.len() as int] == run1[run2.len() as int]);
    } else {
        assert(run1 =~= left.take(run1.len() as int));
        assert(run2 =~= right.take(run1.len() as int));
        assert(rest1 =~= left.skip(run1.len() as int + 1));
        assert(rest2 =~= right.skip(run1.len() as int + 1));
    }
}

/// `String::push`: appends one character to the end of the string.
#[verifier::external_body]
pub(crate) fn push_char(s: &mut String, c: char)
    ensures
        final(s)@ == old(s)@.push(c),
{
    s.push(c)
}

fn digit_char(d: u8) -> (c: char)
    requires
        d < 16,
    ensures
        c == hex_digit(d as nat),
        d < 10 ==> c == decimal_digit(d as nat),
{
    if d < 10 {
        (48 + d) as char
    } else {
        (87 + d) as char
    }
}

/// Appends the decimal numeral of `n` to `out`.
pub fn push_decimal(out: &mut String, n: u64)
    ensures
        final(out)@ == old(out)@ + decimal(n as nat),
    decreases n,
{
    if n >= 10 {
        push_decimal(out, n / 10);
    }
    push_char(out, digit_char((n % 10) as u8));
}

/// Renders `bytes` as lower-case hexadecimal text.
pub fn to_hex(bytes: &[u8]) -> (out: String)
    ensures
        out@ == hex_lower(bytes@),
{
    let mut out = String::new();
    let mut i: usize = 0;
    while i < bytes.len()
        invariant
            i <= bytes.len(),
            out@ == hex_lower(bytes@.take(i as int)),
        decreases bytes.len() - i,
    {
        let b = bytes[i];
        push_char(&mut out, digit_char(b / 16));
        push_char(&mut out, digit_char(b % 16));
        i += 1;
        assert(out@ =~= hex_lower(bytes@.take(i as int)));
    }
    assert(bytes@.take(i as int) =~= bytes@);
    out
}

} // verus!
