//! ASCII decimal numbers, as the kernel's brightness values are written.
use vstd::prelude::*;

verus! {

/// Whether a byte is an ASCII digit.
pub open spec fn is_digit(b: u8) -> bool {
    0x30 <= b && b <= 0x39
}

/// The number of ASCII digits at the start of `s`.
pub open spec fn digit_run(s: Seq<u8>) -> nat
    decreases s.len(),
{
    if s.len() == 0 || !is_digit(s[0]) {
        0
    } else {
        1 + digit_run(s.subrange(1, s.len() as int))
    }
}

/// The value of a sequence of ASCII digits, read as a decimal number.
pub open spec fn digits_value(s: Seq<u8>) -> nat
    decreases s.len(),
{
    if s.len() == 0 {
        0
    } else {
        digits_value(s.drop_last()) * 10 + (s.last() - 0x30) as nat
    }
}

/// The value of the decimal number at the start of `s`.
pub open spec fn leading_value(s: Seq<u8>) -> nat {
    digits_value(s.take(digit_run(s) as int))
}

/// The shortest decimal writing of `n`, without sign or padding.
pub open spec fn decimal_digits(n: nat) -> Seq<u8>
    decreases n,
{
    if n < 10 {
        seq![(0x30 + n) as u8]
    } else {
        decimal_digits(n / 10).push((0x30 + n % 10) as u8)
    }
}

/// What a decimal text holds as a `u32`: the number that it starts with, if
/// it starts with one that fits.
pub open spec fn parsed_u32(s: Seq<u8>) -> Option<u32> {
    if digit_run(s) > 0 && leading_value(s) <= u32::MAX {
        Some(leading_value(s) as u32)
    } else {
        None
    }
}

/// Whether `s` is a level as a device writes it: a non-empty run of ASCII
/// digits, optionally followed by one newline, and nothing else.
pub open spec fn is_level_text(s: Seq<u8>) -> bool {
    &&& digit_run(s) > 0
    &&& (digit_run(s) == s.len() || (digit_run(s) + 1 == s.len() && s.last() == 0x0a))
}

/// The level that a device's text value holds: `None` when the text is not
/// level text or its number does not fit.
pub open spec fn level_of(s: Seq<u8>) -> Option<u32> {
    if is_level_text(s) {
        parsed_u32(s)
    } else {
        None
    }
}

/// Relies on `atoi::atoi::<u32>`: it reads the ASCII digits at the start of
/// the text and gives `None` when there are none or their value overflows.
/// A leading sign is read by it too, so for such a text nothing is stated.
#[verifier::external_body]
fn atoi_u32(text: &[u8]) -> (r: Option<u32>)
    ensures
        text@.len() == 0 || (text@[0] != 0x2b && text@[0] != 0x2d) ==> r == parsed_u32(text@),
{
    atoi::atoi::<u32>(text)
}

/// Relies on `itoa::Buffer::format`: the shortest decimal writing of the number.
#[verifier::external_body]
fn itoa_u32(n: u32) -> (r: Vec<u8>)
    ensures
        r@ == decimal_digits(n as nat),
{
    let mut buf = itoa::Buffer::new();
    buf.format(n).as_bytes().to_vec()
}

/// Reads a level from a device's text value: digits only, with at most one
/// trailing newline; any other content is malformed and gives `None`.
pub fn parse_level(text: &[u8]) -> (r: Option<u32>)
    ensures
        r == level_of(text@),
{
    let n = text.len();
    if n == 0 {
        return None;
    }
    let end: usize = if text[n - 1] == 0x0a { n - 1 } else { n };
    let mut i: usize = 0;
    while i < end
        invariant
            0 <= i <= end <= n,
            n == text@.len(),
            n > 0,
            (end == n && text@[n - 1] != 0x0a) || (end + 1 == n && text@[n - 1] == 0x0a),
            forall|j: int| 0 <= j < i ==> is_digit(#[trigger] text@[j]),
        decreases end - i,
    {
        if text[i] < 0x30 || text[i] > 0x39 {
            proof {
                lemma_digit_run_prefix(text@, i as nat);
                assert(text@.last() == text@[n - 1]);
            }
            return None;
        }
        i += 1;
    }
    proof {
        lemma_digit_run_prefix(text@, end as nat);
        assert(text@.last() == text@[n - 1]);
    }
    if end == 0 {
        return None;
    }
    proof {
        assert(is_digit(text@[0]));
    }
    atoi_u32(text)
}

/// Writes a level as a device expects it: the shortest decimal writing.
pub fn format_level(level: u32) -> (r: Vec<u8>)
    ensures
        r@ == decimal_digits(level as nat),
        parsed_u32(r@) == Some(level),
        level_of(r@) == Some(level),
{
    let r = itoa_u32(level);
    proof {
        lemma_decimal_round_trip(level as nat);
    }
    r
}

proof fn lemma_decimal_all_digits(n: nat)
    ensures
        decimal_digits(n).len() > 0,
        forall|i: int| 0 <= i < decimal_digits(n).len() ==> is_digit(#[trigger] decimal_digits(n)[i]),
        digits_value(decimal_digits(n)) == n,
    decreases n,
{
    if n >= 10 {
        lemma_decimal_all_digits(n / 10);
        let s = decimal_digits(n);
        assert(s.drop_last() =~= decimal_digits(n / 10));
        assert(s.last() == (0x30 + n % 10) as u8);
        assert(s.last() - 0x30 == n % 10);
        assert(digits_value(s) == digits_value(s.drop_last()) * 10 + (s.last() - 0x30) as nat);
        assert((n / 10) * 10 + n % 10 == n) by (nonlinear_arith);
    } else {
        let s = decimal_digits(n);
        assert(s.drop_last() =~= Seq::<u8>::empty());
        assert(s.last() - 0x30 == n);
        assert(digits_value(s) == digits_value(s.drop_last()) * 10 + (s.last() - 0x30) as nat);
    }
}

proof fn lemma_digit_run_full(s: Seq<u8>)
    requires
        forall|i: int| 0 <= i < s.len() ==> is_digit(#[trigger] s[i]),
    ensures
        digit_run(s) == s.len(),
    decreases s.len(),
{
    if s.len() > 0 {
        let t = s.subrange(1, s.len() as int);
        assert forall|i: int| 0 <= i < t.len() implies is_digit(#[trigger] t[i]) by {
            assert(t[i] == s[i + 1]);
        }
        lemma_digit_run_full(t);
    }
}

proof fn lemma_digit_run_prefix(s: Seq<u8>, k: nat)
    requires
        k <= s.len(),
        forall|i: int| 0 <= i < k ==> is_digit(#[trigger] s[i]),
        k < s.len() ==> !is_digit(s[k as int]),
    ensures
        digit_run(s) == k,
    decreases k,
{
    if k > 0 {
        let t = s.subrange(1, s.len() as int);
        assert forall|i: int| 0 <= i < k - 1 implies is_digit(#[trigger] t[i]) by {
            assert(t[i] == s[i + 1]);
        }
        if k - 1 < t.len() {
            assert(t[k - 1] == s[k as int]);
        }
        lemma_digit_run_prefix(t, (k - 1) as nat);
    }
}

/// Reading back the decimal writing of a number gives the number: a level
/// written to a device is the level read from it afterwards.
pub proof fn lemma_decimal_round_trip(n: nat)
    ensures
        digit_run(decimal_digits(n)) == decimal_digits(n).len(),
        leading_value(decimal_digits(n)) == n,
        n <= u32::MAX ==> parsed_u32(decimal_digits(n)) == Some(n as u32),
        is_level_text(decimal_digits(n)),
{
    lemma_decimal_all_digits(n);
    lemma_digit_run_full(decimal_digits(n));
    assert(decimal_digits(n).take(decimal_digits(n).len() as int) =~= decimal_digits(n));
}

} // verus!
