use crate::error::Error;
use vstd::prelude::*;
use vstd::string::*;

verus! {

/// The code of the character `0`.
pub(crate) const DIGIT_ZERO: u8 = 48;

/// The code of the character `9`.
pub(crate) const DIGIT_NINE: u8 = 57;

/// `c` is one of the ten decimal digits `0` to `9`.
pub open spec fn is_digit(c: char) -> bool {
    '0' <= c <= '9'
}

/// The number that the decimal digit `c` stands for.
pub open spec fn digit_value(c: char) -> int {
    c as int - 48
}

/// Every character of `s` is a decimal digit.
pub open spec fn all_digits(s: Seq<char>) -> bool {
    forall|i: int| 0 <= i < s.len() ==> is_digit(#[trigger] s[i])
}

/// The number that a run of decimal digits denotes, most significant digit
/// first; the empty run denotes zero.
pub open spec fn digits_value(s: Seq<char>) -> int
    decreases s.len(),
{
    if s.len() == 0 {
        0
    } else {
        digits_value(s.drop_last()) * 10 + digit_value(s.last())
    }
}

/// What converting a digit run to a signed 64-bit integer gives: zero for the
/// empty run, `ParseInt` where a character is no decimal digit, `OutOfRange`
/// where the number exceeds `i64::MAX`, and the number otherwise.
pub open spec fn mk_int_spec(s: Seq<char>) -> Result<i64, Error> {
    if s.len() == 0 {
        Ok(0)
    } else if !all_digits(s) {
        Err(Error::ParseInt)
    } else if digits_value(s) > i64::MAX {
        Err(Error::OutOfRange)
    } else {
        Ok(digits_value(s) as i64)
    }
}

/// A digit run denotes a number that is not negative.
pub proof fn lemma_digits_value_nonnegative(s: Seq<char>)
    requires
        all_digits(s),
    ensures
        digits_value(s) >= 0,
    decreases s.len(),
{
    if s.len() > 0 {
        lemma_digits_value_nonnegative(s.drop_last());
    }
}

/// A digit run denotes at least as much as each of its prefixes.
pub proof fn lemma_digits_value_prefix(s: Seq<char>, k: int)
    requires
        all_digits(s),
        0 <= k <= s.len(),
    ensures
        digits_value(s.subrange(0, k)) <= digits_value(s),
    decreases s.len() - k,
{
    if k == s.len() {
        assert(s.subrange(0, k) =~= s);
    } else {
        lemma_digits_value_prefix(s, k + 1);
        let t = s.subrange(0, k + 1);
        assert(t.drop_last() =~= s.subrange(0, k));
        lemma_digits_value_nonnegative(t.drop_last());
    }
}

/// Ten to the power `n`.
pub open spec fn pow10(n: nat) -> nat
    decreases n,
{
    if n == 0 {
        1
    } else {
        10 * pow10((n - 1) as nat)
    }
}

/// A digit run that does not start with `0` denotes at least ten to the
/// power of its length less one.
pub proof fn lemma_digits_value_lower_bound(s: Seq<char>)
    requires
        all_digits(s),
        s.len() >= 1,
        s[0] != '0',
    ensures
        digits_value(s) >= pow10((s.len() - 1) as nat),
    decreases s.len(),
{
    assert(is_digit(s[0]));
    if s.len() == 1 {
        reveal_with_fuel(digits_value, 2);
        assert(s.drop_last().len() == 0);
    } else {
        let head = s.drop_last();
        assert(head[0] == s[0]);
        lemma_digits_value_lower_bound(head);
        assert(is_digit(s.last()));
    }
}

/// Ten to a power of 17 or more is at least 100000000000000000.
pub proof fn lemma_pow10_from_17(n: nat)
    requires
        n >= 17,
    ensures
        pow10(n) >= 100_000_000_000_000_000,
    decreases n,
{
    if n == 17 {
        reveal_with_fuel(pow10, 18);
    } else {
        lemma_pow10_from_17((n - 1) as nat);
    }
}

/// A sequence that is not all ASCII holds a character outside the ASCII
/// range.
pub proof fn lemma_non_ascii_witness(s: Seq<char>) -> (i: int)
    requires
        !vstd::utf8::is_ascii_chars(s),
    ensures
        0 <= i < s.len(),
        !('\0' <= s[i] <= '\u{7f}'),
{
    choose|i: int| 0 <= i < s.len() && !('\0' <= #[trigger] s[i] <= '\u{7f}')
}

/// The bytes of an ASCII string: one byte for each character, holding its
/// code.
pub(crate) fn ascii_bytes(s: &str) -> (b: &[u8])
    requires
        s.is_ascii(),
    ensures
        b@.len() == s@.len(),
        forall|i: int| 0 <= i < b@.len() ==> #[trigger] b@[i] as char == s@[i],
{
    broadcast use is_ascii_spec_bytes;

    let b = s.as_bytes();
    assert(b@ == s.spec_bytes());
    assert forall|i: int| 0 <= i < b@.len() implies #[trigger] b@[i] as char == s@[i] by {
        assert(s@[i] as u8 == b@[i]);
        assert('\0' <= s@[i] <= '\u{7f}');
    }
    b
}

/// Converts a digit run to a signed 64-bit integer.
pub fn mk_int(s: &str) -> (r: Result<i64, Error>)
    ensures
        r == mk_int_spec(s@),
{
    if s.is_empty() {
        return Ok(0);
    }
    if !s.is_ascii() {
        proof {
            let i = lemma_non_ascii_witness(s@);
            assert(!is_digit(s@[i]));
        }
        return Err(Error::ParseInt);
    }
    let b = ascii_bytes(s);
    let n = b.len();
    let mut i: usize = 0;
    while i < n
        invariant
            n == s@.len(),
            n == b@.len(),
            forall|j: int| 0 <= j < b@.len() ==> #[trigger] b@[j] as char == s@[j],
            0 <= i <= n,
            all_digits(s@.subrange(0, i as int)),
        decreases n - i,
    {
        let c = b[i];
        assert(c as char == s@[i as int]);
        if c < DIGIT_ZERO || c > DIGIT_NINE {
            assert(!is_digit(s@[i as int]));
            return Err(Error::ParseInt);
        }
        proof {
            let p = s@.subrange(0, i as int + 1);
            assert forall|j: int| 0 <= j < p.len() implies is_digit(#[trigger] p[j]) by {
                if j < i {
                    assert(p[j] == s@.subrange(0, i as int)[j]);
                }
            }
        }
        i += 1;
    }
    assert(s@.subrange(0, n as int) =~= s@);
    let mut acc: i64 = 0;
    let mut k: usize = 0;
    while k < n
        invariant
            n == s@.len(),
            n == b@.len(),
            forall|j: int| 0 <= j < b@.len() ==> #[trigger] b@[j] as char == s@[j],
            0 <= k <= n,
            all_digits(s@),
            0 <= acc,
            acc == digits_value(s@.subrange(0, k as int)),
        decreases n - k,
    {
        let c = b[k];
        assert(c as char == s@[k as int]);
        assert(is_digit(s@[k as int]));
        let d: i64 = (c - DIGIT_ZERO) as i64;
        proof {
            let t = s@.subrange(0, k as int + 1);
            assert(t.drop_last() =~= s@.subrange(0, k as int));
            assert(t.last() == s@[k as int]);
            assert(digits_value(t) == acc * 10 + d);
            lemma_digits_value_prefix(s@, k as int + 1);
        }
        if acc > (i64::MAX - d) / 10 {
            return Err(Error::OutOfRange);
        }
        acc = acc * 10 + d;
        k += 1;
    }
    assert(s@.subrange(0, n as int) =~= s@);
    Ok(acc)
}

} // verus!

