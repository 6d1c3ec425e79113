use crate::digits::{
    all_digits, ascii_bytes, digits_value, is_digit, lemma_digits_value_lower_bound,
    lemma_digits_value_nonnegative, lemma_pow10_from_17, mk_int, mk_int_spec, DIGIT_NINE,
    DIGIT_ZERO,
};
use crate::error::Error;
use crate::money::Money;
use vstd::prelude::*;
use vstd::string::*;

verus! {

/// What rounding a fractional digit run of three or more digits gives: the
/// number of its first two digits, one more where the third digit is five or
/// above. Digits beyond the third play no part.
pub open spec fn round_cents_spec(s: Seq<char>) -> Result<i64, Error>
    recommends
        s.len() >= 3,
{
    match mk_int_spec(s.subrange(0, 2)) {
        Err(e) => Err(e),
        Ok(i1) => match mk_int_spec(s.subrange(2, 3)) {
            Err(e) => Err(e),
            Ok(i2) => Ok(
                if i2 >= 5 {
                    (i1 + 1) as i64
                } else {
                    i1
                },
            ),
        },
    }
}

/// The hundredths that a fractional digit run stands for: a run of up to two
/// digits is read as the number it spells, a longer one is rounded on its
/// third digit.
pub open spec fn mk_rounded_cents_spec(s: Seq<char>) -> Result<i64, Error> {
    if s.len() > 2 {
        round_cents_spec(s)
    } else {
        mk_int_spec(s)
    }
}

/// A run of at most two digits denotes at most 99.
pub proof fn lemma_two_digits_bound(s: Seq<char>)
    requires
        s.len() <= 2,
        all_digits(s),
    ensures
        0 <= digits_value(s) <= 99,
{
    reveal_with_fuel(digits_value, 3);
    if s.len() == 2 {
        assert(is_digit(s[0]) && is_digit(s[1]));
        assert(s.drop_last().last() == s[0]);
    } else if s.len() == 1 {
        assert(is_digit(s[0]));
    }
}

/// Whatever the digit run, the hundredths it stands for lie between 0 and
/// 100.
pub proof fn lemma_rounded_cents_bound(s: Seq<char>)
    ensures
        mk_rounded_cents_spec(s) matches Ok(c) ==> 0 <= c <= 100,
{
    if s.len() > 2 {
        let a = s.subrange(0, 2);
        let b = s.subrange(2, 3);
        if all_digits(a) {
            lemma_two_digits_bound(a);
        }
        if all_digits(b) {
            lemma_two_digits_bound(b);
        }
    } else if all_digits(s) {
        lemma_two_digits_bound(s);
    }
}

/// A run of digits always stands for some hundredths.
pub proof fn lemma_rounded_cents_of_digits(s: Seq<char>)
    requires
        all_digits(s),
    ensures
        mk_rounded_cents_spec(s) is Ok,
{
    if s.len() > 2 {
        let a = s.subrange(0, 2);
        let b = s.subrange(2, 3);
        assert forall|i: int| 0 <= i < a.len() implies is_digit(#[trigger] a[i]) by {
            assert(is_digit(s[i]));
        }
        assert forall|i: int| 0 <= i < b.len() implies is_digit(#[trigger] b[i]) by {
            assert(is_digit(s[i + 2]));
        }
        lemma_two_digits_bound(a);
        lemma_two_digits_bound(b);
    } else {
        lemma_two_digits_bound(s);
    }
}

/// Rounds a fractional digit run of three or more digits to hundredths.
pub fn round_cents(s: &String) -> (r: Result<i64, Error>)
    requires
        s@.len() >= 3,
    ensures
        r == round_cents_spec(s@),
{
    let s1 = s.as_str().substring_char(0, 2);
    let s2 = s.as_str().substring_char(2, 3);
    let i1 = match mk_int(s1) {
        Ok(v) => v,
        Err(e) => {
            return Err(e);
        },
    };
    let i2 = match mk_int(s2) {
        Ok(v) => v,
        Err(e) => {
            return Err(e);
        },
    };
    proof {
        lemma_two_digits_bound(s1@);
    }
    if i2 >= 5 {
        Ok(i1 + 1)
    } else {
        Ok(i1)
    }
}

/// The hundredths that a fractional digit run stands for.
pub fn mk_rounded_cents(s: &String) -> (r: Result<i64, Error>)
    ensures
        r == mk_rounded_cents_spec(s@),
{
    if s.as_str().unicode_len() > 2 {
        round_cents(s)
    } else {
        mk_int(s.as_str())
    }
}

/// Whether an amount is written as owed or as held.
#[derive(Clone, Copy, Debug, PartialEq, Eq, Hash, Structural)]
pub enum AmountKind {
    Negative,
    Positive,
}

/// The text starts with a minus sign.
pub open spec fn has_minus(s: Seq<char>) -> bool {
    s.len() >= 1 && s[0] == '-'
}

/// The whole text stands between one pair of parentheses.
pub open spec fn has_parens(s: Seq<char>) -> bool {
    s.len() >= 2 && s[0] == '(' && s[s.len() - 1] == ')'
}

/// The sign that the notation of `s` gives: negative behind a leading minus
/// and inside full parentheses, positive otherwise.
pub open spec fn sign_of(s: Seq<char>) -> AmountKind {
    if has_minus(s) || has_parens(s) {
        AmountKind::Negative
    } else {
        AmountKind::Positive
    }
}

/// What is left of `s` once its sign marker is taken off.
pub open spec fn unsigned_body(s: Seq<char>) -> Seq<char> {
    if has_minus(s) {
        s.subrange(1, s.len() as int)
    } else if has_parens(s) {
        s.subrange(1, s.len() - 1)
    } else {
        s
    }
}

/// `c` may stand in the whole part: a decimal digit or a grouping comma.
pub open spec fn is_whole_char(c: char) -> bool {
    is_digit(c) || c == ','
}

/// The length of the currency symbol at the head of a body: 1 where it
/// starts with `$`, else 0.
pub open spec fn symbol_len(b: Seq<char>) -> int {
    if b.len() > 0 && b[0] == '$' {
        1
    } else {
        0
    }
}

/// The first index at or after `from` whose character is neither a digit nor a
/// comma, or the length of `b` where there is none.
pub open spec fn whole_end(b: Seq<char>, from: int) -> int
    decreases b.len() - from,
{
    if from < 0 || from >= b.len() || !is_whole_char(b[from]) {
        from
    } else {
        whole_end(b, from + 1)
    }
}

/// The whole part of a body: the longest run of digits and commas behind
/// the currency symbol.
pub open spec fn whole_part(b: Seq<char>) -> Seq<char> {
    b.subrange(symbol_len(b), whole_end(b, symbol_len(b)))
}

/// Where the fractional part of a body starts: behind the whole part and
/// the decimal point, if one follows it.
pub open spec fn fraction_start(b: Seq<char>) -> int {
    let e = whole_end(b, symbol_len(b));
    if e < b.len() && b[e] == '.' {
        e + 1
    } else {
        e
    }
}

/// The fractional part of a body: all that follows the whole part and the
/// decimal point.
pub open spec fn fraction_part(b: Seq<char>) -> Seq<char> {
    b.subrange(fraction_start(b), b.len() as int)
}

/// A body has the shape of an amount: an optional `$`, digits and commas,
/// an optional `.`, and digits up to the end.
pub open spec fn body_is_valid(b: Seq<char>) -> bool {
    all_digits(fraction_part(b))
}

/// The whole part of a body with its grouping commas removed.
pub open spec fn body_dollars(b: Seq<char>) -> Seq<char> {
    whole_part(b).filter(|c: char| c != ',')
}

/// The fractional digits of a body, as written.
pub open spec fn body_cents(b: Seq<char>) -> Seq<char> {
    fraction_part(b)
}

/// The hundredths that a sign, a whole digit run and a fractional digit run
/// make together: the whole part times 100 plus the rounded hundredths,
/// negated for a negative amount, or `OutOfRange` where that number does not
/// fit the signed 64-bit range. A digit run that cannot be converted gives
/// its own error, the whole part's first.
pub open spec fn combine_spec(kind: AmountKind, dollars: Seq<char>, cents: Seq<char>) -> Result<
    i64,
    Error,
> {
    match mk_int_spec(dollars) {
        Err(e) => Err(e),
        Ok(d) => match mk_rounded_cents_spec(cents) {
            Err(e) => Err(e),
            Ok(c) => {
                let magnitude = d * 100 + c;
                let total = if kind == AmountKind::Negative {
                    -magnitude
                } else {
                    magnitude
                };
                if i64::MIN <= total <= i64::MAX {
                    Ok(total as i64)
                } else {
                    Err(Error::OutOfRange)
                }
            },
        },
    }
}

/// The count of hundredths that a text denotes, or why it denotes none:
/// `InvalidString` where the text without its sign marker has not the shape
/// of an amount, else what its sign and its two digit runs make together.
pub open spec fn parse_spec(s: Seq<char>) -> Result<int, Error> {
    let b = unsigned_body(s);
    if !body_is_valid(b) {
        Err(Error::InvalidString)
    } else {
        match combine_spec(sign_of(s), body_dollars(b), body_cents(b)) {
            Ok(total) => Ok(total as int),
            Err(e) => Err(e),
        }
    }
}

/// What a parsing result holds: the count of hundredths of the amount, or
/// the error.
pub open spec fn result_view(r: Result<Money, Error>) -> Result<int, Error> {
    match r {
        Ok(m) => Ok(m@),
        Err(e) => Err(e),
    }
}

/// The whole part ends inside the body, at or behind where it starts, and
/// holds digits and commas only; the character behind it, if any, is neither.
pub proof fn lemma_whole_end(b: Seq<char>, from: int)
    requires
        0 <= from <= b.len(),
    ensures
        from <= whole_end(b, from) <= b.len(),
        forall|i: int| from <= i < whole_end(b, from) ==> is_whole_char(#[trigger] b[i]),
        whole_end(b, from) < b.len() ==> !is_whole_char(b[whole_end(b, from)]),
    decreases b.len() - from,
{
    if from < b.len() && is_whole_char(b[from]) {
        lemma_whole_end(b, from + 1);
    }
}

/// Scanning on from inside a run of digits and commas reaches the same end.
pub proof fn lemma_whole_end_step(b: Seq<char>, from: int, i: int)
    requires
        0 <= from <= i <= b.len(),
        forall|j: int| from <= j < i ==> is_whole_char(#[trigger] b[j]),
    ensures
        whole_end(b, from) == whole_end(b, i),
    decreases i - from,
{
    if from < i {
        assert(is_whole_char(b[from]));
        lemma_whole_end_step(b, from + 1, i);
    }
}

/// `c` may stand in a body: a digit, a comma, the currency symbol or the
/// decimal point.
pub open spec fn is_body_char(c: char) -> bool {
    is_digit(c) || c == ',' || c == '$' || c == '.'
}

/// A body that has the shape of an amount holds nothing but digits, commas,
/// the currency symbol and the decimal point.
pub proof fn lemma_valid_body_chars(b: Seq<char>)
    requires
        body_is_valid(b),
    ensures
        forall|i: int| 0 <= i < b.len() ==> is_body_char(#[trigger] b[i]),
{
    let st = symbol_len(b);
    let e = whole_end(b, st);
    let fs = fraction_start(b);
    lemma_whole_end(b, st);
    assert forall|i: int| 0 <= i < b.len() implies is_body_char(#[trigger] b[i]) by {
        if i < st {
            assert(b[i] == '$');
        } else if i < e {
            assert(is_whole_char(b[i]));
        } else if i < fs {
            assert(b[i] == '.');
        } else {
            assert(is_digit(fraction_part(b)[i - fs]));
        }
    }
}

/// A body that has the shape of an amount holds ASCII characters only.
pub proof fn lemma_valid_body_is_ascii(b: Seq<char>)
    requires
        body_is_valid(b),
    ensures
        vstd::utf8::is_ascii_chars(b),
{
    lemma_valid_body_chars(b);
    assert forall|i: int| 0 <= i < b.len() implies '\0' <= #[trigger] b[i] <= '\u{7f}' by {
        assert(is_body_char(b[i]));
    }
}

/// A run of digits and commas holds digits only once its commas are removed.
pub proof fn lemma_without_commas_all_digits(w: Seq<char>)
    requires
        forall|i: int| 0 <= i < w.len() ==> is_whole_char(#[trigger] w[i]),
    ensures
        all_digits(w.filter(|c: char| c != ',')),
    decreases w.len(),
{
    reveal(Seq::filter);
    if w.len() > 0 {
        let head = w.drop_last();
        assert forall|i: int| 0 <= i < head.len() implies is_whole_char(#[trigger] head[i]) by {
            assert(head[i] == w[i]);
        }
        lemma_without_commas_all_digits(head);
        assert(is_whole_char(w.last()));
    }
}

/// The two digit runs of a body that has the shape of an amount hold digits
/// only.
pub proof fn lemma_valid_body_digit_runs(b: Seq<char>)
    requires
        body_is_valid(b),
    ensures
        all_digits(body_dollars(b)),
        all_digits(body_cents(b)),
{
    lemma_whole_end(b, symbol_len(b));
    let w = whole_part(b);
    assert forall|i: int| 0 <= i < w.len() implies is_whole_char(#[trigger] w[i]) by {
        assert(w[i] == b[i + symbol_len(b)]);
    }
    lemma_without_commas_all_digits(w);
}

/// Parsing fails in two ways only: on a text that has not the shape of an
/// amount, and on an amount beyond the signed 64-bit range. No digit run that
/// the shape admits fails to convert for another reason.
pub proof fn lemma_parse_errors(s: Seq<char>)
    ensures
        parse_spec(s) matches Err(e) ==> e == Error::InvalidString || e == Error::OutOfRange,
{
    let b = unsigned_body(s);
    if body_is_valid(b) {
        lemma_valid_body_digit_runs(b);
        lemma_rounded_cents_of_digits(body_cents(b));
    }
}

/// A whole part of 18 or more digits that does not start with `0` is beyond
/// the range, whatever the sign and the fractional digits.
pub proof fn lemma_long_whole_part_out_of_range(s: Seq<char>)
    requires
        body_is_valid(unsigned_body(s)),
        body_dollars(unsigned_body(s)).len() >= 18,
        body_dollars(unsigned_body(s))[0] != '0',
    ensures
        parse_spec(s) == Err::<int, Error>(Error::OutOfRange),
{
    let b = unsigned_body(s);
    let dollars = body_dollars(b);
    lemma_valid_body_digit_runs(b);
    lemma_digits_value_lower_bound(dollars);
    lemma_pow10_from_17((dollars.len() - 1) as nat);
    lemma_rounded_cents_of_digits(body_cents(b));
    lemma_rounded_cents_bound(body_cents(b));
}

/// The two sign notations do not combine: a text that has a leading minus in
/// front of parentheses, or a leading minus inside them, denotes no amount.
pub proof fn lemma_mixed_signs_rejected(s: Seq<char>)
    requires
        has_minus(s) && has_parens(unsigned_body(s)) || has_parens(s) && has_minus(
            unsigned_body(s),
        ),
    ensures
        parse_spec(s) == Err::<int, Error>(Error::InvalidString),
{
    let b = unsigned_body(s);
    if body_is_valid(b) {
        lemma_valid_body_chars(b);
        assert(is_body_char(b[0]));
    }
}

/// What parsing has read of a text: its sign, the digits of the whole part
/// with grouping commas removed, and the fractional digits as written.
#[derive(Debug, PartialEq, Eq, Hash)]
pub(crate) struct Amount {
    kind: AmountKind,
    dollars: String,
    cents: String,
}

const DOLLAR: u8 = 36;

const LEFT_PAREN: char = '(';

const RIGHT_PAREN: char = ')';

const COMMA: u8 = 44;

const MINUS: char = '-';

const POINT: u8 = 46;

impl Amount {
    /// The sign that was read.
    pub(crate) closed spec fn spec_kind(&self) -> AmountKind {
        self.kind
    }

    /// The digits of the whole part.
    pub(crate) closed spec fn spec_dollars(&self) -> Seq<char> {
        self.dollars@
    }

    /// The digits of the fractional part.
    pub(crate) closed spec fn spec_cents(&self) -> Seq<char> {
        self.cents@
    }

    /// Takes an unsigned body apart into its whole and fractional digits, and
    /// keeps the sign given with it.
    pub(crate) fn new(kind: AmountKind, inner: &str) -> (r: Result<Amount, Error>)
        ensures
            match r {
                Ok(a) => {
                    &&& body_is_valid(inner@)
                    &&& a.spec_kind() == kind
                    &&& a.spec_dollars() == body_dollars(inner@)
                    &&& a.spec_cents() == body_cents(inner@)
                },
                Err(e) => e == Error::InvalidString && !body_is_valid(inner@),
            },
    {
        if !inner.is_ascii() {
            proof {
                if body_is_valid(inner@) {
                    lemma_valid_body_is_ascii(inner@);
                }
            }
            return Err(Error::InvalidString);
        }
        let b = ascii_bytes(inner);
        let n = b.len();
        let start: usize = if n > 0 && b[0] == DOLLAR {
            1
        } else {
            0
        };
        assert(start == symbol_len(inner@)) by {
            if n > 0 {
                assert(b@[0] as char == inner@[0]);
            }
        }
        let mut dollars = String::new();
        let mut i: usize = start;
        let ghost keep = |c: char| c != ',';
        loop
            invariant
                inner.is_ascii(),
                n == inner@.len(),
                n == b@.len(),
                forall|j: int| 0 <= j < b@.len() ==> #[trigger] b@[j] as char == inner@[j],
                start <= i <= n,
                keep == |c: char| c != ',',
                forall|j: int| start <= j < i ==> is_whole_char(#[trigger] inner@[j]),
                dollars@ == inner@.subrange(start as int, i as int).filter(keep),
            ensures
                start <= i <= n,
                forall|j: int| start <= j < i ==> is_whole_char(#[trigger] inner@[j]),
                i < n ==> !is_whole_char(inner@[i as int]),
                dollars@ == inner@.subrange(start as int, i as int).filter(keep),
            decreases n - i,
        {
            if i >= n {
                break ;
            }
            let c = b[i];
            assert(c as char == inner@[i as int]);
            if !(c == COMMA || (DIGIT_ZERO <= c && c <= DIGIT_NINE)) {
                break ;
            }
            proof {
                let before = inner@.subrange(start as int, i as int);
                let after = inner@.subrange(start as int, i as int + 1);
                assert(after.drop_last() =~= before);
                assert(after.last() == inner@[i as int]);
                reveal(Seq::filter);
                assert(after.filter(keep) == if keep(after.last()) {
                    before.filter(keep).push(after.last())
                } else {
                    before.filter(keep)
                });
            }
            if c != COMMA {
                let piece = inner.substring_ascii(i, i + 1);
                assert(piece@ =~= seq![inner@[i as int]]);
                dollars.append(piece);
                assert(dollars@ =~= inner@.subrange(start as int, i as int).filter(keep).push(
                    inner@[i as int],
                ));
            }
            i += 1;
        }
        proof {
            lemma_whole_end_step(inner@, start as int, i as int);
            assert(whole_end(inner@, i as int) == i);
        }
        let frac_start: usize = if i < n && b[i] == POINT {
            i + 1
        } else {
            i
        };
        assert(frac_start == fraction_start(inner@)) by {
            if i < n {
                assert(b@[i as int] as char == inner@[i as int]);
            }
        }
        let mut j: usize = frac_start;
        while j < n
            invariant
                n == inner@.len(),
                n == b@.len(),
                forall|k: int| 0 <= k < b@.len() ==> #[trigger] b@[k] as char == inner@[k],
                frac_start <= j <= n,
                frac_start == fraction_start(inner@),
                forall|k: int| frac_start <= k < j ==> is_digit(#[trigger] inner@[k]),
            decreases n - j,
        {
            let c = b[j];
            assert(c as char == inner@[j as int]);
            if c < DIGIT_ZERO || c > DIGIT_NINE {
                assert(!is_digit(fraction_part(inner@)[j - frac_start]));
                return Err(Error::InvalidString);
            }
            j += 1;
        }
        assert(all_digits(fraction_part(inner@))) by {
            assert forall|k: int| 0 <= k < fraction_part(inner@).len() implies is_digit(
                #[trigger] fraction_part(inner@)[k],
            ) by {
                assert(is_digit(inner@[k + frac_start]));
            }
        }
        let cents = String::from_str(inner.substring_ascii(frac_start, n));
        Ok(Amount { kind, dollars, cents })
    }

    /// Takes a body apart that is written as held.
    pub(crate) fn positive(s: &str) -> (r: Result<Amount, Error>)
        ensures
            match r {
                Ok(a) => {
                    &&& body_is_valid(s@)
                    &&& a.spec_kind() == AmountKind::Positive
                    &&& a.spec_dollars() == body_dollars(s@)
                    &&& a.spec_cents() == body_cents(s@)
                },
                Err(e) => e == Error::InvalidString && !body_is_valid(s@),
            },
    {
        Self::new(AmountKind::Positive, s)
    }

    /// Takes a body apart that is written as owed.
    pub(crate) fn negative(s: &str) -> (r: Result<Amount, Error>)
        ensures
            match r {
                Ok(a) => {
                    &&& body_is_valid(s@)
                    &&& a.spec_kind() == AmountKind::Negative
                    &&& a.spec_dollars() == body_dollars(s@)
                    &&& a.spec_cents() == body_cents(s@)
                },
                Err(e) => e == Error::InvalidString && !body_is_valid(s@),
            },
    {
        Self::new(AmountKind::Negative, s)
    }

    /// Reads the sign notation of a text and takes the rest apart.
    pub(crate) fn from(s: &str) -> (r: Result<Amount, Error>)
        ensures
            match r {
                Ok(a) => {
                    &&& body_is_valid(unsigned_body(s@))
                    &&& a.spec_kind() == sign_of(s@)
                    &&& a.spec_dollars() == body_dollars(unsigned_body(s@))
                    &&& a.spec_cents() == body_cents(unsigned_body(s@))
                },
                Err(e) => e == Error::InvalidString && !body_is_valid(unsigned_body(s@)),
            },
    {
        let n = s.unicode_len();
        if n >= 1 && s.get_char(0) == MINUS {
            Self::negative(s.substring_char(1, n))
        } else if n >= 2 && s.get_char(0) == LEFT_PAREN && s.get_char(n - 1) == RIGHT_PAREN {
            Self::negative(s.substring_char(1, n - 1))
        } else {
            Self::positive(s)
        }
    }

    /// The factor that the sign stands for: -1 for a negative amount, 1 for
    /// a positive one.
    pub(crate) fn apply_sign(&self) -> (sign: i64)
        ensures
            sign == if self.spec_kind() == AmountKind::Negative {
                -1i64
            } else {
                1i64
            },
    {
        match self.kind {
            AmountKind::Negative => -1,
            AmountKind::Positive => 1,
        }
    }

    /// The hundredths that the sign and the two digit runs make together.
    pub(crate) fn combine_dollars_and_cents(&self) -> (r: Result<i64, Error>)
        ensures
            r == combine_spec(self.spec_kind(), self.spec_dollars(), self.spec_cents()),
    {
        let sign = self.apply_sign();
        let d = match mk_int(self.dollars.as_str()) {
            Ok(v) => v,
            Err(e) => {
                return Err(e);
            },
        };
        let c = match mk_rounded_cents(&self.cents) {
            Ok(v) => v,
            Err(e) => {
                return Err(e);
            },
        };
        proof {
            lemma_rounded_cents_bound(self.cents@);
            if all_digits(self.dollars@) {
                lemma_digits_value_nonnegative(self.dollars@);
            }
        }
        assert(d >= 0);
        let dollars = if sign < 0 {
            -d
        } else {
            d
        };
        let cents = if sign < 0 {
            -c
        } else {
            c
        };
        match dollars.checked_mul(100) {
            None => Err(Error::OutOfRange),
            Some(hundreds) => match hundreds.checked_add(cents) {
                None => Err(Error::OutOfRange),
                Some(total) => Ok(total),
            },
        }
    }

    /// The amount that was read, as money.
    pub(crate) fn to_money(&self) -> (r: Result<Money, Error>)
        ensures
            result_view(r) == match combine_spec(
                self.spec_kind(),
                self.spec_dollars(),
                self.spec_cents(),
            ) {
                Ok(total) => Ok::<int, Error>(total as int),
                Err(e) => Err(e),
            },
    {
        match self.combine_dollars_and_cents() {
            Ok(inner) => Ok(Money::from(inner)),
            Err(e) => Err(e),
        }
    }
}

/// Parses a text in the `en_US` money notation.
pub(crate) fn parse_en_us_utf8(input: &str) -> (r: Result<Money, Error>)
    ensures
        result_view(r) == parse_spec(input@),
{
    match Amount::from(input) {
        Ok(amount) => amount.to_money(),
        Err(e) => Err(e),
    }
}

impl Money {
    /// Attempts to parse a text into a `Money`.
    ///
    /// The text is a sign notation (a leading `-`, or parentheses round the
    /// whole text, or neither) round a body: an optional `$`, the whole units
    /// in digits with optional grouping commas, and an optional `.` with the
    /// fractional digits. Fractional digits beyond the second round the
    /// hundredths on the third digit.
    pub fn parse_str(input: &str) -> (r: Result<Money, Error>)
        ensures
            result_view(r) == parse_spec(input@),
    {
        parse_en_us_utf8(input)
    }
}

impl core::str::FromStr for Money {
    type Err = Error;

    /// Parses a text as `Money::parse_str` does.
    fn from_str(money_str: &str) -> (r: Result<Money, Error>)
        ensures
            result_view(r) == parse_spec(money_str@),
    {
        Money::parse_str(money_str)
    }
}

} // verus!
