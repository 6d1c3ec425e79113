use crate::digits::{all_digits, digit_value, digits_value, is_digit, mk_int_spec};
use crate::display::{cents_text, decimal, digit_char, display_spec, dollars_text, magnitude, sign_text};
use crate::error::Error;
use crate::money::Money;
use crate::parser::{
    body_cents, body_dollars, body_is_valid, combine_spec, fraction_part, fraction_start,
    has_minus, has_parens, is_whole_char, lemma_whole_end_step, mk_rounded_cents_spec,
    parse_spec, sign_of, symbol_len, unsigned_body, whole_end, whole_part, AmountKind,
};
use vstd::prelude::*;

verus! {

/// The decimal notation of a number is a run of at least one digit that
/// denotes that number.
pub proof fn lemma_decimal_denotes(n: nat)
    ensures
        decimal(n).len() >= 1,
        all_digits(decimal(n)),
        digits_value(decimal(n)) == n,
    decreases n,
{
    if n < 10 {
        let s = decimal(n);
        assert(s.len() == 1);
        assert(is_digit(s[0]));
        assert(s.drop_last().len() == 0);
        reveal_with_fuel(digits_value, 2);
    } else {
        lemma_decimal_denotes(n / 10);
        let head = decimal(n / 10);
        let s = decimal(n);
        assert(s.drop_last() =~= head);
        assert(is_digit(s.last()));
        assert forall|i: int| 0 <= i < s.len() implies is_digit(#[trigger] s[i]) by {
            if i < head.len() {
                assert(s[i] == head[i]);
            }
        }
        assert(digit_value(s.last()) == n % 10);
    }
}

/// A run without commas is left as it is when commas are removed.
pub proof fn lemma_digits_hold_no_comma(s: Seq<char>)
    requires
        all_digits(s),
    ensures
        s.filter(|c: char| c != ',') == s,
    decreases s.len(),
{
    reveal(Seq::filter);
    if s.len() > 0 {
        lemma_digits_hold_no_comma(s.drop_last());
        assert(is_digit(s.last()));
        assert(s.drop_last().push(s.last()) =~= s);
    }
}

/// Parsing the canonical rendering of an amount gives that amount back.
pub proof fn lemma_parse_display_roundtrip(v: Money)
    ensures
        parse_spec(display_spec(v@)) == Ok::<int, Error>(v@),
{
    v.lemma_view();
    let raw = v@;
    let m = magnitude(raw);
    let whole = dollars_text(raw);
    let frac = cents_text(raw);
    let text = display_spec(raw);
    lemma_decimal_denotes(m / 100);
    let b = seq!['$'] + whole + seq!['.'] + frac;
    let w = whole.len() as int;
    assert(b.len() == w + 4);
    assert(b[0] == '$');
    assert forall|j: int| 1 <= j < 1 + w implies is_whole_char(#[trigger] b[j]) by {
        assert(b[j] == whole[j - 1]);
        assert(is_digit(whole[j - 1]));
    }
    assert(b[1 + w] == '.');
    assert(b[2 + w] == frac[0] && b[3 + w] == frac[1]);

    // the sign notation
    if raw < 0 {
        assert(text =~= seq!['-'] + b);
        assert(text[0] == '-');
        assert(has_minus(text));
        assert(unsigned_body(text) =~= b);
    } else {
        assert(text =~= b);
        assert(!has_minus(text) && !has_parens(text));
    }
    assert(unsigned_body(text) == b);
    assert(sign_of(text) == if raw < 0 {
        AmountKind::Negative
    } else {
        AmountKind::Positive
    });

    // the shape of the body
    assert(symbol_len(b) == 1);
    lemma_whole_end_step(b, 1, 1 + w);
    assert(whole_end(b, 1 + w) == 1 + w);
    assert(whole_part(b) =~= whole);
    assert(fraction_start(b) == 2 + w);
    assert(fraction_part(b) =~= frac);
    assert(is_digit(frac[0]) && is_digit(frac[1]));
    assert(body_is_valid(b));
    lemma_digits_hold_no_comma(whole);
    assert(body_dollars(b) == whole);
    assert(body_cents(b) == frac);

    // the two numbers
    assert(mk_int_spec(whole) == Ok::<i64, Error>((m / 100) as i64));
    assert(digits_value(frac) == m % 100) by {
        reveal_with_fuel(digits_value, 3);
        assert(frac.drop_last().last() == frac[0]);
    }
    assert(mk_rounded_cents_spec(frac) == Ok::<i64, Error>((m % 100) as i64));
    assert((m / 100) * 100 + m % 100 == m);
    assert(combine_spec(sign_of(text), whole, frac) == Ok::<i64, Error>(raw as i64));
}

} // verus!
