use crate::money::Money;
use vstd::prelude::*;
use vstd::string::*;

verus! {

/// The character that writes the digit `d`, for `d` from 0 to 9.
pub open spec fn digit_char(d: int) -> char
    recommends
        0 <= d <= 9,
{
    (d + 48) as char
}

/// The decimal notation of `n`, most significant digit first, without
/// leading zeros; zero is written `0`.
pub open spec fn decimal(n: nat) -> Seq<char>
    decreases n,
{
    if n < 10 {
        seq![digit_char(n as int)]
    } else {
        decimal(n / 10).push(digit_char((n % 10) as int))
    }
}

/// The magnitude of a count of hundredths.
pub open spec fn magnitude(raw: int) -> nat {
    if raw < 0 {
        (-raw) as nat
    } else {
        raw as nat
    }
}

/// The sign as written: `-` for a negative count, nothing otherwise.
pub open spec fn sign_text(raw: int) -> Seq<char> {
    if raw < 0 {
        seq!['-']
    } else {
        Seq::empty()
    }
}

/// The whole units of a count of hundredths, in decimal notation.
pub open spec fn dollars_text(raw: int) -> Seq<char> {
    decimal(magnitude(raw) / 100)
}

/// The hundredths beyond the whole units, as two decimal digits.
pub open spec fn cents_text(raw: int) -> Seq<char> {
    let c = magnitude(raw) % 100;
    seq![digit_char((c / 10) as int), digit_char((c % 10) as int)]
}

/// The canonical rendering of a count of hundredths: the sign, `$`, the
/// whole units, `.`, and two digits of hundredths.
pub open spec fn display_spec(raw: int) -> Seq<char> {
    sign_text(raw) + seq!['$'] + dollars_text(raw) + seq!['.'] + cents_text(raw)
}

/// The one-character text that writes the digit `d`.
fn digit_str(d: u8) -> (s: &'static str)
    requires
        d <= 9,
    ensures
        s@ == seq![digit_char(d as int)],
{
    proof {
        reveal_strlit("0");
        reveal_strlit("1");
        reveal_strlit("2");
        reveal_strlit("3");
        reveal_strlit("4");
        reveal_strlit("5");
        reveal_strlit("6");
        reveal_strlit("7");
        reveal_strlit("8");
        reveal_strlit("9");
    }
    let s = match d {
        0 => "0",
        1 => "1",
        2 => "2",
        3 => "3",
        4 => "4",
        5 => "5",
        6 => "6",
        7 => "7",
        8 => "8",
        _ => "9",
    };
    assert(s@ =~= seq![digit_char(d as int)]);
    s
}

/// Appends the decimal notation of `n` to `out`.
fn push_decimal(out: &mut String, n: u64)
    ensures
        final(out)@ == old(out)@ + decimal(n as nat),
    decreases n,
{
    if n >= 10 {
        push_decimal(out, n / 10);
    }
    out.append(digit_str((n % 10) as u8));
    assert(out@ =~= old(out)@ + decimal(n as nat));
}

impl Money {
    /// The magnitude of the wrapped count.
    fn magnitude(&self) -> (m: u64)
        ensures
            m == magnitude(self@),
    {
        let raw = self.inner();
        if raw == i64::MIN {
            9223372036854775808
        } else if raw < 0 {
            (-raw) as u64
        } else {
            raw as u64
        }
    }

    /// The whole units, in decimal notation.
    pub fn dollars(&self) -> (s: String)
        ensures
            s@ == dollars_text(self@),
    {
        let mut s = String::new();
        push_decimal(&mut s, self.magnitude() / 100);
        s
    }

    /// The hundredths beyond the whole units, as two decimal digits.
    pub fn cents(&self) -> (s: String)
        ensures
            s@ == cents_text(self@),
    {
        let n = self.magnitude() % 100;
        let mut s = String::new();
        s.append(digit_str((n / 10) as u8));
        s.append(digit_str((n % 10) as u8));
        assert(s@ =~= cents_text(self@));
        s
    }

    /// The sign as written: `-` for a negative amount, nothing otherwise.
    pub fn sign(&self) -> (s: &'static str)
        ensures
            s@ == sign_text(self@),
    {
        proof {
            reveal_strlit("-");
            reveal_strlit("");
        }
        let s = if self.inner() < 0 {
            "-"
        } else {
            ""
        };
        assert(s@ =~= sign_text(self@));
        s
    }

    /// The canonical rendering: the sign, `$`, the whole units, `.`, and two
    /// digits of hundredths.
    pub fn to_string(&self) -> (s: String)
        ensures
            s@ == display_spec(self@),
    {
        proof {
            reveal_strlit("$");
            reveal_strlit(".");
        }
        let mut s = String::from_str(self.sign());
        s.append("$");
        s.append(self.dollars().as_str());
        s.append(".");
        s.append(self.cents().as_str());
        assert(s@ =~= display_spec(self@));
        s
    }
}

} // verus!
