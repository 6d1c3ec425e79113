use postgres_money::{Error, Money};
use regex::Regex;

/// What the pattern of the notation and `str::parse` make of an unsigned
/// body, written out step by step.
fn by_pattern(negative: bool, body: &str) -> Result<i64, Error> {
    let shape = Regex::new(r"^\$?(?P<dollars>[0-9,]*)\.?(?P<cents>[0-9]*$)").unwrap();
    let caps = shape.captures(body).ok_or(Error::InvalidString)?;
    let dollars = caps.get(1).map_or("", |m| m.as_str()).replace(",", "");
    let cents = caps.get(2).map_or("", |m| m.as_str());
    let number = |s: &str| -> Result<i64, Error> {
        if s.is_empty() {
            return Ok(0);
        }
        s.parse::<i64>().map_err(|_| Error::OutOfRange)
    };
    let sign: i64 = if negative { -1 } else { 1 };
    let whole = number(&dollars)? * sign;
    let hundredths = if cents.len() > 2 {
        let first = number(&cents[..2])?;
        let third = number(&cents[2..3])?;
        if third >= 5 {
            first + 1
        } else {
            first
        }
    } else {
        number(cents)?
    } * sign;
    whole
        .checked_mul(100)
        .ok_or(Error::OutOfRange)?
        .checked_add(hundredths)
        .ok_or(Error::OutOfRange)
}

fn bodies() -> Vec<String> {
    let pieces = ["", "$", "0", "7", "12", "1,234", ",", ".", "5", "05", "455", "454", "9999", "x", " ", "$$", ".."];
    let mut out = Vec::new();
    for a in pieces {
        for b in pieces {
            for c in pieces {
                out.push(format!("{}{}{}", a, b, c));
            }
        }
    }
    out.push("92233720368547758.07".to_string());
    out.push("92233720368547758.08".to_string());
    out.push("92233720368547758.075".to_string());
    out.push("123456789012345678".to_string());
    out.push("12345678901234567".to_string());
    out
}

#[test]
fn agrees_with_the_pattern_on_unsigned_bodies() {
    for body in bodies() {
        let got = Money::parse_str(&body).map(|m| m.inner());
        assert_eq!(got, by_pattern(false, &body), "body {:?}", body);
    }
}

#[test]
fn agrees_with_the_pattern_behind_a_minus() {
    for body in bodies() {
        let text = format!("-{}", body);
        let got = Money::parse_str(&text).map(|m| m.inner());
        assert_eq!(got, by_pattern(true, &body), "text {:?}", text);
    }
}

#[test]
fn agrees_with_the_pattern_inside_parentheses() {
    for body in bodies() {
        let text = format!("({})", body);
        let got = Money::parse_str(&text).map(|m| m.inner());
        assert_eq!(got, by_pattern(true, &body), "text {:?}", text);
    }
}
