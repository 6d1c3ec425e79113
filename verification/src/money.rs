use vstd::prelude::*;

verus! {

/// A monetary amount held as a signed 64-bit count of hundredths of a unit.
///
/// Every `i64` is a valid amount; the view of a `Money` is that count as a
/// mathematical integer.
#[derive(Clone, Copy, Debug, PartialEq, Eq, Ord, Hash, Structural)]
pub struct Money(i64);

impl View for Money {
    type V = int;

    closed spec fn view(&self) -> int {
        self.0 as int
    }
}

impl Money {
    /// The amount whose count of hundredths is `cents`, for `cents` in the
    /// signed 64-bit range.
    pub closed spec fn of(cents: int) -> Money {
        Money(cents as i64)
    }

    /// The view stays in the signed 64-bit range, and `of` and the view undo
    /// each other on that range.
    pub proof fn lemma_view(self)
        ensures
            i64::MIN <= self@ <= i64::MAX,
            Money::of(self@) == self,
    {
    }

    /// Amounts that hold the same count are the same amount.
    pub proof fn lemma_equal_views(self, other: Money)
        requires
            self@ == other@,
        ensures
            self == other,
    {
    }

    /// `of` is the inverse of the view on the signed 64-bit range.
    pub proof fn lemma_of(cents: int)
        requires
            i64::MIN <= cents <= i64::MAX,
        ensures
            Money::of(cents)@ == cents,
    {
    }

    /// Minimum allowable value.
    pub fn min() -> (m: Money)
        ensures
            m@ == i64::MIN,
            m == Money::of(i64::MIN as int),
    {
        Money(i64::MIN)
    }

    /// Maximum allowable value.
    pub fn max() -> (m: Money)
        ensures
            m@ == i64::MAX,
            m == Money::of(i64::MAX as int),
    {
        Money(i64::MAX)
    }

    /// The zero amount.
    pub fn none() -> (m: Money)
        ensures
            m@ == 0,
            m == Money::of(0),
    {
        Money(0)
    }

    /// The wrapped count of hundredths.
    pub fn inner(&self) -> (cents: i64)
        ensures
            cents == self@,
    {
        self.0
    }

    /// Wraps a count of hundredths verbatim.
    pub fn from(cents: i64) -> (m: Money)
        ensures
            m@ == cents,
            m == Money::of(cents as int),
    {
        Money(cents)
    }
}

impl Default for Money {
    /// The zero amount.
    fn default() -> (m: Money)
        ensures
            m@ == 0,
            m == Money::of(0),
    {
        Money::none()
    }
}

} // verus!
