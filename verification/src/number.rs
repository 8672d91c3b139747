//! Numbers, and the arithmetic that is asked of the embedding program.
//!
//! A number is an IEEE 754 binary64 value, carried as its bit pattern. What
//! can be read off the bits is decided here: the sign, whether the value is a
//! NaN or a zero, and how two values are ordered. Rounded arithmetic and the
//! reading of numerals are not: each such result is a [`Request`], and its
//! answer is looked up in a table of [`Answers`].

use vstd::prelude::*;

verus! {

/// The sign bit of a binary64 value.
pub const SIGN_BIT: u64 = 0x8000_0000_0000_0000;

/// The bits of a binary64 value without its sign.
pub const MAGNITUDE_BITS: u64 = 0x7fff_ffff_ffff_ffff;

/// Positive infinity. Every larger magnitude is a NaN.
pub const INFINITY_BITS: u64 = 0x7ff0_0000_0000_0000;

/// Machine epsilon, two to the power of minus fifty-two.
pub const EPSILON_BITS: u64 = 0x3cb0_0000_0000_0000;

/// An IEEE 754 binary64 value, as its bit pattern.
#[derive(Clone, Copy, Debug, PartialEq, Eq, Structural)]
pub struct Number {
    pub bits: u64,
}

impl Number {
    /// The bits without the sign. Among values that are no NaN, a larger
    /// magnitude is a larger absolute value.
    pub open spec fn magnitude(self) -> u64 {
        self.bits & MAGNITUDE_BITS
    }

    /// True when the sign bit is set.
    pub open spec fn negative(self) -> bool {
        self.bits & SIGN_BIT != 0
    }

    pub open spec fn spec_is_nan(self) -> bool {
        self.magnitude() > INFINITY_BITS
    }

    pub open spec fn spec_is_zero(self) -> bool {
        self.magnitude() == 0
    }

    /// Where the value stands among the values that are no NaN: the
    /// magnitude, counted downwards for negative values. Both zeros stand
    /// at 0.
    pub open spec fn rank(self) -> int {
        if self.negative() {
            -(self.magnitude() as int)
        } else {
            self.magnitude() as int
        }
    }

    /// `self < other`. A NaN is below nothing and nothing is below it.
    pub open spec fn spec_less_than(self, other: Number) -> bool {
        !self.spec_is_nan() && !other.spec_is_nan() && self.rank() < other.rank()
    }

    /// `self <= other`. A NaN compares with nothing.
    pub open spec fn spec_less_or_equal(self, other: Number) -> bool {
        !self.spec_is_nan() && !other.spec_is_nan() && self.rank() <= other.rank()
    }

    /// The value with its sign flipped.
    pub open spec fn spec_negate(self) -> Number {
        Number { bits: self.bits ^ SIGN_BIT }
    }

    /// True when the absolute value is below machine epsilon. A NaN is not.
    pub open spec fn spec_is_negligible(self) -> bool {
        self.magnitude() < EPSILON_BITS
    }

    /// True when the value is a NaN.
    #[verifier::when_used_as_spec(spec_is_nan)]
    pub fn is_nan(self) -> (nan: bool)
        ensures
            nan == self.spec_is_nan(),
    {
        self.bits & MAGNITUDE_BITS > INFINITY_BITS
    }

    /// True when the value is zero, of either sign.
    #[verifier::when_used_as_spec(spec_is_zero)]
    pub fn is_zero(self) -> (zero: bool)
        ensures
            zero == self.spec_is_zero(),
    {
        self.bits & MAGNITUDE_BITS == 0
    }

    /// `self < other`, as IEEE 754 orders the two values.
    #[verifier::when_used_as_spec(spec_less_than)]
    pub fn less_than(self, other: Number) -> (below: bool)
        ensures
            below == self.spec_less_than(other),
    {
        if self.is_nan() || other.is_nan() {
            return false;
        }
        let mine = self.bits & MAGNITUDE_BITS;
        let theirs = other.bits & MAGNITUDE_BITS;
        if self.bits & SIGN_BIT != 0 {
            if other.bits & SIGN_BIT != 0 {
                mine > theirs
            } else {
                mine != 0 || theirs != 0
            }
        } else {
            if other.bits & SIGN_BIT != 0 {
                false
            } else {
                mine < theirs
            }
        }
    }

    /// `self <= other`, as IEEE 754 orders the two values.
    #[verifier::when_used_as_spec(spec_less_or_equal)]
    pub fn less_or_equal(self, other: Number) -> (at_most: bool)
        ensures
            at_most == self.spec_less_or_equal(other),
    {
        if self.is_nan() || other.is_nan() {
            return false;
        }
        let mine = self.bits & MAGNITUDE_BITS;
        let theirs = other.bits & MAGNITUDE_BITS;
        if self.bits & SIGN_BIT != 0 {
            if other.bits & SIGN_BIT != 0 {
                mine >= theirs
            } else {
                true
            }
        } else {
            if other.bits & SIGN_BIT != 0 {
                mine == 0 && theirs == 0
            } else {
                mine <= theirs
            }
        }
    }

    /// The value with its sign flipped.
    #[verifier::when_used_as_spec(spec_negate)]
    pub fn negate(self) -> (negated: Number)
        ensures
            negated == self.spec_negate(),
    {
        Number { bits: self.bits ^ SIGN_BIT }
    }

    /// True when the absolute value is below machine epsilon.
    #[verifier::when_used_as_spec(spec_is_negligible)]
    pub fn is_negligible(self) -> (negligible: bool)
        ensures
            negligible == self.spec_is_negligible(),
    {
        self.bits & MAGNITUDE_BITS < EPSILON_BITS
    }
}

/// Flipping the sign changes nothing but the sign: the magnitude stays, and
/// with it whether the value is a NaN, a zero, or below machine epsilon.
pub proof fn lemma_negate_keeps_magnitude(number: Number)
    ensures
        number.spec_negate().magnitude() == number.magnitude(),
        number.spec_negate().negative() != number.negative(),
{
    let bits = number.bits;
    assert((bits ^ 0x8000_0000_0000_0000u64) & 0x7fff_ffff_ffff_ffffu64 == bits
        & 0x7fff_ffff_ffff_ffffu64) by (bit_vector);
    assert(((bits ^ 0x8000_0000_0000_0000u64) & 0x8000_0000_0000_0000u64 != 0) != (bits
        & 0x8000_0000_0000_0000u64 != 0)) by (bit_vector);
}

/// The four rounded operations.
#[derive(Clone, Copy, Debug, PartialEq, Eq, Structural)]
pub enum ArithOp {
    Add,
    Subtract,
    Multiply,
    Divide,
}

/// A result that only floating-point arithmetic can give.
#[derive(Debug, PartialEq)]
pub enum Request {
    /// The number nearest to a decimal numeral, `digits` or `digits.digits`.
    Convert(String),
    /// The rounded result of an operation on two numbers, the left one
    /// first.
    Compute(ArithOp, Number, Number),
}

/// The model of a [`Request`].
pub enum RequestView {
    Convert(Seq<char>),
    Compute(ArithOp, Number, Number),
}

impl View for Request {
    type V = RequestView;

    open spec fn view(&self) -> RequestView {
        match self {
            Request::Convert(numeral) => RequestView::Convert(numeral@),
            Request::Compute(op, left, right) => RequestView::Compute(*op, *left, *right),
        }
    }
}

impl Clone for Request {
    fn clone(&self) -> (copy: Self)
        ensures
            copy@ == self@,
    {
        match self {
            Request::Convert(numeral) => Request::Convert(numeral.clone()),
            Request::Compute(op, left, right) => Request::Compute(*op, *left, *right),
        }
    }
}

impl Request {
    /// True when both ask for the same result.
    pub fn same_as(&self, other: &Request) -> (same: bool)
        ensures
            same == (self@ == other@),
    {
        match (self, other) {
            (Request::Convert(mine), Request::Convert(theirs)) => {
                let same = *mine == *theirs;
                same
            },
            (Request::Compute(op, left, right), Request::Compute(their_op, their_left, their_right)) => {
                *op == *their_op && left.bits == their_left.bits && right.bits == their_right.bits
            },
            _ => false,
        }
    }
}

/// The table that `entries` spell: a later entry for a request replaces an
/// earlier one.
pub open spec fn table(entries: Seq<(Request, Number)>) -> Map<RequestView, Number>
    decreases entries.len(),
{
    if entries.len() == 0 {
        Map::empty()
    } else {
        table(entries.drop_last()).insert(entries.last().0@, entries.last().1)
    }
}

/// The answers that the embedding program has given so far.
#[derive(Debug)]
pub struct Answers {
    entries: Vec<(Request, Number)>,
}

impl View for Answers {
    type V = Map<RequestView, Number>;

    closed spec fn view(&self) -> Map<RequestView, Number> {
        table(self.entries@)
    }
}

impl Answers {
    /// A table without answers.
    pub fn new() -> (answers: Self)
        ensures
            answers@ == Map::<RequestView, Number>::empty(),
    {
        Answers { entries: Vec::new() }
    }

    /// Records the answer to `request`, in place of an earlier one.
    pub fn record(&mut self, request: Request, answer: Number)
        ensures
            final(self)@ == old(self)@.insert(request@, answer),
    {
        proof {
            assert(self.entries@.push((request, answer)).drop_last() =~= self.entries@);
        }
        self.entries.push((request, answer));
    }

    /// The answer to `request`, if one was recorded.
    pub fn find(&self, request: &Request) -> (answer: Option<Number>)
        ensures
            answer == if self@.contains_key(request@) {
                Some(self@[request@])
            } else {
                None
            },
    {
        let ghost key = request@;
        let mut i: usize = self.entries.len();
        proof {
            assert(self.entries@.subrange(0, i as int) =~= self.entries@);
        }
        while i > 0
            invariant
                i <= self.entries@.len(),
                key == request@,
                self@.contains_key(key) == table(
                    self.entries@.subrange(0, i as int),
                ).contains_key(key),
                self@.contains_key(key) ==> self@[key] == table(
                    self.entries@.subrange(0, i as int),
                )[key],
            decreases i,
        {
            let ghost upto = self.entries@.subrange(0, i as int);
            proof {
                assert(upto.drop_last() =~= self.entries@.subrange(0, i - 1));
            }
            i -= 1;
            if self.entries[i].0.same_as(request) {
                return Some(self.entries[i].1);
            }
        }
        None
    }
}

} // verus!
