//! JSON numbers.
//!
//! A number is an integer between `i64::MIN` and `u64::MAX`, or a finite
//! double. Proofs cannot follow floating-point arithmetic, so a double is held
//! as its IEEE-754 bit pattern, on which equality is decided, together with its
//! decimal text, which the caller supplies and which is only ever displayed.

use vstd::prelude::*;

verus! {

/// The mathematical value of a [`Number`].
pub enum NumberView {
    /// An integer.
    Integer(int),
    /// A double, by its IEEE-754 bit pattern, with the text that displays it.
    Float { bits: u64, text: Seq<char> },
}

/// A JSON number.
#[derive(Debug, PartialEq)]
pub struct Number {
    repr: Repr,
}

#[derive(Debug, PartialEq)]
enum Repr {
    /// An integer that is not negative.
    PosInt(u64),
    /// An integer below zero.
    NegInt(i64),
    /// A finite double.
    Float { bits: u64, text: String },
}

/// The exponent field of a double's bit pattern is not all ones: the pattern
/// stands for a finite number, neither an infinity nor a NaN.
pub open spec fn finite_bits(bits: u64) -> bool {
    (bits / 0x10_0000_0000_0000) % 0x800 != 0x7ff
}

/// The bit pattern is that of `+0.0` or of `-0.0`.
pub open spec fn zero_bits(bits: u64) -> bool {
    bits == 0 || bits == 0x8000_0000_0000_0000
}

/// Numeric equality. Two integers are equal when they are the same integer. Two
/// finite doubles are equal when their bit patterns agree or both are a zero,
/// which is how IEEE-754 compares finite numbers. An integer never equals a
/// double, whatever their values.
pub open spec fn same_number(a: NumberView, b: NumberView) -> bool {
    match (a, b) {
        (NumberView::Integer(x), NumberView::Integer(y)) => x == y,
        (NumberView::Float { bits: x, .. }, NumberView::Float { bits: y, .. }) => x == y || (
        zero_bits(x) && zero_bits(y)),
        _ => false,
    }
}

/// The decimal digit for a number below ten.
pub open spec fn digit(d: nat) -> char {
    ((d + 48) as u8) as char
}

/// The decimal digits of a natural number, without leading zeros.
pub open spec fn digits(n: nat) -> Seq<char>
    decreases n,
{
    if n < 10 {
        seq![digit(n)]
    } else {
        digits(n / 10).push(digit(n % 10))
    }
}

/// The decimal text of an integer: its digits, after a minus sign when it is
/// negative.
pub open spec fn decimal(i: int) -> Seq<char> {
    if i < 0 {
        seq!['-'] + digits((-i) as nat)
    } else {
        digits(i as nat)
    }
}

/// The text that displays a number: the decimal text of an integer, and the
/// text that a double came with.
pub open spec fn number_text(number: NumberView) -> Seq<char> {
    match number {
        NumberView::Integer(i) => decimal(i),
        NumberView::Float { text, .. } => text,
    }
}

/// The decimal text of an integer, as `serde_json` writes it: the text that
/// `to_string` gives for the number that `serde_json::Number::from_i128` makes
/// of `value`. For an integer between `i64::MIN` and `u64::MAX` that number
/// exists, and its text is the integer's digits, after a minus sign when it is
/// negative.
#[verifier::external_body]
fn integer_text(value: i128) -> (text: String)
    requires
        i64::MIN <= value <= u64::MAX,
    ensures
        text@ == decimal(value as int),
{
    match serde_json::Number::from_i128(value) {
        Some(number) => number.to_string(),
        None => String::new(),
    }
}

impl View for Number {
    type V = NumberView;

    closed spec fn view(&self) -> NumberView {
        match self.repr {
            Repr::PosInt(u) => NumberView::Integer(u as int),
            Repr::NegInt(i) => NumberView::Integer(i as int),
            Repr::Float { bits, text } => NumberView::Float { bits, text: text@ },
        }
    }
}

impl Number {
    #[verifier::type_invariant]
    spec fn is_canonical(self) -> bool {
        match self.repr {
            Repr::PosInt(_) => true,
            Repr::NegInt(i) => i < 0,
            Repr::Float { bits, .. } => finite_bits(bits),
        }
    }

    /// The number `value`.
    pub fn from_u64(value: u64) -> (number: Number)
        ensures
            number@ == NumberView::Integer(value as int),
    {
        Number { repr: Repr::PosInt(value) }
    }

    /// The number `value`.
    pub fn from_i64(value: i64) -> (number: Number)
        ensures
            number@ == NumberView::Integer(value as int),
    {
        if value < 0 {
            Number { repr: Repr::NegInt(value) }
        } else {
            Number { repr: Repr::PosInt(value as u64) }
        }
    }

    /// The double with the bit pattern `bits`, displayed as `text`; `None` when
    /// the pattern is an infinity or a NaN, which JSON cannot express.
    pub fn from_float_bits(bits: u64, text: String) -> (number: Option<Number>)
        ensures
            number is Some <==> finite_bits(bits),
            number is Some ==> number->0@ == (NumberView::Float { bits, text: text@ }),
    {
        if (bits / 0x10_0000_0000_0000) % 0x800 != 0x7ff {
            Some(Number { repr: Repr::Float { bits, text } })
        } else {
            None
        }
    }

    /// The integer, when the number is one and is not negative.
    pub fn as_u64(&self) -> (value: Option<u64>)
        ensures
            value == (match self@ {
                NumberView::Integer(i) if 0 <= i => Some(i as u64),
                _ => None,
            }),
    {
        proof {
            use_type_invariant(self);
        }
        match &self.repr {
            Repr::PosInt(u) => Some(*u),
            _ => None,
        }
    }

    /// The integer, when the number is one and fits.
    pub fn as_i64(&self) -> (value: Option<i64>)
        ensures
            value == (match self@ {
                NumberView::Integer(i) if i <= i64::MAX => Some(i as i64),
                _ => None,
            }),
    {
        match &self.repr {
            Repr::PosInt(u) => if *u <= i64::MAX as u64 {
                Some(*u as i64)
            } else {
                None
            },
            Repr::NegInt(i) => Some(*i),
            Repr::Float { .. } => None,
        }
    }

    /// The bit pattern, when the number is a double; it is that of a finite
    /// number.
    pub fn float_bits(&self) -> (bits: Option<u64>)
        ensures
            bits == (match self@ {
                NumberView::Float { bits, .. } => Some(bits),
                _ => None,
            }),
            bits is Some ==> finite_bits(bits->0),
    {
        proof {
            use_type_invariant(self);
        }
        match &self.repr {
            Repr::Float { bits, .. } => Some(*bits),
            _ => None,
        }
    }

    /// The text that displays the number.
    pub fn to_text(&self) -> (text: String)
        ensures
            text@ == number_text(self@),
    {
        match &self.repr {
            Repr::PosInt(u) => integer_text(*u as i128),
            Repr::NegInt(i) => integer_text(*i as i128),
            Repr::Float { text, .. } => text.clone(),
        }
    }

    /// Whether the two numbers are numerically equal.
    pub fn same_value(&self, other: &Number) -> (same: bool)
        ensures
            same == same_number(self@, other@),
    {
        proof {
            use_type_invariant(self);
            use_type_invariant(other);
        }
        match (&self.repr, &other.repr) {
            (Repr::PosInt(a), Repr::PosInt(b)) => *a == *b,
            (Repr::NegInt(a), Repr::NegInt(b)) => *a == *b,
            (Repr::Float { bits: a, .. }, Repr::Float { bits: b, .. }) => *a == *b || ((*a == 0 || *a
                == 0x8000_0000_0000_0000) && (*b == 0 || *b == 0x8000_0000_0000_0000)),
            _ => false,
        }
    }
}

impl Clone for Number {
    /// A copy of the number.
    fn clone(&self) -> (copy: Number)
        ensures
            copy@ == self@,
    {
        proof {
            use_type_invariant(self);
        }
        match &self.repr {
            Repr::PosInt(u) => Number { repr: Repr::PosInt(*u) },
            Repr::NegInt(i) => Number { repr: Repr::NegInt(*i) },
            Repr::Float { bits, text } => Number { repr: Repr::Float { bits: *bits, text: text.clone() } },
        }
    }
}

} // verus!
