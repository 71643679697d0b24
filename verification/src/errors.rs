//! Shape errors raised by the explicit weight and value setters.
//!
//! Each variant carries the expected and the provided count, and renders
//! the exact report the callers rely on, digits included.

use vstd::prelude::*;
use vstd::string::StringExecFns;

verus! {

/// A provided sequence disagreed with the structural expectation.
#[derive(Clone, Copy, PartialEq, Eq, Structural, Debug)]
pub enum ShapeMismatch {
    /// The outer weight-vector count differs from the neuron count.
    WeightVectorCount { expected: usize, got: usize },
    /// An inner weight vector differs from the neuron's weight length.
    WeightCount { expected: usize, got: usize },
    /// The value count differs from the neuron count.
    ValueCount { expected: usize, got: usize },
}

/// The character for a single decimal digit.
pub open spec fn digit_char(d: int) -> char {
    if d == 0 {
        '0'
    } else if d == 1 {
        '1'
    } else if d == 2 {
        '2'
    } else if d == 3 {
        '3'
    } else if d == 4 {
        '4'
    } else if d == 5 {
        '5'
    } else if d == 6 {
        '6'
    } else if d == 7 {
        '7'
    } else if d == 8 {
        '8'
    } else {
        '9'
    }
}

/// The decimal digits of `n`, most significant first.
pub open spec fn dec_digits(n: nat) -> Seq<char>
    decreases n,
{
    if n < 10 {
        seq![digit_char(n as int)]
    } else {
        dec_digits(n / 10) + seq![digit_char((n % 10) as int)]
    }
}

impl ShapeMismatch {
    /// The count the structure demanded.
    pub open spec fn spec_expected(self) -> usize {
        match self {
            ShapeMismatch::WeightVectorCount { expected, .. } => expected,
            ShapeMismatch::WeightCount { expected, .. } => expected,
            ShapeMismatch::ValueCount { expected, .. } => expected,
        }
    }

    /// The count that was provided.
    pub open spec fn spec_got(self) -> usize {
        match self {
            ShapeMismatch::WeightVectorCount { got, .. } => got,
            ShapeMismatch::WeightCount { got, .. } => got,
            ShapeMismatch::ValueCount { got, .. } => got,
        }
    }

    /// The exact report for this mismatch.
    pub open spec fn spec_message(self) -> Seq<char> {
        let head = match self {
            ShapeMismatch::WeightVectorCount { .. } => {
                "Number of incoming weight vectors does not equal number of neurons. Expected "@
            },
            ShapeMismatch::WeightCount { .. } => {
                "Number of neuron weights does not equal incoming weights. Expected "@
            },
            ShapeMismatch::ValueCount { .. } => {
                "Number of neurons does not equal the number of values given to the function. Expected "@
            },
        };
        head + dec_digits(self.spec_expected() as nat) + ", got "@ + dec_digits(
            self.spec_got() as nat,
        )
    }

    /// Render the report, exactly as `spec_message` states it.
    pub fn message(&self) -> (r: String)
        ensures
            r@ == self.spec_message(),
    {
        let mut out = String::new();
        match self {
            ShapeMismatch::WeightVectorCount { .. } => {
                out.append(
                    "Number of incoming weight vectors does not equal number of neurons. Expected ",
                );
            },
            ShapeMismatch::WeightCount { .. } => {
                out.append("Number of neuron weights does not equal incoming weights. Expected ");
            },
            ShapeMismatch::ValueCount { .. } => {
                out.append(
                    "Number of neurons does not equal the number of values given to the function. Expected ",
                );
            },
        }
        let expected: usize = match self {
            ShapeMismatch::WeightVectorCount { expected, .. } => *expected,
            ShapeMismatch::WeightCount { expected, .. } => *expected,
            ShapeMismatch::ValueCount { expected, .. } => *expected,
        };
        let got: usize = match self {
            ShapeMismatch::WeightVectorCount { got, .. } => *got,
            ShapeMismatch::WeightCount { got, .. } => *got,
            ShapeMismatch::ValueCount { got, .. } => *got,
        };
        let e_digits = usize_to_string(expected);
        out.append(e_digits.as_str());
        out.append(", got ");
        let g_digits = usize_to_string(got);
        out.append(g_digits.as_str());
        assert(out@ =~= self.spec_message());
        out
    }
}

/// A one-character string for a single decimal digit.
fn digit_str(d: usize) -> (r: &'static str)
    requires
        d < 10,
    ensures
        r@ == seq![digit_char(d as int)],
{
    proof {
        reveal_strlit("0");
        reveal_strlit("1");
        reveal_strlit("2");
        reveal_strlit("3");
        reveal_strlit("4");
        reveal_strlit("5");
        reveal_strlit("6");
        reveal_strlit("7");
        reveal_strlit("8");
        reveal_strlit("9");
    }
    let r: &'static str = if d == 0 {
        "0"
    } else if d == 1 {
        "1"
    } else if d == 2 {
        "2"
    } else if d == 3 {
        "3"
    } else if d == 4 {
        "4"
    } else if d == 5 {
        "5"
    } else if d == 6 {
        "6"
    } else if d == 7 {
        "7"
    } else if d == 8 {
        "8"
    } else {
        "9"
    };
    assert(r@ =~= seq![digit_char(d as int)]);
    r
}

/// The decimal rendering of `n`.
pub fn usize_to_string(n: usize) -> (r: String)
    ensures
        r@ == dec_digits(n as nat),
    decreases n,
{
    let d: usize = n % 10;
    if n < 10 {
        let mut out = String::new();
        out.append(digit_str(d));
        assert(out@ =~= dec_digits(n as nat));
        out
    } else {
        let mut out = usize_to_string(n / 10);
        out.append(digit_str(d));
        assert(out@ =~= dec_digits(n as nat));
        out
    }
}

} // verus!
