//! The arithmetic of the language. Numbers are doubles; the whole numbers
//! that a double holds exactly are computed here, and what is left is handed
//! to an implementation of `Doubles`.

use vstd::prelude::*;
use crate::model::PrimitiveData;
use crate::model::PrimitiveView;

verus! {

/// The arithmetic operations.
#[derive(Debug, Clone, Copy, PartialEq, Eq)]
pub enum Operator {
    Add,
    Sub,
    Mult,
    Div,
    Modulo,
}

/// Two to the power of 53. Every whole number up to it, in either direction,
/// is a double, and so are the sum, the difference and the product of two
/// of them where they do not go beyond it.
pub const EXACT_LIMIT: i64 = 9007199254740992;

/// Double-precision arithmetic, on the bit patterns of doubles.
pub trait Doubles {
    /// The bit pattern of the double nearest to `value`.
    fn from_int(&self, value: i64) -> u64;

    /// The bit pattern of what `operator` makes of the doubles with the bit
    /// patterns `left` and `right`.
    fn apply(&self, operator: Operator, left: u64, right: u64) -> u64;

    /// The double with the bit pattern `bits` as an integer, where it is
    /// finite and whole.
    fn whole(&self, bits: u64) -> Option<i64>;
}

/// Whether `value` is a whole number that a double holds exactly.
pub open spec fn is_exact(value: int) -> bool {
    -EXACT_LIMIT <= value <= EXACT_LIMIT
}

pub open spec fn magnitude(value: int) -> int {
    if value < 0 {
        -value
    } else {
        value
    }
}

/// The quotient of `a` by `b`, rounded toward zero.
pub open spec fn quotient_toward_zero(a: int, b: int) -> int
    recommends
        b != 0,
{
    let q = magnitude(a) / magnitude(b);
    if (a < 0) != (b < 0) {
        -q
    } else {
        q
    }
}

/// What is left of `a` when `b` is taken from it as often as the quotient
/// rounded toward zero says; it has the sign of `a`.
pub open spec fn remainder_toward_zero(a: int, b: int) -> int
    recommends
        b != 0,
{
    let r = magnitude(a) % magnitude(b);
    if a < 0 {
        -r
    } else {
        r
    }
}

/// What `operator` makes of two whole numbers, where that is a whole number
/// which a double holds exactly. Nothing divides by zero, and a quotient
/// that is not whole is none.
pub open spec fn combine_exact(operator: Operator, a: int, b: int) -> Option<int> {
    match operator {
        Operator::Add => if is_exact(a + b) {
            Some(a + b)
        } else {
            None
        },
        Operator::Sub => if is_exact(a - b) {
            Some(a - b)
        } else {
            None
        },
        Operator::Mult => if is_exact(a * b) {
            Some(a * b)
        } else {
            None
        },
        Operator::Div => if b != 0 && remainder_toward_zero(a, b) == 0 {
            Some(quotient_toward_zero(a, b))
        } else {
            None
        },
        Operator::Modulo => if b != 0 {
            Some(remainder_toward_zero(a, b))
        } else {
            None
        },
    }
}

/// What `operator` makes of `operands`, taken pairwise from the left, where
/// there is at least one of them, each is a whole number and so is each
/// result on the way.
pub open spec fn fold_exact(operator: Operator, operands: Seq<Option<int>>) -> Option<int>
    decreases operands.len(),
{
    if operands.len() <= 1 {
        if operands.len() == 1 {
            operands[0]
        } else {
            None
        }
    } else {
        match (fold_exact(operator, operands.drop_last()), operands.last()) {
            (Some(a), Some(b)) => combine_exact(operator, a, b),
            _ => None,
        }
    }
}

/// Where a quotient is whole, it is the number that gives the dividend when
/// it is multiplied by the divisor; and a remainder is what the quotient
/// leaves.
pub proof fn lemma_division_toward_zero(a: int, b: int)
    requires
        b != 0,
    ensures
        a == quotient_toward_zero(a, b) * b + remainder_toward_zero(a, b),
        magnitude(remainder_toward_zero(a, b)) < magnitude(b),
        magnitude(quotient_toward_zero(a, b)) <= magnitude(a),
{
    let x = magnitude(a);
    let y = magnitude(b);
    let q = x / y;
    let r = x % y;
    assert(x == q * y + r && 0 <= r < y && 0 <= q <= x) by (nonlinear_arith)
        requires
            x >= 0,
            y > 0,
            q == x / y,
            r == x % y,
    ;
    assert((-q) * y == -(q * y) && q * (-y) == -(q * y) && (-q) * (-y) == q * y)
        by (nonlinear_arith);
}

/// A number on its way through a computation: a whole number that a double
/// holds exactly, or the bit pattern of a double.
#[derive(Debug, Clone, Copy)]
pub enum Number {
    Whole(i64),
    Bits(u64),
}

impl Number {
    pub open spec fn wf(self) -> bool {
        self matches Number::Whole(value) ==> is_exact(value as int)
    }

    /// The whole number, where it is one.
    pub open spec fn exact_value(self) -> Option<int> {
        match self {
            Number::Whole(value) => Some(value as int),
            Number::Bits(_) => None,
        }
    }
}

/// The whole numbers among `numbers`, each at its place.
pub open spec fn exact_values(numbers: Seq<Number>) -> Seq<Option<int>> {
    Seq::new(numbers.len(), |i: int| numbers[i].exact_value())
}

fn magnitude_of(value: i64) -> (r: u64)
    requires
        is_exact(value as int),
    ensures
        r == magnitude(value as int),
{
    if value < 0 {
        (0 - value) as u64
    } else {
        value as u64
    }
}

/// Computes what `operator` makes of two whole numbers, where that is exact.
pub fn combine_whole(operator: Operator, a: i64, b: i64) -> (r: Option<i64>)
    requires
        is_exact(a as int),
        is_exact(b as int),
    ensures
        match r {
            Some(value) => combine_exact(operator, a as int, b as int) == Some(value as int),
            None => combine_exact(operator, a as int, b as int) is None,
        },
{
    let limit: i128 = EXACT_LIMIT as i128;
    let x: i128 = a as i128;
    let y: i128 = b as i128;
    match operator {
        Operator::Add => {
            let sum: i128 = x + y;
            if 0 - limit <= sum && sum <= limit {
                Some(sum as i64)
            } else {
                None
            }
        },
        Operator::Sub => {
            let difference: i128 = x - y;
            if 0 - limit <= difference && difference <= limit {
                Some(difference as i64)
            } else {
                None
            }
        },
        Operator::Mult => {
            assert(-(9007199254740992 * 9007199254740992) <= x * y <= 9007199254740992
                * 9007199254740992) by (nonlinear_arith)
                requires
                    -9007199254740992 <= x <= 9007199254740992,
                    -9007199254740992 <= y <= 9007199254740992,
            ;
            let product: i128 = x * y;
            if 0 - limit <= product && product <= limit {
                Some(product as i64)
            } else {
                None
            }
        },
        Operator::Div => {
            if b == 0 {
                return None;
            }
            let dividend: u64 = magnitude_of(a);
            let divisor: u64 = magnitude_of(b);
            if dividend % divisor != 0 {
                return None;
            }
            let q: u64 = dividend / divisor;
            proof {
                lemma_division_toward_zero(a as int, b as int);
            }
            if (a < 0) != (b < 0) {
                Some(0 - (q as i64))
            } else {
                Some(q as i64)
            }
        },
        Operator::Modulo => {
            if b == 0 {
                return None;
            }
            let dividend: u64 = magnitude_of(a);
            let divisor: u64 = magnitude_of(b);
            let r: u64 = dividend % divisor;
            proof {
                lemma_division_toward_zero(a as int, b as int);
            }
            if a < 0 {
                Some(0 - (r as i64))
            } else {
                Some(r as i64)
            }
        },
    }
}

/// Computes what `operator` makes of two numbers: here where both are whole
/// and the result is exact, else by `doubles`.
pub fn combine<D: Doubles>(operator: Operator, left: Number, right: Number, doubles: &D) -> (r:
    Number)
    requires
        left.wf(),
        right.wf(),
    ensures
        r.wf(),
        r.exact_value() == match (left.exact_value(), right.exact_value()) {
            (Some(a), Some(b)) => combine_exact(operator, a, b),
            _ => None,
        },
{
    if let Number::Whole(a) = left {
        if let Number::Whole(b) = right {
            if let Some(value) = combine_whole(operator, a, b) {
                proof {
                    if b != 0 {
                        lemma_division_toward_zero(a as int, b as int);
                    }
                }
                return Number::Whole(value);
            }
        }
    }
    let x = match left {
        Number::Whole(a) => doubles.from_int(a),
        Number::Bits(bits) => bits,
    };
    let y = match right {
        Number::Whole(b) => doubles.from_int(b),
        Number::Bits(bits) => bits,
    };
    Number::Bits(doubles.apply(operator, x, y))
}

/// Computes what `operator` makes of `operands`, taken pairwise from the
/// left.
pub fn fold_numbers<D: Doubles>(operator: Operator, operands: &Vec<Number>, doubles: &D) -> (r:
    Number)
    requires
        operands@.len() > 0,
        forall|i: int| 0 <= i < operands@.len() ==> (#[trigger] operands@[i]).wf(),
    ensures
        r.wf(),
        r.exact_value() == fold_exact(operator, exact_values(operands@)),
{
    let mut acc: Number = operands[0];
    let mut i: usize = 1;
    assert(exact_values(operands@).take(1) =~= seq![operands@[0].exact_value()]);
    while i < operands.len()
        invariant
            1 <= i <= operands@.len(),
            acc.wf(),
            forall|i: int| 0 <= i < operands@.len() ==> (#[trigger] operands@[i]).wf(),
            acc.exact_value() == fold_exact(operator, exact_values(operands@).take(i as int)),
        decreases operands@.len() - i,
    {
        proof {
            let all = exact_values(operands@);
            assert(all.take(i + 1).drop_last() =~= all.take(i as int));
            assert(all.take(i + 1).last() == operands@[i as int].exact_value());
        }
        acc = combine(operator, acc, operands[i], doubles);
        i += 1;
    }
    assert(exact_values(operands@).take(i as int) =~= exact_values(operands@));
    acc
}

/// The result of a computation that ended in the double with the bit
/// pattern `bits`, of which `whole` says whether it is finite and whole, and
/// which integer it then is: this integer, or else the double.
pub fn normalized(whole: Option<i64>, bits: u64) -> (r: PrimitiveData)
    ensures
        r@ == match whole {
            Some(value) => PrimitiveView::Int(value),
            None => PrimitiveView::Float(bits),
        },
{
    match whole {
        Some(value) => PrimitiveData::Int(value),
        None => PrimitiveData::Float(bits),
    }
}

/// The result of a computation that ended in `number`: an integer where the
/// number is whole, else a double.
pub fn finish<D: Doubles>(number: Number, doubles: &D) -> (r: PrimitiveData)
    ensures
        number matches Number::Whole(value) ==> r@ == PrimitiveView::Int(value),
        r@ is Int || r@ is Float,
{
    match number {
        Number::Whole(value) => PrimitiveData::Int(value),
        Number::Bits(bits) => normalized(doubles.whole(bits), bits),
    }
}

} // verus!
