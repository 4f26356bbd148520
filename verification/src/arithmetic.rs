//! Arithmetic expressions on 64-bit whole numbers.

use crate::state::{ShellState, StateView};
use crate::syntax::{
    Arithmetic, ArithmeticPart, AssignmentOp, BinaryArithmeticOp, BinaryOp, PostArithmeticOp,
    UnaryArithmeticOp,
};
use crate::text::{decimal, number_text, parse_number, read_number};
use crate::types::{changes_view, extend_changes, push_change, EnvChange, EnvChangeView};
use vstd::arithmetic::power::pow;
use vstd::prelude::*;

verus! {

/// The value of an arithmetic expression.
#[derive(Debug, Clone, Copy, PartialEq, Eq, Structural)]
pub enum ArithmeticValue {
    Integer(i64),
}

/// The value of an arithmetic expression, and the assignments that it made.
#[derive(Debug)]
pub struct ArithmeticResult {
    pub value: ArithmeticValue,
    pub changes: Vec<EnvChange>,
}

/// What an [`ArithmeticResult`] says.
#[verifier::ext_equal]
pub struct ArithmeticView {
    pub value: i64,
    pub changes: Seq<EnvChangeView>,
}

impl View for ArithmeticResult {
    type V = ArithmeticView;

    open spec fn view(&self) -> ArithmeticView {
        ArithmeticView { value: self.value->Integer_0, changes: changes_view(self.changes@) }
    }
}

/// Why an arithmetic expression has no value.
#[derive(Debug)]
pub enum ArithmeticError {
    /// A variable that is assigned to in place is not set.
    UndefinedVariable(String),
    /// A variable that is assigned to in place holds no number.
    UnparsableVariable(String, String),
    /// A variable that is read is not set, or holds no number.
    NonIntegerVariable(String),
    /// A number that is written out is none.
    InvalidNumber(String),
    /// The value does not fit in 64 bits.
    Overflow,
    DivisionByZero,
    NegativeExponent,
    /// A shift by a negative number of bits, or by more than there are.
    ShiftOutOfRange,
}

/// What an [`ArithmeticError`] says.
#[verifier::ext_equal]
pub enum ArithmeticErrorView {
    UndefinedVariable(Seq<char>),
    UnparsableVariable(Seq<char>, Seq<char>),
    NonIntegerVariable(Seq<char>),
    InvalidNumber(Seq<char>),
    Overflow,
    DivisionByZero,
    NegativeExponent,
    ShiftOutOfRange,
}

impl View for ArithmeticError {
    type V = ArithmeticErrorView;

    open spec fn view(&self) -> ArithmeticErrorView {
        match self {
            ArithmeticError::UndefinedVariable(name) => ArithmeticErrorView::UndefinedVariable(
                name@,
            ),
            ArithmeticError::UnparsableVariable(
                name,
                value,
            ) => ArithmeticErrorView::UnparsableVariable(name@, value@),
            ArithmeticError::NonIntegerVariable(name) => ArithmeticErrorView::NonIntegerVariable(
                name@,
            ),
            ArithmeticError::InvalidNumber(number) => ArithmeticErrorView::InvalidNumber(number@),
            ArithmeticError::Overflow => ArithmeticErrorView::Overflow,
            ArithmeticError::DivisionByZero => ArithmeticErrorView::DivisionByZero,
            ArithmeticError::NegativeExponent => ArithmeticErrorView::NegativeExponent,
            ArithmeticError::ShiftOutOfRange => ArithmeticErrorView::ShiftOutOfRange,
        }
    }
}

/// What the outcome of an evaluation says.
pub open spec fn outcome_view(r: Result<ArithmeticResult, ArithmeticError>) -> Result<
    ArithmeticView,
    ArithmeticErrorView,
> {
    match r {
        Ok(a) => Ok(a@),
        Err(e) => Err(e@),
    }
}

/// What the outcome of an operation on two numbers says.
pub open spec fn number_view(r: Result<i64, ArithmeticError>) -> Result<i64, ArithmeticErrorView> {
    match r {
        Ok(n) => Ok(n),
        Err(e) => Err(e@),
    }
}

// ---------------------------------------------------------------------------
// Operations on numbers

/// `n`, where it fits in 64 bits.
pub open spec fn fitted(n: int) -> Result<i64, ArithmeticErrorView> {
    if i64::MIN <= n <= i64::MAX {
        Ok(n as i64)
    } else {
        Err(ArithmeticErrorView::Overflow)
    }
}

/// The quotient of `a` and `b`, rounded towards zero.
pub open spec fn quotient(a: int, b: int) -> int {
    let size = (if a < 0 { -a } else { a }) / (if b < 0 { -b } else { b });
    if (a < 0) == (b < 0) {
        size
    } else {
        -size
    }
}

/// What is left of `a` after division by `b`: it has the sign of `a`.
pub open spec fn remainder(a: int, b: int) -> int {
    let size = (if a < 0 { -a } else { a }) % (if b < 0 { -b } else { b });
    if a < 0 {
        -size
    } else {
        size
    }
}

/// The number that stands for a truth value.
pub open spec fn truth(b: bool) -> i64 {
    if b {
        1
    } else {
        0
    }
}

/// The value of `l op r`, for the operators that compute with both numbers.
pub open spec fn binary_value(l: i64, op: BinaryArithmeticOp, r: i64) -> Result<
    i64,
    ArithmeticErrorView,
> {
    match op {
        BinaryArithmeticOp::Add => fitted(l + r),
        BinaryArithmeticOp::Subtract => fitted(l - r),
        BinaryArithmeticOp::Multiply => fitted(l * r),
        BinaryArithmeticOp::Divide => if r == 0 {
            Err(ArithmeticErrorView::DivisionByZero)
        } else {
            fitted(quotient(l as int, r as int))
        },
        BinaryArithmeticOp::Modulo => if r == 0 {
            Err(ArithmeticErrorView::DivisionByZero)
        } else if l == i64::MIN && r == -1 {
            Err(ArithmeticErrorView::Overflow)
        } else {
            fitted(remainder(l as int, r as int))
        },
        BinaryArithmeticOp::Power => if r < 0 {
            Err(ArithmeticErrorView::NegativeExponent)
        } else {
            fitted(pow(l as int, r as nat))
        },
        BinaryArithmeticOp::LeftShift => if 0 <= r < 64 {
            Ok(l << r)
        } else {
            Err(ArithmeticErrorView::ShiftOutOfRange)
        },
        BinaryArithmeticOp::RightShift => if 0 <= r < 64 {
            Ok(l >> r)
        } else {
            Err(ArithmeticErrorView::ShiftOutOfRange)
        },
        BinaryArithmeticOp::BitwiseAnd => Ok(l & r),
        BinaryArithmeticOp::BitwiseXor => Ok(l ^ r),
        BinaryArithmeticOp::BitwiseOr => Ok(l | r),
        BinaryArithmeticOp::LogicalAnd => Ok(truth(!(l == 0 && r == 0))),
        BinaryArithmeticOp::LogicalOr => Ok(truth(l != 0 || r != 0)),
    }
}

proof fn lemma_power_stays_large(b: int, i: nat, j: nat)
    requires
        b >= 2 || b <= -2,
        i <= j,
        pow(b, i) >= 0x8000_0000_0000_0000 || pow(b, i) < -0x8000_0000_0000_0000,
    ensures
        pow(b, j) >= 0x8000_0000_0000_0000 || pow(b, j) < -0x8000_0000_0000_0000,
        i < j ==> (pow(b, j) >= 0x1_0000_0000_0000_0000 || pow(b, j) <= -0x1_0000_0000_0000_0000),
    decreases j,
{
    reveal(pow);
    if i < j {
        lemma_power_stays_large(b, i, (j - 1) as nat);
        let p = pow(b, (j - 1) as nat);
        assert(pow(b, j) == b * p);
        assert(b * p >= 0x1_0000_0000_0000_0000 || b * p <= -0x1_0000_0000_0000_0000)
            by (nonlinear_arith)
            requires
                b >= 2 || b <= -2,
                p >= 0x8000_0000_0000_0000 || p < -0x8000_0000_0000_0000,
        ;
    }
}

proof fn lemma_power_of_small_base(b: int, e: nat)
    requires
        -1 <= b <= 1,
        e > 0,
    ensures
        b == 0 ==> pow(b, e) == 0,
        b == 1 ==> pow(b, e) == 1,
        b == -1 ==> pow(b, e) == (if e % 2 == 0 { 1int } else { -1 }),
    decreases e,
{
    reveal(pow);
    if e > 1 {
        lemma_power_of_small_base(b, (e - 1) as nat);
    } else {
        assert(pow(b, 0) == 1);
    }
}

/// `base` to the power of `exponent`.
fn power(base: i64, exponent: i64) -> (r: Option<i64>)
    requires
        exponent >= 0,
    ensures
        match r {
            Some(n) => n == pow(base as int, exponent as nat),
            None => !(i64::MIN <= pow(base as int, exponent as nat) <= i64::MAX),
        },
{
    reveal(pow);
    if exponent == 0 {
        return Some(1);
    }
    if base == 0 || base == 1 {
        proof {
            lemma_power_of_small_base(base as int, exponent as nat);
        }
        return Some(base);
    }
    if base == -1 {
        proof {
            lemma_power_of_small_base(base as int, exponent as nat);
        }
        return Some(if exponent % 2 == 0 { 1 } else { -1 });
    }
    let mut product: i64 = 1;
    let mut i: i64 = 0;
    while i < exponent
        invariant
            0 <= i <= exponent,
            base >= 2 || base <= -2,
            product == pow(base as int, i as nat),
        decreases exponent - i,
    {
        assert(pow(base as int, (i + 1) as nat) == base * product) by {
            reveal(pow);
        }
        match base.checked_mul(product) {
            Some(next) => {
                product = next;
            },
            None => {
                proof {
                    lemma_power_stays_large(base as int, (i + 1) as nat, exponent as nat);
                }
                return None;
            },
        }
        i += 1;
    }
    Some(product)
}

/// The number, or the error where there is none.
fn fit(n: Option<i64>) -> (r: Result<i64, ArithmeticError>)
    ensures
        number_view(r) == (match n {
            Some(n) => Ok::<i64, ArithmeticErrorView>(n),
            None => Err(ArithmeticErrorView::Overflow),
        }),
{
    match n {
        Some(n) => Ok(n),
        None => Err(ArithmeticError::Overflow),
    }
}

/// The outcome of an operation on two results: its number, with the assignments that both made.
pub open spec fn combined(
    l: ArithmeticView,
    r: ArithmeticView,
    value: Result<i64, ArithmeticErrorView>,
) -> Result<ArithmeticView, ArithmeticErrorView> {
    match value {
        Ok(n) => Ok(ArithmeticView { value: n, changes: l.changes + r.changes }),
        Err(e) => Err(e),
    }
}

impl ArithmeticResult {
    /// A value that no assignment led to.
    pub fn new(value: ArithmeticValue) -> (r: Self)
        ensures
            r@ == (ArithmeticView { value: value->Integer_0, changes: seq![] }),
    {
        ArithmeticResult { value, changes: Vec::new() }
    }

    /// The number.
    pub fn number(&self) -> (r: i64)
        ensures
            r == self@.value,
    {
        match self.value {
            ArithmeticValue::Integer(n) => n,
        }
    }

    /// Whether the value is zero.
    pub fn is_zero(&self) -> (r: bool)
        ensures
            r == (self@.value == 0),
    {
        self.number() == 0
    }

    /// The value in decimal.
    pub fn to_text(&self) -> (r: String)
        ensures
            r@ == decimal(self@.value as int),
    {
        number_text(self.number())
    }

    /// The number that `s` writes.
    pub fn from_text(s: &str) -> (r: Option<Self>)
        ensures
            match r {
                Some(a) => parse_number(s@) == Some(a@.value) && a@.changes == Seq::<
                    EnvChangeView,
                >::empty(),
                None => parse_number(s@) is None,
            },
    {
        match read_number(s) {
            Some(n) => Some(ArithmeticResult::new(ArithmeticValue::Integer(n))),
            None => None,
        }
    }

    /// Gives the result another value.
    pub fn set_value(&mut self, value: ArithmeticValue)
        ensures
            final(self)@ == (ArithmeticView { value: value->Integer_0, ..old(self)@ }),
    {
        self.value = value;
    }

    /// Adds assignments to those that led to the value.
    pub fn with_changes(&mut self, changes: Vec<EnvChange>)
        ensures
            final(self)@ == (ArithmeticView {
                changes: old(self)@.changes + changes_view(changes@),
                ..old(self)@
            }),
    {
        extend_changes(&mut self.changes, changes);
    }

    fn combine(self, other: ArithmeticResult, value: Result<i64, ArithmeticError>) -> (r: Result<
        ArithmeticResult,
        ArithmeticError,
    >)
        ensures
            outcome_view(r) == combined(self@, other@, number_view(value)),
    {
        match value {
            Ok(n) => {
                let mut changes = self.changes;
                extend_changes(&mut changes, other.changes);
                Ok(ArithmeticResult { value: ArithmeticValue::Integer(n), changes })
            },
            Err(e) => Err(e),
        }
    }

    pub fn checked_add(self, other: ArithmeticResult) -> (r: Result<
        ArithmeticResult,
        ArithmeticError,
    >)
        ensures
            outcome_view(r) == combined(
                self@,
                other@,
                binary_value(self@.value, BinaryArithmeticOp::Add, other@.value),
            ),
    {
        let value = fit(self.number().checked_add(other.number()));
        self.combine(other, value)
    }

    pub fn checked_sub(self, other: ArithmeticResult) -> (r: Result<
        ArithmeticResult,
        ArithmeticError,
    >)
        ensures
            outcome_view(r) == combined(
                self@,
                other@,
                binary_value(self@.value, BinaryArithmeticOp::Subtract, other@.value),
            ),
    {
        let value = fit(self.number().checked_sub(other.number()));
        self.combine(other, value)
    }

    pub fn checked_mul(self, other: ArithmeticResult) -> (r: Result<
        ArithmeticResult,
        ArithmeticError,
    >)
        ensures
            outcome_view(r) == combined(
                self@,
                other@,
                binary_value(self@.value, BinaryArithmeticOp::Multiply, other@.value),
            ),
    {
        let value = fit(self.number().checked_mul(other.number()));
        self.combine(other, value)
    }

    pub fn checked_div(self, other: ArithmeticResult) -> (r: Result<
        ArithmeticResult,
        ArithmeticError,
    >)
        ensures
            outcome_view(r) == combined(
                self@,
                other@,
                binary_value(self@.value, BinaryArithmeticOp::Divide, other@.value),
            ),
    {
        let value = if other.is_zero() {
            Err(ArithmeticError::DivisionByZero)
        } else {
            fit(self.number().checked_div(other.number()))
        };
        self.combine(other, value)
    }

    pub fn checked_rem(self, other: ArithmeticResult) -> (r: Result<
        ArithmeticResult,
        ArithmeticError,
    >)
        ensures
            outcome_view(r) == combined(
                self@,
                other@,
                binary_value(self@.value, BinaryArithmeticOp::Modulo, other@.value),
            ),
    {
        let value = if other.is_zero() {
            Err(ArithmeticError::DivisionByZero)
        } else {
            fit(self.number().checked_rem(other.number()))
        };
        self.combine(other, value)
    }

    pub fn checked_pow(self, other: ArithmeticResult) -> (r: Result<
        ArithmeticResult,
        ArithmeticError,
    >)
        ensures
            outcome_view(r) == combined(
                self@,
                other@,
                binary_value(self@.value, BinaryArithmeticOp::Power, other@.value),
            ),
    {
        let value = if other.number() < 0 {
            Err(ArithmeticError::NegativeExponent)
        } else {
            fit(power(self.number(), other.number()))
        };
        self.combine(other, value)
    }

    pub fn checked_shl(self, other: ArithmeticResult) -> (r: Result<
        ArithmeticResult,
        ArithmeticError,
    >)
        ensures
            outcome_view(r) == combined(
                self@,
                other@,
                binary_value(self@.value, BinaryArithmeticOp::LeftShift, other@.value),
            ),
    {
        let bits = other.number();
        let value = if 0 <= bits && bits < 64 {
            Ok(self.number() << bits)
        } else {
            Err(ArithmeticError::ShiftOutOfRange)
        };
        self.combine(other, value)
    }

    pub fn checked_shr(self, other: ArithmeticResult) -> (r: Result<
        ArithmeticResult,
        ArithmeticError,
    >)
        ensures
            outcome_view(r) == combined(
                self@,
                other@,
                binary_value(self@.value, BinaryArithmeticOp::RightShift, other@.value),
            ),
    {
        let bits = other.number();
        let value = if 0 <= bits && bits < 64 {
            Ok(self.number() >> bits)
        } else {
            Err(ArithmeticError::ShiftOutOfRange)
        };
        self.combine(other, value)
    }

    pub fn checked_and(self, other: ArithmeticResult) -> (r: Result<
        ArithmeticResult,
        ArithmeticError,
    >)
        ensures
            outcome_view(r) == combined(
                self@,
                other@,
                binary_value(self@.value, BinaryArithmeticOp::BitwiseAnd, other@.value),
            ),
    {
        let value = Ok(self.number() & other.number());
        self.combine(other, value)
    }

    pub fn checked_xor(self, other: ArithmeticResult) -> (r: Result<
        ArithmeticResult,
        ArithmeticError,
    >)
        ensures
            outcome_view(r) == combined(
                self@,
                other@,
                binary_value(self@.value, BinaryArithmeticOp::BitwiseXor, other@.value),
            ),
    {
        let value = Ok(self.number() ^ other.number());
        self.combine(other, value)
    }

    pub fn checked_or(self, other: ArithmeticResult) -> (r: Result<
        ArithmeticResult,
        ArithmeticError,
    >)
        ensures
            outcome_view(r) == combined(
                self@,
                other@,
                binary_value(self@.value, BinaryArithmeticOp::BitwiseOr, other@.value),
            ),
    {
        let value = Ok(self.number() | other.number());
        self.combine(other, value)
    }

    pub fn checked_neg(self) -> (r: Result<ArithmeticResult, ArithmeticError>)
        ensures
            outcome_view(r) == unary_outcome(UnaryArithmeticOp::Minus, self@),
    {
        if self.number() == i64::MIN {
            Err(ArithmeticError::Overflow)
        } else {
            Ok(
                ArithmeticResult {
                    value: ArithmeticValue::Integer(-self.number()),
                    changes: self.changes,
                },
            )
        }
    }

    pub fn checked_not(self) -> (r: Result<ArithmeticResult, ArithmeticError>)
        ensures
            outcome_view(r) == unary_outcome(UnaryArithmeticOp::BitwiseNot, self@),
    {
        let n: i64 = self.number();
        Ok(ArithmeticResult { value: ArithmeticValue::Integer(!n), changes: self.changes })
    }
}

/// The outcome of `l op r`. The logical operators forget the assignments that their operands
/// made; the others keep them.
pub open spec fn binary_outcome(l: ArithmeticView, op: BinaryArithmeticOp, r: ArithmeticView) -> Result<
    ArithmeticView,
    ArithmeticErrorView,
> {
    let value = binary_value(l.value, op, r.value);
    if op == BinaryArithmeticOp::LogicalAnd || op == BinaryArithmeticOp::LogicalOr {
        Ok(ArithmeticView { value: value->Ok_0, changes: seq![] })
    } else {
        combined(l, r, value)
    }
}

/// Whether `l op r` holds.
pub open spec fn compares(l: int, op: BinaryOp, r: int) -> bool {
    match op {
        BinaryOp::Equal => l == r,
        BinaryOp::NotEqual => l != r,
        BinaryOp::LessThan => l < r,
        BinaryOp::LessThanOrEqual => l <= r,
        BinaryOp::GreaterThan => l > r,
        BinaryOp::GreaterThanOrEqual => l >= r,
    }
}

/// The outcome of `op v`. The logical operator forgets the assignments that its operand made.
pub open spec fn unary_outcome(op: UnaryArithmeticOp, v: ArithmeticView) -> Result<
    ArithmeticView,
    ArithmeticErrorView,
> {
    match op {
        UnaryArithmeticOp::Plus => Ok(v),
        UnaryArithmeticOp::Minus => match fitted(-v.value) {
            Ok(n) => Ok(ArithmeticView { value: n, ..v }),
            Err(e) => Err(e),
        },
        UnaryArithmeticOp::LogicalNot => Ok(
            ArithmeticView { value: truth(v.value == 0), changes: seq![] },
        ),
        UnaryArithmeticOp::BitwiseNot => Ok(ArithmeticView { value: !v.value, ..v }),
    }
}

fn truth_result(b: bool) -> (r: ArithmeticResult)
    ensures
        r@ == (ArithmeticView { value: truth(b), changes: seq![] }),
{
    if b {
        ArithmeticResult::new(ArithmeticValue::Integer(1))
    } else {
        ArithmeticResult::new(ArithmeticValue::Integer(0))
    }
}

/// Computes `lhs op rhs`.
pub fn apply_binary_op(lhs: ArithmeticResult, op: BinaryArithmeticOp, rhs: ArithmeticResult) -> (r:
    Result<ArithmeticResult, ArithmeticError>)
    ensures
        outcome_view(r) == binary_outcome(lhs@, op, rhs@),
{
    match op {
        BinaryArithmeticOp::Add => lhs.checked_add(rhs),
        BinaryArithmeticOp::Subtract => lhs.checked_sub(rhs),
        BinaryArithmeticOp::Multiply => lhs.checked_mul(rhs),
        BinaryArithmeticOp::Divide => lhs.checked_div(rhs),
        BinaryArithmeticOp::Modulo => lhs.checked_rem(rhs),
        BinaryArithmeticOp::Power => lhs.checked_pow(rhs),
        BinaryArithmeticOp::LeftShift => lhs.checked_shl(rhs),
        BinaryArithmeticOp::RightShift => lhs.checked_shr(rhs),
        BinaryArithmeticOp::BitwiseAnd => lhs.checked_and(rhs),
        BinaryArithmeticOp::BitwiseXor => lhs.checked_xor(rhs),
        BinaryArithmeticOp::BitwiseOr => lhs.checked_or(rhs),
        BinaryArithmeticOp::LogicalAnd => Ok(truth_result(!(lhs.is_zero() && rhs.is_zero()))),
        BinaryArithmeticOp::LogicalOr => Ok(truth_result(!lhs.is_zero() || !rhs.is_zero())),
    }
}

/// Compares two values: 1 where the comparison holds, 0 where it does not.
pub fn apply_conditional_binary_op(lhs: ArithmeticResult, op: &BinaryOp, rhs: ArithmeticResult) -> (r:
    Result<ArithmeticResult, ArithmeticError>)
    ensures
        outcome_view(r) == Ok::<ArithmeticView, ArithmeticErrorView>(
            ArithmeticView {
                value: truth(compares(lhs@.value as int, *op, rhs@.value as int)),
                changes: seq![],
            },
        ),
{
    let l = lhs.number();
    let r = rhs.number();
    Ok(
        truth_result(
            match op {
                BinaryOp::Equal => l == r,
                BinaryOp::NotEqual => l != r,
                BinaryOp::LessThan => l < r,
                BinaryOp::LessThanOrEqual => l <= r,
                BinaryOp::GreaterThan => l > r,
                BinaryOp::GreaterThanOrEqual => l >= r,
            },
        ),
    )
}

/// Computes `op val`.
pub fn apply_unary_op(op: UnaryArithmeticOp, val: ArithmeticResult) -> (r: Result<
    ArithmeticResult,
    ArithmeticError,
>)
    ensures
        outcome_view(r) == unary_outcome(op, val@),
{
    match op {
        UnaryArithmeticOp::Plus => Ok(val),
        UnaryArithmeticOp::Minus => val.checked_neg(),
        UnaryArithmeticOp::LogicalNot => Ok(truth_result(val.is_zero())),
        UnaryArithmeticOp::BitwiseNot => val.checked_not(),
    }
}

// ---------------------------------------------------------------------------
// Expressions

/// A state, and what an evaluation that led to it came to.
pub type Evaluated = (StateView, Result<ArithmeticView, ArithmeticErrorView>);

/// The operator that an assignment in place applies.
pub open spec fn assignment_operator(op: AssignmentOp) -> Option<BinaryArithmeticOp> {
    match op {
        AssignmentOp::Assign => None,
        AssignmentOp::MultiplyAssign => Some(BinaryArithmeticOp::Multiply),
        AssignmentOp::DivideAssign => Some(BinaryArithmeticOp::Divide),
        AssignmentOp::ModuloAssign => Some(BinaryArithmeticOp::Modulo),
        AssignmentOp::AddAssign => Some(BinaryArithmeticOp::Add),
        AssignmentOp::SubtractAssign => Some(BinaryArithmeticOp::Subtract),
        AssignmentOp::LeftShiftAssign => Some(BinaryArithmeticOp::LeftShift),
        AssignmentOp::RightShiftAssign => Some(BinaryArithmeticOp::RightShift),
        AssignmentOp::BitwiseAndAssign => Some(BinaryArithmeticOp::BitwiseAnd),
        AssignmentOp::BitwiseXorAssign => Some(BinaryArithmeticOp::BitwiseXor),
        AssignmentOp::BitwiseOrAssign => Some(BinaryArithmeticOp::BitwiseOr),
    }
}

/// The value that `name op= value` assigns: `value` itself, or `value` combined with what the
/// variable holds. The new value is the left operand.
pub open spec fn assigned_value(
    s: StateView,
    name: Seq<char>,
    op: AssignmentOp,
    value: ArithmeticView,
) -> Result<ArithmeticView, ArithmeticErrorView> {
    match assignment_operator(op) {
        None => Ok(value),
        Some(operator) => match s.var(name) {
            None => Err(ArithmeticErrorView::UndefinedVariable(name)),
            Some(text) => match parse_number(text) {
                None => Err(ArithmeticErrorView::UnparsableVariable(name, text)),
                Some(n) => combined(
                    value,
                    ArithmeticView { value: n, changes: seq![] },
                    binary_value(value.value, operator, n),
                ),
            },
        },
    }
}

/// What comes of assigning `value` to `name`.
pub open spec fn assignment(
    s: StateView,
    name: Seq<char>,
    value: Result<ArithmeticView, ArithmeticErrorView>,
) -> Evaluated {
    match value {
        Err(e) => (s, Err(e)),
        Ok(v) => {
            let text = decimal(v.value as int);
            (
                s.with_env_var(name, text),
                Ok(
                    ArithmeticView {
                        changes: v.changes.push(EnvChangeView::SetShellVar(name, text)),
                        ..v
                    },
                ),
            )
        },
    }
}

/// What an expression evaluates to, and the state that its assignments lead to.
pub open spec fn part_evaluated(part: ArithmeticPart, s: StateView) -> Evaluated
    decreases part,
{
    match part {
        ArithmeticPart::ParenthesesExpr(expr) => parts_evaluated(expr.parts@, s),
        ArithmeticPart::VariableAssignment { name, op, value } => {
            let (s1, r) = part_evaluated(*value, s);
            match r {
                Err(e) => (s1, Err(e)),
                Ok(v) => assignment(s1, name@, assigned_value(s1, name@, op, v)),
            }
        },
        ArithmeticPart::TripleConditionalExpr { condition, true_expr, false_expr } => {
            let (s1, r) = part_evaluated(*condition, s);
            match r {
                Err(e) => (s1, Err(e)),
                Ok(c) => if c.value == 0 {
                    part_evaluated(*true_expr, s1)
                } else {
                    part_evaluated(*false_expr, s1)
                },
            }
        },
        ArithmeticPart::BinaryArithmeticExpr { left, operator, right } => {
            let (s1, l) = part_evaluated(*left, s);
            match l {
                Err(e) => (s1, Err(e)),
                Ok(l) => {
                    let (s2, r) = part_evaluated(*right, s1);
                    match r {
                        Err(e) => (s2, Err(e)),
                        Ok(r) => (s2, binary_outcome(l, operator, r)),
                    }
                },
            }
        },
        ArithmeticPart::BinaryConditionalExpr { left, operator, right } => {
            let (s1, l) = part_evaluated(*left, s);
            match l {
                Err(e) => (s1, Err(e)),
                Ok(l) => {
                    let (s2, r) = part_evaluated(*right, s1);
                    match r {
                        Err(e) => (s2, Err(e)),
                        Ok(r) => (
                            s2,
                            Ok(
                                ArithmeticView {
                                    value: truth(
                                        compares(l.value as int, operator, r.value as int),
                                    ),
                                    changes: seq![],
                                },
                            ),
                        ),
                    }
                },
            }
        },
        ArithmeticPart::UnaryArithmeticExpr { operator, operand } => {
            let (s1, r) = part_evaluated(*operand, s);
            match r {
                Err(e) => (s1, Err(e)),
                Ok(v) => (s1, unary_outcome(operator, v)),
            }
        },
        ArithmeticPart::PostArithmeticExpr { operand, operator: _ } => part_evaluated(*operand, s),
        ArithmeticPart::Variable(name) => (
            s,
            match s.var(name@) {
                Some(text) => match parse_number(text) {
                    Some(n) => Ok(ArithmeticView { value: n, changes: seq![] }),
                    None => Err(ArithmeticErrorView::NonIntegerVariable(name@)),
                },
                None => Err(ArithmeticErrorView::NonIntegerVariable(name@)),
            },
        ),
        ArithmeticPart::Number(text) => (
            s,
            match parse_number(text@) {
                Some(n) => Ok(ArithmeticView { value: n, changes: seq![] }),
                None => Err(ArithmeticErrorView::InvalidNumber(text@)),
            },
        ),
    }
}

/// What expressions separated by commas evaluate to: the value of the last one, with the
/// assignments of all. The first error ends the evaluation.
pub open spec fn parts_evaluated(parts: Seq<ArithmeticPart>, s: StateView) -> Evaluated
    decreases parts,
{
    if parts.len() == 0 {
        (s, Ok(ArithmeticView { value: 0, changes: seq![] }))
    } else {
        let (s1, before) = parts_evaluated(parts.drop_last(), s);
        match before {
            Err(e) => (s1, Err(e)),
            Ok(b) => {
                let (s2, last) = part_evaluated(parts.last(), s1);
                match last {
                    Err(e) => (s2, Err(e)),
                    Ok(l) => (
                        s2,
                        Ok(ArithmeticView { value: l.value, changes: b.changes + l.changes }),
                    ),
                }
            },
        }
    }
}

proof fn lemma_error_ends_evaluation(parts: Seq<ArithmeticPart>, k: int, s: StateView)
    requires
        0 <= k <= parts.len(),
        parts_evaluated(parts.take(k), s).1 is Err,
    ensures
        parts_evaluated(parts, s) == parts_evaluated(parts.take(k), s),
    decreases parts.len(),
{
    if k < parts.len() {
        assert(parts.drop_last().take(k) == parts.take(k));
        lemma_error_ends_evaluation(parts.drop_last(), k, s);
    } else {
        assert(parts.take(k) == parts);
    }
}

/// Evaluates expressions separated by commas. Their assignments change `state` as they come,
/// also where an error follows.
pub fn evaluate_arithmetic(arithmetic: &Arithmetic, state: &mut ShellState) -> (r: Result<
    ArithmeticResult,
    ArithmeticError,
>)
    ensures
        (final(state)@, outcome_view(r)) == parts_evaluated(arithmetic.parts@, old(state)@),
    decreases arithmetic,
{
    let mut result = ArithmeticResult::new(ArithmeticValue::Integer(0));
    let ghost parts = arithmetic.parts@;
    let ghost start = state@;
    let mut i: usize = 0;
    assert(parts.take(0) == Seq::<ArithmeticPart>::empty());
    while i < arithmetic.parts.len()
        invariant
            i <= arithmetic.parts.len(),
            parts == arithmetic.parts@,
            start == old(state)@,
            (state@, Ok::<ArithmeticView, ArithmeticErrorView>(result@)) == parts_evaluated(
                parts.take(i as int),
                start,
            ),
        decreases arithmetic.parts.len() - i,
    {
        assert(parts.take(i + 1).drop_last() == parts.take(i as int));
        assert(parts.take(i + 1).last() == parts[i as int]);
        match evaluate_arithmetic_part(&arithmetic.parts[i], state) {
            Ok(part_result) => {
                result.set_value(part_result.value);
                result.with_changes(part_result.changes);
            },
            Err(e) => {
                proof {
                    lemma_error_ends_evaluation(parts, i + 1, start);
                }
                return Err(e);
            },
        }
        i += 1;
    }
    assert(parts.take(i as int) == parts);
    Ok(result)
}

/// The value that an assignment gives to the variable `name`.
fn value_to_assign(
    state: &ShellState,
    name: &String,
    op: AssignmentOp,
    val: ArithmeticResult,
) -> (r: Result<ArithmeticResult, ArithmeticError>)
    ensures
        outcome_view(r) == assigned_value(state@, name@, op, val@),
{
    if op == AssignmentOp::Assign {
        return Ok(val);
    }
    let parsed_var = match state.get_var(name.as_str()) {
        None => return Err(ArithmeticError::UndefinedVariable(name.clone())),
        Some(var) => match ArithmeticResult::from_text(var.as_str()) {
            None => return Err(ArithmeticError::UnparsableVariable(name.clone(), var.clone())),
            Some(parsed) => parsed,
        },
    };
    match op {
        AssignmentOp::Assign => Ok(val),
        AssignmentOp::MultiplyAssign => val.checked_mul(parsed_var),
        AssignmentOp::DivideAssign => val.checked_div(parsed_var),
        AssignmentOp::ModuloAssign => val.checked_rem(parsed_var),
        AssignmentOp::AddAssign => val.checked_add(parsed_var),
        AssignmentOp::SubtractAssign => val.checked_sub(parsed_var),
        AssignmentOp::LeftShiftAssign => val.checked_shl(parsed_var),
        AssignmentOp::RightShiftAssign => val.checked_shr(parsed_var),
        AssignmentOp::BitwiseAndAssign => val.checked_and(parsed_var),
        AssignmentOp::BitwiseXorAssign => val.checked_xor(parsed_var),
        AssignmentOp::BitwiseOrAssign => val.checked_or(parsed_var),
    }
}

/// Evaluates one expression.
pub fn evaluate_arithmetic_part(part: &ArithmeticPart, state: &mut ShellState) -> (r: Result<
    ArithmeticResult,
    ArithmeticError,
>)
    ensures
        (final(state)@, outcome_view(r)) == part_evaluated(*part, old(state)@),
    decreases part,
{
    match part {
        ArithmeticPart::ParenthesesExpr(expr) => evaluate_arithmetic(expr, state),
        ArithmeticPart::VariableAssignment { name, op, value } => {
            let val = match evaluate_arithmetic_part(value, state) {
                Ok(val) => val,
                Err(e) => return Err(e),
            };
            let mut applied_value = match value_to_assign(state, name, *op, val) {
                Ok(applied) => applied,
                Err(e) => return Err(e),
            };
            let text = applied_value.to_text();
            state.apply_env_var(name.as_str(), text.as_str());
            push_change(&mut applied_value.changes, EnvChange::SetShellVar(name.clone(), text));
            Ok(applied_value)
        },
        ArithmeticPart::TripleConditionalExpr { condition, true_expr, false_expr } => {
            let cond = match evaluate_arithmetic_part(condition, state) {
                Ok(cond) => cond,
                Err(e) => return Err(e),
            };
            if cond.is_zero() {
                evaluate_arithmetic_part(true_expr, state)
            } else {
                evaluate_arithmetic_part(false_expr, state)
            }
        },
        ArithmeticPart::BinaryArithmeticExpr { left, operator, right } => {
            let lhs = match evaluate_arithmetic_part(left, state) {
                Ok(lhs) => lhs,
                Err(e) => return Err(e),
            };
            let rhs = match evaluate_arithmetic_part(right, state) {
                Ok(rhs) => rhs,
                Err(e) => return Err(e),
            };
            apply_binary_op(lhs, *operator, rhs)
        },
        ArithmeticPart::BinaryConditionalExpr { left, operator, right } => {
            let lhs = match evaluate_arithmetic_part(left, state) {
                Ok(lhs) => lhs,
                Err(e) => return Err(e),
            };
            let rhs = match evaluate_arithmetic_part(right, state) {
                Ok(rhs) => rhs,
                Err(e) => return Err(e),
            };
            apply_conditional_binary_op(lhs, operator, rhs)
        },
        ArithmeticPart::UnaryArithmeticExpr { operator, operand } => {
            match evaluate_arithmetic_part(operand, state) {
                Ok(val) => apply_unary_op(*operator, val),
                Err(e) => Err(e),
            }
        },
        ArithmeticPart::PostArithmeticExpr { operand, operator: _ } => {
            evaluate_arithmetic_part(operand, state)
        },
        ArithmeticPart::Variable(name) => match state.get_var(name.as_str()) {
            Some(text) => match ArithmeticResult::from_text(text.as_str()) {
                Some(val) => Ok(val),
                None => Err(ArithmeticError::NonIntegerVariable(name.clone())),
            },
            None => Err(ArithmeticError::NonIntegerVariable(name.clone())),
        },
        ArithmeticPart::Number(text) => match ArithmeticResult::from_text(text.as_str()) {
            Some(val) => Ok(val),
            None => Err(ArithmeticError::InvalidNumber(text.clone())),
        },
    }
}

/// Evaluates the expression of an arithmetic command or expansion.
pub fn execute_arithmetic_expression(arithmetic: &Arithmetic, state: &mut ShellState) -> (r: Result<
    ArithmeticResult,
    ArithmeticError,
>)
    ensures
        (final(state)@, outcome_view(r)) == parts_evaluated(arithmetic.parts@, old(state)@),
{
    evaluate_arithmetic(arithmetic, state)
}

// ---------------------------------------------------------------------------
// Messages

/// The text of an error.
pub open spec fn error_text(e: ArithmeticErrorView) -> Seq<char> {
    match e {
        ArithmeticErrorView::UndefinedVariable(name) => "Undefined variable: "@ + name,
        ArithmeticErrorView::UnparsableVariable(name, value) => "Failed to parse variable '"@ + name
            + "': Invalid number: "@ + value,
        ArithmeticErrorView::NonIntegerVariable(name) => "Undefined or non-integer variable: "@
            + name,
        ArithmeticErrorView::InvalidNumber(number) => "Invalid number: "@ + number,
        ArithmeticErrorView::Overflow => "Integer overflow"@,
        ArithmeticErrorView::DivisionByZero => "Division by zero"@,
        ArithmeticErrorView::NegativeExponent => "Negative exponent"@,
        ArithmeticErrorView::ShiftOutOfRange => "Shift amount out of range"@,
    }
}

impl ArithmeticError {
    /// The text of the error.
    pub fn message(&self) -> (r: String)
        ensures
            r@ == error_text(self@),
    {
        match self {
            ArithmeticError::UndefinedVariable(name) => {
                let mut r = "Undefined variable: ".to_owned();
                r.append(name.as_str());
                r
            },
            ArithmeticError::UnparsableVariable(name, value) => {
                let mut r = "Failed to parse variable '".to_owned();
                r.append(name.as_str());
                r.append("': Invalid number: ");
                r.append(value.as_str());
                r
            },
            ArithmeticError::NonIntegerVariable(name) => {
                let mut r = "Undefined or non-integer variable: ".to_owned();
                r.append(name.as_str());
                r
            },
            ArithmeticError::InvalidNumber(number) => {
                let mut r = "Invalid number: ".to_owned();
                r.append(number.as_str());
                r
            },
            ArithmeticError::Overflow => "Integer overflow".to_owned(),
            ArithmeticError::DivisionByZero => "Division by zero".to_owned(),
            ArithmeticError::NegativeExponent => "Negative exponent".to_owned(),
            ArithmeticError::ShiftOutOfRange => "Shift amount out of range".to_owned(),
        }
    }
}

// ---------------------------------------------------------------------------
// Laws

/// A variable that an expression assigned to reads back the value of the expression.
pub proof fn law_assigned_variable_reads_back(
    name: String,
    op: AssignmentOp,
    value: Box<ArithmeticPart>,
    s: StateView,
)
    requires
        part_evaluated(ArithmeticPart::VariableAssignment { name, op, value }, s).1 is Ok,
    ensures
        ({
            let (after, r) = part_evaluated(
                ArithmeticPart::VariableAssignment { name, op, value },
                s,
            );
            &&& part_evaluated(ArithmeticPart::Variable(name), after).0 == after
            &&& part_evaluated(ArithmeticPart::Variable(name), after).1 matches Ok(read)
            &&& read.value == r->Ok_0.value
        }),
{
    let (after, r) = part_evaluated(ArithmeticPart::VariableAssignment { name, op, value }, s);
    crate::text::law_decimal_reads_back(r->Ok_0.value);
}

/// Quotient and remainder belong together: the remainder is what the rounded quotient leaves.
pub proof fn law_quotient_and_remainder(a: int, b: int)
    requires
        b != 0,
    ensures
        a == b * quotient(a, b) + remainder(a, b),
{
    let x = if a < 0 { -a } else { a };
    let y = if b < 0 { -b } else { b };
    vstd::arithmetic::div_mod::lemma_fundamental_div_mod(x, y);
    let q = x / y;
    assert(b * quotient(a, b) == (if a < 0 { -(y * q) } else { y * q })) by (nonlinear_arith)
        requires
            q == x / y,
            y == (if b < 0 { -b } else { b }),
            quotient(a, b) == (if (a < 0) == (b < 0) { q } else { -q }),
    ;
}

/// The logical operators give 0 or 1.
pub proof fn law_truth_values(l: ArithmeticView, r: ArithmeticView)
    ensures
        binary_outcome(l, BinaryArithmeticOp::LogicalAnd, r) matches Ok(v) && (v.value == 0
            || v.value == 1),
        binary_outcome(l, BinaryArithmeticOp::LogicalOr, r) matches Ok(v) && (v.value == 0
            || v.value == 1),
        unary_outcome(UnaryArithmeticOp::LogicalNot, l) matches Ok(v) && (v.value == 0 || v.value
            == 1),
{
}

proof fn lemma_division(a: int, b: int)
    requires
        b != 0,
    ensures
        a == b * quotient(a, b) + remainder(a, b),
        remainder(a, b) == 0 || (remainder(a, b) < 0) == (a < 0),
        -(if b < 0 { -b } else { b }) < remainder(a, b) < (if b < 0 { -b } else { b }),
        (a - remainder(a, b)) % b == 0,
{
    law_quotient_and_remainder(a, b);
    let x = if a < 0 { -a } else { a };
    let y = if b < 0 { -b } else { b };
    vstd::arithmetic::div_mod::lemma_mod_bound(x, y);
    let q = quotient(a, b);
    vstd::arithmetic::mul::lemma_mul_is_commutative(b, q);
    assert((q * b) % b == 0) by (nonlinear_arith)
        requires
            b != 0,
    ;
    assert(a - remainder(a, b) == q * b);
}

/// Whether `n` is `a` divided by `b`, rounded towards zero.
pub open spec fn divides_to(a: int, b: int, n: int) -> bool {
    let rest = a - b * n;
    b != 0 && -(if b < 0 { -b } else { b }) < rest < (if b < 0 { -b } else { b }) && (rest == 0 || (
    rest < 0) == (a < 0))
}

/// Whether `n` is what is left of `a` by `b`: it is smaller than `b`, has the sign of `a`, and the
/// rest is a multiple of `b`.
pub open spec fn leaves(a: int, b: int, n: int) -> bool {
    b != 0 && -(if b < 0 { -b } else { b }) < n < (if b < 0 { -b } else { b }) && (n == 0 || (n < 0)
        == (a < 0)) && (a - n) % b == 0
}

/// After an assignment in place, the value of the expression and of the variable is what the operator
/// it is written with gives for the right side and what the variable held before: sum, difference,
/// product, quotient and remainder of whole numbers, shifts, and operations on bits. The right side
/// is the left operand.
pub proof fn law_assignments_in_place_compute(
    name: String,
    op: AssignmentOp,
    value: Box<ArithmeticPart>,
    s: StateView,
)
    requires
        part_evaluated(ArithmeticPart::VariableAssignment { name, op, value }, s).1 is Ok,
    ensures
        ({
            let (between, right) = part_evaluated(*value, s);
            let (after, r) = part_evaluated(
                ArithmeticPart::VariableAssignment { name, op, value },
                s,
            );
            let n = r->Ok_0.value;
            let v = right->Ok_0.value;
            let held = parse_number(between.var(name@)->0);
            let x = held->0;
            &&& right is Ok
            &&& after.var(name@) == Some(decimal(n as int))
            &&& op != AssignmentOp::Assign ==> between.var(name@) is Some && held is Some
            &&& match op {
                AssignmentOp::Assign => n == v,
                AssignmentOp::MultiplyAssign => n == v * x,
                AssignmentOp::DivideAssign => divides_to(v as int, x as int, n as int),
                AssignmentOp::ModuloAssign => leaves(v as int, x as int, n as int),
                AssignmentOp::AddAssign => n == v + x,
                AssignmentOp::SubtractAssign => n == v - x,
                AssignmentOp::LeftShiftAssign => 0 <= x < 64 && n == v << x,
                AssignmentOp::RightShiftAssign => 0 <= x < 64 && n == v >> x,
                AssignmentOp::BitwiseAndAssign => n == v & x,
                AssignmentOp::BitwiseXorAssign => n == v ^ x,
                AssignmentOp::BitwiseOrAssign => n == v | x,
            }
        }),
{
    let (between, right) = part_evaluated(*value, s);
    if right is Ok && op != AssignmentOp::Assign {
        let v = right->Ok_0.value;
        let x = parse_number(between.var(name@)->0)->0;
        if x != 0 {
            lemma_division(v as int, x as int);
            assert(v - x * quotient(v as int, x as int) == remainder(v as int, x as int));
        }
    }
}

/// An assignment that succeeds leaves every other variable alone, and the working directory, the
/// aliases and the options too; it hands on its own change behind those of the right side.
pub proof fn law_assignments_touch_one_variable(
    name: String,
    op: AssignmentOp,
    value: Box<ArithmeticPart>,
    s: StateView,
    other: Seq<char>,
)
    requires
        part_evaluated(ArithmeticPart::VariableAssignment { name, op, value }, s).1 is Ok,
        other != name@,
    ensures
        ({
            let (between, right) = part_evaluated(*value, s);
            let (after, r) = part_evaluated(
                ArithmeticPart::VariableAssignment { name, op, value },
                s,
            );
            &&& after.var(other) == between.var(other)
            &&& after.cwd == between.cwd && after.aliases == between.aliases
            &&& after.exit_on_error == between.exit_on_error && after.print_trace
                == between.print_trace
            &&& r->Ok_0.changes == right->Ok_0.changes.push(
                EnvChangeView::SetShellVar(name@, decimal(r->Ok_0.value as int)),
            )
        }),
{
    let right = part_evaluated(*value, s).1;
    if right is Ok {
        let changes = right->Ok_0.changes;
        assert(changes + Seq::<EnvChangeView>::empty() == changes);
    }
}

/// An assignment in place to a variable that is not set, or holds no number, is an error that names
/// the variable, and leaves the state as the right side left it.
pub proof fn law_assignments_in_place_need_a_number(
    name: String,
    op: AssignmentOp,
    value: Box<ArithmeticPart>,
    s: StateView,
)
    requires
        op != AssignmentOp::Assign,
        part_evaluated(*value, s).1 is Ok,
    ensures
        ({
            let between = part_evaluated(*value, s).0;
            let r = part_evaluated(ArithmeticPart::VariableAssignment { name, op, value }, s);
            &&& between.var(name@) is None ==> r == (
                between,
                Err::<ArithmeticView, ArithmeticErrorView>(
                    ArithmeticErrorView::UndefinedVariable(name@),
                ),
            )
            &&& between.var(name@) matches Some(text) ==> parse_number(text) is None ==> r == (
                between,
                Err::<ArithmeticView, ArithmeticErrorView>(
                    ArithmeticErrorView::UnparsableVariable(name@, text),
                ),
            )
        }),
{
}

/// A binary expression evaluates its left side first and its right side in the state that it left,
/// and computes with both: sum, difference, product, quotient, remainder and power of whole numbers
/// where they fit in 64 bits, shifts by less than 64 bits, and operations on bits. Division by zero,
/// a negative exponent, a shift that is out of range and a value that does not fit are errors. The
/// logical operators give zero exactly where both sides are zero.
pub proof fn law_binary_operators_compute(
    left: Box<ArithmeticPart>,
    operator: BinaryArithmeticOp,
    right: Box<ArithmeticPart>,
    s: StateView,
)
    requires
        part_evaluated(*left, s).1 is Ok,
        part_evaluated(*right, part_evaluated(*left, s).0).1 is Ok,
    ensures
        ({
            let (s1, first) = part_evaluated(*left, s);
            let (s2, second) = part_evaluated(*right, s1);
            let (after, outcome) = part_evaluated(
                ArithmeticPart::BinaryArithmeticExpr { left, operator, right },
                s,
            );
            let l = first->Ok_0.value as int;
            let r = second->Ok_0.value as int;
            let logical = operator == BinaryArithmeticOp::LogicalAnd || operator
                == BinaryArithmeticOp::LogicalOr;
            &&& after == s2
            &&& match outcome {
                Ok(value) => {
                    let n = value.value as int;
                    &&& value.changes == (if logical {
                        seq![]
                    } else {
                        first->Ok_0.changes + second->Ok_0.changes
                    })
                    &&& match operator {
                        BinaryArithmeticOp::Add => n == l + r,
                        BinaryArithmeticOp::Subtract => n == l - r,
                        BinaryArithmeticOp::Multiply => n == l * r,
                        BinaryArithmeticOp::Divide => divides_to(l, r, n),
                        BinaryArithmeticOp::Modulo => leaves(l, r, n),
                        BinaryArithmeticOp::Power => r >= 0 && n == pow(l, r as nat),
                        BinaryArithmeticOp::LeftShift => 0 <= r < 64 && value.value
                            == first->Ok_0.value << second->Ok_0.value,
                        BinaryArithmeticOp::RightShift => 0 <= r < 64 && value.value
                            == first->Ok_0.value >> second->Ok_0.value,
                        BinaryArithmeticOp::BitwiseAnd => value.value == first->Ok_0.value
                            & second->Ok_0.value,
                        BinaryArithmeticOp::BitwiseXor => value.value == first->Ok_0.value
                            ^ second->Ok_0.value,
                        BinaryArithmeticOp::BitwiseOr => value.value == first->Ok_0.value
                            | second->Ok_0.value,
                        BinaryArithmeticOp::LogicalAnd => n == (if l == 0 && r == 0 {
                            0int
                        } else {
                            1
                        }),
                        BinaryArithmeticOp::LogicalOr => n == (if l == 0 && r == 0 {
                            0int
                        } else {
                            1
                        }),
                    }
                },
                Err(ArithmeticErrorView::Overflow) => match operator {
                    BinaryArithmeticOp::Add => !(i64::MIN <= l + r <= i64::MAX),
                    BinaryArithmeticOp::Subtract => !(i64::MIN <= l - r <= i64::MAX),
                    BinaryArithmeticOp::Multiply => !(i64::MIN <= l * r <= i64::MAX),
                    BinaryArithmeticOp::Divide => l == i64::MIN && r == -1,
                    BinaryArithmeticOp::Modulo => l == i64::MIN && r == -1,
                    BinaryArithmeticOp::Power => r >= 0 && !(i64::MIN <= pow(l, r as nat)
                        <= i64::MAX),
                    _ => false,
                },
                Err(ArithmeticErrorView::DivisionByZero) => r == 0 && (operator
                    == BinaryArithmeticOp::Divide || operator == BinaryArithmeticOp::Modulo),
                Err(ArithmeticErrorView::NegativeExponent) => r < 0 && operator
                    == BinaryArithmeticOp::Power,
                Err(ArithmeticErrorView::ShiftOutOfRange) => !(0 <= r < 64) && (operator
                    == BinaryArithmeticOp::LeftShift || operator
                    == BinaryArithmeticOp::RightShift),
                Err(_) => false,
            }
        }),
{
    let (s1, first) = part_evaluated(*left, s);
    let second = part_evaluated(*right, s1).1;
    let l = first->Ok_0.value as int;
    let r = second->Ok_0.value as int;
    if r != 0 {
        lemma_division(l, r);
        assert(l - r * quotient(l, r) == remainder(l, r));
        if !(l == i64::MIN && r == -1) {
            lemma_quotient_fits(l, r);
        }
    }
}

proof fn lemma_quotient_fits(a: int, b: int)
    requires
        b != 0,
        i64::MIN <= a <= i64::MAX,
        i64::MIN <= b <= i64::MAX,
        !(a == i64::MIN && b == -1),
    ensures
        i64::MIN <= quotient(a, b) <= i64::MAX,
        i64::MIN <= remainder(a, b) <= i64::MAX,
{
    let x = if a < 0 { -a } else { a };
    let y = if b < 0 { -b } else { b };
    vstd::arithmetic::div_mod::lemma_mod_bound(x, y);
    vstd::arithmetic::div_mod::lemma_div_pos_is_pos(x, y);
    vstd::arithmetic::div_mod::lemma_div_is_ordered_by_denominator(x, 1, y);
    if y >= 2 {
        vstd::arithmetic::div_mod::lemma_div_is_ordered_by_denominator(x, 2, y);
    }
}

/// The first error of a binary expression is that of its left side, then that of its right side; the
/// state is the one at which the error came.
pub proof fn law_first_operand_error_counts(
    left: Box<ArithmeticPart>,
    operator: BinaryArithmeticOp,
    comparison: BinaryOp,
    right: Box<ArithmeticPart>,
    s: StateView,
)
    ensures
        ({
            let (s1, first) = part_evaluated(*left, s);
            let (s2, second) = part_evaluated(*right, s1);
            let computed = part_evaluated(
                ArithmeticPart::BinaryArithmeticExpr { left, operator, right },
                s,
            );
            let compared = part_evaluated(
                ArithmeticPart::BinaryConditionalExpr { left, operator: comparison, right },
                s,
            );
            &&& first matches Err(e) ==> computed == (s1, Err::<ArithmeticView, _>(e)) && compared
                == computed
            &&& first is Ok ==> (second matches Err(e) ==> computed == (
                s2,
                Err::<ArithmeticView, _>(e),
            ) && compared == computed)
        }),
{
}

/// A comparison gives one where it holds of the whole numbers on both sides, and zero where it does
/// not.
pub proof fn law_comparisons_hold_of_numbers(
    left: Box<ArithmeticPart>,
    operator: BinaryOp,
    right: Box<ArithmeticPart>,
    s: StateView,
)
    requires
        part_evaluated(*left, s).1 is Ok,
        part_evaluated(*right, part_evaluated(*left, s).0).1 is Ok,
    ensures
        ({
            let (s1, first) = part_evaluated(*left, s);
            let (s2, second) = part_evaluated(*right, s1);
            let l = first->Ok_0.value as int;
            let r = second->Ok_0.value as int;
            let holds = match operator {
                BinaryOp::Equal => l == r,
                BinaryOp::NotEqual => l != r,
                BinaryOp::LessThan => l < r,
                BinaryOp::LessThanOrEqual => l <= r,
                BinaryOp::GreaterThan => l > r,
                BinaryOp::GreaterThanOrEqual => l >= r,
            };
            let (after, outcome) = part_evaluated(
                ArithmeticPart::BinaryConditionalExpr { left, operator, right },
                s,
            );
            &&& after == s2
            &&& outcome matches Ok(value)
            &&& value.value == (if holds { 1i64 } else { 0i64 })
            &&& value.changes.len() == 0
        }),
{
}

/// A unary operator gives the number itself, its opposite, one exactly for zero, or the number with
/// every bit turned, which is one less than the opposite. Only the opposite of the least number does
/// not fit.
pub proof fn law_unary_operators_compute(
    operator: UnaryArithmeticOp,
    operand: Box<ArithmeticPart>,
    s: StateView,
)
    ensures
        ({
            let (between, inner) = part_evaluated(*operand, s);
            let (after, outcome) = part_evaluated(
                ArithmeticPart::UnaryArithmeticExpr { operator, operand },
                s,
            );
            &&& after == between
            &&& match inner {
                Err(e) => outcome == Err::<ArithmeticView, _>(e),
                Ok(v) => match outcome {
                    Err(e) => e == ArithmeticErrorView::Overflow && operator
                        == UnaryArithmeticOp::Minus && v.value == i64::MIN,
                    Ok(r) => match operator {
                        UnaryArithmeticOp::Plus => r == v,
                        UnaryArithmeticOp::Minus => r.value == -v.value && r.changes == v.changes,
                        UnaryArithmeticOp::LogicalNot => r.value == (if v.value == 0 {
                            1i64
                        } else {
                            0i64
                        }) && r.changes.len() == 0,
                        UnaryArithmeticOp::BitwiseNot => r.value == -v.value - 1 && r.changes
                            == v.changes,
                    },
                },
            }
        }),
{
    let inner = part_evaluated(*operand, s).1;
    if inner is Ok {
        let n: i64 = inner->Ok_0.value;
        assert(!n == -n - 1) by (bit_vector);
    }
}

/// A conditional expression evaluates its condition, and then exactly one of its branches in the
/// state that the condition left: the first one where the condition is zero.
pub proof fn law_conditional_takes_one_branch(
    condition: Box<ArithmeticPart>,
    true_expr: Box<ArithmeticPart>,
    false_expr: Box<ArithmeticPart>,
    s: StateView,
)
    ensures
        ({
            let (between, asked) = part_evaluated(*condition, s);
            let r = part_evaluated(
                ArithmeticPart::TripleConditionalExpr { condition, true_expr, false_expr },
                s,
            );
            match asked {
                Err(e) => r == (between, Err::<ArithmeticView, _>(e)),
                Ok(c) => (c.value == 0 ==> r == part_evaluated(*true_expr, between)) && (c.value
                    != 0 ==> r == part_evaluated(*false_expr, between)),
            }
        }),
{
}

/// A variable and a written number have the value that their text writes, and change nothing; a text
/// that writes none is an error. Parentheses give what they hold, and an operator behind an operand
/// gives the operand.
pub proof fn law_operands(
    name: String,
    number: String,
    expr: Box<Arithmetic>,
    operand: Box<ArithmeticPart>,
    operator: PostArithmeticOp,
    s: StateView,
)
    ensures
        part_evaluated(ArithmeticPart::Variable(name), s) == (
            s,
            if s.var(name@) is Some && parse_number(s.var(name@)->0) is Some {
                Ok(
                    ArithmeticView {
                        value: parse_number(s.var(name@)->0)->0,
                        changes: Seq::<EnvChangeView>::empty(),
                    },
                )
            } else {
                Err(ArithmeticErrorView::NonIntegerVariable(name@))
            },
        ),
        part_evaluated(ArithmeticPart::Number(number), s) == (
            s,
            if parse_number(number@) is Some {
                Ok(
                    ArithmeticView {
                        value: parse_number(number@)->0,
                        changes: Seq::<EnvChangeView>::empty(),
                    },
                )
            } else {
                Err(ArithmeticErrorView::InvalidNumber(number@))
            },
        ),
        part_evaluated(ArithmeticPart::ParenthesesExpr(expr), s) == parts_evaluated(
            expr.parts@,
            s,
        ),
        part_evaluated(ArithmeticPart::PostArithmeticExpr { operand, operator }, s)
            == part_evaluated(*operand, s),
{
}

/// Expressions behind each other are evaluated from left to right, each in the state that the ones
/// before it left; the last one gives the value, and the first error ends it.
pub proof fn law_expressions_in_order(parts: Seq<ArithmeticPart>, last: ArithmeticPart, s: StateView)
    ensures
        parts_evaluated(Seq::<ArithmeticPart>::empty(), s) == (
            s,
            Ok::<_, ArithmeticErrorView>(ArithmeticView { value: 0, changes: seq![] }),
        ),
        ({
            let (between, before) = parts_evaluated(parts, s);
            let (end, own) = part_evaluated(last, between);
            let r = parts_evaluated(parts.push(last), s);
            match before {
                Err(e) => r == (between, Err::<ArithmeticView, _>(e)),
                Ok(b) => match own {
                    Err(e) => r == (end, Err::<ArithmeticView, _>(e)),
                    Ok(l) => r == (
                        end,
                        Ok::<_, ArithmeticErrorView>(
                            ArithmeticView { value: l.value, changes: b.changes + l.changes },
                        ),
                    ),
                },
            }
        }),
{
    assert(parts.push(last).drop_last() == parts);
    assert(parts.push(last).last() == last);
}

/// The text of an error names the variable or the number that it is about.
pub proof fn law_errors_name_their_subject(name: Seq<char>, value: Seq<char>)
    ensures
        error_text(ArithmeticErrorView::UndefinedVariable(name)) == "Undefined variable: "@ + name,
        error_text(ArithmeticErrorView::UnparsableVariable(name, value))
            == "Failed to parse variable '"@ + name + "': Invalid number: "@ + value,
        error_text(ArithmeticErrorView::NonIntegerVariable(name))
            == "Undefined or non-integer variable: "@ + name,
        error_text(ArithmeticErrorView::InvalidNumber(value)) == "Invalid number: "@ + value,
        error_text(ArithmeticErrorView::Overflow) == "Integer overflow"@,
        error_text(ArithmeticErrorView::DivisionByZero) == "Division by zero"@,
        error_text(ArithmeticErrorView::NegativeExponent) == "Negative exponent"@,
        error_text(ArithmeticErrorView::ShiftOutOfRange) == "Shift amount out of range"@,
{
}

/// An assignment in place comes to the same value, or the same error, as the binary expression with its
/// operator that has the right side on the left and the variable on the right.
pub proof fn law_assignments_in_place_agree(
    name: String,
    op: AssignmentOp,
    value: Box<ArithmeticPart>,
    operator: BinaryArithmeticOp,
    variable: Box<ArithmeticPart>,
    s: StateView,
)
    requires
        *variable == ArithmeticPart::Variable(name),
        part_evaluated(*value, s).1 is Ok,
        part_evaluated(*variable, part_evaluated(*value, s).0).1 is Ok,
        match (op, operator) {
            (AssignmentOp::MultiplyAssign, BinaryArithmeticOp::Multiply) => true,
            (AssignmentOp::DivideAssign, BinaryArithmeticOp::Divide) => true,
            (AssignmentOp::ModuloAssign, BinaryArithmeticOp::Modulo) => true,
            (AssignmentOp::AddAssign, BinaryArithmeticOp::Add) => true,
            (AssignmentOp::SubtractAssign, BinaryArithmeticOp::Subtract) => true,
            (AssignmentOp::LeftShiftAssign, BinaryArithmeticOp::LeftShift) => true,
            (AssignmentOp::RightShiftAssign, BinaryArithmeticOp::RightShift) => true,
            (AssignmentOp::BitwiseAndAssign, BinaryArithmeticOp::BitwiseAnd) => true,
            (AssignmentOp::BitwiseXorAssign, BinaryArithmeticOp::BitwiseXor) => true,
            (AssignmentOp::BitwiseOrAssign, BinaryArithmeticOp::BitwiseOr) => true,
            _ => false,
        },
    ensures
        ({
            let stored = part_evaluated(ArithmeticPart::VariableAssignment { name, op, value }, s).1;
            let computed = part_evaluated(
                ArithmeticPart::BinaryArithmeticExpr { left: value, operator, right: variable },
                s,
            ).1;
            match (stored, computed) {
                (Ok(a), Ok(b)) => a.value == b.value,
                (Err(e), Err(f)) => e == f,
                _ => false,
            }
        }),
{
}

/// A plain assignment succeeds wherever its right side does; any assignment whose right side fails ends
/// with the error of the right side, in the state that it left.
pub proof fn law_assignments_need_their_right_side(
    name: String,
    op: AssignmentOp,
    value: Box<ArithmeticPart>,
    s: StateView,
)
    ensures
        ({
            let (between, right) = part_evaluated(*value, s);
            let r = part_evaluated(ArithmeticPart::VariableAssignment { name, op, value }, s);
            &&& right is Ok && op == AssignmentOp::Assign ==> r.1 is Ok
            &&& right matches Err(e) ==> r == (between, Err::<ArithmeticView, _>(e))
        }),
{
}

} // verus!
