//! The parts of the Conlang type checker that work on plain values:
//! constant evaluation, primitive and intrinsic types, and the
//! stack-allocated scope list.
use vstd::prelude::*;
use vstd::std_specs::cmp::PartialEqSpecImpl;
use crate::text::{chars_eq_str, str_to_chars};
use crate::interpreter::{div_i128, rem_i128, trunc_div};

verus! {

// ---------------------------------------------------------------------
// Constant values
// ---------------------------------------------------------------------

/// A value known at compile time.
#[derive(Clone, Copy, Debug, PartialOrd, Ord)]
pub enum Value {
    Int(i128),
    UInt(u128),
    Bool(bool),
}

impl Value {
    pub open spec fn spec_int(self) -> Option<i128> {
        match self {
            Value::UInt(i) => Some(i as i128),
            Value::Int(i) => Some(i),
            _ => None,
        }
    }

    pub open spec fn spec_uint(self) -> Option<u128> {
        match self {
            Value::UInt(i) => Some(i),
            Value::Int(i) => Some(i as u128),
            _ => None,
        }
    }

    pub open spec fn spec_bool(self) -> Option<bool> {
        match self {
            Value::Int(i) => Some(i != 0),
            Value::UInt(i) => Some(i != 0),
            Value::Bool(b) => Some(b),
        }
    }

    /// The value as a signed integer; unsigned values are reinterpreted.
    pub fn int_value(&self) -> (r: Option<i128>)
        ensures
            r == self.spec_int(),
    {
        match self {
            Value::UInt(i) => Some(*i as i128),
            Value::Int(i) => Some(*i),
            _ => None,
        }
    }

    /// The value as an unsigned integer; signed values are reinterpreted.
    pub fn uint(&self) -> (r: Option<u128>)
        ensures
            r == self.spec_uint(),
    {
        match self {
            Value::UInt(i) => Some(*i),
            Value::Int(i) => Some(*i as u128),
            _ => None,
        }
    }

    /// The truth of the value: integers are true when nonzero.
    pub fn bool(&self) -> (r: Option<bool>)
        ensures
            r == self.spec_bool(),
    {
        match self {
            Value::Int(i) => Some(*i != 0),
            Value::UInt(i) => Some(*i != 0),
            Value::Bool(b) => Some(*b),
        }
    }

    /// Equality of constant values: booleans compare as booleans, and an
    /// integer equals any value with the same unsigned reading.
    pub open spec fn spec_eq(self, other: Value) -> bool {
        match (self, other) {
            (Value::Bool(l), Value::Bool(r)) => l == r,
            (Value::Int(_), _) | (Value::UInt(_), _) => self.spec_uint() == other.spec_uint(),
            _ => false,
        }
    }

    /// Negation: two's complement for integers, `!` for booleans.
    pub fn neg(self) -> (r: Value)
        requires
            !(self matches Value::Int(v) && v == i128::MIN),
            !(self matches Value::UInt(v) && v == 0),
        ensures
            r == match self {
                Value::Int(v) => Value::Int(-v as i128),
                Value::UInt(v) => Value::UInt((u128::MAX - v + 1) as u128),
                Value::Bool(v) => Value::Bool(!v),
            },
    {
        match self {
            Value::Int(v) => Value::Int(-v),
            Value::UInt(v) => {
                let n: u128 = !v;
                assert(n == u128::MAX - v) by (bit_vector)
                    requires
                        n == !v,
                ;
                Value::UInt(n + 1)
            },
            Value::Bool(v) => Value::Bool(!v),
        }
    }

    /// Bitwise (or logical) not.
    pub fn not(self) -> (r: Value)
        ensures
            r == match self {
                Value::Int(v) => Value::Int(!v),
                Value::UInt(v) => Value::UInt(!v),
                Value::Bool(v) => Value::Bool(!v),
            },
    {
        match self {
            Value::Int(v) => Value::Int(!v),
            Value::UInt(v) => Value::UInt(!v),
            Value::Bool(v) => Value::Bool(!v),
        }
    }
}

impl PartialEq for Value {
    fn eq(&self, other: &Self) -> (r: bool) {
        match (self, other) {
            (Value::Bool(l0), Value::Bool(r0)) => *l0 == *r0,
            (Value::Int(_), _) | (Value::UInt(_), _) => {
                let a = self.uint();
                let b = other.uint();
                match (a, b) {
                    (Some(x), Some(y)) => x == y,
                    (None, None) => true,
                    _ => false,
                }
            },
            _ => false,
        }
    }
}

impl Eq for Value {

}

impl PartialEqSpecImpl for Value {
    open spec fn obeys_eq_spec() -> bool {
        true
    }

    open spec fn eq_spec(&self, other: &Value) -> bool {
        self.spec_eq(*other)
    }
}

impl From<i128> for Value {
    fn from(value: i128) -> Self {
        Value::Int(value)
    }
}

impl vstd::std_specs::convert::FromSpecImpl<i128> for Value {
    open spec fn obeys_from_spec() -> bool {
        true
    }

    open spec fn from_spec(v: i128) -> Value {
        Value::Int(v)
    }
}

impl From<u128> for Value {
    fn from(value: u128) -> Self {
        Value::UInt(value)
    }
}

impl vstd::std_specs::convert::FromSpecImpl<u128> for Value {
    open spec fn obeys_from_spec() -> bool {
        true
    }

    open spec fn from_spec(v: u128) -> Value {
        Value::UInt(v)
    }
}

impl From<bool> for Value {
    fn from(value: bool) -> Self {
        Value::Bool(value)
    }
}

impl vstd::std_specs::convert::FromSpecImpl<bool> for Value {
    open spec fn obeys_from_spec() -> bool {
        true
    }

    open spec fn from_spec(v: bool) -> Value {
        Value::Bool(v)
    }
}

// ---------------------------------------------------------------------
// Constant evaluation
// ---------------------------------------------------------------------

/// The binary operators that constant evaluation knows.
#[derive(Clone, Copy, Debug, PartialEq, Eq, Structural)]
pub enum BinOp {
    Mul,
    Div,
    Rem,
    Add,
    Sub,
    Shl,
    Shr,
    And,
    Xor,
    Or,
    Lt,
    Leq,
    Eq,
    Neq,
    Geq,
    Gt,
}

/// When the divisor is nonzero and the division is not `i128::MIN / -1`,
/// the quotient rounded toward zero fits in an `i128`.
proof fn lemma_trunc_div_fits(a: i128, b: i128)
    requires
        b != 0,
        !(a == i128::MIN && b == -1),
    ensures
        i128::MIN <= trunc_div(a as int, b as int) <= i128::MAX,
{
    let aa: int = if a < 0 { -a } else { a as int };
    let bb: int = if b < 0 { -b } else { b as int };
    let q: int = aa / bb;
    assert(0 <= q <= aa) by (nonlinear_arith)
        requires
            aa >= 0,
            bb >= 1,
            q == aa / bb,
    ;
    if bb >= 2 {
        assert(2 * q <= aa) by (nonlinear_arith)
            requires
                aa >= 0,
                bb >= 2,
                q == aa / bb,
        ;
    }
}

/// `i128::wrapping_div`: division rounding toward zero, where only
/// `i128::MIN / -1` wraps (to `i128::MIN`). The divisor must be nonzero.
fn i128_wrapping_div(a: i128, b: i128) -> (r: i128)
    requires
        b != 0,
    ensures
        r == (if a == i128::MIN && b == -1 {
            i128::MIN as int
        } else {
            trunc_div(a as int, b as int)
        }),
{
    if a == i128::MIN && b == -1 {
        i128::MIN
    } else {
        proof {
            lemma_trunc_div_fits(a, b);
        }
        div_i128(a, b)
    }
}

/// `i128::wrapping_rem`: the remainder of division rounding toward zero,
/// where `i128::MIN % -1` is zero. The divisor must be nonzero.
fn i128_wrapping_rem(a: i128, b: i128) -> (r: i128)
    requires
        b != 0,
    ensures
        r == (if a == i128::MIN && b == -1 {
            0int
        } else {
            a - b * trunc_div(a as int, b as int)
        }),
{
    rem_i128(a, b)
}

/// The spec of [i128_wrapping_div] as a value.
pub open spec fn spec_i128_div(a: i128, b: i128) -> i128 {
    if a == i128::MIN && b == -1 {
        i128::MIN
    } else {
        trunc_div(a as int, b as int) as i128
    }
}

/// The spec of [i128_wrapping_rem] as a value.
pub open spec fn spec_i128_rem(a: i128, b: i128) -> i128 {
    if a == i128::MIN && b == -1 {
        0
    } else {
        (a - b * trunc_div(a as int, b as int)) as i128
    }
}

/// Whether a binary operator is defined on two constant values: the
/// arithmetic operators need two signed or two unsigned integers, and a
/// divisor other than zero; the bitwise operators need an integer on the
/// left; the comparisons take anything.
pub open spec fn bin_defined(op: BinOp, lhs: Value, rhs: Value) -> bool {
    match op {
        BinOp::Mul | BinOp::Div | BinOp::Rem | BinOp::Add | BinOp::Sub | BinOp::Shl | BinOp::Shr => {
            match (lhs, rhs) {
                (Value::Int(_), Value::Int(r)) => (op == BinOp::Div || op == BinOp::Rem) ==> r != 0,
                (Value::UInt(_), Value::UInt(r)) => (op == BinOp::Div || op == BinOp::Rem) ==> r != 0,
                _ => false,
            }
        },
        BinOp::And | BinOp::Xor | BinOp::Or => !(lhs is Bool),
        _ => true,
    }
}

/// What a binary operator gives on two constant values.
pub open spec fn spec_eval_bin(op: BinOp, lhs: Value, rhs: Value) -> Option<Value> {
    match (op, lhs, rhs) {
        (BinOp::Mul, Value::Int(l), Value::Int(r)) => Some(Value::Int(l.wrapping_mul(r))),
        (BinOp::Mul, Value::UInt(l), Value::UInt(r)) => Some(Value::UInt(l.wrapping_mul(r))),
        (BinOp::Div, Value::Int(l), Value::Int(r)) => Some(Value::Int(spec_i128_div(l, r))),
        (BinOp::Div, Value::UInt(l), Value::UInt(r)) => Some(Value::UInt(l / r)),
        (BinOp::Rem, Value::Int(l), Value::Int(r)) => Some(Value::Int(spec_i128_rem(l, r))),
        (BinOp::Rem, Value::UInt(l), Value::UInt(r)) => Some(Value::UInt(l % r)),
        (BinOp::Add, Value::Int(l), Value::Int(r)) => Some(Value::Int(l.wrapping_add(r))),
        (BinOp::Add, Value::UInt(l), Value::UInt(r)) => Some(Value::UInt(l.wrapping_add(r))),
        (BinOp::Sub, Value::Int(l), Value::Int(r)) => Some(Value::Int(l.wrapping_sub(r))),
        (BinOp::Sub, Value::UInt(l), Value::UInt(r)) => Some(Value::UInt(l.wrapping_sub(r))),
        (BinOp::Shl, Value::Int(l), Value::Int(r)) => Some(Value::Int(l.wrapping_shl(r as u32))),
        (BinOp::Shl, Value::UInt(l), Value::UInt(r)) => Some(Value::UInt(l.wrapping_shl(r as u32))),
        (BinOp::Shr, Value::Int(l), Value::Int(r)) => Some(Value::Int(l.wrapping_shr(r as u32))),
        (BinOp::Shr, Value::UInt(l), Value::UInt(r)) => Some(Value::UInt(l.wrapping_shr(r as u32))),
        (BinOp::And, Value::Int(l), r) => match r.spec_int() {
            Some(r) => Some(Value::Int(l & r)),
            None => None,
        },
        (BinOp::And, Value::UInt(l), r) => match r.spec_uint() {
            Some(r) => Some(Value::UInt(l & r)),
            None => None,
        },
        (BinOp::Xor, Value::Int(l), r) => match r.spec_int() {
            Some(r) => Some(Value::Int(l ^ r)),
            None => None,
        },
        (BinOp::Xor, Value::UInt(l), r) => match r.spec_uint() {
            Some(r) => Some(Value::UInt(l ^ r)),
            None => None,
        },
        (BinOp::Or, Value::Int(l), r) => match r.spec_int() {
            Some(r) => Some(Value::Int(l | r)),
            None => None,
        },
        (BinOp::Or, Value::UInt(l), r) => match r.spec_uint() {
            Some(r) => Some(Value::UInt(l | r)),
            None => None,
        },
        (BinOp::Eq, _, _) => Some(Value::Bool(lhs.spec_eq(rhs))),
        (BinOp::Neq, _, _) => Some(Value::Bool(!lhs.spec_eq(rhs))),
        _ => None,
    }
}

/// Evaluates a binary operator over the constant values of its operands.
///
/// `exprs` holds what constant evaluation gave for each operand; there
/// must be exactly two, and both must be known. Orderings are not
/// evaluated. The operator must be defined on the two values
/// ([bin_defined]).
pub fn const_eval_bin(op: BinOp, exprs: &[Option<Value>]) -> (r: Option<Value>)
    requires
        exprs@.len() == 2 ==> match (exprs@[0], exprs@[1]) {
            (Some(l), Some(rr)) => bin_defined(op, l, rr),
            _ => true,
        },
    ensures
        r == (if exprs@.len() == 2 {
            match (exprs@[0], exprs@[1]) {
                (Some(l), Some(rr)) => spec_eval_bin(op, l, rr),
                _ => None,
            }
        } else {
            None
        }),
{
    if exprs.len() != 2 {
        return None;
    }
    let lhs = match exprs[0] {
        Some(v) => v,
        None => return None,
    };
    let rhs = match exprs[1] {
        Some(v) => v,
        None => return None,
    };
    match (op, lhs, rhs) {
        (BinOp::Mul, Value::Int(l), Value::Int(r)) => Some(Value::Int(l.wrapping_mul(r))),
        (BinOp::Mul, Value::UInt(l), Value::UInt(r)) => Some(Value::UInt(l.wrapping_mul(r))),
        (BinOp::Div, Value::Int(l), Value::Int(r)) => Some(Value::Int(i128_wrapping_div(l, r))),
        (BinOp::Div, Value::UInt(l), Value::UInt(r)) => Some(Value::UInt(l / r)),
        (BinOp::Rem, Value::Int(l), Value::Int(r)) => Some(Value::Int(i128_wrapping_rem(l, r))),
        (BinOp::Rem, Value::UInt(l), Value::UInt(r)) => Some(Value::UInt(l % r)),
        (BinOp::Add, Value::Int(l), Value::Int(r)) => Some(Value::Int(l.wrapping_add(r))),
        (BinOp::Add, Value::UInt(l), Value::UInt(r)) => Some(Value::UInt(l.wrapping_add(r))),
        (BinOp::Sub, Value::Int(l), Value::Int(r)) => Some(Value::Int(l.wrapping_sub(r))),
        (BinOp::Sub, Value::UInt(l), Value::UInt(r)) => Some(Value::UInt(l.wrapping_sub(r))),
        (BinOp::Shl, Value::Int(l), Value::Int(r)) => Some(Value::Int(l.wrapping_shl(r as u32))),
        (BinOp::Shl, Value::UInt(l), Value::UInt(r)) => Some(Value::UInt(l.wrapping_shl(r as u32))),
        (BinOp::Shr, Value::Int(l), Value::Int(r)) => Some(Value::Int(l.wrapping_shr(r as u32))),
        (BinOp::Shr, Value::UInt(l), Value::UInt(r)) => Some(Value::UInt(l.wrapping_shr(r as u32))),
        (BinOp::And, Value::Int(l), r) => match r.int_value() {
            Some(r) => Some(Value::Int(l & r)),
            None => None,
        },
        (BinOp::And, Value::UInt(l), r) => match r.uint() {
            Some(r) => Some(Value::UInt(l & r)),
            None => None,
        },
        (BinOp::Xor, Value::Int(l), r) => match r.int_value() {
            Some(r) => Some(Value::Int(l ^ r)),
            None => None,
        },
        (BinOp::Xor, Value::UInt(l), r) => match r.uint() {
            Some(r) => Some(Value::UInt(l ^ r)),
            None => None,
        },
        (BinOp::Or, Value::Int(l), r) => match r.int_value() {
            Some(r) => Some(Value::Int(l | r)),
            None => None,
        },
        (BinOp::Or, Value::UInt(l), r) => match r.uint() {
            Some(r) => Some(Value::UInt(l | r)),
            None => None,
        },
        (BinOp::Eq, _, _) => Some(Value::Bool(lhs == rhs)),
        (BinOp::Neq, _, _) => Some(Value::Bool(!(lhs == rhs))),
        _ => None,
    }
}

/// A literal whose constant value may be known.
#[derive(Clone, Debug, PartialEq, Eq)]
pub enum Literal {
    Bool(bool),
    Char(char),
    Int(u128),
    Str(String),
}

impl Literal {
    pub open spec fn spec_const_eval(&self) -> Option<Value> {
        match self {
            Literal::Bool(v) => Some(Value::Bool(*v)),
            Literal::Char(_) => None,
            Literal::Int(v) => Some(Value::UInt(*v)),
            Literal::Str(_) => None,
        }
    }

}

impl ConstEval for Literal {
    /// The constant value of a literal: booleans and integers have one.
    fn const_eval(&self) -> (r: Option<Value>)
        ensures
            r == self.spec_const_eval(),
    {
        match self {
            Literal::Bool(v) => Some(Value::Bool(*v)),
            Literal::Char(_) => None,
            Literal::Int(v) => Some(Value::UInt(*v)),
            Literal::Str(_) => None,
        }
    }
}

/// Things that may have a value known at compile time.
pub trait ConstEval {
    /// The value known at compile time, if any; by default, none.
    fn const_eval(&self) -> (r: Option<Value>)
        default_ensures
            r is None,
    {
        None
    }
}

/// The operators of an expression node.
#[derive(Clone, Copy, Debug, PartialEq, Eq, Structural)]
pub enum Op {
    Do,
    As,
    Block,
    Array,
    ArRep,
    Group,
    Tuple,
    MetaInner,
    MetaOuter,
    Try,
    Index,
    Call,
    Pub,
    Const,
    Static,
    Macro,
    Quote,
    Loop,
    If,
    While,
    Defer,
    Break,
    Return,
    Continue,
    Dot,
    RangeEx,
    RangeIn,
    Neg,
    Not,
    Identity,
    Refer,
    Deref,
    Mul,
    Div,
    Rem,
    Add,
    Sub,
    Shl,
    Shr,
    And,
    Xor,
    Or,
    Lt,
    Leq,
    Eq,
    Neq,
    Geq,
    Gt,
    LogAnd,
    LogXor,
    LogOr,
    Assign,
    MulSet,
    DivSet,
    RemSet,
    AddSet,
    SubSet,
    ShlSet,
    ShrSet,
    AndSet,
    XorSet,
    OrSet,
}

/// The binary operator that an expression operator evaluates as, if any.
pub open spec fn spec_bin_op(op: Op) -> Option<BinOp> {
    match op {
        Op::Mul => Some(BinOp::Mul),
        Op::Div => Some(BinOp::Div),
        Op::Rem => Some(BinOp::Rem),
        Op::Add => Some(BinOp::Add),
        Op::Sub => Some(BinOp::Sub),
        Op::Shl => Some(BinOp::Shl),
        Op::Shr => Some(BinOp::Shr),
        Op::And => Some(BinOp::And),
        Op::Xor => Some(BinOp::Xor),
        Op::Or => Some(BinOp::Or),
        Op::Lt => Some(BinOp::Lt),
        Op::Leq => Some(BinOp::Leq),
        Op::Eq => Some(BinOp::Eq),
        Op::Neq => Some(BinOp::Neq),
        Op::Geq => Some(BinOp::Geq),
        Op::Gt => Some(BinOp::Gt),
        _ => None,
    }
}

fn bin_op(op: Op) -> (r: Option<BinOp>)
    ensures
        r == spec_bin_op(op),
{
    match op {
        Op::Mul => Some(BinOp::Mul),
        Op::Div => Some(BinOp::Div),
        Op::Rem => Some(BinOp::Rem),
        Op::Add => Some(BinOp::Add),
        Op::Sub => Some(BinOp::Sub),
        Op::Shl => Some(BinOp::Shl),
        Op::Shr => Some(BinOp::Shr),
        Op::And => Some(BinOp::And),
        Op::Xor => Some(BinOp::Xor),
        Op::Or => Some(BinOp::Or),
        Op::Lt => Some(BinOp::Lt),
        Op::Leq => Some(BinOp::Leq),
        Op::Eq => Some(BinOp::Eq),
        Op::Neq => Some(BinOp::Neq),
        Op::Geq => Some(BinOp::Geq),
        Op::Gt => Some(BinOp::Gt),
        _ => None,
    }
}

/// Operators whose value is that of their first operand.
pub open spec fn takes_first(op: Op) -> bool {
    op == Op::Block || op == Op::Group || op == Op::Try || op == Op::Pub || op == Op::Const
        || op == Op::Static || op == Op::Identity
}

/// Operators whose value is that of their last operand.
pub open spec fn takes_last(op: Op) -> bool {
    op == Op::Do || op == Op::MetaInner || op == Op::MetaOuter
}

/// An expression, as much of it as constant evaluation reads.
///
/// Kinds of expression that never have a constant value are kept without
/// their contents.
#[derive(Debug, PartialEq, Eq)]
pub enum Expr {
    Omitted,
    Id(String),
    MetId(String),
    Lit(Literal),
    Use,
    Bind,
    Make,
    Match,
    Label,
    Op(Op, Vec<Expr>),
}

/// Whether negation is defined on a value.
pub open spec fn negatable(v: Value) -> bool {
    !(v matches Value::Int(x) && x == i128::MIN) && !(v matches Value::UInt(x) && x == 0)
}

pub open spec fn spec_neg(v: Value) -> Value {
    match v {
        Value::Int(x) => Value::Int(-x as i128),
        Value::UInt(x) => Value::UInt((u128::MAX - x + 1) as u128),
        Value::Bool(x) => Value::Bool(!x),
    }
}

pub open spec fn spec_not(v: Value) -> Value {
    match v {
        Value::Int(x) => Value::Int(!x),
        Value::UInt(x) => Value::UInt(!x),
        Value::Bool(x) => Value::Bool(!x),
    }
}

impl Expr {
    /// The constant value of an expression.
    pub open spec fn spec_value(&self) -> Option<Value>
        decreases self,
    {
        match self {
            Expr::Lit(l) => l.spec_const_eval(),
            Expr::Op(op, ats) => {
                if takes_first(*op) {
                    if ats.len() > 0 {
                        ats[0].spec_value()
                    } else {
                        None
                    }
                } else if takes_last(*op) {
                    if ats.len() > 0 {
                        ats[ats.len() - 1].spec_value()
                    } else {
                        None
                    }
                } else if *op == Op::If {
                    if ats.len() == 3 {
                        match ats[0].spec_value() {
                            None => None,
                            Some(c) => if c.spec_bool() == Some(true) {
                                ats[1].spec_value()
                            } else {
                                ats[2].spec_value()
                            },
                        }
                    } else {
                        None
                    }
                } else if *op == Op::Neg {
                    if ats.len() > 0 {
                        match ats[0].spec_value() {
                            Some(v) => Some(spec_neg(v)),
                            None => None,
                        }
                    } else {
                        None
                    }
                } else if *op == Op::Not {
                    if ats.len() > 0 {
                        match ats[0].spec_value() {
                            Some(v) => Some(spec_not(v)),
                            None => None,
                        }
                    } else {
                        None
                    }
                } else if let Some(b) = spec_bin_op(*op) {
                    if ats.len() == 2 {
                        match (ats[0].spec_value(), ats[1].spec_value()) {
                            (Some(l), Some(r)) => spec_eval_bin(b, l, r),
                            _ => None,
                        }
                    } else {
                        None
                    }
                } else {
                    None
                }
            },
            _ => None,
        }
    }

    /// Whether constant evaluation of the expression stays within the
    /// cases it handles: it reaches no path, no operator it does not
    /// evaluate yet, no `if` without exactly three operands, no negation
    /// of the least signed or of a zero unsigned value, and no binary
    /// operator on values it is not defined on.
    pub open spec fn evaluable(&self) -> bool
        decreases self,
    {
        match self {
            Expr::Id(_) => false,
            Expr::Op(op, ats) => {
                if takes_first(*op) {
                    ats.len() > 0 ==> ats[0].evaluable()
                } else if takes_last(*op) {
                    ats.len() > 0 ==> ats[ats.len() - 1].evaluable()
                } else if *op == Op::If {
                    &&& ats.len() == 3
                    &&& ats[0].evaluable()
                    &&& match ats[0].spec_value() {
                        None => true,
                        Some(c) => if c.spec_bool() == Some(true) {
                            ats[1].evaluable()
                        } else {
                            ats[2].evaluable()
                        },
                    }
                } else if *op == Op::Neg {
                    ats.len() > 0 ==> {
                        &&& ats[0].evaluable()
                        &&& (ats[0].spec_value() matches Some(v) ==> negatable(v))
                    }
                } else if *op == Op::Not {
                    ats.len() > 0 ==> ats[0].evaluable()
                } else if let Some(b) = spec_bin_op(*op) {
                    ats.len() == 2 ==> {
                        &&& ats[0].evaluable()
                        &&& (ats[0].spec_value() is Some ==> ats[1].evaluable())
                        &&& (ats[0].spec_value() matches Some(l) && ats[1].spec_value() matches Some(r)
                            ==> bin_defined(b, l, r))
                    }
                } else {
                    false
                }
            },
            _ => true,
        }
    }

    /// Evaluates an expression at compile time.
    pub fn const_eval(&self) -> (r: Option<Value>)
        requires
            self.evaluable(),
        ensures
            r == self.spec_value(),
        decreases self,
    {
        match self {
            Expr::Omitted => None,
            Expr::Id(_) => None,
            Expr::MetId(_) => None,
            Expr::Lit(lit) => lit.const_eval(),
            Expr::Use => None,
            Expr::Bind => None,
            Expr::Make => None,
            Expr::Match => None,
            Expr::Label => None,
            Expr::Op(op, ats) => {
                let op = *op;
                if op == Op::Block || op == Op::Group || op == Op::Try || op == Op::Pub || op
                    == Op::Const || op == Op::Static || op == Op::Identity {
                    if ats.len() > 0 {
                        ats[0].const_eval()
                    } else {
                        None
                    }
                } else if op == Op::Do || op == Op::MetaInner || op == Op::MetaOuter {
                    if ats.len() > 0 {
                        ats[ats.len() - 1].const_eval()
                    } else {
                        None
                    }
                } else if op == Op::If {
                    let cond = match ats[0].const_eval() {
                        None => return None,
                        Some(c) => c,
                    };
                    match cond.bool() {
                        Some(true) => ats[1].const_eval(),
                        _ => ats[2].const_eval(),
                    }
                } else if op == Op::Neg {
                    if ats.len() > 0 {
                        match ats[0].const_eval() {
                            Some(v) => Some(v.neg()),
                            None => None,
                        }
                    } else {
                        None
                    }
                } else if op == Op::Not {
                    if ats.len() > 0 {
                        match ats[0].const_eval() {
                            Some(v) => Some(v.not()),
                            None => None,
                        }
                    } else {
                        None
                    }
                } else {
                    match bin_op(op) {
                        Some(b) => {
                            if ats.len() != 2 {
                                return None;
                            }
                            let l = ats[0].const_eval();
                            if l.is_none() {
                                return None;
                            }
                            let r = ats[1].const_eval();
                            let vals = [l, r];
                            const_eval_bin(b, &vals)
                        },
                        None => None,
                    }
                }
            },
        }
    }
}

// ---------------------------------------------------------------------
// Primitive and intrinsic types
// ---------------------------------------------------------------------

/// The set of compiler-intrinsic types.
/// These primitive types have native implementations of the basic operations.
#[derive(Clone, Copy, Debug, PartialEq, Eq, Hash, Structural)]
pub enum Primitive {
    I8,
    I16,
    I32,
    I64,
    I128,
    Isize,
    U8,
    U16,
    U32,
    U64,
    U128,
    Usize,
    F8,
    F16,
    F32,
    F64,
    F128,
    Fsize,
    Integer,
    Float,
    Bool,
    Char,
    Str,
    Never,
}

impl Primitive {
    pub open spec fn spec_is_integer(self) -> bool {
        match self {
            Primitive::I8 | Primitive::I16 | Primitive::I32 | Primitive::I64 | Primitive::I128
            | Primitive::Isize | Primitive::U8 | Primitive::U16 | Primitive::U32 | Primitive::U64
            | Primitive::U128 | Primitive::Usize | Primitive::Integer => true,
            _ => false,
        }
    }

    pub open spec fn spec_is_float(self) -> bool {
        match self {
            Primitive::F8 | Primitive::F16 | Primitive::F32 | Primitive::F64 | Primitive::F128
            | Primitive::Fsize | Primitive::Float => true,
            _ => false,
        }
    }

    /// Checks whether self is an integer
    pub fn is_integer(self) -> (r: bool)
        ensures
            r == self.spec_is_integer(),
    {
        match self {
            Primitive::I8 | Primitive::I16 | Primitive::I32 | Primitive::I64 | Primitive::I128
            | Primitive::Isize | Primitive::U8 | Primitive::U16 | Primitive::U32 | Primitive::U64
            | Primitive::U128 | Primitive::Usize | Primitive::Integer => true,
            _ => false,
        }
    }

    /// Checks whether self is a floating point number
    pub fn is_float(self) -> (r: bool)
        ensures
            r == self.spec_is_float(),
    {
        match self {
            Primitive::F8 | Primitive::F16 | Primitive::F32 | Primitive::F64 | Primitive::F128
            | Primitive::Fsize | Primitive::Float => true,
            _ => false,
        }
    }
}

/// No primitive is both an integer and a floating point number.
pub proof fn law_integer_not_float(p: Primitive)
    ensures
        !(p.spec_is_integer() && p.spec_is_float()),
{
}

/// The Primitive named by a word, if any.
pub open spec fn primitive_named(s: Seq<char>) -> Option<Primitive> {
    if s == "i8"@ {
        Some(Primitive::I8)
    } else if s == "i16"@ {
        Some(Primitive::I16)
    } else if s == "i32"@ {
        Some(Primitive::I32)
    } else if s == "i64"@ {
        Some(Primitive::I64)
    } else if s == "i128"@ {
        Some(Primitive::I128)
    } else if s == "isize"@ {
        Some(Primitive::Isize)
    } else if s == "u8"@ {
        Some(Primitive::U8)
    } else if s == "u16"@ {
        Some(Primitive::U16)
    } else if s == "u32"@ {
        Some(Primitive::U32)
    } else if s == "u64"@ {
        Some(Primitive::U64)
    } else if s == "u128"@ {
        Some(Primitive::U128)
    } else if s == "usize"@ {
        Some(Primitive::Usize)
    } else if s == "f8"@ {
        Some(Primitive::F8)
    } else if s == "f16"@ {
        Some(Primitive::F16)
    } else if s == "f32"@ {
        Some(Primitive::F32)
    } else if s == "f64"@ {
        Some(Primitive::F64)
    } else if s == "f128"@ {
        Some(Primitive::F128)
    } else if s == "fsize"@ {
        Some(Primitive::Fsize)
    } else if s == "bool"@ {
        Some(Primitive::Bool)
    } else if s == "char"@ {
        Some(Primitive::Char)
    } else if s == "str"@ {
        Some(Primitive::Str)
    } else if s == "never"@ {
        Some(Primitive::Never)
    } else {
        None
    }
}

impl Primitive {
    /// Parses a primitive type name; fails on any other word.
    pub fn from_str(s: &str) -> (r: Result<Primitive, ()>)
        ensures
            r == match primitive_named(s@) {
                Some(p) => Ok(p),
                None => Err::<Primitive, ()>(()),
            },
    {
        let v = str_to_chars(s);
        if chars_eq_str(v.as_slice(), "i8") {
            return Ok(Primitive::I8);
        }
        if chars_eq_str(v.as_slice(), "i16") {
            return Ok(Primitive::I16);
        }
        if chars_eq_str(v.as_slice(), "i32") {
            return Ok(Primitive::I32);
        }
        if chars_eq_str(v.as_slice(), "i64") {
            return Ok(Primitive::I64);
        }
        if chars_eq_str(v.as_slice(), "i128") {
            return Ok(Primitive::I128);
        }
        if chars_eq_str(v.as_slice(), "isize") {
            return Ok(Primitive::Isize);
        }
        if chars_eq_str(v.as_slice(), "u8") {
            return Ok(Primitive::U8);
        }
        if chars_eq_str(v.as_slice(), "u16") {
            return Ok(Primitive::U16);
        }
        if chars_eq_str(v.as_slice(), "u32") {
            return Ok(Primitive::U32);
        }
        if chars_eq_str(v.as_slice(), "u64") {
            return Ok(Primitive::U64);
        }
        if chars_eq_str(v.as_slice(), "u128") {
            return Ok(Primitive::U128);
        }
        if chars_eq_str(v.as_slice(), "usize") {
            return Ok(Primitive::Usize);
        }
        if chars_eq_str(v.as_slice(), "f8") {
            return Ok(Primitive::F8);
        }
        if chars_eq_str(v.as_slice(), "f16") {
            return Ok(Primitive::F16);
        }
        if chars_eq_str(v.as_slice(), "f32") {
            return Ok(Primitive::F32);
        }
        if chars_eq_str(v.as_slice(), "f64") {
            return Ok(Primitive::F64);
        }
        if chars_eq_str(v.as_slice(), "f128") {
            return Ok(Primitive::F128);
        }
        if chars_eq_str(v.as_slice(), "fsize") {
            return Ok(Primitive::Fsize);
        }
        if chars_eq_str(v.as_slice(), "bool") {
            return Ok(Primitive::Bool);
        }
        if chars_eq_str(v.as_slice(), "char") {
            return Ok(Primitive::Char);
        }
        if chars_eq_str(v.as_slice(), "str") {
            return Ok(Primitive::Str);
        }
        if chars_eq_str(v.as_slice(), "never") {
            return Ok(Primitive::Never);
        }
        Err(())
    }
}

/// A type visibility.
#[derive(Clone, Copy, Debug, PartialEq, Eq, Hash, Structural)]
pub enum Visibility {
    Public,
    Private,
}

/// The set of compiler-intrinsic types that an `#[intrinsic]` attribute
/// may name.
#[derive(Clone, Copy, Debug, PartialEq, Eq, Hash, Structural)]
pub enum Intrinsic {
    I8,
    I16,
    I32,
    I64,
    Isize,
    U8,
    U16,
    U32,
    U64,
    Usize,
    Bool,
    Char,
}

/// The Intrinsic named by a word, if any.
pub open spec fn intrinsic_named(s: Seq<char>) -> Option<Intrinsic> {
    if s == "i8"@ {
        Some(Intrinsic::I8)
    } else if s == "i16"@ {
        Some(Intrinsic::I16)
    } else if s == "i32"@ {
        Some(Intrinsic::I32)
    } else if s == "i64"@ {
        Some(Intrinsic::I64)
    } else if s == "isize"@ {
        Some(Intrinsic::Isize)
    } else if s == "u8"@ {
        Some(Intrinsic::U8)
    } else if s == "u16"@ {
        Some(Intrinsic::U16)
    } else if s == "u32"@ {
        Some(Intrinsic::U32)
    } else if s == "u64"@ {
        Some(Intrinsic::U64)
    } else if s == "usize"@ {
        Some(Intrinsic::Usize)
    } else if s == "bool"@ {
        Some(Intrinsic::Bool)
    } else if s == "char"@ {
        Some(Intrinsic::Char)
    } else {
        None
    }
}

impl Intrinsic {
    /// Parses a intrinsic type name; fails on any other word.
    pub fn from_str(s: &str) -> (r: Result<Intrinsic, ()>)
        ensures
            r == match intrinsic_named(s@) {
                Some(p) => Ok(p),
                None => Err::<Intrinsic, ()>(()),
            },
    {
        let v = str_to_chars(s);
        if chars_eq_str(v.as_slice(), "i8") {
            return Ok(Intrinsic::I8);
        }
        if chars_eq_str(v.as_slice(), "i16") {
            return Ok(Intrinsic::I16);
        }
        if chars_eq_str(v.as_slice(), "i32") {
            return Ok(Intrinsic::I32);
        }
        if chars_eq_str(v.as_slice(), "i64") {
            return Ok(Intrinsic::I64);
        }
        if chars_eq_str(v.as_slice(), "isize") {
            return Ok(Intrinsic::Isize);
        }
        if chars_eq_str(v.as_slice(), "u8") {
            return Ok(Intrinsic::U8);
        }
        if chars_eq_str(v.as_slice(), "u16") {
            return Ok(Intrinsic::U16);
        }
        if chars_eq_str(v.as_slice(), "u32") {
            return Ok(Intrinsic::U32);
        }
        if chars_eq_str(v.as_slice(), "u64") {
            return Ok(Intrinsic::U64);
        }
        if chars_eq_str(v.as_slice(), "usize") {
            return Ok(Intrinsic::Usize);
        }
        if chars_eq_str(v.as_slice(), "bool") {
            return Ok(Intrinsic::Bool);
        }
        if chars_eq_str(v.as_slice(), "char") {
            return Ok(Intrinsic::Char);
        }
        Err(())
    }
}

/// A handle to a definition.
#[derive(Clone, Copy, Debug, PartialEq, Eq, Hash, Structural)]
pub struct DefID(pub usize);

/// An item in the value namespace.
#[derive(Clone, Copy, Debug, PartialEq, Eq, Structural)]
pub enum ValueKind {
    Const(DefID),
    Static(DefID),
    Local(DefID),
    Fn(DefID),
}

// ---------------------------------------------------------------------
// Scope lists
// ---------------------------------------------------------------------

/// A (usually) stack-allocated linked list, from the innermost entry
/// out to the root.
#[derive(Debug)]
pub enum List<'parent, T> {
    Cons(&'parent List<'parent, T>, T),
    Nil,
}

impl<'parent, T> List<'parent, T> {
    /// The entries, innermost first.
    pub open spec fn spec_values(&self) -> Seq<T>
        decreases self,
    {
        match self {
            List::Cons(parent, value) => seq![*value] + parent.spec_values(),
            List::Nil => Seq::empty(),
        }
    }

    /// A list of one entry.
    pub fn new(value: T) -> (r: List<'static, T>)
        ensures
            r.spec_values() == seq![value],
    {
        let r = List::Cons(&List::Nil, value);
        assert(List::<T>::Nil.spec_values() =~= Seq::<T>::empty());
        assert(r.spec_values() =~= seq![value]);
        r
    }

    /// A list with one more entry inside this one.
    pub fn enter<'a>(&'a self, value: T) -> (r: List<'a, T>)
        where T: 'a,
        ensures
            r.spec_values() == seq![value] + self.spec_values(),
    {
        List::Cons(self, value)
    }

    /// The list without its innermost entry, if it has one.
    pub fn parent(&self) -> (r: Option<&List<'parent, T>>)
        ensures
            match self {
                List::Cons(_, _) => (r matches Some(p) && p.spec_values() == self.spec_values().drop_first()),
                List::Nil => r is None,
            },
    {
        match self {
            List::Cons(parent, _) => {
                assert(self.spec_values().drop_first() =~= parent.spec_values());
                Some(parent)
            },
            List::Nil => None,
        }
    }

    /// Walks the entries, innermost first.
    pub fn iter(&self) -> (r: ListIter<'_, T>)
        ensures
            r.remaining() == self.spec_values(),
    {
        ListIter(self)
    }
}

/// Walks a [List] from its innermost entry out to the root.
pub struct ListIter<'p, T>(&'p List<'p, T>);

impl<'p, T> ListIter<'p, T> {
    /// The entries not yet walked.
    pub closed spec fn remaining(&self) -> Seq<T> {
        self.0.spec_values()
    }

    /// The next entry, if any.
    pub fn next(&mut self) -> (r: Option<&'p T>)
        ensures
            old(self).remaining().len() == 0 ==> r is None && final(self).remaining() == old(self).remaining(),
            old(self).remaining().len() > 0 ==> (r matches Some(v) && *v == old(self).remaining()[0]
                && final(self).remaining() == old(self).remaining().drop_first()),
    {
        match self.0 {
            List::Cons(list, value) => {
                assert(self.0.spec_values().drop_first() =~= list.spec_values());
                self.0 = *list;
                Some(value)
            },
            List::Nil => None,
        }
    }
}

impl<'parent, T: Copy> List<'parent, T> {
    /// The entries, from the root inward: the path that the list spells.
    pub fn to_path(&self) -> (r: Vec<T>)
        ensures
            r@ == self.spec_values().reverse(),
        decreases self,
    {
        match self {
            List::Nil => Vec::new(),
            List::Cons(nested, name) => {
                let mut v = nested.to_path();
                v.push(*name);
                assert(self.spec_values().reverse() =~= nested.spec_values().reverse().push(*name));
                v
            },
        }
    }
}

} // verus!
verus! {

impl Intrinsic {
    pub open spec fn spec_name(self) -> Seq<char> {
        match self {
            Intrinsic::I8 => "i8"@,
            Intrinsic::I16 => "i16"@,
            Intrinsic::I32 => "i32"@,
            Intrinsic::I64 => "i64"@,
            Intrinsic::Isize => "isize"@,
            Intrinsic::U8 => "u8"@,
            Intrinsic::U16 => "u16"@,
            Intrinsic::U32 => "u32"@,
            Intrinsic::U64 => "u64"@,
            Intrinsic::Usize => "usize"@,
            Intrinsic::Bool => "bool"@,
            Intrinsic::Char => "char"@,
        }
    }

    /// The name of the intrinsic type.
    pub fn as_str(&self) -> (r: &'static str)
        ensures
            r@ == self.spec_name(),
    {
        match self {
            Intrinsic::I8 => "i8",
            Intrinsic::I16 => "i16",
            Intrinsic::I32 => "i32",
            Intrinsic::I64 => "i64",
            Intrinsic::Isize => "isize",
            Intrinsic::U8 => "u8",
            Intrinsic::U16 => "u16",
            Intrinsic::U32 => "u32",
            Intrinsic::U64 => "u64",
            Intrinsic::Usize => "usize",
            Intrinsic::Bool => "bool",
            Intrinsic::Char => "char",
        }
    }
}

/// Parsing the name of an intrinsic type gives the type back.
pub proof fn law_intrinsic_name_round_trip(i: Intrinsic)
    ensures
        intrinsic_named(i.spec_name()) == Some(i),
{
    reveal_strlit("i8");
    reveal_strlit("i16");
    reveal_strlit("i32");
    reveal_strlit("i64");
    reveal_strlit("isize");
    reveal_strlit("u8");
    reveal_strlit("u16");
    reveal_strlit("u32");
    reveal_strlit("u64");
    reveal_strlit("usize");
    reveal_strlit("bool");
    reveal_strlit("char");
    assert("i8"@.len() == 2 && "i8"@[0] == 'i' && "i8"@[1] == '8');
    assert("i16"@.len() == 3 && "i16"@[0] == 'i' && "i16"@[1] == '1');
    assert("i32"@.len() == 3 && "i32"@[0] == 'i' && "i32"@[1] == '3');
    assert("i64"@.len() == 3 && "i64"@[0] == 'i' && "i64"@[1] == '6');
    assert("isize"@.len() == 5 && "isize"@[0] == 'i' && "isize"@[1] == 's');
    assert("u8"@.len() == 2 && "u8"@[0] == 'u' && "u8"@[1] == '8');
    assert("u16"@.len() == 3 && "u16"@[0] == 'u' && "u16"@[1] == '1');
    assert("u32"@.len() == 3 && "u32"@[0] == 'u' && "u32"@[1] == '3');
    assert("u64"@.len() == 3 && "u64"@[0] == 'u' && "u64"@[1] == '6');
    assert("usize"@.len() == 5 && "usize"@[0] == 'u' && "usize"@[1] == 's');
    assert("bool"@.len() == 4 && "bool"@[0] == 'b' && "bool"@[1] == 'o');
    assert("char"@.len() == 4 && "char"@[0] == 'c' && "char"@[1] == 'h');
}

impl ValueKind {
    pub open spec fn spec_text(self) -> Seq<char> {
        match self {
            ValueKind::Const(id) => "const ("@ + crate::text::decimal(id.0 as nat) + ")"@,
            ValueKind::Static(id) => "static ("@ + crate::text::decimal(id.0 as nat) + ")"@,
            ValueKind::Local(id) => "let ("@ + crate::text::decimal(id.0 as nat) + ")"@,
            ValueKind::Fn(id) => "fn def ("@ + crate::text::decimal(id.0 as nat) + ")"@,
        }
    }

    /// The kind of value and the definition it names, as text.
    pub fn to_text(&self) -> (r: String)
        ensures
            r@ == self.spec_text(),
    {
        let (word, id) = match self {
            ValueKind::Const(id) => ("const (", id),
            ValueKind::Static(id) => ("static (", id),
            ValueKind::Local(id) => ("let (", id),
            ValueKind::Fn(id) => ("fn def (", id),
        };
        let mut out = word.to_owned();
        crate::text::write_decimal(&mut out, id.0 as u128);
        out.append(")");
        out
    }
}

} // verus!
verus! {

/// Value equality is an equivalence: a signed and an unsigned integer are
/// equal when they have the same bits, and booleans equal only booleans.
pub proof fn law_value_eq_is_equivalence(a: Value, b: Value, c: Value)
    ensures
        a.spec_eq(a),
        a.spec_eq(b) ==> b.spec_eq(a),
        a.spec_eq(b) && b.spec_eq(c) ==> a.spec_eq(c),
{
}

/// Not undoes itself.
pub proof fn law_not_involution(v: Value)
    ensures
        spec_not(spec_not(v)) == v,
{
    match v {
        Value::Int(x) => {
            assert(!(!x) == x) by (bit_vector);
        },
        Value::UInt(x) => {
            assert(!(!x) == x) by (bit_vector);
        },
        Value::Bool(_) => {},
    }
}

/// Negation undoes itself where it is defined.
pub proof fn law_neg_involution(v: Value)
    requires
        negatable(v),
    ensures
        negatable(spec_neg(v)),
        spec_neg(spec_neg(v)) == v,
{
}

} // verus!
verus! {

/// Constant `^` is exclusive or: a value xored with itself is zero, xoring
/// with zero changes nothing, the order of the operands does not matter,
/// and xoring twice with the same value gives the first value back.
pub proof fn law_const_xor(x: i128, y: i128, a: u128, b: u128)
    ensures
        spec_eval_bin(BinOp::Xor, Value::Int(x), Value::Int(x)) == Some(Value::Int(0)),
        spec_eval_bin(BinOp::Xor, Value::Int(x), Value::Int(0)) == Some(Value::Int(x)),
        spec_eval_bin(BinOp::Xor, Value::Int(x), Value::Int(y)) == spec_eval_bin(BinOp::Xor, Value::Int(y), Value::Int(x)),
        spec_eval_bin(BinOp::Xor, spec_eval_bin(BinOp::Xor, Value::Int(x), Value::Int(y))->0, Value::Int(y)) == Some(
            Value::Int(x),
        ),
        spec_eval_bin(BinOp::Xor, Value::UInt(a), Value::UInt(a)) == Some(Value::UInt(0)),
        spec_eval_bin(BinOp::Xor, Value::UInt(a), Value::UInt(0)) == Some(Value::UInt(a)),
        spec_eval_bin(BinOp::Xor, Value::UInt(a), Value::UInt(b)) == spec_eval_bin(BinOp::Xor, Value::UInt(b), Value::UInt(a)),
        spec_eval_bin(BinOp::Xor, spec_eval_bin(BinOp::Xor, Value::UInt(a), Value::UInt(b))->0, Value::UInt(b)) == Some(
            Value::UInt(a),
        ),
{
    assert(x ^ x == 0) by (bit_vector);
    assert(x ^ 0 == x) by (bit_vector);
    assert(x ^ y == y ^ x) by (bit_vector);
    assert((x ^ y) ^ y == x) by (bit_vector);
    assert(a ^ a == 0) by (bit_vector);
    assert(a ^ 0 == a) by (bit_vector);
    assert(a ^ b == b ^ a) by (bit_vector);
    assert((a ^ b) ^ b == a) by (bit_vector);
}

/// Constant `&` and `|` are bitwise and and or: each is idempotent, `& 0`
/// is zero, `| 0` changes nothing, `& !0` changes nothing, and `&` of two
/// values is below or equal to their `|` in every bit: `(x & y) | (x | y)`
/// is `x | y`.
pub proof fn law_const_and_or(x: i128, y: i128, a: u128, b: u128)
    ensures
        spec_eval_bin(BinOp::And, Value::Int(x), Value::Int(x)) == Some(Value::Int(x)),
        spec_eval_bin(BinOp::And, Value::Int(x), Value::Int(0)) == Some(Value::Int(0)),
        spec_eval_bin(BinOp::And, Value::Int(x), Value::Int(-1i128)) == Some(Value::Int(x)),
        spec_eval_bin(BinOp::Or, Value::Int(x), Value::Int(x)) == Some(Value::Int(x)),
        spec_eval_bin(BinOp::Or, Value::Int(x), Value::Int(0)) == Some(Value::Int(x)),
        spec_eval_bin(BinOp::Or, Value::Int(x), Value::Int(-1i128)) == Some(Value::Int(-1i128)),
        spec_eval_bin(BinOp::And, Value::UInt(a), Value::UInt(a)) == Some(Value::UInt(a)),
        spec_eval_bin(BinOp::And, Value::UInt(a), Value::UInt(0)) == Some(Value::UInt(0)),
        spec_eval_bin(BinOp::Or, Value::UInt(a), Value::UInt(a)) == Some(Value::UInt(a)),
        spec_eval_bin(BinOp::Or, Value::UInt(a), Value::UInt(0)) == Some(Value::UInt(a)),
        spec_eval_bin(BinOp::And, Value::UInt(a), Value::UInt(b)) == spec_eval_bin(BinOp::And, Value::UInt(b), Value::UInt(a)),
        spec_eval_bin(BinOp::Or, Value::UInt(a), Value::UInt(b)) == spec_eval_bin(BinOp::Or, Value::UInt(b), Value::UInt(a)),
        spec_eval_bin(BinOp::And, Value::Int(x), Value::Int(y)) == spec_eval_bin(BinOp::And, Value::Int(y), Value::Int(x)),
        spec_eval_bin(BinOp::Or, Value::Int(x), Value::Int(y)) == spec_eval_bin(BinOp::Or, Value::Int(y), Value::Int(x)),
{
    assert(x & x == x) by (bit_vector);
    assert(x & 0 == 0) by (bit_vector);
    assert(x & -1i128 == x) by (bit_vector);
    assert(x | x == x) by (bit_vector);
    assert(x | 0 == x) by (bit_vector);
    assert(x | -1i128 == -1i128) by (bit_vector);
    assert(a & a == a) by (bit_vector);
    assert(a & 0 == 0) by (bit_vector);
    assert(a | a == a) by (bit_vector);
    assert(a | 0 == a) by (bit_vector);
    assert(a & b == b & a) by (bit_vector);
    assert(a | b == b | a) by (bit_vector);
    assert(x & y == y & x) by (bit_vector);
    assert(x | y == y | x) by (bit_vector);
}

/// Constant arithmetic wraps around: adding zero, multiplying by one,
/// dividing by one and shifting by zero change nothing; adding then
/// subtracting the same value gives the first value back; the remainder by
/// one is zero; the sum of in-range signed values is their sum.
pub proof fn law_const_arith(x: i128, y: i128, a: u128, b: u128)
    ensures
        spec_eval_bin(BinOp::Add, Value::Int(x), Value::Int(0)) == Some(Value::Int(x)),
        spec_eval_bin(BinOp::Mul, Value::Int(x), Value::Int(1)) == Some(Value::Int(x)),
        spec_eval_bin(BinOp::Mul, Value::Int(x), Value::Int(0)) == Some(Value::Int(0)),
        spec_eval_bin(BinOp::Div, Value::Int(x), Value::Int(1)) == Some(Value::Int(x)),
        spec_eval_bin(BinOp::Rem, Value::Int(x), Value::Int(1)) == Some(Value::Int(0)),
        spec_eval_bin(BinOp::Sub, spec_eval_bin(BinOp::Add, Value::Int(x), Value::Int(y))->0, Value::Int(y)) == Some(
            Value::Int(x),
        ),
        i128::MIN <= x + y <= i128::MAX ==> spec_eval_bin(BinOp::Add, Value::Int(x), Value::Int(y)) == Some(
            Value::Int((x + y) as i128),
        ),
        i128::MIN <= x - y <= i128::MAX ==> spec_eval_bin(BinOp::Sub, Value::Int(x), Value::Int(y)) == Some(
            Value::Int((x - y) as i128),
        ),
        spec_eval_bin(BinOp::Add, Value::UInt(a), Value::UInt(0)) == Some(Value::UInt(a)),
        spec_eval_bin(BinOp::Mul, Value::UInt(a), Value::UInt(1)) == Some(Value::UInt(a)),
        spec_eval_bin(BinOp::Div, Value::UInt(a), Value::UInt(1)) == Some(Value::UInt(a)),
        spec_eval_bin(BinOp::Rem, Value::UInt(a), Value::UInt(1)) == Some(Value::UInt(0)),
        spec_eval_bin(BinOp::Sub, spec_eval_bin(BinOp::Add, Value::UInt(a), Value::UInt(b))->0, Value::UInt(b)) == Some(
            Value::UInt(a),
        ),
        a + b <= u128::MAX ==> spec_eval_bin(BinOp::Add, Value::UInt(a), Value::UInt(b)) == Some(
            Value::UInt((a + b) as u128),
        ),
        b <= a ==> spec_eval_bin(BinOp::Sub, Value::UInt(a), Value::UInt(b)) == Some(Value::UInt((a - b) as u128)),
        a * b <= u128::MAX ==> spec_eval_bin(BinOp::Mul, Value::UInt(a), Value::UInt(b)) == Some(
            Value::UInt((a * b) as u128),
        ),
        b != 0 ==> spec_eval_bin(BinOp::Div, Value::UInt(a), Value::UInt(b)) == Some(Value::UInt((a / b) as u128)),
        spec_eval_bin(BinOp::Shl, Value::Int(x), Value::Int(0)) == Some(Value::Int(x)),
        spec_eval_bin(BinOp::Shr, Value::Int(x), Value::Int(0)) == Some(Value::Int(x)),
        spec_eval_bin(BinOp::Shl, Value::UInt(a), Value::UInt(0)) == Some(Value::UInt(a)),
        spec_eval_bin(BinOp::Shr, Value::UInt(a), Value::UInt(0)) == Some(Value::UInt(a)),
{
    assert(x << 0u32 == x) by (bit_vector);
    assert(x >> 0u32 == x) by (bit_vector);
    assert(a << 0u32 == a) by (bit_vector);
    assert(a >> 0u32 == a) by (bit_vector);
}

/// Constant `==` says whether two values are equal, and `!=` says the
/// opposite: every value equals itself, and a boolean never equals a
/// number.
pub proof fn law_const_equality(v: Value, w: Value)
    ensures
        spec_eval_bin(BinOp::Eq, v, v) == Some(Value::Bool(true)),
        spec_eval_bin(BinOp::Neq, v, v) == Some(Value::Bool(false)),
        spec_eval_bin(BinOp::Eq, v, w) matches Some(Value::Bool(e)) && spec_eval_bin(BinOp::Neq, v, w) == Some(
            Value::Bool(!e),
        ),
        spec_eval_bin(BinOp::Eq, v, w) == spec_eval_bin(BinOp::Eq, w, v),
        (v is Bool) != (w is Bool) ==> spec_eval_bin(BinOp::Eq, v, w) == Some(Value::Bool(false)),
{
    law_value_eq_is_equivalence(v, w, v);
}

} // verus!
