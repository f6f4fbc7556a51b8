//! The values of the Conlang interpreter, the operators on them, and the
//! nested scopes that hold its variables.
use vstd::prelude::*;
use crate::text::str_to_chars;

verus! {

// ---------------------------------------------------------------------
// Errors
// ---------------------------------------------------------------------

/// Represents any error thrown by the [Environment]
#[derive(Debug)]
pub enum Error {
    /// Propagate a Return value
    Return(ConValue),
    /// Propagate a Break value
    Break(ConValue),
    /// Break propagated across function bounds
    BadBreak(ConValue),
    /// Continue to the next iteration of a loop
    Continue,
    /// Underflowed the stack
    StackUnderflow,
    /// Exited the last scope
    ScopeExit,
    /// Type incompatibility
    TypeError,
    /// In clause of For loop didn't yield a Range
    NotIterable,
    /// A name was not defined in scope before being used
    NotDefined(String),
    /// A name was defined but not initialized
    NotInitialized(String),
    /// A value was called, but is not callable
    NotCallable(ConValue),
    /// A function was called with the wrong number of arguments
    ArgNumber { want: usize, got: usize },
}

pub type IResult<T> = Result<T, Error>;

// ---------------------------------------------------------------------
// Values
// ---------------------------------------------------------------------

/// A Conlang value.
#[derive(Debug, Default)]
pub enum ConValue {
    /// The empty/unit `()` type
    #[default]
    Empty,
    /// An integer
    Int(i128),
    /// A boolean
    Bool(bool),
    /// A unicode character
    Char(char),
    /// A string
    String(String),
    /// A tuple
    Tuple(Vec<ConValue>),
    /// An exclusive range
    RangeExc(i128, i128),
    /// An inclusive range
    RangeInc(i128, i128),
    /// A built-in function
    BuiltIn(Builtin),
}

/// Lexicographic order on sequences of chars: the order of Rust strings.
pub open spec fn seq_lt(a: Seq<char>, b: Seq<char>) -> bool
    decreases a.len(),
{
    if b.len() == 0 {
        false
    } else if a.len() == 0 {
        true
    } else if a[0] != b[0] {
        a[0] < b[0]
    } else {
        seq_lt(a.drop_first(), b.drop_first())
    }
}

/// Whether `a` comes strictly before `b`.
fn str_lt(a: &String, b: &String) -> (r: bool)
    ensures
        r == seq_lt(a@, b@),
{
    let x = str_to_chars(a.as_str());
    let y = str_to_chars(b.as_str());
    let mut i: usize = 0;
    assert(a@.skip(0) =~= a@);
    assert(b@.skip(0) =~= b@);
    while i < x.len() && i < y.len() && x[i] == y[i]
        invariant
            i <= x@.len(),
            i <= y@.len(),
            x@ == a@,
            y@ == b@,
            seq_lt(a@, b@) == seq_lt(a@.skip(i as int), b@.skip(i as int)),
        decreases x@.len() - i,
    {
        assert(a@.skip(i as int).drop_first() =~= a@.skip(i + 1));
        assert(b@.skip(i as int).drop_first() =~= b@.skip(i + 1));
        i = i + 1;
    }
    if i == y.len() {
        false
    } else if i == x.len() {
        true
    } else {
        x[i] < y[i]
    }
}

/// The comparisons that values support.
#[derive(Clone, Copy, Debug, PartialEq, Eq, Structural)]
pub enum Comparison {
    Lt,
    LtEq,
    Eq,
    Neq,
    GtEq,
    Gt,
}

/// A comparison on values whose order is given by `lt`.
pub open spec fn compare_by(c: Comparison, lt: bool, eq: bool, gt: bool) -> bool {
    match c {
        Comparison::Lt => lt,
        Comparison::LtEq => lt || eq,
        Comparison::Eq => eq,
        Comparison::Neq => !eq,
        Comparison::GtEq => gt || eq,
        Comparison::Gt => gt,
    }
}

/// What comparing two values gives: only two values of the same kind
/// (empty, integer, boolean, char or string) can be compared, and two
/// empty values are equal.
pub open spec fn spec_compare(c: Comparison, a: &ConValue, b: &ConValue) -> IResultView<bool> {
    match (a, b) {
        (ConValue::Empty, ConValue::Empty) => IResultView::Value(compare_by(c, false, true, false)),
        (ConValue::Int(x), ConValue::Int(y)) => IResultView::Value(compare_by(c, *x < *y, x == y, *x > *y)),
        (ConValue::Bool(x), ConValue::Bool(y)) => IResultView::Value(
            compare_by(c, !*x && *y, x == y, *x && !*y),
        ),
        (ConValue::Char(x), ConValue::Char(y)) => IResultView::Value(
            compare_by(c, (*x as u32) < (*y as u32), x == y, (*x as u32) > (*y as u32)),
        ),
        (ConValue::String(x), ConValue::String(y)) => IResultView::Value(
            compare_by(c, seq_lt(x@, y@), x@ == y@, seq_lt(y@, x@)),
        ),
        _ => IResultView::TypeError,
    }
}

/// The outcomes of the value operations: a result, or a type error.
pub enum IResultView<T> {
    Value(T),
    TypeError,
}

pub open spec fn is_type_error<T>(r: IResult<T>) -> bool {
    r matches Err(Error::TypeError)
}

impl ConValue {
    /// Gets whether the current value is true or false.
    pub fn truthy(&self) -> (r: IResult<bool>)
        ensures
            match self {
                ConValue::Bool(v) => r == Ok::<bool, Error>(*v),
                _ => is_type_error(r),
            },
    {
        match self {
            ConValue::Bool(v) => Ok(*v),
            _ => Err(Error::TypeError),
        }
    }

    /// An exclusive range up to `other`, stored as the inclusive range that
    /// ends one below it.
    pub fn range_exc(self, other: Self) -> (r: IResult<Self>)
        ensures
            match (self, other) {
                (ConValue::Int(a), ConValue::Int(b)) => r matches Ok(ConValue::RangeExc(x, y)) && x
                    == a && y == (if b == i128::MIN { b as int } else { b - 1 }),
                _ => is_type_error(r),
            },
    {
        match (self, other) {
            (ConValue::Int(a), ConValue::Int(b)) => Ok(
                ConValue::RangeExc(a, if b == i128::MIN { b } else { b - 1 }),
            ),
            _ => Err(Error::TypeError),
        }
    }

    /// An inclusive range from `self` to `other`.
    pub fn range_inc(self, other: Self) -> (r: IResult<Self>)
        ensures
            match (self, other) {
                (ConValue::Int(a), ConValue::Int(b)) => r matches Ok(ConValue::RangeInc(x, y)) && x
                    == a && y == b,
                _ => is_type_error(r),
            },
    {
        match (self, other) {
            (ConValue::Int(a), ConValue::Int(b)) => Ok(ConValue::RangeInc(a, b)),
            _ => Err(Error::TypeError),
        }
    }

    /// Compares two values.
    pub fn compare(&self, c: Comparison, other: &Self) -> (r: IResult<Self>)
        ensures
            match spec_compare(c, self, other) {
                IResultView::Value(b) => r matches Ok(ConValue::Bool(x)) && x == b,
                IResultView::TypeError => is_type_error(r),
            },
    {
        let (lt, eq, gt) = match (self, other) {
            (ConValue::Empty, ConValue::Empty) => (false, true, false),
            (ConValue::Int(a), ConValue::Int(b)) => (*a < *b, *a == *b, *a > *b),
            (ConValue::Bool(a), ConValue::Bool(b)) => (!*a && *b, *a == *b, *a && !*b),
            (ConValue::Char(a), ConValue::Char(b)) => {
                let (x, y) = (*a as u32, *b as u32);
                (x < y, *a == *b, x > y)
            },
            (ConValue::String(a), ConValue::String(b)) => (str_lt(a, b), *a == *b, str_lt(b, a)),
            _ => return Err(Error::TypeError),
        };
        let v = match c {
            Comparison::Lt => lt,
            Comparison::LtEq => lt || eq,
            Comparison::Eq => eq,
            Comparison::Neq => !eq,
            Comparison::GtEq => gt || eq,
            Comparison::Gt => gt,
        };
        Ok(ConValue::Bool(v))
    }

    pub fn lt(&self, other: &Self) -> (r: IResult<Self>)
        ensures
            match spec_compare(Comparison::Lt, self, other) {
                IResultView::Value(b) => r matches Ok(ConValue::Bool(x)) && x == b,
                IResultView::TypeError => is_type_error(r),
            },
    {
        self.compare(Comparison::Lt, other)
    }

    pub fn lt_eq(&self, other: &Self) -> (r: IResult<Self>)
        ensures
            match spec_compare(Comparison::LtEq, self, other) {
                IResultView::Value(b) => r matches Ok(ConValue::Bool(x)) && x == b,
                IResultView::TypeError => is_type_error(r),
            },
    {
        self.compare(Comparison::LtEq, other)
    }

    pub fn eq(&self, other: &Self) -> (r: IResult<Self>)
        ensures
            match spec_compare(Comparison::Eq, self, other) {
                IResultView::Value(b) => r matches Ok(ConValue::Bool(x)) && x == b,
                IResultView::TypeError => is_type_error(r),
            },
    {
        self.compare(Comparison::Eq, other)
    }

    pub fn neq(&self, other: &Self) -> (r: IResult<Self>)
        ensures
            match spec_compare(Comparison::Neq, self, other) {
                IResultView::Value(b) => r matches Ok(ConValue::Bool(x)) && x == b,
                IResultView::TypeError => is_type_error(r),
            },
    {
        self.compare(Comparison::Neq, other)
    }

    pub fn gt_eq(&self, other: &Self) -> (r: IResult<Self>)
        ensures
            match spec_compare(Comparison::GtEq, self, other) {
                IResultView::Value(b) => r matches Ok(ConValue::Bool(x)) && x == b,
                IResultView::TypeError => is_type_error(r),
            },
    {
        self.compare(Comparison::GtEq, other)
    }

    pub fn gt(&self, other: &Self) -> (r: IResult<Self>)
        ensures
            match spec_compare(Comparison::Gt, self, other) {
                IResultView::Value(b) => r matches Ok(ConValue::Bool(x)) && x == b,
                IResultView::TypeError => is_type_error(r),
            },
    {
        self.compare(Comparison::Gt, other)
    }
}

/// The arithmetic and bitwise operators on values.
#[derive(Clone, Copy, Debug, PartialEq, Eq, Structural)]
pub enum Arith {
    Add,
    BitAnd,
    BitOr,
    BitXor,
    Div,
    Mul,
    Rem,
    Shl,
    Shr,
    Sub,
}

/// Division rounding toward zero.
pub open spec fn trunc_div(a: int, b: int) -> int {
    let q = (if a < 0 { -a } else { a }) / (if b < 0 { -b } else { b });
    if (a < 0) == (b < 0) {
        q
    } else {
        -q
    }
}

/// The mathematical result of an operator on two integers, before it is
/// stored back in an `i128`.
pub open spec fn int_arith(op: Arith, x: i128, y: i128) -> int {
    match op {
        Arith::Add => x + y,
        Arith::Sub => x - y,
        Arith::Mul => x * y,
        Arith::Div => trunc_div(x as int, y as int),
        Arith::Rem => x - y * trunc_div(x as int, y as int),
        Arith::BitAnd => (x & y) as int,
        Arith::BitOr => (x | y) as int,
        Arith::BitXor => (x ^ y) as int,
        Arith::Shl => (x << (y as u32)) as int,
        Arith::Shr => (x >> (y as u32)) as int,
    }
}

/// Whether an operator is defined on two values: integer results must
/// fit in an `i128`, divisors must not be zero, and shift amounts must be
/// below 128.
pub open spec fn arith_defined(op: Arith, a: &ConValue, b: &ConValue) -> bool {
    match (a, b) {
        (ConValue::Int(x), ConValue::Int(y)) => {
            &&& ((op == Arith::Div || op == Arith::Rem) ==> *y != 0 && i128::MIN <= trunc_div(
                *x as int,
                *y as int,
            ) <= i128::MAX)
            &&& ((op == Arith::Shl || op == Arith::Shr) ==> 0 <= *y < 128)
            &&& i128::MIN <= int_arith(op, *x, *y) <= i128::MAX
        },
        _ => true,
    }
}

/// Which pairs of value kinds an operator accepts: two empty values (giving
/// an empty value), two integers, two booleans for the bitwise operators,
/// and two strings for addition.
pub open spec fn arith_accepts(op: Arith, a: &ConValue, b: &ConValue) -> bool {
    match (a, b) {
        (ConValue::Empty, ConValue::Empty) => true,
        (ConValue::Int(_), ConValue::Int(_)) => true,
        (ConValue::Bool(_), ConValue::Bool(_)) => op == Arith::BitAnd || op == Arith::BitOr || op
            == Arith::BitXor,
        (ConValue::String(_), ConValue::String(_)) => op == Arith::Add,
        _ => false,
    }
}

/// What an operator gives on two values that it accepts.
pub open spec fn arith_result(op: Arith, a: &ConValue, b: &ConValue, r: &ConValue) -> bool {
    match (a, b) {
        (ConValue::Empty, ConValue::Empty) => *r matches ConValue::Empty,
        (ConValue::Int(x), ConValue::Int(y)) => r matches ConValue::Int(z) && z == int_arith(op, *x, *y),
        (ConValue::Bool(x), ConValue::Bool(y)) => r matches ConValue::Bool(z) && z == match op {
            Arith::BitAnd => *x && *y,
            Arith::BitOr => *x || *y,
            _ => *x != *y,
        },
        (ConValue::String(x), ConValue::String(y)) => r matches ConValue::String(z) && z@ == x@ + y@,
        _ => false,
    }
}

fn abs_u128(x: i128) -> (r: u128)
    ensures
        r == (if x < 0 { -x } else { x as int }),
{
    if x < 0 {
        ((-(x + 1)) as u128) + 1
    } else {
        x as u128
    }
}

/// `i128` division rounding toward zero.
pub(crate) fn div_i128(x: i128, y: i128) -> (r: i128)
    requires
        y != 0,
        i128::MIN <= trunc_div(x as int, y as int) <= i128::MAX,
    ensures
        r == trunc_div(x as int, y as int),
{
    let q: u128 = abs_u128(x) / abs_u128(y);
    if (x < 0) == (y < 0) {
        q as i128
    } else {
        if q == 0 {
            0
        } else {
            -((q - 1) as i128) - 1
        }
    }
}

/// The remainder of `i128` division rounding toward zero.
pub(crate) fn rem_i128(x: i128, y: i128) -> (r: i128)
    requires
        y != 0,
    ensures
        r == x - y * trunc_div(x as int, y as int),
{
    let ax = abs_u128(x);
    let ay = abs_u128(y);
    let m: u128 = ax % ay;
    let ghost q0 = ax / ay;
    assert(ax == ay * q0 + m && m <= ax) by (nonlinear_arith)
        requires
            ay > 0,
            q0 == ax / ay,
            m == ax % ay,
    ;
    assert(trunc_div(x as int, y as int) == if (x < 0) == (y < 0) { q0 as int } else { -q0 });
    if x < 0 {
        assert(x - y * trunc_div(x as int, y as int) == -m) by (nonlinear_arith)
            requires
                x < 0,
                ax == -x,
                ay == (if y < 0 { -y } else { y as int }),
                ax == ay * q0 + m,
                trunc_div(x as int, y as int) == if (x < 0) == (y < 0) { q0 as int } else { -q0 },
        ;
        -(m as i128)
    } else {
        assert(x - y * trunc_div(x as int, y as int) == m) by (nonlinear_arith)
            requires
                x >= 0,
                ax == x,
                ay == (if y < 0 { -y } else { y as int }),
                ax == ay * q0 + m,
                trunc_div(x as int, y as int) == if (x < 0) == (y < 0) { q0 as int } else { -q0 },
        ;
        m as i128
    }
}

fn concat(a: String, b: String) -> (r: String)
    ensures
        r@ == a@ + b@,
{
    a.concat(b.as_str())
}

impl ConValue {
    /// Applies an arithmetic or bitwise operator.
    pub fn arith(self, op: Arith, other: Self) -> (r: IResult<Self>)
        requires
            arith_defined(op, &self, &other),
        ensures
            arith_accepts(op, &self, &other) ==> (r matches Ok(v) && arith_result(op, &self, &other, &v)),
            !arith_accepts(op, &self, &other) ==> is_type_error(r),
    {
        match (self, other) {
            (ConValue::Empty, ConValue::Empty) => Ok(ConValue::Empty),
            (ConValue::Int(x), ConValue::Int(y)) => {
                let z: i128 = match op {
                    Arith::Add => x + y,
                    Arith::Sub => x - y,
                    Arith::Mul => x * y,
                    Arith::Div => div_i128(x, y),
                    Arith::Rem => rem_i128(x, y),
                    Arith::BitAnd => x & y,
                    Arith::BitOr => x | y,
                    Arith::BitXor => x ^ y,
                    Arith::Shl => x << (y as u32),
                    Arith::Shr => x >> (y as u32),
                };
                Ok(ConValue::Int(z))
            },
            (ConValue::Bool(x), ConValue::Bool(y)) => match op {
                Arith::BitAnd => Ok(ConValue::Bool(x && y)),
                Arith::BitOr => Ok(ConValue::Bool(x || y)),
                Arith::BitXor => Ok(ConValue::Bool(x != y)),
                _ => Err(Error::TypeError),
            },
            (ConValue::String(x), ConValue::String(y)) => match op {
                Arith::Add => Ok(ConValue::String(concat(x, y))),
                _ => Err(Error::TypeError),
            },
            _ => Err(Error::TypeError),
        }
    }

    /// Applies an operator in place: `self = self op other`. When the
    /// operator fails, `self` is left empty.
    pub fn arith_assign(&mut self, op: Arith, other: Self) -> (r: IResult<()>)
        requires
            arith_defined(op, old(self), &other),
        ensures
            arith_accepts(op, old(self), &other) ==> (r is Ok && arith_result(op, old(self), &other, final(self))),
            !arith_accepts(op, old(self), &other) ==> (is_type_error(r) && *final(self) matches ConValue::Empty),
    {
        let mut this = ConValue::Empty;
        std::mem::swap(&mut this, self);
        match this.arith(op, other) {
            Ok(v) => {
                *self = v;
                Ok(())
            },
            Err(e) => Err(e),
        }
    }
}

impl ConValue {
    /// Adds two values: integers, or strings by concatenation. Two empty values give an empty value.
    pub fn add(self, rhs: Self) -> (r: IResult<Self>)
        requires
            arith_defined(Arith::Add, &self, &rhs),
        ensures
            arith_accepts(Arith::Add, &self, &rhs) ==> (r matches Ok(v) && arith_result(Arith::Add, &self, &rhs, &v)),
            !arith_accepts(Arith::Add, &self, &rhs) ==> is_type_error(r),
    {
        self.arith(Arith::Add, rhs)
    }

    /// Bitwise and of two integers or two booleans. Two empty values give an empty value.
    pub fn bitand(self, rhs: Self) -> (r: IResult<Self>)
        requires
            arith_defined(Arith::BitAnd, &self, &rhs),
        ensures
            arith_accepts(Arith::BitAnd, &self, &rhs) ==> (r matches Ok(v) && arith_result(Arith::BitAnd, &self, &rhs, &v)),
            !arith_accepts(Arith::BitAnd, &self, &rhs) ==> is_type_error(r),
    {
        self.arith(Arith::BitAnd, rhs)
    }

    /// Bitwise or of two integers or two booleans. Two empty values give an empty value.
    pub fn bitor(self, rhs: Self) -> (r: IResult<Self>)
        requires
            arith_defined(Arith::BitOr, &self, &rhs),
        ensures
            arith_accepts(Arith::BitOr, &self, &rhs) ==> (r matches Ok(v) && arith_result(Arith::BitOr, &self, &rhs, &v)),
            !arith_accepts(Arith::BitOr, &self, &rhs) ==> is_type_error(r),
    {
        self.arith(Arith::BitOr, rhs)
    }

    /// Bitwise exclusive or of two integers or two booleans. Two empty values give an empty value.
    pub fn bitxor(self, rhs: Self) -> (r: IResult<Self>)
        requires
            arith_defined(Arith::BitXor, &self, &rhs),
        ensures
            arith_accepts(Arith::BitXor, &self, &rhs) ==> (r matches Ok(v) && arith_result(Arith::BitXor, &self, &rhs, &v)),
            !arith_accepts(Arith::BitXor, &self, &rhs) ==> is_type_error(r),
    {
        self.arith(Arith::BitXor, rhs)
    }

    /// Divides two integers, rounding toward zero. Two empty values give an empty value.
    pub fn div(self, rhs: Self) -> (r: IResult<Self>)
        requires
            arith_defined(Arith::Div, &self, &rhs),
        ensures
            arith_accepts(Arith::Div, &self, &rhs) ==> (r matches Ok(v) && arith_result(Arith::Div, &self, &rhs, &v)),
            !arith_accepts(Arith::Div, &self, &rhs) ==> is_type_error(r),
    {
        self.arith(Arith::Div, rhs)
    }

    /// Multiplies two integers. Two empty values give an empty value.
    pub fn mul(self, rhs: Self) -> (r: IResult<Self>)
        requires
            arith_defined(Arith::Mul, &self, &rhs),
        ensures
            arith_accepts(Arith::Mul, &self, &rhs) ==> (r matches Ok(v) && arith_result(Arith::Mul, &self, &rhs, &v)),
            !arith_accepts(Arith::Mul, &self, &rhs) ==> is_type_error(r),
    {
        self.arith(Arith::Mul, rhs)
    }

    /// The remainder of dividing two integers, with the sign of the dividend. Two empty values give an empty value.
    pub fn rem(self, rhs: Self) -> (r: IResult<Self>)
        requires
            arith_defined(Arith::Rem, &self, &rhs),
        ensures
            arith_accepts(Arith::Rem, &self, &rhs) ==> (r matches Ok(v) && arith_result(Arith::Rem, &self, &rhs, &v)),
            !arith_accepts(Arith::Rem, &self, &rhs) ==> is_type_error(r),
    {
        self.arith(Arith::Rem, rhs)
    }

    /// Shifts an integer left. Two empty values give an empty value.
    pub fn shl(self, rhs: Self) -> (r: IResult<Self>)
        requires
            arith_defined(Arith::Shl, &self, &rhs),
        ensures
            arith_accepts(Arith::Shl, &self, &rhs) ==> (r matches Ok(v) && arith_result(Arith::Shl, &self, &rhs, &v)),
            !arith_accepts(Arith::Shl, &self, &rhs) ==> is_type_error(r),
    {
        self.arith(Arith::Shl, rhs)
    }

    /// Shifts an integer right, keeping its sign. Two empty values give an empty value.
    pub fn shr(self, rhs: Self) -> (r: IResult<Self>)
        requires
            arith_defined(Arith::Shr, &self, &rhs),
        ensures
            arith_accepts(Arith::Shr, &self, &rhs) ==> (r matches Ok(v) && arith_result(Arith::Shr, &self, &rhs, &v)),
            !arith_accepts(Arith::Shr, &self, &rhs) ==> is_type_error(r),
    {
        self.arith(Arith::Shr, rhs)
    }

    /// Subtracts two integers. Two empty values give an empty value.
    pub fn sub(self, rhs: Self) -> (r: IResult<Self>)
        requires
            arith_defined(Arith::Sub, &self, &rhs),
        ensures
            arith_accepts(Arith::Sub, &self, &rhs) ==> (r matches Ok(v) && arith_result(Arith::Sub, &self, &rhs, &v)),
            !arith_accepts(Arith::Sub, &self, &rhs) ==> is_type_error(r),
    {
        self.arith(Arith::Sub, rhs)
    }

    /// `self = self add other`; on a type error `self` is left empty.
    pub fn add_assign(&mut self, other: Self) -> (r: IResult<()>)
        requires
            arith_defined(Arith::Add, old(self), &other),
        ensures
            arith_accepts(Arith::Add, old(self), &other) ==> (r is Ok && arith_result(Arith::Add, old(self), &other, final(self))),
            !arith_accepts(Arith::Add, old(self), &other) ==> (is_type_error(r) && *final(self) matches ConValue::Empty),
    {
        self.arith_assign(Arith::Add, other)
    }

    /// `self = self bitand other`; on a type error `self` is left empty.
    pub fn bitand_assign(&mut self, other: Self) -> (r: IResult<()>)
        requires
            arith_defined(Arith::BitAnd, old(self), &other),
        ensures
            arith_accepts(Arith::BitAnd, old(self), &other) ==> (r is Ok && arith_result(Arith::BitAnd, old(self), &other, final(self))),
            !arith_accepts(Arith::BitAnd, old(self), &other) ==> (is_type_error(r) && *final(self) matches ConValue::Empty),
    {
        self.arith_assign(Arith::BitAnd, other)
    }

    /// `self = self bitor other`; on a type error `self` is left empty.
    pub fn bitor_assign(&mut self, other: Self) -> (r: IResult<()>)
        requires
            arith_defined(Arith::BitOr, old(self), &other),
        ensures
            arith_accepts(Arith::BitOr, old(self), &other) ==> (r is Ok && arith_result(Arith::BitOr, old(self), &other, final(self))),
            !arith_accepts(Arith::BitOr, old(self), &other) ==> (is_type_error(r) && *final(self) matches ConValue::Empty),
    {
        self.arith_assign(Arith::BitOr, other)
    }

    /// `self = self bitxor other`; on a type error `self` is left empty.
    pub fn bitxor_assign(&mut self, other: Self) -> (r: IResult<()>)
        requires
            arith_defined(Arith::BitXor, old(self), &other),
        ensures
            arith_accepts(Arith::BitXor, old(self), &other) ==> (r is Ok && arith_result(Arith::BitXor, old(self), &other, final(self))),
            !arith_accepts(Arith::BitXor, old(self), &other) ==> (is_type_error(r) && *final(self) matches ConValue::Empty),
    {
        self.arith_assign(Arith::BitXor, other)
    }

    /// `self = self div other`; on a type error `self` is left empty.
    pub fn div_assign(&mut self, other: Self) -> (r: IResult<()>)
        requires
            arith_defined(Arith::Div, old(self), &other),
        ensures
            arith_accepts(Arith::Div, old(self), &other) ==> (r is Ok && arith_result(Arith::Div, old(self), &other, final(self))),
            !arith_accepts(Arith::Div, old(self), &other) ==> (is_type_error(r) && *final(self) matches ConValue::Empty),
    {
        self.arith_assign(Arith::Div, other)
    }

    /// `self = self mul other`; on a type error `self` is left empty.
    pub fn mul_assign(&mut self, other: Self) -> (r: IResult<()>)
        requires
            arith_defined(Arith::Mul, old(self), &other),
        ensures
            arith_accepts(Arith::Mul, old(self), &other) ==> (r is Ok && arith_result(Arith::Mul, old(self), &other, final(self))),
            !arith_accepts(Arith::Mul, old(self), &other) ==> (is_type_error(r) && *final(self) matches ConValue::Empty),
    {
        self.arith_assign(Arith::Mul, other)
    }

    /// `self = self rem other`; on a type error `self` is left empty.
    pub fn rem_assign(&mut self, other: Self) -> (r: IResult<()>)
        requires
            arith_defined(Arith::Rem, old(self), &other),
        ensures
            arith_accepts(Arith::Rem, old(self), &other) ==> (r is Ok && arith_result(Arith::Rem, old(self), &other, final(self))),
            !arith_accepts(Arith::Rem, old(self), &other) ==> (is_type_error(r) && *final(self) matches ConValue::Empty),
    {
        self.arith_assign(Arith::Rem, other)
    }

    /// `self = self shl other`; on a type error `self` is left empty.
    pub fn shl_assign(&mut self, other: Self) -> (r: IResult<()>)
        requires
            arith_defined(Arith::Shl, old(self), &other),
        ensures
            arith_accepts(Arith::Shl, old(self), &other) ==> (r is Ok && arith_result(Arith::Shl, old(self), &other, final(self))),
            !arith_accepts(Arith::Shl, old(self), &other) ==> (is_type_error(r) && *final(self) matches ConValue::Empty),
    {
        self.arith_assign(Arith::Shl, other)
    }

    /// `self = self shr other`; on a type error `self` is left empty.
    pub fn shr_assign(&mut self, other: Self) -> (r: IResult<()>)
        requires
            arith_defined(Arith::Shr, old(self), &other),
        ensures
            arith_accepts(Arith::Shr, old(self), &other) ==> (r is Ok && arith_result(Arith::Shr, old(self), &other, final(self))),
            !arith_accepts(Arith::Shr, old(self), &other) ==> (is_type_error(r) && *final(self) matches ConValue::Empty),
    {
        self.arith_assign(Arith::Shr, other)
    }

    /// `self = self sub other`; on a type error `self` is left empty.
    pub fn sub_assign(&mut self, other: Self) -> (r: IResult<()>)
        requires
            arith_defined(Arith::Sub, old(self), &other),
        ensures
            arith_accepts(Arith::Sub, old(self), &other) ==> (r is Ok && arith_result(Arith::Sub, old(self), &other, final(self))),
            !arith_accepts(Arith::Sub, old(self), &other) ==> (is_type_error(r) && *final(self) matches ConValue::Empty),
    {
        self.arith_assign(Arith::Sub, other)
    }

    /// Negates an integer; an empty value stays empty.
    pub fn neg(self) -> (r: IResult<Self>)
        requires
            self matches ConValue::Int(v) ==> v != i128::MIN,
        ensures
            match self {
                ConValue::Empty => r matches Ok(ConValue::Empty),
                ConValue::Int(v) => r matches Ok(ConValue::Int(w)) && w == -v,
                _ => is_type_error(r),
            },
    {
        match self {
            ConValue::Empty => Ok(ConValue::Empty),
            ConValue::Int(v) => Ok(ConValue::Int(-v)),
            _ => Err(Error::TypeError),
        }
    }

    /// Logical not of a boolean, bitwise not of an integer; an empty value
    /// stays empty.
    pub fn not(self) -> (r: IResult<Self>)
        ensures
            match self {
                ConValue::Empty => r matches Ok(ConValue::Empty),
                ConValue::Int(v) => r matches Ok(ConValue::Int(w)) && w == !v && w == -v - 1,
                ConValue::Bool(b) => r matches Ok(ConValue::Bool(c)) && c == !b,
                _ => is_type_error(r),
            },
    {
        match self {
            ConValue::Empty => Ok(ConValue::Empty),
            ConValue::Int(v) => {
                let w = !v;
                assert(w == -v - 1) by (bit_vector)
                    requires
                        w == !v,
                ;
                Ok(ConValue::Int(w))
            },
            ConValue::Bool(b) => Ok(ConValue::Bool(!b)),
            _ => Err(Error::TypeError),
        }
    }
}


// ---------------------------------------------------------------------
// Built-in functions
// ---------------------------------------------------------------------

/// [BuiltIn]s are functions with bespoke definitions, known by name.
pub trait BuiltIn {
    /// Returns the common name of this builtin.
    fn name(&self) -> &'static str;
}

/// Implements the `print(...)` builtin
#[derive(Clone, Copy, Debug, PartialEq, Eq, Structural)]
pub struct Print;

/// Implements the `dbg(...)` builtin
#[derive(Clone, Copy, Debug, PartialEq, Eq, Structural)]
pub struct Dbg;

/// Implements the `dump()` builtin
#[derive(Clone, Copy, Debug, PartialEq, Eq, Structural)]
pub struct Dump;

impl BuiltIn for Print {
    fn name(&self) -> (r: &'static str)
        ensures
            r@ == "print"@,
    {
        "print"
    }
}

impl BuiltIn for Dbg {
    fn name(&self) -> (r: &'static str)
        ensures
            r@ == "dbg"@,
    {
        "dbg"
    }
}

impl BuiltIn for Dump {
    fn name(&self) -> (r: &'static str)
        ensures
            r@ == "dump"@,
    {
        "dump"
    }
}

/// The builtins that a new environment starts with.
#[derive(Clone, Copy, Debug, PartialEq, Eq, Structural)]
pub enum Builtin {
    Print(Print),
    Dbg(Dbg),
    Dump(Dump),
}

impl Builtin {
    pub open spec fn spec_name(self) -> Seq<char> {
        match self {
            Builtin::Print(_) => "print"@,
            Builtin::Dbg(_) => "dbg"@,
            Builtin::Dump(_) => "dump"@,
        }
    }

    /// The name under which this builtin is bound.
    pub fn name(&self) -> (r: &'static str)
        ensures
            r@ == self.spec_name(),
    {
        match self {
            Builtin::Print(_) => "print",
            Builtin::Dbg(_) => "dbg",
            Builtin::Dump(_) => "dump",
        }
    }
}

// ---------------------------------------------------------------------
// Environments
// ---------------------------------------------------------------------

/// The variables of one scope: name, and value if initialized. A later
/// entry for a name shadows an earlier one.
pub open spec fn vars_map(vars: Seq<(String, Option<ConValue>)>) -> Map<Seq<char>, Option<ConValue>>
    decreases vars.len(),
{
    if vars.len() == 0 {
        Map::empty()
    } else {
        vars_map(vars.drop_last()).insert(vars.last().0@, vars.last().1)
    }
}

/// Looks a name up through a stack of scopes, innermost (last) first:
/// `Some(v)` is the record of the innermost scope that binds it.
pub open spec fn lookup(frames: Seq<Map<Seq<char>, Option<ConValue>>>, id: Seq<char>) -> Option<Option<ConValue>>
    decreases frames.len(),
{
    if frames.len() == 0 {
        None
    } else if frames.last().contains_key(id) {
        Some(frames.last()[id])
    } else {
        lookup(frames.drop_last(), id)
    }
}

/// The index of the innermost scope that binds a name.
pub open spec fn binding_frame(frames: Seq<Map<Seq<char>, Option<ConValue>>>, id: Seq<char>) -> int
    decreases frames.len(),
{
    if frames.len() == 0 {
        -1
    } else if frames.last().contains_key(id) {
        frames.len() - 1
    } else {
        binding_frame(frames.drop_last(), id)
    }
}

proof fn lemma_vars_map_at(vars: Seq<(String, Option<ConValue>)>, k: int, id: Seq<char>)
    requires
        0 <= k < vars.len(),
        vars[k].0@ == id,
        forall|j: int| k < j < vars.len() ==> vars[j].0@ != id,
    ensures
        vars_map(vars).contains_key(id),
        vars_map(vars)[id] == vars[k].1,
    decreases vars.len(),
{
    if k < vars.len() - 1 {
        lemma_vars_map_at(vars.drop_last(), k, id);
    }
}

proof fn lemma_vars_map_absent(vars: Seq<(String, Option<ConValue>)>, id: Seq<char>)
    requires
        forall|j: int| 0 <= j < vars.len() ==> vars[j].0@ != id,
    ensures
        !vars_map(vars).contains_key(id),
    decreases vars.len(),
{
    if vars.len() > 0 {
        lemma_vars_map_absent(vars.drop_last(), id);
    }
}

proof fn lemma_vars_map_update(vars: Seq<(String, Option<ConValue>)>, k: int, v: Option<ConValue>)
    requires
        0 <= k < vars.len(),
        forall|j: int| k < j < vars.len() ==> vars[j].0@ != vars[k].0@,
    ensures
        vars_map(vars.update(k, (vars[k].0, v))) == vars_map(vars).insert(vars[k].0@, v),
    decreases vars.len(),
{
    let id = vars[k].0@;
    let w = vars.update(k, (vars[k].0, v));
    if k == vars.len() - 1 {
        assert(w.drop_last() =~= vars.drop_last());
        assert(vars_map(w) =~= vars_map(vars).insert(id, v));
    } else {
        lemma_vars_map_update(vars.drop_last(), k, v);
        assert(w.drop_last() =~= vars.drop_last().update(k, (vars[k].0, v)));
        assert(vars_map(w) =~= vars_map(vars).insert(id, v));
    }
}

proof fn lemma_lookup_take(frames: Seq<Map<Seq<char>, Option<ConValue>>>, i: int, id: Seq<char>)
    requires
        0 <= i < frames.len(),
        !frames[i].contains_key(id),
    ensures
        lookup(frames.take(i + 1), id) == lookup(frames.take(i), id),
        binding_frame(frames.take(i + 1), id) == binding_frame(frames.take(i), id),
{
    assert(frames.take(i + 1).drop_last() =~= frames.take(i));
}

proof fn lemma_lookup_found(frames: Seq<Map<Seq<char>, Option<ConValue>>>, i: int, id: Seq<char>)
    requires
        0 <= i < frames.len(),
        frames[i].contains_key(id),
    ensures
        lookup(frames.take(i + 1), id) == Some(frames[i][id]),
        binding_frame(frames.take(i + 1), id) == i,
{
}

/// One scope of an [Environment]: its variables and its name.
#[derive(Debug)]
pub struct Scope {
    vars: Vec<(String, Option<ConValue>)>,
    name: &'static str,
}

impl Scope {
    pub closed spec fn map(&self) -> Map<Seq<char>, Option<ConValue>> {
        vars_map(self.vars@)
    }

    pub closed spec fn spec_name(&self) -> Seq<char> {
        self.name@
    }

    /// The name this scope was entered with.
    pub fn name(&self) -> (r: &'static str)
        ensures
            r@ == self.spec_name(),
    {
        self.name
    }

    /// The scope's bindings, oldest first; a later entry shadows an earlier
    /// one of the same name.
    pub fn bindings(&self) -> (r: &Vec<(String, Option<ConValue>)>)
        ensures
            vars_map(r@) == self.map(),
    {
        &self.vars
    }
}

/// Implements a nested lexical scope
#[derive(Debug)]
pub struct Environment {
    frames: Vec<Scope>,
}

impl View for Environment {
    type V = Seq<Map<Seq<char>, Option<ConValue>>>;

    closed spec fn view(&self) -> Self::V {
        Seq::new(self.frames@.len(), |i: int| self.frames@[i].map())
    }
}

impl Environment {
    /// The names of the scopes, outermost first.
    pub closed spec fn names(&self) -> Seq<Seq<char>> {
        Seq::new(self.frames@.len(), |i: int| self.frames@[i].spec_name())
    }

    /// An environment with a scope of builtins and a scope of globals.
    pub fn new() -> (r: Self)
        ensures
            r@.len() == 2,
            r@[0] == Map::<Seq<char>, Option<ConValue>>::empty().insert(
                "print"@,
                Some(ConValue::BuiltIn(Builtin::Print(Print))),
            ).insert("dbg"@, Some(ConValue::BuiltIn(Builtin::Dbg(Dbg)))).insert(
                "dump"@,
                Some(ConValue::BuiltIn(Builtin::Dump(Dump))),
            ),
            r@[1] == Map::<Seq<char>, Option<ConValue>>::empty(),
            r.names() == seq!["builtins"@, "globals"@],
    {
        let mut builtins: Vec<(String, Option<ConValue>)> = Vec::new();
        let all = [Builtin::Print(Print), Builtin::Dbg(Dbg), Builtin::Dump(Dump)];
        let mut i: usize = 0;
        while i < 3
            invariant
                i <= 3,
                all@ == seq![Builtin::Print(Print), Builtin::Dbg(Dbg), Builtin::Dump(Dump)],
                builtins@.len() == i,
                forall|j: int| 0 <= j < i ==> builtins@[j].0@ == (#[trigger] all@[j]).spec_name()
                    && builtins@[j].1 == Some(ConValue::BuiltIn(all@[j])),
            decreases 3 - i,
        {
            let b = all[i];
            builtins.push((b.name().to_owned(), Some(ConValue::BuiltIn(b))));
            i = i + 1;
        }
        let ghost v = builtins@;
        assert(v.drop_last().drop_last().drop_last() =~= Seq::<(String, Option<ConValue>)>::empty());
        assert(v.drop_last().drop_last() =~= seq![v[0]]);
        assert(v.drop_last() =~= seq![v[0], v[1]]);
        assert(all@[0].spec_name() == "print"@ && all@[1].spec_name() == "dbg"@ && all@[2].spec_name() == "dump"@);
        let ghost m0 = Map::<Seq<char>, Option<ConValue>>::empty();
        assert(vars_map(v.drop_last().drop_last().drop_last()) == m0);
        assert(vars_map(v.drop_last().drop_last()) == m0.insert(v[0].0@, v[0].1));
        assert(vars_map(v.drop_last()) == m0.insert(v[0].0@, v[0].1).insert(v[1].0@, v[1].1));
        assert(vars_map(v) == m0.insert(v[0].0@, v[0].1).insert(v[1].0@, v[1].1).insert(v[2].0@, v[2].1));
        let mut frames: Vec<Scope> = Vec::new();
        frames.push(Scope { vars: builtins, name: "builtins" });
        frames.push(Scope { vars: Vec::new(), name: "globals" });
        let r = Environment { frames };
        assert(vars_map(Seq::<(String, Option<ConValue>)>::empty()) == Map::<Seq<char>, Option<ConValue>>::empty());
        assert(r@[0] == vars_map(v));
        assert(r.names() =~= seq!["builtins"@, "globals"@]);
        r
    }

    /// Creates an [Environment] with no builtins: a single empty scope.
    pub fn no_builtins(name: &'static str) -> (r: Self)
        ensures
            r@ == seq![Map::<Seq<char>, Option<ConValue>>::empty()],
            r.names() == seq![name@],
    {
        let mut frames: Vec<Scope> = Vec::new();
        frames.push(Scope { vars: Vec::new(), name });
        let r = Environment { frames };
        assert(vars_map(Seq::<(String, Option<ConValue>)>::empty()) == Map::<Seq<char>, Option<ConValue>>::empty());
        assert(r@ =~= seq![Map::<Seq<char>, Option<ConValue>>::empty()]);
        assert(r.names() =~= seq![name@]);
        r
    }

    /// The scopes, outermost first.
    pub fn scopes(&self) -> (r: &Vec<Scope>)
        ensures
            r@.len() == self@.len(),
            forall|i: int| 0 <= i < r@.len() ==> (#[trigger] r@[i]).map() == self@[i] && r@[i].spec_name()
                == self.names()[i],
    {
        &self.frames
    }

    /// Finds the innermost scope and the latest entry in it that bind `id`.
    fn find(&self, id: &str) -> (r: Option<(usize, usize)>)
        ensures
            match r {
                Some((i, j)) => {
                    &&& lookup(self@, id@) == Some(self.frames@[i as int].vars@[j as int].1)
                    &&& binding_frame(self@, id@) == i
                    &&& i < self.frames@.len()
                    &&& j < self.frames@[i as int].vars@.len()
                    &&& self.frames@[i as int].vars@[j as int].0@ == id@
                    &&& forall|k: int| j < k < self.frames@[i as int].vars@.len() ==> self.frames@[i as int].vars@[k].0@ != id@
                },
                None => lookup(self@, id@) is None,
            },
    {
        let ghost frames = self@;
        let key = id.to_owned();
        let mut i: usize = self.frames.len();
        assert(frames.take(i as int) =~= frames);
        while i > 0
            invariant
                i <= self.frames@.len(),
                frames == self@,
                key@ == id@,
                lookup(frames, id@) == lookup(frames.take(i as int), id@),
                binding_frame(frames, id@) == binding_frame(frames.take(i as int), id@),
            decreases i,
        {
            let frame = &self.frames[i - 1];
            let mut j: usize = frame.vars.len();
            while j > 0
                invariant
                    0 < i <= self.frames@.len(),
                    frames == self@,
                    *frame == self.frames@[i - 1],
                    key@ == id@,
                    lookup(frames, id@) == lookup(frames.take(i as int), id@),
                    binding_frame(frames, id@) == binding_frame(frames.take(i as int), id@),
                    j <= frame.vars@.len(),
                    forall|k: int| j <= k < frame.vars@.len() ==> frame.vars@[k].0@ != id@,
                decreases j,
            {
                let same = frame.vars[j - 1].0 == key;
                if same {
                    proof {
                        lemma_vars_map_at(frame.vars@, j - 1, id@);
                        lemma_lookup_found(frames, i - 1, id@);
                    }
                    return Some((i - 1, j - 1));
                }
                j = j - 1;
            }
            proof {
                lemma_vars_map_absent(frame.vars@, id@);
                lemma_lookup_take(frames, i - 1, id@);
            }
            i = i - 1;
        }
        None
    }

    /// Resolves a variable immutably: its value, if it is defined and
    /// initialized.
    pub fn get(&self, id: &str) -> (r: IResult<&ConValue>)
        ensures
            match lookup(self@, id@) {
                Some(Some(v)) => r matches Ok(x) && *x == v,
                Some(None) => r matches Err(Error::NotInitialized(s)) && s@ == id@,
                None => r matches Err(Error::NotDefined(s)) && s@ == id@,
            },
    {
        match self.find(id) {
            Some((i, j)) => match &self.frames[i].vars[j].1 {
                Some(v) => Ok(v),
                None => Err(Error::NotInitialized(id.to_owned())),
            },
            None => Err(Error::NotDefined(id.to_owned())),
        }
    }

    /// Replaces the record of a variable in the innermost scope that binds
    /// it, and gives back the record it had.
    pub fn replace(&mut self, id: &str, value: Option<ConValue>) -> (r: IResult<Option<ConValue>>)
        ensures
            match lookup(old(self)@, id@) {
                Some(v) => r == Ok::<Option<ConValue>, Error>(v) && final(self)@ == old(self)@.update(
                    binding_frame(old(self)@, id@),
                    old(self)@[binding_frame(old(self)@, id@)].insert(id@, value),
                ),
                None => r matches Err(Error::NotDefined(s)) && s@ == id@ && final(self)@ == old(self)@,
            },
            final(self).names() == old(self).names(),
    {
        match self.find(id) {
            Some((i, j)) => {
                let ghost old_vars = self.frames@[i as int].vars@;
                let ghost old_view = self@;
                let mut frame = self.frames.remove(i);
                let key = frame.vars[j].0.clone();
                let mut entry: (String, Option<ConValue>) = (key, value);
                std::mem::swap(&mut entry, &mut frame.vars[j]);
                proof {
                    lemma_vars_map_update(old_vars, j as int, value);
                }
                self.frames.insert(i, frame);
                assert(self@ =~= old_view.update(i as int, old_view[i as int].insert(id@, value)));
                assert(self.names() =~= old(self).names());
                Ok(entry.1)
            },
            None => Err(Error::NotDefined(id.to_owned())),
        }
    }

    /// Binds a name in the innermost scope, shadowing any binding it had
    /// there.
    pub fn insert(&mut self, id: &str, value: Option<ConValue>)
        ensures
            old(self)@.len() > 0 ==> final(self)@ == old(self)@.update(
                old(self)@.len() - 1,
                old(self)@.last().insert(id@, value),
            ),
            old(self)@.len() == 0 ==> final(self)@ == old(self)@,
            final(self).names() == old(self).names(),
    {
        let n = self.frames.len();
        if n > 0 {
            let ghost old_view = self@;
            let mut frame = self.frames.pop().unwrap();
            let ghost old_vars = frame.vars@;
            frame.vars.push((id.to_owned(), value));
            assert(frame.vars@.drop_last() =~= old_vars);
            self.frames.push(frame);
            assert(self@ =~= old_view.update(n - 1, old_view.last().insert(id@, value)));
            assert(self.names() =~= old(self).names());
        }
    }

    /// Enters a scope, creating a new namespace for variables.
    pub fn enter(&mut self, name: &'static str)
        ensures
            final(self)@ == old(self)@.push(Map::empty()),
            final(self).names() == old(self).names().push(name@),
    {
        self.frames.push(Scope { vars: Vec::new(), name });
        assert(vars_map(Seq::<(String, Option<ConValue>)>::empty()) == Map::<Seq<char>, Option<ConValue>>::empty());
        assert(self@ =~= old(self)@.push(Map::empty()));
        assert(self.names() =~= old(self).names().push(name@));
    }

    /// Exits the scope, destroying all its local variables and returning
    /// to the outer scope, if there is one. The outermost scope is never
    /// exited.
    pub fn exit(&mut self)
        ensures
            old(self)@.len() > 1 ==> final(self)@ == old(self)@.drop_last() && final(self).names()
                == old(self).names().drop_last(),
            old(self)@.len() <= 1 ==> final(self)@ == old(self)@ && final(self).names() == old(self).names(),
    {
        if self.frames.len() > 1 {
            self.frames.pop();
            assert(self@ =~= old(self)@.drop_last());
            assert(self.names() =~= old(self).names().drop_last());
        }
    }
}


/// A variable reads back as the value it was last bound to in the innermost
/// scope.
pub proof fn law_lookup_after_insert(
    frames: Seq<Map<Seq<char>, Option<ConValue>>>,
    id: Seq<char>,
    value: Option<ConValue>,
)
    requires
        frames.len() > 0,
    ensures
        lookup(frames.update(frames.len() - 1, frames.last().insert(id, value)), id) == Some(value),
{
}

/// Binding one name leaves every other name as it was.
pub proof fn law_insert_keeps_others(
    frames: Seq<Map<Seq<char>, Option<ConValue>>>,
    id: Seq<char>,
    other: Seq<char>,
    value: Option<ConValue>,
)
    requires
        frames.len() > 0,
        id != other,
    ensures
        lookup(frames.update(frames.len() - 1, frames.last().insert(id, value)), other) == lookup(
            frames,
            other,
        ),
{
    let g = frames.update(frames.len() - 1, frames.last().insert(id, value));
    assert(g.drop_last() =~= frames.drop_last());
}

/// Entering a new scope changes what no name resolves to.
pub proof fn law_enter_keeps_lookup(frames: Seq<Map<Seq<char>, Option<ConValue>>>, id: Seq<char>)
    ensures
        lookup(frames.push(Map::empty()), id) == lookup(frames, id),
{
    assert(frames.push(Map::empty()).drop_last() =~= frames);
}

/// Leaving a scope gives the scopes back as they were before it was
/// entered, whatever was bound in it.
pub proof fn law_exit_undoes_enter(
    frames: Seq<Map<Seq<char>, Option<ConValue>>>,
    inner: Map<Seq<char>, Option<ConValue>>,
)
    requires
        frames.len() >= 1,
    ensures
        frames.push(inner).len() > 1,
        frames.push(inner).drop_last() == frames,
{
    assert(frames.push(inner).drop_last() =~= frames);
}

/// After a variable's record is replaced, it reads back as the new record,
/// and a bound name stays bound in the same scope.
pub proof fn law_lookup_after_replace(
    frames: Seq<Map<Seq<char>, Option<ConValue>>>,
    id: Seq<char>,
    value: Option<ConValue>,
)
    requires
        lookup(frames, id) is Some,
    ensures
        0 <= binding_frame(frames, id) < frames.len(),
        lookup(
            frames.update(binding_frame(frames, id), frames[binding_frame(frames, id)].insert(id, value)),
            id,
        ) == Some(value),
    decreases frames.len(),
{
    let k = binding_frame(frames, id);
    let g = frames.update(k, frames[k].insert(id, value));
    if !frames.last().contains_key(id) {
        law_lookup_after_replace(frames.drop_last(), id, value);
        assert(g.drop_last() =~= frames.drop_last().update(k, frames[k].insert(id, value)));
    }
}


impl From<i128> for ConValue {
    fn from(value: i128) -> Self {
        ConValue::Int(value)
    }
}

impl vstd::std_specs::convert::FromSpecImpl<i128> for ConValue {
    open spec fn obeys_from_spec() -> bool {
        true
    }

    open spec fn from_spec(v: i128) -> ConValue {
        ConValue::Int(v)
    }
}

impl From<bool> for ConValue {
    fn from(value: bool) -> Self {
        ConValue::Bool(value)
    }
}

impl vstd::std_specs::convert::FromSpecImpl<bool> for ConValue {
    open spec fn obeys_from_spec() -> bool {
        true
    }

    open spec fn from_spec(v: bool) -> ConValue {
        ConValue::Bool(v)
    }
}

impl From<char> for ConValue {
    fn from(value: char) -> Self {
        ConValue::Char(value)
    }
}

impl vstd::std_specs::convert::FromSpecImpl<char> for ConValue {
    open spec fn obeys_from_spec() -> bool {
        true
    }

    open spec fn from_spec(v: char) -> ConValue {
        ConValue::Char(v)
    }
}

impl From<String> for ConValue {
    fn from(value: String) -> Self {
        ConValue::String(value)
    }
}

impl vstd::std_specs::convert::FromSpecImpl<String> for ConValue {
    open spec fn obeys_from_spec() -> bool {
        true
    }

    open spec fn from_spec(v: String) -> ConValue {
        ConValue::String(v)
    }
}

impl From<Vec<ConValue>> for ConValue {
    fn from(value: Vec<ConValue>) -> Self {
        ConValue::Tuple(value)
    }
}

impl vstd::std_specs::convert::FromSpecImpl<Vec<ConValue>> for ConValue {
    open spec fn obeys_from_spec() -> bool {
        true
    }

    open spec fn from_spec(v: Vec<ConValue>) -> ConValue {
        ConValue::Tuple(v)
    }
}

impl From<()> for ConValue {
    fn from(value: ()) -> Self {
        ConValue::Empty
    }
}

impl vstd::std_specs::convert::FromSpecImpl<()> for ConValue {
    open spec fn obeys_from_spec() -> bool {
        true
    }

    open spec fn from_spec(v: ()) -> ConValue {
        ConValue::Empty
    }
}

} // verus!
verus! {

/// Of two strings, exactly one comes first, or they are equal.
pub proof fn lemma_seq_lt_trichotomy(a: Seq<char>, b: Seq<char>)
    ensures
        seq_lt(a, b) || a == b || seq_lt(b, a),
        !(seq_lt(a, b) && seq_lt(b, a)),
        !(seq_lt(a, b) && a == b),
    decreases a.len(),
{
    if a.len() > 0 && b.len() > 0 && a[0] == b[0] {
        lemma_seq_lt_trichotomy(a.drop_first(), b.drop_first());
        if a.drop_first() == b.drop_first() {
            assert(a =~= seq![a[0]] + a.drop_first());
            assert(b =~= seq![b[0]] + b.drop_first());
        }
    } else if a.len() == 0 && b.len() == 0 {
        assert(a =~= b);
    }
}

/// Values of one kind are totally ordered: `a < b` fails exactly when
/// `a >= b` holds, `a < b` is `b > a`, and equality is symmetric.
pub proof fn law_comparisons_are_consistent(a: ConValue, b: ConValue)
    requires
        spec_compare(Comparison::Lt, &a, &b) is Value,
    ensures
        spec_compare(Comparison::GtEq, &a, &b) == IResultView::Value(
            !(spec_compare(Comparison::Lt, &a, &b)->Value_0),
        ),
        spec_compare(Comparison::Gt, &b, &a) == spec_compare(Comparison::Lt, &a, &b),
        spec_compare(Comparison::Eq, &b, &a) == spec_compare(Comparison::Eq, &a, &b),
        spec_compare(Comparison::Neq, &a, &b) == IResultView::Value(
            !(spec_compare(Comparison::Eq, &a, &b)->Value_0),
        ),
{
    match (a, b) {
        (ConValue::String(x), ConValue::String(y)) => {
            lemma_seq_lt_trichotomy(x@, y@);
        },
        (ConValue::Char(x), ConValue::Char(y)) => {
            assert((x as u32 == y as u32) == (x == y));
        },
        _ => {},
    }
}

} // verus!
verus! {

/// An integer in decimal, with a leading `-` when negative.
pub open spec fn signed_decimal(v: int) -> Seq<char> {
    if v < 0 {
        "-"@ + crate::text::decimal((-v) as nat)
    } else {
        crate::text::decimal(v as nat)
    }
}

/// The text of a value; `None` for a value that holds an exclusive range
/// ending at the greatest integer, whose end cannot be written.
pub open spec fn value_text(v: ConValue) -> Option<Seq<char>>
    decreases v, 0nat,
{
    match v {
        ConValue::Empty => Some("Empty"@),
        ConValue::Int(i) => Some(signed_decimal(i as int)),
        ConValue::Bool(b) => Some(
            if b {
                "true"@
            } else {
                "false"@
            },
        ),
        ConValue::Char(c) => Some(seq![c]),
        ConValue::String(s) => Some(s@),
        ConValue::Tuple(t) => match values_text(t@) {
            Some(inner) => Some("("@ + inner + ")"@),
            None => None,
        },
        ConValue::RangeExc(a, b) => if b == i128::MAX {
            None
        } else {
            Some(signed_decimal(a as int) + ".."@ + signed_decimal(b + 1))
        },
        ConValue::RangeInc(a, b) => Some(signed_decimal(a as int) + "..="@ + signed_decimal(b as int)),
        ConValue::BuiltIn(f) => Some("internal fn "@ + f.spec_name()),
    }
}

/// The texts of the values, separated by `, `.
pub open spec fn values_text(s: Seq<ConValue>) -> Option<Seq<char>>
    decreases s, 1nat,
{
    if s.len() == 0 {
        Some(Seq::empty())
    } else if s.len() == 1 {
        value_text(s[0])
    } else {
        match (values_text(s.drop_last()), value_text(s.last())) {
            (Some(a), Some(b)) => Some(a + ", "@ + b),
            _ => None,
        }
    }
}

proof fn lemma_values_text_prefix(s: Seq<ConValue>, i: int)
    requires
        values_text(s) is Some,
        0 <= i <= s.len(),
    ensures
        values_text(s.take(i)) is Some,
    decreases s.len(),
{
    if i == s.len() {
        assert(s.take(i) =~= s);
    } else if s.len() >= 2 {
        lemma_values_text_prefix(s.drop_last(), i);
        assert(s.drop_last().take(i) =~= s.take(i));
    } else {
        assert(s.take(i) =~= Seq::<ConValue>::empty());
    }
}

fn write_signed(out: &mut String, v: i128)
    ensures
        final(out)@ == old(out)@ + signed_decimal(v as int),
{
    if v < 0 {
        crate::text::string_append(out, "-");
        crate::text::write_decimal(out, abs_u128(v));
    } else {
        crate::text::write_decimal(out, v as u128);
    }
    assert(out@ =~= old(out)@ + signed_decimal(v as int));
}

fn write_values(out: &mut String, v: &Vec<ConValue>)
    requires
        values_text(v@) is Some,
    ensures
        final(out)@ == old(out)@ + values_text(v@)->0,
    decreases v, 1nat,
{
    let ghost mid = out@;
    let mut i: usize = 0;
    assert(v@.take(0) =~= Seq::<ConValue>::empty());
    assert(mid + Seq::<char>::empty() =~= mid);
    while i < v.len()
        invariant
            i <= v@.len(),
            values_text(v@) is Some,
            values_text(v@.take(i as int)) is Some,
            out@ == mid + values_text(v@.take(i as int))->0,
        decreases v@.len() - i,
    {
        proof {
            lemma_values_text_prefix(v@, i + 1);
            let t = v@.take(i + 1);
            assert(t.drop_last() =~= v@.take(i as int));
            assert(t.last() == v@[i as int]);
        }
        if i > 0 {
            crate::text::string_append(out, ", ");
        }
        assert(decreases_to!(v => v@[i as int]));
        write_value(out, &v[i]);
        proof {
            let t = v@.take(i + 1);
            assert(out@ =~= mid + values_text(t)->0);
        }
        i = i + 1;
    }
    assert(v@.take(v@.len() as int) =~= v@);
}

fn write_value(out: &mut String, v: &ConValue)
    requires
        value_text(*v) is Some,
    ensures
        final(out)@ == old(out)@ + value_text(*v)->0,
    decreases v, 0nat,
{
    match v {
        ConValue::Empty => crate::text::string_append(out, "Empty"),
        ConValue::Int(i) => write_signed(out, *i),
        ConValue::Bool(b) => if *b {
            crate::text::string_append(out, "true");
        } else {
            crate::text::string_append(out, "false");
        },
        ConValue::Char(c) => {
            crate::text::string_push(out, *c);
            assert(old(out)@.push(*c) =~= old(out)@ + seq![*c]);
        },
        ConValue::String(s) => crate::text::string_append(out, s.as_str()),
        ConValue::Tuple(t) => {
            crate::text::string_append(out, "(");
            write_values(out, t);
            crate::text::string_append(out, ")");
        },
        ConValue::RangeExc(a, b) => {
            write_signed(out, *a);
            crate::text::string_append(out, "..");
            write_signed(out, *b + 1);
        },
        ConValue::RangeInc(a, b) => {
            write_signed(out, *a);
            crate::text::string_append(out, "..=");
            write_signed(out, *b);
        },
        ConValue::BuiltIn(f) => {
            crate::text::string_append(out, "internal fn ");
            crate::text::string_append(out, f.name());
        },
    }
    assert(out@ =~= old(out)@ + value_text(*v)->0);
}

impl ConValue {
    /// The value, for people.
    pub fn to_text(&self) -> (r: String)
        requires
            value_text(*self) is Some,
        ensures
            r@ == value_text(*self)->0,
    {
        let mut out = String::new();
        write_value(&mut out, self);
        out
    }
}

impl Error {
    /// The error, for people; `None` when a value it carries has no text.
    pub open spec fn spec_text(self) -> Option<Seq<char>> {
        match self {
            Error::Return(v) => match value_text(v) {
                Some(t) => Some("return "@ + t),
                None => None,
            },
            Error::Break(v) => match value_text(v) {
                Some(t) => Some("break "@ + t),
                None => None,
            },
            Error::BadBreak(v) => match value_text(v) {
                Some(t) => Some("rogue break: "@ + t),
                None => None,
            },
            Error::Continue => Some("continue"@),
            Error::StackUnderflow => Some("Stack underflow"@),
            Error::ScopeExit => Some("Exited the last scope. This is a logic bug."@),
            Error::TypeError => Some("Incompatible types"@),
            Error::NotIterable => Some("`in` clause of `for` loop did not yield an iterable"@),
            Error::NotDefined(n) => Some(n@ + " not bound. Did you mean `let "@ + n@ + ";`?"@),
            Error::NotInitialized(n) => Some(n@ + " bound, but not initialized"@),
            Error::NotCallable(v) => match value_text(v) {
                Some(t) => Some(t + " is not a function, and cannot be called"@),
                None => None,
            },
            Error::ArgNumber { want, got } => Some(
                "Expected "@ + crate::text::decimal(want as nat) + " arguments, got "@
                    + crate::text::decimal(got as nat),
            ),
        }
    }

    /// The error, for people.
    pub fn to_text(&self) -> (r: String)
        requires
            self.spec_text() is Some,
        ensures
            r@ == self.spec_text()->0,
    {
        let mut out = String::new();
        match self {
            Error::Return(v) => {
                crate::text::string_append(&mut out, "return ");
                write_value(&mut out, v);
            },
            Error::Break(v) => {
                crate::text::string_append(&mut out, "break ");
                write_value(&mut out, v);
            },
            Error::BadBreak(v) => {
                crate::text::string_append(&mut out, "rogue break: ");
                write_value(&mut out, v);
            },
            Error::Continue => crate::text::string_append(&mut out, "continue"),
            Error::StackUnderflow => crate::text::string_append(&mut out, "Stack underflow"),
            Error::ScopeExit => crate::text::string_append(
                &mut out,
                "Exited the last scope. This is a logic bug.",
            ),
            Error::TypeError => crate::text::string_append(&mut out, "Incompatible types"),
            Error::NotIterable => crate::text::string_append(
                &mut out,
                "`in` clause of `for` loop did not yield an iterable",
            ),
            Error::NotDefined(n) => {
                crate::text::string_append(&mut out, n.as_str());
                crate::text::string_append(&mut out, " not bound. Did you mean `let ");
                crate::text::string_append(&mut out, n.as_str());
                crate::text::string_append(&mut out, ";`?");
            },
            Error::NotInitialized(n) => {
                crate::text::string_append(&mut out, n.as_str());
                crate::text::string_append(&mut out, " bound, but not initialized");
            },
            Error::NotCallable(v) => {
                write_value(&mut out, v);
                crate::text::string_append(&mut out, " is not a function, and cannot be called");
            },
            Error::ArgNumber { want, got } => {
                crate::text::string_append(&mut out, "Expected ");
                crate::text::write_decimal(&mut out, *want as u128);
                crate::text::string_append(&mut out, " arguments, got ");
                crate::text::write_decimal(&mut out, *got as u128);
            },
        }
        assert(out@ =~= self.spec_text()->0);
        out
    }
}

} // verus!
