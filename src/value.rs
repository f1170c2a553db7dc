use vstd::prelude::*;
use vstd::string::StrSliceExecFns;

use arrow_array::types::{Date32Type, Int32Type, Int64Type};
use arrow_cast::parse::Parser;

use crate::operator::HudiOperator;
use crate::text::str_eq;

verus! {

/// The declared type of a partition column.
#[derive(Debug, Clone, Copy, PartialEq, Eq, Structural)]
pub enum PartitionType {
    /// 32-bit signed integer.
    Int32,
    /// 64-bit signed integer.
    Int64,
    /// Calendar date, stored as days since 1970-01-01.
    Date32,
    /// UTF-8 text.
    Utf8,
}

impl PartitionType {
    /// The type's name.
    pub fn name(&self) -> &'static str {
        match self {
            PartitionType::Int32 => "Int32",
            PartitionType::Int64 => "Int64",
            PartitionType::Date32 => "Date32",
            PartitionType::Utf8 => "Utf8",
        }
    }
}

/// A typed scalar: a runtime type tag with its payload.
#[derive(Debug, Clone)]
pub enum PartitionValue {
    Int32(i32),
    Int64(i64),
    /// Days since 1970-01-01.
    Date32(i32),
    Utf8(String),
}

/// The mathematical value of a [`PartitionValue`].
pub enum ValueView {
    Int32(i32),
    Int64(i64),
    Date32(i32),
    Utf8(Seq<char>),
}

impl ValueView {
    /// The type tag of the value.
    pub open spec fn data_type(self) -> PartitionType {
        match self {
            ValueView::Int32(_) => PartitionType::Int32,
            ValueView::Int64(_) => PartitionType::Int64,
            ValueView::Date32(_) => PartitionType::Date32,
            ValueView::Utf8(_) => PartitionType::Utf8,
        }
    }
}

impl View for PartitionValue {
    type V = ValueView;

    open spec fn view(&self) -> ValueView {
        match self {
            PartitionValue::Int32(x) => ValueView::Int32(*x),
            PartitionValue::Int64(x) => ValueView::Int64(*x),
            PartitionValue::Date32(x) => ValueView::Date32(*x),
            PartitionValue::Utf8(s) => ValueView::Utf8(s@),
        }
    }
}

impl PartitionValue {
    /// The type tag of the value.
    pub fn data_type(&self) -> (r: PartitionType)
        ensures
            r == self@.data_type(),
    {
        match self {
            PartitionValue::Int32(_) => PartitionType::Int32,
            PartitionValue::Int64(_) => PartitionType::Int64,
            PartitionValue::Date32(_) => PartitionType::Date32,
            PartitionValue::Utf8(_) => PartitionType::Utf8,
        }
    }
}

/// What arrow's strict string-to-Int32 cast gives for a string (`None`: the cast fails).
pub uninterp spec fn int32_of(s: Seq<char>) -> Option<i32>;

/// What arrow's strict string-to-Int64 cast gives for a string (`None`: the cast fails).
pub uninterp spec fn int64_of(s: Seq<char>) -> Option<i64>;

/// What arrow's strict string-to-Date32 cast gives for a string, in days since
/// 1970-01-01 (`None`: the cast fails).
pub uninterp spec fn date32_of(s: Seq<char>) -> Option<i32>;

/// Relies on `<Int32Type as arrow_cast::parse::Parser>::parse`, the parser that
/// arrow_cast's strict cast of a string to Int32 applies to each value.
#[verifier::external_body]
fn parse_int32(s: &str) -> (r: Option<i32>)
    ensures
        r == int32_of(s@),
{
    Int32Type::parse(s)
}

/// Relies on `<Int64Type as arrow_cast::parse::Parser>::parse`, the parser that
/// arrow_cast's strict cast of a string to Int64 applies to each value.
#[verifier::external_body]
fn parse_int64(s: &str) -> (r: Option<i64>)
    ensures
        r == int64_of(s@),
{
    Int64Type::parse(s)
}

/// Relies on `<Date32Type as arrow_cast::parse::Parser>::parse`, the parser that
/// arrow_cast's strict cast of a string to Date32 applies to each value.
#[verifier::external_body]
fn parse_date32(s: &str) -> (r: Option<i32>)
    ensures
        r == date32_of(s@),
{
    Date32Type::parse(s)
}

/// The strict cast of a text literal into a declared type; `None` when the literal
/// cannot be represented in that type. Text cast to text is the text itself.
pub open spec fn cast_spec(s: Seq<char>, ty: PartitionType) -> Option<ValueView> {
    match ty {
        PartitionType::Int32 => match int32_of(s) {
            Some(x) => Some(ValueView::Int32(x)),
            None => None,
        },
        PartitionType::Int64 => match int64_of(s) {
            Some(x) => Some(ValueView::Int64(x)),
            None => None,
        },
        PartitionType::Date32 => match date32_of(s) {
            Some(x) => Some(ValueView::Date32(x)),
            None => None,
        },
        PartitionType::Utf8 => Some(ValueView::Utf8(s)),
    }
}

/// Casts a text literal into a declared type, strictly.
pub fn cast_text(s: &str, ty: PartitionType) -> (r: Option<PartitionValue>)
    ensures
        match r {
            Some(v) => cast_spec(s@, ty) == Some(v@),
            None => cast_spec(s@, ty) is None,
        },
{
    match ty {
        PartitionType::Int32 => match parse_int32(s) {
            Some(x) => Some(PartitionValue::Int32(x)),
            None => None,
        },
        PartitionType::Int64 => match parse_int64(s) {
            Some(x) => Some(PartitionValue::Int64(x)),
            None => None,
        },
        PartitionType::Date32 => match parse_date32(s) {
            Some(x) => Some(PartitionValue::Date32(x)),
            None => None,
        },
        PartitionType::Utf8 => Some(PartitionValue::Utf8(s.to_owned())),
    }
}

/// Lexicographic order on code points, from position `i` on.
pub open spec fn lex_lt_from(a: Seq<char>, b: Seq<char>, i: int) -> bool
    decreases a.len() - i,
{
    if i >= b.len() {
        false
    } else if i >= a.len() {
        true
    } else if a[i] != b[i] {
        (a[i] as u32) < (b[i] as u32)
    } else {
        lex_lt_from(a, b, i + 1)
    }
}

/// Strict lexicographic order on code points, which is the byte order of UTF-8 text.
pub open spec fn lex_lt(a: Seq<char>, b: Seq<char>) -> bool {
    lex_lt_from(a, b, 0)
}

/// Whether `op` holds between two values, given whether the first is below and
/// whether it equals the second.
pub open spec fn op_holds(op: HudiOperator, lt: bool, eq: bool) -> bool {
    match op {
        HudiOperator::Eq => eq,
        HudiOperator::Ne => !eq,
        HudiOperator::Lt => lt,
        HudiOperator::Lte => lt || eq,
        HudiOperator::Gt => !lt && !eq,
        HudiOperator::Gte => !lt,
    }
}

/// The typed comparison `a op b`: integers and dates by number, text by code point
/// order; `None` when the two values are of different types.
pub open spec fn compare_spec(op: HudiOperator, a: ValueView, b: ValueView) -> Option<bool> {
    match (a, b) {
        (ValueView::Int32(x), ValueView::Int32(y)) => Some(op_holds(op, x < y, x == y)),
        (ValueView::Int64(x), ValueView::Int64(y)) => Some(op_holds(op, x < y, x == y)),
        (ValueView::Date32(x), ValueView::Date32(y)) => Some(op_holds(op, x < y, x == y)),
        (ValueView::Utf8(x), ValueView::Utf8(y)) => Some(op_holds(op, lex_lt(x, y), x == y)),
        _ => None,
    }
}

fn op_holds_exec(op: HudiOperator, lt: bool, eq: bool) -> (r: bool)
    ensures
        r == op_holds(op, lt, eq),
{
    match op {
        HudiOperator::Eq => eq,
        HudiOperator::Ne => !eq,
        HudiOperator::Lt => lt,
        HudiOperator::Lte => lt || eq,
        HudiOperator::Gt => !lt && !eq,
        HudiOperator::Gte => !lt,
    }
}

/// Whether `a` comes strictly before `b` in code point order.
pub fn str_lt(a: &str, b: &str) -> (r: bool)
    ensures
        r == lex_lt(a@, b@),
{
    let na = a.unicode_len();
    let nb = b.unicode_len();
    let mut i: usize = 0;
    while i < na && i < nb
        invariant
            na == a@.len(),
            nb == b@.len(),
            i <= na,
            i <= nb,
            lex_lt(a@, b@) == lex_lt_from(a@, b@, i as int),
        decreases na - i,
    {
        let x = a.get_char(i);
        let y = b.get_char(i);
        if x != y {
            return (x as u32) < (y as u32);
        }
        i = i + 1;
    }
    i < nb
}

/// Compares two typed values with `op`; `None` when their types differ.
pub fn compare_values(op: HudiOperator, a: &PartitionValue, b: &PartitionValue) -> (r: Option<bool>)
    ensures
        r == compare_spec(op, a@, b@),
{
    match a {
        PartitionValue::Int32(x) => match b {
            PartitionValue::Int32(y) => Some(op_holds_exec(op, *x < *y, *x == *y)),
            _ => None,
        },
        PartitionValue::Int64(x) => match b {
            PartitionValue::Int64(y) => Some(op_holds_exec(op, *x < *y, *x == *y)),
            _ => None,
        },
        PartitionValue::Date32(x) => match b {
            PartitionValue::Date32(y) => Some(op_holds_exec(op, *x < *y, *x == *y)),
            _ => None,
        },
        PartitionValue::Utf8(x) => match b {
            PartitionValue::Utf8(y) => {
                let lt = str_lt(x.as_str(), y.as_str());
                let eq = str_eq(x.as_str(), y.as_str());
                Some(op_holds_exec(op, lt, eq))
            },
            _ => None,
        },
    }
}

} // verus!
