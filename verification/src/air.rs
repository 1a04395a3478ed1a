//! The parts of the aggregation IR (AIR) that the MIR-to-AIR translation
//! produces in this library: literals, types, date parts, the operator
//! families that scalar functions map to, and let bindings.

use vstd::prelude::*;

verus! {

/// An AIR literal value. A double is held as its IEEE-754 bit pattern.
#[derive(Debug, PartialEq)]
pub enum LiteralValue {
    Null,
    Boolean(bool),
    String(String),
    Integer(i32),
    Long(i64),
    Double(u64),
    DbPointer(bson::DbPointer),
    Undefined,
    DateTime(bson::DateTime),
    Decimal128(bson::Decimal128),
    MinKey,
    MaxKey,
    Timestamp(bson::Timestamp),
    RegularExpression(bson::Regex),
    ObjectId(bson::oid::ObjectId),
    JavaScriptCode(String),
    JavaScriptCodeWithScope(bson::JavaScriptCodeWithScope),
    Symbol(String),
    Binary(bson::Binary),
}

/// AIR types.
#[derive(Debug, Clone, Copy, PartialEq, Eq, Structural)]
pub enum Type {
    Array,
    BinData,
    Boolean,
    Datetime,
    DbPointer,
    Decimal128,
    Document,
    Double,
    Int32,
    Int64,
    Javascript,
    JavascriptWithScope,
    MaxKey,
    MinKey,
    Null,
    ObjectId,
    RegularExpression,
    String,
    Symbol,
    Timestamp,
    Undefined,
}

#[derive(Debug, Clone, Copy, PartialEq, Eq, Structural)]
pub enum TypeOrMissing {
    Missing,
    Type(Type),
    Number,
}

#[derive(Debug, Clone, Copy, PartialEq, Eq, Structural)]
pub enum DatePart {
    Year,
    Quarter,
    Month,
    Week,
    Day,
    Hour,
    Minute,
    Second,
    Millisecond,
}

#[derive(Debug, Clone, Copy, PartialEq, Eq, Structural)]
pub enum DateFunction {
    Add,
    Diff,
    Trunc,
}

/// Operators that have MQL semantics (they behave as the MQL operator of the
/// same name).
#[derive(Debug, Clone, Copy, PartialEq, Eq, Structural)]
pub enum MqlOperator {
    Concat,
    Add,
    Subtract,
    Multiply,
    Abs,
    Ceil,
    Floor,
    Pow,
    DegreesToRadians,
    RadiansToDegrees,
    Lt,
    Lte,
    Ne,
    Eq,
    Gt,
    Gte,
    Between,
    Not,
    And,
    Or,
    Size,
    IndexOfCP,
    StrLenCP,
    StrLenBytes,
    SubstrCP,
    ToUpper,
    ToLower,
    ReplaceAll,
    Year,
    Month,
    DayOfMonth,
    Hour,
    Minute,
    Second,
    Millisecond,
    Week,
    DayOfWeek,
    DayOfYear,
    IsoWeek,
    IsoDayOfWeek,
    MergeObjects,
}

/// Operators that have SQL semantics (for instance, NULL propagation).
#[derive(Debug, Clone, Copy, PartialEq, Eq, Structural)]
pub enum SqlOperator {
    Pos,
    Neg,
    Lt,
    Lte,
    Ne,
    Eq,
    Gt,
    Gte,
    Between,
    Not,
    And,
    Or,
    ComputedFieldAccess,
    NullIf,
    Coalesce,
    Slice,
    Size,
    IndexOfCP,
    StrLenCP,
    StrLenBytes,
    BitLength,
    Cos,
    Log,
    Mod,
    Round,
    Sin,
    Sqrt,
    Tan,
    SubstrCP,
    ToUpper,
    ToLower,
    Split,
    CurrentTimestamp,
}

/// What the MQL operator `m` says of two values ordered as the integers `x`
/// and `y`, when `m` is a comparison; `None` when it is not.
pub open spec fn mql_comparison(m: MqlOperator, x: int, y: int) -> Option<bool> {
    match m {
        MqlOperator::Lt => Some(x < y),
        MqlOperator::Lte => Some(x <= y),
        MqlOperator::Gt => Some(x > y),
        MqlOperator::Gte => Some(x >= y),
        MqlOperator::Eq => Some(x == y),
        MqlOperator::Ne => Some(x != y),
        _ => None,
    }
}

/// What the SQL operator `s` says of two non-null values ordered as the
/// integers `x` and `y`, when `s` is a comparison; `None` when it is not.
pub open spec fn sql_comparison(s: SqlOperator, x: int, y: int) -> Option<bool> {
    match s {
        SqlOperator::Lt => Some(x < y),
        SqlOperator::Lte => Some(x <= y),
        SqlOperator::Gt => Some(x > y),
        SqlOperator::Gte => Some(x >= y),
        SqlOperator::Eq => Some(x == y),
        SqlOperator::Ne => Some(x != y),
        _ => None,
    }
}

/// What the MQL operator `m` says of two truth values, when `m` is a binary
/// connective; `None` when it is not.
pub open spec fn mql_connective(m: MqlOperator, a: bool, b: bool) -> Option<bool> {
    match m {
        MqlOperator::And => Some(a && b),
        MqlOperator::Or => Some(a || b),
        _ => None,
    }
}

/// What the SQL operator `s` says of two non-null truth values, when `s` is
/// a binary connective; `None` when it is not.
pub open spec fn sql_connective(s: SqlOperator, a: bool, b: bool) -> Option<bool> {
    match s {
        SqlOperator::And => Some(a && b),
        SqlOperator::Or => Some(a || b),
        _ => None,
    }
}

#[derive(Debug, Clone, Copy, PartialEq, Eq, Structural)]
pub enum TrimOperator {
    Trim,
    LTrim,
    RTrim,
}

/// A reference to a field, by the dotted name that the mapping registry
/// holds for it.
#[derive(Debug, Clone, PartialEq)]
pub struct FieldRef {
    pub name: String,
}

/// A reference to a `$$` variable, by the name that the mapping registry
/// holds for it.
#[derive(Debug, Clone, PartialEq)]
pub struct Variable {
    pub name: String,
}

/// The AIR expressions that let bindings are made of.
#[derive(Debug, Clone, PartialEq)]
pub enum Expression {
    FieldRef(FieldRef),
    Variable(Variable),
}

/// One variable of a `$let`.
#[derive(Debug, Clone, PartialEq)]
pub struct LetVariable {
    pub name: String,
    pub expr: Box<Expression>,
}

} // verus!
