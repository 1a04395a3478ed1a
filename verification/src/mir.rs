//! The parts of the mid-level IR (MIR) that the optimizer and the translator
//! read: datasource keys, field paths, literals, scalar functions, the
//! expression and stage shapes they inspect, and the match language that the
//! prefilter optimization emits.

use vstd::prelude::*;
pub use crate::binding_tuple::{DatasourceName, DatasourceNameView, Key, KeyView};

verus! {

/// A path of field names below a datasource.
#[derive(Debug, Clone, PartialEq, Eq, PartialOrd, Ord)]
pub struct FieldPath {
    pub key: Key,
    pub fields: Vec<String>,
    pub is_nullable: bool,
}

pub struct FieldPathView {
    pub key: KeyView,
    pub fields: Seq<Seq<char>>,
    pub is_nullable: bool,
}

impl View for FieldPath {
    type V = FieldPathView;

    open spec fn view(&self) -> FieldPathView {
        FieldPathView {
            key: self.key@,
            fields: self.fields@.map_values(|s: String| s@),
            is_nullable: self.is_nullable,
        }
    }
}

/// Value equality of sequences of strings.
pub fn same_strings(a: &Vec<String>, b: &Vec<String>) -> (r: bool)
    ensures
        r == (a@.map_values(|s: String| s@) == b@.map_values(|s: String| s@)),
{
    let ghost va = a@.map_values(|s: String| s@);
    let ghost vb = b@.map_values(|s: String| s@);
    if a.len() != b.len() {
        assert(va.len() != vb.len());
        return false;
    }
    let mut i: usize = 0;
    while i < a.len()
        invariant
            a@.len() == b@.len(),
            i <= a@.len(),
            va == a@.map_values(|s: String| s@),
            vb == b@.map_values(|s: String| s@),
            forall|j: int| 0 <= j < i ==> va[j] == vb[j],
        decreases a@.len() - i,
    {
        if !(a[i] == b[i]) {
            assert(va[i as int] != vb[i as int]);
            return false;
        }
        i = i + 1;
    }
    assert(va =~= vb);
    true
}

impl FieldPath {
    /// Value equality of field paths.
    pub fn same_path(&self, other: &FieldPath) -> (r: bool)
        ensures
            r == (self@ == other@),
    {
        self.key.same_key(&other.key) && same_strings(&self.fields, &other.fields)
            && self.is_nullable == other.is_nullable
    }
}

/// The schema information that every MIR node caches. The code in this
/// library only ever creates empty caches.
#[derive(Debug, Clone, Copy, PartialEq, Eq)]
pub struct SchemaCache {}

impl SchemaCache {
    pub fn new() -> (r: SchemaCache)
        ensures
            r == (SchemaCache {}),
    {
        SchemaCache {}
    }
}

/// A MIR literal value. A double is held as its IEEE-754 bit pattern.
#[derive(Debug, PartialEq)]
pub enum LiteralValue {
    Null,
    Boolean(bool),
    String(String),
    Integer(i32),
    Long(i64),
    Double(u64),
    DbPointer(bson::DbPointer),
    Undefined,
    DateTime(bson::DateTime),
    Decimal128(bson::Decimal128),
    MinKey,
    MaxKey,
    Timestamp(bson::Timestamp),
    RegularExpression(bson::Regex),
    ObjectId(bson::oid::ObjectId),
    JavaScriptCode(String),
    JavaScriptCodeWithScope(bson::JavaScriptCodeWithScope),
    Symbol(String),
    Binary(bson::Binary),
}

impl Clone for LiteralValue {
    fn clone(&self) -> (r: Self)
        ensures
            r == *self,
    {
        match self {
            LiteralValue::Null => LiteralValue::Null,
            LiteralValue::Boolean(b) => LiteralValue::Boolean(*b),
            LiteralValue::String(s) => LiteralValue::String(s.clone()),
            LiteralValue::Integer(i) => LiteralValue::Integer(*i),
            LiteralValue::Long(l) => LiteralValue::Long(*l),
            LiteralValue::Double(d) => LiteralValue::Double(*d),
            LiteralValue::DbPointer(p) => LiteralValue::DbPointer(p.clone()),
            LiteralValue::Undefined => LiteralValue::Undefined,
            LiteralValue::DateTime(d) => LiteralValue::DateTime(*d),
            LiteralValue::Decimal128(d) => LiteralValue::Decimal128(*d),
            LiteralValue::MinKey => LiteralValue::MinKey,
            LiteralValue::MaxKey => LiteralValue::MaxKey,
            LiteralValue::Timestamp(t) => LiteralValue::Timestamp(*t),
            LiteralValue::RegularExpression(r) => LiteralValue::RegularExpression(r.clone()),
            LiteralValue::ObjectId(o) => LiteralValue::ObjectId(*o),
            LiteralValue::JavaScriptCode(s) => LiteralValue::JavaScriptCode(s.clone()),
            LiteralValue::JavaScriptCodeWithScope(j) => LiteralValue::JavaScriptCodeWithScope(
                j.clone(),
            ),
            LiteralValue::Symbol(s) => LiteralValue::Symbol(s.clone()),
            LiteralValue::Binary(b) => LiteralValue::Binary(b.clone()),
        }
    }
}

/// The MIR scalar functions.
#[derive(Debug, Clone, Copy, PartialEq, Eq, Structural)]
pub enum ScalarFunction {
    Concat,
    Pos,
    Neg,
    Add,
    Sub,
    Mul,
    Div,
    Lt,
    Lte,
    Neq,
    Eq,
    Gt,
    Gte,
    Between,
    Not,
    And,
    Or,
    ComputedFieldAccess,
    NullIf,
    Coalesce,
    Slice,
    Size,
    Position,
    CharLength,
    OctetLength,
    BitLength,
    Abs,
    Ceil,
    Cos,
    Degrees,
    Floor,
    Log,
    Mod,
    Pow,
    Radians,
    Round,
    Sin,
    Sqrt,
    Tan,
    Replace,
    Substring,
    Upper,
    Lower,
    BTrim,
    LTrim,
    RTrim,
    Split,
    CurrentTimestamp,
    Year,
    Month,
    Day,
    Hour,
    Minute,
    Second,
    Millisecond,
    Week,
    DayOfWeek,
    DayOfYear,
    IsoWeek,
    IsoWeekday,
    MergeObjects,
}

#[derive(Debug, PartialEq)]
pub struct LiteralExpr {
    pub value: LiteralValue,
}

#[derive(Debug, Clone, PartialEq)]
pub struct ReferenceExpr {
    pub key: Key,
}

#[derive(Debug, PartialEq)]
pub struct FieldAccess {
    pub expr: Box<Expression>,
    pub field: String,
    pub is_nullable: bool,
}

#[derive(Debug, PartialEq)]
pub struct ScalarFunctionApplication {
    pub function: ScalarFunction,
    pub args: Vec<Expression>,
    pub is_nullable: bool,
}

/// The MIR expressions that the optimizer inspects.
#[derive(Debug, PartialEq)]
pub enum Expression {
    Literal(LiteralExpr),
    Reference(ReferenceExpr),
    FieldAccess(FieldAccess),
    ScalarFunction(ScalarFunctionApplication),
}

/// What the scalar function `f` says of two values ordered as the integers
/// `x` and `y`, when `f` is a comparison; `None` when it is not.
pub open spec fn scalar_comparison(f: ScalarFunction, x: int, y: int) -> Option<bool> {
    match f {
        ScalarFunction::Lt => Some(x < y),
        ScalarFunction::Lte => Some(x <= y),
        ScalarFunction::Gt => Some(x > y),
        ScalarFunction::Gte => Some(x >= y),
        ScalarFunction::Eq => Some(x == y),
        ScalarFunction::Neq => Some(x != y),
        _ => None,
    }
}

/// `f` is one of the comparison functions.
pub open spec fn is_comparison(f: ScalarFunction) -> bool {
    scalar_comparison(f, 0, 0) is Some
}

/// What the boolean connective `f` says of two truth values; `None` when
/// `f` is not a binary connective.
pub open spec fn scalar_connective(f: ScalarFunction, a: bool, b: bool) -> Option<bool> {
    match f {
        ScalarFunction::And => Some(a && b),
        ScalarFunction::Or => Some(a || b),
        _ => None,
    }
}

/// What the match-language comparison `op` says of a value ordered as `x`
/// against an argument ordered as `y`.
pub open spec fn match_comparison(op: MatchLanguageComparisonOp, x: int, y: int) -> bool {
    match op {
        MatchLanguageComparisonOp::Lt => x < y,
        MatchLanguageComparisonOp::Lte => x <= y,
        MatchLanguageComparisonOp::Ne => x != y,
        MatchLanguageComparisonOp::Eq => x == y,
        MatchLanguageComparisonOp::Gt => x > y,
        MatchLanguageComparisonOp::Gte => x >= y,
    }
}

/// The comparison operators of the match language.
#[derive(Debug, Clone, Copy, PartialEq, Eq, Structural)]
pub enum MatchLanguageComparisonOp {
    Lt,
    Lte,
    Ne,
    Eq,
    Gt,
    Gte,
}

#[derive(Debug, Clone, Copy, PartialEq, Eq, Structural)]
pub enum MatchLanguageLogicalOp {
    Or,
    And,
}

#[derive(Debug, PartialEq)]
pub struct MatchLanguageComparison {
    pub function: MatchLanguageComparisonOp,
    pub input: Option<FieldPath>,
    pub arg: LiteralValue,
    pub cache: SchemaCache,
}

#[derive(Debug, PartialEq)]
pub struct MatchLanguageLogical {
    pub op: MatchLanguageLogicalOp,
    pub args: Vec<MatchQuery>,
    pub cache: SchemaCache,
}

#[derive(Debug, PartialEq)]
pub struct ElemMatch {
    pub input: FieldPath,
    pub condition: Box<MatchQuery>,
    pub cache: SchemaCache,
}

/// A query in the MongoDB match language.
#[derive(Debug, PartialEq)]
pub enum MatchQuery {
    Logical(MatchLanguageLogical),
    ElemMatch(ElemMatch),
    Comparison(MatchLanguageComparison),
}

#[derive(Debug, PartialEq)]
pub struct Filter {
    pub source: Box<Stage>,
    pub condition: Expression,
    pub cache: SchemaCache,
}

#[derive(Debug, PartialEq)]
pub struct Unwind {
    pub source: Box<Stage>,
    pub path: FieldPath,
    pub index: Option<String>,
    pub outer: bool,
    pub cache: SchemaCache,
}

#[derive(Debug, PartialEq)]
pub struct MatchFilter {
    pub source: Box<Stage>,
    pub condition: MatchQuery,
    pub cache: SchemaCache,
}

#[derive(Debug, PartialEq)]
pub struct Collection {
    pub db: String,
    pub collection: String,
    pub cache: SchemaCache,
}

/// Stages that only exist once the query has been lowered towards MQL.
#[derive(Debug, PartialEq)]
pub enum MQLStage {
    MatchFilter(MatchFilter),
}

/// The MIR stages that the optimizer inspects.
#[derive(Debug, PartialEq)]
pub enum Stage {
    Filter(Filter),
    Unwind(Unwind),
    Collection(Collection),
    MQLIntrinsic(MQLStage),
}

/// MIR types.
#[derive(Debug, Clone, Copy, PartialEq, Eq, Structural)]
pub enum Type {
    Array,
    BinData,
    Boolean,
    Datetime,
    DbPointer,
    Decimal128,
    Document,
    Double,
    Int32,
    Int64,
    Javascript,
    JavascriptWithScope,
    MaxKey,
    MinKey,
    Null,
    ObjectId,
    RegularExpression,
    String,
    Symbol,
    Timestamp,
    Undefined,
}

#[derive(Debug, Clone, Copy, PartialEq, Eq, Structural)]
pub enum TypeOrMissing {
    Missing,
    Type(Type),
    Number,
}

#[derive(Debug, Clone, Copy, PartialEq, Eq, Structural)]
pub enum DatePart {
    Year,
    Quarter,
    Month,
    Week,
    Day,
    Hour,
    Minute,
    Second,
    Millisecond,
}

#[derive(Debug, Clone, Copy, PartialEq, Eq, Structural)]
pub enum DateFunction {
    Add,
    Diff,
    Trunc,
}

} // verus!
