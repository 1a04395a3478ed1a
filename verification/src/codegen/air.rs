//! The aggregation IR (AIR) as the code generator reads it: expressions and
//! stages, with the operators that have MQL semantics.

use vstd::prelude::*;

verus! {

/// Operators with MQL semantics.
#[derive(Debug, Clone, Copy, PartialEq, Eq, Structural)]
pub enum MQLOperator {
    Concat,
    Add,
    Subtract,
    Multiply,
    Divide,
    Lt,
    Lte,
    Ne,
    Eq,
    Gt,
    Gte,
    Not,
    And,
    Or,
    Slice,
    Size,
    IndexOfCP,
    IndexOfBytes,
    StrLenCP,
    StrLenBytes,
    Abs,
    Ceil,
    Cos,
    DegreesToRadians,
    Floor,
    Log,
    Mod,
    Pow,
    RadiansToDegrees,
    Round,
    Sin,
    Tan,
    Sqrt,
    SubstrCP,
    SubstrBytes,
    ToUpper,
    ToLower,
    Trim,
    LTrim,
    RTrim,
    Split,
    Year,
    Month,
    DayOfMonth,
    Hour,
    Minute,
    Second,
    Week,
    DayOfYear,
    IsoWeek,
    IsoDayOfWeek,
    DateAdd,
    DateDiff,
    DateTrunc,
    MergeObjects,
}

/// The identifier of an operator, as AIR writes it.
pub open spec fn operator_ident(op: MQLOperator) -> Seq<char> {
    match op {
        MQLOperator::Concat => "Concat"@,
        MQLOperator::Add => "Add"@,
        MQLOperator::Subtract => "Subtract"@,
        MQLOperator::Multiply => "Multiply"@,
        MQLOperator::Divide => "Divide"@,
        MQLOperator::Lt => "Lt"@,
        MQLOperator::Lte => "Lte"@,
        MQLOperator::Ne => "Ne"@,
        MQLOperator::Eq => "Eq"@,
        MQLOperator::Gt => "Gt"@,
        MQLOperator::Gte => "Gte"@,
        MQLOperator::Not => "Not"@,
        MQLOperator::And => "And"@,
        MQLOperator::Or => "Or"@,
        MQLOperator::Slice => "Slice"@,
        MQLOperator::Size => "Size"@,
        MQLOperator::IndexOfCP => "IndexOfCP"@,
        MQLOperator::IndexOfBytes => "IndexOfBytes"@,
        MQLOperator::StrLenCP => "StrLenCP"@,
        MQLOperator::StrLenBytes => "StrLenBytes"@,
        MQLOperator::Abs => "Abs"@,
        MQLOperator::Ceil => "Ceil"@,
        MQLOperator::Cos => "Cos"@,
        MQLOperator::DegreesToRadians => "DegreesToRadians"@,
        MQLOperator::Floor => "Floor"@,
        MQLOperator::Log => "Log"@,
        MQLOperator::Mod => "Mod"@,
        MQLOperator::Pow => "Pow"@,
        MQLOperator::RadiansToDegrees => "RadiansToDegrees"@,
        MQLOperator::Round => "Round"@,
        MQLOperator::Sin => "Sin"@,
        MQLOperator::Tan => "Tan"@,
        MQLOperator::Sqrt => "Sqrt"@,
        MQLOperator::SubstrCP => "SubstrCP"@,
        MQLOperator::SubstrBytes => "SubstrBytes"@,
        MQLOperator::ToUpper => "ToUpper"@,
        MQLOperator::ToLower => "ToLower"@,
        MQLOperator::Trim => "Trim"@,
        MQLOperator::LTrim => "LTrim"@,
        MQLOperator::RTrim => "RTrim"@,
        MQLOperator::Split => "Split"@,
        MQLOperator::Year => "Year"@,
        MQLOperator::Month => "Month"@,
        MQLOperator::DayOfMonth => "DayOfMonth"@,
        MQLOperator::Hour => "Hour"@,
        MQLOperator::Minute => "Minute"@,
        MQLOperator::Second => "Second"@,
        MQLOperator::Week => "Week"@,
        MQLOperator::DayOfYear => "DayOfYear"@,
        MQLOperator::IsoWeek => "IsoWeek"@,
        MQLOperator::IsoDayOfWeek => "IsoDayOfWeek"@,
        MQLOperator::DateAdd => "DateAdd"@,
        MQLOperator::DateDiff => "DateDiff"@,
        MQLOperator::DateTrunc => "DateTrunc"@,
        MQLOperator::MergeObjects => "MergeObjects"@,
    }
}

/// An AIR literal. A double is held as its IEEE-754 bit pattern.
#[derive(Debug, Clone, PartialEq)]
pub enum LiteralValue {
    Null,
    Boolean(bool),
    String(String),
    Integer(i32),
    Long(i64),
    Double(u64),
}

/// A field reference: `name` below `parent`, or below the current document
/// when there is no parent.
#[derive(Debug, PartialEq)]
pub struct FieldRef {
    pub parent: Option<Box<FieldRef>>,
    pub name: String,
}

/// An MQL operator applied to arguments.
#[derive(Debug, PartialEq)]
pub struct MQLSemanticOperator {
    pub op: MQLOperator,
    pub args: Vec<Expression>,
}

/// The field `field` of the document that `input` evaluates to.
#[derive(Debug, PartialEq)]
pub struct GetField {
    pub field: String,
    pub input: Box<Expression>,
}

/// AIR expressions.
#[derive(Debug, PartialEq)]
pub enum Expression {
    Literal(LiteralValue),
    /// A document literal: its fields, in order.
    Document(Vec<(String, Expression)>),
    Array(Vec<Expression>),
    /// A `$$` variable, by name.
    Variable(String),
    FieldRef(FieldRef),
    MQLSemanticOperator(MQLSemanticOperator),
    GetField(GetField),
    /// The root document (`$$ROOT`).
    RootReference,
}

/// `$project`: the fields of each document that `source` produces.
#[derive(Debug, PartialEq)]
pub struct Project {
    pub source: Box<Stage>,
    pub specifications: Vec<(String, Expression)>,
}

/// The documents of a collection.
#[derive(Debug, PartialEq)]
pub struct Collection {
    pub db: String,
    pub collection: String,
}

/// `$replaceWith`: replaces each document by what `new_root` evaluates to.
#[derive(Debug, PartialEq)]
pub struct ReplaceWith {
    pub source: Box<Stage>,
    pub new_root: Box<Expression>,
}

/// `$documents`: literal documents.
#[derive(Debug, PartialEq)]
pub struct Documents {
    pub array: Vec<Expression>,
}

/// AIR stages. Of the stages that code generation does not handle, only the
/// input stages are kept.
#[derive(Debug, PartialEq)]
pub enum Stage {
    Project(Project),
    Group(Box<Stage>),
    Limit(Box<Stage>),
    Sort(Box<Stage>),
    Collection(Collection),
    Join(Box<Stage>, Box<Stage>),
    Unwind(Box<Stage>),
    Lookup(Box<Stage>),
    ReplaceWith(ReplaceWith),
    Match(Box<Stage>),
    UnionWith(Box<Stage>),
    Skip(Box<Stage>),
    Documents(Documents),
}

} // verus!
