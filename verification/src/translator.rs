//! Helpers of the MIR-to-AIR translation: the operator family of each
//! scalar function, the conversions of types, date parts and literals, and
//! the naming of datasources, project keys, field paths and let variables.

use vstd::prelude::*;
use vstd::std_specs::convert::FromSpec;
use crate::air::{
    self, mql_comparison, mql_connective, sql_comparison, sql_connective, MqlOperator, SqlOperator,
    TrimOperator,
};
use crate::mir::{
    self, is_comparison, scalar_comparison, scalar_connective, ScalarFunction,
};
use crate::binding_tuple::{
    as_map, has_key, key_index, lemma_key_index_at, lemma_sorted_take, lookup, sorted_keys,
    BindingTuple, DatasourceName, DatasourceNameView, KeyView,
};
use crate::mapping_registry::{
    spec_contains_mapping, MqlMappingRegistry, MqlMappingRegistryValue, MqlReferenceType,
};
use crate::text::{
    ascii_lower, copy_string, decimal, has_char, join, push_char, push_decimal, push_joined,
    replace_all_chars, replace_char, replace_first_char, starts_with_char, to_ascii_lowercase,
};

verus! {

/// The AIR operator family that a MIR scalar function translates to.
#[derive(Debug, Clone, Copy, PartialEq, Eq, Structural)]
pub enum ScalarFunctionType {
    Divide,
    Mql(MqlOperator),
    Sql(SqlOperator),
    Trim(TrimOperator),
}

/// The general (nullable) translation of every scalar function.
impl From<mir::ScalarFunction> for ScalarFunctionType {
    fn from(func: mir::ScalarFunction) -> (r: Self) {
        match func {
            ScalarFunction::Concat => ScalarFunctionType::Mql(MqlOperator::Concat),
            ScalarFunction::Pos => ScalarFunctionType::Sql(SqlOperator::Pos),
            ScalarFunction::Neg => ScalarFunctionType::Sql(SqlOperator::Neg),
            ScalarFunction::Add => ScalarFunctionType::Mql(MqlOperator::Add),
            ScalarFunction::Sub => ScalarFunctionType::Mql(MqlOperator::Subtract),
            ScalarFunction::Mul => ScalarFunctionType::Mql(MqlOperator::Multiply),
            ScalarFunction::Div => ScalarFunctionType::Divide,
            ScalarFunction::Lt => ScalarFunctionType::Sql(SqlOperator::Lt),
            ScalarFunction::Lte => ScalarFunctionType::Sql(SqlOperator::Lte),
            ScalarFunction::Neq => ScalarFunctionType::Sql(SqlOperator::Ne),
            ScalarFunction::Eq => ScalarFunctionType::Sql(SqlOperator::Eq),
            ScalarFunction::Gt => ScalarFunctionType::Sql(SqlOperator::Gt),
            ScalarFunction::Gte => ScalarFunctionType::Sql(SqlOperator::Gte),
            ScalarFunction::Between => ScalarFunctionType::Sql(SqlOperator::Between),
            ScalarFunction::Not => ScalarFunctionType::Sql(SqlOperator::Not),
            ScalarFunction::And => ScalarFunctionType::Sql(SqlOperator::And),
            ScalarFunction::Or => ScalarFunctionType::Sql(SqlOperator::Or),
            ScalarFunction::ComputedFieldAccess => ScalarFunctionType::Sql(SqlOperator::ComputedFieldAccess),
            ScalarFunction::NullIf => ScalarFunctionType::Sql(SqlOperator::NullIf),
            ScalarFunction::Coalesce => ScalarFunctionType::Sql(SqlOperator::Coalesce),
            ScalarFunction::Slice => ScalarFunctionType::Sql(SqlOperator::Slice),
            ScalarFunction::Size => ScalarFunctionType::Sql(SqlOperator::Size),
            ScalarFunction::Position => ScalarFunctionType::Sql(SqlOperator::IndexOfCP),
            ScalarFunction::CharLength => ScalarFunctionType::Sql(SqlOperator::StrLenCP),
            ScalarFunction::OctetLength => ScalarFunctionType::Sql(SqlOperator::StrLenBytes),
            ScalarFunction::BitLength => ScalarFunctionType::Sql(SqlOperator::BitLength),
            ScalarFunction::Abs => ScalarFunctionType::Mql(MqlOperator::Abs),
            ScalarFunction::Ceil => ScalarFunctionType::Mql(MqlOperator::Ceil),
            ScalarFunction::Cos => ScalarFunctionType::Sql(SqlOperator::Cos),
            ScalarFunction::Degrees => ScalarFunctionType::Mql(MqlOperator::RadiansToDegrees),
            ScalarFunction::Floor => ScalarFunctionType::Mql(MqlOperator::Floor),
            ScalarFunction::Log => ScalarFunctionType::Sql(SqlOperator::Log),
            ScalarFunction::Mod => ScalarFunctionType::Sql(SqlOperator::Mod),
            ScalarFunction::Pow => ScalarFunctionType::Mql(MqlOperator::Pow),
            ScalarFunction::Radians => ScalarFunctionType::Mql(MqlOperator::DegreesToRadians),
            ScalarFunction::Round => ScalarFunctionType::Sql(SqlOperator::Round),
            ScalarFunction::Sin => ScalarFunctionType::Sql(SqlOperator::Sin),
            ScalarFunction::Sqrt => ScalarFunctionType::Sql(SqlOperator::Sqrt),
            ScalarFunction::Tan => ScalarFunctionType::Sql(SqlOperator::Tan),
            ScalarFunction::Replace => ScalarFunctionType::Mql(MqlOperator::ReplaceAll),
            ScalarFunction::Substring => ScalarFunctionType::Sql(SqlOperator::SubstrCP),
            ScalarFunction::Upper => ScalarFunctionType::Sql(SqlOperator::ToUpper),
            ScalarFunction::Lower => ScalarFunctionType::Sql(SqlOperator::ToLower),
            ScalarFunction::BTrim => ScalarFunctionType::Trim(TrimOperator::Trim),
            ScalarFunction::LTrim => ScalarFunctionType::Trim(TrimOperator::LTrim),
            ScalarFunction::RTrim => ScalarFunctionType::Trim(TrimOperator::RTrim),
            ScalarFunction::Split => ScalarFunctionType::Sql(SqlOperator::Split),
            ScalarFunction::CurrentTimestamp => ScalarFunctionType::Sql(SqlOperator::CurrentTimestamp),
            ScalarFunction::Year => ScalarFunctionType::Mql(MqlOperator::Year),
            ScalarFunction::Month => ScalarFunctionType::Mql(MqlOperator::Month),
            ScalarFunction::Day => ScalarFunctionType::Mql(MqlOperator::DayOfMonth),
            ScalarFunction::Hour => ScalarFunctionType::Mql(MqlOperator::Hour),
            ScalarFunction::Minute => ScalarFunctionType::Mql(MqlOperator::Minute),
            ScalarFunction::Second => ScalarFunctionType::Mql(MqlOperator::Second),
            ScalarFunction::Millisecond => ScalarFunctionType::Mql(MqlOperator::Millisecond),
            ScalarFunction::Week => ScalarFunctionType::Mql(MqlOperator::Week),
            ScalarFunction::DayOfWeek => ScalarFunctionType::Mql(MqlOperator::DayOfWeek),
            ScalarFunction::DayOfYear => ScalarFunctionType::Mql(MqlOperator::DayOfYear),
            ScalarFunction::IsoWeek => ScalarFunctionType::Mql(MqlOperator::IsoWeek),
            ScalarFunction::IsoWeekday => ScalarFunctionType::Mql(MqlOperator::IsoDayOfWeek),
            ScalarFunction::MergeObjects => ScalarFunctionType::Mql(MqlOperator::MergeObjects),
        }
    }
}

impl vstd::std_specs::convert::FromSpecImpl<mir::ScalarFunction> for ScalarFunctionType {
    open spec fn obeys_from_spec() -> bool {
        true
    }

    open spec fn from_spec(func: mir::ScalarFunction) -> Self {
        match func {
            ScalarFunction::Concat => ScalarFunctionType::Mql(MqlOperator::Concat),
            ScalarFunction::Pos => ScalarFunctionType::Sql(SqlOperator::Pos),
            ScalarFunction::Neg => ScalarFunctionType::Sql(SqlOperator::Neg),
            ScalarFunction::Add => ScalarFunctionType::Mql(MqlOperator::Add),
            ScalarFunction::Sub => ScalarFunctionType::Mql(MqlOperator::Subtract),
            ScalarFunction::Mul => ScalarFunctionType::Mql(MqlOperator::Multiply),
            ScalarFunction::Div => ScalarFunctionType::Divide,
            ScalarFunction::Lt => ScalarFunctionType::Sql(SqlOperator::Lt),
            ScalarFunction::Lte => ScalarFunctionType::Sql(SqlOperator::Lte),
            ScalarFunction::Neq => ScalarFunctionType::Sql(SqlOperator::Ne),
            ScalarFunction::Eq => ScalarFunctionType::Sql(SqlOperator::Eq),
            ScalarFunction::Gt => ScalarFunctionType::Sql(SqlOperator::Gt),
            ScalarFunction::Gte => ScalarFunctionType::Sql(SqlOperator::Gte),
            ScalarFunction::Between => ScalarFunctionType::Sql(SqlOperator::Between),
            ScalarFunction::Not => ScalarFunctionType::Sql(SqlOperator::Not),
            ScalarFunction::And => ScalarFunctionType::Sql(SqlOperator::And),
            ScalarFunction::Or => ScalarFunctionType::Sql(SqlOperator::Or),
            ScalarFunction::ComputedFieldAccess => ScalarFunctionType::Sql(SqlOperator::ComputedFieldAccess),
            ScalarFunction::NullIf => ScalarFunctionType::Sql(SqlOperator::NullIf),
            ScalarFunction::Coalesce => ScalarFunctionType::Sql(SqlOperator::Coalesce),
            ScalarFunction::Slice => ScalarFunctionType::Sql(SqlOperator::Slice),
            ScalarFunction::Size => ScalarFunctionType::Sql(SqlOperator::Size),
            ScalarFunction::Position => ScalarFunctionType::Sql(SqlOperator::IndexOfCP),
            ScalarFunction::CharLength => ScalarFunctionType::Sql(SqlOperator::StrLenCP),
            ScalarFunction::OctetLength => ScalarFunctionType::Sql(SqlOperator::StrLenBytes),
            ScalarFunction::BitLength => ScalarFunctionType::Sql(SqlOperator::BitLength),
            ScalarFunction::Abs => ScalarFunctionType::Mql(MqlOperator::Abs),
            ScalarFunction::Ceil => ScalarFunctionType::Mql(MqlOperator::Ceil),
            ScalarFunction::Cos => ScalarFunctionType::Sql(SqlOperator::Cos),
            ScalarFunction::Degrees => ScalarFunctionType::Mql(MqlOperator::RadiansToDegrees),
            ScalarFunction::Floor => ScalarFunctionType::Mql(MqlOperator::Floor),
            ScalarFunction::Log => ScalarFunctionType::Sql(SqlOperator::Log),
            ScalarFunction::Mod => ScalarFunctionType::Sql(SqlOperator::Mod),
            ScalarFunction::Pow => ScalarFunctionType::Mql(MqlOperator::Pow),
            ScalarFunction::Radians => ScalarFunctionType::Mql(MqlOperator::DegreesToRadians),
            ScalarFunction::Round => ScalarFunctionType::Sql(SqlOperator::Round),
            ScalarFunction::Sin => ScalarFunctionType::Sql(SqlOperator::Sin),
            ScalarFunction::Sqrt => ScalarFunctionType::Sql(SqlOperator::Sqrt),
            ScalarFunction::Tan => ScalarFunctionType::Sql(SqlOperator::Tan),
            ScalarFunction::Replace => ScalarFunctionType::Mql(MqlOperator::ReplaceAll),
            ScalarFunction::Substring => ScalarFunctionType::Sql(SqlOperator::SubstrCP),
            ScalarFunction::Upper => ScalarFunctionType::Sql(SqlOperator::ToUpper),
            ScalarFunction::Lower => ScalarFunctionType::Sql(SqlOperator::ToLower),
            ScalarFunction::BTrim => ScalarFunctionType::Trim(TrimOperator::Trim),
            ScalarFunction::LTrim => ScalarFunctionType::Trim(TrimOperator::LTrim),
            ScalarFunction::RTrim => ScalarFunctionType::Trim(TrimOperator::RTrim),
            ScalarFunction::Split => ScalarFunctionType::Sql(SqlOperator::Split),
            ScalarFunction::CurrentTimestamp => ScalarFunctionType::Sql(SqlOperator::CurrentTimestamp),
            ScalarFunction::Year => ScalarFunctionType::Mql(MqlOperator::Year),
            ScalarFunction::Month => ScalarFunctionType::Mql(MqlOperator::Month),
            ScalarFunction::Day => ScalarFunctionType::Mql(MqlOperator::DayOfMonth),
            ScalarFunction::Hour => ScalarFunctionType::Mql(MqlOperator::Hour),
            ScalarFunction::Minute => ScalarFunctionType::Mql(MqlOperator::Minute),
            ScalarFunction::Second => ScalarFunctionType::Mql(MqlOperator::Second),
            ScalarFunction::Millisecond => ScalarFunctionType::Mql(MqlOperator::Millisecond),
            ScalarFunction::Week => ScalarFunctionType::Mql(MqlOperator::Week),
            ScalarFunction::DayOfWeek => ScalarFunctionType::Mql(MqlOperator::DayOfWeek),
            ScalarFunction::DayOfYear => ScalarFunctionType::Mql(MqlOperator::DayOfYear),
            ScalarFunction::IsoWeek => ScalarFunctionType::Mql(MqlOperator::IsoWeek),
            ScalarFunction::IsoWeekday => ScalarFunctionType::Mql(MqlOperator::IsoDayOfWeek),
            ScalarFunction::MergeObjects => ScalarFunctionType::Mql(MqlOperator::MergeObjects),
        }
    }
}

/// The translation of a scalar function, given whether its arguments may be
/// null. Functions whose arguments can never be null translate to the
/// cheaper MQL operators where one exists.
pub open spec fn spec_scalar_function_type(is_nullable: bool, function: ScalarFunction) -> ScalarFunctionType {
    if is_nullable {
        <ScalarFunctionType as FromSpec<ScalarFunction>>::from_spec(function)
    } else {
        match function {
                ScalarFunction::Or => ScalarFunctionType::Mql(MqlOperator::Or),
                ScalarFunction::And => ScalarFunctionType::Mql(MqlOperator::And),
                ScalarFunction::Between => ScalarFunctionType::Mql(MqlOperator::Between),
                ScalarFunction::Eq => ScalarFunctionType::Mql(MqlOperator::Eq),
                ScalarFunction::Position => ScalarFunctionType::Mql(MqlOperator::IndexOfCP),
                ScalarFunction::Lt => ScalarFunctionType::Mql(MqlOperator::Lt),
                ScalarFunction::Lte => ScalarFunctionType::Mql(MqlOperator::Lte),
                ScalarFunction::Gt => ScalarFunctionType::Mql(MqlOperator::Gt),
                ScalarFunction::Gte => ScalarFunctionType::Mql(MqlOperator::Gte),
                ScalarFunction::Neq => ScalarFunctionType::Mql(MqlOperator::Ne),
                ScalarFunction::Not => ScalarFunctionType::Mql(MqlOperator::Not),
                ScalarFunction::Size => ScalarFunctionType::Mql(MqlOperator::Size),
                ScalarFunction::OctetLength => ScalarFunctionType::Mql(MqlOperator::StrLenBytes),
                ScalarFunction::CharLength => ScalarFunctionType::Mql(MqlOperator::StrLenCP),
                ScalarFunction::Substring => ScalarFunctionType::Mql(MqlOperator::SubstrCP),
                ScalarFunction::Lower => ScalarFunctionType::Mql(MqlOperator::ToLower),
                ScalarFunction::Upper => ScalarFunctionType::Mql(MqlOperator::ToUpper),
                _ => <ScalarFunctionType as FromSpec<ScalarFunction>>::from_spec(function),
        }
    }
}

pub fn scalar_function_to_scalar_function_type(is_nullable: bool, function: ScalarFunction) -> (r:
    ScalarFunctionType)
    ensures
        r == spec_scalar_function_type(is_nullable, function),
{
    if is_nullable {
        ScalarFunctionType::from(function)
    } else {
        match function {
                ScalarFunction::Or => ScalarFunctionType::Mql(MqlOperator::Or),
                ScalarFunction::And => ScalarFunctionType::Mql(MqlOperator::And),
                ScalarFunction::Between => ScalarFunctionType::Mql(MqlOperator::Between),
                ScalarFunction::Eq => ScalarFunctionType::Mql(MqlOperator::Eq),
                ScalarFunction::Position => ScalarFunctionType::Mql(MqlOperator::IndexOfCP),
                ScalarFunction::Lt => ScalarFunctionType::Mql(MqlOperator::Lt),
                ScalarFunction::Lte => ScalarFunctionType::Mql(MqlOperator::Lte),
                ScalarFunction::Gt => ScalarFunctionType::Mql(MqlOperator::Gt),
                ScalarFunction::Gte => ScalarFunctionType::Mql(MqlOperator::Gte),
                ScalarFunction::Neq => ScalarFunctionType::Mql(MqlOperator::Ne),
                ScalarFunction::Not => ScalarFunctionType::Mql(MqlOperator::Not),
                ScalarFunction::Size => ScalarFunctionType::Mql(MqlOperator::Size),
                ScalarFunction::OctetLength => ScalarFunctionType::Mql(MqlOperator::StrLenBytes),
                ScalarFunction::CharLength => ScalarFunctionType::Mql(MqlOperator::StrLenCP),
                ScalarFunction::Substring => ScalarFunctionType::Mql(MqlOperator::SubstrCP),
                ScalarFunction::Lower => ScalarFunctionType::Mql(MqlOperator::ToLower),
                ScalarFunction::Upper => ScalarFunctionType::Mql(MqlOperator::ToUpper),
                _ => ScalarFunctionType::from(function),
        }
    }
}

/// MIR types and AIR types correspond one to one.
impl From<mir::Type> for air::Type {
    fn from(t: mir::Type) -> (r: Self) {
        match t {
            mir::Type::Array => air::Type::Array,
            mir::Type::BinData => air::Type::BinData,
            mir::Type::Boolean => air::Type::Boolean,
            mir::Type::Datetime => air::Type::Datetime,
            mir::Type::DbPointer => air::Type::DbPointer,
            mir::Type::Decimal128 => air::Type::Decimal128,
            mir::Type::Document => air::Type::Document,
            mir::Type::Double => air::Type::Double,
            mir::Type::Int32 => air::Type::Int32,
            mir::Type::Int64 => air::Type::Int64,
            mir::Type::Javascript => air::Type::Javascript,
            mir::Type::JavascriptWithScope => air::Type::JavascriptWithScope,
            mir::Type::MaxKey => air::Type::MaxKey,
            mir::Type::MinKey => air::Type::MinKey,
            mir::Type::Null => air::Type::Null,
            mir::Type::ObjectId => air::Type::ObjectId,
            mir::Type::RegularExpression => air::Type::RegularExpression,
            mir::Type::String => air::Type::String,
            mir::Type::Symbol => air::Type::Symbol,
            mir::Type::Timestamp => air::Type::Timestamp,
            mir::Type::Undefined => air::Type::Undefined,
        }
    }
}

impl vstd::std_specs::convert::FromSpecImpl<mir::Type> for air::Type {
    open spec fn obeys_from_spec() -> bool {
        true
    }

    open spec fn from_spec(t: mir::Type) -> Self {
        match t {
            mir::Type::Array => air::Type::Array,
            mir::Type::BinData => air::Type::BinData,
            mir::Type::Boolean => air::Type::Boolean,
            mir::Type::Datetime => air::Type::Datetime,
            mir::Type::DbPointer => air::Type::DbPointer,
            mir::Type::Decimal128 => air::Type::Decimal128,
            mir::Type::Document => air::Type::Document,
            mir::Type::Double => air::Type::Double,
            mir::Type::Int32 => air::Type::Int32,
            mir::Type::Int64 => air::Type::Int64,
            mir::Type::Javascript => air::Type::Javascript,
            mir::Type::JavascriptWithScope => air::Type::JavascriptWithScope,
            mir::Type::MaxKey => air::Type::MaxKey,
            mir::Type::MinKey => air::Type::MinKey,
            mir::Type::Null => air::Type::Null,
            mir::Type::ObjectId => air::Type::ObjectId,
            mir::Type::RegularExpression => air::Type::RegularExpression,
            mir::Type::String => air::Type::String,
            mir::Type::Symbol => air::Type::Symbol,
            mir::Type::Timestamp => air::Type::Timestamp,
            mir::Type::Undefined => air::Type::Undefined,
        }
    }
}

/// `Missing` and `Number` are kept; a type is converted.
impl From<mir::TypeOrMissing> for air::TypeOrMissing {
    fn from(item: mir::TypeOrMissing) -> (r: Self) {
        match item {
            mir::TypeOrMissing::Missing => air::TypeOrMissing::Missing,
            mir::TypeOrMissing::Type(t) => air::TypeOrMissing::Type(air::Type::from(t)),
            mir::TypeOrMissing::Number => air::TypeOrMissing::Number,
        }
    }
}

impl vstd::std_specs::convert::FromSpecImpl<mir::TypeOrMissing> for air::TypeOrMissing {
    open spec fn obeys_from_spec() -> bool {
        true
    }

    open spec fn from_spec(item: mir::TypeOrMissing) -> Self {
        match item {
            mir::TypeOrMissing::Missing => air::TypeOrMissing::Missing,
            mir::TypeOrMissing::Type(t) => air::TypeOrMissing::Type(<air::Type as FromSpec<mir::Type>>::from_spec(t)),
            mir::TypeOrMissing::Number => air::TypeOrMissing::Number,
        }
    }
}

/// MIR date parts and AIR date parts correspond one to one.
impl From<mir::DatePart> for air::DatePart {
    fn from(dp: mir::DatePart) -> (r: Self) {
        match dp {
            mir::DatePart::Year => air::DatePart::Year,
            mir::DatePart::Quarter => air::DatePart::Quarter,
            mir::DatePart::Month => air::DatePart::Month,
            mir::DatePart::Week => air::DatePart::Week,
            mir::DatePart::Day => air::DatePart::Day,
            mir::DatePart::Hour => air::DatePart::Hour,
            mir::DatePart::Minute => air::DatePart::Minute,
            mir::DatePart::Second => air::DatePart::Second,
            mir::DatePart::Millisecond => air::DatePart::Millisecond,
        }
    }
}

impl vstd::std_specs::convert::FromSpecImpl<mir::DatePart> for air::DatePart {
    open spec fn obeys_from_spec() -> bool {
        true
    }

    open spec fn from_spec(dp: mir::DatePart) -> Self {
        match dp {
            mir::DatePart::Year => air::DatePart::Year,
            mir::DatePart::Quarter => air::DatePart::Quarter,
            mir::DatePart::Month => air::DatePart::Month,
            mir::DatePart::Week => air::DatePart::Week,
            mir::DatePart::Day => air::DatePart::Day,
            mir::DatePart::Hour => air::DatePart::Hour,
            mir::DatePart::Minute => air::DatePart::Minute,
            mir::DatePart::Second => air::DatePart::Second,
            mir::DatePart::Millisecond => air::DatePart::Millisecond,
        }
    }
}

/// MIR date functions and AIR date functions correspond one to one.
impl From<mir::DateFunction> for air::DateFunction {
    fn from(df: mir::DateFunction) -> (r: Self) {
        match df {
            mir::DateFunction::Add => air::DateFunction::Add,
            mir::DateFunction::Diff => air::DateFunction::Diff,
            mir::DateFunction::Trunc => air::DateFunction::Trunc,
        }
    }
}

impl vstd::std_specs::convert::FromSpecImpl<mir::DateFunction> for air::DateFunction {
    open spec fn obeys_from_spec() -> bool {
        true
    }

    open spec fn from_spec(df: mir::DateFunction) -> Self {
        match df {
            mir::DateFunction::Add => air::DateFunction::Add,
            mir::DateFunction::Diff => air::DateFunction::Diff,
            mir::DateFunction::Trunc => air::DateFunction::Trunc,
        }
    }
}

/// The AIR literal for a MIR literal: the same variant, holding the same
/// value.
pub open spec fn spec_translate_literal_value(lit: mir::LiteralValue) -> air::LiteralValue {
    match lit {
            mir::LiteralValue::Null => air::LiteralValue::Null,
            mir::LiteralValue::Boolean(b) => air::LiteralValue::Boolean(b),
            mir::LiteralValue::String(s) => air::LiteralValue::String(s),
            mir::LiteralValue::Integer(i) => air::LiteralValue::Integer(i),
            mir::LiteralValue::Long(l) => air::LiteralValue::Long(l),
            mir::LiteralValue::Double(d) => air::LiteralValue::Double(d),
            mir::LiteralValue::DbPointer(d) => air::LiteralValue::DbPointer(d),
            mir::LiteralValue::Undefined => air::LiteralValue::Undefined,
            mir::LiteralValue::DateTime(d) => air::LiteralValue::DateTime(d),
            mir::LiteralValue::Decimal128(d) => air::LiteralValue::Decimal128(d),
            mir::LiteralValue::MinKey => air::LiteralValue::MinKey,
            mir::LiteralValue::MaxKey => air::LiteralValue::MaxKey,
            mir::LiteralValue::Timestamp(t) => air::LiteralValue::Timestamp(t),
            mir::LiteralValue::RegularExpression(r) => air::LiteralValue::RegularExpression(r),
            mir::LiteralValue::ObjectId(o) => air::LiteralValue::ObjectId(o),
            mir::LiteralValue::JavaScriptCode(j) => air::LiteralValue::JavaScriptCode(j),
            mir::LiteralValue::JavaScriptCodeWithScope(j) => air::LiteralValue::JavaScriptCodeWithScope(j),
            mir::LiteralValue::Symbol(s) => air::LiteralValue::Symbol(s),
            mir::LiteralValue::Binary(b) => air::LiteralValue::Binary(b),
    }
}

/// Reads an AIR literal back as the MIR literal of the same kind holding the
/// same value.
pub open spec fn mir_literal_of(a: air::LiteralValue) -> mir::LiteralValue {
    match a {
        air::LiteralValue::Null => mir::LiteralValue::Null,
        air::LiteralValue::Boolean(b) => mir::LiteralValue::Boolean(b),
        air::LiteralValue::String(s) => mir::LiteralValue::String(s),
        air::LiteralValue::Integer(i) => mir::LiteralValue::Integer(i),
        air::LiteralValue::Long(l) => mir::LiteralValue::Long(l),
        air::LiteralValue::Double(d) => mir::LiteralValue::Double(d),
        air::LiteralValue::DbPointer(d) => mir::LiteralValue::DbPointer(d),
        air::LiteralValue::Undefined => mir::LiteralValue::Undefined,
        air::LiteralValue::DateTime(d) => mir::LiteralValue::DateTime(d),
        air::LiteralValue::Decimal128(d) => mir::LiteralValue::Decimal128(d),
        air::LiteralValue::MinKey => mir::LiteralValue::MinKey,
        air::LiteralValue::MaxKey => mir::LiteralValue::MaxKey,
        air::LiteralValue::Timestamp(t) => mir::LiteralValue::Timestamp(t),
        air::LiteralValue::RegularExpression(r) => mir::LiteralValue::RegularExpression(r),
        air::LiteralValue::ObjectId(o) => mir::LiteralValue::ObjectId(o),
        air::LiteralValue::JavaScriptCode(j) => mir::LiteralValue::JavaScriptCode(j),
        air::LiteralValue::JavaScriptCodeWithScope(j) => mir::LiteralValue::JavaScriptCodeWithScope(j),
        air::LiteralValue::Symbol(s) => mir::LiteralValue::Symbol(s),
        air::LiteralValue::Binary(b) => mir::LiteralValue::Binary(b),
    }
}

/// Translating a literal loses and changes nothing: reading the AIR literal
/// back gives the MIR literal that was translated, and every AIR literal is
/// the translation of what it reads back as.
pub proof fn lemma_literal_translation_round_trips(lit: mir::LiteralValue, a: air::LiteralValue)
    ensures
        mir_literal_of(spec_translate_literal_value(lit)) == lit,
        spec_translate_literal_value(mir_literal_of(a)) == a,
{
}

/// A comparison keeps its meaning in translation: the MQL operator chosen
/// when no nulls can occur, the SQL operator chosen when they can, and the
/// MIR function agree on every pair of values.
pub proof fn lemma_comparison_translation_keeps_its_meaning(f: ScalarFunction)
    requires
        is_comparison(f),
    ensures
        spec_scalar_function_type(false, f) matches ScalarFunctionType::Mql(m) && forall|x: int, y: int|
            #[trigger] mql_comparison(m, x, y) == scalar_comparison(f, x, y),
        spec_scalar_function_type(true, f) matches ScalarFunctionType::Sql(s) && forall|x: int, y: int|
            #[trigger] sql_comparison(s, x, y) == scalar_comparison(f, x, y),
{
}

/// `AND` and `OR` keep their meaning in translation, with or without
/// nulls.
pub proof fn lemma_connective_translation_keeps_its_meaning(f: ScalarFunction)
    requires
        scalar_connective(f, true, true) is Some,
    ensures
        spec_scalar_function_type(false, f) matches ScalarFunctionType::Mql(m) && forall|a: bool, b: bool|
            #[trigger] mql_connective(m, a, b) == scalar_connective(f, a, b),
        spec_scalar_function_type(true, f) matches ScalarFunctionType::Sql(s) && forall|a: bool, b: bool|
            #[trigger] sql_connective(s, a, b) == scalar_connective(f, a, b),
{
}

/// Errors of the translation helpers.
#[derive(Debug, PartialEq)]
pub enum Error {
    /// A project would get an empty key.
    InvalidProjectField,
    /// A datasource that the mapping registry does not know was referenced.
    ReferenceNotFound(mir::Key),
}

/// The translator state that the helpers read: where each datasource lives,
/// the current scope, and whether a join is being translated.
pub struct MqlTranslator {
    pub mapping_registry: MqlMappingRegistry,
    pub scope_level: u16,
    pub is_join: bool,
}

/// `base` with `k` underscores in front.
pub open spec fn underscored(base: Seq<char>, k: nat) -> Seq<char> {
    Seq::new(k, |i: int| '_') + base
}

/// `r` is the first of `base`, `_base`, `__base`, ... that is not taken.
pub open spec fn is_first_free_name(r: Seq<char>, base: Seq<char>, taken: spec_fn(Seq<char>) -> bool) -> bool {
    exists|k: nat|
        #![trigger underscored(base, k)]
        r == underscored(base, k) && !taken(r) && forall|j: nat| j < k ==> taken(underscored(base, j))
}

/// One of `names` equals `s`.
pub open spec fn name_in_use(names: Seq<String>, s: Seq<char>) -> bool {
    exists|i: int| 0 <= i < names.len() && #[trigger] names[i]@ == s
}

/// Whether one of `names` equals `s`.
pub fn contains_name(names: &Vec<String>, s: &String) -> (r: bool)
    ensures
        r == name_in_use(names@, s@),
{
    let mut i: usize = 0;
    while i < names.len()
        invariant
            i <= names@.len(),
            forall|j: int| 0 <= j < i ==> names@[j]@ != s@,
        decreases names@.len() - i,
    {
        if names[i] == *s {
            return true;
        }
        i = i + 1;
    }
    false
}

/// The name of a datasource, with `unique_bot_name` standing for the bottom
/// datasource.
pub open spec fn spec_datasource_name(datasource: DatasourceNameView, unique_bot_name: Seq<char>) -> Seq<char> {
    match datasource {
        DatasourceNameView::Bottom => unique_bot_name,
        DatasourceNameView::Named(s) => s,
    }
}

/// A name that starts with `$` gets `_` in its place.
pub open spec fn without_leading_dollar(name: Seq<char>) -> Seq<char> {
    if name.len() > 0 && name[0] == '$' {
        seq!['_'] + name.drop_first()
    } else {
        name
    }
}

/// The project key that a datasource name maps to before any uniqueness
/// check: a leading `$` and every `.` become `_`.
pub open spec fn project_key_candidate(name: Seq<char>) -> Seq<char> {
    replace_all_chars(without_leading_dollar(name), '.', '_')
}

/// An ASCII character that is not a word character (`[0-9A-Za-z_]`).
pub open spec fn is_ascii_non_word(c: char) -> bool {
    (c as int) < 128 && !('0' <= c <= '9' || 'A' <= c <= 'Z' || 'a' <= c <= 'z' || c == '_')
}

/// `s` with every ASCII non-word character replaced by `_`.
pub open spec fn underscore_non_word(s: Seq<char>) -> Seq<char> {
    s.map_values(|c: char| if is_ascii_non_word(c) { '_' } else { c })
}

/// `regex::Regex::replace_all` with the character class
/// `[[:ascii:]&&[:^word:]]` and the replacement `_`. The class matches one
/// ASCII character that is not in `[0-9A-Za-z_]`; `replace_all` replaces
/// every such match, so each of those characters becomes `_` and every
/// other character is kept. Other patterns are not accepted.
#[verifier::external_body]
fn regex_replace_all(pattern: &str, haystack: &str, replacement: &str) -> (r: String)
    requires
        pattern@ == "[[:ascii:]&&[:^word:]]"@,
        replacement@ == "_"@,
    ensures
        r@ == underscore_non_word(haystack@),
{
    regex::Regex::new(pattern).unwrap().replace_all(haystack, replacement).to_string()
}

/// The name generated for the let variable of a datasource before it is
/// made unique: `v<name>_<scope>` (the bottom datasource named `__bot`),
/// with every ASCII non-word character replaced by `_`, in ASCII lower case.
pub open spec fn let_base_name(k: KeyView) -> Seq<char> {
    underscore_non_word(
        seq!['v'] + spec_datasource_name(k.datasource, "__bot"@) + seq!['_'] + decimal(
            k.scope as nat,
        ),
    ).map_values(|c: char| ascii_lower(c))
}

/// `base` with `m` underscores after it.
pub open spec fn suffixed(base: Seq<char>, m: nat) -> Seq<char> {
    base + Seq::new(m, |i: int| '_')
}

/// `r` is the first of `base`, `base_`, `base__`, ... that is not in
/// `taken`.
pub open spec fn is_first_free_suffix(r: Seq<char>, base: Seq<char>, taken: Seq<Seq<char>>) -> bool {
    exists|m: nat|
        #![trigger suffixed(base, m)]
        r == suffixed(base, m) && !taken.contains(r) && forall|j: nat|
            j < m ==> taken.contains(#[trigger] suffixed(base, j))
}

/// The names of let variables.
pub open spec fn let_names(bindings: Seq<air::LetVariable>) -> Seq<Seq<char>> {
    bindings.map_values(|l: air::LetVariable| l.name@)
}

/// The AIR reference to the MQL name of a registry value.
pub open spec fn reference_expr(v: MqlMappingRegistryValue) -> air::Expression {
    match v.ref_type {
        MqlReferenceType::FieldRef => air::Expression::FieldRef(air::FieldRef { name: v.name }),
        MqlReferenceType::Variable => air::Expression::Variable(air::Variable { name: v.name }),
    }
}

/// The `i`-th let binding is generated from the `i`-th registry entry.
pub open spec fn let_binding_at(
    bindings: Seq<air::LetVariable>,
    entries: Seq<(mir::Key, MqlMappingRegistryValue)>,
    i: int,
) -> bool {
    &&& is_first_free_suffix(bindings[i].name@, let_base_name(entries[i].0@), let_names(bindings.take(i)))
    &&& *bindings[i].expr == reference_expr(entries[i].1)
}

/// Each key of `entries` mapped to the variable of its let binding.
pub open spec fn let_mapping(
    entries: Seq<(mir::Key, MqlMappingRegistryValue)>,
    bindings: Seq<air::LetVariable>,
) -> Map<KeyView, MqlMappingRegistryValue> {
    Map::new(
        |k: KeyView| has_key(entries, k),
        |k: KeyView|
            MqlMappingRegistryValue {
                name: bindings[key_index(entries, k)].name,
                ref_type: MqlReferenceType::Variable,
            },
    )
}

/// Whether one of `bindings` has the name `name`.
fn has_binding_named(bindings: &Vec<air::LetVariable>, name: &String) -> (r: bool)
    ensures
        r == let_names(bindings@).contains(name@),
{
    let mut i: usize = 0;
    while i < bindings.len()
        invariant
            i <= bindings@.len(),
            forall|j: int| 0 <= j < i ==> bindings@[j].name@ != name@,
        decreases bindings@.len() - i,
    {
        if bindings[i].name == *name {
            assert(let_names(bindings@)[i as int] == name@);
            return true;
        }
        i = i + 1;
    }
    assert forall|j: int| 0 <= j < let_names(bindings@).len() implies let_names(bindings@)[j]
        != name@ by {
        assert(let_names(bindings@)[j] == bindings@[j].name@);
    }
    false
}

/// A key that MQL reads as a plain field name: not empty, not starting
/// with `$`, holding no `.`.
pub open spec fn is_valid_project_key(key: Seq<char>) -> bool {
    key.len() > 0 && key[0] != '$' && !key.contains('.')
}

/// Every project key that a non-empty datasource name can map to, with or
/// without underscores in front, is a plain MQL field name.
pub proof fn lemma_project_keys_are_valid(name: Seq<char>, k: nat)
    requires
        name.len() > 0,
    ensures
        is_valid_project_key(underscored(project_key_candidate(name), k)),
{
    let c = project_key_candidate(name);
    let key = underscored(c, k);
    assert(c.len() == name.len());
    assert(c[0] != '$');
    assert forall|i: int| 0 <= i < c.len() implies c[i] != '.' by {}
    assert forall|i: int| 0 <= i < key.len() implies key[i] != '.' by {
        if i >= k {
            assert(key[i] == c[i - k]);
        }
    }
    if k > 0 {
        assert(key[0] == '_');
    } else {
        assert(key[0] == c[0]);
    }
}

/// The generated let variables have pairwise different names.
pub proof fn lemma_let_names_distinct(
    bindings: Seq<air::LetVariable>,
    entries: Seq<(mir::Key, MqlMappingRegistryValue)>,
)
    requires
        bindings.len() <= entries.len(),
        forall|i: int| 0 <= i < bindings.len() ==> #[trigger] let_binding_at(bindings, entries, i),
    ensures
        forall|i: int, j: int| 0 <= i < j < bindings.len() ==> bindings[i].name@ != bindings[j].name@,
{
    assert forall|i: int, j: int| 0 <= i < j < bindings.len() implies bindings[i].name@
        != bindings[j].name@ by {
        assert(let_binding_at(bindings, entries, j));
        assert(let_names(bindings.take(j))[i] == bindings[i].name@);
    }
}

/// Without nulls to propagate, the translation of a scalar function is the
/// general one, except that comparisons, boolean connectives, and the size,
/// position, length, substring and case functions use their MQL operators.
pub proof fn lemma_nullable_translation_is_general(function: ScalarFunction)
    ensures
        spec_scalar_function_type(true, function) == <ScalarFunctionType as FromSpec<
            ScalarFunction,
        >>::from_spec(function),
{
}

/// The non-nullable translation of a comparison or boolean function is an
/// MQL operator.
pub proof fn lemma_non_nullable_comparisons_are_mql(function: ScalarFunction)
    requires
        function == ScalarFunction::Lt || function == ScalarFunction::Lte || function
            == ScalarFunction::Gt || function == ScalarFunction::Gte || function == ScalarFunction::Eq
            || function == ScalarFunction::Neq || function == ScalarFunction::Between || function
            == ScalarFunction::Not || function == ScalarFunction::And || function == ScalarFunction::Or,
    ensures
        spec_scalar_function_type(false, function) is Mql,
{
}

impl MqlTranslator {
    /// Prepends `_` to `base_name` until the name is none of
    /// `names_in_use`.
    pub fn generate_unique_datasource_name(base_name: String, names_in_use: &Vec<String>) -> (r:
        String)
        ensures
            is_first_free_name(r@, base_name@, |s: Seq<char>| name_in_use(names_in_use@, s)),
    {
        let mut bound: usize = 0;
        let mut i: usize = 0;
        while i < names_in_use.len()
            invariant
                i <= names_in_use@.len(),
                forall|j: int| 0 <= j < i ==> #[trigger] names_in_use@[j]@.len() <= bound,
            decreases names_in_use@.len() - i,
        {
            let l = names_in_use[i].as_str().unicode_len();
            if l > bound {
                bound = l;
            }
            i = i + 1;
        }
        let ghost base = base_name@;
        let mut ret = base_name;
        let ghost mut k: nat = 0;
        assert(ret@ =~= underscored(base, 0));
        while contains_name(names_in_use, &ret)
            invariant
                forall|j: int| 0 <= j < names_in_use@.len() ==> #[trigger] names_in_use@[j]@.len() <= bound,
                ret@ == underscored(base, k),
                forall|j: nat| j < k ==> name_in_use(names_in_use@, #[trigger] underscored(base, j)),
            decreases bound + 1 - ret@.len(),
        {
            let ghost before = ret@;
            let mut prefixed = String::new();
            push_char(&mut prefixed, '_');
            prefixed.append(ret.as_str());
            ret = prefixed;
            proof {
                assert(underscored(base, k + 1) =~= seq!['_'] + underscored(base, k));
                assert forall|j: nat| j < k + 1 implies name_in_use(
                    names_in_use@,
                    #[trigger] underscored(base, j),
                ) by {
                    if j == k {
                        assert(name_in_use(names_in_use@, before));
                    }
                }
                k = k + 1;
            }
        }
        assert(ret@ == underscored(base, k));
        ret
    }

    /// The name that `s` conflicts with in the current scope: a key of
    /// `project_names` or, in a join, a name the mapping registry already
    /// hands out.
    pub open spec fn conflicts(
        &self,
        project_names: Seq<(mir::Key, mir::Expression)>,
        s: Seq<char>,
    ) -> bool {
        ||| has_key(
            project_names,
            KeyView { datasource: DatasourceNameView::Named(s), scope: self.scope_level },
        )
        ||| self.is_join && spec_contains_mapping(self.mapping_registry@, self.scope_level, s)
    }

    /// Ensures `base_name` conflicts with no datasource name at this scope,
    /// by prepending `_` until it does not.
    pub fn ensure_unique_datasource_name(
        &mut self,
        base_name: String,
        project_names: &BindingTuple<mir::Expression>,
    ) -> (r: String)
        ensures
            *final(self) == *old(self),
            is_first_free_name(
                r@,
                base_name@,
                |s: Seq<char>| old(self).conflicts(project_names@, s),
            ),
    {
        let names = self.conflicting_names(project_names);
        let r = MqlTranslator::generate_unique_datasource_name(base_name, &names);
        proof {
            let in_use = |s: Seq<char>| name_in_use(names@, s);
            let conflict = |s: Seq<char>| self.conflicts(project_names@, s);
            assert(in_use =~= conflict);
        }
        r
    }

    /// The names that conflict at this scope: the names of `project_names`
    /// in this scope and, in a join, the names that the registry hands out in
    /// this scope.
    fn conflicting_names(&self, project_names: &BindingTuple<mir::Expression>) -> (r: Vec<String>)
        ensures
            forall|s: Seq<char>| #[trigger] name_in_use(r@, s) == self.conflicts(project_names@, s),
    {
        let mut names: Vec<String> = Vec::new();
        let entries = project_names.entries();
        let mut i: usize = 0;
        while i < entries.len()
            invariant
                entries@ == project_names@,
                i <= entries@.len(),
                forall|a: int| 0 <= a < names@.len() ==> self.conflicts(project_names@, #[trigger] names@[a]@),
                forall|j: int|
                    0 <= j < i ==> (#[trigger] entries@[j].0).scope == self.scope_level ==> (
                    entries@[j].0.datasource matches DatasourceName::Named(n) ==> name_in_use(
                        names@,
                        n@,
                    )),
            decreases entries@.len() - i,
        {
            let ghost before = names@;
            if entries[i].0.scope == self.scope_level {
                if let DatasourceName::Named(n) = &entries[i].0.datasource {
                    names.push(n.clone());
                    proof {
                        let kv = KeyView { datasource: DatasourceNameView::Named(n@), scope: self.scope_level };
                        assert(project_names@[i as int].0@ == kv);
                        assert(names@[names@.len() - 1]@ == n@);
                    }
                }
            }
            proof {
                assert forall|j: int|
                    0 <= j < i + 1 && (#[trigger] entries@[j].0).scope == self.scope_level
                        && entries@[j].0.datasource is Named implies name_in_use(
                    names@,
                    entries@[j].0.datasource->Named_0@,
                ) by {
                    if j < i && entries@[j].0.scope == self.scope_level {
                        if let DatasourceName::Named(n) = entries@[j].0.datasource {
                            assert(name_in_use(before, n@));
                            let a = choose|a: int| 0 <= a < before.len() && #[trigger] before[a]@ == n@;
                            assert(names@[a] == before[a]);
                        }
                    }
                }
                assert forall|a: int| 0 <= a < names@.len() implies self.conflicts(
                    project_names@,
                    #[trigger] names@[a]@,
                ) by {
                    if a < before.len() {
                        assert(names@[a] == before[a]);
                    }
                }
            }
            i = i + 1;
        }
        let ghost from_projects = names@;
        if self.is_join {
            let regs = self.mapping_registry.get_registry().entries();
            let mut i: usize = 0;
            while i < regs.len()
                invariant
                    self.is_join,
                    regs@ == self.mapping_registry@,
                    entries@ == project_names@,
                    i <= regs@.len(),
                    forall|a: int| 0 <= a < names@.len() ==> self.conflicts(project_names@, #[trigger] names@[a]@),
                    forall|s: Seq<char>| name_in_use(from_projects, s) ==> #[trigger] name_in_use(names@, s),
                    forall|j: int|
                        0 <= j < i ==> (#[trigger] regs@[j].0).scope == self.scope_level ==> name_in_use(
                            names@,
                            regs@[j].1.name@,
                        ),
                decreases regs@.len() - i,
            {
                let ghost before = names@;
                if regs[i].0.scope == self.scope_level {
                    names.push(regs[i].1.name.clone());
                    proof {
                        assert(names@[names@.len() - 1]@ == regs@[i as int].1.name@);
                        assert(spec_contains_mapping(self.mapping_registry@, self.scope_level, regs@[i as int].1.name@));
                    }
                }
                proof {
                    assert forall|s: Seq<char>| name_in_use(before, s) implies #[trigger] name_in_use(names@, s) by {
                        let a = choose|a: int| 0 <= a < before.len() && #[trigger] before[a]@ == s;
                        assert(names@[a] == before[a]);
                    }
                    assert forall|j: int|
                        0 <= j < i + 1 && (#[trigger] regs@[j].0).scope == self.scope_level implies name_in_use(
                            names@,
                            regs@[j].1.name@,
                        ) by {
                        if j < i && regs@[j].0.scope == self.scope_level {
                            assert(name_in_use(before, regs@[j].1.name@));
                        }
                    }
                    assert forall|a: int| 0 <= a < names@.len() implies self.conflicts(
                        project_names@,
                        #[trigger] names@[a]@,
                    ) by {
                        if a < before.len() {
                            assert(names@[a] == before[a]);
                        }
                    }
                }
                i = i + 1;
            }
        }
        proof {
            assert forall|s: Seq<char>| #[trigger] name_in_use(names@, s) == self.conflicts(project_names@, s) by {
                if name_in_use(names@, s) {
                    let a = choose|a: int| 0 <= a < names@.len() && #[trigger] names@[a]@ == s;
                }
                let kv = KeyView { datasource: DatasourceNameView::Named(s), scope: self.scope_level };
                if has_key(project_names@, kv) {
                    let j = choose|j: int| 0 <= j < project_names@.len() && #[trigger] project_names@[j].0@ == kv;
                    assert(entries@[j].0.scope == self.scope_level);
                    assert(entries@[j].0.datasource matches DatasourceName::Named(n) && n@ == s);
                    assert(name_in_use(from_projects, s));
                }
                if self.is_join && spec_contains_mapping(self.mapping_registry@, self.scope_level, s) {
                    let j = choose|j: int|
                        0 <= j < self.mapping_registry@.len() && self.mapping_registry@[j].0.scope
                            == self.scope_level && #[trigger] self.mapping_registry@[j].1.name@ == s;
                    assert(self.mapping_registry@[j].0.scope == self.scope_level);
                }
            }
        }
        names
    }

    /// The name of a datasource, with `unique_bot_name` standing for the
    /// bottom datasource.
    pub fn get_datasource_name(datasource: &DatasourceName, unique_bot_name: &str) -> (r: String)
        ensures
            r@ == spec_datasource_name(datasource@, unique_bot_name@),
    {
        match datasource {
            DatasourceName::Bottom => copy_string(unique_bot_name),
            DatasourceName::Named(s) => s.clone(),
        }
    }

    /// Maps a datasource to a valid MQL project key. A leading `$` and every
    /// `.` become `_`, since such keys mean something else or are invalid in
    /// MQL; a key changed that way, or one that clashes with a name the
    /// registry hands out in a join, is then made unique.
    pub fn get_mapped_project_name(
        &mut self,
        datasource: &DatasourceName,
        unique_bot_name: &str,
        project_names: &BindingTuple<mir::Expression>,
    ) -> (r: Result<String, Error>)
        ensures
            *final(self) == *old(self),
            ({
                let name = spec_datasource_name(datasource@, unique_bot_name@);
                let candidate = project_key_candidate(name);
                let needs_unique_check = (name.len() > 0 && name[0] == '$')
                    || without_leading_dollar(name).contains('.')
                    || (old(self).is_join && spec_contains_mapping(
                    old(self).mapping_registry@,
                    old(self).scope_level,
                    candidate,
                ));
                &&& r matches Ok(key) ==> is_valid_project_key(key@)
                &&& match r {
                    Err(e) => name.len() == 0 && e == Error::InvalidProjectField,
                    Ok(key) => {
                        &&& name.len() > 0
                        &&& needs_unique_check ==> is_first_free_name(
                            key@,
                            candidate,
                            |s: Seq<char>| old(self).conflicts(project_names@, s),
                        )
                        &&& !needs_unique_check ==> key@ == candidate
                    },
                }
            }),
    {
        let mut mapped_k = MqlTranslator::get_datasource_name(datasource, unique_bot_name);
        if mapped_k.as_str().unicode_len() == 0 {
            return Err(Error::InvalidProjectField);
        }
        let mut needs_unique_check = false;
        if starts_with_char(mapped_k.as_str(), '$') {
            mapped_k = replace_first_char(mapped_k.as_str(), '_');
            needs_unique_check = true;
        }
        if has_char(mapped_k.as_str(), '.') {
            mapped_k = replace_char(mapped_k.as_str(), '.', '_');
            needs_unique_check = true;
        } else {
            assert(replace_all_chars(mapped_k@, '.', '_') =~= mapped_k@);
        }
        needs_unique_check = needs_unique_check || (self.is_join
            && self.mapping_registry.contains_mapping(self.scope_level, &mapped_k));
        let ghost candidate = mapped_k@;
        if needs_unique_check {
            mapped_k = self.ensure_unique_datasource_name(mapped_k, project_names);
        }
        proof {
            let name = spec_datasource_name(datasource@, unique_bot_name@);
            if needs_unique_check {
                let k = choose|k: nat|
                    #![trigger underscored(candidate, k)]
                    mapped_k@ == underscored(candidate, k) && !self.conflicts(project_names@, mapped_k@)
                        && forall|j: nat| j < k ==> self.conflicts(project_names@, underscored(candidate, j));
                lemma_project_keys_are_valid(name, k);
            } else {
                lemma_project_keys_are_valid(name, 0);
                assert(underscored(candidate, 0) =~= candidate);
            }
        }
        Ok(mapped_k)
    }

    /// The MQL path of a MIR field path: the registry's name of its
    /// datasource followed by `.` and the fields joined by `.`.
    pub fn get_field_path_name(&self, fp: mir::FieldPath) -> (r: Result<String, Error>)
        ensures
            match lookup(self.mapping_registry@, fp.key@) {
                None => r == Err::<String, Error>(Error::ReferenceNotFound(fp.key)),
                Some(v) => r matches Ok(s) && s@ == v.name@ + seq!['.'] + join(
                    fp.fields@.map_values(|f: String| f@),
                    seq!['.'],
                ),
            },
    {
        let datasource_name = match self.mapping_registry.get(&fp.key) {
            Some(v) => v.name.clone(),
            None => {
                return Err(Error::ReferenceNotFound(fp.key));
            },
        };
        let mut r = datasource_name;
        push_char(&mut r, '.');
        proof {
            reveal_strlit(".");
            assert("."@ =~= seq!['.']);
        }
        push_joined(&mut r, &fp.fields, ".");
        Ok(r)
    }

    /// The generated, unique base name of the let variable of a key.
    fn let_variable_name(key: &mir::Key, bindings: &Vec<air::LetVariable>) -> (r: String)
        ensures
            is_first_free_suffix(r@, let_base_name(key@), let_names(bindings@)),
    {
        let mut generated = String::new();
        push_char(&mut generated, 'v');
        let ds = MqlTranslator::get_datasource_name(&key.datasource, "__bot");
        generated.append(ds.as_str());
        push_char(&mut generated, '_');
        push_decimal(&mut generated, key.scope as u64);
        proof {
            reveal_strlit("[[:ascii:]&&[:^word:]]");
            reveal_strlit("_");
            assert(generated@ =~= seq!['v'] + spec_datasource_name(key@.datasource, "__bot"@)
                + seq!['_'] + decimal(key.scope as nat));
        }
        let sanitized = regex_replace_all("[[:ascii:]&&[:^word:]]", generated.as_str(), "_");
        let mut name = to_ascii_lowercase(sanitized.as_str());
        let ghost base = name@;
        let mut bound: usize = 0;
        let mut i: usize = 0;
        while i < bindings.len()
            invariant
                i <= bindings@.len(),
                forall|j: int| 0 <= j < i ==> (#[trigger] bindings@[j]).name@.len() <= bound,
            decreases bindings@.len() - i,
        {
            let l = bindings[i].name.as_str().unicode_len();
            if l > bound {
                bound = l;
            }
            i = i + 1;
        }
        let ghost mut m: nat = 0;
        assert(name@ =~= suffixed(base, 0));
        while has_binding_named(bindings, &name)
            invariant
                forall|j: int| 0 <= j < bindings@.len() ==> (#[trigger] bindings@[j]).name@.len() <= bound,
                name@ == suffixed(base, m),
                forall|j: nat| j < m ==> let_names(bindings@).contains(#[trigger] suffixed(base, j)),
            decreases bound + 1 - name@.len(),
        {
            proof {
                let a = choose|a: int| 0 <= a < let_names(bindings@).len() && let_names(bindings@)[a] == name@;
                assert(let_names(bindings@)[a] == bindings@[a].name@);
            }
            let ghost before = name@;
            push_char(&mut name, '_');
            proof {
                assert(suffixed(base, m + 1) =~= suffixed(base, m).push('_'));
                assert forall|j: nat| j < m + 1 implies let_names(bindings@).contains(
                    #[trigger] suffixed(base, j),
                ) by {
                    if j == m {
                        assert(let_names(bindings@).contains(before));
                    }
                }
                m = m + 1;
            }
        }
        assert(name@ == suffixed(base, m));
        name
    }

    /// Generates a `$let` variable for every datasource of `registry`, in
    /// key order: the variable refers to where the datasource lives now, and
    /// afterwards this translator's registry maps the datasource to the
    /// variable.
    pub fn generate_let_bindings(&mut self, registry: MqlMappingRegistry) -> (r: Vec<
        air::LetVariable,
    >)
        ensures
            r@.len() == registry@.len(),
            forall|i: int| 0 <= i < r@.len() ==> #[trigger] let_binding_at(r@, registry@, i),
            forall|i: int, j: int| 0 <= i < j < r@.len() ==> r@[i].name@ != r@[j].name@,
            final(self).scope_level == old(self).scope_level,
            final(self).is_join == old(self).is_join,
            sorted_keys(final(self).mapping_registry@),
            as_map(final(self).mapping_registry@) == as_map(
                old(self).mapping_registry@,
            ).union_prefer_right(let_mapping(registry@, r@)),
    {
        let ghost entries_s = registry@;
        let mut remaining = registry.registry.into_entries();
        let mut let_bindings: Vec<air::LetVariable> = Vec::new();
        let mut new_registry: BindingTuple<MqlMappingRegistryValue> = BindingTuple::new();
        let ghost mut i: int = 0;
        proof {
            assert(remaining@ =~= entries_s.skip(0));
            assert(as_map(new_registry@) =~= let_mapping(entries_s.take(0), let_bindings@));
        }
        while remaining.len() > 0
            invariant
                sorted_keys(entries_s),
                0 <= i <= entries_s.len(),
                remaining@ == entries_s.skip(i),
                let_bindings@.len() == i,
                forall|j: int| 0 <= j < i ==> #[trigger] let_binding_at(let_bindings@, entries_s, j),
                as_map(new_registry@) == let_mapping(entries_s.take(i), let_bindings@),
            decreases remaining@.len(),
        {
            let (key, value) = remaining.remove(0);
            let ghost entry = entries_s[i];
            assert((key, value) == entry);
            let name = MqlTranslator::let_variable_name(&key, &let_bindings);
            let ghost value_v = value;
            let expr = match value.ref_type {
                MqlReferenceType::FieldRef => air::Expression::FieldRef(air::FieldRef { name: value.name }),
                MqlReferenceType::Variable => air::Expression::Variable(air::Variable { name: value.name }),
            };
            let ghost old_bindings = let_bindings@;
            let ghost old_map = as_map(new_registry@);
            let ghost key_v = key@;
            let_bindings.push(air::LetVariable { name: name.clone(), expr: Box::new(expr) });
            new_registry.insert(key, MqlMappingRegistryValue::new(name, MqlReferenceType::Variable));
            proof {
                assert(let_bindings@.take(i) =~= old_bindings);
                assert(let_binding_at(let_bindings@, entries_s, i));
                assert forall|j: int| 0 <= j < i + 1 implies #[trigger] let_binding_at(
                    let_bindings@,
                    entries_s,
                    j,
                ) by {
                    if j < i {
                        assert(let_bindings@.take(j) =~= old_bindings.take(j));
                        assert(let_binding_at(old_bindings, entries_s, j));
                    }
                }
                lemma_sorted_take(entries_s, i);
                lemma_sorted_take(entries_s, i + 1);
                let pre = entries_s.take(i);
                let post = entries_s.take(i + 1);
                assert(post =~= pre.push(entry));
                lemma_key_index_at(post, i);
                assert forall|k: KeyView| #[trigger] has_key(post, k) == (has_key(pre, k) || k == key_v) by {
                    if has_key(post, k) {
                        let j = key_index(post, k);
                        if j < i {
                            assert(pre[j].0@ == k);
                        }
                    }
                    if has_key(pre, k) {
                        let j = key_index(pre, k);
                        assert(post[j].0@ == k);
                    }
                }
                assert forall|k: KeyView| has_key(pre, k) && k != key_v implies key_index(post, k)
                    == key_index(pre, k) by {
                    let j = key_index(pre, k);
                    lemma_key_index_at(pre, j);
                    assert(post[j] == pre[j]);
                    lemma_key_index_at(post, j);
                }
                assert(as_map(new_registry@) =~= let_mapping(post, let_bindings@));
                assert(remaining@ =~= entries_s.skip(i + 1));
                i = i + 1;
            }
        }
        proof {
            assert(entries_s.take(i) =~= entries_s);
            lemma_let_names_distinct(let_bindings@, entries_s);
        }
        self.mapping_registry.merge(MqlMappingRegistry::with_registry(new_registry));
        let_bindings
    }

    /// Translates a MIR literal to the AIR literal of the same variant and
    /// value.
    pub fn translate_literal_value(&self, lit: mir::LiteralValue) -> (r: air::LiteralValue)
        ensures
            r == spec_translate_literal_value(lit),
    {
        match lit {
            mir::LiteralValue::Null => air::LiteralValue::Null,
            mir::LiteralValue::Boolean(b) => air::LiteralValue::Boolean(b),
            mir::LiteralValue::String(s) => air::LiteralValue::String(s),
            mir::LiteralValue::Integer(i) => air::LiteralValue::Integer(i),
            mir::LiteralValue::Long(l) => air::LiteralValue::Long(l),
            mir::LiteralValue::Double(d) => air::LiteralValue::Double(d),
            mir::LiteralValue::DbPointer(d) => air::LiteralValue::DbPointer(d),
            mir::LiteralValue::Undefined => air::LiteralValue::Undefined,
            mir::LiteralValue::DateTime(d) => air::LiteralValue::DateTime(d),
            mir::LiteralValue::Decimal128(d) => air::LiteralValue::Decimal128(d),
            mir::LiteralValue::MinKey => air::LiteralValue::MinKey,
            mir::LiteralValue::MaxKey => air::LiteralValue::MaxKey,
            mir::LiteralValue::Timestamp(t) => air::LiteralValue::Timestamp(t),
            mir::LiteralValue::RegularExpression(r) => air::LiteralValue::RegularExpression(r),
            mir::LiteralValue::ObjectId(o) => air::LiteralValue::ObjectId(o),
            mir::LiteralValue::JavaScriptCode(j) => air::LiteralValue::JavaScriptCode(j),
            mir::LiteralValue::JavaScriptCodeWithScope(j) => {
                air::LiteralValue::JavaScriptCodeWithScope(j)
            },
            mir::LiteralValue::Symbol(s) => air::LiteralValue::Symbol(s),
            mir::LiteralValue::Binary(b) => air::LiteralValue::Binary(b),
        }
    }
}

} // verus!
