//! Code generation from AIR to MQL: each expression becomes an MQL value
//! and each stage adds its aggregation stage to the pipeline of its source.

pub mod air;

use vstd::prelude::*;
use crate::codegen::air::{
    operator_ident, Collection, Documents, Expression, FieldRef, LiteralValue, MQLOperator, Project, ReplaceWith,
    Stage,
};
use crate::mql::{
    doc_insert, doc_insert_all, has_field, lemma_array_view, lemma_doc_insert_all_keeps_fields,
    Bson, BsonView, Document,
};
use crate::text::{ascii_lower, push_char};

verus! {

/// Errors of code generation.
#[derive(Debug, Clone, Copy, PartialEq, Eq, Structural)]
pub enum Error {
    /// The AIR construct has no code generation yet.
    UnimplementedAIR,
}

impl Error {
    /// The message that describes the error.
    pub fn message(&self) -> (r: String)
        ensures
            r@ == "air method is not implemented"@,
    {
        String::from_str("air method is not implemented")
    }
}

/// The MQL that a stage translates to: where it reads from (no collection
/// for `$documents`) and the aggregation pipeline.
#[derive(Debug, PartialEq)]
pub struct MqlTranslation {
    pub database: Option<String>,
    pub collection: Option<String>,
    pub pipeline: Vec<Document>,
}

/// The value of an MQL translation.
pub struct TranslationView {
    pub database: Option<Seq<char>>,
    pub collection: Option<Seq<char>>,
    pub pipeline: Seq<Seq<(Seq<char>, BsonView)>>,
}

pub open spec fn string_option_view(o: Option<String>) -> Option<Seq<char>> {
    match o {
        Some(s) => Some(s@),
        None => None,
    }
}

impl MqlTranslation {
    pub open spec fn view_of(self) -> TranslationView {
        TranslationView {
            database: string_option_view(self.database),
            collection: string_option_view(self.collection),
            pipeline: self.pipeline@.map_values(|d: Document| d.view_of()),
        }
    }
}

/// The generator of MQL from AIR.
#[derive(Debug, Clone, Copy)]
pub struct MqlCodeGenerator {}

/// The MQL name of an operator.
pub open spec fn mql_op_name(op: MQLOperator) -> Seq<char> {
    match op {
        MQLOperator::Concat => "$concat"@,
        MQLOperator::Add => "$add"@,
        MQLOperator::Subtract => "$subtract"@,
        MQLOperator::Multiply => "$multiply"@,
        MQLOperator::Divide => "$divide"@,
        MQLOperator::Lt => "$lt"@,
        MQLOperator::Lte => "$lte"@,
        MQLOperator::Ne => "$ne"@,
        MQLOperator::Eq => "$eq"@,
        MQLOperator::Gt => "$gt"@,
        MQLOperator::Gte => "$gte"@,
        MQLOperator::Not => "$not"@,
        MQLOperator::And => "$and"@,
        MQLOperator::Or => "$or"@,
        MQLOperator::Slice => "$slice"@,
        MQLOperator::Size => "$size"@,
        MQLOperator::IndexOfCP => "$indexOfCP"@,
        MQLOperator::IndexOfBytes => "$indexOfBytes"@,
        MQLOperator::StrLenCP => "$strLenCP"@,
        MQLOperator::StrLenBytes => "$strLenBytes"@,
        MQLOperator::Abs => "$abs"@,
        MQLOperator::Ceil => "$ceil"@,
        MQLOperator::Cos => "$cos"@,
        MQLOperator::DegreesToRadians => "$degreesToRadians"@,
        MQLOperator::Floor => "$floor"@,
        MQLOperator::Log => "$log"@,
        MQLOperator::Mod => "$mod"@,
        MQLOperator::Pow => "$pow"@,
        MQLOperator::RadiansToDegrees => "$radiansToDegrees"@,
        MQLOperator::Round => "$round"@,
        MQLOperator::Sin => "$sin"@,
        MQLOperator::Tan => "$tan"@,
        MQLOperator::Sqrt => "$sqrt"@,
        MQLOperator::SubstrCP => "$substrCP"@,
        MQLOperator::SubstrBytes => "$substrBytes"@,
        MQLOperator::ToUpper => "$toUpper"@,
        MQLOperator::ToLower => "$toLower"@,
        MQLOperator::Trim => "$trim"@,
        MQLOperator::LTrim => "$ltrim"@,
        MQLOperator::RTrim => "$rtrim"@,
        MQLOperator::Split => "$split"@,
        MQLOperator::Year => "$year"@,
        MQLOperator::Month => "$month"@,
        MQLOperator::DayOfMonth => "$dayOfMonth"@,
        MQLOperator::Hour => "$hour"@,
        MQLOperator::Minute => "$minute"@,
        MQLOperator::Second => "$second"@,
        MQLOperator::Week => "$week"@,
        MQLOperator::DayOfYear => "$dayOfYear"@,
        MQLOperator::IsoWeek => "$isoWeek"@,
        MQLOperator::IsoDayOfWeek => "$isoDayOfWeek"@,
        MQLOperator::DateAdd => "$dateAdd"@,
        MQLOperator::DateDiff => "$dateDiff"@,
        MQLOperator::DateTrunc => "$dateTrunc"@,
        MQLOperator::MergeObjects => "$mergeObjects"@,
    }
}

/// `s` with its first character in ASCII lower case.
pub open spec fn lower_first(s: Seq<char>) -> Seq<char> {
    seq![ascii_lower(s[0])] + s.drop_first()
}

/// Each operator is emitted under its own MQL name: `$` followed by its
/// identifier with the first letter in lower case (`DayOfYear` gives
/// `$dayOfYear`); `LTrim` and `RTrim` are all lower case (`$ltrim`,
/// `$rtrim`).
pub proof fn lemma_mql_op_name_is_the_operator_identifier(op: MQLOperator)
    ensures
        op != MQLOperator::LTrim && op != MQLOperator::RTrim ==> mql_op_name(op) == "$"@ + lower_first(
            operator_ident(op),
        ),
        op == MQLOperator::LTrim || op == MQLOperator::RTrim ==> mql_op_name(op) == "$"@
            + operator_ident(op).map_values(|c: char| ascii_lower(c)),
{
    reveal_strlit("$");
    match op {
        MQLOperator::Concat => {
            reveal_strlit("$concat");
            reveal_strlit("Concat");
            assert(mql_op_name(op) =~= "$"@ + lower_first(operator_ident(op)));
        },
        MQLOperator::Add => {
            reveal_strlit("$add");
            reveal_strlit("Add");
            assert(mql_op_name(op) =~= "$"@ + lower_first(operator_ident(op)));
        },
        MQLOperator::Subtract => {
            reveal_strlit("$subtract");
            reveal_strlit("Subtract");
            assert(mql_op_name(op) =~= "$"@ + lower_first(operator_ident(op)));
        },
        MQLOperator::Multiply => {
            reveal_strlit("$multiply");
            reveal_strlit("Multiply");
            assert(mql_op_name(op) =~= "$"@ + lower_first(operator_ident(op)));
        },
        MQLOperator::Divide => {
            reveal_strlit("$divide");
            reveal_strlit("Divide");
            assert(mql_op_name(op) =~= "$"@ + lower_first(operator_ident(op)));
        },
        MQLOperator::Lt => {
            reveal_strlit("$lt");
            reveal_strlit("Lt");
            assert(mql_op_name(op) =~= "$"@ + lower_first(operator_ident(op)));
        },
        MQLOperator::Lte => {
            reveal_strlit("$lte");
            reveal_strlit("Lte");
            assert(mql_op_name(op) =~= "$"@ + lower_first(operator_ident(op)));
        },
        MQLOperator::Ne => {
            reveal_strlit("$ne");
            reveal_strlit("Ne");
            assert(mql_op_name(op) =~= "$"@ + lower_first(operator_ident(op)));
        },
        MQLOperator::Eq => {
            reveal_strlit("$eq");
            reveal_strlit("Eq");
            assert(mql_op_name(op) =~= "$"@ + lower_first(operator_ident(op)));
        },
        MQLOperator::Gt => {
            reveal_strlit("$gt");
            reveal_strlit("Gt");
            assert(mql_op_name(op) =~= "$"@ + lower_first(operator_ident(op)));
        },
        MQLOperator::Gte => {
            reveal_strlit("$gte");
            reveal_strlit("Gte");
            assert(mql_op_name(op) =~= "$"@ + lower_first(operator_ident(op)));
        },
        MQLOperator::Not => {
            reveal_strlit("$not");
            reveal_strlit("Not");
            assert(mql_op_name(op) =~= "$"@ + lower_first(operator_ident(op)));
        },
        MQLOperator::And => {
            reveal_strlit("$and");
            reveal_strlit("And");
            assert(mql_op_name(op) =~= "$"@ + lower_first(operator_ident(op)));
        },
        MQLOperator::Or => {
            reveal_strlit("$or");
            reveal_strlit("Or");
            assert(mql_op_name(op) =~= "$"@ + lower_first(operator_ident(op)));
        },
        MQLOperator::Slice => {
            reveal_strlit("$slice");
            reveal_strlit("Slice");
            assert(mql_op_name(op) =~= "$"@ + lower_first(operator_ident(op)));
        },
        MQLOperator::Size => {
            reveal_strlit("$size");
            reveal_strlit("Size");
            assert(mql_op_name(op) =~= "$"@ + lower_first(operator_ident(op)));
        },
        MQLOperator::IndexOfCP => {
            reveal_strlit("$indexOfCP");
            reveal_strlit("IndexOfCP");
            assert(mql_op_name(op) =~= "$"@ + lower_first(operator_ident(op)));
        },
        MQLOperator::IndexOfBytes => {
            reveal_strlit("$indexOfBytes");
            reveal_strlit("IndexOfBytes");
            assert(mql_op_name(op) =~= "$"@ + lower_first(operator_ident(op)));
        },
        MQLOperator::StrLenCP => {
            reveal_strlit("$strLenCP");
            reveal_strlit("StrLenCP");
            assert(mql_op_name(op) =~= "$"@ + lower_first(operator_ident(op)));
        },
        MQLOperator::StrLenBytes => {
            reveal_strlit("$strLenBytes");
            reveal_strlit("StrLenBytes");
            assert(mql_op_name(op) =~= "$"@ + lower_first(operator_ident(op)));
        },
        MQLOperator::Abs => {
            reveal_strlit("$abs");
            reveal_strlit("Abs");
            assert(mql_op_name(op) =~= "$"@ + lower_first(operator_ident(op)));
        },
        MQLOperator::Ceil => {
            reveal_strlit("$ceil");
            reveal_strlit("Ceil");
            assert(mql_op_name(op) =~= "$"@ + lower_first(operator_ident(op)));
        },
        MQLOperator::Cos => {
            reveal_strlit("$cos");
            reveal_strlit("Cos");
            assert(mql_op_name(op) =~= "$"@ + lower_first(operator_ident(op)));
        },
        MQLOperator::DegreesToRadians => {
            reveal_strlit("$degreesToRadians");
            reveal_strlit("DegreesToRadians");
            assert(mql_op_name(op) =~= "$"@ + lower_first(operator_ident(op)));
        },
        MQLOperator::Floor => {
            reveal_strlit("$floor");
            reveal_strlit("Floor");
            assert(mql_op_name(op) =~= "$"@ + lower_first(operator_ident(op)));
        },
        MQLOperator::Log => {
            reveal_strlit("$log");
            reveal_strlit("Log");
            assert(mql_op_name(op) =~= "$"@ + lower_first(operator_ident(op)));
        },
        MQLOperator::Mod => {
            reveal_strlit("$mod");
            reveal_strlit("Mod");
            assert(mql_op_name(op) =~= "$"@ + lower_first(operator_ident(op)));
        },
        MQLOperator::Pow => {
            reveal_strlit("$pow");
            reveal_strlit("Pow");
            assert(mql_op_name(op) =~= "$"@ + lower_first(operator_ident(op)));
        },
        MQLOperator::RadiansToDegrees => {
            reveal_strlit("$radiansToDegrees");
            reveal_strlit("RadiansToDegrees");
            assert(mql_op_name(op) =~= "$"@ + lower_first(operator_ident(op)));
        },
        MQLOperator::Round => {
            reveal_strlit("$round");
            reveal_strlit("Round");
            assert(mql_op_name(op) =~= "$"@ + lower_first(operator_ident(op)));
        },
        MQLOperator::Sin => {
            reveal_strlit("$sin");
            reveal_strlit("Sin");
            assert(mql_op_name(op) =~= "$"@ + lower_first(operator_ident(op)));
        },
        MQLOperator::Tan => {
            reveal_strlit("$tan");
            reveal_strlit("Tan");
            assert(mql_op_name(op) =~= "$"@ + lower_first(operator_ident(op)));
        },
        MQLOperator::Sqrt => {
            reveal_strlit("$sqrt");
            reveal_strlit("Sqrt");
            assert(mql_op_name(op) =~= "$"@ + lower_first(operator_ident(op)));
        },
        MQLOperator::SubstrCP => {
            reveal_strlit("$substrCP");
            reveal_strlit("SubstrCP");
            assert(mql_op_name(op) =~= "$"@ + lower_first(operator_ident(op)));
        },
        MQLOperator::SubstrBytes => {
            reveal_strlit("$substrBytes");
            reveal_strlit("SubstrBytes");
            assert(mql_op_name(op) =~= "$"@ + lower_first(operator_ident(op)));
        },
        MQLOperator::ToUpper => {
            reveal_strlit("$toUpper");
            reveal_strlit("ToUpper");
            assert(mql_op_name(op) =~= "$"@ + lower_first(operator_ident(op)));
        },
        MQLOperator::ToLower => {
            reveal_strlit("$toLower");
            reveal_strlit("ToLower");
            assert(mql_op_name(op) =~= "$"@ + lower_first(operator_ident(op)));
        },
        MQLOperator::Trim => {
            reveal_strlit("$trim");
            reveal_strlit("Trim");
            assert(mql_op_name(op) =~= "$"@ + lower_first(operator_ident(op)));
        },
        MQLOperator::LTrim => {
            reveal_strlit("$ltrim");
            reveal_strlit("LTrim");
            assert(mql_op_name(op) =~= "$"@ + operator_ident(op).map_values(|c: char| ascii_lower(c)));
        },
        MQLOperator::RTrim => {
            reveal_strlit("$rtrim");
            reveal_strlit("RTrim");
            assert(mql_op_name(op) =~= "$"@ + operator_ident(op).map_values(|c: char| ascii_lower(c)));
        },
        MQLOperator::Split => {
            reveal_strlit("$split");
            reveal_strlit("Split");
            assert(mql_op_name(op) =~= "$"@ + lower_first(operator_ident(op)));
        },
        MQLOperator::Year => {
            reveal_strlit("$year");
            reveal_strlit("Year");
            assert(mql_op_name(op) =~= "$"@ + lower_first(operator_ident(op)));
        },
        MQLOperator::Month => {
            reveal_strlit("$month");
            reveal_strlit("Month");
            assert(mql_op_name(op) =~= "$"@ + lower_first(operator_ident(op)));
        },
        MQLOperator::DayOfMonth => {
            reveal_strlit("$dayOfMonth");
            reveal_strlit("DayOfMonth");
            assert(mql_op_name(op) =~= "$"@ + lower_first(operator_ident(op)));
        },
        MQLOperator::Hour => {
            reveal_strlit("$hour");
            reveal_strlit("Hour");
            assert(mql_op_name(op) =~= "$"@ + lower_first(operator_ident(op)));
        },
        MQLOperator::Minute => {
            reveal_strlit("$minute");
            reveal_strlit("Minute");
            assert(mql_op_name(op) =~= "$"@ + lower_first(operator_ident(op)));
        },
        MQLOperator::Second => {
            reveal_strlit("$second");
            reveal_strlit("Second");
            assert(mql_op_name(op) =~= "$"@ + lower_first(operator_ident(op)));
        },
        MQLOperator::Week => {
            reveal_strlit("$week");
            reveal_strlit("Week");
            assert(mql_op_name(op) =~= "$"@ + lower_first(operator_ident(op)));
        },
        MQLOperator::DayOfYear => {
            reveal_strlit("$dayOfYear");
            reveal_strlit("DayOfYear");
            assert(mql_op_name(op) =~= "$"@ + lower_first(operator_ident(op)));
        },
        MQLOperator::IsoWeek => {
            reveal_strlit("$isoWeek");
            reveal_strlit("IsoWeek");
            assert(mql_op_name(op) =~= "$"@ + lower_first(operator_ident(op)));
        },
        MQLOperator::IsoDayOfWeek => {
            reveal_strlit("$isoDayOfWeek");
            reveal_strlit("IsoDayOfWeek");
            assert(mql_op_name(op) =~= "$"@ + lower_first(operator_ident(op)));
        },
        MQLOperator::DateAdd => {
            reveal_strlit("$dateAdd");
            reveal_strlit("DateAdd");
            assert(mql_op_name(op) =~= "$"@ + lower_first(operator_ident(op)));
        },
        MQLOperator::DateDiff => {
            reveal_strlit("$dateDiff");
            reveal_strlit("DateDiff");
            assert(mql_op_name(op) =~= "$"@ + lower_first(operator_ident(op)));
        },
        MQLOperator::DateTrunc => {
            reveal_strlit("$dateTrunc");
            reveal_strlit("DateTrunc");
            assert(mql_op_name(op) =~= "$"@ + lower_first(operator_ident(op)));
        },
        MQLOperator::MergeObjects => {
            reveal_strlit("$mergeObjects");
            reveal_strlit("MergeObjects");
            assert(mql_op_name(op) =~= "$"@ + lower_first(operator_ident(op)));
        },
    }
}

/// The operator whose name is `s`, told apart by its length and its
/// second, third and fifth characters.
spec fn op_of_name(s: Seq<char>) -> MQLOperator {
    if s.len() == 7 && s[1] == 'c' && s[2] == 'o' && s[4] == 'c' {
        MQLOperator::Concat
    } else if s.len() == 4 && s[1] == 'a' && s[2] == 'd' {
        MQLOperator::Add
    } else if s.len() == 9 && s[1] == 's' && s[2] == 'u' && s[4] == 't' {
        MQLOperator::Subtract
    } else if s.len() == 9 && s[1] == 'm' && s[2] == 'u' && s[4] == 't' {
        MQLOperator::Multiply
    } else if s.len() == 7 && s[1] == 'd' && s[2] == 'i' && s[4] == 'i' {
        MQLOperator::Divide
    } else if s.len() == 3 && s[1] == 'l' && s[2] == 't' {
        MQLOperator::Lt
    } else if s.len() == 4 && s[1] == 'l' && s[2] == 't' {
        MQLOperator::Lte
    } else if s.len() == 3 && s[1] == 'n' && s[2] == 'e' {
        MQLOperator::Ne
    } else if s.len() == 3 && s[1] == 'e' && s[2] == 'q' {
        MQLOperator::Eq
    } else if s.len() == 3 && s[1] == 'g' && s[2] == 't' {
        MQLOperator::Gt
    } else if s.len() == 4 && s[1] == 'g' && s[2] == 't' {
        MQLOperator::Gte
    } else if s.len() == 4 && s[1] == 'n' && s[2] == 'o' {
        MQLOperator::Not
    } else if s.len() == 4 && s[1] == 'a' && s[2] == 'n' {
        MQLOperator::And
    } else if s.len() == 3 && s[1] == 'o' && s[2] == 'r' {
        MQLOperator::Or
    } else if s.len() == 6 && s[1] == 's' && s[2] == 'l' && s[4] == 'c' {
        MQLOperator::Slice
    } else if s.len() == 5 && s[1] == 's' && s[2] == 'i' && s[4] == 'e' {
        MQLOperator::Size
    } else if s.len() == 10 && s[1] == 'i' && s[2] == 'n' && s[4] == 'e' {
        MQLOperator::IndexOfCP
    } else if s.len() == 13 && s[1] == 'i' && s[2] == 'n' && s[4] == 'e' {
        MQLOperator::IndexOfBytes
    } else if s.len() == 9 && s[1] == 's' && s[2] == 't' && s[4] == 'L' {
        MQLOperator::StrLenCP
    } else if s.len() == 12 && s[1] == 's' && s[2] == 't' && s[4] == 'L' {
        MQLOperator::StrLenBytes
    } else if s.len() == 4 && s[1] == 'a' && s[2] == 'b' {
        MQLOperator::Abs
    } else if s.len() == 5 && s[1] == 'c' && s[2] == 'e' && s[4] == 'l' {
        MQLOperator::Ceil
    } else if s.len() == 4 && s[1] == 'c' && s[2] == 'o' {
        MQLOperator::Cos
    } else if s.len() == 17 && s[1] == 'd' && s[2] == 'e' && s[4] == 'r' {
        MQLOperator::DegreesToRadians
    } else if s.len() == 6 && s[1] == 'f' && s[2] == 'l' && s[4] == 'o' {
        MQLOperator::Floor
    } else if s.len() == 4 && s[1] == 'l' && s[2] == 'o' {
        MQLOperator::Log
    } else if s.len() == 4 && s[1] == 'm' && s[2] == 'o' {
        MQLOperator::Mod
    } else if s.len() == 4 && s[1] == 'p' && s[2] == 'o' {
        MQLOperator::Pow
    } else if s.len() == 17 && s[1] == 'r' && s[2] == 'a' && s[4] == 'i' {
        MQLOperator::RadiansToDegrees
    } else if s.len() == 6 && s[1] == 'r' && s[2] == 'o' && s[4] == 'n' {
        MQLOperator::Round
    } else if s.len() == 4 && s[1] == 's' && s[2] == 'i' {
        MQLOperator::Sin
    } else if s.len() == 4 && s[1] == 't' && s[2] == 'a' {
        MQLOperator::Tan
    } else if s.len() == 5 && s[1] == 's' && s[2] == 'q' && s[4] == 't' {
        MQLOperator::Sqrt
    } else if s.len() == 9 && s[1] == 's' && s[2] == 'u' && s[4] == 's' {
        MQLOperator::SubstrCP
    } else if s.len() == 12 && s[1] == 's' && s[2] == 'u' && s[4] == 's' {
        MQLOperator::SubstrBytes
    } else if s.len() == 8 && s[1] == 't' && s[2] == 'o' && s[4] == 'p' {
        MQLOperator::ToUpper
    } else if s.len() == 8 && s[1] == 't' && s[2] == 'o' && s[4] == 'o' {
        MQLOperator::ToLower
    } else if s.len() == 5 && s[1] == 't' && s[2] == 'r' && s[4] == 'm' {
        MQLOperator::Trim
    } else if s.len() == 6 && s[1] == 'l' && s[2] == 't' && s[4] == 'i' {
        MQLOperator::LTrim
    } else if s.len() == 6 && s[1] == 'r' && s[2] == 't' && s[4] == 'i' {
        MQLOperator::RTrim
    } else if s.len() == 6 && s[1] == 's' && s[2] == 'p' && s[4] == 'i' {
        MQLOperator::Split
    } else if s.len() == 5 && s[1] == 'y' && s[2] == 'e' && s[4] == 'r' {
        MQLOperator::Year
    } else if s.len() == 6 && s[1] == 'm' && s[2] == 'o' && s[4] == 't' {
        MQLOperator::Month
    } else if s.len() == 11 && s[1] == 'd' && s[2] == 'a' && s[4] == 'O' {
        MQLOperator::DayOfMonth
    } else if s.len() == 5 && s[1] == 'h' && s[2] == 'o' && s[4] == 'r' {
        MQLOperator::Hour
    } else if s.len() == 7 && s[1] == 'm' && s[2] == 'i' && s[4] == 'u' {
        MQLOperator::Minute
    } else if s.len() == 7 && s[1] == 's' && s[2] == 'e' && s[4] == 'o' {
        MQLOperator::Second
    } else if s.len() == 5 && s[1] == 'w' && s[2] == 'e' && s[4] == 'k' {
        MQLOperator::Week
    } else if s.len() == 10 && s[1] == 'd' && s[2] == 'a' && s[4] == 'O' {
        MQLOperator::DayOfYear
    } else if s.len() == 8 && s[1] == 'i' && s[2] == 's' && s[4] == 'W' {
        MQLOperator::IsoWeek
    } else if s.len() == 13 && s[1] == 'i' && s[2] == 's' && s[4] == 'D' {
        MQLOperator::IsoDayOfWeek
    } else if s.len() == 8 && s[1] == 'd' && s[2] == 'a' && s[4] == 'e' {
        MQLOperator::DateAdd
    } else if s.len() == 9 && s[1] == 'd' && s[2] == 'a' && s[4] == 'e' {
        MQLOperator::DateDiff
    } else if s.len() == 10 && s[1] == 'd' && s[2] == 'a' && s[4] == 'e' {
        MQLOperator::DateTrunc
    } else {
        MQLOperator::MergeObjects
    }
}

/// The name of an operator starts with `$` and gives the operator back.
proof fn lemma_op_of_name(a: MQLOperator)
    ensures
        mql_op_name(a).len() > 1,
        mql_op_name(a)[0] == '$',
        op_of_name(mql_op_name(a)) == a,
{
    reveal_strlit("$concat");
    reveal_strlit("$add");
    reveal_strlit("$subtract");
    reveal_strlit("$multiply");
    reveal_strlit("$divide");
    reveal_strlit("$lt");
    reveal_strlit("$lte");
    reveal_strlit("$ne");
    reveal_strlit("$eq");
    reveal_strlit("$gt");
    reveal_strlit("$gte");
    reveal_strlit("$not");
    reveal_strlit("$and");
    reveal_strlit("$or");
    reveal_strlit("$slice");
    reveal_strlit("$size");
    reveal_strlit("$indexOfCP");
    reveal_strlit("$indexOfBytes");
    reveal_strlit("$strLenCP");
    reveal_strlit("$strLenBytes");
    reveal_strlit("$abs");
    reveal_strlit("$ceil");
    reveal_strlit("$cos");
    reveal_strlit("$degreesToRadians");
    reveal_strlit("$floor");
    reveal_strlit("$log");
    reveal_strlit("$mod");
    reveal_strlit("$pow");
    reveal_strlit("$radiansToDegrees");
    reveal_strlit("$round");
    reveal_strlit("$sin");
    reveal_strlit("$tan");
    reveal_strlit("$sqrt");
    reveal_strlit("$substrCP");
    reveal_strlit("$substrBytes");
    reveal_strlit("$toUpper");
    reveal_strlit("$toLower");
    reveal_strlit("$trim");
    reveal_strlit("$ltrim");
    reveal_strlit("$rtrim");
    reveal_strlit("$split");
    reveal_strlit("$year");
    reveal_strlit("$month");
    reveal_strlit("$dayOfMonth");
    reveal_strlit("$hour");
    reveal_strlit("$minute");
    reveal_strlit("$second");
    reveal_strlit("$week");
    reveal_strlit("$dayOfYear");
    reveal_strlit("$isoWeek");
    reveal_strlit("$isoDayOfWeek");
    reveal_strlit("$dateAdd");
    reveal_strlit("$dateDiff");
    reveal_strlit("$dateTrunc");
    reveal_strlit("$mergeObjects");
}

/// Every operator name starts with `$`, and different operators have
/// different names.
pub proof fn lemma_mql_op_names(a: MQLOperator, b: MQLOperator)
    ensures
        mql_op_name(a).len() > 1,
        mql_op_name(a)[0] == '$',
        a != b ==> mql_op_name(a) != mql_op_name(b),
{
    lemma_op_of_name(a);
    lemma_op_of_name(b);
}

/// The MQL path of a field reference: `$name`, or the parent's path
/// followed by `.name`.
pub open spec fn field_ref_path(fr: FieldRef) -> Seq<char>
    decreases fr,
{
    match fr.parent {
        None => "$"@ + fr.name@,
        Some(parent) => field_ref_path(*parent) + "."@ + fr.name@,
    }
}

/// The MQL value of a literal.
pub open spec fn literal_view(lit: LiteralValue) -> BsonView {
    match lit {
        LiteralValue::Null => BsonView::Null,
        LiteralValue::Boolean(b) => BsonView::Boolean(b),
        LiteralValue::String(s) => BsonView::String(s@),
        LiteralValue::Integer(i) => BsonView::Int32(i),
        LiteralValue::Long(l) => BsonView::Int64(l),
        LiteralValue::Double(d) => BsonView::Double(d),
    }
}

/// The MQL value of an expression, or the error that code generation
/// reports for it.
pub open spec fn spec_codegen_expr(e: Expression) -> Result<BsonView, Error>
    decreases e,
{
    match e {
        Expression::Literal(lit) => Ok(BsonView::Document(seq![("$literal"@, literal_view(lit))])),
        Expression::Document(fields) => if fields@.len() == 0 {
            Ok(BsonView::Document(seq![("$literal"@, BsonView::Document(Seq::empty()))]))
        } else {
            match spec_codegen_fields(fields@) {
                Ok(pairs) => Ok(BsonView::Document(doc_insert_all(Seq::empty(), pairs))),
                Err(err) => Err(err),
            }
        },
        Expression::Array(array) => match spec_codegen_exprs(array@) {
            Ok(vs) => Ok(BsonView::Array(vs)),
            Err(err) => Err(err),
        },
        Expression::Variable(var) => Ok(BsonView::String("$$"@ + var@)),
        Expression::FieldRef(fr) => Ok(BsonView::String(field_ref_path(fr))),
        Expression::MQLSemanticOperator(mqls) => match spec_codegen_exprs(mqls.args@) {
            Ok(vs) => Ok(BsonView::Document(seq![(mql_op_name(mqls.op), BsonView::Array(vs))])),
            Err(err) => Err(err),
        },
        Expression::GetField(gf) => match spec_codegen_expr(*gf.input) {
            Ok(input) => Ok(
                BsonView::Document(
                    seq![
                        (
                            "$getField"@,
                            BsonView::Document(
                                seq![("field"@, BsonView::String(gf.field@)), ("input"@, input)],
                            ),
                        ),
                    ],
                ),
            ),
            Err(err) => Err(err),
        },
        Expression::RootReference => Err(Error::UnimplementedAIR),
    }
}

/// The MQL values of expressions in order, or the first error.
pub open spec fn spec_codegen_exprs(es: Seq<Expression>) -> Result<Seq<BsonView>, Error>
    decreases es,
{
    if es.len() == 0 {
        Ok(Seq::empty())
    } else {
        match spec_codegen_exprs(es.drop_last()) {
            Ok(vs) => match spec_codegen_expr(es.last()) {
                Ok(v) => Ok(vs.push(v)),
                Err(err) => Err(err),
            },
            Err(err) => Err(err),
        }
    }
}

/// The named MQL values of named expressions in order, or the first error.
pub open spec fn spec_codegen_fields(fs: Seq<(String, Expression)>) -> Result<Seq<(Seq<char>, BsonView)>, Error>
    decreases fs,
{
    if fs.len() == 0 {
        Ok(Seq::empty())
    } else {
        match spec_codegen_fields(fs.drop_last()) {
            Ok(ps) => match spec_codegen_expr(fs.last().1) {
                Ok(v) => Ok(ps.push((fs.last().0@, v))),
                Err(err) => Err(err),
            },
            Err(err) => Err(err),
        }
    }
}

/// The document of a `$project`: with `_id: 0` in front unless the
/// specifications set `_id`.
pub open spec fn project_document(d: Seq<(Seq<char>, BsonView)>) -> Seq<(Seq<char>, BsonView)> {
    if has_field(d, "_id"@) {
        d
    } else {
        doc_insert_all(seq![("_id"@, BsonView::Int32(0))], d)
    }
}

/// `t` with one more pipeline stage.
pub open spec fn with_stage(t: TranslationView, stage: Seq<(Seq<char>, BsonView)>) -> TranslationView {
    TranslationView { database: t.database, collection: t.collection, pipeline: t.pipeline.push(stage) }
}

/// The MQL translation of a stage, or the error that code generation
/// reports for it.
pub open spec fn spec_codegen_stage(s: Stage) -> Result<TranslationView, Error>
    decreases s,
{
    match s {
        Stage::Project(p) => match spec_codegen_stage(*p.source) {
            Ok(t) => match spec_codegen_fields(p.specifications@) {
                Ok(ps) => Ok(
                    with_stage(
                        t,
                        seq![
                            (
                                "$project"@,
                                BsonView::Document(project_document(doc_insert_all(Seq::empty(), ps))),
                            ),
                        ],
                    ),
                ),
                Err(err) => Err(err),
            },
            Err(err) => Err(err),
        },
        Stage::Collection(c) => Ok(
            TranslationView {
                database: Some(c.db@),
                collection: Some(c.collection@),
                pipeline: Seq::empty(),
            },
        ),
        Stage::ReplaceWith(r) => match spec_codegen_stage(*r.source) {
            Ok(t) => match spec_codegen_expr(*r.new_root) {
                Ok(v) => Ok(with_stage(t, seq![("$replaceWith"@, v)])),
                Err(err) => Err(err),
            },
            Err(err) => Err(err),
        },
        Stage::Documents(d) => match spec_codegen_exprs(d.array@) {
            Ok(vs) => Ok(
                TranslationView {
                    database: None,
                    collection: None,
                    pipeline: seq![seq![("$documents"@, BsonView::Array(vs))]],
                },
            ),
            Err(err) => Err(err),
        },
        _ => Err(Error::UnimplementedAIR),
    }
}

/// Every field path that code generation writes starts with `$`.
pub proof fn lemma_field_ref_path_starts_with_dollar(fr: FieldRef)
    ensures
        field_ref_path(fr).len() > 0,
        field_ref_path(fr)[0] == '$',
    decreases fr,
{
    reveal_strlit("$");
    match fr.parent {
        None => {},
        Some(parent) => {
            lemma_field_ref_path_starts_with_dollar(*parent);
        },
    }
}

/// A `$project` document always sets `_id`; when the specifications do not,
/// `_id: 0` is its first field.
pub proof fn lemma_project_document_sets_id(d: Seq<(Seq<char>, BsonView)>)
    ensures
        has_field(project_document(d), "_id"@),
        !has_field(d, "_id"@) ==> project_document(d)[0] == ("_id"@, BsonView::Int32(0)),
{
    if !has_field(d, "_id"@) {
        let base = seq![("_id"@, BsonView::Int32(0))];
        lemma_doc_insert_all_keeps_fields(base, d, 0);
        assert(project_document(d)[0] == base[0]);
    }
}

/// A stage with a source adds exactly one stage to its source's pipeline,
/// at the end: the source's pipeline is a prefix of the result, the last
/// stage is the one-field `$project` or `$replaceWith` document, and the
/// database and collection are the source's. A collection starts with an
/// empty pipeline and `$documents` is a pipeline of its own.
pub proof fn lemma_stage_appends_to_source_pipeline(s: Stage)
    ensures
        spec_codegen_stage(s) matches Ok(t) ==> match s {
            Stage::Project(p) => {
                &&& spec_codegen_stage(*p.source) matches Ok(ts)
                &&& t.database == ts.database
                &&& t.collection == ts.collection
                &&& t.pipeline.len() == ts.pipeline.len() + 1
                &&& t.pipeline.take(ts.pipeline.len() as int) == ts.pipeline
                &&& t.pipeline.last().len() == 1
                &&& t.pipeline.last()[0].0 == "$project"@
                &&& t.pipeline.last()[0].1 matches BsonView::Document(d)
                &&& has_field(d, "_id"@)
            },
            Stage::ReplaceWith(r) => {
                &&& spec_codegen_stage(*r.source) matches Ok(ts)
                &&& t.database == ts.database
                &&& t.collection == ts.collection
                &&& t.pipeline.len() == ts.pipeline.len() + 1
                &&& t.pipeline.take(ts.pipeline.len() as int) == ts.pipeline
                &&& t.pipeline.last().len() == 1
                &&& t.pipeline.last()[0].0 == "$replaceWith"@
                &&& spec_codegen_expr(*r.new_root) == Ok::<BsonView, Error>(t.pipeline.last()[0].1)
            },
            Stage::Collection(c) => {
                &&& t.database == Some(c.db@)
                &&& t.collection == Some(c.collection@)
                &&& t.pipeline.len() == 0
            },
            Stage::Documents(_) => {
                &&& t.database is None
                &&& t.collection is None
                &&& t.pipeline.len() == 1
                &&& t.pipeline[0].len() == 1
                &&& t.pipeline[0][0].0 == "$documents"@
            },
            _ => false,
        },
{
    if let Ok(t) = spec_codegen_stage(s) {
        match s {
            Stage::Project(p) => {
                let ts = spec_codegen_stage(*p.source)->Ok_0;
                assert(t.pipeline.take(ts.pipeline.len() as int) =~= ts.pipeline);
                let ps = spec_codegen_fields(p.specifications@)->Ok_0;
                lemma_project_document_sets_id(doc_insert_all(Seq::empty(), ps));
            },
            Stage::ReplaceWith(r) => {
                let ts = spec_codegen_stage(*r.source)->Ok_0;
                assert(t.pipeline.take(ts.pipeline.len() as int) =~= ts.pipeline);
            },
            _ => {},
        }
    }
}

/// `r` is what the spec says, value for value.
pub open spec fn translation_result_is(r: Result<MqlTranslation, Error>, s: Result<TranslationView, Error>) -> bool {
    match (r, s) {
        (Ok(t), Ok(v)) => t.view_of() == v,
        (Err(e1), Err(e2)) => e1 == e2,
        _ => false,
    }
}

/// `r` is what the spec says, value for value.
pub open spec fn bson_result_is(r: Result<Bson, Error>, s: Result<BsonView, Error>) -> bool {
    match (r, s) {
        (Ok(b), Ok(v)) => b.view_of() == v,
        (Err(e1), Err(e2)) => e1 == e2,
        _ => false,
    }
}

/// A one-field MQL document.
fn single_field(key: &str, value: Bson) -> (r: Document)
    ensures
        r.view_of() == seq![(key@, value.view_of())],
{
    let mut d = Document::new();
    d.insert(String::from_str(key), value);
    assert(doc_insert(Seq::empty(), key@, value.view_of()) =~= seq![(key@, value.view_of())]);
    d
}

proof fn lemma_exprs_error_persists(es: Seq<Expression>, i: int)
    requires
        0 <= i <= es.len(),
        spec_codegen_exprs(es.take(i)) is Err,
    ensures
        spec_codegen_exprs(es) == spec_codegen_exprs(es.take(i)),
    decreases es.len() - i,
{
    if i < es.len() {
        assert(es.take(i + 1).drop_last() =~= es.take(i));
        lemma_exprs_error_persists(es, i + 1);
    } else {
        assert(es.take(i) =~= es);
    }
}

proof fn lemma_fields_error_persists(fs: Seq<(String, Expression)>, i: int)
    requires
        0 <= i <= fs.len(),
        spec_codegen_fields(fs.take(i)) is Err,
    ensures
        spec_codegen_fields(fs) == spec_codegen_fields(fs.take(i)),
    decreases fs.len() - i,
{
    if i < fs.len() {
        assert(fs.take(i + 1).drop_last() =~= fs.take(i));
        lemma_fields_error_persists(fs, i + 1);
    } else {
        assert(fs.take(i) =~= fs);
    }
}

impl MqlCodeGenerator {
    /// The MQL name of an operator.
    pub fn to_mql_op(mqlo: MQLOperator) -> (r: &'static str)
        ensures
            r@ == mql_op_name(mqlo),
    {
        match mqlo {
            MQLOperator::Concat => "$concat",
            MQLOperator::Add => "$add",
            MQLOperator::Subtract => "$subtract",
            MQLOperator::Multiply => "$multiply",
            MQLOperator::Divide => "$divide",
            MQLOperator::Lt => "$lt",
            MQLOperator::Lte => "$lte",
            MQLOperator::Ne => "$ne",
            MQLOperator::Eq => "$eq",
            MQLOperator::Gt => "$gt",
            MQLOperator::Gte => "$gte",
            MQLOperator::Not => "$not",
            MQLOperator::And => "$and",
            MQLOperator::Or => "$or",
            MQLOperator::Slice => "$slice",
            MQLOperator::Size => "$size",
            MQLOperator::IndexOfCP => "$indexOfCP",
            MQLOperator::IndexOfBytes => "$indexOfBytes",
            MQLOperator::StrLenCP => "$strLenCP",
            MQLOperator::StrLenBytes => "$strLenBytes",
            MQLOperator::Abs => "$abs",
            MQLOperator::Ceil => "$ceil",
            MQLOperator::Cos => "$cos",
            MQLOperator::DegreesToRadians => "$degreesToRadians",
            MQLOperator::Floor => "$floor",
            MQLOperator::Log => "$log",
            MQLOperator::Mod => "$mod",
            MQLOperator::Pow => "$pow",
            MQLOperator::RadiansToDegrees => "$radiansToDegrees",
            MQLOperator::Round => "$round",
            MQLOperator::Sin => "$sin",
            MQLOperator::Tan => "$tan",
            MQLOperator::Sqrt => "$sqrt",
            MQLOperator::SubstrCP => "$substrCP",
            MQLOperator::SubstrBytes => "$substrBytes",
            MQLOperator::ToUpper => "$toUpper",
            MQLOperator::ToLower => "$toLower",
            MQLOperator::Trim => "$trim",
            MQLOperator::LTrim => "$ltrim",
            MQLOperator::RTrim => "$rtrim",
            MQLOperator::Split => "$split",
            MQLOperator::Year => "$year",
            MQLOperator::Month => "$month",
            MQLOperator::DayOfMonth => "$dayOfMonth",
            MQLOperator::Hour => "$hour",
            MQLOperator::Minute => "$minute",
            MQLOperator::Second => "$second",
            MQLOperator::Week => "$week",
            MQLOperator::DayOfYear => "$dayOfYear",
            MQLOperator::IsoWeek => "$isoWeek",
            MQLOperator::IsoDayOfWeek => "$isoDayOfWeek",
            MQLOperator::DateAdd => "$dateAdd",
            MQLOperator::DateDiff => "$dateDiff",
            MQLOperator::DateTrunc => "$dateTrunc",
            MQLOperator::MergeObjects => "$mergeObjects",
        }
    }

    /// The MQL path of a field reference.
    pub fn codegen_field_ref(&self, field_ref: &FieldRef) -> (r: String)
        ensures
            r@ == field_ref_path(*field_ref),
        decreases field_ref,
    {
        match &field_ref.parent {
            None => {
                let mut r = String::from_str("$");
                r.append(field_ref.name.as_str());
                r
            },
            Some(parent) => {
                let mut r = self.codegen_field_ref(parent);
                r.append(".");
                r.append(field_ref.name.as_str());
                r
            },
        }
    }

    /// The MQL values of `es`, in order; the first error ends the work.
    fn codegen_expressions(&self, es: &Vec<Expression>) -> (r: Result<Vec<Bson>, Error>)
        ensures
            match (r, spec_codegen_exprs(es@)) {
                (Ok(bs), Ok(vs)) => bs@.map_values(|b: Bson| b.view_of()) == vs,
                (Err(e1), Err(e2)) => e1 == e2,
                _ => false,
            },
        decreases es, 0nat,
    {
        let mut out: Vec<Bson> = Vec::new();
        let ghost mut vs: Seq<BsonView> = Seq::empty();
        let mut i: usize = 0;
        assert(es@.take(0) =~= Seq::<Expression>::empty());
        while i < es.len()
            invariant
                i <= es@.len(),
                spec_codegen_exprs(es@.take(i as int)) == Ok::<Seq<BsonView>, Error>(vs),
                out@.map_values(|b: Bson| b.view_of()) == vs,
            decreases es@.len() - i,
        {
            assert(es@.take(i + 1).drop_last() =~= es@.take(i as int));
            assert(es@.take(i + 1).last() == es@[i as int]);
            match self.codegen_expression(&es[i]) {
                Ok(b) => {
                    let ghost bv = b.view_of();
                    out.push(b);
                    proof {
                        vs = vs.push(bv);
                        assert(out@.map_values(|b: Bson| b.view_of()) =~= vs);
                    }
                },
                Err(e) => {
                    proof {
                        lemma_exprs_error_persists(es@, i + 1);
                    }
                    return Err(e);
                },
            }
            i = i + 1;
        }
        assert(es@.take(i as int) =~= es@);
        Ok(out)
    }

    /// The MQL document of named expressions, inserted in order; the first
    /// error ends the work.
    fn codegen_fields(&self, fs: &Vec<(String, Expression)>) -> (r: Result<Document, Error>)
        ensures
            match (r, spec_codegen_fields(fs@)) {
                (Ok(d), Ok(ps)) => d.view_of() == doc_insert_all(Seq::empty(), ps),
                (Err(e1), Err(e2)) => e1 == e2,
                _ => false,
            },
        decreases fs, 0nat,
    {
        let mut d = Document::new();
        let ghost mut ps: Seq<(Seq<char>, BsonView)> = Seq::empty();
        let mut i: usize = 0;
        assert(fs@.take(0) =~= Seq::<(String, Expression)>::empty());
        while i < fs.len()
            invariant
                i <= fs@.len(),
                spec_codegen_fields(fs@.take(i as int)) == Ok::<Seq<(Seq<char>, BsonView)>, Error>(ps),
                d.view_of() == doc_insert_all(Seq::empty(), ps),
            decreases fs@.len() - i,
        {
            assert(fs@.take(i + 1).drop_last() =~= fs@.take(i as int));
            assert(fs@.take(i + 1).last() == fs@[i as int]);
            match self.codegen_expression(&fs[i].1) {
                Ok(b) => {
                    let ghost bv = b.view_of();
                    let ghost kv = fs@[i as int].0@;
                    d.insert(fs[i].0.clone(), b);
                    proof {
                        assert(ps.push((kv, bv)).drop_last() =~= ps);
                        ps = ps.push((kv, bv));
                    }
                },
                Err(e) => {
                    proof {
                        lemma_fields_error_persists(fs@, i + 1);
                    }
                    return Err(e);
                },
            }
            i = i + 1;
        }
        assert(fs@.take(i as int) =~= fs@);
        Ok(d)
    }

    fn codegen_expression(&self, expr: &Expression) -> (r: Result<Bson, Error>)
        ensures
            bson_result_is(r, spec_codegen_expr(*expr)),
        decreases expr, 1nat,
    {
        match expr {
            Expression::Literal(lit) => {
                let v = match lit {
                    LiteralValue::Null => Bson::Null,
                    LiteralValue::Boolean(b) => Bson::Boolean(*b),
                    LiteralValue::String(s) => Bson::String(s.clone()),
                    LiteralValue::Integer(i) => Bson::Int32(*i),
                    LiteralValue::Long(l) => Bson::Int64(*l),
                    LiteralValue::Double(d) => Bson::Double(*d),
                };
                Ok(Bson::Document(single_field("$literal", v)))
            },
            Expression::Document(document) => {
                if document.len() == 0 {
                    let empty = Document::new();
                    Ok(Bson::Document(single_field("$literal", Bson::Document(empty))))
                } else {
                    match self.codegen_fields(document) {
                        Ok(d) => Ok(Bson::Document(d)),
                        Err(e) => Err(e),
                    }
                }
            },
            Expression::Array(array) => match self.codegen_expressions(array) {
                Ok(bs) => {
                    let r = Bson::Array(bs);
                    proof {
                        lemma_array_view(bs);
                    }
                    Ok(r)
                },
                Err(e) => Err(e),
            },
            Expression::Variable(var) => {
                let mut s = String::from_str("$$");
                s.append(var.as_str());
                Ok(Bson::String(s))
            },
            Expression::FieldRef(fr) => Ok(Bson::String(self.codegen_field_ref(fr))),
            Expression::MQLSemanticOperator(mqls) => match self.codegen_expressions(&mqls.args) {
                Ok(ops) => {
                    let operator = Self::to_mql_op(mqls.op);
                    let args = Bson::Array(ops);
                    proof {
                        lemma_array_view(ops);
                    }
                    Ok(Bson::Document(single_field(operator, args)))
                },
                Err(e) => Err(e),
            },
            Expression::GetField(gf) => match self.codegen_expression(&gf.input) {
                Ok(input) => {
                    let ghost iv = input.view_of();
                    let mut inner = Document::new();
                    inner.insert(String::from_str("field"), Bson::String(gf.field.clone()));
                    inner.insert(String::from_str("input"), input);
                    proof {
                        reveal_strlit("field");
                        reveal_strlit("input");
                        assert("field"@[0] != "input"@[0]);
                        assert(doc_insert(Seq::empty(), "field"@, BsonView::String(gf.field@)) =~= seq![
                            ("field"@, BsonView::String(gf.field@)),
                        ]);
                        assert(inner.view_of() =~= seq![
                            ("field"@, BsonView::String(gf.field@)),
                            ("input"@, iv),
                        ]);
                    }
                    Ok(Bson::Document(single_field("$getField", Bson::Document(inner))))
                },
                Err(e) => Err(e),
            },
            Expression::RootReference => Err(Error::UnimplementedAIR),
        }
    }

    /// The MQL translation of an AIR stage.
    pub fn codegen_air_stage(&self, stage: Stage) -> (r: Result<MqlTranslation, Error>)
        ensures
            translation_result_is(r, spec_codegen_stage(stage)),
        decreases stage,
    {
        match stage {
            Stage::Project(p) => self.codegen_project(p),
            Stage::Group(_g) => Err(Error::UnimplementedAIR),
            Stage::Limit(_l) => Err(Error::UnimplementedAIR),
            Stage::Sort(_s) => Err(Error::UnimplementedAIR),
            Stage::Collection(c) => self.codegen_collection(c),
            Stage::Join(_l, _r) => Err(Error::UnimplementedAIR),
            Stage::Unwind(_u) => Err(Error::UnimplementedAIR),
            Stage::Lookup(_l) => Err(Error::UnimplementedAIR),
            Stage::ReplaceWith(r) => self.codegen_replace_with(r),
            Stage::Match(_m) => Err(Error::UnimplementedAIR),
            Stage::UnionWith(_u) => Err(Error::UnimplementedAIR),
            Stage::Skip(_s) => Err(Error::UnimplementedAIR),
            Stage::Documents(d) => self.codegen_documents(d),
        }
    }

    /// Adds `$replaceWith` to the pipeline of the source.
    fn codegen_replace_with(&self, air_replace_with: ReplaceWith) -> (r: Result<MqlTranslation, Error>)
        ensures
            translation_result_is(r, spec_codegen_stage(Stage::ReplaceWith(air_replace_with))),
        decreases air_replace_with,
    {
        let ReplaceWith { source, new_root } = air_replace_with;
        let source_translation = match self.codegen_air_stage(*source) {
            Ok(t) => t,
            Err(e) => {
                return Err(e);
            },
        };
        let MqlTranslation { database, collection, pipeline } = source_translation;
        let mut pipeline = pipeline;
        let expr = match self.codegen_expression(&new_root) {
            Ok(b) => b,
            Err(e) => {
                return Err(e);
            },
        };
        let ghost before = pipeline@;
        pipeline.push(single_field("$replaceWith", expr));
        proof {
            assert(pipeline@.map_values(|d: Document| d.view_of()) =~= before.map_values(
                |d: Document| d.view_of(),
            ).push(pipeline@.last().view_of()));
        }
        Ok(MqlTranslation { database, collection, pipeline })
    }

    /// `$documents` with the MQL values of the literal documents.
    fn codegen_documents(&self, air_docs: Documents) -> (r: Result<MqlTranslation, Error>)
        ensures
            translation_result_is(r, spec_codegen_stage(Stage::Documents(air_docs))),
    {
        let docs = match self.codegen_expressions(&air_docs.array) {
            Ok(docs) => docs,
            Err(e) => {
                return Err(e);
            },
        };
        proof {
            lemma_array_view(docs);
        }
        let stage = single_field("$documents", Bson::Array(docs));
        let mut pipeline: Vec<Document> = Vec::new();
        pipeline.push(stage);
        proof {
            assert(pipeline@.map_values(|d: Document| d.view_of()) =~= seq![stage.view_of()]);
        }
        Ok(MqlTranslation { database: None, collection: None, pipeline })
    }

    /// A collection: read from it, with an empty pipeline.
    fn codegen_collection(&self, air_coll: Collection) -> (r: Result<MqlTranslation, Error>)
        ensures
            translation_result_is(r, spec_codegen_stage(Stage::Collection(air_coll))),
    {
        let pipeline: Vec<Document> = Vec::new();
        let r = MqlTranslation {
            database: Some(air_coll.db),
            collection: Some(air_coll.collection),
            pipeline,
        };
        assert(r.view_of().pipeline =~= Seq::<Seq<(Seq<char>, BsonView)>>::empty());
        Ok(r)
    }

    /// Adds `$project` to the pipeline of the source, with `_id: 0` first
    /// unless the specifications set `_id`.
    fn codegen_project(&self, air_project: Project) -> (r: Result<MqlTranslation, Error>)
        ensures
            translation_result_is(r, spec_codegen_stage(Stage::Project(air_project))),
        decreases air_project,
    {
        let Project { source, specifications } = air_project;
        let source_translation = match self.codegen_air_stage(*source) {
            Ok(t) => t,
            Err(e) => {
                return Err(e);
            },
        };
        let MqlTranslation { database, collection, pipeline } = source_translation;
        let mut pipeline = pipeline;
        let mut project_doc = match self.codegen_fields(&specifications) {
            Ok(d) => d,
            Err(e) => {
                return Err(e);
            },
        };
        proof {
            reveal_strlit("_id");
        }
        if !project_doc.contains_key("_id") {
            let mut tmp_project_doc = single_field("_id", Bson::Int32(0));
            tmp_project_doc.extend(project_doc);
            project_doc = tmp_project_doc;
        }
        let ghost before = pipeline@;
        pipeline.push(single_field("$project", Bson::Document(project_doc)));
        proof {
            assert(pipeline@.map_values(|d: Document| d.view_of()) =~= before.map_values(
                |d: Document| d.view_of(),
            ).push(pipeline@.last().view_of()));
        }
        Ok(MqlTranslation { database, collection, pipeline })
    }

    /// The MQL value of an AIR expression.
    pub fn codegen_air_expression(&self, expr: Expression) -> (r: Result<Bson, Error>)
        ensures
            bson_result_is(r, spec_codegen_expr(expr)),
    {
        self.codegen_expression(&expr)
    }
}

} // verus!
