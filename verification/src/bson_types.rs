//! BSON value types that MIR literals carry through the compiler unchanged.
//! Verus sees none of their contents; the library only moves and copies them.

use vstd::prelude::*;

verus! {

#[verifier::external_type_specification]
#[verifier::external_body]
pub struct ExDbPointer(bson::DbPointer);

#[verifier::external_type_specification]
#[verifier::external_body]
pub struct ExDateTime(bson::DateTime);

#[verifier::external_type_specification]
#[verifier::external_body]
pub struct ExDecimal128(bson::Decimal128);

#[verifier::external_type_specification]
#[verifier::external_body]
pub struct ExTimestamp(bson::Timestamp);

#[verifier::external_type_specification]
#[verifier::external_body]
pub struct ExRegex(bson::Regex);

#[verifier::external_type_specification]
#[verifier::external_body]
pub struct ExObjectId(bson::oid::ObjectId);

#[verifier::external_type_specification]
#[verifier::external_body]
pub struct ExJavaScriptCodeWithScope(bson::JavaScriptCodeWithScope);

#[verifier::external_type_specification]
#[verifier::external_body]
pub struct ExBinary(bson::Binary);

/// `bson::DbPointer::clone` is derived: it clones the namespace string and
/// copies the object id, so the clone equals the value it was made from.
pub assume_specification[ <bson::DbPointer as Clone>::clone ](p: &bson::DbPointer) -> (r:
    bson::DbPointer)
    ensures
        r == *p,
;

/// `bson::Regex::clone` is derived: it clones the pattern and options
/// strings, so the clone equals the value it was made from.
pub assume_specification[ <bson::Regex as Clone>::clone ](p: &bson::Regex) -> (r: bson::Regex)
    ensures
        r == *p,
;

/// `bson::JavaScriptCodeWithScope::clone` is derived: it clones the code
/// string and the scope document, so the clone equals the value it was made from.
pub assume_specification[ <bson::JavaScriptCodeWithScope as Clone>::clone ](
    p: &bson::JavaScriptCodeWithScope,
) -> (r: bson::JavaScriptCodeWithScope)
    ensures
        r == *p,
;

/// `bson::Binary::clone` is derived: it copies the subtype and clones the
/// byte vector, so the clone equals the value it was made from.
pub assume_specification[ <bson::Binary as Clone>::clone ](p: &bson::Binary) -> (r: bson::Binary)
    ensures
        r == *p,
;

} // verus!
