//! Verified core of a MongoSQL query compiler: the rewrite-pass driver, the
//! prefilter-unwinds MIR optimization, the MIR-to-AIR translation helpers and
//! the AIR-to-MQL code generator.

pub mod rewrites;
pub mod bson_types;
pub mod binding_tuple;
pub mod mir;
pub mod prefilter_unwinds;
pub mod air;
pub mod translator;
pub mod text;
pub mod mapping_registry;
pub mod mql;
pub mod codegen;
