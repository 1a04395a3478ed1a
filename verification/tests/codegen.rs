use mongosql::codegen::air::{
    Collection, Documents, Expression, FieldRef, GetField, LiteralValue, MQLOperator,
    MQLSemanticOperator, Project, ReplaceWith, Stage,
};
use mongosql::codegen::{Error, MqlCodeGenerator, MqlTranslation};
use mongosql::mql::{Bson, Document};

fn doc(fields: Vec<(&str, Bson)>) -> Document {
    Document { entries: fields.into_iter().map(|(k, v)| (k.to_string(), v)).collect() }
}

fn bdoc(fields: Vec<(&str, Bson)>) -> Bson {
    Bson::Document(doc(fields))
}

fn s(x: &str) -> Bson {
    Bson::String(x.to_string())
}

fn lit(l: LiteralValue) -> Expression {
    Expression::Literal(l)
}

fn gen() -> MqlCodeGenerator {
    MqlCodeGenerator {}
}

#[test]
fn null() {
    assert_eq!(
        gen().codegen_air_expression(lit(LiteralValue::Null)),
        Ok(bdoc(vec![("$literal", Bson::Null)]))
    );
}

#[test]
fn boolean() {
    assert_eq!(
        gen().codegen_air_expression(lit(LiteralValue::Boolean(true))),
        Ok(bdoc(vec![("$literal", Bson::Boolean(true))]))
    );
}

#[test]
fn string() {
    assert_eq!(
        gen().codegen_air_expression(lit(LiteralValue::String("foo".to_string()))),
        Ok(bdoc(vec![("$literal", s("foo"))]))
    );
}

#[test]
fn integer() {
    assert_eq!(
        gen().codegen_air_expression(lit(LiteralValue::Integer(1))),
        Ok(bdoc(vec![("$literal", Bson::Int32(1))]))
    );
}

#[test]
fn long() {
    assert_eq!(
        gen().codegen_air_expression(lit(LiteralValue::Long(2))),
        Ok(bdoc(vec![("$literal", Bson::Int64(2))]))
    );
}

#[test]
fn double() {
    assert_eq!(
        gen().codegen_air_expression(lit(LiteralValue::Double(3.0f64.to_bits()))),
        Ok(bdoc(vec![("$literal", Bson::Double(3.0f64.to_bits()))]))
    );
}

#[test]
fn documents_and_arrays() {
    assert_eq!(
        gen().codegen_air_expression(Expression::Document(vec![])),
        Ok(bdoc(vec![("$literal", bdoc(vec![]))]))
    );
    assert_eq!(
        gen().codegen_air_expression(Expression::Document(vec![
            ("a".to_string(), lit(LiteralValue::Integer(1))),
            ("b".to_string(), Expression::Variable("x".to_string())),
        ])),
        Ok(bdoc(vec![("a", bdoc(vec![("$literal", Bson::Int32(1))])), ("b", s("$$x"))]))
    );
    assert_eq!(
        gen().codegen_air_expression(Expression::Array(vec![
            lit(LiteralValue::Null),
            Expression::Variable("v".to_string()),
        ])),
        Ok(Bson::Array(vec![bdoc(vec![("$literal", Bson::Null)]), s("$$v")]))
    );
}

#[test]
fn repeated_document_field_keeps_its_place() {
    assert_eq!(
        gen().codegen_air_expression(Expression::Document(vec![
            ("a".to_string(), lit(LiteralValue::Integer(1))),
            ("b".to_string(), lit(LiteralValue::Integer(2))),
            ("a".to_string(), lit(LiteralValue::Integer(3))),
        ])),
        Ok(bdoc(vec![
            ("a", bdoc(vec![("$literal", Bson::Int32(3))])),
            ("b", bdoc(vec![("$literal", Bson::Int32(2))])),
        ]))
    );
}

#[test]
fn field_refs_and_operators() {
    let fr = FieldRef {
        parent: Some(Box::new(FieldRef { parent: None, name: "a".to_string() })),
        name: "b".to_string(),
    };
    assert_eq!(gen().codegen_field_ref(&fr), "$a.b");
    assert_eq!(gen().codegen_air_expression(Expression::FieldRef(fr)), Ok(s("$a.b")));
    assert_eq!(
        gen().codegen_air_expression(Expression::MQLSemanticOperator(MQLSemanticOperator {
            op: MQLOperator::Add,
            args: vec![lit(LiteralValue::Integer(1)), Expression::Variable("x".to_string())],
        })),
        Ok(bdoc(vec![(
            "$add",
            Bson::Array(vec![bdoc(vec![("$literal", Bson::Int32(1))]), s("$$x")])
        )]))
    );
    assert_eq!(MqlCodeGenerator::to_mql_op(MQLOperator::IsoDayOfWeek), "$isoDayOfWeek");
    assert_eq!(MqlCodeGenerator::to_mql_op(MQLOperator::LTrim), "$ltrim");
    assert_eq!(
        gen().codegen_air_expression(Expression::GetField(GetField {
            field: "f".to_string(),
            input: Box::new(Expression::Variable("d".to_string())),
        })),
        Ok(bdoc(vec![("$getField", bdoc(vec![("field", s("f")), ("input", s("$$d"))]))]))
    );
}

#[test]
fn unimplemented_expressions() {
    assert_eq!(gen().codegen_air_expression(Expression::RootReference), Err(Error::UnimplementedAIR));
    assert_eq!(
        gen().codegen_air_expression(Expression::Array(vec![
            lit(LiteralValue::Null),
            Expression::RootReference,
        ])),
        Err(Error::UnimplementedAIR)
    );
    assert_eq!(Error::UnimplementedAIR.message(), "air method is not implemented");
}

fn collection() -> Stage {
    Stage::Collection(Collection { db: "db".to_string(), collection: "c".to_string() })
}

#[test]
fn collection_stage() {
    assert_eq!(
        gen().codegen_air_stage(collection()),
        Ok(MqlTranslation {
            database: Some("db".to_string()),
            collection: Some("c".to_string()),
            pipeline: vec![],
        })
    );
}

#[test]
fn documents_stage() {
    assert_eq!(
        gen().codegen_air_stage(Stage::Documents(Documents {
            array: vec![Expression::Document(vec![("a".to_string(), lit(LiteralValue::Long(1)))])],
        })),
        Ok(MqlTranslation {
            database: None,
            collection: None,
            pipeline: vec![doc(vec![(
                "$documents",
                Bson::Array(vec![bdoc(vec![("a", bdoc(vec![("$literal", Bson::Int64(1))]))])])
            )])],
        })
    );
}

#[test]
fn project_stage_adds_id_first() {
    let r = gen().codegen_air_stage(Stage::Project(Project {
        source: Box::new(collection()),
        specifications: vec![("x".to_string(), Expression::Variable("v".to_string()))],
    }));
    assert_eq!(
        r,
        Ok(MqlTranslation {
            database: Some("db".to_string()),
            collection: Some("c".to_string()),
            pipeline: vec![doc(vec![("$project", bdoc(vec![("_id", Bson::Int32(0)), ("x", s("$$v"))]))])],
        })
    );
    assert_eq!(project_keys(r.as_ref().unwrap()), vec!["_id".to_string(), "x".to_string()]);
    let keep_id = gen().codegen_air_stage(Stage::Project(Project {
        source: Box::new(collection()),
        specifications: vec![
            ("x".to_string(), Expression::Variable("v".to_string())),
            ("_id".to_string(), Expression::Variable("w".to_string())),
        ],
    }));
    assert_eq!(
        keep_id,
        Ok(MqlTranslation {
            database: Some("db".to_string()),
            collection: Some("c".to_string()),
            pipeline: vec![doc(vec![("$project", bdoc(vec![("x", s("$$v")), ("_id", s("$$w"))]))])],
        })
    );
    assert_eq!(project_keys(keep_id.as_ref().unwrap()), vec!["x".to_string(), "_id".to_string()]);
}

/// The field names of the `$project` document of a one-stage pipeline, in
/// order.
fn project_keys(t: &MqlTranslation) -> Vec<String> {
    match &t.pipeline[0].entries[0].1 {
        Bson::Document(d) => d.entries.iter().map(|(k, _)| k.clone()).collect(),
        _ => vec![],
    }
}

#[test]
fn replace_with_stage_extends_the_source_pipeline() {
    let r = gen().codegen_air_stage(Stage::ReplaceWith(ReplaceWith {
        source: Box::new(Stage::Project(Project {
            source: Box::new(collection()),
            specifications: vec![],
        })),
        new_root: Box::new(Expression::Variable("root".to_string())),
    }));
    assert_eq!(
        r,
        Ok(MqlTranslation {
            database: Some("db".to_string()),
            collection: Some("c".to_string()),
            pipeline: vec![
                doc(vec![("$project", bdoc(vec![("_id", Bson::Int32(0))]))]),
                doc(vec![("$replaceWith", s("$$root"))]),
            ],
        })
    );
}

#[test]
fn unimplemented_stages() {
    assert_eq!(gen().codegen_air_stage(Stage::Limit(Box::new(collection()))), Err(Error::UnimplementedAIR));
    assert_eq!(
        gen().codegen_air_stage(Stage::Join(Box::new(collection()), Box::new(collection()))),
        Err(Error::UnimplementedAIR)
    );
    assert_eq!(
        gen().codegen_air_stage(Stage::Project(Project {
            source: Box::new(Stage::Skip(Box::new(collection()))),
            specifications: vec![],
        })),
        Err(Error::UnimplementedAIR)
    );
}

#[test]
fn operator_names_start_with_dollar_and_differ() {
    let ops = vec![
        MQLOperator::Concat,
        MQLOperator::Add,
        MQLOperator::Subtract,
        MQLOperator::Multiply,
        MQLOperator::Divide,
        MQLOperator::Lt,
        MQLOperator::Lte,
        MQLOperator::Ne,
        MQLOperator::Eq,
        MQLOperator::Gt,
        MQLOperator::Gte,
        MQLOperator::Not,
        MQLOperator::And,
        MQLOperator::Or,
        MQLOperator::Slice,
        MQLOperator::Size,
        MQLOperator::IndexOfCP,
        MQLOperator::IndexOfBytes,
        MQLOperator::StrLenCP,
        MQLOperator::StrLenBytes,
        MQLOperator::Abs,
        MQLOperator::Ceil,
        MQLOperator::Cos,
        MQLOperator::DegreesToRadians,
        MQLOperator::Floor,
        MQLOperator::Log,
        MQLOperator::Mod,
        MQLOperator::Pow,
        MQLOperator::RadiansToDegrees,
        MQLOperator::Round,
        MQLOperator::Sin,
        MQLOperator::Tan,
        MQLOperator::Sqrt,
        MQLOperator::SubstrCP,
        MQLOperator::SubstrBytes,
        MQLOperator::ToUpper,
        MQLOperator::ToLower,
        MQLOperator::Trim,
        MQLOperator::LTrim,
        MQLOperator::RTrim,
        MQLOperator::Split,
        MQLOperator::Year,
        MQLOperator::Month,
        MQLOperator::DayOfMonth,
        MQLOperator::Hour,
        MQLOperator::Minute,
        MQLOperator::Second,
        MQLOperator::Week,
        MQLOperator::DayOfYear,
        MQLOperator::IsoWeek,
        MQLOperator::IsoDayOfWeek,
        MQLOperator::DateAdd,
        MQLOperator::DateDiff,
        MQLOperator::DateTrunc,
        MQLOperator::MergeObjects,
    ];
    let names: Vec<&str> = ops.iter().map(|op| MqlCodeGenerator::to_mql_op(*op)).collect();
    for n in &names {
        assert!(n.len() > 1 && n.starts_with('$'));
    }
    for i in 0..names.len() {
        for j in (i + 1)..names.len() {
            assert_ne!(names[i], names[j]);
        }
    }
}

#[test]
fn documents_are_equal_regardless_of_field_order() {
    let a = doc(vec![("x", Bson::Int32(1)), ("y", s("a"))]);
    let b = doc(vec![("y", s("a")), ("x", Bson::Int32(1))]);
    assert!(a == b);
    assert!(bdoc(vec![("d", Bson::Document(a))]) == bdoc(vec![("d", Bson::Document(b))]));
    assert!(doc(vec![("x", Bson::Int32(1))]) != doc(vec![("x", Bson::Int32(2))]));
    assert!(doc(vec![("x", Bson::Int32(1))]) != doc(vec![("y", Bson::Int32(1))]));
    assert!(doc(vec![("x", Bson::Int32(1))]) != doc(vec![("x", Bson::Int32(1)), ("y", Bson::Null)]));
    assert!(Bson::Int32(1) != Bson::Int64(1));
}

#[test]
fn arrays_are_equal_element_by_element() {
    assert!(Bson::Array(vec![Bson::Int32(1), s("a")]) == Bson::Array(vec![Bson::Int32(1), s("a")]));
    assert!(Bson::Array(vec![Bson::Int32(1), s("a")]) != Bson::Array(vec![s("a"), Bson::Int32(1)]));
    assert!(Bson::Array(vec![Bson::Int32(1)]) != Bson::Array(vec![Bson::Int32(1), Bson::Int32(1)]));
}

#[test]
fn doubles_compare_as_floats() {
    let nan = f64::NAN.to_bits();
    assert!(Bson::Double(nan) != Bson::Double(nan));
    assert!(Bson::Double(0.0f64.to_bits()) == Bson::Double((-0.0f64).to_bits()));
    assert!(Bson::Double(1.5f64.to_bits()) == Bson::Double(1.5f64.to_bits()));
    assert!(Bson::Double(1.5f64.to_bits()) != Bson::Double(2.5f64.to_bits()));
}
