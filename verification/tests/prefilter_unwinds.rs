use mongosql::mir::{
    Collection, DatasourceName, ElemMatch, Expression, FieldAccess, FieldPath, Filter, Key,
    LiteralExpr, LiteralValue, MQLStage, MatchFilter, MatchLanguageComparison,
    MatchLanguageComparisonOp, MatchLanguageLogical, MatchLanguageLogicalOp, MatchQuery,
    ReferenceExpr, ScalarFunction, ScalarFunctionApplication, SchemaCache, Stage, Unwind,
};
use mongosql::prefilter_unwinds::{
    generate_between_elem_match_query, generate_comparison_elem_match_query,
    generate_match_comparison, generate_prefilter, get_between_literals, get_comparison_literal,
    FilterAnalysis, PrefilterUnwindsOptimizer, PrefilterUnwindsVisitor,
};

fn key(name: &str) -> Key {
    Key { datasource: DatasourceName::Named(name.to_string()), scope: 0 }
}

fn path(name: &str, fields: &[&str]) -> FieldPath {
    FieldPath {
        key: key(name),
        fields: fields.iter().map(|f| f.to_string()).collect(),
        is_nullable: false,
    }
}

fn field(name: &str, f: &str) -> Expression {
    Expression::FieldAccess(FieldAccess {
        expr: Box::new(Expression::Reference(ReferenceExpr { key: key(name) })),
        field: f.to_string(),
        is_nullable: false,
    })
}

fn int_lit(i: i32) -> Expression {
    Expression::Literal(LiteralExpr { value: LiteralValue::Integer(i) })
}

fn apply(function: ScalarFunction, args: Vec<Expression>) -> Expression {
    Expression::ScalarFunction(ScalarFunctionApplication { function, args, is_nullable: false })
}

fn collection() -> Stage {
    Stage::Collection(Collection {
        db: "db".to_string(),
        collection: "foo".to_string(),
        cache: SchemaCache {},
    })
}

fn unwind(source: Stage, index: Option<&str>) -> Unwind {
    Unwind {
        source: Box::new(source),
        path: path("foo", &["arr"]),
        index: index.map(|s| s.to_string()),
        outer: false,
        cache: SchemaCache {},
    }
}

fn filter_over_unwind(condition: Expression, index: Option<&str>) -> Stage {
    Stage::Filter(Filter {
        source: Box::new(Stage::Unwind(unwind(collection(), index))),
        condition,
        cache: SchemaCache {},
    })
}

fn comparison(function: MatchLanguageComparisonOp, arg: LiteralValue) -> MatchQuery {
    MatchQuery::Comparison(MatchLanguageComparison { function, input: None, arg, cache: SchemaCache {} })
}

fn match_filter(source: Stage, condition: MatchQuery) -> Stage {
    Stage::MQLIntrinsic(MQLStage::MatchFilter(MatchFilter {
        source: Box::new(source),
        condition,
        cache: SchemaCache {},
    }))
}

#[test]
fn comparison_literal_in_either_order() {
    assert_eq!(
        get_comparison_literal(&vec![field("foo", "arr"), int_lit(3)]),
        Some(LiteralValue::Integer(3))
    );
    assert_eq!(
        get_comparison_literal(&vec![int_lit(4), field("foo", "arr")]),
        Some(LiteralValue::Integer(4))
    );
    assert_eq!(get_comparison_literal(&vec![int_lit(4), int_lit(5)]), None);
    assert_eq!(get_comparison_literal(&vec![field("foo", "arr"), int_lit(3), int_lit(4)]), None);
}

#[test]
fn between_literals_need_the_field_first() {
    assert_eq!(
        get_between_literals(&vec![field("foo", "arr"), int_lit(1), int_lit(9)]),
        Some((LiteralValue::Integer(1), LiteralValue::Integer(9)))
    );
    assert_eq!(get_between_literals(&vec![int_lit(1), field("foo", "arr"), int_lit(9)]), None);
    assert_eq!(get_between_literals(&vec![field("foo", "arr"), int_lit(1)]), None);
}

#[test]
fn comparison_op_of_scalar_functions() {
    assert_eq!(MatchLanguageComparisonOp::try_from(ScalarFunction::Lt), Ok(MatchLanguageComparisonOp::Lt));
    assert_eq!(MatchLanguageComparisonOp::try_from(ScalarFunction::Lte), Ok(MatchLanguageComparisonOp::Lte));
    assert_eq!(MatchLanguageComparisonOp::try_from(ScalarFunction::Neq), Ok(MatchLanguageComparisonOp::Ne));
    assert_eq!(MatchLanguageComparisonOp::try_from(ScalarFunction::Eq), Ok(MatchLanguageComparisonOp::Eq));
    assert_eq!(MatchLanguageComparisonOp::try_from(ScalarFunction::Gt), Ok(MatchLanguageComparisonOp::Gt));
    assert_eq!(MatchLanguageComparisonOp::try_from(ScalarFunction::Gte), Ok(MatchLanguageComparisonOp::Gte));
    assert_eq!(MatchLanguageComparisonOp::try_from(ScalarFunction::Between), Err(()));
    assert_eq!(MatchLanguageComparisonOp::try_from(ScalarFunction::Add), Err(()));
}

#[test]
fn match_queries() {
    assert_eq!(
        generate_match_comparison(MatchLanguageComparisonOp::Gt, LiteralValue::Long(2)),
        comparison(MatchLanguageComparisonOp::Gt, LiteralValue::Long(2))
    );
    assert_eq!(
        generate_comparison_elem_match_query(
            MatchLanguageComparisonOp::Eq,
            path("foo", &["arr"]),
            LiteralValue::Null
        ),
        MatchQuery::ElemMatch(ElemMatch {
            input: path("foo", &["arr"]),
            condition: Box::new(comparison(MatchLanguageComparisonOp::Eq, LiteralValue::Null)),
            cache: SchemaCache {},
        })
    );
    assert_eq!(
        generate_between_elem_match_query(
            path("foo", &["arr"]),
            LiteralValue::Integer(1),
            LiteralValue::Integer(5)
        ),
        MatchQuery::ElemMatch(ElemMatch {
            input: path("foo", &["arr"]),
            condition: Box::new(MatchQuery::Logical(MatchLanguageLogical {
                op: MatchLanguageLogicalOp::And,
                args: vec![
                    comparison(MatchLanguageComparisonOp::Gte, LiteralValue::Integer(1)),
                    comparison(MatchLanguageComparisonOp::Lte, LiteralValue::Integer(5)),
                ],
                cache: SchemaCache {},
            })),
            cache: SchemaCache {},
        })
    );
}

#[test]
fn prefilter_of_comparison() {
    let cond = apply(ScalarFunction::Lt, vec![field("foo", "arr"), int_lit(7)]);
    let r = generate_prefilter(path("foo", &["arr"]), Box::new(collection()), &cond);
    assert_eq!(
        *r,
        match_filter(
            collection(),
            MatchQuery::ElemMatch(ElemMatch {
                input: path("foo", &["arr"]),
                condition: Box::new(comparison(MatchLanguageComparisonOp::Lt, LiteralValue::Integer(7))),
                cache: SchemaCache {},
            })
        )
    );
}

#[test]
fn no_prefilter_without_literal_or_comparison() {
    let not_comparison = apply(ScalarFunction::Add, vec![field("foo", "arr"), int_lit(7)]);
    assert_eq!(*generate_prefilter(path("foo", &["arr"]), Box::new(collection()), &not_comparison), collection());
    let no_literal = apply(ScalarFunction::Eq, vec![field("foo", "arr"), field("foo", "b")]);
    assert_eq!(*generate_prefilter(path("foo", &["arr"]), Box::new(collection()), &no_literal), collection());
    let bad_between = apply(ScalarFunction::Between, vec![int_lit(1), field("foo", "arr"), int_lit(2)]);
    assert_eq!(*generate_prefilter(path("foo", &["arr"]), Box::new(collection()), &bad_between), collection());
    assert_eq!(*generate_prefilter(path("foo", &["arr"]), Box::new(collection()), &int_lit(1)), collection());
}

#[test]
fn visit_prefilters_filter_over_unwind() {
    let cond = apply(ScalarFunction::Between, vec![field("foo", "arr"), int_lit(1), int_lit(5)]);
    let node = filter_over_unwind(cond, None);
    let mut visitor = PrefilterUnwindsVisitor {};
    let r = visitor.visit_stage(node, Some(vec![path("foo", &["arr"])]), &vec![path("foo", &["arr"])]);
    let expected_condition = apply(ScalarFunction::Between, vec![field("foo", "arr"), int_lit(1), int_lit(5)]);
    let expected = Stage::Filter(Filter {
        source: Box::new(Stage::Unwind(Unwind {
            source: Box::new(match_filter(
                collection(),
                generate_between_elem_match_query(
                    path("foo", &["arr"]),
                    LiteralValue::Integer(1),
                    LiteralValue::Integer(5),
                ),
            )),
            ..unwind(collection(), None)
        })),
        condition: expected_condition,
        cache: SchemaCache {},
    });
    assert_eq!(r, expected);
}

#[test]
fn visit_keeps_node_when_field_not_defined_by_unwind() {
    let cond = apply(ScalarFunction::Gt, vec![field("foo", "other"), int_lit(1)]);
    let mut visitor = PrefilterUnwindsVisitor {};
    let r = visitor.visit_stage(
        filter_over_unwind(cond, None),
        Some(vec![path("foo", &["other"])]),
        &vec![path("foo", &["arr"])],
    );
    let cond = apply(ScalarFunction::Gt, vec![field("foo", "other"), int_lit(1)]);
    assert_eq!(r, filter_over_unwind(cond, None));
}

#[test]
fn visit_keeps_node_when_field_is_the_index() {
    let cond = apply(ScalarFunction::Gt, vec![field("foo", "i"), int_lit(1)]);
    let mut visitor = PrefilterUnwindsVisitor {};
    let r = visitor.visit_stage(
        filter_over_unwind(cond, Some("i")),
        Some(vec![path("foo", &["i"])]),
        &vec![path("foo", &["i"])],
    );
    let cond = apply(ScalarFunction::Gt, vec![field("foo", "i"), int_lit(1)]);
    assert_eq!(r, filter_over_unwind(cond, Some("i")));
}

#[test]
fn visit_keeps_node_with_several_or_unknown_field_uses() {
    let cond = || apply(ScalarFunction::Gt, vec![field("foo", "arr"), int_lit(1)]);
    let mut visitor = PrefilterUnwindsVisitor {};
    let two = visitor.visit_stage(
        filter_over_unwind(cond(), None),
        Some(vec![path("foo", &["arr"]), path("foo", &["b"])]),
        &vec![path("foo", &["arr"])],
    );
    assert_eq!(two, filter_over_unwind(cond(), None));
    let unknown = visitor.visit_stage(filter_over_unwind(cond(), None), None, &vec![path("foo", &["arr"])]);
    assert_eq!(unknown, filter_over_unwind(cond(), None));
}

#[test]
fn visit_keeps_other_stages() {
    let mut visitor = PrefilterUnwindsVisitor {};
    assert_eq!(visitor.visit_stage(collection(), None, &vec![]), collection());
    let filter_over_collection = || Stage::Filter(Filter {
        source: Box::new(collection()),
        condition: apply(ScalarFunction::Gt, vec![field("foo", "arr"), int_lit(1)]),
        cache: SchemaCache {},
    });
    assert_eq!(
        visitor.visit_stage(filter_over_collection(), Some(vec![path("foo", &["arr"])]), &vec![path("foo", &["arr"])]),
        filter_over_collection()
    );
}

fn analysis(uses: &[&str], defines: &[&str]) -> FilterAnalysis {
    FilterAnalysis {
        field_uses: Some(uses.iter().map(|f| path("foo", &[f])).collect()),
        opaque_field_defines: defines.iter().map(|f| path("foo", &[f])).collect(),
    }
}

fn prefiltered_lt(source: Stage, lit: i32) -> Stage {
    match_filter(
        source,
        generate_comparison_elem_match_query(
            MatchLanguageComparisonOp::Lt,
            path("foo", &["arr"]),
            LiteralValue::Integer(lit),
        ),
    )
}

#[test]
fn optimize_reaches_a_filter_over_unwind_below_other_stages() {
    let lt = |i: i32| apply(ScalarFunction::Lt, vec![field("foo", "arr"), int_lit(i)]);
    let other = || apply(ScalarFunction::Gt, vec![field("foo", "x"), int_lit(0)]);
    // Filter(x > 0) over Unwind over Filter(arr < 7) over Unwind over a collection.
    let inner = Stage::Filter(Filter {
        source: Box::new(Stage::Unwind(unwind(collection(), None))),
        condition: lt(7),
        cache: SchemaCache {},
    });
    let st = Stage::Filter(Filter {
        source: Box::new(Stage::Unwind(unwind(inner, None))),
        condition: other(),
        cache: SchemaCache {},
    });
    let r = PrefilterUnwindsOptimizer {}.optimize(
        st,
        vec![analysis(&["x"], &["arr"]), analysis(&["arr"], &["arr"])],
    );
    let expected_inner = Stage::Filter(Filter {
        source: Box::new(Stage::Unwind(unwind(prefiltered_lt(collection(), 7), None))),
        condition: lt(7),
        cache: SchemaCache {},
    });
    let expected = Stage::Filter(Filter {
        source: Box::new(Stage::Unwind(unwind(expected_inner, None))),
        condition: other(),
        cache: SchemaCache {},
    });
    assert_eq!(r, expected);
}

#[test]
fn optimize_prefilters_every_qualifying_pair() {
    let lt = |i: i32| apply(ScalarFunction::Lt, vec![field("foo", "arr"), int_lit(i)]);
    // Filter(arr < 3) over Unwind over Filter(arr < 9) over Unwind over a collection.
    let inner = Stage::Filter(Filter {
        source: Box::new(Stage::Unwind(unwind(collection(), None))),
        condition: lt(9),
        cache: SchemaCache {},
    });
    let st = Stage::Filter(Filter {
        source: Box::new(Stage::Unwind(unwind(inner, None))),
        condition: lt(3),
        cache: SchemaCache {},
    });
    let r = PrefilterUnwindsOptimizer {}.optimize(
        st,
        vec![analysis(&["arr"], &["arr"]), analysis(&["arr"], &["arr"])],
    );
    let expected_inner = Stage::Filter(Filter {
        source: Box::new(Stage::Unwind(unwind(prefiltered_lt(collection(), 9), None))),
        condition: lt(9),
        cache: SchemaCache {},
    });
    let expected = Stage::Filter(Filter {
        source: Box::new(Stage::Unwind(unwind(prefiltered_lt(expected_inner, 3), None))),
        condition: lt(3),
        cache: SchemaCache {},
    });
    assert_eq!(r, expected);
}

#[test]
fn optimize_keeps_a_plan_without_filters() {
    let st = match_filter(
        Stage::Unwind(unwind(collection(), None)),
        comparison(MatchLanguageComparisonOp::Eq, LiteralValue::Null),
    );
    let r = PrefilterUnwindsOptimizer {}.optimize(st, vec![]);
    assert_eq!(
        r,
        match_filter(
            Stage::Unwind(unwind(collection(), None)),
            comparison(MatchLanguageComparisonOp::Eq, LiteralValue::Null),
        )
    );
}
