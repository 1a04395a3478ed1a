use mongosql::air;
use mongosql::binding_tuple::{BindingTuple, DatasourceName, Key};
use mongosql::mapping_registry::{MqlMappingRegistry, MqlMappingRegistryValue, MqlReferenceType};
use mongosql::mir;
use mongosql::translator::{
    scalar_function_to_scalar_function_type, Error, MqlTranslator, ScalarFunctionType,
};

fn named(name: &str, scope: u16) -> Key {
    Key { datasource: DatasourceName::Named(name.to_string()), scope }
}

fn value(name: &str, ref_type: MqlReferenceType) -> MqlMappingRegistryValue {
    MqlMappingRegistryValue::new(name.to_string(), ref_type)
}

fn translator(entries: Vec<(Key, MqlMappingRegistryValue)>, is_join: bool) -> MqlTranslator {
    let mut mapping_registry = MqlMappingRegistry::new();
    for (k, v) in entries {
        mapping_registry.insert(k, v);
    }
    MqlTranslator { mapping_registry, scope_level: 0, is_join }
}

fn no_projects() -> BindingTuple<mir::Expression> {
    BindingTuple::new()
}

#[test]
fn scalar_functions_translate_to_their_operator_family() {
    assert_eq!(
        ScalarFunctionType::from(mir::ScalarFunction::Concat),
        ScalarFunctionType::Mql(air::MqlOperator::Concat)
    );
    assert_eq!(ScalarFunctionType::from(mir::ScalarFunction::Div), ScalarFunctionType::Divide);
    assert_eq!(
        ScalarFunctionType::from(mir::ScalarFunction::Lt),
        ScalarFunctionType::Sql(air::SqlOperator::Lt)
    );
    assert_eq!(
        ScalarFunctionType::from(mir::ScalarFunction::BTrim),
        ScalarFunctionType::Trim(air::TrimOperator::Trim)
    );
    assert_eq!(
        ScalarFunctionType::from(mir::ScalarFunction::Degrees),
        ScalarFunctionType::Mql(air::MqlOperator::RadiansToDegrees)
    );
    assert_eq!(
        ScalarFunctionType::from(mir::ScalarFunction::IsoWeekday),
        ScalarFunctionType::Mql(air::MqlOperator::IsoDayOfWeek)
    );
    assert_eq!(
        ScalarFunctionType::from(mir::ScalarFunction::Replace),
        ScalarFunctionType::Mql(air::MqlOperator::ReplaceAll)
    );
}

#[test]
fn nullability_picks_sql_or_mql_operators() {
    assert_eq!(
        scalar_function_to_scalar_function_type(true, mir::ScalarFunction::Eq),
        ScalarFunctionType::Sql(air::SqlOperator::Eq)
    );
    assert_eq!(
        scalar_function_to_scalar_function_type(false, mir::ScalarFunction::Eq),
        ScalarFunctionType::Mql(air::MqlOperator::Eq)
    );
    assert_eq!(
        scalar_function_to_scalar_function_type(false, mir::ScalarFunction::Position),
        ScalarFunctionType::Mql(air::MqlOperator::IndexOfCP)
    );
    assert_eq!(
        scalar_function_to_scalar_function_type(false, mir::ScalarFunction::Neg),
        ScalarFunctionType::Sql(air::SqlOperator::Neg)
    );
    assert_eq!(
        scalar_function_to_scalar_function_type(true, mir::ScalarFunction::Upper),
        ScalarFunctionType::from(mir::ScalarFunction::Upper)
    );
}

#[test]
fn types_and_dates_convert_one_to_one() {
    assert_eq!(air::Type::from(mir::Type::Int64), air::Type::Int64);
    assert_eq!(air::Type::from(mir::Type::JavascriptWithScope), air::Type::JavascriptWithScope);
    assert_eq!(air::TypeOrMissing::from(mir::TypeOrMissing::Missing), air::TypeOrMissing::Missing);
    assert_eq!(
        air::TypeOrMissing::from(mir::TypeOrMissing::Type(mir::Type::String)),
        air::TypeOrMissing::Type(air::Type::String)
    );
    assert_eq!(air::TypeOrMissing::from(mir::TypeOrMissing::Number), air::TypeOrMissing::Number);
    assert_eq!(air::DatePart::from(mir::DatePart::Quarter), air::DatePart::Quarter);
    assert_eq!(air::DateFunction::from(mir::DateFunction::Trunc), air::DateFunction::Trunc);
}

#[test]
fn literals_keep_their_variant_and_value() {
    let t = translator(vec![], false);
    assert_eq!(t.translate_literal_value(mir::LiteralValue::Null), air::LiteralValue::Null);
    assert_eq!(
        t.translate_literal_value(mir::LiteralValue::String("x".to_string())),
        air::LiteralValue::String("x".to_string())
    );
    assert_eq!(
        t.translate_literal_value(mir::LiteralValue::Double(2.5f64.to_bits())),
        air::LiteralValue::Double(2.5f64.to_bits())
    );
    let dt = bson::DateTime::from_millis(12345);
    assert_eq!(
        t.translate_literal_value(mir::LiteralValue::DateTime(dt)),
        air::LiteralValue::DateTime(dt)
    );
    let re = bson::Regex { pattern: "a.*".to_string(), options: "i".to_string() };
    assert_eq!(
        t.translate_literal_value(mir::LiteralValue::RegularExpression(re.clone())),
        air::LiteralValue::RegularExpression(re)
    );
}

#[test]
fn unique_names_get_leading_underscores() {
    let taken = vec!["foo".to_string(), "_foo".to_string(), "bar".to_string()];
    assert_eq!(MqlTranslator::generate_unique_datasource_name("foo".to_string(), &taken), "__foo");
    assert_eq!(MqlTranslator::generate_unique_datasource_name("baz".to_string(), &taken), "baz");
    assert_eq!(MqlTranslator::generate_unique_datasource_name("bar".to_string(), &taken), "_bar");
}

#[test]
fn datasource_names() {
    assert_eq!(MqlTranslator::get_datasource_name(&DatasourceName::Bottom, "__bot"), "__bot");
    assert_eq!(
        MqlTranslator::get_datasource_name(&DatasourceName::Named("foo".to_string()), "__bot"),
        "foo"
    );
}

#[test]
fn project_names_from_the_doc_comment() {
    // SELECT `$foo`.*, `_foo`.* FROM ...: `$foo` maps to `__foo`, since
    // `_foo` is in the project; `_foo` maps to `_foo`.
    let mut projects = BindingTuple::new();
    projects.insert(named("$foo", 0), mir::Expression::Reference(mir::ReferenceExpr { key: named("$foo", 0) }));
    projects.insert(named("_foo", 0), mir::Expression::Reference(mir::ReferenceExpr { key: named("_foo", 0) }));
    let mut t = translator(vec![], false);
    assert_eq!(
        t.get_mapped_project_name(&DatasourceName::Named("$foo".to_string()), "__bot", &projects),
        Ok("__foo".to_string())
    );
    assert_eq!(
        t.get_mapped_project_name(&DatasourceName::Named("_foo".to_string()), "__bot", &projects),
        Ok("_foo".to_string())
    );

    // SELECT * FROM `$foo` JOIN `_foo`: `$foo` maps to `_foo`; then `_foo`
    // maps to `__foo`, since the registry hands `_foo` out already.
    let mut t = translator(vec![], true);
    let first = t.get_mapped_project_name(&DatasourceName::Named("$foo".to_string()), "__bot", &no_projects());
    assert_eq!(first, Ok("_foo".to_string()));
    t.mapping_registry.insert(named("$foo", 0), value("_foo", MqlReferenceType::FieldRef));
    assert_eq!(
        t.get_mapped_project_name(&DatasourceName::Named("_foo".to_string()), "__bot", &no_projects()),
        Ok("__foo".to_string())
    );
}

#[test]
fn project_names_replace_dots_and_reject_empty_names() {
    let mut t = translator(vec![], false);
    assert_eq!(
        t.get_mapped_project_name(&DatasourceName::Named("a.b.c".to_string()), "__bot", &no_projects()),
        Ok("a_b_c".to_string())
    );
    assert_eq!(
        t.get_mapped_project_name(&DatasourceName::Bottom, "__bot", &no_projects()),
        Ok("__bot".to_string())
    );
    assert_eq!(
        t.get_mapped_project_name(&DatasourceName::Named("".to_string()), "__bot", &no_projects()),
        Err(Error::InvalidProjectField)
    );
    assert_eq!(
        t.get_mapped_project_name(&DatasourceName::Bottom, "", &no_projects()),
        Err(Error::InvalidProjectField)
    );
}

#[test]
fn ensure_unique_checks_projects_at_the_current_scope() {
    let mut projects = BindingTuple::new();
    projects.insert(named("x", 0), mir::Expression::Reference(mir::ReferenceExpr { key: named("x", 0) }));
    projects.insert(named("_x", 1), mir::Expression::Reference(mir::ReferenceExpr { key: named("_x", 1) }));
    let mut t = translator(vec![], false);
    assert_eq!(t.ensure_unique_datasource_name("x".to_string(), &projects), "_x");
    assert_eq!(t.ensure_unique_datasource_name("y".to_string(), &projects), "y");
}

#[test]
fn field_path_names() {
    let t = translator(vec![(named("foo", 0), value("foo_mapped", MqlReferenceType::FieldRef))], false);
    let fp = mir::FieldPath {
        key: named("foo", 0),
        fields: vec!["a".to_string(), "b".to_string()],
        is_nullable: false,
    };
    assert_eq!(t.get_field_path_name(fp), Ok("foo_mapped.a.b".to_string()));
    let missing = mir::FieldPath { key: named("bar", 0), fields: vec!["a".to_string()], is_nullable: false };
    assert_eq!(t.get_field_path_name(missing), Err(Error::ReferenceNotFound(named("bar", 0))));
}

#[test]
fn let_bindings_are_sanitized_lowercase_and_unique() {
    let mut input = MqlMappingRegistry::new();
    input.insert(named("Foo-Bar", 0), value("Foo-Bar", MqlReferenceType::FieldRef));
    input.insert(named("foo bar", 0), value("x", MqlReferenceType::Variable));
    input.insert(
        Key { datasource: DatasourceName::Bottom, scope: 12 },
        value("__bot", MqlReferenceType::FieldRef),
    );
    let mut t = translator(vec![(named("other", 3), value("other", MqlReferenceType::FieldRef))], false);
    let lets = t.generate_let_bindings(input);
    // Key order: the bottom datasource first, then names in byte order.
    let names: Vec<&str> = lets.iter().map(|l| l.name.as_str()).collect();
    assert_eq!(names, vec!["v__bot_12", "vfoo_bar_0", "vfoo_bar_0_"]);
    assert_eq!(
        *lets[0].expr,
        air::Expression::FieldRef(air::FieldRef { name: "__bot".to_string() })
    );
    assert_eq!(
        *lets[1].expr,
        air::Expression::FieldRef(air::FieldRef { name: "Foo-Bar".to_string() })
    );
    assert_eq!(*lets[2].expr, air::Expression::Variable(air::Variable { name: "x".to_string() }));
    // The registry now maps each datasource to its variable and keeps the rest.
    let reg = &t.mapping_registry;
    assert_eq!(reg.get(&named("Foo-Bar", 0)), Some(&value("vfoo_bar_0", MqlReferenceType::Variable)));
    assert_eq!(reg.get(&named("foo bar", 0)), Some(&value("vfoo_bar_0_", MqlReferenceType::Variable)));
    assert_eq!(
        reg.get(&Key { datasource: DatasourceName::Bottom, scope: 12 }),
        Some(&value("v__bot_12", MqlReferenceType::Variable))
    );
    assert_eq!(reg.get(&named("other", 3)), Some(&value("other", MqlReferenceType::FieldRef)));
    assert_eq!(reg.get_registry().len(), 4);
}

#[test]
fn let_binding_names_keep_non_ascii_characters() {
    let mut input = MqlMappingRegistry::new();
    input.insert(named("Ünï.x", 7), value("a", MqlReferenceType::FieldRef));
    let mut t = translator(vec![], false);
    let lets = t.generate_let_bindings(input);
    assert_eq!(lets[0].name, "vÜnï_x_7");
}
