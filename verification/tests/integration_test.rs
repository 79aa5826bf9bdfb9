//! Integration tests: selectors, query builders, metrics, localization and validation.

use moongraphql_builder::prelude::{
    ArgDef, ArgKind, ArgMeta, ArgPredicate, ArgValue, BuildableQuery, BuildableSelector, FieldDef,
    GqlInspectable, GqlValidatable, Locale, MetricValidator, MoongqlError, NoCustomRules,
    QueryBuilder, QuerySchema, Rule, Selector, SelectorSchema, VarValue,
};

fn poster_schema() -> SelectorSchema {
    SelectorSchema {
        default_fields: "originalUrl mainUrl",
        default_complexity: 5,
        fields: vec![
            FieldDef::scalar("id", 1),
            FieldDef::scalar("originalUrl", 1),
            FieldDef::scalar("mainUrl", 1),
        ],
    }
}

fn anime_schema() -> SelectorSchema {
    SelectorSchema {
        default_fields: "id name russian",
        default_complexity: 1,
        fields: vec![
            FieldDef::scalar("id", 1),
            FieldDef::scalar("name", 1),
            FieldDef::scalar("russian", 1),
            FieldDef::scalar("score", 1),
            FieldDef::object("poster", 5),
        ],
    }
}

fn poster() -> Selector {
    Selector::new(poster_schema())
}

fn anime() -> Selector {
    Selector::new(anime_schema())
}

fn arg(arg_name: &'static str, gql_name: &'static str, gql_type: &'static str, kind: ArgKind, rules: Vec<Rule>) -> ArgDef {
    ArgDef { arg_name, gql_name, gql_type, kind, rules }
}

fn animes_schema() -> QuerySchema {
    QuerySchema {
        root: "animes",
        selector: anime_schema(),
        args: vec![
            arg("page", "page", "PositiveInt", ArgKind::Scalar, vec![Rule::Required, Rule::Min(1)]),
            arg("limit", "limit", "PositiveInt", ArgKind::Scalar, vec![Rule::Range { lo: 1, hi: 50 }]),
            arg("score", "score", "Int", ArgKind::Scalar, vec![Rule::Max(10)]),
            arg("order", "order", "OrderEnum", ArgKind::Display, vec![]),
            arg("search", "search", "String", ArgKind::Str, vec![Rule::MinLen(2), Rule::MaxLen(100), Rule::Custom(0)]),
            arg("is_censored", "censored", "Boolean", ArgKind::Scalar, vec![]),
            arg("ids", "ids", "[ID!]", ArgKind::List, vec![Rule::MaxLen(5)]),
        ],
    }
}

/// Custom predicate 0: a text argument must not consist solely of whitespace.
struct NotBlank;

impl ArgPredicate for NotBlank {
    fn check(&self, rule: u32, value: &ArgValue, meta: &ArgMeta) -> Option<String> {
        match (rule, value) {
            (0, ArgValue::Text(t)) if t.trim().is_empty() => Some(format!(
                "Argument '{}' in query '{}' cannot consist solely of whitespace",
                meta.arg_name, meta.root_query
            )),
            _ => None,
        }
    }
}

fn animes() -> QueryBuilder<NotBlank> {
    QueryBuilder::new(animes_schema(), NotBlank)
}

fn num(v: i64) -> ArgValue {
    ArgValue::Int(v)
}

fn text(t: &str) -> ArgValue {
    ArgValue::Text(t.to_string())
}

fn list(items: &[&str]) -> ArgValue {
    ArgValue::List(items.iter().map(|s| s.to_string()).collect())
}

#[test]
fn it_test_selector_field_deduplication_and_sorting_ok() {
    let selector = anime().select("score").select("name").select("id").select("russian");
    assert_eq!(selector.build(), "id name russian score");
}

#[test]
fn it_test_selector_default_fields_when_empty_ok() {
    let selector = anime();
    assert_eq!(selector.build(), "id name russian");
    assert_eq!(selector.complexity(), 4);
    assert_eq!(selector.depth(), 1);
}

#[test]
fn it_test_selector_closure_variants_ok() {
    let custom_sel = anime().select_nested("poster", poster().select("id"));
    assert_eq!(custom_sel.build(), "poster { id }");

    let default_sel = anime().select_nested("poster", poster());
    assert_eq!(default_sel.build(), "poster { originalUrl mainUrl }");
}

#[test]
fn it_test_nested_complexity_and_depth_calculation_ok() {
    let selector = anime()
        .select("id")
        .select("name")
        .select_nested("poster", poster().select("originalUrl").select("mainUrl"));
    assert_eq!(selector.complexity(), 10);
    assert_eq!(selector.fields_complexity(), 9);
    assert_eq!(selector.depth(), 2);
}

#[test]
fn it_test_query_builder_inline_generation_ok() {
    let query = animes()
        .arg("page", num(1))
        .arg("search", text("Overlord"))
        .arg("limit", num(10))
        .arg("order", text("ranked"))
        .arg("is_censored", ArgValue::Bool(true))
        .select(anime().select("id").select("name").select("score"));

    let compiled = query._build_query();
    assert_eq!(
        compiled,
        "query { animes(page: 1, limit: 10, order: \"ranked\", search: \"Overlord\", censored: true) { id name score } }"
    );
    assert_eq!(query.complexity(), 4);
    assert_eq!(query.depth(), 1);
}

#[test]
fn it_test_query_builder_variables_and_json_generation_ok() {
    let query = animes()
        .arg("page", num(1))
        .arg("limit", num(5))
        .arg("search", text("Bakemonogatari"))
        .arg("ids", list(&["101", "102"]))
        .select(
            anime()
                .select("id")
                .select("name")
                .select_nested("poster", poster().select("originalUrl")),
        );

    let (query_body, decls, vars) = query._build_query_parts(true);
    let full_doc = format!("query ({}) {{ {} }}", decls.join(", "), query_body);

    assert_eq!(
        full_doc,
        "query ($animes_page: PositiveInt, $animes_limit: PositiveInt, $animes_search: String, $animes_ids: [ID!]) { animes(page: $animes_page, limit: $animes_limit, search: $animes_search, ids: $animes_ids) { id name poster { originalUrl } } }"
    );

    assert_eq!(vars.get("animes_page").unwrap(), &VarValue::Int(1));
    assert_eq!(vars.get("animes_limit").unwrap(), &VarValue::Int(5));
    assert_eq!(vars.get("animes_search").unwrap(), &VarValue::Str("Bakemonogatari".to_string()));
    assert_eq!(
        vars.get("animes_ids").unwrap(),
        &VarValue::StrList(vec!["101".to_string(), "102".to_string()])
    );
}

#[test]
fn it_test_metric_validator_within_limits_ok() {
    let query = animes().arg("page", num(1)).select(anime().select("id").select("name"));
    let validator = MetricValidator::new(190, 5);
    assert!(validator.validate(&query).is_ok());
}

#[test]
fn it_test_metric_validator_complexity_exceeded_err() {
    let query = animes().arg("page", num(1)).select(
        anime()
            .select("id")
            .select("name")
            .select_nested("poster", poster().select("originalUrl").select("mainUrl")),
    );
    let validator = MetricValidator::new(8, 5);
    let result = validator.validate(&query);
    assert_eq!(result, Err(MoongqlError::ComplexityExceeded { calculated: 10, limit: 8 }));
}

#[test]
fn it_test_metric_validator_depth_exceeded_err() {
    let query = animes()
        .arg("page", num(1))
        .select(anime().select_nested("poster", poster().select("originalUrl")));
    let validator = MetricValidator::new(190, 1);
    let result = validator.validate(&query);
    assert_eq!(result, Err(MoongqlError::DepthExceeded { calculated: 2, limit: 1 }));
}

#[test]
fn it_test_query_override_limits_ok() {
    let query = animes()
        .arg("page", num(1))
        .with_max_complexity(500)
        .with_max_depth(10)
        .select(
            anime()
                .select("id")
                .select("name")
                .select_nested("poster", poster().select("originalUrl")),
        );
    let validator = MetricValidator::new(5, 1);
    assert!(validator.validate(&query).is_ok());
}

#[test]
fn it_test_i18n_error_localization_ru_en_ok() {
    let err = MoongqlError::ComplexityExceeded { calculated: 250, limit: 190 };
    assert_eq!(
        err.to_string_in(Locale::Ru),
        "❌ Превышен лимит сложности GraphQL-запроса: рассчитано 250, максимально допустимо 190"
    );
    assert_eq!(
        err.to_string_in(Locale::En),
        "❌ GraphQL query complexity limit exceeded: calculated 250, max allowed 190"
    );
    assert_eq!(err.to_string(), err.to_string_in(Locale::Ru));
}

#[test]
fn it_test_argument_validation_success_ok() {
    let query = animes()
        .arg("page", num(1))
        .arg("limit", num(20))
        .arg("search", text("Bakemonogatari"))
        .arg("ids", list(&["1", "2", "3"]));
    assert_eq!(query.validate_args(), Ok(()));
    let validator = MetricValidator::new(190, 5);
    assert!(validator.validate(&query).is_ok());
}

#[test]
fn it_test_argument_validation_required_error() {
    let query = animes().arg("search", text("Bakemonogatari"));
    assert_eq!(
        query.validate_args(),
        Err(MoongqlError::ValidationError(
            "Обязательный аргумент 'page' не указан в запросе 'animes'".to_string()
        ))
    );
}

#[test]
fn it_test_argument_validation_min_error() {
    let query = animes().arg("page", num(0));
    assert_eq!(
        query.validate_args(),
        Err(MoongqlError::ValidationError(
            "Аргумент 'page' в запросе 'animes' должен быть не менее 1 (получено: 0)".to_string()
        ))
    );
}

#[test]
fn it_test_argument_validation_range_error() {
    let query = animes().arg("page", num(1)).arg("limit", num(100));
    assert_eq!(
        query.validate_args(),
        Err(MoongqlError::ValidationError(
            "Аргумент 'limit' в запросе 'animes' должен быть в диапазоне 1..=50 (получено: 100)".to_string()
        ))
    );
}

#[test]
fn it_test_argument_validation_min_len_error() {
    let query = animes().arg("page", num(1)).arg("search", text("A"));
    assert_eq!(
        query.validate_args(),
        Err(MoongqlError::ValidationError(
            "Длина аргумента 'search' в запросе 'animes' должна быть не менее 2 (получено: 1)".to_string()
        ))
    );
}

#[test]
fn it_test_argument_validation_list_max_len_error() {
    let query = animes().arg("page", num(1)).arg("ids", list(&["1", "2", "3", "4", "5", "6"]));
    assert_eq!(
        query.validate_args(),
        Err(MoongqlError::ValidationError(
            "Длина аргумента 'ids' в запросе 'animes' должна быть не более 5 (получено: 6)".to_string()
        ))
    );
}

#[test]
fn it_test_argument_validation_custom_function_error() {
    let query = animes().arg("page", num(1)).arg("search", text("    "));
    assert_eq!(
        query.validate_args(),
        Err(MoongqlError::ValidationError(
            "Argument 'search' in query 'animes' cannot consist solely of whitespace".to_string()
        ))
    );
}

#[test]
fn it_test_metric_validator_catches_invalid_args() {
    let query = animes().arg("page", num(1)).arg("limit", num(999));
    let validator = MetricValidator::new(190, 5);
    let result = validator.validate(&query);
    assert!(matches!(result, Err(MoongqlError::ValidationError(_))));
}

#[test]
fn it_test_argument_validation_max_error() {
    let query = animes().arg("page", num(1)).arg("score", num(15));
    assert_eq!(
        query.validate_args(),
        Err(MoongqlError::ValidationError(
            "Аргумент 'score' в запросе 'animes' должен быть не более 10 (получено: 15)".to_string()
        ))
    );
}

#[test]
fn arg_meta_new_keeps_names() {
    let meta = ArgMeta::new("search", "search", "animes");
    assert_eq!(meta.arg_name, "search");
    assert_eq!(meta.gql_arg_name, "search");
    assert_eq!(meta.root_query, "animes");
}

#[test]
fn no_custom_rules_accepts_everything() {
    let query = QueryBuilder::new(animes_schema(), NoCustomRules).arg("page", num(1)).arg("search", text("   "));
    assert_eq!(query.validate_args(), Ok(()));
}
