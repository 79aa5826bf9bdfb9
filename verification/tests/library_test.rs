//! Behaviour of composites, batches, variables, messages and the canonical selection on
//! concrete values.

use moongraphql_builder::prelude::{
    ArgDef, ArgKind, ArgValue, BatchDocumentBuilder, BuildableQuery, BuildableSelector,
    CompositeQuery, CompositeQueryDocument, FieldDef, GqlInspectable, GqlValidatable,
    IntoSelectorClosure, Locale, MetricValidator, MoongqlError, NoCustomRules, QueryBuilder,
    QuerySchema, Rule, Selector, SelectorSchema, VarValue, Variables, collect_results,
};
use moongraphql_builder::text::{split_words, u64_text};

fn title_schema() -> SelectorSchema {
    SelectorSchema {
        default_fields: "id name russian",
        default_complexity: 1,
        fields: vec![
            FieldDef::scalar("id", 1),
            FieldDef::scalar("name", 1),
            FieldDef::scalar("russian", 1),
            FieldDef::scalar("score", 2),
            FieldDef::object("poster", 5),
        ],
    }
}

fn poster_schema() -> SelectorSchema {
    SelectorSchema {
        default_fields: "originalUrl mainUrl",
        default_complexity: 5,
        fields: vec![FieldDef::scalar("id", 1), FieldDef::scalar("originalUrl", 1), FieldDef::scalar("mainUrl", 1)],
    }
}

fn titles() -> Selector {
    Selector::new(title_schema())
}

fn root_schema(root: &'static str) -> QuerySchema {
    QuerySchema {
        root,
        selector: title_schema(),
        args: vec![
            ArgDef { arg_name: "page", gql_name: "page", gql_type: "PositiveInt", kind: ArgKind::Scalar, rules: vec![Rule::Required, Rule::Min(1)] },
            ArgDef { arg_name: "order", gql_name: "order", gql_type: "OrderEnum", kind: ArgKind::Enum, rules: vec![] },
            ArgDef { arg_name: "search", gql_name: "search", gql_type: "String", kind: ArgKind::Str, rules: vec![Rule::MaxLen(4)] },
        ],
    }
}

fn animes() -> QueryBuilder<NoCustomRules> {
    QueryBuilder::new(root_schema("animes"), NoCustomRules)
}

fn mangas() -> QueryBuilder<NoCustomRules> {
    QueryBuilder::new(root_schema("mangas"), NoCustomRules)
}

fn template() -> CompositeQuery<NoCustomRules> {
    CompositeQuery::new(vec![("animes", animes()), ("mangas", mangas())])
}

fn pair(a: Option<QueryBuilder<NoCustomRules>>, m: Option<QueryBuilder<NoCustomRules>>) -> CompositeQuery<NoCustomRules> {
    fill(template(), a, m)
}

fn fill(
    mut doc: CompositeQuery<NoCustomRules>,
    a: Option<QueryBuilder<NoCustomRules>>,
    m: Option<QueryBuilder<NoCustomRules>>,
) -> CompositeQuery<NoCustomRules> {
    if let Some(q) = a {
        assert!(doc.set_subquery("animes", |_| q));
    }
    if let Some(q) = m {
        assert!(doc.set_subquery("mangas", |_| q));
    }
    doc
}

#[test]
fn selection_order_and_repeats_do_not_change_the_document() {
    let a = titles().select("score").select("id").select("score");
    let b = titles().select("id").select("score");
    assert_eq!(a.build(), "id score");
    assert_eq!(a.build(), b.build());
    assert_eq!(a.complexity(), b.complexity());
    assert_eq!(a.complexity(), 4);
}

#[test]
fn unknown_or_object_field_is_not_picked_as_scalar() {
    let s = titles().select("missing").select("poster");
    assert_eq!(s.build(), "id name russian");
    assert_eq!(s.fields_complexity(), 3);
    assert_eq!(s.field_default_complexity("poster"), 5);
    assert_eq!(s.field_default_complexity("missing"), 1);
}

#[test]
fn nested_selection_adds_child_cost_and_depth() {
    let s = titles().select_nested("poster", Selector::new(poster_schema()));
    assert_eq!(s.build(), "poster { originalUrl mainUrl }");
    assert_eq!(s.fields_complexity(), 7);
    assert_eq!(s.root_complexity(), 1);
    assert_eq!(s.depth(), 2);
}

#[test]
fn selection_closure_variants() {
    assert_eq!(().evaluate_selection(poster_schema()), ("originalUrl mainUrl".to_string(), 2, 1));
    assert_eq!(None::<Selector>.evaluate_selection(poster_schema()), ("originalUrl mainUrl".to_string(), 2, 1));
    let picked = Some(Selector::new(poster_schema()).select("id"));
    assert_eq!(picked.evaluate_selection(poster_schema()), ("id".to_string(), 1, 1));
}

#[test]
fn undeclared_or_mistyped_argument_leaves_query_unchanged() {
    let q = animes().arg("page", ArgValue::Int(2)).arg("nope", ArgValue::Int(3)).arg("page", ArgValue::Text("x".to_string()));
    assert_eq!(q._build_query(), "query { animes(page: 2) { id name russian } }");
}

#[test]
fn enum_argument_is_written_bare() {
    let q = animes().arg("page", ArgValue::Int(1)).arg("order", ArgValue::Text("ranked".to_string()));
    assert_eq!(q._build_query(), "query { animes(page: 1, order: ranked) { id name russian } }");
}

#[test]
fn negative_integer_is_written_with_sign() {
    let q = animes().arg("page", ArgValue::Int(-12));
    assert_eq!(q._build_query(), "query { animes(page: -12) { id name russian } }");
    assert_eq!(
        q.validate_args(),
        Err(MoongqlError::ValidationError(
            "Аргумент 'page' в запросе 'animes' должен быть не менее 1 (получено: -12)".to_string()
        ))
    );
}

#[test]
fn length_rule_counts_utf8_bytes() {
    let q = animes().arg("page", ArgValue::Int(1)).arg("search", ArgValue::Text("ёж".to_string()));
    assert_eq!(q.validate_args(), Ok(()));
    let q = q.arg("search", ArgValue::Text("ёжик".to_string()));
    assert_eq!(
        q.validate_args(),
        Err(MoongqlError::ValidationError(
            "Длина аргумента 'search' в запросе 'animes' должна быть не более 4 (получено: 8)".to_string()
        ))
    );
}

#[test]
fn english_validation_messages() {
    let q = animes().with_locale(Locale::En);
    assert_eq!(
        q.validate_args(),
        Err(MoongqlError::ValidationError("Required argument 'page' is missing in query 'animes'".to_string()))
    );
    let q = q.arg("page", ArgValue::Int(0));
    assert_eq!(
        q.validate_args(),
        Err(MoongqlError::ValidationError("Argument 'page' in query 'animes' must be at least 1 (got: 0)".to_string()))
    );
}

#[test]
fn error_messages_in_both_locales() {
    let depth = MoongqlError::DepthExceeded { calculated: 4, limit: 3 };
    assert_eq!(
        depth.to_string_in(Locale::Ru),
        "❌ Превышен лимит глубины вложенности GraphQL-запроса: рассчитано 4, максимально допустимо 3"
    );
    assert_eq!(
        depth.to_string_in(Locale::En),
        "❌ GraphQL query depth limit exceeded: calculated 4, max allowed 3"
    );
    let invalid = MoongqlError::ValidationError("bad".to_string());
    assert_eq!(invalid.to_string_in(Locale::En), "❌ GraphQL query argument validation failed: bad");
    let big = MoongqlError::ComplexityExceeded { calculated: 4294967295, limit: 0 };
    assert_eq!(
        big.to_string_in(Locale::En),
        "❌ GraphQL query complexity limit exceeded: calculated 4294967295, max allowed 0"
    );
}

#[test]
fn decimal_text_of_integers() {
    assert_eq!(u64_text(0), "0");
    assert_eq!(u64_text(907), "907");
    assert_eq!(u64_text(u64::MAX), "18446744073709551615");
}

#[test]
fn words_of_a_default_selection() {
    assert_eq!(split_words("  id  name\trussian "), vec!["id".to_string(), "name".to_string(), "russian".to_string()]);
    assert!(split_words("   ").is_empty());
}

#[test]
fn variables_insert_replaces_and_extend_overrides() {
    let mut v = Variables::new();
    assert!(v.is_empty());
    v.insert("a".to_string(), VarValue::Int(1));
    v.insert("b".to_string(), VarValue::Bool(true));
    v.insert("a".to_string(), VarValue::Int(2));
    assert_eq!(v.len(), 2);
    assert_eq!(v.get("a"), Some(&VarValue::Int(2)));
    assert_eq!(v.get("c"), None);
    let mut w = Variables::new();
    w.insert("b".to_string(), VarValue::Str("x".to_string()));
    w.insert("c".to_string(), VarValue::Raw("{\"k\":1}".to_string()));
    v.extend(&w);
    assert_eq!(v.len(), 3);
    assert_eq!(v.get("b"), Some(&VarValue::Str("x".to_string())));
    assert_eq!(v.get("c"), Some(&VarValue::Raw("{\"k\":1}".to_string())));
    assert_eq!(v.entries()[0].0, "a");
}

#[test]
fn composite_joins_roots_in_slot_order() {
    let doc = pair(
        Some(animes().arg("page", ArgValue::Int(1)).select(titles().select("id"))),
        Some(mangas().arg("page", ArgValue::Int(2))),
    );
    assert_eq!(doc.build_query(), "query { animes(page: 1) { id } mangas(page: 2) { id name russian } }");
    let (query, vars) = doc.build_payload_parts();
    assert_eq!(query, doc.build_query());
    assert!(vars.is_none());
}

#[test]
fn composite_with_variables_merges_declarations_and_values() {
    let mut doc = pair(Some(animes().arg("page", ArgValue::Int(1))), Some(mangas().arg("page", ArgValue::Int(2))));
    doc.use_variables(true);
    let (query, vars) = doc.build_payload_parts();
    assert_eq!(
        query,
        "query ($animes_page: PositiveInt, $mangas_page: PositiveInt) { animes(page: $animes_page) { id name russian } mangas(page: $mangas_page) { id name russian } }"
    );
    let vars = vars.unwrap();
    assert_eq!(vars.len(), 2);
    assert_eq!(vars.get("animes_page"), Some(&VarValue::Int(1)));
    assert_eq!(vars.get("mangas_page"), Some(&VarValue::Int(2)));
}

#[test]
fn composite_extra_variables_win() {
    let mut doc = pair(Some(animes().arg("page", ArgValue::Int(1))), None);
    doc.set_use_variables(true);
    let mut extra = Variables::new();
    extra.insert("animes_page".to_string(), VarValue::Int(7));
    doc.with_variables(extra);
    doc.with_operation_name("Catalog".to_string());
    assert_eq!(doc.operation_name(), Some("Catalog"));
    let (_, vars) = doc.build_payload_parts();
    assert_eq!(vars.unwrap().get("animes_page"), Some(&VarValue::Int(7)));
}

#[test]
fn composite_unknown_slot_is_refused() {
    let mut doc: CompositeQuery<NoCustomRules> = CompositeQuery::new(vec![("animes", animes())]);
    assert!(!doc.set_subquery("mangas", |q| q));
    assert!(doc.subquery("mangas").is_none());
    assert!(doc.subquery("animes").is_none());
    assert_eq!(doc.build_query(), "query {  }");
}

#[test]
fn composite_complexity_is_sum_and_depth_is_max() {
    let deep = titles().select_nested("poster", Selector::new(poster_schema()).select("id"));
    let doc = pair(Some(animes().arg("page", ArgValue::Int(1)).select(deep)), Some(mangas().arg("page", ArgValue::Int(1))));
    assert_eq!(doc.complexity(), 7 + 4);
    assert_eq!(doc.depth(), 2);
    let empty = pair(None, None);
    assert_eq!(empty.complexity(), 0);
    assert_eq!(empty.depth(), 1);
}

#[test]
fn composite_limits_prefer_own_override_then_largest_query_limit() {
    let mut doc = pair(Some(animes().with_max_depth(3)), Some(mangas().with_max_depth(9).with_max_complexity(50)));
    assert_eq!(doc.max_depth(), Some(9));
    assert_eq!(doc.max_complexity(), Some(50));
    doc.with_max_depth(1);
    assert_eq!(doc.max_depth(), Some(1));
    assert_eq!(pair(None, None).max_complexity(), None);
}

#[test]
fn composite_validation_reports_first_slot_failure() {
    let doc = pair(Some(animes().arg("page", ArgValue::Int(0))), Some(mangas()));
    assert_eq!(
        doc.validate_args(),
        Err(MoongqlError::ValidationError(
            "Аргумент 'page' в запросе 'animes' должен быть не менее 1 (получено: 0)".to_string()
        ))
    );
    let ok = pair(Some(animes().arg("page", ArgValue::Int(1))), None);
    assert_eq!(ok.validate_args(), Ok(()));
}

#[test]
fn metric_validator_checks_arguments_before_budgets() {
    let q = animes().select(titles().select_nested("poster", Selector::new(poster_schema())));
    let v = MetricValidator::new(1, 1);
    assert!(matches!(v.validate(&q), Err(MoongqlError::ValidationError(_))));
    let q = q.arg("page", ArgValue::Int(1));
    assert_eq!(v.validate(&q), Err(MoongqlError::ComplexityExceeded { calculated: 8, limit: 1 }));
    let v = MetricValidator::new(100, 1);
    assert_eq!(v.validate(&q), Err(MoongqlError::DepthExceeded { calculated: 2, limit: 1 }));
}

#[test]
fn batch_builds_payloads_in_order_and_propagates_variables() {
    let mut batch = BatchDocumentBuilder::new();
    assert!(batch.is_empty());
    assert_eq!(batch.complexity(), 0);
    assert_eq!(batch.depth(), 1);
    batch.query(template(), |d| fill(d, Some(animes().arg("page", ArgValue::Int(1))), None));
    batch.use_variables(true);
    batch.query(template(), |d| fill(d, None, Some(mangas().arg("page", ArgValue::Int(2)))));
    assert_eq!(batch.len(), 2);
    let payloads = batch.build_payloads();
    assert_eq!(payloads.len(), 2);
    assert_eq!(payloads[0].query, "query ($animes_page: PositiveInt) { animes(page: $animes_page) { id name russian } }");
    assert_eq!(payloads[0].variables.as_ref().unwrap().get("animes_page"), Some(&VarValue::Int(1)));
    assert!(payloads[0].operation_name.is_none());
    assert_eq!(payloads[1].query, "query ($mangas_page: PositiveInt) { mangas(page: $mangas_page) { id name russian } }");
    assert_eq!(payloads[1].variables.as_ref().unwrap().get("mangas_page"), Some(&VarValue::Int(2)));
}

#[test]
fn batch_budget_is_that_of_its_heaviest_document() {
    let mut batch = BatchDocumentBuilder::new();
    batch.query(template(), |d| fill(d, Some(animes()), Some(mangas())));
    batch.query(template(), |d| fill(d, Some(animes().select(titles().select_nested("poster", Selector::new(poster_schema())))), None));
    assert_eq!(batch.complexity(), 8);
    assert_eq!(batch.depth(), 2);
    assert_eq!(batch.max_complexity(), None);
    batch.with_max_complexity(5);
    assert_eq!(batch.max_complexity(), Some(5));
    let v = MetricValidator::new(100, 10);
    let mut ok = BatchDocumentBuilder::new();
    ok.query(template(), |d| fill(d, Some(animes().arg("page", ArgValue::Int(1))), None));
    ok.with_max_depth(1);
    assert_eq!(v.validate(&ok), Ok(()));
}

#[test]
fn batch_validation_reports_first_document_failure() {
    let mut batch = BatchDocumentBuilder::new();
    batch.query(template(), |d| fill(d, Some(animes().arg("page", ArgValue::Int(1))), None));
    batch.query(template(), |d| fill(d, None, Some(mangas())));
    batch.query(template(), |d| fill(d, Some(animes()), None));
    assert_eq!(
        batch.validate_args(),
        Err(MoongqlError::ValidationError("Обязательный аргумент 'page' не указан в запросе 'mangas'".to_string()))
    );
}

#[test]
fn results_are_collected_in_request_order() {
    let all: Vec<Result<u32, String>> = vec![Ok(1), Ok(2), Ok(3)];
    assert_eq!(collect_results(all), Ok(vec![1, 2, 3]));
    let mixed: Vec<Result<u32, String>> = vec![Ok(1), Err("first".to_string()), Err("second".to_string())];
    assert_eq!(collect_results(mixed), Err("first".to_string()));
    let none: Vec<Result<u32, String>> = vec![];
    assert_eq!(collect_results(none), Ok(vec![]));
}

#[test]
fn single_query_composite_equals_inline_query() {
    let q = animes().arg("page", ArgValue::Int(3)).select(titles().select("name"));
    let inline = q._build_query();
    let doc = pair(Some(q), None);
    assert_eq!(doc.build_query(), inline);
    assert!(doc.build_payload_parts().1.is_none());
}

#[test]
fn complexity_counts_root_fields_and_nested_objects() {
    let q = animes()
        .arg("page", ArgValue::Int(1))
        .with_max_complexity(250)
        .with_max_depth(5)
        .select(titles().select("id").select("name").select_nested("poster", Selector::new(poster_schema()).select("originalUrl")));
    assert_eq!(q.complexity(), 1 + 1 + 1 + 5 + 1);
    assert_eq!(q.depth(), 2);
    assert_eq!(q.max_complexity(), Some(250));
    assert_eq!(q.max_depth(), Some(5));
}

#[test]
fn batch_configuration_sees_and_may_override_the_preset() {
    let mut batch = BatchDocumentBuilder::new();
    batch.use_variables(true);
    batch.query(template(), |mut d| {
        d.set_use_variables(false);
        fill(d, Some(animes().arg("page", ArgValue::Int(1))), None)
    });
    let payloads = batch.build_payloads();
    assert_eq!(payloads[0].query, "query { animes(page: 1) { id name russian } }");
    assert!(payloads[0].variables.is_none());
}

#[test]
fn composite_configuration_accumulates_on_the_held_query() {
    let mut doc = template();
    assert!(doc.set_subquery("animes", |q| q.arg("page", ArgValue::Int(1))));
    assert!(doc.set_subquery("animes", |q| q.select(titles().select("id"))));
    assert!(doc.set_subquery("mangas", |q| q));
    assert_eq!(doc.build_query(), "query { animes(page: 1) { id } mangas { id name russian } }");
}

#[test]
fn batch_limit_is_the_largest_document_limit() {
    let mut batch = BatchDocumentBuilder::new();
    assert_eq!(batch.max_complexity(), None);
    batch.query(template(), |mut d| {
        d.with_max_complexity(100);
        d
    });
    batch.query(template(), |mut d| {
        d.with_max_complexity(300);
        d.with_max_depth(4);
        d
    });
    assert_eq!(batch.max_complexity(), Some(300));
    assert_eq!(batch.max_depth(), Some(4));
    batch.with_max_complexity(5);
    batch.with_max_complexity(7);
    assert_eq!(batch.max_complexity(), Some(7));
    assert_eq!(batch.len(), 2);
}

#[test]
fn batch_variables_switch_applies_to_held_documents() {
    let mut batch = BatchDocumentBuilder::new();
    batch.use_variables(true);
    batch.query(template(), |d| fill(d, Some(animes().arg("page", ArgValue::Int(1))), None));
    batch.use_variables(false);
    let payloads = batch.build_payloads();
    assert_eq!(payloads[0].query, "query { animes(page: 1) { id name russian } }");
    assert!(payloads[0].variables.is_none());
}

#[test]
fn batch_len_counts_query_calls() {
    let mut batch: BatchDocumentBuilder<NoCustomRules> = BatchDocumentBuilder::new();
    batch.with_max_depth(3);
    batch.query(template(), |d| d);
    batch.use_variables(true);
    batch.with_max_complexity(10);
    batch.query(template(), |d| d);
    let _ = batch.build_payloads();
    batch.query(template(), |d| d);
    assert_eq!(batch.len(), 3);
}
