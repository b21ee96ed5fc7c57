use bson::oid::ObjectId;
use bson::{Bson, Document};
use mongo_read_query::condition::{
    join_field_path, regex_filter_doc, try_scalar_list_to_native, try_scalar_to_native,
};
use mongo_read_query::filter::{
    ConditionListValue, ConditionValue, PrismaValue, QueryMode, ScalarCondition, ScalarField,
    ScalarFilter, ScalarListCondition, ScalarListFilter, ScalarProjection,
};

fn doc(fields: Vec<(&str, Bson)>) -> Document {
    let mut d = Document::new();
    for (k, v) in fields {
        d.insert(k, v);
    }
    d
}

fn sub(fields: Vec<(&str, Bson)>) -> Bson {
    Bson::Document(doc(fields))
}

fn text(s: &str) -> Bson {
    Bson::String(s.to_string())
}

/// Equal, with the fields in the same order.
fn same(actual: Option<Document>, expected: Document) {
    let actual = actual.expect("a native form");
    assert_eq!(actual, expected);
    assert_eq!(actual.to_string(), expected.to_string());
}

fn guarded(name: &str, value: Bson) -> Document {
    doc(vec![(
        "$and",
        Bson::Array(vec![
            sub(vec![(name, sub(vec![("$exists", Bson::Boolean(true))]))]),
            sub(vec![(name, value)]),
        ]),
    )])
}

fn field(name: &str) -> ScalarField {
    ScalarField { db_name: name.to_string() }
}

fn string(s: &str) -> PrismaValue {
    PrismaValue::Text { text: s.to_string(), bson: Some(text(s)) }
}

fn number(n: i64) -> PrismaValue {
    PrismaValue::Other { bson: Some(Bson::Int64(n)) }
}

fn null_operand() -> PrismaValue {
    PrismaValue::Null { bson: Some(Bson::Null) }
}

fn unencodable() -> PrismaValue {
    PrismaValue::Other { bson: None }
}

fn value(v: PrismaValue) -> ConditionValue {
    ConditionValue::Value(v)
}

fn filter(condition: ScalarCondition, mode: QueryMode) -> ScalarFilter {
    ScalarFilter { projection: ScalarProjection::Single(field("a")), condition, mode }
}

fn native(condition: ScalarCondition) -> Option<Document> {
    try_scalar_to_native(&filter(condition, QueryMode::Default), None)
}

fn insensitive(condition: ScalarCondition) -> Option<Document> {
    try_scalar_to_native(&filter(condition, QueryMode::Insensitive), None)
}

fn list(condition: ScalarListCondition) -> Option<Document> {
    try_scalar_list_to_native(&ScalarListFilter { field: field("tags"), condition }, None)
}

#[test]
fn paths_are_joined_by_dots() {
    assert_eq!(join_field_path(None, "street"), "street");
    assert_eq!(join_field_path(Some(""), "street"), "street");
    assert_eq!(join_field_path(Some("address"), "street"), "address.street");
    assert_eq!(join_field_path(Some("a.b"), "c"), "a.b.c");
}

#[test]
fn nested_paths_agree() {
    let outer = join_field_path(Some("p"), "a");
    assert_eq!(join_field_path(Some(&outer), "b"), join_field_path(Some("p"), "a.b"));
}

#[test]
fn regex_filters() {
    same(Some(regex_filter_doc("^x".to_string(), false)), doc(vec![("$regex", text("^x"))]));
    same(
        Some(regex_filter_doc("^x".to_string(), true)),
        doc(vec![("$regex", text("^x")), ("$options", text("i"))]),
    );
}

#[test]
fn equality() {
    same(native(ScalarCondition::Equals(value(number(7)))), doc(vec![("a", Bson::Int64(7))]));
    let id = Bson::ObjectId(ObjectId::from_bytes([1, 2, 3, 4, 5, 6, 7, 8, 9, 10, 11, 12]));
    let operand = PrismaValue::Other { bson: Some(id.clone()) };
    same(native(ScalarCondition::Equals(value(operand))), doc(vec![("a", id)]));
    let pi = PrismaValue::Other { bson: Some(Bson::Double(3.25)) };
    same(native(ScalarCondition::Equals(value(pi))), doc(vec![("a", Bson::Double(3.25))]));
}

#[test]
fn equality_with_null_asks_for_the_field() {
    let expected = guarded("a", Bson::Null);
    same(native(ScalarCondition::Equals(value(null_operand()))), expected.clone());
    same(insensitive(ScalarCondition::Equals(value(null_operand()))), expected);
}

#[test]
fn insensitive_equality_is_an_anchored_pattern() {
    same(
        insensitive(ScalarCondition::Equals(value(string("1+1=2?")))),
        doc(vec![("a", sub(vec![("$regex", text("^1\\+1=2\\?$")), ("$options", text("i"))]))]),
    );
    assert_eq!(insensitive(ScalarCondition::Equals(value(number(1)))), None);
}

#[test]
fn inequality_asks_for_the_field() {
    same(
        native(ScalarCondition::NotEquals(value(number(7)))),
        guarded("a", sub(vec![("$ne", Bson::Int64(7))])),
    );
    same(
        native(ScalarCondition::NotEquals(value(null_operand()))),
        guarded("a", sub(vec![("$ne", Bson::Null)])),
    );
    same(
        insensitive(ScalarCondition::NotEquals(value(string("x")))),
        guarded(
            "a",
            sub(vec![("$not", sub(vec![("$regex", text("^x$")), ("$options", text("i"))]))]),
        ),
    );
    assert_eq!(insensitive(ScalarCondition::NotEquals(value(number(1)))), None);
}

#[test]
fn comparisons() {
    let expected = |op: &str| doc(vec![("a", sub(vec![(op, Bson::Int64(5))]))]);
    same(native(ScalarCondition::LessThan(value(number(5)))), expected("$lt"));
    same(native(ScalarCondition::LessThanOrEquals(value(number(5)))), expected("$lte"));
    same(native(ScalarCondition::GreaterThan(value(number(5)))), expected("$gt"));
    same(native(ScalarCondition::GreaterThanOrEquals(value(number(5)))), expected("$gte"));
    same(
        native(ScalarCondition::LessThan(value(null_operand()))),
        doc(vec![("a", sub(vec![("$lt", Bson::Null)]))]),
    );
}

#[test]
fn comparisons_regard_case() {
    assert_eq!(insensitive(ScalarCondition::LessThan(value(string("x")))), None);
    assert_eq!(insensitive(ScalarCondition::LessThanOrEquals(value(string("x")))), None);
    assert_eq!(insensitive(ScalarCondition::GreaterThan(value(string("x")))), None);
    assert_eq!(insensitive(ScalarCondition::GreaterThanOrEquals(value(string("x")))), None);
    let xs = || ConditionListValue::List(vec![string("x")]);
    assert_eq!(insensitive(ScalarCondition::In(xs())), None);
    assert_eq!(insensitive(ScalarCondition::NotIn(xs())), None);
}

#[test]
fn membership() {
    let both = || ConditionListValue::List(vec![number(1), string("x")]);
    let encoded = Bson::Array(vec![Bson::Int64(1), text("x")]);
    same(
        native(ScalarCondition::In(both())),
        doc(vec![("a", sub(vec![("$in", encoded.clone())]))]),
    );
    same(native(ScalarCondition::NotIn(both())), guarded("a", sub(vec![("$nin", encoded)])));
    same(
        native(ScalarCondition::In(ConditionListValue::List(vec![]))),
        doc(vec![("a", sub(vec![("$in", Bson::Array(vec![]))]))]),
    );
}

#[test]
fn membership_with_null_has_no_native_form() {
    let with_null = || ConditionListValue::List(vec![number(1), null_operand()]);
    assert_eq!(native(ScalarCondition::In(with_null())), None);
    assert_eq!(native(ScalarCondition::NotIn(with_null())), None);
}

#[test]
fn string_operations() {
    let expected = |p: &str| doc(vec![("a", sub(vec![("$regex", text(p))]))]);
    same(native(ScalarCondition::StartsWith(value(string("x.y")))), expected("^x\\.y"));
    same(native(ScalarCondition::EndsWith(value(string("x.y")))), expected("x\\.y$"));
    same(native(ScalarCondition::Contains(value(string("x.y")))), expected("x\\.y"));
    same(
        insensitive(ScalarCondition::Contains(value(string("x")))),
        doc(vec![("a", sub(vec![("$regex", text("x")), ("$options", text("i"))]))]),
    );
}

#[test]
fn meta_characters_are_escaped() {
    let all = "\\.+*?()|[]{}^$#&-~";
    let escaped = "\\\\\\.\\+\\*\\?\\(\\)\\|\\[\\]\\{\\}\\^\\$\\#\\&\\-\\~";
    same(
        native(ScalarCondition::Contains(value(string(all)))),
        doc(vec![("a", sub(vec![("$regex", text(escaped))]))]),
    );
    same(
        native(ScalarCondition::Contains(value(string("a b%/!\u{e4}")))),
        doc(vec![("a", sub(vec![("$regex", text("a b%/!\u{e4}"))]))]),
    );
}

#[test]
fn negated_string_operations_ask_for_the_field() {
    let expected =
        |p: &str| guarded("a", sub(vec![("$not", sub(vec![("$regex", text(p))]))]));
    same(native(ScalarCondition::NotStartsWith(value(string("x")))), expected("^x"));
    same(native(ScalarCondition::NotEndsWith(value(string("x")))), expected("x$"));
    same(native(ScalarCondition::NotContains(value(string("x")))), expected("x"));
}

#[test]
fn string_operations_need_a_string() {
    assert_eq!(native(ScalarCondition::StartsWith(value(number(1)))), None);
    assert_eq!(native(ScalarCondition::EndsWith(value(null_operand()))), None);
    assert_eq!(native(ScalarCondition::Contains(value(number(1)))), None);
    assert_eq!(native(ScalarCondition::NotStartsWith(value(number(1)))), None);
    assert_eq!(native(ScalarCondition::NotEndsWith(value(number(1)))), None);
    assert_eq!(native(ScalarCondition::NotContains(value(number(1)))), None);
}

#[test]
fn presence() {
    same(
        native(ScalarCondition::IsSet(true)),
        doc(vec![("a", sub(vec![("$exists", Bson::Boolean(true))]))]),
    );
    same(
        insensitive(ScalarCondition::IsSet(false)),
        doc(vec![("a", sub(vec![("$exists", Bson::Boolean(false))]))]),
    );
}

#[test]
fn conditions_without_a_native_form() {
    assert_eq!(native(ScalarCondition::Equals(ConditionValue::FieldRef(field("b")))), None);
    assert_eq!(native(ScalarCondition::In(ConditionListValue::FieldRef(field("b")))), None);
    assert_eq!(native(ScalarCondition::Other(3)), None);
    assert_eq!(native(ScalarCondition::Equals(value(unencodable()))), None);
    assert_eq!(native(ScalarCondition::NotEquals(value(unencodable()))), None);
    assert_eq!(native(ScalarCondition::LessThan(value(unencodable()))), None);
    let some = ConditionListValue::List(vec![number(1), unencodable()]);
    assert_eq!(native(ScalarCondition::In(some)), None);
    let compound = ScalarFilter {
        projection: ScalarProjection::Compound(vec![field("a"), field("b")]),
        condition: ScalarCondition::IsSet(true),
        mode: QueryMode::Default,
    };
    assert_eq!(try_scalar_to_native(&compound, None), None);
    let unknown = filter(ScalarCondition::IsSet(true), QueryMode::Other(1));
    assert_eq!(try_scalar_to_native(&unknown, None), None);
}

#[test]
fn prefix_is_part_of_the_path() {
    let f = filter(ScalarCondition::NotEquals(value(number(1))), QueryMode::Default);
    same(
        try_scalar_to_native(&f, Some("outer")),
        guarded("outer.a", sub(vec![("$ne", Bson::Int64(1))])),
    );
}

#[test]
fn lists() {
    same(list(ScalarListCondition::Contains(value(number(1)))), doc(vec![("tags", Bson::Int64(1))]));
    let both = || ConditionListValue::List(vec![number(1), number(2)]);
    let encoded = Bson::Array(vec![Bson::Int64(1), Bson::Int64(2)]);
    same(
        list(ScalarListCondition::ContainsSome(both())),
        doc(vec![("tags", sub(vec![("$in", encoded.clone())]))]),
    );
    same(
        list(ScalarListCondition::ContainsEvery(both())),
        doc(vec![("tags", sub(vec![("$all", encoded)]))]),
    );
    same(
        list(ScalarListCondition::IsEmpty(true)),
        doc(vec![("tags", sub(vec![("$size", Bson::Int32(0))]))]),
    );
    same(
        list(ScalarListCondition::IsEmpty(false)),
        doc(vec![("tags.0", sub(vec![("$exists", Bson::Boolean(true))]))]),
    );
    let prefixed = ScalarListFilter {
        field: field("tags"),
        condition: ScalarListCondition::IsEmpty(false),
    };
    same(
        try_scalar_list_to_native(&prefixed, Some("o")),
        doc(vec![("o.tags.0", sub(vec![("$exists", Bson::Boolean(true))]))]),
    );
}

#[test]
fn lists_without_a_native_form() {
    let none = || ConditionListValue::List(vec![]);
    assert_eq!(list(ScalarListCondition::ContainsSome(none())), None);
    assert_eq!(list(ScalarListCondition::ContainsEvery(none())), None);
    let other = || ConditionListValue::FieldRef(field("b"));
    assert_eq!(list(ScalarListCondition::ContainsSome(other())), None);
    assert_eq!(list(ScalarListCondition::ContainsEvery(other())), None);
    assert_eq!(list(ScalarListCondition::Contains(ConditionValue::FieldRef(field("b")))), None);
    assert_eq!(list(ScalarListCondition::Contains(value(unencodable()))), None);
}

#[test]
fn operands() {
    assert_eq!(string("x").as_string(), Some("x"));
    assert_eq!(number(1).as_string(), None);
    assert_eq!(null_operand().as_string(), None);
    assert_eq!(number(1).to_bson(), Some(Bson::Int64(1)));
    assert_eq!(null_operand().to_bson(), Some(Bson::Null));
    assert_eq!(string("x").to_bson(), Some(text("x")));
    assert_eq!(unencodable().to_bson(), None);
}
