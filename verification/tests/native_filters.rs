use bson::{Bson, Document};
use mongo_read_query::filter::{
    CompositeCondition, CompositeField, CompositeFilter, ConditionValue, Filter, PrismaValue,
    QueryMode, ScalarCondition, ScalarField, ScalarFilter, ScalarListCondition, ScalarListFilter,
    ScalarProjection,
};
use mongo_read_query::native::{
    can_flatten_native_and, native_false_filter, native_true_filter, try_filter_to_native_mql,
    try_to_native_filter, try_to_native_filter_with_prefix,
};

fn doc(fields: Vec<(&str, Bson)>) -> Document {
    let mut d = Document::new();
    for (k, v) in fields {
        d.insert(k, v);
    }
    d
}

fn sub(fields: Vec<(&str, Bson)>) -> Bson {
    Bson::Document(doc(fields))
}

fn same(actual: Option<Document>, expected: Document) {
    let actual = actual.expect("a native form");
    assert_eq!(actual, expected);
    assert_eq!(actual.to_string(), expected.to_string());
}

fn scalar(name: &str, condition: ScalarCondition) -> Filter {
    Filter::Scalar(ScalarFilter {
        projection: ScalarProjection::Single(ScalarField { db_name: name.to_string() }),
        condition,
        mode: QueryMode::Default,
    })
}

fn number(n: i64) -> ConditionValue {
    ConditionValue::Value(PrismaValue::Other { bson: Some(Bson::Int64(n)) })
}

fn eq(name: &str, n: i64) -> Filter {
    scalar(name, ScalarCondition::Equals(number(n)))
}

fn ne(name: &str, n: i64) -> Filter {
    scalar(name, ScalarCondition::NotEquals(number(n)))
}

fn composite(name: &str, condition: CompositeCondition) -> Filter {
    Filter::Composite(CompositeFilter {
        field: CompositeField { db_name: name.to_string() },
        condition: Box::new(condition),
    })
}

fn e(name: &str, n: i64) -> Bson {
    sub(vec![(name, Bson::Int64(n))])
}

#[test]
fn constant_filters() {
    assert_eq!(native_true_filter(), Document::new());
    assert_eq!(
        native_false_filter(),
        doc(vec![("$nor", Bson::Array(vec![Bson::Document(Document::new())]))])
    );
}

#[test]
fn conjunctions_on_different_fields_are_merged() {
    same(
        try_to_native_filter(&Filter::And(vec![eq("b", 1), eq("a", 2), eq("c", 3)])),
        doc(vec![("b", Bson::Int64(1)), ("a", Bson::Int64(2)), ("c", Bson::Int64(3))]),
    );
}

#[test]
fn conjunctions_on_the_same_field_are_not_merged() {
    let gt = scalar("a", ScalarCondition::GreaterThan(number(1)));
    let lt = scalar("a", ScalarCondition::LessThan(number(9)));
    same(
        try_to_native_filter(&Filter::And(vec![gt, lt])),
        doc(vec![(
            "$and",
            Bson::Array(vec![
                sub(vec![("a", sub(vec![("$gt", Bson::Int64(1))]))]),
                sub(vec![("a", sub(vec![("$lt", Bson::Int64(9))]))]),
            ]),
        )]),
    );
}

#[test]
fn conjunctions_with_operators_are_not_merged() {
    let guarded = try_to_native_filter(&ne("a", 1)).unwrap();
    same(
        try_to_native_filter(&Filter::And(vec![ne("a", 1), eq("b", 2)])),
        doc(vec![("$and", Bson::Array(vec![Bson::Document(guarded), e("b", 2)]))]),
    );
}

#[test]
fn conjunctions_leave_out_what_always_holds() {
    same(try_to_native_filter(&Filter::And(vec![])), Document::new());
    same(
        try_to_native_filter(&Filter::And(vec![Filter::Empty, Filter::And(vec![])])),
        Document::new(),
    );
    same(
        try_to_native_filter(&Filter::And(vec![Filter::Empty, eq("a", 1), Filter::Empty])),
        doc(vec![("a", Bson::Int64(1))]),
    );
    same(
        try_to_native_filter(&Filter::And(vec![eq("a", 1), Filter::Empty, eq("b", 2)])),
        doc(vec![("a", Bson::Int64(1)), ("b", Bson::Int64(2))]),
    );
}

#[test]
fn disjunctions() {
    same(try_to_native_filter(&Filter::Or(vec![])), native_false_filter());
    same(
        try_to_native_filter(&Filter::Or(vec![eq("a", 1), Filter::Empty])),
        Document::new(),
    );
    same(try_to_native_filter(&Filter::Or(vec![eq("a", 1)])), doc(vec![("a", Bson::Int64(1))]));
    same(
        try_to_native_filter(&Filter::Or(vec![eq("a", 1), eq("b", 2)])),
        doc(vec![("$or", Bson::Array(vec![e("a", 1), e("b", 2)]))]),
    );
}

#[test]
fn negations() {
    same(try_to_native_filter(&Filter::Not(vec![])), Document::new());
    same(
        try_to_native_filter(&Filter::Not(vec![eq("a", 1)])),
        doc(vec![("$nor", Bson::Array(vec![e("a", 1)]))]),
    );
    same(
        try_to_native_filter(&Filter::Not(vec![eq("a", 1), Filter::Empty])),
        doc(vec![(
            "$nor",
            Bson::Array(vec![e("a", 1), Bson::Document(Document::new())]),
        )]),
    );
}

#[test]
fn embedded_documents() {
    same(
        try_to_native_filter(&composite("address", CompositeCondition::Is(eq("zip", 7)))),
        doc(vec![("address.zip", Bson::Int64(7))]),
    );
    same(
        try_to_native_filter(&composite("address", CompositeCondition::IsNot(eq("zip", 7)))),
        doc(vec![("$nor", Bson::Array(vec![e("address.zip", 7)]))]),
    );
    same(
        try_to_native_filter(&composite("address", CompositeCondition::IsSet(false))),
        doc(vec![("address", sub(vec![("$exists", Bson::Boolean(false))]))]),
    );
    assert_eq!(try_to_native_filter(&composite("a", CompositeCondition::Other(1))), None);
}

#[test]
fn embedded_documents_nest() {
    let inner = composite("geo", CompositeCondition::Is(Filter::And(vec![eq("x", 1), eq("y", 2)])));
    same(
        try_to_native_filter(&composite("address", CompositeCondition::Is(inner))),
        doc(vec![("address.geo.x", Bson::Int64(1)), ("address.geo.y", Bson::Int64(2))]),
    );
    same(
        try_to_native_filter_with_prefix(&eq("x", 1), Some("p")),
        doc(vec![("p.x", Bson::Int64(1))]),
    );
    same(
        try_to_native_filter_with_prefix(
            &composite("c", CompositeCondition::IsSet(true)),
            Some("p"),
        ),
        doc(vec![("p.c", sub(vec![("$exists", Bson::Boolean(true))]))]),
    );
}

#[test]
fn list_filters_take_part() {
    let tags = Filter::ScalarList(ScalarListFilter {
        field: ScalarField { db_name: "tags".to_string() },
        condition: ScalarListCondition::IsEmpty(true),
    });
    same(
        try_to_native_filter(&Filter::And(vec![tags, eq("a", 1)])),
        doc(vec![("tags", sub(vec![("$size", Bson::Int32(0))])), ("a", Bson::Int64(1))]),
    );
}

#[test]
fn one_part_without_a_native_form_is_enough() {
    assert_eq!(try_to_native_filter(&Filter::Other(1)), None);
    assert_eq!(try_to_native_filter(&Filter::And(vec![eq("a", 1), Filter::Other(1)])), None);
    assert_eq!(try_to_native_filter(&Filter::Or(vec![Filter::Empty, Filter::Other(1)])), None);
    assert_eq!(try_to_native_filter(&Filter::Not(vec![Filter::Other(1)])), None);
    let nested = composite("c", CompositeCondition::Is(Filter::Other(1)));
    assert_eq!(try_to_native_filter(&nested), None);
    let nested = composite("c", CompositeCondition::IsNot(Filter::Other(1)));
    assert_eq!(try_to_native_filter(&nested), None);
}

#[test]
fn merging_is_for_distinct_fields() {
    let a = || doc(vec![("a", Bson::Int64(1))]);
    let ab = || doc(vec![("a", Bson::Int64(1)), ("b", Bson::Int64(2))]);
    let c = || doc(vec![("c", Bson::Int64(3))]);
    let op = || doc(vec![("$or", Bson::Array(vec![]))]);
    let no_name = || doc(vec![("", Bson::Null)]);
    assert!(can_flatten_native_and(&vec![]));
    assert!(can_flatten_native_and(&vec![ab(), c(), Document::new(), no_name()]));
    assert!(!can_flatten_native_and(&vec![ab(), c(), a()]));
    assert!(!can_flatten_native_and(&vec![op()]));
    assert!(!can_flatten_native_and(&vec![c(), op()]));
}

#[test]
fn write_queries_share_the_translation() {
    for f in [
        Filter::Or(vec![eq("a", 1), ne("b", 2)]),
        Filter::And(vec![Filter::Empty]),
        Filter::Other(4),
    ] {
        assert_eq!(try_filter_to_native_mql(&f), try_to_native_filter(&f));
    }
}

/// A small reading of native filters on a document of integers.
fn holds(d: &[(&str, i64)], filter: &Document) -> bool {
    filter.iter().all(|(k, v)| match (k.as_str(), v) {
        ("$and", Bson::Array(fs)) => fs.iter().all(|f| holds(d, f.as_document().unwrap())),
        ("$or", Bson::Array(fs)) => fs.iter().any(|f| holds(d, f.as_document().unwrap())),
        ("$nor", Bson::Array(fs)) => !fs.iter().any(|f| holds(d, f.as_document().unwrap())),
        (name, test) => {
            let found = d.iter().find(|(n, _)| *n == name).map(|(_, v)| Bson::Int64(*v));
            match test {
                Bson::Document(t) => t.iter().all(|(op, x)| match op.as_str() {
                    "$exists" => found.is_some() == x.as_bool().unwrap(),
                    "$ne" => found.as_ref() != Some(x),
                    _ => panic!("unexpected operator"),
                }),
                _ => found.as_ref() == Some(test),
            }
        }
    })
}

fn native_holds(d: &[(&str, i64)], filter: Filter) -> bool {
    holds(d, &try_to_native_filter(&filter).unwrap())
}

#[test]
fn combinations_keep_their_meaning() {
    let d = [("a", 1), ("b", 2)];
    assert!(native_holds(&d, Filter::And(vec![eq("a", 1), Filter::Empty, eq("b", 2)])));
    assert!(!native_holds(&d, Filter::And(vec![eq("a", 1), eq("b", 3)])));
    assert!(!native_holds(&d, Filter::And(vec![ne("a", 1), ne("b", 3)])));
    assert!(native_holds(&d, Filter::And(vec![ne("a", 2), ne("b", 3)])));
    assert!(native_holds(&d, Filter::Or(vec![eq("a", 5), eq("b", 2)])));
    assert!(!native_holds(&d, Filter::Or(vec![eq("a", 5), eq("b", 5)])));
    assert!(!native_holds(&d, Filter::Or(vec![])));
    assert!(native_holds(&d, Filter::And(vec![])));
    assert!(native_holds(&d, Filter::Not(vec![])));
    assert!(!native_holds(&d, Filter::Not(vec![eq("a", 5), eq("b", 2)])));
    assert!(native_holds(&d, Filter::Not(vec![eq("a", 5), eq("b", 5)])));
}

#[test]
fn missing_fields_are_excluded() {
    let d = [("a", 1)];
    assert!(!native_holds(&d, ne("b", 7)));
    assert!(native_holds(&d, ne("a", 7)));
    let null_operand = ConditionValue::Value(PrismaValue::Null { bson: Some(Bson::Null) });
    assert!(!native_holds(&d, scalar("b", ScalarCondition::Equals(null_operand))));
}
