use bson::{Bson, Document};
use mongo_read_query::arguments::{Cursor, Model, OrderBy, QueryArguments, Take};
use mongo_read_query::filter::{
    ConditionValue, Filter, PrismaValue, QueryMode, ScalarCondition, ScalarField, ScalarFilter,
    ScalarProjection,
};
use mongo_read_query::query::{
    AggregationSelection, CursorBuilder, CursorData, FieldSelection, JoinStage, MongoFilter,
    MongoReadQueryBuilder, OrderByBuilder, OrderData, ReadQuery, RelationField, VirtualSelection,
    UNDERSCORE_ID,
};

fn doc(fields: Vec<(&str, Bson)>) -> Document {
    let mut d = Document::new();
    for (k, v) in fields {
        d.insert(k, v);
    }
    d
}

fn sub(fields: Vec<(&str, Bson)>) -> Bson {
    Bson::Document(doc(fields))
}

fn text(s: &str) -> Bson {
    Bson::String(s.to_string())
}

/// A document that stands for something.
fn mark(name: &str) -> Document {
    doc(vec![("mark", text(name))])
}

fn match_expr(name: &str) -> Document {
    doc(vec![("$match", sub(vec![("$expr", Bson::Document(mark(name)))]))])
}

fn stage(key: &str, name: &str) -> Document {
    doc(vec![(key, Bson::Document(mark(name)))])
}

fn same(actual: &[Document], expected: &[Document]) {
    assert_eq!(actual, expected);
    for (a, e) in actual.iter().zip(expected) {
        assert_eq!(a.to_string(), e.to_string());
    }
}

fn model() -> Model {
    Model { db_name: "posts".to_string() }
}

fn builder() -> MongoReadQueryBuilder {
    MongoReadQueryBuilder::new(model())
}

fn join(n: u64) -> JoinStage {
    JoinStage { source: RelationField(n), alias: None, nested: vec![], filter: None }
}

/// Renders joins by their number. Odd ones are unwound.
fn build_join(j: &JoinStage) -> (Document, Option<Document>) {
    let n = j.source.0;
    let unwind = if n % 2 == 1 { Some(mark(&format!("unwind {n}"))) } else { None };
    (mark(&format!("lookup {n}")), unwind)
}

fn no_order(_: OrderByBuilder, _: bool) -> OrderData {
    OrderData { order: None, aggregate_projections: vec![], joins: vec![] }
}

fn no_cursor(_: CursorBuilder) -> Result<CursorData, String> {
    Err("no cursor".to_string())
}

fn stages(b: MongoReadQueryBuilder) -> Vec<Document> {
    b.build(no_order, no_cursor, &build_join).unwrap().stages
}

fn arguments() -> QueryArguments {
    QueryArguments {
        model: model(),
        cursor: None,
        take: Take::All,
        skip: None,
        filter: None,
        order_by: vec![],
        ignore_skip: false,
        ignore_take: false,
    }
}

fn native_filter() -> Filter {
    Filter::Scalar(ScalarFilter {
        projection: ScalarProjection::Single(ScalarField { db_name: "a".to_string() }),
        condition: ScalarCondition::Equals(ConditionValue::Value(PrismaValue::Other {
            bson: Some(Bson::Int64(1)),
        })),
        mode: QueryMode::Default,
    })
}

fn unvisited(_: &Filter) -> Result<MongoFilter, String> {
    panic!("the filter has a native form")
}

/// A query with every kind of stage.
fn full() -> MongoReadQueryBuilder {
    let mut b = builder();
    b.query = Some(mark("query"));
    b.joins = vec![join(1), join(2)];
    b.order_joins = vec![join(3)];
    b.order_aggregate_projections = vec![mark("computed")];
    b.join_filters = vec![mark("joined 1"), mark("joined 2")];
    b.aggregations = vec![mark("aggregation")];
    b.aggregation_filters = vec![mark("having")];
    b.order = Some(mark("order"));
    b.skip = Some(4);
    b.limit = Some(9);
    b.projection = Some(mark("projection"));
    b
}

fn source() -> Vec<Document> {
    vec![
        match_expr("query"),
        mark("lookup 1"),
        mark("lookup 2"),
        mark("lookup 3"),
        mark("computed"),
        match_expr("joined 1"),
        match_expr("joined 2"),
    ]
}

fn unwound() -> Vec<Document> {
    vec![mark("unwind 1"), mark("unwind 3")]
}

fn result() -> Vec<Document> {
    vec![
        stage("$sort", "order"),
        doc(vec![("$skip", Bson::Int64(4))]),
        doc(vec![("$limit", Bson::Int64(9))]),
        stage("$project", "projection"),
    ]
}

fn aggregated() -> Vec<Document> {
    vec![mark("aggregation"), match_expr("having")]
}

#[test]
fn new_queries_have_no_stages() {
    let b = builder();
    assert_eq!(b.model.db_name, "posts");
    assert!(!b.is_group_by_query);
    assert!(b.order_builder.is_none() && b.cursor_builder.is_none() && b.cursor_data.is_none());
    same(&stages(b), &[]);
}

#[test]
fn plain_queries_aggregate_last() {
    let expected = [source(), unwound(), result(), aggregated()].concat();
    same(&full().into_pipeline_stages(&build_join), &expected);
    same(&stages(full()), &expected);
}

#[test]
fn group_by_queries_aggregate_before_sorting() {
    let mut b = full();
    b.is_group_by_query = true;
    let expected = [source(), aggregated(), unwound(), result()].concat();
    same(&b.into_pipeline_stages(&build_join), &expected);
}

#[test]
fn native_filters_take_precedence() {
    let mut b = full();
    b.native_query = Some(mark("native"));
    let mut expected = source();
    expected[0] = stage("$match", "native");
    let actual = b.into_pipeline_stages(&build_join);
    same(&actual[..expected.len()], &expected);
}

#[test]
fn skip_reaches_the_largest_number() {
    let mut b = builder();
    b.skip = Some(i64::MAX as u64);
    same(&stages(b), &[doc(vec![("$skip", Bson::Int64(i64::MAX))])]);
}

fn cursor_data() -> CursorData {
    CursorData {
        cursor_filter: mark("cursor"),
        bindings: mark("bindings"),
        cursor_condition: mark("condition"),
    }
}

#[test]
fn cursors_wrap_the_pipeline() {
    let mut b = full();
    b.cursor_data = Some(cursor_data());
    let actual = b.build_pipeline_query(&build_join).stages;

    let mut inner = source();
    inner.push(match_expr("condition"));
    let inner = [inner, unwound(), result(), aggregated()].concat();
    let lookup = doc(vec![
        ("from", text("posts")),
        ("let", Bson::Document(mark("bindings"))),
        ("pipeline", Bson::Array(inner.into_iter().map(Bson::Document).collect())),
        ("as", text("cursor_inner")),
    ]);
    same(
        &actual,
        &[
            match_expr("cursor"),
            mark("lookup 3"),
            mark("computed"),
            doc(vec![("$lookup", Bson::Document(lookup))]),
            doc(vec![("$unwind", text("$cursor_inner"))]),
            doc(vec![("$replaceRoot", sub(vec![("newRoot", text("$cursor_inner"))]))]),
        ],
    );
}

#[test]
fn cursored_stages_agree() {
    let mut a = full();
    a.cursor_data = Some(cursor_data());
    let mut b = full();
    b.cursor_data = Some(cursor_data());
    same(&a.cursored_pipeline_stages(&build_join), &b.build_pipeline_query(&build_join).stages);
}

#[test]
fn native_arguments_are_not_visited() {
    let args = QueryArguments { filter: Some(native_filter()), ..arguments() };
    let b = MongoReadQueryBuilder::from_args(args, unvisited).unwrap();
    assert_eq!(b.native_query, Some(doc(vec![("a", Bson::Int64(1))])));
    assert_eq!(b.query, None);
    assert!(b.joins.is_empty() && b.join_filters.is_empty());
    same(&stages(b), &[doc(vec![("$match", sub(vec![("a", Bson::Int64(1))]))])]);
}

#[test]
fn other_filters_are_visited() {
    let args = QueryArguments { filter: Some(Filter::Other(8)), ..arguments() };
    let visit = |f: &Filter| -> Result<MongoFilter, String> {
        assert!(matches!(f, Filter::Other(8)));
        Ok(MongoFilter { filter: mark("visited"), joins: vec![] })
    };
    let b = MongoReadQueryBuilder::from_args(args, visit).unwrap();
    assert_eq!(b.native_query, None);
    assert_eq!(b.query, Some(mark("visited")));
    same(&stages(b), &[match_expr("visited")]);
}

#[test]
fn filters_with_joins_apply_after_them() {
    let args = QueryArguments { filter: Some(Filter::Other(8)), ..arguments() };
    let visit = |_: &Filter| -> Result<MongoFilter, String> {
        Ok(MongoFilter { filter: mark("visited"), joins: vec![join(2), join(3)] })
    };
    let b = MongoReadQueryBuilder::from_args(args, visit).unwrap();
    assert_eq!(b.native_query, None);
    assert_eq!(b.query, None);
    same(
        &stages(b),
        &[mark("lookup 2"), mark("lookup 3"), match_expr("visited"), mark("unwind 3")],
    );
}

#[test]
fn errors_of_visits_are_returned() {
    let args = QueryArguments { filter: Some(Filter::Other(8)), ..arguments() };
    let visit = |_: &Filter| -> Result<MongoFilter, String> { Err("unsupported".to_string()) };
    let r = MongoReadQueryBuilder::from_args(args, visit);
    assert_eq!(r.err(), Some("unsupported".to_string()));
}

#[test]
fn unfiltered_arguments() {
    let args = QueryArguments {
        take: Take::Number(-7),
        skip: Some(2),
        cursor: Some(Cursor(5)),
        order_by: vec![OrderBy(1), OrderBy(2)],
        ..arguments()
    };
    let b = MongoReadQueryBuilder::from_args(args, unvisited).unwrap();
    assert_eq!(b.limit, Some(7));
    assert_eq!(b.skip, Some(2));
    let order = b.order_builder.unwrap();
    assert!(order.reverse_order);
    assert_eq!(order.order_by.iter().map(|o| o.0).collect::<Vec<u64>>(), vec![1, 2]);
    let cursor = b.cursor_builder.unwrap();
    assert!(cursor.reverse_order);
    assert_eq!(cursor.cursor.0, 5);
    assert_eq!(cursor.order_by.iter().map(|o| o.0).collect::<Vec<u64>>(), vec![1, 2]);
    assert!(b.query.is_none() && b.native_query.is_none());
}

#[test]
fn ignored_arguments_leave_no_stage() {
    let args = QueryArguments {
        take: Take::Number(i64::MIN),
        skip: Some(2),
        ignore_skip: true,
        ignore_take: true,
        ..arguments()
    };
    let b = MongoReadQueryBuilder::from_args(args, unvisited).unwrap();
    assert_eq!(b.limit, None);
    assert_eq!(b.skip, None);
    assert!(b.cursor_builder.is_none());
    same(&stages(b), &[]);
}

#[test]
fn finalizing_renders_order_and_cursor() {
    let args = QueryArguments {
        cursor: Some(Cursor(5)),
        order_by: vec![OrderBy(1)],
        ..arguments()
    };
    let mut b = MongoReadQueryBuilder::from_args(args, unvisited).unwrap();
    b.order_joins = vec![join(4)];
    b.is_group_by_query = true;
    let order = |o: OrderByBuilder, group: bool| {
        assert_eq!(o.order_by.len(), 1);
        assert!(!o.reverse_order);
        assert!(group);
        OrderData {
            order: Some(mark("order")),
            aggregate_projections: vec![mark("computed")],
            joins: vec![join(6)],
        }
    };
    let cursor = |c: CursorBuilder| -> Result<CursorData, String> {
        assert_eq!(c.cursor.0, 5);
        Ok(cursor_data())
    };
    b.finalize(order, cursor).unwrap();
    assert!(b.order_builder.is_none() && b.cursor_builder.is_none());
    assert_eq!(b.order, Some(mark("order")));
    assert_eq!(b.order_joins.iter().map(|j| j.source.0).collect::<Vec<u64>>(), vec![4, 6]);
    assert_eq!(b.order_aggregate_projections, vec![mark("computed")]);
    assert_eq!(b.cursor_data.as_ref().unwrap().bindings, mark("bindings"));

    // Nothing is left to render.
    b.finalize(|_: OrderByBuilder, _: bool| panic!("rendered twice"), no_cursor).unwrap();
    assert_eq!(b.order, Some(mark("order")));
    assert_eq!(b.order_joins.len(), 2);
}

#[test]
fn errors_of_cursors_are_returned() {
    let args = QueryArguments { cursor: Some(Cursor(5)), ..arguments() };
    let b = MongoReadQueryBuilder::from_args(args, unvisited).unwrap();
    let r: Result<ReadQuery, String> = b.build(no_order, no_cursor, &build_join);
    assert_eq!(r.err(), Some("no cursor".to_string()));
}

#[test]
fn built_queries_use_the_rendered_cursor() {
    let args = QueryArguments { cursor: Some(Cursor(5)), ..arguments() };
    let b = MongoReadQueryBuilder::from_args(args, unvisited).unwrap();
    let cursor = |_: CursorBuilder| -> Result<CursorData, String> { Ok(cursor_data()) };
    let actual = b.build(no_order, cursor, &build_join).unwrap().stages;
    assert_eq!(actual.len(), 4);
    assert_eq!(actual[0], match_expr("cursor"));
    let lookup = actual[1].get_document("$lookup").unwrap();
    assert_eq!(
        lookup.get_array("pipeline").unwrap(),
        &vec![Bson::Document(match_expr("condition"))]
    );
}

#[test]
fn projections() {
    let render = |s: FieldSelection| -> Result<Document, String> {
        assert_eq!(s.0, 3);
        Ok(mark("selected"))
    };
    let b = builder().with_model_projection(FieldSelection(3), render).unwrap();
    assert_eq!(b.projection, Some(mark("selected")));
    let fail = |_: FieldSelection| -> Result<Document, String> { Err("no projection".to_string()) };
    let r = builder().with_model_projection(FieldSelection(3), fail);
    assert_eq!(r.err(), Some("no projection".to_string()));
}

fn count(n: u64, alias: &str, filter: Option<Filter>) -> VirtualSelection {
    VirtualSelection::RelationCount { source: RelationField(n), alias: alias.to_string(), filter }
}

fn size(alias: &str) -> Bson {
    sub(vec![("$size", text(&format!("${alias}")))])
}

fn visit(f: &Filter) -> Result<MongoFilter, String> {
    match f {
        Filter::Other(0) => Err("unsupported".to_string()),
        Filter::Other(n) => Ok(MongoFilter { filter: mark(&format!("{n}")), joins: vec![] }),
        _ => Ok(MongoFilter { filter: mark("other"), joins: vec![] }),
    }
}

#[test]
fn virtual_fields_add_joins_and_projections() {
    let mut b = builder();
    b.joins = vec![join(2)];
    b.projection = Some(doc(vec![("title", Bson::Int32(1))]));
    let selections =
        vec![count(7, "n_likes", None), count(9, "n_comments", Some(Filter::Other(4)))];
    assert_eq!(selections[0].db_alias(), "n_likes");
    let b = b.with_virtual_fields(&selections, &visit).unwrap();

    assert_eq!(b.joins.iter().map(|j| j.source.0).collect::<Vec<u64>>(), vec![2, 7, 9]);
    assert_eq!(b.joins[1].alias, Some("n_likes".to_string()));
    assert!(b.joins[1].filter.is_none() && b.joins[1].nested.is_empty());
    assert_eq!(b.joins[2].alias, Some("n_comments".to_string()));
    assert_eq!(b.joins[2].filter.as_ref().unwrap().filter, mark("4"));
    same(
        &[b.projection.unwrap()],
        &[doc(vec![
            ("title", Bson::Int32(1)),
            ("n_likes", size("n_likes")),
            ("n_comments", size("n_comments")),
        ])],
    );
}

#[test]
fn virtual_fields_without_a_projection() {
    let b = builder().with_virtual_fields(&vec![count(7, "n", None)], &visit).unwrap();
    assert_eq!(b.projection, Some(doc(vec![("n", size("n"))])));
    let b = builder().with_virtual_fields(&vec![], &visit).unwrap();
    assert_eq!(b.projection, None);
}

#[test]
fn virtual_fields_keep_the_place_of_a_field() {
    let mut b = builder();
    b.projection = Some(doc(vec![("n", Bson::Int32(1)), ("title", Bson::Int32(1))]));
    let b = b.with_virtual_fields(&vec![count(7, "n", None)], &visit).unwrap();
    same(
        &[b.projection.unwrap()],
        &[doc(vec![("n", size("n")), ("title", Bson::Int32(1))])],
    );
}

#[test]
fn virtual_fields_accumulate() {
    let one = builder()
        .with_virtual_fields(&vec![count(1, "a", None)], &visit)
        .unwrap()
        .with_virtual_fields(&vec![count(2, "b", None)], &visit)
        .unwrap();
    let both = builder()
        .with_virtual_fields(&vec![count(1, "a", None), count(2, "b", None)], &visit)
        .unwrap();
    same(&[one.projection.unwrap()], &[both.projection.unwrap()]);
    assert_eq!(one.joins.len(), both.joins.len());
}

#[test]
fn errors_in_virtual_fields_are_returned() {
    let selections = vec![count(1, "a", None), count(2, "b", Some(Filter::Other(0)))];
    let r = builder().with_virtual_fields(&selections, &visit);
    assert_eq!(r.err(), Some("unsupported".to_string()));
}

#[test]
fn groupings() {
    let by_fields = vec![ScalarField { db_name: "city".to_string() }];
    let group = |f: Vec<ScalarField>, s: &Vec<AggregationSelection>, h: Option<&Filter>| {
        assert_eq!(f.len(), 1);
        assert_eq!(s.iter().map(|s| s.0).collect::<Vec<u64>>(), vec![6]);
        assert!(matches!(h, Some(Filter::Other(4))));
        (mark("group"), Some(mark("project")))
    };
    let having = |prefix: &str, f: &Filter| -> Result<MongoFilter, String> {
        assert_eq!(prefix, UNDERSCORE_ID);
        visit(f)
    };
    let b = builder()
        .with_groupings(
            by_fields,
            &vec![AggregationSelection(6)],
            Some(Filter::Other(4)),
            group,
            having,
        )
        .unwrap();
    assert!(b.is_group_by_query);
    same(&b.aggregations, &[stage("$group", "group"), stage("$project", "project")]);
    same(&b.aggregation_filters, &[mark("4")]);
}

#[test]
fn aggregations_without_grouping() {
    let group = |_: Vec<ScalarField>, _: &Vec<AggregationSelection>, h: Option<&Filter>| {
        assert!(h.is_none());
        (mark("group"), None)
    };
    let having = |_: &str, _: &Filter| -> Result<MongoFilter, String> { panic!("no filter") };
    let b = builder().with_groupings(vec![], &vec![], None, group, having).unwrap();
    assert!(!b.is_group_by_query);
    same(&b.aggregations, &[stage("$group", "group")]);
    assert!(b.aggregation_filters.is_empty());
}

#[test]
fn errors_of_group_filters_are_returned() {
    let group = |_: Vec<ScalarField>, _: &Vec<AggregationSelection>, _: Option<&Filter>| {
        (mark("group"), None)
    };
    let having = |_: &str, f: &Filter| visit(f);
    let r = builder().with_groupings(vec![], &vec![], Some(Filter::Other(0)), group, having);
    assert_eq!(r.err(), Some("unsupported".to_string()));
}
