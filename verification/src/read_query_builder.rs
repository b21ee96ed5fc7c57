//! The builder of read queries.
//!
//! Queries are aggregation pipelines, see
//! <https://www.mongodb.com/docs/manual/core/aggregation-pipeline/>. The builder decides which
//! stages a pipeline has, what they hold and in which order they stand. Parts that depend on the
//! schema (expressions for filters, lookups for joins, orderings, groupings) are rendered by
//! functions of the caller.
use crate::arguments::{skip, take, Model, QueryArguments, Take};
use crate::document::{
    array_of, clone_documents, documents, embedded, fields_of, fields_of_all, fields_of_opt,
    insert, int64, new_document, one, single, text, Fields, Value,
};
use crate::filter::{Filter, ScalarField};
use crate::native::{native, try_to_native_filter};
use crate::query::{
    all_documents, are_built, counting, is_grouped, is_join_of, is_ordered, is_pinned, lookups,
    optional_stage, unfiltered, unwinds, AggregationSelection, Built, CursorBuilder, CursorData,
    FieldSelection, JoinStage, MongoFilter, MongoReadQueryBuilder, OrderByBuilder, OrderData,
    QueryView, ReadQuery, VirtualSelection, UNDERSCORE_ID,
};
use crate::stages::{
    lemma_unwinds_add, match_expr_stage, push_filters, push_joins, push_stage, push_stages,
};
use bson::Document;
use vstd::prelude::*;

verus! {

impl MongoReadQueryBuilder {
    /// A builder for all documents of a model.
    pub fn new(model: Model) -> (r: Self)
        ensures
            r@ == all_documents(model.db_name@),
            r.model == model,
    {
        MongoReadQueryBuilder {
            model,
            query: None,
            native_query: None,
            joins: vec![],
            join_filters: vec![],
            aggregations: vec![],
            aggregation_filters: vec![],
            order_builder: None,
            order: None,
            order_joins: vec![],
            order_aggregate_projections: vec![],
            cursor_builder: None,
            cursor_data: None,
            skip: None,
            limit: None,
            projection: None,
            is_group_by_query: false,
        }
    }

    /// Whether the number of documents to skip is one that a stage can hold.
    pub open spec fn skip_fits(self) -> bool {
        self.skip matches Some(n) ==> n <= i64::MAX
    }

    /// A builder for the given arguments. The filter is put in native syntax if it can be, and else
    /// is rendered as an expression by the caller's function.
    pub fn from_args<V: FnOnce(&Filter) -> Result<MongoFilter, E>, E>(
        args: QueryArguments,
        visit: V,
    ) -> (r: Result<MongoReadQueryBuilder, E>)
        requires
            !args.ignore_take ==> args.take != Take::Number(i64::MIN),
            forall|f: &Filter| call_requires(visit, (f,)),
        ensures
            match args.filter {
                None => r matches Ok(b) && b@ == unfiltered(args),
                Some(filter) => match native(filter, None) {
                    Some(n) => r matches Ok(b) && b@ == unfiltered(args).natively_filtered(n),
                    None => exists|visited: Result<MongoFilter, E>| #[trigger]
                        call_ensures(visit, (&filter,), visited) && match visited {
                            Ok(f) => r matches Ok(b) && b@ == unfiltered(args).filtered(f),
                            Err(e) => r == Err::<MongoReadQueryBuilder, E>(e),
                        },
                },
            },
    {
        let reverse_order = args.take.is_reversed();
        let order_builder = Some(
            OrderByBuilder { order_by: args.order_by.clone(), reverse_order },
        );
        let cursor_builder = match args.cursor {
            Some(cursor) => Some(CursorBuilder { cursor, order_by: args.order_by, reverse_order }),
            None => None,
        };
        let skipped = match args.skip {
            Some(n) => Some(n as u64),
            None => None,
        };

        let mut builder = MongoReadQueryBuilder::new(args.model);
        builder.order_builder = order_builder;
        builder.cursor_builder = cursor_builder;
        builder.skip = skip(skipped, args.ignore_skip);
        builder.limit = take(args.take, args.ignore_take);
        assert(builder@ =~= unfiltered(args));

        if let Some(filter) = args.filter {
            match try_to_native_filter(&filter) {
                Some(native) => {
                    builder.native_query = Some(native);
                },
                None => {
                    match visit(&filter) {
                        Ok(MongoFilter { filter, joins }) => {
                            if joins.len() > 0 {
                                builder.joins = joins;
                                builder.join_filters.push(filter);
                            } else {
                                builder.query = Some(filter);
                            }
                        },
                        Err(e) => {
                            return Err(e);
                        },
                    }
                },
            }
        }
        Ok(builder)
    }

    /// Finalizes the builder and builds the query.
    pub fn build<
        O: FnOnce(OrderByBuilder, bool) -> OrderData,
        C: FnOnce(CursorBuilder) -> Result<CursorData, E>,
        F: Fn(&JoinStage) -> (Document, Option<Document>),
        E,
    >(self, build_order: O, build_cursor: C, build_join: &F) -> (r: Result<ReadQuery, E>)
        requires
            self.skip_fits(),
            forall|b: OrderByBuilder, group: bool| call_requires(build_order, (b, group)),
            forall|b: CursorBuilder| call_requires(build_cursor, (b,)),
            forall|j: &JoinStage| call_requires(*build_join, (j,)),
        ensures
            exists|ordered: QueryView, finalized: QueryView, outcome: Result<(), E>|
                {
                    &&& #[trigger] is_ordered(self, build_order, ordered)
                    &&& #[trigger] is_pinned(
                        self.cursor_builder,
                        ordered,
                        build_cursor,
                        finalized,
                        outcome,
                    )
                    &&& match outcome {
                        Ok(_) => r matches Ok(q) && finalized.is_pipeline(
                            *build_join,
                            fields_of_all(q.stages@),
                        ),
                        Err(e) => r == Err::<ReadQuery, E>(e),
                    }
                },
    {
        let mut query = self;
        let outcome = query.finalize(build_order, build_cursor);
        match outcome {
            Ok(_) => Ok(query.build_pipeline_query(build_join)),
            Err(e) => Err(e),
        }
    }

    /// The pipeline of a finalized query. Queries with a cursor need stages of another shape.
    pub fn build_pipeline_query<F: Fn(&JoinStage) -> (Document, Option<Document>)>(
        self,
        build_join: &F,
    ) -> (r: ReadQuery)
        requires
            self.skip_fits(),
            forall|j: &JoinStage| call_requires(*build_join, (j,)),
        ensures
            self@.is_pipeline(*build_join, fields_of_all(r.stages@)),
    {
        let stages = if self.cursor_data.is_none() {
            let stages = self.into_pipeline_stages(build_join);
            assert(self@.is_pipeline(*build_join, fields_of_all(stages@)));
            stages
        } else {
            let stages = self.cursored_pipeline_stages(build_join);
            assert(self@.is_pipeline(*build_join, fields_of_all(stages@)));
            stages
        };
        ReadQuery { stages }
    }

    /// The stages of the pipeline without a cursor.
    #[verifier::rlimit(50)]
    pub fn into_pipeline_stages<F: Fn(&JoinStage) -> (Document, Option<Document>)>(
        self,
        build_join: &F,
    ) -> (r: Vec<Document>)
        requires
            self.skip_fits(),
            forall|j: &JoinStage| call_requires(*build_join, (j,)),
        ensures
            exists|built: Built| #[trigger]
                are_built(*build_join, self.joins@ + self.order_joins@, built) && fields_of_all(r@)
                    == self@.pipeline(built),
    {
        let mut stages: Vec<Document> = vec![];
        assert(fields_of_all(stages@) =~= Seq::<Fields>::empty());

        // The native filter takes precedence over the expression.
        if let Some(native) = self.native_query {
            push_stage(&mut stages, single("$match", embedded(native)));
        } else if let Some(query) = self.query {
            push_stage(&mut stages, match_expr_stage(query));
        }
        assert(fields_of_all(stages@) =~= self@.initial_match());

        let mut unwind_stages: Vec<Document> = vec![];
        assert(fields_of_all(unwind_stages@) =~= Seq::<Fields>::empty());
        let first = push_joins(&mut stages, &mut unwind_stages, &self.joins, build_join);
        let second = push_joins(&mut stages, &mut unwind_stages, &self.order_joins, build_join);
        let ghost built = first@ + second@;
        proof {
            lemma_unwinds_add(first@, second@);
            assert(lookups(built) =~= lookups(first@) + lookups(second@));
            assert(fields_of_all(unwind_stages@) =~= unwinds(built));
            assert(are_built(*build_join, self.joins@ + self.order_joins@, built));
            assert(fields_of_all(stages@) =~= self@.initial_match() + lookups(built));
        }

        push_stages(&mut stages, self.order_aggregate_projections);
        push_filters(&mut stages, self.join_filters);
        assert(fields_of_all(stages@) =~= self@.source_stages(built));

        // In a group-by query, sort, skip and limit apply to the groups, else to the documents
        // that are aggregated.
        let is_group_by_query = self.is_group_by_query;
        let mut aggregation_stages = self.aggregations;
        push_filters(&mut aggregation_stages, self.aggregation_filters);
        assert(fields_of_all(aggregation_stages@) =~= self@.aggregation_stages());
        let mut trailing_stages: Vec<Document> = vec![];
        assert(fields_of_all(trailing_stages@) =~= Seq::<Fields>::empty());
        if is_group_by_query {
            push_stages(&mut stages, aggregation_stages);
        } else {
            push_stages(&mut trailing_stages, aggregation_stages);
        }

        // Before sorting, because MongoDB does not sort by several arrays, see
        // <https://jira.mongodb.org/browse/SERVER-32859>.
        push_stages(&mut stages, unwind_stages);
        let ghost unsorted = fields_of_all(stages@);

        if let Some(order) = self.order {
            push_stage(&mut stages, single("$sort", embedded(order)));
        }
        if let Some(n) = self.skip {
            push_stage(&mut stages, single("$skip", int64(n as i64)));
        }
        if let Some(n) = self.limit {
            push_stage(&mut stages, single("$limit", int64(n)));
        }
        if let Some(projection) = self.projection {
            push_stage(&mut stages, single("$project", embedded(projection)));
        }
        assert(fields_of_all(stages@) =~= unsorted + self@.result_stages());

        push_stages(&mut stages, trailing_stages);
        assert(fields_of_all(stages@) =~= self@.pipeline(built));
        stages
    }

    /// The stages of the pipeline with a cursor. They have the form:
    /// ```text
    /// testModel.aggregate([
    ///     { $match: { <filter finding exactly one document (cursor doc)> }},
    ///     { $lookup: { <if present, join that are required for orderBy relations> }}
    ///     { ... more joins if necessary ... }
    ///     {
    ///         $lookup: <"self join" testModel and execute non-cursor query with cursor filter here.>
    ///     }
    /// ])
    /// ```
    /// The cursor document makes the values that the cursor condition compares with available to
    /// the inner pipeline. The lookup on the collection itself does not join anything: it pulls in
    /// all documents for the inner pipeline to filter.
    #[verifier::rlimit(50)]
    pub fn cursored_pipeline_stages<F: Fn(&JoinStage) -> (Document, Option<Document>)>(
        self,
        build_join: &F,
    ) -> (r: Vec<Document>)
        requires
            self.cursor_data is Some,
            self.skip_fits(),
            forall|j: &JoinStage| call_requires(*build_join, (j,)),
        ensures
            exists|
                order_built: Built,
                built: Built,
            |
                {
                    &&& #[trigger] are_built(*build_join, self.order_joins@, order_built)
                    &&& #[trigger] are_built(
                        *build_join,
                        self.joins@ + self.order_joins@,
                        built,
                    )
                    &&& fields_of_all(r@) == self@.cursored_pipeline(order_built, built)
                },
    {
        let mut query = self;
        let coll_name = query.model.db_name.clone();
        let cursor_data = query.cursor_data.take().unwrap();
        push_stage(&mut query.join_filters, cursor_data.cursor_condition);
        assert(query@ =~= self@.from_cursor(self@.cursor_data->0.cursor_condition));

        // Match the cursor first, then add the joins of the ordering.
        let mut outer_stages: Vec<Document> = vec![];
        assert(fields_of_all(outer_stages@) =~= Seq::<Fields>::empty());
        push_stage(&mut outer_stages, match_expr_stage(cursor_data.cursor_filter));
        let mut unused_unwinds: Vec<Document> = vec![];
        let order_built = push_joins(
            &mut outer_stages,
            &mut unused_unwinds,
            &query.order_joins,
            build_join,
        );
        push_stages(&mut outer_stages, clone_documents(&query.order_aggregate_projections));

        let inner_stages = query.into_pipeline_stages(build_join);
        let ghost built = choose|built: Built| #[trigger]
            are_built(*build_join, query.joins@ + query.order_joins@, built) && fields_of_all(
                inner_stages@,
            ) == query@.pipeline(built);

        proof {
            reveal_strlit("from");
            reveal_strlit("let");
            reveal_strlit("pipeline");
            reveal_strlit("as");
            assert("from"@.len() == 4 && "let"@.len() == 3 && "pipeline"@.len() == 8 && "as"@.len()
                == 2);
        }
        let mut lookup = single("from", text(coll_name));
        insert(&mut lookup, "let".to_owned(), embedded(cursor_data.bindings));
        insert(&mut lookup, "pipeline".to_owned(), documents(inner_stages));
        insert(&mut lookup, "as".to_owned(), text("cursor_inner".to_owned()));
        assert(fields_of(lookup) =~= seq![
            ("from"@, Value::Text(self@.collection)),
            ("let"@, Value::Doc(self@.cursor_data->0.bindings)),
            ("pipeline"@, array_of(query@.pipeline(built))),
            ("as"@, Value::Text("cursor_inner"@)),
        ]);
        push_stage(&mut outer_stages, single("$lookup", embedded(lookup)));
        push_stage(&mut outer_stages, single("$unwind", text("$cursor_inner".to_owned())));
        push_stage(
            &mut outer_stages,
            single("$replaceRoot", embedded(single("newRoot", text("$cursor_inner".to_owned())))),
        );
        assert(fields_of_all(outer_stages@) =~= self@.cursored_pipeline(order_built@, built));
        outer_stages
    }

    /// Has the query return only the selected fields, as the caller's function renders them.
    pub fn with_model_projection<R: FnOnce(FieldSelection) -> Result<Document, E>, E>(
        self,
        selected_fields: FieldSelection,
        render: R,
    ) -> (r: Result<Self, E>)
        requires
            call_requires(render, (selected_fields,)),
        ensures
            exists|rendered: Result<Document, E>| #[trigger]
                call_ensures(render, (selected_fields,), rendered) && match rendered {
                    Ok(d) => r matches Ok(b) && b@ == (QueryView {
                        projection: Some(fields_of(d)),
                        ..self@
                    }),
                    Err(e) => r == Err::<Self, E>(e),
                },
    {
        let mut query = self;
        match render(selected_fields) {
            Ok(projection) => {
                query.projection = Some(projection);
                Ok(query)
            },
            Err(e) => Err(e),
        }
    }

    /// Adds the joins that virtual fields need, and the fields to the projection.
    #[verifier::rlimit(50)]
    pub fn with_virtual_fields<V: Fn(&Filter) -> Result<MongoFilter, E>, E>(
        self,
        virtual_selections: &Vec<VirtualSelection>,
        visit: &V,
    ) -> (r: Result<Self, E>)
        requires
            forall|f: &Filter| call_requires(*visit, (f,)),
        ensures
            match r {
                Ok(b) => {
                    &&& b@ == (QueryView {
                        joins: b@.joins,
                        projection: counting(self@.projection, virtual_selections@),
                        ..self@
                    })
                    &&& b@.joins.len() == self@.joins.len() + virtual_selections@.len()
                    &&& b@.joins.take(self@.joins.len() as int) == self@.joins
                    &&& forall|i: int|
                        0 <= i < virtual_selections@.len() ==> is_join_of(
                            #[trigger] b@.joins[self@.joins.len() + i],
                            virtual_selections@[i],
                            *visit,
                        )
                },
                Err(e) => exists|i: int|
                    0 <= i < virtual_selections@.len() && (
                    #[trigger] virtual_selections@[i])->filter is Some && call_ensures(
                        *visit,
                        (&virtual_selections@[i]->filter->0,),
                        Err::<MongoFilter, E>(e),
                    ) && forall|j: int|
                        0 <= j < i && (#[trigger] virtual_selections@[j])->filter is Some ==> exists|
                            m: MongoFilter,
                        | #[trigger]
                            call_ensures(
                                *visit,
                                (&virtual_selections@[j]->filter->0,),
                                Ok::<MongoFilter, E>(m),
                            ),
            },
    {
        let mut query = self;
        for n in 0..virtual_selections.len()
            invariant
                forall|f: &Filter| call_requires(*visit, (f,)),
                query@ == (QueryView {
                    joins: query@.joins,
                    projection: counting(self@.projection, virtual_selections@.take(n as int)),
                    ..self@
                }),
                query@.joins.len() == self@.joins.len() + n,
                query@.joins.take(self@.joins.len() as int) == self@.joins,
                forall|i: int|
                    0 <= i < n ==> is_join_of(
                        #[trigger] query@.joins[self@.joins.len() + i],
                        virtual_selections@[i],
                        *visit,
                    ),
        {
            let aggr = &virtual_selections[n];
            let ghost before = query@;
            let join = match aggr {
                VirtualSelection::RelationCount { source, filter, .. } => {
                    let filter = match filter {
                        Some(f) => match visit(f) {
                            Ok(m) => Some(m),
                            Err(e) => {
                                proof {
                                    assert(virtual_selections@[n as int]->filter == Some(*f));
                                    assert forall|j: int|
                                        0 <= j < n && (
                                        #[trigger] virtual_selections@[j])->filter is Some implies exists|
                                        m: MongoFilter,
                                    | #[trigger]
                                        call_ensures(
                                            *visit,
                                            (&virtual_selections@[j]->filter->0,),
                                            Ok::<MongoFilter, E>(m),
                                        ) by {
                                        assert(is_join_of(
                                            query@.joins[self@.joins.len() + j],
                                            virtual_selections@[j],
                                            *visit,
                                        ));
                                    }
                                }
                                return Err(e);
                            },
                        },
                        None => None,
                    };
                    JoinStage { source: *source, alias: Some(aggr.db_alias()), nested: vec![], filter }
                },
            };
            assert(is_join_of(join, *aggr, *visit));
            query.joins.push(join);

            let alias = aggr.db_alias();
            let path = "$".to_owned().concat(alias.as_str());
            let size = embedded(single("$size", text(path)));
            let mut projection = match query.projection.take() {
                Some(p) => p,
                None => new_document(),
            };
            insert(&mut projection, alias, size);
            query.projection = Some(projection);

            proof {
                let k = self@.joins.len() as int;
                assert(virtual_selections@.take(n + 1).drop_last() =~= virtual_selections@.take(
                    n as int,
                ));
                assert(query@.joins =~= before.joins.push(join));
                assert(query@.joins.take(k) =~= before.joins.take(k));
                assert forall|i: int| 0 <= i < n + 1 implies is_join_of(
                    #[trigger] query@.joins[k + i],
                    virtual_selections@[i],
                    *visit,
                ) by {
                    if i < n {
                        assert(query@.joins[k + i] == before.joins[k + i]);
                    }
                }
            }
        }
        assert(virtual_selections@.take(virtual_selections@.len() as int) =~= virtual_selections@);
        Ok(query)
    }

    /// Groups the documents by fields and adds aggregations, with a filter on the groups.
    #[verifier::rlimit(50)]
    pub fn with_groupings<
        G: FnOnce(Vec<ScalarField>, &Vec<AggregationSelection>, Option<&Filter>) -> (
            Document,
            Option<Document>,
        ),
        V: FnOnce(&str, &Filter) -> Result<MongoFilter, E>,
        E,
    >(
        self,
        by_fields: Vec<ScalarField>,
        selections: &Vec<AggregationSelection>,
        having: Option<Filter>,
        group: G,
        visit: V,
    ) -> (r: Result<Self, E>)
        requires
            forall|f: Vec<ScalarField>, s: &Vec<AggregationSelection>, h: Option<&Filter>|
                call_requires(group, (f, s, h)),
            forall|p: &str, f: &Filter| call_requires(visit, (p, f)),
        ensures
            match having {
                None => r matches Ok(b) && is_grouped(
                    self@,
                    by_fields,
                    selections,
                    None,
                    group,
                    b@,
                ),
                Some(filter) => exists|visited: Result<MongoFilter, E>| #[trigger]
                    call_ensures(visit, (UNDERSCORE_ID, &filter), visited) && match visited {
                        Ok(f) => r matches Ok(b) && is_grouped(
                            QueryView {
                                aggregation_filters: self@.aggregation_filters.push(
                                    fields_of(f.filter),
                                ),
                                ..self@
                            },
                            by_fields,
                            selections,
                            Some(&filter),
                            group,
                            b@,
                        ),
                        Err(e) => r == Err::<Self, E>(e),
                    },
            },
    {
        let mut query = self;
        if by_fields.len() > 0 {
            query.is_group_by_query = true;
        }
        if let Some(filter) = &having {
            // The fields that documents are grouped by are only found in the key of the group.
            match visit(UNDERSCORE_ID, filter) {
                Ok(rendered) => {
                    push_stage(&mut query.aggregation_filters, rendered.filter);
                },
                Err(e) => {
                    return Err(e);
                },
            }
        }
        let ghost ungrouped = QueryView { is_group_by_query: self@.is_group_by_query, ..query@ };
        let ghost fields = by_fields;
        let (grouping_stage, project_stage) = group(by_fields, selections, having.as_ref());
        let ghost stages = (grouping_stage, project_stage);
        push_stage(&mut query.aggregations, single("$group", embedded(grouping_stage)));
        if let Some(project_stage) = project_stage {
            push_stage(&mut query.aggregations, single("$project", embedded(project_stage)));
        }
        proof {
            let having = match having {
                Some(f) => Some(&f),
                None => None,
            };
            assert(call_ensures(group, (fields, selections, having), stages));
            assert(query@.aggregations =~= ungrouped.aggregations.push(
                one("$group"@, Value::Doc(fields_of(stages.0))),
            ) + optional_stage("$project"@, fields_of_opt(stages.1)));
            assert(is_grouped(ungrouped, fields, selections, having, group, query@));
        }
        Ok(query)
    }

    /// Renders the ordering and the cursor. The cursor depends on the ordering, which comes first.
    pub fn finalize<
        O: FnOnce(OrderByBuilder, bool) -> OrderData,
        C: FnOnce(CursorBuilder) -> Result<CursorData, E>,
        E,
    >(&mut self, build_order: O, build_cursor: C) -> (r: Result<(), E>)
        requires
            forall|b: OrderByBuilder, group: bool| call_requires(build_order, (b, group)),
            forall|b: CursorBuilder| call_requires(build_cursor, (b,)),
        ensures
            exists|ordered: QueryView| #[trigger]
                is_ordered(*old(self), build_order, ordered) && is_pinned(
                    old(self).cursor_builder,
                    ordered,
                    build_cursor,
                    final(self)@,
                    r,
                ),
    {
        if let Some(order_builder) = self.order_builder.take() {
            let OrderData { order, aggregate_projections, joins } = build_order(
                order_builder,
                self.is_group_by_query,
            );
            let mut joins = joins;
            self.order_joins.append(&mut joins);
            self.order = order;
            self.order_aggregate_projections = aggregate_projections;
        }
        let ghost ordered = self@;
        assert(is_ordered(*old(self), build_order, ordered));

        if let Some(cursor_builder) = self.cursor_builder.take() {
            match build_cursor(cursor_builder) {
                Ok(cursor_data) => {
                    self.cursor_data = Some(cursor_data);
                },
                Err(e) => {
                    return Err(e);
                },
            }
        }
        Ok(())
    }
}

} // verus!
