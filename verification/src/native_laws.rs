//! What the native form of a filter has to be, in terms of the native forms of its parts.
//!
//! The laws speak of what the functions return: `call_ensures(f, arguments, r)` is that a call of
//! `f` may return `r`.
use crate::condition::{chars_of, path, try_scalar_list_to_native, try_scalar_to_native};
use crate::condition_laws::place;
use crate::document::{fields_of, fields_of_all, fields_of_opt, Fields, Value};
use crate::filter::{CompositeCondition, CompositeFilter, Filter, ScalarFilter, ScalarListFilter};
use crate::native::{
    can_flatten_native_and, collected, flattenable, is_operator, native, native_each,
    native_false_filter, native_true_filter, try_filter_to_native_mql, try_to_native_filter,
    try_to_native_filter_with_prefix,
};
use bson::Document;
use vstd::prelude::*;

verus! {

/// All entry points translate in the same way, and start at the root of the document.
pub proof fn law_entry_points_agree(
    filter: Filter,
    root: Option<&str>,
    r: Option<Document>,
    for_reads: Option<Document>,
    for_writes: Option<Document>,
)
    requires
        root is None || root->0@.len() == 0,
        call_ensures(try_to_native_filter_with_prefix, (&filter, root), r),
        call_ensures(try_to_native_filter, (&filter,), for_reads),
        call_ensures(try_filter_to_native_mql, (&filter,), for_writes),
    ensures
        r is Some <==> for_reads is Some,
        r is Some <==> for_writes is Some,
        r is Some ==> fields_of(r->0) == fields_of(for_reads->0),
        r is Some ==> fields_of(r->0) == fields_of(for_writes->0),
{
    if root is Some {
        lemma_prefix_of_nothing(filter, root->0@);
    }
}

/// An empty prefix is no prefix.
proof fn lemma_prefix_of_nothing(filter: Filter, prefix: Seq<char>)
    requires
        prefix.len() == 0,
    ensures
        native(filter, Some(prefix)) == native(filter, None),
    decreases filter,
{
    match filter {
        Filter::And(filters) | Filter::Or(filters) | Filter::Not(filters) => {
            assert forall|i: int| 0 <= i < filters@.len() implies native(
                #[trigger] filters@[i],
                Some(prefix),
            ) == native(filters@[i], None) by {
                lemma_prefix_of_nothing(filters@[i], prefix);
            }
            assert(native_each(filters@, Some(prefix)) =~= native_each(filters@, None));
        },
        _ => {},
    }
}

/// A filter on a single field is translated as the condition that it is.
pub proof fn law_conditions_are_filters(
    sf: ScalarFilter,
    slf: ScalarListFilter,
    prefix: Option<&str>,
    scalar: Option<Document>,
    scalar_filter: Option<Document>,
    list: Option<Document>,
    list_filter: Option<Document>,
)
    requires
        call_ensures(try_scalar_to_native, (&sf, prefix), scalar),
        call_ensures(
            try_to_native_filter_with_prefix,
            (&Filter::Scalar(sf), prefix),
            scalar_filter,
        ),
        call_ensures(try_scalar_list_to_native, (&slf, prefix), list),
        call_ensures(
            try_to_native_filter_with_prefix,
            (&Filter::ScalarList(slf), prefix),
            list_filter,
        ),
    ensures
        scalar is Some <==> scalar_filter is Some,
        scalar is Some ==> fields_of(scalar->0) == fields_of(scalar_filter->0),
        list is Some <==> list_filter is Some,
        list is Some ==> fields_of(list->0) == fields_of(list_filter->0),
{
}

/// No condition at all is the native filter without entries, and other kinds of filters have no
/// native form.
pub proof fn law_plain_filters(
    filter: Filter,
    prefix: Option<&str>,
    r: Option<Document>,
)
    requires
        call_ensures(try_to_native_filter_with_prefix, (&filter, prefix), r),
    ensures
        filter is Empty ==> r is Some && fields_of(r->0).len() == 0,
        filter is Other ==> r is None,
{
}

/// A condition on an embedded document is one on the fields below its place, and `IsNot` rejects
/// what `Is` accepts. Whether the document is set is asked at its place.
pub proof fn law_embedded_documents(
    cf: CompositeFilter,
    inner: Filter,
    prefix: Option<&str>,
    nested: &str,
    inner_r: Option<Document>,
    r: Option<Document>,
)
    requires
        nested@ == place(prefix, cf.field.db_name@),
        call_ensures(try_to_native_filter_with_prefix, (&inner, Some(nested)), inner_r),
        call_ensures(try_to_native_filter_with_prefix, (&Filter::Composite(cf), prefix), r),
    ensures
        *cf.condition == CompositeCondition::Is(inner) ==> {
            &&& r is Some <==> inner_r is Some
            &&& r is Some ==> fields_of(r->0) == fields_of(inner_r->0)
        },
        *cf.condition == CompositeCondition::IsNot(inner) ==> {
            &&& r is Some <==> inner_r is Some
            &&& r is Some ==> fields_of(r->0) == seq![
                ("$nor"@, Value::Array(seq![Value::Doc(fields_of(inner_r->0))])),
            ]
        },
        *cf.condition is IsSet ==> {
            let set = cf.condition->IsSet_0;
            &&& r is Some
            &&& fields_of(r->0) == seq![
                (nested@, Value::Doc(seq![("$exists"@, Value::Boolean(set))])),
            ]
        },
        *cf.condition is Other ==> r is None,
{
    reveal_strlit(".");
    assert("."@ =~= seq!['.']);
    assert(path(chars_of(prefix), cf.field.db_name@) == nested@);
    if inner_r is Some {
        let n = fields_of(inner_r->0);
        assert(seq![n].map_values(|d: Fields| Value::Doc(d)) =~= seq![Value::Doc(n)]);
    }
}

/// Whether `natives` are the native forms of the filters, one for one.
pub open spec fn are_translated(
    filters: Seq<Filter>,
    prefix: Option<&str>,
    natives: Seq<Option<Document>>,
) -> bool {
    &&& natives.len() == filters.len()
    &&& forall|i: int|
        0 <= i < filters.len() ==> call_ensures(
            try_to_native_filter_with_prefix,
            (&filters[i], prefix),
            #[trigger] natives[i],
        )
}

/// Whether each of the native forms is there.
pub open spec fn are_all_there(natives: Seq<Option<Document>>) -> bool {
    forall|i: int| 0 <= i < natives.len() ==> (#[trigger] natives[i]) is Some
}

/// What the native forms hold, in order.
pub open spec fn entries(natives: Seq<Option<Document>>) -> Seq<Fields> {
    Seq::new(natives.len(), |i: int| fields_of(natives[i]->0))
}

/// Filters as the elements of an array, in order.
pub open spec fn listed(natives: Seq<Fields>) -> Value {
    Value::Array(Seq::new(natives.len(), |i: int| Value::Doc(natives[i])))
}

proof fn lemma_translated(filters: Seq<Filter>, prefix: Option<&str>, natives: Seq<Option<Document>>)
    requires
        are_translated(filters, prefix, natives),
    ensures
        ({
            let all = collected(native_each(filters, chars_of(prefix)));
            &&& all is Some <==> are_all_there(natives)
            &&& all is Some ==> all->0 == entries(natives)
        }),
{
    let results = native_each(filters, chars_of(prefix));
    assert forall|i: int| 0 <= i < filters.len() implies #[trigger] results[i] == fields_of_opt(
        natives[i],
    ) by {
        assert(call_ensures(
            try_to_native_filter_with_prefix,
            (&filters[i], prefix),
            natives[i],
        ));
    }
    if collected(results) is Some {
        assert forall|i: int| 0 <= i < natives.len() implies (#[trigger] natives[i]) is Some by {
            assert(results[i] is Some);
        }
        assert(collected(results)->0 =~= entries(natives));
    }
    if are_all_there(natives) {
        assert forall|i: int| 0 <= i < results.len() implies (#[trigger] results[i]) is Some by {
            assert(natives[i] is Some);
        }
    }
}

proof fn lemma_listed(natives: Seq<Fields>)
    ensures
        natives.map_values(|d: Fields| Value::Doc(d)) == Seq::new(
            natives.len(),
            |i: int| Value::Doc(natives[i]),
        ),
{
    assert(natives.map_values(|d: Fields| Value::Doc(d)) =~= Seq::new(
        natives.len(),
        |i: int| Value::Doc(natives[i]),
    ));
}

/// A disjunction has a native form if and only if each of its parts has. It is one part where there
/// is one, and lists all of them in order where there are more. Without a part it holds of no
/// document, and with a part that holds of all of them it holds of all of them.
pub proof fn law_disjunction_form(
    filters: Vec<Filter>,
    prefix: Option<&str>,
    natives: Seq<Option<Document>>,
    r: Option<Document>,
)
    requires
        are_translated(filters@, prefix, natives),
        call_ensures(try_to_native_filter_with_prefix, (&Filter::Or(filters), prefix), r),
    ensures
        r is Some <==> are_all_there(natives),
        r is Some && natives.len() == 0 ==> fields_of(r->0) == seq![
            ("$nor"@, Value::Array(seq![Value::Doc(seq![])])),
        ],
        r is Some && (exists|i: int|
            0 <= i < natives.len() && fields_of((#[trigger] natives[i])->0).len() == 0)
            ==> fields_of(r->0).len() == 0,
        r is Some && natives.len() == 1 ==> fields_of(r->0) == fields_of(natives[0]->0),
        r is Some && natives.len() > 1 && (forall|i: int|
            0 <= i < natives.len() ==> fields_of((#[trigger] natives[i])->0).len() > 0)
            ==> fields_of(r->0) == seq![("$or"@, listed(entries(natives)))],
{
    lemma_translated(filters@, prefix, natives);
    lemma_listed(entries(natives));
    let empty: Fields = seq![];
    assert(seq![empty].map_values(|d: Fields| Value::Doc(d)) =~= seq![Value::Doc(empty)]);
    if exists|i: int| 0 <= i < natives.len() && fields_of((#[trigger] natives[i])->0).len() == 0 {
        let i = choose|i: int|
            0 <= i < natives.len() && fields_of((#[trigger] natives[i])->0).len() == 0;
        assert(entries(natives)[i].len() == 0);
    }
    if forall|i: int| 0 <= i < natives.len() ==> fields_of((#[trigger] natives[i])->0).len() > 0 {
        assert forall|i: int| 0 <= i < natives.len() implies (#[trigger] entries(natives)[i]).len()
            > 0 by {
            assert(fields_of(natives[i]->0).len() > 0);
        }
    }
    if natives.len() == 1 {
        assert(entries(natives)[0] == fields_of(natives[0]->0));
    }
}

/// A negation has a native form if and only if each of its parts has. It rejects all of them, in
/// order, and without a part it holds of all documents.
pub proof fn law_negation_form(
    filters: Vec<Filter>,
    prefix: Option<&str>,
    natives: Seq<Option<Document>>,
    r: Option<Document>,
)
    requires
        are_translated(filters@, prefix, natives),
        call_ensures(try_to_native_filter_with_prefix, (&Filter::Not(filters), prefix), r),
    ensures
        r is Some <==> are_all_there(natives),
        r is Some && natives.len() == 0 ==> fields_of(r->0).len() == 0,
        r is Some && natives.len() > 0 ==> fields_of(r->0) == seq![
            ("$nor"@, listed(entries(natives))),
        ],
{
    lemma_translated(filters@, prefix, natives);
    lemma_listed(entries(natives));
}

/// Whether the filters can stand next to each other in one document: none of their keys begins with
/// a dollar sign, and no two of them are the same.
pub open spec fn can_stand_together(natives: Seq<Fields>) -> bool {
    &&& forall|d: int, i: int|
        0 <= d < natives.len() && 0 <= i < natives[d].len() ==> {
            let key = (#[trigger] natives[d][i]).0;
            key.len() == 0 || key[0] != '$'
        }
    &&& forall|d: int, i: int, e: int, j: int|
        0 <= d < natives.len() && 0 <= i < natives[d].len() && 0 <= e < natives.len() && 0 <= j
            < natives[e].len() && (d != e || i != j) ==> (#[trigger] natives[d][i]).0 != (
        #[trigger] natives[e][j]).0
}

/// The place of an entry when documents are put one after the other.
spec fn offset(natives: Seq<Fields>, d: int) -> int
    decreases d,
{
    if d <= 0 {
        0
    } else {
        offset(natives, d - 1) + natives[d - 1].len()
    }
}

proof fn lemma_offset_shifts(natives: Seq<Fields>, d: int)
    requires
        0 < d <= natives.len(),
    ensures
        offset(natives, d) == natives[0].len() + offset(natives.drop_first(), d - 1),
    decreases d,
{
    reveal_with_fuel(offset, 3);
    if d > 1 {
        lemma_offset_shifts(natives, d - 1);
        assert(natives.drop_first()[d - 2] == natives[d - 1]);
    }
}

/// Each entry is where the entries before it end.
proof fn lemma_flatten_at(natives: Seq<Fields>, d: int, i: int)
    requires
        0 <= d < natives.len(),
        0 <= i < natives[d].len(),
    ensures
        0 <= offset(natives, d),
        offset(natives, d) + i < natives.flatten().len(),
        natives.flatten()[offset(natives, d) + i] == natives[d][i],
    decreases natives.len(),
{
    let rest = natives.drop_first();
    assert(natives.flatten() == natives[0] + rest.flatten());
    if d > 0 {
        lemma_flatten_at(rest, d - 1, i);
        lemma_offset_shifts(natives, d);
    }
}

/// Each place is that of some entry.
proof fn lemma_flatten_from(natives: Seq<Fields>, k: int) -> (r: (int, int))
    requires
        0 <= k < natives.flatten().len(),
    ensures
        0 <= r.0 < natives.len(),
        0 <= r.1 < natives[r.0].len(),
        k == offset(natives, r.0) + r.1,
        natives.flatten()[k] == natives[r.0][r.1],
    decreases natives.len(),
{
    let rest = natives.drop_first();
    assert(natives.flatten() == natives[0] + rest.flatten());
    if k < natives[0].len() {
        (0, k)
    } else {
        let (d, i) = lemma_flatten_from(rest, k - natives[0].len());
        lemma_offset_shifts(natives, d + 1);
        (d + 1, i)
    }
}

proof fn lemma_offset_grows(natives: Seq<Fields>, d: int, e: int)
    requires
        0 <= d < e <= natives.len(),
    ensures
        offset(natives, d) + natives[d].len() <= offset(natives, e),
    decreases e,
{
    if d < e - 1 {
        lemma_offset_grows(natives, d, e - 1);
    }
}

proof fn lemma_stand_together(natives: Seq<Fields>)
    ensures
        flattenable(natives) <==> can_stand_together(natives),
{
    let all = natives.flatten();
    if flattenable(natives) {
        assert forall|d: int, i: int|
            0 <= d < natives.len() && 0 <= i < natives[d].len() implies {
            let key = (#[trigger] natives[d][i]).0;
            key.len() == 0 || key[0] != '$'
        } by {
            lemma_flatten_at(natives, d, i);
        }
        assert forall|d: int, i: int, e: int, j: int|
            0 <= d < natives.len() && 0 <= i < natives[d].len() && 0 <= e < natives.len() && 0 <= j
                < natives[e].len() && (d != e || i != j) implies (#[trigger] natives[d][i]).0 != (
        #[trigger] natives[e][j]).0 by {
            lemma_flatten_at(natives, d, i);
            lemma_flatten_at(natives, e, j);
            if d < e {
                lemma_offset_grows(natives, d, e);
            } else if e < d {
                lemma_offset_grows(natives, e, d);
            }
            let k = offset(natives, d) + i;
            let l = offset(natives, e) + j;
            assert(k != l);
            if k < l {
                assert(all[k].0 != all[l].0);
            } else {
                assert(all[l].0 != all[k].0);
            }
        }
    }
    if can_stand_together(natives) {
        assert forall|k: int| 0 <= k < all.len() implies !is_operator(
            (#[trigger] all[k]).0,
        ) by {
            let (d, i) = lemma_flatten_from(natives, k);
            assert(natives[d][i] == all[k]);
        }
        assert forall|k: int, l: int| 0 <= k < l < all.len() implies (#[trigger] all[k]).0 != (
        #[trigger] all[l]).0 by {
            let (d, i) = lemma_flatten_from(natives, k);
            let (e, j) = lemma_flatten_from(natives, l);
            assert(natives[d][i].0 != natives[e][j].0);
        }
    }
}

/// Documents can be merged if and only if no key of any of them begins with a dollar sign and no
/// two keys are the same, be it in one document or in two.
pub proof fn law_merging(natives: Vec<Document>, r: bool)
    requires
        call_ensures(can_flatten_native_and, (&natives,), r),
    ensures
        r <==> can_stand_together(fields_of_all(natives@)),
{
    lemma_stand_together(fields_of_all(natives@));
}

proof fn lemma_flatten_skips_empty(natives: Seq<Fields>)
    ensures
        natives.filter(|d: Fields| d.len() > 0).flatten() == natives.flatten(),
    decreases natives.len(),
{
    let not_empty = |d: Fields| d.len() > 0;
    reveal(Seq::filter);
    if natives.len() > 0 {
        let init = natives.drop_last();
        lemma_flatten_skips_empty(init);
        assert(init.push(natives.last()) =~= natives);
        init.lemma_flatten_push(natives.last());
        init.filter(not_empty).lemma_flatten_push(natives.last());
        if !not_empty(natives.last()) {
            assert(natives.flatten() =~= init.flatten());
        }
    }
}

/// A conjunction has a native form if and only if each of its parts has. Parts that hold of all
/// documents are left out. One part that is left stands for itself. More of them are put one after
/// the other into one document where they can stand together, and are listed in order where not.
pub proof fn law_conjunction_form(
    filters: Vec<Filter>,
    prefix: Option<&str>,
    natives: Seq<Option<Document>>,
    r: Option<Document>,
)
    requires
        are_translated(filters@, prefix, natives),
        call_ensures(try_to_native_filter_with_prefix, (&Filter::And(filters), prefix), r),
    ensures
        r is Some <==> are_all_there(natives),
        r is Some ==> {
            let kept = entries(natives).filter(|d: Fields| d.len() > 0);
            &&& kept.len() == 0 ==> fields_of(r->0).len() == 0
            &&& kept.len() == 1 ==> fields_of(r->0) == kept[0]
            &&& kept.len() > 1 && can_stand_together(kept) ==> fields_of(r->0) == entries(
                natives,
            ).flatten()
            &&& kept.len() > 1 && !can_stand_together(kept) ==> fields_of(r->0) == seq![
                ("$and"@, listed(kept)),
            ]
        },
{
    lemma_translated(filters@, prefix, natives);
    let kept = entries(natives).filter(|d: Fields| d.len() > 0);
    lemma_stand_together(kept);
    lemma_listed(kept);
    lemma_flatten_skips_empty(entries(natives));
}

/// The filter that holds of all documents has no entry, and the one that holds of none rejects it.
pub proof fn law_constant_filters(all: Document, none: Document)
    requires
        call_ensures(native_true_filter, (), all),
        call_ensures(native_false_filter, (), none),
    ensures
        fields_of(all).len() == 0,
        fields_of(none) == seq![("$nor"@, Value::Array(seq![Value::Doc(fields_of(all))]))],
{
    let empty = fields_of(all);
    assert(seq![empty].map_values(|d: Fields| Value::Doc(d)) =~= seq![Value::Doc(empty)]);
}

} // verus!
