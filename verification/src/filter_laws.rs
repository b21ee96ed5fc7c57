//! What holds of native filters as a whole.
use crate::condition::{
    condition_native, guarded, holds_null, native_test, needs_guard, path, presence,
    scalar_list_native, scalar_native,
};
use crate::document::{array_of, one, Fields, Value};
use crate::filter::{
    CompositeCondition, ConditionListValue, Filter, ScalarCondition, ScalarFilter,
    ScalarListCondition, ScalarListFilter, ScalarProjection,
};
use crate::native::{
    always, collected, conjunction, disjunction, flattenable, native, native_each, never, rejection,
};
use vstd::prelude::*;

verus! {

/// How MongoDB reads a test on a field of some document: whether the field at a path passes it.
pub type Reading = spec_fn(Seq<char>, Value) -> bool;

/// Whether a native filter holds of the document that `reading` is of: if all of its entries do.
pub open spec fn holds(reading: Reading, filter: Fields) -> bool
    decreases filter,
{
    forall|i: int|
        0 <= i < filter.len() ==> entry_holds(reading, (#[trigger] filter[i]).0, filter[i].1)
}

/// Whether an entry of a native filter holds: a logical operator over filters, or a test on a
/// field.
pub open spec fn entry_holds(reading: Reading, key: Seq<char>, value: Value) -> bool
    decreases value,
{
    match value {
        Value::Array(filters) if key == "$and"@ => forall|i: int|
            0 <= i < filters.len() ==> operand_holds(reading, #[trigger] filters[i]),
        Value::Array(filters) if key == "$or"@ => exists|i: int|
            0 <= i < filters.len() && operand_holds(reading, #[trigger] filters[i]),
        Value::Array(filters) if key == "$nor"@ => forall|i: int|
            0 <= i < filters.len() ==> !operand_holds(reading, #[trigger] filters[i]),
        _ => reading(key, value),
    }
}

/// Whether an operand of a logical operator holds.
pub open spec fn operand_holds(reading: Reading, operand: Value) -> bool
    decreases operand,
{
    match operand {
        Value::Doc(filter) => holds(reading, filter),
        _ => false,
    }
}

/// Whether the field at a path is set.
pub open spec fn is_set(reading: Reading, name: Seq<char>) -> bool {
    entry_holds(reading, name, Value::Doc(one("$exists"@, Value::Boolean(true))))
}

/// What a scalar filter says of a document.
pub open spec fn scalar_meaning(
    reading: Reading,
    sf: ScalarFilter,
    prefix: Option<Seq<char>>,
) -> bool {
    match sf.projection {
        ScalarProjection::Single(field) => {
            let name = path(prefix, field.db_name@);
            let test = native_test(sf.condition, sf.mode is Insensitive);
            &&& test is Some
            &&& entry_holds(reading, name, test->0)
            &&& needs_guard(sf.condition) ==> is_set(reading, name)
        },
        ScalarProjection::Compound(_) => false,
    }
}

/// What a filter says of a document, for filters that have a native form.
pub open spec fn meaning(reading: Reading, filter: Filter, prefix: Option<Seq<char>>) -> bool
    decreases filter,
{
    match filter {
        Filter::And(filters) => forall|i: int|
            0 <= i < filters@.len() ==> meaning(reading, #[trigger] filters@[i], prefix),
        Filter::Or(filters) => exists|i: int|
            0 <= i < filters@.len() && meaning(reading, #[trigger] filters@[i], prefix),
        Filter::Not(filters) => forall|i: int|
            0 <= i < filters@.len() ==> !meaning(reading, #[trigger] filters@[i], prefix),
        Filter::Scalar(sf) => scalar_meaning(reading, sf, prefix),
        Filter::ScalarList(slf) => match scalar_list_native(slf, prefix) {
            Some(test) => entry_holds(reading, test[0].0, test[0].1),
            None => false,
        },
        Filter::Composite(cf) => {
            let nested = path(prefix, cf.field.db_name@);
            match *cf.condition {
                CompositeCondition::Is(inner) => meaning(reading, inner, Some(nested)),
                CompositeCondition::IsNot(inner) => !meaning(reading, inner, Some(nested)),
                CompositeCondition::IsSet(set) => entry_holds(
                    reading,
                    nested,
                    Value::Doc(one("$exists"@, Value::Boolean(set))),
                ),
                CompositeCondition::Other(_) => false,
            }
        },
        Filter::Empty => true,
        Filter::Other(_) => false,
    }
}

/// The logical operators have different names.
proof fn lemma_operators_differ()
    ensures
        "$and"@ != "$or"@,
        "$and"@ != "$nor"@,
        "$or"@ != "$nor"@,
{
    reveal_strlit("$and");
    reveal_strlit("$or");
    reveal_strlit("$nor");
    assert("$and"@[1] != "$nor"@[1]);
    assert("$and"@[1] != "$or"@[1]);
    assert("$or"@[1] != "$nor"@[1]);
}

/// A filter with a single entry holds if that entry does.
proof fn lemma_one_holds(reading: Reading, key: Seq<char>, value: Value)
    ensures
        holds(reading, one(key, value)) == entry_holds(reading, key, value),
{
    assert(one(key, value)[0] == (key, value));
}

/// The logical operators over lists of filters.
proof fn lemma_operators_hold(reading: Reading, natives: Seq<Fields>)
    ensures
        holds(reading, one("$and"@, array_of(natives))) == (forall|i: int|
            0 <= i < natives.len() ==> holds(reading, #[trigger] natives[i])),
        holds(reading, one("$or"@, array_of(natives))) == (exists|i: int|
            0 <= i < natives.len() && holds(reading, #[trigger] natives[i])),
        holds(reading, one("$nor"@, array_of(natives))) == (forall|i: int|
            0 <= i < natives.len() ==> !holds(reading, #[trigger] natives[i])),
{
    lemma_operators_differ();
    lemma_one_holds(reading, "$and"@, array_of(natives));
    lemma_one_holds(reading, "$or"@, array_of(natives));
    lemma_one_holds(reading, "$nor"@, array_of(natives));
    let operands = natives.map_values(|d: Fields| Value::Doc(d));
    assert forall|i: int| 0 <= i < natives.len() implies operand_holds(
        reading,
        #[trigger] operands[i],
    ) == holds(reading, natives[i]) by {}
    assert forall|i: int| 0 <= i < natives.len() implies holds(reading, #[trigger] natives[i])
        == operand_holds(reading, operands[i]) by {}
}

/// A list of entries holds if its parts do.
proof fn lemma_flatten_holds(reading: Reading, natives: Seq<Fields>)
    ensures
        holds(reading, natives.flatten()) == (forall|i: int|
            0 <= i < natives.len() ==> holds(reading, #[trigger] natives[i])),
    decreases natives.len(),
{
    if natives.len() > 0 {
        let rest = natives.drop_first();
        lemma_flatten_holds(reading, rest);
        let all = natives.flatten();
        let first = natives[0];
        assert(all == first + rest.flatten());
        if holds(reading, all) {
            assert forall|i: int| 0 <= i < first.len() implies entry_holds(
                reading,
                (#[trigger] first[i]).0,
                first[i].1,
            ) by {
                assert(all[i] == first[i]);
            }
            assert forall|i: int| 0 <= i < rest.flatten().len() implies entry_holds(
                reading,
                (#[trigger] rest.flatten()[i]).0,
                rest.flatten()[i].1,
            ) by {
                assert(all[first.len() + i] == rest.flatten()[i]);
            }
            assert forall|i: int| 0 <= i < natives.len() implies holds(
                reading,
                #[trigger] natives[i],
            ) by {
                if i > 0 {
                    assert(rest[i - 1] == natives[i]);
                }
            }
        }
        if forall|i: int| 0 <= i < natives.len() ==> holds(reading, #[trigger] natives[i]) {
            assert forall|i: int| 0 <= i < rest.len() implies holds(reading, #[trigger] rest[i]) by {
                assert(rest[i] == natives[i + 1]);
            }
            assert forall|i: int| 0 <= i < all.len() implies entry_holds(
                reading,
                (#[trigger] all[i]).0,
                all[i].1,
            ) by {
                if i < first.len() {
                    assert(all[i] == first[i]);
                } else {
                    assert(all[i] == rest.flatten()[i - first.len()]);
                }
            }
        }
    }
}

/// Leaving out filters without entries changes nothing.
proof fn lemma_filter_holds(reading: Reading, natives: Seq<Fields>)
    ensures
        ({
            let kept = natives.filter(|d: Fields| d.len() > 0);
            (forall|i: int| 0 <= i < kept.len() ==> holds(reading, #[trigger] kept[i])) == (forall|
                i: int,
            | 0 <= i < natives.len() ==> holds(reading, #[trigger] natives[i]))
        }),
    decreases natives.len(),
{
    let not_empty = |d: Fields| d.len() > 0;
    let kept = natives.filter(not_empty);
    reveal(Seq::filter);
    if natives.len() > 0 {
        let init = natives.drop_last();
        lemma_filter_holds(reading, init);
        let kept_init = init.filter(not_empty);
        let last = natives.last();
        if forall|i: int| 0 <= i < kept.len() ==> holds(reading, #[trigger] kept[i]) {
            assert forall|i: int| 0 <= i < kept_init.len() implies holds(
                reading,
                #[trigger] kept_init[i],
            ) by {
                assert(kept[i] == kept_init[i]);
            }
            assert(holds(reading, last)) by {
                if not_empty(last) {
                    assert(kept[kept_init.len() as int] == last);
                }
            }
            assert forall|i: int| 0 <= i < natives.len() implies holds(
                reading,
                #[trigger] natives[i],
            ) by {
                if i < init.len() {
                    assert(init[i] == natives[i]);
                }
            }
        }
        if forall|i: int| 0 <= i < natives.len() ==> holds(reading, #[trigger] natives[i]) {
            assert forall|i: int| 0 <= i < init.len() implies holds(reading, #[trigger] init[i]) by {
                assert(natives[i] == init[i]);
            }
            assert(holds(reading, natives[natives.len() - 1]));
        }
    }
}

/// The native conjunction holds of a document if and only if all of the filters do: merging them
/// into one document, and leaving out those that always hold, changes nothing.
pub proof fn law_conjunction(reading: Reading, natives: Seq<Fields>)
    ensures
        holds(reading, conjunction(natives)) == (forall|i: int|
            0 <= i < natives.len() ==> holds(reading, #[trigger] natives[i])),
{
    let kept = natives.filter(|d: Fields| d.len() > 0);
    lemma_filter_holds(reading, natives);
    lemma_flatten_holds(reading, kept);
    lemma_operators_hold(reading, kept);
    if kept.len() == 1 {
        assert(holds(reading, kept[0]) == (forall|i: int|
            0 <= i < kept.len() ==> holds(reading, #[trigger] kept[i])));
    }
}

/// The native disjunction holds of a document if and only if one of the filters does: never if
/// there is none, always if one of them always does.
pub proof fn law_disjunction(reading: Reading, natives: Seq<Fields>)
    ensures
        holds(reading, disjunction(natives)) == (exists|i: int|
            0 <= i < natives.len() && holds(reading, #[trigger] natives[i])),
{
    lemma_operators_hold(reading, natives);
    if natives.len() == 0 {
        lemma_operators_hold(reading, seq![always()]);
        assert(holds(reading, seq![always()][0]));
    } else if exists|i: int| 0 <= i < natives.len() && (#[trigger] natives[i]).len() == 0 {
        let i = choose|i: int| 0 <= i < natives.len() && (#[trigger] natives[i]).len() == 0;
        assert(holds(reading, natives[i]));
    }
}

/// The native rejection holds of a document if and only if none of the filters does.
pub proof fn law_rejection(reading: Reading, natives: Seq<Fields>)
    ensures
        holds(reading, rejection(natives)) == (forall|i: int|
            0 <= i < natives.len() ==> !holds(reading, #[trigger] natives[i])),
{
    lemma_operators_hold(reading, natives);
}

/// The native form of a filter holds of exactly the documents that the filter describes, however
/// MongoDB reads the tests on single fields.
pub proof fn law_native_keeps_meaning(
    reading: Reading,
    filter: Filter,
    prefix: Option<Seq<char>>,
)
    requires
        native(filter, prefix) is Some,
    ensures
        holds(reading, native(filter, prefix)->0) == meaning(reading, filter, prefix),
    decreases filter,
{
    match filter {
        Filter::And(filters) => {
            let natives = collected(native_each(filters@, prefix))->0;
            lemma_each_keeps_meaning(reading, filters@, prefix);
            law_conjunction(reading, natives);
        },
        Filter::Or(filters) => {
            let natives = collected(native_each(filters@, prefix))->0;
            lemma_each_keeps_meaning(reading, filters@, prefix);
            law_disjunction(reading, natives);
            assert forall|i: int|
                0 <= i < natives.len() && holds(reading, #[trigger] natives[i]) implies meaning(
                reading,
                filters@[i],
                prefix,
            ) by {}
            assert forall|i: int|
                0 <= i < natives.len() && meaning(
                    reading,
                    #[trigger] filters@[i],
                    prefix,
                ) implies holds(reading, natives[i]) by {}
        },
        Filter::Not(filters) => {
            let natives = collected(native_each(filters@, prefix))->0;
            lemma_each_keeps_meaning(reading, filters@, prefix);
            law_rejection(reading, natives);
            assert forall|i: int|
                0 <= i < natives.len() && holds(reading, #[trigger] natives[i]) implies meaning(
                reading,
                filters@[i],
                prefix,
            ) by {}
            assert forall|i: int|
                0 <= i < natives.len() && meaning(
                    reading,
                    #[trigger] filters@[i],
                    prefix,
                ) implies holds(reading, natives[i]) by {}
        },
        Filter::Scalar(sf) => lemma_scalar_meaning(reading, sf, prefix),
        Filter::ScalarList(slf) => {
            let d = scalar_list_native(slf, prefix)->0;
            lemma_one_holds(reading, d[0].0, d[0].1);
            assert(d =~= one(d[0].0, d[0].1));
        },
        Filter::Composite(cf) => {
            let nested = path(prefix, cf.field.db_name@);
            match *cf.condition {
                CompositeCondition::Is(inner) => {
                    law_native_keeps_meaning(reading, inner, Some(nested));
                },
                CompositeCondition::IsNot(inner) => {
                    law_native_keeps_meaning(reading, inner, Some(nested));
                    let n = native(inner, Some(nested))->0;
                    law_rejection(reading, seq![n]);
                    assert(seq![n][0] == n);
                },
                CompositeCondition::IsSet(set) => {
                    lemma_one_holds(
                        reading,
                        nested,
                        Value::Doc(one("$exists"@, Value::Boolean(set))),
                    );
                },
                CompositeCondition::Other(_) => {},
            }
        },
        Filter::Empty => {},
        Filter::Other(_) => {},
    }
}

proof fn lemma_scalar_meaning(reading: Reading, sf: ScalarFilter, prefix: Option<Seq<char>>)
    requires
        scalar_native(sf, prefix) is Some,
    ensures
        holds(reading, scalar_native(sf, prefix)->0) == scalar_meaning(reading, sf, prefix),
{
    let name = path(prefix, sf.projection->Single_0.db_name@);
    let test = native_test(sf.condition, sf.mode is Insensitive)->0;
    lemma_one_holds(reading, name, test);
    let set = Value::Doc(one("$exists"@, Value::Boolean(true)));
    lemma_one_holds(reading, name, set);
    let both = seq![presence(name, true), one(name, test)];
    lemma_operators_hold(reading, both);
    if holds(reading, guarded(name, test)) {
        assert(holds(reading, both[0]) && holds(reading, both[1]));
    }
}

proof fn lemma_each_keeps_meaning(
    reading: Reading,
    filters: Seq<Filter>,
    prefix: Option<Seq<char>>,
)
    requires
        collected(native_each(filters, prefix)) is Some,
    ensures
        collected(native_each(filters, prefix))->0.len() == filters.len(),
        forall|i: int|
            #![trigger filters[i]]
            #![trigger collected(native_each(filters, prefix))->0[i]]
            0 <= i < filters.len() ==> holds(
                reading,
                collected(native_each(filters, prefix))->0[i],
            ) == meaning(reading, filters[i], prefix),
    decreases filters,
{
    let results = native_each(filters, prefix);
    assert forall|i: int| 0 <= i < filters.len() implies holds(
        reading,
        #[trigger] collected(results)->0[i],
    ) == meaning(reading, filters[i], prefix) by {
        assert(results[i] is Some);
        law_native_keeps_meaning(reading, filters[i], prefix);
    }
}

/// Null equality and negative conditions never hold of a document that lacks the field, though
/// MongoDB's own operators for them do.
pub proof fn law_missing_fields_are_excluded(
    reading: Reading,
    name: Seq<char>,
    condition: ScalarCondition,
    insensitive: bool,
)
    requires
        needs_guard(condition),
        condition_native(name, condition, insensitive) is Some,
        !is_set(reading, name),
    ensures
        !holds(reading, condition_native(name, condition, insensitive)->0),
{
    let test = native_test(condition, insensitive)->0;
    let set = Value::Doc(one("$exists"@, Value::Boolean(true)));
    lemma_one_holds(reading, name, set);
    let both = seq![presence(name, true), one(name, test)];
    lemma_operators_hold(reading, both);
    assert(both[0] == one(name, set));
}

/// Whether a condition refers to another field.
pub open spec fn refers_to_field(condition: ScalarCondition) -> bool {
    match condition {
        ScalarCondition::Equals(v)
        | ScalarCondition::NotEquals(v)
        | ScalarCondition::Contains(v)
        | ScalarCondition::NotContains(v)
        | ScalarCondition::StartsWith(v)
        | ScalarCondition::NotStartsWith(v)
        | ScalarCondition::EndsWith(v)
        | ScalarCondition::NotEndsWith(v)
        | ScalarCondition::LessThan(v)
        | ScalarCondition::LessThanOrEquals(v)
        | ScalarCondition::GreaterThan(v)
        | ScalarCondition::GreaterThanOrEquals(v) => v is FieldRef,
        ScalarCondition::In(v) | ScalarCondition::NotIn(v) => v is FieldRef,
        ScalarCondition::IsSet(_) => false,
        ScalarCondition::Other(_) => false,
    }
}

/// Whether a condition is a comparison of order or a test for membership.
pub open spec fn is_order_or_membership(condition: ScalarCondition) -> bool {
    match condition {
        ScalarCondition::LessThan(_)
        | ScalarCondition::LessThanOrEquals(_)
        | ScalarCondition::GreaterThan(_)
        | ScalarCondition::GreaterThanOrEquals(_)
        | ScalarCondition::In(_)
        | ScalarCondition::NotIn(_) => true,
        _ => false,
    }
}

/// Whether a condition tests for membership in a list that holds null.
pub open spec fn lists_null(condition: ScalarCondition) -> bool {
    match condition {
        ScalarCondition::In(ConditionListValue::List(vs)) => holds_null(vs@),
        ScalarCondition::NotIn(ConditionListValue::List(vs)) => holds_null(vs@),
        _ => false,
    }
}

/// Scalar filters that have no native form: on several fields, in an unknown mode, with reference
/// to another field, of another kind, in a list with null, and order or membership without regard
/// to case.
pub proof fn law_scalar_fallback(sf: ScalarFilter, prefix: Option<Seq<char>>)
    requires
        ({
            ||| sf.projection is Compound
            ||| sf.mode is Other
            ||| sf.condition is Other
            ||| refers_to_field(sf.condition)
            ||| lists_null(sf.condition)
            ||| sf.mode is Insensitive && is_order_or_membership(sf.condition)
        }),
    ensures
        native(Filter::Scalar(sf), prefix) is None,
{
}

/// List filters that have no native form: with reference to another field, and for the elements of
/// an empty list.
pub proof fn law_scalar_list_fallback(slf: ScalarListFilter, prefix: Option<Seq<char>>)
    requires
        match slf.condition {
            ScalarListCondition::Contains(v) => v is FieldRef,
            ScalarListCondition::ContainsSome(ConditionListValue::List(vs)) => vs@.len() == 0,
            ScalarListCondition::ContainsEvery(ConditionListValue::List(vs)) => vs@.len() == 0,
            ScalarListCondition::ContainsSome(ConditionListValue::FieldRef(_)) => true,
            ScalarListCondition::ContainsEvery(ConditionListValue::FieldRef(_)) => true,
            ScalarListCondition::IsEmpty(_) => false,
        },
    ensures
        native(Filter::ScalarList(slf), prefix) is None,
{
}

/// A logical combination of filters has a native form if and only if all of its parts do: a filter
/// is never in native syntax in part.
pub proof fn law_native_in_whole(filter: Filter, parts: Vec<Filter>, prefix: Option<Seq<char>>)
    requires
        filter == Filter::And(parts) || filter == Filter::Or(parts) || filter == Filter::Not(parts),
    ensures
        native(filter, prefix) is Some <==> (forall|i: int|
            0 <= i < parts@.len() ==> native(#[trigger] parts@[i], prefix) is Some),
{
    let results = native_each(parts@, prefix);
    assert forall|i: int| 0 <= i < parts@.len() implies #[trigger] results[i] == native(
        parts@[i],
        prefix,
    ) by {}
    if collected(results) is Some {
        assert forall|i: int| 0 <= i < parts@.len() implies native(
            #[trigger] parts@[i],
            prefix,
        ) is Some by {
            assert(results[i] is Some);
        }
    }
}

/// The native form of an empty disjunction holds of no document, and those of an empty conjunction
/// and of an empty negation hold of every document.
pub proof fn law_empty_combinations(
    reading: Reading,
    none: Vec<Filter>,
    prefix: Option<Seq<char>>,
)
    requires
        none@.len() == 0,
    ensures
        native(Filter::Or(none), prefix) matches Some(d) && !holds(reading, d),
        native(Filter::And(none), prefix) matches Some(d) && holds(reading, d),
        native(Filter::Not(none), prefix) matches Some(d) && holds(reading, d),
{
    let natives = collected(native_each(none@, prefix));
    assert(natives is Some && natives->0.len() == 0);
    law_conjunction(reading, natives->0);
    law_disjunction(reading, natives->0);
    law_rejection(reading, natives->0);
}

/// Merging loses nothing: where documents can be merged, each of their fields is in the result with
/// its value, and no key occurs twice there.
pub proof fn law_flattening_keeps_fields(natives: Seq<Fields>, i: int, j: int)
    requires
        flattenable(natives),
        0 <= i < natives.len(),
        0 <= j < natives[i].len(),
    ensures
        natives.flatten().contains(natives[i][j]),
        forall|a: int, b: int|
            0 <= a < b < natives.flatten().len() ==> (#[trigger] natives.flatten()[a]).0 != (
            #[trigger] natives.flatten()[b]).0,
{
    lemma_flatten_contains(natives, i, j);
}

proof fn lemma_flatten_contains(natives: Seq<Fields>, i: int, j: int)
    requires
        0 <= i < natives.len(),
        0 <= j < natives[i].len(),
    ensures
        natives.flatten().contains(natives[i][j]),
    decreases natives.len(),
{
    let rest = natives.drop_first();
    let all = natives.flatten();
    assert(all == natives[0] + rest.flatten());
    if i == 0 {
        assert(all[j] == natives[0][j]);
    } else {
        lemma_flatten_contains(rest, i - 1, j);
        let k = choose|k: int| 0 <= k < rest.flatten().len() && rest.flatten()[k] == rest[i - 1][j];
        assert(all[natives[0].len() + k] == natives[i][j]);
    }
}

/// A field of a document within a document is found by the two names with a dot between them,
/// wherever the outer document is.
pub proof fn law_paths_nest(prefix: Option<Seq<char>>, outer: Seq<char>, inner: Seq<char>)
    requires
        outer.len() > 0,
    ensures
        path(Some(path(prefix, outer)), inner) == path(prefix, outer + "."@ + inner),
{
    assert(path(Some(path(prefix, outer)), inner) =~= path(prefix, outer + "."@ + inner));
}

} // verus!
