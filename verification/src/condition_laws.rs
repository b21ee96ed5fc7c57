//! What the native form of a condition on a single field has to be.
//!
//! The laws speak of what the functions return: `call_ensures(f, arguments, r)` is that a call of
//! `f` may return `r`.
use crate::condition::{
    anchored, chars_of, encoded_all, guarded, join_field_path, native_test, path, presence,
    regex_filter_doc, try_scalar_list_to_native, try_scalar_to_native,
};
use crate::document::{fields_of, one, value_of, Fields, Value};
use crate::filter::{
    ConditionListValue, ConditionValue, PrismaValue, ScalarCondition, ScalarField, ScalarFilter,
    ScalarListCondition, ScalarListFilter, ScalarProjection,
};
use crate::filter_laws::refers_to_field;
use crate::pattern::escaped;
use bson::{Bson, Document};
use vstd::prelude::*;

verus! {

/// Where the field of that name is found below a prefix.
pub open spec fn place(prefix: Option<&str>, name: Seq<char>) -> Seq<char> {
    if prefix is Some && prefix->0@.len() > 0 {
        prefix->0@ + seq!['.'] + name
    } else {
        name
    }
}

/// The joined path is the name itself where there is nothing to put it below, and else begins with
/// the prefix, ends with the name and has a single dot between them.
pub proof fn law_joined_path(prefix: Option<&str>, name: &str, r: String)
    requires
        call_ensures(join_field_path, (prefix, name), r),
    ensures
        r@ == place(prefix, name@),
        prefix is None ==> r@ == name@,
        prefix is Some && prefix->0@.len() == 0 ==> r@ == name@,
        prefix is Some && prefix->0@.len() > 0 ==> {
            let p = prefix->0@;
            &&& r@.len() == p.len() + 1 + name@.len()
            &&& r@.take(p.len() as int) == p
            &&& r@[p.len() as int] == '.'
            &&& r@.skip(p.len() + 1int) == name@
        },
{
    reveal_strlit(".");
    assert("."@ =~= seq!['.']);
    if prefix is Some && prefix->0@.len() > 0 {
        let p = prefix->0@;
        assert(r@.take(p.len() as int) =~= p);
        assert(r@.skip(p.len() + 1int) =~= name@);
    }
}

/// The filter for a pattern holds the pattern, and the option to ignore case if and only if that is
/// asked for.
pub proof fn law_regex_filter(pattern: String, insensitive: bool, r: Document)
    requires
        call_ensures(regex_filter_doc, (pattern, insensitive), r),
    ensures
        fields_of(r).len() == (if insensitive {
            2int
        } else {
            1
        }),
        fields_of(r)[0] == ("$regex"@, Value::Text(pattern@)),
        insensitive ==> fields_of(r)[1] == ("$options"@, Value::Text("i"@)),
{
}

/// The encoding of an operand is the one that stands next to it, whatever the operand is, and only
/// text reads as a string.
pub proof fn law_operands(
    operand: PrismaValue,
    encoding: Option<Bson>,
    string: Option<&str>,
)
    requires
        call_ensures(PrismaValue::to_bson, (&operand,), encoding),
        call_ensures(PrismaValue::as_string, (&operand,), string),
    ensures
        match operand {
            PrismaValue::Null { bson: Some(b) }
            | PrismaValue::Text { text: _, bson: Some(b) }
            | PrismaValue::Other { bson: Some(b) } => encoding is Some && value_of(encoding->0)
                == value_of(b),
            _ => encoding is None,
        },
        string is Some <==> operand is Text,
        operand is Text ==> string->0@ == operand->text@,
{
}

/// A filter on one field, in a mode that is known.
pub open spec fn is_on(sf: ScalarFilter, field: ScalarField) -> bool {
    sf.projection == ScalarProjection::Single(field) && !(sf.mode is Other)
}

/// The test at `name` that also asks for the field to be set.
pub open spec fn set_and(name: Seq<char>, test: Value) -> Seq<(Seq<char>, Value)> {
    seq![
        (
            "$and"@,
            Value::Array(
                seq![
                    Value::Doc(
                        seq![(name, Value::Doc(seq![("$exists"@, Value::Boolean(true))]))],
                    ),
                    Value::Doc(seq![(name, test)]),
                ],
            ),
        ),
    ]
}

/// The value that a string has to match: the escaped operand, with `^` before it exactly where it
/// is to stand at the start and `$` after it exactly where it is to stand at the end, and the option
/// `i` exactly where case is ignored.
pub open spec fn matching(text: Seq<char>, start: bool, end: bool, insensitive: bool) -> Value {
    let head = if start {
        seq!['^']
    } else {
        seq![]
    };
    let tail = if end {
        seq!['$']
    } else {
        seq![]
    };
    let regex = ("$regex"@, Value::Text(head + escaped(text) + tail));
    Value::Doc(
        if insensitive {
            seq![regex, ("$options"@, Value::Text("i"@))]
        } else {
            seq![regex]
        },
    )
}

proof fn lemma_guards(name: Seq<char>, test: Value)
    ensures
        guarded(name, test) == set_and(name, test),
{
    let both = seq![presence(name, true), one(name, test)];
    assert(both.map_values(|d: Fields| Value::Doc(d)) =~= seq![
        Value::Doc(both[0]),
        Value::Doc(both[1]),
    ]);
}

proof fn lemma_anchors(text: Seq<char>, start: bool, end: bool)
    ensures
        anchored(text, start, end) == (if start {
            seq!['^']
        } else {
            seq![]
        }) + escaped(text) + (if end {
            seq!['$']
        } else {
            seq![]
        }),
{
    reveal_strlit("^");
    reveal_strlit("$");
    assert("^"@ =~= seq!['^']);
    assert("$"@ =~= seq!['$']);
}

proof fn lemma_place(prefix: Option<&str>, name: Seq<char>)
    ensures
        path(chars_of(prefix), name) == place(prefix, name),
{
    reveal_strlit(".");
    assert("."@ =~= seq!['.']);
}

/// What a string holds, in whichever mode: there is a native form if and only if the operand is
/// text. Its pattern is the escaped operand, anchored exactly on the side that the condition names,
/// and it ignores case if and only if the mode does.
pub proof fn law_string_conditions(
    sf: ScalarFilter,
    field: ScalarField,
    operand: PrismaValue,
    prefix: Option<&str>,
    r: Option<Document>,
)
    requires
        call_ensures(try_scalar_to_native, (&sf, prefix), r),
        is_on(sf, field),
        ({
            ||| sf.condition == ScalarCondition::StartsWith(ConditionValue::Value(operand))
            ||| sf.condition == ScalarCondition::EndsWith(ConditionValue::Value(operand))
            ||| sf.condition == ScalarCondition::Contains(ConditionValue::Value(operand))
        }),
    ensures
        r is Some <==> operand is Text,
        operand is Text ==> fields_of(r->0) == seq![
            (
                place(prefix, field.db_name@),
                matching(
                    operand->text@,
                    sf.condition is StartsWith,
                    sf.condition is EndsWith,
                    sf.mode is Insensitive,
                ),
            ),
        ],
{
    lemma_place(prefix, field.db_name@);
    if operand is Text {
        lemma_anchors(operand->text@, sf.condition is StartsWith, sf.condition is EndsWith);
    }
}

/// What a string does not hold, in whichever mode: as for [`law_string_conditions`], but for a
/// field that is set and does not match.
pub proof fn law_negated_string_conditions(
    sf: ScalarFilter,
    field: ScalarField,
    operand: PrismaValue,
    prefix: Option<&str>,
    r: Option<Document>,
)
    requires
        call_ensures(try_scalar_to_native, (&sf, prefix), r),
        is_on(sf, field),
        ({
            ||| sf.condition == ScalarCondition::NotStartsWith(ConditionValue::Value(operand))
            ||| sf.condition == ScalarCondition::NotEndsWith(ConditionValue::Value(operand))
            ||| sf.condition == ScalarCondition::NotContains(ConditionValue::Value(operand))
        }),
    ensures
        r is Some <==> operand is Text,
        operand is Text ==> fields_of(r->0) == set_and(
            place(prefix, field.db_name@),
            Value::Doc(
                seq![
                    (
                        "$not"@,
                        matching(
                            operand->text@,
                            sf.condition is NotStartsWith,
                            sf.condition is NotEndsWith,
                            sf.mode is Insensitive,
                        ),
                    ),
                ],
            ),
        ),
{
    lemma_place(prefix, field.db_name@);
    if operand is Text {
        let start = sf.condition is NotStartsWith;
        let end = sf.condition is NotEndsWith;
        lemma_anchors(operand->text@, start, end);
        lemma_guards(
            place(prefix, field.db_name@),
            Value::Doc(
                seq![
                    ("$not"@, matching(operand->text@, start, end, sf.mode is Insensitive)),
                ],
            ),
        );
    }
}

/// Whether `negative` is the negation of `positive`.
pub open spec fn are_opposite(positive: ScalarCondition, negative: ScalarCondition) -> bool {
    match (positive, negative) {
        (ScalarCondition::Equals(a), ScalarCondition::NotEquals(b)) => a == b,
        (ScalarCondition::Contains(a), ScalarCondition::NotContains(b)) => a == b,
        (ScalarCondition::StartsWith(a), ScalarCondition::NotStartsWith(b)) => a == b,
        (ScalarCondition::EndsWith(a), ScalarCondition::NotEndsWith(b)) => a == b,
        (ScalarCondition::In(a), ScalarCondition::NotIn(b)) => a == b,
        _ => false,
    }
}

/// A condition and its negation have a native form for the same operands and in the same modes, and
/// the negation always asks for the field to be set.
pub proof fn law_negation_has_a_form_with_its_opposite(
    sf: ScalarFilter,
    negated: ScalarFilter,
    field: ScalarField,
    prefix: Option<&str>,
    r: Option<Document>,
    negated_r: Option<Document>,
)
    requires
        call_ensures(try_scalar_to_native, (&sf, prefix), r),
        call_ensures(try_scalar_to_native, (&negated, prefix), negated_r),
        sf.projection == negated.projection,
        sf.mode == negated.mode,
        is_on(sf, field),
        are_opposite(sf.condition, negated.condition),
    ensures
        r is Some <==> negated_r is Some,
        negated_r is Some ==> exists|test: Value|
            fields_of(negated_r->0) == #[trigger] set_and(place(prefix, field.db_name@), test),
{
    lemma_place(prefix, field.db_name@);
    if negated_r is Some {
        let test = native_test(
            negated.condition,
            negated.mode is Insensitive,
        )->0;
        lemma_guards(place(prefix, field.db_name@), test);
    }
}

/// To ignore case adds the option `i` to a string condition and changes nothing else of it.
pub proof fn law_mode_only_adds_the_option(
    sensitive: ScalarFilter,
    insensitive: ScalarFilter,
    field: ScalarField,
    text: String,
    bson: Option<Bson>,
    prefix: Option<&str>,
    r: Option<Document>,
    insensitive_r: Option<Document>,
)
    requires
        call_ensures(try_scalar_to_native, (&sensitive, prefix), r),
        call_ensures(try_scalar_to_native, (&insensitive, prefix), insensitive_r),
        sensitive.projection == ScalarProjection::Single(field),
        insensitive.projection == sensitive.projection,
        insensitive.condition == sensitive.condition,
        sensitive.mode is Default,
        insensitive.mode is Insensitive,
        ({
            let v = ConditionValue::Value(PrismaValue::Text { text, bson });
            ||| sensitive.condition == ScalarCondition::StartsWith(v)
            ||| sensitive.condition == ScalarCondition::EndsWith(v)
            ||| sensitive.condition == ScalarCondition::Contains(v)
        }),
    ensures
        r is Some && insensitive_r is Some,
        ({
            let plain = fields_of(r->0);
            let relaxed = fields_of(insensitive_r->0);
            &&& plain.len() == 1 && relaxed.len() == 1
            &&& plain[0].0 == relaxed[0].0
            &&& plain[0].1 is Doc && relaxed[0].1 is Doc
            &&& relaxed[0].1->Doc_0 == plain[0].1->Doc_0.push(("$options"@, Value::Text("i"@)))
        }),
{
}

/// Equality: null is asked for on a field that is set. Any other operand is compared by its
/// encoding, or as a whole string where case is ignored.
pub proof fn law_equality(
    sf: ScalarFilter,
    field: ScalarField,
    operand: PrismaValue,
    encoding: Option<Bson>,
    prefix: Option<&str>,
    r: Option<Document>,
)
    requires
        call_ensures(try_scalar_to_native, (&sf, prefix), r),
        call_ensures(PrismaValue::to_bson, (&operand,), encoding),
        is_on(sf, field),
        sf.condition == ScalarCondition::Equals(ConditionValue::Value(operand)),
    ensures
        operand is Null ==> r is Some && fields_of(r->0) == set_and(
            place(prefix, field.db_name@),
            Value::Null,
        ),
        !(operand is Null) && sf.mode is Default ==> (r is Some <==> encoding is Some),
        !(operand is Null) && sf.mode is Default && encoding is Some ==> fields_of(r->0) == seq![
            (place(prefix, field.db_name@), value_of(encoding->0)),
        ],
        !(operand is Null) && sf.mode is Insensitive ==> (r is Some <==> operand is Text),
        operand is Text && sf.mode is Insensitive ==> fields_of(r->0) == seq![
            (place(prefix, field.db_name@), matching(operand->text@, true, true, true)),
        ],
{
    lemma_place(prefix, field.db_name@);
    lemma_guards(place(prefix, field.db_name@), Value::Null);
    if operand is Text {
        lemma_anchors(operand->text@, true, true);
    }
}

/// Inequality: as for [`law_equality`], but for a field that is set and differs.
pub proof fn law_inequality(
    sf: ScalarFilter,
    field: ScalarField,
    operand: PrismaValue,
    encoding: Option<Bson>,
    prefix: Option<&str>,
    r: Option<Document>,
)
    requires
        call_ensures(try_scalar_to_native, (&sf, prefix), r),
        call_ensures(PrismaValue::to_bson, (&operand,), encoding),
        is_on(sf, field),
        sf.condition == ScalarCondition::NotEquals(ConditionValue::Value(operand)),
    ensures
        operand is Null ==> r is Some && fields_of(r->0) == set_and(
            place(prefix, field.db_name@),
            Value::Doc(seq![("$ne"@, Value::Null)]),
        ),
        !(operand is Null) && sf.mode is Default ==> (r is Some <==> encoding is Some),
        !(operand is Null) && sf.mode is Default && encoding is Some ==> fields_of(r->0)
            == set_and(
            place(prefix, field.db_name@),
            Value::Doc(seq![("$ne"@, value_of(encoding->0))]),
        ),
        !(operand is Null) && sf.mode is Insensitive ==> (r is Some <==> operand is Text),
        operand is Text && sf.mode is Insensitive ==> fields_of(r->0) == set_and(
            place(prefix, field.db_name@),
            Value::Doc(seq![("$not"@, matching(operand->text@, true, true, true))]),
        ),
{
    let name = place(prefix, field.db_name@);
    lemma_place(prefix, field.db_name@);
    lemma_guards(name, Value::Doc(seq![("$ne"@, Value::Null)]));
    if encoding is Some {
        lemma_guards(name, Value::Doc(seq![("$ne"@, value_of(encoding->0))]));
    }
    if operand is Text {
        lemma_anchors(operand->text@, true, true);
        lemma_guards(
            name,
            Value::Doc(seq![("$not"@, matching(operand->text@, true, true, true))]),
        );
    }
}

/// Order: there is a native form exactly where case is regarded and the operand has an encoding,
/// and its operator is the one that the condition names.
pub proof fn law_order(
    sf: ScalarFilter,
    field: ScalarField,
    operand: PrismaValue,
    encoding: Option<Bson>,
    prefix: Option<&str>,
    r: Option<Document>,
)
    requires
        call_ensures(try_scalar_to_native, (&sf, prefix), r),
        call_ensures(PrismaValue::to_bson, (&operand,), encoding),
        is_on(sf, field),
        ({
            let v = ConditionValue::Value(operand);
            ||| sf.condition == ScalarCondition::LessThan(v)
            ||| sf.condition == ScalarCondition::LessThanOrEquals(v)
            ||| sf.condition == ScalarCondition::GreaterThan(v)
            ||| sf.condition == ScalarCondition::GreaterThanOrEquals(v)
        }),
    ensures
        r is Some <==> sf.mode is Default && encoding is Some,
        r is Some ==> {
            let test = |operator: Seq<char>|
                seq![
                    (
                        place(prefix, field.db_name@),
                        Value::Doc(seq![(operator, value_of(encoding->0))]),
                    ),
                ];
            &&& sf.condition is LessThan ==> fields_of(r->0) == test("$lt"@)
            &&& sf.condition is LessThanOrEquals ==> fields_of(r->0) == test("$lte"@)
            &&& sf.condition is GreaterThan ==> fields_of(r->0) == test("$gt"@)
            &&& sf.condition is GreaterThanOrEquals ==> fields_of(r->0) == test("$gte"@)
        },
{
    lemma_place(prefix, field.db_name@);
}

/// Whether `encodings` are the encodings of the operands, one for one.
pub open spec fn are_encodings(operands: Seq<PrismaValue>, encodings: Seq<Option<Bson>>) -> bool {
    &&& encodings.len() == operands.len()
    &&& forall|i: int|
        0 <= i < operands.len() ==> call_ensures(
            PrismaValue::to_bson,
            (&operands[i],),
            #[trigger] encodings[i],
        )
}

/// The encodings as the elements of an array, in order.
pub open spec fn elements(encodings: Seq<Option<Bson>>) -> Value {
    Value::Array(Seq::new(encodings.len(), |i: int| value_of(encodings[i]->0)))
}

proof fn lemma_encodings(operands: Seq<PrismaValue>, encodings: Seq<Option<Bson>>)
    requires
        are_encodings(operands, encodings),
    ensures
        encoded_all(operands) is Some <==> (forall|i: int|
            0 <= i < encodings.len() ==> (#[trigger] encodings[i]) is Some),
        encoded_all(operands) matches Some(vs) ==> Value::Array(vs) == elements(
            encodings,
        ),
{
    assert forall|i: int| 0 <= i < operands.len() implies {
        &&& (#[trigger] operands[i]).encoded() is Some <==> encodings[i] is Some
        &&& encodings[i] is Some ==> operands[i].encoded() == Some(value_of(encodings[i]->0))
    } by {
        assert(call_ensures(PrismaValue::to_bson, (&operands[i],), encodings[i]));
    }
    if encoded_all(operands) is Some {
        assert forall|i: int| 0 <= i < encodings.len() implies (#[trigger] encodings[i]) is Some by {
            assert(operands[i].encoded() is Some);
        }
        assert(encoded_all(operands)->0 =~= Seq::new(
            encodings.len(),
            |i: int| value_of(encodings[i]->0),
        ));
    }
}

/// Membership: there is a native form exactly where case is regarded, null is not among the
/// operands and each of them has an encoding. It lists all encodings in order, and that a field is
/// not a member asks for the field to be set.
pub proof fn law_membership(
    sf: ScalarFilter,
    field: ScalarField,
    operands: Vec<PrismaValue>,
    encodings: Seq<Option<Bson>>,
    prefix: Option<&str>,
    r: Option<Document>,
)
    requires
        call_ensures(try_scalar_to_native, (&sf, prefix), r),
        are_encodings(operands@, encodings),
        is_on(sf, field),
        ({
            ||| sf.condition == ScalarCondition::In(ConditionListValue::List(operands))
            ||| sf.condition == ScalarCondition::NotIn(ConditionListValue::List(operands))
        }),
    ensures
        r is Some <==> sf.mode is Default && forall|i: int|
            0 <= i < operands@.len() ==> !((#[trigger] operands@[i]) is Null) && encodings[i] is Some,
        r is Some && sf.condition is In ==> fields_of(r->0) == seq![
            (place(prefix, field.db_name@), Value::Doc(seq![("$in"@, elements(encodings))])),
        ],
        r is Some && sf.condition is NotIn ==> fields_of(r->0) == set_and(
            place(prefix, field.db_name@),
            Value::Doc(seq![("$nin"@, elements(encodings))]),
        ),
{
    lemma_place(prefix, field.db_name@);
    lemma_encodings(operands@, encodings);
    lemma_guards(
        place(prefix, field.db_name@),
        Value::Doc(seq![("$nin"@, elements(encodings))]),
    );
    if r is Some {
        assert forall|i: int| 0 <= i < operands@.len() implies !((#[trigger] operands@[i]) is Null)
            && encodings[i] is Some by {}
    }
    if forall|i: int|
        0 <= i < operands@.len() ==> !((#[trigger] operands@[i]) is Null) && encodings[i] is Some {
        assert forall|i: int| 0 <= i < encodings.len() implies (#[trigger] encodings[i]) is Some by {
            assert(!(operands@[i] is Null));
        }
    }
}

/// Whether a field is set is asked for directly, in either mode.
pub proof fn law_presence(
    sf: ScalarFilter,
    field: ScalarField,
    set: bool,
    prefix: Option<&str>,
    r: Option<Document>,
)
    requires
        call_ensures(try_scalar_to_native, (&sf, prefix), r),
        is_on(sf, field),
        sf.condition == ScalarCondition::IsSet(set),
    ensures
        r is Some,
        fields_of(r->0) == seq![
            (
                place(prefix, field.db_name@),
                Value::Doc(seq![("$exists"@, Value::Boolean(set))]),
            ),
        ],
{
    lemma_place(prefix, field.db_name@);
}

/// Filters on several fields, in an unknown mode, with an operand that is another field or of
/// another kind are left to the expressions.
pub proof fn law_left_to_expressions(sf: ScalarFilter, prefix: Option<&str>, r: Option<Document>)
    requires
        call_ensures(try_scalar_to_native, (&sf, prefix), r),
        ({
            ||| sf.projection is Compound
            ||| sf.mode is Other
            ||| sf.condition is Other
            ||| refers_to_field(sf.condition)
        }),
    ensures
        r is None,
{
}

/// A list holds a value: native exactly where the value has an encoding, which is then the test.
pub proof fn law_list_contains(
    slf: ScalarListFilter,
    operand: PrismaValue,
    encoding: Option<Bson>,
    prefix: Option<&str>,
    r: Option<Document>,
)
    requires
        call_ensures(try_scalar_list_to_native, (&slf, prefix), r),
        call_ensures(PrismaValue::to_bson, (&operand,), encoding),
        slf.condition == ScalarListCondition::Contains(ConditionValue::Value(operand)),
    ensures
        r is Some <==> encoding is Some,
        encoding is Some ==> fields_of(r->0) == seq![
            (place(prefix, slf.field.db_name@), value_of(encoding->0)),
        ],
{
    lemma_place(prefix, slf.field.db_name@);
}

/// A list holds some of several values, or all of them: native exactly where there is a value and
/// each has an encoding. `$in` asks for some of them, `$all` for all.
pub proof fn law_list_contains_several(
    slf: ScalarListFilter,
    operands: Vec<PrismaValue>,
    encodings: Seq<Option<Bson>>,
    prefix: Option<&str>,
    r: Option<Document>,
)
    requires
        call_ensures(try_scalar_list_to_native, (&slf, prefix), r),
        are_encodings(operands@, encodings),
        ({
            let vs = ConditionListValue::List(operands);
            ||| slf.condition == ScalarListCondition::ContainsSome(vs)
            ||| slf.condition == ScalarListCondition::ContainsEvery(vs)
        }),
    ensures
        r is Some <==> operands@.len() > 0 && forall|i: int|
            0 <= i < encodings.len() ==> (#[trigger] encodings[i]) is Some,
        r is Some && slf.condition is ContainsSome ==> fields_of(r->0) == seq![
            (place(prefix, slf.field.db_name@), Value::Doc(seq![("$in"@, elements(encodings))])),
        ],
        r is Some && slf.condition is ContainsEvery ==> fields_of(r->0) == seq![
            (place(prefix, slf.field.db_name@), Value::Doc(seq![("$all"@, elements(encodings))])),
        ],
{
    lemma_place(prefix, slf.field.db_name@);
    lemma_encodings(operands@, encodings);
}

/// A list is empty if its size is zero, and is not if its first element is set. Both are always
/// native.
pub proof fn law_list_is_empty(
    slf: ScalarListFilter,
    empty: bool,
    prefix: Option<&str>,
    r: Option<Document>,
)
    requires
        call_ensures(try_scalar_list_to_native, (&slf, prefix), r),
        slf.condition == ScalarListCondition::IsEmpty(empty),
    ensures
        r is Some,
        empty ==> fields_of(r->0) == seq![
            (
                place(prefix, slf.field.db_name@),
                Value::Doc(seq![("$size"@, Value::Int32(0))]),
            ),
        ],
        !empty ==> fields_of(r->0) == seq![
            (
                place(prefix, slf.field.db_name@) + seq!['.', '0'],
                Value::Doc(seq![("$exists"@, Value::Boolean(true))]),
            ),
        ],
{
    lemma_place(prefix, slf.field.db_name@);
    reveal_strlit(".0");
    assert(".0"@ =~= seq!['.', '0']);
}

/// List filters with an operand that is another field are left to the expressions.
pub proof fn law_lists_left_to_expressions(
    slf: ScalarListFilter,
    prefix: Option<&str>,
    r: Option<Document>,
)
    requires
        call_ensures(try_scalar_list_to_native, (&slf, prefix), r),
        match slf.condition {
            ScalarListCondition::Contains(v) => v is FieldRef,
            ScalarListCondition::ContainsSome(vs) => vs is FieldRef,
            ScalarListCondition::ContainsEvery(vs) => vs is FieldRef,
            ScalarListCondition::IsEmpty(_) => false,
        },
    ensures
        r is None,
{
}

} // verus!
