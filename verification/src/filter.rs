//! Filters on documents.
use crate::document::{clone_bson, value_of, Value};
use bson::Bson;
use vstd::prelude::*;

verus! {

/// A scalar field of a model.
#[derive(Debug)]
pub struct ScalarField {
    /// The name of the field in the database.
    pub db_name: String,
}

/// A field of a model that holds an embedded document.
#[derive(Debug)]
pub struct CompositeField {
    /// The name of the field in the database.
    pub db_name: String,
}

/// An operand of a condition. Next to what the operand is stands its BSON encoding for the field
/// that the condition is on, or `None` where the type of the field has no encoding for it.
#[derive(Debug)]
pub enum PrismaValue {
    Null { bson: Option<Bson> },
    /// A string, or another operand that reads as one.
    Text { text: String, bson: Option<Bson> },
    Other { bson: Option<Bson> },
}

#[derive(Debug)]
pub enum ConditionValue {
    Value(PrismaValue),
    /// The value of another field.
    FieldRef(ScalarField),
}

#[derive(Debug)]
pub enum ConditionListValue {
    List(Vec<PrismaValue>),
    /// The elements of another field.
    FieldRef(ScalarField),
}

#[derive(Debug)]
pub enum ScalarCondition {
    Equals(ConditionValue),
    NotEquals(ConditionValue),
    Contains(ConditionValue),
    NotContains(ConditionValue),
    StartsWith(ConditionValue),
    NotStartsWith(ConditionValue),
    EndsWith(ConditionValue),
    NotEndsWith(ConditionValue),
    LessThan(ConditionValue),
    LessThanOrEquals(ConditionValue),
    GreaterThan(ConditionValue),
    GreaterThanOrEquals(ConditionValue),
    In(ConditionListValue),
    NotIn(ConditionListValue),
    IsSet(bool),
    /// A condition of another kind (on JSON content, a text search), by the caller's number for it.
    Other(u64),
}

/// How strings are compared.
#[derive(Debug)]
pub enum QueryMode {
    Default,
    Insensitive,
    /// A mode of another kind, by the caller's number for it.
    Other(u64),
}

/// What a scalar condition is on.
#[derive(Debug)]
pub enum ScalarProjection {
    Single(ScalarField),
    Compound(Vec<ScalarField>),
}

#[derive(Debug)]
pub struct ScalarFilter {
    pub projection: ScalarProjection,
    pub condition: ScalarCondition,
    pub mode: QueryMode,
}

#[derive(Debug)]
pub enum ScalarListCondition {
    Contains(ConditionValue),
    ContainsEvery(ConditionListValue),
    ContainsSome(ConditionListValue),
    IsEmpty(bool),
}

/// A filter on a field that holds a list of scalars.
#[derive(Debug)]
pub struct ScalarListFilter {
    pub field: ScalarField,
    pub condition: ScalarListCondition,
}

#[derive(Debug)]
pub enum CompositeCondition {
    Is(Filter),
    IsNot(Filter),
    IsSet(bool),
    /// A condition of another kind (on lists of documents), by the caller's number for it.
    Other(u64),
}

/// A filter on an embedded document.
#[derive(Debug)]
pub struct CompositeFilter {
    pub field: CompositeField,
    pub condition: Box<CompositeCondition>,
}

#[derive(Debug)]
pub enum Filter {
    /// All of the filters hold.
    And(Vec<Filter>),
    /// At least one of the filters holds.
    Or(Vec<Filter>),
    /// None of the filters holds.
    Not(Vec<Filter>),
    Scalar(ScalarFilter),
    ScalarList(ScalarListFilter),
    Composite(CompositeFilter),
    /// No condition at all.
    Empty,
    /// A filter of another kind (on relations, on aggregates), by the caller's number for it.
    Other(u64),
}

impl PrismaValue {
    /// What the encoding of the operand holds.
    pub open spec fn encoded(self) -> Option<Value> {
        let bson = match self {
            PrismaValue::Null { bson } => bson,
            PrismaValue::Text { text: _, bson } => bson,
            PrismaValue::Other { bson } => bson,
        };
        match bson {
            Some(b) => Some(value_of(b)),
            None => None,
        }
    }

    /// The operand as a string.
    pub open spec fn string(self) -> Option<Seq<char>> {
        match self {
            PrismaValue::Text { text, bson: _ } => Some(text@),
            _ => None,
        }
    }

    /// The operand as a string, where it reads as one.
    pub fn as_string(&self) -> (r: Option<&str>)
        ensures
            r is Some <==> self.string() is Some,
            r matches Some(s) ==> self.string() == Some(s@),
    {
        match self {
            PrismaValue::Text { text, .. } => Some(text.as_str()),
            _ => None,
        }
    }

    /// The encoding of the operand for the field that the condition is on.
    pub fn to_bson(&self) -> (r: Option<Bson>)
        ensures
            r is Some <==> self.encoded() is Some,
            r matches Some(b) ==> self.encoded() == Some(value_of(b)),
    {
        let bson = match self {
            PrismaValue::Null { bson } => bson,
            PrismaValue::Text { text: _, bson } => bson,
            PrismaValue::Other { bson } => bson,
        };
        match bson {
            Some(b) => Some(clone_bson(b)),
            None => None,
        }
    }
}

} // verus!
