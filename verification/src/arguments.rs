//! The arguments of a read query.
use crate::filter::Filter;
use vstd::prelude::*;

verus! {

/// The model that a query reads.
#[derive(Debug)]
pub struct Model {
    /// The name of the collection in the database.
    pub db_name: String,
}

/// A term of an ordering, by the caller's number for it.
#[derive(Clone, Copy, Debug)]
pub struct OrderBy(pub u64);

/// The document that a query starts from, by the caller's number for it.
#[derive(Clone, Copy, Debug)]
pub struct Cursor(pub u64);

/// How many documents to take, and from which end.
#[derive(Clone, Copy, Debug)]
pub enum Take {
    All,
    One,
    NegativeOne,
    /// That many documents, from the end if the number is negative.
    Number(i64),
}

/// The arguments of a read query.
#[derive(Debug)]
pub struct QueryArguments {
    pub model: Model,
    pub cursor: Option<Cursor>,
    pub take: Take,
    pub skip: Option<i64>,
    pub filter: Option<Filter>,
    pub order_by: Vec<OrderBy>,
    /// The query is not to skip documents: the caller does.
    pub ignore_skip: bool,
    /// The query is not to limit the number of documents: the caller does.
    pub ignore_take: bool,
}

impl Take {
    /// Whether documents are taken from the end.
    pub open spec fn reversed(self) -> bool {
        match self {
            Take::NegativeOne => true,
            Take::Number(n) => n < 0,
            _ => false,
        }
    }

    /// How many documents are taken.
    pub open spec fn count(self) -> Option<int> {
        match self {
            Take::All => None,
            Take::One | Take::NegativeOne => Some(1),
            Take::Number(n) => Some(
                if n < 0 {
                    -n
                } else {
                    n as int
                },
            ),
        }
    }

    /// Whether documents are taken from the end.
    pub fn is_reversed(&self) -> (r: bool)
        ensures
            r == self.reversed(),
    {
        match self {
            Take::NegativeOne => true,
            Take::Number(n) => *n < 0,
            _ => false,
        }
    }
}

/// How many documents the query skips.
pub fn skip(count: Option<u64>, ignore: bool) -> (r: Option<u64>)
    ensures
        r == (if ignore {
            None
        } else {
            count
        }),
{
    if ignore {
        None
    } else {
        count
    }
}

/// How many documents the query takes at most.
pub fn take(amount: Take, ignore: bool) -> (r: Option<i64>)
    requires
        !ignore ==> amount != Take::Number(i64::MIN),
    ensures
        r is Some <==> !ignore && amount.count() is Some,
        r matches Some(n) ==> amount.count() == Some(n as int),
{
    if ignore {
        None
    } else {
        match amount {
            Take::All => None,
            Take::One | Take::NegativeOne => Some(1),
            Take::Number(n) => Some(
                if n < 0 {
                    -n
                } else {
                    n
                },
            ),
        }
    }
}

} // verus!
