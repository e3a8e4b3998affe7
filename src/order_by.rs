//! Ordering of scroll results by a payload field.
use vstd::prelude::*;

verus! {

/// A range of values; each bound present restricts it.
#[derive(Clone, Copy, Debug, Default, PartialEq, Eq)]
pub struct Range<T> {
    pub lt: Option<T>,
    pub gt: Option<T>,
    pub gte: Option<T>,
    pub lte: Option<T>,
}

/// The direction in which results are ordered.
#[derive(Clone, Copy, Debug, PartialEq, Eq, Structural)]
pub enum Direction {
    Asc,
    Desc,
}

impl Default for Direction {
    fn default() -> (r: Direction)
        ensures
            r == Direction::Asc,
    {
        Direction::Asc
    }
}

impl Direction {
    /// The range of values that lie at or after `from` in this direction:
    /// from `from` upwards when ascending, from `from` downwards when
    /// descending.
    pub fn as_range_from<T>(&self, from: T) -> (r: Range<T>)
        ensures
            *self == Direction::Asc ==> r == (Range {
                lt: None,
                gt: None,
                gte: Some(from),
                lte: None,
            }),
            *self == Direction::Desc ==> r == (Range {
                lt: None,
                gt: None,
                gte: None,
                lte: Some(from),
            }),
    {
        match self {
            Direction::Asc => Range { gte: Some(from), gt: None, lte: None, lt: None },
            Direction::Desc => Range { lte: Some(from), gt: None, gte: None, lt: None },
        }
    }
}

} // verus!
