//! The capability a state or event type must offer to index the table.

use vstd::prelude::*;

verus! {

/// A closed set of values, each carrying a small integer tag.
///
/// The machine never looks inside a state or an event: it only asks for the
/// tag, which selects a row or a column of the transition table. What an
/// implementation promises is that the tag of a value never changes and that
/// the largest tag is one fixed number, which is why the two executable
/// methods answer with the two specification functions.
///
/// A verified implementation defines `tag` and `max_tag` and proves the two
/// methods against them. An implementation that stays outside the verifier
/// defines the two methods only; `tag` and `max_tag` are then left open, as
/// some function of the value and some number, and the promise is the
/// implementor's to keep.
///
/// Nothing here says that a tag stays below the largest: a value that reports
/// a larger one is a fault of the domain, which registration rules out and
/// dispatch ignores. Nor does anything ask that two values have different
/// tags: values that share a tag share their rules.
pub trait EnumTag: Copy {
    /// The tag of this value. Left open here: some function of the value,
    /// fixed for the type.
    open spec fn tag(&self) -> nat {
        vstd::pervasive::arbitrary::<spec_fn(Self) -> nat>()(*self)
    }

    /// The largest tag the table is sized for. Left open here: some number,
    /// fixed for the type.
    open spec fn max_tag() -> nat {
        vstd::pervasive::arbitrary::<spec_fn(Option<Self>) -> nat>()(None)
    }

    /// Returns the tag of this value.
    fn tag_number(&self) -> (t: usize)
        ensures
            t == self.tag(),
    ;

    /// Returns the largest tag any value of the type is meant to report.
    fn max_tag_number() -> (m: usize)
        ensures
            m == Self::max_tag(),
    ;
}

/// The two truth values as a domain: `false` has tag 0 and `true` has tag 1.
impl EnumTag for bool {
    open spec fn tag(&self) -> nat {
        if *self {
            1
        } else {
            0
        }
    }

    open spec fn max_tag() -> nat {
        1
    }

    fn tag_number(&self) -> (t: usize) {
        if *self {
            1
        } else {
            0
        }
    }

    fn max_tag_number() -> (m: usize) {
        1
    }
}

/// The bytes as a domain: each byte is its own tag.
impl EnumTag for u8 {
    open spec fn tag(&self) -> nat {
        *self as nat
    }

    open spec fn max_tag() -> nat {
        255
    }

    fn tag_number(&self) -> (t: usize) {
        *self as usize
    }

    fn max_tag_number() -> (m: usize) {
        255
    }
}

} // verus!
