//! Comparators in the shape that the sorts of the standard library take.

use crate::error::EngineError;
use crate::text::{len_alpha_compare, len_alpha_order, Precedence};
use crate::version::{normalize, normalized, version_order};
use core::cmp::Ordering;
use vstd::prelude::*;
use vstd::utf8::encode_utf8;

verus! {

/// The precedence that an ordering of the standard library stands for.
pub open spec fn precedence_of(o: Ordering) -> Precedence {
    match o {
        Ordering::Less => Precedence::Lower,
        Ordering::Equal => Precedence::Same,
        Ordering::Greater => Precedence::Higher,
    }
}

/// The ordering of the standard library that stands for a precedence.
pub fn ordering_of(p: Precedence) -> (o: Ordering)
    ensures
        precedence_of(o) == p,
{
    match p {
        Precedence::Lower => Ordering::Less,
        Precedence::Same => Ordering::Equal,
        Precedence::Higher => Ordering::Greater,
    }
}

/// Orders names by length first, short to long, and names of one length
/// lexicographically.  Length and order are those of the UTF-8 encoding.
pub fn compare_len_alpha(a: &String, b: &String) -> (o: Ordering)
    ensures
        precedence_of(o) == len_alpha_order(encode_utf8(a@), encode_utf8(b@)),
{
    ordering_of(len_alpha_compare(a.as_str(), b.as_str()))
}

/// Orders bundle names by the versions they embed.  A name that embeds no
/// readable version cannot be ordered.
pub fn compare_semver(a: &String, b: &String) -> (r: Result<Ordering, EngineError>)
    ensures
        match r {
            Ok(o) => normalized(a@) is Some && normalized(b@) is Some && precedence_of(o)
                == version_order(normalized(a@).unwrap(), normalized(b@).unwrap()),
            Err(e) => e == EngineError::MalformedVersion && (normalized(a@) is None || normalized(
                b@,
            ) is None),
        },
{
    match normalize(a.as_str()) {
        Ok(x) => match normalize(b.as_str()) {
            Ok(y) => Ok(ordering_of(x.precedence(&y))),
            Err(e) => Err(e),
        },
        Err(e) => Err(e),
    }
}

} // verus!
