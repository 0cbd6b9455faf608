//! What the smaller commands decide before they touch the system. Each of
//! them reads its arguments here and is told what to do; the doing is the
//! caller's.
pub mod cd;
pub mod cp;
pub mod echo;
pub mod mkdir;
pub mod mv;
pub mod rm;

use vstd::prelude::*;

verus! {

/// The view of an optional text.
pub open spec fn text_of(s: Option<String>) -> Option<Seq<char>> {
    match s {
        Some(t) => Some(t@),
        None => None,
    }
}

} // verus!
