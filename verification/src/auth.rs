//! What a token says of the one who bears it.

use vstd::prelude::*;

verus! {

/// What a token says of its bearer: who it is, and the second at which the
/// token expires.
#[derive(Debug, PartialEq, Eq)]
pub struct Claims {
    pub sub: String,
    pub exp: usize,
}

} // verus!
