//! The greeting with which the application answers its window.

use crate::text::glue;
use vstd::prelude::*;

verus! {

/// The greeting for `name`.
pub open spec fn greeting(name: Seq<char>) -> Seq<char> {
    "Hello, "@ + name + "! You've been greeted from Rust!"@
}

/// The greeting for `name`.
pub fn greet(name: &str) -> (r: String)
    ensures
        r@ == greeting(name@),
{
    glue("Hello, ", name, "! You've been greeted from Rust!")
}

} // verus!
