//! The functions of the uniffi example library.

use vstd::prelude::*;
use vstd::string::StringExecFns;

verus! {

/// The sum of `a` and `b`.
pub fn add(a: u32, b: u32) -> (r: u32)
    requires
        a + b <= u32::MAX,
    ensures
        r == a + b,
{
    a + b
}

/// The greeting of the library.
pub fn hello() -> (r: String)
    ensures
        r@ == "This is a hello from the rust library"@,
{
    String::from_str("This is a hello from the rust library")
}

} // verus!
