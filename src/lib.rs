use vstd::prelude::*;

pub mod error;
pub mod text;
pub mod schedule;
pub mod html;
pub mod session;
pub mod dispatch;
pub mod daily;
pub mod grade;
pub mod xk;
pub mod jwfw;
pub mod myfdu;
pub mod ecard;

verus! {

/// The greeting handed out across the C boundary.
pub fn hello_world() -> (r: String)
    ensures
        r@ == "hello world"@,
{
    String::from_str("hello world")
}

/// Sum of two integers; the caller keeps the sum in range.
pub fn add(a: i32, b: i32) -> (r: i32)
    requires
        i32::MIN <= a + b <= i32::MAX,
    ensures
        r == a + b,
{
    a + b
}

} // verus!
