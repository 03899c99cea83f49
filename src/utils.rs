use vstd::prelude::*;

verus! {

/// Relies on `Box::leak`: the returned reference points at the value that was
/// boxed, and the allocation is never freed.
#[verifier::external_body]
fn leak_box<T>(b: Box<T>) -> (r: &'static T)
    where
        T: 'static,
    ensures
        *r == *b,
{
    Box::leak(b)
}

/// Moves `t` to the heap for the rest of the process and hands out a shared
/// reference to it.
pub fn to_static<T>(t: T) -> (r: &'static T)
    where
        T: 'static,
    ensures
        *r == t,
{
    leak_box(Box::new(t))
}

} // verus!
