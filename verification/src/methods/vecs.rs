use vstd::prelude::*;

verus! {

/// The number of elements of the vector.
pub fn vec_len<T>(v: &Vec<T>) -> (n: i64)
    requires
        v@.len() <= i64::MAX,
    ensures
        n == v@.len(),
{
    v.len() as i64
}

/// The vector without its first element (empty stays empty).
pub fn vec_next<T>(v: Vec<T>) -> (r: Vec<T>)
    ensures
        r@ == (if v@.len() == 0 { v@ } else { v@.drop_first() }),
{
    let mut v = v;
    if v.len() > 0 {
        let _ = v.remove(0);
    }
    v
}

/// The vector with the value added at its end.
pub fn vec_push<T>(v: Vec<T>, value: T) -> (r: Vec<T>)
    ensures
        r@ == v@.push(value),
{
    let mut v = v;
    v.push(value);
    v
}

} // verus!
