//! Small helpers: element-wise vector copies and saturating coordinate
//! arithmetic.

use vstd::prelude::*;

verus! {

/// Copy a vector of copyable elements element by element.
pub fn copy_vec<T: Copy>(v: &Vec<T>) -> (r: Vec<T>)
    ensures
        r@ == v@,
{
    let mut r: Vec<T> = Vec::new();
    let mut i: usize = 0;
    while i < v.len()
        invariant
            i <= v@.len(),
            r@ == v@.take(i as int),
        decreases v@.len() - i,
    {
        r.push(v[i]);
        proof {
            assert(r@ =~= v@.take(i as int + 1));
        }
        i += 1;
    }
    proof {
        assert(v@.take(v@.len() as int) =~= v@);
    }
    r
}

/// Saturating addition on 64-bit coordinates.
pub open spec fn spec_sat_add(a: i64, b: i64) -> i64 {
    let s = a + b;
    if s > i64::MAX {
        i64::MAX
    } else if s < i64::MIN {
        i64::MIN
    } else {
        s as i64
    }
}

pub fn sat_add(a: i64, b: i64) -> (r: i64)
    ensures
        r == spec_sat_add(a, b),
{
    let s: i128 = a as i128 + b as i128;
    if s > i64::MAX as i128 {
        i64::MAX
    } else if s < i64::MIN as i128 {
        i64::MIN
    } else {
        s as i64
    }
}

/// Saturating negation on 64-bit coordinates.
pub open spec fn spec_sat_neg(a: i64) -> i64 {
    if a == i64::MIN {
        i64::MAX
    } else {
        (-(a as int)) as i64
    }
}

pub fn sat_neg(a: i64) -> (r: i64)
    ensures
        r == spec_sat_neg(a),
{
    if a == i64::MIN {
        i64::MAX
    } else {
        -a
    }
}

} // verus!
