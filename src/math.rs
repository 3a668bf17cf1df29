//! Integer helpers: quotient with remainder, and indices that wrap around.

use vstd::arithmetic::div_mod::{lemma_fundamental_div_mod, lemma_fundamental_div_mod_converse};
use vstd::prelude::*;
use vstd::std_specs::ops::{DivSpec, RemSpec};

verus! {

/// The quotient and the remainder of `dividend` by `divisor`, as the type's own
/// `/` and `%` give them.
pub fn division_result<T: Copy + core::ops::Div<Output = T> + core::ops::Rem<Output = T>>(
    dividend: T,
    divisor: T,
) -> (r: (T, T))
    requires
        dividend.div_req(divisor),
        dividend.rem_req(divisor),
    ensures
        T::obeys_div_spec() ==> r.0 == dividend.div_spec(divisor),
        T::obeys_rem_spec() ==> r.1 == dividend.rem_spec(divisor),
{
    (dividend / divisor, dividend % divisor)
}

/// `index` taken modulo `array_len`, always in `0..array_len` (so `-1` is the
/// last position).
pub fn wrap_index(index: isize, array_len: usize) -> (r: usize)
    requires
        0 < array_len,
    ensures
        r as int == index as int % array_len as int,
        r < array_len,
{
    if index >= 0 {
        (index as usize) % array_len
    } else {
        let k: usize = (-(index + 1)) as usize;
        let m: usize = k % array_len;
        proof {
            let n = array_len as int;
            let q = k as int / n;
            lemma_fundamental_div_mod(k as int, n);
            assert(index as int == (-q - 1) * n + (n - 1 - m)) by (nonlinear_arith)
                requires
                    k as int == n * q + m,
                    index as int == -(k as int) - 1,
            ;
            lemma_fundamental_div_mod_converse(index as int, n, -q - 1, n - 1 - m);
        }
        array_len - 1 - m
    }
}

} // verus!
