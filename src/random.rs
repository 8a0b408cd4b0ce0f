//! Random choices for decorations, drawn from the thread's generator.

use rand::rngs::ThreadRng;
use rand::Rng;
use vstd::prelude::*;

verus! {

#[verifier::external_type_specification]
#[verifier::external_body]
pub struct ExThreadRng(rand::rngs::ThreadRng);

/// Relies on `rand::thread_rng`: a handle to the thread's generator.
#[verifier::external_body]
pub(crate) fn new_rng() -> ThreadRng {
    rand::thread_rng()
}

/// Relies on `rand::Rng::gen_range` over `lo..hi`: a value of that range,
/// which must not be empty.
#[verifier::external_body]
pub(crate) fn random_in(rng: &mut ThreadRng, lo: i32, hi: i32) -> (r: i32)
    requires
        lo < hi,
    ensures
        lo <= r < hi,
{
    rng.gen_range(lo..hi)
}

/// Whether `v` is a multiple of `m`.
pub fn is_multiple(v: i32, m: i32) -> (r: bool)
    requires
        m > 0,
    ensures
        r == (v as int % m as int == 0),
{
    let a: i64 = if v < 0 { -(v as i64) } else { v as i64 };
    let r = a % (m as i64) == 0;
    proof {
        let q = (a as int) / (m as int);
        vstd::arithmetic::div_mod::lemma_fundamental_div_mod(a as int, m as int);
        vstd::arithmetic::div_mod::lemma_mod_bound(a as int, m as int);
        vstd::arithmetic::div_mod::lemma_fundamental_div_mod(v as int, m as int);
        vstd::arithmetic::div_mod::lemma_mod_bound(v as int, m as int);
        if v < 0 {
            if a as int % m as int == 0 {
                assert(v as int == (-q) * (m as int) + 0) by (nonlinear_arith)
                    requires
                        a as int == (m as int) * q + 0,
                        a as int == -(v as int),
                ;
                vstd::arithmetic::div_mod::lemma_fundamental_div_mod_converse(v as int, m as int, -q, 0);
            }
            if v as int % m as int == 0 {
                let qv = (v as int) / (m as int);
                assert(a as int == (-qv) * (m as int) + 0) by (nonlinear_arith)
                    requires
                        v as int == m as int * qv,
                        a as int == -(v as int),
                ;
                vstd::arithmetic::div_mod::lemma_fundamental_div_mod_converse(a as int, m as int, -qv, 0);
            }
        }
    }
    r
}

} // verus!
