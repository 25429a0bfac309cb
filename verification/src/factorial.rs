//! Factorial and gamma over `u64`, with their element-wise liftings.
//!
//! The product is taken with wrapping (modulo `2^64`) multiplication, so
//! `fact` is total: past `20!`, the largest factorial a `u64` can hold,
//! the result silently wraps, as the unchecked multiplication of the
//! native operator would.

use vstd::prelude::*;

verus! {

/// `2^64`, the modulus of wrapping `u64` arithmetic.
pub open spec fn u64_modulus() -> nat {
    0x1_0000_0000_0000_0000
}

/// The factorial of `n` with every multiplication taken modulo `2^64`.
pub open spec fn fact_wrapped(n: nat) -> nat
    decreases n,
{
    if n == 0 {
        1
    } else {
        (n * fact_wrapped((n - 1) as nat)) % u64_modulus()
    }
}

/// The mathematical factorial of `n`, `n * (n-1) * ... * 1`, with `0! == 1`.
pub open spec fn fact_exact(n: nat) -> nat
    decreases n,
{
    if n == 0 {
        1
    } else {
        n * fact_exact((n - 1) as nat)
    }
}

/// ### fact(x)
///
/// The factorial of `x`: the product `x * (x-1) * ... * 1`, with
/// `fact(0) == 1`. Each multiplication wraps modulo `2^64`, so the call is
/// total; for `x <= 20` the result is the exact factorial
/// (see [`lemma_fact_fits_u64`]).
pub fn fact(x: u64) -> (r: u64)
    ensures
        r == fact_wrapped(x as nat),
{
    let mut acc: u64 = 1;
    let mut i: u64 = 0;
    while i < x
        invariant
            i <= x,
            acc == fact_wrapped(i as nat),
        decreases x - i,
    {
        i = i + 1;
        proof {
            assert((acc as nat) * (i as nat) == (i as nat) * (acc as nat)) by (nonlinear_arith);
        }
        acc = acc.wrapping_mul(i);
    }
    acc
}

/// ### gamma(x)
///
/// The gamma function on positive integers, `gamma(x) == (x - 1)!`.
/// `gamma(0)` is undefined: the argument must be at least 1.
pub fn gamma(x: u64) -> (r: u64)
    requires
        x >= 1,
    ensures
        r == fact_wrapped((x - 1) as nat),
{
    fact(x - 1)
}

/// ### fact_vec(x)
///
/// The factorial of every element of `x`, in order.
pub fn fact_vec(x: &[u64]) -> (r: Vec<u64>)
    ensures
        r@.len() == x@.len(),
        forall|i: int| 0 <= i < x@.len() ==> r@[i] == fact_wrapped(x@[i] as nat),
{
    let mut out: Vec<u64> = Vec::new();
    let mut k: usize = 0;
    while k < x.len()
        invariant
            k <= x@.len(),
            out@.len() == k,
            forall|i: int| 0 <= i < k ==> out@[i] == fact_wrapped(x@[i] as nat),
        decreases x@.len() - k,
    {
        out.push(fact(x[k]));
        k = k + 1;
    }
    out
}

/// ### gamma_vec(x)
///
/// The gamma function of every element of `x`, in order. Every element
/// must be at least 1, as for [`gamma`].
pub fn gamma_vec(x: &[u64]) -> (r: Vec<u64>)
    requires
        forall|i: int| 0 <= i < x@.len() ==> x@[i] >= 1,
    ensures
        r@.len() == x@.len(),
        forall|i: int| 0 <= i < x@.len() ==> r@[i] == fact_wrapped((x@[i] - 1) as nat),
{
    let mut out: Vec<u64> = Vec::new();
    let mut k: usize = 0;
    while k < x.len()
        invariant
            k <= x@.len(),
            out@.len() == k,
            forall|i: int| 0 <= i < x@.len() ==> x@[i] >= 1,
            forall|i: int| 0 <= i < k ==> out@[i] == fact_wrapped((x@[i] - 1) as nat),
        decreases x@.len() - k,
    {
        out.push(gamma(x[k]));
        k = k + 1;
    }
    out
}

/// The exact factorial never shrinks as its argument grows.
proof fn lemma_fact_exact_monotonic(a: nat, b: nat)
    requires
        a <= b,
    ensures
        fact_exact(a) <= fact_exact(b),
    decreases b,
{
    if a < b {
        lemma_fact_exact_monotonic(a, (b - 1) as nat);
        assert(fact_exact(b) == b * fact_exact((b - 1) as nat));
        assert(b * fact_exact((b - 1) as nat) >= fact_exact((b - 1) as nat))
            by (nonlinear_arith)
            requires b >= 1;
    }
}

/// The value of `20!`, the largest factorial that fits in a `u64`.
proof fn lemma_fact_exact_20()
    ensures
        fact_exact(20) == 2432902008176640000,
{
    reveal_with_fuel(fact_exact, 21);
}

/// Law: up to `20!` no wrapping occurs, so [`fact`] returns the exact
/// mathematical factorial, and that value fits in a `u64`.
pub proof fn lemma_fact_fits_u64(n: nat)
    requires
        n <= 20,
    ensures
        fact_wrapped(n) == fact_exact(n),
        fact_exact(n) <= u64::MAX,
    decreases n,
{
    lemma_fact_exact_monotonic(n, 20);
    lemma_fact_exact_20();
    if n > 0 {
        lemma_fact_fits_u64((n - 1) as nat);
        assert(fact_exact(n) == n * fact_exact((n - 1) as nat));
        assert(fact_wrapped(n) == (n * fact_exact((n - 1) as nat)) % u64_modulus());
        assert(fact_exact(n) < u64_modulus());
        assert(fact_exact(n) % u64_modulus() == fact_exact(n));
    }
}

} // verus!
