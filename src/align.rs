//! Alignment arithmetic on addresses.
use vstd::prelude::*;
use vstd::arithmetic::div_mod::lemma_mod_decreases;

verus! {

/// `n` is a power of two.
pub open spec fn is_pow2(n: nat) -> bool
    decreases n,
{
    if n == 0 {
        false
    } else if n == 1 {
        true
    } else {
        n % 2 == 0 && is_pow2(n / 2)
    }
}

/// The least multiple of `align` that is at least `x`.
pub open spec fn align_up(x: nat, align: nat) -> nat {
    if x % align == 0 {
        x
    } else {
        (x + (align - x % align)) as nat
    }
}

/// The greatest multiple of `align` that is at most `x`.
pub open spec fn align_down(x: nat, align: nat) -> nat {
    (x - x % align) as nat
}

/// Tells whether `n` is a power of two.
pub fn is_power_of_two(n: usize) -> (r: bool)
    ensures
        r == is_pow2(n as nat),
{
    if n == 0 {
        return false;
    }
    let mut m: usize = n;
    while m % 2 == 0
        invariant
            m > 0,
            is_pow2(n as nat) == is_pow2(m as nat),
        decreases m,
    {
        m = m / 2;
    }
    m == 1
}

/// Rounds `x` up to a multiple of `align`, or `None` when that exceeds `usize::MAX`.
pub fn checked_align_up(x: usize, align: usize) -> (r: Option<usize>)
    requires
        align > 0,
    ensures
        r matches Some(a) ==> a == align_up(x as nat, align as nat),
        r is None <==> align_up(x as nat, align as nat) > usize::MAX,
{
    let rem = x % align;
    if rem == 0 {
        Some(x)
    } else {
        x.checked_add(align - rem)
    }
}

/// Rounds `x` down to a multiple of `align`.
pub fn round_down(x: usize, align: usize) -> (r: usize)
    requires
        align > 0,
    ensures
        r == align_down(x as nat, align as nat),
        r <= x,
{
    proof {
        lemma_mod_decreases(x as nat, align as nat);
    }
    x - x % align
}

} // verus!
