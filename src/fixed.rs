use vstd::prelude::*;

verus! {

/// `r` is the integer square root of `n`.
pub open spec fn is_root(n: int, r: int) -> bool {
    r >= 0 && r * r <= n < (r + 1) * (r + 1)
}

/// The integer square root of `n >= 0`.
pub open spec fn root(n: int) -> int {
    choose|r: int| is_root(n, r)
}

pub proof fn root_unique(n: int, a: int, b: int)
    requires
        is_root(n, a),
        is_root(n, b),
    ensures
        a == b,
{
    if a < b {
        assert((a + 1) * (a + 1) <= b * b) by (nonlinear_arith)
            requires a >= 0, a + 1 <= b;
    } else if b < a {
        assert((b + 1) * (b + 1) <= a * a) by (nonlinear_arith)
            requires b >= 0, b + 1 <= a;
    }
}

/// Square roots are taken of values below this bound.
pub const ROOT_BOUND: u128 = 0x1_0000_0000_0000_0000_0000;

/// The integer square root, by bisection.
pub fn isqrt(n: u128) -> (r: u64)
    requires
        n < ROOT_BOUND,
    ensures
        is_root(n as int, r as int),
        r == root(n as int),
        r <= 0x100_0000_0000,
{
    let mut lo: u128 = 0;
    let mut hi: u128 = 0x100_0000_0000;
    assert(0x100_0000_0000u128 * 0x100_0000_0000u128 == ROOT_BOUND);
    while hi - lo > 1
        invariant
            lo < hi <= 0x100_0000_0000,
            lo * lo <= n,
            n < hi * hi,
        decreases hi - lo,
    {
        let mid = lo + (hi - lo) / 2;
        assert(mid * mid <= 0x100_0000_0000 * 0x100_0000_0000) by (nonlinear_arith)
            requires mid <= 0x100_0000_0000;
        if mid * mid <= n {
            lo = mid;
        } else {
            hi = mid;
        }
    }
    assert(is_root(n as int, lo as int));
    proof {
        root_unique(n as int, lo as int, root(n as int));
    }
    lo as u64
}

/// Every natural number has an integer square root.
pub proof fn root_exists(n: int)
    requires
        n >= 0,
    ensures
        is_root(n, root(n)),
    decreases n,
{
    if n == 0 {
        assert(is_root(0, 0));
    } else {
        root_exists(n - 1);
        let r = root(n - 1);
        if (r + 1) * (r + 1) <= n {
            assert((r + 2) * (r + 2) > n) by (nonlinear_arith)
                requires (r + 1) * (r + 1) == n, r >= 0;
            assert(is_root(n, r + 1));
        } else {
            assert(is_root(n, r));
        }
    }
}

} // verus!
