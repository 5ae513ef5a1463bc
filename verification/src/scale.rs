//! The size limit of the service and the scale that brings an input under it.
use vstd::prelude::*;

verus! {

/// Largest input, in bytes, that is submitted without resampling: 1 MiB.
pub const SERVICE_LIMIT: usize = 1048576;

/// `k` is `dim` divided by the scale `sqrt(len / 1,000,000)` and rounded
/// down: the greatest number whose square, times `len`, does not exceed the
/// square of `dim` times 1,000,000.
pub open spec fn scales_to(dim: nat, len: nat, k: nat) -> bool {
    k * k * len <= dim * dim * 1000000 && dim * dim * 1000000 < (k + 1) * (k + 1) * len
}

/// `dim` divided by the scale `sqrt(len / 1,000,000)`, rounded down.
pub open spec fn scaled(dim: nat, len: nat) -> nat {
    choose|k: nat| scales_to(dim, len, k)
}

/// The dimensions that an image of `width` by `height` in an input of `len`
/// bytes is asked to fit: none while the input is within the limit, both
/// dimensions divided by the scale once it is over.
pub open spec fn target_of(len: nat, width: nat, height: nat) -> Option<(nat, nat)> {
    if len > SERVICE_LIMIT {
        Some((scaled(width, len), scaled(height, len)))
    } else {
        None
    }
}

proof fn lemma_square_times_monotonic(a: nat, b: nat, len: nat)
    requires
        a <= b,
    ensures
        a * a * len <= b * b * len,
{
    assert(a * a <= b * b) by (nonlinear_arith)
        requires
            a <= b,
    ;
    assert(a * a * len <= b * b * len) by (nonlinear_arith)
        requires
            a * a <= b * b,
    ;
}

/// At most one number is the scaled dimension.
pub proof fn lemma_scaled_unique(dim: nat, len: nat, a: nat, b: nat)
    requires
        scales_to(dim, len, a),
        scales_to(dim, len, b),
    ensures
        a == b,
{
    if a < b {
        lemma_square_times_monotonic(a + 1, b, len);
    } else if b < a {
        lemma_square_times_monotonic(b + 1, a, len);
    }
}

/// Over the limit the scaled dimension is smaller than the dimension, unless
/// that is zero.
pub proof fn lemma_scaled_below(dim: nat, len: nat, k: nat)
    requires
        len > SERVICE_LIMIT,
        scales_to(dim, len, k),
    ensures
        k <= dim,
        dim > 0 ==> k < dim,
{
    if dim > 0 {
        if k >= dim {
            lemma_square_times_monotonic(dim, k, len);
            assert(dim * dim * len > dim * dim * 1000000) by (nonlinear_arith)
                requires
                    dim > 0,
                    len > 1000000,
            ;
            assert(false);
        }
    } else if k > 0 {
        assert(k * k * len > 0) by (nonlinear_arith)
            requires
                k > 0,
                len > 0,
        ;
        assert(dim * dim * 1000000 == 0) by (nonlinear_arith)
            requires
                dim == 0,
        ;
        assert(false);
    }
}

/// Over the limit every dimension has its scaled dimension.
pub proof fn lemma_scaled_exists(dim: nat, len: nat)
    requires
        len > SERVICE_LIMIT,
    ensures
        scales_to(dim, len, scaled(dim, len)),
        scaled(dim, len) <= dim,
        dim > 0 ==> scaled(dim, len) < dim,
{
    assert(dim * dim * 1000000 < (dim + 1) * (dim + 1) * len) by (nonlinear_arith)
        requires
            len > 1000000,
    ;
    lemma_scaled_witness(dim, len, dim);
    let k = choose|k: nat| scales_to(dim, len, k);
    lemma_scaled_below(dim, len, k);
}

/// Going down from `from`, whose successor's square is over the goal, one
/// comes to the scaled dimension.
proof fn lemma_scaled_witness(dim: nat, len: nat, from: nat)
    requires
        len > SERVICE_LIMIT,
        dim * dim * 1000000 < (from + 1) * (from + 1) * len,
    ensures
        exists|k: nat| scales_to(dim, len, k),
    decreases from,
{
    if from * from * len <= dim * dim * 1000000 {
        assert(scales_to(dim, len, from));
    } else {
        assert(from > 0) by {
            if from == 0 {
                assert(0 * 0 * len == 0) by (nonlinear_arith);
            }
        }
        lemma_scaled_witness(dim, len, (from - 1) as nat);
    }
}

/// Whether an input of `len` bytes has to be scaled down before it is
/// submitted: exactly when it is over the limit.
pub fn needs_resize(len: usize) -> (r: bool)
    ensures
        r == (len > SERVICE_LIMIT),
{
    len > SERVICE_LIMIT
}

/// Divides `dim` by the scale `sqrt(len / 1,000,000)`, rounding down, in
/// exact integer arithmetic.
pub fn scaled_dimension(dim: u32, len: usize) -> (k: u32)
    requires
        len > SERVICE_LIMIT,
    ensures
        scales_to(dim as nat, len as nat, k as nat),
        k as nat == scaled(dim as nat, len as nat),
        k <= dim,
        dim > 0 ==> k < dim,
{
    assert((dim as u128) * (dim as u128) <= 0xffff_ffff * 0xffff_ffff) by (nonlinear_arith)
        requires
            dim <= 0xffff_ffff,
    ;
    let area: u128 = (dim as u128) * (dim as u128);
    let goal: u128 = area * 1000000;
    let weight: u128 = len as u128;
    let mut lo: u32 = 0;
    let mut hi: u32 = dim;
    proof {
        let d = dim as nat;
        let l = len as nat;
        assert(d * d * 1000000 < (d + 1) * (d + 1) * l) by (nonlinear_arith)
            requires
                l > 1000000,
        ;
        assert(0 * 0 * l == 0) by (nonlinear_arith);
    }
    while lo < hi
        invariant
            lo <= hi <= dim,
            goal == (dim as nat) * (dim as nat) * 1000000,
            weight == len,
            (lo as nat) * (lo as nat) * (len as nat) <= goal,
            goal < (hi as nat + 1) * (hi as nat + 1) * (len as nat),
        decreases hi - lo,
    {
        let gap: u32 = hi - lo;
        let mid: u32 = lo + gap / 2 + gap % 2;
        assert((mid as u128) * (mid as u128) <= 0xffff_ffff * 0xffff_ffff) by (nonlinear_arith)
            requires
                mid <= 0xffff_ffff,
        ;
        let square: u128 = (mid as u128) * (mid as u128);
        assert(square * weight <= 0xffff_ffff * 0xffff_ffff * 0xffff_ffff_ffff_ffff)
            by (nonlinear_arith)
            requires
                square <= 0xffff_ffff * 0xffff_ffff,
                weight <= 0xffff_ffff_ffff_ffff,
                square >= 0,
                weight >= 0,
        ;
        if square * weight <= goal {
            lo = mid;
        } else {
            proof {
                assert((mid - 1) as nat + 1 == mid as nat);
            }
            hi = mid - 1;
        }
    }
    proof {
        assert(scales_to(dim as nat, len as nat, lo as nat));
        let c = scaled(dim as nat, len as nat);
        lemma_scaled_unique(dim as nat, len as nat, lo as nat, c);
        lemma_scaled_below(dim as nat, len as nat, lo as nat);
    }
    lo
}

/// The dimensions that the image is asked to fit, if the input is over the
/// limit.
pub fn target_size(len: usize, width: u32, height: u32) -> (r: Option<(u32, u32)>)
    ensures
        match r {
            Some((w, h)) => target_of(len as nat, width as nat, height as nat) == Some(
                (w as nat, h as nat),
            ) && w <= width && h <= height && (width > 0 ==> w < width) && (height > 0 ==> h
                < height),
            None => target_of(len as nat, width as nat, height as nat).is_none(),
        },
        r.is_some() == (len > SERVICE_LIMIT),
{
    if needs_resize(len) {
        Some((scaled_dimension(width, len), scaled_dimension(height, len)))
    } else {
        None
    }
}

} // verus!
