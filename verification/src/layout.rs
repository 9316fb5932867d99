//! Sizes and alignments of storage requests.

use vstd::layout::{align_of, layout_for_type_is_valid, size_of, valid_layout};
use vstd::arithmetic::power::pow;
use vstd::arithmetic::power2::{is_pow2, is_pow2_equiv, is_pow2_exists};
use vstd::prelude::*;

verus! {

/// A storage request: a size in bytes and an alignment.
#[derive(Clone, Copy, Debug, PartialEq, Eq, Structural)]
pub struct Layout {
    size: usize,
    align: usize,
}

/// The byte size of a requested array cannot be represented.
#[derive(Clone, Copy, Debug, PartialEq, Eq, Structural)]
pub struct LayoutError;

/// Whether `n` values of `T` form a representable array: its size in bytes
/// stays within `isize::MAX`.
pub open spec fn array_fits<T>(n: int) -> bool {
    n * size_of::<T>() <= isize::MAX
}

impl Layout {
    /// Size of the request in bytes.
    pub closed spec fn spec_size(&self) -> usize {
        self.size
    }

    /// Alignment of the request in bytes.
    pub closed spec fn spec_align(&self) -> usize {
        self.align
    }

    /// Whether the layout is one that an allocator takes: the alignment is
    /// a power of two, and the size, rounded up to the alignment, stays
    /// within `isize::MAX`.
    pub open spec fn is_valid(&self) -> bool {
        valid_layout(self.size(), self.align())
    }

    /// Size of the request in bytes.
    #[verifier::when_used_as_spec(spec_size)]
    pub fn size(&self) -> (s: usize)
        ensures
            s == self.spec_size(),
    {
        self.size
    }

    /// Alignment of the request in bytes.
    #[verifier::when_used_as_spec(spec_align)]
    pub fn align(&self) -> (a: usize)
        ensures
            a == self.spec_align(),
    {
        self.align
    }

    /// A layout of the given size and alignment, taken as they are.
    pub fn from_size_align_unchecked(size: usize, align: usize) -> (l: Layout)
        ensures
            l.size() == size,
            l.align() == align,
    {
        Layout { size, align }
    }

    /// The layout of `n` contiguous values of `T`, or an error when the array
    /// does not fit (see [`array_fits`]).
    pub fn array<T>(n: usize) -> (r: Result<Layout, LayoutError>)
        ensures
            r is Ok <==> array_fits::<T>(n as int),
            r matches Ok(l) ==> l.size() == n * size_of::<T>() && l.align() == align_of::<T>()
                && l.is_valid(),
    {
        layout_for_type_is_valid::<T>();
        let element_size: usize = core::mem::size_of::<T>();
        let align: usize = core::mem::align_of::<T>();
        if element_size == 0 {
            assert(n * size_of::<T>() == 0) by (nonlinear_arith)
                requires
                    size_of::<T>() == 0,
            ;
            return Ok(Layout { size: 0, align });
        }
        proof {
            lemma_multiple_at_least(element_size as int, align as int);
        }
        // The size has to stay within `isize::MAX` after it is rounded up to
        // the alignment; a multiple of the alignment that is within
        // `isize::MAX` does.
        let max_size: usize = isize::MAX as usize - (align - 1);
        if n > max_size / element_size {
            proof {
                lemma_over_quotient(n as int, max_size as int, element_size as int);
                lemma_aligned_size_bound(n as int, element_size as int, align as int);
            }
            return Err(LayoutError);
        }
        proof {
            lemma_within_quotient(n as int, max_size as int, element_size as int);
            lemma_remainder_of_isize_max(align as int);
        }
        Ok(Layout { size: element_size * n, align })
    }
}

/// A multiple of a power of two is a multiple of each smaller power of
/// two.
proof fn lemma_pow2_divides(a: int, m: int)
    requires
        is_pow2(a),
        is_pow2(m),
        0 < a <= m,
    ensures
        m % a == 0,
    decreases a,
{
    reveal(is_pow2);
    if a == 1 {
        assert(m % 1 == 0);
    } else {
        lemma_pow2_divides(a / 2, m / 2);
        let k = (m / 2) / (a / 2);
        vstd::arithmetic::div_mod::lemma_fundamental_div_mod(m / 2, a / 2);
        assert(m == k * a) by (nonlinear_arith)
            requires
                m == 2 * (m / 2),
                a == 2 * (a / 2),
                m / 2 == (a / 2) * k,
        ;
        vstd::arithmetic::div_mod::lemma_mod_multiples_basic(k, a);
    }
}

/// `isize::MAX + 1` is a power of two.
proof fn lemma_isize_range_is_pow2()
    ensures
        is_pow2(isize::MAX + 1),
{
    vstd::arithmetic::power2::lemma2_to64();
    vstd::arithmetic::power2::lemma2_to64_rest();
    vstd::arithmetic::power::lemma_pow_positive(2, 31);
    vstd::arithmetic::power::lemma_pow_positive(2, 63);
    assert(pow(2, 31) == 0x8000_0000);
    assert(pow(2, 63) == 0x8000_0000_0000_0000);
    assert(is_pow2_exists(0x8000_0000));
    assert(is_pow2_exists(0x8000_0000_0000_0000));
    is_pow2_equiv(0x8000_0000);
    is_pow2_equiv(0x8000_0000_0000_0000);
}

/// Up to `isize::MAX` a power of two leaves, as the remainder of
/// `isize::MAX`, one less than itself.
pub proof fn lemma_remainder_of_isize_max(align: int)
    requires
        is_pow2(align),
        0 < align <= isize::MAX + 1,
    ensures
        (isize::MAX as int) % align == align - 1,
{
    lemma_isize_range_is_pow2();
    lemma_pow2_divides(align, isize::MAX + 1);
    let range = isize::MAX + 1;
    vstd::arithmetic::div_mod::lemma_fundamental_div_mod(range, align);
    let q = range / align;
    assert(q >= 1) by (nonlinear_arith)
        requires
            range == align * q,
            range > 0,
            align > 0,
    ;
    assert(isize::MAX == (q - 1) * align + (align - 1)) by (nonlinear_arith)
        requires
            isize::MAX + 1 == align * q,
    ;
    vstd::arithmetic::div_mod::lemma_fundamental_div_mod_converse(
        isize::MAX as int,
        align,
        q - 1,
        align - 1,
    );
}

/// An array of elements whose alignment is a power of two and divides their
/// size is within `isize::MAX` bytes as soon as its size is, rounded up to
/// the alignment.
pub proof fn lemma_aligned_size_bound(n: int, size: int, align: int)
    requires
        0 <= n,
        0 < size <= isize::MAX,
        0 < align,
        is_pow2(align),
        size % align == 0,
        n * size > isize::MAX - (align - 1),
    ensures
        n * size > isize::MAX,
{
    lemma_multiple_at_least(size, align);
    lemma_isize_range_is_pow2();
    lemma_pow2_divides(align, isize::MAX + 1);
    let total = n * size;
    let range = isize::MAX + 1;
    // Both `total` and `range` are multiples of `align`, so they differ by
    // a multiple of it.
    vstd::arithmetic::div_mod::lemma_fundamental_div_mod(size, align);
    vstd::arithmetic::div_mod::lemma_fundamental_div_mod(range, align);
    let q = n * (size / align);
    let r = range / align;
    assert(total == q * align) by (nonlinear_arith)
        requires
            total == n * size,
            size == align * (size / align),
            q == n * (size / align),
    ;
    assert(range == r * align) by (nonlinear_arith)
        requires
            range == align * r,
    ;
    if total <= isize::MAX {
        assert(q < r) by (nonlinear_arith)
            requires
                q * align < r * align,
                0 < align,
        ;
        assert(q * align <= r * align - align) by (nonlinear_arith)
            requires
                q + 1 <= r,
                0 < align,
        ;
    }
}

/// A positive multiple of `a` is at least `a`.
pub proof fn lemma_multiple_at_least(s: int, a: int)
    requires
        0 < s,
        0 < a,
        s % a == 0,
    ensures
        a <= s,
{
    if s < a {
        vstd::arithmetic::div_mod::lemma_small_mod(s as nat, a as nat);
    }
}

/// A count above `m / s` takes more than `m` bytes.
proof fn lemma_over_quotient(n: int, m: int, s: int)
    requires
        0 < s,
        0 <= m,
        n > m / s,
    ensures
        n * s > m,
{
    vstd::arithmetic::div_mod::lemma_fundamental_div_mod(m, s);
    assert(n * s >= (m / s + 1) * s) by (nonlinear_arith)
        requires
            n >= m / s + 1,
            s > 0,
    ;
    assert((m / s + 1) * s == s * (m / s) + s) by (nonlinear_arith);
}

/// A count of at most `m / s` takes at most `m` bytes.
proof fn lemma_within_quotient(n: int, m: int, s: int)
    requires
        0 < s,
        0 <= m,
        0 <= n <= m / s,
    ensures
        0 <= n * s <= m,
{
    vstd::arithmetic::div_mod::lemma_fundamental_div_mod(m, s);
    assert(n * s <= (m / s) * s) by (nonlinear_arith)
        requires
            0 <= n <= m / s,
            s > 0,
    ;
    assert((m / s) * s == s * (m / s)) by (nonlinear_arith);
    assert(0 <= n * s) by (nonlinear_arith)
        requires
            0 <= n,
            0 < s,
    ;
}

} // verus!
