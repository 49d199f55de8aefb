//! Sizes and positions of control messages within a buffer.
//!
//! The layout is the one of Linux on 64-bit little-endian targets (x86-64, AArch64, RISC-V): a
//! `cmsghdr` holds a `size_t` length followed by two `int`s (16 bytes), all little-endian, and
//! both headers and payload ends are aligned to 8 bytes.
use vstd::arithmetic::div_mod::{
    lemma_fundamental_div_mod, lemma_mod_multiples_basic, lemma_mod_pos_bound, lemma_small_mod,
};
use vstd::prelude::*;

verus! {

/// Alignment that every control-message header must have, in bytes.
pub const CMSG_ALIGN_TO: usize = 8;

/// Size of a control-message header (`cmsghdr`), in bytes. It is a multiple of the alignment.
pub const CMSG_HDR_LEN: usize = 16;

/// Number of bytes needed to move from `addr` forward to the next aligned address.
pub open spec fn align_gap(addr: int) -> int {
    (CMSG_ALIGN_TO - addr % (CMSG_ALIGN_TO as int)) % (CMSG_ALIGN_TO as int)
}

/// `len` rounded up to the header alignment.
pub open spec fn cmsg_align_spec(len: int) -> int {
    len + align_gap(len)
}

/// Total length recorded in the header of a message with `n` payload bytes.
pub open spec fn cmsg_len_spec(n: int) -> int {
    CMSG_HDR_LEN + n
}

/// Room that a message with `n` payload bytes takes in a buffer, trailing padding included.
pub open spec fn cmsg_space_spec(n: int) -> int {
    CMSG_HDR_LEN + cmsg_align_spec(n)
}

/// Offset, from a position whose address has residue `addr` modulo the alignment, of the first
/// header that is aligned and fits into `capacity` bytes.
pub open spec fn align_first_spec(addr: int, capacity: int) -> Option<usize> {
    let fwd = align_gap(addr);
    if capacity - fwd >= CMSG_HDR_LEN {
        Some(fwd as usize)
    } else {
        None
    }
}

/// The least multiple of `align` that is at least `base`.
pub open spec fn align_up_spec(base: int, align: int) -> int {
    base + (align - base % align) % align
}

proof fn lemma_unit_multiple(a: int, d: int)
    requires
        a > 0,
        0 <= a * d < a,
    ensures
        d == 0,
{
    if d >= 1 {
        assert(a * d >= a) by (nonlinear_arith)
            requires
                a > 0,
                d >= 1,
        ;
    } else if d <= -1 {
        assert(a * d <= -a) by (nonlinear_arith)
            requires
                a > 0,
                d <= -1,
        ;
    }
}

/// A multiple of `align` in the window `[base, base + align)` is the least multiple of `align`
/// that is at least `base`.
pub proof fn lemma_window_multiple(base: int, align: int, r: int)
    requires
        0 <= base,
        0 < align,
        r % align == 0,
        base <= r < base + align,
    ensures
        r == align_up_spec(base, align),
{
    let q = base / align;
    let m = base % align;
    let k = r / align;
    lemma_fundamental_div_mod(base, align);
    lemma_fundamental_div_mod(r, align);
    lemma_mod_pos_bound(base, align);
    assert(r == align * k);
    assert(base == align * q + m);
    assert(align * k - align * q == align * (k - q)) by (nonlinear_arith);
    if m == 0 {
        lemma_unit_multiple(align, k - q);
        lemma_mod_multiples_basic(1, align);
        assert(1 * align == align);
        assert((align - m) % align == 0);
        assert(align * k == align * q) by (nonlinear_arith)
            requires
                k - q == 0,
        ;
    } else {
        assert(0 <= align * (k - q - 1) < align) by (nonlinear_arith)
            requires
                align * (k - q) == r - align * q,
                base <= r < base + align,
                base == align * q + m,
                0 < m < align,
        ;
        lemma_unit_multiple(align, k - q - 1);
        lemma_small_mod((align - m) as nat, align as nat);
        assert(align * k == align * q + align) by (nonlinear_arith)
            requires
                k - q - 1 == 0,
        ;
    }
}

/// The rounding of `base` is a multiple of `align` in the window `[base, base + align)`.
pub proof fn lemma_align_up_spec_bounds(base: int, align: int)
    requires
        0 <= base,
        0 < align,
    ensures
        align_up_spec(base, align) % align == 0,
        base <= align_up_spec(base, align) < base + align,
{
    let q = base / align;
    let m = base % align;
    lemma_fundamental_div_mod(base, align);
    lemma_mod_pos_bound(base, align);
    lemma_mod_multiples_basic(1, align);
    assert(1 * align == align);
    if m == 0 {
        assert(align_up_spec(base, align) == base);
    } else {
        lemma_small_mod((align - m) as nat, align as nat);
        lemma_mod_multiples_basic(q + 1, align);
        assert((q + 1) * align == align * q + align) by (nonlinear_arith);
        assert(align_up_spec(base, align) == (q + 1) * align);
    }
}

/// Rounds `base` up to a multiple of `align`.
pub fn align_up(base: usize, align: usize) -> (r: usize)
    requires
        align > 0,
        base + align - 1 <= usize::MAX,
    ensures
        r % align == 0,
        base <= r < base + align,
        r == align_up_spec(base as int, align as int),
        base % align == 0 ==> r == base,
        align == CMSG_ALIGN_TO ==> r - base == align_gap(base as int),
{
    // Going forward by one unit less than the alignment passes the next boundary unless `base`
    // is on one; dropping the remainder then lands on that boundary.
    let nudged = base + (align - 1);
    let r = nudged - nudged % align;
    proof {
        lemma_fundamental_div_mod(nudged as int, align as int);
        lemma_mod_pos_bound(nudged as int, align as int);
        lemma_mod_multiples_basic(nudged as int / align as int, align as int);
        assert(r == (nudged as int / align as int) * align) by (nonlinear_arith)
            requires
                nudged == align * (nudged as int / align as int) + nudged % align,
                r == nudged - nudged % align,
        ;
        lemma_window_multiple(base as int, align as int, r as int);
        if base % align == 0 {
            lemma_mod_multiples_basic(1, align as int);
        }
    }
    r
}

/// Rounding up twice is rounding up once; an aligned value is its own rounding.
pub proof fn align_up_idempotent(base: int, align: int)
    requires
        0 <= base,
        0 < align,
    ensures
        align_up_spec(align_up_spec(base, align), align) == align_up_spec(base, align),
        base % align == 0 ==> align_up_spec(base, align) == base,
{
    let r = align_up_spec(base, align);
    lemma_align_up_spec_bounds(base, align);
    lemma_window_multiple(r, align, r);
    if base % align == 0 {
        lemma_window_multiple(base, align, base);
    }
}

/// Rounding up never decreases as the value grows.
pub proof fn align_up_monotonic(b1: int, b2: int, align: int)
    requires
        0 <= b1 <= b2,
        0 < align,
    ensures
        align_up_spec(b1, align) <= align_up_spec(b2, align),
{
    let r1 = align_up_spec(b1, align);
    let r2 = align_up_spec(b2, align);
    lemma_align_up_spec_bounds(b1, align);
    lemma_align_up_spec_bounds(b2, align);
    if r2 < r1 {
        lemma_window_multiple(b1, align, r2);
    }
}

/// The part of a message descriptor that locates its control buffer: an offset into the
/// caller's buffer and a length.
struct ControlWindow {
    start: usize,
    len: usize,
}

/// A descriptor whose control window covers the whole buffer of `len` bytes.
fn dummy_msghdr(len: usize) -> (r: ControlWindow)
    ensures
        r.start == 0,
        r.len == len,
{
    ControlWindow { start: 0, len }
}

/// The first header of a control window: at its start if a header fits, else none.
fn first_header(w: &ControlWindow) -> (r: Option<usize>)
    ensures
        r == (if w.len >= CMSG_HDR_LEN { Some(w.start) } else { None::<usize> }),
{
    if w.len >= CMSG_HDR_LEN {
        Some(w.start)
    } else {
        None
    }
}

/// Offset of the first position in a buffer of `capacity` bytes, whose first byte lies at
/// address `base`, where an aligned header can be placed and fits.
pub fn align_first(base: usize, capacity: usize) -> (r: Option<usize>)
    requires
        base + CMSG_ALIGN_TO - 1 <= usize::MAX,
    ensures
        r == align_first_spec(base as int, capacity as int),
        r matches Some(o) ==> {
            &&& o < CMSG_ALIGN_TO
            &&& o + CMSG_HDR_LEN <= capacity
            &&& (base + o) % (CMSG_ALIGN_TO as int) == 0
        },
{
    let aligned = align_up(base, CMSG_ALIGN_TO);
    // The amount by which the start must move forward to become aligned
    let fwd = aligned - base;
    let mut hdr = dummy_msghdr(capacity);
    hdr.start = fwd;
    hdr.len = capacity.saturating_sub(fwd);
    let r = first_header(&hdr);
    match r {
        Some(o) => {
            assert(o < capacity);
            Some(o)
        },
        None => None,
    }
}

} // verus!
