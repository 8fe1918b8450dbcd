use vstd::prelude::*;

use crate::pointer::ConstPtr;

use crate::page::PAGE_SIZE;

verus! {

// ---------------------------------------------------------------------------
// Alignment
// ---------------------------------------------------------------------------

/// The smallest multiple of `alignment` that is not below `value`.
pub open spec fn align_up_spec(value: nat, alignment: nat) -> nat
    recommends
        alignment > 0,
{
    if value % alignment == 0 {
        value
    } else {
        (value + alignment - value % alignment) as nat
    }
}

/// `align_up(value, alignment)` fits in a `usize`.
pub open spec fn align_up_fits(value: usize, alignment: usize) -> bool {
    align_up_spec(value as nat, alignment as nat) <= usize::MAX
}

/// `value` is a power of two (one bit set).
pub open spec fn is_power_of_two(value: usize) -> bool {
    value != 0 && value & ((value - 1) as usize) == 0
}

/// Rounding up gives the smallest multiple of the alignment at or above
/// the value.
pub proof fn lemma_align_up_properties(value: nat, alignment: nat)
    requires
        alignment > 0,
    ensures
        align_up_spec(value, alignment) % alignment == 0,
        value <= align_up_spec(value, alignment) < value + alignment,
{
    let v = value as int;
    let a = alignment as int;
    let r = v % a;
    vstd::arithmetic::div_mod::lemma_fundamental_div_mod(v, a);
    if r != 0 {
        let q = v / a;
        assert(v + a - r == (q + 1) * a) by (nonlinear_arith)
            requires
                v == a * q + r,
        ;
        vstd::arithmetic::div_mod::lemma_mod_multiples_basic(q + 1, a);
    }
}

/// Rounding up is monotonic, in pages too.
pub proof fn lemma_min_pages_mono(x: nat, y: nat)
    requires
        x <= y,
    ensures
        align_up_spec(x, PAGE_SIZE as nat) <= align_up_spec(y, PAGE_SIZE as nat),
        align_up_spec(x, PAGE_SIZE as nat) / (PAGE_SIZE as nat) <= align_up_spec(y, PAGE_SIZE as nat)
            / (PAGE_SIZE as nat),
{
    lemma_align_up_properties(x, PAGE_SIZE as nat);
    lemma_align_up_properties(y, PAGE_SIZE as nat);
    let ax = align_up_spec(x, PAGE_SIZE as nat) as int;
    let ay = align_up_spec(y, PAGE_SIZE as nat) as int;
    vstd::arithmetic::div_mod::lemma_fundamental_div_mod(ax, 4096);
    vstd::arithmetic::div_mod::lemma_fundamental_div_mod(ay, 4096);
    // ax and ay are multiples of the page size; ax is the least one not below x.
    if ax > ay {
        assert(ax / 4096 > ay / 4096) by (nonlinear_arith)
            requires
                ax == 4096 * (ax / 4096),
                ay == 4096 * (ay / 4096),
                ax > ay,
        ;
        assert(ax - 4096 >= ay) by (nonlinear_arith)
            requires
                ax / 4096 > ay / 4096,
                ax == 4096 * (ax / 4096),
                ay == 4096 * (ay / 4096),
        ;
        assert(false);
    }
    vstd::arithmetic::div_mod::lemma_div_is_ordered(ax, ay, 4096);
}

/// The pages counted by `align_up_spec` cover exactly the rounded size.
pub proof fn lemma_pages_cover(x: nat)
    ensures
        align_up_spec(x, PAGE_SIZE as nat) / (PAGE_SIZE as nat) * (PAGE_SIZE as nat) == align_up_spec(
            x,
            PAGE_SIZE as nat,
        ),
        x <= align_up_spec(x, PAGE_SIZE as nat),
{
    lemma_align_up_properties(x, PAGE_SIZE as nat);
    vstd::arithmetic::div_mod::lemma_fundamental_div_mod(align_up_spec(x, PAGE_SIZE as nat) as int, 4096);
}

/// Rounds the address of `ptr` down to a multiple of `alignment`, a power of
/// two.
pub fn align_down_ptr(ptr: ConstPtr, alignment: usize) -> (r: ConstPtr)
    requires
        is_power_of_two(alignment),
    ensures
        r.0 == ptr.0 - (ptr.0 & ((alignment - 1) as usize)),
        r.0 & ((alignment - 1) as usize) == 0,
{
    ConstPtr(align_down(ptr.0, alignment))
}

/// The size of a collection in bytes.
pub trait InBytes {
    /// The number of bytes.
    spec fn byte_count(&self) -> nat;

    /// The number of bytes, when it fits in a `usize`.
    fn in_bytes(&self) -> (r: usize)
        requires
            self.byte_count() <= usize::MAX,
        ensures
            r == self.byte_count(),
    ;
}

impl<T> InBytes for Vec<T> {
    open spec fn byte_count(&self) -> nat {
        self@.len() * vstd::layout::size_of::<T>()
    }

    fn in_bytes(&self) -> (r: usize) {
        let n = self.len();
        let s = core::mem::size_of::<T>();
        n * s
    }
}

impl<T, const N: usize> InBytes for [T; N] {
    open spec fn byte_count(&self) -> nat {
        N as nat * vstd::layout::size_of::<T>()
    }

    fn in_bytes(&self) -> (r: usize) {
        let s = core::mem::size_of::<T>();
        N * s
    }
}

/// Rounds `value` up to the next multiple of `alignment`.
pub fn align_up(value: usize, alignment: usize) -> (r: usize)
    requires
        alignment > 0,
        align_up_fits(value, alignment),
    ensures
        r == align_up_spec(value as nat, alignment as nat),
        r % alignment == 0,
        value <= r < value + alignment,
{
    proof {
        lemma_align_up_properties(value as nat, alignment as nat);
    }
    let remainder = value % alignment;
    if remainder == 0 {
        value
    } else {
        value + (alignment - remainder)
    }
}

/// Rounds `value` up to the next page boundary.
pub fn align_up_page_size(value: usize) -> (r: usize)
    requires
        align_up_fits(value, PAGE_SIZE),
    ensures
        r == align_up_spec(value as nat, PAGE_SIZE as nat),
        r % PAGE_SIZE == 0,
        value <= r < value + PAGE_SIZE,
{
    align_up(value, PAGE_SIZE)
}

proof fn lemma_align_down_mask(value: usize, m: usize)
    ensures
        value & !m == value - (value & m),
        value & m <= m,
        (value & !m) & m == 0,
{
    assert(value & !m == value - (value & m) && value & m <= m && (value & !m) & m == 0)
        by (bit_vector);
}

/// Rounds `value` down to a multiple of `alignment`, which must be a power of
/// two: the low bits below `alignment` are cleared.
pub fn align_down(value: usize, alignment: usize) -> (r: usize)
    requires
        is_power_of_two(alignment),
    ensures
        r == value - (value & ((alignment - 1) as usize)),
        r & ((alignment - 1) as usize) == 0,
        r <= value,
        value - r < alignment,
{
    proof {
        lemma_align_down_mask(value, (alignment - 1) as usize);
    }
    value & !(alignment - 1)
}

/// The number of pages needed to hold `value` bytes.
pub fn minimum_amount_of_pages(value: usize) -> (r: usize)
    requires
        align_up_fits(value, PAGE_SIZE),
    ensures
        r == align_up_spec(value as nat, PAGE_SIZE as nat) / (PAGE_SIZE as nat),
        r * PAGE_SIZE >= value,
        value == 0 ==> r == 0,
        value > 0 ==> (r - 1) * PAGE_SIZE < value,
{
    proof {
        lemma_align_up_properties(value as nat, PAGE_SIZE as nat);
    }
    let a = align_up(value, PAGE_SIZE);
    proof {
        vstd::arithmetic::div_mod::lemma_fundamental_div_mod(a as int, PAGE_SIZE as int);
    }
    a / PAGE_SIZE
}

/// Copies `src` into the front of `dst`; the rest of `dst` is left as it was.
pub fn copy_slice<T: Copy>(src: &[T], dst: &mut [T])
    requires
        old(dst)@.len() >= src@.len(),
    ensures
        final(dst)@.len() == old(dst)@.len(),
        final(dst)@.subrange(0, src@.len() as int) == src@,
        final(dst)@.subrange(src@.len() as int, old(dst)@.len() as int) == old(dst)@.subrange(
            src@.len() as int,
            old(dst)@.len() as int,
        ),
{
    let n = src.len();
    let mut i: usize = 0;
    while i < n
        invariant
            n == src@.len(),
            i <= n,
            dst@.len() == old(dst)@.len(),
            n <= dst@.len(),
            forall|j: int| 0 <= j < i ==> dst@[j] == src@[j],
            forall|j: int| n <= j < dst@.len() ==> dst@[j] == old(dst)@[j],
        decreases n - i,
    {
        dst[i] = src[i];
        i = i + 1;
    }
    assert(dst@.subrange(0, n as int) =~= src@);
    assert(dst@.subrange(n as int, old(dst)@.len() as int) =~= old(dst)@.subrange(
        n as int,
        old(dst)@.len() as int,
    ));
}

/// `value` is zero or has a single bit set.
pub fn is_power_of_2_or_zero(value: u64) -> (r: bool)
    ensures
        r == (value == 0 || value & ((value - 1) as u64) == 0),
{
    value == 0 || value & (value - 1) == 0
}

/// `value` is a multiple of `alignment`.
pub fn is_aligned(value: u64, alignment: u64) -> (r: bool)
    requires
        alignment != 0,
    ensures
        r == (value % alignment == 0),
{
    value % alignment == 0
}

// ---------------------------------------------------------------------------
// Bits
// ---------------------------------------------------------------------------

/// Bit `i` of `v` (counting from the least significant bit).
pub open spec fn bit(v: u64, i: u64) -> bool {
    (v >> i) & 1u64 == 1u64
}

/// Setting bit `p` changes that bit only.
pub proof fn lemma_set_bit(v: u64, p: u64)
    requires
        p < 64,
    ensures
        forall|i: u64| #![trigger bit(v | (1u64 << p), i)]
            i < 64 ==> bit(v | (1u64 << p), i) == (i == p || bit(v, i)),
{
    assert(forall|i: u64|
        #![trigger bit(v | (1u64 << p), i)]
        i < 64 && p < 64 ==> bit(v | (1u64 << p), i) == (i == p || bit(v, i))) by (bit_vector);
}

/// Clearing bit `p` changes that bit only.
pub proof fn lemma_clear_bit(v: u64, p: u64)
    requires
        p < 64,
    ensures
        forall|i: u64| #![trigger bit(v & !(1u64 << p), i)]
            i < 64 ==> bit(v & !(1u64 << p), i) == (i != p && bit(v, i)),
{
    assert(forall|i: u64|
        #![trigger bit(v & !(1u64 << p), i)]
        i < 64 && p < 64 ==> bit(v & !(1u64 << p), i) == (i != p && bit(v, i))) by (bit_vector);
}

/// Every one of the 64 bits of `x` is clear.
pub open spec fn all_bits_clear(x: u64) -> bool {
    !bit(x, 0) && !bit(x, 1) && !bit(x, 2) && !bit(x, 3) && !bit(x, 4) && !bit(x, 5) &&
    !bit(x, 6) && !bit(x, 7) && !bit(x, 8) && !bit(x, 9) && !bit(x, 10) && !bit(x, 11) &&
    !bit(x, 12) && !bit(x, 13) && !bit(x, 14) && !bit(x, 15) && !bit(x, 16) && !bit(x, 17) &&
    !bit(x, 18) && !bit(x, 19) && !bit(x, 20) && !bit(x, 21) && !bit(x, 22) && !bit(x, 23) &&
    !bit(x, 24) && !bit(x, 25) && !bit(x, 26) && !bit(x, 27) && !bit(x, 28) && !bit(x, 29) &&
    !bit(x, 30) && !bit(x, 31) && !bit(x, 32) && !bit(x, 33) && !bit(x, 34) && !bit(x, 35) &&
    !bit(x, 36) && !bit(x, 37) && !bit(x, 38) && !bit(x, 39) && !bit(x, 40) && !bit(x, 41) &&
    !bit(x, 42) && !bit(x, 43) && !bit(x, 44) && !bit(x, 45) && !bit(x, 46) && !bit(x, 47) &&
    !bit(x, 48) && !bit(x, 49) && !bit(x, 50) && !bit(x, 51) && !bit(x, 52) && !bit(x, 53) &&
    !bit(x, 54) && !bit(x, 55) && !bit(x, 56) && !bit(x, 57) && !bit(x, 58) && !bit(x, 59) &&
    !bit(x, 60) && !bit(x, 61) && !bit(x, 62) && !bit(x, 63)
}

proof fn lemma_xor_bits(a: u64, b: u64)
    ensures
        forall|i: u64| #![trigger bit(a ^ b, i)] i < 64 ==> bit(a ^ b, i) == (bit(a, i) != bit(b, i)),
{
    assert(forall|i: u64|
        #![trigger bit(a ^ b, i)]
        i < 64 ==> bit(a ^ b, i) == (bit(a, i) != bit(b, i))) by (bit_vector);
}

/// Two words that agree on every bit are equal.
pub proof fn lemma_bits_equal(a: u64, b: u64)
    requires
        forall|i: u64| #![trigger bit(a, i)] i < 64 ==> bit(a, i) == bit(b, i),
    ensures
        a == b,
{
    lemma_xor_bits(a, b);
    let x = a ^ b;
    assert(all_bits_clear(x));
    assert(all_bits_clear(x) ==> x == 0) by (bit_vector);
    assert(a ^ b == 0 ==> a == b) by (bit_vector);
}

/// Sets bit `bit_position` of `data` when `should_set_bit`, clears it otherwise,
/// and returns the new value.
pub fn set_or_clear_bit(data: &mut u64, should_set_bit: bool, bit_position: usize) -> (r: u64)
    requires
        bit_position < 64,
    ensures
        r == *final(data),
        *final(data) == if should_set_bit {
            *old(data) | (1u64 << bit_position as u64)
        } else {
            *old(data) & !(1u64 << bit_position as u64)
        },
        bit(*final(data), bit_position as u64) == should_set_bit,
        forall|i: u64|
            #![trigger bit(*final(data), i)]
            i < 64 && i != bit_position ==> bit(*final(data), i) == bit(*old(data), i),
{
    if should_set_bit {
        set_bit(data, bit_position);
    } else {
        clear_bit(data, bit_position);
    }
    *data
}

/// Sets bit `bit_position` of `data`.
pub fn set_bit(data: &mut u64, bit_position: usize)
    requires
        bit_position < 64,
    ensures
        *final(data) == *old(data) | (1u64 << bit_position as u64),
        bit(*final(data), bit_position as u64),
        forall|i: u64|
            #![trigger bit(*final(data), i)]
            i < 64 && i != bit_position ==> bit(*final(data), i) == bit(*old(data), i),
{
    proof {
        lemma_set_bit(*data, bit_position as u64);
    }
    let mask: u64 = 1u64 << bit_position as u64;
    *data = *data | mask;
}

/// Clears bit `bit_position` of `data`.
pub fn clear_bit(data: &mut u64, bit_position: usize)
    requires
        bit_position < 64,
    ensures
        *final(data) == *old(data) & !(1u64 << bit_position as u64),
        !bit(*final(data), bit_position as u64),
        forall|i: u64|
            #![trigger bit(*final(data), i)]
            i < 64 && i != bit_position ==> bit(*final(data), i) == bit(*old(data), i),
{
    proof {
        lemma_clear_bit(*data, bit_position as u64);
    }
    let mask: u64 = !(1u64 << bit_position as u64);
    *data = *data & mask;
}

/// Reads bit `bit_position` of `data`.
pub fn get_bit(data: u64, bit_position: usize) -> (r: bool)
    requires
        bit_position < 64,
    ensures
        r == bit(data, bit_position as u64),
{
    ((data >> bit_position as u64) & 1u64) == 1u64
}

/// The value of the `n` bits of `data` starting at bit `p`.
pub open spec fn bits_at(data: u64, n: u64, p: u64) -> u64 {
    (data >> p) & (((1u64 << n) - 1) as u64)
}

proof fn lemma_bits_at(data: u64, n: u64, p: u64)
    requires
        n < 64,
        p < 64,
    ensures
        forall|i: u64| #![trigger bit(bits_at(data, n, p), i)]
            i < 64 ==> bit(bits_at(data, n, p), i) == (i < n && p + i < 64 && bit(data, (p + i) as u64)),
{
    assert(forall|i: u64|
        #![trigger bit((data >> p) & (((1u64 << n) - 1) as u64), i)]
        i < 64 && n < 64 && p < 64 ==> bit((data >> p) & (((1u64 << n) - 1) as u64), i) == (i < n
            && p + i < 64 && bit(data, (p + i) as u64))) by (bit_vector);
}

/// Writes the low `number_of_bits` bits of `value` into `data` starting at
/// `bit_position`, leaving the other bits alone, and returns the new value.
pub fn set_multiple_bits(
    data: &mut u64,
    value: u64,
    number_of_bits: usize,
    bit_position: usize,
) -> (r: u64)
    requires
        bit_position + number_of_bits <= 64,
        number_of_bits < 64,
    ensures
        r == *final(data),
        forall|i: u64|
            #![trigger bit(*final(data), i)]
            i < 64 ==> bit(*final(data), i) == if bit_position <= i < bit_position + number_of_bits {
                bit(value, (i - bit_position) as u64)
            } else {
                bit(*old(data), i)
            },
{
    let ghost d0 = *data;
    let mut mask: u64 = !0u64;
    proof {
        assert(forall|i: u64| #![trigger bit(!0u64, i)] i < 64 ==> bit(!0u64, i)) by (bit_vector);
    }
    let mut idx: usize = 0;
    while idx < number_of_bits
        invariant
            idx <= number_of_bits,
            bit_position + number_of_bits <= 64,
            forall|i: u64|
                #![trigger bit(mask, i)]
                i < 64 ==> bit(mask, i) == !(bit_position <= i < bit_position + idx),
        decreases number_of_bits - idx,
    {
        let p: u64 = (bit_position + idx) as u64;
        proof {
            lemma_clear_bit(mask, p);
        }
        mask = mask & !(1u64 << p);
        idx = idx + 1;
    }
    proof {
        lemma_and_bits(*data, mask);
    }
    *data = *data & mask;
    let ghost d1 = *data;
    mask = 0u64;
    proof {
        assert(forall|i: u64| #![trigger bit(0u64, i)] i < 64 ==> !bit(0u64, i)) by (bit_vector);
    }
    idx = 0;
    while idx < number_of_bits
        invariant
            idx <= number_of_bits,
            number_of_bits < 64,
            bit_position + number_of_bits <= 64,
            forall|i: u64|
                #![trigger bit(mask, i)]
                i < 64 ==> bit(mask, i) == (bit_position <= i < bit_position + idx && bit(
                    value,
                    (i - bit_position) as u64,
                )),
        decreases number_of_bits - idx,
    {
        let p: u64 = (bit_position + idx) as u64;
        let vb = value & (1u64 << idx as u64);
        proof {
            lemma_single_bit_test(value, idx as u64);
        }
        if vb > 0 {
            proof {
                lemma_set_bit(mask, p);
            }
            mask = mask | (1u64 << p);
        }
        idx = idx + 1;
    }
    proof {
        lemma_or_bits(*data, mask);
    }
    *data = *data | mask;
    *data
}

proof fn lemma_and_bits(a: u64, b: u64)
    ensures
        forall|i: u64| #![trigger bit(a & b, i)] i < 64 ==> bit(a & b, i) == (bit(a, i) && bit(b, i)),
{
    assert(forall|i: u64|
        #![trigger bit(a & b, i)]
        i < 64 ==> bit(a & b, i) == (bit(a, i) && bit(b, i))) by (bit_vector);
}

proof fn lemma_or_bits(a: u64, b: u64)
    ensures
        forall|i: u64| #![trigger bit(a | b, i)] i < 64 ==> bit(a | b, i) == (bit(a, i) || bit(b, i)),
{
    assert(forall|i: u64|
        #![trigger bit(a | b, i)]
        i < 64 ==> bit(a | b, i) == (bit(a, i) || bit(b, i))) by (bit_vector);
}

proof fn lemma_single_bit_test(v: u64, k: u64)
    requires
        k < 64,
    ensures
        (v & (1u64 << k) > 0) == bit(v, k),
{
    assert(k < 64 ==> ((v & (1u64 << k) > 0) == bit(v, k))) by (bit_vector);
}

/// Reads `number_of_bits` bits of `data` starting at `bit_position`.
pub fn get_multiple_bits(data: u64, number_of_bits: usize, bit_position: usize) -> (r: u64)
    requires
        number_of_bits < 64,
        bit_position < 64,
    ensures
        r == bits_at(data, number_of_bits as u64, bit_position as u64),
        forall|i: u64|
            #![trigger bit(r, i)]
            i < 64 ==> bit(r, i) == (i < number_of_bits && bit_position + i < 64 && bit(
                data,
                (bit_position + i) as u64,
            )),
{
    proof {
        lemma_bits_at(data, number_of_bits as u64, bit_position as u64);
        let n = number_of_bits as u64;
        assert(n < 64 ==> (1u64 << n) >= 1) by (bit_vector);
    }
    let ones: u64 = (1u64 << number_of_bits as u64) - 1;
    (data >> bit_position as u64) & ones
}

} // verus!
