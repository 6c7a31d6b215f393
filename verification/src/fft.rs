//! Integer helpers of the radix-2 FFT: bit-reversal of an index and the
//! padded transform length.
use vstd::prelude::*;
use vstd::arithmetic::power2::{pow2, lemma_pow2_unfold, lemma_pow2_pos};
use vstd::arithmetic::div_mod::lemma_div_denominator;

verus! {

/// The lowest `w` bits of `n` in reverse order: bit `w-1` of `n` lands at
/// position 0 and the reversal of the lower bits is shifted up past it.
pub open spec fn reversed(n: nat, w: nat) -> nat
    decreases w,
{
    if w == 0 {
        0
    } else {
        2 * reversed(n, (w - 1) as nat) + (n / pow2((w - 1) as nat)) % 2
    }
}

proof fn lemma_step(r: usize, n: usize)
    ensures
        ((r << 1usize) | (n & 1usize)) as int == (2 * (r as int) + (n as int) % 2) % (usize::MAX as int + 1),
        (n >> 1usize) as int == (n as int) / 2,
{
    assert(usize::BITS == 32 ==> ((r << 1usize) | (n & 1usize)) as int == (2 * (r as int) + (n as int) % 2) % 0x1_0000_0000int) by (bit_vector);
    assert(usize::BITS == 64 ==> ((r << 1usize) | (n & 1usize)) as int == (2 * (r as int) + (n as int) % 2) % 0x1_0000_0000_0000_0000int) by (bit_vector);
    assert((n >> 1usize) as int == (n as int) / 2) by (bit_vector);
}

/// Reverses the lowest `width` bits of `n` (bits shifted past the width of
/// `usize` are lost).
pub fn bit_reverse(n: usize, width: u32) -> (r: usize)
    ensures
        r as nat == reversed(n as nat, width as nat) % (usize::MAX as nat + 1),
        width <= usize::BITS ==> r as nat == reversed(n as nat, width as nat),
{
    let ghost n0 = n as nat;
    let ghost m = usize::MAX as int + 1;
    let mut n = n;
    let mut r: usize = 0;
    let mut k: u32 = 0;
    proof {
        vstd::arithmetic::power::lemma_pow0(2);
        vstd::arithmetic::power2::lemma_pow2(0);
    }
    while k < width
        invariant
            k <= width,
            m == usize::MAX as int + 1,
            r as int == (reversed(n0, k as nat) as int) % m,
            n as int == n0 as int / pow2(k as nat) as int,
        decreases width - k,
    {
        proof {
            lemma_step(r, n);
            lemma_pow2_pos(k as nat);
            lemma_pow2_unfold((k + 1) as nat);
            lemma_div_denominator(n0 as int, pow2(k as nat) as int, 2);
            let x = reversed(n0, k as nat) as int;
            let b = (n as int) % 2;
            vstd::arithmetic::div_mod::lemma_add_mod_noop(2 * (x % m), b, m);
            vstd::arithmetic::div_mod::lemma_mul_mod_noop_right(2, x, m);
            vstd::arithmetic::div_mod::lemma_add_mod_noop(2 * x, b, m);
            vstd::arithmetic::div_mod::lemma_mod_mod(b, m, 1);
        }
        r = (r << 1) | (n & 1);
        n = n >> 1;
        k = k + 1;
    }
    proof {
        if width <= usize::BITS {
            lemma_reversed_bits(n0, width as nat);
            vstd::arithmetic::power2::lemma2_to64();
            if width < usize::BITS {
                vstd::arithmetic::power2::lemma_pow2_strictly_increases(width as nat, usize::BITS as nat);
            }
            assert(usize::BITS == 32 || usize::BITS == 64);
            assert(pow2(usize::BITS as nat) == usize::MAX as nat + 1);
            vstd::arithmetic::div_mod::lemma_small_mod(reversed(n0, width as nat), usize::MAX as nat + 1);
        }
    }
    r
}

/// Whether `p` is a power of two.
pub open spec fn is_power_of_two(p: nat) -> bool {
    exists|k: nat| pow2(k) == p
}

/// Smallest power of two `>= n` (1 for `n <= 1`).
pub fn next_pow2(n: usize) -> (r: usize)
    requires
        n <= usize::MAX / 2 + 1,
    ensures
        is_power_of_two(r as nat),
        n <= r,
        r == 1 || r / 2 < n,
{
    let mut p: usize = 1;
    let ghost mut k: nat = 0;
    proof {
        vstd::arithmetic::power::lemma_pow0(2);
        vstd::arithmetic::power2::lemma_pow2(0);
    }
    while p < n
        invariant
            n <= usize::MAX / 2 + 1,
            p == pow2(k),
            p >= 1,
            p == 1 || p / 2 < n,
        decreases usize::MAX - p,
    {
        proof {
            lemma_pow2_unfold(k + 1);
        }
        p = p * 2;
        proof {
            k = k + 1;
        }
    }
    p
}

/// Bit `i` of `n`.
pub open spec fn bit(n: nat, i: nat) -> nat {
    (n / pow2(i)) % 2
}

proof fn lemma_shift_down(x: nat, j: nat)
    ensures
        (x / 2) / pow2(j) == x / pow2(j + 1),
        bit(x / 2, j) == bit(x, j + 1),
{
    lemma_pow2_pos(j);
    lemma_pow2_unfold(j + 1);
    lemma_div_denominator(x as int, 2, pow2(j) as int);
    assert(2 * pow2(j) == pow2(j + 1));
}

proof fn lemma_reversed_bits(n: nat, w: nat)
    ensures
        reversed(n, w) < pow2(w),
        forall|j: nat| j < w ==> #[trigger] bit(reversed(n, w), j) == bit(n, (w - 1 - j) as nat),
    decreases w,
{
    vstd::arithmetic::power::lemma_pow0(2);
    vstd::arithmetic::power2::lemma_pow2(0);
    if w > 0 {
        let r1 = reversed(n, (w - 1) as nat);
        let b = (n / pow2((w - 1) as nat)) % 2;
        lemma_reversed_bits(n, (w - 1) as nat);
        lemma_pow2_unfold(w);
        let r = reversed(n, w);
        assert(r == 2 * r1 + b);
        assert forall|j: nat| j < w implies #[trigger] bit(reversed(n, w), j) == bit(n, (w - 1 - j) as nat) by {
            if j == 0 {
                assert(r / pow2(0) == r);
            } else {
                lemma_shift_down(r, (j - 1) as nat);
                assert(r / 2 == r1);
                assert(bit(r1, (j - 1) as nat) == bit(n, (w - 1 - 1 - (j - 1)) as nat));
            }
        }
    }
}

proof fn lemma_bits_determine(x: nat, y: nat, w: nat)
    requires
        x < pow2(w),
        y < pow2(w),
        forall|j: nat| j < w ==> #[trigger] bit(x, j) == bit(y, j),
    ensures
        x == y,
    decreases w,
{
    vstd::arithmetic::power::lemma_pow0(2);
    vstd::arithmetic::power2::lemma_pow2(0);
    if w > 0 {
        lemma_pow2_unfold(w);
        assert(bit(x, 0) == bit(y, 0));
        assert(x / pow2(0) == x);
        assert(y / pow2(0) == y);
        assert forall|j: nat| j < (w - 1) as nat implies #[trigger] bit(x / 2, j) == bit(y / 2, j) by {
            lemma_shift_down(x, j);
            lemma_shift_down(y, j);
            assert(bit(x, j + 1) == bit(y, j + 1));
        }
        lemma_bits_determine(x / 2, y / 2, (w - 1) as nat);
    }
}

/// Bit reversal over `w` bits undoes itself: reversing the lowest `w` bits
/// twice gives back every number below `2^w`.
pub proof fn law_bit_reversal_is_involution(n: nat, w: nat)
    requires
        n < pow2(w),
    ensures
        reversed(reversed(n, w), w) == n,
{
    let r = reversed(n, w);
    lemma_reversed_bits(n, w);
    lemma_reversed_bits(r, w);
    assert forall|j: nat| j < w implies #[trigger] bit(reversed(r, w), j) == bit(n, j) by {
        assert(bit(reversed(r, w), j) == bit(r, (w - 1 - j) as nat));
        assert(bit(r, (w - 1 - j) as nat) == bit(n, (w - 1 - (w - 1 - j)) as nat));
    }
    lemma_bits_determine(reversed(r, w), n, w);
}

/// The exponent of a power of two.
pub open spec fn log2_of(n: nat) -> nat {
    choose|k: nat| pow2(k) == n
}

proof fn lemma_pow2_injective(j: nat, k: nat)
    requires
        pow2(j) == pow2(k),
    ensures
        j == k,
{
    if j < k {
        vstd::arithmetic::power2::lemma_pow2_strictly_increases(j, k);
    } else if k < j {
        vstd::arithmetic::power2::lemma_pow2_strictly_increases(k, j);
    }
}

proof fn lemma_between_powers(n: nat, k: nat)
    requires
        pow2(k) < n < 2 * pow2(k),
    ensures
        !is_power_of_two(n),
{
    lemma_pow2_unfold(k + 1);
    if is_power_of_two(n) {
        let j = choose|j: nat| pow2(j) == n;
        if j <= k {
            if j < k {
                vstd::arithmetic::power2::lemma_pow2_strictly_increases(j, k);
            }
        } else if j > k + 1 {
            vstd::arithmetic::power2::lemma_pow2_strictly_increases(k + 1, j);
        }
    }
}

/// The order in which the radix-2 FFT reads its input: position `i` takes
/// the sample at the bit reversal of `i` over `log2(n)` bits. Refused unless
/// `n` is a power of two.
pub fn bit_reversal_order(n: usize) -> (r: Result<Vec<usize>, String>)
    ensures
        r is Ok <==> is_power_of_two(n as nat),
        match r {
            Ok(v) => {
                &&& pow2(log2_of(n as nat)) == n
                &&& v@.len() == n
                &&& forall|i: int| 0 <= i < n ==> #[trigger] v@[i] as nat == reversed(i as nat, log2_of(n as nat))
                &&& forall|i: int| 0 <= i < n ==> #[trigger] v@[i] < n && v@[v@[i] as int] == i
            },
            Err(m) => m@ == "radix-2 FFT requires a power-of-two length"@,
        },
{
    let mut p: usize = 1;
    let mut w: u32 = 0;
    proof {
        vstd::arithmetic::power::lemma_pow0(2);
        vstd::arithmetic::power2::lemma_pow2(0);
    }
    while p < n && p <= usize::MAX / 2
        invariant
            p == pow2(w as nat),
            p >= 1,
            p == 1 || p / 2 < n,
            w < usize::BITS,
        decreases usize::MAX - p,
    {
        proof {
            lemma_pow2_unfold((w + 1) as nat);
            vstd::arithmetic::power2::lemma2_to64();
            if w + 1 >= usize::BITS {
                assert(usize::BITS == 32 || usize::BITS == 64);
                if w + 1 > usize::BITS {
                    vstd::arithmetic::power2::lemma_pow2_strictly_increases(usize::BITS as nat, (w + 1) as nat);
                }
                assert(pow2(usize::BITS as nat) == usize::MAX as nat + 1);
            }
        }
        p = p * 2;
        w = w + 1;
    }
    if p != n {
        proof {
            if n == 0 {
                if is_power_of_two(0) {
                    let j = choose|j: nat| pow2(j) == 0nat;
                    lemma_pow2_pos(j);
                }
            } else if p < n {
                lemma_between_powers(n as nat, w as nat);
            } else if p == 1 {
            } else {
                lemma_pow2_unfold(w as nat);
                assert(w > 0);
                lemma_between_powers(n as nat, (w - 1) as nat);
            }
        }
        return Err(String::from_str("radix-2 FFT requires a power-of-two length"));
    }
    let ghost lw = log2_of(n as nat);
    proof {
        assert(pow2(w as nat) == n as nat);
        lemma_pow2_injective(lw, w as nat);
    }
    let mut v: Vec<usize> = Vec::new();
    let mut i: usize = 0;
    while i < n
        invariant
            i <= n,
            n == pow2(w as nat),
            w < usize::BITS,
            lw == w as nat,
            v@.len() == i,
            forall|j: int| 0 <= j < i ==> #[trigger] v@[j] as nat == reversed(j as nat, w as nat),
        decreases n - i,
    {
        let b = bit_reverse(i, w);
        v.push(b);
        i = i + 1;
    }
    proof {
        assert forall|i: int| 0 <= i < n implies #[trigger] v@[i] < n && v@[v@[i] as int] == i by {
            lemma_reversed_bits(i as nat, w as nat);
            let r = v@[i] as nat;
            lemma_reversed_bits(r, w as nat);
            law_bit_reversal_is_involution(i as nat, w as nat);
            assert(v@[r as int] as nat == reversed(r, w as nat));
        }
    }
    Ok(v)
}

} // verus!
