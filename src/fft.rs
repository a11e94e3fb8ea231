use vstd::prelude::*;

use vstd::arithmetic::div_mod::{lemma_div_denominator, lemma_mod_breakdown, lemma_mod_mod};

verus! {

/// The direction of a transform.
#[derive(Debug, Clone, Copy, PartialEq, Eq, Structural)]
pub enum TransformType {
    Forward,
    Inverse,
}

/// `2^k`.
pub open spec fn two_pow(k: nat) -> nat
    decreases k,
{
    if k == 0 {
        1
    } else {
        2 * two_pow((k - 1) as nat)
    }
}

/// `floor(log2(n))`, with `log2(0) == 0`.
pub open spec fn log2(n: nat) -> nat
    decreases n,
{
    if n <= 1 {
        0
    } else {
        1 + log2(n / 2)
    }
}

pub open spec fn is_power_of_two(n: nat) -> bool {
    two_pow(log2(n)) == n
}

/// The lowest `bits` bits of `i`, in reverse order.
pub open spec fn reverse_bits(i: nat, bits: nat) -> nat
    decreases bits,
{
    if bits == 0 {
        0
    } else {
        (i % 2) * two_pow((bits - 1) as nat) + reverse_bits(i / 2, (bits - 1) as nat)
    }
}

/// The bit-reversal permutation of `s` (whose length is a power of two): the item at
/// index `i` is the one at the index whose `log2(len)` bits are those of `i` reversed.
pub open spec fn bit_reversed<T>(s: Seq<T>) -> Seq<T> {
    Seq::new(s.len(), |i: int| s[reverse_bits(i as nat, log2(s.len())) as int])
}

/// The next value of a bit-reversed counter: clear set bits from `mask` downwards
/// until a clear one is met, then set that one.
pub open spec fn reversed_increment(t: nat, mask: nat) -> nat
    decreases mask,
{
    if mask == 0 {
        t
    } else if t >= mask {
        reversed_increment((t - mask) as nat, mask / 2)
    } else {
        t + mask
    }
}

proof fn lemma_two_pow_pos(k: nat)
    ensures
        two_pow(k) > 0,
    decreases k,
{
    if k > 0 {
        lemma_two_pow_pos((k - 1) as nat);
    }
}

proof fn lemma_reverse_bits_bound(i: nat, bits: nat)
    ensures
        reverse_bits(i, bits) < two_pow(bits),
    decreases bits,
{
    if bits > 0 {
        lemma_reverse_bits_bound(i / 2, (bits - 1) as nat);
        lemma_two_pow_pos((bits - 1) as nat);
        if i % 2 == 0 {
            assert((i % 2) * two_pow((bits - 1) as nat) == 0);
        } else {
            assert((i % 2) * two_pow((bits - 1) as nat) == two_pow((bits - 1) as nat));
        }
    }
}

/// The top bit of `i` becomes the lowest bit of its reversal.
proof fn lemma_reverse_bits_top(i: nat, bits: nat)
    requires
        bits >= 1,
        i < two_pow(bits),
    ensures
        reverse_bits(i, bits) == 2 * reverse_bits(i % two_pow((bits - 1) as nat), (bits - 1) as nat)
            + i / two_pow((bits - 1) as nat),
    decreases bits,
{
    let p = two_pow((bits - 1) as nat);
    lemma_two_pow_pos((bits - 1) as nat);
    if bits == 1 {
        assert(p == 1);
        assert(i % 1 == 0);
        assert(i / 1 == i);
        assert(reverse_bits(i / 2, 0) == 0);
        assert(i < 2);
    } else {
        let q = two_pow((bits - 2) as nat);
        lemma_two_pow_pos((bits - 2) as nat);
        assert(p == 2 * q);
        assert(i / 2 < p) by {
            assert(i < 2 * p);
        };
        lemma_reverse_bits_top(i / 2, (bits - 1) as nat);
        lemma_mod_mod(i as int, 2, q as int);
        lemma_mod_breakdown(i as int, 2, q as int);
        lemma_div_denominator(i as int, 2, q as int);
        let m = i % p;
        assert(m % 2 == i % 2);
        assert(m / 2 == (i / 2) % q) by {
            assert(m == 2 * ((i / 2) % q) + i % 2);
        };
        assert(reverse_bits(m, (bits - 1) as nat) == (m % 2) * q + reverse_bits(
            m / 2,
            (bits - 2) as nat,
        ));
        if i % 2 == 0 {
            assert((i % 2) * p == 0);
            assert(m % 2 == 0);
            assert((m % 2) * q == 0) by (nonlinear_arith)
                requires
                    m % 2 == 0,
            ;
        } else {
            assert(i % 2 == 1);
            assert((i % 2) * p == p);
            assert(m % 2 == 1);
            assert((m % 2) * q == q);
        }
    }
}

proof fn lemma_reverse_bits_zero(bits: nat)
    ensures
        reverse_bits(0, bits) == 0,
    decreases bits,
{
    if bits > 0 {
        lemma_reverse_bits_zero((bits - 1) as nat);
        assert((0nat % 2) * two_pow((bits - 1) as nat) == 0) by (nonlinear_arith);
    }
}

/// Reversing the bits twice gives the index back.
pub proof fn lemma_reverse_bits_involution(i: nat, bits: nat)
    requires
        i < two_pow(bits),
    ensures
        reverse_bits(reverse_bits(i, bits), bits) == i,
    decreases bits,
{
    if bits > 0 {
        let p = two_pow((bits - 1) as nat);
        lemma_two_pow_pos((bits - 1) as nat);
        let low = reverse_bits(i / 2, (bits - 1) as nat);
        lemma_reverse_bits_bound(i / 2, (bits - 1) as nat);
        let r = reverse_bits(i, bits);
        lemma_reverse_bits_bound(i, bits);
        lemma_reverse_bits_top(r, bits);
        assert(i / 2 < p);
        lemma_reverse_bits_involution(i / 2, (bits - 1) as nat);
        if i % 2 == 0 {
            assert((i % 2) * p == 0);
            assert(r == low);
            assert(r % p == low) by {
                vstd::arithmetic::div_mod::lemma_small_mod(low, p);
            };
            assert(r / p == 0) by {
                vstd::arithmetic::div_mod::lemma_basic_div(low as int, p as int);
            };
        } else {
            assert(i % 2 == 1);
            assert((i % 2) * p == p);
            assert(r == p + low);
            assert(r % p == low) by {
                vstd::arithmetic::div_mod::lemma_mod_add_multiples_vanish(low as int, p as int);
                vstd::arithmetic::div_mod::lemma_small_mod(low, p);
            };
            assert(r / p == 1) by (nonlinear_arith)
                requires
                    r == p + low,
                    low < p,
                    p > 0,
            ;
        }
    }
}

/// Incrementing an index advances its reversal by one step of the bit-reversed counter.
proof fn lemma_reverse_bits_increment(i: nat, bits: nat)
    requires
        bits >= 1,
        i + 1 < two_pow(bits),
    ensures
        reverse_bits(i + 1, bits) == reversed_increment(
            reverse_bits(i, bits),
            two_pow((bits - 1) as nat),
        ),
    decreases bits,
{
    let p = two_pow((bits - 1) as nat);
    lemma_two_pow_pos((bits - 1) as nat);
    lemma_reverse_bits_bound(i / 2, (bits - 1) as nat);
    if i % 2 == 0 {
        assert((i + 1) / 2 == i / 2);
        assert(reverse_bits(i, bits) == reverse_bits(i / 2, (bits - 1) as nat)) by {
            assert((i % 2) * p == 0);
        };
        assert(reverse_bits(i + 1, bits) == p + reverse_bits(i / 2, (bits - 1) as nat)) by {
            assert(((i + 1) % 2) * p == p);
        };
    } else {
        assert(bits >= 2) by {
            if bits == 1 {
                assert(p == 1);
            }
        };
        let q = two_pow((bits - 2) as nat);
        assert(p / 2 == q);
        assert((i + 1) / 2 == i / 2 + 1);
        assert(reverse_bits(i, bits) == p + reverse_bits(i / 2, (bits - 1) as nat)) by {
            assert((i % 2) * p == p);
        };
        assert(reverse_bits(i + 1, bits) == reverse_bits(i / 2 + 1, (bits - 1) as nat)) by {
            assert((i + 1) % 2 == 0);
            assert(((i + 1) % 2) * p == 0);
        };
        lemma_reverse_bits_increment(i / 2, (bits - 1) as nat);
    }
}

/// Applying the bit-reversal permutation twice restores the original order.
pub proof fn lemma_bit_reversed_twice<T>(s: Seq<T>)
    requires
        is_power_of_two(s.len()),
    ensures
        bit_reversed(bit_reversed(s)) == s,
{
    let bits = log2(s.len());
    assert forall|i: int| 0 <= i < s.len() implies #[trigger] bit_reversed(bit_reversed(s))[i]
        == s[i] by {
        lemma_reverse_bits_bound(i as nat, bits);
        lemma_reverse_bits_involution(i as nat, bits);
    };
    assert(bit_reversed(bit_reversed(s)) =~= s);
}

/// Relies on `<[T]>::swap`: exchanges the elements at two indices.
#[verifier::external_body]
fn slice_swap<T>(s: &mut [T], a: usize, b: usize)
    requires
        a < old(s)@.len(),
        b < old(s)@.len(),
    ensures
        final(s)@ == old(s)@.update(a as int, old(s)@[b as int]).update(b as int, old(s)@[a as int]),
{
    s.swap(a, b)
}

/// Reorders `data` into bit-reversal order in one pass: a bit-reversed counter
/// `target` follows the position, and the two items are swapped when `target` is ahead.
pub fn rearrange<T>(data: &mut [T])
    requires
        is_power_of_two(old(data)@.len()),
    ensures
        final(data)@ == bit_reversed(old(data)@),
{
    let len = data.len();
    let ghost bits = log2(len as nat);
    let ghost orig = data@;
    let mut target: usize = 0;
    let mut position: usize = 0;
    proof {
        assert forall|i: int| 0 <= i < len implies reverse_bits(
            #[trigger] reverse_bits(i as nat, bits),
            bits,
        ) == i && reverse_bits(i as nat, bits) < len by {
            lemma_reverse_bits_involution(i as nat, bits);
            lemma_reverse_bits_bound(i as nat, bits);
        };
        if len >= 2 {
            assert(two_pow((bits - 1) as nat) == len / 2);
        }
        lemma_reverse_bits_zero(bits);
    }
    while position < len
        invariant
            len == data@.len() == orig.len(),
            bits == log2(len as nat),
            two_pow(bits) == len,
            len >= 2 ==> two_pow((bits - 1) as nat) == len / 2,
            position <= len,
            position < len ==> target == reverse_bits(position as nat, bits),
            forall|i: int|
                0 <= i < len ==> reverse_bits(#[trigger] reverse_bits(i as nat, bits), bits) == i
                    && reverse_bits(i as nat, bits) < len,
            forall|i: int|
                0 <= i < len ==> #[trigger] data@[i] == orig[if i < position || reverse_bits(
                    i as nat,
                    bits,
                ) < position {
                    reverse_bits(i as nat, bits) as int
                } else {
                    i
                }],
        decreases len - position,
    {
        proof {
            lemma_reverse_bits_bound(position as nat, bits);
        }
        if target > position {
            slice_swap(data, target, position);
        }
        proof {
            assert forall|i: int| 0 <= i < len implies #[trigger] data@[i] == orig[if i < position
                + 1 || reverse_bits(i as nat, bits) < position + 1 {
                reverse_bits(i as nat, bits) as int
            } else {
                i
            }] by {
                if i != position && i != target {
                    assert(reverse_bits(i as nat, bits) != position);
                }
            };
        }
        let mut mask: usize = len / 2;
        let ghost goal = reversed_increment(target as nat, mask as nat);
        while mask > 0 && target >= mask
            invariant
                mask <= len / 2,
                reversed_increment(target as nat, mask as nat) == goal,
            decreases mask,
        {
            target = target - mask;
            mask = mask / 2;
        }
        target = target + mask;
        proof {
            if position + 1 < len {
                lemma_reverse_bits_increment(position as nat, bits);
            }
        }
        position = position + 1;
    }
    assert(data@ =~= bit_reversed(orig));
}

/// The largest power of two that is at most `n`.
pub fn lower_power_of_two(n: usize) -> (r: usize)
    requires
        n > 0,
    ensures
        is_power_of_two(r as nat),
        r <= n,
        n < 2 * r,
{
    let mut r: usize = 1;
    let ghost k: nat = 0;
    while r <= n / 2
        invariant
            r == two_pow(k),
            log2(r as nat) == k,
            1 <= r <= n,
        decreases n - r,
    {
        proof {
            assert((2 * r) as nat / 2 == r as nat);
        }
        r = r * 2;
        proof {
            k = k + 1;
        }
    }
    r
}

/// The signed bin number of index `i` of an `n`-point transform: indices up to `n / 2`
/// stand for non-negative frequencies, those above for negative ones, wrapped.
pub open spec fn signed_bin(i: int, n: int) -> int {
    if i <= n / 2 {
        i
    } else {
        i - n
    }
}

/// The signed bin numbers of an `n`-point transform. Entry `i` times `1 / (n * spacing)`
/// is the frequency of bin `i`: entry 0 is 0 Hz and entry `n / 2` the Nyquist frequency.
pub fn freq_bins(n: u32) -> (r: Vec<i64>)
    ensures
        r@.len() == n,
        forall|i: int| 0 <= i < n ==> #[trigger] r@[i] == signed_bin(i, n as int),
        n > 0 ==> r@[0] == 0,
        n > 0 ==> r@[(n / 2) as int] == n / 2,
{
    let mut r: Vec<i64> = Vec::with_capacity(n as usize);
    let mut i: u32 = 0;
    while i < n
        invariant
            i <= n,
            r@.len() == i,
            forall|j: int| 0 <= j < i ==> #[trigger] r@[j] == signed_bin(j, n as int),
        decreases n - i,
    {
        if i <= n / 2 {
            r.push(i as i64);
        } else {
            r.push(i as i64 - n as i64);
        }
        i = i + 1;
    }
    r
}

} // verus!
