use vstd::prelude::*;
use vstd::arithmetic::div_mod::{
    lemma_div_is_ordered, lemma_fundamental_div_mod, lemma_multiply_divide_lt,
};
use vstd::arithmetic::mul::lemma_mul_inequality;
use crate::decimal::{append_dec_u64, dec_str, digit_char, u64_to_dec_string};

verus! {

/// `1000^k`: the SI-decimal magnitude steps are 1000-based, not 1024-based.
pub open spec fn pow1000(k: nat) -> nat
    decreases k,
{
    if k == 0 {
        1
    } else {
        1000 * pow1000((k - 1) as nat)
    }
}

pub proof fn lemma_pow1000_pos(k: nat)
    ensures
        pow1000(k) >= 1,
    decreases k,
{
    if k > 0 {
        lemma_pow1000_pos((k - 1) as nat);
    }
}

/// The unit suffix for magnitude step `i` of the fixed sequence
/// `K, M, G, T, P, E, Z, Y` (meaningful for `i < 8`).
pub open spec fn suffix_char(i: nat) -> char {
    if i == 0 {
        'K'
    } else if i == 1 {
        'M'
    } else if i == 2 {
        'G'
    } else if i == 3 {
        'T'
    } else if i == 4 {
        'P'
    } else if i == 5 {
        'E'
    } else if i == 6 {
        'Z'
    } else {
        'Y'
    }
}

/// The numeric part of the label at magnitude step `i`, in tenths of a
/// unit. With `d = 1000^(i+1)`, the true quotient is `n / d`. Below ten
/// units a small epsilon (0.0499) is first subtracted, biasing the last
/// decimal digit away from rounding-up artifacts at the boundary; at ten
/// units and above the quotient is rounded as it stands. Rounding is to
/// the nearest tenth, half upward.
pub open spec fn scaled_tenths(n: nat, i: nat) -> nat {
    let d = pow1000(i + 1);
    if n < 10 * d {
        // round(10 * n / d - 0.499), written over integers
        (10000 * n + d) / (1000 * d)
    } else {
        // round(10 * n / d)
        (20 * n + d) / (2 * d)
    }
}

/// A tenths count `t` rendered with exactly one decimal digit.
pub open spec fn tenths_str(t: nat) -> Seq<char> {
    dec_str(t / 10) + seq!['.', digit_char(t % 10)]
}

/// The label for a count `n >= 1000`, with magnitude steps below `i`
/// already ruled out. Walks the suffix sequence until the quotient falls
/// under 1000; if the sequence is exhausted the label is empty, a defined
/// boundary behavior rather than an error.
pub open spec fn size_label_scaled(n: nat, i: nat) -> Seq<char>
    decreases 8 - i,
{
    if i >= 8 {
        Seq::empty()
    } else if n < 1000 * pow1000(i + 1) {
        tenths_str(scaled_tenths(n, i)) + seq![suffix_char(i)]
    } else {
        size_label_scaled(n, i + 1)
    }
}

/// The human-readable SI size label for a byte count `n`: under 1000 the
/// plain count followed by `B`, otherwise the scaled one-decimal magnitude
/// followed by its unit suffix, with no space in between.
pub open spec fn size_label(n: nat) -> Seq<char> {
    if n < 1000 {
        dec_str(n) + seq!['B']
    } else {
        size_label_scaled(n, 0)
    }
}

/// The unit suffix for magnitude step `i` as a string literal.
fn suffix_lit(i: usize) -> (r: &'static str)
    requires
        i < 8,
    ensures
        r@ == seq![suffix_char(i as nat)],
{
    proof {
        reveal_strlit("K");
        reveal_strlit("M");
        reveal_strlit("G");
        reveal_strlit("T");
        reveal_strlit("P");
        reveal_strlit("E");
        reveal_strlit("Z");
        reveal_strlit("Y");
    }
    let r: &'static str = if i == 0 {
        "K"
    } else if i == 1 {
        "M"
    } else if i == 2 {
        "G"
    } else if i == 3 {
        "T"
    } else if i == 4 {
        "P"
    } else if i == 5 {
        "E"
    } else if i == 6 {
        "Z"
    } else {
        "Y"
    };
    assert(r@ =~= seq![suffix_char(i as nat)]);
    r
}

/// Converts a byte count into its human-readable unit-suffixed string.
/// Total over all 64-bit counts; for those the suffix sequence never
/// runs out, so the label is never empty.
pub fn format_size(size: u64) -> (r: String)
    ensures
        r@ == size_label(size as nat),
        size < 1000 ==> r@ == dec_str(size as nat) + seq!['B'],
{
    proof {
        reveal_strlit(".");
    }
    if size < 1000 {
        let mut s = u64_to_dec_string(size);
        s.append("B");
        proof {
            reveal_strlit("B");
            assert("B"@ =~= seq!['B']);
        }
        return s;
    }
    let mut d: u64 = 1000;
    let mut i: usize = 0;
    proof {
        assert(pow1000(1) == 1000) by {
            reveal_with_fuel(pow1000, 2);
        }
    }
    while size / d >= 1000
        invariant
            1000 <= size,
            1000 <= d,
            i <= 6,
            d == pow1000((i + 1) as nat),
            d <= size,
            size_label_scaled(size as nat, 0) == size_label_scaled(size as nat, i as nat),
        decreases 8 - i,
    {
        proof {
            lemma_fundamental_div_mod(size as int, d as int);
            lemma_mul_inequality(1000, (size / d) as int, d as int);
            assert(1000 * (d as int) <= size);
            // the next step would pass the end of the u64 range at i == 6
            if i == 6 {
                reveal_with_fuel(pow1000, 9);
                assert(1000 * (d as int) > u64::MAX as int);
            }
        }
        d = d * 1000;
        i = i + 1;
    }
    proof {
        lemma_fundamental_div_mod(size as int, d as int);
        lemma_mul_inequality((size / d) as int, 999, d as int);
        assert((size as nat) < 1000 * pow1000((i + 1) as nat));
        lemma_pow1000_pos((i + 1) as nat);
    }
    let ghost dd: int = d as int;
    let t: u64 = if size / d < 10 {
        proof {
            lemma_mul_inequality((size / d) as int, 9, d as int);
            assert((size as int) < 10 * dd);
            lemma_multiply_divide_lt(10000 * (size as int) + dd, 1000 * dd, 101);
        }
        ((10000u128 * (size as u128) + (d as u128)) / (1000u128 * (d as u128))) as u64
    } else {
        proof {
            lemma_mul_inequality(10, (size / d) as int, d as int);
            assert(10 * dd <= size as int);
            lemma_multiply_divide_lt(20 * (size as int) + dd, 2 * dd, 10001);
        }
        ((20u128 * (size as u128) + (d as u128)) / (2u128 * (d as u128))) as u64
    };
    proof {
        assert(t as nat == scaled_tenths(size as nat, i as nat));
    }
    let mut s = u64_to_dec_string(t / 10);
    s.append(".");
    append_dec_u64(&mut s, t % 10);
    let suf = suffix_lit(i);
    s.append(suf);
    proof {
        assert("."@ =~= seq!['.']);
        assert(s@ =~= tenths_str(t as nat) + seq![suffix_char(i as nat)]);
        assert(s@ == size_label(size as nat));
    }
    s
}

pub proof fn lemma_pow1000_increases(a: nat, b: nat)
    requires
        a <= b,
    ensures
        pow1000(a) <= pow1000(b),
    decreases b,
{
    if a < b {
        lemma_pow1000_increases(a, (b - 1) as nat);
        lemma_pow1000_pos((b - 1) as nat);
    }
}

proof fn lemma_size_label_scaled_skip(n: nat, j: nat, i: nat)
    requires
        j <= i,
        i < 8,
        pow1000(i + 1) <= n,
        n < 1000 * pow1000(i + 1),
    ensures
        size_label_scaled(n, j) == tenths_str(scaled_tenths(n, i)) + seq![suffix_char(i)],
    decreases i - j,
{
    if j < i {
        lemma_pow1000_increases(j + 2, i + 1);
        assert(pow1000(j + 2) == 1000 * pow1000(j + 1));
        lemma_size_label_scaled_skip(n, j + 1, i);
    }
}

/// The label of a count within magnitude step `i` (at least one unit of
/// that step, under a thousand of them) is exactly its tenths value at
/// that step followed by that step's suffix: the shape over which the
/// monotonicity law below speaks.
pub proof fn lemma_size_label_at_step(n: nat, i: nat)
    requires
        i < 8,
        pow1000(i + 1) <= n,
        n < 1000 * pow1000(i + 1),
    ensures
        size_label(n) == tenths_str(scaled_tenths(n, i)) + seq![suffix_char(i)],
{
    lemma_pow1000_increases(1, i + 1);
    assert(pow1000(1) == 1000) by {
        reveal_with_fuel(pow1000, 2);
    }
    lemma_size_label_scaled_skip(n, 0, i);
}

/// Monotonicity of the size label's numeric part: two byte counts that
/// fall under the same unit suffix (both within magnitude step `i`) keep
/// their order in the rendered tenths, so the decoded numeric part of the
/// label never decreases as the count grows.
pub proof fn lemma_size_tenths_monotone(n1: nat, n2: nat, i: nat)
    requires
        n1 <= n2,
        pow1000(i + 1) <= n1,
        n2 < 1000 * pow1000(i + 1),
    ensures
        scaled_tenths(n1, i) <= scaled_tenths(n2, i),
{
    let d = pow1000(i + 1) as int;
    lemma_pow1000_pos(i + 1);
    if n2 < 10 * pow1000(i + 1) {
        lemma_div_is_ordered(10000 * n1 + d, 10000 * n2 + d, 1000 * d);
    } else if 10 * pow1000(i + 1) <= n1 {
        lemma_div_is_ordered(20 * n1 + d, 20 * n2 + d, 2 * d);
    } else {
        // n1 still renders below ten units, n2 at ten or above: the first
        // tenths value stays at or under 100, the second at or over 100
        lemma_multiply_divide_lt(10000 * n1 + d, 1000 * d, 101);
        assert(scaled_tenths(n1, i) <= 100);
        lemma_div_is_ordered(100 * (2 * d), 20 * n2 + d, 2 * d);
        vstd::arithmetic::div_mod::lemma_div_multiples_vanish(100, 2 * d);
        assert(scaled_tenths(n2, i) >= 100);
    }
}

} // verus!

