//! Human-readable size formatting: decimal rendering of unsigned integers and
//! the scaled `B`/`K`/`M`/`G`/`T` form used by listings and disk-usage lines.

use vstd::prelude::*;
use vstd::string::StrSliceExecFns;
use vstd::string::StringExecFns;
use vstd::arithmetic::div_mod::lemma_div_is_ordered;
use vstd::arithmetic::div_mod::lemma_div_is_ordered_by_denominator;
use vstd::arithmetic::div_mod::lemma_fundamental_div_mod;
use vstd::arithmetic::div_mod::lemma_hoist_over_denominator;

verus! {

/// The decimal digit character for a value below ten.
pub open spec fn spec_digit(n: nat) -> char {
    if n == 0 {
        '0'
    } else if n == 1 {
        '1'
    } else if n == 2 {
        '2'
    } else if n == 3 {
        '3'
    } else if n == 4 {
        '4'
    } else if n == 5 {
        '5'
    } else if n == 6 {
        '6'
    } else if n == 7 {
        '7'
    } else if n == 8 {
        '8'
    } else {
        '9'
    }
}

/// The decimal rendering of `n`, most significant digit first.
pub open spec fn spec_dec(n: nat) -> Seq<char>
    decreases n,
{
    if n < 10 {
        seq![spec_digit(n)]
    } else {
        spec_dec(n / 10).push(spec_digit(n % 10))
    }
}

/// The divisor that scales a size of at least 1024 into its display unit:
/// the largest power of 1024, up to the fourth, that does not exceed it.
pub open spec fn spec_size_divisor(size: u64) -> int {
    if size < 1024 * 1024 {
        1024int
    } else if size < 1024 * 1024 * 1024 {
        1024int * 1024
    } else if size < 1024 * 1024 * 1024 * 1024 {
        1024int * 1024 * 1024
    } else {
        1024int * 1024 * 1024 * 1024
    }
}

/// The unit letter shown for a divisor.
pub open spec fn spec_unit_of(d: int) -> Seq<char> {
    if d == 1024 {
        "K"@
    } else if d == 1024 * 1024 {
        "M"@
    } else if d == 1024 * 1024 * 1024 {
        "G"@
    } else {
        "T"@
    }
}

/// Human-readable size: plain bytes below 1024; above that, the size scaled
/// by the largest applicable power of 1024, shown with one decimal digit
/// rounded to the nearest tenth, and the unit letter. Ties round half away
/// from zero — a deliberate choice, fixed here exactly, where float
/// formatting would round ties to even (the two differ only on exact
/// half-tenths, such as 2304 bytes showing 2.3K rather than 2.2K).
pub open spec fn spec_format_size(size: u64) -> Seq<char> {
    if size < 1024 {
        spec_dec(size as nat) + "B"@
    } else {
        let d = spec_size_divisor(size);
        let whole = size as int / d;
        let tenths = ((size as int % d) * 10 + d / 2) / d;
        let w = if tenths == 10 { whole + 1 } else { whole };
        let t = if tenths == 10 { 0 } else { tenths };
        spec_dec(w as nat) + seq!['.'] + seq![spec_digit(t as nat)] + spec_unit_of(
            spec_size_divisor(size),
        )
    }
}

/// The magnitude a scaled size displays, in tenths of its unit: the size
/// divided by its unit's divisor, rounded to the nearest tenth.
pub open spec fn spec_scaled_tenths(size: u64) -> int {
    let d = spec_size_divisor(size);
    (size as int * 10 + d / 2) / d
}

/// The whole and fractional digits that `spec_format_size` shows for a size
/// of at least 1024 are exactly its scaled tenths: ten times the whole part
/// plus the shown tenth.
pub proof fn lemma_format_size_shows_scaled_tenths(size: u64)
    requires
        size >= 1024,
    ensures
        ({
            let d = spec_size_divisor(size);
            let whole = size as int / d;
            let tenths = ((size as int % d) * 10 + d / 2) / d;
            let w = if tenths == 10 {
                whole + 1
            } else {
                whole
            };
            let t = if tenths == 10 {
                0int
            } else {
                tenths
            };
            10 * w + t == spec_scaled_tenths(size)
        }),
{
    let d = spec_size_divisor(size);
    let q = size as int / d;
    let r = size as int % d;
    lemma_fundamental_div_mod(size as int, d);
    assert(size as int * 10 + d / 2 == (r * 10 + d / 2) + (10 * q) * d) by (nonlinear_arith)
        requires
            size as int == d * q + r,
    ;
    lemma_hoist_over_denominator(r * 10 + d / 2, 10 * q, d as nat);
}

/// Law: within one magnitude class, the displayed value is monotonic — a
/// larger size never shows a smaller scaled magnitude.
pub proof fn lemma_format_size_monotonic(a: u64, b: u64)
    requires
        1024 <= a <= b,
        spec_size_divisor(a) == spec_size_divisor(b),
    ensures
        spec_scaled_tenths(a) <= spec_scaled_tenths(b),
{
    let d = spec_size_divisor(a);
    lemma_div_is_ordered(a as int * 10 + d / 2, b as int * 10 + d / 2, d);
}

/// Law: across magnitude classes the unit itself is monotonic — a larger
/// size never scales by a smaller divisor, so the units ascend through
/// B, K, M, G, T as sizes grow.
pub proof fn lemma_size_unit_monotonic(a: u64, b: u64)
    requires
        a <= b,
    ensures
        a >= 1024 && b >= 1024 ==> spec_size_divisor(a) <= spec_size_divisor(b),
        a < 1024 ==> (b < 1024 || spec_size_divisor(b) >= 1024),
{
}

/// The single-character string for a decimal digit.
fn digit_str(n: u64) -> (r: String)
    requires
        n < 10,
    ensures
        r@ == seq![spec_digit(n as nat)],
{
    proof {
        reveal_strlit("0");
        reveal_strlit("1");
        reveal_strlit("2");
        reveal_strlit("3");
        reveal_strlit("4");
        reveal_strlit("5");
        reveal_strlit("6");
        reveal_strlit("7");
        reveal_strlit("8");
        reveal_strlit("9");
    }
    let s = if n == 0 {
        "0"
    } else if n == 1 {
        "1"
    } else if n == 2 {
        "2"
    } else if n == 3 {
        "3"
    } else if n == 4 {
        "4"
    } else if n == 5 {
        "5"
    } else if n == 6 {
        "6"
    } else if n == 7 {
        "7"
    } else if n == 8 {
        "8"
    } else {
        "9"
    };
    proof {
        assert(s@ =~= seq![spec_digit(n as nat)]);
    }
    String::from_str(s)
}

/// The decimal rendering of `n`, as `spec_dec` gives it.
pub fn u64_to_string(n: u64) -> (s: String)
    ensures
        s@ == spec_dec(n as nat),
    decreases n,
{
    if n < 10 {
        digit_str(n)
    } else {
        let mut s = u64_to_string(n / 10);
        let last = digit_str(n % 10);
        s.append(last.as_str());
        proof {
            assert(spec_dec((n / 10) as nat).push(spec_digit((n % 10) as nat)) =~= spec_dec(
                (n / 10) as nat,
            ) + seq![spec_digit((n % 10) as nat)]);
        }
        s
    }
}

/// Format a byte count for display, exactly as `spec_format_size` states.
pub fn format_size(size: u64) -> (r: String)
    ensures
        r@ == spec_format_size(size),
{
    if size < 1024 {
        let s = u64_to_string(size);
        return s.concat("B");
    }
    let d: u64 = if size < 1024 * 1024 {
        1024
    } else if size < 1024 * 1024 * 1024 {
        1024 * 1024
    } else if size < 1024 * 1024 * 1024 * 1024 {
        1024 * 1024 * 1024
    } else {
        1024 * 1024 * 1024 * 1024
    };
    proof {
        assert(d as int == spec_size_divisor(size));
    }
    let whole = size / d;
    let rem = size % d;
    proof {
        assert(rem as int * 10 + d as int / 2 <= 0xffff_ffff_ffff_ffff) by (nonlinear_arith)
            requires
                rem < d,
                1024 <= d <= 1024 * 1024 * 1024 * 1024,
        ;
    }
    let tenths = (rem * 10 + d / 2) / d;
    proof {
        lemma_div_is_ordered_by_denominator(size as int, 1024, d as int);
        assert(whole < 0xffff_ffff_ffff_ffffu64);
        assert(tenths <= 10) by {
            assert(rem < d);
            assert(((rem as int * 10 + d as int / 2) / (d as int)) < 11) by (nonlinear_arith)
                requires
                    rem < d,
                    d >= 1024,
            ;
        }
    }
    let w: u64 = if tenths == 10 {
        whole + 1
    } else {
        whole
    };
    let t: u64 = if tenths == 10 {
        0
    } else {
        tenths
    };
    let mut s = u64_to_string(w);
    s.append(".");
    let td = digit_str(t);
    s.append(td.as_str());
    let u = if d == 1024 {
        "K"
    } else if d == 1024 * 1024 {
        "M"
    } else if d == 1024 * 1024 * 1024 {
        "G"
    } else {
        "T"
    };
    s.append(u);
    proof {
        reveal_strlit(".");
        assert("."@ =~= seq!['.']);
        assert(u@ == spec_unit_of(d as int));
        assert(s@ =~= spec_format_size(size));
    }
    s
}

} // verus!
