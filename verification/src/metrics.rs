//! Derived layout metrics the rendering collaborator consumes each frame:
//! the line-number gutter width, the caret's pixel position, and the scroll
//! bounds that clamp its viewport offsets.

use crate::cursor::Cursor;
use crate::layout::spec_advance_product;
use vstd::arithmetic::div_mod::lemma_div_is_ordered;
use vstd::arithmetic::div_mod::lemma_fundamental_div_mod;
use vstd::arithmetic::mul::lemma_mul_inequality;
use vstd::prelude::*;

verus! {

/// The number of decimal digits of `n` (one digit for 0).
pub open spec fn spec_digits(n: nat) -> nat
    decreases n,
{
    if n < 10 {
        1
    } else {
        1 + spec_digits(n / 10)
    }
}

/// Ten to the `k`th power.
pub open spec fn pow10(k: nat) -> nat
    decreases k,
{
    if k == 0 {
        1
    } else {
        10 * pow10((k - 1) as nat)
    }
}

/// A number below the `k`th power of ten has at most `k` decimal digits.
pub proof fn lemma_digits_bound(n: nat, k: nat)
    requires
        1 <= k,
        n < pow10(k),
    ensures
        spec_digits(n) <= k,
    decreases k,
{
    if n < 10 {
    } else {
        assert(pow10(k) == 10 * pow10((k - 1) as nat));
        if k == 1 {
            assert(pow10(0nat) == 1);
            assert(pow10(1nat) == 10 * pow10(0nat));
            assert(false);
        }
        let q = n / 10;
        lemma_fundamental_div_mod(n as int, 10);
        if q >= pow10((k - 1) as nat) {
            lemma_mul_inequality(pow10((k - 1) as nat) as int, q as int, 10);
            assert(false);
        }
        lemma_digits_bound(q, (k - 1) as nat);
    }
}

/// The digit count never decreases as the number grows.
pub proof fn lemma_digits_monotone(m: nat, n: nat)
    requires
        m <= n,
    ensures
        spec_digits(m) <= spec_digits(n),
    decreases n,
{
    if m < 10 {
        assert(spec_digits(m) == 1);
        assert(spec_digits(n) >= 1);
    } else {
        lemma_div_is_ordered(m as int, n as int, 10);
        lemma_digits_monotone(m / 10, n / 10);
    }
}

/// Counts the decimal digits of `n`: the width, in characters, that a
/// line-number gutter needs for the number `n`.
pub fn decimal_digit_count(n: u64) -> (d: u32)
    ensures
        d == spec_digits(n as nat),
{
    proof {
        reveal_with_fuel(pow10, 21);
        assert((u64::MAX as nat) < pow10(20nat));
        lemma_digits_bound(n as nat, 20nat);
    }
    let mut d: u32 = 1;
    let mut m: u64 = n / 10;
    while m > 0
        invariant
            spec_digits(n as nat) == d + (if m > 0 {
                spec_digits(m as nat)
            } else {
                0
            }),
            spec_digits(n as nat) <= 20,
            d >= 1,
        decreases m,
    {
        proof {
            assert(spec_digits(m as nat) >= 1);
        }
        d = d + 1;
        m = m / 10;
    }
    d
}

/// A count of advance widths, saturated at the widest representable pixel
/// offset.
pub fn advance_product(count: u64, advance: u32) -> (w: u64)
    ensures
        w == spec_advance_product(count as int, advance as int),
{
    match count.checked_mul(advance as u64) {
        Some(x) => x,
        None => u64::MAX,
    }
}

/// A longer run of equally wide glyphs is never narrower.
pub proof fn lemma_advance_product_monotone(a: int, b: int, c: int)
    requires
        0 <= a <= b,
        0 <= c,
    ensures
        spec_advance_product(a, c) <= spec_advance_product(b, c),
{
    lemma_mul_inequality(a, b, c);
}

/// The pixel width of the line-number gutter: wide enough for the decimal
/// digits of every row number `0 .. line_count`, rendered `advance` pixels
/// per digit.
pub fn line_number_width(line_count: usize, advance: u32) -> (w: u64)
    requires
        line_count >= 1,
    ensures
        w == spec_advance_product(spec_digits((line_count - 1) as nat) as int, advance as int),
        forall|i: int|
            0 <= i < line_count ==> #[trigger] spec_advance_product(
                spec_digits(i as nat) as int,
                advance as int,
            ) <= w,
{
    let d = decimal_digit_count((line_count - 1) as u64);
    let w = advance_product(d as u64, advance);
    proof {
        assert forall|i: int| 0 <= i < line_count implies #[trigger] spec_advance_product(
            spec_digits(i as nat) as int,
            advance as int,
        ) <= w by {
            lemma_digits_monotone(i as nat, (line_count - 1) as nat);
            lemma_advance_product_monotone(
                spec_digits(i as nat) as int,
                spec_digits((line_count - 1) as nat) as int,
                advance as int,
            );
        }
    }
    w
}

/// The caret's pixel position relative to the text origin: the cached
/// x-offset, and the row number times the font height.
pub fn cursor_pixel_position(cursor: &Cursor, font_height: u32) -> (p: (u64, u64))
    ensures
        p.0 == cursor.x_offset,
        p.1 == spec_advance_product(cursor.row as int, font_height as int),
{
    (cursor.x_offset, advance_product(cursor.row as u64, font_height))
}

/// The lowest admissible scroll offset for content of `extent` pixels in a
/// viewport of `viewport` pixels: 0 when everything fits, else the negated
/// overhang.
pub open spec fn spec_scroll_lower(extent: int, viewport: int) -> int {
    if extent > viewport {
        viewport - extent
    } else {
        0
    }
}

/// The lowest admissible scroll offset, saturated at the most negative
/// representable offset.
pub fn scroll_lower_bound(extent: u64, viewport: u64) -> (lo: i64)
    ensures
        lo <= 0,
        lo as int == (if spec_scroll_lower(extent as int, viewport as int) < i64::MIN {
            i64::MIN as int
        } else {
            spec_scroll_lower(extent as int, viewport as int)
        }),
{
    if extent <= viewport {
        0
    } else {
        let d = extent - viewport;
        if d >= 9223372036854775808u64 {
            i64::MIN
        } else {
            -(d as i64)
        }
    }
}

/// Clamps a proposed scroll offset into `[lower, 0]`.
pub fn clamp_scroll(proposed: i64, lower: i64) -> (r: i64)
    requires
        lower <= 0,
    ensures
        r == (if proposed > 0 {
            0int
        } else if proposed < lower {
            lower as int
        } else {
            proposed as int
        }),
        lower <= r <= 0,
{
    if proposed > 0 {
        0
    } else if proposed < lower {
        lower
    } else {
        proposed
    }
}

} // verus!
