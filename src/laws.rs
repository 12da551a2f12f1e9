//! What holds of every text that [`fit_4`](crate::fit::fit_4) writes.
use vstd::prelude::*;

use crate::decimal::{
    all_digits,
    decimal,
    digit_char,
    digit_value,
    digits_value,
    is_digit,
    lemma_decimal,
    lemma_decimal_len,
    lemma_digit_char,
    pow10,
};
use crate::fit::{fit_4_text, huge_text, tenths_text, whole_text, HUGE_FROM};
use crate::rounding::{lemma_round_monotone, round_half_down, round_half_even};

verus! {

/// One to three digits, then `suffix`.
pub open spec fn is_whole_form(s: Seq<char>, suffix: char) -> bool {
    &&& 2 <= s.len() <= 4
    &&& s.last() == suffix
    &&& all_digits(s.drop_last())
}

/// A digit, a point, a digit, then `suffix`.
pub open spec fn is_tenths_form(s: Seq<char>, suffix: char) -> bool {
    &&& s.len() == 4
    &&& is_digit(s[0])
    &&& s[1] == '.'
    &&& is_digit(s[2])
    &&& s[3] == suffix
}

/// Whether a text ends in a character that is no digit, its scale suffix.
pub open spec fn has_suffix(s: Seq<char>) -> bool {
    s.len() > 0 && !is_digit(s.last())
}

/// The numeric part of a text: all of it but its scale suffix.
pub open spec fn number_part(s: Seq<char>) -> Seq<char> {
    if has_suffix(s) {
        s.drop_last()
    } else {
        s
    }
}

/// The scale suffix of a text, empty where there is none.
pub open spec fn suffix_part(s: Seq<char>) -> Seq<char> {
    if has_suffix(s) {
        seq![s.last()]
    } else {
        Seq::empty()
    }
}

/// The value of a numeric part in tenths: `ddd` is worth ten times `ddd`,
/// `d.d` is worth `dd`.
pub open spec fn tenths_value(s: Seq<char>) -> nat {
    if s.len() >= 2 && s[s.len() - 2] == '.' {
        digits_value(s.take(s.len() - 2)) * 10 + digit_value(s.last())
    } else {
        digits_value(s) * 10
    }
}

proof fn lemma_plain_shape(n: nat)
    requires
        n <= 9_999,
    ensures
        1 <= decimal(n).len() <= 4,
        all_digits(decimal(n)),
        !has_suffix(decimal(n)),
        tenths_value(decimal(n)) == 10 * n,
{
    lemma_decimal(n);
    reveal_with_fuel(pow10, 5);
    lemma_decimal_len(n, 4);
    assert(is_digit(decimal(n).last()));
    let s = decimal(n);
    if s.len() >= 2 {
        assert(is_digit(s[s.len() - 2]));
    }
}

proof fn lemma_whole_band(n: nat, unit: nat, lo: nat, hi: nat, c: char)
    requires
        unit > 0,
        lo <= n <= hi,
        round_half_even(lo, unit) >= 1,
        round_half_even(hi, unit) <= 999,
        !is_digit(c),
    ensures
        round_half_even(lo, unit) <= round_half_even(n, unit) <= round_half_even(hi, unit),
        is_whole_form(whole_text(n, unit, seq![c]), c),
        number_part(whole_text(n, unit, seq![c])) == decimal(round_half_even(n, unit)),
        suffix_part(whole_text(n, unit, seq![c])) == seq![c],
        tenths_value(decimal(round_half_even(n, unit))) == 10 * round_half_even(n, unit),
{
    lemma_round_monotone(lo, n, unit);
    lemma_round_monotone(n, hi, unit);
    let r = round_half_even(n, unit);
    let s = whole_text(n, unit, seq![c]);
    lemma_decimal(r);
    reveal_with_fuel(pow10, 4);
    lemma_decimal_len(r, 3);
    assert(s.drop_last() =~= decimal(r));
    let d = decimal(r);
    if d.len() >= 2 {
        assert(is_digit(d[d.len() - 2]));
    }
}

proof fn lemma_tenths_band(n: nat, unit: nat, hi: nat, c: char)
    requires
        unit >= 10,
        n <= hi,
        round_half_down(hi, unit / 10) <= 99,
        !is_digit(c),
    ensures
        round_half_down(n, unit / 10) <= 99,
        is_tenths_form(tenths_text(n, unit, seq![c]), c),
        suffix_part(tenths_text(n, unit, seq![c])) == seq![c],
        tenths_value(number_part(tenths_text(n, unit, seq![c]))) == round_half_down(n, unit / 10),
{
    lemma_round_monotone(n, hi, unit / 10);
    let t = round_half_down(n, unit / 10);
    let s = tenths_text(n, unit, seq![c]);
    lemma_digit_char(t / 10);
    lemma_digit_char(t % 10);
    assert(decimal(t / 10) == seq![digit_char(t / 10)]);
    assert(s =~= seq![digit_char(t / 10), '.', digit_char(t % 10), c]);
    let p = number_part(s);
    assert(p =~= seq![digit_char(t / 10), '.', digit_char(t % 10)]);
    assert(p.take(1) =~= decimal(t / 10));
    lemma_decimal(t / 10);
}

/// Sizes up to 9999 are written as their own decimal digits, one to four of
/// them.
pub proof fn law_small_sizes_plain(size: u64)
    requires
        size <= 9_999,
    ensures
        fit_4_text(size as nat) == decimal(size as nat),
        digits_value(fit_4_text(size as nat)) == size,
        all_digits(fit_4_text(size as nat)),
        1 <= fit_4_text(size as nat).len() <= 4,
{
    lemma_plain_shape(size as nat);
    lemma_decimal(size as nat);
}

/// Sizes from 10000 to 999499 are written as one to three digits and `K`:
/// the size in thousands, rounded.
pub proof fn law_kilo_band(size: u64)
    requires
        10_000 <= size <= 999_499,
    ensures
        fit_4_text(size as nat) == decimal(round_half_even(size as nat, 1_000)).push('K'),
        is_whole_form(fit_4_text(size as nat), 'K'),
{
    lemma_whole_band(size as nat, 1_000, 10_000, 999_499, 'K');
    assert(decimal(round_half_even(size as nat, 1_000)) + seq!['K'] =~= decimal(
        round_half_even(size as nat, 1_000),
    ).push('K'));
}

/// Sizes from 999500 to 9950000 are written as a digit, a point, a digit
/// and `M`.
pub proof fn law_mega_tenths_band(size: u64)
    requires
        999_500 <= size <= 9_950_000,
    ensures
        is_tenths_form(fit_4_text(size as nat), 'M'),
{
    lemma_tenths_band(size as nat, 1_000_000, 9_950_000, 'M');
}

/// Sizes from 9950001 to 999499999 are written as one to three digits and
/// `M`.
pub proof fn law_mega_whole_band(size: u64)
    requires
        9_950_001 <= size <= 999_499_999,
    ensures
        is_whole_form(fit_4_text(size as nat), 'M'),
{
    lemma_whole_band(size as nat, 1_000_000, 9_950_001, 999_499_999, 'M');
}

/// Which band `size` falls in: 0 for plain digits, 1 for whole kilo, then
/// one-decimal and whole bands of M, G, T and P in turn, 10 for `huge`.
spec fn band(size: nat) -> nat {
    if size <= 9_999 {
        0
    } else if size <= 999_499 {
        1
    } else if size <= 9_950_000 {
        2
    } else if size <= 999_499_999 {
        3
    } else if size <= 9_950_000_000 {
        4
    } else if size <= 999_499_999_999 {
        5
    } else if size <= 9_950_000_000_000 {
        6
    } else if size <= 999_499_999_999_999 {
        7
    } else if size <= 9_950_000_000_000_000 {
        8
    } else if size < HUGE_FROM {
        9
    } else {
        10
    }
}

/// The scale suffix that a band writes.
spec fn band_suffix(b: nat) -> Seq<char> {
    if b == 0 {
        Seq::empty()
    } else if b == 1 {
        seq!['K']
    } else if b <= 3 {
        seq!['M']
    } else if b <= 5 {
        seq!['G']
    } else if b <= 7 {
        seq!['T']
    } else {
        seq!['P']
    }
}

/// The value that the text of `size` shows, in tenths of its scale unit.
spec fn shown_tenths(size: nat) -> nat {
    if size <= 9_999 {
        10 * size
    } else if size <= 999_499 {
        10 * round_half_even(size, 1_000)
    } else if size <= 9_950_000 {
        round_half_down(size, 100_000)
    } else if size <= 999_499_999 {
        10 * round_half_even(size, 1_000_000)
    } else if size <= 9_950_000_000 {
        round_half_down(size, 100_000_000)
    } else if size <= 999_499_999_999 {
        10 * round_half_even(size, 1_000_000_000)
    } else if size <= 9_950_000_000_000 {
        round_half_down(size, 100_000_000_000)
    } else if size <= 999_499_999_999_999 {
        10 * round_half_even(size, 1_000_000_000_000)
    } else if size <= 9_950_000_000_000_000 {
        round_half_down(size, 100_000_000_000_000)
    } else {
        10 * round_half_even(size, 1_000_000_000_000_000)
    }
}

proof fn lemma_text_facts(size: nat)
    requires
        size < HUGE_FROM,
    ensures
        1 <= fit_4_text(size).len() <= 4,
        suffix_part(fit_4_text(size)) == band_suffix(band(size)),
        tenths_value(number_part(fit_4_text(size))) == shown_tenths(size),
        band(size) % 2 == 0 && band(size) > 0 ==> shown_tenths(size) <= 99,
        band(size) % 2 == 1 && band(size) > 1 ==> shown_tenths(size) >= 100,
{
    let s = fit_4_text(size);
    if size <= 9_999 {
        lemma_plain_shape(size);
    } else if size <= 999_499 {
        lemma_whole_band(size, 1_000, 10_000, 999_499, 'K');
    } else if size <= 9_950_000 {
        lemma_tenths_band(size, 1_000_000, 9_950_000, 'M');
    } else if size <= 999_499_999 {
        lemma_whole_band(size, 1_000_000, 9_950_001, 999_499_999, 'M');
    } else if size <= 9_950_000_000 {
        lemma_tenths_band(size, 1_000_000_000, 9_950_000_000, 'G');
    } else if size <= 999_499_999_999 {
        lemma_whole_band(size, 1_000_000_000, 9_950_000_001, 999_499_999_999, 'G');
    } else if size <= 9_950_000_000_000 {
        lemma_tenths_band(size, 1_000_000_000_000, 9_950_000_000_000, 'T');
    } else if size <= 999_499_999_999_999 {
        lemma_whole_band(size, 1_000_000_000_000, 9_950_000_000_001, 999_499_999_999_999, 'T');
    } else if size <= 9_950_000_000_000_000 {
        lemma_tenths_band(size, 1_000_000_000_000_000, 9_950_000_000_000_000, 'P');
    } else {
        lemma_whole_band(
            size,
            1_000_000_000_000_000,
            9_950_000_000_000_001,
            (HUGE_FROM - 1) as nat,
            'P',
        );
    }
}

/// Below [`HUGE_FROM`] every text is one to four characters long.
pub proof fn law_length_at_most_four(size: u64)
    requires
        size < HUGE_FROM,
    ensures
        1 <= fit_4_text(size as nat).len() <= 4,
{
    lemma_text_facts(size as nat);
}

/// From [`HUGE_FROM`] on every size is written `huge`.
pub proof fn law_huge_from(size: u64)
    requires
        size >= HUGE_FROM,
    ensures
        fit_4_text(size as nat) == huge_text(),
{
}

/// Between two sizes written with the same scale suffix, the larger never
/// shows the smaller number: `9.9M` comes before `10M`, `999K` before
/// `1.0M` only across suffixes.
pub proof fn law_shown_value_monotone(a: u64, b: u64)
    requires
        a <= b,
        suffix_part(fit_4_text(a as nat)) == suffix_part(fit_4_text(b as nat)),
    ensures
        tenths_value(number_part(fit_4_text(a as nat))) <= tenths_value(
            number_part(fit_4_text(b as nat)),
        ),
{
    let (a, b) = (a as nat, b as nat);
    if a < HUGE_FROM {
        lemma_text_facts(a);
        let sa = band_suffix(band(a));
        if b >= HUGE_FROM {
            assert(suffix_part(huge_text()) =~= seq!['e']);
            if sa.len() == 1 {
                assert(sa[0] != 'e');
            }
            assert(false);
        }
        lemma_text_facts(b);
        let sb = band_suffix(band(b));
        if sa.len() == 1 {
            assert(sa[0] == sb[0]);
        }
        lemma_round_monotone(a, b, 1_000);
        lemma_round_monotone(a, b, 100_000);
        lemma_round_monotone(a, b, 1_000_000);
        lemma_round_monotone(a, b, 100_000_000);
        lemma_round_monotone(a, b, 1_000_000_000);
        lemma_round_monotone(a, b, 100_000_000_000);
        lemma_round_monotone(a, b, 1_000_000_000_000);
        lemma_round_monotone(a, b, 100_000_000_000_000);
        lemma_round_monotone(a, b, 1_000_000_000_000_000);
    }
}

} // verus!
