//! The four-character writing of a byte count.
use vstd::prelude::*;

use crate::decimal::{decimal, digit_char, digit_str, push_decimal};
use crate::rounding::{
    round_half_down,
    round_half_down_exec,
    round_half_even,
    round_half_even_exec,
};

verus! {

/// The least size that is written as [`huge_text`]: the whole peta band
/// ends just below it, and no larger suffix follows.
pub const HUGE_FROM: u64 = 999_499_999_999_999_936;

/// `n` in whole `unit`s, an exact half going to the even neighbour, then
/// `suffix`.
pub open spec fn whole_text(n: nat, unit: nat, suffix: Seq<char>) -> Seq<char> {
    decimal(round_half_even(n, unit)) + suffix
}

/// `n` in `unit`s with one decimal, an exact half of the last place going
/// down, then `suffix`: so exactly 9.95 units, where each one-decimal band
/// ends, is written `9.9` and stays within four characters.
pub open spec fn tenths_text(n: nat, unit: nat, suffix: Seq<char>) -> Seq<char> {
    let t = round_half_down(n, unit / 10);
    decimal(t / 10) + seq!['.', digit_char(t % 10)] + suffix
}

/// What is written for sizes from [`HUGE_FROM`] on.
pub open spec fn huge_text() -> Seq<char> {
    seq!['h', 'u', 'g', 'e']
}

/// The text for `size`, band by band.
pub open spec fn fit_4_text(size: nat) -> Seq<char> {
    if size <= 9_999 {
        decimal(size)
    } else if size <= 999_499 {
        whole_text(size, 1_000, seq!['K'])
    } else if size <= 9_950_000 {
        tenths_text(size, 1_000_000, seq!['M'])
    } else if size <= 999_499_999 {
        whole_text(size, 1_000_000, seq!['M'])
    } else if size <= 9_950_000_000 {
        tenths_text(size, 1_000_000_000, seq!['G'])
    } else if size <= 999_499_999_999 {
        whole_text(size, 1_000_000_000, seq!['G'])
    } else if size <= 9_950_000_000_000 {
        tenths_text(size, 1_000_000_000_000, seq!['T'])
    } else if size <= 999_499_999_999_999 {
        whole_text(size, 1_000_000_000_000, seq!['T'])
    } else if size <= 9_950_000_000_000_000 {
        tenths_text(size, 1_000_000_000_000_000, seq!['P'])
    } else if size < HUGE_FROM {
        whole_text(size, 1_000_000_000_000_000, seq!['P'])
    } else {
        huge_text()
    }
}

fn whole(n: u64, unit: u64, suffix: &str) -> (r: String)
    requires
        2 <= unit <= 1_000_000_000_000_000_000,
    ensures
        r@ == whole_text(n as nat, unit as nat, suffix@),
{
    let mut out = String::new();
    push_decimal(&mut out, round_half_even_exec(n, unit));
    out.append(suffix);
    assert(out@ =~= whole_text(n as nat, unit as nat, suffix@));
    out
}

fn tenths(n: u64, unit: u64, suffix: &str) -> (r: String)
    requires
        20 <= unit <= 1_000_000_000_000_000_000,
    ensures
        r@ == tenths_text(n as nat, unit as nat, suffix@),
{
    let t = round_half_down_exec(n, unit / 10);
    let mut out = String::new();
    push_decimal(&mut out, t / 10);
    proof {
        reveal_strlit(".");
    }
    out.append(".");
    out.append(digit_str(t % 10));
    out.append(suffix);
    assert(out@ =~= tenths_text(n as nat, unit as nat, suffix@));
    out
}

/// The most precise writing of `size` bytes in at most four characters:
/// plain digits up to 9999, then whole or one-decimal counts of
/// K (10^3), M (10^6), G (10^9), T (10^12) or P (10^15) bytes, and `huge`
/// for sizes from [`HUGE_FROM`] on. Whole counts take an exact half to the
/// even neighbour; one-decimal counts take it down.
pub fn fit_4(size: u64) -> (r: String)
    ensures
        r@ == fit_4_text(size as nat),
{
    proof {
        reveal_strlit("K");
        reveal_strlit("M");
        reveal_strlit("G");
        reveal_strlit("T");
        reveal_strlit("P");
        reveal_strlit("huge");
    }
    if size <= 9_999 {
        let mut out = String::new();
        push_decimal(&mut out, size);
        assert(out@ =~= decimal(size as nat));
        out
    } else if size <= 999_499 {
        whole(size, 1_000, "K")
    } else if size <= 9_950_000 {
        tenths(size, 1_000_000, "M")
    } else if size <= 999_499_999 {
        whole(size, 1_000_000, "M")
    } else if size <= 9_950_000_000 {
        tenths(size, 1_000_000_000, "G")
    } else if size <= 999_499_999_999 {
        whole(size, 1_000_000_000, "G")
    } else if size <= 9_950_000_000_000 {
        tenths(size, 1_000_000_000_000, "T")
    } else if size <= 999_499_999_999_999 {
        whole(size, 1_000_000_000_000, "T")
    } else if size <= 9_950_000_000_000_000 {
        tenths(size, 1_000_000_000_000_000, "P")
    } else if size < HUGE_FROM {
        whole(size, 1_000_000_000_000_000, "P")
    } else {
        String::from_str("huge")
    }
}

} // verus!
