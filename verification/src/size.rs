//! Human-readable size formatting.
//!
//! A byte count is repeatedly divided by 1024, advancing through the units
//! B, KB, MB, GB, TB, PB, until the value drops below 1024 or the largest
//! unit is reached. The value is kept exactly, as an integer part and a
//! truncated two-decimal fraction, instead of a float.

use vstd::prelude::*;
use vstd::arithmetic::div_mod::lemma_div_denominator;

verus! {

/// 1024 to the `k`.
pub open spec fn pow1024(k: nat) -> nat
    decreases k,
{
    if k == 0 {
        1
    } else {
        1024 * pow1024((k - 1) as nat)
    }
}

pub proof fn lemma_pow1024_pos(k: nat)
    ensures
        pow1024(k) >= 1,
    decreases k,
{
    if k > 0 {
        lemma_pow1024_pos((k - 1) as nat);
    }
}

/// How many times `b` can be divided by 1024 before dropping below 1024,
/// with no cap.
pub open spec fn raw_unit_index(b: nat) -> nat
    decreases b,
{
    if b < 1024 {
        0
    } else {
        1 + raw_unit_index(b / 1024)
    }
}

/// The unit chosen for `b`: divisions by 1024 performed, capped at PB.
pub open spec fn unit_index(b: nat) -> nat {
    if raw_unit_index(b) < 5 {
        raw_unit_index(b)
    } else {
        5
    }
}

/// Integer part of the humanized value of `b`.
pub open spec fn size_whole(b: nat) -> nat {
    b / pow1024(unit_index(b))
}

/// First two decimals of the humanized value of `b`, truncated.
pub open spec fn size_hundredths(b: nat) -> nat {
    (b % pow1024(unit_index(b))) * 100 / pow1024(unit_index(b))
}

/// The ordered units of magnitude for byte counts.
#[derive(Clone, Copy, PartialEq, Eq, Structural, Debug)]
pub enum SizeUnit {
    B,
    KB,
    MB,
    GB,
    TB,
    PB,
}

/// Position of a unit in the ordered sequence of units.
pub open spec fn index_of_unit(u: SizeUnit) -> nat {
    match u {
        SizeUnit::B => 0,
        SizeUnit::KB => 1,
        SizeUnit::MB => 2,
        SizeUnit::GB => 3,
        SizeUnit::TB => 4,
        SizeUnit::PB => 5,
    }
}

/// The unit at a given position.
pub open spec fn unit_at(k: nat) -> SizeUnit {
    if k == 0 {
        SizeUnit::B
    } else if k == 1 {
        SizeUnit::KB
    } else if k == 2 {
        SizeUnit::MB
    } else if k == 3 {
        SizeUnit::GB
    } else if k == 4 {
        SizeUnit::TB
    } else {
        SizeUnit::PB
    }
}

impl SizeUnit {
    /// The unit's display label.
    pub open spec fn label(self) -> Seq<char> {
        match self {
            SizeUnit::B => "B"@,
            SizeUnit::KB => "KB"@,
            SizeUnit::MB => "MB"@,
            SizeUnit::GB => "GB"@,
            SizeUnit::TB => "TB"@,
            SizeUnit::PB => "PB"@,
        }
    }

    /// The unit's display label, executable form.
    pub fn text(self) -> (r: &'static str)
        ensures
            r@ == self.label(),
    {
        match self {
            SizeUnit::B => "B",
            SizeUnit::KB => "KB",
            SizeUnit::MB => "MB",
            SizeUnit::GB => "GB",
            SizeUnit::TB => "TB",
            SizeUnit::PB => "PB",
        }
    }
}

/// A byte count made human-readable: `whole.hundredths unit`, with the
/// fraction truncated to two decimals.
pub struct HumanSize {
    pub whole: u64,
    pub hundredths: u64,
    pub unit: SizeUnit,
}

/// 1024 to the `k`, executable form.
pub fn pow1024_exec(k: usize) -> (r: u64)
    requires
        k <= 5,
    ensures
        r == pow1024(k as nat),
        r >= 1,
        r <= 1125899906842624,
{
    proof {
        reveal_with_fuel(pow1024, 6);
    }
    if k == 0 {
        1
    } else if k == 1 {
        1024
    } else if k == 2 {
        1048576
    } else if k == 3 {
        1073741824
    } else if k == 4 {
        1099511627776
    } else {
        1125899906842624
    }
}

/// Formats a byte count as a value below 1024 (except for PB) and a unit.
///
/// The value is exact: `whole` is the byte count divided by 1024 raised to
/// the unit's index, and `hundredths` the first two decimals of the
/// remainder, truncated.
pub fn human_readable_size(size: u64) -> (h: HumanSize)
    ensures
        index_of_unit(h.unit) == unit_index(size as nat),
        h.unit == unit_at(unit_index(size as nat)),
        h.whole == size_whole(size as nat),
        h.hundredths == size_hundredths(size as nat),
        h.hundredths < 100,
        h.unit != SizeUnit::PB ==> h.whole < 1024,
{
    let mut v = size;
    let mut k: usize = 0;
    proof {
        assert(pow1024(0) == 1);
    }
    while v >= 1024 && k < 5
        invariant
            k <= 5,
            v == size as nat / pow1024(k as nat),
            raw_unit_index(size as nat) == k + raw_unit_index(v as nat),
        decreases 5 - k,
    {
        proof {
            lemma_pow1024_pos(k as nat);
            lemma_div_denominator(size as int, pow1024(k as nat) as int, 1024);
            assert(pow1024((k + 1) as nat) == pow1024(k as nat) * 1024) by (nonlinear_arith)
                requires
                    pow1024((k + 1) as nat) == 1024 * pow1024(k as nat),
            ;
        }
        v = v / 1024;
        k = k + 1;
    }
    proof {
        if v < 1024 {
            assert(raw_unit_index(v as nat) == 0);
            assert(raw_unit_index(size as nat) == k);
        } else {
            assert(k == 5);
            assert(raw_unit_index(size as nat) >= 5);
        }
        assert(k == unit_index(size as nat));
    }
    let p = pow1024_exec(k);
    let rem = size % p;
    proof {
        assert(rem < p);
        assert((rem as int) * 100 <= ((p - 1) as int) * 100) by (nonlinear_arith)
            requires
                rem <= p - 1,
        ;
        assert(((p - 1) as int) * 100 <= u64::MAX) by (nonlinear_arith)
            requires
                p <= 1125899906842624u64,
        ;
        assert((rem as int) * 100 / (p as int) < 100) by (nonlinear_arith)
            requires
                rem < p,
                p >= 1,
        ;
    }
    let hundredths = rem * 100 / p;
    let unit = if k == 0 {
        SizeUnit::B
    } else if k == 1 {
        SizeUnit::KB
    } else if k == 2 {
        SizeUnit::MB
    } else if k == 3 {
        SizeUnit::GB
    } else if k == 4 {
        SizeUnit::TB
    } else {
        SizeUnit::PB
    };
    HumanSize { whole: v, hundredths, unit }
}

/// Below the chosen unit every unit leaves the value at or above 1024, and
/// the chosen unit brings it below 1024 unless it is the largest: the unit
/// is the first that fits, and the value shown is always in `[0, 1024)`
/// except possibly for PB.
pub proof fn lemma_unit_is_first_that_fits(b: nat)
    ensures
        unit_index(b) <= 5,
        unit_index(b) < 5 ==> b / pow1024(unit_index(b)) < 1024,
        forall|k: nat| k < unit_index(b) ==> #[trigger] (b / pow1024(k)) >= 1024,
{
    if raw_unit_index(b) < 5 {
        lemma_value_small_at_raw_index(b);
    }
    assert forall|k: nat| k < unit_index(b) implies #[trigger] (b / pow1024(k)) >= 1024 by {
        lemma_value_large_below_index(b, k);
    }
}

proof fn lemma_value_small_at_raw_index(b: nat)
    ensures
        b / pow1024(raw_unit_index(b)) < 1024,
    decreases b,
{
    if b < 1024 {
        assert(pow1024(0) == 1);
    } else {
        lemma_value_small_at_raw_index(b / 1024);
        let r = raw_unit_index(b / 1024);
        lemma_pow1024_pos(r);
        lemma_div_denominator(b as int, 1024, pow1024(r) as int);
        assert(pow1024(r + 1) == 1024 * pow1024(r));
    }
}

proof fn lemma_value_large_below_index(b: nat, k: nat)
    requires
        k < raw_unit_index(b),
    ensures
        b / pow1024(k) >= 1024,
    decreases b,
{
    if k == 0 {
        assert(b >= 1024);
        assert(pow1024(0) == 1);
    } else {
        assert(b >= 1024);
        lemma_value_large_below_index(b / 1024, (k - 1) as nat);
        lemma_pow1024_pos((k - 1) as nat);
        lemma_div_denominator(b as int, 1024, pow1024((k - 1) as nat) as int);
        assert(pow1024(k) == 1024 * pow1024((k - 1) as nat));
    }
}

} // verus!

