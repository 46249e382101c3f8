//! Levels earned from experience points: each level needs 30 XP more than
//! the one before, starting from 120.

use vstd::prelude::*;

verus! {

/// `level - 1`, or 0 for level 0.
pub open spec fn levels_before(level: nat) -> nat {
    if level >= 1 { (level - 1) as nat } else { 0 }
}

/// XP needed to go from `level` to the next one.
pub open spec fn xp_required(level: nat) -> nat {
    120 + 30 * levels_before(level)
}

/// XP needed in total to reach `level` from level 1.
pub open spec fn xp_before(level: nat) -> nat
    decreases level,
{
    if level <= 1 {
        0
    } else {
        xp_before((level - 1) as nat) + xp_required((level - 1) as nat)
    }
}

/// `level` is the level reached with `total_xp` points.
pub open spec fn is_level_of(total_xp: nat, level: nat) -> bool {
    &&& level >= 1
    &&& xp_before(level) <= total_xp
    &&& total_xp < xp_before(level) + xp_required(level)
}

/// XP needed to go from `level` to the next level.
pub fn xp_required_for_next_level(level: u32) -> (r: u32)
    requires
        30 * levels_before(level as nat) <= u32::MAX - 120,
    ensures
        r == xp_required(level as nat),
{
    let base: u32 = 120;
    let growth_per_level: u32 = 30;
    let steps = level.saturating_sub(1);
    let growth: u32 = if steps <= u32::MAX / growth_per_level {
        growth_per_level * steps
    } else {
        u32::MAX
    };
    base + growth
}

proof fn lemma_xp_before_lower_bound(level: nat)
    requires
        level >= 1,
    ensures
        xp_before(level) >= 120 * (level - 1),
    decreases level,
{
    if level > 1 {
        lemma_xp_before_lower_bound((level - 1) as nat);
    }
}

proof fn lemma_xp_before_monotone(a: nat, b: nat)
    requires
        1 <= a <= b,
    ensures
        xp_before(a) + (if a < b { xp_required(a) } else { 0 }) <= xp_before(b),
    decreases b,
{
    if a < b {
        if a < (b - 1) as nat {
            lemma_xp_before_monotone(a, (b - 1) as nat);
        }
    }
}

/// The level reached with `total_xp`, the XP gathered inside that level, the
/// XP that level needs, and the XP still missing to the next level.
pub fn level_progress_from_xp(total_xp: u32) -> (r: (u32, u32, u32, u32))
    ensures
        is_level_of(total_xp as nat, r.0 as nat),
        r.1 == total_xp - xp_before(r.0 as nat),
        r.2 == xp_required(r.0 as nat),
        r.3 == r.2 - r.1,
{
    let mut level: u32 = 1;
    let mut remaining_xp = total_xp;
    loop
        invariant
            level >= 1,
            xp_before(level as nat) <= total_xp,
            remaining_xp == total_xp - xp_before(level as nat),
        decreases remaining_xp,
    {
        proof {
            lemma_xp_before_lower_bound(level as nat);
            assert(120 * (level - 1) <= u32::MAX);
        }
        let required = xp_required_for_next_level(level);
        if remaining_xp < required {
            let xp_in_current_level = remaining_xp;
            let xp_to_next_level = required - remaining_xp;
            return (level, xp_in_current_level, required, xp_to_next_level);
        }
        remaining_xp -= required;
        level = level.saturating_add(1);
        proof {
            lemma_xp_before_lower_bound(level as nat);
        }
    }
}

/// Every amount of XP belongs to exactly one level.
pub proof fn law_level_is_unique(total_xp: nat, a: nat, b: nat)
    requires
        is_level_of(total_xp, a),
        is_level_of(total_xp, b),
    ensures
        a == b,
{
    if a < b {
        lemma_xp_before_monotone(a, b);
    } else if b < a {
        lemma_xp_before_monotone(b, a);
    }
}

/// More XP never means a lower level.
pub proof fn law_level_monotone(x: nat, y: nat, a: nat, b: nat)
    requires
        x <= y,
        is_level_of(x, a),
        is_level_of(y, b),
    ensures
        a <= b,
{
    if b < a {
        lemma_xp_before_monotone(b, a);
    }
}

} // verus!
