//! The **engine-reserved stat names** — the handful of aggregated unit stats the
//! engine reads generically, by name.
//!
//! Everything else a mod interns as a stat is its own vocabulary, and the engine
//! only ever adds it up. These are different: movement reads a speed, damage
//! mitigation reads a flat and a percent input, combat reads an attack speed, a
//! reach, a damage and a target priority. Naming them here — in the ABI both
//! sides compile against — is what makes a mod's `"armor"` land on the id the
//! engine mitigates with, and what lets a cosmetic mod's HUD bind to the same
//! stat by name.
//!
//! **The order of [`RESERVED`] is the id order.** The engine seeds its global stat
//! interner with these names before any mod interns above them, so `RESERVED[i]` is
//! `StatId(i)`. Inserting or reordering a name silently re-points every
//! already-authored mod's stats — append only.

use vstd::prelude::*;

use crate::names::position_of;

verus! {

/// How fast a unit moves, in world units per second — read by the movement phase.
pub const MOVE_SPEED: &'static str = "move_speed";

/// Flat mitigation input with diminishing returns (armor-like).
pub const ARMOR: &'static str = "armor";

/// Percent mitigation input (resist-like), a fraction in `[0, 1]`.
pub const RESIST: &'static str = "resist";

/// How fast a unit swings, as a **multiplier** on its declared attack period —
/// `1.0` is the period exactly as authored, `2.0` is twice as many swings a
/// second.
pub const ATTACK_SPEED: &'static str = "attack_speed";

/// How far a unit can reach with its basic attack, in world units. Overrides the
/// range its attack descriptor declares.
pub const ATTACK_RANGE: &'static str = "attack_range";

/// The damage a unit's basic attack carries. Reserved so a mod's payload and a
/// cosmetic mod's HUD agree on the spelling of the number they both show.
pub const ATTACK_DAMAGE: &'static str = "attack_damage";

/// How much a unit wants to be attacked when something is choosing between
/// several — highest first, before distance decides. A unit that declares none
/// reads as zero.
pub const TARGET_PRIORITY: &'static str = "target_priority";

/// Every reserved stat name **in id order**: `RESERVED[i]` is `StatId(i)`.
pub const RESERVED: [&'static str; 7] =
    [MOVE_SPEED, ARMOR, RESIST, ATTACK_SPEED, ATTACK_RANGE, ATTACK_DAMAGE, TARGET_PRIORITY];

/// The reserved names, in id order.
pub open spec fn reserved_names() -> Seq<Seq<char>> {
    seq![
        "move_speed"@,
        "armor"@,
        "resist"@,
        "attack_speed"@,
        "attack_range"@,
        "attack_damage"@,
        "target_priority"@,
    ]
}

/// The reserved id `name` occupies, or `None` when it is a mod's own stat. The
/// engine interns [`RESERVED`] in order, so this index *is* the `StatId`.
pub fn reserved_index(name: &str) -> (r: Option<usize>)
    ensures
        r == position_of(reserved_names(), name@),
{
    let names: [&'static str; 7] = RESERVED;
    let slice = names.as_slice();
    proof {
        assert(slice@.map_values(|s: &str| s@) =~= reserved_names());
    }
    crate::names::find_name(slice, name)
}

} // verus!
