//! The **engine-reserved ability parameter names** — the handful of `Params`
//! entries the engine reads generically, by name.
//!
//! Everything else in `Params` is a mod's own vocabulary the engine never looks
//! at. These four are different: the cast pipeline needs a cooldown to start, a
//! range to validate an aim against, and (for an aimed area or cone) the size of
//! the shape the client draws and the server resolves. Naming them here — in the
//! ABI both sides compile against — is what makes a mod's `"range"` land on the
//! id the engine reads.
//!
//! **The order of [`RESERVED`] is the id order.** The engine seeds its global
//! param interner with these names before any mod interns above them, so
//! `RESERVED[i]` is `ParamId(i)`. Inserting or reordering a name silently
//! re-points every already-authored mod's parameters — append only.

use vstd::prelude::*;

use crate::names::position_of;

verus! {

/// Seconds before the slot the ability was cast from can be cast again.
pub const COOLDOWN: &'static str = "cooldown";

/// Maximum distance from the caster an aim may be, in world units. An ability
/// that declares no `range` is unrestricted.
pub const RANGE: &'static str = "range";

/// Radius of an aimed area, in world units — the ground circle a `Point` aim
/// centres. Meaningless (and ignored) for a mode with no area.
pub const RADIUS: &'static str = "radius";

/// Half-angle of an aimed cone, in radians — how wide a `Vector` aim opens.
/// Meaningless (and ignored) for a mode that is not a cone.
pub const SPREAD: &'static str = "spread";

/// Every reserved param name **in id order**: `RESERVED[i]` is `ParamId(i)`.
pub const RESERVED: [&'static str; 4] = [COOLDOWN, RANGE, RADIUS, SPREAD];

/// The reserved names, in id order.
pub open spec fn reserved_names() -> Seq<Seq<char>> {
    seq!["cooldown"@, "range"@, "radius"@, "spread"@]
}

/// The reserved id `name` occupies, or `None` when it is a mod's own parameter.
/// The engine interns [`RESERVED`] in order, so this index *is* the `ParamId`.
pub fn reserved_index(name: &str) -> (r: Option<usize>)
    ensures
        r == position_of(reserved_names(), name@),
{
    let names: [&'static str; 4] = RESERVED;
    let slice = names.as_slice();
    proof {
        assert(slice@.map_values(|s: &str| s@) =~= reserved_names());
    }
    crate::names::find_name(slice, name)
}

} // verus!
