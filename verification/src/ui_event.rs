//! Occurrences a HUD can be spawned by, and how their quantities are read.

use vstd::prelude::*;

verus! {

/// Something that happened to a unit which a UI root can pop up for.
#[derive(Clone, Copy, PartialEq, Eq, Structural, Debug)]
pub enum UiEvent {
    Damaged,
    Healed,
}

impl Default for UiEvent {
    fn default() -> (r: Self)
        ensures
            r == UiEvent::Damaged,
    {
        UiEvent::Damaged
    }
}

/// How repeated occurrences share one spawned root.
#[derive(Clone, Copy, PartialEq, Eq, Structural, Debug)]
pub enum Coalesce {
    /// Every occurrence spawns its own root.
    Never,
    /// Occurrences from one cause share a root.
    PerCause,
    /// Occurrences on one unit share a root.
    PerUnit,
}

impl Default for Coalesce {
    fn default() -> (r: Self)
        ensures
            r == Coalesce::PerCause,
    {
        Coalesce::PerCause
    }
}

/// Which number of an occurrence a bound value reads.
#[derive(Clone, Copy, PartialEq, Eq, Structural, Debug)]
pub enum EventQuantity {
    Latest,
    Total,
    Hits,
    Absorbed,
    Toll,
}

impl Default for EventQuantity {
    fn default() -> (r: Self)
        ensures
            r == EventQuantity::Latest,
    {
        EventQuantity::Latest
    }
}

} // verus!
