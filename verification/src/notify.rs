//! Animation notifies — moments inside a clip where something cosmetic happens
//! (an effect spawns at a bone) or a mod-defined event fires.

use vstd::prelude::*;

use crate::animation::BonePath;
use crate::ids::EventId;
use crate::scalar::Scalar;

verus! {

/// When inside a clip a notify fires: a fraction of the clip's length, or an
/// absolute time from its start.
#[derive(Clone, Copy, PartialEq, Debug)]
pub enum NotifyTime {
    /// A fraction of the clip, in `[0, 1]`.
    Normalized(Scalar),
    /// Seconds from the clip's start.
    Seconds(Scalar),
}

/// Whether a notify time can ever be reached: a finite fraction in `[0, 1]`,
/// or a finite, non-negative number of seconds.
pub open spec fn reachable(t: NotifyTime) -> bool {
    match t {
        NotifyTime::Normalized(f) => f.spec_is_finite() && Scalar::zero_spec().spec_le(f)
            && f.spec_le(Scalar { bits: 0x3f80_0000 }),
        NotifyTime::Seconds(s) => s.spec_is_finite() && Scalar::zero_spec().spec_le(s),
    }
}

impl NotifyTime {
    /// Whether this time can ever be reached by a playing clip.
    pub fn is_reachable(self) -> (r: bool)
        ensures
            r == reachable(self),
    {
        match self {
            NotifyTime::Normalized(f) => f.is_finite() && Scalar::zero().le(f) && f.le(Scalar::from_bits(0x3f80_0000)),
            NotifyTime::Seconds(s) => s.is_finite() && Scalar::zero().le(s),
        }
    }
}

/// Where a notify's effect attaches: the character's root, or a bone with an
/// offset.
#[derive(Clone, PartialEq, Debug)]
pub enum NotifyAttach {
    Root,
    Socket { bone: BonePath, offset: [Scalar; 3] },
}

/// What a notify does when it fires.
#[derive(Clone, PartialEq, Debug)]
pub enum NotifyAction {
    /// Spawn a cosmetic effect, named by key, for `lifetime` seconds.
    Effect { key: String, attach: NotifyAttach, lifetime: Scalar },
    /// Fire a mod-defined event.
    Trigger { event: EventId },
}

/// One notify: when, and what.
#[derive(Clone, PartialEq, Debug)]
pub struct NotifyPoint {
    pub at: NotifyTime,
    pub action: NotifyAction,
}

impl NotifyAction {
    /// Whether every number in the action is finite.
    pub fn is_finite(&self) -> (r: bool)
        ensures
            r == (match *self {
                NotifyAction::Effect { lifetime, .. } => lifetime.spec_is_finite(),
                NotifyAction::Trigger { .. } => true,
            }),
    {
        match self {
            NotifyAction::Effect { lifetime, .. } => lifetime.is_finite(),
            NotifyAction::Trigger { .. } => true,
        }
    }
}

} // verus!
