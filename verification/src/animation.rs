//! The animation ABI — what a cosmetic mod declares so the engine can animate a
//! character it knows nothing about.
//!
//! A character is a set of layers, each with its own bone mask, blend mode and
//! weight, each running a small state machine over declared [`AnimState`]s. The
//! engine maps game state to a semantic state; the mod maps that state to a
//! clip. Bone masks are declared once, as descriptor-level [`MaskGroup`]s that
//! layers reference by index, because the runtime carries a layer's mask as a
//! fixed-width bit set — hence [`MAX_MASK_GROUPS`].

use vstd::prelude::*;

use crate::ids::{AnimStateId, UnitId};
use crate::scalar::Scalar;
use crate::text::{decimal, decimal_string, owned, push_str};

verus! {

/// How many [`MaskGroup`]s one character may declare: a 64-bit set with the
/// last bit reserved for the complement of the declared groups.
pub const MAX_MASK_GROUPS: usize = 63;

/// A bone, addressed by its name path from the animated root.
pub type BonePath = Vec<String>;

/// One clip inside a mod's animation container: `asset` is the container (a
/// `mod://<id>/<path>` URL), `clip` the animation's name inside it.
#[derive(Clone, PartialEq, Eq, Debug)]
pub struct ClipRef {
    pub asset: String,
    pub clip: String,
}

/// What a character is doing, as the animation system sees it. The generic
/// states are the ones the engine can drive on its own; `Custom` is a state a
/// mod defines and its own code triggers.
#[derive(Clone, Copy, PartialEq, Eq, Structural, PartialOrd, Ord, Hash, Debug)]
pub enum AnimState {
    Idle,
    Walk,
    Run,
    Cast,
    Channel,
    Hit,
    Death,
    Custom(AnimStateId),
}

/// A named set of bones a layer can be restricted to. With `descendants`, each
/// listed bone brings everything beneath it into the group.
#[derive(Clone, PartialEq, Eq, Debug)]
pub struct MaskGroup {
    /// Author-facing name, for diagnostics.
    pub name: String,
    /// The bones in the group.
    pub bones: Vec<BonePath>,
    /// Whether each listed bone brings everything beneath it into the group.
    pub descendants: bool,
}

/// Which bones a layer drives, in terms of the declared [`MaskGroup`]s.
#[derive(Clone, PartialEq, Eq, Debug)]
pub enum BoneMask {
    /// The whole skeleton — no mask at all.
    Whole,
    /// Only the listed groups.
    Only(Vec<u16>),
    /// Everything except the listed groups.
    Except(Vec<u16>),
}

/// The group indices a mask names (none for `Whole`).
pub open spec fn mask_groups_of(mask: BoneMask) -> Seq<u16> {
    match mask {
        BoneMask::Whole => Seq::empty(),
        BoneMask::Only(g) => g@,
        BoneMask::Except(g) => g@,
    }
}

impl BoneMask {
    /// The group indices this mask names (empty for `Whole`).
    pub fn groups(&self) -> (r: &[u16])
        ensures
            r@ == mask_groups_of(*self),
    {
        match self {
            BoneMask::Whole => &[],
            BoneMask::Only(g) => g.as_slice(),
            BoneMask::Except(g) => g.as_slice(),
        }
    }
}

/// How a layer composites over the layers beneath it.
#[derive(Clone, Copy, PartialEq, Eq, Structural, Debug)]
pub enum BlendMode {
    /// Replaces the pose of the bones it drives.
    Override,
    /// Adds its pose on top.
    Additive,
}

/// How fast a clip plays.
#[derive(Clone, Copy, PartialEq, Debug)]
pub enum RateBinding {
    /// A constant multiple of the clip's authored rate.
    Fixed(Scalar),
    /// Scaled by movement, against the speed the cycle was authored for.
    MoveSpeed { reference_speed: Scalar },
    /// Time-scaled to the cast or channel currently running.
    CastDuration,
}

/// Whether every number in a rate binding is finite.
pub open spec fn rate_finite(rate: RateBinding) -> bool {
    match rate {
        RateBinding::Fixed(v) => v.spec_is_finite(),
        RateBinding::MoveSpeed { reference_speed } => reference_speed.spec_is_finite(),
        RateBinding::CastDuration => true,
    }
}

impl RateBinding {
    /// Whether every number in the binding is finite.
    pub fn is_finite(&self) -> (r: bool)
        ensures
            r == rate_finite(*self),
    {
        match self {
            RateBinding::Fixed(v) => v.is_finite(),
            RateBinding::MoveSpeed { reference_speed } => reference_speed.is_finite(),
            RateBinding::CastDuration => true,
        }
    }
}

/// What one [`AnimState`] plays on one layer, and how it enters and leaves.
#[derive(Clone, PartialEq, Debug)]
pub struct StateClip {
    /// The state this binding answers for; at most one binding per state per
    /// layer.
    pub state: AnimState,
    /// The clip to play in that state.
    pub clip: ClipRef,
    /// Whether the clip repeats or plays once.
    pub looping: bool,
    /// Seconds to fade in when this state takes the layer.
    pub blend_in: Scalar,
    /// Seconds to fade out when it loses the layer.
    pub blend_out: Scalar,
    /// How fast it plays.
    pub rate: RateBinding,
    /// Which binding takes the layer when two states claim it — higher wins,
    /// ties by declaration order.
    pub priority: i16,
}

/// A per-pair override of the blend time between two of a layer's states.
#[derive(Clone, Copy, PartialEq, Debug)]
pub struct Transition {
    /// The state being left; declared on the same layer.
    pub from: AnimState,
    /// The state being entered; declared on the same layer.
    pub to: AnimState,
    /// Seconds to blend across, replacing `to`'s own `blend_in` for this pair.
    pub blend_in: Scalar,
}

/// One layer of a character's animation: a masked, weighted state machine. A
/// later override layer owns the bones it drives; additive layers ride on top
/// of the whole override stack in declaration order.
#[derive(Clone, PartialEq, Debug)]
pub struct AnimLayer {
    /// Author-facing name, for diagnostics.
    pub name: String,
    /// Which bones this layer drives.
    pub mask: BoneMask,
    /// How it composites over the layers beneath it.
    pub blend: BlendMode,
    /// Its base weight — the ceiling a state's blend-in fades up to.
    pub weight: Scalar,
    /// The states it can play, one binding each.
    pub states: Vec<StateClip>,
    /// Per-pair blend-time overrides between those states.
    pub transitions: Vec<Transition>,
}

/// Everything a cosmetic mod says about how one unit animates, keyed by the
/// unit's interned handle.
#[derive(Clone, PartialEq, Debug)]
pub struct AnimationDescriptor {
    /// The unit this animation is for.
    pub unit: UnitId,
    /// The bone groups its layers may mask against, referenced by index.
    pub mask_groups: Vec<MaskGroup>,
    /// Its layers, in composite order.
    pub layers: Vec<AnimLayer>,
}

/// Why an [`AnimationDescriptor`] cannot be animated as declared. Indices point
/// at the layer, state binding, or mask group at fault.
#[derive(Clone, PartialEq, Eq, Structural, Debug)]
pub enum AnimationError {
    /// No layers at all: nothing to play.
    NoLayers,
    /// A layer binds no states.
    EmptyLayer { layer: u16 },
    /// A layer binds the same state twice.
    DuplicateState { layer: u16, state: AnimState },
    /// A transition names a state its layer never declared.
    UnknownTransitionState { layer: u16, state: AnimState },
    /// A layer's mask names a group index past the declared groups.
    UnknownMaskGroup { layer: u16, group: u16 },
    /// More mask groups than the runtime's bitset can address.
    TooManyMaskGroups { found: usize },
    /// A mask group with no bones, or a bone with an empty name path.
    EmptyMaskGroup { group: u16 },
    /// A clip with an empty container path or an empty clip name.
    EmptyClipRef { layer: u16, state: u16 },
    /// A non-finite weight, blend duration, or playback rate on a layer.
    NonFinite { layer: u16 },
}

/// A bone path that names a bone: at least one segment, none of them empty.
pub open spec fn bone_named(path: Seq<String>) -> bool {
    path.len() > 0 && forall|k: int| 0 <= k < path.len() ==> (#[trigger] path[k])@.len() > 0
}

/// A mask group that names bones: at least one, each of them named.
pub open spec fn group_named(group: MaskGroup) -> bool {
    group.bones@.len() > 0 && forall|b: int| 0 <= b < group.bones@.len() ==> bone_named((#[trigger] group.bones@[b])@)
}

/// The first unnamed mask group from `g` on.
pub open spec fn groups_from(groups: Seq<MaskGroup>, g: int) -> Result<(), AnimationError>
    decreases groups.len() - g,
{
    if g < 0 || g >= groups.len() {
        Ok(())
    } else if !group_named(groups[g]) {
        Err(AnimationError::EmptyMaskGroup { group: g as u16 })
    } else {
        groups_from(groups, g + 1)
    }
}

/// The first group index from `i` on of a layer's mask that names no declared
/// group.
pub open spec fn mask_from(mask: Seq<u16>, i: int, declared: int, layer: u16) -> Result<(), AnimationError>
    decreases mask.len() - i,
{
    if i < 0 || i >= mask.len() {
        Ok(())
    } else if mask[i] >= declared {
        Err(AnimationError::UnknownMaskGroup { layer, group: mask[i] })
    } else {
        mask_from(mask, i + 1, declared, layer)
    }
}

/// Whether a state binding holds a non-finite number.
pub open spec fn binding_finite(b: StateClip) -> bool {
    b.blend_in.spec_is_finite() && b.blend_out.spec_is_finite() && rate_finite(b.rate)
}

/// Whether `state` is bound among `states`.
pub open spec fn declares(states: Seq<StateClip>, state: AnimState) -> bool {
    exists|k: int| 0 <= k < states.len() && (#[trigger] states[k]).state == state
}

/// The first faulty state binding from `s` on: an empty clip, then a
/// non-finite number, then a state already bound earlier in the layer.
pub open spec fn states_from(states: Seq<StateClip>, s: int, layer: u16) -> Result<(), AnimationError>
    decreases states.len() - s,
{
    if s < 0 || s >= states.len() {
        Ok(())
    } else if states[s].clip.asset@.len() == 0 || states[s].clip.clip@.len() == 0 {
        Err(AnimationError::EmptyClipRef { layer, state: s as u16 })
    } else if !binding_finite(states[s]) {
        Err(AnimationError::NonFinite { layer })
    } else if declares(states.take(s), states[s].state) {
        Err(AnimationError::DuplicateState { layer, state: states[s].state })
    } else {
        states_from(states, s + 1, layer)
    }
}

/// The first faulty transition from `t` on: a non-finite blend, then an
/// undeclared `from`, then an undeclared `to`.
pub open spec fn transitions_from(trs: Seq<Transition>, t: int, states: Seq<StateClip>, layer: u16) -> Result<(), AnimationError>
    decreases trs.len() - t,
{
    if t < 0 || t >= trs.len() {
        Ok(())
    } else if !trs[t].blend_in.spec_is_finite() {
        Err(AnimationError::NonFinite { layer })
    } else if !declares(states, trs[t].from) {
        Err(AnimationError::UnknownTransitionState { layer, state: trs[t].from })
    } else if !declares(states, trs[t].to) {
        Err(AnimationError::UnknownTransitionState { layer, state: trs[t].to })
    } else {
        transitions_from(trs, t + 1, states, layer)
    }
}

/// The verdict on one layer at position `index`, against `declared` groups:
/// no states, a non-finite weight, an unknown mask group, a faulty binding, a
/// faulty transition — the first that applies.
pub open spec fn layer_check(layer: AnimLayer, index: u16, declared: int) -> Result<(), AnimationError> {
    if layer.states@.len() == 0 {
        Err(AnimationError::EmptyLayer { layer: index })
    } else if !layer.weight.spec_is_finite() {
        Err(AnimationError::NonFinite { layer: index })
    } else if mask_from(mask_groups_of(layer.mask), 0, declared, index) is Err {
        mask_from(mask_groups_of(layer.mask), 0, declared, index)
    } else if states_from(layer.states@, 0, index) is Err {
        states_from(layer.states@, 0, index)
    } else {
        transitions_from(layer.transitions@, 0, layer.states@, index)
    }
}

/// The first faulty layer from `l` on.
pub open spec fn layers_from(layers: Seq<AnimLayer>, l: int, declared: int) -> Result<(), AnimationError>
    decreases layers.len() - l,
{
    if l < 0 || l >= layers.len() {
        Ok(())
    } else if layer_check(layers[l], l as u16, declared) is Err {
        layer_check(layers[l], l as u16, declared)
    } else {
        layers_from(layers, l + 1, declared)
    }
}

/// The full structural verdict on an animation descriptor, checks in order:
/// the mask group count, each group's bones, at least one layer, then each
/// layer in turn.
pub open spec fn animation_check(d: AnimationDescriptor) -> Result<(), AnimationError> {
    if d.mask_groups@.len() > MAX_MASK_GROUPS {
        Err(AnimationError::TooManyMaskGroups { found: d.mask_groups@.len() as usize })
    } else if groups_from(d.mask_groups@, 0) is Err {
        groups_from(d.mask_groups@, 0)
    } else if d.layers@.len() == 0 {
        Err(AnimationError::NoLayers)
    } else {
        layers_from(d.layers@, 0, d.mask_groups@.len() as int)
    }
}

/// Whether a bone path names a bone.
fn check_bone(path: &BonePath) -> (r: bool)
    ensures
        r == bone_named(path@),
{
    if path.len() == 0 {
        return false;
    }
    let mut k: usize = 0;
    while k < path.len()
        invariant
            k <= path@.len(),
            forall|j: int| 0 <= j < k ==> (#[trigger] path@[j])@.len() > 0,
        decreases path@.len() - k,
    {
        if path[k].as_str().is_empty() {
            return false;
        }
        k = k + 1;
    }
    true
}

/// Whether a mask group names bones.
fn check_group(group: &MaskGroup) -> (r: bool)
    ensures
        r == group_named(*group),
{
    if group.bones.len() == 0 {
        return false;
    }
    let mut b: usize = 0;
    while b < group.bones.len()
        invariant
            b <= group.bones@.len(),
            forall|j: int| 0 <= j < b ==> bone_named((#[trigger] group.bones@[j])@),
        decreases group.bones@.len() - b,
    {
        if !check_bone(&group.bones[b]) {
            return false;
        }
        b = b + 1;
    }
    true
}

/// Whether `state` is bound among the first `upto` of `states`.
fn declared_before(states: &Vec<StateClip>, upto: usize, state: AnimState) -> (r: bool)
    requires
        upto <= states@.len(),
    ensures
        r == declares(states@.take(upto as int), state),
{
    let mut k: usize = 0;
    while k < upto
        invariant
            upto <= states@.len(),
            k <= upto,
            forall|j: int| 0 <= j < k ==> (#[trigger] states@[j]).state != state,
        decreases upto - k,
    {
        if states[k].state == state {
            assert(states@.take(upto as int)[k as int] == states@[k as int]);
            return true;
        }
        k = k + 1;
    }
    proof {
        assert forall|j: int| 0 <= j < upto implies (#[trigger] states@.take(upto as int)[j]).state != state by {
            assert(states@.take(upto as int)[j] == states@[j]);
        }
    }
    false
}

/// The verdict on one layer.
fn check_layer(layer: &AnimLayer, index: u16, declared: usize) -> (r: Result<(), AnimationError>)
    ensures
        r == layer_check(*layer, index, declared as int),
{
    let n = layer.states.len();
    if n == 0 {
        return Err(AnimationError::EmptyLayer { layer: index });
    }
    if !layer.weight.is_finite() {
        return Err(AnimationError::NonFinite { layer: index });
    }
    let groups = layer.mask.groups();
    let mut i: usize = 0;
    while i < groups.len()
        invariant
            i <= groups@.len(),
            groups@ == mask_groups_of(layer.mask),
            layer.states@.len() > 0,
            layer.weight.spec_is_finite(),
            mask_from(groups@, 0, declared as int, index) == mask_from(groups@, i as int, declared as int, index),
        decreases groups@.len() - i,
    {
        let group = groups[i];
        if group as usize >= declared {
            return Err(AnimationError::UnknownMaskGroup { layer: index, group });
        }
        i = i + 1;
    }
    let mut s: usize = 0;
    while s < n
        invariant
            n == layer.states@.len(),
            n > 0,
            layer.weight.spec_is_finite(),
            s <= n,
            mask_from(mask_groups_of(layer.mask), 0, declared as int, index) is Ok,
            states_from(layer.states@, 0, index) == states_from(layer.states@, s as int, index),
        decreases n - s,
    {
        let binding = &layer.states[s];
        if binding.clip.asset.as_str().is_empty() || binding.clip.clip.as_str().is_empty() {
            return Err(AnimationError::EmptyClipRef { layer: index, state: s as u16 });
        }
        if !binding.blend_in.is_finite() || !binding.blend_out.is_finite() || !binding.rate.is_finite() {
            return Err(AnimationError::NonFinite { layer: index });
        }
        if declared_before(&layer.states, s, binding.state) {
            return Err(AnimationError::DuplicateState { layer: index, state: binding.state });
        }
        s = s + 1;
    }
    let nt = layer.transitions.len();
    let mut t: usize = 0;
    while t < nt
        invariant
            n == layer.states@.len(),
            nt == layer.transitions@.len(),
            n > 0,
            layer.weight.spec_is_finite(),
            t <= nt,
            mask_from(mask_groups_of(layer.mask), 0, declared as int, index) is Ok,
            states_from(layer.states@, 0, index) is Ok,
            transitions_from(layer.transitions@, 0, layer.states@, index)
                == transitions_from(layer.transitions@, t as int, layer.states@, index),
        decreases nt - t,
    {
        let transition = layer.transitions[t];
        if !transition.blend_in.is_finite() {
            return Err(AnimationError::NonFinite { layer: index });
        }
        proof {
            assert(layer.states@.take(n as int) =~= layer.states@);
        }
        if !declared_before(&layer.states, n, transition.from) {
            return Err(AnimationError::UnknownTransitionState { layer: index, state: transition.from });
        }
        if !declared_before(&layer.states, n, transition.to) {
            return Err(AnimationError::UnknownTransitionState { layer: index, state: transition.to });
        }
        t = t + 1;
    }
    Ok(())
}

impl AnimationDescriptor {
    /// Full structural validation, run by the host at load: at most
    /// [`MAX_MASK_GROUPS`] groups, each naming bones; at least one layer; and
    /// per layer, in order, at least one state, finite numbers, known mask
    /// groups, non-empty clips, no state bound twice, and transitions only
    /// between declared states. The first failure is reported.
    pub fn validate(&self) -> (r: Result<(), AnimationError>)
        ensures
            r == animation_check(*self),
    {
        let ng = self.mask_groups.len();
        if ng > MAX_MASK_GROUPS {
            return Err(AnimationError::TooManyMaskGroups { found: ng });
        }
        let mut g: usize = 0;
        while g < ng
            invariant
                ng == self.mask_groups@.len(),
                ng <= MAX_MASK_GROUPS,
                g <= ng,
                groups_from(self.mask_groups@, 0) == groups_from(self.mask_groups@, g as int),
            decreases ng - g,
        {
            if !check_group(&self.mask_groups[g]) {
                return Err(AnimationError::EmptyMaskGroup { group: g as u16 });
            }
            g = g + 1;
        }
        let nl = self.layers.len();
        if nl == 0 {
            return Err(AnimationError::NoLayers);
        }
        let mut l: usize = 0;
        while l < nl
            invariant
                ng == self.mask_groups@.len(),
                ng <= MAX_MASK_GROUPS,
                nl == self.layers@.len(),
                nl > 0,
                l <= nl,
                groups_from(self.mask_groups@, 0) is Ok,
                layers_from(self.layers@, 0, ng as int) == layers_from(self.layers@, l as int, ng as int),
            decreases nl - l,
        {
            let r = check_layer(&self.layers[l], l as u16, ng);
            if r.is_err() {
                return r;
            }
            l = l + 1;
        }
        Ok(())
    }
}

/// The `Debug` spelling of an animation state.
pub open spec fn anim_state_text(s: AnimState) -> Seq<char> {
    match s {
        AnimState::Idle => "Idle"@,
        AnimState::Walk => "Walk"@,
        AnimState::Run => "Run"@,
        AnimState::Cast => "Cast"@,
        AnimState::Channel => "Channel"@,
        AnimState::Hit => "Hit"@,
        AnimState::Death => "Death"@,
        AnimState::Custom(id) => "Custom(AnimStateId("@ + decimal(id.0 as nat) + "))"@,
    }
}

/// Append the `Debug` spelling of `state` to `s`.
fn push_state(s: &mut String, state: AnimState)
    ensures
        final(s)@ == old(s)@ + anim_state_text(state),
{
    match state {
        AnimState::Idle => push_str(s, "Idle"),
        AnimState::Walk => push_str(s, "Walk"),
        AnimState::Run => push_str(s, "Run"),
        AnimState::Cast => push_str(s, "Cast"),
        AnimState::Channel => push_str(s, "Channel"),
        AnimState::Hit => push_str(s, "Hit"),
        AnimState::Death => push_str(s, "Death"),
        AnimState::Custom(id) => {
            push_str(s, "Custom(AnimStateId(");
            let n = decimal_string(id.0 as u64);
            push_str(s, n.as_str());
            push_str(s, "))");
            assert(final(s)@ =~= old(s)@ + anim_state_text(state));
        },
    }
}

impl AnimationError {
    /// The human-readable report of this refusal.
    pub open spec fn message_spec(self) -> Seq<char> {
        match self {
            AnimationError::NoLayers => "animation declares no layers"@,
            AnimationError::EmptyLayer { layer } => "layer "@ + decimal(layer as nat) + " binds no states"@,
            AnimationError::DuplicateState { layer, state } => "layer "@ + decimal(layer as nat) + " binds "@
                + anim_state_text(state) + " more than once"@,
            AnimationError::UnknownTransitionState { layer, state } => "layer "@ + decimal(layer as nat)
                + " transitions through undeclared state "@ + anim_state_text(state),
            AnimationError::UnknownMaskGroup { layer, group } => "layer "@ + decimal(layer as nat)
                + " masks undeclared bone group "@ + decimal(group as nat),
            AnimationError::TooManyMaskGroups { found } => decimal(found as nat)
                + " bone groups declared, at most 63 are addressable"@,
            AnimationError::EmptyMaskGroup { group } => "bone group "@ + decimal(group as nat) + " names no bones"@,
            AnimationError::EmptyClipRef { layer, state } => "layer "@ + decimal(layer as nat) + " state "@
                + decimal(state as nat) + " names an empty clip"@,
            AnimationError::NonFinite { layer } => "layer "@ + decimal(layer as nat) + " carries a non-finite number"@,
        }
    }

    /// The human-readable report of this refusal.
    pub fn message(&self) -> (r: String)
        requires
            self matches AnimationError::TooManyMaskGroups { found } ==> found <= u64::MAX,
        ensures
            r@ == self.message_spec(),
    {
        match self {
            AnimationError::NoLayers => owned("animation declares no layers"),
            AnimationError::EmptyLayer { layer } => {
                let mut s = owned("layer ");
                let n = decimal_string(*layer as u64);
                push_str(&mut s, n.as_str());
                push_str(&mut s, " binds no states");
                s
            },
            AnimationError::DuplicateState { layer, state } => {
                let mut s = owned("layer ");
                let n = decimal_string(*layer as u64);
                push_str(&mut s, n.as_str());
                push_str(&mut s, " binds ");
                push_state(&mut s, *state);
                push_str(&mut s, " more than once");
                s
            },
            AnimationError::UnknownTransitionState { layer, state } => {
                let mut s = owned("layer ");
                let n = decimal_string(*layer as u64);
                push_str(&mut s, n.as_str());
                push_str(&mut s, " transitions through undeclared state ");
                push_state(&mut s, *state);
                s
            },
            AnimationError::UnknownMaskGroup { layer, group } => {
                let mut s = owned("layer ");
                let n = decimal_string(*layer as u64);
                push_str(&mut s, n.as_str());
                push_str(&mut s, " masks undeclared bone group ");
                let g = decimal_string(*group as u64);
                push_str(&mut s, g.as_str());
                s
            },
            AnimationError::TooManyMaskGroups { found } => {
                let mut s = decimal_string(*found as u64);
                push_str(&mut s, " bone groups declared, at most 63 are addressable");
                s
            },
            AnimationError::EmptyMaskGroup { group } => {
                let mut s = owned("bone group ");
                let g = decimal_string(*group as u64);
                push_str(&mut s, g.as_str());
                push_str(&mut s, " names no bones");
                s
            },
            AnimationError::EmptyClipRef { layer, state } => {
                let mut s = owned("layer ");
                let n = decimal_string(*layer as u64);
                push_str(&mut s, n.as_str());
                push_str(&mut s, " state ");
                let k = decimal_string(*state as u64);
                push_str(&mut s, k.as_str());
                push_str(&mut s, " names an empty clip");
                s
            },
            AnimationError::NonFinite { layer } => {
                let mut s = owned("layer ");
                let n = decimal_string(*layer as u64);
                push_str(&mut s, n.as_str());
                push_str(&mut s, " carries a non-finite number");
                s
            },
        }
    }
}


/// Whether one state binding can be played at position `s` of its layer: a
/// clip named in full, finite numbers, and a state no earlier binding took.
pub open spec fn binding_sound(states: Seq<StateClip>, s: int) -> bool {
    &&& states[s].clip.asset@.len() > 0
    &&& states[s].clip.clip@.len() > 0
    &&& binding_finite(states[s])
    &&& !declares(states.take(s), states[s].state)
}

/// Whether a transition can be run in a layer binding `states`: a finite blend
/// between two states the layer binds.
pub open spec fn transition_sound(tr: Transition, states: Seq<StateClip>) -> bool {
    tr.blend_in.spec_is_finite() && declares(states, tr.from) && declares(states, tr.to)
}

/// Whether a layer can be played against `declared` mask groups: at least one
/// state, a finite weight, a mask naming only declared groups, every binding
/// sound and every transition sound.
pub open spec fn layer_sound(layer: AnimLayer, declared: int) -> bool {
    &&& layer.states@.len() > 0
    &&& layer.weight.spec_is_finite()
    &&& forall|j: int| 0 <= j < mask_groups_of(layer.mask).len() ==> (#[trigger] mask_groups_of(layer.mask)[j]) < declared
    &&& forall|j: int| 0 <= j < layer.states@.len() ==> #[trigger] binding_sound(layer.states@, j)
    &&& forall|j: int| 0 <= j < layer.transitions@.len() ==> transition_sound(#[trigger] layer.transitions@[j], layer.states@)
}

proof fn lemma_groups_ok(groups: Seq<MaskGroup>, g: int)
    requires
        0 <= g,
    ensures
        groups_from(groups, g) is Ok <==> forall|j: int| g <= j < groups.len() ==> group_named(#[trigger] groups[j]),
    decreases groups.len() - g,
{
    if g < groups.len() {
        lemma_groups_ok(groups, g + 1);
    }
}

proof fn lemma_mask_ok(mask: Seq<u16>, i: int, declared: int, layer: u16)
    requires
        0 <= i,
    ensures
        mask_from(mask, i, declared, layer) is Ok <==> forall|j: int| i <= j < mask.len() ==> (#[trigger] mask[j]) < declared,
    decreases mask.len() - i,
{
    if i < mask.len() {
        lemma_mask_ok(mask, i + 1, declared, layer);
    }
}

proof fn lemma_states_ok(states: Seq<StateClip>, s: int, layer: u16)
    requires
        0 <= s,
    ensures
        states_from(states, s, layer) is Ok <==> forall|j: int| s <= j < states.len() ==> #[trigger] binding_sound(states, j),
    decreases states.len() - s,
{
    if s < states.len() {
        lemma_states_ok(states, s + 1, layer);
        assert(binding_sound(states, s) <==> !(states[s].clip.asset@.len() == 0 || states[s].clip.clip@.len() == 0)
            && binding_finite(states[s]) && !declares(states.take(s), states[s].state));
    }
}

proof fn lemma_transitions_ok(trs: Seq<Transition>, t: int, states: Seq<StateClip>, layer: u16)
    requires
        0 <= t,
    ensures
        transitions_from(trs, t, states, layer) is Ok <==> forall|j: int| t <= j < trs.len() ==> transition_sound(#[trigger] trs[j], states),
    decreases trs.len() - t,
{
    if t < trs.len() {
        lemma_transitions_ok(trs, t + 1, states, layer);
    }
}

proof fn lemma_layer_ok(layer: AnimLayer, index: u16, declared: int)
    ensures
        layer_check(layer, index, declared) is Ok <==> layer_sound(layer, declared),
{
    lemma_mask_ok(mask_groups_of(layer.mask), 0, declared, index);
    lemma_states_ok(layer.states@, 0, index);
    lemma_transitions_ok(layer.transitions@, 0, layer.states@, index);
}

proof fn lemma_layers_ok(layers: Seq<AnimLayer>, l: int, declared: int)
    requires
        0 <= l,
    ensures
        layers_from(layers, l, declared) is Ok <==> forall|j: int| l <= j < layers.len() ==> layer_sound(#[trigger] layers[j], declared),
    decreases layers.len() - l,
{
    if l < layers.len() {
        lemma_layers_ok(layers, l + 1, declared);
        lemma_layer_ok(layers[l], l as u16, declared);
    }
}

/// An animation descriptor passes [`AnimationDescriptor::validate`] exactly
/// when it declares at most [`MAX_MASK_GROUPS`] mask groups, each naming a
/// bone by a full path, has at least one layer, and every layer is sound:
/// states bound, a finite weight, a mask naming declared groups only, every
/// binding a named clip with finite numbers and a state of its own, every
/// transition a finite blend between bound states.
pub proof fn law_a_valid_animation(d: AnimationDescriptor)
    ensures
        animation_check(d) is Ok <==> {
            &&& d.mask_groups@.len() <= MAX_MASK_GROUPS
            &&& forall|g: int| 0 <= g < d.mask_groups@.len() ==> group_named(#[trigger] d.mask_groups@[g])
            &&& d.layers@.len() > 0
            &&& forall|l: int| 0 <= l < d.layers@.len() ==> layer_sound(#[trigger] d.layers@[l], d.mask_groups@.len() as int)
        },
{
    lemma_groups_ok(d.mask_groups@, 0);
    lemma_layers_ok(d.layers@, 0, d.mask_groups@.len() as int);
}

} // verus!
