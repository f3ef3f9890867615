use stormlight_mod::animation::{
    AnimLayer, AnimState, AnimationDescriptor, AnimationError, BlendMode, BoneMask, ClipRef, MaskGroup, RateBinding,
    StateClip, Transition, MAX_MASK_GROUPS,
};
use stormlight_mod::ids::{AnimStateId, UnitId};
use stormlight_mod::notify::{NotifyAction, NotifyTime};
use stormlight_mod::ids::EventId;
use stormlight_mod::scalar::Scalar;

fn s(x: f32) -> Scalar {
    Scalar::from_bits(x.to_bits())
}

fn clip(state: AnimState) -> StateClip {
    StateClip {
        state,
        clip: ClipRef { asset: "mod://m/hero.glb".to_string(), clip: "idle".to_string() },
        looping: true,
        blend_in: s(0.2),
        blend_out: s(0.2),
        rate: RateBinding::Fixed(s(1.0)),
        priority: 0,
    }
}

fn group(name: &str) -> MaskGroup {
    MaskGroup { name: name.to_string(), bones: vec![vec!["Root".to_string(), "Spine".to_string()]], descendants: true }
}

fn layer(states: Vec<StateClip>) -> AnimLayer {
    AnimLayer {
        name: "base".to_string(),
        mask: BoneMask::Whole,
        blend: BlendMode::Override,
        weight: s(1.0),
        states,
        transitions: Vec::new(),
    }
}

fn descriptor() -> AnimationDescriptor {
    AnimationDescriptor {
        unit: UnitId(0),
        mask_groups: vec![group("upper")],
        layers: vec![layer(vec![clip(AnimState::Idle), clip(AnimState::Walk)])],
    }
}

#[test]
fn a_well_formed_animation_validates() {
    assert_eq!(descriptor().validate(), Ok(()));
}

#[test]
fn each_break_is_reported_where_it_is() {
    let mut d = descriptor();
    d.layers.clear();
    assert_eq!(d.validate(), Err(AnimationError::NoLayers));

    let mut d = descriptor();
    d.layers.push(layer(Vec::new()));
    assert_eq!(d.validate(), Err(AnimationError::EmptyLayer { layer: 1 }));

    let mut d = descriptor();
    d.layers[0].states.push(clip(AnimState::Idle));
    assert_eq!(d.validate(), Err(AnimationError::DuplicateState { layer: 0, state: AnimState::Idle }));

    let mut d = descriptor();
    d.layers[0].transitions.push(Transition { from: AnimState::Idle, to: AnimState::Death, blend_in: s(0.1) });
    assert_eq!(d.validate(), Err(AnimationError::UnknownTransitionState { layer: 0, state: AnimState::Death }));

    let mut d = descriptor();
    d.layers[0].mask = BoneMask::Only(vec![0, 1]);
    assert_eq!(d.validate(), Err(AnimationError::UnknownMaskGroup { layer: 0, group: 1 }));

    let mut d = descriptor();
    d.mask_groups = (0..=MAX_MASK_GROUPS).map(|i| group(&format!("g{i}"))).collect();
    assert_eq!(d.validate(), Err(AnimationError::TooManyMaskGroups { found: MAX_MASK_GROUPS + 1 }));

    let mut d = descriptor();
    d.mask_groups.push(MaskGroup { name: "x".to_string(), bones: vec![vec!["Root".to_string(), String::new()]], descendants: false });
    assert_eq!(d.validate(), Err(AnimationError::EmptyMaskGroup { group: 1 }));

    let mut d = descriptor();
    d.layers[0].states[1].clip.clip = String::new();
    assert_eq!(d.validate(), Err(AnimationError::EmptyClipRef { layer: 0, state: 1 }));

    let mut d = descriptor();
    d.layers[0].states[0].rate = RateBinding::MoveSpeed { reference_speed: s(f32::INFINITY) };
    assert_eq!(d.validate(), Err(AnimationError::NonFinite { layer: 0 }));

    let mut d = descriptor();
    d.layers[0].weight = s(f32::NAN);
    assert_eq!(d.validate(), Err(AnimationError::NonFinite { layer: 0 }));
}

#[test]
fn a_custom_state_counts_as_its_own_state() {
    let mut d = descriptor();
    d.layers[0].states.push(clip(AnimState::Custom(AnimStateId(3))));
    d.layers[0].states.push(clip(AnimState::Custom(AnimStateId(4))));
    assert_eq!(d.validate(), Ok(()));
    d.layers[0].states.push(clip(AnimState::Custom(AnimStateId(3))));
    assert_eq!(
        d.validate(),
        Err(AnimationError::DuplicateState { layer: 0, state: AnimState::Custom(AnimStateId(3)) })
    );
}

#[test]
fn masks_name_their_groups() {
    assert!(BoneMask::Whole.groups().is_empty());
    assert_eq!(BoneMask::Except(vec![2, 5]).groups(), &[2, 5][..]);
}

#[test]
fn animation_errors_read_as_sentences() {
    assert_eq!(AnimationError::NoLayers.message(), "animation declares no layers");
    assert_eq!(
        AnimationError::DuplicateState { layer: 2, state: AnimState::Walk }.message(),
        "layer 2 binds Walk more than once"
    );
    assert_eq!(
        AnimationError::UnknownTransitionState { layer: 0, state: AnimState::Custom(AnimStateId(7)) }.message(),
        format!("layer 0 transitions through undeclared state {:?}", AnimState::Custom(AnimStateId(7)))
    );
    assert_eq!(
        AnimationError::TooManyMaskGroups { found: 70 }.message(),
        "70 bone groups declared, at most 63 are addressable"
    );
    assert_eq!(AnimationError::EmptyClipRef { layer: 1, state: 4 }.message(), "layer 1 state 4 names an empty clip");
}

#[test]
fn notify_times_are_reachable_only_inside_the_clip() {
    assert!(NotifyTime::Normalized(s(0.0)).is_reachable());
    assert!(NotifyTime::Normalized(s(1.0)).is_reachable());
    assert!(!NotifyTime::Normalized(s(1.5)).is_reachable());
    assert!(!NotifyTime::Normalized(s(-0.1)).is_reachable());
    assert!(NotifyTime::Seconds(s(3.0)).is_reachable());
    assert!(!NotifyTime::Seconds(s(f32::NAN)).is_reachable());
    assert!(NotifyAction::Trigger { event: EventId(1) }.is_finite());
}
