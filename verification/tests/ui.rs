use stormlight_mod::ids::Slot;
use stormlight_mod::scalar::Scalar;
use stormlight_mod::ui::{
    Length, RootVisibility, StateStyle, Style, SummonGate, UiAction, UiError, UiRoot, UiSubject, ValueBinding, Widget,
    WidgetKind, WidgetState, MAX_UI_DEPTH, MAX_UI_WIDGETS,
};
use stormlight_mod::ui_anim::{Ease, Playback, TrackFault, UiKey, UiProperty, UiTrack, UiTransition, UiTrigger, Shape};
use stormlight_mod::ui_event::{Coalesce, UiEvent};
use stormlight_mod::widgets::{bar, button, icon, key, panel, text, track, KeyExt, WidgetExt};

fn s(x: f32) -> Scalar {
    Scalar::from_bits(x.to_bits())
}

fn root(w: Widget) -> UiRoot {
    UiRoot {
        name: "hud".to_string(),
        when: RootVisibility::Always,
        summon: SummonGate::Ignored,
        subject: UiSubject::LocalPlayer,
        root: w,
    }
}

#[test]
fn a_plain_tree_validates() {
    let tree = panel(vec![text("hp"), bar(ValueBinding::Health), icon("mod://m/a.png")]);
    assert_eq!(root(tree).validate(), Ok(()));
}

#[test]
fn root_level_rules_come_first() {
    let mut r = root(panel(Vec::new()));
    r.name = String::new();
    assert_eq!(r.validate(), Err(UiError::EmptyRootName));

    let mut r = root(panel(Vec::new()));
    r.subject = UiSubject::HoveredUnit;
    assert_eq!(r.validate(), Err(UiError::SubjectNeverPresent));
    r.when = RootVisibility::WhileUnitHovered;
    assert_eq!(r.validate(), Ok(()));

    let mut r = root(panel(Vec::new()));
    r.when = RootVisibility::OnEvent { event: UiEvent::Damaged, seconds: s(0.0), coalesce: Coalesce::PerUnit };
    assert_eq!(r.validate(), Err(UiError::BadEventLifetime));
    r.when = RootVisibility::OnEvent { event: UiEvent::Damaged, seconds: s(1.5), coalesce: Coalesce::PerUnit };
    assert_eq!(r.validate(), Ok(()));
}

#[test]
fn widgets_are_numbered_in_pre_order() {
    let bad_icon = Widget { kind: WidgetKind::Icon, ..text("x") };
    let tree = panel(vec![panel(vec![text("a"), text("b")]), bad_icon]);
    assert_eq!(root(tree).validate(), Err(UiError::IconWithoutImage { widget: 4 }));

    let tree = panel(vec![text("a").image(""), text("b")]);
    assert_eq!(root(tree).validate(), Err(UiError::EmptyImagePath { widget: 1 }));

    let tree = panel(vec![text("a").padded(s(-1.0))]);
    assert_eq!(root(tree).validate(), Err(UiError::NegativeMetric { widget: 1 }));

    let tree = panel(vec![text("a"), text("b").sized(Length::Px(s(f32::NAN)), Length::Auto)]);
    assert_eq!(root(tree).validate(), Err(UiError::NonFinite { widget: 2 }));

    let tree = panel(vec![text("a").state_image(WidgetState::Pressed, "")]);
    assert_eq!(root(tree).validate(), Err(UiError::EmptyImagePath { widget: 1 }));
}

#[test]
fn depth_and_count_limits_hold() {
    let mut w = text("leaf");
    for _ in 0..MAX_UI_DEPTH - 1 {
        w = panel(vec![w]);
    }
    assert_eq!(root(w.clone()).validate(), Ok(()));
    let deeper = panel(vec![w]);
    assert_eq!(root(deeper).validate(), Err(UiError::TooDeep { widget: MAX_UI_DEPTH as u16 }));

    let full = panel((0..MAX_UI_WIDGETS - 1).map(|i| text(&format!("t{i}"))).collect());
    assert_eq!(root(full).validate(), Ok(()));
    let over = panel((0..MAX_UI_WIDGETS).map(|i| text(&format!("t{i}"))).collect());
    assert_eq!(root(over).validate(), Err(UiError::TooManyWidgets));
}

#[test]
fn tracks_are_checked_in_order() {
    let good = track(UiProperty::Opacity, UiTrigger::Built, Playback::Once, vec![key(s(0.0), s(0.0)), key(s(1.0), s(1.0))]);
    assert_eq!(good.fault(), None);
    assert_eq!(good.duration(), s(1.0));
    assert!(!good.repeats());
    let empty = UiTrack::default();
    assert_eq!(empty.fault(), Some(TrackFault::NoKeys));
    let back = track(UiProperty::Scale, UiTrigger::Hidden, Playback::Loop, vec![key(s(2.0), s(1.0)), key(s(1.0), s(0.0))]);
    assert_eq!(back.fault(), Some(TrackFault::OutOfOrder));
    assert!(back.repeats());
    let early = track(UiProperty::Scale, UiTrigger::Built, Playback::Once, vec![key(s(-1.0), s(1.0))]);
    assert_eq!(early.fault(), Some(TrackFault::NegativeTime));
    let many = track(UiProperty::Scale, UiTrigger::Built, Playback::Once, (0..17).map(|i| key(s(i as f32), s(0.0))).collect());
    assert_eq!(many.fault(), Some(TrackFault::TooManyKeys));

    let tree = panel(vec![text("a").animated(good.clone()).animated(back)]);
    assert_eq!(
        root(tree).validate(),
        Err(UiError::BadTrack { widget: 1, track: 1, fault: TrackFault::OutOfOrder })
    );
    let tree = panel(vec![text("a").transition(s(-1.0), Shape::default())]);
    assert_eq!(root(tree).validate(), Err(UiError::BadTransition { widget: 1 }));
    let mut crowded = text("a");
    for _ in 0..5 {
        crowded = crowded.animated(good.clone());
    }
    assert_eq!(root(panel(vec![crowded])).validate(), Err(UiError::TooManyTracks { widget: 1 }));
}

#[test]
fn a_state_override_replaces_only_what_it_sets() {
    let red = [s(1.0), s(0.0), s(0.0), s(1.0)];
    let w = icon("mod://m/base.png").state_color(WidgetState::Hovered, red);
    let hovered = w.style.resolve(WidgetState::Hovered);
    assert_eq!(hovered.color, red);
    assert_eq!(hovered.image, Some("mod://m/base.png".to_string()));
    let idle = w.style.resolve(WidgetState::Idle);
    assert_eq!(idle, w.style);
    assert_eq!(w.style.states.get(WidgetState::Hovered), Some(&StateStyle { color: Some(red), background: None, image: None }));
    assert!(w.style.states.any());
    assert!(!Style::default().states.any());
}

#[test]
fn a_hovered_widget_with_no_press_style_presses_as_its_base() {
    let red = [s(1.0), s(0.0), s(0.0), s(1.0)];
    let w = icon("mod://m/base.png").state_color(WidgetState::Hovered, red);
    let pressed = w.style.resolve(WidgetState::Pressed);
    assert_eq!(pressed.color, w.style.color);
    assert_eq!(pressed.image, w.style.image);
    assert_eq!(w.style.states.get(WidgetState::Pressed), None);
    assert_eq!(w.style.states.get(WidgetState::Idle), None);
}

#[test]
fn keys_and_actions() {
    let k = key(s(0.5), s(2.0)).arriving(Ease::Fast).leaving(Ease::Slow);
    assert_eq!(k, UiKey { time: s(0.5), value: s(2.0), arrive: Ease::Fast, leave: Ease::Slow });
    assert_eq!(Ease::Fast.slope(), s(2.0));
    assert_eq!(UiProperty::Opacity.rest(), s(1.0));
    let b = button(UiAction::CastSlot(Slot(2)), Vec::new());
    assert_eq!(b.kind.action(), Some(UiAction::CastSlot(Slot(2))));
    assert!(b.kind.children().is_empty());
    assert!(UiTransition { seconds: s(0.0), shape: Shape::default() }.is_usable());
    let when = RootVisibility::OnEvent { event: UiEvent::Healed, seconds: s(2.0), coalesce: Coalesce::Never };
    assert_eq!(when.occurrence(), Some(UiEvent::Healed));
    assert_eq!(when.lifetime(), s(2.0));
    assert_eq!(RootVisibility::Always.coalesce(), Coalesce::Never);
}

#[test]
fn ui_errors_read_as_sentences() {
    assert_eq!(UiError::TooManyWidgets.message(), "ui root holds more than 256 widgets");
    assert_eq!(UiError::TooDeep { widget: 3 }.message(), "widget 3 nests past the 16-level limit");
    assert_eq!(
        UiError::BadTrack { widget: 2, track: 0, fault: TrackFault::NoKeys }.message(),
        "widget 2: track 0 has no keys"
    );
    assert_eq!(UiError::TooManyTracks { widget: 9 }.message(), "widget 9 declares more than 4 tracks");
}
