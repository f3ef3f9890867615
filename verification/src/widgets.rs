//! Authoring helpers for HUD trees: constructors for each widget kind, and
//! chained setters ([`WidgetExt`], [`KeyExt`]) that each change one property of
//! a widget or key and leave everything else as it was.

use vstd::prelude::*;

use crate::ids::{EventId, Slot};
use crate::scalar::Scalar;
use crate::ui::{
    is_default_style, Anchor, Flow, Layout, Length, ListBinding, Slice, StateStyle, Style, Sweep, SweepDirection, TalentText,
    TextSource, UiAction, ValueBinding, ValuePart, Widget, WidgetKind, WidgetState,
};
use crate::ui_anim::{Ease, Playback, Shape, UiKey, UiProperty, UiTrack, UiTransition, UiTrigger};

verus! {

/// Whether `w` is a freshly built node: no name, the default layout and the
/// default style.
pub open spec fn fresh_widget(w: Widget) -> bool {
    &&& w.name@.len() == 0
    &&& w.layout == Layout::default_spec()
    &&& is_default_style(w.style)
}

/// A widget of `kind` with no name, the default layout and the default style.
fn widget(kind: WidgetKind) -> (r: Widget)
    ensures
        fresh_widget(r),
        r.kind == kind,
{
    Widget { name: String::new(), layout: Layout::default(), style: Style::default(), kind }
}

/// A panel holding `children`.
pub fn panel(children: Vec<Widget>) -> (r: Widget)
    ensures
        fresh_widget(r),
        r.kind == (WidgetKind::Panel { children }),
{
    widget(WidgetKind::Panel { children })
}

/// A text widget showing `literal`.
pub fn text(literal: &str) -> (r: Widget)
    ensures
        fresh_widget(r),
        r.kind matches WidgetKind::Text { text: TextSource::Literal(s) } && s@ == literal@,
{
    widget(WidgetKind::Text { text: TextSource::Literal(literal.to_owned()) })
}

/// A text widget showing a bound value.
pub fn bound_text(binding: ValueBinding, part: ValuePart, decimals: u8) -> (r: Widget)
    ensures
        fresh_widget(r),
        r.kind == (WidgetKind::Text { text: TextSource::Value { binding, part, decimals } }),
{
    widget(WidgetKind::Text { text: TextSource::Value { binding, part, decimals } })
}

/// A text widget listing the talents chosen so far.
pub fn talent_list() -> (r: Widget)
    ensures
        fresh_widget(r),
        r.kind == (WidgetKind::Text { text: TextSource::List(ListBinding::ChosenTalents) }),
{
    widget(WidgetKind::Text { text: TextSource::List(ListBinding::ChosenTalents) })
}

/// A text widget listing one tier's options.
pub fn tier_options(tier: u8) -> (r: Widget)
    ensures
        fresh_widget(r),
        r.kind == (WidgetKind::Text { text: TextSource::List(ListBinding::TierOptions(tier)) }),
{
    widget(WidgetKind::Text { text: TextSource::List(ListBinding::TierOptions(tier)) })
}

/// A text widget showing one field of a tier's option.
pub fn talent_text(tier: u8, option: u8, field: TalentText) -> (r: Widget)
    ensures
        fresh_widget(r),
        r.kind == (WidgetKind::Text { text: TextSource::Talent { tier, option, field } }),
{
    widget(WidgetKind::Text { text: TextSource::Talent { tier, option, field } })
}

/// The icon of a tier's option.
pub fn talent_icon(tier: u8, option: u8) -> (r: Widget)
    ensures
        fresh_widget(r),
        r.kind == (WidgetKind::TalentIcon { tier, option }),
{
    widget(WidgetKind::TalentIcon { tier, option })
}

/// A bar filled by a bound value.
pub fn bar(value: ValueBinding) -> (r: Widget)
    ensures
        fresh_widget(r),
        r.kind == (WidgetKind::Bar { value }),
{
    widget(WidgetKind::Bar { value })
}

/// An icon showing the image at `asset`.
pub fn icon(asset: &str) -> (r: Widget)
    ensures
        r.name@.len() == 0,
        r.layout == Layout::default_spec(),
        is_default_style(Style { image: None, ..r.style }),
        r.kind == WidgetKind::Icon,
        r.style.image matches Some(s) && s@ == asset@,
{
    widget(WidgetKind::Icon).image(asset)
}

/// A button that performs `action`, holding `children`.
pub fn button(action: UiAction, children: Vec<Widget>) -> (r: Widget)
    ensures
        fresh_widget(r),
        r.kind == (WidgetKind::Button { action, children }),
{
    widget(WidgetKind::Button { action, children })
}

/// A button that casts the ability in `slot`.
pub fn cast_button(slot: Slot, children: Vec<Widget>) -> (r: Widget)
    ensures
        fresh_widget(r),
        r.kind == (WidgetKind::Button { action: UiAction::CastSlot(slot), children }),
{
    button(UiAction::CastSlot(slot), children)
}

/// A button that picks a tier's option.
pub fn talent_button(tier: u8, option: u8, children: Vec<Widget>) -> (r: Widget)
    ensures
        fresh_widget(r),
        r.kind == (WidgetKind::Button { action: UiAction::PickTalent { tier, option }, children }),
{
    button(UiAction::PickTalent { tier, option }, children)
}

/// A button that fires a mod-defined event.
pub fn trigger_button(event: EventId, children: Vec<Widget>) -> (r: Widget)
    ensures
        fresh_widget(r),
        r.kind == (WidgetKind::Button { action: UiAction::Trigger { event }, children }),
{
    button(UiAction::Trigger { event }, children)
}

/// An ability slot widget for `slot`, labelled with `key_hint`.
pub fn ability_slot(slot: Slot, key_hint: &str) -> (r: Widget)
    ensures
        fresh_widget(r),
        r.kind matches WidgetKind::AbilitySlot { slot: s, key_hint: k } && s == slot && k@ == key_hint@,
{
    widget(WidgetKind::AbilitySlot { slot, key_hint: key_hint.to_owned() })
}

/// A key at `time` holding `value`, met linearly on both sides.
pub fn key(time: Scalar, value: Scalar) -> (r: UiKey)
    ensures
        r == (UiKey { time, value, arrive: Ease::Linear, leave: Ease::Linear }),
{
    UiKey { time, value, arrive: Ease::Linear, leave: Ease::Linear }
}

/// A track of `keys` driving `property`.
pub fn track(property: UiProperty, on: UiTrigger, playback: Playback, keys: Vec<UiKey>) -> (r: UiTrack)
    ensures
        r == (UiTrack { property, on, playback, keys }),
{
    UiTrack { property, on, playback, keys }
}

/// Chained setters on a key.
pub trait KeyExt: Sized {
    /// This key, arriving with `ease`.
    fn arriving(self, ease: Ease) -> Self;

    /// This key, leaving with `ease`.
    fn leaving(self, ease: Ease) -> Self;
}

impl KeyExt for UiKey {
    fn arriving(self, ease: Ease) -> (r: Self)
        ensures
            r == (UiKey { arrive: ease, ..self }),
    {
        let mut k = self;
        k.arrive = ease;
        k
    }

    fn leaving(self, ease: Ease) -> (r: Self)
        ensures
            r == (UiKey { leave: ease, ..self }),
    {
        let mut k = self;
        k.leave = ease;
        k
    }
}

/// A state override with one more field set: a fresh override when there was
/// none.
pub open spec fn with_color(entry: Option<StateStyle>, rgba: [Scalar; 4]) -> Option<StateStyle> {
    match entry {
        Some(s) => Some(StateStyle { color: Some(rgba), ..s }),
        None => Some(StateStyle { color: Some(rgba), background: None, image: None }),
    }
}

/// See [`with_color`].
pub open spec fn with_background(entry: Option<StateStyle>, rgba: [Scalar; 4]) -> Option<StateStyle> {
    match entry {
        Some(s) => Some(StateStyle { background: Some(rgba), ..s }),
        None => Some(StateStyle { color: None, background: Some(rgba), image: None }),
    }
}

fn set_color(entry: Option<StateStyle>, rgba: [Scalar; 4]) -> (r: Option<StateStyle>)
    ensures
        r == with_color(entry, rgba),
{
    match entry {
        Some(mut s) => {
            s.color = Some(rgba);
            Some(s)
        },
        None => Some(StateStyle { color: Some(rgba), background: None, image: None }),
    }
}

fn set_background(entry: Option<StateStyle>, rgba: [Scalar; 4]) -> (r: Option<StateStyle>)
    ensures
        r == with_background(entry, rgba),
{
    match entry {
        Some(mut s) => {
            s.background = Some(rgba);
            Some(s)
        },
        None => Some(StateStyle { color: None, background: Some(rgba), image: None }),
    }
}

fn set_image(entry: Option<StateStyle>, asset: &str) -> (r: Option<StateStyle>)
    ensures
        r matches Some(s) && s.image matches Some(i) && i@ == asset@,
        r matches Some(s) && s.color == (match entry { Some(e) => e.color, None => None }),
        r matches Some(s) && s.background == (match entry { Some(e) => e.background, None => None }),
{
    match entry {
        Some(mut s) => {
            s.image = Some(asset.to_owned());
            Some(s)
        },
        None => Some(StateStyle { color: None, background: None, image: Some(asset.to_owned()) }),
    }
}

/// Chained setters on a widget; each changes what it names and nothing else.
pub trait WidgetExt: Sized {
    fn named(self, name: &str) -> Self;

    fn at(self, anchor: Anchor, x: Length, y: Length) -> Self;

    fn sized(self, width: Length, height: Length) -> Self;

    fn flow(self, flow: Flow, gap: Scalar) -> Self;

    fn padded(self, padding: Scalar) -> Self;

    fn color(self, rgba: [Scalar; 4]) -> Self;

    fn background(self, rgba: [Scalar; 4]) -> Self;

    fn border(self, rgba: [Scalar; 4], width: Scalar) -> Self;

    fn font_size(self, size: Scalar) -> Self;

    fn font(self, asset: &str) -> Self;

    fn image(self, asset: &str) -> Self;

    fn sliced(self, left: Scalar, top: Scalar, right: Scalar, bottom: Scalar) -> Self;

    fn flipped(self, x: bool, y: bool) -> Self;

    fn state_color(self, state: WidgetState, rgba: [Scalar; 4]) -> Self;

    fn state_background(self, state: WidgetState, rgba: [Scalar; 4]) -> Self;

    fn state_image(self, state: WidgetState, asset: &str) -> Self;

    fn sweep(self, rgba: [Scalar; 4], direction: SweepDirection) -> Self;

    fn animated(self, track: UiTrack) -> Self;

    fn transition(self, seconds: Scalar, shape: Shape) -> Self;
}

impl WidgetExt for Widget {
    /// This widget, named `name`.
    fn named(self, name: &str) -> (r: Self)
        ensures
            r.name@ == name@,
            r.layout == self.layout,
            r.style == self.style,
            r.kind == self.kind,
    {
        let mut w = self;
        w.name = name.to_owned();
        w
    }

    /// This widget, offset by `(x, y)` from `anchor`.
    fn at(self, anchor: Anchor, x: Length, y: Length) -> (r: Self)
        ensures
            r.layout.anchor == anchor,
            r.layout.offset@ == seq![x, y],
            r.layout.size == self.layout.size,
            r.layout.flow == self.layout.flow,
            r.layout.gap == self.layout.gap,
            r.layout.padding == self.layout.padding,
            r.name == self.name,
            r.style == self.style,
            r.kind == self.kind,
    {
        let mut w = self;
        w.layout.anchor = anchor;
        w.layout.offset = [x, y];
        assert(w.layout.offset@ =~= seq![x, y]);
        w
    }

    /// This widget, sized `width` by `height`.
    fn sized(self, width: Length, height: Length) -> (r: Self)
        ensures
            r.layout.size@ == seq![width, height],
            r.layout.anchor == self.layout.anchor,
            r.layout.offset == self.layout.offset,
            r.layout.flow == self.layout.flow,
            r.layout.gap == self.layout.gap,
            r.layout.padding == self.layout.padding,
            r.name == self.name,
            r.style == self.style,
            r.kind == self.kind,
    {
        let mut w = self;
        w.layout.size = [width, height];
        assert(w.layout.size@ =~= seq![width, height]);
        w
    }

    /// This widget, laying its children out by `flow` with `gap` between.
    fn flow(self, flow: Flow, gap: Scalar) -> (r: Self)
        ensures
            r.layout == (Layout { flow, gap, ..self.layout }),
            r.name == self.name,
            r.style == self.style,
            r.kind == self.kind,
    {
        let mut w = self;
        w.layout.flow = flow;
        w.layout.gap = gap;
        w
    }

    /// This widget, padded by `padding`.
    fn padded(self, padding: Scalar) -> (r: Self)
        ensures
            r.layout == (Layout { padding, ..self.layout }),
            r.name == self.name,
            r.style == self.style,
            r.kind == self.kind,
    {
        let mut w = self;
        w.layout.padding = padding;
        w
    }

    /// This widget, painted in `rgba`.
    fn color(self, rgba: [Scalar; 4]) -> (r: Self)
        ensures
            r.style == (Style { color: rgba, ..self.style }),
            r.name == self.name,
            r.layout == self.layout,
            r.kind == self.kind,
    {
        let mut w = self;
        w.style.color = rgba;
        w
    }

    /// This widget, on a `rgba` background.
    fn background(self, rgba: [Scalar; 4]) -> (r: Self)
        ensures
            r.style == (Style { background: rgba, ..self.style }),
            r.name == self.name,
            r.layout == self.layout,
            r.kind == self.kind,
    {
        let mut w = self;
        w.style.background = rgba;
        w
    }

    /// This widget, outlined in `rgba`, `width` wide.
    fn border(self, rgba: [Scalar; 4], width: Scalar) -> (r: Self)
        ensures
            r.style.border.color == rgba,
            r.style.border.width == width,
            r.style == (Style { border: r.style.border, ..self.style }),
            r.name == self.name,
            r.layout == self.layout,
            r.kind == self.kind,
    {
        let mut w = self;
        w.style.border.color = rgba;
        w.style.border.width = width;
        w
    }

    /// This widget, with text at `size`.
    fn font_size(self, size: Scalar) -> (r: Self)
        ensures
            r.style == (Style { font_size: size, ..self.style }),
            r.name == self.name,
            r.layout == self.layout,
            r.kind == self.kind,
    {
        let mut w = self;
        w.style.font_size = size;
        w
    }

    /// This widget, with text in the font at `asset`.
    fn font(self, asset: &str) -> (r: Self)
        ensures
            r.style.font matches Some(f) && f@ == asset@,
            r.style == (Style { font: r.style.font, ..self.style }),
            r.name == self.name,
            r.layout == self.layout,
            r.kind == self.kind,
    {
        let mut w = self;
        w.style.font = Some(asset.to_owned());
        w
    }

    /// This widget, showing the image at `asset`.
    fn image(self, asset: &str) -> (r: Self)
        ensures
            r.style.image matches Some(i) && i@ == asset@,
            r.style == (Style { image: r.style.image, ..self.style }),
            r.name == self.name,
            r.layout == self.layout,
            r.kind == self.kind,
    {
        let mut w = self;
        w.style.image = Some(asset.to_owned());
        w
    }

    /// This widget, its image nine-sliced with these insets.
    fn sliced(self, left: Scalar, top: Scalar, right: Scalar, bottom: Scalar) -> (r: Self)
        ensures
            r.style == (Style { slice: Some(Slice { left, top, right, bottom }), ..self.style }),
            r.name == self.name,
            r.layout == self.layout,
            r.kind == self.kind,
    {
        let mut w = self;
        w.style.slice = Some(Slice { left, top, right, bottom });
        w
    }

    /// This widget, its image mirrored as asked.
    fn flipped(self, x: bool, y: bool) -> (r: Self)
        ensures
            r.style == (Style { flip_x: x, flip_y: y, ..self.style }),
            r.name == self.name,
            r.layout == self.layout,
            r.kind == self.kind,
    {
        let mut w = self;
        w.style.flip_x = x;
        w.style.flip_y = y;
        w
    }

    /// This widget, painted `rgba` in `state` (nothing changes for `Idle`).
    fn state_color(self, state: WidgetState, rgba: [Scalar; 4]) -> (r: Self)
        ensures
            r.style.states.hover == (if state is Hovered { with_color(self.style.states.hover, rgba) } else { self.style.states.hover }),
            r.style.states.press == (if state is Pressed { with_color(self.style.states.press, rgba) } else { self.style.states.press }),
            r.style.states.disabled == (if state is Disabled { with_color(self.style.states.disabled, rgba) } else { self.style.states.disabled }),
            r.style == (Style { states: r.style.states, ..self.style }),
            r.name == self.name,
            r.layout == self.layout,
            r.kind == self.kind,
    {
        let mut w = self;
        match state {
            WidgetState::Idle => {},
            WidgetState::Hovered => w.style.states.hover = set_color(w.style.states.hover, rgba),
            WidgetState::Pressed => w.style.states.press = set_color(w.style.states.press, rgba),
            WidgetState::Disabled => w.style.states.disabled = set_color(w.style.states.disabled, rgba),
        }
        w
    }

    /// This widget, on a `rgba` background in `state` (nothing changes for
    /// `Idle`).
    fn state_background(self, state: WidgetState, rgba: [Scalar; 4]) -> (r: Self)
        ensures
            r.style.states.hover == (if state is Hovered { with_background(self.style.states.hover, rgba) } else { self.style.states.hover }),
            r.style.states.press == (if state is Pressed { with_background(self.style.states.press, rgba) } else { self.style.states.press }),
            r.style.states.disabled == (if state is Disabled { with_background(self.style.states.disabled, rgba) } else { self.style.states.disabled }),
            r.style == (Style { states: r.style.states, ..self.style }),
            r.name == self.name,
            r.layout == self.layout,
            r.kind == self.kind,
    {
        let mut w = self;
        match state {
            WidgetState::Idle => {},
            WidgetState::Hovered => w.style.states.hover = set_background(w.style.states.hover, rgba),
            WidgetState::Pressed => w.style.states.press = set_background(w.style.states.press, rgba),
            WidgetState::Disabled => w.style.states.disabled = set_background(w.style.states.disabled, rgba),
        }
        w
    }

    /// This widget, showing the image at `asset` in `state` (nothing changes
    /// for `Idle`).
    fn state_image(self, state: WidgetState, asset: &str) -> (r: Self)
        ensures
            state is Idle ==> r.style == self.style,
            state is Hovered ==> (r.style.states.hover matches Some(s) && s.image matches Some(i) && i@ == asset@),
            state is Pressed ==> (r.style.states.press matches Some(s) && s.image matches Some(i) && i@ == asset@),
            state is Disabled ==> (r.style.states.disabled matches Some(s) && s.image matches Some(i) && i@ == asset@),
            !(state is Hovered) ==> r.style.states.hover == self.style.states.hover,
            !(state is Pressed) ==> r.style.states.press == self.style.states.press,
            !(state is Disabled) ==> r.style.states.disabled == self.style.states.disabled,
            r.style == (Style { states: r.style.states, ..self.style }),
            r.name == self.name,
            r.layout == self.layout,
            r.kind == self.kind,
    {
        let mut w = self;
        match state {
            WidgetState::Idle => {},
            WidgetState::Hovered => w.style.states.hover = set_image(w.style.states.hover, asset),
            WidgetState::Pressed => w.style.states.press = set_image(w.style.states.press, asset),
            WidgetState::Disabled => w.style.states.disabled = set_image(w.style.states.disabled, asset),
        }
        w
    }

    /// This widget, with a cooldown sweep in `rgba` turning `direction`.
    fn sweep(self, rgba: [Scalar; 4], direction: SweepDirection) -> (r: Self)
        ensures
            r.style == (Style { sweep: Sweep { color: rgba, direction }, ..self.style }),
            r.name == self.name,
            r.layout == self.layout,
            r.kind == self.kind,
    {
        let mut w = self;
        w.style.sweep = Sweep { color: rgba, direction };
        w
    }

    /// This widget, with one more animation track after its others.
    fn animated(self, track: UiTrack) -> (r: Self)
        ensures
            r.style.anim@ == self.style.anim@.push(track),
            r.style == (Style { anim: r.style.anim, ..self.style }),
            r.name == self.name,
            r.layout == self.layout,
            r.kind == self.kind,
    {
        let mut w = self;
        w.style.anim.push(track);
        w
    }

    /// This widget, catching up over `seconds` eased by `shape`.
    fn transition(self, seconds: Scalar, shape: Shape) -> (r: Self)
        ensures
            r.style == (Style { transition: Some(UiTransition { seconds, shape }), ..self.style }),
            r.name == self.name,
            r.layout == self.layout,
            r.kind == self.kind,
    {
        let mut w = self;
        w.style.transition = Some(UiTransition { seconds, shape });
        w
    }
}

} // verus!
