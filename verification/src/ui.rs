//! Declarative HUD trees — what a client mod ships so the engine can draw its
//! interface without knowing what any of it means.
//!
//! A [`UiRoot`] is a named tree of [`Widget`]s: each has a layout, a style and
//! a kind. Values shown on screen are bindings to game state, never numbers the
//! mod computes. A root is validated once at load ([`UiRoot::validate`]):
//! widgets are numbered in depth-first pre-order, the root first, and the first
//! widget that breaks a rule is reported by that number.

use vstd::prelude::*;

use crate::ids::{EventId, Slot, StatId};
use crate::impacts::PoolRef;
use crate::remap::{then, widget_kind_same, widget_same, widgets_same, KeepIds, RemapIds};
use crate::scalar::Scalar;
use crate::text::{decimal, decimal_string, owned, push_str};
use crate::ui_anim::{track_fault, TrackFault, UiTrack, UiTransition, MAX_UI_TRACKS};
use crate::ui_event::{Coalesce, EventQuantity, UiEvent};

verus! {

/// How deep a widget tree may nest, the root being at depth one.
pub const MAX_UI_DEPTH: usize = 16;

/// How many widgets one root may hold.
pub const MAX_UI_WIDGETS: usize = 256;

/// A length: pixels, a fraction of the parent, or whatever the content needs.
#[derive(Clone, Copy, PartialEq, Debug)]
pub enum Length {
    Px(Scalar),
    Fraction(Scalar),
    Auto,
}

impl Default for Length {
    fn default() -> (r: Self)
        ensures
            r == Length::Auto,
    {
        Length::Auto
    }
}

/// Whether a length's number is finite.
pub open spec fn length_finite(l: Length) -> bool {
    match l {
        Length::Px(v) => v.spec_is_finite(),
        Length::Fraction(v) => v.spec_is_finite(),
        Length::Auto => true,
    }
}

/// Whether a length's number is below zero.
pub open spec fn length_negative(l: Length) -> bool {
    match l {
        Length::Px(v) => v.spec_lt(Scalar::zero_spec()),
        Length::Fraction(v) => v.spec_lt(Scalar::zero_spec()),
        Length::Auto => false,
    }
}

impl Length {
    /// Whether the length's number is finite (`Auto` always is).
    pub fn is_finite(self) -> (r: bool)
        ensures
            r == length_finite(self),
    {
        match self {
            Length::Px(v) => v.is_finite(),
            Length::Fraction(v) => v.is_finite(),
            Length::Auto => true,
        }
    }

    /// Whether the length's number is below zero (`Auto` never is).
    pub fn is_negative(self) -> (r: bool)
        ensures
            r == length_negative(self),
    {
        match self {
            Length::Px(v) => v.is_negative(),
            Length::Fraction(v) => v.is_negative(),
            Length::Auto => false,
        }
    }
}

/// Which point of the parent a widget's offset is measured from.
#[derive(Clone, Copy, PartialEq, Eq, Structural, Debug)]
pub enum Anchor {
    TopLeft,
    TopCenter,
    TopRight,
    CenterLeft,
    Center,
    CenterRight,
    BottomLeft,
    BottomCenter,
    BottomRight,
}

impl Default for Anchor {
    fn default() -> (r: Self)
        ensures
            r == Anchor::TopLeft,
    {
        Anchor::TopLeft
    }
}

/// How a widget arranges its children.
#[derive(Clone, Copy, PartialEq, Eq, Structural, Debug)]
pub enum Flow {
    Row,
    Column,
    Stack,
}

impl Default for Flow {
    fn default() -> (r: Self)
        ensures
            r == Flow::Column,
    {
        Flow::Column
    }
}

/// Where a widget sits and how it lays out its children.
#[derive(Clone, Copy, PartialEq, Debug)]
pub struct Layout {
    pub anchor: Anchor,
    pub offset: [Length; 2],
    pub size: [Length; 2],
    pub flow: Flow,
    pub gap: Scalar,
    pub padding: Scalar,
}

impl Layout {
    /// The default layout: top-left, no offset, sized to content, a column
    /// with no gap or padding.
    pub open spec fn default_spec() -> Layout {
        Layout {
            anchor: Anchor::TopLeft,
            offset: [Length::Auto, Length::Auto],
            size: [Length::Auto, Length::Auto],
            flow: Flow::Column,
            gap: Scalar::zero_spec(),
            padding: Scalar::zero_spec(),
        }
    }
}

impl Default for Layout {
    /// Top-left, no offset, sized to content, a column with no gap or padding.
    fn default() -> (r: Self)
        ensures
            r == Layout::default_spec(),
            r.anchor == Anchor::TopLeft,
            r.offset@ == seq![Length::Auto, Length::Auto],
            r.size@ == seq![Length::Auto, Length::Auto],
            r.flow == Flow::Column,
            r.gap == Scalar::zero_spec(),
            r.padding == Scalar::zero_spec(),
    {
        let r = Layout {
            anchor: Anchor::TopLeft,
            offset: [Length::Auto, Length::Auto],
            size: [Length::Auto, Length::Auto],
            flow: Flow::Column,
            gap: Scalar::zero(),
            padding: Scalar::zero(),
        };
        assert(r.offset@ =~= seq![Length::Auto, Length::Auto]);
        assert(r.size@ =~= seq![Length::Auto, Length::Auto]);
        r
    }
}

/// Nine-slice insets of an image, in pixels.
#[derive(Clone, Copy, PartialEq, Debug, Default)]
pub struct Slice {
    pub left: Scalar,
    pub top: Scalar,
    pub right: Scalar,
    pub bottom: Scalar,
}

impl Slice {
    /// The four insets, left, top, right, bottom.
    pub fn edges(&self) -> (r: [Scalar; 4])
        ensures
            r@ == seq![self.left, self.top, self.right, self.bottom],
    {
        let r = [self.left, self.top, self.right, self.bottom];
        assert(r@ =~= seq![self.left, self.top, self.right, self.bottom]);
        r
    }
}

/// A widget's outline.
#[derive(Clone, Copy, PartialEq, Debug, Default)]
pub struct Border {
    pub color: [Scalar; 4],
    pub width: Scalar,
}

/// Which way a cooldown sweep turns.
#[derive(Clone, Copy, PartialEq, Eq, Structural, Debug)]
pub enum SweepDirection {
    Clockwise,
    CounterClockwise,
}

impl Default for SweepDirection {
    fn default() -> (r: Self)
        ensures
            r == SweepDirection::Clockwise,
    {
        SweepDirection::Clockwise
    }
}

/// The cooldown sweep drawn over an ability slot.
#[derive(Clone, Copy, PartialEq, Debug)]
pub struct Sweep {
    pub color: [Scalar; 4],
    pub direction: SweepDirection,
}

/// Whether all four channels of a colour are finite.
pub open spec fn rgba_finite(c: [Scalar; 4]) -> bool {
    c@[0].spec_is_finite() && c@[1].spec_is_finite() && c@[2].spec_is_finite() && c@[3].spec_is_finite()
}

/// Whether all four channels of a colour are finite.
fn check_rgba(c: &[Scalar; 4]) -> (r: bool)
    ensures
        r == rgba_finite(*c),
{
    c[0].is_finite() && c[1].is_finite() && c[2].is_finite() && c[3].is_finite()
}

impl Default for Sweep {
    /// A translucent black sweep turning clockwise: drawn unless a mod turns
    /// its alpha down to nothing.
    fn default() -> (r: Self)
        ensures
            r.color@ == seq![Scalar { bits: 0 }, Scalar { bits: 0 }, Scalar { bits: 0 }, Scalar { bits: 0x3f19_999a }],
            r.direction == SweepDirection::Clockwise,
    {
        let r = Sweep {
            color: [Scalar::from_bits(0), Scalar::from_bits(0), Scalar::from_bits(0), Scalar::from_bits(0x3f19_999a)],
            direction: SweepDirection::Clockwise,
        };
        assert(r.color@ =~= seq![Scalar { bits: 0 }, Scalar { bits: 0 }, Scalar { bits: 0 }, Scalar { bits: 0x3f19_999a }]);
        r
    }
}

impl Sweep {
    /// Whether the sweep is drawn at all: an alpha above zero.
    pub fn is_drawn(&self) -> (r: bool)
        ensures
            r == Scalar::zero_spec().spec_lt(self.color@[3]),
    {
        self.color[3].is_positive()
    }

    /// Whether every channel of the sweep's colour is finite.
    pub fn is_finite(&self) -> (r: bool)
        ensures
            r == rgba_finite(self.color),
    {
        check_rgba(&self.color)
    }
}

/// The interaction state a widget is in.
#[derive(Clone, Copy, PartialEq, Eq, Structural, Debug)]
pub enum WidgetState {
    Idle,
    Hovered,
    Pressed,
    Disabled,
}

impl Default for WidgetState {
    fn default() -> (r: Self)
        ensures
            r == WidgetState::Idle,
    {
        WidgetState::Idle
    }
}

/// What a widget looks like in one interaction state: each field, when set,
/// replaces the base style's.
#[derive(Clone, PartialEq, Debug, Default)]
pub struct StateStyle {
    pub color: Option<[Scalar; 4]>,
    pub background: Option<[Scalar; 4]>,
    pub image: Option<String>,
}

/// Whether an optional colour is absent or finite.
pub open spec fn opt_rgba_finite(c: Option<[Scalar; 4]>) -> bool {
    match c {
        Some(c) => rgba_finite(c),
        None => true,
    }
}

/// Whether a state style names an image with an empty path.
pub open spec fn state_empty_image(s: StateStyle) -> bool {
    match s.image {
        Some(p) => p@.len() == 0,
        None => false,
    }
}

/// Whether every colour a state style sets is finite.
pub open spec fn state_finite(s: StateStyle) -> bool {
    opt_rgba_finite(s.color) && opt_rgba_finite(s.background)
}

impl StateStyle {
    /// Whether this style names an image with an empty path.
    pub fn has_empty_image(&self) -> (r: bool)
        ensures
            r == state_empty_image(*self),
    {
        match &self.image {
            Some(p) => p.as_str().is_empty(),
            None => false,
        }
    }

    /// Whether every colour this style sets is finite.
    pub fn is_finite(&self) -> (r: bool)
        ensures
            r == state_finite(*self),
    {
        let a = match &self.color {
            Some(c) => check_rgba(c),
            None => true,
        };
        let b = match &self.background {
            Some(c) => check_rgba(c),
            None => true,
        };
        a && b
    }
}

/// Per-state overrides of a widget's style.
#[derive(Clone, PartialEq, Debug, Default)]
pub struct InteractionStyle {
    pub hover: Option<StateStyle>,
    pub press: Option<StateStyle>,
    pub disabled: Option<StateStyle>,
}

/// The overrides declared, in the order hover, press, disabled.
pub open spec fn declared_of(s: InteractionStyle) -> Seq<StateStyle> {
    let a = match s.hover { Some(x) => seq![x], None => Seq::empty() };
    let b = match s.press { Some(x) => seq![x], None => Seq::empty() };
    let c = match s.disabled { Some(x) => seq![x], None => Seq::empty() };
    a + b + c
}

/// The override for one state: none for `Idle`.
pub open spec fn override_for(s: InteractionStyle, state: WidgetState) -> Option<StateStyle> {
    match state {
        WidgetState::Idle => None,
        WidgetState::Hovered => s.hover,
        WidgetState::Pressed => s.press,
        WidgetState::Disabled => s.disabled,
    }
}

/// `s` with the override for `state` replaced by `o` (nothing changes for
/// `Idle`, which has none).
pub open spec fn with_override(s: InteractionStyle, state: WidgetState, o: Option<StateStyle>) -> InteractionStyle {
    match state {
        WidgetState::Idle => s,
        WidgetState::Hovered => InteractionStyle { hover: o, ..s },
        WidgetState::Pressed => InteractionStyle { press: o, ..s },
        WidgetState::Disabled => InteractionStyle { disabled: o, ..s },
    }
}

/// States never inherit from one another: the resting state has no override
/// (it is the base style), and declaring or removing one state's override
/// leaves what every other state reads unchanged — a widget with a hover style
/// and no press style presses as its base.
pub proof fn law_states_do_not_inherit(
    s: InteractionStyle,
    changed: WidgetState,
    o: Option<StateStyle>,
    state: WidgetState,
)
    ensures
        override_for(s, WidgetState::Idle) is None,
        changed != state ==> override_for(with_override(s, changed, o), state) == override_for(s, state),
{
}

/// Each interaction state reads the override declared for exactly that state:
/// hovering reads `hover`, pressing reads `press`, disabling reads `disabled`.
pub proof fn law_each_state_reads_its_own_override(
    hover: Option<StateStyle>,
    press: Option<StateStyle>,
    disabled: Option<StateStyle>,
)
    ensures
        override_for(InteractionStyle { hover, press, disabled }, WidgetState::Hovered) == hover,
        override_for(InteractionStyle { hover, press, disabled }, WidgetState::Pressed) == press,
        override_for(InteractionStyle { hover, press, disabled }, WidgetState::Disabled) == disabled,
{
}

/// What is declared for a state is what that state reads: setting the
/// override of any state but `Idle` and reading it back gives the override
/// set, so no declared override is ever lost.
pub proof fn law_a_declared_override_is_read_back(s: InteractionStyle, state: WidgetState, o: Option<StateStyle>)
    requires
        state != WidgetState::Idle,
    ensures
        override_for(with_override(s, state, o), state) == o,
{
}

/// Every override a widget declares is reached by some state, and every state
/// that finds an override finds a declared one: the states and the declared
/// overrides are the same set.
pub proof fn law_every_declared_override_is_reached(s: InteractionStyle)
    ensures
        forall|i: int| #![trigger declared_of(s)[i]] 0 <= i < declared_of(s).len() ==> exists|state: WidgetState|
            #[trigger] override_for(s, state) == Some(declared_of(s)[i]),
        forall|state: WidgetState| #[trigger] override_for(s, state) matches Some(x) ==> declared_of(s).contains(x),
{
    let d = declared_of(s);
    assert forall|i: int| #![trigger d[i]] 0 <= i < d.len() implies exists|state: WidgetState| #[trigger] override_for(
        s,
        state,
    ) == Some(d[i]) by {
        let a = match s.hover { Some(x) => seq![x], None => Seq::<StateStyle>::empty() };
        let b = match s.press { Some(x) => seq![x], None => Seq::<StateStyle>::empty() };
        let c = match s.disabled { Some(x) => seq![x], None => Seq::<StateStyle>::empty() };
        assert(d == a + b + c);
        if i < a.len() {
            assert(override_for(s, WidgetState::Hovered) == Some(d[i]));
        } else if i < a.len() + b.len() {
            assert(override_for(s, WidgetState::Pressed) == Some(d[i]));
        } else {
            assert(override_for(s, WidgetState::Disabled) == Some(d[i]));
        }
    }
    assert forall|state: WidgetState| #[trigger] override_for(s, state) is Some implies d.contains(
        override_for(s, state)->Some_0,
    ) by {
        let a = match s.hover { Some(x) => seq![x], None => Seq::<StateStyle>::empty() };
        let b = match s.press { Some(x) => seq![x], None => Seq::<StateStyle>::empty() };
        let c = match s.disabled { Some(x) => seq![x], None => Seq::<StateStyle>::empty() };
        assert(d == a + b + c);
        let x = override_for(s, state)->Some_0;
        match state {
            WidgetState::Hovered => assert(d[0] == x),
            WidgetState::Pressed => assert(d[a.len() as int] == x),
            WidgetState::Disabled => assert(d[(a.len() + b.len()) as int] == x),
            WidgetState::Idle => {},
        }
    }
}

impl InteractionStyle {
    /// The override for `state`, if declared; `Idle` has none.
    pub fn get(&self, state: WidgetState) -> (r: Option<&StateStyle>)
        ensures
            r == (match override_for(*self, state) {
                Some(x) => Some(&x),
                None => None,
            }),
    {
        match state {
            WidgetState::Idle => None,
            WidgetState::Hovered => self.hover.as_ref(),
            WidgetState::Pressed => self.press.as_ref(),
            WidgetState::Disabled => self.disabled.as_ref(),
        }
    }

    /// The declared overrides, in the order hover, press, disabled.
    pub fn declared(&self) -> (r: Vec<&StateStyle>)
        ensures
            r@.len() == declared_of(*self).len(),
            forall|i: int| 0 <= i < r@.len() ==> *r@[i] == declared_of(*self)[i],
    {
        let mut out: Vec<&StateStyle> = Vec::new();
        if let Some(x) = &self.hover {
            out.push(x);
        }
        if let Some(x) = &self.press {
            out.push(x);
        }
        if let Some(x) = &self.disabled {
            out.push(x);
        }
        proof {
            let d = declared_of(*self);
            assert(out@.len() == d.len());
            assert forall|i: int| 0 <= i < out@.len() implies *out@[i] == d[i] by {
            }
        }
        out
    }

    /// Whether any override is declared.
    pub fn any(&self) -> (r: bool)
        ensures
            r == (declared_of(*self).len() > 0),
    {
        self.hover.is_some() || self.press.is_some() || self.disabled.is_some()
    }

    /// Whether some declared override names an empty image path.
    pub fn has_empty_image(&self) -> (r: bool)
        ensures
            r == exists|i: int| 0 <= i < declared_of(*self).len() && state_empty_image(#[trigger] declared_of(*self)[i]),
    {
        let d = self.declared();
        let mut i: usize = 0;
        while i < d.len()
            invariant
                d@.len() == declared_of(*self).len(),
                forall|j: int| 0 <= j < d@.len() ==> *d@[j] == declared_of(*self)[j],
                i <= d@.len(),
                forall|j: int| 0 <= j < i ==> !state_empty_image(#[trigger] declared_of(*self)[j]),
            decreases d@.len() - i,
        {
            if d[i].has_empty_image() {
                return true;
            }
            i = i + 1;
        }
        false
    }

    /// Whether every declared override's colours are finite.
    pub fn is_finite(&self) -> (r: bool)
        ensures
            r == forall|i: int| 0 <= i < declared_of(*self).len() ==> state_finite(#[trigger] declared_of(*self)[i]),
    {
        let d = self.declared();
        let mut i: usize = 0;
        while i < d.len()
            invariant
                d@.len() == declared_of(*self).len(),
                forall|j: int| 0 <= j < d@.len() ==> *d@[j] == declared_of(*self)[j],
                i <= d@.len(),
                forall|j: int| 0 <= j < i ==> state_finite(#[trigger] declared_of(*self)[j]),
            decreases d@.len() - i,
        {
            if !d[i].is_finite() {
                return false;
            }
            i = i + 1;
        }
        true
    }
}

/// How a widget is painted.
#[derive(Clone, PartialEq, Debug)]
pub struct Style {
    pub color: [Scalar; 4],
    pub background: [Scalar; 4],
    pub border: Border,
    pub font_size: Scalar,
    pub font: Option<String>,
    pub image: Option<String>,
    pub slice: Option<Slice>,
    pub flip_x: bool,
    pub flip_y: bool,
    pub states: InteractionStyle,
    pub sweep: Sweep,
    pub anim: Vec<UiTrack>,
    pub transition: Option<UiTransition>,
}

/// The text of an optional string.
pub open spec fn opt_text(s: Option<String>) -> Option<Seq<char>> {
    match s {
        Some(s) => Some(s@),
        None => None,
    }
}

/// A copy of an optional string.
fn clone_opt_string(s: &Option<String>) -> (r: Option<String>)
    ensures
        opt_text(r) == opt_text(*s),
{
    match s {
        Some(x) => Some(x.clone()),
        None => None,
    }
}

/// Whether two state styles hold the same colours and image text.
pub open spec fn state_same(a: StateStyle, b: StateStyle) -> bool {
    a.color == b.color && a.background == b.background && opt_text(a.image) == opt_text(b.image)
}

/// Whether two optional state styles hold the same contents.
pub open spec fn opt_state_same(a: Option<StateStyle>, b: Option<StateStyle>) -> bool {
    match (a, b) {
        (Some(x), Some(y)) => state_same(x, y),
        (None, None) => true,
        _ => false,
    }
}

fn clone_state(s: &Option<StateStyle>) -> (r: Option<StateStyle>)
    ensures
        opt_state_same(r, *s),
{
    match s {
        Some(x) => Some(StateStyle { color: x.color, background: x.background, image: clone_opt_string(&x.image) }),
        None => None,
    }
}

/// Whether two tracks hold the same declaration.
pub open spec fn track_same(a: UiTrack, b: UiTrack) -> bool {
    a.property == b.property && a.on == b.on && a.playback == b.playback && a.keys@ == b.keys@
}

fn clone_tracks(v: &Vec<UiTrack>) -> (r: Vec<UiTrack>)
    ensures
        r@.len() == v@.len(),
        forall|i: int| 0 <= i < v@.len() ==> track_same(#[trigger] r@[i], v@[i]),
{
    let mut out: Vec<UiTrack> = Vec::new();
    let mut i: usize = 0;
    while i < v.len()
        invariant
            i <= v@.len(),
            out@.len() == i,
            forall|j: int| 0 <= j < i ==> track_same(#[trigger] out@[j], v@[j]),
        decreases v@.len() - i,
    {
        let t = &v[i];
        let mut keys = Vec::new();
        let mut k: usize = 0;
        while k < t.keys.len()
            invariant
                k <= t.keys@.len(),
                keys@ == t.keys@.take(k as int),
            decreases t.keys@.len() - k,
        {
            keys.push(t.keys[k]);
            k = k + 1;
        }
        assert(t.keys@.take(t.keys@.len() as int) =~= t.keys@);
        out.push(UiTrack { property: t.property, on: t.on, playback: t.playback, keys });
        i = i + 1;
    }
    out
}

/// Whether `s` is the default style: opaque white text at 16 px on a
/// transparent background, no border, no image, no overrides, the default
/// sweep, no animation.
pub open spec fn is_default_style(s: Style) -> bool {
    &&& s.color@ == seq![Scalar { bits: 0x3f80_0000 }, Scalar { bits: 0x3f80_0000 }, Scalar { bits: 0x3f80_0000 }, Scalar { bits: 0x3f80_0000 }]
    &&& s.background@ == seq![Scalar { bits: 0 }, Scalar { bits: 0 }, Scalar { bits: 0 }, Scalar { bits: 0 }]
    &&& s.border.color@ == seq![Scalar { bits: 0 }, Scalar { bits: 0 }, Scalar { bits: 0 }, Scalar { bits: 0 }]
    &&& s.border.width == Scalar::zero_spec()
    &&& s.font_size == (Scalar { bits: 0x4180_0000 })
    &&& s.font is None
    &&& s.image is None
    &&& s.slice is None
    &&& !s.flip_x
    &&& !s.flip_y
    &&& s.states.hover is None && s.states.press is None && s.states.disabled is None
    &&& s.sweep.color@ == seq![Scalar { bits: 0 }, Scalar { bits: 0 }, Scalar { bits: 0 }, Scalar { bits: 0x3f19_999a }]
    &&& s.sweep.direction == SweepDirection::Clockwise
    &&& s.anim@.len() == 0
    &&& s.transition is None
}

impl Default for Style {
    /// Opaque white text at 16 px on a transparent background, no border, no
    /// image, no overrides, the default sweep, no animation.
    fn default() -> (r: Self)
        ensures
            r.color@ == seq![Scalar { bits: 0x3f80_0000 }, Scalar { bits: 0x3f80_0000 }, Scalar { bits: 0x3f80_0000 }, Scalar { bits: 0x3f80_0000 }],
            r.background@ == seq![Scalar { bits: 0 }, Scalar { bits: 0 }, Scalar { bits: 0 }, Scalar { bits: 0 }],
            r.border.color@ == seq![Scalar { bits: 0 }, Scalar { bits: 0 }, Scalar { bits: 0 }, Scalar { bits: 0 }],
            r.border.width == Scalar::zero_spec(),
            r.font_size == (Scalar { bits: 0x4180_0000 }),
            r.font is None,
            r.image is None,
            r.slice is None,
            !r.flip_x,
            !r.flip_y,
            r.states.hover is None && r.states.press is None && r.states.disabled is None,
            r.sweep.color@ == seq![Scalar { bits: 0 }, Scalar { bits: 0 }, Scalar { bits: 0 }, Scalar { bits: 0x3f19_999a }],
            r.sweep.direction == SweepDirection::Clockwise,
            r.anim@.len() == 0,
            r.transition is None,
    {
        let one = Scalar::from_bits(0x3f80_0000);
        let zero = Scalar::zero();
        let r = Style {
            color: [one, one, one, one],
            background: [zero, zero, zero, zero],
            border: Border { color: [zero, zero, zero, zero], width: zero },
            font_size: Scalar::from_bits(0x4180_0000),
            font: None,
            image: None,
            slice: None,
            flip_x: false,
            flip_y: false,
            states: InteractionStyle { hover: None, press: None, disabled: None },
            sweep: Sweep::default(),
            anim: Vec::new(),
            transition: None,
        };
        assert(r.color@ =~= seq![one, one, one, one]);
        assert(r.background@ =~= seq![zero, zero, zero, zero]);
        assert(r.border.color@ =~= seq![zero, zero, zero, zero]);
        r
    }
}

impl Style {
    /// This style as drawn in `state`: the state's override, if declared,
    /// replaces the colour, background and image it sets; everything else is
    /// the base style's.
    pub fn resolve(&self, state: WidgetState) -> (r: Self)
        ensures
            r.color == (match override_for(self.states, state) {
                Some(o) => match o.color { Some(c) => c, None => self.color },
                None => self.color,
            }),
            r.background == (match override_for(self.states, state) {
                Some(o) => match o.background { Some(c) => c, None => self.background },
                None => self.background,
            }),
            opt_text(r.image) == (match override_for(self.states, state) {
                Some(o) => match o.image { Some(i) => Some(i@), None => opt_text(self.image) },
                None => opt_text(self.image),
            }),
            r.border == self.border,
            r.font_size == self.font_size,
            opt_text(r.font) == opt_text(self.font),
            r.slice == self.slice,
            r.flip_x == self.flip_x,
            r.flip_y == self.flip_y,
            opt_state_same(r.states.hover, self.states.hover),
            opt_state_same(r.states.press, self.states.press),
            opt_state_same(r.states.disabled, self.states.disabled),
            r.sweep == self.sweep,
            r.anim@.len() == self.anim@.len(),
            forall|i: int| 0 <= i < self.anim@.len() ==> track_same(#[trigger] r.anim@[i], self.anim@[i]),
            r.transition == self.transition,
    {
        let mut out = Style {
            color: self.color,
            background: self.background,
            border: self.border,
            font_size: self.font_size,
            font: clone_opt_string(&self.font),
            image: clone_opt_string(&self.image),
            slice: self.slice,
            flip_x: self.flip_x,
            flip_y: self.flip_y,
            states: InteractionStyle {
                hover: clone_state(&self.states.hover),
                press: clone_state(&self.states.press),
                disabled: clone_state(&self.states.disabled),
            },
            sweep: self.sweep,
            anim: clone_tracks(&self.anim),
            transition: self.transition,
        };
        match self.states.get(state) {
            None => out,
            Some(over) => {
                if let Some(color) = over.color {
                    out.color = color;
                }
                if let Some(background) = over.background {
                    out.background = background;
                }
                if let Some(image) = &over.image {
                    out.image = Some(image.clone());
                }
                out
            },
        }
    }
}

/// A number a widget shows, bound to game state.
#[derive(Clone, Copy, PartialEq, Eq, Structural, Debug)]
pub enum ValueBinding {
    Health,
    Pool(PoolRef),
    Stat(StatId),
    Level,
    CastProgress,
    Event(EventQuantity),
}

/// Which part of a bound value is shown.
#[derive(Clone, Copy, PartialEq, Eq, Structural, Debug)]
pub enum ValuePart {
    Current,
    Max,
    Fraction,
}

impl Default for ValuePart {
    fn default() -> (r: Self)
        ensures
            r == ValuePart::Current,
    {
        ValuePart::Current
    }
}

/// A list a widget shows, bound to talent state.
#[derive(Clone, Copy, PartialEq, Eq, Structural, Debug)]
pub enum ListBinding {
    ChosenTalents,
    TierOptions(u8),
}

/// Which text of a talent is shown.
#[derive(Clone, Copy, PartialEq, Eq, Structural, Debug)]
pub enum TalentText {
    Name,
    Description,
}

impl Default for TalentText {
    fn default() -> (r: Self)
        ensures
            r == TalentText::Name,
    {
        TalentText::Name
    }
}

/// Where a text widget's text comes from.
#[derive(PartialEq, Debug)]
pub enum TextSource {
    Literal(String),
    Value { binding: ValueBinding, part: ValuePart, decimals: u8 },
    List(ListBinding),
    Talent { tier: u8, option: u8, field: TalentText },
}

/// What pressing a widget does.
#[derive(Clone, Copy, PartialEq, Eq, Structural, Debug)]
pub enum UiAction {
    CastSlot(Slot),
    PickTalent { tier: u8, option: u8 },
    Trigger { event: EventId },
}

/// What a widget is.
#[derive(PartialEq, Debug)]
pub enum WidgetKind {
    Panel { children: Vec<Widget> },
    Text { text: TextSource },
    Bar { value: ValueBinding },
    Icon,
    Button { action: UiAction, children: Vec<Widget> },
    AbilitySlot { slot: Slot, key_hint: String },
    TalentIcon { tier: u8, option: u8 },
}

/// The children a widget kind holds: a panel's or a button's, none otherwise.
pub open spec fn children_of(kind: WidgetKind) -> Seq<Widget> {
    match kind {
        WidgetKind::Panel { children } => children@,
        WidgetKind::Button { children, .. } => children@,
        _ => Seq::empty(),
    }
}

impl WidgetKind {
    /// The widgets this kind holds (empty for the leaf kinds).
    pub fn children(&self) -> (r: &[Widget])
        ensures
            r@ == children_of(*self),
    {
        match self {
            WidgetKind::Panel { children } => children.as_slice(),
            WidgetKind::Button { children, .. } => children.as_slice(),
            _ => &[],
        }
    }

    /// What pressing this widget does: a button's action, an ability slot's
    /// cast, nothing for the rest.
    pub fn action(&self) -> (r: Option<UiAction>)
        ensures
            r == (match *self {
                WidgetKind::Button { action, .. } => Some(action),
                WidgetKind::AbilitySlot { slot, .. } => Some(UiAction::CastSlot(slot)),
                _ => None,
            }),
    {
        match self {
            WidgetKind::Button { action, .. } => Some(*action),
            WidgetKind::AbilitySlot { slot, .. } => Some(UiAction::CastSlot(*slot)),
            _ => None,
        }
    }
}

/// One node of a HUD tree.
#[derive(PartialEq, Debug)]
pub struct Widget {
    pub name: String,
    pub layout: Layout,
    pub style: Style,
    pub kind: WidgetKind,
}

/// Whether two styles hold the same contents: every number, switch and
/// setting equal, the same font and image text, the same state overrides and
/// the same tracks.
pub open spec fn style_same(a: Style, b: Style) -> bool {
    &&& a.color == b.color
    &&& a.background == b.background
    &&& a.border == b.border
    &&& a.font_size == b.font_size
    &&& opt_text(a.font) == opt_text(b.font)
    &&& opt_text(a.image) == opt_text(b.image)
    &&& a.slice == b.slice
    &&& a.flip_x == b.flip_x
    &&& a.flip_y == b.flip_y
    &&& opt_state_same(a.states.hover, b.states.hover)
    &&& opt_state_same(a.states.press, b.states.press)
    &&& opt_state_same(a.states.disabled, b.states.disabled)
    &&& a.sweep == b.sweep
    &&& a.anim@.len() == b.anim@.len()
    &&& forall|i: int| 0 <= i < a.anim@.len() ==> track_same(#[trigger] a.anim@[i], b.anim@[i])
    &&& a.transition == b.transition
}

/// A copy of a style holding the same contents.
fn clone_style(s: &Style) -> (r: Style)
    ensures
        style_same(r, *s),
{
    Style {
        color: s.color,
        background: s.background,
        border: s.border,
        font_size: s.font_size,
        font: clone_opt_string(&s.font),
        image: clone_opt_string(&s.image),
        slice: s.slice,
        flip_x: s.flip_x,
        flip_y: s.flip_y,
        states: InteractionStyle {
            hover: clone_state(&s.states.hover),
            press: clone_state(&s.states.press),
            disabled: clone_state(&s.states.disabled),
        },
        sweep: s.sweep,
        anim: clone_tracks(&s.anim),
        transition: s.transition,
    }
}

impl Clone for TextSource {
    /// A copy holding the same contents.
    fn clone(&self) -> (r: Self)
        ensures
            match (r, *self) {
                (TextSource::Literal(a), TextSource::Literal(b)) => a@ == b@,
                (x, y) => x == y,
            },
    {
        match self {
            TextSource::Literal(s) => TextSource::Literal(s.clone()),
            TextSource::Value { binding, part, decimals } => TextSource::Value {
                binding: *binding,
                part: *part,
                decimals: *decimals,
            },
            TextSource::List(l) => TextSource::List(*l),
            TextSource::Talent { tier, option, field } => TextSource::Talent { tier: *tier, option: *option, field: *field },
        }
    }
}

impl Clone for WidgetKind {
    /// A copy holding the same contents.
    fn clone(&self) -> (r: Self)
        ensures
            widget_kind_same(r, *self),
        decreases self,
    {
        proof {
            self.lemma_same_refl(&KeepIds);
        }
        match self {
            WidgetKind::Panel { children } => WidgetKind::Panel { children: clone_widgets(children) },
            WidgetKind::Text { text } => WidgetKind::Text { text: text.clone() },
            WidgetKind::Bar { value } => WidgetKind::Bar { value: *value },
            WidgetKind::Icon => WidgetKind::Icon,
            WidgetKind::Button { action, children } => WidgetKind::Button {
                action: *action,
                children: clone_widgets(children),
            },
            WidgetKind::AbilitySlot { slot, key_hint } => WidgetKind::AbilitySlot { slot: *slot, key_hint: key_hint.clone() },
            WidgetKind::TalentIcon { tier, option } => WidgetKind::TalentIcon { tier: *tier, option: *option },
        }
    }
}

impl Clone for Widget {
    /// A copy holding the same contents.
    fn clone(&self) -> (r: Self)
        ensures
            widget_same(r, *self),
        decreases self,
    {
        Widget { name: self.name.clone(), layout: self.layout, style: clone_style(&self.style), kind: self.kind.clone() }
    }
}

/// A copy of every widget in `v`, in order.
fn clone_widgets(v: &Vec<Widget>) -> (r: Vec<Widget>)
    ensures
        widgets_same(r@, v@),
    decreases v,
{
    let mut out: Vec<Widget> = Vec::new();
    let mut i: usize = 0;
    while i < v.len()
        invariant
            i <= v@.len(),
            widgets_same(out@, v@.take(i as int)),
        decreases v@.len() - i,
    {
        proof {
            assert(decreases_to!(v => v@));
            assert(decreases_to!(v@ => v@[i as int]));
        }
        let c = v[i].clone();
        let ghost before = out@;
        out.push(c);
        assert forall|k: int| 0 <= k < out@.len() implies widget_same(#[trigger] out@[k], v@.take(i + 1)[k]) by {
            if k < i {
                assert(widget_same(before[k], v@.take(i as int)[k]));
            }
        }
        i = i + 1;
    }
    assert(v@.take(i as int) =~= v@);
    out
}

/// When a root is on screen.
#[derive(Clone, Copy, PartialEq, Debug)]
pub enum RootVisibility {
    Always,
    WhileTalentPending,
    WhileUnitHovered,
    /// Spawned by an occurrence, for `seconds`, sharing roots per `coalesce`.
    OnEvent { event: UiEvent, seconds: Scalar, coalesce: Coalesce },
}

impl Default for RootVisibility {
    fn default() -> (r: Self)
        ensures
            r == RootVisibility::Always,
    {
        RootVisibility::Always
    }
}

impl RootVisibility {
    /// The occurrence that spawns the root, if one does.
    pub fn occurrence(self) -> (r: Option<UiEvent>)
        ensures
            r == (match self {
                RootVisibility::OnEvent { event, .. } => Some(event),
                _ => None,
            }),
    {
        match self {
            RootVisibility::OnEvent { event, .. } => Some(event),
            _ => None,
        }
    }

    /// How long a spawned root lives; `0.0` for a root that is not spawned.
    pub fn lifetime(self) -> (r: Scalar)
        ensures
            r == (match self {
                RootVisibility::OnEvent { seconds, .. } => seconds,
                _ => Scalar::zero_spec(),
            }),
    {
        match self {
            RootVisibility::OnEvent { seconds, .. } => seconds,
            _ => Scalar::zero(),
        }
    }

    /// How spawned roots share; `Never` for a root that is not spawned.
    pub fn coalesce(self) -> (r: Coalesce)
        ensures
            r == (match self {
                RootVisibility::OnEvent { coalesce, .. } => coalesce,
                _ => Coalesce::Never,
            }),
    {
        match self {
            RootVisibility::OnEvent { coalesce, .. } => coalesce,
            _ => Coalesce::Never,
        }
    }
}

/// Whether a root waits on the summon input.
#[derive(Clone, Copy, PartialEq, Eq, Structural, Debug)]
pub enum SummonGate {
    Ignored,
    Held,
    Released,
}

impl Default for SummonGate {
    fn default() -> (r: Self)
        ensures
            r == SummonGate::Ignored,
    {
        SummonGate::Ignored
    }
}

/// Whose state a root's bindings read.
#[derive(Clone, Copy, PartialEq, Eq, Structural, Debug)]
pub enum UiSubject {
    LocalPlayer,
    HoveredUnit,
    EachUnit,
}

impl Default for UiSubject {
    fn default() -> (r: Self)
        ensures
            r == UiSubject::LocalPlayer,
    {
        UiSubject::LocalPlayer
    }
}

/// A named widget tree and when it is shown.
#[derive(Clone, PartialEq, Debug)]
pub struct UiRoot {
    pub name: String,
    pub when: RootVisibility,
    pub summon: SummonGate,
    pub subject: UiSubject,
    pub root: Widget,
}

/// Why a [`UiRoot`] cannot be drawn as declared. `widget` is the widget's
/// number in depth-first pre-order.
#[derive(Clone, Copy, PartialEq, Eq, Structural, Debug)]
pub enum UiError {
    EmptyRootName,
    SubjectNeverPresent,
    TooDeep { widget: u16 },
    TooManyWidgets,
    IconWithoutImage { widget: u16 },
    EmptyImagePath { widget: u16 },
    NonFinite { widget: u16 },
    NegativeMetric { widget: u16 },
    BadTrack { widget: u16, track: u16, fault: TrackFault },
    TooManyTracks { widget: u16 },
    BadTransition { widget: u16 },
    BadEventLifetime,
}

/// Whether every number in a widget's layout and style is finite.
pub open spec fn widget_finite(w: Widget) -> bool {
    let l = w.layout;
    let s = w.style;
    &&& length_finite(l.offset@[0]) && length_finite(l.offset@[1])
    &&& length_finite(l.size@[0]) && length_finite(l.size@[1])
    &&& l.gap.spec_is_finite() && l.padding.spec_is_finite()
    &&& rgba_finite(s.color) && rgba_finite(s.background) && rgba_finite(s.border.color)
    &&& s.border.width.spec_is_finite() && s.font_size.spec_is_finite()
    &&& match s.slice {
        Some(sl) => sl.left.spec_is_finite() && sl.top.spec_is_finite() && sl.right.spec_is_finite()
            && sl.bottom.spec_is_finite(),
        None => true,
    }
    &&& forall|i: int| 0 <= i < declared_of(s.states).len() ==> state_finite(#[trigger] declared_of(s.states)[i])
    &&& rgba_finite(s.sweep.color)
}

/// Whether a widget declares a negative extent.
pub open spec fn widget_negative(w: Widget) -> bool {
    let z = Scalar::zero_spec();
    ||| length_negative(w.layout.size@[0]) || length_negative(w.layout.size@[1])
    ||| w.layout.gap.spec_lt(z) || w.layout.padding.spec_lt(z)
    ||| w.style.border.width.spec_lt(z) || w.style.font_size.spec_lt(z)
    ||| match w.style.slice {
        Some(sl) => sl.left.spec_lt(z) || sl.top.spec_lt(z) || sl.right.spec_lt(z) || sl.bottom.spec_lt(z),
        None => false,
    }
}

/// The first faulty track from `t` on.
pub open spec fn tracks_from(tracks: Seq<UiTrack>, t: int, widget: u16) -> Result<(), UiError>
    decreases tracks.len() - t,
{
    if t < 0 || t >= tracks.len() {
        Ok(())
    } else if track_fault(tracks[t]) is Some {
        Err(UiError::BadTrack { widget, track: t as u16, fault: track_fault(tracks[t])->Some_0 })
    } else {
        tracks_from(tracks, t + 1, widget)
    }
}

/// The verdict on a widget's animation: at most [`MAX_UI_TRACKS`] tracks, each
/// playable, and a runnable catch-up if one is declared.
pub open spec fn animation_fault_spec(w: Widget, index: u16) -> Result<(), UiError> {
    if w.style.anim@.len() > MAX_UI_TRACKS {
        Err(UiError::TooManyTracks { widget: index })
    } else if tracks_from(w.style.anim@, 0, index) is Err {
        tracks_from(w.style.anim@, 0, index)
    } else {
        match w.style.transition {
            Some(t) => if t.seconds.spec_is_finite() && Scalar::zero_spec().spec_le(t.seconds) {
                Ok(())
            } else {
                Err(UiError::BadTransition { widget: index })
            },
            None => Ok(()),
        }
    }
}

/// The verdict on one widget's own declaration: finite numbers, no negative
/// extents, a non-empty image path (and an image at all on an icon), no
/// override with an empty image, then its animation.
pub open spec fn widget_fault(w: Widget, index: u16) -> Result<(), UiError> {
    if !widget_finite(w) {
        Err(UiError::NonFinite { widget: index })
    } else if widget_negative(w) {
        Err(UiError::NegativeMetric { widget: index })
    } else if w.style.image matches Some(p) && p@.len() == 0 {
        Err(UiError::EmptyImagePath { widget: index })
    } else if w.style.image is None && w.kind is Icon {
        Err(UiError::IconWithoutImage { widget: index })
    } else if exists|i: int| 0 <= i < declared_of(w.style.states).len() && state_empty_image(#[trigger] declared_of(w.style.states)[i]) {
        Err(UiError::EmptyImagePath { widget: index })
    } else {
        animation_fault_spec(w, index)
    }
}

/// The widgets of a tree in depth-first pre-order, each with its depth (the
/// root at `depth`).
pub open spec fn preorder(w: Widget, depth: nat) -> Seq<(Widget, nat)>
    decreases w,
{
    seq![(w, depth)] + match w.kind {
        WidgetKind::Panel { children } => preorder_all(children@, depth + 1),
        WidgetKind::Button { children, .. } => preorder_all(children@, depth + 1),
        _ => Seq::empty(),
    }
}

/// The pre-orders of several sibling trees, one after another.
pub open spec fn preorder_all(ws: Seq<Widget>, depth: nat) -> Seq<(Widget, nat)>
    decreases ws,
{
    if ws.len() == 0 {
        Seq::empty()
    } else {
        preorder_all(ws.drop_last(), depth) + preorder(ws.last(), depth)
    }
}

/// The verdict on the widget numbered `i` at `depth`: the count limit, the
/// depth limit, then its own declaration.
pub open spec fn node_check(w: Widget, depth: nat, i: int) -> Result<(), UiError> {
    if i + 1 > MAX_UI_WIDGETS {
        Err(UiError::TooManyWidgets)
    } else if depth > MAX_UI_DEPTH {
        Err(UiError::TooDeep { widget: i as u16 })
    } else {
        widget_fault(w, i as u16)
    }
}

/// The first faulty widget of `ws`, the first of which is numbered `base`.
pub open spec fn walk(ws: Seq<(Widget, nat)>, base: int) -> Result<(), UiError>
    decreases ws.len(),
{
    if ws.len() == 0 {
        Ok(())
    } else {
        then(walk(ws.drop_last(), base), node_check(ws.last().0, ws.last().1, base + ws.len() - 1))
    }
}

/// The full verdict on a root, checks in order: a name, a subject that can be
/// present, a spawned root that lives some time, then every widget in
/// pre-order.
pub open spec fn root_check(r: UiRoot) -> Result<(), UiError> {
    if r.name@.len() == 0 {
        Err(UiError::EmptyRootName)
    } else if r.subject == UiSubject::HoveredUnit && !(r.when is WhileUnitHovered) {
        Err(UiError::SubjectNeverPresent)
    } else if r.when matches RootVisibility::OnEvent { seconds, .. } && !(seconds.spec_is_finite()
        && Scalar::zero_spec().spec_lt(seconds)) {
        Err(UiError::BadEventLifetime)
    } else {
        walk(preorder(r.root, 1), 0)
    }
}

proof fn lemma_walk_split(a: Seq<(Widget, nat)>, b: Seq<(Widget, nat)>, base: int)
    ensures
        walk(a + b, base) == then(walk(a, base), walk(b, base + a.len())),
    decreases b.len(),
{
    if b.len() == 0 {
        assert(a + b =~= a);
        assert(then(walk(a, base), Ok(())) == walk(a, base)) by {
            lemma_walk_normal(a, base);
        }
    } else {
        assert((a + b).drop_last() =~= a + b.drop_last());
        lemma_walk_split(a, b.drop_last(), base);
        lemma_walk_normal(a, base);
    }
}

proof fn lemma_walk_normal(a: Seq<(Widget, nat)>, base: int)
    ensures
        walk(a, base) is Ok ==> walk(a, base) == Ok::<(), UiError>(()),
    decreases a.len(),
{
}

proof fn lemma_walk_bound(ws: Seq<(Widget, nat)>, base: int)
    requires
        ws.len() > 0,
        walk(ws, base) is Ok,
    ensures
        base + ws.len() <= MAX_UI_WIDGETS,
{
}

proof fn lemma_preorder_all_split(s: Seq<Widget>, t: Seq<Widget>, depth: nat)
    ensures
        preorder_all(s + t, depth) == preorder_all(s, depth) + preorder_all(t, depth),
    decreases t.len(),
{
    if t.len() == 0 {
        assert(s + t =~= s);
        assert(preorder_all(s, depth) + preorder_all(t, depth) =~= preorder_all(s, depth));
    } else {
        assert((s + t).drop_last() =~= s + t.drop_last());
        lemma_preorder_all_split(s, t.drop_last(), depth);
        assert(preorder_all(s, depth) + preorder_all(t.drop_last(), depth) + preorder(t.last(), depth)
            =~= preorder_all(s, depth) + (preorder_all(t.drop_last(), depth) + preorder(t.last(), depth)));
    }
}

/// Every widget a walk passes without an error passes its own check.
proof fn lemma_walk_each(ws: Seq<(Widget, nat)>, base: int, k: int)
    requires
        walk(ws, base) is Ok,
        0 <= k < ws.len(),
    ensures
        node_check(ws[k].0, ws[k].1, base + k) is Ok,
    decreases ws.len(),
{
    if k < ws.len() - 1 {
        lemma_walk_each(ws.drop_last(), base, k);
        assert(ws.drop_last()[k] == ws[k]);
    }
}

/// A widget whose numbers are finite but one of whose extents is below zero
/// (either size, the gap, the padding, the border width, the font size or an
/// edge of its nine-slice) is refused for a negative metric, under its own
/// number.
pub proof fn law_a_negative_extent_is_refused(w: Widget, index: u16)
    requires
        widget_finite(w),
        length_negative(w.layout.size@[0]) || length_negative(w.layout.size@[1])
            || w.layout.gap.spec_lt(Scalar::zero_spec()) || w.layout.padding.spec_lt(Scalar::zero_spec())
            || w.style.border.width.spec_lt(Scalar::zero_spec()) || w.style.font_size.spec_lt(Scalar::zero_spec())
            || (w.style.slice matches Some(sl) && (sl.left.spec_lt(Scalar::zero_spec()) || sl.top.spec_lt(
            Scalar::zero_spec()) || sl.right.spec_lt(Scalar::zero_spec()) || sl.bottom.spec_lt(Scalar::zero_spec()))),
    ensures
        widget_fault(w, index) == Err::<(), UiError>(UiError::NegativeMetric { widget: index }),
{
}

/// A root that validates holds no negative extent anywhere: every widget of
/// its tree has sizes, gap, padding, border width, font size and nine-slice
/// edges of zero or more.
pub proof fn law_a_valid_root_has_no_negative_extent(r: UiRoot, k: int)
    requires
        root_check(r) is Ok,
        0 <= k < preorder(r.root, 1).len(),
    ensures
        ({
            let w = preorder(r.root, 1)[k].0;
            let z = Scalar::zero_spec();
            &&& !length_negative(w.layout.size@[0]) && !length_negative(w.layout.size@[1])
            &&& !w.layout.gap.spec_lt(z) && !w.layout.padding.spec_lt(z)
            &&& !w.style.border.width.spec_lt(z) && !w.style.font_size.spec_lt(z)
            &&& (w.style.slice matches Some(sl) ==> !sl.left.spec_lt(z) && !sl.top.spec_lt(z) && !sl.right.spec_lt(z)
                && !sl.bottom.spec_lt(z))
        }),
{
    lemma_walk_each(preorder(r.root, 1), 0, k);
}

/// Whether a widget's layout and style numbers are all finite.
fn check_finite(w: &Widget) -> (r: bool)
    ensures
        r == widget_finite(*w),
{
    let l = &w.layout;
    let s = &w.style;
    let slice_ok = match &s.slice {
        Some(sl) => sl.left.is_finite() && sl.top.is_finite() && sl.right.is_finite() && sl.bottom.is_finite(),
        None => true,
    };
    l.offset[0].is_finite() && l.offset[1].is_finite() && l.size[0].is_finite() && l.size[1].is_finite()
        && l.gap.is_finite() && l.padding.is_finite() && check_rgba(&s.color) && check_rgba(&s.background)
        && check_rgba(&s.border.color) && s.border.width.is_finite() && s.font_size.is_finite() && slice_ok
        && s.states.is_finite() && s.sweep.is_finite()
}

/// Whether a widget declares a negative extent.
fn check_negative(w: &Widget) -> (r: bool)
    ensures
        r == widget_negative(*w),
{
    let slice_neg = match &w.style.slice {
        Some(sl) => sl.left.is_negative() || sl.top.is_negative() || sl.right.is_negative() || sl.bottom.is_negative(),
        None => false,
    };
    w.layout.size[0].is_negative() || w.layout.size[1].is_negative() || w.layout.gap.is_negative()
        || w.layout.padding.is_negative() || w.style.border.width.is_negative() || w.style.font_size.is_negative()
        || slice_neg
}

/// The verdict on a widget's animation.
fn animation_fault(widget: &Widget, index: u16) -> (r: Result<(), UiError>)
    ensures
        r == animation_fault_spec(*widget, index),
{
    let n = widget.style.anim.len();
    if n > MAX_UI_TRACKS {
        return Err(UiError::TooManyTracks { widget: index });
    }
    let mut t: usize = 0;
    while t < n
        invariant
            n == widget.style.anim@.len(),
            n <= MAX_UI_TRACKS,
            t <= n,
            tracks_from(widget.style.anim@, 0, index) == tracks_from(widget.style.anim@, t as int, index),
        decreases n - t,
    {
        match widget.style.anim[t].fault() {
            Some(fault) => {
                return Err(UiError::BadTrack { widget: index, track: t as u16, fault });
            },
            None => {},
        }
        t = t + 1;
    }
    match widget.style.transition {
        Some(tr) => if tr.is_usable() {
            Ok(())
        } else {
            Err(UiError::BadTransition { widget: index })
        },
        None => Ok(()),
    }
}

/// The verdict on one widget's own declaration.
fn check_widget(w: &Widget, index: u16) -> (r: Result<(), UiError>)
    ensures
        r == widget_fault(*w, index),
{
    if !check_finite(w) {
        return Err(UiError::NonFinite { widget: index });
    }
    if check_negative(w) {
        return Err(UiError::NegativeMetric { widget: index });
    }
    match &w.style.image {
        Some(path) => {
            if path.as_str().is_empty() {
                return Err(UiError::EmptyImagePath { widget: index });
            }
        },
        None => {
            if let WidgetKind::Icon = &w.kind {
                return Err(UiError::IconWithoutImage { widget: index });
            }
        },
    }
    if w.style.states.has_empty_image() {
        return Err(UiError::EmptyImagePath { widget: index });
    }
    animation_fault(w, index)
}

/// Check the tree under `w` at `depth`, its widgets numbered from `*next`.
fn check_tree(w: &Widget, depth: usize, next: &mut usize) -> (r: Result<(), UiError>)
    requires
        1 <= depth <= MAX_UI_DEPTH + 1,
        *old(next) <= MAX_UI_WIDGETS,
    ensures
        r == walk(preorder(*w, depth as nat), *old(next) as int),
        r is Ok ==> *final(next) == *old(next) + preorder(*w, depth as nat).len(),
    decreases w,
{
    let i = *next;
    let ghost kids = children_of(w.kind);
    proof {
        let node = seq![(*w, depth as nat)];
        assert(preorder(*w, depth as nat) =~= node + preorder_all(kids, depth as nat + 1));
        lemma_walk_split(node, preorder_all(kids, depth as nat + 1), i as int);
        assert(node.drop_last() =~= Seq::<(Widget, nat)>::empty());
        assert(node.last() == (*w, depth as nat));
        assert(walk(node.drop_last(), i as int) == Ok::<(), UiError>(()));
        assert(walk(node, i as int) == then(Ok(()), node_check(*w, depth as nat, i as int)));
    }
    if i + 1 > MAX_UI_WIDGETS {
        return Err(UiError::TooManyWidgets);
    }
    if depth > MAX_UI_DEPTH {
        return Err(UiError::TooDeep { widget: i as u16 });
    }
    let r = check_widget(w, i as u16);
    if r.is_err() {
        return r;
    }
    *next = i + 1;
    match &w.kind {
        WidgetKind::Panel { children } => check_trees(children, depth + 1, next),
        WidgetKind::Button { children, .. } => check_trees(children, depth + 1, next),
        _ => {
            proof {
                assert(preorder_all(kids, depth as nat + 1) =~= Seq::<(Widget, nat)>::empty());
            }
            Ok(())
        },
    }
}

/// Check sibling trees in order at `depth`, numbered from `*next`.
fn check_trees(ws: &Vec<Widget>, depth: usize, next: &mut usize) -> (r: Result<(), UiError>)
    requires
        2 <= depth <= MAX_UI_DEPTH + 1,
        *old(next) <= MAX_UI_WIDGETS,
    ensures
        r == walk(preorder_all(ws@, depth as nat), *old(next) as int),
        r is Ok ==> *final(next) == *old(next) + preorder_all(ws@, depth as nat).len(),
    decreases ws,
{
    let ghost start = *next;
    let mut k: usize = 0;
    assert(ws@.take(0) =~= Seq::<Widget>::empty());
    while k < ws.len()
        invariant
            2 <= depth <= MAX_UI_DEPTH + 1,
            start == *old(next),
            k <= ws@.len(),
            walk(preorder_all(ws@.take(k as int), depth as nat), start as int) is Ok,
            *next == start + preorder_all(ws@.take(k as int), depth as nat).len(),
            *next <= MAX_UI_WIDGETS,
        decreases ws@.len() - k,
    {
        proof {
            assert(decreases_to!(ws => ws@));
            assert(decreases_to!(ws@ => ws@[k as int]));
        }
        let ghost before = *next;
        let ghost pre = preorder_all(ws@.take(k as int), depth as nat);
        let ghost mine = preorder(ws@[k as int], depth as nat);
        proof {
            assert(ws@.take(k + 1).drop_last() =~= ws@.take(k as int));
            assert(preorder_all(ws@.take(k + 1), depth as nat) == pre + mine);
            lemma_walk_split(pre, mine, start as int);
            lemma_walk_normal(pre, start as int);
            assert(ws@.take(k + 1) + ws@.skip(k + 1) =~= ws@);
            lemma_preorder_all_split(ws@.take(k + 1), ws@.skip(k + 1), depth as nat);
            lemma_walk_split(pre + mine, preorder_all(ws@.skip(k + 1), depth as nat), start as int);
        }
        let r = check_tree(&ws[k], depth, next);
        if r.is_err() {
            return r;
        }
        proof {
            if mine.len() > 0 {
                lemma_walk_bound(mine, before as int);
            }
        }
        k = k + 1;
    }
    proof {
        assert(ws@.take(ws@.len() as int) =~= ws@);
    }
    Ok(())
}

impl UiRoot {
    /// Structural validation, run at load: a name; a root that reads the
    /// hovered unit is shown on hover; a spawned root lives a finite, positive
    /// time; and, widget by widget in depth-first pre-order, at most
    /// [`MAX_UI_WIDGETS`] widgets nested at most [`MAX_UI_DEPTH`] deep, finite
    /// numbers, no negative extents, images where they are needed, playable
    /// tracks. The first failure is reported.
    pub fn validate(&self) -> (r: Result<(), UiError>)
        ensures
            r == root_check(*self),
    {
        if self.name.as_str().is_empty() {
            return Err(UiError::EmptyRootName);
        }
        if self.subject == UiSubject::HoveredUnit {
            match self.when {
                RootVisibility::WhileUnitHovered => {},
                _ => {
                    return Err(UiError::SubjectNeverPresent);
                },
            }
        }
        match self.when {
            RootVisibility::OnEvent { seconds, .. } => {
                if !(seconds.is_finite() && seconds.is_positive()) {
                    return Err(UiError::BadEventLifetime);
                }
            },
            _ => {},
        }
        let mut next: usize = 0;
        check_tree(&self.root, 1, &mut next)
    }
}

impl UiError {
    /// The human-readable report of this refusal.
    pub open spec fn message_spec(self) -> Seq<char> {
        match self {
            UiError::EmptyRootName => "ui root has no name"@,
            UiError::SubjectNeverPresent => "ui root reads the hovered unit but is not shown on hover"@,
            UiError::TooDeep { widget } => "widget "@ + decimal(widget as nat) + " nests past the 16-level limit"@,
            UiError::TooManyWidgets => "ui root holds more than 256 widgets"@,
            UiError::IconWithoutImage { widget } => "icon "@ + decimal(widget as nat) + " names no image"@,
            UiError::EmptyImagePath { widget } => "widget "@ + decimal(widget as nat) + " names an empty image"@,
            UiError::NonFinite { widget } => "widget "@ + decimal(widget as nat) + " carries a non-finite number"@,
            UiError::NegativeMetric { widget } => "widget "@ + decimal(widget as nat) + " carries a negative extent"@,
            UiError::BadTrack { widget, track, fault } => "widget "@ + decimal(widget as nat) + ": track "@
                + decimal(track as nat) + " "@ + fault.message_spec(),
            UiError::TooManyTracks { widget } => "widget "@ + decimal(widget as nat) + " declares more than 4 tracks"@,
            UiError::BadTransition { widget } => "widget "@ + decimal(widget as nat)
                + " carries a catch-up no clock can run"@,
            UiError::BadEventLifetime => "ui root is spawned by an occurrence but lives no time"@,
        }
    }

    /// The human-readable report of this refusal.
    pub fn message(&self) -> (r: String)
        ensures
            r@ == self.message_spec(),
    {
        match self {
            UiError::EmptyRootName => owned("ui root has no name"),
            UiError::SubjectNeverPresent => owned("ui root reads the hovered unit but is not shown on hover"),
            UiError::TooDeep { widget } => widget_text("widget ", *widget, " nests past the 16-level limit"),
            UiError::TooManyWidgets => owned("ui root holds more than 256 widgets"),
            UiError::IconWithoutImage { widget } => widget_text("icon ", *widget, " names no image"),
            UiError::EmptyImagePath { widget } => widget_text("widget ", *widget, " names an empty image"),
            UiError::NonFinite { widget } => widget_text("widget ", *widget, " carries a non-finite number"),
            UiError::NegativeMetric { widget } => widget_text("widget ", *widget, " carries a negative extent"),
            UiError::BadTrack { widget, track, fault } => {
                let mut s = widget_text("widget ", *widget, ": track ");
                let t = decimal_string(*track as u64);
                push_str(&mut s, t.as_str());
                push_str(&mut s, " ");
                push_str(&mut s, fault.message());
                s
            },
            UiError::TooManyTracks { widget } => widget_text("widget ", *widget, " declares more than 4 tracks"),
            UiError::BadTransition { widget } => widget_text("widget ", *widget, " carries a catch-up no clock can run"),
            UiError::BadEventLifetime => owned("ui root is spawned by an occurrence but lives no time"),
        }
    }
}

/// `head`, the decimal spelling of `n`, then `tail`.
fn widget_text(head: &str, n: u16, tail: &str) -> (r: String)
    ensures
        r@ == head@ + decimal(n as nat) + tail@,
{
    let mut s = owned(head);
    let d = decimal_string(n as u64);
    push_str(&mut s, d.as_str());
    push_str(&mut s, tail);
    s
}

} // verus!
