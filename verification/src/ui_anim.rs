//! Widget animation — keyed tracks on a handful of visual properties, and the
//! catch-up transition a widget plays when its state changes. Sampling a track
//! is the client's floating-point work; the library holds the declarations and
//! decides whether they can run.

use vstd::prelude::*;

use crate::scalar::Scalar;
use crate::ui::WidgetState;

verus! {

/// How many tracks one widget may declare.
pub const MAX_UI_TRACKS: usize = 4;

/// How many keys one track may hold.
pub const MAX_UI_KEYS: usize = 16;

/// How a segment leaves or arrives at a key.
#[derive(Clone, Copy, PartialEq, Eq, Structural, Debug)]
pub enum Ease {
    Linear,
    Slow,
    Fast,
    Step,
}

impl Default for Ease {
    fn default() -> (r: Self)
        ensures
            r == Ease::Linear,
    {
        Ease::Linear
    }
}

/// The tangent an ease stands for at its end of a segment.
pub open spec fn slope_of(e: Ease) -> Scalar {
    match e {
        Ease::Linear => Scalar { bits: 0x3f80_0000 },
        Ease::Slow => Scalar { bits: 0 },
        Ease::Fast => Scalar { bits: 0x4000_0000 },
        Ease::Step => Scalar { bits: 0x3f80_0000 },
    }
}

impl Ease {
    /// The tangent this ease stands for: `1.0` for linear (and step), `0.0`
    /// for slow, `2.0` for fast.
    pub fn slope(self) -> (r: Scalar)
        ensures
            r == slope_of(self),
    {
        match self {
            Ease::Linear => Scalar::from_bits(0x3f80_0000),
            Ease::Slow => Scalar::from_bits(0),
            Ease::Fast => Scalar::from_bits(0x4000_0000),
            Ease::Step => Scalar::from_bits(0x3f80_0000),
        }
    }
}

/// The ease a segment leaves its first key with and arrives at its second.
#[derive(Clone, Copy, PartialEq, Eq, Structural, Debug, Default)]
pub struct Shape {
    pub leave: Ease,
    pub arrive: Ease,
}

/// A visual property a track drives.
#[derive(Clone, Copy, PartialEq, Eq, Structural, Debug)]
pub enum UiProperty {
    TranslateX,
    TranslateY,
    Scale,
    Opacity,
}

impl Default for UiProperty {
    fn default() -> (r: Self)
        ensures
            r == UiProperty::TranslateX,
    {
        UiProperty::TranslateX
    }
}

/// The value a property holds when nothing animates it.
pub open spec fn rest_of(p: UiProperty) -> Scalar {
    match p {
        UiProperty::TranslateX | UiProperty::TranslateY => Scalar { bits: 0 },
        UiProperty::Scale | UiProperty::Opacity => Scalar { bits: 0x3f80_0000 },
    }
}

impl UiProperty {
    /// The value this property holds at rest: `0.0` for translations, `1.0`
    /// for scale and opacity.
    pub fn rest(self) -> (r: Scalar)
        ensures
            r == rest_of(self),
    {
        match self {
            UiProperty::TranslateX | UiProperty::TranslateY => Scalar::from_bits(0),
            UiProperty::Scale | UiProperty::Opacity => Scalar::from_bits(0x3f80_0000),
        }
    }
}

/// What starts a track.
#[derive(Clone, Copy, PartialEq, Eq, Structural, Debug)]
pub enum UiTrigger {
    /// When the widget is built.
    Built,
    /// When the widget enters a state.
    State(WidgetState),
    /// When the widget is hidden.
    Hidden,
}

impl Default for UiTrigger {
    fn default() -> (r: Self)
        ensures
            r == UiTrigger::Built,
    {
        UiTrigger::Built
    }
}

/// How a track plays past its last key.
#[derive(Clone, Copy, PartialEq, Eq, Structural, Debug)]
pub enum Playback {
    Once,
    Loop,
    PingPong,
}

impl Default for Playback {
    fn default() -> (r: Self)
        ensures
            r == Playback::Once,
    {
        Playback::Once
    }
}

/// One key of a track: a time, a value, and how segments meet it.
#[derive(Clone, Copy, PartialEq, Debug)]
pub struct UiKey {
    pub time: Scalar,
    pub value: Scalar,
    pub arrive: Ease,
    pub leave: Ease,
}

/// A keyed animation of one property.
#[derive(Clone, PartialEq, Debug, Default)]
pub struct UiTrack {
    pub property: UiProperty,
    pub on: UiTrigger,
    pub playback: Playback,
    pub keys: Vec<UiKey>,
}

/// Why a track cannot be played as declared.
#[derive(Clone, Copy, PartialEq, Eq, Structural, Debug)]
pub enum TrackFault {
    NoKeys,
    TooManyKeys,
    NonFinite,
    NegativeTime,
    OutOfOrder,
}

/// The first faulty key from `i` on, the key before `i` having time
/// `previous`: a non-finite time or value, then a negative time, then a time
/// before the previous key's.
pub open spec fn keys_from(keys: Seq<UiKey>, i: int, previous: Scalar) -> Option<TrackFault>
    decreases keys.len() - i,
{
    if i < 0 || i >= keys.len() {
        None
    } else if !keys[i].time.spec_is_finite() || !keys[i].value.spec_is_finite() {
        Some(TrackFault::NonFinite)
    } else if keys[i].time.spec_lt(Scalar::zero_spec()) {
        Some(TrackFault::NegativeTime)
    } else if keys[i].time.spec_lt(previous) {
        Some(TrackFault::OutOfOrder)
    } else {
        keys_from(keys, i + 1, keys[i].time)
    }
}

/// `f32::NEG_INFINITY`.
pub open spec fn neg_infinity() -> Scalar {
    Scalar { bits: 0xff80_0000 }
}

/// The verdict on a track: at least one key, at most [`MAX_UI_KEYS`], every key
/// finite, none before the start, times never going backwards.
pub open spec fn track_fault(t: UiTrack) -> Option<TrackFault> {
    if t.keys@.len() == 0 {
        Some(TrackFault::NoKeys)
    } else if t.keys@.len() > MAX_UI_KEYS {
        Some(TrackFault::TooManyKeys)
    } else {
        keys_from(t.keys@, 0, neg_infinity())
    }
}

impl UiTrack {
    /// How long one pass of the track lasts: its last key's time, `0.0` with no
    /// keys.
    pub fn duration(&self) -> (r: Scalar)
        ensures
            r == (if self.keys@.len() == 0 { Scalar::zero_spec() } else { self.keys@.last().time }),
    {
        if self.keys.len() == 0 {
            Scalar::zero()
        } else {
            self.keys[self.keys.len() - 1].time
        }
    }

    /// Whether the track plays again after its last key.
    pub fn repeats(&self) -> (r: bool)
        ensures
            r == (self.playback is Loop || self.playback is PingPong),
    {
        match self.playback {
            Playback::Loop | Playback::PingPong => true,
            Playback::Once => false,
        }
    }

    /// Why this track cannot be played, or `None` if it can.
    pub fn fault(&self) -> (r: Option<TrackFault>)
        ensures
            r == track_fault(*self),
    {
        let n = self.keys.len();
        if n == 0 {
            return Some(TrackFault::NoKeys);
        }
        if n > MAX_UI_KEYS {
            return Some(TrackFault::TooManyKeys);
        }
        let mut previous = Scalar::from_bits(0xff80_0000);
        let mut i: usize = 0;
        while i < n
            invariant
                n == self.keys@.len(),
                0 < n <= MAX_UI_KEYS,
                i <= n,
                keys_from(self.keys@, 0, neg_infinity()) == keys_from(self.keys@, i as int, previous),
            decreases n - i,
        {
            let key = self.keys[i];
            if !key.time.is_finite() || !key.value.is_finite() {
                return Some(TrackFault::NonFinite);
            }
            if key.time.lt(Scalar::zero()) {
                return Some(TrackFault::NegativeTime);
            }
            if key.time.lt(previous) {
                return Some(TrackFault::OutOfOrder);
            }
            previous = key.time;
            i = i + 1;
        }
        None
    }
}

/// The catch-up a widget plays when its state changes: `seconds` long, eased
/// by `shape`.
#[derive(Clone, Copy, PartialEq, Debug, Default)]
pub struct UiTransition {
    pub seconds: Scalar,
    pub shape: Shape,
}

impl UiTransition {
    /// Whether some clock can run this catch-up: a finite, non-negative length.
    pub fn is_usable(&self) -> (r: bool)
        ensures
            r == (self.seconds.spec_is_finite() && Scalar::zero_spec().spec_le(self.seconds)),
    {
        self.seconds.is_finite() && Scalar::zero().le(self.seconds)
    }
}

impl TrackFault {
    /// The human-readable report of this fault.
    pub open spec fn message_spec(self) -> Seq<char> {
        match self {
            TrackFault::NoKeys => "has no keys"@,
            TrackFault::TooManyKeys => "holds more than 16 keys"@,
            TrackFault::NonFinite => "carries a non-finite time or value"@,
            TrackFault::NegativeTime => "carries a key before the track starts"@,
            TrackFault::OutOfOrder => "carries keys whose times go backwards"@,
        }
    }

    /// The human-readable report of this fault.
    pub fn message(&self) -> (r: &'static str)
        ensures
            r@ == self.message_spec(),
    {
        match self {
            TrackFault::NoKeys => "has no keys",
            TrackFault::TooManyKeys => "holds more than 16 keys",
            TrackFault::NonFinite => "carries a non-finite time or value",
            TrackFault::NegativeTime => "carries a key before the track starts",
            TrackFault::OutOfOrder => "carries keys whose times go backwards",
        }
    }
}


/// Whether one key can be played on its own: finite in time and value, and not
/// before the start.
pub open spec fn key_sound(k: UiKey) -> bool {
    k.time.spec_is_finite() && k.value.spec_is_finite() && !k.time.spec_lt(Scalar::zero_spec())
}

/// Whether the keys from `i` on can be played: each sound, and none before the
/// key ahead of it.
pub open spec fn keys_playable(keys: Seq<UiKey>, i: int) -> bool {
    &&& forall|j: int| i <= j < keys.len() ==> key_sound(#[trigger] keys[j])
    &&& forall|j: int| i < j < keys.len() ==> !(#[trigger] keys[j]).time.spec_lt(keys[j - 1].time)
}

#[verifier::rlimit(40)]
proof fn lemma_keys_pass_are_playable(keys: Seq<UiKey>, i: int, previous: Scalar)
    requires
        0 <= i,
        keys_from(keys, i, previous) is None,
    ensures
        keys_playable(keys, i),
        i < keys.len() ==> !keys[i].time.spec_lt(previous),
    decreases keys.len() - i,
{
    if i < keys.len() {
        lemma_keys_pass_are_playable(keys, i + 1, keys[i].time);
        assert(key_sound(keys[i]));
        assert forall|j: int| i <= j < keys.len() implies key_sound(#[trigger] keys[j]) by {
            if j > i {
                assert(i + 1 <= j);
            }
        }
        assert forall|j: int| i < j < keys.len() implies !(#[trigger] keys[j]).time.spec_lt(keys[j - 1].time) by {
            if j == i + 1 {
                assert(!keys[i + 1].time.spec_lt(keys[i].time));
            }
        }
    }
}

proof fn lemma_playable_keys_pass(keys: Seq<UiKey>, i: int, previous: Scalar)
    requires
        0 <= i,
        keys_playable(keys, i),
        i < keys.len() ==> !keys[i].time.spec_lt(previous),
    ensures
        keys_from(keys, i, previous) is None,
    decreases keys.len() - i,
{
    if i < keys.len() {
        assert(key_sound(keys[i]));
        if i + 1 < keys.len() {
            assert(!keys[i + 1].time.spec_lt(keys[i + 1 - 1].time));
        }
        lemma_playable_keys_pass(keys, i + 1, keys[i].time);
    }
}

/// No finite time is before `-inf`.
proof fn lemma_nothing_finite_precedes_neg_infinity(t: Scalar)
    requires
        t.spec_is_finite(),
    ensures
        !t.spec_lt(neg_infinity()),
{
    let b = t.bits;
    assert(((b >> 23u32) & 0xffu32) != 0xffu32 ==> (b & 0x7fff_ffffu32) < 0x7f80_0000u32) by (bit_vector);
    assert((0xff80_0000u32 & 0x7fff_ffffu32) == 0x7f80_0000u32) by (bit_vector);
    assert((0xff80_0000u32 & 0x8000_0000u32) != 0u32) by (bit_vector);
}

/// A track can be played — [`UiTrack::fault`] finds nothing — exactly when it
/// has between one and [`MAX_UI_KEYS`] keys, each finite in time and value,
/// none before the start, and the times never go backwards.
pub proof fn law_a_playable_track_has_no_fault(t: UiTrack)
    ensures
        track_fault(t) is None <==> (1 <= t.keys@.len() <= MAX_UI_KEYS && keys_playable(t.keys@, 0)),
{
    let keys = t.keys@;
    if keys_from(keys, 0, neg_infinity()) is None {
        lemma_keys_pass_are_playable(keys, 0, neg_infinity());
    }
    if keys_playable(keys, 0) && keys.len() > 0 {
        assert(key_sound(keys[0]));
        lemma_nothing_finite_precedes_neg_infinity(keys[0].time);
        lemma_playable_keys_pass(keys, 0, neg_infinity());
    }
}

} // verus!
