//! The decoded document and its parts, with their mathematical views.
use crate::decimal::Decimal;
use crate::text::{parse_unsigned, same_text, unsigned_of};
use vstd::prelude::*;

verus! {

/// Why a decode failed; the first fault found ends the decode.
#[derive(Debug, Clone, Copy, PartialEq, Eq, Structural)]
pub enum ParseError {
    EmptyInput,
    MalformedHeader,
    IoFailure,
    ExpectedSectionGotField,
    ExpectedSection,
    MalformedKeyValueField,
    MalformedTimingPointRecord,
    MalformedHitObjectRecord,
    InvalidBooleanToken,
    InvalidNumericToken,
    UnknownEnumCode,
}

/// A line source item that could not be read.
#[derive(Debug, Clone, Copy, PartialEq, Eq, Structural)]
pub struct ReadFailure;

/// Game mode.
#[derive(Debug, Clone, Copy, PartialEq, Eq, Structural)]
pub enum BeatmapMode {
    Standard,
    Taiko,
    CatchTheBeat,
    Mania,
}

/// Why a mode code was refused.
#[derive(Debug, Clone, Copy, PartialEq, Eq, Structural)]
pub enum BeatmapModeError {
    /// The token is not an unsigned 32-bit number.
    Parse,
    /// The number names no mode.
    Unknown,
}

/// The mode that a numeric code token names.
pub open spec fn mode_of(s: Seq<char>) -> Result<BeatmapMode, BeatmapModeError> {
    match unsigned_of(s, u32::MAX as nat) {
        None => Err(BeatmapModeError::Parse),
        Some(n) => if n == 0 {
            Ok(BeatmapMode::Standard)
        } else if n == 1 {
            Ok(BeatmapMode::Taiko)
        } else if n == 2 {
            Ok(BeatmapMode::CatchTheBeat)
        } else if n == 3 {
            Ok(BeatmapMode::Mania)
        } else {
            Err(BeatmapModeError::Unknown)
        },
    }
}

impl BeatmapMode {
    /// Reads a mode from its code: 0 Standard, 1 Taiko, 2 CatchTheBeat, 3 Mania.
    pub fn from_code(s: &str) -> (r: Result<BeatmapMode, BeatmapModeError>)
        ensures
            r == mode_of(s@),
    {
        match parse_unsigned(s, 0xffff_ffff) {
            None => Err(BeatmapModeError::Parse),
            Some(0) => Ok(BeatmapMode::Standard),
            Some(1) => Ok(BeatmapMode::Taiko),
            Some(2) => Ok(BeatmapMode::CatchTheBeat),
            Some(3) => Ok(BeatmapMode::Mania),
            Some(_) => Err(BeatmapModeError::Unknown),
        }
    }
}

impl Default for BeatmapMode {
    fn default() -> (r: BeatmapMode)
        ensures
            r == BeatmapMode::Standard,
    {
        BeatmapMode::Standard
    }
}

impl std::str::FromStr for BeatmapMode {
    type Err = BeatmapModeError;

    fn from_str(s: &str) -> Result<BeatmapMode, BeatmapModeError> {
        BeatmapMode::from_code(s)
    }
}

/// The boolean that a strict `0` / `1` token denotes.
pub open spec fn bool_of(s: Seq<char>) -> Option<bool> {
    if s == seq!['0'] {
        Some(false)
    } else if s == seq!['1'] {
        Some(true)
    } else {
        None
    }
}

/// Reads a boolean token: exactly `0` or `1`.
pub fn parse_bool(s: &str) -> (r: Result<bool, ParseError>)
    ensures
        r == (match bool_of(s@) {
            Some(b) => Ok(b),
            None => Err(ParseError::InvalidBooleanToken),
        }),
{
    let n = s.unicode_len();
    if n == 1 && s.get_char(0) == '0' {
        assert(s@ =~= seq!['0']);
        Ok(false)
    } else if n == 1 && s.get_char(0) == '1' {
        assert(s@ =~= seq!['1']);
        Ok(true)
    } else {
        assert(s@ != seq!['0'] && s@ != seq!['1']) by {
            if n == 1 {
                assert(seq!['0'][0] == '0');
                assert(seq!['1'][0] == '1');
            }
        }
        Err(ParseError::InvalidBooleanToken)
    }
}

/// The value of a token read as an unsigned 32-bit number.
pub open spec fn u32_of(s: Seq<char>) -> Option<u32> {
    match unsigned_of(s, u32::MAX as nat) {
        Some(n) => Some(n as u32),
        None => None,
    }
}

/// The value of a token read as an unsigned 64-bit number.
pub open spec fn u64_of(s: Seq<char>) -> Option<u64> {
    match unsigned_of(s, u64::MAX as nat) {
        Some(n) => Some(n as u64),
        None => None,
    }
}

/// Reads an unsigned decimal token that fits in 32 bits.
pub fn parse_u32(s: &str) -> (r: Option<u32>)
    ensures
        r == u32_of(s@),
{
    match parse_unsigned(s, 0xffff_ffff) {
        Some(v) => Some(v as u32),
        None => None,
    }
}

/// Reads an unsigned decimal token that fits in 64 bits.
pub fn parse_u64(s: &str) -> (r: Option<u64>)
    ensures
        r == u64_of(s@),
{
    parse_unsigned(s, 0xffff_ffff_ffff_ffff)
}

/// Global playback settings.
#[derive(Debug, Clone, PartialEq)]
pub struct BeatmapGeneral {
    pub audio_filename: String,
    pub audio_lead_in: u32,
    pub preview_time: u32,
    pub countdown: bool,
    pub sample_set: String,
    pub stack_leniency: Decimal,
    pub mode: BeatmapMode,
    pub letterbox_in_breaks: bool,
    pub widescreen_storyboard: bool,
}

/// The General settings, with text as character sequences.
pub struct GeneralView {
    pub audio_filename: Seq<char>,
    pub audio_lead_in: u32,
    pub preview_time: u32,
    pub countdown: bool,
    pub sample_set: Seq<char>,
    pub stack_leniency: Decimal,
    pub mode: BeatmapMode,
    pub letterbox_in_breaks: bool,
    pub widescreen_storyboard: bool,
}

impl View for BeatmapGeneral {
    type V = GeneralView;

    open spec fn view(&self) -> GeneralView {
        GeneralView {
            audio_filename: self.audio_filename@,
            audio_lead_in: self.audio_lead_in,
            preview_time: self.preview_time,
            countdown: self.countdown,
            sample_set: self.sample_set@,
            stack_leniency: self.stack_leniency,
            mode: self.mode,
            letterbox_in_breaks: self.letterbox_in_breaks,
            widescreen_storyboard: self.widescreen_storyboard,
        }
    }
}

/// The decimal zero.
pub open spec fn zero_decimal() -> Decimal {
    Decimal { mantissa: 0, scale: 0 }
}

/// General settings of a document with no General section.
pub open spec fn default_general() -> GeneralView {
    GeneralView {
        audio_filename: Seq::empty(),
        audio_lead_in: 0,
        preview_time: 0,
        countdown: false,
        sample_set: Seq::empty(),
        stack_leniency: zero_decimal(),
        mode: BeatmapMode::Standard,
        letterbox_in_breaks: false,
        widescreen_storyboard: false,
    }
}

impl Default for BeatmapGeneral {
    fn default() -> (r: BeatmapGeneral)
        ensures
            r@ == default_general(),
    {
        BeatmapGeneral {
            audio_filename: String::new(),
            audio_lead_in: 0,
            preview_time: 0,
            countdown: false,
            sample_set: String::new(),
            stack_leniency: Decimal::zero(),
            mode: BeatmapMode::Standard,
            letterbox_in_breaks: false,
            widescreen_storyboard: false,
        }
    }
}

/// Titles, credits, tags and identifiers.
#[derive(Debug, Clone, PartialEq, Eq)]
pub struct BeatmapMetadata {
    pub title: String,
    pub title_unicode: String,
    pub artist: String,
    pub artist_unicode: String,
    pub creator: String,
    pub version: String,
    pub source: String,
    pub tags: Vec<String>,
    pub beatmap_id: u64,
    pub beatmap_set_id: u64,
}

/// The Metadata, with text as character sequences.
pub struct MetadataView {
    pub title: Seq<char>,
    pub title_unicode: Seq<char>,
    pub artist: Seq<char>,
    pub artist_unicode: Seq<char>,
    pub creator: Seq<char>,
    pub version: Seq<char>,
    pub source: Seq<char>,
    pub tags: Seq<Seq<char>>,
    pub beatmap_id: u64,
    pub beatmap_set_id: u64,
}

impl View for BeatmapMetadata {
    type V = MetadataView;

    open spec fn view(&self) -> MetadataView {
        MetadataView {
            title: self.title@,
            title_unicode: self.title_unicode@,
            artist: self.artist@,
            artist_unicode: self.artist_unicode@,
            creator: self.creator@,
            version: self.version@,
            source: self.source@,
            tags: self.tags.deep_view(),
            beatmap_id: self.beatmap_id,
            beatmap_set_id: self.beatmap_set_id,
        }
    }
}

/// Metadata of a document with no Metadata section.
pub open spec fn default_metadata() -> MetadataView {
    MetadataView {
        title: Seq::empty(),
        title_unicode: Seq::empty(),
        artist: Seq::empty(),
        artist_unicode: Seq::empty(),
        creator: Seq::empty(),
        version: Seq::empty(),
        source: Seq::empty(),
        tags: Seq::empty(),
        beatmap_id: 0,
        beatmap_set_id: 0,
    }
}

impl Default for BeatmapMetadata {
    fn default() -> (r: BeatmapMetadata)
        ensures
            r@ == default_metadata(),
    {
        let r = BeatmapMetadata {
            title: String::new(),
            title_unicode: String::new(),
            artist: String::new(),
            artist_unicode: String::new(),
            creator: String::new(),
            version: String::new(),
            source: String::new(),
            tags: Vec::new(),
            beatmap_id: 0,
            beatmap_set_id: 0,
        };
        assert(r.tags.deep_view() =~= Seq::<Seq<char>>::empty());
        assert(r@ == default_metadata());
        r
    }
}

/// Difficulty parameters.
#[derive(Debug, Clone, Copy, PartialEq, Eq, Structural)]
pub struct BeatmapDifficulty {
    pub hp_drain_rate: Decimal,
    pub circle_size: Decimal,
    pub overall_difficulty: Decimal,
    pub approach_rate: Decimal,
    pub slider_multiplier: Decimal,
    pub slider_tick_rate: Decimal,
}

/// Difficulty of a document with no Difficulty section.
pub open spec fn default_difficulty() -> BeatmapDifficulty {
    BeatmapDifficulty {
        hp_drain_rate: zero_decimal(),
        circle_size: zero_decimal(),
        overall_difficulty: zero_decimal(),
        approach_rate: zero_decimal(),
        slider_multiplier: zero_decimal(),
        slider_tick_rate: zero_decimal(),
    }
}

impl Default for BeatmapDifficulty {
    fn default() -> (r: BeatmapDifficulty)
        ensures
            r == default_difficulty(),
    {
        BeatmapDifficulty {
            hp_drain_rate: Decimal::zero(),
            circle_size: Decimal::zero(),
            overall_difficulty: Decimal::zero(),
            approach_rate: Decimal::zero(),
            slider_multiplier: Decimal::zero(),
            slider_tick_rate: Decimal::zero(),
        }
    }
}

/// A visual event; any record kind but Sprite and Animation is background media.
#[derive(Debug, Clone, PartialEq, Eq)]
pub enum Event {
    BackgroundMedia { filepath: String },
    Sprite { layer: String, origin: String, filepath: String, x: u32, y: u32 },
    Animation {
        layer: String,
        origin: String,
        filepath: String,
        x: u32,
        y: u32,
        frame_count: u32,
        frame_delay: u32,
        loop_type: String,
    },
}

/// An event, with text as character sequences.
pub enum EventView {
    BackgroundMedia { filepath: Seq<char> },
    Sprite { layer: Seq<char>, origin: Seq<char>, filepath: Seq<char>, x: u32, y: u32 },
    Animation {
        layer: Seq<char>,
        origin: Seq<char>,
        filepath: Seq<char>,
        x: u32,
        y: u32,
        frame_count: u32,
        frame_delay: u32,
        loop_type: Seq<char>,
    },
}

impl View for Event {
    type V = EventView;

    open spec fn view(&self) -> EventView {
        match self {
            Event::BackgroundMedia { filepath } => EventView::BackgroundMedia { filepath: filepath@ },
            Event::Sprite { layer, origin, filepath, x, y } => EventView::Sprite {
                layer: layer@,
                origin: origin@,
                filepath: filepath@,
                x: *x,
                y: *y,
            },
            Event::Animation {
                layer,
                origin,
                filepath,
                x,
                y,
                frame_count,
                frame_delay,
                loop_type,
            } => EventView::Animation {
                layer: layer@,
                origin: origin@,
                filepath: filepath@,
                x: *x,
                y: *y,
                frame_count: *frame_count,
                frame_delay: *frame_delay,
                loop_type: loop_type@,
            },
        }
    }
}

/// The views of a sequence of events.
pub open spec fn events_view(v: Seq<Event>) -> Seq<EventView> {
    v.map_values(|e: Event| e@)
}

/// A tempo and volume marker. `inherited` marks a tempo relative to the point before.
#[derive(Debug, Clone, Copy, PartialEq, Eq, Structural)]
pub struct TimingPoint {
    pub offset: u32,
    pub milliseconds_per_beat: Decimal,
    /// Beats in a measure.
    pub meter: u32,
    pub sample_type: u32,
    pub sample_set: u32,
    /// Hit sound volume, 0 to 100.
    pub volume: u32,
    pub kiai_mode: bool,
    pub inherited: bool,
}

impl TimingPoint {
    /// Resolves this point against the point before it: an inherited point
    /// takes the sum of both tempos and the previous point's inherited flag;
    /// any other point is returned unchanged.
    pub fn inherit(&self, prev: &TimingPoint) -> (r: TimingPoint)
        requires
            self.milliseconds_per_beat.wf(),
            prev.milliseconds_per_beat.wf(),
            self.inherited ==> Decimal::sum_fits(
                prev.milliseconds_per_beat,
                self.milliseconds_per_beat,
            ),
        ensures
            !self.inherited ==> r == *self,
            self.inherited ==> r == (TimingPoint {
                milliseconds_per_beat: r.milliseconds_per_beat,
                inherited: prev.inherited,
                ..*self
            }),
            self.inherited ==> r.milliseconds_per_beat.mantissa == Decimal::sum_mantissa(
                prev.milliseconds_per_beat,
                self.milliseconds_per_beat,
            ),
            self.inherited ==> r.milliseconds_per_beat.scale == (if prev.milliseconds_per_beat.scale
                >= self.milliseconds_per_beat.scale {
                prev.milliseconds_per_beat.scale
            } else {
                self.milliseconds_per_beat.scale
            }),
    {
        let mut point = *self;
        if !self.inherited {
            return point;
        }
        point.milliseconds_per_beat = prev.milliseconds_per_beat.add(self.milliseconds_per_beat);
        point.inherited = prev.inherited;
        point
    }
}

/// The fields that every playable object has.
#[derive(Debug, Clone, Copy, PartialEq, Eq, Structural)]
pub struct HitObjectBase {
    /// 0 to 512.
    pub x: u32,
    /// 0 to 384.
    pub y: u32,
    /// In milliseconds.
    pub time: u32,
    /// Bit field of the object's kind.
    pub object_type: u32,
    pub hit_sound: u32,
}

/// A playable object, by the first kind bit set in its type field.
#[derive(Debug, Clone, Copy, PartialEq, Eq, Structural)]
pub enum HitObject {
    Circle { base: HitObjectBase },
    Slider {
        base: HitObjectBase,
        slider_type: u32,
        repeat: u32,
        edge_hitsound: u32,
        edge_addition: u32,
    },
    Spinner { base: HitObjectBase, end_time: u32 },
    LongNote { base: HitObjectBase, end_time: u32 },
    Other(HitObjectBase),
}

impl HitObject {
    pub open spec fn base_spec(self) -> HitObjectBase {
        match self {
            HitObject::Circle { base } => base,
            HitObject::Slider { base, .. } => base,
            HitObject::Spinner { base, .. } => base,
            HitObject::LongNote { base, .. } => base,
            HitObject::Other(base) => base,
        }
    }

    /// The fields that every kind of object has.
    pub fn base(&self) -> (r: &HitObjectBase)
        ensures
            *r == self.base_spec(),
    {
        match self {
            HitObject::Circle { base } => base,
            HitObject::Slider { base, .. } => base,
            HitObject::Spinner { base, .. } => base,
            HitObject::LongNote { base, .. } => base,
            HitObject::Other(base) => base,
        }
    }
}

/// A decoded document.
#[derive(Debug, Clone, PartialEq)]
pub struct Beatmap {
    pub general: BeatmapGeneral,
    pub metadata: BeatmapMetadata,
    pub difficulty: BeatmapDifficulty,
    pub events: Vec<Event>,
    pub timing_points: Vec<TimingPoint>,
    pub hit_objects: Vec<HitObject>,
}

/// A whole document, with text as character sequences.
pub struct BeatmapView {
    pub general: GeneralView,
    pub metadata: MetadataView,
    pub difficulty: BeatmapDifficulty,
    pub events: Seq<EventView>,
    pub timing_points: Seq<TimingPoint>,
    pub hit_objects: Seq<HitObject>,
}

impl View for Beatmap {
    type V = BeatmapView;

    open spec fn view(&self) -> BeatmapView {
        BeatmapView {
            general: self.general@,
            metadata: self.metadata@,
            difficulty: self.difficulty,
            events: events_view(self.events@),
            timing_points: self.timing_points@,
            hit_objects: self.hit_objects@,
        }
    }
}

/// The document before any section is read.
pub open spec fn default_beatmap() -> BeatmapView {
    BeatmapView {
        general: default_general(),
        metadata: default_metadata(),
        difficulty: default_difficulty(),
        events: Seq::empty(),
        timing_points: Seq::empty(),
        hit_objects: Seq::empty(),
    }
}

impl Default for Beatmap {
    fn default() -> (r: Beatmap)
        ensures
            r@ == default_beatmap(),
    {
        let r = Beatmap {
            general: BeatmapGeneral::default(),
            metadata: BeatmapMetadata::default(),
            difficulty: BeatmapDifficulty::default(),
            events: Vec::new(),
            timing_points: Vec::new(),
            hit_objects: Vec::new(),
        };
        assert(events_view(r.events@) =~= Seq::<EventView>::empty());
        assert(r.timing_points@ =~= Seq::<TimingPoint>::empty());
        assert(r.hit_objects@ =~= Seq::<HitObject>::empty());
        r
    }
}

} // verus!
