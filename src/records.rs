//! Mapping of one key-value line or one comma-delimited record into typed data.
use crate::decimal::{decimal_of, Decimal};
use crate::model::{
    bool_of, mode_of, parse_bool, parse_u32, parse_u64, u32_of, u64_of, BeatmapDifficulty,
    BeatmapGeneral, BeatmapMetadata, BeatmapMode, BeatmapModeError, GeneralView, MetadataView,
    ParseError, Event, EventView, TimingPoint, HitObject, HitObjectBase,
};
use crate::text::{split, split_str, same_text, trim_quotes, trim_quotes_str};
use vstd::prelude::*;

verus! {

pub open spec fn decimal_field(v: Seq<char>) -> Result<Decimal, ParseError> {
    match decimal_of(v) {
        Some(d) => Ok(d),
        None => Err(ParseError::InvalidNumericToken),
    }
}

pub open spec fn u32_field(v: Seq<char>) -> Result<u32, ParseError> {
    match u32_of(v) {
        Some(n) => Ok(n),
        None => Err(ParseError::InvalidNumericToken),
    }
}

pub open spec fn u64_field(v: Seq<char>) -> Result<u64, ParseError> {
    match u64_of(v) {
        Some(n) => Ok(n),
        None => Err(ParseError::InvalidNumericToken),
    }
}

pub open spec fn bool_field(v: Seq<char>) -> Result<bool, ParseError> {
    match bool_of(v) {
        Some(b) => Ok(b),
        None => Err(ParseError::InvalidBooleanToken),
    }
}

pub open spec fn mode_field(v: Seq<char>) -> Result<BeatmapMode, ParseError> {
    match mode_of(v) {
        Ok(m) => Ok(m),
        Err(BeatmapModeError::Parse) => Err(ParseError::InvalidNumericToken),
        Err(BeatmapModeError::Unknown) => Err(ParseError::UnknownEnumCode),
    }
}

fn decimal_value(v: &str) -> (r: Result<Decimal, ParseError>)
    ensures
        r == decimal_field(v@),
{
    match Decimal::parse(v) {
        Some(d) => Ok(d),
        None => Err(ParseError::InvalidNumericToken),
    }
}

fn u32_value(v: &str) -> (r: Result<u32, ParseError>)
    ensures
        r == u32_field(v@),
{
    match parse_u32(v) {
        Some(n) => Ok(n),
        None => Err(ParseError::InvalidNumericToken),
    }
}

fn u64_value(v: &str) -> (r: Result<u64, ParseError>)
    ensures
        r == u64_field(v@),
{
    match parse_u64(v) {
        Some(n) => Ok(n),
        None => Err(ParseError::InvalidNumericToken),
    }
}

fn mode_value(v: &str) -> (r: Result<BeatmapMode, ParseError>)
    ensures
        r == mode_field(v@),
{
    match BeatmapMode::from_code(v) {
        Ok(m) => Ok(m),
        Err(BeatmapModeError::Parse) => Err(ParseError::InvalidNumericToken),
        Err(BeatmapModeError::Unknown) => Err(ParseError::UnknownEnumCode),
    }
}

/// The General settings after one `key: value` line; unknown keys change nothing.
pub open spec fn apply_general(g: GeneralView, k: Seq<char>, v: Seq<char>) -> Result<
    GeneralView,
    ParseError,
> {
    if k == "AudioFilename"@ {
        Ok(GeneralView { audio_filename: v, ..g })
    } else if k == "AudioLeadIn"@ {
        match u32_field(v) {
            Ok(n) => Ok(GeneralView { audio_lead_in: n, ..g }),
            Err(e) => Err(e),
        }
    } else if k == "PreviewTime"@ {
        match u32_field(v) {
            Ok(n) => Ok(GeneralView { preview_time: n, ..g }),
            Err(e) => Err(e),
        }
    } else if k == "Countdown"@ {
        match bool_field(v) {
            Ok(b) => Ok(GeneralView { countdown: b, ..g }),
            Err(e) => Err(e),
        }
    } else if k == "SampleSet"@ {
        Ok(GeneralView { sample_set: v, ..g })
    } else if k == "StackLeniency"@ {
        match decimal_field(v) {
            Ok(d) => Ok(GeneralView { stack_leniency: d, ..g }),
            Err(e) => Err(e),
        }
    } else if k == "Mode"@ {
        match mode_field(v) {
            Ok(m) => Ok(GeneralView { mode: m, ..g }),
            Err(e) => Err(e),
        }
    } else if k == "LetterboxInBreaks"@ {
        match bool_field(v) {
            Ok(b) => Ok(GeneralView { letterbox_in_breaks: b, ..g }),
            Err(e) => Err(e),
        }
    } else if k == "WidescreenStoryboard"@ {
        match bool_field(v) {
            Ok(b) => Ok(GeneralView { widescreen_storyboard: b, ..g }),
            Err(e) => Err(e),
        }
    } else {
        Ok(g)
    }
}

/// Applies one `key: value` line to the General settings.
pub fn apply_general_field(section: &mut BeatmapGeneral, k: &str, v: String) -> (r: Result<
    (),
    ParseError,
>)
    ensures
        match r {
            Ok(()) => apply_general(old(section)@, k@, v@) == Ok::<GeneralView, ParseError>(
                final(section)@,
            ),
            Err(e) => apply_general(old(section)@, k@, v@) == Err::<GeneralView, ParseError>(e),
        },
{
    if same_text(k, "AudioFilename") {
        section.audio_filename = v;
    } else if same_text(k, "AudioLeadIn") {
        section.audio_lead_in = u32_value(v.as_str())?;
    } else if same_text(k, "PreviewTime") {
        section.preview_time = u32_value(v.as_str())?;
    } else if same_text(k, "Countdown") {
        section.countdown = parse_bool(v.as_str())?;
    } else if same_text(k, "SampleSet") {
        section.sample_set = v;
    } else if same_text(k, "StackLeniency") {
        section.stack_leniency = decimal_value(v.as_str())?;
    } else if same_text(k, "Mode") {
        section.mode = mode_value(v.as_str())?;
    } else if same_text(k, "LetterboxInBreaks") {
        section.letterbox_in_breaks = parse_bool(v.as_str())?;
    } else if same_text(k, "WidescreenStoryboard") {
        section.widescreen_storyboard = parse_bool(v.as_str())?;
    }
    Ok(())
}

/// The Metadata after one `key: value` line; unknown keys change nothing.
pub open spec fn apply_metadata(m: MetadataView, k: Seq<char>, v: Seq<char>) -> Result<
    MetadataView,
    ParseError,
> {
    if k == "Title"@ {
        Ok(MetadataView { title: v, ..m })
    } else if k == "TitleUnicode"@ {
        Ok(MetadataView { title_unicode: v, ..m })
    } else if k == "Artist"@ {
        Ok(MetadataView { artist: v, ..m })
    } else if k == "ArtistUnicode"@ {
        Ok(MetadataView { artist_unicode: v, ..m })
    } else if k == "Creator"@ {
        Ok(MetadataView { creator: v, ..m })
    } else if k == "Version"@ {
        Ok(MetadataView { version: v, ..m })
    } else if k == "Source"@ {
        Ok(MetadataView { source: v, ..m })
    } else if k == "Tags"@ {
        Ok(MetadataView { tags: split(v, ' '), ..m })
    } else if k == "BeatmapID"@ {
        match u64_field(v) {
            Ok(n) => Ok(MetadataView { beatmap_id: n, ..m }),
            Err(e) => Err(e),
        }
    } else if k == "BeatmapSetID"@ {
        match u64_field(v) {
            Ok(n) => Ok(MetadataView { beatmap_set_id: n, ..m }),
            Err(e) => Err(e),
        }
    } else {
        Ok(m)
    }
}

/// Applies one `key: value` line to the Metadata.
pub fn apply_metadata_field(section: &mut BeatmapMetadata, k: &str, v: String) -> (r: Result<
    (),
    ParseError,
>)
    ensures
        match r {
            Ok(()) => apply_metadata(old(section)@, k@, v@) == Ok::<MetadataView, ParseError>(
                final(section)@,
            ),
            Err(e) => apply_metadata(old(section)@, k@, v@) == Err::<MetadataView, ParseError>(e),
        },
{
    if same_text(k, "Title") {
        section.title = v;
    } else if same_text(k, "TitleUnicode") {
        section.title_unicode = v;
    } else if same_text(k, "Artist") {
        section.artist = v;
    } else if same_text(k, "ArtistUnicode") {
        section.artist_unicode = v;
    } else if same_text(k, "Creator") {
        section.creator = v;
    } else if same_text(k, "Version") {
        section.version = v;
    } else if same_text(k, "Source") {
        section.source = v;
    } else if same_text(k, "Tags") {
        section.tags = split_str(v.as_str(), ' ');
    } else if same_text(k, "BeatmapID") {
        section.beatmap_id = u64_value(v.as_str())?;
    } else if same_text(k, "BeatmapSetID") {
        section.beatmap_set_id = u64_value(v.as_str())?;
    }
    Ok(())
}

/// The Difficulty after one `key: value` line; unknown keys change nothing.
pub open spec fn apply_difficulty(d: BeatmapDifficulty, k: Seq<char>, v: Seq<char>) -> Result<
    BeatmapDifficulty,
    ParseError,
> {
    if k == "HPDrainRate"@ {
        match decimal_field(v) {
            Ok(x) => Ok(BeatmapDifficulty { hp_drain_rate: x, ..d }),
            Err(e) => Err(e),
        }
    } else if k == "CircleSize"@ {
        match decimal_field(v) {
            Ok(x) => Ok(BeatmapDifficulty { circle_size: x, ..d }),
            Err(e) => Err(e),
        }
    } else if k == "OverallDifficulty"@ {
        match decimal_field(v) {
            Ok(x) => Ok(BeatmapDifficulty { overall_difficulty: x, ..d }),
            Err(e) => Err(e),
        }
    } else if k == "ApproachRate"@ {
        match decimal_field(v) {
            Ok(x) => Ok(BeatmapDifficulty { approach_rate: x, ..d }),
            Err(e) => Err(e),
        }
    } else if k == "SliderMultiplier"@ {
        match decimal_field(v) {
            Ok(x) => Ok(BeatmapDifficulty { slider_multiplier: x, ..d }),
            Err(e) => Err(e),
        }
    } else if k == "SliderTickRate"@ {
        match decimal_field(v) {
            Ok(x) => Ok(BeatmapDifficulty { slider_tick_rate: x, ..d }),
            Err(e) => Err(e),
        }
    } else {
        Ok(d)
    }
}

/// Applies one `key: value` line to the Difficulty.
pub fn apply_difficulty_field(section: &mut BeatmapDifficulty, k: &str, v: String) -> (r: Result<
    (),
    ParseError,
>)
    ensures
        match r {
            Ok(()) => apply_difficulty(*old(section), k@, v@) == Ok::<
                BeatmapDifficulty,
                ParseError,
            >(*final(section)),
            Err(e) => apply_difficulty(*old(section), k@, v@) == Err::<
                BeatmapDifficulty,
                ParseError,
            >(e),
        },
{
    if same_text(k, "HPDrainRate") {
        section.hp_drain_rate = decimal_value(v.as_str())?;
    } else if same_text(k, "CircleSize") {
        section.circle_size = decimal_value(v.as_str())?;
    } else if same_text(k, "OverallDifficulty") {
        section.overall_difficulty = decimal_value(v.as_str())?;
    } else if same_text(k, "ApproachRate") {
        section.approach_rate = decimal_value(v.as_str())?;
    } else if same_text(k, "SliderMultiplier") {
        section.slider_multiplier = decimal_value(v.as_str())?;
    } else if same_text(k, "SliderTickRate") {
        section.slider_tick_rate = decimal_value(v.as_str())?;
    }
    Ok(())
}

/// The event that a record's fields describe, if it is one of the modelled
/// shapes: continuation lines, wrong arities and unreadable numbers give none.
pub open spec fn event_of(f: Seq<Seq<char>>) -> Option<EventView> {
    if f.len() == 0 {
        None
    } else if f[0].len() > 0 && (f[0][0] == ' ' || f[0][0] == '_') {
        None
    } else if f[0] == "Sprite"@ {
        if f.len() != 6 || u32_of(f[4]) is None || u32_of(f[5]) is None {
            None
        } else {
            Some(
                EventView::Sprite {
                    layer: f[1],
                    origin: f[2],
                    filepath: trim_quotes(f[3]),
                    x: u32_of(f[4])->0,
                    y: u32_of(f[5])->0,
                },
            )
        }
    } else if f[0] == "Animation"@ {
        if f.len() != 9 || u32_of(f[4]) is None || u32_of(f[5]) is None || u32_of(f[6]) is None
            || u32_of(f[7]) is None {
            None
        } else {
            Some(
                EventView::Animation {
                    layer: f[1],
                    origin: f[2],
                    filepath: trim_quotes(f[3]),
                    x: u32_of(f[4])->0,
                    y: u32_of(f[5])->0,
                    frame_count: u32_of(f[6])->0,
                    frame_delay: u32_of(f[7])->0,
                    loop_type: f[8],
                },
            )
        }
    } else if f.len() != 5 {
        None
    } else {
        Some(EventView::BackgroundMedia { filepath: trim_quotes(f[3]) })
    }
}

/// Maps the fields of an Events record to an event, or to none.
pub fn event_of_fields(values: &Vec<String>) -> (r: Option<Event>)
    ensures
        match r {
            Some(e) => event_of(values.deep_view()) == Some(e@),
            None => event_of(values.deep_view()) is None,
        },
{
    let ghost f = values.deep_view();
    if values.len() == 0 {
        return None;
    }
    assert(forall|i: int| 0 <= i < values.len() ==> f[i] == (#[trigger] values@[i])@);
    let first = values[0].as_str();
    if first.unicode_len() > 0 && (first.get_char(0) == ' ' || first.get_char(0) == '_') {
        return None;
    }
    if same_text(first, "Sprite") {
        if values.len() != 6 {
            return None;
        }
        let x = parse_u32(values[4].as_str());
        let y = parse_u32(values[5].as_str());
        match (x, y) {
            (Some(x), Some(y)) => Some(
                Event::Sprite {
                    layer: values[1].clone(),
                    origin: values[2].clone(),
                    filepath: trim_quotes_str(values[3].as_str()),
                    x,
                    y,
                },
            ),
            _ => None,
        }
    } else if same_text(first, "Animation") {
        if values.len() != 9 {
            return None;
        }
        let x = parse_u32(values[4].as_str());
        let y = parse_u32(values[5].as_str());
        let frame_count = parse_u32(values[6].as_str());
        let frame_delay = parse_u32(values[7].as_str());
        match (x, y, frame_count, frame_delay) {
            (Some(x), Some(y), Some(frame_count), Some(frame_delay)) => Some(
                Event::Animation {
                    layer: values[1].clone(),
                    origin: values[2].clone(),
                    filepath: trim_quotes_str(values[3].as_str()),
                    x,
                    y,
                    frame_count,
                    frame_delay,
                    loop_type: values[8].clone(),
                },
            ),
            _ => None,
        }
    } else {
        if values.len() != 5 {
            return None;
        }
        Some(Event::BackgroundMedia { filepath: trim_quotes_str(values[3].as_str()) })
    }
}

/// The timing point that a TimingPoints record's fields describe.
pub open spec fn timing_point_of(f: Seq<Seq<char>>) -> Result<TimingPoint, ParseError> {
    if f.len() != 8 {
        Err(ParseError::MalformedTimingPointRecord)
    } else if u32_of(f[0]) is None || decimal_of(f[1]) is None || u32_of(f[2]) is None
        || u32_of(f[3]) is None || u32_of(f[4]) is None || u32_of(f[5]) is None {
        Err(ParseError::InvalidNumericToken)
    } else if bool_of(f[6]) is None || bool_of(f[7]) is None {
        Err(ParseError::InvalidBooleanToken)
    } else {
        Ok(
            TimingPoint {
                offset: u32_of(f[0])->0,
                milliseconds_per_beat: decimal_of(f[1])->0,
                meter: u32_of(f[2])->0,
                sample_type: u32_of(f[3])->0,
                sample_set: u32_of(f[4])->0,
                volume: u32_of(f[5])->0,
                inherited: !(bool_of(f[6])->0),
                kiai_mode: bool_of(f[7])->0,
            },
        )
    }
}

/// Maps the fields of a TimingPoints record to a timing point.
pub fn timing_point_of_fields(values: &Vec<String>) -> (r: Result<TimingPoint, ParseError>)
    ensures
        r == timing_point_of(values.deep_view()),
        r matches Ok(p) ==> p.milliseconds_per_beat.wf(),
{
    let ghost f = values.deep_view();
    if values.len() != 8 {
        return Err(ParseError::MalformedTimingPointRecord);
    }
    assert(forall|i: int| 0 <= i < values.len() ==> f[i] == (#[trigger] values@[i])@);
    let offset = u32_value(values[0].as_str())?;
    let milliseconds_per_beat = decimal_value(values[1].as_str())?;
    let meter = u32_value(values[2].as_str())?;
    let sample_type = u32_value(values[3].as_str())?;
    let sample_set = u32_value(values[4].as_str())?;
    let volume = u32_value(values[5].as_str())?;
    let uninherited = parse_bool(values[6].as_str())?;
    let kiai_mode = parse_bool(values[7].as_str())?;
    Ok(
        TimingPoint {
            offset,
            milliseconds_per_beat,
            meter,
            sample_type,
            sample_set,
            volume,
            inherited: !uninherited,
            kiai_mode,
        },
    )
}

/// The kind of object that a type bit field selects, tested in the fixed
/// order Circle, Slider, Spinner, LongNote; `end_time` serves a LongNote.
pub open spec fn dispatch(base: HitObjectBase, end_time: u32) -> HitObject {
    if base.object_type & 0x01 != 0 {
        HitObject::Circle { base }
    } else if base.object_type & 0x02 != 0 {
        HitObject::Slider { base, slider_type: 0, repeat: 0, edge_hitsound: 0, edge_addition: 0 }
    } else if base.object_type & 0x08 != 0 {
        HitObject::Spinner { base, end_time: 0 }
    } else if base.object_type & 0x80 != 0 {
        HitObject::LongNote { base, end_time }
    } else {
        HitObject::Other(base)
    }
}

/// The object that a HitObjects record's fields describe.
pub open spec fn hit_object_of(f: Seq<Seq<char>>) -> Result<HitObject, ParseError> {
    if f.len() < 6 {
        Err(ParseError::MalformedHitObjectRecord)
    } else if u32_of(f[0]) is None || u32_of(f[1]) is None || u32_of(f[2]) is None
        || u32_of(f[3]) is None || u32_of(f[4]) is None {
        Err(ParseError::InvalidNumericToken)
    } else {
        let base = HitObjectBase {
            x: u32_of(f[0])->0,
            y: u32_of(f[1])->0,
            time: u32_of(f[2])->0,
            object_type: u32_of(f[3])->0,
            hit_sound: u32_of(f[4])->0,
        };
        let long_note = base.object_type & 0x0b == 0 && base.object_type & 0x80 != 0;
        let end = u32_of(split(f[5], ':')[0]);
        if long_note && end is None {
            Err(ParseError::InvalidNumericToken)
        } else {
            Ok(dispatch(base, if long_note { end->0 } else { 0 }))
        }
    }
}

/// Maps the fields of a HitObjects record to an object.
pub fn hit_object_of_fields(values: &Vec<String>) -> (r: Result<HitObject, ParseError>)
    ensures
        r == hit_object_of(values.deep_view()),
{
    let ghost f = values.deep_view();
    if values.len() < 6 {
        return Err(ParseError::MalformedHitObjectRecord);
    }
    assert(forall|i: int| 0 <= i < values.len() ==> f[i] == (#[trigger] values@[i])@);
    let base = HitObjectBase {
        x: u32_value(values[0].as_str())?,
        y: u32_value(values[1].as_str())?,
        time: u32_value(values[2].as_str())?,
        object_type: u32_value(values[3].as_str())?,
        hit_sound: u32_value(values[4].as_str())?,
    };
    let t = base.object_type;
    assert(t & 0x0b == 0 <==> (t & 0x01 == 0 && t & 0x02 == 0 && t & 0x08 == 0)) by (bit_vector);
    if t & 0x01 != 0 {
        Ok(HitObject::Circle { base })
    } else if t & 0x02 != 0 {
        Ok(
            HitObject::Slider {
                base,
                slider_type: 0,
                repeat: 0,
                edge_hitsound: 0,
                edge_addition: 0,
            },
        )
    } else if t & 0x08 != 0 {
        Ok(HitObject::Spinner { base, end_time: 0 })
    } else if t & 0x80 != 0 {
        let additional = split_str(values[5].as_str(), ':');
        let end_time = u32_value(additional[0].as_str())?;
        Ok(HitObject::LongNote { base, end_time })
    } else {
        Ok(HitObject::Other(base))
    }
}

} // verus!
