use osu_beatmap::{
    parse_bool, Beatmap, BeatmapMode, BeatmapModeError, Decimal, Event, HitObject, ParseError,
    Parser, ReadFailure, TimingPoint,
};

fn source(text: &str) -> Vec<Result<String, ReadFailure>> {
    text.lines().map(|l| Ok(l.to_string())).collect()
}

fn decode(text: &str) -> Result<Beatmap, ParseError> {
    Parser::new(source(text)).parse()
}

fn dec(mantissa: i64, scale: u32) -> Decimal {
    Decimal { mantissa, scale }
}

const HEADER: &str = "osu file format v14\n";

#[test]
fn empty_source_is_empty_input() {
    assert_eq!(decode(""), Err(ParseError::EmptyInput));
}

#[test]
fn wrong_marker_is_malformed_header() {
    assert_eq!(decode("hello\n[General]\n"), Err(ParseError::MalformedHeader));
    assert_eq!(decode("\nosu file format v14\n"), Err(ParseError::MalformedHeader));
}

#[test]
fn unreadable_first_line_is_io_failure() {
    let lines = vec![Err(ReadFailure), Ok("[General]".to_string())];
    assert_eq!(Parser::new(lines).parse(), Err(ParseError::IoFailure));
}

#[test]
fn header_alone_expects_a_section() {
    assert_eq!(decode("osu file format v14"), Err(ParseError::ExpectedSection));
}

#[test]
fn field_before_any_section_is_rejected() {
    let text = format!("{}AudioFilename: a.mp3\n", HEADER);
    assert_eq!(decode(&text), Err(ParseError::ExpectedSectionGotField));
}

#[test]
fn empty_sections_keep_defaults() {
    let text = format!(
        "{}[General]\n[Metadata]\n[Difficulty]\n[Events]\n[TimingPoints]\n[HitObjects]\n",
        HEADER
    );
    let map = decode(&text).unwrap();
    let default = Parser::new(source("osu file format v14\n[Colours]")).parse().unwrap();
    assert_eq!(map, default);
    assert_eq!(map.general.audio_filename, "");
    assert_eq!(map.general.mode, BeatmapMode::Standard);
    assert_eq!(map.general.stack_leniency, dec(0, 0));
    assert_eq!(map.metadata.beatmap_id, 0);
    assert!(map.metadata.tags.is_empty());
    assert_eq!(map.difficulty.approach_rate, dec(0, 0));
    assert!(map.events.is_empty());
    assert!(map.timing_points.is_empty());
    assert!(map.hit_objects.is_empty());
}

#[test]
fn general_section_fields() {
    let text = format!(
        "{}[General]\nAudioFilename: audio.mp3\nAudioLeadIn: 1500\nPreviewTime: 42000\nCountdown: 1\nSampleSet: Soft\nStackLeniency: 0.7\nMode: 3\nLetterboxInBreaks: 1\nWidescreenStoryboard: 0\nSomethingNew: whatever\n",
        HEADER
    );
    let g = decode(&text).unwrap().general;
    assert_eq!(g.audio_filename, "audio.mp3");
    assert_eq!(g.audio_lead_in, 1500);
    assert_eq!(g.preview_time, 42000);
    assert!(g.countdown);
    assert_eq!(g.sample_set, "Soft");
    assert_eq!(g.stack_leniency, dec(7, 1));
    assert_eq!(g.mode, BeatmapMode::Mania);
    assert!(g.letterbox_in_breaks);
    assert!(!g.widescreen_storyboard);
}

#[test]
fn metadata_section_fields() {
    let text = format!(
        "{}[Metadata]\nTitle:Song\nTitleUnicode: Sóng\nArtist: Someone\nArtistUnicode: Sómeone\nCreator: mapper\nVersion: Hard\nSource: game\nTags: foo bar baz\nBeatmapID: 123\nBeatmapSetID: 4567890123\n",
        HEADER
    );
    let m = decode(&text).unwrap().metadata;
    assert_eq!(m.title, "Song");
    assert_eq!(m.title_unicode, "Sóng");
    assert_eq!(m.artist, "Someone");
    assert_eq!(m.artist_unicode, "Sómeone");
    assert_eq!(m.creator, "mapper");
    assert_eq!(m.version, "Hard");
    assert_eq!(m.source, "game");
    assert_eq!(m.tags, vec!["foo", "bar", "baz"]);
    assert_eq!(m.beatmap_id, 123);
    assert_eq!(m.beatmap_set_id, 4567890123);
}

#[test]
fn tags_keep_order_and_duplicates() {
    let text = format!("{}[Metadata]\nTags: b a b\n", HEADER);
    let m = decode(&text).unwrap().metadata;
    assert_eq!(m.tags, vec!["b", "a", "b"]);
}

#[test]
fn value_keeps_extra_colons() {
    let text = format!("{}[Metadata]\nSource: a:b: c\n", HEADER);
    assert_eq!(decode(&text).unwrap().metadata.source, "a:b: c");
}

#[test]
fn difficulty_section_fields() {
    let text = format!(
        "{}[Difficulty]\nHPDrainRate:5\nCircleSize:4.2\nOverallDifficulty:8.5\nApproachRate:9\nSliderMultiplier:1.4\nSliderTickRate:1\n",
        HEADER
    );
    let d = decode(&text).unwrap().difficulty;
    assert_eq!(d.hp_drain_rate, dec(5, 0));
    assert_eq!(d.circle_size, dec(42, 1));
    assert_eq!(d.overall_difficulty, dec(85, 1));
    assert_eq!(d.approach_rate, dec(9, 0));
    assert_eq!(d.slider_multiplier, dec(14, 1));
    assert_eq!(d.slider_tick_rate, dec(1, 0));
}

#[test]
fn bool_tokens_are_strict() {
    assert_eq!(parse_bool("0"), Ok(false));
    assert_eq!(parse_bool("1"), Ok(true));
    assert_eq!(parse_bool("true"), Err(ParseError::InvalidBooleanToken));
    assert_eq!(parse_bool(""), Err(ParseError::InvalidBooleanToken));
}

#[test]
fn bad_boolean_value_fails_the_decode() {
    let text = format!("{}[General]\nCountdown: 2\n", HEADER);
    assert_eq!(decode(&text), Err(ParseError::InvalidBooleanToken));
}

#[test]
fn bad_number_value_fails_the_decode() {
    let text = format!("{}[General]\nAudioLeadIn: soon\n", HEADER);
    assert_eq!(decode(&text), Err(ParseError::InvalidNumericToken));
    let text = format!("{}[Difficulty]\nCircleSize: 4,5\n", HEADER);
    assert_eq!(decode(&text), Err(ParseError::InvalidNumericToken));
}

#[test]
fn unknown_mode_code_fails_the_decode() {
    let text = format!("{}[General]\nMode: 7\n", HEADER);
    assert_eq!(decode(&text), Err(ParseError::UnknownEnumCode));
}

#[test]
fn mode_codes() {
    assert_eq!(BeatmapMode::from_code("0"), Ok(BeatmapMode::Standard));
    assert_eq!(BeatmapMode::from_code("1"), Ok(BeatmapMode::Taiko));
    assert_eq!(BeatmapMode::from_code("2"), Ok(BeatmapMode::CatchTheBeat));
    assert_eq!(BeatmapMode::from_code("3"), Ok(BeatmapMode::Mania));
    assert_eq!(BeatmapMode::from_code("4"), Err(BeatmapModeError::Unknown));
    assert_eq!(BeatmapMode::from_code("x"), Err(BeatmapModeError::Parse));
    assert_eq!("2".parse::<BeatmapMode>(), Ok(BeatmapMode::CatchTheBeat));
    assert_eq!(BeatmapMode::default(), BeatmapMode::Standard);
}

#[test]
fn key_value_line_without_colon_is_malformed() {
    let text = format!("{}[General]\nAudioFilename audio.mp3\n", HEADER);
    assert_eq!(decode(&text), Err(ParseError::MalformedKeyValueField));
}

#[test]
fn comments_and_blank_lines_are_skipped() {
    let text = format!(
        "{}\n// a comment\n[General]\n   \n// AudioFilename: no.mp3\nAudioFilename: yes.mp3\n[  HitObjects  ]\n// 1,1,1,1,1,1\n64,64,100,1,0,0:0:0:0:\n",
        HEADER
    );
    let map = decode(&text).unwrap();
    assert_eq!(map.general.audio_filename, "yes.mp3");
    assert_eq!(map.hit_objects.len(), 1);
}

#[test]
fn read_failure_inside_a_section_fails() {
    let mut lines = source("osu file format v14\n[Events]");
    lines.push(Err(ReadFailure));
    assert_eq!(Parser::new(lines).parse(), Err(ParseError::IoFailure));
}

#[test]
fn read_failure_inside_unknown_section_is_discarded() {
    let mut lines = source("osu file format v14\n[Colours]\nCombo1: 1,2,3");
    lines.push(Err(ReadFailure));
    lines.push(Ok("[General]".to_string()));
    lines.push(Ok("AudioFilename: a.mp3".to_string()));
    let map = Parser::new(lines).parse().unwrap();
    assert_eq!(map.general.audio_filename, "a.mp3");
}

#[test]
fn timing_point_inherit_adds_tempo() {
    let a = TimingPoint {
        offset: 0,
        milliseconds_per_beat: Decimal::parse("500.0").unwrap(),
        meter: 4,
        sample_type: 0,
        sample_set: 0,
        volume: 100,
        kiai_mode: false,
        inherited: false,
    };
    let b = TimingPoint {
        offset: 1000,
        milliseconds_per_beat: Decimal::parse("-25.0").unwrap(),
        inherited: true,
        volume: 60,
        ..a
    };
    let r = b.inherit(&a);
    assert_eq!(r.milliseconds_per_beat, dec(4750, 1));
    assert!(!r.inherited);
    assert_eq!(r.offset, 1000);
    assert_eq!(r.volume, 60);
    assert_eq!(a.inherit(&b), a);
}

#[test]
fn inherit_aligns_scales() {
    let a = TimingPoint {
        offset: 0,
        milliseconds_per_beat: dec(3333, 1),
        meter: 4,
        sample_type: 1,
        sample_set: 1,
        volume: 70,
        kiai_mode: true,
        inherited: false,
    };
    let b = TimingPoint { milliseconds_per_beat: dec(-125, 2), inherited: true, ..a };
    assert_eq!(b.inherit(&a).milliseconds_per_beat, dec(33205, 2));
}

#[test]
fn timing_points_section() {
    let text = format!(
        "{}[TimingPoints]\n0,500,4,2,1,60,1,0\n1000,-50.5,4,2,1,60,0,1\n",
        HEADER
    );
    let tps = decode(&text).unwrap().timing_points;
    assert_eq!(tps.len(), 2);
    assert_eq!(tps[0].offset, 0);
    assert_eq!(tps[0].milliseconds_per_beat, dec(500, 0));
    assert_eq!(tps[0].meter, 4);
    assert_eq!(tps[0].sample_type, 2);
    assert_eq!(tps[0].sample_set, 1);
    assert_eq!(tps[0].volume, 60);
    assert!(!tps[0].inherited);
    assert!(!tps[0].kiai_mode);
    assert_eq!(tps[1].milliseconds_per_beat, dec(-505, 1));
    assert!(tps[1].inherited);
    assert!(tps[1].kiai_mode);
}

#[test]
fn timing_point_with_seven_fields_fails() {
    let text = format!("{}[TimingPoints]\n0,500,4,2,1,60,1\n", HEADER);
    assert_eq!(decode(&text), Err(ParseError::MalformedTimingPointRecord));
}

#[test]
fn timing_point_bad_flag_fails() {
    let text = format!("{}[TimingPoints]\n0,500,4,2,1,60,yes,0\n", HEADER);
    assert_eq!(decode(&text), Err(ParseError::InvalidBooleanToken));
}

#[test]
fn circle_bit_wins_over_slider_bit() {
    let text = format!("{}[HitObjects]\n256,192,1000,3,0,0:0:0:0:\n", HEADER);
    let objs = decode(&text).unwrap().hit_objects;
    match objs[0] {
        HitObject::Circle { base } => {
            assert_eq!(base.object_type, 3);
            assert_eq!(base.x, 256);
            assert_eq!(base.y, 192);
            assert_eq!(base.time, 1000);
        }
        other => panic!("expected a circle, got {:?}", other),
    }
}

#[test]
fn hit_object_kinds() {
    let text = format!(
        "{}[HitObjects]\n1,2,10,2,0,B|3:4,1,100\n1,2,20,12,4,3000\n1,2,30,128,0,4500:0:0:0:0:\n1,2,40,16,0,x\n",
        HEADER
    );
    let objs = decode(&text).unwrap().hit_objects;
    assert_eq!(objs.len(), 4);
    assert!(matches!(objs[0], HitObject::Slider { slider_type: 0, repeat: 0, .. }));
    assert!(matches!(objs[1], HitObject::Spinner { end_time: 0, .. }));
    assert!(matches!(objs[2], HitObject::LongNote { end_time: 4500, .. }));
    assert!(matches!(objs[3], HitObject::Other(_)));
    assert_eq!(objs[1].base().hit_sound, 4);
    assert_eq!(objs[3].base().time, 40);
}

#[test]
fn hit_object_with_five_fields_fails() {
    let text = format!("{}[HitObjects]\n1,2,10,1,0\n", HEADER);
    assert_eq!(decode(&text), Err(ParseError::MalformedHitObjectRecord));
}

#[test]
fn hit_object_bad_number_fails() {
    let text = format!("{}[HitObjects]\n1,2,ten,1,0,0\n", HEADER);
    assert_eq!(decode(&text), Err(ParseError::InvalidNumericToken));
}

#[test]
fn sprite_with_five_fields_is_skipped() {
    let text = format!("{}[Events]\nSprite,Foreground,Centre,\"a.png\",320\n", HEADER);
    let map = decode(&text).unwrap();
    assert!(map.events.is_empty());
}

#[test]
fn events_section_shapes() {
    let text = format!(
        "{}[Events]\n0,0,x,\"bg.jpg\",0\nSprite,Foreground,Centre,\"a.png\",320,240\n M,0,0,100,1,2\n_F,0,0,100,1\nAnimation,Background,TopLeft,\"b.png\",1,2,3,40,LoopOnce\nSprite,Foreground,Centre,\"c.png\",x,240\n",
        HEADER
    );
    let events = decode(&text).unwrap().events;
    assert_eq!(events.len(), 3);
    assert_eq!(events[0], Event::BackgroundMedia { filepath: "bg.jpg".to_string() });
    assert_eq!(
        events[1],
        Event::Sprite {
            layer: "Foreground".to_string(),
            origin: "Centre".to_string(),
            filepath: "a.png".to_string(),
            x: 320,
            y: 240,
        }
    );
    assert_eq!(
        events[2],
        Event::Animation {
            layer: "Background".to_string(),
            origin: "TopLeft".to_string(),
            filepath: "b.png".to_string(),
            x: 1,
            y: 2,
            frame_count: 3,
            frame_delay: 40,
            loop_type: "LoopOnce".to_string(),
        }
    );
}

#[test]
fn record_counts_with_lenient_events() {
    let text = format!(
        "{}[Events]\nSprite,Foreground,Centre,\"a.png\",320\n0,0,x,\"bg.jpg\",0\nAnimation,Background,TopLeft,\"b.png\",1,2\nSprite,Foreground,Centre,\"a.png\",320,240\n[HitObjects]\n1,1,1,1,0,0\n2,2,2,2,0,0\n3,3,3,8,0,0\n",
        HEADER
    );
    let map = decode(&text).unwrap();
    assert_eq!(map.hit_objects.len(), 3);
    assert_eq!(map.events.len(), 2);
    let bad = format!("{}[TimingPoints]\n0,500,4,2,1,60,1\n[HitObjects]\n1,1,1,1,0,0\n", HEADER);
    assert_eq!(decode(&bad), Err(ParseError::MalformedTimingPointRecord));
}

#[test]
fn unknown_section_content_is_ignored() {
    let plain = format!("{}[General]\nAudioFilename: a.mp3\n[HitObjects]\n1,1,1,1,0,0\n", HEADER);
    let with_colours = format!(
        "{}[Colours]\nCombo1 : 255,128,0\nAudioFilename: b.mp3\n1,1,1,1,0,0\nno colon here\n[General]\nAudioFilename: a.mp3\n[HitObjects]\n1,1,1,1,0,0\n",
        HEADER
    );
    assert_eq!(decode(&with_colours), decode(&plain));
    assert!(decode(&with_colours).is_ok());
}

#[test]
fn decimal_tokens() {
    assert_eq!(Decimal::parse("0.7"), Some(dec(7, 1)));
    assert_eq!(Decimal::parse("-25.0"), Some(dec(-250, 1)));
    assert_eq!(Decimal::parse("+3"), Some(dec(3, 0)));
    assert_eq!(Decimal::parse(".5"), Some(dec(5, 1)));
    assert_eq!(Decimal::parse("5."), Some(dec(5, 0)));
    assert_eq!(Decimal::parse("333.333333333333"), Some(dec(333333333333333, 12)));
    assert_eq!(Decimal::parse(""), None);
    assert_eq!(Decimal::parse("."), None);
    assert_eq!(Decimal::parse("1.2.3"), None);
    assert_eq!(Decimal::parse("1e5"), Some(dec(100000, 0)));
    assert_eq!(Decimal::parse("9223372036854775808"), None);
    assert_eq!(Decimal::parse("9223372036854775807"), Some(dec(i64::MAX, 0)));
    assert_eq!(dec(15, 1).add(dec(-2, 0)), dec(-5, 1));
}

#[test]
fn decimal_exponents() {
    assert_eq!(Decimal::parse("1e1"), Some(dec(10, 0)));
    assert_eq!(Decimal::parse("1.5E-3"), Some(dec(15, 4)));
    assert_eq!(Decimal::parse("-2.5e+2"), Some(dec(-250, 0)));
    assert_eq!(Decimal::parse("12.5e-1"), Some(dec(125, 2)));
    assert_eq!(Decimal::parse("1e-400"), Some(dec(0, 18)));
    assert_eq!(Decimal::parse("0e999999999999999999999999999999999999"), Some(dec(0, 0)));
    assert_eq!(Decimal::parse("1e-999999999999999999999999999999999999"), Some(dec(0, 18)));
    assert_eq!(Decimal::parse("1e400"), None);
    assert_eq!(Decimal::parse("1e19"), None);
    assert_eq!(Decimal::parse("1e18"), Some(dec(1_000_000_000_000_000_000, 0)));
    assert_eq!(Decimal::parse("1e"), None);
    assert_eq!(Decimal::parse("e5"), None);
    assert_eq!(Decimal::parse("1e1.5"), None);
    assert_eq!(Decimal::parse("inf"), None);
    assert_eq!(Decimal::parse("NaN"), None);
}

#[test]
fn decimal_drops_digits_beyond_eighteen_places() {
    assert_eq!(Decimal::parse("0.1234567890123456789"), Some(dec(123456789012345678, 18)));
    assert_eq!(Decimal::parse("-0.00000000000000000099"), Some(dec(0, 18)));
    assert_eq!(Decimal::parse("2.0000000000000000001"), Some(dec(2_000_000_000_000_000_000, 18)));
}

#[test]
fn exponent_values_in_sections() {
    let text = format!(
        "{}[General]\nStackLeniency: 7e-1\n[Difficulty]\nCircleSize: 1e1\n[TimingPoints]\n0,3.3e2,4,2,1,60,1,0\n",
        HEADER
    );
    let map = decode(&text).unwrap();
    assert_eq!(map.general.stack_leniency, dec(7, 1));
    assert_eq!(map.difficulty.circle_size, dec(10, 0));
    assert_eq!(map.timing_points[0].milliseconds_per_beat, dec(330, 0));
}
