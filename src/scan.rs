//! The decoding rules as spec functions: one scanner step, one section's run
//! and the whole document.
use crate::model::{
    default_beatmap, BeatmapView, ParseError, ReadFailure,
};
use crate::records::{
    apply_difficulty, apply_general, apply_metadata, event_of, hit_object_of, timing_point_of,
};
use crate::text::{has_prefix, key_value, split, trim, trim_brackets};
use vstd::prelude::*;

verus! {

/// What the line scanner finds at a position of the source.
pub enum Scanned {
    /// A trimmed line that is neither blank, a comment nor a header.
    Content(Seq<char>),
    /// A line that could not be read.
    Failure,
    /// A `[Name]` header, with the name trimmed.
    Header(Seq<char>),
    /// The end of the source.
    Exhausted,
}

/// The scanner's position, its pending section name and whether the source
/// has been exhausted.
pub struct ScanState {
    pub pos: int,
    pub section: Option<Seq<char>>,
    pub done: bool,
}

/// The section name of a header line: brackets and whitespace removed.
pub open spec fn header_name(s: Seq<char>) -> Seq<char> {
    trim(trim_brackets(s))
}

/// A line that the scanner passes over: blank after trimming, or a comment.
pub open spec fn skipped(s: Seq<char>) -> bool {
    s.len() == 0 || has_prefix(s, "//"@)
}

/// The first item at or after `pos`, and the position after it.
pub open spec fn scan(lines: Seq<Result<String, ReadFailure>>, pos: int) -> (Scanned, int)
    decreases lines.len() - pos,
{
    if pos < 0 || pos >= lines.len() {
        (Scanned::Exhausted, pos)
    } else {
        match lines[pos] {
            Err(_) => (Scanned::Failure, pos + 1),
            Ok(l) => {
                let s = trim(l@);
                if skipped(s) {
                    scan(lines, pos + 1)
                } else if s[0] == '[' {
                    (Scanned::Header(header_name(s)), pos + 1)
                } else {
                    (Scanned::Content(s), pos + 1)
                }
            },
        }
    }
}

/// One scanner step: a header becomes the pending section name, the end of
/// the source latches `done`.
pub open spec fn step(lines: Seq<Result<String, ReadFailure>>, st: ScanState) -> (
    Scanned,
    ScanState,
) {
    let (item, np) = scan(lines, st.pos);
    match item {
        Scanned::Header(n) => (item, ScanState { pos: np, section: Some(n), ..st }),
        Scanned::Exhausted => (item, ScanState { pos: np, done: true, ..st }),
        _ => (item, ScanState { pos: np, ..st }),
    }
}

/// The sections that the decoder models, and all others.
pub enum SectionKind {
    General,
    Metadata,
    Difficulty,
    Events,
    TimingPoints,
    HitObjects,
    Unknown,
}

/// The kind of section that a header name selects.
pub open spec fn kind_of(name: Seq<char>) -> SectionKind {
    if name == "General"@ {
        SectionKind::General
    } else if name == "Metadata"@ {
        SectionKind::Metadata
    } else if name == "Difficulty"@ {
        SectionKind::Difficulty
    } else if name == "Events"@ {
        SectionKind::Events
    } else if name == "TimingPoints"@ {
        SectionKind::TimingPoints
    } else if name == "HitObjects"@ {
        SectionKind::HitObjects
    } else {
        SectionKind::Unknown
    }
}

/// The document after one content line of a section of the given kind.
pub open spec fn apply_line(kind: SectionKind, doc: BeatmapView, l: Seq<char>) -> Result<
    BeatmapView,
    ParseError,
> {
    match kind {
        SectionKind::General => match key_value(l) {
            None => Err(ParseError::MalformedKeyValueField),
            Some((k, v)) => match apply_general(doc.general, k, v) {
                Ok(g) => Ok(BeatmapView { general: g, ..doc }),
                Err(e) => Err(e),
            },
        },
        SectionKind::Metadata => match key_value(l) {
            None => Err(ParseError::MalformedKeyValueField),
            Some((k, v)) => match apply_metadata(doc.metadata, k, v) {
                Ok(m) => Ok(BeatmapView { metadata: m, ..doc }),
                Err(e) => Err(e),
            },
        },
        SectionKind::Difficulty => match key_value(l) {
            None => Err(ParseError::MalformedKeyValueField),
            Some((k, v)) => match apply_difficulty(doc.difficulty, k, v) {
                Ok(d) => Ok(BeatmapView { difficulty: d, ..doc }),
                Err(e) => Err(e),
            },
        },
        SectionKind::Events => match event_of(split(l, ',')) {
            Some(e) => Ok(BeatmapView { events: doc.events.push(e), ..doc }),
            None => Ok(doc),
        },
        SectionKind::TimingPoints => match timing_point_of(split(l, ',')) {
            Ok(p) => Ok(BeatmapView { timing_points: doc.timing_points.push(p), ..doc }),
            Err(e) => Err(e),
        },
        SectionKind::HitObjects => match hit_object_of(split(l, ',')) {
            Ok(h) => Ok(BeatmapView { hit_objects: doc.hit_objects.push(h), ..doc }),
            Err(e) => Err(e),
        },
        SectionKind::Unknown => Ok(doc),
    }
}

/// The content lines of one section applied in order, up to the next header
/// or the end of the source; an unknown section discards its lines, read
/// failures included.
pub open spec fn section_run(
    lines: Seq<Result<String, ReadFailure>>,
    st: ScanState,
    kind: SectionKind,
    doc: BeatmapView,
) -> Result<(BeatmapView, ScanState), ParseError>
    decreases lines.len() - st.pos,
{
    let (item, st2) = step(lines, st);
    if st2.pos <= st.pos || st2.pos > lines.len() {
        Ok((doc, st2))
    } else {
        match item {
            Scanned::Content(l) => match apply_line(kind, doc, l) {
                Ok(d2) => section_run(lines, st2, kind, d2),
                Err(e) => Err(e),
            },
            Scanned::Failure => if kind is Unknown {
                section_run(lines, st2, kind, doc)
            } else {
                Err(ParseError::IoFailure)
            },
            _ => Ok((doc, st2)),
        }
    }
}

/// The next section name, taken from the pending slot or from the next line.
pub open spec fn next_section(lines: Seq<Result<String, ReadFailure>>, st: ScanState) -> (
    Option<Result<Seq<char>, ParseError>>,
    ScanState,
) {
    if st.done {
        (None, st)
    } else if st.section is None {
        let (item, st1) = step(lines, st);
        match item {
            Scanned::Content(_) => (Some(Err(ParseError::ExpectedSectionGotField)), st1),
            Scanned::Failure => (Some(Err(ParseError::IoFailure)), st1),
            _ => match st1.section {
                None => (Some(Err(ParseError::ExpectedSection)), st1),
                Some(n) => (Some(Ok(n)), ScanState { section: None, ..st1 }),
            },
        }
    } else {
        (Some(Ok(st.section->0)), ScanState { section: None, ..st })
    }
}

/// Decreases with every section that the decoder reads: either the position
/// advances or the end of the source is latched.
pub open spec fn measure(lines: Seq<Result<String, ReadFailure>>, st: ScanState) -> int {
    2 * (lines.len() - st.pos) + if st.done {
        0int
    } else {
        1int
    }
}

/// Every remaining section decoded in file order into `doc`.
pub open spec fn sections_run(
    lines: Seq<Result<String, ReadFailure>>,
    st: ScanState,
    doc: BeatmapView,
) -> Result<BeatmapView, ParseError>
    decreases measure(lines, st),
{
    let (next, st1) = next_section(lines, st);
    match next {
        None => Ok(doc),
        Some(Err(e)) => Err(e),
        Some(Ok(name)) => match section_run(lines, st1, kind_of(name), doc) {
            Err(e) => Err(e),
            Ok((d2, st2)) => if 0 <= measure(lines, st2) < measure(lines, st) {
                sections_run(lines, st2, d2)
            } else {
                Ok(d2)
            },
        },
    }
}

/// The marker that the first line of the source must begin with.
pub open spec fn format_marker() -> Seq<char> {
    "osu file format"@
}

/// Decoding from a scanner state: the line at the position is the header,
/// the rest are sections.
pub open spec fn decode_from(lines: Seq<Result<String, ReadFailure>>, st: ScanState) -> Result<
    BeatmapView,
    ParseError,
> {
    if st.pos < 0 || st.pos >= lines.len() {
        Err(ParseError::EmptyInput)
    } else {
        match lines[st.pos] {
            Err(_) => Err(ParseError::IoFailure),
            Ok(l) => if !has_prefix(l@, format_marker()) {
                Err(ParseError::MalformedHeader)
            } else {
                sections_run(lines, ScanState { pos: st.pos + 1, ..st }, default_beatmap())
            },
        }
    }
}

pub open spec fn initial_state() -> ScanState {
    ScanState { pos: 0, section: None, done: false }
}

/// The document that a whole source decodes to, or the first fault in it.
pub open spec fn decode(lines: Seq<Result<String, ReadFailure>>) -> Result<BeatmapView, ParseError> {
    decode_from(lines, initial_state())
}

pub proof fn lemma_scan_bounds(lines: Seq<Result<String, ReadFailure>>, pos: int)
    requires
        0 <= pos <= lines.len(),
    ensures
        pos <= scan(lines, pos).1 <= lines.len(),
        scan(lines, pos).0 is Exhausted ==> scan(lines, pos).1 == lines.len(),
        !(scan(lines, pos).0 is Exhausted) ==> scan(lines, pos).1 > pos,
    decreases lines.len() - pos,
{
    if pos < lines.len() {
        lemma_scan_bounds(lines, pos + 1);
    }
}

pub proof fn lemma_section_run_progress(
    lines: Seq<Result<String, ReadFailure>>,
    st: ScanState,
    kind: SectionKind,
    doc: BeatmapView,
)
    requires
        0 <= st.pos <= lines.len(),
        section_run(lines, st, kind, doc) is Ok,
    ensures
        ({
            let st2 = section_run(lines, st, kind, doc)->Ok_0.1;
            st.pos <= st2.pos <= lines.len() && (st2.pos > st.pos || st2.done)
        }),
    decreases lines.len() - st.pos,
{
    lemma_scan_bounds(lines, st.pos);
    let (item, st2) = step(lines, st);
    match item {
        Scanned::Content(l) => {
            if let Ok(d2) = apply_line(kind, doc, l) {
                lemma_section_run_progress(lines, st2, kind, d2);
            }
        },
        Scanned::Failure => {
            if kind is Unknown {
                lemma_section_run_progress(lines, st2, kind, doc);
            }
        },
        _ => {},
    }
}

} // verus!
