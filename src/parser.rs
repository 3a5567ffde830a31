//! The line scanner and the section decoders that drive it.
use crate::model::{
    default_beatmap, events_view, Beatmap, BeatmapView, ParseError, ReadFailure,
};
use crate::records::{
    apply_difficulty_field, apply_general_field, apply_metadata_field, event_of_fields,
    hit_object_of_fields, timing_point_of_fields,
};
use crate::scan::{
    decode_from, format_marker, initial_state, kind_of, lemma_scan_bounds,
    lemma_section_run_progress, measure, next_section, scan, section_run, sections_run, step,
    ScanState, Scanned, SectionKind, skipped, header_name,
};
use crate::text::{
    key_value, owned, same_text, split_key_value, split_str, starts_with, trim, trim_brackets_str,
    trim_str,
};
use vstd::prelude::*;

verus! {

/// A scanner result with its text as a sequence of characters.
pub open spec fn text_item_view(r: Option<Result<String, ParseError>>) -> Option<
    Result<Seq<char>, ParseError>,
> {
    match r {
        None => None,
        Some(Ok(s)) => Some(Ok(s@)),
        Some(Err(e)) => Some(Err(e)),
    }
}

/// What one line of the source holds for the scanner.
enum LineItem {
    Skip,
    Header(String),
    Content(String),
    Failure,
}

/// Decodes a beatmap from its lines, in one forward pass.
pub struct Parser {
    lines: Vec<Result<String, ReadFailure>>,
    pos: usize,
    section: Option<String>,
    done: bool,
}

impl Parser {
    /// The lines the parser reads.
    pub closed spec fn source(&self) -> Seq<Result<String, ReadFailure>> {
        self.lines@
    }

    /// Where the scanner stands.
    pub closed spec fn state(&self) -> ScanState {
        ScanState {
            pos: self.pos as int,
            section: match self.section {
                Some(s) => Some(s@),
                None => None,
            },
            done: self.done,
        }
    }

    pub closed spec fn wf(&self) -> bool {
        self.pos <= self.lines.len()
    }

    /// A parser at the start of `lines`; an `Err` item stands for a line that
    /// could not be read.
    pub fn new(lines: Vec<Result<String, ReadFailure>>) -> (r: Parser)
        ensures
            r.wf(),
            r.source() == lines@,
            r.state() == initial_state(),
    {
        Parser { lines, pos: 0, section: None, done: false }
    }

    /// Reads the first line, which must begin with the format marker.
    fn read_header(&mut self) -> (r: Result<String, ParseError>)
        requires
            old(self).wf(),
        ensures
            final(self).wf(),
            final(self).lines@ == old(self).lines@,
            match r {
                Ok(l) => {
                    &&& old(self).state().pos < old(self).source().len()
                    &&& old(self).source()[old(self).state().pos] == Ok::<String, ReadFailure>(l)
                    &&& has_marker(l@)
                    &&& final(self).state() == (ScanState {
                        pos: old(self).state().pos + 1,
                        ..old(self).state()
                    })
                    &&& decode_from(old(self).source(), old(self).state()) == sections_run(
                        final(self).source(),
                        final(self).state(),
                        default_beatmap(),
                    )
                },
                Err(e) => decode_from(old(self).source(), old(self).state()) == Err::<
                    BeatmapView,
                    ParseError,
                >(e),
            },
            old(self).state().pos < old(self).source().len() && old(self).source()[old(
                self,
            ).state().pos] is Err ==> r == Err::<String, ParseError>(ParseError::IoFailure),
    {
        if self.pos >= self.lines.len() {
            return Err(ParseError::EmptyInput);
        }
        let i = self.pos;
        self.pos = i + 1;
        match &self.lines[i] {
            Ok(l) => {
                if !starts_with(l.as_str(), "osu file format") {
                    Err(ParseError::MalformedHeader)
                } else {
                    Ok(l.clone())
                }
            },
            Err(_) => Err(ParseError::IoFailure),
        }
    }

    /// What the line at `i` holds for the scanner.
    fn line_at(&self, i: usize) -> (r: LineItem)
        requires
            i < self.lines.len(),
        ensures
            match self.lines@[i as int] {
                Err(_) => r is Failure,
                Ok(l) => if skipped(trim(l@)) {
                    r is Skip
                } else if trim(l@)[0] == '[' {
                    r matches LineItem::Header(n) && n@ == header_name(trim(l@))
                } else {
                    r matches LineItem::Content(s) && s@ == trim(l@)
                },
            },
    {
        match &self.lines[i] {
            Ok(l) => {
                let s = trim_str(l.as_str());
                if s.unicode_len() == 0 || starts_with(s, "//") {
                    LineItem::Skip
                } else if s.get_char(0) == '[' {
                    LineItem::Header(owned(trim_str(trim_brackets_str(s))))
                } else {
                    LineItem::Content(owned(s))
                }
            },
            Err(_) => LineItem::Failure,
        }
    }

    /// The next content line; `None` when a header was found (it becomes the
    /// pending section) or the source is exhausted (which is latched).
    fn read_line(&mut self) -> (r: Option<Result<String, ParseError>>)
        requires
            old(self).wf(),
        ensures
            final(self).wf(),
            final(self).source() == old(self).source(),
            step(old(self).source(), old(self).state()).1 == final(self).state(),
            match r {
                None => step(old(self).source(), old(self).state()).0 is Header || step(
                    old(self).source(),
                    old(self).state(),
                ).0 is Exhausted,
                Some(Ok(s)) => step(old(self).source(), old(self).state()).0 == Scanned::Content(
                    s@,
                ),
                Some(Err(e)) => step(old(self).source(), old(self).state()).0 is Failure && e
                    == ParseError::IoFailure,
            },
    {
        let ghost src = self.lines@;
        let ghost start = self.pos as int;
        let n = self.lines.len();
        let mut pos = self.pos;
        let mut found = LineItem::Skip;
        let mut stop = false;
        while pos < n && !stop
            invariant
                n == src.len(),
                self.lines@ == src,
                start <= pos <= n,
                !stop ==> found is Skip && scan(src, start) == scan(src, pos as int),
                stop ==> match found {
                    LineItem::Header(h) => scan(src, start) == (Scanned::Header(h@), pos as int),
                    LineItem::Content(c) => scan(src, start) == (Scanned::Content(c@), pos as int),
                    LineItem::Failure => scan(src, start) == (Scanned::Failure, pos as int),
                    LineItem::Skip => false,
                },
            decreases n - pos,
        {
            let item = self.line_at(pos);
            pos = pos + 1;
            match item {
                LineItem::Skip => {},
                _ => {
                    found = item;
                    stop = true;
                },
            }
        }
        self.pos = pos;
        match found {
            LineItem::Skip => {
                self.done = true;
                None
            },
            LineItem::Header(h) => {
                self.section = Some(h);
                None
            },
            LineItem::Content(c) => Some(Ok(c)),
            LineItem::Failure => Some(Err(ParseError::IoFailure)),
        }
    }

    /// Decodes the `key: value` lines of a General section.
    #[verifier::loop_isolation(false)]
    fn parse_general(&mut self, beatmap: &mut Beatmap) -> (r: Result<(), ParseError>)
        requires
            old(self).wf(),
        ensures
            final(self).wf(),
            final(self).source() == old(self).source(),
            section_ok(
                r,
                section_run(old(self).source(), old(self).state(), SectionKind::General, old(beatmap)@),
                final(beatmap)@,
                final(self).state(),
            ),
            same_outside(SectionKind::General, old(beatmap)@, final(beatmap)@),
    {
        let ghost src = self.source();
        let ghost expected = section_run(src, self.state(), SectionKind::General, beatmap@);
        let ghost start = beatmap@;
        loop
            invariant
                self.wf(),
                self.source() == src,
                expected == section_run(src, self.state(), SectionKind::General, beatmap@),
                same_outside(SectionKind::General, start, beatmap@),
            decreases src.len() - self.state().pos,
        {
            let ghost st = self.state();
            proof {
                lemma_scan_bounds(src, st.pos);
            }
            match self.read_key_value() {
                None => {
                    return Ok(());
                },
                Some(Err(e)) => {
                    return Err(e);
                },
                Some(Ok((k, v))) => {
                    apply_general_field(&mut beatmap.general, k.as_str(), v)?;
                },
            }
        }
    }

    /// Decodes the `key: value` lines of a Metadata section.
    #[verifier::loop_isolation(false)]
    fn parse_metadata(&mut self, beatmap: &mut Beatmap) -> (r: Result<(), ParseError>)
        requires
            old(self).wf(),
        ensures
            final(self).wf(),
            final(self).source() == old(self).source(),
            section_ok(
                r,
                section_run(old(self).source(), old(self).state(), SectionKind::Metadata, old(beatmap)@),
                final(beatmap)@,
                final(self).state(),
            ),
            same_outside(SectionKind::Metadata, old(beatmap)@, final(beatmap)@),
    {
        let ghost src = self.source();
        let ghost expected = section_run(src, self.state(), SectionKind::Metadata, beatmap@);
        let ghost start = beatmap@;
        loop
            invariant
                self.wf(),
                self.source() == src,
                expected == section_run(src, self.state(), SectionKind::Metadata, beatmap@),
                same_outside(SectionKind::Metadata, start, beatmap@),
            decreases src.len() - self.state().pos,
        {
            let ghost st = self.state();
            proof {
                lemma_scan_bounds(src, st.pos);
            }
            match self.read_key_value() {
                None => {
                    return Ok(());
                },
                Some(Err(e)) => {
                    return Err(e);
                },
                Some(Ok((k, v))) => {
                    apply_metadata_field(&mut beatmap.metadata, k.as_str(), v)?;
                },
            }
        }
    }

    /// Decodes the `key: value` lines of a Difficulty section.
    #[verifier::loop_isolation(false)]
    fn parse_difficulty(&mut self, beatmap: &mut Beatmap) -> (r: Result<(), ParseError>)
        requires
            old(self).wf(),
        ensures
            final(self).wf(),
            final(self).source() == old(self).source(),
            section_ok(
                r,
                section_run(old(self).source(), old(self).state(), SectionKind::Difficulty, old(beatmap)@),
                final(beatmap)@,
                final(self).state(),
            ),
            same_outside(SectionKind::Difficulty, old(beatmap)@, final(beatmap)@),
    {
        let ghost src = self.source();
        let ghost expected = section_run(src, self.state(), SectionKind::Difficulty, beatmap@);
        let ghost start = beatmap@;
        loop
            invariant
                self.wf(),
                self.source() == src,
                expected == section_run(src, self.state(), SectionKind::Difficulty, beatmap@),
                same_outside(SectionKind::Difficulty, start, beatmap@),
            decreases src.len() - self.state().pos,
        {
            let ghost st = self.state();
            proof {
                lemma_scan_bounds(src, st.pos);
            }
            match self.read_key_value() {
                None => {
                    return Ok(());
                },
                Some(Err(e)) => {
                    return Err(e);
                },
                Some(Ok((k, v))) => {
                    apply_difficulty_field(&mut beatmap.difficulty, k.as_str(), v)?;
                },
            }
        }
    }

    /// Decodes an Events section; records of no modelled shape are passed over.
    #[verifier::loop_isolation(false)]
    fn parse_events(&mut self, beatmap: &mut Beatmap) -> (r: Result<(), ParseError>)
        requires
            old(self).wf(),
        ensures
            final(self).wf(),
            final(self).source() == old(self).source(),
            section_ok(
                r,
                section_run(old(self).source(), old(self).state(), SectionKind::Events, old(beatmap)@),
                final(beatmap)@,
                final(self).state(),
            ),
            same_outside(SectionKind::Events, old(beatmap)@, final(beatmap)@),
    {
        let ghost src = self.source();
        let ghost expected = section_run(src, self.state(), SectionKind::Events, beatmap@);
        let ghost start = beatmap@;
        loop
            invariant
                self.wf(),
                self.source() == src,
                expected == section_run(src, self.state(), SectionKind::Events, beatmap@),
                same_outside(SectionKind::Events, start, beatmap@),
            decreases src.len() - self.state().pos,
        {
            let ghost st = self.state();
            proof {
                lemma_scan_bounds(src, st.pos);
            }
            match self.read_line() {
                None => {
                    return Ok(());
                },
                Some(Err(e)) => {
                    return Err(e);
                },
                Some(Ok(l)) => {
                    let values = split_str(l.as_str(), ',');
                    if let Some(event) = event_of_fields(&values) {
                        let ghost before = beatmap.events@;
                        beatmap.events.push(event);
                        assert(events_view(beatmap.events@) =~= events_view(before).push(event@));
                    }
                },
            }
        }
    }

    /// Decodes a TimingPoints section; a malformed record fails the decode.
    #[verifier::loop_isolation(false)]
    fn parse_timing_points(&mut self, beatmap: &mut Beatmap) -> (r: Result<(), ParseError>)
        requires
            old(self).wf(),
        ensures
            final(self).wf(),
            final(self).source() == old(self).source(),
            section_ok(
                r,
                section_run(old(self).source(), old(self).state(), SectionKind::TimingPoints, old(beatmap)@),
                final(beatmap)@,
                final(self).state(),
            ),
            same_outside(SectionKind::TimingPoints, old(beatmap)@, final(beatmap)@),
    {
        let ghost src = self.source();
        let ghost expected = section_run(src, self.state(), SectionKind::TimingPoints, beatmap@);
        let ghost start = beatmap@;
        loop
            invariant
                self.wf(),
                self.source() == src,
                expected == section_run(src, self.state(), SectionKind::TimingPoints, beatmap@),
                same_outside(SectionKind::TimingPoints, start, beatmap@),
            decreases src.len() - self.state().pos,
        {
            let ghost st = self.state();
            proof {
                lemma_scan_bounds(src, st.pos);
            }
            match self.read_line() {
                None => {
                    return Ok(());
                },
                Some(Err(e)) => {
                    return Err(e);
                },
                Some(Ok(l)) => {
                    let values = split_str(l.as_str(), ',');
                    let point = timing_point_of_fields(&values)?;
                    beatmap.timing_points.push(point);
                },
            }
        }
    }

    /// Decodes a HitObjects section; a malformed record fails the decode.
    #[verifier::loop_isolation(false)]
    fn parse_hit_objects(&mut self, beatmap: &mut Beatmap) -> (r: Result<(), ParseError>)
        requires
            old(self).wf(),
        ensures
            final(self).wf(),
            final(self).source() == old(self).source(),
            section_ok(
                r,
                section_run(old(self).source(), old(self).state(), SectionKind::HitObjects, old(beatmap)@),
                final(beatmap)@,
                final(self).state(),
            ),
            same_outside(SectionKind::HitObjects, old(beatmap)@, final(beatmap)@),
    {
        let ghost src = self.source();
        let ghost expected = section_run(src, self.state(), SectionKind::HitObjects, beatmap@);
        let ghost start = beatmap@;
        loop
            invariant
                self.wf(),
                self.source() == src,
                expected == section_run(src, self.state(), SectionKind::HitObjects, beatmap@),
                same_outside(SectionKind::HitObjects, start, beatmap@),
            decreases src.len() - self.state().pos,
        {
            let ghost st = self.state();
            proof {
                lemma_scan_bounds(src, st.pos);
            }
            match self.read_line() {
                None => {
                    return Ok(());
                },
                Some(Err(e)) => {
                    return Err(e);
                },
                Some(Ok(l)) => {
                    let values = split_str(l.as_str(), ',');
                    let object = hit_object_of_fields(&values)?;
                    beatmap.hit_objects.push(object);
                },
            }
        }
    }

    /// Reads and discards the lines of a section that is not modelled.
    #[verifier::loop_isolation(false)]
    fn skip_section(&mut self, Ghost(doc): Ghost<BeatmapView>)
        requires
            old(self).wf(),
        ensures
            final(self).wf(),
            final(self).source() == old(self).source(),
            section_run(old(self).source(), old(self).state(), SectionKind::Unknown, doc) == Ok::<
                (BeatmapView, ScanState),
                ParseError,
            >((doc, final(self).state())),
    {
        let ghost src = self.source();
        let ghost expected = section_run(src, self.state(), SectionKind::Unknown, doc);
        loop
            invariant
                self.wf(),
                self.source() == src,
                expected == section_run(src, self.state(), SectionKind::Unknown, doc),
            decreases src.len() - self.state().pos,
        {
            let ghost st = self.state();
            proof {
                lemma_scan_bounds(src, st.pos);
            }
            if self.read_line().is_none() {
                return;
            }
        }
    }

    /// Decodes one section into the document, according to its name.
    fn parse_section(&mut self, name: String, beatmap: &mut Beatmap) -> (r: Result<(), ParseError>)
        requires
            old(self).wf(),
        ensures
            final(self).wf(),
            final(self).source() == old(self).source(),
            section_ok(
                r,
                section_run(old(self).source(), old(self).state(), kind_of(name@), old(beatmap)@),
                final(beatmap)@,
                final(self).state(),
            ),
            same_outside(kind_of(name@), old(beatmap)@, final(beatmap)@),
    {
        let n = name.as_str();
        if same_text(n, "General") {
            self.parse_general(beatmap)
        } else if same_text(n, "Metadata") {
            self.parse_metadata(beatmap)
        } else if same_text(n, "Difficulty") {
            self.parse_difficulty(beatmap)
        } else if same_text(n, "Events") {
            self.parse_events(beatmap)
        } else if same_text(n, "TimingPoints") {
            self.parse_timing_points(beatmap)
        } else if same_text(n, "HitObjects") {
            self.parse_hit_objects(beatmap)
        } else {
            self.skip_section(Ghost(beatmap@));
            Ok(())
        }
    }

    /// Decodes the whole source: the header line, then every section in file
    /// order. The first fault ends the decode.
    #[verifier::loop_isolation(false)]
    pub fn parse(&mut self) -> (r: Result<Beatmap, ParseError>)
        requires
            old(self).wf(),
        ensures
            final(self).wf(),
            final(self).source() == old(self).source(),
            match r {
                Ok(b) => decode_from(old(self).source(), old(self).state()) == Ok::<
                    BeatmapView,
                    ParseError,
                >(b@),
                Err(e) => decode_from(old(self).source(), old(self).state()) == Err::<
                    BeatmapView,
                    ParseError,
                >(e),
            },
    {
        let mut beatmap = Beatmap::default();
        self.read_header()?;
        let ghost src = self.source();
        let ghost expected = sections_run(src, self.state(), beatmap@);
        assert(expected == decode_from(old(self).source(), old(self).state()));
        loop
            invariant
                self.wf(),
                self.source() == src,
                expected == sections_run(src, self.state(), beatmap@),
                expected == decode_from(old(self).source(), old(self).state()),
            decreases measure(src, self.state()),
        {
            let ghost st = self.state();
            let ghost doc = beatmap@;
            match self.read_section() {
                None => {
                    return Ok(beatmap);
                },
                Some(Err(e)) => {
                    return Err(e);
                },
                Some(Ok(name)) => {
                    let ghost st1 = self.state();
                    proof {
                        lemma_scan_bounds(src, st.pos);
                    }
                    self.parse_section(name, &mut beatmap)?;
                    proof {
                        lemma_section_run_progress(src, st1, kind_of(name@), doc);
                    }
                },
            }
        }
    }

    /// Takes the next section name: the pending one, or else a header that
    /// must come before any content line.
    fn read_section(&mut self) -> (r: Option<Result<String, ParseError>>)
        requires
            old(self).wf(),
        ensures
            final(self).wf(),
            final(self).lines@ == old(self).lines@,
            next_section(old(self).source(), old(self).state()) == (
                text_item_view(r),
                final(self).state(),
            ),
    {
        if self.done {
            return None;
        }
        if self.section.is_none() {
            match self.read_line() {
                None => {},
                Some(Ok(_)) => return Some(Err(ParseError::ExpectedSectionGotField)),
                Some(Err(e)) => return Some(Err(e)),
            }
        }
        let mut pending: Option<String> = None;
        std::mem::swap(&mut pending, &mut self.section);
        match pending {
            None => Some(Err(ParseError::ExpectedSection)),
            Some(name) => Some(Ok(name)),
        }
    }

    /// The next content line split at its first colon, both sides trimmed.
    fn read_key_value(&mut self) -> (r: Option<Result<(String, String), ParseError>>)
        requires
            old(self).wf(),
        ensures
            final(self).wf(),
            final(self).lines@ == old(self).lines@,
            step(old(self).source(), old(self).state()).1 == final(self).state(),
            match r {
                None => step(old(self).source(), old(self).state()).0 is Header || step(
                    old(self).source(),
                    old(self).state(),
                ).0 is Exhausted,
                Some(Ok((k, v))) => step(old(self).source(), old(self).state()).0 matches Scanned::Content(l)
                    && key_value(l) == Some((k@, v@)),
                Some(Err(e)) => match step(old(self).source(), old(self).state()).0 {
                    Scanned::Content(l) => key_value(l) is None && e
                        == ParseError::MalformedKeyValueField,
                    Scanned::Failure => e == ParseError::IoFailure,
                    _ => false,
                },
            },
    {
        match self.read_line() {
            Some(Ok(l)) => match split_key_value(l.as_str()) {
                Some(kv) => Some(Ok(kv)),
                None => Some(Err(ParseError::MalformedKeyValueField)),
            },
            Some(Err(e)) => Some(Err(e)),
            None => None,
        }
    }
}

/// A section decoder's result against what the rules give for the section.
pub open spec fn section_ok(
    r: Result<(), ParseError>,
    expected: Result<(BeatmapView, ScanState), ParseError>,
    doc: BeatmapView,
    st: ScanState,
) -> bool {
    match r {
        Ok(()) => expected == Ok::<(BeatmapView, ScanState), ParseError>((doc, st)),
        Err(e) => expected == Err::<(BeatmapView, ScanState), ParseError>(e),
    }
}

/// The parts of the document that a section of the given kind does not
/// touch are the same in `a` and `b`.
pub open spec fn same_outside(kind: SectionKind, a: BeatmapView, b: BeatmapView) -> bool {
    &&& (kind is General || a.general == b.general)
    &&& (kind is Metadata || a.metadata == b.metadata)
    &&& (kind is Difficulty || a.difficulty == b.difficulty)
    &&& (kind is Events || a.events == b.events)
    &&& (kind is TimingPoints || a.timing_points == b.timing_points)
    &&& (kind is HitObjects || a.hit_objects == b.hit_objects)
}

/// Whether a header line begins with the format marker.
pub open spec fn has_marker(l: Seq<char>) -> bool {
    crate::text::has_prefix(l, format_marker())
}

} // verus!
