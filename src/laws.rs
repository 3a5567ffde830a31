//! Properties of the decoder, proved over its rules.
use crate::model::{u32_of, BeatmapView, HitObject, ParseError, ReadFailure};
use crate::records::hit_object_of;
use crate::records::event_of;
use crate::scan::{
    apply_line, decode, format_marker, kind_of, lemma_scan_bounds, lemma_section_run_progress,
    measure, next_section, scan, section_run, sections_run, step, ScanState, Scanned, SectionKind,
};
use crate::text::{has_prefix, split};
use vstd::prelude::*;

verus! {

/// A source without any line decodes to `EmptyInput`.
pub proof fn law_no_header_line(lines: Seq<Result<String, ReadFailure>>)
    requires
        lines.len() == 0,
    ensures
        decode(lines) == Err::<BeatmapView, ParseError>(ParseError::EmptyInput),
{
}

/// A source whose first line does not begin with the format marker decodes
/// to `MalformedHeader`.
pub proof fn law_bad_header_line(lines: Seq<Result<String, ReadFailure>>)
    requires
        lines.len() > 0,
        lines[0] matches Ok(l) && !has_prefix(l@, format_marker()),
    ensures
        decode(lines) == Err::<BeatmapView, ParseError>(ParseError::MalformedHeader),
{
}

/// A section whose header is followed at once by another header, or by the
/// end of the source, leaves the document as it was, whatever its kind.
pub proof fn law_empty_section(
    lines: Seq<Result<String, ReadFailure>>,
    st: ScanState,
    kind: SectionKind,
    doc: BeatmapView,
)
    requires
        step(lines, st).0 is Header || step(lines, st).0 is Exhausted,
    ensures
        section_run(lines, st, kind, doc) == Ok::<(BeatmapView, ScanState), ParseError>(
            (doc, step(lines, st).1),
        ),
{
}

/// A section of a name that is not modelled never fails, whatever its
/// lines hold, and leaves the document as it was.
pub proof fn law_unknown_section_ignored(
    lines: Seq<Result<String, ReadFailure>>,
    st: ScanState,
    doc: BeatmapView,
)
    requires
        0 <= st.pos <= lines.len(),
    ensures
        section_run(lines, st, SectionKind::Unknown, doc) matches Ok((d, _)) && d == doc,
    decreases lines.len() - st.pos,
{
    lemma_scan_bounds(lines, st.pos);
    let (item, st2) = step(lines, st);
    if st.pos < st2.pos <= lines.len() {
        match item {
            Scanned::Content(_) => law_unknown_section_ignored(lines, st2, doc),
            Scanned::Failure => law_unknown_section_ignored(lines, st2, doc),
            _ => {},
        }
    }
}

proof fn lemma_scan_failure_is_read_failure(lines: Seq<Result<String, ReadFailure>>, pos: int)
    requires
        0 <= pos <= lines.len(),
        scan(lines, pos).0 is Failure,
    ensures
        pos <= scan(lines, pos).1 - 1 < lines.len(),
        lines[scan(lines, pos).1 - 1] is Err,
    decreases lines.len() - pos,
{
    if pos < lines.len() {
        if lines[pos] is Ok {
            lemma_scan_failure_is_read_failure(lines, pos + 1);
        }
    }
}

/// An Events section never fails on what its lines hold: records of a wrong
/// arity or with unreadable numbers are passed over; only a line that could
/// not be read ends the decode.
pub proof fn law_events_section_lenient(
    lines: Seq<Result<String, ReadFailure>>,
    st: ScanState,
    doc: BeatmapView,
)
    requires
        0 <= st.pos <= lines.len(),
        forall|i: int| st.pos <= i < lines.len() ==> lines[i] is Ok,
    ensures
        section_run(lines, st, SectionKind::Events, doc) is Ok,
    decreases lines.len() - st.pos,
{
    lemma_scan_bounds(lines, st.pos);
    let (item, st2) = step(lines, st);
    if item is Failure {
        lemma_scan_failure_is_read_failure(lines, st.pos);
    }
    if st.pos < st2.pos <= lines.len() {
        if let Scanned::Content(l) = item {
            let d2 = crate::scan::apply_line(SectionKind::Events, doc, l)->Ok_0;
            law_events_section_lenient(lines, st2, d2);
        }
    }
}

/// In a TimingPoints section, a record that does not have exactly eight
/// fields ends the decode with `MalformedTimingPointRecord`.
pub proof fn law_timing_point_arity_fatal(
    lines: Seq<Result<String, ReadFailure>>,
    st: ScanState,
    doc: BeatmapView,
)
    requires
        0 <= st.pos <= lines.len(),
        step(lines, st).0 matches Scanned::Content(l) && split(l, ',').len() != 8,
    ensures
        section_run(lines, st, SectionKind::TimingPoints, doc) == Err::<
            (BeatmapView, ScanState),
            ParseError,
        >(ParseError::MalformedTimingPointRecord),
{
    lemma_scan_bounds(lines, st.pos);
}

/// An object whose type bit field has the circle bit set decodes as a circle,
/// whatever other kind bits are set with it.
pub proof fn law_circle_bit_first(f: Seq<Seq<char>>)
    requires
        f.len() >= 6,
        u32_of(f[0]) is Some,
        u32_of(f[1]) is Some,
        u32_of(f[2]) is Some,
        u32_of(f[3]) matches Some(t) && t & 0x01 != 0,
        u32_of(f[4]) is Some,
    ensures
        hit_object_of(f) matches Ok(HitObject::Circle { base }) && base.object_type == u32_of(
            f[3],
        )->0,
{
    let t = u32_of(f[3])->0;
    assert(t & 0x01 != 0 ==> t & 0x0b != 0) by (bit_vector);
}

/// An unknown section between sections drops out of the decode: decoding
/// from before its header gives what decoding from after its last line gives.
pub proof fn law_unknown_section_transparent(
    lines: Seq<Result<String, ReadFailure>>,
    st: ScanState,
    doc: BeatmapView,
)
    requires
        0 <= st.pos <= lines.len(),
        next_section(lines, st).0 matches Some(Ok(name)) && kind_of(name) is Unknown,
    ensures
        section_run(lines, next_section(lines, st).1, SectionKind::Unknown, doc) matches Ok((d, st2))
            && d == doc && sections_run(lines, st, doc) == sections_run(lines, st2, doc),
{
    lemma_scan_bounds(lines, st.pos);
    let st1 = next_section(lines, st).1;
    law_unknown_section_ignored(lines, st1, doc);
    lemma_section_run_progress(lines, st1, SectionKind::Unknown, doc);
    let st2 = section_run(lines, st1, SectionKind::Unknown, doc)->Ok_0.1;
    assert(0 <= measure(lines, st2) < measure(lines, st));
}

/// The content lines of a section from `st` whose fields form an event.
pub open spec fn event_lines(lines: Seq<Result<String, ReadFailure>>, st: ScanState) -> nat
    decreases lines.len() - st.pos,
{
    let (item, st2) = step(lines, st);
    if st2.pos <= st.pos || st2.pos > lines.len() {
        0
    } else {
        match item {
            Scanned::Content(l) => (if event_of(split(l, ',')) is Some {
                1nat
            } else {
                0nat
            }) + event_lines(lines, st2),
            Scanned::Failure => event_lines(lines, st2),
            _ => 0,
        }
    }
}

/// The content lines of a section from `st`.
pub open spec fn content_lines(lines: Seq<Result<String, ReadFailure>>, st: ScanState) -> nat
    decreases lines.len() - st.pos,
{
    let (item, st2) = step(lines, st);
    if st2.pos <= st.pos || st2.pos > lines.len() {
        0
    } else {
        match item {
            Scanned::Content(_) => 1 + content_lines(lines, st2),
            Scanned::Failure => content_lines(lines, st2),
            _ => 0,
        }
    }
}

/// An Events section adds one event for each of its lines whose fields form
/// an event, and nothing for the others; no other part of the document
/// changes.
pub proof fn law_events_count(
    lines: Seq<Result<String, ReadFailure>>,
    st: ScanState,
    doc: BeatmapView,
)
    requires
        0 <= st.pos <= lines.len(),
        forall|i: int| st.pos <= i < lines.len() ==> lines[i] is Ok,
    ensures
        section_run(lines, st, SectionKind::Events, doc) matches Ok((d, _)) && d.events.len()
            == doc.events.len() + event_lines(lines, st) && d.hit_objects == doc.hit_objects
            && d.timing_points == doc.timing_points,
    decreases lines.len() - st.pos,
{
    lemma_scan_bounds(lines, st.pos);
    let (item, st2) = step(lines, st);
    if item is Failure {
        lemma_scan_failure_is_read_failure(lines, st.pos);
    }
    if st.pos < st2.pos <= lines.len() {
        if let Scanned::Content(l) = item {
            let d2 = apply_line(SectionKind::Events, doc, l)->Ok_0;
            law_events_count(lines, st2, d2);
        }
    }
}

/// A HitObjects section that decodes adds exactly one object per content
/// line; no other part of the document changes.
pub proof fn law_hit_objects_count(
    lines: Seq<Result<String, ReadFailure>>,
    st: ScanState,
    doc: BeatmapView,
)
    requires
        0 <= st.pos <= lines.len(),
        section_run(lines, st, SectionKind::HitObjects, doc) is Ok,
    ensures
        section_run(lines, st, SectionKind::HitObjects, doc) matches Ok((d, _))
            && d.hit_objects.len() == doc.hit_objects.len() + content_lines(lines, st)
            && d.events == doc.events && d.timing_points == doc.timing_points,
    decreases lines.len() - st.pos,
{
    lemma_scan_bounds(lines, st.pos);
    let (item, st2) = step(lines, st);
    if st.pos < st2.pos <= lines.len() {
        if let Scanned::Content(l) = item {
            let d2 = apply_line(SectionKind::HitObjects, doc, l)->Ok_0;
            law_hit_objects_count(lines, st2, d2);
        }
    }
}

} // verus!
