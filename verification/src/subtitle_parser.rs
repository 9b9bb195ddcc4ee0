//! The subtitle codec: WebVTT in, timed segments out, and back again with
//! translated text.

use vstd::prelude::*;
use crate::pattern::{
    find_match, has_match, remove_all, remove_first, without_first_match, without_matches,
};
use crate::text::{
    chars_of, concat2, concat3, contains, decimal_of, first_token, first_token_of, join, join_of,
    lines, lines_of, owned, padded, parse_u64, parse_u64_of, replace, replace_of, seq_contains, split,
    split_of, starts_with, string_of, trim, trim_of, trim_start, trim_start_of, u64_to_string,
    views, zeros,
};

verus! {

/// Why a subtitle text could not be read.
#[derive(Debug)]
pub enum ParseError {
    InvalidFormat(String),
    InvalidTimestamp(String),
    Io(String),
}

/// The mathematical content of a [`ParseError`].
pub enum ParseErrorView {
    InvalidFormat(Seq<char>),
    InvalidTimestamp(Seq<char>),
    Io(Seq<char>),
}

impl View for ParseError {
    type V = ParseErrorView;

    open spec fn view(&self) -> ParseErrorView {
        match *self {
            ParseError::InvalidFormat(s) => ParseErrorView::InvalidFormat(s@),
            ParseError::InvalidTimestamp(s) => ParseErrorView::InvalidTimestamp(s@),
            ParseError::Io(s) => ParseErrorView::Io(s@),
        }
    }
}

impl ParseError {
    /// The error as a line of text.
    pub fn message(&self) -> (r: String)
        ensures
            r@ == match self@ {
                ParseErrorView::InvalidFormat(s) => "Invalid VTT format: "@ + s,
                ParseErrorView::InvalidTimestamp(s) => "Invalid timestamp: "@ + s,
                ParseErrorView::Io(s) => "IO error: "@ + s,
            },
    {
        match self {
            ParseError::InvalidFormat(s) => concat2("Invalid VTT format: ", s.as_str()),
            ParseError::InvalidTimestamp(s) => concat2("Invalid timestamp: ", s.as_str()),
            ParseError::Io(s) => concat2("IO error: ", s.as_str()),
        }
    }
}

/// One timed piece of subtitle text. Times are milliseconds from the start.
#[derive(Debug)]
pub struct SubtitleSegment {
    pub index: u32,
    pub start_ms: u64,
    pub end_ms: u64,
    pub text: String,
}

/// The mathematical content of a [`SubtitleSegment`].
pub struct SegmentView {
    pub index: u32,
    pub start_ms: u64,
    pub end_ms: u64,
    pub text: Seq<char>,
}

impl View for SubtitleSegment {
    type V = SegmentView;

    open spec fn view(&self) -> SegmentView {
        SegmentView {
            index: self.index,
            start_ms: self.start_ms,
            end_ms: self.end_ms,
            text: self.text@,
        }
    }
}

impl Clone for SubtitleSegment {
    fn clone(&self) -> (r: Self)
        ensures
            r@ == self@,
    {
        SubtitleSegment {
            index: self.index,
            start_ms: self.start_ms,
            end_ms: self.end_ms,
            text: self.text.clone(),
        }
    }
}

/// The contents of a list of segments.
pub open spec fn segments_view(s: Seq<SubtitleSegment>) -> Seq<SegmentView> {
    Seq::new(s.len(), |i: int| s[i]@)
}

impl SubtitleSegment {
    /// A segment does not end before it starts.
    pub open spec fn wf(&self) -> bool {
        self.start_ms <= self.end_ms
    }

    /// A segment from `start_ms` to `end_ms`.
    pub fn new(index: u32, start_ms: u64, end_ms: u64, text: String) -> (r: Self)
        requires
            start_ms <= end_ms,
        ensures
            r.wf(),
            r@ == (SegmentView { index, start_ms, end_ms, text: text@ }),
    {
        SubtitleSegment { index, start_ms, end_ms, text }
    }

    /// How long the segment lasts, in milliseconds; 0 where the end lies
    /// before the start.
    pub fn duration_ms(&self) -> (r: u64)
        ensures
            r == if self.end_ms >= self.start_ms {
                (self.end_ms - self.start_ms) as u64
            } else {
                0
            },
    {
        if self.end_ms >= self.start_ms {
            self.end_ms - self.start_ms
        } else {
            0
        }
    }
}

// ---------------------------------------------------------------------------
// Times
// ---------------------------------------------------------------------------

/// A time in milliseconds as `HH:MM:SS.mmm`.
pub open spec fn time_text(ms: u64) -> Seq<char> {
    padded((ms / 3600000) as nat, 2) + ":"@ + padded(((ms % 3600000) / 60000) as nat, 2) + ":"@
        + padded(((ms % 60000) / 1000) as nat, 2) + "."@ + padded((ms % 1000) as nat, 3)
}

/// The number that a component of a time writes; 0 where it writes none.
pub open spec fn number_of(s: Seq<char>) -> nat {
    match parse_u64_of(s) {
        Some(n) => n as nat,
        None => 0,
    }
}

/// The milliseconds that the digits behind the decimal point stand for: the
/// first three, with zeros after them where there are fewer.
pub open spec fn millis_of(fraction: Seq<char>) -> nat {
    let head = if fraction.len() > 3 {
        fraction.subrange(0, 3)
    } else {
        fraction
    };
    number_of(head + zeros(3 - head.len()))
}

/// The milliseconds that a seconds component `SS` or `SS.mmm` stands for.
pub open spec fn seconds_millis(s: Seq<char>) -> nat {
    let parts = split_of(s, "."@);
    number_of(parts[0]) * 1000 + if parts.len() > 1 {
        millis_of(parts[1])
    } else {
        0
    }
}

pub open spec fn bad_time(what: Seq<char>) -> Result<u64, ParseErrorView> {
    Err(ParseErrorView::InvalidTimestamp(what))
}

/// What a seconds component reads as; an error where the value does not
/// fit.
pub open spec fn seconds_of(s: Seq<char>) -> Result<u64, ParseErrorView> {
    if seconds_millis(s) > u64::MAX {
        bad_time(s)
    } else {
        Ok(seconds_millis(s) as u64)
    }
}

/// The first whitespace-delimited piece of a time text; `0` where there is
/// none.
pub open spec fn time_token(s: Seq<char>) -> Seq<char> {
    match first_token_of(s) {
        Some(t) => t,
        None => "0"@,
    }
}

/// What a time of the form `HH:MM:SS.mmm`, `MM:SS.mmm` or `SS.mmm` reads
/// as. A time with a minus sign, with more than three components, or
/// beyond the range of 64 bits is an error.
pub open spec fn time_of(s: Seq<char>) -> Result<u64, ParseErrorView> {
    let token = time_token(s);
    let parts = split_of(token, ":"@);
    if seq_contains(token, "-"@) || parts.len() > 3 || parts.len() < 1 {
        bad_time(token)
    } else {
        let last = parts[parts.len() - 1];
        match seconds_of(last) {
            Err(e) => Err(e),
            Ok(secs) => {
                let hours = if parts.len() == 3 {
                    number_of(parts[0])
                } else {
                    0
                };
                let minutes = if parts.len() == 3 {
                    number_of(parts[1])
                } else if parts.len() == 2 {
                    number_of(parts[0])
                } else {
                    0
                };
                let total = hours * 3600000 + minutes * 60000 + secs;
                if total > u64::MAX {
                    bad_time(token)
                } else {
                    Ok(total as u64)
                }
            },
        }
    }
}

/// What a timing line `start --> end` reads as: both times, the start not
/// after the end.
pub open spec fn timestamp_of(line: Seq<char>) -> Result<(u64, u64), ParseErrorView> {
    let parts = split_of(line, "-->"@);
    if parts.len() != 2 {
        Err(ParseErrorView::InvalidTimestamp(line))
    } else {
        match time_of(trim_of(parts[0])) {
            Err(e) => Err(e),
            Ok(start) => match time_of(time_token(parts[1])) {
                Err(e) => Err(e),
                Ok(end) => Ok((start, end)),
            },
        }
    }
}

// ---------------------------------------------------------------------------
// Cue text
// ---------------------------------------------------------------------------

/// `t` without the matches of `pattern`; `t` itself where the pattern does
/// not compile.
pub open spec fn without(t: Seq<char>, pattern: Seq<char>) -> Seq<char> {
    match without_matches(pattern, t) {
        Some(x) => x,
        None => t,
    }
}

/// A cue line without its inline formatting tags.
pub open spec fn tags_removed(t: Seq<char>) -> Seq<char> {
    without(
        without(
            without(
                without(without(without(t, "</?b>"@), "</?i>"@), "</?u>"@),
                "</?c[^>]*>"@,
            ),
            "<\\d+:\\d+:\\d+\\.?\\d*>"@,
        ),
        "</?\\w+>"@,
    )
}

/// A text with the common character references decoded.
pub open spec fn entities_decoded(t: Seq<char>) -> Seq<char> {
    replace_of(
        replace_of(replace_of(replace_of(t, "&nbsp;"@, " "@), "&amp;"@, "&"@), "&lt;"@, "<"@),
        "&gt;"@,
        ">"@,
    )
}

/// The text of a cue line: tags removed, references decoded, trimmed.
pub open spec fn stripped(t: Seq<char>) -> Seq<char> {
    trim_of(entities_decoded(tags_removed(t)))
}

// ---------------------------------------------------------------------------
// Parsing, line by line
// ---------------------------------------------------------------------------

/// A cue whose timing line was read and whose text is being collected.
pub struct OpenCue {
    pub start_ms: u64,
    pub end_ms: u64,
    pub texts: Seq<Seq<char>>,
}

/// Where the parser stands after some lines.
pub struct ParseState {
    pub segments: Seq<SegmentView>,
    pub open: Option<OpenCue>,
    pub failed: Option<ParseErrorView>,
}

/// The state with its open cue closed: a cue with text becomes the next
/// segment, a cue without text is dropped.
pub open spec fn closed(st: ParseState) -> ParseState {
    match st.open {
        Some(cue) => if st.failed is Some {
            st
        } else if cue.texts.len() > 0 {
            if st.segments.len() >= u32::MAX {
                ParseState {
                    failed: Some(ParseErrorView::InvalidFormat("Too many cues"@)),
                    open: None,
                    ..st
                }
            } else {
                ParseState {
                    segments: st.segments.push(
                        SegmentView {
                            index: st.segments.len() as u32,
                            start_ms: cue.start_ms,
                            end_ms: cue.end_ms,
                            text: join_of(cue.texts, "\n"@),
                        },
                    ),
                    open: None,
                    ..st
                }
            }
        } else {
            ParseState { open: None, ..st }
        },
        None => st,
    }
}

/// The state after one more line. A timing line closes the open cue and
/// opens the next; a blank line closes the open cue; any other line is text
/// of the open cue, or is skipped where no cue is open.
pub open spec fn after_line(st: ParseState, line: Seq<char>) -> ParseState {
    let t = trim_of(line);
    if st.failed is Some {
        st
    } else if seq_contains(t, "-->"@) {
        let c = closed(st);
        if c.failed is Some {
            c
        } else {
            match timestamp_of(t) {
                Err(e) => ParseState { failed: Some(e), ..c },
                Ok((start_ms, end_ms)) => if start_ms > end_ms {
                    ParseState { failed: Some(ParseErrorView::InvalidTimestamp(t)), ..c }
                } else {
                    ParseState { open: Some(OpenCue { start_ms, end_ms, texts: Seq::empty() }), ..c }
                },
            }
        }
    } else if t.len() == 0 {
        closed(st)
    } else {
        match st.open {
            Some(cue) => if stripped(t).len() > 0 {
                ParseState {
                    open: Some(OpenCue { texts: cue.texts.push(stripped(t)), ..cue }),
                    ..st
                }
            } else {
                st
            },
            None => st,
        }
    }
}

/// The state after the first `n` lines.
pub open spec fn after_lines(all: Seq<Seq<char>>, n: int) -> ParseState
    decreases n,
{
    if n <= 0 {
        ParseState { segments: Seq::empty(), open: None, failed: None }
    } else {
        after_line(after_lines(all, n - 1), all[n - 1])
    }
}

/// What a WebVTT text reads as: its cues with text, numbered from 0. The
/// text has to start with `WEBVTT`, leading whitespace aside.
pub open spec fn parsed_vtt(content: Seq<char>) -> Result<Seq<SegmentView>, ParseErrorView> {
    let c = trim_start_of(content);
    if !"WEBVTT"@.is_prefix_of(c) {
        Err(ParseErrorView::InvalidFormat("Missing WEBVTT header"@))
    } else {
        let end = closed(after_lines(lines_of(c), lines_of(c).len() as int));
        match end.failed {
            Some(e) => Err(e),
            None => Ok(end.segments),
        }
    }
}

// ---------------------------------------------------------------------------
// Writing
// ---------------------------------------------------------------------------

/// One segment as a line for translation: its number in brackets, then its
/// text.
pub open spec fn numbered(s: SegmentView) -> Seq<char> {
    "["@ + decimal_of(s.index as nat) + "] "@ + s.text
}

/// The segments as numbered lines, a blank line between each two.
pub open spec fn translation_text(segments: Seq<SegmentView>) -> Seq<char> {
    join_of(Seq::new(segments.len(), |i: int| numbered(segments[i])), "\n\n"@)
}

/// The text of the cue at index `i`: the translation where there is one,
/// the original text otherwise.
pub open spec fn cue_text(original: Seq<SegmentView>, translated: Seq<Seq<char>>, i: int) -> Seq<
    char,
> {
    if i < translated.len() {
        translated[i]
    } else {
        original[i].text
    }
}

/// One cue as WebVTT text.
pub open spec fn cue_block(s: SegmentView, text: Seq<char>) -> Seq<char> {
    time_text(s.start_ms) + " --> "@ + time_text(s.end_ms) + "\n"@ + text + "\n\n"@
}

/// The first `n` cues as WebVTT text, behind the header.
pub open spec fn rebuilt(original: Seq<SegmentView>, translated: Seq<Seq<char>>, n: int) -> Seq<char>
    decreases n,
{
    if n <= 0 {
        "WEBVTT\n\n"@
    } else {
        rebuilt(original, translated, n - 1) + cue_block(
            original[n - 1],
            cue_text(original, translated, n - 1),
        )
    }
}

/// The segments with their texts replaced by the translations, where there
/// are any.
pub open spec fn translated_segments(original: Seq<SegmentView>, translated: Seq<Seq<char>>) -> Seq<
    SegmentView,
> {
    Seq::new(
        original.len(),
        |i: int| SegmentView { text: cue_text(original, translated, i), ..original[i] },
    )
}

// ---------------------------------------------------------------------------
// Translated text, line by line
// ---------------------------------------------------------------------------

/// The pattern of the marker that starts a translated segment.
pub open spec fn marker_pattern() -> Seq<char> {
    "\\[(\\d+)\\]\\s*"@
}

/// True when a line holds a segment marker.
pub open spec fn has_marker(line: Seq<char>) -> bool {
    has_match(marker_pattern(), line) == Some(true)
}

/// A line without its first segment marker.
pub open spec fn without_marker(line: Seq<char>) -> Seq<char> {
    match without_first_match(marker_pattern(), line) {
        Some(t) => t,
        None => line,
    }
}

/// Where the reader of a translated text stands: the finished segments and
/// the text collected for the current one.
pub struct TranslationState {
    pub done: Seq<Seq<char>>,
    pub current: Seq<char>,
}

/// The state with the current segment finished, if it holds any text.
pub open spec fn flushed(st: TranslationState) -> TranslationState {
    if st.current.len() > 0 {
        TranslationState { done: st.done.push(trim_of(st.current)), current: Seq::empty() }
    } else {
        st
    }
}

/// The state after one more line: a line with a marker starts a segment, any
/// other line that is not blank continues the current one.
pub open spec fn after_translated_line(st: TranslationState, line: Seq<char>) -> TranslationState {
    if has_marker(line) {
        let f = flushed(st);
        TranslationState { current: f.current + trim_of(without_marker(line)) + " "@, ..f }
    } else if trim_of(line).len() > 0 {
        TranslationState { current: st.current + trim_of(line) + " "@, ..st }
    } else {
        st
    }
}

/// The state after the first `n` lines.
pub open spec fn after_translated_lines(all: Seq<Seq<char>>, n: int) -> TranslationState
    decreases n,
{
    if n <= 0 {
        TranslationState { done: Seq::empty(), current: Seq::empty() }
    } else {
        after_translated_line(after_translated_lines(all, n - 1), all[n - 1])
    }
}

/// The segment texts that a translated text holds.
pub open spec fn translated_texts(text: Seq<char>) -> Seq<Seq<char>> {
    flushed(after_translated_lines(lines_of(text), lines_of(text).len() as int)).done
}

/// The parser's state, from what the parser holds.
pub open spec fn state_of(
    segments: Seq<SubtitleSegment>,
    open: Option<(u64, u64, Vec<String>)>,
) -> ParseState {
    ParseState {
        segments: segments_view(segments),
        open: match open {
            Some(cue) => Some(OpenCue { start_ms: cue.0, end_ms: cue.1, texts: views(cue.2@) }),
            None => None,
        },
        failed: None,
    }
}

/// The view of the result of reading a time.
pub open spec fn time_result(r: Result<u64, ParseError>) -> Result<u64, ParseErrorView> {
    match r {
        Ok(t) => Ok(t),
        Err(e) => Err(e@),
    }
}

/// The view of the result of reading a timing line.
pub open spec fn timestamp_result(r: Result<(u64, u64), ParseError>) -> Result<
    (u64, u64),
    ParseErrorView,
> {
    match r {
        Ok(t) => Ok(t),
        Err(e) => Err(e@),
    }
}

/// The view of the result of reading a subtitle text.
pub open spec fn segments_result(r: Result<Vec<SubtitleSegment>, ParseError>) -> Result<
    Seq<SegmentView>,
    ParseErrorView,
> {
    match r {
        Ok(v) => Ok(segments_view(v@)),
        Err(e) => Err(e@),
    }
}

fn number(s: &str) -> (r: u64)
    ensures
        r == number_of(s@),
{
    match parse_u64(s) {
        Some(n) => n,
        None => 0,
    }
}

fn zero_padded(n: u64, width: usize) -> (r: String)
    requires
        width <= 3,
    ensures
        r@ == padded(n as nat, width as int),
{
    let digits = u64_to_string(n);
    let len = digits.as_str().unicode_len();
    let mut out = String::new();
    let mut k: usize = len;
    while k < width
        invariant
            len <= k,
            k <= width || k == len,
            width <= 3,
            out@ == zeros(k - len),
        decreases width - k,
    {
        out = out.concat("0");
        proof {
            reveal_strlit("0");
            assert(out@ =~= zeros(k + 1 - len));
        }
        k = k + 1;
    }
    proof {
        assert(out@ =~= zeros(width - len));
    }
    out.concat(digits.as_str())
}

fn time_token_of(s: &str) -> (r: String)
    ensures
        r@ == time_token(s@),
{
    match first_token(s) {
        Some(t) => t,
        None => owned("0"),
    }
}

/// The reader and writer of WebVTT subtitles.
pub struct VttParser;

impl VttParser {
    /// Reads a WebVTT text into its segments.
    pub fn parse(content: &str) -> (r: Result<Vec<SubtitleSegment>, ParseError>)
        ensures
            segments_result(r) == parsed_vtt(content@),
            r matches Ok(v) ==> forall|i: int| 0 <= i < v@.len() ==> (#[trigger] v@[i]).wf(),
    {
        let body = trim_start(content);
        if !starts_with(body, "WEBVTT") {
            return Err(ParseError::InvalidFormat(owned("Missing WEBVTT header")));
        }
        let all = lines(body);
        let mut segments: Vec<SubtitleSegment> = Vec::new();
        let mut open: Option<(u64, u64, Vec<String>)> = None;
        let mut i: usize = 0;
        proof {
            assert(segments_view(segments@) =~= Seq::<SegmentView>::empty());
        }
        while i < all.len()
            invariant
                0 <= i <= all.len(),
                body@ == trim_start_of(content@),
                "WEBVTT"@.is_prefix_of(body@),
                views(all@) == lines_of(body@),
                after_lines(views(all@), i as int) == state_of(segments@, open),
                forall|k: int| 0 <= k < segments@.len() ==> (#[trigger] segments@[k]).wf(),
                open matches Some(cue) ==> cue.0 <= cue.1,
            decreases all.len() - i,
        {
            proof {
                assert(views(all@)[i as int] == all@[i as int]@);
            }
            match VttParser::feed(&mut segments, open, all[i].as_str()) {
                Ok(next) => {
                    open = next;
                },
                Err(e) => {
                    proof {
                        VttParser::lemma_failure_stays(views(all@), i as int + 1);
                    }
                    return Err(e);
                },
            }
            i = i + 1;
        }
        match VttParser::close(&mut segments, open) {
            Some(e) => Err(e),
            None => Ok(segments),
        }
    }

    /// Takes one more line: see [`after_line`].
    #[verifier::rlimit(50)]
    fn feed(segments: &mut Vec<SubtitleSegment>, open: Option<(u64, u64, Vec<String>)>, raw: &str) -> (r:
        Result<Option<(u64, u64, Vec<String>)>, ParseError>)
        requires
            open matches Some(cue) ==> cue.0 <= cue.1,
            forall|k: int| 0 <= k < old(segments)@.len() ==> (#[trigger] old(segments)@[k]).wf(),
        ensures
            forall|k: int| 0 <= k < final(segments)@.len() ==> (#[trigger] final(segments)@[k]).wf(),
            r matches Ok(Some(cue)) ==> cue.0 <= cue.1,
            match r {
                Ok(next) => after_line(state_of(old(segments)@, open), raw@) == state_of(
                    final(segments)@,
                    next,
                ),
                Err(e) => after_line(state_of(old(segments)@, open), raw@).failed == Some(e@),
            },
    {
        let line = trim(raw);
        if contains(line, "-->") {
            match VttParser::close(segments, open) {
                Some(e) => {
                    return Err(e);
                },
                None => {},
            }
            match VttParser::parse_timestamp(line) {
                Err(e) => Err(e),
                Ok((start_ms, end_ms)) => {
                    if start_ms > end_ms {
                        return Err(ParseError::InvalidTimestamp(owned(line)));
                    }
                    let texts: Vec<String> = Vec::new();
                    proof {
                        assert(views(texts@) =~= Seq::<Seq<char>>::empty());
                    }
                    Ok(Some((start_ms, end_ms, texts)))
                },
            }
        } else if line.is_empty() {
            match VttParser::close(segments, open) {
                Some(e) => Err(e),
                None => Ok(None),
            }
        } else {
            match open {
                Some((start_ms, end_ms, mut texts)) => {
                    let clean = VttParser::strip_vtt_tags(line);
                    if !clean.as_str().is_empty() {
                        let ghost tv = views(texts@);
                        texts.push(clean);
                        proof {
                            assert(views(texts@) =~= tv.push(stripped(line@)));
                        }
                    }
                    Ok(Some((start_ms, end_ms, texts)))
                },
                None => Ok(None),
            }
        }
    }

    /// Once the parser has failed, more lines change nothing.
    proof fn lemma_failure_stays(all: Seq<Seq<char>>, n: int)
        requires
            0 <= n <= all.len(),
            after_lines(all, n).failed is Some,
        ensures
            closed(after_lines(all, all.len() as int)).failed == after_lines(all, n).failed,
    {
        VttParser::lemma_failure_stays_until(all, n, all.len() as int);
    }

    proof fn lemma_failure_stays_until(all: Seq<Seq<char>>, n: int, m: int)
        requires
            0 <= n <= m <= all.len(),
            after_lines(all, n).failed is Some,
        ensures
            after_lines(all, m) == after_lines(all, n),
        decreases m - n,
    {
        if m > n {
            VttParser::lemma_failure_stays_until(all, n, m - 1);
        }
    }

    /// Closes the open cue: a cue with text becomes the next segment. The
    /// error is handed back where there are too many cues.
    fn close(segments: &mut Vec<SubtitleSegment>, open: Option<(u64, u64, Vec<String>)>) -> (r: Option<
        ParseError,
    >)
        requires
            open matches Some(cue) ==> cue.0 <= cue.1,
            forall|k: int| 0 <= k < old(segments)@.len() ==> (#[trigger] old(segments)@[k]).wf(),
        ensures
            forall|k: int| 0 <= k < final(segments)@.len() ==> (#[trigger] final(segments)@[k]).wf(),
            match r {
                None => closed(state_of(old(segments)@, open)) == state_of(final(segments)@, None),
                Some(e) => closed(state_of(old(segments)@, open)).failed == Some(e@),
            },
    {
        match open {
            Some((start_ms, end_ms, texts)) => {
                if texts.len() > 0 {
                    if segments.len() >= u32::MAX as usize {
                        return Some(ParseError::InvalidFormat(owned("Too many cues")));
                    }
                    let text = join(&texts, "\n");
                    let ghost before = segments_view(segments@);
                    let index = segments.len() as u32;
                    segments.push(SubtitleSegment::new(index, start_ms, end_ms, text));
                    proof {
                        assert(segments_view(segments@) =~= before.push(
                            SegmentView {
                                index,
                                start_ms,
                                end_ms,
                                text: join_of(views(texts@), "\n"@),
                            },
                        ));
                    }
                }
                None
            },
            None => None,
        }
    }

    /// Reads a timing line `start --> end`.
    pub fn parse_timestamp(line: &str) -> (r: Result<(u64, u64), ParseError>)
        ensures
            timestamp_result(r) == timestamp_of(line@),
    {
        proof {
            reveal_strlit("-->");
        }
        let parts = split(line, "-->");
        if parts.len() != 2 {
            return Err(ParseError::InvalidTimestamp(owned(line)));
        }
        proof {
            assert(views(parts@)[0] == parts@[0]@);
            assert(views(parts@)[1] == parts@[1]@);
        }
        let start = match VttParser::parse_time(trim(parts[0].as_str())) {
            Ok(t) => t,
            Err(e) => {
                return Err(e);
            },
        };
        let end_token = time_token_of(parts[1].as_str());
        let end = match VttParser::parse_time(end_token.as_str()) {
            Ok(t) => t,
            Err(e) => {
                return Err(e);
            },
        };
        Ok((start, end))
    }

    /// Reads one time of the form `HH:MM:SS.mmm`, `MM:SS.mmm` or `SS.mmm`.
    pub fn parse_time(time_str: &str) -> (r: Result<u64, ParseError>)
        ensures
            time_result(r) == time_of(time_str@),
    {
        proof {
            reveal_strlit(":");
        }
        let token = time_token_of(time_str);
        let parts = split(token.as_str(), ":");
        let n = parts.len();
        if contains(token.as_str(), "-") || n > 3 || n < 1 {
            return Err(ParseError::InvalidTimestamp(token));
        }
        proof {
            assert forall|k: int| 0 <= k < n implies views(parts@)[k] == parts@[k]@ by {}
        }
        let secs = match VttParser::parse_seconds(parts[n - 1].as_str()) {
            Ok(s) => s,
            Err(e) => {
                return Err(e);
            },
        };
        let hours: u64 = if n == 3 {
            number(parts[0].as_str())
        } else {
            0
        };
        let minutes: u64 = if n == 3 {
            number(parts[1].as_str())
        } else if n == 2 {
            number(parts[0].as_str())
        } else {
            0
        };
        let total: u128 = hours as u128 * 3600000 + minutes as u128 * 60000 + secs as u128;
        if total > u64::MAX as u128 {
            return Err(ParseError::InvalidTimestamp(token));
        }
        Ok(total as u64)
    }

    /// Reads a seconds component `SS` or `SS.mmm` as milliseconds.
    pub fn parse_seconds(seconds_str: &str) -> (r: Result<u64, ParseError>)
        ensures
            time_result(r) == seconds_of(seconds_str@),
    {
        proof {
            reveal_strlit(".");
        }
        let parts = split(seconds_str, ".");
        proof {
            crate::text::lemma_split_is_not_empty(seconds_str@, "."@);
            assert(views(parts@)[0] == parts@[0]@);
        }
        let seconds = number(parts[0].as_str());
        let millis: u64 = if parts.len() > 1 {
            proof {
                assert(views(parts@)[1] == parts@[1]@);
            }
            let digits = chars_of(parts[1].as_str());
            let mut head: Vec<char> = Vec::new();
            let mut k: usize = 0;
            while k < 3
                invariant
                    0 <= k <= 3,
                    digits@ == parts@[1]@,
                    head@ == (if digits@.len() > 3 {
                        digits@.subrange(0, 3)
                    } else {
                        digits@
                    }).subrange(
                        0,
                        if k <= digits@.len() {
                            k as int
                        } else {
                            digits@.len() as int
                        },
                    ) + zeros(
                        if k <= digits@.len() {
                            0
                        } else {
                            k - digits@.len()
                        },
                    ),
                decreases 3 - k,
            {
                let ghost before = head@;
                if k < digits.len() {
                    head.push(digits[k]);
                } else {
                    head.push('0');
                }
                proof {
                    let full = if digits@.len() > 3 {
                        digits@.subrange(0, 3)
                    } else {
                        digits@
                    };
                    let k1 = k + 1;
                    assert(head@ =~= full.subrange(
                        0,
                        if k1 <= digits@.len() {
                            k1 as int
                        } else {
                            digits@.len() as int
                        },
                    ) + zeros(
                        if k1 <= digits@.len() {
                            0
                        } else {
                            k1 - digits@.len()
                        },
                    ));
                }
                k = k + 1;
            }
            proof {
                let full = if digits@.len() > 3 {
                    digits@.subrange(0, 3)
                } else {
                    digits@
                };
                assert(head@ =~= full + zeros(3 - full.len()));
            }
            number(string_of(&head).as_str())
        } else {
            0
        };
        let total: u128 = seconds as u128 * 1000 + millis as u128;
        if total > u64::MAX as u128 {
            return Err(ParseError::InvalidTimestamp(owned(seconds_str)));
        }
        Ok(total as u64)
    }

    /// The text of a cue line: inline formatting tags removed, the common
    /// character references decoded, whitespace trimmed.
    pub fn strip_vtt_tags(text: &str) -> (r: String)
        ensures
            r@ == stripped(text@),
    {
        let mut result = owned(text);
        result = VttParser::remove_tags(result, "</?b>");
        result = VttParser::remove_tags(result, "</?i>");
        result = VttParser::remove_tags(result, "</?u>");
        result = VttParser::remove_tags(result, "</?c[^>]*>");
        result = VttParser::remove_tags(result, "<\\d+:\\d+:\\d+\\.?\\d*>");
        result = VttParser::remove_tags(result, "</?\\w+>");
        proof {
            reveal_strlit("&nbsp;");
            reveal_strlit("&amp;");
            reveal_strlit("&lt;");
            reveal_strlit("&gt;");
        }
        result = replace(result.as_str(), "&nbsp;", " ");
        result = replace(result.as_str(), "&amp;", "&");
        result = replace(result.as_str(), "&lt;", "<");
        result = replace(result.as_str(), "&gt;", ">");
        owned(trim(result.as_str()))
    }

    fn remove_tags(text: String, pattern: &str) -> (r: String)
        ensures
            r@ == without(text@, pattern@),
    {
        match remove_all(pattern, text.as_str()) {
            Some(t) => t,
            None => text,
        }
    }

    /// The segments as numbered lines for translation.
    pub fn to_translation_text(segments: &[SubtitleSegment]) -> (r: String)
        ensures
            r@ == translation_text(segments_view(segments@)),
    {
        let mut parts: Vec<String> = Vec::new();
        let mut i: usize = 0;
        while i < segments.len()
            invariant
                0 <= i <= segments@.len(),
                parts@.len() == i,
                forall|k: int| 0 <= k < i ==> parts@[k]@ == numbered(segments@[k]@),
            decreases segments@.len() - i,
        {
            let head = concat3("[", u64_to_string(segments[i].index as u64).as_str(), "] ");
            parts.push(concat2(head.as_str(), segments[i].text.as_str()));
            i = i + 1;
        }
        proof {
            assert(views(parts@) =~= Seq::new(
                segments@.len(),
                |i: int| numbered(segments_view(segments@)[i]),
            ));
        }
        join(&parts, "\n\n")
    }

    /// The segments as WebVTT text, each with its translation where there is
    /// one and with its own text otherwise.
    pub fn rebuild_vtt(original: &[SubtitleSegment], translated: &[String]) -> (r: String)
        ensures
            r@ == rebuilt(segments_view(original@), views(translated@), original@.len() as int),
    {
        let mut vtt = owned("WEBVTT\n\n");
        let mut i: usize = 0;
        while i < original.len()
            invariant
                0 <= i <= original@.len(),
                vtt@ == rebuilt(segments_view(original@), views(translated@), i as int),
            decreases original@.len() - i,
        {
            let text = if i < translated.len() {
                translated[i].as_str()
            } else {
                original[i].text.as_str()
            };
            let start = VttParser::format_time(original[i].start_ms);
            let end = VttParser::format_time(original[i].end_ms);
            let timing = concat2(concat3(start.as_str(), " --> ", end.as_str()).as_str(), "\n");
            let block = concat3(timing.as_str(), text, "\n\n");
            proof {
                assert(block@ =~= cue_block(
                    segments_view(original@)[i as int],
                    cue_text(segments_view(original@), views(translated@), i as int),
                ));
            }
            vtt = vtt.concat(block.as_str());
            i = i + 1;
        }
        vtt
    }

    /// A time in milliseconds as `HH:MM:SS.mmm`.
    pub fn format_time(ms: u64) -> (r: String)
        ensures
            r@ == time_text(ms),
    {
        let hours = zero_padded(ms / 3600000, 2);
        let minutes = zero_padded((ms % 3600000) / 60000, 2);
        let seconds = zero_padded((ms % 60000) / 1000, 2);
        let millis = zero_padded(ms % 1000, 3);
        let head = concat3(hours.as_str(), ":", minutes.as_str());
        let tail = concat3(seconds.as_str(), ".", millis.as_str());
        let r = concat3(head.as_str(), ":", tail.as_str());
        proof {
            assert(r@ =~= time_text(ms));
        }
        r
    }

    /// The texts of the segments, in order.
    pub fn extract_texts(segments: &[SubtitleSegment]) -> (r: Vec<String>)
        ensures
            r@.len() == segments@.len(),
            forall|i: int| 0 <= i < r@.len() ==> (#[trigger] r@[i])@ == segments@[i]@.text,
    {
        let mut out: Vec<String> = Vec::new();
        let mut i: usize = 0;
        while i < segments.len()
            invariant
                0 <= i <= segments@.len(),
                out@.len() == i,
                forall|k: int| 0 <= k < i ==> (#[trigger] out@[k])@ == segments@[k]@.text,
            decreases segments@.len() - i,
        {
            out.push(segments[i].text.clone());
            i = i + 1;
        }
        out
    }

    /// The segments with their texts replaced by the translations, where
    /// there are any.
    pub fn apply_translations(original: &[SubtitleSegment], translated_texts: &[String]) -> (r: Vec<
        SubtitleSegment,
    >)
        ensures
            segments_view(r@) == translated_segments(
                segments_view(original@),
                views(translated_texts@),
            ),
    {
        let mut out: Vec<SubtitleSegment> = Vec::new();
        let mut i: usize = 0;
        while i < original.len()
            invariant
                0 <= i <= original@.len(),
                out@.len() == i,
                forall|k: int|
                    0 <= k < i ==> (#[trigger] out@[k])@ == translated_segments(
                        segments_view(original@),
                        views(translated_texts@),
                    )[k],
            decreases original@.len() - i,
        {
            let text = if i < translated_texts.len() {
                translated_texts[i].clone()
            } else {
                original[i].text.clone()
            };
            out.push(
                SubtitleSegment {
                    index: original[i].index,
                    start_ms: original[i].start_ms,
                    end_ms: original[i].end_ms,
                    text,
                },
            );
            i = i + 1;
        }
        proof {
            assert(segments_view(out@) =~= translated_segments(
                segments_view(original@),
                views(translated_texts@),
            ));
        }
        out
    }
}

/// Reads a translated text back into the texts of its segments: a line with
/// a marker `[n]` starts a segment, the lines that follow continue it.
pub fn parse_translated_text(text: &str) -> (r: Vec<String>)
    ensures
        views(r@) == translated_texts(text@),
{
    let all = lines(text);
    let mut done: Vec<String> = Vec::new();
    let mut current = String::new();
    let mut i: usize = 0;
    proof {
        assert(views(done@) =~= Seq::<Seq<char>>::empty());
    }
    while i < all.len()
        invariant
            0 <= i <= all.len(),
            views(all@) == lines_of(text@),
            after_translated_lines(views(all@), i as int) == (TranslationState {
                done: views(done@),
                current: current@,
            }),
        decreases all.len() - i,
    {
        let line = all[i].as_str();
        proof {
            assert(views(all@)[i as int] == all@[i as int]@);
        }
        let marked = match find_match("\\[(\\d+)\\]\\s*", line) {
            Some(m) => m,
            None => false,
        };
        if marked {
            if !current.as_str().is_empty() {
                let ghost dv = views(done@);
                done.push(owned(trim(current.as_str())));
                proof {
                    assert(views(done@) =~= dv.push(trim_of(current@)));
                }
                current = String::new();
            }
            let rest = match remove_first("\\[(\\d+)\\]\\s*", line) {
                Some(t) => t,
                None => owned(line),
            };
            current = current.concat(trim(rest.as_str()));
            current = current.concat(" ");
        } else if !trim(line).is_empty() {
            current = current.concat(trim(line));
            current = current.concat(" ");
        }
        i = i + 1;
    }
    if !current.as_str().is_empty() {
        let ghost dv = views(done@);
        done.push(owned(trim(current.as_str())));
        proof {
            assert(views(done@) =~= dv.push(trim_of(current@)));
        }
    }
    done
}

} // verus!
