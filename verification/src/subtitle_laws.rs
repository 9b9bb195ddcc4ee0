//! Laws of the subtitle codec: what is written is read back.

use vstd::prelude::*;
use crate::subtitle_parser::{
    after_line, after_lines, after_translated_line, after_translated_lines, closed, cue_block,
    cue_text, flushed, has_marker, millis_of, number_of, numbered, parsed_vtt, rebuilt,
    seconds_millis, seconds_of, stripped, time_of, time_text, time_token, timestamp_of,
    translated_texts, translation_text, without_marker, OpenCue, ParseErrorView, ParseState,
    SegmentView, TranslationState,
};
use crate::text::{
    all_digits, decimal_of, first_token_of, is_digit, is_whitespace, join_of,
    lemma_split_is_not_empty, lines_of, occurs_at, padded, seq_contains, split_of, strip_cr,
    trim_of, trim_start_of, zeros,
};
use crate::text_lemmas::{
    free_of, lemma_blanks_around, lemma_decimal_length, lemma_decimal_of, lemma_digits_parse,
    lemma_first_token_is_all, lemma_leading_zeros, lemma_lines_of_append,
    lemma_lines_of_final_line_feed, lemma_lines_of_line, lemma_lines_of_line_feed,
    lemma_lines_of_pieces, lemma_lines_of_single, lemma_split_at_first,
    lemma_split_without_pattern, lemma_trim_end_blanks, lemma_trim_keeps,
};

verus! {

/// True for a text of digits, colons and full stops.
pub open spec fn is_time_text(s: Seq<char>) -> bool {
    forall|i: int| 0 <= i < s.len() ==> is_digit(#[trigger] s[i]) || s[i] == ':' || s[i] == '.'
}

/// A padded number is made of digits and reads as the number.
pub proof fn lemma_padded_number(n: nat, width: int)
    requires
        n <= u64::MAX,
    ensures
        padded(n, width).len() >= 1,
        all_digits(padded(n, width)),
        is_time_text(padded(n, width)),
        free_of(padded(n, width), ':'),
        free_of(padded(n, width), '.'),
        number_of(padded(n, width)) == n,
{
    lemma_decimal_of(n);
    lemma_leading_zeros(width - decimal_of(n).len(), decimal_of(n));
    lemma_digits_parse(padded(n, width));
    let p = padded(n, width);
    assert forall|i: int| 0 <= i < p.len() implies p[i] != ':' && p[i] != '.' by {
        assert(is_digit(p[i]));
    }
}

/// Three digits behind the decimal point read as the milliseconds they
/// write.
pub proof fn lemma_millis_round_trip(f: nat)
    requires
        f < 1000,
    ensures
        padded(f, 3).len() == 3,
        millis_of(padded(f, 3)) == f,
{
    lemma_decimal_length(f);
    lemma_padded_number(f, 3);
    let p = padded(f, 3);
    assert(p + zeros(3 - p.len()) =~= p);
}

/// A seconds component that was written reads back.
#[verifier::rlimit(50)]
pub proof fn lemma_seconds_round_trip(s: nat, f: nat)
    requires
        s < 60,
        f < 1000,
    ensures
        seconds_of(padded(s, 2) + "."@ + padded(f, 3)) == Ok::<u64, ParseErrorView>(
            (s * 1000 + f) as u64,
        ),
        free_of(padded(s, 2) + "."@ + padded(f, 3), ':'),
        is_time_text(padded(s, 2) + "."@ + padded(f, 3)),
{
    reveal_strlit(".");
    let a = padded(s, 2);
    let b = padded(f, 3);
    let x = a + "."@ + b;
    lemma_padded_number(s, 2);
    lemma_millis_round_trip(f);
    lemma_padded_number(f, 3);
    lemma_split_at_first(a, "."@, b);
    lemma_split_without_pattern(b, "."@);
    assert(split_of(x, "."@) =~= seq![a, b]);
    assert(seconds_millis(x) == s * 1000 + f);
    assert forall|i: int| 0 <= i < x.len() implies (is_digit(#[trigger] x[i]) || x[i] == ':' || x[i]
        == '.') && x[i] != ':' by {
        if i < a.len() {
            assert(x[i] == a[i]);
            assert(is_digit(a[i]));
        } else if i == a.len() {
            assert(x[i] == '.');
        } else {
            assert(x[i] == b[i - a.len() - 1]);
            assert(is_digit(b[i - a.len() - 1]));
        }
    }
}

/// A time text holds neither whitespace nor a minus sign.
pub proof fn lemma_time_text_is_plain(s: Seq<char>)
    requires
        is_time_text(s),
    ensures
        forall|i: int| 0 <= i < s.len() ==> !is_whitespace(#[trigger] s[i]),
        free_of(s, '-'),
{
    assert forall|i: int| 0 <= i < s.len() implies !is_whitespace(#[trigger] s[i]) && s[i] != '-' by {
        assert(is_digit(s[i]) || s[i] == ':' || s[i] == '.');
    }
}

/// The text of a time is made of digits, colons and full stops, and is not
/// empty.
#[verifier::rlimit(50)]
pub proof fn lemma_time_text_shape(ms: u64)
    ensures
        is_time_text(time_text(ms)),
        time_text(ms).len() > 0,
{
    reveal_strlit(":");
    reveal_strlit(".");
    let h = padded((ms / 3600000) as nat, 2);
    let m = padded(((ms % 3600000) / 60000) as nat, 2);
    let s = padded(((ms % 60000) / 1000) as nat, 2);
    let f = padded((ms % 1000) as nat, 3);
    lemma_padded_number((ms / 3600000) as nat, 2);
    lemma_padded_number(((ms % 3600000) / 60000) as nat, 2);
    lemma_padded_number(((ms % 60000) / 1000) as nat, 2);
    lemma_padded_number((ms % 1000) as nat, 3);
    let t = time_text(ms);
    assert(t =~= h + ":"@ + m + ":"@ + s + "."@ + f);
    assert forall|i: int| 0 <= i < t.len() implies is_digit(#[trigger] t[i]) || t[i] == ':' || t[i]
        == '.' by {
        let a = h.len() as int;
        let b = a + 1 + m.len();
        let c = b + 1 + s.len();
        if i < a {
            assert(t[i] == h[i]);
        } else if i == a {
            assert(t[i] == ':');
        } else if i < b {
            assert(t[i] == m[i - a - 1]);
        } else if i == b {
            assert(t[i] == ':');
        } else if i < c {
            assert(t[i] == s[i - b - 1]);
        } else if i == c {
            assert(t[i] == '.');
        } else {
            assert(t[i] == f[i - c - 1]);
        }
    }
}

/// The parts of a time add up to the time.
pub proof fn lemma_time_parts(ms: u64)
    ensures
        (ms / 3600000) * 3600000 + ((ms % 3600000) / 60000) * 60000 + (((ms % 60000) / 1000) * 1000
            + ms % 1000) == ms,
        (ms % 3600000) / 60000 < 60,
        (ms % 60000) / 1000 < 60,
        ms % 1000 < 1000,
{
    let r = ms % 3600000;
    assert(ms == (ms / 3600000) * 3600000 + r);
    assert(r == (r / 60000) * 60000 + r % 60000);
    assert(r % 60000 == ms % 60000) by {
        assert(3600000 == 60 * 60000);
    }
    let q = ms % 60000;
    assert(q == (q / 1000) * 1000 + q % 1000);
    assert(q % 1000 == ms % 1000) by {
        assert(60000 == 60 * 1000);
    }
}

/// Three parts without a colon, joined by colons, split into the three.
pub proof fn lemma_split_three(h: Seq<char>, m: Seq<char>, last: Seq<char>)
    requires
        free_of(h, ':'),
        free_of(m, ':'),
        free_of(last, ':'),
    ensures
        split_of(h + ":"@ + m + ":"@ + last, ":"@) == seq![h, m, last],
{
    reveal_strlit(":");
    let t = h + ":"@ + m + ":"@ + last;
    assert(t =~= h + ":"@ + (m + ":"@ + last));
    lemma_split_at_first(h, ":"@, m + ":"@ + last);
    lemma_split_at_first(m, ":"@, last);
    lemma_split_without_pattern(last, ":"@);
    assert(split_of(t, ":"@) =~= seq![h, m, last]);
}

/// What a time of three parts reads as, from what its parts read as.
pub proof fn lemma_time_of_three_parts(
    t: Seq<char>,
    h: Seq<char>,
    m: Seq<char>,
    last: Seq<char>,
    secs: u64,
)
    requires
        first_token_of(t) == Some(t),
        !seq_contains(t, "-"@),
        split_of(t, ":"@) == seq![h, m, last],
        seconds_of(last) == Ok::<u64, ParseErrorView>(secs),
        number_of(h) * 3600000 + number_of(m) * 60000 + secs <= u64::MAX,
    ensures
        time_of(t) == Ok::<u64, ParseErrorView>(
            (number_of(h) * 3600000 + number_of(m) * 60000 + secs) as u64,
        ),
{
    assert(time_token(t) == t);
    let parts = split_of(t, ":"@);
    assert(parts.len() == 3);
    assert(parts[0] == h && parts[1] == m && parts[2] == last);
}

/// A time that was written reads back as it was.
#[verifier::rlimit(50)]
pub proof fn lemma_time_round_trip(ms: u64)
    ensures
        time_of(time_text(ms)) == Ok::<u64, ParseErrorView>(ms),
{
    let hours = (ms / 3600000) as nat;
    let minutes = ((ms % 3600000) / 60000) as nat;
    let seconds = ((ms % 60000) / 1000) as nat;
    let millis = (ms % 1000) as nat;
    let h = padded(hours, 2);
    let m = padded(minutes, 2);
    let last = padded(seconds, 2) + "."@ + padded(millis, 3);
    let t = time_text(ms);
    lemma_time_parts(ms);
    lemma_padded_number(hours, 2);
    lemma_padded_number(minutes, 2);
    lemma_seconds_round_trip(seconds, millis);
    assert(t =~= h + ":"@ + m + ":"@ + last);
    assert(first_token_of(t) == Some(t) && !seq_contains(t, "-"@)) by {
        reveal_strlit("-");
        lemma_time_text_shape(ms);
        lemma_time_text_is_plain(t);
        lemma_first_token_is_all(t);
        lemma_split_without_pattern(t, "-"@);
    }
    lemma_split_three(h, m, last);
    lemma_time_of_three_parts(t, h, m, last, (seconds * 1000 + millis) as u64);
}

/// A timing line of two times without a minus sign splits into the two
/// sides of the arrow.
#[verifier::rlimit(50)]
pub proof fn lemma_split_at_arrow(a: Seq<char>, b: Seq<char>)
    requires
        free_of(a, '-'),
        free_of(b, '-'),
    ensures
        split_of(a + " --> "@ + b, "-->"@) == seq![a + " "@, " "@ + b],
{
    reveal_strlit(" --> ");
    reveal_strlit("-->");
    reveal_strlit(" ");
    let line = a + " --> "@ + b;
    let front = a + " "@;
    let back = " "@ + b;
    assert(line =~= front + "-->"@ + back);
    assert forall|i: int| 0 <= i < front.len() implies front[i] != '-' by {
        if i < a.len() {
            assert(front[i] == a[i]);
        }
    }
    assert forall|i: int| 0 <= i < back.len() implies back[i] != '-' by {
        if i > 0 {
            assert(back[i] == b[i - 1]);
        }
    }
    lemma_split_at_first(front, "-->"@, back);
    lemma_split_without_pattern(back, "-->"@);
    assert(split_of(line, "-->"@) =~= seq![front, back]);
}

/// What a timing line reads as, from what its two sides read as.
pub proof fn lemma_timestamp_of_two_sides(
    line: Seq<char>,
    front: Seq<char>,
    back: Seq<char>,
    start: u64,
    end: u64,
)
    requires
        split_of(line, "-->"@) == seq![front, back],
        time_of(trim_of(front)) == Ok::<u64, ParseErrorView>(start),
        time_of(time_token(back)) == Ok::<u64, ParseErrorView>(end),
    ensures
        timestamp_of(line) == Ok::<(u64, u64), ParseErrorView>((start, end)),
{
    let parts = split_of(line, "-->"@);
    assert(parts.len() == 2);
    assert(parts[0] == front && parts[1] == back);
}

/// The two sides of the arrow of a timing line read as the times alone.
#[verifier::rlimit(50)]
pub proof fn lemma_sides_of_arrow(a: Seq<char>, b: Seq<char>)
    requires
        is_time_text(a),
        is_time_text(b),
        a.len() > 0,
        b.len() > 0,
    ensures
        trim_of(a + " "@) == a,
        time_token(" "@ + b) == b,
{
    reveal_strlit(" ");
    let blank = " "@;
    lemma_time_text_is_plain(a);
    lemma_time_text_is_plain(b);
    assert(is_whitespace(' '));
    lemma_blanks_around(Seq::<char>::empty(), a, blank);
    assert(Seq::<char>::empty() + a + blank =~= a + blank);
    lemma_blanks_around(blank, b, Seq::<char>::empty());
}

/// A timing line that was written reads back as the two times.
#[verifier::rlimit(50)]
pub proof fn lemma_timestamp_round_trip(start: u64, end: u64)
    ensures
        timestamp_of(time_text(start) + " --> "@ + time_text(end)) == Ok::<
            (u64, u64),
            ParseErrorView,
        >((start, end)),
{
    let a = time_text(start);
    let b = time_text(end);
    lemma_time_text_shape(start);
    lemma_time_text_shape(end);
    lemma_time_text_is_plain(a);
    lemma_time_text_is_plain(b);
    lemma_time_round_trip(start);
    lemma_time_round_trip(end);
    lemma_split_at_arrow(a, b);
    lemma_sides_of_arrow(a, b);
    lemma_timestamp_of_two_sides(a + " --> "@ + b, a + " "@, " "@ + b, start, end);
}

// ---------------------------------------------------------------------------
// Writing cues and reading them back
// ---------------------------------------------------------------------------

/// True for a line of cue text that is written as one line and read back as
/// one line of text: it holds no line feed, does not end in a carriage
/// return, is no timing line, and is not empty once its tags are stripped.
pub open spec fn is_one_line_text(t: Seq<char>) -> bool {
    &&& free_of(t, '\n')
    &&& !(t.len() > 0 && t.last() == '\r')
    &&& trim_of(t).len() > 0
    &&& !seq_contains(trim_of(t), "-->"@)
    &&& stripped(trim_of(t)).len() > 0
}

/// The lines of a cue text: its pieces between line feeds.
pub open spec fn text_lines(t: Seq<char>) -> Seq<Seq<char>> {
    split_of(t, seq!['\n'])
}

/// True for a cue text of one line or several, each of which is written as
/// one line and read back as one line of text.
pub open spec fn is_cue_text(t: Seq<char>) -> bool {
    forall|j: int| 0 <= j < text_lines(t).len() ==> is_one_line_text(#[trigger] text_lines(t)[j])
}

/// What the lines of a cue text are read as: each one trimmed and stripped.
pub open spec fn lines_read(lines: Seq<Seq<char>>) -> Seq<Seq<char>> {
    Seq::new(lines.len(), |j: int| stripped(trim_of(lines[j])))
}

/// The text that a cue text is read back as: its lines, each trimmed and
/// stripped, joined by line feeds.
pub open spec fn text_read(t: Seq<char>) -> Seq<char> {
    join_of(lines_read(text_lines(t)), "\n"@)
}

/// The timing line of a segment.
pub open spec fn timing_line(s: SegmentView) -> Seq<char> {
    time_text(s.start_ms) + " --> "@ + time_text(s.end_ms)
}

/// The segment that the cue at index `i` is read back as: the same times,
/// the index `i`, and the text as it is read back.
pub open spec fn read_back(original: Seq<SegmentView>, translated: Seq<Seq<char>>, i: int) -> SegmentView {
    SegmentView {
        index: i as u32,
        start_ms: original[i].start_ms,
        end_ms: original[i].end_ms,
        text: text_read(cue_text(original, translated, i)),
    }
}

/// The lines of one cue as it is written: its timing line, the lines of its
/// text and a blank line.
pub open spec fn block_lines(seg: SegmentView, text: Seq<char>) -> Seq<Seq<char>> {
    seq![timing_line(seg)] + text_lines(text) + seq![Seq::<char>::empty()]
}

/// The lines of the first `n` cues as they are written.
pub open spec fn cue_lines(original: Seq<SegmentView>, translated: Seq<Seq<char>>, n: int) -> Seq<
    Seq<char>,
>
    decreases n,
{
    if n <= 0 {
        Seq::empty()
    } else {
        cue_lines(original, translated, n - 1) + block_lines(
            original[n - 1],
            cue_text(original, translated, n - 1),
        )
    }
}

/// The lines of the header.
pub open spec fn header_lines() -> Seq<Seq<char>> {
    seq!["WEBVTT"@, Seq::<char>::empty()]
}

/// A timing line is its own trimmed form, holds the arrow, and no line
/// feed.
#[verifier::rlimit(50)]
pub proof fn lemma_timing_line_shape(s: SegmentView)
    ensures
        trim_of(timing_line(s)) == timing_line(s),
        seq_contains(timing_line(s), "-->"@),
        free_of(timing_line(s), '\n'),
        strip_cr(timing_line(s)) == timing_line(s),
        timing_line(s).len() > 0,
{
    reveal_strlit(" --> ");
    reveal_strlit("-->");
    let a = time_text(s.start_ms);
    let b = time_text(s.end_ms);
    let line = timing_line(s);
    lemma_time_text_shape(s.start_ms);
    lemma_time_text_shape(s.end_ms);
    lemma_time_text_is_plain(a);
    lemma_time_text_is_plain(b);
    assert(line[0] == a[0]);
    assert(line.last() == b.last());
    assert(is_digit(b.last()) || b.last() == ':' || b.last() == '.');
    lemma_trim_keeps(line);
    let at = (a.len() + 1) as int;
    assert(line.subrange(at, at + 3) =~= "-->"@);
    assert(occurs_at(line, "-->"@, at));
    assert forall|i: int| 0 <= i < line.len() implies line[i] != '\n' by {
        if i < a.len() {
            assert(line[i] == a[i]);
        } else if i >= a.len() + 5 {
            assert(line[i] == b[i - a.len() - 5]);
        }
    }
}

/// The lines of the header as it is written.
#[verifier::rlimit(50)]
pub proof fn lemma_lines_of_header()
    ensures
        lines_of("WEBVTT\n\n"@) == header_lines(),
        "WEBVTT\n\n"@.len() == 8,
        "WEBVTT\n\n"@[0] == 'W',
        "WEBVTT\n\n"@.last() == '\n',
        "WEBVTT"@ == "WEBVTT\n\n"@.subrange(0, 6),
{
    reveal_strlit("WEBVTT\n\n");
    reveal_strlit("WEBVTT");
    let nl = seq!['\n'];
    let none = Seq::<char>::empty();
    let r = "WEBVTT\n\n"@;
    assert(r =~= "WEBVTT"@ + nl + (none + nl + none));
    lemma_lines_of_line("WEBVTT"@, none + nl + none);
    lemma_lines_of_line(none, none);
    assert(lines_of(none) =~= Seq::<Seq<char>>::empty());
    assert(lines_of(r) =~= header_lines());
    assert("WEBVTT"@ =~= r.subrange(0, 6));
}

/// The lines of one cue as it is written.
#[verifier::rlimit(50)]
pub proof fn lemma_lines_of_block(seg: SegmentView, text: Seq<char>)
    requires
        is_cue_text(text),
    ensures
        lines_of(cue_block(seg, text)) == block_lines(seg, text),
        cue_block(seg, text).len() > 0,
        cue_block(seg, text).last() == '\n',
{
    reveal_strlit("\n");
    reveal_strlit("\n\n");
    let nl = seq!['\n'];
    let none = Seq::<char>::empty();
    let block = cue_block(seg, text);
    lemma_timing_line_shape(seg);
    assert(block =~= timing_line(seg) + nl + (text + nl + (none + nl + none)));
    lemma_lines_of_line(timing_line(seg), text + nl + (none + nl + none));
    assert forall|j: int| 0 <= j < split_of(text, nl).len() implies strip_cr(
        #[trigger] split_of(text, nl)[j],
    ) == split_of(text, nl)[j] by {
        assert(is_one_line_text(text_lines(text)[j]));
    }
    lemma_lines_of_pieces(text, none + nl + none);
    lemma_lines_of_line(none, none);
    assert(lines_of(none) =~= Seq::<Seq<char>>::empty());
    assert(lines_of(none + nl + none) =~= seq![none]);
    assert(lines_of(block) =~= block_lines(seg, text));
}

/// What `rebuilt` writes starts with the header and ends with a line feed.
#[verifier::rlimit(50)]
pub proof fn lemma_rebuilt_shape(original: Seq<SegmentView>, translated: Seq<Seq<char>>, n: int)
    requires
        0 <= n <= original.len(),
        forall|i: int| 0 <= i < n ==> is_cue_text(#[trigger] cue_text(original, translated, i)),
    ensures
        rebuilt(original, translated, n).len() >= 8,
        rebuilt(original, translated, n).last() == '\n',
        rebuilt(original, translated, n)[0] == 'W',
        "WEBVTT"@.is_prefix_of(rebuilt(original, translated, n)),
    decreases n,
{
    lemma_lines_of_header();
    if n > 0 {
        lemma_rebuilt_shape(original, translated, n - 1);
        let before = rebuilt(original, translated, n - 1);
        let block = cue_block(original[n - 1], cue_text(original, translated, n - 1));
        lemma_lines_of_block(original[n - 1], cue_text(original, translated, n - 1));
        let r = rebuilt(original, translated, n);
        assert(r == before + block);
        assert(r.last() == block.last());
        assert(r[0] == before[0]);
        assert(r.subrange(0, 6) =~= before.subrange(0, 6));
    }
}

/// The lines of the cues that `rebuilt` writes.
#[verifier::rlimit(50)]
pub proof fn lemma_lines_of_rebuilt(original: Seq<SegmentView>, translated: Seq<Seq<char>>, n: int)
    requires
        0 <= n <= original.len(),
        forall|i: int| 0 <= i < n ==> is_cue_text(#[trigger] cue_text(original, translated, i)),
    ensures
        lines_of(rebuilt(original, translated, n)) == header_lines() + cue_lines(
            original,
            translated,
            n,
        ),
    decreases n,
{
    if n == 0 {
        lemma_lines_of_header();
        assert(header_lines() + cue_lines(original, translated, 0) =~= header_lines());
    } else {
        lemma_lines_of_rebuilt(original, translated, n - 1);
        lemma_rebuilt_shape(original, translated, n - 1);
        let before = rebuilt(original, translated, n - 1);
        let seg = original[n - 1];
        let text = cue_text(original, translated, n - 1);
        lemma_lines_of_block(seg, text);
        lemma_lines_of_append(before, cue_block(seg, text));
        assert(lines_of(rebuilt(original, translated, n)) =~= header_lines() + cue_lines(
            original,
            translated,
            n,
        ));
    }
}

/// The first lines of a longer list are read as they are read alone.
pub proof fn lemma_after_lines_prefix(a: Seq<Seq<char>>, b: Seq<Seq<char>>, k: int)
    requires
        0 <= k <= a.len(),
    ensures
        after_lines(a + b, k) == after_lines(a, k),
    decreases k,
{
    if k > 0 {
        lemma_after_lines_prefix(a, b, k - 1);
        assert((a + b)[k - 1] == a[k - 1]);
    }
}

/// The state after the first `n` of some lines, read from the state `st`
/// on.
pub open spec fn read_on(st: ParseState, lines: Seq<Seq<char>>, n: int) -> ParseState
    decreases n,
{
    if n <= 0 {
        st
    } else {
        after_line(read_on(st, lines, n - 1), lines[n - 1])
    }
}

/// Reading two lists of lines one after the other: the second is read on
/// from where the first ended.
pub proof fn lemma_read_on_continues(a: Seq<Seq<char>>, b: Seq<Seq<char>>, k: int)
    requires
        0 <= k <= b.len(),
    ensures
        after_lines(a + b, a.len() + k) == read_on(after_lines(a, a.len() as int), b, k),
    decreases k,
{
    if k == 0 {
        lemma_after_lines_prefix(a, b, a.len() as int);
    } else {
        lemma_read_on_continues(a, b, k - 1);
        assert((a + b)[a.len() + k - 1] == b[k - 1]);
    }
}

/// The state in which nothing is open and nothing has failed.
pub open spec fn settled(segments: Seq<SegmentView>) -> ParseState {
    ParseState { segments, open: None, failed: None }
}

/// The header is read without effect.
#[verifier::rlimit(50)]
pub proof fn lemma_header_is_skipped()
    ensures
        after_lines(header_lines(), 2) == settled(Seq::empty()),
{
    reveal_strlit("WEBVTT");
    reveal_strlit("-->");
    let h = "WEBVTT"@;
    let start = settled(Seq::empty());
    assert(after_lines(header_lines(), 0) == start);
    assert forall|i: int| 0 <= i < h.len() implies !is_whitespace(#[trigger] h[i]) && h[i] != '-' by {}
    lemma_first_token_is_all(h);
    lemma_split_without_pattern(h, "-->"@);
    assert(after_line(start, h) == start);
    assert(after_lines(header_lines(), 1) == after_line(after_lines(header_lines(), 0), h));
    let none = Seq::<char>::empty();
    assert(trim_of(none) =~= none);
    lemma_split_without_pattern(none, "-->"@);
    assert(after_line(start, none) == start);
    assert(after_lines(header_lines(), 2) == after_line(
        after_lines(header_lines(), 1),
        header_lines()[1],
    ));
}

/// The state in which the cue of `seg` is open with the texts `texts`.
pub open spec fn filling(st: ParseState, seg: SegmentView, texts: Seq<Seq<char>>) -> ParseState {
    ParseState {
        open: Some(OpenCue { start_ms: seg.start_ms, end_ms: seg.end_ms, texts }),
        ..st
    }
}

/// The timing line of a written cue opens it, and each line of its text is
/// added to it as it is read.
#[verifier::rlimit(50)]
pub proof fn lemma_text_lines_are_read(st: ParseState, seg: SegmentView, text: Seq<char>, k: int)
    requires
        st.open is None,
        st.failed is None,
        seg.start_ms <= seg.end_ms,
        is_cue_text(text),
        0 <= k <= text_lines(text).len(),
    ensures
        read_on(st, block_lines(seg, text), 1 + k) == filling(
            st,
            seg,
            lines_read(text_lines(text)).take(k),
        ),
    decreases k,
{
    let lines = block_lines(seg, text);
    let read = lines_read(text_lines(text));
    if k == 0 {
        let line = timing_line(seg);
        lemma_timing_line_shape(seg);
        lemma_timestamp_round_trip(seg.start_ms, seg.end_ms);
        assert(closed(st) == st);
        assert(lines[0] == line);
        assert(read_on(st, lines, 0) == st);
        assert(read_on(st, lines, 1) == after_line(st, line));
        assert(read.take(0) =~= Seq::<Seq<char>>::empty());
    } else {
        lemma_text_lines_are_read(st, seg, text, k - 1);
        let t = text_lines(text)[k - 1];
        assert(lines[k] == t);
        assert(is_one_line_text(t));
        let before = filling(st, seg, read.take(k - 1));
        assert(read_on(st, lines, 1 + k) == after_line(before, t));
        assert(read[k - 1] == stripped(trim_of(t)));
        assert(read.take(k - 1).push(stripped(trim_of(t))) =~= read.take(k));
    }
}

/// One written cue is read as one segment: the timing line opens it, the
/// lines of its text fill it, the blank line closes it.
#[verifier::rlimit(50)]
pub proof fn lemma_cue_is_read(st: ParseState, seg: SegmentView, text: Seq<char>)
    requires
        st.open is None,
        st.failed is None,
        st.segments.len() < u32::MAX,
        seg.start_ms <= seg.end_ms,
        is_cue_text(text),
    ensures
        read_on(st, block_lines(seg, text), block_lines(seg, text).len() as int) == settled(
            st.segments.push(
                SegmentView {
                    index: st.segments.len() as u32,
                    start_ms: seg.start_ms,
                    end_ms: seg.end_ms,
                    text: text_read(text),
                },
            ),
        ),
{
    reveal_strlit("-->");
    let lines = block_lines(seg, text);
    let m = text_lines(text).len() as int;
    let read = lines_read(text_lines(text));
    lemma_split_is_not_empty(text, seq!['\n']);
    lemma_text_lines_are_read(st, seg, text, m);
    assert(read.take(m) =~= read);
    let filled = filling(st, seg, read);
    let none = Seq::<char>::empty();
    assert(lines.len() == m + 2);
    assert(lines[m + 1] == none);
    assert(read_on(st, lines, m + 2) == after_line(filled, none));
    assert(trim_of(none) =~= none);
    lemma_split_without_pattern(none, "-->"@);
    assert(after_line(filled, none) == closed(filled));
}

/// The segments that the first `n` cues are read back as.
pub open spec fn read_back_all(original: Seq<SegmentView>, translated: Seq<Seq<char>>, n: int) -> Seq<
    SegmentView,
> {
    Seq::new(
        if n > 0 {
            n as nat
        } else {
            0
        },
        |i: int| read_back(original, translated, i),
    )
}

/// The written cues are read back one for one.
#[verifier::rlimit(50)]
pub proof fn lemma_cues_are_read(original: Seq<SegmentView>, translated: Seq<Seq<char>>, n: int)
    requires
        0 <= n <= original.len(),
        n < u32::MAX,
        forall|i: int| 0 <= i < n ==> (#[trigger] original[i]).start_ms <= original[i].end_ms,
        forall|i: int| 0 <= i < n ==> is_cue_text(#[trigger] cue_text(original, translated, i)),
    ensures
        after_lines(
            header_lines() + cue_lines(original, translated, n),
            (2 + cue_lines(original, translated, n).len()) as int,
        ) == settled(read_back_all(original, translated, n)),
    decreases n,
{
    let all = header_lines() + cue_lines(original, translated, n);
    if n == 0 {
        lemma_header_is_skipped();
        assert(all =~= header_lines());
        assert(read_back_all(original, translated, 0) =~= Seq::<SegmentView>::empty());
    } else {
        lemma_cues_are_read(original, translated, n - 1);
        let seg = original[n - 1];
        let text = cue_text(original, translated, n - 1);
        let before = header_lines() + cue_lines(original, translated, n - 1);
        let tail = block_lines(seg, text);
        let done = read_back_all(original, translated, n - 1);
        assert(all =~= before + tail);
        assert(before.len() == 2 + cue_lines(original, translated, n - 1).len());
        lemma_read_on_continues(before, tail, tail.len() as int);
        assert(done.len() == n - 1);
        lemma_cue_is_read(settled(done), seg, text);
        assert(done.push(read_back(original, translated, n - 1)) =~= read_back_all(
            original,
            translated,
            n,
        ));
    }
}

/// Writing segments and reading the result back gives one segment for each,
/// in order, numbered from 0, with the times it was written with: the round
/// trip keeps count and timing. This holds for texts of one line or several,
/// each line of which is a one-line text; the texts come back with each line
/// trimmed and stripped.
#[verifier::rlimit(50)]
pub proof fn lemma_rebuild_then_parse_keeps_timing(
    original: Seq<SegmentView>,
    translated: Seq<Seq<char>>,
)
    requires
        original.len() < u32::MAX,
        forall|i: int|
            0 <= i < original.len() ==> (#[trigger] original[i]).start_ms <= original[i].end_ms,
        forall|i: int|
            0 <= i < original.len() ==> is_cue_text(#[trigger] cue_text(original, translated, i)),
    ensures
        parsed_vtt(rebuilt(original, translated, original.len() as int)) == Ok::<
            Seq<SegmentView>,
            ParseErrorView,
        >(read_back_all(original, translated, original.len() as int)),
{
    let n = original.len() as int;
    let r = rebuilt(original, translated, n);
    lemma_lines_of_rebuilt(original, translated, n);
    lemma_rebuilt_shape(original, translated, n);
    lemma_cues_are_read(original, translated, n);
    assert(!is_whitespace('W'));
    assert(trim_start_of(r) == r);
    let all = lines_of(r);
    assert(all.len() == 2 + cue_lines(original, translated, n).len());
}

/// Segments that are written with their own texts and read back come back
/// as they were: the same count, and for each the same index, times and
/// text. This holds for segments that are numbered from 0, whose texts are
/// made of one-line texts, and are read back as they stand, which is so
/// where stripping a line a second time changes nothing.
pub proof fn lemma_parse_after_rebuild(segments: Seq<SegmentView>)
    requires
        segments.len() < u32::MAX,
        forall|i: int| 0 <= i < segments.len() ==> (#[trigger] segments[i]).index == i,
        forall|i: int|
            0 <= i < segments.len() ==> (#[trigger] segments[i]).start_ms <= segments[i].end_ms,
        forall|i: int| 0 <= i < segments.len() ==> is_cue_text((#[trigger] segments[i]).text),
        forall|i: int|
            0 <= i < segments.len() ==> text_read((#[trigger] segments[i]).text)
                == segments[i].text,
    ensures
        parsed_vtt(
            rebuilt(segments, texts_of(segments, segments.len() as int), segments.len() as int),
        ) == Ok::<
            Seq<SegmentView>,
            ParseErrorView,
        >(segments),
{
    let n = segments.len() as int;
    let texts = texts_of(segments, n);
    assert forall|i: int| 0 <= i < n implies is_cue_text(#[trigger] cue_text(segments, texts, i)) by {
        assert(cue_text(segments, texts, i) == segments[i].text);
    }
    lemma_rebuild_then_parse_keeps_timing(segments, texts);
    assert(read_back_all(segments, texts, n) =~= segments) by {
        assert forall|i: int| 0 <= i < n implies read_back_all(segments, texts, n)[i]
            == segments[i] by {
            assert(cue_text(segments, texts, i) == segments[i].text);
        }
    }
}

// ---------------------------------------------------------------------------
// Numbered lines for translation, and back
// ---------------------------------------------------------------------------

/// True for a text that neither starts nor ends with whitespace and holds
/// no line feed; the empty text is one.
pub open spec fn is_trimmed_line(t: Seq<char>) -> bool {
    &&& t.len() > 0 ==> !is_whitespace(t[0]) && !is_whitespace(t.last())
    &&& free_of(t, '\n')
}

/// True when the marker of a numbered line is found and taking it away
/// leaves the text.
pub open spec fn marker_is_read(s: SegmentView) -> bool {
    has_marker(numbered(s)) && trim_of(without_marker(numbered(s))) == s.text
}

/// The numbered lines of the first `n` segments, a blank line between each
/// two.
pub open spec fn numbered_lines(segments: Seq<SegmentView>, n: int) -> Seq<Seq<char>>
    decreases n,
{
    if n <= 0 {
        Seq::empty()
    } else if n == 1 {
        seq![numbered(segments[0])]
    } else {
        numbered_lines(segments, n - 1) + seq![Seq::<char>::empty(), numbered(segments[n - 1])]
    }
}

/// The translation text of the first `n` segments.
pub open spec fn translation_text_of(segments: Seq<SegmentView>, n: int) -> Seq<char> {
    join_of(
        Seq::new(
            if n > 0 {
                n as nat
            } else {
                0
            },
            |i: int| numbered(segments[i]),
        ),
        "\n\n"@,
    )
}

/// A numbered line holds no line feed and does not end in a carriage
/// return.
#[verifier::rlimit(50)]
pub proof fn lemma_numbered_shape(s: SegmentView)
    requires
        is_trimmed_line(s.text),
    ensures
        numbered(s).len() > 0,
        free_of(numbered(s), '\n'),
        numbered(s).last() != '\r',
{
    reveal_strlit("[");
    reveal_strlit("] ");
    let d = decimal_of(s.index as nat);
    lemma_decimal_of(s.index as nat);
    let l = numbered(s);
    assert(l =~= "["@ + d + "] "@ + s.text);
    assert forall|i: int| 0 <= i < l.len() implies l[i] != '\n' by {
        if i == 0 {
            assert(l[i] == '[');
        } else if i < 1 + d.len() {
            assert(l[i] == d[i - 1]);
            assert(is_digit(d[i - 1]));
        } else if i < 1 + d.len() + 2 {
            assert(l[i] == "] "@[i - 1 - d.len()]);
        } else {
            assert(l[i] == s.text[i - 3 - d.len()]);
        }
    }
    assert(is_whitespace('\r'));
    if s.text.len() > 0 {
        assert(l.last() == s.text.last());
    } else {
        assert(l.last() == "] "@[1]);
    }
}

/// The lines of the translation text: the numbered lines with blank lines
/// between them.
#[verifier::rlimit(50)]
pub proof fn lemma_lines_of_translation_text(segments: Seq<SegmentView>, n: int)
    requires
        1 <= n <= segments.len(),
        forall|i: int| 0 <= i < n ==> is_trimmed_line((#[trigger] segments[i]).text),
    ensures
        lines_of(translation_text_of(segments, n)) == numbered_lines(segments, n),
        translation_text_of(segments, n).len() > 0,
        translation_text_of(segments, n).last() != '\n',
        translation_text_of(segments, n).last() != '\r',
    decreases n,
{
    reveal_strlit("\n\n");
    let nl = seq!['\n'];
    let parts = Seq::new(n as nat, |i: int| numbered(segments[i]));
    let last = numbered(segments[n - 1]);
    lemma_numbered_shape(segments[n - 1]);
    if n == 1 {
        assert(translation_text_of(segments, 1) == last);
        lemma_lines_of_single(last);
    } else {
        lemma_lines_of_translation_text(segments, n - 1);
        let before = translation_text_of(segments, n - 1);
        assert(parts.drop_last() =~= Seq::new((n - 1) as nat, |i: int| numbered(segments[i])));
        assert(parts.last() == last);
        let all = translation_text_of(segments, n);
        assert(all == before + "\n\n"@ + last);
        assert(all =~= ((before + nl) + nl) + last);
        assert(all.last() == last.last());
        lemma_lines_of_final_line_feed(before);
        lemma_lines_of_append(before + nl, nl);
        lemma_lines_of_line_feed();
        lemma_lines_of_append((before + nl) + nl, last);
        lemma_lines_of_single(last);
        assert(lines_of(all) =~= numbered_lines(segments, n));
    }
}

/// The first lines of a longer list are read as they are read alone.
pub proof fn lemma_translated_lines_prefix(a: Seq<Seq<char>>, b: Seq<Seq<char>>, k: int)
    requires
        0 <= k <= a.len(),
    ensures
        after_translated_lines(a + b, k) == after_translated_lines(a, k),
    decreases k,
{
    if k > 0 {
        lemma_translated_lines_prefix(a, b, k - 1);
        assert((a + b)[k - 1] == a[k - 1]);
    }
}

/// The texts of the first `n` segments.
pub open spec fn texts_of(segments: Seq<SegmentView>, n: int) -> Seq<Seq<char>> {
    Seq::new(
        if n > 0 {
            n as nat
        } else {
            0
        },
        |i: int| segments[i].text,
    )
}

/// A trimmed line with a blank behind it trims back to itself.
pub proof fn lemma_trim_trailing_blank(t: Seq<char>)
    requires
        is_trimmed_line(t),
    ensures
        trim_of(t + " "@) == t,
        (t + " "@).len() > 0,
{
    reveal_strlit(" ");
    assert(is_whitespace(' '));
    let s = t + " "@;
    if t.len() > 0 {
        assert(s[0] == t[0]);
        lemma_trim_end_blanks(t, " "@);
    } else {
        assert(s[0] == ' ');
        assert(s.drop_first() =~= t);
        assert(crate::text::trim_start_of(s) == crate::text::trim_start_of(s.drop_first()));
        assert(crate::text::trim_start_of(t) == t);
        assert(crate::text::trim_end_of(t) == t);
    }
}

/// Reading a numbered line starts the next text.
pub proof fn lemma_numbered_line_is_read(st: TranslationState, s: SegmentView)
    requires
        marker_is_read(s),
    ensures
        after_translated_line(st, numbered(s)) == (TranslationState {
            done: flushed(st).done,
            current: s.text + " "@,
        }),
{
    let f = flushed(st);
    assert(f.current =~= Seq::<char>::empty());
    assert(f.current + s.text + " "@ =~= s.text + " "@);
}

/// What has been read after the numbered lines of `n` segments: the texts
/// of all but the last, and the last text, still open.
#[verifier::rlimit(50)]
pub proof fn lemma_numbered_lines_are_read(segments: Seq<SegmentView>, n: int)
    requires
        1 <= n <= segments.len(),
        !has_marker(Seq::<char>::empty()),
        forall|i: int| 0 <= i < n ==> is_trimmed_line((#[trigger] segments[i]).text),
        forall|i: int| 0 <= i < n ==> marker_is_read(#[trigger] segments[i]),
    ensures
        numbered_lines(segments, n).len() == 2 * n - 1,
        after_translated_lines(numbered_lines(segments, n), 2 * n - 1) == (TranslationState {
            done: texts_of(segments, n - 1),
            current: segments[n - 1].text + " "@,
        }),
    decreases n,
{
    let all = numbered_lines(segments, n);
    let start = TranslationState { done: Seq::empty(), current: Seq::empty() };
    if n == 1 {
        assert(after_translated_lines(all, 0) == start);
        assert(after_translated_lines(all, 1) == after_translated_line(start, all[0]));
        lemma_numbered_line_is_read(start, segments[0]);
        assert(flushed(start).done =~= texts_of(segments, 0));
    } else {
        lemma_numbered_lines_are_read(segments, n - 1);
        let before = numbered_lines(segments, n - 1);
        let none = Seq::<char>::empty();
        let tail = seq![none, numbered(segments[n - 1])];
        let k = 2 * (n - 1) - 1;
        assert(all =~= before + tail);
        lemma_translated_lines_prefix(before, tail, k);
        let st = after_translated_lines(all, k);
        assert(all[k] == none && all[k + 1] == numbered(segments[n - 1]));
        assert(after_translated_lines(all, k + 1) == after_translated_line(st, all[k]));
        assert(after_translated_lines(all, k + 2) == after_translated_line(
            after_translated_lines(all, k + 1),
            all[k + 1],
        ));
        assert(trim_of(none) =~= none);
        assert(after_translated_line(st, none) == st);
        lemma_numbered_line_is_read(st, segments[n - 1]);
        lemma_trim_trailing_blank(segments[n - 2].text);
        assert(flushed(st).done =~= texts_of(segments, n - 1)) by {
            assert(texts_of(segments, n - 2).push(segments[n - 2].text) =~= texts_of(
                segments,
                n - 1,
            ));
        }
    }
}

/// Writing segments as numbered lines and reading the lines back gives the
/// texts of the segments, for texts of one trimmed line each, the empty text
/// among them, provided that the pattern matcher finds the marker of each
/// numbered line, leaves the text when the marker is taken away, and finds
/// no marker in an empty line.
#[verifier::rlimit(50)]
pub proof fn lemma_translation_text_round_trip(segments: Seq<SegmentView>)
    requires
        !has_marker(Seq::<char>::empty()),
        forall|i: int| 0 <= i < segments.len() ==> is_trimmed_line((#[trigger] segments[i]).text),
        forall|i: int| 0 <= i < segments.len() ==> marker_is_read(#[trigger] segments[i]),
    ensures
        translated_texts(translation_text(segments)) == texts_of(segments, segments.len() as int),
{
    let n = segments.len() as int;
    assert(translation_text(segments) == translation_text_of(segments, n));
    if n == 0 {
        let parts = Seq::new(0, |i: int| numbered(segments[i]));
        assert(translation_text(segments) =~= Seq::<char>::empty());
        assert(lines_of(Seq::<char>::empty()) =~= Seq::<Seq<char>>::empty());
        assert(texts_of(segments, 0) =~= Seq::<Seq<char>>::empty());
    } else {
        lemma_lines_of_translation_text(segments, n);
        lemma_numbered_lines_are_read(segments, n);
        lemma_trim_trailing_blank(segments[n - 1].text);
        assert(texts_of(segments, n - 1).push(segments[n - 1].text) =~= texts_of(segments, n));
    }
}

} // verus!
