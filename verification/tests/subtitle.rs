use acp_core::subtitle_parser::{parse_translated_text, ParseError, SubtitleSegment, VttParser};

#[test]
fn test_parse_simple_vtt() {
    let vtt = r#"WEBVTT

00:00:01.000 --> 00:00:04.000
Hello, world!

00:00:05.000 --> 00:00:08.000
This is a test.
"#;

    let segments = VttParser::parse(vtt).unwrap();
    assert_eq!(segments.len(), 2);
    assert_eq!(segments[0].text, "Hello, world!");
    assert_eq!(segments[0].start_ms, 1000);
    assert_eq!(segments[0].end_ms, 4000);
    assert_eq!(segments[1].text, "This is a test.");
}

#[test]
fn test_parse_timestamp() {
    let (start, end) = VttParser::parse_timestamp("00:01:30.500 --> 00:02:45.250").unwrap();
    assert_eq!(start, 90500);
    assert_eq!(end, 165250);
}

#[test]
fn test_parse_time_short() {
    let ms = VttParser::parse_time("01:30.500").unwrap();
    assert_eq!(ms, 90500);
}

#[test]
fn test_format_time() {
    let time = VttParser::format_time(90500);
    assert_eq!(time, "00:01:30.500");
}

#[test]
fn test_to_translation_text() {
    let segments = vec![
        SubtitleSegment::new(0, 0, 1000, "Hello".to_string()),
        SubtitleSegment::new(1, 1000, 2000, "World".to_string()),
    ];

    let text = VttParser::to_translation_text(&segments);
    assert!(text.contains("[0] Hello"));
    assert!(text.contains("[1] World"));
}

#[test]
fn test_rebuild_vtt() {
    let segments = vec![SubtitleSegment::new(0, 0, 1000, "Hello".to_string())];
    let translated = vec!["こんにちは".to_string()];

    let vtt = VttParser::rebuild_vtt(&segments, &translated);
    assert!(vtt.starts_with("WEBVTT"));
    assert!(vtt.contains("00:00:00.000 --> 00:00:01.000"));
    assert!(vtt.contains("こんにちは"));
}

#[test]
fn test_strip_vtt_tags() {
    let text = "<b>Hello</b> <i>world</i>!";
    let clean = VttParser::strip_vtt_tags(text);
    assert_eq!(clean, "Hello world!");
}

#[test]
fn test_parse_translated_text() {
    let text = "[0] こんにちは\n\n[1] 世界";
    let translations = parse_translated_text(text);
    assert_eq!(translations.len(), 2);
    assert_eq!(translations[0], "こんにちは");
    assert_eq!(translations[1], "世界");
}

#[test]
fn the_timestamp_parser_accepts_the_three_forms_and_rejects_negatives() {
    assert_eq!(VttParser::parse_time("0:00.000").unwrap(), 0);
    assert_eq!(VttParser::parse_time("00:00.000").unwrap(), 0);
    assert_eq!(VttParser::parse_time("00:00:00.000").unwrap(), 0);
    assert_eq!(VttParser::parse_time("7.5").unwrap(), 7500);
    assert_eq!(VttParser::parse_time("1:02:03.004").unwrap(), 3_723_004);
    assert_eq!(VttParser::parse_time("12.3456").unwrap(), 12_345);
    assert_eq!(VttParser::parse_time("00:10.000 position:10%").unwrap(), 10_000);
    assert_eq!(VttParser::parse_time("").unwrap(), 0);
    assert!(matches!(
        VttParser::parse_time("-1:00.000"),
        Err(ParseError::InvalidTimestamp(t)) if t == "-1:00.000"
    ));
    assert!(matches!(VttParser::parse_time("00:-5.000"), Err(ParseError::InvalidTimestamp(_))));
    assert!(matches!(VttParser::parse_time("1:2:3:4"), Err(ParseError::InvalidTimestamp(_))));
    assert!(matches!(
        VttParser::parse_time("18446744073709551615:00:00.000"),
        Err(ParseError::InvalidTimestamp(_))
    ));
    assert!(matches!(
        VttParser::parse_seconds("18446744073709551615.0"),
        Err(ParseError::InvalidTimestamp(_))
    ));
    assert_eq!(VttParser::parse_seconds("2").unwrap(), 2000);
    assert_eq!(VttParser::parse_seconds("2.05").unwrap(), 2050);
    assert_eq!(VttParser::parse_seconds("x.y").unwrap(), 0);
}

#[test]
fn timing_lines_need_two_times() {
    assert!(matches!(
        VttParser::parse_timestamp("00:01.000"),
        Err(ParseError::InvalidTimestamp(l)) if l == "00:01.000"
    ));
    assert!(matches!(
        VttParser::parse_timestamp("1 --> 2 --> 3"),
        Err(ParseError::InvalidTimestamp(_))
    ));
    assert_eq!(
        VttParser::parse_timestamp("00:00:01.000 --> 00:00:04.000 align:start").unwrap(),
        (1000, 4000)
    );
    assert_eq!(VttParser::parse_timestamp("5 -->").unwrap(), (5000, 0));
}

#[test]
fn format_time_pads_each_field() {
    assert_eq!(VttParser::format_time(0), "00:00:00.000");
    assert_eq!(VttParser::format_time(3_723_004), "01:02:03.004");
    assert_eq!(VttParser::format_time(359_999_999), "99:59:59.999");
    assert_eq!(VttParser::format_time(360_000_000), "100:00:00.000");
    for ms in [0u64, 1, 999, 1000, 59_999, 60_000, 3_599_999, 3_600_000, 86_400_123] {
        assert_eq!(VttParser::parse_time(&VttParser::format_time(ms)).unwrap(), ms);
    }
}

#[test]
fn parse_needs_the_header() {
    assert!(matches!(
        VttParser::parse("00:00:01.000 --> 00:00:02.000\nx\n"),
        Err(ParseError::InvalidFormat(m)) if m == "Missing WEBVTT header"
    ));
    assert!(VttParser::parse("  \n WEBVTT\n").unwrap().is_empty());
}

#[test]
fn parse_collects_cue_text_and_skips_empty_cues() {
    let vtt = "WEBVTT\nKind: captions\n\n1\n00:00:01.000 --> 00:00:02.000\n<b>one</b>\n  two &amp; three \n00:00:03.000 --> 00:00:04.000\n\n00:00:05.000 --> 00:00:06.000\n<i></i>\n\n00:00:07.000 --> 00:00:08.000\nlast";
    let segments = VttParser::parse(vtt).unwrap();
    assert_eq!(segments.len(), 2);
    assert_eq!(segments[0].index, 0);
    assert_eq!(segments[0].text, "one\ntwo & three");
    assert_eq!((segments[0].start_ms, segments[0].end_ms), (1000, 2000));
    assert_eq!(segments[1].index, 1);
    assert_eq!(segments[1].text, "last");
    assert_eq!(segments[1].start_ms, 7000);
}

#[test]
fn parse_rejects_bad_timing_lines() {
    assert!(matches!(
        VttParser::parse("WEBVTT\n\n00:00:05.000 --> 00:00:01.000\nbackwards\n"),
        Err(ParseError::InvalidTimestamp(_))
    ));
    assert!(matches!(
        VttParser::parse("WEBVTT\n\n1 --> 2 --> 3\nx\n"),
        Err(ParseError::InvalidTimestamp(_))
    ));
}

#[test]
fn strip_removes_tags_and_decodes_entities() {
    assert_eq!(VttParser::strip_vtt_tags("<c.yellow>Hi</c> there"), "Hi there");
    assert_eq!(VttParser::strip_vtt_tags("a<00:00:01.500>b"), "ab");
    assert_eq!(VttParser::strip_vtt_tags("<v>x</v>&nbsp;&lt;y&gt;"), "x <y>");
    assert_eq!(VttParser::strip_vtt_tags("  plain  "), "plain");
}

#[test]
fn translation_text_round_trip() {
    let segments = vec![
        SubtitleSegment::new(0, 0, 1000, "Hello there".to_string()),
        SubtitleSegment::new(1, 1000, 2000, "General".to_string()),
        SubtitleSegment::new(2, 2000, 3000, "Kenobi".to_string()),
    ];
    let text = VttParser::to_translation_text(&segments);
    assert_eq!(text, "[0] Hello there\n\n[1] General\n\n[2] Kenobi");
    assert_eq!(parse_translated_text(&text), VttParser::extract_texts(&segments));
    assert_eq!(VttParser::to_translation_text(&[]), "");
    assert!(parse_translated_text("").is_empty());
    assert_eq!(parse_translated_text("[0] a\nb\n\n c \n[1] d"), vec!["a b c", "d"]);
    assert_eq!(parse_translated_text("no marker\nat all"), vec!["no marker at all"]);
}

#[test]
fn vtt_round_trip_keeps_segments() {
    let input = "WEBVTT\n\n00:00:01.000 --> 00:00:04.000\nHello\n\n00:00:05.000 --> 00:00:08.000\nWorld\n";
    let segments = VttParser::parse(input).unwrap();
    assert_eq!(segments.len(), 2);
    assert_eq!((segments[0].start_ms, segments[0].end_ms), (1000, 4000));
    assert_eq!(segments[0].text, "Hello");
    assert_eq!((segments[1].start_ms, segments[1].end_ms), (5000, 8000));
    assert_eq!(segments[1].text, "World");
    let rebuilt =
        VttParser::rebuild_vtt(&segments, &["Hello".to_string(), "World".to_string()]);
    assert_eq!(rebuilt.trim_end(), input.trim_end());
    let again = VttParser::parse(&rebuilt).unwrap();
    assert_eq!(again.len(), segments.len());
    for (a, b) in again.iter().zip(segments.iter()) {
        assert_eq!((a.index, a.start_ms, a.end_ms), (b.index, b.start_ms, b.end_ms));
        assert_eq!(a.text, b.text);
    }
}

#[test]
fn rebuild_and_apply_fall_back_to_the_original_text() {
    let segments = vec![
        SubtitleSegment::new(0, 0, 1000, "one".to_string()),
        SubtitleSegment::new(1, 1000, 2000, "two".to_string()),
    ];
    let vtt = VttParser::rebuild_vtt(&segments, &["eins".to_string()]);
    assert_eq!(
        vtt,
        "WEBVTT\n\n00:00:00.000 --> 00:00:01.000\neins\n\n00:00:01.000 --> 00:00:02.000\ntwo\n\n"
    );
    let applied = VttParser::apply_translations(&segments, &["eins".to_string()]);
    assert_eq!(applied.len(), 2);
    assert_eq!(applied[0].text, "eins");
    assert_eq!(applied[1].text, "two");
    assert_eq!((applied[1].index, applied[1].start_ms, applied[1].end_ms), (1, 1000, 2000));
    assert_eq!(VttParser::rebuild_vtt(&[], &[]), "WEBVTT\n\n");
}

#[test]
fn segment_duration() {
    assert_eq!(SubtitleSegment::new(0, 250, 1000, String::new()).duration_ms(), 750);
    let odd = SubtitleSegment { index: 0, start_ms: 10, end_ms: 5, text: String::new() };
    assert_eq!(odd.duration_ms(), 0);
}

#[test]
fn subtitle_error_messages() {
    assert_eq!(ParseError::InvalidFormat("f".into()).message(), "Invalid VTT format: f");
    assert_eq!(ParseError::InvalidTimestamp("t".into()).message(), "Invalid timestamp: t");
    assert_eq!(ParseError::Io("i".into()).message(), "IO error: i");
}

#[test]
fn empty_texts_come_back_from_numbered_lines() {
    let segments = vec![
        SubtitleSegment::new(0, 0, 1000, "".to_string()),
        SubtitleSegment::new(1, 1000, 2000, "middle".to_string()),
        SubtitleSegment::new(2, 2000, 3000, "".to_string()),
    ];
    let text = VttParser::to_translation_text(&segments);
    assert_eq!(text, "[0] \n\n[1] middle\n\n[2] ");
    assert_eq!(parse_translated_text(&text), vec!["", "middle", ""]);
}

#[test]
fn texts_of_several_lines_come_back_from_a_rebuilt_file() {
    let input = "WEBVTT\n\n00:00:01.000 --> 00:00:04.000\nHello\nthere\n\n00:01:05.250 --> 00:01:08.000\nWorld\n";
    let segments = VttParser::parse(input).unwrap();
    assert_eq!(segments.len(), 2);
    assert_eq!(segments[0].text, "Hello\nthere");
    let texts = VttParser::extract_texts(&segments);
    let rebuilt = VttParser::rebuild_vtt(&segments, &texts);
    assert_eq!(
        rebuilt,
        "WEBVTT\n\n00:00:01.000 --> 00:00:04.000\nHello\nthere\n\n00:01:05.250 --> 00:01:08.000\nWorld\n\n"
    );
    let again = VttParser::parse(&rebuilt).unwrap();
    assert_eq!(again.len(), 2);
    for (a, b) in again.iter().zip(segments.iter()) {
        assert_eq!((a.index, a.start_ms, a.end_ms), (b.index, b.start_ms, b.end_ms));
        assert_eq!(a.text, b.text);
    }
}
