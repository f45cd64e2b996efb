use vibeclips::subtitle::{convert_srt_to_ass_content, parse_srt, transcription_from_srt};
use vibeclips::timecode::{parse_srt_time, parse_srt_timestamp, parse_time_string, srt_to_ass_time};

#[test]
fn test_parse_time_string() {
    assert_eq!(parse_time_string("00:00:05,000").unwrap(), 5000);
    assert_eq!(parse_time_string("00:01:30,500").unwrap(), 90500);
    assert_eq!(parse_time_string("01:02:03,123").unwrap(), 3723123);
}

#[test]
fn test_parse_srt_timestamp() {
    let (start, end) = parse_srt_timestamp("00:00:00,000 --> 00:00:05,000").unwrap();
    assert_eq!(start, 0);
    assert_eq!(end, 5000);
}

#[test]
fn test_parse_srt() {
    let srt_content = "1\n00:00:00,000 --> 00:00:05,000\nHello world\n\n2\n00:00:05,000 --> 00:00:10,000\nThis is a test\n";
    let subtitles = parse_srt(srt_content).unwrap();
    assert_eq!(subtitles.len(), 2);
    assert_eq!(subtitles[0].text.as_str(), "Hello world");
    assert_eq!(subtitles[1].text.as_str(), "This is a test");
}

#[test]
fn test_parse_time_string_rejects_malformed() {
    assert!(parse_time_string("00:00").is_err());
    assert!(parse_time_string("aa:bb:cc,dd").is_err());
    assert!(parse_time_string("00:00:05.000").is_err());
    assert!(parse_time_string("").is_err());
}

#[test]
fn test_timestamp_conversion_numeric_value() {
    // the comma-delimited form converts to the dot-delimited form denoting
    // the same instant: 5.25 seconds
    let converted = srt_to_ass_time("00:00:05,250").unwrap();
    assert_eq!(converted.as_str(), "00:00:05.250");
    assert_eq!(parse_time_string("00:00:05,250").unwrap(), 5250);
}

#[test]
fn test_parse_srt_time_line() {
    let (start, end) = parse_srt_time("00:00:01,500 --> 00:00:02,799").unwrap();
    assert_eq!(start.as_str(), "00:00:01.500");
    assert_eq!(end.as_str(), "00:00:02.799");
    assert!(parse_srt_time("no arrow here").is_none());
}

#[test]
fn test_parse_srt_invalid_id_fails() {
    let srt_content = "x\n00:00:00,000 --> 00:00:01,000\nhi\n";
    assert!(parse_srt(srt_content).is_err());
}

#[test]
fn test_parse_srt_skips_short_and_empty_blocks() {
    let srt_content = "1\n00:00:00,000 --> 00:00:01,000\n\n\n2\n00:00:01,000 --> 00:00:02,000\nkept\n";
    let subtitles = parse_srt(srt_content).unwrap();
    assert_eq!(subtitles.len(), 1);
    assert_eq!(subtitles[0].id, 2);
    assert_eq!(subtitles[0].start_time, 1000);
    assert_eq!(subtitles[0].end_time, 2000);
}

#[test]
fn test_convert_preserves_entry_count_and_order() {
    let srt_content = "1\n00:00:00,000 --> 00:00:02,799\nfirst line\n\n2\n00:00:03,000 --> 00:00:04,000\nsecond line\n";
    let ass = convert_srt_to_ass_content(srt_content);
    let first = ass.find("Dialogue: 0,00:00:00.000,00:00:02.799Default,,0,0,0,,first line\n");
    let second = ass.find("Dialogue: 0,00:00:03.000,00:00:04.000Default,,0,0,0,,second line\n");
    assert!(first.is_some());
    assert!(second.is_some());
    assert!(first.unwrap() < second.unwrap());
    assert_eq!(ass.matches("Dialogue:").count(), 2);
}

#[test]
fn test_convert_header_and_escaping() {
    let srt_content = "1\n00:00:00,000 --> 00:00:01,000\na{b}c\\d\n";
    let ass = convert_srt_to_ass_content(srt_content);
    assert!(ass.starts_with("[Script Info]\n"));
    assert!(ass.contains("[V4+ Styles]\n"));
    assert!(ass.contains("[Events]\n"));
    assert!(ass.contains("a\\{b\\}c\\\\d"));
}

#[test]
fn test_convert_multiline_text_joined() {
    let srt_content = "1\n00:00:00,000 --> 00:00:01,000\nline one\nline two\n";
    let ass = convert_srt_to_ass_content(srt_content);
    // the markup line break is escaped along with the joined text
    assert!(ass.contains("line one\\\\Nline two"));
}

#[test]
fn test_parse_srt_strips_carriage_returns() {
    let srt_content = "1\r\n00:00:00,000 --> 00:00:01,000\r\nwindows line endings\r\n";
    let subtitles = parse_srt(srt_content).unwrap();
    assert_eq!(subtitles.len(), 1);
    assert_eq!(subtitles[0].text.as_str(), "windows line endings");
}

#[test]
fn test_transcription_from_srt() {
    let srt = "1\n00:00:00,000 --> 00:00:05,000\nHello world\n".to_string();
    let resp = transcription_from_srt(srt.clone()).unwrap();
    assert_eq!(resp.subtitles.len(), 1);
    assert_eq!(resp.subtitles[0].id, 1);
    assert_eq!(resp.raw_srt, srt);
    assert!(transcription_from_srt("bad\nblock\nwith bad timing line\n".to_string()).is_err());
}
