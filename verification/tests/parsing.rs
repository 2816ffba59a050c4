//! Tests of the byte-text utilities and the two listing parsers.

use audst::listing::{listed_names, matching_ids};
use audst::streams::{parse_app_name_line, parse_index_line, parse_stream_listing};
use audst::text::{
    bytes_eq, contains_bytes, fields, parse_u64_digits, second_field, split_lines,
    starts_with_bytes,
};

#[test]
fn contains_finds_inner_token() {
    assert!(contains_bytes(b"12 module-null-sink sink_name=audst", b"sink_name=audst"));
    assert!(contains_bytes(b"abc", b""));
    assert!(!contains_bytes(b"abc", b"abcd"));
    assert!(!contains_bytes(b"module-null", b"module-null-sink"));
}

#[test]
fn starts_with_is_a_prefix_test() {
    assert!(starts_with_bytes(b"index: 5", b"index:"));
    assert!(!starts_with_bytes(b" index: 5", b"index:"));
    assert!(!starts_with_bytes(b"inde", b"index:"));
}

#[test]
fn bytes_eq_compares_contents() {
    assert!(bytes_eq(b"audst", b"audst"));
    assert!(!bytes_eq(b"audst", b"audst2"));
    assert!(!bytes_eq(b"audst", b"Audst"));
}

#[test]
fn split_lines_keeps_inner_empties() {
    let r = split_lines(b"a\n\nb");
    assert_eq!(r.len(), 3);
    assert_eq!(r[0], b"a".to_vec());
    assert_eq!(r[1], b"".to_vec());
    assert_eq!(r[2], b"b".to_vec());
    let r = split_lines(b"a\n");
    assert_eq!(r.len(), 2);
    assert_eq!(r[0], b"a".to_vec());
    assert_eq!(r[1], b"".to_vec());
    let r = split_lines(b"");
    assert_eq!(r.len(), 1);
    assert_eq!(r[0], b"".to_vec());
}

#[test]
fn fields_split_on_runs_of_whitespace() {
    let r = fields(b"  12\tmodule-loopback   source=audst.monitor \r");
    assert_eq!(r.len(), 3);
    assert_eq!(r[0], b"12".to_vec());
    assert_eq!(r[1], b"module-loopback".to_vec());
    assert_eq!(r[2], b"source=audst.monitor".to_vec());
    assert_eq!(fields(b"   ").len(), 0);
}

#[test]
fn second_field_is_the_object_name() {
    assert_eq!(second_field(b"3 module-null-sink args"), Some(b"module-null-sink".to_vec()));
    assert_eq!(second_field(b"3"), None);
    assert_eq!(second_field(b""), None);
}

#[test]
fn parse_u64_rejects_overflow() {
    assert_eq!(parse_u64_digits(b"0"), Some(0));
    assert_eq!(parse_u64_digits(b"18446744073709551615"), Some(u64::MAX));
    assert_eq!(parse_u64_digits(b"18446744073709551616"), None);
    assert_eq!(parse_u64_digits(b"99999999999999999999999"), None);
}

#[test]
fn matching_ids_needs_every_filter() {
    let listing = b"1 module-null-sink sink_name=other\n\
                    2 module-null-sink sink_name=audst x\n\
                    3 module-loopback source=audst.monitor sink=@DEFAULT_SINK@\n";
    let f = vec![b"module-null-sink".to_vec(), b"sink_name=audst".to_vec()];
    let ids = matching_ids(listing, &f);
    assert_eq!(ids.len(), 1);
    assert_eq!(ids[0], b"module-null-sink".to_vec());
    let f2 = vec![b"module-jack-source".to_vec()];
    assert_eq!(matching_ids(listing, &f2).len(), 0);
}

#[test]
fn matching_ids_skips_lines_without_a_name() {
    let listing = b"module-null-sink-sink_name=audst\n";
    let f = vec![b"sink_name=audst".to_vec()];
    assert_eq!(matching_ids(listing, &f).len(), 0);
}

#[test]
fn listed_names_exclude_the_capture_sink() {
    let listing = b"0 alsa_output.pci Speaker\n1 audst null\n2 hdmi_out HDMI\n";
    let names = listed_names(listing, b"audst");
    assert_eq!(names.len(), 2);
    assert_eq!(names[0], b"alsa_output.pci".to_vec());
    assert_eq!(names[1], b"hdmi_out".to_vec());
}

#[test]
fn index_line_parses_after_whitespace() {
    assert_eq!(parse_index_line(b"    index: 57"), Some(57));
    assert_eq!(parse_index_line(b"index:3"), Some(3));
    assert_eq!(parse_index_line(b"  sink index: 3"), None);
    assert_eq!(parse_index_line(b"index: x"), None);
    assert_eq!(parse_index_line(b"index: 99999999999999999999999"), None);
}

#[test]
fn app_name_line_takes_the_quoted_text() {
    assert_eq!(
        parse_app_name_line(b"    application.name = \"Music Player\""),
        Some(b"Music Player".to_vec())
    );
    assert_eq!(parse_app_name_line(b"application.name=\"X\""), Some(b"X".to_vec()));
    assert_eq!(parse_app_name_line(b"application.name = X"), None);
    assert_eq!(parse_app_name_line(b"application.name = \"X"), None);
    assert_eq!(parse_app_name_line(b"application.process.id = \"77\""), None);
}

#[test]
fn stream_listing_pairs_names_with_latest_index() {
    let text = b"index: 5\napplication.name = \"X\"\nindex: 9\napplication.name = \"Y\"\n";
    let r = parse_stream_listing(text);
    assert_eq!(r.len(), 2);
    assert_eq!(r[0].id, 5);
    assert_eq!(r[0].label, b"X".to_vec());
    assert_eq!(r[1].id, 9);
    assert_eq!(r[1].label, b"Y".to_vec());
}

#[test]
fn stream_listing_ignores_a_name_before_any_index() {
    let text = b"application.name = \"early\"\nindex: 4\napplication.name = \"ok\"\n";
    let r = parse_stream_listing(text);
    assert_eq!(r.len(), 1);
    assert_eq!(r[0].id, 4);
    assert_eq!(r[0].label, b"ok".to_vec());
}

#[test]
fn stream_listing_of_full_introspection_output() {
    let text = b"Sink Input #12\n\
        \tindex: 12\n\
        \tmute: no\n\
        \tapplication.name = \"Firefox\"\n\
        Sink Input #30\n\
        \tindex: 30\n\
        \tapplication.name = \"mpv\"\n";
    let r = parse_stream_listing(text);
    assert_eq!(r.len(), 2);
    assert_eq!(r[0].id, 12);
    assert_eq!(r[0].label, b"Firefox".to_vec());
    assert_eq!(r[1].id, 30);
    assert_eq!(r[1].label, b"mpv".to_vec());
}

#[test]
fn stream_listing_of_empty_text_is_empty() {
    assert_eq!(parse_stream_listing(b"").len(), 0);
}
