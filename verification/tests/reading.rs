use logtool::charset::Charset;
use logtool::encoding::{encoding_for_label, resolve_encoding, ENCODING_PROBE_BYTES};
use logtool::reader::{decode_records, read_pass, split_records, MAX_ROWS, NEWLINE};
use logtool::tail::{
    plan_tail, read_first_pass, size_gate, skip_partial_line, TailPlan, MAX_FILE_SIZE, TAIL_SLACK,
};

const GIB: u64 = 1024 * 1024 * 1024;

fn utf8() -> Charset {
    encoding_for_label("utf-8").expect("utf-8 is a known label")
}

fn strings(items: &[&str]) -> Vec<String> {
    items.iter().map(|s| s.to_string()).collect()
}

#[test]
fn constants_have_their_values() {
    assert_eq!(MAX_FILE_SIZE, 4 * GIB);
    assert_eq!(TAIL_SLACK, 512);
    assert_eq!(MAX_ROWS, 120_000_000);
    assert_eq!(ENCODING_PROBE_BYTES, 24 * 1024 * 1024);
    assert_eq!(NEWLINE, b'\n');
}

#[test]
fn bom_of_utf8_decides() {
    let c = resolve_encoding(b"\xEF\xBB\xBFhello\n", None);
    assert_eq!(c.name(), "UTF-8");
}

#[test]
fn bom_of_utf16le_decides() {
    let c = resolve_encoding(b"\xFF\xFEh\x00i\x00", None);
    assert_eq!(c.name(), "UTF-16LE");
}

#[test]
fn bom_of_utf16be_decides() {
    let c = resolve_encoding(b"\xFE\xFF\x00h\x00i", None);
    assert_eq!(c.name(), "UTF-16BE");
}

#[test]
fn bom_wins_over_content() {
    // The content after the mark is not UTF-16 at all.
    let c = resolve_encoding(b"\xFF\xFEplain ascii text, nothing else\n", None);
    assert_eq!(c.name(), "UTF-16LE");
}

#[test]
fn short_probe_is_no_bom() {
    // Two bytes of the UTF-8 mark are not a mark.
    let c = resolve_encoding(b"\xEF\xBB", None);
    assert!(!c.name().is_empty());
    assert_ne!(c.name(), "UTF-16LE");
    assert_ne!(c.name(), "UTF-16BE");
}

#[test]
fn without_bom_some_encoding_is_found() {
    for probe in [&b""[..], &b"plain\n"[..], &b"\x80\x81\x82\xff\xfd"[..], &b"\x00\x00\x00"[..]] {
        let c = resolve_encoding(probe, None);
        assert!(!c.name().is_empty());
    }
}

#[test]
fn detection_recognises_utf8_text() {
    let text = "Grüße aus Köln, señor, 日本語のテキスト\n".repeat(4);
    let c = resolve_encoding(text.as_bytes(), None);
    assert_eq!(c.name(), "UTF-8");
}

#[test]
fn detection_recognises_a_legacy_encoding() {
    // "Привет, мир. Это обычный русский текст." in windows-1251.
    let bytes: Vec<u8> = vec![
        0xCF, 0xF0, 0xE8, 0xE2, 0xE5, 0xF2, 0x2C, 0x20, 0xEC, 0xE8, 0xF0, 0x2E, 0x20, 0xDD, 0xF2,
        0xEE, 0x20, 0xEE, 0xE1, 0xFB, 0xF7, 0xED, 0xFB, 0xE9, 0x20, 0xF0, 0xF3, 0xF1, 0xF1, 0xEA,
        0xE8, 0xE9, 0x20, 0xF2, 0xE5, 0xEA, 0xF1, 0xF2, 0x2E, 0x0A,
    ];
    let c = resolve_encoding(&bytes, None);
    assert_eq!(c.name(), "windows-1251");
}

#[test]
fn given_encoding_bypasses_bom_and_detection() {
    let latin = encoding_for_label("windows-1252").unwrap();
    let c = resolve_encoding(b"\xEF\xBB\xBFhello\n", Some(latin));
    assert_eq!(c.name(), "windows-1252");
}

#[test]
fn labels_resolve_to_encodings() {
    assert_eq!(encoding_for_label("utf-8").unwrap().name(), "UTF-8");
    assert_eq!(encoding_for_label("latin1").unwrap().name(), "windows-1252");
    assert_eq!(encoding_for_label("latin2").unwrap().name(), "ISO-8859-2");
    assert_eq!(encoding_for_label("KOI8-R").unwrap().name(), "KOI8-R");
    assert!(encoding_for_label("unrecognized label").is_none());
}

#[test]
fn three_lines_are_read_in_order() {
    let data = b"a\nb\nc\n";
    let charset = resolve_encoding(data, None);
    assert_eq!(size_gate(data.len() as u64, MAX_FILE_SIZE), None);
    let plan = plan_tail(data.len() as u64, MAX_FILE_SIZE, true);
    assert_eq!(plan, TailPlan { offset: 0, discard_partial_line: false });
    let lines = read_first_pass(data, plan, &charset, Some(MAX_ROWS));
    assert_eq!(lines, strings(&["a", "b", "c"]));
    assert_eq!(lines.len(), 3);
}

#[test]
fn large_file_is_gated_and_read_from_its_tail() {
    let size = 6 * GIB;
    let threshold = 4 * GIB;
    assert_eq!(size_gate(size, threshold), Some(6 * GIB));
    let restricted = plan_tail(size, threshold, true);
    assert!(restricted.offset >= 6 * GIB - 4 * GIB - 600);
    assert!(restricted.offset <= 6 * GIB - 4 * GIB);
    assert_eq!(restricted.offset, 2 * GIB - 512);
    assert!(restricted.discard_partial_line);
    let unrestricted = plan_tail(size, threshold, false);
    assert_eq!(unrestricted, TailPlan { offset: 0, discard_partial_line: false });
}

#[test]
fn appended_line_is_emitted_alone() {
    let lines = read_pass(b"d\n", &utf8(), Some(MAX_ROWS));
    assert_eq!(lines, strings(&["d"]));
}

#[test]
fn size_gate_is_closed_at_the_threshold() {
    assert_eq!(size_gate(0, 10), None);
    assert_eq!(size_gate(10, 10), None);
    assert_eq!(size_gate(11, 10), Some(11));
    assert_eq!(size_gate(u64::MAX, MAX_FILE_SIZE), Some(u64::MAX));
}

#[test]
fn tail_offset_is_clamped_at_the_start() {
    // Larger than the threshold, smaller than threshold and slack together.
    let plan = plan_tail(1100, 1000, true);
    assert_eq!(plan, TailPlan { offset: 0, discard_partial_line: true });
    let plan = plan_tail(1512, 1000, true);
    assert_eq!(plan, TailPlan { offset: 0, discard_partial_line: true });
    let plan = plan_tail(1513, 1000, true);
    assert_eq!(plan, TailPlan { offset: 1, discard_partial_line: true });
}

#[test]
fn tail_offset_survives_a_huge_threshold() {
    let plan = plan_tail(u64::MAX, u64::MAX - 1, true);
    assert_eq!(plan, TailPlan { offset: 0, discard_partial_line: true });
    let plan = plan_tail(u64::MAX, u64::MAX, true);
    assert_eq!(plan, TailPlan { offset: 0, discard_partial_line: false });
}

#[test]
fn small_file_is_read_from_the_start() {
    assert_eq!(plan_tail(10, 1000, true), TailPlan { offset: 0, discard_partial_line: false });
    assert_eq!(plan_tail(1000, 1000, true), TailPlan { offset: 0, discard_partial_line: false });
    assert_eq!(plan_tail(10, 1000, false), TailPlan { offset: 0, discard_partial_line: false });
}

#[test]
fn partial_line_is_skipped_through_its_newline() {
    assert_eq!(skip_partial_line(b"tail of a line\nnext\n"), 15);
    assert_eq!(skip_partial_line(b"\nnext\n"), 1);
    assert_eq!(skip_partial_line(b"no newline at all"), 17);
    assert_eq!(skip_partial_line(b""), 0);
    assert_eq!(skip_partial_line(b"x\n"), 2);
}

#[test]
fn first_pass_after_seek_drops_the_cut_line() {
    let plan = TailPlan { offset: 100, discard_partial_line: true };
    let lines = read_first_pass(b"ut in the middle\nwhole one\nwhole two\n", plan, &utf8(), None);
    assert_eq!(lines, strings(&["whole one", "whole two"]));
}

#[test]
fn first_pass_after_seek_without_newline_emits_nothing() {
    let plan = TailPlan { offset: 100, discard_partial_line: true };
    let lines = read_first_pass(b"no newline before the end", plan, &utf8(), None);
    assert!(lines.is_empty());
}

#[test]
fn first_pass_without_seek_keeps_the_first_line() {
    let plan = TailPlan { offset: 0, discard_partial_line: false };
    let lines = read_first_pass(b"first\nsecond\n", plan, &utf8(), None);
    assert_eq!(lines, strings(&["first", "second"]));
}

#[test]
fn pass_over_nothing_gives_nothing() {
    assert!(read_pass(b"", &utf8(), None).is_empty());
}

#[test]
fn unterminated_tail_is_emitted_as_a_fragment() {
    assert_eq!(read_pass(b"one\ntwo", &utf8(), None), strings(&["one", "two"]));
    assert_eq!(read_pass(b"frag", &utf8(), None), strings(&["frag"]));
}

#[test]
fn fragment_and_continuation_are_two_records() {
    let first = read_pass(b"begin of li", &utf8(), None);
    let second = read_pass(b"ne\nnext\n", &utf8(), None);
    assert_eq!(first, strings(&["begin of li"]));
    assert_eq!(second, strings(&["ne", "next"]));
}

#[test]
fn empty_lines_are_records() {
    assert_eq!(read_pass(b"\n\na\n\n", &utf8(), None), strings(&["", "", "a", ""]));
    assert_eq!(read_pass(b"\n", &utf8(), None), strings(&[""]));
}

#[test]
fn carriage_return_stays_in_the_record() {
    assert_eq!(read_pass(b"a\r\nb\r\n", &utf8(), None), strings(&["a\r", "b\r"]));
}

#[test]
fn pass_keeps_only_the_latest_rows() {
    assert_eq!(read_pass(b"a\nb\nc\nd\n", &utf8(), Some(2)), strings(&["c", "d"]));
    assert_eq!(read_pass(b"a\nb\nc\nd\n", &utf8(), Some(4)), strings(&["a", "b", "c", "d"]));
    assert_eq!(read_pass(b"a\nb\nc\nd\n", &utf8(), Some(9)), strings(&["a", "b", "c", "d"]));
    assert_eq!(read_pass(b"a\nb\nc\nd\n", &utf8(), Some(1)), strings(&["d"]));
    assert!(read_pass(b"a\nb\nc\nd\n", &utf8(), Some(0)).is_empty());
}

#[test]
fn records_are_decoded_in_the_given_encoding() {
    let latin = encoding_for_label("windows-1252").unwrap();
    assert_eq!(read_pass(b"caf\xE9\nna\xEFve\n", &latin, None), strings(&["café", "naïve"]));
    let cyrillic = encoding_for_label("windows-1251").unwrap();
    assert_eq!(read_pass(b"\xCF\xF0\xE8\xE2\xE5\xF2\n", &cyrillic, None), strings(&["Привет"]));
}

#[test]
fn malformed_bytes_become_replacement_characters() {
    assert_eq!(read_pass(b"ok\xFFok\n", &utf8(), None), strings(&["ok\u{FFFD}ok"]));
}

#[test]
fn records_are_cut_at_newlines() {
    let data = b"one\n\ntwo\nrest";
    let records = split_records(data);
    assert_eq!(records, vec![&b"one"[..], &b""[..], &b"two"[..], &b"rest"[..]]);
    assert!(split_records(b"").is_empty());
    assert_eq!(split_records(b"\n"), vec![&b""[..]]);
    assert_eq!(split_records(b"x"), vec![&b"x"[..]]);
    assert_eq!(split_records(b"x\n"), vec![&b"x"[..]]);
    assert_eq!(split_records(b"\nx"), vec![&b""[..], &b"x"[..]]);
}

#[test]
fn records_are_decoded_one_by_one() {
    let records = vec![&b"a"[..], &b"caf\xE9"[..], &b""[..]];
    let latin = encoding_for_label("windows-1252").unwrap();
    assert_eq!(decode_records(&records, &latin, None), strings(&["a", "café", ""]));
    assert_eq!(decode_records(&records, &latin, Some(2)), strings(&["café", ""]));
    assert!(decode_records(&Vec::new(), &latin, Some(2)).is_empty());
}
