use mail_sync::text::decimal_string;
use mail_sync::text::decode_text;
use mail_sync::text::fetch_range;
use mail_sync::text::join_with_spaces;
use mail_sync::text::parse_comma_list;
use mail_sync::text::search_criterion;
use mail_sync::text::split_commas;

fn strings(v: &[&str]) -> Vec<String> {
    v.iter().map(|s| s.to_string()).collect()
}

#[test]
fn decimal_of_small_and_large_numbers() {
    assert_eq!(decimal_string(0), "0");
    assert_eq!(decimal_string(7), "7");
    assert_eq!(decimal_string(10), "10");
    assert_eq!(decimal_string(1234), "1234");
    assert_eq!(decimal_string(u32::MAX), "4294967295");
}

#[test]
fn fetch_range_single_index_for_one_message() {
    assert_eq!(fetch_range(1), "1");
}

#[test]
fn fetch_range_span_for_several_messages() {
    assert_eq!(fetch_range(2), "1:2");
    assert_eq!(fetch_range(3), "1:3");
    assert_eq!(fetch_range(250), "1:250");
}

#[test]
fn search_criterion_uses_identifier_verbatim() {
    assert_eq!(search_criterion("<a@x>"), "HEADER Message-ID <a@x>");
    assert_eq!(search_criterion("\"q\" *"), "HEADER Message-ID \"q\" *");
}

#[test]
fn split_keeps_empty_pieces() {
    assert_eq!(split_commas(""), strings(&[""]));
    assert_eq!(split_commas("a,,b"), strings(&["a", "", "b"]));
    assert_eq!(split_commas(",a,"), strings(&["", "a", ""]));
    assert_eq!(split_commas("Ünïcode,ß"), strings(&["Ünïcode", "ß"]));
}

#[test]
fn comma_list_pieces_are_trimmed() {
    assert_eq!(parse_comma_list(" Work ,\tPersonal\n"), strings(&["Work", "Personal"]));
    assert_eq!(parse_comma_list("INBOX"), strings(&["INBOX"]));
    assert_eq!(parse_comma_list(" Sent Items , Drafts"), strings(&["Sent Items", "Drafts"]));
}

#[test]
fn join_puts_single_spaces_between() {
    assert_eq!(join_with_spaces(&strings(&[])), "");
    assert_eq!(join_with_spaces(&strings(&["*"])), "*");
    assert_eq!(join_with_spaces(&strings(&["Work", "Personal", "A"])), "Work Personal A");
}

#[test]
fn decode_text_accepts_only_utf8() {
    assert_eq!(decode_text(&b"<a@x>".to_vec()), Some("<a@x>".to_string()));
    assert_eq!(decode_text(&vec![0xe2, 0x82, 0xac]), Some("€".to_string()));
    assert_eq!(decode_text(&vec![0xff, 0x41]), None);
    assert_eq!(decode_text(&vec![]), Some(String::new()));
}

#[test]
fn comma_list_trims_unicode_white_space() {
    assert_eq!(
        parse_comma_list("\u{3000}Work\u{a0},\u{2028}Personal\u{85}"),
        strings(&["Work", "Personal"])
    );
    assert_eq!(parse_comma_list("a\u{200b}"), strings(&["a\u{200b}"]));
}
