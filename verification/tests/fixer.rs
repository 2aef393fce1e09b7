use sub_fixer::lines::{classify, LineKind};
use sub_fixer::Subtitle;

#[test]
fn will_remove_italics() {
    let input = r#"1
00:08:26,025 --> 00:08:30,091
<i>!زود باشین برین</i>

!نمی‌ذارم هیچ کدومتون اینجا بمیرین

2
00:08:22,037 --> 00:08:24,008
!همه عجله کنین"#;

    let expected = r#"1
00:08:26,025 --> 00:08:30,091
!زود باشین برین

!نمی‌ذارم هیچ کدومتون اینجا بمیرین

2
00:08:22,037 --> 00:08:24,008
!همه عجله کنین"#;

    let output = Subtitle::new(input.to_string()).fix();

    assert_eq!(expected, output)
}

#[test]
fn will_replace_arabic_chars() {
    let input = r#"1
00:08:26,025 --> 00:08:30,091
!زود باشین برين

!نمی‌ذارم هیچ كدومتون اینجا بمیرین

2
00:08:22,037 --> 00:08:24,008
!همه عجله کنین"#;

    let expected = r#"1
00:08:26,025 --> 00:08:30,091
!زود باشین برین

!نمی‌ذارم هیچ کدومتون اینجا بمیرین

2
00:08:22,037 --> 00:08:24,008
!همه عجله کنین"#;

    let output = Subtitle::new(input.to_string()).fix();

    assert_eq!(expected, output)
}

#[test]
fn will_replace_question_mark() {
    let input = r#"1
00:08:26,025 --> 00:08:30,091
؟زود باشین برين

?نمی‌ذارم هیچ كدومتون اینجا بمیرین

2
00:08:22,037 --> 00:08:24,008
!همه عجله کنین"#;

    let expected = r#"1
00:08:26,025 --> 00:08:30,091
؟زود باشین برین

؟نمی‌ذارم هیچ کدومتون اینجا بمیرین

2
00:08:22,037 --> 00:08:24,008
!همه عجله کنین"#;

    let output = Subtitle::new(input.to_string()).fix();

    assert_eq!(expected, output)
}

#[test]
fn will_replace_numbers_with_persian_numbers() {
    let input = r#"1
00:08:26,025 --> 00:08:30,091
؟زود باشین برين 12

؟نمی‌ذارم 2 هیچ كدومتون 0912 اینجا بمیرین

2
00:08:22,037 --> 00:08:24,008
!همه 34عجله کنین"#;

    let expected = r#"1
00:08:26,025 --> 00:08:30,091
؟زود باشین برین ۱۲

؟نمی‌ذارم ۲ هیچ کدومتون ۰۹۱۲ اینجا بمیرین

2
00:08:22,037 --> 00:08:24,008
!همه ۳۴عجله کنین"#;

    let output = Subtitle::new(input.to_string()).fix();

    assert_eq!(expected, output)
}

#[test]
fn strips_italic_tags_from_a_line() {
    let output = Subtitle::new("<i>Hello</i>".to_string()).fix();
    assert_eq!("Hello", output);
}

#[test]
fn normalizes_arabic_yeh_and_kaf() {
    let output = Subtitle::new("ي ك".to_string()).fix();
    assert_eq!("ی ک", output);
}

#[test]
fn replaces_ascii_question_mark() {
    let output = Subtitle::new("?Are you sure".to_string()).fix();
    assert_eq!("؟Are you sure", output);
}

#[test]
fn keeps_timestamp_digits_untouched() {
    let line = "00:08:26,025 --> 00:08:30,091";
    let output = Subtitle::new(line.to_string()).fix();
    assert_eq!(line, output);
}

#[test]
fn localizes_digits_in_dialogue() {
    let output = Subtitle::new("!همه 34عجله کنین".to_string()).fix();
    assert_eq!("!همه ۳۴عجله کنین", output);
}

#[test]
fn keeps_bare_sequence_number_untouched() {
    let output = Subtitle::new("12".to_string()).fix();
    assert_eq!("12", output);
}

#[test]
fn maps_every_ascii_digit_to_its_glyph() {
    let output = Subtitle::new("x 0123456789".to_string()).fix();
    assert_eq!("x ۰۱۲۳۴۵۶۷۸۹", output);
}

#[test]
fn removes_rtl_embedding_mark() {
    let output = Subtitle::new("\u{202b}سلام".to_string()).fix();
    assert_eq!("سلام", output);
}

#[test]
fn empty_document_stays_empty() {
    let output = Subtitle::new(String::new()).fix();
    assert_eq!("", output);
}

#[test]
fn fixing_twice_equals_fixing_once() {
    let input = r#"1
00:08:26,025 --> 00:08:30,091
<i>?What about 42</i>

2
00:08:22,037 --> 00:08:24,008
!همه 34عجله کنین"#;
    let once = Subtitle::new(input.to_string()).fix();
    let twice = Subtitle::new(once.clone()).fix();
    assert_eq!(once, twice);
}

#[test]
fn preserves_line_count() {
    let input = "1\n00:08:26,025 --> 00:08:30,091\n?خب 7\n\n2";
    let output = Subtitle::new(input.to_string()).fix();
    assert_eq!(input.lines().count(), output.lines().count());
}

#[test]
fn passes_non_dialogue_lines_through() {
    let input = "3\n00:01:02,003 --> 00:04:05,006\n?چرا 9\n\n12";
    let output = Subtitle::new(input.to_string()).fix();
    let lines: Vec<&str> = output.lines().collect();
    assert_eq!("3", lines[0]);
    assert_eq!("00:01:02,003 --> 00:04:05,006", lines[1]);
    assert_eq!("", lines[3]);
    assert_eq!("12", lines[4]);
}

#[test]
fn strips_carriage_returns_before_newlines() {
    let output = Subtitle::new("?a\r\n12".to_string()).fix();
    assert_eq!("؟a\n12", output);
}

#[test]
fn classifies_the_four_line_shapes() {
    let ts: Vec<char> = "00:08:26,025 --> 00:08:30,091".chars().collect();
    assert_eq!(LineKind::Timestamp, classify(&ts));
    let blank: Vec<char> = "  \t".chars().collect();
    assert_eq!(LineKind::Blank, classify(&blank));
    let num: Vec<char> = "0912".chars().collect();
    assert_eq!(LineKind::SequenceNumber, classify(&num));
    let dialogue: Vec<char> = "well 12".chars().collect();
    assert_eq!(LineKind::Dialogue, classify(&dialogue));
}

#[test]
fn malformed_timestamp_is_dialogue() {
    let output = Subtitle::new("00:08:26,025 -> 00:08:30,091".to_string()).fix();
    assert_eq!("۰۰:۰۸:۲۶,۰۲۵ -> ۰۰:۰۸:۳۰,۰۹۱", output);
}
