use keson::tagging::{
    has_replaced_tag, marked_comment, marker_key_str, tag_choice, write_replaced_tag, TagChoice,
};

#[test]
fn test_has_replaced_tag_nonexistent() {
    // A file that cannot be opened, such as "/nonexistent/file.mp3", has no tags to look at.
    let comments: Vec<Option<String>> = Vec::new();
    assert!(!has_replaced_tag(&comments));
}

#[test]
fn marker_is_found_in_any_tag() {
    assert!(!has_replaced_tag(&vec![None, Some("nice song".to_string())]));
    assert!(has_replaced_tag(&vec![
        None,
        Some("nice song".to_string()),
        Some("x\nKESON_REPLACED=2024-01-01 10:00:00".to_string())
    ]));
    assert!(has_replaced_tag(&vec![Some("KESON_REPLACED".to_string())]));
    assert!(!has_replaced_tag(&vec![Some("KESON_REPLACE".to_string())]));
    assert!(!has_replaced_tag(&vec![Some("keson_replaced=1".to_string())]));
    assert_eq!(marker_key_str(), "KESON_REPLACED");
}

#[test]
fn marking_an_empty_comment() {
    assert_eq!(marked_comment("", "2024-05-06 07:08:09"), "KESON_REPLACED=2024-05-06 07:08:09");
}

#[test]
fn marking_keeps_the_comment() {
    assert_eq!(
        marked_comment("ripped by me", "2024-05-06 07:08:09"),
        "ripped by me\nKESON_REPLACED=2024-05-06 07:08:09"
    );
}

#[test]
fn marking_again_updates_in_place() {
    let old = "first line\nKESON_REPLACED=2020-01-01 00:00:00\nlast line";
    assert_eq!(
        marked_comment(old, "2024-05-06 07:08:09"),
        "first line\nKESON_REPLACED=2024-05-06 07:08:09\nlast line"
    );
    let twice = "KESON_REPLACED=a\nKESON_REPLACED=b";
    assert_eq!(marked_comment(twice, "c"), "KESON_REPLACED=c\nKESON_REPLACED=b");
    // The key without a value is no marker to update: the comment stays.
    assert_eq!(marked_comment("KESON_REPLACED", "c"), "KESON_REPLACED");
}

#[test]
fn marking_now_writes_a_time() {
    let c = write_replaced_tag("hello");
    assert!(c.starts_with("hello\nKESON_REPLACED="), "{}", c);
    let stamp = &c["hello\nKESON_REPLACED=".len()..];
    assert_eq!(stamp.len(), 19, "{}", stamp);
    let shape: String =
        stamp.chars().map(|ch| if ch.is_ascii_digit() { '9' } else { ch }).collect();
    assert_eq!(shape, "9999-99-99 99:99:99");
    assert!(has_replaced_tag(&vec![Some(c)]));
}

#[test]
fn marker_is_put_in_as_it_is() {
    assert_eq!(marked_comment("KESON_REPLACED=old", "$0 $1"), "KESON_REPLACED=$0 $1");
    assert_eq!(marked_comment("a\nKESON_REPLACED=é\nb", "ü"), "a\nKESON_REPLACED=ü\nb");
    assert_eq!(marked_comment("xKESON_REPLACED=1y\r\nz", "2"), "xKESON_REPLACED=2\nz");
}

#[test]
fn a_marked_comment_is_found_marked() {
    for existing in ["", "plain", "KESON_REPLACED", "a\nKESON_REPLACED=1\nb", "KESON_REPLACED=\n"] {
        let marked = marked_comment(existing, "2024-01-02 03:04:05");
        assert!(has_replaced_tag(&vec![Some(marked)]), "{:?}", existing);
    }
}

#[test]
fn which_tag_carries_the_marker() {
    assert_eq!(tag_choice(true, true, false), TagChoice::Primary);
    assert_eq!(tag_choice(true, false, true), TagChoice::Primary);
    assert_eq!(tag_choice(false, true, true), TagChoice::First);
    assert_eq!(tag_choice(false, false, true), TagChoice::Inserted);
    assert_eq!(tag_choice(false, false, false), TagChoice::Unsupported);
}

#[test]
fn the_time_holds_no_end_of_line() {
    let c = write_replaced_tag("");
    let stamp = &c["KESON_REPLACED=".len()..];
    assert!(stamp.chars().all(|ch| ch.is_ascii_digit() || "-+ :".contains(ch)), "{}", stamp);
    // Marking again replaces the whole marker.
    let again = marked_comment(&c, "later");
    assert_eq!(again, "KESON_REPLACED=later");
}
