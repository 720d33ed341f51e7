use liquidmon::text::last_lines;

#[test]
fn last_lines_keeps_the_closing_lines() {
    let stderr = "Traceback (most recent call last):\n  File \"x\"\n  line 3\nusb.core.USBError: busy\nERROR: failed\n";
    assert_eq!(
        last_lines(stderr, 4),
        "  File \"x\"\n  line 3\nusb.core.USBError: busy\nERROR: failed"
    );
}

#[test]
fn last_lines_keeps_a_short_report_whole() {
    assert_eq!(last_lines("one\ntwo\n\n", 4), "one\ntwo");
    assert_eq!(last_lines("single line", 4), "single line");
}

#[test]
fn last_lines_of_nothing_is_empty() {
    assert_eq!(last_lines("", 4), "");
    assert_eq!(last_lines("a\nb", 0), "");
    assert_eq!(last_lines("a\nb\nc", 1), "c");
}
