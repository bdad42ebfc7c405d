use personars::tools::regex_tester::{group_color, highlight, RegexTester};

#[test]
fn compiles_and_reports_errors() {
    let mut t = RegexTester::new();
    t.set_pattern("a(b");
    t.compile();
    assert!(!t.is_compiled());
    assert!(t.error().unwrap().starts_with("Error: "));
    t.set_pattern("a(b)");
    t.compile();
    assert!(t.is_compiled());
    assert_eq!(t.error(), None);
    t.set_pattern("");
    t.compile();
    assert!(!t.is_compiled());
    assert_eq!(t.error(), None);
}

#[test]
fn captures_of_matches() {
    let mut t = RegexTester::new();
    t.set_pattern(r"(\d+)-(\d+)");
    t.compile();
    t.set_test_text("a 12-34 b 5-6");
    let caps = t.captures().unwrap();
    assert_eq!(caps.len(), 2);
    assert_eq!(caps[0], vec![Some((2, 7)), Some((2, 4)), Some((5, 7))]);
    assert_eq!(caps[1], vec![Some((10, 13)), Some((10, 11)), Some((12, 13))]);
}

#[test]
fn highlight_covers_the_text() {
    let mut t = RegexTester::new();
    t.set_pattern("b+");
    t.compile();
    let segs = t.highlight_text("abbc");
    assert_eq!(segs.first().unwrap().start, 0);
    assert_eq!(segs.last().unwrap().end, 4);
    for w in segs.windows(2) {
        assert_eq!(w[0].end, w[1].start);
        assert_ne!(w[0].style, w[1].style);
    }
    assert!(segs.iter().any(|s| s.start == 1 && s.end == 3 && s.style.in_match));
    let plain = highlight("xyz", None);
    assert_eq!(plain.len(), 1);
    assert_eq!((plain[0].start, plain[0].end), (0, 3));
}

#[test]
fn group_colors_cycle() {
    assert_eq!(group_color(1), (100, 200, 255));
    assert_eq!(group_color(5), (200, 100, 255));
    assert_eq!(group_color(6), (100, 200, 255));
}

#[test]
fn highlight_cuts_on_char_boundaries() {
    let mut t = RegexTester::new();
    t.set_pattern("(é+)(ß)?");
    t.compile();
    let text = "aéé日ßéß本";
    let segs = t.highlight_text(text);
    for s in &segs {
        assert!(text.is_char_boundary(s.start));
        assert!(text.is_char_boundary(s.end));
        let _ = &text[s.start..s.end];
    }
    assert_eq!(segs.last().unwrap().end, text.len());
}
