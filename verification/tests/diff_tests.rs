use personars::tools::diff_viewer::{line_style, Background, DiffTag, DiffViewer, LineColor};

#[test]
fn sample_texts() {
    let mut d = DiffViewer::new();
    assert_eq!(d.original(), "Original text\nWith some lines\nTo be removed");
    assert!(d.output().is_none());
    d.compute_diff(true);
    let lines = d.output().unwrap();
    let texts: Vec<&str> = lines.iter().map(|l| l.text.as_str()).collect();
    assert_eq!(
        texts,
        vec!["Original text\n", "With some lines\n", "To be removed\n", "With extra lines\n", "Added here\n"]
    );
    assert_eq!(lines[0].style, line_style(DiffTag::Equal, true));
    assert_eq!(lines[1].style, line_style(DiffTag::Delete, true));
    assert_eq!(lines[4].style, line_style(DiffTag::Insert, true));
}

#[test]
fn identical_texts_are_all_equal() {
    let mut d = DiffViewer::new();
    d.set_original("a\nb\n");
    d.set_modified("a\nb\n");
    d.compute_diff(false);
    let lines = d.output().unwrap();
    assert_eq!(lines.len(), 2);
    assert!(lines.iter().all(|l| l.style == line_style(DiffTag::Equal, false)));
}

#[test]
fn styles() {
    let del = line_style(DiffTag::Delete, false);
    assert_eq!(del.background, Some(Background { r: 255, g: 0, b: 0, a: 40 }));
    assert_eq!(del.text, LineColor::DarkRed);
    let ins = line_style(DiffTag::Insert, true);
    assert_eq!(ins.background, Some(Background { r: 0, g: 255, b: 0, a: 40 }));
    assert_eq!(ins.text, LineColor::Rgb(150, 255, 150));
    let eq = line_style(DiffTag::Equal, true);
    assert_eq!(eq.background, None);
    assert_eq!(eq.text, LineColor::LightGray);
}

#[test]
fn sides_rebuild_both_texts() {
    let mut d = DiffViewer::new();
    d.set_original("keep\nold line\r\nlast");
    d.set_modified("keep\nnew line\nlast\n");
    d.compute_diff(false);
    let lines = d.output().unwrap();
    let deleted = line_style(DiffTag::Delete, false);
    let inserted = line_style(DiffTag::Insert, false);
    let old_side: String =
        lines.iter().filter(|l| l.style != inserted).map(|l| l.text.as_str()).collect();
    let new_side: String =
        lines.iter().filter(|l| l.style != deleted).map(|l| l.text.as_str()).collect();
    assert_eq!(old_side, "keep\nold line\r\nlast\n");
    assert_eq!(new_side, "keep\nnew line\nlast\n");
}
