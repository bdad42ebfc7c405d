use personars::tools::qr_code_generator::QrCodeGenerator;

#[test]
fn small_text_gives_a_version_one_symbol() {
    let mut q = QrCodeGenerator::new();
    q.set_text("hello");
    assert_eq!(q.error(), None);
    let img = q.image().unwrap();
    assert_eq!(img.size, 21 * 4);
    assert_eq!(img.rows.len(), 84);
    assert!(img.rows.iter().all(|r| r.len() == 84));
    // the top-left finder pattern: dark corner module, 4x4 pixels
    for r in 0..4 {
        for c in 0..4 {
            assert!(img.rows[r][c]);
        }
    }
    // each module is a 4x4 block
    for r in 0..84 {
        for c in 0..84 {
            assert_eq!(img.rows[r][c], img.rows[r - r % 4][c - c % 4]);
        }
    }
}

#[test]
fn empty_text_has_no_image() {
    let mut q = QrCodeGenerator::new();
    q.set_text("x");
    q.set_text("");
    assert!(q.image().is_none());
    assert_eq!(q.error(), None);
}

#[test]
fn too_long_text_is_an_error() {
    let mut q = QrCodeGenerator::new();
    q.set_text(&"x".repeat(5000));
    assert!(q.image().is_none());
    assert!(q.error().unwrap().starts_with("Error generating QR code: "));
}
