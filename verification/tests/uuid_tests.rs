use personars::tools::uuid_generator::{format_uuids, UuidGenerator, UuidVersion};

#[test]
fn hyphenated_text() {
    assert_eq!(format_uuids(&vec![0x67e5504410b1426f9247bb680e5fe0c8], false), "67e55044-10b1-426f-9247-bb680e5fe0c8");
    assert_eq!(
        format_uuids(&vec![0x67e5504410b1426f9247bb680e5fe0c8, 0], true),
        "67E55044-10B1-426F-9247-BB680E5FE0C8\n00000000-0000-0000-0000-000000000000"
    );
}

#[test]
fn versions_and_variant() {
    for (version, digit) in [(UuidVersion::V4, "4"), (UuidVersion::V7, "7")] {
        let mut g = UuidGenerator::new();
        g.set_version(version);
        g.set_count(5);
        g.generate();
        for line in g.output().lines() {
            assert_eq!(&line[14..15], digit);
            assert!(["8", "9", "a", "b"].contains(&&line[19..20]));
        }
    }
}

#[test]
fn generator_writes_count_lines() {
    let mut g = UuidGenerator::new();
    g.set_count(3);
    g.set_version(UuidVersion::V7);
    g.set_uppercase(true);
    g.generate();
    let lines: Vec<&str> = g.output().lines().collect();
    assert_eq!(lines.len(), 3);
    for l in lines {
        assert_eq!(l.len(), 36);
        assert_eq!(&l[14..15], "7");
        assert!(!l.chars().any(|c| c.is_ascii_lowercase()));
    }
    g.clear();
    assert_eq!(g.output(), "");
}
