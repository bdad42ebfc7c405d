use personars::tools::password_generator::{password_from_indices, PasswordGenerator};

#[test]
fn defaults() {
    let p = PasswordGenerator::new();
    assert_eq!(p.length(), 16);
    assert!(p.use_upper() && p.use_lower() && p.use_numbers() && p.use_symbols());
    assert_eq!(p.output(), "");
    assert_eq!(p.charset().len(), 26 + 26 + 10 + 26);
}

#[test]
fn password_has_the_length_and_the_classes() {
    let mut p = PasswordGenerator::new();
    p.set_length(40);
    p.set_classes(false, false, true, false);
    p.generate();
    assert_eq!(p.output().chars().count(), 40);
    assert!(p.output().chars().all(|c| c.is_ascii_digit()));
    p.set_classes(true, false, false, true);
    p.generate();
    let allowed: Vec<char> = p.charset();
    assert!(p.output().chars().all(|c| allowed.contains(&c)));
    assert!(p.output().chars().all(|c| !c.is_ascii_lowercase() && !c.is_ascii_digit()));
}

#[test]
fn no_class_changes_nothing() {
    let mut p = PasswordGenerator::new();
    p.generate();
    let before = p.output().to_owned();
    p.set_classes(false, false, false, false);
    assert!(!p.can_generate());
    p.generate();
    assert_eq!(p.output(), before);
}

#[test]
fn password_spelled_from_indices() {
    let charset: Vec<char> = "abc".chars().collect();
    assert_eq!(password_from_indices(&charset, &vec![2, 0, 1, 1]), "cabb");
    assert_eq!(password_from_indices(&charset, &vec![]), "");
}
