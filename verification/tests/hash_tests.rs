use personars::tools::hash_generator::HashGenerator;

#[test]
fn digests_of_abc() {
    let mut h = HashGenerator::new();
    h.set_input("abc");
    assert_eq!(h.md5(), "900150983cd24fb0d6963f7d28e17f72");
    assert_eq!(h.sha1(), "a9993e364706816aba3e25717850c26c9cd0d89d");
    assert_eq!(h.sha256(), "ba7816bf8f01cfea414140de5dae2223b00361a396177a9cb410ff61f20015ad");
    assert_eq!(
        h.sha512(),
        "ddaf35a193617abacc417349ae20413112e6fa4e89a97ea20a9eeee64b55d39a2192992a274fc1a836ba3c23a3feebbd454d4423643ce80e2a9ac94fa54ca49f"
    );
}

#[test]
fn digest_lengths() {
    let mut h = HashGenerator::new();
    h.set_input("some longer text, with ünïcödé");
    assert_eq!(h.md5().len(), 32);
    assert_eq!(h.sha1().len(), 40);
    assert_eq!(h.sha256().len(), 64);
    assert_eq!(h.sha512().len(), 128);
    assert!(h.sha256().chars().all(|c| c.is_ascii_hexdigit() && !c.is_ascii_uppercase()));
}

#[test]
fn empty_input_has_no_digests() {
    let mut h = HashGenerator::new();
    h.set_input("abc");
    h.clear();
    assert_eq!(h.input(), "");
    assert_eq!(h.md5(), "");
    assert_eq!(h.sha512(), "");
}
