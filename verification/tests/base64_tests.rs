use personars::tools::base64_converter::Base64Converter;

#[test]
fn encode_hello() {
    let mut c = Base64Converter::new();
    c.set_input("hello");
    c.encode();
    assert_eq!(c.output(), "aGVsbG8=");
    assert_eq!(c.error(), None);
}

#[test]
fn url_safe_alphabet() {
    let mut c = Base64Converter::new();
    c.set_input("??>???");
    c.encode();
    assert_eq!(c.output(), "Pz8+Pz8/");
    c.set_url_safe(true);
    c.encode();
    assert_eq!(c.output(), "Pz8-Pz8_");
    c.set_input("a");
    c.encode();
    assert_eq!(c.output(), "YQ==");
}

#[test]
fn encode_then_decode_gives_the_input_back() {
    for text in ["", "a", "Grüße, 世界!", "line\nbreak"] {
        for url_safe in [false, true] {
            let mut c = Base64Converter::new();
            c.set_url_safe(url_safe);
            c.set_input(text);
            c.encode();
            let encoded = c.output().to_owned();
            c.set_input(&encoded);
            c.decode();
            assert_eq!(c.output(), text);
            assert_eq!(c.error(), None);
        }
    }
}

#[test]
fn decode_trims_the_input() {
    let mut c = Base64Converter::new();
    c.set_input("  aGVsbG8=\n");
    c.decode();
    assert_eq!(c.output(), "hello");
}

#[test]
fn decode_error_keeps_output() {
    let mut c = Base64Converter::new();
    c.set_input("hello");
    c.encode();
    c.set_input("!!!");
    c.decode();
    assert_eq!(c.output(), "aGVsbG8=");
    assert!(c.error().unwrap().starts_with("Decode Error: "));
}

#[test]
fn decode_invalid_utf8() {
    let mut c = Base64Converter::new();
    c.set_input("/w==");
    c.decode();
    assert_eq!(c.error(), Some("Decoded bytes are not valid UTF-8"));
}

#[test]
fn clear_all_empties() {
    let mut c = Base64Converter::new();
    c.set_input("x");
    c.encode();
    c.clear_all();
    assert_eq!(c.input(), "");
    assert_eq!(c.output(), "");
    assert_eq!(c.error(), None);
}
