use personars::tools::format_converter::{Format, FormatConverter};

#[test]
fn format_names() {
    assert_eq!(Format::Json.name(), "JSON");
    assert_eq!(Format::Yaml.name(), "YAML");
    assert_eq!(Format::Toml.name(), "TOML");
}

#[test]
fn fresh_converter() {
    let c = FormatConverter::new();
    assert_eq!(c.input_format(), Format::Json);
    assert_eq!(c.output_format(), Format::Yaml);
    assert_eq!(c.buffer(Format::Json), "");
    assert_eq!(c.error(), None);
}

#[test]
fn json_to_yaml_and_toml() {
    let mut c = FormatConverter::new();
    c.set_buffer(Format::Json, "{\"name\": \"x\", \"n\": 1}");
    c.convert_from_input();
    assert_eq!(c.error(), None);
    assert_eq!(c.buffer(Format::Yaml), "n: 1\nname: x\n");
    assert_eq!(c.buffer(Format::Toml), "n = 1\nname = \"x\"\n");
    assert_eq!(c.buffer(Format::Json), "{\"name\": \"x\", \"n\": 1}");
}

#[test]
fn yaml_to_json() {
    let mut c = FormatConverter::new();
    c.set_input_format(Format::Yaml);
    c.set_buffer(Format::Yaml, "a: [1, 2]\n");
    c.convert_from_input();
    assert_eq!(c.buffer(Format::Json), "{\n  \"a\": [\n    1,\n    2\n  ]\n}");
}

#[test]
fn array_has_no_toml_form() {
    let mut c = FormatConverter::new();
    c.set_buffer(Format::Toml, "old");
    c.set_buffer(Format::Json, "[1, 2]");
    c.convert_from_input();
    assert_eq!(c.error(), None);
    assert_eq!(c.buffer(Format::Toml), "");
}

#[test]
fn parse_error_keeps_buffers() {
    let mut c = FormatConverter::new();
    c.set_buffer(Format::Yaml, "kept");
    c.set_buffer(Format::Json, "{oops");
    c.convert_from_input();
    assert!(c.error().unwrap().starts_with("Parse Error: "));
    assert_eq!(c.buffer(Format::Yaml), "kept");
}

#[test]
fn blank_input_clears_error() {
    let mut c = FormatConverter::new();
    c.set_buffer(Format::Json, "{oops");
    c.convert_from_input();
    assert!(c.error().is_some());
    c.set_buffer(Format::Json, "  \n");
    c.convert_from_input();
    assert_eq!(c.error(), None);
}

#[test]
fn format_input_rewrites_the_input() {
    let mut c = FormatConverter::new();
    c.set_buffer(Format::Json, "{\"a\":1}");
    c.format_current();
    assert_eq!(c.buffer(Format::Json), "{\n  \"a\": 1\n}");
    assert_eq!(c.buffer(Format::Yaml), "a: 1\n");
}

#[test]
fn clear_all() {
    let mut c = FormatConverter::new();
    c.set_buffer(Format::Json, "{\"a\":1}");
    c.convert_from_input();
    c.clear_all();
    assert_eq!(c.buffer(Format::Json), "");
    assert_eq!(c.buffer(Format::Yaml), "");
    assert_eq!(c.buffer(Format::Toml), "");
}
