//! Conversion between JSON, YAML and TOML through a `serde_json::Value`,
//! parsed and written by `serde_json`, `serde_yaml` and `toml`.
use crate::text::{chars_of, trim_chars, trim_spec};
use vstd::prelude::*;

verus! {

/// The three text formats.
#[derive(PartialEq, Eq, Clone, Copy, Debug, Structural)]
pub enum Format {
    Json,
    Yaml,
    Toml,
}

impl Format {
    /// The name shown in the format pickers.
    pub fn name(&self) -> (r: &'static str)
        ensures
            r@ == format_name(*self),
    {
        match self {
            Format::Json => "JSON",
            Format::Yaml => "YAML",
            Format::Toml => "TOML",
        }
    }
}

pub open spec fn format_name(f: Format) -> Seq<char> {
    match f {
        Format::Json => "JSON"@,
        Format::Yaml => "YAML"@,
        Format::Toml => "TOML"@,
    }
}

#[verifier::external_type_specification]
#[verifier::external_body]
pub struct ExJsonValue(serde_json::Value);

/// Where a parsed document came from: the format it was read as and the text.
pub struct DocumentSource {
    pub format: Format,
    pub text: Seq<char>,
}

/// A document parsed into a `serde_json::Value`, remembered by its source.
pub struct Document {
    value: serde_json::Value,
    source: Ghost<DocumentSource>,
}

impl View for Document {
    type V = DocumentSource;

    closed spec fn view(&self) -> DocumentSource {
        self.source@
    }
}

/// The `Display` text of `serde_json::from_str::<Value>`'s error on a text,
/// or `None` where it parses.
pub uninterp spec fn json_parse_error(text: Seq<char>) -> Option<Seq<char>>;

/// The `Display` text of `serde_yaml::from_str::<Value>`'s error on a text,
/// or `None` where it parses.
pub uninterp spec fn yaml_parse_error(text: Seq<char>) -> Option<Seq<char>>;

/// The `Display` text of `toml::from_str::<Value>`'s error on a text, or
/// `None` where it parses.
pub uninterp spec fn toml_parse_error(text: Seq<char>) -> Option<Seq<char>>;

/// What `serde_json::to_string_pretty` writes for the value parsed from a
/// source, or `None` where it fails.
pub uninterp spec fn json_rendering(source: DocumentSource) -> Option<Seq<char>>;

/// What `serde_yaml::to_string` writes for the value parsed from a source,
/// or `None` where it fails.
pub uninterp spec fn yaml_rendering(source: DocumentSource) -> Option<Seq<char>>;

/// What `toml::to_string` writes for the value parsed from a source, or
/// `None` where it fails (a value that is not a table, for one).
pub uninterp spec fn toml_rendering(source: DocumentSource) -> Option<Seq<char>>;

/// `serde_json::from_str::<serde_json::Value>`. Claimed: it succeeds exactly
/// where the named error is `None`, and the document then remembers the JSON
/// text; otherwise the error's text is the named one.
#[verifier::external_body]
pub(crate) fn parse_json(text: &str) -> (r: Result<Document, String>)
    ensures
        match r {
            Ok(d) => d@ == (DocumentSource { format: Format::Json, text: text@ }) && json_parse_error(
                text@,
            ) is None,
            Err(e) => json_parse_error(text@) == Some(e@),
        },
{
    match serde_json::from_str::<serde_json::Value>(text) {
        Ok(value) => Ok(Document { value, source: Ghost(DocumentSource { format: Format::Json, text: text@ }) }),
        Err(e) => Err(e.to_string()),
    }
}

/// `serde_yaml::from_str::<serde_json::Value>`. Claimed as for `parse_json`,
/// over the YAML names.
#[verifier::external_body]
pub(crate) fn parse_yaml(text: &str) -> (r: Result<Document, String>)
    ensures
        match r {
            Ok(d) => d@ == (DocumentSource { format: Format::Yaml, text: text@ }) && yaml_parse_error(
                text@,
            ) is None,
            Err(e) => yaml_parse_error(text@) == Some(e@),
        },
{
    match serde_yaml::from_str::<serde_json::Value>(text) {
        Ok(value) => Ok(Document { value, source: Ghost(DocumentSource { format: Format::Yaml, text: text@ }) }),
        Err(e) => Err(e.to_string()),
    }
}

/// `toml::from_str::<serde_json::Value>`. Claimed as for `parse_json`, over
/// the TOML names.
#[verifier::external_body]
pub(crate) fn parse_toml(text: &str) -> (r: Result<Document, String>)
    ensures
        match r {
            Ok(d) => d@ == (DocumentSource { format: Format::Toml, text: text@ }) && toml_parse_error(
                text@,
            ) is None,
            Err(e) => toml_parse_error(text@) == Some(e@),
        },
{
    match toml::from_str::<serde_json::Value>(text) {
        Ok(value) => Ok(Document { value, source: Ghost(DocumentSource { format: Format::Toml, text: text@ }) }),
        Err(e) => Err(e.to_string()),
    }
}

/// `serde_json::to_string_pretty` of the document's value, with a failure as
/// `None`. Claimed: the result is the named rendering of the document's source.
#[verifier::external_body]
pub(crate) fn render_json_pretty(doc: &Document) -> (r: Option<String>)
    ensures
        match r {
            Some(t) => json_rendering(doc@) == Some(t@),
            None => json_rendering(doc@) is None,
        },
{
    serde_json::to_string_pretty(&doc.value).ok()
}

/// `serde_yaml::to_string` of the document's value, with a failure as
/// `None`. Claimed: the result is the named rendering of the document's source.
#[verifier::external_body]
pub(crate) fn render_yaml(doc: &Document) -> (r: Option<String>)
    ensures
        match r {
            Some(t) => yaml_rendering(doc@) == Some(t@),
            None => yaml_rendering(doc@) is None,
        },
{
    serde_yaml::to_string(&doc.value).ok()
}

/// `toml::to_string` of the document's value, with a failure as `None`.
/// Claimed: the result is the named rendering of the document's source.
#[verifier::external_body]
pub(crate) fn render_toml(doc: &Document) -> (r: Option<String>)
    ensures
        match r {
            Some(t) => toml_rendering(doc@) == Some(t@),
            None => toml_rendering(doc@) is None,
        },
{
    toml::to_string(&doc.value).ok()
}

/// The parse error of a text read as the given format, `None` where it parses.
pub open spec fn parse_error_of(f: Format, text: Seq<char>) -> Option<Seq<char>> {
    match f {
        Format::Json => json_parse_error(text),
        Format::Yaml => yaml_parse_error(text),
        Format::Toml => toml_parse_error(text),
    }
}

/// Parse a text as the given format.
pub fn parse_as(f: Format, text: &str) -> (r: Result<Document, String>)
    ensures
        match r {
            Ok(d) => d@ == (DocumentSource { format: f, text: text@ }) && parse_error_of(f, text@) is None,
            Err(e) => parse_error_of(f, text@) == Some(e@),
        },
{
    match f {
        Format::Json => parse_json(text),
        Format::Yaml => parse_yaml(text),
        Format::Toml => parse_toml(text),
    }
}

/// What the converter writes into a buffer of the target format for a
/// source: the serializer's text, or nothing where it fails.
pub open spec fn rendering_of(target: Format, source: DocumentSource) -> Seq<char> {
    let r = match target {
        Format::Json => json_rendering(source),
        Format::Yaml => yaml_rendering(source),
        Format::Toml => toml_rendering(source),
    };
    match r {
        Some(t) => t,
        None => Seq::empty(),
    }
}

/// Write a document in the target format (empty where the serializer fails).
pub fn render_as(target: Format, doc: &Document) -> (r: String)
    ensures
        r@ == rendering_of(target, doc@),
{
    let out = match target {
        Format::Json => render_json_pretty(doc),
        Format::Yaml => render_yaml(doc),
        Format::Toml => render_toml(doc),
    };
    match out {
        Some(t) => t,
        None => String::new(),
    }
}

/// The converter: one buffer per format, the formats shown on either side,
/// and the last parse error.
pub struct FormatConverter {
    json: String,
    yaml: String,
    toml: String,
    input_format: Format,
    output_format: Format,
    error: Option<String>,
}

impl FormatConverter {
    /// The buffer that holds the given format.
    pub closed spec fn buffer_spec(&self, f: Format) -> Seq<char> {
        match f {
            Format::Json => self.json@,
            Format::Yaml => self.yaml@,
            Format::Toml => self.toml@,
        }
    }

    pub closed spec fn input_format_spec(&self) -> Format {
        self.input_format
    }

    pub closed spec fn output_format_spec(&self) -> Format {
        self.output_format
    }

    pub closed spec fn error_spec(&self) -> Option<Seq<char>> {
        match self.error {
            Some(e) => Some(e@),
            None => None,
        }
    }

    /// The state a fresh tool starts in.
    pub open spec fn is_fresh(&self) -> bool {
        &&& (forall|f: Format| self.buffer_spec(f) == Seq::<char>::empty())
        &&& (self.input_format_spec() == Format::Json)
        &&& (self.output_format_spec() == Format::Yaml)
        &&& (self.error_spec() is None)
    }

    /// Empty buffers, JSON in, YAML out, no error.
    pub fn new() -> (r: Self)
        ensures
            r.is_fresh(),
            forall|f: Format| r.buffer_spec(f) == Seq::<char>::empty(),
            r.input_format_spec() == Format::Json,
            r.output_format_spec() == Format::Yaml,
            r.error_spec() is None,
    {
        FormatConverter {
            json: String::new(),
            yaml: String::new(),
            toml: String::new(),
            input_format: Format::Json,
            output_format: Format::Yaml,
            error: None,
        }
    }

    /// The buffer of the given format.
    pub fn buffer(&self, f: Format) -> (r: &str)
        ensures
            r@ == self.buffer_spec(f),
    {
        match f {
            Format::Json => self.json.as_str(),
            Format::Yaml => self.yaml.as_str(),
            Format::Toml => self.toml.as_str(),
        }
    }

    fn set_buffer_string(&mut self, f: Format, text: String)
        ensures
            final(self).buffer_spec(f) == text@,
            forall|g: Format| g != f ==> final(self).buffer_spec(g) == old(self).buffer_spec(g),
            final(self).input_format_spec() == old(self).input_format_spec(),
            final(self).output_format_spec() == old(self).output_format_spec(),
            final(self).error_spec() == old(self).error_spec(),
    {
        match f {
            Format::Json => self.json = text,
            Format::Yaml => self.yaml = text,
            Format::Toml => self.toml = text,
        }
    }

    /// Replace the buffer of the given format (what the editors write).
    pub fn set_buffer(&mut self, f: Format, text: &str)
        ensures
            final(self).buffer_spec(f) == text@,
            forall|g: Format| g != f ==> final(self).buffer_spec(g) == old(self).buffer_spec(g),
            final(self).input_format_spec() == old(self).input_format_spec(),
            final(self).output_format_spec() == old(self).output_format_spec(),
            final(self).error_spec() == old(self).error_spec(),
    {
        self.set_buffer_string(f, String::from_str(text));
    }

    /// Parse the input buffer and rewrite the other two buffers from it.
    /// A blank input clears the error and changes nothing else; a parse
    /// failure sets the error "Parse Error: ..." and changes no buffer.
    pub fn convert_from_input(&mut self)
        ensures
            final(self).input_format_spec() == old(self).input_format_spec(),
            final(self).output_format_spec() == old(self).output_format_spec(),
            ({
                let f = old(self).input_format_spec();
                let input = old(self).buffer_spec(f);
                if trim_spec(input).len() == 0 {
                    &&& final(self).error_spec() is None
                    &&& forall|g: Format| final(self).buffer_spec(g) == old(self).buffer_spec(g)
                } else {
                    match parse_error_of(f, input) {
                        None => {
                            &&& final(self).error_spec() is None
                            &&& final(self).buffer_spec(f) == input
                            &&& forall|g: Format|
                                g != f ==> final(self).buffer_spec(g) == rendering_of(
                                    g,
                                    DocumentSource { format: f, text: input },
                                )
                        },
                        Some(e) => {
                            &&& final(self).error_spec() == Some("Parse Error: "@ + e)
                            &&& forall|g: Format| final(self).buffer_spec(g) == old(self).buffer_spec(g)
                        },
                    }
                }
            }),
    {
        let f = self.input_format;
        let input = String::from_str(self.buffer(f));
        let v = chars_of(input.as_str());
        let t = trim_chars(v.as_slice());
        if t.len() == 0 {
            self.error = None;
            return;
        }
        match parse_as(f, input.as_str()) {
            Ok(doc) => {
                self.error = None;
                if f != Format::Json {
                    let out = render_as(Format::Json, &doc);
                    self.set_buffer_string(Format::Json, out);
                }
                if f != Format::Yaml {
                    let out = render_as(Format::Yaml, &doc);
                    self.set_buffer_string(Format::Yaml, out);
                }
                if f != Format::Toml {
                    let out = render_as(Format::Toml, &doc);
                    self.set_buffer_string(Format::Toml, out);
                }
            },
            Err(e) => {
                self.error = Some(String::from_str("Parse Error: ").concat(e.as_str()));
            },
        }
    }

    /// "Format Input": convert as `convert_from_input`, then, where the input
    /// parses, rewrite the input buffer itself in its own format.
    pub fn format_current(&mut self)
        ensures
            final(self).input_format_spec() == old(self).input_format_spec(),
            final(self).output_format_spec() == old(self).output_format_spec(),
            ({
                let f = old(self).input_format_spec();
                let input = old(self).buffer_spec(f);
                let src = DocumentSource { format: f, text: input };
                &&& trim_spec(input).len() == 0 ==> final(self).error_spec() is None
                &&& trim_spec(input).len() == 0 && parse_error_of(f, input) is Some ==> forall|g: Format|
                    final(self).buffer_spec(g) == old(self).buffer_spec(g)
                &&& parse_error_of(f, input) is None ==> final(self).buffer_spec(f) == rendering_of(f, src)
                &&& trim_spec(input).len() > 0 ==> match parse_error_of(f, input) {
                    None => {
                        &&& final(self).error_spec() is None
                        &&& forall|g: Format| g != f ==> final(self).buffer_spec(g) == rendering_of(g, src)
                    },
                    Some(e) => {
                        &&& final(self).error_spec() == Some("Parse Error: "@ + e)
                        &&& forall|g: Format| final(self).buffer_spec(g) == old(self).buffer_spec(g)
                    },
                }
                &&& trim_spec(input).len() == 0 ==> forall|g: Format|
                    g != f ==> final(self).buffer_spec(g) == old(self).buffer_spec(g)
            }),
    {
        self.convert_from_input();
        let f = self.input_format;
        let input = String::from_str(self.buffer(f));
        match parse_as(f, input.as_str()) {
            Ok(doc) => {
                let out = render_as(f, &doc);
                self.set_buffer_string(f, out);
            },
            Err(_) => {},
        }
    }

    /// Empty all three buffers and clear the error ("Clear All").
    pub fn clear_all(&mut self)
        ensures
            forall|g: Format| final(self).buffer_spec(g) == Seq::<char>::empty(),
            final(self).error_spec() is None,
            final(self).input_format_spec() == old(self).input_format_spec(),
            final(self).output_format_spec() == old(self).output_format_spec(),
    {
        self.json = String::new();
        self.yaml = String::new();
        self.toml = String::new();
        self.error = None;
    }

    pub fn set_input_format(&mut self, f: Format)
        ensures
            final(self).input_format_spec() == f,
            final(self).output_format_spec() == old(self).output_format_spec(),
            forall|g: Format| final(self).buffer_spec(g) == old(self).buffer_spec(g),
            final(self).error_spec() == old(self).error_spec(),
    {
        self.input_format = f;
    }

    pub fn set_output_format(&mut self, f: Format)
        ensures
            final(self).output_format_spec() == f,
            final(self).input_format_spec() == old(self).input_format_spec(),
            forall|g: Format| final(self).buffer_spec(g) == old(self).buffer_spec(g),
            final(self).error_spec() == old(self).error_spec(),
    {
        self.output_format = f;
    }

    pub fn input_format(&self) -> (r: Format)
        ensures
            r == self.input_format_spec(),
    {
        self.input_format
    }

    pub fn output_format(&self) -> (r: Format)
        ensures
            r == self.output_format_spec(),
    {
        self.output_format
    }

    pub fn error(&self) -> (r: Option<&str>)
        ensures
            match r {
                Some(e) => self.error_spec() == Some(e@),
                None => self.error_spec() is None,
            },
    {
        match &self.error {
            Some(e) => Some(e.as_str()),
            None => None,
        }
    }
}

} // verus!
