//! Decoding the three parts of a JSON Web Token (no signature check).
use crate::text::{chars_of, string_of, trim_chars, trim_spec, utf8_to_string};
use crate::tools::base64_converter::{base64_decode, base64_decoded, Base64Engine};
use crate::tools::format_converter::{
    json_parse_error, json_rendering, parse_json, render_json_pretty, DocumentSource, Format,
};
use vstd::prelude::*;
use vstd::utf8::*;

verus! {

/// `str::split` on one character: the pieces between the separators, in
/// order (an empty text gives one empty piece).
pub open spec fn split_on(s: Seq<char>, sep: char) -> Seq<Seq<char>>
    decreases s.len(),
{
    if s.len() == 0 {
        seq![Seq::<char>::empty()]
    } else {
        let rest = split_on(s.drop_last(), sep);
        if s.last() == sep {
            rest.push(Seq::<char>::empty())
        } else {
            rest.update(rest.len() - 1, rest.last().push(s.last()))
        }
    }
}

/// Split a character vector on a separator.
pub fn split_chars(s: &[char], sep: char) -> (r: Vec<Vec<char>>)
    ensures
        r@.map_values(|p: Vec<char>| p@) == split_on(s@, sep),
{
    let mut parts: Vec<Vec<char>> = Vec::new();
    parts.push(Vec::new());
    let mut i: usize = 0;
    proof {
        assert(s@.take(0) =~= Seq::<char>::empty());
        assert(parts@.map_values(|p: Vec<char>| p@) =~= seq![Seq::<char>::empty()]);
    }
    while i < s.len()
        invariant
            i <= s@.len(),
            parts@.len() >= 1,
            parts@.map_values(|p: Vec<char>| p@) == split_on(s@.take(i as int), sep),
        decreases s@.len() - i,
    {
        let c = s[i];
        let ghost before = parts@.map_values(|p: Vec<char>| p@);
        proof {
            assert(s@.take(i + 1).drop_last() =~= s@.take(i as int));
            assert(s@.take(i + 1).last() == c);
        }
        if c == sep {
            parts.push(Vec::new());
            proof {
                assert(parts@.map_values(|p: Vec<char>| p@) =~= before.push(Seq::<char>::empty()));
            }
        } else {
            let k = parts.len() - 1;
            let mut last = parts.remove(k);
            last.push(c);
            parts.push(last);
            proof {
                assert(parts@.map_values(|p: Vec<char>| p@) =~= before.update(
                    before.len() - 1,
                    before.last().push(c),
                ));
            }
        }
        i += 1;
    }
    proof {
        assert(s@.take(s@.len() as int) =~= s@);
    }
    parts
}

/// Pretty JSON for a text that parses as JSON and whose value the
/// serializer writes; `None` otherwise.
pub open spec fn json_pretty_text(text: Seq<char>) -> Option<Seq<char>> {
    if json_parse_error(text) is None {
        json_rendering(DocumentSource { format: Format::Json, text })
    } else {
        None
    }
}

/// What the debugger shows for one base64url part of a token: the decoded
/// text, pretty-printed where it is JSON; or the reason it cannot be shown.
pub open spec fn decoded_part(part: Seq<char>) -> Seq<char> {
    match base64_decoded(Base64Engine::UrlSafeNoPad, part) {
        Ok(bytes) => if valid_utf8(bytes) {
            let text = decode_utf8(bytes);
            match json_pretty_text(text) {
                Some(p) => p,
                None => text,
            }
        } else {
            "Error: Invalid UTF-8"@
        },
        Err(e) => "Error decoding Base64: "@ + e,
    }
}

/// Decode one part of a token for display.
pub fn decode_part(part: &str) -> (r: String)
    ensures
        r@ == decoded_part(part@),
{
    match base64_decode(Base64Engine::UrlSafeNoPad, part) {
        Ok(bytes) => {
            match utf8_to_string(bytes) {
                Some(text) => {
                    match parse_json(text.as_str()) {
                        Ok(doc) => {
                            match render_json_pretty(&doc) {
                                Some(p) => p,
                                None => text,
                            }
                        },
                        Err(_) => text,
                    }
                },
                None => String::from_str("Error: Invalid UTF-8"),
            }
        },
        Err(e) => String::from_str("Error decoding Base64: ").concat(e.as_str()),
    }
}

/// The message shown for a token that does not have three parts.
pub open spec fn bad_format_message() -> Seq<char> {
    "Invalid JWT format (must have 3 parts separated by dots)"@
}

/// The debugger: the pasted token, its decoded header and payload, its
/// signature part, and the format error.
pub struct JwtDebugger {
    input_token: String,
    header_json: String,
    payload_json: String,
    signature: String,
    error: Option<String>,
}

impl JwtDebugger {
    pub closed spec fn input_spec(&self) -> Seq<char> {
        self.input_token@
    }

    pub closed spec fn header_spec(&self) -> Seq<char> {
        self.header_json@
    }

    pub closed spec fn payload_spec(&self) -> Seq<char> {
        self.payload_json@
    }

    pub closed spec fn signature_spec(&self) -> Seq<char> {
        self.signature@
    }

    pub closed spec fn error_spec(&self) -> Option<Seq<char>> {
        match self.error {
            Some(e) => Some(e@),
            None => None,
        }
    }

    /// The state a fresh tool starts in.
    pub open spec fn is_fresh(&self) -> bool {
        &&& (self.input_spec() == Seq::<char>::empty())
        &&& (self.header_spec() == Seq::<char>::empty())
        &&& (self.payload_spec() == Seq::<char>::empty())
        &&& (self.signature_spec() == Seq::<char>::empty())
        &&& (self.error_spec() is None)
    }

    /// An empty debugger.
    pub fn new() -> (r: Self)
        ensures
            r.is_fresh(),
            r.input_spec() == Seq::<char>::empty(),
            r.header_spec() == Seq::<char>::empty(),
            r.payload_spec() == Seq::<char>::empty(),
            r.signature_spec() == Seq::<char>::empty(),
            r.error_spec() is None,
    {
        JwtDebugger {
            input_token: String::new(),
            header_json: String::new(),
            payload_json: String::new(),
            signature: String::new(),
            error: None,
        }
    }

    /// Empty the token and everything decoded from it ("Clear All").
    pub fn clear(&mut self)
        ensures
            final(self).input_spec() == Seq::<char>::empty(),
            final(self).header_spec() == Seq::<char>::empty(),
            final(self).payload_spec() == Seq::<char>::empty(),
            final(self).signature_spec() == Seq::<char>::empty(),
            final(self).error_spec() is None,
    {
        self.input_token = String::new();
        self.header_json = String::new();
        self.payload_json = String::new();
        self.signature = String::new();
        self.error = None;
    }

    /// Decode the trimmed token. A blank token empties the three parts and
    /// the error. A token of three dot-separated parts shows the decoded
    /// header and payload and the raw signature, and clears the error. Any
    /// other token sets the format error and leaves the parts as they were.
    pub fn decode(&mut self)
        ensures
            final(self).input_spec() == old(self).input_spec(),
            ({
                let t = trim_spec(old(self).input_spec());
                let parts = split_on(t, '.');
                if t.len() == 0 {
                    &&& final(self).header_spec() == Seq::<char>::empty()
                    &&& final(self).payload_spec() == Seq::<char>::empty()
                    &&& final(self).signature_spec() == Seq::<char>::empty()
                    &&& final(self).error_spec() is None
                } else if parts.len() == 3 {
                    &&& final(self).header_spec() == decoded_part(parts[0])
                    &&& final(self).payload_spec() == decoded_part(parts[1])
                    &&& final(self).signature_spec() == parts[2]
                    &&& final(self).error_spec() is None
                } else {
                    &&& final(self).header_spec() == old(self).header_spec()
                    &&& final(self).payload_spec() == old(self).payload_spec()
                    &&& final(self).signature_spec() == old(self).signature_spec()
                    &&& final(self).error_spec() == Some(bad_format_message())
                }
            }),
    {
        let v = chars_of(self.input_token.as_str());
        let t = trim_chars(v.as_slice());
        if t.len() == 0 {
            self.header_json = String::new();
            self.payload_json = String::new();
            self.signature = String::new();
            self.error = None;
            return;
        }
        let parts = split_chars(t.as_slice(), '.');
        proof {
            assert(parts@.map_values(|p: Vec<char>| p@).len() == parts@.len());
        }
        if parts.len() == 3 {
            proof {
                assert(parts@.map_values(|p: Vec<char>| p@)[0] == parts@[0]@);
                assert(parts@.map_values(|p: Vec<char>| p@)[1] == parts@[1]@);
                assert(parts@.map_values(|p: Vec<char>| p@)[2] == parts@[2]@);
            }
            let header = string_of(parts[0].as_slice());
            let payload = string_of(parts[1].as_slice());
            self.error = None;
            self.header_json = decode_part(header.as_str());
            self.payload_json = decode_part(payload.as_str());
            self.signature = string_of(parts[2].as_slice());
        } else {
            self.error = Some(String::from_str("Invalid JWT format (must have 3 parts separated by dots)"));
        }
    }

    pub fn set_input_token(&mut self, text: &str)
        ensures
            final(self).input_spec() == text@,
            final(self).header_spec() == old(self).header_spec(),
            final(self).payload_spec() == old(self).payload_spec(),
            final(self).signature_spec() == old(self).signature_spec(),
            final(self).error_spec() == old(self).error_spec(),
    {
        self.input_token = String::from_str(text);
    }

    pub fn input_token(&self) -> (r: &str)
        ensures
            r@ == self.input_spec(),
    {
        self.input_token.as_str()
    }

    pub fn header_json(&self) -> (r: &str)
        ensures
            r@ == self.header_spec(),
    {
        self.header_json.as_str()
    }

    pub fn payload_json(&self) -> (r: &str)
        ensures
            r@ == self.payload_spec(),
    {
        self.payload_json.as_str()
    }

    pub fn signature(&self) -> (r: &str)
        ensures
            r@ == self.signature_spec(),
    {
        self.signature.as_str()
    }

    pub fn error(&self) -> (r: Option<&str>)
        ensures
            match r {
                Some(e) => self.error_spec() == Some(e@),
                None => self.error_spec() is None,
            },
    {
        match &self.error {
            Some(e) => Some(e.as_str()),
            None => None,
        }
    }
}

} // verus!
