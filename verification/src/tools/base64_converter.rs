//! Base64 encoding and decoding of text, through the `base64` crate.
use crate::text::{
    is_whitespace_spec, lemma_trim_no_whitespace, trim, trim_spec, utf8_bytes, utf8_to_string,
};
use base64::Engine as _;
use vstd::prelude::*;
use vstd::utf8::*;

verus! {

/// The `base64` engines that the tools use.
#[derive(PartialEq, Eq, Clone, Copy, Debug, Structural)]
pub enum Base64Engine {
    /// `general_purpose::STANDARD`: `+` and `/`, padded with `=`.
    Standard,
    /// `general_purpose::URL_SAFE`: `-` and `_`, padded with `=`.
    UrlSafe,
    /// `general_purpose::URL_SAFE_NO_PAD`: `-` and `_`, no padding.
    UrlSafeNoPad,
}

/// A character that the engine's encoder may write: the 62 letters and
/// digits, the two alphabet-specific symbols and, for padded engines, `=`.
pub open spec fn base64_symbol(engine: Base64Engine, c: char) -> bool {
    ||| 'A' <= c <= 'Z'
    ||| 'a' <= c <= 'z'
    ||| '0' <= c <= '9'
    ||| (engine == Base64Engine::Standard && (c == '+' || c == '/' || c == '='))
    ||| (engine == Base64Engine::UrlSafe && (c == '-' || c == '_' || c == '='))
    ||| (engine == Base64Engine::UrlSafeNoPad && (c == '-' || c == '_'))
}

/// The character of a 6-bit value in the engine's alphabet: `A`-`Z`, `a`-`z`,
/// `0`-`9`, then `+` and `/` (standard) or `-` and `_` (URL-safe).
pub open spec fn base64_char(engine: Base64Engine, v: int) -> char {
    if v < 26 {
        (('A' as int) + v) as char
    } else if v < 52 {
        (('a' as int) + v - 26) as char
    } else if v < 62 {
        (('0' as int) + v - 52) as char
    } else if v == 62 {
        if engine == Base64Engine::Standard {
            '+'
        } else {
            '-'
        }
    } else if engine == Base64Engine::Standard {
        '/'
    } else {
        '_'
    }
}

/// The padding after a short last group: `=` signs on padded engines,
/// nothing on the unpadded one.
pub open spec fn base64_padding(engine: Base64Engine, n: nat) -> Seq<char> {
    if engine == Base64Engine::UrlSafeNoPad {
        Seq::empty()
    } else {
        Seq::new(n, |i: int| '=')
    }
}

/// What `Engine::encode` writes for the given bytes (RFC 4648): each group
/// of three bytes as four characters of six bits each, most significant
/// first; a last group of two bytes as three characters and one of one byte
/// as two, followed by the engine's padding.
pub open spec fn base64_encoded(engine: Base64Engine, bytes: Seq<u8>) -> Seq<char>
    decreases bytes.len(),
{
    let c = |v: int| base64_char(engine, v);
    let b0 = bytes[0] as int;
    let b1 = bytes[1] as int;
    let b2 = bytes[2] as int;
    if bytes.len() == 0 {
        Seq::empty()
    } else if bytes.len() == 1 {
        seq![c(b0 / 4), c((b0 % 4) * 16)] + base64_padding(engine, 2)
    } else if bytes.len() == 2 {
        seq![c(b0 / 4), c((b0 % 4) * 16 + b1 / 16), c((b1 % 16) * 4)] + base64_padding(engine, 1)
    } else {
        seq![
            c(b0 / 4),
            c((b0 % 4) * 16 + b1 / 16),
            c((b1 % 16) * 4 + b2 / 64),
            c(b2 % 64),
        ] + base64_encoded(engine, bytes.subrange(3, bytes.len() as int))
    }
}

/// What `Engine::decode` gives for the given text: the bytes, or the text of
/// the `DecodeError` it reports.
pub uninterp spec fn base64_decoded(engine: Base64Engine, text: Seq<char>) -> Result<
    Seq<u8>,
    Seq<char>,
>;

/// Decoding `text` with the engine gives back exactly `bytes`.
pub open spec fn decodes_to(engine: Base64Engine, text: Seq<char>, bytes: Seq<u8>) -> bool {
    base64_decoded(engine, text) == Ok::<Seq<u8>, Seq<char>>(bytes)
}

/// `Engine::encode` of the `base64` crate on the chosen engine. Claimed: the
/// result is the RFC 4648 encoding with the engine's alphabet and padding;
/// every character of it belongs to the engine's alphabet (or is `=` for
/// padded engines); and the same engine decodes it back to the bytes (the
/// round trip that the crate documents and tests for its engines).
#[verifier::external_body]
pub(crate) fn base64_encode(engine: Base64Engine, bytes: &[u8]) -> (r: String)
    ensures
        r@ == base64_encoded(engine, bytes@),
        decodes_to(engine, r@, bytes@),
        forall|i: int| 0 <= i < r@.len() ==> base64_symbol(engine, #[trigger] r@[i]),
{
    let e = match engine {
        Base64Engine::Standard => &base64::engine::general_purpose::STANDARD,
        Base64Engine::UrlSafe => &base64::engine::general_purpose::URL_SAFE,
        Base64Engine::UrlSafeNoPad => &base64::engine::general_purpose::URL_SAFE_NO_PAD,
    };
    e.encode(bytes)
}

/// A decoding outcome by its views.
pub open spec fn bytes_result_view(r: Result<Vec<u8>, String>) -> Result<Seq<u8>, Seq<char>> {
    match r {
        Ok(v) => Ok(v@),
        Err(e) => Err(e@),
    }
}

/// `Engine::decode` of the `base64` crate on the chosen engine, with the
/// error turned into its `Display` text. Claimed: the result is the named
/// decoding, nothing more.
#[verifier::external_body]
pub(crate) fn base64_decode(engine: Base64Engine, text: &str) -> (r: Result<Vec<u8>, String>)
    ensures
        bytes_result_view(r) == base64_decoded(engine, text@),
{
    let e = match engine {
        Base64Engine::Standard => &base64::engine::general_purpose::STANDARD,
        Base64Engine::UrlSafe => &base64::engine::general_purpose::URL_SAFE,
        Base64Engine::UrlSafeNoPad => &base64::engine::general_purpose::URL_SAFE_NO_PAD,
    };
    match e.decode(text) {
        Ok(v) => Ok(v),
        Err(err) => Err(err.to_string()),
    }
}

/// The engine that the converter uses for its "URL Safe" setting.
pub open spec fn converter_engine(url_safe: bool) -> Base64Engine {
    if url_safe {
        Base64Engine::UrlSafe
    } else {
        Base64Engine::Standard
    }
}

/// The message shown when the decoded bytes are not text.
pub open spec fn invalid_utf8_message() -> Seq<char> {
    "Decoded bytes are not valid UTF-8"@
}

/// The message shown when the input is not base64.
pub open spec fn decode_error_message(err: Seq<char>) -> Seq<char> {
    "Decode Error: "@ + err
}

/// What decoding the converter's input gives: the decoded text, or the
/// message that the converter shows.
pub open spec fn decoded_text(engine: Base64Engine, input: Seq<char>) -> Result<
    Seq<char>,
    Seq<char>,
> {
    match base64_decoded(engine, trim_spec(input)) {
        Ok(bytes) => if valid_utf8(bytes) {
            Ok(decode_utf8(bytes))
        } else {
            Err(invalid_utf8_message())
        },
        Err(e) => Err(decode_error_message(e)),
    }
}

/// The Base64 converter: text in, text out, and the last error.
pub struct Base64Converter {
    input: String,
    output: String,
    url_safe: bool,
    error: Option<String>,
}

impl Base64Converter {
    pub closed spec fn input_spec(&self) -> Seq<char> {
        self.input@
    }

    pub closed spec fn output_spec(&self) -> Seq<char> {
        self.output@
    }

    pub closed spec fn url_safe_spec(&self) -> bool {
        self.url_safe
    }

    pub closed spec fn error_spec(&self) -> Option<Seq<char>> {
        match self.error {
            Some(e) => Some(e@),
            None => None,
        }
    }

    /// The state a fresh tool starts in.
    pub open spec fn is_fresh(&self) -> bool {
        &&& (self.input_spec() == Seq::<char>::empty())
        &&& (self.output_spec() == Seq::<char>::empty())
        &&& (!self.url_safe_spec())
        &&& (self.error_spec() is None)
    }

    /// An empty converter using the standard alphabet.
    pub fn new() -> (r: Self)
        ensures
            r.is_fresh(),
            r.input_spec() == Seq::<char>::empty(),
            r.output_spec() == Seq::<char>::empty(),
            !r.url_safe_spec(),
            r.error_spec() is None,
    {
        Base64Converter { input: String::new(), output: String::new(), url_safe: false, error: None }
    }

    /// Encode the UTF-8 bytes of the input; the output becomes their base64
    /// text and the error is cleared. What this writes decodes back, with the
    /// same setting, to the input.
    pub fn encode(&mut self)
        ensures
            final(self).output_spec() == base64_encoded(
                converter_engine(old(self).url_safe_spec()),
                encode_utf8(old(self).input_spec()),
            ),
            decoded_text(converter_engine(old(self).url_safe_spec()), final(self).output_spec())
                == Ok::<Seq<char>, Seq<char>>(old(self).input_spec()),
            final(self).error_spec() is None,
            final(self).input_spec() == old(self).input_spec(),
            final(self).url_safe_spec() == old(self).url_safe_spec(),
    {
        broadcast use group_utf8_lib;

        let engine = if self.url_safe {
            Base64Engine::UrlSafe
        } else {
            Base64Engine::Standard
        };
        let bytes = utf8_bytes(self.input.as_str());
        let out = base64_encode(engine, bytes.as_slice());
        proof {
            assert forall|i: int| 0 <= i < out@.len() implies !is_whitespace_spec(
                #[trigger] out@[i],
            ) by {
                lemma_base64_symbol_not_whitespace(engine, out@, i);
            }
            lemma_trim_no_whitespace(out@);
        }
        self.output = out;
        self.error = None;
    }

    /// Decode the trimmed input. On success the output becomes the decoded
    /// text and the error is cleared; bytes that are not UTF-8, or input that
    /// is not base64, set the error and leave the output as it was.
    pub fn decode(&mut self)
        ensures
            final(self).input_spec() == old(self).input_spec(),
            final(self).url_safe_spec() == old(self).url_safe_spec(),
            match decoded_text(converter_engine(old(self).url_safe_spec()), old(self).input_spec()) {
                Ok(t) => final(self).output_spec() == t && final(self).error_spec() is None,
                Err(m) => final(self).output_spec() == old(self).output_spec()
                    && final(self).error_spec() == Some(m),
            },
    {
        let engine = if self.url_safe {
            Base64Engine::UrlSafe
        } else {
            Base64Engine::Standard
        };
        let trimmed = trim(self.input.as_str());
        match base64_decode(engine, trimmed.as_str()) {
            Ok(bytes) => {
                match utf8_to_string(bytes) {
                    Some(s) => {
                        self.output = s;
                        self.error = None;
                    },
                    None => {
                        self.error = Some(String::from_str("Decoded bytes are not valid UTF-8"));
                    },
                }
            },
            Err(e) => {
                let msg = String::from_str("Decode Error: ").concat(e.as_str());
                self.error = Some(msg);
            },
        }
    }

    /// Clear the input, the output and the error ("Clear All").
    pub fn clear_all(&mut self)
        ensures
            final(self).input_spec() == Seq::<char>::empty(),
            final(self).output_spec() == Seq::<char>::empty(),
            final(self).error_spec() is None,
            final(self).url_safe_spec() == old(self).url_safe_spec(),
    {
        self.input = String::new();
        self.output = String::new();
        self.error = None;
    }

    pub fn set_input(&mut self, text: &str)
        ensures
            final(self).input_spec() == text@,
            final(self).output_spec() == old(self).output_spec(),
            final(self).url_safe_spec() == old(self).url_safe_spec(),
            final(self).error_spec() == old(self).error_spec(),
    {
        self.input = String::from_str(text);
    }

    pub fn set_url_safe(&mut self, url_safe: bool)
        ensures
            final(self).url_safe_spec() == url_safe,
            final(self).input_spec() == old(self).input_spec(),
            final(self).output_spec() == old(self).output_spec(),
            final(self).error_spec() == old(self).error_spec(),
    {
        self.url_safe = url_safe;
    }

    pub fn input(&self) -> (r: &str)
        ensures
            r@ == self.input_spec(),
    {
        self.input.as_str()
    }

    pub fn output(&self) -> (r: &str)
        ensures
            r@ == self.output_spec(),
    {
        self.output.as_str()
    }

    pub fn url_safe(&self) -> (r: bool)
        ensures
            r == self.url_safe_spec(),
    {
        self.url_safe
    }

    pub fn error(&self) -> (r: Option<&str>)
        ensures
            match r {
                Some(e) => self.error_spec() == Some(e@),
                None => self.error_spec() is None,
            },
    {
        match &self.error {
            Some(e) => Some(e.as_str()),
            None => None,
        }
    }
}

/// Characters of a base64 alphabet are never whitespace.
proof fn lemma_base64_symbol_not_whitespace(engine: Base64Engine, s: Seq<char>, i: int)
    requires
        0 <= i < s.len(),
        base64_symbol(engine, s[i]),
    ensures
        !is_whitespace_spec(s[i]),
{
}

} // verus!
