//! MD5, SHA-1, SHA-256 and SHA-512 digests of text, in lowercase hex,
//! through the RustCrypto hash crates and `hex`.
use crate::text::utf8_bytes;
use crate::tools::uuid_generator::hex_digit;
use sha2::Digest as _;
use vstd::prelude::*;
use vstd::utf8::*;

verus! {

/// The MD5 digest of some bytes.
pub uninterp spec fn md5_of(data: Seq<u8>) -> Seq<u8>;

/// The SHA-1 digest of some bytes.
pub uninterp spec fn sha1_of(data: Seq<u8>) -> Seq<u8>;

/// The SHA-256 digest of some bytes.
pub uninterp spec fn sha256_of(data: Seq<u8>) -> Seq<u8>;

/// The SHA-512 digest of some bytes.
pub uninterp spec fn sha512_of(data: Seq<u8>) -> Seq<u8>;

/// `Md5::digest` (`md-5`). Claimed: the named digest, 16 bytes long (the
/// type's output size is `U16`).
#[verifier::external_body]
fn md5_digest(data: &[u8]) -> (r: Vec<u8>)
    ensures
        r@ == md5_of(data@),
        r@.len() == 16,
{
    md5::Md5::digest(data).to_vec()
}

/// `Sha1::digest` (`sha1`). Claimed: the named digest, 20 bytes long.
#[verifier::external_body]
fn sha1_digest(data: &[u8]) -> (r: Vec<u8>)
    ensures
        r@ == sha1_of(data@),
        r@.len() == 20,
{
    sha1::Sha1::digest(data).to_vec()
}

/// `Sha256::digest` (`sha2`). Claimed: the named digest, 32 bytes long.
#[verifier::external_body]
fn sha256_digest(data: &[u8]) -> (r: Vec<u8>)
    ensures
        r@ == sha256_of(data@),
        r@.len() == 32,
{
    sha2::Sha256::digest(data).to_vec()
}

/// `Sha512::digest` (`sha2`). Claimed: the named digest, 64 bytes long.
#[verifier::external_body]
fn sha512_digest(data: &[u8]) -> (r: Vec<u8>)
    ensures
        r@ == sha512_of(data@),
        r@.len() == 64,
{
    sha2::Sha512::digest(data).to_vec()
}

/// Lowercase hex: two digits per byte, high half first.
pub open spec fn hex_lower(bytes: Seq<u8>) -> Seq<char> {
    Seq::new(
        2 * bytes.len(),
        |i: int|
            if i % 2 == 0 {
                hex_digit(bytes[i / 2] as int / 16)
            } else {
                hex_digit(bytes[i / 2] as int % 16)
            },
    )
}

/// `hex::encode`. Claimed: lowercase hex, two digits per byte, high half
/// first (the crate's `HEX_CHARS_LOWER` table, indexed by each half byte).
#[verifier::external_body]
fn hex_encode(bytes: &[u8]) -> (r: String)
    ensures
        r@ == hex_lower(bytes@),
{
    hex::encode(bytes)
}

/// The four hex digests of a text's UTF-8 bytes.
pub open spec fn md5_hex(text: Seq<char>) -> Seq<char> {
    hex_lower(md5_of(encode_utf8(text)))
}

pub open spec fn sha1_hex(text: Seq<char>) -> Seq<char> {
    hex_lower(sha1_of(encode_utf8(text)))
}

pub open spec fn sha256_hex(text: Seq<char>) -> Seq<char> {
    hex_lower(sha256_of(encode_utf8(text)))
}

pub open spec fn sha512_hex(text: Seq<char>) -> Seq<char> {
    hex_lower(sha512_of(encode_utf8(text)))
}

/// The generator: the input text and its four digests.
pub struct HashGenerator {
    input: String,
    md5: String,
    sha1: String,
    sha256: String,
    sha512: String,
}

impl HashGenerator {
    pub closed spec fn input_spec(&self) -> Seq<char> {
        self.input@
    }

    pub closed spec fn md5_spec(&self) -> Seq<char> {
        self.md5@
    }

    pub closed spec fn sha1_spec(&self) -> Seq<char> {
        self.sha1@
    }

    pub closed spec fn sha256_spec(&self) -> Seq<char> {
        self.sha256@
    }

    pub closed spec fn sha512_spec(&self) -> Seq<char> {
        self.sha512@
    }

    /// The four digests agree with the input: all empty for an empty input,
    /// otherwise the hex digests of its UTF-8 bytes.
    pub open spec fn digests_match(&self) -> bool {
        if self.input_spec().len() == 0 {
            &&& self.md5_spec() == Seq::<char>::empty()
            &&& self.sha1_spec() == Seq::<char>::empty()
            &&& self.sha256_spec() == Seq::<char>::empty()
            &&& self.sha512_spec() == Seq::<char>::empty()
        } else {
            &&& self.md5_spec() == md5_hex(self.input_spec())
            &&& self.sha1_spec() == sha1_hex(self.input_spec())
            &&& self.sha256_spec() == sha256_hex(self.input_spec())
            &&& self.sha512_spec() == sha512_hex(self.input_spec())
        }
    }

    /// The state a fresh tool starts in.
    pub open spec fn is_fresh(&self) -> bool {
        &&& (self.input_spec() == Seq::<char>::empty())
        &&& (self.digests_match())
    }

    /// An empty generator.
    pub fn new() -> (r: Self)
        ensures
            r.is_fresh(),
            r.input_spec() == Seq::<char>::empty(),
            r.digests_match(),
    {
        HashGenerator {
            input: String::new(),
            md5: String::new(),
            sha1: String::new(),
            sha256: String::new(),
            sha512: String::new(),
        }
    }

    /// Recompute the four digests from the input. For a non-empty input they
    /// are 32, 40, 64 and 128 hex digits long.
    pub fn update_hashes(&mut self)
        ensures
            final(self).input_spec() == old(self).input_spec(),
            final(self).digests_match(),
            old(self).input_spec().len() > 0 ==> {
                &&& final(self).md5_spec().len() == 32
                &&& final(self).sha1_spec().len() == 40
                &&& final(self).sha256_spec().len() == 64
                &&& final(self).sha512_spec().len() == 128
            },
    {
        if self.input.as_str().is_empty() {
            self.md5 = String::new();
            self.sha1 = String::new();
            self.sha256 = String::new();
            self.sha512 = String::new();
            return;
        }
        let bytes = utf8_bytes(self.input.as_str());
        let d = md5_digest(bytes.as_slice());
        self.md5 = hex_encode(d.as_slice());
        let d = sha1_digest(bytes.as_slice());
        self.sha1 = hex_encode(d.as_slice());
        let d = sha256_digest(bytes.as_slice());
        self.sha256 = hex_encode(d.as_slice());
        let d = sha512_digest(bytes.as_slice());
        self.sha512 = hex_encode(d.as_slice());
    }

    /// Empty the input and the digests ("Clear").
    pub fn clear(&mut self)
        ensures
            final(self).input_spec() == Seq::<char>::empty(),
            final(self).digests_match(),
    {
        self.input = String::new();
        self.update_hashes();
    }

    /// Replace the input text and recompute the digests (what typing does).
    pub fn set_input(&mut self, text: &str)
        ensures
            final(self).input_spec() == text@,
            final(self).digests_match(),
    {
        self.input = String::from_str(text);
        self.update_hashes();
    }

    pub fn input(&self) -> (r: &str)
        ensures
            r@ == self.input_spec(),
    {
        self.input.as_str()
    }

    pub fn md5(&self) -> (r: &str)
        ensures
            r@ == self.md5_spec(),
    {
        self.md5.as_str()
    }

    pub fn sha1(&self) -> (r: &str)
        ensures
            r@ == self.sha1_spec(),
    {
        self.sha1.as_str()
    }

    pub fn sha256(&self) -> (r: &str)
        ensures
            r@ == self.sha256_spec(),
    {
        self.sha256.as_str()
    }

    pub fn sha512(&self) -> (r: &str)
        ensures
            r@ == self.sha512_spec(),
    {
        self.sha512.as_str()
    }
}

} // verus!
