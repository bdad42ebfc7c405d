//! UUID generation (versions 4 and 7) and their hyphenated text form,
//! through the `uuid` crate.
use crate::text::{ascii_upper, join_chars, join_spec, string_of, to_ascii_uppercase, chars_of};
use vstd::prelude::*;

verus! {

/// The version field of a UUID held as a 128-bit big-endian number.
pub open spec fn version_of(u: u128) -> u128 {
    (u >> 76u128) & 0xfu128
}

/// The two variant bits of a UUID (`0b10` for RFC 4122 UUIDs).
pub open spec fn variant_of(u: u128) -> u128 {
    (u >> 62u128) & 0x3u128
}

/// `uuid::Uuid::new_v4`: random, so only its version (4) and RFC 4122
/// variant are claimed, which the crate's source sets by masking.
#[verifier::external_body]
pub(crate) fn new_v4_id() -> (r: u128)
    ensures
        version_of(r) == 4,
        variant_of(r) == 2,
{
    uuid::Uuid::new_v4().as_u128()
}

/// `uuid::Uuid::now_v7`: built from the clock and random bits, so only its
/// version (7) and RFC 4122 variant are claimed.
#[verifier::external_body]
pub(crate) fn now_v7_id() -> (r: u128)
    ensures
        version_of(r) == 7,
        variant_of(r) == 2,
{
    uuid::Uuid::now_v7().as_u128()
}

/// A lowercase hexadecimal digit.
pub open spec fn hex_digit(v: int) -> char {
    if v < 10 {
        (('0' as int) + v) as char
    } else {
        (('a' as int) + v - 10) as char
    }
}

/// The `k`-th hexadecimal digit of `u`, counting from the most significant.
pub open spec fn nibble(u: u128, k: int) -> int {
    ((u >> ((31 - k) * 4) as u128) & 0xfu128) as int
}

/// Which hex digit stands at position `i` of the hyphenated form.
pub open spec fn digit_index(i: int) -> int {
    if i < 8 {
        i
    } else if i < 13 {
        i - 1
    } else if i < 18 {
        i - 2
    } else if i < 23 {
        i - 3
    } else {
        i - 4
    }
}

/// The hyphenated lowercase form `xxxxxxxx-xxxx-xxxx-xxxx-xxxxxxxxxxxx`.
pub open spec fn hyphenated(u: u128) -> Seq<char> {
    Seq::new(
        36,
        |i: int|
            if i == 8 || i == 13 || i == 18 || i == 23 {
                '-'
            } else {
                hex_digit(nibble(u, digit_index(i)))
            },
    )
}

/// `Uuid::to_string` (its `Display`): the hyphenated lowercase form, as the
/// crate documents it.
#[verifier::external_body]
pub(crate) fn uuid_text(u: u128) -> (r: String)
    ensures
        r@ == hyphenated(u),
{
    uuid::Uuid::from_u128(u).to_string()
}

/// The UUID versions the generator offers.
#[derive(PartialEq, Eq, Clone, Copy, Debug, Structural)]
pub enum UuidVersion {
    /// Random.
    V4,
    /// Time-ordered.
    V7,
}

pub open spec fn version_number(v: UuidVersion) -> u128 {
    match v {
        UuidVersion::V4 => 4,
        UuidVersion::V7 => 7,
    }
}

/// How one UUID is written: hyphenated, uppercased when asked for.
pub open spec fn uuid_line(u: u128, uppercase: bool) -> Seq<char> {
    if uppercase {
        ascii_upper(hyphenated(u))
    } else {
        hyphenated(u)
    }
}

/// The UUIDs written one per line.
pub open spec fn uuid_lines(ids: Seq<u128>, uppercase: bool) -> Seq<char> {
    join_spec(ids.map_values(|u: u128| uuid_line(u, uppercase)), seq!['\n'])
}

/// Write the given UUIDs one per line.
pub fn format_uuids(ids: &Vec<u128>, uppercase: bool) -> (r: String)
    ensures
        r@ == uuid_lines(ids@, uppercase),
{
    let mut lines: Vec<Vec<char>> = Vec::new();
    let mut i: usize = 0;
    while i < ids.len()
        invariant
            i <= ids@.len(),
            lines@.map_values(|p: Vec<char>| p@) == ids@.take(i as int).map_values(
                |u: u128| uuid_line(u, uppercase),
            ),
        decreases ids@.len() - i,
    {
        let text = uuid_text(ids[i]);
        let chars = chars_of(text.as_str());
        let line = if uppercase {
            to_ascii_uppercase(chars.as_slice())
        } else {
            chars
        };
        let ghost before = lines@;
        lines.push(line);
        assert(lines@.map_values(|p: Vec<char>| p@) =~= ids@.take(i + 1).map_values(
            |u: u128| uuid_line(u, uppercase),
        )) by {
            assert(ids@.take(i + 1) =~= ids@.take(i as int).push(ids@[i as int]));
            assert(before.push(line).map_values(|p: Vec<char>| p@) =~= before.map_values(
                |p: Vec<char>| p@,
            ).push(line@));
        }
        i += 1;
    }
    assert(ids@.take(ids@.len() as int) =~= ids@);
    let mut sep: Vec<char> = Vec::new();
    sep.push('\n');
    assert(sep@ =~= seq!['\n']);
    let joined = join_chars(&lines, sep.as_slice());
    string_of(joined.as_slice())
}

/// The UUID generator: version, how many, case, and the generated text.
pub struct UuidGenerator {
    version: UuidVersion,
    count: usize,
    uppercase: bool,
    output: String,
}

impl UuidGenerator {
    pub closed spec fn version_spec(&self) -> UuidVersion {
        self.version
    }

    pub closed spec fn count_spec(&self) -> usize {
        self.count
    }

    pub closed spec fn uppercase_spec(&self) -> bool {
        self.uppercase
    }

    pub closed spec fn output_spec(&self) -> Seq<char> {
        self.output@
    }

    /// The state a fresh tool starts in.
    pub open spec fn is_fresh(&self) -> bool {
        &&& (self.version_spec() == UuidVersion::V4)
        &&& (self.count_spec() == 1)
        &&& (!self.uppercase_spec())
        &&& (self.output_spec() == Seq::<char>::empty())
    }

    /// One random (v4) lowercase UUID at a time, nothing generated yet.
    pub fn new() -> (r: Self)
        ensures
            r.is_fresh(),
            r.version_spec() == UuidVersion::V4,
            r.count_spec() == 1,
            !r.uppercase_spec(),
            r.output_spec() == Seq::<char>::empty(),
    {
        UuidGenerator { version: UuidVersion::V4, count: 1, uppercase: false, output: String::new() }
    }

    /// Generate `count` fresh UUIDs of the chosen version; the output lists
    /// them one per line, uppercased when asked for.
    pub fn generate(&mut self)
        ensures
            exists|ids: Seq<u128>|
                #![trigger uuid_lines(ids, old(self).uppercase_spec())]
                ids.len() == old(self).count_spec() && (forall|i: int|
                    0 <= i < ids.len() ==> version_of(#[trigger] ids[i]) == version_number(
                        old(self).version_spec(),
                    ) && variant_of(ids[i]) == 2) && final(self).output_spec() == uuid_lines(
                    ids,
                    old(self).uppercase_spec(),
                ),
            final(self).version_spec() == old(self).version_spec(),
            final(self).count_spec() == old(self).count_spec(),
            final(self).uppercase_spec() == old(self).uppercase_spec(),
    {
        let mut ids: Vec<u128> = Vec::new();
        let mut i: usize = 0;
        while i < self.count
            invariant
                i <= self.count,
                ids@.len() == i,
                forall|k: int|
                    0 <= k < i ==> version_of(#[trigger] ids@[k]) == version_number(self.version)
                        && variant_of(ids@[k]) == 2,
            decreases self.count - i,
        {
            let id = match self.version {
                UuidVersion::V4 => new_v4_id(),
                UuidVersion::V7 => now_v7_id(),
            };
            ids.push(id);
            i += 1;
        }
        self.output = format_uuids(&ids, self.uppercase);
        assert(self.output@ == uuid_lines(ids@, old(self).uppercase_spec()));
    }

    /// Clear the output.
    pub fn clear(&mut self)
        ensures
            final(self).output_spec() == Seq::<char>::empty(),
            final(self).version_spec() == old(self).version_spec(),
            final(self).count_spec() == old(self).count_spec(),
            final(self).uppercase_spec() == old(self).uppercase_spec(),
    {
        self.output = String::new();
    }

    pub fn set_version(&mut self, version: UuidVersion)
        ensures
            final(self).version_spec() == version,
            final(self).count_spec() == old(self).count_spec(),
            final(self).uppercase_spec() == old(self).uppercase_spec(),
            final(self).output_spec() == old(self).output_spec(),
    {
        self.version = version;
    }

    pub fn set_count(&mut self, count: usize)
        ensures
            final(self).count_spec() == count,
            final(self).version_spec() == old(self).version_spec(),
            final(self).uppercase_spec() == old(self).uppercase_spec(),
            final(self).output_spec() == old(self).output_spec(),
    {
        self.count = count;
    }

    pub fn set_uppercase(&mut self, uppercase: bool)
        ensures
            final(self).uppercase_spec() == uppercase,
            final(self).version_spec() == old(self).version_spec(),
            final(self).count_spec() == old(self).count_spec(),
            final(self).output_spec() == old(self).output_spec(),
    {
        self.uppercase = uppercase;
    }

    pub fn version(&self) -> (r: UuidVersion)
        ensures
            r == self.version_spec(),
    {
        self.version
    }

    pub fn count(&self) -> (r: usize)
        ensures
            r == self.count_spec(),
    {
        self.count
    }

    pub fn uppercase(&self) -> (r: bool)
        ensures
            r == self.uppercase_spec(),
    {
        self.uppercase
    }

    pub fn output(&self) -> (r: &str)
        ensures
            r@ == self.output_spec(),
    {
        self.output.as_str()
    }
}

} // verus!
