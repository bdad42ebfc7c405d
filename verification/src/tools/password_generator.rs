//! Random passwords over the chosen character classes, drawn with `rand`.
use crate::text::{chars_of, string_of};
use rand::RngExt as _;
use vstd::prelude::*;

verus! {

#[verifier::external_type_specification]
#[verifier::external_body]
pub struct ExThreadRng(rand::rngs::ThreadRng);

/// `rand::rng()`: the thread's generator. Nothing is claimed of it.
#[verifier::external_body]
fn thread_rng() -> (r: rand::rngs::ThreadRng) {
    rand::rng()
}

/// `RngExt::random_range(0..n)`. Claimed: an index below `n`; which one is
/// chance. The crate panics on an empty range, which `requires` leaves out.
#[verifier::external_body]
fn random_below(rng: &mut rand::rngs::ThreadRng, n: usize) -> (r: usize)
    requires
        n > 0,
    ensures
        r < n,
{
    rng.random_range(0..n)
}

pub open spec fn upper_chars() -> Seq<char> {
    "ABCDEFGHIJKLMNOPQRSTUVWXYZ"@
}

pub open spec fn lower_chars() -> Seq<char> {
    "abcdefghijklmnopqrstuvwxyz"@
}

pub open spec fn number_chars() -> Seq<char> {
    "0123456789"@
}

pub open spec fn symbol_chars() -> Seq<char> {
    "!@#$%^&*()-_=+[]{}|;:,.<>?"@
}

/// The characters a password may use: the enabled classes, in the order
/// upper, lower, numbers, symbols.
pub open spec fn charset_spec(upper: bool, lower: bool, numbers: bool, symbols: bool) -> Seq<char> {
    (if upper { upper_chars() } else { Seq::empty() }) + (if lower { lower_chars() } else { Seq::empty() })
        + (if numbers { number_chars() } else { Seq::empty() }) + (if symbols { symbol_chars() } else {
        Seq::empty()
    })
}

/// The charset is empty exactly when no class is enabled.
pub proof fn lemma_charset_empty(upper: bool, lower: bool, numbers: bool, symbols: bool)
    ensures
        (charset_spec(upper, lower, numbers, symbols).len() == 0) == (!upper && !lower && !numbers
            && !symbols),
{
    reveal_strlit("ABCDEFGHIJKLMNOPQRSTUVWXYZ");
    reveal_strlit("abcdefghijklmnopqrstuvwxyz");
    reveal_strlit("0123456789");
    reveal_strlit("!@#$%^&*()-_=+[]{}|;:,.<>?");
}

proof fn lemma_concat_contains(a: Seq<char>, b: Seq<char>, c: char)
    ensures
        (a + b).contains(c) <==> (a.contains(c) || b.contains(c)),
{
    if (a + b).contains(c) {
        let i = choose|i: int| 0 <= i < (a + b).len() && (a + b)[i] == c;
        if i < a.len() {
            assert(a[i] == c);
        } else {
            assert(b[i - a.len()] == c);
        }
    }
    if a.contains(c) {
        let i = choose|i: int| 0 <= i < a.len() && a[i] == c;
        assert((a + b)[i] == c);
    }
    if b.contains(c) {
        let i = choose|i: int| 0 <= i < b.len() && b[i] == c;
        assert((a + b)[a.len() + i] == c);
    }
}

proof fn lemma_class_members(c: char)
    ensures
        upper_chars().contains(c) <==> ('A' <= c <= 'Z'),
        lower_chars().contains(c) <==> ('a' <= c <= 'z'),
        number_chars().contains(c) <==> ('0' <= c <= '9'),
        symbol_chars().contains(c) <==> (c == '!' || c == '@' || c == '#' || c == '$' || c == '%' || c == '^' || c == '&' || c == '*' || c == '(' || c == ')' || c == '-' || c == '_' || c == '=' || c == '+' || c == '[' || c == ']' || c == '{' || c == '}' || c == '|' || c == ';' || c == ':' || c == ',' || c == '.' || c == '<' || c == '>' || c == '?'),
{
    reveal_strlit("ABCDEFGHIJKLMNOPQRSTUVWXYZ");
    reveal_strlit("abcdefghijklmnopqrstuvwxyz");
    reveal_strlit("0123456789");
    reveal_strlit("!@#$%^&*()-_=+[]{}|;:,.<>?");
    if 'A' <= c <= 'Z' {
        assert(upper_chars()[c as int - 'A' as int] == c);
    }
    if 'a' <= c <= 'z' {
        assert(lower_chars()[c as int - 'a' as int] == c);
    }
    if '0' <= c <= '9' {
        assert(number_chars()[c as int - '0' as int] == c);
    }
    if c == '!' {
        assert(symbol_chars()[0] == c);
    }
    if c == '@' {
        assert(symbol_chars()[1] == c);
    }
    if c == '#' {
        assert(symbol_chars()[2] == c);
    }
    if c == '$' {
        assert(symbol_chars()[3] == c);
    }
    if c == '%' {
        assert(symbol_chars()[4] == c);
    }
    if c == '^' {
        assert(symbol_chars()[5] == c);
    }
    if c == '&' {
        assert(symbol_chars()[6] == c);
    }
    if c == '*' {
        assert(symbol_chars()[7] == c);
    }
    if c == '(' {
        assert(symbol_chars()[8] == c);
    }
    if c == ')' {
        assert(symbol_chars()[9] == c);
    }
    if c == '-' {
        assert(symbol_chars()[10] == c);
    }
    if c == '_' {
        assert(symbol_chars()[11] == c);
    }
    if c == '=' {
        assert(symbol_chars()[12] == c);
    }
    if c == '+' {
        assert(symbol_chars()[13] == c);
    }
    if c == '[' {
        assert(symbol_chars()[14] == c);
    }
    if c == ']' {
        assert(symbol_chars()[15] == c);
    }
    if c == '{' {
        assert(symbol_chars()[16] == c);
    }
    if c == '}' {
        assert(symbol_chars()[17] == c);
    }
    if c == '|' {
        assert(symbol_chars()[18] == c);
    }
    if c == ';' {
        assert(symbol_chars()[19] == c);
    }
    if c == ':' {
        assert(symbol_chars()[20] == c);
    }
    if c == ',' {
        assert(symbol_chars()[21] == c);
    }
    if c == '.' {
        assert(symbol_chars()[22] == c);
    }
    if c == '<' {
        assert(symbol_chars()[23] == c);
    }
    if c == '>' {
        assert(symbol_chars()[24] == c);
    }
    if c == '?' {
        assert(symbol_chars()[25] == c);
    }
}

/// Each character class is in the password charset exactly when it is
/// enabled: a capital letter exactly with the uppercase class, a small letter
/// exactly with the lowercase class, a digit exactly with the numbers class,
/// one of `!@#$%^&*()-_=+[]{}|;:,.<>?` exactly with the symbols class; and the
/// charset holds nothing else.
pub proof fn law_charset_classes(upper: bool, lower: bool, numbers: bool, symbols: bool, c: char)
    ensures
        ('A' <= c <= 'Z') ==> (charset_spec(upper, lower, numbers, symbols).contains(c) <==> upper),
        ('a' <= c <= 'z') ==> (charset_spec(upper, lower, numbers, symbols).contains(c) <==> lower),
        ('0' <= c <= '9') ==> (charset_spec(upper, lower, numbers, symbols).contains(c) <==> numbers),
        (c == '!' || c == '@' || c == '#' || c == '$' || c == '%' || c == '^' || c == '&' || c == '*' || c == '(' || c == ')' || c == '-' || c == '_' || c == '=' || c == '+' || c == '[' || c == ']' || c == '{' || c == '}' || c == '|' || c == ';' || c == ':' || c == ',' || c == '.' || c == '<' || c == '>' || c == '?') ==> (charset_spec(upper, lower, numbers, symbols).contains(c) <==> symbols),
        charset_spec(upper, lower, numbers, symbols).contains(c) ==> ('A' <= c <= 'Z' || 'a' <= c <= 'z'
            || '0' <= c <= '9' || c == '!' || c == '@' || c == '#' || c == '$' || c == '%' || c == '^' || c == '&' || c == '*' || c == '(' || c == ')' || c == '-' || c == '_' || c == '=' || c == '+' || c == '[' || c == ']' || c == '{' || c == '}' || c == '|' || c == ';' || c == ':' || c == ',' || c == '.' || c == '<' || c == '>' || c == '?'),
{
    let u = if upper { upper_chars() } else { Seq::empty() };
    let l = if lower { lower_chars() } else { Seq::empty() };
    let n = if numbers { number_chars() } else { Seq::empty() };
    let y = if symbols { symbol_chars() } else { Seq::empty() };
    lemma_concat_contains(u, l, c);
    lemma_concat_contains(u + l, n, c);
    lemma_concat_contains(u + l + n, y, c);
    lemma_class_members(c);
}

/// Every character of `s` is one of `charset`.
pub open spec fn drawn_from(s: Seq<char>, charset: Seq<char>) -> bool {
    forall|i: int| 0 <= i < s.len() ==> charset.contains(#[trigger] s[i])
}

/// The password that drawn indices spell over a charset.
pub open spec fn spelled(charset: Seq<char>, indices: Seq<usize>) -> Seq<char> {
    Seq::new(indices.len(), |i: int| charset[indices[i] as int])
}

/// Spell a password from drawn indices into the charset.
pub fn password_from_indices(charset: &Vec<char>, indices: &Vec<usize>) -> (r: String)
    requires
        forall|i: int| 0 <= i < indices@.len() ==> #[trigger] indices@[i] < charset@.len(),
    ensures
        r@ == spelled(charset@, indices@),
{
    let mut out: Vec<char> = Vec::new();
    let mut i: usize = 0;
    while i < indices.len()
        invariant
            i <= indices@.len(),
            forall|j: int| 0 <= j < indices@.len() ==> #[trigger] indices@[j] < charset@.len(),
            out@ == spelled(charset@, indices@.take(i as int)),
        decreases indices@.len() - i,
    {
        let c = charset[indices[i]];
        out.push(c);
        i += 1;
        assert(out@ =~= spelled(charset@, indices@.take(i as int)));
    }
    assert(indices@.take(indices@.len() as int) =~= indices@);
    string_of(out.as_slice())
}

/// The generator's settings and its last password.
pub struct PasswordGenerator {
    length: usize,
    use_upper: bool,
    use_lower: bool,
    use_numbers: bool,
    use_symbols: bool,
    output: String,
}

impl PasswordGenerator {
    pub closed spec fn length_spec(&self) -> usize {
        self.length
    }

    /// The characters of the enabled classes.
    pub open spec fn charset_of(&self) -> Seq<char> {
        charset_spec(self.flags_spec().0, self.flags_spec().1, self.flags_spec().2, self.flags_spec().3)
    }

    pub closed spec fn flags_spec(&self) -> (bool, bool, bool, bool) {
        (self.use_upper, self.use_lower, self.use_numbers, self.use_symbols)
    }

    pub closed spec fn output_spec(&self) -> Seq<char> {
        self.output@
    }

    /// The state a fresh tool starts in.
    pub open spec fn is_fresh(&self) -> bool {
        &&& (self.length_spec() == 16)
        &&& (self.flags_spec() == (true, true, true, true))
        &&& (self.output_spec() == Seq::<char>::empty())
    }

    /// Sixteen characters from all four classes; no password yet.
    pub fn new() -> (r: Self)
        ensures
            r.is_fresh(),
            r.length_spec() == 16,
            r.flags_spec() == (true, true, true, true),
            r.output_spec() == Seq::<char>::empty(),
    {
        PasswordGenerator {
            length: 16,
            use_upper: true,
            use_lower: true,
            use_numbers: true,
            use_symbols: true,
            output: String::new(),
        }
    }

    /// The characters of the enabled classes.
    pub fn charset(&self) -> (r: Vec<char>)
        ensures
            r@ == self.charset_of(),
    {
        let mut charset: Vec<char> = Vec::new();
        if self.use_upper {
            let mut part = chars_of("ABCDEFGHIJKLMNOPQRSTUVWXYZ");
            charset.append(&mut part);
        }
        if self.use_lower {
            let mut part = chars_of("abcdefghijklmnopqrstuvwxyz");
            charset.append(&mut part);
        }
        if self.use_numbers {
            let mut part = chars_of("0123456789");
            charset.append(&mut part);
        }
        if self.use_symbols {
            let mut part = chars_of("!@#$%^&*()-_=+[]{}|;:,.<>?");
            charset.append(&mut part);
        }
        proof {
            assert(charset@ =~= self.charset_of());
        }
        charset
    }

    /// Draw a new password: `length` characters, each picked at random from
    /// the enabled classes. With no class enabled nothing changes.
    pub fn generate(&mut self)
        ensures
            final(self).length_spec() == old(self).length_spec(),
            final(self).flags_spec() == old(self).flags_spec(),
            old(self).charset_of().len() == 0 ==> final(self).output_spec() == old(self).output_spec(),
            old(self).charset_of().len() > 0 ==> exists|indices: Seq<usize>|
                #![trigger spelled(old(self).charset_of(), indices)]
                indices.len() == old(self).length_spec() && (forall|i: int|
                    0 <= i < indices.len() ==> #[trigger] indices[i] < old(self).charset_of().len())
                    && final(self).output_spec() == spelled(old(self).charset_of(), indices),
            old(self).charset_of().len() > 0 ==> {
                &&& final(self).output_spec().len() == old(self).length_spec()
                &&& drawn_from(final(self).output_spec(), old(self).charset_of())
            },
    {
        let charset = self.charset();
        if charset.len() == 0 {
            return;
        }
        let mut rng = thread_rng();
        let mut indices: Vec<usize> = Vec::new();
        let mut i: usize = 0;
        while i < self.length
            invariant
                i <= self.length,
                charset@.len() > 0,
                indices@.len() == i,
                forall|j: int| 0 <= j < indices@.len() ==> #[trigger] indices@[j] < charset@.len(),
            decreases self.length - i,
        {
            let idx = random_below(&mut rng, charset.len());
            indices.push(idx);
            i += 1;
        }
        let out = password_from_indices(&charset, &indices);
        proof {
            assert forall|k: int| 0 <= k < out@.len() implies charset@.contains(#[trigger] out@[k]) by {
                assert(out@[k] == charset@[indices@[k] as int]);
            }
        }
        self.output = out;
    }

    pub fn set_length(&mut self, length: usize)
        ensures
            final(self).length_spec() == length,
            final(self).flags_spec() == old(self).flags_spec(),
            final(self).output_spec() == old(self).output_spec(),
    {
        self.length = length;
    }

    /// Turn the four character classes on or off.
    pub fn set_classes(&mut self, upper: bool, lower: bool, numbers: bool, symbols: bool)
        ensures
            final(self).flags_spec() == (upper, lower, numbers, symbols),
            final(self).length_spec() == old(self).length_spec(),
            final(self).output_spec() == old(self).output_spec(),
    {
        self.use_upper = upper;
        self.use_lower = lower;
        self.use_numbers = numbers;
        self.use_symbols = symbols;
    }

    /// Whether "Generate" is enabled: at least one class is on.
    pub fn can_generate(&self) -> (r: bool)
        ensures
            r == (self.charset_of().len() > 0),
    {
        proof {
            reveal_strlit("ABCDEFGHIJKLMNOPQRSTUVWXYZ");
            reveal_strlit("abcdefghijklmnopqrstuvwxyz");
            reveal_strlit("0123456789");
            reveal_strlit("!@#$%^&*()-_=+[]{}|;:,.<>?");
        }
        self.use_upper || self.use_lower || self.use_numbers || self.use_symbols
    }

    pub fn set_output(&mut self, text: &str)
        ensures
            final(self).output_spec() == text@,
            final(self).flags_spec() == old(self).flags_spec(),
            final(self).length_spec() == old(self).length_spec(),
    {
        self.output = String::from_str(text);
    }

    pub fn length(&self) -> (r: usize)
        ensures
            r == self.length_spec(),
    {
        self.length
    }

    pub fn use_upper(&self) -> (r: bool)
        ensures
            r == self.flags_spec().0,
    {
        self.use_upper
    }

    pub fn use_lower(&self) -> (r: bool)
        ensures
            r == self.flags_spec().1,
    {
        self.use_lower
    }

    pub fn use_numbers(&self) -> (r: bool)
        ensures
            r == self.flags_spec().2,
    {
        self.use_numbers
    }

    pub fn use_symbols(&self) -> (r: bool)
        ensures
            r == self.flags_spec().3,
    {
        self.use_symbols
    }

    pub fn output(&self) -> (r: &str)
        ensures
            r@ == self.output_spec(),
    {
        self.output.as_str()
    }
}

} // verus!
