//! Decoding of the configured shared secret: the secret arrives as base32
//! text, is normalized (surrounding whitespace removed, ASCII letters
//! lowercased), and decoded into raw key bytes. A secret that does not decode
//! is a configuration error, reported distinctly from the filesystem's
//! not-found errors.

use vstd::prelude::*;

verus! {

/// A user setup mistake found while decoding the configured secret.
#[derive(Clone, Copy, PartialEq, Eq, Structural, Debug)]
pub enum ConfigError {
    /// The normalized secret text holds a character outside the base32
    /// alphabet.
    InvalidSecret,
}

/// ASCII whitespace: space, tab, line feed, vertical tab, form feed, carriage
/// return.
pub open spec fn is_space(b: u8) -> bool {
    b == 32 || (9 <= b && b <= 13)
}

/// How many whitespace bytes `s` starts with.
pub open spec fn leading_spaces(s: Seq<u8>) -> int
    decreases s.len(),
{
    if s.len() == 0 || !is_space(s[0]) {
        0
    } else {
        1 + leading_spaces(s.drop_first())
    }
}

/// How many whitespace bytes `s` ends with.
pub open spec fn trailing_spaces(s: Seq<u8>) -> int
    decreases s.len(),
{
    if s.len() == 0 || !is_space(s[s.len() - 1]) {
        0
    } else {
        1 + trailing_spaces(s.take(s.len() - 1))
    }
}

/// `s` with leading and trailing whitespace removed.
pub open spec fn trim_spec(s: Seq<u8>) -> Seq<u8> {
    let t = s.skip(leading_spaces(s));
    t.take(t.len() - trailing_spaces(t))
}

/// An ASCII upper-case letter mapped to lower case; any other byte unchanged.
pub open spec fn lower_byte(b: u8) -> u8 {
    if 65 <= b && b <= 90 {
        (b + 32) as u8
    } else {
        b
    }
}

/// `s` with every ASCII upper-case letter lowercased.
pub open spec fn lower_seq(s: Seq<u8>) -> Seq<u8> {
    s.map_values(|b: u8| lower_byte(b))
}

/// The normalization applied to the secret before decoding: trim surrounding
/// whitespace, then lowercase ASCII letters.
pub open spec fn normalize_spec(s: Seq<u8>) -> Seq<u8> {
    lower_seq(trim_spec(s))
}

/// Whether `b` is a byte of the lowercase base32 alphabet
/// `abcdefghijklmnopqrstuvwxyz234567`.
pub open spec fn is_base32_byte(b: u8) -> bool {
    (97 <= b && b <= 122) || (50 <= b && b <= 55)
}

/// Whether every byte of `s` is in the base32 alphabet.
pub open spec fn is_base32(s: Seq<u8>) -> bool {
    forall|i: int| 0 <= i < s.len() ==> is_base32_byte(#[trigger] s[i])
}

/// The bytes that the base32 text `s` stands for, for `s` made of alphabet
/// bytes only: each byte contributes five bits, and every full group of eight
/// bits yields one output byte.
pub uninterp spec fn base32_decode_of(s: Seq<u8>) -> Seq<u8>;

/// Relies on `koibumi_base32::decode`: RFC 4648 base32 with the lowercase
/// alphabet and no padding; it succeeds exactly when every character is in the
/// alphabet, and its result depends on the input text alone. Every admitted
/// input is alphabet bytes only, hence ASCII, so reading it as UTF-8 cannot
/// fail and the decode cannot report an invalid character.
#[verifier::external_body]
fn base32_decode_raw(b: &[u8]) -> (r: Vec<u8>)
    requires
        is_base32(b@),
    ensures
        r@ == base32_decode_of(b@),
{
    match koibumi_base32::decode(core::str::from_utf8(b).expect("alphabet bytes are ASCII")) {
        Ok(v) => v,
        Err(_) => Vec::new(),
    }
}

proof fn lemma_leading_spaces(s: Seq<u8>, a: int)
    requires
        0 <= a <= s.len(),
        forall|j: int| 0 <= j < a ==> is_space(#[trigger] s[j]),
        a < s.len() ==> !is_space(s[a]),
    ensures
        leading_spaces(s) == a,
    decreases a,
{
    if a == 0 {
    } else {
        assert(is_space(s[0]));
        lemma_leading_spaces(s.drop_first(), a - 1);
    }
}

proof fn lemma_trailing_spaces(s: Seq<u8>, b: int)
    requires
        0 <= b <= s.len(),
        forall|j: int| b <= j < s.len() ==> is_space(#[trigger] s[j]),
        b > 0 ==> !is_space(s[b - 1]),
    ensures
        trailing_spaces(s) == s.len() - b,
    decreases s.len() - b,
{
    if b == s.len() {
    } else {
        assert(is_space(s[s.len() - 1]));
        lemma_trailing_spaces(s.take(s.len() - 1), b);
    }
}

/// Normalize the secret text: remove surrounding whitespace and lowercase
/// ASCII letters.
pub fn normalize_secret(s: &[u8]) -> (r: Vec<u8>)
    ensures
        r@ == normalize_spec(s@),
{
    let n = s.len();
    let mut a: usize = 0;
    while a < n && (s[a] == 32 || (9 <= s[a] && s[a] <= 13))
        invariant
            n == s@.len(),
            0 <= a <= n,
            forall|j: int| 0 <= j < a ==> is_space(#[trigger] s@[j]),
        decreases n - a,
    {
        a = a + 1;
    }
    let mut b: usize = n;
    while b > a && (s[b - 1] == 32 || (9 <= s[b - 1] && s[b - 1] <= 13))
        invariant
            n == s@.len(),
            a <= b <= n,
            forall|j: int| b <= j < n ==> is_space(#[trigger] s@[j]),
        decreases b,
    {
        b = b - 1;
    }
    proof {
        lemma_leading_spaces(s@, a as int);
        let t = s@.skip(a as int);
        if b == a {
            lemma_trailing_spaces(t, 0);
        } else {
            assert(!is_space(t[b - a - 1]));
            lemma_trailing_spaces(t, b - a);
        }
        assert(trim_spec(s@) =~= s@.subrange(a as int, b as int));
    }
    let mut out: Vec<u8> = Vec::new();
    let mut i: usize = a;
    while i < b
        invariant
            a <= i <= b <= n,
            n == s@.len(),
            out@.len() == i - a,
            forall|j: int| 0 <= j < out@.len() ==> out@[j] == lower_byte(
                #[trigger] s@.subrange(a as int, b as int)[j],
            ),
        decreases b - i,
    {
        let c = s[i];
        if 65 <= c && c <= 90 {
            out.push(c + 32);
        } else {
            out.push(c);
        }
        i = i + 1;
    }
    proof {
        assert(out@ =~= lower_seq(s@.subrange(a as int, b as int)));
    }
    out
}

/// Whether every byte of `s` is in the lowercase base32 alphabet.
pub fn check_base32(s: &[u8]) -> (r: bool)
    ensures
        r <==> is_base32(s@),
{
    let n = s.len();
    let mut i: usize = 0;
    while i < n
        invariant
            n == s@.len(),
            0 <= i <= n,
            forall|j: int| 0 <= j < i ==> is_base32_byte(#[trigger] s@[j]),
        decreases n - i,
    {
        let c = s[i];
        if !((97 <= c && c <= 122) || (50 <= c && c <= 55)) {
            return false;
        }
        i = i + 1;
    }
    true
}

/// Decode the configured secret: normalize it, then decode it as base32.
/// Succeeds exactly when the normalized text is alphabet bytes only; any other
/// secret is a configuration error.
pub fn decode_secret(secret: &[u8]) -> (r: Result<Vec<u8>, ConfigError>)
    ensures
        is_base32(normalize_spec(secret@)) ==> r is Ok && r->Ok_0@ == base32_decode_of(
            normalize_spec(secret@),
        ),
        !is_base32(normalize_spec(secret@)) ==> r == Err::<Vec<u8>, ConfigError>(
            ConfigError::InvalidSecret,
        ),
{
    let n = normalize_secret(secret);
    if check_base32(n.as_slice()) {
        Ok(base32_decode_raw(n.as_slice()))
    } else {
        Err(ConfigError::InvalidSecret)
    }
}

} // verus!
