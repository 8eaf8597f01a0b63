//! Time-based one-time code generation: a 6-digit decimal code derived from a
//! shared secret key and the current Unix time, using 30-second windows, an
//! HMAC-SHA1 digest of the window counter, and dynamic truncation.

use vstd::prelude::*;

verus! {

/// Length of one time window in seconds.
pub const STEP_SECONDS: u64 = 30;

/// The HMAC-SHA1 digest of `msg` under `key`: 20 bytes that depend on the key
/// and message bytes alone.
pub uninterp spec fn hmac_sha1_of(key: Seq<u8>, msg: Seq<u8>) -> Seq<u8>;

/// Relies on `hmac::Hmac<sha1::Sha1>` (the `Mac` and `KeyInit` traits): the
/// result is the HMAC-SHA1 digest of the message under the key, a function of
/// the two byte strings alone, always 20 bytes. HMAC accepts keys of any
/// length, so the key-setup step cannot fail.
#[verifier::external_body]
fn hmac_sha1(key: &[u8], msg: &[u8]) -> (r: Vec<u8>)
    ensures
        r@ == hmac_sha1_of(key@, msg@),
        r@.len() == 20,
{
    let mut mac = <hmac::Hmac<sha1::Sha1> as hmac::KeyInit>::new_from_slice(key)
        .expect("HMAC accepts keys of any length");
    hmac::Mac::update(&mut mac, msg);
    hmac::Mac::finalize(mac).into_bytes().to_vec()
}

/// The 8-byte big-endian encoding of a 64-bit counter.
pub open spec fn be64_bytes(c: u64) -> Seq<u8> {
    seq![
        ((c as int / 0x100000000000000) % 256) as u8,
        ((c as int / 0x1000000000000) % 256) as u8,
        ((c as int / 0x10000000000) % 256) as u8,
        ((c as int / 0x100000000) % 256) as u8,
        ((c as int / 0x1000000) % 256) as u8,
        ((c as int / 0x10000) % 256) as u8,
        ((c as int / 0x100) % 256) as u8,
        ((c as int) % 256) as u8,
    ]
}

fn be64_encode(c: u64) -> (r: Vec<u8>)
    ensures
        r@ == be64_bytes(c),
{
    let mut v: Vec<u8> = Vec::new();
    v.push((c / 0x100000000000000 % 256) as u8);
    v.push((c / 0x1000000000000 % 256) as u8);
    v.push((c / 0x10000000000 % 256) as u8);
    v.push((c / 0x100000000 % 256) as u8);
    v.push((c / 0x1000000 % 256) as u8);
    v.push((c / 0x10000 % 256) as u8);
    v.push((c / 0x100 % 256) as u8);
    v.push((c % 256) as u8);
    proof {
        assert(v@ =~= be64_bytes(c));
    }
    v
}

/// RFC 4226 dynamic truncation followed by reduction modulo 10^6: the low four
/// bits of the digest's last byte pick an offset, four bytes there are read as
/// a big-endian 31-bit integer, and the result is its remainder modulo 10^6.
pub open spec fn code_of(digest: Seq<u8>) -> int
    recommends
        digest.len() == 20,
{
    let o = (digest[19] & 0x0f) as int;
    (((digest[o] & 0x7f) as int) * 0x1000000
        + (digest[o + 1] as int) * 0x10000
        + (digest[o + 2] as int) * 0x100
        + (digest[o + 3] as int)) % 1000000
}

fn dynamic_truncate(digest: &Vec<u8>) -> (r: u32)
    requires
        digest@.len() == 20,
    ensures
        r == code_of(digest@),
        r < 1000000,
{
    let last = digest[19];
    let o = (last & 0x0f) as usize;
    proof {
        assert((last & 0x0f) < 16) by (bit_vector);
    }
    let hi = digest[o];
    proof {
        assert((hi & 0x7f) < 128) by (bit_vector);
    }
    let v: u32 = ((hi & 0x7f) as u32) * 0x1000000 + (digest[o + 1] as u32) * 0x10000
        + (digest[o + 2] as u32) * 0x100 + (digest[o + 3] as u32);
    v % 1000000
}

/// The ASCII digit for a value in 0..10.
pub open spec fn ascii_digit(d: int) -> u8
    recommends
        0 <= d < 10,
{
    (48 + d) as u8
}

/// The 6 ASCII digits of a value below 10^6, zero-padded, most significant
/// digit first.
pub open spec fn code_digits(n: int) -> Seq<u8>
    recommends
        0 <= n < 1000000,
{
    seq![
        ascii_digit(n / 100000 % 10),
        ascii_digit(n / 10000 % 10),
        ascii_digit(n / 1000 % 10),
        ascii_digit(n / 100 % 10),
        ascii_digit(n / 10 % 10),
        ascii_digit(n % 10),
    ]
}

fn render_code(n: u32) -> (r: Vec<u8>)
    requires
        n < 1000000,
    ensures
        r@ == code_digits(n as int),
{
    let mut v: Vec<u8> = Vec::new();
    v.push(48 + (n / 100000 % 10) as u8);
    v.push(48 + (n / 10000 % 10) as u8);
    v.push(48 + (n / 1000 % 10) as u8);
    v.push(48 + (n / 100 % 10) as u8);
    v.push(48 + (n / 10 % 10) as u8);
    v.push(48 + (n % 10) as u8);
    proof {
        assert(v@ =~= code_digits(n as int));
    }
    v
}

/// The HMAC-SHA1 digest that the code for time `t` is truncated from: the
/// digest of the big-endian window counter `t / 30` under the key.
pub open spec fn totp_digest(key: Seq<u8>, t: u64) -> Seq<u8> {
    hmac_sha1_of(key, be64_bytes((t / STEP_SECONDS) as u64))
}

/// The 6-digit code for key `key` at Unix time `t`.
pub open spec fn totp_code(key: Seq<u8>, t: u64) -> Seq<u8> {
    code_digits(code_of(totp_digest(key, t)))
}

/// Whether `s` consists of ASCII decimal digits only.
pub open spec fn all_ascii_digits(s: Seq<u8>) -> bool {
    forall|i: int| 0 <= i < s.len() ==> 48 <= #[trigger] s[i] <= 57
}

/// Generate the 6-digit one-time code for `key` at Unix time `time`.
pub fn generate(key: &[u8], time: u64) -> (r: Vec<u8>)
    ensures
        r@ == totp_code(key@, time),
        r@.len() == 6,
        all_ascii_digits(r@),
{
    let counter_bytes = be64_encode(time / STEP_SECONDS);
    let digest = hmac_sha1(key, counter_bytes.as_slice());
    let code = dynamic_truncate(&digest);
    let r = render_code(code);
    proof {
        lemma_code_shape(key@, time);
    }
    r
}

/// The code for any key and time is exactly 6 bytes, each an ASCII decimal
/// digit.
pub proof fn lemma_code_shape(key: Seq<u8>, t: u64)
    ensures
        totp_code(key, t).len() == 6,
        all_ascii_digits(totp_code(key, t)),
{
    let n = code_of(totp_digest(key, t));
    assert(0 <= n < 1000000);
    let s = code_digits(n);
    assert(48 <= s[0] <= 57);
    assert(48 <= s[1] <= 57);
    assert(48 <= s[2] <= 57);
    assert(48 <= s[3] <= 57);
    assert(48 <= s[4] <= 57);
    assert(48 <= s[5] <= 57);
}

/// Two times in the same 30-second window yield the same code.
pub proof fn lemma_same_window(key: Seq<u8>, t1: u64, t2: u64)
    requires
        t1 / STEP_SECONDS == t2 / STEP_SECONDS,
    ensures
        totp_code(key, t1) == totp_code(key, t2),
{
}

} // verus!
