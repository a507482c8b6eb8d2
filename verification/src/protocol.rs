use vstd::prelude::*;
use crate::text::{digit_value, digits_value, is_digit, padded_decimal, push_padded_decimal};

verus! {

/// Largest payload a single frame may carry (64 MiB).
pub const MAX_FRAME_SIZE: usize = 67108864;

/// Size of the data chunks the sender encrypts one by one (60 KiB).
pub const CHUNK_SIZE: usize = 61440;

/// Control messages exchanged inside the encrypted session.
#[derive(Clone, Copy, Debug, PartialEq, Eq, Structural)]
pub enum Control {
    Accept,
    Reject,
    Meta { file_count: u64, bytes: u64 },
    Done,
    Ack,
}

/// Name of the Noise handshake both ends run.
pub const NOISE_PATTERN: &'static str = "Noise_NNpsk2_25519_ChaChaPoly_BLAKE2s";

/// HKDF `info` string that binds a pairing code to this protocol version
/// (`ssh-migrator-psk/v1`).
pub const PSK_INFO: [u8; 19] = [
    115, 115, 104, 45, 109, 105, 103, 114, 97, 116, 111, 114, 45, 112, 115, 107, 47, 118, 49,
];

/// Number of distinct pairing codes: six decimal digits.
pub const CODE_SPACE: u32 = 1000000;

/// Number of digits in a pairing code.
pub const CODE_DIGITS: usize = 6;

/// The pairing code that the number `n` (below `CODE_SPACE`) stands for.
pub open spec fn code_of(n: nat) -> Seq<char> {
    padded_decimal(n, 6)
}

/// A well-formed pairing code: exactly six decimal digits.
pub open spec fn is_pairing_code(s: Seq<char>) -> bool {
    &&& s.len() == 6
    &&& forall|i: int| 0 <= i < s.len() ==> is_digit(#[trigger] s[i])
}

/// What HKDF-SHA256 (no salt) expands `ikm` and `info` into, 32 bytes long.
pub uninterp spec fn hkdf_sha256_okm32(ikm: Seq<u8>, info: Seq<u8>) -> Seq<u8>;

/// The pre-shared key that a pairing code stands for.
pub open spec fn psk_of(code: Seq<char>) -> Seq<u8> {
    hkdf_sha256_okm32(vstd::utf8::encode_utf8(code), PSK_INFO@)
}

/// A number drawn uniformly from `0..bound` by `rand::thread_rng().gen_range`.
#[verifier::external_body]
pub(crate) fn random_below(bound: u32) -> (n: u32)
    requires
        bound > 0,
    ensures
        n < bound,
{
    rand::Rng::gen_range(&mut rand::thread_rng(), 0..bound)
}

/// HKDF-SHA256 with no salt (`hkdf::Hkdf::<Sha256>::new(None, ikm)`), expanded
/// into 32 bytes with `expand(info, ..)`. The crate fails `expand` only for
/// outputs longer than 255 hash lengths, so 32 bytes always succeed; the bytes
/// themselves are named, not stated.
#[verifier::external_body]
fn hkdf_sha256_expand32(ikm: &[u8], info: &[u8]) -> (okm: Option<[u8; 32]>)
    ensures
        okm is Some,
        okm matches Some(k) ==> k@ == hkdf_sha256_okm32(ikm@, info@),
{
    let hk = hkdf::Hkdf::<sha2::Sha256>::new(None, ikm);
    let mut okm = [0u8; 32];
    match hk.expand(info, &mut okm) {
        Ok(()) => Some(okm),
        Err(_) => None,
    }
}

/// The pairing code for the number `n`: `n` in decimal, zero-padded to six digits.
pub fn pairing_code(n: u32) -> (code: String)
    requires
        n < CODE_SPACE,
    ensures
        code@ == code_of(n as nat),
        is_pairing_code(code@),
        digits_value(code@) == n,
{
    let mut code = String::new();
    push_padded_decimal(&mut code, n as u64, CODE_DIGITS);
    proof {
        assert(code@ =~= padded_decimal(n as nat, 6));
        lemma_code_digits(n as nat);
    }
    code
}

/// Generates a random six-digit pairing code.
pub fn random_code() -> (code: String)
    ensures
        is_pairing_code(code@),
        exists|n: nat| n < CODE_SPACE && code@ == #[trigger] code_of(n),
{
    let n = random_below(CODE_SPACE);
    pairing_code(n)
}

/// Derives the 32-byte pre-shared key from a pairing code with HKDF-SHA256.
pub fn code_to_psk(code: &str) -> (psk: [u8; 32])
    ensures
        psk@ == psk_of(code@),
        psk@ == hkdf_sha256_okm32(vstd::utf8::encode_utf8(code@), PSK_INFO@),
{
    let info: &[u8] = PSK_INFO.as_slice();
    let okm = hkdf_sha256_expand32(code.as_bytes(), info);
    match okm {
        Some(k) => k,
        None => {
            proof {
                assert(false);
            }
            [0u8; 32]
        },
    }
}

/// Powers of ten.
pub open spec fn pow10(w: nat) -> nat
    decreases w,
{
    if w == 0 {
        1
    } else {
        10 * pow10((w - 1) as nat)
    }
}

proof fn lemma_pow10_positive(w: nat)
    ensures
        pow10(w) >= 1,
    decreases w,
{
    if w > 0 {
        lemma_pow10_positive((w - 1) as nat);
    }
}

proof fn lemma_mod_step(n: nat, p: nat)
    requires
        p >= 1,
    ensures
        ((n / 10) % p) * 10 + n % 10 == n % (10 * p),
{
    let q = n / 10;
    let r = n % 10;
    let a = q / p;
    let b = q % p;
    vstd::arithmetic::div_mod::lemma_fundamental_div_mod(q as int, p as int);
    assert(n == 10 * q + r);
    assert(q == p * a + b);
    assert(0 <= b < p);
    assert(n == a * (10 * p) + (10 * b + r)) by (nonlinear_arith)
        requires
            n == 10 * q + r,
            q == p * a + b,
    ;
    assert(0 <= 10 * b + r < 10 * p);
    vstd::arithmetic::div_mod::lemma_fundamental_div_mod_converse(
        n as int,
        (10 * p) as int,
        a as int,
        (10 * b + r) as int,
    );
}

/// The zero-padded notation has `width` digits and spells `n` modulo `10^width`.
pub proof fn lemma_padded_decimal(n: nat, width: nat)
    ensures
        padded_decimal(n, width).len() == width,
        forall|i: int| 0 <= i < width ==> is_digit(#[trigger] padded_decimal(n, width)[i]),
        digits_value(padded_decimal(n, width)) == n % pow10(width),
    decreases width,
{
    if width > 0 {
        let w1 = (width - 1) as nat;
        lemma_padded_decimal(n / 10, w1);
        lemma_pow10_positive(w1);
        lemma_mod_step(n, pow10(w1));
        let s = padded_decimal(n, width);
        assert(s.drop_last() =~= padded_decimal(n / 10, w1));
        assert forall|i: int| 0 <= i < width implies is_digit(#[trigger] s[i]) by {
            if i < w1 {
                assert(s[i] == padded_decimal(n / 10, w1)[i]);
            }
        }
    }
}

/// A code drawn from `n < 10^6` is six digits that spell `n` back.
pub proof fn lemma_code_digits(n: nat)
    requires
        n < CODE_SPACE,
    ensures
        is_pairing_code(code_of(n)),
        digits_value(code_of(n)) == n,
{
    lemma_padded_decimal(n, 6);
    assert(pow10(6) == 1000000) by {
        reveal_with_fuel(pow10, 7);
    }
}

pub open spec fn zero_key() -> Seq<u8> {
    Seq::new(32, |i: int| 0u8)
}

/// Overwrites `key` with zeros through the `zeroize` crate.
#[verifier::external_body]
fn zeroize_key(key: &mut [u8; 32])
    ensures
        final(key)@ == zero_key(),
{
    zeroize::Zeroize::zeroize(key);
}

/// Wipes a pre-shared key from memory.
pub fn zeroize_psk(psk: &mut [u8; 32])
    ensures
        final(psk)@ == zero_key(),
{
    zeroize_key(psk);
}

/// The bytes of an ASCII text: each character's code, one byte per character.
pub open spec fn ascii_bytes(s: Seq<char>) -> Seq<u8> {
    Seq::new(s.len(), |i: int| (s[i] as u32) as u8)
}

/// UTF-8 encodes a text of ASCII characters as their codes, byte for byte.
pub proof fn lemma_utf8_of_ascii(s: Seq<char>)
    requires
        forall|i: int| 0 <= i < s.len() ==> (#[trigger] s[i] as u32) < 128,
    ensures
        vstd::utf8::encode_utf8(s) == ascii_bytes(s),
    decreases s.len(),
{
    if s.len() > 0 {
        let rest = s.drop_first();
        assert forall|i: int| 0 <= i < rest.len() implies (#[trigger] rest[i] as u32) < 128 by {
            assert(rest[i] == s[i + 1]);
        }
        lemma_utf8_of_ascii(rest);
        let v: u32 = s[0] as u32;
        assert(v < 128);
        assert((v & 0x7F) as u8 == v as u8) by (bit_vector)
            requires
                v < 128,
        ;
        assert(vstd::utf8::encode_scalar(v) =~= seq![v as u8]);
        assert(vstd::utf8::encode_utf8(s) =~= ascii_bytes(s)) by {
            assert(vstd::utf8::encode_utf8(s) == vstd::utf8::encode_scalar(v)
                + vstd::utf8::encode_utf8(rest));
            assert forall|i: int| 0 <= i < s.len() implies vstd::utf8::encode_utf8(s)[i]
                == ascii_bytes(s)[i] by {
                if i > 0 {
                    assert(ascii_bytes(rest)[i - 1] == (rest[i - 1] as u32) as u8);
                }
            }
        }
    }
}

/// The key of a pairing code is HKDF-SHA256 (no salt, `info` the protocol's
/// `ssh-migrator-psk/v1`) of the code's own characters, one byte each, as
/// typed: two codes differing in any digit feed HKDF different input.
pub proof fn lemma_psk_of_pairing_code(c: Seq<char>)
    requires
        is_pairing_code(c),
    ensures
        psk_of(c) == hkdf_sha256_okm32(
            Seq::new(6, |i: int| (48 + digit_value(c[i])) as u8),
            PSK_INFO@,
        ),
        forall|d: Seq<char>|
            is_pairing_code(d) && d != c ==> #[trigger] ascii_bytes(d) != ascii_bytes(c),
{
    assert forall|i: int| 0 <= i < c.len() implies (#[trigger] c[i] as u32) < 128 by {
        assert(is_digit(c[i]));
    }
    lemma_utf8_of_ascii(c);
    assert(ascii_bytes(c) =~= Seq::new(6, |i: int| (48 + digit_value(c[i])) as u8));
    assert forall|d: Seq<char>| is_pairing_code(d) && d != c implies #[trigger] ascii_bytes(d)
        != ascii_bytes(c) by {
        if ascii_bytes(d) == ascii_bytes(c) {
            assert forall|i: int| 0 <= i < 6 implies d[i] == c[i] by {
                assert(is_digit(d[i]) && is_digit(c[i]));
                assert(ascii_bytes(d)[i] == ascii_bytes(c)[i]);
                assert((d[i] as u32) as u8 == (c[i] as u32) as u8);
            }
            assert(d =~= c);
        }
    }
}

/// Distinct draws give distinct pairing codes, and a code reads back as the
/// number drawn.
pub proof fn lemma_code_of_injective(n: nat, m: nat)
    requires
        n < CODE_SPACE,
        m < CODE_SPACE,
    ensures
        digits_value(code_of(n)) == n,
        n != m ==> code_of(n) != code_of(m),
{
    lemma_code_digits(n);
    lemma_code_digits(m);
}

} // verus!
