//! Credential cipher: textbook RSA without padding, as the legacy SSO client
//! performs it. The password's raw bytes, read as one big-endian integer, are
//! raised to the server-supplied exponent modulo the server-supplied modulus,
//! and the result is rendered as hexadecimal, left-padded with zeros to at
//! least 128 characters.
use vstd::prelude::*;
use vstd::arithmetic::power::pow;
use vstd::arithmetic::power::lemma_pow_increases;
use vstd::arithmetic::div_mod::lemma_mod_bound;
use crate::hexnum::bytes_to_nat;
use crate::hexnum::hex_to_nat;
use crate::hexnum::is_hex_str;
use crate::hexnum::is_hex_digit;
use crate::hexnum::is_lower_hex_digit;
use crate::hexnum::is_canonical_hex;
use crate::hexnum::check_hex;
use crate::hexnum::hex_nonzero;
use crate::hexnum::lemma_hex_digit_zero;
use crate::hexnum::lemma_hex_lower_bound;
use crate::hexnum::lemma_canonical_hex_unique;
use vstd::string::StringExecFns;
use vstd::string::StrSliceExecFns;
use vstd::string::StringSliceAdditionalSpecFns;

verus! {

/// Why an encryption attempt was rejected.
#[derive(Clone, Copy, Debug, PartialEq, Eq, Structural)]
pub enum CipherError {
    /// The modulus or exponent hex string is malformed (or the modulus is zero).
    Parse,
    /// The password bytes could not be represented; cannot arise from string
    /// input and is never returned here.
    Encoding,
}

/// The ciphertext integer: the password bytes as a big-endian number, raised
/// to the exponent modulo the modulus.
pub open spec fn cipher_value(pwd: Seq<u8>, exp: Seq<char>, md: Seq<char>) -> nat {
    (pow(bytes_to_nat(pwd) as int, hex_to_nat(exp)) % (hex_to_nat(md) as int)) as nat
}

/// `s` left-padded with '0' up to `width` characters (unchanged if longer).
pub open spec fn zero_pad(s: Seq<char>, width: nat) -> Seq<char> {
    if s.len() >= width {
        s
    } else {
        Seq::new((width - s.len()) as nat, |i: int| '0') + s
    }
}

/// The ciphertext width the SSO form expects.
pub const CIPHER_WIDTH: usize = 128;

/// `out` is the rendered ciphertext for the given password and key: the
/// canonical hex of the ciphertext integer, zero-padded to the form's width.
pub open spec fn cipher_output(pwd: Seq<u8>, exp: Seq<char>, md: Seq<char>, out: Seq<char>) -> bool {
    exists|core: Seq<char>|
        is_canonical_hex(core) && hex_to_nat(core) == cipher_value(pwd, exp, md) && out == zero_pad(
            core,
            CIPHER_WIDTH as nat,
        )
}

/// Relies on num_bigint::BigUint — from_bytes_be, parse_bytes with radix 16,
/// modpow, and the `{:x}` formatting: modpow returns (self ^ exponent) %
/// modulus and panics only on a zero modulus; `{:x}` renders lowercase hex
/// with no leading zeros.
#[verifier::external_body]
fn modpow_hex(password: &[u8], exponent_hex: &str, modulus_hex: &str) -> (r: String)
    requires
        is_hex_str(exponent_hex@),
        is_hex_str(modulus_hex@),
        hex_to_nat(modulus_hex@) > 0,
    ensures
        is_canonical_hex(r@),
        hex_to_nat(r@) == cipher_value(password@, exponent_hex@, modulus_hex@),
{
    let p = num_bigint::BigUint::from_bytes_be(password);
    let e = num_bigint::BigUint::parse_bytes(exponent_hex.as_bytes(), 16).unwrap();
    let m = num_bigint::BigUint::parse_bytes(modulus_hex.as_bytes(), 16).unwrap();
    format!("{:x}", p.modpow(&e, &m))
}

/// `s` left-padded with '0' characters up to `width`.
fn pad_left_zeros(s: &str, width: usize) -> (r: String)
    ensures
        r@ == zero_pad(s@, width as nat),
{
    let n = s.unicode_len();
    if n >= width {
        proof {
            assert(zero_pad(s@, width as nat) == s@);
        }
        return String::from_str(s);
    }
    let mut out = String::new();
    let mut k: usize = 0;
    let need = width - n;
    proof {
        reveal_strlit("0");
    }
    while k < need
        invariant
            k <= need,
            out@ =~= Seq::new(k as nat, |i: int| '0'),
            "0"@ =~= seq!['0'],
        decreases need - k,
    {
        out.append("0");
        proof {
            assert(out@ =~= Seq::new(k as nat, |i: int| '0') + seq!['0']);
            assert(out@ =~= Seq::new((k + 1) as nat, |i: int| '0'));
        }
        k = k + 1;
    }
    out.append(s);
    proof {
        assert(out@ =~= Seq::new((width - n) as nat, |i: int| '0') + s@);
    }
    out
}

/// Encrypts `password` for the SSO form, given the server-supplied public-key
/// modulus and exponent as hexadecimal strings. Succeeds exactly when both
/// hex strings are well-formed and the modulus is non-zero; the result is the
/// ciphertext integer in hexadecimal, zero-padded to the form's fixed width
/// (exactly that width whenever the modulus is no wider).
pub fn encrypt_password(password: &str, modulus_hex: &str, exponent_hex: &str) -> (r: Result<
    String,
    CipherError,
>)
    ensures
        r is Ok <==> is_hex_str(modulus_hex@) && is_hex_str(exponent_hex@) && hex_to_nat(
            modulus_hex@,
        ) > 0,
        r is Err ==> r == Err::<String, CipherError>(CipherError::Parse),
        r is Ok ==> cipher_output(password.spec_bytes(), exponent_hex@, modulus_hex@, r->Ok_0@),
        r is Ok ==> r->Ok_0@.len() >= CIPHER_WIDTH,
        r is Ok && hex_to_nat(modulus_hex@) <= pow(16, CIPHER_WIDTH as nat) ==> r->Ok_0@.len()
            == CIPHER_WIDTH,
{
    if !check_hex(modulus_hex) || !check_hex(exponent_hex) {
        return Err(CipherError::Parse);
    }
    if !hex_nonzero(modulus_hex) {
        return Err(CipherError::Parse);
    }
    let core = modpow_hex(password.as_bytes(), exponent_hex, modulus_hex);
    proof {
        lemma_core_width(password.spec_bytes(), exponent_hex@, modulus_hex@, core@);
    }
    let out = pad_left_zeros(core.as_str(), CIPHER_WIDTH);
    proof {
        assert(cipher_output(password.spec_bytes(), exponent_hex@, modulus_hex@, out@));
    }
    Ok(out)
}

/// The canonical hex of the ciphertext integer is never wider than the
/// modulus allows: with a modulus of at most the form's width, the padded
/// ciphertext is exactly that width.
proof fn lemma_core_width(pwd: Seq<u8>, exp: Seq<char>, md: Seq<char>, core: Seq<char>)
    requires
        is_canonical_hex(core),
        hex_to_nat(md) > 0,
        hex_to_nat(core) == cipher_value(pwd, exp, md),
    ensures
        hex_to_nat(md) <= pow(16, CIPHER_WIDTH as nat) ==> core.len() <= CIPHER_WIDTH,
{
    lemma_mod_bound(pow(bytes_to_nat(pwd) as int, hex_to_nat(exp)), hex_to_nat(md) as int);
    assert(hex_to_nat(core) < hex_to_nat(md));
    if hex_to_nat(md) <= pow(16, CIPHER_WIDTH as nat) && core.len() > CIPHER_WIDTH {
        assert(is_lower_hex_digit(core[0]));
        assert(is_hex_digit(core[0]));
        lemma_hex_digit_zero(core[0]);
        lemma_hex_lower_bound(core);
        lemma_pow_increases(16, CIPHER_WIDTH as nat, (core.len() - 1) as nat);
        assert(false);
    }
}

/// Encrypting the same password with the same key twice yields the same
/// ciphertext: the scheme is deterministic, with no random padding.
pub proof fn lemma_cipher_deterministic(
    pwd: Seq<u8>,
    exp: Seq<char>,
    md: Seq<char>,
    out1: Seq<char>,
    out2: Seq<char>,
)
    requires
        cipher_output(pwd, exp, md, out1),
        cipher_output(pwd, exp, md, out2),
    ensures
        out1 == out2,
{
    let c1 = choose|c: Seq<char>|
        is_canonical_hex(c) && hex_to_nat(c) == cipher_value(pwd, exp, md) && out1 == zero_pad(
            c,
            CIPHER_WIDTH as nat,
        );
    let c2 = choose|c: Seq<char>|
        is_canonical_hex(c) && hex_to_nat(c) == cipher_value(pwd, exp, md) && out2 == zero_pad(
            c,
            CIPHER_WIDTH as nat,
        );
    lemma_canonical_hex_unique(c1, c2);
}

} // verus!
