use sso_relay::cipher::encrypt_password;
use sso_relay::cipher::CipherError;

const MODULUS: &str = "d9f5c29a8e8a58f4b3f0e1c6a7d2b90134fcd8e7a6b5c4d3e2f1a0918273645586a7b8c9dacbecfd0e1f2a3b4c5d6e7f8091a2b3c4d5e6f708192a3b4c5d6e7f";
const EXPONENT: &str = "10001";

#[test]
fn cipher_reproduces_known_fixture() {
    let ct = encrypt_password("test123", MODULUS, EXPONENT).unwrap();
    assert_eq!(
        ct,
        "a44707335cabed9feca9f1063351370f15a2d5d6c1974ebb1782b712bf7eccf7ed9a1a44cdd32342145f383efacdd445382c8293ce152c7cf281658c59d5da62"
    );
}

#[test]
fn cipher_empty_password_is_valid() {
    let ct = encrypt_password("", MODULUS, EXPONENT).unwrap();
    assert_eq!(ct.len(), 128);
    assert!(ct.chars().all(|c| c == '0'));
}

#[test]
fn cipher_output_is_fixed_width() {
    for pwd in ["", "a", "hunter2", "a-much-longer-password-with-symbols-!@#$%", "测试密码"] {
        let ct = encrypt_password(pwd, MODULUS, EXPONENT).unwrap();
        assert_eq!(ct.len(), 128);
        assert!(ct.chars().all(|c| c.is_ascii_hexdigit()));
    }
}

#[test]
fn cipher_is_deterministic() {
    let first = encrypt_password("same-password", MODULUS, EXPONENT).unwrap();
    let second = encrypt_password("same-password", MODULUS, EXPONENT).unwrap();
    assert_eq!(first, second);
}

#[test]
fn cipher_small_fixture() {
    // 'A' is byte 65; 65^3 mod 17 = 7.
    let ct = encrypt_password("A", "11", "3").unwrap();
    assert_eq!(ct.len(), 128);
    assert_eq!(&ct[..127], "0".repeat(127).as_str());
    assert_eq!(&ct[127..], "7");
}

#[test]
fn cipher_rejects_malformed_hex() {
    assert_eq!(encrypt_password("pw", "xyz", EXPONENT), Err(CipherError::Parse));
    assert_eq!(encrypt_password("pw", MODULUS, "12g4"), Err(CipherError::Parse));
    assert_eq!(encrypt_password("pw", "", EXPONENT), Err(CipherError::Parse));
    assert_eq!(encrypt_password("pw", MODULUS, ""), Err(CipherError::Parse));
}

#[test]
fn cipher_rejects_zero_modulus() {
    assert_eq!(encrypt_password("pw", "000", EXPONENT), Err(CipherError::Parse));
}

#[test]
fn cipher_accepts_uppercase_hex() {
    let lower = encrypt_password("pw", "ab12cd", "11");
    let upper = encrypt_password("pw", "AB12CD", "11");
    assert!(lower.is_ok());
    assert_eq!(lower, upper);
}
