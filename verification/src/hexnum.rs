//! Hexadecimal strings as arbitrary-precision numbers: validity, the value a
//! hex string denotes, the value a byte string denotes read big-endian, and
//! uniqueness of the canonical (lowercase, no leading zero) representation.
use vstd::prelude::*;
use vstd::arithmetic::power::pow;
use vstd::arithmetic::power::lemma_pow_increases;

verus! {

/// `c` is a hexadecimal digit, either case.
pub open spec fn is_hex_digit(c: char) -> bool {
    ||| '0' as u32 <= c as u32 && c as u32 <= '9' as u32
    ||| 'a' as u32 <= c as u32 && c as u32 <= 'f' as u32
    ||| 'A' as u32 <= c as u32 && c as u32 <= 'F' as u32
}

/// `c` is a lowercase hexadecimal digit.
pub open spec fn is_lower_hex_digit(c: char) -> bool {
    ||| '0' as u32 <= c as u32 && c as u32 <= '9' as u32
    ||| 'a' as u32 <= c as u32 && c as u32 <= 'f' as u32
}

/// The numeric value of a hexadecimal digit (0 for other characters).
pub open spec fn hex_digit_val(c: char) -> nat {
    if '0' as u32 <= c as u32 && c as u32 <= '9' as u32 {
        (c as u32 - '0' as u32) as nat
    } else if 'a' as u32 <= c as u32 && c as u32 <= 'f' as u32 {
        (c as u32 - 'a' as u32 + 10) as nat
    } else if 'A' as u32 <= c as u32 && c as u32 <= 'F' as u32 {
        (c as u32 - 'A' as u32 + 10) as nat
    } else {
        0
    }
}

/// A non-empty string of hexadecimal digits.
pub open spec fn is_hex_str(s: Seq<char>) -> bool {
    s.len() > 0 && forall|i: int| 0 <= i < s.len() ==> is_hex_digit(#[trigger] s[i])
}

/// The canonical rendering of a number: non-empty, lowercase digits, and no
/// leading zero unless the string is exactly "0".
pub open spec fn is_canonical_hex(s: Seq<char>) -> bool {
    &&& s.len() > 0
    &&& forall|i: int| 0 <= i < s.len() ==> is_lower_hex_digit(#[trigger] s[i])
    &&& s.len() > 1 ==> s[0] != '0'
}

/// The number a hexadecimal string denotes, read big-endian.
pub open spec fn hex_to_nat(s: Seq<char>) -> nat
    decreases s.len(),
{
    if s.len() == 0 {
        0
    } else {
        hex_to_nat(s.drop_last()) * 16 + hex_digit_val(s.last())
    }
}

/// The number a byte string denotes, read big-endian base 256.
pub open spec fn bytes_to_nat(b: Seq<u8>) -> nat
    decreases b.len(),
{
    if b.len() == 0 {
        0
    } else {
        bytes_to_nat(b.drop_last()) * 256 + (b.last() as nat)
    }
}

pub proof fn lemma_hex_upper_bound(s: Seq<char>)
    ensures
        hex_to_nat(s) < pow(16, s.len()),
    decreases s.len(),
{
    reveal(pow);
    if s.len() == 0 {
        assert(pow(16, 0) == 1);
    } else {
        lemma_hex_upper_bound(s.drop_last());
        assert(hex_digit_val(s.last()) <= 15);
        let e = s.len();
        assert(pow(16, e) == 16 * pow(16, (e - 1) as nat));
        assert(s.drop_last().len() == (e - 1) as nat);
    }
}

pub proof fn lemma_hex_lower_bound(s: Seq<char>)
    requires
        s.len() > 0,
        hex_digit_val(s[0]) >= 1,
    ensures
        hex_to_nat(s) >= pow(16, (s.len() - 1) as nat),
    decreases s.len(),
{
    reveal(pow);
    if s.len() == 1 {
        assert(hex_to_nat(s.drop_last()) == 0) by {
            assert(s.drop_last().len() == 0);
        }
        assert(pow(16, 0) == 1);
    } else {
        let s1 = s.drop_last();
        assert(s1[0] == s[0]);
        lemma_hex_lower_bound(s1);
        let e = (s.len() - 1) as nat;
        assert(pow(16, e) == 16 * pow(16, (e - 1) as nat));
        assert(s1.len() == e);
        assert(hex_to_nat(s1) >= pow(16, (e - 1) as nat));
        assert(hex_to_nat(s) >= hex_to_nat(s1) * 16);
    }
}

/// Among hexadecimal digits only '0' itself has value zero.
pub proof fn lemma_hex_digit_zero(c: char)
    requires
        is_hex_digit(c),
    ensures
        (hex_digit_val(c) == 0) <==> (c == '0'),
{
}

/// A hex string denotes zero exactly when every digit is '0'.
pub proof fn lemma_hex_zero(s: Seq<char>)
    requires
        is_hex_str(s),
    ensures
        (hex_to_nat(s) == 0) <==> (forall|i: int| 0 <= i < s.len() ==> s[i] == '0'),
    decreases s.len(),
{
    let s1 = s.drop_last();
    if s.len() == 1 {
        lemma_hex_digit_zero(s[0]);
        lemma_hex_single(s);
    } else {
        assert(is_hex_str(s1)) by {
            assert(forall|i: int| 0 <= i < s1.len() ==> s1[i] == s[i]);
        }
        lemma_hex_zero(s1);
        lemma_hex_digit_zero(s.last());
        if hex_to_nat(s) == 0 {
            assert(hex_to_nat(s1) == 0);
            assert forall|i: int| 0 <= i < s.len() implies s[i] == '0' by {
                if i < s.len() - 1 {
                    assert(s1[i] == s[i]);
                } else {
                    assert(s[i] == s.last());
                }
            }
        } else {
            if forall|i: int| 0 <= i < s.len() ==> s[i] == '0' {
                assert(forall|i: int| 0 <= i < s1.len() ==> s1[i] == '0');
                assert(hex_to_nat(s1) == 0);
                assert(s.last() == s[s.len() - 1]);
                assert(hex_to_nat(s) == 0);
            }
        }
    }
}

/// Distinct lowercase hex digits have distinct values.
pub proof fn lemma_lower_hex_injective(c1: char, c2: char)
    requires
        is_lower_hex_digit(c1),
        is_lower_hex_digit(c2),
        hex_digit_val(c1) == hex_digit_val(c2),
    ensures
        c1 == c2,
{
    assert(c1 as u32 == c2 as u32);
    assert(c1 == c2) by {
        vstd::utf8::char_u32_cast(c1, c1 as u32);
        vstd::utf8::char_u32_cast(c2, c2 as u32);
    }
}

pub proof fn lemma_hex_single(s: Seq<char>)
    requires
        s.len() == 1,
    ensures
        hex_to_nat(s) == hex_digit_val(s[0]),
{
    let s1 = s.drop_last();
    assert(s1.len() == 0);
    assert(hex_to_nat(s1) == 0);
    assert(s.last() == s[0]);
}

/// Two canonical hex strings that denote the same number are equal.
pub proof fn lemma_canonical_hex_unique(a: Seq<char>, b: Seq<char>)
    requires
        is_canonical_hex(a),
        is_canonical_hex(b),
        hex_to_nat(a) == hex_to_nat(b),
    ensures
        a == b,
    decreases a.len() + b.len(),
{
    if a.len() < b.len() {
        lemma_hex_upper_bound(a);
        lemma_hex_digit_zero(b[0]);
        lemma_hex_lower_bound(b);
        lemma_pow_increases(16, a.len(), (b.len() - 1) as nat);
        assert(false);
    } else if b.len() < a.len() {
        lemma_hex_upper_bound(b);
        lemma_hex_digit_zero(a[0]);
        lemma_hex_lower_bound(a);
        lemma_pow_increases(16, b.len(), (a.len() - 1) as nat);
        assert(false);
    } else if a.len() == 1 {
        lemma_hex_single(a);
        lemma_hex_single(b);
        lemma_lower_hex_injective(a[0], b[0]);
        assert(a =~= b);
    } else {
        let a1 = a.drop_last();
        let b1 = b.drop_last();
        let va = hex_digit_val(a.last());
        let vb = hex_digit_val(b.last());
        assert(va <= 15 && vb <= 15);
        assert(hex_to_nat(a1) * 16 + va == hex_to_nat(b1) * 16 + vb);
        assert(hex_to_nat(a1) == hex_to_nat(b1) && va == vb) by {
            let x = hex_to_nat(a1) as int;
            let y = hex_to_nat(b1) as int;
            assert(x * 16 + va == y * 16 + vb);
            assert((x - y) * 16 == vb - va) by {
                assert(x * 16 - y * 16 == (x - y) * 16) by (nonlinear_arith);
            }
            if x > y {
                assert((x - y) * 16 >= 16) by (nonlinear_arith)
                    requires x - y >= 1;
            }
            if x < y {
                assert((x - y) * 16 <= -16) by (nonlinear_arith)
                    requires x - y <= -1;
            }
        }
        assert(is_canonical_hex(a1) && is_canonical_hex(b1)) by {
            assert(forall|i: int| 0 <= i < a1.len() ==> a1[i] == a[i]);
            assert(forall|i: int| 0 <= i < b1.len() ==> b1[i] == b[i]);
        }
        lemma_canonical_hex_unique(a1, b1);
        lemma_lower_hex_injective(a.last(), b.last());
        assert(a =~= b) by {
            assert(forall|i: int| 0 <= i < a.len() - 1 ==> a[i] == a1[i] && b[i] == b1[i]);
            assert(a[a.len() - 1] == a.last() && b[b.len() - 1] == b.last());
        }
    }
}

/// Whether `s` is a non-empty string of hexadecimal digits.
pub fn check_hex(s: &str) -> (r: bool)
    ensures
        r == is_hex_str(s@),
{
    let n = s.unicode_len();
    if n == 0 {
        return false;
    }
    let mut i: usize = 0;
    while i < n
        invariant
            n == s@.len(),
            i <= n,
            forall|j: int| 0 <= j < i ==> is_hex_digit(#[trigger] s@[j]),
        decreases n - i,
    {
        let u = s.get_char(i) as u32;
        if !((48 <= u && u <= 57) || (97 <= u && u <= 102) || (65 <= u && u <= 70)) {
            assert(!is_hex_digit(s@[i as int]));
            return false;
        }
        i = i + 1;
    }
    true
}

/// Whether a valid hex string denotes a non-zero number.
pub fn hex_nonzero(s: &str) -> (r: bool)
    requires
        is_hex_str(s@),
    ensures
        r == (hex_to_nat(s@) > 0),
{
    let n = s.unicode_len();
    let mut i: usize = 0;
    while i < n
        invariant
            n == s@.len(),
            i <= n,
            is_hex_str(s@),
            forall|j: int| 0 <= j < i ==> s@[j] == '0',
        decreases n - i,
    {
        if s.get_char(i) != '0' {
            proof {
                lemma_hex_zero(s@);
            }
            return true;
        }
        i = i + 1;
    }
    proof {
        lemma_hex_zero(s@);
    }
    false
}

} // verus!
