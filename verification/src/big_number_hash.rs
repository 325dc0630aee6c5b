//! Identity hashing of big integers and big decimals: equal numbers write
//! equal bytes, whatever their representation (`1.0` and `1.00` alike).

use std::collections::hash_map::DefaultHasher;
use std::hash::Hash;

use vstd::prelude::*;
use vstd::string::StrSliceExecFns;
use vstd::string::StringSliceAdditionalSpecFns;

use crate::identity::{text_writes, u64_bytes, write_tag, write_text, write_u64};
use crate::payload::{
    decimal_of,
    decimal_values_equal,
    limbs_value,
    signed_value,
    BigDecimalModel,
    BigDecimalValue,
    BigIntegerValue,
};
use vstd::arithmetic::power::pow;

verus! {

/// Bytes that `num_bigint::BigInt`'s `Hash` writes for an integer; they
/// depend on its value alone.
pub uninterp spec fn big_integer_hash_writes(value: int) -> Seq<Seq<u8>>;

/// Hashes a big integer with `num_bigint::BigInt`'s `Hash`, on the integer
/// built by `BigInt::from_slice` from the sign flag and limbs.
///
/// Trusted claim: `from_slice` normalizes (no high zero limbs, zero has no
/// sign), and `Hash` writes the sign and the normalized limbs, so the bytes
/// written depend on the numeric value alone.
#[verifier::external_body]
pub(crate) fn hash_big_integer(x: &BigIntegerValue, state: &mut DefaultHasher)
    ensures
        final(state)@ == old(state)@ + big_integer_hash_writes(signed_value(x@)),
{
    let sign = if x.negative { num_bigint::Sign::Minus } else { num_bigint::Sign::Plus };
    num_bigint::BigInt::from_slice(sign, &x.magnitude).hash(state);
}

/// The character of a decimal digit.
pub open spec fn digit_char(d: int) -> char {
    if d == 0 {
        '0'
    } else if d == 1 {
        '1'
    } else if d == 2 {
        '2'
    } else if d == 3 {
        '3'
    } else if d == 4 {
        '4'
    } else if d == 5 {
        '5'
    } else if d == 6 {
        '6'
    } else if d == 7 {
        '7'
    } else if d == 8 {
        '8'
    } else {
        '9'
    }
}

/// Decimal digits of a natural number, most significant first; zero is
/// `"0"`.
pub open spec fn decimal_digits(n: nat) -> Seq<char>
    decreases n,
{
    if n < 10 {
        seq![digit_char(n as int)]
    } else {
        decimal_digits(n / 10).push(digit_char((n % 10) as int))
    }
}

/// Decimal text of an integer, with a minus sign before the digits of a
/// negative one.
pub open spec fn decimal_text(n: int) -> Seq<char> {
    if n < 0 {
        seq!['-'] + decimal_digits((-n) as nat)
    } else {
        decimal_digits(n as nat)
    }
}

/// A text without its trailing `'0'` characters.
pub open spec fn trim_zeros(t: Seq<char>) -> Seq<char>
    decreases t.len(),
{
    if t.len() > 0 && t.last() == '0' {
        trim_zeros(t.drop_last())
    } else {
        t
    }
}

/// Writes of a 128-bit integer: its low word, then its high word.
pub open spec fn i128_writes(x: i128) -> Seq<Seq<u8>> {
    seq![u64_bytes(x as u64), u64_bytes((x >> 64) as u64)]
}

/// Writes of a big decimal: a zero tag for zero; otherwise a non-zero tag,
/// the decimal text of the coefficient without trailing zeros, and the
/// scale less the number of zeros removed.
pub open spec fn big_decimal_writes(m: BigDecimalModel) -> Seq<Seq<u8>> {
    let c = signed_value(m.0);
    if c == 0 {
        seq![seq![0u8]]
    } else {
        let text = decimal_text(c);
        let trimmed = trim_zeros(text);
        seq![seq![1u8]] + text_writes(trimmed) + i128_writes((m.1 - (text.len() - trimmed.len())) as i128)
    }
}

/// Calls `num_bigint::BigInt::to_str_radix(10)` on the integer built by
/// `BigInt::from_slice` from the sign flag and limbs.
///
/// Trusted claim: the result is the decimal text of the integer's value,
/// digits most significant first, `"0"` for zero, a leading `'-'` for a
/// negative value.
#[verifier::external_body]
pub(crate) fn decimal_string(x: &BigIntegerValue) -> (r: String)
    ensures
        r@ == decimal_text(signed_value(x@)),
{
    let sign = if x.negative { num_bigint::Sign::Minus } else { num_bigint::Sign::Plus };
    num_bigint::BigInt::from_slice(sign, &x.magnitude).to_str_radix(10)
}

/// The text without its trailing `'0'` characters.
fn trim_trailing_zeros(text: &str) -> (r: &str)
    ensures
        r@ == trim_zeros(text@),
{
    let mut k = text.unicode_len();
    assert(text@.subrange(0, k as int) =~= text@);
    while k > 0 && text.get_char(k - 1) == '0'
        invariant
            k <= text@.len(),
            trim_zeros(text@) == trim_zeros(text@.subrange(0, k as int)),
        decreases k,
    {
        assert(text@.subrange(0, k as int).drop_last() =~= text@.subrange(0, k - 1));
        k = k - 1;
    }
    let r = text.substring_char(0, k);
    proof {
        if k == 0 {
            assert(r@ =~= Seq::<char>::empty());
        }
    }
    r
}

/// Limbs are worth zero exactly when each of them is zero.
proof fn lemma_limbs_zero(s: Seq<u32>)
    ensures
        (limbs_value(s) == 0) <==> (forall|i: int| 0 <= i < s.len() ==> s[i] == 0),
    decreases s.len(),
{
    if s.len() > 0 {
        lemma_limbs_zero(s.drop_first());
        let rest = limbs_value(s.drop_first());
        assert(0x1_0000_0000 * rest >= 0) by (nonlinear_arith)
            requires
                rest >= 0,
        ;
        assert(0x1_0000_0000 * rest == 0 ==> rest == 0) by (nonlinear_arith);
        if forall|i: int| 0 <= i < s.len() ==> s[i] == 0 {
            assert forall|i: int| 0 <= i < s.drop_first().len() implies s.drop_first()[i] == 0 by {
                assert(s[i + 1] == 0);
            }
        }
        if limbs_value(s) == 0 {
            assert forall|i: int| 0 <= i < s.len() implies s[i] == 0 by {
                if i > 0 {
                    assert(s.drop_first()[i - 1] == 0);
                }
            }
        }
    }
}

/// Tests whether a big integer is zero.
pub fn is_zero_integer(x: &BigIntegerValue) -> (r: bool)
    ensures
        r == (signed_value(x@) == 0),
{
    proof {
        lemma_limbs_zero(x.magnitude@);
    }
    let n = x.magnitude.len();
    for i in 0..n
        invariant
            n == x.magnitude@.len(),
            forall|j: int| 0 <= j < i ==> x.magnitude@[j] == 0,
    {
        if x.magnitude[i] != 0 {
            proof {
                lemma_limbs_zero(x.magnitude@);
            }
            return false;
        }
    }
    true
}

/// Every decimal digit is an ASCII character, and there is at least one.
proof fn lemma_digits_ascii(n: nat)
    ensures
        decimal_digits(n).len() >= 1,
        forall|i: int| 0 <= i < decimal_digits(n).len() ==> '0' <= #[trigger] decimal_digits(n)[i] <= '9',
    decreases n,
{
    if n >= 10 {
        lemma_digits_ascii(n / 10);
    }
}

/// Trimming keeps a prefix.
proof fn lemma_trim_prefix(t: Seq<char>)
    ensures
        trim_zeros(t).len() <= t.len(),
        trim_zeros(t) =~= t.take(trim_zeros(t).len() as int),
    decreases t.len(),
{
    if t.len() > 0 && t.last() == '0' {
        lemma_trim_prefix(t.drop_last());
    }
}

/// Hashes a big decimal by its numeric value: the coefficient's decimal
/// text without trailing zeros, and the scale adjusted by the zeros removed.
pub fn hash_big_decimal(value: &BigDecimalValue, state: &mut DefaultHasher)
    ensures
        final(state)@ == old(state)@ + big_decimal_writes(value@),
{
    if is_zero_integer(&value.coefficient) {
        write_tag(state, 0);
        assert(final(state)@ =~= old(state)@ + big_decimal_writes(value@));
        return;
    }
    let ghost c = signed_value(value.coefficient@);
    let text = decimal_string(&value.coefficient);
    let text_str = text.as_str();
    let trimmed = trim_trailing_zeros(text_str);
    proof {
        if c < 0 {
            lemma_digits_ascii((-c) as nat);
            assert forall|i: int| 0 <= i < text@.len() implies '\0' <= #[trigger] text@[i] <= '\u{7f}' by {
                if i > 0 {
                    assert(text@[i] == decimal_digits((-c) as nat)[i - 1]);
                }
            }
        } else {
            lemma_digits_ascii(c as nat);
            assert forall|i: int| 0 <= i < text@.len() implies '\0' <= #[trigger] text@[i] <= '\u{7f}' by {
                assert(text@[i] == decimal_digits(c as nat)[i]);
            }
        }
        lemma_trim_prefix(text@);
        assert forall|i: int| 0 <= i < trimmed@.len() implies '\0' <= #[trigger] trimmed@[i] <= '\u{7f}' by {
            assert(trimmed@[i] == text@[i]);
        }
        assert(vstd::string::is_ascii(text_str));
        assert(vstd::string::is_ascii(trimmed));
        vstd::string::is_ascii_spec_bytes(text_str);
        vstd::string::is_ascii_spec_bytes(trimmed);
        assert(text_str@ == text@);
        assert(text_str.spec_bytes().len() == text_str@.len());
        assert(trimmed.spec_bytes().len() == trimmed@.len());
        assert(trimmed@.len() <= text_str@.len());
    }
    let text_len = text_str.as_bytes().len();
    let trimmed_len = trimmed.as_bytes().len();
    assert(text_len == text_str@.len());
    assert(trimmed_len == trimmed@.len());
    let removed = text_len - trimmed_len;
    let effective: i128 = value.scale as i128 - removed as i128;
    write_tag(state, 1);
    write_text(state, trimmed);
    write_u64(state, #[verifier::truncate] (effective as u64));
    write_u64(state, #[verifier::truncate] ((effective >> 64) as u64));
    assert(final(state)@ =~= old(state)@ + big_decimal_writes(value@));
}

/// Number of trailing decimal zeros of a positive number.
pub open spec fn tens_exponent(n: nat) -> nat
    decreases n,
{
    if n > 0 && n % 10 == 0 {
        tens_exponent(n / 10) + 1
    } else {
        0
    }
}

/// A positive number without its trailing decimal zeros.
pub open spec fn strip_tens(n: nat) -> nat
    decreases n,
{
    if n > 0 && n % 10 == 0 {
        strip_tens(n / 10)
    } else {
        n
    }
}

/// Trimming the trailing zeros of the digits of a positive number gives the
/// digits of the number without its trailing decimal zeros; as many
/// characters go as the number has trailing zeros.
proof fn lemma_trim_digits(n: nat)
    requires
        n > 0,
    ensures
        trim_zeros(decimal_digits(n)) == decimal_digits(strip_tens(n)),
        decimal_digits(n).len() == decimal_digits(strip_tens(n)).len() + tens_exponent(n),
        strip_tens(n) > 0,
    decreases n,
{
    if n % 10 == 0 {
        assert(n >= 10);
        lemma_trim_digits(n / 10);
        let d = decimal_digits(n / 10);
        assert(decimal_digits(n) == d.push('0'));
        assert(d.push('0').drop_last() =~= d);
    } else {
        lemma_digits_ascii(n);
        if n >= 10 {
            assert(decimal_digits(n).last() == digit_char((n % 10) as int));
        }
    }
}

/// Trimming a text ending in something other than zeros keeps its prefix.
proof fn lemma_trim_after_prefix(p: Seq<char>, t: Seq<char>)
    requires
        trim_zeros(t).len() > 0,
    ensures
        trim_zeros(p + t) == p + trim_zeros(t),
    decreases t.len(),
{
    if t.len() > 0 && t.last() == '0' {
        assert((p + t).drop_last() =~= p + t.drop_last());
        lemma_trim_after_prefix(p, t.drop_last());
    } else {
        assert(t.len() > 0);
        assert((p + t).last() == t.last());
    }
}

/// Multiplying by a power of ten adds to the trailing zeros and keeps the
/// rest.
proof fn lemma_tens_scaled(m: nat, k: nat)
    requires
        m > 0,
    ensures
        m * pow(10, k) > 0,
        strip_tens((m * pow(10, k)) as nat) == strip_tens(m),
        tens_exponent((m * pow(10, k)) as nat) == tens_exponent(m) + k,
    decreases k,
{
    reveal(pow);
    if k == 0 {
        assert(pow(10, 0) == 1);
        assert(m * 1 == m);
    } else {
        lemma_tens_scaled(m, (k - 1) as nat);
        let q = m * pow(10, (k - 1) as nat);
        assert(pow(10, k) == 10 * pow(10, (k - 1) as nat));
        assert(m * pow(10, k) == q * 10) by (nonlinear_arith)
            requires
                pow(10, k) == 10 * pow(10, (k - 1) as nat),
                q == m * pow(10, (k - 1) as nat),
        ;
        vstd::arithmetic::div_mod::lemma_mod_multiples_basic(q, 10);
        vstd::arithmetic::div_mod::lemma_div_multiples_vanish(q, 10);
        assert(10 * q == q * 10);
        assert(q * 10 > 0) by (nonlinear_arith)
            requires
                q > 0,
        ;
    }
}

/// The writes of a non-zero big decimal depend only on the sign, the
/// coefficient without trailing zeros, and the scale less those zeros.
proof fn lemma_decimal_writes_normal(m: BigDecimalModel)
    requires
        signed_value(m.0) != 0,
    ensures
        ({
            let c = signed_value(m.0);
            let n = if c < 0 { (-c) as nat } else { c as nat };
            let sign = if c < 0 { seq!['-'] } else { Seq::<char>::empty() };
            big_decimal_writes(m) == seq![seq![1u8]] + text_writes(sign + decimal_digits(strip_tens(n)))
                + i128_writes((m.1 - tens_exponent(n)) as i128)
        }),
{
    let c = signed_value(m.0);
    let n = if c < 0 { (-c) as nat } else { c as nat };
    let sign = if c < 0 { seq!['-'] } else { Seq::<char>::empty() };
    lemma_trim_digits(n);
    lemma_digits_ascii(strip_tens(n));
    assert(trim_zeros(decimal_digits(n)).len() > 0);
    lemma_trim_after_prefix(sign, decimal_digits(n));
    assert(decimal_text(c) =~= sign + decimal_digits(n));
}

/// Numerically equal big decimals write the same bytes: `1.0` hashes as
/// `1.00`.
pub proof fn lemma_big_decimal_hash_consistent(a: BigDecimalModel, b: BigDecimalModel)
    requires
        decimal_values_equal(decimal_of(a), decimal_of(b)),
    ensures
        big_decimal_writes(a) == big_decimal_writes(b),
{
    let ca = signed_value(a.0);
    let cb = signed_value(b.0);
    if a.1 >= b.1 {
        lemma_decimal_scaled(a, b, (a.1 - b.1) as nat);
    } else {
        lemma_decimal_scaled(b, a, (b.1 - a.1) as nat);
    }
}

/// A decimal whose coefficient is another's times `10^k`, with a scale
/// larger by `k`, writes the same bytes.
proof fn lemma_decimal_scaled(a: BigDecimalModel, b: BigDecimalModel, k: nat)
    requires
        a.1 == b.1 + k,
        signed_value(a.0) == signed_value(b.0) * pow(10, k),
    ensures
        big_decimal_writes(a) == big_decimal_writes(b),
{
    let ca = signed_value(a.0);
    let cb = signed_value(b.0);
    vstd::arithmetic::power::lemma_pow_positive(10, k);
    let p = pow(10, k);
    if cb == 0 {
        assert(ca == 0) by (nonlinear_arith)
            requires
                ca == cb * p,
                cb == 0,
        ;
    } else {
        let nb: nat = if cb < 0 { (-cb) as nat } else { cb as nat };
        let na: nat = if ca < 0 { (-ca) as nat } else { ca as nat };
        assert(na == nb * p && (ca < 0) == (cb < 0) && ca != 0) by (nonlinear_arith)
            requires
                ca == cb * p,
                cb != 0,
                p > 0,
                na == if ca < 0 { -ca } else { ca },
                nb == if cb < 0 { -cb } else { cb },
        ;
        lemma_tens_scaled(nb, k);
        lemma_decimal_writes_normal(a);
        lemma_decimal_writes_normal(b);
    }
}

/// A positive number is its stripped part times ten to its number of
/// trailing zeros.
proof fn lemma_strip_tens_product(n: nat)
    requires
        n > 0,
    ensures
        n == strip_tens(n) * pow(10, tens_exponent(n)),
    decreases n,
{
    reveal(pow);
    if n % 10 == 0 {
        assert(n >= 10);
        lemma_strip_tens_product(n / 10);
        let s = strip_tens(n / 10);
        let e = tens_exponent(n / 10);
        assert(pow(10, e + 1) == 10 * pow(10, e));
        assert(n == 10 * (n / 10));
        assert(n == s * pow(10, e + 1)) by (nonlinear_arith)
            requires
                n / 10 == s * pow(10, e),
                pow(10, e + 1) == 10 * pow(10, e),
                n == 10 * (n / 10),
        ;
    } else {
        assert(pow(10, 0) == 1);
        assert(n * 1 == n);
    }
}

/// Normal form of a decimal: zero, or the sign, the coefficient's magnitude
/// without trailing zeros, and the scale less those zeros.
pub open spec fn decimal_normal_form(d: (int, int)) -> (bool, nat, int) {
    let c = d.0;
    if c == 0 {
        (false, 0, 0)
    } else {
        let n: nat = if c < 0 { (-c) as nat } else { c as nat };
        (c < 0, strip_tens(n), d.1 - tens_exponent(n))
    }
}

/// Decimals related by a power of ten share their normal form.
proof fn lemma_normal_form_scaled(a: (int, int), b: (int, int), k: nat)
    requires
        a.1 == b.1 + k,
        a.0 == b.0 * pow(10, k),
    ensures
        decimal_normal_form(a) == decimal_normal_form(b),
{
    vstd::arithmetic::power::lemma_pow_positive(10, k);
    let p = pow(10, k);
    if b.0 == 0 {
        assert(a.0 == 0) by (nonlinear_arith)
            requires
                a.0 == b.0 * p,
                b.0 == 0,
        ;
    } else {
        let nb: nat = if b.0 < 0 { (-b.0) as nat } else { b.0 as nat };
        let na: nat = if a.0 < 0 { (-a.0) as nat } else { a.0 as nat };
        assert(na == nb * p && (a.0 < 0) == (b.0 < 0) && a.0 != 0) by (nonlinear_arith)
            requires
                a.0 == b.0 * p,
                b.0 != 0,
                p > 0,
                na == if a.0 < 0 { -a.0 } else { a.0 },
                nb == if b.0 < 0 { -b.0 } else { b.0 },
        ;
        lemma_tens_scaled(nb, k);
    }
}

/// Numerically equal decimals share their normal form.
proof fn lemma_equal_normal_form(a: (int, int), b: (int, int))
    requires
        decimal_values_equal(a, b),
    ensures
        decimal_normal_form(a) == decimal_normal_form(b),
{
    if a.1 >= b.1 {
        lemma_normal_form_scaled(a, b, (a.1 - b.1) as nat);
    } else {
        lemma_normal_form_scaled(b, a, (b.1 - a.1) as nat);
    }
}

/// Decimals with the same normal form are numerically equal.
proof fn lemma_normal_form_equal(a: (int, int), b: (int, int))
    requires
        decimal_normal_form(a) == decimal_normal_form(b),
    ensures
        decimal_values_equal(a, b),
{
    if a.0 == 0 {
        if b.0 != 0 {
            let nb: nat = if b.0 < 0 { (-b.0) as nat } else { b.0 as nat };
            lemma_strip_tens_product(nb);
            lemma_trim_digits(nb);
        }
        assert(b.0 == 0);
        if a.1 >= b.1 {
            assert(a.0 == b.0 * pow(10, (a.1 - b.1) as nat));
        } else {
            assert(b.0 == a.0 * pow(10, (b.1 - a.1) as nat));
        }
    } else {
        if b.0 == 0 {
            let na: nat = if a.0 < 0 { (-a.0) as nat } else { a.0 as nat };
            lemma_trim_digits(na);
        }
        let na: nat = if a.0 < 0 { (-a.0) as nat } else { a.0 as nat };
        let nb: nat = if b.0 < 0 { (-b.0) as nat } else { b.0 as nat };
        lemma_strip_tens_product(na);
        lemma_strip_tens_product(nb);
        let s = strip_tens(na);
        let ea = tens_exponent(na);
        let eb = tens_exponent(nb);
        if a.1 >= b.1 {
            let k = (a.1 - b.1) as nat;
            assert(ea == eb + k);
            vstd::arithmetic::power::lemma_pow_adds(10, eb, k);
            assert(na == nb * pow(10, k)) by (nonlinear_arith)
                requires
                    na == s * pow(10, ea),
                    nb == s * pow(10, eb),
                    pow(10, ea) == pow(10, eb) * pow(10, k),
            ;
            assert(a.0 == b.0 * pow(10, k)) by (nonlinear_arith)
                requires
                    na == nb * pow(10, k),
                    (a.0 < 0) == (b.0 < 0),
                    na == if a.0 < 0 { -a.0 } else { a.0 },
                    nb == if b.0 < 0 { -b.0 } else { b.0 },
            ;
        } else {
            let k = (b.1 - a.1) as nat;
            assert(eb == ea + k);
            vstd::arithmetic::power::lemma_pow_adds(10, ea, k);
            assert(nb == na * pow(10, k)) by (nonlinear_arith)
                requires
                    na == s * pow(10, ea),
                    nb == s * pow(10, eb),
                    pow(10, eb) == pow(10, ea) * pow(10, k),
            ;
            assert(b.0 == a.0 * pow(10, k)) by (nonlinear_arith)
                requires
                    nb == na * pow(10, k),
                    (a.0 < 0) == (b.0 < 0),
                    na == if a.0 < 0 { -a.0 } else { a.0 },
                    nb == if b.0 < 0 { -b.0 } else { b.0 },
            ;
        }
    }
}

/// Numeric equality of decimals is transitive.
pub proof fn lemma_decimal_equality_transitive(a: (int, int), b: (int, int), c: (int, int))
    requires
        decimal_values_equal(a, b),
        decimal_values_equal(b, c),
    ensures
        decimal_values_equal(a, c),
{
    lemma_equal_normal_form(a, b);
    lemma_equal_normal_form(b, c);
    lemma_normal_form_equal(a, c);
}

} // verus!
