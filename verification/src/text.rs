//! Small verified text utilities: string equality, decimal rendering and
//! decimal parsing, shared by the state machine, the import loader and the
//! mirror serializer.

use vstd::prelude::*;

verus! {

/// Relies on `String::push`: appends exactly the given character.
#[verifier::external_body]
pub fn push_char(s: &mut String, c: char)
    ensures
        final(s)@ == old(s)@.push(c),
{
    s.push(c)
}

/// True when `c` is a decimal digit.
pub open spec fn is_digit(c: char) -> bool {
    48 <= c as int && c as int <= 57
}

/// Numeric value of a decimal digit character.
pub open spec fn digit_val(c: char) -> int {
    c as int - 48
}

/// Every character of `s` is a decimal digit.
pub open spec fn all_digits(s: Seq<char>) -> bool {
    forall|i: int| 0 <= i < s.len() ==> is_digit(#[trigger] s[i])
}

/// Numeric value of a digit sequence, most significant digit first.
pub open spec fn dec_val(s: Seq<char>) -> int
    decreases s.len(),
{
    if s.len() == 0 {
        0
    } else {
        dec_val(s.drop_last()) * 10 + digit_val(s.last())
    }
}

/// The digit character for `d`.
pub open spec fn digit_char(d: int) -> char {
    if d == 0 { '0' }
    else if d == 1 { '1' }
    else if d == 2 { '2' }
    else if d == 3 { '3' }
    else if d == 4 { '4' }
    else if d == 5 { '5' }
    else if d == 6 { '6' }
    else if d == 7 { '7' }
    else if d == 8 { '8' }
    else { '9' }
}

/// Canonical decimal rendering of a natural number (no leading zeros).
pub open spec fn dec_seq(n: nat) -> Seq<char>
    decreases n,
{
    if n < 10 {
        seq![digit_char(n as int)]
    } else {
        dec_seq(n / 10).push(digit_char((n % 10) as int))
    }
}

/// Canonical decimal rendering of an integer: a minus sign for negative
/// values, then the digits of the magnitude.
pub open spec fn dec_int(n: int) -> Seq<char> {
    if n < 0 {
        seq!['-'] + dec_seq((-n) as nat)
    } else {
        dec_seq(n as nat)
    }
}

fn exec_digit_char(d: u64) -> (c: char)
    requires
        d < 10,
    ensures
        c == digit_char(d as int),
{
    if d == 0 { '0' }
    else if d == 1 { '1' }
    else if d == 2 { '2' }
    else if d == 3 { '3' }
    else if d == 4 { '4' }
    else if d == 5 { '5' }
    else if d == 6 { '6' }
    else if d == 7 { '7' }
    else if d == 8 { '8' }
    else { '9' }
}

/// Renders `n` in decimal.
pub fn u64_to_string(n: u64) -> (s: String)
    ensures
        s@ == dec_seq(n as nat),
    decreases n,
{
    if n < 10 {
        let mut s = String::new();
        push_char(&mut s, exec_digit_char(n));
        proof {
            assert(s@ =~= dec_seq(n as nat));
        }
        s
    } else {
        let mut s = u64_to_string(n / 10);
        push_char(&mut s, exec_digit_char(n % 10));
        s
    }
}

/// Renders `n` in decimal, with a leading minus sign when it is negative.
pub fn i64_to_string(n: i64) -> (s: String)
    ensures
        s@ == dec_int(n as int),
{
    if n >= 0 {
        u64_to_string(n as u64)
    } else {
        let m: u64 = if n == i64::MIN {
            9223372036854775808u64
        } else {
            (-n) as u64
        };
        assert(m as int == -(n as int));
        let mut s = String::new();
        push_char(&mut s, '-');
        let digits = u64_to_string(m);
        let s = s.concat(digits.as_str());
        proof {
            assert(s@ =~= dec_int(n as int));
        }
        s
    }
}

/// Renders `n` in decimal, with a leading minus sign when it is negative.
pub fn i32_to_string(n: i32) -> (s: String)
    ensures
        s@ == dec_int(n as int),
{
    i64_to_string(n as i64)
}

/// Powers of ten.
pub open spec fn pow10(k: nat) -> int
    decreases k,
{
    if k == 0 {
        1
    } else {
        10 * pow10((k - 1) as nat)
    }
}

/// A digit sequence's value is bounded by the power of ten of its length.
pub proof fn lemma_dec_val_bounds(s: Seq<char>)
    requires
        all_digits(s),
    ensures
        0 <= dec_val(s) < pow10(s.len()),
    decreases s.len(),
{
    if s.len() > 0 {
        assert(is_digit(s[s.len() - 1]));
        assert(forall|i: int| 0 <= i < s.len() - 1 ==> s.drop_last()[i] == s[i]);
        lemma_dec_val_bounds(s.drop_last());
    }
}

/// Powers of ten grow with the exponent.
pub proof fn lemma_pow10_mono(a: nat, b: nat)
    requires
        a <= b,
    ensures
        pow10(a) <= pow10(b),
        pow10(a) >= 1,
    decreases b,
{
    if b > 0 {
        if a == b {
            lemma_pow10_mono((a - 1) as nat, (b - 1) as nat);
        } else {
            lemma_pow10_mono(a, (b - 1) as nat);
        }
    }
}

/// A nonzero leading digit puts the value at or above the power of ten of
/// the remaining length.
pub proof fn lemma_dec_val_lower(s: Seq<char>)
    requires
        all_digits(s),
        s.len() >= 1,
        s[0] != '0',
    ensures
        dec_val(s) >= pow10((s.len() - 1) as nat),
    decreases s.len(),
{
    assert(is_digit(s[0]));
    if s.len() == 1 {
        assert(dec_val(s.drop_last()) == 0);
        assert(s.last() == s[0]);
        assert(digit_val(s[0]) >= 1);
    } else {
        assert(forall|i: int| 0 <= i < s.len() - 1 ==> s.drop_last()[i] == s[i]);
        lemma_dec_val_lower(s.drop_last());
        assert(is_digit(s.last()));
    }
}

/// Dropping one leading zero does not change a digit sequence's value.
proof fn lemma_dec_val_leading_zero(s: Seq<char>)
    requires
        s.len() >= 1,
        s[0] == '0',
    ensures
        dec_val(s) == dec_val(s.subrange(1, s.len() as int)),
    decreases s.len(),
{
    let t = s.subrange(1, s.len() as int);
    reveal_with_fuel(dec_val, 2);
    if s.len() == 1 {
        assert(t.len() == 0);
        assert(s.drop_last().len() == 0);
        assert(s.last() == s[0]);
        assert(dec_val(s) == digit_val('0'));
    } else {
        lemma_dec_val_leading_zero(s.drop_last());
        assert(s.drop_last().subrange(1, s.drop_last().len() as int) =~= t.drop_last());
        assert(t.last() == s.last());
    }
}

/// Dropping any number of leading zeros does not change the value.
pub proof fn lemma_dec_val_skip_zeros(s: Seq<char>, k: int)
    requires
        0 <= k <= s.len(),
        forall|j: int| 0 <= j < k ==> s[j] == '0',
    ensures
        dec_val(s) == dec_val(s.subrange(k, s.len() as int)),
    decreases k,
{
    if k > 0 {
        lemma_dec_val_leading_zero(s);
        let t = s.subrange(1, s.len() as int);
        lemma_dec_val_skip_zeros(t, k - 1);
        assert(t.subrange(k - 1, t.len() as int) =~= s.subrange(k, s.len() as int));
    } else {
        assert(s.subrange(0, s.len() as int) =~= s);
    }
}

/// Whether `s` is a decimal integer literal: an optional sign followed by at
/// least one digit.
pub open spec fn int_literal_shape(s: Seq<char>) -> bool {
    if s.len() == 0 {
        false
    } else if s[0] == '+' || s[0] == '-' {
        s.len() > 1 && all_digits(s.subrange(1, s.len() as int))
    } else {
        all_digits(s)
    }
}

/// The integer a decimal literal denotes.
pub open spec fn int_literal_val(s: Seq<char>) -> int {
    if s.len() > 0 && s[0] == '-' {
        -dec_val(s.subrange(1, s.len() as int))
    } else if s.len() > 0 && s[0] == '+' {
        dec_val(s.subrange(1, s.len() as int))
    } else {
        dec_val(s)
    }
}

/// What parsing `s` as an `i32` yields: the denoted integer when `s` is a
/// well-shaped literal whose value fits, `None` otherwise.
pub open spec fn spec_parse_i32(s: Seq<char>) -> Option<i32> {
    if int_literal_shape(s) && i32::MIN <= int_literal_val(s) <= i32::MAX {
        Some(int_literal_val(s) as i32)
    } else {
        None
    }
}

fn exec_is_digit_char(c: char) -> (r: bool)
    ensures
        r == is_digit(c),
{
    let u = c as u32;
    48 <= u && u <= 57
}

/// Parses a decimal integer: an optional sign, then digits; `None` for any
/// other shape and for values that do not fit in an `i32`.
#[verifier::loop_isolation(false)]
#[verifier::rlimit(50)]
pub fn parse_i32(s: &str) -> (r: Option<i32>)
    ensures
        r == spec_parse_i32(s@),
{
    let n = s.unicode_len();
    if n == 0 {
        return None;
    }
    let first = s.get_char(0);
    let neg = first == '-';
    let has_sign = neg || first == '+';
    let start: usize = if has_sign { 1 } else { 0 };
    if start >= n {
        // A lone sign has no digits.
        return None;
    }
    let ghost digits = s@.subrange(start as int, n as int);
    let mut i: usize = start;
    while i < n
        invariant
            start <= i <= n,
            n == s@.len(),
            forall|k: int| start <= k < i ==> is_digit(#[trigger] s@[k]),
        decreases n - i,
    {
        if !exec_is_digit_char(s.get_char(i)) {
            proof {
                assert(!is_digit(s@[i as int]));
                if has_sign {
                    assert(s@.subrange(1, n as int)[i - 1] == s@[i as int]);
                    assert(!all_digits(s@.subrange(1, n as int)));
                } else {
                    assert(!all_digits(s@));
                }
                assert(!int_literal_shape(s@));
            }
            return None;
        }
        i += 1;
    }
    proof {
        assert(forall|k: int| 0 <= k < n - start ==> digits[k] == s@[start + k]);
        assert(all_digits(digits));
        if !has_sign {
            assert(digits =~= s@);
        }
        assert(int_literal_shape(s@));
    }
    // Skip leading zeros so that the significant length bounds the value.
    let mut z: usize = start;
    while z < n && s.get_char(z) == '0'
        invariant
            start <= z <= n,
            n == s@.len(),
            forall|k: int| start <= k < z ==> s@[k] == '0',
        decreases n - z,
    {
        z += 1;
    }
    proof {
        lemma_dec_val_skip_zeros(digits, z - start);
        assert(digits.subrange(z - start, digits.len() as int) =~= s@.subrange(
            z as int,
            n as int,
        ));
        assert(forall|k: int| start <= k < n ==> is_digit(#[trigger] s@[k]));
        assert(forall|k: int|
            0 <= k < n - z ==> #[trigger] s@.subrange(z as int, n as int)[k] == s@[z + k]);
        assert(all_digits(s@.subrange(z as int, n as int)));
    }
    let ghost sig = s@.subrange(z as int, n as int);
    if n - z > 10 {
        // At least eleven significant digits: the magnitude is at least
        // 10^10, far outside the `i32` range.
        proof {
            assert(sig[0] != '0');
            lemma_dec_val_lower(sig);
            lemma_pow10_mono(10, (sig.len() - 1) as nat);
            reveal_with_fuel(pow10, 11);
            assert(dec_val(sig) >= 10000000000);
        }
        return None;
    }
    let mut acc: i64 = 0;
    let mut j: usize = z;
    proof {
        assert(sig.subrange(0, 0) =~= Seq::<char>::empty());
    }
    while j < n
        invariant
            z <= j <= n,
            n == s@.len(),
            n - z <= 10,
            sig == s@.subrange(z as int, n as int),
            all_digits(sig),
            acc == dec_val(sig.subrange(0, j - z)),
            0 <= acc < pow10((j - z) as nat),
        decreases n - j,
    {
        let c = s.get_char(j);
        let d: i64 = (c as u32 as i64) - 48;
        proof {
            assert(sig[j - z] == s@[j as int]);
            assert(is_digit(sig[j - z]));
            assert(0 <= d <= 9);
            lemma_pow10_mono((j - z) as nat, 9);
            reveal_with_fuel(pow10, 11);
            assert(acc < 1000000000);
            lemma_dec_val_bounds(sig.subrange(0, j - z));
        }
        acc = acc * 10 + d;
        proof {
            assert(sig.subrange(0, j - z + 1).drop_last() =~= sig.subrange(0, j - z));
            assert(sig.subrange(0, j - z + 1).last() == sig[j - z]);
        }
        j += 1;
    }
    proof {
        assert(sig.subrange(0, n - z) =~= sig);
        assert(acc == dec_val(sig));
        assert(dec_val(digits) == dec_val(sig));
        assert(int_literal_shape(s@));
        if neg {
            assert(int_literal_val(s@) == -dec_val(digits));
        } else {
            assert(int_literal_val(s@) == dec_val(digits));
        }
    }
    if neg {
        if acc > 2147483648 {
            return None;
        }
        Some((-acc) as i32)
    } else {
        if acc > 2147483647 {
            return None;
        }
        Some(acc as i32)
    }
}

/// Compares two strings character by character.
pub fn str_eq(a: &str, b: &str) -> (r: bool)
    ensures
        r == (a@ == b@),
{
    let alen = a.unicode_len();
    let blen = b.unicode_len();
    if alen != blen {
        return false;
    }
    let mut i: usize = 0;
    while i < alen
        invariant
            i <= alen,
            alen == a@.len(),
            alen == b@.len(),
            forall|j: int| 0 <= j < i ==> a@[j] == b@[j],
        decreases alen - i,
    {
        if a.get_char(i) != b.get_char(i) {
            return false;
        }
        i += 1;
    }
    proof {
        assert(a@ =~= b@);
    }
    true
}

} // verus!
