//! Character-level string primitives: equality, prefix tests, decimal
//! parsing and decimal formatting, each specified over `Seq<char>`.

use vstd::prelude::*;

verus! {

/// Relies on `String::push`: appends the given character to the end of
/// the string.
#[verifier::external_body]
pub(crate) fn push_char(s: &mut String, c: char)
    ensures
        final(s)@ == old(s)@.push(c),
{
    s.push(c);
}

/// Whether `p` is a prefix of `s`.
pub open spec fn starts_with(s: Seq<char>, p: Seq<char>) -> bool {
    p.len() <= s.len() && s.take(p.len() as int) == p
}

/// Character-by-character string equality.
pub fn str_eq(a: &str, b: &str) -> (r: bool)
    ensures
        r == (a@ == b@),
{
    let n = a.unicode_len();
    if n != b.unicode_len() {
        return false;
    }
    let mut i: usize = 0;
    while i < n
        invariant
            n == a@.len(),
            n == b@.len(),
            i <= n,
            forall|j: int| 0 <= j < i ==> a@[j] == b@[j],
        decreases n - i,
    {
        if a.get_char(i) != b.get_char(i) {
            return false;
        }
        i += 1;
    }
    proof {
        assert(a@ =~= b@);
    }
    true
}

/// Whether the string begins with the given prefix.
pub fn str_starts_with(s: &str, prefix: &str) -> (r: bool)
    ensures
        r == starts_with(s@, prefix@),
{
    let np = prefix.unicode_len();
    if np > s.unicode_len() {
        return false;
    }
    let mut i: usize = 0;
    while i < np
        invariant
            np == prefix@.len(),
            np <= s@.len(),
            i <= np,
            forall|j: int| 0 <= j < i ==> s@[j] == prefix@[j],
        decreases np - i,
    {
        if s.get_char(i) != prefix.get_char(i) {
            assert(s@.take(np as int)[i as int] != prefix@[i as int]);
            return false;
        }
        i += 1;
    }
    proof {
        assert(s@.take(np as int) =~= prefix@);
    }
    true
}

/// Whether the character is a decimal digit.
pub open spec fn is_digit(c: char) -> bool {
    48 <= c as u32 && c as u32 <= 57
}

/// The numeric value of a decimal digit character.
pub open spec fn digit_val(c: char) -> int {
    c as u32 - 48
}

/// Whether every character of the sequence is a decimal digit.
pub open spec fn all_digits(s: Seq<char>) -> bool {
    forall|i: int| 0 <= i < s.len() ==> is_digit(#[trigger] s[i])
}

/// The number a sequence of decimal digits denotes.
pub open spec fn digits_val(s: Seq<char>) -> int
    decreases s.len(),
{
    if s.len() == 0 {
        0
    } else {
        digits_val(s.drop_last()) * 10 + digit_val(s.last())
    }
}

/// A digit string never denotes a negative number.
pub proof fn lemma_digits_val_nonneg(s: Seq<char>)
    requires
        all_digits(s),
    ensures
        digits_val(s) >= 0,
    decreases s.len(),
{
    if s.len() > 0 {
        assert(all_digits(s.drop_last()));
        lemma_digits_val_nonneg(s.drop_last());
    }
}

/// A digit string denotes at least as much as any of its prefixes.
pub proof fn lemma_digits_val_prefix(s: Seq<char>, k: int)
    requires
        all_digits(s),
        0 <= k <= s.len(),
    ensures
        digits_val(s.take(k)) <= digits_val(s),
    decreases s.len() - k,
{
    if k < s.len() {
        lemma_digits_val_prefix(s, k + 1);
        assert(s.take(k + 1).drop_last() =~= s.take(k));
        assert(all_digits(s.take(k)));
        lemma_digits_val_nonneg(s.take(k));
        assert(digits_val(s.take(k + 1)) == digits_val(s.take(k)) * 10 + digit_val(s.take(k + 1).last()));
    } else {
        assert(s.take(k) =~= s);
    }
}

/// What parsing a decimal string as a 64-bit signed integer yields: an
/// optional sign followed by at least one digit, with the value in range;
/// anything else is rejected.
pub open spec fn parse_i64_spec(s: Seq<char>) -> Option<i64> {
    let neg = s.len() > 0 && s[0] == '-';
    let digits = if s.len() > 0 && (s[0] == '-' || s[0] == '+') {
        s.skip(1)
    } else {
        s
    };
    if digits.len() == 0 || !all_digits(digits) {
        None
    } else {
        let v = if neg {
            -digits_val(digits)
        } else {
            digits_val(digits)
        };
        if i64::MIN <= v <= i64::MAX {
            Some(v as i64)
        } else {
            None
        }
    }
}

/// Parses a decimal string as a 64-bit signed integer, exactly as
/// `parse_i64_spec` describes.
pub fn parse_i64(s: &str) -> (r: Option<i64>)
    ensures
        r == parse_i64_spec(s@),
{
    let n = s.unicode_len();
    if n == 0 {
        return None;
    }
    let c0 = s.get_char(0);
    let neg = c0 == '-';
    let start: usize = if c0 == '-' || c0 == '+' {
        1
    } else {
        0
    };
    if n == start {
        return None;
    }
    let ghost digits = if start == 1 {
        s@.skip(1)
    } else {
        s@
    };
    proof {
        assert(digits =~= s@.subrange(start as int, n as int));
    }
    let mut acc: i64 = 0;
    let mut i: usize = start;
    while i < n
        invariant
            start <= i <= n,
            n == s@.len(),
            start == 0 || start == 1,
            start == 1 ==> (s@[0] == '-' || s@[0] == '+'),
            start == 0 ==> !(s@[0] == '-' || s@[0] == '+'),
            neg == (s@[0] == '-'),
            start < n,
            digits == s@.subrange(start as int, n as int),
            acc <= 0,
            all_digits(s@.subrange(start as int, i as int)),
            acc == -digits_val(s@.subrange(start as int, i as int)),
        decreases n - i,
    {
        let ghost prefix = s@.subrange(start as int, i as int);
        let c = s.get_char(i);
        let cv = c as u32;
        if cv < 48 || cv > 57 {
            proof {
                assert(digits[i - start] == s@[i as int]);
                assert(!all_digits(digits));
            }
            return None;
        }
        let d: i64 = (cv - 48) as i64;
        let ghost prefix1 = s@.subrange(start as int, i + 1 as int);
        proof {
            assert(prefix1.drop_last() =~= prefix);
            assert(prefix1.last() == s@[i as int]);
            assert(all_digits(prefix1));
        }
        let step = match acc.checked_mul(10) {
            Some(m) => m.checked_sub(d),
            None => None,
        };
        match step {
            Some(next) => {
                acc = next;
            },
            None => {
                // The value read so far is already past the 64-bit range,
                // and further digits only push it further out.
                proof {
                    assert(digits_val(prefix1) > i64::MAX as int + 1);
                    assert(prefix1 =~= digits.take(i + 1 - start));
                    if all_digits(digits) {
                        lemma_digits_val_prefix(digits, i + 1 - start);
                        let ghost sd = if s@.len() > 0 && (s@[0] == '-' || s@[0] == '+') {
                            s@.skip(1)
                        } else {
                            s@
                        };
                        assert(sd == digits);
                        assert(!(i64::MIN <= digits_val(sd) <= i64::MAX));
                        assert(!(i64::MIN <= -digits_val(sd) <= i64::MAX));
                    }
                }
                return None;
            },
        }
        i += 1;
    }
    proof {
        assert(s@.subrange(start as int, n as int) =~= digits);
        assert(acc == -digits_val(digits));
    }
    if neg {
        Some(acc)
    } else {
        if acc == i64::MIN {
            return None;
        }
        Some(-acc)
    }
}

/// The character for a decimal digit value.
pub open spec fn digit_char(d: int) -> char {
    ((d + 48) as u8) as char
}

/// The decimal digits of a number, most significant first.
pub open spec fn dec_digits(n: nat) -> Seq<char>
    decreases n,
{
    if n < 10 {
        seq![digit_char(n as int)]
    } else {
        dec_digits(n / 10).push(digit_char((n % 10) as int))
    }
}

/// Formats a number in decimal, exactly as `dec_digits` describes.
pub fn u64_to_string(n: u64) -> (r: String)
    ensures
        r@ == dec_digits(n as nat),
    decreases n,
{
    if n < 10 {
        let mut s = String::new();
        push_char(&mut s, (48 + n as u8) as char);
        proof {
            assert(s@ =~= dec_digits(n as nat));
        }
        s
    } else {
        let mut s = u64_to_string(n / 10);
        push_char(&mut s, (48 + (n % 10) as u8) as char);
        s
    }
}

/// The decimal rendering of a signed number: a minus sign where it is
/// negative, then its digits.
pub open spec fn i64_dec_str(v: int) -> Seq<char> {
    if v < 0 {
        seq!['-'] + dec_digits((-v) as nat)
    } else {
        dec_digits(v as nat)
    }
}

/// Formats a signed number in decimal, exactly as `i64_dec_str` describes.
pub fn i64_to_string(v: i64) -> (r: String)
    ensures
        r@ == i64_dec_str(v as int),
{
    if v >= 0 {
        u64_to_string(v as u64)
    } else {
        let mag: u64 = ((-(v + 1)) as u64) + 1;
        let mut s = String::new();
        push_char(&mut s, '-');
        let t = u64_to_string(mag);
        s.append(t.as_str());
        proof {
            assert(s@ =~= seq!['-'] + dec_digits(mag as nat));
        }
        s
    }
}

/// The digits of a number denote the number: each rendered character is a
/// digit, and together they read back as the value rendered.
pub proof fn lemma_dec_digits_val(n: nat)
    ensures
        all_digits(dec_digits(n)),
        digits_val(dec_digits(n)) == n,
        dec_digits(n).len() > 0,
    decreases n,
{
    if n < 10 {
        assert(dec_digits(n) =~= Seq::empty().push(digit_char(n as int)));
        assert(is_digit(digit_char(n as int)));
        assert(digits_val(Seq::<char>::empty()) == 0);
        assert(dec_digits(n).drop_last() =~= Seq::<char>::empty());
        assert(digit_val(digit_char(n as int)) == n);
    } else {
        lemma_dec_digits_val(n / 10);
        let x = dec_digits(n / 10);
        let c = digit_char((n % 10) as int);
        assert(x.push(c).drop_last() =~= x);
        assert(is_digit(c));
        assert(forall|i: int| 0 <= i < x.push(c).len() ==> is_digit(#[trigger] x.push(c)[i]));
        assert(digits_val(x.push(c)) == digits_val(x) * 10 + digit_val(c));
    }
}

/// Rendering a number in decimal and parsing the rendering back yields
/// the number again.
pub proof fn lemma_decimal_round_trip(v: i64)
    ensures
        parse_i64_spec(i64_dec_str(v as int)) == Some(v),
{
    if v >= 0 {
        lemma_dec_digits_val(v as nat);
        let s = dec_digits(v as nat);
        assert(is_digit(s[0]));
        assert(s[0] != '-' && s[0] != '+');
        assert(parse_i64_spec(s) == Some(v));
    } else {
        lemma_dec_digits_val((-v) as nat);
        let s = seq!['-'] + dec_digits((-v) as nat);
        assert(s[0] == '-');
        assert(s.skip(1) =~= dec_digits((-v) as nat));
        assert(parse_i64_spec(s) == Some(v));
    }
}

} // verus!
