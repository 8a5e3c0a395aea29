use vstd::prelude::*;

verus! {

/// A decimal digit.
pub open spec fn is_digit_char(c: char) -> bool {
    '0' <= c && c <= '9'
}

/// The numeric value of one digit character.
pub open spec fn digit_value(c: char) -> int {
    c as int - 48
}

/// Every character of the sequence is a digit.
pub open spec fn all_digits(s: Seq<char>) -> bool {
    forall|i: int| 0 <= i < s.len() ==> is_digit_char(#[trigger] s[i])
}

/// The number a digit string denotes, read left to right.
pub open spec fn digits_value(s: Seq<char>) -> int
    decreases s.len(),
{
    if s.len() == 0 {
        0
    } else {
        digits_value(s.drop_last()) * 10 + digit_value(s.last())
    }
}

/// The index of the first '.', or the length when there is none.
pub open spec fn first_dot(s: Seq<char>) -> int
    decreases s.len(),
{
    if s.len() == 0 {
        0
    } else if s[0] == '.' {
        0
    } else {
        1 + first_dot(s.skip(1))
    }
}

/// A run of '0' characters.
pub open spec fn zeros(n: nat) -> Seq<char> {
    Seq::new(n, |i: int| '0')
}

/// A decimal-fixed-point literal with at most `frac` fraction digits:
/// a non-empty run of digits, optionally followed by '.' and another
/// non-empty run of at most `frac` digits.
pub open spec fn valid_decimal(s: Seq<char>, frac: nat) -> bool {
    let p = first_dot(s);
    &&& p >= 1
    &&& all_digits(s.take(p))
    &&& (p == s.len() || {
        &&& p + 1 < s.len()
        &&& all_digits(s.skip(p + 1))
        &&& s.skip(p + 1).len() <= frac
    })
}

/// All the digits of the literal with the fraction padded to exactly
/// `frac` digits: the digit string of the value scaled by ten to the
/// `frac`.
pub open spec fn padded_digits(s: Seq<char>, frac: nat) -> Seq<char> {
    let p = first_dot(s);
    if p == s.len() {
        s + zeros(frac)
    } else {
        s.take(p) + s.skip(p + 1) + zeros((frac - s.skip(p + 1).len()) as nat)
    }
}

/// The fixed-point value of the literal: its numeric value scaled by
/// ten to the `frac`.
pub open spec fn decimal_value(s: Seq<char>, frac: nat) -> int {
    digits_value(padded_digits(s, frac))
}

/// A digit string denotes a non-negative number.
proof fn lemma_digits_value_nonneg(s: Seq<char>)
    requires
        all_digits(s),
    ensures
        digits_value(s) >= 0,
    decreases s.len(),
{
    if s.len() > 0 {
        assert(all_digits(s.drop_last())) by {
            assert(forall|i: int|
                0 <= i < s.drop_last().len() ==> #[trigger] s.drop_last()[i] == s[i]);
        }
        lemma_digits_value_nonneg(s.drop_last());
    }
}

/// Reading more digits never shrinks the number: every prefix denotes
/// at most what the whole string denotes.
proof fn lemma_digits_value_prefix_le(s: Seq<char>, k: int)
    requires
        all_digits(s),
        0 <= k <= s.len(),
    ensures
        digits_value(s.take(k)) <= digits_value(s),
    decreases s.len(),
{
    if k == s.len() {
        assert(s.take(k) =~= s);
    } else {
        assert(all_digits(s.drop_last())) by {
            assert(forall|i: int|
                0 <= i < s.drop_last().len() ==> #[trigger] s.drop_last()[i] == s[i]);
        }
        assert(s.take(k) =~= s.drop_last().take(k));
        lemma_digits_value_prefix_le(s.drop_last(), k);
        lemma_digits_value_nonneg(s.drop_last());
        assert(digit_value(s.last()) >= 0);
    }
}

/// `first_dot` is characterized by what stands at and before it.
proof fn lemma_first_dot_of(s: Seq<char>, p: int)
    requires
        0 <= p <= s.len(),
        p < s.len() ==> s[p] == '.',
        forall|j: int| 0 <= j < p ==> s[j] != '.',
        p == s.len() ==> forall|j: int| 0 <= j < s.len() ==> s[j] != '.',
    ensures
        first_dot(s) == p,
    decreases s.len(),
{
    if s.len() == 0 {
    } else if s[0] == '.' {
        assert(p == 0);
    } else {
        assert(p >= 1);
        let rest = s.skip(1);
        assert forall|j: int| 0 <= j < p - 1 implies rest[j] != '.' by {
            assert(rest[j] == s[j + 1]);
        }
        if p - 1 < rest.len() {
            assert(rest[p - 1] == s[p]);
        } else {
            assert forall|j: int| 0 <= j < rest.len() implies rest[j] != '.' by {
                assert(rest[j] == s[j + 1]);
            }
        }
        lemma_first_dot_of(rest, p - 1);
    }
}

/// What stands at and before the first dot.
proof fn lemma_first_dot_props(s: Seq<char>)
    ensures
        0 <= first_dot(s) <= s.len(),
        first_dot(s) < s.len() ==> s[first_dot(s)] == '.',
        forall|j: int| 0 <= j < first_dot(s) ==> s[j] != '.',
    decreases s.len(),
{
    if s.len() == 0 {
    } else if s[0] == '.' {
    } else {
        let rest = s.skip(1);
        lemma_first_dot_props(rest);
        assert forall|j: int| 0 <= j < first_dot(s) implies s[j] != '.' by {
            if j > 0 {
                assert(rest[j - 1] == s[j]);
            }
        }
        if first_dot(s) < s.len() {
            assert(rest[first_dot(rest)] == s[first_dot(s)]);
        }
    }
}

/// One more digit folds in as a multiply-and-add.
proof fn lemma_digits_value_step(s: Seq<char>, k: int)
    requires
        0 <= k < s.len(),
    ensures
        digits_value(s.take(k + 1)) == digits_value(s.take(k)) * 10 + digit_value(s[k]),
{
    assert(s.take(k + 1).drop_last() =~= s.take(k));
    assert(s.take(k + 1).last() == s[k]);
}

/// Parse a decimal-fixed-point literal, scaling the value by ten to
/// the `frac_digits`: the integer part times the scale plus the
/// fraction padded to `frac_digits` digits. Returns the value exactly
/// when the literal is well formed and the scaled value fits; rejects
/// everything else.
pub fn parse_fixed_point(s: &str, frac_digits: usize) -> (result: Option<u64>)
    ensures
        match result {
            Some(v) => {
                &&& valid_decimal(s@, frac_digits as nat)
                &&& v as int == decimal_value(s@, frac_digits as nat)
            },
            None => !valid_decimal(s@, frac_digits as nat) || decimal_value(
                s@,
                frac_digits as nat,
            ) > u64::MAX,
        },
{
    broadcast use vstd::string::is_ascii_spec_bytes;

    let ghost frac = frac_digits as nat;
    if !s.is_ascii() {
        proof {
            let i = choose|i: int|
                0 <= i < s@.len() && !('\0' <= #[trigger] s@[i] <= '\u{7f}');
            let p = first_dot(s@);
            lemma_first_dot_props(s@);
            assert(s@[i] != '.');
            assert(!is_digit_char(s@[i]));
            if valid_decimal(s@, frac) {
                if i < p {
                    assert(s@.take(p)[i] == s@[i]);
                } else {
                    assert(i != p);
                    assert(p < i);
                    assert(p < s@.len());
                    assert(s@.skip(p + 1)[i - p - 1] == s@[i]);
                }
            }
        }
        return None;
    }
    let bytes = s.as_bytes();
    proof {
        vstd::utf8::is_ascii_chars_encode_utf8(s@);
    }
    let n = bytes.len();

    // Find the first '.', if any.
    let mut dot: usize = n;
    let mut i: usize = 0;
    while i < n
        invariant
            n == s@.len(),
            i <= n,
            dot <= n,
            bytes@.len() == s@.len(),
            vstd::utf8::is_ascii_chars(s@),
            forall|j: int| 0 <= j < s@.len() ==> s@[j] as u8 == bytes@[j],
            dot == n ==> forall|j: int| 0 <= j < i ==> s@[j] != '.',
            dot < n ==> dot < i && s@[dot as int] == '.' && (forall|j: int|
                0 <= j < dot ==> s@[j] != '.'),
        decreases n - i,
    {
        let b = bytes[i];
        proof {
            assert(s@[i as int] as u8 == b);
            assert('\0' <= s@[i as int] <= '\u{7f}');
            if b == 46 {
                assert(s@[i as int] as int == 46);
                assert(s@[i as int] == '.');
            } else {
                assert(s@[i as int] as int != 46);
                assert(s@[i as int] != '.');
            }
        }
        if b == 46 && dot == n {
            dot = i;
        }
        i = i + 1;
    }
    proof {
        lemma_first_dot_of(s@, dot as int);
    }
    let ghost p = first_dot(s@);

    // Grammar: a non-empty integer part of digits.
    if dot == 0 {
        return None;
    }
    let mut j: usize = 0;
    while j < dot
        invariant
            n == s@.len(),
            dot <= n,
            j <= dot,
            p == dot as int,
            p == first_dot(s@),
            frac == frac_digits as nat,
            bytes@.len() == s@.len(),
            vstd::utf8::is_ascii_chars(s@),
            forall|k: int| 0 <= k < s@.len() ==> s@[k] as u8 == bytes@[k],
            forall|k: int| 0 <= k < j ==> is_digit_char(#[trigger] s@[k]),
        decreases dot - j,
    {
        let b = bytes[j];
        proof {
            assert(s@[j as int] as u8 == b);
            assert('\0' <= s@[j as int] <= '\u{7f}');
        }
        if b < 48 || b > 57 {
            proof {
                assert(!is_digit_char(s@[j as int]));
                assert(s@.take(p)[j as int] == s@[j as int]);
            }
            return None;
        }
        proof {
            assert(is_digit_char(s@[j as int]));
        }
        j = j + 1;
    }
    proof {
        assert forall|k: int| 0 <= k < s@.take(p).len() implies is_digit_char(
            #[trigger] s@.take(p)[k],
        ) by {
            assert(s@.take(p)[k] == s@[k]);
        }
    }

    // Grammar: if a dot stands there, a non-empty fraction of at most
    // `frac_digits` digits follows it.
    let frac_len: usize = if dot < n {
        let len = n - dot - 1;
        if len == 0 {
            return None;
        }
        if len > frac_digits {
            proof {
                assert(s@.skip(p + 1).len() > frac);
            }
            return None;
        }
        let mut j2: usize = dot + 1;
        while j2 < n
            invariant
                n == s@.len(),
                dot < n,
                dot + 1 <= j2 <= n,
                p == dot as int,
                p == first_dot(s@),
                frac == frac_digits as nat,
                bytes@.len() == s@.len(),
                vstd::utf8::is_ascii_chars(s@),
                forall|k: int| 0 <= k < s@.len() ==> s@[k] as u8 == bytes@[k],
                forall|k: int| dot < k < j2 ==> is_digit_char(#[trigger] s@[k]),
            decreases n - j2,
        {
            let b = bytes[j2];
            proof {
                assert(s@[j2 as int] as u8 == b);
                assert('\0' <= s@[j2 as int] <= '\u{7f}');
            }
            if b < 48 || b > 57 {
                proof {
                    assert(!is_digit_char(s@[j2 as int]));
                    assert(s@.skip(p + 1)[j2 - p - 1] == s@[j2 as int]);
                }
                return None;
            }
            proof {
                assert(is_digit_char(s@[j2 as int]));
            }
            j2 = j2 + 1;
        }
        proof {
            assert forall|k: int| 0 <= k < s@.skip(p + 1).len() implies is_digit_char(
                #[trigger] s@.skip(p + 1)[k],
            ) by {
                assert(s@.skip(p + 1)[k] == s@[k + p + 1]);
            }
        }
        len
    } else {
        0
    };
    assert(valid_decimal(s@, frac));

    let ghost digits = padded_digits(s@, frac);
    proof {
        assert forall|k: int| 0 <= k < digits.len() implies is_digit_char(
            #[trigger] digits[k],
        ) by {
            if dot < n {
                if k < p {
                    assert(digits[k] == s@.take(p)[k]);
                } else if k < p + (n - dot - 1) {
                    assert(digits[k] == s@.skip(p + 1)[k - p]);
                } else {
                    assert(digits[k] == zeros((frac - (n - dot - 1) as nat) as nat)[k - p - (n - dot
                        - 1)]);
                }
            } else {
                if k < n {
                    assert(digits[k] == s@[k]);
                } else {
                    assert(digits[k] == zeros(frac)[k - n]);
                }
            }
        }
        assert(digits.len() == dot + frac);
    }

    // Fold the padded digits into the scaled value, rejecting it as
    // soon as it cannot fit.
    let mut acc: u128 = 0;
    let limit: u128 = u64::MAX as u128;
    proof {
        assert(digits.take(0) =~= Seq::<char>::empty());
    }

    // The integer part.
    let mut k: usize = 0;
    while k < dot
        invariant
            n == s@.len(),
            dot <= n,
            k <= dot,
            p == dot as int,
            valid_decimal(s@, frac),
            digits == padded_digits(s@, frac),
            all_digits(digits),
            digits.len() == dot + frac,
            frac == frac_digits as nat,
            bytes@.len() == s@.len(),
            vstd::utf8::is_ascii_chars(s@),
            forall|t: int| 0 <= t < s@.len() ==> s@[t] as u8 == bytes@[t],
            forall|t: int| 0 <= t < dot ==> digits[t] == s@[t],
            acc <= limit,
            limit == u64::MAX as u128,
            acc as int == digits_value(digits.take(k as int)),
        decreases dot - k,
    {
        let b = bytes[k];
        proof {
            assert(s@[k as int] as u8 == b);
            assert('\0' <= s@[k as int] <= '\u{7f}');
            assert(digits[k as int] == s@[k as int]);
            assert(is_digit_char(digits[k as int]));
            assert(digit_value(digits[k as int]) == b - 48);
            lemma_digits_value_step(digits, k as int);
        }
        let d = (b - 48) as u128;
        let next = acc * 10 + d;
        if next > limit {
            proof {
                lemma_digits_value_prefix_le(digits, k as int + 1);
            }
            return None;
        }
        acc = next;
        k = k + 1;
    }

    // The fraction digits, when a dot stands there.
    if dot < n {
        let mut k2: usize = dot + 1;
        while k2 < n
            invariant
                n == s@.len(),
                dot < n,
                dot + 1 <= k2 <= n,
                p == dot as int,
                valid_decimal(s@, frac),
                digits == padded_digits(s@, frac),
                all_digits(digits),
                digits.len() == dot + frac,
                frac == frac_digits as nat,
                bytes@.len() == s@.len(),
                vstd::utf8::is_ascii_chars(s@),
                forall|t: int| 0 <= t < s@.len() ==> s@[t] as u8 == bytes@[t],
                forall|t: int| p < t < n ==> digits[t - 1] == s@[t],
                acc <= limit,
                limit == u64::MAX as u128,
                acc as int == digits_value(digits.take(k2 - 1)),
            decreases n - k2,
        {
            let b = bytes[k2];
            proof {
                assert(s@[k2 as int] as u8 == b);
                assert('\0' <= s@[k2 as int] <= '\u{7f}');
                assert(digits[k2 - 1] == s@[k2 as int]);
                assert(is_digit_char(digits[k2 - 1]));
                assert(digit_value(digits[k2 - 1]) == b - 48);
                lemma_digits_value_step(digits, k2 - 1);
            }
            let d = (b - 48) as u128;
            let next = acc * 10 + d;
            if next > limit {
                proof {
                    lemma_digits_value_prefix_le(digits, k2 as int);
                }
                return None;
            }
            acc = next;
            k2 = k2 + 1;
        }
    }

    // The padding zeros.
    let done: usize = if dot < n {
        n - 1
    } else {
        n
    };
    let mut k3: usize = 0;
    let pad: usize = frac_digits - frac_len;
    proof {
        assert(done + pad == digits.len());
        assert forall|t: int| done <= t < digits.len() implies digits[t] == '0' by {
            if dot < n {
                assert(digits[t] == zeros((frac - (n - dot - 1) as nat) as nat)[t - p - (n - dot
                    - 1)]);
            } else {
                assert(digits[t] == zeros(frac)[t - n]);
            }
        }
    }
    while k3 < pad
        invariant
            k3 <= pad,
            frac == frac_digits as nat,
            valid_decimal(s@, frac),
            digits == padded_digits(s@, frac),
            all_digits(digits),
            done + pad == digits.len(),
            forall|t: int| done <= t < digits.len() ==> digits[t] == '0',
            acc <= limit,
            limit == u64::MAX as u128,
            acc as int == digits_value(digits.take(done + k3)),
        decreases pad - k3,
    {
        proof {
            assert(digits[done + k3] == '0');
            assert(digit_value(digits[done + k3]) == 0);
            lemma_digits_value_step(digits, done as int + k3 as int);
        }
        let next = acc * 10;
        if next > limit {
            proof {
                lemma_digits_value_prefix_le(digits, done as int + k3 as int + 1);
            }
            return None;
        }
        acc = next;
        k3 = k3 + 1;
    }
    proof {
        assert(digits.take(digits.len() as int) =~= digits);
    }
    Some(acc as u64)
}

} // verus!
