use vstd::prelude::*;

verus! {

/// Relies on std's `String::push`: it appends exactly the given
/// character to the end of the string.
#[verifier::external_body]
pub(crate) fn push_char(s: &mut String, c: char)
    ensures
        final(s)@ == old(s)@.push(c),
{
    s.push(c)
}

/// Relies on std's `String::push_str`: it appends exactly the given
/// slice to the end of the string.
#[verifier::external_body]
pub(crate) fn push_str(s: &mut String, t: &str)
    ensures
        final(s)@ == old(s)@ + t@,
{
    s.push_str(t)
}

/// The character for one decimal digit.
pub open spec fn dec_digit(d: nat) -> char
    recommends
        d < 10,
{
    if d == 0 {
        '0'
    } else if d == 1 {
        '1'
    } else if d == 2 {
        '2'
    } else if d == 3 {
        '3'
    } else if d == 4 {
        '4'
    } else if d == 5 {
        '5'
    } else if d == 6 {
        '6'
    } else if d == 7 {
        '7'
    } else if d == 8 {
        '8'
    } else {
        '9'
    }
}

/// The decimal rendering of a natural number, most significant digit
/// first, without leading zeros (zero itself renders as "0").
pub open spec fn dec_of(n: nat) -> Seq<char>
    decreases n,
{
    if n < 10 {
        seq![dec_digit(n)]
    } else {
        dec_of(n / 10).push(dec_digit(n % 10))
    }
}

/// The decimal rendering of an integer: a leading minus sign for
/// negative values, plain digits otherwise.
pub open spec fn dec_of_int(v: int) -> Seq<char> {
    if v >= 0 {
        dec_of(v as nat)
    } else {
        seq!['-'] + dec_of((-v) as nat)
    }
}

/// A character that can stand inside a JSON string literal as it is:
/// printable ASCII that is neither the quote nor the backslash.
pub open spec fn plain_char(c: char) -> bool {
    ' ' <= c && c <= '~' && c != '"' && c != '\\'
}

/// Every character of the sequence is plain.
pub open spec fn plain_text(s: Seq<char>) -> bool {
    forall|i: int| 0 <= i < s.len() ==> plain_char(#[trigger] s[i])
}

/// Concatenation keeps plainness.
pub proof fn lemma_plain_concat(a: Seq<char>, b: Seq<char>)
    requires
        plain_text(a),
        plain_text(b),
    ensures
        plain_text(a + b),
{
    assert forall|i: int| 0 <= i < (a + b).len() implies plain_char(#[trigger] (a + b)[i]) by {
        if i < a.len() {
            assert((a + b)[i] == a[i]);
        } else {
            assert((a + b)[i] == b[i - a.len()]);
        }
    }
}

/// Every character of a decimal rendering is a plain digit.
pub proof fn lemma_dec_of_plain(n: nat)
    ensures
        plain_text(dec_of(n)),
    decreases n,
{
    if n < 10 {
    } else {
        lemma_dec_of_plain(n / 10);
        assert forall|i: int| 0 <= i < dec_of(n).len() implies plain_char(
            #[trigger] dec_of(n)[i],
        ) by {
            if i < dec_of(n / 10).len() {
                assert(dec_of(n)[i] == dec_of(n / 10)[i]);
            }
        }
    }
}

/// The character for one decimal digit, as executable code.
fn digit_char(d: u8) -> (c: char)
    requires
        d < 10,
    ensures
        c == dec_digit(d as nat),
{
    if d == 0 {
        '0'
    } else if d == 1 {
        '1'
    } else if d == 2 {
        '2'
    } else if d == 3 {
        '3'
    } else if d == 4 {
        '4'
    } else if d == 5 {
        '5'
    } else if d == 6 {
        '6'
    } else if d == 7 {
        '7'
    } else if d == 8 {
        '8'
    } else {
        '9'
    }
}

/// Render an unsigned number in decimal.
pub fn fmt_u128(n: u128) -> (r: String)
    ensures
        r@ == dec_of(n as nat),
        plain_text(r@),
    decreases n,
{
    proof {
        lemma_dec_of_plain(n as nat);
    }
    if n < 10 {
        let mut s = String::new();
        push_char(&mut s, digit_char(n as u8));
        proof {
            assert(s@ =~= dec_of(n as nat));
        }
        s
    } else {
        let mut s = fmt_u128(n / 10);
        push_char(&mut s, digit_char((n % 10) as u8));
        s
    }
}

/// Render a signed number in decimal, with a leading minus sign when
/// it is negative.
pub fn fmt_i64(n: i64) -> (r: String)
    ensures
        r@ == dec_of_int(n as int),
        plain_text(r@),
{
    if n >= 0 {
        fmt_u128(n as u128)
    } else {
        let mut s = String::new();
        push_char(&mut s, '-');
        let mag: u128 = (-(n as i128)) as u128;
        let digits = fmt_u128(mag);
        push_str(&mut s, digits.as_str());
        proof {
            assert(s@ =~= seq!['-'] + dec_of(mag as nat));
            lemma_plain_concat(seq!['-'], dec_of(mag as nat));
        }
        s
    }
}

/// Decide whether every character of the string is plain, exactly as
/// `plain_text` states it.
pub fn is_plain(s: &str) -> (result: bool)
    ensures
        result == plain_text(s@),
{
    broadcast use vstd::string::is_ascii_spec_bytes;

    if !s.is_ascii() {
        proof {
            let i = choose|i: int|
                0 <= i < s@.len() && !('\0' <= #[trigger] s@[i] <= '\u{7f}');
            assert(!plain_char(s@[i]));
        }
        return false;
    }
    let bytes = s.as_bytes();
    proof {
        vstd::utf8::is_ascii_chars_encode_utf8(s@);
    }
    let n = bytes.len();
    for i in 0..n
        invariant
            n == bytes@.len(),
            bytes@.len() == s@.len(),
            vstd::utf8::is_ascii_chars(s@),
            forall|j: int| 0 <= j < s@.len() ==> s@[j] as u8 == bytes@[j],
            forall|j: int| 0 <= j < i ==> plain_char(#[trigger] s@[j]),
    {
        let b = bytes[i];
        if b < 32 || b > 126 || b == 34 || b == 92 {
            proof {
                assert(s@[i as int] as u8 == b);
                assert('\0' <= s@[i as int] <= '\u{7f}');
                assert(!plain_char(s@[i as int]));
            }
            return false;
        }
        proof {
            assert(s@[i as int] as u8 == b);
            assert('\0' <= s@[i as int] <= '\u{7f}');
            assert(plain_char(s@[i as int]));
        }
    }
    true
}

} // verus!
