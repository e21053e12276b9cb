//! Decimal text for 32-bit integers: rendering a value as its decimal
//! string, and reading a token as a signed 32-bit literal, both against
//! exact specifications of the decimal notation.

use vstd::prelude::*;

verus! {

/// Whether a character is a decimal digit.
pub open spec fn is_digit(c: char) -> bool {
    48 <= c as u32 <= 57
}

/// The numeric value of a digit character.
pub open spec fn digit_val(c: char) -> nat
    recommends
        is_digit(c),
{
    ((c as u32) - 48) as nat
}

/// The digit character for a value below ten.
pub open spec fn digit_char(d: nat) -> char
    recommends
        d < 10,
{
    if d == 0 {
        '0'
    } else if d == 1 {
        '1'
    } else if d == 2 {
        '2'
    } else if d == 3 {
        '3'
    } else if d == 4 {
        '4'
    } else if d == 5 {
        '5'
    } else if d == 6 {
        '6'
    } else if d == 7 {
        '7'
    } else if d == 8 {
        '8'
    } else {
        '9'
    }
}

/// The decimal rendering of a natural number, without sign and without
/// leading zeros (a single `'0'` for zero).
pub open spec fn dec_str(n: nat) -> Seq<char>
    decreases n,
{
    if n < 10 {
        seq![digit_char(n)]
    } else {
        dec_str(n / 10).push(digit_char(n % 10))
    }
}

/// The decimal rendering of a signed 32-bit integer: a leading `'-'` for
/// negative values, then the rendering of the magnitude.
pub open spec fn int_str(n: i32) -> Seq<char> {
    if n < 0 {
        seq!['-'] + dec_str((-(n as int)) as nat)
    } else {
        dec_str(n as nat)
    }
}

/// Whether every character of a string is a decimal digit.
pub open spec fn all_digits(t: Seq<char>) -> bool {
    forall|i: int| 0 <= i < t.len() ==> is_digit(t[i])
}

/// The value of a digit string read in base ten.
pub open spec fn digits_val(t: Seq<char>) -> nat
    decreases t.len(),
{
    if t.len() == 0 {
        0
    } else {
        digits_val(t.drop_last()) * 10 + digit_val(t.last())
    }
}

/// The digits of an optionally signed token: everything after one leading
/// `'-'` or `'+'`, or the whole token if it has no sign.
pub open spec fn int_token_body(t: Seq<char>) -> Seq<char> {
    if t.len() >= 1 && (t[0] == '-' || t[0] == '+') {
        t.drop_first()
    } else {
        t
    }
}

/// The sign an optionally signed token denotes.
pub open spec fn int_token_sign(t: Seq<char>) -> int {
    if t.len() >= 1 && t[0] == '-' {
        -1
    } else {
        1
    }
}

/// The integer an optionally signed digit token denotes.
pub open spec fn int_token_val(t: Seq<char>) -> int {
    int_token_sign(t) * digits_val(int_token_body(t))
}

/// Whether a token is a signed 32-bit decimal literal: an optional sign,
/// at least one digit, nothing else, and a value in the 32-bit range.
pub open spec fn is_int_token(t: Seq<char>) -> bool {
    let body = int_token_body(t);
    body.len() >= 1 && all_digits(body) && -2147483648 <= int_token_val(t) <= 2147483647
}

/// Prefixes of a digit string never exceed the whole string's value.
proof fn lemma_digits_val_prefix_le(t: Seq<char>, k: int)
    requires
        0 <= k <= t.len(),
    ensures
        digits_val(t.take(k)) <= digits_val(t),
    decreases t.len() - k,
{
    if k < t.len() {
        lemma_digits_val_prefix_le(t, k + 1);
        assert(t.take(k + 1).drop_last() =~= t.take(k));
        assert(digits_val(t.take(k + 1)) == digits_val(t.take(k)) * 10 + digit_val(
            t.take(k + 1).last(),
        ));
    } else {
        assert(t.take(k) =~= t);
    }
}

/// Appends one character to a string.
///
/// Relies on `String::push`: the character is appended at the end.
#[verifier::external_body]
pub(crate) fn push_char(s: &mut String, c: char)
    ensures
        final(s)@ == old(s)@.push(c),
{
    s.push(c)
}

/// The decimal digit character of a value below ten.
fn digit_to_char(d: u32) -> (c: char)
    requires
        d < 10,
    ensures
        c == digit_char(d as nat),
{
    if d == 0 {
        '0'
    } else if d == 1 {
        '1'
    } else if d == 2 {
        '2'
    } else if d == 3 {
        '3'
    } else if d == 4 {
        '4'
    } else if d == 5 {
        '5'
    } else if d == 6 {
        '6'
    } else if d == 7 {
        '7'
    } else if d == 8 {
        '8'
    } else {
        '9'
    }
}

/// Renders an unsigned 32-bit value in decimal.
fn u32_dec(n: u32) -> (s: String)
    ensures
        s@ == dec_str(n as nat),
    decreases n,
{
    if n < 10 {
        let mut s = String::new();
        push_char(&mut s, digit_to_char(n));
        proof {
            assert(s@ =~= dec_str(n as nat));
        }
        s
    } else {
        let mut s = u32_dec(n / 10);
        push_char(&mut s, digit_to_char(n % 10));
        s
    }
}

/// Renders a signed 32-bit integer in decimal.
pub fn i32_to_string(n: i32) -> (s: String)
    ensures
        s@ == int_str(n),
{
    if n >= 0 {
        u32_dec(n as u32)
    } else {
        let magnitude: u32 = (-(n as i64)) as u32;
        let mut s = String::from_str("-");
        let digits = u32_dec(magnitude);
        s.append(digits.as_str());
        proof {
            reveal_strlit("-");
            assert(s@ =~= int_str(n));
        }
        s
    }
}

/// Reads a token as a signed 32-bit decimal literal, exactly when it is
/// one.
pub fn parse_i32(s: &str) -> (r: Option<i32>)
    ensures
        r == (if is_int_token(s@) {
            Some(int_token_val(s@) as i32)
        } else {
            None::<i32>
        }),
{
    let n = s.unicode_len();
    let ghost body = int_token_body(s@);
    let mut i: usize = 0;
    let mut negative: bool = false;
    if n >= 1 {
        let c0 = s.get_char(0);
        if c0 == '-' {
            negative = true;
            i = 1;
        } else if c0 == '+' {
            i = 1;
        }
    }
    proof {
        assert(body =~= s@.skip(i as int));
        assert(negative == (int_token_sign(s@) == -1));
    }
    if i >= n {
        // no digits at all
        assert(body.len() == 0);
        return None;
    }
    let mut acc: u64 = 0;
    let mut j: usize = i;
    while j < n
        invariant
            i <= j <= n,
            i < n,
            n == s@.len(),
            body == int_token_body(s@),
            body == s@.skip(i as int),
            negative == (int_token_sign(s@) == -1),
            acc <= 2147483648,
            acc == digits_val(s@.subrange(i as int, j as int)),
            all_digits(s@.subrange(i as int, j as int)),
        decreases n - j,
    {
        let c = s.get_char(j);
        let cu = c as u32;
        if cu < 48 || cu > 57 {
            // a non-digit inside the body: not an integer literal
            assert(body[j - i] == s@[j as int]);
            assert(!is_int_token(s@));
            return None;
        }
        let d = (cu - 48) as u64;
        proof {
            let pre = s@.subrange(i as int, j as int);
            let post = s@.subrange(i as int, j as int + 1);
            assert(post.drop_last() =~= pre);
            assert(post.last() == s@[j as int]);
        }
        acc = acc * 10 + d;
        j += 1;
        if acc > 2147483648 {
            // the magnitude already exceeds the 32-bit range, and appending
            // further digits can only grow it
            proof {
                let pre = s@.subrange(i as int, j as int);
                assert(pre =~= body.take(j - i));
                lemma_digits_val_prefix_le(body, j - i);
                assert(digits_val(body) > 2147483648);
                assert(!is_int_token(s@));
            }
            return None;
        }
    }
    proof {
        assert(s@.subrange(i as int, n as int) =~= body);
    }
    if negative {
        proof {
            assert(int_token_val(s@) == -(digits_val(body) as int));
            assert(is_int_token(s@));
        }
        Some((-(acc as i64)) as i32)
    } else {
        if acc > 2147483647 {
            assert(!is_int_token(s@));
            None
        } else {
            proof {
                assert(int_token_val(s@) == digits_val(body) as int);
                assert(is_int_token(s@));
            }
            Some(acc as i32)
        }
    }
}

} // verus!
