//! Decimal strings: rendering integers as text and parsing them back.
//!
//! Results tables, error messages and cache paths all show numbers in
//! decimal, and test inputs carry expected results as decimal text, so both
//! directions are specified exactly and proved.

use vstd::prelude::*;

verus! {

/// The digit character for a value below ten.
pub open spec fn dec_digit_char(d: int) -> char {
    if d == 0 {
        '0'
    } else if d == 1 {
        '1'
    } else if d == 2 {
        '2'
    } else if d == 3 {
        '3'
    } else if d == 4 {
        '4'
    } else if d == 5 {
        '5'
    } else if d == 6 {
        '6'
    } else if d == 7 {
        '7'
    } else if d == 8 {
        '8'
    } else {
        '9'
    }
}

/// The decimal rendering of a natural number, without leading zeros.
pub open spec fn spec_u64_string(n: nat) -> Seq<char>
    decreases n,
{
    if n < 10 {
        seq![dec_digit_char(n as int)]
    } else {
        spec_u64_string(n / 10).push(dec_digit_char((n % 10) as int))
    }
}

/// The decimal rendering of an integer: a minus sign ahead of the magnitude.
pub open spec fn spec_i64_string(n: int) -> Seq<char> {
    if n < 0 {
        seq!['-'] + spec_u64_string((-n) as nat)
    } else {
        spec_u64_string(n as nat)
    }
}

/// Whether a character is a decimal digit.
pub open spec fn is_digit_char(c: char) -> bool {
    '0' <= c <= '9'
}

/// The value of a decimal digit character.
pub open spec fn digit_char_val(c: char) -> int {
    c as int - 48
}

/// The value of a sequence of digit characters, most significant first.
pub open spec fn seq_digits_val(s: Seq<char>) -> nat
    decreases s.len(),
{
    if s.len() == 0 {
        0
    } else {
        seq_digits_val(s.drop_last()) * 10 + (digit_char_val(s.last()) as nat)
    }
}

/// The digit characters of a sequence of digit values, least significant
/// digit last in `ds` becoming the last character.
pub open spec fn digits_rev_chars(ds: Seq<u8>) -> Seq<char> {
    Seq::new(ds.len(), |j: int| dec_digit_char(ds[ds.len() - 1 - j] as int))
}

/// Powers of ten.
pub open spec fn spec_pow10(d: nat) -> nat
    decreases d,
{
    if d == 0 {
        1
    } else {
        10 * spec_pow10((d - 1) as nat)
    }
}

/// A number below the `d`-th power of ten renders in at most `d` digits.
pub proof fn lemma_dec_len(n: nat, d: nat)
    requires
        d >= 1,
        n < spec_pow10(d),
    ensures
        1 <= spec_u64_string(n).len() <= d,
    decreases d,
{
    if n >= 10 {
        assert(spec_pow10(d) == 10 * spec_pow10((d - 1) as nat));
        if d == 1 {
            assert(spec_pow10(0) == 1);
        }
        assert(n / 10 < spec_pow10((d - 1) as nat)) by (nonlinear_arith)
            requires
                n < 10 * spec_pow10((d - 1) as nat),
        ;
        lemma_dec_len(n / 10, (d - 1) as nat);
    }
}

/// Any 64-bit number renders in at most twenty digits.
pub proof fn lemma_u64_string_len(n: u64)
    ensures
        1 <= spec_u64_string(n as nat).len() <= 20,
{
    assert(spec_pow10(20) == 100000000000000000000) by {
        reveal_with_fuel(spec_pow10, 21);
    }
    lemma_dec_len(n as nat, 20);
}

/// A one-character string for a digit value.
pub fn digit_str(d: u8) -> (r: &'static str)
    requires
        d < 10,
    ensures
        r@ =~= seq![dec_digit_char(d as int)],
{
    proof {
        reveal_strlit("0");
        reveal_strlit("1");
        reveal_strlit("2");
        reveal_strlit("3");
        reveal_strlit("4");
        reveal_strlit("5");
        reveal_strlit("6");
        reveal_strlit("7");
        reveal_strlit("8");
        reveal_strlit("9");
    }
    match d {
        0 => "0",
        1 => "1",
        2 => "2",
        3 => "3",
        4 => "4",
        5 => "5",
        6 => "6",
        7 => "7",
        8 => "8",
        _ => "9",
    }
}

/// Renders a natural number in decimal.
pub fn u64_to_string(n: u64) -> (r: String)
    ensures
        r@ == spec_u64_string(n as nat),
{
    let mut digits: Vec<u8> = Vec::new();
    let mut cur: u64 = n;
    loop
        invariant
            spec_u64_string(n as nat) =~= (if cur > 0 || digits.len() == 0 {
                spec_u64_string(cur as nat)
            } else {
                Seq::<char>::empty()
            }) + digits_rev_chars(digits@),
            digits.len() == 0 ==> cur == n,
            forall|i: int| 0 <= i < digits.len() ==> digits@[i] < 10,
        ensures
            cur == 0,
            digits.len() >= 1,
        decreases cur, (if digits.len() == 0 { 1int } else { 0int }),
    {
        if cur == 0 && digits.len() >= 1 {
            break ;
        }
        let d: u8 = (cur % 10) as u8;
        let ghost old_digits = digits@;
        let ghost old_cur = cur as nat;
        digits.push(d);
        cur = cur / 10;
        proof {
            assert(digits_rev_chars(old_digits.push(d)) =~= seq![dec_digit_char(d as int)]
                + digits_rev_chars(old_digits));
            if old_cur < 10 {
                assert(spec_u64_string(old_cur) =~= seq![dec_digit_char(d as int)]);
            } else {
                assert(spec_u64_string(old_cur) =~= spec_u64_string(old_cur / 10).push(
                    dec_digit_char((old_cur % 10) as int),
                ));
                assert(spec_u64_string(old_cur / 10).push(dec_digit_char(d as int))
                    =~= spec_u64_string(old_cur / 10) + seq![dec_digit_char(d as int)]);
            }
        }
    }
    let mut r = String::new();
    let mut i: usize = digits.len();
    while i > 0
        invariant
            i <= digits.len(),
            forall|k: int| 0 <= k < digits.len() ==> digits@[k] < 10,
            r@ =~= Seq::new(
                (digits.len() - i) as nat,
                |j: int| dec_digit_char(digits@[digits.len() - 1 - j] as int),
            ),
        decreases i,
    {
        i = i - 1;
        let s = digit_str(digits[i]);
        r.append(s);
    }
    proof {
        assert(r@ =~= digits_rev_chars(digits@));
    }
    r
}

/// Renders a signed integer in decimal.
pub fn i64_to_string(n: i64) -> (r: String)
    ensures
        r@ == spec_i64_string(n as int),
{
    if n < 0 {
        let mag: u64 = (-(n as i128)) as u64;
        let mut r = String::from_str("-");
        proof {
            reveal_strlit("-");
        }
        let m = u64_to_string(mag);
        r.append(m.as_str());
        proof {
            assert(r@ =~= seq!['-'] + spec_u64_string(mag as nat));
        }
        r
    } else {
        u64_to_string(n as u64)
    }
}

/// Renders an `i32` in decimal.
pub fn i32_to_string(n: i32) -> (r: String)
    ensures
        r@ == spec_i64_string(n as int),
{
    i64_to_string(n as i64)
}

/// Renders a `u8` in decimal.
pub fn u8_to_string(n: u8) -> (r: String)
    ensures
        r@ == spec_u64_string(n as nat),
{
    u64_to_string(n as u64)
}

/// The numeric value of a digit character, when there is one.
pub fn char_to_digit(c: char) -> (r: Option<u32>)
    ensures
        match r {
            Some(v) => is_digit_char(c) && v == digit_char_val(c) && v < 10,
            None => !is_digit_char(c),
        },
{
    if '0' <= c && c <= '9' {
        Some(c as u32 - 48)
    } else {
        None
    }
}

/// Whether a character sequence is an optionally signed run of digits.
pub open spec fn valid_int_literal(s: Seq<char>) -> bool {
    let body = int_literal_body(s);
    body.len() > 0 && (forall|i: int| 0 <= i < body.len() ==> is_digit_char(#[trigger] body[i]))
}

/// The digits of an integer literal, with any sign stripped.
pub open spec fn int_literal_body(s: Seq<char>) -> Seq<char> {
    if s.len() > 0 && (s[0] == '+' || s[0] == '-') {
        s.skip(1)
    } else {
        s
    }
}

/// The signed value of an integer literal.
pub open spec fn int_literal_val(s: Seq<char>) -> int {
    if s.len() > 0 && s[0] == '-' {
        -(seq_digits_val(int_literal_body(s)) as int)
    } else {
        seq_digits_val(int_literal_body(s)) as int
    }
}

/// Appending digits never lowers the value of a digit run.
proof fn lemma_digits_val_prefix_le(s: Seq<char>, n: int)
    requires
        0 <= n <= s.len(),
    ensures
        seq_digits_val(s.take(n)) <= seq_digits_val(s),
    decreases s.len() - n,
{
    if n < s.len() {
        lemma_digits_val_prefix_le(s, n + 1);
        assert(s.take(n + 1).drop_last() =~= s.take(n));
        assert(seq_digits_val(s.take(n + 1)) == seq_digits_val(s.take(n)) * 10 + (digit_char_val(
            s.take(n + 1).last(),
        ) as nat));
        assert(seq_digits_val(s.take(n)) <= seq_digits_val(s.take(n)) * 10);
    } else {
        assert(s.take(n) =~= s);
    }
}

/// Parses an optionally signed decimal integer, exactly when the text is a
/// well-formed literal whose value fits in `i32`.
pub fn parse_i32(s: &str) -> (r: Option<i32>)
    ensures
        match r {
            Some(v) => valid_int_literal(s@) && i32::MIN <= int_literal_val(s@) <= i32::MAX && v
                == int_literal_val(s@),
            None => !(valid_int_literal(s@) && i32::MIN <= int_literal_val(s@) <= i32::MAX),
        },
{
    let len = s.unicode_len();
    if len == 0 {
        return None;
    }
    let first = s.get_char(0);
    let negative = first == '-';
    let start: usize = if first == '-' || first == '+' {
        1
    } else {
        0
    };
    let ghost body = int_literal_body(s@);
    proof {
        assert(body =~= s@.skip(start as int));
    }
    if start >= len {
        return None;
    }
    let mut acc: i64 = 0;
    let mut i: usize = start;
    while i < len
        invariant
            start <= i <= len,
            len == s@.len(),
            start + body.len() == len,
            body == s@.skip(start as int),
            body == int_literal_body(s@),
            negative == (s@.len() > 0 && s@[0] == '-'),
            forall|k: int| start <= k < i ==> is_digit_char(#[trigger] s@[k]),
            acc == seq_digits_val(body.take(i - start)),
            0 <= acc <= 0x8000_0000,
        decreases len - i,
    {
        let c = s.get_char(i);
        let d = match char_to_digit(c) {
            Some(d) => d,
            None => {
                proof {
                    assert(body[i - start] == s@[i as int]);
                    assert(!is_digit_char(body[i - start]));
                    assert(!valid_int_literal(s@));
                }
                return None;
            },
        };
        proof {
            assert(body.take(i + 1 - start).drop_last() =~= body.take(i - start));
            assert(body[i - start] == s@[i as int]);
        }
        acc = acc * 10 + (d as i64);
        i = i + 1;
        if acc > 0x8000_0000 {
            // The value can only grow with further digits, so it cannot fit.
            proof {
                lemma_digits_val_prefix_le(body, i - start);
                assert(body.take(body.len() as int) =~= body);
                assert(seq_digits_val(body) > 0x8000_0000);
                assert(!(i32::MIN <= int_literal_val(s@) <= i32::MAX));
            }
            return None;
        }
    }
    proof {
        assert(body.take(body.len() as int) =~= body);
        assert forall|k: int| 0 <= k < body.len() implies is_digit_char(#[trigger] body[k]) by {
            assert(body[k] == s@[k + start]);
        }
    }
    if negative {
        let v: i64 = -acc;
        if v < -0x8000_0000i64 {
            return None;
        }
        Some(v as i32)
    } else {
        if acc > 0x7fff_ffffi64 {
            return None;
        }
        Some(acc as i32)
    }
}

} // verus!
