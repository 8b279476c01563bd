//! Decimal numbers as the profile store holds them: the parsing that
//! `str::parse::<u16>` does, and the formatting of unsigned numbers.
use vstd::prelude::*;
use vstd::string::*;

verus! {

broadcast use vstd::string::group_string_axioms;

/// An ASCII decimal digit, '0' (48) to '9' (57).
pub open spec fn is_digit(c: char) -> bool {
    48 <= (c as nat) && (c as nat) <= 57
}

pub open spec fn digit_value(c: char) -> nat {
    (c as nat - 48) as nat
}

pub open spec fn digit_char(d: nat) -> char {
    (d + 48) as char
}

pub open spec fn all_digits(s: Seq<char>) -> bool {
    forall|i: int| 0 <= i < s.len() ==> is_digit(#[trigger] s[i])
}

/// The number that a string of decimal digits stands for.
pub open spec fn decimal_value(s: Seq<char>) -> nat
    decreases s.len(),
{
    if s.len() == 0 {
        0
    } else {
        decimal_value(s.drop_last()) * 10 + digit_value(s.last())
    }
}

/// What `str::parse::<u16>` gives for a string: an optional `+`, then one
/// or more decimal digits whose value fits in a `u16`.
pub open spec fn parsed_u16(s: Seq<char>) -> Option<u16> {
    let digits = if s.len() > 0 && s[0] == '+' {
        s.drop_first()
    } else {
        s
    };
    if digits.len() > 0 && all_digits(digits) && decimal_value(digits) <= u16::MAX {
        Some(decimal_value(digits) as u16)
    } else {
        None
    }
}

/// The decimal digits of `n`, as `ToString` writes an unsigned number.
pub open spec fn decimal_digits(n: nat) -> Seq<char>
    decreases n,
{
    if n < 10 {
        seq![digit_char(n)]
    } else {
        decimal_digits(n / 10).push(digit_char(n % 10))
    }
}

pub proof fn lemma_decimal_value_grows(s: Seq<char>, i: int)
    requires
        0 <= i <= s.len(),
        all_digits(s),
    ensures
        decimal_value(s.subrange(0, i)) <= decimal_value(s),
    decreases s.len() - i,
{
    if i < s.len() {
        lemma_decimal_value_grows(s, i + 1);
        assert(s.subrange(0, i + 1).drop_last() =~= s.subrange(0, i));
    } else {
        assert(s.subrange(0, i) =~= s);
    }
}

/// The digits of a number read back as that number.
pub proof fn lemma_decimal_digits(n: nat)
    ensures
        all_digits(decimal_digits(n)),
        decimal_value(decimal_digits(n)) == n,
        decimal_digits(n).len() > 0,
        decimal_digits(n)[0] != '+',
    decreases n,
{
    if n >= 10 {
        lemma_decimal_digits(n / 10);
        let d = decimal_digits(n);
        assert(d.drop_last() =~= decimal_digits(n / 10));
        assert(digit_value(digit_char(n % 10)) == n % 10);
    } else {
        assert(digit_value(digit_char(n)) == n);
        assert(decimal_value(seq![digit_char(n)].drop_last()) == 0);
    }
}

/// A formatted `u16` parses back to the same number.
pub proof fn law_u16_format_parse_roundtrip(n: u16)
    ensures
        parsed_u16(decimal_digits(n as nat)) == Some(n),
{
    lemma_decimal_digits(n as nat);
}

pub proof fn lemma_ascii_char_byte(c: char)
    requires
        (c as nat) < 128,
    ensures
        (c as u8) as nat == c as nat,
{
}

pub proof fn lemma_ascii_char_bound(c: char)
    requires
        (c as nat) <= 127,
    ensures
        '\0' <= c <= '\u{7f}',
{
}

/// Parses a `u16` the way `str::parse::<u16>` does.
pub fn parse_u16(s: &str) -> (r: Option<u16>)
    ensures
        r == parsed_u16(s@),
{
    if !s.is_ascii() {
        proof {
            let digits = if s@.len() > 0 && s@[0] == '+' { s@.drop_first() } else { s@ };
            if digits.len() > 0 && all_digits(digits) {
                assert(('\u{7f}' as nat) == 127);
                assert forall|i: int| 0 <= i < s@.len() implies '\0' <= #[trigger] s@[i] <= '\u{7f}' by {
                    if s@.len() > 0 && s@[0] == '+' {
                        if i > 0 {
                            assert(s@[i] == digits[i - 1]);
                            lemma_ascii_char_bound(s@[i]);
                        } else {
                            lemma_ascii_char_bound('+');
                        }
                    } else {
                        assert(s@[i] == digits[i]);
                        lemma_ascii_char_bound(s@[i]);
                    }
                }
            }
        }
        return None;
    }
    let bytes = s.as_bytes();
    proof {
        is_ascii_spec_bytes(s);
    }
    assert(bytes@.len() == s@.len());
    let n = bytes.len();
    let mut i: usize = 0;
    if n > 0 {
        proof {
            lemma_ascii_char_byte(s@[0]);
        }
        assert(bytes@[0] == 43u8 <==> s@[0] == '+');
        if bytes[0] == 43u8 {
            i = 1;
        }
    }
    let start = i;
    let ghost digits = s@.subrange(start as int, s@.len() as int);
    assert(start == 1 ==> digits =~= s@.drop_first());
    assert(start == 0 ==> digits =~= s@);
    if start >= n {
        return None;
    }
    let mut v: u16 = 0;
    while i < n
        invariant
            start <= i <= n,
            n == s@.len(),
            n == bytes@.len(),
            start < n,
            digits == s@.subrange(start as int, n as int),
            start <= 1,
            (start == 1) == (s@.len() > 0 && s@[0] == '+'),
            start == 1 ==> digits == s@.drop_first(),
            start == 0 ==> digits == s@,
            forall|k: int| 0 <= k < n ==> bytes@[k] == s@[k] as u8,
            forall|k: int| 0 <= k < n ==> (s@[k] as nat) < 128,
            all_digits(s@.subrange(start as int, i as int)),
            v as nat == decimal_value(s@.subrange(start as int, i as int)),
        decreases n - i,
    {
        let b = bytes[i];
        proof {
            lemma_ascii_char_byte(s@[i as int]);
        }
        let ghost prefix = s@.subrange(start as int, i as int);
        let ghost next = s@.subrange(start as int, i + 1);
        assert(next.drop_last() =~= prefix);
        assert(next.last() == s@[i as int]);
        if b < 48u8 || b > 57u8 {
            proof {
                assert(!is_digit(s@[i as int]));
                assert(digits[i - start] == s@[i as int]);
            }
            return None;
        }
        let d: u16 = (b - 48u8) as u16;
        assert(digit_value(s@[i as int]) == d);
        assert(is_digit(s@[i as int]));
        assert(next =~= prefix.push(s@[i as int]));
        if v > 6553 || (v == 6553 && d > 5) {
            proof {
                assert(all_digits(next));
                assert(decimal_value(next) > u16::MAX);
                if all_digits(digits) {
                    assert(digits.subrange(0, i + 1 - start) =~= next);
                    lemma_decimal_value_grows(digits, i + 1 - start);
                }
            }
            return None;
        }
        v = v * 10 + d;
        i = i + 1;
    }
    Some(v)
}

/// The character of one decimal digit, as a string.
fn digit_str(d: u8) -> (r: &'static str)
    requires
        d < 10,
    ensures
        r@ == seq![digit_char(d as nat)],
{
    proof {
        reveal_strlit("0");
        reveal_strlit("1");
        reveal_strlit("2");
        reveal_strlit("3");
        reveal_strlit("4");
        reveal_strlit("5");
        reveal_strlit("6");
        reveal_strlit("7");
        reveal_strlit("8");
        reveal_strlit("9");
    }
    match d {
        0 => "0",
        1 => "1",
        2 => "2",
        3 => "3",
        4 => "4",
        5 => "5",
        6 => "6",
        7 => "7",
        8 => "8",
        _ => "9",
    }
}

/// Writes `n` in decimal, as `ToString` does for an unsigned number.
pub fn format_u64(n: u64) -> (r: String)
    ensures
        r@ == decimal_digits(n as nat),
{
    let mut rev: Vec<u8> = Vec::new();
    let mut m: u64 = n;
    rev.push((m % 10) as u8);
    m = m / 10;
    while m > 0
        invariant
            rev@.len() >= 1,
            forall|k: int| 0 <= k < rev@.len() ==> #[trigger] rev@[k] < 10,
            decimal_digits(n as nat) == (if m == 0 {
                Seq::<char>::empty()
            } else {
                decimal_digits(m as nat)
            }) + rev@.reverse().map_values(|d: u8| digit_char(d as nat)),
        decreases m,
    {
        let ghost before = rev@;
        rev.push((m % 10) as u8);
        assert(rev@.reverse() =~= seq![(m % 10) as u8] + before.reverse());
        assert(rev@.reverse().map_values(|d: u8| digit_char(d as nat)) =~= seq![digit_char((m % 10) as nat)]
            + before.reverse().map_values(|d: u8| digit_char(d as nat)));
        if m >= 10 {
            assert(decimal_digits(m as nat) =~= decimal_digits((m / 10) as nat).push(digit_char((m % 10) as nat)));
        } else {
            assert(decimal_digits(m as nat) =~= seq![digit_char((m % 10) as nat)]);
        }
        m = m / 10;
    }
    let mut out = String::new();
    let mut i: usize = rev.len();
    while i > 0
        invariant
            i <= rev@.len(),
            forall|k: int| 0 <= k < rev@.len() ==> #[trigger] rev@[k] < 10,
            out@ =~= rev@.subrange(i as int, rev@.len() as int).reverse().map_values(
                |d: u8| digit_char(d as nat),
            ),
        decreases i,
    {
        let ghost before = out@;
        out.append(digit_str(rev[i - 1]));
        assert(rev@.subrange(i - 1, rev@.len() as int).reverse() =~= rev@.subrange(
            i as int,
            rev@.len() as int,
        ).reverse().push(rev@[i - 1]));
        i = i - 1;
    }
    assert(rev@.subrange(0, rev@.len() as int) =~= rev@);
    out
}

} // verus!
