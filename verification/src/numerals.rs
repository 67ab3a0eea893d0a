//! Decimal numerals: rendering unsigned values, zero-padding for enumerated
//! lists, and parsing operator input for ports and selection indices.

use vstd::prelude::*;

verus! {

/// The character for one decimal digit.
pub open spec fn digit_char(d: int) -> char {
    if d == 0 {
        '0'
    } else if d == 1 {
        '1'
    } else if d == 2 {
        '2'
    } else if d == 3 {
        '3'
    } else if d == 4 {
        '4'
    } else if d == 5 {
        '5'
    } else if d == 6 {
        '6'
    } else if d == 7 {
        '7'
    } else if d == 8 {
        '8'
    } else {
        '9'
    }
}

/// The decimal numeral of `n`, most significant digit first, no sign and no
/// leading zero (a single `0` for zero itself).
pub open spec fn dec_digits(n: nat) -> Seq<char>
    decreases n,
{
    if n < 10 {
        seq![digit_char(n as int)]
    } else {
        dec_digits(n / 10) + seq![digit_char((n % 10) as int)]
    }
}

/// How many digits the loop `while n > 0 { n /= 10 }` sees: zero for zero.
pub open spec fn count_digits(n: nat) -> nat
    decreases n,
{
    if n == 0 {
        0
    } else {
        1 + count_digits(n / 10)
    }
}

/// Digit counts never exceed the value itself.
proof fn lemma_count_digits_le(n: nat)
    ensures
        count_digits(n) <= n,
    decreases n,
{
    if n > 0 {
        lemma_count_digits_le(n / 10);
    }
}

/// Whether a character is a decimal digit.
pub open spec fn is_digit(c: char) -> bool {
    c == '0' || c == '1' || c == '2' || c == '3' || c == '4' || c == '5' || c == '6' || c == '7'
        || c == '8' || c == '9'
}

/// The value of a digit character; zero for anything else.
pub open spec fn digit_val(c: char) -> nat {
    if c == '1' {
        1
    } else if c == '2' {
        2
    } else if c == '3' {
        3
    } else if c == '4' {
        4
    } else if c == '5' {
        5
    } else if c == '6' {
        6
    } else if c == '7' {
        7
    } else if c == '8' {
        8
    } else if c == '9' {
        9
    } else {
        0
    }
}

/// Whether every character of `s` is a decimal digit.
pub open spec fn all_digits(s: Seq<char>) -> bool {
    forall|i: int| 0 <= i < s.len() ==> is_digit(s[i])
}

/// The value of a digit string, most significant digit first.
pub open spec fn dec_val(s: Seq<char>) -> nat
    decreases s.len(),
{
    if s.len() == 0 {
        0
    } else {
        dec_val(s.drop_last()) * 10 + digit_val(s.last())
    }
}

/// What `str::parse` accepts for an unsigned integer, bounds aside: an
/// optional leading plus sign followed by one or more decimal digits.
pub open spec fn parse_dec_spec(s: Seq<char>) -> Option<nat> {
    let t = if s.len() > 0 && s[0] == '+' {
        s.skip(1)
    } else {
        s
    };
    if t.len() > 0 && all_digits(t) {
        Some(dec_val(t))
    } else {
        None
    }
}

/// Reading one more digit multiplies the value by ten and adds the digit.
proof fn lemma_dec_val_step(s: Seq<char>, i: int)
    requires
        0 <= i < s.len(),
    ensures
        dec_val(s.take(i + 1)) == dec_val(s.take(i)) * 10 + digit_val(s[i]),
{
    assert(s.take(i + 1).drop_last() =~= s.take(i));
    assert(s.take(i + 1).last() == s[i]);
}

/// The value of a digit string is at least the value of any of its prefixes.
proof fn lemma_dec_val_prefix(s: Seq<char>, i: int)
    requires
        0 <= i <= s.len(),
    ensures
        dec_val(s.take(i)) <= dec_val(s),
    decreases s.len() - i,
{
    if i < s.len() {
        lemma_dec_val_step(s, i);
        lemma_dec_val_prefix(s, i + 1);
    } else {
        assert(s.take(i) =~= s);
    }
}

/// The numeral of one digit.
fn digit_to_str(d: u64) -> (r: &'static str)
    requires
        d < 10,
    ensures
        r@ == seq![digit_char(d as int)],
{
    proof {
        reveal_strlit("0");
        reveal_strlit("1");
        reveal_strlit("2");
        reveal_strlit("3");
        reveal_strlit("4");
        reveal_strlit("5");
        reveal_strlit("6");
        reveal_strlit("7");
        reveal_strlit("8");
        reveal_strlit("9");
    }
    let r: &'static str = match d {
        0 => "0",
        1 => "1",
        2 => "2",
        3 => "3",
        4 => "4",
        5 => "5",
        6 => "6",
        7 => "7",
        8 => "8",
        _ => "9",
    };
    proof {
        assert(r@ =~= seq![digit_char(d as int)]);
    }
    r
}

/// Renders `n` in decimal.
pub fn u64_to_dec(n: u64) -> (r: String)
    ensures
        r@ == dec_digits(n as nat),
    decreases n,
{
    if n < 10 {
        String::from_str(digit_to_str(n))
    } else {
        let mut prefix = u64_to_dec(n / 10);
        prefix.append(digit_to_str(n % 10));
        prefix
    }
}

/// The index width for an enumerated list of `len` entries: the digit count
/// of `len`, and zero when the list is empty.
pub fn index_width(len: usize) -> (w: usize)
    ensures
        w == count_digits(len as nat),
{
    let mut n = len;
    let mut w: usize = 0;
    proof {
        lemma_count_digits_le(len as nat);
    }
    while n > 0
        invariant
            w + count_digits(n as nat) == count_digits(len as nat),
            count_digits(len as nat) <= len,
        decreases n,
    {
        n = n / 10;
        w = w + 1;
    }
    w
}

/// Renders `n` in decimal, left-padded with zeros to `width` characters when
/// the numeral is shorter.
pub open spec fn zero_padded_dec(n: nat, width: nat) -> Seq<char> {
    if dec_digits(n).len() >= width {
        dec_digits(n)
    } else {
        Seq::new((width - dec_digits(n).len()) as nat, |i: int| '0') + dec_digits(n)
    }
}

/// Renders `n` in decimal, zero-padded to `width`.
pub fn u64_to_dec_padded(n: u64, width: usize) -> (r: String)
    ensures
        r@ == zero_padded_dec(n as nat, width as nat),
{
    let digits = u64_to_dec(n);
    let len = digits.as_str().unicode_len();
    if len >= width {
        proof {
            assert(digits@ =~= zero_padded_dec(n as nat, width as nat));
        }
        digits
    } else {
        let mut r = String::new();
        let mut i: usize = 0;
        proof {
            reveal_strlit("0");
        }
        while i < width - len
            invariant
                len < width,
                i <= width - len,
                r@ =~= Seq::new(i as nat, |k: int| '0'),
            decreases width - len - i,
        {
            r.append("0");
            proof {
                reveal_strlit("0");
                assert(r@ =~= Seq::new((i + 1) as nat, |k: int| '0'));
            }
            i += 1;
        }
        r.append(digits.as_str());
        proof {
            assert(r@ =~= zero_padded_dec(n as nat, width as nat));
        }
        r
    }
}

/// Reads a digit character.
fn char_to_digit(c: char) -> (r: Option<u64>)
    ensures
        r is Some <==> is_digit(c),
        r matches Some(d) ==> d == digit_val(c) && d < 10,
{
    match c {
        '0' => Some(0),
        '1' => Some(1),
        '2' => Some(2),
        '3' => Some(3),
        '4' => Some(4),
        '5' => Some(5),
        '6' => Some(6),
        '7' => Some(7),
        '8' => Some(8),
        '9' => Some(9),
        _ => None,
    }
}

/// Parses an unsigned decimal numeral as `str::parse::<u64>` does: an
/// optional plus sign, then digits; rejects anything else and values beyond
/// the range of `u64`.
pub fn parse_u64(s: &str) -> (r: Option<u64>)
    ensures
        match r {
            Some(v) => parse_dec_spec(s@) == Some(v as nat),
            None => match parse_dec_spec(s@) {
                Some(v) => v > u64::MAX,
                None => true,
            },
        },
{
    let len = s.unicode_len();
    let mut start: usize = 0;
    if len > 0 && s.get_char(0) == '+' {
        start = 1;
    }
    let ghost t = if s@.len() > 0 && s@[0] == '+' {
        s@.skip(1)
    } else {
        s@
    };
    if start >= len {
        return None;
    }
    let mut acc: u64 = 0;
    let mut i: usize = start;
    while i < len
        invariant
            start <= i <= len,
            len == s@.len(),
            start == 1 ==> s@.len() > 0 && s@[0] == '+',
            start == 0 ==> !(s@.len() > 0 && s@[0] == '+'),
            t == if start == 1 {
                s@.skip(1)
            } else {
                s@
            },
            t.len() == len - start,
            forall|k: int| 0 <= k < t.len() ==> t[k] == s@[k + start],
            all_digits(t.take(i - start)),
            acc == dec_val(t.take(i - start)),
        decreases len - i,
    {
        let c = s.get_char(i);
        proof {
            assert(t[i - start] == c);
        }
        let d = match char_to_digit(c) {
            Some(d) => d,
            None => {
                return None;
            },
        };
        proof {
            lemma_dec_val_step(t, i - start);
        }
        if acc > (u64::MAX - d) / 10 {
            proof {
                assert(dec_val(t.take(i - start + 1)) > u64::MAX);
                lemma_dec_val_prefix(t, i - start + 1);
            }
            return None;
        }
        acc = acc * 10 + d;
        proof {
            assert(all_digits(t.take(i - start + 1)));
        }
        i += 1;
    }
    proof {
        assert(t.take(len - start) =~= t);
    }
    Some(acc)
}

/// What a line of input means as a selection index for a list of `len`
/// entries.
#[derive(Clone, Copy, PartialEq, Eq, Structural, Debug)]
pub enum IndexParse {
    Pick(usize),
    OutOfRange,
    Invalid,
}

/// Parses a selection index for a list of `len` entries: a numeral within
/// the list picks an entry, one beyond it is out of range, anything else is
/// invalid.
pub fn parse_index(input: &str, len: usize) -> (r: IndexParse)
    ensures
        match r {
            IndexParse::Pick(i) => parse_dec_spec(input@) == Some(i as nat) && i < len,
            IndexParse::OutOfRange => parse_dec_spec(input@) matches Some(v) && len <= v
                <= u64::MAX,
            IndexParse::Invalid => parse_dec_spec(input@) is None || (parse_dec_spec(
                input@,
            ) matches Some(v) && v > u64::MAX),
        },
{
    match parse_u64(input) {
        Some(v) => if v < len as u64 {
            IndexParse::Pick(v as usize)
        } else {
            IndexParse::OutOfRange
        },
        None => IndexParse::Invalid,
    }
}

/// Parses a port number as `str::parse::<u16>` does.
pub fn parse_u16(s: &str) -> (r: Option<u16>)
    ensures
        match r {
            Some(v) => parse_dec_spec(s@) == Some(v as nat),
            None => match parse_dec_spec(s@) {
                Some(v) => v > u16::MAX,
                None => true,
            },
        },
{
    match parse_u64(s) {
        Some(v) => if v <= 0xffff {
            Some(v as u16)
        } else {
            None
        },
        None => None,
    }
}

} // verus!
