//! Decimal numbers: writing them, and reading them back.
use vstd::prelude::*;

use crate::text;

verus! {

/// A decimal digit.
pub open spec fn is_digit(c: char) -> bool {
    '0' <= c <= '9'
}

/// Text made of decimal digits only.
pub open spec fn all_digits(s: Seq<char>) -> bool {
    forall|i: int| 0 <= i < s.len() ==> is_digit(#[trigger] s[i])
}

/// The number that a text of decimal digits stands for.
pub open spec fn value(s: Seq<char>) -> nat
    decreases s.len(),
{
    if s.len() == 0 {
        0
    } else {
        value(s.drop_last()) * 10 + (s.last() as nat - '0' as nat) as nat
    }
}

/// The digit that stands for `d`.
pub open spec fn digit(d: nat) -> char {
    ('0' as nat + d) as char
}

/// A number in decimal digits, without leading zeros.
pub open spec fn decimal(n: nat) -> Seq<char>
    decreases n,
{
    if n < 10 {
        seq![digit(n)]
    } else {
        decimal(n / 10).push(digit(n % 10))
    }
}

/// The number that a text stands for where it is a decimal number of at most 16 bits: digits,
/// behind an optional plus sign.
pub open spec fn u16_of(s: Seq<char>) -> Option<u16> {
    let d = if s.len() > 0 && s[0] == '+' {
        s.skip(1)
    } else {
        s
    };
    if d.len() > 0 && all_digits(d) && value(d) <= u16::MAX {
        Some(value(d) as u16)
    } else {
        None
    }
}

fn digit_text(d: u64) -> (r: &'static str)
    requires
        d < 10,
    ensures
        r@ == seq![digit(d as nat)],
{
    proof {
        reveal_strlit("0");
        reveal_strlit("1");
        reveal_strlit("2");
        reveal_strlit("3");
        reveal_strlit("4");
        reveal_strlit("5");
        reveal_strlit("6");
        reveal_strlit("7");
        reveal_strlit("8");
        reveal_strlit("9");
    }
    let r: &'static str = match d {
        0 => "0",
        1 => "1",
        2 => "2",
        3 => "3",
        4 => "4",
        5 => "5",
        6 => "6",
        7 => "7",
        8 => "8",
        _ => "9",
    };
    assert(r@ =~= seq![digit(d as nat)]);
    r
}

/// Writes a number in decimal digits.
pub fn decimal_text(n: u64) -> (r: String)
    ensures
        r@ == decimal(n as nat),
    decreases n,
{
    if n < 10 {
        digit_text(n).to_owned()
    } else {
        let mut s: String = decimal_text(n / 10);
        s.append(digit_text(n % 10));
        assert(s@ =~= decimal(n as nat));
        s
    }
}

/// The value of a text is no less than that of the text it starts with.
proof fn lemma_value_grows(s: Seq<char>, n: int)
    requires
        0 <= n <= s.len(),
        all_digits(s),
    ensures
        value(s.take(n)) <= value(s),
    decreases s.len(),
{
    if n == s.len() {
        assert(s.take(n) =~= s);
    } else {
        assert(s.drop_last().take(n) =~= s.take(n));
        lemma_value_grows(s.drop_last(), n);
    }
}

/// Reads the digits of `v` from `from` on as a number of at most `max`.
fn read_digits(v: &Vec<char>, from: usize, max: u32) -> (r: Option<u32>)
    requires
        from <= v@.len(),
        max <= u16::MAX,
    ensures
        match r {
            Some(n) => {
                &&& all_digits(v@.skip(from as int))
                &&& n == value(v@.skip(from as int))
                &&& n <= max
            },
            None => !(all_digits(v@.skip(from as int)) && value(v@.skip(from as int)) <= max),
        },
{
    let ghost d = v@.skip(from as int);
    let mut n: u32 = 0;
    let mut i: usize = from;
    assert(d.take(0) =~= seq![]);
    while i < v.len()
        invariant
            from <= i <= v@.len(),
            d == v@.skip(from as int),
            max <= u16::MAX,
            n <= max,
            n == value(d.take(i - from)),
            forall|k: int| 0 <= k < i - from ==> is_digit(#[trigger] d[k]),
        decreases v.len() - i,
    {
        let c: char = v[i];
        assert(d[i - from] == c);
        if !('0' <= c && c <= '9') {
            return None;
        }
        n = n * 10 + ((c as u32) - ('0' as u32));
        assert(d.take(i + 1 - from).drop_last() =~= d.take(i - from));
        assert(n == value(d.take(i + 1 - from)));
        if n > max {
            proof {
                if all_digits(d) {
                    lemma_value_grows(d, i + 1 - from);
                }
            }
            return None;
        }
        i = i + 1;
    }
    assert(d.take(i - from) =~= d);
    Some(n)
}

/// Reads a decimal number of at most 16 bits.
pub fn parse_u16(s: &str) -> (r: Option<u16>)
    ensures
        r == u16_of(s@),
{
    let v: Vec<char> = text::chars_of(s);
    let from: usize = if v.len() > 0 && v[0] == '+' {
        1
    } else {
        0
    };
    assert(s@.skip(0) =~= s@);
    if from >= v.len() {
        return None;
    }
    match read_digits(&v, from, 65535) {
        Some(n) => Some(n as u16),
        None => None,
    }
}

/// The number that a text stands for where it is one byte of a dotted address: one to three
/// digits without a leading zero.
pub open spec fn octet_of(s: Seq<char>) -> Option<u8> {
    if 1 <= s.len() <= 3 && all_digits(s) && (s.len() > 1 ==> s[0] != '0') && value(s) <= u8::MAX {
        Some(value(s) as u8)
    } else {
        None
    }
}

/// Reads one byte of a dotted address.
pub fn parse_octet(s: &str) -> (r: Option<u8>)
    ensures
        r == octet_of(s@),
{
    let v: Vec<char> = text::chars_of(s);
    assert(s@.skip(0) =~= s@);
    if v.len() == 0 || v.len() > 3 || (v.len() > 1 && v[0] == '0') {
        return None;
    }
    match read_digits(&v, 0, 255) {
        Some(n) => Some(n as u8),
        None => None,
    }
}

/// A number written in decimal digits reads back as itself. It has no leading zero.
pub proof fn decimal_reads_back(n: nat)
    ensures
        all_digits(decimal(n)),
        decimal(n).len() > 0,
        value(decimal(n)) == n,
        n > 0 ==> decimal(n)[0] != '0',
    decreases n,
{
    reveal_with_fuel(value, 2);
    if n < 10 {
        assert(decimal(n).drop_last() =~= seq![]);
    } else {
        decimal_reads_back(n / 10);
        assert(decimal(n).drop_last() =~= decimal(n / 10));
    }
}

/// A number of at most 16 bits, written in decimal digits, is read as that number.
pub proof fn u16_reads_back(n: u16)
    ensures
        u16_of(decimal(n as nat)) == Some(n),
{
    decimal_reads_back(n as nat);
    assert(is_digit(decimal(n as nat)[0]));
}

/// A digit is one of the ten characters from `0` to `9`, and each digit that is put behind a text
/// of digits makes its value ten times as large, and larger by the digit.
pub proof fn each_digit_counts_ten_times(s: Seq<char>, c: char)
    requires
        '0' <= c <= '9',
    ensures
        value(seq![]) == 0,
        value(s.push(c)) == value(s) * 10 + (c as int - 48),
        all_digits(s.push(c)) <==> all_digits(s),
        all_digits(seq![]),
        is_digit(c),
        digit((c as int - 48) as nat) == c,
{
    assert(s.push(c).drop_last() =~= s);
    if all_digits(s.push(c)) {
        assert forall|i: int| 0 <= i < s.len() implies is_digit(#[trigger] s[i]) by {
            assert(s.push(c)[i] == s[i]);
        }
    }
}

/// Where a text holds anything but digits it is not made of digits.
pub proof fn other_characters_are_no_digits(s: Seq<char>, i: int)
    requires
        0 <= i < s.len(),
        s[i] < '0' || s[i] > '9',
    ensures
        !all_digits(s),
{
    assert(!is_digit(s[i]));
}

proof fn lemma_leading_digit_counts(s: Seq<char>)
    requires
        all_digits(s),
        s.len() > 0,
        s[0] != '0',
    ensures
        value(s) > 0,
    decreases s.len(),
{
    assert(is_digit(s[0]));
    if s.len() > 1 {
        lemma_leading_digit_counts(s.drop_last());
    } else {
        assert(s.drop_last() =~= seq![]);
    }
}

/// A number has one form in decimal digits without leading zeros, and it is the one that is
/// written.
pub proof fn decimal_form_is_the_only_one(s: Seq<char>)
    requires
        all_digits(s),
        s.len() > 0,
        s.len() > 1 ==> s[0] != '0',
    ensures
        decimal(value(s)) == s,
    decreases s.len(),
{
    assert(is_digit(s.last()));
    let d = (s.last() as nat - '0' as nat) as nat;
    assert(digit(d) == s.last());
    if s.len() == 1 {
        assert(s.drop_last() =~= seq![]);
        assert(value(s.drop_last()) == 0);
        assert(value(s) == d);
        assert(decimal(d) =~= s);
    } else {
        let less = s.drop_last();
        lemma_leading_digit_counts(less);
        decimal_form_is_the_only_one(less);
        assert(value(s) == value(less) * 10 + d);
        assert(value(s) / 10 == value(less));
        assert(value(s) % 10 == d);
        assert(decimal(value(s)) =~= decimal(value(less)).push(digit(d)));
        assert(less.push(s.last()) =~= s);
    }
}

/// Which texts are read as a number of at most 16 bits: digits, whatever zeros lead them, where
/// their value is not too large, and the same behind a plus sign; nothing else.
pub proof fn digits_are_read_as_their_value(s: Seq<char>)
    ensures
        s.len() > 0 && all_digits(s) && value(s) <= 65535 ==> u16_of(s) == Some(value(s) as u16),
        s.len() > 0 && all_digits(s) && value(s) > 65535 ==> u16_of(s) is None,
        s.len() == 0 ==> u16_of(s) is None,
        !all_digits(s) && s[0] != '+' ==> u16_of(s) is None,
        s.len() == 0 || s[0] != '+' ==> u16_of(seq!['+'] + s) == u16_of(s),
        s.len() > 0 && s[0] == '+' ==> u16_of(seq!['+'] + s) is None,
{
    assert((seq!['+'] + s).skip(1) =~= s);
    if s.len() > 0 && all_digits(s) {
        assert(is_digit(s[0]));
    }
    if s.len() > 0 && s[0] == '+' {
        assert(!is_digit(s[0]));
    }
}

/// A text is read as a byte of a dotted address exactly where it is that byte in decimal digits,
/// without leading zeros.
pub proof fn byte_has_one_form(s: Seq<char>, n: u8)
    ensures
        octet_of(s) == Some(n) <==> s == decimal(n as nat),
{
    decimal_reads_back(n as nat);
    reveal_with_fuel(decimal, 3);
    if octet_of(s) == Some(n) {
        decimal_form_is_the_only_one(s);
    }
    if s == decimal(n as nat) {
        assert(s.len() > 1 ==> n > 0);
    }
}

} // verus!
