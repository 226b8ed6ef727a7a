//! Decimal text of 64-bit signed integers: the reading that `str::parse::<i64>`
//! performs and the writing that `i64::to_string` performs, both proved
//! against one model, together with the law that writing then reading gives
//! the number back.

use vstd::prelude::*;

verus! {

/// Why a text is not the decimal form of an `i64` (the kinds of
/// `core::num::IntErrorKind` that a signed 64-bit parse can give).
#[derive(Debug, Clone, Copy, PartialEq, Eq, Structural)]
pub enum IntErrorKind {
    Empty,
    InvalidDigit,
    PosOverflow,
    NegOverflow,
}

impl IntErrorKind {
    /// The text that `core::num::ParseIntError` shows for this kind.
    pub open spec fn spec_message(self) -> Seq<char> {
        match self {
            IntErrorKind::Empty => "cannot parse integer from empty string"@,
            IntErrorKind::InvalidDigit => "invalid digit found in string"@,
            IntErrorKind::PosOverflow => "number too large to fit in target type"@,
            IntErrorKind::NegOverflow => "number too small to fit in target type"@,
        }
    }

    /// The text that `core::num::ParseIntError` shows for this kind.
    pub fn message(&self) -> (r: String)
        ensures
            r@ == self.spec_message(),
    {
        match self {
            IntErrorKind::Empty => String::from_str("cannot parse integer from empty string"),
            IntErrorKind::InvalidDigit => String::from_str("invalid digit found in string"),
            IntErrorKind::PosOverflow => String::from_str("number too large to fit in target type"),
            IntErrorKind::NegOverflow => String::from_str("number too small to fit in target type"),
        }
    }
}

pub open spec fn is_digit(c: char) -> bool {
    '0' <= c && c <= '9'
}

pub open spec fn digit_value(c: char) -> int {
    (c as int) - ('0' as int)
}

pub open spec fn digit_char(d: int) -> char {
    (d + ('0' as int)) as char
}

pub open spec fn in_i64(x: int) -> bool {
    i64::MIN <= x && x <= i64::MAX
}

/// Reads the digits of `s` from the left into `acc`: every character must be
/// a decimal digit, and each partial value must stay in the `i64` range;
/// the first character that breaks either rule decides the error.
pub open spec fn accumulate(negative: bool, acc: int, s: Seq<char>) -> Result<int, IntErrorKind>
    decreases s.len(),
{
    if s.len() == 0 {
        Ok(acc)
    } else if !is_digit(s[0]) {
        Err(IntErrorKind::InvalidDigit)
    } else {
        let next = if negative { acc * 10 - digit_value(s[0]) } else { acc * 10 + digit_value(s[0]) };
        if !in_i64(next) {
            Err(if negative { IntErrorKind::NegOverflow } else { IntErrorKind::PosOverflow })
        } else {
            accumulate(negative, next, s.drop_first())
        }
    }
}

/// The value of a decimal text, or why it has none: an optional leading
/// `+` or `-` followed by one or more ASCII digits, in the `i64` range.
pub open spec fn parse_i64_spec(s: Seq<char>) -> Result<int, IntErrorKind> {
    if s.len() == 0 {
        Err(IntErrorKind::Empty)
    } else if s.len() == 1 && (s[0] == '+' || s[0] == '-') {
        Err(IntErrorKind::InvalidDigit)
    } else if s[0] == '+' {
        accumulate(false, 0, s.drop_first())
    } else if s[0] == '-' {
        accumulate(true, 0, s.drop_first())
    } else {
        accumulate(false, 0, s)
    }
}

/// The digits of a natural number, most significant first, with no
/// leading zeros.
pub open spec fn nat_digits(n: nat) -> Seq<char>
    decreases n,
{
    if n < 10 {
        seq![digit_char(n as int)]
    } else {
        nat_digits(n / 10).push(digit_char((n % 10) as int))
    }
}

/// The decimal text of an integer: a `-` before negative numbers, no sign
/// before the others.
pub open spec fn decimal(n: int) -> Seq<char> {
    if n < 0 {
        seq!['-'].add(nat_digits((-n) as nat))
    } else {
        nat_digits(n as nat)
    }
}

/// Appends one character to a string.
#[verifier::external_body]
pub(crate) fn push_char(s: &mut String, c: char)
    ensures
        final(s)@ == old(s)@.push(c),
{
    s.push(c);
}

fn write_digits(out: &mut String, m: u64)
    ensures
        final(out)@ == old(out)@ + nat_digits(m as nat),
    decreases m,
{
    if m >= 10 {
        write_digits(out, m / 10);
    }
    let d: u64 = m % 10;
    let c: char = if d == 0 { '0' } else if d == 1 { '1' } else if d == 2 { '2' } else if d == 3 { '3' }
        else if d == 4 { '4' } else if d == 5 { '5' } else if d == 6 { '6' } else if d == 7 { '7' }
        else if d == 8 { '8' } else { '9' };
    push_char(out, c);
}

/// Appends the decimal text of `n` to `out`.
pub fn write_i64(out: &mut String, n: i64)
    ensures
        final(out)@ == old(out)@ + decimal(n as int),
{
    if n < 0 {
        push_char(out, '-');
        let m: u64 = if n == i64::MIN { 9223372036854775808u64 } else { (-n) as u64 };
        write_digits(out, m);
        assert(old(out)@ + decimal(n as int) =~= old(out)@.push('-') + nat_digits(m as nat));
    } else {
        write_digits(out, n as u64);
    }
}

/// The decimal text of `n`, as `n.to_string()` writes it.
pub fn format_i64(n: i64) -> (s: String)
    ensures
        s@ == decimal(n as int),
{
    let mut s = String::new();
    write_i64(&mut s, n);
    assert(s@ =~= decimal(n as int));
    s
}


/// The characters of `s`, in order.
pub(crate) fn chars_of(s: &str) -> (v: Vec<char>)
    ensures
        v@ == s@,
{
    let mut v: Vec<char> = Vec::new();
    for c in it: s.chars()
        invariant
            it.seq() == s@,
            v@ == s@.take(it.index()),
    {
        v.push(c);
        assert(v@ =~= s@.take(it.index() + 1));
    }
    assert(v@ =~= s@);
    v
}

fn digit_of(c: char) -> (d: Option<i128>)
    ensures
        is_digit(c) <==> d is Some,
        d matches Some(v) ==> v == digit_value(c),
{
    if '0' <= c && c <= '9' {
        Some((c as u32 - '0' as u32) as i128)
    } else {
        None
    }
}

fn accumulate_exec(chars: &Vec<char>, start: usize, negative: bool) -> (r: Result<i64, IntErrorKind>)
    requires
        start <= chars@.len(),
    ensures
        match r {
            Ok(v) => accumulate(negative, 0, chars@.skip(start as int)) == Ok::<int, IntErrorKind>(v as int),
            Err(e) => accumulate(negative, 0, chars@.skip(start as int)) == Err::<int, IntErrorKind>(e),
        },
{
    let mut acc: i64 = 0;
    let mut i: usize = start;
    while i < chars.len()
        invariant
            start <= i <= chars@.len(),
            accumulate(negative, 0, chars@.skip(start as int)) == accumulate(negative, acc as int, chars@.skip(i as int)),
        decreases chars@.len() - i,
    {
        let c = chars[i];
        let ghost rest = chars@.skip(i as int);
        assert(rest[0] == c);
        assert(rest.drop_first() =~= chars@.skip(i + 1));
        match digit_of(c) {
            None => {
                return Err(IntErrorKind::InvalidDigit);
            },
            Some(d) => {
                let next: i128 = if negative { acc as i128 * 10 - d } else { acc as i128 * 10 + d };
                if next < i64::MIN as i128 || next > i64::MAX as i128 {
                    return Err(if negative { IntErrorKind::NegOverflow } else { IntErrorKind::PosOverflow });
                }
                acc = next as i64;
            },
        }
        i = i + 1;
    }
    assert(chars@.skip(i as int).len() == 0);
    Ok(acc)
}

/// Reads `s` as `s.parse::<i64>()` does.
pub fn parse_i64(s: &str) -> (r: Result<i64, IntErrorKind>)
    ensures
        match r {
            Ok(v) => parse_i64_spec(s@) == Ok::<int, IntErrorKind>(v as int),
            Err(e) => parse_i64_spec(s@) == Err::<int, IntErrorKind>(e),
        },
{
    let chars = chars_of(s);
    if chars.len() == 0 {
        return Err(IntErrorKind::Empty);
    }
    let first = chars[0];
    if chars.len() == 1 && (first == '+' || first == '-') {
        return Err(IntErrorKind::InvalidDigit);
    }
    assert(chars@.skip(1) =~= s@.drop_first());
    assert(chars@.skip(0) =~= s@);
    if first == '+' {
        accumulate_exec(&chars, 1, false)
    } else if first == '-' {
        accumulate_exec(&chars, 1, true)
    } else {
        accumulate_exec(&chars, 0, false)
    }
}


proof fn lemma_digit_char(d: int)
    requires
        0 <= d < 10,
    ensures
        is_digit(digit_char(d)),
        digit_value(digit_char(d)) == d,
{
}

proof fn lemma_accumulate_append(negative: bool, acc: int, a: Seq<char>, b: Seq<char>)
    ensures
        accumulate(negative, acc, a + b) == (match accumulate(negative, acc, a) {
            Ok(x) => accumulate(negative, x, b),
            Err(e) => Err(e),
        }),
    decreases a.len(),
{
    if a.len() == 0 {
        assert(a + b =~= b);
    } else {
        assert((a + b)[0] == a[0]);
        assert((a + b).drop_first() =~= a.drop_first() + b);
        let next = if negative { acc * 10 - digit_value(a[0]) } else { acc * 10 + digit_value(a[0]) };
        lemma_accumulate_append(negative, next, a.drop_first(), b);
    }
}

proof fn lemma_accumulate_digits(negative: bool, m: nat)
    requires
        if negative { m <= 0x8000_0000_0000_0000 } else { m <= 0x7fff_ffff_ffff_ffff },
    ensures
        accumulate(negative, 0, nat_digits(m)) == Ok::<int, IntErrorKind>(if negative { -m } else { m as int }),
    decreases m,
{
    let target: int = if negative { -m } else { m as int };
    if m < 10 {
        let s = nat_digits(m);
        lemma_digit_char(m as int);
        assert(s[0] == digit_char(m as int));
        assert(s.drop_first() =~= Seq::<char>::empty());
        assert(accumulate(negative, target, s.drop_first()) == Ok::<int, IntErrorKind>(target));
    } else {
        let q: nat = m / 10;
        let d: int = (m % 10) as int;
        let qv: int = if negative { -q } else { q as int };
        let tail = seq![digit_char(d)];
        lemma_digit_char(d);
        lemma_accumulate_digits(negative, q);
        lemma_accumulate_append(negative, 0, nat_digits(q), tail);
        assert(nat_digits(m) =~= nat_digits(q) + tail);
        assert(tail.drop_first() =~= Seq::<char>::empty());
        assert(q * 10 + d == m);
        assert(tail[0] == digit_char(d));
        assert(accumulate(negative, target, tail.drop_first()) == Ok::<int, IntErrorKind>(target));
        assert(accumulate(negative, qv, tail) == Ok::<int, IntErrorKind>(target));
    }
}

proof fn lemma_nat_digits_head(m: nat)
    ensures
        nat_digits(m).len() >= 1,
        is_digit(nat_digits(m)[0]),
    decreases m,
{
    if m >= 10 {
        lemma_nat_digits_head(m / 10);
    }
}

/// Writing an `i64` in decimal and reading the text back gives the same
/// number: `format_i64(n).parse::<i64>() == Ok(n)` for every `n`.
pub proof fn lemma_parse_format_roundtrip(n: i64)
    ensures
        parse_i64_spec(decimal(n as int)) == Ok::<int, IntErrorKind>(n as int),
{
    if n < 0 {
        let m: nat = (-n) as nat;
        lemma_nat_digits_head(m);
        lemma_accumulate_digits(true, m);
        assert(decimal(n as int).drop_first() =~= nat_digits(m));
    } else {
        let m: nat = n as nat;
        lemma_nat_digits_head(m);
        lemma_accumulate_digits(false, m);
    }
}

/// Different numbers have different decimal texts.
pub proof fn lemma_decimal_injective(a: i64, b: i64)
    ensures
        decimal(a as int) == decimal(b as int) ==> a == b,
{
    lemma_parse_format_roundtrip(a);
    lemma_parse_format_roundtrip(b);
}

} // verus!
