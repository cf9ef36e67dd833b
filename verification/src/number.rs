//! Decimal numbers as text: what `{n}` writes and what `parse` reads.

use vstd::prelude::*;

verus! {

/// The value of a decimal digit.
pub open spec fn digit_value(c: char) -> nat {
    (c as u32 - '0' as u32) as nat
}

/// Whether `c` is one of the ten decimal digits.
pub open spec fn is_digit(c: char) -> bool {
    '0' <= c <= '9'
}

/// The digit for a value below ten.
pub open spec fn digit_char(n: nat) -> char {
    ('0' as u32 + n) as char
}

/// The number written in decimal, without leading zeros.
pub open spec fn decimal(n: nat) -> Seq<char>
    decreases n,
{
    if n < 10 {
        seq![digit_char(n)]
    } else {
        decimal(n / 10).push(digit_char(n % 10))
    }
}

/// A signed number written in decimal: a minus sign in front of a negative one.
pub open spec fn decimal_int(n: int) -> Seq<char> {
    if n < 0 {
        seq!['-'] + decimal((-n) as nat)
    } else {
        decimal(n as nat)
    }
}

/// Whether all characters are decimal digits.
pub open spec fn all_digits(s: Seq<char>) -> bool {
    forall|i: int| 0 <= i < s.len() ==> is_digit(#[trigger] s[i])
}

/// The number that a sequence of decimal digits stands for.
pub open spec fn value(s: Seq<char>) -> nat
    decreases s.len(),
{
    if s.len() == 0 {
        0
    } else {
        value(s.drop_last()) * 10 + digit_value(s.last())
    }
}

/// What an unsigned number of at most `max` reads from a text: an optional plus sign, then one or
/// more digits, and nothing else.
pub open spec fn parsed(s: Seq<char>, max: nat) -> Option<nat> {
    let digits = if s.len() > 0 && s[0] == '+' {
        s.skip(1)
    } else {
        s
    };
    if digits.len() > 0 && all_digits(digits) && value(digits) <= max {
        Some(value(digits))
    } else {
        None
    }
}

/// What an `i32` reads from a text: an optional sign, then one or more digits, and nothing else.
pub open spec fn parsed_i32(s: Seq<char>) -> Option<int> {
    let negative = s.len() > 0 && s[0] == '-';
    let digits = if s.len() > 0 && (s[0] == '+' || s[0] == '-') {
        s.skip(1)
    } else {
        s
    };
    let n = if negative {
        -(value(digits) as int)
    } else {
        value(digits) as int
    };
    if digits.len() > 0 && all_digits(digits) && i32::MIN <= n <= i32::MAX {
        Some(n)
    } else {
        None
    }
}

/// The first digits of a text stand for no more than all of them.
proof fn lemma_value_prefix(s: Seq<char>, k: int)
    requires
        0 <= k <= s.len(),
    ensures
        value(s.take(k)) <= value(s),
    decreases s.len() - k,
{
    if k < s.len() {
        lemma_value_prefix(s, k + 1);
        assert(s.take(k + 1).drop_last() == s.take(k));
    } else {
        assert(s.take(k) == s);
    }
}

/// The value of the digits from `from` on, or `None` if one of them is no digit or the value
/// exceeds `max`.
fn read_digits(v: &[char], from: usize, max: u64) -> (r: Option<u64>)
    requires
        from <= v@.len(),
    ensures
        match r {
            Some(n) => {
                &&& v@.skip(from as int).len() > 0
                &&& all_digits(v@.skip(from as int))
                &&& n == value(v@.skip(from as int))
                &&& n <= max
            },
            None => {
                ||| v@.skip(from as int).len() == 0
                ||| !all_digits(v@.skip(from as int))
                ||| value(v@.skip(from as int)) > max
            },
        },
{
    let ghost d = v@.skip(from as int);
    if from == v.len() {
        return None;
    }
    let mut n: u64 = 0;
    assert(d.take(0) == Seq::<char>::empty());
    for i in from..v.len()
        invariant
            from <= v@.len(),
            d == v@.skip(from as int),
            n == value(d.take(i - from)),
            n <= max,
            forall|j: int| 0 <= j < i - from ==> is_digit(#[trigger] d[j]),
    {
        let c = v[i];
        assert(d[i - from] == c);
        assert(d.take(i - from + 1).drop_last() == d.take(i - from));
        if c < '0' || c > '9' {
            return None;
        }
        let k: u64 = (c as u32 - '0' as u32) as u64;
        assert(value(d.take(i - from + 1)) == n * 10 + k);
        proof {
            lemma_value_prefix(d, i - from + 1);
        }
        if k > max || n > (max - k) / 10 {
            return None;
        }
        n = n * 10 + k;
    }
    assert(d.take(d.len() as int) == d);
    Some(n)
}

/// Reads an unsigned number of at most `max`.
fn parse_unsigned(v: &[char], max: u64) -> (r: Option<u64>)
    ensures
        match r {
            Some(n) => parsed(v@, max as nat) == Some(n as nat),
            None => parsed(v@, max as nat) is None,
        },
{
    if v.len() > 0 && v[0] == '+' {
        read_digits(v, 1, max)
    } else {
        assert(v@.skip(0) == v@);
        read_digits(v, 0, max)
    }
}

/// Reads a `u16`.
pub fn parse_u16(v: &[char]) -> (r: Option<u16>)
    ensures
        match r {
            Some(n) => parsed(v@, u16::MAX as nat) == Some(n as nat),
            None => parsed(v@, u16::MAX as nat) is None,
        },
{
    match parse_unsigned(v, 0xffff) {
        Some(n) => Some(n as u16),
        None => None,
    }
}

/// Reads a `u64`.
pub fn parse_u64(v: &[char]) -> (r: Option<u64>)
    ensures
        match r {
            Some(n) => parsed(v@, u64::MAX as nat) == Some(n as nat),
            None => parsed(v@, u64::MAX as nat) is None,
        },
{
    parse_unsigned(v, u64::MAX)
}

/// Reads an `i32`.
pub fn parse_i32(v: &[char]) -> (r: Option<i32>)
    ensures
        match r {
            Some(n) => parsed_i32(v@) == Some(n as int),
            None => parsed_i32(v@) is None,
        },
{
    if v.len() > 0 && v[0] == '-' {
        match read_digits(v, 1, 0x8000_0000) {
            Some(n) => Some((0i64 - n as i64) as i32),
            None => None,
        }
    } else if v.len() > 0 && v[0] == '+' {
        match read_digits(v, 1, 0x7fff_ffff) {
            Some(n) => Some(n as i32),
            None => None,
        }
    } else {
        assert(v@.skip(0) == v@);
        match read_digits(v, 0, 0x7fff_ffff) {
            Some(n) => Some(n as i32),
            None => None,
        }
    }
}

/// Appends a number in decimal.
pub fn push_decimal(s: &mut String, n: u64)
    ensures
        final(s)@ == old(s)@ + decimal(n as nat),
    decreases n,
{
    if n < 10 {
        s.push(('0' as u8 + n as u8) as char);
        assert(s@ == old(s)@ + decimal(n as nat));
    } else {
        push_decimal(s, n / 10);
        s.push(('0' as u8 + (n % 10) as u8) as char);
        assert(s@ == old(s)@ + decimal(n as nat));
    }
}

/// Appends a signed number in decimal.
pub fn push_decimal_i32(s: &mut String, n: i32)
    ensures
        final(s)@ == old(s)@ + decimal_int(n as int),
{
    if n < 0 {
        s.push('-');
        push_decimal(s, (0i64 - n as i64) as u64);
        assert(s@ == old(s)@ + decimal_int(n as int));
    } else {
        push_decimal(s, n as u64);
    }
}

/// A number in decimal.
pub fn to_decimal(n: u64) -> (r: String)
    ensures
        r@ == decimal(n as nat),
{
    let mut s = String::new();
    push_decimal(&mut s, n);
    assert(s@ == decimal(n as nat));
    s
}

/// What decimal writing produces is one or more digits that stand for the number.
pub proof fn lemma_decimal(n: nat)
    ensures
        decimal(n).len() > 0,
        all_digits(decimal(n)),
        value(decimal(n)) == n,
    decreases n,
{
    let d = decimal(n);
    if n < 10 {
        assert(d.drop_last() == Seq::<char>::empty());
        assert(value(d.drop_last()) == 0);
    } else {
        lemma_decimal(n / 10);
        assert(d.drop_last() == decimal(n / 10));
    }
}

/// Reading back a written number gives the number.
pub proof fn decimal_reads_back(n: nat, max: nat)
    requires
        n <= max,
    ensures
        parsed(decimal(n), max) == Some(n),
{
    lemma_decimal(n);
    assert(is_digit(decimal(n)[0]));
}

/// Reading back a written `i32` gives the number.
pub proof fn decimal_int_reads_back(n: i32)
    ensures
        parsed_i32(decimal_int(n as int)) == Some(n as int),
{
    let d = decimal_int(n as int);
    if n < 0 {
        lemma_decimal((-n) as nat);
        assert(d.skip(1) == decimal((-n) as nat));
    } else {
        lemma_decimal(n as nat);
        assert(is_digit(d[0]));
    }
}

/// The digits are the ten characters from `0` on, in order.
pub proof fn digits_in_order(n: nat, c: char)
    requires
        n < 10,
    ensures
        digit_char(n) as int == '0' as int + n,
        is_digit(digit_char(n)),
        digit_value(digit_char(n)) == n,
        is_digit(c) <==> 48 <= c as int <= 57,
        is_digit(c) ==> digit_value(c) == c as int - 48,
{
}

/// Numbers are written and read in the decimal system: one more digit makes ten times the number and
/// the digit.
pub proof fn one_more_digit(n: nat, s: Seq<char>, c: char)
    requires
        is_digit(c),
    ensures
        value(s.push(c)) == 10 * value(s) + (c as int - 48),
        value(Seq::empty()) == 0,
        n < 10 ==> decimal(n).len() == 1 && decimal(n)[0] as int == 48 + n,
        n >= 10 ==> decimal(n) == decimal(n / 10) + decimal(n % 10),
{
    assert(s.push(c).drop_last() =~= s);
    if n >= 10 {
        assert(decimal(n) =~= decimal(n / 10) + decimal(n % 10));
    }
}

/// What is read as a number: digits, at least one, of a value of at most `max`, with or without a plus
/// sign in front; nothing else.
pub proof fn only_digits_are_read(digits: Seq<char>, max: nat)
    ensures
        digits.len() > 0 && all_digits(digits) && value(digits) <= max ==> {
            &&& parsed(digits, max) == Some(value(digits))
            &&& parsed(seq!['+'] + digits, max) == Some(value(digits))
        },
        parsed(digits, max) matches Some(n) ==> {
            &&& n <= max
            &&& (digits[0] != '+' ==> all_digits(digits) && n == value(digits))
            &&& (digits[0] == '+' ==> digits.len() > 1 && all_digits(digits.skip(1)) && n == value(
                digits.skip(1),
            ))
        },
        parsed(Seq::empty(), max) is None,
        (exists|i: int|
            #![trigger digits[i]]
            1 <= i < digits.len() && !(48 <= digits[i] as int <= 57)) ==> parsed(digits, max) is None,
        value(digits) > max && (digits.len() > 0 ==> digits[0] != '+') ==> parsed(digits, max)
            is None,
{
    let plus = seq!['+'] + digits;
    assert(plus.skip(1) =~= digits);
    if digits.len() > 0 && all_digits(digits) {
        assert(is_digit(digits[0]));
    }
    if exists|i: int|
        #![trigger digits[i]]
        1 <= i < digits.len() && !(48 <= digits[i] as int <= 57) {
        let i = choose|i: int|
            #![trigger digits[i]]
            1 <= i < digits.len() && !(48 <= digits[i] as int <= 57);
        assert(!is_digit(digits[i]));
        assert(digits.skip(1)[i - 1] == digits[i]);
    }
}

/// What is read as a signed number: digits with or without a sign in front, within 32 bits.
pub proof fn signs_are_read(digits: Seq<char>)
    requires
        digits.len() > 0,
        all_digits(digits),
    ensures
        value(digits) <= 0x7fff_ffff ==> {
            &&& parsed_i32(digits) == Some(value(digits) as int)
            &&& parsed_i32(seq!['+'] + digits) == Some(value(digits) as int)
        },
        value(digits) <= 0x8000_0000 ==> parsed_i32(seq!['-'] + digits) == Some(
            -(value(digits) as int),
        ),
        value(digits) > 0x7fff_ffff ==> parsed_i32(digits) is None,
        value(digits) > 0x8000_0000 ==> parsed_i32(seq!['-'] + digits) is None,
        parsed_i32(Seq::empty()) is None,
{
    assert((seq!['+'] + digits).skip(1) =~= digits);
    assert((seq!['-'] + digits).skip(1) =~= digits);
    assert(is_digit(digits[0]));
}

} // verus!
