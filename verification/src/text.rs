//! Text helpers: decimal numerals, integer literals, trimming, and the
//! conversions between `String` and sequences of characters.

use vstd::prelude::*;

verus! {

/// `String::push` appends one character to the end of the string.
pub assume_specification[ String::push ](s: &mut String, c: char)
    ensures
        final(s)@ == old(s)@.push(c),
;

/// True for the Unicode scalar values: the code points outside the surrogate range.
pub open spec fn is_scalar(n: int) -> bool {
    0 <= n <= 0xD7FF || 0xE000 <= n <= 0x10FFFF
}

/// `char::from_u32` gives the character with code point `n`, and `None` where `n` is not a
/// Unicode scalar value.
pub assume_specification[ char::from_u32 ](n: u32) -> (r: Option<char>)
    ensures
        r is Some <==> is_scalar(n as int),
        r matches Some(c) ==> c as u32 == n,
;

/// True for the ten ASCII digits.
pub open spec fn is_digit(c: char) -> bool {
    '0' <= c <= '9'
}

/// True for the ASCII letters.
pub open spec fn is_letter(c: char) -> bool {
    ('a' <= c <= 'z') || ('A' <= c <= 'Z')
}

/// The character that writes the digit `d`, for `d` below ten.
pub open spec fn digit_char(d: int) -> char {
    if d == 0 {
        '0'
    } else if d == 1 {
        '1'
    } else if d == 2 {
        '2'
    } else if d == 3 {
        '3'
    } else if d == 4 {
        '4'
    } else if d == 5 {
        '5'
    } else if d == 6 {
        '6'
    } else if d == 7 {
        '7'
    } else if d == 8 {
        '8'
    } else {
        '9'
    }
}

/// The value of a digit character.
pub open spec fn digit_value(c: char) -> int {
    c as int - '0' as int
}

/// The decimal numeral of a natural number, without leading zeros.
pub open spec fn digits(n: nat) -> Seq<char>
    decreases n,
{
    if n < 10 {
        seq![digit_char(n as int)]
    } else {
        digits(n / 10).push(digit_char((n % 10) as int))
    }
}

/// The decimal numeral of an integer: a minus sign for a negative one, then its magnitude.
pub open spec fn decimal(n: int) -> Seq<char> {
    if n < 0 {
        seq!['-'] + digits((-n) as nat)
    } else {
        digits(n as nat)
    }
}

fn digit_to_char(d: u8) -> (c: char)
    requires
        d < 10,
    ensures
        c == digit_char(d as int),
        is_digit(c),
        digit_value(c) == d,
{
    if d == 0 {
        '0'
    } else if d == 1 {
        '1'
    } else if d == 2 {
        '2'
    } else if d == 3 {
        '3'
    } else if d == 4 {
        '4'
    } else if d == 5 {
        '5'
    } else if d == 6 {
        '6'
    } else if d == 7 {
        '7'
    } else if d == 8 {
        '8'
    } else {
        '9'
    }
}

/// Appends the decimal numeral of `n` to `out`.
pub fn push_decimal(out: &mut String, n: u128)
    ensures
        final(out)@ == old(out)@ + digits(n as nat),
    decreases n,
{
    if n >= 10 {
        push_decimal(out, n / 10);
    }
    out.push(digit_to_char((n % 10) as u8));
    assert(final(out)@ == old(out)@ + digits(n as nat));
}

/// The decimal numeral of `n` as a string.
pub fn int_to_string(n: isize) -> (r: String)
    ensures
        r@ == decimal(n as int),
{
    let mut out = String::new();
    let wide: i128 = n as i128;
    if wide < 0 {
        out.push('-');
        push_decimal(&mut out, (-wide) as u128);
    } else {
        push_decimal(&mut out, wide as u128);
    }
    assert(out@ == decimal(n as int));
    out
}

/// True where every character of `s` is an ASCII digit.
pub open spec fn all_digits(s: Seq<char>) -> bool {
    forall|i: int| 0 <= i < s.len() ==> is_digit(#[trigger] s[i])
}

/// The number that a run of digits writes in base ten.
pub open spec fn digits_value(s: Seq<char>) -> nat
    decreases s.len(),
{
    if s.len() == 0 {
        0
    } else {
        digits_value(s.drop_last()) * 10 + digit_value(s.last()) as nat
    }
}

/// The digits of an integer literal: what follows one leading `+` or `-`, if there is one.
pub open spec fn literal_body(s: Seq<char>) -> Seq<char> {
    if s.len() > 0 && (s[0] == '-' || s[0] == '+') {
        s.skip(1)
    } else {
        s
    }
}

/// The integer that a literal writes: an optional sign, then at least one digit and nothing
/// else. `None` where the text has another shape or the number does not fit in an `isize`.
pub open spec fn parse_int(s: Seq<char>) -> Option<isize> {
    let body = literal_body(s);
    let magnitude = digits_value(body) as int;
    let value = if s.len() > 0 && s[0] == '-' {
        -magnitude
    } else {
        magnitude
    };
    if body.len() == 0 || !all_digits(body) || value < isize::MIN || value > isize::MAX {
        None
    } else {
        Some(value as isize)
    }
}

/// Reads an integer literal.
pub fn parse_chars(text: &Vec<char>) -> (r: Option<isize>)
    ensures
        r == parse_int(text@),
{
    let n = text.len();
    if n == 0 {
        return None;
    }
    let negative = text[0] == '-';
    let start: usize = if text[0] == '-' || text[0] == '+' {
        1
    } else {
        0
    };
    let ghost body = literal_body(text@);
    assert(body == text@.skip(start as int));
    if start == n {
        return None;
    }
    let limit: i128 = isize::MAX as i128 + 1;
    let mut acc: i128 = 0;
    let mut big = false;
    let mut i: usize = start;
    while i < n
        invariant
            start <= i <= n,
            n == text.len(),
            body == text@.skip(start as int),
            body == literal_body(text@),
            limit == isize::MAX + 1,
            all_digits(text@.subrange(start as int, i as int)),
            0 <= acc <= limit,
            !big ==> acc == digits_value(text@.subrange(start as int, i as int)),
            big ==> digits_value(text@.subrange(start as int, i as int)) > limit,
        decreases n - i,
    {
        let c = text[i];
        let ghost before = text@.subrange(start as int, i as int);
        let ghost after = text@.subrange(start as int, i + 1);
        assert(after.drop_last() == before);
        assert(after.last() == c);
        if !(c >= '0' && c <= '9') {
            assert(body[i - start] == c);
            return None;
        }
        let d: i128 = (c as u32 - '0' as u32) as i128;
        assert(d == digit_value(c));
        if !big {
            acc = acc * 10 + d;
            if acc > limit {
                big = true;
                acc = limit;
            }
        }
        i += 1;
    }
    assert(text@.subrange(start as int, n as int) == body);
    if big {
        None
    } else if negative {
        Some((-acc) as isize)
    } else if acc <= isize::MAX as i128 {
        Some(acc as isize)
    } else {
        None
    }
}

/// True for the ASCII whitespace characters: space, tab, line feed, form feed, carriage return.
pub open spec fn is_space(c: char) -> bool {
    c == ' ' || c == '\t' || c == '\n' || c == '\x0C' || c == '\r'
}

/// `s` without its leading whitespace.
pub open spec fn trim_start(s: Seq<char>) -> Seq<char>
    decreases s.len(),
{
    if s.len() > 0 && is_space(s[0]) {
        trim_start(s.drop_first())
    } else {
        s
    }
}

/// `s` without its trailing whitespace.
pub open spec fn trim_end(s: Seq<char>) -> Seq<char>
    decreases s.len(),
{
    if s.len() > 0 && is_space(s.last()) {
        trim_end(s.drop_last())
    } else {
        s
    }
}

/// `s` without its leading and trailing whitespace.
pub open spec fn trim(s: Seq<char>) -> Seq<char> {
    trim_end(trim_start(s))
}

fn space(c: char) -> (r: bool)
    ensures
        r == is_space(c),
{
    c == ' ' || c == '\t' || c == '\n' || c == '\x0C' || c == '\r'
}

/// The characters of a string, in order.
pub fn string_chars(s: &str) -> (r: Vec<char>)
    ensures
        r@ == s@,
{
    let mut out: Vec<char> = Vec::new();
    for c in it: s.chars()
        invariant
            it.seq() == s@,
            out@ == it.seq().take(it.index() as int),
    {
        out.push(c);
    }
    assert(out@ == s@);
    out
}

/// The string made of the characters `chars[from..to]`.
pub(crate) fn chars_to_string(chars: &Vec<char>, from: usize, to: usize) -> (r: String)
    requires
        from <= to <= chars.len(),
    ensures
        r@ == chars@.subrange(from as int, to as int),
{
    let mut out = String::new();
    let mut i: usize = from;
    while i < to
        invariant
            from <= i <= to <= chars.len(),
            out@ == chars@.subrange(from as int, i as int),
        decreases to - i,
    {
        out.push(chars[i]);
        assert(chars@.subrange(from as int, i + 1) == chars@.subrange(from as int, i as int).push(
            chars@[i as int],
        ));
        i += 1;
    }
    out
}

/// A line of input without the whitespace around it.
pub fn trimmed(s: &str) -> (r: String)
    ensures
        r@ == trim(s@),
{
    let chars = string_chars(s);
    let n = chars.len();
    let mut lo: usize = 0;
    assert(chars@.skip(0) == chars@);
    while lo < n && space(chars[lo])
        invariant
            lo <= n,
            n == chars.len(),
            trim_start(chars@) == trim_start(chars@.skip(lo as int)),
        decreases n - lo,
    {
        assert(chars@.skip(lo as int).drop_first() == chars@.skip(lo + 1));
        lo += 1;
    }
    assert(trim_start(chars@) == chars@.skip(lo as int));
    assert(chars@.skip(lo as int) == chars@.subrange(lo as int, n as int));
    let mut hi: usize = n;
    while hi > lo && space(chars[hi - 1])
        invariant
            lo <= hi <= n,
            n == chars.len(),
            trim(chars@) == trim_end(chars@.subrange(lo as int, hi as int)),
        decreases hi - lo,
    {
        assert(chars@.subrange(lo as int, hi as int).drop_last() == chars@.subrange(
            lo as int,
            hi - 1,
        ));
        hi -= 1;
    }
    chars_to_string(&chars, lo, hi)
}

/// The text that `{:?}` prints for a string: the string between double quotes, with the
/// characters that Rust escapes written as escapes.
pub uninterp spec fn debug_text(s: Seq<char>) -> Seq<char>;

/// `format!("{:?}", s)`: the result is named, since the rules by which `Debug` escapes a
/// string are long; it depends on the characters of `s` alone.
#[verifier::external_body]
pub(crate) fn quoted(s: &str) -> (r: String)
    ensures
        r@ == debug_text(s@),
{
    format!("{:?}", s)
}

/// True for a numeral in its canonical form: `0`, or an optional `-` and then digits of
/// which the first is not `0`.
pub open spec fn is_canonical(s: Seq<char>) -> bool {
    let body = if s.len() > 0 && s[0] == '-' {
        s.skip(1)
    } else {
        s
    };
    &&& body.len() > 0
    &&& all_digits(body)
    &&& (body[0] != '0' || s =~= seq!['0'])
}

/// A digit's character writes the digit.
pub proof fn lemma_digit_char(d: int)
    requires
        0 <= d < 10,
    ensures
        is_digit(digit_char(d)),
        digit_value(digit_char(d)) == d,
{
}

/// A digit character is the character of its value.
pub proof fn lemma_digit_value(c: char)
    requires
        is_digit(c),
    ensures
        0 <= digit_value(c) < 10,
        digit_char(digit_value(c)) == c,
{
}

/// The numeral of a natural number is made of digits and writes that number; it starts
/// with `0` only for zero.
pub proof fn lemma_digits_write_their_number(n: nat)
    ensures
        digits(n).len() > 0,
        all_digits(digits(n)),
        digits_value(digits(n)) == n,
        digits(n)[0] == '0' <==> n == 0,
    decreases n,
{
    if n < 10 {
        lemma_digit_char(n as int);
        let s = digits(n);
        assert(s.drop_last() =~= Seq::<char>::empty());
        assert(digits_value(s.drop_last()) == 0);
        assert(digits_value(s) == n);
    } else {
        let head = digits(n / 10);
        let last = digit_char((n % 10) as int);
        lemma_digits_write_their_number(n / 10);
        lemma_digit_char((n % 10) as int);
        let s = head.push(last);
        assert(s.drop_last() =~= head);
        assert(s.last() == last);
        assert(s[0] == head[0]);
        assert forall|i: int| 0 <= i < s.len() implies is_digit(#[trigger] s[i]) by {
            if i < head.len() {
                assert(s[i] == head[i]);
            }
        }
    }
}

/// Digits that do not start with `0` write a number that is not zero, and the numeral of
/// that number is those digits again.
pub proof fn lemma_number_writes_its_digits(s: Seq<char>)
    requires
        s.len() > 0,
        all_digits(s),
        s[0] != '0',
    ensures
        digits_value(s) > 0,
        digits(digits_value(s)) == s,
    decreases s.len(),
{
    let head = s.drop_last();
    let d = digit_value(s.last());
    lemma_digit_value(s.last());
    if s.len() == 1 {
        assert(head =~= Seq::<char>::empty());
        assert(digits_value(head) == 0);
        assert(digits_value(s) == d);
        assert(d != 0);
        assert(digits(d as nat) =~= s);
    } else {
        assert(head[0] == s[0]);
        assert forall|i: int| 0 <= i < head.len() implies is_digit(#[trigger] head[i]) by {
            assert(head[i] == s[i]);
        }
        lemma_number_writes_its_digits(head);
        let n = digits_value(s);
        assert(n == digits_value(head) * 10 + d);
        assert(n / 10 == digits_value(head));
        assert(n % 10 == d);
        assert(digits(n) =~= s);
    }
}

/// The numeral of an integer reads back as that integer.
pub proof fn lemma_parse_of_decimal(n: isize)
    ensures
        parse_int(decimal(n as int)) == Some(n),
        is_canonical(decimal(n as int)),
{
    let s = decimal(n as int);
    if n < 0 {
        let m = (-n) as nat;
        lemma_digits_write_their_number(m);
        assert(s.skip(1) =~= digits(m));
        assert(s[0] == '-');
        assert(literal_body(s) == digits(m));
    } else {
        let m = n as nat;
        lemma_digits_write_their_number(m);
        assert(s == digits(m));
        assert(is_digit(s[0]));
        assert(literal_body(s) == s);
        if m == 0 {
            assert(s =~= seq!['0']);
        }
    }
}

/// A canonical numeral that is read as an integer is the numeral of that integer.
pub proof fn lemma_decimal_of_parse(s: Seq<char>)
    requires
        is_canonical(s),
        parse_int(s) is Some,
    ensures
        decimal(parse_int(s)->0 as int) == s,
{
    if s =~= seq!['0'] {
        assert(literal_body(s) == s);
        assert(s.drop_last() =~= Seq::<char>::empty());
        assert(digits_value(s.drop_last()) == 0);
        assert(digits_value(s) == 0);
        assert(digits(0) =~= s);
    } else if s[0] == '-' {
        let body = s.skip(1);
        assert(literal_body(s) == body);
        lemma_number_writes_its_digits(body);
        assert(seq!['-'] + body =~= s);
    } else {
        assert(is_digit(s[0]));
        assert(literal_body(s) == s);
        lemma_number_writes_its_digits(s);
    }
}

} // verus!
