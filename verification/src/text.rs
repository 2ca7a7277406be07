//! Small string building blocks shared by the formatting code.
use vstd::prelude::*;

verus! {

/// Appends one character (`String::push`).
#[verifier::external_body]
pub(crate) fn push_char(s: &mut String, c: char)
    ensures
        final(s)@ == old(s)@.push(c),
{
    s.push(c);
}

/// Compares two string slices by value, byte for byte (what `<str as PartialEq>::eq`
/// does): equal UTF-8 encodings are equal texts.
pub(crate) fn str_eq(a: &str, b: &str) -> (r: bool)
    ensures
        r == (a@ == b@),
{
    let x = a.as_bytes();
    let y = b.as_bytes();
    proof {
        vstd::utf8::encode_utf8_decode_utf8(a@);
        vstd::utf8::encode_utf8_decode_utf8(b@);
    }
    if x.len() != y.len() {
        return false;
    }
    let mut i: usize = 0;
    while i < x.len()
        invariant
            i <= x@.len(),
            x@.len() == y@.len(),
            x@ == vstd::utf8::encode_utf8(a@),
            y@ == vstd::utf8::encode_utf8(b@),
            forall|j: int| 0 <= j < i ==> x@[j] == y@[j],
        decreases x@.len() - i,
    {
        if x[i] != y[i] {
            return false;
        }
        i = i + 1;
    }
    assert(x@ =~= y@);
    true
}

/// Name for what `str::to_lowercase` returns: the full Unicode lower-case mapping.
pub uninterp spec fn spec_to_lowercase(s: Seq<char>) -> Seq<char>;

/// Lower-cases a string (`str::to_lowercase`).
#[verifier::external_body]
pub(crate) fn to_lowercase(s: &str) -> (r: String)
    ensures
        r@ == spec_to_lowercase(s@),
{
    s.to_lowercase()
}

/// An owned copy of a string slice.
pub fn owned(s: &str) -> (r: String)
    ensures
        r@ == s@,
{
    s.to_owned()
}

/// The concatenation of two strings.
pub fn concat2(a: &str, b: &str) -> (r: String)
    ensures
        r@ == a@ + b@,
{
    let mut r = a.to_owned();
    r.append(b);
    r
}

/// The concatenation of three strings.
pub fn concat3(a: &str, b: &str, c: &str) -> (r: String)
    ensures
        r@ == a@ + b@ + c@,
{
    let mut r = a.to_owned();
    r.append(b);
    r.append(c);
    r
}

/// The decimal digit character for `d < 10`.
pub open spec fn digit_char(d: int) -> char {
    if d == 0 { '0' }
    else if d == 1 { '1' }
    else if d == 2 { '2' }
    else if d == 3 { '3' }
    else if d == 4 { '4' }
    else if d == 5 { '5' }
    else if d == 6 { '6' }
    else if d == 7 { '7' }
    else if d == 8 { '8' }
    else { '9' }
}

/// Decimal notation of a natural number, without leading zeros.
pub open spec fn spec_decimal(n: nat) -> Seq<char>
    decreases n,
{
    if n < 10 {
        seq![digit_char(n as int)]
    } else {
        spec_decimal(n / 10).push(digit_char((n % 10) as int))
    }
}

/// Decimal notation of an integer, with a leading minus sign when negative.
pub open spec fn spec_decimal_int(n: int) -> Seq<char> {
    if n < 0 {
        seq!['-'] + spec_decimal((-n) as nat)
    } else {
        spec_decimal(n as nat)
    }
}

/// Decimal notation padded on the left with zeros to at least `width` characters.
pub open spec fn spec_zero_pad(n: nat, width: nat) -> Seq<char> {
    let d = spec_decimal(n);
    if d.len() >= width {
        d
    } else {
        Seq::new((width - d.len()) as nat, |i: int| '0') + d
    }
}

/// The digit character for `d`.
pub fn digit(d: u64) -> (c: char)
    requires
        d < 10,
    ensures
        c == digit_char(d as int),
{
    match d {
        0 => '0',
        1 => '1',
        2 => '2',
        3 => '3',
        4 => '4',
        5 => '5',
        6 => '6',
        7 => '7',
        8 => '8',
        _ => '9',
    }
}

/// Decimal notation of `n` (what `n.to_string()` gives).
pub fn decimal(n: u64) -> (s: String)
    ensures
        s@ == spec_decimal(n as nat),
    decreases n,
{
    if n < 10 {
        let mut s = String::new();
        push_char(&mut s, digit(n));
        proof {
            assert(s@ =~= seq![digit_char(n as int)]);
        }
        s
    } else {
        let mut s = decimal(n / 10);
        push_char(&mut s, digit(n % 10));
        s
    }
}

/// Decimal notation of a signed `n` (what `n.to_string()` gives).
pub fn decimal_i64(n: i64) -> (s: String)
    ensures
        s@ == spec_decimal_int(n as int),
{
    if n < 0 {
        let m: u64 = if n == i64::MIN {
            9223372036854775808u64
        } else {
            (-n) as u64
        };
        let mut s = String::new();
        push_char(&mut s, '-');
        let d = decimal(m);
        s.append(d.as_str());
        proof {
            assert(s@ =~= seq!['-'] + spec_decimal((-(n as int)) as nat));
        }
        s
    } else {
        decimal(n as u64)
    }
}

pub proof fn lemma_decimal_len(n: nat)
    ensures
        spec_decimal(n).len() >= 1,
        n < 10 ==> spec_decimal(n).len() == 1,
        n >= 10 ==> spec_decimal(n).len() >= 2,
    decreases n,
{
    if n >= 10 {
        lemma_decimal_len(n / 10);
    }
}

/// Decimal notation padded with zeros to two characters (what `{:02}` gives).
pub fn two_digits(n: u64) -> (s: String)
    ensures
        s@ == spec_zero_pad(n as nat, 2),
{
    proof {
        lemma_decimal_len(n as nat);
    }
    if n < 10 {
        let mut s = String::new();
        push_char(&mut s, '0');
        push_char(&mut s, digit(n));
        proof {
            assert(s@ =~= Seq::new(1, |i: int| '0') + spec_decimal(n as nat));
        }
        s
    } else {
        decimal(n)
    }
}

/// Decimal notation padded with zeros to three characters (what `{:03}` gives).
pub fn three_digits(n: u64) -> (s: String)
    ensures
        s@ == spec_zero_pad(n as nat, 3),
{
    proof {
        lemma_decimal_len(n as nat);
        lemma_decimal_len(n as nat / 10);
    }
    if n < 10 {
        let mut s = String::new();
        push_char(&mut s, '0');
        push_char(&mut s, '0');
        push_char(&mut s, digit(n));
        proof {
            assert(s@ =~= Seq::new(2, |i: int| '0') + spec_decimal(n as nat));
        }
        s
    } else if n < 100 {
        let mut s = String::new();
        push_char(&mut s, '0');
        let d = decimal(n);
        s.append(d.as_str());
        proof {
            assert(spec_decimal(n as nat).len() == 2) by {
                assert(spec_decimal(n as nat) == spec_decimal(n as nat / 10).push(digit_char((n % 10) as int)));
            }
            assert(s@ =~= Seq::new(1, |i: int| '0') + spec_decimal(n as nat));
        }
        s
    } else {
        proof {
            assert(spec_decimal(n as nat) == spec_decimal(n as nat / 10).push(digit_char((n % 10) as int)));
        }
        decimal(n)
    }
}

/// The first `n` characters of `s` (all of it when shorter).
pub fn take_chars(s: &str, n: usize) -> (r: String)
    ensures
        r@ == s@.take(if n < s@.len() { n as int } else { s@.len() as int }),
{
    let len = s.unicode_len();
    let end = if n < len { n } else { len };
    let part = s.substring_char(0, end);
    part.to_owned()
}

/// Number of characters of `s`.
pub fn char_count(s: &str) -> (n: usize)
    ensures
        n as int == s@.len(),
{
    s.unicode_len()
}

} // verus!
