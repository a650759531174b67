//! Strings as sequences of characters, and numbers written out by hand.
//!
//! The handset's binary does without `core::fmt`, so decimal and hexadecimal are spelled here.

use vstd::prelude::*;
use vstd::string::*;
use vstd::utf8;

verus! {

/// `String::push` appends one character at the end.
pub assume_specification[ String::push ](s: &mut String, c: char)
    ensures
        final(s)@ == old(s)@.push(c),
;

/// The characters of a string, as a vector that can be indexed.
pub fn chars_of(s: &str) -> (r: Vec<char>)
    ensures
        r@ == s@,
{
    let n: usize = s.unicode_len();
    let mut out: Vec<char> = Vec::new();
    let mut i: usize = 0;
    while i < n
        invariant
            n == s@.len(),
            i <= n,
            out@ == s@.take(i as int),
        decreases n - i,
    {
        let c = s.get_char(i);
        out.push(c);
        i += 1;
        assert(s@.take(i as int) =~= s@.take(i - 1).push(s@[i - 1]));
    }
    assert(s@.take(n as int) =~= s@);
    out
}

/// A string made of the given characters.
pub fn string_of(v: &Vec<char>) -> (r: String)
    ensures
        r@ == v@,
{
    let mut out = String::new();
    let mut i: usize = 0;
    while i < v.len()
        invariant
            i <= v.len(),
            out@ == v@.take(i as int),
        decreases v.len() - i,
    {
        out.push(v[i]);
        i += 1;
        assert(v@.take(i as int) =~= v@.take(i - 1).push(v@[i - 1]));
    }
    assert(v@.take(v@.len() as int) =~= v@);
    out
}

/// Whether two strings hold the same characters.
pub fn same(a: &str, b: &str) -> (r: bool)
    ensures
        r == (a@ == b@),
{
    a.to_owned() == b.to_owned()
}

/// Whether `s` begins with `p`.
pub open spec fn has_prefix(s: Seq<char>, p: Seq<char>) -> bool {
    p.len() <= s.len() && s.take(p.len() as int) == p
}

/// Whether `s` ends with `p`.
pub open spec fn has_suffix(s: Seq<char>, p: Seq<char>) -> bool {
    p.len() <= s.len() && s.skip(s.len() - p.len()) == p
}

/// Whether `s` begins with `p`.
pub fn starts_with(s: &str, p: &str) -> (r: bool)
    ensures
        r == has_prefix(s@, p@),
{
    let a = chars_of(s);
    let b = chars_of(p);
    if b.len() > a.len() {
        return false;
    }
    let mut i: usize = 0;
    while i < b.len()
        invariant
            a@ == s@,
            b@ == p@,
            b.len() <= a.len(),
            i <= b.len(),
            forall|j: int| 0 <= j < i ==> a@[j] == b@[j],
        decreases b.len() - i,
    {
        if a[i] != b[i] {
            assert(s@.take(p@.len() as int)[i as int] != p@[i as int]);
            return false;
        }
        i += 1;
    }
    assert(s@.take(p@.len() as int) =~= p@);
    true
}

/// Whether `s` ends with `p`.
pub fn ends_with(s: &str, p: &str) -> (r: bool)
    ensures
        r == has_suffix(s@, p@),
{
    let a = chars_of(s);
    let b = chars_of(p);
    if b.len() > a.len() {
        return false;
    }
    let start: usize = a.len() - b.len();
    let mut i: usize = 0;
    while i < b.len()
        invariant
            a@ == s@,
            b@ == p@,
            start + b.len() == a.len(),
            i <= b.len(),
            forall|j: int| 0 <= j < i ==> a@[start + j] == b@[j],
        decreases b.len() - i,
    {
        if a[start + i] != b[i] {
            assert(s@.skip(start as int)[i as int] != p@[i as int]);
            return false;
        }
        i += 1;
    }
    assert(s@.skip(start as int) =~= p@);
    true
}

/// `String::from_utf8`: the text some bytes encode, or nothing when they are not UTF-8.
#[verifier::external_body]
pub(crate) fn utf8_text(bytes: Vec<u8>) -> (r: Option<String>)
    ensures
        (match r {
            Some(s) => utf8::valid_utf8(bytes@) && s@ == utf8::decode_utf8(bytes@),
            None => !utf8::valid_utf8(bytes@),
        }),
{
    match String::from_utf8(bytes) {
        Ok(s) => Some(s),
        Err(_) => None,
    }
}

/// The decimal digits of a number, most significant first.
pub open spec fn decimal(v: nat) -> Seq<char>
    decreases v,
{
    if v < 10 {
        seq![digit(v)]
    } else {
        decimal(v / 10).push(digit(v % 10))
    }
}

/// The character of one decimal digit.
pub open spec fn digit(d: nat) -> char {
    (48 + d) as char
}

/// The character of one decimal digit.
pub fn digit_char(d: u8) -> (c: char)
    requires
        d < 10,
    ensures
        c == digit(d as nat),
{
    (48u8 + d) as char
}

/// Append a number to a string in decimal.
pub fn push_u64(s: &mut String, v: u64)
    ensures
        final(s)@ == old(s)@ + decimal(v as nat),
{
    let mut d: Vec<char> = Vec::new();
    let mut n: u64 = v;
    assert(d@.reverse() =~= seq![]);
    assert(decimal(v as nat) =~= decimal(n as nat) + d@.reverse());
    loop
        invariant_except_break
            decimal(v as nat) == decimal(n as nat) + d@.reverse(),
        ensures
            decimal(v as nat) == d@.reverse(),
        decreases n,
    {
        let ghost before = d@;
        let c = digit_char((n % 10) as u8);
        d.push(c);
        assert(d@.reverse() =~= seq![c] + before.reverse());
        if n < 10 {
            assert(decimal(n as nat) == seq![c]);
            break;
        }
        let ghost high = decimal((n / 10) as nat);
        assert(decimal(n as nat) == high.push(c));
        assert(high.push(c) + before.reverse() =~= high + d@.reverse());
        n = n / 10;
    }
    let ghost start = s@;
    let mut k: usize = d.len();
    while k > 0
        invariant
            k <= d.len(),
            s@ =~= start + d@.reverse().take(d.len() - k),
        decreases k,
    {
        k -= 1;
        s.push(d[k]);
        assert(d@.reverse().take(d.len() - k) =~= d@.reverse().take(d.len() - k - 1).push(
            d@.reverse()[d.len() - k - 1],
        ));
    }
    assert(d@.reverse().take(d.len() as int) =~= d@.reverse());
}

/// A number below a hundred as two digits.
pub open spec fn two_digits(v: int) -> Seq<char> {
    seq![digit((v / 10) as nat), digit((v % 10) as nat)]
}

/// Append a number below a hundred as two digits.
pub fn push_two(s: &mut String, v: u64)
    requires
        v < 100,
    ensures
        final(s)@ == old(s)@ + two_digits(v as int),
{
    let ghost start = s@;
    s.push(digit_char((v / 10) as u8));
    s.push(digit_char((v % 10) as u8));
    assert(s@ =~= start + two_digits(v as int));
}

/// A number in decimal, with a sign in front of a negative one.
pub open spec fn signed_decimal(v: int) -> Seq<char> {
    if v < 0 {
        seq!['-'] + decimal((-v) as nat)
    } else {
        decimal(v as nat)
    }
}

/// Append a number to a string in decimal, with a sign in front of a negative one.
pub fn push_i64(s: &mut String, v: i64)
    ensures
        final(s)@ == old(s)@ + signed_decimal(v as int),
{
    let ghost start = s@;
    if v < 0 {
        s.push('-');
        let mag: u64 = if v == i64::MIN {
            9_223_372_036_854_775_808
        } else {
            (-v) as u64
        };
        push_u64(s, mag);
        assert(s@ =~= start + (seq!['-'] + decimal(mag as nat)));
    } else {
        push_u64(s, v as u64);
    }
}

/// A small unsigned integer as text.
pub fn itoa(v: u32) -> (r: String)
    ensures
        r@ == decimal(v as nat),
{
    let mut s = String::new();
    push_u64(&mut s, v as u64);
    assert(s@ =~= decimal(v as nat));
    s
}

/// The character of one hexadecimal digit, lower case.
pub open spec fn hex_digit(d: u64) -> char {
    if d < 10 {
        (48 + d) as char
    } else {
        (87 + d) as char
    }
}

/// The character of one hexadecimal digit, lower case.
pub fn hex_char(d: u8) -> (c: char)
    requires
        d < 16,
    ensures
        c == hex_digit(d as u64),
{
    if d < 10 {
        (48u8 + d) as char
    } else {
        (87u8 + d) as char
    }
}

/// The `i`-th four bits of `v`, counted from the low end.
pub open spec fn nibble(v: u64, i: int) -> u64 {
    (v >> ((4 * i) as u64)) & 15
}

/// The low `width` hexadecimal digits of `v`, most significant first, padded with zeros.
pub open spec fn hex_padded(v: u64, width: nat) -> Seq<char> {
    Seq::new(width, |i: int| hex_digit(nibble(v, width - 1 - i)))
}

/// Append the low `width` hexadecimal digits of a number, padded with zeros.
pub fn push_hex(s: &mut String, v: u64, width: u8)
    requires
        width <= 16,
    ensures
        final(s)@ == old(s)@ + hex_padded(v, width as nat),
{
    let ghost start = s@;
    let mut k: u8 = width;
    while k > 0
        invariant
            k <= width <= 16,
            s@ =~= start + hex_padded(v, width as nat).take(width - k),
        decreases k,
    {
        k -= 1;
        let shift: u64 = 4 * (k as u64);
        let d: u64 = (v >> shift) & 15;
        assert(d < 16) by (bit_vector)
            requires
                d == (v >> shift) & 15,
        ;
        s.push(hex_char(d as u8));
        assert(hex_padded(v, width as nat).take(width - k) =~= hex_padded(v, width as nat).take(
            width - k - 1,
        ).push(hex_padded(v, width as nat)[width - k - 1]));
    }
    assert(hex_padded(v, width as nat).take(width as int) =~= hex_padded(v, width as nat));
}

/// Sixteen padded digits say which number they were written from.
pub proof fn hex_padded_is_injective(a: u64, b: u64)
    requires
        hex_padded(a, 16) == hex_padded(b, 16),
    ensures
        a == b,
{
    assert forall|i: int| 0 <= i < 16 implies nibble(a, i) == nibble(b, i) by {
        let x = nibble(a, i);
        let y = nibble(b, i);
        let sh = (4 * i) as u64;
        assert((a >> sh) & 15 < 16 && (b >> sh) & 15 < 16) by (bit_vector);
        assert(hex_padded(a, 16)[15 - i] == hex_digit(x));
        assert(hex_padded(b, 16)[15 - i] == hex_digit(y));
    }
    assert(nibble(a, 0) == nibble(b, 0) && nibble(a, 1) == nibble(b, 1) && nibble(a, 2) == nibble(
        b,
        2,
    ) && nibble(a, 3) == nibble(b, 3) && nibble(a, 4) == nibble(b, 4) && nibble(a, 5) == nibble(
        b,
        5,
    ) && nibble(a, 6) == nibble(b, 6) && nibble(a, 7) == nibble(b, 7) && nibble(a, 8) == nibble(
        b,
        8,
    ) && nibble(a, 9) == nibble(b, 9) && nibble(a, 10) == nibble(b, 10) && nibble(a, 11) == nibble(
        b,
        11,
    ) && nibble(a, 12) == nibble(b, 12) && nibble(a, 13) == nibble(b, 13) && nibble(a, 14)
        == nibble(b, 14) && nibble(a, 15) == nibble(b, 15));
    assert(a == b) by (bit_vector)
        requires
            (a >> 0u64) & 15 == (b >> 0u64) & 15,
            (a >> 4u64) & 15 == (b >> 4u64) & 15,
            (a >> 8u64) & 15 == (b >> 8u64) & 15,
            (a >> 12u64) & 15 == (b >> 12u64) & 15,
            (a >> 16u64) & 15 == (b >> 16u64) & 15,
            (a >> 20u64) & 15 == (b >> 20u64) & 15,
            (a >> 24u64) & 15 == (b >> 24u64) & 15,
            (a >> 28u64) & 15 == (b >> 28u64) & 15,
            (a >> 32u64) & 15 == (b >> 32u64) & 15,
            (a >> 36u64) & 15 == (b >> 36u64) & 15,
            (a >> 40u64) & 15 == (b >> 40u64) & 15,
            (a >> 44u64) & 15 == (b >> 44u64) & 15,
            (a >> 48u64) & 15 == (b >> 48u64) & 15,
            (a >> 52u64) & 15 == (b >> 52u64) & 15,
            (a >> 56u64) & 15 == (b >> 56u64) & 15,
            (a >> 60u64) & 15 == (b >> 60u64) & 15,
    ;
}

/// The hexadecimal digits of some bytes, two each.
pub open spec fn hex_of(b: Seq<u8>) -> Seq<char>
    decreases b.len(),
{
    if b.len() == 0 {
        seq![]
    } else {
        hex_of(b.drop_last()) + hex_padded(b.last() as u64, 2)
    }
}

/// The first few of some bytes, and all of them where there are not as many.
pub open spec fn up_to(b: Seq<u8>, limit: nat) -> Seq<u8> {
    if limit < b.len() {
        b.take(limit as int)
    } else {
        b
    }
}

/// The first `limit` of some bytes in hexadecimal.
pub fn hex(b: &[u8], limit: usize) -> (r: String)
    ensures
        r@ == hex_of(up_to(b@, limit as nat)),
{
    let n: usize = if limit < b.len() {
        limit
    } else {
        b.len()
    };
    let mut s = String::new();
    let mut i: usize = 0;
    while i < n
        invariant
            i <= n <= b@.len(),
            s@ == hex_of(b@.take(i as int)),
        decreases n - i,
    {
        assert(b@.take(i + 1).drop_last() =~= b@.take(i as int));
        push_hex(&mut s, b[i] as u64, 2);
        i += 1;
    }
    assert(b@.take(n as int) =~= up_to(b@, limit as nat));
    s
}

} // verus!
