//! Character-level text helpers: splitting strings into characters,
//! comparing them, trimming and lower-casing them, and printing numbers.
use vstd::prelude::*;

verus! {

// ---------------------------------------------------------------------
// Specifications
// ---------------------------------------------------------------------

/// `char::is_whitespace`: the characters with the Unicode property White_Space.
pub open spec fn is_white_space(c: char) -> bool {
    let u = c as int;
    ||| 0x9 <= u <= 0xD
    ||| u == 0x20
    ||| u == 0x85
    ||| u == 0xA0
    ||| u == 0x1680
    ||| 0x2000 <= u <= 0x200A
    ||| u == 0x2028
    ||| u == 0x2029
    ||| u == 0x202F
    ||| u == 0x205F
    ||| u == 0x3000
}

/// `s` without its leading white space.
pub open spec fn trim_start_seq(s: Seq<char>) -> Seq<char>
    decreases s.len(),
{
    if s.len() > 0 && is_white_space(s[0]) {
        trim_start_seq(s.drop_first())
    } else {
        s
    }
}

/// `s` without its trailing white space.
pub open spec fn trim_end_seq(s: Seq<char>) -> Seq<char>
    decreases s.len(),
{
    if s.len() > 0 && is_white_space(s.last()) {
        trim_end_seq(s.drop_last())
    } else {
        s
    }
}

/// `s` without leading and trailing white space (what `str::trim` returns).
pub open spec fn trimmed(s: Seq<char>) -> Seq<char> {
    trim_end_seq(trim_start_seq(s))
}

/// What `str::to_lowercase` returns for the characters `s` (full Unicode case mapping).
pub uninterp spec fn lowercase_of(s: Seq<char>) -> Seq<char>;

/// Whether every character of `s` is ASCII.
pub open spec fn is_ascii_text(s: Seq<char>) -> bool {
    forall|i: int| 0 <= i < s.len() ==> (#[trigger] s[i] as u32) < 128
}

/// The ASCII lower case of a character; every other character is kept.
pub open spec fn ascii_lower(c: char) -> char {
    if 'A' <= c && c <= 'Z' {
        ((c as u32) + 32) as char
    } else {
        c
    }
}

/// The characters with ASCII letters lower-cased.
pub open spec fn ascii_lowercase(s: Seq<char>) -> Seq<char> {
    s.map_values(|c: char| ascii_lower(c))
}

/// Strict lexicographic order on characters, by code point; for UTF-8 text this is
/// the order in which `String`'s `Ord` puts the byte encodings.
pub open spec fn precedes(a: Seq<char>, b: Seq<char>) -> bool
    decreases a.len(),
{
    if a.len() == 0 {
        b.len() > 0
    } else if b.len() == 0 {
        false
    } else if a[0] != b[0] {
        (a[0] as int) < (b[0] as int)
    } else {
        precedes(a.drop_first(), b.drop_first())
    }
}

/// The decimal digit character for `d < 10`; the lower-case hexadecimal one for `d < 16`.
pub open spec fn digit_char(d: nat) -> char {
    if d == 0 { '0' }
    else if d == 1 { '1' }
    else if d == 2 { '2' }
    else if d == 3 { '3' }
    else if d == 4 { '4' }
    else if d == 5 { '5' }
    else if d == 6 { '6' }
    else if d == 7 { '7' }
    else if d == 8 { '8' }
    else if d == 9 { '9' }
    else if d == 10 { 'a' }
    else if d == 11 { 'b' }
    else if d == 12 { 'c' }
    else if d == 13 { 'd' }
    else if d == 14 { 'e' }
    else { 'f' }
}

/// The decimal representation of `n`, without leading zeros.
pub open spec fn decimal_seq(n: nat) -> Seq<char>
    decreases n,
{
    if n < 10 {
        seq![digit_char(n)]
    } else {
        decimal_seq(n / 10).push(digit_char(n % 10))
    }
}

/// The last `width` digits of `n` in base `base`, zero-padded.
pub open spec fn padded_digits(n: nat, base: nat, width: nat) -> Seq<char>
    decreases width,
{
    if width == 0 || base == 0 {
        Seq::empty()
    } else {
        padded_digits(n / base, base, (width - 1) as nat).push(digit_char(n % base))
    }
}

/// Ten to the power `e`.
pub open spec fn pow10(e: nat) -> nat
    decreases e,
{
    if e == 0 { 1 } else { 10 * pow10((e - 1) as nat) }
}

/// `n / d` rounded to the nearest integer, ties to the even one.
pub open spec fn div_round_half_even(n: nat, d: nat) -> nat {
    let q = n / d;
    let r = n % d;
    if 2 * r > d {
        q + 1
    } else if 2 * r < d {
        q
    } else if q % 2 == 0 {
        q
    } else {
        q + 1
    }
}

/// The magnitude of a value given in thousandths, rounded to `digits` decimals
/// and expressed in units of 10^-digits.
pub open spec fn milli_rounded(v: int, digits: nat) -> nat {
    let m: nat = if v < 0 { (-v) as nat } else { v as nat };
    div_round_half_even(m, pow10((3 - digits) as nat))
}

/// A value given in thousandths written with `digits` decimals (1 to 3); the
/// sign is written for every negative value. The value is exact, so a value
/// halfway between two results is rounded to the even one. This is where the
/// text can differ from `format!("{:.N}")` of the same reading held as an
/// `f32`: that number lies slightly off the halfway point and is rounded by
/// which side it lies on, so 0.165 gives "0.16" here where the `f32` 0.165
/// gives "0.17", and -20.15 gives "-20.2" here where the `f32` -20.15 gives
/// "-20.1". Away from such halfway values the two texts agree.
pub open spec fn milli_text(v: int, digits: nat) -> Seq<char> {
    let units = milli_rounded(v, digits);
    let sign: Seq<char> = if v < 0 { seq!['-'] } else { Seq::empty() };
    sign + decimal_seq(units / pow10(digits)) + seq!['.'] + padded_digits(
        units % pow10(digits),
        10,
        digits,
    )
}

/// `n` written as sixteen lower-case hexadecimal digits (`format!("{:016x}")`).
pub open spec fn hex16_text(n: nat) -> Seq<char> {
    padded_digits(n, 16, 16)
}

// ---------------------------------------------------------------------
// Calls into std
// ---------------------------------------------------------------------

/// `String::push`: appends one character.
#[verifier::external_body]
pub(crate) fn push_char(s: &mut String, c: char)
    ensures
        final(s)@ == old(s)@.push(c),
{
    s.push(c);
}

/// `str::to_lowercase`: the text under the Unicode lower-case mapping. What that
/// mapping gives is left to the name `lowercase_of`; on ASCII text it is the
/// ASCII lower case, as Unicode maps `A` to `Z` onto `a` to `z` and keeps the
/// other ASCII characters.
#[verifier::external_body]
pub(crate) fn lowercase_text(s: &str) -> (r: String)
    ensures
        r@ == lowercase_of(s@),
        is_ascii_text(s@) ==> r@ == ascii_lowercase(s@),
{
    s.to_lowercase()
}

// ---------------------------------------------------------------------
// Verified helpers
// ---------------------------------------------------------------------

/// Whether `c` is white space, as `char::is_whitespace` tells.
pub fn is_white_space_char(c: char) -> (r: bool)
    ensures
        r == is_white_space(c),
{
    let u = c as u32;
    (0x9 <= u && u <= 0xD) || u == 0x20 || u == 0x85 || u == 0xA0 || u == 0x1680 || (0x2000 <= u && u
        <= 0x200A) || u == 0x2028 || u == 0x2029 || u == 0x202F || u == 0x205F || u == 0x3000
}

/// The text without leading and trailing Unicode white space, as `str::trim`
/// gives it.
pub fn trim_text(s: &str) -> (r: &str)
    ensures
        r@ == trimmed(s@),
{
    let cs = chars_of(s);
    let n = cs.len();
    let mut i: usize = 0;
    assert(cs@.subrange(0, n as int) =~= cs@);
    while i < n && is_white_space_char(cs[i])
        invariant
            i <= n,
            n == cs.len(),
            cs@ == s@,
            trim_start_seq(cs@) == trim_start_seq(cs@.subrange(i as int, n as int)),
        decreases n - i,
    {
        assert(cs@.subrange(i as int, n as int).drop_first() =~= cs@.subrange(i + 1, n as int));
        i = i + 1;
    }
    let ghost front = cs@.subrange(i as int, n as int);
    assert(trim_start_seq(cs@) == front) by {
        if i == n {
            assert(front.len() == 0);
        } else {
            assert(front[0] == cs@[i as int]);
        }
    }
    let mut j: usize = n;
    assert(cs@.subrange(i as int, j as int) =~= front);
    while j > i && is_white_space_char(cs[j - 1])
        invariant
            i <= j <= n,
            n == cs.len(),
            front == cs@.subrange(i as int, n as int),
            trim_end_seq(front) == trim_end_seq(cs@.subrange(i as int, j as int)),
        decreases j,
    {
        assert(cs@.subrange(i as int, j as int).drop_last() =~= cs@.subrange(i as int, j - 1));
        j = j - 1;
    }
    assert(trim_end_seq(front) == cs@.subrange(i as int, j as int)) by {
        if j > i {
            assert(cs@.subrange(i as int, j as int).last() == cs@[j - 1]);
        }
    }
    s.substring_char(i, j)
}

/// The characters of `s`, in order.
pub fn chars_of(s: &str) -> (r: Vec<char>)
    ensures
        r@ == s@,
{
    let mut r: Vec<char> = Vec::new();
    for c in it: s.chars()
        invariant
            r@ == it.seq().take(it.index() as int),
            it.seq() == s@,
    {
        r.push(c);
    }
    r
}

/// A `String` holding exactly the characters `cs`.
pub fn string_of_chars(cs: &Vec<char>) -> (r: String)
    ensures
        r@ == cs@,
{
    let mut r = String::new();
    let mut i: usize = 0;
    while i < cs.len()
        invariant
            i <= cs.len(),
            r@ == cs@.take(i as int),
        decreases cs.len() - i,
    {
        push_char(&mut r, cs[i]);
        i = i + 1;
        assert(cs@.take(i as int) =~= cs@.take((i - 1) as int).push(cs@[i - 1]));
    }
    assert(cs@.take(cs.len() as int) =~= cs@);
    r
}

/// A `String` holding the characters of `cs` from `from` up to, not including, `to`.
pub fn string_of_range(cs: &Vec<char>, from: usize, to: usize) -> (r: String)
    requires
        from <= to <= cs.len(),
    ensures
        r@ == cs@.subrange(from as int, to as int),
{
    let mut r = String::new();
    let mut i: usize = from;
    while i < to
        invariant
            from <= i <= to,
            to <= cs.len(),
            r@ == cs@.subrange(from as int, i as int),
        decreases to - i,
    {
        push_char(&mut r, cs[i]);
        i = i + 1;
        assert(cs@.subrange(from as int, i as int) =~= cs@.subrange(from as int, (i - 1) as int).push(
            cs@[i - 1],
        ));
    }
    r
}

/// Appends the characters `cs` to `s`.
pub fn append_chars(s: &mut String, cs: &Vec<char>)
    ensures
        final(s)@ == old(s)@ + cs@,
{
    let mut i: usize = 0;
    while i < cs.len()
        invariant
            i <= cs.len(),
            s@ == old(s)@ + cs@.take(i as int),
        decreases cs.len() - i,
    {
        push_char(s, cs[i]);
        i = i + 1;
        assert(cs@.take(i as int) =~= cs@.take((i - 1) as int).push(cs@[i - 1]));
    }
    assert(cs@.take(cs.len() as int) =~= cs@);
}

/// Appends the characters of `t` to `s`.
pub fn append_text(s: &mut String, t: &str)
    ensures
        final(s)@ == old(s)@ + t@,
{
    let cs = chars_of(t);
    append_chars(s, &cs);
}

/// Whether the two texts hold the same characters.
pub fn text_equal(a: &str, b: &str) -> (r: bool)
    ensures
        r == (a@ == b@),
{
    let ca = chars_of(a);
    let cb = chars_of(b);
    chars_equal(&ca, &cb)
}

/// Whether the two character sequences are equal.
pub fn chars_equal(a: &Vec<char>, b: &Vec<char>) -> (r: bool)
    ensures
        r == (a@ == b@),
{
    if a.len() != b.len() {
        return false;
    }
    let mut i: usize = 0;
    while i < a.len()
        invariant
            a.len() == b.len(),
            i <= a.len(),
            forall|j: int| 0 <= j < i ==> a@[j] == b@[j],
        decreases a.len() - i,
    {
        if a[i] != b[i] {
            return false;
        }
        i = i + 1;
    }
    assert(a@ =~= b@);
    true
}

proof fn lemma_precedes_step(a: Seq<char>, b: Seq<char>, i: int)
    requires
        0 <= i < a.len(),
        i < b.len(),
        a[i] == b[i],
    ensures
        precedes(a.skip(i), b.skip(i)) == precedes(a.skip(i + 1), b.skip(i + 1)),
{
    assert(a.skip(i).drop_first() =~= a.skip(i + 1));
    assert(b.skip(i).drop_first() =~= b.skip(i + 1));
}

/// Whether `a` comes strictly before `b` in lexicographic character order.
pub fn chars_precede(a: &Vec<char>, b: &Vec<char>) -> (r: bool)
    ensures
        r == precedes(a@, b@),
{
    let mut i: usize = 0;
    assert(a@.skip(0) =~= a@);
    assert(b@.skip(0) =~= b@);
    while i < a.len() && i < b.len()
        invariant
            i <= a.len(),
            i <= b.len(),
            precedes(a@, b@) == precedes(a@.skip(i as int), b@.skip(i as int)),
        decreases a.len() - i,
    {
        if a[i] != b[i] {
            return a[i] < b[i];
        }
        proof {
            lemma_precedes_step(a@, b@, i as int);
        }
        i = i + 1;
    }
    a.len() == i && i < b.len()
}

/// The decimal or hexadecimal digit character for `d`.
pub fn digit(d: u64) -> (c: char)
    requires
        d < 16,
    ensures
        c == digit_char(d as nat),
{
    match d {
        0 => '0',
        1 => '1',
        2 => '2',
        3 => '3',
        4 => '4',
        5 => '5',
        6 => '6',
        7 => '7',
        8 => '8',
        9 => '9',
        10 => 'a',
        11 => 'b',
        12 => 'c',
        13 => 'd',
        14 => 'e',
        _ => 'f',
    }
}

/// The decimal digits of `n`.
pub fn decimal_chars(n: u64) -> (r: Vec<char>)
    ensures
        r@ == decimal_seq(n as nat),
    decreases n,
{
    if n < 10 {
        let mut r: Vec<char> = Vec::new();
        r.push(digit(n));
        assert(r@ =~= seq![digit_char(n as nat)]);
        r
    } else {
        let mut r = decimal_chars(n / 10);
        r.push(digit(n % 10));
        r
    }
}

/// The last `width` digits of `n` in base `base`, zero-padded.
pub fn padded_chars(n: u64, base: u64, width: u64) -> (r: Vec<char>)
    requires
        2 <= base <= 16,
    ensures
        r@ == padded_digits(n as nat, base as nat, width as nat),
    decreases width,
{
    if width == 0 {
        let r: Vec<char> = Vec::new();
        assert(r@ =~= Seq::<char>::empty());
        r
    } else {
        let mut r = padded_chars(n / base, base, width - 1);
        r.push(digit(n % base));
        r
    }
}

/// `n` written with sixteen lower-case hexadecimal digits.
pub fn hex16(n: u64) -> (r: String)
    ensures
        r@ == hex16_text(n as nat),
{
    let cs = padded_chars(n, 16, 16);
    string_of_chars(&cs)
}

/// `n` written in decimal.
pub fn decimal_text(n: u64) -> (r: String)
    ensures
        r@ == decimal_seq(n as nat),
{
    let cs = decimal_chars(n);
    string_of_chars(&cs)
}

/// A value in thousandths written with `digits` decimals.
pub fn milli_to_text(v: i64, digits: u64) -> (r: String)
    requires
        1 <= digits <= 3,
    ensures
        r@ == milli_text(v as int, digits as nat),
{
    let m: u64 = if v < 0 {
        let w: i64 = -(v + 1);
        (w as u64) + 1
    } else {
        v as u64
    };
    let d: u64 = if digits == 3 {
        1
    } else if digits == 2 {
        10
    } else {
        100
    };
    let p: u64 = if digits == 3 {
        1000
    } else if digits == 2 {
        100
    } else {
        10
    };
    assert(pow10(0) == 1 && pow10(1) == 10 && pow10(2) == 100 && pow10(3) == 1000) by {
        reveal_with_fuel(pow10, 4);
    }
    assert(d == pow10((3 - digits) as nat));
    assert(p == pow10(digits as nat));
    let q = m / d;
    let rem = m % d;
    let units: u64 = if 2 * rem > d {
        q + 1
    } else if 2 * rem < d {
        q
    } else if q % 2 == 0 {
        q
    } else {
        q + 1
    };
    assert(units == milli_rounded(v as int, digits as nat));
    let mut r = String::new();
    if v < 0 {
        push_char(&mut r, '-');
    }
    let int_part = decimal_chars(units / p);
    append_chars(&mut r, &int_part);
    push_char(&mut r, '.');
    let frac = padded_chars(units % p, 10, digits);
    append_chars(&mut r, &frac);
    let ghost sign: Seq<char> = if v < 0 { seq!['-'] } else { Seq::<char>::empty() };
    assert(r@ =~= sign + decimal_seq((units / p) as nat) + seq!['.'] + padded_digits(
        (units % p) as nat,
        10,
        digits as nat,
    ));
    r
}

/// A `String` holding the characters of `t`.
pub fn text_of(t: &str) -> (r: String)
    ensures
        r@ == t@,
{
    let mut r = String::new();
    append_text(&mut r, t);
    r
}

} // verus!
