use vstd::prelude::*;
use vstd::string::StrSliceExecFns;

verus! {

/// `String::push` appends one character at the end of the string.
pub assume_specification[ String::push ](s: &mut String, ch: char)
    ensures
        final(s)@ == old(s)@.push(ch),
;

/// The ASCII character of a decimal digit.
pub open spec fn digit_char(d: nat) -> char
    recommends
        d < 10,
{
    (48 + d) as char
}

/// The shortest decimal spelling of `n` (no sign, no leading zeros;
/// zero is "0").
pub open spec fn decimal(n: nat) -> Seq<char>
    decreases n,
{
    if n < 10 {
        seq![digit_char(n)]
    } else {
        decimal(n / 10).push(digit_char(n % 10))
    }
}

/// The last `width` decimal digits of `n`, padded on the left with zeros.
pub open spec fn decimal_padded(n: nat, width: nat) -> Seq<char>
    decreases width,
{
    if width == 0 {
        Seq::empty()
    } else {
        decimal_padded(n / 10, (width - 1) as nat).push(digit_char(n % 10))
    }
}

/// A character is an ASCII decimal digit.
pub open spec fn is_digit(c: char) -> bool {
    '0' <= c && c <= '9'
}

pub proof fn lemma_decimal_padded_len(n: nat, width: nat)
    ensures
        decimal_padded(n, width).len() == width,
        forall|i: int| 0 <= i < width ==> is_digit(#[trigger] decimal_padded(n, width)[i]),
    decreases width,
{
    if width > 0 {
        lemma_decimal_padded_len(n / 10, (width - 1) as nat);
    }
}

/// The number a run of decimal digits spells, read in base 10.
pub open spec fn digits_value(s: Seq<char>) -> nat
    decreases s.len(),
{
    if s.len() == 0 {
        0
    } else {
        digits_value(s.drop_last()) * 10 + ((s.last() as nat) - 48) as nat
    }
}

/// Ten to the power `k`.
pub open spec fn pow10(k: nat) -> nat
    decreases k,
{
    if k == 0 {
        1
    } else {
        10 * pow10((k - 1) as nat)
    }
}

proof fn lemma_digit_char(d: nat)
    requires
        d < 10,
    ensures
        is_digit(digit_char(d)),
        (digit_char(d) as nat) - 48 == d,
{
}

/// The decimal spelling of `n` reads back as `n`: it is made of digits,
/// read in base 10 it is `n`, and it has no leading zero (zero itself is
/// the single digit `0`).
pub proof fn lemma_decimal_reads_back(n: nat)
    ensures
        digits_value(decimal(n)) == n,
        decimal(n).len() >= 1,
        forall|i: int| 0 <= i < decimal(n).len() ==> is_digit(#[trigger] decimal(n)[i]),
        decimal(n)[0] == '0' ==> n == 0 && decimal(n).len() == 1,
    decreases n,
{
    if n < 10 {
        lemma_digit_char(n);
        assert(decimal(n).drop_last() =~= Seq::<char>::empty());
        assert(digits_value(Seq::<char>::empty()) == 0);
        assert(digits_value(decimal(n)) == 0 * 10 + ((digit_char(n) as nat) - 48) as nat);
    } else {
        lemma_decimal_reads_back(n / 10);
        lemma_digit_char(n % 10);
        let d = decimal(n);
        assert(d.drop_last() =~= decimal(n / 10));
        assert(d[0] == decimal(n / 10)[0]);
        vstd::arithmetic::div_mod::lemma_fundamental_div_mod(n as int, 10);
        assert(digits_value(d) == (n / 10) * 10 + n % 10);
        vstd::arithmetic::mul::lemma_mul_is_commutative(10, (n / 10) as int);
        assert forall|i: int| 0 <= i < d.len() implies is_digit(#[trigger] d[i]) by {
            if i < d.len() - 1 {
                assert(d[i] == decimal(n / 10)[i]);
            }
        }
    }
}

/// The padded decimal spelling of `n` in `width` digits reads back, in
/// base 10, as the last `width` digits of `n`: as `n` itself whenever `n`
/// has at most `width` digits.
pub proof fn lemma_decimal_padded_reads_back(n: nat, width: nat)
    ensures
        digits_value(decimal_padded(n, width)) == n % pow10(width),
        n < pow10(width) ==> digits_value(decimal_padded(n, width)) == n,
    decreases width,
{
    if width > 0 {
        lemma_decimal_padded_reads_back(n / 10, (width - 1) as nat);
        lemma_digit_char(n % 10);
        let p = decimal_padded(n, width);
        assert(p.drop_last() =~= decimal_padded(n / 10, (width - 1) as nat));
        let m = pow10((width - 1) as nat);
        assert(m > 0) by {
            lemma_pow10_positive((width - 1) as nat);
        }
        vstd::arithmetic::div_mod::lemma_mod_breakdown(n as int, 10, m as int);
        assert(pow10(width) == 10 * m);
        assert(digits_value(p) == ((n / 10) % m) * 10 + n % 10);
        vstd::arithmetic::mul::lemma_mul_is_commutative(10, ((n / 10) % m) as int);
    }
    lemma_pow10_positive(width);
    if n < pow10(width) {
        vstd::arithmetic::div_mod::lemma_small_mod(n, pow10(width));
    }
}

proof fn lemma_pow10_positive(k: nat)
    ensures
        pow10(k) > 0,
    decreases k,
{
    if k > 0 {
        lemma_pow10_positive((k - 1) as nat);
    }
}

fn digit(d: u64) -> (c: char)
    requires
        d < 10,
    ensures
        c == digit_char(d as nat),
{
    let b: u8 = 48u8 + (d as u8);
    b as char
}

/// Appends the decimal spelling of `n` to `s`.
pub fn push_decimal(s: &mut String, n: u64)
    ensures
        final(s)@ == old(s)@ + decimal(n as nat),
    decreases n,
{
    if n >= 10 {
        push_decimal(s, n / 10);
    }
    s.push(digit(n % 10));
    proof {
        assert(decimal(n as nat) == if n < 10 { seq![digit_char(n as nat)] } else {
            decimal((n / 10) as nat).push(digit_char((n % 10) as nat))
        });
    }
}

/// Appends the last `width` decimal digits of `n` to `s`, zero-padded.
pub fn push_decimal_padded(s: &mut String, n: u64, width: u64)
    ensures
        final(s)@ == old(s)@ + decimal_padded(n as nat, width as nat),
    decreases width,
{
    if width > 0 {
        push_decimal_padded(s, n / 10, width - 1);
        s.push(digit(n % 10));
    }
}

/// Lexicographic `a < b` on character sequences from position `i` on,
/// a proper prefix coming first. This is how Rust orders strings: UTF-8
/// keeps the order of code points, so byte order and character order agree.
pub open spec fn chars_lt_from(a: Seq<char>, b: Seq<char>, i: int) -> bool
    decreases a.len() - i,
{
    if i < 0 {
        false
    } else if i >= a.len() {
        i < b.len()
    } else if i >= b.len() {
        false
    } else if a[i] < b[i] {
        true
    } else if a[i] > b[i] {
        false
    } else {
        chars_lt_from(a, b, i + 1)
    }
}

/// `a < b` in the order of Rust strings.
pub open spec fn chars_lt(a: Seq<char>, b: Seq<char>) -> bool {
    chars_lt_from(a, b, 0)
}

proof fn lemma_chars_lt_from_trichotomy(a: Seq<char>, b: Seq<char>, i: int)
    requires
        0 <= i <= a.len(),
        i <= b.len(),
        a.subrange(0, i) == b.subrange(0, i),
    ensures
        a != b ==> (chars_lt_from(a, b, i) || chars_lt_from(b, a, i)),
        !(chars_lt_from(a, b, i) && chars_lt_from(b, a, i)),
    decreases a.len() - i,
{
    if i == a.len() && i == b.len() {
        assert(a =~= a.subrange(0, i));
        assert(b =~= b.subrange(0, i));
    } else if i < a.len() && i < b.len() && a[i] == b[i] {
        assert(a.subrange(0, i + 1) =~= a.subrange(0, i).push(a[i]));
        assert(b.subrange(0, i + 1) =~= b.subrange(0, i).push(b[i]));
        lemma_chars_lt_from_trichotomy(a, b, i + 1);
    }
}

/// Of two different strings exactly one is smaller than the other.
pub proof fn lemma_chars_lt_trichotomy(a: Seq<char>, b: Seq<char>)
    ensures
        a != b ==> (chars_lt(a, b) || chars_lt(b, a)),
        !(chars_lt(a, b) && chars_lt(b, a)),
        !chars_lt(a, a),
{
    assert(a.subrange(0, 0) =~= b.subrange(0, 0));
    lemma_chars_lt_from_trichotomy(a, b, 0);
    lemma_chars_lt_from_trichotomy(a, a, 0);
}

/// Compares two strings in the order Rust gives them.
pub fn str_lt(a: &str, b: &str) -> (lt: bool)
    ensures
        lt == chars_lt(a@, b@),
{
    let a_len = a.unicode_len();
    let b_len = b.unicode_len();
    let mut i: usize = 0;
    while i < a_len && i < b_len
        invariant
            a_len == a@.len(),
            b_len == b@.len(),
            0 <= i <= a_len,
            i <= b_len,
            chars_lt(a@, b@) == chars_lt_from(a@, b@, i as int),
        decreases a_len - i,
    {
        let ca = a.get_char(i);
        let cb = b.get_char(i);
        if ca < cb {
            return true;
        } else if ca > cb {
            return false;
        }
        i = i + 1;
    }
    i == a_len && i < b_len
}

/// Compares two strings for equality of their characters.
pub fn str_eq(a: &str, b: &str) -> (eq: bool)
    ensures
        eq == (a@ == b@),
{
    let a_owned = a.to_owned();
    let b_owned = b.to_owned();
    a_owned == b_owned
}

/// Characters with the Unicode White_Space property, which is what
/// `char::is_whitespace` and the `trim` family of `str` go by.
pub open spec fn is_white_space(c: char) -> bool {
    ('\u{9}' <= c && c <= '\u{d}') || c == ' ' || c == '\u{85}' || c == '\u{a0}' || c
        == '\u{1680}' || ('\u{2000}' <= c && c <= '\u{200a}') || c == '\u{2028}' || c == '\u{2029}'
        || c == '\u{202f}' || c == '\u{205f}' || c == '\u{3000}'
}

/// Whether `c` has the Unicode White_Space property.
pub fn white_space(c: char) -> (b: bool)
    ensures
        b == is_white_space(c),
{
    ('\u{9}' <= c && c <= '\u{d}') || c == ' ' || c == '\u{85}' || c == '\u{a0}' || c == '\u{1680}'
        || ('\u{2000}' <= c && c <= '\u{200a}') || c == '\u{2028}' || c == '\u{2029}' || c
        == '\u{202f}' || c == '\u{205f}' || c == '\u{3000}'
}

/// `s` without its trailing white space.
pub open spec fn trim_end_chars(s: Seq<char>) -> Seq<char>
    decreases s.len(),
{
    if s.len() > 0 && is_white_space(s.last()) {
        trim_end_chars(s.drop_last())
    } else {
        s
    }
}

/// `s` without its leading white space.
pub open spec fn trim_start_chars(s: Seq<char>) -> Seq<char>
    decreases s.len(),
{
    if s.len() > 0 && is_white_space(s[0]) {
        trim_start_chars(s.drop_first())
    } else {
        s
    }
}

/// `s` without leading and trailing white space.
pub open spec fn trim_chars(s: Seq<char>) -> Seq<char> {
    trim_start_chars(trim_end_chars(s))
}

fn trimmed_end(s: &str) -> (e: usize)
    ensures
        e <= s@.len(),
        trim_end_chars(s@) == s@.subrange(0, e as int),
{
    let mut e = s.unicode_len();
    assert(s@.subrange(0, e as int) =~= s@);
    while e > 0 && white_space(s.get_char(e - 1))
        invariant
            e <= s@.len(),
            trim_end_chars(s@) == trim_end_chars(s@.subrange(0, e as int)),
        decreases e,
    {
        assert(s@.subrange(0, e as int).drop_last() =~= s@.subrange(0, e - 1));
        e = e - 1;
    }
    e
}

/// The line without its trailing white space (its line ending among it).
pub fn strip_line_end(line: &str) -> (stripped: &str)
    ensures
        stripped@ == trim_end_chars(line@),
{
    let e = trimmed_end(line);
    line.substring_char(0, e)
}

/// Whether a typed answer means yes: after trimming white space it is a
/// single `y`, in either case.
pub fn is_affirmative(input: &str) -> (yes: bool)
    ensures
        yes == (trim_chars(input@) == seq!['y'] || trim_chars(input@) == seq!['Y']),
{
    let e = trimmed_end(input);
    let ghost t = input@.subrange(0, e as int);
    let mut b: usize = 0;
    assert(t.subrange(0, e as int) =~= t);
    while b < e && white_space(input.get_char(b))
        invariant
            e <= input@.len(),
            t == input@.subrange(0, e as int),
            b <= e,
            trim_start_chars(t) == trim_start_chars(input@.subrange(b as int, e as int)),
        decreases e - b,
    {
        assert(input@.subrange(b as int, e as int).drop_first() =~= input@.subrange(
            b + 1,
            e as int,
        ));
        b = b + 1;
    }
    let ghost r = input@.subrange(b as int, e as int);
    assert(trim_start_chars(r) == r);
    if e - b == 1 {
        let c = input.get_char(b);
        assert(r =~= seq![c]);
        c == 'y' || c == 'Y'
    } else {
        assert(r.len() != 1);
        false
    }
}

} // verus!
