//! Text as sequences of characters: prefixes, trimming, case folding, numbers and UTF-16.

use vstd::prelude::*;
use vstd::string::*;

verus! {

/// `String::push` appends one character.
pub assume_specification[ String::push ](s: &mut String, c: char)
    ensures
        final(s)@ == old(s)@.push(c),
;

/// The characters of `s`, in order.
pub fn chars_of(s: &str) -> (out: Vec<char>)
    ensures
        out@ == s@,
{
    let mut out: Vec<char> = Vec::new();
    for c in it: s.chars()
        invariant
            it.seq() == s@,
            out@ == s@.take(it.index() as int),
    {
        out.push(c);
        assert(s@.take(it.index() + 1) =~= s@.take(it.index() as int).push(c));
    }
    assert(s@.take(s@.len() as int) =~= s@);
    out
}

/// Whether two texts hold the same characters.
pub fn same_text(a: &str, b: &str) -> (r: bool)
    ensures
        r == (a@ == b@),
{
    let x = chars_of(a);
    let y = chars_of(b);
    same_chars(x.as_slice(), y.as_slice())
}

/// Whether two character slices are equal.
pub fn same_chars(a: &[char], b: &[char]) -> (r: bool)
    ensures
        r == (a@ == b@),
{
    if a.len() != b.len() {
        return false;
    }
    let mut i: usize = 0;
    while i < a.len()
        invariant
            i <= a@.len(),
            a@.len() == b@.len(),
            forall|k: int| 0 <= k < i ==> a@[k] == b@[k],
        decreases a@.len() - i,
    {
        if a[i] != b[i] {
            return false;
        }
        i = i + 1;
    }
    assert(a@ =~= b@);
    true
}

/// Whether `s` begins with `p`.
pub fn has_prefix(s: &str, p: &str) -> (r: bool)
    ensures
        r == p@.is_prefix_of(s@),
{
    let n: usize = p.unicode_len();
    if s.unicode_len() < n {
        return false;
    }
    same_text(s.substring_char(0, n), p)
}

/// `s` without the prefix `p`, or `None` where it does not begin with it.
pub fn without_prefix<'a>(s: &'a str, p: &str) -> (r: Option<&'a str>)
    ensures
        match r {
            Some(rest) => p@.is_prefix_of(s@) && rest@ == s@.skip(p@.len() as int),
            None => !p@.is_prefix_of(s@),
        },
{
    if has_prefix(s, p) {
        Some(s.substring_char(p.unicode_len(), s.unicode_len()))
    } else {
        None
    }
}

/// Whether `s` ends in `p`.
pub fn has_suffix(s: &str, p: &str) -> (r: bool)
    ensures
        r == p@.is_suffix_of(s@),
{
    let n: usize = p.unicode_len();
    let m: usize = s.unicode_len();
    if m < n {
        return false;
    }
    let tail = s.substring_char(m - n, m);
    assert(tail@ =~= s@.subrange(s@.len() - p@.len(), s@.len() as int));
    same_text(tail, p)
}

/// Whether `p` occurs in `s`.
pub open spec fn occurs(s: Seq<char>, p: Seq<char>) -> bool {
    exists|i: int| 0 <= i <= s.len() - p.len() && #[trigger] s.subrange(i, i + p.len()) == p
}

/// [`occurs`].
pub fn contains_text(s: &str, p: &str) -> (r: bool)
    ensures
        r == occurs(s@, p@),
{
    let n: usize = p.unicode_len();
    let m: usize = s.unicode_len();
    if m < n {
        return false;
    }
    if n == 0 {
        let ghost i0: int = 0;
        assert(s@.subrange(i0, i0 + p@.len()) =~= p@);
        return true;
    }
    let mut i: usize = 0;
    while i <= m - n
        invariant
            0 < n,
            n == p@.len(),
            m == s@.len(),
            n <= m,
            i <= m - n + 1,
            forall|k: int| 0 <= k < i ==> #[trigger] s@.subrange(k, k + n) != p@,
        decreases m - n + 1 - i,
    {
        let part = s.substring_char(i, i + n);
        assert(part@ =~= s@.subrange(i as int, i + n));
        if same_text(part, p) {
            assert(s@.subrange(i as int, i + p@.len()) == p@);
            return true;
        }
        i = i + 1;
    }
    false
}

/// `a` followed by `b`.
pub fn joined(a: &str, b: &str) -> (out: String)
    ensures
        out@ == a@ + b@,
{
    let mut out = a.to_owned();
    out.append(b);
    out
}

/// The view of an optional text.
pub open spec fn option_text(s: Option<String>) -> Option<Seq<char>> {
    match s {
        Some(t) => Some(t@),
        None => None,
    }
}

/// The views of a list of texts.
pub open spec fn texts(v: Seq<String>) -> Seq<Seq<char>> {
    v.map_values(|s: String| s@)
}

// ---------------------------------------------------------------------------------------
// Character classes and trimming.

/// The classes of characters that are trimmed.
#[derive(Clone, Copy, PartialEq, Eq, Structural)]
pub enum CharClass {
    /// Unicode `White_Space`.
    White,
    /// The two path separators.
    Separator,
}

/// The characters with the Unicode `White_Space` property.
pub open spec fn is_white(c: char) -> bool {
    ||| '\u{9}' <= c <= '\u{d}'
    ||| c == ' '
    ||| c == '\u{85}'
    ||| c == '\u{a0}'
    ||| c == '\u{1680}'
    ||| '\u{2000}' <= c <= '\u{200a}'
    ||| c == '\u{2028}'
    ||| c == '\u{2029}'
    ||| c == '\u{202f}'
    ||| c == '\u{205f}'
    ||| c == '\u{3000}'
}

/// The path separators.
pub open spec fn is_separator(c: char) -> bool {
    c == '\\' || c == '/'
}

impl CharClass {
    /// Whether `c` belongs to the class.
    pub open spec fn spec_has(self, c: char) -> bool {
        match self {
            CharClass::White => is_white(c),
            CharClass::Separator => is_separator(c),
        }
    }

    /// Whether `c` belongs to the class.
    pub fn has(self, c: char) -> (r: bool)
        ensures
            r == self.spec_has(c),
    {
        match self {
            CharClass::White => ('\u{9}' <= c && c <= '\u{d}') || c == ' ' || c == '\u{85}' || c
                == '\u{a0}' || c == '\u{1680}' || ('\u{2000}' <= c && c <= '\u{200a}') || c
                == '\u{2028}' || c == '\u{2029}' || c == '\u{202f}' || c == '\u{205f}' || c
                == '\u{3000}',
            CharClass::Separator => c == '\\' || c == '/',
        }
    }
}

/// `s` without its leading characters of `class`.
pub open spec fn drop_leading(s: Seq<char>, class: CharClass) -> Seq<char>
    decreases s.len(),
{
    if s.len() > 0 && class.spec_has(s[0]) {
        drop_leading(s.skip(1), class)
    } else {
        s
    }
}

/// `s` without its trailing characters of `class`.
pub open spec fn drop_trailing(s: Seq<char>, class: CharClass) -> Seq<char>
    decreases s.len(),
{
    if s.len() > 0 && class.spec_has(s.last()) {
        drop_trailing(s.drop_last(), class)
    } else {
        s
    }
}

/// `s` without leading and trailing white space.
pub open spec fn trimmed(s: Seq<char>) -> Seq<char> {
    drop_trailing(drop_leading(s, CharClass::White), CharClass::White)
}

/// [`drop_leading`].
pub fn trim_start<'a>(s: &'a str, class: CharClass) -> (r: &'a str)
    ensures
        r@ == drop_leading(s@, class),
{
    let chars = chars_of(s);
    let mut i: usize = 0;
    assert(s@.skip(0) =~= s@);
    while i < chars.len() && class.has(chars[i])
        invariant
            chars@ == s@,
            i <= s@.len(),
            drop_leading(s@, class) == drop_leading(s@.skip(i as int), class),
        decreases s@.len() - i,
    {
        assert(s@.skip(i as int).skip(1) =~= s@.skip(i + 1));
        i = i + 1;
    }
    let r = s.substring_char(i, s.unicode_len());
    assert(r@ =~= s@.skip(i as int));
    r
}

/// [`drop_trailing`].
pub fn trim_end<'a>(s: &'a str, class: CharClass) -> (r: &'a str)
    ensures
        r@ == drop_trailing(s@, class),
{
    let chars = chars_of(s);
    let mut n: usize = chars.len();
    assert(s@.take(n as int) =~= s@);
    while n > 0 && class.has(chars[n - 1])
        invariant
            chars@ == s@,
            n <= s@.len(),
            drop_trailing(s@, class) == drop_trailing(s@.take(n as int), class),
        decreases n,
    {
        assert(s@.take(n as int).drop_last() =~= s@.take(n - 1));
        n = n - 1;
    }
    let r = s.substring_char(0, n);
    assert(r@ =~= s@.take(n as int));
    r
}

/// [`trimmed`].
pub fn trim<'a>(s: &'a str) -> (r: &'a str)
    ensures
        r@ == trimmed(s@),
{
    trim_end(trim_start(s, CharClass::White), CharClass::White)
}

/// What follows the last path separator of `s`.
pub open spec fn last_component(s: Seq<char>) -> Seq<char>
    decreases s.len(),
{
    if s.len() == 0 || is_separator(s.last()) {
        seq![]
    } else {
        last_component(s.drop_last()).push(s.last())
    }
}

/// [`last_component`].
pub fn final_component(s: &str) -> (out: String)
    ensures
        out@ == last_component(s@),
{
    let chars = chars_of(s);
    let mut from: usize = 0;
    let mut i: usize = 0;
    assert(s@.subrange(0, 0) =~= last_component(s@.take(0)));
    while i < chars.len()
        invariant
            chars@ == s@,
            from <= i <= s@.len(),
            s@.subrange(from as int, i as int) == last_component(s@.take(i as int)),
        decreases s@.len() - i,
    {
        assert(s@.take(i + 1).drop_last() =~= s@.take(i as int));
        if CharClass::Separator.has(chars[i]) {
            from = i + 1;
        }
        i = i + 1;
        assert(s@.subrange(from as int, i as int) =~= last_component(s@.take(i as int)));
    }
    assert(s@.take(i as int) =~= s@);
    s.substring_char(from, i).to_owned()
}

// ---------------------------------------------------------------------------------------
// ASCII case folding.

/// `c` with an ASCII capital made small.
pub open spec fn ascii_lower(c: char) -> char {
    if 'A' <= c <= 'Z' {
        (c as u32 + 32) as char
    } else {
        c
    }
}

/// `s` with every ASCII capital made small.
pub open spec fn ascii_lowered(s: Seq<char>) -> Seq<char> {
    s.map_values(|c: char| ascii_lower(c))
}

/// [`ascii_lower`].
pub fn to_lower(c: char) -> (r: char)
    ensures
        r == ascii_lower(c),
{
    if 'A' <= c && c <= 'Z' {
        let b: u8 = c as u8;
        (b + 32u8) as char
    } else {
        c
    }
}

/// [`ascii_lowered`].
pub fn lower_text(s: &str) -> (out: String)
    ensures
        out@ == ascii_lowered(s@),
{
    let chars = chars_of(s);
    let mut out = String::new();
    let mut i: usize = 0;
    while i < chars.len()
        invariant
            chars@ == s@,
            i <= s@.len(),
            out@ == ascii_lowered(s@.take(i as int)),
        decreases s@.len() - i,
    {
        out.push(to_lower(chars[i]));
        assert(ascii_lowered(s@.take(i + 1)) =~= ascii_lowered(s@.take(i as int)).push(
            ascii_lower(s@[i as int]),
        ));
        i = i + 1;
    }
    assert(s@.take(i as int) =~= s@);
    out
}

/// Whether two texts differ at most in the case of ASCII letters.
pub fn same_ignoring_ascii_case(a: &str, b: &str) -> (r: bool)
    ensures
        r == (ascii_lowered(a@) == ascii_lowered(b@)),
{
    same_text(lower_text(a).as_str(), lower_text(b).as_str())
}

/// `s` with every `from` replaced by `to`.
pub open spec fn replaced(s: Seq<char>, from: char, to: char) -> Seq<char> {
    s.map_values(|c: char| if c == from { to } else { c })
}

/// [`replaced`].
pub fn replace_char(s: &str, from: char, to: char) -> (out: String)
    ensures
        out@ == replaced(s@, from, to),
{
    let chars = chars_of(s);
    let mut out = String::new();
    let mut i: usize = 0;
    while i < chars.len()
        invariant
            chars@ == s@,
            i <= s@.len(),
            out@ == replaced(s@.take(i as int), from, to),
        decreases s@.len() - i,
    {
        let c = chars[i];
        out.push(if c == from { to } else { c });
        assert(replaced(s@.take(i + 1), from, to) =~= replaced(s@.take(i as int), from, to).push(
            if c == from { to } else { c },
        ));
        i = i + 1;
    }
    assert(s@.take(i as int) =~= s@);
    out
}

// ---------------------------------------------------------------------------------------
// Numbers.

/// The character of one digit below sixteen, in lower case.
pub open spec fn digit_char(d: int) -> char {
    if d < 10 {
        ('0' as u32 + d) as char
    } else {
        ('a' as u32 + (d - 10)) as char
    }
}

/// [`digit_char`].
fn digit(d: u8) -> (c: char)
    requires
        d < 16,
    ensures
        c == digit_char(d as int),
{
    if d < 10 {
        (48u8 + d) as char
    } else {
        (87u8 + d) as char
    }
}

/// `n` in decimal, with no leading zero.
pub open spec fn decimal(n: nat) -> Seq<char>
    decreases n,
{
    if n < 10 {
        seq![digit_char(n as int)]
    } else {
        decimal(n / 10).push(digit_char((n % 10) as int))
    }
}

/// A number is written in at least one digit, and in digits only.
pub proof fn lemma_decimal_digits(n: nat)
    ensures
        decimal(n).len() > 0,
        forall|i: int| 0 <= i < decimal(n).len() ==> '0' <= #[trigger] decimal(n)[i]
            <= '9',
    decreases n,
{
    if n >= 10 {
        lemma_decimal_digits(n / 10);
    }
}

/// Different numbers are written differently.
pub proof fn lemma_decimal_injective(a: nat, b: nat)
    requires
        decimal(a) == decimal(b),
    ensures
        a == b,
    decreases a,
{
    let x = decimal(a);
    let y = decimal(b);
    lemma_decimal_digits(a);
    lemma_decimal_digits(b);
    if a >= 10 {
        lemma_decimal_digits(a / 10);
    }
    if b >= 10 {
        lemma_decimal_digits(b / 10);
    }
    assert(x.last() == y.last());
    assert(x.last() == digit_char((a % 10) as int));
    assert(y.last() == digit_char((b % 10) as int));
    assert(x.last() as u32 == '0' as u32 + a % 10);
    assert(y.last() as u32 == '0' as u32 + b % 10);
    if a >= 10 && b >= 10 {
        assert(x.drop_last() =~= decimal(a / 10));
        assert(y.drop_last() =~= decimal(b / 10));
        lemma_decimal_injective(a / 10, b / 10);
    } else {
        assert(a < 10 ==> x.len() == 1);
        assert(b < 10 ==> y.len() == 1);
    }
}

/// `n` in decimal, appended to `out`.
pub fn push_decimal(out: &mut String, n: u128)
    ensures
        final(out)@ == old(out)@ + decimal(n as nat),
    decreases n,
{
    if n >= 10 {
        push_decimal(out, n / 10);
    }
    out.push(digit((n % 10) as u8));
    assert(out@ =~= old(out)@ + decimal(n as nat));
}

/// `n` in decimal.
pub fn decimal_text(n: u64) -> (out: String)
    ensures
        out@ == decimal(n as nat),
{
    let mut out = String::new();
    push_decimal(&mut out, n as u128);
    assert(out@ =~= decimal(n as nat));
    out
}

/// `n` in decimal, with a minus sign where it is negative.
pub open spec fn signed_decimal(n: int) -> Seq<char> {
    if n < 0 {
        seq!['-'] + decimal((-n) as nat)
    } else {
        decimal(n as nat)
    }
}

/// [`signed_decimal`], appended to `out`.
pub fn push_signed(out: &mut String, n: i32)
    ensures
        final(out)@ == old(out)@ + signed_decimal(n as int),
{
    let wide: i64 = n as i64;
    if wide < 0 {
        out.push('-');
        push_decimal(out, (-wide) as u128);
    } else {
        push_decimal(out, wide as u128);
    }
    assert(out@ =~= old(out)@ + signed_decimal(n as int));
}

/// The lowest `width` hexadecimal digits of `n`, in lower case, with leading zeros.
pub open spec fn hex_padded(n: nat, width: nat) -> Seq<char>
    decreases width,
{
    if width == 0 {
        seq![]
    } else {
        hex_padded(n / 16, (width - 1) as nat).push(digit_char((n % 16) as int))
    }
}

/// [`hex_padded`], appended to `out`.
pub fn push_hex(out: &mut String, n: u64, width: u8)
    ensures
        final(out)@ == old(out)@ + hex_padded(n as nat, width as nat),
    decreases width,
{
    if width > 0 {
        push_hex(out, n / 16, width - 1);
        out.push(digit((n % 16) as u8));
    }
    assert(out@ =~= old(out)@ + hex_padded(n as nat, width as nat));
}

/// `n` spaces.
pub open spec fn spaces(n: int) -> Seq<char> {
    Seq::new(
        if n > 0 {
            n as nat
        } else {
            0
        },
        |i: int| ' ',
    )
}

/// `s` moved right to a column `width` wide; a longer text stays as it is.
pub open spec fn right_aligned(s: Seq<char>, width: int) -> Seq<char> {
    spaces(width - s.len()) + s
}

/// `s` filled up to a column `width` wide; a longer text stays as it is.
pub open spec fn left_aligned(s: Seq<char>, width: int) -> Seq<char> {
    s + spaces(width - s.len())
}

/// `n` spaces, appended to `out`.
fn push_spaces(out: &mut String, n: usize)
    ensures
        final(out)@ == old(out)@ + spaces(n as int),
{
    let ghost start = out@;
    let mut i: usize = 0;
    assert(out@ =~= start + spaces(0));
    while i < n
        invariant
            i <= n,
            out@ == start + spaces(i as int),
        decreases n - i,
    {
        out.push(' ');
        assert(out@ =~= start + spaces(i + 1));
        i = i + 1;
    }
}

/// [`right_aligned`], appended to `out`.
pub fn push_right(out: &mut String, s: &str, width: usize)
    ensures
        final(out)@ == old(out)@ + right_aligned(s@, width as int),
{
    let n: usize = s.unicode_len();
    if n < width {
        push_spaces(out, width - n);
    } else {
        assert(out@ + spaces(width - n) =~= out@);
    }
    out.append(s);
    assert(out@ =~= old(out)@ + right_aligned(s@, width as int));
}

/// [`left_aligned`], appended to `out`.
pub fn push_left(out: &mut String, s: &str, width: usize)
    ensures
        final(out)@ == old(out)@ + left_aligned(s@, width as int),
{
    out.append(s);
    let n: usize = s.unicode_len();
    if n < width {
        push_spaces(out, width - n);
    }
    assert(out@ =~= old(out)@ + left_aligned(s@, width as int));
}

/// The value of `c` as a digit below sixteen, or sixteen where it is none.
pub open spec fn digit_value(c: char) -> int {
    if '0' <= c <= '9' {
        c as int - '0' as int
    } else if 'a' <= c <= 'f' {
        c as int - 'a' as int + 10
    } else if 'A' <= c <= 'F' {
        c as int - 'A' as int + 10
    } else {
        16
    }
}

/// [`digit_value`].
fn value_of_digit(c: char) -> (d: u8)
    ensures
        d == digit_value(c),
        d <= 16,
{
    if '0' <= c && c <= '9' {
        (c as u8) - 48
    } else if 'a' <= c && c <= 'f' {
        (c as u8) - 87
    } else if 'A' <= c && c <= 'F' {
        (c as u8) - 55
    } else {
        16
    }
}

/// The number that the digits of `s` write in base `radix`.
pub open spec fn digits_value(s: Seq<char>, radix: int) -> int
    decreases s.len(),
{
    if s.len() == 0 {
        0
    } else {
        digits_value(s.drop_last(), radix) * radix + digit_value(s.last())
    }
}

/// Whether every character of `s` is a digit of base `radix`.
pub open spec fn all_digits(s: Seq<char>, radix: int) -> bool {
    forall|i: int| 0 <= i < s.len() ==> #[trigger] digit_value(s[i]) < radix
}

/// The digits of a number written with an optional leading plus sign.
pub open spec fn without_plus(s: Seq<char>) -> Seq<char> {
    if s.len() > 0 && s[0] == '+' {
        s.skip(1)
    } else {
        s
    }
}

/// The number that `s` writes in base `radix`: an optional plus sign, then one digit or more,
/// not above `max`.
pub open spec fn parsed(s: Seq<char>, radix: int, max: int) -> Option<int> {
    let d = without_plus(s);
    if d.len() > 0 && all_digits(d, radix) && digits_value(d, radix) <= max {
        Some(digits_value(d, radix))
    } else {
        None
    }
}

proof fn lemma_digits_value_grows(s: Seq<char>, radix: int, n: int)
    requires
        0 <= n <= s.len(),
        1 <= radix,
        forall|i: int| 0 <= i < s.len() ==> digit_value(s[i]) >= 0,
    ensures
        0 <= digits_value(s.take(n), radix) <= digits_value(s, radix),
    decreases s.len(),
{
    if s.len() > 0 {
        let d = s.drop_last();
        if n < s.len() {
            assert(d.take(n) =~= s.take(n));
            lemma_digits_value_grows(d, radix, n);
        } else {
            assert(s.take(n) =~= s);
            lemma_digits_value_grows(d, radix, d.len() as int);
            assert(d.take(d.len() as int) =~= d);
        }
        let v = digits_value(d, radix);
        assert(v <= v * radix) by (nonlinear_arith)
            requires
                v >= 0,
                radix >= 1,
        ;
    }
}

/// [`parsed`].
pub fn parse_number(s: &str, radix: u8, max: u64) -> (r: Option<u64>)
    requires
        2 <= radix <= 16,
    ensures
        match r {
            Some(v) => parsed(s@, radix as int, max as int) == Some(v as int),
            None => parsed(s@, radix as int, max as int) is None,
        },
{
    let chars = chars_of(s);
    let mut i: usize = 0;
    if chars.len() > 0 && chars[0] == '+' {
        i = 1;
    }
    let ghost d = without_plus(s@);
    assert(d =~= s@.skip(i as int));
    let start: usize = i;
    if i == chars.len() {
        return None;
    }
    let mut v: u64 = 0;
    assert(d.take(0) =~= Seq::<char>::empty());
    while i < chars.len()
        invariant
            chars@ == s@,
            start <= i <= s@.len(),
            d == s@.skip(start as int),
            d == without_plus(s@),
            2 <= radix <= 16,
            v == digits_value(d.take(i - start), radix as int),
            v <= max,
            forall|k: int| 0 <= k < i - start ==> #[trigger] digit_value(d[k]) < radix,
        decreases s@.len() - i,
    {
        let g = value_of_digit(chars[i]);
        let ghost k = i - start;
        assert(d[k] == s@[i as int]);
        if g >= radix {
            assert(!all_digits(d, radix as int));
            return None;
        }
        assert(d.take(k + 1).drop_last() =~= d.take(k));
        assert(d.take(k + 1).last() == d[k]);
        assert((v as u128) * (radix as u128) <= 0xffff_ffff_ffff_ffff * 16) by (nonlinear_arith)
            requires
                v <= 0xffff_ffff_ffff_ffff,
                radix <= 16,
        ;
        let wide: u128 = (v as u128) * (radix as u128) + (g as u128);
        assert(wide == digits_value(d.take(k + 1), radix as int));
        if wide > max as u128 {
            proof {
                lemma_digits_value_grows(d, radix as int, k + 1);
            }
            return None;
        }
        v = wide as u64;
        i = i + 1;
    }
    assert(d.take(i - start) =~= d);
    Some(v)
}

// ---------------------------------------------------------------------------------------
// UTF-16.

/// `char::from_u32`: the scalar value `v`, or `None` where `v` is a surrogate or too large.
pub assume_specification[ char::from_u32 ](v: u32) -> (r: Option<char>)
    ensures
        match r {
            Some(c) => (v <= 0xd7ff || 0xe000 <= v <= 0x10ffff) && c as u32 == v,
            None => !(v <= 0xd7ff || 0xe000 <= v <= 0x10ffff),
        },
;

/// The first half of a surrogate pair.
pub open spec fn is_high_surrogate(u: u16) -> bool {
    0xd800 <= u <= 0xdbff
}

/// The second half of a surrogate pair.
pub open spec fn is_low_surrogate(u: u16) -> bool {
    0xdc00 <= u <= 0xdfff
}

/// The scalar value of a surrogate pair.
pub open spec fn pair_value(high: u16, low: u16) -> int {
    0x10000 + (high - 0xd800) * 0x400 + (low - 0xdc00)
}

/// The text that `units` encode; an unpaired surrogate reads as U+FFFD.
pub open spec fn utf16_text(units: Seq<u16>) -> Seq<char>
    decreases units.len(),
{
    if units.len() == 0 {
        seq![]
    } else if is_high_surrogate(units[0]) && units.len() > 1 && is_low_surrogate(units[1]) {
        seq![pair_value(units[0], units[1]) as char] + utf16_text(units.skip(2))
    } else if is_high_surrogate(units[0]) || is_low_surrogate(units[0]) {
        seq!['\u{fffd}'] + utf16_text(units.skip(1))
    } else {
        seq![units[0] as char] + utf16_text(units.skip(1))
    }
}

/// The one or two units of a character.
pub open spec fn utf16_of_char(c: char) -> Seq<u16> {
    if c as int >= 0x10000 {
        seq![
            (0xd800 + (c as int - 0x10000) / 0x400) as u16,
            (0xdc00 + (c as int - 0x10000) % 0x400) as u16,
        ]
    } else {
        seq![c as u16]
    }
}

/// The units that encode `s`.
pub open spec fn utf16_units(s: Seq<char>) -> Seq<u16>
    decreases s.len(),
{
    if s.len() == 0 {
        seq![]
    } else {
        utf16_of_char(s[0]) + utf16_units(s.skip(1))
    }
}

/// A character is a Unicode scalar value.
pub proof fn lemma_char_range(c: char)
    ensures
        0 <= c as int <= 0xd7ff || 0xe000 <= c as int <= 0x10ffff,
        c as u32 as int == c as int,
{
}

/// Decoding gives back the text that was encoded.
pub proof fn law_utf16_round_trip(s: Seq<char>)
    ensures
        utf16_text(utf16_units(s)) == s,
    decreases s.len(),
{
    if s.len() > 0 {
        let u = utf16_units(s);
        let rest = utf16_units(s.skip(1));
        law_utf16_round_trip(s.skip(1));
        let c = s[0];
        lemma_char_range(c);
        if c as int >= 0x10000 {
            assert(u.skip(2) =~= rest);
            assert(pair_value(u[0], u[1]) == c as int);
        } else {
            assert(u.skip(1) =~= rest);
        }
        assert(s =~= seq![c] + s.skip(1));
    }
}

/// [`utf16_text`].
pub fn decode_utf16(units: &[u16]) -> (out: String)
    ensures
        out@ == utf16_text(units@),
{
    let mut out = String::new();
    let mut i: usize = 0;
    assert(units@.skip(0) =~= units@);
    assert(out@ + utf16_text(units@) =~= utf16_text(units@));
    while i < units.len()
        invariant
            i <= units@.len(),
            out@ + utf16_text(units@.skip(i as int)) == utf16_text(units@),
        decreases units@.len() - i,
    {
        let ghost before = out@;
        let ghost rest = units@.skip(i as int);
        let u = units[i];
        if 0xd800 <= u && u <= 0xdbff && i + 1 < units.len() && 0xdc00 <= units[i + 1] && units[i
            + 1] <= 0xdfff {
            let v: u32 = 0x10000 + (u as u32 - 0xd800) * 0x400 + (units[i + 1] as u32 - 0xdc00);
            match char::from_u32(v) {
                Some(c) => {
                    out.push(c);
                    proof {
                        lemma_char_range(c);
                    }
                    assert(c == pair_value(rest[0], rest[1]) as char);
                },
                None => {},
            }
            assert(rest.skip(2) =~= units@.skip(i + 2));
            i = i + 2;
        } else if 0xd800 <= u && u <= 0xdfff {
            out.push('\u{fffd}');
            assert(rest.skip(1) =~= units@.skip(i + 1));
            i = i + 1;
        } else {
            match char::from_u32(u as u32) {
                Some(c) => {
                    out.push(c);
                    proof {
                        lemma_char_range(c);
                    }
                    assert(c == rest[0] as char);
                },
                None => {},
            }
            assert(rest.skip(1) =~= units@.skip(i + 1));
            i = i + 1;
        }
        assert(out@ =~= before.push(out@.last()));
        assert(out@ + utf16_text(units@.skip(i as int)) =~= before + utf16_text(rest)) by {
            assert(utf16_text(rest) =~= seq![out@.last()] + utf16_text(units@.skip(i as int)));
        }
    }
    assert(out@ + utf16_text(units@.skip(i as int)) =~= out@);
    out
}

/// [`utf16_units`].
pub fn encode_utf16(s: &str) -> (out: Vec<u16>)
    ensures
        out@ == utf16_units(s@),
{
    let chars = chars_of(s);
    let mut out: Vec<u16> = Vec::new();
    let mut i: usize = 0;
    assert(s@.skip(0) =~= s@);
    assert(out@ + utf16_units(s@) =~= utf16_units(s@));
    while i < chars.len()
        invariant
            chars@ == s@,
            i <= s@.len(),
            out@ + utf16_units(s@.skip(i as int)) == utf16_units(s@),
        decreases s@.len() - i,
    {
        let ghost before = out@;
        let ghost rest = s@.skip(i as int);
        proof {
            lemma_char_range(chars@[i as int]);
        }
        let c: u32 = chars[i] as u32;
        if c >= 0x10000 {
            let v: u32 = c - 0x10000;
            out.push((0xd800 + v / 0x400) as u16);
            out.push((0xdc00 + v % 0x400) as u16);
        } else {
            out.push(c as u16);
        }
        assert(rest.skip(1) =~= s@.skip(i + 1));
        assert(out@ =~= before + utf16_of_char(chars@[i as int]));
        i = i + 1;
        assert(out@ + utf16_units(s@.skip(i as int)) =~= before + utf16_units(rest));
    }
    assert(out@ + utf16_units(s@.skip(i as int)) =~= out@);
    out
}

// ---------------------------------------------------------------------------------------
// What the helpers keep.

proof fn lemma_dropped_leading_is_shorter(s: Seq<char>, class: CharClass)
    ensures
        drop_leading(s, class).len() <= s.len(),
        drop_leading(s, class) == s.skip(s.len() - drop_leading(s, class).len()),
        drop_leading(s, class).len() > 0 ==> !class.spec_has(drop_leading(s, class)[0]),
        drop_leading(s, class).len() > 0 ==> drop_leading(s, class).last() == s.last(),
    decreases s.len(),
{
    if s.len() > 0 && class.spec_has(s[0]) {
        lemma_dropped_leading_is_shorter(s.skip(1), class);
        let d = drop_leading(s.skip(1), class);
        assert(d == drop_leading(s, class));
        assert(s.skip(1).skip(s.skip(1).len() - d.len()) =~= s.skip(s.len() - d.len()));
    } else {
        assert(s.skip(0) =~= s);
    }
}

proof fn lemma_dropped_trailing_is_shorter(s: Seq<char>, class: CharClass)
    ensures
        drop_trailing(s, class).len() <= s.len(),
        drop_trailing(s, class) == s.take(drop_trailing(s, class).len() as int),
        drop_trailing(s, class).len() > 0 ==> !class.spec_has(drop_trailing(s, class).last()),
    decreases s.len(),
{
    if s.len() > 0 && class.spec_has(s.last()) {
        lemma_dropped_trailing_is_shorter(s.drop_last(), class);
        let d = drop_trailing(s.drop_last(), class);
        assert(s.drop_last().take(d.len() as int) =~= s.take(d.len() as int));
    } else {
        assert(s.take(s.len() as int) =~= s);
    }
}

proof fn lemma_dropped_leading_of_push(s: Seq<char>, c: char, class: CharClass)
    requires
        class.spec_has(c),
    ensures
        drop_trailing(drop_leading(s.push(c), class), class) == drop_trailing(
            drop_leading(s, class),
            class,
        ),
    decreases s.len(),
{
    if s.len() > 0 && class.spec_has(s[0]) {
        lemma_dropped_leading_of_push(s.skip(1), c, class);
        assert(s.push(c).skip(1) =~= s.skip(1).push(c));
    } else if s.len() > 0 {
        assert(s.push(c)[0] == s[0]);
        assert(s.push(c).drop_last() =~= s);
    } else {
        assert(s.push(c)[0] == c);
        assert(s.push(c).skip(1) =~= s);
        assert(drop_leading(s.push(c), class) == drop_leading(s, class));
    }
}

/// Trimming takes blanks from both ends and nothing else: what is left is a piece of the text
/// that begins and ends with a visible character, a text that does so is left alone, and one
/// more blank at either end makes no difference.
pub proof fn law_trimming_takes_the_ends_only(s: Seq<char>, blank: char)
    requires
        blank == ' ' || blank == '\u{9}' || blank == '\u{a}' || blank == '\u{d}',
    ensures
        trimmed(seq![blank] + s) == trimmed(s),
        trimmed(s.push(blank)) == trimmed(s),
        s.len() > 0 && '!' <= s[0] <= '~' && '!' <= s.last() <= '~' ==> trimmed(s) == s,
        trimmed(s).len() > 0 ==> trimmed(s)[0] != blank && trimmed(s).last() != blank,
        exists|i: int|
            0 <= i <= s.len() - trimmed(s).len() && trimmed(s) == #[trigger] s.subrange(
                i,
                i + trimmed(s).len(),
            ),
{
    let w = CharClass::White;
    assert((seq![blank] + s).skip(1) =~= s);
    lemma_dropped_leading_of_push(s, blank, w);
    lemma_dropped_leading_is_shorter(s, w);
    let d = drop_leading(s, w);
    lemma_dropped_trailing_is_shorter(d, w);
    let i = s.len() - d.len();
    assert(s.subrange(i, i + trimmed(s).len()) =~= trimmed(s));
}

/// Lowering a text changes its capital letters to their small ones, and no other character.
pub proof fn law_lowering_changes_capitals_only(s: Seq<char>, i: int)
    requires
        0 <= i < s.len(),
    ensures
        ascii_lowered(s).len() == s.len(),
        'A' <= s[i] <= 'Z' ==> ascii_lowered(s)[i] as u32 == s[i] as u32 + 32,
        !('A' <= s[i] <= 'Z') ==> ascii_lowered(s)[i] == s[i],
{
}

/// Replacing a character changes its occurrences, and no other character.
pub proof fn law_replacing_changes_one_character(s: Seq<char>, from: char, to: char, i: int)
    requires
        0 <= i < s.len(),
    ensures
        replaced(s, from, to).len() == s.len(),
        s[i] == from ==> replaced(s, from, to)[i] == to,
        s[i] != from ==> replaced(s, from, to)[i] == s[i],
{
}

/// The last component of a path is what follows its last separator, and the whole of a path
/// that has none.
pub proof fn law_the_last_component_follows_the_last_separator(
    dir: Seq<char>,
    sep: char,
    name: Seq<char>,
)
    requires
        sep == '\\' || sep == '/',
        forall|i: int| 0 <= i < name.len() ==> #[trigger] name[i] != '\\' && name[i] != '/',
    ensures
        last_component(dir.push(sep) + name) == name,
        last_component(name) == name,
    decreases name.len(),
{
    if name.len() > 0 {
        law_the_last_component_follows_the_last_separator(dir, sep, name.drop_last());
        assert((dir.push(sep) + name).drop_last() =~= dir.push(sep) + name.drop_last());
        assert(name.drop_last().push(name.last()) =~= name);
        assert((dir.push(sep) + name).last() == name.last());
        assert(name[name.len() - 1] == name.last());
    } else {
        assert(dir.push(sep) + name =~= dir.push(sep));
        assert(last_component(dir.push(sep)) =~= name);
        assert(last_component(name) =~= name);
    }
}

proof fn lemma_decimal_value(n: nat)
    ensures
        digits_value(decimal(n), 10) == n,
    decreases n,
{
    if n >= 10 {
        lemma_decimal_value(n / 10);
        assert(decimal(n).drop_last() =~= decimal(n / 10));
        assert(decimal(n).last() == digit_char((n % 10) as int));
    } else {
        assert(decimal(n).drop_last() =~= seq![]);
        assert(digits_value(decimal(n).drop_last(), 10) == 0);
    }
}

/// A number that was written in decimal is read as itself, with a plus sign or without, where it
/// is not above the largest that is read; one that is above it is not read. Nothing is read of
/// an empty text, nor of a text with any other character than digits behind the sign.
pub proof fn law_numbers_read_back(n: nat, max: int, s: Seq<char>, i: int)
    ensures
        parsed(decimal(n), 10, max) == (if n <= max {
            Some(n as int)
        } else {
            None::<int>
        }),
        parsed(seq!['+'] + decimal(n), 10, max) == parsed(decimal(n), 10, max),
        s.len() == 0 ==> parsed(s, 10, max) is None && parsed(seq!['+'] + s, 10, max) is None,
        0 < i < s.len() && !('0' <= s[i] <= '9') ==> parsed(s, 10, max) is None,
        s.len() > 0 && s[0] != '+' && !('0' <= s[0] <= '9') ==> parsed(s, 10, max) is None,
{
    let d = decimal(n);
    lemma_decimal_digits(n);
    lemma_decimal_value(n);
    assert(d[0] != '+');
    assert(without_plus(d) == d);
    assert((seq!['+'] + d).skip(1) =~= d);
    assert((seq!['+'] + s).skip(1) =~= s);
    assert(forall|k: int| 0 <= k < d.len() ==> #[trigger] digit_value(d[k]) < 10);
    if 0 < i < s.len() && !('0' <= s[i] <= '9') {
        let t = without_plus(s);
        let k = if s[0] == '+' {
            i - 1
        } else {
            i
        };
        assert(t[k] == s[i]);
        assert(digit_value(t[k]) >= 10);
    }
    if s.len() > 0 && s[0] != '+' && !('0' <= s[0] <= '9') {
        assert(digit_value(without_plus(s)[0]) >= 10);
    }
}

/// A number in hexadecimal digits has as many as asked for and is read as itself, where they
/// are enough.
pub proof fn law_hexadecimal_reads_back(n: nat, width: nat)
    requires
        n < vstd::arithmetic::power::pow(16, width),
    ensures
        hex_padded(n, width).len() == width,
        digits_value(hex_padded(n, width), 16) == n,
    decreases width,
{
    reveal(vstd::arithmetic::power::pow);
    if width > 0 {
        let less = (width - 1) as nat;
        assert(n < 16 * vstd::arithmetic::power::pow(16, less));
        law_hexadecimal_reads_back(n / 16, less);
        assert(hex_padded(n, width).drop_last() =~= hex_padded(n / 16, less));
        let d = (n % 16) as int;
        assert(hex_padded(n, width).last() == digit_char(d));
        assert(digit_value(digit_char(d)) == d);
    }
}

/// A text in a column stands at its end or at its start; the rest of the column is blank, and
/// a text that is wider than the column stays whole.
pub proof fn law_columns_are_filled_with_blanks(s: Seq<char>, width: int, i: int)
    ensures
        right_aligned(s, width).len() == if s.len() < width {
            width
        } else {
            s.len() as int
        },
        left_aligned(s, width).len() == right_aligned(s, width).len(),
        right_aligned(s, width).skip(right_aligned(s, width).len() - s.len()) == s,
        left_aligned(s, width).take(s.len() as int) == s,
        0 <= i < width - s.len() ==> right_aligned(s, width)[i] == ' ',
        s.len() <= i < width ==> left_aligned(s, width)[i] == ' ',
{
    assert(right_aligned(s, width).skip(right_aligned(s, width).len() - s.len()) =~= s);
    assert(left_aligned(s, width).take(s.len() as int) =~= s);
}

} // verus!
