//! Text as sequences of characters: the few operations on strings that the
//! rest of the library needs, each with its meaning spelled out.

use vstd::prelude::*;

verus! {

/// `String::push` appends one character.
pub assume_specification[ String::push ](s: &mut String, ch: char)
    ensures
        final(s)@ == old(s)@.push(ch),
;

// ---------------------------------------------------------------------------
// Conversions
// ---------------------------------------------------------------------------

/// The characters of `s`, in a vector.
pub fn to_chars(s: &str) -> (chars: Vec<char>)
    ensures
        chars@ == s@,
{
    let n: usize = s.unicode_len();
    let mut chars: Vec<char> = Vec::with_capacity(n);
    let mut i: usize = 0;
    while i < n
        invariant
            n == s@.len(),
            i <= n,
            chars@ == s@.subrange(0, i as int),
        decreases n - i,
    {
        chars.push(s.get_char(i));
        assert(chars@ =~= s@.subrange(0, i + 1));
        i += 1;
    }
    assert(chars@ =~= s@);
    chars
}

/// The characters of `chars` from index `from` up to `to`, as a string.
pub fn text_of(chars: &Vec<char>, from: usize, to: usize) -> (s: String)
    requires
        from <= to <= chars.len(),
    ensures
        s@ == chars@.subrange(from as int, to as int),
{
    let mut s = String::new();
    let mut i: usize = from;
    while i < to
        invariant
            from <= i <= to <= chars.len(),
            s@ == chars@.subrange(from as int, i as int),
        decreases to - i,
    {
        s.push(chars[i]);
        assert(s@ =~= chars@.subrange(from as int, i + 1));
        i += 1;
    }
    s
}

/// Whether two strings hold the same characters.
pub fn same_text(a: &str, b: &str) -> (same: bool)
    ensures
        same == (a@ == b@),
{
    let x = to_chars(a);
    let y = to_chars(b);
    if x.len() != y.len() {
        return false;
    }
    let mut i: usize = 0;
    while i < x.len()
        invariant
            x.len() == y.len(),
            x@ == a@,
            y@ == b@,
            i <= x.len(),
            x@.subrange(0, i as int) == y@.subrange(0, i as int),
        decreases x.len() - i,
    {
        if x[i] != y[i] {
            assert(a@[i as int] != b@[i as int]);
            return false;
        }
        assert(x@.subrange(0, i + 1) =~= x@.subrange(0, i as int).push(x[i as int]));
        assert(y@.subrange(0, i + 1) =~= y@.subrange(0, i as int).push(y[i as int]));
        i += 1;
    }
    assert(x@ =~= x@.subrange(0, x.len() as int));
    assert(y@ =~= y@.subrange(0, y.len() as int));
    true
}

// ---------------------------------------------------------------------------
// Prefixes and suffixes
// ---------------------------------------------------------------------------

/// Whether `s` begins with `p`.
pub open spec fn has_prefix(s: Seq<char>, p: Seq<char>) -> bool {
    p.len() <= s.len() && s.subrange(0, p.len() as int) == p
}

/// Whether `s` ends with `p`.
pub open spec fn has_suffix(s: Seq<char>, p: Seq<char>) -> bool {
    p.len() <= s.len() && s.subrange(s.len() - p.len(), s.len() as int) == p
}

/// Whether the part of `chars` from `from` up to `to` begins with `pat`.
pub fn starts_with(chars: &Vec<char>, from: usize, to: usize, pat: &str) -> (b: bool)
    requires
        from <= to <= chars.len(),
    ensures
        b == has_prefix(chars@.subrange(from as int, to as int), pat@),
{
    let p = to_chars(pat);
    let ghost part = chars@.subrange(from as int, to as int);
    if p.len() > to - from {
        return false;
    }
    let mut i: usize = 0;
    while i < p.len()
        invariant
            from <= to <= chars.len(),
            p.len() <= to - from,
            p@ == pat@,
            i <= p.len(),
            part == chars@.subrange(from as int, to as int),
            part.subrange(0, i as int) == p@.subrange(0, i as int),
        decreases p.len() - i,
    {
        if chars[from + i] != p[i] {
            assert(part[i as int] == chars@[from + i]);
            assert(part.subrange(0, p.len() as int)[i as int] == part[i as int]);
            assert(pat@[i as int] == p@[i as int]);
            return false;
        }
        assert(part.subrange(0, i + 1) =~= part.subrange(0, i as int).push(part[i as int]));
        assert(p@.subrange(0, i + 1) =~= p@.subrange(0, i as int).push(p@[i as int]));
        i += 1;
    }
    assert(p@ =~= p@.subrange(0, p.len() as int));
    true
}

// ---------------------------------------------------------------------------
// White space
// ---------------------------------------------------------------------------

/// The characters with the Unicode property `White_Space`.
pub open spec fn is_space_char(c: char) -> bool {
    let n = c as u32;
    ||| 0x09 <= n <= 0x0D
    ||| n == 0x20
    ||| n == 0x85
    ||| n == 0xA0
    ||| n == 0x1680
    ||| 0x2000 <= n <= 0x200A
    ||| n == 0x2028
    ||| n == 0x2029
    ||| n == 0x202F
    ||| n == 0x205F
    ||| n == 0x3000
}

/// Whether `c` is white space.
pub fn is_space(c: char) -> (b: bool)
    ensures
        b == is_space_char(c),
{
    let n: u32 = c as u32;
    (0x09 <= n && n <= 0x0D) || n == 0x20 || n == 0x85 || n == 0xA0 || n == 0x1680 || (0x2000 <= n
        && n <= 0x200A) || n == 0x2028 || n == 0x2029 || n == 0x202F || n == 0x205F || n == 0x3000
}

/// `s` without the white space at its start.
pub open spec fn without_leading_space(s: Seq<char>) -> Seq<char>
    decreases s.len(),
{
    if s.len() > 0 && is_space_char(s[0]) {
        without_leading_space(s.skip(1))
    } else {
        s
    }
}

/// `s` without the white space at its end.
pub open spec fn without_trailing_space(s: Seq<char>) -> Seq<char>
    decreases s.len(),
{
    if s.len() > 0 && is_space_char(s.last()) {
        without_trailing_space(s.drop_last())
    } else {
        s
    }
}

/// `s` without the white space at either end.
pub open spec fn trimmed(s: Seq<char>) -> Seq<char> {
    without_trailing_space(without_leading_space(s))
}

/// `s` without the run of `c` at its end.
pub open spec fn without_trailing(s: Seq<char>, c: char) -> Seq<char>
    decreases s.len(),
{
    if s.len() > 0 && s.last() == c {
        without_trailing(s.drop_last(), c)
    } else {
        s
    }
}

/// Whether `s` holds nothing but white space.
pub open spec fn is_blank(s: Seq<char>) -> bool {
    trimmed(s).len() == 0
}

/// The index at which `chars` has its first character that is no white
/// space, from `from` on and before `to`; `to` where there is none.
pub fn skip_space(chars: &Vec<char>, from: usize, to: usize) -> (start: usize)
    requires
        from <= to <= chars.len(),
    ensures
        from <= start <= to,
        chars@.subrange(start as int, to as int) == without_leading_space(
            chars@.subrange(from as int, to as int),
        ),
{
    let mut i: usize = from;
    while i < to && is_space(chars[i])
        invariant
            from <= i <= to <= chars.len(),
            without_leading_space(chars@.subrange(i as int, to as int)) == without_leading_space(
                chars@.subrange(from as int, to as int),
            ),
        decreases to - i,
    {
        assert(chars@.subrange(i as int, to as int).skip(1) =~= chars@.subrange(i + 1, to as int));
        i += 1;
    }
    i
}

/// The index behind the last character of `chars` that is no white space,
/// from `from` on and before `to`; `from` where there is none.
pub fn drop_space(chars: &Vec<char>, from: usize, to: usize) -> (end: usize)
    requires
        from <= to <= chars.len(),
    ensures
        from <= end <= to,
        chars@.subrange(from as int, end as int) == without_trailing_space(
            chars@.subrange(from as int, to as int),
        ),
{
    let mut i: usize = to;
    while i > from && is_space(chars[i - 1])
        invariant
            from <= i <= to <= chars.len(),
            without_trailing_space(chars@.subrange(from as int, i as int))
                == without_trailing_space(chars@.subrange(from as int, to as int)),
        decreases i,
    {
        assert(chars@.subrange(from as int, i as int).drop_last() =~= chars@.subrange(
            from as int,
            i - 1,
        ));
        i -= 1;
    }
    i
}

/// The index behind the last character of `chars` that is not `c`, from
/// `from` on and before `to`; `from` where there is none.
pub fn drop_trailing(chars: &Vec<char>, from: usize, to: usize, c: char) -> (end: usize)
    requires
        from <= to <= chars.len(),
    ensures
        from <= end <= to,
        chars@.subrange(from as int, end as int) == without_trailing(
            chars@.subrange(from as int, to as int),
            c,
        ),
{
    let mut i: usize = to;
    while i > from && chars[i - 1] == c
        invariant
            from <= i <= to <= chars.len(),
            without_trailing(chars@.subrange(from as int, i as int), c) == without_trailing(
                chars@.subrange(from as int, to as int),
                c,
            ),
        decreases i,
    {
        assert(chars@.subrange(from as int, i as int).drop_last() =~= chars@.subrange(
            from as int,
            i - 1,
        ));
        i -= 1;
    }
    i
}

/// Whether a string holds nothing but white space.
pub fn blank(s: &str) -> (b: bool)
    ensures
        b == is_blank(s@),
{
    let chars = to_chars(s);
    let start = skip_space(&chars, 0, chars.len());
    let end = drop_space(&chars, start, chars.len());
    assert(chars@.subrange(0, chars.len() as int) =~= chars@);
    start == end
}

// ---------------------------------------------------------------------------
// Letter case
// ---------------------------------------------------------------------------

/// `c` with an ASCII capital letter turned into its small letter.
pub open spec fn ascii_lower(c: char) -> char {
    if 'A' <= c <= 'Z' {
        ((c as u8) + 32) as char
    } else {
        c
    }
}

/// `s` with its ASCII capital letters turned into small letters.
pub open spec fn ascii_lowered(s: Seq<char>) -> Seq<char> {
    Seq::new(s.len(), |i: int| ascii_lower(s[i]))
}

/// Turns an ASCII capital letter into its small letter.
pub fn to_ascii_lower(c: char) -> (r: char)
    ensures
        r == ascii_lower(c),
{
    if 'A' <= c && c <= 'Z' {
        let b: u8 = c as u8;
        (b + 32) as char
    } else {
        c
    }
}

/// The characters of `chars` from `from` up to `to`, in lower case.
pub fn lowered(chars: &Vec<char>, from: usize, to: usize) -> (low: Vec<char>)
    requires
        from <= to <= chars.len(),
    ensures
        low@ == ascii_lowered(chars@.subrange(from as int, to as int)),
{
    let mut low: Vec<char> = Vec::with_capacity(to - from);
    let mut i: usize = from;
    while i < to
        invariant
            from <= i <= to <= chars.len(),
            low@ == ascii_lowered(chars@.subrange(from as int, i as int)),
        decreases to - i,
    {
        low.push(to_ascii_lower(chars[i]));
        assert(low@ =~= ascii_lowered(chars@.subrange(from as int, i + 1)));
        i += 1;
    }
    low
}

// ---------------------------------------------------------------------------
// Order
// ---------------------------------------------------------------------------

/// Whether `a` comes before `b` in the order of strings: character by
/// character by code point, a proper prefix before what extends it.
pub open spec fn lex_less(a: Seq<char>, b: Seq<char>) -> bool
    decreases a.len(),
{
    if b.len() == 0 {
        false
    } else if a.len() == 0 {
        true
    } else if a[0] != b[0] {
        a[0] < b[0]
    } else {
        lex_less(a.skip(1), b.skip(1))
    }
}

/// No two strings come before each other.
pub proof fn lemma_lex_asymmetric(a: Seq<char>, b: Seq<char>)
    ensures
        !(lex_less(a, b) && lex_less(b, a)),
    decreases a.len(),
{
    if a.len() > 0 && b.len() > 0 && a[0] == b[0] {
        lemma_lex_asymmetric(a.skip(1), b.skip(1));
    }
}

/// Where `a` does not come before `b` and `b` does not come before `c`, `a`
/// does not come before `c`.
pub proof fn lemma_lex_not_less_transitive(a: Seq<char>, b: Seq<char>, c: Seq<char>)
    requires
        !lex_less(a, b),
        !lex_less(b, c),
    ensures
        !lex_less(a, c),
    decreases a.len(),
{
    if c.len() > 0 {
        assert(b.len() > 0);
        assert(a.len() > 0);
        if a[0] == b[0] && b[0] == c[0] {
            lemma_lex_not_less_transitive(a.skip(1), b.skip(1), c.skip(1));
        }
    }
}

/// Whether `a` comes before `b` in the order of strings.
pub fn text_less(a: &str, b: &str) -> (less: bool)
    ensures
        less == lex_less(a@, b@),
{
    let x = to_chars(a);
    let y = to_chars(b);
    let mut i: usize = 0;
    assert(x@.skip(0) =~= x@);
    assert(y@.skip(0) =~= y@);
    while i < x.len() && i < y.len()
        invariant
            i <= x.len(),
            i <= y.len(),
            x@ == a@,
            y@ == b@,
            lex_less(x@, y@) == lex_less(x@.skip(i as int), y@.skip(i as int)),
        decreases x.len() - i,
    {
        if x[i] != y[i] {
            assert(x@.skip(i as int)[0] == x@[i as int]);
            assert(y@.skip(i as int)[0] == y@[i as int]);
            return x[i] < y[i];
        }
        assert(x@.skip(i as int).skip(1) =~= x@.skip(i + 1));
        assert(y@.skip(i as int).skip(1) =~= y@.skip(i + 1));
        i += 1;
    }
    i < y.len()
}

// ---------------------------------------------------------------------------
// Decimal numbers
// ---------------------------------------------------------------------------

/// The character of the decimal digit `d`.
pub open spec fn digit_char(d: int) -> char
    recommends
        0 <= d < 10,
{
    (48 + d) as char
}

/// Whether `c` is one of the decimal digits `0` to `9`.
pub open spec fn is_digit(c: char) -> bool {
    '0' <= c <= '9'
}

/// The last `width` decimal digits of `value`, highest first, with zeros in
/// front where `value` has fewer.
pub open spec fn padded(value: nat, width: nat) -> Seq<char>
    decreases width,
{
    if width == 0 {
        Seq::empty()
    } else {
        padded(value / 10, (width - 1) as nat).push(digit_char((value % 10) as int))
    }
}

/// The decimal digits of `value`, highest first, without zeros in front.
pub open spec fn decimal(value: nat) -> Seq<char>
    decreases value,
{
    if value < 10 {
        seq![digit_char(value as int)]
    } else {
        decimal(value / 10).push(digit_char((value % 10) as int))
    }
}

/// A number written with `width` digits has `width` characters, all of them
/// digits.
pub proof fn lemma_padded_len(value: nat, width: nat)
    ensures
        padded(value, width).len() == width,
        forall|i: int| 0 <= i < width ==> is_digit(#[trigger] padded(value, width)[i]),
    decreases width,
{
    if width > 0 {
        lemma_padded_len(value / 10, (width - 1) as nat);
    }
}

/// Appends the last `width` decimal digits of `value`, at most ten.
pub fn push_padded(out: &mut String, value: u32, width: usize)
    requires
        width <= 10,
    ensures
        final(out)@ == old(out)@ + padded(value as nat, width as nat),
{
    let mut digits: Vec<char> = Vec::with_capacity(width);
    let mut rest: u32 = value;
    let mut i: usize = 0;
    // the digits, lowest first
    while i < width
        invariant
            i <= width,
            digits.len() == i,
            forall|w: nat|
                #![trigger padded(value as nat, w)]
                i <= w ==> padded(value as nat, w) == padded(rest as nat, (w - i) as nat)
                    + Seq::new(i as nat, |j: int| digits[i - 1 - j]),
        decreases width - i,
    {
        let d: u8 = (rest % 10) as u8;
        let c: char = (48u8 + d) as char;
        let ghost before = digits@;
        let ghost rest_before = rest;
        digits.push(c);
        rest = rest / 10;
        proof {
            assert forall|w: nat| i + 1 <= w implies #[trigger] padded(value as nat, w) == padded(
                rest as nat,
                (w - (i + 1)) as nat,
            ) + Seq::new((i + 1) as nat, |j: int| digits[i - j]) by {
                let tail_old = Seq::new(i as nat, |j: int| before[i - 1 - j]);
                let tail_new = Seq::new((i + 1) as nat, |j: int| digits[i - j]);
                assert(padded(value as nat, w) == padded(rest_before as nat, (w - i) as nat)
                    + tail_old);
                assert(padded(rest_before as nat, (w - i) as nat) == padded(
                    rest as nat,
                    (w - i - 1) as nat,
                ).push(c));
                assert(padded(rest as nat, (w - i - 1) as nat).push(c) + tail_old =~= padded(
                    rest as nat,
                    (w - i - 1) as nat,
                ) + tail_new);
            }
        }
        i += 1;
    }
    let ghost start = out@;
    let mut k: usize = width;
    assert(padded(rest as nat, 0) =~= Seq::<char>::empty());
    while k > 0
        invariant
            k <= width,
            digits.len() == width,
            out@ == start + Seq::new((width - k) as nat, |j: int| digits[width - 1 - j]),
        decreases k,
    {
        out.push(digits[k - 1]);
        assert(out@ =~= start + Seq::new((width - (k - 1)) as nat, |j: int| digits[width - 1 - j]));
        k -= 1;
    }
    assert(padded(value as nat, width as nat) =~= Seq::new(
        width as nat,
        |j: int| digits[width - 1 - j],
    ));
}

/// Appends the decimal digits of `value`.
pub fn push_decimal(out: &mut String, value: u64)
    ensures
        final(out)@ == old(out)@ + decimal(value as nat),
{
    let mut digits: Vec<char> = Vec::with_capacity(20);
    let mut rest: u64 = value;
    let first: u8 = (rest % 10) as u8;
    digits.push((48u8 + first) as char);
    rest = rest / 10;
    let ghost mut done: nat = value as nat;
    // the digits, lowest first; `done` is the number whose digits they are above `rest`
    while rest > 0
        invariant
            digits.len() >= 1,
            decimal(value as nat) == (if rest == 0 {
                Seq::<char>::empty()
            } else {
                decimal(rest as nat)
            }) + Seq::new(digits.len() as nat, |j: int| digits[digits.len() - 1 - j]),
        decreases rest,
    {
        let d: u8 = (rest % 10) as u8;
        let c: char = (48u8 + d) as char;
        let ghost before = digits@;
        let ghost rest_before = rest;
        digits.push(c);
        rest = rest / 10;
        proof {
            let n = before.len();
            let tail_old = Seq::new(n, |j: int| before[n - 1 - j]);
            let tail_new = Seq::new(n + 1, |j: int| digits[n - j]);
            let head = if rest == 0 {
                Seq::<char>::empty()
            } else {
                decimal(rest as nat)
            };
            assert(decimal(rest_before as nat) =~= head.push(c));
            assert(head.push(c) + tail_old =~= head + tail_new);
        }
    }
    let ghost start = out@;
    let n: usize = digits.len();
    let mut k: usize = n;
    while k > 0
        invariant
            k <= n,
            digits.len() == n,
            out@ == start + Seq::new((n - k) as nat, |j: int| digits[n - 1 - j]),
        decreases k,
    {
        out.push(digits[k - 1]);
        assert(out@ =~= start + Seq::new((n - (k - 1)) as nat, |j: int| digits[n - 1 - j]));
        k -= 1;
    }
    assert(decimal(value as nat) =~= Seq::new(n as nat, |j: int| digits[n - 1 - j]));
}

} // verus!
