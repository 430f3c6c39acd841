//! Character-level text helpers shared by the parser, the probes and the
//! report formatter.  Everything here works on `Seq<char>` models of strings.
use vstd::prelude::*;
use vstd::utf8::*;

verus! {

// ---------------------------------------------------------------------------
// Specifications
// ---------------------------------------------------------------------------

/// The ASCII digit character for `d` (meaningful for `d < 10`).
pub open spec fn digit_char(d: nat) -> char {
    (48 + d) as char
}

/// Decimal rendering of a natural number, as `{}` formats an unsigned integer.
pub open spec fn decimal(n: nat) -> Seq<char>
    decreases n,
{
    if n < 10 {
        seq![digit_char(n)]
    } else {
        decimal(n / 10).push(digit_char(n % 10))
    }
}

/// `parts` joined with `sep` between consecutive parts, as `[..].join(sep)`.
pub open spec fn join(parts: Seq<Seq<char>>, sep: Seq<char>) -> Seq<char>
    decreases parts.len(),
{
    if parts.len() == 0 {
        Seq::empty()
    } else if parts.len() == 1 {
        parts[0]
    } else {
        join(parts.drop_last(), sep) + sep + parts.last()
    }
}

/// `t` occurs in `s` starting at index `i`.
pub open spec fn occurs_at(s: Seq<char>, t: Seq<char>, i: int) -> bool {
    0 <= i && i + t.len() <= s.len() && s.subrange(i, i + t.len()) == t
}

/// `s` contains `t` as a contiguous substring (as `str::contains`).
pub open spec fn contains_sub(s: Seq<char>, t: Seq<char>) -> bool {
    exists|i: int| occurs_at(s, t, i)
}

/// `s` ends with `t`.
pub open spec fn has_suffix(s: Seq<char>, t: Seq<char>) -> bool {
    t.len() <= s.len() && s.subrange(s.len() - t.len(), s.len() as int) == t
}

/// `s` starts with `t`.
pub open spec fn has_prefix(s: Seq<char>, t: Seq<char>) -> bool {
    t.len() <= s.len() && s.subrange(0, t.len() as int) == t
}

/// Characters with the Unicode `White_Space` property, which is what
/// `char::is_whitespace` (and so `str::trim`) tests for.
pub open spec fn is_white_space(c: char) -> bool {
    ||| (0x09 <= c as u32 <= 0x0d)
    ||| c as u32 == 0x20
    ||| c as u32 == 0x85
    ||| c as u32 == 0xa0
    ||| c as u32 == 0x1680
    ||| (0x2000 <= c as u32 <= 0x200a)
    ||| c as u32 == 0x2028
    ||| c as u32 == 0x2029
    ||| c as u32 == 0x202f
    ||| c as u32 == 0x205f
    ||| c as u32 == 0x3000
}

/// `s` without its leading white space.
pub open spec fn trim_start(s: Seq<char>) -> Seq<char>
    decreases s.len(),
{
    if s.len() > 0 && is_white_space(s[0]) {
        trim_start(s.drop_first())
    } else {
        s
    }
}

/// `s` without its trailing white space.
pub open spec fn trim_end(s: Seq<char>) -> Seq<char>
    decreases s.len(),
{
    if s.len() > 0 && is_white_space(s.last()) {
        trim_end(s.drop_last())
    } else {
        s
    }
}

/// `s` without leading or trailing white space, as `str::trim`.
pub open spec fn trim(s: Seq<char>) -> Seq<char> {
    trim_end(trim_start(s))
}

/// `s` without any leading copies of `c`, as `str::trim_start_matches(c)`.
pub open spec fn strip_leading(s: Seq<char>, c: char) -> Seq<char>
    decreases s.len(),
{
    if s.len() > 0 && s[0] == c {
        strip_leading(s.drop_first(), c)
    } else {
        s
    }
}

/// ASCII upper-casing of one character (other characters are kept).
pub open spec fn upper_char(c: char) -> char {
    if 'a' <= c <= 'z' {
        ((c as u32) - 32) as char
    } else {
        c
    }
}

/// `s` padded on the right with spaces to at least `width` characters,
/// as the `{:<width}` format specifier does.
pub open spec fn pad_right(s: Seq<char>, width: nat) -> Seq<char> {
    if s.len() >= width {
        s
    } else {
        s + Seq::new((width - s.len()) as nat, |i: int| ' ')
    }
}

/// The value of an ASCII hexadecimal digit, if `c` is one.
pub open spec fn hex_digit_value(c: char) -> Option<nat> {
    if '0' <= c <= '9' {
        Some((c as u32 - 48) as nat)
    } else if 'a' <= c <= 'f' {
        Some((c as u32 - 87) as nat)
    } else if 'A' <= c <= 'F' {
        Some((c as u32 - 55) as nat)
    } else {
        None
    }
}

/// Lower-case hexadecimal digit for `d < 16`.
pub open spec fn hex_digit_char(d: nat) -> char {
    if d < 10 {
        (48 + d) as char
    } else {
        (87 + d) as char
    }
}

/// The value of a string of hexadecimal digits (most significant first).
pub open spec fn hex_value(s: Seq<char>) -> nat
    decreases s.len(),
{
    if s.len() == 0 {
        0
    } else {
        hex_value(s.drop_last()) * 16 + hex_digit_value(s.last()).unwrap_or(0)
    }
}

/// All characters of `s` are ASCII hexadecimal digits.
pub open spec fn all_hex_digits(s: Seq<char>) -> bool {
    forall|i: int| 0 <= i < s.len() ==> (#[trigger] hex_digit_value(s[i])) is Some
}

/// The result of `u16::from_str_radix(s, 16)`: an optional `+` sign followed
/// by at least one hexadecimal digit, with a value that fits in 16 bits.
pub open spec fn parse_hex_u16(s: Seq<char>) -> Option<u16> {
    let digits = if s.len() > 0 && s[0] == '+' { s.drop_first() } else { s };
    if digits.len() > 0 && all_hex_digits(digits) && hex_value(digits) <= 0xffff {
        Some(hex_value(digits) as u16)
    } else {
        None
    }
}

/// The value of a string of decimal digits.
pub open spec fn dec_value(s: Seq<u8>) -> nat
    decreases s.len(),
{
    if s.len() == 0 {
        0
    } else {
        dec_value(s.drop_last()) * 10 + (s.last() - 48) as nat
    }
}

/// All bytes of `s` are ASCII decimal digits.
pub open spec fn all_dec_digits(s: Seq<u8>) -> bool {
    forall|i: int| 0 <= i < s.len() ==> 48 <= #[trigger] s[i] <= 57
}

/// The result of parsing the UTF-8 text `s` with `str::parse::<u16>()`:
/// an optional `+` sign followed by at least one decimal digit, with a value
/// that fits in 16 bits.
pub open spec fn parse_dec_u16(s: Seq<u8>) -> Option<u16> {
    let digits = if s.len() > 0 && s[0] == 43 { s.drop_first() } else { s };
    if digits.len() > 0 && all_dec_digits(digits) && dec_value(digits) <= 0xffff {
        Some(dec_value(digits) as u16)
    } else {
        None
    }
}

/// The characters that `String::from_utf8_lossy` yields for `bytes`.
pub uninterp spec fn utf8_lossy(bytes: Seq<u8>) -> Seq<char>;

/// Bytes read as text: the decoded characters when they are valid UTF-8,
/// else what `String::from_utf8_lossy` yields (invalid sequences replaced
/// by U+FFFD).
pub open spec fn lossy_text(bytes: Seq<u8>) -> Seq<char> {
    if valid_utf8(bytes) {
        decode_utf8(bytes)
    } else {
        utf8_lossy(bytes)
    }
}

// ---------------------------------------------------------------------------
// Trusted conversions from std
// ---------------------------------------------------------------------------

/// Calls `String::push`.  Trusted: the string afterwards holds its former
/// characters followed by `c`, as std documents.
#[verifier::external_body]
pub(crate) fn push_char(s: &mut String, c: char)
    ensures
        final(s)@ == old(s)@.push(c),
{
    s.push(c);
}

/// Calls `String::from_utf8_lossy`.  Trusted: the result is named
/// `utf8_lossy(bytes)`; for valid UTF-8 input it is exactly the decoded
/// text (std: "if our byte slice is valid UTF-8, then ... the same").
/// What it yields for invalid input (where U+FFFD is substituted) is left
/// to the name.
#[verifier::external_body]
pub(crate) fn decode_lossy(bytes: &[u8]) -> (s: String)
    ensures
        s@ == utf8_lossy(bytes@),
        valid_utf8(bytes@) ==> s@ == decode_utf8(bytes@),
{
    String::from_utf8_lossy(bytes).into_owned()
}

/// Calls `String::from_utf8` and keeps the `Ok` value.  Trusted: it succeeds
/// exactly on valid UTF-8, and then holds the decoded characters.
#[verifier::external_body]
pub(crate) fn decode_strict(bytes: Vec<u8>) -> (s: Option<String>)
    ensures
        s is Some <==> valid_utf8(bytes@),
        s matches Some(t) ==> t@ == decode_utf8(bytes@),
{
    String::from_utf8(bytes).ok()
}

// ---------------------------------------------------------------------------
// Verified helpers
// ---------------------------------------------------------------------------

/// The characters of `s`, in order.
pub fn chars_of(s: &str) -> (v: Vec<char>)
    ensures
        v@ == s@,
{
    let mut v: Vec<char> = Vec::new();
    for c in it: s.chars()
        invariant
            v@ == it.history(),
    {
        v.push(c);
    }
    v
}

/// Appends the characters of `v` to `s`.
pub fn push_chars(s: &mut String, v: &[char])
    ensures
        final(s)@ == old(s)@ + v@,
{
    let mut i: usize = 0;
    while i < v.len()
        invariant
            0 <= i <= v.len(),
            s@ == old(s)@ + v@.subrange(0, i as int),
        decreases v.len() - i,
    {
        push_char(s, v[i]);
        i = i + 1;
        assert(v@.subrange(0, i as int) == v@.subrange(0, i - 1).push(v@[i - 1]));
    }
    assert(v@.subrange(0, v.len() as int) == v@);
}

/// A `String` holding exactly the characters of `v`.
pub fn string_of(v: &[char]) -> (s: String)
    ensures
        s@ == v@,
{
    let mut s = String::new();
    push_chars(&mut s, v);
    s
}

/// An owned copy of `s`.
pub fn string_from(s: &str) -> (r: String)
    ensures
        r@ == s@,
{
    let cs = chars_of(s);
    string_of(cs.as_slice())
}

/// Appends the characters of `t` to `v`.
pub fn extend_chars(v: &mut Vec<char>, t: &[char])
    ensures
        final(v)@ == old(v)@ + t@,
{
    let mut i: usize = 0;
    while i < t.len()
        invariant
            0 <= i <= t.len(),
            v@ == old(v)@ + t@.subrange(0, i as int),
        decreases t.len() - i,
    {
        v.push(t[i]);
        i = i + 1;
        assert(t@.subrange(0, i as int) == t@.subrange(0, i - 1).push(t@[i - 1]));
    }
    assert(t@.subrange(0, t.len() as int) == t@);
}

/// Appends the characters of the text `t` to `v`.
pub fn extend_str(v: &mut Vec<char>, t: &str)
    ensures
        final(v)@ == old(v)@ + t@,
{
    let cs = chars_of(t);
    extend_chars(v, cs.as_slice());
}

/// Appends the decimal rendering of `n` to `v`.
pub fn push_decimal(v: &mut Vec<char>, n: u64)
    ensures
        final(v)@ == old(v)@ + decimal(n as nat),
    decreases n,
{
    if n >= 10 {
        push_decimal(v, n / 10);
    }
    let d: u8 = (n % 10) as u8;
    v.push((48u8 + d) as char);
    assert(decimal(n as nat) == if n < 10 {
        seq![digit_char(n as nat)]
    } else {
        decimal((n / 10) as nat).push(digit_char((n % 10) as nat))
    });
}

/// The decimal rendering of `n`.
pub fn decimal_chars(n: u64) -> (v: Vec<char>)
    ensures
        v@ == decimal(n as nat),
{
    let mut v: Vec<char> = Vec::new();
    push_decimal(&mut v, n);
    assert(v@ == Seq::<char>::empty() + decimal(n as nat));
    v
}

/// `join(parts.take(i+1))` in terms of `join(parts.take(i))`.
pub proof fn lemma_join_step(parts: Seq<Seq<char>>, sep: Seq<char>, i: int)
    requires
        0 <= i < parts.len(),
    ensures
        join(parts.take(i + 1), sep) == if i == 0 {
            parts[0]
        } else {
            join(parts.take(i), sep) + sep + parts[i]
        },
{
    assert(parts.take(i + 1).drop_last() == parts.take(i));
    assert(parts.take(i + 1).last() == parts[i]);
    if i == 0 {
        assert(parts.take(1)[0] == parts[0]);
    }
}

/// The parts of `parts` joined with `sep`.
pub fn join_chars(parts: &Vec<Vec<char>>, sep: &[char]) -> (out: Vec<char>)
    ensures
        out@ == join(parts@.map_values(|p: Vec<char>| p@), sep@),
{
    let ghost views = parts@.map_values(|p: Vec<char>| p@);
    let mut out: Vec<char> = Vec::new();
    let mut i: usize = 0;
    while i < parts.len()
        invariant
            0 <= i <= parts.len(),
            views == parts@.map_values(|p: Vec<char>| p@),
            out@ == join(views.take(i as int), sep@),
        decreases parts.len() - i,
    {
        proof {
            lemma_join_step(views, sep@, i as int);
        }
        if i > 0 {
            extend_chars(&mut out, sep);
        }
        extend_chars(&mut out, parts[i].as_slice());
        i = i + 1;
    }
    assert(views.take(parts.len() as int) == views);
    out
}

/// Whether `t` occurs at index `i` of `s`.
pub fn occurs_at_exec(s: &[char], t: &[char], i: usize) -> (b: bool)
    requires
        i + t.len() <= s.len(),
    ensures
        b == occurs_at(s@, t@, i as int),
{
    let mut j: usize = 0;
    while j < t.len()
        invariant
            0 <= j <= t.len(),
            i + t.len() <= s.len(),
            forall|k: int| 0 <= k < j ==> s@[i + k] == t@[k],
        decreases t.len() - j,
    {
        if s[i + j] != t[j] {
            assert(s@.subrange(i as int, i + t.len())[j as int] != t@[j as int]);
            return false;
        }
        j = j + 1;
    }
    assert(s@.subrange(i as int, i + t.len()) =~= t@);
    true
}

/// Whether `t` occurs anywhere in `s`.
pub fn contains_exec(s: &[char], t: &[char]) -> (b: bool)
    ensures
        b == contains_sub(s@, t@),
{
    if t.len() > s.len() {
        return false;
    }
    if t.len() == 0 {
        assert(s@.subrange(0, 0) =~= t@);
        assert(occurs_at(s@, t@, 0));
        return true;
    }
    let mut i: usize = 0;
    let last: usize = s.len() - t.len();
    while i <= last
        invariant
            t.len() <= s.len(),
            last == s.len() - t.len(),
            t.len() > 0,
            i <= last + 1,
            forall|k: int| 0 <= k < i ==> !occurs_at(s@, t@, k),
        decreases last + 1 - i,
    {
        if occurs_at_exec(s, t, i) {
            return true;
        }
        i = i + 1;
    }
    assert forall|k: int| !occurs_at(s@, t@, k) by {
        if 0 <= k < i {
        } else {
        }
    }
    false
}

/// Whether `s` ends with `t`.
pub fn has_suffix_exec(s: &[char], t: &[char]) -> (b: bool)
    ensures
        b == has_suffix(s@, t@),
{
    if t.len() > s.len() {
        return false;
    }
    let r = occurs_at_exec(s, t, s.len() - t.len());
    r
}

/// Whether `s` starts with `t`.
pub fn has_prefix_exec(s: &[char], t: &[char]) -> (b: bool)
    ensures
        b == has_prefix(s@, t@),
{
    if t.len() > s.len() {
        return false;
    }
    occurs_at_exec(s, t, 0)
}

/// Whether two character sequences are equal.
pub fn chars_eq(a: &[char], b: &[char]) -> (r: bool)
    ensures
        r == (a@ == b@),
{
    if a.len() != b.len() {
        return false;
    }
    let r = occurs_at_exec(a, b, 0);
    assert(a@.subrange(0, b@.len() as int) == a@);
    r
}

/// Whether `c` has the Unicode `White_Space` property.
pub fn is_white_space_exec(c: char) -> (b: bool)
    ensures
        b == is_white_space(c),
{
    let u = c as u32;
    (0x09 <= u && u <= 0x0d) || u == 0x20 || u == 0x85 || u == 0xa0 || u == 0x1680 || (0x2000 <= u
        && u <= 0x200a) || u == 0x2028 || u == 0x2029 || u == 0x202f || u == 0x205f || u == 0x3000
}

/// Dropping a white-space prefix does not change `trim_start`.
proof fn lemma_trim_start_skip(s: Seq<char>, i: int)
    requires
        0 <= i <= s.len(),
        forall|k: int| 0 <= k < i ==> is_white_space(#[trigger] s[k]),
    ensures
        trim_start(s) == trim_start(s.subrange(i, s.len() as int)),
    decreases i,
{
    if i > 0 {
        lemma_trim_start_skip(s, i - 1);
        let t = s.subrange(i - 1, s.len() as int);
        assert(t[0] == s[i - 1]);
        assert(t.drop_first() == s.subrange(i, s.len() as int));
    } else {
        assert(s.subrange(0, s.len() as int) == s);
    }
}

/// Dropping a white-space suffix does not change `trim_end`.
proof fn lemma_trim_end_skip(s: Seq<char>, j: int)
    requires
        0 <= j <= s.len(),
        forall|k: int| j <= k < s.len() ==> is_white_space(#[trigger] s[k]),
    ensures
        trim_end(s) == trim_end(s.subrange(0, j)),
    decreases s.len() - j,
{
    if j < s.len() {
        lemma_trim_end_skip(s, j + 1);
        let t = s.subrange(0, j + 1);
        assert(t.last() == s[j]);
        assert(t.drop_last() == s.subrange(0, j));
    } else {
        assert(s.subrange(0, s.len() as int) == s);
    }
}

/// `s` without leading and trailing white space.
pub fn trim_chars(s: &[char]) -> (r: Vec<char>)
    ensures
        r@ == trim(s@),
{
    let mut a: usize = 0;
    while a < s.len() && is_white_space_exec(s[a])
        invariant
            a <= s.len(),
            forall|k: int| 0 <= k < a ==> is_white_space(#[trigger] s@[k]),
        decreases s.len() - a,
    {
        a = a + 1;
    }
    proof {
        lemma_trim_start_skip(s@, a as int);
        let t = s@.subrange(a as int, s@.len() as int);
        if t.len() > 0 {
            assert(t[0] == s@[a as int]);
        }
    }
    let mut b: usize = s.len();
    while b > a && is_white_space_exec(s[b - 1])
        invariant
            a <= b <= s.len(),
            forall|k: int| b <= k < s.len() ==> is_white_space(#[trigger] s@[k]),
        decreases b,
    {
        b = b - 1;
    }
    let ghost t = s@.subrange(a as int, s@.len() as int);
    proof {
        assert(trim_start(s@) == t);
        lemma_trim_end_skip(t, b - a);
        assert(t.subrange(0, b - a) == s@.subrange(a as int, b as int));
        let u = s@.subrange(a as int, b as int);
        if u.len() > 0 {
            assert(u.last() == s@[b - 1]);
        }
    }
    let mut r: Vec<char> = Vec::new();
    let mut k: usize = a;
    while k < b
        invariant
            a <= k <= b <= s.len(),
            r@ == s@.subrange(a as int, k as int),
        decreases b - k,
    {
        r.push(s[k]);
        k = k + 1;
        assert(s@.subrange(a as int, k as int) == s@.subrange(a as int, k - 1).push(s@[k - 1]));
    }
    r
}

/// `strip_leading` after skipping a prefix of `c`s.
proof fn lemma_strip_leading_skip(s: Seq<char>, c: char, i: int)
    requires
        0 <= i <= s.len(),
        forall|k: int| 0 <= k < i ==> #[trigger] s[k] == c,
    ensures
        strip_leading(s, c) == strip_leading(s.subrange(i, s.len() as int), c),
    decreases i,
{
    if i > 0 {
        lemma_strip_leading_skip(s, c, i - 1);
        let t = s.subrange(i - 1, s.len() as int);
        assert(t[0] == s[i - 1]);
        assert(t.drop_first() == s.subrange(i, s.len() as int));
    } else {
        assert(s.subrange(0, s.len() as int) == s);
    }
}

/// `s` without its leading copies of `c`.
pub fn strip_leading_chars(s: &[char], c: char) -> (r: Vec<char>)
    ensures
        r@ == strip_leading(s@, c),
{
    let mut a: usize = 0;
    while a < s.len() && s[a] == c
        invariant
            a <= s.len(),
            forall|k: int| 0 <= k < a ==> #[trigger] s@[k] == c,
        decreases s.len() - a,
    {
        a = a + 1;
    }
    proof {
        lemma_strip_leading_skip(s@, c, a as int);
        let t = s@.subrange(a as int, s@.len() as int);
        if t.len() > 0 {
            assert(t[0] == s@[a as int]);
        }
    }
    let mut r: Vec<char> = Vec::new();
    let mut k: usize = a;
    while k < s.len()
        invariant
            a <= k <= s.len(),
            r@ == s@.subrange(a as int, k as int),
        decreases s.len() - k,
    {
        r.push(s[k]);
        k = k + 1;
        assert(s@.subrange(a as int, k as int) == s@.subrange(a as int, k - 1).push(s@[k - 1]));
    }
    r
}

/// The sub-sequence `s[from..to]`.
pub fn slice_chars(s: &[char], from: usize, to: usize) -> (r: Vec<char>)
    requires
        from <= to <= s.len(),
    ensures
        r@ == s@.subrange(from as int, to as int),
{
    let mut r: Vec<char> = Vec::new();
    let mut k: usize = from;
    while k < to
        invariant
            from <= k <= to <= s.len(),
            r@ == s@.subrange(from as int, k as int),
        decreases to - k,
    {
        r.push(s[k]);
        k = k + 1;
        assert(s@.subrange(from as int, k as int) == s@.subrange(from as int, k - 1).push(
            s@[k - 1],
        ));
    }
    r
}

/// ASCII upper-casing of every character of `s`.
pub fn upper_chars(s: &[char]) -> (r: Vec<char>)
    ensures
        r@ == s@.map_values(|c: char| upper_char(c)),
{
    let mut r: Vec<char> = Vec::new();
    let mut k: usize = 0;
    while k < s.len()
        invariant
            k <= s.len(),
            r@ == s@.subrange(0, k as int).map_values(|c: char| upper_char(c)),
        decreases s.len() - k,
    {
        let c = s[k];
        let u = if 'a' <= c && c <= 'z' {
            ((c as u32 - 32) as u8) as char
        } else {
            c
        };
        r.push(u);
        k = k + 1;
        assert(s@.subrange(0, k as int).map_values(|c: char| upper_char(c)) == s@.subrange(
            0,
            k - 1,
        ).map_values(|c: char| upper_char(c)).push(upper_char(c)));
    }
    assert(s@.subrange(0, s.len() as int) == s@);
    r
}

/// Appends `s` padded with spaces on the right to `width` characters.
pub fn extend_padded(v: &mut Vec<char>, s: &[char], width: usize)
    ensures
        final(v)@ == old(v)@ + pad_right(s@, width as nat),
{
    extend_chars(v, s);
    let ghost base = v@;
    let mut n: usize = s.len();
    while n < width
        invariant
            s.len() <= n <= width || n == s.len(),
            v@ == base + Seq::new((n - s.len()) as nat, |i: int| ' '),
            base == old(v)@ + s@,
        decreases width - n,
    {
        v.push(' ');
        n = n + 1;
        assert(Seq::new((n - s.len()) as nat, |i: int| ' ') == Seq::new(
            (n - 1 - s.len()) as nat,
            |i: int| ' ',
        ).push(' '));
    }
    proof {
        if s.len() >= width {
            assert(Seq::new(0nat, |i: int| ' ') == Seq::<char>::empty());
            assert(v@ == base);
        }
    }
}

/// Index of the first occurrence of `c` in `s`, as `str::find(c)`.
pub open spec fn find_char(s: Seq<char>, c: char) -> Option<int>
    decreases s.len(),
{
    if s.len() == 0 {
        None
    } else if s[0] == c {
        Some(0)
    } else {
        match find_char(s.drop_first(), c) {
            Some(k) => Some(k + 1),
            None => None,
        }
    }
}

/// `find_char` is the first index holding `c`.
pub proof fn lemma_find_char(s: Seq<char>, c: char, k: int)
    requires
        0 <= k <= s.len(),
        forall|j: int| 0 <= j < k ==> #[trigger] s[j] != c,
    ensures
        k < s.len() && s[k] == c ==> find_char(s, c) == Some(k),
        k == s.len() ==> find_char(s, c) is None,
    decreases k,
{
    if k > 0 {
        let t = s.drop_first();
        assert forall|j: int| 0 <= j < k - 1 implies #[trigger] t[j] != c by {
            assert(t[j] == s[j + 1]);
        }
        lemma_find_char(t, c, k - 1);
        assert(s[0] != c);
        if k < s.len() {
            assert(t[k - 1] == s[k]);
        }
    } else if s.len() > 0 {
    }
}

/// Index of the first occurrence of `c` in `s`.
pub fn find_char_exec(s: &[char], c: char) -> (r: Option<usize>)
    ensures
        r matches Some(k) ==> find_char(s@, c) == Some(k as int) && k < s@.len() && s@[k as int]
            == c,
        r is None ==> find_char(s@, c) is None,
{
    let mut k: usize = 0;
    while k < s.len()
        invariant
            k <= s.len(),
            forall|j: int| 0 <= j < k ==> #[trigger] s@[j] != c,
        decreases s.len() - k,
    {
        if s[k] == c {
            proof {
                lemma_find_char(s@, c, k as int);
            }
            return Some(k);
        }
        k = k + 1;
    }
    proof {
        lemma_find_char(s@, c, k as int);
    }
    None
}

/// `dec_value` grows when digits are appended.
pub proof fn lemma_dec_value_mono(s: Seq<u8>, k: int)
    requires
        0 <= k <= s.len(),
        all_dec_digits(s),
    ensures
        dec_value(s.take(k)) <= dec_value(s),
    decreases s.len() - k,
{
    if k < s.len() {
        lemma_dec_value_mono(s, k + 1);
        assert(s.take(k + 1).drop_last() == s.take(k));
        assert(s.take(k + 1).last() == s[k]);
    } else {
        assert(s.take(k) == s);
    }
}

/// Parses decimal text as `str::parse::<u16>()` does.
pub fn parse_dec_u16_exec(s: &[u8]) -> (r: Option<u16>)
    ensures
        r == parse_dec_u16(s@),
{
    let start: usize = if s.len() > 0 && s[0] == 43 { 1 } else { 0 };
    let ghost digits = if s@.len() > 0 && s@[0] == 43 { s@.drop_first() } else { s@ };
    assert(digits == s@.subrange(start as int, s@.len() as int));
    if start >= s.len() {
        return None;
    }
    let mut value: u32 = 0;
    let mut k: usize = start;
    while k < s.len()
        invariant
            start <= k <= s.len(),
            digits == s@.subrange(start as int, s@.len() as int),
            digits == (if s@.len() > 0 && s@[0] == 43 { s@.drop_first() } else { s@ }),
            digits.len() > 0,
            all_dec_digits(digits.take(k - start)),
            value as nat == dec_value(digits.take(k - start)),
            value <= 0xffff,
        decreases s.len() - k,
    {
        let b = s[k];
        if b < 48 || b > 57 {
            proof {
                assert(digits[k - start] == b);
                assert(!(48 <= digits[k - start] <= 57));
                assert(!all_dec_digits(digits));
            }
            return None;
        }
        let next: u32 = value * 10 + (b - 48) as u32;
        proof {
            let t = digits.take(k + 1 - start);
            assert(t.drop_last() == digits.take(k - start));
            assert(t.last() == b);
            assert(all_dec_digits(t));
        }
        if next > 0xffff {
            proof {
                if all_dec_digits(digits) {
                    lemma_dec_value_mono(digits, k + 1 - start);
                }
            }
            return None;
        }
        value = next;
        k = k + 1;
    }
    assert(digits.take(k - start) == digits);
    Some(value as u16)
}

/// Bounds of `find_char`.
pub proof fn lemma_find_char_bounds(s: Seq<char>, c: char)
    ensures
        find_char(s, c) matches Some(k) ==> 0 <= k < s.len() && s[k] == c,
    decreases s.len(),
{
    if s.len() > 0 && s[0] != c {
        lemma_find_char_bounds(s.drop_first(), c);
    }
}

/// `s` split at every `c`, as `str::split(c)`: always at least one part.
pub open spec fn split_on(s: Seq<char>, c: char) -> Seq<Seq<char>>
    decreases s.len(),
{
    match find_char(s, c) {
        Some(k) => {
            proof {
                lemma_find_char_bounds(s, c);
            }
            if 0 <= k < s.len() {
                seq![s.subrange(0, k)] + split_on(s.subrange(k + 1, s.len() as int), c)
            } else {
                seq![s]
            }
        },
        None => seq![s],
    }
}

/// Splits `s` at every `c`.
pub fn split_chars(s: &[char], c: char) -> (parts: Vec<Vec<char>>)
    ensures
        parts@.map_values(|p: Vec<char>| p@) == split_on(s@, c),
{
    let mut parts: Vec<Vec<char>> = Vec::new();
    let mut rest: Vec<char> = slice_chars(s, 0, s.len());
    assert(s@.subrange(0, s@.len() as int) == s@);
    loop
        invariant
            parts@.map_values(|p: Vec<char>| p@) + split_on(rest@, c) == split_on(s@, c),
        decreases rest@.len(),
    {
        proof {
            lemma_find_char_bounds(rest@, c);
        }
        match find_char_exec(rest.as_slice(), c) {
            Some(k) => {
                assert(k < rest.len());
                let head = slice_chars(rest.as_slice(), 0, k);
                let tail = slice_chars(rest.as_slice(), k + 1, rest.len());
                let ghost before = parts@.map_values(|p: Vec<char>| p@);
                parts.push(head);
                assert(parts@.map_values(|p: Vec<char>| p@) == before.push(head@));
                assert(split_on(rest@, c) == seq![head@] + split_on(tail@, c));
                assert(before.push(head@) + split_on(tail@, c) == before + (seq![head@]
                    + split_on(tail@, c)));
                rest = tail;
            },
            None => {
                let ghost before = parts@.map_values(|p: Vec<char>| p@);
                parts.push(rest);
                assert(parts@.map_values(|p: Vec<char>| p@) =~= before + seq![rest@]);
                return parts;
            },
        }
    }
}

/// Lexicographic order of texts by code point, which is the order of their
/// UTF-8 encodings and so the order `String`'s `Ord` uses.
pub open spec fn text_lt(a: Seq<char>, b: Seq<char>) -> bool
    decreases a.len(),
{
    if a.len() == 0 {
        b.len() > 0
    } else if b.len() == 0 {
        false
    } else if a[0] != b[0] {
        (a[0] as u32) < (b[0] as u32)
    } else {
        text_lt(a.drop_first(), b.drop_first())
    }
}

pub proof fn lemma_text_lt_irreflexive(a: Seq<char>)
    ensures
        !text_lt(a, a),
    decreases a.len(),
{
    if a.len() > 0 {
        lemma_text_lt_irreflexive(a.drop_first());
    }
}

pub proof fn lemma_text_lt_transitive(a: Seq<char>, b: Seq<char>, c: Seq<char>)
    requires
        text_lt(a, b),
        text_lt(b, c),
    ensures
        text_lt(a, c),
    decreases a.len(),
{
    if a.len() > 0 && b.len() > 0 && c.len() > 0 {
        if a[0] == b[0] && b[0] == c[0] {
            lemma_text_lt_transitive(a.drop_first(), b.drop_first(), c.drop_first());
        }
    }
}

pub proof fn lemma_text_lt_total(a: Seq<char>, b: Seq<char>)
    requires
        a != b,
    ensures
        text_lt(a, b) || text_lt(b, a),
    decreases a.len(),
{
    if a.len() > 0 && b.len() > 0 && a[0] != b[0] {
        vstd::utf8::char_u32_cast(a[0], a[0] as u32);
        vstd::utf8::char_u32_cast(b[0], b[0] as u32);
        assert(a[0] as u32 != b[0] as u32);
    } else if a.len() > 0 && b.len() > 0 && a[0] == b[0] {
        if a.drop_first() == b.drop_first() {
            assert(a =~= seq![a[0]] + a.drop_first());
            assert(b =~= seq![b[0]] + b.drop_first());
        }
        lemma_text_lt_total(a.drop_first(), b.drop_first());
    } else if a.len() == 0 && b.len() == 0 {
        assert(a =~= b);
    }
}

/// Each text comes strictly before the next.
pub open spec fn strictly_sorted(r: Seq<Seq<char>>) -> bool {
    forall|i: int, j: int| 0 <= i < j < r.len() ==> text_lt(#[trigger] r[i], #[trigger] r[j])
}

/// The distinct texts of `s` in ascending order, as `sort` then `dedup`.
pub open spec fn sorted_distinct(s: Seq<Seq<char>>) -> Seq<Seq<char>> {
    choose|r: Seq<Seq<char>>| strictly_sorted(r) && r.to_set() == s.to_set()
}

/// A strictly sorted listing of a set is unique.
pub proof fn lemma_sorted_listing_unique(r1: Seq<Seq<char>>, r2: Seq<Seq<char>>)
    requires
        strictly_sorted(r1),
        strictly_sorted(r2),
        r1.to_set() == r2.to_set(),
    ensures
        r1 == r2,
    decreases r1.len() + r2.len(),
{
    if r1.len() == 0 {
        if r2.len() > 0 {
            assert(r2.to_set().contains(r2[0]));
        }
        assert(r1 =~= r2);
    } else if r2.len() == 0 {
        assert(r1.to_set().contains(r1[0]));
    } else {
        let a = r1[0];
        let b = r2[0];
        assert(r1.to_set().contains(a));
        assert(r2.to_set().contains(b));
        let i = choose|i: int| 0 <= i < r1.len() && r1[i] == b;
        let j = choose|j: int| 0 <= j < r2.len() && r2[j] == a;
        if a != b {
            if j > 0 {
                assert(text_lt(b, a));
                if i > 0 {
                    assert(text_lt(a, b));
                    lemma_text_lt_transitive(a, b, a);
                    lemma_text_lt_irreflexive(a);
                } else {
                    assert(r1[0] == b);
                }
            } else {
                assert(r2[0] == a);
            }
        }
        assert(a == b);
        let t1 = r1.drop_first();
        let t2 = r2.drop_first();
        assert forall|x: Seq<char>| t1.to_set().contains(x) implies t2.to_set().contains(x) by {
            let k = choose|k: int| 0 <= k < t1.len() && t1[k] == x;
            assert(r1[k + 1] == x);
            assert(text_lt(a, x));
            assert(r2.to_set().contains(x));
            let m = choose|m: int| 0 <= m < r2.len() && r2[m] == x;
            if m == 0 {
                lemma_text_lt_irreflexive(a);
            }
            assert(t2[m - 1] == x);
        }
        assert forall|x: Seq<char>| t2.to_set().contains(x) implies t1.to_set().contains(x) by {
            let k = choose|k: int| 0 <= k < t2.len() && t2[k] == x;
            assert(r2[k + 1] == x);
            assert(text_lt(b, x));
            assert(r1.to_set().contains(x));
            let m = choose|m: int| 0 <= m < r1.len() && r1[m] == x;
            if m == 0 {
                lemma_text_lt_irreflexive(b);
            }
            assert(t1[m - 1] == x);
        }
        assert(t1.to_set() =~= t2.to_set());
        assert forall|p: int, q: int| 0 <= p < q < t1.len() implies text_lt(
            #[trigger] t1[p],
            #[trigger] t1[q],
        ) by {
            assert(t1[p] == r1[p + 1] && t1[q] == r1[q + 1]);
        }
        assert forall|p: int, q: int| 0 <= p < q < t2.len() implies text_lt(
            #[trigger] t2[p],
            #[trigger] t2[q],
        ) by {
            assert(t2[p] == r2[p + 1] && t2[q] == r2[q + 1]);
        }
        lemma_sorted_listing_unique(t1, t2);
        assert(r1 =~= seq![a] + t1);
        assert(r2 =~= seq![b] + t2);
    }
}

/// Whether `a` comes strictly before `b`.
pub fn text_lt_exec(a: &[char], b: &[char]) -> (r: bool)
    ensures
        r == text_lt(a@, b@),
{
    let mut i: usize = 0;
    assert(a@.subrange(0, a@.len() as int) == a@);
    assert(b@.subrange(0, b@.len() as int) == b@);
    while i < a.len() && i < b.len() && a[i] == b[i]
        invariant
            i <= a.len(),
            i <= b.len(),
            text_lt(a@, b@) == text_lt(a@.subrange(i as int, a@.len() as int), b@.subrange(
                i as int,
                b@.len() as int,
            )),
        decreases a.len() - i,
    {
        let ghost sa = a@.subrange(i as int, a@.len() as int);
        let ghost sb = b@.subrange(i as int, b@.len() as int);
        assert(sa.drop_first() == a@.subrange(i + 1, a@.len() as int));
        assert(sb.drop_first() == b@.subrange(i + 1, b@.len() as int));
        assert(sa[0] == a@[i as int] && sb[0] == b@[i as int]);
        i = i + 1;
    }
    let ghost sa = a@.subrange(i as int, a@.len() as int);
    let ghost sb = b@.subrange(i as int, b@.len() as int);
    if i == a.len() {
        i < b.len()
    } else if i == b.len() {
        false
    } else {
        assert(sa[0] == a@[i as int] && sb[0] == b@[i as int]);
        (a[i] as u32) < (b[i] as u32)
    }
}

/// The distinct texts of `items`, in ascending order.
pub fn sort_distinct(items: &Vec<Vec<char>>) -> (r: Vec<Vec<char>>)
    ensures
        r@.map_values(|p: Vec<char>| p@) == sorted_distinct(items@.map_values(|p: Vec<char>| p@)),
{
    let ghost all = items@.map_values(|p: Vec<char>| p@);
    let mut out: Vec<Vec<char>> = Vec::new();
    let mut n: usize = 0;
    while n < items.len()
        invariant
            n <= items.len(),
            all == items@.map_values(|p: Vec<char>| p@),
            strictly_sorted(out@.map_values(|p: Vec<char>| p@)),
            out@.map_values(|p: Vec<char>| p@).to_set() == all.take(n as int).to_set(),
        decreases items.len() - n,
    {
        let ghost cur = out@.map_values(|p: Vec<char>| p@);
        let x = &items[n];
        // first position whose text is not before x
        let mut k: usize = 0;
        while k < out.len() && text_lt_exec(out[k].as_slice(), x.as_slice())
            invariant
                k <= out.len(),
                cur == out@.map_values(|p: Vec<char>| p@),
                forall|j: int| 0 <= j < k ==> text_lt(#[trigger] cur[j], x@),
            decreases out.len() - k,
        {
            k = k + 1;
        }
        proof {
            assert(all.take(n + 1) == all.take(n as int).push(x@));
            all.take(n as int).lemma_push_to_set_commute(x@);
            assert(all.take(n + 1).to_set() == all.take(n as int).to_set().insert(x@));
        }
        if k < out.len() && chars_eq(out[k].as_slice(), x.as_slice()) {
            proof {
                assert(cur.to_set().contains(x@)) by {
                    assert(cur[k as int] == x@);
                }
                assert(cur.to_set().insert(x@) =~= cur.to_set());
            }
        } else {
            proof {
                if k < out.len() {
                    lemma_text_lt_total(cur[k as int], x@);
                    assert(text_lt(x@, cur[k as int]));
                }
            }
            out.insert(k, x.clone());
            proof {
                let nw = out@.map_values(|p: Vec<char>| p@);
                assert(nw =~= cur.insert(k as int, x@));
                assert forall|i: int, j: int| 0 <= i < j < nw.len() implies text_lt(
                    #[trigger] nw[i],
                    #[trigger] nw[j],
                ) by {
                    if j < k {
                        assert(nw[i] == cur[i] && nw[j] == cur[j]);
                    } else if j == k {
                        assert(nw[i] == cur[i]);
                    } else if i == k {
                        assert(nw[j] == cur[j - 1]);
                        if j - 1 > k {
                            assert(text_lt(cur[k as int], cur[j - 1]));
                            lemma_text_lt_transitive(x@, cur[k as int], cur[j - 1]);
                        }
                    } else if i < k {
                        assert(nw[i] == cur[i] && nw[j] == cur[j - 1]);
                        if j - 1 == k as int {
                            lemma_text_lt_transitive(cur[i], x@, cur[j - 1]);
                        } else {
                            assert(text_lt(cur[i], cur[k as int]));
                            lemma_text_lt_transitive(cur[i], x@, cur[k as int]);
                            lemma_text_lt_transitive(cur[i], cur[k as int], cur[j - 1]);
                        }
                    } else {
                        assert(nw[i] == cur[i - 1] && nw[j] == cur[j - 1]);
                    }
                }
                assert(nw.to_set() =~= cur.to_set().insert(x@)) by {
                    assert forall|y: Seq<char>| nw.to_set().contains(y) implies cur.to_set().insert(
                        x@,
                    ).contains(y) by {
                        let m = choose|m: int| 0 <= m < nw.len() && nw[m] == y;
                        if m < k {
                            assert(cur[m] == y);
                        } else if m > k {
                            assert(cur[m - 1] == y);
                        }
                    }
                    assert forall|y: Seq<char>| cur.to_set().insert(x@).contains(y) implies nw.to_set().contains(
                        y,
                    ) by {
                        if y == x@ {
                            assert(nw[k as int] == y);
                        } else {
                            let m = choose|m: int| 0 <= m < cur.len() && cur[m] == y;
                            if m < k {
                                assert(nw[m] == y);
                            } else {
                                assert(nw[m + 1] == y);
                            }
                        }
                    }
                }
            }
        }
        n = n + 1;
    }
    proof {
        assert(all.take(items.len() as int) == all);
        let r = out@.map_values(|p: Vec<char>| p@);
        let c = sorted_distinct(all);
        assert(strictly_sorted(c) && c.to_set() == all.to_set());
        lemma_sorted_listing_unique(r, c);
    }
    out
}

/// `hex_value` grows when digits are appended.
pub proof fn lemma_hex_value_mono(s: Seq<char>, k: int)
    requires
        0 <= k <= s.len(),
    ensures
        hex_value(s.take(k)) <= hex_value(s),
    decreases s.len() - k,
{
    if k < s.len() {
        lemma_hex_value_mono(s, k + 1);
        assert(s.take(k + 1).drop_last() == s.take(k));
    } else {
        assert(s.take(k) == s);
    }
}

/// The value of one hexadecimal digit, if `c` is one.
pub fn hex_digit_value_exec(c: char) -> (r: Option<u8>)
    ensures
        r matches Some(v) ==> hex_digit_value(c) == Some(v as nat) && v < 16,
        r is None ==> hex_digit_value(c) is None,
{
    if '0' <= c && c <= '9' {
        Some((c as u32 - 48) as u8)
    } else if 'a' <= c && c <= 'f' {
        Some((c as u32 - 87) as u8)
    } else if 'A' <= c && c <= 'F' {
        Some((c as u32 - 55) as u8)
    } else {
        None
    }
}

/// Parses hexadecimal text as `u16::from_str_radix(s, 16)` does.
pub fn parse_hex_u16_exec(s: &[char]) -> (r: Option<u16>)
    ensures
        r == parse_hex_u16(s@),
{
    let start: usize = if s.len() > 0 && s[0] == '+' { 1 } else { 0 };
    let ghost digits = if s@.len() > 0 && s@[0] == '+' { s@.drop_first() } else { s@ };
    assert(digits == s@.subrange(start as int, s@.len() as int));
    if start >= s.len() {
        return None;
    }
    let mut value: u32 = 0;
    let mut k: usize = start;
    while k < s.len()
        invariant
            start <= k <= s.len(),
            digits == s@.subrange(start as int, s@.len() as int),
            digits == (if s@.len() > 0 && s@[0] == '+' { s@.drop_first() } else { s@ }),
            digits.len() > 0,
            all_hex_digits(digits.take(k - start)),
            value as nat == hex_value(digits.take(k - start)),
            value <= 0xffff,
        decreases s.len() - k,
    {
        let d = match hex_digit_value_exec(s[k]) {
            Some(d) => d,
            None => {
                proof {
                    assert(digits[k - start] == s@[k as int]);
                    assert(!(hex_digit_value(digits[k - start]) is Some));
                    assert(!all_hex_digits(digits));
                }
                return None;
            },
        };
        let next: u32 = value * 16 + d as u32;
        proof {
            let t = digits.take(k + 1 - start);
            assert(t.drop_last() == digits.take(k - start));
            assert(t.last() == s@[k as int]);
            assert forall|i: int| 0 <= i < t.len() implies (#[trigger] hex_digit_value(t[i])) is Some by {
                if i < t.len() - 1 {
                    assert(t[i] == digits.take(k - start)[i]);
                }
            }
        }
        if next > 0xffff {
            proof {
                lemma_hex_value_mono(digits, k + 1 - start);
            }
            return None;
        }
        value = next;
        k = k + 1;
    }
    assert(digits.take(k - start) == digits);
    Some(value as u16)
}

/// A hexadecimal digit's value is below 16.
pub proof fn lemma_hex_digit_value_bound(c: char)
    ensures
        hex_digit_value(c) matches Some(v) ==> v < 16,
{
    if '0' <= c <= '9' {
        assert(c as u32 <= 57);
    } else if 'a' <= c <= 'f' {
        assert(c as u32 <= 102);
    } else if 'A' <= c <= 'F' {
        assert(c as u32 <= 70);
    }
}

/// Hexadecimal digit strings of at most two digits have values below 256.
pub proof fn lemma_hex_value_small(s: Seq<char>)
    requires
        s.len() <= 2,
        all_hex_digits(s),
    ensures
        hex_value(s) < 256,
{
    if s.len() == 1 {
        assert(s.drop_last().len() == 0);
        assert(hex_digit_value(s[0]) is Some);
        lemma_hex_digit_value_bound(s[0]);
        assert(s.last() == s[0]);
        assert(hex_value(s) == hex_value(s.drop_last()) * 16 + hex_digit_value(s.last()).unwrap_or(0));
    } else if s.len() == 2 {
        lemma_hex_digit_value_bound(s[0]);
        lemma_hex_digit_value_bound(s[1]);
        let t = s.drop_last();
        assert(t.drop_last().len() == 0);
        assert(hex_digit_value(s[0]) is Some);
        assert(hex_digit_value(s[1]) is Some);
        assert(t[0] == s[0]);
        assert(t.last() == s[0]);
        assert(hex_value(t) == hex_value(t.drop_last()) * 16 + hex_digit_value(t.last()).unwrap_or(0));
        assert(hex_value(t) < 16);
        assert(hex_value(s) == hex_value(t) * 16 + hex_digit_value(s.last()).unwrap_or(0));
    }
}

} // verus!
