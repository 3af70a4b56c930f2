//! Character-level text helpers shared by the parsers and formatters.
//!
//! Strings are reasoned about through their views, `Seq<char>`.
use vstd::prelude::*;

verus! {

// ---------------------------------------------------------------------------
// Specifications
// ---------------------------------------------------------------------------

/// The ASCII digit for a value in `0..10`.
pub open spec fn digit_char(d: int) -> char {
    (d + 48) as char
}

/// The hexadecimal digit for a value in `0..16`.
pub open spec fn hex_digit_char(d: int, upper: bool) -> char {
    if d < 10 {
        (d + 48) as char
    } else if upper {
        (d + 55) as char
    } else {
        (d + 87) as char
    }
}

/// Decimal rendering of a natural number, without leading zeros.
pub open spec fn spec_decimal(n: nat) -> Seq<char>
    decreases n,
{
    if n < 10 {
        seq![digit_char(n as int)]
    } else {
        spec_decimal(n / 10).push(digit_char((n % 10) as int))
    }
}

/// Hexadecimal rendering of a natural number, without leading zeros.
pub open spec fn spec_hex(n: nat, upper: bool) -> Seq<char>
    decreases n,
{
    if n < 16 {
        seq![hex_digit_char(n as int, upper)]
    } else {
        spec_hex(n / 16, upper).push(hex_digit_char((n % 16) as int, upper))
    }
}

/// `fill` repeated `count` times.
pub open spec fn repeat_char(fill: char, count: int) -> Seq<char> {
    Seq::new(if count < 0 { 0 } else { count as nat }, |_i: int| fill)
}

/// `s` right-aligned in a field of `width` characters (as `{:>width}` does).
pub open spec fn pad_left(s: Seq<char>, width: int, fill: char) -> Seq<char> {
    repeat_char(fill, width - s.len()) + s
}

/// `s` left-aligned in a field of `width` characters (as `{:<width}` does).
pub open spec fn pad_right(s: Seq<char>, width: int, fill: char) -> Seq<char> {
    s + repeat_char(fill, width - s.len())
}

/// Zero-padded decimal, as `{:0width}` renders an unsigned integer.
pub open spec fn spec_decimal_padded(n: nat, width: int) -> Seq<char> {
    pad_left(spec_decimal(n), width, '0')
}

/// Zero-padded hexadecimal, as `{:0widthx}` (or `X`) renders an unsigned integer.
pub open spec fn spec_hex_padded(n: nat, width: int, upper: bool) -> Seq<char> {
    pad_left(spec_hex(n, upper), width, '0')
}

/// `s` cut at every occurrence of `sep`, as `str::split` with a character does.
pub open spec fn split_on(s: Seq<char>, sep: char) -> Seq<Seq<char>>
    decreases s.len(),
{
    if s.len() == 0 {
        seq![Seq::<char>::empty()]
    } else {
        let r = split_on(s.drop_last(), sep);
        if s.last() == sep {
            r.push(Seq::<char>::empty())
        } else {
            r.update(r.len() - 1, r.last().push(s.last()))
        }
    }
}

/// The non-empty pieces of a list, in order.
pub open spec fn nonempty_parts(parts: Seq<Seq<char>>) -> Seq<Seq<char>>
    decreases parts.len(),
{
    if parts.len() == 0 {
        Seq::empty()
    } else if parts.last().len() == 0 {
        nonempty_parts(parts.drop_last())
    } else {
        nonempty_parts(parts.drop_last()).push(parts.last())
    }
}

/// Index of the first occurrence of `c` in `s`, or -1.
pub open spec fn first_index_of(s: Seq<char>, c: char) -> int
    decreases s.len(),
{
    if s.len() == 0 {
        -1
    } else if s[0] == c {
        0
    } else {
        let r = first_index_of(s.drop_first(), c);
        if r < 0 {
            -1
        } else {
            r + 1
        }
    }
}

/// Index of the last occurrence of `c` in `s`, or -1.
pub open spec fn last_index_of(s: Seq<char>, c: char) -> int
    decreases s.len(),
{
    if s.len() == 0 {
        -1
    } else if s.last() == c {
        s.len() - 1
    } else {
        last_index_of(s.drop_last(), c)
    }
}

/// `str::split_once` with a character separator.
pub open spec fn spec_split_once(s: Seq<char>, c: char) -> Option<(Seq<char>, Seq<char>)> {
    let i = first_index_of(s, c);
    if i < 0 {
        None
    } else {
        Some((s.subrange(0, i), s.subrange(i + 1, s.len() as int)))
    }
}

/// `str::rsplit_once` with a character separator.
pub open spec fn spec_rsplit_once(s: Seq<char>, c: char) -> Option<(Seq<char>, Seq<char>)> {
    let i = last_index_of(s, c);
    if i < 0 {
        None
    } else {
        Some((s.subrange(0, i), s.subrange(i + 1, s.len() as int)))
    }
}

/// Whether `needle` occurs in `hay` starting at index `i`.
pub open spec fn occurs_at(hay: Seq<char>, needle: Seq<char>, i: int) -> bool {
    0 <= i && i + needle.len() <= hay.len() && hay.subrange(i, i + needle.len()) == needle
}

/// Whether `needle` occurs anywhere in `hay` (as `str::contains` with a string pattern).
pub open spec fn contains_seq(hay: Seq<char>, needle: Seq<char>) -> bool {
    exists|i: int| occurs_at(hay, needle, i)
}

/// The Unicode `White_Space` property (PropList.txt), which `char::is_whitespace` reports.
pub open spec fn is_white_space(c: char) -> bool {
    let u = c as u32;
    (0x09 <= u && u <= 0x0d) || u == 0x20 || u == 0x85 || u == 0xa0 || u == 0x1680 || (0x2000
        <= u && u <= 0x200a) || u == 0x2028 || u == 0x2029 || u == 0x202f || u == 0x205f || u
        == 0x3000
}

/// `s` without leading white space.
pub open spec fn trim_start_ws(s: Seq<char>) -> Seq<char>
    decreases s.len(),
{
    if s.len() > 0 && is_white_space(s[0]) {
        trim_start_ws(s.drop_first())
    } else {
        s
    }
}

/// `s` without trailing white space.
pub open spec fn trim_end_ws(s: Seq<char>) -> Seq<char>
    decreases s.len(),
{
    if s.len() > 0 && is_white_space(s.last()) {
        trim_end_ws(s.drop_last())
    } else {
        s
    }
}

/// `str::trim`: `s` without leading or trailing white space.
pub open spec fn spec_trim(s: Seq<char>) -> Seq<char> {
    trim_end_ws(trim_start_ws(s))
}

/// `s` without trailing occurrences of `c` (as `str::trim_end_matches` with a character).
pub open spec fn trim_end_char(s: Seq<char>, c: char) -> Seq<char>
    decreases s.len(),
{
    if s.len() > 0 && s.last() == c {
        trim_end_char(s.drop_last(), c)
    } else {
        s
    }
}

/// Whether `c` is an ASCII decimal digit.
pub open spec fn is_digit(c: char) -> bool {
    '0' <= c && c <= '9'
}

/// Whether every character of `s` is an ASCII decimal digit.
pub open spec fn all_digits(s: Seq<char>) -> bool {
    forall|i: int| 0 <= i < s.len() ==> #[trigger] is_digit(s[i])
}

/// The value of a sequence of decimal digits.
pub open spec fn digits_value(s: Seq<char>) -> nat
    decreases s.len(),
{
    if s.len() == 0 {
        0
    } else {
        digits_value(s.drop_last()) * 10 + ((s.last() as int) - 48) as nat
    }
}

/// What `str::parse` gives for an unsigned integer type whose largest value is `max`:
/// an optional `+` followed by at least one ASCII digit, with a value that fits.
pub open spec fn spec_parse_unsigned(s: Seq<char>, max: int) -> Option<nat> {
    let d = if s.len() > 0 && s[0] == '+' {
        s.drop_first()
    } else {
        s
    };
    if d.len() > 0 && all_digits(d) && digits_value(d) <= max {
        Some(digits_value(d))
    } else {
        None
    }
}

/// The first index at or after `start` where `needle` occurs in `hay`, or -1.
pub open spec fn first_occurrence_from(hay: Seq<char>, needle: Seq<char>, start: int) -> int
    decreases hay.len() + 1 - start,
{
    if start < 0 || start + needle.len() > hay.len() {
        -1
    } else if occurs_at(hay, needle, start) {
        start
    } else {
        first_occurrence_from(hay, needle, start + 1)
    }
}

/// `str::split_once` with a string separator.
pub open spec fn spec_split_once_seq(s: Seq<char>, sep: Seq<char>) -> Option<(Seq<char>, Seq<char>)> {
    let i = first_occurrence_from(s, sep, 0);
    if i < 0 {
        None
    } else {
        Some((s.subrange(0, i), s.subrange(i + sep.len(), s.len() as int)))
    }
}

/// `s` without leading occurrences of `c`.
pub open spec fn trim_start_char(s: Seq<char>, c: char) -> Seq<char>
    decreases s.len(),
{
    if s.len() > 0 && s[0] == c {
        trim_start_char(s.drop_first(), c)
    } else {
        s
    }
}

/// `s` without leading or trailing occurrences of `c` (`str::trim_matches` with a character).
pub open spec fn trim_char(s: Seq<char>, c: char) -> Seq<char> {
    trim_end_char(trim_start_char(s, c), c)
}

/// A line without its `\r\n` ending's carriage return.
pub open spec fn strip_cr(line: Seq<char>) -> Seq<char> {
    if line.len() > 0 && line.last() == '\r' {
        line.drop_last()
    } else {
        line
    }
}

/// `str::lines`: pieces between `\n`, each piece that a `\n` ends losing one trailing
/// `\r`, and no empty piece after a final `\n`.
pub open spec fn spec_lines(s: Seq<char>) -> Seq<Seq<char>> {
    let pieces = split_on(s, '\n');
    let ended = pieces.drop_last().map_values(|p: Seq<char>| strip_cr(p));
    if pieces.last().len() == 0 {
        ended
    } else {
        ended.push(pieces.last())
    }
}

/// The lower-case mapping of a string, as `str::to_lowercase` computes it.
pub uninterp spec fn lowercase(s: Seq<char>) -> Seq<char>;

// ---------------------------------------------------------------------------
// Lemmas
// ---------------------------------------------------------------------------

/// Every split yields at least one piece.
pub proof fn lemma_split_on_len(s: Seq<char>, sep: char)
    ensures
        split_on(s, sep).len() >= 1,
    decreases s.len(),
{
    if s.len() > 0 {
        lemma_split_on_len(s.drop_last(), sep);
    }
}

/// No occurrence of `c` is found exactly when `s` does not contain it.
pub proof fn lemma_index_found(s: Seq<char>, c: char)
    ensures
        first_index_of(s, c) < 0 <==> !s.contains(c),
    decreases s.len(),
{
    if s.len() > 0 {
        lemma_index_found(s.drop_first(), c);
        if s[0] != c {
            if s.contains(c) {
                let k = choose|k: int| 0 <= k < s.len() && s[k] == c;
                assert(s.drop_first()[k - 1] == c);
            }
            if s.drop_first().contains(c) {
                let k = choose|k: int| 0 <= k < s.drop_first().len() && s.drop_first()[k] == c;
                assert(s[k + 1] == c);
            }
        } else {
            assert(s.contains(s[0]));
        }
    }
}

/// Characterisation of `first_index_of` by its first hit.
pub proof fn lemma_first_index_of(s: Seq<char>, c: char, i: int)
    requires
        -1 <= i <= s.len(),
        i == -1 ==> forall|j: int| 0 <= j < s.len() ==> s[j] != c,
        i >= 0 ==> i < s.len() && s[i] == c && forall|j: int| 0 <= j < i ==> s[j] != c,
    ensures
        first_index_of(s, c) == i,
    decreases s.len(),
{
    if s.len() > 0 && s[0] != c {
        let t = s.drop_first();
        if i == -1 {
            lemma_first_index_of(t, c, -1);
        } else {
            lemma_first_index_of(t, c, i - 1);
        }
    }
}

/// Characterisation of `last_index_of` by its last hit.
pub proof fn lemma_last_index_of(s: Seq<char>, c: char, i: int)
    requires
        -1 <= i < s.len(),
        i >= 0 ==> s[i] == c,
        forall|j: int| i < j < s.len() ==> s[j] != c,
    ensures
        last_index_of(s, c) == i,
    decreases s.len(),
{
    if s.len() > 0 && s.last() != c {
        lemma_last_index_of(s.drop_last(), c, i);
    }
}

/// A value that has a decimal rendering needs at least one digit.
pub proof fn lemma_decimal_len(n: nat)
    ensures
        spec_decimal(n).len() >= 1,
        n < 10 ==> spec_decimal(n).len() == 1,
        10 <= n < 100 ==> spec_decimal(n).len() == 2,
        100 <= n < 1000 ==> spec_decimal(n).len() == 3,
        1000 <= n < 10000 ==> spec_decimal(n).len() == 4,
    decreases n,
{
    if n >= 10 {
        lemma_decimal_len(n / 10);
    }
}

/// The digits of a decimal rendering read back as the number.
pub proof fn lemma_decimal_digits(n: nat)
    ensures
        all_digits(spec_decimal(n)),
        digits_value(spec_decimal(n)) == n,
    decreases n,
{
    let d = (n % 10) as int;
    assert((digit_char(d) as int) - 48 == d);
    if n >= 10 {
        lemma_decimal_digits(n / 10);
        let s = spec_decimal(n);
        assert(s.drop_last() == spec_decimal(n / 10));
        assert(s.last() == digit_char(d));
        assert(digits_value(s) == digits_value(spec_decimal(n / 10)) * 10 + d);
        assert(n == (n / 10) * 10 + d);
        assert forall|i: int| 0 <= i < s.len() implies #[trigger] is_digit(s[i]) by {
            if i < s.len() - 1 {
                assert(s[i] == spec_decimal(n / 10)[i]);
            }
        }
    } else {
        let s = spec_decimal(n);
        assert(s.drop_last() =~= Seq::<char>::empty());
        assert(s.last() == digit_char(d));
        assert(digits_value(s.drop_last()) == 0);
        assert(digits_value(s) == d);
    }
}

// ---------------------------------------------------------------------------
// Executable helpers
// ---------------------------------------------------------------------------

/// Appends one character to a string. Trusted wrapper of `String::push`: the contract
/// claims that the string afterwards is the old one with `c` at the end.
#[verifier::external_body]
pub(crate) fn push_char(s: &mut String, c: char)
    ensures
        final(s)@ == old(s)@.push(c),
{
    s.push(c)
}

/// The lower-case mapping of a string. Trusted wrapper of `str::to_lowercase`: the
/// contract claims only that the result is `lowercase` of the string, the same for the
/// same input; the Unicode mapping itself is left unsaid.
#[verifier::external_body]
pub(crate) fn to_lowercase(s: &str) -> (res: String)
    ensures
        res@ == lowercase(s@),
{
    s.to_lowercase()
}

/// Whether a character has the Unicode `White_Space` property. Trusted wrapper of
/// `char::is_whitespace`: the contract claims the result is `is_white_space`, the
/// property's list of code points.
#[verifier::external_body]
pub(crate) fn char_is_whitespace(c: char) -> (res: bool)
    ensures
        res == is_white_space(c),
{
    c.is_whitespace()
}

/// What `String::from_utf8_lossy` makes of `bytes`.
pub uninterp spec fn utf8_lossy(bytes: Seq<u8>) -> Seq<char>;

/// Decodes bytes as UTF-8, replacing invalid sequences. Trusted wrapper of
/// `String::from_utf8_lossy`: the contract claims the result is `utf8_lossy` of the
/// bytes, and the plain decoding when the bytes are valid UTF-8.
#[verifier::external_body]
pub(crate) fn from_utf8_lossy(bytes: &[u8]) -> (res: String)
    ensures
        res@ == utf8_lossy(bytes@),
        vstd::utf8::valid_utf8(bytes@) ==> res@ == vstd::utf8::decode_utf8(bytes@),
{
    String::from_utf8_lossy(bytes).into_owned()
}

/// The characters of a string slice, in order.
pub fn chars_of(s: &str) -> (res: Vec<char>)
    ensures
        res@ == s@,
{
    let mut res: Vec<char> = Vec::new();
    for c in it: s.chars()
        invariant
            res@ == it.seq().take(it.index() as int),
            it.seq() == s@,
    {
        res.push(c);
    }
    res
}

/// Appends characters to a string.
pub fn push_chars(s: &mut String, v: &[char])
    ensures
        final(s)@ == old(s)@ + v@,
{
    let n = v.len();
    for i in 0..n
        invariant
            n == v@.len(),
            s@ == old(s)@ + v@.take(i as int),
    {
        push_char(s, v[i]);
        assert(v@.take(i + 1) == v@.take(i as int).push(v@[i as int]));
    }
    assert(v@.take(n as int) == v@);
}

/// A string holding the given characters.
pub fn string_of(v: &[char]) -> (res: String)
    ensures
        res@ == v@,
{
    let mut s = String::new();
    push_chars(&mut s, v);
    s
}

/// Appends `fill` `count` times.
pub fn push_repeat(s: &mut String, fill: char, count: usize)
    ensures
        final(s)@ == old(s)@ + repeat_char(fill, count as int),
{
    for i in 0..count
        invariant
            s@ == old(s)@ + repeat_char(fill, i as int),
    {
        push_char(s, fill);
        assert(repeat_char(fill, i + 1) == repeat_char(fill, i as int).push(fill));
    }
}

/// Appends the decimal rendering of `n`.
pub fn push_decimal(s: &mut String, n: u64)
    ensures
        final(s)@ == old(s)@ + spec_decimal(n as nat),
    decreases n,
{
    if n >= 10 {
        push_decimal(s, n / 10);
    }
    let d = (n % 10) as u32;
    let c = char_from_digit(d);
    push_char(s, c);
}

/// Appends the decimal rendering of a 128-bit `n`.
pub fn push_decimal_u128(s: &mut String, n: u128)
    ensures
        final(s)@ == old(s)@ + spec_decimal(n as nat),
    decreases n,
{
    if n >= 10 {
        push_decimal_u128(s, n / 10);
    }
    let d = (n % 10) as u32;
    let c = char_from_digit(d);
    push_char(s, c);
}

/// The character for a digit value below 16.
fn char_from_digit(d: u32) -> (c: char)
    requires
        d < 16,
    ensures
        c == hex_digit_char(d as int, false),
        d < 10 ==> c == digit_char(d as int),
{
    match d {
        0 => '0',
        1 => '1',
        2 => '2',
        3 => '3',
        4 => '4',
        5 => '5',
        6 => '6',
        7 => '7',
        8 => '8',
        9 => '9',
        10 => 'a',
        11 => 'b',
        12 => 'c',
        13 => 'd',
        14 => 'e',
        _ => 'f',
    }
}

/// The upper-case character for a digit value below 16.
fn upper_char_from_digit(d: u32) -> (c: char)
    requires
        d < 16,
    ensures
        c == hex_digit_char(d as int, true),
{
    match d {
        10 => 'A',
        11 => 'B',
        12 => 'C',
        13 => 'D',
        14 => 'E',
        15 => 'F',
        _ => char_from_digit(d),
    }
}

/// The decimal rendering of `n`.
pub fn decimal(n: u64) -> (res: String)
    ensures
        res@ == spec_decimal(n as nat),
{
    let mut s = String::new();
    push_decimal(&mut s, n);
    s
}

/// Appends the hexadecimal rendering of `n`.
pub fn push_hex(s: &mut String, n: u64, upper: bool)
    ensures
        final(s)@ == old(s)@ + spec_hex(n as nat, upper),
    decreases n,
{
    if n >= 16 {
        push_hex(s, n / 16, upper);
    }
    let d = (n % 16) as u32;
    let c = if upper {
        upper_char_from_digit(d)
    } else {
        char_from_digit(d)
    };
    push_char(s, c);
}

/// Number of decimal digits of `n`.
fn decimal_len(n: u64) -> (len: usize)
    ensures
        len == spec_decimal(n as nat).len(),
        len <= 20,
    decreases n,
{
    if n < 10 {
        1
    } else {
        let r = decimal_len(n / 10);
        proof {
            decimal_len_bound(n as nat, 20);
        }
        r + 1
    }
}

/// `10` raised to `k`.
pub open spec fn pow10(k: nat) -> nat
    decreases k,
{
    if k == 0 {
        1
    } else {
        10 * pow10((k - 1) as nat)
    }
}

/// `16` raised to `k`.
pub open spec fn pow16(k: nat) -> nat
    decreases k,
{
    if k == 0 {
        1
    } else {
        16 * pow16((k - 1) as nat)
    }
}

proof fn decimal_len_bound(n: nat, k: nat)
    requires
        k == 20,
        n <= u64::MAX,
    ensures
        spec_decimal(n).len() <= k,
{
    reveal_with_fuel(pow10, 21);
    assert(pow10(20) == 100000000000000000000);
    decimal_len_below(n, k);
}

proof fn decimal_len_below(n: nat, k: nat)
    requires
        n < pow10(k),
        k >= 1,
    ensures
        spec_decimal(n).len() <= k,
    decreases k,
{
    if n >= 10 {
        if k == 1 {
            assert(pow10(1) == 10 * pow10(0));
        }
        assert(n / 10 < pow10((k - 1) as nat));
        decimal_len_below(n / 10, (k - 1) as nat);
    }
}

/// Number of hexadecimal digits of `n`.
fn hex_len(n: u64, upper: bool) -> (len: usize)
    ensures
        len == spec_hex(n as nat, upper).len(),
        len <= 16,
    decreases n,
{
    if n < 16 {
        1
    } else {
        let r = hex_len(n / 16, upper);
        proof {
            reveal_with_fuel(pow16, 17);
            assert(pow16(16) == 0x1_0000_0000_0000_0000);
            hex_len_below(n as nat, 16, upper);
        }
        r + 1
    }
}

proof fn hex_len_below(n: nat, k: nat, upper: bool)
    requires
        n < pow16(k),
        k >= 1,
    ensures
        spec_hex(n, upper).len() <= k,
    decreases k,
{
    if n >= 16 {
        if k == 1 {
            assert(pow16(1) == 16 * pow16(0));
        }
        assert(n / 16 < pow16((k - 1) as nat));
        hex_len_below(n / 16, (k - 1) as nat, upper);
    }
}

/// Appends `n` in decimal, zero-padded to `width` characters.
pub fn push_decimal_padded(s: &mut String, n: u64, width: usize)
    ensures
        final(s)@ == old(s)@ + spec_decimal_padded(n as nat, width as int),
{
    let len = decimal_len(n);
    if len < width {
        push_repeat(s, '0', width - len);
    } else {
        assert(repeat_char('0', width - len) =~= Seq::<char>::empty());
    }
    push_decimal(s, n);
    assert(s@ =~= old(s)@ + spec_decimal_padded(n as nat, width as int));
}

/// Appends `n` in hexadecimal, zero-padded to `width` characters.
pub fn push_hex_padded(s: &mut String, n: u64, width: usize, upper: bool)
    ensures
        final(s)@ == old(s)@ + spec_hex_padded(n as nat, width as int, upper),
{
    let len = hex_len(n, upper);
    if len < width {
        push_repeat(s, '0', width - len);
    } else {
        assert(repeat_char('0', width - len) =~= Seq::<char>::empty());
    }
    push_hex(s, n, upper);
    assert(s@ =~= old(s)@ + spec_hex_padded(n as nat, width as int, upper));
}

/// Appends `t` right-aligned in a field of `width` characters.
pub fn push_padded_left(s: &mut String, t: &str, width: usize)
    ensures
        final(s)@ == old(s)@ + pad_left(t@, width as int, ' '),
{
    let len = t.unicode_len();
    if len < width {
        push_repeat(s, ' ', width - len);
    } else {
        assert(repeat_char(' ', width - len) =~= Seq::<char>::empty());
    }
    s.append(t);
    assert(s@ =~= old(s)@ + pad_left(t@, width as int, ' '));
}

/// Appends `t` left-aligned in a field of `width` characters.
pub fn push_padded_right(s: &mut String, t: &str, width: usize)
    ensures
        final(s)@ == old(s)@ + pad_right(t@, width as int, ' '),
{
    let len = t.unicode_len();
    s.append(t);
    if len < width {
        push_repeat(s, ' ', width - len);
    } else {
        assert(repeat_char(' ', width - len) =~= Seq::<char>::empty());
    }
    assert(s@ =~= old(s)@ + pad_right(t@, width as int, ' '));
}

/// Whether two character slices are equal.
pub fn chars_eq(a: &[char], b: &[char]) -> (res: bool)
    ensures
        res == (a@ == b@),
{
    if a.len() != b.len() {
        return false;
    }
    let n = a.len();
    for i in 0..n
        invariant
            n == a@.len(),
            n == b@.len(),
            forall|j: int| 0 <= j < i ==> a@[j] == b@[j],
    {
        if a[i] != b[i] {
            return false;
        }
    }
    assert(a@ =~= b@);
    true
}

/// Whether some characters spell the string `lit`.
pub fn chars_are(v: &[char], lit: &str) -> (res: bool)
    ensures
        res == (v@ == lit@),
{
    let l = chars_of(lit);
    chars_eq(v, l.as_slice())
}

/// Whether `needle` occurs in `hay` at index `i`.
pub fn occurs_at_exec(hay: &[char], needle: &[char], i: usize) -> (res: bool)
    ensures
        res == occurs_at(hay@, needle@, i as int),
{
    if i > hay.len() || needle.len() > hay.len() - i {
        return false;
    }
    let n = needle.len();
    let mut k: usize = 0;
    while k < n
        invariant
            n == needle@.len(),
            i + n <= hay.len(),
            hay.len() == hay@.len(),
            k <= n,
            forall|j: int| 0 <= j < k ==> hay@[i + j] == needle@[j],
        decreases n - k,
    {
        if hay[i + k] != needle[k] {
            assert(hay@.subrange(i as int, i + n)[k as int] != needle@[k as int]);
            return false;
        }
        k += 1;
    }
    assert(hay@.subrange(i as int, i + n) =~= needle@);
    true
}

/// Whether `needle` occurs anywhere in `hay`.
pub fn contains_chars(hay: &[char], needle: &[char]) -> (res: bool)
    ensures
        res == contains_seq(hay@, needle@),
{
    if needle.len() > hay.len() {
        assert forall|i: int| !occurs_at(hay@, needle@, i) by {}
        return false;
    }
    let last = hay.len() - needle.len();
    for i in 0..last
        invariant
            last == hay@.len() - needle@.len(),
            forall|j: int| 0 <= j < i ==> !occurs_at(hay@, needle@, j),
    {
        if occurs_at_exec(hay, needle, i) {
            return true;
        }
    }
    if occurs_at_exec(hay, needle, last) {
        return true;
    }
    assert forall|j: int| !occurs_at(hay@, needle@, j) by {
        if 0 <= j <= last {
        }
    }
    false
}

/// Whether `s` starts with `prefix`.
pub fn starts_with_chars(s: &[char], prefix: &[char]) -> (res: bool)
    ensures
        res == prefix@.is_prefix_of(s@),
{
    let r = occurs_at_exec(s, prefix, 0);
    proof {
        if r {
            assert(forall|i: int| 0 <= i < prefix@.len() ==> prefix@[i] == s@.subrange(0, prefix@.len() as int)[i]);
        } else if prefix@.len() <= s@.len() {
            assert(s@.subrange(0, prefix@.len() as int) != prefix@);
            if prefix@.is_prefix_of(s@) {
                assert(s@.subrange(0, prefix@.len() as int) =~= prefix@);
            }
        }
    }
    r
}

/// Index of the first occurrence of `c` in `s`.
pub fn find_char(s: &[char], c: char) -> (res: Option<usize>)
    ensures
        match res {
            Some(i) => i as int == first_index_of(s@, c) && 0 <= i < s@.len(),
            None => first_index_of(s@, c) == -1,
        },
{
    let n = s.len();
    for i in 0..n
        invariant
            n == s@.len(),
            forall|j: int| 0 <= j < i ==> s@[j] != c,
    {
        if s[i] == c {
            proof {
                lemma_first_index_of(s@, c, i as int);
            }
            return Some(i);
        }
    }
    proof {
        lemma_first_index_of(s@, c, -1);
    }
    None
}

/// Index of the last occurrence of `c` in `s`.
pub fn rfind_char(s: &[char], c: char) -> (res: Option<usize>)
    ensures
        match res {
            Some(i) => i as int == last_index_of(s@, c) && 0 <= i < s@.len(),
            None => last_index_of(s@, c) == -1,
        },
{
    let mut i = s.len();
    while i > 0
        invariant
            i <= s@.len(),
            forall|j: int| i <= j < s@.len() ==> s@[j] != c,
        decreases i,
    {
        if s[i - 1] == c {
            proof {
                lemma_last_index_of(s@, c, i - 1);
            }
            return Some(i - 1);
        }
        i -= 1;
    }
    proof {
        lemma_last_index_of(s@, c, -1);
    }
    None
}

/// The characters `s[from..to]`.
pub fn slice_chars(s: &[char], from: usize, to: usize) -> (res: Vec<char>)
    requires
        from <= to <= s@.len(),
    ensures
        res@ == s@.subrange(from as int, to as int),
{
    let mut res: Vec<char> = Vec::new();
    for i in from..to
        invariant
            to <= s@.len(),
            res@ == s@.subrange(from as int, i as int),
    {
        res.push(s[i]);
        assert(s@.subrange(from as int, i + 1) == s@.subrange(from as int, i as int).push(
            s@[i as int],
        ));
    }
    res
}

/// `str::split_once` with a character separator.
pub fn split_once_chars(s: &[char], c: char) -> (res: Option<(Vec<char>, Vec<char>)>)
    ensures
        match res {
            Some((a, b)) => spec_split_once(s@, c) == Some((a@, b@)),
            None => spec_split_once(s@, c).is_none(),
        },
{
    let found = find_char(s, c);
    match found {
        Some(i) => {
            assert(i < s.len());
            let a = slice_chars(s, 0, i);
            let b = slice_chars(s, i + 1, s.len());
            Some((a, b))
        },
        None => None,
    }
}

/// `str::rsplit_once` with a character separator.
pub fn rsplit_once_chars(s: &[char], c: char) -> (res: Option<(Vec<char>, Vec<char>)>)
    ensures
        match res {
            Some((a, b)) => spec_rsplit_once(s@, c) == Some((a@, b@)),
            None => spec_rsplit_once(s@, c).is_none(),
        },
{
    let found = rfind_char(s, c);
    match found {
        Some(i) => {
            assert(i < s.len());
            let a = slice_chars(s, 0, i);
            let b = slice_chars(s, i + 1, s.len());
            Some((a, b))
        },
        None => None,
    }
}

/// The pieces of `s` between occurrences of `sep`.
pub fn split_chars(s: &[char], sep: char) -> (res: Vec<Vec<char>>)
    ensures
        res@.len() == split_on(s@, sep).len(),
        forall|i: int| 0 <= i < res@.len() ==> #[trigger] res@[i]@ == split_on(s@, sep)[i],
{
    let mut parts: Vec<Vec<char>> = Vec::new();
    let mut current: Vec<char> = Vec::new();
    let n = s.len();
    for i in 0..n
        invariant
            n == s@.len(),
            parts@.len() + 1 == split_on(s@.take(i as int), sep).len(),
            forall|k: int|
                0 <= k < parts@.len() ==> #[trigger] parts@[k]@ == split_on(
                    s@.take(i as int),
                    sep,
                )[k],
            current@ == split_on(s@.take(i as int), sep).last(),
    {
        proof {
            lemma_split_on_len(s@.take(i as int), sep);
            assert(s@.take(i + 1).drop_last() == s@.take(i as int));
        }
        let c = s[i];
        if c == sep {
            let done = current;
            parts.push(done);
            current = Vec::new();
            assert(current@ =~= Seq::<char>::empty());
        } else {
            current.push(c);
        }
    }
    proof {
        lemma_split_on_len(s@, sep);
        assert(s@.take(n as int) == s@);
    }
    parts.push(current);
    parts
}

/// `s` without leading or trailing Unicode white space (`str::trim`).
pub fn trim_chars(s: &[char]) -> (res: Vec<char>)
    ensures
        res@ == spec_trim(s@),
{
    let n = s.len();
    let mut start: usize = 0;
    assert(s@.subrange(0, n as int) == s@);
    while start < n && char_is_whitespace(s[start])
        invariant
            n == s@.len(),
            start <= n,
            trim_start_ws(s@) == trim_start_ws(s@.subrange(start as int, n as int)),
        decreases n - start,
    {
        assert(s@.subrange(start as int, n as int).drop_first() == s@.subrange(
            start + 1,
            n as int,
        ));
        start += 1;
    }
    assert(trim_start_ws(s@) == s@.subrange(start as int, n as int));
    let mut end: usize = n;
    while end > start && char_is_whitespace(s[end - 1])
        invariant
            n == s@.len(),
            start <= end <= n,
            trim_start_ws(s@) == s@.subrange(start as int, n as int),
            spec_trim(s@) == trim_end_ws(s@.subrange(start as int, end as int)),
        decreases end - start,
    {
        assert(s@.subrange(start as int, end as int).drop_last() == s@.subrange(
            start as int,
            end - 1,
        ));
        end -= 1;
    }
    slice_chars(s, start, end)
}

/// `s` without trailing occurrences of `c`.
pub fn trim_end_char_chars(s: &[char], c: char) -> (res: Vec<char>)
    ensures
        res@ == trim_end_char(s@, c),
{
    let mut end = s.len();
    assert(s@.subrange(0, end as int) == s@);
    while end > 0 && s[end - 1] == c
        invariant
            end <= s@.len(),
            trim_end_char(s@, c) == trim_end_char(s@.subrange(0, end as int), c),
        decreases end,
    {
        assert(s@.subrange(0, end as int).drop_last() == s@.subrange(0, end - 1));
        end -= 1;
    }
    slice_chars(s, 0, end)
}

/// The first index at which `needle` occurs in `hay`.
pub fn find_seq(hay: &[char], needle: &[char]) -> (res: Option<usize>)
    ensures
        match res {
            Some(i) => i as int == first_occurrence_from(hay@, needle@, 0) && i + needle.len()
                <= hay.len(),
            None => first_occurrence_from(hay@, needle@, 0) == -1,
        },
{
    if needle.len() > hay.len() {
        return None;
    }
    let last = hay.len() - needle.len();
    let mut i: usize = 0;
    while i < last
        invariant
            last == hay@.len() - needle@.len(),
            i <= last,
            first_occurrence_from(hay@, needle@, 0) == first_occurrence_from(hay@, needle@, i as int),
        decreases last - i,
    {
        if occurs_at_exec(hay, needle, i) {
            return Some(i);
        }
        i += 1;
    }
    if occurs_at_exec(hay, needle, last) {
        return Some(last);
    }
    assert(first_occurrence_from(hay@, needle@, last + 1) == -1);
    None
}

/// `str::split_once` with a string separator.
pub fn split_once_seq(s: &[char], sep: &[char]) -> (res: Option<(Vec<char>, Vec<char>)>)
    ensures
        match res {
            Some((a, b)) => spec_split_once_seq(s@, sep@) == Some((a@, b@)),
            None => spec_split_once_seq(s@, sep@).is_none(),
        },
{
    let found = find_seq(s, sep);
    match found {
        Some(i) => {
            let a = slice_chars(s, 0, i);
            let b = slice_chars(s, i + sep.len(), s.len());
            Some((a, b))
        },
        None => None,
    }
}

/// `s` without leading occurrences of `c`.
pub fn trim_start_char_chars(s: &[char], c: char) -> (res: Vec<char>)
    ensures
        res@ == trim_start_char(s@, c),
{
    let n = s.len();
    let mut start: usize = 0;
    assert(s@.subrange(0, n as int) == s@);
    while start < n && s[start] == c
        invariant
            n == s@.len(),
            start <= n,
            trim_start_char(s@, c) == trim_start_char(s@.subrange(start as int, n as int), c),
        decreases n - start,
    {
        assert(s@.subrange(start as int, n as int).drop_first() == s@.subrange(start + 1, n as int));
        start += 1;
    }
    slice_chars(s, start, n)
}

/// `s` without leading or trailing occurrences of `c`.
pub fn trim_char_chars(s: &[char], c: char) -> (res: Vec<char>)
    ensures
        res@ == trim_char(s@, c),
{
    let a = trim_start_char_chars(s, c);
    trim_end_char_chars(a.as_slice(), c)
}

/// The lines of a text, as `str::lines` gives them.
pub fn lines_of(s: &[char]) -> (res: Vec<Vec<char>>)
    ensures
        res@.len() == spec_lines(s@).len(),
        forall|i: int| 0 <= i < res@.len() ==> #[trigger] res@[i]@ == spec_lines(s@)[i],
{
    let pieces = split_chars(s, '\n');
    let ghost all = split_on(s@, '\n');
    proof {
        lemma_split_on_len(s@, '\n');
    }
    let n = pieces.len();
    let mut out: Vec<Vec<char>> = Vec::new();
    for i in 0..n - 1
        invariant
            n == pieces@.len(),
            n == all.len(),
            n >= 1,
            forall|j: int| 0 <= j < n ==> #[trigger] pieces@[j]@ == all[j],
            out@.len() == i,
            forall|j: int|
                0 <= j < i ==> #[trigger] out@[j]@ == strip_cr(all[j]),
    {
        let p = &pieces[i];
        let line = if p.len() > 0 && p[p.len() - 1] == '\r' {
            slice_chars(p.as_slice(), 0, p.len() - 1)
        } else {
            slice_chars(p.as_slice(), 0, p.len())
        };
        proof {
            assert(p@.subrange(0, p@.len() as int) == p@);
            if p@.len() > 0 && p@.last() == '\r' {
                assert(p@.subrange(0, p@.len() - 1) == p@.drop_last());
            }
        }
        out.push(line);
    }
    let last = &pieces[n - 1];
    if last.len() > 0 {
        let copy = slice_chars(last.as_slice(), 0, last.len());
        assert(last@.subrange(0, last@.len() as int) == last@);
        out.push(copy);
    }
    out
}

/// Parses an unsigned decimal number that must not exceed `max`, as `str::parse` does for
/// the unsigned integer type whose largest value is `max`.
pub fn parse_unsigned(s: &[char], max: u64) -> (res: Option<u64>)
    ensures
        match res {
            Some(v) => spec_parse_unsigned(s@, max as int) == Some(v as nat),
            None => spec_parse_unsigned(s@, max as int).is_none(),
        },
{
    let start: usize = if s.len() > 0 && s[0] == '+' {
        1
    } else {
        0
    };
    let ghost d = if s@.len() > 0 && s@[0] == '+' {
        s@.drop_first()
    } else {
        s@
    };
    assert(d == s@.subrange(start as int, s@.len() as int));
    if start >= s.len() {
        return None;
    }
    let mut value: u64 = 0;
    let mut i = start;
    while i < s.len()
        invariant
            start <= i <= s@.len(),
            start < s@.len(),
            d == s@.subrange(start as int, s@.len() as int),
            d == (if s@.len() > 0 && s@[0] == '+' {
                s@.drop_first()
            } else {
                s@
            }),
            all_digits(s@.subrange(start as int, i as int)),
            value as nat == digits_value(s@.subrange(start as int, i as int)),
            value <= max,
        decreases s@.len() - i,
    {
        let c = s[i];
        assert(s@.subrange(start as int, i + 1).drop_last() == s@.subrange(start as int, i as int));
        if !('0' <= c && c <= '9') {
            assert(d[i - start] == c);
            assert(!is_digit(d[i - start]));
            return None;
        }
        let digit = (c as u32 - '0' as u32) as u64;
        assert(s@.subrange(start as int, i + 1).last() == c);
        if digit > max || value > (max - digit) / 10 {
            proof {
                if digit <= max {
                    assert(value * 10 + digit > max) by (nonlinear_arith)
                        requires
                            value > (max - digit) / 10,
                            digit <= max,
                    ;
                }
                let p = s@.subrange(start as int, i + 1);
                assert(digit as int == (c as int) - 48);
                assert(digits_value(p) == value * 10 + digit);
                digits_monotone(d, (i + 1 - start) as int);
                assert(d.subrange(0, i + 1 - start) == p);
            }
            return None;
        }
        assert(value * 10 + digit <= max) by (nonlinear_arith)
            requires
                value <= (max - digit) / 10,
                digit <= max,
        ;
        value = value * 10 + digit;
        proof {
            let p = s@.subrange(start as int, i + 1);
            assert(digit as int == (c as int) - 48);
            assert forall|j: int| 0 <= j < p.len() implies #[trigger] is_digit(p[j]) by {
                if j < p.len() - 1 {
                    assert(p[j] == s@.subrange(start as int, i as int)[j]);
                }
            }
        }
        i += 1;
    }
    assert(s@.subrange(start as int, s@.len() as int) == d);
    Some(value)
}

/// Digit prefixes never have a larger value than the whole digit string.
proof fn digits_monotone(d: Seq<char>, k: int)
    requires
        0 <= k <= d.len(),
    ensures
        all_digits(d) ==> digits_value(d.subrange(0, k)) <= digits_value(d),
    decreases d.len() - k,
{
    if k < d.len() && all_digits(d) {
        digits_monotone(d, k + 1);
        assert(d.subrange(0, k + 1).drop_last() == d.subrange(0, k));
        assert(is_digit(d[k]));
        assert(d.subrange(0, k + 1).last() == d[k]);
        assert(digits_value(d.subrange(0, k + 1)) >= digits_value(d.subrange(0, k)));
        if k + 1 == d.len() {
            assert(d.subrange(0, k + 1) == d);
        }
    } else if k == d.len() {
        assert(d.subrange(0, k) == d);
    }
}

} // verus!
