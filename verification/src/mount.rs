//! The local WebDAV server that lets the Finder mount the recorder's storage: request
//! parsing, path mapping, PROPFIND bodies, byte ranges, partial reads and the mount
//! bookkeeping around `mount_webdav` and `diskutil`.
use vstd::prelude::*;

use vstd::utf8::{
    decode_utf8, encode_scalar, encode_utf8, encode_utf8_decode_utf8, encode_utf8_valid_utf8,
    is_ascii_chars, is_ascii_chars_encode_utf8, valid_utf8,
};

use crate::error::{AppError, spec_message};
use crate::mtp::{DateTime, ObjectInfo, is_folder_object};
use crate::remote::{
    RemoteTarget, ResolvedPath, has_dot_component, join_remote_path, normalize_remote_path,
    parent_remote_path, spec_components, spec_join_remote_path, spec_normalized, spec_parent_path,
};
use crate::text::{
    hex_digit_char, spec_hex, nonempty_parts, trim_start_char,
    chars_are, chars_eq, chars_of, find_char, push_decimal, spec_decimal, first_index_of, lowercase, parse_unsigned, push_char,
    push_chars, push_decimal_padded, push_hex_padded, rsplit_once_chars, slice_chars,
    spec_decimal_padded, spec_hex_padded, spec_parse_unsigned, spec_rsplit_once, spec_split_once,
    spec_split_once_seq, split_chars, split_on, split_once_chars, split_once_seq,
    starts_with_chars, string_of, to_lowercase, trim_char, trim_char_chars, trim_start_ws,
    is_white_space, char_is_whitespace, spec_trim, trim_chars, contains_chars, contains_seq,
    from_utf8_lossy, lines_of, spec_lines, utf8_lossy,
};

verus! {

/// The volume name the mount gets in the Finder.
pub const DEFAULT_VOLUME_NAME: &'static str = "TP-7";

/// The request path that asks the server to stop.
pub const SHUTDOWN_PATH: &'static str = "/.tp7-shutdown";

/// The largest partial read asked of the device at once.
pub const PARTIAL_CHUNK_SIZE: u64 = 1048576;

// ---------------------------------------------------------------------------
// Percent-encoding
// ---------------------------------------------------------------------------

/// The value of an ASCII hexadecimal digit.
pub open spec fn spec_hex_value(b: u8) -> Option<u8> {
    if 48 <= b <= 57 {
        Some((b - 48) as u8)
    } else if 97 <= b <= 102 {
        Some((b - 87) as u8)
    } else if 65 <= b <= 70 {
        Some((b - 55) as u8)
    } else {
        None
    }
}

/// `Some(prefix + rest)` when `rest` is `Some`, else `None`.
pub open spec fn prepend_bytes(prefix: Seq<u8>, rest: Option<Seq<u8>>) -> Option<Seq<u8>> {
    match rest {
        Some(r) => Some(prefix + r),
        None => None,
    }
}

/// Percent-decoding of a byte string: `%XY` becomes the byte `0xXY`; a `%` without two
/// following bytes, or followed by a non-hex digit, makes the whole decoding fail.
pub open spec fn spec_percent_decode(b: Seq<u8>) -> Option<Seq<u8>>
    decreases b.len(),
{
    if b.len() == 0 {
        Some(Seq::empty())
    } else if b[0] == 37 {
        if b.len() > 2 {
            match (spec_hex_value(b[1]), spec_hex_value(b[2])) {
                (Some(hi), Some(lo)) => prepend_bytes(
                    seq![(hi * 16 + lo) as u8],
                    spec_percent_decode(b.skip(3)),
                ),
                _ => None,
            }
        } else {
            None
        }
    } else {
        prepend_bytes(seq![b[0]], spec_percent_decode(b.skip(1)))
    }
}

/// The decoded form of a request path: percent-decoded, then read as UTF-8.
pub open spec fn spec_percent_decode_path(path: Seq<char>) -> Option<Seq<char>> {
    match spec_percent_decode(encode_utf8(path)) {
        Some(d) => if valid_utf8(d) {
            Some(decode_utf8(d))
        } else {
            None
        },
        None => None,
    }
}

/// Bytes that percent-encoding leaves as they are: ASCII letters and digits, `-`, `_`,
/// `.` and `~`.
pub open spec fn is_unreserved(b: u8) -> bool {
    (48 <= b <= 57) || (65 <= b <= 90) || (97 <= b <= 122) || b == 45 || b == 95 || b == 46
        || b == 126
}

/// The encoding of one byte: itself when unreserved, otherwise `%XY` in upper-case hex.
pub open spec fn encode_byte(b: u8) -> Seq<char> {
    if is_unreserved(b) {
        seq![b as char]
    } else {
        seq!['%'] + spec_hex_padded(b as nat, 2, true)
    }
}

/// Percent-encoding of a byte string.
pub open spec fn spec_percent_encode(b: Seq<u8>) -> Seq<char>
    decreases b.len(),
{
    if b.len() == 0 {
        Seq::empty()
    } else {
        spec_percent_encode(b.drop_last()) + encode_byte(b.last())
    }
}

/// The value of an ASCII hexadecimal digit.
pub fn hex_value(byte: u8) -> (res: Option<u8>)
    ensures
        res == spec_hex_value(byte),
{
    if 48 <= byte && byte <= 57 {
        Some(byte - 48)
    } else if 97 <= byte && byte <= 102 {
        Some(byte - 87)
    } else if 65 <= byte && byte <= 70 {
        Some(byte - 55)
    } else {
        None
    }
}

/// The string whose UTF-8 encoding is `bytes`. Trusted wrapper of `String::from_utf8`:
/// the contract claims a string exactly when the bytes are valid UTF-8, and that it is
/// their decoding.
#[verifier::external_body]
fn utf8_string(bytes: Vec<u8>) -> (res: Option<String>)
    ensures
        res.is_some() == valid_utf8(bytes@),
        res.is_some() ==> res.unwrap()@ == decode_utf8(bytes@),
{
    String::from_utf8(bytes).ok()
}

proof fn lemma_decode_step(b: Seq<u8>, i: int, decoded: Seq<u8>, piece: Seq<u8>, k: int)
    requires
        0 <= i,
        i + k <= b.len(),
        0 < k,
        spec_percent_decode(b) == prepend_bytes(decoded, spec_percent_decode(b.skip(i))),
        spec_percent_decode(b.skip(i)) == prepend_bytes(piece, spec_percent_decode(b.skip(i).skip(k))),
    ensures
        spec_percent_decode(b) == prepend_bytes(decoded + piece, spec_percent_decode(b.skip(i + k))),
{
    assert(b.skip(i).skip(k) =~= b.skip(i + k));
    match spec_percent_decode(b.skip(i + k)) {
        Some(r) => {
            assert(decoded + (piece + r) =~= (decoded + piece) + r);
        },
        None => {},
    }
}

/// Percent-decodes a request path and reads the result as UTF-8.
pub fn percent_decode_path(path: &str) -> (res: Option<String>)
    ensures
        match res {
            Some(s) => spec_percent_decode_path(path@) == Some(s@),
            None => spec_percent_decode_path(path@).is_none(),
        },
{
    let bytes = path.as_bytes();
    let ghost b = bytes@;
    let n = bytes.len();
    let mut decoded: Vec<u8> = Vec::new();
    let mut index: usize = 0;
    assert(b.skip(0) =~= b);
    assert(Seq::<u8>::empty() + b =~= b);
    proof {
        match spec_percent_decode(b) {
            Some(r) => assert(Seq::<u8>::empty() + r =~= r),
            None => {},
        }
    }
    while index < n
        invariant
            b == bytes@,
            n == b.len(),
            b == encode_utf8(path@),
            index <= n,
            spec_percent_decode(b) == prepend_bytes(decoded@, spec_percent_decode(b.skip(index as int))),
        decreases n - index,
    {
        let byte = bytes[index];
        let ghost rest = b.skip(index as int);
        assert(rest[0] == byte);
        if byte == 37 {
            if n - index > 2 {
                assert(rest[1] == bytes[index + 1]);
                assert(rest[2] == bytes[index + 2]);
                let hi = match hex_value(bytes[index + 1]) {
                    Some(h) => h,
                    None => {
                        return None;
                    },
                };
                let lo = match hex_value(bytes[index + 2]) {
                    Some(l) => l,
                    None => {
                        return None;
                    },
                };
                let value: u8 = (hi << 4u8) | lo;
                assert(value == hi * 16 + lo) by (bit_vector)
                    requires
                        hi < 16,
                        lo < 16,
                        value == (hi << 4u8) | lo,
                ;
                proof {
                    lemma_decode_step(b, index as int, decoded@, seq![value], 3);
                }
                decoded.push(value);
                index += 3;
            } else {
                return None;
            }
        } else {
            proof {
                lemma_decode_step(b, index as int, decoded@, seq![byte], 1);
            }
            decoded.push(byte);
            index += 1;
        }
    }
    proof {
        assert(b.skip(n as int).len() == 0);
        assert(decoded@ + Seq::<u8>::empty() =~= decoded@);
    }
    utf8_string(decoded)
}

/// Appends the percent-encoding of one byte.
fn push_encoded_byte(s: &mut String, byte: u8)
    ensures
        final(s)@ == old(s)@ + encode_byte(byte),
{
    let unreserved = (48 <= byte && byte <= 57) || (65 <= byte && byte <= 90) || (97 <= byte
        && byte <= 122) || byte == 45 || byte == 95 || byte == 46 || byte == 126;
    if unreserved {
        push_char(s, byte as char);
    } else {
        push_char(s, '%');
        push_hex_padded(s, byte as u64, 2, true);
        assert(old(s)@.push('%') + spec_hex_padded(byte as nat, 2, true) =~= old(s)@ + (seq!['%']
            + spec_hex_padded(byte as nat, 2, true)));
    }
}

/// Percent-encodes one path component: bytes other than ASCII letters, digits, `-`,
/// `_`, `.` and `~` become `%XY`.
pub fn percent_encode_component(component: &str) -> (res: String)
    ensures
        res@ == spec_percent_encode(encode_utf8(component@)),
        is_percent_encoded(res@),
{
    proof {
        lemma_percent_encoding_alphabet(encode_utf8(component@));
    }
    let bytes = component.as_bytes();
    let ghost b = bytes@;
    let n = bytes.len();
    let mut encoded = String::new();
    for i in 0..n
        invariant
            b == bytes@,
            n == b.len(),
            encoded@ == spec_percent_encode(b.take(i as int)),
    {
        assert(b.take(i + 1).drop_last() =~= b.take(i as int));
        push_encoded_byte(&mut encoded, bytes[i]);
    }
    assert(b.take(n as int) =~= b);
    encoded
}

proof fn lemma_encode_utf8_concat(a: Seq<char>, b: Seq<char>)
    ensures
        encode_utf8(a + b) == encode_utf8(a) + encode_utf8(b),
    decreases a.len(),
{
    if a.len() == 0 {
        assert(a + b =~= b);
        assert(encode_utf8(a) + encode_utf8(b) =~= encode_utf8(b));
    } else {
        assert((a + b).drop_first() =~= a.drop_first() + b);
        assert((a + b)[0] == a[0]);
        lemma_encode_utf8_concat(a.drop_first(), b);
        assert(encode_utf8(a + b) =~= encode_scalar(a[0] as u32) + (encode_utf8(a.drop_first())
            + encode_utf8(b)));
    }
}

proof fn lemma_ascii_utf8(c: Seq<char>)
    requires
        is_ascii_chars(c),
    ensures
        encode_utf8(c).len() == c.len(),
        forall|i: int| 0 <= i < c.len() ==> encode_utf8(c)[i] == c[i] as u8,
{
    is_ascii_chars_encode_utf8(c);
}

proof fn lemma_hex_pair(n: nat)
    requires
        n < 256,
    ensures
        spec_hex_padded(n, 2, true) == seq![
            hex_digit_char((n / 16) as int, true),
            hex_digit_char((n % 16) as int, true),
        ],
{
    reveal_with_fuel(spec_hex, 2);
    if n < 16 {
        assert(hex_digit_char(0, true) == '0');
        assert(spec_hex_padded(n, 2, true) =~= seq!['0', hex_digit_char(n as int, true)]);
    } else {
        assert(spec_hex_padded(n, 2, true) =~= spec_hex(n, true));
    }
}

proof fn lemma_hex_digit_value(d: int)
    requires
        0 <= d < 16,
    ensures
        '\0' <= hex_digit_char(d, true) <= '\u{7f}',
        spec_hex_value(hex_digit_char(d, true) as u8) == Some(d as u8),
{
}

proof fn lemma_decode_prefix(x: Seq<u8>, y: Seq<u8>)
    requires
        spec_percent_decode(x) is Some,
    ensures
        spec_percent_decode(x + y) == prepend_bytes(spec_percent_decode(x)->0, spec_percent_decode(y)),
    decreases x.len(),
{
    if x.len() == 0 {
        assert(x + y =~= y);
        match spec_percent_decode(y) {
            Some(r) => assert(Seq::<u8>::empty() + r =~= r),
            None => {},
        }
    } else if x[0] == 37 {
        assert((x + y)[0] == 37);
        assert((x + y)[1] == x[1] && (x + y)[2] == x[2]);
        assert((x + y).skip(3) =~= x.skip(3) + y);
        lemma_decode_prefix(x.skip(3), y);
        let v = seq![(spec_hex_value(x[1])->0 * 16 + spec_hex_value(x[2])->0) as u8];
        match spec_percent_decode(y) {
            Some(r) => assert(v + (spec_percent_decode(x.skip(3))->0 + r) =~= (v
                + spec_percent_decode(x.skip(3))->0) + r),
            None => {},
        }
    } else {
        assert((x + y)[0] == x[0]);
        assert((x + y).skip(1) =~= x.skip(1) + y);
        lemma_decode_prefix(x.skip(1), y);
        match spec_percent_decode(y) {
            Some(r) => assert(seq![x[0]] + (spec_percent_decode(x.skip(1))->0 + r) =~= (seq![x[0]]
                + spec_percent_decode(x.skip(1))->0) + r),
            None => {},
        }
    }
}

proof fn lemma_unit_decodes(b: u8)
    ensures
        spec_percent_decode(encode_utf8(encode_byte(b))) == Some(seq![b]),
{
    reveal_with_fuel(spec_percent_decode, 2);
    let e = encode_byte(b);
    if is_unreserved(b) {
        assert(e =~= seq![b as char]);
        assert('\0' <= e[0] <= '\u{7f}');
        assert((b as char) as u8 == b);
        lemma_ascii_utf8(e);
        let u = encode_utf8(e);
        assert(u =~= seq![b]);
        assert(u.skip(1) =~= Seq::<u8>::empty());
        assert(seq![b] + Seq::<u8>::empty() =~= seq![b]);
    } else {
        lemma_hex_pair(b as nat);
        let hi = (b / 16) as int;
        let lo = (b % 16) as int;
        lemma_hex_digit_value(hi);
        lemma_hex_digit_value(lo);
        assert(e =~= seq!['%', hex_digit_char(hi, true), hex_digit_char(lo, true)]);
        assert(is_ascii_chars(e));
        lemma_ascii_utf8(e);
        let u = encode_utf8(e);
        assert(u[0] == 37);
        assert(u.skip(3) =~= Seq::<u8>::empty());
        assert((hi * 16 + lo) as u8 == b);
        assert(seq![b] + Seq::<u8>::empty() =~= seq![b]);
    }
}

proof fn lemma_percent_roundtrip_bytes(b: Seq<u8>)
    ensures
        spec_percent_decode(encode_utf8(spec_percent_encode(b))) == Some(b),
    decreases b.len(),
{
    if b.len() == 0 {
        assert(encode_utf8(spec_percent_encode(b)) =~= Seq::<u8>::empty());
    } else {
        let front = spec_percent_encode(b.drop_last());
        let unit = encode_byte(b.last());
        lemma_encode_utf8_concat(front, unit);
        lemma_percent_roundtrip_bytes(b.drop_last());
        lemma_unit_decodes(b.last());
        lemma_decode_prefix(encode_utf8(front), encode_utf8(unit));
        assert(b.drop_last() + seq![b.last()] =~= b);
    }
}

/// Percent-decoding undoes percent-encoding: a path component, encoded as the server
/// publishes it, decodes to the same component.
pub proof fn lemma_percent_component_roundtrip(component: Seq<char>)
    ensures
        spec_percent_decode_path(spec_percent_encode(encode_utf8(component))) == Some(component),
{
    lemma_percent_roundtrip_bytes(encode_utf8(component));
    encode_utf8_valid_utf8(component);
    encode_utf8_decode_utf8(component);
}

/// A character left as it is by percent-encoding: an ASCII letter or digit, `-`, `_`,
/// `.` or `~`.
pub open spec fn is_unreserved_char(c: char) -> bool {
    ('0' <= c <= '9') || ('A' <= c <= 'Z') || ('a' <= c <= 'z') || c == '-' || c == '_' || c
        == '.' || c == '~'
}

/// An upper-case hexadecimal digit.
pub open spec fn is_upper_hex_char(c: char) -> bool {
    ('0' <= c <= '9') || ('A' <= c <= 'F')
}

/// Text made only of unreserved characters and `%XY` escapes with upper-case hex digits,
/// read from the front.
pub open spec fn is_percent_encoded(e: Seq<char>) -> bool
    decreases e.len(),
{
    if e.len() == 0 {
        true
    } else if is_unreserved_char(e[0]) {
        is_percent_encoded(e.skip(1))
    } else {
        &&& e.len() >= 3
        &&& e[0] == '%'
        &&& is_upper_hex_char(e[1])
        &&& is_upper_hex_char(e[2])
        &&& is_percent_encoded(e.skip(3))
    }
}

proof fn lemma_percent_encoded_concat(a: Seq<char>, b: Seq<char>)
    requires
        is_percent_encoded(a),
        is_percent_encoded(b),
    ensures
        is_percent_encoded(a + b),
    decreases a.len(),
{
    if a.len() == 0 {
        assert(a + b =~= b);
    } else if is_unreserved_char(a[0]) {
        lemma_percent_encoded_concat(a.skip(1), b);
        assert((a + b).skip(1) =~= a.skip(1) + b);
    } else {
        lemma_percent_encoded_concat(a.skip(3), b);
        assert((a + b).skip(3) =~= a.skip(3) + b);
    }
}

/// Percent-encoded text holds only ASCII letters, digits, `-`, `_`, `.`, `~` and `%XY`
/// escapes written with upper-case hex digits.
pub proof fn lemma_percent_encoding_alphabet(b: Seq<u8>)
    ensures
        is_percent_encoded(spec_percent_encode(b)),
    decreases b.len(),
{
    if b.len() > 0 {
        lemma_percent_encoding_alphabet(b.drop_last());
        let front = spec_percent_encode(b.drop_last());
        let x = b.last();
        let unit = encode_byte(x);
        assert(is_percent_encoded(Seq::<char>::empty()));
        if is_unreserved(x) {
            assert(unit.skip(1) =~= Seq::<char>::empty());
            assert(unit[0] == x as char);
            assert(is_unreserved_char(unit[0]));
        } else {
            lemma_hex_pair(x as nat);
            let hi = hex_digit_char((x / 16) as int, true);
            let lo = hex_digit_char((x % 16) as int, true);
            assert(unit =~= seq!['%', hi, lo]);
            assert(unit.skip(3) =~= Seq::<char>::empty());
            assert(is_upper_hex_char(hi) && is_upper_hex_char(lo));
            assert(!is_unreserved_char(unit[0]));
        }
        assert(is_percent_encoded(unit));
        lemma_percent_encoded_concat(front, unit);
    }
}

// ---------------------------------------------------------------------------
// Hrefs, XML and content types
// ---------------------------------------------------------------------------

/// The encoded components of a path, each preceded by `/`.
pub open spec fn encoded_components(cs: Seq<Seq<char>>) -> Seq<char>
    decreases cs.len(),
{
    if cs.len() == 0 {
        Seq::empty()
    } else {
        encoded_components(cs.drop_last()) + seq!['/'] + spec_percent_encode(encode_utf8(cs.last()))
    }
}

/// The href under which the server publishes a remote path: `/{token}`, then each
/// component percent-encoded after a `/`, then a final `/` for folders.
pub open spec fn spec_href(token: Seq<char>, path: Seq<char>, is_folder: bool) -> Seq<char> {
    seq!['/'] + token + (if path == seq!['/'] {
        Seq::empty()
    } else {
        encoded_components(split_on(trim_char(path, '/'), '/'))
    }) + (if is_folder {
        seq!['/']
    } else {
        Seq::empty()
    })
}

proof fn lemma_encode_chars(b: Seq<u8>)
    ensures
        b.len() > 0 ==> spec_percent_encode(b).len() > 0,
        is_ascii_chars(spec_percent_encode(b)),
        forall|i: int|
            0 <= i < spec_percent_encode(b).len() ==> #[trigger] spec_percent_encode(b)[i] != '/'
                && spec_percent_encode(b)[i] != '?',
    decreases b.len(),
{
    if b.len() > 0 {
        lemma_encode_chars(b.drop_last());
        let front = spec_percent_encode(b.drop_last());
        let x = b.last();
        let unit = encode_byte(x);
        if is_unreserved(x) {
            assert(unit =~= seq![x as char]);
        } else {
            lemma_hex_pair(x as nat);
            lemma_hex_digit_value((x / 16) as int);
            lemma_hex_digit_value((x % 16) as int);
            assert(unit =~= seq!['%', hex_digit_char((x / 16) as int, true), hex_digit_char((x % 16) as int, true)]);
        }
        assert(unit.len() > 0);
        assert forall|i: int| 0 <= i < unit.len() implies #[trigger] unit[i] != '/' && unit[i] != '?'
            && '\0' <= unit[i] <= '\u{7f}' by {}
        let e = front + unit;
        assert(spec_percent_encode(b) == e);
        assert forall|i: int| 0 <= i < e.len() implies #[trigger] e[i] != '/' && e[i] != '?' && '\0'
            <= e[i] <= '\u{7f}' by {
            if i < front.len() {
                assert(e[i] == front[i]);
            } else {
                assert(e[i] == unit[i - front.len()]);
            }
        }
    }
}

proof fn lemma_encoded_components_chars(cs: Seq<Seq<char>>)
    requires
        forall|i: int| 0 <= i < cs.len() ==> (#[trigger] cs[i]).len() > 0,
    ensures
        forall|i: int|
            0 <= i < encoded_components(cs).len() ==> #[trigger] encoded_components(cs)[i] != '?',
        cs.len() > 0 ==> encoded_components(cs).len() >= 2 && encoded_components(cs)[0] == '/'
            && encoded_components(cs)[1] != '/',
    decreases cs.len(),
{
    if cs.len() > 0 {
        let init = cs.drop_last();
        assert forall|i: int| 0 <= i < init.len() implies (#[trigger] init[i]).len() > 0 by {
            assert(init[i] == cs[i]);
        }
        lemma_encoded_components_chars(init);
        let c = cs.last();
        assert(c == cs[cs.len() - 1]);
        let u = encode_utf8(c);
        assert(u.len() > 0) by {
            assert(u == encode_scalar(c[0] as u32) + encode_utf8(c.drop_first()));
        }
        lemma_encode_chars(u);
        let e = spec_percent_encode(u);
        let ec = encoded_components(init);
        let whole = ec + seq!['/'] + e;
        assert(encoded_components(cs) == whole);
        assert forall|i: int| 0 <= i < whole.len() implies #[trigger] whole[i] != '?' by {
            if i < ec.len() {
                assert(whole[i] == ec[i]);
            } else if i > ec.len() {
                assert(whole[i] == e[i - ec.len() - 1]);
            }
        }
        if init.len() == 0 {
            assert(ec =~= Seq::<char>::empty());
            assert(whole[1] == e[0]);
        } else {
            assert(whole[0] == ec[0] && whole[1] == ec[1]);
        }
    }
}

proof fn lemma_decode_encoded_components(cs: Seq<Seq<char>>)
    ensures
        spec_percent_decode(encode_utf8(encoded_components(cs))) == Some(
            encode_utf8(crate::remote::slash_joined(cs)),
        ),
    decreases cs.len(),
{
    reveal_with_fuel(spec_percent_decode, 2);
    if cs.len() == 0 {
        assert(encoded_components(cs) =~= Seq::<char>::empty());
        assert(crate::remote::slash_joined(cs) =~= Seq::<char>::empty());
        assert(encode_utf8(Seq::<char>::empty()) =~= Seq::<u8>::empty());
    } else {
        let init = cs.drop_last();
        let c = cs.last();
        let ec = encoded_components(init);
        let e = spec_percent_encode(encode_utf8(c));
        lemma_decode_encoded_components(init);
        lemma_encode_utf8_concat(ec + seq!['/'], e);
        lemma_encode_utf8_concat(ec, seq!['/']);
        assert(is_ascii_chars(seq!['/']));
        lemma_ascii_utf8(seq!['/']);
        assert(encode_utf8(seq!['/']) =~= seq![47u8]);
        lemma_percent_roundtrip_bytes(encode_utf8(c));
        let slash_e = seq![47u8] + encode_utf8(e);
        assert(slash_e[0] == 47);
        assert(slash_e.skip(1) =~= encode_utf8(e));
        assert(spec_percent_decode(slash_e) == prepend_bytes(
            seq![47u8],
            spec_percent_decode(slash_e.skip(1)),
        ));
        lemma_decode_prefix(encode_utf8(ec), slash_e);
        assert(encode_utf8(ec + seq!['/'] + e) =~= encode_utf8(ec) + slash_e);
        let sj = crate::remote::slash_joined(init);
        lemma_encode_utf8_concat(sj + seq!['/'], c);
        lemma_encode_utf8_concat(sj, seq!['/']);
        assert(crate::remote::slash_joined(cs) == sj + seq!['/'] + c);
        assert(encode_utf8(sj) + (seq![47u8] + encode_utf8(c)) =~= encode_utf8(
            crate::remote::slash_joined(cs),
        ));
    }
}

proof fn lemma_split_no_sep(t: Seq<char>, sep: char)
    requires
        !t.contains(sep),
    ensures
        split_on(t, sep) == seq![t],
    decreases t.len(),
{
    if t.len() > 0 {
        let t0 = t.drop_last();
        assert(!t0.contains(sep)) by {
            if t0.contains(sep) {
                let k = choose|k: int| 0 <= k < t0.len() && t0[k] == sep;
                assert(t[k] == sep);
            }
        }
        lemma_split_no_sep(t0, sep);
        assert(t.last() != sep) by {
            assert(t[t.len() - 1] == t.last());
        }
        assert(t0.push(t.last()) =~= t);
        assert(split_on(t, sep) =~= seq![t]);
    } else {
        assert(t =~= Seq::<char>::empty());
    }
}

proof fn lemma_slash_joined_shape(cs: Seq<Seq<char>>)
    requires
        cs.len() > 0,
        forall|i: int| 0 <= i < cs.len() ==> (#[trigger] cs[i]).len() > 0 && !cs[i].contains('/'),
    ensures
        crate::remote::slash_joined(cs).len() >= 2,
        crate::remote::slash_joined(cs)[0] == '/',
        crate::remote::slash_joined(cs)[1] == cs[0][0],
        crate::remote::slash_joined(cs).last() == cs.last().last(),
        split_on(crate::remote::slash_joined(cs).drop_first(), '/') == cs,
    decreases cs.len(),
{
    let init = cs.drop_last();
    let c = cs.last();
    assert(c == cs[cs.len() - 1]);
    let sj = crate::remote::slash_joined(cs);
    if cs.len() == 1 {
        assert(crate::remote::slash_joined(init) =~= Seq::<char>::empty());
        assert(sj =~= seq!['/'] + c);
        assert(sj.drop_first() =~= c);
        lemma_split_no_sep(c, '/');
        assert(cs =~= seq![c]);
    } else {
        assert forall|i: int| 0 <= i < init.len() implies (#[trigger] init[i]).len() > 0
            && !init[i].contains('/') by {
            assert(init[i] == cs[i]);
        }
        lemma_slash_joined_shape(init);
        let si = crate::remote::slash_joined(init);
        assert(sj == si + seq!['/'] + c);
        assert(sj[0] == si[0] && sj[1] == si[1]);
        assert(init[0] == cs[0]);
        assert(sj.drop_first() =~= si.drop_first() + seq!['/'] + c);
        crate::remote::lemma_split_append(si.drop_first(), '/', c);
        assert(init.push(c) =~= cs);
    }
}

proof fn lemma_nonempty_parts_all(cs: Seq<Seq<char>>)
    requires
        forall|i: int| 0 <= i < cs.len() ==> (#[trigger] cs[i]).len() > 0,
    ensures
        nonempty_parts(cs) == cs,
    decreases cs.len(),
{
    if cs.len() > 0 {
        let init = cs.drop_last();
        assert forall|i: int| 0 <= i < init.len() implies (#[trigger] init[i]).len() > 0 by {
            assert(init[i] == cs[i]);
        }
        lemma_nonempty_parts_all(init);
        assert(cs[cs.len() - 1].len() > 0);
        assert(init.push(cs.last()) =~= cs);
    }
}

/// The href under which the server publishes `remote_path`.
pub fn href_for_remote_path(token: &str, remote_path: &str, is_folder: bool) -> (res: String)
    ensures
        res@ == spec_href(token@, remote_path@, is_folder),
{
    let mut href = String::new();
    push_char(&mut href, '/');
    href.append(token);
    let path = chars_of(remote_path);
    let is_root = path.len() == 1 && path[0] == '/';
    proof {
        if path@ == seq!['/'] {
            assert(path@.len() == 1);
        } else if is_root {
            assert(path@ =~= seq!['/']);
        }
    }
    let ghost head = seq!['/'] + token@;
    assert(href@ == head);
    if !is_root {
        let trimmed = trim_char_chars(path.as_slice(), '/');
        let parts = split_chars(trimmed.as_slice(), '/');
        let ghost cs = split_on(trim_char(path@, '/'), '/');
        let n = parts.len();
        for i in 0..n
            invariant
                n == parts@.len(),
                n == cs.len(),
                forall|j: int| 0 <= j < n ==> #[trigger] parts@[j]@ == cs[j],
                href@ == head + encoded_components(cs.take(i as int)),
        {
            let component = string_of(parts[i].as_slice());
            let encoded = percent_encode_component(component.as_str());
            push_char(&mut href, '/');
            href.append(encoded.as_str());
            assert(cs.take(i + 1).drop_last() =~= cs.take(i as int));
            assert(cs.take(i + 1).last() == cs[i as int]);
            assert(href@ =~= head + encoded_components(cs.take(i + 1)));
        }
        assert(cs.take(n as int) =~= cs);
    }
    if is_folder {
        push_char(&mut href, '/');
    }
    proof {
        let mid = if remote_path@ == seq!['/'] {
            Seq::<char>::empty()
        } else {
            encoded_components(split_on(trim_char(remote_path@, '/'), '/'))
        };
        if is_root {
            assert(head + mid =~= head);
        }
    }
    href
}

/// The XML escape of one character.
pub open spec fn xml_escape_char(c: char) -> Seq<char> {
    if c == '&' {
        "&amp;"@
    } else if c == '<' {
        "&lt;"@
    } else if c == '>' {
        "&gt;"@
    } else if c == '"' {
        "&quot;"@
    } else if c == '\'' {
        "&apos;"@
    } else {
        seq![c]
    }
}

/// XML escaping of a text: `&`, `<`, `>`, `"` and `'` become entities.
pub open spec fn spec_xml_escape(s: Seq<char>) -> Seq<char>
    decreases s.len(),
{
    if s.len() == 0 {
        Seq::empty()
    } else {
        spec_xml_escape(s.drop_last()) + xml_escape_char(s.last())
    }
}

/// Escapes a text for use in XML character data.
pub fn xml_escape(value: &str) -> (res: String)
    ensures
        res@ == spec_xml_escape(value@),
{
    let chars = chars_of(value);
    let n = chars.len();
    let mut out = String::new();
    for i in 0..n
        invariant
            n == chars@.len(),
            chars@ == value@,
            out@ == spec_xml_escape(value@.take(i as int)),
    {
        let c = chars[i];
        if c == '&' {
            out.append("&amp;");
        } else if c == '<' {
            out.append("&lt;");
        } else if c == '>' {
            out.append("&gt;");
        } else if c == '"' {
            out.append("&quot;");
        } else if c == '\'' {
            out.append("&apos;");
        } else {
            push_char(&mut out, c);
        }
        assert(value@.take(i + 1).drop_last() =~= value@.take(i as int));
        assert(value@.take(i + 1).last() == c);
    }
    assert(value@.take(n as int) =~= value@);
    out
}

/// The content type for a lower-cased file extension.
pub open spec fn content_type_for_ext(ext: Seq<char>) -> Seq<char> {
    if ext == "wav"@ || ext == "wave"@ {
        "audio/wav"@
    } else if ext == "aif"@ || ext == "aiff"@ {
        "audio/aiff"@
    } else if ext == "mp3"@ {
        "audio/mpeg"@
    } else if ext == "m4a"@ {
        "audio/mp4"@
    } else if ext == "txt"@ {
        "text/plain"@
    } else if ext == "json"@ {
        "application/json"@
    } else {
        "application/octet-stream"@
    }
}

/// The content type of a file, by its extension (after the last `.`), compared without
/// regard to case.
pub open spec fn spec_content_type(name: Seq<char>) -> Seq<char> {
    match spec_rsplit_once(name, '.') {
        Some((_, ext)) => content_type_for_ext(lowercase(ext)),
        None => "application/octet-stream"@,
    }
}

/// The content type of a file, by its extension.
pub fn content_type_for_name(name: &str) -> (res: &'static str)
    ensures
        res@ == spec_content_type(name@),
{
    let chars = chars_of(name);
    match rsplit_once_chars(chars.as_slice(), '.') {
        Some((_, ext)) => {
            let ext_string = string_of(ext.as_slice());
            let lower = to_lowercase(ext_string.as_str());
            let l = chars_of(lower.as_str());
            let e = l.as_slice();
            if chars_are(e, "wav") || chars_are(e, "wave") {
                "audio/wav"
            } else if chars_are(e, "aif") || chars_are(e, "aiff") {
                "audio/aiff"
            } else if chars_are(e, "mp3") {
                "audio/mpeg"
            } else if chars_are(e, "m4a") {
                "audio/mp4"
            } else if chars_are(e, "txt") {
                "text/plain"
            } else if chars_are(e, "json") {
                "application/json"
            } else {
                "application/octet-stream"
            }
        },
        None => "application/octet-stream",
    }
}

// ---------------------------------------------------------------------------
// Dates and status lines
// ---------------------------------------------------------------------------

/// Integer division rounding toward zero, as Rust's `/` does.
pub open spec fn tdiv(a: int, b: int) -> int {
    if a >= 0 {
        a / b
    } else {
        -((-a) / b)
    }
}

/// The remainder that goes with `tdiv`, as Rust's `%` gives it.
pub open spec fn trem(a: int, b: int) -> int {
    a - b * tdiv(a, b)
}

/// Zeller's congruence for the Gregorian calendar: 0 is Saturday, 1 Sunday, ... 6 Friday.
pub open spec fn zeller_index(year: int, month: int, day: int) -> int {
    let y = if month < 3 {
        year - 1
    } else {
        year
    };
    let m = if month < 3 {
        month + 12
    } else {
        month
    };
    let k = trem(y, 100);
    let j = tdiv(y, 100);
    (day + tdiv(13 * (m + 1), 5) + k + tdiv(k, 4) + tdiv(j, 4) + 5 * j) % 7
}

/// Whether `year` is a leap year of the Gregorian calendar.
pub open spec fn is_leap_year(year: int) -> bool {
    (year % 4 == 0 && year % 100 != 0) || year % 400 == 0
}

/// The number of days of `month` (1 to 12) in `year`.
pub open spec fn month_length(year: int, month: int) -> int {
    if month == 2 {
        if is_leap_year(year) {
            29
        } else {
            28
        }
    } else if month == 4 || month == 6 || month == 9 || month == 11 {
        30
    } else {
        31
    }
}

/// The year-dependent part of Zeller's congruence.
spec fn zeller_year_term(y: int) -> int {
    let k = trem(y, 100);
    let j = tdiv(y, 100);
    k + tdiv(k, 4) + tdiv(j, 4) + 5 * j
}

proof fn lemma_zeller_year_step(y: int)
    requires
        y >= 2,
    ensures
        (zeller_year_term(y) - zeller_year_term(y - 1)) % 7 == (if is_leap_year(y) {
            2int
        } else {
            1int
        }),
{
    let k = y % 100;
    let j = y / 100;
    assert(y == 100 * j + k);
    assert(trem(y, 100) == k && tdiv(y, 100) == j);
    assert(tdiv(k, 4) == k / 4);
    assert(tdiv(j, 4) == j / 4);
    if k != 0 {
        assert((y - 1) % 100 == k - 1 && (y - 1) / 100 == j);
        assert(trem(y - 1, 100) == k - 1 && tdiv(y - 1, 100) == j);
        assert(tdiv(k - 1, 4) == (k - 1) / 4);
        assert(y % 4 == k % 4);
        assert(k / 4 - (k - 1) / 4 == (if k % 4 == 0 {
            1int
        } else {
            0int
        }));
    } else {
        assert((y - 1) % 100 == 99 && (y - 1) / 100 == j - 1);
        assert(trem(y - 1, 100) == 99 && tdiv(y - 1, 100) == j - 1);
        assert(y % 400 == 100 * (j % 4));
        assert(j / 4 - (j - 1) / 4 == (if j % 4 == 0 {
            1int
        } else {
            0int
        }));
    }
}

/// The sum that Zeller's congruence reduces modulo 7.
spec fn zeller_sum(year: int, month: int, day: int) -> int {
    let y = if month < 3 {
        year - 1
    } else {
        year
    };
    let m = if month < 3 {
        month + 12
    } else {
        month
    };
    day + tdiv(13 * (m + 1), 5) + zeller_year_term(y)
}

proof fn lemma_zeller_is_sum(year: int, month: int, day: int)
    ensures
        zeller_index(year, month, day) == zeller_sum(year, month, day) % 7,
{
}

proof fn lemma_next_mod(a: int, b: int)
    requires
        (b - a) % 7 == 1,
    ensures
        b % 7 == (a % 7 + 1) % 7,
{
}

proof fn lemma_month_sum_step(year: int, month: int)
    requires
        year >= 2,
        1 <= month <= 12,
        month != 2,
        month != 12,
    ensures
        (zeller_sum(year, month + 1, 1) - zeller_sum(year, month, month_length(year, month))) % 7
            == 1,
{
    if month == 1 {
        assert(tdiv(13 * 14int, 5) == 36 && tdiv(13 * 15int, 5) == 39);
    } else if month == 3 {
        assert(tdiv(13 * 4int, 5) == 10 && tdiv(13 * 5int, 5) == 13);
    } else if month == 4 {
        assert(tdiv(13 * 5int, 5) == 13 && tdiv(13 * 6int, 5) == 15);
    } else if month == 5 {
        assert(tdiv(13 * 6int, 5) == 15 && tdiv(13 * 7int, 5) == 18);
    } else if month == 6 {
        assert(tdiv(13 * 7int, 5) == 18 && tdiv(13 * 8int, 5) == 20);
    } else if month == 7 {
        assert(tdiv(13 * 8int, 5) == 20 && tdiv(13 * 9int, 5) == 23);
    } else if month == 8 {
        assert(tdiv(13 * 9int, 5) == 23 && tdiv(13 * 10int, 5) == 26);
    } else if month == 9 {
        assert(tdiv(13 * 10int, 5) == 26 && tdiv(13 * 11int, 5) == 28);
    } else if month == 10 {
        assert(tdiv(13 * 11int, 5) == 28 && tdiv(13 * 12int, 5) == 31);
    } else {
        assert(tdiv(13 * 12int, 5) == 31 && tdiv(13 * 13int, 5) == 33);
    }
}

proof fn lemma_february_sum_step(year: int)
    requires
        year >= 2,
    ensures
        (zeller_sum(year, 3, 1) - zeller_sum(year, 2, month_length(year, 2))) % 7 == 1,
{
    lemma_zeller_year_step(year);
    assert(tdiv(13 * 4int, 5) == 10 && tdiv(13 * 15int, 5) == 39);
}

proof fn lemma_new_year_sum_step(year: int)
    requires
        year >= 2,
    ensures
        (zeller_sum(year + 1, 1, 1) - zeller_sum(year, 12, 31)) % 7 == 1,
{
    assert(tdiv(13 * 13int, 5) == 33 && tdiv(13 * 14int, 5) == 36);
}

/// The day of the week that `zeller_index` gives advances by one with every calendar day:
/// from one day to the next in a month, from the last day of a month to the first of
/// the next, and from the last day of a year to the first of the next (for years from
/// 2 on, where Rust's and Euclid's division agree). Together with
/// `lemma_weekday_anchor` this ties it to the count of days since 1 January 1970.
pub proof fn lemma_weekday_steps(year: int, month: int, day: int)
    requires
        year >= 2,
        1 <= month <= 12,
    ensures
        zeller_index(year, month, day + 1) == (zeller_index(year, month, day) + 1) % 7,
        month < 12 ==> zeller_index(year, month + 1, 1) == (zeller_index(
            year,
            month,
            month_length(year, month),
        ) + 1) % 7,
        month == 12 ==> zeller_index(year + 1, 1, 1) == (zeller_index(year, 12, 31) + 1) % 7,
{
    lemma_zeller_is_sum(year, month, day);
    lemma_zeller_is_sum(year, month, day + 1);
    lemma_next_mod(zeller_sum(year, month, day), zeller_sum(year, month, day + 1));
    if month < 12 {
        let last = month_length(year, month);
        lemma_zeller_is_sum(year, month, last);
        lemma_zeller_is_sum(year, month + 1, 1);
        if month == 2 {
            lemma_february_sum_step(year);
        } else {
            lemma_month_sum_step(year, month);
        }
        lemma_next_mod(zeller_sum(year, month, last), zeller_sum(year, month + 1, 1));
    } else {
        lemma_zeller_is_sum(year, 12, 31);
        lemma_zeller_is_sum(year + 1, 1, 1);
        lemma_new_year_sum_step(year);
        lemma_next_mod(zeller_sum(year, 12, 31), zeller_sum(year + 1, 1, 1));
    }
}

/// 1 January 1970 was a Thursday.
pub proof fn lemma_weekday_anchor()
    ensures
        zeller_index(1970, 1, 1) == 5,
        weekday_label(5) == "Thu"@,
{
}

/// The English abbreviation of a day of the week numbered as `zeller_index` numbers it.
pub open spec fn weekday_label(h: int) -> Seq<char> {
    if h == 0 {
        "Sat"@
    } else if h == 1 {
        "Sun"@
    } else if h == 2 {
        "Mon"@
    } else if h == 3 {
        "Tue"@
    } else if h == 4 {
        "Wed"@
    } else if h == 5 {
        "Thu"@
    } else {
        "Fri"@
    }
}

/// The English abbreviation of a month; months outside 1..=12 read as January.
pub open spec fn month_label(month: u8) -> Seq<char> {
    if month == 2 {
        "Feb"@
    } else if month == 3 {
        "Mar"@
    } else if month == 4 {
        "Apr"@
    } else if month == 5 {
        "May"@
    } else if month == 6 {
        "Jun"@
    } else if month == 7 {
        "Jul"@
    } else if month == 8 {
        "Aug"@
    } else if month == 9 {
        "Sep"@
    } else if month == 10 {
        "Oct"@
    } else if month == 11 {
        "Nov"@
    } else if month == 12 {
        "Dec"@
    } else {
        "Jan"@
    }
}

/// The abbreviated day of the week of a date.
#[verifier::spinoff_prover]
#[verifier::rlimit(80)]
pub fn weekday_name(year: i32, month: u8, day: u8) -> (res: &'static str)
    requires
        year > i32::MIN,
    ensures
        res@ == weekday_label(zeller_index(year as int, month as int, day as int)),
{
    let mut y = year;
    let mut m = month as i32;
    if m < 3 {
        m += 12;
        y -= 1;
    }
    let k = y % 100;
    assert(k == trem(y as int, 100));
    let j = y / 100;
    assert(j == tdiv(y as int, 100));
    assert(-100 < k < 100);
    assert(-21474837 <= j <= 21474837);
    let a = (13 * (m + 1)) / 5;
    assert(0 <= a <= 700);
    let k4 = k / 4;
    assert(k4 == tdiv(k as int, 4));
    let j4 = j / 4;
    assert(j4 == tdiv(j as int, 4));
    assert(-5368710 <= j4 <= 5368710);
    let total = day as i32 + a + k + k4 + j4 + 5 * j;
    let r = total % 7;
    let h = if r < 0 {
        r + 7
    } else {
        r
    };
    assert(h == total as int % 7);
    assert(h == zeller_index(year as int, month as int, day as int));
    if h == 0 {
        "Sat"
    } else if h == 1 {
        "Sun"
    } else if h == 2 {
        "Mon"
    } else if h == 3 {
        "Tue"
    } else if h == 4 {
        "Wed"
    } else if h == 5 {
        "Thu"
    } else {
        "Fri"
    }
}

/// The abbreviated name of a month.
pub fn month_name(month: u8) -> (res: &'static str)
    ensures
        res@ == month_label(month),
{
    match month {
        2 => "Feb",
        3 => "Mar",
        4 => "Apr",
        5 => "May",
        6 => "Jun",
        7 => "Jul",
        8 => "Aug",
        9 => "Sep",
        10 => "Oct",
        11 => "Nov",
        12 => "Dec",
        _ => "Jan",
    }
}

/// An HTTP date (`Fri, 08 May 2026 12:30:45 GMT`) for an MTP timestamp read as UTC.
pub open spec fn spec_http_date(d: DateTime) -> Seq<char> {
    weekday_label(zeller_index(d.year as int, d.month as int, d.day as int)) + ", "@
        + spec_decimal_padded(d.day as nat, 2) + " "@ + month_label(d.month) + " "@
        + spec_decimal_padded(d.year as nat, 4) + " "@ + spec_decimal_padded(d.hour as nat, 2)
        + ":"@ + spec_decimal_padded(d.minute as nat, 2) + ":"@ + spec_decimal_padded(
        d.second as nat,
        2,
    ) + " GMT"@
}

/// An ISO 8601 date (`2026-05-08T12:30:45Z`) for an MTP timestamp read as UTC.
pub open spec fn spec_creation_date(d: DateTime) -> Seq<char> {
    spec_decimal_padded(d.year as nat, 4) + "-"@ + spec_decimal_padded(d.month as nat, 2) + "-"@
        + spec_decimal_padded(d.day as nat, 2) + "T"@ + spec_decimal_padded(d.hour as nat, 2)
        + ":"@ + spec_decimal_padded(d.minute as nat, 2) + ":"@ + spec_decimal_padded(
        d.second as nat,
        2,
    ) + "Z"@
}

/// The HTTP date of an MTP timestamp.
pub fn format_mtp_http_date(datetime: &DateTime) -> (res: String)
    ensures
        res@ == spec_http_date(*datetime),
{
    let weekday = weekday_name(datetime.year as i32, datetime.month, datetime.day);
    let month = month_name(datetime.month);
    let mut s = String::new();
    s.append(weekday);
    s.append(", ");
    push_decimal_padded(&mut s, datetime.day as u64, 2);
    s.append(" ");
    s.append(month);
    s.append(" ");
    push_decimal_padded(&mut s, datetime.year as u64, 4);
    s.append(" ");
    push_decimal_padded(&mut s, datetime.hour as u64, 2);
    s.append(":");
    push_decimal_padded(&mut s, datetime.minute as u64, 2);
    s.append(":");
    push_decimal_padded(&mut s, datetime.second as u64, 2);
    s.append(" GMT");
    s
}

/// The ISO 8601 creation date of an MTP timestamp.
pub fn format_mtp_creation_date(datetime: &DateTime) -> (res: String)
    ensures
        res@ == spec_creation_date(*datetime),
{
    let mut s = String::new();
    push_decimal_padded(&mut s, datetime.year as u64, 4);
    s.append("-");
    push_decimal_padded(&mut s, datetime.month as u64, 2);
    s.append("-");
    push_decimal_padded(&mut s, datetime.day as u64, 2);
    s.append("T");
    push_decimal_padded(&mut s, datetime.hour as u64, 2);
    s.append(":");
    push_decimal_padded(&mut s, datetime.minute as u64, 2);
    s.append(":");
    push_decimal_padded(&mut s, datetime.second as u64, 2);
    s.append("Z");
    s
}

/// The HTTP date used for objects without a modification time.
pub fn fallback_http_date() -> (res: String)
    ensures
        res@ == "Thu, 01 Jan 1970 00:00:00 GMT"@,
{
    String::from_str("Thu, 01 Jan 1970 00:00:00 GMT")
}

/// The creation date used for objects without a modification time.
pub fn fallback_creation_date() -> (res: String)
    ensures
        res@ == "1970-01-01T00:00:00Z"@,
{
    String::from_str("1970-01-01T00:00:00Z")
}

/// The reason phrase of an HTTP status code the server sends.
pub open spec fn spec_reason_phrase(status: u16) -> Seq<char> {
    if status == 200 {
        "OK"@
    } else if status == 206 {
        "Partial Content"@
    } else if status == 207 {
        "Multi-Status"@
    } else if status == 403 {
        "Forbidden"@
    } else if status == 404 {
        "Not Found"@
    } else if status == 405 {
        "Method Not Allowed"@
    } else if status == 416 {
        "Range Not Satisfiable"@
    } else if status == 500 {
        "Internal Server Error"@
    } else {
        "Unknown"@
    }
}

/// The reason phrase of an HTTP status code.
pub fn reason_phrase(status: u16) -> (res: &'static str)
    ensures
        res@ == spec_reason_phrase(status),
{
    match status {
        200 => "OK",
        206 => "Partial Content",
        207 => "Multi-Status",
        403 => "Forbidden",
        404 => "Not Found",
        405 => "Method Not Allowed",
        416 => "Range Not Satisfiable",
        500 => "Internal Server Error",
        _ => "Unknown",
    }
}

// ---------------------------------------------------------------------------
// Request targets and byte ranges
// ---------------------------------------------------------------------------

/// An inclusive range of byte offsets of a file.
#[derive(Debug, Clone, Copy, PartialEq, Eq, Structural)]
pub struct ByteRange {
    pub start: u64,
    pub end: u64,
}

/// The byte range that a `Range` header asks of a file of `size` bytes: `bytes=a-b`,
/// `bytes=a-` or `bytes=-n` (the last `n` bytes), one range only, clamped to the file;
/// `None` when the header is malformed or the range cannot be satisfied.
pub open spec fn spec_parse_range(header: Seq<char>, size: u64) -> Option<ByteRange> {
    if !"bytes="@.is_prefix_of(header) {
        None
    } else {
        let range = header.subrange("bytes="@.len() as int, header.len() as int);
        if first_index_of(range, ',') >= 0 || size == 0 {
            None
        } else {
            match spec_split_once(range, '-') {
                None => None,
                Some((start, end)) => if start.len() == 0 {
                    match spec_parse_unsigned(end, u64::MAX as int) {
                        None => None,
                        Some(suffix) => if suffix == 0 {
                            None
                        } else {
                            Some(
                                ByteRange {
                                    start: if suffix >= size {
                                        0
                                    } else {
                                        (size - suffix) as u64
                                    },
                                    end: (size - 1) as u64,
                                },
                            )
                        },
                    }
                } else {
                    match spec_parse_unsigned(start, u64::MAX as int) {
                        None => None,
                        Some(first) => if first >= size {
                            None
                        } else {
                            let last: Option<int> = if end.len() == 0 {
                                Some(size - 1)
                            } else {
                                match spec_parse_unsigned(end, u64::MAX as int) {
                                    None => None,
                                    Some(v) => Some(
                                        if v < size - 1 {
                                            v as int
                                        } else {
                                            size - 1
                                        },
                                    ),
                                }
                            };
                            match last {
                                None => None,
                                Some(e) => if e < first {
                                    None
                                } else {
                                    Some(ByteRange { start: first as u64, end: e as u64 })
                                },
                            }
                        },
                    }
                },
            }
        }
    }
}

/// A satisfiable range always lies inside the file: its first byte is at most its
/// last, and its last byte is a byte of the file.
pub proof fn lemma_range_within_file(header: Seq<char>, size: u64)
    ensures
        spec_parse_range(header, size) matches Some(r) ==> r.start <= r.end && r.end < size,
{
}

/// Parses a `Range` header against a file of `size` bytes.
pub fn parse_range_header(header: &str, size: u64) -> (res: Result<ByteRange, ()>)
    ensures
        match res {
            Ok(r) => spec_parse_range(header@, size) == Some(r),
            Err(_) => spec_parse_range(header@, size).is_none(),
        },
{
    let chars = chars_of(header);
    let prefix = chars_of("bytes=");
    if !starts_with_chars(chars.as_slice(), prefix.as_slice()) {
        return Err(());
    }
    let range = slice_chars(chars.as_slice(), prefix.len(), chars.len());
    if find_char(range.as_slice(), ',').is_some() || size == 0 {
        return Err(());
    }
    let (start, end) = match split_once_chars(range.as_slice(), '-') {
        Some(pair) => pair,
        None => {
            return Err(());
        },
    };
    if start.len() == 0 {
        let suffix = match parse_unsigned(end.as_slice(), u64::MAX) {
            Some(v) => v,
            None => {
                return Err(());
            },
        };
        if suffix == 0 {
            return Err(());
        }
        let first = if suffix >= size {
            0
        } else {
            size - suffix
        };
        return Ok(ByteRange { start: first, end: size - 1 });
    }
    let first = match parse_unsigned(start.as_slice(), u64::MAX) {
        Some(v) => v,
        None => {
            return Err(());
        },
    };
    if first >= size {
        return Err(());
    }
    let last = if end.len() == 0 {
        size - 1
    } else {
        match parse_unsigned(end.as_slice(), u64::MAX) {
            Some(v) => if v < size - 1 {
                v
            } else {
                size - 1
            },
            None => {
                return Err(());
            },
        }
    };
    if last < first {
        return Err(());
    }
    Ok(ByteRange { start: first, end: last })
}

/// The path part of a request target: the target itself when it starts with `/`, the
/// part after the authority of an absolute URL (`/` when there is none), nothing for
/// other forms; any query is dropped first.
pub open spec fn spec_request_path(target: Seq<char>) -> Option<Seq<char>> {
    let t = match spec_split_once(target, '?') {
        Some((p, _)) => p,
        None => target,
    };
    if t.len() > 0 && t[0] == '/' {
        Some(t)
    } else {
        match spec_split_once_seq(t, "://"@) {
            Some((_, rest)) => {
                let i = first_index_of(rest, '/');
                if i >= 0 {
                    Some(rest.subrange(i, rest.len() as int))
                } else {
                    Some(seq!['/'])
                }
            },
            None => None,
        }
    }
}

/// The path part of a request target.
pub fn request_path(target: &str) -> (res: Option<String>)
    ensures
        match res {
            Some(p) => spec_request_path(target@) == Some(p@),
            None => spec_request_path(target@).is_none(),
        },
{
    let chars = chars_of(target);
    let t = match split_once_chars(chars.as_slice(), '?') {
        Some((p, _)) => p,
        None => chars,
    };
    if t.len() > 0 && t[0] == '/' {
        return Some(string_of(t.as_slice()));
    }
    let sep = chars_of("://");
    match split_once_seq(t.as_slice(), sep.as_slice()) {
        Some((_, rest)) => match find_char(rest.as_slice(), '/') {
            Some(i) => {
                let tail = slice_chars(rest.as_slice(), i, rest.len());
                Some(string_of(tail.as_slice()))
            },
            None => {
                let mut root = String::new();
                push_char(&mut root, '/');
                Some(root)
            },
        },
        None => None,
    }
}

/// The part of a request path below the mount's token: `/` for the token itself,
/// the rest after `/{token}/` otherwise (`/` when it is empty), nothing for paths
/// outside the token.
pub open spec fn spec_strip_token(path: Seq<char>, token: Seq<char>) -> Option<Seq<char>> {
    let prefix = seq!['/'] + token;
    if path == prefix {
        Some(seq!['/'])
    } else if prefix.push('/').is_prefix_of(path) {
        let stripped = path.subrange(prefix.len() as int + 1, path.len() as int);
        if stripped.len() == 0 {
            Some(seq!['/'])
        } else {
            Some(stripped)
        }
    } else {
        None
    }
}

/// The part of a request path below the mount's token.
pub fn strip_token_path(path: &str, token: &str) -> (res: Option<String>)
    ensures
        match res {
            Some(p) => spec_strip_token(path@, token@) == Some(p@),
            None => spec_strip_token(path@, token@).is_none(),
        },
{
    let chars = chars_of(path);
    let mut prefix_string = String::new();
    push_char(&mut prefix_string, '/');
    prefix_string.append(token);
    let prefix = chars_of(prefix_string.as_str());
    let mut root = String::new();
    push_char(&mut root, '/');
    if chars_eq(chars.as_slice(), prefix.as_slice()) {
        return Some(root);
    }
    push_char(&mut prefix_string, '/');
    let with_slash = chars_of(prefix_string.as_str());
    if !starts_with_chars(chars.as_slice(), with_slash.as_slice()) {
        return None;
    }
    let stripped = slice_chars(chars.as_slice(), with_slash.len(), chars.len());
    if stripped.len() == 0 {
        Some(root)
    } else {
        Some(string_of(stripped.as_slice()))
    }
}

/// What a request path asks of the server, in the abstract.
pub enum RequestedPath {
    Remote(Seq<char>),
    Shutdown,
    NotFound,
}

/// What a request path asks of the server.
#[derive(Debug, Clone, PartialEq, Eq)]
pub enum PathRequest {
    /// A normalised remote path on the device.
    Remote(String),
    /// The server's own shutdown path.
    Shutdown,
    /// Anything outside the mount, or a path that cannot be decoded.
    NotFound,
}

/// The abstract form of a `PathRequest`.
pub open spec fn path_request_view(r: PathRequest) -> RequestedPath {
    match r {
        PathRequest::Remote(p) => RequestedPath::Remote(p@),
        PathRequest::Shutdown => RequestedPath::Shutdown,
        PathRequest::NotFound => RequestedPath::NotFound,
    }
}

/// What the request target `target` asks of the server serving the mount `token`.
pub open spec fn spec_path_request(target: Seq<char>, token: Seq<char>) -> RequestedPath {
    match spec_request_path(target) {
        None => RequestedPath::NotFound,
        Some(p) => match spec_strip_token(p, token) {
            None => RequestedPath::NotFound,
            Some(stripped) => if stripped == SHUTDOWN_PATH@ {
                RequestedPath::Shutdown
            } else {
                match spec_percent_decode_path(stripped) {
                    None => RequestedPath::NotFound,
                    Some(decoded) => if has_dot_component(spec_components(decoded)) {
                        RequestedPath::NotFound
                    } else {
                        RequestedPath::Remote(spec_normalized(decoded))
                    },
                }
            },
        },
    }
}

proof fn lemma_decode_slash_tail(tail: Seq<char>)
    requires
        tail == seq!['/'] || tail.len() == 0,
    ensures
        spec_percent_decode(encode_utf8(tail)) == Some(encode_utf8(tail)),
{
    reveal_with_fuel(spec_percent_decode, 2);
    assert(is_ascii_chars(tail));
    lemma_ascii_utf8(tail);
    if tail.len() == 0 {
        assert(encode_utf8(tail) =~= Seq::<u8>::empty());
    } else {
        let u = encode_utf8(tail);
        assert(u =~= seq![47u8]);
        assert(u.skip(1) =~= Seq::<u8>::empty());
        assert(seq![47u8] + Seq::<u8>::empty() =~= u);
    }
}

/// The decoded form of `encoded` followed by a tail of `/` or nothing, where `encoded`
/// is the encoding of the components after the first slash.
proof fn lemma_decode_stripped(cs: Seq<Seq<char>>, tail: Seq<char>)
    requires
        cs.len() > 0,
        forall|i: int| 0 <= i < cs.len() ==> (#[trigger] cs[i]).len() > 0,
        tail == seq!['/'] || tail.len() == 0,
    ensures
        spec_percent_decode_path(encoded_components(cs).drop_first() + tail) == Some(
            crate::remote::slash_joined(cs).drop_first() + tail,
        ),
{
    let ec = encoded_components(cs);
    let sj = crate::remote::slash_joined(cs);
    lemma_encoded_components_chars(cs);
    crate::remote::lemma_slash_joined_first(cs);
    lemma_decode_encoded_components(cs);
    assert(ec =~= seq!['/'] + ec.drop_first());
    assert(sj =~= seq!['/'] + sj.drop_first());
    lemma_encode_utf8_concat(seq!['/'], ec.drop_first());
    lemma_encode_utf8_concat(seq!['/'], sj.drop_first());
    assert(is_ascii_chars(seq!['/']));
    lemma_ascii_utf8(seq!['/']);
    assert(encode_utf8(seq!['/']) =~= seq![47u8]);
    let ue = encode_utf8(ec);
    assert(ue == seq![47u8] + encode_utf8(ec.drop_first()));
    assert(ue[0] == 47);
    assert(ue.skip(1) =~= encode_utf8(ec.drop_first()));
    assert(spec_percent_decode(ue) == prepend_bytes(seq![47u8], spec_percent_decode(ue.skip(1))));
    let r = spec_percent_decode(encode_utf8(ec.drop_first()));
    assert(r is Some);
    assert(seq![47u8] + r->0 == seq![47u8] + encode_utf8(sj.drop_first()));
    assert(r->0 =~= (seq![47u8] + r->0).drop_first());
    assert(encode_utf8(sj.drop_first()) =~= (seq![47u8] + encode_utf8(sj.drop_first())).drop_first());
    lemma_decode_slash_tail(tail);
    lemma_decode_prefix(encode_utf8(ec.drop_first()), encode_utf8(tail));
    lemma_encode_utf8_concat(ec.drop_first(), tail);
    lemma_encode_utf8_concat(sj.drop_first(), tail);
    let d = sj.drop_first() + tail;
    assert(spec_percent_decode(encode_utf8(ec.drop_first() + tail)) == Some(encode_utf8(d)));
    encode_utf8_valid_utf8(d);
    encode_utf8_decode_utf8(d);
}

/// A published href asks the server for the path it was published for: the href of the
/// canonical path of some components maps back to that path, provided the first
/// component does not start with white space and, for a file, the last one does not
/// end with it (the server trims the decoded path), and the token holds no `?`.
pub proof fn lemma_href_roundtrip(token: Seq<char>, cs: Seq<Seq<char>>, is_folder: bool)
    requires
        !token.contains('?'),
        forall|i: int| 0 <= i < cs.len() ==> (#[trigger] cs[i]).len() > 0 && !cs[i].contains('/'),
        !has_dot_component(cs),
        cs.len() > 0 ==> !is_white_space(cs[0][0]),
        cs.len() > 0 && !is_folder ==> !is_white_space(cs.last().last()),
    ensures
        spec_path_request(spec_href(token, crate::remote::spec_format_path(cs), is_folder), token)
            == RequestedPath::Remote(crate::remote::spec_format_path(cs)),
{
    reveal_strlit("/.tp7-shutdown");
    let path = crate::remote::spec_format_path(cs);
    let tail: Seq<char> = if is_folder {
        seq!['/']
    } else {
        Seq::empty()
    };
    let prefix = seq!['/'] + token;
    let ec: Seq<char> = if cs.len() == 0 {
        Seq::empty()
    } else {
        encoded_components(cs)
    };
    let h = prefix + ec + tail;
    if cs.len() > 0 {
        crate::remote::lemma_slash_joined_first(cs);
        assert(path == crate::remote::slash_joined(cs));
        assert(path != seq!['/']) by {
            lemma_slash_joined_shape(cs);
        }
        lemma_slash_joined_shape(cs);
        let sj = crate::remote::slash_joined(cs);
        assert(trim_start_char(sj.drop_first(), '/') == sj.drop_first());
        assert(trim_start_char(sj, '/') == sj.drop_first());
        assert(sj.drop_first().last() == cs.last().last());
        assert(cs.last() == cs[cs.len() - 1]);
        assert(cs.last().last() != '/') by {
            assert(cs.last()[cs.last().len() - 1] == cs.last().last());
        }
        assert(trim_char(sj, '/') == sj.drop_first());
    }
    assert(spec_href(token, path, is_folder) == h);
    lemma_encoded_components_chars(cs);
    assert forall|j: int| 0 <= j < h.len() implies h[j] != '?' by {
        if j < prefix.len() {
            if j > 0 {
                assert(h[j] == token[j - 1]);
            }
        } else if j < prefix.len() + ec.len() {
            assert(h[j] == ec[j - prefix.len()]);
        } else {
            assert(h[j] == tail[j - prefix.len() - ec.len()]);
        }
    }
    crate::text::lemma_first_index_of(h, '?', -1);
    assert(spec_request_path(h) == Some(h));
    // stripping the token
    let stripped: Seq<char> = if cs.len() == 0 {
        seq!['/']
    } else {
        ec.drop_first() + tail
    };
    if cs.len() == 0 {
        if is_folder {
            assert(h != prefix) by {
                assert(h.len() != prefix.len());
            }
            assert(prefix.push('/').is_prefix_of(h)) by {
                assert(h =~= prefix.push('/'));
            }
            assert(h.subrange(prefix.len() as int + 1, h.len() as int) =~= Seq::<char>::empty());
        } else {
            assert(h =~= prefix);
        }
    } else {
        assert(h != prefix) by {
            assert(h.len() != prefix.len());
        }
        assert(prefix.push('/').is_prefix_of(h)) by {
            assert(h.subrange(0, prefix.len() as int + 1) =~= prefix.push('/'));
        }
        assert(h.subrange(prefix.len() as int + 1, h.len() as int) =~= stripped);
    }
    assert(spec_strip_token(h, token) == Some(stripped));
    assert(stripped != SHUTDOWN_PATH@) by {
        if cs.len() == 0 {
            assert(stripped.len() != SHUTDOWN_PATH@.len());
        } else {
            assert(stripped[0] == ec[1]);
        }
    }
    // decoding and reading back the components
    if cs.len() == 0 {
        lemma_decode_slash_tail(seq!['/']);
        encode_utf8_valid_utf8(seq!['/']);
        encode_utf8_decode_utf8(seq!['/']);
        assert(spec_percent_decode_path(stripped) == Some(seq!['/']));
        assert(!is_white_space('/'));
        assert(crate::text::trim_start_ws(seq!['/']) == seq!['/']);
        assert(crate::text::trim_end_ws(seq!['/']) == seq!['/']);
        assert(seq!['/'] =~= Seq::<char>::empty() + seq!['/'] + Seq::<char>::empty());
        crate::remote::lemma_split_append(Seq::<char>::empty(), '/', Seq::<char>::empty());
        assert(split_on(Seq::<char>::empty(), '/') =~= seq![Seq::<char>::empty()]);
        let pieces = split_on(seq!['/'], '/');
        assert(pieces =~= seq![Seq::<char>::empty(), Seq::<char>::empty()]);
        assert(pieces.drop_last() =~= seq![Seq::<char>::empty()]);
        let one = seq![Seq::<char>::empty()];
        assert(one.drop_last() =~= Seq::<Seq<char>>::empty());
        assert(nonempty_parts(one) == nonempty_parts(one.drop_last()));
        assert(nonempty_parts(pieces) == nonempty_parts(pieces.drop_last()));
        assert(spec_components(seq!['/']) =~= Seq::<Seq<char>>::empty());
        assert(cs =~= Seq::<Seq<char>>::empty());
    } else {
        assert forall|i: int| 0 <= i < cs.len() implies (#[trigger] cs[i]).len() > 0 by {}
        lemma_decode_stripped(cs, tail);
        lemma_slash_joined_shape(cs);
        let sj = crate::remote::slash_joined(cs);
        let d = sj.drop_first() + tail;
        assert(d[0] == cs[0][0]);
        assert(crate::text::trim_start_ws(d) == d);
        if is_folder {
            assert(d.last() == '/');
        } else {
            assert(d =~= sj.drop_first());
            assert(d.last() == cs.last().last());
        }
        assert(crate::text::trim_end_ws(d) == d);
        assert(spec_trim(d) == d);
        if is_folder {
            assert(d =~= sj.drop_first() + seq!['/'] + Seq::<char>::empty());
            crate::remote::lemma_split_append(sj.drop_first(), '/', Seq::<char>::empty());
            assert(split_on(d, '/') == cs.push(Seq::<char>::empty()));
            assert(cs.push(Seq::<char>::empty()).drop_last() =~= cs);
            assert(nonempty_parts(cs.push(Seq::<char>::empty())) == nonempty_parts(cs));
        } else {
            assert(split_on(d, '/') == cs);
        }
        lemma_nonempty_parts_all(cs);
        assert(spec_components(d) == cs);
    }
}

/// Maps a request target to what it asks of the server serving the mount `token`.
pub fn remote_path(target: &str, token: &str) -> (res: PathRequest)
    ensures
        path_request_view(res) == spec_path_request(target@, token@),
{
    let path = match request_path(target) {
        Some(p) => p,
        None => {
            return PathRequest::NotFound;
        },
    };
    let stripped = match strip_token_path(path.as_str(), token) {
        Some(s) => s,
        None => {
            return PathRequest::NotFound;
        },
    };
    let stripped_chars = chars_of(stripped.as_str());
    let shutdown = chars_of(SHUTDOWN_PATH);
    if chars_eq(stripped_chars.as_slice(), shutdown.as_slice()) {
        return PathRequest::Shutdown;
    }
    match percent_decode_path(stripped.as_str()) {
        Some(decoded) => match normalize_remote_path(decoded.as_str()) {
            Ok(p) => PathRequest::Remote(p),
            Err(_) => PathRequest::NotFound,
        },
        None => PathRequest::NotFound,
    }
}

// ---------------------------------------------------------------------------
// PROPFIND entries and bodies
// ---------------------------------------------------------------------------

/// One `<D:response>` of a PROPFIND answer.
#[derive(Debug)]
pub struct DavEntry {
    pub href: String,
    pub display_name: String,
    pub is_folder: bool,
    pub size: u64,
    pub modified_http: String,
    pub created_iso: String,
    pub etag: String,
    pub content_type: &'static str,
}

/// The HTTP date of an optional timestamp, with the epoch as fallback.
pub open spec fn opt_http_date(d: Option<DateTime>) -> Seq<char> {
    match d {
        Some(d) => spec_http_date(d),
        None => "Thu, 01 Jan 1970 00:00:00 GMT"@,
    }
}

/// The ISO 8601 date of an optional timestamp, with the epoch as fallback.
pub open spec fn opt_creation_date(d: Option<DateTime>) -> Seq<char> {
    match d {
        Some(d) => spec_creation_date(d),
        None => "1970-01-01T00:00:00Z"@,
    }
}

/// The entity tag of an object: `"{handle}-{size}-{modified}"`.
pub open spec fn spec_etag(o: ObjectInfo) -> Seq<char> {
    "\""@ + spec_decimal(o.handle as nat) + "-"@ + spec_decimal(o.size as nat) + "-"@
        + opt_http_date(o.modified) + "\""@
}

/// Whether `e` is the entry for the storage root of the mount `token`.
pub open spec fn is_root_entry(e: DavEntry, token: Seq<char>) -> bool {
    &&& e.href@ == seq!['/'] + token + seq!['/']
    &&& e.display_name@ == DEFAULT_VOLUME_NAME@
    &&& e.is_folder
    &&& e.size == 0
    &&& e.modified_http@ == "Thu, 01 Jan 1970 00:00:00 GMT"@
    &&& e.created_iso@ == "1970-01-01T00:00:00Z"@
    &&& e.etag@ == "\"tp7-root\""@
    &&& e.content_type@ == "httpd/unix-directory"@
}

/// Whether `e` is the entry for object `o` inside the folder `parent` of the mount
/// `token`. Both dates come from the modification time.
pub open spec fn is_object_entry(e: DavEntry, token: Seq<char>, parent: Seq<char>, o: ObjectInfo) -> bool {
    let folder = is_folder_object(o);
    &&& e.href@ == spec_href(token, spec_join_remote_path(parent, o.filename@), folder)
    &&& e.display_name@ == o.filename@
    &&& e.is_folder == folder
    &&& e.size == o.size
    &&& e.modified_http@ == opt_http_date(o.modified)
    &&& e.created_iso@ == opt_creation_date(o.modified)
    &&& e.etag@ == spec_etag(o)
    &&& e.content_type@ == (if folder {
        "httpd/unix-directory"@
    } else {
        spec_content_type(o.filename@)
    })
}

impl DavEntry {
    /// The entry for the storage root.
    pub fn root(token: &str) -> (res: Self)
        ensures
            is_root_entry(res, token@),
    {
        let mut href = String::new();
        push_char(&mut href, '/');
        href.append(token);
        push_char(&mut href, '/');
        assert(href@ =~= seq!['/'] + token@ + seq!['/']);
        DavEntry {
            href,
            display_name: String::from_str(DEFAULT_VOLUME_NAME),
            is_folder: true,
            size: 0,
            modified_http: fallback_http_date(),
            created_iso: fallback_creation_date(),
            etag: String::from_str("\"tp7-root\""),
            content_type: "httpd/unix-directory",
        }
    }

    /// The entry for `object`, listed inside the folder `parent_path`.
    pub fn from_object(token: &str, parent_path: &str, object: ObjectInfo) -> (res: Self)
        ensures
            is_object_entry(res, token@, parent_path@, object),
    {
        let path = join_remote_path(parent_path, object.filename.as_str());
        let is_folder = object.is_folder();
        let modified_http = match &object.modified {
            Some(d) => format_mtp_http_date(d),
            None => fallback_http_date(),
        };
        let created_iso = match &object.modified {
            Some(d) => format_mtp_creation_date(d),
            None => fallback_creation_date(),
        };
        let mut etag = String::new();
        etag.append("\"");
        push_decimal(&mut etag, object.handle as u64);
        etag.append("-");
        push_decimal(&mut etag, object.size);
        etag.append("-");
        etag.append(modified_http.as_str());
        etag.append("\"");
        let content_type = if is_folder {
            "httpd/unix-directory"
        } else {
            content_type_for_name(object.filename.as_str())
        };
        DavEntry {
            href: href_for_remote_path(token, path.as_str(), is_folder),
            display_name: object.filename,
            is_folder,
            size: object.size,
            modified_http,
            created_iso,
            etag,
            content_type,
        }
    }
}

/// The XML of one entry of a PROPFIND answer.
pub open spec fn spec_entry_xml(e: DavEntry) -> Seq<char> {
    "  <D:response>\n    <D:href>"@ + spec_xml_escape(e.href@)
        + "</D:href>\n    <D:propstat>\n      <D:prop>\n        <D:displayname>"@
        + spec_xml_escape(e.display_name@) + "</D:displayname>\n        <D:creationdate>"@
        + e.created_iso@ + "</D:creationdate>\n        <D:getlastmodified>"@ + e.modified_http@
        + "</D:getlastmodified>\n        <D:getetag>"@ + spec_xml_escape(e.etag@)
        + "</D:getetag>\n        <D:resourcetype>"@ + (if e.is_folder {
        "<D:collection/>"@
    } else {
        Seq::empty()
    }) + "</D:resourcetype>\n        <D:supportedlock/>\n        <D:getcontenttype>"@
        + e.content_type@ + "</D:getcontenttype>\n"@ + (if e.is_folder {
        Seq::empty()
    } else {
        "        <D:getcontentlength>"@ + spec_decimal(e.size as nat) + "</D:getcontentlength>\n"@
    })
        + "      </D:prop>\n      <D:status>HTTP/1.1 200 OK</D:status>\n    </D:propstat>\n  </D:response>\n"@
}

/// The XML of a run of entries.
pub open spec fn spec_entries_xml(entries: Seq<DavEntry>) -> Seq<char>
    decreases entries.len(),
{
    if entries.len() == 0 {
        Seq::empty()
    } else {
        spec_entries_xml(entries.drop_last()) + spec_entry_xml(entries.last())
    }
}

/// The body of a PROPFIND answer: an XML `multistatus` holding one response per entry.
pub open spec fn spec_propfind_body(entries: Seq<DavEntry>) -> Seq<char> {
    "<?xml version=\"1.0\" encoding=\"utf-8\"?>\n<D:multistatus xmlns:D=\"DAV:\">\n"@
        + spec_entries_xml(entries) + "</D:multistatus>\n"@
}

/// Appends the XML of one entry.
fn push_entry_xml(body: &mut String, entry: &DavEntry)
    ensures
        final(body)@ == old(body)@ + spec_entry_xml(*entry),
{
    body.append("  <D:response>\n    <D:href>");
    body.append(xml_escape(entry.href.as_str()).as_str());
    body.append("</D:href>\n    <D:propstat>\n      <D:prop>\n        <D:displayname>");
    body.append(xml_escape(entry.display_name.as_str()).as_str());
    body.append("</D:displayname>\n        <D:creationdate>");
    body.append(entry.created_iso.as_str());
    body.append("</D:creationdate>\n        <D:getlastmodified>");
    body.append(entry.modified_http.as_str());
    body.append("</D:getlastmodified>\n        <D:getetag>");
    body.append(xml_escape(entry.etag.as_str()).as_str());
    body.append("</D:getetag>\n        <D:resourcetype>");
    if entry.is_folder {
        body.append("<D:collection/>");
    }
    body.append("</D:resourcetype>\n        <D:supportedlock/>\n        <D:getcontenttype>");
    body.append(entry.content_type);
    body.append("</D:getcontenttype>\n");
    if !entry.is_folder {
        body.append("        <D:getcontentlength>");
        push_decimal(body, entry.size);
        body.append("</D:getcontentlength>\n");
    }
    body.append(
        "      </D:prop>\n      <D:status>HTTP/1.1 200 OK</D:status>\n    </D:propstat>\n  </D:response>\n",
    );
}

/// The body of a PROPFIND answer for the given entries.
pub fn propfind_body(entries: &[DavEntry]) -> (res: String)
    ensures
        res@ == spec_propfind_body(entries@),
{
    let mut body = String::new();
    body.append("<?xml version=\"1.0\" encoding=\"utf-8\"?>\n<D:multistatus xmlns:D=\"DAV:\">\n");
    let ghost head = body@;
    let n = entries.len();
    for i in 0..n
        invariant
            n == entries@.len(),
            body@ == head + spec_entries_xml(entries@.take(i as int)),
    {
        push_entry_xml(&mut body, &entries[i]);
        assert(entries@.take(i + 1).drop_last() =~= entries@.take(i as int));
    }
    assert(entries@.take(n as int) =~= entries@);
    body.append("</D:multistatus>\n");
    body
}

// ---------------------------------------------------------------------------
// Responses
// ---------------------------------------------------------------------------

/// A response of the server: its status, its headers in order, and its body (empty for
/// the responses whose body is streamed from the device).
pub struct DavResponse {
    pub status: u16,
    pub headers: Vec<(String, String)>,
    pub body: String,
}

/// The views of a list of header pairs.
pub open spec fn headers_view(h: Seq<(String, String)>) -> Seq<(Seq<char>, Seq<char>)> {
    h.map_values(|p: (String, String)| (p.0@, p.1@))
}

/// The header lines `name: value\r\n`, in order.
pub open spec fn spec_header_lines(h: Seq<(Seq<char>, Seq<char>)>) -> Seq<char>
    decreases h.len(),
{
    if h.len() == 0 {
        Seq::empty()
    } else {
        spec_header_lines(h.drop_last()) + h.last().0 + ": "@ + h.last().1 + "\r\n"@
    }
}

/// The status line and headers of a response, up to and including the blank line.
pub open spec fn spec_response_head(status: u16, h: Seq<(Seq<char>, Seq<char>)>) -> Seq<char> {
    "HTTP/1.1 "@ + spec_decimal(status as nat) + " "@ + spec_reason_phrase(status) + "\r\n"@
        + spec_header_lines(h) + "\r\n"@
}

/// Whether a response has the given status, headers and body.
pub open spec fn response_is(r: DavResponse, status: u16, h: Seq<(Seq<char>, Seq<char>)>, body: Seq<char>) -> bool {
    r.status == status && headers_view(r.headers@) == h && r.body@ == body
}

/// The status line and headers of a response.
pub fn response_head(status: u16, headers: &[(String, String)]) -> (res: String)
    ensures
        res@ == spec_response_head(status, headers_view(headers@)),
{
    let mut s = String::new();
    s.append("HTTP/1.1 ");
    push_decimal(&mut s, status as u64);
    s.append(" ");
    s.append(reason_phrase(status));
    s.append("\r\n");
    let ghost head = s@;
    let ghost h = headers_view(headers@);
    let n = headers.len();
    for i in 0..n
        invariant
            n == headers@.len(),
            h == headers_view(headers@),
            s@ == head + spec_header_lines(h.take(i as int)),
    {
        let (name, value) = &headers[i];
        s.append(name.as_str());
        s.append(": ");
        s.append(value.as_str());
        s.append("\r\n");
        assert(h.take(i + 1).drop_last() =~= h.take(i as int));
        assert(h.take(i + 1).last() == h[i as int]);
    }
    assert(h.take(n as int) =~= h);
    s.append("\r\n");
    s
}

/// A header pair.
fn header(name: &str, value: &str) -> (res: (String, String))
    ensures
        res.0@ == name@,
        res.1@ == value@,
{
    (String::from_str(name), String::from_str(value))
}

/// The methods the server tells clients it allows.
pub open spec fn allowed_methods() -> Seq<char> {
    "OPTIONS, PROPFIND, GET, HEAD"@
}

/// The answer to `OPTIONS`: the server speaks WebDAV class 1 and allows reading only.
pub fn options_response() -> (res: DavResponse)
    ensures
        response_is(
            res,
            200,
            seq![("DAV"@, "1"@), ("MS-Author-Via"@, "DAV"@), ("Allow"@, allowed_methods()), ("Connection"@, "close"@)],
            Seq::empty(),
        ),
{
    let headers = vec![
        header("DAV", "1"),
        header("MS-Author-Via", "DAV"),
        header("Allow", "OPTIONS, PROPFIND, GET, HEAD"),
        header("Connection", "close"),
    ];
    assert(headers_view(headers@) =~= seq![("DAV"@, "1"@), ("MS-Author-Via"@, "DAV"@), ("Allow"@, allowed_methods()), ("Connection"@, "close"@)]);
    DavResponse { status: 200, headers, body: String::new() }
}

/// The answer to a method the read-only server refuses; methods that would write also
/// get the `DAV` header.
pub fn method_not_allowed_response(writes: bool) -> (res: DavResponse)
    ensures
        response_is(
            res,
            405,
            if writes {
                seq![("Allow"@, allowed_methods()), ("DAV"@, "1"@), ("Connection"@, "close"@)]
            } else {
                seq![("Allow"@, allowed_methods()), ("Connection"@, "close"@)]
            },
            Seq::empty(),
        ),
{
    let headers = if writes {
        vec![
            header("Allow", "OPTIONS, PROPFIND, GET, HEAD"),
            header("DAV", "1"),
            header("Connection", "close"),
        ]
    } else {
        vec![header("Allow", "OPTIONS, PROPFIND, GET, HEAD"), header("Connection", "close")]
    };
    assert(headers_view(headers@) =~= if writes {
        seq![("Allow"@, allowed_methods()), ("DAV"@, "1"@), ("Connection"@, "close"@)]
    } else {
        seq![("Allow"@, allowed_methods()), ("Connection"@, "close"@)]
    });
    DavResponse { status: 405, headers, body: String::new() }
}

/// An empty response with the given status and only `Connection: close`.
pub fn empty_response(status: u16) -> (res: DavResponse)
    ensures
        response_is(res, status, seq![("Connection"@, "close"@)], Seq::empty()),
{
    let headers = vec![header("Connection", "close")];
    assert(headers_view(headers@) =~= seq![("Connection"@, "close"@)]);
    DavResponse { status, headers, body: String::new() }
}

/// The answer to the shutdown path.
pub fn shutdown_response() -> (res: DavResponse)
    ensures
        response_is(
            res,
            200,
            seq![("Content-Type"@, "text/plain; charset=utf-8"@), ("Content-Length"@, "13"@), ("Connection"@, "close"@)],
            "shutting down"@,
        ),
{
    let headers = vec![
        header("Content-Type", "text/plain; charset=utf-8"),
        header("Content-Length", "13"),
        header("Connection", "close"),
    ];
    assert(headers_view(headers@) =~= seq![("Content-Type"@, "text/plain; charset=utf-8"@), ("Content-Length"@, "13"@), ("Connection"@, "close"@)]);
    DavResponse { status: 200, headers, body: String::from_str("shutting down") }
}

/// The length of a string in bytes, as `str::len` reports it (that of its UTF-8
/// encoding).
pub open spec fn byte_len(s: Seq<char>) -> nat {
    (encode_utf8(s).len() as usize) as nat
}

/// A response with a text body and its length in UTF-8 bytes.
fn text_response(status: u16, content_type: &str, dav: bool, body: String) -> (res: DavResponse)
    ensures
        response_is(
            res,
            status,
            (if dav {
                seq![("DAV"@, "1"@)]
            } else {
                Seq::empty()
            }) + seq![("Content-Type"@, content_type@), ("Content-Length"@, spec_decimal(byte_len(body@))), ("Connection"@, "close"@)],
            body@,
        ),
{
    let len = body.as_str().len();
    let mut length = String::new();
    push_decimal(&mut length, len as u64);
    let mut headers: Vec<(String, String)> = Vec::new();
    if dav {
        headers.push(header("DAV", "1"));
    }
    headers.push(header("Content-Type", content_type));
    headers.push((String::from_str("Content-Length"), length));
    headers.push(header("Connection", "close"));
    assert(headers_view(headers@) =~= (if dav {
        seq![("DAV"@, "1"@)]
    } else {
        Seq::empty()
    }) + seq![("Content-Type"@, content_type@), ("Content-Length"@, spec_decimal(byte_len(body@))), ("Connection"@, "close"@)]);
    DavResponse { status, headers, body }
}

/// The answer to a failure of the device: status 500 with the error's message.
pub fn server_error_response(error: &AppError) -> (res: DavResponse)
    ensures
        response_is(
            res,
            500,
            seq![("Content-Type"@, "text/plain; charset=utf-8"@), ("Content-Length"@, spec_decimal(byte_len(spec_message(*error)))), ("Connection"@, "close"@)],
            spec_message(*error),
        ),
{
    let r = text_response(500, "text/plain; charset=utf-8", false, error.message());
    assert(Seq::<(Seq<char>, Seq<char>)>::empty() + seq![("Content-Type"@, "text/plain; charset=utf-8"@), ("Content-Length"@, spec_decimal(byte_len(spec_message(*error)))), ("Connection"@, "close"@)] =~= seq![("Content-Type"@, "text/plain; charset=utf-8"@), ("Content-Length"@, spec_decimal(byte_len(spec_message(*error)))), ("Connection"@, "close"@)]);
    r
}

/// The answer to a PROPFIND: status 207 with the XML body.
pub fn multistatus_response(body: String) -> (res: DavResponse)
    ensures
        response_is(
            res,
            207,
            seq![("DAV"@, "1"@), ("Content-Type"@, "application/xml; charset=utf-8"@), ("Content-Length"@, spec_decimal(byte_len(body@))), ("Connection"@, "close"@)],
            body@,
        ),
{
    let ghost b = body@;
    let r = text_response(207, "application/xml; charset=utf-8", true, body);
    assert(seq![("DAV"@, "1"@)] + seq![("Content-Type"@, "application/xml; charset=utf-8"@), ("Content-Length"@, spec_decimal(byte_len(b))), ("Connection"@, "close"@)] =~= seq![("DAV"@, "1"@), ("Content-Type"@, "application/xml; charset=utf-8"@), ("Content-Length"@, spec_decimal(byte_len(b))), ("Connection"@, "close"@)]);
    r
}

/// The answer when resolving a path failed: 404 when it does not exist, 500 otherwise.
pub fn resolve_failure_response(error: &AppError) -> (res: DavResponse)
    ensures
        if error is RemotePathNotFound {
            response_is(res, 404, seq![("Connection"@, "close"@)], Seq::empty())
        } else {
            response_is(
                res,
                500,
                seq![("Content-Type"@, "text/plain; charset=utf-8"@), ("Content-Length"@, spec_decimal(byte_len(spec_message(*error)))), ("Connection"@, "close"@)],
                spec_message(*error),
            )
        },
{
    match error {
        AppError::RemotePathNotFound { .. } => empty_response(404),
        _ => server_error_response(error),
    }
}

// ---------------------------------------------------------------------------
// Requests
// ---------------------------------------------------------------------------

/// A request as the server reads it: method, target and headers in arrival order, with
/// names lower-cased and names and values trimmed.
pub struct HttpRequest {
    pub method: String,
    pub target: String,
    pub headers: Vec<(String, String)>,
}

/// The value of the last header named `name`, as a map filled in arrival order keeps it.
pub open spec fn last_header_value(h: Seq<(Seq<char>, Seq<char>)>, name: Seq<char>) -> Option<Seq<char>>
    decreases h.len(),
{
    if h.len() == 0 {
        None
    } else if h.last().0 == name {
        Some(h.last().1)
    } else {
        last_header_value(h.drop_last(), name)
    }
}

impl HttpRequest {
    /// The value of the header `name` (lower-case), the last one when it came twice.
    pub fn header_value(&self, name: &str) -> (res: Option<String>)
        ensures
            match res {
                Some(v) => last_header_value(headers_view(self.headers@), name@) == Some(v@),
                None => last_header_value(headers_view(self.headers@), name@).is_none(),
            },
    {
        let ghost h = headers_view(self.headers@);
        let wanted = chars_of(name);
        let mut i = self.headers.len();
        assert(h.take(i as int) =~= h);
        while i > 0
            invariant
                i <= self.headers@.len(),
                h == headers_view(self.headers@),
                wanted@ == name@,
                last_header_value(h, name@) == last_header_value(h.take(i as int), name@),
            decreases i,
        {
            let (n, v) = &self.headers[i - 1];
            let candidate = chars_of(n.as_str());
            assert(h.take(i as int).last() == h[i - 1]);
            if chars_eq(candidate.as_slice(), wanted.as_slice()) {
                return Some(v.clone());
            }
            assert(h.take(i as int).drop_last() =~= h.take(i - 1));
            i -= 1;
        }
        None
    }
}

/// The length of the word at the start of `s`: the characters before the first white
/// space.
pub open spec fn word_end(s: Seq<char>) -> int
    decreases s.len(),
{
    if s.len() == 0 || is_white_space(s[0]) {
        0
    } else {
        1 + word_end(s.drop_first())
    }
}

/// The first white-space separated word of `s` and what follows it.
pub open spec fn split_first_word(s: Seq<char>) -> (Seq<char>, Seq<char>) {
    let t = trim_start_ws(s);
    (t.subrange(0, word_end(t)), t.subrange(word_end(t), t.len() as int))
}

/// The method and target of a request line: its first two white-space separated
/// words, if it has two.
pub open spec fn spec_request_line(line: Seq<char>) -> Option<(Seq<char>, Seq<char>)> {
    let (method, rest) = split_first_word(line);
    let (target, _) = split_first_word(rest);
    if method.len() == 0 || target.len() == 0 {
        None
    } else {
        Some((method, target))
    }
}

proof fn lemma_word_end_bounds(s: Seq<char>)
    ensures
        0 <= word_end(s) <= s.len(),
    decreases s.len(),
{
    if s.len() > 0 && !is_white_space(s[0]) {
        lemma_word_end_bounds(s.drop_first());
    }
}

/// The position after the white space that starts at `p`.
fn skip_white_space(s: &[char], p: usize) -> (r: usize)
    requires
        p <= s@.len(),
    ensures
        p <= r <= s@.len(),
        s@.subrange(r as int, s@.len() as int) == trim_start_ws(s@.subrange(p as int, s@.len() as int)),
{
    let n = s.len();
    let mut r = p;
    while r < n && char_is_whitespace(s[r])
        invariant
            n == s@.len(),
            p <= r <= n,
            trim_start_ws(s@.subrange(p as int, n as int)) == trim_start_ws(s@.subrange(r as int, n as int)),
        decreases n - r,
    {
        assert(s@.subrange(r as int, n as int).drop_first() =~= s@.subrange(r + 1, n as int));
        r += 1;
    }
    r
}

/// The position after the word that starts at `p`.
fn skip_word(s: &[char], p: usize) -> (r: usize)
    requires
        p <= s@.len(),
    ensures
        p <= r <= s@.len(),
        r - p == word_end(s@.subrange(p as int, s@.len() as int)),
{
    let n = s.len();
    let mut r = p;
    while r < n && !char_is_whitespace(s[r])
        invariant
            n == s@.len(),
            p <= r <= n,
            word_end(s@.subrange(p as int, n as int)) == (r - p) + word_end(s@.subrange(r as int, n as int)),
        decreases n - r,
    {
        assert(s@.subrange(r as int, n as int).drop_first() =~= s@.subrange(r + 1, n as int));
        r += 1;
    }
    r
}

/// The method and target of a request line.
pub fn parse_request_line(line: &str) -> (res: Option<(String, String)>)
    ensures
        match res {
            Some((m, t)) => spec_request_line(line@) == Some((m@, t@)),
            None => spec_request_line(line@).is_none(),
        },
{
    let chars = chars_of(line);
    let s = chars.as_slice();
    let n = chars.len();
    let a = skip_white_space(s, 0);
    let b = skip_word(s, a);
    let c = skip_white_space(s, b);
    let d = skip_word(s, c);
    proof {
        let l = line@;
        assert(l.subrange(0, n as int) =~= l);
        let t = trim_start_ws(l);
        assert(t =~= l.subrange(a as int, n as int));
        let rest = t.subrange(word_end(t), t.len() as int);
        assert(rest =~= l.subrange(b as int, n as int));
        let t2 = trim_start_ws(rest);
        assert(t2 =~= l.subrange(c as int, n as int));
        assert(t.subrange(0, word_end(t)) =~= l.subrange(a as int, b as int));
        assert(t2.subrange(0, word_end(t2)) =~= l.subrange(c as int, d as int));
    }
    if b == a || d == c {
        return None;
    }
    let method = slice_chars(s, a, b);
    let target = slice_chars(s, c, d);
    Some((string_of(method.as_slice()), string_of(target.as_slice())))
}

/// `s` without trailing carriage returns and line feeds.
pub open spec fn trim_line_end(s: Seq<char>) -> Seq<char>
    decreases s.len(),
{
    if s.len() > 0 && (s.last() == '\r' || s.last() == '\n') {
        trim_line_end(s.drop_last())
    } else {
        s
    }
}

/// A line read from the connection without its line ending.
pub fn strip_line_end(line: &str) -> (res: String)
    ensures
        res@ == trim_line_end(line@),
{
    let chars = chars_of(line);
    let mut end = chars.len();
    assert(line@.subrange(0, end as int) =~= line@);
    while end > 0 && (chars[end - 1] == '\r' || chars[end - 1] == '\n')
        invariant
            end <= chars@.len(),
            chars@ == line@,
            trim_line_end(line@) == trim_line_end(line@.subrange(0, end as int)),
        decreases end,
    {
        assert(line@.subrange(0, end as int).drop_last() =~= line@.subrange(0, end - 1));
        end -= 1;
    }
    let kept = slice_chars(chars.as_slice(), 0, end);
    string_of(kept.as_slice())
}

/// A header line split at its first colon: the trimmed, lower-cased name and the
/// trimmed value.
pub open spec fn spec_header_line(line: Seq<char>) -> Option<(Seq<char>, Seq<char>)> {
    match spec_split_once(line, ':') {
        Some((name, value)) => Some((lowercase(spec_trim(name)), spec_trim(value))),
        None => None,
    }
}

/// The name and value of a header line.
pub fn parse_header_line(line: &str) -> (res: Option<(String, String)>)
    ensures
        match res {
            Some((n, v)) => spec_header_line(line@) == Some((n@, v@)),
            None => spec_header_line(line@).is_none(),
        },
{
    let chars = chars_of(line);
    match split_once_chars(chars.as_slice(), ':') {
        Some((name, value)) => {
            let trimmed_name = string_of(trim_chars(name.as_slice()).as_slice());
            let name = to_lowercase(trimmed_name.as_str());
            let value = string_of(trim_chars(value.as_slice()).as_slice());
            Some((name, value))
        },
        None => None,
    }
}

/// The length of the request body announced by `Content-Length`, if it parses.
pub fn content_length(request: &HttpRequest) -> (res: Option<usize>)
    ensures
        match last_header_value(headers_view(request.headers@), "content-length"@) {
            Some(v) => match spec_parse_unsigned(v, usize::MAX as int) {
                Some(n) => res == Some(n as usize),
                None => res.is_none(),
            },
            None => res.is_none(),
        },
{
    match request.header_value("content-length") {
        Some(v) => {
            let chars = chars_of(v.as_str());
            match parse_unsigned(chars.as_slice(), usize::MAX as u64) {
                Some(n) => Some(n as usize),
                None => None,
            }
        },
        None => None,
    }
}

// ---------------------------------------------------------------------------
// Handling requests
// ---------------------------------------------------------------------------

/// What the server does with a request, by its method.
#[derive(Debug, Clone, Copy, PartialEq, Eq, Structural)]
pub enum DavMethod {
    Options,
    Propfind,
    Head,
    Get,
    /// A WebDAV method that would change the storage; the mount is read-only.
    Write,
    Other,
}

/// The handling of a request method.
pub open spec fn spec_route_method(method: Seq<char>) -> DavMethod {
    if method == "OPTIONS"@ {
        DavMethod::Options
    } else if method == "PROPFIND"@ {
        DavMethod::Propfind
    } else if method == "HEAD"@ {
        DavMethod::Head
    } else if method == "GET"@ {
        DavMethod::Get
    } else if method == "PUT"@ || method == "DELETE"@ || method == "MKCOL"@ || method == "MOVE"@
        || method == "COPY"@ || method == "LOCK"@ || method == "UNLOCK"@ || method == "PROPPATCH"@ {
        DavMethod::Write
    } else {
        DavMethod::Other
    }
}

/// The mount is read-only: only `GET`, `HEAD`, `PROPFIND` and `OPTIONS` are served,
/// each by its own handler, and the methods that change files are refused as writes.
pub proof fn lemma_read_only_methods(method: Seq<char>)
    ensures
        spec_route_method(method) is Get <==> method == "GET"@,
        spec_route_method(method) is Head <==> method == "HEAD"@,
        spec_route_method(method) is Propfind <==> method == "PROPFIND"@,
        spec_route_method(method) is Options <==> method == "OPTIONS"@,
        method == "PUT"@ || method == "DELETE"@ || method == "MKCOL"@ || method == "MOVE"@ || method
            == "COPY"@ || method == "PROPPATCH"@ ==> spec_route_method(method) is Write,
{
    reveal_strlit("GET");
    reveal_strlit("HEAD");
    reveal_strlit("PROPFIND");
    reveal_strlit("OPTIONS");
    reveal_strlit("PUT");
    reveal_strlit("DELETE");
    reveal_strlit("MKCOL");
    reveal_strlit("MOVE");
    reveal_strlit("COPY");
    reveal_strlit("PROPPATCH");
    reveal_strlit("LOCK");
    reveal_strlit("UNLOCK");
    assert("GET"@.len() == 3 && "HEAD"@.len() == 4 && "PROPFIND"@.len() == 8 && "OPTIONS"@.len()
        == 7 && "PUT"@.len() == 3 && "DELETE"@.len() == 6 && "MKCOL"@.len() == 5 && "MOVE"@.len()
        == 4 && "COPY"@.len() == 4 && "PROPPATCH"@.len() == 9 && "LOCK"@.len() == 4
        && "UNLOCK"@.len() == 6);
    assert("GET"@ != "PUT"@) by {
        assert("GET"@[0] != "PUT"@[0]);
    }
    assert("HEAD"@ != "MOVE"@ && "HEAD"@ != "COPY"@ && "HEAD"@ != "LOCK"@) by {
        assert("HEAD"@[0] != "MOVE"@[0] && "HEAD"@[0] != "COPY"@[0] && "HEAD"@[0] != "LOCK"@[0]);
    }
    assert("OPTIONS"@ != "PROPFIND"@) by {
        assert("OPTIONS"@.len() != "PROPFIND"@.len());
    }
}

/// The handling of a request method.
pub fn route_method(method: &str) -> (res: DavMethod)
    ensures
        res == spec_route_method(method@),
        res is Get <==> method@ == "GET"@,
        res is Head <==> method@ == "HEAD"@,
        res is Propfind <==> method@ == "PROPFIND"@,
        res is Options <==> method@ == "OPTIONS"@,
        method@ == "PUT"@ || method@ == "DELETE"@ || method@ == "MKCOL"@ || method@ == "MOVE"@
            || method@ == "COPY"@ || method@ == "PROPPATCH"@ ==> res is Write,
{
    proof {
        lemma_read_only_methods(method@);
    }
    let m = chars_of(method);
    let m = m.as_slice();
    if chars_are(m, "OPTIONS") {
        DavMethod::Options
    } else if chars_are(m, "PROPFIND") {
        DavMethod::Propfind
    } else if chars_are(m, "HEAD") {
        DavMethod::Head
    } else if chars_are(m, "GET") {
        DavMethod::Get
    } else if chars_are(m, "PUT") || chars_are(m, "DELETE") || chars_are(m, "MKCOL") || chars_are(
        m,
        "MOVE",
    ) || chars_are(m, "COPY") || chars_are(m, "LOCK") || chars_are(m, "UNLOCK") || chars_are(
        m,
        "PROPPATCH",
    ) {
        DavMethod::Write
    } else {
        DavMethod::Other
    }
}

/// The first step of answering a PROPFIND, GET or HEAD request.
pub enum PathStep {
    /// Answer with this response at once.
    Respond(DavResponse),
    /// Stop the server and answer with the shutdown response.
    Shutdown,
    /// Resolve this remote path on the device.
    Resolve(String),
}

/// The first step for a request target on the mount `token`: 404 outside the mount,
/// the shutdown path, or the normalised remote path to resolve.
pub fn path_step(target: &str, token: &str) -> (res: PathStep)
    ensures
        match res {
            PathStep::Respond(r) => spec_path_request(target@, token@) is NotFound && response_is(
                r,
                404,
                seq![("Connection"@, "close"@)],
                Seq::empty(),
            ),
            PathStep::Shutdown => spec_path_request(target@, token@) is Shutdown,
            PathStep::Resolve(p) => spec_path_request(target@, token@) == RequestedPath::Remote(p@),
        },
{
    match remote_path(target, token) {
        PathRequest::Remote(p) => PathStep::Resolve(p),
        PathRequest::Shutdown => PathStep::Shutdown,
        PathRequest::NotFound => PathStep::Respond(empty_response(404)),
    }
}

/// Whether a PROPFIND lists the children too: unless its `Depth` is `0` (absent means
/// infinity).
pub open spec fn spec_include_children(depth: Option<Seq<char>>) -> bool {
    match depth {
        Some(d) => d != "0"@,
        None => true,
    }
}

/// A PROPFIND leaves the children out exactly when its depth is `0`: `Depth: 1`, as
/// the macOS client sends to list a folder, `infinity` and no depth all list them.
pub proof fn lemma_only_depth_zero_omits_children(depth: Option<Seq<char>>)
    ensures
        !spec_include_children(depth) <==> depth == Some("0"@),
        spec_include_children(Some("1"@)),
        spec_include_children(Some("infinity"@)),
        spec_include_children(None),
        !spec_include_children(Some("0"@)),
{
    reveal_strlit("0");
    reveal_strlit("1");
    reveal_strlit("infinity");
    assert("1"@[0] != "0"@[0]);
    assert("infinity"@.len() != "0"@.len());
}

/// Whether a PROPFIND request lists the children of what it names.
pub fn include_children(request: &HttpRequest) -> (res: bool)
    ensures
        res == spec_include_children(last_header_value(headers_view(request.headers@), "depth"@)),
        !res <==> last_header_value(headers_view(request.headers@), "depth"@) == Some("0"@),
{
    proof {
        lemma_only_depth_zero_omits_children(last_header_value(headers_view(request.headers@), "depth"@));
    }
    match request.header_value("depth") {
        Some(d) => {
            let c = chars_of(d.as_str());
            !chars_are(c.as_slice(), "0")
        },
        None => true,
    }
}

/// The folder whose children a PROPFIND lists.
#[derive(Debug, Clone, Copy, PartialEq, Eq, Structural)]
pub enum ListingRequest {
    Root,
    Folder(u32),
}

/// Which listing a PROPFIND needs: the root's children for the root, a folder's
/// children for a folder, none for a file or when the depth is `0`.
pub fn propfind_listing(target: &RemoteTarget, include_children: bool) -> (res: Option<ListingRequest>)
    ensures
        res == (if !include_children {
            None
        } else {
            match target {
                RemoteTarget::Root => Some(ListingRequest::Root),
                RemoteTarget::Object(o) => if is_folder_object(*o) {
                    Some(ListingRequest::Folder(o.handle))
                } else {
                    None
                },
            }
        }),
{
    if !include_children {
        return None;
    }
    match target {
        RemoteTarget::Root => Some(ListingRequest::Root),
        RemoteTarget::Object(o) => if o.is_folder() {
            Some(ListingRequest::Folder(o.handle))
        } else {
            None
        },
    }
}

/// The folder in which listed children live: `/` for the root, the path otherwise.
pub open spec fn listing_parent(resolved: ResolvedPath) -> Seq<char> {
    if resolved.target is Root {
        seq!['/']
    } else {
        resolved.path@
    }
}

/// The entries of a PROPFIND answer for the resolved path: first the entry for what
/// the path names (its parent folder is that of the path), then one entry per listed
/// child, inside `/` for the root and inside the path otherwise.
pub fn propfind_entries(token: &str, resolved: ResolvedPath, children: Vec<ObjectInfo>) -> (res: Vec<DavEntry>)
    ensures
        res@.len() == children@.len() + 1,
        match resolved.target {
            RemoteTarget::Root => is_root_entry(res@[0], token@),
            RemoteTarget::Object(o) => is_object_entry(res@[0], token@, spec_parent_path(resolved.path@), o),
        },
        forall|i: int|
            0 <= i < children@.len() ==> #[trigger] is_object_entry(
                res@[i + 1],
                token@,
                listing_parent(resolved),
                children@[i],
            ),
{
    let ghost target = resolved.target;
    let ghost path = resolved.path@;
    let ghost lp = listing_parent(resolved);
    let mut entries: Vec<DavEntry> = Vec::new();
    let mut parent = String::new();
    match resolved.target {
        RemoteTarget::Root => {
            entries.push(DavEntry::root(token));
            push_char(&mut parent, '/');
        },
        RemoteTarget::Object(object) => {
            let object_parent = parent_remote_path(resolved.path.as_str());
            entries.push(DavEntry::from_object(token, object_parent.as_str(), object));
            parent = resolved.path;
        },
    }
    assert(parent@ == lp);
    let ghost first = entries@[0];
    let n = children.len();
    let mut rest = children;
    let ghost all = rest@;
    let mut i: usize = 0;
    while i < n
        invariant
            n == all.len(),
            i <= n,
            rest@ == all.subrange(i as int, n as int),
            entries@.len() == i + 1,
            entries@[0] == first,
            forall|j: int|
                0 <= j < i ==> #[trigger] is_object_entry(entries@[j + 1], token@, parent@, all[j]),
        decreases n - i,
    {
        let child = rest.remove(0);
        assert(child == all[i as int]);
        entries.push(DavEntry::from_object(token, parent.as_str(), child));
        assert(rest@ =~= all.subrange(i + 1, n as int));
        i += 1;
    }
    entries
}

/// What answering a GET or HEAD for a resolved path amounts to.
pub enum GetPlan {
    /// Answer with this response and nothing more.
    Respond(DavResponse),
    /// Send this head, then (for GET, when `length` is not zero) `length` bytes of the
    /// object `handle` from `offset`.
    Send { head: DavResponse, handle: u32, offset: u64, length: u64 },
}

/// The headers that start a file's content: byte ranges accepted, its type and length.
pub open spec fn content_headers(content_type: Seq<char>, length: u64) -> Seq<(Seq<char>, Seq<char>)> {
    seq![("Accept-Ranges"@, "bytes"@), ("Content-Type"@, content_type), ("Content-Length"@, spec_decimal(length as nat)), ("Connection"@, "close"@)]
}

/// The `Content-Range` value of a satisfied range.
pub open spec fn spec_content_range(r: ByteRange, size: u64) -> Seq<char> {
    "bytes "@ + spec_decimal(r.start as nat) + "-"@ + spec_decimal(r.end as nat) + "/"@ + spec_decimal(size as nat)
}

/// Whether `plan` is the right answer to a GET or HEAD of `target` with the `Range`
/// header `range`: 403 for the root and for folders, 416 for a range that cannot be
/// satisfied, 206 with the range's bytes, or 200 with the whole file.
pub open spec fn is_get_plan(plan: GetPlan, target: RemoteTarget, range: Option<Seq<char>>) -> bool {
    match target {
        RemoteTarget::Root => plan matches GetPlan::Respond(r) && response_is(r, 403, seq![("Connection"@, "close"@)], Seq::empty()),
        RemoteTarget::Object(o) => if is_folder_object(o) {
            plan matches GetPlan::Respond(r) && response_is(r, 403, seq![("Connection"@, "close"@)], Seq::empty())
        } else {
            let content_type = spec_content_type(o.filename@);
            match range {
                Some(h) => match spec_parse_range(h, o.size) {
                    None => plan matches GetPlan::Respond(r) && response_is(
                        r,
                        416,
                        seq![("Content-Range"@, "bytes */"@ + spec_decimal(o.size as nat)), ("Connection"@, "close"@)],
                        Seq::empty(),
                    ),
                    Some(br) => plan matches GetPlan::Send { head, handle, offset, length } && handle
                        == o.handle && offset == br.start && length == br.end - br.start + 1 && response_is(
                        head,
                        206,
                        content_headers(content_type, length) + seq![("Content-Range"@, spec_content_range(br, o.size))],
                        Seq::empty(),
                    ),
                },
                None => plan matches GetPlan::Send { head, handle, offset, length } && handle == o.handle
                    && offset == 0 && length == o.size && response_is(
                    head,
                    200,
                    content_headers(content_type, o.size),
                    Seq::empty(),
                ),
            }
        },
    }
}

/// Plans the answer to a GET or HEAD of a resolved path with the given `Range` header.
pub fn get_plan(target: &RemoteTarget, range: Option<&str>) -> (res: GetPlan)
    ensures
        is_get_plan(
            res,
            *target,
            match range {
                Some(h) => Some(h@),
                None => None,
            },
        ),
{
    let object = match target {
        RemoteTarget::Root => {
            return GetPlan::Respond(empty_response(403));
        },
        RemoteTarget::Object(o) => o,
    };
    if object.is_folder() {
        return GetPlan::Respond(empty_response(403));
    }
    let size = object.size;
    let content_type = content_type_for_name(object.filename.as_str());
    let byte_range = match range {
        Some(h) => match parse_range_header(h, size) {
            Ok(r) => Some(r),
            Err(()) => {
                let mut value = String::new();
                value.append("bytes */");
                push_decimal(&mut value, size);
                let headers = vec![(String::from_str("Content-Range"), value), header("Connection", "close")];
                assert(headers_view(headers@) =~= seq![("Content-Range"@, "bytes */"@ + spec_decimal(size as nat)), ("Connection"@, "close"@)]);
                return GetPlan::Respond(DavResponse { status: 416, headers, body: String::new() });
            },
        },
        None => None,
    };
    let (status, offset, length) = match byte_range {
        Some(r) => (206u16, r.start, r.end - r.start + 1),
        None => (200u16, 0u64, size),
    };
    let mut length_text = String::new();
    push_decimal(&mut length_text, length);
    let mut headers = vec![
        header("Accept-Ranges", "bytes"),
        header("Content-Type", content_type),
        (String::from_str("Content-Length"), length_text),
        header("Connection", "close"),
    ];
    assert(headers_view(headers@) =~= content_headers(content_type@, length));
    if let Some(r) = byte_range {
        let mut value = String::new();
        value.append("bytes ");
        push_decimal(&mut value, r.start);
        value.append("-");
        push_decimal(&mut value, r.end);
        value.append("/");
        push_decimal(&mut value, size);
        let ghost before = headers_view(headers@);
        headers.push((String::from_str("Content-Range"), value));
        assert(headers_view(headers@) =~= before + seq![("Content-Range"@, spec_content_range(r, size))]);
    }
    GetPlan::Send {
        head: DavResponse { status, headers, body: String::new() },
        handle: object.handle,
        offset,
        length,
    }
}

// ---------------------------------------------------------------------------
// Reading file ranges from the device
// ---------------------------------------------------------------------------

/// The MTP response code "Operation Not Supported".
pub const RESPONSE_OPERATION_NOT_SUPPORTED: u16 = 0x2005;

/// The MTP response code "Parameter Not Supported".
pub const RESPONSE_PARAMETER_NOT_SUPPORTED: u16 = 0x2006;

/// The MTP response code "Invalid Object Handle".
pub const RESPONSE_INVALID_OBJECT_HANDLE: u16 = 0x2009;

/// Whether a failed partial read means that partial reads are not available: a
/// protocol error with one of three response codes (`code` is `None` for other
/// failures).
pub fn is_partial_unsupported(code: Option<u16>) -> (res: bool)
    ensures
        res == (code == Some(RESPONSE_OPERATION_NOT_SUPPORTED) || code == Some(
            RESPONSE_PARAMETER_NOT_SUPPORTED,
        ) || code == Some(RESPONSE_INVALID_OBJECT_HANDLE)),
{
    match code {
        Some(c) => c == RESPONSE_OPERATION_NOT_SUPPORTED || c == RESPONSE_PARAMETER_NOT_SUPPORTED
            || c == RESPONSE_INVALID_OBJECT_HANDLE,
        None => false,
    }
}

/// Which partial-read operations the device has not refused yet.
#[derive(Debug, Clone, Copy, PartialEq, Eq, Structural)]
pub struct PartialReadState {
    pub partial64_available: bool,
    pub partial32_available: bool,
}

/// The partial-read operations.
#[derive(Debug, Clone, Copy, PartialEq, Eq, Structural)]
pub enum PartialOp {
    /// `GetPartialObject64`: any offset.
    Partial64,
    /// `GetPartialObject`: offsets that fit in 32 bits.
    Partial32,
}

/// What to do next while reading one chunk.
#[derive(Debug, Clone, Copy, PartialEq, Eq, Structural)]
pub enum PartialNext {
    /// Ask the device with this operation.
    Try(PartialOp),
    /// Give up with the failure the device just reported.
    Fail,
    /// Give up: no operation can serve this offset ("operation not supported").
    Unsupported,
}

/// The step that follows when `GetPartialObject64` is not (or no longer) an option.
pub open spec fn after_partial64(partial32_available: bool, offset: u64) -> PartialNext {
    if partial32_available && offset <= u32::MAX {
        PartialNext::Try(PartialOp::Partial32)
    } else {
        PartialNext::Unsupported
    }
}

impl PartialReadState {
    /// Both operations are assumed available until the device refuses one.
    pub fn new() -> (res: Self)
        ensures
            res.partial64_available && res.partial32_available,
    {
        PartialReadState { partial64_available: true, partial32_available: true }
    }

    /// The first step of reading a chunk at `offset`: the 64-bit operation while it is
    /// available, then the 32-bit one for offsets that fit.
    pub fn begin(&self, offset: u64) -> (res: PartialNext)
        ensures
            res == (if self.partial64_available {
                PartialNext::Try(PartialOp::Partial64)
            } else {
                after_partial64(self.partial32_available, offset)
            }),
    {
        if self.partial64_available {
            PartialNext::Try(PartialOp::Partial64)
        } else if self.partial32_available && offset <= 0xffff_ffffu64 {
            PartialNext::Try(PartialOp::Partial32)
        } else {
            PartialNext::Unsupported
        }
    }

    /// The step after `op` failed at `offset`; `unsupported` tells whether the failure
    /// means that the operation is not supported, which marks it unavailable for good.
    /// After the 64-bit operation is refused, the 32-bit one is tried if it is still
    /// available, else that refusal is reported.
    pub fn after_failure(&mut self, op: PartialOp, unsupported: bool, offset: u64) -> (res: PartialNext)
        ensures
            match op {
                PartialOp::Partial64 => if unsupported {
                    &&& !final(self).partial64_available
                    &&& final(self).partial32_available == old(self).partial32_available
                    &&& res == (if !old(self).partial32_available {
                        PartialNext::Fail
                    } else {
                        after_partial64(true, offset)
                    })
                } else {
                    *final(self) == *old(self) && res == PartialNext::Fail
                },
                PartialOp::Partial32 => {
                    &&& final(self).partial64_available == old(self).partial64_available
                    &&& final(self).partial32_available == (old(self).partial32_available && !unsupported)
                    &&& res == PartialNext::Fail
                },
            },
    {
        match op {
            PartialOp::Partial64 => {
                if !unsupported {
                    return PartialNext::Fail;
                }
                self.partial64_available = false;
                if !self.partial32_available {
                    PartialNext::Fail
                } else if offset <= 0xffff_ffffu64 {
                    PartialNext::Try(PartialOp::Partial32)
                } else {
                    PartialNext::Unsupported
                }
            },
            PartialOp::Partial32 => {
                if unsupported {
                    self.partial32_available = false;
                }
                PartialNext::Fail
            },
        }
    }
}

/// The progress of sending the bytes `[cursor, end)` of a file by partial reads.
#[derive(Debug, Clone, Copy, PartialEq, Eq, Structural)]
pub struct RangeTransfer {
    pub cursor: u64,
    pub end: u64,
}

impl RangeTransfer {
    /// A transfer of `length` bytes from `offset`; the end saturates at the largest
    /// offset.
    pub fn new(offset: u64, length: u64) -> (res: Self)
        ensures
            res.cursor == offset,
            res.end == (if offset + length > u64::MAX {
                u64::MAX as int
            } else {
                offset + length
            }),
    {
        RangeTransfer { cursor: offset, end: offset.saturating_add(length) }
    }

    /// The size of the next read: what is left, at most one chunk; `None` when done.
    pub fn next_chunk(&self) -> (res: Option<u32>)
        ensures
            match res {
                Some(n) => self.cursor < self.end && n == (if self.end - self.cursor
                    < PARTIAL_CHUNK_SIZE {
                    self.end - self.cursor
                } else {
                    PARTIAL_CHUNK_SIZE as int
                }),
                None => self.cursor >= self.end,
            },
    {
        if self.cursor >= self.end {
            return None;
        }
        let left = self.end - self.cursor;
        let size = if left < PARTIAL_CHUNK_SIZE {
            left
        } else {
            PARTIAL_CHUNK_SIZE
        };
        Some(size as u32)
    }

    /// Records that `n` bytes were sent.
    pub fn advance(&mut self, n: u64)
        requires
            old(self).cursor + n <= u64::MAX,
        ensures
            final(self).cursor == old(self).cursor + n,
            final(self).end == old(self).end,
    {
        self.cursor = self.cursor + n;
    }
}

/// The progress of sending `length` bytes from `offset` out of a stream of the whole
/// file, when partial reads are not available.
#[derive(Debug, Clone, Copy, PartialEq, Eq, Structural)]
pub struct StreamWindow {
    pub offset: u64,
    pub skipped: u64,
    pub remaining: u64,
}

impl StreamWindow {
    /// A window of `length` bytes from `offset`; nothing skipped yet.
    pub fn new(offset: u64, length: u64) -> (res: Self)
        ensures
            res.offset == offset,
            res.skipped == 0,
            res.remaining == length,
    {
        StreamWindow { offset, skipped: 0, remaining: length }
    }

    /// Takes the next chunk of `chunk_len` bytes of the stream: returns how many of its
    /// first bytes to drop (those before the offset) and how many after them to send.
    pub fn take(&mut self, chunk_len: u64) -> (res: (u64, u64))
        requires
            old(self).skipped <= old(self).offset,
        ensures
            final(self).offset == old(self).offset,
            final(self).skipped <= final(self).offset,
            res.0 == (if old(self).offset - old(self).skipped < chunk_len {
                old(self).offset - old(self).skipped
            } else {
                chunk_len as int
            }),
            final(self).skipped == old(self).skipped + res.0,
            res.1 == (if old(self).remaining < chunk_len - res.0 {
                old(self).remaining as int
            } else {
                chunk_len - res.0
            }),
            final(self).remaining == old(self).remaining - res.1,
    {
        let mut skip: u64 = 0;
        if self.skipped < self.offset {
            let wanted = self.offset - self.skipped;
            skip = if wanted < chunk_len {
                wanted
            } else {
                chunk_len
            };
            self.skipped = self.skipped + skip;
        }
        let left = chunk_len - skip;
        let write = if self.remaining < left {
            self.remaining
        } else {
            left
        };
        self.remaining = self.remaining - write;
        (skip, write)
    }
}

// ---------------------------------------------------------------------------
// Mounting and unmounting
// ---------------------------------------------------------------------------

/// What `tp7 mount` reports.
#[derive(Debug, Clone)]
pub struct MountReport {
    pub mountpoint: String,
    pub url: String,
    pub pid: u32,
    pub serial_number: Option<String>,
    pub switched: bool,
    pub read_write: bool,
    pub partial_reads: bool,
}

/// A mount that `tp7 unmount` took down.
#[derive(Debug, Clone)]
pub struct UnmountedMount {
    pub mountpoint: String,
    pub pid: Option<u32>,
}

/// A mount that `tp7 unmount` could not take down.
#[derive(Debug, Clone)]
pub struct UnmountFailure {
    pub mountpoint: String,
    pub message: String,
}

/// What `tp7 unmount` reports.
#[derive(Debug, Clone)]
pub struct UnmountReport {
    pub requested_mountpoint: Option<String>,
    pub unmounted: Vec<UnmountedMount>,
    pub failed: Vec<UnmountFailure>,
}

/// The record a running mount leaves behind, so that `tp7 unmount` can find its server.
#[derive(Debug, Clone)]
pub struct MountState {
    pub mountpoint: String,
    pub url: String,
    pub port: u16,
    pub token: String,
    pub pid: u32,
    pub serial_number: Option<String>,
    pub read_write: bool,
}

/// A mount record together with the file it was read from.
#[derive(Debug, Clone)]
pub struct StoredMountState {
    pub state: MountState,
    pub path: String,
}

/// A mount point that `tp7 unmount` works on, with its record when it has one.
#[derive(Debug, Clone)]
pub struct UnmountTarget {
    pub mountpoint: String,
    pub state: Option<StoredMountState>,
}

/// What the server found out before it started answering requests.
#[derive(Debug, Clone)]
pub struct ServerReady {
    pub serial_number: Option<String>,
    pub switched: bool,
    pub partial_reads: bool,
}

/// The checks `tp7 mount` makes before anything else: read-write mounts are not
/// available, and mounting needs macOS.
pub fn check_mount_request(read_write: bool, is_macos: bool) -> (res: Result<(), AppError>)
    ensures
        read_write ==> (res matches Err(AppError::MtpUnsupported { message }) && message@
            == "read-write mounts need staged whole-file writes and are not available yet"@),
        !read_write && !is_macos ==> (res matches Err(AppError::NotImplemented { command })
            && command@ == "mount is currently implemented through macOS mount_webdav"@),
        !read_write && is_macos ==> res is Ok,
{
    if read_write {
        return Err(
            AppError::MtpUnsupported {
                message: String::from_str(
                    "read-write mounts need staged whole-file writes and are not available yet",
                ),
            },
        );
    }
    if !is_macos {
        return Err(
            AppError::NotImplemented {
                command: String::from_str("mount is currently implemented through macOS mount_webdav"),
            },
        );
    }
    Ok(())
}

/// The URL the local server answers at.
pub fn mount_url(port: u16, token: &str) -> (res: String)
    ensures
        res@ == "http://127.0.0.1:"@ + spec_decimal(port as nat) + "/"@ + token@ + "/"@,
{
    let mut url = String::new();
    url.append("http://127.0.0.1:");
    push_decimal(&mut url, port as u64);
    url.append("/");
    url.append(token);
    url.append("/");
    url
}

/// The secret first path component of a mount, from a hash: `tp7-` and 16 hex digits.
pub fn format_mount_token(hash: u64) -> (res: String)
    ensures
        res@ == "tp7-"@ + spec_hex_padded(hash as nat, 16, false),
{
    let mut token = String::new();
    token.append("tp7-");
    push_hex_padded(&mut token, hash, 16, false);
    token
}

/// The `index`-th mount point to try when none is given: `/Volumes/TP-7`, then
/// `/Volumes/TP-7 2`, `/Volumes/TP-7 3`, ...
pub fn mountpoint_candidate(index: u32) -> (res: String)
    ensures
        res@ == "/Volumes/"@ + (if index == 0 {
            "TP-7"@
        } else {
            "TP-7 "@ + spec_decimal(index as nat + 1)
        }),
{
    let mut path = String::new();
    path.append("/Volumes/");
    if index == 0 {
        path.append("TP-7");
    } else {
        path.append("TP-7 ");
        push_decimal(&mut path, index as u64 + 1);
    }
    path
}

/// Whether a candidate mount point can be used: it does not exist, or it is an empty
/// folder on which nothing is mounted.
pub fn candidate_usable(present: bool, is_dir: bool, mounted: bool, empty: bool) -> (res: bool)
    ensures
        res == (!present || (is_dir && !mounted && empty)),
{
    !present || (is_dir && !mounted && empty)
}

/// How many default mount-point names are tried.
pub const MOUNTPOINT_CANDIDATES: u32 = 100;

/// What the default mount-point search does after looking at candidate `index`.
#[derive(Debug, Clone, Copy, PartialEq, Eq, Structural)]
pub enum MountpointStep {
    /// The candidate is free: mount there.
    Use,
    /// Look at the candidate with this index next.
    Next(u32),
    /// Every candidate is taken.
    Exhausted,
}

/// The default mount-point search, candidate by candidate: the first usable candidate
/// is taken; after the last one the search gives up.
pub fn next_mountpoint(index: u32, usable: bool) -> (res: MountpointStep)
    requires
        index < MOUNTPOINT_CANDIDATES,
    ensures
        usable ==> res == MountpointStep::Use,
        !usable && index + 1 < MOUNTPOINT_CANDIDATES ==> res == MountpointStep::Next((index + 1) as u32),
        !usable && index + 1 == MOUNTPOINT_CANDIDATES ==> res == MountpointStep::Exhausted,
{
    if usable {
        MountpointStep::Use
    } else if index + 1 < MOUNTPOINT_CANDIDATES {
        MountpointStep::Next(index + 1)
    } else {
        MountpointStep::Exhausted
    }
}

/// The failure when every candidate mount point is taken.
pub fn no_free_mountpoint() -> (res: AppError)
    ensures
        res matches AppError::Mount { message } && message@
            == "could not find an available /Volumes/TP-7 mount point"@,
{
    AppError::Mount {
        message: String::from_str("could not find an available /Volumes/TP-7 mount point"),
    }
}

/// What to do with a requested mount point.
#[derive(Debug, Clone, Copy, PartialEq, Eq, Structural)]
pub enum MountpointAction {
    /// Mount on the existing folder.
    Use,
    /// Create the folder first.
    Create,
}

/// Checks a mount point at `path`: a missing one is created; an existing one must be a
/// folder, and empty unless something is mounted there already (`empty` is only
/// consulted then).
pub fn check_mountpoint(path: &str, present: bool, is_dir: bool, mounted: bool, empty: bool) -> (res: Result<MountpointAction, AppError>)
    ensures
        !present ==> res == Ok::<MountpointAction, AppError>(MountpointAction::Create),
        present && !is_dir ==> (res matches Err(AppError::LocalPathIsFile { path: p }) && p@
            == path@),
        present && is_dir && !mounted && !empty ==> (res matches Err(
            AppError::FileSystem { path: p, message },
        ) && p@ == path@ && message@ == "mount point must be empty"@),
        present && is_dir && (mounted || empty) ==> res == Ok::<MountpointAction, AppError>(
            MountpointAction::Use,
        ),
{
    if !present {
        return Ok(MountpointAction::Create);
    }
    if !is_dir {
        return Err(AppError::LocalPathIsFile { path: String::from_str(path) });
    }
    if !mounted && !empty {
        return Err(
            AppError::FileSystem {
                path: String::from_str(path),
                message: String::from_str("mount point must be empty"),
            },
        );
    }
    Ok(MountpointAction::Use)
}

/// The MTP operation `GetPartialObject`.
pub const OPERATION_GET_PARTIAL_OBJECT: u16 = 0x101B;

/// The MTP operation `GetPartialObject64`.
pub const OPERATION_GET_PARTIAL_OBJECT_64: u16 = 0x95C1;

/// Whether a device that supports `operations` can serve byte ranges by partial reads.
pub fn supports_partial_reads(operations: &[u16]) -> (res: bool)
    ensures
        res == (operations@.contains(OPERATION_GET_PARTIAL_OBJECT_64) || operations@.contains(
            OPERATION_GET_PARTIAL_OBJECT,
        )),
{
    let n = operations.len();
    let mut found = false;
    for i in 0..n
        invariant
            n == operations@.len(),
            found == exists|j: int|
                0 <= j < i && (operations@[j] == OPERATION_GET_PARTIAL_OBJECT_64 || operations@[j]
                    == OPERATION_GET_PARTIAL_OBJECT),
    {
        if operations[i] == OPERATION_GET_PARTIAL_OBJECT_64 || operations[i]
            == OPERATION_GET_PARTIAL_OBJECT {
            found = true;
        }
    }
    proof {
        if found {
            let j = choose|j: int|
                0 <= j < n && (operations@[j] == OPERATION_GET_PARTIAL_OBJECT_64 || operations@[j]
                    == OPERATION_GET_PARTIAL_OBJECT);
            if operations@[j] == OPERATION_GET_PARTIAL_OBJECT_64 {
                assert(operations@.contains(OPERATION_GET_PARTIAL_OBJECT_64));
            } else {
                assert(operations@.contains(OPERATION_GET_PARTIAL_OBJECT));
            }
        }
    }
    found
}

/// The report that `tp7 mount` prints once the mount is up.
pub fn mount_report(state: &MountState, ready: &ServerReady) -> (res: MountReport)
    ensures
        res.mountpoint@ == state.mountpoint@,
        res.url@ == state.url@,
        res.pid == state.pid,
        res.serial_number == ready.serial_number,
        res.switched == ready.switched,
        res.read_write == state.read_write,
        res.partial_reads == ready.partial_reads,
{
    MountReport {
        mountpoint: state.mountpoint.clone(),
        url: state.url.clone(),
        pid: state.pid,
        serial_number: match &ready.serial_number {
            Some(s) => Some(s.clone()),
            None => None,
        },
        switched: ready.switched,
        read_write: state.read_write,
        partial_reads: ready.partial_reads,
    }
}

/// The trimmed text of a command's output stream.
pub open spec fn output_text(bytes: Seq<u8>) -> Seq<char> {
    spec_trim(utf8_lossy(bytes))
}

/// The trimmed text of a command's output stream.
fn trimmed_output(bytes: &[u8]) -> (res: String)
    ensures
        res@ == output_text(bytes@),
{
    let text = from_utf8_lossy(bytes);
    let chars = chars_of(text.as_str());
    string_of(trim_chars(chars.as_slice()).as_slice())
}

/// The failure of `mount_webdav`: its error output, else its standard output, else its
/// exit status.
pub fn mount_failure(stderr: &[u8], stdout: &[u8], status: &str) -> (res: AppError)
    ensures
        res matches AppError::Mount { message } && message@ == (if output_text(stderr@).len()
            > 0 {
            output_text(stderr@)
        } else if output_text(stdout@).len() > 0 {
            output_text(stdout@)
        } else {
            "mount_webdav exited with "@ + status@
        }),
{
    let err = trimmed_output(stderr);
    let out = trimmed_output(stdout);
    let message = if err.as_str().is_empty() {
        out
    } else {
        err
    };
    if message.as_str().is_empty() {
        let mut m = String::new();
        m.append("mount_webdav exited with ");
        m.append(status);
        AppError::Mount { message: m }
    } else {
        AppError::Mount { message }
    }
}

/// The message for a failed command: `command: ` and its error output, else its
/// standard output, else `command exited with ` and its exit status.
pub fn command_error_message(command: &str, stderr: &[u8], stdout: &[u8], status: &str) -> (res: String)
    ensures
        res@ == (if output_text(stderr@).len() > 0 {
            command@ + ": "@ + output_text(stderr@)
        } else if output_text(stdout@).len() > 0 {
            command@ + ": "@ + output_text(stdout@)
        } else {
            command@ + " exited with "@ + status@
        }),
{
    let err = trimmed_output(stderr);
    let out = trimmed_output(stdout);
    let mut m = String::new();
    m.append(command);
    if !err.as_str().is_empty() {
        m.append(": ");
        m.append(err.as_str());
    } else if !out.as_str().is_empty() {
        m.append(": ");
        m.append(out.as_str());
    } else {
        m.append(" exited with ");
        m.append(status);
    }
    m
}

/// What a line of `mount` output holds for something mounted on `mountpoint`.
pub open spec fn mount_needle(mountpoint: Seq<char>) -> Seq<char> {
    " on "@ + mountpoint + " ("@
}

/// Whether the output of `mount` lists something mounted on `mountpoint`: some line
/// holds ` on {mountpoint} (`.
pub open spec fn spec_listing_mentions(text: Seq<char>, mountpoint: Seq<char>) -> bool {
    exists|i: int|
        0 <= i < spec_lines(text).len() && #[trigger] contains_seq(
            spec_lines(text)[i],
            mount_needle(mountpoint),
        )
}

/// Whether the output of `mount` lists something mounted on `mountpoint`.
pub fn mount_listing_mentions(stdout: &[u8], mountpoint: &str) -> (res: bool)
    ensures
        res == spec_listing_mentions(utf8_lossy(stdout@), mountpoint@),
{
    let text = from_utf8_lossy(stdout);
    let chars = chars_of(text.as_str());
    let lines = lines_of(chars.as_slice());
    let mut needle_string = String::new();
    needle_string.append(" on ");
    needle_string.append(mountpoint);
    needle_string.append(" (");
    let needle = chars_of(needle_string.as_str());
    assert(needle@ =~= mount_needle(mountpoint@));
    let ghost ls = spec_lines(utf8_lossy(stdout@));
    let n = lines.len();
    for i in 0..n
        invariant
            ls == spec_lines(utf8_lossy(stdout@)),
            n == ls.len(),
            n == lines@.len(),
            forall|j: int| 0 <= j < n ==> #[trigger] lines@[j]@ == ls[j],
            needle@ == mount_needle(mountpoint@),
            forall|j: int| 0 <= j < i ==> !#[trigger] contains_seq(ls[j], needle@),
    {
        if contains_chars(lines[i].as_slice(), needle.as_slice()) {
            assert(lines@[i as int]@ == ls[i as int]);
            assert(contains_seq(ls[i as int], mount_needle(mountpoint@)));
            return true;
        }
    }
    false
}

/// The request that asks the server of a mount to stop.
pub fn shutdown_request(token: &str) -> (res: String)
    ensures
        res@ == "GET /"@ + token@ + SHUTDOWN_PATH@
            + " HTTP/1.1\r\nHost: 127.0.0.1\r\nConnection: close\r\n\r\n"@,
{
    let mut r = String::new();
    r.append("GET /");
    r.append(token);
    r.append(SHUTDOWN_PATH);
    r.append(" HTTP/1.1\r\nHost: 127.0.0.1\r\nConnection: close\r\n\r\n");
    r
}

/// The file name of the record of the mount served by process `pid`.
pub fn state_file_name(pid: u32) -> (res: String)
    ensures
        res@ == "mount-"@ + spec_decimal(pid as nat) + ".json"@,
{
    let mut name = String::new();
    name.append("mount-");
    push_decimal(&mut name, pid as u64);
    name.append(".json");
    name
}

/// The folder under the home folder where mount records are kept.
pub open spec fn spec_state_dir(home: Seq<char>) -> Seq<char> {
    crate::local_path::joined_path(
        crate::local_path::joined_path(
            crate::local_path::joined_path(
                crate::local_path::joined_path(home, "Library"@),
                "Application Support"@,
            ),
            "tp7"@,
        ),
        "mounts"@,
    )
}

/// The folder where mount records are kept, given the home folder; an error when `HOME`
/// is not set.
pub fn state_dir(home: Option<&str>) -> (res: Result<String, AppError>)
    ensures
        match home {
            Some(h) => res matches Ok(d) && d@ == spec_state_dir(h@),
            None => res matches Err(AppError::FileSystem { path, message }) && path@ == "$HOME"@
                && message@ == "HOME is not set"@,
        },
{
    match home {
        Some(h) => {
            let library = crate::local_path::join_path(h, "Library");
            let support = crate::local_path::join_path(library.as_str(), "Application Support");
            let tool = crate::local_path::join_path(support.as_str(), "tp7");
            Ok(crate::local_path::join_path(tool.as_str(), "mounts"))
        },
        None => Err(
            AppError::FileSystem {
                path: String::from_str("$HOME"),
                message: String::from_str("HOME is not set"),
            },
        ),
    }
}

/// Whether a file of the records folder is a mount record: its extension is `json`.
pub fn is_state_file(path: &str) -> (res: bool)
    ensures
        res == (crate::local_path::path_extension(path@) == Some("json"@)),
{
    match crate::local_path::extension_of(path) {
        Some(e) => chars_are(chars_of(e.as_str()).as_slice(), "json"),
        None => false,
    }
}

/// The records, in order, of the mounts on `mountpoint`.
pub open spec fn states_on(states: Seq<StoredMountState>, mountpoint: Seq<char>) -> Seq<StoredMountState>
    decreases states.len(),
{
    if states.len() == 0 {
        Seq::empty()
    } else {
        let before = states_on(states.drop_last(), mountpoint);
        if states.last().state.mountpoint@ == mountpoint {
            before.push(states.last())
        } else {
            before
        }
    }
}

/// Whether `t` is the mount point `mountpoint` with the record `state`.
pub open spec fn target_is(t: UnmountTarget, mountpoint: Seq<char>, state: Option<StoredMountState>) -> bool {
    t.mountpoint@ == mountpoint && t.state == state
}

/// Whether `targets` are what `tp7 unmount` works on: every recorded mount when no
/// mount point was asked for; otherwise the records of the requested (absolute) mount
/// point, or that mount point alone when it has none.
pub open spec fn is_unmount_plan(
    targets: Seq<UnmountTarget>,
    requested: Option<Seq<char>>,
    states: Seq<StoredMountState>,
) -> bool {
    match requested {
        None => targets.len() == states.len() && forall|i: int|
            0 <= i < states.len() ==> target_is(
                #[trigger] targets[i],
                states[i].state.mountpoint@,
                Some(states[i]),
            ),
        Some(r) => {
            let on = states_on(states, r);
            if on.len() == 0 {
                targets.len() == 1 && target_is(targets[0], r, None)
            } else {
                targets.len() == on.len() && forall|i: int|
                    0 <= i < on.len() ==> target_is(#[trigger] targets[i], r, Some(on[i]))
            }
        },
    }
}

/// The mount points `tp7 unmount` works on; `requested` is the absolute form of the
/// mount point given on the command line.
pub fn unmount_targets(requested: Option<String>, states: Vec<StoredMountState>) -> (res: Vec<UnmountTarget>)
    ensures
        is_unmount_plan(
            res@,
            match requested {
                Some(r) => Some(r@),
                None => None,
            },
            states@,
        ),
{
    let ghost all = states@;
    let n = states.len();
    let mut rest = states;
    let mut targets: Vec<UnmountTarget> = Vec::new();
    match requested {
        None => {
            let mut i: usize = 0;
            while i < n
                invariant
                    n == all.len(),
                    i <= n,
                    rest@ == all.subrange(i as int, n as int),
                    targets@.len() == i,
                    forall|j: int|
                        0 <= j < i ==> target_is(
                            #[trigger] targets@[j],
                            all[j].state.mountpoint@,
                            Some(all[j]),
                        ),
                decreases n - i,
            {
                let state = rest.remove(0);
                assert(state == all[i as int]);
                assert(rest@ =~= all.subrange(i + 1, n as int));
                targets.push(UnmountTarget { mountpoint: state.state.mountpoint.clone(), state: Some(state) });
                i += 1;
            }
            targets
        },
        Some(r) => {
            let wanted = chars_of(r.as_str());
            let mut i: usize = 0;
            while i < n
                invariant
                    n == all.len(),
                    i <= n,
                    rest@ == all.subrange(i as int, n as int),
                    wanted@ == r@,
                    targets@.len() == states_on(all.take(i as int), r@).len(),
                    forall|j: int|
                        0 <= j < targets@.len() ==> target_is(
                            #[trigger] targets@[j],
                            r@,
                            Some(states_on(all.take(i as int), r@)[j]),
                        ),
                decreases n - i,
            {
                let state = rest.remove(0);
                assert(state == all[i as int]);
                assert(rest@ =~= all.subrange(i + 1, n as int));
                assert(all.take(i + 1).drop_last() =~= all.take(i as int));
                let here = chars_of(state.state.mountpoint.as_str());
                let ghost before = states_on(all.take(i as int), r@);
                let ghost old_targets = targets@;
                assert(all.take(i + 1).last() == all[i as int]);
                if chars_eq(here.as_slice(), wanted.as_slice()) {
                    assert(states_on(all.take(i + 1), r@) == before.push(all[i as int]));
                    targets.push(UnmountTarget { mountpoint: r.clone(), state: Some(state) });
                    assert forall|j: int| 0 <= j < targets@.len() implies target_is(
                        #[trigger] targets@[j],
                        r@,
                        Some(states_on(all.take(i + 1), r@)[j]),
                    ) by {
                        if j < old_targets.len() {
                            assert(targets@[j] == old_targets[j]);
                        }
                    }
                } else {
                    assert(states_on(all.take(i + 1), r@) == before);
                }
                i += 1;
            }
            assert(all.take(n as int) =~= all);
            if targets.len() == 0 {
                targets.push(UnmountTarget { mountpoint: r, state: None });
            }
            targets
        },
    }
}

/// The first check of unmounting one target: a mount point that is neither mounted nor
/// recorded is an error.
pub fn unmount_precheck(mounted: bool, has_state: bool) -> (res: Result<(), AppError>)
    ensures
        !mounted && !has_state ==> (res matches Err(AppError::Unmount { message }) && message@
            == "mount point is not mounted and has no TP-7 mount record"@),
        mounted || has_state ==> res is Ok,
{
    if !mounted && !has_state {
        return Err(
            AppError::Unmount {
                message: String::from_str("mount point is not mounted and has no TP-7 mount record"),
            },
        );
    }
    Ok(())
}

/// Starts `tp7 unmount`: it needs macOS; the report starts empty.
pub fn run_unmount(is_macos: bool, mountpoint: Option<&str>) -> (res: Result<UnmountReport, AppError>)
    ensures
        !is_macos ==> (res matches Err(AppError::NotImplemented { command }) && command@
            == "unmount is currently implemented for macOS"@),
        is_macos ==> (res matches Ok(r) && r.unmounted@.len() == 0 && r.failed@.len() == 0
            && match mountpoint {
            Some(m) => (r.requested_mountpoint matches Some(q) && q@ == m@),
            None => r.requested_mountpoint.is_none(),
        }),
{
    if !is_macos {
        return Err(
            AppError::NotImplemented {
                command: String::from_str("unmount is currently implemented for macOS"),
            },
        );
    }
    let requested_mountpoint = match mountpoint {
        Some(m) => Some(String::from_str(m)),
        None => None,
    };
    Ok(UnmountReport { requested_mountpoint, unmounted: Vec::new(), failed: Vec::new() })
}

impl UnmountReport {
    /// Records how unmounting `target` went: unmounted (with the pid of its server when
    /// it had a record), or failed with the error's message.
    pub fn record(&mut self, target: &UnmountTarget, outcome: &Result<(), AppError>)
        ensures
            final(self).requested_mountpoint == old(self).requested_mountpoint,
            match outcome {
                Ok(()) => {
                    &&& final(self).failed@ == old(self).failed@
                    &&& final(self).unmounted@.len() == old(self).unmounted@.len() + 1
                    &&& final(self).unmounted@.drop_last() == old(self).unmounted@
                    &&& final(self).unmounted@.last().mountpoint@ == target.mountpoint@
                    &&& final(self).unmounted@.last().pid == match target.state {
                        Some(s) => Some(s.state.pid),
                        None => None,
                    }
                },
                Err(e) => {
                    &&& final(self).unmounted@ == old(self).unmounted@
                    &&& final(self).failed@.len() == old(self).failed@.len() + 1
                    &&& final(self).failed@.drop_last() == old(self).failed@
                    &&& final(self).failed@.last().mountpoint@ == target.mountpoint@
                    &&& final(self).failed@.last().message@ == spec_message(*e)
                },
            },
    {
        match outcome {
            Ok(()) => {
                let pid = match &target.state {
                    Some(s) => Some(s.state.pid),
                    None => None,
                };
                self.unmounted.push(UnmountedMount { mountpoint: target.mountpoint.clone(), pid });
            },
            Err(e) => {
                self.failed.push(
                    UnmountFailure { mountpoint: target.mountpoint.clone(), message: e.message() },
                );
            },
        }
    }
}

} // verus!
