//! The Teenage Engineering SysEx protocol that switches a TP-7 into MTP mode:
//! message framing, 7-bit payload packing, response parsing and the switch report.
use vstd::prelude::*;

use crate::error::AppError;
use crate::text::{
    chars_eq, chars_of, from_utf8_lossy, push_char, push_hex_padded, spec_hex_padded,
    spec_split_once, split_chars, split_on, split_once_chars, string_of, utf8_lossy,
};

verus! {

/// Teenage Engineering's MIDI manufacturer id.
pub const TE_MIDI_ID_0: u8 = 0x00;
pub const TE_MIDI_ID_1: u8 = 0x20;
pub const TE_MIDI_ID_2: u8 = 0x76;
pub const TE_SYSEX_MARKER: u8 = 0x40;
pub const FLAG_REQUEST: u8 = 0x40;
pub const FLAG_REQUEST_ID: u8 = 0x20;
pub const STATUS_OK: u8 = 0x00;
pub const STATUS_BAD_REQUEST: u8 = 0x03;
pub const COMMAND_GREET: u8 = 0x01;
pub const COMMAND_MODE: u8 = 0x04;

/// Mode payload understood by current firmware.
pub const MODE_MTP_NEW: [u8; 2] = [0x01, 0x03];

/// Mode payload understood by older firmware.
pub const MODE_MTP_LEGACY: [u8; 2] = [0x01, 0x02];

/// Mode payload understood by current firmware.
pub open spec fn mode_mtp_new() -> Seq<u8> {
    seq![0x01u8, 0x03u8]
}

/// What the mode switch reports once the device accepted it.
#[derive(Debug, Clone)]
pub struct MidiSwitchReport {
    pub device_id: u8,
    pub command: u8,
    pub payload: Vec<String>,
    pub greet: Option<GreetInfo>,
}

/// Fields of the TE greet response.
#[derive(Debug, Clone)]
pub struct GreetInfo {
    pub mode: Option<String>,
    pub product: Option<String>,
    pub serial: Option<String>,
    pub sw_version: Option<String>,
    pub os_version: Option<String>,
    pub sku: Option<String>,
    pub base_sku: Option<String>,
}

/// A universal identity reply.
#[derive(Debug, Clone, Copy, PartialEq, Eq, Structural)]
pub struct IdentityResponse {
    pub device_id: u8,
}

/// A decoded TE SysEx response.
#[derive(Debug, Clone, PartialEq, Eq)]
pub struct ParsedTeResponse {
    pub request_id: u16,
    pub command: u8,
    pub status: u8,
    pub data: Vec<u8>,
}

// ---------------------------------------------------------------------------
// 7-bit packing
// ---------------------------------------------------------------------------

/// Length of the packed form of `n` bytes: one high-bit byte per group of seven.
pub open spec fn packed_len(n: int) -> int {
    n + (n + 6) / 7
}

/// Length of the unpacked form of `m` packed bytes.
pub open spec fn unpacked_len(m: int) -> int {
    m - (m + 7) / 8
}

/// The high-bit byte of group `g`, holding the top bits of its first `k` bytes.
pub open spec fn pack_header(data: Seq<u8>, g: int, k: int) -> u8
    decreases k,
{
    if k <= 0 {
        0
    } else {
        let prev = pack_header(data, g, k - 1);
        let idx = 7 * g + k - 1;
        if 0 <= idx < data.len() {
            prev | ((data[idx] >> 7u8) << ((k - 1) as u8))
        } else {
            prev
        }
    }
}

/// The 7-bit packed form of `data`: every group of seven bytes is preceded by a byte
/// holding their top bits (bit `k` for the `k`-th byte), and every byte keeps its low
/// seven bits.
pub open spec fn spec_pack_7bit(data: Seq<u8>) -> Seq<u8> {
    Seq::new(
        packed_len(data.len() as int) as nat,
        |j: int|
            if j % 8 == 0 {
                pack_header(data, j / 8, 7)
            } else {
                data[(j / 8) * 7 + j % 8 - 1] & 0x7f
            },
    )
}

/// Packed bytes are safe inside a SysEx message: none has its top bit set.
pub proof fn lemma_pack_7bit_is_sysex_safe(data: Seq<u8>)
    ensures
        forall|j: int| 0 <= j < spec_pack_7bit(data).len() ==> #[trigger] spec_pack_7bit(data)[j] < 0x80,
{
    assert forall|j: int| 0 <= j < spec_pack_7bit(data).len() implies #[trigger] spec_pack_7bit(data)[j] < 0x80 by {
        if j % 8 == 0 {
            lemma_pack_header_bound(data, j / 8, 7);
            assert((1u8 << 7u8) == 0x80) by (bit_vector);
        } else {
            let b = data[(j / 8) * 7 + j % 8 - 1];
            assert(b & 0x7f < 0x80) by (bit_vector);
        }
    }
}

proof fn lemma_pack_header_bound(data: Seq<u8>, g: int, k: int)
    requires
        0 <= k <= 7,
    ensures
        pack_header(data, g, k) < (1u8 << (k as u8)),
    decreases k,
{
    if k == 0 {
        assert(0u8 < (1u8 << 0u8)) by (bit_vector);
    } else {
        lemma_pack_header_bound(data, g, k - 1);
        let prev = pack_header(data, g, k - 1);
        let idx = 7 * g + k - 1;
        let kk = (k - 1) as u8;
        assert(kk < 7);
        assert((kk + 1) as u8 == k as u8);
        if 0 <= idx < data.len() {
            let d = data[idx];
            assert(prev < (1u8 << kk) && kk < 7 ==> (prev | ((d >> 7u8) << kk)) < (1u8 << ((kk + 1) as u8))) by (bit_vector);
        } else {
            assert(prev < (1u8 << kk) && kk < 7 ==> prev < (1u8 << ((kk + 1) as u8))) by (bit_vector);
        }
    }
}

/// The byte restored from a low-bits byte and the top bit `k` of a high-bit byte.
pub open spec fn unpack_byte(low: u8, high: u8, k: int) -> u8 {
    (low & 0x7f) | (((high >> (k as u8)) & 1u8) << 7u8)
}

/// The unpacked form of `packed`: each group of up to eight bytes starts with a
/// high-bit byte that supplies the top bit of the bytes after it.
pub open spec fn spec_unpack_7bit(packed: Seq<u8>) -> Seq<u8> {
    Seq::new(
        unpacked_len(packed.len() as int) as nat,
        |o: int| unpack_byte(packed[8 * (o / 7) + 1 + o % 7], packed[8 * (o / 7)], o % 7),
    )
}

proof fn bv_header_step(h: u8, x: u8, s: u8, b: u8)
    requires
        x <= 1,
        s < 8,
        b < 8,
    ensures
        b == s ==> ((h | (x << s)) >> b) & 1 == ((h >> b) & 1) | x,
        b != s ==> ((h | (x << s)) >> b) & 1 == (h >> b) & 1,
{
    assert(b == s ==> ((h | (x << s)) >> b) & 1 == ((h >> b) & 1) | x) by (bit_vector)
        requires
            x <= 1,
            s < 8,
            b < 8,
    ;
    assert(b != s ==> ((h | (x << s)) >> b) & 1 == (h >> b) & 1) by (bit_vector)
        requires
            x <= 1,
            s < 8,
            b < 8,
    ;
}

/// Bit `b` of a group's high-bit byte is the top bit of the group's `b`-th byte.
proof fn lemma_pack_header_bit(data: Seq<u8>, g: int, k: int, b: int)
    requires
        0 <= k <= 7,
        0 <= b < 8,
        g >= 0,
    ensures
        (pack_header(data, g, k) >> (b as u8)) & 1u8 == (if b < k && 7 * g + b < data.len() {
            data[7 * g + b] >> 7u8
        } else {
            0u8
        }),
    decreases k,
{
    let h = pack_header(data, g, k);
    if k <= 0 {
        let bb = b as u8;
        assert((0u8 >> bb) & 1u8 == 0u8) by (bit_vector);
    } else {
        lemma_pack_header_bit(data, g, k - 1, b);
        let prev = pack_header(data, g, k - 1);
        let idx = 7 * g + k - 1;
        if idx < data.len() {
            let byte = data[idx];
            let x = byte >> 7u8;
            assert(x <= 1) by (bit_vector)
                requires
                    x == byte >> 7u8,
            ;
            bv_header_step(prev, x, (k - 1) as u8, b as u8);
            if b == k - 1 {
                let bb = b as u8;
                assert(((prev >> bb) & 1u8) | x == x) by (bit_vector)
                    requires
                        (prev >> bb) & 1u8 == 0u8,
                ;
            }
        }
    }
}

proof fn bv_restore_byte(x: u8, low: u8, top: u8)
    requires
        low == x & 0x7f,
        top == x >> 7u8,
    ensures
        (low & 0x7f) | (top << 7u8) == x,
{
    assert((low & 0x7f) | (top << 7u8) == x) by (bit_vector)
        requires
            low == x & 0x7f,
            top == x >> 7u8,
    ;
}

proof fn lemma_group_position(o: int, m: int)
    requires
        0 <= o < unpacked_len(m),
    ensures
        8 * (o / 7) + 1 + o % 7 < m,
{
    let g = o / 7;
    let k = o % 7;
    assert(o == 7 * g + k);
    assert(0 <= k < 7);
    assert(8 * g + 1 + k < m) by (nonlinear_arith)
        requires
            o == 7 * g + k,
            0 <= k < 7,
            0 <= o < m - (m + 7) / 8,
            g >= 0,
    ;
}

/// Unpacking a packed payload gives the payload back.
pub proof fn lemma_unpack_pack_7bit(data: Seq<u8>)
    ensures
        spec_unpack_7bit(spec_pack_7bit(data)) == data,
{
    let n = data.len() as int;
    let p = spec_pack_7bit(data);
    let u = spec_unpack_7bit(p);
    let q = n / 7;
    let r = n % 7;
    assert(n == 7 * q + r);
    if r == 0 {
        assert(packed_len(n) == 8 * q);
        assert((8 * q + 7) / 8 == q);
    } else {
        assert(packed_len(n) == 8 * q + r + 1);
        assert((8 * q + r + 1 + 7) / 8 == q + 1);
    }
    assert(u.len() == n);
    assert forall|o: int| 0 <= o < n implies #[trigger] u[o] == data[o] by {
        let g = o / 7;
        let k = o % 7;
        assert(o == 7 * g + k);
        lemma_group_position(o, p.len() as int);
        let j = 8 * g + 1 + k;
        assert(j % 8 == 1 + k && j / 8 == g);
        assert(p[j] == data[o] & 0x7f);
        assert((8 * g) % 8 == 0 && (8 * g) / 8 == g);
        assert(p[8 * g] == pack_header(data, g, 7));
        lemma_pack_header_bit(data, g, 7, k);
        bv_restore_byte(data[o], p[j], data[o] >> 7u8);
    }
    assert(u =~= data);
}

/// The layout of a packed payload: byte `o` of the payload, the `k`-th of its group
/// `g` of seven, keeps its low seven bits at packed position `8g + 1 + k`, and its
/// top bit is bit `k` of the group's leading byte at position `8g`.
pub proof fn lemma_pack_7bit_layout(data: Seq<u8>)
    ensures
        spec_pack_7bit(data).len() == data.len() + (data.len() + 6) / 7,
        forall|o: int|
            #![trigger data[o]]
            0 <= o < data.len() ==> {
                &&& 8 * (o / 7) + 1 + o % 7 < spec_pack_7bit(data).len()
                &&& spec_pack_7bit(data)[8 * (o / 7) + 1 + o % 7] == data[o] & 0x7f
                &&& (spec_pack_7bit(data)[8 * (o / 7)] >> ((o % 7) as u8)) & 1u8 == data[o] >> 7u8
            },
{
    let n = data.len() as int;
    let p = spec_pack_7bit(data);
    let q = n / 7;
    let r = n % 7;
    assert(n == 7 * q + r);
    if r == 0 {
        assert(packed_len(n) == 8 * q);
        assert((8 * q + 7) / 8 == q);
    } else {
        assert(packed_len(n) == 8 * q + r + 1);
        assert((8 * q + r + 1 + 7) / 8 == q + 1);
    }
    assert(unpacked_len(p.len() as int) == n);
    assert forall|o: int| #![trigger data[o]] 0 <= o < n implies {
        &&& 8 * (o / 7) + 1 + o % 7 < p.len()
        &&& p[8 * (o / 7) + 1 + o % 7] == data[o] & 0x7f
        &&& (p[8 * (o / 7)] >> ((o % 7) as u8)) & 1u8 == data[o] >> 7u8
    } by {
        let g = o / 7;
        let k = o % 7;
        assert(o == 7 * g + k);
        lemma_group_position(o, p.len() as int);
        let j = 8 * g + 1 + k;
        assert(j % 8 == 1 + k && j / 8 == g);
        assert((8 * g) % 8 == 0 && (8 * g) / 8 == g);
        assert(p[8 * g] == pack_header(data, g, 7));
        lemma_pack_header_bit(data, g, 7, k);
    }
}

/// Packs a payload into 7-bit SysEx-safe bytes.
pub fn pack_7bit(data: &[u8]) -> (res: Vec<u8>)
    requires
        packed_len(data@.len() as int) <= usize::MAX,
    ensures
        res@ == spec_pack_7bit(data@),
{
    let n = data.len();
    let total = n + (n + 6) / 7;
    let mut packed: Vec<u8> = Vec::new();
    for j in 0..total
        invariant
            n == data@.len(),
            total == packed_len(n as int),
            packed@ == spec_pack_7bit(data@).take(j as int),
    {
        let g = j / 8;
        let pos = j % 8;
        let byte = if pos == 0 {
            let mut h: u8 = 0;
            let start = g * 7;
            for k in 0..7u8
                invariant
                    n == data@.len(),
                    start == 7 * g,
                    h == pack_header(data@, g as int, k as int),
            {
                if start < n && (k as usize) < n - start {
                    h = h | ((data[start + k as usize] >> 7u8) << k);
                }
            }
            h
        } else {
            proof {
                assert(j < packed_len(n as int));
                assert((j / 8) * 7 + j % 8 - 1 < n) by (nonlinear_arith)
                    requires
                        0 <= j < n + (n + 6) / 7,
                        j % 8 != 0,
                ;
            }
            data[g * 7 + pos - 1] & 0x7f
        };
        packed.push(byte);
        assert(spec_pack_7bit(data@).take(j + 1) =~= spec_pack_7bit(data@).take(j as int).push(
            byte,
        ));
    }
    assert(spec_pack_7bit(data@).take(total as int) =~= spec_pack_7bit(data@));
    packed
}

/// Restores a payload from its 7-bit packed form.
pub fn unpack_7bit(data: &[u8]) -> (res: Vec<u8>)
    ensures
        res@ == spec_unpack_7bit(data@),
{
    let m = data.len();
    let total = m - m / 8 - if m % 8 != 0 {
        1
    } else {
        0
    };
    assert(total == unpacked_len(m as int));
    let mut unpacked: Vec<u8> = Vec::new();
    for o in 0..total
        invariant
            m == data@.len(),
            total == unpacked_len(m as int),
            unpacked@ == spec_unpack_7bit(data@).take(o as int),
    {
        proof {
            lemma_group_position(o as int, m as int);
        }
        let g = o / 7;
        let k = o % 7;
        let high = data[8 * g];
        let low = data[8 * g + 1 + k];
        let byte = (low & 0x7f) | (((high >> (k as u8)) & 1u8) << 7u8);
        unpacked.push(byte);
        assert(spec_unpack_7bit(data@).take(o + 1) =~= spec_unpack_7bit(data@).take(
            o as int,
        ).push(byte));
    }
    assert(spec_unpack_7bit(data@).take(total as int) =~= spec_unpack_7bit(data@));
    unpacked
}

// ---------------------------------------------------------------------------
// Framing
// ---------------------------------------------------------------------------

/// The request-id byte pair of a TE request.
pub open spec fn request_id_hi(request_id: u16) -> u8 {
    (FLAG_REQUEST | FLAG_REQUEST_ID | (((request_id >> 7u16) & 0x1f) as u8)) as u8
}

/// A TE SysEx request: header, device, marker, flags with the request id, command,
/// packed payload and end-of-exclusive.
pub open spec fn spec_te_request(device_id: u8, request_id: u16, command: u8, payload: Seq<u8>) -> Seq<u8> {
    seq![
        0xf0u8,
        TE_MIDI_ID_0,
        TE_MIDI_ID_1,
        TE_MIDI_ID_2,
        device_id,
        TE_SYSEX_MARKER,
        request_id_hi(request_id),
        (request_id & 0x7f) as u8,
        command,
    ] + spec_pack_7bit(payload) + seq![0xf7u8]
}

/// Builds a TE SysEx request.
pub fn build_te_request(device_id: u8, request_id: u16, command: u8, payload: &[u8]) -> (res: Vec<u8>)
    requires
        packed_len(payload@.len() as int) <= usize::MAX,
    ensures
        res@ == spec_te_request(device_id, request_id, command, payload@),
{
    let mut message: Vec<u8> = Vec::new();
    message.push(0xf0);
    message.push(TE_MIDI_ID_0);
    message.push(TE_MIDI_ID_1);
    message.push(TE_MIDI_ID_2);
    message.push(device_id);
    message.push(TE_SYSEX_MARKER);
    message.push(FLAG_REQUEST | FLAG_REQUEST_ID | (((request_id >> 7) & 0x1f) as u8));
    message.push((request_id & 0x7f) as u8);
    message.push(command);
    let packed = pack_7bit(payload);
    let ghost head = message@;
    let mut i: usize = 0;
    while i < packed.len()
        invariant
            i <= packed@.len(),
            message@ == head + packed@.take(i as int),
        decreases packed@.len() - i,
    {
        message.push(packed[i]);
        assert(packed@.take(i + 1) =~= packed@.take(i as int).push(packed@[i as int]));
        i += 1;
    }
    assert(packed@.take(i as int) =~= packed@);
    message.push(0xf7);
    assert(message@ =~= spec_te_request(device_id, request_id, command, payload@));
    message
}

/// The identity a universal identity reply announces, if `message` is one from TE.
pub open spec fn spec_identity_response(message: Seq<u8>) -> Option<IdentityResponse> {
    if message.len() == 17 && message[0] == 0xf0 && message[1] == 0x7e && message[3] == 0x06
        && message[4] == 0x02 && message[5] == TE_MIDI_ID_0 && message[6] == TE_MIDI_ID_1
        && message[7] == TE_MIDI_ID_2 && message[16] == 0xf7 {
        Some(IdentityResponse { device_id: message[2] })
    } else {
        None
    }
}

/// Recognises a universal identity reply from a TE device.
pub fn parse_identity_response(message: &[u8]) -> (res: Option<IdentityResponse>)
    ensures
        res == spec_identity_response(message@),
{
    if message.len() != 17 || message[0] != 0xf0 || message[1] != 0x7e || message[3] != 0x06
        || message[4] != 0x02 || message[5] != TE_MIDI_ID_0 || message[6] != TE_MIDI_ID_1
        || message[7] != TE_MIDI_ID_2 || message[16] != 0xf7 {
        return None;
    }
    Some(IdentityResponse { device_id: message[2] })
}

/// Whether `message` is framed as a TE response (not a request) that carries a request id.
pub open spec fn is_te_response(message: Seq<u8>) -> bool {
    message.len() >= 11 && message[0] == 0xf0 && message[1] == TE_MIDI_ID_0 && message[2]
        == TE_MIDI_ID_1 && message[3] == TE_MIDI_ID_2 && message[5] == TE_SYSEX_MARKER
        && message.last() == 0xf7 && message[6] & FLAG_REQUEST == 0 && message[6]
        & FLAG_REQUEST_ID != 0
}

/// The request id carried by a TE response.
pub open spec fn response_request_id(message: Seq<u8>) -> u16 {
    ((((message[6] & 0x1f) as u16) << 7u16) | ((message[7] as u16) & 0x7f)) as u16
}

/// A request the tool sends is never taken for a response, so an echo of it is ignored.
pub proof fn lemma_request_is_not_a_response(device_id: u8, request_id: u16, command: u8, payload: Seq<u8>)
    ensures
        !is_te_response(spec_te_request(device_id, request_id, command, payload)),
{
    let m = spec_te_request(device_id, request_id, command, payload);
    let hi = request_id_hi(request_id);
    assert(m[6] == hi);
    assert((0x40u8 | 0x20u8 | (((request_id >> 7u16) & 0x1f) as u8)) as u8 & 0x40u8 != 0) by (bit_vector);
}

/// The request id a request carries reads back as the id, for ids below 4096 (the ids
/// the tool uses).
pub proof fn lemma_request_id_round_trip(device_id: u8, request_id: u16, command: u8, payload: Seq<u8>)
    requires
        request_id < 4096,
    ensures
        response_request_id(spec_te_request(device_id, request_id, command, payload)) == request_id,
{
    let m = spec_te_request(device_id, request_id, command, payload);
    assert(m[6] == request_id_hi(request_id));
    assert(m[7] == (request_id & 0x7f) as u8);
    assert(request_id < 4096 ==> ((((((0x40u8 | 0x20u8 | (((request_id >> 7u16) & 0x1f) as u8)) as u8)
        & 0x1f) as u16) << 7u16) | ((((request_id & 0x7f) as u8) as u16) & 0x7f)) as u16 == request_id)
        by (bit_vector);
}

/// Decodes a TE SysEx response.
pub fn parse_te_response(message: &[u8]) -> (res: Option<ParsedTeResponse>)
    ensures
        match res {
            Some(r) => is_te_response(message@) && r.request_id == response_request_id(message@)
                && r.command == message@[8] && r.status == message@[9] && r.data@
                == spec_unpack_7bit(message@.subrange(10, message@.len() - 1)),
            None => !is_te_response(message@),
        },
{
    let n = message.len();
    if n < 11 || message[0] != 0xf0 || message[1] != TE_MIDI_ID_0 || message[2] != TE_MIDI_ID_1
        || message[3] != TE_MIDI_ID_2 || message[5] != TE_SYSEX_MARKER || message[n - 1] != 0xf7
        || message[6] & FLAG_REQUEST != 0 || message[6] & FLAG_REQUEST_ID == 0 {
        return None;
    }
    let request_id = (((message[6] & 0x1f) as u16) << 7) | ((message[7] as u16) & 0x7f);
    let mut body: Vec<u8> = Vec::new();
    for i in 10..n - 1
        invariant
            n == message@.len(),
            n >= 11,
            body@ == message@.subrange(10, i as int),
    {
        body.push(message[i]);
        assert(message@.subrange(10, i + 1) =~= message@.subrange(10, i as int).push(
            message@[i as int],
        ));
    }
    let data = unpack_7bit(body.as_slice());
    Some(ParsedTeResponse { request_id, command: message[8], status: message[9], data })
}

/// The id of the request after `request_id` (ids wrap at 4096).
pub fn next_request_id(request_id: u16) -> (res: u16)
    ensures
        res as int == (request_id as int + 1) % 4096,
{
    ((request_id as u32 + 1) % 4096) as u16
}

/// What a reply means for a request that is waiting on it.
pub enum TeReply {
    /// Not the awaited reply; keep waiting.
    Ignore,
    /// The device accepted the request and returned this data.
    Accepted(Vec<u8>),
    /// The device rejected the request.
    Rejected(AppError),
}

/// Space-separated two-digit lower-case hex bytes.
pub open spec fn spec_hex_bytes(bytes: Seq<u8>) -> Seq<char>
    decreases bytes.len(),
{
    if bytes.len() == 0 {
        Seq::empty()
    } else if bytes.len() == 1 {
        spec_hex_padded(bytes[0] as nat, 2, false)
    } else {
        spec_hex_bytes(bytes.drop_last()) + seq![' '] + spec_hex_padded(bytes.last() as nat, 2, false)
    }
}

/// Formats bytes as space-separated two-digit hex.
pub fn format_hex_bytes(bytes: &[u8]) -> (res: String)
    ensures
        res@ == spec_hex_bytes(bytes@),
{
    let mut s = String::new();
    let n = bytes.len();
    for i in 0..n
        invariant
            n == bytes@.len(),
            s@ == spec_hex_bytes(bytes@.take(i as int)),
    {
        assert(bytes@.take(i + 1).drop_last() =~= bytes@.take(i as int));
        if i > 0 {
            push_char(&mut s, ' ');
        }
        push_hex_padded(&mut s, bytes[i] as u64, 2, false);
    }
    assert(bytes@.take(n as int) =~= bytes@);
    s
}

/// How the reply `message` answers the request `request_id` for `command`:
/// replies that are not TE responses, or that answer another request or command, are
/// ignored; a matching reply is accepted when its status is OK and rejected otherwise.
pub fn te_reply(message: &[u8], request_id: u16, command: u8) -> (res: TeReply)
    ensures
        match res {
            TeReply::Ignore => !is_te_response(message@) || response_request_id(message@)
                != request_id || message@[8] != command,
            TeReply::Accepted(data) => is_te_response(message@) && response_request_id(message@)
                == request_id && message@[8] == command && message@[9] == STATUS_OK && data@
                == spec_unpack_7bit(message@.subrange(10, message@.len() - 1)),
            TeReply::Rejected(e) => is_te_response(message@) && response_request_id(message@)
                == request_id && message@[8] == command && message@[9] != STATUS_OK && e
                is MidiCommandRejected && e->MidiCommandRejected_command == command && e->status == message@[9]
                && e->MidiCommandRejected_message@ == "response data "@ + spec_hex_bytes(
                spec_unpack_7bit(message@.subrange(10, message@.len() - 1)),
            ),
        },
{
    let Some(response) = parse_te_response(message) else {
        return TeReply::Ignore;
    };
    if response.request_id != request_id || response.command != command {
        return TeReply::Ignore;
    }
    if response.status == STATUS_OK {
        return TeReply::Accepted(response.data);
    }
    let mut text = String::from_str("response data ");
    let hex = format_hex_bytes(response.data.as_slice());
    text.append(hex.as_str());
    TeReply::Rejected(
        AppError::MidiCommandRejected {
            command: response.command,
            status: response.status,
            message: text,
        },
    )
}

/// The mode payload to send first; the greet information does not change it.
pub fn select_mtp_payload(greet: Option<&GreetInfo>) -> (res: [u8; 2])
    ensures
        res@ == mode_mtp_new(),
{
    let p = [0x01u8, 0x03u8];
    assert(p@ =~= mode_mtp_new());
    p
}

/// Whether a rejected mode request should be retried with the legacy payload: only a
/// bad-request rejection of the current payload for the mode command is.
pub fn should_retry_legacy(error: &AppError, payload: &[u8; 2]) -> (res: bool)
    ensures
        res == (error is MidiCommandRejected && error->MidiCommandRejected_command == COMMAND_MODE && error->status
            == STATUS_BAD_REQUEST && payload@ == mode_mtp_new()),
{
    match error {
        AppError::MidiCommandRejected { command, status, .. } => {
            let r = *command == COMMAND_MODE && *status == STATUS_BAD_REQUEST && payload[0] == 0x01
                && payload[1] == 0x03;
            proof {
                if payload@ == mode_mtp_new() {
                    assert(payload@[0] == 0x01 && payload@[1] == 0x03);
                } else if payload[0] == 0x01 && payload[1] == 0x03 {
                    assert(payload@ =~= mode_mtp_new());
                }
            }
            r
        },
        _ => false,
    }
}

/// `0x` followed by two lower-case hex digits.
pub open spec fn spec_hex_byte_label(b: u8) -> Seq<char> {
    "0x"@ + spec_hex_padded(b as nat, 2, false)
}

/// The report of a completed switch: the device, the mode command, the payload the
/// device accepted (each byte as `0xNN`) and what the greet request returned.
pub fn switch_tp7_to_mtp(device_id: u8, greet: Option<GreetInfo>, payload: [u8; 2]) -> (res: MidiSwitchReport)
    ensures
        res.device_id == device_id,
        res.command == COMMAND_MODE,
        res.payload@.len() == 2,
        forall|i: int| 0 <= i < 2 ==> #[trigger] res.payload@[i]@ == spec_hex_byte_label(payload@[i]),
        res.greet == greet,
{
    let mut first = String::from_str("0x");
    push_hex_padded(&mut first, payload[0] as u64, 2, false);
    let mut second = String::from_str("0x");
    push_hex_padded(&mut second, payload[1] as u64, 2, false);
    let mut labels: Vec<String> = Vec::new();
    labels.push(first);
    labels.push(second);
    MidiSwitchReport { device_id, command: COMMAND_MODE, payload: labels, greet }
}

// ---------------------------------------------------------------------------
// Greet information
// ---------------------------------------------------------------------------

/// The value of the last `key:value` field whose key is `key`.
pub open spec fn greet_field(fields: Seq<Seq<char>>, key: Seq<char>) -> Option<Seq<char>>
    decreases fields.len(),
{
    if fields.len() == 0 {
        None
    } else {
        match spec_split_once(fields.last(), ':') {
            Some((k, v)) if k == key => Some(v),
            _ => greet_field(fields.drop_last(), key),
        }
    }
}

/// The view of an optional string.
pub open spec fn opt_view(o: Option<String>) -> Option<Seq<char>> {
    match o {
        Some(s) => Some(s@),
        None => None,
    }
}

/// Greet information read from the `;`-separated `key:value` fields of `text`.
pub open spec fn greet_matches(g: GreetInfo, text: Seq<char>) -> bool {
    let fields = split_on(text, ';');
    &&& opt_view(g.mode) == greet_field(fields, "mode"@)
    &&& opt_view(g.product) == greet_field(fields, "product"@)
    &&& opt_view(g.serial) == greet_field(fields, "serial"@)
    &&& opt_view(g.sw_version) == greet_field(fields, "sw_version"@)
    &&& opt_view(g.os_version) == greet_field(fields, "os_version"@)
    &&& opt_view(g.sku) == greet_field(fields, "sku"@)
    &&& opt_view(g.base_sku) == greet_field(fields, "base_sku"@)
}

/// Reads the greet fields out of a greet response's data.
pub fn parse_greet_info(data: &[u8]) -> (res: GreetInfo)
    ensures
        greet_matches(res, utf8_lossy(data@)),
{
    let text = from_utf8_lossy(data);
    let chars = chars_of(text.as_str());
    let fields = split_chars(chars.as_slice(), ';');
    let k_mode = chars_of("mode");
    let k_product = chars_of("product");
    let k_serial = chars_of("serial");
    let k_sw = chars_of("sw_version");
    let k_os = chars_of("os_version");
    let k_sku = chars_of("sku");
    let k_base = chars_of("base_sku");
    let mut info = GreetInfo {
        mode: None,
        product: None,
        serial: None,
        sw_version: None,
        os_version: None,
        sku: None,
        base_sku: None,
    };
    let ghost all = split_on(text@, ';');
    let n = fields.len();
    for i in 0..n
        invariant
            n == fields@.len(),
            n == all.len(),
            forall|j: int| 0 <= j < n ==> #[trigger] fields@[j]@ == all[j],
            k_mode@ == "mode"@,
            k_product@ == "product"@,
            k_serial@ == "serial"@,
            k_sw@ == "sw_version"@,
            k_os@ == "os_version"@,
            k_sku@ == "sku"@,
            k_base@ == "base_sku"@,
            opt_view(info.mode) == greet_field(all.take(i as int), "mode"@),
            opt_view(info.product) == greet_field(all.take(i as int), "product"@),
            opt_view(info.serial) == greet_field(all.take(i as int), "serial"@),
            opt_view(info.sw_version) == greet_field(all.take(i as int), "sw_version"@),
            opt_view(info.os_version) == greet_field(all.take(i as int), "os_version"@),
            opt_view(info.sku) == greet_field(all.take(i as int), "sku"@),
            opt_view(info.base_sku) == greet_field(all.take(i as int), "base_sku"@),
    {
        proof {
            reveal_strlit("mode");
            reveal_strlit("product");
            reveal_strlit("serial");
            reveal_strlit("sw_version");
            reveal_strlit("os_version");
            reveal_strlit("sku");
            reveal_strlit("base_sku");
        }
        let ghost pre = all.take(i as int);
        let ghost cur = all.take(i + 1);
        assert(cur.drop_last() =~= pre);
        assert(cur.last() == fields@[i as int]@);
        match split_once_chars(fields[i].as_slice(), ':') {
            Some((key, value)) => {
                proof {
                    assert("mode"@.len() == 4);
                    assert("product"@.len() == 7);
                    assert("serial"@.len() == 6);
                    assert("sw_version"@.len() == 10);
                    assert("os_version"@.len() == 10);
                    assert("sku"@.len() == 3);
                    assert("base_sku"@.len() == 8);
                    assert("sw_version"@[0] != "os_version"@[0]);
                }
                let v = string_of(value.as_slice());
                if chars_eq(key.as_slice(), k_mode.as_slice()) {
                    info.mode = Some(v);
                } else if chars_eq(key.as_slice(), k_product.as_slice()) {
                    info.product = Some(v);
                } else if chars_eq(key.as_slice(), k_serial.as_slice()) {
                    info.serial = Some(v);
                } else if chars_eq(key.as_slice(), k_sw.as_slice()) {
                    info.sw_version = Some(v);
                } else if chars_eq(key.as_slice(), k_os.as_slice()) {
                    info.os_version = Some(v);
                } else if chars_eq(key.as_slice(), k_sku.as_slice()) {
                    info.sku = Some(v);
                } else if chars_eq(key.as_slice(), k_base.as_slice()) {
                    info.base_sku = Some(v);
                }
            },
            None => {},
        }
    }
    assert(all.take(n as int) =~= all);
    info
}

/// Whether a CoreMIDI endpoint belongs to a TP-7: its display name, or else its name,
/// contains `TP-7`.
pub open spec fn spec_is_tp7_endpoint(display_name: Option<Seq<char>>, name: Option<Seq<char>>) -> bool {
    let shown = match display_name {
        Some(d) => Some(d),
        None => name,
    };
    match shown {
        Some(n) => crate::text::contains_seq(n, "TP-7"@),
        None => false,
    }
}

/// Whether a CoreMIDI endpoint with these names belongs to a TP-7.
pub fn is_tp7_endpoint(display_name: Option<&str>, name: Option<&str>) -> (res: bool)
    ensures
        res == spec_is_tp7_endpoint(
            match display_name {
                Some(d) => Some(d@),
                None => None,
            },
            match name {
                Some(n) => Some(n@),
                None => None,
            },
        ),
{
    let shown = match display_name {
        Some(d) => Some(d),
        None => name,
    };
    match shown {
        Some(n) => crate::text::contains_chars(chars_of(n).as_slice(), chars_of("TP-7").as_slice()),
        None => false,
    }
}

/// The failure when no TP-7 endpoint is found: a source (where replies come from) or a
/// destination (where requests go).
pub fn missing_endpoint(source: bool) -> (res: AppError)
    ensures
        res matches AppError::Midi { message } && message@ == (if source {
            "No TP-7 CoreMIDI source endpoint was found."@
        } else {
            "No TP-7 CoreMIDI destination endpoint was found."@
        }),
{
    AppError::Midi {
        message: String::from_str(if source {
            "No TP-7 CoreMIDI source endpoint was found."
        } else {
            "No TP-7 CoreMIDI destination endpoint was found."
        }),
    }
}

} // verus!
