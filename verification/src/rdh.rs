//! Bit-exact codec for the 64-byte Raw Data Header (RDH).
//!
//! An RDH is laid out as four 16-byte subwords; all multi-byte integers
//! are little-endian on the wire. The named fields below cover every byte
//! that carries information; the remaining filler bytes are written as
//! zero by the encoder and ignored by the decoder.
//!
//! Wire layout (byte offsets):
//! - 0: header_id, 1: header_size, 2-3: fee_id, 4: priority_bit,
//!   5: system_id, 6-7: reserved0, 8-9: offset_to_next, 10-11: memory_size,
//!   12: link_id, 13: packet_counter, 14-15: cruid_dw
//! - 16-19: bc_reserved0, 20-23: orbit, 24: dataformat, 25-31: filler
//! - 32-35: trigger_type, 36-37: pages_counter, 38: stop_bit, 39-47: filler
//! - 48-51: detector_field, 52-53: par_bit, 54-63: filler

use vstd::prelude::*;

verus! {

/// A decoded Raw Data Header with every information-carrying field as a
/// plain little-endian-decoded integer.
#[derive(Clone, Copy, PartialEq, Eq, Structural, Debug)]
pub struct Rdh {
    /// Protocol version; accepted values are 6 and 7.
    pub header_id: u8,
    /// Must equal 64.
    pub header_size: u8,
    /// Composite front-end electronics identifier:
    /// `{layer:3, reserved:6, fiber_uplink:2, stave_number:5}` from the
    /// most significant bit down.
    pub fee_id: u16,
    pub priority_bit: u8,
    /// 32 means ITS.
    pub system_id: u8,
    /// Reserved word; zero on well-formed headers.
    pub reserved0: u16,
    /// Byte offset from this RDH to the next one.
    pub offset_to_next: u16,
    /// Total bytes of RDH plus payload in this packet.
    pub memory_size: u16,
    /// 0 to 11 are valid on a CRU.
    pub link_id: u8,
    pub packet_counter: u8,
    /// cru_id in the low 12 bits, dw in the high 4.
    pub cruid_dw: u16,
    /// Bunch-crossing counter in the low 12 bits.
    pub bc_reserved0: u32,
    /// Heartbeat-frame orbit number.
    pub orbit: u32,
    /// Accepted values are 0 and 2.
    pub dataformat: u8,
    /// Trigger bitfield; see the `trig_*` helpers.
    pub trigger_type: u32,
    /// Page number within a CDP.
    pub pages_counter: u16,
    /// 1 on the terminating page of a CDP, else 0.
    pub stop_bit: u8,
    /// ITS-specific flags.
    pub detector_field: u32,
    pub par_bit: u16,
}

/// Little-endian u16 read from two consecutive bytes of `s`.
pub open spec fn spec_u16_le(s: Seq<u8>, i: int) -> u16 {
    (s[i] as u16) | ((s[i + 1] as u16) << 8)
}

/// Little-endian u32 read from four consecutive bytes of `s`.
pub open spec fn spec_u32_le(s: Seq<u8>, i: int) -> u32 {
    (s[i] as u32) | ((s[i + 1] as u32) << 8) | ((s[i + 2] as u32) << 16) | ((s[i + 3] as u32)
        << 24)
}

/// The RDH whose fields are read from a 64-byte sequence, with no
/// validity requirement on the bytes.
pub open spec fn rdh_of_bytes(s: Seq<u8>) -> Rdh {
    Rdh {
        header_id: s[0],
        header_size: s[1],
        fee_id: spec_u16_le(s, 2),
        priority_bit: s[4],
        system_id: s[5],
        reserved0: spec_u16_le(s, 6),
        offset_to_next: spec_u16_le(s, 8),
        memory_size: spec_u16_le(s, 10),
        link_id: s[12],
        packet_counter: s[13],
        cruid_dw: spec_u16_le(s, 14),
        bc_reserved0: spec_u32_le(s, 16),
        orbit: spec_u32_le(s, 20),
        dataformat: s[24],
        trigger_type: spec_u32_le(s, 32),
        pages_counter: spec_u16_le(s, 36),
        stop_bit: s[38],
        detector_field: spec_u32_le(s, 48),
        par_bit: spec_u16_le(s, 52),
    }
}

/// A 64-byte buffer begins a decodable RDH: known version and the
/// mandatory header size.
pub open spec fn rdh_header_ok(s: Seq<u8>) -> bool {
    (s[0] == 6 || s[0] == 7) && s[1] == 64
}

/// What decoding a 64-byte buffer yields: the field-wise read when the
/// version and header size are acceptable, nothing otherwise.
pub open spec fn spec_rdh_decode(s: Seq<u8>) -> Option<Rdh> {
    if rdh_header_ok(s) {
        Some(rdh_of_bytes(s))
    } else {
        None
    }
}

/// Why a 64-byte buffer was rejected as an RDH.
#[derive(Clone, Copy, PartialEq, Eq, Structural, Debug)]
pub enum RdhParseError {
    /// The first byte is not a known protocol version (6 or 7).
    UnknownVersion(u8),
    /// The second byte is not 64.
    InvalidHeaderSize(u8),
}

/// Decode the 64 bytes at `b[off..off + 64]` as an RDH.
///
/// Rejects a buffer whose version byte is not 6 or 7, or whose
/// header-size byte is not 64; otherwise returns exactly the field-wise
/// little-endian read of the buffer.
pub fn rdh_decode(b: &[u8], off: usize) -> (r: Result<Rdh, RdhParseError>)
    requires
        off + 64 <= b@.len(),
    ensures
        r is Ok <==> rdh_header_ok(b@.subrange(off as int, off + 64)),
        r is Ok ==> r->Ok_0 == rdh_of_bytes(b@.subrange(off as int, off + 64)),
        r is Err ==> r == (if b@[off as int] != 6 && b@[off as int] != 7 {
            Result::<Rdh, RdhParseError>::Err(RdhParseError::UnknownVersion(b@[off as int]))
        } else {
            Result::<Rdh, RdhParseError>::Err(RdhParseError::InvalidHeaderSize(b@[off + 1]))
        }),
{
    let ghost s = b@.subrange(off as int, off + 64);
    let header_id = b[off];
    let header_size = b[off + 1];
    if header_id != 6 && header_id != 7 {
        return Err(RdhParseError::UnknownVersion(header_id));
    }
    if header_size != 64 {
        return Err(RdhParseError::InvalidHeaderSize(header_size));
    }
    let r = Rdh {
        header_id,
        header_size,
        fee_id: read_u16_le(b, off + 2),
        priority_bit: b[off + 4],
        system_id: b[off + 5],
        reserved0: read_u16_le(b, off + 6),
        offset_to_next: read_u16_le(b, off + 8),
        memory_size: read_u16_le(b, off + 10),
        link_id: b[off + 12],
        packet_counter: b[off + 13],
        cruid_dw: read_u16_le(b, off + 14),
        bc_reserved0: read_u32_le(b, off + 16),
        orbit: read_u32_le(b, off + 20),
        dataformat: b[off + 24],
        trigger_type: read_u32_le(b, off + 32),
        pages_counter: read_u16_le(b, off + 36),
        stop_bit: b[off + 38],
        detector_field: read_u32_le(b, off + 48),
        par_bit: read_u16_le(b, off + 52),
    };
    assert(r == rdh_of_bytes(s));
    Ok(r)
}

/// Read a little-endian u16 at `b[i..i + 2]`.
fn read_u16_le(b: &[u8], i: usize) -> (v: u16)
    requires
        i + 2 <= b@.len(),
    ensures
        v == spec_u16_le(b@, i as int),
{
    (b[i] as u16) | ((b[i + 1] as u16) << 8)
}

/// Read a little-endian u32 at `b[i..i + 4]`.
fn read_u32_le(b: &[u8], i: usize) -> (v: u32)
    requires
        i + 4 <= b@.len(),
    ensures
        v == spec_u32_le(b@, i as int),
{
    (b[i] as u32) | ((b[i + 1] as u32) << 8) | ((b[i + 2] as u32) << 16) | ((b[i + 3] as u32)
        << 24)
}

/// Low byte of a u16.
pub open spec fn lo16(v: u16) -> u8 {
    (v & 0xFF) as u8
}

/// High byte of a u16.
pub open spec fn hi16(v: u16) -> u8 {
    ((v >> 8) & 0xFF) as u8
}

/// The `k`-th little-endian byte of a u32, for `k` in 0..4.
pub open spec fn byte32(v: u32, k: int) -> u8 {
    if k == 0 {
        (v & 0xFF) as u8
    } else if k == 1 {
        ((v >> 8) & 0xFF) as u8
    } else if k == 2 {
        ((v >> 16) & 0xFF) as u8
    } else {
        ((v >> 24) & 0xFF) as u8
    }
}

proof fn lemma_u16_round(v: u16)
    ensures
        (lo16(v) as u16) | ((hi16(v) as u16) << 8) == v,
{
    assert((((v & 0xFF) as u8) as u16) | ((((v >> 8) & 0xFF) as u8) as u16) << 8 == v)
        by (bit_vector);
}

proof fn lemma_u32_round(v: u32)
    ensures
        (byte32(v, 0) as u32) | ((byte32(v, 1) as u32) << 8) | ((byte32(v, 2) as u32) << 16) | ((
        byte32(v, 3) as u32) << 24) == v,
{
    assert(((v & 0xFF) as u8 as u32) | ((((v >> 8) & 0xFF) as u8 as u32) << 8) | ((((v >> 16)
        & 0xFF) as u8 as u32) << 16) | ((((v >> 24) & 0xFF) as u8 as u32) << 24) == v)
        by (bit_vector);
}

/// Encode an RDH into its 64-byte wire form: every named field at its
/// offset in little-endian order, every filler byte zero. Decoding the
/// result reads back exactly the given header.
pub fn rdh_encode(r: &Rdh) -> (out: Vec<u8>)
    ensures
        out@.len() == 64,
        rdh_of_bytes(out@) == *r,
        r.header_id == out@[0],
        r.header_size == out@[1],
{
    let mut out: Vec<u8> = Vec::new();
    out.push(r.header_id);
    out.push(r.header_size);
    push_u16_le(&mut out, r.fee_id);
    out.push(r.priority_bit);
    out.push(r.system_id);
    push_u16_le(&mut out, r.reserved0);
    push_u16_le(&mut out, r.offset_to_next);
    push_u16_le(&mut out, r.memory_size);
    out.push(r.link_id);
    out.push(r.packet_counter);
    push_u16_le(&mut out, r.cruid_dw);
    push_u32_le(&mut out, r.bc_reserved0);
    push_u32_le(&mut out, r.orbit);
    out.push(r.dataformat);
    push_zeros(&mut out, 7);
    push_u32_le(&mut out, r.trigger_type);
    push_u16_le(&mut out, r.pages_counter);
    out.push(r.stop_bit);
    push_zeros(&mut out, 9);
    push_u32_le(&mut out, r.detector_field);
    push_u16_le(&mut out, r.par_bit);
    push_zeros(&mut out, 10);
    proof {
        lemma_u16_round(r.fee_id);
        lemma_u16_round(r.reserved0);
        lemma_u16_round(r.offset_to_next);
        lemma_u16_round(r.memory_size);
        lemma_u16_round(r.cruid_dw);
        lemma_u16_round(r.pages_counter);
        lemma_u16_round(r.par_bit);
        lemma_u32_round(r.bc_reserved0);
        lemma_u32_round(r.orbit);
        lemma_u32_round(r.trigger_type);
        lemma_u32_round(r.detector_field);
    }
    assert(rdh_of_bytes(out@) == *r);
    out
}

/// Append a u16 in little-endian order.
fn push_u16_le(out: &mut Vec<u8>, v: u16)
    ensures
        final(out)@ == old(out)@ + seq![lo16(v), hi16(v)],
{
    out.push((v & 0xFF) as u8);
    out.push(((v >> 8) & 0xFF) as u8);
    assert(out@ =~= old(out)@ + seq![lo16(v), hi16(v)]);
}

/// Append a u32 in little-endian order.
fn push_u32_le(out: &mut Vec<u8>, v: u32)
    ensures
        final(out)@ == old(out)@ + seq![byte32(v, 0), byte32(v, 1), byte32(v, 2), byte32(v, 3)],
{
    out.push((v & 0xFF) as u8);
    out.push(((v >> 8) & 0xFF) as u8);
    out.push(((v >> 16) & 0xFF) as u8);
    out.push(((v >> 24) & 0xFF) as u8);
    assert(out@ =~= old(out)@ + seq![byte32(v, 0), byte32(v, 1), byte32(v, 2), byte32(v, 3)]);
}

/// Append `n` zero bytes.
fn push_zeros(out: &mut Vec<u8>, n: usize)
    ensures
        final(out)@ == old(out)@ + Seq::new(n as nat, |i: int| 0u8),
{
    let mut k: usize = 0;
    while k < n
        invariant
            k <= n,
            out@ == old(out)@ + Seq::new(k as nat, |i: int| 0u8),
        decreases n - k,
    {
        out.push(0);
        assert(out@ =~= old(out)@ + Seq::new((k + 1) as nat, |i: int| 0u8));
        k = k + 1;
    }
    assert(out@ =~= old(out)@ + Seq::new(n as nat, |i: int| 0u8));
}

/// The detector layer encoded in the top 3 bits of a FEE ID.
pub open spec fn spec_layer_of_fee(fee: u16) -> u8 {
    (fee >> 13) as u8
}

/// The stave number encoded in the low 5 bits of a FEE ID.
pub open spec fn spec_stave_of_fee(fee: u16) -> u8 {
    (fee & 0x1F) as u8
}

/// The fiber uplink encoded in bits 5-6 of a FEE ID.
pub open spec fn spec_fiber_uplink_of_fee(fee: u16) -> u8 {
    ((fee >> 5) & 0x3) as u8
}

/// The FEE ID that packs `{layer, 0, 0, stave}`.
pub open spec fn spec_fee_of_layer_stave(layer: u8, stave: u8) -> u16 {
    ((layer as u16) << 13) | (stave as u16)
}

/// Extract the layer from a FEE ID.
pub fn layer_of_fee(fee: u16) -> (r: u8)
    ensures
        r == spec_layer_of_fee(fee),
{
    (fee >> 13) as u8
}

/// Extract the stave number from a FEE ID.
pub fn stave_of_fee(fee: u16) -> (r: u8)
    ensures
        r == spec_stave_of_fee(fee),
{
    (fee & 0x1F) as u8
}

/// Extract the fiber uplink from a FEE ID.
pub fn fiber_uplink_of_fee(fee: u16) -> (r: u8)
    ensures
        r == spec_fiber_uplink_of_fee(fee),
{
    ((fee >> 5) & 0x3) as u8
}

/// Pack a layer and a stave number into a FEE ID with zero reserved and
/// fiber-uplink bits.
pub fn fee_of_layer_stave(layer: u8, stave: u8) -> (r: u16)
    requires
        layer < 8,
        stave < 32,
    ensures
        r == spec_fee_of_layer_stave(layer, stave),
        spec_layer_of_fee(r) == layer,
        spec_stave_of_fee(r) == stave,
{
    let r = ((layer as u16) << 13) | (stave as u16);
    proof {
        let l = layer;
        let s = stave;
        assert(l < 8 && s < 32 ==> ((((l as u16) << 13) | (s as u16)) >> 13) as u8 == l
            && (((((l as u16) << 13) | (s as u16))) & 0x1F) as u8 == s) by (bit_vector);
    }
    r
}

/// Two RDHs belong to the same layer and stave.
pub open spec fn same_layer_stave(fee_a: u16, fee_b: u16) -> bool {
    spec_layer_of_fee(fee_a) == spec_layer_of_fee(fee_b) && spec_stave_of_fee(fee_a)
        == spec_stave_of_fee(fee_b)
}

/// Trigger bit positions, per the CRU trigger-type bitfield: bit 0 is
/// ORBIT, 1 HB, 3 PhT, 4 SOC, 5 EOC, 9 TF, 11 SOT, 12 EOT.
pub open spec fn trig_bit(t: u32, bit: u32) -> bool
    recommends
        bit < 32,
{
    t & (1u32 << bit) != 0
}

/// Test one trigger bit of a trigger-type word.
pub fn trigger_bit_set(t: u32, bit: u32) -> (r: bool)
    requires
        bit < 32,
    ensures
        r == trig_bit(t, bit),
{
    t & (1u32 << bit) != 0
}

/// The per-header sanity rules: mandatory header size, zero reserved
/// word, known data format, CRU link range, and consistent sizes
/// (`memory_size` covers at least the header, `offset_to_next` covers at
/// least the packet).
pub open spec fn rdh_sane(r: Rdh) -> bool {
    &&& r.header_size == 64
    &&& r.reserved0 == 0
    &&& r.dataformat == 0 || r.dataformat == 2
    &&& r.link_id <= 11
    &&& r.memory_size >= 64
    &&& r.offset_to_next >= r.memory_size
}

/// Check the per-header sanity rules.
pub fn rdh_sanity_check(r: &Rdh) -> (ok: bool)
    ensures
        ok == rdh_sane(*r),
{
    r.header_size == 64 && r.reserved0 == 0 && (r.dataformat == 0 || r.dataformat == 2)
        && r.link_id <= 11 && r.memory_size >= 64 && r.offset_to_next >= r.memory_size
}

/// Every RDH that passes the sanity rules has the mandatory header size,
/// a known data format, and a link ID in the CRU range.
pub proof fn lemma_sane_rdh_fields(r: Rdh)
    requires
        rdh_sane(r),
    ensures
        r.header_size == 64,
        r.dataformat == 0 || r.dataformat == 2,
        r.link_id <= 11,
{
}

/// The value of a decimal digit character.
pub open spec fn spec_digit_val(c: char) -> Option<u8> {
    if c == '0' {
        Some(0u8)
    } else if c == '1' {
        Some(1u8)
    } else if c == '2' {
        Some(2u8)
    } else if c == '3' {
        Some(3u8)
    } else if c == '4' {
        Some(4u8)
    } else if c == '5' {
        Some(5u8)
    } else if c == '6' {
        Some(6u8)
    } else if c == '7' {
        Some(7u8)
    } else if c == '8' {
        Some(8u8)
    } else if c == '9' {
        Some(9u8)
    } else {
        None
    }
}

/// The FEE ID denoted by a stave string `L<layer>_<stave>` (case
/// insensitive in the leading letter): `{layer, 0, 0, stave}` packed,
/// provided the layer is below 8 and the stave below 32.
pub open spec fn spec_layer_stave_fee(s: Seq<char>) -> Option<u16> {
    if s.len() < 4 || s.len() > 5 {
        None
    } else if (s[0] != 'L' && s[0] != 'l') || s[2] != '_' {
        None
    } else if spec_digit_val(s[1]) is None {
        None
    } else if spec_digit_val(s[1])->Some_0 > 7 {
        None
    } else if s.len() == 4 {
        if spec_digit_val(s[3]) is None {
            None
        } else {
            Some(spec_fee_of_layer_stave(spec_digit_val(s[1])->Some_0, spec_digit_val(s[3])->Some_0))
        }
    } else {
        if spec_digit_val(s[3]) is None || spec_digit_val(s[4]) is None {
            None
        } else if spec_digit_val(s[3])->Some_0 * 10 + spec_digit_val(s[4])->Some_0 >= 32 {
            None
        } else {
            Some(spec_fee_of_layer_stave(spec_digit_val(s[1])->Some_0,
                (spec_digit_val(s[3])->Some_0 * 10 + spec_digit_val(s[4])->Some_0) as u8))
        }
    }
}

/// The value of a decimal digit character.
pub fn digit_val(c: char) -> (r: Option<u8>)
    ensures
        r == spec_digit_val(c),
{
    if c == '0' {
        Some(0)
    } else if c == '1' {
        Some(1)
    } else if c == '2' {
        Some(2)
    } else if c == '3' {
        Some(3)
    } else if c == '4' {
        Some(4)
    } else if c == '5' {
        Some(5)
    } else if c == '6' {
        Some(6)
    } else if c == '7' {
        Some(7)
    } else if c == '8' {
        Some(8)
    } else if c == '9' {
        Some(9)
    } else {
        None
    }
}

/// Map a stave string such as `L0_12` or `l3_2` to its FEE ID, packing
/// `{layer, 0, 0, stave}`; `None` when the string is not of that shape
/// or the layer or stave is out of range.
pub fn layer_stave_string_to_feeid(s: &str) -> (r: Option<u16>)
    ensures
        r == spec_layer_stave_fee(s@),
{
    let n = s.unicode_len();
    if n < 4 || n > 5 {
        return None;
    }
    let c0 = s.get_char(0);
    let c2 = s.get_char(2);
    if (c0 != 'L' && c0 != 'l') || c2 != '_' {
        return None;
    }
    let layer = match digit_val(s.get_char(1)) {
        Some(l) => l,
        None => { return None },
    };
    if layer > 7 {
        return None;
    }
    if n == 4 {
        match digit_val(s.get_char(3)) {
            Some(d) => Some(fee_of_layer_stave(layer, d)),
            None => None,
        }
    } else {
        let d1 = match digit_val(s.get_char(3)) {
            Some(d) => d,
            None => { return None },
        };
        let d2 = match digit_val(s.get_char(4)) {
            Some(d) => d,
            None => { return None },
        };
        let stave = d1 * 10 + d2;
        if stave >= 32 {
            None
        } else {
            Some(fee_of_layer_stave(layer, stave))
        }
    }
}

/// Round trip: a 64-byte buffer that carries the fields of `r` and an
/// acceptable header decodes to exactly `r`. Together with the contract
/// of `rdh_encode`, decoding an encoded RDH gives the RDH back.
pub proof fn lemma_rdh_round_trip(r: Rdh, bytes: Seq<u8>)
    requires
        bytes.len() == 64,
        rdh_of_bytes(bytes) == r,
        r.header_id == 6 || r.header_id == 7,
        r.header_size == 64,
    ensures
        spec_rdh_decode(bytes) == Some(r),
{
}

} // verus!
