//! The input scanner: frame a raw byte stream into `(RDH, payload,
//! memory offset)` tuples, enforcing the version and size rules, and
//! the byte-verbatim filter that re-emits matching packets.

use vstd::prelude::*;
use crate::rdh::{
    rdh_decode, rdh_header_ok, rdh_of_bytes, same_layer_stave, Rdh,
};

verus! {

/// Why scanning stopped: reading past the end of the stream inside a
/// header or payload, a header that does not decode, or a version
/// change in the middle of the run.
#[derive(Clone, Copy, PartialEq, Eq, Structural, Debug)]
pub enum ScanError {
    /// A header or payload runs past the end of the input; the offset
    /// is where the truncated packet began.
    TruncatedAt(u64),
    /// The bytes at the offset do not decode as an RDH, or its sizes
    /// are inconsistent.
    Malformed(u64),
    /// The RDH at the offset carries another version than the first
    /// RDH of the run: expected, got, offset.
    VersionMismatch(u8, u8, u64),
}

/// One framed packet: the decoded RDH, its payload bytes, and the byte
/// offset the RDH was read from.
pub struct CdpPacket {
    pub rdh: Rdh,
    pub payload: Vec<u8>,
    pub mem_pos: u64,
}

/// The abstract form of a framed packet.
#[verifier::ext_equal]
pub ghost struct PacketSpec {
    pub rdh: Rdh,
    pub payload: Seq<u8>,
    pub mem_pos: int,
}

impl CdpPacket {
    /// The abstract form of the packet.
    pub open spec fn pk(self) -> PacketSpec {
        PacketSpec { rdh: self.rdh, payload: self.payload@, mem_pos: self.mem_pos as int }
    }
}

/// What scanning the stream from `pos` yields, knowing the version of
/// the run once the first RDH was read: the packets up to the end of
/// the stream, or the first fatal error. A packet whose
/// `offset_to_next` points at or past the end of the stream is the
/// last.
pub open spec fn spec_scan(b: Seq<u8>, pos: int, ver: Option<u8>) -> Result<
    Seq<PacketSpec>,
    ScanError,
>
    decreases b.len() - pos,
{
    if pos < 0 || pos >= b.len() {
        Ok(Seq::empty())
    } else if pos + 64 > b.len() {
        Err(ScanError::TruncatedAt(pos as u64))
    } else {
        let hdr = b.subrange(pos, pos + 64);
        if !rdh_header_ok(hdr) {
            Err(ScanError::Malformed(pos as u64))
        } else {
            let r = rdh_of_bytes(hdr);
            if ver is Some && ver->Some_0 != r.header_id {
                Err(ScanError::VersionMismatch(ver->Some_0, r.header_id, pos as u64))
            } else if r.memory_size < 64 || r.offset_to_next < r.memory_size {
                Err(ScanError::Malformed(pos as u64))
            } else if pos + r.memory_size > b.len() {
                Err(ScanError::TruncatedAt(pos as u64))
            } else {
                let packet = PacketSpec {
                    rdh: r,
                    payload: b.subrange(pos + 64, pos + r.memory_size),
                    mem_pos: pos,
                };
                if pos + r.offset_to_next >= b.len() {
                    Ok(seq![packet])
                } else {
                    match spec_scan(b, pos + r.offset_to_next, Some(r.header_id)) {
                        Ok(rest) => Ok(seq![packet] + rest),
                        Err(e) => Err(e),
                    }
                }
            }
        }
    }
}

/// An empty input scans to no packets at all.
pub proof fn lemma_scan_empty(b: Seq<u8>)
    requires
        b.len() == 0,
    ensures
        spec_scan(b, 0, None) == Ok::<Seq<PacketSpec>, ScanError>(Seq::<PacketSpec>::empty()),
{
}

/// An input whose first RDH is cut short is rejected as truncated at
/// offset 0.
pub proof fn lemma_scan_truncated_first(b: Seq<u8>)
    requires
        0 < b.len() < 64,
    ensures
        spec_scan(b, 0, None) == Err::<Seq<PacketSpec>, ScanError>(ScanError::TruncatedAt(0)),
{
}

/// Scan the whole stream into packets, or stop at the first fatal
/// error; the result is exactly what the scan relation yields from
/// offset 0 with the version still unknown.
pub fn scan_cdps(b: &Vec<u8>) -> (r: Result<Vec<CdpPacket>, ScanError>)
    ensures
        r is Ok <==> spec_scan(b@, 0, None) is Ok,
        r is Ok ==> r->Ok_0@.map_values(|p: CdpPacket| p.pk()) == spec_scan(b@, 0, None)->Ok_0,
        r is Err ==> Err::<Seq<PacketSpec>, ScanError>(r->Err_0) == spec_scan(b@, 0, None),
{
    let mut out: Vec<CdpPacket> = Vec::new();
    let mut pos: usize = 0;
    let mut ver: Option<u8> = None;
    let n = b.len();
    loop
        invariant
            n == b@.len(),
            pos <= n,
            (match spec_scan(b@, pos as int, ver) {
                Ok(rest) => spec_scan(b@, 0, None) == Ok::<Seq<PacketSpec>, ScanError>(
                    out@.map_values(|p: CdpPacket| p.pk()) + rest,
                ),
                Err(e) => spec_scan(b@, 0, None) == Err::<Seq<PacketSpec>, ScanError>(e),
            }),
        decreases n - pos,
    {
        let ghost scan_here = spec_scan(b@, pos as int, ver);
        if pos >= n {
            assert(out@.map_values(|p: CdpPacket| p.pk()) + Seq::<PacketSpec>::empty()
                =~= out@.map_values(|p: CdpPacket| p.pk()));
            return Ok(out);
        }
        if n - pos < 64 {
            return Err(ScanError::TruncatedAt(pos as u64));
        }
        let ghost hdr = b@.subrange(pos as int, pos + 64);
        let rdh = match rdh_decode(b.as_slice(), pos) {
            Ok(r) => r,
            Err(_) => {
                return Err(ScanError::Malformed(pos as u64));
            },
        };
        assert(rdh == rdh_of_bytes(hdr));
        if let Some(v) = ver {
            if v != rdh.header_id {
                return Err(ScanError::VersionMismatch(v, rdh.header_id, pos as u64));
            }
        }
        if rdh.memory_size < 64 || rdh.offset_to_next < rdh.memory_size {
            return Err(ScanError::Malformed(pos as u64));
        }
        let msize = rdh.memory_size as usize;
        if msize > n - pos {
            return Err(ScanError::TruncatedAt(pos as u64));
        }
        let ghost prev_mapped = out@.map_values(|p: CdpPacket| p.pk());
        let payload = copy_range(b, pos + 64, pos + msize);
        let packet = CdpPacket { rdh, payload, mem_pos: pos as u64 };
        let ghost pk = packet.pk();
        proof {
            let spec_pk = PacketSpec {
                rdh: rdh_of_bytes(hdr),
                payload: b@.subrange(pos + 64, pos + rdh.memory_size),
                mem_pos: pos as int,
            };
            assert(pk.payload =~= spec_pk.payload);
            assert(pk == spec_pk);
        }
        out.push(packet);
        let ghost mapped = out@.map_values(|p: CdpPacket| p.pk());
        proof {
            assert(mapped =~= prev_mapped + seq![pk]);
        }
        let step = rdh.offset_to_next as usize;
        if step >= n - pos {
            proof {
                assert(scan_here == Ok::<Seq<PacketSpec>, ScanError>(seq![pk]));
                assert(prev_mapped + seq![pk] =~= mapped + Seq::<PacketSpec>::empty());
                assert(mapped + Seq::<PacketSpec>::empty() =~= mapped);
            }
            assert(spec_scan(b@, 0, None) == Ok::<Seq<PacketSpec>, ScanError>(
                out@.map_values(|p: CdpPacket| p.pk()),
            ));
            return Ok(out);
        }
        proof {
            let rest_scan = spec_scan(b@, pos + rdh.offset_to_next, Some(rdh.header_id));
            match rest_scan {
                Ok(rest) => {
                    assert(scan_here == Ok::<Seq<PacketSpec>, ScanError>(seq![pk] + rest));
                    assert(prev_mapped + (seq![pk] + rest) =~= mapped + rest);
                    assert(spec_scan(b@, 0, None) == Ok::<Seq<PacketSpec>, ScanError>(
                        mapped + rest,
                    ));
                },
                Err(e) => {
                    assert(scan_here == Err::<Seq<PacketSpec>, ScanError>(e));
                },
            }
        }
        pos = pos + step;
        ver = Some(rdh.header_id);
    }
}

/// Copy the bytes of `b` between `from` and `to`.
pub fn copy_range(b: &Vec<u8>, from: usize, to: usize) -> (r: Vec<u8>)
    requires
        from <= to <= b@.len(),
    ensures
        r@ == b@.subrange(from as int, to as int),
{
    let mut out: Vec<u8> = Vec::new();
    let mut i: usize = from;
    while i < to
        invariant
            from <= i <= to <= b@.len(),
            out@ == b@.subrange(from as int, i as int),
        decreases to - i,
    {
        out.push(b[i]);
        assert(out@ =~= b@.subrange(from as int, i + 1));
        i = i + 1;
    }
    out
}

/// What the stream is filtered by: a CRU link, a full FEE ID, or the
/// layer and stave encoded in the FEE ID.
#[derive(Clone, Copy, PartialEq, Eq, Structural, Debug)]
pub enum FilterTarget {
    Link(u8),
    Fee(u16),
    ItsStave(u16),
}

/// An RDH passes the filter: its link, its FEE ID, or its layer and
/// stave match the target.
pub open spec fn matches_filter(t: FilterTarget, r: Rdh) -> bool {
    match t {
        FilterTarget::Link(l) => r.link_id == l,
        FilterTarget::Fee(f) => r.fee_id == f,
        FilterTarget::ItsStave(f) => same_layer_stave(r.fee_id, f),
    }
}

/// Check an RDH against the filter target.
pub fn rdh_matches_filter(t: &FilterTarget, r: &Rdh) -> (m: bool)
    ensures
        m == matches_filter(*t, *r),
{
    match t {
        FilterTarget::Link(l) => r.link_id == *l,
        FilterTarget::Fee(f) => r.fee_id == *f,
        FilterTarget::ItsStave(f) => {
            let layer = crate::rdh::layer_of_fee(r.fee_id);
            let stave = crate::rdh::stave_of_fee(r.fee_id);
            layer == crate::rdh::layer_of_fee(*f) && stave == crate::rdh::stave_of_fee(*f)
        },
    }
}

/// The original bytes of the packets whose RDH passes the filter, in
/// source order: for each matching packet, the `memory_size` bytes
/// beginning at its RDH.
pub open spec fn filter_concat(b: Seq<u8>, ps: Seq<PacketSpec>, t: FilterTarget) -> Seq<u8>
    decreases ps.len(),
{
    if ps.len() == 0 {
        Seq::empty()
    } else {
        let head = if matches_filter(t, ps[0].rdh) {
            b.subrange(ps[0].mem_pos, ps[0].mem_pos + 64 + ps[0].payload.len())
        } else {
            Seq::empty()
        };
        head + filter_concat(b, ps.drop_first(), t)
    }
}

/// Every packet of a scan lies within the stream, its payload is the
/// slice after its header, and its sizes are consistent.
pub open spec fn packet_in_bounds(b: Seq<u8>, p: PacketSpec) -> bool {
    &&& 0 <= p.mem_pos
    &&& p.mem_pos + p.rdh.memory_size <= b.len()
    &&& p.rdh.memory_size >= 64
    &&& p.rdh.offset_to_next >= p.rdh.memory_size
    &&& p.payload.len() == p.rdh.memory_size - 64
}

/// Every packet a scan yields is in bounds.
pub proof fn lemma_scan_bounds(b: Seq<u8>, pos: int, ver: Option<u8>)
    requires
        spec_scan(b, pos, ver) is Ok,
    ensures
        forall|i: int|
            0 <= i < spec_scan(b, pos, ver)->Ok_0.len() ==> packet_in_bounds(
                b,
                #[trigger] spec_scan(b, pos, ver)->Ok_0[i],
            ),
    decreases b.len() - pos,
{
    if 0 <= pos && pos + 64 <= b.len() {
        let hdr = b.subrange(pos, pos + 64);
        if rdh_header_ok(hdr) {
            let r = rdh_of_bytes(hdr);
            if !(ver is Some && ver->Some_0 != r.header_id) && r.memory_size >= 64
                && r.offset_to_next >= r.memory_size && pos + r.memory_size <= b.len() && pos
                + r.offset_to_next < b.len() {
                lemma_scan_bounds(b, pos + r.offset_to_next, Some(r.header_id));
            }
        }
    }
}

/// Re-emit the original bytes of every packet whose RDH passes the
/// filter, in source order, counting the matches.
pub fn filter_output(b: &Vec<u8>, packets: &Vec<CdpPacket>, t: &FilterTarget) -> (r: (
    Vec<u8>,
    u64,
))
    requires
        forall|i: int|
            0 <= i < packets@.len() ==> packet_in_bounds(b@, #[trigger] packets@[i].pk()),
    ensures
        r.0@ == filter_concat(b@, packets@.map_values(|p: CdpPacket| p.pk()), *t),
        r.1 == count_matches(packets@.map_values(|p: CdpPacket| p.pk()), *t),
{
    let ghost ps = packets@.map_values(|p: CdpPacket| p.pk());
    let mut out: Vec<u8> = Vec::new();
    let mut count: u64 = 0;
    let n = packets.len();
    let mut i: usize = 0;
    proof {
        assert(ps.skip(0) =~= ps);
        assert(Seq::<u8>::empty() + filter_concat(b@, ps, *t) =~= filter_concat(b@, ps, *t));
        assert(ps.take(0) =~= Seq::<PacketSpec>::empty());
    }
    while i < n
        invariant
            n == packets@.len(),
            ps == packets@.map_values(|p: CdpPacket| p.pk()),
            i <= n,
            forall|k: int| 0 <= k < n ==> packet_in_bounds(b@, #[trigger] packets@[k].pk()),
            out@ + filter_concat(b@, ps.skip(i as int), *t) == filter_concat(b@, ps, *t),
            count == count_matches(ps.take(i as int), *t),
            count <= i,
        decreases n - i,
    {
        proof {
            assert(ps.skip(i as int)[0] == packets@[i as int].pk());
            assert(ps.skip(i as int).drop_first() =~= ps.skip(i + 1));
            lemma_count_take(ps, *t, i as int);
        }
        assert(packet_in_bounds(b@, packets@[i as int].pk()));
        let blen = b.len();
        let p = &packets[i];
        assert(p.mem_pos + p.rdh.memory_size <= blen);
        if rdh_matches_filter(t, &p.rdh) {
            let from = p.mem_pos as usize;
            let to = from + p.rdh.memory_size as usize;
            assert(to == packets@[i as int].pk().mem_pos + 64 + packets@[i as int].pk().payload.len());
            let mut chunk = copy_range(b, from, to);
            let ghost out_before = out@;
            append_vec(&mut out, chunk);
            proof {
                assert(out@ =~= out_before + b@.subrange(
                    packets@[i as int].pk().mem_pos,
                    packets@[i as int].pk().mem_pos + 64 + packets@[i as int].pk().payload.len(),
                ));
            }
            count = count + 1;
        }
        i = i + 1;
    }
    proof {
        assert(ps.skip(n as int) =~= Seq::<PacketSpec>::empty());
        assert(out@ + Seq::<u8>::empty() =~= out@);
        assert(ps.take(n as int) =~= ps);
    }
    (out, count)
}

/// How many packets pass the filter.
pub open spec fn count_matches(ps: Seq<PacketSpec>, t: FilterTarget) -> int
    decreases ps.len(),
{
    if ps.len() == 0 {
        0
    } else {
        (if matches_filter(t, ps[0].rdh) {
            1int
        } else {
            0int
        }) + count_matches(ps.drop_first(), t)
    }
}

/// One more packet raises the count exactly when it matches.
proof fn lemma_count_take(ps: Seq<PacketSpec>, t: FilterTarget, k: int)
    requires
        0 <= k < ps.len(),
    ensures
        count_matches(ps.take(k + 1), t) == count_matches(ps.take(k), t) + (if matches_filter(
            t,
            ps[k].rdh,
        ) {
            1int
        } else {
            0int
        }),
        count_matches(ps.take(k), t) <= k,
        count_matches(ps.take(k), t) >= 0,
    decreases k,
{
    if k == 0 {
        assert(ps.take(1) =~= seq![ps[0]]);
        assert(ps.take(1).drop_first() =~= Seq::<PacketSpec>::empty());
        assert(ps.take(0) =~= Seq::<PacketSpec>::empty());
    } else {
        lemma_count_take(ps.drop_first(), t, k - 1);
        assert(ps.take(k + 1).drop_first() =~= ps.drop_first().take(k));
        assert(ps.take(k).drop_first() =~= ps.drop_first().take(k - 1));
        assert(ps.drop_first()[k - 1] == ps[k]);
        assert(ps.take(k + 1)[0] == ps[0]);
        assert(ps.take(k)[0] == ps[0]);
    }
}

/// Append the bytes of `more` to `out`.
pub fn append_vec(out: &mut Vec<u8>, more: Vec<u8>)
    ensures
        final(out)@ == old(out)@ + more@,
{
    let n = more.len();
    let mut i: usize = 0;
    while i < n
        invariant
            n == more@.len(),
            i <= n,
            out@ == old(out)@ + more@.take(i as int),
        decreases n - i,
    {
        out.push(more[i]);
        assert(out@ =~= old(out)@ + more@.take(i + 1));
        i = i + 1;
    }
    assert(out@ =~= old(out)@ + more@);
}

/// When every packet of a scan passes the filter and every packet's
/// `offset_to_next` equals its `memory_size`, the filtered output is
/// the whole input, byte for byte.
pub proof fn lemma_filter_identity(b: Seq<u8>, pos: int, ver: Option<u8>, t: FilterTarget)
    requires
        0 <= pos <= b.len(),
        spec_scan(b, pos, ver) is Ok,
        forall|i: int|
            0 <= i < spec_scan(b, pos, ver)->Ok_0.len() ==> matches_filter(
                t,
                (#[trigger] spec_scan(b, pos, ver)->Ok_0[i]).rdh,
            ),
        forall|i: int|
            0 <= i < spec_scan(b, pos, ver)->Ok_0.len() ==> (#[trigger] spec_scan(
                b,
                pos,
                ver,
            )->Ok_0[i]).rdh.offset_to_next == spec_scan(b, pos, ver)->Ok_0[i].rdh.memory_size,
    ensures
        filter_concat(b, spec_scan(b, pos, ver)->Ok_0, t) == b.subrange(pos, b.len() as int),
    decreases b.len() - pos,
{
    let ps = spec_scan(b, pos, ver)->Ok_0;
    if pos >= b.len() {
        assert(ps =~= Seq::<PacketSpec>::empty());
        assert(filter_concat(b, ps, t) =~= b.subrange(pos, b.len() as int));
    } else {
        let hdr = b.subrange(pos, pos + 64);
        let r = rdh_of_bytes(hdr);
        let head = b.subrange(pos, pos + r.memory_size);
        if pos + r.offset_to_next >= b.len() {
            assert(ps[0].rdh == r);
            assert(ps[0].payload == b.subrange(pos + 64, pos + r.memory_size));
            assert(ps[0].mem_pos == pos);
            assert(matches_filter(t, ps[0].rdh));
            assert(ps[0].rdh.offset_to_next == ps[0].rdh.memory_size);
            assert(pos + r.memory_size == b.len());
            assert(ps.drop_first() =~= Seq::<PacketSpec>::empty());
            assert(ps[0].payload.len() == r.memory_size - 64);
            assert(b.subrange(ps[0].mem_pos, ps[0].mem_pos + 64 + ps[0].payload.len()) == head);
            assert(filter_concat(b, ps.drop_first(), t) == Seq::<u8>::empty());
            assert(filter_concat(b, ps, t) =~= head + Seq::<u8>::empty());
            assert(filter_concat(b, ps, t) =~= b.subrange(pos, b.len() as int));
        } else {
            let rest = spec_scan(b, pos + r.offset_to_next, Some(r.header_id))->Ok_0;
            assert(ps == seq![ps[0]] + rest);
            assert forall|i: int| 0 <= i < rest.len() implies matches_filter(
                t,
                (#[trigger] rest[i]).rdh,
            ) && rest[i].rdh.offset_to_next == rest[i].rdh.memory_size by {
                assert(ps[i + 1] == rest[i]);
            }
            lemma_filter_identity(b, pos + r.offset_to_next, Some(r.header_id), t);
            assert(ps.drop_first() =~= rest);
            assert(ps[0].rdh == r);
            assert(filter_concat(b, ps, t) =~= head + b.subrange(
                pos + r.offset_to_next,
                b.len() as int,
            ));
            assert(filter_concat(b, ps, t) =~= b.subrange(pos, b.len() as int));
        }
    }
}

} // verus!
