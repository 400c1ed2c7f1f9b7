//! Decoding of ALPIDE lane data and the per-lane checks: chip count,
//! chip-id order and intra-chip bunch-counter agreement.
//!
//! ALPIDE words are recognised by high bits, first match wins:
//! `1010xxxx` chip header (next byte is the bunch counter),
//! `1110xxxx` chip empty frame (likewise), `1011xxxx` chip trailer,
//! `110xxxxx` region header, `01xxxxxx` data short (one byte follows),
//! `00xxxxxx` data long (two bytes follow), `11110001` busy on,
//! `11110000` busy off; a zero byte outside an open chip is padding.

use vstd::prelude::*;
use crate::dedup::{dedup_first, lemma_dedup_all_eq, lemma_dedup_single, unique_u16};
use crate::text::dec_u64;

verus! {

/// Which barrel of the ITS a lane belongs to: the Inner Barrel has one
/// chip per lane, the Outer Barrel seven.
#[derive(Clone, Copy, PartialEq, Eq, Structural, Debug)]
pub enum Barrel {
    Inner,
    Outer,
}

/// What one chip reported within a readout frame.
#[derive(Clone, Copy, PartialEq, Eq, Structural, Debug)]
pub struct AlpideFrameChipData {
    /// The 4-bit chip identifier.
    pub chip_id: u8,
    /// The single bunch counter the chip reported, once seen.
    pub bunch_counter: Option<u8>,
}

/// The bytes of one lane carved out of a readout frame.
#[derive(Clone, Debug)]
pub struct LaneDataFrame {
    /// The lane identifier: the low 5 bits of the data-word marker.
    pub lane_id: u8,
    /// The lane's payload bytes, in readout order.
    pub lane_data: Vec<u8>,
}

impl LaneDataFrame {
    /// The lane number the frame belongs to; for both barrels it is the
    /// low 5 bits of the lane identifier.
    pub fn lane_number(&self, barrel: Barrel) -> (r: u8)
        ensures
            r == self.lane_id & 0x1F,
    {
        match barrel {
            Barrel::Inner => self.lane_id & 0x1F,
            Barrel::Outer => self.lane_id & 0x1F,
        }
    }
}

/// The ALPIDE word classes.
#[derive(Clone, Copy, PartialEq, Eq, Structural, Debug)]
pub enum AlpideWord {
    ChipHeader,
    ChipEmptyFrame,
    ChipTrailer,
    RegionHeader,
    DataShort,
    DataLong,
    BusyOn,
    BusyOff,
}

/// Classify a byte as an ALPIDE word, by high bits, first match wins.
pub open spec fn spec_alpide_word(b: u8) -> Option<AlpideWord> {
    if b & 0xF0 == 0xA0 {
        Some(AlpideWord::ChipHeader)
    } else if b & 0xF0 == 0xE0 {
        Some(AlpideWord::ChipEmptyFrame)
    } else if b & 0xF0 == 0xB0 {
        Some(AlpideWord::ChipTrailer)
    } else if b & 0xE0 == 0xC0 {
        Some(AlpideWord::RegionHeader)
    } else if b & 0xC0 == 0x40 {
        Some(AlpideWord::DataShort)
    } else if b & 0xC0 == 0x00 {
        Some(AlpideWord::DataLong)
    } else if b == 0xF1 {
        Some(AlpideWord::BusyOn)
    } else if b == 0xF0 {
        Some(AlpideWord::BusyOff)
    } else {
        None
    }
}

impl AlpideWord {
    /// Classify a byte as an ALPIDE word; `None` for an unrecognised
    /// byte.
    pub fn from_byte(b: u8) -> (r: Option<AlpideWord>)
        ensures
            r == spec_alpide_word(b),
    {
        if b & 0xF0 == 0xA0 {
            Some(AlpideWord::ChipHeader)
        } else if b & 0xF0 == 0xE0 {
            Some(AlpideWord::ChipEmptyFrame)
        } else if b & 0xF0 == 0xB0 {
            Some(AlpideWord::ChipTrailer)
        } else if b & 0xE0 == 0xC0 {
            Some(AlpideWord::RegionHeader)
        } else if b & 0xC0 == 0x40 {
            Some(AlpideWord::DataShort)
        } else if b & 0xC0 == 0x00 {
            Some(AlpideWord::DataLong)
        } else if b == 0xF1 {
            Some(AlpideWord::BusyOn)
        } else if b == 0xF0 {
            Some(AlpideWord::BusyOff)
        } else {
            None
        }
    }
}

/// The decoder state that the byte-level transition relation speaks of.
#[verifier::ext_equal]
pub ghost struct DecoderState {
    pub header_seen: bool,
    pub last_chip_id: u8,
    pub skip: u8,
    pub next_is_bc: bool,
    pub chips: Seq<AlpideFrameChipData>,
    pub nerr: nat,
}

/// Index of the first chip record with the given id, or -1.
pub open spec fn find_chip(chips: Seq<AlpideFrameChipData>, id: u8) -> int
    decreases chips.len(),
{
    if chips.len() == 0 {
        -1
    } else if chips[0].chip_id == id {
        0
    } else {
        let r = find_chip(chips.drop_first(), id);
        if r == -1 {
            -1
        } else {
            r + 1
        }
    }
}

pub proof fn lemma_find_chip_range(chips: Seq<AlpideFrameChipData>, id: u8)
    ensures
        -1 <= find_chip(chips, id) < chips.len(),
        find_chip(chips, id) >= 0 ==> chips[find_chip(chips, id)].chip_id == id,
        find_chip(chips, id) >= 0 ==> forall|j: int|
            0 <= j < find_chip(chips, id) ==> chips[j].chip_id != id,
        find_chip(chips, id) == -1 ==> forall|j: int| 0 <= j < chips.len() ==> chips[j].chip_id != id,
    decreases chips.len(),
{
    if chips.len() > 0 && chips[0].chip_id != id {
        lemma_find_chip_range(chips.drop_first(), id);
        assert(forall|j: int| 1 <= j < chips.len() ==> chips[j] == chips.drop_first()[j - 1]);
    }
}

pub proof fn lemma_find_chip_at(chips: Seq<AlpideFrameChipData>, id: u8, i: int)
    requires
        0 <= i < chips.len(),
        chips[i].chip_id == id,
        forall|j: int| 0 <= j < i ==> chips[j].chip_id != id,
    ensures
        find_chip(chips, id) == i,
    decreases chips.len(),
{
    if i > 0 {
        lemma_find_chip_at(chips.drop_first(), id, i - 1);
    }
}

/// Record a bunch counter for the chip `last_chip_id`: create the record
/// on first sight, accept a repeated equal value, and flag a conflicting
/// one (a chip records exactly one bunch counter per frame).
pub open spec fn store_bc_step(s: DecoderState, bc: u8) -> DecoderState {
    let i = find_chip(s.chips, s.last_chip_id);
    if i == -1 {
        DecoderState {
            chips: s.chips.push(
                AlpideFrameChipData { chip_id: s.last_chip_id, bunch_counter: Some(bc) },
            ),
            ..s
        }
    } else if s.chips[i].bunch_counter is None {
        DecoderState {
            chips: s.chips.update(
                i,
                AlpideFrameChipData { chip_id: s.last_chip_id, bunch_counter: Some(bc) },
            ),
            ..s
        }
    } else if s.chips[i].bunch_counter == Some(bc) {
        s
    } else {
        DecoderState { nerr: s.nerr + 1, ..s }
    }
}

/// The transition of the lane decoder on one byte.
pub open spec fn alpide_step(s: DecoderState, b: u8) -> DecoderState {
    if s.skip > 0 {
        DecoderState { skip: (s.skip - 1) as u8, ..s }
    } else if s.next_is_bc {
        DecoderState { next_is_bc: false, ..store_bc_step(s, b) }
    } else if !s.header_seen && b == 0 {
        s
    } else {
        match spec_alpide_word(b) {
            Some(AlpideWord::ChipHeader) => DecoderState {
                header_seen: true,
                last_chip_id: b & 0xF,
                next_is_bc: true,
                ..s
            },
            Some(AlpideWord::ChipEmptyFrame) => DecoderState {
                header_seen: false,
                last_chip_id: b & 0xF,
                next_is_bc: true,
                ..s
            },
            Some(AlpideWord::ChipTrailer) => DecoderState { header_seen: false, ..s },
            Some(AlpideWord::RegionHeader) => DecoderState { header_seen: true, ..s },
            Some(AlpideWord::DataShort) => DecoderState { skip: 1, ..s },
            Some(AlpideWord::DataLong) => DecoderState { skip: 2, ..s },
            Some(AlpideWord::BusyOn) => s,
            Some(AlpideWord::BusyOff) => s,
            None => s,
        }
    }
}

/// The decoder state after consuming the first `n` bytes of a lane.
pub open spec fn alpide_run(s: DecoderState, bytes: Seq<u8>, n: int) -> DecoderState
    decreases n,
{
    if n <= 0 {
        s
    } else {
        alpide_step(alpide_run(s, bytes, n - 1), bytes[n - 1])
    }
}

/// The chip identifiers of the collected chip records, in order.
pub open spec fn chip_ids_of(chips: Seq<AlpideFrameChipData>) -> Seq<u8> {
    chips.map_values(|cd: AlpideFrameChipData| cd.chip_id)
}

/// All chip records agree on the bunch counter.
pub open spec fn bc_all_eq(chips: Seq<AlpideFrameChipData>) -> bool {
    forall|i: int, j: int|
        0 <= i < chips.len() && 0 <= j < chips.len() ==> chips[i].bunch_counter
            == chips[j].bunch_counter
}

/// The bunch counter of a chip record as a comparable code: the counter
/// itself, or 256 when none was recorded.
pub open spec fn bc_code(cd: AlpideFrameChipData) -> u16 {
    match cd.bunch_counter {
        Some(b) => b as u16,
        None => 256,
    }
}

/// The number of chip records a lane must carry: one in the Inner
/// Barrel, seven otherwise.
pub open spec fn spec_chip_count_ok(barrel: Option<Barrel>, chips: Seq<AlpideFrameChipData>) -> bool {
    if barrel == Some(Barrel::Inner) {
        chips.len() == 1
    } else {
        chips.len() == 7
    }
}

/// The first legal Outer Barrel chip-id order, 0 through 6.
pub open spec fn ob_order_low() -> Seq<u8> {
    seq![0u8, 1u8, 2u8, 3u8, 4u8, 5u8, 6u8]
}

/// The second legal Outer Barrel chip-id order, 8 through 14.
pub open spec fn ob_order_high() -> Seq<u8> {
    seq![8u8, 9u8, 10u8, 11u8, 12u8, 13u8, 14u8]
}

/// The legal chip identifiers of a lane: in the Inner Barrel the first
/// chip carries the lane number; in the Outer Barrel the chip ids are
/// one of the two legal orders (the defaults, or the configured
/// replacements).
pub open spec fn spec_chip_order_ok(
    barrel: Option<Barrel>,
    orders: Option<(Seq<u8>, Seq<u8>)>,
    lane: u8,
    chips: Seq<AlpideFrameChipData>,
) -> bool {
    match barrel {
        None => true,
        Some(Barrel::Inner) => chips.len() >= 1 && chips[0].chip_id == lane,
        Some(Barrel::Outer) => {
            let ids = chip_ids_of(chips);
            match orders {
                Some(o) => ids == o.0 || ids == o.1,
                None => ids == ob_order_low() || ids == ob_order_high(),
            }
        },
    }
}

/// The default low Outer Barrel chip-id order, 0 through 6.
pub fn ob_order_low_vec() -> (r: Vec<u8>)
    ensures
        r@ == ob_order_low(),
{
    let mut v: Vec<u8> = Vec::new();
    v.push(0);
    v.push(1);
    v.push(2);
    v.push(3);
    v.push(4);
    v.push(5);
    v.push(6);
    assert(v@ =~= ob_order_low());
    v
}

/// The default high Outer Barrel chip-id order, 8 through 14.
pub fn ob_order_high_vec() -> (r: Vec<u8>)
    ensures
        r@ == ob_order_high(),
{
    let mut v: Vec<u8> = Vec::new();
    v.push(8);
    v.push(9);
    v.push(10);
    v.push(11);
    v.push(12);
    v.push(13);
    v.push(14);
    assert(v@ =~= ob_order_high());
    v
}

/// Decodes the data of a single lane of a readout frame and checks it:
/// chip count and chip-id set per barrel, and one bunch counter per
/// chip and per lane.
pub struct AlpideLaneFrameDecoder {
    /// The lane under inspection, set by `validate_alpide_frame`.
    lane_number: u8,
    /// Set when a chip or region header is seen, reset on a trailer.
    is_header_seen: bool,
    /// The 4-bit id of the chip whose words are being read.
    last_chip_id: u8,
    /// Bytes still to swallow after a data word.
    skip_n_bytes: u8,
    /// One record per chip seen in the frame.
    chip_data: Vec<AlpideFrameChipData>,
    /// The next byte is the bunch counter of `last_chip_id`.
    next_is_bc: bool,
    /// Accumulated error messages.
    errors: Vec<String>,
    /// Where the lane's data comes from.
    barrel: Option<Barrel>,
    /// Replacement chip-id orders for Outer Barrel lanes, when the
    /// defaults 0..=6 and 8..=14 are overridden.
    ob_chip_orders: Option<(Vec<u8>, Vec<u8>)>,
}

impl AlpideLaneFrameDecoder {
    /// The state the byte-level transition relation speaks of.
    pub closed spec fn abs(self) -> DecoderState {
        DecoderState {
            header_seen: self.is_header_seen,
            last_chip_id: self.last_chip_id,
            skip: self.skip_n_bytes,
            next_is_bc: self.next_is_bc,
            chips: self.chip_data@,
            nerr: self.errors@.len(),
        }
    }

    /// The chip records collected so far.
    pub closed spec fn spec_chips(self) -> Seq<AlpideFrameChipData> {
        self.chip_data@
    }

    /// The accumulated error messages.
    pub closed spec fn spec_errors(self) -> Seq<String> {
        self.errors@
    }

    /// The barrel the decoder was created for.
    pub closed spec fn spec_barrel(self) -> Option<Barrel> {
        self.barrel
    }

    /// The lane under inspection.
    pub closed spec fn spec_lane_number(self) -> u8 {
        self.lane_number
    }

    /// Every chip record carries a bunch counter.
    pub closed spec fn wf(self) -> bool {
        forall|i: int| 0 <= i < self.chip_data@.len() ==> self.chip_data@[i].bunch_counter is Some
    }

    /// A fresh decoder for a lane of the given barrel.
    pub fn new(data_origin: Barrel) -> (r: Self)
        ensures
            r.abs() == (DecoderState {
                header_seen: false,
                last_chip_id: 0,
                skip: 0,
                next_is_bc: false,
                chips: Seq::empty(),
                nerr: 0,
            }),
            r.spec_barrel() == Some(data_origin),
            r.spec_errors() == Seq::<String>::empty(),
            r.spec_lane_number() == 0,
            r.spec_ob_orders() is None,
            r.wf(),
    {
        Self {
            lane_number: 0,
            is_header_seen: false,
            last_chip_id: 0,
            skip_n_bytes: 0,
            chip_data: Vec::new(),
            next_is_bc: false,
            errors: Vec::new(),
            barrel: Some(data_origin),
            ob_chip_orders: None,
        }
    }

    /// The configured replacement Outer Barrel chip-id orders.
    pub closed spec fn spec_ob_orders(self) -> Option<(Seq<u8>, Seq<u8>)> {
        match self.ob_chip_orders {
            Some(p) => Some((p.0@, p.1@)),
            None => None,
        }
    }

    /// Replace the legal Outer Barrel chip-id orders.
    pub fn set_ob_chip_orders(&mut self, orders: (Vec<u8>, Vec<u8>))
        ensures
            final(self).spec_ob_orders() == Some((orders.0@, orders.1@)),
            final(self).abs() == old(self).abs(),
            old(self).wf() ==> final(self).wf(),
            final(self).spec_barrel() == old(self).spec_barrel(),
            final(self).spec_errors() == old(self).spec_errors(),
            final(self).spec_lane_number() == old(self).spec_lane_number(),
    {
        self.ob_chip_orders = Some(orders);
    }

    /// Consume one byte of lane data; the state advances by the
    /// transition relation, and at most one error message is recorded.
    pub fn process(&mut self, alpide_byte: u8)
        ensures
            final(self).abs() == alpide_step(old(self).abs(), alpide_byte),
            final(self).spec_barrel() == old(self).spec_barrel(),
            final(self).spec_lane_number() == old(self).spec_lane_number(),
            final(self).spec_ob_orders() == old(self).spec_ob_orders(),
            old(self).spec_errors().is_prefix_of(final(self).spec_errors()),
            old(self).wf() ==> final(self).wf(),
    {
        if self.skip_n_bytes > 0 {
            self.skip_n_bytes = self.skip_n_bytes - 1;
            return ;
        }
        if self.next_is_bc {
            if let Err(msg) = self.store_bunch_counter(alpide_byte) {
                self.errors.push(msg);
            }
            self.next_is_bc = false;
            assert(final(self).abs() =~= alpide_step(old(self).abs(), alpide_byte));
            return ;
        }
        if !self.is_header_seen && alpide_byte == 0 {
            return ;
        }
        match AlpideWord::from_byte(alpide_byte) {
            Some(word) => match word {
                AlpideWord::ChipHeader => {
                    self.is_header_seen = true;
                    self.last_chip_id = alpide_byte & 0xF;
                    self.next_is_bc = true;
                },
                AlpideWord::ChipEmptyFrame => {
                    self.is_header_seen = false;
                    self.last_chip_id = alpide_byte & 0xF;
                    self.next_is_bc = true;
                },
                AlpideWord::ChipTrailer => {
                    self.is_header_seen = false;
                },
                AlpideWord::RegionHeader => {
                    self.is_header_seen = true;
                },
                AlpideWord::DataShort => {
                    self.skip_n_bytes = 1;
                },
                AlpideWord::DataLong => {
                    self.skip_n_bytes = 2;
                },
                AlpideWord::BusyOn => {},
                AlpideWord::BusyOff => {},
            },
            None => {},
        }
        assert(final(self).abs() =~= alpide_step(old(self).abs(), alpide_byte));
    }

    /// Record the bunch counter for the current chip: the chip's record
    /// is created or filled on first sight, a repeated equal value is
    /// accepted, and a conflicting one yields an error.
    fn store_bunch_counter(&mut self, bc: u8) -> (r: Result<(), String>)
        ensures
            ({
                let s = old(self).abs();
                let i = find_chip(s.chips, s.last_chip_id);
                &&& (r is Ok <==> (i == -1 || s.chips[i].bunch_counter is None
                    || s.chips[i].bunch_counter == Some(bc)))
                &&& final(self).abs() == (DecoderState { nerr: s.nerr, ..store_bc_step(s, bc) })
            }),
            final(self).spec_errors() == old(self).spec_errors(),
            final(self).spec_barrel() == old(self).spec_barrel(),
            final(self).spec_lane_number() == old(self).spec_lane_number(),
            final(self).spec_ob_orders() == old(self).spec_ob_orders(),
            final(self).next_is_bc == old(self).next_is_bc,
            old(self).wf() ==> final(self).wf(),
    {
        let ghost s0 = self.abs();
        let n = self.chip_data.len();
        let mut i: usize = 0;
        while i < n
            invariant
                n == self.chip_data@.len(),
                i <= n,
                *self == *old(self),
                s0 == self.abs(),
                forall|j: int| 0 <= j < i ==> self.chip_data@[j].chip_id != self.last_chip_id,
            decreases n - i,
        {
            if self.chip_data[i].chip_id == self.last_chip_id {
                proof {
                    lemma_find_chip_at(s0.chips, s0.last_chip_id, i as int);
                }
                if let Some(prev) = self.chip_data[i].bunch_counter {
                    if prev == bc {
                        assert(self.abs() =~= (DecoderState {
                            nerr: s0.nerr,
                            ..store_bc_step(s0, bc)
                        }));
                        return Ok(());
                    }
                    let mut msg = String::from_str("chip ");
                    msg.append(dec_u64(self.last_chip_id as u64).as_str());
                    msg.append(" reported conflicting bunch counters");
                    assert(self.abs() =~= (DecoderState { nerr: s0.nerr, ..store_bc_step(s0, bc) }));
                    return Err(msg);
                }
                self.chip_data[i].bunch_counter = Some(bc);
                assert(self.abs() =~= (DecoderState { nerr: s0.nerr, ..store_bc_step(s0, bc) }));
                return Ok(());
            }
            i = i + 1;
        }
        proof {
            lemma_find_chip_range(s0.chips, s0.last_chip_id);
        }
        self.chip_data.push(AlpideFrameChipData { chip_id: self.last_chip_id, bunch_counter: Some(bc) });
        assert(self.abs() =~= (DecoderState { nerr: s0.nerr, ..store_bc_step(s0, bc) }));
        Ok(())
    }

    /// Decode the readout frame byte by byte, then check the collected
    /// chip records; the accumulated error messages are drained into the
    /// result. Succeeds exactly when decoding recorded no error and the
    /// chip count, the chip-id set and the bunch counters are all legal
    /// for the lane's barrel.
    pub fn validate_alpide_frame(&mut self, lane_data_frame: LaneDataFrame) -> (r: Result<
        (),
        Vec<String>,
    >)
        requires
            old(self).wf(),
            old(self).spec_barrel() is Some,
        ensures
            final(self).spec_lane_number() == lane_data_frame.lane_id & 0x1F,
            final(self).spec_barrel() == old(self).spec_barrel(),
            final(self).spec_ob_orders() == old(self).spec_ob_orders(),
            final(self).wf(),
            final(self).spec_errors().len() == 0,
            ({
                let srun = alpide_run(
                    old(self).abs(),
                    lane_data_frame.lane_data@,
                    lane_data_frame.lane_data@.len() as int,
                );
                let lane = lane_data_frame.lane_id & 0x1F;
                &&& final(self).spec_chips() == srun.chips
                &&& (r is Ok <==> srun.nerr == 0 && bc_all_eq(srun.chips) && spec_chip_count_ok(
                    old(self).spec_barrel(),
                    srun.chips,
                ) && spec_chip_order_ok(
                    old(self).spec_barrel(),
                    old(self).spec_ob_orders(),
                    lane,
                    srun.chips,
                ))
            }),
            r is Ok ==> bc_all_eq(final(self).spec_chips()),
            r is Ok && old(self).spec_barrel() == Some(Barrel::Inner) ==> chip_ids_of(
                final(self).spec_chips()) =~= seq![(lane_data_frame.lane_id & 0x1F) as u8],
            r is Ok && old(self).spec_barrel() == Some(Barrel::Outer) ==> final(self).spec_chips().len()
                == 7 && spec_chip_order_ok(
                old(self).spec_barrel(),
                old(self).spec_ob_orders(),
                lane_data_frame.lane_id & 0x1F,
                final(self).spec_chips(),
            ),
            r is Err ==> r->Err_0@.len() > 0,
    {
        let LaneDataFrame { lane_id, lane_data } = lane_data_frame;
        let barrel = match self.barrel {
            Some(b) => b,
            None => {
                return Err(Vec::new());
            },
        };
        let frame_shell = LaneDataFrame { lane_id, lane_data: Vec::new() };
        self.lane_number = frame_shell.lane_number(barrel);
        let ghost s0 = self.abs();
        let n = lane_data.len();
        let mut idx: usize = 0;
        while idx < n
            invariant
                n == lane_data@.len(),
                idx <= n,
                self.abs() == alpide_run(s0, lane_data@, idx as int),
                self.spec_barrel() == old(self).spec_barrel(),
                self.spec_ob_orders() == old(self).spec_ob_orders(),
                self.spec_lane_number() == lane_id & 0x1F,
                self.wf(),
            decreases n - idx,
        {
            self.process(lane_data[idx]);
            idx = idx + 1;
        }
        let ghost srun = alpide_run(s0, lane_data@, n as int);
        if let Err(msg) = self.check_bunch_counters() {
            let mut wrapped = String::from_str("Bunch counters mismatch: ");
            wrapped.append(msg.as_str());
            self.errors.push(wrapped);
        }
        if let Err(msg) = self.check_chip_count() {
            let mut wrapped = String::from_str("Chip ID count mismatch: ");
            wrapped.append(msg.as_str());
            self.errors.push(wrapped);
        }
        if let Err(msg) = self.check_chip_id_order() {
            let mut wrapped = String::from_str("Chip ID order mismatch: ");
            wrapped.append(msg.as_str());
            self.errors.push(wrapped);
        }
        if self.has_errors() {
            let mut drained: Vec<String> = Vec::new();
            core::mem::swap(&mut self.errors, &mut drained);
            Err(drained)
        } else {
            Ok(())
        }
    }

    /// All collected chip records agree on the bunch counter; the error
    /// lists each distinct counter with the chips that reported it.
    pub fn check_bunch_counters(&self) -> (r: Result<(), String>)
        ensures
            r is Ok <==> bc_all_eq(self.spec_chips()),
    {
        let ghost chips = self.spec_chips();
        let n = self.chip_data.len();
        let mut codes: Vec<u16> = Vec::new();
        let mut i: usize = 0;
        while i < n
            invariant
                n == self.chip_data@.len(),
                i <= n,
                codes@.len() == i as int,
                forall|k: int| 0 <= k < i ==> codes@[k] == bc_code(self.chip_data@[k]),
            decreases n - i,
        {
            let code: u16 = match self.chip_data[i].bunch_counter {
                Some(b) => b as u16,
                None => 256,
            };
            codes.push(code);
            i = i + 1;
        }
        let uniq = unique_u16(&codes);
        if uniq.len() > 1 {
            proof {
                if bc_all_eq(chips) {
                    assert(forall|a: int, b: int|
                        0 <= a < codes@.len() && 0 <= b < codes@.len() ==> codes@[a] == codes@[b]);
                    lemma_dedup_all_eq(codes@);
                }
            }
            let mut msg = String::new();
            let mut u: usize = 0;
            while u < uniq.len()
                decreases uniq@.len() - u,
            {
                msg.append("bunch counter ");
                let code = uniq[u];
                if code == 256 {
                    msg.append("none");
                } else {
                    msg.append(dec_u64(code as u64).as_str());
                }
                msg.append(" on chips [");
                let mut c: usize = 0;
                let mut first = true;
                while c < self.chip_data.len()
                    decreases self.chip_data@.len() - c,
                {
                    let cc: u16 = match self.chip_data[c].bunch_counter {
                        Some(b) => b as u16,
                        None => 256,
                    };
                    if cc == code {
                        if !first {
                            msg.append(", ");
                        }
                        msg.append(dec_u64(self.chip_data[c].chip_id as u64).as_str());
                        first = false;
                    }
                    c = c + 1;
                }
                msg.append("] ");
                u = u + 1;
            }
            Err(msg)
        } else {
            proof {
                lemma_dedup_single(codes@);
                assert forall|a: int, b: int|
                    0 <= a < chips.len() && 0 <= b < chips.len() implies chips[a].bunch_counter
                    == chips[b].bunch_counter by {
                    assert(codes@[a] == bc_code(chips[a]));
                    assert(codes@[b] == bc_code(chips[b]));
                }
            }
            Ok(())
        }
    }

    /// The number of collected chip records is what the barrel demands:
    /// one in the Inner Barrel, seven otherwise.
    pub fn check_chip_count(&self) -> (r: Result<(), String>)
        ensures
            r is Ok <==> spec_chip_count_ok(self.spec_barrel(), self.spec_chips()),
    {
        let inner = match self.barrel {
            Some(Barrel::Inner) => true,
            _ => false,
        };
        if inner {
            if self.chip_data.len() != 1 {
                let mut msg = String::from_str("expected 1 chip ID in IB but found ");
                msg.append(dec_u64(self.chip_data.len() as u64).as_str());
                msg.append(": ");
                msg.append(self.chip_ids_string().as_str());
                return Err(msg);
            }
        } else if self.chip_data.len() != 7 {
            let mut msg = String::from_str("expected 7 chip IDs in OB but found ");
            msg.append(dec_u64(self.chip_data.len() as u64).as_str());
            msg.append(": ");
            msg.append(self.chip_ids_string().as_str());
            return Err(msg);
        }
        Ok(())
    }

    /// The collected chip identifiers are legal for the barrel: the lane
    /// number itself in the Inner Barrel, one of the two legal orders in
    /// the Outer Barrel.
    pub fn check_chip_id_order(&self) -> (r: Result<(), String>)
        ensures
            r is Ok <==> spec_chip_order_ok(
                self.spec_barrel(),
                self.spec_ob_orders(),
                self.spec_lane_number(),
                self.spec_chips(),
            ),
    {
        match self.barrel {
            None => Ok(()),
            Some(Barrel::Inner) => {
                if self.chip_data.len() == 0 {
                    return Err(String::from_str("no chip decoded in IB lane"));
                }
                if self.chip_data[0].chip_id != self.lane_number {
                    let mut msg = String::from_str("expected chip ID ");
                    msg.append(dec_u64(self.lane_number as u64).as_str());
                    msg.append(" in IB but found ");
                    msg.append(dec_u64(self.chip_data[0].chip_id as u64).as_str());
                    return Err(msg);
                }
                Ok(())
            },
            Some(Barrel::Outer) => {
                let ok = match &self.ob_chip_orders {
                    Some(orders) => {
                        let a = self.ids_match_first(&orders.0);
                        let b = self.ids_match_first(&orders.1);
                        a || b
                    },
                    None => {
                        let low = ob_order_low_vec();
                        let high = ob_order_high_vec();
                        let a = self.ids_match_first(&low);
                        let b = self.ids_match_first(&high);
                        a || b
                    },
                };
                if ok {
                    Ok(())
                } else {
                    let mut msg = String::from_str("expected [0-6] or [8-14] in OB but found ");
                    msg.append(self.chip_ids_string().as_str());
                    Err(msg)
                }
            },
        }
    }

    /// The collected chip identifiers equal the given order.
    fn ids_match_first(&self, expected: &Vec<u8>) -> (r: bool)
        ensures
            r == (chip_ids_of(self.spec_chips()) == expected@),
    {
        let n = self.chip_data.len();
        if n != expected.len() {
            assert(chip_ids_of(self.spec_chips()).len() == n as int);
            return false;
        }
        let mut i: usize = 0;
        while i < n
            invariant
                n == self.chip_data@.len(),
                n == expected@.len(),
                i <= n,
                forall|k: int| 0 <= k < i ==> self.chip_data@[k].chip_id == expected@[k],
            decreases n - i,
        {
            if self.chip_data[i].chip_id != expected[i] {
                assert(chip_ids_of(self.spec_chips())[i as int] != expected@[i as int]);
                return false;
            }
            i = i + 1;
        }
        assert(chip_ids_of(self.spec_chips()) =~= expected@);
        true
    }

    /// The collected chip identifiers, rendered like `[0, 1, 2]`.
    fn chip_ids_string(&self) -> String {
        let mut s = String::from_str("[");
        let mut i: usize = 0;
        while i < self.chip_data.len()
            decreases self.chip_data@.len() - i,
        {
            if i > 0 {
                s.append(", ");
            }
            s.append(dec_u64(self.chip_data[i].chip_id as u64).as_str());
            i = i + 1;
        }
        s.append("]");
        s
    }

    /// The chip records collected from the lane.
    pub fn chip_data(&self) -> (r: &Vec<AlpideFrameChipData>)
        ensures
            r@ == self.spec_chips(),
    {
        &self.chip_data
    }

    /// There are accumulated error messages.
    pub fn has_errors(&self) -> (r: bool)
        ensures
            r == (self.spec_errors().len() > 0),
    {
        !self.errors.is_empty()
    }
}

} // verus!
