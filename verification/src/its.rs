//! The ITS payload state machine: the payload of a CDP is a stream of
//! 10-byte words (9 bytes of payload, then the status-marker byte), and
//! the status words IHW, TDH, TDT and DDW0 frame the readout frames,
//! whose per-lane data words are collected into lane buffers.

use vstd::prelude::*;
use crate::alpide_words::LaneDataFrame;
use crate::text::dec_u64;

verus! {

/// The status-word classes of the ITS payload, by marker byte: `E0`
/// IHW, `E8` TDH, `F0` TDT, `E4` DDW0, `20`-`2F` a data word for the
/// lane in the low 5 bits, `F8` CDW.
#[derive(Clone, Copy, PartialEq, Eq, Structural, Debug)]
pub enum ItsWord {
    Ihw,
    Tdh,
    Tdt,
    Ddw0,
    Data(u8),
    Cdw,
    Unknown,
}

/// Classify a status-marker byte.
pub open spec fn spec_its_word(m: u8) -> ItsWord {
    if m == 0xE0 {
        ItsWord::Ihw
    } else if m == 0xE8 {
        ItsWord::Tdh
    } else if m == 0xF0 {
        ItsWord::Tdt
    } else if m == 0xE4 {
        ItsWord::Ddw0
    } else if 0x20 <= m && m <= 0x2F {
        ItsWord::Data((m & 0x1F) as u8)
    } else if m == 0xF8 {
        ItsWord::Cdw
    } else {
        ItsWord::Unknown
    }
}

/// Classify a status-marker byte.
pub fn its_word_of(m: u8) -> (r: ItsWord)
    ensures
        r == spec_its_word(m),
{
    if m == 0xE0 {
        ItsWord::Ihw
    } else if m == 0xE8 {
        ItsWord::Tdh
    } else if m == 0xF0 {
        ItsWord::Tdt
    } else if m == 0xE4 {
        ItsWord::Ddw0
    } else if 0x20 <= m && m <= 0x2F {
        ItsWord::Data(m & 0x1F)
    } else if m == 0xF8 {
        ItsWord::Cdw
    } else {
        ItsWord::Unknown
    }
}

/// Where the state machine stands between words: waiting for an IHW,
/// waiting for the TDH after an IHW, inside the data run of a trigger,
/// or just after a TDT (where an IHW, a continuation TDH or a DDW0 may
/// follow).
#[derive(Clone, Copy, PartialEq, Eq, Structural, Debug)]
pub enum PayloadState {
    Idle,
    ExpectTdh,
    Data,
    AfterTdt,
}

/// One lane buffer: the lane and its bytes collected so far.
#[verifier::ext_equal]
pub ghost struct LaneSpec {
    pub lane_id: u8,
    pub data: Seq<u8>,
}

/// The abstract state of the payload state machine.
#[verifier::ext_equal]
pub ghost struct FsmState {
    pub st: PayloadState,
    pub lanes: Seq<LaneSpec>,
    pub frames: Seq<Seq<LaneSpec>>,
    pub tdhs: Seq<(u32, u16)>,
    pub nerr: nat,
}

/// The state a fresh machine starts from.
pub open spec fn init_fsm_state() -> FsmState {
    FsmState {
        st: PayloadState::Idle,
        lanes: Seq::empty(),
        frames: Seq::empty(),
        tdhs: Seq::empty(),
        nerr: 0,
    }
}

/// Index of the buffer of the given lane, or -1.
pub open spec fn find_lane(lanes: Seq<LaneSpec>, id: u8) -> int
    decreases lanes.len(),
{
    if lanes.len() == 0 {
        -1
    } else if lanes[0].lane_id == id {
        0
    } else {
        let r = find_lane(lanes.drop_first(), id);
        if r == -1 {
            -1
        } else {
            r + 1
        }
    }
}

/// Append 9 bytes of a data word to the lane's buffer, creating it on
/// first sight.
pub open spec fn append_lane(lanes: Seq<LaneSpec>, id: u8, bytes: Seq<u8>) -> Seq<LaneSpec> {
    let i = find_lane(lanes, id);
    if i == -1 {
        lanes.push(LaneSpec { lane_id: id, data: bytes })
    } else {
        lanes.update(i, LaneSpec { lane_id: id, data: lanes[i].data + bytes })
    }
}

/// The bunch counter of a TDH word: the low 12 bits of its first two
/// bytes, little-endian.
pub open spec fn tdh_bc(w: Seq<u8>) -> u16 {
    (crate::rdh::spec_u16_le(w, 0) & 0x0FFF) as u16
}

/// The orbit of a TDH word: bytes 2 to 5, little-endian.
pub open spec fn tdh_orbit(w: Seq<u8>) -> u32 {
    crate::rdh::spec_u32_le(w, 2)
}

/// The internal-trigger flag of a TDH word: bit 0 of byte 6.
pub open spec fn tdh_internal(w: Seq<u8>) -> bool {
    w[6] & 1 != 0
}

/// The transition of the state machine on one 10-byte word.
pub open spec fn fsm_step(s: FsmState, w: Seq<u8>) -> FsmState {
    match spec_its_word(w[9]) {
        ItsWord::Ihw => if s.st == PayloadState::Idle || s.st == PayloadState::AfterTdt {
            FsmState { st: PayloadState::ExpectTdh, ..s }
        } else {
            FsmState { st: PayloadState::Idle, nerr: s.nerr + 1, ..s }
        },
        ItsWord::Tdh => if s.st == PayloadState::ExpectTdh || s.st == PayloadState::AfterTdt {
            let base = FsmState { st: PayloadState::Data, tdhs: s.tdhs.push((tdh_orbit(w), tdh_bc(w))), ..s };
            if s.st == PayloadState::ExpectTdh && !tdh_internal(w) {
                FsmState { nerr: s.nerr + 1, ..base }
            } else {
                base
            }
        } else {
            FsmState { st: PayloadState::Idle, nerr: s.nerr + 1, ..s }
        },
        ItsWord::Tdt => if s.st == PayloadState::Data {
            FsmState {
                st: PayloadState::AfterTdt,
                lanes: Seq::empty(),
                frames: s.frames.push(s.lanes),
                ..s
            }
        } else {
            FsmState { st: PayloadState::Idle, nerr: s.nerr + 1, ..s }
        },
        ItsWord::Ddw0 => if s.st == PayloadState::AfterTdt {
            FsmState { st: PayloadState::Idle, ..s }
        } else {
            FsmState { st: PayloadState::Idle, nerr: s.nerr + 1, ..s }
        },
        ItsWord::Data(lane) => if s.st == PayloadState::Data {
            FsmState { lanes: append_lane(s.lanes, lane, w.take(9)), ..s }
        } else {
            FsmState { st: PayloadState::Idle, nerr: s.nerr + 1, ..s }
        },
        ItsWord::Cdw => if s.st == PayloadState::Data {
            s
        } else {
            FsmState { st: PayloadState::Idle, nerr: s.nerr + 1, ..s }
        },
        ItsWord::Unknown => FsmState { st: PayloadState::Idle, nerr: s.nerr + 1, ..s },
    }
}

/// The state after the first `n` complete words of a payload.
pub open spec fn fsm_run(s: FsmState, b: Seq<u8>, n: int) -> FsmState
    decreases n,
{
    if n <= 0 {
        s
    } else {
        fsm_step(fsm_run(s, b, n - 1), b.subrange((n - 1) * 10, n * 10))
    }
}

/// The view of a lane buffer.
pub open spec fn lane_view(l: LaneDataFrame) -> LaneSpec {
    LaneSpec { lane_id: l.lane_id, data: l.lane_data@ }
}

/// Every recorded bunch counter fits in its 12 bits.
pub open spec fn tdhs_bounded(t: Seq<(u32, u16)>) -> bool {
    forall|i: int| 0 <= i < t.len() ==> (#[trigger] t[i]).1 < 4096
}

/// The ITS payload state machine, fed one CDP payload at a time.
pub struct ItsPayloadFsm {
    state: PayloadState,
    lanes: Vec<LaneDataFrame>,
    /// The `(orbit, bunch counter)` of every TDH seen, in order.
    tdhs: Vec<(u32, u16)>,
    errors: Ghost<nat>,
}

impl ItsPayloadFsm {
    /// The abstract state, without the emitted frames.
    pub closed spec fn abs(self, frames: Seq<Seq<LaneSpec>>) -> FsmState {
        FsmState {
            st: self.state,
            lanes: self.lanes@.map_values(|l: LaneDataFrame| lane_view(l)),
            frames: frames,
            tdhs: self.tdhs@,
            nerr: self.errors@,
        }
    }

    /// The machine's position between words.
    pub closed spec fn spec_state(self) -> PayloadState {
        self.state
    }

    /// The TDHs seen so far.
    pub closed spec fn spec_tdhs(self) -> Seq<(u32, u16)> {
        self.tdhs@
    }

    /// The `(orbit, bunch counter)` of every TDH seen so far, in order.
    pub fn tdhs(&self) -> (r: &Vec<(u32, u16)>)
        ensures
            r@ == self.spec_tdhs(),
    {
        &self.tdhs
    }

    /// How many protocol violations were counted so far.
    pub closed spec fn spec_errors(self) -> nat {
        self.errors@
    }

    /// A fresh machine.
    pub fn new() -> (r: Self)
        ensures
            r.abs(Seq::empty()) == init_fsm_state(),
            r.spec_tdhs() == Seq::<(u32, u16)>::empty(),
    {
        let r = ItsPayloadFsm {
            state: PayloadState::Idle,
            lanes: Vec::new(),
            tdhs: Vec::new(),
            errors: Ghost(0nat),
        };
        proof {
            assert(r.abs(Seq::empty()) =~= init_fsm_state());
        }
        r
    }

    /// Feed the machine the payload of one CDP page and collect the
    /// readout frames completed in it. Returns the lane buffers of each
    /// frame, one error message per protocol violation, and one more
    /// message when the payload ends inside a word.
    pub fn process_payload(&mut self, payload: &Vec<u8>) -> (r: (
        Vec<Vec<LaneDataFrame>>,
        Vec<String>,
    ))
        ensures
            ({
                let words = payload@.len() as int / 10;
                let fin = fsm_run(old(self).abs(Seq::empty()), payload@, words);
                &&& final(self).abs(Seq::empty()) == (FsmState { frames: Seq::empty(), ..fin })
                &&& r.0@.map_values(|f: Vec<LaneDataFrame>| f@.map_values(|l: LaneDataFrame| lane_view(l)))
                    == fin.frames
                &&& r.1@.len() == (fin.nerr - old(self).spec_errors()) + (if payload@.len() % 10 == 0 {
                    0int
                } else {
                    1int
                })
            }),
            tdhs_bounded(old(self).spec_tdhs()) ==> tdhs_bounded(final(self).spec_tdhs()),
    {
        let ghost s0 = self.abs(Seq::empty());
        let mut frames: Vec<Vec<LaneDataFrame>> = Vec::new();
        let mut msgs: Vec<String> = Vec::new();
        let plen = payload.len();
        let n_words = plen / 10;
        let mut w: usize = 0;
        proof {
            assert(frames@.map_values(
                |f: Vec<LaneDataFrame>| f@.map_values(|l: LaneDataFrame| lane_view(l)),
            ) =~= Seq::<Seq<LaneSpec>>::empty());
            assert(self.abs(Seq::empty()) =~= fsm_run(s0, payload@, 0));
        }
        while w < n_words
            invariant
                plen == payload@.len(),
                n_words == payload@.len() as int / 10,
                w <= n_words,
                s0 == old(self).abs(Seq::empty()),
                s0.nerr == old(self).spec_errors(),
                self.abs(frames@.map_values(
                    |f: Vec<LaneDataFrame>| f@.map_values(|l: LaneDataFrame| lane_view(l)),
                )) == fsm_run(s0, payload@, w as int),
                msgs@.len() == fsm_run(s0, payload@, w as int).nerr - s0.nerr,
                self.spec_errors() == fsm_run(s0, payload@, w as int).nerr,
                s0.nerr <= fsm_run(s0, payload@, w as int).nerr <= s0.nerr + w,
                tdhs_bounded(old(self).spec_tdhs()) ==> tdhs_bounded(self.spec_tdhs()),
            decreases n_words - w,
        {
            proof {
                vstd::arithmetic::div_mod::lemma_fundamental_div_mod(payload@.len() as int, 10);
                assert(w * 10 + 10 <= payload@.len()) by (nonlinear_arith)
                    requires
                        w < n_words,
                        n_words == payload@.len() as int / 10,
                        payload@.len() as int == 10 * (payload@.len() as int / 10) + (payload@.len()
                            as int % 10),
                        0 <= payload@.len() as int % 10 < 10,
                ;
            }
            let word_start = w * 10;
            self.process_word(payload, word_start, &mut frames, &mut msgs);
            proof {
                assert((w + 1) * 10 == w * 10 + 10) by (nonlinear_arith);
            }
            w = w + 1;
        }
        if payload.len() % 10 != 0 {
            msgs.push(String::from_str("payload ends inside a 10-byte word"));
        }
        (frames, msgs)
    }

    /// Feed the machine the complete word at `payload[start..start + 10]`.
    fn process_word(
        &mut self,
        payload: &Vec<u8>,
        start: usize,
        frames: &mut Vec<Vec<LaneDataFrame>>,
        msgs: &mut Vec<String>,
    )
        requires
            start + 10 <= payload@.len(),
        ensures
            ({
                let w = payload@.subrange(start as int, start + 10);
                let s0 = old(self).abs(
                    old(frames)@.map_values(
                        |f: Vec<LaneDataFrame>| f@.map_values(|l: LaneDataFrame| lane_view(l)),
                    ),
                );
                let s1 = fsm_step(s0, w);
                &&& final(self).abs(
                    final(frames)@.map_values(
                        |f: Vec<LaneDataFrame>| f@.map_values(|l: LaneDataFrame| lane_view(l)),
                    ),
                ) == s1
                &&& final(msgs)@.len() == old(msgs)@.len() + (s1.nerr - s0.nerr)
                &&& final(self).spec_errors() == s1.nerr
                &&& s0.nerr <= s1.nerr <= s0.nerr + 1
            }),
            tdhs_bounded(old(self).spec_tdhs()) ==> tdhs_bounded(final(self).spec_tdhs()),
    {
        let plen = payload.len();
        let ghost w_bytes = payload@.subrange(start as int, start + 10);
        let ghost frames_view = frames@.map_values(
            |f: Vec<LaneDataFrame>| f@.map_values(|l: LaneDataFrame| lane_view(l)),
        );
        let ghost s0 = self.abs(frames_view);
        let marker = payload[start + 9];
        assert(marker == w_bytes[9]);
        let word = its_word_of(marker);
        match word {
            ItsWord::Ihw => {
                if self.state == PayloadState::Idle || self.state == PayloadState::AfterTdt {
                    self.state = PayloadState::ExpectTdh;
                } else {
                    self.state = PayloadState::Idle;
                    self.errors = Ghost(self.errors@ + 1);
                    msgs.push(String::from_str("IHW outside idle or trailer context"));
                }
            },
            ItsWord::Tdh => {
                if self.state == PayloadState::ExpectTdh || self.state == PayloadState::AfterTdt {
                    let internal = payload[start + 6] & 1 != 0;
                    let bc = ((payload[start] as u16) | ((payload[start + 1] as u16) << 8)) & 0x0FFF;
                    let orbit = (payload[start + 2] as u32) | ((payload[start + 3] as u32) << 8) | ((
                    payload[start + 4] as u32) << 16) | ((payload[start + 5] as u32) << 24);
                    assert(bc == tdh_bc(w_bytes));
                    assert(orbit == tdh_orbit(w_bytes));
                    proof {
                        let x = crate::rdh::spec_u16_le(w_bytes, 0);
                        assert(x & 0x0FFF < 4096) by (bit_vector);
                    }
                    let was_expect = self.state == PayloadState::ExpectTdh;
                    self.state = PayloadState::Data;
                    self.tdhs.push((orbit, bc));
                    if was_expect && !internal {
                        self.errors = Ghost(self.errors@ + 1);
                        msgs.push(
                            String::from_str("TDH without internal trigger outside continuation"),
                        );
                    }
                } else {
                    self.state = PayloadState::Idle;
                    self.errors = Ghost(self.errors@ + 1);
                    msgs.push(String::from_str("TDH outside header or trailer context"));
                }
            },
            ItsWord::Tdt => {
                if self.state == PayloadState::Data {
                    self.state = PayloadState::AfterTdt;
                    let mut done: Vec<LaneDataFrame> = Vec::new();
                    core::mem::swap(&mut self.lanes, &mut done);
                    frames.push(done);
                    proof {
                        let new_frames_view = frames@.map_values(
                            |f: Vec<LaneDataFrame>| f@.map_values(|l: LaneDataFrame| lane_view(l)),
                        );
                        assert(new_frames_view =~= frames_view.push(s0.lanes));
                        assert(self.lanes@.map_values(|l: LaneDataFrame| lane_view(l))
                            =~= Seq::<LaneSpec>::empty());
                    }
                } else {
                    self.state = PayloadState::Idle;
                    self.errors = Ghost(self.errors@ + 1);
                    msgs.push(String::from_str("TDT outside data run"));
                }
            },
            ItsWord::Ddw0 => {
                if self.state == PayloadState::AfterTdt {
                    self.state = PayloadState::Idle;
                } else {
                    self.state = PayloadState::Idle;
                    self.errors = Ghost(self.errors@ + 1);
                    msgs.push(String::from_str("DDW0 outside trailer context"));
                }
            },
            ItsWord::Data(lane) => {
                if self.state == PayloadState::Data {
                    self.append_lane_bytes(lane, payload, start);
                    proof {
                        assert(w_bytes.take(9) =~= payload@.subrange(start as int, start + 9));
                    }
                } else {
                    self.state = PayloadState::Idle;
                    self.errors = Ghost(self.errors@ + 1);
                    let mut msg = String::from_str("data word for lane ");
                    msg.append(dec_u64(lane as u64).as_str());
                    msg.append(" outside data run");
                    msgs.push(msg);
                }
            },
            ItsWord::Cdw => {
                if self.state == PayloadState::Data {
                } else {
                    self.state = PayloadState::Idle;
                    self.errors = Ghost(self.errors@ + 1);
                    msgs.push(String::from_str("CDW outside data run"));
                }
            },
            ItsWord::Unknown => {
                self.state = PayloadState::Idle;
                self.errors = Ghost(self.errors@ + 1);
                msgs.push(String::from_str("unknown status word"));
            },
        }
        proof {
            let fv = final(frames)@.map_values(
                |f: Vec<LaneDataFrame>| f@.map_values(|l: LaneDataFrame| lane_view(l)),
            );
            assert(final(self).abs(fv) =~= fsm_step(s0, w_bytes));
        }
    }

    /// Append the 9 payload bytes at `payload[start..start + 9]` to the
    /// buffer of `lane`, creating it on first sight.
    fn append_lane_bytes(&mut self, lane: u8, payload: &Vec<u8>, start: usize)
        requires
            start + 9 <= payload@.len(),
        ensures
            final(self).lanes@.map_values(|l: LaneDataFrame| lane_view(l)) == append_lane(
                old(self).lanes@.map_values(|l: LaneDataFrame| lane_view(l)),
                lane,
                payload@.subrange(start as int, start + 9),
            ),
            final(self).state == old(self).state,
            final(self).tdhs@ == old(self).tdhs@,
            final(self).errors == old(self).errors,
    {
        let plen = payload.len();
        let ghost lv0 = self.lanes@.map_values(|l: LaneDataFrame| lane_view(l));
        let ghost bytes = payload@.subrange(start as int, start + 9);
        let n = self.lanes.len();
        let mut i: usize = 0;
        while i < n
            invariant
                n == self.lanes@.len(),
                i <= n,
                plen == payload@.len(),
                start + 9 <= plen,
                *self == *old(self),
                lv0 == self.lanes@.map_values(|l: LaneDataFrame| lane_view(l)),
                bytes == payload@.subrange(start as int, start + 9),
                forall|j: int| 0 <= j < i ==> self.lanes@[j].lane_id != lane,
            decreases n - i,
        {
            if self.lanes[i].lane_id == lane {
                proof {
                    lemma_find_lane_at(lv0, lane, i as int);
                }
                let mut k: usize = start;
                let ghost data0 = self.lanes@[i as int].lane_data@;
                proof {
                    assert(data0 + payload@.subrange(start as int, start as int) =~= data0);
                }
                while k < start + 9
                    invariant
                        plen == payload@.len(),
                        start <= k <= start + 9 <= plen,
                        bytes == payload@.subrange(start as int, start + 9),
                        lv0 == old(self).lanes@.map_values(|l: LaneDataFrame| lane_view(l)),
                        find_lane(lv0, lane) == i,
                        i < self.lanes@.len(),
                        self.lanes@.len() == n,
                        self.lanes@[i as int].lane_id == lane,
                        self.lanes@[i as int].lane_data@ == data0 + payload@.subrange(
                            start as int,
                            k as int,
                        ),
                        forall|j: int|
                            0 <= j < n && j != i ==> self.lanes@[j] == old(self).lanes@[j],
                        self.state == old(self).state,
                        self.tdhs@ == old(self).tdhs@,
                        self.errors == old(self).errors,
                        data0 == old(self).lanes@[i as int].lane_data@,
                    decreases start + 9 - k,
                {
                    let byte = payload[k];
                    self.lanes[i].lane_data.push(byte);
                    proof {
                        assert(self.lanes@[i as int].lane_data@ =~= data0 + payload@.subrange(
                            start as int,
                            k + 1,
                        ));
                    }
                    k = k + 1;
                }
                proof {
                    let lv1 = self.lanes@.map_values(|l: LaneDataFrame| lane_view(l));
                    let upd = append_lane(lv0, lane, bytes);
                    assert(find_lane(lv0, lane) == i);
                    assert(lv0[i as int].data == data0);
                    assert(k == start + 9);
                    assert(payload@.subrange(start as int, k as int) =~= bytes);
                    assert(self.lanes@[i as int].lane_data@ =~= data0 + bytes);
                    assert forall|j: int| 0 <= j < lv1.len() implies lv1[j] =~= upd[j] by {
                        if j == i {
                            assert(lv1[j].data == data0 + bytes);
                            assert(upd[j].data == lv0[i as int].data + bytes);
                        } else {
                            assert(self.lanes@[j] == old(self).lanes@[j]);
                            assert(upd[j] == lv0[j]);
                        }
                    }
                    assert(lv1 =~= upd);
                }
                return ;
            }
            i = i + 1;
        }
        proof {
            lemma_find_lane_range(lv0, lane);
        }
        let chunk = crate::scan::copy_range(payload, start, start + 9);
        self.lanes.push(LaneDataFrame { lane_id: lane, lane_data: chunk });
        proof {
            let lv1 = self.lanes@.map_values(|l: LaneDataFrame| lane_view(l));
            assert(lv1 =~= append_lane(lv0, lane, bytes));
        }
    }
}

proof fn lemma_find_lane_at(lanes: Seq<LaneSpec>, id: u8, i: int)
    requires
        0 <= i < lanes.len(),
        lanes[i].lane_id == id,
        forall|j: int| 0 <= j < i ==> lanes[j].lane_id != id,
    ensures
        find_lane(lanes, id) == i,
    decreases lanes.len(),
{
    if i > 0 {
        lemma_find_lane_at(lanes.drop_first(), id, i - 1);
    }
}

proof fn lemma_find_lane_range(lanes: Seq<LaneSpec>, id: u8)
    ensures
        -1 <= find_lane(lanes, id) < lanes.len(),
        find_lane(lanes, id) == -1 ==> forall|j: int| 0 <= j < lanes.len() ==> lanes[j].lane_id != id,
        find_lane(lanes, id) >= 0 ==> lanes[find_lane(lanes, id)].lane_id == id,
    decreases lanes.len(),
{
    if lanes.len() > 0 && lanes[0].lane_id != id {
        lemma_find_lane_range(lanes.drop_first(), id);
        assert(forall|j: int| 1 <= j < lanes.len() ==> lanes[j] == lanes.drop_first()[j - 1]);
    }
}

/// Two consecutive TDHs of the same orbit violate the configured
/// trigger period: the distance of their bunch counters around the
/// 3564-slot orbit differs from the period.
pub open spec fn period_viol(a: (u32, u16), b: (u32, u16), period: u16) -> bool {
    a.0 == b.0 && (b.1 + 7128 - a.1) % 3564 != period
}

/// How many consecutive TDH pairs of the first `n` violate the period.
pub open spec fn count_period_viols(tdhs: Seq<(u32, u16)>, period: u16, n: int) -> int
    decreases n,
{
    if n <= 1 {
        0
    } else {
        count_period_viols(tdhs, period, n - 1) + (if period_viol(tdhs[n - 2], tdhs[n - 1], period) {
            1int
        } else {
            0int
        })
    }
}

/// The message of one trigger-period violation: the expected period and
/// the observed bunch-counter distance.
pub open spec fn period_msg_chars(period: u16, a: (u32, u16), b: (u32, u16)) -> Seq<char> {
    "trigger period mismatch "@ + crate::text::dec_chars(period as nat) + " != "@
        + crate::text::dec_chars(((b.1 + 7128 - a.1) % 3564) as nat)
}

/// The messages of the period violations among the first `n` TDHs, in
/// order.
pub open spec fn period_msgs(tdhs: Seq<(u32, u16)>, period: u16, n: int) -> Seq<Seq<char>>
    decreases n,
{
    if n <= 1 {
        Seq::empty()
    } else {
        period_msgs(tdhs, period, n - 1) + (if period_viol(tdhs[n - 2], tdhs[n - 1], period) {
            seq![period_msg_chars(period, tdhs[n - 2], tdhs[n - 1])]
        } else {
            Seq::empty()
        })
    }
}

/// Check the trigger period over the TDHs of a run: one message for
/// each consecutive pair of TDHs within the same orbit whose
/// bunch-counter distance differs from the period, naming the expected
/// period and the observed distance.
pub fn check_trigger_periods(tdhs: &Vec<(u32, u16)>, period: u16) -> (msgs: Vec<String>)
    requires
        forall|i: int| 0 <= i < tdhs@.len() ==> (#[trigger] tdhs@[i]).1 < 4096,
    ensures
        msgs@.len() == count_period_viols(tdhs@, period, tdhs@.len() as int),
        msgs@.map_values(|m: String| m@) == period_msgs(tdhs@, period, tdhs@.len() as int),
{
    let mut msgs: Vec<String> = Vec::new();
    let n = tdhs.len();
    if n < 2 {
        assert(msgs@.map_values(|m: String| m@) =~= period_msgs(tdhs@, period, n as int));
        return msgs;
    }
    let mut i: usize = 1;
    assert(msgs@.map_values(|m: String| m@) =~= period_msgs(tdhs@, period, 1));
    while i < n
        invariant
            n == tdhs@.len(),
            1 <= i <= n,
            msgs@.len() == count_period_viols(tdhs@, period, i as int),
            msgs@.map_values(|m: String| m@) == period_msgs(tdhs@, period, i as int),
            forall|j: int| 0 <= j < tdhs@.len() ==> (#[trigger] tdhs@[j]).1 < 4096,
        decreases n - i,
    {
        let (prev_orbit, prev_bc) = tdhs[i - 1];
        let (orbit, bc) = tdhs[i];
        let ghost before = msgs@.map_values(|m: String| m@);
        if prev_orbit == orbit {
            assert(tdhs@[i as int - 1].1 < 4096);
            assert(tdhs@[i as int].1 < 4096);
            assert(prev_bc == tdhs@[i as int - 1].1);
            assert(bc == tdhs@[i as int].1);
            let diff = (bc as u32 + 7128 - prev_bc as u32) % 3564;
            if diff != period as u32 {
                let mut msg = String::from_str("trigger period mismatch ");
                msg.append(dec_u64(period as u64).as_str());
                msg.append(" != ");
                msg.append(dec_u64(diff as u64).as_str());
                assert(msg@ == period_msg_chars(period, tdhs@[i - 1], tdhs@[i as int]));
                msgs.push(msg);
                proof {
                    assert(msgs@.map_values(|m: String| m@) =~= before + seq![
                        period_msg_chars(period, tdhs@[i - 1], tdhs@[i as int]),
                    ]);
                }
            }
        }
        i = i + 1;
    }
    msgs
}

} // verus!
