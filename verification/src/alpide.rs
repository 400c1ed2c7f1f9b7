//! ALPIDE validation of a whole readout frame: every lane is decoded
//! and checked on its own, and the bunch counters of the cleanly
//! validated lanes are then compared across lanes.

use vstd::prelude::*;
use crate::alpide_words::{
    alpide_run, bc_all_eq, spec_chip_count_ok, spec_chip_order_ok, AlpideLaneFrameDecoder, Barrel,
    DecoderState, LaneDataFrame,
};
use crate::dedup::{dedup_first, lemma_dedup_all_eq, lemma_dedup_single, unique_u16};
use crate::text::dec_u64;

verus! {

/// A readout frame: the per-lane byte buffers carved out of one trigger,
/// together with the barrel the data comes from.
pub struct AlpideReadoutFrame {
    /// The barrel of the stave the frame was read from.
    pub from_layer: Barrel,
    /// One data frame per lane, in readout order.
    pub lane_data_frames: Vec<LaneDataFrame>,
}

impl AlpideReadoutFrame {
    /// The barrel the frame was read from.
    pub fn from_layer(&self) -> (r: Barrel)
        ensures
            r == self.from_layer,
    {
        self.from_layer
    }

    /// Take the per-lane data frames out of the frame.
    pub fn take_lane_data_frames(self) -> (r: Vec<LaneDataFrame>)
        ensures
            r == self.lane_data_frames,
    {
        self.lane_data_frames
    }
}

/// A lane that passed its own checks, with the one bunch counter its
/// chips agreed on.
#[derive(Clone, Copy, PartialEq, Eq, Structural, Debug)]
pub struct ValidatedLane {
    /// The lane number.
    pub lane_id: u8,
    /// The bunch counter all chips of the lane reported.
    pub bunch_counter: u8,
}

/// The views of an optional pair of replacement Outer Barrel chip-id
/// orders.
pub open spec fn orders_view(o: Option<(Vec<u8>, Vec<u8>)>) -> Option<(Seq<u8>, Seq<u8>)> {
    match o {
        Some(p) => Some((p.0@, p.1@)),
        None => None,
    }
}

/// The decoder state a fresh lane decoder starts from.
pub open spec fn init_decoder_state() -> DecoderState {
    DecoderState {
        header_seen: false,
        last_chip_id: 0,
        skip: 0,
        next_is_bc: false,
        chips: Seq::empty(),
        nerr: 0,
    }
}

/// A lane decodes without errors and passes the chip count, chip-id
/// order and intra-lane bunch-counter checks.
pub open spec fn lane_clean(
    barrel: Barrel,
    orders: Option<(Seq<u8>, Seq<u8>)>,
    lane: LaneDataFrame,
) -> bool {
    let srun = alpide_run(init_decoder_state(), lane.lane_data@, lane.lane_data@.len() as int);
    &&& srun.nerr == 0
    &&& bc_all_eq(srun.chips)
    &&& spec_chip_count_ok(Some(barrel), srun.chips)
    &&& spec_chip_order_ok(Some(barrel), orders, lane.lane_id & 0x1F, srun.chips)
}

/// The bunch counter the first chip of a lane reported, or 0 when there
/// is none (a clean lane always has one).
pub open spec fn lane_bc_val(lane: LaneDataFrame) -> u8 {
    let srun = alpide_run(init_decoder_state(), lane.lane_data@, lane.lane_data@.len() as int);
    if srun.chips.len() > 0 && srun.chips[0].bunch_counter is Some {
        srun.chips[0].bunch_counter->Some_0
    } else {
        0
    }
}

/// The cleanly validated lanes of a frame, each with its bunch counter,
/// in readout order.
pub open spec fn validated_of(
    barrel: Barrel,
    orders: Option<(Seq<u8>, Seq<u8>)>,
    lanes: Seq<LaneDataFrame>,
) -> Seq<ValidatedLane>
    decreases lanes.len(),
{
    if lanes.len() == 0 {
        Seq::empty()
    } else {
        let rest = validated_of(barrel, orders, lanes.drop_first());
        if lane_clean(barrel, orders, lanes[0]) {
            seq![
                ValidatedLane {
                    lane_id: lanes[0].lane_id & 0x1F,
                    bunch_counter: lane_bc_val(lanes[0]),
                },
            ] + rest
        } else {
            rest
        }
    }
}

/// The lane numbers of the lanes that fail their own checks, in
/// readout order.
pub open spec fn failing_lanes(
    barrel: Barrel,
    orders: Option<(Seq<u8>, Seq<u8>)>,
    lanes: Seq<LaneDataFrame>,
) -> Seq<u8>
    decreases lanes.len(),
{
    if lanes.len() == 0 {
        Seq::empty()
    } else {
        let rest = failing_lanes(barrel, orders, lanes.drop_first());
        if lane_clean(barrel, orders, lanes[0]) {
            rest
        } else {
            seq![(lanes[0].lane_id & 0x1F) as u8] + rest
        }
    }
}

/// The fixed head of a failing lane's combined error message.
pub open spec fn lane_err_prefix(lane: u8) -> Seq<char> {
    "Lane "@ + crate::text::dec_chars(lane as nat) + " errors: "@
}

/// All validated lanes agree on the bunch counter.
pub open spec fn lanes_bc_all_eq(v: Seq<ValidatedLane>) -> bool {
    forall|i: int, j: int|
        0 <= i < v.len() && 0 <= j < v.len() ==> v[i].bunch_counter == v[j].bunch_counter
}

/// The lane numbers of the validated lanes that reported bunch counter
/// `bc`, in order.
pub open spec fn lanes_with_bc(v: Seq<ValidatedLane>, bc: u16) -> Seq<u8>
    decreases v.len(),
{
    if v.len() == 0 {
        Seq::empty()
    } else {
        let rest = lanes_with_bc(v.drop_first(), bc);
        if v[0].bunch_counter as u16 == bc {
            seq![v[0].lane_id] + rest
        } else {
            rest
        }
    }
}

/// The lane numbers of the validated lanes grouped by bunch counter:
/// for each counter of `uniq` in order, the lanes that reported it.
pub open spec fn bc_partition_ids(v: Seq<ValidatedLane>, uniq: Seq<u16>) -> Seq<u8>
    decreases uniq.len(),
{
    if uniq.len() == 0 {
        Seq::empty()
    } else {
        lanes_with_bc(v, uniq[0]) + bc_partition_ids(v, uniq.drop_first())
    }
}

/// The bunch counters of the validated lanes, in order.
pub open spec fn bcs_of(v: Seq<ValidatedLane>) -> Seq<u16> {
    v.map_values(|l: ValidatedLane| l.bunch_counter as u16)
}

/// Compare the bunch counters of all cleanly validated lanes of a
/// readout frame: when they do not all agree, one message naming every
/// `(bunch counter, lanes)` partition is appended, and the lane numbers
/// of every partition are appended to the error ids. All lanes agree
/// exactly when nothing is appended.
pub fn validate_lane_bcs(
    validated_lanes: &Vec<ValidatedLane>,
    lane_error_msgs: &mut Vec<String>,
    lane_error_ids: &mut Vec<u8>,
)
    ensures
        lanes_bc_all_eq(validated_lanes@) <==> (final(lane_error_msgs)@ == old(lane_error_msgs)@
            && final(lane_error_ids)@ == old(lane_error_ids)@),
        !lanes_bc_all_eq(validated_lanes@) ==> final(lane_error_msgs)@.len() == old(
            lane_error_msgs,
        )@.len() + 1 && final(lane_error_ids)@ == old(lane_error_ids)@ + bc_partition_ids(
            validated_lanes@,
            dedup_first(bcs_of(validated_lanes@)),
        ),
        old(lane_error_msgs)@.is_prefix_of(final(lane_error_msgs)@),
{
    let ghost lanes = validated_lanes@;
    let n = validated_lanes.len();
    let mut bcs: Vec<u16> = Vec::new();
    let mut i: usize = 0;
    while i < n
        invariant
            n == lanes.len(),
            lanes == validated_lanes@,
            i <= n,
            bcs@.len() == i as int,
            forall|k: int| 0 <= k < i ==> bcs@[k] == lanes[k].bunch_counter as u16,
        decreases n - i,
    {
        bcs.push(validated_lanes[i].bunch_counter as u16);
        i = i + 1;
    }
    assert(bcs@ =~= bcs_of(lanes));
    let uniq = unique_u16(&bcs);
    if uniq.len() <= 1 {
        proof {
            lemma_dedup_single(bcs@);
            assert forall|a: int, b: int|
                0 <= a < lanes.len() && 0 <= b < lanes.len() implies lanes[a].bunch_counter
                == lanes[b].bunch_counter by {
                assert(bcs@[a] == lanes[a].bunch_counter as u16);
                assert(bcs@[b] == lanes[b].bunch_counter as u16);
            }
            assert(lanes_bc_all_eq(lanes));
        }
        assert(lane_error_msgs@.subrange(0, lane_error_msgs@.len() as int) =~= lane_error_msgs@);
        return ;
    }
    proof {
        if lanes_bc_all_eq(lanes) {
            lemma_dedup_all_eq(bcs@);
            assert(false);
        }
    }
    let mut error_string = String::from_str(
        "Mismatching bunch counters between lanes in same readout frame",
    );
    let ghost uq = uniq@;
    let mut u: usize = 0;
    while u < uniq.len()
        invariant
            uq == uniq@,
            u <= uq.len(),
            n == lanes.len(),
            lanes == validated_lanes@,
            lane_error_ids@ == old(lane_error_ids)@ + bc_partition_ids(lanes, uq.take(u as int)),
            lane_error_msgs@ == old(lane_error_msgs)@,
        decreases uq.len() - u,
    {
        let bc = uniq[u];
        error_string.append(" | bunch counter ");
        error_string.append(dec_u64(bc as u64).as_str());
        error_string.append(": lanes [");
        let ghost ids_before = lane_error_ids@;
        let mut k: usize = 0;
        let mut first = true;
        while k < n
            invariant
                n == lanes.len(),
                lanes == validated_lanes@,
                k <= n,
                lane_error_ids@ == ids_before + lanes_with_bc(lanes.take(k as int), bc),
                lane_error_msgs@ == old(lane_error_msgs)@,
            decreases n - k,
        {
            proof {
                lemma_lanes_with_bc_take(lanes, bc, k as int);
            }
            if validated_lanes[k].bunch_counter as u16 == bc {
                if !first {
                    error_string.append(", ");
                }
                error_string.append(dec_u64(validated_lanes[k].lane_id as u64).as_str());
                first = false;
                lane_error_ids.push(validated_lanes[k].lane_id);
            }
            k = k + 1;
        }
        error_string.append("]");
        proof {
            assert(lanes.take(n as int) =~= lanes);
            lemma_bc_partition_take(lanes, uq, u as int);
        }
        u = u + 1;
    }
    proof {
        assert(uq.take(uq.len() as int) =~= uq);
    }
    lane_error_msgs.push(error_string);
    assert(lane_error_msgs@.len() == old(lane_error_msgs)@.len() + 1);
    assert(lane_error_msgs@ != old(lane_error_msgs)@);
    assert(lane_error_msgs@.subrange(0, old(lane_error_msgs)@.len() as int) =~= old(
        lane_error_msgs,
    )@);
}

/// Appending one more lane to the prefix extends the per-counter lane
/// list by that lane exactly when its counter matches.
proof fn lemma_lanes_with_bc_take(v: Seq<ValidatedLane>, bc: u16, k: int)
    requires
        0 <= k < v.len(),
    ensures
        lanes_with_bc(v.take(k + 1), bc) == if v[k].bunch_counter as u16 == bc {
            lanes_with_bc(v.take(k), bc).push(v[k].lane_id)
        } else {
            lanes_with_bc(v.take(k), bc)
        },
    decreases k,
{
    if k == 0 {
        assert(v.take(1) =~= seq![v[0]]);
        assert(v.take(1).drop_first() =~= Seq::<ValidatedLane>::empty());
        assert(v.take(0) =~= Seq::<ValidatedLane>::empty());
        if v[0].bunch_counter as u16 == bc {
            assert(lanes_with_bc(v.take(1), bc) =~= lanes_with_bc(v.take(0), bc).push(v[0].lane_id));
        }
    } else {
        lemma_lanes_with_bc_take(v.drop_first(), bc, k - 1);
        assert(v.take(k + 1).drop_first() =~= v.drop_first().take(k));
        assert(v.take(k).drop_first() =~= v.drop_first().take(k - 1));
        assert(v.drop_first()[k - 1] == v[k]);
        if v[k].bunch_counter as u16 == bc {
            assert(lanes_with_bc(v.take(k + 1), bc) =~= lanes_with_bc(v.take(k), bc).push(
                v[k].lane_id,
            ));
        } else {
            assert(lanes_with_bc(v.take(k + 1), bc) =~= lanes_with_bc(v.take(k), bc));
        }
    }
}

/// Extending the prefix of counters by one extends the grouped lane list
/// by that counter's lanes.
proof fn lemma_bc_partition_take(v: Seq<ValidatedLane>, uniq: Seq<u16>, u: int)
    requires
        0 <= u < uniq.len(),
    ensures
        bc_partition_ids(v, uniq.take(u + 1)) == bc_partition_ids(v, uniq.take(u)) + lanes_with_bc(
            v,
            uniq[u],
        ),
    decreases u,
{
    if u == 0 {
        assert(uniq.take(1) =~= seq![uniq[0]]);
        assert(uniq.take(1).drop_first() =~= Seq::<u16>::empty());
        assert(uniq.take(0) =~= Seq::<u16>::empty());
        assert(bc_partition_ids(v, uniq.take(1)) =~= bc_partition_ids(v, uniq.take(0))
            + lanes_with_bc(v, uniq[0]));
    } else {
        lemma_bc_partition_take(v, uniq.drop_first(), u - 1);
        assert(uniq.take(u + 1).drop_first() =~= uniq.drop_first().take(u));
        assert(uniq.take(u).drop_first() =~= uniq.drop_first().take(u - 1));
        assert(uniq.take(u + 1)[0] == uniq[0]);
        assert(uniq.take(u)[0] == uniq[0]);
        assert(uniq.drop_first()[u - 1] == uniq[u]);
        assert(bc_partition_ids(v, uniq.take(u + 1)) =~= bc_partition_ids(v, uniq.take(u))
            + lanes_with_bc(v, uniq[u]));
    }
}

/// Process the ALPIDE data of a readout frame, lane by lane: each lane
/// is decoded and checked on its own, and the bunch counters of the
/// cleanly validated lanes are then compared across lanes. Returns the
/// lane numbers with errors — the failing lanes in readout order,
/// followed by every lane of the bunch-counter partitions when the
/// validated lanes disagree — and the error messages: one per failing
/// lane, plus one naming the partitions on a cross-lane mismatch. Both
/// are empty exactly when every lane is clean and all validated lanes
/// agree on the bunch counter.
pub fn check_alpide_data_frame(
    alpide_readout_frame: AlpideReadoutFrame,
    ob_chip_orders: &Option<(Vec<u8>, Vec<u8>)>,
) -> (r: (Vec<u8>, Vec<String>))
    ensures
        ({
            let barrel = alpide_readout_frame.from_layer;
            let lanes = alpide_readout_frame.lane_data_frames@;
            let orders = orders_view(*ob_chip_orders);
            let validated = validated_of(barrel, orders, lanes);
            let bcs_agree = lanes_bc_all_eq(validated);
            &&& (r.1@.len() == 0 <==> (forall|i: int|
                0 <= i < lanes.len() ==> lane_clean(barrel, orders, lanes[i])) && bcs_agree)
            &&& r.0@ == failing_lanes(barrel, orders, lanes) + (if bcs_agree {
                Seq::<u8>::empty()
            } else {
                bc_partition_ids(validated, dedup_first(bcs_of(validated)))
            })
            &&& r.1@.len() == failing_lanes(barrel, orders, lanes).len() + (if bcs_agree {
                0int
            } else {
                1int
            })
            &&& (forall|k: int|
                0 <= k < failing_lanes(barrel, orders, lanes).len() ==> lane_err_prefix(
                    failing_lanes(barrel, orders, lanes)[k],
                ).is_prefix_of(#[trigger] r.1@[k]@))
        }),
        r.1@.len() == 0 ==> r.0@.len() == 0,
{
    let mut lane_error_msgs: Vec<String> = Vec::new();
    let mut lane_error_ids: Vec<u8> = Vec::new();
    let mut validated_lanes: Vec<ValidatedLane> = Vec::new();

    let ghost orders = orders_view(*ob_chip_orders);
    let frame_from_layer = alpide_readout_frame.from_layer();
    let mut lane_frames = alpide_readout_frame.take_lane_data_frames();
    let ghost lanes = lane_frames@;

    let n = lane_frames.len();
    let mut idx: usize = 0;
    while idx < n
        invariant
            n == lanes.len(),
            idx <= n,
            lane_frames@ == lanes.skip(idx as int),
            lane_error_ids@ == failing_lanes(frame_from_layer, orders, lanes.take(idx as int)),
            lane_error_msgs@.len() == failing_lanes(
                frame_from_layer,
                orders,
                lanes.take(idx as int),
            ).len(),
            forall|k: int|
                0 <= k < lane_error_msgs@.len() ==> lane_err_prefix(
                    failing_lanes(frame_from_layer, orders, lanes.take(idx as int))[k],
                ).is_prefix_of(#[trigger] lane_error_msgs@[k]@),
            validated_lanes@ == validated_of(frame_from_layer, orders, lanes.take(idx as int)),
            orders == orders_view(*ob_chip_orders),
        decreases n - idx,
    {
        assert(lanes.skip(idx as int)[0] == lanes[idx as int]);
        let lane_data_frame = lane_frames.remove(0);
        proof {
            assert(lane_frames@ =~= lanes.skip(idx + 1));
        }
        let ghost this_lane = lanes[idx as int];
        let lane_number = lane_data_frame.lane_id & 0x1F;
        let mut analyzer = AlpideLaneFrameDecoder::new(frame_from_layer);
        if let Some(orders_pair) = ob_chip_orders {
            let pair = (clone_u8_vec(&orders_pair.0), clone_u8_vec(&orders_pair.1));
            analyzer.set_ob_chip_orders(pair);
        }
        assert(analyzer.spec_ob_orders() == orders);
        let verdict = analyzer.validate_alpide_frame(lane_data_frame);
        proof {
            lemma_validated_take_step(frame_from_layer, orders, lanes, idx as int);
            lemma_failing_take_step(frame_from_layer, orders, lanes, idx as int);
        }
        match verdict {
            Err(error_msgs) => {
                let mut combined = String::from_str("Lane ");
                combined.append(dec_u64(lane_number as u64).as_str());
                combined.append(" errors: ");
                assert(combined@ == lane_err_prefix(lane_number));
                assert(combined@.subrange(0, lane_err_prefix(lane_number).len() as int)
                    =~= lane_err_prefix(lane_number));
                let mut m: usize = 0;
                while m < error_msgs.len()
                    invariant
                        lane_err_prefix(lane_number).is_prefix_of(combined@),
                    decreases error_msgs@.len() - m,
                {
                    let ghost before = combined@;
                    combined.append(error_msgs[m].as_str());
                    combined.append(" ");
                    proof {
                        assert(combined@.subrange(0, lane_err_prefix(lane_number).len() as int)
                            =~= before.subrange(0, lane_err_prefix(lane_number).len() as int));
                    }
                    m = m + 1;
                }
                lane_error_msgs.push(combined);
                lane_error_ids.push(lane_number);
                assert(!lane_clean(frame_from_layer, orders, this_lane));
            },
            Ok(()) => {
                assert(lane_clean(frame_from_layer, orders, this_lane));
                let chips = analyzer.chip_data();
                let bc = match chips[0].bunch_counter {
                    Some(b) => b,
                    None => 0,
                };
                assert(bc == lane_bc_val(this_lane));
                validated_lanes.push(ValidatedLane { lane_id: lane_number, bunch_counter: bc });
            },
        }
        idx = idx + 1;
    }
    proof {
        assert(lanes.take(n as int) =~= lanes);
        lemma_failing_empty(frame_from_layer, orders, lanes);
    }
    let ghost ids_before = lane_error_ids@;
    let ghost msgs_before = lane_error_msgs@;
    validate_lane_bcs(&validated_lanes, &mut lane_error_msgs, &mut lane_error_ids);
    proof {
        if lanes_bc_all_eq(validated_lanes@) {
            assert(lane_error_ids@ =~= ids_before + Seq::<u8>::empty());
        }
        assert forall|k: int| 0 <= k < msgs_before.len() implies lane_error_msgs@[k]
            == msgs_before[k] by {
            assert(msgs_before[k] == lane_error_msgs@.subrange(0, msgs_before.len() as int)[k]);
        }
        assert forall|k: int|
            0 <= k < failing_lanes(frame_from_layer, orders, lanes).len() implies lane_err_prefix(
            failing_lanes(frame_from_layer, orders, lanes)[k],
        ).is_prefix_of(#[trigger] lane_error_msgs@[k]@) by {
            assert(lane_err_prefix(
                failing_lanes(frame_from_layer, orders, lanes.take(n as int))[k],
            ).is_prefix_of(msgs_before[k]@));
            assert(lane_error_msgs@[k] == msgs_before[k]);
        }
    }
    (lane_error_ids, lane_error_msgs)
}

/// One more lane extends the failing list by its number exactly when it
/// is not clean.
proof fn lemma_failing_take_step(
    barrel: Barrel,
    orders: Option<(Seq<u8>, Seq<u8>)>,
    lanes: Seq<LaneDataFrame>,
    k: int,
)
    requires
        0 <= k < lanes.len(),
    ensures
        failing_lanes(barrel, orders, lanes.take(k + 1)) == if lane_clean(barrel, orders, lanes[k]) {
            failing_lanes(barrel, orders, lanes.take(k))
        } else {
            failing_lanes(barrel, orders, lanes.take(k)).push((lanes[k].lane_id & 0x1F) as u8)
        },
    decreases k,
{
    if k == 0 {
        assert(lanes.take(1) =~= seq![lanes[0]]);
        assert(lanes.take(1).drop_first() =~= Seq::<LaneDataFrame>::empty());
        assert(lanes.take(0) =~= Seq::<LaneDataFrame>::empty());
        if !lane_clean(barrel, orders, lanes[0]) {
            assert(failing_lanes(barrel, orders, lanes.take(1)) =~= failing_lanes(
                barrel,
                orders,
                lanes.take(0),
            ).push((lanes[0].lane_id & 0x1F) as u8));
        }
    } else {
        lemma_failing_take_step(barrel, orders, lanes.drop_first(), k - 1);
        assert(lanes.take(k + 1).drop_first() =~= lanes.drop_first().take(k));
        assert(lanes.take(k).drop_first() =~= lanes.drop_first().take(k - 1));
        assert(lanes.drop_first()[k - 1] == lanes[k]);
        if lane_clean(barrel, orders, lanes[k]) {
            assert(failing_lanes(barrel, orders, lanes.take(k + 1)) =~= failing_lanes(
                barrel,
                orders,
                lanes.take(k),
            ));
        } else {
            assert(failing_lanes(barrel, orders, lanes.take(k + 1)) =~= failing_lanes(
                barrel,
                orders,
                lanes.take(k),
            ).push((lanes[k].lane_id & 0x1F) as u8));
        }
    }
}

/// The failing list is empty exactly when every lane is clean.
proof fn lemma_failing_empty(
    barrel: Barrel,
    orders: Option<(Seq<u8>, Seq<u8>)>,
    lanes: Seq<LaneDataFrame>,
)
    ensures
        failing_lanes(barrel, orders, lanes).len() == 0 <==> (forall|i: int|
            0 <= i < lanes.len() ==> lane_clean(barrel, orders, lanes[i])),
    decreases lanes.len(),
{
    if lanes.len() > 0 {
        lemma_failing_empty(barrel, orders, lanes.drop_first());
        assert(forall|i: int|
            1 <= i < lanes.len() ==> lanes[i] == lanes.drop_first()[i - 1]);
        if failing_lanes(barrel, orders, lanes).len() == 0 {
            assert(lane_clean(barrel, orders, lanes[0]));
        }
    }
}

/// One more lane extends the validated list by that lane exactly when it
/// is clean.
proof fn lemma_validated_take_step(
    barrel: Barrel,
    orders: Option<(Seq<u8>, Seq<u8>)>,
    lanes: Seq<LaneDataFrame>,
    k: int,
)
    requires
        0 <= k < lanes.len(),
    ensures
        validated_of(barrel, orders, lanes.take(k + 1)) == if lane_clean(barrel, orders, lanes[k]) {
            validated_of(barrel, orders, lanes.take(k)).push(
                ValidatedLane {
                    lane_id: lanes[k].lane_id & 0x1F,
                    bunch_counter: lane_bc_val(lanes[k]),
                },
            )
        } else {
            validated_of(barrel, orders, lanes.take(k))
        },
    decreases k,
{
    if k == 0 {
        assert(lanes.take(1) =~= seq![lanes[0]]);
        assert(lanes.take(1).drop_first() =~= Seq::<LaneDataFrame>::empty());
        assert(lanes.take(0) =~= Seq::<LaneDataFrame>::empty());
        if lane_clean(barrel, orders, lanes[0]) {
            assert(validated_of(barrel, orders, lanes.take(1)) =~= validated_of(
                barrel,
                orders,
                lanes.take(0),
            ).push(
                ValidatedLane {
                    lane_id: lanes[0].lane_id & 0x1F,
                    bunch_counter: lane_bc_val(lanes[0]),
                },
            ));
        }
    } else {
        lemma_validated_take_step(barrel, orders, lanes.drop_first(), k - 1);
        assert(lanes.take(k + 1).drop_first() =~= lanes.drop_first().take(k));
        assert(lanes.take(k).drop_first() =~= lanes.drop_first().take(k - 1));
        assert(lanes.drop_first()[k - 1] == lanes[k]);
        if lane_clean(barrel, orders, lanes[k]) {
            assert(validated_of(barrel, orders, lanes.take(k + 1)) =~= validated_of(
                barrel,
                orders,
                lanes.take(k),
            ).push(
                ValidatedLane {
                    lane_id: lanes[k].lane_id & 0x1F,
                    bunch_counter: lane_bc_val(lanes[k]),
                },
            ));
        } else {
            assert(validated_of(barrel, orders, lanes.take(k + 1)) =~= validated_of(
                barrel,
                orders,
                lanes.take(k),
            ));
        }
    }
}

/// Copy a vector of bytes.
pub fn clone_u8_vec(v: &Vec<u8>) -> (r: Vec<u8>)
    ensures
        r@ == v@,
{
    let mut out: Vec<u8> = Vec::new();
    let mut i: usize = 0;
    while i < v.len()
        invariant
            i <= v@.len(),
            out@ == v@.take(i as int),
        decreases v@.len() - i,
    {
        out.push(v[i]);
        assert(out@ =~= v@.take(i + 1));
        i = i + 1;
    }
    assert(out@ =~= v@);
    out
}

} // verus!
