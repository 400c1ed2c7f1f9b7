//! The data-plane pipeline in one forward pass: scan the stream into
//! packets, count them, validate the RDH stream per link (or per stave),
//! hand complete CDP payloads to the ITS state machine and its readout
//! frames to the ALPIDE analyzer, filter packets byte-verbatim, and
//! render the report.

use vstd::prelude::*;
use crate::alpide::{check_alpide_data_frame, AlpideReadoutFrame};
use crate::alpide_words::Barrel;
use crate::config::{Check, Config, DataOutputMode, System, ViewCommands};
use crate::its::{check_trigger_periods, tdhs_bounded, ItsPayloadFsm};
use crate::rdh::{layer_of_fee, rdh_sanity_check, spec_layer_stave_fee, stave_of_fee, Rdh};
use crate::report::{
    global_report_string, filter_row_string, rdh_view, stave_name_string, sp_stave_list_string,
};
use crate::running::RdhRunningChecker;
use crate::scan::{
    count_matches, filter_concat, filter_output, lemma_scan_bounds, rdh_matches_filter, scan_cdps,
    spec_scan, CdpPacket, FilterTarget, ScanError,
};
use crate::stats::StatsCollector;
use crate::text::{dec_u64, hex_u64};

verus! {

/// Everything one run of the pipeline yields: the exit code, the report
/// for standard output, the error and log lines for standard error, the
/// filtered bytes, and the final statistics.
pub struct RunResult {
    /// 0 on success; 1 for a reader or first-header failure; 2 for a
    /// processing failure mid-run; 3 for an unknown RDH version; the
    /// configured any-errors code when validation errors occurred.
    pub exit_code: u8,
    /// The rendered view or summary report.
    pub report: String,
    /// One line per validation error or fatal failure.
    pub errors: Vec<String>,
    /// Debug log lines, when the verbosity asks for them.
    pub logs: Vec<String>,
    /// The filtered bytes, when a filter target is set.
    pub output: Vec<u8>,
    /// The final statistics of the run.
    pub stats: StatsCollector,
}

/// The barrel a layer belongs to: layers 0 to 2 are the Inner Barrel.
pub open spec fn spec_barrel_of_layer(layer: u8) -> Barrel {
    if layer <= 2 {
        Barrel::Inner
    } else {
        Barrel::Outer
    }
}

/// The barrel a layer belongs to.
pub fn barrel_of_layer(layer: u8) -> (r: Barrel)
    ensures
        r == spec_barrel_of_layer(layer),
{
    if layer <= 2 {
        Barrel::Inner
    } else {
        Barrel::Outer
    }
}

/// The filter target the options denote: the link, the FEE ID, or the
/// FEE ID a well-formed stave string maps to.
pub open spec fn spec_filter_target(
    link: Option<u8>,
    fee: Option<u16>,
    stave: Option<Seq<char>>,
) -> Option<FilterTarget> {
    if link is Some {
        Some(FilterTarget::Link(link->Some_0))
    } else if fee is Some {
        Some(FilterTarget::Fee(fee->Some_0))
    } else {
        match stave {
            Some(s) => match spec_layer_stave_fee(s) {
                Some(f) => Some(FilterTarget::ItsStave(f)),
                None => None,
            },
            None => None,
        }
    }
}

/// The exit code of a run that stopped on a fatal scan error: 1 when
/// the first header is truncated or malformed, 3 when the first header
/// carries an unknown version, 2 for any failure later in the run.
pub open spec fn spec_fatal_code(e: ScanError, b: Seq<u8>) -> u8 {
    match e {
        ScanError::TruncatedAt(p) => if p == 0 {
            1
        } else {
            2
        },
        ScanError::Malformed(p) => if p == 0 {
            if b.len() > 0 && b[0] != 6 && b[0] != 7 {
                3
            } else {
                1
            }
        } else {
            2
        },
        ScanError::VersionMismatch(_, _, _) => 2,
    }
}

/// How many of the first `n` packets close an HBF (and a CDP): their
/// stop pages, counted saturating at the counter's width.
pub open spec fn stops_sat(ps: Seq<crate::scan::PacketSpec>, n: int) -> u32
    decreases n,
{
    if n <= 0 {
        0
    } else {
        let prev = stops_sat(ps, n - 1);
        if ps[n - 1].rdh.stop_bit == 1 && prev < u32::MAX {
            (prev + 1) as u32
        } else {
            prev
        }
    }
}

/// The payload bytes of the first `n` packets, added up while they fit.
pub open spec fn payload_sat(ps: Seq<crate::scan::PacketSpec>, n: int) -> u64
    decreases n,
{
    if n <= 0 {
        0
    } else {
        let prev = payload_sat(ps, n - 1);
        let r = ps[n - 1].rdh;
        if r.memory_size >= 64 && prev + (r.memory_size - 64) <= u64::MAX {
            (prev + (r.memory_size - 64)) as u64
        } else {
            prev
        }
    }
}

/// The `ITS stave` line of the report: the stave under inspection, or a
/// note that it was not found in the data.
pub open spec fn its_stave_line_chars(f: u16, matched: u64) -> Seq<char> {
    "ITS stave: "@ + (if matched > 0 {
        Seq::<char>::empty()
    } else {
        "none - not found: "@
    }) + crate::report::stave_name_chars(
        crate::rdh::spec_layer_of_fee(f),
        crate::rdh::spec_stave_of_fee(f),
    ) + "
"@
}

/// The ALPIDE line of the report.
pub open spec fn alpide_line_chars(s: StatsCollector) -> Seq<char> {
    "ALPIDE stats: chips validated: "@ + crate::text::dec_chars(s.chips_validated as nat)
        + " | lanes with errors: "@ + crate::text::dec_chars(s.lanes_with_errors as nat) + "
"@
}

/// The staves-seen line of the report.
pub open spec fn staves_seen_line_chars(s: StatsCollector) -> Seq<char> {
    "ITS staves seen:"@ + crate::report::sp_stave_list(s.layer_staves@) + "
"@
}

/// The filter-stats section: the matched-RDH row, then one row naming
/// the target (or its absence from the data).
pub open spec fn filter_section_chars(t: FilterTarget, matched: u64) -> Seq<char> {
    "Filter stats
"@ + crate::report::filter_row(
        "RDHs"@,
        crate::text::dec_chars(matched as nat),
    ) + (match t {
        FilterTarget::Link(l) => crate::report::filter_row(
            if matched > 0 {
                "link"@
            } else {
                "link not found"@
            },
            crate::text::dec_chars(l as nat),
        ),
        FilterTarget::Fee(f) => crate::report::filter_row(
            if matched > 0 {
                "FEE ID"@
            } else {
                "FEE ID not found"@
            },
            crate::text::dec_chars(f as nat),
        ),
        FilterTarget::ItsStave(f) => crate::report::filter_row(
            "ITS stave"@,
            (if matched > 0 {
                Seq::<char>::empty()
            } else {
                "none - not found: "@
            }) + crate::report::stave_name_chars(
                crate::rdh::spec_layer_of_fee(f),
                crate::rdh::spec_stave_of_fee(f),
            ),
        ),
    })
}

/// The whole summary report: the global summary, then in check mode the
/// ITS-stave, staves-seen and ALPIDE lines as the mode asks, then the
/// filter-stats section when filtered data is being written out.
pub open spec fn summary_report_chars(
    s: StatsCollector,
    check: Option<Check>,
    alpide: bool,
    target: Option<FilterTarget>,
    in_filter_output: bool,
) -> Seq<char> {
    crate::report::global_report_chars(s, !in_filter_output) + mode_lines_chars(
        s,
        check,
        alpide,
        target,
    ) + (if in_filter_output && target is Some {
        filter_section_chars(target->Some_0, s.rdhs_filtered)
    } else {
        Seq::<char>::empty()
    })
}

/// The per-link (or per-stave) validation state: the running RDH
/// checker, the payload state machine, and the payload of the CDP
/// being assembled.
struct LinkValidatorState {
    id: u16,
    checker: RdhRunningChecker,
    fsm: ItsPayloadFsm,
    cdp_buf: Vec<u8>,
    fee_id: u16,
}

/// The dispatch identifier of a packet: the full FEE ID when a single
/// stave is under check (so every stave gets its own worker), else the
/// link ID widened to 16 bits (so all staves of a link merge).
pub fn dispatch_id(rdh: &Rdh, by_fee: bool) -> (r: u16)
    ensures
        r == if by_fee {
            rdh.fee_id
        } else {
            rdh.link_id as u16
        },
{
    if by_fee {
        rdh.fee_id
    } else {
        rdh.link_id as u16
    }
}

/// The channel capacity for the `n`-th worker (counting from 1): the
/// first gets 128, and each later one doubles that per worker, capped
/// at `128 << 7`.
pub fn dispatch_chan_capacity(n_validators: usize) -> (r: usize)
    ensures
        r == if n_validators <= 1 {
            128usize
        } else if n_validators <= 7 {
            128usize << ((n_validators - 1) as usize)
        } else {
            16384usize
        },
{
    if n_validators <= 1 {
        128
    } else if n_validators <= 7 {
        128usize << (n_validators - 1)
    } else {
        16384
    }
}

/// Prefix an error message with its memory offset:
/// `ERROR - 0x<offset>: <message>`.
fn error_line(offset: u64, msg: &str) -> (r: String)
    ensures
        r@ == "ERROR - 0x"@ + crate::text::hex_chars(offset as nat) + ": "@ + msg@,
{
    let mut line = String::from_str("ERROR - 0x");
    line.append(hex_u64(offset).as_str());
    line.append(": ");
    line.append(msg);
    line
}

/// Saturating add on a u64 counter.
fn sat_add_u64(a: u64, b: u64) -> (r: u64)
    ensures
        r == if a + b <= u64::MAX {
            a + b
        } else {
            u64::MAX as int
        },
{
    if a <= u64::MAX - b {
        a + b
    } else {
        u64::MAX
    }
}

/// Validate the packets per link (or per stave when a single stave is
/// under check): per-RDH sanity, the running checks, the ITS payload
/// state machine on each completed CDP, the ALPIDE analysis of its
/// readout frames, and the trigger-period rule; one error line is
/// appended per finding, and the ALPIDE chip accounting is written into
/// the statistics. Only the error count and the ALPIDE counters of the
/// statistics change. When a filter target is set, only matching
/// packets are validated; validation stops once the tolerated error
/// count is reached.
#[verifier::rlimit(100)]
#[verifier::spinoff_prover]
fn validate_packets<C: Config>(
    cfg: &C,
    packets: &Vec<CdpPacket>,
    target: &Option<FilterTarget>,
    stats: &mut StatsCollector,
    errors: &mut Vec<String>,
)
    requires
        old(stats).chips_validated == 0,
        old(stats).lanes_with_errors == 0,
    ensures
        final(stats).rdhs_seen == old(stats).rdhs_seen,
        final(stats).rdh_version == old(stats).rdh_version,
        final(stats).hbfs == old(stats).hbfs,
        final(stats).cdps == old(stats).cdps,
        final(stats).payload_bytes == old(stats).payload_bytes,
        final(stats).rdhs_filtered == old(stats).rdhs_filtered,
        packets@.len() == 0 ==> final(errors)@ == old(errors)@ && final(stats).err_count == old(
            stats,
        ).err_count && final(stats).chips_validated == 0 && final(stats).lanes_with_errors == 0,
{
    let ghost base = *old(stats);
    let n = packets.len();
    let ghost ps = packets@.map_values(|p: CdpPacket| p.pk());
    let check = cfg.check();
    let max_errors = cfg.max_tolerate_errors();
    if let Some(chk) = check {
        let system = chk.target();
        let is_all = match chk {
            Check::All(_) => true,
            Check::Sanity(_) => false,
        };
        let payload_checks = is_all && system.is_some();
        let alpide_checks = is_all && system == Some(System::ITS_Stave);
        let dispatch_by_fee = is_all && system == Some(System::ITS_Stave);
        let mut states: Vec<LinkValidatorState> = Vec::new();
        let no_orders: Option<(Vec<u8>, Vec<u8>)> = None;
        let mut chips_ok: u64 = 0;
        let mut bad_lanes: u64 = 0;
        let mut k: usize = 0;
        while k < n
            invariant
                n == packets@.len(),
                stats.rdhs_seen == base.rdhs_seen,
                stats.rdh_version == base.rdh_version,
                stats.hbfs == base.hbfs,
                stats.cdps == base.cdps,
                stats.payload_bytes == base.payload_bytes,
                stats.rdhs_filtered == base.rdhs_filtered,
                ps == packets@.map_values(|p: CdpPacket| p.pk()),
                k <= n,
                n == 0 ==> errors@ == old(errors)@ && stats.err_count == base.err_count
                    && states@.len() == 0 && chips_ok == 0 && bad_lanes == 0,
                forall|q: int|
                    0 <= q < states@.len() ==> tdhs_bounded(
                        (#[trigger] states@[q]).fsm.spec_tdhs(),
                    ),
            decreases n - k,
        {
            if max_errors > 0 && errors.len() >= max_errors as usize {
                break ;
            }
            let rdh = packets[k].rdh;
            let mem_pos = packets[k].mem_pos;
            let validate_this = match &target {
                Some(t) => rdh_matches_filter(t, &rdh),
                None => true,
            };
            if validate_this {
                // Per-RDH sanity rules.
                if !rdh_sanity_check(&rdh) {
                    errors.push(error_line(mem_pos, "RDH sanity check failed"));
                    stats.count_errors(1);
                }
                // Find or create the per-link (or per-stave) state.
                let id: u16 = if dispatch_by_fee {
                    rdh.fee_id
                } else {
                    rdh.link_id as u16
                };
                let mut idx: usize = 0;
                let mut found = false;
                let m = states.len();
                while idx < m && !found
                    invariant
                        m == states@.len(),
                        idx <= m,
                        found ==> idx < m,
                    decreases m - idx + (if found { 0int } else { 1int }),
                {
                    if states[idx].id == id {
                        found = true;
                    } else {
                        idx = idx + 1;
                    }
                }
                let ghost pre_states = states@;
                let mut st = if found {
                    let taken = states.remove(idx);
                    proof {
                        assert(tdhs_bounded(pre_states[idx as int].fsm.spec_tdhs()));
                        assert forall|q: int|
                            0 <= q < states@.len() implies tdhs_bounded(
                            (#[trigger] states@[q]).fsm.spec_tdhs(),
                        ) by {
                            if q < idx {
                                assert(states@[q] == pre_states[q]);
                            } else {
                                assert(states@[q] == pre_states[q + 1]);
                            }
                        }
                    }
                    taken
                } else {
                    LinkValidatorState {
                        id,
                        checker: RdhRunningChecker::new(),
                        fsm: ItsPayloadFsm::new(),
                        cdp_buf: Vec::new(),
                        fee_id: rdh.fee_id,
                    }
                };
                assert(tdhs_bounded(st.fsm.spec_tdhs()));
                // Running checks across the link's RDHs.
                let msgs = st.checker.check(&rdh);
                let mut mi: usize = 0;
                let nm = msgs.len();
                while mi < nm
                    invariant
                        nm == msgs@.len(),
                        mi <= nm,
                        stats.rdhs_seen == base.rdhs_seen,
                        stats.rdh_version == base.rdh_version,
                        stats.hbfs == base.hbfs,
                        stats.cdps == base.cdps,
                        stats.payload_bytes == base.payload_bytes,
                        stats.rdhs_filtered == base.rdhs_filtered,
                    decreases nm - mi,
                {
                    errors.push(error_line(mem_pos, msgs[mi].as_str()));
                    stats.count_errors(1);
                    mi = mi + 1;
                }
                // Assemble the CDP payload; hand it over on the stop page.
                if payload_checks {
                    let mut pi: usize = 0;
                    let np = packets[k].payload.len();
                    while pi < np
                        invariant
                            np == packets@[k as int].payload@.len(),
                            k < packets@.len(),
                            pi <= np,
                            tdhs_bounded(st.fsm.spec_tdhs()),
                        decreases np - pi,
                    {
                        let byte = packets[k].payload[pi];
                        st.cdp_buf.push(byte);
                        pi = pi + 1;
                    }
                    if rdh.stop_bit == 1 {
                        let ghost pre_tdhs = st.fsm.spec_tdhs();
                        let (frames, fsm_msgs) = st.fsm.process_payload(&st.cdp_buf);
                        st.cdp_buf = Vec::new();
                        let mut fi: usize = 0;
                        let nf = fsm_msgs.len();
                        while fi < nf
                            invariant
                                nf == fsm_msgs@.len(),
                                fi <= nf,
                                stats.rdhs_seen == base.rdhs_seen,
                                stats.rdh_version == base.rdh_version,
                                stats.hbfs == base.hbfs,
                                stats.cdps == base.cdps,
                                stats.payload_bytes == base.payload_bytes,
                                stats.rdhs_filtered == base.rdhs_filtered,
                            decreases nf - fi,
                        {
                            errors.push(error_line(mem_pos, fsm_msgs[fi].as_str()));
                            stats.count_errors(1);
                            fi = fi + 1;
                        }
                        if alpide_checks {
                            let barrel = barrel_of_layer(layer_of_fee(st.fee_id));
                            let mut frames = frames;
                            let nframes = frames.len();
                            let mut fr: usize = 0;
                            while fr < nframes
                                invariant
                                    frames@.len() == nframes - fr,
                                    fr <= nframes,
                                    stats.rdhs_seen == base.rdhs_seen,
                                    stats.rdh_version == base.rdh_version,
                                    stats.hbfs == base.hbfs,
                                    stats.cdps == base.cdps,
                                    stats.payload_bytes == base.payload_bytes,
                                    stats.rdhs_filtered == base.rdhs_filtered,
                                decreases nframes - fr,
                            {
                                let lanes = frames.remove(0);
                                let lane_count = lanes.len() as u64;
                                let frame = AlpideReadoutFrame {
                                    from_layer: barrel,
                                    lane_data_frames: lanes,
                                };
                                let (bad_ids, frame_msgs) = check_alpide_data_frame(frame, &no_orders);
                                if frame_msgs.len() == 0 {
                                    let per_lane: u64 = match barrel {
                                        Barrel::Inner => 1,
                                        Barrel::Outer => 7,
                                    };
                                    let add = if lane_count <= u64::MAX / per_lane {
                                        lane_count * per_lane
                                    } else {
                                        u64::MAX
                                    };
                                    chips_ok = sat_add_u64(chips_ok, add);
                                } else {
                                    bad_lanes = sat_add_u64(bad_lanes, bad_ids.len() as u64);
                                    let mut ai: usize = 0;
                                    let na = frame_msgs.len();
                                    while ai < na
                                        invariant
                                            na == frame_msgs@.len(),
                                            ai <= na,
                                            stats.rdhs_seen == base.rdhs_seen,
                                            stats.rdh_version == base.rdh_version,
                                            stats.hbfs == base.hbfs,
                                            stats.cdps == base.cdps,
                                            stats.payload_bytes == base.payload_bytes,
                                            stats.rdhs_filtered == base.rdhs_filtered,
                                        decreases na - ai,
                                    {
                                        errors.push(error_line(mem_pos, frame_msgs[ai].as_str()));
                                        stats.count_errors(1);
                                        ai = ai + 1;
                                    }
                                }
                                fr = fr + 1;
                            }
                        }
                    }
                }
                assert(tdhs_bounded(st.fsm.spec_tdhs()));
                let ghost before_push = states@;
                states.push(st);
                proof {
                    assert forall|q: int|
                        0 <= q < states@.len() implies tdhs_bounded(
                        (#[trigger] states@[q]).fsm.spec_tdhs(),
                    ) by {
                        if q < before_push.len() {
                            assert(states@[q] == before_push[q]);
                        } else {
                            assert(states@[q] == st);
                        }
                    }
                }
            }
            k = k + 1;
        }
        stats.chips_validated = chips_ok;
        stats.lanes_with_errors = bad_lanes;
        // The trigger-period rule over the TDHs of each stave.
        if alpide_checks {
            if let Some(period) = cfg.check_its_trigger_period() {
                let ns = states.len();
                let mut si: usize = 0;
                while si < ns
                    invariant
                        ns == states@.len(),
                        si <= ns,
                        n == 0 ==> errors@ == old(errors)@ && stats.err_count == base.err_count
                            && ns == 0,
                        n == 0 ==> stats.chips_validated == 0 && stats.lanes_with_errors == 0,
                        stats.rdhs_seen == base.rdhs_seen,
                        stats.rdh_version == base.rdh_version,
                        stats.hbfs == base.hbfs,
                        stats.cdps == base.cdps,
                        stats.payload_bytes == base.payload_bytes,
                        stats.rdhs_filtered == base.rdhs_filtered,
                        forall|q: int|
                            0 <= q < states@.len() ==> tdhs_bounded(
                                (#[trigger] states@[q]).fsm.spec_tdhs(),
                            ),
                    decreases ns - si,
                {
                    assert(tdhs_bounded(states@[si as int].fsm.spec_tdhs()));
                    let st = &states[si];
                    let msgs = check_trigger_periods(st.fsm.tdhs(), period);
                    let mut mi: usize = 0;
                    let nm = msgs.len();
                    while mi < nm
                        invariant
                            nm == msgs@.len(),
                            mi <= nm,
                            0 < n,
                            n == 0 ==> stats.chips_validated == 0 && stats.lanes_with_errors == 0
                                && errors@ == old(errors)@ && stats.err_count == base.err_count,
                            stats.rdhs_seen == base.rdhs_seen,
                            stats.rdh_version == base.rdh_version,
                            stats.hbfs == base.hbfs,
                            stats.cdps == base.cdps,
                            stats.payload_bytes == base.payload_bytes,
                            stats.rdhs_filtered == base.rdhs_filtered,
                        decreases nm - mi,
                    {
                        errors.push(error_line(0, msgs[mi].as_str()));
                        stats.count_errors(1);
                        mi = mi + 1;
                    }
                    si = si + 1;
                }
            }
        }
    }

}

/// The mode lines of the summary: in check mode the ITS-stave line (or
/// the staves-seen line), and the ALPIDE line when ALPIDE checks ran.
pub open spec fn mode_lines_chars(
    s: StatsCollector,
    check: Option<Check>,
    alpide: bool,
    target: Option<FilterTarget>,
) -> Seq<char> {
    if check is Some {
        (match target {
            Some(FilterTarget::ItsStave(f)) => its_stave_line_chars(f, s.rdhs_filtered),
            _ => if alpide {
                staves_seen_line_chars(s)
            } else {
                Seq::<char>::empty()
            },
        }) + (if alpide {
            alpide_line_chars(s)
        } else {
            Seq::<char>::empty()
        })
    } else {
        Seq::<char>::empty()
    }
}

/// Render the mode lines of the summary.
fn mode_lines_string(
    stats: &StatsCollector,
    check: Option<Check>,
    alpide: bool,
    target: &Option<FilterTarget>,
) -> (out: String)
    ensures
        out@ == mode_lines_chars(*stats, check, alpide, *target),
{
    let mut out = String::new();
    if check.is_some() {
        if let Some(FilterTarget::ItsStave(f)) = &target {
            let name = stave_name_string(layer_of_fee(*f), stave_of_fee(*f));
            out.append("ITS stave: ");
            if stats.rdhs_filtered > 0 {
                out.append(name.as_str());
            } else {
                out.append("none - not found: ");
                out.append(name.as_str());
            }
            out.append("\n");
        } else {
            if alpide {
                out.append("ITS staves seen:");
                out.append(sp_stave_list_string(&stats.layer_staves).as_str());
                out.append("\n");
            }
        }
        if alpide {
            out.append("ALPIDE stats: chips validated: ");
            out.append(dec_u64(stats.chips_validated).as_str());
            out.append(" | lanes with errors: ");
            out.append(dec_u64(stats.lanes_with_errors).as_str());
            out.append("\n");
        }
    }
    assert(out@ =~= mode_lines_chars(*stats, check, alpide, *target));
    out
}

/// Render the filter-stats section for a target.
fn filter_section_string(t: &FilterTarget, matched: u64) -> (out: String)
    ensures
        out@ == filter_section_chars(*t, matched),
{
    let mut out = String::from_str("Filter stats\n");
    out.append(filter_row_string("RDHs", dec_u64(matched).as_str()).as_str());
    match t {
        FilterTarget::Link(l) => {
            if matched > 0 {
                out.append(filter_row_string("link", dec_u64(*l as u64).as_str()).as_str());
            } else {
                out.append(
                    filter_row_string("link not found", dec_u64(*l as u64).as_str()).as_str(),
                );
            }
        },
        FilterTarget::Fee(f) => {
            if matched > 0 {
                out.append(filter_row_string("FEE ID", dec_u64(*f as u64).as_str()).as_str());
            } else {
                out.append(
                    filter_row_string("FEE ID not found", dec_u64(*f as u64).as_str()).as_str(),
                );
            }
        },
        FilterTarget::ItsStave(f) => {
            let name = stave_name_string(layer_of_fee(*f), stave_of_fee(*f));
            if matched > 0 {
                out.append(filter_row_string("ITS stave", name.as_str()).as_str());
            } else {
                let mut val = String::from_str("none - not found: ");
                val.append(name.as_str());
                out.append(filter_row_string("ITS stave", val.as_str()).as_str());
            }
        },
    }
    assert(out@ =~= filter_section_chars(*t, matched));
    out
}

/// Render the summary report: the global summary, the mode's lines, and
/// the filter-stats section when filtered data is being written out.
fn render_summary(
    stats: &StatsCollector,
    check: Option<Check>,
    alpide: bool,
    target: &Option<FilterTarget>,
    in_filter_output: bool,
) -> (out: String)
    ensures
        out@ == summary_report_chars(*stats, check, alpide, *target, in_filter_output),
{
    let mut out = global_report_string(stats, !in_filter_output);
    out.append(mode_lines_string(stats, check, alpide, target).as_str());
    if in_filter_output {
        if let Some(t) = &target {
            out.append(filter_section_string(t, stats.rdhs_filtered).as_str());
        }
    }
    assert(out@ =~= summary_report_chars(*stats, check, alpide, *target, in_filter_output));
    out
}

/// Run the pipeline on a whole input: scan, count, validate per link or
/// per stave, filter, and render the report.
///
/// An empty input succeeds with every counter zero; an input shorter
/// than one RDH fails with exit code 1; a fatal scan failure sets the
/// fatal exit code and one fatal error line. On a scanned run, every
/// RDH is counted, the version is the first RDH's, the filtered bytes
/// are exactly the matching packets' original bytes, and the exit code
/// is 0 unless validation errors occurred and an any-errors exit code
/// was configured.
#[verifier::rlimit(100)]
#[verifier::spinoff_prover]
pub fn run<C: Config>(cfg: &C, data: &Vec<u8>) -> (r: RunResult)
    ensures
        data@.len() == 0 ==> r.exit_code == 0 && r.stats.rdhs_seen == 0 && r.stats.err_count == 0
            && r.errors@.len() == 0 && r.stats.hbfs == 0 && r.stats.cdps == 0
            && r.stats.payload_bytes == 0 && r.stats.chips_validated == 0
            && r.stats.lanes_with_errors == 0 && r.stats.rdhs_filtered == 0,
        0 < data@.len() < 64 ==> r.exit_code == 1 && r.errors@.len() > 0,
        spec_scan(data@, 0, None) is Err ==> r.exit_code == spec_fatal_code(
            spec_scan(data@, 0, None)->Err_0,
            data@,
        ) && r.errors@.len() > 0,
        spec_scan(data@, 0, None) is Ok ==> ({
            let ps = spec_scan(data@, 0, None)->Ok_0;
            let target = spec_filter_target(
                cfg.spec_filter_link(),
                cfg.spec_filter_fee(),
                cfg.spec_filter_its_stave_str(),
            );
            &&& r.stats.rdhs_seen == ps.len()
            &&& r.stats.hbfs == stops_sat(ps, ps.len() as int)
            &&& r.stats.cdps == stops_sat(ps, ps.len() as int)
            &&& r.stats.payload_bytes == payload_sat(ps, ps.len() as int)
            &&& (ps.len() > 0 ==> r.stats.rdh_version == ps[0].rdh.header_id)
            &&& r.exit_code == (if r.errors@.len() > 0 {
                match cfg.spec_any_errors_exit_code() {
                    Some(e) => e,
                    None => 0,
                }
            } else {
                0
            })
            &&& (match target {
                Some(t) => r.output@ == filter_concat(data@, ps, t) && r.stats.rdhs_filtered
                    == count_matches(ps, t),
                None => r.output@.len() == 0 && r.stats.rdhs_filtered == 0,
            })
            &&& (cfg.spec_view_command() == Some(ViewCommands::Rdh) ==> r.report@
                == "Memory offset   Version  Header size  FEE ID  Prio  System  Offset next  Memory size  Link  Packet  Page  Stop  Trigger  Data format\n"@
                + crate::report::rdh_view_lines_chars(ps))
            &&& (match cfg.spec_view_command() {
                Some(ViewCommands::Rdh) => true,
                Some(_) => r.report@ == crate::views::frames_view_chars(ps),
                None => r.report@ == summary_report_chars(
                    r.stats,
                    cfg.spec_check(),
                    cfg.spec_check() matches Some(Check::All(t)) && t.system == Some(
                        System::ITS_Stave,
                    ),
                    target,
                    target is Some && cfg.spec_output_mode() != DataOutputMode::Disabled,
                ),
            })
        }),
{
    let mut stats = StatsCollector::new();
    let mut errors: Vec<String> = Vec::new();
    let mut logs: Vec<String> = Vec::new();
    let mut output: Vec<u8> = Vec::new();

    // Scan the stream into packets; a scan failure is fatal.
    let packets = match scan_cdps(data) {
        Ok(p) => p,
        Err(e) => {
            let (code, msg): (u8, &'static str) = match e {
                ScanError::TruncatedAt(p) => if p == 0 {
                    (1, "truncated first RDH")
                } else {
                    (2, "truncated packet")
                },
                ScanError::Malformed(p) => if p == 0 {
                    if data.len() > 0 && data[0] != 6 && data[0] != 7 {
                        (3, "unknown RDH version")
                    } else {
                        (1, "malformed first RDH")
                    }
                } else {
                    (2, "malformed RDH")
                },
                ScanError::VersionMismatch(_, _, _) => (2, "RDH version changed mid-run"),
            };
            let off: u64 = match e {
                ScanError::TruncatedAt(p) => p,
                ScanError::Malformed(p) => p,
                ScanError::VersionMismatch(_, _, p) => p,
            };
            errors.push(error_line(off, msg));
            return RunResult {
                exit_code: code,
                report: String::new(),
                errors,
                logs,
                output,
                stats,
            };
        },
    };
    let ghost ps = packets@.map_values(|p: CdpPacket| p.pk());
    let n = packets.len();

    // Count every packet and log its offset when asked to.
    let verbosity = cfg.verbosity();
    let mut i: usize = 0;
    while i < n
        invariant
            n == packets@.len(),
            i <= n,
            ps == packets@.map_values(|p: CdpPacket| p.pk()),
            stats.rdhs_seen == i,
            stats.hbfs == stops_sat(ps, i as int),
            stats.cdps == stops_sat(ps, i as int),
            stats.payload_bytes == payload_sat(ps, i as int),
            i > 0 ==> stats.rdh_version == ps[0].rdh.header_id,
            stats.rdhs_filtered == 0,
            stats.err_count == 0,
            stats.chips_validated == 0,
            stats.lanes_with_errors == 0,
        decreases n - i,
    {
        assert(packets@[i as int].pk() == ps[i as int]);
        stats.record_rdh(&packets[i].rdh);
        if verbosity >= 3 {
            let mut line = String::from_str("DEBUG - Loaded RDH at offset 0x");
            line.append(hex_u64(packets[i].mem_pos).as_str());
            logs.push(line);
        }
        i = i + 1;
    }

    // Resolve the filter target.
    let target: Option<FilterTarget> = if let Some(l) = cfg.filter_link() {
        Some(FilterTarget::Link(l))
    } else if let Some(f) = cfg.filter_fee() {
        Some(FilterTarget::Fee(f))
    } else if let Some(f) = cfg.filter_its_stave() {
        Some(FilterTarget::ItsStave(f))
    } else {
        None
    };
    assert(target == spec_filter_target(
        cfg.spec_filter_link(),
        cfg.spec_filter_fee(),
        cfg.spec_filter_its_stave_str(),
    ));

    // Validate per link, or per stave when a single stave is targeted.
    let check = cfg.check();
    validate_packets(cfg, &packets, &target, &mut stats, &mut errors);

    // Filter: re-emit the matching packets' original bytes.
    if let Some(t) = &target {
        proof {
            lemma_scan_bounds(data@, 0, None);
            assert forall|q: int|
                0 <= q < packets@.len() implies crate::scan::packet_in_bounds(
                data@,
                (#[trigger] packets@[q]).pk(),
            ) by {
                assert(packets@[q].pk() == ps[q]);
            }
        }
        let (out, cnt) = filter_output(data, &packets, t);
        output = out;
        stats.rdhs_filtered = cnt;
    }

    // Render the report.
    let view = cfg.view_command();
    let mut report = String::new();
    match view {
        Some(ViewCommands::Rdh) => {
            report = rdh_view(&packets);
        },
        Some(_) => {
            report = crate::views::its_frames_view(&packets);
        },
        None => {
            let in_filter_output = match (&target, cfg.output_mode()) {
                (Some(_), DataOutputMode::Disabled) => false,
                (Some(_), _) => true,
                (None, _) => false,
            };
            let alpide = cfg.alpide_checks_enabled();
            report = render_summary(&stats, check, alpide, &target, in_filter_output);
        },
    }

    // The exit code: clean runs exit 0; validation errors exit with the
    // configured any-errors code, if one is set.
    let exit_code: u8 = if errors.len() > 0 {
        match cfg.any_errors_exit_code() {
            Some(e) => e,
            None => 0,
        }
    } else {
        0
    };
    RunResult { exit_code, report, errors, logs, output, stats }
}

} // verus!
