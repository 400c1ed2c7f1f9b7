//! Unit and scenario tests: the RDH codec, the stave-string parser, the
//! ALPIDE lane checks, the scanner's boundary behaviour, the trigger
//! period rule and the expected-counter records.

use fastpasta::alpide::{validate_lane_bcs, ValidatedLane};
use fastpasta::alpide_words::{AlpideLaneFrameDecoder, Barrel, LaneDataFrame};
use fastpasta::config::{stats_ext_ok, Check, Config, DataOutputMode, MockConfig, System, Target};
use fastpasta::counters::Counters;
use fastpasta::its::check_trigger_periods;
use fastpasta::pipeline::{dispatch_chan_capacity, run};
use fastpasta::rdh::{
    layer_stave_string_to_feeid, rdh_decode, rdh_encode, rdh_sanity_check, Rdh, RdhParseError,
};
use fastpasta::stats::{Stats, StatsCollector};
use fastpasta::text::{dec_u64, hex_u64};

fn sample_rdh() -> Rdh {
    Rdh {
        header_id: 7,
        header_size: 64,
        fee_id: 524,
        priority_bit: 1,
        system_id: 32,
        reserved0: 0,
        offset_to_next: 1234,
        memory_size: 1000,
        link_id: 8,
        packet_counter: 3,
        cruid_dw: 0x30AB,
        bc_reserved0: 0x0123,
        orbit: 0xDEADBEEF,
        dataformat: 2,
        trigger_type: 0x6A13,
        pages_counter: 5,
        stop_bit: 1,
        detector_field: 0xCAFE,
        par_bit: 7,
    }
}

#[test]
fn rdh_codec_round_trip() {
    let r = sample_rdh();
    let bytes = rdh_encode(&r);
    assert_eq!(bytes.len(), 64);
    let back = rdh_decode(&bytes, 0).unwrap();
    assert_eq!(back, r);
}

#[test]
fn rdh_encode_layout() {
    let r = sample_rdh();
    let b = rdh_encode(&r);
    assert_eq!(b[0], 7);
    assert_eq!(b[1], 64);
    // fee_id 524 = 0x020C little-endian
    assert_eq!(b[2], 0x0C);
    assert_eq!(b[3], 0x02);
    // offset_to_next 1234 = 0x04D2
    assert_eq!(b[8], 0xD2);
    assert_eq!(b[9], 0x04);
    // orbit 0xDEADBEEF little-endian at bytes 20..24
    assert_eq!(&b[20..24], &[0xEF, 0xBE, 0xAD, 0xDE]);
    // trigger at 32..36
    assert_eq!(&b[32..36], &[0x13, 0x6A, 0x00, 0x00]);
    // stop bit at 38
    assert_eq!(b[38], 1);
}

#[test]
fn rdh_decode_rejects_bad_headers() {
    let mut b = rdh_encode(&sample_rdh());
    b[0] = 5;
    assert_eq!(rdh_decode(&b, 0), Err(RdhParseError::UnknownVersion(5)));
    b[0] = 7;
    b[1] = 32;
    assert_eq!(rdh_decode(&b, 0), Err(RdhParseError::InvalidHeaderSize(32)));
}

#[test]
fn rdh_sanity_rules() {
    let mut r = sample_rdh();
    assert!(rdh_sanity_check(&r));
    r.dataformat = 1;
    assert!(!rdh_sanity_check(&r));
    r.dataformat = 0;
    assert!(rdh_sanity_check(&r));
    r.link_id = 12;
    assert!(!rdh_sanity_check(&r));
    r.link_id = 11;
    r.reserved0 = 1;
    assert!(!rdh_sanity_check(&r));
    r.reserved0 = 0;
    r.offset_to_next = 999;
    assert!(!rdh_sanity_check(&r));
}

#[test]
fn stave_string_to_fee_id() {
    assert_eq!(layer_stave_string_to_feeid("L0_12"), Some(12));
    assert_eq!(layer_stave_string_to_feeid("l3_2"), Some((3 << 13) | 2));
    assert_eq!(layer_stave_string_to_feeid("L5_29"), Some((5 << 13) | 29 as u16));
    // the stave number must fit its 5 bits of the FEE ID
    assert_eq!(layer_stave_string_to_feeid("L5_42"), None);
    assert_eq!(layer_stave_string_to_feeid("X0_12"), None);
    assert_eq!(layer_stave_string_to_feeid("L0_99"), None);
    assert_eq!(layer_stave_string_to_feeid("L9_1"), None);
    assert_eq!(layer_stave_string_to_feeid("L0_"), None);
}

#[test]
fn alpide_ib_lane_single_chip() {
    let mut dec = AlpideLaneFrameDecoder::new(Barrel::Inner);
    // chip header for chip 6, bunch counter 0x2A, a short data word,
    // then the trailer
    let frame = LaneDataFrame { lane_id: 6, lane_data: vec![0xA6, 0x2A, 0x40, 0x00, 0xB0] };
    assert!(dec.validate_alpide_frame(frame).is_ok());
}

#[test]
fn alpide_ib_lane_wrong_chip_id() {
    let mut dec = AlpideLaneFrameDecoder::new(Barrel::Inner);
    // chip id 5 on lane 6
    let frame = LaneDataFrame { lane_id: 6, lane_data: vec![0xE5, 0x2A] };
    let verdict = dec.validate_alpide_frame(frame);
    assert!(verdict.is_err());
    let msgs = verdict.unwrap_err();
    assert!(msgs.iter().any(|m| m.contains("order")), "{msgs:?}");
}

#[test]
fn alpide_ob_lane_seven_chips() {
    let mut dec = AlpideLaneFrameDecoder::new(Barrel::Outer);
    let mut bytes: Vec<u8> = Vec::new();
    for chip in 0u8..7 {
        bytes.push(0xE0 | chip);
        bytes.push(0x2A);
    }
    let frame = LaneDataFrame { lane_id: 3, lane_data: bytes };
    assert!(dec.validate_alpide_frame(frame).is_ok());
}

#[test]
fn alpide_ob_lane_high_order() {
    let mut dec = AlpideLaneFrameDecoder::new(Barrel::Outer);
    let mut bytes: Vec<u8> = Vec::new();
    for chip in 8u8..15 {
        bytes.push(0xE0 | chip);
        bytes.push(0x2A);
    }
    let frame = LaneDataFrame { lane_id: 3, lane_data: bytes };
    assert!(dec.validate_alpide_frame(frame).is_ok());
}

#[test]
fn alpide_ob_lane_wrong_order() {
    let mut dec = AlpideLaneFrameDecoder::new(Barrel::Outer);
    let mut bytes: Vec<u8> = Vec::new();
    // chips 1..=7: seven chips, but not a legal set
    for chip in 1u8..8 {
        bytes.push(0xE0 | chip);
        bytes.push(0x2A);
    }
    let frame = LaneDataFrame { lane_id: 3, lane_data: bytes };
    assert!(dec.validate_alpide_frame(frame).is_err());
}

#[test]
fn alpide_chip_bc_conflict() {
    let mut dec = AlpideLaneFrameDecoder::new(Barrel::Inner);
    // the same chip reports two conflicting bunch counters
    let frame = LaneDataFrame { lane_id: 6, lane_data: vec![0xA6, 0x2A, 0xB0, 0xA6, 0x2B, 0xB0] };
    let verdict = dec.validate_alpide_frame(frame);
    assert!(verdict.is_err());
    let msgs = verdict.unwrap_err();
    assert!(msgs.iter().any(|m| m.contains("conflicting")), "{msgs:?}");
}

#[test]
fn alpide_chip_bc_equal_re_report_passes() {
    let mut dec = AlpideLaneFrameDecoder::new(Barrel::Inner);
    // the same chip reports the same bunch counter twice: exactly one
    // value was recorded, so nothing is flagged
    let frame = LaneDataFrame { lane_id: 6, lane_data: vec![0xA6, 0x2A, 0xB0, 0xA6, 0x2A, 0xB0] };
    assert!(dec.validate_alpide_frame(frame).is_ok());
}

#[test]
fn alpide_chips_disagree_on_bc() {
    let mut dec = AlpideLaneFrameDecoder::new(Barrel::Outer);
    let mut bytes: Vec<u8> = Vec::new();
    for chip in 0u8..7 {
        bytes.push(0xE0 | chip);
        // one chip reports another bunch counter
        bytes.push(if chip == 3 { 0x2B } else { 0x2A });
    }
    let frame = LaneDataFrame { lane_id: 3, lane_data: bytes };
    let verdict = dec.validate_alpide_frame(frame);
    assert!(verdict.is_err());
    let msgs = verdict.unwrap_err();
    assert!(msgs.iter().any(|m| m.contains("Bunch counters mismatch")), "{msgs:?}");
}

#[test]
fn lane_bcs_agree() {
    let lanes = vec![
        ValidatedLane { lane_id: 6, bunch_counter: 0x2A },
        ValidatedLane { lane_id: 7, bunch_counter: 0x2A },
        ValidatedLane { lane_id: 8, bunch_counter: 0x2A },
    ];
    let mut msgs: Vec<String> = Vec::new();
    let mut ids: Vec<u8> = Vec::new();
    validate_lane_bcs(&lanes, &mut msgs, &mut ids);
    assert!(msgs.is_empty());
    assert!(ids.is_empty());
}

#[test]
fn lane_bcs_disagree() {
    let lanes = vec![
        ValidatedLane { lane_id: 6, bunch_counter: 0x2A },
        ValidatedLane { lane_id: 7, bunch_counter: 0x2B },
        ValidatedLane { lane_id: 8, bunch_counter: 0x2A },
    ];
    let mut msgs: Vec<String> = Vec::new();
    let mut ids: Vec<u8> = Vec::new();
    validate_lane_bcs(&lanes, &mut msgs, &mut ids);
    assert_eq!(msgs.len(), 1);
    // lanes grouped by bunch counter, in first-occurrence order
    assert_eq!(ids, vec![6, 8, 7]);
    assert!(msgs[0].contains("Mismatching bunch counters"), "{}", msgs[0]);
}

#[test]
fn trigger_period_counts() {
    // all in one orbit, bunch counters 100, 101, 103
    let tdhs = vec![(7u32, 100u16), (7, 101), (7, 103)];
    assert_eq!(check_trigger_periods(&tdhs, 1).len(), 1);
    assert_eq!(check_trigger_periods(&tdhs, 2).len(), 1);
    assert_eq!(check_trigger_periods(&tdhs, 0).len(), 2);
    // a pair across orbits is not compared
    let split = vec![(7u32, 100u16), (8, 300)];
    assert_eq!(check_trigger_periods(&split, 0).len(), 0);
    // the distance wraps around the 3564-slot orbit
    let wrap = vec![(7u32, 3563u16), (7, 0)];
    assert_eq!(check_trigger_periods(&wrap, 1).len(), 0);
}

#[test]
fn empty_input_is_clean() {
    let mut cfg = MockConfig::default();
    cfg.check = Some(Check::All(Target { system: None }));
    let res = run(&cfg, &Vec::new());
    assert_eq!(res.exit_code, 0);
    assert_eq!(res.stats.rdhs_seen, 0);
    assert_eq!(res.stats.hbfs, 0);
    assert_eq!(res.stats.err_count, 0);
    assert!(res.errors.is_empty());
}

#[test]
fn truncated_first_rdh_is_fatal() {
    let cfg = MockConfig::default();
    let res = run(&cfg, &vec![7u8, 64, 0]);
    assert_eq!(res.exit_code, 1);
    assert!(!res.errors.is_empty());
}

#[test]
fn unknown_version_exits_3() {
    let mut bytes = rdh_encode(&sample_rdh());
    bytes[0] = 9;
    let cfg = MockConfig::default();
    let res = run(&cfg, &bytes);
    assert_eq!(res.exit_code, 3);
}

#[test]
fn version_change_mid_run_exits_2() {
    let mut r = sample_rdh();
    r.memory_size = 64;
    r.offset_to_next = 64;
    r.stop_bit = 0;
    r.pages_counter = 0;
    let mut data = rdh_encode(&r);
    let mut second = r;
    second.header_id = 6;
    data.extend(rdh_encode(&second));
    let cfg = MockConfig::default();
    let res = run(&cfg, &data);
    assert_eq!(res.exit_code, 2);
}

#[test]
fn single_rdh_stop_page_is_a_valid_cdp() {
    let mut r = sample_rdh();
    r.memory_size = 64;
    r.offset_to_next = 64;
    r.pages_counter = 0;
    r.stop_bit = 1;
    let data = rdh_encode(&r);
    let mut cfg = MockConfig::default();
    cfg.check = Some(Check::All(Target { system: None }));
    let res = run(&cfg, &data);
    assert_eq!(res.exit_code, 0);
    assert!(res.errors.is_empty(), "{:?}", res.errors);
    assert_eq!(res.stats.rdhs_seen, 1);
    assert_eq!(res.stats.hbfs, 1);
    assert_eq!(res.stats.cdps, 1);
}

#[test]
fn max_tolerated_errors_stops_validation() {
    // two packets, each skipping a page number
    let mut r = sample_rdh();
    r.memory_size = 64;
    r.offset_to_next = 64;
    r.stop_bit = 0;
    r.pages_counter = 3;
    let mut data = rdh_encode(&r);
    r.pages_counter = 7;
    data.extend(rdh_encode(&r));
    let mut cfg = MockConfig::default();
    cfg.check = Some(Check::All(Target { system: None }));
    cfg.max_tolerate_errors = 1;
    let res = run(&cfg, &data);
    assert_eq!(res.errors.len(), 1, "{:?}", res.errors);
}

#[test]
fn test_serialize() {
    let counters = Counters { cdps: None, triggers_sent: None };
    let json = counters.to_json_pretty();
    println!("{json}");
    assert_eq!(
        json,
        r#"{
  "cdps": null,
  "triggers_sent": null
}"#
    );
}

#[test]
fn counters_serialize_values() {
    let counters = Counters { cdps: Some(10), triggers_sent: Some(3) };
    assert_eq!(
        counters.to_json_pretty(),
        "{\n  \"cdps\": 10,\n  \"triggers_sent\": 3\n}"
    );
    assert_eq!(counters.to_toml_string(), "cdps = 10\ntriggers_sent = 3\n");
    let partial = Counters { cdps: Some(10), triggers_sent: None };
    assert_eq!(partial.to_toml_string(), "cdps = 10\n");
}

#[test]
fn test_deserialize() {
    let json = r#"{ "cdps": 1, "triggers_sent": 1 }"#;
    let counters = Counters::from_json_str(json).unwrap();
    assert_eq!(counters.cdps, Some(1));

    let json = r#"{ "cdps": null, "triggers_sent": null }"#;
    let counters = Counters::from_json_str(json).unwrap();
    assert_eq!(counters.cdps, None);
}

#[test]
fn counters_round_trip() {
    let cases = [
        Counters { cdps: None, triggers_sent: None },
        Counters { cdps: Some(0), triggers_sent: None },
        Counters { cdps: None, triggers_sent: Some(4294967295) },
        Counters { cdps: Some(10), triggers_sent: Some(3) },
    ];
    for c in cases {
        assert_eq!(Counters::from_json_str(&c.to_json_pretty()), Some(c));
        assert_eq!(Counters::from_toml_str(&c.to_toml_string()), Some(c));
    }
    assert_eq!(Counters::from_json_str("{}"), None);
    assert_eq!(Counters::from_toml_str("cdps = x\n"), None);
    // a value beyond the u32 range is rejected
    assert_eq!(Counters::from_toml_str("cdps = 4294967296\n"), None);
}

#[test]
fn counters_compare_against_stats() {
    let mut stats = StatsCollector::new();
    stats.cdps = 10;
    stats.hbfs = 10;
    let good = Counters { cdps: Some(10), triggers_sent: None };
    assert!(good.compare(&stats).is_empty());
    let bad = Counters { cdps: Some(0), triggers_sent: None };
    let msgs = bad.compare(&stats);
    assert_eq!(msgs.len(), 1);
    assert!(msgs[0].contains("expect"), "{}", msgs[0]);
    assert!(msgs[0].contains("0"), "{}", msgs[0]);
    assert!(msgs[0].contains("10"), "{}", msgs[0]);
}

#[test]
fn validate_args_rules() {
    let mut cfg = MockConfig::default();
    assert!(cfg.validate_args().is_ok());
    cfg.check = Some(Check::Sanity(Target { system: Some(System::ITS_Stave) }));
    assert!(cfg.validate_args().is_err());
    cfg.check = Some(Check::All(Target { system: Some(System::ITS_Stave) }));
    cfg.its_trigger_period = Some(1);
    assert!(cfg.validate_args().is_ok());
    cfg.check = Some(Check::All(Target { system: Some(System::ITS) }));
    assert!(cfg.validate_args().is_err());
    cfg.its_trigger_period = None;
    cfg.any_errors_exit_code = Some(0);
    assert!(cfg.validate_args().is_err());
    cfg.any_errors_exit_code = Some(123);
    assert!(cfg.validate_args().is_ok());
    // an input stats file must carry a .json or .toml extension
    cfg.input_stats_file = Some(String::from("stats.yaml"));
    assert!(cfg.validate_args().is_err());
    cfg.input_stats_file = Some(String::from("stats.json"));
    assert!(cfg.validate_args().is_ok());
    cfg.input_stats_file = Some(String::from("stats.toml"));
    assert!(cfg.validate_args().is_ok());
}

#[test]
fn stats_file_extensions() {
    assert!(stats_ext_ok("out-stats.json"));
    assert!(stats_ext_ok("out-stats.toml"));
    assert!(!stats_ext_ok("out-stats.yaml"));
    assert!(!stats_ext_ok("stats"));
    assert!(!stats_ext_ok(""));
}

#[test]
fn dispatch_channel_capacities() {
    // the first worker gets 128, each later one doubles that per
    // worker, capped at 128 << 7
    assert_eq!(dispatch_chan_capacity(1), 128);
    assert_eq!(dispatch_chan_capacity(2), 256);
    assert_eq!(dispatch_chan_capacity(3), 512);
    assert_eq!(dispatch_chan_capacity(7), 8192);
    assert_eq!(dispatch_chan_capacity(8), 16384);
    assert_eq!(dispatch_chan_capacity(9), 16384);
}

#[test]
fn check_target_system() {
    assert_eq!(Check::All(Target { system: Some(System::ITS) }).target(), Some(System::ITS));
    assert_eq!(Check::Sanity(Target { system: None }).target(), None);
}

#[test]
fn stats_start_at_zero() {
    let s = Stats::new();
    assert_eq!(s.rdhs_seen, 0);
    assert_eq!(s.rdhs_filtered, 0);
    assert_eq!(s.payload_size, 0);
    assert!(s.links_observed.is_empty());
}

#[test]
fn output_mode_names() {
    assert_eq!(DataOutputMode::File.to_str(), "File");
    assert_eq!(DataOutputMode::Stdout.to_str(), "Stdout");
    assert_eq!(DataOutputMode::Disabled.to_str(), "None");
}

#[test]
fn number_rendering() {
    assert_eq!(dec_u64(0), "0");
    assert_eq!(dec_u64(1234567890), "1234567890");
    assert_eq!(hex_u64(0), "0");
    assert_eq!(hex_u64(0xA0), "A0");
    assert_eq!(hex_u64(0xDEADBEEF), "DEADBEEF");
}
