//! Whole-pipeline runs over a stream of 10 RDHs: 5 heartbeat frames of
//! two pages each from ITS layer 0, stave 12, link 8.

use fastpasta::config::{Check, DataOutputMode, MockConfig, System, Target, ViewCommands};
use fastpasta::pipeline::{run, RunResult};
use fastpasta::rdh::{rdh_encode, Rdh};

fn rdh_10(pages: u16, stop: u8, trigger: u32, memory: u16, packet_counter: u8) -> Rdh {
    Rdh {
        header_id: 7,
        header_size: 64,
        fee_id: 524,
        priority_bit: 0,
        system_id: 32,
        reserved0: 0,
        offset_to_next: memory,
        memory_size: memory,
        link_id: 8,
        packet_counter,
        cruid_dw: 0,
        bc_reserved0: 0,
        orbit: 0x200,
        dataformat: 2,
        trigger_type: trigger,
        pages_counter: pages,
        stop_bit: stop,
        detector_field: 0,
        par_bit: 0,
    }
}

/// The 10-RDH stream: five CDPs, each a page 0 with a full readout
/// frame (IHW, TDH, three IB lanes, TDT) and a stop page with the DDW.
fn fixture_10_rdh() -> Vec<u8> {
    let mut data: Vec<u8> = Vec::new();
    let mut hbf = 0;
    while hbf < 5 {
        data.extend(rdh_encode(&rdh_10(0, 0, 0x6A03, 124, 0)));
        // IHW
        data.extend_from_slice(&[0, 0, 0, 0, 0, 0, 0, 0, 0, 0xE0]);
        // TDH: bc 0x42, orbit 0x200, internal trigger set
        data.extend_from_slice(&[0x42, 0x00, 0x00, 0x02, 0x00, 0x00, 0x01, 0, 0, 0xE8]);
        // Lane data: one empty chip frame per lane, chip id = lane
        data.extend_from_slice(&[0xE6, 0x42, 0, 0, 0, 0, 0, 0, 0, 0x26]);
        data.extend_from_slice(&[0xE7, 0x42, 0, 0, 0, 0, 0, 0, 0, 0x27]);
        data.extend_from_slice(&[0xE8, 0x42, 0, 0, 0, 0, 0, 0, 0, 0x28]);
        // TDT
        data.extend_from_slice(&[0, 0, 0, 0, 0, 0, 0, 0, 0, 0xF0]);
        data.extend(rdh_encode(&rdh_10(1, 1, 0x6A13, 74, 1)));
        // DDW
        data.extend_from_slice(&[0, 0, 0, 0, 0, 0, 0, 0, 0, 0xE4]);
        hbf += 1;
    }
    data
}

fn count_ci_10(text: &str, pattern: &str) -> usize {
    let re = regex::RegexBuilder::new(pattern).case_insensitive(true).build().unwrap();
    re.find_iter(text).count()
}

fn stderr_text_10(res: &RunResult) -> String {
    let mut s = String::new();
    for line in &res.errors {
        s.push_str(line);
        s.push('\n');
    }
    for line in &res.logs {
        s.push_str(line);
        s.push('\n');
    }
    s
}

fn assert_no_errors_or_warn_10(stderr: &str) {
    assert_eq!(count_ci_10(stderr, "error - "), 0, "unexpected errors: {stderr}");
    assert_eq!(count_ci_10(stderr, "warn - "), 0, "unexpected warnings: {stderr}");
}

fn validate_report_summary_10(report: &str) {
    let patterns = [
        "Trigger Type.*0x6A03",
        "Trigger Type.*SOC",
        "RDH.*Version.*7",
        "Total.*RDHs.*10",
        "Total.*hbfs.*5",
        "((layers)|(staves)).*((layers)|(staves)).*L0_12",
    ];
    for pattern in patterns {
        assert_eq!(count_ci_10(report, pattern), 1, "pattern {pattern} in:\n{report}");
    }
}

fn check_cfg_10(check: Check) -> MockConfig {
    let mut cfg = MockConfig::default();
    cfg.check = Some(check);
    cfg.verbosity = 1;
    cfg
}

#[test]
fn fastpasta_10_rdh_view_rdh() {
    let mut cfg = MockConfig::default();
    cfg.view = Some(ViewCommands::Rdh);
    cfg.verbosity = 2;
    let res = run(&cfg, &fixture_10_rdh());
    assert_eq!(res.exit_code, 0);
    assert_eq!(count_ci_10(&res.report, ": .* (7|6) .* 64 .* (0|2)"), 10, "{}", res.report);
}

#[test]
fn fastpasta_10_rdh_check_sanity() {
    let cfg = check_cfg_10(Check::Sanity(Target { system: None }));
    let res = run(&cfg, &fixture_10_rdh());
    assert_eq!(res.exit_code, 0);
    assert_no_errors_or_warn_10(&stderr_text_10(&res));
    validate_report_summary_10(&res.report);
}

#[test]
fn check_sanity_its() {
    let cfg = check_cfg_10(Check::Sanity(Target { system: Some(System::ITS) }));
    let res = run(&cfg, &fixture_10_rdh());
    assert_eq!(res.exit_code, 0);
    assert_no_errors_or_warn_10(&stderr_text_10(&res));
    validate_report_summary_10(&res.report);
}

#[test]
fn check_all() {
    let cfg = check_cfg_10(Check::All(Target { system: None }));
    let res = run(&cfg, &fixture_10_rdh());
    assert_eq!(res.exit_code, 0);
    assert_no_errors_or_warn_10(&stderr_text_10(&res));
    validate_report_summary_10(&res.report);
}

#[test]
fn check_all_its() {
    let cfg = check_cfg_10(Check::All(Target { system: Some(System::ITS) }));
    let res = run(&cfg, &fixture_10_rdh());
    assert_eq!(res.exit_code, 0);
    assert_no_errors_or_warn_10(&stderr_text_10(&res));
    validate_report_summary_10(&res.report);
}

#[test]
fn check_all_its_trigger_period_stave_not_found() {
    let mut cfg = check_cfg_10(Check::All(Target { system: Some(System::ITS_Stave) }));
    cfg.verbosity = 2;
    cfg.its_trigger_period = Some(1);
    cfg.filter_its_stave = Some(String::from("L3_2"));
    let res = run(&cfg, &fixture_10_rdh());
    assert_eq!(res.exit_code, 0);
    assert_no_errors_or_warn_10(&stderr_text_10(&res));
    assert_eq!(count_ci_10(&res.report, "its stave.*none.*not found.*l3_2"), 1, "{}", res.report);
}

#[test]
fn check_all_its_trigger_period_mismatch() {
    let mut cfg = check_cfg_10(Check::All(Target { system: Some(System::ITS_Stave) }));
    cfg.verbosity = 3;
    cfg.its_trigger_period = Some(1);
    cfg.filter_its_stave = Some(String::from("L0_12"));
    let res = run(&cfg, &fixture_10_rdh());
    assert_eq!(res.exit_code, 0);
    let stderr = stderr_text_10(&res);
    assert_eq!(count_ci_10(&stderr, "error - "), 4, "{stderr}");
    assert_eq!(count_ci_10(&stderr, "warn - "), 0, "{stderr}");
    assert_eq!(count_ci_10(&stderr, r"period.*mismatch.*1 !="), 4, "{stderr}");
    assert_eq!(count_ci_10(&res.report, "its stave.*l0_12"), 1, "{}", res.report);
}

#[test]
fn check_all_its_trigger_period() {
    let mut cfg = check_cfg_10(Check::All(Target { system: Some(System::ITS_Stave) }));
    cfg.verbosity = 3;
    cfg.its_trigger_period = Some(0);
    cfg.filter_its_stave = Some(String::from("L0_12"));
    let res = run(&cfg, &fixture_10_rdh());
    assert_eq!(res.exit_code, 0);
    assert_no_errors_or_warn_10(&stderr_text_10(&res));
    assert_eq!(count_ci_10(&res.report, "its stave.*l0_12"), 1, "{}", res.report);
    assert_eq!(count_ci_10(&res.report, "chips validated: 15"), 1, "{}", res.report);
    assert_eq!(count_ci_10(&res.report, "lanes with errors: 0"), 1, "{}", res.report);
}

#[test]
fn check_all_its_stave_filter() {
    let mut cfg = check_cfg_10(Check::All(Target { system: Some(System::ITS_Stave) }));
    cfg.verbosity = 4;
    cfg.filter_its_stave = Some(String::from("L0_12"));
    let res = run(&cfg, &fixture_10_rdh());
    assert_eq!(res.exit_code, 0);
    assert_no_errors_or_warn_10(&stderr_text_10(&res));
    assert_eq!(count_ci_10(&res.report, "its stave.*l0_12"), 1, "{}", res.report);
    assert_eq!(count_ci_10(&res.report, "chips validated: 15"), 1, "{}", res.report);
    assert_eq!(count_ci_10(&res.report, "lanes with errors: 0"), 1, "{}", res.report);
}

#[test]
fn check_all_its_stave() {
    let mut cfg = check_cfg_10(Check::All(Target { system: Some(System::ITS_Stave) }));
    cfg.verbosity = 4;
    let res = run(&cfg, &fixture_10_rdh());
    assert_eq!(res.exit_code, 0);
    assert_no_errors_or_warn_10(&stderr_text_10(&res));
    assert_eq!(count_ci_10(&res.report, "chips validated: 15"), 1, "{}", res.report);
    assert_eq!(count_ci_10(&res.report, "lanes with errors: 0"), 1, "{}", res.report);
}

#[test]
fn filter_its_stave() {
    let mut cfg = MockConfig::default();
    cfg.filter_its_stave = Some(String::from("L0_12"));
    cfg.output = Some(String::from("out.raw"));
    cfg.output_mode = DataOutputMode::File;
    let res = run(&cfg, &fixture_10_rdh());
    assert_eq!(res.exit_code, 0);
    assert_no_errors_or_warn_10(&stderr_text_10(&res));
    assert_eq!(count_ci_10(&res.report, r"filter.*stats"), 1, "{}", res.report);
    assert_eq!(count_ci_10(&res.report, r".*filter.*stats"), 1, "{}", res.report);
    assert_eq!(count_ci_10(&res.report, r"\|.*RDHs.*10"), 1, "{}", res.report);
    assert_eq!(count_ci_10(&res.report, r".*L0_12"), 1, "{}", res.report);
}

#[test]
fn filter_its_stave_not_found() {
    let mut cfg = MockConfig::default();
    let stave_to_filter = "L3_0";
    cfg.filter_its_stave = Some(String::from(stave_to_filter));
    cfg.output = Some(String::from("out.raw"));
    cfg.output_mode = DataOutputMode::File;
    let res = run(&cfg, &fixture_10_rdh());
    assert_eq!(res.exit_code, 0);
    assert_no_errors_or_warn_10(&stderr_text_10(&res));
    assert_eq!(count_ci_10(&res.report, "Total.*RDHs.*10"), 1, "{}", res.report);
    assert_eq!(count_ci_10(&res.report, r".*filter.*stats"), 1, "{}", res.report);
    assert_eq!(count_ci_10(&res.report, r"\|.* RDHs.*0"), 1, "{}", res.report);
    let not_found = String::from(r".*not found:.*") + stave_to_filter;
    assert_eq!(count_ci_10(&res.report, &not_found), 1, "{}", res.report);
    assert!(res.output.is_empty());
}

#[test]
fn filter_fee() {
    let mut cfg = MockConfig::default();
    let fee_id_to_filter = "524";
    cfg.filter_fee = Some(524);
    cfg.output = Some(String::from("out.raw"));
    cfg.output_mode = DataOutputMode::File;
    let data = fixture_10_rdh();
    let res = run(&cfg, &data);
    assert_eq!(res.exit_code, 0);
    assert_no_errors_or_warn_10(&stderr_text_10(&res));
    assert_eq!(count_ci_10(&res.report, "Total.*RDHs.*10"), 1, "{}", res.report);
    assert_eq!(count_ci_10(&res.report, r".*filter.*stats"), 1, "{}", res.report);
    let fee_pattern = String::from("FEE ID.*") + fee_id_to_filter;
    assert_eq!(count_ci_10(&res.report, &fee_pattern), 2, "{}", res.report);
    assert_eq!(count_ci_10(&res.report, r"\|.* RDHs.*10"), 1, "{}", res.report);
    // Every RDH matches, so the filter replays the input, byte for byte.
    assert_eq!(res.output, data);
}

#[test]
fn filter_fee_not_found() {
    let mut cfg = MockConfig::default();
    let fee_id_to_filter = "1337";
    cfg.filter_fee = Some(1337);
    cfg.output = Some(String::from("out.raw"));
    cfg.output_mode = DataOutputMode::File;
    let res = run(&cfg, &fixture_10_rdh());
    assert_eq!(res.exit_code, 0);
    assert_no_errors_or_warn_10(&stderr_text_10(&res));
    assert_eq!(count_ci_10(&res.report, "Total.*RDHs.*10"), 1, "{}", res.report);
    assert_eq!(count_ci_10(&res.report, r".*filter.*stats"), 1, "{}", res.report);
    let not_found = String::from("FEE.*not found.*") + fee_id_to_filter;
    assert_eq!(count_ci_10(&res.report, &not_found), 1, "{}", res.report);
    assert_eq!(count_ci_10(&res.report, r"\|.* RDHs.* 0 "), 1, "{}", res.report);
}

#[test]
fn filter_link_check_sanity_pipe_between_fastpasta() {
    // Filter link 8 with the output on stdout, then feed the filtered
    // bytes to a second instance that checks them.
    let mut cfg1 = MockConfig::default();
    cfg1.filter_link = Some(8);
    cfg1.output_mode = DataOutputMode::Stdout;
    let res1 = run(&cfg1, &fixture_10_rdh());
    assert_eq!(res1.exit_code, 0);
    assert_no_errors_or_warn_10(&stderr_text_10(&res1));

    let cfg2 = check_cfg_10(Check::Sanity(Target { system: None }));
    let res2 = run(&cfg2, &res1.output);
    assert_eq!(res2.exit_code, 0);
    assert_no_errors_or_warn_10(&stderr_text_10(&res2));
    validate_report_summary_10(&res2.report);
}

#[test]
fn check_sanity_custom_exit_code() {
    let mut cfg = check_cfg_10(Check::Sanity(Target { system: None }));
    cfg.any_errors_exit_code = Some(1);
    let res = run(&cfg, &fixture_10_rdh());
    assert_eq!(res.exit_code, 0);
    assert_no_errors_or_warn_10(&stderr_text_10(&res));
    validate_report_summary_10(&res.report);
}

#[test]
fn view_its_readout_frame() {
    let mut cfg = MockConfig::default();
    cfg.view = Some(ViewCommands::ItsReadoutFrames);
    let res = run(&cfg, &fixture_10_rdh());
    assert_eq!(res.exit_code, 0);
    assert_eq!(res.report.matches("RDH").count(), 10, "{}", res.report);
    assert_eq!(res.report.matches("IHW").count(), 5, "{}", res.report);
    assert_eq!(res.report.matches("TDH").count(), 5, "{}", res.report);
    assert_eq!(res.report.matches("TDT").count(), 5, "{}", res.report);
    assert_eq!(res.report.matches("DDW").count(), 5, "{}", res.report);
}

#[test]
fn view_its_readout_frame_data() {
    let mut cfg = MockConfig::default();
    cfg.view = Some(ViewCommands::ItsReadoutFramesData);
    let res = run(&cfg, &fixture_10_rdh());
    assert_eq!(res.exit_code, 0);
    assert_eq!(res.report.matches("RDH").count(), 10, "{}", res.report);
    assert_eq!(res.report.matches("IHW").count(), 5, "{}", res.report);
    assert_eq!(res.report.matches("TDH").count(), 5, "{}", res.report);
    assert_eq!(res.report.matches("TDT").count(), 5, "{}", res.report);
    assert_eq!(res.report.matches("DDW").count(), 5, "{}", res.report);
    // 3 data lanes, expect to see data from all of them 5 times.
    assert_eq!(count_ci_10(&res.report, "data.*26]"), 5, "{}", res.report);
    assert_eq!(count_ci_10(&res.report, "data.*27]"), 5, "{}", res.report);
    assert_eq!(count_ci_10(&res.report, "data.*28]"), 5, "{}", res.report);
}
